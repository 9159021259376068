//! Managed game builds: where a stage goes, who owns the build directory and how files are
//! replaced.
//!
//! Each function takes what the application found on disk and answers what to do next.
use vstd::prelude::*;

use crate::build_ownership;
use crate::cancellation;
use crate::cancellation::{IoFault, IoFaultKind};
use crate::managed_files;
use crate::mirror;
use crate::mirror::{EntryKind, MirrorInventory, MirrorStats, MirroredFileAction};
use crate::paths;
use crate::paths::ShownPath;
use crate::stage_table::RuntimeStageTarget;
use crate::text;

verus! {

pub const MANAGED_BUILD_MARKER_NAME: &'static str = ".smsbuild-owner.toml";

pub const MANAGED_BUILD_MARKER_KIND: &'static str = "sms-editor-managed-build";

pub const MANAGED_BUILD_MARKER_VERSION: u32 = 1;

pub const MAX_MARKER_BYTES: u64 = 65536;

pub const MAX_RUNTIME_STAGE_TABLE_BYTES: u64 = 16777216;

/// The directory of the runnable copy, below the build root.
pub const RUN_ROOT_NAME: &'static str = "run-root";

/// The directory of the written stages, below the build root.
pub const MOD_ROOT_NAME: &'static str = "mod-root";

/// How often a temporary name is tried before a write gives up.
pub const MAX_TEMPORARY_ATTEMPTS: u32 = 64;

/// Why a stage has no place in a managed build.
#[derive(Debug, Clone, Copy, PartialEq, Eq, Structural)]
pub enum StagePathError {
    BaseMismatch,
    OutsideBase,
    UnsafeComponent,
    UnsupportedExtension,
}

/// The name is that of a stage archive.
pub open spec fn is_archive_name(name: Seq<char>) -> bool {
    match paths::split_name(name).1 {
        Some(extension) => text::same_ignoring_case(extension, "szs"@) || text::same_ignoring_case(
            extension,
            "arc"@,
        ),
        None => false,
    }
}

/// Why a stage has no place in a managed build.
pub open spec fn stage_path_fault(
    project_base: Seq<paths::ComponentView>,
    document_base: Seq<paths::ComponentView>,
    source: Seq<paths::ComponentView>,
    fold_case: bool,
) -> Option<StagePathError> {
    let tail = source.skip(project_base.len() as int);
    if !paths::same_path(project_base, document_base, fold_case) {
        Some(StagePathError::BaseMismatch)
    } else if !paths::is_within(source, project_base, fold_case) || paths::same_path(
        source,
        project_base,
        fold_case,
    ) {
        Some(StagePathError::OutsideBase)
    } else if !paths::all_normal(tail) {
        Some(StagePathError::UnsafeComponent)
    } else if !is_archive_name(paths::names(tail).last()) {
        Some(StagePathError::UnsupportedExtension)
    } else {
        None
    }
}

/// The names of a stage below the extracted game.
pub open spec fn stage_names(
    project_base: Seq<paths::ComponentView>,
    source: Seq<paths::ComponentView>,
) -> Seq<Seq<char>> {
    paths::names(source.skip(project_base.len() as int))
}

fn is_stage_archive(name: &str) -> (r: bool)
    ensures
        r == is_archive_name(name@),
{
    let (_, extension) = paths::split_file_name(name);
    match extension {
        Some(extension) => text::eq_ignoring_case(extension.as_str(), "szs")
            || text::eq_ignoring_case(extension.as_str(), "arc"),
        None => false,
    }
}

/// Where a stage lies below the extracted game. The open document has to belong to the project's
/// game, and the stage has to be an archive below it.
pub fn managed_stage_relative_path_from_source(
    project_base: &ShownPath,
    document_base: &ShownPath,
    source: &ShownPath,
    fold_case: bool,
) -> (r: Result<Vec<String>, StagePathError>)
    ensures
        match stage_path_fault(
            project_base.parts(),
            document_base.parts(),
            source.parts(),
            fold_case,
        ) {
            Some(fault) => r == Err::<Vec<String>, StagePathError>(fault),
            None => r matches Ok(names) && text::views(names@) == stage_names(
                project_base.parts(),
                source.parts(),
            ) && names@.len() > 0,
        },
{
    if !paths::paths_equal_normalized(
        project_base.components.as_slice(),
        document_base.components.as_slice(),
        fold_case,
    ) {
        return Err(StagePathError::BaseMismatch);
    }
    if !paths::path_is_same_or_child(
        source.components.as_slice(),
        project_base.components.as_slice(),
        fold_case,
    ) || paths::paths_equal_normalized(
        source.components.as_slice(),
        project_base.components.as_slice(),
        fold_case,
    ) {
        return Err(StagePathError::OutsideBase);
    }
    proof {
        lemma_source_is_longer(source.parts(), project_base.parts(), fold_case);
    }
    match paths::normal_names(source.components.as_slice(), project_base.components.len()) {
        Some(names) => {
            let ghost wanted = stage_names(project_base.parts(), source.parts());
            proof {
                assert(text::views(names@).len() == names@.len());
                assert(names@[names@.len() - 1]@ == wanted.last());
            }
            if is_stage_archive(names[names.len() - 1].as_str()) {
                Ok(names)
            } else {
                Err(StagePathError::UnsupportedExtension)
            }
        },
        None => Err(StagePathError::UnsafeComponent),
    }
}

proof fn lemma_source_is_longer(
    source: Seq<paths::ComponentView>,
    base: Seq<paths::ComponentView>,
    fold_case: bool,
)
    requires
        paths::is_within(source, base, fold_case),
        !paths::same_path(source, base, fold_case),
    ensures
        source.len() > base.len(),
{
    if source.len() == base.len() {
        assert forall|i: int| 0 <= i < source.len() implies paths::same_component(
            #[trigger] base[i],
            source[i],
            fold_case,
        ) by {
            assert(paths::same_component(source[i], base[i], fold_case));
        }
    }
}

/// A stage that has a place in a build goes back to where it came from: below the game, its names
/// are the rest of its own path.
pub proof fn law_stage_keeps_its_place(
    project_base: Seq<paths::ComponentView>,
    document_base: Seq<paths::ComponentView>,
    source: Seq<paths::ComponentView>,
    fold_case: bool,
)
    requires
        stage_path_fault(project_base, document_base, source, fold_case) is None,
    ensures
        stage_names(project_base, source).len() > 0,
        source == source.take(project_base.len() as int) + Seq::new(
            stage_names(project_base, source).len(),
            |i: int| paths::ComponentView::Normal(stage_names(project_base, source)[i]),
        ),
{
    lemma_source_is_longer(source, project_base, fold_case);
    let tail = source.skip(project_base.len() as int);
    let rebuilt = Seq::new(
        stage_names(project_base, source).len(),
        |i: int| paths::ComponentView::Normal(stage_names(project_base, source)[i]),
    );
    assert(tail =~= rebuilt) by {
        assert forall|i: int| 0 <= i < tail.len() implies tail[i] == #[trigger] rebuilt[i] by {
            assert(tail[i] is Normal);
        }
    }
    assert(source =~= source.take(project_base.len() as int) + tail);
}

impl StagePathError {
    /// The complaint; `relative` are the names of the stage below the game.
    pub open spec fn text(
        self,
        project_base: Seq<char>,
        document_base: Seq<char>,
        source: Seq<char>,
        relative: Seq<char>,
    ) -> Seq<char> {
        match self {
            StagePathError::BaseMismatch => "Stage base '"@ + document_base
                + "' does not match project base '"@ + project_base + "'"@,
            StagePathError::OutsideBase =>
            "Stage source identity must be a file beneath the extracted base game: "@ + source,
            StagePathError::UnsafeComponent =>
            "Stage source identity produced an unsafe relative path: "@ + source,
            StagePathError::UnsupportedExtension =>
            "Managed stage source must use a .szs or .arc extension: "@ + relative,
        }
    }

    /// The complaint, with the paths as they are shown.
    pub fn message(
        &self,
        project_base: &str,
        document_base: &str,
        source: &str,
        relative: &str,
    ) -> (r: String)
        ensures
            r@ == self.text(project_base@, document_base@, source@, relative@),
    {
        match *self {
            StagePathError::BaseMismatch => "Stage base '".to_owned().concat(document_base).concat(
                "' does not match project base '",
            ).concat(project_base).concat("'"),
            StagePathError::OutsideBase =>
            "Stage source identity must be a file beneath the extracted base game: ".to_owned().concat(
            source),
            StagePathError::UnsafeComponent =>
            "Stage source identity produced an unsafe relative path: ".to_owned().concat(source),
            StagePathError::UnsupportedExtension =>
            "Managed stage source must use a .szs or .arc extension: ".to_owned().concat(relative),
        }
    }
}

/// Why a build of a stage does not begin.
#[derive(Debug, Clone, Copy, PartialEq, Eq, Structural)]
pub enum StageBuildError {
    Cancelled,
    EmptyArchive,
    Path(StagePathError),
    OutsideFiles,
}

/// Where a build writes a stage: the directory below the build root, the names of the stage's
/// folder below that directory, and its own name.
#[derive(Debug)]
pub struct StagePlace {
    pub root: &'static str,
    pub parent: Vec<String>,
    pub name: String,
}

impl StagePlace {
    /// The names of the stage below its directory.
    pub open spec fn names(self) -> Seq<Seq<char>> {
        text::views(self.parent@).push(self.name@)
    }

    /// The names of the stage below the build root.
    pub open spec fn output(self) -> Seq<Seq<char>> {
        seq![self.root@] + self.names()
    }
}

fn place_of(root: &'static str, names: Vec<String>) -> (r: StagePlace)
    requires
        names@.len() > 0,
    ensures
        r.root == root,
        r.names() == text::views(names@),
{
    let ghost wanted = text::views(names@);
    let mut parent = names;
    let name = parent.pop().unwrap();
    let r = StagePlace { root, parent, name };
    proof {
        assert(r.names() =~= wanted);
    }
    r
}

/// Why writing a stage archive does not begin.
pub open spec fn stage_write_fault(
    archive: Seq<u8>,
    project_base: Seq<paths::ComponentView>,
    document_base: Seq<paths::ComponentView>,
    source: Seq<paths::ComponentView>,
    fold_case: bool,
) -> Option<StageBuildError> {
    if archive.len() == 0 {
        Some(StageBuildError::EmptyArchive)
    } else {
        match stage_path_fault(project_base, document_base, source, fold_case) {
            Some(fault) => Some(StageBuildError::Path(fault)),
            None => None,
        }
    }
}

/// Plans where a stage archive is written below the mod root, unless the build was cancelled.
pub fn write_managed_stage_archive_from_source_with_cancel(
    archive: &[u8],
    project_base: &ShownPath,
    document_base: &ShownPath,
    source: &ShownPath,
    fold_case: bool,
    cancelled: bool,
) -> (r: Result<StagePlace, StageBuildError>)
    ensures
        cancelled ==> r == Err::<StagePlace, StageBuildError>(StageBuildError::Cancelled),
        !cancelled ==> match stage_write_fault(
            archive@,
            project_base.parts(),
            document_base.parts(),
            source.parts(),
            fold_case,
        ) {
            Some(fault) => r == Err::<StagePlace, StageBuildError>(fault),
            None => r matches Ok(place) && place.names() == stage_names(
                project_base.parts(),
                source.parts(),
            ) && place.root@ == MOD_ROOT_NAME@ && place.output() == seq!["mod-root"@]
                + stage_names(project_base.parts(), source.parts()),
        },
{
    if cancelled {
        return Err(StageBuildError::Cancelled);
    }
    if archive.len() == 0 {
        return Err(StageBuildError::EmptyArchive);
    }
    match managed_stage_relative_path_from_source(project_base, document_base, source, fold_case) {
        Ok(names) => Ok(place_of(MOD_ROOT_NAME, names)),
        Err(fault) => Err(StageBuildError::Path(fault)),
    }
}

/// Plans where a stage archive is written below the mod root.
pub fn write_managed_stage_archive_from_source(
    archive: &[u8],
    project_base: &ShownPath,
    document_base: &ShownPath,
    source: &ShownPath,
    fold_case: bool,
) -> (r: Result<StagePlace, StageBuildError>)
    ensures
        match stage_write_fault(
            archive@,
            project_base.parts(),
            document_base.parts(),
            source.parts(),
            fold_case,
        ) {
            Some(fault) => r == Err::<StagePlace, StageBuildError>(fault),
            None => r matches Ok(place) && place.names() == stage_names(
                project_base.parts(),
                source.parts(),
            ) && place.root@ == MOD_ROOT_NAME@ && place.output() == seq!["mod-root"@]
                + stage_names(project_base.parts(), source.parts()),
        },
{
    write_managed_stage_archive_from_source_with_cancel(
        archive,
        project_base,
        document_base,
        source,
        fold_case,
        false,
    )
}

/// Why a runnable copy is not prepared.
pub open spec fn run_mirror_fault(
    archive: Seq<u8>,
    project_base: Seq<paths::ComponentView>,
    document_base: Seq<paths::ComponentView>,
    source: Seq<paths::ComponentView>,
    fold_case: bool,
) -> Option<StageBuildError> {
    match stage_write_fault(archive, project_base, document_base, source, fold_case) {
        Some(fault) => Some(fault),
        None => if text::same_ignoring_case(stage_names(project_base, source)[0], "files"@) {
            None
        } else {
            Some(StageBuildError::OutsideFiles)
        },
    }
}

/// Plans where a runnable copy of the game takes a stage, unless the build was cancelled. A stage
/// that the game loads lies in its `files` directory.
pub fn prepare_managed_run_mirror_from_source_with_cancel(
    archive: &[u8],
    project_base: &ShownPath,
    document_base: &ShownPath,
    source: &ShownPath,
    fold_case: bool,
    cancelled: bool,
) -> (r: Result<StagePlace, StageBuildError>)
    ensures
        cancelled ==> r == Err::<StagePlace, StageBuildError>(StageBuildError::Cancelled),
        !cancelled ==> match run_mirror_fault(
            archive@,
            project_base.parts(),
            document_base.parts(),
            source.parts(),
            fold_case,
        ) {
            Some(fault) => r == Err::<StagePlace, StageBuildError>(fault),
            None => r matches Ok(place) && place.names() == stage_names(
                project_base.parts(),
                source.parts(),
            ) && place.root@ == RUN_ROOT_NAME@ && place.output() == seq!["run-root"@]
                + stage_names(project_base.parts(), source.parts()),
        },
{
    if cancelled {
        return Err(StageBuildError::Cancelled);
    }
    if archive.len() == 0 {
        return Err(StageBuildError::EmptyArchive);
    }
    match managed_stage_relative_path_from_source(project_base, document_base, source, fold_case) {
        Ok(names) => {
            proof {
                assert(text::views(names@)[0] == names@[0]@);
            }
            if text::eq_ignoring_case(names[0].as_str(), "files") {
                Ok(place_of(RUN_ROOT_NAME, names))
            } else {
                Err(StageBuildError::OutsideFiles)
            }
        },
        Err(fault) => Err(StageBuildError::Path(fault)),
    }
}

/// Plans where a runnable copy of the game takes a stage.
pub fn prepare_managed_run_mirror_from_source(
    archive: &[u8],
    project_base: &ShownPath,
    document_base: &ShownPath,
    source: &ShownPath,
    fold_case: bool,
) -> (r: Result<StagePlace, StageBuildError>)
    ensures
        match run_mirror_fault(
            archive@,
            project_base.parts(),
            document_base.parts(),
            source.parts(),
            fold_case,
        ) {
            Some(fault) => r == Err::<StagePlace, StageBuildError>(fault),
            None => r matches Ok(place) && place.names() == stage_names(
                project_base.parts(),
                source.parts(),
            ) && place.root@ == RUN_ROOT_NAME@ && place.output() == seq!["run-root"@]
                + stage_names(project_base.parts(), source.parts()),
        },
{
    prepare_managed_run_mirror_from_source_with_cancel(
        archive,
        project_base,
        document_base,
        source,
        fold_case,
        false,
    )
}

impl StageBuildError {
    /// The complaint.
    pub open spec fn text(
        self,
        project_base: Seq<char>,
        document_base: Seq<char>,
        source: Seq<char>,
        relative: Seq<char>,
    ) -> Seq<char> {
        match self {
            StageBuildError::Cancelled => cancellation::cancelled_report(),
            StageBuildError::EmptyArchive => "Refusing to write an empty managed stage archive"@,
            StageBuildError::Path(fault) => fault.text(
                project_base,
                document_base,
                source,
                relative,
            ),
            StageBuildError::OutsideFiles =>
            "Runnable stage source must be inside the extracted game's files directory: "@
                + relative,
        }
    }

    /// The complaint, with the paths as they are shown.
    pub fn message(
        &self,
        project_base: &str,
        document_base: &str,
        source: &str,
        relative: &str,
    ) -> (r: String)
        ensures
            r@ == self.text(project_base@, document_base@, source@, relative@),
    {
        match self {
            StageBuildError::Cancelled => match cancellation::cancellation_of(true) {
                Err(report) => report,
                Ok(()) => String::new(),
            },
            StageBuildError::EmptyArchive =>
            "Refusing to write an empty managed stage archive".to_owned(),
            StageBuildError::Path(fault) => fault.message(
                project_base,
                document_base,
                source,
                relative,
            ),
            StageBuildError::OutsideFiles =>
            "Runnable stage source must be inside the extracted game's files directory: ".to_owned().concat(
            relative),
        }
    }
}

/// The complaint about a build root, if any: it is a link, or it overlaps the extracted game or
/// the project's own data.
pub open spec fn build_root_complaint(
    configured: Seq<char>,
    kind: Option<EntryKind>,
    build_root: ShownPath,
    base_root: ShownPath,
    data_root: ShownPath,
    fold_case: bool,
) -> Option<Seq<char>> {
    if kind == Some(EntryKind::Link) {
        Some(build_ownership::link_message("managed build root"@, configured))
    } else if paths::overlap(build_root.parts(), base_root.parts(), fold_case) {
        Some(
            paths::overlap_message(
                build_root.shown@,
                base_root.shown@,
                "managed build root"@,
                "extracted base game"@,
            ),
        )
    } else if paths::overlap(build_root.parts(), data_root.parts(), fold_case) {
        Some(
            paths::overlap_message(
                build_root.shown@,
                data_root.shown@,
                "managed build root"@,
                "project data"@,
            ),
        )
    } else {
        None
    }
}

/// Where a managed build may write: a root that is no link and overlaps neither the extracted game
/// nor the project's own data. `configured` is the root as the project has it, `kind` what stands
/// there, and `build_root` the same root as an absolute path.
pub fn resolve_managed_build_root(
    configured: &str,
    kind: Option<EntryKind>,
    build_root: ShownPath,
    base_root: &ShownPath,
    data_root: &ShownPath,
    fold_case: bool,
) -> (r: Result<ShownPath, String>)
    ensures
        match build_root_complaint(
            configured@,
            kind,
            build_root,
            *base_root,
            *data_root,
            fold_case,
        ) {
            Some(complaint) => r matches Err(e) && e@ == complaint,
            None => r == Ok::<ShownPath, String>(build_root),
        },
        kind == Some(EntryKind::Link) ==> r is Err,
        r matches Ok(root) ==> root == build_root && !paths::overlap(
            root.parts(),
            base_root.parts(),
            fold_case,
        ) && !paths::overlap(root.parts(), data_root.parts(), fold_case),
{
    if let Some(kind) = kind {
        match build_ownership::reject_link_or_reparse(kind, configured, "managed build root") {
            Ok(()) => {},
            Err(e) => return Err(e),
        }
    }
    match paths::reject_overlap(
        &build_root,
        base_root,
        "managed build root",
        "extracted base game",
        fold_case,
    ) {
        Ok(()) => {},
        Err(e) => return Err(e),
    }
    match paths::reject_overlap(
        &build_root,
        data_root,
        "managed build root",
        "project data",
        fold_case,
    ) {
        Ok(()) => Ok(build_root),
        Err(e) => Err(e),
    }
}

/// The path of a stage's archive; a stage without one cannot be built.
pub fn require_stage_source<P>(stage_id: &str, source: Option<P>) -> (r: Result<P, String>)
    ensures
        match source {
            Some(path) => r == Ok::<P, String>(path),
            None => r matches Err(e) && e@ == "Stage '"@ + stage_id@
                + "' has no semantic archive source identity"@,
        },
{
    match source {
        Some(path) => Ok(path),
        None => Err(
            "Stage '".to_owned().concat(stage_id).concat(
                "' has no semantic archive source identity",
            ),
        ),
    }
}

/// A written stage archive.
#[derive(Debug)]
pub struct ManagedStageBuildOutcome {
    pub stage: StagePlace,
    /// The names of the ownership marker below the build root.
    pub marker: Vec<String>,
    pub size_bytes: usize,
    pub replaced: bool,
}

/// Completes the writing of a stage archive over what stood at its place before.
pub fn finish_managed_stage_archive(
    stage: StagePlace,
    archive: &[u8],
    existing: Option<EntryKind>,
    path: &str,
) -> (r: Result<ManagedStageBuildOutcome, IoFault>)
    ensures
        existing matches Some(kind) && kind != EntryKind::File ==> (r matches Err(fault)
            && fault.kind == IoFaultKind::InvalidInput && fault.message@
            == managed_files::output_message(path@)),
        existing is None || existing == Some(EntryKind::File) ==> (r matches Ok(outcome) && {
            &&& outcome.stage == stage
            &&& text::views(outcome.marker@) == seq![MANAGED_BUILD_MARKER_NAME@]
            &&& outcome.size_bytes == archive@.len()
            &&& outcome.replaced == (existing is Some)
        }),
{
    match managed_files::atomic_write_with_cancel(existing, path) {
        Err(fault) => Err(fault),
        Ok(replaced) => {
            let mut marker: Vec<String> = Vec::new();
            marker.push(MANAGED_BUILD_MARKER_NAME.to_owned());
            proof {
                assert(text::views(marker@) =~= seq![MANAGED_BUILD_MARKER_NAME@]);
            }
            Ok(ManagedStageBuildOutcome { stage, marker, size_bytes: archive.len(), replaced })
        },
    }
}

/// A prepared runnable copy of the game.
#[derive(Debug)]
pub struct ManagedRunMirrorOutcome {
    pub stage: StagePlace,
    /// The names of the executable below the build root.
    pub main_dol: Vec<String>,
    pub stage_size_bytes: usize,
    pub stage_replaced: bool,
    pub stats: MirrorStats,
}

/// The executable of the runnable copy, below the build root.
pub open spec fn run_main_dol() -> Seq<Seq<char>> {
    seq!["run-root"@] + mirror::main_dol()
}

/// Completes a runnable copy: what was done with each file of the game, in the order of the
/// inventory, and with the project's stage table where it has one. Every file counts once, as
/// copied or as kept.
pub fn finish_managed_run_mirror(
    stage: StagePlace,
    archive: &[u8],
    stage_replaced: bool,
    inventory: &MirrorInventory,
    actions: &[MirroredFileAction],
    table_reused: Option<bool>,
    removed_entries: usize,
) -> (r: ManagedRunMirrorOutcome)
    requires
        actions@.len() == inventory.files@.len(),
        inventory.files@.len() < usize::MAX,
    ensures
        r.stage == stage,
        text::views(r.main_dol@) == run_main_dol(),
        r.stage_size_bytes == archive@.len(),
        r.stage_replaced == stage_replaced,
        r.stats.removed_entries == removed_entries,
        r.stats.copied_files == mirror::actions_of(
            actions@,
            MirroredFileAction::Copied,
            actions@.len(),
        ) + (if table_reused == Some(false) {
            1int
        } else {
            0
        }),
        r.stats.reused_files == mirror::actions_of(
            actions@,
            MirroredFileAction::Reused,
            actions@.len(),
        ) + (if table_reused == Some(true) {
            1int
        } else {
            0
        }),
        r.stats.copied_files + r.stats.reused_files == inventory.files@.len() + (
        if table_reused is Some {
            1int
        } else {
            0
        }),
{
    let mut stats = MirrorStats { copied_files: 0, reused_files: 0, removed_entries };
    let mut i: usize = 0;
    while i < actions.len()
        invariant
            i <= actions.len(),
            actions@.len() < usize::MAX,
            stats.removed_entries == removed_entries,
            stats.copied_files == mirror::actions_of(
                actions@,
                MirroredFileAction::Copied,
                i as nat,
            ),
            stats.reused_files == mirror::actions_of(
                actions@,
                MirroredFileAction::Reused,
                i as nat,
            ),
            stats.copied_files + stats.reused_files == i,
        decreases actions.len() - i,
    {
        stats.count(actions[i]);
        i += 1;
    }
    mirror::install_project_runtime_stage_table(&mut stats, table_reused);
    let mut main_dol: Vec<String> = Vec::new();
    main_dol.push(RUN_ROOT_NAME.to_owned());
    main_dol.push("sys".to_owned());
    main_dol.push("main.dol".to_owned());
    proof {
        assert(text::views(main_dol@) =~= run_main_dol());
    }
    ManagedRunMirrorOutcome {
        stage,
        main_dol,
        stage_size_bytes: archive.len(),
        stage_replaced,
        stats,
    }
}

/// A built game.
#[derive(Debug)]
pub struct ManagedGameBuildOutcome {
    pub run: ManagedRunMirrorOutcome,
}

/// A patched executable.
#[derive(Debug, Clone, Copy, PartialEq, Eq, Structural)]
pub struct PatchedExecutable {
    pub size_bytes: usize,
    pub logo_bypass_address: u32,
    pub hook_address: u32,
    pub movie_hook_address: u32,
    pub stub_address: u32,
}

/// An executable that boots straight into a stage.
#[derive(Debug)]
pub struct ManagedDirectBootOutcome {
    pub target: RuntimeStageTarget,
    pub matching_contexts: usize,
    pub reused: bool,
    pub executable: PatchedExecutable,
}

/// A game that is ready to run.
#[derive(Debug)]
pub struct ManagedGameLaunchOutcome {
    pub run: ManagedRunMirrorOutcome,
    pub direct_boot: ManagedDirectBootOutcome,
}

/// Completes a launch with the executable that was installed for it, unless it was cancelled.
pub fn prepare_managed_game_launch(
    build: ManagedGameBuildOutcome,
    direct_boot: ManagedDirectBootOutcome,
    cancelled: bool,
) -> (r: Result<ManagedGameLaunchOutcome, String>)
    ensures
        r is Err <==> cancelled,
        r matches Err(report) ==> report@ == cancellation::cancelled_report(),
        r matches Ok(launch) ==> launch.run == build.run && launch.direct_boot == direct_boot,
{
    match cancellation::cancellation_of(cancelled) {
        Err(report) => Err(report),
        Ok(()) => Ok(ManagedGameLaunchOutcome { run: build.run, direct_boot }),
    }
}

} // verus!
