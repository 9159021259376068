//! Who owns a build directory: the marker in it, and the steps from a configured path to a
//! directory that a build may write to.
use vstd::prelude::*;

use crate::managed_build::{
    MANAGED_BUILD_MARKER_KIND, MANAGED_BUILD_MARKER_VERSION, MAX_MARKER_BYTES,
};
use crate::mirror::EntryKind;
use crate::paths;
use crate::paths::{PathComponent, ShownPath};
use crate::text;

verus! {

/// The complaint about a link.
pub open spec fn link_message(description: Seq<char>, path: Seq<char>) -> Seq<char> {
    "Refusing "@ + description + " symlink or reparse point: "@ + path
}

/// Rejects a link or another reparse point.
pub fn reject_link_or_reparse(kind: EntryKind, path: &str, description: &str) -> (r: Result<
    (),
    String,
>)
    ensures
        r is Err <==> kind == EntryKind::Link,
        r matches Err(e) ==> e@ == link_message(description@, path@),
{
    if kind == EntryKind::Link {
        Err(
            "Refusing ".to_owned().concat(description).concat(
                " symlink or reparse point: ",
            ).concat(path),
        )
    } else {
        Ok(())
    }
}

/// Rejects what is no directory of its own.
pub fn validate_directory_metadata(kind: EntryKind, path: &str, description: &str) -> (r: Result<
    (),
    String,
>)
    ensures
        r is Ok <==> kind == EntryKind::Directory,
        r matches Err(e) ==> e@ == (if kind == EntryKind::Link {
            link_message(description@, path@)
        } else {
            description@ + " is not a directory: "@ + path@
        }),
{
    match reject_link_or_reparse(kind, path, description) {
        Err(e) => Err(e),
        Ok(()) => {
            if kind == EntryKind::Directory {
                Ok(())
            } else {
                Err(description.to_owned().concat(" is not a directory: ").concat(path))
            }
        },
    }
}

/// The names of a directory below a build root, unless a component could lead out of it.
pub fn ensure_child_directory(relative: &[PathComponent], shown: &str) -> (r: Result<
    Vec<String>,
    String,
>)
    ensures
        match r {
            Ok(names) => paths::all_normal(paths::path_view(relative@)) && text::views(names@)
                == paths::names(paths::path_view(relative@)),
            Err(e) => !paths::all_normal(paths::path_view(relative@)) && e@
                == "Managed build directory contains an unsafe relative component: "@ + shown@,
        },
{
    proof {
        assert(paths::path_view(relative@).skip(0) =~= paths::path_view(relative@));
    }
    match paths::normal_names(relative, 0) {
        Some(names) => Ok(names),
        None => Err(
            "Managed build directory contains an unsafe relative component: ".to_owned().concat(
                shown,
            ),
        ),
    }
}

/// The marker of a build directory.
#[derive(Debug)]
pub struct ManagedBuildMarker {
    pub format_version: u32,
    pub kind: String,
    pub project_id: String,
    /// The extracted game, normalized.
    pub base_game_root: ShownPath,
    /// The extracted game was given by an absolute path.
    pub base_is_absolute: bool,
    pub created_with: String,
}

/// The marker that a project's build directory has to carry.
pub fn expected_marker(project_id: &str, base_game_root: ShownPath, created_with: &str) -> (r:
    ManagedBuildMarker)
    ensures
        r.format_version == MANAGED_BUILD_MARKER_VERSION,
        r.kind@ == MANAGED_BUILD_MARKER_KIND@,
        r.project_id@ == project_id@,
        r.base_game_root == base_game_root,
        r.base_is_absolute,
        r.created_with@ == created_with@,
{
    ManagedBuildMarker {
        format_version: MANAGED_BUILD_MARKER_VERSION,
        kind: MANAGED_BUILD_MARKER_KIND.to_owned(),
        project_id: project_id.to_owned(),
        base_game_root,
        base_is_absolute: true,
        created_with: created_with.to_owned(),
    }
}

/// Why a marker does not make a directory the project's own.
#[derive(Debug, Clone, Copy, PartialEq, Eq, Structural)]
pub enum MarkerFault {
    Missing,
    Link,
    Irregular,
    TooLarge,
    UnsupportedFormat,
    OtherProject,
    RelativeBase,
    OtherBase,
}

/// What stands at the marker's path and how long it is, where anything does.
pub fn inspect_marker(found: Option<(EntryKind, u64)>) -> (r: Result<(), MarkerFault>)
    ensures
        r == (match found {
            None => Err::<(), MarkerFault>(MarkerFault::Missing),
            Some((EntryKind::Link, _)) => Err(MarkerFault::Link),
            Some((EntryKind::File, length)) => if length > MAX_MARKER_BYTES {
                Err(MarkerFault::TooLarge)
            } else {
                Ok(())
            },
            Some(_) => Err(MarkerFault::Irregular),
        }),
{
    match found {
        None => Err(MarkerFault::Missing),
        Some((EntryKind::Link, _)) => Err(MarkerFault::Link),
        Some((EntryKind::File, length)) => {
            if length > MAX_MARKER_BYTES {
                Err(MarkerFault::TooLarge)
            } else {
                Ok(())
            }
        },
        Some(_) => Err(MarkerFault::Irregular),
    }
}

/// Why a marker is not the one that is expected.
pub open spec fn marker_fault(
    actual: ManagedBuildMarker,
    expected: ManagedBuildMarker,
    fold_case: bool,
) -> Option<MarkerFault> {
    if actual.format_version != MANAGED_BUILD_MARKER_VERSION || actual.kind@
        != MANAGED_BUILD_MARKER_KIND@ {
        Some(MarkerFault::UnsupportedFormat)
    } else if actual.project_id@ != expected.project_id@ {
        Some(MarkerFault::OtherProject)
    } else if !actual.base_is_absolute {
        Some(MarkerFault::RelativeBase)
    } else if !paths::same_path(
        actual.base_game_root.parts(),
        expected.base_game_root.parts(),
        fold_case,
    ) {
        Some(MarkerFault::OtherBase)
    } else {
        None
    }
}

/// Holds a marker that was read against the one that is expected: the same project and the same
/// extracted game.
pub fn validate_marker(
    actual: &ManagedBuildMarker,
    expected: &ManagedBuildMarker,
    fold_case: bool,
) -> (r: Result<(), MarkerFault>)
    ensures
        r == (match marker_fault(*actual, *expected, fold_case) {
            Some(fault) => Err::<(), MarkerFault>(fault),
            None => Ok(()),
        }),
{
    if actual.format_version != MANAGED_BUILD_MARKER_VERSION || !text::same(
        actual.kind.as_str(),
        MANAGED_BUILD_MARKER_KIND,
    ) {
        return Err(MarkerFault::UnsupportedFormat);
    }
    if !text::same(actual.project_id.as_str(), expected.project_id.as_str()) {
        return Err(MarkerFault::OtherProject);
    }
    if !actual.base_is_absolute {
        return Err(MarkerFault::RelativeBase);
    }
    if !paths::paths_equal_normalized(
        actual.base_game_root.components.as_slice(),
        expected.base_game_root.components.as_slice(),
        fold_case,
    ) {
        return Err(MarkerFault::OtherBase);
    }
    Ok(())
}

/// A project's own marker is accepted.
pub proof fn law_own_marker_is_accepted(marker: ManagedBuildMarker, fold_case: bool)
    requires
        marker.format_version == MANAGED_BUILD_MARKER_VERSION,
        marker.kind@ == MANAGED_BUILD_MARKER_KIND@,
        marker.base_is_absolute,
    ensures
        marker_fault(marker, marker, fold_case) is None,
{
    paths::law_path_lies_in_itself(marker.base_game_root.parts(), fold_case);
}

impl MarkerFault {
    /// The complaint; `actual` and `expected` are project ids or games, as far as it names any.
    pub open spec fn text(
        self,
        root: Seq<char>,
        marker: Seq<char>,
        actual: Seq<char>,
        expected: Seq<char>,
    ) -> Seq<char> {
        match self {
            MarkerFault::Missing => "Refusing to use unowned managed build directory '"@ + root
                + "': ownership marker '"@ + marker + "' is missing"@,
            MarkerFault::Link => link_message("managed build ownership marker"@, marker),
            MarkerFault::Irregular => "Managed build ownership marker is not a regular file: "@
                + marker,
            MarkerFault::TooLarge =>
            "Managed build ownership marker is larger than 65536 bytes: "@ + marker,
            MarkerFault::UnsupportedFormat => "Managed build ownership marker '"@ + marker
                + "' has an unsupported format"@,
            MarkerFault::OtherProject => "Managed build directory '"@ + root
                + "' belongs to project id '"@ + actual + "', not '"@ + expected + "'"@,
            MarkerFault::RelativeBase => "Managed build ownership marker '"@ + marker
                + "' contains a relative base-game identity"@,
            MarkerFault::OtherBase => "Managed build directory '"@ + root
                + "' belongs to base game '"@ + actual + "', not '"@ + expected + "'"@,
        }
    }

    /// The complaint, with the paths as they are shown.
    pub fn message(&self, root: &str, marker: &str, actual: &str, expected: &str) -> (r: String)
        ensures
            r@ == self.text(root@, marker@, actual@, expected@),
    {
        match *self {
            MarkerFault::Missing => "Refusing to use unowned managed build directory '".to_owned().concat(
            root).concat("': ownership marker '").concat(marker).concat("' is missing"),
            MarkerFault::Link => "Refusing ".to_owned().concat(
                "managed build ownership marker",
            ).concat(" symlink or reparse point: ").concat(marker),
            MarkerFault::Irregular =>
            "Managed build ownership marker is not a regular file: ".to_owned().concat(marker),
            MarkerFault::TooLarge =>
            "Managed build ownership marker is larger than 65536 bytes: ".to_owned().concat(marker),
            MarkerFault::UnsupportedFormat => "Managed build ownership marker '".to_owned().concat(
                marker,
            ).concat("' has an unsupported format"),
            MarkerFault::OtherProject => "Managed build directory '".to_owned().concat(root).concat(
                "' belongs to project id '",
            ).concat(actual).concat("', not '").concat(expected).concat("'"),
            MarkerFault::RelativeBase => "Managed build ownership marker '".to_owned().concat(
                marker,
            ).concat("' contains a relative base-game identity"),
            MarkerFault::OtherBase => "Managed build directory '".to_owned().concat(root).concat(
                "' belongs to base game '",
            ).concat(actual).concat("', not '").concat(expected).concat("'"),
        }
    }
}

/// What a build does next to get a directory of its own.
#[derive(Debug, Clone, Copy, PartialEq, Eq, Structural)]
pub enum OwnedRootStep {
    /// Look at the configured directory.
    InspectRoot,
    /// Look at its parent.
    InspectParent,
    /// Create it.
    CreateRoot,
    /// Look at it again: something else created it meanwhile.
    InspectRaced,
    /// Write the marker into the new directory.
    WriteMarker,
    /// Hold the marker of a directory that was there against the expected one.
    CheckMarker,
    /// Look at the directory once more.
    InspectAgain,
    /// Hold the marker against the expected one once more.
    CheckMarkerAgain,
    /// The directory is the build's own.
    Done,
}

/// What a step of the application found.
#[derive(Debug, Clone, Copy, PartialEq, Eq, Structural)]
pub enum OwnedRootEvent {
    Found(EntryKind),
    NotFound,
    Succeeded,
    AlreadyExists,
    Failed,
}

/// Why a build gets no directory of its own.
#[derive(Debug, Clone, Copy, PartialEq, Eq, Structural)]
pub enum OwnedRootFault {
    /// The step could not be performed.
    StepFailed,
    /// A link or something else stands where a directory is needed.
    NoDirectory(EntryKind),
}

/// The step after one that looked for a directory.
pub open spec fn after_directory(event: OwnedRootEvent, next: OwnedRootStep) -> Result<
    OwnedRootStep,
    OwnedRootFault,
> {
    match event {
        OwnedRootEvent::Found(EntryKind::Directory) => Ok(next),
        OwnedRootEvent::Found(kind) => Err(OwnedRootFault::NoDirectory(kind)),
        _ => Err(OwnedRootFault::StepFailed),
    }
}

/// The step after one that either works or does not.
pub open spec fn after_success(event: OwnedRootEvent, next: OwnedRootStep) -> Result<
    OwnedRootStep,
    OwnedRootFault,
> {
    match event {
        OwnedRootEvent::Succeeded => Ok(next),
        _ => Err(OwnedRootFault::StepFailed),
    }
}

/// The next step towards a directory of the build's own.
pub open spec fn next_step(step: OwnedRootStep, event: OwnedRootEvent) -> Result<
    OwnedRootStep,
    OwnedRootFault,
> {
    match step {
        OwnedRootStep::InspectRoot => if event == OwnedRootEvent::NotFound {
            Ok(OwnedRootStep::InspectParent)
        } else {
            after_directory(event, OwnedRootStep::CheckMarker)
        },
        OwnedRootStep::InspectParent => after_directory(event, OwnedRootStep::CreateRoot),
        OwnedRootStep::CreateRoot => if event == OwnedRootEvent::AlreadyExists {
            Ok(OwnedRootStep::InspectRaced)
        } else {
            after_success(event, OwnedRootStep::WriteMarker)
        },
        OwnedRootStep::InspectRaced => after_directory(event, OwnedRootStep::CheckMarker),
        OwnedRootStep::WriteMarker => after_success(event, OwnedRootStep::InspectAgain),
        OwnedRootStep::CheckMarker => after_success(event, OwnedRootStep::InspectAgain),
        OwnedRootStep::InspectAgain => after_directory(event, OwnedRootStep::CheckMarkerAgain),
        OwnedRootStep::CheckMarkerAgain => after_success(event, OwnedRootStep::Done),
        OwnedRootStep::Done => Ok(OwnedRootStep::Done),
    }
}

fn directory_step(event: OwnedRootEvent, next: OwnedRootStep) -> (r: Result<
    OwnedRootStep,
    OwnedRootFault,
>)
    ensures
        r == after_directory(event, next),
{
    match event {
        OwnedRootEvent::Found(EntryKind::Directory) => Ok(next),
        OwnedRootEvent::Found(kind) => Err(OwnedRootFault::NoDirectory(kind)),
        _ => Err(OwnedRootFault::StepFailed),
    }
}

fn success_step(event: OwnedRootEvent, next: OwnedRootStep) -> (r: Result<
    OwnedRootStep,
    OwnedRootFault,
>)
    ensures
        r == after_success(event, next),
{
    match event {
        OwnedRootEvent::Succeeded => Ok(next),
        _ => Err(OwnedRootFault::StepFailed),
    }
}

/// The next step towards a directory of the build's own. An existing directory is used only with
/// the right marker, a missing one is created below an existing parent, and either is looked at
/// again before a build writes to it.
pub fn ensure_owned_build_root(step: OwnedRootStep, event: OwnedRootEvent) -> (r: Result<
    OwnedRootStep,
    OwnedRootFault,
>)
    ensures
        r == next_step(step, event),
{
    match step {
        OwnedRootStep::InspectRoot => {
            if event == OwnedRootEvent::NotFound {
                Ok(OwnedRootStep::InspectParent)
            } else {
                directory_step(event, OwnedRootStep::CheckMarker)
            }
        },
        OwnedRootStep::InspectParent => directory_step(event, OwnedRootStep::CreateRoot),
        OwnedRootStep::CreateRoot => {
            if event == OwnedRootEvent::AlreadyExists {
                Ok(OwnedRootStep::InspectRaced)
            } else {
                success_step(event, OwnedRootStep::WriteMarker)
            }
        },
        OwnedRootStep::InspectRaced => directory_step(event, OwnedRootStep::CheckMarker),
        OwnedRootStep::WriteMarker => success_step(event, OwnedRootStep::InspectAgain),
        OwnedRootStep::CheckMarker => success_step(event, OwnedRootStep::InspectAgain),
        OwnedRootStep::InspectAgain => directory_step(event, OwnedRootStep::CheckMarkerAgain),
        OwnedRootStep::CheckMarkerAgain => success_step(event, OwnedRootStep::Done),
        OwnedRootStep::Done => Ok(OwnedRootStep::Done),
    }
}

/// A directory counts as the build's own only after its marker was accepted, and a marker is
/// written only into a directory that the build has just created.
pub proof fn law_only_marked_directories_are_used(step: OwnedRootStep, event: OwnedRootEvent)
    ensures
        next_step(step, event) == Ok::<OwnedRootStep, OwnedRootFault>(OwnedRootStep::Done) ==> step
            == OwnedRootStep::Done || (step == OwnedRootStep::CheckMarkerAgain && event
            == OwnedRootEvent::Succeeded),
        next_step(step, event) == Ok::<OwnedRootStep, OwnedRootFault>(OwnedRootStep::WriteMarker)
            ==> step == OwnedRootStep::CreateRoot && event == OwnedRootEvent::Succeeded,
{
}

} // verus!
