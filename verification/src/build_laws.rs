//! What a managed build keeps to: which stages it takes, which directories it owns, what it leaves
//! behind, and in which order it installs a direct boot.
use vstd::prelude::*;

use crate::atomic_update;
use crate::atomic_update::UpdateStep;
use crate::build_ownership;
use crate::build_ownership::{
    ManagedBuildMarker, OwnedRootEvent, OwnedRootFault, OwnedRootStep,
};
use crate::direct_boot;
use crate::direct_boot::{BootFault, BootStep};
use crate::managed_build;
use crate::managed_build::StageBuildError;
use crate::managed_files;
use crate::mirror;
use crate::mirror::{EntryFault, EntryKind, MirrorInventory, MirrorStats, MirroredFileAction, TreeEntry};
use crate::paths;
use crate::paths::ComponentView;
use crate::search;
use crate::text;

verus! {

proof fn lemma_file_name_parts(stem: Seq<char>, extension: Seq<char>)
    requires
        stem.len() > 0,
        !extension.contains('.'),
    ensures
        paths::split_name(stem + "."@ + extension) == (stem, Some(extension)),
{
    reveal_strlit(".");
    assert(stem + "."@ + extension =~= stem.push('.') + extension);
    text::law_joined_texts_come_apart(stem, '.', extension);
}

/// A stage archive is a file with a name in front of `.szs` or `.arc`, up to case.
pub proof fn law_stages_are_packed_or_plain_archives(stem: Seq<char>, extension: Seq<char>)
    requires
        stem.len() > 0,
        !extension.contains('.'),
    ensures
        managed_build::is_archive_name(stem + "."@ + extension) <==> text::lower(extension)
            == text::lower("szs"@) || text::lower(extension) == text::lower("arc"@),
{
    lemma_file_name_parts(stem, extension);
}

/// A stage is built only from an archive below the project's own base game: the document was read
/// from that base, the source lies strictly inside it, by plain names alone, and it is an archive.
/// What is run lies in the game's `files`.
pub proof fn law_only_stages_of_the_base_are_built(
    archive: Seq<u8>,
    project_base: Seq<ComponentView>,
    document_base: Seq<ComponentView>,
    source: Seq<ComponentView>,
    fold_case: bool,
)
    ensures
        managed_build::stage_write_fault(
            archive,
            project_base,
            document_base,
            source,
            fold_case,
        ) is None <==> ({
            &&& archive.len() > 0
            &&& project_base.len() == document_base.len()
            &&& paths::is_within(project_base, document_base, fold_case)
            &&& paths::is_within(document_base, project_base, fold_case)
            &&& project_base.len() < source.len()
            &&& paths::is_within(source, project_base, fold_case)
            &&& forall|i: int|
                project_base.len() <= i < source.len() ==> (#[trigger] source[i]) is Normal
            &&& managed_build::is_archive_name(source.last()->Normal_0)
        }),
        managed_build::run_mirror_fault(
            archive,
            project_base,
            document_base,
            source,
            fold_case,
        ) is None ==> managed_build::stage_write_fault(
            archive,
            project_base,
            document_base,
            source,
            fold_case,
        ) is None && text::lower(source[project_base.len() as int]->Normal_0) == text::lower(
            "files"@,
        ),
        managed_build::stage_write_fault(
            archive,
            project_base,
            document_base,
            source,
            fold_case,
        ) is None && text::lower(source[project_base.len() as int]->Normal_0) != text::lower(
            "files"@,
        ) ==> managed_build::run_mirror_fault(
            archive,
            project_base,
            document_base,
            source,
            fold_case,
        ) == Some(StageBuildError::OutsideFiles),
        archive.len() == 0 ==> managed_build::stage_write_fault(
            archive,
            project_base,
            document_base,
            source,
            fold_case,
        ) == Some(StageBuildError::EmptyArchive),
{
    let tail = source.skip(project_base.len() as int);
    if project_base.len() <= source.len() {
        assert forall|i: int| 0 <= i < tail.len() implies #[trigger] tail[i] == source[
        project_base.len() + i] by {}
        if paths::all_normal(tail) {
            assert forall|i: int| project_base.len() <= i < source.len() implies (
            #[trigger] source[i]) is Normal by {
                assert(tail[i - project_base.len()] is Normal);
            }
        }
        if tail.len() > 0 {
            assert(paths::names(tail).last() == source.last()->Normal_0);
            assert(paths::names(tail)[0] == source[project_base.len() as int]->Normal_0);
        }
    }
    if project_base.len() == source.len() && paths::is_within(source, project_base, fold_case) {
        assert(paths::is_within(project_base, source, fold_case)) by {
            assert forall|i: int| 0 <= i < source.len() implies paths::same_component(
                #[trigger] project_base[i],
                source[i],
                fold_case,
            ) by {
                assert(paths::same_component(source[i], project_base[i], fold_case));
            }
        }
    }
}

/// A build directory is used only where its marker is of this format and kind, and names this
/// project and, absolutely, this base game.
pub proof fn law_markers_name_their_owner(
    actual: ManagedBuildMarker,
    expected: ManagedBuildMarker,
    fold_case: bool,
)
    ensures
        build_ownership::marker_fault(actual, expected, fold_case) is None <==> ({
            &&& actual.format_version == 1
            &&& actual.kind@ == "sms-editor-managed-build"@
            &&& actual.project_id@ == expected.project_id@
            &&& actual.base_is_absolute
            &&& paths::same_path(
                actual.base_game_root.parts(),
                expected.base_game_root.parts(),
                fold_case,
            )
        }),
{
}

/// How a build directory is taken: one that exists must be a real directory with a valid marker;
/// a new one is made below a real directory and marked, and one that someone else made meanwhile
/// counts as one that existed. In the end the directory and its marker are looked at once more.
/// Nothing goes on behind a failed step or past something that is no directory.
pub proof fn law_ownership_is_checked_before_use(step: OwnedRootStep, event: OwnedRootEvent)
    ensures
        ({
            let next = build_ownership::next_step(step, event);
            let looks = step == OwnedRootStep::InspectRoot || step == OwnedRootStep::InspectParent
                || step == OwnedRootStep::InspectRaced || step == OwnedRootStep::InspectAgain;
            let found = event == OwnedRootEvent::Found(EntryKind::Directory);
            let done = event == OwnedRootEvent::Succeeded;
            &&& looks && (event matches OwnedRootEvent::Found(kind) && kind
                != EntryKind::Directory) ==> next == Err::<OwnedRootStep, OwnedRootFault>(
                OwnedRootFault::NoDirectory(event->Found_0),
            )
            &&& step != OwnedRootStep::Done && event == OwnedRootEvent::Failed ==> next == Err::<
                OwnedRootStep,
                OwnedRootFault,
            >(OwnedRootFault::StepFailed)
            &&& event == OwnedRootEvent::NotFound && step != OwnedRootStep::InspectRoot && step
                != OwnedRootStep::Done ==> next is Err
            &&& event == OwnedRootEvent::AlreadyExists && step != OwnedRootStep::CreateRoot && step
                != OwnedRootStep::Done ==> next is Err
            &&& step == OwnedRootStep::InspectRoot && event == OwnedRootEvent::NotFound ==> next
                == Ok::<OwnedRootStep, OwnedRootFault>(OwnedRootStep::InspectParent)
            &&& step == OwnedRootStep::InspectRoot && found ==> next == Ok::<
                OwnedRootStep,
                OwnedRootFault,
            >(OwnedRootStep::CheckMarker)
            &&& step == OwnedRootStep::InspectRoot && done ==> next is Err
            &&& step == OwnedRootStep::InspectParent && found ==> next == Ok::<
                OwnedRootStep,
                OwnedRootFault,
            >(OwnedRootStep::CreateRoot)
            &&& step == OwnedRootStep::CreateRoot && done ==> next == Ok::<
                OwnedRootStep,
                OwnedRootFault,
            >(OwnedRootStep::WriteMarker)
            &&& step == OwnedRootStep::CreateRoot && event == OwnedRootEvent::AlreadyExists ==> next
                == Ok::<OwnedRootStep, OwnedRootFault>(OwnedRootStep::InspectRaced)
            &&& step == OwnedRootStep::InspectRaced && found ==> next == Ok::<
                OwnedRootStep,
                OwnedRootFault,
            >(OwnedRootStep::CheckMarker)
            &&& (step == OwnedRootStep::WriteMarker || step == OwnedRootStep::CheckMarker) && done
                ==> next == Ok::<OwnedRootStep, OwnedRootFault>(OwnedRootStep::InspectAgain)
            &&& step == OwnedRootStep::InspectAgain && found ==> next == Ok::<
                OwnedRootStep,
                OwnedRootFault,
            >(OwnedRootStep::CheckMarkerAgain)
            &&& step == OwnedRootStep::CheckMarkerAgain && done ==> next == Ok::<
                OwnedRootStep,
                OwnedRootFault,
            >(OwnedRootStep::Done)
        }),
{
}

/// A base game is mirrored only where it holds nothing but directories and files, and no file
/// twice; the first entry that breaks this is named.
pub proof fn law_only_plain_games_are_mirrored(entries: Seq<TreeEntry>, i: int)
    requires
        entries.len() <= usize::MAX,
        0 <= i < entries.len(),
    ensures
        search::first_fault(entries.len(), mirror::base_fault(entries)) is None ==> (
        entries[i].kind == EntryKind::File || entries[i].kind == EntryKind::Directory) && (
        entries[i].kind == EntryKind::File ==> forall|j: int|
            0 <= j < i && (#[trigger] entries[j]).kind == EntryKind::File ==> entries[j].names()
                != entries[i].names()),
        search::first_fault(entries.len(), mirror::run_fault(entries)) is None ==> (
        entries[i].kind == EntryKind::File || entries[i].kind == EntryKind::Directory),
        mirror::base_fault(entries)(i) matches Some(fault) ==> (match fault {
            EntryFault::Link { at } => at == i && entries[i].kind == EntryKind::Link,
            EntryFault::Irregular { at } => at == i && entries[i].kind == EntryKind::Other,
            EntryFault::Duplicate { at } => at == i && entries[i].kind == EntryKind::File,
        }),
        mirror::run_fault(entries)(i) matches Some(fault) ==> (match fault {
            EntryFault::Link { at } => at == i && entries[i].kind == EntryKind::Link,
            EntryFault::Irregular { at } => at == i && entries[i].kind == EntryKind::Other,
            EntryFault::Duplicate { at } => false,
        }),
{
    if search::first_fault(entries.len(), mirror::base_fault(entries)) is None {
        search::lemma_no_fault(entries.len(), mirror::base_fault(entries), i);
    }
    if search::first_fault(entries.len(), mirror::run_fault(entries)) is None {
        search::lemma_no_fault(entries.len(), mirror::run_fault(entries), i);
    }
}

/// Cleaning a run directory removes only entries that the game does not have, and none behind an
/// entry that cannot be trusted.
pub proof fn law_cleaning_stops_at_what_it_cannot_trust(
    entries: Seq<TreeEntry>,
    inventory: MirrorInventory,
    n: nat,
    r: int,
)
    requires
        n <= entries.len() <= usize::MAX,
        0 <= r < mirror::removals(entries, inventory, n).len(),
    ensures
        ({
            let at = mirror::removals(entries, inventory, n)[r] as int;
            &&& 0 <= at < n
            &&& entries[at].kind == EntryKind::File ==> !inventory.has_file(entries[at].names())
            &&& entries[at].kind == EntryKind::Directory ==> !inventory.has_directory(
                entries[at].names(),
            )
            &&& forall|j: int|
                0 <= j <= at ==> (#[trigger] entries[j]).kind == EntryKind::File || entries[j].kind
                    == EntryKind::Directory
        }),
    decreases n,
{
    let rest = mirror::removals(entries, inventory, (n - 1) as nat);
    if r < rest.len() {
        law_cleaning_stops_at_what_it_cannot_trust(entries, inventory, (n - 1) as nat, r);
    } else {
        assert forall|j: int| 0 <= j <= n - 1 implies (#[trigger] entries[j]).kind
            == EntryKind::File || entries[j].kind == EntryKind::Directory by {
            search::lemma_no_fault(n, mirror::run_fault(entries), j);
        }
    }
}

/// Counting a file adds it to the copied or to the reused ones, never to both.
pub proof fn law_every_file_is_counted_once(stats: MirrorStats, action: MirroredFileAction)
    requires
        stats.copied_files < usize::MAX,
        stats.reused_files < usize::MAX,
    ensures
        ({
            let after = stats.counted(action);
            &&& after.removed_entries == stats.removed_entries
            &&& after.copied_files == stats.copied_files + (if action
                == MirroredFileAction::Copied {
                1int
            } else {
                0
            })
            &&& after.reused_files == stats.reused_files + (if action
                == MirroredFileAction::Reused {
                1int
            } else {
                0
            })
        }),
{
}

/// The executable of a game lies at `sys/main.dol`, and so does that of what is run.
pub proof fn law_the_executable_has_its_place(inventory: MirrorInventory)
    ensures
        inventory.has_file(mirror::main_dol()) <==> inventory.has_file(seq!["sys"@, "main.dol"@]),
        managed_build::run_main_dol() == seq!["run-root"@, "sys"@, "main.dol"@],
{
    assert(managed_build::run_main_dol() =~= seq!["run-root"@, "sys"@, "main.dol"@]);
}

/// A direct boot is installed step by step: the table is found, read and parsed, the target is
/// resolved, the executable is read and patched, and only then something is written. A step that
/// fails stops it with its own complaint.
pub proof fn law_a_boot_is_installed_step_by_step(cancelled: bool)
    ensures
        direct_boot::boot_next(BootStep::Begin, true, false) == BootStep::FindTable,
        direct_boot::boot_next(BootStep::FindTable, true, cancelled) == BootStep::ReadTable,
        direct_boot::boot_next(BootStep::ReadTable, true, false) == BootStep::ParseTable,
        direct_boot::boot_next(BootStep::ParseTable, true, cancelled) == BootStep::ResolveTarget,
        direct_boot::boot_next(BootStep::ResolveTarget, true, cancelled)
            == BootStep::ReadExecutable,
        direct_boot::boot_next(BootStep::ReadExecutable, true, false) == BootStep::Patch,
        direct_boot::boot_next(BootStep::Patch, true, false) == BootStep::Install,
        direct_boot::boot_next(BootStep::Install, true, false) == BootStep::Installed,
        direct_boot::boot_next(BootStep::FindTable, false, cancelled) == BootStep::Failed(
            BootFault::FindTable,
        ),
        direct_boot::boot_next(BootStep::ReadTable, false, cancelled) == BootStep::Failed(
            BootFault::ReadTable,
        ),
        direct_boot::boot_next(BootStep::ParseTable, false, cancelled) == BootStep::Failed(
            BootFault::ParseTable,
        ),
        direct_boot::boot_next(BootStep::ResolveTarget, false, cancelled) == BootStep::Failed(
            BootFault::ResolveTarget,
        ),
        direct_boot::boot_next(BootStep::ReadExecutable, false, cancelled) == BootStep::Failed(
            BootFault::ReadExecutable,
        ),
        direct_boot::boot_next(BootStep::Patch, false, cancelled) == BootStep::Failed(
            BootFault::Patch,
        ),
        direct_boot::boot_next(BootStep::Install, false, cancelled) == BootStep::Failed(
            BootFault::Install,
        ),
{
}

/// The cancel flag stops a direct boot at its start, and once the table, the executable or its
/// patch is there or was written; between finding and reading a file it is not asked.
pub proof fn law_a_boot_can_be_cancelled(step: BootStep)
    ensures
        direct_boot::boot_next(step, true, true) == BootStep::Cancelled <==> step == BootStep::Begin
            || step == BootStep::ReadTable || step == BootStep::ReadExecutable || step
            == BootStep::Patch || step == BootStep::Install || step == BootStep::Cancelled,
{
}

proof fn lemma_boot_progress(answers: Seq<(bool, bool)>)
    ensures
        direct_boot::progress(direct_boot::boot_run(answers)) <= answers.len()
            || direct_boot::boot_run(answers) is Failed || direct_boot::boot_run(answers)
            == BootStep::Cancelled,
        direct_boot::boot_run(answers) == BootStep::Installed ==> answers.len() >= 8,
        !(direct_boot::boot_run(answers) is Failed) && direct_boot::boot_run(answers)
            != BootStep::Cancelled && direct_boot::boot_run(answers) != BootStep::Installed
            ==> direct_boot::progress(direct_boot::boot_run(answers)) == answers.len()
            && answers.len() < 8,
    decreases answers.len(),
{
    if answers.len() > 0 {
        lemma_boot_progress(answers.drop_last());
    }
}

/// A boot that is installed has had every step succeed.
pub proof fn law_an_installed_boot_had_no_failure(answers: Seq<(bool, bool)>, i: int)
    requires
        direct_boot::boot_run(answers) == BootStep::Installed,
        1 <= i < 8,
    ensures
        answers.len() >= 8,
        answers[i].0,
    decreases answers.len(),
{
    lemma_boot_progress(answers);
    lemma_boot_progress(answers.drop_last());
    let before = answers.drop_last();
    if direct_boot::boot_run(before) == BootStep::Installed {
        law_an_installed_boot_had_no_failure(before, i);
    } else {
        assert(answers.len() == 8);
        lemma_answer_succeeded(before, i);
    }
}

proof fn lemma_answer_succeeded(answers: Seq<(bool, bool)>, i: int)
    requires
        !(direct_boot::boot_run(answers) is Failed),
        direct_boot::boot_run(answers) != BootStep::Cancelled,
        direct_boot::boot_run(answers) != BootStep::Installed,
    ensures
        1 <= i < answers.len() ==> answers[i].0,
    decreases answers.len(),
{
    if 1 <= i < answers.len() {
        let before = answers.drop_last();
        lemma_boot_progress(before);
        lemma_answer_succeeded(before, i);
        assert(direct_boot::boot_run(before) != BootStep::Begin) by {
            assert(direct_boot::progress(direct_boot::boot_run(before)) == before.len());
        }
    }
}

/// A temporary name is hidden, tells its own name, process and number, and no two numbers share
/// one.
pub proof fn law_temporary_names_are_distinct(
    name: Seq<char>,
    process: u32,
    first: u64,
    second: u64,
)
    ensures
        managed_files::temporary_name(name, process, first)[0] == '.',
        ("."@ + name + ".sms-write-"@ + text::decimal(process as nat) + "-"@).is_prefix_of(
            managed_files::temporary_name(name, process, first),
        ),
        ".tmp"@.is_suffix_of(managed_files::temporary_name(name, process, first)),
        managed_files::temporary_name(name, process, first) == managed_files::temporary_name(
            name,
            process,
            second,
        ) ==> first == second,
{
    reveal_strlit(".");
    reveal_strlit(".tmp");
    let front = "."@ + name + ".sms-write-"@ + text::decimal(process as nat) + "-"@;
    let a = text::hex(first as nat, 16);
    let b = text::hex(second as nat, 16);
    let whole = managed_files::temporary_name(name, process, first);
    let other = managed_files::temporary_name(name, process, second);
    assert(whole.subrange(0, front.len() as int) =~= front);
    assert(whole.subrange(whole.len() - 4, whole.len() as int) =~= ".tmp"@);
    assert(whole[0] == '.');
    crate::ids::lemma_hex_len(first as nat, 16);
    crate::ids::lemma_hex_len(second as nat, 16);
    if whole == other {
        assert(whole.subrange(front.len() as int, front.len() as int + 16) =~= a);
        assert(other.subrange(front.len() as int, front.len() as int + 16) =~= b);
        assert(vstd::arithmetic::power::pow(16, 16) == 0x1_0000_0000_0000_0000) by {
            reveal_with_fuel(vstd::arithmetic::power::pow, 17);
        }
        crate::ids::lemma_hex_injective(first as nat, second as nat, 16);
    }
}

/// The two names beside a file that an update uses are hidden, carry the process, and differ from
/// each other.
pub proof fn law_update_names_stand_beside_the_file(name: Seq<char>, process: u32)
    ensures
        atomic_update::sibling(Some(name), process, ".tmp"@) == "."@ + name + "."@ + text::decimal(
            process as nat,
        ) + ".tmp"@,
        atomic_update::sibling(None, process, ".bak"@) == "."@ + "instances"@ + "."@
            + text::decimal(process as nat) + ".bak"@,
        atomic_update::sibling(Some(name), process, ".tmp"@) != atomic_update::sibling(
            Some(name),
            process,
            ".bak"@,
        ),
{
    reveal_strlit(".tmp");
    reveal_strlit(".bak");
    let a = atomic_update::sibling(Some(name), process, ".tmp"@);
    let b = atomic_update::sibling(Some(name), process, ".bak"@);
    assert(a.last() == 'p');
    assert(b.last() == 'k');
}

/// An update that succeeds at every step writes beside the file, sets the old file aside where
/// there is one, puts the new one in its place and removes the old one.
pub proof fn law_an_update_goes_through_its_steps(had_old: bool)
    ensures
        atomic_update::update_next(UpdateStep::Create, true) == UpdateStep::Write,
        atomic_update::update_next(UpdateStep::Write, true) == UpdateStep::LookForOld,
        atomic_update::update_next(UpdateStep::LookForOld, had_old) == (if had_old {
            UpdateStep::SetAside
        } else {
            UpdateStep::Commit
        }),
        atomic_update::update_next(UpdateStep::SetAside, true) == UpdateStep::Commit,
        atomic_update::update_next(UpdateStep::Commit, true) == UpdateStep::LookForBackup,
        atomic_update::update_next(UpdateStep::LookForBackup, had_old) == (if had_old {
            UpdateStep::RemoveBackup
        } else {
            UpdateStep::Committed
        }),
        atomic_update::update_next(UpdateStep::RemoveBackup, true) == UpdateStep::Committed,
        atomic_update::update_next(UpdateStep::Commit, false) == UpdateStep::LookForRescue,
        atomic_update::update_next(UpdateStep::LookForRescue, true) == UpdateStep::Restore,
{
}

/// A name of a directory is found whatever its case, where exactly one entry has it.
pub proof fn law_a_single_name_is_found_whatever_its_case(
    names: Seq<Seq<char>>,
    expected: Seq<char>,
    n: nat,
    i: int,
)
    requires
        n <= names.len(),
        0 <= i < n,
    ensures
        text::lower(names[i]) == text::lower(expected) ==> managed_files::matching_names(
            names,
            expected,
            n,
        ) >= 1,
        (forall|j: int| 0 <= j < n ==> text::lower(#[trigger] names[j]) != text::lower(expected))
            ==> managed_files::matching_names(names, expected, n) == 0,
        text::lower(names[i]) == text::lower(expected) && (forall|j: int|
            0 <= j < n && j != i ==> text::lower(#[trigger] names[j]) != text::lower(expected))
            ==> managed_files::matching_names(names, expected, n) == 1,
    decreases n,
{
    if n > 1 {
        if i < n - 1 {
            law_a_single_name_is_found_whatever_its_case(names, expected, (n - 1) as nat, i);
        } else {
            law_a_single_name_is_found_whatever_its_case(names, expected, (n - 1) as nat, 0);
        }
    } else {
        assert(managed_files::matching_names(names, expected, 0) == 0);
    }
}

} // verus!
