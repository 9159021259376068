//! The runnable copy of the game: what it holds, what is stale in it and what has to be copied.
//!
//! The application walks the directories and performs the copies; what it saw comes in as lists
//! of entries.
use vstd::prelude::*;

use crate::relative_paths;
use crate::search;
use crate::text;

verus! {

/// What stands at a path.
#[derive(Debug, Clone, Copy, PartialEq, Eq, Structural)]
pub enum EntryKind {
    File,
    Directory,
    /// A symbolic link or another reparse point.
    Link,
    Other,
}

/// An entry that a walk came across, by its names below the root.
#[derive(Debug)]
pub struct TreeEntry {
    pub path: Vec<String>,
    pub kind: EntryKind,
}

impl TreeEntry {
    /// The names of the entry's path.
    pub open spec fn names(self) -> Seq<Seq<char>> {
        text::views(self.path@)
    }
}

/// What the extracted game holds, in the order of the paths.
#[derive(Debug)]
pub struct MirrorInventory {
    pub directories: Vec<Vec<String>>,
    pub files: Vec<Vec<String>>,
}

/// How much a build copied, kept and removed.
#[derive(Debug, Clone, Copy, PartialEq, Eq, Structural)]
pub struct MirrorStats {
    pub copied_files: usize,
    pub reused_files: usize,
    pub removed_entries: usize,
}

/// Why an entry stops a walk; the entry is named by its position.
#[derive(Debug, Clone, Copy, PartialEq, Eq, Structural)]
pub enum EntryFault {
    Link { at: usize },
    Irregular { at: usize },
    Duplicate { at: usize },
}

/// Some earlier entry is a file at the same path.
pub open spec fn is_repeated(entries: Seq<TreeEntry>, i: int) -> bool {
    exists|j: int|
        0 <= j < i && (#[trigger] entries[j]).kind == EntryKind::File && entries[j].names()
            == entries[i].names()
}

/// Why an entry of the extracted game cannot be mirrored.
pub open spec fn base_fault(entries: Seq<TreeEntry>) -> spec_fn(int) -> Option<EntryFault> {
    |i: int|
        match entries[i].kind {
            EntryKind::Link => Some(EntryFault::Link { at: i as usize }),
            EntryKind::Other => Some(EntryFault::Irregular { at: i as usize }),
            EntryKind::Directory => None,
            EntryKind::File => if is_repeated(entries, i) {
                Some(EntryFault::Duplicate { at: i as usize })
            } else {
                None
            },
        }
}

/// Some of the first `n` entries has this kind and path.
pub open spec fn has_entry(
    entries: Seq<TreeEntry>,
    kind: EntryKind,
    path: Seq<Seq<char>>,
    n: int,
) -> bool {
    exists|i: int|
        0 <= i < n && (#[trigger] entries[i]).kind == kind && entries[i].names() == path
}

impl MirrorInventory {
    /// Both lists are sorted.
    pub open spec fn wf(self) -> bool {
        &&& relative_paths::paths_sorted(relative_paths::path_views(self.directories@))
        &&& relative_paths::paths_sorted(relative_paths::path_views(self.files@))
    }

    /// The game has a directory at the path.
    pub open spec fn has_directory(self, path: Seq<Seq<char>>) -> bool {
        relative_paths::path_views(self.directories@).contains(path)
    }

    /// The game has a file at the path.
    pub open spec fn has_file(self, path: Seq<Seq<char>>) -> bool {
        relative_paths::path_views(self.files@).contains(path)
    }
}

/// Lists what the extracted game holds. A link, an entry that is neither file nor directory and a
/// path that comes twice stop the build.
pub fn inventory_base_game(entries: &[TreeEntry]) -> (r: Result<MirrorInventory, EntryFault>)
    ensures
        match search::first_fault(entries@.len(), base_fault(entries@)) {
            Some(fault) => r == Err::<MirrorInventory, EntryFault>(fault),
            None => r matches Ok(inventory) && inventory.wf() && (forall|path: Seq<Seq<char>>|
                inventory.has_directory(path) <==> #[trigger] has_entry(
                    entries@,
                    EntryKind::Directory,
                    path,
                    entries@.len() as int,
                )) && (forall|path: Seq<Seq<char>>|
                inventory.has_file(path) <==> #[trigger] has_entry(
                    entries@,
                    EntryKind::File,
                    path,
                    entries@.len() as int,
                )),
        },
{
    let ghost check = base_fault(entries@);
    let mut inventory = MirrorInventory { directories: Vec::new(), files: Vec::new() };
    let mut i: usize = 0;
    while i < entries.len()
        invariant
            i <= entries.len(),
            check == base_fault(entries@),
            search::first_fault(i as nat, check) is None,
            inventory.wf(),
            forall|path: Seq<Seq<char>>|
                inventory.has_directory(path) <==> #[trigger] has_entry(
                    entries@,
                    EntryKind::Directory,
                    path,
                    i as int,
                ),
            forall|path: Seq<Seq<char>>|
                inventory.has_file(path) <==> #[trigger] has_entry(
                    entries@,
                    EntryKind::File,
                    path,
                    i as int,
                ),
        decreases entries.len() - i,
    {
        let entry = &entries[i];
        let ghost before = inventory;
        let mut fault: Option<EntryFault> = None;
        match entry.kind {
            EntryKind::Link => {
                fault = Some(EntryFault::Link { at: i });
            },
            EntryKind::Other => {
                fault = Some(EntryFault::Irregular { at: i });
            },
            EntryKind::Directory => {
                let _new = relative_paths::insert_path(
                    &mut inventory.directories,
                    entry.path.as_slice(),
                );
            },
            EntryKind::File => {
                let is_new = relative_paths::insert_path(
                    &mut inventory.files,
                    entry.path.as_slice(),
                );
                proof {
                    assert(is_new == !before.has_file(entry.names()));
                    assert(has_entry(entries@, EntryKind::File, entry.names(), i as int)
                        == is_repeated(entries@, i as int));
                }
                if !is_new {
                    fault = Some(EntryFault::Duplicate { at: i });
                }
            },
        }
        if let Some(fault) = fault {
            proof {
                assert(search::first_fault((i + 1) as nat, check) == Some(fault));
                search::lemma_fault_stays((i + 1) as nat, entries@.len(), check);
            }
            return Err(fault);
        }
        proof {
            assert forall|path: Seq<Seq<char>>|
                inventory.has_directory(path) <==> #[trigger] has_entry(
                    entries@,
                    EntryKind::Directory,
                    path,
                    i + 1,
                ) by {
                lemma_one_more(entries@, EntryKind::Directory, path, i as int);
                assert(before.has_directory(path) == has_entry(
                    entries@,
                    EntryKind::Directory,
                    path,
                    i as int,
                ));
            }
            assert forall|path: Seq<Seq<char>>|
                inventory.has_file(path) <==> #[trigger] has_entry(
                    entries@,
                    EntryKind::File,
                    path,
                    i + 1,
                ) by {
                lemma_one_more(entries@, EntryKind::File, path, i as int);
                assert(before.has_file(path) == has_entry(
                    entries@,
                    EntryKind::File,
                    path,
                    i as int,
                ));
            }
        }
        i += 1;
    }
    Ok(inventory)
}

proof fn lemma_one_more(entries: Seq<TreeEntry>, kind: EntryKind, path: Seq<Seq<char>>, n: int)
    requires
        0 <= n < entries.len(),
    ensures
        has_entry(entries, kind, path, n + 1) == (has_entry(entries, kind, path, n) || (
        entries[n].kind == kind && entries[n].names() == path)),
{
    if has_entry(entries, kind, path, n) {
        let i = choose|i: int|
            0 <= i < n && (#[trigger] entries[i]).kind == kind && entries[i].names() == path;
        assert(0 <= i < n + 1 && entries[i].kind == kind && entries[i].names() == path);
    }
}

/// The executable of the game.
pub open spec fn main_dol() -> Seq<Seq<char>> {
    seq!["sys"@, "main.dol"@]
}

/// Whether the extracted game has its executable.
pub fn has_main_dol(inventory: &MirrorInventory) -> (r: bool)
    ensures
        r == inventory.has_file(main_dol()),
{
    let mut path: Vec<String> = Vec::new();
    path.push("sys".to_owned());
    path.push("main.dol".to_owned());
    proof {
        assert(text::views(path@) =~= main_dol());
    }
    relative_paths::holds_path(inventory.files.as_slice(), path.as_slice())
}

/// Why an entry of the runnable copy stops its cleaning.
pub open spec fn run_fault(entries: Seq<TreeEntry>) -> spec_fn(int) -> Option<EntryFault> {
    |i: int|
        match entries[i].kind {
            EntryKind::Link => Some(EntryFault::Link { at: i as usize }),
            EntryKind::Other => Some(EntryFault::Irregular { at: i as usize }),
            _ => None,
        }
}

/// The extracted game does not have the entry.
pub open spec fn is_stale(entry: TreeEntry, inventory: MirrorInventory) -> bool {
    match entry.kind {
        EntryKind::Directory => !inventory.has_directory(entry.names()),
        EntryKind::File => !inventory.has_file(entry.names()),
        _ => false,
    }
}

/// The stale ones of the first `n` entries, up to the first that stops the cleaning.
pub open spec fn removals(entries: Seq<TreeEntry>, inventory: MirrorInventory, n: nat) -> Seq<
    usize,
>
    decreases n,
{
    if n == 0 {
        Seq::empty()
    } else {
        let rest = removals(entries, inventory, (n - 1) as nat);
        if search::first_fault(n, run_fault(entries)) is None && is_stale(
            entries[n - 1],
            inventory,
        ) {
            rest.push((n - 1) as usize)
        } else {
            rest
        }
    }
}

/// What the cleaning of a runnable copy does: the entries to remove, in order, and what stops it
/// afterwards.
#[derive(Debug)]
pub struct CleanPlan {
    pub removed: Vec<usize>,
    pub fault: Option<EntryFault>,
}

/// Plans the cleaning of a runnable copy: everything goes that the extracted game does not have.
/// The entries come in the order of the walk, a directory behind what it holds.
pub fn clean_stale_run_entries(
    entries: &[TreeEntry],
    inventory: &MirrorInventory,
    stats: &mut MirrorStats,
) -> (r: CleanPlan)
    requires
        old(stats).removed_entries + entries@.len() <= usize::MAX,
    ensures
        r.removed@ == removals(entries@, *inventory, entries@.len()),
        r.fault == search::first_fault(entries@.len(), run_fault(entries@)),
        *final(stats) == (MirrorStats {
            removed_entries: (old(stats).removed_entries + r.removed@.len()) as usize,
            ..*old(stats)
        }),
{
    let ghost check = run_fault(entries@);
    let mut removed: Vec<usize> = Vec::new();
    let mut fault: Option<EntryFault> = None;
    let mut i: usize = 0;
    while i < entries.len()
        invariant
            i <= entries.len(),
            check == run_fault(entries@),
            fault == search::first_fault(i as nat, check),
            removed@ == removals(entries@, *inventory, i as nat),
            removed@.len() <= i,
            old(stats).removed_entries + entries@.len() <= usize::MAX,
            *stats == (MirrorStats {
                removed_entries: (old(stats).removed_entries + removed@.len()) as usize,
                ..*old(stats)
            }),
        decreases entries.len() - i,
    {
        let entry = &entries[i];
        if fault.is_none() {
            let mut stale = false;
            match entry.kind {
                EntryKind::Link => {
                    fault = Some(EntryFault::Link { at: i });
                },
                EntryKind::Other => {
                    fault = Some(EntryFault::Irregular { at: i });
                },
                EntryKind::Directory => {
                    stale = !relative_paths::holds_path(
                        inventory.directories.as_slice(),
                        entry.path.as_slice(),
                    );
                },
                EntryKind::File => {
                    stale = !relative_paths::holds_path(
                        inventory.files.as_slice(),
                        entry.path.as_slice(),
                    );
                },
            }
            if stale {
                removed.push(i);
                stats.removed_entries += 1;
            }
        }
        i += 1;
    }
    CleanPlan { removed, fault }
}

proof fn lemma_removals(entries: Seq<TreeEntry>, inventory: MirrorInventory, n: nat, i: int)
    requires
        n <= entries.len(),
        entries.len() <= usize::MAX,
        search::first_fault(n, run_fault(entries)) is None,
        0 <= i < n,
    ensures
        removals(entries, inventory, n).contains(i as usize) <==> is_stale(entries[i], inventory),
    decreases n,
{
    let rest = removals(entries, inventory, (n - 1) as nat);
    let all = removals(entries, inventory, n);
    lemma_removals_are_earlier(entries, inventory, (n - 1) as nat);
    if i < n - 1 {
        lemma_removals(entries, inventory, (n - 1) as nat, i);
        if rest.contains(i as usize) {
            let k = choose|k: int| 0 <= k < rest.len() && rest[k] == i as usize;
            assert(all[k] == i as usize);
        }
        if all.contains(i as usize) {
            let k = choose|k: int| 0 <= k < all.len() && all[k] == i as usize;
            assert(rest[k] == i as usize);
        }
    } else {
        if is_stale(entries[i], inventory) {
            assert(all[all.len() - 1] == i as usize);
        }
    }
}

proof fn lemma_removals_are_earlier(entries: Seq<TreeEntry>, inventory: MirrorInventory, n: nat)
    requires
        n <= entries.len(),
        entries.len() <= usize::MAX,
    ensures
        forall|k: int|
            0 <= k < removals(entries, inventory, n).len() ==> (#[trigger] removals(
                entries,
                inventory,
                n,
            )[k]) < n,
    decreases n,
{
    if n > 0 {
        lemma_removals_are_earlier(entries, inventory, (n - 1) as nat);
        let rest = removals(entries, inventory, (n - 1) as nat);
        let all = removals(entries, inventory, n);
        assert forall|k: int| 0 <= k < all.len() implies (#[trigger] all[k]) < n by {
            if k < rest.len() {
                assert(all[k] == rest[k]);
            }
        }
    }
}

/// Cleaning that nothing stops keeps an entry of the runnable copy exactly where the extracted
/// game has it.
pub proof fn law_cleaning_keeps_exactly_the_game(
    entries: Seq<TreeEntry>,
    inventory: MirrorInventory,
    i: int,
)
    requires
        entries.len() <= usize::MAX,
        0 <= i < entries.len(),
        search::first_fault(entries.len(), run_fault(entries)) is None,
    ensures
        !removals(entries, inventory, entries.len()).contains(i as usize) <==> (match
            entries[i].kind {
            EntryKind::Directory => inventory.has_directory(entries[i].names()),
            EntryKind::File => inventory.has_file(entries[i].names()),
            _ => false,
        }),
{
    lemma_removals(entries, inventory, entries.len(), i);
    search::lemma_no_fault(entries.len(), run_fault(entries), i);
}

/// What mirroring a file did.
#[derive(Debug, Clone, Copy, PartialEq, Eq, Structural)]
pub enum MirroredFileAction {
    Copied,
    Reused,
}

/// Why a file cannot be mirrored.
#[derive(Debug, Clone, Copy, PartialEq, Eq, Structural)]
pub enum MirrorFileFault {
    SourceLink,
    SourceIrregular,
    DestinationLink,
    DestinationIrregular,
}

/// What to do with a file of the game. A copy that shares the identity of its source is replaced,
/// so that nothing written to the runnable copy reaches the extracted game; an independent copy
/// with the same content is kept.
pub fn mirror_regular_file(
    source: EntryKind,
    destination: Option<EntryKind>,
    shares_identity: bool,
    same_content: bool,
) -> (r: Result<MirroredFileAction, MirrorFileFault>)
    ensures
        r == (if source == EntryKind::Link {
            Err(MirrorFileFault::SourceLink)
        } else if source != EntryKind::File {
            Err(MirrorFileFault::SourceIrregular)
        } else {
            match destination {
                Some(EntryKind::Link) => Err(MirrorFileFault::DestinationLink),
                Some(EntryKind::File) => if !shares_identity && same_content {
                    Ok(MirroredFileAction::Reused)
                } else {
                    Ok(MirroredFileAction::Copied)
                },
                Some(_) => Err(MirrorFileFault::DestinationIrregular),
                None => Ok(MirroredFileAction::Copied),
            }
        }),
{
    if source == EntryKind::Link {
        return Err(MirrorFileFault::SourceLink);
    }
    if source != EntryKind::File {
        return Err(MirrorFileFault::SourceIrregular);
    }
    match destination {
        Some(EntryKind::Link) => Err(MirrorFileFault::DestinationLink),
        Some(EntryKind::File) => {
            if !shares_identity && same_content {
                Ok(MirroredFileAction::Reused)
            } else {
                Ok(MirroredFileAction::Copied)
            }
        },
        Some(_) => Err(MirrorFileFault::DestinationIrregular),
        None => Ok(MirroredFileAction::Copied),
    }
}

/// How many of the first `n` files were treated like this.
pub open spec fn actions_of(
    actions: Seq<MirroredFileAction>,
    action: MirroredFileAction,
    n: nat,
) -> nat
    decreases n,
{
    if n == 0 {
        0
    } else {
        actions_of(actions, action, (n - 1) as nat) + (if actions[n - 1] == action {
            1nat
        } else {
            0
        })
    }
}

impl MirrorStats {
    /// Nothing done yet.
    pub fn new() -> (r: MirrorStats)
        ensures
            r == (MirrorStats { copied_files: 0, reused_files: 0, removed_entries: 0 }),
    {
        MirrorStats { copied_files: 0, reused_files: 0, removed_entries: 0 }
    }

    /// The stats with one more file.
    pub open spec fn counted(self, action: MirroredFileAction) -> MirrorStats {
        match action {
            MirroredFileAction::Copied => MirrorStats {
                copied_files: (self.copied_files + 1) as usize,
                ..self
            },
            MirroredFileAction::Reused => MirrorStats {
                reused_files: (self.reused_files + 1) as usize,
                ..self
            },
        }
    }

    /// Counts a file.
    pub fn count(&mut self, action: MirroredFileAction)
        requires
            old(self).copied_files < usize::MAX,
            old(self).reused_files < usize::MAX,
        ensures
            *final(self) == old(self).counted(action),
    {
        match action {
            MirroredFileAction::Copied => {
                self.copied_files += 1;
            },
            MirroredFileAction::Reused => {
                self.reused_files += 1;
            },
        }
    }
}

/// Counts the project's stage table, where the project has one: kept where the runnable copy had
/// it already, else copied.
pub fn install_project_runtime_stage_table(stats: &mut MirrorStats, reused: Option<bool>)
    requires
        old(stats).copied_files < usize::MAX,
        old(stats).reused_files < usize::MAX,
    ensures
        *final(stats) == (match reused {
            Some(true) => old(stats).counted(MirroredFileAction::Reused),
            Some(false) => old(stats).counted(MirroredFileAction::Copied),
            None => *old(stats),
        }),
{
    match reused {
        Some(true) => {
            stats.count(MirroredFileAction::Reused);
        },
        Some(false) => {
            stats.count(MirroredFileAction::Copied);
        },
        None => {},
    }
}

/// Which tree a walk goes through.
#[derive(Debug, Clone, Copy, PartialEq, Eq, Structural)]
pub enum WalkedTree {
    ExtractedGame,
    RunnableMirror,
}

impl EntryFault {
    /// The complaint about an entry of a tree.
    pub open spec fn text(self, tree: WalkedTree, path: Seq<char>) -> Seq<char> {
        match (self, tree) {
            (EntryFault::Link { .. }, WalkedTree::ExtractedGame) =>
            "Refusing extracted game entry symlink or reparse point: "@ + path,
            (EntryFault::Link { .. }, WalkedTree::RunnableMirror) =>
            "Refusing runnable mirror entry symlink or reparse point: "@ + path,
            (EntryFault::Irregular { .. }, WalkedTree::ExtractedGame) =>
            "Extracted game entry is not a regular file or directory: "@ + path,
            (EntryFault::Irregular { .. }, WalkedTree::RunnableMirror) =>
            "Runnable mirror entry is not a regular file or directory: "@ + path,
            (EntryFault::Duplicate { .. }, _) =>
            "Extracted game contains a duplicate mirrored path: "@ + path,
        }
    }

    /// The complaint about an entry of a tree, with its path as it is shown.
    pub fn message(&self, tree: WalkedTree, path: &str) -> (r: String)
        ensures
            r@ == self.text(tree, path@),
    {
        match (self, tree) {
            (EntryFault::Link { .. }, WalkedTree::ExtractedGame) =>
            "Refusing extracted game entry symlink or reparse point: ".to_owned().concat(path),
            (EntryFault::Link { .. }, WalkedTree::RunnableMirror) =>
            "Refusing runnable mirror entry symlink or reparse point: ".to_owned().concat(path),
            (EntryFault::Irregular { .. }, WalkedTree::ExtractedGame) =>
            "Extracted game entry is not a regular file or directory: ".to_owned().concat(path),
            (EntryFault::Irregular { .. }, WalkedTree::RunnableMirror) =>
            "Runnable mirror entry is not a regular file or directory: ".to_owned().concat(path),
            (EntryFault::Duplicate { .. }, _) =>
            "Extracted game contains a duplicate mirrored path: ".to_owned().concat(path),
        }
    }
}

impl MirrorFileFault {
    /// The complaint; it shows the path of the file that it is about.
    pub open spec fn text(self, path: Seq<char>) -> Seq<char> {
        match self {
            MirrorFileFault::SourceLink =>
            "Refusing extracted game file symlink or reparse point: "@ + path,
            MirrorFileFault::SourceIrregular => "Extracted game file is not a regular file: "@
                + path,
            MirrorFileFault::DestinationLink =>
            "Refusing runnable mirror file symlink or reparse point: "@ + path,
            MirrorFileFault::DestinationIrregular => "Runnable mirror path is not a regular file: "@
                + path,
        }
    }

    /// The complaint, with the path as it is shown.
    pub fn message(&self, path: &str) -> (r: String)
        ensures
            r@ == self.text(path@),
    {
        match *self {
            MirrorFileFault::SourceLink =>
            "Refusing extracted game file symlink or reparse point: ".to_owned().concat(path),
            MirrorFileFault::SourceIrregular =>
            "Extracted game file is not a regular file: ".to_owned().concat(path),
            MirrorFileFault::DestinationLink =>
            "Refusing runnable mirror file symlink or reparse point: ".to_owned().concat(path),
            MirrorFileFault::DestinationIrregular =>
            "Runnable mirror path is not a regular file: ".to_owned().concat(path),
        }
    }
}

} // verus!
