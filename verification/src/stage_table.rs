//! The runtime stage table: which area and scenario of the game loads which archive.
use vstd::prelude::*;

use crate::paths;
use crate::paths::PathComponent;
use crate::search;
use crate::text;

verus! {

/// An entry of the table.
#[derive(Debug)]
pub struct ScenarioArchiveEntry {
    pub area_index: usize,
    pub scenario_index: usize,
    pub archive_name: String,
}

/// Where the game has to boot to reach a stage.
#[derive(Debug)]
pub struct RuntimeStageTarget {
    pub area_index: u8,
    pub scenario_index: u8,
    pub archive_name: String,
}

/// The part of a name after its last `/` or `\`.
pub open spec fn base_name(name: Seq<char>) -> Seq<char> {
    text::after_last(text::with_replaced(name, '\\', '/'), '/')
}

/// The stem of a runtime archive: its base name without `.arc` or `.szs`.
pub open spec fn archive_stem(name: Seq<char>) -> Option<Seq<char>> {
    let file = base_name(name);
    let stem = match text::split_last(file, '.') {
        Some((stem, extension)) => if text::same_ignoring_case(extension, "arc"@)
            || text::same_ignoring_case(extension, "szs"@) {
            stem
        } else {
            file
        },
        None => file,
    };
    if stem.len() == 0 {
        None
    } else {
        Some(stem)
    }
}

/// The stem of a runtime archive.
pub fn runtime_archive_stem(archive_name: &str) -> (r: Option<String>)
    ensures
        match r {
            Some(stem) => archive_stem(archive_name@) == Some(stem@),
            None => archive_stem(archive_name@) is None,
        },
{
    let slashed = text::replaced(archive_name, '\\', '/');
    let file = text::tail_after_last(slashed.as_str(), '/');
    let stem = match text::rsplit_once(file.as_str(), '.') {
        Some((stem, extension)) => {
            if text::eq_ignoring_case(extension.as_str(), "arc") || text::eq_ignoring_case(
                extension.as_str(),
                "szs",
            ) {
                stem
            } else {
                file
            }
        },
        None => file,
    };
    proof {
        reveal_strlit("");
    }
    if text::same(stem.as_str(), "") {
        None
    } else {
        proof {
            if stem@.len() == 0 {
                assert(stem@ =~= ""@);
            }
        }
        Some(stem)
    }
}

/// The entry loads the archive of this stem, up to case.
pub open spec fn loads(stem: Seq<char>) -> spec_fn(ScenarioArchiveEntry) -> bool {
    |entry: ScenarioArchiveEntry|
        match archive_stem(entry.archive_name@) {
            Some(found) => text::same_ignoring_case(found, stem),
            None => false,
        }
}

/// Whether an entry loads the archive of this stem, up to case.
pub fn entry_loads(entry: &ScenarioArchiveEntry, stem: &str) -> (r: bool)
    ensures
        r == loads(stem@)(*entry),
{
    match runtime_archive_stem(entry.archive_name.as_str()) {
        Some(found) => text::eq_ignoring_case(found.as_str(), stem),
        None => false,
    }
}

/// Why a stage has no runtime target; an entry is named by its position.
#[derive(Debug, Clone, Copy, PartialEq, Eq, Structural)]
pub enum StageTargetError {
    NoStem,
    NotMapped,
    AreaTooLarge { entry: usize },
    ScenarioTooLarge { entry: usize },
}

/// The stem of the archive that a path names.
pub open spec fn source_stem(source: Seq<paths::ComponentView>) -> Option<Seq<char>> {
    match paths::file_name(source) {
        Some(name) => Some(paths::split_name(name).0),
        None => None,
    }
}

/// Why a stage has no runtime target.
pub open spec fn target_fault(
    entries: Seq<ScenarioArchiveEntry>,
    source: Seq<paths::ComponentView>,
) -> Option<StageTargetError> {
    match source_stem(source) {
        None => Some(StageTargetError::NoStem),
        Some(stem) => match search::first_position(entries, loads(stem)) {
            None => Some(StageTargetError::NotMapped),
            Some(i) => if entries[i].area_index > 255 {
                Some(StageTargetError::AreaTooLarge { entry: i as usize })
            } else if entries[i].scenario_index > 255 {
                Some(StageTargetError::ScenarioTooLarge { entry: i as usize })
            } else {
                None
            },
        },
    }
}

/// The stem of the archive that a path names.
pub fn find_source_stem(source: &[PathComponent]) -> (r: Option<String>)
    ensures
        match r {
            Some(stem) => source_stem(paths::path_view(source@)) == Some(stem@),
            None => source_stem(paths::path_view(source@)) is None,
        },
{
    if source.len() == 0 {
        return None;
    }
    match &source[source.len() - 1] {
        PathComponent::Normal(name) => {
            let (stem, _) = paths::split_file_name(name.as_str());
            Some(stem)
        },
        _ => None,
    }
}

/// Finds where the game loads a stage: the first entry for its archive, and how many entries
/// there are. No region of the game is assumed; the table decides.
pub fn resolve_runtime_stage_target(entries: &[ScenarioArchiveEntry], source: &[PathComponent]) -> (r:
    Result<(RuntimeStageTarget, usize), StageTargetError>)
    ensures
        match target_fault(entries@, paths::path_view(source@)) {
            Some(fault) => r == Err::<(RuntimeStageTarget, usize), StageTargetError>(fault),
            None => r matches Ok((target, count)) && ({
                let stem = source_stem(paths::path_view(source@))->Some_0;
                let first = search::first_position(entries@, loads(stem))->Some_0;
                &&& target.area_index == entries@[first].area_index
                &&& target.scenario_index == entries@[first].scenario_index
                &&& target.archive_name@ == entries@[first].archive_name@
                &&& count == entries@.filter(loads(stem)).len()
            }),
        },
{
    let stem = match find_source_stem(source) {
        Some(stem) => stem,
        None => {
            return Err(StageTargetError::NoStem);
        },
    };
    let ghost wanted = loads(stem@);
    let mut first: Option<usize> = None;
    let mut count: usize = 0;
    let mut i: usize = 0;
    proof {
        assert(entries@.take(0).filter(wanted).len() == 0) by {
            reveal(Seq::filter);
        }
    }
    while i < entries.len()
        invariant
            i <= entries.len(),
            wanted == loads(stem@),
            count <= i,
            count == entries@.take(i as int).filter(wanted).len(),
            match first {
                Some(f) => f < i && wanted(entries@[f as int]) && forall|j: int|
                    0 <= j < f ==> !wanted(#[trigger] entries@[j]),
                None => forall|j: int| 0 <= j < i ==> !wanted(#[trigger] entries@[j]),
            },
        decreases entries.len() - i,
    {
        let found = entry_loads(&entries[i], stem.as_str());
        proof {
            assert(entries@.take(i + 1).drop_last() =~= entries@.take(i as int));
            assert(entries@.take(i + 1).filter(wanted).len() == (if found {
                count + 1
            } else {
                count as int
            })) by {
                reveal(Seq::filter);
            }
        }
        if found {
            if first.is_none() {
                first = Some(i);
            }
            count += 1;
        }
        i += 1;
    }
    proof {
        assert(entries@.take(i as int) =~= entries@);
    }
    match first {
        None => {
            proof {
                search::lemma_not_found(entries@, wanted);
            }
            Err(StageTargetError::NotMapped)
        },
        Some(f) => {
            proof {
                search::lemma_found(entries@, wanted, f as int);
            }
            if entries[f].area_index > 255 {
                return Err(StageTargetError::AreaTooLarge { entry: f });
            }
            if entries[f].scenario_index > 255 {
                return Err(StageTargetError::ScenarioTooLarge { entry: f });
            }
            Ok(
                (
                    RuntimeStageTarget {
                        area_index: entries[f].area_index as u8,
                        scenario_index: entries[f].scenario_index as u8,
                        archive_name: entries[f].archive_name.clone(),
                    },
                    count,
                ),
            )
        },
    }
}

impl StageTargetError {
    /// The complaint.
    pub open spec fn text(self, source: Seq<char>, entries: Seq<ScenarioArchiveEntry>) -> Seq<
        char,
    > {
        match self {
            StageTargetError::NoStem => "Stage source has no Unicode archive stem: "@ + source,
            StageTargetError::NotMapped => "Stage archive '"@ + source
                + "' is not mapped by the staged game's stageArc.bin"@,
            StageTargetError::AreaTooLarge { entry } => "Runtime area index "@ + text::decimal(
                entries[entry as int].area_index as nat,
            ) + " for '"@ + entries[entry as int].archive_name@
                + "' does not fit Sunshine's u8 game sequence"@,
            StageTargetError::ScenarioTooLarge { entry } => "Runtime scenario index "@
                + text::decimal(entries[entry as int].scenario_index as nat) + " for '"@
                + entries[entry as int].archive_name@
                + "' does not fit Sunshine's u8 game sequence"@,
        }
    }

    /// The entry that the complaint names is in the table.
    pub open spec fn names_entry_of(self, entries: Seq<ScenarioArchiveEntry>) -> bool {
        match self {
            StageTargetError::AreaTooLarge { entry } => entry < entries.len(),
            StageTargetError::ScenarioTooLarge { entry } => entry < entries.len(),
            _ => true,
        }
    }

    /// The complaint, with the path as it is shown.
    pub fn message(&self, source: &str, entries: &[ScenarioArchiveEntry]) -> (r: String)
        requires
            self.names_entry_of(entries@),
        ensures
            r@ == self.text(source@, entries@),
    {
        match *self {
            StageTargetError::NoStem => "Stage source has no Unicode archive stem: ".to_owned().concat(
                source,
            ),
            StageTargetError::NotMapped => "Stage archive '".to_owned().concat(source).concat(
                "' is not mapped by the staged game's stageArc.bin",
            ),
            StageTargetError::AreaTooLarge { entry } => {
                let number = text::decimal_text(entries[entry].area_index as u128);
                "Runtime area index ".to_owned().concat(number.as_str()).concat(" for '").concat(
                    entries[entry].archive_name.as_str(),
                ).concat("' does not fit Sunshine's u8 game sequence")
            },
            StageTargetError::ScenarioTooLarge { entry } => {
                let number = text::decimal_text(entries[entry].scenario_index as u128);
                "Runtime scenario index ".to_owned().concat(number.as_str()).concat(
                    " for '",
                ).concat(entries[entry].archive_name.as_str()).concat(
                    "' does not fit Sunshine's u8 game sequence",
                )
            },
        }
    }
}

/// A stage has a target only where the table maps it, and the fault names an entry of the table.
pub proof fn law_target_faults_name_entries(
    entries: Seq<ScenarioArchiveEntry>,
    source: Seq<paths::ComponentView>,
)
    requires
        entries.len() <= usize::MAX,
    ensures
        target_fault(entries, source) matches Some(fault) ==> fault.names_entry_of(entries),
        target_fault(entries, source) is None ==> (source_stem(source) matches Some(stem)
            && exists|i: int| 0 <= i < entries.len() && loads(stem)(#[trigger] entries[i])),
{
    if let Some(stem) = source_stem(source) {
        search::lemma_first_position(entries, loads(stem));
    }
}

/// A name without separators and points.
pub open spec fn is_plain_name(s: Seq<char>) -> bool {
    s.len() > 0 && !s.contains('/') && !s.contains('\\') && !s.contains('.')
}

/// The table loads a stage by the file name of its archive: whatever directory the entry names,
/// with either slash, and whether the archive is packed or not, up to case.
pub proof fn law_archives_are_found_by_their_stem(
    entry: ScenarioArchiveEntry,
    directory: Seq<char>,
    stem: Seq<char>,
    stage: Seq<char>,
)
    requires
        is_plain_name(stem),
        ({
            ||| entry.archive_name@ == stem + ".szs"@
            ||| entry.archive_name@ == stem + ".arc"@
            ||| entry.archive_name@ == stem
            ||| entry.archive_name@ == directory + "/"@ + (stem + ".szs"@)
            ||| entry.archive_name@ == directory + "\\"@ + (stem + ".arc"@)
        }),
    ensures
        archive_stem(entry.archive_name@) == Some(stem),
        loads(stage)(entry) <==> text::lower(stage) == text::lower(stem),
{
    reveal_strlit(".szs");
    reveal_strlit(".arc");
    reveal_strlit("szs");
    reveal_strlit("arc");
    reveal_strlit("/");
    reveal_strlit("\\");
    let name = entry.archive_name@;
    let slashed = text::with_replaced(name, '\\', '/');
    let szs = stem + ".szs"@;
    let arc = stem + ".arc"@;
    let file = if name == stem {
        stem
    } else if name == szs || name == directory + "/"@ + szs {
        szs
    } else {
        arc
    };
    assert forall|i: int| 0 <= i < file.len() implies file[i] != '/' && file[i] != '\\' by {
        if i < stem.len() {
            assert(file[i] == stem[i]);
            assert(stem.contains(stem[i]));
        }
    }
    assert(!file.contains('/'));
    if name == file {
        assert(slashed =~= file);
        text::law_joined_texts_come_apart(Seq::empty(), '/', file);
    } else {
        let dir = text::with_replaced(directory, '\\', '/');
        assert(slashed =~= dir.push('/') + file);
        text::law_joined_texts_come_apart(dir, '/', file);
    }
    assert(base_name(name) == file);
    if file == stem {
        text::law_joined_texts_come_apart(Seq::empty(), '.', stem);
    } else {
        let extension = if file == szs {
            "szs"@
        } else {
            "arc"@
        };
        assert(file =~= stem.push('.') + extension);
        text::law_joined_texts_come_apart(stem, '.', extension);
    }
}

} // verus!
