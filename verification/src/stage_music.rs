//! Stage music and sound assignments that a managed build installs into the game executable.
use vstd::prelude::*;

use crate::search;
use crate::stage_table;
use crate::stage_table::ScenarioArchiveEntry;
use crate::text;

verus! {

/// The music of a stage, by the stage's archive stem.
#[derive(Debug)]
pub struct ProjectStageMusic {
    pub stage_id: String,
    pub bgm_id: u32,
    pub wave_scene_id: u32,
    pub secondary_bgm_id: Option<u32>,
    pub secondary_wave_scene_id: Option<u32>,
}

/// What a sound assignment of the project replaces.
#[derive(Debug, Clone, Copy, PartialEq, Eq, Structural)]
pub enum ProjectSoundAssignmentKind {
    MapStatic,
    Graph,
}

/// A sound assignment of the project.
#[derive(Debug)]
pub struct ProjectSoundAssignment {
    pub kind: ProjectSoundAssignmentKind,
    pub source_name: String,
    pub original_sound_id: u32,
    pub sound_id: u32,
}

/// What a sound assignment of the executable replaces.
#[derive(Debug, Clone, Copy, PartialEq, Eq, Structural)]
pub enum RuntimeSoundAssignmentKind {
    MapStatic,
    Graph,
}

/// A sound assignment of the executable.
#[derive(Debug)]
pub struct RuntimeSoundAssignment {
    pub kind: RuntimeSoundAssignmentKind,
    pub source_name: String,
    pub original_sound_id: u32,
    pub sound_id: u32,
}

/// The music of one area and scenario of the game.
#[derive(Debug, Clone, Copy, PartialEq, Eq, Structural)]
pub struct RuntimeStageMusicOverride {
    pub area_index: u8,
    pub scenario_index: u8,
    pub bgm_id: u32,
    pub wave_scene_id: u32,
    pub secondary_bgm_id: Option<u32>,
    pub secondary_wave_scene_id: Option<u32>,
}

/// What a managed build installs.
#[derive(Debug)]
pub struct StageMusicPlan {
    pub overrides: Vec<RuntimeStageMusicOverride>,
    pub sound_assignments: Vec<RuntimeSoundAssignment>,
}

/// Why music cannot be installed; music and table entries are named by their positions.
#[derive(Debug, Clone, Copy, PartialEq, Eq, Structural)]
pub enum StageMusicError {
    NotMapped { music: usize },
    AreaTooLarge { music: usize, entry: usize },
    ScenarioTooLarge { music: usize, entry: usize },
}

/// The fault of one table entry for a piece of music.
pub open spec fn entry_fault(
    music: Seq<ProjectStageMusic>,
    entries: Seq<ScenarioArchiveEntry>,
    m: int,
) -> spec_fn(int) -> Option<StageMusicError> {
    |e: int|
        if !stage_table::loads(music[m].stage_id@)(entries[e]) {
            None
        } else if entries[e].area_index > 255 {
            Some(StageMusicError::AreaTooLarge { music: m as usize, entry: e as usize })
        } else if entries[e].scenario_index > 255 {
            Some(StageMusicError::ScenarioTooLarge { music: m as usize, entry: e as usize })
        } else {
            None
        }
}

/// The fault of a piece of music: the table does not map its stage, or maps it to a place that
/// the game cannot number.
pub open spec fn stage_fault(
    music: Seq<ProjectStageMusic>,
    entries: Seq<ScenarioArchiveEntry>,
) -> spec_fn(int) -> Option<StageMusicError> {
    |m: int|
        if search::first_position(entries, stage_table::loads(music[m].stage_id@)) is None {
            Some(StageMusicError::NotMapped { music: m as usize })
        } else {
            search::first_fault(entries.len(), entry_fault(music, entries, m))
        }
}

/// The music of a table entry.
pub open spec fn override_of(
    music: ProjectStageMusic,
    entry: ScenarioArchiveEntry,
) -> RuntimeStageMusicOverride {
    RuntimeStageMusicOverride {
        area_index: entry.area_index as u8,
        scenario_index: entry.scenario_index as u8,
        bgm_id: music.bgm_id,
        wave_scene_id: music.wave_scene_id,
        secondary_bgm_id: music.secondary_bgm_id,
        secondary_wave_scene_id: music.secondary_wave_scene_id,
    }
}

/// The overrides that a piece of music gives the first `n` entries of the table.
pub open spec fn stage_overrides(
    music: ProjectStageMusic,
    entries: Seq<ScenarioArchiveEntry>,
    n: nat,
) -> Seq<RuntimeStageMusicOverride>
    decreases n,
{
    if n == 0 {
        Seq::empty()
    } else {
        let rest = stage_overrides(music, entries, (n - 1) as nat);
        if stage_table::loads(music.stage_id@)(entries[n - 1]) {
            rest.push(override_of(music, entries[n - 1]))
        } else {
            rest
        }
    }
}

/// The overrides of the first `m` pieces of music, in the order of the table.
pub open spec fn all_overrides(
    music: Seq<ProjectStageMusic>,
    entries: Seq<ScenarioArchiveEntry>,
    m: nat,
) -> Seq<RuntimeStageMusicOverride>
    decreases m,
{
    if m == 0 {
        Seq::empty()
    } else {
        all_overrides(music, entries, (m - 1) as nat) + stage_overrides(
            music[m - 1],
            entries,
            entries.len(),
        )
    }
}

/// The number by which overrides are ordered: the area, then the scenario.
pub open spec fn key(item: RuntimeStageMusicOverride) -> int {
    item.area_index * 256 + item.scenario_index
}

/// A sorted list with one more item, behind everything that is not greater.
pub open spec fn placed(
    list: Seq<RuntimeStageMusicOverride>,
    item: RuntimeStageMusicOverride,
) -> Seq<RuntimeStageMusicOverride>
    decreases list.len(),
{
    if list.len() > 0 && key(list.last()) > key(item) {
        placed(list.drop_last(), item).push(list.last())
    } else {
        list.push(item)
    }
}

/// The list in order, equal items in their first order.
pub open spec fn ordered(list: Seq<RuntimeStageMusicOverride>) -> Seq<RuntimeStageMusicOverride>
    decreases list.len(),
{
    if list.len() == 0 {
        Seq::empty()
    } else {
        placed(ordered(list.drop_last()), list.last())
    }
}

proof fn lemma_placed(list: Seq<RuntimeStageMusicOverride>, item: RuntimeStageMusicOverride, i: int)
    requires
        0 <= i <= list.len(),
        forall|j: int| i <= j < list.len() ==> key(#[trigger] list[j]) > key(item),
        i > 0 ==> key(list[i - 1]) <= key(item),
    ensures
        placed(list, item) == list.insert(i, item),
    decreases list.len(),
{
    if i < list.len() {
        assert(list.last() == list[list.len() - 1]);
        lemma_placed(list.drop_last(), item, i);
        assert(list.insert(i, item) =~= list.drop_last().insert(i, item).push(list.last()));
    } else {
        assert(list.insert(i, item) =~= list.push(item));
    }
}

fn key_of(item: &RuntimeStageMusicOverride) -> (r: u32)
    ensures
        r == key(*item),
{
    item.area_index as u32 * 256 + item.scenario_index as u32
}

fn place(list: &mut Vec<RuntimeStageMusicOverride>, item: RuntimeStageMusicOverride)
    ensures
        final(list)@ == placed(old(list)@, item),
{
    let mut i: usize = list.len();
    while i > 0 && key_of(&list[i - 1]) > key_of(&item)
        invariant
            i <= list.len(),
            list@ == old(list)@,
            forall|j: int| i <= j < list.len() ==> key(#[trigger] list@[j]) > key(item),
        decreases i,
    {
        i -= 1;
    }
    proof {
        lemma_placed(list@, item, i as int);
    }
    list.insert(i, item);
}

fn sort_overrides(list: &[RuntimeStageMusicOverride]) -> (r: Vec<RuntimeStageMusicOverride>)
    ensures
        r@ == ordered(list@),
{
    let mut r: Vec<RuntimeStageMusicOverride> = Vec::new();
    let mut i: usize = 0;
    while i < list.len()
        invariant
            i <= list.len(),
            r@ == ordered(list@.take(i as int)),
        decreases list.len() - i,
    {
        place(&mut r, list[i]);
        proof {
            assert(list@.take(i + 1).drop_last() =~= list@.take(i as int));
            assert(list@.take(i + 1).last() == list@[i as int]);
        }
        i += 1;
    }
    proof {
        assert(list@.take(i as int) =~= list@);
    }
    r
}

/// The sound assignment as the executable takes it.
pub open spec fn assigned(assignment: ProjectSoundAssignment, made: RuntimeSoundAssignment) -> bool {
    &&& made.kind == (match assignment.kind {
        ProjectSoundAssignmentKind::MapStatic => RuntimeSoundAssignmentKind::MapStatic,
        ProjectSoundAssignmentKind::Graph => RuntimeSoundAssignmentKind::Graph,
    })
    &&& made.source_name@ == assignment.source_name@
    &&& made.original_sound_id == assignment.original_sound_id
    &&& made.sound_id == assignment.sound_id
}

fn push_stage(
    music: &[ProjectStageMusic],
    m: usize,
    entries: &[ScenarioArchiveEntry],
    overrides: &mut Vec<RuntimeStageMusicOverride>,
) -> (r: Result<(), StageMusicError>)
    requires
        m < music@.len(),
    ensures
        match stage_fault(music@, entries@)(m as int) {
            Some(fault) => r == Err::<(), StageMusicError>(fault),
            None => r is Ok && final(overrides)@ == old(overrides)@ + stage_overrides(
                music@[m as int],
                entries@,
                entries@.len(),
            ),
        },
{
    let stage = &music[m];
    let ghost wanted = stage_table::loads(stage.stage_id@);
    let ghost check = entry_fault(music@, entries@, m as int);
    let mut found = false;
    let mut fault: Option<StageMusicError> = None;
    let mut i: usize = 0;
    proof {
        assert(old(overrides)@ + Seq::<RuntimeStageMusicOverride>::empty() =~= old(overrides)@);
    }
    while i < entries.len()
        invariant
            i <= entries.len(),
            m < music@.len(),
            *stage == music@[m as int],
            wanted == stage_table::loads(stage.stage_id@),
            check == entry_fault(music@, entries@, m as int),
            fault == search::first_fault(i as nat, check),
            !found ==> forall|j: int| 0 <= j < i ==> !wanted(#[trigger] entries@[j]),
            found ==> search::first_position(entries@, wanted) is Some,
            fault is None ==> overrides@ == old(overrides)@ + stage_overrides(
                *stage,
                entries@,
                i as nat,
            ),
        decreases entries.len() - i,
    {
        let entry = &entries[i];
        if stage_table::entry_loads(entry, stage.stage_id.as_str()) {
            found = true;
            proof {
                search::lemma_first_position(entries@, wanted);
            }
            if fault.is_none() {
                if entry.area_index > 255 {
                    fault = Some(StageMusicError::AreaTooLarge { music: m, entry: i });
                } else if entry.scenario_index > 255 {
                    fault = Some(StageMusicError::ScenarioTooLarge { music: m, entry: i });
                } else {
                    let ghost before = overrides@;
                    overrides.push(
                        RuntimeStageMusicOverride {
                            area_index: entry.area_index as u8,
                            scenario_index: entry.scenario_index as u8,
                            bgm_id: stage.bgm_id,
                            wave_scene_id: stage.wave_scene_id,
                            secondary_bgm_id: stage.secondary_bgm_id,
                            secondary_wave_scene_id: stage.secondary_wave_scene_id,
                        },
                    );
                    proof {
                        assert(overrides@ =~= old(overrides)@ + stage_overrides(
                            *stage,
                            entries@,
                            (i + 1) as nat,
                        ));
                    }
                }
            }
        }
        i += 1;
    }
    if !found {
        proof {
            search::lemma_not_found(entries@, wanted);
        }
        return Err(StageMusicError::NotMapped { music: m });
    }
    match fault {
        Some(fault) => Err(fault),
        None => Ok(()),
    }
}

/// The music of a project and its sound assignments.
pub open spec fn nothing_to_install(
    music: Seq<ProjectStageMusic>,
    assignments: Seq<ProjectSoundAssignment>,
) -> bool {
    music.len() == 0 && assignments.len() == 0
}

/// Plans what a managed build installs into the executable: the music of every area and scenario
/// that loads a stage with music, in the order of areas and scenarios, and the sound assignments.
/// `None` where the project has neither.
pub fn install_managed_stage_music(
    music: &[ProjectStageMusic],
    assignments: &[ProjectSoundAssignment],
    entries: &[ScenarioArchiveEntry],
) -> (r: Result<Option<StageMusicPlan>, StageMusicError>)
    ensures
        match search::first_fault(music@.len(), stage_fault(music@, entries@)) {
            Some(fault) => r == Err::<Option<StageMusicPlan>, StageMusicError>(fault),
            None => r matches Ok(plan) && (match plan {
                None => nothing_to_install(music@, assignments@),
                Some(plan) => {
                    &&& !nothing_to_install(music@, assignments@)
                    &&& plan.overrides@ == ordered(
                        all_overrides(music@, entries@, music@.len()),
                    )
                    &&& forall|i: int|
                        #![trigger plan.overrides@[i]]
                        0 <= i < plan.overrides@.len() ==> exists|m: int, e: int|
                            #![trigger music@[m], entries@[e]]
                            0 <= m < music@.len() && 0 <= e < entries@.len()
                                && plan.overrides@[i].bgm_id == music@[m].bgm_id
                                && plan.overrides@[i].wave_scene_id == music@[m].wave_scene_id
                                && plan.overrides@[i].secondary_bgm_id
                                == music@[m].secondary_bgm_id
                                && plan.overrides@[i].secondary_wave_scene_id
                                == music@[m].secondary_wave_scene_id
                                && plan.overrides@[i].area_index == entries@[e].area_index
                                && plan.overrides@[i].scenario_index == entries@[e].scenario_index
                                && stage_table::loads(music@[m].stage_id@)(entries@[e])
                    &&& plan.sound_assignments@.len() == assignments@.len()
                    &&& forall|i: int|
                        0 <= i < assignments@.len() ==> assigned(
                            assignments@[i],
                            #[trigger] plan.sound_assignments@[i],
                        )
                    &&& forall|i: int|
                        0 <= i < assignments@.len() ==> (
                        #[trigger] plan.sound_assignments@[i]).source_name@
                            == assignments@[i].source_name@
                            && plan.sound_assignments@[i].original_sound_id
                            == assignments@[i].original_sound_id
                            && plan.sound_assignments@[i].sound_id == assignments@[i].sound_id && (
                        plan.sound_assignments@[i].kind == RuntimeSoundAssignmentKind::Graph
                            <==> assignments@[i].kind == ProjectSoundAssignmentKind::Graph)
                },
            }),
        },
{
    if music.len() == 0 && assignments.len() == 0 {
        return Ok(None);
    }
    let ghost check = stage_fault(music@, entries@);
    let mut overrides: Vec<RuntimeStageMusicOverride> = Vec::new();
    let mut m: usize = 0;
    while m < music.len()
        invariant
            m <= music.len(),
            check == stage_fault(music@, entries@),
            search::first_fault(m as nat, check) is None,
            overrides@ == all_overrides(music@, entries@, m as nat),
        decreases music.len() - m,
    {
        match push_stage(music, m, entries, &mut overrides) {
            Ok(()) => {},
            Err(fault) => {
                proof {
                    assert(search::first_fault((m + 1) as nat, check) == Some(fault));
                    search::lemma_fault_stays((m + 1) as nat, music@.len(), check);
                }
                return Err(fault);
            },
        }
        m += 1;
    }
    let overrides = sort_overrides(overrides.as_slice());
    proof {
        assert forall|i: int| #![trigger overrides@[i]] 0 <= i < overrides@.len() implies exists|
            m: int,
            e: int,
        |
            #![trigger music@[m], entries@[e]]
            0 <= m < music@.len() && 0 <= e < entries@.len() && overrides@[i].bgm_id
                == music@[m].bgm_id && overrides@[i].wave_scene_id == music@[m].wave_scene_id
                && overrides@[i].secondary_bgm_id == music@[m].secondary_bgm_id
                && overrides@[i].secondary_wave_scene_id == music@[m].secondary_wave_scene_id
                && overrides@[i].area_index == entries@[e].area_index
                && overrides@[i].scenario_index == entries@[e].scenario_index
                && stage_table::loads(music@[m].stage_id@)(entries@[e]) by {
            law_overrides_carry_the_music(music@, entries@, i);
        }
    }
    let mut sound_assignments: Vec<RuntimeSoundAssignment> = Vec::new();
    let mut i: usize = 0;
    while i < assignments.len()
        invariant
            i <= assignments.len(),
            sound_assignments@.len() == i,
            forall|j: int|
                0 <= j < i ==> assigned(assignments@[j], #[trigger] sound_assignments@[j]),
        decreases assignments.len() - i,
    {
        let assignment = &assignments[i];
        sound_assignments.push(
            RuntimeSoundAssignment {
                kind: match assignment.kind {
                    ProjectSoundAssignmentKind::MapStatic => RuntimeSoundAssignmentKind::MapStatic,
                    ProjectSoundAssignmentKind::Graph => RuntimeSoundAssignmentKind::Graph,
                },
                source_name: assignment.source_name.clone(),
                original_sound_id: assignment.original_sound_id,
                sound_id: assignment.sound_id,
            },
        );
        i += 1;
    }
    Ok(Some(StageMusicPlan { overrides, sound_assignments }))
}

/// The areas and scenarios of a list stand in order.
pub open spec fn in_order(list: Seq<RuntimeStageMusicOverride>) -> bool {
    forall|i: int, j: int| 0 <= i < j < list.len() ==> key(#[trigger] list[i]) <= key(#[trigger] list[j])
}

proof fn lemma_placed_is_in_order(
    list: Seq<RuntimeStageMusicOverride>,
    item: RuntimeStageMusicOverride,
)
    requires
        in_order(list),
    ensures
        in_order(placed(list, item)),
        placed(list, item).to_multiset() == list.to_multiset().insert(item),
        placed(list, item).len() == list.len() + 1,
        forall|k: int| #![trigger placed(list, item)[k]] 0 <= k <= list.len() ==> (placed(list, item)[k] == item || list.contains(placed(list, item)[k])),
    decreases list.len(),
{
    if list.len() > 0 && key(list.last()) > key(item) {
        let rest = list.drop_last();
        lemma_placed_is_in_order(rest, item);
        let inner = placed(rest, item);
        assert forall|k: int| 0 <= k < inner.len() implies key(#[trigger] inner[k]) <= key(
            list.last(),
        ) by {
            if inner[k] != item {
                let j = choose|j: int| 0 <= j < rest.len() && rest[j] == inner[k];
                assert(key(list[j]) <= key(list[list.len() - 1]));
            }
        }
        assert(list =~= rest.push(list.last()));
        rest.to_multiset_ensures();
        inner.to_multiset_ensures();
        assert(inner.push(list.last()).to_multiset() =~= inner.to_multiset().insert(list.last()));
        assert(list.to_multiset() =~= rest.to_multiset().insert(list.last()));
        assert(placed(list, item).to_multiset() =~= list.to_multiset().insert(item));
        assert forall|k: int| #![trigger placed(list, item)[k]] 0 <= k <= list.len() implies (placed(list, item)[k] == item
            || list.contains(placed(list, item)[k])) by {
            if k < inner.len() {
                assert(placed(list, item)[k] == inner[k]);
                if inner[k] != item {
                    let j = choose|j: int| 0 <= j < rest.len() && rest[j] == inner[k];
                    assert(list[j] == inner[k]);
                }
            } else {
                assert(placed(list, item)[k] == list[list.len() - 1]);
            }
        }
    } else {
        list.to_multiset_ensures();
        assert forall|k: int| #![trigger placed(list, item)[k]] 0 <= k <= list.len() implies (placed(list, item)[k] == item
            || list.contains(placed(list, item)[k])) by {
            if k < list.len() {
                assert(placed(list, item)[k] == list[k]);
            }
        }
        assert forall|i: int, j: int| 0 <= i < j < placed(list, item).len() implies key(
            #[trigger] placed(list, item)[i],
        ) <= key(#[trigger] placed(list, item)[j]) by {
            if j == list.len() {
                assert(key(list[i]) <= key(list[list.len() - 1]));
            }
        }
    }
}

/// The installed music stands in the order of areas and scenarios, and ordering it loses and adds
/// nothing.
pub proof fn law_installed_music_is_in_order(list: Seq<RuntimeStageMusicOverride>)
    ensures
        in_order(ordered(list)),
        ordered(list).to_multiset() == list.to_multiset(),
    decreases list.len(),
{
    if list.len() > 0 {
        let rest = list.drop_last();
        law_installed_music_is_in_order(rest);
        lemma_placed_is_in_order(ordered(rest), list.last());
        rest.to_multiset_ensures();
        assert(list =~= rest.push(list.last()));
    } else {
        assert(list =~= Seq::empty());
    }
}

impl StageMusicError {
    /// The music and the entry that the complaint names exist.
    pub open spec fn names_items_of(
        self,
        music: Seq<ProjectStageMusic>,
        entries: Seq<ScenarioArchiveEntry>,
    ) -> bool {
        match self {
            StageMusicError::NotMapped { music: m } => m < music.len(),
            StageMusicError::AreaTooLarge { music: m, entry } => m < music.len() && entry
                < entries.len(),
            StageMusicError::ScenarioTooLarge { music: m, entry } => m < music.len() && entry
                < entries.len(),
        }
    }

    /// The complaint.
    pub open spec fn text(
        self,
        music: Seq<ProjectStageMusic>,
        entries: Seq<ScenarioArchiveEntry>,
    ) -> Seq<char> {
        match self {
            StageMusicError::NotMapped { music: m } => "Stage music override '"@
                + music[m as int].stage_id@ + "' is not mapped by the packaged stageArc.bin"@,
            StageMusicError::AreaTooLarge { music: m, entry } => "Stage music area "@
                + text::decimal(entries[entry as int].area_index as nat) + " for '"@
                + music[m as int].stage_id@ + "' does not fit Sunshine's u8 game sequence"@,
            StageMusicError::ScenarioTooLarge { music: m, entry } => "Stage music scenario "@
                + text::decimal(entries[entry as int].scenario_index as nat) + " for '"@
                + music[m as int].stage_id@ + "' does not fit Sunshine's u8 game sequence"@,
        }
    }

    /// The complaint.
    pub fn message(&self, music: &[ProjectStageMusic], entries: &[ScenarioArchiveEntry]) -> (r:
        String)
        requires
            self.names_items_of(music@, entries@),
        ensures
            r@ == self.text(music@, entries@),
    {
        match *self {
            StageMusicError::NotMapped { music: m } => "Stage music override '".to_owned().concat(
                music[m].stage_id.as_str(),
            ).concat("' is not mapped by the packaged stageArc.bin"),
            StageMusicError::AreaTooLarge { music: m, entry } => {
                let number = text::decimal_text(entries[entry].area_index as u128);
                "Stage music area ".to_owned().concat(number.as_str()).concat(" for '").concat(
                    music[m].stage_id.as_str(),
                ).concat("' does not fit Sunshine's u8 game sequence")
            },
            StageMusicError::ScenarioTooLarge { music: m, entry } => {
                let number = text::decimal_text(entries[entry].scenario_index as u128);
                "Stage music scenario ".to_owned().concat(number.as_str()).concat(" for '").concat(
                    music[m].stage_id.as_str(),
                ).concat("' does not fit Sunshine's u8 game sequence")
            },
        }
    }
}

proof fn lemma_stage_override(
    music: ProjectStageMusic,
    entries: Seq<ScenarioArchiveEntry>,
    n: nat,
    item: RuntimeStageMusicOverride,
) -> (e: int)
    requires
        n <= entries.len(),
        stage_overrides(music, entries, n).contains(item),
    ensures
        0 <= e < n,
        stage_table::loads(music.stage_id@)(entries[e]),
        item == override_of(music, entries[e]),
    decreases n,
{
    let all = stage_overrides(music, entries, n);
    let i = choose|i: int| 0 <= i < all.len() && all[i] == item;
    let rest = stage_overrides(music, entries, (n - 1) as nat);
    if i < rest.len() {
        assert(rest[i] == item);
        lemma_stage_override(music, entries, (n - 1) as nat, item)
    } else {
        n - 1
    }
}

proof fn lemma_entry_is_overridden(
    music: ProjectStageMusic,
    entries: Seq<ScenarioArchiveEntry>,
    n: nat,
    e: int,
)
    requires
        0 <= e < n <= entries.len(),
        stage_table::loads(music.stage_id@)(entries[e]),
    ensures
        stage_overrides(music, entries, n).contains(override_of(music, entries[e])),
    decreases n,
{
    let item = override_of(music, entries[e]);
    let all = stage_overrides(music, entries, n);
    let rest = stage_overrides(music, entries, (n - 1) as nat);
    if e < n - 1 {
        lemma_entry_is_overridden(music, entries, (n - 1) as nat, e);
        let i = choose|i: int| 0 <= i < rest.len() && rest[i] == item;
        assert(all[i] == item);
    } else {
        assert(all[all.len() - 1] == item);
    }
}

proof fn lemma_override_source(
    music: Seq<ProjectStageMusic>,
    entries: Seq<ScenarioArchiveEntry>,
    m: nat,
    item: RuntimeStageMusicOverride,
) -> (k: int)
    requires
        m <= music.len(),
        all_overrides(music, entries, m).contains(item),
    ensures
        0 <= k < m,
        stage_overrides(music[k], entries, entries.len()).contains(item),
    decreases m,
{
    let all = all_overrides(music, entries, m);
    let i = choose|i: int| 0 <= i < all.len() && all[i] == item;
    let rest = all_overrides(music, entries, (m - 1) as nat);
    let own = stage_overrides(music[m - 1], entries, entries.len());
    if i < rest.len() {
        assert(rest[i] == item);
        lemma_override_source(music, entries, (m - 1) as nat, item)
    } else {
        assert(own[i - rest.len()] == item);
        m - 1
    }
}

proof fn lemma_override_is_listed(
    music: Seq<ProjectStageMusic>,
    entries: Seq<ScenarioArchiveEntry>,
    m: nat,
    k: int,
    item: RuntimeStageMusicOverride,
)
    requires
        0 <= k < m <= music.len(),
        stage_overrides(music[k], entries, entries.len()).contains(item),
    ensures
        all_overrides(music, entries, m).contains(item),
    decreases m,
{
    let all = all_overrides(music, entries, m);
    let rest = all_overrides(music, entries, (m - 1) as nat);
    let own = stage_overrides(music[m - 1], entries, entries.len());
    if k < m - 1 {
        lemma_override_is_listed(music, entries, (m - 1) as nat, k, item);
        let i = choose|i: int| 0 <= i < rest.len() && rest[i] == item;
        assert(all[i] == item);
    } else {
        let i = choose|i: int| 0 <= i < own.len() && own[i] == item;
        assert(all[rest.len() + i] == item);
    }
}

proof fn lemma_ordered_holds(list: Seq<RuntimeStageMusicOverride>, item: RuntimeStageMusicOverride)
    ensures
        ordered(list).contains(item) <==> list.contains(item),
{
    law_installed_music_is_in_order(list);
    list.to_multiset_ensures();
    ordered(list).to_multiset_ensures();
    assert(list.contains(item) <==> list.to_multiset().count(item) > 0);
    assert(ordered(list).contains(item) <==> ordered(list).to_multiset().count(item) > 0);
}

proof fn lemma_places_fit(
    music: Seq<ProjectStageMusic>,
    entries: Seq<ScenarioArchiveEntry>,
    m: int,
    e: int,
)
    requires
        0 <= m < music.len(),
        0 <= e < entries.len(),
        search::first_fault(music.len(), stage_fault(music, entries)) is None,
        stage_table::loads(music[m].stage_id@)(entries[e]),
    ensures
        entries[e].area_index <= 255,
        entries[e].scenario_index <= 255,
{
    search::lemma_no_fault(music.len(), stage_fault(music, entries), m);
    search::lemma_no_fault(entries.len(), entry_fault(music, entries, m), e);
}

/// Every override that is installed carries the four identifiers of one piece of the project's
/// music unchanged, and the area and scenario of an entry that loads the stage of that piece.
pub proof fn law_overrides_carry_the_music(
    music: Seq<ProjectStageMusic>,
    entries: Seq<ScenarioArchiveEntry>,
    i: int,
)
    requires
        search::first_fault(music.len(), stage_fault(music, entries)) is None,
        0 <= i < ordered(all_overrides(music, entries, music.len())).len(),
    ensures
        ({
            let item = ordered(all_overrides(music, entries, music.len()))[i];
            exists|m: int, e: int|
                #![trigger music[m], entries[e]]
                0 <= m < music.len() && 0 <= e < entries.len() && item.bgm_id == music[m].bgm_id
                    && item.wave_scene_id == music[m].wave_scene_id && item.secondary_bgm_id
                    == music[m].secondary_bgm_id && item.secondary_wave_scene_id
                    == music[m].secondary_wave_scene_id && item.area_index == entries[e].area_index
                    && item.scenario_index == entries[e].scenario_index && (
                stage_table::archive_stem(entries[e].archive_name@) matches Some(stem)
                    && text::lower(stem) == text::lower(music[m].stage_id@))
        }),
{
    let all = all_overrides(music, entries, music.len());
    let item = ordered(all)[i];
    lemma_ordered_holds(all, item);
    let m = lemma_override_source(music, entries, music.len(), item);
    let e = lemma_stage_override(music[m], entries, entries.len(), item);
    lemma_places_fit(music, entries, m, e);
}

/// Every area and scenario that loads a stage with music gets that music: its own identifiers, in
/// its own place.
pub proof fn law_every_loading_entry_gets_its_music(
    music: Seq<ProjectStageMusic>,
    entries: Seq<ScenarioArchiveEntry>,
    m: int,
    e: int,
)
    requires
        search::first_fault(music.len(), stage_fault(music, entries)) is None,
        0 <= m < music.len(),
        0 <= e < entries.len(),
        stage_table::archive_stem(entries[e].archive_name@) matches Some(stem) && text::lower(stem)
            == text::lower(music[m].stage_id@),
    ensures
        exists|i: int|
            0 <= i < ordered(all_overrides(music, entries, music.len())).len() && ({
                let item = #[trigger] ordered(all_overrides(music, entries, music.len()))[i];
                &&& item.area_index == entries[e].area_index
                &&& item.scenario_index == entries[e].scenario_index
                &&& item.bgm_id == music[m].bgm_id
                &&& item.wave_scene_id == music[m].wave_scene_id
                &&& item.secondary_bgm_id == music[m].secondary_bgm_id
                &&& item.secondary_wave_scene_id == music[m].secondary_wave_scene_id
            }),
{
    let all = all_overrides(music, entries, music.len());
    let item = override_of(music[m], entries[e]);
    lemma_places_fit(music, entries, m, e);
    lemma_entry_is_overridden(music[m], entries, entries.len(), e);
    lemma_override_is_listed(music, entries, music.len(), m, item);
    lemma_ordered_holds(all, item);
    let i = choose|i: int| 0 <= i < ordered(all).len() && ordered(all)[i] == item;
    assert(ordered(all)[i] == item);
}

} // verus!
