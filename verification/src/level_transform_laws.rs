//! What a level transformation does to the joints of a stage, in distances and directions.
use vstd::prelude::*;

use crate::jdrama::VectorBits;
use crate::level_transform;
use crate::level_transform::{
    JointExtent, LevelTransformBehavior, LevelTransformTarget, ModelJoints, RetailLevelTransform,
    SceneEvent, SinkBuilding,
};
use crate::search;

verus! {

proof fn lemma_sign(bits: u32)
    ensures
        bits < 0x8000_0000 ==> bits ^ 0x8000_0000u32 == bits + 0x8000_0000,
        bits ^ 0x8000_0000u32 ^ 0x8000_0000u32 == bits,
{
    assert(bits < 0x8000_0000u32 ==> bits ^ 0x8000_0000u32 == bits + 0x8000_0000u32)
        by (bit_vector);
    assert(bits ^ 0x8000_0000u32 ^ 0x8000_0000u32 == bits) by (bit_vector);
}

/// A building that a sink event moves starts below its final place: its only offset is vertical
/// and negative, and it keeps its size. The game's own events sink by fixed distances (1700 for
/// the first building of the windmill event and 1500 for the others, 3500 for the hotel, 200 for
/// the airport); any other by the height of the building, and by 1000 where that is nothing.
pub proof fn law_sunk_buildings_rise(
    joint: usize,
    event_index: usize,
    record_type: Seq<char>,
    extent: JointExtent,
)
    requires
        extent.height < 0x8000_0000,
    ensures
        ({
            let target = level_transform::moved_target(
                joint,
                RetailLevelTransform::Sink { event_index },
                record_type,
                extent,
            );
            let offset = target.translation_offset;
            &&& target.joint_index == joint
            &&& target.behavior == LevelTransformBehavior::Linear
            &&& offset.x == 0 && offset.z == 0
            &&& offset.y >= 0x8000_0000
            &&& target.scale_multiplier == (VectorBits {
                x: 0x3f80_0000,
                y: 0x3f80_0000,
                z: 0x3f80_0000,
            })
            &&& record_type == "MapEventSinkBianco"@ && event_index == 0 ==> offset.y == 0xc4d4_8000
            &&& record_type == "MapEventSinkBianco"@ && event_index > 0 ==> offset.y == 0xc4bb_8000
            &&& record_type == "MapEventSirenaSink"@ ==> offset.y == 0xc55a_c000
            &&& record_type == "AirportEventSink"@ ==> offset.y == 0xc348_0000
            &&& record_type != "MapEventSinkBianco"@ && record_type != "MapEventSirenaSink"@
                && record_type != "AirportEventSink"@ ==> offset.y == (if extent.height == 0
                || extent.height >= 0x7f80_0000 {
                0xc47a_0000
            } else {
                (extent.height + 0x8000_0000) as u32
            })
        }),
{
    reveal_strlit("MapEventSinkBianco");
    reveal_strlit("MapEventSirenaSink");
    reveal_strlit("AirportEventSink");
    assert("MapEventSinkBianco"@[8] == 'S');
    assert("MapEventSirenaSink"@[9] == 'i');
    assert("MapEventSinkBianco"@[10] == 'n');
    assert("MapEventSirenaSink"@[10] == 'r');
    assert("AirportEventSink"@.len() == 16);
    assert("MapEventSinkBianco"@.len() == 18);
    assert("MapEventSirenaSink"@.len() == 18);
    lemma_sign(0x44d4_8000);
    lemma_sign(0x44bb_8000);
    lemma_sign(0x455a_c000);
    lemma_sign(0x4348_0000);
    lemma_sign(0x447a_0000);
    lemma_sign(extent.height);
    let height = extent.height;
    assert(height < 0x8000_0000 ==> ((height & 0x7f80_0000u32 == 0x7f80_0000u32) <==> height
        >= 0x7f80_0000u32)) by (bit_vector);
}

/// A gate starts flat and 295 above its place and grows to its full height; a rock of the wall
/// starts in front of its place by its own depth and 100 more, or by 100 where its depth is not a
/// number. Neither moves or grows in another direction.
pub proof fn law_gates_grow_and_rocks_slide(
    joint: usize,
    record_type: Seq<char>,
    extent: JointExtent,
)
    ensures
        ({
            let gate = level_transform::moved_target(
                joint,
                RetailLevelTransform::ScaleGate,
                record_type,
                extent,
            );
            let rock = level_transform::moved_target(
                joint,
                RetailLevelTransform::WallRock,
                record_type,
                extent,
            );
            &&& gate.joint_index == joint && rock.joint_index == joint
            &&& gate.behavior == LevelTransformBehavior::Linear
            &&& rock.behavior == LevelTransformBehavior::Linear
            &&& gate.translation_offset == (VectorBits { x: 0, y: 0x4393_8000, z: 0 })
            &&& gate.scale_multiplier == (VectorBits {
                x: 0x3f80_0000,
                y: 0x3c03_126f,
                z: 0x3f80_0000,
            })
            &&& rock.translation_offset.x == 0 && rock.translation_offset.y == 0
            &&& rock.scale_multiplier == (VectorBits {
                x: 0x3f80_0000,
                y: 0x3f80_0000,
                z: 0x3f80_0000,
            })
            &&& extent.depth < 0x7f80_0000 ==> rock.translation_offset.z == extent.depth_past_wall
            &&& 0x7f80_0000 <= extent.depth < 0x8000_0000 ==> rock.translation_offset.z
                == 0x42c8_0000
        }),
{
    let depth = extent.depth;
    assert(depth < 0x8000_0000 ==> ((depth & 0x7f80_0000u32 == 0x7f80_0000u32) <==> depth
        >= 0x7f80_0000u32)) by (bit_vector);
}

/// Which buildings an event moves: a sink event its own, each as the number it has in the event;
/// the two gates of the plaza their own gate; the rock wall its seven rocks; no other event any.
pub proof fn law_events_move_their_buildings(event: SceneEvent)
    ensures
        ({
            let targets = level_transform::event_targets(event);
            &&& event.sink matches Some(buildings) ==> {
                &&& targets.len() == buildings@.len()
                &&& forall|i: int|
                    0 <= i < buildings@.len() ==> (#[trigger] targets[i]).0
                        == buildings@[i].building_index && targets[i].1 is Sink && (i
                        <= usize::MAX ==> targets[i].1->event_index == i)
            }
            &&& event.sink is None && event.record_type@ == "DolpicEventRiccoGate"@ ==> targets
                == seq![(1u16, RetailLevelTransform::ScaleGate)]
            &&& event.sink is None && event.record_type@ == "DolpicEventMammaGate"@ ==> targets
                == seq![(2u16, RetailLevelTransform::ScaleGate)]
            &&& event.sink is None && event.record_type@ == "MareEventWallRock"@ ==> {
                &&& targets.len() == 7
                &&& forall|i: int|
                    0 <= i < 7 ==> (#[trigger] targets[i]).0 == i + 1 && targets[i].1 is WallRock
            }
            &&& event.sink is None && event.record_type@ != "DolpicEventRiccoGate"@
                && event.record_type@ != "DolpicEventMammaGate"@ && event.record_type@
                != "MareEventWallRock"@ ==> targets.len() == 0
        }),
{
    reveal_strlit("DolpicEventRiccoGate");
    reveal_strlit("DolpicEventMammaGate");
    reveal_strlit("MareEventWallRock");
    assert("DolpicEventRiccoGate"@[11] == 'R');
    assert("DolpicEventMammaGate"@[11] == 'M');
    assert("MareEventWallRock"@[11] == 'l');
}

/// The last event that moves a joint decides where it starts, and the other joints keep what they
/// had.
pub proof fn law_the_last_event_decides(
    targets: Seq<LevelTransformTarget>,
    target: LevelTransformTarget,
    i: int,
)
    requires
        level_transform::distinct_joints(targets),
    ensures
        level_transform::with_target(targets, target).contains(target),
        forall|other: LevelTransformTarget| #[trigger]
            level_transform::with_target(targets, target).contains(other) && other.joint_index
                == target.joint_index ==> other == target,
        0 <= i < targets.len() && targets[i].joint_index != target.joint_index
            ==> level_transform::with_target(targets, target).contains(targets[i]),
{
    let after = level_transform::with_target(targets, target);
    let wanted = level_transform::moves_joint(target.joint_index);
    search::lemma_first_position(targets, wanted);
    match search::first_position(targets, wanted) {
        Some(at) => {
            assert(after[at] == target);
            assert forall|other: LevelTransformTarget| #[trigger]
                after.contains(other) && other.joint_index == target.joint_index implies other
                == target by {
                let j = choose|j: int| 0 <= j < after.len() && after[j] == other;
                if j != at {
                    assert(after[j] == targets[j]);
                    assert(targets[at].joint_index == target.joint_index);
                }
            }
            if 0 <= i < targets.len() && targets[i].joint_index != target.joint_index {
                assert(after[i] == targets[i]);
            }
        },
        None => {
            assert(after[targets.len() as int] == target);
            assert forall|other: LevelTransformTarget| #[trigger]
                after.contains(other) && other.joint_index == target.joint_index implies other
                == target by {
                let j = choose|j: int| 0 <= j < after.len() && after[j] == other;
                if j < targets.len() {
                    assert(!wanted(targets[j]));
                }
            }
            if 0 <= i < targets.len() {
                assert(after[i] == targets[i]);
            }
        },
    }
}

/// The last building of an event starts where the event moves it from, where it has a joint.
pub proof fn law_events_reach_their_joints(
    targets: Seq<LevelTransformTarget>,
    event: SceneEvent,
    joints: ModelJoints,
    n: nat,
)
    requires
        0 < n <= level_transform::event_targets(event).len(),
        level_transform::event_targets(event)[n - 1].0 < joints.buildings@.len(),
        joints.buildings@[level_transform::event_targets(event)[n - 1].0 as int] is Some,
    ensures
        ({
            let item = level_transform::event_targets(event)[n - 1];
            let joint = joints.buildings@[item.0 as int]->0;
            joint < joints.extents@.len() ==> level_transform::with_buildings(
                targets,
                level_transform::event_targets(event),
                event.record_type@,
                joints,
                n,
            ).contains(
                level_transform::moved_target(
                    joint,
                    item.1,
                    event.record_type@,
                    joints.extents@[joint as int],
                ),
            )
        }),
{
    let items = level_transform::event_targets(event);
    let joint = joints.buildings@[items[n - 1].0 as int]->0;
    let rest = level_transform::with_buildings(
        targets,
        items,
        event.record_type@,
        joints,
        (n - 1) as nat,
    );
    if joint < joints.extents@.len() {
        let target = level_transform::moved_target(
            joint,
            items[n - 1].1,
            event.record_type@,
            joints.extents@[joint as int],
        );
        let wanted = level_transform::moves_joint(joint);
        search::lemma_first_position(rest, wanted);
        let after = level_transform::with_target(rest, target);
        match search::first_position(rest, wanted) {
            Some(at) => {
                assert(after[at] == target);
            },
            None => {
                assert(after[rest.len() as int] == target);
            },
        }
    }
}

/// In the model of a goop layer, the goop on a building is seen until the transformation starts,
/// and its twin, the object behind it, never. Nothing there is moved or scaled.
pub proof fn law_goop_goes_when_the_building_rises(
    buildings: Seq<SinkBuilding>,
    joints: ModelJoints,
    layer: usize,
    n: nat,
    started: bool,
)
    requires
        n <= buildings.len(),
    ensures
        forall|target: LevelTransformTarget| #[trigger]
            level_transform::with_goop(Seq::empty(), buildings, joints, layer, n).contains(target)
                ==> target.translation_offset == (VectorBits { x: 0, y: 0, z: 0 })
                && target.scale_multiplier == (VectorBits {
                x: 0x3f80_0000,
                y: 0x3f80_0000,
                z: 0x3f80_0000,
            }) && (exists|b: int|
                0 <= b < n && (#[trigger] buildings[b]).pollution_layer_index == layer && ({
                    ||| target.behavior == LevelTransformBehavior::HideAfterStart
                        && level_transform::joint_at(
                        joints.children@,
                        buildings[b].pollution_object_index as int,
                    ) == Some(target.joint_index) && level_transform::is_hidden(target, started)
                        == started
                    ||| target.behavior == LevelTransformBehavior::AlwaysHidden
                        && level_transform::joint_at(
                        joints.children@,
                        buildings[b].pollution_object_index + 1,
                    ) == Some(target.joint_index) && level_transform::is_hidden(target, started)
                })),
    decreases n,
{
    let none = Seq::<LevelTransformTarget>::empty();
    let all = level_transform::with_goop(none, buildings, joints, layer, n);
    if n > 0 {
        let m = (n - 1) as nat;
        law_goop_goes_when_the_building_rises(buildings, joints, layer, m, started);
        let rest = level_transform::with_goop(none, buildings, joints, layer, m);
        let b = buildings[n - 1];
        let first = level_transform::goop_target(
            joints,
            b.pollution_object_index as int,
            LevelTransformBehavior::HideAfterStart,
        );
        let second = level_transform::goop_target(
            joints,
            b.pollution_object_index + 1,
            LevelTransformBehavior::AlwaysHidden,
        );
        let half = level_transform::with_optional(rest, first);
        assert forall|target: LevelTransformTarget| #[trigger]
            all.contains(target) implies target.translation_offset == (VectorBits {
            x: 0,
            y: 0,
            z: 0,
        }) && target.scale_multiplier == (VectorBits {
            x: 0x3f80_0000,
            y: 0x3f80_0000,
            z: 0x3f80_0000,
        }) && (exists|b: int|
            0 <= b < n && (#[trigger] buildings[b]).pollution_layer_index == layer && ({
                ||| target.behavior == LevelTransformBehavior::HideAfterStart
                    && level_transform::joint_at(
                    joints.children@,
                    buildings[b].pollution_object_index as int,
                ) == Some(target.joint_index) && level_transform::is_hidden(target, started)
                    == started
                ||| target.behavior == LevelTransformBehavior::AlwaysHidden
                    && level_transform::joint_at(
                    joints.children@,
                    buildings[b].pollution_object_index + 1,
                ) == Some(target.joint_index) && level_transform::is_hidden(target, started)
            })) by {
            if b.pollution_layer_index == layer {
                lemma_added(half, second, target);
                lemma_added(rest, first, target);
                assert(buildings[n - 1].pollution_layer_index == layer);
            }
            if rest.contains(target) {
                let c = choose|c: int|
                    0 <= c < m && (#[trigger] buildings[c]).pollution_layer_index == layer && ({
                        ||| target.behavior == LevelTransformBehavior::HideAfterStart
                            && level_transform::joint_at(
                            joints.children@,
                            buildings[c].pollution_object_index as int,
                        ) == Some(target.joint_index)
                        ||| target.behavior == LevelTransformBehavior::AlwaysHidden
                            && level_transform::joint_at(
                            joints.children@,
                            buildings[c].pollution_object_index + 1,
                        ) == Some(target.joint_index)
                    });
                assert(buildings[c].pollution_layer_index == layer);
            }
        }
    }
}

proof fn lemma_added(
    targets: Seq<LevelTransformTarget>,
    added: Option<LevelTransformTarget>,
    target: LevelTransformTarget,
)
    ensures
        level_transform::with_optional(targets, added).contains(target) ==> targets.contains(target)
            || added == Some(target),
{
    if let Some(item) = added {
        let after = level_transform::with_target(targets, item);
        search::lemma_first_position(targets, level_transform::moves_joint(item.joint_index));
        if after.contains(target) {
            let j = choose|j: int| 0 <= j < after.len() && after[j] == target;
            match search::first_position(
                targets,
                level_transform::moves_joint(item.joint_index),
            ) {
                Some(at) => {
                    if j != at {
                        assert(targets[j] == target);
                    }
                },
                None => {
                    if j < targets.len() {
                        assert(targets[j] == target);
                    }
                },
            }
        }
    }
}

} // verus!
