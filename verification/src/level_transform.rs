//! How a stage changes when its level transformation runs: which joints of the terrain and of the
//! goop models move, shrink or vanish.
//!
//! Distances are bit patterns of 32-bit floats.
use vstd::prelude::*;

use crate::jdrama;
use crate::jdrama::VectorBits;
use crate::preview_assets;
use crate::search;
use crate::stage::{StageAsset, StageAssetKind};
use crate::text;

verus! {

pub const ONE: u32 = 0x3f80_0000;

pub const SIGN: u32 = 0x8000_0000;

/// How a joint takes part in the transformation.
#[derive(Debug, Clone, Copy, PartialEq, Eq, Structural)]
pub enum LevelTransformBehavior {
    Linear,
    AlwaysHidden,
    HideAfterStart,
}

/// Where a joint starts from, relative to its place after the transformation.
#[derive(Debug, Clone, Copy, PartialEq, Eq, Structural)]
pub struct LevelTransformTarget {
    pub joint_index: usize,
    pub translation_offset: VectorBits,
    pub scale_multiplier: VectorBits,
    pub behavior: LevelTransformBehavior,
}

/// A building that an event of the stage sinks.
#[derive(Debug, Clone, Copy, PartialEq, Eq, Structural)]
pub struct SinkBuilding {
    pub building_index: u16,
    pub pollution_layer_index: u16,
    pub pollution_object_index: u16,
}

/// An object of the scene, as far as level transformations go.
#[derive(Debug)]
pub struct SceneEvent {
    pub record_type: String,
    /// The buildings of a sink event.
    pub sink: Option<Vec<SinkBuilding>>,
}

/// The extent of a joint's geometry.
#[derive(Debug, Clone, Copy, PartialEq, Eq, Structural)]
pub struct JointExtent {
    /// Distance between its lowest and its highest point.
    pub height: u32,
    /// Distance between its nearest and its farthest point.
    pub depth: u32,
    /// That distance plus 100.
    pub depth_past_wall: u32,
}

/// The joints of a model.
#[derive(Debug)]
pub struct ModelJoints {
    /// The runtime children of the root, by goop object.
    pub children: Vec<Option<usize>>,
    /// The joint of each map building.
    pub buildings: Vec<Option<usize>>,
    /// The extent of each joint.
    pub extents: Vec<JointExtent>,
}

/// The joint at a place of a table.
pub open spec fn joint_at(table: Seq<Option<usize>>, i: int) -> Option<usize> {
    if 0 <= i < table.len() {
        table[i]
    } else {
        None
    }
}

fn find_joint(table: &[Option<usize>], i: usize) -> (r: Option<usize>)
    ensures
        r == joint_at(table@, i as int),
{
    if i < table.len() {
        table[i]
    } else {
        None
    }
}

/// A joint that the transformation hides.
pub open spec fn hidden_target(joint: usize, behavior: LevelTransformBehavior) -> LevelTransformTarget {
    LevelTransformTarget {
        joint_index: joint,
        translation_offset: VectorBits { x: 0, y: 0, z: 0 },
        scale_multiplier: VectorBits { x: ONE, y: ONE, z: ONE },
        behavior,
    }
}

/// The extent of a joint; a joint without geometry has none.
pub open spec fn extent_of(extents: Seq<JointExtent>, joint: usize) -> JointExtent {
    if joint < extents.len() {
        extents[joint as int]
    } else {
        JointExtent { height: 0, depth: 0, depth_past_wall: 0x42c8_0000 }
    }
}

/// How far a sunk building lies below its final place: fixed for the events of the game, the
/// height of its own geometry elsewhere, and 1000 where that is nothing.
pub open spec fn sink_depth(record_type: Seq<char>, event_index: int, height: u32) -> u32 {
    if record_type == "MapEventSinkBianco"@ {
        if event_index == 0 {
            0x44d4_8000
        } else {
            0x44bb_8000
        }
    } else if record_type == "MapEventSirenaSink"@ {
        0x455a_c000
    } else if record_type == "AirportEventSink"@ {
        0x4348_0000
    } else if jdrama::finite_bits(height) && height != 0 {
        height
    } else {
        0x447a_0000
    }
}

/// What an event does to a building.
#[derive(Debug, Clone, Copy, PartialEq, Eq, Structural)]
pub enum RetailLevelTransform {
    Sink { event_index: usize },
    ScaleGate,
    WallRock,
}

/// The start of a joint that an event moves.
pub open spec fn moved_target(
    joint: usize,
    transform: RetailLevelTransform,
    record_type: Seq<char>,
    extent: JointExtent,
) -> LevelTransformTarget {
    let offset = match transform {
        RetailLevelTransform::Sink { event_index } => VectorBits {
            x: 0,
            y: sink_depth(record_type, event_index as int, extent.height) ^ SIGN,
            z: 0,
        },
        RetailLevelTransform::ScaleGate => VectorBits { x: 0, y: 0x4393_8000, z: 0 },
        RetailLevelTransform::WallRock => VectorBits {
            x: 0,
            y: 0,
            z: if jdrama::finite_bits(extent.depth) {
                extent.depth_past_wall
            } else {
                0x42c8_0000
            },
        },
    };
    let scale = match transform {
        RetailLevelTransform::ScaleGate => VectorBits { x: ONE, y: 0x3c03_126f, z: ONE },
        _ => VectorBits { x: ONE, y: ONE, z: ONE },
    };
    LevelTransformTarget {
        joint_index: joint,
        translation_offset: offset,
        scale_multiplier: scale,
        behavior: LevelTransformBehavior::Linear,
    }
}

/// The event moves this joint.
pub open spec fn moves_joint(joint: usize) -> spec_fn(LevelTransformTarget) -> bool {
    |target: LevelTransformTarget| target.joint_index == joint
}

/// The targets with one more: a joint keeps its place, and its last event decides.
pub open spec fn with_target(
    targets: Seq<LevelTransformTarget>,
    target: LevelTransformTarget,
) -> Seq<LevelTransformTarget> {
    match search::first_position(targets, moves_joint(target.joint_index)) {
        Some(i) => targets.update(i, target),
        None => targets.push(target),
    }
}

/// The targets with a target that may be missing.
pub open spec fn with_optional(
    targets: Seq<LevelTransformTarget>,
    target: Option<LevelTransformTarget>,
) -> Seq<LevelTransformTarget> {
    match target {
        Some(target) => with_target(targets, target),
        None => targets,
    }
}

fn put_target(targets: &mut Vec<LevelTransformTarget>, target: LevelTransformTarget)
    ensures
        final(targets)@ == with_target(old(targets)@, target),
{
    let mut i: usize = 0;
    while i < targets.len()
        invariant
            i <= targets.len(),
            targets@ == old(targets)@,
            forall|j: int|
                0 <= j < i ==> !moves_joint(target.joint_index)(#[trigger] targets@[j]),
        decreases targets.len() - i,
    {
        if targets[i].joint_index == target.joint_index {
            proof {
                search::lemma_found(targets@, moves_joint(target.joint_index), i as int);
            }
            targets.set(i, target);
            return;
        }
        i += 1;
    }
    proof {
        search::lemma_not_found(targets@, moves_joint(target.joint_index));
    }
    targets.push(target);
}

/// The target of a hidden goop object.
pub open spec fn goop_target(
    joints: ModelJoints,
    object: int,
    behavior: LevelTransformBehavior,
) -> Option<LevelTransformTarget> {
    match joint_at(joints.children@, object) {
        Some(joint) => Some(hidden_target(joint, behavior)),
        None => None,
    }
}

/// The targets after the first `n` buildings, in the model of a goop layer: the goop on a building
/// goes when the building rises, its twin is never seen.
pub open spec fn with_goop(
    targets: Seq<LevelTransformTarget>,
    buildings: Seq<SinkBuilding>,
    joints: ModelJoints,
    layer: usize,
    n: nat,
) -> Seq<LevelTransformTarget>
    decreases n,
{
    if n == 0 {
        targets
    } else {
        let rest = with_goop(targets, buildings, joints, layer, (n - 1) as nat);
        let building = buildings[n - 1];
        if building.pollution_layer_index == layer {
            with_optional(
                with_optional(
                    rest,
                    goop_target(
                        joints,
                        building.pollution_object_index as int,
                        LevelTransformBehavior::HideAfterStart,
                    ),
                ),
                goop_target(
                    joints,
                    building.pollution_object_index + 1,
                    LevelTransformBehavior::AlwaysHidden,
                ),
            )
        } else {
            rest
        }
    }
}

fn put_goop(
    targets: &mut Vec<LevelTransformTarget>,
    buildings: &[SinkBuilding],
    joints: &ModelJoints,
    layer: usize,
)
    ensures
        final(targets)@ == with_goop(
            old(targets)@,
            buildings@,
            *joints,
            layer,
            buildings@.len(),
        ),
{
    let mut i: usize = 0;
    while i < buildings.len()
        invariant
            i <= buildings.len(),
            targets@ == with_goop(old(targets)@, buildings@, *joints, layer, i as nat),
        decreases buildings.len() - i,
    {
        let building = buildings[i];
        if building.pollution_layer_index as usize == layer {
            let object = building.pollution_object_index as usize;
            if let Some(joint) = find_joint(joints.children.as_slice(), object) {
                put_target(
                    targets,
                    LevelTransformTarget {
                        joint_index: joint,
                        translation_offset: VectorBits { x: 0, y: 0, z: 0 },
                        scale_multiplier: VectorBits { x: ONE, y: ONE, z: ONE },
                        behavior: LevelTransformBehavior::HideAfterStart,
                    },
                );
            }
            if let Some(joint) = find_joint(joints.children.as_slice(), object + 1) {
                put_target(
                    targets,
                    LevelTransformTarget {
                        joint_index: joint,
                        translation_offset: VectorBits { x: 0, y: 0, z: 0 },
                        scale_multiplier: VectorBits { x: ONE, y: ONE, z: ONE },
                        behavior: LevelTransformBehavior::AlwaysHidden,
                    },
                );
            }
        }
        i += 1;
    }
}

/// What an event does to which building, in order.
pub open spec fn event_targets(event: SceneEvent) -> Seq<(u16, RetailLevelTransform)> {
    match event.sink {
        Some(buildings) => Seq::new(
            buildings@.len(),
            |i: int|
                (
                    buildings@[i].building_index,
                    RetailLevelTransform::Sink { event_index: i as usize },
                ),
        ),
        None => if event.record_type@ == "DolpicEventRiccoGate"@ {
            seq![(1u16, RetailLevelTransform::ScaleGate)]
        } else if event.record_type@ == "DolpicEventMammaGate"@ {
            seq![(2u16, RetailLevelTransform::ScaleGate)]
        } else if event.record_type@ == "MareEventWallRock"@ {
            Seq::new(7, |i: int| ((i + 1) as u16, RetailLevelTransform::WallRock))
        } else {
            Seq::empty()
        },
    }
}

fn list_event_targets(event: &SceneEvent) -> (r: Vec<(u16, RetailLevelTransform)>)
    ensures
        r@ == event_targets(*event),
{
    let mut r: Vec<(u16, RetailLevelTransform)> = Vec::new();
    match &event.sink {
        Some(buildings) => {
            let mut i: usize = 0;
            while i < buildings.len()
                invariant
                    i <= buildings.len(),
                    r@.len() == i,
                    forall|j: int|
                        0 <= j < i ==> #[trigger] r@[j] == (
                            buildings@[j].building_index,
                            RetailLevelTransform::Sink { event_index: j as usize },
                        ),
                decreases buildings.len() - i,
            {
                r.push((buildings[i].building_index, RetailLevelTransform::Sink { event_index: i }));
                i += 1;
            }
        },
        None => {
            if text::same(event.record_type.as_str(), "DolpicEventRiccoGate") {
                r.push((1, RetailLevelTransform::ScaleGate));
            } else if text::same(event.record_type.as_str(), "DolpicEventMammaGate") {
                r.push((2, RetailLevelTransform::ScaleGate));
            } else if text::same(event.record_type.as_str(), "MareEventWallRock") {
                let mut i: u16 = 1;
                while i <= 7
                    invariant
                        1 <= i <= 8,
                        r@.len() == i - 1,
                        forall|j: int|
                            0 <= j < i - 1 ==> #[trigger] r@[j] == (
                                (j + 1) as u16,
                                RetailLevelTransform::WallRock,
                            ),
                    decreases 8 - i,
                {
                    r.push((i, RetailLevelTransform::WallRock));
                    i += 1;
                }
            }
        },
    }
    proof {
        assert(r@ =~= event_targets(*event));
    }
    r
}

/// The target that an event gives a building, where the building has a joint.
pub open spec fn building_target(
    item: (u16, RetailLevelTransform),
    record_type: Seq<char>,
    joints: ModelJoints,
) -> Option<LevelTransformTarget> {
    match joint_at(joints.buildings@, item.0 as int) {
        Some(joint) => Some(
            moved_target(joint, item.1, record_type, extent_of(joints.extents@, joint)),
        ),
        None => None,
    }
}

/// The targets after the first `n` buildings of an event.
pub open spec fn with_buildings(
    targets: Seq<LevelTransformTarget>,
    items: Seq<(u16, RetailLevelTransform)>,
    record_type: Seq<char>,
    joints: ModelJoints,
    n: nat,
) -> Seq<LevelTransformTarget>
    decreases n,
{
    if n == 0 {
        targets
    } else {
        with_optional(
            with_buildings(targets, items, record_type, joints, (n - 1) as nat),
            building_target(items[n - 1], record_type, joints),
        )
    }
}

fn find_sink_depth(record_type: &str, event_index: usize, height: u32) -> (r: u32)
    ensures
        r == sink_depth(record_type@, event_index as int, height),
{
    if text::same(record_type, "MapEventSinkBianco") {
        if event_index == 0 {
            0x44d4_8000
        } else {
            0x44bb_8000
        }
    } else if text::same(record_type, "MapEventSirenaSink") {
        0x455a_c000
    } else if text::same(record_type, "AirportEventSink") {
        0x4348_0000
    } else if is_finite(height) && height != 0 {
        height
    } else {
        0x447a_0000
    }
}

fn is_finite(bits: u32) -> (r: bool)
    ensures
        r == jdrama::finite_bits(bits),
{
    bits & 0x7f80_0000 != 0x7f80_0000
}

fn make_moved_target(
    joint: usize,
    transform: RetailLevelTransform,
    record_type: &str,
    extent: JointExtent,
) -> (r: LevelTransformTarget)
    ensures
        r == moved_target(joint, transform, record_type@, extent),
{
    let mut offset = VectorBits { x: 0, y: 0, z: 0 };
    let mut scale = VectorBits { x: ONE, y: ONE, z: ONE };
    match transform {
        RetailLevelTransform::Sink { event_index } => {
            offset.y = find_sink_depth(record_type, event_index, extent.height) ^ SIGN;
        },
        RetailLevelTransform::ScaleGate => {
            offset.y = 0x4393_8000;
            scale.y = 0x3c03_126f;
        },
        RetailLevelTransform::WallRock => {
            offset.z = if is_finite(extent.depth) {
                extent.depth_past_wall
            } else {
                0x42c8_0000
            };
        },
    }
    LevelTransformTarget {
        joint_index: joint,
        translation_offset: offset,
        scale_multiplier: scale,
        behavior: LevelTransformBehavior::Linear,
    }
}

fn put_buildings(
    targets: &mut Vec<LevelTransformTarget>,
    event: &SceneEvent,
    joints: &ModelJoints,
)
    ensures
        final(targets)@ == with_buildings(
            old(targets)@,
            event_targets(*event),
            event.record_type@,
            *joints,
            event_targets(*event).len(),
        ),
{
    let items = list_event_targets(event);
    let mut i: usize = 0;
    while i < items.len()
        invariant
            i <= items.len(),
            items@ == event_targets(*event),
            targets@ == with_buildings(
                old(targets)@,
                items@,
                event.record_type@,
                *joints,
                i as nat,
            ),
        decreases items.len() - i,
    {
        let (building, transform) = items[i];
        if let Some(joint) = find_joint(joints.buildings.as_slice(), building as usize) {
            let extent = if joint < joints.extents.len() {
                joints.extents[joint]
            } else {
                JointExtent { height: 0, depth: 0, depth_past_wall: 0x42c8_0000 }
            };
            put_target(
                targets,
                make_moved_target(joint, transform, event.record_type.as_str(), extent),
            );
        }
        i += 1;
    }
}

/// The targets after one object of the scene.
pub open spec fn with_event(
    targets: Seq<LevelTransformTarget>,
    event: SceneEvent,
    joints: ModelJoints,
    layer: Option<usize>,
    is_map: bool,
) -> Seq<LevelTransformTarget> {
    match (layer, event.sink) {
        (Some(layer), Some(buildings)) => with_goop(
            targets,
            buildings@,
            joints,
            layer,
            buildings@.len(),
        ),
        _ => if is_map {
            with_buildings(
                targets,
                event_targets(event),
                event.record_type@,
                joints,
                event_targets(event).len(),
            )
        } else {
            targets
        },
    }
}

/// The targets after the first `n` objects of the scene.
pub open spec fn with_events(
    events: Seq<SceneEvent>,
    joints: ModelJoints,
    layer: Option<usize>,
    is_map: bool,
    n: nat,
) -> Seq<LevelTransformTarget>
    decreases n,
{
    if n == 0 {
        Seq::empty()
    } else {
        with_event(
            with_events(events, joints, layer, is_map, (n - 1) as nat),
            events[n - 1],
            joints,
            layer,
            is_map,
        )
    }
}

/// The scene file of a stage archive.
pub open spec fn is_scene_file(asset: StageAsset) -> bool {
    asset.kind == StageAssetKind::Placement && "!/map/scene.bin"@.is_suffix_of(
        text::lower(preview_assets::slashed(asset.path@)),
    )
}

/// Whether an asset is the scene file of a stage archive, whose objects can transform the level.
pub fn asset_is_scene_file(asset: &StageAsset) -> (r: bool)
    ensures
        r == is_scene_file(*asset),
{
    let path = text::to_lower(text::replaced(asset.path.as_str(), '\\', '/').as_str());
    asset.kind == StageAssetKind::Placement && text::ends_with(path.as_str(), "!/map/scene.bin")
}

/// The joints that the objects of the scene files move or hide in a model. Only the terrain and
/// the models of goop layers take part; `layer` is the goop layer that the model draws.
pub fn level_transform_targets(
    events: &[SceneEvent],
    model_path: &str,
    layer: Option<usize>,
    joints: &ModelJoints,
) -> (r: Vec<LevelTransformTarget>)
    ensures
        r@ == with_events(
            events@,
            *joints,
            layer,
            preview_assets::is_map_terrain(model_path@),
            events@.len(),
        ),
        !preview_assets::is_map_terrain(model_path@) && layer is None ==> r@.len() == 0,
{
    let is_map = preview_assets::model_path_is_map_terrain(model_path);
    let mut targets: Vec<LevelTransformTarget> = Vec::new();
    let mut i: usize = 0;
    while i < events.len()
        invariant
            i <= events.len(),
            is_map == preview_assets::is_map_terrain(model_path@),
            targets@ == with_events(events@, *joints, layer, is_map, i as nat),
            !is_map && layer is None ==> targets@.len() == 0,
        decreases events.len() - i,
    {
        let event = &events[i];
        match (layer, &event.sink) {
            (Some(layer), Some(buildings)) => {
                put_goop(&mut targets, buildings.as_slice(), joints, layer);
            },
            _ => {
                if is_map {
                    put_buildings(&mut targets, event, joints);
                }
            },
        }
        i += 1;
    }
    targets
}

/// No joint stands in the targets twice.
pub open spec fn distinct_joints(targets: Seq<LevelTransformTarget>) -> bool {
    forall|i: int, j: int|
        0 <= i < j < targets.len() ==> (#[trigger] targets[i]).joint_index != (
        #[trigger] targets[j]).joint_index
}

proof fn lemma_with_target_is_distinct(
    targets: Seq<LevelTransformTarget>,
    target: LevelTransformTarget,
)
    requires
        distinct_joints(targets),
    ensures
        distinct_joints(with_target(targets, target)),
{
    search::lemma_first_position(targets, moves_joint(target.joint_index));
}

proof fn lemma_goop_is_distinct(
    targets: Seq<LevelTransformTarget>,
    buildings: Seq<SinkBuilding>,
    joints: ModelJoints,
    layer: usize,
    n: nat,
)
    requires
        distinct_joints(targets),
    ensures
        distinct_joints(with_goop(targets, buildings, joints, layer, n)),
    decreases n,
{
    if n > 0 {
        lemma_goop_is_distinct(targets, buildings, joints, layer, (n - 1) as nat);
        let rest = with_goop(targets, buildings, joints, layer, (n - 1) as nat);
        let building = buildings[n - 1];
        let first = goop_target(
            joints,
            building.pollution_object_index as int,
            LevelTransformBehavior::HideAfterStart,
        );
        let second = goop_target(
            joints,
            building.pollution_object_index + 1,
            LevelTransformBehavior::AlwaysHidden,
        );
        if let Some(target) = first {
            lemma_with_target_is_distinct(rest, target);
        }
        if let Some(target) = second {
            lemma_with_target_is_distinct(with_optional(rest, first), target);
        }
    }
}

proof fn lemma_buildings_are_distinct(
    targets: Seq<LevelTransformTarget>,
    items: Seq<(u16, RetailLevelTransform)>,
    record_type: Seq<char>,
    joints: ModelJoints,
    n: nat,
)
    requires
        distinct_joints(targets),
    ensures
        distinct_joints(with_buildings(targets, items, record_type, joints, n)),
    decreases n,
{
    if n > 0 {
        lemma_buildings_are_distinct(targets, items, record_type, joints, (n - 1) as nat);
        if let Some(target) = building_target(items[n - 1], record_type, joints) {
            lemma_with_target_is_distinct(
                with_buildings(targets, items, record_type, joints, (n - 1) as nat),
                target,
            );
        }
    }
}

/// A level transformation moves each joint of a model once.
pub proof fn law_each_joint_moves_once(
    events: Seq<SceneEvent>,
    joints: ModelJoints,
    layer: Option<usize>,
    is_map: bool,
    n: nat,
)
    requires
        n <= events.len(),
    ensures
        distinct_joints(with_events(events, joints, layer, is_map, n)),
    decreases n,
{
    if n > 0 {
        law_each_joint_moves_once(events, joints, layer, is_map, (n - 1) as nat);
        let rest = with_events(events, joints, layer, is_map, (n - 1) as nat);
        let event = events[n - 1];
        if let (Some(l), Some(buildings)) = (layer, event.sink) {
            lemma_goop_is_distinct(rest, buildings@, joints, l, buildings@.len());
        }
        lemma_buildings_are_distinct(
            rest,
            event_targets(event),
            event.record_type@,
            joints,
            event_targets(event).len(),
        );
    }
}

/// The joint is not drawn at this moment.
pub open spec fn is_hidden(target: LevelTransformTarget, started: bool) -> bool {
    match target.behavior {
        LevelTransformBehavior::Linear => false,
        LevelTransformBehavior::AlwaysHidden => true,
        LevelTransformBehavior::HideAfterStart => started,
    }
}

/// Whether a joint is not drawn, before or after the transformation has started.
pub fn level_transform_target_is_hidden(target: &LevelTransformTarget, started: bool) -> (r: bool)
    ensures
        r == is_hidden(*target, started),
{
    match target.behavior {
        LevelTransformBehavior::Linear => false,
        LevelTransformBehavior::AlwaysHidden => true,
        LevelTransformBehavior::HideAfterStart => started,
    }
}

/// Some hidden joint carries the shape.
pub open spec fn shape_is_hidden(
    targets: Seq<LevelTransformTarget>,
    shapes: Seq<Vec<usize>>,
    started: bool,
    shape: usize,
) -> bool {
    exists|i: int|
        0 <= i < targets.len() && i < shapes.len() && is_hidden(#[trigger] targets[i], started)
            && shapes[i]@.contains(shape)
}

/// For each triangle, by its shape, whether a hidden joint carries it; `shapes` lists the shapes
/// below each target's joint.
pub fn apply_level_transform_visibility(
    targets: &[LevelTransformTarget],
    shapes: &[Vec<usize>],
    started: bool,
    triangle_shapes: &[usize],
) -> (r: Vec<bool>)
    ensures
        r@ == Seq::new(
            triangle_shapes@.len(),
            |i: int| shape_is_hidden(targets@, shapes@, started, triangle_shapes@[i]),
        ),
{
    let mut r: Vec<bool> = Vec::new();
    let mut t: usize = 0;
    while t < triangle_shapes.len()
        invariant
            t <= triangle_shapes.len(),
            r@ == Seq::new(
                t as nat,
                |i: int| shape_is_hidden(targets@, shapes@, started, triangle_shapes@[i]),
            ),
        decreases triangle_shapes.len() - t,
    {
        let hidden = is_hidden_shape(targets, shapes, started, triangle_shapes[t]);
        r.push(hidden);
        t += 1;
        proof {
            assert(r@ =~= Seq::new(
                t as nat,
                |i: int| shape_is_hidden(targets@, shapes@, started, triangle_shapes@[i]),
            ));
        }
    }
    r
}

fn is_hidden_shape(
    targets: &[LevelTransformTarget],
    shapes: &[Vec<usize>],
    started: bool,
    shape: usize,
) -> (r: bool)
    ensures
        r == shape_is_hidden(targets@, shapes@, started, shape),
{
    let mut i: usize = 0;
    while i < targets.len() && i < shapes.len()
        invariant
            i <= targets.len(),
            i <= shapes.len(),
            forall|j: int|
                0 <= j < i ==> !(is_hidden(#[trigger] targets@[j], started) && shapes@[j]@.contains(
                    shape,
                )),
        decreases targets.len() - i,
    {
        if level_transform_target_is_hidden(&targets[i], started) {
            let mut k: usize = 0;
            while k < shapes[i].len()
                invariant
                    i < targets.len(),
                    i < shapes.len(),
                    k <= shapes@[i as int].len(),
                    is_hidden(targets@[i as int], started),
                    forall|m: int| 0 <= m < k ==> #[trigger] shapes@[i as int]@[m] != shape,
                decreases shapes[i as int].len() - k,
            {
                if shapes[i][k] == shape {
                    assert(shapes@[i as int]@[k as int] == shape);
                    return true;
                }
                k += 1;
            }
        }
        i += 1;
    }
    false
}

} // verus!
