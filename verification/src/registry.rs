//! What the decompiled game tells about objects and their resources.
use vstd::prelude::*;

use crate::preview::TevColor;
use crate::search;
use crate::text;

verus! {

/// A collision resource that a stock map object loads.
#[derive(Debug, Clone)]
pub struct MapObjCollisionResourceDefinition {
    pub resource_name: String,
    pub max_vertices: Option<u16>,
}

/// A stock map-object slot.
#[derive(Debug, Clone)]
pub struct MapObjResourceDefinition {
    pub resource_name: String,
    pub object_flags: u32,
    pub required_manager_name: String,
    pub has_hold_dependency: bool,
    pub has_move_dependency: bool,
    pub uses_resource_name_model_fallback: bool,
    pub primary_model: Option<String>,
    pub load_flags: u32,
    pub collision_resources: Vec<MapObjCollisionResourceDefinition>,
}

/// Where a particle effect sits on its actor.
#[derive(Debug, Clone, Copy, PartialEq, Eq, Structural)]
pub enum ParticleBindingTarget {
    ActorOrigin,
    ModelJoint(usize),
}

/// A particle effect that a class of actors emits.
#[derive(Debug, Clone)]
pub struct ActorParticleBinding {
    pub class_name: String,
    pub effect_id: u16,
    pub target: ParticleBindingTarget,
}

/// The file that holds a particle effect.
#[derive(Debug, Clone)]
pub struct ParticleResource {
    pub effect_id: u16,
    pub path: String,
}

/// The class behind an object factory.
#[derive(Debug, Clone)]
pub struct ObjectDefinition {
    pub factory_name: String,
    pub class_name: String,
}

/// The colours that an NPC material can take.
#[derive(Debug, Clone)]
pub struct NpcColorChangeDefinition {
    pub material_name: String,
    pub mode: u8,
    pub colors0: Vec<TevColor>,
    pub colors1: Vec<TevColor>,
}

/// The colours of a material of an NPC's own models.
#[derive(Debug, Clone)]
pub struct NpcMaterialColorDefinition {
    pub factory_name: String,
    pub model_index: usize,
    pub color_index_channel: u8,
    pub change: NpcColorChangeDefinition,
}

/// A TEV register colour that an enemy class sets, component by component.
#[derive(Debug, Clone)]
pub struct EnemyMaterialColorDefinition {
    pub factory_name: String,
    pub material_name: String,
    pub tev_register: u8,
    pub color: [Option<i16>; 4],
}

/// A TEV register colour.
#[derive(Debug, Clone, Copy, PartialEq, Eq, Structural)]
pub struct MapObjTevColorDefinition {
    pub register: u8,
    pub color: TevColor,
}

/// A map object whose model differs from its resource name.
#[derive(Debug, Clone)]
pub struct MapObjModelOverrideDefinition {
    pub factory_name: String,
    pub resource_name: String,
    pub tev_color: Option<MapObjTevColorDefinition>,
}

/// The colour that one selector text gives.
#[derive(Debug, Clone)]
pub struct MapObjStringTevVariant {
    pub selector_value: String,
    pub color: TevColor,
}

/// A map object whose colour depends on a selector text.
#[derive(Debug, Clone)]
pub struct MapObjStringTevProgram {
    pub factory_name: String,
    pub resource_name: String,
    pub tev_register: u8,
    pub default_color: TevColor,
    pub variants: Vec<MapObjStringTevVariant>,
}

/// A model of an NPC part.
#[derive(Debug, Clone)]
pub struct NpcPartModelDefinition {
    pub model_name: String,
    pub joint_name: Option<String>,
}

/// An optional part of an NPC.
#[derive(Debug, Clone)]
pub struct NpcPartDefinition {
    pub bit_index: u8,
    pub color_index_channel: u8,
    pub uses_pollution: bool,
    pub color_changes: Vec<NpcColorChangeDefinition>,
    pub models: Vec<NpcPartModelDefinition>,
}

/// The parts of an NPC class.
#[derive(Debug, Clone)]
pub struct NpcActorDefinition {
    pub factory_name: String,
    pub parts: Vec<NpcPartDefinition>,
}

/// The name of a collision surface value.
#[derive(Debug, Clone)]
pub struct CollisionSurfaceDefinition {
    pub name: String,
    pub value: u16,
    pub is_property_flag: bool,
}

/// How fast flags flutter in an area.
#[derive(Debug, Clone, Copy, PartialEq, Eq, Structural)]
pub struct MapObjFlagAreaSpeed {
    pub area_index: u32,
    pub degrees_per_frame: u32,
}

/// A class of flags.
#[derive(Debug, Clone)]
pub struct MapObjFlagDefinition {
    pub factory_name: String,
    pub texture_path_pattern: String,
    pub registered_texture_names: Vec<String>,
    pub resource_name_stream_index: usize,
    pub default_flutter_speed_degrees_per_frame: u32,
    pub area_flutter_speeds: Vec<MapObjFlagAreaSpeed>,
    pub phase_wrap_degrees: u32,
    pub stage_archive_table_path: String,
}

/// Everything known of objects and their resources.
#[derive(Debug, Clone)]
pub struct ObjectRegistry {
    pub objects: Vec<ObjectDefinition>,
    pub map_obj_resources: Vec<MapObjResourceDefinition>,
    pub actor_particle_bindings: Vec<ActorParticleBinding>,
    pub particle_resources: Vec<ParticleResource>,
    pub npc_material_colors: Vec<NpcMaterialColorDefinition>,
    pub enemy_material_colors: Vec<EnemyMaterialColorDefinition>,
    pub map_obj_model_overrides: Vec<MapObjModelOverrideDefinition>,
    pub map_obj_string_tev_programs: Vec<MapObjStringTevProgram>,
    pub npc_actors: Vec<NpcActorDefinition>,
    pub collision_surfaces: Vec<CollisionSurfaceDefinition>,
    pub map_obj_flags: Vec<MapObjFlagDefinition>,
}

/// The slot has exactly this resource name.
pub open spec fn has_resource_name(name: Seq<char>) -> spec_fn(MapObjResourceDefinition) -> bool {
    |slot: MapObjResourceDefinition| slot.resource_name@ == name
}

/// Position of the first slot with exactly this resource name.
pub open spec fn slot_position(
    slots: Seq<MapObjResourceDefinition>,
    name: Seq<char>,
) -> Option<int> {
    search::first_position(slots, has_resource_name(name))
}

impl ObjectRegistry {
    /// Nothing known.
    pub fn new() -> (r: ObjectRegistry)
        ensures
            r.objects@.len() == 0,
            r.map_obj_resources@.len() == 0,
            r.actor_particle_bindings@.len() == 0,
            r.particle_resources@.len() == 0,
            r.npc_material_colors@.len() == 0,
            r.enemy_material_colors@.len() == 0,
            r.map_obj_model_overrides@.len() == 0,
            r.map_obj_string_tev_programs@.len() == 0,
            r.npc_actors@.len() == 0,
            r.collision_surfaces@.len() == 0,
            r.map_obj_flags@.len() == 0,
    {
        ObjectRegistry {
            objects: Vec::new(),
            map_obj_resources: Vec::new(),
            actor_particle_bindings: Vec::new(),
            particle_resources: Vec::new(),
            npc_material_colors: Vec::new(),
            enemy_material_colors: Vec::new(),
            map_obj_model_overrides: Vec::new(),
            map_obj_string_tev_programs: Vec::new(),
            npc_actors: Vec::new(),
            collision_surfaces: Vec::new(),
            map_obj_flags: Vec::new(),
        }
    }

    /// Position of the slot with exactly this resource name.
    pub fn find_map_obj_resource(&self, name: &str) -> (r: Option<usize>)
        ensures
            match r {
                Some(i) => slot_position(self.map_obj_resources@, name@) == Some(i as int) && i
                    < self.map_obj_resources@.len(),
                None => slot_position(self.map_obj_resources@, name@) is None,
            },
    {
        let mut i: usize = 0;
        while i < self.map_obj_resources.len()
            invariant
                i <= self.map_obj_resources.len(),
                forall|j: int|
                    0 <= j < i ==> !has_resource_name(name@)(
                        #[trigger] self.map_obj_resources@[j],
                    ),
            decreases self.map_obj_resources.len() - i,
        {
            if text::same(self.map_obj_resources[i].resource_name.as_str(), name) {
                proof {
                    search::lemma_found(
                        self.map_obj_resources@,
                        has_resource_name(name@),
                        i as int,
                    );
                }
                return Some(i);
            }
            i += 1;
        }
        proof {
            search::lemma_not_found(self.map_obj_resources@, has_resource_name(name@));
        }
        None
    }
}

} // verus!
