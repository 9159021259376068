//! Placed model instances, the loaders that will read them, and the limits they must keep.
use vstd::prelude::*;

use crate::ids;
use crate::jdrama::{JDramaTransform, VectorBits};
use crate::registry;
use crate::registry::ObjectRegistry;
use crate::search;
use crate::stage_edits::DocumentId;
use crate::text;

verus! {

/// How a placed model reaches the game.
#[derive(Debug, Clone, Copy, PartialEq, Eq, Structural)]
pub enum ModelInstanceExportMode {
    SeparateRuntimeObject,
    MapTerrain,
    StockMapObjBase,
    Skybox,
}

/// The surface of a collision group.
#[derive(Debug, Clone, Copy, PartialEq, Eq, Structural)]
pub struct CollisionSurface {
    pub surface_type: u16,
    pub attribute_0: u8,
    pub attribute_1: u8,
    pub data: Option<i16>,
}

/// One placed model.
#[derive(Debug, Clone)]
pub struct ModelInstancePlacement {
    pub instance_id: u128,
    pub asset_id: u128,
    pub name: String,
    pub export_mode: ModelInstanceExportMode,
    pub stock_map_obj_resource: String,
    pub collision_enabled: bool,
    pub collision_surface_override: Option<CollisionSurface>,
    pub transform: JDramaTransform,
}

/// A placed model in the editor: its stage, its placement and the bounds of its asset.
#[derive(Debug, Clone)]
pub struct EditorModelInstance {
    pub stage_id: String,
    pub placement: ModelInstancePlacement,
    pub bounds_min: VectorBits,
    pub bounds_max: VectorBits,
}

/// The bit pattern of a 32-bit float that is no number.
pub open spec fn nan_bits(bits: u32) -> bool {
    bits & 0x7fff_ffff > 0x7f80_0000
}

/// Two 32-bit floats compare as equal: the two zeros do, and no NaN equals anything.
pub open spec fn floats_equal(a: u32, b: u32) -> bool {
    !nan_bits(a) && !nan_bits(b) && (a == b || (a & 0x7fff_ffff == 0 && b & 0x7fff_ffff == 0))
}

/// Two vectors compare as equal.
pub open spec fn vectors_equal(a: VectorBits, b: VectorBits) -> bool {
    floats_equal(a.x, b.x) && floats_equal(a.y, b.y) && floats_equal(a.z, b.z)
}

fn equal_floats(a: u32, b: u32) -> (r: bool)
    ensures
        r == floats_equal(a, b),
{
    a & 0x7fff_ffff <= 0x7f80_0000 && b & 0x7fff_ffff <= 0x7f80_0000 && (a == b || (a
        & 0x7fff_ffff == 0 && b & 0x7fff_ffff == 0))
}

/// Whether two vectors compare as equal.
pub fn equal_vectors(a: VectorBits, b: VectorBits) -> (r: bool)
    ensures
        r == vectors_equal(a, b),
{
    equal_floats(a.x, b.x) && equal_floats(a.y, b.y) && equal_floats(a.z, b.z)
}

/// Two instances compare as equal.
pub open spec fn instances_equal(a: EditorModelInstance, b: EditorModelInstance) -> bool {
    &&& a.stage_id@ == b.stage_id@
    &&& a.placement.instance_id == b.placement.instance_id
    &&& a.placement.asset_id == b.placement.asset_id
    &&& a.placement.name@ == b.placement.name@
    &&& a.placement.export_mode == b.placement.export_mode
    &&& a.placement.stock_map_obj_resource@ == b.placement.stock_map_obj_resource@
    &&& a.placement.collision_enabled == b.placement.collision_enabled
    &&& a.placement.collision_surface_override == b.placement.collision_surface_override
    &&& vectors_equal(a.placement.transform.translation, b.placement.transform.translation)
    &&& vectors_equal(a.placement.transform.rotation, b.placement.transform.rotation)
    &&& vectors_equal(a.placement.transform.scale, b.placement.transform.scale)
    &&& vectors_equal(a.bounds_min, b.bounds_min)
    &&& vectors_equal(a.bounds_max, b.bounds_max)
}

/// Whether two instances compare as equal.
pub fn equal_instances(a: &EditorModelInstance, b: &EditorModelInstance) -> (r: bool)
    ensures
        r == instances_equal(*a, *b),
{
    text::same(a.stage_id.as_str(), b.stage_id.as_str()) && a.placement.instance_id
        == b.placement.instance_id && a.placement.asset_id == b.placement.asset_id && text::same(
        a.placement.name.as_str(),
        b.placement.name.as_str(),
    ) && a.placement.export_mode == b.placement.export_mode && text::same(
        a.placement.stock_map_obj_resource.as_str(),
        b.placement.stock_map_obj_resource.as_str(),
    ) && a.placement.collision_enabled == b.placement.collision_enabled
        && a.placement.collision_surface_override == b.placement.collision_surface_override
        && equal_vectors(a.placement.transform.translation, b.placement.transform.translation)
        && equal_vectors(a.placement.transform.rotation, b.placement.transform.rotation)
        && equal_vectors(a.placement.transform.scale, b.placement.transform.scale)
        && equal_vectors(a.bounds_min, b.bounds_min) && equal_vectors(a.bounds_max, b.bounds_max)
}

impl ModelInstancePlacement {
    /// A fresh placement at a position, drawn by an actor of its own.
    pub fn new(instance_id: u128, asset_id: u128, name: &str, position: VectorBits) -> (r:
        ModelInstancePlacement)
        ensures
            r.instance_id == instance_id,
            r.asset_id == asset_id,
            r.name@ == name@,
            r.export_mode == ModelInstanceExportMode::SeparateRuntimeObject,
            r.stock_map_obj_resource@.len() == 0,
            r.collision_enabled,
            r.collision_surface_override is None,
            r.transform.translation == position,
            r.transform.rotation == (VectorBits { x: 0, y: 0, z: 0 }),
            r.transform.scale == (VectorBits {
                x: 0x3f80_0000,
                y: 0x3f80_0000,
                z: 0x3f80_0000,
            }),
    {
        ModelInstancePlacement {
            instance_id,
            asset_id,
            name: name.to_owned(),
            export_mode: ModelInstanceExportMode::SeparateRuntimeObject,
            stock_map_obj_resource: String::new(),
            collision_enabled: true,
            collision_surface_override: None,
            transform: JDramaTransform {
                translation: position,
                rotation: VectorBits { x: 0, y: 0, z: 0 },
                scale: VectorBits { x: 0x3f80_0000, y: 0x3f80_0000, z: 0x3f80_0000 },
            },
        }
    }
}

impl EditorModelInstance {
    /// A copy of the instance.
    pub fn duplicate(&self) -> (r: EditorModelInstance)
        ensures
            r == *self,
    {
        EditorModelInstance {
            stage_id: self.stage_id.clone(),
            placement: ModelInstancePlacement {
                instance_id: self.placement.instance_id,
                asset_id: self.placement.asset_id,
                name: self.placement.name.clone(),
                export_mode: self.placement.export_mode,
                stock_map_obj_resource: self.placement.stock_map_obj_resource.clone(),
                collision_enabled: self.placement.collision_enabled,
                collision_surface_override: self.placement.collision_surface_override,
                transform: self.placement.transform,
            },
            bounds_min: self.bounds_min,
            bounds_max: self.bounds_max,
        }
    }
}

/// Copies of a list of instances.
pub fn copy_instances(list: &[EditorModelInstance]) -> (r: Vec<EditorModelInstance>)
    ensures
        r@ == list@,
{
    let mut r: Vec<EditorModelInstance> = Vec::new();
    let mut i: usize = 0;
    while i < list.len()
        invariant
            i <= list.len(),
            r@ == list@.take(i as int),
        decreases list.len() - i,
    {
        r.push(list[i].duplicate());
        i += 1;
        proof {
            assert(r@ =~= list@.take(i as int));
        }
    }
    proof {
        assert(list@.take(i as int) =~= list@);
    }
    r
}

/// Which compiled preview an instance uses.
#[derive(Debug, Clone, Copy, PartialEq, Eq, Structural)]
pub struct AuthoredModelPreviewKey {
    pub asset_id: u128,
    pub loader_flags: u32,
}

/// Load flags of the `SmJ3DAct` actor.
pub const SMS_SM_J3D_ACT_MODEL_LOAD_FLAGS: u32 = 0x0024_0000;

/// Load flags of the loaders whose values depend on the game data.
#[derive(Debug, Clone, Copy, PartialEq, Eq, Structural)]
pub struct StageLoaderFlags {
    pub map: u32,
    pub default_object: u32,
}

/// Why no loader could be found for an instance.
#[derive(Debug, Clone, Copy, PartialEq, Eq, Structural)]
pub enum LoaderFlagsError {
    NoSlotSelected,
    RegistryUnavailable,
    UnknownSlot,
}

/// The load flags of the loader that will read a placement's model.
pub open spec fn loader_flags_of(
    placement: ModelInstancePlacement,
    registry: Option<ObjectRegistry>,
    flags: StageLoaderFlags,
) -> Result<u32, LoaderFlagsError> {
    match placement.export_mode {
        ModelInstanceExportMode::SeparateRuntimeObject => Ok(SMS_SM_J3D_ACT_MODEL_LOAD_FLAGS),
        ModelInstanceExportMode::MapTerrain => Ok(flags.map),
        ModelInstanceExportMode::Skybox => Ok(flags.default_object),
        ModelInstanceExportMode::StockMapObjBase => {
            let selected = text::trimmed(placement.stock_map_obj_resource@);
            if selected.len() == 0 {
                Err(LoaderFlagsError::NoSlotSelected)
            } else {
                match registry {
                    None => Err(LoaderFlagsError::RegistryUnavailable),
                    Some(registry) => match registry::slot_position(
                        registry.map_obj_resources@,
                        selected,
                    ) {
                        None => Err(LoaderFlagsError::UnknownSlot),
                        Some(i) => Ok(registry.map_obj_resources@[i].load_flags),
                    },
                }
            }
        },
    }
}

/// A reference to an optional registry, as a value.
pub open spec fn registry_value(registry: Option<&ObjectRegistry>) -> Option<ObjectRegistry> {
    match registry {
        Some(r) => Some(*r),
        None => None,
    }
}

/// The load flags of the loader that will read a placement's model.
pub fn model_instance_loader_flags(
    placement: &ModelInstancePlacement,
    registry: Option<&ObjectRegistry>,
    flags: StageLoaderFlags,
) -> (r: Result<u32, LoaderFlagsError>)
    ensures
        r == loader_flags_of(*placement, registry_value(registry), flags),
{
    match placement.export_mode {
        ModelInstanceExportMode::SeparateRuntimeObject => Ok(SMS_SM_J3D_ACT_MODEL_LOAD_FLAGS),
        ModelInstanceExportMode::MapTerrain => Ok(flags.map),
        ModelInstanceExportMode::Skybox => Ok(flags.default_object),
        ModelInstanceExportMode::StockMapObjBase => {
            let selected = text::trim(placement.stock_map_obj_resource.as_str());
            if selected.is_empty() {
                return Err(LoaderFlagsError::NoSlotSelected);
            }
            match registry {
                None => Err(LoaderFlagsError::RegistryUnavailable),
                Some(registry) => match registry.find_map_obj_resource(selected) {
                    None => Err(LoaderFlagsError::UnknownSlot),
                    Some(i) => Ok(registry.map_obj_resources[i].load_flags),
                },
            }
        },
    }
}

impl LoaderFlagsError {
    /// What the editor reports.
    pub open spec fn text(self, placement: ModelInstancePlacement) -> Seq<char> {
        let id = ids::hyphenated(placement.instance_id);
        match self {
            LoaderFlagsError::NoSlotSelected => "model instance "@ + id
                + " has no stock MapObjBase resource slot selected"@,
            LoaderFlagsError::RegistryUnavailable => "model instance "@ + id
                + " cannot resolve stock loader flags because the decomp-derived registry is unavailable"@,
            LoaderFlagsError::UnknownSlot => "model instance "@ + id
                + " selected unknown stock MapObjBase resource "@ + text::debug_form(
                text::trimmed(placement.stock_map_obj_resource@),
            ),
        }
    }

    /// What the editor reports.
    pub fn message(&self, placement: &ModelInstancePlacement) -> (r: String)
        ensures
            r@ == self.text(*placement),
    {
        let id = ids::hyphenated_text(placement.instance_id);
        let mut r = "model instance ".to_owned();
        r.append(id.as_str());
        match self {
            LoaderFlagsError::NoSlotSelected => {
                r.append(" has no stock MapObjBase resource slot selected");
            },
            LoaderFlagsError::RegistryUnavailable => {
                r.append(
                    " cannot resolve stock loader flags because the decomp-derived registry is unavailable",
                );
            },
            LoaderFlagsError::UnknownSlot => {
                r.append(" selected unknown stock MapObjBase resource ");
                r.append(
                    text::debug_text(text::trim(placement.stock_map_obj_resource.as_str())).as_str(),
                );
            },
        }
        r
    }
}

/// The compiled preview that an instance uses.
pub fn model_instance_preview_key(
    instance: &EditorModelInstance,
    registry: Option<&ObjectRegistry>,
    flags: StageLoaderFlags,
) -> (r: Result<AuthoredModelPreviewKey, LoaderFlagsError>)
    ensures
        match loader_flags_of(instance.placement, registry_value(registry), flags) {
            Ok(loader_flags) => r == Ok::<AuthoredModelPreviewKey, LoaderFlagsError>(
                AuthoredModelPreviewKey { asset_id: instance.placement.asset_id, loader_flags },
            ),
            Err(error) => r == Err::<AuthoredModelPreviewKey, LoaderFlagsError>(error),
        },
{
    match model_instance_loader_flags(&instance.placement, registry, flags) {
        Ok(loader_flags) => Ok(
            AuthoredModelPreviewKey { asset_id: instance.placement.asset_id, loader_flags },
        ),
        Err(error) => Err(error),
    }
}

/// An instance stands as map terrain in a stage.
pub open spec fn is_terrain_of(instance: EditorModelInstance, stage_id: Seq<char>) -> bool {
    text::same_ignoring_case(instance.stage_id@, stage_id) && instance.placement.export_mode
        == ModelInstanceExportMode::MapTerrain
}

/// Whether a newly placed model becomes the terrain of its stage: the first model with collision
/// in a stage authored from scratch.
pub fn should_default_to_map_terrain(
    authored_blank_stage: bool,
    asset_has_collision: bool,
    stage_id: &str,
    instances: &[EditorModelInstance],
) -> (r: bool)
    ensures
        r == (authored_blank_stage && asset_has_collision && !exists|i: int|
            0 <= i < instances@.len() && is_terrain_of(#[trigger] instances@[i], stage_id@)),
{
    if !authored_blank_stage || !asset_has_collision {
        return false;
    }
    let mut i: usize = 0;
    while i < instances.len()
        invariant
            i <= instances.len(),
            forall|j: int| 0 <= j < i ==> !is_terrain_of(#[trigger] instances@[j], stage_id@),
        decreases instances.len() - i,
    {
        if text::eq_ignoring_case(instances[i].stage_id.as_str(), stage_id)
            && instances[i].placement.export_mode == ModelInstanceExportMode::MapTerrain {
            assert(is_terrain_of(instances@[i as int], stage_id@));
            return false;
        }
        i += 1;
    }
    true
}

/// How serious a material diagnostic is.
#[derive(Debug, Clone, Copy, PartialEq, Eq, Structural)]
pub enum GxDiagnosticSeverity {
    Warning,
    Error,
}

/// What a loader makes of a material.
#[derive(Debug, Clone)]
pub struct GxMaterialDiagnostic {
    pub severity: GxDiagnosticSeverity,
    pub material_index: usize,
    pub message: String,
    pub code: String,
}

/// The diagnostic is an error.
pub open spec fn is_error() -> spec_fn(GxMaterialDiagnostic) -> bool {
    |diagnostic: GxMaterialDiagnostic| diagnostic.severity == GxDiagnosticSeverity::Error
}

/// Position of the first diagnostic that is an error.
pub open spec fn first_error(diagnostics: Seq<GxMaterialDiagnostic>) -> Option<int> {
    search::first_position(diagnostics, is_error())
}

/// Position of the first diagnostic that keeps a loader from reading the materials. A warning
/// keeps no loader from it.
pub fn validate_instance_loader_compatibility(diagnostics: &[GxMaterialDiagnostic]) -> (r: Option<
    usize,
>)
    ensures
        match r {
            Some(i) => first_error(diagnostics@) == Some(i as int),
            None => first_error(diagnostics@) is None,
        },
{
    let mut i: usize = 0;
    while i < diagnostics.len()
        invariant
            i <= diagnostics.len(),
            forall|j: int| 0 <= j < i ==> !is_error()(#[trigger] diagnostics@[j]),
        decreases diagnostics.len() - i,
    {
        if diagnostics[i].severity == GxDiagnosticSeverity::Error {
            proof {
                search::lemma_found(diagnostics@, is_error(), i as int);
            }
            return Some(i);
        }
        i += 1;
    }
    proof {
        search::lemma_not_found(diagnostics@, is_error());
    }
    None
}

/// One section of a compiled model.
#[derive(Debug, Clone, Copy, PartialEq, Eq, Structural)]
pub struct J3dSection {
    /// The four characters of the tag, the first in the most significant byte.
    pub tag: u32,
    pub declared_size: u32,
}

/// A compiled model.
#[derive(Debug)]
pub struct CompiledModel {
    pub document: DocumentId,
    pub sections: Vec<J3dSection>,
}

/// The tag `TEX1`.
pub const TEX1_TAG: u32 = 0x5445_5831;

/// Largest model that an actor may bring on its own.
pub const STANDALONE_ACTOR_BMD_SAFETY_BUDGET: u64 = 12582912;

/// Largest texture section that an actor may bring on its own.
pub const STANDALONE_ACTOR_TEX1_SAFETY_BUDGET: u64 = 8388608;

/// Sum of the declared section sizes.
pub open spec fn sections_size(sections: Seq<J3dSection>) -> nat
    decreases sections.len(),
{
    if sections.len() == 0 {
        0
    } else {
        sections_size(sections.drop_last()) + sections.last().declared_size as nat
    }
}

/// Size of a compiled model: its header and its sections.
pub open spec fn model_size(sections: Seq<J3dSection>) -> nat {
    0x20 + sections_size(sections)
}

/// Size of the first texture section, 0 without one.
pub open spec fn tex1_size(sections: Seq<J3dSection>) -> u32
    decreases sections.len(),
{
    if sections.len() == 0 {
        0
    } else if sections[0].tag == TEX1_TAG {
        sections[0].declared_size
    } else {
        tex1_size(sections.drop_first())
    }
}

/// The model keeps both safety budgets of a standalone actor.
pub open spec fn within_budget(sections: Seq<J3dSection>) -> bool {
    model_size(sections) <= STANDALONE_ACTOR_BMD_SAFETY_BUDGET && tex1_size(sections)
        <= STANDALONE_ACTOR_TEX1_SAFETY_BUDGET
}

/// The sizes of a model that exceeds a safety budget.
#[derive(Debug, Clone, Copy, PartialEq, Eq, Structural)]
pub struct BudgetExceeded {
    pub total_size: u128,
    pub tex1_size: u32,
}

proof fn lemma_sections_size_bound(sections: Seq<J3dSection>)
    ensures
        sections_size(sections) <= sections.len() * 0xffff_ffff,
    decreases sections.len(),
{
    if sections.len() > 0 {
        lemma_sections_size_bound(sections.drop_last());
        assert(sections.len() * 0xffff_ffff == (sections.len() - 1) * 0xffff_ffff + 0xffff_ffff)
            by (nonlinear_arith);
    }
}

fn measured_size(sections: &[J3dSection]) -> (r: u128)
    ensures
        r == model_size(sections@),
{
    let mut total: u128 = 0x20;
    let mut i: usize = 0;
    while i < sections.len()
        invariant
            i <= sections.len(),
            total == 0x20 + sections_size(sections@.take(i as int)),
        decreases sections.len() - i,
    {
        proof {
            assert(sections@.take(i + 1).drop_last() =~= sections@.take(i as int));
            lemma_sections_size_bound(sections@.take(i as int));
            assert(i * 0xffff_ffff <= 0xffff_ffff_ffff_ffff * 0xffff_ffff) by (nonlinear_arith)
                requires
                    i <= 0xffff_ffff_ffff_ffff,
            ;
        }
        total = total + sections[i].declared_size as u128;
        i += 1;
    }
    proof {
        assert(sections@.take(i as int) =~= sections@);
    }
    total
}

fn measured_tex1(sections: &[J3dSection]) -> (r: u32)
    ensures
        r == tex1_size(sections@),
{
    let mut i: usize = 0;
    proof {
        assert(sections@.skip(0) =~= sections@);
    }
    while i < sections.len()
        invariant
            i <= sections.len(),
            tex1_size(sections@) == tex1_size(sections@.skip(i as int)),
        decreases sections.len() - i,
    {
        proof {
            assert(sections@.skip(i as int)[0] == sections@[i as int]);
            assert(sections@.skip(i as int).drop_first() =~= sections@.skip(i + 1));
        }
        if sections[i].tag == TEX1_TAG {
            return sections[i].declared_size;
        }
        i += 1;
    }
    0
}

/// Checks the safety budgets of a model that an actor brings on its own.
pub fn validate_standalone_actor_model_budget(model: &CompiledModel) -> (r: Result<
    (),
    BudgetExceeded,
>)
    ensures
        r is Ok <==> within_budget(model.sections@),
        r matches Err(e) ==> e.total_size == model_size(model.sections@) && e.tex1_size
            == tex1_size(model.sections@),
{
    let total_size = measured_size(model.sections.as_slice());
    let tex1_size = measured_tex1(model.sections.as_slice());
    if total_size <= STANDALONE_ACTOR_BMD_SAFETY_BUDGET as u128 && tex1_size as u64
        <= STANDALONE_ACTOR_TEX1_SAFETY_BUDGET {
        Ok(())
    } else {
        Err(BudgetExceeded { total_size, tex1_size })
    }
}

/// What the editor reports of a model that exceeds a safety budget.
pub open spec fn budget_text(
    total_size: nat,
    tex1_size: u32,
    placement: ModelInstancePlacement,
    target: Seq<char>,
) -> Seq<char> {
    "model instance "@ + ids::hyphenated(placement.instance_id) + " (asset "@ + ids::hyphenated(
        placement.asset_id,
    ) + ") compiles to a "@ + text::decimal(total_size) + "-byte BMD3 with a "@ + text::decimal(
        tex1_size as nat,
    ) + "-byte TEX1, exceeding the Graffito-Editor standalone "@ + target
        + " safety budget (12582912 bytes total / 8388608 bytes TEX1) for Sunshine's 24 MiB MEM1. This is an editor safety budget, not a BMD format limit; prune unused textures, downsize them, or use map-terrain mode when the model is intentionally the stage terrain"@
}

impl BudgetExceeded {
    /// What the editor reports.
    pub fn message(&self, placement: &ModelInstancePlacement, target: &str) -> (r: String)
        ensures
            r@ == budget_text(self.total_size as nat, self.tex1_size, *placement, target@),
    {
        let mut r = "model instance ".to_owned();
        r.append(ids::hyphenated_text(placement.instance_id).as_str());
        r.append(" (asset ");
        r.append(ids::hyphenated_text(placement.asset_id).as_str());
        r.append(") compiles to a ");
        r.append(text::decimal_text(self.total_size).as_str());
        r.append("-byte BMD3 with a ");
        r.append(text::decimal_text(self.tex1_size as u128).as_str());
        r.append("-byte TEX1, exceeding the Graffito-Editor standalone ");
        r.append(target);
        r.append(
            " safety budget (12582912 bytes total / 8388608 bytes TEX1) for Sunshine's 24 MiB MEM1. This is an editor safety budget, not a BMD format limit; prune unused textures, downsize them, or use map-terrain mode when the model is intentionally the stage terrain",
        );
        r
    }
}

} // verus!
