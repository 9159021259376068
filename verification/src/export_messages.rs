//! What the editor reports about a stopped stage export.
use vstd::prelude::*;

use crate::cancellation;
use crate::ids;
use crate::model_export::{
    ExportError, ExportInstance, GroupLookup, MergeFailure, ModelAssetSnapshot, ModelExport,
    StockFault,
};
use crate::model_export;
use crate::model_instances;
use crate::model_instances::ModelInstanceExportMode;
use crate::registry;
use crate::registry::MapObjResourceDefinition;
use crate::search;
use crate::stock_path;
use crate::stock_path::StockPathError;
use crate::text;

verus! {

/// The group that the game schedules separate objects in.
pub const RUNTIME_MAP_GROUP_NAME: &'static str = "マップグループ";

/// A group of the scene that an export inserts into.
#[derive(Debug, Clone, Copy, PartialEq, Eq, Structural)]
pub enum GroupKind {
    RuntimeMap,
    Object,
    Sky,
}

/// The instance at a position that may lie outside the export.
pub open spec fn instance_at(x: ModelExport, k: int) -> Option<ExportInstance> {
    if 0 <= k < x.count() {
        Some(x.instances@[k])
    } else {
        None
    }
}

/// The asset of the instance at a position.
pub open spec fn asset_at(x: ModelExport, k: int) -> Option<ModelAssetSnapshot> {
    match instance_at(x, k) {
        Some(instance) => match x.asset_position(k) {
            Some(a) => Some(x.assets@[a]),
            None => None,
        },
        None => None,
    }
}

/// The stock slot of the instance at a position.
pub open spec fn slot_at(x: ModelExport, k: int) -> Option<MapObjResourceDefinition> {
    match instance_at(x, k) {
        Some(instance) => match x.slot_index(k) {
            Some(i) => Some(x.registry->0.map_obj_resources@[i]),
            None => None,
        },
        None => None,
    }
}

fn find_instance<'a>(x: &ModelExport<'a>, k: usize) -> (r: Option<&'a ExportInstance>)
    ensures
        match r {
            Some(instance) => instance_at(*x, k as int) == Some(*instance),
            None => instance_at(*x, k as int) is None,
        },
{
    if k < x.instances.len() {
        Some(&x.instances[k])
    } else {
        None
    }
}

fn find_asset_of<'a>(x: &ModelExport<'a>, k: usize) -> (r: Option<&'a ModelAssetSnapshot>)
    ensures
        match r {
            Some(asset) => asset_at(*x, k as int) == Some(*asset),
            None => asset_at(*x, k as int) is None,
        },
{
    match find_instance(x, k) {
        Some(instance) => match model_export::find_asset(x.assets, instance.placement.asset_id) {
            Some(a) => Some(&x.assets[a]),
            None => None,
        },
        None => None,
    }
}

fn find_slot<'a>(x: &ModelExport<'a>, k: usize) -> (r: Option<&'a MapObjResourceDefinition>)
    ensures
        match r {
            Some(slot) => slot_at(*x, k as int) == Some(*slot),
            None => slot_at(*x, k as int) is None,
        },
{
    if k < x.instances.len() {
        model_export::slot_of(x, k)
    } else {
        None
    }
}

/// Identifier of an instance.
pub open spec fn iid(x: ModelExport, k: int) -> Seq<char> {
    match instance_at(x, k) {
        Some(instance) => ids::hyphenated(instance.placement.instance_id),
        None => Seq::empty(),
    }
}

fn iid_text(x: &ModelExport, k: usize) -> (r: String)
    ensures
        r@ == iid(*x, k as int),
{
    match find_instance(x, k) {
        Some(instance) => ids::hyphenated_text(instance.placement.instance_id),
        None => String::new(),
    }
}

/// Identifier of the asset of an instance.
pub open spec fn aid(x: ModelExport, k: int) -> Seq<char> {
    match instance_at(x, k) {
        Some(instance) => ids::hyphenated(instance.placement.asset_id),
        None => Seq::empty(),
    }
}

fn aid_text(x: &ModelExport, k: usize) -> (r: String)
    ensures
        r@ == aid(*x, k as int),
{
    match find_instance(x, k) {
        Some(instance) => ids::hyphenated_text(instance.placement.asset_id),
        None => String::new(),
    }
}

/// The stock slot that an instance names.
pub open spec fn selected_name(x: ModelExport, k: int) -> Seq<char> {
    match instance_at(x, k) {
        Some(instance) => text::trimmed(instance.placement.stock_map_obj_resource@),
        None => Seq::empty(),
    }
}

fn selected_text(x: &ModelExport, k: usize) -> (r: String)
    ensures
        r@ == selected_name(*x, k as int),
{
    match find_instance(x, k) {
        Some(instance) => text::trim(instance.placement.stock_map_obj_resource.as_str()).to_owned(),
        None => String::new(),
    }
}

/// The texts of a list with a separator between them.
pub open spec fn joined(list: Seq<Seq<char>>, separator: Seq<char>) -> Seq<char>
    decreases list.len(),
{
    if list.len() == 0 {
        Seq::empty()
    } else if list.len() == 1 {
        list[0]
    } else {
        joined(list.drop_last(), separator) + separator + list.last()
    }
}

/// The texts of a list with a separator between them.
pub fn join(list: &[String], separator: &str) -> (r: String)
    ensures
        r@ == joined(text::views(list@), separator@),
{
    let mut r = String::new();
    let ghost views = text::views(list@);
    let mut i: usize = 0;
    while i < list.len()
        invariant
            i <= list.len(),
            views == text::views(list@),
            r@ == joined(views.take(i as int), separator@),
        decreases list.len() - i,
    {
        proof {
            assert(views.take(i + 1).drop_last() =~= views.take(i as int));
            assert(views.take(i + 1).last() == views[i as int]);
        }
        if i > 0 {
            r.append(separator);
        }
        r.append(list[i].as_str());
        proof {
            if i == 0 {
                assert(r@ =~= views[0]);
            }
        }
        i += 1;
    }
    proof {
        assert(views.take(i as int) =~= views);
    }
    r
}

/// The codes that an asset still has to acknowledge.
pub open spec fn codes(x: ModelExport, k: int) -> Seq<char> {
    match asset_at(x, k) {
        Some(asset) => joined(text::views(asset.unacknowledged@), ", "@),
        None => Seq::empty(),
    }
}

fn codes_text(x: &ModelExport, k: usize) -> (r: String)
    ensures
        r@ == codes(*x, k as int),
{
    match find_asset_of(x, k) {
        Some(asset) => join(asset.unacknowledged.as_slice(), ", "),
        None => String::new(),
    }
}

/// How an instance is exported; the default for a position outside the export.
pub open spec fn mode_at(x: ModelExport, k: int) -> ModelInstanceExportMode {
    match instance_at(x, k) {
        Some(instance) => instance.placement.export_mode,
        None => ModelInstanceExportMode::SeparateRuntimeObject,
    }
}

fn find_mode(x: &ModelExport, k: usize) -> (r: ModelInstanceExportMode)
    ensures
        r == mode_at(*x, k as int),
{
    match find_instance(x, k) {
        Some(instance) => instance.placement.export_mode,
        None => ModelInstanceExportMode::SeparateRuntimeObject,
    }
}

/// The loader of an instance.
pub open spec fn target(x: ModelExport, k: int) -> Seq<char> {
    match mode_at(x, k) {
        ModelInstanceExportMode::MapTerrain => "map terrain"@,
        ModelInstanceExportMode::Skybox => "TSky"@,
        _ => "SmJ3DAct"@,
    }
}

fn target_text(x: &ModelExport, k: usize) -> (r: &'static str)
    ensures
        r@ == target(*x, k as int),
{
    match find_mode(x, k) {
        ModelInstanceExportMode::MapTerrain => "map terrain",
        ModelInstanceExportMode::Skybox => "TSky",
        _ => "SmJ3DAct",
    }
}

/// Load flags of the loader of an instance.
pub open spec fn flags(x: ModelExport, k: int) -> u32 {
    match mode_at(x, k) {
        ModelInstanceExportMode::MapTerrain => x.flags.map,
        ModelInstanceExportMode::Skybox => x.flags.default_object,
        _ => model_instances::SMS_SM_J3D_ACT_MODEL_LOAD_FLAGS,
    }
}

fn flags_value(x: &ModelExport, k: usize) -> (r: u32)
    ensures
        r == flags(*x, k as int),
{
    match find_mode(x, k) {
        ModelInstanceExportMode::MapTerrain => x.flags.map,
        ModelInstanceExportMode::Skybox => x.flags.default_object,
        _ => model_instances::SMS_SM_J3D_ACT_MODEL_LOAD_FLAGS,
    }
}

/// The complaint about materials that were checked for another loader.
pub open spec fn unchecked_text() -> Seq<char> {
    "the materials were not checked for this loader"@
}

/// The first loader error of an instance, with its material.
pub open spec fn loader_detail(x: ModelExport, k: int) -> Seq<char> {
    match instance_at(x, k) {
        None => Seq::empty(),
        Some(instance) => {
            let diagnostics = instance.loader_diagnostics@;
            match model_instances::first_error(diagnostics) {
                None => unchecked_text(),
                Some(i) => "material "@ + text::decimal(diagnostics[i].material_index as nat)
                    + ": "@ + diagnostics[i].message@ + " ("@ + diagnostics[i].code@ + ")"@,
            }
        },
    }
}

fn loader_detail_text(x: &ModelExport, k: usize) -> (r: String)
    ensures
        r@ == loader_detail(*x, k as int),
{
    match find_instance(x, k) {
        None => String::new(),
        Some(instance) => {
            let diagnostics = instance.loader_diagnostics.as_slice();
            match model_instances::validate_instance_loader_compatibility(diagnostics) {
                None => "the materials were not checked for this loader".to_owned(),
                Some(i) => {
                    proof {
                        search::lemma_first_position(diagnostics@, model_instances::is_error());
                    }
                    let mut r = "material ".to_owned();
                    r.append(
                        text::decimal_text(diagnostics[i].material_index as u128).as_str(),
                    );
                    r.append(": ");
                    r.append(diagnostics[i].message.as_str());
                    r.append(" (");
                    r.append(diagnostics[i].code.as_str());
                    r.append(")");
                    r
                },
            }
        },
    }
}

/// The first loader error of an instance.
pub open spec fn stock_loader_detail(x: ModelExport, k: int) -> Seq<char> {
    match instance_at(x, k) {
        None => Seq::empty(),
        Some(instance) => {
            let diagnostics = instance.loader_diagnostics@;
            match model_instances::first_error(diagnostics) {
                None => unchecked_text(),
                Some(i) => diagnostics[i].message@ + " ("@ + diagnostics[i].code@ + ")"@,
            }
        },
    }
}

fn stock_loader_detail_text(x: &ModelExport, k: usize) -> (r: String)
    ensures
        r@ == stock_loader_detail(*x, k as int),
{
    match find_instance(x, k) {
        None => String::new(),
        Some(instance) => {
            let diagnostics = instance.loader_diagnostics.as_slice();
            match model_instances::validate_instance_loader_compatibility(diagnostics) {
                None => "the materials were not checked for this loader".to_owned(),
                Some(i) => {
                    proof {
                        search::lemma_first_position(diagnostics@, model_instances::is_error());
                    }
                    let mut r = diagnostics[i].message.clone();
                    r.append(" (");
                    r.append(diagnostics[i].code.as_str());
                    r.append(")");
                    r
                },
            }
        },
    }
}

/// How the report of a failed compilation begins.
pub open spec fn compile_lead(x: ModelExport, k: int) -> Seq<char> {
    match mode_at(x, k) {
        ModelInstanceExportMode::Skybox => "could not compile authored skybox BMD3 for asset "@,
        _ => "could not compile separate runtime BMD3 for asset "@,
    }
}

fn compile_lead_text(x: &ModelExport, k: usize) -> (r: &'static str)
    ensures
        r@ == compile_lead(*x, k as int),
{
    match find_mode(x, k) {
        ModelInstanceExportMode::Skybox => "could not compile authored skybox BMD3 for asset ",
        _ => "could not compile separate runtime BMD3 for asset ",
    }
}

/// How the report of a transform that is not finite begins.
pub open spec fn transform_lead(x: ModelExport, k: int) -> Seq<char> {
    match mode_at(x, k) {
        ModelInstanceExportMode::Skybox => "skybox instance "@,
        _ => "model instance "@,
    }
}

fn transform_lead_text(x: &ModelExport, k: usize) -> (r: &'static str)
    ensures
        r@ == transform_lead(*x, k as int),
{
    match find_mode(x, k) {
        ModelInstanceExportMode::Skybox => "skybox instance ",
        _ => "model instance ",
    }
}

/// Why the asset of an instance did not compile.
pub open spec fn compile_detail(x: ModelExport, k: int) -> Seq<char> {
    match asset_at(x, k) {
        Some(asset) => match asset.compiled {
            Err(error) => error@,
            Ok(_) => Seq::empty(),
        },
        None => Seq::empty(),
    }
}

fn compile_detail_text(x: &ModelExport, k: usize) -> (r: String)
    ensures
        r@ == compile_detail(*x, k as int),
{
    match find_asset_of(x, k) {
        Some(asset) => match &asset.compiled {
            Err(error) => error.clone(),
            Ok(_) => String::new(),
        },
        None => String::new(),
    }
}

/// Why the model of an instance is too large for an actor.
pub open spec fn budget_detail(x: ModelExport, k: int, target: Seq<char>) -> Seq<char> {
    match (instance_at(x, k), asset_at(x, k)) {
        (Some(instance), Some(asset)) => match asset.compiled {
            Ok(model) => if model_instances::within_budget(model.sections@) {
                Seq::empty()
            } else {
                model_instances::budget_text(
                    model_instances::model_size(model.sections@),
                    model_instances::tex1_size(model.sections@),
                    instance.placement,
                    target,
                )
            },
            Err(_) => Seq::empty(),
        },
        _ => Seq::empty(),
    }
}

fn budget_detail_text(x: &ModelExport, k: usize, target: &str) -> (r: String)
    ensures
        r@ == budget_detail(*x, k as int, target@),
{
    match (find_instance(x, k), find_asset_of(x, k)) {
        (Some(instance), Some(asset)) => match &asset.compiled {
            Ok(model) => match model_instances::validate_standalone_actor_model_budget(model) {
                Ok(()) => String::new(),
                Err(exceeded) => exceeded.message(&instance.placement, target),
            },
            Err(_) => String::new(),
        },
        _ => String::new(),
    }
}

/// Why a group lookup of the archive failed.
pub open spec fn lookup_detail(x: ModelExport, kind: GroupKind) -> Seq<char> {
    match x.archive {
        None => Seq::empty(),
        Some(archive) => {
            let lookup: GroupLookup = match kind {
                GroupKind::RuntimeMap => archive.runtime_map_group,
                GroupKind::Object => archive.object_group,
                GroupKind::Sky => archive.sky_group,
            };
            match lookup {
                Err(error) => error@,
                Ok(_) => Seq::empty(),
            }
        },
    }
}

fn lookup_detail_text(x: &ModelExport, kind: GroupKind) -> (r: String)
    ensures
        r@ == lookup_detail(*x, kind),
{
    match x.archive {
        None => String::new(),
        Some(archive) => {
            let lookup = match kind {
                GroupKind::RuntimeMap => &archive.runtime_map_group,
                GroupKind::Object => &archive.object_group,
                GroupKind::Sky => &archive.sky_group,
            };
            match lookup {
                Err(error) => error.clone(),
                Ok(_) => String::new(),
            }
        },
    }
}

/// Why a merge failed.
pub open spec fn failure_detail(failure: MergeFailure) -> Seq<char> {
    match failure {
        MergeFailure::Merge(error) => error@,
        MergeFailure::Compile(error) => error@,
    }
}

/// The complaint about a document that was baked of other instances.
pub open spec fn other_parts() -> Seq<char> {
    "the baked parts are not the placed instances"@
}

/// Why the map-terrain instances could not be baked.
pub open spec fn terrain_detail(x: ModelExport) -> Seq<char> {
    if !x.terrain_is_whole() {
        other_parts()
    } else {
        match x.terrain.outcome {
            Err(failure) => failure_detail(failure),
            Ok(_) => Seq::empty(),
        }
    }
}

fn terrain_detail_text(x: &ModelExport) -> (r: String)
    ensures
        r@ == terrain_detail(*x),
{
    if !model_export::terrain_is_baked(x) {
        return "the baked parts are not the placed instances".to_owned();
    }
    match &x.terrain.outcome {
        Err(MergeFailure::Merge(error)) => error.clone(),
        Err(MergeFailure::Compile(error)) => error.clone(),
        Ok(_) => String::new(),
    }
}

/// Why the placed collision could not be baked.
pub open spec fn collision_detail(x: ModelExport) -> Seq<char> {
    if !x.collision_is_whole() {
        other_parts()
    } else {
        match x.placed_collision.outcome {
            Err(failure) => failure_detail(failure),
            Ok(_) => Seq::empty(),
        }
    }
}

fn collision_detail_text(x: &ModelExport) -> (r: String)
    ensures
        r@ == collision_detail(*x),
{
    if !model_export::collision_is_baked(x) {
        return "the baked parts are not the placed instances".to_owned();
    }
    match &x.placed_collision.outcome {
        Err(MergeFailure::Merge(error)) => error.clone(),
        Err(MergeFailure::Compile(error)) => error.clone(),
        Ok(_) => String::new(),
    }
}

/// The manager that the slot of an instance needs.
pub open spec fn manager(x: ModelExport, k: int) -> Seq<char> {
    match slot_at(x, k) {
        Some(slot) => slot.required_manager_name@,
        None => Seq::empty(),
    }
}

fn manager_text(x: &ModelExport, k: usize) -> (r: String)
    ensures
        r@ == manager(*x, k as int),
{
    match find_slot(x, k) {
        Some(slot) => slot.required_manager_name.clone(),
        None => String::new(),
    }
}

/// The resource name of the slot of an instance.
pub open spec fn slot_name(x: ModelExport, k: int) -> Seq<char> {
    match slot_at(x, k) {
        Some(slot) => slot.resource_name@,
        None => Seq::empty(),
    }
}

fn slot_name_text(x: &ModelExport, k: usize) -> (r: String)
    ensures
        r@ == slot_name(*x, k as int),
{
    match find_slot(x, k) {
        Some(slot) => slot.resource_name.clone(),
        None => String::new(),
    }
}

/// The load flags of the slot of an instance.
pub open spec fn slot_flags(x: ModelExport, k: int) -> u32 {
    match slot_at(x, k) {
        Some(slot) => slot.load_flags,
        None => 0,
    }
}

fn slot_flags_value(x: &ModelExport, k: usize) -> (r: u32)
    ensures
        r == slot_flags(*x, k as int),
{
    match find_slot(x, k) {
        Some(slot) => slot.load_flags,
        None => 0,
    }
}

/// The primary model of the slot of an instance.
pub open spec fn primary(x: ModelExport, k: int) -> Seq<char> {
    match slot_at(x, k) {
        Some(slot) => match slot.primary_model {
            Some(name) => name@,
            None => Seq::empty(),
        },
        None => Seq::empty(),
    }
}

fn primary_text(x: &ModelExport, k: usize) -> (r: String)
    ensures
        r@ == primary(*x, k as int),
{
    match find_slot(x, k) {
        Some(slot) => match &slot.primary_model {
            Some(name) => name.clone(),
            None => String::new(),
        },
        None => String::new(),
    }
}

/// The archive path in a result; nothing for an error.
pub open spec fn path_or_empty(path: Result<Seq<char>, StockPathError>) -> Seq<char> {
    match path {
        Ok(path) => path,
        Err(_) => Seq::empty(),
    }
}

/// The archive path of the model of the slot of an instance.
pub open spec fn model_path(x: ModelExport, k: int) -> Seq<char> {
    path_or_empty(stock_path::stock_path(primary(x, k), ".bmd"@))
}

fn model_path_text(x: &ModelExport, k: usize) -> (r: String)
    ensures
        r@ == model_path(*x, k as int),
{
    match stock_path::stock_mapobj_path(primary_text(x, k).as_str(), ".bmd") {
        Ok(path) => path,
        Err(_) => String::new(),
    }
}

/// A collision resource of the slot of an instance.
pub open spec fn collision_name(x: ModelExport, k: int, c: int) -> Seq<char> {
    match slot_at(x, k) {
        Some(slot) => if 0 <= c < slot.collision_resources@.len() {
            slot.collision_resources@[c].resource_name@
        } else {
            Seq::empty()
        },
        None => Seq::empty(),
    }
}

fn collision_name_text(x: &ModelExport, k: usize, c: usize) -> (r: String)
    ensures
        r@ == collision_name(*x, k as int, c as int),
{
    match find_slot(x, k) {
        Some(slot) => if c < slot.collision_resources.len() {
            slot.collision_resources[c].resource_name.clone()
        } else {
            String::new()
        },
        None => String::new(),
    }
}

/// The archive path of a collision resource of the slot of an instance.
pub open spec fn collision_path(x: ModelExport, k: int, c: int) -> Seq<char> {
    path_or_empty(stock_path::stock_path(collision_name(x, k, c), ".col"@))
}

fn collision_path_text(x: &ModelExport, k: usize, c: usize) -> (r: String)
    ensures
        r@ == collision_path(*x, k as int, c as int),
{
    match stock_path::stock_mapobj_path(collision_name_text(x, k, c).as_str(), ".col") {
        Ok(path) => path,
        Err(_) => String::new(),
    }
}

/// How many vertices a collision resource allows.
pub open spec fn collision_limit(x: ModelExport, k: int, c: int) -> nat {
    match slot_at(x, k) {
        Some(slot) => if 0 <= c < slot.collision_resources@.len() {
            match slot.collision_resources@[c].max_vertices {
                Some(limit) => limit as nat,
                None => 0,
            }
        } else {
            0
        },
        None => 0,
    }
}

fn collision_limit_value(x: &ModelExport, k: usize, c: usize) -> (r: u16)
    ensures
        r == collision_limit(*x, k as int, c as int),
{
    match find_slot(x, k) {
        Some(slot) => if c < slot.collision_resources.len() {
            match slot.collision_resources[c].max_vertices {
                Some(limit) => limit,
                None => 0,
            }
        } else {
            0
        },
        None => 0,
    }
}

/// How many collision vertices the asset of an instance has.
pub open spec fn vertices(x: ModelExport, k: int) -> nat {
    match asset_at(x, k) {
        Some(asset) => model_export::collision_size(asset.collision),
        None => 0,
    }
}

fn vertices_value(x: &ModelExport, k: usize) -> (r: usize)
    ensures
        r == vertices(*x, k as int),
{
    match find_asset_of(x, k) {
        Some(asset) => model_export::collision_len(&asset.collision),
        None => 0,
    }
}

/// Why the collision of a stock placement did not compile.
pub open spec fn stock_collision_detail(x: ModelExport, k: int) -> Seq<char> {
    match instance_at(x, k) {
        Some(instance) => match instance.stock_collision.outcome {
            Err(error) => error@,
            Ok(_) => "it was compiled of another collision"@,
        },
        None => Seq::empty(),
    }
}

fn stock_collision_detail_text(x: &ModelExport, k: usize) -> (r: String)
    ensures
        r@ == stock_collision_detail(*x, k as int),
{
    match find_instance(x, k) {
        Some(instance) => match &instance.stock_collision.outcome {
            Err(error) => error.clone(),
            Ok(_) => "it was compiled of another collision".to_owned(),
        },
        None => String::new(),
    }
}

fn cancelled_text() -> (r: String)
    ensures
        r@ == cancellation::cancelled_report(),
{
    match cancellation::cancellation_of(true) {
        Err(report) => report,
        Ok(()) => String::new(),
    }
}


impl StockFault {
    /// What the editor reports of the fault of instance `k`.
    pub open spec fn text(self, x: ModelExport, k: usize) -> Seq<char> {
        match self {
            StockFault::NoSlotSelected => "model instance "@
                + iid(x, k as int)
                + " cannot export through Stock MapObjBase because no stock resource slot was selected"@,
            StockFault::UnknownSlot => "model instance "@
                + iid(x, k as int)
                + " selected unknown stock MapObjBase resource "@
                + text::debug_form(selected_name(x, k as int))
                + "; resource names are exact and case-sensitive"@,
            StockFault::NoManager => "stock MapObjBase resource "@
                + text::debug_form(selected_name(x, k as int))
                + " has no decomp-derived TMapObjData::unk8 manager dependency; a source-free export cannot guess which TLiveManager must own it"@,
            StockFault::ManagerMissing => "stock MapObjBase resource "@
                + text::debug_form(selected_name(x, k as int))
                + " requires the exact scene manager record "@
                + text::debug_form(manager(x, k as int))
                + " from TMapObjData::unk8, but map/scene.bin does not contain it"@,
            StockFault::HoldDependency => "stock MapObjBase resource "@
                + text::debug_form(selected_name(x, k as int))
                + " has compiled TMapObjData::mHold model/joint dependencies; replacing only its primary BMD/COL is not source-free safe"@,
            StockFault::MoveDependency => "stock MapObjBase resource "@
                + text::debug_form(selected_name(x, k as int))
                + " has compiled TMapObjData::mMove BCK/joint dependencies; replacing only its primary BMD/COL is not source-free safe"@,
            StockFault::DamageHeight => "stock MapObjBase resource "@
                + text::debug_form(selected_name(x, k as int))
                + " uses object flag 0x80 and requires an additional decomp-defined damage-height field; this generic placement path refuses to invent it"@,
            StockFault::CompiledMetadata => "stock MapObjBase resource "@
                + text::debug_form(selected_name(x, k as int))
                + " uses compiled animation/model metadata instead of the verified <resource_name>.bmd fallback and is not safe for source-free replacement"@,
            StockFault::NoPrimaryModel => "stock MapObjBase resource "@
                + text::debug_form(selected_name(x, k as int))
                + " does not instantiate a primary model"@,
            StockFault::ModelPath(error) => error.text(primary(x, k as int), ".bmd"@),
            StockFault::SlotTaken(j) => "stock MapObjBase resource "@
                + text::debug_form(slot_name(x, k as int))
                + " is assigned to both asset "@
                + aid(x, j as int)
                + " and asset "@
                + aid(x, k as int)
                + "; one compiled stock slot cannot resolve two different authored models"@,
            StockFault::ModelTaken(j) => "stock MapObjBase resources "@
                + text::debug_form(slot_name(x, j as int))
                + " and "@
                + text::debug_form(slot_name(x, k as int))
                + " share model "@
                + model_path(x, k as int)
                + ", but were assigned different assets "@
                + aid(x, j as int)
                + " and "@
                + aid(x, k as int)
                + "; replacing that global BMD would be ambiguous"@,
            StockFault::Loader => "asset "@
                + aid(x, k as int)
                + " cannot replace stock MapObjBase resource "@
                + text::debug_form(selected_name(x, k as int))
                + " with loader flags 0x"@
                + text::hex(slot_flags(x, k as int) as nat, 8)
                + ": "@
                + stock_loader_detail(x, k as int),
            StockFault::Compile => "could not compile stock MapObjBase BMD3 for asset "@
                + aid(x, k as int)
                + " in resource "@
                + text::debug_form(selected_name(x, k as int))
                + ": "@
                + compile_detail(x, k as int),
            StockFault::Budget => budget_detail(x, k as int, "MapObjBase"@),
            StockFault::Transform => "model instance "@
                + iid(x, k as int)
                + " contains a non-finite stock MapObjBase transform"@,
            StockFault::NoCollisionResource => "stock MapObjBase resource "@
                + text::debug_form(selected_name(x, k as int))
                + " has no decomp-verified collision resource, but collision is enabled for instance "@
                + iid(x, k as int),
            StockFault::NoCollision => "stock MapObjBase resource "@
                + text::debug_form(selected_name(x, k as int))
                + " requires enabled collision, but asset "@
                + aid(x, k as int)
                + " has no collision document"@,
            StockFault::CollisionCompile => "could not compile stock MapObjBase collision for "@
                + text::debug_form(selected_name(x, k as int))
                + ": "@
                + stock_collision_detail(x, k as int),
            StockFault::CollisionLimit(c) => "stock collision resource "@
                + text::debug_form(collision_name(x, k as int, c as int))
                + " permits at most "@
                + text::decimal(collision_limit(x, k as int, c as int))
                + " vertices, but asset "@
                + aid(x, k as int)
                + " has "@
                + text::decimal(vertices(x, k as int)),
            StockFault::CollisionPath(c, error) => error.text(collision_name(x, k as int, c as int), ".col"@),
            StockFault::CollisionTaken(c, j) => "stock collision resource "@
                + collision_path(x, k as int, c as int)
                + " is shared by incompatible authored placements in slots "@
                + text::debug_form(slot_name(x, j as int))
                + " and "@
                + text::debug_form(slot_name(x, k as int)),
        }
    }

    /// What the editor reports of the fault of instance `k`.
    pub fn message(&self, x: &ModelExport, k: usize) -> (r: String)
        ensures
            r@ == self.text(*x, k),
    {
        match *self {
            StockFault::NoSlotSelected => {
                let mut r = "model instance ".to_owned();
                r.append(iid_text(x, k).as_str());
                r.append(" cannot export through Stock MapObjBase because no stock resource slot was selected");
                r
            },
            StockFault::UnknownSlot => {
                let mut r = "model instance ".to_owned();
                r.append(iid_text(x, k).as_str());
                r.append(" selected unknown stock MapObjBase resource ");
                r.append(text::debug_text(selected_text(x, k).as_str()).as_str());
                r.append("; resource names are exact and case-sensitive");
                r
            },
            StockFault::NoManager => {
                let mut r = "stock MapObjBase resource ".to_owned();
                r.append(text::debug_text(selected_text(x, k).as_str()).as_str());
                r.append(" has no decomp-derived TMapObjData::unk8 manager dependency; a source-free export cannot guess which TLiveManager must own it");
                r
            },
            StockFault::ManagerMissing => {
                let mut r = "stock MapObjBase resource ".to_owned();
                r.append(text::debug_text(selected_text(x, k).as_str()).as_str());
                r.append(" requires the exact scene manager record ");
                r.append(text::debug_text(manager_text(x, k).as_str()).as_str());
                r.append(" from TMapObjData::unk8, but map/scene.bin does not contain it");
                r
            },
            StockFault::HoldDependency => {
                let mut r = "stock MapObjBase resource ".to_owned();
                r.append(text::debug_text(selected_text(x, k).as_str()).as_str());
                r.append(" has compiled TMapObjData::mHold model/joint dependencies; replacing only its primary BMD/COL is not source-free safe");
                r
            },
            StockFault::MoveDependency => {
                let mut r = "stock MapObjBase resource ".to_owned();
                r.append(text::debug_text(selected_text(x, k).as_str()).as_str());
                r.append(" has compiled TMapObjData::mMove BCK/joint dependencies; replacing only its primary BMD/COL is not source-free safe");
                r
            },
            StockFault::DamageHeight => {
                let mut r = "stock MapObjBase resource ".to_owned();
                r.append(text::debug_text(selected_text(x, k).as_str()).as_str());
                r.append(" uses object flag 0x80 and requires an additional decomp-defined damage-height field; this generic placement path refuses to invent it");
                r
            },
            StockFault::CompiledMetadata => {
                let mut r = "stock MapObjBase resource ".to_owned();
                r.append(text::debug_text(selected_text(x, k).as_str()).as_str());
                r.append(" uses compiled animation/model metadata instead of the verified <resource_name>.bmd fallback and is not safe for source-free replacement");
                r
            },
            StockFault::NoPrimaryModel => {
                let mut r = "stock MapObjBase resource ".to_owned();
                r.append(text::debug_text(selected_text(x, k).as_str()).as_str());
                r.append(" does not instantiate a primary model");
                r
            },
            StockFault::ModelPath(error) => {
                let mut r = String::new();
                r.append(error.message(primary_text(x, k).as_str(), ".bmd").as_str());
                r
            },
            StockFault::SlotTaken(j) => {
                let mut r = "stock MapObjBase resource ".to_owned();
                r.append(text::debug_text(slot_name_text(x, k).as_str()).as_str());
                r.append(" is assigned to both asset ");
                r.append(aid_text(x, j).as_str());
                r.append(" and asset ");
                r.append(aid_text(x, k).as_str());
                r.append("; one compiled stock slot cannot resolve two different authored models");
                r
            },
            StockFault::ModelTaken(j) => {
                let mut r = "stock MapObjBase resources ".to_owned();
                r.append(text::debug_text(slot_name_text(x, j).as_str()).as_str());
                r.append(" and ");
                r.append(text::debug_text(slot_name_text(x, k).as_str()).as_str());
                r.append(" share model ");
                r.append(model_path_text(x, k).as_str());
                r.append(", but were assigned different assets ");
                r.append(aid_text(x, j).as_str());
                r.append(" and ");
                r.append(aid_text(x, k).as_str());
                r.append("; replacing that global BMD would be ambiguous");
                r
            },
            StockFault::Loader => {
                let mut r = "asset ".to_owned();
                r.append(aid_text(x, k).as_str());
                r.append(" cannot replace stock MapObjBase resource ");
                r.append(text::debug_text(selected_text(x, k).as_str()).as_str());
                r.append(" with loader flags 0x");
                r.append(text::hex_text(slot_flags_value(x, k) as u64, 8).as_str());
                r.append(": ");
                r.append(stock_loader_detail_text(x, k).as_str());
                r
            },
            StockFault::Compile => {
                let mut r = "could not compile stock MapObjBase BMD3 for asset ".to_owned();
                r.append(aid_text(x, k).as_str());
                r.append(" in resource ");
                r.append(text::debug_text(selected_text(x, k).as_str()).as_str());
                r.append(": ");
                r.append(compile_detail_text(x, k).as_str());
                r
            },
            StockFault::Budget => {
                let mut r = String::new();
                r.append(budget_detail_text(x, k, "MapObjBase").as_str());
                r
            },
            StockFault::Transform => {
                let mut r = "model instance ".to_owned();
                r.append(iid_text(x, k).as_str());
                r.append(" contains a non-finite stock MapObjBase transform");
                r
            },
            StockFault::NoCollisionResource => {
                let mut r = "stock MapObjBase resource ".to_owned();
                r.append(text::debug_text(selected_text(x, k).as_str()).as_str());
                r.append(" has no decomp-verified collision resource, but collision is enabled for instance ");
                r.append(iid_text(x, k).as_str());
                r
            },
            StockFault::NoCollision => {
                let mut r = "stock MapObjBase resource ".to_owned();
                r.append(text::debug_text(selected_text(x, k).as_str()).as_str());
                r.append(" requires enabled collision, but asset ");
                r.append(aid_text(x, k).as_str());
                r.append(" has no collision document");
                r
            },
            StockFault::CollisionCompile => {
                let mut r = "could not compile stock MapObjBase collision for ".to_owned();
                r.append(text::debug_text(selected_text(x, k).as_str()).as_str());
                r.append(": ");
                r.append(stock_collision_detail_text(x, k).as_str());
                r
            },
            StockFault::CollisionLimit(c) => {
                let mut r = "stock collision resource ".to_owned();
                r.append(text::debug_text(collision_name_text(x, k, c).as_str()).as_str());
                r.append(" permits at most ");
                r.append(text::decimal_text(collision_limit_value(x, k, c) as u128).as_str());
                r.append(" vertices, but asset ");
                r.append(aid_text(x, k).as_str());
                r.append(" has ");
                r.append(text::decimal_text(vertices_value(x, k) as u128).as_str());
                r
            },
            StockFault::CollisionPath(c, error) => {
                let mut r = String::new();
                r.append(error.message(collision_name_text(x, k, c).as_str(), ".col").as_str());
                r
            },
            StockFault::CollisionTaken(c, j) => {
                let mut r = "stock collision resource ".to_owned();
                r.append(collision_path_text(x, k, c).as_str());
                r.append(" is shared by incompatible authored placements in slots ");
                r.append(text::debug_text(slot_name_text(x, j).as_str()).as_str());
                r.append(" and ");
                r.append(text::debug_text(slot_name_text(x, k).as_str()).as_str());
                r
            },
        }
    }
}

impl ExportError {
    /// What the editor reports. `outside` is the text of an error that the application met.
    pub open spec fn text(self, x: ModelExport, outside: Seq<char>) -> Seq<char> {
        match self {
            ExportError::Stock(k, fault) => fault.text(x, k),
            ExportError::Cancelled => cancellation::cancelled_report(),
            ExportError::MissingAsset(k) => "model snapshot is missing instance "@
                + iid(x, k as int)
                + " asset "@
                + aid(x, k as int)
                + "; take a new Content snapshot before starting the build"@,
            ExportError::Unacknowledged(k) => "model instance "@
                + iid(x, k as int)
                + " uses asset "@
                + aid(x, k as int)
                + " with unacknowledged import diagnostics ("@
                + codes(x, k as int)
                + "); review and save the asset before export"@,
            ExportError::Loader(k) => "model instance "@
                + iid(x, k as int)
                + " (asset "@
                + aid(x, k as int)
                + ") cannot use "@
                + target(x, k as int)
                + " loader flags 0x"@
                + text::hex(flags(x, k as int) as nat, 8)
                + ": "@
                + loader_detail(x, k as int),
            ExportError::Compile(k) => compile_lead(x, k as int)
                + aid(x, k as int)
                + ": "@
                + compile_detail(x, k as int),
            ExportError::Budget(k) => budget_detail(x, k as int, "SmJ3DAct"@),
            ExportError::Transform(k) => transform_lead(x, k as int)
                + iid(x, k as int)
                + " contains a non-finite runtime transform"@,
            ExportError::SeparateNeedsArchive => "separate runtime-object export requires the open source-free stage archive so map/scene.bin and map/tables.bin can be edited semantically"@,
            ExportError::RuntimeGroupLookup => "could not locate Sunshine's scheduled runtime map group in map/scene.bin: "@
                + lookup_detail(x, GroupKind::RuntimeMap),
            ExportError::RuntimeGroupMissing => "map/scene.bin has no IdxGroup group named "@
                + text::debug_form(RUNTIME_MAP_GROUP_NAME@)
                + " in the unique Strategy group_index 0 slot; authored SmJ3DAct actors would never be scheduled for calc, entry, and viewCalc"@,
            ExportError::TablesNotPlacement => "stage resource map/tables.bin is missing or is not a typed JDrama document"@,
            ExportError::TablesWithoutGroup => "stage resource map/tables.bin has no NameRefGrp group for authored model insertion"@,
            ExportError::StockNeedsArchive => "stock MapObjBase export requires the open source-free stage archive so map/scene.bin can be edited semantically"@,
            ExportError::StockNeedsRegistry => "stock MapObjBase export requires the decomp-derived object registry; arbitrary resource keys are not safe"@,
            ExportError::ObjectGroupLookup => "could not locate the stock MapObjBase object group: "@
                + lookup_detail(x, GroupKind::Object),
            ExportError::ObjectGroupMissing => "map/scene.bin has no unambiguous IdxGroup with group_index 3 for stock MapObjBase insertion"@,
            ExportError::SceneNotPlacement => "stage resource map/scene.bin is missing or is not a typed JDrama document"@,
            ExportError::TerrainMerge => "could not bake map-terrain instances: "@
                + terrain_detail(x),
            ExportError::TerrainCompile => "could not compile replacement map BMD3: "@
                + terrain_detail(x),
            ExportError::TooManySkyboxes(n) => "stage export has "@
                + text::decimal(n as nat)
                + " authored skybox instances; Sunshine's TSky resolves one stage-global map/map/sky.bmd resource"@,
            ExportError::SkyNeedsArchive => "skybox export requires the open source-free stage archive so the typed Sky actor can be verified"@,
            ExportError::SkyGroupLookup => "could not locate the typed sky group: "@
                + lookup_detail(x, GroupKind::Sky),
            ExportError::SkyGroupMissing => "map/scene.bin has no unambiguous IdxGroup with group_index 1 for TSky insertion"@,
            ExportError::SkyRecord => "could not author typed TSky record: "@
                + outside,
            ExportError::CollisionMerge => "could not merge placed model collision: "@
                + collision_detail(x),
            ExportError::CollisionCompile => "could not compile placed world COL: "@
                + collision_detail(x),
            ExportError::SkyTable => "could not derive shared sky.bmt: "@
                + outside,
        }
    }

    /// What the editor reports. `outside` is the text of an error that the application met.
    pub fn message(&self, x: &ModelExport, outside: &str) -> (r: String)
        ensures
            r@ == self.text(*x, outside@),
    {
        match *self {
            ExportError::Stock(k, fault) => fault.message(x, k),
            ExportError::Cancelled => {
                let mut r = String::new();
                r.append(cancelled_text().as_str());
                r
            },
            ExportError::MissingAsset(k) => {
                let mut r = "model snapshot is missing instance ".to_owned();
                r.append(iid_text(x, k).as_str());
                r.append(" asset ");
                r.append(aid_text(x, k).as_str());
                r.append("; take a new Content snapshot before starting the build");
                r
            },
            ExportError::Unacknowledged(k) => {
                let mut r = "model instance ".to_owned();
                r.append(iid_text(x, k).as_str());
                r.append(" uses asset ");
                r.append(aid_text(x, k).as_str());
                r.append(" with unacknowledged import diagnostics (");
                r.append(codes_text(x, k).as_str());
                r.append("); review and save the asset before export");
                r
            },
            ExportError::Loader(k) => {
                let mut r = "model instance ".to_owned();
                r.append(iid_text(x, k).as_str());
                r.append(" (asset ");
                r.append(aid_text(x, k).as_str());
                r.append(") cannot use ");
                r.append(target_text(x, k));
                r.append(" loader flags 0x");
                r.append(text::hex_text(flags_value(x, k) as u64, 8).as_str());
                r.append(": ");
                r.append(loader_detail_text(x, k).as_str());
                r
            },
            ExportError::Compile(k) => {
                let mut r = String::new();
                r.append(compile_lead_text(x, k));
                r.append(aid_text(x, k).as_str());
                r.append(": ");
                r.append(compile_detail_text(x, k).as_str());
                r
            },
            ExportError::Budget(k) => {
                let mut r = String::new();
                r.append(budget_detail_text(x, k, "SmJ3DAct").as_str());
                r
            },
            ExportError::Transform(k) => {
                let mut r = String::new();
                r.append(transform_lead_text(x, k));
                r.append(iid_text(x, k).as_str());
                r.append(" contains a non-finite runtime transform");
                r
            },
            ExportError::SeparateNeedsArchive => {
                let mut r = "separate runtime-object export requires the open source-free stage archive so map/scene.bin and map/tables.bin can be edited semantically".to_owned();
                r
            },
            ExportError::RuntimeGroupLookup => {
                let mut r = "could not locate Sunshine's scheduled runtime map group in map/scene.bin: ".to_owned();
                r.append(lookup_detail_text(x, GroupKind::RuntimeMap).as_str());
                r
            },
            ExportError::RuntimeGroupMissing => {
                let mut r = "map/scene.bin has no IdxGroup group named ".to_owned();
                r.append(text::debug_text(RUNTIME_MAP_GROUP_NAME).as_str());
                r.append(" in the unique Strategy group_index 0 slot; authored SmJ3DAct actors would never be scheduled for calc, entry, and viewCalc");
                r
            },
            ExportError::TablesNotPlacement => {
                let mut r = "stage resource map/tables.bin is missing or is not a typed JDrama document".to_owned();
                r
            },
            ExportError::TablesWithoutGroup => {
                let mut r = "stage resource map/tables.bin has no NameRefGrp group for authored model insertion".to_owned();
                r
            },
            ExportError::StockNeedsArchive => {
                let mut r = "stock MapObjBase export requires the open source-free stage archive so map/scene.bin can be edited semantically".to_owned();
                r
            },
            ExportError::StockNeedsRegistry => {
                let mut r = "stock MapObjBase export requires the decomp-derived object registry; arbitrary resource keys are not safe".to_owned();
                r
            },
            ExportError::ObjectGroupLookup => {
                let mut r = "could not locate the stock MapObjBase object group: ".to_owned();
                r.append(lookup_detail_text(x, GroupKind::Object).as_str());
                r
            },
            ExportError::ObjectGroupMissing => {
                let mut r = "map/scene.bin has no unambiguous IdxGroup with group_index 3 for stock MapObjBase insertion".to_owned();
                r
            },
            ExportError::SceneNotPlacement => {
                let mut r = "stage resource map/scene.bin is missing or is not a typed JDrama document".to_owned();
                r
            },
            ExportError::TerrainMerge => {
                let mut r = "could not bake map-terrain instances: ".to_owned();
                r.append(terrain_detail_text(x).as_str());
                r
            },
            ExportError::TerrainCompile => {
                let mut r = "could not compile replacement map BMD3: ".to_owned();
                r.append(terrain_detail_text(x).as_str());
                r
            },
            ExportError::TooManySkyboxes(n) => {
                let mut r = "stage export has ".to_owned();
                r.append(text::decimal_text(n as u128).as_str());
                r.append(" authored skybox instances; Sunshine's TSky resolves one stage-global map/map/sky.bmd resource");
                r
            },
            ExportError::SkyNeedsArchive => {
                let mut r = "skybox export requires the open source-free stage archive so the typed Sky actor can be verified".to_owned();
                r
            },
            ExportError::SkyGroupLookup => {
                let mut r = "could not locate the typed sky group: ".to_owned();
                r.append(lookup_detail_text(x, GroupKind::Sky).as_str());
                r
            },
            ExportError::SkyGroupMissing => {
                let mut r = "map/scene.bin has no unambiguous IdxGroup with group_index 1 for TSky insertion".to_owned();
                r
            },
            ExportError::SkyRecord => {
                let mut r = "could not author typed TSky record: ".to_owned();
                r.append(outside);
                r
            },
            ExportError::CollisionMerge => {
                let mut r = "could not merge placed model collision: ".to_owned();
                r.append(collision_detail_text(x).as_str());
                r
            },
            ExportError::CollisionCompile => {
                let mut r = "could not compile placed world COL: ".to_owned();
                r.append(collision_detail_text(x).as_str());
                r
            },
            ExportError::SkyTable => {
                let mut r = "could not derive shared sky.bmt: ".to_owned();
                r.append(outside);
                r
            },
        }
    }
}

} // verus!
