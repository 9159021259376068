//! When an export goes through, and why it does not.
use vstd::prelude::*;

use crate::gx;
use crate::gx::{GxDefaults, GxTevInputs, GxView};
use crate::ids;
use crate::jdrama;
use crate::jdrama::JDramaRecord;
use crate::level_transform;
use crate::model_export;
use crate::model_export::{ExportError, ModelExport, SkyView, StockFault};
use crate::model_instances;
use crate::model_instances::ModelInstanceExportMode;
use crate::particle_sources;
use crate::preview_assets;
use crate::paths;
use crate::registry;
use crate::registry::{MapObjResourceDefinition, ObjectRegistry};
use crate::search;
use crate::stage::{SceneObject, StageAsset, StageAssetKind};
use crate::stage_edits::{EditsView, StageArchiveEdits};
use crate::stage_music;
use crate::stage_music::{ProjectStageMusic, StageMusicError};
use crate::stage_table;
use crate::stage_table::{ScenarioArchiveEntry, StageTargetError};
use crate::stock_path;
use crate::text;

verus! {

/// An instance is admitted where its asset is at hand and nothing of it is left to acknowledge.
pub proof fn law_acknowledged_assets_are_admitted(x: ModelExport, k: int, a: int)
    requires
        0 <= k < x.count(),
    ensures
        0 <= a < x.assets@.len() && x.assets@[a].asset_id == x.placement(k).asset_id && (forall|j: int|
            0 <= j < a ==> (#[trigger] x.assets@[j]).asset_id != x.placement(k).asset_id) ==> {
            &&& x.assets@[a].unacknowledged@.len() == 0 ==> x.admission()(k) is None
            &&& x.assets@[a].unacknowledged@.len() > 0 ==> x.admission()(k) == Some(
                ExportError::Unacknowledged(k as usize),
            )
        },
        (forall|j: int|
            0 <= j < x.assets@.len() ==> (#[trigger] x.assets@[j]).asset_id != x.placement(
                k,
            ).asset_id) ==> x.admission()(k) == Some(ExportError::MissingAsset(k as usize)),
{
    let of = model_export::has_asset_id(x.placement(k).asset_id);
    search::lemma_first_position(x.assets@, of);
    let found = x.asset_position(k);
    if found is Some {
        assert(of(x.assets@[found->0]));
        if 0 <= a < found->0 {
            assert(!of(x.assets@[a]));
        }
    } else if 0 <= a < x.assets@.len() {
        assert(!of(x.assets@[a]));
    }
}

/// The stock placements before this one leave it its slot, its model and its collision files.
pub open spec fn nothing_clashes(x: ModelExport, k: int) -> bool {
    forall|j: int|
        0 <= j < k && #[trigger] x.has_mode(j, ModelInstanceExportMode::StockMapObjBase) ==> {
            &&& x.placement(j).asset_id == x.placement(k).asset_id
            &&& x.slot(j).resource_name@ == x.slot(k).resource_name@
            &&& x.placement(j).collision_enabled == x.placement(k).collision_enabled
            &&& x.placement(j).collision_surface_override == x.placement(
                k,
            ).collision_surface_override
        }
}

/// A stock placement with a sound slot, a sound model and sound collision is exported, with
/// collision or without.
pub proof fn law_sound_stock_placements_go_through(
    x: ModelExport,
    names: Seq<Seq<char>>,
    k: int,
)
    requires
        0 <= k < x.count(),
        text::trimmed(x.placement(k).stock_map_obj_resource@).len() > 0,
        x.slot_index(k) is Some,
        x.slot(k).required_manager_name@.len() > 0,
        names.contains(x.slot(k).required_manager_name@),
        !x.slot(k).has_hold_dependency,
        !x.slot(k).has_move_dependency,
        x.slot(k).object_flags & 0x80 == 0,
        x.slot(k).uses_resource_name_model_fallback,
        x.slot(k).primary_model matches Some(model) && stock_path::stock_path(model@, ".bmd"@)
            is Ok,
        nothing_clashes(x, k),
        x.instances@[k].loader_flags == x.wanted_flags(k),
        model_instances::first_error(x.instances@[k].loader_diagnostics@) is None,
        x.asset(k).compiled matches Ok(model) && model_instances::within_budget(model.sections@),
        x.placement(k).transform.finite(),
        forall|c: int|
            0 <= c < x.slot(k).collision_resources@.len() ==> stock_path::stock_path(
                (#[trigger] x.slot(k).collision_resources@[c]).resource_name@,
                ".col"@,
            ) is Ok,
        x.placement(k).collision_enabled ==> x.slot(k).collision_resources@.len() > 0 && x.asset(
            k,
        ).collision is Some && x.stock_collision(k) is Ok && forall|c: int|
            0 <= c < x.slot(k).collision_resources@.len() ==> ((
            #[trigger] x.slot(k).collision_resources@[c]).max_vertices matches Some(limit) ==> x.asset(
                k,
            ).collision->0.vertices@.len() <= limit),
    ensures
        x.stock_fault(names, k) is None,
{
    search::lemma_first_index(k as nat, x.fills_slot_of(k));
    search::law_last_index_is_last(k as nat, x.fills_model_of(k));
    if search::first_index(k as nat, x.fills_slot_of(k)) is Some {
        let j = search::first_index(k as nat, x.fills_slot_of(k))->0;
        assert(x.fills_slot_of(k)(j));
        assert(x.has_mode(j, ModelInstanceExportMode::StockMapObjBase));
    }
    if search::last_index(k as nat, x.fills_model_of(k)) is Some {
        let j = search::last_index(k as nat, x.fills_model_of(k))->0;
        assert(x.fills_model_of(k)(j));
        assert(x.has_mode(j, ModelInstanceExportMode::StockMapObjBase));
    }
    let n = x.slot(k).collision_resources@.len();
    assert forall|c: int| 0 <= c < n implies (#[trigger] x.collision_check(k)(c)) is None by {
        let resource = x.slot(k).collision_resources@[c];
        search::lemma_first_index(k as nat, x.fills_collision_of(k, c));
        if search::first_index(k as nat, x.fills_collision_of(k, c)) is Some {
            let j = search::first_index(k as nat, x.fills_collision_of(k, c))->0;
            assert(x.fills_collision_of(k, c)(j));
            assert(x.has_mode(j, ModelInstanceExportMode::StockMapObjBase));
        }
    }
    search::law_first_fault_is_first(n, x.collision_check(k));
}

/// Whatever a stock placement is refused for is so.
pub proof fn law_stock_refusals_have_their_cause(x: ModelExport, names: Seq<Seq<char>>, k: int)
    requires
        0 <= k < x.count() <= usize::MAX,
        x.slot(k).collision_resources@.len() <= usize::MAX,
    ensures
        ({
            let slot = x.slot(k);
            let placement = x.placement(k);
            match x.stock_fault(names, k) {
                None => true,
                Some(StockFault::NoSlotSelected) => text::trimmed(
                    placement.stock_map_obj_resource@,
                ).len() == 0,
                Some(StockFault::UnknownSlot) => x.slot_index(k) is None,
                Some(StockFault::NoManager) => slot.required_manager_name@.len() == 0,
                Some(StockFault::ManagerMissing) => !names.contains(slot.required_manager_name@),
                Some(StockFault::HoldDependency) => slot.has_hold_dependency,
                Some(StockFault::MoveDependency) => slot.has_move_dependency,
                Some(StockFault::DamageHeight) => slot.object_flags & 0x80 != 0,
                Some(StockFault::CompiledMetadata) => !slot.uses_resource_name_model_fallback,
                Some(StockFault::NoPrimaryModel) => slot.primary_model is None,
                Some(StockFault::ModelPath(error)) => slot.primary_model matches Some(model)
                    && stock_path::stock_path(model@, ".bmd"@) == Err::<
                    Seq<char>,
                    stock_path::StockPathError,
                >(error),
                Some(StockFault::SlotTaken(j)) => j < k && x.placement(j as int).asset_id
                    != placement.asset_id && x.slot(j as int).resource_name@ == slot.resource_name@
                    && x.placement(j as int).export_mode
                    == ModelInstanceExportMode::StockMapObjBase,
                Some(StockFault::ModelTaken(j)) => j < k && x.placement(j as int).asset_id
                    != placement.asset_id && x.stock_model_path(j as int) == x.stock_model_path(k)
                    && x.placement(j as int).export_mode
                    == ModelInstanceExportMode::StockMapObjBase,
                Some(StockFault::Loader) => x.instances@[k].loader_flags != x.wanted_flags(k)
                    || model_instances::first_error(x.instances@[k].loader_diagnostics@) is Some,
                Some(StockFault::Compile) => x.asset(k).compiled is Err,
                Some(StockFault::Budget) => x.asset(k).compiled matches Ok(model)
                    && !model_instances::within_budget(model.sections@),
                Some(StockFault::Transform) => !placement.transform.finite(),
                Some(StockFault::NoCollisionResource) => placement.collision_enabled
                    && slot.collision_resources@.len() == 0,
                Some(StockFault::NoCollision) => placement.collision_enabled && x.asset(k).collision
                    is None,
                Some(StockFault::CollisionCompile) => placement.collision_enabled
                    && x.stock_collision(k) is Err,
                Some(StockFault::CollisionLimit(c)) => c < slot.collision_resources@.len()
                    && placement.collision_enabled && (
                slot.collision_resources@[c as int].max_vertices matches Some(limit)
                    && model_export::collision_size(x.asset(k).collision) > limit),
                Some(StockFault::CollisionPath(c, error)) => c < slot.collision_resources@.len()
                    && stock_path::stock_path(
                    slot.collision_resources@[c as int].resource_name@,
                    ".col"@,
                ) == Err::<Seq<char>, stock_path::StockPathError>(error),
                Some(StockFault::CollisionTaken(c, j)) => c < slot.collision_resources@.len() && j
                    < k && x.placement(j as int).export_mode
                    == ModelInstanceExportMode::StockMapObjBase && x.shares_collision(
                    j as int,
                    k,
                    c as int,
                ),
            }
        }),
{
    search::lemma_first_index(k as nat, x.fills_slot_of(k));
    search::law_last_index_is_last(k as nat, x.fills_model_of(k));
    if search::first_index(k as nat, x.fills_slot_of(k)) is Some {
        assert(x.fills_slot_of(k)(search::first_index(k as nat, x.fills_slot_of(k))->0));
    }
    if search::last_index(k as nat, x.fills_model_of(k)) is Some {
        assert(x.fills_model_of(k)(search::last_index(k as nat, x.fills_model_of(k))->0));
    }
    let n = x.slot(k).collision_resources@.len();
    let check = x.collision_check(k);
    search::law_first_fault_is_first(n, check);
    if search::first_fault(n, check) is Some {
        let c = choose|c: int|
            0 <= c < n && #[trigger] check(c) == search::first_fault(n, check);
        search::lemma_first_index(k as nat, x.fills_collision_of(k, c));
        if search::first_index(k as nat, x.fills_collision_of(k, c)) is Some {
            let j = search::first_index(k as nat, x.fills_collision_of(k, c))->0;
            assert(x.fills_collision_of(k, c)(j));
        }
    }
}

/// The collision of a slot is compiled of the asset's own vertices, and of its surfaces or the one
/// that replaces them all.
pub proof fn law_slot_collision_is_the_assets_own(
    x: ModelExport,
    k: int,
    i: int,
)
    requires
        0 <= k < x.count(),
        x.stock_collision(k) is Ok,
        x.asset(k).collision is Some,
        0 <= i < x.asset(k).collision->0.surfaces@.len(),
    ensures
        ({
            let source = x.instances@[k].stock_collision.source;
            let own = x.asset(k).collision->0;
            &&& source.vertices@ == own.vertices@
            &&& source.surfaces@.len() == own.surfaces@.len()
            &&& x.placement(k).collision_surface_override is None ==> source.surfaces@[i]
                == own.surfaces@[i]
            &&& x.placement(k).collision_surface_override matches Some(surface)
                ==> source.surfaces@[i] == surface
        }),
{
}

/// A stage without a skybox keeps its sky; with one that is sound, and a sky that the scene
/// places, the export goes through.
pub proof fn law_a_sound_skybox_goes_through(
    x: ModelExport,
    edits: EditsView,
    record: SkyView,
    k: int,
)
    ensures
        (forall|j: int|
            0 <= j < x.count() ==> (#[trigger] x.placement(j)).export_mode
                != ModelInstanceExportMode::Skybox) ==> x.sky_edits(edits, record) == Ok::<
            EditsView,
            ExportError,
        >(edits),
        0 <= k < x.count() && x.placement(k).export_mode == ModelInstanceExportMode::Skybox && (
        forall|j: int|
            0 <= j < x.count() && j != k ==> (#[trigger] x.placement(j)).export_mode
                != ModelInstanceExportMode::Skybox) && x.instances@[k].loader_flags
            == x.flags.default_object && model_instances::first_error(
            x.instances@[k].loader_diagnostics@,
        ) is None && x.asset(k).compiled is Ok && (x.archive matches Some(archive)
            && model_export::places_sky(*archive)) ==> x.sky_edits(edits, record) is Ok,
{
    search::lemma_first_index(x.count(), x.is_skybox());
    let found = search::first_index(x.count(), x.is_skybox());
    if found is Some {
        assert(x.is_skybox()(found->0));
        assert(x.placement(found->0).export_mode == ModelInstanceExportMode::Skybox);
    } else if 0 <= k < x.count() {
        assert(!x.is_skybox()(k));
    }
    lemma_skyboxes(x, x.count(), k);
}

proof fn lemma_skyboxes(x: ModelExport, n: nat, k: int)
    ensures
        (forall|j: int|
            0 <= j < n && j != k ==> (#[trigger] x.placement(j)).export_mode
                != ModelInstanceExportMode::Skybox) ==> x.skybox_count(n) <= (if 0 <= k < n {
            1nat
        } else {
            0nat
        }),
        (forall|j: int|
            0 <= j < n ==> (#[trigger] x.placement(j)).export_mode
                != ModelInstanceExportMode::Skybox) ==> x.skybox_count(n) == 0,
    decreases n,
{
    if n > 0 {
        lemma_skyboxes(x, (n - 1) as nat, k);
        let last = x.placement(n - 1).export_mode;
    }
}

/// The group of a type that is found is the first in the order of the tree: a group itself, else
/// that of its first child that has one; and none only where no child has one.
pub proof fn law_the_first_group_is_found(record: JDramaRecord, record_type: Seq<char>, i: int)
    requires
        record.payload is Group,
    ensures
        ({
            let children = jdrama::children_of(record);
            let found = jdrama::group_path(record, record_type);
            &&& record.record_type@ == record_type ==> found == Some(Seq::<usize>::empty())
            &&& record.record_type@ != record_type && 0 <= i < children.len() && (forall|j: int|
                0 <= j < i ==> jdrama::group_path(#[trigger] children[j], record_type) is None) && (
            jdrama::group_path(children[i], record_type) matches Some(path)) ==> found == Some(
                seq![i as usize] + jdrama::group_path(children[i], record_type)->0,
            )
            &&& record.record_type@ != record_type && (forall|j: int|
                0 <= j < children.len() ==> jdrama::group_path(
                    #[trigger] children[j],
                    record_type,
                ) is None) ==> found is None
        }),
{
    lemma_group_from(record, record_type, 0, i);
}

proof fn lemma_group_from(record: JDramaRecord, record_type: Seq<char>, from: nat, i: int)
    requires
        record.payload is Group,
    ensures
        ({
            let children = jdrama::children_of(record);
            let found = jdrama::group_path_from(record, record_type, from);
            &&& from <= i < children.len() && (forall|j: int|
                from <= j < i ==> jdrama::group_path(#[trigger] children[j], record_type) is None)
                && jdrama::group_path(children[i], record_type) is Some ==> found == Some(
                seq![i as usize] + jdrama::group_path(children[i], record_type)->0,
            )
            &&& (forall|j: int|
                from <= j < children.len() ==> jdrama::group_path(
                    #[trigger] children[j],
                    record_type,
                ) is None) ==> found is None
        }),
    decreases jdrama::children_of(record).len() - from,
{
    let children = jdrama::children_of(record);
    if from < children.len() {
        lemma_group_from(record, record_type, from + 1, i);
        let child = children[from as int];
    }
}

/// The names of a scene are those of its records, each before those of its children in order.
pub proof fn law_scene_names_are_those_of_all_records(record: JDramaRecord, n: nat)
    ensures
        jdrama::record_names(record).len() > 0,
        jdrama::record_names(record)[0] == record.name@,
        jdrama::record_names(record) == seq![record.name@] + jdrama::child_names(
            record,
            jdrama::children_of(record).len(),
        ),
        record.payload is Group && n < jdrama::children_of(record).len() ==> jdrama::child_names(
            record,
            n + 1,
        ) == jdrama::child_names(record, n) + jdrama::record_names(
            jdrama::children_of(record)[n as int],
        ),
        jdrama::child_names(record, 0).len() == 0,
{
}

/// A list of candidates loses only what repeats its neighbour: it keeps every name, its first and
/// its last.
pub proof fn law_candidates_lose_only_repeats(list: Seq<Seq<char>>, item: Seq<char>)
    ensures
        preview_assets::deduped(list).contains(item) <==> list.contains(item),
        list.len() > 0 ==> preview_assets::deduped(list).len() > 0 && preview_assets::deduped(
            list,
        )[0] == list[0] && preview_assets::deduped(list).last() == list.last(),
        forall|i: int|
            #![trigger preview_assets::deduped(list)[i]]
            0 <= i < preview_assets::deduped(list).len() - 1 ==> preview_assets::deduped(list)[i]
                != preview_assets::deduped(list)[i + 1],
    decreases list.len(),
{
    let all = preview_assets::deduped(list);
    if list.len() > 1 {
        let front = list.drop_last();
        law_candidates_lose_only_repeats(front, item);
        let rest = preview_assets::deduped(front);
        let last = list.last();
        assert(front.last() == list[list.len() - 2]);
        if list.contains(item) && !front.contains(item) {
            let i = choose|i: int| 0 <= i < list.len() && list[i] == item;
            if i < front.len() {
                assert(front[i] == item);
            }
        }
        if front.contains(item) {
            let i = choose|i: int| 0 <= i < front.len() && front[i] == item;
            assert(list[i] == item);
            let j = choose|j: int| 0 <= j < rest.len() && rest[j] == item;
            assert(all[j] == item);
        }
        assert(list[list.len() - 1] == last);
        if list[list.len() - 2] != last {
            assert(all == rest.push(last));
            assert(all[rest.len() as int] == last);
            if all.contains(item) && !rest.contains(item) {
                let j = choose|j: int| 0 <= j < all.len() && all[j] == item;
                if j < rest.len() {
                    assert(rest[j] == item);
                }
            }
            assert(rest.last() == rest[rest.len() - 1]);
        } else {
            assert(all == rest);
            assert(rest[rest.len() - 1] == last);
        }
    }
}

/// The program that an import writes: one stage that reads its texture, where there is one, times
/// the vertices' light.
pub open spec fn is_base(gx: GxView, textured: bool, defaults: GxDefaults) -> bool {
    &&& gx.tev_orders[0] matches Some(order)
    &&& order.color_channel == 4
    &&& textured ==> order.tex_coord == Some(0u8) && order.tex_map == Some(0u8)
    &&& !textured ==> order.tex_coord is None && order.tex_map is None
    &&& gx.tev_stages[0] matches Some(stage)
    &&& textured ==> stage.color_inputs == (GxTevInputs { a: 15, b: 8, c: 10, d: 15 })
        && stage.alpha_inputs == (GxTevInputs { a: 7, b: 4, c: 5, d: 7 })
    &&& !textured ==> stage.color_inputs == (GxTevInputs { a: 10, b: 15, c: 15, d: 15 })
        && stage.alpha_inputs == (GxTevInputs { a: 5, b: 7, c: 7, d: 7 })
    &&& stage.color_operation == defaults.tev_color_operation
    &&& stage.alpha_operation == defaults.tev_alpha_operation
    &&& gx.tev_swap_modes[0] == Some(gx::plain_swap())
}

/// A second stage that adds the specular light.
pub open spec fn is_specular(gx: GxView, defaults: GxDefaults) -> bool {
    &&& gx.tev_stage_count == 2
    &&& gx.tev_orders[1] matches Some(order)
    &&& order.color_channel == 5 && order.tex_coord is None && order.tex_map is None
    &&& gx.tev_stages[1] matches Some(stage)
    &&& stage.color_inputs == (GxTevInputs { a: 15, b: 10, c: 12, d: 0 })
    &&& stage.alpha_inputs == (GxTevInputs { a: 7, b: 7, c: 7, d: 0 })
    &&& stage.color_operation == defaults.tev_color_operation
    &&& stage.alpha_operation == defaults.tev_alpha_operation
    &&& gx.tev_swap_modes[1] == Some(gx::plain_swap())
}

/// A material can be lit where its program is the one that an import writes, with the second stage
/// unused or already specular.
pub proof fn law_only_imported_programs_can_be_lit(
    gx: GxView,
    textured: bool,
    defaults: GxDefaults,
)
    ensures
        gx::can_be_lit(gx, textured, defaults) <==> is_base(gx, textured, defaults) && (is_specular(
            gx,
            defaults,
        ) || (gx.tev_stage_count == 1 && gx.tev_orders[1] is None && gx.tev_stages[1] is None
            && gx.tev_swap_modes[1] is None && gx.material_colors[1] is None
            && gx.ambient_colors[1] is None)),
        gx::has_specular_stage(gx, textured, defaults) <==> is_base(gx, textured, defaults)
            && is_specular(gx, defaults),
{
}

/// A text that is no number is read as none, and neither is one that does not fit.
pub proof fn law_only_numbers_are_read(s: Seq<char>, i: int)
    requires
        0 <= i < s.len(),
        s[i] < '0' || s[i] > '9',
        i > 0 || (s[0] != '-' && s[0] != '+'),
    ensures
        text::i32_value(s) is None,
        text::usize_value(s) is None,
{
    if s[0] == '-' || s[0] == '+' {
        assert(s.drop_first()[i - 1] == s[i]);
    }
    if text::is_digits(s) {
        assert('0' <= s[i] <= '9');
    }
    if text::is_digits(s.drop_first()) && i > 0 {
        assert('0' <= s.drop_first()[i - 1] <= '9');
    }
}

/// An object has no other classes than that of its factory, its own, and those bound ones that it
/// is placed as.
pub proof fn law_objects_have_no_other_classes(
    registry: ObjectRegistry,
    object: SceneObject,
    name: Seq<char>,
)
    requires
        particle_sources::has_class(registry, object, name),
    ensures
        ({
            let by_factory = name != "Unknown"@ && exists|i: int|
                0 <= i < registry.objects@.len() && (#[trigger] registry.objects@[i]).factory_name@
                    == object.factory_name@ && registry.objects@[i].class_name@ == name;
            let own = object.class_name matches Some(class) && class@ == name && name.len() > 0
                && name[0] == 'T';
            let bound = exists|i: int|
                0 <= i < registry.actor_particle_bindings@.len() && (
                #[trigger] registry.actor_particle_bindings@[i]).class_name@ == name && (
                particle_sources::placement_name(name) == object.factory_name@ || (
                object.class_name matches Some(class) && class@ == particle_sources::placement_name(
                    name,
                )) || (object.class_name is None && particle_sources::placement_name(name) == ""@));
            by_factory || own || bound
        }),
{
    let defines = particle_sources::defines(object.factory_name@);
    search::lemma_first_position(registry.objects@, defines);
    let found = search::first_position(registry.objects@, defines);
    if found is Some {
        assert(defines(registry.objects@[found->0]));
    }
}

/// The scene of a stage is the placement file at its place in the archive.
pub proof fn law_scenes_are_placement_files(asset: StageAsset)
    ensures
        level_transform::is_scene_file(asset) ==> asset.kind == StageAssetKind::Placement,
        asset.kind == StageAssetKind::Placement && "!/map/scene.bin"@.is_suffix_of(
            text::lower(text::with_replaced(asset.path@, '\\', '/')),
        ) ==> level_transform::is_scene_file(asset),
{
}

/// The key of an asset's resources is its id behind a fixed prefix.
pub proof fn law_resources_are_keyed_by_their_asset(id: u128)
    ensures
        ids::resource_key(id) == "sms_"@ + text::hex(id as nat, 32),
        ids::character_name(id) == ids::resource_key(id) + "_character"@,
{
}

/// A stage can be booted and given music where its entry's area and scenario fit a byte each: 255
/// does, and more does not.
pub proof fn law_areas_and_scenarios_fit_a_byte(
    entries: Seq<ScenarioArchiveEntry>,
    source: Seq<paths::ComponentView>,
    stem: Seq<char>,
    i: int,
    music: Seq<ProjectStageMusic>,
    m: int,
)
    requires
        stage_table::source_stem(source) == Some(stem),
        0 <= i < entries.len() <= usize::MAX,
        stage_table::loads(stem)(entries[i]),
        forall|j: int| 0 <= j < i ==> !stage_table::loads(stem)(#[trigger] entries[j]),
        0 <= m < music.len() <= usize::MAX,
        music[m].stage_id@ == stem,
    ensures
        stage_table::target_fault(entries, source) is None <==> entries[i].area_index <= 255
            && entries[i].scenario_index <= 255,
        stage_music::entry_fault(music, entries, m)(i) is None <==> entries[i].area_index <= 255
            && entries[i].scenario_index <= 255,
        stage_table::target_fault(entries, source) matches Some(
            StageTargetError::AreaTooLarge { entry },
        ) ==> entry == i && entries[i].area_index >= 256,
        stage_table::target_fault(entries, source) matches Some(
            StageTargetError::ScenarioTooLarge { entry },
        ) ==> entry == i && entries[i].scenario_index >= 256,
        stage_music::entry_fault(music, entries, m)(i) matches Some(
            StageMusicError::AreaTooLarge { music: at, entry },
        ) ==> at == m && entry == i && entries[i].area_index >= 256,
        stage_music::entry_fault(music, entries, m)(i) matches Some(
            StageMusicError::ScenarioTooLarge { music: at, entry },
        ) ==> at == m && entry == i && entries[i].scenario_index >= 256,
{
    search::lemma_found(entries, stage_table::loads(stem), i);
}

/// The assets of the separate objects, each once and in order.
pub proof fn law_separate_assets_are_listed_once(list: Seq<u128>, id: u128, other: u128)
    requires
        forall|i: int, j: int|
            0 <= i < j < list.len() ==> (#[trigger] list[i]) < (#[trigger] list[j]),
    ensures
        model_export::with_id(list, id).contains(other) <==> list.contains(other) || other == id,
        forall|i: int, j: int|
            0 <= i < j < model_export::with_id(list, id).len() ==> (
            #[trigger] model_export::with_id(list, id)[i]) < (
            #[trigger] model_export::with_id(list, id)[j]),
    decreases list.len(),
{
    let after = model_export::with_id(list, id);
    if list.len() == 0 {
        assert(after[0] == id);
    } else if list[0] < id {
        let rest = list.drop_first();
        law_separate_assets_are_listed_once(rest, id, other);
        let below = model_export::with_id(rest, id);
        assert(after == seq![list[0]] + below);
        assert(list.contains(other) <==> rest.contains(other) || other == list[0]) by {
            if rest.contains(other) {
                let i = choose|i: int| 0 <= i < rest.len() && rest[i] == other;
                assert(list[i + 1] == other);
            }
            if list.contains(other) && other != list[0] {
                let i = choose|i: int| 0 <= i < list.len() && list[i] == other;
                assert(rest[i - 1] == other);
            }
        }
        assert(after.contains(other) <==> below.contains(other) || other == list[0]) by {
            if below.contains(other) {
                let i = choose|i: int| 0 <= i < below.len() && below[i] == other;
                assert(after[i + 1] == other);
            }
            assert(after[0] == list[0]);
            if after.contains(other) && other != list[0] {
                let i = choose|i: int| 0 <= i < after.len() && after[i] == other;
                assert(below[i - 1] == other);
            }
        }
        assert forall|i: int, j: int| 0 <= i < j < after.len() implies (#[trigger] after[i]) < (
        #[trigger] after[j]) by {
            if i == 0 {
                law_separate_assets_are_listed_once(rest, id, below[j - 1]);
                assert(below.contains(below[j - 1]));
                if rest.contains(below[j - 1]) {
                    let m = choose|m: int| 0 <= m < rest.len() && rest[m] == below[j - 1];
                    assert(list[m + 1] == below[j - 1]);
                }
            } else {
                assert(below[i - 1] < below[j - 1]);
            }
        }
    } else if list[0] != id {
        assert(after == seq![id] + list);
        assert(after[0] == id);
        if list.contains(other) {
            let i = choose|i: int| 0 <= i < list.len() && list[i] == other;
            assert(after[i + 1] == other);
        }
        if after.contains(other) && other != id {
            let i = choose|i: int| 0 <= i < after.len() && after[i] == other;
            assert(list[i - 1] == other);
        }
    }
}

/// What each separate object and its asset are held to, and what they are refused for.
pub proof fn law_separate_objects_are_held_to_their_loader(
    x: ModelExport,
    k: int,
    ids: Seq<u128>,
    i: int,
)
    requires
        0 <= k < x.count(),
        x.placement(k).export_mode == ModelInstanceExportMode::SeparateRuntimeObject,
        0 <= i < ids.len(),
        ids[i] == x.placement(k).asset_id,
        forall|j: int|
            0 <= j < k ==> (#[trigger] x.placement(j)).export_mode
                != ModelInstanceExportMode::SeparateRuntimeObject || x.placement(j).asset_id
                != x.placement(k).asset_id,
    ensures
        x.actor_check()(k) is None <==> x.placement(k).transform.finite(),
        x.loader_check(ModelInstanceExportMode::SeparateRuntimeObject)(k) is None
            <==> x.instances@[k].loader_flags == 0x0024_0000 && model_instances::first_error(
            x.instances@[k].loader_diagnostics@,
        ) is None,
        x.separate_model_check(ids)(i) is None <==> (x.asset(k).compiled matches Ok(model)
            && model_instances::within_budget(model.sections@)),
{
    let of = ModelExport::is_separate_of(ids[i]);
    assert(of(x.instances@[k]));
    assert forall|j: int| 0 <= j < k implies !of(#[trigger] x.instances@[j]) by {
        assert(x.placement(j) == x.instances@[j].placement);
    }
    search::lemma_found(x.instances@, of, k);
}

/// An instance that is no separate object is not held to what those are.
pub proof fn law_other_instances_are_not_held_to_the_actor_loader(x: ModelExport, k: int)
    requires
        0 <= k < x.count(),
        x.placement(k).export_mode != ModelInstanceExportMode::SeparateRuntimeObject,
    ensures
        x.actor_check()(k) is None,
        x.loader_check(ModelInstanceExportMode::SeparateRuntimeObject)(k) is None,
{
}

/// An export of nothing changes nothing.
pub proof fn law_an_empty_export_changes_nothing(
    x: ModelExport,
    base: StageArchiveEdits,
    record: SkyView,
)
    requires
        x.count() == 0,
    ensures
        x.placed_edits(base, record) == Ok::<EditsView, ExportError>(base@),
{
    search::lemma_first_index(x.count(), x.is_skybox());
}

/// A slot is found by its exact name, at its first entry.
pub proof fn law_slots_are_found_by_their_exact_name(
    slots: Seq<MapObjResourceDefinition>,
    name: Seq<char>,
    i: int,
)
    ensures
        0 <= i < slots.len() && slots[i].resource_name@ == name && (forall|j: int|
            0 <= j < i ==> (#[trigger] slots[j]).resource_name@ != name)
            ==> registry::slot_position(slots, name) == Some(i),
        (forall|j: int| 0 <= j < slots.len() ==> (#[trigger] slots[j]).resource_name@ != name)
            ==> registry::slot_position(slots, name) is None,
{
    let named = registry::has_resource_name(name);
    search::lemma_first_position(slots, named);
    let found = registry::slot_position(slots, name);
    if found is Some {
        assert(named(slots[found->0]));
        if 0 <= i < found->0 {
            assert(!named(slots[i]));
        }
    } else if 0 <= i < slots.len() {
        assert(!named(slots[i]));
    }
}

} // verus!
