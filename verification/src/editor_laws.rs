//! What the editor's operations do to placed models and open assets.
use vstd::prelude::*;

use crate::asset_edits;
use crate::asset_edits::AssetHistory;
use crate::asset_inspectors;
use crate::asset_inspectors::{MaterialPreset, ModelNode, ModelTargetProfile};
use crate::asset_names;
use crate::asset_operations;
use crate::asset_operations::{CatalogChange, CatalogReply};
use crate::content_browser;
use crate::content_browser::{
    CollisionMode, CollisionSimplification, CollisionSource, ImportPanelInput,
};
use crate::editor;
use crate::editor::{CatalogAssetEntry, EditorEffect, SmsEditorApp};
use crate::editor_assets;
use crate::editor_assets::{CatalogIssue, ImportNews, ImportStep};
use crate::editor_instances;
use crate::editor_instances::{InstanceHistory, PlacedAsset};
use crate::ids;
use crate::instance_inspector;
use crate::instance_inspector::{InspectorChanges, StockNotice, StockSlotCandidate};
use crate::jdrama::VectorBits;
use crate::model_instances;
use crate::model_instances::{
    CollisionSurface, EditorModelInstance, GxDiagnosticSeverity, GxMaterialDiagnostic,
    ModelInstanceExportMode,
};
use crate::registry::{CollisionSurfaceDefinition, MapObjResourceDefinition};
use crate::search;
use crate::stage_edits::DocumentId;
use crate::stock_path;
use crate::text;

verus! {

/// The undo stack keeps the newest forty edits in order: it forgets the oldest, and only where
/// there are more.
pub proof fn law_the_newest_edits_are_kept<T>(stack: Seq<T>, record: T)
    requires
        stack.len() <= 40,
    ensures
        stack.len() < 40 ==> editor::pushed(stack, record) == stack.push(record),
        stack.len() == 40 ==> editor::pushed(stack, record) == stack.skip(1).push(record),
{
    if stack.len() == 40 {
        assert(stack.push(record).drop_first() =~= stack.skip(1).push(record));
    }
}

/// An edit of the placed models can be undone once more and not redone; it remembers what it was
/// called and both lists.
pub proof fn law_edits_are_remembered(
    history: InstanceHistory,
    label: Seq<char>,
    after: Seq<EditorModelInstance>,
)
    ensures
        history.edited(label, after).list == after,
        history.edited(label, after).undo.len() > 0,
        history.edited(label, after).undo.last().label == label,
        history.edited(label, after).undo.last().before == history.list,
        history.edited(label, after).undo.last().after == after,
        history.edited(label, after).redo.len() == 0,
        history.undo.len() > 0 ==> history.undone().list == history.undo.last().before
            && history.undone().redo.last() == history.undo.last() && history.undone().undo.len()
            == history.undo.len() - 1,
        history.redo.len() > 0 ==> history.redone().list == history.redo.last().after
            && history.redone().undo.last() == history.redo.last() && history.redone().redo.len()
            == history.redo.len() - 1,
{
}

/// An edit of the open asset is remembered in the same way; it leaves the asset changed unless it
/// brings the saved document back, and what changes nothing is no edit.
pub proof fn law_asset_edits_are_remembered(
    history: AssetHistory,
    label: Seq<char>,
    before: DocumentId,
    after: DocumentId,
)
    requires
        history.document == Some(before),
    ensures
        before == after ==> history.edited(label, after) == history,
        before != after ==> {
            let edited = history.edited(label, after);
            &&& edited.document == Some(after)
            &&& edited.saved == history.saved
            &&& edited.undo.len() > 0
            &&& edited.undo.last().label == label
            &&& edited.undo.last().before == before
            &&& edited.undo.last().after == after
            &&& edited.redo.len() == 0
            &&& !edited.dirty <==> history.saved == Some(after)
        },
{
}

/// A selection lasts as long as an instance has its name.
pub proof fn law_selections_last_as_long_as_their_instance(
    id: u128,
    list: Seq<EditorModelInstance>,
)
    ensures
        editor_instances::kept_selection(None, list) is None,
        (exists|i: int|
            0 <= i < list.len() && (#[trigger] list[i]).placement.instance_id == id)
            ==> editor_instances::kept_selection(Some(id), list) == Some(id),
        (forall|i: int|
            0 <= i < list.len() ==> (#[trigger] list[i]).placement.instance_id != id)
            ==> editor_instances::kept_selection(Some(id), list) is None,
{
    let named = editor_instances::has_instance_id(id);
    search::lemma_first_position(list, named);
    let found = search::first_position(list, named);
    if found is Some {
        assert(named(list[found->0]));
    } else if exists|i: int|
        0 <= i < list.len() && (#[trigger] list[i]).placement.instance_id == id {
        let i = choose|i: int|
            0 <= i < list.len() && (#[trigger] list[i]).placement.instance_id == id;
        assert(!named(list[i]));
    }
}

/// A changed instance takes the place of the selected one, which is remembered; all others stay,
/// and the preview is rebuilt where the instance is loaded differently.
pub proof fn law_a_change_replaces_the_selected_instance(
    app: SmsEditorApp,
    before: SmsEditorApp,
    updated: EditorModelInstance,
    i: int,
)
    requires
        app.replaces_selected(before, updated),
        before.selected_position() == Some(i),
    ensures
        ({
            let list = before.instances.list@;
            let same = model_instances::instances_equal(list[i], updated);
            &&& 0 <= i < list.len()
            &&& before.instances.selected == Some(list[i].placement.instance_id)
            &&& same ==> app.instances == before.instances && app.effects == before.effects
            &&& !same ==> {
                let now = app.instances.list@;
                &&& now.len() == list.len()
                &&& now[i] == updated
                &&& forall|j: int| 0 <= j < list.len() && j != i ==> (#[trigger] now[j]) == list[j]
                &&& app.instances.dirty
                &&& app.instance_undo().last().label == "Edited model instance"@
                &&& app.instance_undo().last().before == list
                &&& app.effects@.len() == before.effects@.len() + 2
                &&& app.effects@[before.effects@.len() as int] == EditorEffect::SaveInstances
                &&& updated.placement.export_mode == list[i].placement.export_mode
                    && updated.placement.export_mode
                    == ModelInstanceExportMode::SeparateRuntimeObject ==> app.effects@.last()
                    == EditorEffect::RebuildViewport
            }
        }),
{
    let list = before.instances.list@;
    let id = before.instances.selected->0;
    let named = editor_instances::has_instance_id(id);
    search::lemma_first_position(list, named);
    assert(named(list[i]));
    if !model_instances::instances_equal(list[i], updated) {
        assert(app.instance_history().list == list.update(i, updated));
        assert(app.instance_history().undo == app.instance_undo());
    }
}

/// Deleting an instance leaves exactly the others.
pub proof fn law_deleting_leaves_the_others(
    list: Seq<EditorModelInstance>,
    id: u128,
    e: EditorModelInstance,
)
    ensures
        list.filter(editor_instances::has_other_id(id)).contains(e) <==> list.contains(e)
            && e.placement.instance_id != id,
{
    let p = editor_instances::has_other_id(id);
    let kept = list.filter(p);
    list.filter_lemma(p);
    if kept.contains(e) {
        let i = choose|i: int| 0 <= i < kept.len() && kept[i] == e;
        assert(p(kept[i]));
        list.lemma_filter_contains_rev(p, e);
    }
    if list.contains(e) && e.placement.instance_id != id {
        let i = choose|i: int| 0 <= i < list.len() && list[i] == e;
        list.lemma_filter_contains(p, i);
    }
}

/// A placed model stands upright, unscaled and with collision where it was put, in the open stage,
/// under its asset's name; it is an object of its own, unless it is the first ground of a stage
/// that was authored from nothing.
pub proof fn law_placed_models_stand_where_they_are_put(
    instance: EditorModelInstance,
    app: SmsEditorApp,
    id: u128,
    instance_id: u128,
    asset: PlacedAsset,
    position: VectorBits,
)
    requires
        editor_instances::is_placed(
            instance,
            app,
            id,
            instance_id,
            asset,
            position,
            app.next_is_terrain(asset),
        ),
    ensures
        instance.stage_id@ == app.project.stage_id@,
        instance.placement.asset_id == id,
        instance.placement.instance_id == instance_id,
        instance.placement.name@ == asset.name@,
        instance.placement.transform.translation == position,
        instance.placement.transform.rotation == (VectorBits { x: 0, y: 0, z: 0 }),
        instance.placement.transform.scale == (VectorBits {
            x: 0x3f80_0000,
            y: 0x3f80_0000,
            z: 0x3f80_0000,
        }),
        instance.placement.collision_enabled,
        instance.placement.collision_surface_override is None,
        instance.placement.stock_map_obj_resource@.len() == 0,
        asset.bounds matches Some(bounds) ==> instance.bounds_min == bounds.0
            && instance.bounds_max == bounds.1,
        asset.bounds is None ==> instance.bounds_min == (VectorBits {
            x: 0xc248_0000,
            y: 0xc248_0000,
            z: 0xc248_0000,
        }) && instance.bounds_max == (VectorBits {
            x: 0x4248_0000,
            y: 0x4248_0000,
            z: 0x4248_0000,
        }),
        instance.placement.export_mode == ModelInstanceExportMode::MapTerrain
            <==> app.project.authored_blank_stage && asset.has_collision && forall|i: int|
            0 <= i < app.instances.list@.len() ==> text::lower(
                (#[trigger] app.instances.list@[i]).stage_id@,
            ) != text::lower(app.project.stage_id@) || app.instances.list@[i].placement.export_mode
                != ModelInstanceExportMode::MapTerrain,
        instance.placement.export_mode == ModelInstanceExportMode::MapTerrain
            || instance.placement.export_mode == ModelInstanceExportMode::SeparateRuntimeObject,
{
    if !app.next_is_terrain(asset) && app.project.authored_blank_stage && asset.has_collision {
        let i = choose|i: int|
            0 <= i < app.instances.list@.len() && model_instances::is_terrain_of(
                #[trigger] app.instances.list@[i],
                app.project.stage_id@,
            );
        assert(text::lower(app.instances.list@[i].stage_id@) == text::lower(
            app.project.stage_id@,
        ));
    } else if app.next_is_terrain(asset) {
        assert forall|i: int| 0 <= i < app.instances.list@.len() implies text::lower(
            (#[trigger] app.instances.list@[i]).stage_id@,
        ) != text::lower(app.project.stage_id@) || app.instances.list@[i].placement.export_mode
            != ModelInstanceExportMode::MapTerrain by {
            assert(!model_instances::is_terrain_of(
                app.instances.list@[i],
                app.project.stage_id@,
            ));
        }
    }
}

/// Depths are compared as numbers: those below zero before those above, the farther below zero
/// first.
pub proof fn law_depths_compare_as_numbers(a: u32, b: u32)
    ensures
        a < 0x8000_0000 && b < 0x8000_0000 ==> (editor_instances::total_order(a)
            < editor_instances::total_order(b) <==> a < b),
        a >= 0x8000_0000 && b >= 0x8000_0000 ==> (editor_instances::total_order(a)
            < editor_instances::total_order(b) <==> a > b),
        a >= 0x8000_0000 && b < 0x8000_0000 ==> editor_instances::total_order(a)
            < editor_instances::total_order(b),
{
}

/// The model under the cursor is the nearest one of the open stage, the first of several that are
/// equally near.
pub proof fn law_the_nearest_model_is_picked(
    list: Seq<EditorModelInstance>,
    depths: Seq<Option<u32>>,
    stage_id: Seq<char>,
    n: nat,
    j: int,
)
    requires
        n <= list.len(),
        n <= depths.len(),
    ensures
        match editor_instances::picked(list, depths, stage_id, n) {
            Some(i) => {
                &&& 0 <= i < n
                &&& text::lower(list[i].stage_id@) == text::lower(stage_id)
                &&& depths[i] matches Some(depth)
                &&& 0 <= j < n && text::lower(list[j].stage_id@) == text::lower(stage_id) ==> (
                depths[j] matches Some(other) ==> editor_instances::total_order(depth)
                    <= editor_instances::total_order(other) && (j < i
                    ==> editor_instances::total_order(depth) < editor_instances::total_order(
                    other,
                )))
            },
            None => 0 <= j < n && text::lower(list[j].stage_id@) == text::lower(stage_id)
                ==> depths[j] is None,
        },
    decreases n,
{
    if n > 0 {
        law_the_nearest_model_is_picked(list, depths, stage_id, (n - 1) as nat, j);
        let rest = editor_instances::picked(list, depths, stage_id, (n - 1) as nat);
        if rest is Some {
            law_the_nearest_model_is_picked(
                list,
                depths,
                stage_id,
                (n - 1) as nat,
                rest->0,
            );
        }
    }
}

/// The browser shows the assets of the chosen folder, or all, whose name or path holds the filter
/// in any case.
pub proof fn law_the_browser_shows_what_passes(
    entries: Seq<CatalogAssetEntry>,
    folder: Option<Seq<char>>,
    filter: Seq<char>,
    n: nat,
    k: int,
)
    requires
        0 <= k < n <= entries.len() <= usize::MAX,
    ensures
        asset_edits::visible(entries, folder, filter, n).contains(k as usize) <==> {
            &&& folder matches Some(chosen) ==> asset_names::folder_of(entries[k].relative_path@)
                == chosen
            &&& filter.len() == 0 || text::occurs_in(text::lower(entries[k].name@), filter)
                || text::occurs_in(text::lower(entries[k].relative_path@), filter)
        },
        forall|i: int|
            0 <= i < asset_edits::visible(entries, folder, filter, n).len() ==> (
            #[trigger] asset_edits::visible(entries, folder, filter, n)[i]) < n,
    decreases n,
{
    let rest = asset_edits::visible(entries, folder, filter, (n - 1) as nat);
    let all = asset_edits::visible(entries, folder, filter, n);
    if n > 1 {
        law_the_browser_shows_what_passes(
            entries,
            folder,
            filter,
            (n - 1) as nat,
            if k < n - 1 {
                k
            } else {
                0
            },
        );
    }
    if k < n - 1 {
        if rest.contains(k as usize) {
            let i = choose|i: int| 0 <= i < rest.len() && rest[i] == k as usize;
            assert(all[i] == k as usize);
        }
        if all.contains(k as usize) {
            let i = choose|i: int| 0 <= i < all.len() && all[i] == k as usize;
            assert(i < rest.len());
            assert(rest[i] == k as usize);
        }
    } else {
        if asset_edits::is_visible(entries[k], folder, filter) {
            assert(all[all.len() - 1] == k as usize);
        } else if all.contains(k as usize) {
            let i = choose|i: int| 0 <= i < all.len() && all[i] == k as usize;
            assert(rest[i] < n - 1);
        }
    }
}

/// The owners that keep an asset from being deleted: every instance of it, by stage and name.
pub proof fn law_instances_hold_their_asset(
    list: Seq<EditorModelInstance>,
    id: u128,
    n: nat,
    k: int,
)
    requires
        0 <= k < n <= list.len(),
        list[k].placement.asset_id == id,
    ensures
        asset_operations::references(list, id, n).contains(
            "stage "@ + list[k].stage_id@ + " instance "@ + ids::hyphenated(
                list[k].placement.instance_id,
            ),
        ),
    decreases n,
{
    let all = asset_operations::references(list, id, n);
    let rest = asset_operations::references(list, id, (n - 1) as nat);
    let owner = "stage "@ + list[k].stage_id@ + " instance "@ + ids::hyphenated(
        list[k].placement.instance_id,
    );
    if k < n - 1 {
        law_instances_hold_their_asset(list, id, (n - 1) as nat, k);
        let i = choose|i: int| 0 <= i < rest.len() && rest[i] == owner;
        assert(all[i] == owner);
    } else {
        assert(all[rest.len() as int] == owner);
    }
}

/// An asset that no instance uses has no owners.
pub proof fn law_unused_assets_have_no_owners(list: Seq<EditorModelInstance>, id: u128, n: nat)
    requires
        n <= list.len(),
        forall|k: int| 0 <= k < n ==> (#[trigger] list[k]).placement.asset_id != id,
    ensures
        asset_operations::references(list, id, n).len() == 0,
    decreases n,
{
    if n > 0 {
        law_unused_assets_have_no_owners(list, id, (n - 1) as nat);
        assert(list[n - 1].placement.asset_id != id);
    }
}

/// The assets of a project lie in the folder `Content` below its root; a project without a root
/// has none.
pub proof fn law_assets_lie_below_the_project(root: Seq<char>)
    ensures
        text::trimmed(root).len() == 0 ==> editor_assets::content_root(root) is None,
        text::trimmed(root).len() > 0 && text::trimmed(root).last() != '/'
            ==> editor_assets::content_root(root) == Some(text::trimmed(root) + "/Content"@),
        text::trimmed(root).len() > 0 && text::trimmed(root).last() == '/'
            ==> editor_assets::content_root(root) == Some(text::trimmed(root) + "Content"@),
{
    reveal_strlit("/Content");
    reveal_strlit("/");
    reveal_strlit("Content");
    let r = text::trimmed(root);
    assert(r + "/"@ + "Content"@ =~= r + "/Content"@);
}

/// An import is committed once it is prepared and nothing else runs; it is asked for again while
/// it is not, and over where it failed.
pub proof fn law_prepared_imports_are_committed(app: SmsEditorApp, news: ImportNews)
    ensures
        app.import_step(news) == ImportStep::Commit <==> app.catalog.import_running
            && !app.project.background_active && news is Prepared,
        app.import_step(news) == ImportStep::AskLater <==> app.catalog.import_running && (
        app.project.background_active || news is Nothing),
{
}

/// An issue is told with its kind, its place and its message.
pub proof fn law_issues_are_told_whole(issue: CatalogIssue)
    ensures
        issue.kind@.is_prefix_of(editor_assets::issue_line(issue)),
        issue.message@.is_suffix_of(editor_assets::issue_line(issue)),
        editor_assets::issue_line(issue) == issue.kind@ + (" at '"@ + (issue.relative_path@ + (
        "': "@ + issue.message@))),
{
    let line = editor_assets::issue_line(issue);
    assert(line =~= issue.kind@ + (" at '"@ + (issue.relative_path@ + ("': "@ + issue.message@))));
    assert(line.subrange(0, issue.kind@.len() as int) =~= issue.kind@);
    assert(line.subrange(line.len() - issue.message@.len(), line.len() as int)
        =~= issue.message@);
}

/// What the log and the menus call things.
pub proof fn law_names_of_things(mode: ModelInstanceExportMode)
    ensures
        ModelTargetProfile::Full.name() == "Full J3D"@,
        ModelTargetProfile::SunshineMap.name() == "Sunshine map"@,
        ModelTargetProfile::SunshineObject.name() == "Sunshine object"@,
        ModelTargetProfile::SunshinePollution.name() == "Sunshine pollution"@,
        CollisionMode::Disabled.name() == "None"@,
        CollisionMode::RenderGeometry.name() == "Render geometry"@,
        CollisionMode::EmbeddedNodes.name() == "COL_ / selected nodes"@,
        CollisionMode::SeparateFile.name() == "Separate glTF/GLB"@,
        mode == ModelInstanceExportMode::SeparateRuntimeObject ==> instance_inspector::mode_text(
            mode,
        ) == "Separate runtime object"@,
        mode == ModelInstanceExportMode::StockMapObjBase ==> instance_inspector::mode_text(mode)
            == "Stock MapObjBase slot"@,
        mode == ModelInstanceExportMode::MapTerrain ==> instance_inspector::mode_text(mode)
            == "Bake as map terrain"@,
        mode == ModelInstanceExportMode::Skybox ==> instance_inspector::mode_text(mode)
            == "Stage skybox"@,
        asset_edits::severity_name(GxDiagnosticSeverity::Warning) == "Warning"@,
        asset_edits::severity_name(GxDiagnosticSeverity::Error) == "Error"@,
        MaterialPreset::Lit.edit() == "Applied conservative diffuse and specular preset"@,
        MaterialPreset::Unlit.edit() == "Applied unlit preset"@,
        MaterialPreset::Opaque.edit() == "Applied opaque material preset"@,
        MaterialPreset::TwoSided.edit() == "Enabled two-sided rendering"@,
        MaterialPreset::AlphaBlend.edit() == "Applied alpha blend preset"@,
{
}

/// A node stands one deeper than its parent, and a root at the top.
pub proof fn law_nodes_stand_below_their_parent(nodes: Seq<ModelNode>, index: int, limit: nat)
    requires
        0 <= index < nodes.len(),
        limit > 0,
    ensures
        nodes[index].parent is None ==> asset_inspectors::steps_up(nodes, index, limit) == 0,
        nodes[index].parent matches Some(parent) ==> asset_inspectors::steps_up(
            nodes,
            index,
            limit,
        ) == 1 + asset_inspectors::steps_up(nodes, parent as int, (limit - 1) as nat),
        asset_inspectors::steps_up(nodes, index, limit) <= limit,
    decreases limit,
{
    if nodes[index].parent is Some {
        let parent = nodes[index].parent->0 as int;
        if limit > 1 && 0 <= parent < nodes.len() {
            law_nodes_stand_below_their_parent(nodes, parent, (limit - 1) as nat);
        } else {
            assert(asset_inspectors::steps_up(nodes, parent, (limit - 1) as nat) == 0);
        }
    }
}

/// A fresh source of collision has plain surfaces, the usual prefix of collision nodes and no file.
pub proof fn law_fresh_collision_is_plain(source: CollisionSource, mode: CollisionMode)
    requires
        content_browser::is_fresh(source, mode),
    ensures
        source.mode() == mode,
        source matches CollisionSource::RenderGeometry { surface } ==> is_plain(surface),
        source matches CollisionSource::EmbeddedNodes {
            prefix,
            selected_nodes,
            surfaces_by_node,
            default_surface,
        } ==> prefix@ == "COL_"@ && selected_nodes@.len() == 0 && surfaces_by_node@.len() == 0
            && is_plain(default_surface),
        source matches CollisionSource::SeparateFile { path, conversion } ==> path@.len() == 0
            && conversion is None,
{
}

/// A surface of type zero without attributes or data.
pub open spec fn is_plain(surface: CollisionSurface) -> bool {
    surface.surface_type == 0 && surface.attribute_0 == 0 && surface.attribute_1 == 0
        && surface.data is None
}

/// What the import panel changes is what was typed into it: all else of a source stays, and its
/// kind.
pub proof fn law_the_import_panel_changes_what_was_typed(
    after: CollisionSource,
    before: CollisionSource,
    input: ImportPanelInput,
)
    requires
        content_browser::is_edited(after, before, input),
    ensures
        after.mode() == before.mode(),
        before matches CollisionSource::RenderGeometry { surface } ==> (
        after matches CollisionSource::RenderGeometry { surface: now } && (
        input.surface matches Some(typed) ==> now == typed) && (input.surface is None ==> now
            == surface)),
        before matches CollisionSource::EmbeddedNodes {
            prefix,
            selected_nodes,
            surfaces_by_node,
            default_surface,
        } ==> (after matches CollisionSource::EmbeddedNodes {
            prefix: now,
            selected_nodes: nodes,
            surfaces_by_node: surfaces,
            default_surface: plain,
        } && nodes == selected_nodes && surfaces == surfaces_by_node && (
        input.prefix matches Some(typed) ==> now@ == typed@) && (input.prefix is None ==> now@
            == prefix@) && (input.surface matches Some(typed) ==> plain == typed) && (
        input.surface is None ==> plain == default_surface)),
        before matches CollisionSource::SeparateFile { path, conversion } ==> (
        after matches CollisionSource::SeparateFile { path: now, conversion: converted }
            && converted == conversion && (input.path matches Some(typed) ==> now@ == typed@) && (
        input.path is None ==> now@ == path@)),
{
}

/// Simplification starts at half the triangles and an error of one, is switched off whole, and is
/// otherwise what was typed where it is on.
pub proof fn law_simplification_is_switched(
    before: Option<CollisionSimplification>,
    input: ImportPanelInput,
)
    ensures
        ({
            let after = content_browser::edited_simplification(before, input);
            let on = input.simplify == Some(true) || (input.simplify is None && before is Some);
            &&& after is Some <==> on
            &&& on && input.simplification is Some ==> after == input.simplification
            &&& on && input.simplification is None && input.simplify == Some(true) ==> after
                == Some(
                CollisionSimplification { target_ratio: 0x3f00_0000, max_error: 0x3f80_0000 },
            )
            &&& on && input.simplification is None && input.simplify is None ==> after == before
        }),
{
}

/// A slot is offered where it depends on nothing else and its model lies in the archive; it can be
/// used where the scene has its manager.
pub proof fn law_generic_slots_are_offered(
    slots: Seq<MapObjResourceDefinition>,
    names: Seq<Seq<char>>,
    n: nat,
    k: int,
)
    requires
        0 <= k < n <= slots.len() <= usize::MAX,
    ensures
        ({
            let offered = instance_inspector::candidates(slots, Some(names), n);
            let slot = slots[k];
            let generic = slot.object_flags & 0x80 == 0 && !slot.has_hold_dependency
                && !slot.has_move_dependency && slot.uses_resource_name_model_fallback && (
            slot.primary_model matches Some(model) && stock_path::stock_path(model@, ".bmd"@)
                is Ok);
            let usable = slot.required_manager_name@.len() > 0 && names.contains(
                slot.required_manager_name@,
            );
            offered.contains((StockSlotCandidate { slot: k as usize, manager_available: usable }))
                <==> generic
        }),
        forall|i: int|
            0 <= i < instance_inspector::candidates(slots, Some(names), n).len() ==> (
            #[trigger] instance_inspector::candidates(slots, Some(names), n)[i]).slot < n,
    decreases n,
{
    let slot = slots[k];
    let usable = slot.required_manager_name@.len() > 0 && names.contains(
        slot.required_manager_name@,
    );
    let c = StockSlotCandidate { slot: k as usize, manager_available: usable };
    let rest = instance_inspector::candidates(slots, Some(names), (n - 1) as nat);
    let all = instance_inspector::candidates(slots, Some(names), n);
    if n > 1 {
        law_generic_slots_are_offered(
            slots,
            names,
            (n - 1) as nat,
            if k < n - 1 {
                k
            } else {
                0
            },
        );
    }
    if k < n - 1 {
        if rest.contains(c) {
            let i = choose|i: int| 0 <= i < rest.len() && rest[i] == c;
            assert(all[i] == c);
        }
        if all.contains(c) {
            let i = choose|i: int| 0 <= i < all.len() && all[i] == c;
            assert(i < rest.len());
            assert(rest[i] == c);
        }
    } else {
        if instance_inspector::is_generic_slot(slot) {
            assert(all[all.len() - 1] == c);
        } else if all.contains(c) {
            let i = choose|i: int| 0 <= i < all.len() && all[i] == c;
            assert(rest[i].slot < n - 1);
        }
    }
}

/// What the inspector says of a stock slot: nothing where none is chosen or the chosen one can be
/// used; that its manager is missing where it is offered but cannot; and that it does not fit.
pub proof fn law_slot_notices_tell_what_is_wrong(
    slots: Seq<MapObjResourceDefinition>,
    list: Seq<StockSlotCandidate>,
    selected: Seq<char>,
    i: int,
)
    ensures
        ({
            let notice = instance_inspector::stock_notice(slots, list, selected);
            let any = exists|j: int| 0 <= j < list.len() && (#[trigger] list[j]).manager_available;
            &&& notice == StockNotice::NoSlots <==> list.len() == 0
            &&& notice == StockNotice::NoManagers <==> list.len() > 0 && !any
            &&& any && selected.len() == 0 ==> notice == StockNotice::Nothing
            &&& any && 0 <= i < list.len() && list[i].manager_available
                && slots[list[i].slot as int].resource_name@ == selected ==> notice
                == StockNotice::Nothing
            &&& notice matches StockNotice::MissingManager { slot } ==> slots[slot as int].resource_name@
                == selected && 0 < list.len()
            &&& notice == StockNotice::Incompatible && 0 <= i < list.len()
                ==> slots[list[i].slot as int].resource_name@ != selected
        }),
{
    let usable = instance_inspector::is_usable_for(slots, selected);
    let candidate = instance_inspector::is_candidate_for(slots, selected);
    search::lemma_first_position(list, usable);
    search::lemma_first_position(list, candidate);
    let found = search::first_position(list, candidate);
    if found is Some {
        assert(candidate(list[found->0]));
    } else if 0 <= i < list.len() {
        assert(!candidate(list[i]));
    }
    if search::first_position(list, usable) is None && 0 <= i < list.len() {
        assert(!usable(list[i]));
    }
}

/// The inspector changes what was chosen in it and the transform; the surface of an override is
/// the one picked, else the template, else plain, and only collision that is on has one to change.
pub proof fn law_the_inspector_changes_what_was_chosen(
    r: EditorModelInstance,
    instance: EditorModelInstance,
    changes: InspectorChanges,
    template: Option<CollisionSurface>,
)
    requires
        instance_inspector::is_changed_instance(r, instance, changes, template),
    ensures
        r.placement.instance_id == instance.placement.instance_id,
        r.placement.asset_id == instance.placement.asset_id,
        r.placement.name == instance.placement.name,
        r.stage_id == instance.stage_id,
        r.placement.transform == changes.transform,
        changes.export_mode is None ==> r.placement.export_mode == instance.placement.export_mode,
        changes.export_mode matches Some(mode) ==> r.placement.export_mode == mode,
        changes.stock_resource is None ==> r.placement.stock_map_obj_resource
            == instance.placement.stock_map_obj_resource,
        changes.stock_resource matches Some(resource) ==> r.placement.stock_map_obj_resource
            == resource,
        changes.collision_enabled is None ==> r.placement.collision_enabled
            == instance.placement.collision_enabled,
        changes.collision_enabled matches Some(on) ==> r.placement.collision_enabled == on,
        !r.placement.collision_enabled ==> r.placement.collision_surface_override
            == instance.placement.collision_surface_override,
        r.placement.collision_enabled && changes.override_enabled == Some(false)
            ==> r.placement.collision_surface_override is None,
        r.placement.collision_enabled && changes.override_enabled == Some(true) ==> (match (
            changes.surface,
            template,
        ) {
            (Some(picked), _) => r.placement.collision_surface_override == Some(picked),
            (None, Some(surface)) => r.placement.collision_surface_override == Some(surface),
            (None, None) => r.placement.collision_surface_override matches Some(surface)
                && is_plain(surface),
        }),
        r.placement.collision_enabled && changes.override_enabled is None && changes.surface is None
            ==> r.placement.collision_surface_override
            == instance.placement.collision_surface_override,
{
}

/// A surface is described by every definition of its number, and by every property whose bits it
/// has.
pub proof fn law_surfaces_have_their_properties(
    definition: CollisionSurfaceDefinition,
    surface_type: u16,
)
    ensures
        !definition.is_property_flag ==> (instance_inspector::describes(definition, surface_type)
            <==> surface_type == definition.value),
        definition.is_property_flag ==> (instance_inspector::describes(definition, surface_type)
            <==> definition.value != 0 && surface_type | definition.value == surface_type),
{
    let v = definition.value;
    assert((surface_type & v == v) <==> (surface_type | v == surface_type)) by (bit_vector);
}

/// The line of a remark names its severity, its code and its material and ends with its message.
pub proof fn law_remarks_are_told_whole(diagnostic: GxMaterialDiagnostic)
    ensures
        asset_edits::diagnostic_line(diagnostic) == (if diagnostic.severity
            == GxDiagnosticSeverity::Error {
            "Error"@
        } else {
            "Warning"@
        }) + " ["@ + diagnostic.code@ + "] material "@ + text::decimal(
            diagnostic.material_index as nat,
        ) + ": "@ + diagnostic.message@,
{
}

proof fn lemma_shade(a: u8, first: int, b: u8, second: int)
    requires
        a as int == first % 256,
        b as int == second % 256,
    ensures
        a.wrapping_add(b) as int == (first + second) % 256,
{
    vstd::arithmetic::div_mod::lemma_add_mod_noop(first, second, 256);
}

/// The thumbnail of an asset takes its shade of its meshes and materials: 37 and 17 steps, in
/// eight bits.
pub proof fn law_thumbnails_are_shaded_by_counts(meshes: u8, materials: u8)
    ensures
        asset_inspectors::hue(meshes as usize, materials as usize) as int == (37 * meshes + 17
            * materials) % 256,
{
    let a = meshes.wrapping_mul(37);
    let b = materials.wrapping_mul(17);
    assert(a as int == (37 * meshes) % 256);
    assert(b as int == (17 * materials) % 256);
    lemma_shade(a, 37 * meshes, b, 17 * materials);
}

/// The catalog is read again from the project's folder after a change, where there is one; the
/// changed asset is selected behind that.
pub proof fn law_changed_catalogs_are_read_again(
    app: SmsEditorApp,
    before: SmsEditorApp,
    id: u128,
)
    requires
        app.rescans_and_selects(before, id),
    ensures
        app.catalog.entries@.len() == 0,
        app.effects@.len() > before.effects@.len(),
        app.effects@.last() == EditorEffect::SelectAsset(id),
        text::trimmed(before.project.project_root@).len() > 0 ==> app.effects@.len()
            == before.effects@.len() + 2 && app.effects@[before.effects@.len() as int]
            == EditorEffect::ScanCatalog && app.catalog.issues@.len() == 0
            && app.catalog.root is Some,
        text::trimmed(before.project.project_root@).len() == 0 ==> app.effects@.len()
            == before.effects@.len() + 1 && app.catalog.root is None,
        app.catalog.folder_filter == before.catalog.folder_filter,
        app.catalog.asset_filter == before.catalog.asset_filter,
        app.catalog.import_running == before.catalog.import_running,
{
}

/// The folders of the browser are those that hold an asset, with forward separators, without the
/// root.
pub proof fn law_folders_hold_assets(
    entries: Seq<CatalogAssetEntry>,
    folder: Seq<char>,
    n: int,
    i: int,
)
    ensures
        asset_edits::has_folder(entries, folder, n) ==> folder.len() > 0,
        0 <= i < n && folder.len() > 0 && text::with_replaced(
            asset_names::folder_of(entries[i].relative_path@),
            '\\',
            '/',
        ) == folder ==> asset_edits::has_folder(entries, folder, n),
        n <= 0 ==> !asset_edits::has_folder(entries, folder, n),
{
    if 0 <= i < n {
        let entry = entries[i];
    }
}

/// What is reported of a change of the catalog names what changed.
pub proof fn law_catalog_changes_are_reported(reply: CatalogReply)
    ensures
        CatalogChange::Rename.done(reply) == "Renamed model asset to '"@ + (reply.name@ + "'."@),
        CatalogChange::Move.done(reply) == "Moved model asset to Content/"@ + (reply.relative_path@
            + "."@),
        CatalogChange::Duplicate.done(reply) == "Duplicated model asset to Content/"@ + (
        reply.relative_path@ + "."@),
        CatalogChange::Rename.failed() == "Rename failed: "@,
        CatalogChange::Move.failed() == "Move failed: "@,
        CatalogChange::Duplicate.failed() == "Duplicate failed: "@,
{
    assert(CatalogChange::Rename.done(reply) =~= "Renamed model asset to '"@ + (reply.name@
        + "'."@));
    assert(CatalogChange::Move.done(reply) =~= "Moved model asset to Content/"@ + (
    reply.relative_path@ + "."@));
    assert(CatalogChange::Duplicate.done(reply) =~= "Duplicated model asset to Content/"@ + (
    reply.relative_path@ + "."@));
}

/// A diagnostic that is no longer accepted is taken off the list, and no other.
pub proof fn law_withdrawn_remarks_are_taken_off(acknowledged: Seq<u32>, code: u32, other: u32)
    ensures
        acknowledged.filter(asset_inspectors::is_other_code(code)).contains(other)
            <==> acknowledged.contains(other) && other != code,
{
    let p = asset_inspectors::is_other_code(code);
    let kept = acknowledged.filter(p);
    acknowledged.filter_lemma(p);
    if kept.contains(other) {
        let i = choose|i: int| 0 <= i < kept.len() && kept[i] == other;
        assert(p(kept[i]));
        acknowledged.lemma_filter_contains_rev(p, other);
    }
    if acknowledged.contains(other) && other != code {
        let i = choose|i: int| 0 <= i < acknowledged.len() && acknowledged[i] == other;
        acknowledged.lemma_filter_contains(p, i);
    }
}

} // verus!
