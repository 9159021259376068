//! What an export writes into a stage, and what it refuses.
use vstd::prelude::*;

use crate::ids;
use crate::jdrama::{FieldValueView, PayloadView, RecordView};
use crate::model_export;
use crate::model_export::{ExportInstance, ModelExport, SkyView};
use crate::model_instances;
use crate::model_instances::{
    GxDiagnosticSeverity, GxMaterialDiagnostic, J3dSection, ModelInstanceExportMode,
    ModelInstancePlacement,
};
use crate::model_export_laws;
use crate::search;
use crate::sky_bundle;
use crate::stage_edits;
use crate::stage_edits::{
    CollisionDocument, DocumentId, EditOperation, EditView, EditsView, InsertView, ResourceView,
};
use crate::stock_path;
use crate::text;

verus! {

proof fn lemma_holds<V>(edits: Seq<EditView<V>>, path: Seq<u8>, added: EditView<V>, e: EditView<V>)
    requires
        added.path == path,
    ensures
        stage_edits::without_path(edits, path).push(added).contains(e) <==> e == added || (
        edits.contains(e) && e.path != path),
{
    let kept = stage_edits::without_path(edits, path);
    let after = kept.push(added);
    model_export_laws::lemma_kept_edits(edits, path, e);
    assert(after[kept.len() as int] == added);
    if after.contains(e) {
        let i = choose|i: int| 0 <= i < after.len() && after[i] == e;
        if i < kept.len() {
            assert(kept[i] == e);
        }
    }
    if kept.contains(e) {
        let i = choose|i: int| 0 <= i < kept.len() && kept[i] == e;
        assert(after[i] == e);
    }
}

proof fn lemma_removed(paths: Seq<Seq<u8>>, path: Seq<u8>)
    ensures
        !stage_edits::without(paths, path).contains(path),
        forall|p: Seq<u8>| p != path ==> (#[trigger] stage_edits::without(paths, path).contains(p)
            <==> paths.contains(p)),
    decreases paths.len(),
{
    reveal(Seq::filter);
    let kept = stage_edits::without(paths, path);
    if paths.len() > 0 {
        let shorter = stage_edits::without(paths.drop_last(), path);
        let last = paths.last();
        lemma_removed(paths.drop_last(), path);
        assert(kept == if last != path {
            shorter.push(last)
        } else {
            shorter
        });
        assert forall|p: Seq<u8>| #[trigger] kept.contains(p) <==> shorter.contains(p) || (last
            != path && p == last) by {
            if shorter.contains(p) {
                let i = choose|i: int| 0 <= i < shorter.len() && shorter[i] == p;
                assert(kept[i] == p);
            }
            if last != path {
                assert(kept[shorter.len() as int] == last);
            }
        }
        assert forall|p: Seq<u8>| paths.contains(p) <==> paths.drop_last().contains(p) || p
            == last by {
            if paths.drop_last().contains(p) {
                let i = choose|i: int| 0 <= i < paths.len() - 1 && paths.drop_last()[i] == p;
                assert(paths[i] == p);
            }
            assert(paths[paths.len() - 1] == last);
            if paths.contains(p) && p != last {
                let i = choose|i: int| 0 <= i < paths.len() && paths[i] == p;
                assert(paths.drop_last()[i] == p);
            }
        }
    }
}

/// A pending model stands alone at its path: it takes the place of what was pending there, a
/// removal included, and leaves every other path as it was.
pub proof fn law_a_model_edit_stands_alone(
    edits: EditsView,
    path: Seq<u8>,
    operation: EditOperation,
    document: DocumentId,
    e: EditView<DocumentId>,
)
    ensures
        ({
            let after = edits.with_model(path, operation, document);
            &&& after.models.contains((EditView { path, operation, document }))
            &&& e.path == path ==> (after.models.contains(e) <==> e.operation == operation
                && e.document == document)
            &&& e.path != path ==> (after.models.contains(e) <==> edits.models.contains(e))
            &&& !after.removals.contains(path)
            &&& after.resources == edits.resources
            &&& after.collisions == edits.collisions
            &&& after.inserts == edits.inserts
        }),
{
    let added = EditView { path, operation, document };
    lemma_holds(edits.models, path, added, e);
    lemma_holds(edits.models, path, added, added);
    lemma_removed(edits.removals, path);
}

/// A removal is pending for its path, and nothing else is.
pub proof fn law_a_removal_drops_what_was_pending(edits: EditsView, path: Seq<u8>)
    ensures
        ({
            let after = edits.with_removal(path);
            &&& after.removals.contains(path)
            &&& forall|e: EditView<DocumentId>| #[trigger]
                after.models.contains(e) <==> edits.models.contains(e) && e.path != path
            &&& forall|e: EditView<ResourceView>| #[trigger]
                after.resources.contains(e) <==> edits.resources.contains(e) && e.path != path
            &&& forall|e: EditView<CollisionDocument>| #[trigger]
                after.collisions.contains(e) <==> edits.collisions.contains(e) && e.path != path
            &&& after.inserts == edits.inserts
        }),
{
    let after = edits.with_removal(path);
    assert(after.removals[after.removals.len() - 1] == path);
    assert forall|e: EditView<DocumentId>| #[trigger] after.models.contains(e)
        <==> edits.models.contains(e) && e.path != path by {
        model_export_laws::lemma_kept_edits(edits.models, path, e);
    }
    assert forall|e: EditView<ResourceView>| #[trigger] after.resources.contains(e)
        <==> edits.resources.contains(e) && e.path != path by {
        model_export_laws::lemma_kept_edits(edits.resources, path, e);
    }
    assert forall|e: EditView<CollisionDocument>| #[trigger] after.collisions.contains(e)
        <==> edits.collisions.contains(e) && e.path != path by {
        model_export_laws::lemma_kept_edits(edits.collisions, path, e);
    }
}

/// The baked terrain replaces the world model, as the one pending model there.
pub proof fn law_terrain_replaces_the_world_model(x: ModelExport, edits: EditsView)
    requires
        x.terrain_edits(edits) is Ok,
        exists|k: int|
            0 <= k < x.count() && #[trigger] x.has_mode(k, ModelInstanceExportMode::MapTerrain),
    ensures
        x.terrain.outcome is Ok,
        x.terrain.name@ == "AuthoredMapTerrain"@,
        ({
            let after = x.terrain_edits(edits)->Ok_0;
            let path = sky_bundle::bytes_of("map/map/map.bmd"@);
            &&& after.models.contains(
                (EditView {
                    path,
                    operation: EditOperation::Replace,
                    document: x.terrain.outcome->Ok_0,
                }),
            )
            &&& forall|e: EditView<DocumentId>|
                e.path == path && #[trigger] after.models.contains(e) ==> e.document
                    == x.terrain.outcome->Ok_0
            &&& forall|e: EditView<DocumentId>|
                e.path != path ==> (#[trigger] after.models.contains(e) <==> edits.models.contains(
                    e,
                ))
            &&& after.inserts == edits.inserts
            &&& after.collisions == edits.collisions
            &&& after.resources == edits.resources
        }),
{
    assert(x.any_mode(ModelInstanceExportMode::MapTerrain));
    let after = x.terrain_edits(edits)->Ok_0;
    let path = sky_bundle::bytes_of("map/map/map.bmd"@);
    let document = x.terrain.outcome->Ok_0;
    assert forall|e: EditView<DocumentId>| #![trigger after.models.contains(e)] (e.path == path
        && after.models.contains(e) ==> e.document == document) && (e.path != path ==> (
    after.models.contains(e) <==> edits.models.contains(e))) by {
        law_a_model_edit_stands_alone(edits, path, EditOperation::Replace, document, e);
    }
    law_a_model_edit_stands_alone(
        edits,
        path,
        EditOperation::Replace,
        document,
        EditView { path, operation: EditOperation::Replace, document },
    );
}

/// The collision of what is placed is appended to the world's collision file; it is that of
/// exactly the separate objects and the terrain, and the pending collisions stay.
pub proof fn law_placed_collision_joins_the_world(x: ModelExport, edits: EditsView)
    requires
        x.collision_edits(edits) is Ok,
    ensures
        ({
            let after = x.collision_edits(edits)->Ok_0;
            let placed = exists|k: int|
                0 <= k < x.count() && (#[trigger] x.placement(k).export_mode
                    == ModelInstanceExportMode::SeparateRuntimeObject || x.placement(k).export_mode
                    == ModelInstanceExportMode::MapTerrain);
            &&& !placed ==> after == edits
            &&& placed ==> x.placed_collision.outcome is Ok && x.placed_collision.name@
                == "AuthoredInstanceCollision"@ && (match x.placed_collision.outcome->Ok_0 {
                None => after == edits,
                Some(document) => after.collisions == edits.collisions.push(
                    EditView {
                        path: sky_bundle::bytes_of("map/map.col"@),
                        operation: EditOperation::Append,
                        document: CollisionDocument::Compiled(document),
                    },
                ) && after.models == edits.models && after.inserts == edits.inserts
                    && after.resources == edits.resources && after.removals == edits.removals,
            })
        }),
{
    let separate = ModelInstanceExportMode::SeparateRuntimeObject;
    let terrain = ModelInstanceExportMode::MapTerrain;
    if x.any_mode(separate) {
        let k = choose|k: int| 0 <= k < x.count() && #[trigger] x.has_mode(k, separate);
        assert(x.placement(k).export_mode == separate);
    }
    if x.any_mode(terrain) {
        let k = choose|k: int| 0 <= k < x.count() && #[trigger] x.has_mode(k, terrain);
        assert(x.placement(k).export_mode == terrain);
    }
    if exists|k: int|
        0 <= k < x.count() && (#[trigger] x.placement(k).export_mode == separate || x.placement(
            k,
        ).export_mode == terrain) {
        let k = choose|k: int|
            0 <= k < x.count() && (#[trigger] x.placement(k).export_mode == separate || x.placement(
                k,
            ).export_mode == terrain);
        assert(x.has_mode(k, x.placement(k).export_mode));
    }
}

/// Which instances are baked together: an instance is among the positions of a mode exactly where
/// it has that mode, and the positions ascend.
pub proof fn law_positions_are_those_of_the_mode(
    instances: Seq<ExportInstance>,
    mode: ModelInstanceExportMode,
    n: nat,
    k: int,
)
    requires
        n <= instances.len() <= usize::MAX,
        0 <= k < n,
    ensures
        model_export::positions_of(instances, mode, n).contains(k as usize)
            <==> instances[k].placement.export_mode == mode,
        forall|i: int|
            0 <= i < model_export::positions_of(instances, mode, n).len() ==> (
            #[trigger] model_export::positions_of(instances, mode, n)[i]) < n,
        forall|i: int, j: int|
            0 <= i < j < model_export::positions_of(instances, mode, n).len() ==> (
            #[trigger] model_export::positions_of(instances, mode, n)[i]) < (
            #[trigger] model_export::positions_of(instances, mode, n)[j]),
    decreases n,
{
    let rest = model_export::positions_of(instances, mode, (n - 1) as nat);
    let all = model_export::positions_of(instances, mode, n);
    if n > 1 {
        law_positions_are_those_of_the_mode(
            instances,
            mode,
            (n - 1) as nat,
            if k < n - 1 {
                k
            } else {
                0
            },
        );
    } else {
        assert(rest =~= Seq::empty());
    }
    if k < n - 1 {
        if rest.contains(k as usize) {
            let i = choose|i: int| 0 <= i < rest.len() && rest[i] == k as usize;
            assert(all[i] == k as usize);
        }
        if all.contains(k as usize) {
            let i = choose|i: int| 0 <= i < all.len() && all[i] == k as usize;
            if i < rest.len() {
                assert(rest[i] == k as usize);
            }
        }
    } else {
        if instances[k].placement.export_mode == mode {
            assert(all[all.len() - 1] == k as usize);
        } else if all.contains(k as usize) {
            let i = choose|i: int| 0 <= i < all.len() && all[i] == k as usize;
            assert(rest[i] < n - 1);
        }
    }
}

/// The collision of what is placed is baked of the separate objects and the terrain, and of
/// nothing else; the world model of the terrain alone.
pub proof fn law_skyboxes_and_stock_objects_are_not_baked(instances: Seq<ExportInstance>, k: int)
    requires
        instances.len() <= usize::MAX,
        0 <= k < instances.len(),
    ensures
        model_export::terrain_parts(instances).contains(k as usize)
            <==> instances[k].placement.export_mode == ModelInstanceExportMode::MapTerrain,
        model_export::collision_parts(instances).contains(k as usize)
            <==> instances[k].placement.export_mode == ModelInstanceExportMode::MapTerrain
            || instances[k].placement.export_mode
            == ModelInstanceExportMode::SeparateRuntimeObject,
{
    law_positions_are_those_of_the_mode(
        instances,
        ModelInstanceExportMode::MapTerrain,
        instances.len(),
        k,
    );
    law_positions_are_those_of_the_mode(
        instances,
        ModelInstanceExportMode::SeparateRuntimeObject,
        instances.len(),
        k,
    );
    let a = model_export::positions_of(
        instances,
        ModelInstanceExportMode::SeparateRuntimeObject,
        instances.len(),
    );
    let b = model_export::terrain_parts(instances);
    let all = model_export::collision_parts(instances);
    if a.contains(k as usize) {
        let i = choose|i: int| 0 <= i < a.len() && a[i] == k as usize;
        assert(all[i] == k as usize);
    }
    if b.contains(k as usize) {
        let i = choose|i: int| 0 <= i < b.len() && b[i] == k as usize;
        assert(all[a.len() + i] == k as usize);
    }
    if all.contains(k as usize) {
        let i = choose|i: int| 0 <= i < all.len() && all[i] == k as usize;
        if i < a.len() {
            assert(a[i] == k as usize);
        } else {
            assert(b[i - a.len()] == k as usize);
        }
    }
}

/// A skybox brings its compiled model as the stage's sky, and a sky actor where the stage places
/// none; a stage has one at most.
pub proof fn law_a_skybox_is_the_stages_sky(x: ModelExport, edits: EditsView, record: SkyView, k: int)
    requires
        x.sky_edits(edits, record) is Ok,
        0 <= k < x.count(),
        x.placement(k).export_mode == ModelInstanceExportMode::Skybox,
    ensures
        x.skybox_count(x.count()) <= 1,
        forall|j: int|
            0 <= j < x.count() && #[trigger] x.placement(j).export_mode
                == ModelInstanceExportMode::Skybox ==> j == k,
        x.asset(k).compiled is Ok,
        x.archive is Some,
        ({
            let after = x.sky_edits(edits, record)->Ok_0;
            &&& after.models.contains(
                (EditView {
                    path: sky_bundle::bytes_of("map/map/sky.bmd"@),
                    operation: EditOperation::Upsert,
                    document: x.asset(k).compiled->Ok_0.document,
                }),
            )
            &&& (exists|i: int|
                0 <= i < x.archive->0.object_types@.len() && ((
                #[trigger] x.archive->0.object_types@[i])@ == "Sky"@ || "::Sky"@.is_suffix_of(
                    x.archive->0.object_types@[i]@,
                ))) ==> after.inserts == edits.inserts
            &&& (forall|i: int|
                0 <= i < x.archive->0.object_types@.len() ==> ((
                #[trigger] x.archive->0.object_types@[i])@ != "Sky"@ && !"::Sky"@.is_suffix_of(
                    x.archive->0.object_types@[i]@,
                ))) ==> after.inserts.len() == edits.inserts.len() + 1
                && after.inserts.last().path == sky_bundle::bytes_of("map/scene.bin"@)
                && record.transform == x.placement(k).transform && record.record == Some(
                after.inserts.last().record,
            )
        }),
{
    assert(x.is_skybox()(k));
    search::lemma_first_index(x.count(), x.is_skybox());
    let first = search::first_index(x.count(), x.is_skybox())->0;
    assert(x.has_mode(first, ModelInstanceExportMode::Skybox));
    assert forall|j: int|
        0 <= j < x.count() && #[trigger] x.placement(j).export_mode
            == ModelInstanceExportMode::Skybox implies j == k by {
        if j < k {
            lemma_two_skyboxes(x, x.count(), j, k);
        } else if k < j {
            lemma_two_skyboxes(x, x.count(), k, j);
        }
    }
    assert(x.placement(first).export_mode == ModelInstanceExportMode::Skybox);
    let after = x.sky_edits(edits, record)->Ok_0;
    let path = sky_bundle::bytes_of("map/map/sky.bmd"@);
    let document = x.asset(k).compiled->Ok_0.document;
    law_a_model_edit_stands_alone(
        edits,
        path,
        EditOperation::Upsert,
        document,
        EditView { path, operation: EditOperation::Upsert, document },
    );
    let skied = edits.with_model(path, EditOperation::Upsert, document);
    if model_export::places_sky(*x.archive->0) {
        assert(after == skied);
        let i = choose|i: int|
            0 <= i < x.archive->0.object_types@.len() && model_export::is_sky_type(
                (#[trigger] x.archive->0.object_types@[i])@,
            );
        assert(x.archive->0.object_types@[i]@ == "Sky"@ || "::Sky"@.is_suffix_of(
            x.archive->0.object_types@[i]@,
        ));
    } else {
        assert forall|i: int| 0 <= i < x.archive->0.object_types@.len() implies ((
        #[trigger] x.archive->0.object_types@[i])@ != "Sky"@ && !"::Sky"@.is_suffix_of(
            x.archive->0.object_types@[i]@,
        )) by {
            assert(!model_export::is_sky_type(x.archive->0.object_types@[i]@));
        }
    }
}

proof fn lemma_two_skyboxes(x: ModelExport, n: nat, i: int, j: int)
    requires
        0 <= i < j < n,
        x.has_mode(i, ModelInstanceExportMode::Skybox),
        x.has_mode(j, ModelInstanceExportMode::Skybox),
    ensures
        x.skybox_count(n) >= 2,
    decreases n,
{
    if j < n - 1 {
        lemma_two_skyboxes(x, (n - 1) as nat, i, j);
    } else {
        lemma_one_skybox(x, (n - 1) as nat, i);
    }
}

proof fn lemma_one_skybox(x: ModelExport, n: nat, i: int)
    requires
        0 <= i < n,
        x.has_mode(i, ModelInstanceExportMode::Skybox),
    ensures
        x.skybox_count(n) >= 1,
    decreases n,
{
    if i < n - 1 {
        lemma_one_skybox(x, (n - 1) as nat, i);
    }
}

/// The record is a stock map object that uses this resource.
pub open spec fn is_stock_object(
    record: RecordView,
    placement: ModelInstancePlacement,
    resource: Seq<char>,
) -> bool {
    &&& record.record_type == "MapObjBase"@
    &&& record.name == "sms_stock_instance_"@ + ids::simple(placement.instance_id)
    &&& record.payload matches PayloadView::Actor { transform, character_name, fields }
    &&& transform == placement.transform
    &&& character_name.len() == 0
    &&& fields.len() == 1
    &&& fields[0].name == "resource_name"@
    &&& fields[0].value == FieldValueView::Text(resource)
}

/// A stock placement puts the compiled model of its own asset where its slot's model lies, and a
/// map object that uses the slot's resource into the scene; the last placement is the last to do
/// so.
pub proof fn law_a_stock_slot_holds_the_placed_model(
    x: ModelExport,
    edits: EditsView,
    parent: Seq<usize>,
    n: nat,
)
    requires
        0 < n <= x.count(),
        x.placement(n - 1).export_mode == ModelInstanceExportMode::StockMapObjBase,
    ensures
        ({
            let after = x.with_stock_objects(edits, parent, n);
            let k = n - 1;
            &&& after.models.contains(
                (EditView {
                    path: sky_bundle::bytes_of(
                        stock_path::stock_path(x.slot(k).primary_model->0@, ".bmd"@)->Ok_0,
                    ),
                    operation: EditOperation::Upsert,
                    document: x.asset(k).compiled->Ok_0.document,
                }),
            )
            &&& after.inserts.len() > 0
            &&& after.inserts.last().path == sky_bundle::bytes_of("map/scene.bin"@)
            &&& after.inserts.last().parent == parent
            &&& is_stock_object(
                after.inserts.last().record,
                x.placement(k),
                x.slot(k).resource_name@,
            )
        }),
{
    let k = n - 1;
    assert(x.has_mode(k, ModelInstanceExportMode::StockMapObjBase));
    let rest = x.with_stock_objects(edits, parent, k as nat);
    let path = sky_bundle::bytes_of(x.stock_model_path(k)->Ok_0);
    let document = x.asset(k).compiled->Ok_0.document;
    let record = model_export::stock_record(x.placement(k), x.slot(k).resource_name@);
    let placed = rest.with_model(path, EditOperation::Upsert, document).with_insert(
        InsertView { path: model_export::scene_path(), parent, record },
    );
    law_a_model_edit_stands_alone(
        rest,
        path,
        EditOperation::Upsert,
        document,
        EditView { path, operation: EditOperation::Upsert, document },
    );
    lemma_collisions_keep(x, placed, k, x.slot(k).collision_resources@.len());
}

proof fn lemma_collisions_keep(x: ModelExport, edits: EditsView, k: int, n: nat)
    ensures
        x.with_stock_collisions(edits, k, n).models == edits.models,
        x.with_stock_collisions(edits, k, n).inserts == edits.inserts,
    decreases n,
{
    if n > 0 {
        lemma_collisions_keep(x, edits, k, (n - 1) as nat);
    }
}

/// A stock placement with collision puts its compiled collision into the last collision resource
/// of its slot, under the resource's own path.
pub proof fn law_stock_collision_fills_the_slot(x: ModelExport, edits: EditsView, k: int, n: nat)
    requires
        0 < n <= x.slot(k).collision_resources@.len(),
        x.placement(k).collision_enabled,
        x.instances@[k].stock_collision.outcome is Ok,
        x.instances@[k].stock_collision.source.vertices@ == x.asset(k).collision->0.vertices@,
        x.instances@[k].stock_collision.source.surfaces@.len() == x.asset(
            k,
        ).collision->0.surfaces@.len(),
        forall|i: int|
            0 <= i < x.asset(k).collision->0.surfaces@.len() ==> (
            #[trigger] x.instances@[k].stock_collision.source.surfaces@[i]) == (
            match x.placement(k).collision_surface_override {
                Some(surface) => surface,
                None => x.asset(k).collision->0.surfaces@[i],
            }),
    ensures
        x.with_stock_collisions(edits, k, n).collisions.contains(
            (EditView {
                path: sky_bundle::bytes_of(
                    stock_path::stock_path(
                        x.slot(k).collision_resources@[n - 1].resource_name@,
                        ".col"@,
                    )->Ok_0,
                ),
                operation: EditOperation::Upsert,
                document: CollisionDocument::Compiled(
                    x.instances@[k].stock_collision.outcome->Ok_0,
                ),
            }),
        ),
{
    let source = x.instances@[k].stock_collision.source;
    let own = x.asset(k).collision->0;
    assert(source.surfaces@ =~= model_export::stock_surfaces(x.placement(k), own.surfaces@));
    let after = x.with_stock_collisions(edits, k, n).collisions;
    assert(after[after.len() - 1].document == CollisionDocument::Compiled(
        x.instances@[k].stock_collision.outcome->Ok_0,
    ));
}

/// Two placed objects never share a name in the scene.
pub proof fn law_placed_records_have_their_own_names(
    a: ModelInstancePlacement,
    b: ModelInstancePlacement,
    resource: Seq<char>,
)
    requires
        a.instance_id != b.instance_id,
    ensures
        model_export::actor_record(a).name == "sms_instance_"@ + ids::simple(a.instance_id),
        model_export::actor_record(a).name != model_export::actor_record(b).name,
        model_export::stock_record(a, resource).name != model_export::stock_record(
            b,
            resource,
        ).name,
{
    ids::law_resource_keys_are_distinct(a.instance_id, b.instance_id);
    let p = "sms_instance_"@;
    let q = "sms_stock_instance_"@;
    let x = ids::simple(a.instance_id);
    let y = ids::simple(b.instance_id);
    assert(x != y) by {
        if x == y {
            assert(ids::resource_key(a.instance_id) == ids::resource_key(b.instance_id));
        }
    }
    assert((p + x).skip(p.len() as int) =~= x);
    assert((p + y).skip(p.len() as int) =~= y);
    assert((q + x).skip(q.len() as int) =~= x);
    assert((q + y).skip(q.len() as int) =~= y);
}

/// The sizes of a model's sections.
pub open spec fn total(sections: Seq<J3dSection>) -> nat
    decreases sections.len(),
{
    if sections.len() == 0 {
        0
    } else {
        sections[0].declared_size as nat + total(sections.drop_first())
    }
}

proof fn lemma_total(sections: Seq<J3dSection>)
    ensures
        model_instances::sections_size(sections) == total(sections),
    decreases sections.len(),
{
    if sections.len() == 1 {
        assert(sections.drop_last() =~= Seq::empty());
        assert(sections.drop_first() =~= Seq::empty());
        assert(model_instances::sections_size(Seq::empty()) == 0);
        assert(total(Seq::empty()) == 0);
        assert(sections.last() == sections[0]);
    } else if sections.len() > 1 {
        let inner = sections.drop_first().drop_last();
        lemma_total(sections.drop_last());
        lemma_total(sections.drop_first());
        lemma_total(inner);
        assert(sections.drop_last().drop_first() =~= inner);
        assert(sections.drop_first().last() == sections.last());
        assert(sections.drop_last()[0] == sections[0]);
    }
}

/// A model of an actor is within budget where header and sections take at most 12 MiB and its
/// first texture section at most 8 MiB; a model without one has no textures to count.
pub proof fn law_actor_models_are_small_enough(sections: Seq<J3dSection>, t: int)
    ensures
        (forall|i: int| 0 <= i < sections.len() ==> (#[trigger] sections[i]).tag != 0x5445_5831)
            ==> (model_instances::within_budget(sections) <==> 32 + total(sections)
            <= 12 * 1024 * 1024),
        0 <= t < sections.len() && sections[t].tag == 0x5445_5831 && (forall|i: int|
            0 <= i < t ==> (#[trigger] sections[i]).tag != 0x5445_5831) ==> (
        model_instances::within_budget(sections) <==> 32 + total(sections) <= 12 * 1024 * 1024
            && sections[t].declared_size <= 8 * 1024 * 1024),
{
    lemma_total(sections);
    if 0 <= t < sections.len() && sections[t].tag == 0x5445_5831 && (forall|i: int|
        0 <= i < t ==> (#[trigger] sections[i]).tag != 0x5445_5831) {
        lemma_texture_section(sections, t);
    }
    if forall|i: int| 0 <= i < sections.len() ==> (#[trigger] sections[i]).tag != 0x5445_5831 {
        lemma_no_texture_section(sections);
    }
}

proof fn lemma_texture_section(sections: Seq<J3dSection>, t: int)
    requires
        0 <= t < sections.len(),
        sections[t].tag == 0x5445_5831,
        forall|i: int| 0 <= i < t ==> (#[trigger] sections[i]).tag != 0x5445_5831,
    ensures
        model_instances::tex1_size(sections) == sections[t].declared_size,
    decreases sections.len(),
{
    if t > 0 {
        let rest = sections.drop_first();
        assert forall|i: int| 0 <= i < t - 1 implies (#[trigger] rest[i]).tag != 0x5445_5831 by {
            assert(rest[i] == sections[i + 1]);
        }
        lemma_texture_section(rest, t - 1);
    }
}

proof fn lemma_no_texture_section(sections: Seq<J3dSection>)
    requires
        forall|i: int| 0 <= i < sections.len() ==> (#[trigger] sections[i]).tag != 0x5445_5831,
    ensures
        model_instances::tex1_size(sections) == 0,
    decreases sections.len(),
{
    if sections.len() > 0 {
        let rest = sections.drop_first();
        assert forall|i: int| 0 <= i < rest.len() implies (#[trigger] rest[i]).tag
            != 0x5445_5831 by {
            assert(rest[i] == sections[i + 1]);
        }
        lemma_no_texture_section(rest);
    }
}

/// The editor previews a model under the same flags that the export checks it for: those of the
/// actor loader, of the terrain, of the sky, or of the slot that is chosen.
pub proof fn law_previews_and_exports_agree_on_the_loader(x: ModelExport, k: int)
    requires
        0 <= k < x.count(),
    ensures
        ({
            let placement = x.placement(k);
            let flags = model_instances::loader_flags_of(
                placement,
                model_instances::registry_value(x.registry),
                x.flags,
            );
            &&& flags matches Ok(flags) ==> flags == x.wanted_flags(k)
            &&& placement.export_mode == ModelInstanceExportMode::SeparateRuntimeObject ==> flags
                == Ok::<u32, model_instances::LoaderFlagsError>(0x0024_0000)
            &&& placement.export_mode == ModelInstanceExportMode::MapTerrain ==> flags == Ok::<
                u32,
                model_instances::LoaderFlagsError,
            >(x.flags.map)
            &&& placement.export_mode == ModelInstanceExportMode::Skybox ==> flags == Ok::<
                u32,
                model_instances::LoaderFlagsError,
            >(x.flags.default_object)
            &&& placement.export_mode == ModelInstanceExportMode::StockMapObjBase && (
            x.slot_index(k) matches Some(slot) && x.selected(k).len() > 0) ==> flags == Ok::<
                u32,
                model_instances::LoaderFlagsError,
            >(x.registry->0.map_obj_resources@[x.slot_index(k)->0].load_flags)
        }),
{
}

/// Only errors keep a loader from a model; warnings do not.
pub proof fn law_warnings_stop_no_export(diagnostics: Seq<GxMaterialDiagnostic>)
    ensures
        model_instances::first_error(diagnostics) is None <==> (forall|i: int|
            0 <= i < diagnostics.len() ==> (#[trigger] diagnostics[i]).severity
                != GxDiagnosticSeverity::Error),
{
    search::lemma_first_position(diagnostics, model_instances::is_error());
    if model_instances::first_error(diagnostics) is None {
        assert forall|i: int| 0 <= i < diagnostics.len() implies (
        #[trigger] diagnostics[i]).severity != GxDiagnosticSeverity::Error by {
            assert(!model_instances::is_error()(diagnostics[i]));
        }
    }
}

/// What an exported stock placement was held to: its slot is chosen and known, has a manager that
/// the scene holds, depends on nothing that is held or moved, has no damage height and no compiled
/// metadata; its model lies in the archive, no earlier placement fills slot or model with another
/// asset, its materials suit the loader, it is compiled and small enough, and it is placed.
pub proof fn law_exported_stock_placements_are_safe(
    x: ModelExport,
    names: Seq<Seq<char>>,
    n: nat,
    k: int,
)
    requires
        search::first_fault(n, x.stock_check(names)) is None,
        0 <= k < n <= x.count(),
        x.placement(k).export_mode == ModelInstanceExportMode::StockMapObjBase,
    ensures
        text::trimmed(x.placement(k).stock_map_obj_resource@).len() > 0,
        x.slot_index(k) is Some,
        x.slot(k).required_manager_name@.len() > 0,
        names.contains(x.slot(k).required_manager_name@),
        !x.slot(k).has_hold_dependency,
        !x.slot(k).has_move_dependency,
        x.slot(k).object_flags & 0x80 == 0,
        x.slot(k).uses_resource_name_model_fallback,
        x.slot(k).primary_model is Some,
        stock_path::stock_path(x.slot(k).primary_model->0@, ".bmd"@) is Ok,
        forall|j: int|
            0 <= j < k && #[trigger] x.has_mode(j, ModelInstanceExportMode::StockMapObjBase)
                && x.slot_index(j) is Some && x.slot(j).resource_name@ == x.slot(k).resource_name@
                ==> x.placement(j).asset_id == x.placement(k).asset_id,
        x.instances@[k].loader_flags == x.slot(k).load_flags,
        model_instances::first_error(x.instances@[k].loader_diagnostics@) is None,
        x.asset(k).compiled is Ok,
        model_instances::within_budget(x.asset(k).compiled->Ok_0.sections@),
        x.placement(k).transform.finite(),
        x.placement(k).collision_enabled ==> x.slot(k).collision_resources@.len() > 0 && x.asset(
            k,
        ).collision is Some && x.instances@[k].stock_collision.outcome is Ok,
        forall|c: int|
            0 <= c < x.slot(k).collision_resources@.len() ==> (#[trigger] x.stock_collision_path(
                k,
                c,
            )) is Ok && (x.placement(k).collision_enabled ==> (x.slot(
                k,
            ).collision_resources@[c].max_vertices matches Some(limit) ==> x.asset(
                k,
            ).collision->0.vertices@.len() <= limit)),
{
    search::lemma_no_fault(n, x.stock_check(names), k);
    assert(x.has_mode(k, ModelInstanceExportMode::StockMapObjBase));
    assert(x.stock_fault(names, k) is None);
    search::lemma_first_index(k as nat, x.fills_slot_of(k));
    assert forall|j: int|
        0 <= j < k && #[trigger] x.has_mode(j, ModelInstanceExportMode::StockMapObjBase)
            && x.slot_index(j) is Some && x.slot(j).resource_name@ == x.slot(
            k,
        ).resource_name@ implies x.placement(j).asset_id == x.placement(k).asset_id by {
        assert(!x.fills_slot_of(k)(j));
    }
    assert forall|c: int| 0 <= c < x.slot(k).collision_resources@.len() implies (
    #[trigger] x.stock_collision_path(k, c)) is Ok && (x.placement(k).collision_enabled ==> (x.slot(
        k,
    ).collision_resources@[c].max_vertices matches Some(limit) ==> x.asset(
        k,
    ).collision->0.vertices@.len() <= limit)) by {
        search::lemma_no_fault(x.slot(k).collision_resources@.len(), x.collision_check(k), c);
    }
}

/// Nothing is exported of an asset that is missing or has remarks left to acknowledge, and no
/// separate object whose model the actor loader cannot read, that is too large or that stands
/// nowhere.
pub proof fn law_exported_separate_objects_are_sound(
    x: ModelExport,
    base: stage_edits::StageArchiveEdits,
    record: SkyView,
    k: int,
)
    requires
        x.placed_edits(base, record) is Ok,
        0 <= k < x.count(),
    ensures
        exists|a: int|
            0 <= a < x.assets@.len() && (#[trigger] x.assets@[a]).asset_id == x.placement(
                k,
            ).asset_id && x.assets@[a].unacknowledged@.len() == 0,
        x.placement(k).export_mode == ModelInstanceExportMode::SeparateRuntimeObject
            ==> x.placement(k).transform.finite() && x.instances@[k].loader_flags == 0x0024_0000
            && model_instances::first_error(x.instances@[k].loader_diagnostics@) is None,
        x.placement(k).export_mode == ModelInstanceExportMode::MapTerrain
            ==> x.instances@[k].loader_flags == x.flags.map && model_instances::first_error(
            x.instances@[k].loader_diagnostics@,
        ) is None,
{
    search::lemma_no_fault(x.count(), x.admission(), k);
    search::lemma_first_position(x.assets@, model_export::has_asset_id(x.placement(k).asset_id));
    let a = x.asset_position(k)->0;
    assert(x.assets@[a].asset_id == x.placement(k).asset_id);
    let separate = ModelInstanceExportMode::SeparateRuntimeObject;
    let terrain = ModelInstanceExportMode::MapTerrain;
    assert(x.has_mode(k, x.placement(k).export_mode));
    if x.placement(k).export_mode == separate {
        assert(x.any_mode(separate));
        search::lemma_no_fault(x.count(), x.loader_check(separate), k);
        search::lemma_no_fault(x.count(), x.actor_check(), k);
    }
    if x.placement(k).export_mode == terrain {
        assert(x.any_mode(terrain));
        search::lemma_no_fault(x.count(), x.loader_check(terrain), k);
    }
}

/// A slot's resource may be written from the scene's root, from the map-object folder, or bare, in
/// any case of the folder: it is the same file of the archive.
pub proof fn law_stock_names_mean_the_same_file(rest: Seq<char>)
    ensures
        stock_path::relative_part("/scene/mapObj/"@ + rest) == Some(rest),
        stock_path::relative_part("scene/mapobj/"@ + rest) == Some(rest),
        stock_path::relative_part("mapobj/"@ + rest) == Some(rest),
        stock_path::relative_part("mapObj/"@ + rest) == Some(rest),
{
    reveal_strlit("/scene/mapObj/");
    reveal_strlit("/scene/mapobj/");
    reveal_strlit("scene/mapobj/");
    reveal_strlit("mapobj/");
    reveal_strlit("mapObj/");
    let a = "/scene/mapObj/"@ + rest;
    let b = "scene/mapobj/"@ + rest;
    let c = "mapobj/"@ + rest;
    let d = "mapObj/"@ + rest;
    assert(text::lower(a).subrange(0, 14) =~= "/scene/mapobj/"@);
    assert(a.skip(14) =~= rest);
    assert(text::lower(b).subrange(0, 13) =~= "scene/mapobj/"@);
    assert(b.skip(13) =~= rest);
    assert(text::lower(b)[0] == 's');
    assert(text::lower(c).subrange(0, 7) =~= "mapobj/"@);
    assert(c.skip(7) =~= rest);
    assert(text::lower(c)[0] == 'm');
    assert(text::lower(d).subrange(0, 7) =~= "mapobj/"@);
    assert(d.skip(7) =~= rest);
    assert(text::lower(d)[0] == 'm');
    if "/scene/mapobj/"@.is_prefix_of(text::lower(b)) {
        assert(text::lower(b).subrange(0, 14)[0] == '/');
    }
    if "/scene/mapobj/"@.is_prefix_of(text::lower(c)) {
        assert(text::lower(c).subrange(0, 14)[0] == '/');
    }
    if "scene/mapobj/"@.is_prefix_of(text::lower(c)) {
        assert(text::lower(c).subrange(0, 13)[0] == 's');
    }
    if "/scene/mapobj/"@.is_prefix_of(text::lower(d)) {
        assert(text::lower(d).subrange(0, 14)[0] == '/');
    }
    if "scene/mapobj/"@.is_prefix_of(text::lower(d)) {
        assert(text::lower(d).subrange(0, 13)[0] == 's');
    }
}

/// Numbers of placements are equal as numbers: a NaN equals nothing, both zeros are equal, and any
/// other two only with the same bits.
pub proof fn law_placements_compare_as_numbers(a: u32, b: u32)
    ensures
        0x7f80_0000 < a < 0x8000_0000 || a > 0xff80_0000 ==> !model_instances::floats_equal(a, b)
            && !model_instances::floats_equal(b, a),
        a <= 0x7f80_0000 || 0x8000_0000 <= a <= 0xff80_0000 ==> model_instances::floats_equal(a, a),
        model_instances::floats_equal(0, 0x8000_0000),
        model_instances::floats_equal(a, b) ==> a == b || ((a == 0 || a == 0x8000_0000) && (b == 0
            || b == 0x8000_0000)),
{
    assert((a & 0x7fff_ffffu32 > 0x7f80_0000u32) <==> ((0x7f80_0000u32 < a && a < 0x8000_0000u32)
        || a > 0xff80_0000u32)) by (bit_vector);
    assert(a & 0x7fff_ffffu32 == 0 ==> a == 0 || a == 0x8000_0000u32) by (bit_vector);
    assert(b & 0x7fff_ffffu32 == 0 ==> b == 0 || b == 0x8000_0000u32) by (bit_vector);
    assert(0u32 & 0x7fff_ffffu32 == 0 && 0x8000_0000u32 & 0x7fff_ffffu32 == 0) by (bit_vector);
}

/// A pending resource stands alone at its path: it takes the place of what was pending there, and
/// leaves every other path as it was.
pub proof fn law_a_resource_edit_stands_alone(
    edits: EditsView,
    path: Seq<u8>,
    operation: EditOperation,
    document: ResourceView,
    e: EditView<ResourceView>,
)
    ensures
        ({
            let after = edits.with_resource(path, operation, document);
            &&& after.resources.contains((EditView { path, operation, document }))
            &&& e.path == path ==> (after.resources.contains(e) <==> e.operation == operation
                && e.document == document)
            &&& e.path != path ==> (after.resources.contains(e) <==> edits.resources.contains(e))
            &&& !after.removals.contains(path)
            &&& after.models == edits.models
            &&& after.collisions == edits.collisions
            &&& after.inserts == edits.inserts
        }),
{
    let added = EditView { path, operation, document };
    lemma_holds(edits.resources, path, added, e);
    lemma_holds(edits.resources, path, added, added);
    lemma_removed(edits.removals, path);
}

/// A pending collision stands alone at its path: it takes the place of what was pending there,
/// and leaves every other path as it was.
pub proof fn law_a_collision_edit_stands_alone(
    edits: EditsView,
    path: Seq<u8>,
    document: CollisionDocument,
    e: EditView<CollisionDocument>,
)
    ensures
        ({
            let after = edits.with_collision(path, document);
            &&& after.collisions.contains((EditView { path, operation: EditOperation::Upsert, document }))
            &&& e.path == path ==> (after.collisions.contains(e) <==> e.operation == EditOperation::Upsert
                && e.document == document)
            &&& e.path != path ==> (after.collisions.contains(e) <==> edits.collisions.contains(e))
            &&& !after.removals.contains(path)
            &&& after.models == edits.models
            &&& after.resources == edits.resources
            &&& after.inserts == edits.inserts
        }),
{
    let added = EditView { path, operation: EditOperation::Upsert, document };
    lemma_holds(edits.collisions, path, added, e);
    lemma_holds(edits.collisions, path, added, added);
    lemma_removed(edits.removals, path);
}

/// A removal leaves the pending removals of other paths.
pub proof fn law_a_removal_keeps_the_others(edits: EditsView, path: Seq<u8>, other: Seq<u8>)
    requires
        other != path,
    ensures
        edits.with_removal(path).removals.contains(other) <==> edits.removals.contains(other),
{
    lemma_removed(edits.removals, path);
    let kept = stage_edits::without(edits.removals, path);
    let after = edits.with_removal(path).removals;
    assert(after == kept.push(path));
    if kept.contains(other) {
        let i = choose|i: int| 0 <= i < kept.len() && kept[i] == other;
        assert(after[i] == other);
    }
    if after.contains(other) {
        let i = choose|i: int| 0 <= i < after.len() && after[i] == other;
        assert(kept[i] == other);
    }
}

} // verus!
