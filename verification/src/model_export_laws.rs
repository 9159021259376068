//! What every stage export keeps.
use vstd::prelude::*;

use crate::ids;
use crate::model_export;
use crate::model_export::{ExportError, ModelExport, SkyView, StageArchive};
use crate::model_instances::ModelInstanceExportMode;
use crate::search;
use crate::sky_bundle;
use crate::sky_bundle::SkyTable;
use crate::stage_edits;
use crate::stage_edits::{
    CollisionDocument, DocumentId, EditOperation, EditView, EditsView, InsertView,
    StageArchiveEdits,
};
use crate::stock_path;

verus! {

/// Both sides hold the same model edits of `path`.
pub open spec fn same_models_at(a: EditsView, b: EditsView, path: Seq<u8>) -> bool {
    forall|e: EditView<DocumentId>|
        e.path == path ==> (#[trigger] a.models.contains(e) <==> b.models.contains(e))
}

/// The path of the world model.
pub open spec fn world_model_path() -> Seq<u8> {
    sky_bundle::bytes_of("map/map/map.bmd"@)
}

proof fn lemma_bytes_differ(a: Seq<char>, b: Seq<char>)
    requires
        a != b,
    ensures
        sky_bundle::bytes_of(a) != sky_bundle::bytes_of(b),
{
    vstd::utf8::encode_utf8_decode_utf8(a);
    vstd::utf8::encode_utf8_decode_utf8(b);
}

proof fn lemma_mapobj_is_not_world(rest: Seq<char>)
    ensures
        sky_bundle::bytes_of("mapobj/"@ + rest) != world_model_path(),
{
    reveal_strlit("mapobj/");
    reveal_strlit("map/map/map.bmd");
    assert(("mapobj/"@ + rest)[3] == 'o');
    assert("map/map/map.bmd"@[3] == '/');
    lemma_bytes_differ("mapobj/"@ + rest, "map/map/map.bmd"@);
}

proof fn lemma_other_model(
    a: EditsView,
    b: EditsView,
    path: Seq<u8>,
    operation: EditOperation,
    document: DocumentId,
    kept: Seq<u8>,
)
    requires
        same_models_at(a, b, kept),
        path != kept,
    ensures
        same_models_at(a.with_model(path, operation, document), b, kept),
{
    let others = stage_edits::without_path(a.models, path);
    let pred = |e: EditView<DocumentId>| e.path != path;
    assert(others == a.models.filter(pred));
    let after = a.with_model(path, operation, document).models;
    let added = EditView { path, operation, document };
    assert(after == others.push(added));
    assert forall|e: EditView<DocumentId>| e.path == kept implies (#[trigger] after.contains(e)
        <==> b.models.contains(e)) by {
        assert(a.models.contains(e) <==> b.models.contains(e));
        if after.contains(e) {
            let i = choose|i: int| 0 <= i < after.len() && after[i] == e;
            assert(i < others.len());
            assert(others[i] == e);
            assert(others.contains(e));
            a.models.lemma_filter_contains_rev(pred, e);
        }
        if a.models.contains(e) {
            let i = choose|i: int| 0 <= i < a.models.len() && a.models[i] == e;
            a.models.lemma_filter_contains(pred, i);
            let j = choose|j: int| 0 <= j < others.len() && others[j] == e;
            assert(after[j] == e);
        }
    }
}

proof fn lemma_separate_models_keep_world(x: ModelExport, edits: EditsView, list: Seq<u128>)
    ensures
        same_models_at(x.with_separate_models(edits, list), edits, world_model_path()),
    decreases list.len(),
{
    if list.len() > 0 {
        lemma_separate_models_keep_world(x, edits, list.drop_last());
        let key = ids::resource_key(list.last());
        assert("mapobj/"@ + key + "/default.bmd"@ =~= "mapobj/"@ + (key + "/default.bmd"@));
        lemma_mapobj_is_not_world(key + "/default.bmd"@);
        lemma_other_model(
            x.with_separate_models(edits, list.drop_last()),
            edits,
            model_export::separate_model_path(list.last()),
            EditOperation::Upsert,
            x.asset(x.first_separate(list.last())).compiled->Ok_0.document,
            world_model_path(),
        );
    }
}

proof fn lemma_character_inserts_keep_models(
    edits: EditsView,
    parent: Seq<usize>,
    list: Seq<u128>,
)
    ensures
        model_export::with_character_inserts(edits, parent, list).models == edits.models,
    decreases list.len(),
{
    if list.len() > 0 {
        lemma_character_inserts_keep_models(edits, parent, list.drop_last());
    }
}

proof fn lemma_actors_keep_models(x: ModelExport, edits: EditsView, parent: Seq<usize>, n: nat)
    ensures
        x.with_actors(edits, parent, n).models == edits.models,
    decreases n,
{
    if n > 0 {
        lemma_actors_keep_models(x, edits, parent, (n - 1) as nat);
    }
}

proof fn lemma_stock_collisions_keep_models(x: ModelExport, edits: EditsView, k: int, n: nat)
    ensures
        x.with_stock_collisions(edits, k, n).models == edits.models,
    decreases n,
{
    if n > 0 {
        lemma_stock_collisions_keep_models(x, edits, k, (n - 1) as nat);
    }
}

proof fn lemma_stock_objects_keep_world(
    x: ModelExport,
    names: Seq<Seq<char>>,
    edits: EditsView,
    parent: Seq<usize>,
    n: nat,
)
    requires
        search::first_fault(n, x.stock_check(names)) is None,
    ensures
        same_models_at(x.with_stock_objects(edits, parent, n), edits, world_model_path()),
    decreases n,
{
    if n > 0 {
        let k = n - 1;
        let rest = x.with_stock_objects(edits, parent, k as nat);
        lemma_stock_objects_keep_world(x, names, edits, parent, k as nat);
        if x.has_mode(k, ModelInstanceExportMode::StockMapObjBase) {
            assert(x.stock_check(names)(k) is None);
            assert(x.stock_fault(names, k) is None);
            let path = x.stock_model_path(k)->Ok_0;
            stock_path::law_stock_path_is_contained(x.slot(k).primary_model->0@, ".bmd"@);
            let below = path.skip("mapobj/"@.len() as int);
            assert(path =~= "mapobj/"@ + below);
            lemma_mapobj_is_not_world(below);
            let document = x.asset(k).compiled->Ok_0.document;
            lemma_other_model(
                rest,
                edits,
                sky_bundle::bytes_of(path),
                EditOperation::Upsert,
                document,
                world_model_path(),
            );
            let placed = rest.with_model(
                sky_bundle::bytes_of(path),
                EditOperation::Upsert,
                document,
            ).with_insert(
                InsertView {
                    path: model_export::scene_path(),
                    parent,
                    record: model_export::stock_record(
                        x.placement(k),
                        x.slot(k).resource_name@,
                    ),
                },
            );
            lemma_stock_collisions_keep_models(
                x,
                placed,
                k,
                x.slot(k).collision_resources@.len(),
            );
        }
    }
}

proof fn lemma_same_models_chain(a: EditsView, b: EditsView, c: EditsView, path: Seq<u8>)
    requires
        same_models_at(a, b, path),
        same_models_at(b, c, path),
    ensures
        same_models_at(a, c, path),
{
    assert forall|e: EditView<DocumentId>| e.path == path implies (#[trigger] a.models.contains(e)
        <==> c.models.contains(e)) by {
        assert(a.models.contains(e) <==> b.models.contains(e));
        assert(b.models.contains(e) <==> c.models.contains(e));
    }
}

/// Without a map-terrain instance an export leaves the world model as it was: separate objects,
/// stock replacements and skyboxes never touch it.
pub proof fn law_world_model_is_replaced_only_by_terrain(
    x: ModelExport,
    base: StageArchiveEdits,
    record: SkyView,
)
    requires
        !x.any_mode(ModelInstanceExportMode::MapTerrain),
    ensures
        x.placed_edits(base, record) matches Ok(edits) ==> same_models_at(
            edits,
            base@,
            world_model_path(),
        ),
{
    if let Ok(edits) = x.placed_edits(base, record) {
        let e1 = x.separate_edits(base@)->Ok_0;
        let e2 = x.stock_edits(base, e1)->Ok_0;
        let e3 = x.terrain_edits(e2)->Ok_0;
        let e4 = x.sky_edits(e3, record)->Ok_0;
        assert(e3 == e2);
        assert(edits.models == e4.models);
        if x.any_mode(ModelInstanceExportMode::SeparateRuntimeObject) {
            let list = x.separate_ids(x.count());
            let modeled = x.with_separate_models(base@, list);
            lemma_separate_models_keep_world(x, base@, list);
            let archive: StageArchive = *x.archive->0;
            let tabled = model_export::with_characters(archive, modeled, list)->Ok_0;
            if let Some(document) = model_export::archive_document(
                archive,
                model_export::tables_path(),
            ) {
                lemma_character_inserts_keep_models(
                    modeled,
                    crate::jdrama::group_path(
                        model_export::tree_of(document)->0,
                        "NameRefGrp"@,
                    )->0,
                    list,
                );
            }
            assert(tabled.models == modeled.models);
            let parent = model_export::parent_of(
                archive.runtime_map_group,
                ExportError::RuntimeGroupLookup,
                ExportError::RuntimeGroupMissing,
            )->Ok_0;
            lemma_actors_keep_models(x, tabled, parent, x.count());
        }
        assert(same_models_at(e1, base@, world_model_path()));
        if x.any_mode(ModelInstanceExportMode::StockMapObjBase) {
            let parent = model_export::parent_of(
                x.archive->0.object_group,
                ExportError::ObjectGroupLookup,
                ExportError::ObjectGroupMissing,
            )->Ok_0;
            let names = model_export::scene_names(*x.archive->0, base)->0;
            lemma_stock_objects_keep_world(x, names, e1, parent, x.count());
        }
        assert(same_models_at(e2, e1, world_model_path()));
        lemma_same_models_chain(e2, e1, base@, world_model_path());
        if let Some(k) = search::first_index(x.count(), x.is_skybox()) {
            reveal_strlit("map/map/sky.bmd");
            reveal_strlit("map/map/map.bmd");
            assert("map/map/sky.bmd"@[8] == 's');
            assert("map/map/map.bmd"@[8] == 'm');
            lemma_bytes_differ("map/map/sky.bmd"@, "map/map/map.bmd"@);
            lemma_other_model(
                e2,
                base@,
                sky_bundle::bytes_of("map/map/sky.bmd"@),
                EditOperation::Upsert,
                x.asset(k).compiled->Ok_0.document,
                world_model_path(),
            );
        }
    }
}

/// A strictly ascending list.
pub open spec fn ascending(list: Seq<u128>) -> bool {
    forall|i: int, j: int| 0 <= i < j < list.len() ==> #[trigger] list[i] < #[trigger] list[j]
}

proof fn lemma_with_id_stays_above(list: Seq<u128>, id: u128, bound: u128)
    requires
        bound < id,
        forall|i: int| 0 <= i < list.len() ==> bound < #[trigger] list[i],
    ensures
        forall|i: int|
            0 <= i < model_export::with_id(list, id).len() ==> bound
                < #[trigger] model_export::with_id(list, id)[i],
    decreases list.len(),
{
    let r = model_export::with_id(list, id);
    if list.len() > 0 && list[0] < id {
        let tail = model_export::with_id(list.drop_first(), id);
        lemma_with_id_stays_above(list.drop_first(), id, bound);
        assert forall|i: int| 0 <= i < r.len() implies bound < #[trigger] r[i] by {
            if i > 0 {
                assert(r[i] == tail[i - 1]);
            }
        }
    } else if list.len() > 0 && list[0] != id {
        assert forall|i: int| 0 <= i < r.len() implies bound < #[trigger] r[i] by {
            if i > 0 {
                assert(r[i] == list[i - 1]);
            }
        }
    }
}

proof fn lemma_with_id_ascends(list: Seq<u128>, id: u128)
    requires
        ascending(list),
    ensures
        ascending(model_export::with_id(list, id)),
    decreases list.len(),
{
    let r = model_export::with_id(list, id);
    if list.len() > 0 && list[0] < id {
        let rest = list.drop_first();
        let tail = model_export::with_id(rest, id);
        lemma_with_id_ascends(rest, id);
        lemma_with_id_stays_above(rest, id, list[0]);
        assert forall|i: int, j: int| 0 <= i < j < r.len() implies #[trigger] r[i]
            < #[trigger] r[j] by {
            assert(r[j] == tail[j - 1]);
            if i > 0 {
                assert(r[i] == tail[i - 1]);
            }
        }
    } else if list.len() > 0 && list[0] != id {
        assert forall|i: int, j: int| 0 <= i < j < r.len() implies #[trigger] r[i]
            < #[trigger] r[j] by {
            assert(r[j] == list[j - 1]);
            if i > 0 {
                assert(r[i] == list[i - 1]);
            } else if j > 1 {
                assert(list[0] < list[j - 1]);
            }
        }
    }
}

/// Each asset of a separate object is exported once: the identifiers ascend strictly.
pub proof fn law_separate_assets_are_distinct(x: ModelExport, n: nat)
    ensures
        ascending(x.separate_ids(n)),
    decreases n,
{
    if n > 0 {
        law_separate_assets_are_distinct(x, (n - 1) as nat);
        lemma_with_id_ascends(
            x.separate_ids((n - 1) as nat),
            x.placement(n - 1).asset_id,
        );
    }
}

/// A stage without placed models keeps its pending edits, up to the reflected sky.
pub proof fn law_nothing_placed_changes_nothing(
    x: ModelExport,
    base: StageArchiveEdits,
    record: SkyView,
)
    requires
        x.count() == 0,
    ensures
        x.placed_edits(base, record) == Ok::<EditsView, ExportError>(base@),
{
    assert(!x.any_mode(ModelInstanceExportMode::SeparateRuntimeObject));
    assert(!x.any_mode(ModelInstanceExportMode::StockMapObjBase));
    assert(!x.any_mode(ModelInstanceExportMode::MapTerrain));
}

pub(crate) proof fn lemma_kept_edits<V>(edits: Seq<EditView<V>>, path: Seq<u8>, e: EditView<V>)
    ensures
        stage_edits::without_path(edits, path).contains(e) <==> edits.contains(e) && e.path != path,
{
    let p = |e: EditView<V>| e.path != path;
    let kept = stage_edits::without_path(edits, path);
    assert(kept == edits.filter(p));
    edits.filter_lemma(p);
    if kept.contains(e) {
        let i = choose|i: int| 0 <= i < kept.len() && kept[i] == e;
        assert(p(edits.filter(p)[i]));
        edits.lemma_filter_contains_rev(p, e);
    }
    if edits.contains(e) && e.path != path {
        let i = choose|i: int| 0 <= i < edits.len() && edits[i] == e;
        edits.lemma_filter_contains(p, i);
    }
}

/// The collision edits hold an empty file at a path.
pub open spec fn empties(edits: EditsView, path: Seq<u8>) -> bool {
    exists|e: EditView<CollisionDocument>| #[trigger]
        edits.collisions.contains(e) && e.path == path && e.document == CollisionDocument::Empty
}

/// A stock placement with collision switched off leaves an empty file in every collision resource
/// of its slot, and nothing of the collision it could have brought: what else is pending was
/// pending before.
pub proof fn law_disabled_stock_collision_is_empty(x: ModelExport, edits: EditsView, k: int, n: nat)
    requires
        !x.placement(k).collision_enabled,
    ensures
        forall|i: int|
            0 <= i < n ==> empties(
                x.with_stock_collisions(edits, k, n),
                sky_bundle::bytes_of((#[trigger] x.stock_collision_path(k, i))->Ok_0),
            ),
        forall|e: EditView<CollisionDocument>|
            #[trigger] x.with_stock_collisions(edits, k, n).collisions.contains(e) ==> e.document
                == CollisionDocument::Empty || edits.collisions.contains(e),
    decreases n,
{
    if n > 0 {
        law_disabled_stock_collision_is_empty(x, edits, k, (n - 1) as nat);
        let rest = x.with_stock_collisions(edits, k, (n - 1) as nat);
        let all = x.with_stock_collisions(edits, k, n);
        let path = sky_bundle::bytes_of(x.stock_collision_path(k, n - 1)->Ok_0);
        let added = EditView {
            path,
            operation: EditOperation::Upsert,
            document: CollisionDocument::Empty,
        };
        let kept = stage_edits::without_path(rest.collisions, path);
        assert(all.collisions == kept.push(added));
        assert(all.collisions[all.collisions.len() - 1] == added);
        assert(all.collisions.contains(added));
        assert(empties(all, path));
        assert forall|i: int| 0 <= i < n implies empties(
            all,
            sky_bundle::bytes_of((#[trigger] x.stock_collision_path(k, i))->Ok_0),
        ) by {
            let wanted = sky_bundle::bytes_of(x.stock_collision_path(k, i)->Ok_0);
            if wanted != path {
                let e = choose|e: EditView<CollisionDocument>| #[trigger]
                    rest.collisions.contains(e) && e.path == wanted && e.document
                        == CollisionDocument::Empty;
                lemma_kept_edits(rest.collisions, path, e);
                let j = choose|j: int| 0 <= j < kept.len() && kept[j] == e;
                assert(all.collisions[j] == e);
                assert(all.collisions.contains(e));
            }
        }
        assert forall|e: EditView<CollisionDocument>| #[trigger]
            all.collisions.contains(e) implies e.document == CollisionDocument::Empty
            || edits.collisions.contains(e) by {
            let j = choose|j: int| 0 <= j < all.collisions.len() && all.collisions[j] == e;
            if j < kept.len() {
                assert(kept[j] == e);
                assert(kept.contains(e));
                lemma_kept_edits(rest.collisions, path, e);
                assert(rest.collisions.contains(e));
            }
        }
    }
}

/// Only the cancel flag cancels an export: what an export does to a stage is never a
/// cancellation.
pub proof fn law_only_the_flag_cancels(
    x: ModelExport,
    base: StageArchiveEdits,
    record: SkyView,
    table: Option<SkyTable>,
)
    ensures
        x.exported(base, record, table) != Err::<EditsView, ExportError>(ExportError::Cancelled),
{
    let ids = x.separate_ids(x.count());
    search::lemma_fault_has_an_item(x.count(), x.admission());
    search::lemma_fault_has_an_item(
        x.count(),
        x.loader_check(ModelInstanceExportMode::SeparateRuntimeObject),
    );
    search::lemma_fault_has_an_item(
        x.count(),
        x.loader_check(ModelInstanceExportMode::MapTerrain),
    );
    search::lemma_fault_has_an_item(ids.len(), x.separate_model_check(ids));
    search::lemma_fault_has_an_item(x.count(), x.actor_check());
    if x.archive is Some {
        if let Some(names) = model_export::scene_names(*x.archive->0, base) {
            search::lemma_fault_has_an_item(x.count(), x.stock_check(names));
        }
    }
}

/// An export that succeeds has put exactly the right instances into the documents of the world:
/// all map terrain into the model, and all separate objects and all map terrain into the
/// collision, each in order.
pub proof fn law_world_documents_are_whole(
    x: ModelExport,
    base: StageArchiveEdits,
    record: SkyView,
    table: Option<SkyTable>,
)
    requires
        x.exported(base, record, table) is Ok,
    ensures
        x.any_mode(ModelInstanceExportMode::MapTerrain) ==> x.terrain.parts@
            == model_export::terrain_parts(x.instances@) && x.terrain.outcome is Ok,
        x.any_mode(ModelInstanceExportMode::SeparateRuntimeObject) || x.any_mode(
            ModelInstanceExportMode::MapTerrain,
        ) ==> x.placed_collision.parts@ == model_export::collision_parts(x.instances@)
            && x.placed_collision.outcome is Ok,
{
}

} // verus!
