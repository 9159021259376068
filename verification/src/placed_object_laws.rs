//! What the game finds of the models that an export places: every actor has its character, every
//! character its folder, and every folder its model.
use vstd::prelude::*;

use crate::ids;
use crate::jdrama;
use crate::jdrama::{FieldValueView, JDramaTransform, PayloadView, RecordView};
use crate::model_export;
use crate::model_export::{ExportError, ModelExport, SkyView, StageArchive};
use crate::model_export_laws;
use crate::model_instances::ModelInstanceExportMode;
use crate::search;
use crate::sky_bundle;
use crate::sky_bundle::SkyTable;
use crate::stage_edits;
use crate::stage_edits::{
    DocumentId, EditOperation, EditView, EditsView, InsertView, StageArchiveEdits,
};

verus! {

/// The record is an actor at a transform that is drawn as the character `name`.
pub open spec fn is_actor_of(record: RecordView, transform: JDramaTransform, name: Seq<char>) -> bool {
    &&& record.record_type == "SmJ3DAct"@
    &&& record.payload matches PayloadView::Actor { transform: at, character_name, fields }
    &&& at == transform
    &&& character_name == name
    &&& fields.len() == 0
}

/// The record is the character `name`, whose resources lie in the scene's folder `key`.
pub open spec fn is_character_in(record: RecordView, name: Seq<char>, key: Seq<char>) -> bool {
    &&& record.record_type == "ObjChara"@
    &&& record.name == name
    &&& record.payload matches PayloadView::Fields { fields }
    &&& fields.len() == 1
    &&& fields[0].name == "resource_folder"@
    &&& fields[0].value == FieldValueView::Text("/scene/mapObj/"@ + key)
}

/// The edits insert such an actor below the group, behind the first `from` insertions.
pub open spec fn brings_actor(
    edits: EditsView,
    from: nat,
    group: Seq<usize>,
    transform: JDramaTransform,
    name: Seq<char>,
) -> bool {
    exists|i: int|
        from <= i < edits.inserts.len() && (#[trigger] edits.inserts[i]).path
            == sky_bundle::bytes_of("map/scene.bin"@) && edits.inserts[i].parent == group
            && is_actor_of(edits.inserts[i].record, transform, name)
}

/// A record inserted behind the first `from` is such a character of the tables.
pub open spec fn inserts_character(
    edits: EditsView,
    from: nat,
    name: Seq<char>,
    key: Seq<char>,
) -> bool {
    exists|i: int|
        from <= i < edits.inserts.len() && (#[trigger] edits.inserts[i]).path
            == sky_bundle::bytes_of("map/tables.bin"@) && is_character_in(
            edits.inserts[i].record,
            name,
            key,
        )
}

/// New tables hold such a character.
pub open spec fn writes_character(edits: EditsView, name: Seq<char>, key: Seq<char>) -> bool {
    exists|i: int, j: int|
        #![trigger edits.resources[i].document->Placement_0.payload->Group_children[j]]
        0 <= i < edits.resources.len() && edits.resources[i].path == sky_bundle::bytes_of(
            "map/tables.bin"@,
        ) && edits.resources[i].document is Placement
            && edits.resources[i].document->Placement_0.payload is Group && 0 <= j
            < edits.resources[i].document->Placement_0.payload->Group_children.len()
            && is_character_in(
            edits.resources[i].document->Placement_0.payload->Group_children[j],
            name,
            key,
        )
}

/// The edits bring such a character into the character tables.
pub open spec fn brings_character(
    edits: EditsView,
    from: nat,
    name: Seq<char>,
    key: Seq<char>,
) -> bool {
    inserts_character(edits, from, name, key) || writes_character(edits, name, key)
}

/// The edits put this model into the scene's folder `key`.
pub open spec fn brings_model(edits: EditsView, key: Seq<char>, document: DocumentId) -> bool {
    edits.models.contains(
        EditView {
            path: sky_bundle::bytes_of("mapobj/"@ + key + "/default.bmd"@),
            operation: EditOperation::Upsert,
            document,
        },
    )
}

/// The document is the compiled model of an asset.
pub open spec fn is_model_of(x: ModelExport, asset_id: u128, document: DocumentId) -> bool {
    exists|a: int|
        0 <= a < x.assets@.len() && (#[trigger] x.assets@[a]).asset_id == asset_id
            && x.assets@[a].compiled is Ok && x.assets@[a].compiled->Ok_0.document == document
}

/// The insertions of `b` begin with those of `a`.
pub open spec fn goes_on(a: EditsView, b: EditsView) -> bool {
    &&& a.inserts.len() <= b.inserts.len()
    &&& forall|i: int| 0 <= i < a.inserts.len() ==> #[trigger] b.inserts[i] == a.inserts[i]
}

proof fn lemma_with_id_holds(list: Seq<u128>, id: u128, other: u128)
    requires
        other == id || list.contains(other),
    ensures
        model_export::with_id(list, id).contains(other),
    decreases list.len(),
{
    let r = model_export::with_id(list, id);
    if list.len() == 0 {
        assert(r[0] == id);
    } else if list[0] < id {
        let tail = model_export::with_id(list.drop_first(), id);
        if other == list[0] {
            assert(r[0] == other);
        } else {
            if other != id {
                let i = choose|i: int| 0 <= i < list.len() && list[i] == other;
                assert(list.drop_first()[i - 1] == other);
            }
            lemma_with_id_holds(list.drop_first(), id, other);
            let i = choose|i: int| 0 <= i < tail.len() && tail[i] == other;
            assert(r[i + 1] == other);
        }
    } else if list[0] == id {
        assert(list[0] == id);
    } else if other == id {
        assert(r[0] == other);
    } else {
        let i = choose|i: int| 0 <= i < list.len() && list[i] == other;
        assert(r[i + 1] == other);
    }
}

proof fn lemma_separate_ids_hold(x: ModelExport, n: nat, k: int)
    requires
        0 <= k < n,
        x.placement(k).export_mode == ModelInstanceExportMode::SeparateRuntimeObject,
    ensures
        x.separate_ids(n).contains(x.placement(k).asset_id),
    decreases n,
{
    let rest = x.separate_ids((n - 1) as nat);
    if k < n - 1 {
        lemma_separate_ids_hold(x, (n - 1) as nat, k);
    }
    if x.has_mode(n - 1, ModelInstanceExportMode::SeparateRuntimeObject) {
        lemma_with_id_holds(rest, x.placement(n - 1).asset_id, x.placement(k).asset_id);
    }
}

proof fn lemma_model_paths_differ(a: u128, b: u128)
    requires
        a != b,
    ensures
        model_export::separate_model_path(a) != model_export::separate_model_path(b),
{
    ids::law_resource_keys_are_distinct(a, b);
    let n = "mapobj/"@.len() as int;
    let p = "mapobj/"@ + ids::resource_key(a) + "/default.bmd"@;
    let q = "mapobj/"@ + ids::resource_key(b) + "/default.bmd"@;
    if p == q {
        let e = "/default.bmd"@.len() as int;
        assert(p.subrange(n, p.len() - e) =~= ids::resource_key(a));
        assert(q.subrange(n, q.len() - e) =~= ids::resource_key(b));
    }
    vstd::utf8::encode_utf8_decode_utf8(p);
    vstd::utf8::encode_utf8_decode_utf8(q);
}

proof fn lemma_separate_models(x: ModelExport, edits: EditsView, list: Seq<u128>, i: int)
    requires
        0 <= i < list.len(),
        model_export_laws::ascending(list),
    ensures
        x.with_separate_models(edits, list).models.contains(
            (EditView {
                path: model_export::separate_model_path(list[i]),
                operation: EditOperation::Upsert,
                document: x.asset(x.first_separate(list[i])).compiled->Ok_0.document,
            }),
        ),
    decreases list.len(),
{
    let done = x.with_separate_models(edits, list).models;
    let added = EditView {
        path: model_export::separate_model_path(list[i]),
        operation: EditOperation::Upsert,
        document: x.asset(x.first_separate(list[i])).compiled->Ok_0.document,
    };
    if i == list.len() - 1 {
        assert(done[done.len() - 1] == added);
    } else {
        let before = list.drop_last();
        assert forall|p: int, q: int| 0 <= p < q < before.len() implies #[trigger] before[p]
            < #[trigger] before[q] by {
            assert(list[p] < list[q]);
        }
        lemma_separate_models(x, edits, before, i);
        assert(list[i] < list[list.len() - 1]);
        lemma_model_paths_differ(list[i], list.last());
        let rest = x.with_separate_models(edits, before).models;
        let path = model_export::separate_model_path(list.last());
        model_export_laws::lemma_kept_edits(rest, path, added);
        let kept = stage_edits::without_path(rest, path);
        let j = choose|j: int| 0 <= j < kept.len() && kept[j] == added;
        assert(done[j] == added);
    }
}

proof fn lemma_models_keep_inserts(x: ModelExport, edits: EditsView, list: Seq<u128>)
    ensures
        x.with_separate_models(edits, list).inserts == edits.inserts,
    decreases list.len(),
{
    if list.len() > 0 {
        lemma_models_keep_inserts(x, edits, list.drop_last());
    }
}

proof fn lemma_character_inserts(edits: EditsView, parent: Seq<usize>, list: Seq<u128>)
    ensures
        ({
            let done = model_export::with_character_inserts(edits, parent, list);
            &&& done.models == edits.models
            &&& goes_on(edits, done)
            &&& done.inserts.len() == edits.inserts.len() + list.len()
            &&& forall|i: int|
                0 <= i < list.len() ==> #[trigger] done.inserts[edits.inserts.len() + i] == (
                InsertView {
                    path: sky_bundle::bytes_of("map/tables.bin"@),
                    parent,
                    record: model_export::chara_record(list[i]),
                })
        }),
    decreases list.len(),
{
    if list.len() > 0 {
        lemma_character_inserts(edits, parent, list.drop_last());
        let rest = model_export::with_character_inserts(edits, parent, list.drop_last());
        let done = model_export::with_character_inserts(edits, parent, list);
        assert forall|i: int| 0 <= i < edits.inserts.len() implies #[trigger] done.inserts[i]
            == edits.inserts[i] by {
            assert(done.inserts[i] == rest.inserts[i]);
        }
        assert forall|i: int| 0 <= i < list.len() implies #[trigger] done.inserts[
        edits.inserts.len() + i] == (InsertView {
            path: sky_bundle::bytes_of("map/tables.bin"@),
            parent,
            record: model_export::chara_record(list[i]),
        }) by {
            if i < list.len() - 1 {
                assert(done.inserts[edits.inserts.len() + i] == rest.inserts[edits.inserts.len()
                    + i]);
                assert(list.drop_last()[i] == list[i]);
            }
        }
    }
}

proof fn lemma_actors_go_on(x: ModelExport, edits: EditsView, parent: Seq<usize>, n: nat)
    ensures
        x.with_actors(edits, parent, n).models == edits.models,
        x.with_actors(edits, parent, n).resources == edits.resources,
        goes_on(edits, x.with_actors(edits, parent, n)),
    decreases n,
{
    if n > 0 {
        lemma_actors_go_on(x, edits, parent, (n - 1) as nat);
        let rest = x.with_actors(edits, parent, (n - 1) as nat).inserts;
        let done = x.with_actors(edits, parent, n).inserts;
        assert(forall|i: int| 0 <= i < rest.len() ==> #[trigger] done[i] == rest[i]);
    }
}

/// The position of the actor of a separate object.
proof fn lemma_actor_position(
    x: ModelExport,
    edits: EditsView,
    parent: Seq<usize>,
    n: nat,
    k: int,
) -> (i: int)
    requires
        0 <= k < n,
        x.placement(k).export_mode == ModelInstanceExportMode::SeparateRuntimeObject,
    ensures
        edits.inserts.len() <= i < x.with_actors(edits, parent, n).inserts.len(),
        x.with_actors(edits, parent, n).inserts[i].path == sky_bundle::bytes_of("map/scene.bin"@),
        x.with_actors(edits, parent, n).inserts[i].parent == parent,
        x.with_actors(edits, parent, n).inserts[i].record == model_export::actor_record(
            x.placement(k),
        ),
    decreases n,
{
    let rest = x.with_actors(edits, parent, (n - 1) as nat).inserts;
    let done = x.with_actors(edits, parent, n).inserts;
    if k < n - 1 {
        let i = lemma_actor_position(x, edits, parent, (n - 1) as nat, k);
        assert(done[i] == rest[i]);
        i
    } else {
        lemma_actors_go_on(x, edits, parent, (n - 1) as nat);
        assert(x.has_mode(n - 1, ModelInstanceExportMode::SeparateRuntimeObject));
        done.len() - 1
    }
}

/// The separate object of an actor.
proof fn lemma_actor_source(
    x: ModelExport,
    edits: EditsView,
    parent: Seq<usize>,
    n: nat,
    i: int,
) -> (k: int)
    requires
        edits.inserts.len() <= i < x.with_actors(edits, parent, n).inserts.len(),
    ensures
        0 <= k < n,
        x.has_mode(k, ModelInstanceExportMode::SeparateRuntimeObject),
        x.with_actors(edits, parent, n).inserts[i].record == model_export::actor_record(
            x.placement(k),
        ),
    decreases n,
{
    let rest = x.with_actors(edits, parent, (n - 1) as nat).inserts;
    let done = x.with_actors(edits, parent, n).inserts;
    if i < rest.len() {
        let k = lemma_actor_source(x, edits, parent, (n - 1) as nat, i);
        assert(done[i] == rest[i]);
        k
    } else {
        n - 1
    }
}

proof fn lemma_record_types()
    ensures
        "SmJ3DAct"@ != "ObjChara"@,
        "SmJ3DAct"@ != "MapObjBase"@,
        !model_export::is_sky_type("SmJ3DAct"@),
{
    reveal_strlit("SmJ3DAct");
    reveal_strlit("ObjChara");
    reveal_strlit("MapObjBase");
    reveal_strlit("Sky");
    reveal_strlit("::Sky");
    assert("SmJ3DAct"@[0] == 'S');
    assert("ObjChara"@[0] == 'O');
    assert("SmJ3DAct"@.len() == 8);
    assert("MapObjBase"@.len() == 10);
    assert("Sky"@.len() == 3);
    if "::Sky"@.is_suffix_of("SmJ3DAct"@) {
        assert("SmJ3DAct"@.subrange(3, 8)[0] == ':');
        assert("SmJ3DAct"@[3] == '3');
    }
}

/// The steps of an export of separate objects that succeeds.
proof fn lemma_separate_steps(x: ModelExport, base: EditsView, k: int) -> (r: (
    EditsView,
    Seq<usize>,
))
    requires
        0 <= k < x.count(),
        x.placement(k).export_mode == ModelInstanceExportMode::SeparateRuntimeObject,
        x.separate_edits(base) is Ok,
    ensures
        x.archive is Some,
        x.archive->0.runtime_map_group is Ok,
        x.archive->0.runtime_map_group->Ok_0 is Some,
        r.1 == x.archive->0.runtime_map_group->Ok_0->0@,
        model_export::with_characters(
            *x.archive->0,
            x.with_separate_models(base, x.separate_ids(x.count())),
            x.separate_ids(x.count()),
        ) == Ok::<EditsView, ExportError>(r.0),
        x.separate_edits(base)->Ok_0 == x.with_actors(r.0, r.1, x.count()),
        search::first_fault(
            x.separate_ids(x.count()).len(),
            x.separate_model_check(x.separate_ids(x.count())),
        ) is None,
{
    assert(x.has_mode(k, ModelInstanceExportMode::SeparateRuntimeObject));
    assert(x.any_mode(ModelInstanceExportMode::SeparateRuntimeObject));
    let archive: StageArchive = *x.archive->0;
    let parent = model_export::parent_of(
        archive.runtime_map_group,
        ExportError::RuntimeGroupLookup,
        ExportError::RuntimeGroupMissing,
    )->Ok_0;
    let list = x.separate_ids(x.count());
    (
        model_export::with_characters(archive, x.with_separate_models(base, list), list)->Ok_0,
        parent,
    )
}

proof fn lemma_characters(archive: StageArchive, modeled: EditsView, list: Seq<u128>, at: int)
    requires
        0 <= at < list.len(),
        model_export::with_characters(archive, modeled, list) is Ok,
    ensures
        ({
            let tabled = model_export::with_characters(archive, modeled, list)->Ok_0;
            &&& tabled.models == modeled.models
            &&& goes_on(modeled, tabled)
            &&& brings_character(
                tabled,
                modeled.inserts.len(),
                model_export::chara_record(list[at]).name,
                ids::resource_key(list[at]),
            )
            &&& forall|i: int|
                modeled.inserts.len() <= i < tabled.inserts.len() ==> (
                #[trigger] tabled.inserts[i]).record.record_type == "ObjChara"@
        }),
{
    let tabled = model_export::with_characters(archive, modeled, list)->Ok_0;
    let chara = model_export::chara_record(list[at]);
    let name = chara.name;
    let key = ids::resource_key(list[at]);
    assert(is_character_in(chara, name, key));
    match model_export::archive_document(archive, model_export::tables_path()) {
        None => {
            let last = tabled.resources.len() - 1;
            assert(tabled.resources[last].document->Placement_0.payload->Group_children[at]
                == chara);
            assert(writes_character(tabled, name, key));
        },
        Some(document) => {
            let group = jdrama::group_path(
                model_export::tree_of(document)->0,
                "NameRefGrp"@,
            )->0;
            lemma_character_inserts(modeled, group, list);
            assert(tabled.inserts[modeled.inserts.len() + at].record == chara);
            assert(inserts_character(tabled, modeled.inserts.len(), name, key));
            assert forall|i: int|
                modeled.inserts.len() <= i < tabled.inserts.len() implies (
            #[trigger] tabled.inserts[i]).record.record_type == "ObjChara"@ by {
                let j = i - modeled.inserts.len();
                assert(tabled.inserts[modeled.inserts.len() + j].record
                    == model_export::chara_record(list[j]));
            }
        },
    }
}

/// What an export of separate objects does for one of them.
proof fn lemma_separate_export(x: ModelExport, base: EditsView, k: int)
    requires
        0 <= k < x.count(),
        x.placement(k).export_mode == ModelInstanceExportMode::SeparateRuntimeObject,
        x.separate_edits(base) is Ok,
    ensures
        ({
            let edits = x.separate_edits(base)->Ok_0;
            let name = model_export::actor_record(x.placement(k)).payload->Actor_character_name;
            let key = ids::resource_key(x.placement(k).asset_id);
            &&& goes_on(base, edits)
            &&& brings_actor(
                edits,
                base.inserts.len(),
                x.archive->0.runtime_map_group->Ok_0->0@,
                x.placement(k).transform,
                name,
            )
            &&& brings_character(edits, base.inserts.len(), name, key)
            &&& brings_model(edits, key, x.asset(k).compiled->Ok_0.document)
            &&& x.asset_position(k) is Some ==> is_model_of(
                x,
                x.placement(k).asset_id,
                x.asset(k).compiled->Ok_0.document,
            )
        }),
{
    let id = x.placement(k).asset_id;
    let list = x.separate_ids(x.count());
    let edits = x.separate_edits(base)->Ok_0;
    let (tabled, parent) = lemma_separate_steps(x, base, k);
    let modeled = x.with_separate_models(base, list);
    lemma_separate_ids_hold(x, x.count(), k);
    model_export_laws::law_separate_assets_are_distinct(x, x.count());
    let at = choose|i: int| 0 <= i < list.len() && list[i] == id;
    lemma_separate_models(x, base, list, at);
    lemma_models_keep_inserts(x, base, list);
    lemma_characters(*x.archive->0, modeled, list, at);
    lemma_actors_go_on(x, tabled, parent, x.count());
    // The first separate object of the asset has the same asset.
    let wanted = ModelExport::is_separate_of(id);
    search::lemma_first_position(x.instances@, wanted);
    assert(wanted(x.instances@[k]));
    let first = x.first_separate(id);
    assert(x.placement(first).asset_id == id);
    assert(x.asset(first) == x.asset(k));
    let i = lemma_actor_position(x, tabled, parent, x.count(), k);
    assert(edits.inserts[i].parent == parent);
    let name = model_export::actor_record(x.placement(k)).payload->Actor_character_name;
    assert(is_actor_of(edits.inserts[i].record, x.placement(k).transform, name));
    assert(name == model_export::chara_record(id).name);
    lemma_characters_stay(tabled, edits, base.inserts.len(), name, ids::resource_key(id));
    assert(goes_on(base, edits)) by {
        assert forall|j: int| 0 <= j < base.inserts.len() implies #[trigger] edits.inserts[j]
            == base.inserts[j] by {
            assert(tabled.inserts[j] == modeled.inserts[j]);
        }
    }
    if x.asset_position(k) is Some {
        search::lemma_first_position(x.assets@, model_export::has_asset_id(id));
        search::lemma_no_fault(list.len(), x.separate_model_check(list), at);
        assert(x.assets@[x.asset_position(k)->0].asset_id == id);
    }
}

/// The separate object of an actor that an export of separate objects inserts.
proof fn lemma_separate_source(x: ModelExport, base: EditsView, i: int) -> (k: int)
    requires
        x.separate_edits(base) is Ok,
        base.inserts.len() <= i < x.separate_edits(base)->Ok_0.inserts.len(),
        x.separate_edits(base)->Ok_0.inserts[i].record.record_type == "SmJ3DAct"@,
    ensures
        0 <= k < x.count(),
        x.has_mode(k, ModelInstanceExportMode::SeparateRuntimeObject),
        x.separate_edits(base)->Ok_0.inserts[i].record == model_export::actor_record(
            x.placement(k),
        ),
{
    lemma_record_types();
    let mode = ModelInstanceExportMode::SeparateRuntimeObject;
    assert(x.any_mode(mode));
    let some = choose|k: int| 0 <= k < x.count() && #[trigger] x.has_mode(k, mode);
    let (tabled, parent) = lemma_separate_steps(x, base, some);
    let list = x.separate_ids(x.count());
    lemma_separate_ids_hold(x, x.count(), some);
    let at = choose|j: int| 0 <= j < list.len() && list[j] == x.placement(some).asset_id;
    lemma_models_keep_inserts(x, base, list);
    lemma_characters(*x.archive->0, x.with_separate_models(base, list), list, at);
    lemma_actors_go_on(x, tabled, parent, x.count());
    if i < tabled.inserts.len() {
        assert(x.with_actors(tabled, parent, x.count()).inserts[i] == tabled.inserts[i]);
        assert(false);
    }
    lemma_actor_source(x, tabled, parent, x.count(), i)
}

/// A model that is placed as a separate object is shown by the game: the export puts an actor with
/// its transform into the scheduled map group of the scene, the actor names a character that the
/// same export brings into the character tables, and the folder of that character is the one into
/// which the export puts the compiled model of the placed asset.
pub proof fn law_placed_objects_are_shown(x: ModelExport, base: EditsView, k: int)
    requires
        0 <= k < x.count(),
        x.placement(k).export_mode == ModelInstanceExportMode::SeparateRuntimeObject,
        x.asset_position(k) is Some,
        x.separate_edits(base) is Ok,
    ensures
        ({
            let edits = x.separate_edits(base)->Ok_0;
            exists|name: Seq<char>, key: Seq<char>, document: DocumentId|
                #![trigger brings_character(edits, base.inserts.len(), name, key), is_model_of(x, x.placement(k).asset_id, document)]
                brings_actor(
                    edits,
                    base.inserts.len(),
                    x.archive->0.runtime_map_group->Ok_0->0@,
                    x.placement(k).transform,
                    name,
                ) && brings_character(edits, base.inserts.len(), name, key) && brings_model(
                    edits,
                    key,
                    document,
                ) && is_model_of(x, x.placement(k).asset_id, document)
        }),
{
    lemma_separate_export(x, base, k);
    let edits = x.separate_edits(base)->Ok_0;
    let name = model_export::actor_record(x.placement(k)).payload->Actor_character_name;
    let key = ids::resource_key(x.placement(k).asset_id);
    let document = x.asset(k).compiled->Ok_0.document;
    assert(brings_character(edits, base.inserts.len(), name, key) && is_model_of(
        x,
        x.placement(k).asset_id,
        document,
    ));
}

proof fn lemma_stock_collisions_keep_records(x: ModelExport, edits: EditsView, k: int, n: nat)
    ensures
        x.with_stock_collisions(edits, k, n).inserts == edits.inserts,
        x.with_stock_collisions(edits, k, n).resources == edits.resources,
    decreases n,
{
    if n > 0 {
        lemma_stock_collisions_keep_records(x, edits, k, (n - 1) as nat);
    }
}

proof fn lemma_stock_records(x: ModelExport, edits: EditsView, parent: Seq<usize>, n: nat)
    ensures
        ({
            let done = x.with_stock_objects(edits, parent, n);
            &&& done.resources == edits.resources
            &&& goes_on(edits, done)
            &&& forall|i: int|
                edits.inserts.len() <= i < done.inserts.len() ==> (
                #[trigger] done.inserts[i]).record.record_type == "MapObjBase"@
        }),
    decreases n,
{
    if n > 0 {
        let m = (n - 1) as nat;
        lemma_stock_records(x, edits, parent, m);
        if x.has_mode(n - 1, ModelInstanceExportMode::StockMapObjBase) {
            let rest = x.with_stock_objects(edits, parent, m);
            let done = x.with_stock_objects(edits, parent, n);
            let placed = rest.with_model(
                sky_bundle::bytes_of(x.stock_model_path(n - 1)->Ok_0),
                EditOperation::Upsert,
                x.asset(n - 1).compiled->Ok_0.document,
            ).with_insert(
                InsertView {
                    path: model_export::scene_path(),
                    parent,
                    record: model_export::stock_record(
                        x.placement(n - 1),
                        x.slot(n - 1).resource_name@,
                    ),
                },
            );
            lemma_stock_collisions_keep_records(
                x,
                placed,
                n - 1,
                x.slot(n - 1).collision_resources@.len(),
            );
            assert(done.inserts == placed.inserts);
            assert forall|i: int| 0 <= i < edits.inserts.len() implies #[trigger] done.inserts[i]
                == edits.inserts[i] by {
                assert(done.inserts[i] == rest.inserts[i]);
            }
            assert forall|i: int| edits.inserts.len() <= i < done.inserts.len() implies (
            #[trigger] done.inserts[i]).record.record_type == "MapObjBase"@ by {
                if i < rest.inserts.len() {
                    assert(done.inserts[i] == rest.inserts[i]);
                }
            }
        }
    }
}

proof fn lemma_characters_stay(
    a: EditsView,
    b: EditsView,
    from: nat,
    name: Seq<char>,
    key: Seq<char>,
)
    requires
        brings_character(a, from, name, key),
        goes_on(a, b),
        b.resources == a.resources,
    ensures
        brings_character(b, from, name, key),
{
    if inserts_character(a, from, name, key) {
        let i = choose|i: int|
            from <= i < a.inserts.len() && (#[trigger] a.inserts[i]).path == sky_bundle::bytes_of(
                "map/tables.bin"@,
            ) && is_character_in(a.inserts[i].record, name, key);
        assert(b.inserts[i] == a.inserts[i]);
    }
}

/// Every actor of this kind that an export inserts is drawn: it stands for a placed separate
/// object, has the transform of that placement, and names a character that the same export brings
/// into the character tables.
pub proof fn law_inserted_actors_have_characters(
    x: ModelExport,
    base: StageArchiveEdits,
    record: SkyView,
    i: int,
)
    requires
        x.placed_edits(base, record) is Ok,
        base@.inserts.len() <= i < x.placed_edits(base, record)->Ok_0.inserts.len(),
        x.placed_edits(base, record)->Ok_0.inserts[i].record.record_type == "SmJ3DAct"@,
    ensures
        ({
            let edits = x.placed_edits(base, record)->Ok_0;
            exists|k: int, name: Seq<char>, key: Seq<char>|
                #![trigger x.placement(k), brings_character(edits, base@.inserts.len(), name, key)]
                0 <= k < x.count() && x.placement(k).export_mode
                    == ModelInstanceExportMode::SeparateRuntimeObject && is_actor_of(
                    edits.inserts[i].record,
                    x.placement(k).transform,
                    name,
                ) && brings_character(edits, base@.inserts.len(), name, key)
        }),
{
    lemma_record_types();
    let mode = ModelInstanceExportMode::SeparateRuntimeObject;
    let e1 = x.separate_edits(base@)->Ok_0;
    let e2 = x.stock_edits(base, e1)->Ok_0;
    let e3 = x.terrain_edits(e2)->Ok_0;
    let e4 = x.sky_edits(e3, record)->Ok_0;
    let edits = x.placed_edits(base, record)->Ok_0;
    if x.any_mode(ModelInstanceExportMode::StockMapObjBase) {
        let parent = model_export::parent_of(
            x.archive->0.object_group,
            ExportError::ObjectGroupLookup,
            ExportError::ObjectGroupMissing,
        )->Ok_0;
        lemma_stock_records(x, e1, parent, x.count());
    }
    assert(goes_on(e1, e2));
    assert(e3.inserts == e2.inserts && e3.resources == e2.resources);
    assert(e4.resources == e3.resources && goes_on(e3, e4));
    assert(e4.inserts.len() > e3.inserts.len() ==> model_export::is_sky_type(
        e4.inserts.last().record.record_type,
    ) && e4.inserts.len() == e3.inserts.len() + 1);
    assert(edits.inserts == e4.inserts && edits.resources == e4.resources);
    assert(goes_on(e1, edits)) by {
        assert forall|j: int| 0 <= j < e1.inserts.len() implies #[trigger] edits.inserts[j]
            == e1.inserts[j] by {
            assert(e2.inserts[j] == e1.inserts[j]);
            assert(e4.inserts[j] == e3.inserts[j]);
        }
    }
    if i >= e1.inserts.len() {
        if i < e2.inserts.len() {
            assert(e4.inserts[i] == e3.inserts[i]);
            assert(e2.inserts[i].record.record_type == "MapObjBase"@);
        } else {
            assert(edits.inserts[i] == e4.inserts.last());
        }
        assert(false);
    }
    assert(edits.inserts[i] == e1.inserts[i]);
    let k = lemma_separate_source(x, base@, i);
    lemma_separate_export(x, base@, k);
    let name = model_export::actor_record(x.placement(k)).payload->Actor_character_name;
    let key = ids::resource_key(x.placement(k).asset_id);
    lemma_characters_stay(e1, edits, base@.inserts.len(), name, key);
    assert(is_actor_of(edits.inserts[i].record, x.placement(k).transform, name));
    assert(x.placement(k).export_mode == mode);
}

proof fn lemma_reflection_keeps_records(edits: EditsView, list: Seq<(Seq<u8>, sky_bundle::SkyDocument)>)
    ensures
        sky_bundle::without_reflection(edits, list).inserts == edits.inserts,
        sky_bundle::with_reflected_animations(edits, list).inserts == edits.inserts,
    decreases list.len(),
{
    if list.len() > 0 {
        lemma_reflection_keeps_records(edits, list.drop_last());
    }
}

/// The reflected sky brings no records of its own and drops none: what an export inserts is what
/// its instances insert.
pub proof fn law_the_reflection_adds_no_records(
    x: ModelExport,
    base: StageArchiveEdits,
    record: SkyView,
    table: Option<SkyTable>,
)
    requires
        x.exported(base, record, table) is Ok,
    ensures
        x.placed_edits(base, record) is Ok,
        x.exported(base, record, table)->Ok_0.inserts == x.placed_edits(base, record)->Ok_0.inserts,
{
    let edits = x.placed_edits(base, record)->Ok_0;
    let archive = model_export::resources_of(x.archive);
    let list = sky_bundle::effective(archive, edits);
    lemma_reflection_keeps_records(edits, list);
    if let Some(model) = sky_bundle::sky_model(list) {
        if let Some(tabled) = sky_bundle::with_sky_table(
            list,
            edits,
            sky_bundle::table_for(table, model),
        ) {
            lemma_reflection_keeps_records(tabled, list);
            lemma_reflection_keeps_records(
                sky_bundle::without_reflection(tabled, list).with_model(
                    sky_bundle::bytes_of("map/map/reflectsky.bmd"@),
                    EditOperation::Upsert,
                    model,
                ),
                list,
            );
        }
    }
}

} // verus!
