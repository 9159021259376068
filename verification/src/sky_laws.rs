//! What counts as a stage's sky, and what becomes of its reflection.
use vstd::prelude::*;

use crate::runtime_sky;
use crate::sky_bundle;
use crate::sky_bundle::{SkyDocument, SkyTable};
use crate::stage_edits::{DocumentId, EditOperation, EditView, EditsView, ResourceView};
use crate::text;

verus! {

/// A resource is of the sky or of its reflection by folder and name, in any case and with either
/// separator, whatever its extension; it is an animation of it by its extension.
pub proof fn law_sky_resources_lie_in_the_map_folder(
    path: Seq<char>,
    folder: Seq<char>,
    stem: Seq<char>,
    extension: Seq<char>,
)
    requires
        text::with_replaced(path, '\\', '/') == folder + "/"@ + stem + "."@ + extension,
        forall|i: int| 0 <= i < stem.len() ==> (#[trigger] stem[i]) != '/',
        forall|i: int| 0 <= i < extension.len() ==> (#[trigger] extension[i]) != '/',
        forall|i: int| 0 <= i < extension.len() ==> (#[trigger] extension[i]) != '.',
        extension.len() > 0,
    ensures
        ({
            let inside = text::lower(folder) == text::lower("map/map"@);
            let visible = text::lower(stem) == text::lower("sky"@);
            let reflected = text::lower(stem) == text::lower("reflectsky"@);
            let e = text::lower(extension);
            let animated = e == "bck"@ || e == "bpk"@ || e == "btp"@ || e == "brk"@ || e == "btk"@;
            &&& runtime_sky::sky_stem(path) == Some("sky"@) <==> inside && visible
            &&& runtime_sky::sky_stem(path) == Some("reflectsky"@) <==> inside && reflected
            &&& runtime_sky::is_sky_path(path, "sky"@, "bmd"@) <==> inside && visible && e
                == text::lower("bmd"@)
            &&& runtime_sky::is_sky_path(path, "sky"@, "bmt"@) <==> inside && visible && e
                == text::lower("bmt"@)
            &&& runtime_sky::is_sky_path(path, "reflectsky"@, "bmd"@) <==> inside && reflected && e
                == text::lower("bmd"@)
            &&& inside && visible && animated ==> runtime_sky::animation_extension(path, "sky"@)
                == Some(e)
            &&& !(inside && visible && animated) ==> runtime_sky::animation_extension(path, "sky"@)
                is None
        }),
{
    reveal_strlit("/");
    reveal_strlit(".");
    reveal_strlit("sky");
    reveal_strlit("reflectsky");
    let full = text::with_replaced(path, '\\', '/');
    let file = stem + "."@ + extension;
    assert forall|i: int| 0 <= i < file.len() implies (#[trigger] file[i]) != '/' by {
        if i < stem.len() {
            assert(file[i] == stem[i]);
        } else if i > stem.len() {
            assert(file[i] == extension[i - stem.len() - 1]);
        }
    }
    assert(full =~= folder.push('/') + file);
    assert(file =~= stem.push('.') + extension);
    lemma_splits(folder, '/', file);
    lemma_splits(stem, '.', extension);
    assert("sky"@.len() != "reflectsky"@.len());
    assert(text::lower("sky"@).len() != text::lower("reflectsky"@).len());
}

proof fn lemma_splits(head: Seq<char>, c: char, tail: Seq<char>)
    requires
        forall|i: int| 0 <= i < tail.len() ==> (#[trigger] tail[i]) != c,
    ensures
        text::split_last(head.push(c) + tail, c) == Some((head, tail)),
{
    let s = head.push(c) + tail;
    text::lemma_last_index(s, c);
    let i = text::last_index(s, c);
    assert(s[head.len() as int] == c);
    if i > head.len() {
        assert(s[i] == tail[i - head.len() - 1]);
    }
    assert(s.take(i) =~= head);
    assert(s.skip(i + 1) =~= tail);
}

proof fn lemma_cleared(list: Seq<(Seq<u8>, SkyDocument)>, path: Seq<u8>)
    ensures
        forall|e: (Seq<u8>, SkyDocument)| #[trigger]
            sky_bundle::cleared(list, path).contains(e) <==> list.contains(e)
                && sky_bundle::lower_bytes(e.0) != sky_bundle::lower_bytes(path),
    decreases list.len(),
{
    reveal(Seq::filter);
    let kept = sky_bundle::cleared(list, path);
    if list.len() > 0 {
        let shorter = sky_bundle::cleared(list.drop_last(), path);
        let last = list.last();
        let stays = sky_bundle::lower_bytes(last.0) != sky_bundle::lower_bytes(path);
        lemma_cleared(list.drop_last(), path);
        assert(kept == if stays {
            shorter.push(last)
        } else {
            shorter
        });
        assert forall|e: (Seq<u8>, SkyDocument)| #[trigger] kept.contains(e) <==> list.contains(e)
            && sky_bundle::lower_bytes(e.0) != sky_bundle::lower_bytes(path) by {
            assert(kept.contains(e) <==> shorter.contains(e) || (stays && e == last)) by {
                if shorter.contains(e) {
                    let i = choose|i: int| 0 <= i < shorter.len() && shorter[i] == e;
                    assert(kept[i] == e);
                }
                if stays {
                    assert(kept[shorter.len() as int] == last);
                }
            }
            assert(list.contains(e) <==> list.drop_last().contains(e) || e == last) by {
                if list.drop_last().contains(e) {
                    let i = choose|i: int| 0 <= i < list.len() - 1 && list.drop_last()[i] == e;
                    assert(list[i] == e);
                }
                assert(list[list.len() - 1] == last);
                if list.contains(e) && e != last {
                    let i = choose|i: int| 0 <= i < list.len() && list[i] == e;
                    assert(list.drop_last()[i] == e);
                }
            }
        }
    }
}

proof fn lemma_bound(list: Seq<(Seq<u8>, SkyDocument)>, path: Seq<u8>)
    ensures
        sky_bundle::lower_bound(list, path) <= list.len(),
    decreases list.len(),
{
    if list.len() > 0 {
        lemma_bound(list.drop_first(), path);
    }
}

proof fn lemma_put_new(list: Seq<(Seq<u8>, SkyDocument)>, path: Seq<u8>, document: SkyDocument)
    requires
        forall|i: int| 0 <= i < list.len() ==> (#[trigger] list[i]).0 != path,
    ensures
        forall|e: (Seq<u8>, SkyDocument)| #[trigger]
            sky_bundle::put(list, path, document).contains(e) <==> list.contains(e) || e == (
                path,
                document,
            ),
{
    lemma_bound(list, path);
    let k = sky_bundle::lower_bound(list, path) as int;
    let after = sky_bundle::put(list, path, document);
    assert(after == list.insert(k, (path, document)));
    assert forall|e: (Seq<u8>, SkyDocument)| #[trigger] after.contains(e) <==> list.contains(e) || e
        == (path, document) by {
        assert(after[k] == (path, document));
        if list.contains(e) {
            let i = choose|i: int| 0 <= i < list.len() && list[i] == e;
            if i < k {
                assert(after[i] == e);
            } else {
                assert(after[i + 1] == e);
            }
        }
        if after.contains(e) {
            let i = choose|i: int| 0 <= i < after.len() && after[i] == e;
            if i < k {
                assert(list[i] == e);
            } else if i > k {
                assert(list[i - 1] == e);
            }
        }
    }
}

proof fn lemma_replaced(list: Seq<(Seq<u8>, SkyDocument)>, path: Seq<u8>, document: SkyDocument)
    ensures
        ({
            let after = sky_bundle::put(sky_bundle::cleared(list, path), path, document);
            forall|e: (Seq<u8>, SkyDocument)| #[trigger]
                after.contains(e) <==> e == (path, document) || (list.contains(e)
                    && sky_bundle::lower_bytes(e.0) != sky_bundle::lower_bytes(path))
        }),
{
    let kept = sky_bundle::cleared(list, path);
    lemma_cleared(list, path);
    assert forall|i: int| 0 <= i < kept.len() implies (#[trigger] kept[i]).0 != path by {
        assert(kept.contains(kept[i]));
    }
    lemma_put_new(kept, path, document);
}

/// What a stage shows at a path: the last pending model there takes the place of everything else
/// at that path, whatever its case; other paths are as without it.
pub proof fn law_the_last_pending_model_stands(
    archive: Seq<(Seq<u8>, ResourceView)>,
    edits: EditsView,
    e: (Seq<u8>, SkyDocument),
)
    requires
        edits.models.len() > 0,
    ensures
        ({
            let last = edits.models.last();
            let before = EditsView { models: edits.models.drop_last(), ..edits };
            sky_bundle::effective(archive, edits).contains(e) <==> (if sky_bundle::lower_bytes(e.0)
                == sky_bundle::lower_bytes(last.path) {
                e.0 == last.path && e.1 == SkyDocument::Model(last.document)
            } else {
                sky_bundle::effective(archive, before).contains(e)
            })
        }),
{
    let last = edits.models.last();
    let before = EditsView { models: edits.models.drop_last(), ..edits };
    lemma_replaced(
        sky_bundle::effective(archive, before),
        last.path,
        SkyDocument::Model(last.document),
    );
}

/// The same of the last pending resource, where no model is pending: a model or an animation is
/// seen as one, anything else as neither.
pub proof fn law_the_last_pending_resource_stands(
    archive: Seq<(Seq<u8>, ResourceView)>,
    edits: EditsView,
    e: (Seq<u8>, SkyDocument),
)
    requires
        edits.models.len() == 0,
        edits.resources.len() > 0,
    ensures
        ({
            let last = edits.resources.last();
            let before = EditsView { resources: edits.resources.drop_last(), ..edits };
            let seen = match last.document {
                ResourceView::Model(id) => SkyDocument::Model(id),
                ResourceView::Animation(id) => SkyDocument::Animation(id),
                _ => SkyDocument::Other,
            };
            sky_bundle::effective(archive, edits).contains(e) <==> (if sky_bundle::lower_bytes(e.0)
                == sky_bundle::lower_bytes(last.path) {
                e == (last.path, seen)
            } else {
                sky_bundle::effective(archive, before).contains(e)
            })
        }),
{
    let last = edits.resources.last();
    let before = EditsView { resources: edits.resources.drop_last(), ..edits };
    lemma_replaced(
        sky_bundle::effective(archive, before),
        last.path,
        sky_bundle::sky_document(last.document),
    );
}

/// The same of the last removal, where nothing else is pending: the stage shows nothing there.
pub proof fn law_a_removed_resource_is_gone(
    archive: Seq<(Seq<u8>, ResourceView)>,
    edits: EditsView,
    e: (Seq<u8>, SkyDocument),
)
    requires
        edits.models.len() == 0,
        edits.resources.len() == 0,
        edits.removals.len() > 0,
    ensures
        ({
            let before = EditsView { removals: edits.removals.drop_last(), ..edits };
            sky_bundle::effective(archive, edits).contains(e) <==> sky_bundle::lower_bytes(e.0)
                != sky_bundle::lower_bytes(edits.removals.last()) && sky_bundle::effective(
                archive,
                before,
            ).contains(e)
        }),
{
    let before = EditsView { removals: edits.removals.drop_last(), ..edits };
    lemma_cleared(sky_bundle::effective(archive, before), edits.removals.last());
}

/// A byte folds where it is a capital letter, by 32.
pub proof fn law_paths_fold_by_letters(s: Seq<u8>, i: int)
    requires
        0 <= i < s.len(),
    ensures
        sky_bundle::lower_bytes(s).len() == s.len(),
        65 <= s[i] <= 90 ==> sky_bundle::lower_bytes(s)[i] == s[i] + 32,
        s[i] < 65 || s[i] > 90 ==> sky_bundle::lower_bytes(s)[i] == s[i],
{
}

/// The sky's model is the first resource that goes by its name, and none where that one is no
/// model.
pub proof fn law_the_first_sky_is_the_model(list: Seq<(Seq<u8>, SkyDocument)>, i: int)
    ensures
        0 <= i < list.len() && sky_bundle::names(list[i].0, "sky"@, "bmd"@) && (forall|j: int|
            0 <= j < i ==> !sky_bundle::names((#[trigger] list[j]).0, "sky"@, "bmd"@)) ==> (
        sky_bundle::sky_model(list) == match list[i].1 {
            SkyDocument::Model(id) => Some(id),
            _ => None,
        }),
        (forall|j: int|
            0 <= j < list.len() ==> !sky_bundle::names((#[trigger] list[j]).0, "sky"@, "bmd"@))
            ==> sky_bundle::sky_model(list) is None,
    decreases list.len(),
{
    if list.len() > 0 {
        let rest = list.drop_first();
        law_the_first_sky_is_the_model(rest, i - 1);
        assert(forall|j: int| 0 <= j < rest.len() ==> (#[trigger] rest[j]) == list[j + 1]);
        if forall|j: int|
            0 <= j < list.len() ==> !sky_bundle::names((#[trigger] list[j]).0, "sky"@, "bmd"@) {
            assert(!sky_bundle::names(list[0].0, "sky"@, "bmd"@));
        }
        if 0 < i < list.len() && (forall|j: int|
            0 <= j < i ==> !sky_bundle::names((#[trigger] list[j]).0, "sky"@, "bmd"@)) {
            assert(!sky_bundle::names(list[0].0, "sky"@, "bmd"@));
            assert forall|j: int| 0 <= j < i - 1 implies !sky_bundle::names(
                (#[trigger] rest[j]).0,
                "sky"@,
                "bmd"@,
            ) by {
                assert(rest[j] == list[j + 1]);
            }
        }
    }
}

/// What the reflection was made of goes: everything of it that the stage shows is removed.
pub proof fn law_the_old_reflection_goes(
    edits: EditsView,
    list: Seq<(Seq<u8>, SkyDocument)>,
    i: int,
)
    requires
        0 <= i < list.len(),
        sky_bundle::stem_of(list[i].0) == Some("reflectsky"@),
    ensures
        sky_bundle::without_reflection(edits, list).removals.contains(list[i].0),
    decreases list.len(),
{
    let rest = sky_bundle::without_reflection(edits, list.drop_last());
    let after = sky_bundle::without_reflection(edits, list);
    let last = list.last().0;
    if sky_bundle::stem_of(last) == Some("reflectsky"@) {
        crate::stage_export_laws::law_a_removal_drops_what_was_pending(rest, last);
        if i < list.len() - 1 {
            law_the_old_reflection_goes(edits, list.drop_last(), i);
            if list[i].0 != last {
                crate::stage_export_laws::law_a_removal_keeps_the_others(rest, last, list[i].0);
            }
        }
    } else {
        assert(i < list.len() - 1);
        law_the_old_reflection_goes(edits, list.drop_last(), i);
    }
}

/// The sky's last animation of a kind is its reflection's too, under the reflection's name.
pub proof fn law_the_reflection_moves_with_the_sky(
    edits: EditsView,
    list: Seq<(Seq<u8>, SkyDocument)>,
    extension: Seq<char>,
    id: DocumentId,
)
    requires
        list.len() > 0,
        list.last().1 == SkyDocument::Animation(id),
        runtime_sky::animation_extension(text::utf8_lossy(list.last().0), "sky"@) == Some(
            extension,
        ),
    ensures
        ({
            let before = sky_bundle::with_reflected_animations(edits, list.drop_last());
            let after = sky_bundle::with_reflected_animations(edits, list);
            let path = sky_bundle::bytes_of("map/map/reflectsky."@ + extension);
            &&& forall|e: EditView<ResourceView>| #[trigger]
                after.resources.contains(e) <==> (if e.path == path {
                    e.operation == EditOperation::Upsert && e.document == ResourceView::Animation(
                        id,
                    )
                } else {
                    before.resources.contains(e)
                })
            &&& after.models == before.models
            &&& after.inserts == before.inserts
        }),
{
    let before = sky_bundle::with_reflected_animations(edits, list.drop_last());
    let after = sky_bundle::with_reflected_animations(edits, list);
    let path = sky_bundle::bytes_of("map/map/reflectsky."@ + extension);
    assert forall|e: EditView<ResourceView>| #[trigger] after.resources.contains(e) <==> (if e.path
        == path {
        e.operation == EditOperation::Upsert && e.document == ResourceView::Animation(id)
    } else {
        before.resources.contains(e)
    }) by {
        crate::stage_export_laws::law_a_resource_edit_stands_alone(
            before,
            path,
            EditOperation::Upsert,
            ResourceView::Animation(id),
            e,
        );
    }
}

/// A changed sky without a table of its own gets the one derived of its own model, and without
/// such a table the stage is left as it was.
pub proof fn law_the_sky_gets_its_own_table(
    archive: Seq<(Seq<u8>, ResourceView)>,
    edits: EditsView,
    table: Option<SkyTable>,
    model: DocumentId,
)
    requires
        sky_bundle::sky_changed(edits),
        sky_bundle::sky_model(sky_bundle::effective(archive, edits)) == Some(model),
        forall|i: int|
            0 <= i < sky_bundle::effective(archive, edits).len() ==> !sky_bundle::names(
                (#[trigger] sky_bundle::effective(archive, edits)[i]).0,
                "sky"@,
                "bmt"@,
            ),
    ensures
        (table matches Some(derived) && derived.model == model) <==> sky_bundle::synchronized(
            archive,
            edits,
            table,
        ) is Some,
        table matches Some(derived) && derived.model == model && (sky_bundle::synchronized(
            archive,
            edits,
            table,
        ) matches Some(done) && !sky_bundle::names(
            sky_bundle::bytes_of("map/map/sky.bmt"@),
            "reflectsky"@,
            "bmd"@,
        ) && sky_bundle::reflection_is_explicit(edits)) ==> sky_bundle::synchronized(
            archive,
            edits,
            table,
        )->0.models.contains(
            (EditView {
                path: sky_bundle::bytes_of("map/map/sky.bmt"@),
                operation: EditOperation::Upsert,
                document: table->0.table,
            }),
        ),
{
    let path = sky_bundle::bytes_of("map/map/sky.bmt"@);
    if table is Some {
        let document = table->0.table;
        crate::stage_export_laws::law_a_model_edit_stands_alone(
            edits,
            path,
            EditOperation::Upsert,
            document,
            EditView { path, operation: EditOperation::Upsert, document },
        );
        let tabled = edits.with_model(path, EditOperation::Upsert, document);
        if sky_bundle::reflection_is_explicit(edits) && !sky_bundle::names(
            path,
            "reflectsky"@,
            "bmd"@,
        ) {
            if exists|i: int|
                0 <= i < edits.models.len() && #[trigger] sky_bundle::names(
                    edits.models[i].path,
                    "reflectsky"@,
                    "bmd"@,
                ) {
                let i = choose|i: int|
                    0 <= i < edits.models.len() && #[trigger] sky_bundle::names(
                        edits.models[i].path,
                        "reflectsky"@,
                        "bmd"@,
                    );
                let e = edits.models[i];
                assert(edits.models.contains(e));
                crate::stage_export_laws::law_a_model_edit_stands_alone(
                    edits,
                    path,
                    EditOperation::Upsert,
                    document,
                    e,
                );
                assert(e.path != path);
                assert(tabled.models.contains(e));
                let j = choose|j: int| 0 <= j < tabled.models.len() && tabled.models[j] == e;
                assert(sky_bundle::names(tabled.models[j].path, "reflectsky"@, "bmd"@));
            } else {
                let i = choose|i: int|
                    0 <= i < edits.resources.len() && #[trigger] sky_bundle::names(
                        edits.resources[i].path,
                        "reflectsky"@,
                        "bmd"@,
                    ) && edits.resources[i].document is Model;
                assert(sky_bundle::names(tabled.resources[i].path, "reflectsky"@, "bmd"@));
            }
            assert(sky_bundle::reflection_is_explicit(tabled));
        }
    }
}

} // verus!
