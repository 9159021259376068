//! Keeps the reflected sky of a stage in step with its visible sky.
use vstd::prelude::*;

use crate::runtime_sky;
use crate::stage_edits;
use crate::stage_edits::{
    DocumentId, EditOperation, EditView, EditsView, ResourceView, StageArchiveEdits,
    StageResourceDocument,
};
use crate::text;

verus! {

/// A resource of the open stage archive.
#[derive(Debug)]
pub struct ArchiveResource {
    pub raw_path: Vec<u8>,
    pub document: StageResourceDocument,
}

/// Path and document of an archive resource.
pub open spec fn archive_views(resources: Seq<ArchiveResource>) -> Seq<(Seq<u8>, ResourceView)> {
    Seq::new(resources.len(), |i: int| (resources[i].raw_path@, resources[i].document@))
}

/// What the sky bundle needs to know of a document.
#[derive(Debug, Clone, Copy, PartialEq, Eq, Structural)]
pub enum SkyDocument {
    Model(DocumentId),
    Animation(DocumentId),
    Other,
}

/// A resource as it stands once all pending edits are made.
#[derive(Debug)]
pub struct EffectiveResource {
    pub path: Vec<u8>,
    pub document: SkyDocument,
}

/// Path and document of an effective resource.
pub open spec fn effective_views(list: Seq<EffectiveResource>) -> Seq<(Seq<u8>, SkyDocument)> {
    Seq::new(list.len(), |i: int| (list[i].path@, list[i].document))
}

/// What the sky bundle sees of a typed resource.
pub open spec fn sky_document(document: ResourceView) -> SkyDocument {
    match document {
        ResourceView::Model(id) => SkyDocument::Model(id),
        ResourceView::Animation(id) => SkyDocument::Animation(id),
        _ => SkyDocument::Other,
    }
}

/// ASCII lower case of a byte string.
pub open spec fn lower_bytes(s: Seq<u8>) -> Seq<u8> {
    Seq::new(
        s.len(),
        |i: int|
            if 65 <= s[i] <= 90 {
                (s[i] + 32) as u8
            } else {
                s[i]
            },
    )
}

/// Byte strings in dictionary order.
pub open spec fn before(a: Seq<u8>, b: Seq<u8>) -> bool
    decreases a.len(),
{
    if b.len() == 0 {
        false
    } else if a.len() == 0 {
        true
    } else if a[0] != b[0] {
        a[0] < b[0]
    } else {
        before(a.drop_first(), b.drop_first())
    }
}

/// How many leading entries stand before `path`.
pub open spec fn lower_bound(list: Seq<(Seq<u8>, SkyDocument)>, path: Seq<u8>) -> nat
    decreases list.len(),
{
    if list.len() > 0 && before(list[0].0, path) {
        1 + lower_bound(list.drop_first(), path)
    } else {
        0
    }
}

/// The list in path order with `document` at `path`.
pub open spec fn put(
    list: Seq<(Seq<u8>, SkyDocument)>,
    path: Seq<u8>,
    document: SkyDocument,
) -> Seq<(Seq<u8>, SkyDocument)> {
    let k = lower_bound(list, path) as int;
    if k < list.len() && list[k].0 == path {
        list.update(k, (path, document))
    } else {
        list.insert(k, (path, document))
    }
}

/// The list without the entries that differ from `path` at most in ASCII case.
pub open spec fn cleared(list: Seq<(Seq<u8>, SkyDocument)>, path: Seq<u8>) -> Seq<
    (Seq<u8>, SkyDocument),
> {
    list.filter(|e: (Seq<u8>, SkyDocument)| lower_bytes(e.0) != lower_bytes(path))
}

/// The archive's own resources, in path order.
pub open spec fn of_archive(resources: Seq<(Seq<u8>, ResourceView)>) -> Seq<(Seq<u8>, SkyDocument)>
    decreases resources.len(),
{
    if resources.len() == 0 {
        Seq::empty()
    } else {
        put(of_archive(resources.drop_last()), resources.last().0, sky_document(resources.last().1))
    }
}

/// The list after every removal.
pub open spec fn after_removals(
    list: Seq<(Seq<u8>, SkyDocument)>,
    removals: Seq<Seq<u8>>,
) -> Seq<(Seq<u8>, SkyDocument)>
    decreases removals.len(),
{
    if removals.len() == 0 {
        list
    } else {
        cleared(after_removals(list, removals.drop_last()), removals.last())
    }
}

/// The list after every resource edit: each takes the place of what stood at its path.
pub open spec fn after_resources(
    list: Seq<(Seq<u8>, SkyDocument)>,
    edits: Seq<EditView<ResourceView>>,
) -> Seq<(Seq<u8>, SkyDocument)>
    decreases edits.len(),
{
    if edits.len() == 0 {
        list
    } else {
        let e = edits.last();
        put(
            cleared(after_resources(list, edits.drop_last()), e.path),
            e.path,
            sky_document(e.document),
        )
    }
}

/// The list after every model edit: each takes the place of what stood at its path.
pub open spec fn after_models(
    list: Seq<(Seq<u8>, SkyDocument)>,
    edits: Seq<EditView<DocumentId>>,
) -> Seq<(Seq<u8>, SkyDocument)>
    decreases edits.len(),
{
    if edits.len() == 0 {
        list
    } else {
        let e = edits.last();
        put(
            cleared(after_models(list, edits.drop_last()), e.path),
            e.path,
            SkyDocument::Model(e.document),
        )
    }
}

/// Every resource of the stage once all pending edits are made, in path order.
pub open spec fn effective(archive: Seq<(Seq<u8>, ResourceView)>, edits: EditsView) -> Seq<
    (Seq<u8>, SkyDocument),
> {
    after_models(
        after_resources(after_removals(of_archive(archive), edits.removals), edits.resources),
        edits.models,
    )
}

/// The sky stem of a raw path.
pub open spec fn stem_of(path: Seq<u8>) -> Option<Seq<char>> {
    runtime_sky::sky_stem(text::utf8_lossy(path))
}

/// A raw path names the resource with this stem and extension in `map/map`.
pub open spec fn names(path: Seq<u8>, stem: Seq<char>, extension: Seq<char>) -> bool {
    runtime_sky::is_sky_path(text::utf8_lossy(path), stem, extension)
}

/// Some pending edit touches the visible sky.
pub open spec fn sky_changed(edits: EditsView) -> bool {
    ||| exists|i: int|
        0 <= i < edits.removals.len() && #[trigger] stem_of(edits.removals[i]) == Some("sky"@)
    ||| exists|i: int|
        0 <= i < edits.resources.len() && #[trigger] stem_of(edits.resources[i].path) == Some(
            "sky"@,
        )
    ||| exists|i: int|
        0 <= i < edits.models.len() && #[trigger] stem_of(edits.models[i].path) == Some("sky"@)
}

/// The document at the first path that names `sky.bmd`, if it is a model.
pub open spec fn sky_model(list: Seq<(Seq<u8>, SkyDocument)>) -> Option<DocumentId>
    decreases list.len(),
{
    if list.len() == 0 {
        None
    } else if names(list[0].0, "sky"@, "bmd"@) {
        match list[0].1 {
            SkyDocument::Model(id) => Some(id),
            _ => None,
        }
    } else {
        sky_model(list.drop_first())
    }
}

/// The list holds a shared material table of the sky.
pub open spec fn has_sky_table(list: Seq<(Seq<u8>, SkyDocument)>) -> bool {
    exists|i: int| 0 <= i < list.len() && #[trigger] names(list[i].0, "sky"@, "bmt"@)
}

/// A pending edit brings its own reflection model.
pub open spec fn reflection_is_explicit(edits: EditsView) -> bool {
    ||| exists|i: int|
        0 <= i < edits.resources.len() && #[trigger] names(
            edits.resources[i].path,
            "reflectsky"@,
            "bmd"@,
        ) && edits.resources[i].document is Model
    ||| exists|i: int|
        0 <= i < edits.models.len() && #[trigger] names(
            edits.models[i].path,
            "reflectsky"@,
            "bmd"@,
        )
}

/// Every reflection resource of the list removed, in order.
pub open spec fn without_reflection(
    edits: EditsView,
    list: Seq<(Seq<u8>, SkyDocument)>,
) -> EditsView
    decreases list.len(),
{
    if list.len() == 0 {
        edits
    } else {
        let rest = without_reflection(edits, list.drop_last());
        if stem_of(list.last().0) == Some("reflectsky"@) {
            rest.with_removal(list.last().0)
        } else {
            rest
        }
    }
}

/// The UTF-8 bytes of a text.
pub open spec fn bytes_of(s: Seq<char>) -> Seq<u8> {
    vstd::utf8::encode_utf8(s)
}

/// The sky's animations given to the reflection, in order.
pub open spec fn with_reflected_animations(
    edits: EditsView,
    list: Seq<(Seq<u8>, SkyDocument)>,
) -> EditsView
    decreases list.len(),
{
    if list.len() == 0 {
        edits
    } else {
        let rest = with_reflected_animations(edits, list.drop_last());
        match (
            runtime_sky::animation_extension(text::utf8_lossy(list.last().0), "sky"@),
            list.last().1,
        ) {
            (Some(extension), SkyDocument::Animation(id)) => rest.with_resource(
                bytes_of("map/map/reflectsky."@ + extension),
                EditOperation::Upsert,
                ResourceView::Animation(id),
            ),
            _ => rest,
        }
    }
}

/// A shared material table, and the sky model that it was derived from.
#[derive(Debug, Clone, Copy, PartialEq, Eq, Structural)]
pub struct SkyTable {
    pub model: DocumentId,
    pub table: DocumentId,
}

/// The table of a sky model; one that was derived from another model is not it.
pub open spec fn table_for(table: Option<SkyTable>, model: DocumentId) -> Option<DocumentId> {
    match table {
        Some(derived) => if derived.model == model {
            Some(derived.table)
        } else {
            None
        },
        None => None,
    }
}

/// The edits with a shared material table, where the stage has none.
pub open spec fn with_sky_table(
    list: Seq<(Seq<u8>, SkyDocument)>,
    edits: EditsView,
    table: Option<DocumentId>,
) -> Option<EditsView> {
    if has_sky_table(list) {
        Some(edits)
    } else {
        match table {
            Some(id) => Some(
                edits.with_model(bytes_of("map/map/sky.bmt"@), EditOperation::Upsert, id),
            ),
            None => None,
        }
    }
}

/// The edits that make the reflection follow a changed sky. Nothing is left to do when the sky is
/// untouched or when the reflection is authored on its own; `None` when the material table that
/// the sky needs could not be derived.
pub open spec fn synchronized(
    archive: Seq<(Seq<u8>, ResourceView)>,
    edits: EditsView,
    table: Option<SkyTable>,
) -> Option<EditsView> {
    let list = effective(archive, edits);
    if !sky_changed(edits) {
        Some(edits)
    } else {
        match sky_model(list) {
            None => Some(without_reflection(edits, list)),
            Some(model) => match with_sky_table(list, edits, table_for(table, model)) {
                None => None,
                Some(tabled) => if reflection_is_explicit(tabled) {
                    Some(tabled)
                } else {
                    Some(
                        with_reflected_animations(
                            without_reflection(tabled, list).with_model(
                                bytes_of("map/map/reflectsky.bmd"@),
                                EditOperation::Upsert,
                                model,
                            ),
                            list,
                        ),
                    )
                },
            },
        }
    }
}

/// Whether `a` stands before `b` in dictionary order.
fn stands_before(a: &[u8], b: &[u8]) -> (r: bool)
    ensures
        r == before(a@, b@),
{
    let mut i: usize = 0;
    proof {
        assert(a@.skip(0) =~= a@);
        assert(b@.skip(0) =~= b@);
    }
    while i < a.len() && i < b.len() && a[i] == b[i]
        invariant
            i <= a.len(),
            i <= b.len(),
            before(a@, b@) == before(a@.skip(i as int), b@.skip(i as int)),
        decreases a.len() - i,
    {
        proof {
            assert(a@.skip(i as int).drop_first() =~= a@.skip(i + 1));
            assert(b@.skip(i as int).drop_first() =~= b@.skip(i + 1));
        }
        i += 1;
    }
    if i == b.len() {
        false
    } else if i == a.len() {
        true
    } else {
        a[i] < b[i]
    }
}

fn lower_byte(b: u8) -> (r: u8)
    ensures
        r == (if 65 <= b <= 90 {
            (b + 32) as u8
        } else {
            b
        }),
{
    if 65 <= b && b <= 90 {
        b + 32
    } else {
        b
    }
}

/// Whether two byte strings differ at most in ASCII case.
fn bytes_eq_ignoring_case(a: &[u8], b: &[u8]) -> (r: bool)
    ensures
        r == (lower_bytes(a@) == lower_bytes(b@)),
{
    if a.len() != b.len() {
        proof {
            assert(lower_bytes(a@).len() != lower_bytes(b@).len());
        }
        return false;
    }
    let mut i: usize = 0;
    while i < a.len()
        invariant
            i <= a.len(),
            a.len() == b.len(),
            forall|j: int| 0 <= j < i ==> lower_bytes(a@)[j] == lower_bytes(b@)[j],
        decreases a.len() - i,
    {
        if lower_byte(a[i]) != lower_byte(b[i]) {
            assert(lower_bytes(a@)[i as int] != lower_bytes(b@)[i as int]);
            return false;
        }
        i += 1;
    }
    assert(lower_bytes(a@) =~= lower_bytes(b@));
    true
}

proof fn lemma_lower_bound(list: Seq<(Seq<u8>, SkyDocument)>, path: Seq<u8>, k: nat)
    requires
        k <= list.len(),
        forall|j: int| 0 <= j < k ==> before((#[trigger] list[j]).0, path),
        k < list.len() ==> !before(list[k as int].0, path),
    ensures
        lower_bound(list, path) == k,
    decreases list.len(),
{
    if k > 0 {
        assert(before(list[0].0, path));
        assert forall|j: int| 0 <= j < k - 1 implies before(
            (#[trigger] list.drop_first()[j]).0,
            path,
        ) by {
            assert(list.drop_first()[j] == list[j + 1]);
        }
        lemma_lower_bound(list.drop_first(), path, (k - 1) as nat);
    }
}

fn put_resource(list: &mut Vec<EffectiveResource>, path: Vec<u8>, document: SkyDocument)
    ensures
        effective_views(final(list)@) == put(effective_views(old(list)@), path@, document),
{
    let ghost views = effective_views(list@);
    let mut k: usize = 0;
    while k < list.len() && stands_before(list[k].path.as_slice(), path.as_slice())
        invariant
            k <= list.len(),
            views == effective_views(list@),
            forall|j: int| 0 <= j < k ==> before((#[trigger] views[j]).0, path@),
        decreases list.len() - k,
    {
        proof {
            assert(views[k as int].0 == list@[k as int].path@);
        }
        k += 1;
    }
    proof {
        if k < list.len() {
            assert(views[k as int].0 == list@[k as int].path@);
        }
        lemma_lower_bound(views, path@, k as nat);
    }
    if k < list.len() && stage_edits::same_bytes(list[k].path.as_slice(), path.as_slice()) {
        let entry = EffectiveResource { path, document };
        list.set(k, entry);
        proof {
            assert(effective_views(list@) =~= views.update(k as int, (path@, document)));
        }
    } else {
        list.insert(k, EffectiveResource { path, document });
        proof {
            assert(effective_views(list@) =~= views.insert(k as int, (path@, document)));
        }
    }
}

fn clear_path(list: &mut Vec<EffectiveResource>, path: &[u8])
    ensures
        effective_views(final(list)@) == cleared(effective_views(old(list)@), path@),
{
    let ghost start = effective_views(list@);
    let ghost keep = |e: (Seq<u8>, SkyDocument)| lower_bytes(e.0) != lower_bytes(path@);
    let ghost mut done: int = 0;
    let mut i: usize = 0;
    proof {
        assert(start.take(0) =~= Seq::empty());
        assert(effective_views(list@) =~= start.take(0).filter(keep) + start.skip(0));
    }
    while i < list.len()
        invariant
            0 <= done <= start.len(),
            keep == (|e: (Seq<u8>, SkyDocument)| lower_bytes(e.0) != lower_bytes(path@)),
            i == start.take(done).filter(keep).len(),
            i <= list.len(),
            list.len() - i == start.len() - done,
            effective_views(list@) == start.take(done).filter(keep) + start.skip(done),
        decreases list.len() - i,
    {
        proof {
            assert(effective_views(list@)[i as int] == start[done]);
            assert(start.take(done + 1) =~= start.take(done).push(start[done]));
            start.take(done).lemma_filter_push(start[done], keep);
        }
        let ghost views = effective_views(list@);
        if bytes_eq_ignoring_case(list[i].path.as_slice(), path) {
            let _removed = list.remove(i);
            proof {
                assert(effective_views(list@) =~= views.remove(i as int));
                assert(views.remove(i as int) =~= start.take(done).filter(keep) + start.skip(
                    done + 1,
                ));
            }
        } else {
            proof {
                assert(start.take(done).filter(keep) + start.skip(done) =~= start.take(
                    done,
                ).filter(keep).push(start[done]) + start.skip(done + 1));
            }
            i += 1;
        }
        proof {
            done = done + 1;
        }
    }
    proof {
        assert(start.take(done) =~= start);
        assert(start.skip(done) =~= Seq::empty());
        assert(effective_views(list@) =~= start.filter(keep));
    }
}

fn sky_document_of(document: &StageResourceDocument) -> (r: SkyDocument)
    ensures
        r == sky_document(document@),
{
    match document {
        StageResourceDocument::Model(id) => SkyDocument::Model(*id),
        StageResourceDocument::Animation(id) => SkyDocument::Animation(*id),
        _ => SkyDocument::Other,
    }
}

/// Every resource of the stage once all pending edits are made, in path order.
pub fn effective_resources(archive: &[ArchiveResource], edits: &StageArchiveEdits) -> (r: Vec<
    EffectiveResource,
>)
    ensures
        effective_views(r@) == effective(archive_views(archive@), edits@),
{
    let mut list: Vec<EffectiveResource> = Vec::new();
    let ghost own = archive_views(archive@);
    proof {
        assert(effective_views(list@) =~= of_archive(own.take(0)));
    }
    let mut i: usize = 0;
    while i < archive.len()
        invariant
            i <= archive.len(),
            own == archive_views(archive@),
            effective_views(list@) == of_archive(own.take(i as int)),
        decreases archive.len() - i,
    {
        put_resource(
            &mut list,
            stage_edits::copy_bytes(archive[i].raw_path.as_slice()),
            sky_document_of(&archive[i].document),
        );
        proof {
            assert(own.take(i + 1).drop_last() =~= own.take(i as int));
            assert(own.take(i + 1).last() == own[i as int]);
        }
        i += 1;
    }
    proof {
        assert(own.take(i as int) =~= own);
    }
    let ghost base = effective_views(list@);
    let ghost removals = edits@.removals;
    let mut i: usize = 0;
    proof {
        assert(after_removals(base, removals.take(0)) == base);
    }
    while i < edits.resource_removals.len()
        invariant
            i <= edits.resource_removals.len(),
            removals == edits@.removals,
            effective_views(list@) == after_removals(base, removals.take(i as int)),
        decreases edits.resource_removals.len() - i,
    {
        clear_path(&mut list, edits.resource_removals[i].as_slice());
        proof {
            assert(removals.take(i + 1).drop_last() =~= removals.take(i as int));
            assert(removals.take(i + 1).last() == removals[i as int]);
        }
        i += 1;
    }
    proof {
        assert(removals.take(i as int) =~= removals);
    }
    let ghost base = effective_views(list@);
    let ghost resources = edits@.resources;
    let mut i: usize = 0;
    proof {
        assert(after_resources(base, resources.take(0)) == base);
    }
    while i < edits.resources.len()
        invariant
            i <= edits.resources.len(),
            resources == edits@.resources,
            effective_views(list@) == after_resources(base, resources.take(i as int)),
        decreases edits.resources.len() - i,
    {
        let edit = &edits.resources[i];
        clear_path(&mut list, edit.raw_resource_path.as_slice());
        put_resource(
            &mut list,
            stage_edits::copy_bytes(edit.raw_resource_path.as_slice()),
            sky_document_of(&edit.document),
        );
        proof {
            assert(resources.take(i + 1).drop_last() =~= resources.take(i as int));
            assert(resources.take(i + 1).last() == resources[i as int]);
        }
        i += 1;
    }
    proof {
        assert(resources.take(i as int) =~= resources);
    }
    let ghost base = effective_views(list@);
    let ghost models = edits@.models;
    let mut i: usize = 0;
    proof {
        assert(after_models(base, models.take(0)) == base);
    }
    while i < edits.models.len()
        invariant
            i <= edits.models.len(),
            models == edits@.models,
            effective_views(list@) == after_models(base, models.take(i as int)),
        decreases edits.models.len() - i,
    {
        let edit = &edits.models[i];
        clear_path(&mut list, edit.raw_resource_path.as_slice());
        put_resource(
            &mut list,
            stage_edits::copy_bytes(edit.raw_resource_path.as_slice()),
            SkyDocument::Model(edit.document),
        );
        proof {
            assert(models.take(i + 1).drop_last() =~= models.take(i as int));
            assert(models.take(i + 1).last() == models[i as int]);
        }
        i += 1;
    }
    proof {
        assert(models.take(i as int) =~= models);
    }
    list
}

fn is_visible_sky(path: &[u8]) -> (r: bool)
    ensures
        r == (stem_of(path@) == Some("sky"@)),
{
    match runtime_sky::runtime_sky_resource_stem(path) {
        Some(stem) => text::same(stem, "sky"),
        None => false,
    }
}

fn is_reflected_sky(path: &[u8]) -> (r: bool)
    ensures
        r == (stem_of(path@) == Some("reflectsky"@)),
{
    match runtime_sky::runtime_sky_resource_stem(path) {
        Some(stem) => text::same(stem, "reflectsky"),
        None => false,
    }
}

fn touches_sky(edits: &StageArchiveEdits) -> (r: bool)
    ensures
        r == sky_changed(edits@),
{
    let mut i: usize = 0;
    while i < edits.resource_removals.len()
        invariant
            i <= edits.resource_removals.len(),
            forall|j: int|
                0 <= j < i ==> #[trigger] stem_of(edits@.removals[j]) != Some("sky"@),
        decreases edits.resource_removals.len() - i,
    {
        if is_visible_sky(edits.resource_removals[i].as_slice()) {
            assert(stem_of(edits@.removals[i as int]) == Some("sky"@));
            return true;
        }
        i += 1;
    }
    let mut i: usize = 0;
    while i < edits.resources.len()
        invariant
            i <= edits.resources.len(),
            forall|j: int|
                0 <= j < i ==> #[trigger] stem_of(edits@.resources[j].path) != Some("sky"@),
        decreases edits.resources.len() - i,
    {
        if is_visible_sky(edits.resources[i].raw_resource_path.as_slice()) {
            assert(stem_of(edits@.resources[i as int].path) == Some("sky"@));
            return true;
        }
        i += 1;
    }
    let mut i: usize = 0;
    while i < edits.models.len()
        invariant
            i <= edits.models.len(),
            forall|j: int|
                0 <= j < i ==> #[trigger] stem_of(edits@.models[j].path) != Some("sky"@),
        decreases edits.models.len() - i,
    {
        if is_visible_sky(edits.models[i].raw_resource_path.as_slice()) {
            assert(stem_of(edits@.models[i as int].path) == Some("sky"@));
            return true;
        }
        i += 1;
    }
    false
}

fn first_sky_model(list: &[EffectiveResource]) -> (r: Option<DocumentId>)
    ensures
        r == sky_model(effective_views(list@)),
{
    let ghost views = effective_views(list@);
    let mut i: usize = 0;
    proof {
        assert(views.skip(0) =~= views);
    }
    while i < list.len()
        invariant
            i <= list.len(),
            views == effective_views(list@),
            sky_model(views) == sky_model(views.skip(i as int)),
        decreases list.len() - i,
    {
        proof {
            assert(views.skip(i as int)[0] == views[i as int]);
            assert(views.skip(i as int).drop_first() =~= views.skip(i + 1));
        }
        if runtime_sky::runtime_sky_resource_path_is(list[i].path.as_slice(), "sky", "bmd") {
            return match list[i].document {
                SkyDocument::Model(id) => Some(id),
                _ => None,
            };
        }
        i += 1;
    }
    None
}

fn holds_sky_table(list: &[EffectiveResource]) -> (r: bool)
    ensures
        r == has_sky_table(effective_views(list@)),
{
    let ghost views = effective_views(list@);
    let mut i: usize = 0;
    while i < list.len()
        invariant
            i <= list.len(),
            views == effective_views(list@),
            forall|j: int| 0 <= j < i ==> !#[trigger] names(views[j].0, "sky"@, "bmt"@),
        decreases list.len() - i,
    {
        if runtime_sky::runtime_sky_resource_path_is(list[i].path.as_slice(), "sky", "bmt") {
            assert(names(views[i as int].0, "sky"@, "bmt"@));
            return true;
        }
        i += 1;
    }
    false
}

fn brings_reflection(edits: &StageArchiveEdits) -> (r: bool)
    ensures
        r == reflection_is_explicit(edits@),
{
    let mut i: usize = 0;
    while i < edits.resources.len()
        invariant
            i <= edits.resources.len(),
            forall|j: int|
                0 <= j < i ==> !(#[trigger] names(
                    edits@.resources[j].path,
                    "reflectsky"@,
                    "bmd"@,
                ) && edits@.resources[j].document is Model),
        decreases edits.resources.len() - i,
    {
        let edit = &edits.resources[i];
        let is_model = match &edit.document {
            StageResourceDocument::Model(_) => true,
            _ => false,
        };
        if is_model && runtime_sky::runtime_sky_resource_path_is(
            edit.raw_resource_path.as_slice(),
            "reflectsky",
            "bmd",
        ) {
            assert(names(edits@.resources[i as int].path, "reflectsky"@, "bmd"@));
            return true;
        }
        i += 1;
    }
    let mut i: usize = 0;
    while i < edits.models.len()
        invariant
            i <= edits.models.len(),
            forall|j: int|
                0 <= j < i ==> !#[trigger] names(edits@.models[j].path, "reflectsky"@, "bmd"@),
        decreases edits.models.len() - i,
    {
        if runtime_sky::runtime_sky_resource_path_is(
            edits.models[i].raw_resource_path.as_slice(),
            "reflectsky",
            "bmd",
        ) {
            assert(names(edits@.models[i as int].path, "reflectsky"@, "bmd"@));
            return true;
        }
        i += 1;
    }
    false
}

fn remove_reflection(edits: &mut StageArchiveEdits, list: &[EffectiveResource])
    ensures
        final(edits)@ == without_reflection(old(edits)@, effective_views(list@)),
{
    let ghost views = effective_views(list@);
    let mut i: usize = 0;
    proof {
        assert(without_reflection(edits@, views.take(0)) == edits@);
    }
    while i < list.len()
        invariant
            i <= list.len(),
            views == effective_views(list@),
            edits@ == without_reflection(old(edits)@, views.take(i as int)),
        decreases list.len() - i,
    {
        proof {
            assert(views.take(i + 1).drop_last() =~= views.take(i as int));
            assert(views.take(i + 1).last() == views[i as int]);
        }
        if is_reflected_sky(list[i].path.as_slice()) {
            edits.remove_resource(stage_edits::copy_bytes(list[i].path.as_slice()));
        }
        i += 1;
    }
    proof {
        assert(views.take(i as int) =~= views);
    }
}

fn reflect_animations(edits: &mut StageArchiveEdits, list: &[EffectiveResource])
    ensures
        final(edits)@ == with_reflected_animations(old(edits)@, effective_views(list@)),
{
    let ghost views = effective_views(list@);
    let mut i: usize = 0;
    proof {
        assert(with_reflected_animations(edits@, views.take(0)) == edits@);
    }
    while i < list.len()
        invariant
            i <= list.len(),
            views == effective_views(list@),
            edits@ == with_reflected_animations(old(edits)@, views.take(i as int)),
        decreases list.len() - i,
    {
        proof {
            assert(views.take(i + 1).drop_last() =~= views.take(i as int));
            assert(views.take(i + 1).last() == views[i as int]);
        }
        let extension = runtime_sky::runtime_sky_visual_animation_extension(
            list[i].path.as_slice(),
            "sky",
        );
        if let Some(extension) = extension {
            if let SkyDocument::Animation(id) = list[i].document {
                let path = "map/map/reflectsky.".to_owned().concat(extension.as_str());
                edits.put_resource(
                    path.as_str().as_bytes_vec(),
                    EditOperation::Upsert,
                    StageResourceDocument::Animation(id),
                );
            }
        }
        i += 1;
    }
    proof {
        assert(views.take(i as int) =~= views);
    }
}

/// The model of the visible sky once all pending edits are made: the one whose material table a
/// call of `synchronize_runtime_sky_reflection_bundle` needs.
pub fn effective_sky_model(archive: &[ArchiveResource], edits: &StageArchiveEdits) -> (r: Option<
    DocumentId,
>)
    ensures
        r == sky_model(effective(archive_views(archive@), edits@)),
{
    let list = effective_resources(archive, edits);
    first_sky_model(list.as_slice())
}

/// Makes the reflected sky follow a changed sky. `table` is a derived material table, `None` where
/// that failed; `false` comes back when the table of the effective sky model was needed and is
/// missing.
pub fn synchronize_runtime_sky_reflection_bundle(
    archive: &[ArchiveResource],
    edits: &mut StageArchiveEdits,
    table: Option<SkyTable>,
) -> (r: bool)
    ensures
        match synchronized(archive_views(archive@), old(edits)@, table) {
            Some(view) => r && final(edits)@ == view,
            None => !r && final(edits)@ == old(edits)@,
        },
{
    if !touches_sky(edits) {
        return true;
    }
    let list = effective_resources(archive, edits);
    let model = match first_sky_model(list.as_slice()) {
        Some(model) => model,
        None => {
            remove_reflection(edits, list.as_slice());
            return true;
        },
    };
    if !holds_sky_table(list.as_slice()) {
        match table {
            Some(derived) => {
                if derived.model != model {
                    return false;
                }
                edits.upsert_model("map/map/sky.bmt".as_bytes_vec(), derived.table);
            },
            None => return false,
        }
    }
    if brings_reflection(edits) {
        return true;
    }
    remove_reflection(edits, list.as_slice());
    edits.upsert_model("map/map/reflectsky.bmd".as_bytes_vec(), model);
    reflect_animations(edits, list.as_slice());
    true
}

proof fn lemma_animations_keep_models(edits: EditsView, list: Seq<(Seq<u8>, SkyDocument)>)
    ensures
        with_reflected_animations(edits, list).models == edits.models,
    decreases list.len(),
{
    if list.len() > 0 {
        lemma_animations_keep_models(edits, list.drop_last());
    }
}

/// Once a changed sky has a model and no reflection of its own was authored, the reflection is
/// exactly that model.
pub proof fn law_reflection_follows_the_sky(
    archive: Seq<(Seq<u8>, ResourceView)>,
    edits: EditsView,
    table: Option<SkyTable>,
)
    ensures
        ({
            let list = effective(archive, edits);
            sky_changed(edits) ==> (sky_model(list) matches Some(model) ==> (with_sky_table(
                list,
                edits,
                table_for(table, model),
            ) matches Some(tabled) ==> (!reflection_is_explicit(tabled) ==> (synchronized(
                archive,
                edits,
                table,
            ) matches Some(done) && done.models.last() == (EditView {
                path: bytes_of("map/map/reflectsky.bmd"@),
                operation: EditOperation::Upsert,
                document: model,
            })))))
        }),
{
    let list = effective(archive, edits);
    if let Some(model) = sky_model(list) {
        if let Some(tabled) = with_sky_table(list, edits, table_for(table, model)) {
            lemma_animations_keep_models(
                without_reflection(tabled, list).with_model(
                    bytes_of("map/map/reflectsky.bmd"@),
                    EditOperation::Upsert,
                    model,
                ),
                list,
            );
        }
    }
}

/// An untouched sky leaves every pending edit as it is.
pub proof fn law_untouched_sky_changes_nothing(
    archive: Seq<(Seq<u8>, ResourceView)>,
    edits: EditsView,
    table: Option<SkyTable>,
)
    requires
        !sky_changed(edits),
    ensures
        synchronized(archive, edits, table) == Some(edits),
{
}

} // verus!
