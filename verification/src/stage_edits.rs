//! Pending edits of a stage archive.
//!
//! A document (a compiled model, an animation, a collision file) is named by a `DocumentId`; its
//! contents stay with the application. At most one pending edit of each list stands for a path:
//! a later upsert takes the place of an earlier one, and a removal drops what was pending.
use vstd::prelude::*;

use crate::jdrama::JDramaRecord;

verus! {

/// A document held by the application.
#[derive(Debug, Clone, Copy, PartialEq, Eq, Structural)]
pub struct DocumentId(pub u64);

/// The collision document of an edit.
#[derive(Debug, Clone, Copy, PartialEq, Eq, Structural)]
pub enum CollisionDocument {
    /// A collision file without vertices and groups.
    Empty,
    /// A compiled collision file.
    Compiled(DocumentId),
}

/// How an edit meets what the archive already holds at its path.
#[derive(Debug, Clone, Copy, PartialEq, Eq, Structural)]
pub enum EditOperation {
    Insert,
    Replace,
    Upsert,
    Append,
}

/// A typed archive resource.
#[derive(Debug)]
pub enum StageResourceDocument {
    Placement(JDramaRecord),
    Model(DocumentId),
    Animation(DocumentId),
    Collision(DocumentId),
    Other(DocumentId),
}

/// The abstract value of a typed archive resource.
pub enum ResourceView {
    Placement(crate::jdrama::RecordView),
    Model(DocumentId),
    Animation(DocumentId),
    Collision(DocumentId),
    Other(DocumentId),
}

impl View for StageResourceDocument {
    type V = ResourceView;

    open spec fn view(&self) -> ResourceView {
        match self {
            StageResourceDocument::Placement(record) => ResourceView::Placement(record@),
            StageResourceDocument::Model(id) => ResourceView::Model(*id),
            StageResourceDocument::Animation(id) => ResourceView::Animation(*id),
            StageResourceDocument::Collision(id) => ResourceView::Collision(*id),
            StageResourceDocument::Other(id) => ResourceView::Other(*id),
        }
    }
}

impl View for DocumentId {
    type V = DocumentId;

    open spec fn view(&self) -> DocumentId {
        *self
    }
}

impl View for CollisionDocument {
    type V = CollisionDocument;

    open spec fn view(&self) -> CollisionDocument {
        *self
    }
}

/// One pending edit of a resource.
#[derive(Debug)]
pub struct ResourceEdit<D> {
    pub raw_resource_path: Vec<u8>,
    pub operation: EditOperation,
    pub document: D,
}

/// The abstract value of a pending edit.
#[verifier::ext_equal]
pub struct EditView<V> {
    pub path: Seq<u8>,
    pub operation: EditOperation,
    pub document: V,
}

impl<D: View> View for ResourceEdit<D> {
    type V = EditView<D::V>;

    open spec fn view(&self) -> EditView<D::V> {
        EditView {
            path: self.raw_resource_path@,
            operation: self.operation,
            document: self.document@,
        }
    }
}

/// A record to insert below a group of a placement document.
#[derive(Debug)]
pub struct PlacementInsert {
    pub raw_resource_path: Vec<u8>,
    pub parent_record_path: Vec<usize>,
    pub record: JDramaRecord,
}

/// The abstract value of a record insertion.
#[verifier::ext_equal]
pub struct InsertView {
    pub path: Seq<u8>,
    pub parent: Seq<usize>,
    pub record: crate::jdrama::RecordView,
}

impl View for PlacementInsert {
    type V = InsertView;

    open spec fn view(&self) -> InsertView {
        InsertView {
            path: self.raw_resource_path@,
            parent: self.parent_record_path@,
            record: self.record@,
        }
    }
}

/// All pending edits of a stage archive.
#[derive(Debug)]
pub struct StageArchiveEdits {
    pub resource_removals: Vec<Vec<u8>>,
    pub resources: Vec<ResourceEdit<StageResourceDocument>>,
    pub models: Vec<ResourceEdit<DocumentId>>,
    pub collisions: Vec<ResourceEdit<CollisionDocument>>,
    pub placement_inserts: Vec<PlacementInsert>,
}

/// The abstract value of all pending edits.
#[verifier::ext_equal]
pub struct EditsView {
    pub removals: Seq<Seq<u8>>,
    pub resources: Seq<EditView<ResourceView>>,
    pub models: Seq<EditView<DocumentId>>,
    pub collisions: Seq<EditView<CollisionDocument>>,
    pub inserts: Seq<InsertView>,
}

/// The abstract values of a list of edits.
pub open spec fn edit_views<D: View>(edits: Seq<ResourceEdit<D>>) -> Seq<EditView<D::V>> {
    Seq::new(edits.len(), |i: int| edits[i]@)
}

/// The byte strings of a list.
pub open spec fn path_views(paths: Seq<Vec<u8>>) -> Seq<Seq<u8>> {
    Seq::new(paths.len(), |i: int| paths[i]@)
}

/// The abstract values of a list of insertions.
pub open spec fn insert_views(inserts: Seq<PlacementInsert>) -> Seq<InsertView> {
    Seq::new(inserts.len(), |i: int| inserts[i]@)
}

impl View for StageArchiveEdits {
    type V = EditsView;

    open spec fn view(&self) -> EditsView {
        EditsView {
            removals: path_views(self.resource_removals@),
            resources: edit_views(self.resources@),
            models: edit_views(self.models@),
            collisions: edit_views(self.collisions@),
            inserts: insert_views(self.placement_inserts@),
        }
    }
}

/// The edits of other paths.
pub open spec fn without_path<V>(edits: Seq<EditView<V>>, path: Seq<u8>) -> Seq<EditView<V>> {
    edits.filter(|e: EditView<V>| e.path != path)
}

/// The paths other than `path`.
pub open spec fn without(paths: Seq<Seq<u8>>, path: Seq<u8>) -> Seq<Seq<u8>> {
    paths.filter(|p: Seq<u8>| p != path)
}

impl EditsView {
    /// No pending edits.
    pub open spec fn none() -> EditsView {
        EditsView {
            removals: Seq::empty(),
            resources: Seq::empty(),
            models: Seq::empty(),
            collisions: Seq::empty(),
            inserts: Seq::empty(),
        }
    }

    /// A model edit takes the place of any pending edit or removal of its path.
    pub open spec fn with_model(
        self,
        path: Seq<u8>,
        operation: EditOperation,
        document: DocumentId,
    ) -> EditsView {
        EditsView {
            removals: without(self.removals, path),
            models: without_path(self.models, path).push(EditView { path, operation, document }),
            ..self
        }
    }

    /// A resource edit takes the place of any pending edit or removal of its path.
    pub open spec fn with_resource(
        self,
        path: Seq<u8>,
        operation: EditOperation,
        document: ResourceView,
    ) -> EditsView {
        EditsView {
            removals: without(self.removals, path),
            resources: without_path(self.resources, path).push(
                EditView { path, operation, document },
            ),
            ..self
        }
    }

    /// A collision upsert takes the place of any pending edit or removal of its path.
    pub open spec fn with_collision(
        self,
        path: Seq<u8>,
        document: CollisionDocument,
    ) -> EditsView {
        EditsView {
            removals: without(self.removals, path),
            collisions: without_path(self.collisions, path).push(
                EditView { path, operation: EditOperation::Upsert, document },
            ),
            ..self
        }
    }

    /// Collision to append to what stands at `path`.
    pub open spec fn with_appended_collision(
        self,
        path: Seq<u8>,
        document: CollisionDocument,
    ) -> EditsView {
        EditsView {
            collisions: self.collisions.push(
                EditView { path, operation: EditOperation::Append, document },
            ),
            ..self
        }
    }

    /// One more record to insert.
    pub open spec fn with_insert(self, insert: InsertView) -> EditsView {
        EditsView { inserts: self.inserts.push(insert), ..self }
    }

    /// A removal drops every pending edit of its path.
    pub open spec fn with_removal(self, path: Seq<u8>) -> EditsView {
        EditsView {
            removals: without(self.removals, path).push(path),
            resources: without_path(self.resources, path),
            models: without_path(self.models, path),
            collisions: without_path(self.collisions, path),
            ..self
        }
    }
}

/// Whether two byte strings are equal.
pub fn same_bytes(a: &[u8], b: &[u8]) -> (r: bool)
    ensures
        r == (a@ == b@),
{
    if a.len() != b.len() {
        return false;
    }
    let mut i: usize = 0;
    while i < a.len()
        invariant
            i <= a.len(),
            a.len() == b.len(),
            forall|j: int| 0 <= j < i ==> a@[j] == b@[j],
        decreases a.len() - i,
    {
        if a[i] != b[i] {
            return false;
        }
        i += 1;
    }
    assert(a@ =~= b@);
    true
}

/// A copy of a byte string.
pub fn copy_bytes(a: &[u8]) -> (r: Vec<u8>)
    ensures
        r@ == a@,
{
    let mut r: Vec<u8> = Vec::new();
    let mut i: usize = 0;
    while i < a.len()
        invariant
            i <= a.len(),
            r@ == a@.take(i as int),
        decreases a.len() - i,
    {
        r.push(a[i]);
        i += 1;
    }
    r
}

fn drop_edits<D: View>(edits: &mut Vec<ResourceEdit<D>>, path: &[u8])
    ensures
        edit_views(final(edits)@) == without_path(edit_views(old(edits)@), path@),
{
    let ghost before = edit_views(edits@);
    let ghost keep = |e: EditView<D::V>| e.path != path@;
    let ghost mut done: int = 0;
    let mut i: usize = 0;
    proof {
        assert(before.take(0) =~= Seq::empty());
        assert(edit_views(edits@) =~= before.take(0).filter(keep) + before.skip(0));
    }
    while i < edits.len()
        invariant
            0 <= done <= before.len(),
            keep == (|e: EditView<D::V>| e.path != path@),
            i == before.take(done).filter(keep).len(),
            i <= edits.len(),
            edits.len() - i == before.len() - done,
            edit_views(edits@) == before.take(done).filter(keep) + before.skip(done),
        decreases edits.len() - i,
    {
        proof {
            assert(edit_views(edits@)[i as int] == before[done]);
            assert(before.take(done + 1) =~= before.take(done).push(before[done]));
            before.take(done).lemma_filter_push(before[done], keep);
        }
        let ghost views = edit_views(edits@);
        if same_bytes(edits[i].raw_resource_path.as_slice(), path) {
            let _removed = edits.remove(i);
            proof {
                assert(edit_views(edits@) =~= views.remove(i as int));
                assert(views.remove(i as int) =~= before.take(done).filter(keep) + before.skip(
                    done + 1,
                ));
            }
        } else {
            proof {
                assert(before.take(done).filter(keep) + before.skip(done) =~= before.take(
                    done,
                ).filter(keep).push(before[done]) + before.skip(done + 1));
            }
            i += 1;
        }
        proof {
            done = done + 1;
        }
    }
    proof {
        assert(before.take(done) =~= before);
        assert(before.skip(done) =~= Seq::empty());
        assert(edit_views(edits@) =~= before.filter(keep));
    }
}

fn drop_paths(paths: &mut Vec<Vec<u8>>, path: &[u8])
    ensures
        path_views(final(paths)@) == without(path_views(old(paths)@), path@),
{
    let ghost before = path_views(paths@);
    let ghost keep = |p: Seq<u8>| p != path@;
    let ghost mut done: int = 0;
    let mut i: usize = 0;
    proof {
        assert(before.take(0) =~= Seq::empty());
        assert(path_views(paths@) =~= before.take(0).filter(keep) + before.skip(0));
    }
    while i < paths.len()
        invariant
            0 <= done <= before.len(),
            keep == (|p: Seq<u8>| p != path@),
            i == before.take(done).filter(keep).len(),
            i <= paths.len(),
            paths.len() - i == before.len() - done,
            path_views(paths@) == before.take(done).filter(keep) + before.skip(done),
        decreases paths.len() - i,
    {
        proof {
            assert(path_views(paths@)[i as int] == before[done]);
            assert(before.take(done + 1) =~= before.take(done).push(before[done]));
            before.take(done).lemma_filter_push(before[done], keep);
        }
        let ghost views = path_views(paths@);
        if same_bytes(paths[i].as_slice(), path) {
            let _removed = paths.remove(i);
            proof {
                assert(path_views(paths@) =~= views.remove(i as int));
                assert(views.remove(i as int) =~= before.take(done).filter(keep) + before.skip(
                    done + 1,
                ));
            }
        } else {
            proof {
                assert(before.take(done).filter(keep) + before.skip(done) =~= before.take(
                    done,
                ).filter(keep).push(before[done]) + before.skip(done + 1));
            }
            i += 1;
        }
        proof {
            done = done + 1;
        }
    }
    proof {
        assert(before.take(done) =~= before);
        assert(before.skip(done) =~= Seq::empty());
        assert(path_views(paths@) =~= before.filter(keep));
    }
}

impl StageArchiveEdits {
    /// No pending edits.
    pub fn new() -> (r: StageArchiveEdits)
        ensures
            r@ == EditsView::none(),
    {
        let r = StageArchiveEdits {
            resource_removals: Vec::new(),
            resources: Vec::new(),
            models: Vec::new(),
            collisions: Vec::new(),
            placement_inserts: Vec::new(),
        };
        assert(r@ =~= EditsView::none());
        r
    }

    fn put_model(&mut self, path: Vec<u8>, operation: EditOperation, document: DocumentId)
        ensures
            final(self)@ == old(self)@.with_model(path@, operation, document),
    {
        drop_paths(&mut self.resource_removals, path.as_slice());
        drop_edits(&mut self.models, path.as_slice());
        let ghost models = self.models@;
        self.models.push(ResourceEdit { raw_resource_path: path, operation, document });
        proof {
            assert(edit_views(self.models@) =~= edit_views(models).push(self.models@.last()@));
            assert(self@ =~= old(self)@.with_model(path@, operation, document));
        }
    }

    /// Adds a model, or takes the place of the one at its path.
    pub fn upsert_model(&mut self, path: Vec<u8>, document: DocumentId)
        ensures
            final(self)@ == old(self)@.with_model(path@, EditOperation::Upsert, document),
    {
        self.put_model(path, EditOperation::Upsert, document);
    }

    /// Takes the place of the model at its path.
    pub fn replace_model(&mut self, path: Vec<u8>, document: DocumentId)
        ensures
            final(self)@ == old(self)@.with_model(path@, EditOperation::Replace, document),
    {
        self.put_model(path, EditOperation::Replace, document);
    }

    /// A resource edit with the given operation.
    pub fn put_resource(
        &mut self,
        path: Vec<u8>,
        operation: EditOperation,
        document: StageResourceDocument,
    )
        ensures
            final(self)@ == old(self)@.with_resource(path@, operation, document@),
    {
        drop_paths(&mut self.resource_removals, path.as_slice());
        drop_edits(&mut self.resources, path.as_slice());
        let ghost resources = self.resources@;
        self.resources.push(ResourceEdit { raw_resource_path: path, operation, document });
        proof {
            assert(edit_views(self.resources@) =~= edit_views(resources).push(
                self.resources@.last()@,
            ));
            assert(self@ =~= old(self)@.with_resource(path@, operation, document@));
        }
    }

    /// Adds a collision file, or takes the place of the one at its path.
    pub fn upsert_collision(&mut self, path: Vec<u8>, document: CollisionDocument)
        ensures
            final(self)@ == old(self)@.with_collision(path@, document),
    {
        drop_paths(&mut self.resource_removals, path.as_slice());
        drop_edits(&mut self.collisions, path.as_slice());
        let ghost collisions = self.collisions@;
        self.collisions.push(
            ResourceEdit {
                raw_resource_path: path,
                operation: EditOperation::Upsert,
                document,
            },
        );
        proof {
            assert(edit_views(self.collisions@) =~= edit_views(collisions).push(
                self.collisions@.last()@,
            ));
            assert(self@ =~= old(self)@.with_collision(path@, document));
        }
    }

    /// Appends a collision file to the one at its path.
    pub fn append_collision(&mut self, path: Vec<u8>, document: CollisionDocument)
        ensures
            final(self)@ == old(self)@.with_appended_collision(path@, document),
    {
        let ghost collisions = self.collisions@;
        self.collisions.push(
            ResourceEdit {
                raw_resource_path: path,
                operation: EditOperation::Append,
                document,
            },
        );
        proof {
            assert(edit_views(self.collisions@) =~= edit_views(collisions).push(
                self.collisions@.last()@,
            ));
            assert(self@ =~= old(self)@.with_appended_collision(path@, document));
        }
    }

    /// Inserts a record below a group of a placement document.
    pub fn insert_placement(
        &mut self,
        path: Vec<u8>,
        parent_record_path: Vec<usize>,
        record: JDramaRecord,
    )
        ensures
            final(self)@ == old(self)@.with_insert(
                (InsertView { path: path@, parent: parent_record_path@, record: record@ }),
            ),
    {
        let ghost inserts = self.placement_inserts@;
        self.placement_inserts.push(
            PlacementInsert { raw_resource_path: path, parent_record_path, record },
        );
        proof {
            assert(insert_views(self.placement_inserts@) =~= insert_views(inserts).push(
                self.placement_inserts@.last()@,
            ));
        }
    }

    /// Removes the resource at `path` and drops what was pending there.
    pub fn remove_resource(&mut self, path: Vec<u8>)
        ensures
            final(self)@ == old(self)@.with_removal(path@),
    {
        drop_edits(&mut self.resources, path.as_slice());
        drop_edits(&mut self.models, path.as_slice());
        drop_edits(&mut self.collisions, path.as_slice());
        drop_paths(&mut self.resource_removals, path.as_slice());
        let ghost removals = self.resource_removals@;
        self.resource_removals.push(path);
        proof {
            assert(path_views(self.resource_removals@) =~= path_views(removals).push(path@));
            assert(self@ =~= old(self)@.with_removal(path@));
        }
    }
}

} // verus!
