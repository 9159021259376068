//! Placing, editing, deleting and undoing model instances.
use vstd::prelude::*;

use crate::editor;
use crate::editor::{EditorEffect, InstanceState, ModelInstanceUndoRecord, SmsEditorApp};
use crate::jdrama::VectorBits;
use crate::model_instances;
use crate::model_instances::{
    EditorModelInstance, ModelInstanceExportMode, ModelInstancePlacement,
    SMS_SM_J3D_ACT_MODEL_LOAD_FLAGS,
};
use crate::search;
use crate::stage_edits::DocumentId;
use crate::text;

verus! {

/// The instance has this id.
pub open spec fn has_instance_id(id: u128) -> spec_fn(EditorModelInstance) -> bool {
    |instance: EditorModelInstance| instance.placement.instance_id == id
}

/// Position of the instance of an id.
pub open spec fn instance_position(list: Seq<EditorModelInstance>, id: u128) -> Option<int> {
    search::first_position(list, has_instance_id(id))
}

/// Position of the instance of an id.
pub fn find_instance(list: &[EditorModelInstance], id: u128) -> (r: Option<usize>)
    ensures
        match r {
            Some(i) => i < list@.len() && instance_position(list@, id) == Some(i as int)
                && list@[i as int].placement.instance_id == id,
            None => instance_position(list@, id) is None,
        },
{
    let mut i: usize = 0;
    while i < list.len()
        invariant
            i <= list.len(),
            forall|j: int| 0 <= j < i ==> !has_instance_id(id)(#[trigger] list@[j]),
        decreases list.len() - i,
    {
        if list[i].placement.instance_id == id {
            proof {
                search::lemma_found(list@, has_instance_id(id), i as int);
            }
            return Some(i);
        }
        i += 1;
    }
    proof {
        search::lemma_not_found(list@, has_instance_id(id));
    }
    None
}

/// The selected instance, unless it is not placed any more.
pub open spec fn kept_selection(selected: Option<u128>, list: Seq<EditorModelInstance>) -> Option<
    u128,
> {
    match selected {
        Some(id) => if instance_position(list, id) is Some {
            selected
        } else {
            None
        },
        None => None,
    }
}

/// Two lists of instances compare as equal.
pub open spec fn lists_equal(a: Seq<EditorModelInstance>, b: Seq<EditorModelInstance>) -> bool {
    a.len() == b.len() && forall|i: int|
        0 <= i < a.len() ==> model_instances::instances_equal(#[trigger] a[i], b[i])
}

fn equal_lists(a: &[EditorModelInstance], b: &[EditorModelInstance]) -> (r: bool)
    ensures
        r == lists_equal(a@, b@),
{
    if a.len() != b.len() {
        return false;
    }
    let mut i: usize = 0;
    while i < a.len()
        invariant
            i <= a.len(),
            a.len() == b.len(),
            forall|j: int|
                0 <= j < i ==> model_instances::instances_equal(#[trigger] a@[j], b@[j]),
        decreases a.len() - i,
    {
        if !model_instances::equal_instances(&a[i], &b[i]) {
            assert(!model_instances::instances_equal(a@[i as int], b@[i as int]));
            return false;
        }
        i += 1;
    }
    true
}

/// What a record of the undo stack holds.
#[verifier::ext_equal]
pub struct InstanceEdit {
    pub label: Seq<char>,
    pub before: Seq<EditorModelInstance>,
    pub after: Seq<EditorModelInstance>,
}

impl View for ModelInstanceUndoRecord {
    type V = InstanceEdit;

    open spec fn view(&self) -> InstanceEdit {
        InstanceEdit { label: self.label@, before: self.before@, after: self.after@ }
    }
}

/// The edits of a stack.
pub open spec fn edits(stack: Seq<ModelInstanceUndoRecord>) -> Seq<InstanceEdit> {
    Seq::new(stack.len(), |i: int| stack[i]@)
}

/// The instances and their undo history.
#[verifier::ext_equal]
pub struct InstanceHistory {
    pub list: Seq<EditorModelInstance>,
    pub undo: Seq<InstanceEdit>,
    pub redo: Seq<InstanceEdit>,
}

impl InstanceHistory {
    /// After the last edit was taken back.
    pub open spec fn undone(self) -> InstanceHistory {
        InstanceHistory {
            list: self.undo.last().before,
            undo: self.undo.drop_last(),
            redo: self.redo.push(self.undo.last()),
        }
    }

    /// After the last edit that was taken back was repeated.
    pub open spec fn redone(self) -> InstanceHistory {
        InstanceHistory {
            list: self.redo.last().after,
            undo: self.undo.push(self.redo.last()),
            redo: self.redo.drop_last(),
        }
    }

    /// After one more edit.
    pub open spec fn edited(
        self,
        label: Seq<char>,
        after: Seq<EditorModelInstance>,
    ) -> InstanceHistory {
        InstanceHistory {
            list: after,
            undo: editor::pushed(self.undo, InstanceEdit { label, before: self.list, after }),
            redo: Seq::empty(),
        }
    }
}

/// Taking an edit back gives the instances as they were before it.
pub proof fn law_undo_takes_an_edit_back(
    history: InstanceHistory,
    label: Seq<char>,
    after: Seq<EditorModelInstance>,
)
    ensures
        history.edited(label, after).undone().list == history.list,
        history.undo.len() < editor::MAX_MODEL_UNDO_RECORDS ==> history.edited(
            label,
            after,
        ).undone().undo == history.undo,
{
    let edit = InstanceEdit { label, before: history.list, after };
    assert(editor::pushed(history.undo, edit).last() == edit);
    assert(history.undo.push(edit).drop_last() =~= history.undo);
}

/// Repeating an edit that was taken back restores everything.
pub proof fn law_redo_reverts_undo(history: InstanceHistory)
    requires
        history.undo.len() > 0,
        history.list == history.undo.last().after,
    ensures
        history.undone().redone() == history,
{
    assert(history.undone().redone() =~= history);
}

impl SmsEditorApp {
    /// The instances and their undo history.
    pub open spec fn instance_history(self) -> InstanceHistory {
        InstanceHistory {
            list: self.instances.list@,
            undo: self.instance_undo(),
            redo: self.instance_redo(),
        }
    }

    /// Everything but the instances, the log and the pending effects is as it was.
    pub open spec fn changes_instances(self, before: SmsEditorApp) -> bool {
        &&& self.project == before.project
        &&& self.catalog == before.catalog
        &&& self.asset == before.asset
        &&& self.preview == before.preview
        &&& self.selected_object_id == before.selected_object_id
        &&& self.model_editor_error == before.model_editor_error
    }

    /// The undo stack of instance edits.
    pub open spec fn instance_undo(self) -> Seq<InstanceEdit> {
        edits(self.instances.undo@)
    }

    /// The redo stack of instance edits.
    pub open spec fn instance_redo(self) -> Seq<InstanceEdit> {
        edits(self.instances.redo@)
    }

    /// Position of the selected instance.
    pub open spec fn selected_position(self) -> Option<int> {
        match self.instances.selected {
            Some(id) => instance_position(self.instances.list@, id),
            None => None,
        }
    }

    /// Position of the selected instance.
    pub fn selected_model_instance(&self) -> (r: Option<usize>)
        ensures
            match r {
                Some(i) => self.selected_position() == Some(i as int) && i
                    < self.instances.list@.len(),
                None => self.selected_position() is None,
            },
    {
        match self.instances.selected {
            Some(id) => find_instance(self.instances.list.as_slice(), id),
            None => None,
        }
    }

    /// Drops a selection of something that is not placed any more.
    pub fn ensure_model_instance_selection_exists(&mut self)
        ensures
            final(self).changes_instances(*old(self)),
            final(self).log == old(self).log,
            final(self).effects == old(self).effects,
            final(self).instances == (InstanceState {
                selected: kept_selection(
                    old(self).instances.selected,
                    old(self).instances.list@,
                ),
                ..old(self).instances
            }),
    {
        if let Some(id) = self.instances.selected {
            if find_instance(self.instances.list.as_slice(), id).is_none() {
                self.instances.selected = None;
            }
        }
    }

    /// Records an edit that the instances have just seen; one that changed nothing is no edit.
    pub fn push_model_instance_undo(&mut self, label: &str, before: Vec<EditorModelInstance>)
        ensures
            final(self).changes_instances(*old(self)),
            final(self).log == old(self).log,
            final(self).effects == old(self).effects,
            final(self).instances.list == old(self).instances.list,
            final(self).instances.selected == old(self).instances.selected,
            final(self).instances.dirty == old(self).instances.dirty,
            final(self).instances.surface_template == old(self).instances.surface_template,
            lists_equal(before@, old(self).instances.list@) ==> final(self).instances
                == old(self).instances,
            !lists_equal(before@, old(self).instances.list@) ==> final(self).instance_history() == (
            InstanceHistory { list: before@, ..old(self).instance_history() }).edited(
                label@,
                old(self).instances.list@,
            ),
    {
        if equal_lists(before.as_slice(), self.instances.list.as_slice()) {
            return;
        }
        let after = model_instances::copy_instances(self.instances.list.as_slice());
        let record = ModelInstanceUndoRecord { label: label.to_owned(), before, after };
        let ghost stack = self.instances.undo@;
        editor::push_bounded(&mut self.instances.undo, record);
        proof {
            assert(edits(self.instances.undo@) =~= editor::pushed(edits(stack), record@));
        }
        self.instances.redo = Vec::new();
        proof {
            assert(edits(self.instances.redo@) =~= Seq::empty());
        }
    }

    /// Takes back the last edit of the instances. Whether there was one.
    pub fn undo_model_instance(&mut self) -> (r: bool)
        ensures
            final(self).changes_instances(*old(self)),
            final(self).instances.surface_template == old(self).instances.surface_template,
            r == (old(self).instances.undo@.len() > 0),
            !r ==> *final(self) == *old(self),
            r ==> ({
                let edit = old(self).instance_undo().last();
                &&& final(self).instance_history() == old(self).instance_history().undone()
                &&& final(self).instances.dirty
                &&& final(self).instances.selected == kept_selection(
                    old(self).instances.selected,
                    edit.before,
                )
                &&& final(self).lines() == old(self).lines().push(
                    "Undo instance edit: "@ + edit.label + "."@,
                )
                &&& final(self).effects@ == old(self).effects@.push(
                    EditorEffect::SaveInstances,
                ).push(EditorEffect::RebuildPreviewCache)
            }),
    {
        if self.instances.undo.len() == 0 {
            return false;
        }
        let ghost undo = self.instances.undo@;
        let ghost redo = self.instances.redo@;
        let record = self.instances.undo.pop().unwrap();
        self.instances.list = model_instances::copy_instances(record.before.as_slice());
        self.instances.dirty = true;
        let line = "Undo instance edit: ".to_owned().concat(record.label.as_str()).concat(".");
        self.write_log(line);
        self.instances.redo.push(record);
        proof {
            assert(edits(self.instances.undo@) =~= edits(undo).drop_last());
            assert(edits(self.instances.redo@) =~= edits(redo).push(record@));
        }
        self.effects.push(EditorEffect::SaveInstances);
        self.ensure_model_instance_selection_exists();
        self.effects.push(EditorEffect::RebuildPreviewCache);
        true
    }

    /// Repeats the last edit that was taken back. Whether there was one.
    pub fn redo_model_instance(&mut self) -> (r: bool)
        ensures
            final(self).changes_instances(*old(self)),
            final(self).instances.surface_template == old(self).instances.surface_template,
            r == (old(self).instances.redo@.len() > 0),
            !r ==> *final(self) == *old(self),
            r ==> ({
                let edit = old(self).instance_redo().last();
                &&& final(self).instance_history() == old(self).instance_history().redone()
                &&& final(self).instances.dirty
                &&& final(self).instances.selected == kept_selection(
                    old(self).instances.selected,
                    edit.after,
                )
                &&& final(self).lines() == old(self).lines().push(
                    "Redo instance edit: "@ + edit.label + "."@,
                )
                &&& final(self).effects@ == old(self).effects@.push(
                    EditorEffect::SaveInstances,
                ).push(EditorEffect::RebuildPreviewCache)
            }),
    {
        if self.instances.redo.len() == 0 {
            return false;
        }
        let ghost undo = self.instances.undo@;
        let ghost redo = self.instances.redo@;
        let record = self.instances.redo.pop().unwrap();
        self.instances.list = model_instances::copy_instances(record.after.as_slice());
        self.instances.dirty = true;
        let line = "Redo instance edit: ".to_owned().concat(record.label.as_str()).concat(".");
        self.write_log(line);
        self.instances.undo.push(record);
        proof {
            assert(edits(self.instances.redo@) =~= edits(redo).drop_last());
            assert(edits(self.instances.undo@) =~= edits(undo).push(record@));
        }
        self.effects.push(EditorEffect::SaveInstances);
        self.ensure_model_instance_selection_exists();
        self.effects.push(EditorEffect::RebuildPreviewCache);
        true
    }

    /// The selected instance was replaced: nothing happens where nothing is selected or the
    /// replacement compares as equal.
    pub open spec fn replaces_selected(
        self,
        before: SmsEditorApp,
        updated: EditorModelInstance,
    ) -> bool {
        let at = before.selected_position();
        let list = before.instances.list@;
        if at is None || model_instances::instances_equal(list[at->Some_0], updated) {
            self.instances == before.instances && self.effects
                == before.effects
        } else {
            let i = at->Some_0;
            let previous = model_instances::loader_flags_of(
                list[i].placement,
                before.project.registry,
                before.project.flags,
            );
            let next = model_instances::loader_flags_of(
                updated.placement,
                before.project.registry,
                before.project.flags,
            );
            &&& self.instance_history() == before.instance_history().edited(
                "Edited model instance"@,
                list.update(i, updated),
            )
            &&& self.instances.dirty
            &&& self.effects@ == before.effects@.push(
                EditorEffect::SaveInstances,
            ).push(
                if same_loader(previous, next) {
                    EditorEffect::RebuildViewport
                } else {
                    EditorEffect::RebuildPreviewCache
                },
            )
        }
    }

    /// Replaces the selected instance. The previews are rebuilt where another loader reads the
    /// model now.
    pub fn update_selected_model_instance(&mut self, updated: EditorModelInstance)
        ensures
            final(self).changes_instances(*old(self)),
            final(self).log == old(self).log,
            final(self).instances.selected == old(self).instances.selected,
            final(self).instances.surface_template == old(self).instances.surface_template,
            final(self).replaces_selected(*old(self), updated),
    {
        let i = match self.selected_model_instance() {
            Some(i) => i,
            None => {
                return;
            },
        };
        if model_instances::equal_instances(&self.instances.list[i], &updated) {
            return;
        }
        let before = model_instances::copy_instances(self.instances.list.as_slice());
        let previous = model_instances::model_instance_loader_flags(
            &self.instances.list[i].placement,
            self.registry(),
            self.project.flags,
        );
        let next = model_instances::model_instance_loader_flags(
            &updated.placement,
            self.registry(),
            self.project.flags,
        );
        self.instances.list.set(i, updated);
        proof {
            assert(!model_instances::instances_equal(
                before@[i as int],
                self.instances.list@[i as int],
            ));
        }
        self.push_model_instance_undo("Edited model instance", before);
        self.instances.dirty = true;
        self.effects.push(EditorEffect::SaveInstances);
        let same = match (previous, next) {
            (Ok(a), Ok(b)) => a == b,
            (Err(_), Err(_)) => true,
            _ => false,
        };
        if same {
            self.effects.push(EditorEffect::RebuildViewport);
        } else {
            self.effects.push(EditorEffect::RebuildPreviewCache);
        }
    }
}

/// The same loader reads both, or none reads either.
pub open spec fn same_loader(
    a: Result<u32, model_instances::LoaderFlagsError>,
    b: Result<u32, model_instances::LoaderFlagsError>,
) -> bool {
    match (a, b) {
        (Ok(x), Ok(y)) => x == y,
        (Err(_), Err(_)) => true,
        _ => false,
    }
}

/// The instance has another id.
pub open spec fn has_other_id(id: u128) -> spec_fn(EditorModelInstance) -> bool {
    |instance: EditorModelInstance| instance.placement.instance_id != id
}

fn drop_instance(list: &[EditorModelInstance], id: u128) -> (r: Vec<EditorModelInstance>)
    ensures
        r@ == list@.filter(has_other_id(id)),
{
    let ghost keep = has_other_id(id);
    let mut r: Vec<EditorModelInstance> = Vec::new();
    let mut i: usize = 0;
    proof {
        assert(list@.take(0).filter(keep) =~= Seq::empty()) by {
            reveal(Seq::filter);
        }
    }
    while i < list.len()
        invariant
            i <= list.len(),
            keep == has_other_id(id),
            r@ == list@.take(i as int).filter(keep),
        decreases list.len() - i,
    {
        proof {
            assert(list@.take(i + 1).drop_last() =~= list@.take(i as int));
            assert(list@.take(i + 1).filter(keep) == (if keep(list@[i as int]) {
                list@.take(i as int).filter(keep).push(list@[i as int])
            } else {
                list@.take(i as int).filter(keep)
            })) by {
                reveal(Seq::filter);
            }
        }
        if list[i].placement.instance_id != id {
            r.push(list[i].duplicate());
        }
        i += 1;
    }
    proof {
        assert(list@.take(i as int) =~= list@);
    }
    r
}

proof fn lemma_dropping_shortens(list: Seq<EditorModelInstance>, id: u128)
    ensures
        list.filter(has_other_id(id)).len() <= list.len(),
        list.filter(has_other_id(id)).len() == list.len() <==> instance_position(list, id) is None,
    decreases list.len(),
{
    reveal(Seq::filter);
    if list.len() > 0 {
        lemma_dropping_shortens(list.drop_last(), id);
    }
}

/// What a model brings to its placement.
#[derive(Debug)]
pub struct PlacedAsset {
    pub name: String,
    pub has_collision: bool,
    pub bounds: Option<(VectorBits, VectorBits)>,
}

/// Bounds of a model without any: a cube of side 100 around the origin.
pub open spec fn default_bounds() -> (VectorBits, VectorBits) {
    (
        VectorBits { x: 0xc248_0000, y: 0xc248_0000, z: 0xc248_0000 },
        VectorBits { x: 0x4248_0000, y: 0x4248_0000, z: 0x4248_0000 },
    )
}

/// The instance stands in this stage.
pub open spec fn in_stage(stage_id: Seq<char>) -> spec_fn(EditorModelInstance) -> bool {
    |instance: EditorModelInstance| text::same_ignoring_case(instance.stage_id@, stage_id)
}

/// Some instance stands in this stage.
pub open spec fn stage_has_instances(list: Seq<EditorModelInstance>, stage_id: Seq<char>) -> bool {
    search::first_position(list, in_stage(stage_id)) is Some
}

fn has_stage_instance(list: &[EditorModelInstance], stage_id: &str) -> (r: bool)
    ensures
        r == stage_has_instances(list@, stage_id@),
{
    let mut i: usize = 0;
    while i < list.len()
        invariant
            i <= list.len(),
            forall|j: int| 0 <= j < i ==> !in_stage(stage_id@)(#[trigger] list@[j]),
        decreases list.len() - i,
    {
        if text::eq_ignoring_case(list[i].stage_id.as_str(), stage_id) {
            proof {
                search::lemma_found(list@, in_stage(stage_id@), i as int);
            }
            return true;
        }
        i += 1;
    }
    proof {
        search::lemma_not_found(list@, in_stage(stage_id@));
    }
    false
}

/// Where the document of a model that is placed comes from.
#[derive(Debug, Clone, Copy, PartialEq, Eq, Structural)]
pub enum PlacementSource {
    /// The open document, where there is one.
    Open(Option<DocumentId>),
    Catalog,
}

/// What completes the placing of a model.
#[derive(Debug)]
pub struct PlacedModel {
    /// The flags of the loader that the preview is built for.
    pub loader_flags: u32,
    /// The line for the log.
    pub report: String,
    /// The model is the first of an authored stage.
    pub frames: bool,
}

/// A placed model, as far as the asset, the stage and the position decide.
pub open spec fn is_placed(
    instance: EditorModelInstance,
    before: SmsEditorApp,
    id: u128,
    instance_id: u128,
    asset: PlacedAsset,
    position: VectorBits,
    terrain: bool,
) -> bool {
    &&& instance.stage_id@ == before.project.stage_id@
    &&& instance.placement.instance_id == instance_id
    &&& instance.placement.asset_id == id
    &&& instance.placement.name@ == asset.name@
    &&& instance.placement.export_mode == (if terrain {
        ModelInstanceExportMode::MapTerrain
    } else {
        ModelInstanceExportMode::SeparateRuntimeObject
    })
    &&& instance.placement.stock_map_obj_resource@.len() == 0
    &&& instance.placement.collision_enabled
    &&& instance.placement.collision_surface_override is None
    &&& instance.placement.transform.translation == position
    &&& instance.placement.transform.rotation == (VectorBits { x: 0, y: 0, z: 0 })
    &&& instance.placement.transform.scale == (VectorBits {
        x: 0x3f80_0000,
        y: 0x3f80_0000,
        z: 0x3f80_0000,
    })
    &&& (instance.bounds_min, instance.bounds_max) == (match asset.bounds {
        Some(bounds) => bounds,
        None => default_bounds(),
    })
}

impl SmsEditorApp {
    /// A stage is open that models can be placed in.
    pub open spec fn can_place(self) -> bool {
        self.project.stage_open && text::trimmed(self.project.stage_id@).len() > 0
    }

    /// Whether a stage is open that models can be placed in.
    pub fn placing_is_possible(&self) -> (r: bool)
        ensures
            r == self.can_place(),
    {
        self.project.stage_open && !text::trim(self.project.stage_id.as_str()).is_empty()
    }

    /// Whether the next model placed in the open stage becomes its terrain.
    pub open spec fn next_is_terrain(self, asset: PlacedAsset) -> bool {
        self.project.authored_blank_stage && asset.has_collision && !exists|i: int|
            0 <= i < self.instances.list@.len() && model_instances::is_terrain_of(
                #[trigger] self.instances.list@[i],
                self.project.stage_id@,
            )
    }

    /// The log while a model is placed.
    pub open spec fn placing_lines(self, asset: PlacedAsset) -> Seq<Seq<char>> {
        if self.next_is_terrain(asset) {
            self.lines().push(
                "The first collision-bearing model in this authored stage was assigned as map terrain."@,
            )
        } else {
            self.lines()
        }
    }

    /// Where the model that is placed comes from: the open document where it is the open asset,
    /// else the catalog.
    pub fn model_placement_source(&self, id: u128) -> (r: PlacementSource)
        ensures
            r == (if self.asset.selected == Some(id) {
                PlacementSource::Open(self.asset.document)
            } else {
                PlacementSource::Catalog
            }),
    {
        match self.asset.selected {
            Some(selected) => if selected == id {
                PlacementSource::Open(self.asset.document)
            } else {
                PlacementSource::Catalog
            },
            None => PlacementSource::Catalog,
        }
    }

    /// Deletes the selected instance. Whether it was placed.
    pub fn delete_selected_model_instance(&mut self) -> (r: bool)
        ensures
            final(self).changes_instances(*old(self)),
            final(self).log == old(self).log,
            final(self).instances.selected is None,
            final(self).instances.surface_template == old(self).instances.surface_template,
            r == (old(self).selected_position() is Some),
            !r ==> final(self).instances.list@ == old(self).instances.list@
                && final(self).instances.dirty == old(self).instances.dirty
                && final(self).instances.undo == old(self).instances.undo
                && final(self).instances.redo == old(self).instances.redo && final(self).effects
                == old(self).effects,
            r ==> ({
                let list = old(self).instances.list@;
                let kept = list.filter(has_other_id(old(self).instances.selected->Some_0));
                &&& final(self).instance_history() == old(self).instance_history().edited(
                    "Deleted model instance"@,
                    kept,
                )
                &&& final(self).instances.dirty
                &&& final(self).effects@ == old(self).effects@.push(
                    EditorEffect::SaveInstances,
                ).push(EditorEffect::RebuildPreviewCache)
            }),
    {
        let id = match self.instances.selected {
            Some(id) => id,
            None => {
                return false;
            },
        };
        self.instances.selected = None;
        let kept = drop_instance(self.instances.list.as_slice(), id);
        proof {
            lemma_dropping_shortens(self.instances.list@, id);
        }
        if kept.len() == self.instances.list.len() {
            return false;
        }
        let before = model_instances::copy_instances(self.instances.list.as_slice());
        self.instances.list = kept;
        self.push_model_instance_undo("Deleted model instance", before);
        self.instances.dirty = true;
        self.effects.push(EditorEffect::SaveInstances);
        self.effects.push(EditorEffect::RebuildPreviewCache);
        true
    }

    /// Places a model in the open stage. `asset` is what the model brings, where it could be
    /// loaded; `saved` is false where unsaved changes of the open asset could not be saved. The
    /// result names the loader flags of the preview that the model needs, and what completes the
    /// placing once the instances are saved.
    pub fn spawn_model_instance_at(
        &mut self,
        id: u128,
        instance_id: u128,
        asset: Option<PlacedAsset>,
        saved: bool,
        position: VectorBits,
        shown_position: &str,
    ) -> (r: Option<PlacedModel>)
        ensures
            final(self).project == old(self).project,
            final(self).catalog == old(self).catalog,
            final(self).preview == old(self).preview,
            final(self).model_editor_error == old(self).model_editor_error,
            final(self).instances.surface_template == old(self).instances.surface_template,
            r is Some <==> old(self).can_place() && saved && asset is Some,
            r is None ==> final(self).instances == old(self).instances && final(self).asset
                == old(self).asset && final(self).selected_object_id
                == old(self).selected_object_id && final(self).effects == old(self).effects
                && final(self).lines() == (if !old(self).can_place() {
                old(self).lines().push("Open a stage before placing a model asset."@)
            } else if !saved {
                old(self).lines()
            } else {
                old(self).lines().push("Could not load the model asset for placement."@)
            }),
            r matches Some(done) ==> (asset matches Some(asset) && ({
                let list = old(self).instances.list@;
                let terrain = old(self).next_is_terrain(asset);
                let placed = final(self).instances.list@.last();
                &&& done.report@ == "Placed model '"@ + asset.name@ + "' at "@ + shown_position@
                    + "."@
                &&& done.frames == (old(self).project.authored_blank_stage && !stage_has_instances(
                    list,
                    old(self).project.stage_id@,
                ))
                &&& done.loader_flags == (if terrain {
                    old(self).project.flags.map
                } else {
                    SMS_SM_J3D_ACT_MODEL_LOAD_FLAGS
                })
                &&& final(self).instance_history() == old(self).instance_history().edited(
                    "Placed model instance"@,
                    list.push(placed),
                )
                &&& is_placed(placed, *old(self), id, instance_id, asset, position, terrain)
                &&& final(self).instances.selected == Some(instance_id)
                &&& final(self).instances.dirty
                &&& final(self).asset == (editor::AssetState {
                    selected: None,
                    document: None,
                    saved: None,
                    ..old(self).asset
                })
                &&& final(self).selected_object_id is None
                &&& final(self).lines() == old(self).placing_lines(asset)
                &&& final(self).effects@ == old(self).effects@.push(
                    EditorEffect::SaveInstances,
                ).push(EditorEffect::RebuildViewport)
            })),
    {
        if !self.placing_is_possible() {
            self.write_log("Open a stage before placing a model asset.".to_owned());
            return None;
        }
        if !saved {
            return None;
        }
        let asset = match asset {
            Some(asset) => asset,
            None => {
                self.write_log("Could not load the model asset for placement.".to_owned());
                return None;
            },
        };
        let mut placement = ModelInstancePlacement::new(
            instance_id,
            id,
            asset.name.as_str(),
            position,
        );
        let first = self.project.authored_blank_stage && !has_stage_instance(
            self.instances.list.as_slice(),
            self.project.stage_id.as_str(),
        );
        let terrain = model_instances::should_default_to_map_terrain(
            self.project.authored_blank_stage,
            asset.has_collision,
            self.project.stage_id.as_str(),
            self.instances.list.as_slice(),
        );
        proof {
            assert(terrain == old(self).next_is_terrain(asset));
        }
        let mut flags = SMS_SM_J3D_ACT_MODEL_LOAD_FLAGS;
        if terrain {
            placement.export_mode = ModelInstanceExportMode::MapTerrain;
            flags = self.project.flags.map;
            self.write_log(
                "The first collision-bearing model in this authored stage was assigned as map terrain.".to_owned(),
            );
        }
        let (bounds_min, bounds_max) = match asset.bounds {
            Some(bounds) => bounds,
            None => (
                VectorBits { x: 0xc248_0000, y: 0xc248_0000, z: 0xc248_0000 },
                VectorBits { x: 0x4248_0000, y: 0x4248_0000, z: 0x4248_0000 },
            ),
        };
        let before = model_instances::copy_instances(self.instances.list.as_slice());
        let instance = EditorModelInstance {
            stage_id: self.project.stage_id.clone(),
            placement,
            bounds_min,
            bounds_max,
        };
        self.instances.selected = Some(instance_id);
        self.asset.selected = None;
        self.asset.document = None;
        self.asset.saved = None;
        self.selected_object_id = None;
        self.instances.list.push(instance);
        self.push_model_instance_undo("Placed model instance", before);
        self.instances.dirty = true;
        self.effects.push(EditorEffect::SaveInstances);
        self.effects.push(EditorEffect::RebuildViewport);
        let report = "Placed model '".to_owned().concat(asset.name.as_str()).concat(
            "' at ",
        ).concat(shown_position).concat(".");
        Some(PlacedModel { loader_flags: flags, report, frames: first })
    }

    /// Completes the placing of a model once the instances are saved: it is reported, and the
    /// first model of an authored stage is brought into view.
    pub fn finish_placing_model(&mut self, placed: PlacedModel)
        ensures
            final(self).only_reports(*old(self)),
            final(self).model_editor_error == old(self).model_editor_error,
            final(self).lines() == old(self).lines().push(placed.report@),
            final(self).effects@ == (if placed.frames {
                old(self).effects@.push(EditorEffect::FrameSelection)
            } else {
                old(self).effects@
            }),
    {
        self.write_log(placed.report);
        if placed.frames {
            self.effects.push(EditorEffect::FrameSelection);
        }
    }
}

/// The place of a 32-bit float in the total order of floats, by its bit pattern.
pub open spec fn total_order(bits: u32) -> int {
    if bits >= 0x8000_0000 {
        0xffff_ffff - bits
    } else {
        bits + 0x8000_0000
    }
}

/// Where an instance appears on the screen: its distance to the camera, where the pointer is near
/// it.
pub open spec fn picked(list: Seq<EditorModelInstance>, depths: Seq<Option<u32>>, stage_id: Seq<char>, n: nat) -> Option<int>
    decreases n,
{
    if n == 0 {
        None
    } else {
        let rest = picked(list, depths, stage_id, (n - 1) as nat);
        if !text::same_ignoring_case(list[n - 1].stage_id@, stage_id) {
            rest
        } else {
            match (depths[n - 1], rest) {
                (None, _) => rest,
                (Some(depth), None) => Some(n - 1),
                (Some(depth), Some(best)) => if total_order(depth) < total_order(
                    depths[best]->Some_0,
                ) {
                    Some(n - 1)
                } else {
                    rest
                },
            }
        }
    }
}

fn order_of(bits: u32) -> (r: u32)
    ensures
        r == total_order(bits),
{
    if bits >= 0x8000_0000 {
        0xffff_ffff - bits
    } else {
        bits + 0x8000_0000
    }
}

/// How a manifest of instances was read.
#[derive(Debug)]
pub enum ManifestOutcome {
    Missing,
    Read { format_version: u32, instances: Vec<EditorModelInstance> },
    Failed { path: String, error: String },
}

/// The version of the manifest that this editor writes.
pub const MODEL_INSTANCE_MANIFEST_VERSION: u32 = 1;

impl SmsEditorApp {
    /// The id of the instance under the pointer: of those near it the one closest to the camera.
    /// `depths` holds, for each instance, its distance where it is near the pointer.
    pub fn model_instance_at_screen_position(&self, depths: &[Option<u32>]) -> (r: Option<u128>)
        requires
            depths@.len() == self.instances.list@.len(),
        ensures
            r == (match picked(
                self.instances.list@,
                depths@,
                self.project.stage_id@,
                depths@.len(),
            ) {
                Some(i) => Some(self.instances.list@[i].placement.instance_id),
                None => None,
            }),
    {
        let mut best: Option<usize> = None;
        let mut best_order: u32 = 0;
        let mut i: usize = 0;
        while i < depths.len()
            invariant
                i <= depths.len(),
                depths@.len() == self.instances.list@.len(),
                match best {
                    Some(b) => b < i && depths@[b as int] is Some && picked(
                        self.instances.list@,
                        depths@,
                        self.project.stage_id@,
                        i as nat,
                    ) == Some(b as int) && best_order == total_order(depths@[b as int]->Some_0),
                    None => picked(
                        self.instances.list@,
                        depths@,
                        self.project.stage_id@,
                        i as nat,
                    ) is None,
                },
            decreases depths.len() - i,
        {
            if text::eq_ignoring_case(
                self.instances.list[i].stage_id.as_str(),
                self.project.stage_id.as_str(),
            ) {
                if let Some(depth) = depths[i] {
                    let place = order_of(depth);
                    if best.is_none() || place < best_order {
                        best = Some(i);
                        best_order = place;
                    }
                }
            }
            i += 1;
        }
        match best {
            Some(b) => Some(self.instances.list[b].placement.instance_id),
            None => None,
        }
    }

    /// Takes over the instances of a manifest. Without a content root, or where there is no
    /// manifest, nothing is placed; a manifest of another version is left alone.
    pub fn load_model_instances(&mut self, outcome: ManifestOutcome)
        ensures
            final(self).changes_instances(*old(self)),
            final(self).instances.selected == old(self).instances.selected,
            final(self).instances.surface_template == old(self).instances.surface_template,
            final(self).instances.undo == old(self).instances.undo,
            final(self).instances.redo == old(self).instances.redo,
            text::trimmed(old(self).project.project_root@).len() == 0 ==> {
                &&& final(self).instances.list@.len() == 0
                &&& final(self).instances.dirty == old(self).instances.dirty
                &&& final(self).lines() == old(self).lines()
                &&& final(self).effects@ == old(self).effects@.push(EditorEffect::RebuildViewport)
            },
            text::trimmed(old(self).project.project_root@).len() > 0 ==> match outcome {
                ManifestOutcome::Missing => {
                    &&& final(self).instances.list@.len() == 0
                    &&& !final(self).instances.dirty
                    &&& final(self).lines() == old(self).lines()
                    &&& final(self).effects@ == old(self).effects@.push(
                        EditorEffect::RebuildViewport,
                    )
                },
                ManifestOutcome::Read { format_version, instances } => if format_version
                    == MODEL_INSTANCE_MANIFEST_VERSION {
                    &&& final(self).instances.list@ == instances@
                    &&& !final(self).instances.dirty
                    &&& final(self).lines() == old(self).lines()
                    &&& final(self).effects@ == old(self).effects@.push(
                        EditorEffect::RebuildPreviewCache,
                    )
                } else {
                    &&& final(self).instances == old(self).instances
                    &&& final(self).effects == old(self).effects
                    &&& final(self).lines() == old(self).lines().push(
                        "Ignored model instance manifest version "@ + text::decimal(
                            format_version as nat,
                        ) + " (expected 1)."@,
                    )
                },
                ManifestOutcome::Failed { path, error } => {
                    &&& final(self).instances == old(self).instances
                    &&& final(self).effects == old(self).effects
                    &&& final(self).lines() == old(self).lines().push(
                        "Could not load '"@ + path@ + "': "@ + error@,
                    )
                },
            },
    {
        if text::trim(self.project.project_root.as_str()).is_empty() {
            self.instances.list = Vec::new();
            self.effects.push(EditorEffect::RebuildViewport);
            return;
        }
        match outcome {
            ManifestOutcome::Missing => {
                self.instances.list = Vec::new();
                self.instances.dirty = false;
                self.effects.push(EditorEffect::RebuildViewport);
            },
            ManifestOutcome::Read { format_version, instances } => {
                if format_version == MODEL_INSTANCE_MANIFEST_VERSION {
                    self.instances.list = instances;
                    self.instances.dirty = false;
                    self.effects.push(EditorEffect::RebuildPreviewCache);
                } else {
                    let number = text::decimal_text(format_version as u128);
                    let line = "Ignored model instance manifest version ".to_owned().concat(
                        number.as_str(),
                    ).concat(" (expected 1).");
                    self.write_log(line);
                }
            },
            ManifestOutcome::Failed { path, error } => {
                let line = "Could not load '".to_owned().concat(path.as_str()).concat("': ").concat(
                    error.as_str(),
                );
                self.write_log(line);
            },
        }
    }

    /// Completes writing the manifest: it is no longer pending where it was written, else the
    /// error goes to the log.
    pub fn save_model_instances(&mut self, outcome: Result<(), String>)
        ensures
            final(self).changes_instances(*old(self)),
            final(self).effects == old(self).effects,
            match outcome {
                Ok(()) => final(self).lines() == old(self).lines() && final(self).instances == (
                InstanceState { dirty: false, ..old(self).instances }),
                Err(error) => final(self).lines() == old(self).lines().push(error@)
                    && final(self).instances == old(self).instances,
            },
    {
        match outcome {
            Ok(()) => {
                self.instances.dirty = false;
            },
            Err(error) => {
                self.write_log(error);
            },
        }
    }
}

} // verus!
