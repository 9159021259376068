//! The editor's own state: what is open, selected, pending and undoable.
//!
//! The application performs what a method asks for (a catalog operation, a file dialog, a
//! rebuild) and hands the outcome back; no method here touches a file.
use vstd::prelude::*;

use crate::jdrama::VectorBits;
use crate::model_instances;
use crate::model_instances::{
    AuthoredModelPreviewKey, CollisionSurface, EditorModelInstance, StageLoaderFlags,
};
use crate::registry::ObjectRegistry;
use crate::preview::ModelPreview;
use crate::stage_edits::DocumentId;
use crate::text;

verus! {

/// How many edits can be undone.
pub const MAX_MODEL_UNDO_RECORDS: usize = 40;

/// An asset in the project's content.
#[derive(Debug)]
pub struct CatalogAssetEntry {
    pub id: u128,
    pub name: String,
    /// Path below the content root, with `/` as separator.
    pub relative_path: String,
    pub mesh_count: usize,
    pub material_count: usize,
    pub texture_count: usize,
    pub has_collision: bool,
}

/// An edit of the open model asset.
#[derive(Debug)]
pub struct ModelAssetUndoRecord {
    pub label: String,
    pub before: DocumentId,
    pub after: DocumentId,
}

/// An edit of the placed instances.
#[derive(Debug)]
pub struct ModelInstanceUndoRecord {
    pub label: String,
    pub before: Vec<EditorModelInstance>,
    pub after: Vec<EditorModelInstance>,
}

/// Work that the application has to do, in order.
#[derive(Debug, Clone, Copy, PartialEq, Eq, Structural)]
pub enum EditorEffect {
    /// Scan the content root and hand the result to `finish_catalog_scan`.
    ScanCatalog,
    /// Read the instance manifest and hand it to `apply_instance_manifest`.
    LoadInstances,
    /// Write the instance manifest when instances are pending.
    SaveInstances,
    /// Run `rebuild_model_preview_cache`.
    RebuildPreviewCache,
    /// Rebuild the viewport scene and drop its cached picture.
    RebuildViewport,
    /// Rewrite the material draft from the open document.
    SyncMaterialDraft,
    /// Rewrite the texture draft from the open document.
    SyncTextureDraft,
    /// Tell the running import to stop.
    CancelImport,
    /// Point the camera at the selected instance.
    FrameSelection,
    /// Open an asset, as `select_model_asset` does.
    SelectAsset(u128),
}

/// The open project and stage.
#[derive(Debug)]
pub struct ProjectState {
    pub project_root: String,
    pub stage_id: String,
    pub stage_open: bool,
    /// The open stage was authored from scratch.
    pub authored_blank_stage: bool,
    /// A build or another background operation reads the content snapshot.
    pub background_active: bool,
    pub registry: Option<ObjectRegistry>,
    pub flags: StageLoaderFlags,
}

/// The content catalog as last scanned, and the drafts of the browser.
#[derive(Debug)]
pub struct CatalogState {
    pub root: Option<String>,
    pub entries: Vec<CatalogAssetEntry>,
    pub issues: Vec<String>,
    pub folder_filter: Option<String>,
    pub asset_filter: String,
    pub rename_draft: String,
    pub move_draft: String,
    pub folder_draft: String,
    pub import_running: bool,
}

/// The open model asset.
#[derive(Debug)]
pub struct AssetState {
    pub selected: Option<u128>,
    pub document: Option<DocumentId>,
    pub saved: Option<DocumentId>,
    pub material: usize,
    pub texture: usize,
    pub dirty: bool,
    pub undo: Vec<ModelAssetUndoRecord>,
    pub redo: Vec<ModelAssetUndoRecord>,
}

/// The placed instances of all stages.
#[derive(Debug)]
pub struct InstanceState {
    pub list: Vec<EditorModelInstance>,
    pub selected: Option<u128>,
    pub dirty: bool,
    pub undo: Vec<ModelInstanceUndoRecord>,
    pub redo: Vec<ModelInstanceUndoRecord>,
    pub surface_template: Option<CollisionSurface>,
}

/// What the stage preview held before authored instances were appended.
#[derive(Debug, Clone, Copy, PartialEq, Eq, Structural)]
pub struct AuthoredModelPreviewBase {
    pub had_stage_preview: bool,
    pub triangle_count: usize,
    pub texture_count: usize,
    pub material_count: usize,
    pub material_binding_count: usize,
    pub bounds: PreviewBounds,
}

/// Bounds of a preview.
#[derive(Debug, Clone, Copy, PartialEq, Eq, Structural)]
pub struct PreviewBounds {
    pub min: VectorBits,
    pub max: VectorBits,
    pub camera_min: VectorBits,
    pub camera_max: VectorBits,
}

/// The catalog operations that a method may ask for.
#[derive(Debug)]
pub enum CatalogRequest {
    Save { id: u128, document: DocumentId },
    Rename { id: u128, name: String },
    Move { id: u128, folder: String },
    Duplicate { id: u128, destination: String },
    Delete { id: u128, references: Vec<String> },
    CreateFolder { folder: String },
}

/// The cached previews and the stage preview they are appended to.
#[derive(Debug)]
pub struct PreviewState {
    /// Keys of the compiled previews that the application holds.
    pub cache: Vec<AuthoredModelPreviewKey>,
    pub model: Option<ModelPreview>,
    pub base: Option<AuthoredModelPreviewBase>,
}

/// The editor.
#[derive(Debug)]
pub struct SmsEditorApp {
    pub project: ProjectState,
    pub catalog: CatalogState,
    pub asset: AssetState,
    pub instances: InstanceState,
    pub preview: PreviewState,
    pub selected_object_id: Option<String>,
    pub model_editor_error: Option<String>,
    pub log: Vec<String>,
    /// What the application has to do, in order. What an effect itself asks for is done before the
    /// effects behind it.
    pub effects: Vec<EditorEffect>,
}

impl SmsEditorApp {
    /// The lines of the log.
    pub open spec fn lines(self) -> Seq<Seq<char>> {
        text::views(self.log@)
    }

    /// The reported error.
    pub open spec fn error(self) -> Option<Seq<char>> {
        match self.model_editor_error {
            Some(error) => Some(error@),
            None => None,
        }
    }

    /// Everything but the log, the reported error and the pending effects is as it was.
    pub open spec fn only_reports(self, before: SmsEditorApp) -> bool {
        &&& self.project == before.project
        &&& self.catalog == before.catalog
        &&& self.asset == before.asset
        &&& self.instances == before.instances
        &&& self.preview == before.preview
        &&& self.selected_object_id == before.selected_object_id
    }

    /// The registry, as a value.
    pub fn registry(&self) -> (r: Option<&ObjectRegistry>)
        ensures
            model_instances::registry_value(r) == self.project.registry,
    {
        match &self.project.registry {
            Some(registry) => Some(registry),
            None => None,
        }
    }

    /// Everything but the pending effects is as it was.
    pub open spec fn changes_effects(self, before: SmsEditorApp) -> bool {
        &&& self.only_reports(before)
        &&& self.model_editor_error == before.model_editor_error
        &&& self.log == before.log
    }

    /// Takes the next effect, and those behind it: while it is done, only what it asks for itself
    /// is pending.
    pub fn next_effect(&mut self) -> (r: Option<(EditorEffect, Vec<EditorEffect>)>)
        ensures
            final(self).changes_effects(*old(self)),
            final(self).effects@.len() == 0,
            match r {
                None => old(self).effects@.len() == 0,
                Some((effect, behind)) => old(self).effects@.len() > 0 && effect
                    == old(self).effects@[0] && behind@ == old(self).effects@.skip(1),
            },
    {
        if self.effects.len() == 0 {
            return None;
        }
        let mut effects: Vec<EditorEffect> = Vec::new();
        std::mem::swap(&mut self.effects, &mut effects);
        let ghost all = effects@;
        let effect = effects.remove(0);
        proof {
            assert(effects@ =~= all.skip(1));
        }
        Some((effect, effects))
    }

    /// Goes on with the effects behind one that was done: first those that it asked for itself.
    pub fn resume_effects(&mut self, behind: Vec<EditorEffect>)
        ensures
            final(self).changes_effects(*old(self)),
            final(self).effects@ == old(self).effects@ + behind@,
    {
        let mut behind = behind;
        self.effects.append(&mut behind);
    }

    /// Appends a line to the log.
    pub fn write_log(&mut self, line: String)
        ensures
            final(self).lines() == old(self).lines().push(line@),
            final(self).only_reports(*old(self)),
            final(self).model_editor_error == old(self).model_editor_error,
            final(self).effects == old(self).effects,
    {
        self.log.push(line);
        proof {
            assert(self.lines() =~= old(self).lines().push(line@));
        }
    }
}

/// A bounded undo stack after one more record.
pub open spec fn pushed<T>(stack: Seq<T>, record: T) -> Seq<T> {
    if stack.len() + 1 > MAX_MODEL_UNDO_RECORDS {
        stack.push(record).drop_first()
    } else {
        stack.push(record)
    }
}

/// Pushes onto a bounded undo stack.
pub fn push_bounded<T>(stack: &mut Vec<T>, record: T)
    ensures
        final(stack)@ == pushed(old(stack)@, record),
{
    stack.push(record);
    if stack.len() > MAX_MODEL_UNDO_RECORDS {
        let _dropped = stack.remove(0);
        proof {
            assert(stack@ =~= old(stack)@.push(record).drop_first());
        }
    }
}

/// A bounded undo stack never grows past its limit.
pub proof fn law_undo_stack_stays_bounded<T>(stack: Seq<T>, record: T)
    requires
        stack.len() <= MAX_MODEL_UNDO_RECORDS,
    ensures
        pushed(stack, record).len() <= MAX_MODEL_UNDO_RECORDS,
        pushed(stack, record).last() == record,
{
}

} // verus!
