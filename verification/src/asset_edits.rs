//! Edits of the open model asset and their undo history, and what the content browser shows.
use vstd::prelude::*;

use crate::asset_names;
use crate::asset_operations;
use crate::editor;
use crate::editor_assets;
use crate::editor::{CatalogAssetEntry, EditorEffect, ModelAssetUndoRecord, SmsEditorApp};
use crate::ids;
use crate::model_instances::{GxDiagnosticSeverity, GxMaterialDiagnostic};
use crate::order;
use crate::stage_edits::DocumentId;
use crate::text;

verus! {

/// What a record of the undo stack holds.
#[verifier::ext_equal]
pub struct AssetEdit {
    pub label: Seq<char>,
    pub before: DocumentId,
    pub after: DocumentId,
}

impl View for ModelAssetUndoRecord {
    type V = AssetEdit;

    open spec fn view(&self) -> AssetEdit {
        AssetEdit { label: self.label@, before: self.before, after: self.after }
    }
}

/// The edits of a stack.
pub open spec fn edits(stack: Seq<ModelAssetUndoRecord>) -> Seq<AssetEdit> {
    Seq::new(stack.len(), |i: int| stack[i]@)
}

/// The open document, whether it differs from the saved one, and the undo history.
#[verifier::ext_equal]
pub struct AssetHistory {
    pub document: Option<DocumentId>,
    pub saved: Option<DocumentId>,
    pub dirty: bool,
    pub undo: Seq<AssetEdit>,
    pub redo: Seq<AssetEdit>,
}

impl AssetHistory {
    /// After an edit. One that changes nothing, or edits nothing, leaves everything as it was.
    pub open spec fn edited(self, label: Seq<char>, after: DocumentId) -> AssetHistory {
        match self.document {
            Some(before) => if before == after {
                self
            } else {
                AssetHistory {
                    document: Some(after),
                    saved: self.saved,
                    dirty: self.saved != Some(after),
                    undo: editor::pushed(self.undo, AssetEdit { label, before, after }),
                    redo: Seq::empty(),
                }
            },
            None => self,
        }
    }

    /// After the last edit was taken back.
    pub open spec fn undone(self) -> AssetHistory {
        if self.undo.len() == 0 {
            self
        } else {
            AssetHistory {
                document: Some(self.undo.last().before),
                saved: self.saved,
                dirty: self.saved != Some(self.undo.last().before),
                undo: self.undo.drop_last(),
                redo: self.redo.push(self.undo.last()),
            }
        }
    }

    /// After the last edit that was taken back was repeated.
    pub open spec fn redone(self) -> AssetHistory {
        if self.redo.len() == 0 {
            self
        } else {
            AssetHistory {
                document: Some(self.redo.last().after),
                saved: self.saved,
                dirty: self.saved != Some(self.redo.last().after),
                undo: self.undo.push(self.redo.last()),
                redo: self.redo.drop_last(),
            }
        }
    }

    /// The last edit led to the open document, and the asset is dirty where that differs from the
    /// saved one.
    pub open spec fn wf(self) -> bool {
        &&& self.undo.len() > 0 ==> self.document == Some(self.undo.last().after)
        &&& self.dirty == (self.saved != self.document)
        &&& forall|i: int|
            0 <= i < self.undo.len() - 1 ==> (#[trigger] self.undo[i]).after == self.undo[i
                + 1].before
        &&& forall|i: int|
            0 <= i < self.redo.len() - 1 ==> (#[trigger] self.redo[i]).before == self.redo[i
                + 1].after
        &&& self.redo.len() > 0 ==> self.document == Some(self.redo.last().before)
    }
}

/// The history stays in step with the open document through edits, undo and redo.
pub proof fn law_history_stays_in_step(history: AssetHistory, label: Seq<char>, after: DocumentId)
    requires
        history.wf(),
    ensures
        history.edited(label, after).wf(),
        history.undone().wf(),
        history.redone().wf(),
{
    if let Some(before) = history.document {
        if before != after {
            let edit = AssetEdit { label, before, after };
            let pushed = history.undo.push(edit);
            let stack = editor::pushed(history.undo, edit);
            let shift = if history.undo.len() + 1 > editor::MAX_MODEL_UNDO_RECORDS {
                1int
            } else {
                0int
            };
            assert forall|i: int| 0 <= i < stack.len() - 1 implies (#[trigger] stack[i]).after
                == stack[i + 1].before by {
                assert(stack[i] == pushed[i + shift]);
                assert(stack[i + 1] == pushed[i + 1 + shift]);
                if i + shift < history.undo.len() - 1 {
                    assert(history.undo[i + shift].after == history.undo[i + shift + 1].before);
                }
            }
        }
    }
    if history.undo.len() > 0 {
        let last = history.undo.last();
        let rest = history.undo.drop_last();
        if rest.len() > 0 {
            assert(history.undo[rest.len() - 1].after == history.undo[rest.len() as int].before);
        }
        let redo = history.redo.push(last);
        assert forall|i: int| 0 <= i < redo.len() - 1 implies (#[trigger] redo[i]).before == redo[i
            + 1].after by {
            if i < history.redo.len() - 1 {
                assert(history.redo[i].before == history.redo[i + 1].after);
            }
        }
    }
    if history.redo.len() > 0 {
        let last = history.redo.last();
        let rest = history.redo.drop_last();
        if rest.len() > 0 {
            assert(history.redo[rest.len() - 1].before == history.redo[rest.len() as int].after);
        }
        let undo = history.undo.push(last);
        assert forall|i: int| 0 <= i < undo.len() - 1 implies (#[trigger] undo[i]).after == undo[i
            + 1].before by {
            if i < history.undo.len() - 1 {
                assert(history.undo[i].after == history.undo[i + 1].before);
            }
        }
    }
}

/// Taking an edit back gives the document as it was, and repeating it gives the edited one.
pub proof fn law_undo_and_redo_are_inverse(history: AssetHistory, label: Seq<char>, after: DocumentId)
    requires
        history.document is Some,
        history.document != Some(after),
        history.dirty == (history.saved != history.document),
    ensures
        history.edited(label, after).undone().document == history.document,
        history.edited(label, after).undone().dirty == history.dirty,
        history.edited(label, after).undone().redone() == history.edited(label, after),
{
    let edited = history.edited(label, after);
    let edit = AssetEdit { label, before: history.document->Some_0, after };
    assert(edited.undo.last() == edit);
    assert(edited.undone().redone() =~= edited);
}

impl SmsEditorApp {
    /// The history of the open asset.
    pub open spec fn asset_history(self) -> AssetHistory {
        AssetHistory {
            document: self.asset.document,
            saved: self.asset.saved,
            dirty: self.asset.dirty,
            undo: edits(self.asset.undo@),
            redo: edits(self.asset.redo@),
        }
    }

    /// Everything but the open asset's history, the log, the reported error and the pending
    /// effects is as it was.
    pub open spec fn changes_asset(self, before: SmsEditorApp) -> bool {
        &&& self.project == before.project
        &&& self.catalog == before.catalog
        &&& self.instances == before.instances
        &&& self.preview == before.preview
        &&& self.selected_object_id == before.selected_object_id
        &&& self.asset.selected == before.asset.selected
        &&& self.asset.material == before.asset.material
        &&& self.asset.texture == before.asset.texture
    }

    /// The edit does something.
    pub open spec fn edit_counts(self, after: DocumentId) -> bool {
        self.asset.document is Some && self.asset.document != Some(after)
    }

    /// Takes over an edited document of the open asset.
    pub fn mutate_model_asset(&mut self, label: &str, after: DocumentId)
        ensures
            final(self).changes_asset(*old(self)),
            final(self).asset_history() == old(self).asset_history().edited(label@, after),
            final(self).log == old(self).log,
            !old(self).edit_counts(after) ==> *final(self) == *old(self),
            old(self).edit_counts(after) ==> final(self).model_editor_error is None
                && final(self).effects@ == old(self).effects@.push(EditorEffect::SyncMaterialDraft),
    {
        let before = match self.asset.document {
            Some(before) => before,
            None => {
                return;
            },
        };
        if before == after {
            return;
        }
        let ghost stack = self.asset.undo@;
        let record = ModelAssetUndoRecord { label: label.to_owned(), before, after };
        self.asset.document = Some(after);
        editor::push_bounded(&mut self.asset.undo, record);
        proof {
            assert(edits(self.asset.undo@) =~= editor::pushed(edits(stack), record@));
        }
        self.asset.redo = Vec::new();
        proof {
            assert(edits(self.asset.redo@) =~= Seq::empty());
        }
        self.asset.dirty = self.asset.saved != Some(after);
        self.effects.push(EditorEffect::SyncMaterialDraft);
        self.model_editor_error = None;
    }

    /// Takes back the last edit of the open asset. Whether there was one.
    pub fn undo_model_asset(&mut self) -> (r: bool)
        ensures
            final(self).changes_asset(*old(self)),
            final(self).asset_history() == old(self).asset_history().undone(),
            r == (old(self).asset.undo@.len() > 0),
            !r ==> *final(self) == *old(self),
            r ==> final(self).model_editor_error is None && final(self).lines()
                == old(self).lines().push(
                "Undo model edit: "@ + old(self).asset_history().undo.last().label + "."@,
            ) && final(self).effects@ == old(self).effects@.push(
                EditorEffect::SyncMaterialDraft,
            ).push(EditorEffect::SyncTextureDraft),
    {
        if self.asset.undo.len() == 0 {
            return false;
        }
        let ghost undo = self.asset.undo@;
        let ghost redo = self.asset.redo@;
        let record = self.asset.undo.pop().unwrap();
        self.asset.document = Some(record.before);
        self.asset.dirty = self.asset.saved != Some(record.before);
        let line = "Undo model edit: ".to_owned().concat(record.label.as_str()).concat(".");
        self.write_log(line);
        self.asset.redo.push(record);
        proof {
            assert(edits(self.asset.undo@) =~= edits(undo).drop_last());
            assert(edits(self.asset.redo@) =~= edits(redo).push(record@));
        }
        self.effects.push(EditorEffect::SyncMaterialDraft);
        self.effects.push(EditorEffect::SyncTextureDraft);
        self.model_editor_error = None;
        true
    }

    /// Repeats the last edit of the open asset that was taken back. Whether there was one.
    pub fn redo_model_asset(&mut self) -> (r: bool)
        ensures
            final(self).changes_asset(*old(self)),
            final(self).asset_history() == old(self).asset_history().redone(),
            r == (old(self).asset.redo@.len() > 0),
            !r ==> *final(self) == *old(self),
            r ==> final(self).model_editor_error is None && final(self).lines()
                == old(self).lines().push(
                "Redo model edit: "@ + old(self).asset_history().redo.last().label + "."@,
            ) && final(self).effects@ == old(self).effects@.push(
                EditorEffect::SyncMaterialDraft,
            ).push(EditorEffect::SyncTextureDraft),
    {
        if self.asset.redo.len() == 0 {
            return false;
        }
        let ghost undo = self.asset.undo@;
        let ghost redo = self.asset.redo@;
        let record = self.asset.redo.pop().unwrap();
        self.asset.document = Some(record.after);
        self.asset.dirty = self.asset.saved != Some(record.after);
        let line = "Redo model edit: ".to_owned().concat(record.label.as_str()).concat(".");
        self.write_log(line);
        self.asset.undo.push(record);
        proof {
            assert(edits(self.asset.redo@) =~= edits(redo).drop_last());
            assert(edits(self.asset.undo@) =~= edits(undo).push(record@));
        }
        self.effects.push(EditorEffect::SyncMaterialDraft);
        self.effects.push(EditorEffect::SyncTextureDraft);
        self.model_editor_error = None;
        true
    }

    /// Takes over a drafted texture encoding: the document with it, or why the draft cannot be
    /// read.
    pub fn apply_texture_json_draft(&mut self, drafted: Result<DocumentId, String>)
        ensures
            final(self).changes_asset(*old(self)),
            final(self).log == old(self).log,
            match drafted {
                Err(error) => final(self).asset_history() == old(self).asset_history()
                    && final(self).effects == old(self).effects && final(self).error() == Some(
                    "Invalid TEX1 encode state: "@ + error@,
                ),
                Ok(after) => final(self).asset_history() == old(self).asset_history().edited(
                    "Applied TEX1 encode state"@,
                    after,
                ) && final(self).model_editor_error is None && final(self).effects@ == (
                if old(self).edit_counts(after) {
                    old(self).effects@.push(EditorEffect::SyncMaterialDraft)
                } else {
                    old(self).effects@
                }).push(EditorEffect::SyncTextureDraft),
            },
    {
        match drafted {
            Err(error) => {
                self.model_editor_error = Some(
                    "Invalid TEX1 encode state: ".to_owned().concat(error.as_str()),
                );
            },
            Ok(after) => {
                self.mutate_model_asset("Applied TEX1 encode state", after);
                self.effects.push(EditorEffect::SyncTextureDraft);
                self.model_editor_error = None;
            },
        }
    }

    /// Takes over a drafted material: the document with it, or why the draft cannot be read. Where
    /// the open document is then invalid, the last edit is taken back.
    pub fn apply_gx_json_draft(
        &mut self,
        drafted: Result<DocumentId, String>,
        validity: Result<(), String>,
    )
        ensures
            final(self).changes_asset(*old(self)),
            match drafted {
                Err(error) => final(self).asset_history() == old(self).asset_history()
                    && final(self).effects == old(self).effects && final(self).log
                    == old(self).log && final(self).error() == Some(
                    "Invalid complete GX state: "@ + error@,
                ),
                Ok(after) => {
                    let edited = old(self).asset_history().edited(
                        "Applied complete GX state"@,
                        after,
                    );
                    let synced = if old(self).edit_counts(after) {
                        old(self).effects@.push(EditorEffect::SyncMaterialDraft)
                    } else {
                        old(self).effects@
                    };
                    if validity is Ok || old(self).asset.document is None {
                        &&& final(self).asset_history() == edited
                        &&& final(self).log == old(self).log
                        &&& final(self).effects@ == synced
                        &&& final(self).error() == if old(self).edit_counts(after) {
                            None
                        } else {
                            old(self).error()
                        }
                    } else {
                        &&& final(self).asset_history() == edited.undone()
                        &&& final(self).error() == Some(
                            "GX state is not valid for BMD3: "@ + validity->Err_0@,
                        )
                        &&& if edited.undo.len() > 0 {
                            &&& final(self).lines() == old(self).lines().push(
                                "Undo model edit: "@ + edited.undo.last().label + "."@,
                            )
                            &&& final(self).effects@ == synced.push(
                                EditorEffect::SyncMaterialDraft,
                            ).push(EditorEffect::SyncTextureDraft)
                        } else {
                            &&& final(self).log == old(self).log
                            &&& final(self).effects@ == synced
                        }
                    }
                },
            },
    {
        match drafted {
            Err(error) => {
                self.model_editor_error = Some(
                    "Invalid complete GX state: ".to_owned().concat(error.as_str()),
                );
            },
            Ok(after) => {
                self.mutate_model_asset("Applied complete GX state", after);
                if self.asset.document.is_some() {
                    if let Err(error) = validity {
                        let _undone = self.undo_model_asset();
                        self.model_editor_error = Some(
                            "GX state is not valid for BMD3: ".to_owned().concat(error.as_str()),
                        );
                    }
                }
            },
        }
    }

    /// Whether a model can be placed now; the log says how to go on.
    pub fn arm_model_placement(&mut self, id: u128) -> (r: bool)
        ensures
            r == old(self).can_place(),
            final(self).only_reports(*old(self)),
            final(self).model_editor_error == old(self).model_editor_error,
            final(self).effects == old(self).effects,
            final(self).lines() == old(self).lines().push(
                if !r {
                    "Open a stage before placing a model asset."@
                } else {
                    "Placing model '"@ + (match asset_operations::entry_position(
                        old(self).catalog.entries@,
                        id,
                    ) {
                        Some(i) => old(self).catalog.entries@[i].name@,
                        None => ids::hyphenated(id),
                    }) + "': click in the viewport to choose its position."@
                },
            ),
    {
        if !self.project.stage_open || text::trim(self.project.stage_id.as_str()).is_empty() {
            self.write_log("Open a stage before placing a model asset.".to_owned());
            return false;
        }
        let label = match asset_operations::find_entry(self.catalog.entries.as_slice(), id) {
            Some(i) => self.catalog.entries[i].name.clone(),
            None => ids::hyphenated_text(id),
        };
        let line = "Placing model '".to_owned().concat(label.as_str()).concat(
            "': click in the viewport to choose its position.",
        );
        self.write_log(line);
        true
    }
}

/// How a severity is written.
pub open spec fn severity_name(severity: GxDiagnosticSeverity) -> Seq<char> {
    match severity {
        GxDiagnosticSeverity::Warning => "Warning"@,
        GxDiagnosticSeverity::Error => "Error"@,
    }
}

/// The line about a diagnostic.
pub open spec fn diagnostic_line(diagnostic: GxMaterialDiagnostic) -> Seq<char> {
    severity_name(diagnostic.severity) + " ["@ + diagnostic.code@ + "] material "@ + text::decimal(
        diagnostic.material_index as nat,
    ) + ": "@ + diagnostic.message@
}

/// The lines about what a loader makes of the open asset's materials.
pub fn model_target_diagnostics(diagnostics: &[GxMaterialDiagnostic]) -> (r: Vec<String>)
    ensures
        text::views(r@) == Seq::new(
            diagnostics@.len(),
            |i: int| diagnostic_line(diagnostics@[i]),
        ),
{
    let mut r: Vec<String> = Vec::new();
    let mut i: usize = 0;
    while i < diagnostics.len()
        invariant
            i <= diagnostics.len(),
            r@.len() == i,
            forall|j: int| 0 <= j < i ==> (#[trigger] r@[j])@ == diagnostic_line(diagnostics@[j]),
        decreases diagnostics.len() - i,
    {
        let diagnostic = &diagnostics[i];
        let severity = match diagnostic.severity {
            GxDiagnosticSeverity::Warning => "Warning",
            GxDiagnosticSeverity::Error => "Error",
        };
        let number = text::decimal_text(diagnostic.material_index as u128);
        let line = severity.to_owned().concat(" [").concat(diagnostic.code.as_str()).concat(
            "] material ",
        ).concat(number.as_str()).concat(": ").concat(diagnostic.message.as_str());
        r.push(line);
        i += 1;
    }
    proof {
        assert(text::views(r@) =~= Seq::new(
            diagnostics@.len(),
            |i: int| diagnostic_line(diagnostics@[i]),
        ));
    }
    r
}

/// The entry passes the browser's filters: it lies in the chosen folder, and its name or path holds
/// the filter text, up to case.
pub open spec fn is_visible(
    entry: CatalogAssetEntry,
    folder: Option<Seq<char>>,
    filter: Seq<char>,
) -> bool {
    &&& match folder {
        Some(folder) => asset_names::folder_of(entry.relative_path@) == folder,
        None => true,
    }
    &&& filter.len() == 0 || text::occurs_in(text::lower(entry.name@), filter) || text::occurs_in(
        text::lower(entry.relative_path@),
        filter,
    )
}

/// The visible ones of the first `n` entries.
pub open spec fn visible(
    entries: Seq<CatalogAssetEntry>,
    folder: Option<Seq<char>>,
    filter: Seq<char>,
    n: nat,
) -> Seq<usize>
    decreases n,
{
    if n == 0 {
        Seq::empty()
    } else {
        let rest = visible(entries, folder, filter, (n - 1) as nat);
        if is_visible(entries[n - 1], folder, filter) {
            rest.push((n - 1) as usize)
        } else {
            rest
        }
    }
}

/// Some entry lies in this folder.
pub open spec fn has_folder(entries: Seq<CatalogAssetEntry>, folder: Seq<char>, n: int) -> bool {
    folder.len() > 0 && exists|i: int|
        0 <= i < n && text::with_replaced(
            asset_names::folder_of((#[trigger] entries[i]).relative_path@),
            '\\',
            '/',
        ) == folder
}

impl SmsEditorApp {
    /// Positions of the assets that the browser shows.
    pub fn visible_model_assets(&self) -> (r: Vec<usize>)
        ensures
            r@ == visible(
                self.catalog.entries@,
                editor_assets::optional_text(self.catalog.folder_filter),
                text::lower(text::trimmed(self.catalog.asset_filter@)),
                self.catalog.entries@.len(),
            ),
    {
        let filter = text::to_lower(text::trim(self.catalog.asset_filter.as_str()));
        let ghost folder = editor_assets::optional_text(self.catalog.folder_filter);
        let mut r: Vec<usize> = Vec::new();
        let mut i: usize = 0;
        while i < self.catalog.entries.len()
            invariant
                i <= self.catalog.entries.len(),
                folder == editor_assets::optional_text(self.catalog.folder_filter),
                filter@ == text::lower(text::trimmed(self.catalog.asset_filter@)),
                r@ == visible(self.catalog.entries@, folder, filter@, i as nat),
            decreases self.catalog.entries.len() - i,
        {
            let entry = &self.catalog.entries[i];
            let placed = match &self.catalog.folder_filter {
                Some(wanted) => text::same(
                    asset_names::find_folder(entry.relative_path.as_str()).as_str(),
                    wanted.as_str(),
                ),
                None => true,
            };
            let matching = filter.as_str().is_empty() || text::contains(
                text::to_lower(entry.name.as_str()).as_str(),
                filter.as_str(),
            ) || text::contains(
                text::to_lower(entry.relative_path.as_str()).as_str(),
                filter.as_str(),
            );
            if placed && matching {
                r.push(i);
            }
            i += 1;
        }
        r
    }

    /// The folders that hold assets, in order and each once.
    pub fn model_asset_folders(&self) -> (r: Vec<String>)
        ensures
            order::strictly_sorted(text::views(r@)),
            forall|folder: Seq<char>|
                text::views(r@).contains(folder) <==> #[trigger] has_folder(
                    self.catalog.entries@,
                    folder,
                    self.catalog.entries@.len() as int,
                ),
    {
        let ghost entries = self.catalog.entries@;
        let mut r: Vec<String> = Vec::new();
        let mut i: usize = 0;
        proof {
            assert(text::views(r@) =~= Seq::empty());
        }
        while i < self.catalog.entries.len()
            invariant
                i <= self.catalog.entries.len(),
                entries == self.catalog.entries@,
                order::strictly_sorted(text::views(r@)),
                forall|folder: Seq<char>|
                    text::views(r@).contains(folder) <==> #[trigger] has_folder(
                        entries,
                        folder,
                        i as int,
                    ),
            decreases self.catalog.entries.len() - i,
        {
            let folder = asset_names::find_folder(
                self.catalog.entries[i].relative_path.as_str(),
            );
            let ghost before = text::views(r@);
            let ghost found = text::with_replaced(folder@, '\\', '/');
            if !folder.as_str().is_empty() {
                order::insert_text(&mut r, text::replaced(folder.as_str(), '\\', '/'));
            }
            proof {
                assert(found.len() == folder@.len());
                assert forall|folder: Seq<char>|
                    text::views(r@).contains(folder) <==> #[trigger] has_folder(
                        entries,
                        folder,
                        i + 1,
                    ) by {
                    assert(before.contains(folder) == has_folder(entries, folder, i as int));
                    lemma_one_more_folder(entries, folder, i as int);
                }
            }
            i += 1;
        }
        r
    }
}

proof fn lemma_one_more_folder(entries: Seq<CatalogAssetEntry>, folder: Seq<char>, n: int)
    requires
        0 <= n < entries.len(),
    ensures
        has_folder(entries, folder, n + 1) == (has_folder(entries, folder, n) || (folder.len() > 0
            && text::with_replaced(
            asset_names::folder_of(entries[n].relative_path@),
            '\\',
            '/',
        ) == folder)),
{
    if has_folder(entries, folder, n) {
        let i = choose|i: int|
            0 <= i < n && text::with_replaced(
                asset_names::folder_of((#[trigger] entries[i]).relative_path@),
                '\\',
                '/',
            ) == folder;
        assert(0 <= i < n + 1 && entries[i] == entries[i]);
    }
}

} // verus!
