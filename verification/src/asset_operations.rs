//! Opening, saving and arranging the selected model asset.
use vstd::prelude::*;

use crate::asset_names;
use crate::editor::{AssetState, CatalogAssetEntry, CatalogRequest, EditorEffect, SmsEditorApp};
use crate::editor_assets;
use crate::ids;
use crate::model_instances::{AuthoredModelPreviewKey, EditorModelInstance};
use crate::preview_cache;
use crate::search;
use crate::stage_edits::DocumentId;
use crate::text;

verus! {

/// The entry is that of an asset.
pub open spec fn is_entry_of(id: u128) -> spec_fn(CatalogAssetEntry) -> bool {
    |entry: CatalogAssetEntry| entry.id == id
}

/// Position of an asset in the catalog.
pub open spec fn entry_position(entries: Seq<CatalogAssetEntry>, id: u128) -> Option<int> {
    search::first_position(entries, is_entry_of(id))
}

/// Position of an asset in the catalog.
pub fn find_entry(entries: &[CatalogAssetEntry], id: u128) -> (r: Option<usize>)
    ensures
        match r {
            Some(i) => i < entries@.len() && entry_position(entries@, id) == Some(i as int),
            None => entry_position(entries@, id) is None,
        },
{
    let mut i: usize = 0;
    while i < entries.len()
        invariant
            i <= entries.len(),
            forall|j: int| 0 <= j < i ==> !is_entry_of(id)(#[trigger] entries@[j]),
        decreases entries.len() - i,
    {
        if entries[i].id == id {
            proof {
                search::lemma_found(entries@, is_entry_of(id), i as int);
            }
            return Some(i);
        }
        i += 1;
    }
    proof {
        search::lemma_not_found(entries@, is_entry_of(id));
    }
    None
}

/// What loading an asset came to.
#[derive(Debug)]
pub enum LoadOutcome {
    NoCatalog(String),
    Failed(String),
    Loaded(DocumentId),
}

/// How saving the open asset goes on.
#[derive(Debug, Clone, Copy, PartialEq, Eq, Structural)]
pub enum SaveStep {
    /// Nothing has to be written; whether the asset counts as saved.
    Done(bool),
    /// Write the document and hand the outcome to `finish_saving_model_asset`.
    Write { id: u128, document: DocumentId },
}

/// An entry that a catalog operation gives back.
#[derive(Debug)]
pub struct CatalogReply {
    pub id: u128,
    pub name: String,
    pub relative_path: String,
}

/// The owner of a reference to an asset.
pub open spec fn reference_owner(instance: EditorModelInstance) -> Seq<char> {
    "stage "@ + instance.stage_id@ + " instance "@ + ids::hyphenated(
        instance.placement.instance_id,
    )
}

/// The owners of the references of the first `n` instances to an asset.
pub open spec fn references(list: Seq<EditorModelInstance>, id: u128, n: nat) -> Seq<Seq<char>>
    decreases n,
{
    if n == 0 {
        Seq::empty()
    } else {
        let rest = references(list, id, (n - 1) as nat);
        if list[n - 1].placement.asset_id == id {
            rest.push(reference_owner(list[n - 1]))
        } else {
            rest
        }
    }
}

fn list_references(list: &[EditorModelInstance], id: u128) -> (r: Vec<String>)
    ensures
        text::views(r@) == references(list@, id, list@.len()),
{
    let mut r: Vec<String> = Vec::new();
    let mut i: usize = 0;
    proof {
        assert(text::views(r@) =~= Seq::empty());
    }
    while i < list.len()
        invariant
            i <= list.len(),
            text::views(r@) == references(list@, id, i as nat),
        decreases list.len() - i,
    {
        if list[i].placement.asset_id == id {
            let number = ids::hyphenated_text(list[i].placement.instance_id);
            let owner = "stage ".to_owned().concat(list[i].stage_id.as_str()).concat(
                " instance ",
            ).concat(number.as_str());
            let ghost before = text::views(r@);
            r.push(owner);
            proof {
                assert(text::views(r@) =~= before.push(owner@));
            }
        }
        i += 1;
    }
    r
}

impl SmsEditorApp {
    /// The path of every asset.
    pub open spec fn asset_paths(self) -> Seq<Seq<char>> {
        Seq::new(
            self.catalog.entries@.len(),
            |i: int| self.catalog.entries@[i].relative_path@,
        )
    }

    /// Only the open asset, the drafts of its name and folder, the selection, the reported error
    /// and the pending effects differ.
    pub open spec fn changes_selection(self, before: SmsEditorApp) -> bool {
        &&& self.project == before.project
        &&& self.preview == before.preview
        &&& self.instances.list == before.instances.list
        &&& self.instances.dirty == before.instances.dirty
        &&& self.instances.undo == before.instances.undo
        &&& self.instances.redo == before.instances.redo
        &&& self.instances.surface_template == before.instances.surface_template
        &&& self.catalog.root == before.catalog.root
        &&& self.catalog.entries == before.catalog.entries
        &&& self.catalog.issues == before.catalog.issues
        &&& self.catalog.folder_filter == before.catalog.folder_filter
        &&& self.catalog.asset_filter == before.catalog.asset_filter
        &&& self.catalog.folder_draft == before.catalog.folder_draft
        &&& self.catalog.import_running == before.catalog.import_running
    }

    /// Opens an asset. `saved` is false where unsaved changes of the open one could not be saved.
    /// The result lists the loader flags of the previews that the asset's instances need.
    pub fn select_model_asset(&mut self, id: u128, saved: bool, outcome: LoadOutcome) -> (r: Option<
        Vec<u32>,
    >)
        ensures
            r is Some <==> saved && outcome is Loaded,
            !saved ==> *final(self) == *old(self),
            r is None && saved ==> final(self).only_reports(*old(self)) && final(self).effects
                == old(self).effects && final(self).model_editor_error
                == old(self).model_editor_error && final(self).lines() == old(self).lines().push(
                (match outcome {
                    LoadOutcome::NoCatalog(error) => error@,
                    LoadOutcome::Failed(error) => "Could not open model asset: "@ + error@,
                    LoadOutcome::Loaded(_) => Seq::empty(),
                }),
            ),
            r matches Some(flags) ==> (outcome matches LoadOutcome::Loaded(document) && {
                &&& final(self).changes_selection(*old(self))
                &&& final(self).log == old(self).log
                &&& preview_cache::is_flag_list(
                    flags@,
                    old(self).instances.list@,
                    id,
                    old(self).project.registry,
                    old(self).project.flags,
                )
                &&& final(self).asset.selected == Some(id)
                &&& final(self).asset.document == Some(document)
                &&& final(self).asset.saved == Some(document)
                &&& final(self).asset.material == 0
                &&& final(self).asset.texture == 0
                &&& !final(self).asset.dirty
                &&& final(self).asset.undo@.len() == 0
                &&& final(self).asset.redo@.len() == 0
                &&& final(self).instances.selected is None
                &&& final(self).selected_object_id is None
                &&& final(self).model_editor_error is None
                &&& match entry_position(old(self).catalog.entries@, id) {
                    Some(i) => final(self).catalog.rename_draft@
                        == old(self).catalog.entries@[i].name@
                        && final(self).catalog.move_draft@ == asset_names::folder_of(
                        text::with_replaced(
                            old(self).catalog.entries@[i].relative_path@,
                            '\\',
                            '/',
                        ),
                    ),
                    None => final(self).catalog.rename_draft == old(self).catalog.rename_draft
                        && final(self).catalog.move_draft == old(self).catalog.move_draft,
                }
                &&& final(self).effects@ == old(self).effects@.push(
                    EditorEffect::SyncMaterialDraft,
                ).push(EditorEffect::SyncTextureDraft)
            }),
    {
        if !saved {
            return None;
        }
        match outcome {
            LoadOutcome::NoCatalog(error) => {
                self.write_log(error);
                None
            },
            LoadOutcome::Failed(error) => {
                let line = "Could not open model asset: ".to_owned().concat(error.as_str());
                self.write_log(line);
                None
            },
            LoadOutcome::Loaded(document) => {
                if let Some(i) = find_entry(self.catalog.entries.as_slice(), id) {
                    let path = text::replaced(
                        self.catalog.entries[i].relative_path.as_str(),
                        '\\',
                        '/',
                    );
                    self.catalog.rename_draft = self.catalog.entries[i].name.clone();
                    self.catalog.move_draft = asset_names::find_folder(path.as_str());
                }
                let flags = preview_cache::loader_flags_for_asset(
                    self.instances.list.as_slice(),
                    id,
                    self.registry(),
                    self.project.flags,
                );
                self.asset = AssetState {
                    selected: Some(id),
                    document: Some(document),
                    saved: Some(document),
                    material: 0,
                    texture: 0,
                    dirty: false,
                    undo: Vec::new(),
                    redo: Vec::new(),
                };
                self.instances.selected = None;
                self.selected_object_id = None;
                self.model_editor_error = None;
                self.effects.push(EditorEffect::SyncMaterialDraft);
                self.effects.push(EditorEffect::SyncTextureDraft);
                Some(flags)
            },
        }
    }

    /// How saving the open asset goes on. An asset without unsaved changes counts as saved, and an
    /// invalid one is not written.
    pub fn save_selected_model_asset(&mut self, validity: Result<(), String>) -> (r: SaveStep)
        ensures
            ({
                let before = *old(self);
                let now = *final(self);
                if !before.asset.dirty {
                    r == SaveStep::Done(true) && now == before
                } else if before.project.background_active {
                    r == SaveStep::Done(false) && now.reports(
                        before,
                        editor_assets::locked_message("save the model asset"@),
                    )
                } else {
                    match (before.asset.selected, before.asset.document, validity) {
                        (Some(id), Some(document), Ok(())) => r == (SaveStep::Write {
                            id,
                            document,
                        }) && now == before,
                        (Some(_), Some(_), Err(error)) => r == SaveStep::Done(false)
                            && now.only_reports(before) && now.log == before.log && now.effects
                            == before.effects && now.error() == Some(
                            "Asset is invalid: "@ + error@,
                        ),
                        _ => r == SaveStep::Done(true) && now == before,
                    }
                }
            }),
    {
        if !self.asset.dirty {
            return SaveStep::Done(true);
        }
        if !self.content_catalog_mutation_allowed("save the model asset") {
            return SaveStep::Done(false);
        }
        match (self.asset.selected, self.asset.document) {
            (Some(id), Some(document)) => match validity {
                Ok(()) => SaveStep::Write { id, document },
                Err(error) => {
                    self.model_editor_error = Some(
                        "Asset is invalid: ".to_owned().concat(error.as_str()),
                    );
                    SaveStep::Done(false)
                },
            },
            _ => SaveStep::Done(true),
        }
    }

    /// The cached previews of the other assets.
    pub open spec fn cache_without(self, id: u128) -> Seq<AuthoredModelPreviewKey> {
        self.preview.cache@.filter(preview_cache::of_other_asset(id))
    }

    /// Completes the saving of an asset. Where it is saved now, the catalog is scanned anew, and
    /// the result is the line for the log once that is done.
    pub fn finish_saving_model_asset(
        &mut self,
        id: u128,
        document: DocumentId,
        outcome: Result<CatalogReply, String>,
    ) -> (r: Option<String>)
        ensures
            r is Some <==> outcome is Ok,
            final(self).project == old(self).project,
            final(self).instances == old(self).instances,
            final(self).selected_object_id == old(self).selected_object_id,
            match outcome {
                Err(error) => final(self).only_reports(*old(self)) && final(self).log
                    == old(self).log && final(self).effects == old(self).effects
                    && final(self).error() == Some("Could not save model asset: "@ + error@),
                Ok(reply) => {
                    &&& final(self).asset == (AssetState {
                        saved: Some(document),
                        dirty: false,
                        selected: Some(reply.id),
                        ..old(self).asset
                    })
                    &&& final(self).preview.cache@ == old(self).cache_without(id)
                    &&& final(self).preview.model == old(self).preview.model
                    &&& final(self).preview.base == old(self).preview.base
                    &&& final(self).model_editor_error == old(self).model_editor_error
                    &&& final(self).restarts_catalog(*old(self))
                    &&& final(self).effects@ == old(self).rescanned()
                    &&& final(self).log == old(self).log
                    &&& r matches Some(line)
                    &&& line@ == "Saved model asset '"@ + reply.name@ + "'."@
                },
            },
    {
        match outcome {
            Err(error) => {
                self.model_editor_error = Some(
                    "Could not save model asset: ".to_owned().concat(error.as_str()),
                );
                None
            },
            Ok(reply) => {
                self.asset.saved = Some(document);
                self.asset.dirty = false;
                self.preview.cache = preview_cache::drop_asset(self.preview.cache.as_slice(), id);
                self.force_refresh_model_catalog();
                self.asset.selected = Some(reply.id);
                let line = "Saved model asset '".to_owned().concat(reply.name.as_str()).concat(
                    "'.",
                );
                Some(line)
            },
        }
    }

    /// The pending effects once the catalog waits for a scan.
    pub open spec fn rescanned(self) -> Seq<EditorEffect> {
        if editor_assets::content_root(self.project.project_root@) is Some {
            self.effects@.push(EditorEffect::ScanCatalog)
        } else {
            self.effects@
        }
    }

    /// Asks to rename the selected asset as drafted.
    pub fn rename_selected_model_asset(&mut self) -> (r: Option<CatalogRequest>)
        ensures
            ({
                let name = text::trimmed(old(self).catalog.rename_draft@);
                if old(self).project.background_active {
                    r is None && final(self).reports(
                        *old(self),
                        editor_assets::locked_message("rename the model asset"@),
                    )
                } else {
                    match old(self).asset.selected {
                        None => r is None && *final(self) == *old(self),
                        Some(id) => if name.len() == 0 {
                            r is None && final(self).only_reports(*old(self)) && final(self).log
                                == old(self).log && final(self).effects == old(self).effects
                                && final(self).error() == Some("Asset name cannot be empty."@)
                        } else {
                            *final(self) == *old(self) && (r matches Some(
                                CatalogRequest::Rename { id: wanted, name: given },
                            ) && wanted == id && given@ == name)
                        },
                    }
                }
            }),
    {
        if !self.content_catalog_mutation_allowed("rename the model asset") {
            return None;
        }
        match self.asset.selected {
            None => None,
            Some(id) => {
                let name = text::trim(self.catalog.rename_draft.as_str()).to_owned();
                if name.as_str().is_empty() {
                    self.model_editor_error = Some("Asset name cannot be empty.".to_owned());
                    None
                } else {
                    Some(CatalogRequest::Rename { id, name })
                }
            },
        }
    }

    /// Asks to move the selected asset to the drafted folder.
    pub fn move_selected_model_asset(&mut self) -> (r: Option<CatalogRequest>)
        ensures
            old(self).project.background_active ==> r is None && final(self).reports(
                *old(self),
                editor_assets::locked_message("move the model asset"@),
            ),
            !old(self).project.background_active ==> *final(self) == *old(self) && match
                old(self).asset.selected {
                None => r is None,
                Some(id) => r matches Some(CatalogRequest::Move { id: wanted, folder })
                    && wanted == id && folder@ == text::trimmed(old(self).catalog.move_draft@),
            },
    {
        if !self.content_catalog_mutation_allowed("move the model asset") {
            return None;
        }
        match self.asset.selected {
            None => None,
            Some(id) => {
                let folder = text::trim(self.catalog.move_draft.as_str()).to_owned();
                Some(CatalogRequest::Move { id, folder })
            },
        }
    }

    /// Asks to duplicate the selected asset under the first free name beside it.
    pub fn duplicate_selected_model_asset(&mut self) -> (r: Option<CatalogRequest>)
        requires
            old(self).catalog.entries@.len() < usize::MAX,
        ensures
            old(self).project.background_active ==> r is None && final(self).reports(
                *old(self),
                editor_assets::locked_message("duplicate the model asset"@),
            ),
            !old(self).project.background_active ==> *final(self) == *old(self) && match
                old(self).asset.selected {
                None => r is None,
                Some(id) => match entry_position(old(self).catalog.entries@, id) {
                    None => r is None,
                    Some(i) => r matches Some(
                        CatalogRequest::Duplicate { id: wanted, destination },
                    ) && wanted == id && asset_names::is_first_free(
                        old(self).asset_paths(),
                        asset_names::folder_of(old(self).catalog.entries@[i].relative_path@),
                        asset_names::asset_stem(old(self).catalog.entries@[i].relative_path@),
                        destination@,
                    ),
                },
            },
    {
        if !self.content_catalog_mutation_allowed("duplicate the model asset") {
            return None;
        }
        let id = match self.asset.selected {
            None => {
                return None;
            },
            Some(id) => id,
        };
        let at = match find_entry(self.catalog.entries.as_slice(), id) {
            None => {
                return None;
            },
            Some(i) => i,
        };
        let folder = asset_names::find_folder(self.catalog.entries[at].relative_path.as_str());
        let stem = asset_names::find_asset_stem(self.catalog.entries[at].relative_path.as_str());
        let mut existing: Vec<String> = Vec::new();
        let mut i: usize = 0;
        while i < self.catalog.entries.len()
            invariant
                i <= self.catalog.entries.len(),
                existing@.len() == i,
                forall|j: int|
                    0 <= j < i ==> (#[trigger] existing@[j])@
                        == self.catalog.entries@[j].relative_path@,
            decreases self.catalog.entries.len() - i,
        {
            existing.push(self.catalog.entries[i].relative_path.clone());
            i += 1;
        }
        proof {
            assert(text::views(existing@) =~= self.asset_paths());
        }
        let destination = asset_names::first_free_copy(
            existing.as_slice(),
            folder.as_str(),
            stem.as_str(),
        );
        Some(CatalogRequest::Duplicate { id, destination })
    }

    /// Asks to delete the selected asset, with the instances that still refer to it.
    pub fn delete_selected_model_asset(&mut self) -> (r: Option<CatalogRequest>)
        ensures
            old(self).project.background_active ==> r is None && final(self).reports(
                *old(self),
                editor_assets::locked_message("delete the model asset"@),
            ),
            !old(self).project.background_active ==> *final(self) == *old(self) && match
                old(self).asset.selected {
                None => r is None,
                Some(id) => r matches Some(CatalogRequest::Delete { id: wanted, references: owners })
                    && wanted == id && text::views(owners@) == references(
                    old(self).instances.list@,
                    id,
                    old(self).instances.list@.len(),
                ),
            },
    {
        if !self.content_catalog_mutation_allowed("delete the model asset") {
            return None;
        }
        match self.asset.selected {
            None => None,
            Some(id) => {
                let references = list_references(self.instances.list.as_slice(), id);
                Some(CatalogRequest::Delete { id, references })
            },
        }
    }

    /// Asks to create the drafted folder.
    pub fn create_model_folder(&mut self) -> (r: Option<CatalogRequest>)
        ensures
            old(self).project.background_active ==> r is None && final(self).reports(
                *old(self),
                editor_assets::locked_message("create a Content folder"@),
            ),
            !old(self).project.background_active ==> *final(self) == *old(self) && ({
                let wanted = text::trimmed(old(self).catalog.folder_draft@);
                if wanted.len() == 0 {
                    r is None
                } else {
                    r matches Some(CatalogRequest::CreateFolder { folder }) && folder@ == wanted
                }
            }),
    {
        if !self.content_catalog_mutation_allowed("create a Content folder") {
            return None;
        }
        let folder = text::trim(self.catalog.folder_draft.as_str());
        if folder.is_empty() {
            None
        } else {
            Some(CatalogRequest::CreateFolder { folder: folder.to_owned() })
        }
    }

    /// Completes a rename, a move or a copy: the catalog is scanned anew and the asset opened; a
    /// failure is reported. The result is the line for the log once that is done.
    pub fn finish_catalog_change(
        &mut self,
        change: CatalogChange,
        outcome: Result<CatalogReply, String>,
    ) -> (r: Option<String>)
        ensures
            r is Some <==> outcome is Ok,
            final(self).project == old(self).project,
            final(self).asset == old(self).asset,
            final(self).instances == old(self).instances,
            final(self).preview == old(self).preview,
            final(self).selected_object_id == old(self).selected_object_id,
            match outcome {
                Ok(reply) => final(self).rescans_and_selects(*old(self), reply.id)
                    && final(self).model_editor_error == old(self).model_editor_error
                    && final(self).log == old(self).log && (r matches Some(line) && line@
                    == change.done(reply)),
                Err(error) => final(self).catalog == old(self).catalog && final(self).log
                    == old(self).log && final(self).effects == old(self).effects
                    && final(self).error() == Some(change.failed() + error@),
            },
    {
        match outcome {
            Ok(reply) => {
                self.force_refresh_model_catalog();
                self.effects.push(EditorEffect::SelectAsset(reply.id));
                let line = match change {
                    CatalogChange::Rename => "Renamed model asset to '".to_owned().concat(
                        reply.name.as_str(),
                    ).concat("'."),
                    CatalogChange::Move => "Moved model asset to Content/".to_owned().concat(
                        reply.relative_path.as_str(),
                    ).concat("."),
                    CatalogChange::Duplicate => "Duplicated model asset to Content/".to_owned().concat(
                    reply.relative_path.as_str()).concat("."),
                };
                Some(line)
            },
            Err(error) => {
                let report = match change {
                    CatalogChange::Rename => "Rename failed: ",
                    CatalogChange::Move => "Move failed: ",
                    CatalogChange::Duplicate => "Duplicate failed: ",
                };
                self.model_editor_error = Some(report.to_owned().concat(error.as_str()));
                None
            },
        }
    }

    /// Completes a deletion: nothing is open any more and the catalog is scanned anew; a refusal
    /// is reported. The result is the line for the log once that is done.
    pub fn finish_deleting_model_asset(&mut self, outcome: Result<String, String>) -> (r: Option<
        String,
    >)
        ensures
            r is Some <==> outcome is Ok,
            final(self).project == old(self).project,
            final(self).instances == old(self).instances,
            final(self).preview == old(self).preview,
            final(self).selected_object_id == old(self).selected_object_id,
            match outcome {
                Ok(path) => {
                    &&& final(self).asset == (AssetState {
                        selected: None,
                        document: None,
                        saved: None,
                        dirty: false,
                        ..old(self).asset
                    })
                    &&& final(self).restarts_catalog(*old(self))
                    &&& final(self).model_editor_error == old(self).model_editor_error
                    &&& final(self).effects@ == old(self).rescanned()
                    &&& final(self).log == old(self).log
                    &&& r matches Some(line)
                    &&& line@ == "Deleted Content/"@ + path@ + " and its managed blobs."@
                },
                Err(error) => final(self).only_reports(*old(self)) && final(self).log
                    == old(self).log && final(self).effects == old(self).effects
                    && final(self).error() == Some(
                    "Delete blocked; remove placed-instance references first: "@ + error@,
                ),
            },
    {
        match outcome {
            Ok(path) => {
                self.asset.selected = None;
                self.asset.document = None;
                self.asset.saved = None;
                self.asset.dirty = false;
                self.force_refresh_model_catalog();
                let line = "Deleted Content/".to_owned().concat(path.as_str()).concat(
                    " and its managed blobs.",
                );
                Some(line)
            },
            Err(error) => {
                self.model_editor_error = Some(
                    "Delete blocked; remove placed-instance references first: ".to_owned().concat(
                        error.as_str(),
                    ),
                );
                None
            },
        }
    }

    /// Completes the creation of a folder: the browser shows it, the draft is empty and the
    /// catalog is scanned anew; a failure is reported.
    pub fn finish_creating_folder(&mut self, outcome: Result<String, String>)
        ensures
            final(self).project == old(self).project,
            final(self).asset == old(self).asset,
            final(self).instances == old(self).instances,
            final(self).preview == old(self).preview,
            final(self).selected_object_id == old(self).selected_object_id,
            final(self).log == old(self).log,
            match outcome {
                Ok(folder) => {
                    &&& editor_assets::optional_text(final(self).catalog.folder_filter) == Some(
                        text::with_replaced(folder@, '\\', '/'),
                    )
                    &&& final(self).catalog.folder_draft@.len() == 0
                    &&& final(self).catalog.entries@.len() == 0
                    &&& final(self).restarts_issues(*old(self))
                    &&& editor_assets::optional_text(final(self).catalog.root)
                        == editor_assets::content_root(old(self).project.project_root@)
                    &&& final(self).catalog.asset_filter == old(self).catalog.asset_filter
                    &&& final(self).catalog.rename_draft == old(self).catalog.rename_draft
                    &&& final(self).catalog.move_draft == old(self).catalog.move_draft
                    &&& final(self).catalog.import_running == old(self).catalog.import_running
                    &&& final(self).model_editor_error == old(self).model_editor_error
                    &&& final(self).effects@ == old(self).rescanned()
                },
                Err(error) => final(self).catalog == old(self).catalog && final(self).effects
                    == old(self).effects && final(self).error() == Some(
                    "Create folder failed: "@ + error@,
                ),
            },
    {
        match outcome {
            Ok(folder) => {
                self.catalog.folder_filter = Some(text::replaced(folder.as_str(), '\\', '/'));
                self.catalog.folder_draft = String::new();
                self.force_refresh_model_catalog();
            },
            Err(error) => {
                self.model_editor_error = Some(
                    "Create folder failed: ".to_owned().concat(error.as_str()),
                );
            },
        }
    }
}

/// A change of the catalog that gives an entry back.
#[derive(Debug, Clone, Copy, PartialEq, Eq, Structural)]
pub enum CatalogChange {
    Rename,
    Move,
    Duplicate,
}

impl CatalogChange {
    /// The report of a change.
    pub open spec fn done(self, reply: CatalogReply) -> Seq<char> {
        match self {
            CatalogChange::Rename => "Renamed model asset to '"@ + reply.name@ + "'."@,
            CatalogChange::Move => "Moved model asset to Content/"@ + reply.relative_path@ + "."@,
            CatalogChange::Duplicate => "Duplicated model asset to Content/"@
                + reply.relative_path@ + "."@,
        }
    }

    /// How the report of a failure begins.
    pub open spec fn failed(self) -> Seq<char> {
        match self {
            CatalogChange::Rename => "Rename failed: "@,
            CatalogChange::Move => "Move failed: "@,
            CatalogChange::Duplicate => "Duplicate failed: "@,
        }
    }
}

} // verus!
