//! The content catalog in the editor: scanning, importing, opening, saving and arranging model
//! assets, and undoing edits of the open one.
use vstd::prelude::*;

use crate::asset_names;
use crate::editor::{CatalogAssetEntry, CatalogState, EditorEffect, SmsEditorApp};
use crate::text;

verus! {

/// A folder below a root.
pub open spec fn below(root: Seq<char>, name: Seq<char>) -> Seq<char> {
    if root.len() > 0 && root.last() == '/' {
        root + name
    } else {
        root + "/"@ + name
    }
}

/// The content root of a project root.
pub open spec fn content_root(project_root: Seq<char>) -> Option<Seq<char>> {
    let root = text::trimmed(project_root);
    if root.len() == 0 {
        None
    } else {
        Some(below(root, "Content"@))
    }
}

/// A text that may be missing.
pub open spec fn optional_text(value: Option<String>) -> Option<Seq<char>> {
    match value {
        Some(value) => Some(value@),
        None => None,
    }
}

/// A fault of a catalog scan.
#[derive(Debug)]
pub struct CatalogIssue {
    pub kind: String,
    pub relative_path: String,
    pub message: String,
}

/// What a scan of the catalog found.
#[derive(Debug)]
pub struct CatalogScan {
    pub assets: Vec<CatalogAssetEntry>,
    pub issues: Vec<CatalogIssue>,
}

/// The line about a fault of a scan.
pub open spec fn issue_line(issue: CatalogIssue) -> Seq<char> {
    issue.kind@ + " at '"@ + issue.relative_path@ + "': "@ + issue.message@
}

fn issue_lines(issues: &[CatalogIssue]) -> (r: Vec<String>)
    ensures
        text::views(r@) == Seq::new(issues@.len(), |i: int| issue_line(issues@[i])),
{
    let mut r: Vec<String> = Vec::new();
    let mut i: usize = 0;
    while i < issues.len()
        invariant
            i <= issues.len(),
            r@.len() == i,
            forall|j: int| 0 <= j < i ==> (#[trigger] r@[j])@ == issue_line(issues@[j]),
        decreases issues.len() - i,
    {
        let issue = &issues[i];
        let line = issue.kind.clone().concat(" at '").concat(
            issue.relative_path.as_str(),
        ).concat("': ").concat(issue.message.as_str());
        r.push(line);
        i += 1;
    }
    proof {
        assert(text::views(r@) =~= Seq::new(issues@.len(), |i: int| issue_line(issues@[i])));
    }
    r
}

/// The refusal to change the catalog while a build reads it.
pub open spec fn locked_message(action: Seq<char>) -> Seq<char> {
    "Cannot "@ + action
        + " while a stage build or another background operation is reading the project Content snapshot; wait for it to finish."@
}

impl SmsEditorApp {
    /// Where the content of the project lies.
    pub fn model_content_root(&self) -> (r: Option<String>)
        ensures
            optional_text(r) == content_root(self.project.project_root@),
    {
        let root = text::trim(self.project.project_root.as_str());
        if root.is_empty() {
            None
        } else {
            let chars = text::chars_of(root);
            if chars[chars.len() - 1] == '/' {
                Some(root.to_owned().concat("Content"))
            } else {
                Some(root.to_owned().concat("/").concat("Content"))
            }
        }
    }

    /// Everything as it was but for the reported error and one line of the log, which both say
    /// this.
    pub open spec fn reports(self, before: SmsEditorApp, message: Seq<char>) -> bool {
        &&& self.only_reports(before)
        &&& self.effects == before.effects
        &&& self.error() == Some(message)
        &&& self.lines() == before.lines().push(message)
    }

    /// Whether the catalog may change now: not while a build or another background operation reads
    /// the content.
    pub fn content_catalog_mutation_allowed(&mut self, action: &str) -> (r: bool)
        ensures
            r == !old(self).project.background_active,
            r ==> *final(self) == *old(self),
            !r ==> final(self).reports(*old(self), locked_message(action@)),
    {
        if !self.project.background_active {
            return true;
        }
        let message = "Cannot ".to_owned().concat(action).concat(
            " while a stage build or another background operation is reading the project Content snapshot; wait for it to finish.",
        );
        self.model_editor_error = Some(message.clone());
        self.write_log(message);
        false
    }

    /// Everything but the catalog and the pending effects is as it was.
    pub open spec fn changes_catalog(self, before: SmsEditorApp) -> bool {
        &&& self.project == before.project
        &&& self.asset == before.asset
        &&& self.instances == before.instances
        &&& self.preview == before.preview
        &&& self.selected_object_id == before.selected_object_id
        &&& self.model_editor_error == before.model_editor_error
        &&& self.log == before.log
    }

    /// The catalog is empty, belongs to the project's root and waits for a scan, where the project
    /// has one.
    pub open spec fn awaits_scan(self, before: SmsEditorApp) -> bool {
        &&& optional_text(self.catalog.root) == content_root(before.project.project_root@)
        &&& self.catalog.entries@.len() == 0
        &&& self.catalog.issues@.len() == 0
        &&& self.catalog.folder_filter == before.catalog.folder_filter
        &&& self.catalog.asset_filter == before.catalog.asset_filter
        &&& self.catalog.rename_draft == before.catalog.rename_draft
        &&& self.catalog.move_draft == before.catalog.move_draft
        &&& self.catalog.folder_draft == before.catalog.folder_draft
        &&& self.catalog.import_running == before.catalog.import_running
        &&& self.effects@ == (if content_root(before.project.project_root@) is Some {
            before.effects@.push(EditorEffect::ScanCatalog)
        } else {
            before.effects@
        })
    }

    /// Scans the catalog anew where the project has another root than the one last scanned.
    pub fn refresh_model_catalog(&mut self)
        ensures
            final(self).changes_catalog(*old(self)),
            optional_text(old(self).catalog.root) == content_root(old(self).project.project_root@)
                ==> *final(self) == *old(self),
            optional_text(old(self).catalog.root) != content_root(old(self).project.project_root@)
                ==> final(self).awaits_scan(*old(self)),
    {
        let root = self.model_content_root();
        let unchanged = match (&root, &self.catalog.root) {
            (Some(a), Some(b)) => text::same(a.as_str(), b.as_str()),
            (None, None) => true,
            _ => false,
        };
        if unchanged {
            return;
        }
        let has_root = root.is_some();
        self.catalog.root = root;
        self.catalog.entries = Vec::new();
        self.catalog.issues = Vec::new();
        if has_root {
            self.effects.push(EditorEffect::ScanCatalog);
        }
    }

    /// Scans the catalog anew.
    pub fn force_refresh_model_catalog(&mut self)
        ensures
            final(self).changes_catalog(*old(self)),
            content_root(old(self).project.project_root@) is Some ==> final(self).awaits_scan(
                *old(self),
            ),
            content_root(old(self).project.project_root@) is None ==> final(self).effects
                == old(self).effects && final(self).catalog.root is None
                && final(self).catalog.entries@.len() == 0 && final(self).catalog.issues
                == old(self).catalog.issues && final(self).catalog.folder_filter
                == old(self).catalog.folder_filter && final(self).catalog.asset_filter
                == old(self).catalog.asset_filter && final(self).catalog.rename_draft
                == old(self).catalog.rename_draft && final(self).catalog.move_draft
                == old(self).catalog.move_draft && final(self).catalog.folder_draft
                == old(self).catalog.folder_draft && final(self).catalog.import_running
                == old(self).catalog.import_running,
    {
        self.catalog.entries = Vec::new();
        self.catalog.root = None;
        self.refresh_model_catalog();
    }

    /// Takes over what a scan of the catalog found, and loads the instances; a failed scan is
    /// reported.
    pub fn finish_catalog_scan(&mut self, outcome: Result<CatalogScan, String>, root: &str)
        ensures
            final(self).project == old(self).project,
            final(self).asset == old(self).asset,
            final(self).instances == old(self).instances,
            final(self).preview == old(self).preview,
            final(self).selected_object_id == old(self).selected_object_id,
            final(self).model_editor_error == old(self).model_editor_error,
            final(self).catalog.root == old(self).catalog.root,
            final(self).catalog.folder_filter == old(self).catalog.folder_filter,
            final(self).catalog.asset_filter == old(self).catalog.asset_filter,
            final(self).catalog.rename_draft == old(self).catalog.rename_draft,
            final(self).catalog.move_draft == old(self).catalog.move_draft,
            final(self).catalog.folder_draft == old(self).catalog.folder_draft,
            final(self).catalog.import_running == old(self).catalog.import_running,
            match outcome {
                Ok(scan) => {
                    &&& final(self).catalog.entries == scan.assets
                    &&& text::views(final(self).catalog.issues@) == Seq::new(
                        scan.issues@.len(),
                        |i: int| issue_line(scan.issues@[i]),
                    )
                    &&& final(self).log == old(self).log
                    &&& final(self).effects@ == old(self).effects@.push(
                        EditorEffect::LoadInstances,
                    )
                },
                Err(error) => {
                    &&& final(self).catalog.entries == old(self).catalog.entries
                    &&& text::views(final(self).catalog.issues@) == text::views(
                        old(self).catalog.issues@,
                    ).push(error@)
                    &&& final(self).lines() == old(self).lines().push(
                        "Could not scan model assets under '"@ + root@ + "': "@ + error@,
                    )
                    &&& final(self).effects == old(self).effects
                },
            },
    {
        match outcome {
            Ok(scan) => {
                self.catalog.issues = issue_lines(scan.issues.as_slice());
                self.catalog.entries = scan.assets;
                self.effects.push(EditorEffect::LoadInstances);
            },
            Err(error) => {
                let line = "Could not scan model assets under '".to_owned().concat(root).concat(
                    "': ",
                ).concat(error.as_str());
                let ghost issues = self.catalog.issues@;
                self.catalog.issues.push(error);
                proof {
                    assert(text::views(self.catalog.issues@) =~= text::views(issues).push(error@));
                }
                self.write_log(line);
            },
        }
    }

    /// Whether the user may be asked for a model to import now.
    pub fn begin_model_import(&mut self) -> (r: bool)
        ensures
            r == (!old(self).project.background_active && !old(self).catalog.import_running),
            r ==> *final(self) == *old(self),
            old(self).project.background_active ==> final(self).reports(
                *old(self),
                locked_message("start a model import"@),
            ),
            !r && !old(self).project.background_active ==> final(self).only_reports(*old(self))
                && final(self).effects == old(self).effects && final(self).model_editor_error
                == old(self).model_editor_error && final(self).lines() == old(self).lines().push(
                "A model import is already running."@,
            ),
    {
        if !self.content_catalog_mutation_allowed("start a model import") {
            return false;
        }
        if self.catalog.import_running {
            self.write_log("A model import is already running.".to_owned());
            return false;
        }
        true
    }

    /// Starts the import of a chosen model. The path that the asset gets below the content root,
    /// unless the model's name cannot be used.
    pub fn start_model_import(&mut self, file_stem: Option<&str>, source: &str) -> (r: Option<
        String,
    >)
        ensures
            final(self).project == old(self).project,
            final(self).asset == old(self).asset,
            final(self).instances == old(self).instances,
            final(self).preview == old(self).preview,
            final(self).selected_object_id == old(self).selected_object_id,
            final(self).model_editor_error == old(self).model_editor_error,
            final(self).effects == old(self).effects,
            final(self).catalog == (CatalogState {
                import_running: old(self).catalog.import_running || file_stem is Some,
                ..old(self).catalog
            }),
            match file_stem {
                Some(stem) => r matches Some(path) && path@ == asset_names::in_folder(
                    (match old(self).catalog.folder_filter {
                        Some(folder) => folder@,
                        None => Seq::empty(),
                    }),
                    stem@ + ".smsmodel"@,
                ) && final(self).lines() == old(self).lines().push(
                    "Importing model '"@ + source@ + "' in the background..."@,
                ),
                None => r is None && final(self).lines() == old(self).lines().push(
                    "The selected model has no usable file name."@,
                ),
            },
    {
        let stem = match file_stem {
            Some(stem) => stem,
            None => {
                self.write_log("The selected model has no usable file name.".to_owned());
                return None;
            },
        };
        let name = stem.to_owned().concat(".smsmodel");
        let path = match &self.catalog.folder_filter {
            Some(folder) => asset_names::put_in_folder(folder.as_str(), name.as_str()),
            None => name,
        };
        self.catalog.import_running = true;
        let line = "Importing model '".to_owned().concat(source).concat("' in the background...");
        self.write_log(line);
        Some(path)
    }

    /// Cancels a running import.
    pub fn cancel_model_import(&mut self)
        ensures
            !old(self).catalog.import_running ==> *final(self) == *old(self),
            old(self).catalog.import_running ==> {
                &&& final(self).project == old(self).project
                &&& final(self).asset == old(self).asset
                &&& final(self).instances == old(self).instances
                &&& final(self).preview == old(self).preview
                &&& final(self).selected_object_id == old(self).selected_object_id
                &&& final(self).model_editor_error == old(self).model_editor_error
                &&& final(self).catalog == (CatalogState {
                    import_running: false,
                    ..old(self).catalog
                })
                &&& final(self).effects@ == old(self).effects@.push(EditorEffect::CancelImport)
                &&& final(self).lines() == old(self).lines().push(
                    "Canceled the pending model import; no asset was committed."@,
                )
            },
    {
        if self.catalog.import_running {
            self.catalog.import_running = false;
            self.effects.push(EditorEffect::CancelImport);
            self.write_log("Canceled the pending model import; no asset was committed.".to_owned());
        }
    }

    /// What becomes of a running import: asked again later while a background operation reads the
    /// content or nothing has arrived, committed, given up or failed.
    pub fn poll_model_import(&mut self, news: ImportNews) -> (r: ImportStep)
        ensures
            final(self).project == old(self).project,
            final(self).asset == old(self).asset,
            final(self).instances == old(self).instances,
            final(self).preview == old(self).preview,
            final(self).selected_object_id == old(self).selected_object_id,
            final(self).model_editor_error == old(self).model_editor_error,
            final(self).effects == old(self).effects,
            r == old(self).import_step(news),
            final(self).catalog == (CatalogState {
                import_running: old(self).catalog.import_running && old(self).import_step(news)
                    == ImportStep::AskLater,
                ..old(self).catalog
            }),
            final(self).lines() == (match news {
                ImportNews::Failed(error) => if old(self).import_step(news) == ImportStep::Idle
                    && old(self).catalog.import_running {
                    old(self).lines().push("Model import failed: "@ + error@)
                } else {
                    old(self).lines()
                },
                _ => old(self).lines(),
            }),
    {
        if !self.catalog.import_running {
            return ImportStep::Idle;
        }
        if self.project.background_active {
            return ImportStep::AskLater;
        }
        match news {
            ImportNews::Nothing => ImportStep::AskLater,
            ImportNews::Prepared => {
                self.catalog.import_running = false;
                ImportStep::Commit
            },
            ImportNews::Failed(error) => {
                self.catalog.import_running = false;
                let line = "Model import failed: ".to_owned().concat(error.as_str());
                self.write_log(line);
                ImportStep::Idle
            },
            ImportNews::Disconnected => {
                self.catalog.import_running = false;
                ImportStep::Idle
            },
        }
    }

    /// What becomes of a running import.
    pub open spec fn import_step(self, news: ImportNews) -> ImportStep {
        if !self.catalog.import_running {
            ImportStep::Idle
        } else if self.project.background_active {
            ImportStep::AskLater
        } else {
            match news {
                ImportNews::Nothing => ImportStep::AskLater,
                ImportNews::Prepared => ImportStep::Commit,
                ImportNews::Failed(_) => ImportStep::Idle,
                ImportNews::Disconnected => ImportStep::Idle,
            }
        }
    }

    /// Takes over an imported asset: the catalog is scanned anew and the asset opened. The result
    /// is the line for the log once that is done.
    pub fn commit_prepared_model_import(&mut self, outcome: CommitOutcome, source: &str) -> (r:
        Option<String>)
        ensures
            r is Some <==> !old(self).project.background_active && outcome is Created,
            final(self).project == old(self).project,
            final(self).asset == old(self).asset,
            final(self).instances == old(self).instances,
            final(self).preview == old(self).preview,
            final(self).selected_object_id == old(self).selected_object_id,
            old(self).project.background_active ==> final(self).reports(
                *old(self),
                locked_message("commit the imported model"@),
            ),
            !old(self).project.background_active ==> final(self).model_editor_error
                == old(self).model_editor_error && match outcome {
                CommitOutcome::NoCatalog(error) => {
                    &&& final(self).catalog == old(self).catalog
                    &&& final(self).effects == old(self).effects
                    &&& final(self).lines() == old(self).lines().push(
                        "Model import was not committed: "@ + error@,
                    )
                },
                CommitOutcome::Failed(error) => {
                    &&& final(self).catalog == old(self).catalog
                    &&& final(self).effects == old(self).effects
                    &&& final(self).lines() == old(self).lines().push(
                        "Model import could not be committed: "@ + error@,
                    )
                },
                CommitOutcome::Created { id, relative_path } => {
                    &&& final(self).rescans_and_selects(*old(self), id)
                    &&& final(self).log == old(self).log
                    &&& r matches Some(line)
                    &&& line@ == "Imported '"@ + source@ + "' as Content/"@ + relative_path@
                        + "; the source glTF was not retained."@
                },
            },
    {
        if !self.content_catalog_mutation_allowed("commit the imported model") {
            return None;
        }
        match outcome {
            CommitOutcome::NoCatalog(error) => {
                let line = "Model import was not committed: ".to_owned().concat(error.as_str());
                self.write_log(line);
                None
            },
            CommitOutcome::Failed(error) => {
                let line = "Model import could not be committed: ".to_owned().concat(
                    error.as_str(),
                );
                self.write_log(line);
                None
            },
            CommitOutcome::Created { id, relative_path } => {
                self.force_refresh_model_catalog();
                self.effects.push(EditorEffect::SelectAsset(id));
                let line = "Imported '".to_owned().concat(source).concat("' as Content/").concat(
                    relative_path.as_str(),
                ).concat("; the source glTF was not retained.");
                Some(line)
            },
        }
    }

    /// The issues of the catalog that waits for a scan: none, or as they were where there is
    /// nothing to scan.
    pub open spec fn restarts_issues(self, before: SmsEditorApp) -> bool {
        if content_root(before.project.project_root@) is Some {
            self.catalog.issues@.len() == 0
        } else {
            self.catalog.issues == before.catalog.issues
        }
    }

    /// The catalog is empty and belongs to the project's root; the rest of the browser is as it
    /// was.
    pub open spec fn restarts_catalog(self, before: SmsEditorApp) -> bool {
        &&& self.catalog.entries@.len() == 0
        &&& self.restarts_issues(before)
        &&& optional_text(self.catalog.root) == content_root(before.project.project_root@)
        &&& self.catalog.folder_filter == before.catalog.folder_filter
        &&& self.catalog.asset_filter == before.catalog.asset_filter
        &&& self.catalog.rename_draft == before.catalog.rename_draft
        &&& self.catalog.move_draft == before.catalog.move_draft
        &&& self.catalog.folder_draft == before.catalog.folder_draft
        &&& self.catalog.import_running == before.catalog.import_running
    }

    /// The catalog waits for a scan after which an asset is opened.
    pub open spec fn rescans_and_selects(self, before: SmsEditorApp, id: u128) -> bool {
        &&& self.restarts_catalog(before)
        &&& self.effects@ == (if content_root(before.project.project_root@) is Some {
            before.effects@.push(EditorEffect::ScanCatalog)
        } else {
            before.effects@
        }).push(EditorEffect::SelectAsset(id))
    }
}

/// What a running import has to say.
#[derive(Debug)]
pub enum ImportNews {
    Nothing,
    Prepared,
    Failed(String),
    Disconnected,
}

/// What the application does about a running import.
#[derive(Debug, Clone, Copy, PartialEq, Eq, Structural)]
pub enum ImportStep {
    Idle,
    AskLater,
    Commit,
}

/// What creating an asset came to.
#[derive(Debug)]
pub enum CommitOutcome {
    NoCatalog(String),
    Failed(String),
    Created { id: u128, relative_path: String },
}

} // verus!
