//! The content browser and the import settings.
use vstd::prelude::*;

use crate::asset_edits;
use crate::editor::{CatalogState, SmsEditorApp};
use crate::editor_assets;
use crate::model_instances::CollisionSurface;
use crate::text;

verus! {

/// What the content browser shows and allows.
#[derive(Debug)]
pub struct ContentBrowserView {
    pub can_import: bool,
    pub importing: bool,
    pub folders: Vec<String>,
    /// Positions of the assets shown.
    pub assets: Vec<usize>,
    pub count_label: String,
    pub can_create_folder: bool,
    pub shows_save: bool,
    pub can_save: bool,
}

/// How many assets are shown.
pub open spec fn count_text(count: nat) -> Seq<char> {
    text::decimal(count) + " asset"@ + (if count == 1 {
        ""@
    } else {
        "s"@
    })
}

fn count_line(count: usize) -> (r: String)
    ensures
        r@ == count_text(count as nat),
{
    let number = text::decimal_text(count as u128);
    number.concat(" asset").concat(
        if count == 1 {
            ""
        } else {
            "s"
        },
    )
}

impl SmsEditorApp {
    /// What the content browser shows and allows. Nothing that changes the content is allowed
    /// while a background operation reads it.
    pub fn model_content_browser_panel(&self) -> (r: ContentBrowserView)
        ensures
            r.can_import == (!self.catalog.import_running && !self.project.background_active),
            r.importing == self.catalog.import_running,
            crate::order::strictly_sorted(text::views(r.folders@)),
            forall|folder: Seq<char>|
                text::views(r.folders@).contains(folder) <==> #[trigger] asset_edits::has_folder(
                    self.catalog.entries@,
                    folder,
                    self.catalog.entries@.len() as int,
                ),
            r.assets@ == asset_edits::visible(
                self.catalog.entries@,
                editor_assets::optional_text(self.catalog.folder_filter),
                text::lower(text::trimmed(self.catalog.asset_filter@)),
                self.catalog.entries@.len(),
            ),
            r.count_label@ == count_text(r.assets@.len()),
            r.can_create_folder == (text::trimmed(self.catalog.folder_draft@).len() > 0
                && !self.project.background_active),
            r.shows_save == (self.asset.document is Some),
            r.can_save == (self.asset.dirty && !self.project.background_active),
    {
        let folders = self.model_asset_folders();
        let assets = self.visible_model_assets();
        let count_label = count_line(assets.len());
        ContentBrowserView {
            can_import: !self.catalog.import_running && !self.project.background_active,
            importing: self.catalog.import_running,
            folders,
            assets,
            count_label,
            can_create_folder: !text::trim(self.catalog.folder_draft.as_str()).is_empty()
                && !self.project.background_active,
            shows_save: self.asset.document.is_some(),
            can_save: self.asset.dirty && !self.project.background_active,
        }
    }

    /// Shows one folder of the content, or all of it.
    pub fn choose_folder(&mut self, folder: Option<String>)
        ensures
            final(self).project == old(self).project,
            final(self).asset == old(self).asset,
            final(self).instances == old(self).instances,
            final(self).preview == old(self).preview,
            final(self).selected_object_id == old(self).selected_object_id,
            final(self).model_editor_error == old(self).model_editor_error,
            final(self).log == old(self).log,
            final(self).effects == old(self).effects,
            final(self).catalog == (CatalogState { folder_filter: folder, ..old(self).catalog }),
    {
        self.catalog.folder_filter = folder;
    }
}

/// Whether the row of the browser's grid ends behind a card.
pub fn row_ends(index: usize, columns: usize) -> (r: bool)
    requires
        columns > 0,
        index < usize::MAX,
    ensures
        r == ((index + 1) % (columns as int) == 0),
{
    (index + 1) % columns == 0
}

/// How source coordinates become the game's. Numbers are bit patterns of 32-bit floats.
#[derive(Debug, Clone, Copy)]
pub struct CoordinateConversion {
    pub units_per_meter: u32,
    pub reverse_winding: bool,
    pub basis: [u32; 9],
}

/// Where an imported model takes its collision from.
#[derive(Debug)]
pub enum CollisionSource {
    Disabled,
    RenderGeometry { surface: CollisionSurface },
    EmbeddedNodes {
        prefix: String,
        selected_nodes: Vec<u32>,
        /// Nodes with a surface of their own.
        surfaces_by_node: Vec<(u32, CollisionSurface)>,
        default_surface: CollisionSurface,
    },
    SeparateFile { path: String, conversion: Option<CoordinateConversion> },
}

/// The kinds of collision sources.
#[derive(Debug, Clone, Copy, PartialEq, Eq, Structural)]
pub enum CollisionMode {
    Disabled,
    RenderGeometry,
    EmbeddedNodes,
    SeparateFile,
}

/// How collision is simplified. Numbers are bit patterns of 32-bit floats.
#[derive(Debug, Clone, Copy, PartialEq, Eq, Structural)]
pub struct CollisionSimplification {
    pub target_ratio: u32,
    pub max_error: u32,
}

/// The import settings.
#[derive(Debug)]
pub struct ImportOptions {
    pub conversion: CoordinateConversion,
    pub collision: CollisionSource,
    pub simplification: Option<CollisionSimplification>,
}

impl CollisionSource {
    /// The kind of the source.
    pub open spec fn mode(self) -> CollisionMode {
        match self {
            CollisionSource::Disabled => CollisionMode::Disabled,
            CollisionSource::RenderGeometry { .. } => CollisionMode::RenderGeometry,
            CollisionSource::EmbeddedNodes { .. } => CollisionMode::EmbeddedNodes,
            CollisionSource::SeparateFile { .. } => CollisionMode::SeparateFile,
        }
    }

    /// The kind of the source.
    pub fn collision_mode(&self) -> (r: CollisionMode)
        ensures
            r == self.mode(),
    {
        match self {
            CollisionSource::Disabled => CollisionMode::Disabled,
            CollisionSource::RenderGeometry { .. } => CollisionMode::RenderGeometry,
            CollisionSource::EmbeddedNodes { .. } => CollisionMode::EmbeddedNodes,
            CollisionSource::SeparateFile { .. } => CollisionMode::SeparateFile,
        }
    }
}

impl CollisionMode {
    /// The name of a kind of collision sources.
    pub open spec fn name(self) -> Seq<char> {
        match self {
            CollisionMode::Disabled => "None"@,
            CollisionMode::RenderGeometry => "Render geometry"@,
            CollisionMode::EmbeddedNodes => "COL_ / selected nodes"@,
            CollisionMode::SeparateFile => "Separate glTF/GLB"@,
        }
    }

    /// The name of a kind of collision sources.
    pub fn label(self) -> (r: &'static str)
        ensures
            r@ == self.name(),
    {
        match self {
            CollisionMode::Disabled => "None",
            CollisionMode::RenderGeometry => "Render geometry",
            CollisionMode::EmbeddedNodes => "COL_ / selected nodes",
            CollisionMode::SeparateFile => "Separate glTF/GLB",
        }
    }
}

/// A fresh source of its kind.
pub open spec fn is_fresh(source: CollisionSource, mode: CollisionMode) -> bool {
    let plain = CollisionSurface { surface_type: 0, attribute_0: 0, attribute_1: 0, data: None };
    match mode {
        CollisionMode::Disabled => source is Disabled,
        CollisionMode::RenderGeometry => source matches CollisionSource::RenderGeometry { surface }
            && surface == plain,
        CollisionMode::EmbeddedNodes => source matches CollisionSource::EmbeddedNodes {
            prefix,
            selected_nodes,
            surfaces_by_node,
            default_surface,
        } && prefix@ == "COL_"@ && selected_nodes@.len() == 0 && surfaces_by_node@.len() == 0
            && default_surface == plain,
        CollisionMode::SeparateFile => source matches CollisionSource::SeparateFile {
            path,
            conversion,
        } && path@.len() == 0 && conversion is None,
    }
}

/// What the import settings show after a frame.
#[derive(Debug)]
pub struct ImportPanelInput {
    pub conversion: CoordinateConversion,
    pub mode: CollisionMode,
    /// The surface of the source was edited.
    pub surface: Option<CollisionSurface>,
    /// The prefix of collision nodes was edited.
    pub prefix: Option<String>,
    /// A separate file was chosen.
    pub path: Option<String>,
    /// The simplification was switched on or off.
    pub simplify: Option<bool>,
    /// The settings of the simplification were edited.
    pub simplification: Option<CollisionSimplification>,
}

/// The edited value, or the old one where nothing was edited.
pub open spec fn edited_surface(
    before: CollisionSurface,
    edited: Option<CollisionSurface>,
) -> CollisionSurface {
    match edited {
        Some(surface) => surface,
        None => before,
    }
}

/// The edited text, or the old one where nothing was edited.
pub open spec fn edited_text(before: String, edited: Option<String>) -> Seq<char> {
    match edited {
        Some(text) => text@,
        None => before@,
    }
}

/// The source has kept its kind and taken over the settings that it has.
pub open spec fn is_edited(
    after: CollisionSource,
    before: CollisionSource,
    input: ImportPanelInput,
) -> bool {
    match (after, before) {
        (CollisionSource::Disabled, CollisionSource::Disabled) => true,
        (
            CollisionSource::RenderGeometry { surface },
            CollisionSource::RenderGeometry { surface: old_surface },
        ) => surface == edited_surface(old_surface, input.surface),
        (
            CollisionSource::EmbeddedNodes {
                prefix,
                selected_nodes,
                surfaces_by_node,
                default_surface,
            },
            CollisionSource::EmbeddedNodes {
                prefix: old_prefix,
                selected_nodes: old_nodes,
                surfaces_by_node: old_surfaces,
                default_surface: old_surface,
            },
        ) => prefix@ == edited_text(old_prefix, input.prefix) && selected_nodes == old_nodes
            && surfaces_by_node == old_surfaces && default_surface == edited_surface(old_surface, input.surface),
        (
            CollisionSource::SeparateFile { path, conversion },
            CollisionSource::SeparateFile { path: old_path, conversion: old_conversion },
        ) => path@ == edited_text(old_path, input.path) && conversion == old_conversion,
        _ => false,
    }
}

/// The simplification after a frame.
pub open spec fn edited_simplification(
    before: Option<CollisionSimplification>,
    input: ImportPanelInput,
) -> Option<CollisionSimplification> {
    let switched = match input.simplify {
        Some(true) => Some(
            CollisionSimplification { target_ratio: 0x3f00_0000, max_error: 0x3f80_0000 },
        ),
        Some(false) => None,
        None => before,
    };
    match (switched, input.simplification) {
        (Some(_), Some(edited)) => Some(edited),
        _ => switched,
    }
}

impl ImportOptions {
    /// Changes the kind of the collision source; choosing the same kind again keeps its settings.
    pub fn choose_collision_mode(&mut self, mode: CollisionMode)
        ensures
            final(self).conversion == old(self).conversion,
            final(self).simplification == old(self).simplification,
            old(self).collision.mode() == mode ==> final(self).collision == old(self).collision,
            old(self).collision.mode() != mode ==> is_fresh(final(self).collision, mode),
    {
        if self.collision.collision_mode() == mode {
            return;
        }
        let plain = CollisionSurface { surface_type: 0, attribute_0: 0, attribute_1: 0, data: None };
        self.collision = match mode {
            CollisionMode::Disabled => CollisionSource::Disabled,
            CollisionMode::RenderGeometry => CollisionSource::RenderGeometry { surface: plain },
            CollisionMode::EmbeddedNodes => CollisionSource::EmbeddedNodes {
                prefix: "COL_".to_owned(),
                selected_nodes: Vec::new(),
                surfaces_by_node: Vec::new(),
                default_surface: plain,
            },
            CollisionMode::SeparateFile => CollisionSource::SeparateFile {
                path: String::new(),
                conversion: None,
            },
        };
    }

    /// Switches the simplification of collision on, at half the triangles and an error of 1, or
    /// off.
    pub fn switch_simplification(&mut self, enabled: bool)
        ensures
            final(self).conversion == old(self).conversion,
            final(self).collision == old(self).collision,
            final(self).simplification == (if enabled {
                Some(
                    CollisionSimplification { target_ratio: 0x3f00_0000, max_error: 0x3f80_0000 },
                )
            } else {
                None
            }),
    {
        self.simplification = if enabled {
            Some(CollisionSimplification { target_ratio: 0x3f00_0000, max_error: 0x3f80_0000 })
        } else {
            None
        };
    }

    /// Takes over what the import settings show after a frame: the conversion, the kind of the
    /// collision source, the settings of that source, and the simplification. Settings that the
    /// chosen source does not have are passed over, and so are those of a simplification that is
    /// off.
    pub fn model_import_options_panel(&mut self, input: ImportPanelInput)
        ensures
            final(self).conversion == input.conversion,
            old(self).collision.mode() == input.mode ==> is_edited(
                final(self).collision,
                old(self).collision,
                input,
            ),
            old(self).collision.mode() != input.mode ==> exists|chosen: CollisionSource|
                is_fresh(chosen, input.mode) && #[trigger] is_edited(
                    final(self).collision,
                    chosen,
                    input,
                ),
            final(self).simplification == edited_simplification(old(self).simplification, input),
    {
        self.conversion = input.conversion;
        self.choose_collision_mode(input.mode);
        let ghost chosen = self.collision;
        match &mut self.collision {
            CollisionSource::Disabled => {},
            CollisionSource::RenderGeometry { surface } => {
                if let Some(edited) = input.surface {
                    *surface = edited;
                }
            },
            CollisionSource::EmbeddedNodes { prefix, default_surface, .. } => {
                if let Some(edited) = input.prefix {
                    *prefix = edited;
                }
                if let Some(edited) = input.surface {
                    *default_surface = edited;
                }
            },
            CollisionSource::SeparateFile { path, .. } => {
                if let Some(edited) = input.path {
                    *path = edited;
                }
            },
        }
        assert(is_edited(self.collision, chosen, input));
        if let Some(enabled) = input.simplify {
            self.switch_simplification(enabled);
        }
        if let Some(edited) = input.simplification {
            if self.simplification.is_some() {
                self.simplification = Some(edited);
            }
        }
    }

    /// Prepares the settings for an import: a separate collision file is converted like the model.
    pub fn prepare(&mut self)
        ensures
            final(self).conversion == old(self).conversion,
            final(self).simplification == old(self).simplification,
            match old(self).collision {
                CollisionSource::SeparateFile { path, conversion } => final(self).collision == (
                CollisionSource::SeparateFile { path, conversion: Some(old(self).conversion) }),
                _ => final(self).collision == old(self).collision,
            },
    {
        let conversion = self.conversion;
        if let CollisionSource::SeparateFile { conversion: own, .. } = &mut self.collision {
            *own = Some(conversion);
        }
    }
}

/// The line about a separate collision file.
pub fn separate_file_line(path: &str) -> (r: String)
    ensures
        r@ == (if path@.len() == 0 {
            "No separate collision source selected"@
        } else {
            path@
        }),
{
    if path.is_empty() {
        "No separate collision source selected".to_owned()
    } else {
        path.to_owned()
    }
}

/// What the asset inspector allows.
#[derive(Debug, Clone, Copy, PartialEq, Eq, Structural)]
pub struct AssetInspectorView {
    pub shown: bool,
    pub modified: bool,
    pub writable: bool,
    pub can_save: bool,
}

impl SmsEditorApp {
    /// What the asset inspector shows and allows.
    pub fn model_asset_inspector_panel(&self) -> (r: AssetInspectorView)
        ensures
            r == (AssetInspectorView {
                shown: self.asset.document is Some,
                modified: self.asset.dirty,
                writable: !self.project.background_active,
                can_save: self.asset.dirty && !self.project.background_active,
            }),
    {
        AssetInspectorView {
            shown: self.asset.document.is_some(),
            modified: self.asset.dirty,
            writable: !self.project.background_active,
            can_save: self.asset.dirty && !self.project.background_active,
        }
    }
}

} // verus!
