//! Turns the placed models of a stage into pending edits of its archive.
//!
//! Compiling, merging and validating models is work of the application: its results come in with
//! the export. What each placement may do and which edits follow is decided here.
use vstd::prelude::*;

use std::sync::atomic::AtomicBool;

use crate::cancellation;
use crate::ids;
use crate::jdrama;
use crate::jdrama::{
    FieldValueView, FieldView, JDramaField, JDramaFieldValue, JDramaRecord, JDramaRecordPayload,
    JDramaTransform, PayloadView, RecordView, VectorBits,
};
use crate::model_instances;
use crate::model_instances::{
    CollisionSurface, CompiledModel, GxMaterialDiagnostic, ModelInstanceExportMode,
    ModelInstancePlacement, StageLoaderFlags, SMS_SM_J3D_ACT_MODEL_LOAD_FLAGS,
};
use crate::registry;
use crate::registry::{MapObjResourceDefinition, ObjectRegistry};
use crate::search;
use crate::sky_bundle;
use crate::sky_bundle::{ArchiveResource, SkyTable};
use crate::stage_edits;
use crate::stage_edits::{
    CollisionDocument, DocumentId, EditOperation, EditsView, InsertView, ResourceView,
    StageArchiveEdits, StageResourceDocument,
};
use crate::stock_path;
use crate::stock_path::StockPathError;
use crate::text;

verus! {

/// A model asset as it was when the export started.
#[derive(Debug)]
pub struct ModelAssetSnapshot {
    pub asset_id: u128,
    /// Codes of import diagnostics that still have to be acknowledged.
    pub unacknowledged: Vec<String>,
    pub compiled: Result<CompiledModel, String>,
    pub collision: Option<AssetCollision>,
}

/// The collision of an asset.
#[derive(Debug)]
pub struct AssetCollision {
    pub vertices: Vec<VectorBits>,
    /// The surface of each group.
    pub surfaces: Vec<CollisionSurface>,
}

/// A placed model with what the application found out about it.
#[derive(Debug)]
pub struct ExportInstance {
    pub placement: ModelInstancePlacement,
    /// The load flags that the materials were checked under.
    pub loader_flags: u32,
    /// What the check of the materials found.
    pub loader_diagnostics: Vec<GxMaterialDiagnostic>,
    /// The asset's own collision for a stock slot.
    pub stock_collision: CompiledCollision,
}

/// A collision and what came of compiling it.
#[derive(Debug)]
pub struct CompiledCollision {
    pub source: AssetCollision,
    pub outcome: Result<DocumentId, String>,
}

/// Position of a group in a placement document, as the archive's own lookup returned it.
pub type GroupLookup = Result<Option<Vec<usize>>, String>;

/// The open stage archive.
#[derive(Debug)]
pub struct StageArchive {
    pub resources: Vec<ArchiveResource>,
    /// Type names of the placed objects.
    pub object_types: Vec<String>,
    /// The scheduled map group of the scene.
    pub runtime_map_group: GroupLookup,
    /// The indexed group 3 of the scene.
    pub object_group: GroupLookup,
    /// The indexed group 1 of the scene.
    pub sky_group: GroupLookup,
}

/// Why several instances could not be baked into one document.
#[derive(Debug)]
pub enum MergeFailure {
    Merge(String),
    Compile(String),
}

/// Several instances, named by their positions, baked into one model under a name.
#[derive(Debug)]
pub struct BakedModel {
    pub name: String,
    pub parts: Vec<usize>,
    pub outcome: Result<DocumentId, MergeFailure>,
}

/// Several instances, named by their positions, baked into one model under a name, and the
/// collision of that model; a model may have none.
#[derive(Debug)]
pub struct BakedCollision {
    pub name: String,
    pub parts: Vec<usize>,
    pub outcome: Result<Option<DocumentId>, MergeFailure>,
}

/// The sky actor as it was authored for a transform.
#[derive(Debug)]
pub struct AuthoredSky {
    pub transform: JDramaTransform,
    pub record: Result<JDramaRecord, String>,
}

/// The abstract value of an authored sky actor; without a record the authoring failed.
pub struct SkyView {
    pub transform: JDramaTransform,
    pub record: Option<RecordView>,
}

/// The name of the model that the terrain is baked into.
pub const TERRAIN_NAME: &'static str = "AuthoredMapTerrain";

/// The name of the model that the placed collision is baked into.
pub const COLLISION_NAME: &'static str = "AuthoredInstanceCollision";

/// One export of all placed models of a stage.
pub struct ModelExport<'a> {
    pub assets: &'a [ModelAssetSnapshot],
    pub instances: &'a [ExportInstance],
    pub archive: Option<&'a StageArchive>,
    pub registry: Option<&'a ObjectRegistry>,
    pub flags: StageLoaderFlags,
    pub terrain: &'a BakedModel,
    pub placed_collision: &'a BakedCollision,
}

/// What keeps a stock placement from being exported.
#[derive(Debug, Clone, Copy, PartialEq, Eq, Structural)]
pub enum StockFault {
    NoSlotSelected,
    UnknownSlot,
    NoManager,
    ManagerMissing,
    HoldDependency,
    MoveDependency,
    DamageHeight,
    CompiledMetadata,
    NoPrimaryModel,
    ModelPath(StockPathError),
    /// The slot already holds the asset of an earlier instance.
    SlotTaken(usize),
    /// The model path already holds the asset of an earlier instance, the last that does.
    ModelTaken(usize),
    Loader,
    Compile,
    Budget,
    Transform,
    NoCollisionResource,
    NoCollision,
    CollisionCompile,
    /// The collision resource at this position allows fewer vertices.
    CollisionLimit(usize),
    /// The collision resource at this position has no archive path.
    CollisionPath(usize, StockPathError),
    /// The collision resource at this position is held by an earlier instance.
    CollisionTaken(usize, usize),
}

/// Why an export stopped. Numbers are positions of instances.
#[derive(Debug, Clone, Copy, PartialEq, Eq, Structural)]
pub enum ExportError {
    Cancelled,
    MissingAsset(usize),
    Unacknowledged(usize),
    Loader(usize),
    Compile(usize),
    Budget(usize),
    Transform(usize),
    SeparateNeedsArchive,
    RuntimeGroupLookup,
    RuntimeGroupMissing,
    TablesNotPlacement,
    TablesWithoutGroup,
    StockNeedsArchive,
    StockNeedsRegistry,
    ObjectGroupLookup,
    ObjectGroupMissing,
    SceneNotPlacement,
    Stock(usize, StockFault),
    TerrainMerge,
    TerrainCompile,
    TooManySkyboxes(usize),
    SkyNeedsArchive,
    SkyGroupLookup,
    SkyGroupMissing,
    SkyRecord,
    CollisionMerge,
    CollisionCompile,
    SkyTable,
}

/// The asset has this identifier.
pub open spec fn has_asset_id(id: u128) -> spec_fn(ModelAssetSnapshot) -> bool {
    |asset: ModelAssetSnapshot| asset.asset_id == id
}

/// The resource lies at this path.
pub open spec fn lies_at(path: Seq<u8>) -> spec_fn(ArchiveResource) -> bool {
    |resource: ArchiveResource| resource.raw_path@ == path
}

/// The edit concerns this path.
pub open spec fn edits_path(path: Seq<u8>) -> spec_fn(
    stage_edits::ResourceEdit<StageResourceDocument>,
) -> bool {
    |edit: stage_edits::ResourceEdit<StageResourceDocument>| edit.raw_resource_path@ == path
}

/// The scene's placement document.
pub open spec fn scene_path() -> Seq<u8> {
    sky_bundle::bytes_of("map/scene.bin"@)
}

/// The character tables.
pub open spec fn tables_path() -> Seq<u8> {
    sky_bundle::bytes_of("map/tables.bin"@)
}

/// Archive path of the model that an asset brings as a separate object.
pub open spec fn separate_model_path(asset_id: u128) -> Seq<u8> {
    sky_bundle::bytes_of("mapobj/"@ + ids::resource_key(asset_id) + "/default.bmd"@)
}

/// The character record of an asset.
pub open spec fn chara_record(asset_id: u128) -> RecordView {
    RecordView {
        record_type: "ObjChara"@,
        name: ids::character_name(asset_id),
        payload: PayloadView::Fields {
            fields: seq![
                FieldView {
                    name: "resource_folder"@,
                    value: FieldValueView::Text("/scene/mapObj/"@ + ids::resource_key(asset_id)),
                },
            ],
        },
    }
}

/// The actor record of a separate runtime object.
pub open spec fn actor_record(placement: ModelInstancePlacement) -> RecordView {
    RecordView {
        record_type: "SmJ3DAct"@,
        name: "sms_instance_"@ + ids::simple(placement.instance_id),
        payload: PayloadView::Actor {
            transform: placement.transform,
            character_name: ids::character_name(placement.asset_id),
            fields: Seq::empty(),
        },
    }
}

/// The record of a stock map object.
pub open spec fn stock_record(
    placement: ModelInstancePlacement,
    resource_name: Seq<char>,
) -> RecordView {
    RecordView {
        record_type: "MapObjBase"@,
        name: "sms_stock_instance_"@ + ids::simple(placement.instance_id),
        payload: PayloadView::Actor {
            transform: placement.transform,
            character_name: Seq::empty(),
            fields: seq![
                FieldView {
                    name: "resource_name"@,
                    value: FieldValueView::Text(resource_name),
                },
            ],
        },
    }
}

/// Positions of the instances that are exported in this way among the first `n`, in order.
pub open spec fn positions_of(
    instances: Seq<ExportInstance>,
    mode: ModelInstanceExportMode,
    n: nat,
) -> Seq<usize>
    decreases n,
{
    if n == 0 {
        Seq::empty()
    } else {
        let rest = positions_of(instances, mode, (n - 1) as nat);
        if instances[n - 1].placement.export_mode == mode {
            rest.push((n - 1) as usize)
        } else {
            rest
        }
    }
}

fn collect_positions(instances: &[ExportInstance], mode: ModelInstanceExportMode) -> (r: Vec<usize>)
    ensures
        r@ == positions_of(instances@, mode, instances@.len()),
{
    let mut r: Vec<usize> = Vec::new();
    let mut k: usize = 0;
    while k < instances.len()
        invariant
            k <= instances.len(),
            r@ == positions_of(instances@, mode, k as nat),
        decreases instances.len() - k,
    {
        if instances[k].placement.export_mode == mode {
            r.push(k);
        }
        k += 1;
    }
    r
}

/// The instances that are baked into the world model: all map terrain, in order.
pub open spec fn terrain_parts(instances: Seq<ExportInstance>) -> Seq<usize> {
    positions_of(instances, ModelInstanceExportMode::MapTerrain, instances.len())
}

/// The instances that are baked into the world model: all map terrain, in order.
pub fn terrain_instances(instances: &[ExportInstance]) -> (r: Vec<usize>)
    ensures
        r@ == terrain_parts(instances@),
{
    collect_positions(instances, ModelInstanceExportMode::MapTerrain)
}

/// The instances whose collision joins the world's: the separate objects in order, then the map
/// terrain in order.
pub open spec fn collision_parts(instances: Seq<ExportInstance>) -> Seq<usize> {
    positions_of(instances, ModelInstanceExportMode::SeparateRuntimeObject, instances.len())
        + terrain_parts(instances)
}

/// The instances whose collision joins the world's: the separate objects in order, then the map
/// terrain in order.
pub fn placed_collision_instances(instances: &[ExportInstance]) -> (r: Vec<usize>)
    ensures
        r@ == collision_parts(instances@),
{
    let mut r = collect_positions(instances, ModelInstanceExportMode::SeparateRuntimeObject);
    let mut terrain = terrain_instances(instances);
    r.append(&mut terrain);
    r
}

/// The surfaces of an asset's collision groups in a stock slot: the override of the placement for
/// every group where it has one, else each group's own.
pub open spec fn stock_surfaces(
    placement: ModelInstancePlacement,
    groups: Seq<CollisionSurface>,
) -> Seq<CollisionSurface> {
    Seq::new(
        groups.len(),
        |i: int|
            match placement.collision_surface_override {
                Some(surface) => surface,
                None => groups[i],
            },
    )
}

/// The surfaces of an asset's collision groups in a stock slot.
pub fn stock_collision_surfaces(
    placement: &ModelInstancePlacement,
    groups: &[CollisionSurface],
) -> (r: Vec<CollisionSurface>)
    ensures
        r@ == stock_surfaces(*placement, groups@),
        r@.len() == groups@.len(),
        forall|i: int|
            0 <= i < groups@.len() ==> #[trigger] r@[i] == (
            match placement.collision_surface_override {
                Some(surface) => surface,
                None => groups@[i],
            }),
{
    let mut r: Vec<CollisionSurface> = Vec::new();
    let mut i: usize = 0;
    while i < groups.len()
        invariant
            i <= groups.len(),
            r@ == stock_surfaces(*placement, groups@).take(i as int),
        decreases groups.len() - i,
    {
        r.push(
            match placement.collision_surface_override {
                Some(surface) => surface,
                None => groups[i],
            },
        );
        i += 1;
        proof {
            assert(r@ =~= stock_surfaces(*placement, groups@).take(i as int));
        }
    }
    proof {
        assert(r@ =~= stock_surfaces(*placement, groups@));
    }
    r
}

/// The collision is that of an asset in a stock slot: the asset's own vertices, whatever the
/// transform of the placement, with the surfaces that the placement gives.
pub open spec fn is_stock_collision(
    source: AssetCollision,
    placement: ModelInstancePlacement,
    own: AssetCollision,
) -> bool {
    source.vertices@ == own.vertices@ && source.surfaces@ == stock_surfaces(
        placement,
        own.surfaces@,
    )
}

/// The collision of an asset in a stock slot, as it is to be compiled.
pub fn stock_collision(placement: &ModelInstancePlacement, own: &AssetCollision) -> (r:
    AssetCollision)
    ensures
        is_stock_collision(r, *placement, *own),
{
    let mut vertices: Vec<VectorBits> = Vec::new();
    let mut i: usize = 0;
    while i < own.vertices.len()
        invariant
            i <= own.vertices.len(),
            vertices@ == own.vertices@.take(i as int),
        decreases own.vertices.len() - i,
    {
        vertices.push(own.vertices[i]);
        i += 1;
        proof {
            assert(vertices@ =~= own.vertices@.take(i as int));
        }
    }
    proof {
        assert(vertices@ =~= own.vertices@);
    }
    let surfaces = stock_collision_surfaces(placement, own.surfaces.as_slice());
    AssetCollision { vertices, surfaces }
}

/// How many vertices a collision has; none where there is no collision.
pub open spec fn collision_size(collision: Option<AssetCollision>) -> nat {
    match collision {
        Some(collision) => collision.vertices@.len(),
        None => 0,
    }
}

pub(crate) fn collision_len(collision: &Option<AssetCollision>) -> (r: usize)
    ensures
        r == collision_size(*collision),
{
    match collision {
        Some(collision) => collision.vertices.len(),
        None => 0,
    }
}

/// Whether two lists of vertices are the same.
fn same_vertices(a: &[VectorBits], b: &[VectorBits]) -> (r: bool)
    ensures
        r == (a@ == b@),
{
    if a.len() != b.len() {
        return false;
    }
    let mut i: usize = 0;
    while i < a.len()
        invariant
            i <= a.len(),
            a@.len() == b@.len(),
            forall|j: int| 0 <= j < i ==> a@[j] == b@[j],
        decreases a.len() - i,
    {
        if a[i] != b[i] {
            return false;
        }
        i += 1;
    }
    proof {
        assert(a@ =~= b@);
    }
    true
}

/// Whether two lists of surfaces are the same.
fn same_surfaces(a: &[CollisionSurface], b: &[CollisionSurface]) -> (r: bool)
    ensures
        r == (a@ == b@),
{
    if a.len() != b.len() {
        return false;
    }
    let mut i: usize = 0;
    while i < a.len()
        invariant
            i <= a.len(),
            a@.len() == b@.len(),
            forall|j: int| 0 <= j < i ==> a@[j] == b@[j],
        decreases a.len() - i,
    {
        if a[i] != b[i] {
            return false;
        }
        i += 1;
    }
    proof {
        assert(a@ =~= b@);
    }
    true
}

/// Whether two lists of positions are the same.
fn same_positions(a: &[usize], b: &[usize]) -> (r: bool)
    ensures
        r == (a@ == b@),
{
    if a.len() != b.len() {
        return false;
    }
    let mut i: usize = 0;
    while i < a.len()
        invariant
            i <= a.len(),
            a@.len() == b@.len(),
            forall|j: int| 0 <= j < i ==> a@[j] == b@[j],
        decreases a.len() - i,
    {
        if a[i] != b[i] {
            return false;
        }
        i += 1;
    }
    proof {
        assert(a@ =~= b@);
    }
    true
}

/// The list with `id` at its place in ascending order; a known identifier stays once.
pub open spec fn with_id(list: Seq<u128>, id: u128) -> Seq<u128>
    decreases list.len(),
{
    if list.len() == 0 {
        seq![id]
    } else if list[0] < id {
        seq![list[0]] + with_id(list.drop_first(), id)
    } else if list[0] == id {
        list
    } else {
        seq![id] + list
    }
}

impl<'a> ModelExport<'a> {
    /// Number of instances.
    pub open spec fn count(self) -> nat {
        self.instances@.len()
    }

    /// The placement of an instance.
    pub open spec fn placement(self, k: int) -> ModelInstancePlacement {
        self.instances@[k].placement
    }

    /// The instance is exported in this way.
    pub open spec fn has_mode(self, k: int, mode: ModelInstanceExportMode) -> bool {
        self.placement(k).export_mode == mode
    }

    /// Some instance is exported in this way.
    pub open spec fn any_mode(self, mode: ModelInstanceExportMode) -> bool {
        exists|k: int| 0 <= k < self.count() && #[trigger] self.has_mode(k, mode)
    }

    /// Position of the asset of an instance.
    pub open spec fn asset_position(self, k: int) -> Option<int> {
        search::first_position(self.assets@, has_asset_id(self.placement(k).asset_id))
    }

    /// The asset of an instance.
    pub open spec fn asset(self, k: int) -> ModelAssetSnapshot {
        self.assets@[self.asset_position(k)->0]
    }

    /// An instance needs its asset in the snapshot, with all required diagnostics acknowledged.
    pub open spec fn admission(self) -> spec_fn(int) -> Option<ExportError> {
        |k: int|
            match self.asset_position(k) {
                None => Some(ExportError::MissingAsset(k as usize)),
                Some(a) => if self.assets@[a].unacknowledged@.len() > 0 {
                    Some(ExportError::Unacknowledged(k as usize))
                } else {
                    None
                },
            }
    }

    /// The load flags of the loader that reads the model of an instance.
    pub open spec fn wanted_flags(self, k: int) -> u32 {
        match self.placement(k).export_mode {
            ModelInstanceExportMode::SeparateRuntimeObject => SMS_SM_J3D_ACT_MODEL_LOAD_FLAGS,
            ModelInstanceExportMode::MapTerrain => self.flags.map,
            ModelInstanceExportMode::Skybox => self.flags.default_object,
            ModelInstanceExportMode::StockMapObjBase => self.slot(k).load_flags,
        }
    }

    /// The materials of an instance were checked under the flags of its loader, and no error was
    /// found; warnings do not count.
    pub open spec fn loads(self, k: int) -> bool {
        self.instances@[k].loader_flags == self.wanted_flags(k) && model_instances::first_error(
            self.instances@[k].loader_diagnostics@,
        ) is None
    }

    /// No material of an instance exported this way may be unreadable for its loader.
    pub open spec fn loader_check(self, mode: ModelInstanceExportMode) -> spec_fn(int) -> Option<
        ExportError,
    > {
        |k: int|
            if self.has_mode(k, mode) && !self.loads(k) {
                Some(ExportError::Loader(k as usize))
            } else {
                None
            }
    }

    /// Identifiers of the assets of the separate objects among the first `n` instances, ascending.
    pub open spec fn separate_ids(self, n: nat) -> Seq<u128>
        decreases n,
    {
        if n == 0 {
            Seq::empty()
        } else {
            let rest = self.separate_ids((n - 1) as nat);
            if self.has_mode(n - 1, ModelInstanceExportMode::SeparateRuntimeObject) {
                with_id(rest, self.placement(n - 1).asset_id)
            } else {
                rest
            }
        }
    }

    /// The instance is a separate object of this asset.
    pub open spec fn is_separate_of(id: u128) -> spec_fn(ExportInstance) -> bool {
        |instance: ExportInstance|
            instance.placement.export_mode == ModelInstanceExportMode::SeparateRuntimeObject
                && instance.placement.asset_id == id
    }

    /// The first separate object of an asset.
    pub open spec fn first_separate(self, id: u128) -> int {
        search::first_position(self.instances@, Self::is_separate_of(id))->0
    }

    /// The asset of a separate object has to compile and to keep the actor budgets.
    pub open spec fn separate_model_check(self, ids: Seq<u128>) -> spec_fn(int) -> Option<
        ExportError,
    > {
        |i: int|
            {
                let k = self.first_separate(ids[i]);
                match self.asset(k).compiled {
                    Err(_) => Some(ExportError::Compile(k as usize)),
                    Ok(model) => if model_instances::within_budget(model.sections@) {
                        None
                    } else {
                        Some(ExportError::Budget(k as usize))
                    },
                }
            }
    }

    /// One model edit for each asset.
    pub open spec fn with_separate_models(self, edits: EditsView, ids: Seq<u128>) -> EditsView
        decreases ids.len(),
    {
        if ids.len() == 0 {
            edits
        } else {
            self.with_separate_models(edits, ids.drop_last()).with_model(
                separate_model_path(ids.last()),
                EditOperation::Upsert,
                self.asset(self.first_separate(ids.last())).compiled->Ok_0.document,
            )
        }
    }

    /// A separate object needs a finite transform.
    pub open spec fn actor_check(self) -> spec_fn(int) -> Option<ExportError> {
        |k: int|
            if self.has_mode(k, ModelInstanceExportMode::SeparateRuntimeObject)
                && !self.placement(k).transform.finite() {
                Some(ExportError::Transform(k as usize))
            } else {
                None
            }
    }

    /// One actor for each separate object among the first `n` instances.
    pub open spec fn with_actors(self, edits: EditsView, parent: Seq<usize>, n: nat) -> EditsView
        decreases n,
    {
        if n == 0 {
            edits
        } else {
            let rest = self.with_actors(edits, parent, (n - 1) as nat);
            if self.has_mode(n - 1, ModelInstanceExportMode::SeparateRuntimeObject) {
                rest.with_insert(
                    InsertView {
                        path: scene_path(),
                        parent,
                        record: actor_record(self.placement(n - 1)),
                    },
                )
            } else {
                rest
            }
        }
    }

    /// The edits of all separate runtime objects.
    pub open spec fn separate_edits(self, edits: EditsView) -> Result<EditsView, ExportError> {
        let mode = ModelInstanceExportMode::SeparateRuntimeObject;
        let ids = self.separate_ids(self.count());
        if !self.any_mode(mode) {
            Ok(edits)
        } else if let Some(fault) = search::first_fault(self.count(), self.loader_check(mode)) {
            Err(fault)
        } else {
            match self.archive {
                None => Err(ExportError::SeparateNeedsArchive),
                Some(archive) => match parent_of(
                    archive.runtime_map_group,
                    ExportError::RuntimeGroupLookup,
                    ExportError::RuntimeGroupMissing,
                ) {
                    Err(fault) => Err(fault),
                    Ok(parent) => if let Some(fault) = search::first_fault(
                        ids.len(),
                        self.separate_model_check(ids),
                    ) {
                        Err(fault)
                    } else {
                        match with_characters(
                            *archive,
                            self.with_separate_models(edits, ids),
                            ids,
                        ) {
                            Err(fault) => Err(fault),
                            Ok(edits) => if let Some(fault) = search::first_fault(
                                self.count(),
                                self.actor_check(),
                            ) {
                                Err(fault)
                            } else {
                                Ok(self.with_actors(edits, parent, self.count()))
                            },
                        }
                    },
                },
            }
        }
    }
}

/// The group that a lookup found, or the fault of a lookup that failed or found none.
pub open spec fn parent_of(
    lookup: GroupLookup,
    failed: ExportError,
    missing: ExportError,
) -> Result<Seq<usize>, ExportError> {
    match lookup {
        Err(_) => Err(failed),
        Ok(None) => Err(missing),
        Ok(Some(path)) => Ok(path@),
    }
}

/// The placement tree of a document, if it is one.
pub open spec fn tree_of(document: StageResourceDocument) -> Option<JDramaRecord> {
    match document {
        StageResourceDocument::Placement(root) => Some(root),
        _ => None,
    }
}

/// The archive's own resource at a path.
pub open spec fn archive_document(archive: StageArchive, path: Seq<u8>) -> Option<
    StageResourceDocument,
> {
    match search::first_position(archive.resources@, lies_at(path)) {
        Some(i) => Some(archive.resources@[i].document),
        None => None,
    }
}

/// One character record for each asset, inserted below `parent`.
pub open spec fn with_character_inserts(
    edits: EditsView,
    parent: Seq<usize>,
    ids: Seq<u128>,
) -> EditsView
    decreases ids.len(),
{
    if ids.len() == 0 {
        edits
    } else {
        with_character_inserts(edits, parent, ids.drop_last()).with_insert(
            InsertView { path: tables_path(), parent, record: chara_record(ids.last()) },
        )
    }
}

/// The character tables with one record for each asset: inserted into the first `NameRefGrp` of
/// the archive's tables, or as new tables where the archive has none.
pub open spec fn with_characters(archive: StageArchive, edits: EditsView, ids: Seq<u128>) -> Result<
    EditsView,
    ExportError,
> {
    match archive_document(archive, tables_path()) {
        None => Ok(
            edits.with_resource(
                tables_path(),
                EditOperation::Insert,
                ResourceView::Placement(
                    RecordView {
                        record_type: "NameRefGrp"@,
                        name: "SMS authored model characters"@,
                        payload: PayloadView::Group {
                            fields: Seq::empty(),
                            children: Seq::new(ids.len(), |i: int| chara_record(ids[i])),
                        },
                    },
                ),
            ),
        ),
        Some(document) => match tree_of(document) {
            None => Err(ExportError::TablesNotPlacement),
            Some(root) => match jdrama::group_path(root, "NameRefGrp"@) {
                None => Err(ExportError::TablesWithoutGroup),
                Some(parent) => Ok(with_character_inserts(edits, parent, ids)),
            },
        },
    }
}

/// A result agrees with what the specification says of it, unless the export was cancelled.
pub open spec fn agrees(
    r: Result<(), ExportError>,
    expected: Result<EditsView, ExportError>,
    edits: EditsView,
    cancelled: Option<&AtomicBool>,
) -> bool {
    ||| cancelled is Some && r == Err::<(), ExportError>(ExportError::Cancelled)
    ||| match r {
        Ok(()) => expected == Ok::<EditsView, ExportError>(edits),
        Err(fault) => expected == Err::<EditsView, ExportError>(fault),
    }
}

fn is_cancelled(cancelled: Option<&AtomicBool>) -> (r: bool)
    ensures
        cancelled is None ==> !r,
{
    cancellation::check_model_export_cancelled(cancelled).is_err()
}

pub(crate) fn find_asset(assets: &[ModelAssetSnapshot], id: u128) -> (r: Option<usize>)
    ensures
        match r {
            Some(i) => i < assets@.len() && search::first_position(assets@, has_asset_id(id))
                == Some(i as int),
            None => search::first_position(assets@, has_asset_id(id)) is None,
        },
{
    let mut i: usize = 0;
    while i < assets.len()
        invariant
            i <= assets.len(),
            forall|j: int| 0 <= j < i ==> !has_asset_id(id)(#[trigger] assets@[j]),
        decreases assets.len() - i,
    {
        if assets[i].asset_id == id {
            proof {
                search::lemma_found(assets@, has_asset_id(id), i as int);
            }
            return Some(i);
        }
        i += 1;
    }
    proof {
        search::lemma_not_found(assets@, has_asset_id(id));
    }
    None
}

fn find_resource(archive: &StageArchive, path: &[u8]) -> (r: Option<usize>)
    ensures
        match r {
            Some(i) => i < archive.resources@.len() && search::first_position(
                archive.resources@,
                lies_at(path@),
            ) == Some(i as int),
            None => search::first_position(archive.resources@, lies_at(path@)) is None,
        },
{
    let mut i: usize = 0;
    while i < archive.resources.len()
        invariant
            i <= archive.resources.len(),
            forall|j: int| 0 <= j < i ==> !lies_at(path@)(#[trigger] archive.resources@[j]),
        decreases archive.resources.len() - i,
    {
        if stage_edits::same_bytes(archive.resources[i].raw_path.as_slice(), path) {
            proof {
                search::lemma_found(archive.resources@, lies_at(path@), i as int);
            }
            return Some(i);
        }
        i += 1;
    }
    proof {
        search::lemma_not_found(archive.resources@, lies_at(path@));
    }
    None
}

fn copy_positions(a: &[usize]) -> (r: Vec<usize>)
    ensures
        r@ == a@,
{
    let mut r: Vec<usize> = Vec::new();
    let mut i: usize = 0;
    while i < a.len()
        invariant
            i <= a.len(),
            r@ == a@.take(i as int),
        decreases a.len() - i,
    {
        r.push(a[i]);
        i += 1;
    }
    r
}

fn found_parent(lookup: &GroupLookup, failed: ExportError, missing: ExportError) -> (r: Result<
    Vec<usize>,
    ExportError,
>)
    ensures
        match r {
            Ok(path) => parent_of(*lookup, failed, missing) == Ok::<Seq<usize>, ExportError>(path@),
            Err(fault) => parent_of(*lookup, failed, missing) == Err::<Seq<usize>, ExportError>(
                fault,
            ),
        },
{
    match lookup {
        Err(_) => Err(failed),
        Ok(None) => Err(missing),
        Ok(Some(path)) => Ok(copy_positions(path.as_slice())),
    }
}

/// The scheduled map group of the scene, below which separate runtime objects are placed.
pub fn runtime_actor_parent_path(archive: &StageArchive) -> (r: Result<Vec<usize>, ExportError>)
    ensures
        match archive.runtime_map_group {
            Ok(Some(path)) => r matches Ok(found) && found@ == path@,
            Ok(None) => r == Err::<Vec<usize>, ExportError>(ExportError::RuntimeGroupMissing),
            Err(_) => r == Err::<Vec<usize>, ExportError>(ExportError::RuntimeGroupLookup),
        },
{
    found_parent(
        &archive.runtime_map_group,
        ExportError::RuntimeGroupLookup,
        ExportError::RuntimeGroupMissing,
    )
}

/// The character record of an asset.
pub fn runtime_obj_chara_record(asset_id: u128) -> (r: JDramaRecord)
    ensures
        r@ == chara_record(asset_id),
{
    let mut fields: Vec<JDramaField> = Vec::new();
    fields.push(
        JDramaField {
            name: "resource_folder".to_owned(),
            value: JDramaFieldValue::Text(
                "/scene/mapObj/".to_owned().concat(
                    ids::model_runtime_resource_key(asset_id).as_str(),
                ),
            ),
        },
    );
    let r = JDramaRecord {
        record_type: "ObjChara".to_owned(),
        name: ids::runtime_character_name(asset_id),
        payload: JDramaRecordPayload::Fields { fields },
    };
    proof {
        assert(jdrama::fields_view(r.payload->Fields_fields@) =~= chara_record(
            asset_id,
        ).payload->Fields_fields);
        assert(r@ == chara_record(asset_id));
    }
    r
}

/// The actor record of a separate runtime object; `None` for a transform that is not finite.
pub fn runtime_sm_j3d_actor_record(placement: &ModelInstancePlacement) -> (r: Option<JDramaRecord>)
    ensures
        match r {
            Some(record) => placement.transform.finite() && record@ == actor_record(*placement),
            None => !placement.transform.finite(),
        },
{
    if !placement.transform.is_finite() {
        return None;
    }
    let r = JDramaRecord {
        record_type: "SmJ3DAct".to_owned(),
        name: "sms_instance_".to_owned().concat(ids::simple_text(placement.instance_id).as_str()),
        payload: JDramaRecordPayload::Actor {
            transform: placement.transform,
            character_name: ids::runtime_character_name(placement.asset_id),
            fields: Vec::new(),
        },
    };
    proof {
        assert(jdrama::fields_view(r.payload->Actor_fields@) =~= Seq::empty());
        assert(r@ == actor_record(*placement));
    }
    Some(r)
}

/// The record of a stock map object; `None` for a transform that is not finite.
pub fn stock_map_obj_base_record(placement: &ModelInstancePlacement, resource_name: &str) -> (r:
    Option<JDramaRecord>)
    ensures
        match r {
            Some(record) => placement.transform.finite() && record@ == stock_record(
                *placement,
                resource_name@,
            ),
            None => !placement.transform.finite(),
        },
{
    if !placement.transform.is_finite() {
        return None;
    }
    let mut fields: Vec<JDramaField> = Vec::new();
    fields.push(
        JDramaField {
            name: "resource_name".to_owned(),
            value: JDramaFieldValue::Text(resource_name.to_owned()),
        },
    );
    let r = JDramaRecord {
        record_type: "MapObjBase".to_owned(),
        name: "sms_stock_instance_".to_owned().concat(
            ids::simple_text(placement.instance_id).as_str(),
        ),
        payload: JDramaRecordPayload::Actor {
            transform: placement.transform,
            character_name: String::new(),
            fields,
        },
    };
    proof {
        assert(jdrama::fields_view(r.payload->Actor_fields@) =~= stock_record(
            *placement,
            resource_name@,
        ).payload->Actor_fields);
        assert(r@ == stock_record(*placement, resource_name@));
    }
    Some(r)
}

proof fn lemma_with_id(list: Seq<u128>, id: u128, k: int)
    requires
        0 <= k <= list.len(),
        forall|j: int| 0 <= j < k ==> #[trigger] list[j] < id,
        k < list.len() ==> list[k] >= id,
    ensures
        with_id(list, id) == (if k < list.len() && list[k] == id {
            list
        } else {
            list.insert(k, id)
        }),
    decreases list.len(),
{
    if list.len() == 0 {
        assert(list.insert(0, id) =~= seq![id]);
    } else if k == 0 {
        if list[0] != id {
            assert(list.insert(0, id) =~= seq![id] + list);
        }
    } else {
        assert(list[0] < id);
        let rest = list.drop_first();
        assert forall|j: int| 0 <= j < k - 1 implies #[trigger] rest[j] < id by {
            assert(rest[j] == list[j + 1]);
        }
        lemma_with_id(rest, id, k - 1);
        if k < list.len() && list[k] == id {
            assert(seq![list[0]] + rest =~= list);
        } else {
            assert(list.insert(k, id) =~= seq![list[0]] + rest.insert(k - 1, id));
        }
    }
}

fn insert_id(list: &mut Vec<u128>, id: u128)
    ensures
        final(list)@ == with_id(old(list)@, id),
{
    let mut k: usize = 0;
    while k < list.len() && list[k] < id
        invariant
            k <= list.len(),
            list@ == old(list)@,
            forall|j: int| 0 <= j < k ==> #[trigger] list@[j] < id,
        decreases list.len() - k,
    {
        k += 1;
    }
    proof {
        lemma_with_id(list@, id, k as int);
    }
    if k < list.len() && list[k] == id {
        return;
    }
    list.insert(k, id);
}

fn separate_asset_ids(x: &ModelExport) -> (r: Vec<u128>)
    ensures
        r@ == x.separate_ids(x.count()),
{
    let mut r: Vec<u128> = Vec::new();
    let mut k: usize = 0;
    while k < x.instances.len()
        invariant
            k <= x.instances.len(),
            r@ == x.separate_ids(k as nat),
        decreases x.instances.len() - k,
    {
        if x.instances[k].placement.export_mode == ModelInstanceExportMode::SeparateRuntimeObject {
            insert_id(&mut r, x.instances[k].placement.asset_id);
        }
        k += 1;
    }
    r
}

fn has_any(x: &ModelExport, mode: ModelInstanceExportMode) -> (r: bool)
    ensures
        r == x.any_mode(mode),
{
    let mut k: usize = 0;
    while k < x.instances.len()
        invariant
            k <= x.instances.len(),
            forall|j: int| 0 <= j < k ==> !#[trigger] x.has_mode(j, mode),
        decreases x.instances.len() - k,
    {
        if x.instances[k].placement.export_mode == mode {
            assert(x.has_mode(k as int, mode));
            return true;
        }
        k += 1;
    }
    false
}

fn loader_accepts(instance: &ExportInstance, flags: u32) -> (r: bool)
    ensures
        r == (instance.loader_flags == flags && model_instances::first_error(
            instance.loader_diagnostics@,
        ) is None),
{
    let diagnostics = instance.loader_diagnostics.as_slice();
    instance.loader_flags == flags
        && model_instances::validate_instance_loader_compatibility(diagnostics).is_none()
}

fn check_loaders(
    x: &ModelExport,
    mode: ModelInstanceExportMode,
    flags: u32,
    cancelled: Option<&AtomicBool>,
) -> (r: Result<(), ExportError>)
    requires
        forall|j: int| x.has_mode(j, mode) ==> #[trigger] x.wanted_flags(j) == flags,
    ensures
        ({
            ||| cancelled is Some && r == Err::<(), ExportError>(ExportError::Cancelled)
            ||| match r {
                Ok(()) => search::first_fault(x.count(), x.loader_check(mode)) is None,
                Err(fault) => search::first_fault(x.count(), x.loader_check(mode)) == Some(fault),
            }
        }),
{
    let mut k: usize = 0;
    while k < x.instances.len()
        invariant
            k <= x.instances.len(),
            forall|j: int| x.has_mode(j, mode) ==> #[trigger] x.wanted_flags(j) == flags,
            search::first_fault(k as nat, x.loader_check(mode)) is None,
        decreases x.instances.len() - k,
    {
        if x.instances[k].placement.export_mode == mode {
            if is_cancelled(cancelled) {
                return Err(ExportError::Cancelled);
            }
            assert(x.has_mode(k as int, mode) && x.wanted_flags(k as int) == flags);
            if !loader_accepts(&x.instances[k], flags) {
                proof {
                    search::lemma_fault_stays((k + 1) as nat, x.count(), x.loader_check(mode));
                }
                return Err(ExportError::Loader(k));
            }
        }
        k += 1;
    }
    Ok(())
}

fn find_separate(x: &ModelExport, id: u128) -> (r: usize)
    requires
        exists|k: int|
            0 <= k < x.count() && ModelExport::is_separate_of(id)(#[trigger] x.instances@[k]),
    ensures
        r == x.first_separate(id),
        r < x.count(),
        ModelExport::is_separate_of(id)(x.instances@[r as int]),
{
    let mut k: usize = 0;
    while k < x.instances.len()
        invariant
            k <= x.instances.len(),
            forall|j: int|
                0 <= j < k ==> !ModelExport::is_separate_of(id)(#[trigger] x.instances@[j]),
        decreases x.instances.len() - k,
    {
        if x.instances[k].placement.export_mode == ModelInstanceExportMode::SeparateRuntimeObject
            && x.instances[k].placement.asset_id == id {
            proof {
                search::lemma_found(x.instances@, ModelExport::is_separate_of(id), k as int);
            }
            return k;
        }
        k += 1;
    }
    proof {
        assert(false);
    }
    0
}

proof fn lemma_with_id_members(list: Seq<u128>, id: u128, other: u128)
    ensures
        with_id(list, id).contains(other) <==> list.contains(other) || other == id,
    decreases list.len(),
{
    let r = with_id(list, id);
    if list.len() == 0 {
        assert(r[0] == id);
        assert(!list.contains(other));
        if other == id {
            assert(r.contains(other));
        }
    } else if list[0] < id {
        let rest = list.drop_first();
        let tail = with_id(rest, id);
        lemma_with_id_members(rest, id, other);
        assert(forall|j: int| 0 <= j < rest.len() ==> rest[j] == list[j + 1]);
        assert(forall|j: int| 0 <= j < tail.len() ==> r[j + 1] == tail[j]);
        assert(r[0] == list[0]);
        if r.contains(other) {
            let j = choose|j: int| 0 <= j < r.len() && r[j] == other;
            if j > 0 {
                assert(tail[j - 1] == other);
                assert(tail.contains(other));
                if rest.contains(other) {
                    let m = choose|m: int| 0 <= m < rest.len() && rest[m] == other;
                    assert(list[m + 1] == other);
                }
            } else {
                assert(list.contains(list[0]));
            }
        }
        if list.contains(other) || other == id {
            if other == list[0] {
                assert(r[0] == other);
            } else {
                if list.contains(other) {
                    let m = choose|m: int| 0 <= m < list.len() && list[m] == other;
                    assert(rest[m - 1] == other);
                    assert(rest.contains(other));
                }
                let j = choose|j: int| 0 <= j < tail.len() && tail[j] == other;
                assert(r[j + 1] == other);
            }
        }
    } else if list[0] == id {
        assert(list.contains(list[0]));
    } else {
        assert(r[0] == id);
        assert(forall|j: int| 0 <= j < list.len() ==> r[j + 1] == list[j]);
        if r.contains(other) {
            let j = choose|j: int| 0 <= j < r.len() && r[j] == other;
            if j > 0 {
                assert(list[j - 1] == other);
            }
        }
        if list.contains(other) {
            let j = choose|j: int| 0 <= j < list.len() && list[j] == other;
            assert(r[j + 1] == other);
        }
    }
}

impl<'a> ModelExport<'a> {
    /// Every identifier in the list is the asset of a separate object.
    proof fn lemma_separate_ids(self, n: nat, id: u128)
        requires
            n <= self.count(),
            self.separate_ids(n).contains(id),
        ensures
            exists|k: int|
                0 <= k < n && Self::is_separate_of(id)(#[trigger] self.instances@[k]),
        decreases n,
    {
        if n > 0 {
            let rest = self.separate_ids((n - 1) as nat);
            if self.has_mode(n - 1, ModelInstanceExportMode::SeparateRuntimeObject) {
                lemma_with_id_members(rest, self.placement(n - 1).asset_id, id);
                if self.placement(n - 1).asset_id == id {
                    assert(Self::is_separate_of(id)(self.instances@[n - 1]));
                } else {
                    self.lemma_separate_ids((n - 1) as nat, id);
                }
            } else {
                self.lemma_separate_ids((n - 1) as nat, id);
            }
        }
    }

    /// Every instance has an asset once all were admitted.
    pub open spec fn admitted(self) -> bool {
        search::first_fault(self.count(), self.admission()) is None
    }

    /// The asset of an admitted instance is in range.
    proof fn lemma_admitted(self, k: int)
        requires
            self.admitted(),
            0 <= k < self.count(),
        ensures
            self.asset_position(k) is Some,
            0 <= self.asset_position(k)->0 < self.assets@.len(),
    {
        search::lemma_no_fault(self.count(), self.admission(), k);
        assert(self.admission()(k) is None);
        search::lemma_first_position(self.assets@, has_asset_id(self.placement(k).asset_id));
    }
}

fn add_separate_models(
    x: &ModelExport,
    list: &[u128],
    edits: &mut StageArchiveEdits,
    cancelled: Option<&AtomicBool>,
) -> (r: Result<(), ExportError>)
    requires
        x.admitted(),
        list@ == x.separate_ids(x.count()),
    ensures
        ({
            ||| cancelled is Some && r == Err::<(), ExportError>(ExportError::Cancelled)
            ||| match r {
                Ok(()) => search::first_fault(list@.len(), x.separate_model_check(list@)) is None
                    && final(edits)@ == x.with_separate_models(old(edits)@, list@),
                Err(fault) => search::first_fault(list@.len(), x.separate_model_check(list@))
                    == Some(fault),
            }
        }),
{
    let mut i: usize = 0;
    proof {
        assert(x.with_separate_models(edits@, list@.take(0)) == edits@);
    }
    while i < list.len()
        invariant
            i <= list.len(),
            x.admitted(),
            list@ == x.separate_ids(x.count()),
            search::first_fault(i as nat, x.separate_model_check(list@)) is None,
            edits@ == x.with_separate_models(old(edits)@, list@.take(i as int)),
        decreases list.len() - i,
    {
        if is_cancelled(cancelled) {
            return Err(ExportError::Cancelled);
        }
        let id = list[i];
        proof {
            assert(list@.contains(id));
            x.lemma_separate_ids(x.count(), id);
            assert(list@.take(i + 1).drop_last() =~= list@.take(i as int));
            assert(list@.take(i + 1).last() == id);
            assert(x.separate_model_check(list@)(i as int) is Some ==> search::first_fault(
                (i + 1) as nat,
                x.separate_model_check(list@),
            ) == x.separate_model_check(list@)(i as int));
        }
        let k = find_separate(x, id);
        proof {
            x.lemma_admitted(k as int);
        }
        let asset = find_asset(x.assets, id).unwrap();
        match &x.assets[asset].compiled {
            Err(_) => {
                proof {
                    search::lemma_fault_stays(
                        (i + 1) as nat,
                        list@.len(),
                        x.separate_model_check(list@),
                    );
                }
                return Err(ExportError::Compile(k));
            },
            Ok(model) => {
                if model_instances::validate_standalone_actor_model_budget(model).is_err() {
                    proof {
                        search::lemma_fault_stays(
                            (i + 1) as nat,
                            list@.len(),
                            x.separate_model_check(list@),
                        );
                    }
                    return Err(ExportError::Budget(k));
                }
                let path = "mapobj/".to_owned().concat(
                    ids::model_runtime_resource_key(id).as_str(),
                ).concat("/default.bmd");
                edits.upsert_model(path.as_str().as_bytes_vec(), model.document);
            },
        }
        i += 1;
    }
    proof {
        assert(list@.take(i as int) =~= list@);
    }
    Ok(())
}

/// Position of the first group of the given type in a placement document of the archive.
pub fn find_jdrama_group_path(archive: &StageArchive, path: &[u8], record_type: &str) -> (r: Result<
    Vec<usize>,
    ExportError,
>)
    ensures
        match archive_document(*archive, path@) {
            Some(StageResourceDocument::Placement(root)) => match jdrama::group_path(
                root,
                record_type@,
            ) {
                Some(position) => r matches Ok(found) && found@ == position,
                None => r == Err::<Vec<usize>, ExportError>(ExportError::TablesWithoutGroup),
            },
            _ => r == Err::<Vec<usize>, ExportError>(ExportError::TablesNotPlacement),
        },
{
    match find_resource(archive, path) {
        None => Err(ExportError::TablesNotPlacement),
        Some(i) => match &archive.resources[i].document {
            StageResourceDocument::Placement(root) => {
                match jdrama::find_jdrama_group_path_in_record(root, record_type) {
                    Some(position) => Ok(position),
                    None => Err(ExportError::TablesWithoutGroup),
                }
            },
            _ => Err(ExportError::TablesNotPlacement),
        },
    }
}

fn add_characters(archive: &StageArchive, list: &[u128], edits: &mut StageArchiveEdits) -> (r:
    Result<(), ExportError>)
    ensures
        agrees(r, with_characters(*archive, old(edits)@, list@), final(edits)@, None),
{
    let path = "map/tables.bin".as_bytes_vec();
    if find_resource(archive, path.as_slice()).is_some() {
        match find_jdrama_group_path(archive, path.as_slice(), "NameRefGrp") {
            Err(fault) => Err(fault),
            Ok(parent) => {
                let mut i: usize = 0;
                proof {
                    assert(with_character_inserts(edits@, parent@, list@.take(0)) == edits@);
                }
                while i < list.len()
                    invariant
                        i <= list.len(),
                        edits@ == with_character_inserts(
                            old(edits)@,
                            parent@,
                            list@.take(i as int),
                        ),
                    decreases list.len() - i,
                {
                    proof {
                        assert(list@.take(i + 1).drop_last() =~= list@.take(i as int));
                        assert(list@.take(i + 1).last() == list@[i as int]);
                    }
                    edits.insert_placement(
                        "map/tables.bin".as_bytes_vec(),
                        copy_positions(parent.as_slice()),
                        runtime_obj_chara_record(list[i]),
                    );
                    i += 1;
                }
                proof {
                    assert(list@.take(i as int) =~= list@);
                }
                Ok(())
            },
        }
    } else {
        let mut children: Vec<JDramaRecord> = Vec::new();
        let mut i: usize = 0;
        while i < list.len()
            invariant
                i <= list.len(),
                children@.len() == i,
                forall|j: int| 0 <= j < i ==> (#[trigger] children@[j])@ == chara_record(list@[j]),
            decreases list.len() - i,
        {
            children.push(runtime_obj_chara_record(list[i]));
            i += 1;
        }
        let root = JDramaRecord {
            record_type: "NameRefGrp".to_owned(),
            name: "SMS authored model characters".to_owned(),
            payload: JDramaRecordPayload::Group { fields: Vec::new(), children },
        };
        proof {
            assert(jdrama::fields_view(root.payload->Group_fields@) =~= Seq::empty());
            let seen = root@.payload->Group_children;
            assert forall|j: int| 0 <= j < list@.len() implies #[trigger] seen[j] == chara_record(
                list@[j],
            ) by {
                assert(children@[j]@ == chara_record(list@[j]));
            }
            assert(seen =~= Seq::new(list@.len(), |j: int| chara_record(list@[j])));
        }
        edits.put_resource(path, EditOperation::Insert, StageResourceDocument::Placement(root));
        Ok(())
    }
}

fn add_actors(x: &ModelExport, parent: &[usize], edits: &mut StageArchiveEdits) -> (r: Result<
    (),
    ExportError,
>)
    ensures
        match r {
            Ok(()) => search::first_fault(x.count(), x.actor_check()) is None && final(edits)@
                == x.with_actors(old(edits)@, parent@, x.count()),
            Err(fault) => search::first_fault(x.count(), x.actor_check()) == Some(fault),
        },
{
    let mut k: usize = 0;
    while k < x.instances.len()
        invariant
            k <= x.instances.len(),
            search::first_fault(k as nat, x.actor_check()) is None,
            edits@ == x.with_actors(old(edits)@, parent@, k as nat),
        decreases x.instances.len() - k,
    {
        let placement = &x.instances[k].placement;
        if placement.export_mode == ModelInstanceExportMode::SeparateRuntimeObject {
            match runtime_sm_j3d_actor_record(placement) {
                None => {
                    proof {
                        search::lemma_fault_stays((k + 1) as nat, x.count(), x.actor_check());
                    }
                    return Err(ExportError::Transform(k));
                },
                Some(record) => {
                    edits.insert_placement(
                        "map/scene.bin".as_bytes_vec(),
                        copy_positions(parent),
                        record,
                    );
                },
            }
        }
        k += 1;
    }
    Ok(())
}

fn export_separate(
    x: &ModelExport,
    edits: &mut StageArchiveEdits,
    cancelled: Option<&AtomicBool>,
) -> (r: Result<(), ExportError>)
    requires
        x.admitted(),
    ensures
        agrees(r, x.separate_edits(old(edits)@), final(edits)@, cancelled),
{
    let mode = ModelInstanceExportMode::SeparateRuntimeObject;
    if !has_any(x, mode) {
        return Ok(());
    }
    match check_loaders(x, mode, SMS_SM_J3D_ACT_MODEL_LOAD_FLAGS, cancelled) {
        Ok(()) => {},
        Err(fault) => return Err(fault),
    }
    let archive = match x.archive {
        Some(archive) => archive,
        None => return Err(ExportError::SeparateNeedsArchive),
    };
    let parent = match runtime_actor_parent_path(archive) {
        Ok(parent) => parent,
        Err(fault) => return Err(fault),
    };
    let list = separate_asset_ids(x);
    match add_separate_models(x, list.as_slice(), edits, cancelled) {
        Ok(()) => {},
        Err(fault) => return Err(fault),
    }
    match add_characters(archive, list.as_slice(), edits) {
        Ok(()) => {},
        Err(fault) => return Err(fault),
    }
    add_actors(x, parent.as_slice(), edits)
}

/// The placement tree of the scene: the pending one where an edit brings it, else the archive's.
pub open spec fn scene_tree(archive: StageArchive, base: StageArchiveEdits) -> Option<
    JDramaRecord,
> {
    match search::first_position(base.resources@, edits_path(scene_path())) {
        Some(i) => tree_of(base.resources@[i].document),
        None => match archive_document(archive, scene_path()) {
            Some(document) => tree_of(document),
            None => None,
        },
    }
}

/// Names of the records that the first `n` pending insertions bring into the scene.
pub open spec fn inserted_names(base: StageArchiveEdits, n: nat) -> Seq<Seq<char>>
    decreases n,
{
    if n == 0 {
        Seq::empty()
    } else {
        let insert = base.placement_inserts@[n - 1];
        let rest = inserted_names(base, (n - 1) as nat);
        if insert.raw_resource_path@ == scene_path() {
            rest + jdrama::record_names(insert.record)
        } else {
            rest
        }
    }
}

/// Names of all records of the scene, pending insertions included.
pub open spec fn scene_names(archive: StageArchive, base: StageArchiveEdits) -> Option<
    Seq<Seq<char>>,
> {
    match scene_tree(archive, base) {
        Some(root) => Some(
            jdrama::record_names(root) + inserted_names(base, base.placement_inserts@.len()),
        ),
        None => None,
    }
}

fn find_edit(base: &StageArchiveEdits, path: &[u8]) -> (r: Option<usize>)
    ensures
        match r {
            Some(i) => i < base.resources@.len() && search::first_position(
                base.resources@,
                edits_path(path@),
            ) == Some(i as int),
            None => search::first_position(base.resources@, edits_path(path@)) is None,
        },
{
    let mut i: usize = 0;
    while i < base.resources.len()
        invariant
            i <= base.resources.len(),
            forall|j: int| 0 <= j < i ==> !edits_path(path@)(#[trigger] base.resources@[j]),
        decreases base.resources.len() - i,
    {
        if stage_edits::same_bytes(base.resources[i].raw_resource_path.as_slice(), path) {
            proof {
                search::lemma_found(base.resources@, edits_path(path@), i as int);
            }
            return Some(i);
        }
        i += 1;
    }
    proof {
        search::lemma_not_found(base.resources@, edits_path(path@));
    }
    None
}

/// Names of all records of the scene, pending insertions included; `None` where the scene is
/// missing or is no placement document.
pub fn stage_scene_record_names(archive: &StageArchive, base: &StageArchiveEdits) -> (r: Option<
    Vec<String>,
>)
    ensures
        match r {
            Some(names) => scene_names(*archive, *base) == Some(text::views(names@)),
            None => scene_names(*archive, *base) is None,
        },
{
    let path = "map/scene.bin".as_bytes_vec();
    let document = match find_edit(base, path.as_slice()) {
        Some(i) => &base.resources[i].document,
        None => match find_resource(archive, path.as_slice()) {
            Some(i) => &archive.resources[i].document,
            None => return None,
        },
    };
    let root = match document {
        StageResourceDocument::Placement(root) => root,
        _ => return None,
    };
    let mut names: Vec<String> = Vec::new();
    jdrama::collect_jdrama_record_names(root, &mut names);
    proof {
        assert(text::views(names@) =~= jdrama::record_names(*root) + inserted_names(*base, 0));
    }
    let mut i: usize = 0;
    while i < base.placement_inserts.len()
        invariant
            i <= base.placement_inserts.len(),
            path@ == scene_path(),
            text::views(names@) == jdrama::record_names(*root) + inserted_names(*base, i as nat),
        decreases base.placement_inserts.len() - i,
    {
        let insert = &base.placement_inserts[i];
        if stage_edits::same_bytes(insert.raw_resource_path.as_slice(), path.as_slice()) {
            jdrama::collect_jdrama_record_names(&insert.record, &mut names);
            proof {
                assert(text::views(names@) =~= jdrama::record_names(*root) + inserted_names(
                    *base,
                    (i + 1) as nat,
                ));
            }
        }
        i += 1;
    }
    Some(names)
}

impl<'a> ModelExport<'a> {
    /// The stock slot that an instance names.
    pub open spec fn selected(self, k: int) -> Seq<char> {
        text::trimmed(self.placement(k).stock_map_obj_resource@)
    }

    /// Position of the stock slot that an instance names.
    pub open spec fn slot_index(self, k: int) -> Option<int> {
        match self.registry {
            Some(registry) => registry::slot_position(
                registry.map_obj_resources@,
                self.selected(k),
            ),
            None => None,
        }
    }

    /// The stock slot that an instance names.
    pub open spec fn slot(self, k: int) -> MapObjResourceDefinition {
        self.registry->0.map_obj_resources@[self.slot_index(k)->0]
    }

    /// The instance replaces a stock slot that is known.
    pub open spec fn is_stock(self, k: int) -> bool {
        self.has_mode(k, ModelInstanceExportMode::StockMapObjBase) && self.slot_index(k) is Some
    }

    /// Archive path of the model of the slot that an instance names.
    pub open spec fn stock_model_path(self, k: int) -> Result<Seq<char>, StockPathError> {
        stock_path::stock_path(self.slot(k).primary_model->0@, ".bmd"@)
    }

    /// Archive path of a collision resource of the slot that an instance names.
    pub open spec fn stock_collision_path(self, k: int, c: int) -> Result<
        Seq<char>,
        StockPathError,
    > {
        stock_path::stock_path(self.slot(k).collision_resources@[c].resource_name@, ".col"@)
    }

    /// Another instance fills the same slot with another asset.
    pub open spec fn fills_slot_of(self, k: int) -> spec_fn(int) -> bool {
        |j: int|
            self.is_stock(j) && self.slot(j).resource_name@ == self.slot(k).resource_name@
                && self.placement(j).asset_id != self.placement(k).asset_id
    }

    /// Another instance fills the same model path with another asset.
    pub open spec fn fills_model_of(self, k: int) -> spec_fn(int) -> bool {
        |j: int|
            self.is_stock(j) && self.slot(j).primary_model is Some && self.stock_model_path(
                j,
            ) is Ok && self.stock_model_path(j) == self.stock_model_path(k) && self.placement(
                j,
            ).asset_id != self.placement(k).asset_id
    }

    /// Two instances author the same collision.
    pub open spec fn same_collision_owner(self, j: int, k: int) -> bool {
        let a = self.placement(j);
        let b = self.placement(k);
        a.asset_id == b.asset_id && self.slot(j).resource_name@ == self.slot(k).resource_name@
            && a.collision_enabled == b.collision_enabled && a.collision_surface_override
            == b.collision_surface_override
    }

    /// A collision resource of instance `j` lies where that of instance `k` does.
    pub open spec fn shares_collision(self, j: int, k: int, c: int) -> bool {
        exists|d: int|
            0 <= d < self.slot(j).collision_resources@.len() && (#[trigger] self.stock_collision_path(
                j,
                d,
            )) is Ok && self.stock_collision_path(j, d) == self.stock_collision_path(k, c)
    }

    /// Another instance authors another collision for the same path.
    pub open spec fn fills_collision_of(self, k: int, c: int) -> spec_fn(int) -> bool {
        |j: int|
            self.is_stock(j) && !self.same_collision_owner(j, k) && self.shares_collision(j, k, c)
    }

    /// What a collision resource of a stock placement needs: few enough vertices, a path, and no
    /// earlier instance that authors another collision there.
    pub open spec fn collision_check(self, k: int) -> spec_fn(int) -> Option<StockFault> {
        |c: int|
            {
                let resource = self.slot(k).collision_resources@[c];
                let vertices: int = collision_size(self.asset(k).collision) as int;
                if self.placement(k).collision_enabled && (resource.max_vertices matches Some(limit)
                    && vertices > limit) {
                    Some(StockFault::CollisionLimit(c as usize))
                } else {
                    match self.stock_collision_path(k, c) {
                        Err(error) => Some(StockFault::CollisionPath(c as usize, error)),
                        Ok(_) => match search::first_index(
                            k as nat,
                            self.fills_collision_of(k, c),
                        ) {
                            Some(j) => Some(StockFault::CollisionTaken(c as usize, j as usize)),
                            None => None,
                        },
                    }
                }
            }
    }

    /// The first fault of a stock placement in a scene with these record names.
    pub open spec fn stock_fault(self, names: Seq<Seq<char>>, k: int) -> Option<StockFault> {
        let slot = self.slot(k);
        let placement = self.placement(k);
        if self.selected(k).len() == 0 {
            Some(StockFault::NoSlotSelected)
        } else if self.slot_index(k) is None {
            Some(StockFault::UnknownSlot)
        } else if slot.required_manager_name@.len() == 0 {
            Some(StockFault::NoManager)
        } else if !names.contains(slot.required_manager_name@) {
            Some(StockFault::ManagerMissing)
        } else if slot.has_hold_dependency {
            Some(StockFault::HoldDependency)
        } else if slot.has_move_dependency {
            Some(StockFault::MoveDependency)
        } else if slot.object_flags & 0x80 != 0 {
            Some(StockFault::DamageHeight)
        } else if !slot.uses_resource_name_model_fallback {
            Some(StockFault::CompiledMetadata)
        } else if slot.primary_model is None {
            Some(StockFault::NoPrimaryModel)
        } else if let Err(error) = self.stock_model_path(k) {
            Some(StockFault::ModelPath(error))
        } else if let Some(j) = search::first_index(k as nat, self.fills_slot_of(k)) {
            Some(StockFault::SlotTaken(j as usize))
        } else if let Some(j) = search::last_index(k as nat, self.fills_model_of(k)) {
            Some(StockFault::ModelTaken(j as usize))
        } else if !self.loads(k) {
            Some(StockFault::Loader)
        } else if self.asset(k).compiled is Err {
            Some(StockFault::Compile)
        } else if !model_instances::within_budget(self.asset(k).compiled->Ok_0.sections@) {
            Some(StockFault::Budget)
        } else if !placement.transform.finite() {
            Some(StockFault::Transform)
        } else if placement.collision_enabled && slot.collision_resources@.len() == 0 {
            Some(StockFault::NoCollisionResource)
        } else if placement.collision_enabled && self.asset(k).collision is None {
            Some(StockFault::NoCollision)
        } else if placement.collision_enabled && self.stock_collision(k) is Err {
            Some(StockFault::CollisionCompile)
        } else {
            search::first_fault(slot.collision_resources@.len(), self.collision_check(k))
        }
    }

    /// Every stock placement has to be free of faults.
    pub open spec fn stock_check(self, names: Seq<Seq<char>>) -> spec_fn(int) -> Option<
        ExportError,
    > {
        |k: int|
            if self.has_mode(k, ModelInstanceExportMode::StockMapObjBase) {
                match self.stock_fault(names, k) {
                    Some(fault) => Some(ExportError::Stock(k as usize, fault)),
                    None => None,
                }
            } else {
                None
            }
    }

    /// The compiled collision of a stock placement. It counts only where it was compiled of the
    /// asset's own vertices, whatever the transform of the placement, with the surfaces that the
    /// placement gives to the groups.
    pub open spec fn stock_collision(self, k: int) -> Result<DocumentId, ()> {
        let baked = self.instances@[k].stock_collision;
        let own = self.asset(k).collision->0;
        if !is_stock_collision(baked.source, self.placement(k), own) {
            Err(())
        } else {
            match baked.outcome {
                Ok(document) => Ok(document),
                Err(_) => Err(()),
            }
        }
    }

    /// The collision that a stock placement puts into its slot.
    pub open spec fn stock_collision_document(self, k: int) -> CollisionDocument {
        if self.placement(k).collision_enabled {
            CollisionDocument::Compiled(self.stock_collision(k)->Ok_0)
        } else {
            CollisionDocument::Empty
        }
    }

    /// The first `n` collision resources of a stock placement.
    pub open spec fn with_stock_collisions(self, edits: EditsView, k: int, n: nat) -> EditsView
        decreases n,
    {
        if n == 0 {
            edits
        } else {
            self.with_stock_collisions(edits, k, (n - 1) as nat).with_collision(
                sky_bundle::bytes_of(self.stock_collision_path(k, n - 1)->Ok_0),
                self.stock_collision_document(k),
            )
        }
    }

    /// Model, record and collision of one stock placement.
    pub open spec fn with_stock_object(
        self,
        edits: EditsView,
        parent: Seq<usize>,
        k: int,
    ) -> EditsView {
        self.with_stock_collisions(
            edits.with_model(
                sky_bundle::bytes_of(self.stock_model_path(k)->Ok_0),
                EditOperation::Upsert,
                self.asset(k).compiled->Ok_0.document,
            ).with_insert(
                InsertView {
                    path: scene_path(),
                    parent,
                    record: stock_record(self.placement(k), self.slot(k).resource_name@),
                },
            ),
            k,
            self.slot(k).collision_resources@.len(),
        )
    }

    /// All stock placements among the first `n` instances.
    pub open spec fn with_stock_objects(
        self,
        edits: EditsView,
        parent: Seq<usize>,
        n: nat,
    ) -> EditsView
        decreases n,
    {
        if n == 0 {
            edits
        } else {
            let rest = self.with_stock_objects(edits, parent, (n - 1) as nat);
            if self.has_mode(n - 1, ModelInstanceExportMode::StockMapObjBase) {
                self.with_stock_object(rest, parent, n - 1)
            } else {
                rest
            }
        }
    }

    /// The edits of all stock placements. `base` is what was pending before the export.
    pub open spec fn stock_edits(self, base: StageArchiveEdits, edits: EditsView) -> Result<
        EditsView,
        ExportError,
    > {
        if !self.any_mode(ModelInstanceExportMode::StockMapObjBase) {
            Ok(edits)
        } else if self.archive is None {
            Err(ExportError::StockNeedsArchive)
        } else if self.registry is None {
            Err(ExportError::StockNeedsRegistry)
        } else {
            match parent_of(
                self.archive->0.object_group,
                ExportError::ObjectGroupLookup,
                ExportError::ObjectGroupMissing,
            ) {
                Err(fault) => Err(fault),
                Ok(parent) => match scene_names(*self.archive->0, base) {
                    None => Err(ExportError::SceneNotPlacement),
                    Some(names) => if let Some(fault) = search::first_fault(
                        self.count(),
                        self.stock_check(names),
                    ) {
                        Err(fault)
                    } else {
                        Ok(self.with_stock_objects(edits, parent, self.count()))
                    },
                },
            }
        }
    }
}

fn holds_name(names: &[String], name: &str) -> (r: bool)
    ensures
        r == text::views(names@).contains(name@),
{
    let mut i: usize = 0;
    while i < names.len()
        invariant
            i <= names.len(),
            forall|j: int| 0 <= j < i ==> #[trigger] text::views(names@)[j] != name@,
        decreases names.len() - i,
    {
        if text::same(names[i].as_str(), name) {
            assert(text::views(names@)[i as int] == name@);
            return true;
        }
        i += 1;
    }
    false
}

/// The slot of an instance, where it names a known one.
pub(crate) fn slot_of<'a>(x: &ModelExport<'a>, k: usize) -> (r: Option<&'a MapObjResourceDefinition>)
    requires
        k < x.count(),
    ensures
        match r {
            Some(slot) => x.slot_index(k as int) is Some && *slot == x.slot(k as int),
            None => x.slot_index(k as int) is None,
        },
{
    match x.registry {
        None => None,
        Some(registry) => {
            let selected = text::trim(x.instances[k].placement.stock_map_obj_resource.as_str());
            match registry.find_map_obj_resource(selected) {
                Some(i) => Some(&registry.map_obj_resources[i]),
                None => None,
            }
        },
    }
}

fn is_stock_instance(x: &ModelExport, k: usize) -> (r: bool)
    requires
        k < x.count(),
    ensures
        r == x.has_mode(k as int, ModelInstanceExportMode::StockMapObjBase),
{
    x.instances[k].placement.export_mode == ModelInstanceExportMode::StockMapObjBase
}

fn slot_holder(x: &ModelExport, slot: &MapObjResourceDefinition, k: usize) -> (r: Option<usize>)
    requires
        k < x.count(),
        *slot == x.slot(k as int),
    ensures
        match r {
            Some(j) => search::first_index(k as nat, x.fills_slot_of(k as int)) == Some(j as int),
            None => search::first_index(k as nat, x.fills_slot_of(k as int)) is None,
        },
{
    let mut j: usize = 0;
    while j < k
        invariant
            j <= k < x.count(),
            *slot == x.slot(k as int),
            search::first_index(j as nat, x.fills_slot_of(k as int)) is None,
        decreases k - j,
    {
        if is_stock_instance(x, j) {
            if let Some(other) = slot_of(x, j) {
                if text::same(other.resource_name.as_str(), slot.resource_name.as_str())
                    && x.instances[j].placement.asset_id != x.instances[k].placement.asset_id {
                    proof {
                        search::lemma_index_stays(
                            (j + 1) as nat,
                            k as nat,
                            x.fills_slot_of(k as int),
                        );
                    }
                    return Some(j);
                }
            }
        }
        j += 1;
    }
    None
}

fn model_holder(x: &ModelExport, path: &str, k: usize) -> (r: Option<usize>)
    requires
        k < x.count(),
        x.stock_model_path(k as int) == Ok::<Seq<char>, StockPathError>(path@),
    ensures
        match r {
            Some(j) => search::last_index(k as nat, x.fills_model_of(k as int)) == Some(j as int),
            None => search::last_index(k as nat, x.fills_model_of(k as int)) is None,
        },
{
    let mut n: usize = k;
    while n > 0
        invariant
            n <= k < x.count(),
            x.stock_model_path(k as int) == Ok::<Seq<char>, StockPathError>(path@),
            search::last_index(k as nat, x.fills_model_of(k as int)) == search::last_index(
                n as nat,
                x.fills_model_of(k as int),
            ),
        decreases n,
    {
        let j: usize = n - 1;
        if is_stock_instance(x, j) {
            if let Some(other) = slot_of(x, j) {
                if let Some(primary) = &other.primary_model {
                    if let Ok(taken) = stock_path::stock_mapobj_path(primary.as_str(), ".bmd") {
                        if text::same(taken.as_str(), path)
                            && x.instances[j].placement.asset_id
                            != x.instances[k].placement.asset_id {
                            return Some(j);
                        }
                    }
                }
            }
        }
        n -= 1;
    }
    None
}

fn shares_collision_path(
    x: &ModelExport,
    other: &MapObjResourceDefinition,
    path: &str,
    Ghost(j): Ghost<int>,
    Ghost(k): Ghost<int>,
    Ghost(c): Ghost<int>,
) -> (r: bool)
    requires
        *other == x.slot(j),
        x.stock_collision_path(k, c) == Ok::<Seq<char>, StockPathError>(path@),
    ensures
        r == x.shares_collision(j, k, c),
{
    let mut d: usize = 0;
    while d < other.collision_resources.len()
        invariant
            d <= other.collision_resources.len(),
            *other == x.slot(j),
            x.stock_collision_path(k, c) == Ok::<Seq<char>, StockPathError>(path@),
            forall|e: int|
                0 <= e < d ==> #[trigger] x.stock_collision_path(j, e) != Ok::<
                    Seq<char>,
                    StockPathError,
                >(path@),
        decreases other.collision_resources.len() - d,
    {
        let name = other.collision_resources[d].resource_name.as_str();
        if let Ok(taken) = stock_path::stock_mapobj_path(name, ".col") {
            if text::same(taken.as_str(), path) {
                assert(x.stock_collision_path(j, d as int) is Ok);
                return true;
            }
        }
        d += 1;
    }
    false
}

fn collision_holder(
    x: &ModelExport,
    slot: &MapObjResourceDefinition,
    path: &str,
    k: usize,
    Ghost(c): Ghost<int>,
) -> (r: Option<usize>)
    requires
        k < x.count(),
        *slot == x.slot(k as int),
        x.stock_collision_path(k as int, c) == Ok::<Seq<char>, StockPathError>(path@),
    ensures
        match r {
            Some(j) => search::first_index(k as nat, x.fills_collision_of(k as int, c)) == Some(
                j as int,
            ),
            None => search::first_index(k as nat, x.fills_collision_of(k as int, c)) is None,
        },
{
    let mut j: usize = 0;
    while j < k
        invariant
            j <= k < x.count(),
            *slot == x.slot(k as int),
            x.stock_collision_path(k as int, c) == Ok::<Seq<char>, StockPathError>(path@),
            search::first_index(j as nat, x.fills_collision_of(k as int, c)) is None,
        decreases k - j,
    {
        if is_stock_instance(x, j) {
            if let Some(other) = slot_of(x, j) {
                let a = &x.instances[j].placement;
                let b = &x.instances[k].placement;
                let same_owner = a.asset_id == b.asset_id && text::same(
                    other.resource_name.as_str(),
                    slot.resource_name.as_str(),
                ) && a.collision_enabled == b.collision_enabled && same_override(a, b);
                if !same_owner && shares_collision_path(
                    x,
                    other,
                    path,
                    Ghost(j as int),
                    Ghost(k as int),
                    Ghost(c),
                ) {
                    proof {
                        search::lemma_index_stays(
                            (j + 1) as nat,
                            k as nat,
                            x.fills_collision_of(k as int, c),
                        );
                    }
                    return Some(j);
                }
            }
        }
        j += 1;
    }
    None
}

fn same_override(a: &ModelInstancePlacement, b: &ModelInstancePlacement) -> (r: bool)
    ensures
        r == (a.collision_surface_override == b.collision_surface_override),
{
    match (a.collision_surface_override, b.collision_surface_override) {
        (None, None) => true,
        (Some(p), Some(q)) => p.surface_type == q.surface_type && p.attribute_0 == q.attribute_0
            && p.attribute_1 == q.attribute_1 && (match (p.data, q.data) {
            (None, None) => true,
            (Some(m), Some(n)) => m == n,
            _ => false,
        }),
        _ => false,
    }
}

fn check_stock_collisions(
    x: &ModelExport,
    slot: &MapObjResourceDefinition,
    vertices: usize,
    k: usize,
) -> (r: Option<StockFault>)
    requires
        k < x.count(),
        *slot == x.slot(k as int),
        vertices == collision_size(x.asset(k as int).collision),
    ensures
        r == search::first_fault(slot.collision_resources@.len(), x.collision_check(k as int)),
{
    let n: usize = slot.collision_resources.len();
    let mut c: usize = 0;
    while c < n
        invariant
            c <= n,
            n == slot.collision_resources@.len(),
            k < x.count(),
            *slot == x.slot(k as int),
            vertices == collision_size(x.asset(k as int).collision),
            search::first_fault(c as nat, x.collision_check(k as int)) is None,
        decreases n - c,
    {
        let resource = &slot.collision_resources[c];
        proof {
            assert(x.collision_check(k as int)(c as int) is Some ==> search::first_fault(
                (c + 1) as nat,
                x.collision_check(k as int),
            ) == x.collision_check(k as int)(c as int));
            if x.collision_check(k as int)(c as int) is Some {
                search::lemma_fault_stays((c + 1) as nat, n as nat, x.collision_check(k as int));
            }
        }
        if let Some(limit) = resource.max_vertices {
            if x.instances[k].placement.collision_enabled && vertices > limit as usize {
                return Some(StockFault::CollisionLimit(c));
            }
        }
        match stock_path::stock_mapobj_path(resource.resource_name.as_str(), ".col") {
            Err(error) => return Some(StockFault::CollisionPath(c, error)),
            Ok(path) => {
                if let Some(j) = collision_holder(x, slot, path.as_str(), k, Ghost(c as int)) {
                    return Some(StockFault::CollisionTaken(c, j));
                }
            },
        }
        c += 1;
    }
    None
}

/// The first fault of a stock placement, and the asset and slot that it uses when there is none.
fn check_stock<'a>(x: &ModelExport<'a>, names: &[String], k: usize) -> (r: Result<
    (&'a MapObjResourceDefinition, &'a CompiledModel),
    StockFault,
>)
    requires
        k < x.count(),
        x.admitted(),
        x.registry is Some,
        x.has_mode(k as int, ModelInstanceExportMode::StockMapObjBase),
    ensures
        match r {
            Ok((slot, model)) => x.stock_fault(text::views(names@), k as int) is None && *slot
                == x.slot(k as int) && (x.asset(k as int).compiled matches Ok(m) && *model == m),
            Err(fault) => x.stock_fault(text::views(names@), k as int) == Some(fault),
        },
{
    proof {
        x.lemma_admitted(k as int);
    }
    let placement = &x.instances[k].placement;
    let asset = &x.assets[find_asset(x.assets, placement.asset_id).unwrap()];
    if text::trim(placement.stock_map_obj_resource.as_str()).is_empty() {
        return Err(StockFault::NoSlotSelected);
    }
    let slot = match slot_of(x, k) {
        Some(slot) => slot,
        None => return Err(StockFault::UnknownSlot),
    };
    if slot.required_manager_name.as_str().is_empty() {
        return Err(StockFault::NoManager);
    }
    if !holds_name(names, slot.required_manager_name.as_str()) {
        return Err(StockFault::ManagerMissing);
    }
    if slot.has_hold_dependency {
        return Err(StockFault::HoldDependency);
    }
    if slot.has_move_dependency {
        return Err(StockFault::MoveDependency);
    }
    if slot.object_flags & 0x80 != 0 {
        return Err(StockFault::DamageHeight);
    }
    if !slot.uses_resource_name_model_fallback {
        return Err(StockFault::CompiledMetadata);
    }
    let primary = match &slot.primary_model {
        Some(primary) => primary,
        None => return Err(StockFault::NoPrimaryModel),
    };
    let path = match stock_path::stock_mapobj_path(primary.as_str(), ".bmd") {
        Ok(path) => path,
        Err(error) => return Err(StockFault::ModelPath(error)),
    };
    if let Some(j) = slot_holder(x, slot, k) {
        return Err(StockFault::SlotTaken(j));
    }
    if let Some(j) = model_holder(x, path.as_str(), k) {
        return Err(StockFault::ModelTaken(j));
    }
    if !loader_accepts(&x.instances[k], slot.load_flags) {
        return Err(StockFault::Loader);
    }
    let model = match &asset.compiled {
        Ok(model) => model,
        Err(_) => return Err(StockFault::Compile),
    };
    if model_instances::validate_standalone_actor_model_budget(model).is_err() {
        return Err(StockFault::Budget);
    }
    if !placement.transform.is_finite() {
        return Err(StockFault::Transform);
    }
    if placement.collision_enabled {
        if slot.collision_resources.len() == 0 {
            return Err(StockFault::NoCollisionResource);
        }
        let own = match &asset.collision {
            Some(own) => own,
            None => return Err(StockFault::NoCollision),
        };
        let baked = &x.instances[k].stock_collision;
        let wanted = stock_collision_surfaces(placement, own.surfaces.as_slice());
        if !same_vertices(baked.source.vertices.as_slice(), own.vertices.as_slice())
            || !same_surfaces(baked.source.surfaces.as_slice(), wanted.as_slice())
            || baked.outcome.is_err() {
            return Err(StockFault::CollisionCompile);
        }
    }
    let vertices: usize = collision_len(&asset.collision);
    match check_stock_collisions(x, slot, vertices, k) {
        Some(fault) => Err(fault),
        None => Ok((slot, model)),
    }
}

fn add_stock_object(
    x: &ModelExport,
    names: &[String],
    parent: &[usize],
    k: usize,
    edits: &mut StageArchiveEdits,
) -> (r: Result<(), StockFault>)
    requires
        k < x.count(),
        x.admitted(),
        x.registry is Some,
        x.has_mode(k as int, ModelInstanceExportMode::StockMapObjBase),
    ensures
        match r {
            Ok(()) => x.stock_fault(text::views(names@), k as int) is None && final(edits)@
                == x.with_stock_object(old(edits)@, parent@, k as int),
            Err(fault) => x.stock_fault(text::views(names@), k as int) == Some(fault),
        },
{
    let (slot, model) = match check_stock(x, names, k) {
        Ok(found) => found,
        Err(fault) => return Err(fault),
    };
    let placement = &x.instances[k].placement;
    let primary = slot.primary_model.as_ref().unwrap();
    let model_path = stock_path::stock_mapobj_archive_path(primary.as_str(), ".bmd").unwrap();
    edits.upsert_model(model_path, model.document);
    let record = stock_map_obj_base_record(placement, slot.resource_name.as_str()).unwrap();
    edits.insert_placement("map/scene.bin".as_bytes_vec(), copy_positions(parent), record);
    let document = if placement.collision_enabled {
        match &x.instances[k].stock_collision.outcome {
            Ok(id) => CollisionDocument::Compiled(*id),
            Err(_) => CollisionDocument::Empty,
        }
    } else {
        CollisionDocument::Empty
    };
    let ghost started = edits@;
    let mut c: usize = 0;
    while c < slot.collision_resources.len()
        invariant
            c <= slot.collision_resources.len(),
            *slot == x.slot(k as int),
            document == x.stock_collision_document(k as int),
            search::first_fault(slot.collision_resources@.len(), x.collision_check(k as int)) is None,
            edits@ == x.with_stock_collisions(started, k as int, c as nat),
        decreases slot.collision_resources.len() - c,
    {
        proof {
            search::lemma_no_fault(
                slot.collision_resources@.len(),
                x.collision_check(k as int),
                c as int,
            );
            assert(x.collision_check(k as int)(c as int) is None);
        }
        let name = slot.collision_resources[c].resource_name.as_str();
        let path = stock_path::stock_mapobj_archive_path(name, ".col").unwrap();
        edits.upsert_collision(path, document);
        c += 1;
    }
    Ok(())
}

fn export_stock(
    x: &ModelExport,
    names: Option<Vec<String>>,
    edits: &mut StageArchiveEdits,
    cancelled: Option<&AtomicBool>,
    Ghost(base): Ghost<StageArchiveEdits>,
) -> (r: Result<(), ExportError>)
    requires
        x.admitted(),
        x.any_mode(ModelInstanceExportMode::StockMapObjBase) && x.archive is Some ==> (match names {
            Some(names) => scene_names(*x.archive->0, base) == Some(text::views(names@)),
            None => scene_names(*x.archive->0, base) is None,
        }),
    ensures
        agrees(r, x.stock_edits(base, old(edits)@), final(edits)@, cancelled),
{
    if !has_any(x, ModelInstanceExportMode::StockMapObjBase) {
        return Ok(());
    }
    let archive = match x.archive {
        Some(archive) => archive,
        None => return Err(ExportError::StockNeedsArchive),
    };
    if x.registry.is_none() {
        return Err(ExportError::StockNeedsRegistry);
    }
    let parent = match found_parent(
        &archive.object_group,
        ExportError::ObjectGroupLookup,
        ExportError::ObjectGroupMissing,
    ) {
        Ok(parent) => parent,
        Err(fault) => return Err(fault),
    };
    let names = match names {
        Some(names) => names,
        None => return Err(ExportError::SceneNotPlacement),
    };
    let ghost known = text::views(names@);
    let mut k: usize = 0;
    while k < x.instances.len()
        invariant
            k <= x.instances.len(),
            x.admitted(),
            x.registry is Some,
            known == text::views(names@),
            x.stock_edits(base, old(edits)@) == (match search::first_fault(
                x.count(),
                x.stock_check(known),
            ) {
                Some(fault) => Err::<EditsView, ExportError>(fault),
                None => Ok(x.with_stock_objects(old(edits)@, parent@, x.count())),
            }),
            search::first_fault(k as nat, x.stock_check(known)) is None,
            edits@ == x.with_stock_objects(old(edits)@, parent@, k as nat),
        decreases x.instances.len() - k,
    {
        if is_stock_instance(x, k) {
            if is_cancelled(cancelled) {
                return Err(ExportError::Cancelled);
            }
            match add_stock_object(x, names.as_slice(), parent.as_slice(), k, edits) {
                Ok(()) => {},
                Err(fault) => {
                    proof {
                        search::lemma_fault_stays((k + 1) as nat, x.count(), x.stock_check(known));
                    }
                    return Err(ExportError::Stock(k, fault));
                },
            }
        }
        k += 1;
    }
    Ok(())
}

/// A type name whose last part is `Sky`.
pub open spec fn is_sky_type(name: Seq<char>) -> bool {
    name == "Sky"@ || "::Sky"@.is_suffix_of(name)
}

/// The actor of a sky at a transform: it has to be authored for that transform, and to be a sky.
pub open spec fn sky_actor(sky: SkyView, transform: JDramaTransform) -> Option<RecordView> {
    match sky.record {
        Some(record) => if sky.transform == transform && is_sky_type(record.record_type) {
            Some(record)
        } else {
            None
        },
        None => None,
    }
}

/// The archive already places a sky actor.
pub open spec fn places_sky(archive: StageArchive) -> bool {
    exists|i: int|
        0 <= i < archive.object_types@.len() && is_sky_type((#[trigger] archive.object_types@[i])@)
}

/// The record in a result, if there is one.
pub open spec fn record_of(sky: AuthoredSky) -> SkyView {
    SkyView {
        transform: sky.transform,
        record: match sky.record {
            Ok(record) => Some(record@),
            Err(_) => None,
        },
    }
}

/// The archive's resources; an export without an archive has none.
pub open spec fn resources_of(archive: Option<&StageArchive>) -> Seq<(Seq<u8>, ResourceView)> {
    match archive {
        Some(archive) => sky_bundle::archive_views(archive.resources@),
        None => Seq::empty(),
    }
}

impl<'a> ModelExport<'a> {
    /// The baked terrain is made of all map-terrain instances, in order.
    pub open spec fn terrain_is_whole(self) -> bool {
        self.terrain.name@ == TERRAIN_NAME@ && self.terrain.parts@ == terrain_parts(self.instances@)
    }

    /// The baked collision is made of all separate and all map-terrain instances, in order.
    pub open spec fn collision_is_whole(self) -> bool {
        self.placed_collision.name@ == COLLISION_NAME@ && self.placed_collision.parts@
            == collision_parts(self.instances@)
    }

    /// The edits of all map-terrain instances: one model in place of the world model, baked of
    /// exactly these instances.
    pub open spec fn terrain_edits(self, edits: EditsView) -> Result<EditsView, ExportError> {
        let mode = ModelInstanceExportMode::MapTerrain;
        if !self.any_mode(mode) {
            Ok(edits)
        } else if let Some(fault) = search::first_fault(self.count(), self.loader_check(mode)) {
            Err(fault)
        } else if !self.terrain_is_whole() {
            Err(ExportError::TerrainMerge)
        } else {
            match self.terrain.outcome {
                Err(MergeFailure::Merge(_)) => Err(ExportError::TerrainMerge),
                Err(MergeFailure::Compile(_)) => Err(ExportError::TerrainCompile),
                Ok(document) => Ok(
                    edits.with_model(
                        sky_bundle::bytes_of("map/map/map.bmd"@),
                        EditOperation::Replace,
                        document,
                    ),
                ),
            }
        }
    }

    /// The instance is a skybox.
    pub open spec fn is_skybox(self) -> spec_fn(int) -> bool {
        |k: int| self.has_mode(k, ModelInstanceExportMode::Skybox)
    }

    /// Number of skyboxes among the first `n` instances.
    pub open spec fn skybox_count(self, n: nat) -> nat
        decreases n,
    {
        if n == 0 {
            0
        } else if self.has_mode(n - 1, ModelInstanceExportMode::Skybox) {
            self.skybox_count((n - 1) as nat) + 1
        } else {
            self.skybox_count((n - 1) as nat)
        }
    }

    /// The edits of the one skybox that a stage may have: its model, and the sky actor where the
    /// archive places none. `record` is the actor as authored for the skybox's transform.
    pub open spec fn sky_edits(self, edits: EditsView, record: SkyView) -> Result<
        EditsView,
        ExportError,
    > {
        if self.skybox_count(self.count()) > 1 {
            Err(ExportError::TooManySkyboxes(self.skybox_count(self.count()) as usize))
        } else {
            match search::first_index(self.count(), self.is_skybox()) {
                None => Ok(edits),
                Some(k) => if !self.loads(k) {
                    Err(ExportError::Loader(k as usize))
                } else {
                    match self.asset(k).compiled {
                        Err(_) => Err(ExportError::Compile(k as usize)),
                        Ok(model) => {
                            let skied = edits.with_model(
                                sky_bundle::bytes_of("map/map/sky.bmd"@),
                                EditOperation::Upsert,
                                model.document,
                            );
                            match self.archive {
                                None => Err(ExportError::SkyNeedsArchive),
                                Some(archive) => if places_sky(*archive) {
                                    Ok(skied)
                                } else {
                                    match parent_of(
                                        archive.sky_group,
                                        ExportError::SkyGroupLookup,
                                        ExportError::SkyGroupMissing,
                                    ) {
                                        Err(fault) => Err(fault),
                                        Ok(parent) => if !self.placement(k).transform.finite() {
                                            Err(ExportError::Transform(k as usize))
                                        } else {
                                            match sky_actor(
                                                record,
                                                self.placement(k).transform,
                                            ) {
                                                None => Err(ExportError::SkyRecord),
                                                Some(record) => Ok(
                                                    skied.with_insert(
                                                        InsertView {
                                                            path: scene_path(),
                                                            parent,
                                                            record,
                                                        },
                                                    ),
                                                ),
                                            }
                                        },
                                    }
                                },
                            }
                        },
                    }
                },
            }
        }
    }

    /// The collision of all separate and map-terrain instances, baked of exactly these and
    /// appended to the world's.
    pub open spec fn collision_edits(self, edits: EditsView) -> Result<EditsView, ExportError> {
        if !self.any_mode(ModelInstanceExportMode::SeparateRuntimeObject) && !self.any_mode(
            ModelInstanceExportMode::MapTerrain,
        ) {
            Ok(edits)
        } else if !self.collision_is_whole() {
            Err(ExportError::CollisionMerge)
        } else {
            match self.placed_collision.outcome {
                Err(MergeFailure::Merge(_)) => Err(ExportError::CollisionMerge),
                Err(MergeFailure::Compile(_)) => Err(ExportError::CollisionCompile),
                Ok(None) => Ok(edits),
                Ok(Some(document)) => Ok(
                    edits.with_appended_collision(
                        sky_bundle::bytes_of("map/map.col"@),
                        CollisionDocument::Compiled(document),
                    ),
                ),
            }
        }
    }

    /// The edits of all instances on top of what was pending, without the sky bundle.
    pub open spec fn placed_edits(
        self,
        base: StageArchiveEdits,
        record: SkyView,
    ) -> Result<EditsView, ExportError> {
        if let Some(fault) = search::first_fault(self.count(), self.admission()) {
            Err(fault)
        } else {
            match self.separate_edits(base@) {
                Err(fault) => Err(fault),
                Ok(edits) => match self.stock_edits(base, edits) {
                    Err(fault) => Err(fault),
                    Ok(edits) => match self.terrain_edits(edits) {
                        Err(fault) => Err(fault),
                        Ok(edits) => match self.sky_edits(edits, record) {
                            Err(fault) => Err(fault),
                            Ok(edits) => self.collision_edits(edits),
                        },
                    },
                },
            }
        }
    }

    /// The edits of all instances, with the reflected sky in step.
    pub open spec fn exported(
        self,
        base: StageArchiveEdits,
        record: SkyView,
        table: Option<SkyTable>,
    ) -> Result<EditsView, ExportError> {
        match self.placed_edits(base, record) {
            Err(fault) => Err(fault),
            Ok(edits) => match sky_bundle::synchronized(resources_of(self.archive), edits, table) {
                None => Err(ExportError::SkyTable),
                Some(edits) => Ok(edits),
            },
        }
    }
}

/// Whether the baked terrain is made of all map-terrain instances.
pub(crate) fn terrain_is_baked(x: &ModelExport) -> (r: bool)
    ensures
        r == x.terrain_is_whole(),
{
    let wanted = terrain_instances(x.instances);
    text::same(x.terrain.name.as_str(), TERRAIN_NAME) && same_positions(
        x.terrain.parts.as_slice(),
        wanted.as_slice(),
    )
}

/// Whether the baked collision is made of all separate and map-terrain instances.
pub(crate) fn collision_is_baked(x: &ModelExport) -> (r: bool)
    ensures
        r == x.collision_is_whole(),
{
    let wanted = placed_collision_instances(x.instances);
    text::same(x.placed_collision.name.as_str(), COLLISION_NAME) && same_positions(
        x.placed_collision.parts.as_slice(),
        wanted.as_slice(),
    )
}

fn export_terrain(
    x: &ModelExport,
    edits: &mut StageArchiveEdits,
    cancelled: Option<&AtomicBool>,
) -> (r: Result<(), ExportError>)
    ensures
        agrees(r, x.terrain_edits(old(edits)@), final(edits)@, cancelled),
{
    let mode = ModelInstanceExportMode::MapTerrain;
    if !has_any(x, mode) {
        return Ok(());
    }
    match check_loaders(x, mode, x.flags.map, cancelled) {
        Ok(()) => {},
        Err(fault) => return Err(fault),
    }
    if is_cancelled(cancelled) {
        return Err(ExportError::Cancelled);
    }
    if !terrain_is_baked(x) {
        return Err(ExportError::TerrainMerge);
    }
    match &x.terrain.outcome {
        Err(MergeFailure::Merge(_)) => Err(ExportError::TerrainMerge),
        Err(MergeFailure::Compile(_)) => Err(ExportError::TerrainCompile),
        Ok(document) => {
            edits.replace_model("map/map/map.bmd".as_bytes_vec(), *document);
            Ok(())
        },
    }
}

fn names_sky(name: &str) -> (r: bool)
    ensures
        r == is_sky_type(name@),
{
    text::same(name, "Sky") || text::ends_with(name, "::Sky")
}

fn has_sky_actor(archive: &StageArchive) -> (r: bool)
    ensures
        r == places_sky(*archive),
{
    let mut i: usize = 0;
    while i < archive.object_types.len()
        invariant
            i <= archive.object_types.len(),
            forall|j: int|
                0 <= j < i ==> !is_sky_type((#[trigger] archive.object_types@[j])@),
        decreases archive.object_types.len() - i,
    {
        let name = archive.object_types[i].as_str();
        if names_sky(name) {
            assert(is_sky_type(archive.object_types@[i as int]@));
            return true;
        }
        i += 1;
    }
    false
}

fn export_sky(
    x: &ModelExport,
    record: AuthoredSky,
    edits: &mut StageArchiveEdits,
    cancelled: Option<&AtomicBool>,
) -> (r: Result<(), ExportError>)
    requires
        x.admitted(),
    ensures
        agrees(r, x.sky_edits(old(edits)@, record_of(record)), final(edits)@, cancelled),
{
    let mut count: usize = 0;
    let mut first: Option<usize> = None;
    let mut k: usize = 0;
    while k < x.instances.len()
        invariant
            k <= x.instances.len(),
            count == x.skybox_count(k as nat),
            count <= k,
            match first {
                Some(i) => i < k && search::first_index(k as nat, x.is_skybox()) == Some(i as int),
                None => search::first_index(k as nat, x.is_skybox()) is None,
            },
        decreases x.instances.len() - k,
    {
        if x.instances[k].placement.export_mode == ModelInstanceExportMode::Skybox {
            count += 1;
            if first.is_none() {
                first = Some(k);
            }
        }
        k += 1;
    }
    if count > 1 {
        return Err(ExportError::TooManySkyboxes(count));
    }
    let k = match first {
        Some(k) => k,
        None => return Ok(()),
    };
    if is_cancelled(cancelled) {
        return Err(ExportError::Cancelled);
    }
    proof {
        search::lemma_first_index(x.count(), x.is_skybox());
        assert(x.has_mode(k as int, ModelInstanceExportMode::Skybox));
    }
    if !loader_accepts(&x.instances[k], x.flags.default_object) {
        return Err(ExportError::Loader(k));
    }
    proof {
        x.lemma_admitted(k as int);
    }
    let placement = &x.instances[k].placement;
    let asset = find_asset(x.assets, placement.asset_id).unwrap();
    match &x.assets[asset].compiled {
        Err(_) => return Err(ExportError::Compile(k)),
        Ok(model) => edits.upsert_model("map/map/sky.bmd".as_bytes_vec(), model.document),
    }
    let archive = match x.archive {
        Some(archive) => archive,
        None => return Err(ExportError::SkyNeedsArchive),
    };
    if has_sky_actor(archive) {
        return Ok(());
    }
    let parent = match found_parent(
        &archive.sky_group,
        ExportError::SkyGroupLookup,
        ExportError::SkyGroupMissing,
    ) {
        Ok(parent) => parent,
        Err(fault) => return Err(fault),
    };
    if !placement.transform.is_finite() {
        return Err(ExportError::Transform(k));
    }
    if record.transform != placement.transform {
        return Err(ExportError::SkyRecord);
    }
    match record.record {
        Err(_) => Err(ExportError::SkyRecord),
        Ok(record) => {
            if !names_sky(record.record_type.as_str()) {
                return Err(ExportError::SkyRecord);
            }
            edits.insert_placement("map/scene.bin".as_bytes_vec(), parent, record);
            Ok(())
        },
    }
}

fn export_collision(
    x: &ModelExport,
    edits: &mut StageArchiveEdits,
    cancelled: Option<&AtomicBool>,
) -> (r: Result<(), ExportError>)
    ensures
        agrees(r, x.collision_edits(old(edits)@), final(edits)@, cancelled),
{
    if !has_any(x, ModelInstanceExportMode::SeparateRuntimeObject) && !has_any(
        x,
        ModelInstanceExportMode::MapTerrain,
    ) {
        return Ok(());
    }
    if is_cancelled(cancelled) {
        return Err(ExportError::Cancelled);
    }
    if !collision_is_baked(x) {
        return Err(ExportError::CollisionMerge);
    }
    match &x.placed_collision.outcome {
        Err(MergeFailure::Merge(_)) => Err(ExportError::CollisionMerge),
        Err(MergeFailure::Compile(_)) => Err(ExportError::CollisionCompile),
        Ok(None) => Ok(()),
        Ok(Some(document)) => {
            edits.append_collision(
                "map/map.col".as_bytes_vec(),
                CollisionDocument::Compiled(*document),
            );
            Ok(())
        },
    }
}

fn admit_instances(x: &ModelExport, cancelled: Option<&AtomicBool>) -> (r: Result<(), ExportError>)
    ensures
        ({
            ||| cancelled is Some && r == Err::<(), ExportError>(ExportError::Cancelled)
            ||| match r {
                Ok(()) => x.admitted(),
                Err(fault) => search::first_fault(x.count(), x.admission()) == Some(fault),
            }
        }),
{
    let mut k: usize = 0;
    while k < x.instances.len()
        invariant
            k <= x.instances.len(),
            search::first_fault(k as nat, x.admission()) is None,
        decreases x.instances.len() - k,
    {
        if is_cancelled(cancelled) {
            return Err(ExportError::Cancelled);
        }
        let fault = match find_asset(x.assets, x.instances[k].placement.asset_id) {
            None => Some(ExportError::MissingAsset(k)),
            Some(i) => if x.assets[i].unacknowledged.len() > 0 {
                Some(ExportError::Unacknowledged(k))
            } else {
                None
            },
        };
        if let Some(fault) = fault {
            proof {
                search::lemma_fault_stays((k + 1) as nat, x.count(), x.admission());
            }
            return Err(fault);
        }
        k += 1;
    }
    Ok(())
}

/// The edits of all placed models on top of what is pending, without the sky bundle.
fn model_instance_edits(
    x: &ModelExport,
    base: StageArchiveEdits,
    sky_record: AuthoredSky,
    cancelled: Option<&AtomicBool>,
) -> (r: Result<StageArchiveEdits, ExportError>)
    ensures
        ({
            ||| cancelled is Some && r == Err::<StageArchiveEdits, ExportError>(
                ExportError::Cancelled,
            )
            ||| match r {
                Ok(edits) => x.placed_edits(base, record_of(sky_record)) == Ok::<
                    EditsView,
                    ExportError,
                >(edits@),
                Err(fault) => x.placed_edits(base, record_of(sky_record)) == Err::<
                    EditsView,
                    ExportError,
                >(fault),
            }
        }),
{
    match admit_instances(x, cancelled) {
        Ok(()) => {},
        Err(fault) => return Err(fault),
    }
    let names = if has_any(x, ModelInstanceExportMode::StockMapObjBase) {
        match x.archive {
            Some(archive) => stage_scene_record_names(archive, &base),
            None => None,
        }
    } else {
        None
    };
    let ghost pending = base;
    let mut edits = base;
    match export_separate(x, &mut edits, cancelled) {
        Ok(()) => {},
        Err(fault) => return Err(fault),
    }
    match export_stock(x, names, &mut edits, cancelled, Ghost(pending)) {
        Ok(()) => {},
        Err(fault) => return Err(fault),
    }
    match export_terrain(x, &mut edits, cancelled) {
        Ok(()) => {},
        Err(fault) => return Err(fault),
    }
    match export_sky(x, sky_record, &mut edits, cancelled) {
        Ok(()) => {},
        Err(fault) => return Err(fault),
    }
    match export_collision(x, &mut edits, cancelled) {
        Ok(()) => {},
        Err(fault) => return Err(fault),
    }
    Ok(edits)
}

/// The edits of all placed models on top of what is pending, with the reflected sky in step, after
/// the cancel flag was read for the first time: `stopped` is that reading, and it comes before
/// everything else. Without placed models it is the only one. `sky_record` is the sky actor as
/// authored, `table` the derived material table of the sky.
pub fn stage_edits_after_first_reading(
    x: &ModelExport,
    base: StageArchiveEdits,
    sky_record: AuthoredSky,
    table: Option<SkyTable>,
    stopped: bool,
    cancelled: Option<&AtomicBool>,
) -> (r: Result<StageArchiveEdits, ExportError>)
    ensures
        stopped ==> r == Err::<StageArchiveEdits, ExportError>(ExportError::Cancelled),
        !stopped ==> ({
            ||| cancelled is Some && x.count() > 0 && r == Err::<StageArchiveEdits, ExportError>(
                ExportError::Cancelled,
            )
            ||| match r {
                Ok(edits) => x.exported(base, record_of(sky_record), table) == Ok::<
                    EditsView,
                    ExportError,
                >(edits@),
                Err(fault) => x.exported(base, record_of(sky_record), table) == Err::<
                    EditsView,
                    ExportError,
                >(fault),
            }
        }),
{
    if stopped {
        return Err(ExportError::Cancelled);
    }
    let mut edits = if x.instances.len() == 0 {
        proof {
            assert(!x.any_mode(ModelInstanceExportMode::SeparateRuntimeObject));
            assert(!x.any_mode(ModelInstanceExportMode::StockMapObjBase));
            assert(!x.any_mode(ModelInstanceExportMode::MapTerrain));
        }
        base
    } else {
        match model_instance_edits(x, base, sky_record, cancelled) {
            Ok(edits) => edits,
            Err(fault) => return Err(fault),
        }
    };
    let done = match x.archive {
        Some(archive) => sky_bundle::synchronize_runtime_sky_reflection_bundle(
            archive.resources.as_slice(),
            &mut edits,
            table,
        ),
        None => {
            let none: Vec<ArchiveResource> = Vec::new();
            proof {
                assert(sky_bundle::archive_views(none@) =~= Seq::empty());
            }
            sky_bundle::synchronize_runtime_sky_reflection_bundle(
                none.as_slice(),
                &mut edits,
                table,
            )
        },
    };
    if done {
        Ok(edits)
    } else {
        Err(ExportError::SkyTable)
    }
}

/// The edits of all placed models on top of what is pending, with the reflected sky in step.
/// `sky_record` is the sky actor as authored, `table` the derived material table of the sky.
pub fn stage_edits_with_model_instances_from_snapshot_impl(
    x: &ModelExport,
    base: StageArchiveEdits,
    sky_record: AuthoredSky,
    table: Option<SkyTable>,
    cancelled: Option<&AtomicBool>,
) -> (r: Result<StageArchiveEdits, ExportError>)
    ensures
        ({
            ||| cancelled is Some && r == Err::<StageArchiveEdits, ExportError>(
                ExportError::Cancelled,
            )
            ||| match r {
                Ok(edits) => x.exported(base, record_of(sky_record), table) == Ok::<
                    EditsView,
                    ExportError,
                >(edits@),
                Err(fault) => x.exported(base, record_of(sky_record), table) == Err::<
                    EditsView,
                    ExportError,
                >(fault),
            }
        }),
{
    let stopped: bool = is_cancelled(cancelled);
    stage_edits_after_first_reading(x, base, sky_record, table, stopped, cancelled)
}

} // verus!
