//! The inspector of a placed model: which stock slots it may fill, what the export of each mode
//! does, and how the user's changes are taken over.
use vstd::prelude::*;

use crate::editor::SmsEditorApp;
use crate::jdrama::JDramaTransform;
use crate::model_export;
use crate::model_instances;
use crate::model_instances::{
    CollisionSurface, EditorModelInstance, GxMaterialDiagnostic, LoaderFlagsError,
    ModelInstanceExportMode, ModelInstancePlacement, StageLoaderFlags,
};
use crate::order;
use crate::registry;
use crate::registry::{CollisionSurfaceDefinition, MapObjResourceDefinition, ObjectRegistry};
use crate::search;
use crate::stock_path;
use crate::text;
use crate::export_messages;

verus! {

/// A stock slot that authored models may fill, by its position in the registry.
#[derive(Debug, Clone, Copy, PartialEq, Eq, Structural)]
pub struct StockSlotCandidate {
    pub slot: usize,
    /// The scene has the manager that the slot needs.
    pub manager_available: bool,
}

/// The slot loads a model and nothing that an authored model could not replace.
pub open spec fn is_generic_slot(slot: MapObjResourceDefinition) -> bool {
    &&& slot.object_flags & 0x80 == 0
    &&& !slot.has_hold_dependency
    &&& !slot.has_move_dependency
    &&& slot.uses_resource_name_model_fallback
    &&& slot.primary_model matches Some(model) && stock_path::stock_path(model@, ".bmd"@) is Ok
}

/// The scene has the manager that a slot needs.
pub open spec fn has_manager(slot: MapObjResourceDefinition, names: Option<Seq<Seq<char>>>) -> bool {
    slot.required_manager_name@.len() > 0 && (names matches Some(names) && names.contains(
        slot.required_manager_name@,
    ))
}

/// The candidates among the first `n` slots.
pub open spec fn candidates(
    slots: Seq<MapObjResourceDefinition>,
    names: Option<Seq<Seq<char>>>,
    n: nat,
) -> Seq<StockSlotCandidate>
    decreases n,
{
    if n == 0 {
        Seq::empty()
    } else {
        let rest = candidates(slots, names, (n - 1) as nat);
        if is_generic_slot(slots[n - 1]) {
            rest.push(
                StockSlotCandidate {
                    slot: (n - 1) as usize,
                    manager_available: has_manager(slots[n - 1], names),
                },
            )
        } else {
            rest
        }
    }
}

fn slot_is_generic(slot: &MapObjResourceDefinition) -> (r: bool)
    ensures
        r == is_generic_slot(*slot),
{
    if slot.object_flags & 0x80 != 0 || slot.has_hold_dependency || slot.has_move_dependency
        || !slot.uses_resource_name_model_fallback {
        return false;
    }
    match &slot.primary_model {
        Some(model) => stock_path::stock_mapobj_path(model.as_str(), ".bmd").is_ok(),
        None => false,
    }
}

fn holds_text(list: &[String], item: &str) -> (r: bool)
    ensures
        r == text::views(list@).contains(item@),
{
    let ghost views = text::views(list@);
    let mut i: usize = 0;
    while i < list.len()
        invariant
            i <= list.len(),
            views == text::views(list@),
            forall|j: int| 0 <= j < i ==> #[trigger] views[j] != item@,
        decreases list.len() - i,
    {
        if text::same(list[i].as_str(), item) {
            assert(views[i as int] == item@);
            return true;
        }
        i += 1;
    }
    false
}

/// The names of the scene's records, where the scene is known.
pub open spec fn known_names(names: Option<&Vec<String>>) -> Option<Seq<Seq<char>>> {
    match names {
        Some(names) => Some(text::views(names@)),
        None => None,
    }
}

/// The slots of the registry.
pub open spec fn known_slots(registry: Option<&ObjectRegistry>) -> Seq<MapObjResourceDefinition> {
    match registry {
        Some(registry) => registry.map_obj_resources@,
        None => Seq::empty(),
    }
}

/// The stock slots that authored models may fill.
pub fn stock_slot_candidates(registry: Option<&ObjectRegistry>, names: Option<&Vec<String>>) -> (r:
    Vec<StockSlotCandidate>)
    ensures
        r@ == candidates(known_slots(registry), known_names(names), known_slots(registry).len()),
{
    let mut r: Vec<StockSlotCandidate> = Vec::new();
    if let Some(registry) = registry {
        let slots = &registry.map_obj_resources;
        let mut i: usize = 0;
        while i < slots.len()
            invariant
                i <= slots.len(),
                r@ == candidates(slots@, known_names(names), i as nat),
            decreases slots.len() - i,
        {
            if slot_is_generic(&slots[i]) {
                let manager = slots[i].required_manager_name.as_str();
                let manager_available = !manager.is_empty() && match names {
                    Some(names) => holds_text(names.as_slice(), manager),
                    None => false,
                };
                r.push(StockSlotCandidate { slot: i, manager_available });
            }
            i += 1;
        }
    }
    r
}

proof fn lemma_candidates(
    slots: Seq<MapObjResourceDefinition>,
    names: Option<Seq<Seq<char>>>,
    n: nat,
)
    requires
        n <= slots.len(),
        slots.len() <= usize::MAX,
    ensures
        forall|i: int|
            0 <= i < candidates(slots, names, n).len() ==> ({
                let found = #[trigger] candidates(slots, names, n)[i];
                found.slot < n && is_generic_slot(slots[found.slot as int])
                    && found.manager_available == has_manager(slots[found.slot as int], names)
            }),
    decreases n,
{
    if n > 0 {
        lemma_candidates(slots, names, (n - 1) as nat);
        let rest = candidates(slots, names, (n - 1) as nat);
        let all = candidates(slots, names, n);
        assert forall|i: int| 0 <= i < all.len() implies ({
            let found = #[trigger] all[i];
            found.slot < n && is_generic_slot(slots[found.slot as int]) && found.manager_available
                == has_manager(slots[found.slot as int], names)
        }) by {
            if i < rest.len() {
                assert(all[i] == rest[i]);
            }
        }
    }
}

/// A slot that the inspector offers is never refused for what the slot is: the export faults of a
/// model in it lie with the model or with other models, or with the slot's collision.
pub proof fn law_offered_slots_are_exportable(
    x: model_export::ModelExport,
    names: Seq<Seq<char>>,
    k: int,
    i: int,
)
    requires
        x.registry matches Some(registry) && registry.map_obj_resources@.len() <= usize::MAX && ({
            let offered = candidates(
                registry.map_obj_resources@,
                Some(names),
                registry.map_obj_resources@.len(),
            );
            &&& 0 <= i < offered.len()
            &&& offered[i].manager_available
            &&& x.slot_index(k) == Some(offered[i].slot as int)
        }),
        x.selected(k).len() > 0,
    ensures
        match x.stock_fault(names, k) {
            Some(
                model_export::StockFault::NoSlotSelected
                | model_export::StockFault::UnknownSlot
                | model_export::StockFault::NoManager
                | model_export::StockFault::ManagerMissing
                | model_export::StockFault::HoldDependency
                | model_export::StockFault::MoveDependency
                | model_export::StockFault::DamageHeight
                | model_export::StockFault::CompiledMetadata
                | model_export::StockFault::NoPrimaryModel
                | model_export::StockFault::ModelPath(_),
            ) => false,
            _ => true,
        },
{
    let registry = x.registry->Some_0;
    let slots = registry.map_obj_resources@;
    lemma_candidates(slots, Some(names), slots.len());
    let offered = candidates(slots, Some(names), slots.len())[i];
    assert(is_generic_slot(slots[offered.slot as int]));
    assert(has_manager(slots[offered.slot as int], Some(names)));
    assert(x.slot(k) == slots[offered.slot as int]);
    assert(x.stock_model_path(k) is Ok);
    search::lemma_fault_has_an_item(
        x.slot(k).collision_resources@.len(),
        x.collision_check(k),
    );
}

/// The label of a stock slot.
pub open spec fn slot_text(slot: MapObjResourceDefinition) -> Seq<char> {
    slot.resource_name@ + " (0x"@ + text::hex(slot.load_flags as nat, 8) + "; manager "@
        + slot.required_manager_name@ + ")"@
}

/// The label of a stock slot.
pub fn stock_slot_label(slot: &MapObjResourceDefinition) -> (r: String)
    ensures
        r@ == slot_text(*slot),
{
    let flags = text::hex_text(slot.load_flags as u64, 8);
    slot.resource_name.clone().concat(" (0x").concat(flags.as_str()).concat("; manager ").concat(
        slot.required_manager_name.as_str(),
    ).concat(")")
}

/// What the inspector remarks about a stock slot.
#[derive(Debug, Clone, Copy, PartialEq, Eq, Structural)]
pub enum StockNotice {
    Nothing,
    NoSlots,
    NoManagers,
    MissingManager { slot: usize },
    Incompatible,
}

/// Some of the candidates has its manager.
pub open spec fn any_available(list: Seq<StockSlotCandidate>) -> bool {
    exists|i: int| 0 <= i < list.len() && (#[trigger] list[i]).manager_available
}

/// The candidate is this resource.
pub open spec fn is_candidate_for(slots: Seq<MapObjResourceDefinition>, name: Seq<char>) -> spec_fn(
    StockSlotCandidate,
) -> bool {
    |candidate: StockSlotCandidate| slots[candidate.slot as int].resource_name@ == name
}

/// The candidate is this resource and has its manager.
pub open spec fn is_usable_for(slots: Seq<MapObjResourceDefinition>, name: Seq<char>) -> spec_fn(
    StockSlotCandidate,
) -> bool {
    |candidate: StockSlotCandidate|
        candidate.manager_available && slots[candidate.slot as int].resource_name@ == name
}

/// What the inspector remarks about a stock slot.
pub open spec fn stock_notice(
    slots: Seq<MapObjResourceDefinition>,
    list: Seq<StockSlotCandidate>,
    selected: Seq<char>,
) -> StockNotice {
    if list.len() == 0 {
        StockNotice::NoSlots
    } else if !any_available(list) {
        StockNotice::NoManagers
    } else if selected.len() == 0 || search::first_position(
        list,
        is_usable_for(slots, selected),
    ) is Some {
        StockNotice::Nothing
    } else {
        match search::first_position(list, is_candidate_for(slots, selected)) {
            Some(i) => StockNotice::MissingManager { slot: list[i].slot },
            None => StockNotice::Incompatible,
        }
    }
}

/// What the inspector remarks about the stock slot of an instance.
pub fn find_stock_notice(
    registry: &ObjectRegistry,
    list: &[StockSlotCandidate],
    selected: &str,
) -> (r: StockNotice)
    requires
        forall|i: int|
            0 <= i < list@.len() ==> (#[trigger] list@[i]).slot
                < registry.map_obj_resources@.len(),
    ensures
        r == stock_notice(registry.map_obj_resources@, list@, selected@),
{
    let ghost slots = registry.map_obj_resources@;
    if list.len() == 0 {
        return StockNotice::NoSlots;
    }
    let mut available: bool = false;
    let mut usable: bool = false;
    let mut found: Option<usize> = None;
    let mut i: usize = 0;
    while i < list.len()
        invariant
            i <= list.len(),
            slots == registry.map_obj_resources@,
            forall|j: int|
                0 <= j < list@.len() ==> (#[trigger] list@[j]).slot
                    < registry.map_obj_resources@.len(),
            available == exists|j: int| 0 <= j < i && (#[trigger] list@[j]).manager_available,
            usable ==> search::first_position(list@, is_usable_for(slots, selected@)) is Some,
            !usable ==> forall|j: int|
                0 <= j < i ==> !is_usable_for(slots, selected@)(#[trigger] list@[j]),
            match found {
                Some(f) => f < list@.len() && search::first_position(
                    list@,
                    is_candidate_for(slots, selected@),
                ) == Some(f as int),
                None => forall|j: int|
                    0 <= j < i ==> !is_candidate_for(slots, selected@)(#[trigger] list@[j]),
            },
        decreases list.len() - i,
    {
        let same = text::same(
            registry.map_obj_resources[list[i].slot].resource_name.as_str(),
            selected,
        );
        if list[i].manager_available {
            available = true;
            if same {
                usable = true;
                proof {
                    search::lemma_first_position(list@, is_usable_for(slots, selected@));
                    assert(is_usable_for(slots, selected@)(list@[i as int]));
                }
            }
        }
        if same && found.is_none() {
            found = Some(i);
            proof {
                search::lemma_found(list@, is_candidate_for(slots, selected@), i as int);
            }
        }
        i += 1;
    }
    if !available {
        return StockNotice::NoManagers;
    }
    proof {
        if !usable {
            search::lemma_not_found(list@, is_usable_for(slots, selected@));
        }
        if found is None {
            search::lemma_not_found(list@, is_candidate_for(slots, selected@));
        }
    }
    if selected.is_empty() || usable {
        return StockNotice::Nothing;
    }
    match found {
        Some(f) => StockNotice::MissingManager { slot: list[f].slot },
        None => StockNotice::Incompatible,
    }
}

impl StockNotice {
    /// The remark; `manager` is the manager that the slot needs.
    pub open spec fn text(self, manager: Seq<char>) -> Seq<char> {
        match self {
            StockNotice::Nothing => ""@,
            StockNotice::NoSlots =>
            "No compatible source-free stock slots are available in the loaded decomp registry."@,
            StockNotice::NoManagers =>
            "This scene contains none of the exact managers required by the otherwise compatible stock slots."@,
            StockNotice::MissingManager { .. } => "The saved slot requires scene manager "@
                + text::debug_form(manager)
                + ", which is not present under the open map/scene.bin hierarchy."@,
            StockNotice::Incompatible =>
            "The saved slot is not compatible with generic stock replacement; select another verified slot."@,
        }
    }

    /// The remark.
    pub fn message(&self, manager: &str) -> (r: String)
        ensures
            r@ == self.text(manager@),
    {
        match *self {
            StockNotice::Nothing => "".to_owned(),
            StockNotice::NoSlots =>
            "No compatible source-free stock slots are available in the loaded decomp registry.".to_owned(),
            StockNotice::NoManagers =>
            "This scene contains none of the exact managers required by the otherwise compatible stock slots.".to_owned(),
            StockNotice::MissingManager { .. } =>
            "The saved slot requires scene manager ".to_owned().concat(
                text::debug_text(manager).as_str(),
            ).concat(", which is not present under the open map/scene.bin hierarchy."),
            StockNotice::Incompatible =>
            "The saved slot is not compatible with generic stock replacement; select another verified slot.".to_owned(),
        }
    }
}

/// The text of the slot selector.
pub fn selected_slot_text(resource: &str) -> (r: String)
    ensures
        r@ == (if resource@.len() == 0 {
            "Select a verified slot..."@
        } else {
            resource@
        }),
{
    if resource.is_empty() {
        "Select a verified slot...".to_owned()
    } else {
        resource.to_owned()
    }
}

/// The name of an export mode.
pub open spec fn mode_text(mode: ModelInstanceExportMode) -> Seq<char> {
    match mode {
        ModelInstanceExportMode::SeparateRuntimeObject => "Separate runtime object"@,
        ModelInstanceExportMode::StockMapObjBase => "Stock MapObjBase slot"@,
        ModelInstanceExportMode::MapTerrain => "Bake as map terrain"@,
        ModelInstanceExportMode::Skybox => "Stage skybox"@,
    }
}

/// The name of an export mode.
pub fn export_mode_label(mode: ModelInstanceExportMode) -> (r: &'static str)
    ensures
        r@ == mode_text(mode),
{
    match mode {
        ModelInstanceExportMode::SeparateRuntimeObject => "Separate runtime object",
        ModelInstanceExportMode::StockMapObjBase => "Stock MapObjBase slot",
        ModelInstanceExportMode::MapTerrain => "Bake as map terrain",
        ModelInstanceExportMode::Skybox => "Stage skybox",
    }
}

/// What an export mode does.
pub open spec fn mode_remark(mode: ModelInstanceExportMode) -> Seq<char> {
    match mode {
        ModelInstanceExportMode::SeparateRuntimeObject =>
        "Exports a deduplicated standalone BMD. Static collision remains part of map/map.col."@,
        ModelInstanceExportMode::StockMapObjBase =>
        "Shared/global replacement: every use of the selected retail BMD/COL slot in this stage resolves to the authored asset."@,
        ModelInstanceExportMode::MapTerrain =>
        "Destructive export: replaces map/map/map.bmd rather than adding a runtime object."@,
        ModelInstanceExportMode::Skybox =>
        "Authors this model as the stage-global TSky resource. Collision is not exported for skybox instances."@,
    }
}

/// What an export mode does.
pub fn export_mode_remark(mode: ModelInstanceExportMode) -> (r: &'static str)
    ensures
        r@ == mode_remark(mode),
{
    match mode {
        ModelInstanceExportMode::SeparateRuntimeObject =>
        "Exports a deduplicated standalone BMD. Static collision remains part of map/map.col.",
        ModelInstanceExportMode::StockMapObjBase =>
        "Shared/global replacement: every use of the selected retail BMD/COL slot in this stage resolves to the authored asset.",
        ModelInstanceExportMode::MapTerrain =>
        "Destructive export: replaces map/map/map.bmd rather than adding a runtime object.",
        ModelInstanceExportMode::Skybox =>
        "Authors this model as the stage-global TSky resource. Collision is not exported for skybox instances.",
    }
}

/// Whether the inspector warns that the slot loses its collision everywhere.
pub fn warns_of_lost_collision(placement: &ModelInstancePlacement) -> (r: bool)
    ensures
        r == (placement.export_mode == ModelInstanceExportMode::StockMapObjBase
            && !placement.collision_enabled),
{
    placement.export_mode == ModelInstanceExportMode::StockMapObjBase
        && !placement.collision_enabled
}

/// What the inspector says of the loader of an instance.
#[derive(Debug, Clone, Copy, PartialEq, Eq, Structural)]
pub enum LoaderStatus {
    /// No loader can be found.
    Unresolved(LoaderFlagsError),
    /// The loader takes the materials as they are.
    Consumes { flags: u32 },
    /// The loader has remarks on the materials.
    Remarks { flags: u32 },
    /// The preview for the loader is being built.
    Rebuilding { flags: u32 },
}

/// What the inspector says of the loader of an instance; `remarks` are those of its compiled
/// preview, where there is one.
pub fn loader_status(
    placement: &ModelInstancePlacement,
    registry: Option<&ObjectRegistry>,
    flags: StageLoaderFlags,
    remarks: Option<&Vec<GxMaterialDiagnostic>>,
) -> (r: LoaderStatus)
    ensures
        r == (match model_instances::loader_flags_of(
            *placement,
            model_instances::registry_value(registry),
            flags,
        ) {
            Err(error) => LoaderStatus::Unresolved(error),
            Ok(flags) => match remarks {
                None => LoaderStatus::Rebuilding { flags },
                Some(remarks) => if remarks@.len() == 0 {
                    LoaderStatus::Consumes { flags }
                } else {
                    LoaderStatus::Remarks { flags }
                },
            },
        }),
{
    match model_instances::model_instance_loader_flags(placement, registry, flags) {
        Err(error) => LoaderStatus::Unresolved(error),
        Ok(flags) => match remarks {
            None => LoaderStatus::Rebuilding { flags },
            Some(remarks) => {
                if remarks.len() == 0 {
                    LoaderStatus::Consumes { flags }
                } else {
                    LoaderStatus::Remarks { flags }
                }
            },
        },
    }
}

/// The line with a loader's flags.
pub fn loader_flags_line(flags: u32) -> (r: String)
    ensures
        r@ == "Loader flags: 0x"@ + text::hex(flags as nat, 8),
{
    let digits = text::hex_text(flags as u64, 8);
    "Loader flags: 0x".to_owned().concat(digits.as_str())
}

/// The surface that a new override begins with.
pub open spec fn plain_surface() -> CollisionSurface {
    CollisionSurface { surface_type: 0, attribute_0: 0, attribute_1: 0, data: None }
}

/// What the user changed in the inspector.
#[derive(Debug)]
pub struct InspectorChanges {
    /// The transform shown, changed or not.
    pub transform: JDramaTransform,
    pub transform_changed: bool,
    pub export_mode: Option<ModelInstanceExportMode>,
    pub stock_resource: Option<String>,
    pub collision_enabled: Option<bool>,
    /// The override was switched on or off.
    pub override_enabled: Option<bool>,
    /// The fields of the override were changed.
    pub surface: Option<CollisionSurface>,
}

impl InspectorChanges {
    /// The placement has collision after the change.
    pub open spec fn has_collision(self, placement: ModelInstancePlacement) -> bool {
        match self.collision_enabled {
            Some(enabled) => enabled,
            None => placement.collision_enabled,
        }
    }

    /// The override after the user switched it; without collision it cannot be switched.
    pub open spec fn switched_override(
        self,
        placement: ModelInstancePlacement,
        template: Option<CollisionSurface>,
    ) -> Option<CollisionSurface> {
        if !self.has_collision(placement) {
            placement.collision_surface_override
        } else {
            match self.override_enabled {
                Some(true) => Some(
                    match template {
                        Some(surface) => surface,
                        None => plain_surface(),
                    },
                ),
                Some(false) => None,
                None => placement.collision_surface_override,
            }
        }
    }

    /// The override after the change.
    pub open spec fn new_override(
        self,
        placement: ModelInstancePlacement,
        template: Option<CollisionSurface>,
    ) -> Option<CollisionSurface> {
        let switched = self.switched_override(placement, template);
        if self.has_collision(placement) && switched is Some && self.surface is Some {
            self.surface
        } else {
            switched
        }
    }

    /// The user changed something.
    pub open spec fn any(
        self,
        placement: ModelInstancePlacement,
        template: Option<CollisionSurface>,
    ) -> bool {
        ||| self.transform_changed
        ||| self.export_mode is Some
        ||| self.stock_resource is Some
        ||| self.collision_enabled is Some
        ||| self.has_collision(placement) && self.override_enabled is Some
        ||| self.has_collision(placement) && self.switched_override(placement, template) is Some
            && self.surface is Some
    }
}

/// The instance with the user's changes.
pub open spec fn is_changed_instance(
    r: EditorModelInstance,
    instance: EditorModelInstance,
    changes: InspectorChanges,
    template: Option<CollisionSurface>,
) -> bool {
    &&& r.stage_id == instance.stage_id
    &&& r.bounds_min == instance.bounds_min
    &&& r.bounds_max == instance.bounds_max
    &&& r.placement.instance_id == instance.placement.instance_id
    &&& r.placement.asset_id == instance.placement.asset_id
    &&& r.placement.name == instance.placement.name
    &&& r.placement.export_mode == (match changes.export_mode {
        Some(mode) => mode,
        None => instance.placement.export_mode,
    })
    &&& r.placement.stock_map_obj_resource == (match changes.stock_resource {
        Some(resource) => resource,
        None => instance.placement.stock_map_obj_resource,
    })
    &&& r.placement.collision_enabled == changes.has_collision(instance.placement)
    &&& r.placement.collision_surface_override == changes.new_override(
        instance.placement,
        template,
    )
    &&& r.placement.transform == changes.transform
}

impl SmsEditorApp {
    /// Takes over what the user changed in the inspector of the selected instance, unless the
    /// transform is not finite. A selection of something that is not placed is dropped.
    pub fn model_instance_inspector_panel(&mut self, changes: InspectorChanges)
        ensures
            match old(self).selected_position() {
                None => final(self).changes_instances(*old(self)) && final(self).log
                    == old(self).log && final(self).effects == old(self).effects
                    && final(self).instances == (crate::editor::InstanceState {
                    selected: None,
                    ..old(self).instances
                }),
                Some(i) => {
                    let instance = old(self).instances.list@[i];
                    let template = old(self).instances.surface_template;
                    if changes.any(instance.placement, template) && changes.transform.finite() {
                        &&& final(self).changes_instances(*old(self))
                        &&& final(self).log == old(self).log
                        &&& final(self).instances.selected == old(self).instances.selected
                        &&& final(self).instances.surface_template == template
                        &&& exists|updated: EditorModelInstance| #[trigger]
                            is_changed_instance(updated, instance, changes, template) && final(
                                self).replaces_selected(*old(self), updated)
                    } else {
                        *final(self) == *old(self)
                    }
                },
            },
    {
        let i = match self.selected_model_instance() {
            Some(i) => i,
            None => {
                self.instances.selected = None;
                return;
            },
        };
        let mut instance = self.instances.list[i].duplicate();
        let ghost before = instance;
        let template = self.instances.surface_template;
        let mut changed = changes.transform_changed;
        let finite = changes.transform.is_finite();
        instance.placement.transform = changes.transform;
        if let Some(mode) = changes.export_mode {
            instance.placement.export_mode = mode;
            changed = true;
        }
        if let Some(resource) = changes.stock_resource {
            instance.placement.stock_map_obj_resource = resource;
            changed = true;
        }
        if let Some(enabled) = changes.collision_enabled {
            instance.placement.collision_enabled = enabled;
            changed = true;
        }
        if instance.placement.collision_enabled {
            if let Some(enabled) = changes.override_enabled {
                instance.placement.collision_surface_override = if enabled {
                    match template {
                        Some(surface) => Some(surface),
                        None => Some(
                            CollisionSurface {
                                surface_type: 0,
                                attribute_0: 0,
                                attribute_1: 0,
                                data: None,
                            },
                        ),
                    }
                } else {
                    None
                };
                changed = true;
            }
            if instance.placement.collision_surface_override.is_some() {
                if let Some(surface) = changes.surface {
                    instance.placement.collision_surface_override = Some(surface);
                    changed = true;
                }
            }
        }
        proof {
            assert(changed == changes.any(before.placement, template));
        }
        if changed && finite {
            proof {
                assert(is_changed_instance(instance, before, changes, template));
            }
            self.update_selected_model_instance(instance);
        }
    }
}

/// The definition speaks of this surface: a property by its bits, a type by its value.
pub open spec fn describes(definition: CollisionSurfaceDefinition, surface_type: u16) -> bool {
    if definition.is_property_flag {
        definition.value != 0 && surface_type & definition.value == definition.value
    } else {
        definition.value == surface_type
    }
}

/// Some of the first `n` definitions gives the surface this name.
pub open spec fn has_surface_name(
    definitions: Seq<CollisionSurfaceDefinition>,
    surface_type: u16,
    n: int,
    name: Seq<char>,
) -> bool {
    exists|i: int|
        0 <= i < n && describes(#[trigger] definitions[i], surface_type) && definitions[i].name@
            == name
}

/// The text is the description of a surface: all its names in order, or its number.
pub open spec fn is_surface_description(
    shown: Seq<char>,
    definitions: Seq<CollisionSurfaceDefinition>,
    surface_type: u16,
) -> bool {
    exists|names: Seq<Seq<char>>|
        {
            &&& #[trigger] order::strictly_sorted(names)
            &&& forall|name: Seq<char>|
                names.contains(name) <==> #[trigger] has_surface_name(
                    definitions,
                    surface_type,
                    definitions.len() as int,
                    name,
                )
            &&& shown == if names.len() == 0 {
                "Unknown raw collision surface 0x"@ + text::hex(surface_type as nat, 4)
            } else {
                "Decomp-derived: "@ + export_messages::joined(names, " | "@)
            }
        }
}

/// The description of a collision surface.
pub fn collision_surface_description(
    surface_type: u16,
    definitions: &[CollisionSurfaceDefinition],
) -> (r: String)
    ensures
        is_surface_description(r@, definitions@, surface_type),
{
    let mut names: Vec<String> = Vec::new();
    let mut i: usize = 0;
    proof {
        assert(text::views(names@) =~= Seq::empty());
    }
    while i < definitions.len()
        invariant
            i <= definitions.len(),
            order::strictly_sorted(text::views(names@)),
            forall|name: Seq<char>|
                text::views(names@).contains(name) <==> #[trigger] has_surface_name(
                    definitions@,
                    surface_type,
                    i as int,
                    name,
                ),
        decreases definitions.len() - i,
    {
        let definition = &definitions[i];
        let ghost before = text::views(names@);
        let fits = if definition.is_property_flag {
            definition.value != 0 && surface_type & definition.value == definition.value
        } else {
            definition.value == surface_type
        };
        if fits {
            order::insert_text(&mut names, definition.name.clone());
        }
        proof {
            assert forall|name: Seq<char>|
                text::views(names@).contains(name) <==> #[trigger] has_surface_name(
                    definitions@,
                    surface_type,
                    i + 1,
                    name,
                ) by {
                assert(before.contains(name) == has_surface_name(
                    definitions@,
                    surface_type,
                    i as int,
                    name,
                ));
                lemma_one_more_definition(definitions@, surface_type, i as int, name);
            }
        }
        i += 1;
    }
    let ghost views = text::views(names@);
    proof {
        assert(views.len() == names@.len());
        assert(order::strictly_sorted(views));
    }
    if names.len() == 0 {
        let digits = text::hex_text(surface_type as u64, 4);
        "Unknown raw collision surface 0x".to_owned().concat(digits.as_str())
    } else {
        let list = export_messages::join(names.as_slice(), " | ");
        "Decomp-derived: ".to_owned().concat(list.as_str())
    }
}

proof fn lemma_one_more_definition(
    definitions: Seq<CollisionSurfaceDefinition>,
    surface_type: u16,
    n: int,
    name: Seq<char>,
)
    requires
        0 <= n < definitions.len(),
    ensures
        has_surface_name(definitions, surface_type, n + 1, name) == (has_surface_name(
            definitions,
            surface_type,
            n,
            name,
        ) || (describes(definitions[n], surface_type) && definitions[n].name@ == name)),
{
    if has_surface_name(definitions, surface_type, n, name) {
        let i = choose|i: int|
            0 <= i < n && describes(#[trigger] definitions[i], surface_type) && definitions[i].name@
                == name;
        assert(0 <= i < n + 1 && describes(definitions[i], surface_type));
    }
}

} // verus!
