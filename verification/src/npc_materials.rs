//! Colours that the game gives to the materials of placed objects.
use vstd::prelude::*;

use crate::preview;
use crate::preview::{J3dMaterial, MaterialView, Rgba, TevColor};
use crate::registry::{
    EnemyMaterialColorDefinition, MapObjModelOverrideDefinition, MapObjStringTevProgram,
    MapObjStringTevVariant, MapObjTevColorDefinition, NpcColorChangeDefinition,
    NpcMaterialColorDefinition, ObjectRegistry,
};
use crate::search;
use crate::stage::SceneObject;
use crate::text;

verus! {

/// A register colour cut down to bytes.
pub open spec fn byte_color(color: TevColor) -> Rgba {
    Rgba { r: color.r as u8, g: color.g as u8, b: color.b as u8, a: color.a as u8 }
}

/// The register colours with one replaced, where the position and the colour exist.
pub open spec fn with_register(
    registers: Seq<TevColor>,
    at: int,
    colors: Seq<TevColor>,
    index: int,
) -> Seq<TevColor> {
    if 0 <= index < colors.len() {
        registers.update(at, colors[index])
    } else {
        registers
    }
}

/// A material after one NPC colour change: mode 0 sets the material colour, mode 1 the first
/// register, mode 2 the second and third.
pub open spec fn recolored(
    material: MaterialView,
    change: NpcColorChangeDefinition,
    index: int,
) -> MaterialView {
    if change.mode == 0 {
        if 0 <= index < change.colors0@.len() {
            MaterialView {
                material_colors: material.material_colors.update(
                    0,
                    byte_color(change.colors0@[index]),
                ),
                ..material
            }
        } else {
            material
        }
    } else if change.mode == 1 {
        MaterialView {
            tev_colors: with_register(material.tev_colors, 0, change.colors0@, index),
            ..material
        }
    } else if change.mode == 2 {
        MaterialView {
            tev_colors: with_register(
                with_register(material.tev_colors, 1, change.colors0@, index),
                2,
                change.colors1@,
                index,
            ),
            ..material
        }
    } else {
        material
    }
}

/// Applies one NPC colour change.
pub fn apply_npc_color_change(
    material: &mut J3dMaterial,
    change: &NpcColorChangeDefinition,
    color_index: usize,
)
    ensures
        final(material)@ == recolored(old(material)@, *change, color_index as int),
{
    if change.mode == 0 {
        if color_index < change.colors0.len() {
            let color = change.colors0[color_index];
            material.material_colors[0] = Rgba {
                r: color.r as u8,
                g: color.g as u8,
                b: color.b as u8,
                a: color.a as u8,
            };
        }
    } else if change.mode == 1 {
        if color_index < change.colors0.len() {
            material.tev_colors[0] = change.colors0[color_index];
        }
    } else if change.mode == 2 {
        if color_index < change.colors0.len() {
            material.tev_colors[1] = change.colors0[color_index];
        }
        if color_index < change.colors1.len() {
            material.tev_colors[2] = change.colors1[color_index];
        }
    }
    proof {
        assert(material@ =~= recolored(old(material)@, *change, color_index as int));
    }
}

/// The parameter that selects a root colour of an NPC.
pub open spec fn root_color_param(channel: int) -> Option<Seq<char>> {
    if channel == 0 {
        Some("npc_body_color_index"@)
    } else if channel == 1 {
        Some("npc_cloth_color_index"@)
    } else {
        None
    }
}

/// The root colour index of an NPC in a channel.
pub open spec fn root_color_index(object: SceneObject, channel: int) -> Option<usize> {
    match root_color_param(channel) {
        Some(name) => object.index_param(name),
        None => None,
    }
}

/// The root colour index of an NPC in a channel.
pub fn npc_root_color_index(object: &SceneObject, channel: usize) -> (r: Option<usize>)
    ensures
        r == root_color_index(*object, channel as int),
        channel == 0 ==> r == object.index_param("npc_body_color_index"@),
        channel == 1 ==> r == object.index_param("npc_cloth_color_index"@),
        channel > 1 ==> r is None,
{
    if channel == 0 {
        object.raw_index("npc_body_color_index")
    } else if channel == 1 {
        object.raw_index("npc_cloth_color_index")
    } else {
        None
    }
}

/// The definition recolours this material of the NPC's own model.
pub open spec fn recolors(
    definition: NpcMaterialColorDefinition,
    factory: Seq<char>,
    material: Seq<char>,
) -> bool {
    definition.factory_name@ == factory && definition.model_index == 0 && text::same_ignoring_case(
        material,
        definition.change.material_name@,
    )
}

/// A material after the first `n` definitions.
pub open spec fn root_recolored(
    material: MaterialView,
    object: SceneObject,
    definitions: Seq<NpcMaterialColorDefinition>,
    n: nat,
) -> MaterialView
    decreases n,
{
    if n == 0 {
        material
    } else {
        let rest = root_recolored(material, object, definitions, (n - 1) as nat);
        let definition = definitions[n - 1];
        if recolors(definition, object.factory_name@, material.name) {
            match root_color_index(object, definition.color_index_channel as int) {
                Some(index) => recolored(rest, definition.change, index as int),
                None => rest,
            }
        } else {
            rest
        }
    }
}

/// A material after all root colours of its NPC.
pub open spec fn with_root_colors(
    material: MaterialView,
    object: SceneObject,
    registry: Option<ObjectRegistry>,
) -> MaterialView {
    match registry {
        Some(registry) => root_recolored(
            material,
            object,
            registry.npc_material_colors@,
            registry.npc_material_colors@.len(),
        ),
        None => material,
    }
}

/// A reference to an optional registry, as a value.
pub open spec fn known(registry: Option<&ObjectRegistry>) -> Option<ObjectRegistry> {
    match registry {
        Some(r) => Some(*r),
        None => None,
    }
}

/// Applies the root colours of an NPC to one of its materials.
pub fn apply_npc_root_material_colors(
    material: &mut J3dMaterial,
    object: &SceneObject,
    registry: Option<&ObjectRegistry>,
)
    ensures
        final(material)@ == with_root_colors(old(material)@, *object, known(registry)),
{
    let registry = match registry {
        Some(registry) => registry,
        None => return,
    };
    let name = material.name.clone();
    let mut i: usize = 0;
    while i < registry.npc_material_colors.len()
        invariant
            i <= registry.npc_material_colors.len(),
            name@ == old(material)@.name,
            material@ == root_recolored(
                old(material)@,
                *object,
                registry.npc_material_colors@,
                i as nat,
            ),
        decreases registry.npc_material_colors.len() - i,
    {
        let definition = &registry.npc_material_colors[i];
        if text::same(definition.factory_name.as_str(), object.factory_name.as_str())
            && definition.model_index == 0 && text::eq_ignoring_case(
            name.as_str(),
            definition.change.material_name.as_str(),
        ) {
            if let Some(index) = npc_root_color_index(
                object,
                definition.color_index_channel as usize,
            ) {
                apply_npc_color_change(material, &definition.change, index);
            }
        }
        i += 1;
    }
}

/// The goop tint of an NPC: white, with the amount clamped to a byte as alpha.
pub open spec fn pollution_color(object: SceneObject) -> Option<Rgba> {
    match object.param("npc_pollution_amount"@) {
        Some(value) => match text::i32_value(value) {
            Some(amount) => Some(
                Rgba {
                    r: 255,
                    g: 255,
                    b: 255,
                    a: if amount < 0 {
                        0
                    } else if amount > 255 {
                        255
                    } else {
                        amount as u8
                    },
                },
            ),
            None => None,
        },
        None => None,
    }
}

/// The goop tint of an NPC.
pub fn npc_pollution_k_color(object: &SceneObject) -> (r: Option<Rgba>)
    ensures
        r == pollution_color(*object),
{
    match object.raw_param("npc_pollution_amount") {
        Some(value) => match text::parse_i32(value) {
            Some(amount) => {
                let a: u8 = if amount < 0 {
                    0
                } else if amount > 255 {
                    255
                } else {
                    amount as u8
                };
                Some(Rgba { r: 255, g: 255, b: 255, a })
            },
            None => None,
        },
        None => None,
    }
}

/// The definition belongs to this object class.
pub open spec fn colors_factory(factory: Seq<char>) -> spec_fn(NpcMaterialColorDefinition) -> bool {
    |definition: NpcMaterialColorDefinition| definition.factory_name@ == factory
}

/// The definition belongs to the own model of this object class.
pub open spec fn colors_root(factory: Seq<char>) -> spec_fn(NpcMaterialColorDefinition) -> bool {
    |definition: NpcMaterialColorDefinition|
        definition.factory_name@ == factory && definition.model_index == 0
}

/// The goop tint that a placed NPC starts with; only classes with colour definitions have one.
pub open spec fn initial_pollution(object: SceneObject, registry: Option<ObjectRegistry>) -> Option<
    Rgba,
> {
    match registry {
        Some(registry) => if search::first_position(
            registry.npc_material_colors@,
            colors_factory(object.factory_name@),
        ) is Some {
            pollution_color(object)
        } else {
            None
        },
        None => None,
    }
}

fn has_colors(registry: &ObjectRegistry, factory: &str, root_only: bool) -> (r: bool)
    ensures
        r == (if root_only {
            search::first_position(registry.npc_material_colors@, colors_root(factory@)) is Some
        } else {
            search::first_position(registry.npc_material_colors@, colors_factory(factory@)) is Some
        }),
{
    let ghost p = if root_only {
        colors_root(factory@)
    } else {
        colors_factory(factory@)
    };
    let mut i: usize = 0;
    while i < registry.npc_material_colors.len()
        invariant
            i <= registry.npc_material_colors.len(),
            p == (if root_only {
                colors_root(factory@)
            } else {
                colors_factory(factory@)
            }),
            forall|j: int| 0 <= j < i ==> !p(#[trigger] registry.npc_material_colors@[j]),
        decreases registry.npc_material_colors.len() - i,
    {
        let definition = &registry.npc_material_colors[i];
        if text::same(definition.factory_name.as_str(), factory) && (!root_only
            || definition.model_index == 0) {
            proof {
                search::lemma_found(registry.npc_material_colors@, p, i as int);
            }
            return true;
        }
        i += 1;
    }
    proof {
        search::lemma_not_found(registry.npc_material_colors@, p);
    }
    false
}

/// The goop tint that a placed NPC starts with.
pub fn npc_initial_pollution_k_color(
    object: &SceneObject,
    registry: Option<&ObjectRegistry>,
) -> (r: Option<Rgba>)
    ensures
        r == initial_pollution(*object, known(registry)),
{
    match registry {
        Some(registry) => if has_colors(registry, object.factory_name.as_str(), false) {
            npc_pollution_k_color(object)
        } else {
            None
        },
        None => None,
    }
}

/// A colour with the given components replaced.
pub open spec fn overridden(color: TevColor, components: Seq<Option<i16>>) -> TevColor {
    TevColor {
        r: match components[0] {
            Some(v) => v,
            None => color.r,
        },
        g: match components[1] {
            Some(v) => v,
            None => color.g,
        },
        b: match components[2] {
            Some(v) => v,
            None => color.b,
        },
        a: match components[3] {
            Some(v) => v,
            None => color.a,
        },
    }
}

/// The definition sets a register of this material of this class.
pub open spec fn overrides(
    definition: EnemyMaterialColorDefinition,
    factory: Seq<char>,
    material: Seq<char>,
) -> bool {
    definition.factory_name@ == factory && text::same_ignoring_case(
        definition.material_name@,
        material,
    )
}

/// The registers after the first `n` definitions.
pub open spec fn enemy_registers(
    registers: Seq<TevColor>,
    factory: Seq<char>,
    material: Seq<char>,
    definitions: Seq<EnemyMaterialColorDefinition>,
    n: nat,
) -> Seq<TevColor>
    decreases n,
{
    if n == 0 {
        registers
    } else {
        let rest = enemy_registers(registers, factory, material, definitions, (n - 1) as nat);
        let definition = definitions[n - 1];
        let at = definition.tev_register as int;
        if overrides(definition, factory, material) && at < 4 {
            rest.update(at, overridden(rest[at], definition.color@))
        } else {
            rest
        }
    }
}

/// The registers after everything that an enemy class sets.
pub open spec fn with_enemy_colors(
    registers: Seq<TevColor>,
    factory: Seq<char>,
    material: Seq<char>,
    registry: Option<ObjectRegistry>,
) -> Seq<TevColor> {
    match registry {
        Some(registry) => enemy_registers(
            registers,
            factory,
            material,
            registry.enemy_material_colors@,
            registry.enemy_material_colors@.len(),
        ),
        None => registers,
    }
}

fn pick(component: Option<i16>, current: i16) -> (r: i16)
    ensures
        r == (match component {
            Some(v) => v,
            None => current,
        }),
{
    match component {
        Some(v) => v,
        None => current,
    }
}

/// Applies the register colours of an enemy class.
pub fn apply_enemy_tev_overrides(
    tev_colors: &mut [TevColor; 4],
    material_name: &str,
    factory_name: &str,
    registry: Option<&ObjectRegistry>,
)
    ensures
        final(tev_colors)@ == with_enemy_colors(
            old(tev_colors)@,
            factory_name@,
            material_name@,
            known(registry),
        ),
{
    let registry = match registry {
        Some(registry) => registry,
        None => return,
    };
    let mut i: usize = 0;
    while i < registry.enemy_material_colors.len()
        invariant
            i <= registry.enemy_material_colors.len(),
            tev_colors@ == enemy_registers(
                old(tev_colors)@,
                factory_name@,
                material_name@,
                registry.enemy_material_colors@,
                i as nat,
            ),
        decreases registry.enemy_material_colors.len() - i,
    {
        let definition = &registry.enemy_material_colors[i];
        let at: usize = definition.tev_register as usize;
        if text::same(definition.factory_name.as_str(), factory_name) && text::eq_ignoring_case(
            definition.material_name.as_str(),
            material_name,
        ) && at < 4 {
            let current = tev_colors[at];
            tev_colors[at] = TevColor {
                r: pick(definition.color[0], current.r),
                g: pick(definition.color[1], current.g),
                b: pick(definition.color[2], current.b),
                a: pick(definition.color[3], current.a),
            };
        }
        i += 1;
    }
}

/// Applies the register colours of an enemy class to one of its materials.
pub fn apply_enemy_material_colors(
    material: &mut J3dMaterial,
    object: &SceneObject,
    registry: Option<&ObjectRegistry>,
)
    ensures
        final(material)@ == (MaterialView {
            tev_colors: with_enemy_colors(
                old(material)@.tev_colors,
                object.factory_name@,
                old(material)@.name,
                known(registry),
            ),
            ..old(material)@
        }),
{
    let name = material.name.clone();
    apply_enemy_tev_overrides(
        &mut material.tev_colors,
        name.as_str(),
        object.factory_name.as_str(),
        registry,
    );
}

/// The override of this object class and resource.
pub open spec fn overrides_model(factory: Seq<char>, resource: Seq<char>) -> spec_fn(
    MapObjModelOverrideDefinition,
) -> bool {
    |definition: MapObjModelOverrideDefinition|
        definition.factory_name@ == factory && definition.resource_name@ == resource
}

/// The selector program of this object class and resource.
pub open spec fn selects_color(factory: Seq<char>, resource: Seq<char>) -> spec_fn(
    MapObjStringTevProgram,
) -> bool {
    |program: MapObjStringTevProgram|
        program.factory_name@ == factory && program.resource_name@ == resource
}

/// The variant of this selector text.
pub open spec fn has_selector(selector: Seq<char>) -> spec_fn(MapObjStringTevVariant) -> bool {
    |variant: MapObjStringTevVariant| variant.selector_value@ == selector
}

/// The register colour that a model override brings.
pub open spec fn model_override_color(
    object: SceneObject,
    registry: Option<ObjectRegistry>,
) -> Option<MapObjTevColorDefinition> {
    match (registry, object.param("actor_tail_string"@)) {
        (Some(registry), Some(resource)) => match search::first_position(
            registry.map_obj_model_overrides@,
            overrides_model(object.factory_name@, resource),
        ) {
            Some(i) => registry.map_obj_model_overrides@[i].tev_color,
            None => None,
        },
        _ => None,
    }
}

/// The register colour that a model override brings.
pub fn map_obj_model_override_tev_color(
    object: &SceneObject,
    registry: Option<&ObjectRegistry>,
) -> (r: Option<MapObjTevColorDefinition>)
    ensures
        r == model_override_color(*object, known(registry)),
{
    let table = match registry {
        Some(table) => table,
        None => return None,
    };
    let resource = match object.raw_param("actor_tail_string") {
        Some(resource) => resource,
        None => return None,
    };
    let ghost p = overrides_model(object.factory_name@, resource@);
    let mut i: usize = 0;
    while i < table.map_obj_model_overrides.len()
        invariant
            i <= table.map_obj_model_overrides.len(),
            p == overrides_model(object.factory_name@, resource@),
            known(registry) == Some(*table),
            object.param("actor_tail_string"@) == Some(resource@),
            forall|j: int| 0 <= j < i ==> !p(#[trigger] table.map_obj_model_overrides@[j]),
        decreases table.map_obj_model_overrides.len() - i,
    {
        let definition = &table.map_obj_model_overrides[i];
        if text::same(definition.factory_name.as_str(), object.factory_name.as_str()) && text::same(
            definition.resource_name.as_str(),
            resource,
        ) {
            proof {
                search::lemma_found(table.map_obj_model_overrides@, p, i as int);
            }
            return definition.tev_color;
        }
        i += 1;
    }
    proof {
        search::lemma_not_found(table.map_obj_model_overrides@, p);
    }
    None
}

/// The text that selects a colour: the typed selector, or the raw stream text in older overlays.
pub open spec fn color_selector(object: SceneObject) -> Option<Seq<char>> {
    match object.param("nozzle_box_item"@) {
        Some(selector) => Some(selector),
        None => object.param("stream_string_1"@),
    }
}

/// The colour that a program gives for a selector; the default where no variant matches.
pub open spec fn selected_color(program: MapObjStringTevProgram, selector: Option<Seq<char>>) -> TevColor {
    match selector {
        Some(selector) => match search::first_position(
            program.variants@,
            has_selector(selector),
        ) {
            Some(i) => program.variants@[i].color,
            None => program.default_color,
        },
        None => program.default_color,
    }
}

/// The register colour that a selector text gives.
pub open spec fn string_color(object: SceneObject, registry: Option<ObjectRegistry>) -> Option<
    MapObjTevColorDefinition,
> {
    match (registry, object.param("actor_tail_string"@)) {
        (Some(registry), Some(resource)) => match search::first_position(
            registry.map_obj_string_tev_programs@,
            selects_color(object.factory_name@, resource),
        ) {
            Some(i) => {
                let program = registry.map_obj_string_tev_programs@[i];
                Some(
                    MapObjTevColorDefinition {
                        register: program.tev_register,
                        color: selected_color(program, color_selector(object)),
                    },
                )
            },
            None => None,
        },
        _ => None,
    }
}

fn variant_color(program: &MapObjStringTevProgram, object: &SceneObject) -> (r: TevColor)
    ensures
        r == selected_color(*program, color_selector(*object)),
{
    let selector = match object.raw_param("nozzle_box_item") {
        Some(selector) => selector,
        None => match object.raw_param("stream_string_1") {
            Some(selector) => selector,
            None => return program.default_color,
        },
    };
    let ghost p = has_selector(selector@);
    let mut i: usize = 0;
    while i < program.variants.len()
        invariant
            i <= program.variants.len(),
            p == has_selector(selector@),
            color_selector(*object) == Some(selector@),
            forall|j: int| 0 <= j < i ==> !p(#[trigger] program.variants@[j]),
        decreases program.variants.len() - i,
    {
        if text::same(program.variants[i].selector_value.as_str(), selector) {
            proof {
                search::lemma_found(program.variants@, p, i as int);
            }
            return program.variants[i].color;
        }
        i += 1;
    }
    proof {
        search::lemma_not_found(program.variants@, p);
    }
    program.default_color
}

/// The register colour that a selector text gives.
pub fn map_obj_string_tev_color(object: &SceneObject, registry: Option<&ObjectRegistry>) -> (r:
    Option<MapObjTevColorDefinition>)
    ensures
        r == string_color(*object, known(registry)),
{
    let table = match registry {
        Some(table) => table,
        None => return None,
    };
    let resource = match object.raw_param("actor_tail_string") {
        Some(resource) => resource,
        None => return None,
    };
    let ghost p = selects_color(object.factory_name@, resource@);
    let mut i: usize = 0;
    while i < table.map_obj_string_tev_programs.len()
        invariant
            i <= table.map_obj_string_tev_programs.len(),
            p == selects_color(object.factory_name@, resource@),
            known(registry) == Some(*table),
            object.param("actor_tail_string"@) == Some(resource@),
            forall|j: int| 0 <= j < i ==> !p(#[trigger] table.map_obj_string_tev_programs@[j]),
        decreases table.map_obj_string_tev_programs.len() - i,
    {
        let program = &table.map_obj_string_tev_programs[i];
        if text::same(program.factory_name.as_str(), object.factory_name.as_str()) && text::same(
            program.resource_name.as_str(),
            resource,
        ) {
            proof {
                search::lemma_found(table.map_obj_string_tev_programs@, p, i as int);
            }
            return Some(
                MapObjTevColorDefinition {
                    register: program.tev_register,
                    color: variant_color(program, object),
                },
            );
        }
        i += 1;
    }
    proof {
        search::lemma_not_found(table.map_obj_string_tev_programs@, p);
    }
    None
}

/// The enemy class of the definition is this one.
pub open spec fn is_enemy(factory: Seq<char>) -> spec_fn(EnemyMaterialColorDefinition) -> bool {
    |definition: EnemyMaterialColorDefinition| definition.factory_name@ == factory
}

/// Nothing recolours the object: its instances can share their materials.
pub open spec fn shares_materials(object: SceneObject, registry: Option<ObjectRegistry>) -> bool {
    &&& string_color(object, registry) is None
    &&& (registry matches Some(r) ==> search::first_position(
        r.npc_material_colors@,
        colors_root(object.factory_name@),
    ) is None)
    &&& initial_pollution(object, registry) is None
    &&& (registry matches Some(r) ==> search::first_position(
        r.enemy_material_colors@,
        is_enemy(object.factory_name@),
    ) is None)
    &&& model_override_color(object, registry) is None
}

/// A material with one register set; a register past the last is ignored.
pub open spec fn with_tev_color(
    material: MaterialView,
    color: Option<MapObjTevColorDefinition>,
) -> MaterialView {
    match color {
        Some(color) => if color.register < 4 {
            MaterialView {
                tev_colors: material.tev_colors.update(color.register as int, color.color),
                ..material
            }
        } else {
            material
        },
        None => material,
    }
}

/// A material with the goop tint, unless it is the eye material.
pub open spec fn with_pollution(material: MaterialView, color: Option<Rgba>) -> MaterialView {
    match color {
        Some(color) => if text::same_ignoring_case(material.name, "_eye_mat"@) {
            material
        } else {
            MaterialView { tev_k_colors: material.tev_k_colors.update(0, color), ..material }
        },
        None => material,
    }
}

/// The own copy of a material that a recoloured object draws with, at position `index`.
pub open spec fn object_material(
    material: MaterialView,
    index: usize,
    object: SceneObject,
    registry: Option<ObjectRegistry>,
) -> MaterialView {
    let tinted = with_pollution(
        with_tev_color(
            with_tev_color(
                MaterialView { material_index: index, ..material },
                string_color(object, registry),
            ),
            model_override_color(object, registry),
        ),
        initial_pollution(object, registry),
    );
    let colored = with_root_colors(tinted, object, registry);
    MaterialView {
        tev_colors: with_enemy_colors(
            colored.tev_colors,
            object.factory_name@,
            colored.name,
            registry,
        ),
        ..colored
    }
}

fn set_tev_color(material: &mut J3dMaterial, color: Option<MapObjTevColorDefinition>)
    ensures
        final(material)@ == with_tev_color(old(material)@, color),
{
    if let Some(color) = color {
        if color.register < 4 {
            material.tev_colors[color.register as usize] = color.color;
        }
    }
}

fn set_pollution(material: &mut J3dMaterial, color: Option<Rgba>)
    ensures
        final(material)@ == with_pollution(old(material)@, color),
{
    if let Some(color) = color {
        if !text::eq_ignoring_case(material.name.as_str(), "_eye_mat") {
            material.tev_k_colors[0] = color;
        }
    }
}

fn has_enemy_colors(registry: &ObjectRegistry, factory: &str) -> (r: bool)
    ensures
        r == (search::first_position(registry.enemy_material_colors@, is_enemy(factory@)) is Some),
{
    let mut i: usize = 0;
    while i < registry.enemy_material_colors.len()
        invariant
            i <= registry.enemy_material_colors.len(),
            forall|j: int|
                0 <= j < i ==> !is_enemy(factory@)(#[trigger] registry.enemy_material_colors@[j]),
        decreases registry.enemy_material_colors.len() - i,
    {
        if text::same(registry.enemy_material_colors[i].factory_name.as_str(), factory) {
            proof {
                search::lemma_found(registry.enemy_material_colors@, is_enemy(factory@), i as int);
            }
            return true;
        }
        i += 1;
    }
    proof {
        search::lemma_not_found(registry.enemy_material_colors@, is_enemy(factory@));
    }
    false
}

fn can_share_materials(object: &SceneObject, registry: Option<&ObjectRegistry>) -> (r: bool)
    ensures
        r == shares_materials(*object, known(registry)),
{
    let colored = match registry {
        Some(registry) => has_colors(registry, object.factory_name.as_str(), true)
            || has_enemy_colors(registry, object.factory_name.as_str()),
        None => false,
    };
    !colored && map_obj_string_tev_color(object, registry).is_none()
        && npc_initial_pollution_k_color(object, registry).is_none()
        && map_obj_model_override_tev_color(object, registry).is_none()
}

/// Gives an object its own copies of the model's materials where anything recolours it, and
/// returns where its materials begin.
pub fn push_object_preview_materials(
    materials: &mut Vec<J3dMaterial>,
    material_base: usize,
    material_count: usize,
    object: &SceneObject,
    registry: Option<&ObjectRegistry>,
) -> (r: usize)
    requires
        material_base + material_count <= old(materials)@.len(),
    ensures
        shares_materials(*object, known(registry)) ==> r == material_base && final(materials)@
            == old(materials)@,
        !shares_materials(*object, known(registry)) ==> r == old(materials)@.len()
            && preview::material_views(final(materials)@) == preview::material_views(
            old(materials)@,
        ) + Seq::new(
            material_count as nat,
            |i: int|
                object_material(
                    old(materials)@[material_base + i]@,
                    (old(materials)@.len() + i) as usize,
                    *object,
                    known(registry),
                ),
        ),
{
    if can_share_materials(object, registry) {
        return material_base;
    }
    let start: usize = materials.len();
    let ghost before = materials@;
    let ghost made = Seq::new(
        material_count as nat,
        |i: int|
            object_material(
                before[material_base + i]@,
                (before.len() + i) as usize,
                *object,
                known(registry),
            ),
    );
    let mut i: usize = 0;
    while i < material_count
        invariant
            i <= material_count,
            start == before.len(),
            material_base + material_count <= before.len(),
            materials@.len() == before.len() + i,
            forall|j: int| 0 <= j < before.len() ==> #[trigger] materials@[j] == before[j],
            made == Seq::new(
                material_count as nat,
                |i: int|
                    object_material(
                        before[material_base + i]@,
                        (before.len() + i) as usize,
                        *object,
                        known(registry),
                    ),
            ),
            preview::material_views(materials@) =~= preview::material_views(before) + made.take(
                i as int,
            ),
        decreases material_count - i,
    {
        let mut material = materials[material_base + i].duplicate();
        material.material_index = materials.len();
        set_tev_color(&mut material, map_obj_string_tev_color(object, registry));
        set_tev_color(&mut material, map_obj_model_override_tev_color(object, registry));
        set_pollution(&mut material, npc_initial_pollution_k_color(object, registry));
        apply_npc_root_material_colors(&mut material, object, registry);
        apply_enemy_material_colors(&mut material, object, registry);
        proof {
            assert(material@ == made[i as int]);
        }
        let ghost views = preview::material_views(materials@);
        materials.push(material);
        proof {
            assert(preview::material_views(materials@) =~= views.push(made[i as int]));
            assert(made.take(i + 1) =~= made.take(i as int).push(made[i as int]));
        }
        i += 1;
    }
    proof {
        assert(made.take(i as int) =~= made);
    }
    start
}

/// Recolouring an object never changes a material that was there before.
pub proof fn law_recoloring_keeps_earlier_materials(
    before: Seq<J3dMaterial>,
    after: Seq<J3dMaterial>,
    made: Seq<MaterialView>,
    i: int,
)
    requires
        preview::material_views(after) == preview::material_views(before) + made,
        0 <= i < before.len(),
    ensures
        after[i]@ == before[i]@,
{
    assert(after.len() == before.len() + made.len()) by {
        assert(preview::material_views(after).len() == after.len());
        assert((preview::material_views(before) + made).len() == before.len() + made.len());
    }
    assert(preview::material_views(after)[i] == preview::material_views(before)[i]);
}

/// The accessory of an NPC: where it hangs, which model it is and how it is coloured.
#[derive(Debug)]
pub struct NpcAccessorySpec<'a> {
    pub joint_name: &'a Option<String>,
    pub asset_suffix: String,
    pub color_index_channel: u8,
    pub color_changes: &'a Vec<NpcColorChangeDefinition>,
    pub uses_pollution: bool,
}

/// The colour index of an NPC's parts in a channel.
pub open spec fn parts_color_index(object: SceneObject, channel: nat) -> Option<usize> {
    object.index_param("npc_parts_color_index_"@ + text::decimal(channel))
}

/// The colour index of an NPC's parts in a channel.
pub fn npc_parts_color_index(object: &SceneObject, channel: usize) -> (r: Option<usize>)
    ensures
        r == parts_color_index(*object, channel as nat),
{
    let name = "npc_parts_color_index_".to_owned().concat(
        text::decimal_text(channel as u128).as_str(),
    );
    object.raw_index(name.as_str())
}

/// An accessory material after the first `n` colour changes.
pub open spec fn accessory_recolored(
    material: MaterialView,
    index: Option<usize>,
    changes: Seq<NpcColorChangeDefinition>,
    n: nat,
) -> MaterialView
    decreases n,
{
    if n == 0 {
        material
    } else {
        let rest = accessory_recolored(material, index, changes, (n - 1) as nat);
        match index {
            Some(index) => if text::same_ignoring_case(
                material.name,
                changes[n - 1].material_name@,
            ) {
                recolored(rest, changes[n - 1], index as int)
            } else {
                rest
            },
            None => rest,
        }
    }
}

/// An accessory material in the colours of its NPC.
pub open spec fn accessory_material(
    material: MaterialView,
    object: SceneObject,
    accessory: NpcAccessorySpec,
) -> MaterialView {
    let colored = accessory_recolored(
        material,
        parts_color_index(object, accessory.color_index_channel as nat),
        accessory.color_changes@,
        accessory.color_changes@.len(),
    );
    match pollution_color(object) {
        Some(color) => if accessory.uses_pollution {
            MaterialView { tev_k_colors: colored.tev_k_colors.update(0, color), ..colored }
        } else {
            colored
        },
        None => colored,
    }
}

/// Colours an accessory material.
pub fn apply_npc_accessory_material_color(
    material: &mut J3dMaterial,
    object: &SceneObject,
    accessory: &NpcAccessorySpec,
)
    ensures
        final(material)@ == accessory_material(old(material)@, *object, *accessory),
{
    let index = npc_parts_color_index(object, accessory.color_index_channel as usize);
    let name = material.name.clone();
    let mut i: usize = 0;
    while i < accessory.color_changes.len()
        invariant
            i <= accessory.color_changes.len(),
            name@ == old(material)@.name,
            material@ == accessory_recolored(
                old(material)@,
                index,
                accessory.color_changes@,
                i as nat,
            ),
        decreases accessory.color_changes.len() - i,
    {
        let change = &accessory.color_changes[i];
        if let Some(index) = index {
            if text::eq_ignoring_case(name.as_str(), change.material_name.as_str()) {
                apply_npc_color_change(material, change, index);
            }
        }
        i += 1;
    }
    if accessory.uses_pollution {
        if let Some(color) = npc_pollution_k_color(object) {
            material.tev_k_colors[0] = color;
        }
    }
}

/// Gives an accessory its own copies of its materials where anything recolours it, and returns
/// where its materials begin.
pub fn push_accessory_instance_materials(
    materials: &mut Vec<J3dMaterial>,
    material_base: usize,
    material_count: usize,
    object: &SceneObject,
    accessory: &NpcAccessorySpec,
) -> (r: usize)
    requires
        material_base + material_count <= old(materials)@.len(),
    ensures
        accessory.color_changes@.len() == 0 && !accessory.uses_pollution ==> r == material_base
            && final(materials)@ == old(materials)@,
        !(accessory.color_changes@.len() == 0 && !accessory.uses_pollution) ==> r
            == old(materials)@.len() && preview::material_views(final(materials)@)
            == preview::material_views(old(materials)@) + Seq::new(
            material_count as nat,
            |i: int|
                accessory_material(
                    (MaterialView {
                        material_index: (old(materials)@.len() + i) as usize,
                        ..old(materials)@[material_base + i]@
                    }),
                    *object,
                    *accessory,
                ),
        ),
{
    if accessory.color_changes.len() == 0 && !accessory.uses_pollution {
        return material_base;
    }
    let start: usize = materials.len();
    let ghost before = materials@;
    let ghost made = Seq::new(
        material_count as nat,
        |i: int|
            accessory_material(
                MaterialView {
                    material_index: (before.len() + i) as usize,
                    ..before[material_base + i]@
                },
                *object,
                *accessory,
            ),
    );
    let mut i: usize = 0;
    while i < material_count
        invariant
            i <= material_count,
            start == before.len(),
            material_base + material_count <= before.len(),
            materials@.len() == before.len() + i,
            forall|j: int| 0 <= j < before.len() ==> #[trigger] materials@[j] == before[j],
            made == Seq::new(
                material_count as nat,
                |i: int|
                    accessory_material(
                        (MaterialView {
                            material_index: (before.len() + i) as usize,
                            ..before[material_base + i]@
                        }),
                        *object,
                        *accessory,
                    ),
            ),
            preview::material_views(materials@) =~= preview::material_views(before) + made.take(
                i as int,
            ),
        decreases material_count - i,
    {
        let mut material = materials[material_base + i].duplicate();
        material.material_index = materials.len();
        apply_npc_accessory_material_color(&mut material, object, accessory);
        proof {
            assert(material@ == made[i as int]);
        }
        let ghost views = preview::material_views(materials@);
        materials.push(material);
        proof {
            assert(preview::material_views(materials@) =~= views.push(made[i as int]));
            assert(made.take(i + 1) =~= made.take(i as int).push(made[i as int]));
        }
        i += 1;
    }
    proof {
        assert(made.take(i as int) =~= made);
    }
    start
}

} // verus!
