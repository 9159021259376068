//! Which parameters and definitions give placed objects their colours and accessories.
use vstd::prelude::*;

use crate::npc_materials;
use crate::npc_materials::NpcAccessorySpec;
use crate::preview::{MaterialView, Rgba, TevColor};
use crate::preview_animations;
use crate::registry::{
    EnemyMaterialColorDefinition, MapObjStringTevProgram, NpcColorChangeDefinition,
    NpcMaterialColorDefinition, NpcPartDefinition, ObjectRegistry,
};
use crate::search;
use crate::stage;
use crate::stage::SceneObject;
use crate::text;

verus! {

/// The object's first parameter of this name has this value.
pub open spec fn gives(object: SceneObject, name: Seq<char>, value: Seq<char>) -> bool {
    exists|i: int|
        0 <= i < object.raw_params@.len() && (#[trigger] object.raw_params@[i]).name@ == name
            && object.raw_params@[i].value@ == value && forall|j: int|
            0 <= j < i ==> (#[trigger] object.raw_params@[j]).name@ != name
}

/// The object has no parameter of this name.
pub open spec fn lacks(object: SceneObject, name: Seq<char>) -> bool {
    forall|i: int|
        0 <= i < object.raw_params@.len() ==> (#[trigger] object.raw_params@[i]).name@ != name
}

proof fn lemma_gives(object: SceneObject, name: Seq<char>, value: Seq<char>)
    ensures
        gives(object, name, value) ==> object.param(name) == Some(value),
        lacks(object, name) ==> object.param(name) is None,
{
    let wanted = stage::has_param_name(name);
    search::lemma_first_position(object.raw_params@, wanted);
    if gives(object, name, value) {
        let i = choose|i: int|
            0 <= i < object.raw_params@.len() && (#[trigger] object.raw_params@[i]).name@ == name
                && object.raw_params@[i].value@ == value && forall|j: int|
                0 <= j < i ==> (#[trigger] object.raw_params@[j]).name@ != name;
        assert(wanted(object.raw_params@[i]));
        search::lemma_found(object.raw_params@, wanted, i);
    }
}

/// The body of an NPC takes the colour of its body parameter and its clothes that of its cloth
/// parameter; a negative number chooses none, and no other channel does.
pub proof fn law_body_and_clothes_have_their_own_colors(
    object: SceneObject,
    body: Seq<char>,
    cloth: Seq<char>,
    channel: int,
)
    ensures
        gives(object, "npc_body_color_index"@, body) ==> (match text::i32_value(body) {
            Some(n) => npc_materials::root_color_index(object, 0) == (if n >= 0 {
                Some(n as usize)
            } else {
                None
            }),
            None => npc_materials::root_color_index(object, 0) is None,
        }),
        gives(object, "npc_cloth_color_index"@, cloth) ==> (match text::i32_value(cloth) {
            Some(n) => npc_materials::root_color_index(object, 1) == (if n >= 0 {
                Some(n as usize)
            } else {
                None
            }),
            None => npc_materials::root_color_index(object, 1) is None,
        }),
        lacks(object, "npc_body_color_index"@) ==> npc_materials::root_color_index(
            object,
            0,
        ) is None,
        lacks(object, "npc_cloth_color_index"@) ==> npc_materials::root_color_index(
            object,
            1,
        ) is None,
        channel > 1 ==> npc_materials::root_color_index(object, channel) is None,
{
    lemma_gives(object, "npc_body_color_index"@, body);
    lemma_gives(object, "npc_cloth_color_index"@, cloth);
}

/// An accessory takes the colour of the parts parameter that carries the number of its channel.
pub proof fn law_parts_have_their_own_colors(object: SceneObject, channel: nat, value: Seq<char>)
    ensures
        gives(object, "npc_parts_color_index_"@ + text::decimal(channel), value) ==> (
        match text::i32_value(value) {
            Some(n) => npc_materials::parts_color_index(object, channel) == (if n >= 0 {
                Some(n as usize)
            } else {
                None
            }),
            None => npc_materials::parts_color_index(object, channel) is None,
        }),
{
    lemma_gives(object, "npc_parts_color_index_"@ + text::decimal(channel), value);
}

/// The goop on an NPC is a white tint as strong as its amount, between nothing and full; it goes
/// into the first constant colour of every material but the eyes.
pub proof fn law_goop_tints_all_but_the_eyes(
    object: SceneObject,
    value: Seq<char>,
    material: MaterialView,
)
    requires
        material.tev_k_colors.len() > 0,
    ensures
        gives(object, "npc_pollution_amount"@, value) ==> (match text::i32_value(value) {
            Some(n) => npc_materials::pollution_color(object) matches Some(color) && color.r == 255
                && color.g == 255 && color.b == 255 && 0 <= color.a <= 255 && (0 <= n <= 255
                ==> color.a == n) && (n < 0 ==> color.a == 0) && (n > 255 ==> color.a == 255),
            None => npc_materials::pollution_color(object) is None,
        }),
        npc_materials::pollution_color(object) matches Some(color) ==> {
            let tinted = npc_materials::with_pollution(material, Some(color));
            &&& text::lower(material.name) != text::lower("_eye_mat"@) ==> tinted.tev_k_colors[0]
                == color
            &&& text::lower(material.name) == text::lower("_eye_mat"@) ==> tinted == material
            &&& tinted.tev_colors == material.tev_colors
            &&& tinted.material_colors == material.material_colors
        },
{
    lemma_gives(object, "npc_pollution_amount"@, value);
}

/// What a colour change does to a material: mode 0 its material colour, mode 1 its first register,
/// mode 2 its second and third, each with the chosen colour; nothing else changes, and a colour
/// that the list lacks changes nothing.
pub proof fn law_color_changes_set_their_registers(
    material: MaterialView,
    change: NpcColorChangeDefinition,
    index: int,
)
    requires
        material.material_colors.len() >= 2,
        material.tev_colors.len() == 4,
        0 <= index,
    ensures
        ({
            let after = npc_materials::recolored(material, change, index);
            let first = index < change.colors0@.len();
            let second = index < change.colors1@.len();
            let color = change.colors0@[index];
            &&& after.name == material.name
            &&& after.texture_indices == material.texture_indices
            &&& after.tev_k_colors == material.tev_k_colors
            &&& after.material_index == material.material_index
            &&& after.material_colors.len() == material.material_colors.len()
            &&& after.tev_colors.len() == 4
            &&& after.material_colors[1] == material.material_colors[1]
            &&& after.tev_colors[3] == material.tev_colors[3]
            &&& change.mode != 0 || !first ==> after.material_colors == material.material_colors
            &&& change.mode == 0 && first ==> after.material_colors[0] == (Rgba {
                r: color.r as u8,
                g: color.g as u8,
                b: color.b as u8,
                a: color.a as u8,
            })
            &&& change.mode == 1 && first ==> after.tev_colors[0] == color
            &&& change.mode != 1 || !first ==> after.tev_colors[0] == material.tev_colors[0]
            &&& change.mode == 2 && first ==> after.tev_colors[1] == color
            &&& change.mode != 2 || !first ==> after.tev_colors[1] == material.tev_colors[1]
            &&& change.mode == 2 && second ==> after.tev_colors[2] == change.colors1@[index]
            &&& change.mode != 2 || !second ==> after.tev_colors[2] == material.tev_colors[2]
        }),
{
}

/// A definition of an NPC's class for its own model recolours the material of its name, up to
/// case, with the colour that the NPC's parameter of the definition's channel chooses. No other
/// definition does.
pub proof fn law_npcs_wear_the_chosen_colors(
    material: MaterialView,
    object: SceneObject,
    definitions: Seq<NpcMaterialColorDefinition>,
    n: nat,
)
    requires
        0 < n <= definitions.len(),
    ensures
        ({
            let definition = definitions[n - 1];
            let before = npc_materials::root_recolored(
                material,
                object,
                definitions,
                (n - 1) as nat,
            );
            let after = npc_materials::root_recolored(material, object, definitions, n);
            let applies = definition.factory_name@ == object.factory_name@
                && definition.model_index == 0 && text::lower(material.name) == text::lower(
                definition.change.material_name@,
            );
            let index = if definition.color_index_channel == 0 {
                object.index_param("npc_body_color_index"@)
            } else if definition.color_index_channel == 1 {
                object.index_param("npc_cloth_color_index"@)
            } else {
                None
            };
            &&& !applies || index is None ==> after == before
            &&& applies && index is Some ==> after == npc_materials::recolored(
                before,
                definition.change,
                index->0 as int,
            )
        }),
{
}

/// A definition of an enemy's class for a material sets one of its four registers, and of that
/// register the components that it names.
pub proof fn law_enemies_set_their_registers(
    registers: Seq<TevColor>,
    factory: Seq<char>,
    material: Seq<char>,
    definitions: Seq<EnemyMaterialColorDefinition>,
    n: nat,
    i: int,
)
    requires
        registers.len() == 4,
        0 < n <= definitions.len(),
        0 <= i < 4,
    ensures
        ({
            let definition = definitions[n - 1];
            let before = npc_materials::enemy_registers(
                registers,
                factory,
                material,
                definitions,
                (n - 1) as nat,
            );
            let after = npc_materials::enemy_registers(
                registers,
                factory,
                material,
                definitions,
                n,
            );
            let applies = definition.factory_name@ == factory && text::lower(
                definition.material_name@,
            ) == text::lower(material) && definition.tev_register == i;
            &&& before.len() == 4
            &&& after.len() == 4
            &&& !applies ==> after[i] == before[i]
            &&& applies ==> {
                &&& after[i].r == (match definition.color@[0] {
                    Some(v) => v,
                    None => before[i].r,
                })
                &&& after[i].g == (match definition.color@[1] {
                    Some(v) => v,
                    None => before[i].g,
                })
                &&& after[i].b == (match definition.color@[2] {
                    Some(v) => v,
                    None => before[i].b,
                })
                &&& after[i].a == (match definition.color@[3] {
                    Some(v) => v,
                    None => before[i].a,
                })
            }
        }),
    decreases n,
{
    if n > 1 {
        law_enemies_set_their_registers(
            registers,
            factory,
            material,
            definitions,
            (n - 1) as nat,
            i,
        );
    } else {
        assert(npc_materials::enemy_registers(registers, factory, material, definitions, 0)
            == registers);
    }
    let before = npc_materials::enemy_registers(
        registers,
        factory,
        material,
        definitions,
        (n - 1) as nat,
    );
    let after = npc_materials::enemy_registers(registers, factory, material, definitions, n);
    let definition = definitions[n - 1];
    assert(before.len() == 4);
    if npc_materials::overrides(definition, factory, material) && definition.tev_register < 4 {
        let at = definition.tev_register as int;
        assert(after == before.update(
            at,
            npc_materials::overridden(before[at], definition.color@),
        ));
    } else {
        assert(after == before);
    }
}

/// A map object is coloured by the text of its typed selector, where it has one, else by the raw
/// text of the stream; a text without a variant, or none, gives the default colour.
pub proof fn law_selectors_choose_colors(
    object: SceneObject,
    program: MapObjStringTevProgram,
    typed: Seq<char>,
    raw: Seq<char>,
    v: int,
)
    ensures
        gives(object, "nozzle_box_item"@, typed) ==> npc_materials::color_selector(object) == Some(
            typed,
        ),
        lacks(object, "nozzle_box_item"@) && gives(object, "stream_string_1"@, raw)
            ==> npc_materials::color_selector(object) == Some(raw),
        lacks(object, "nozzle_box_item"@) && lacks(object, "stream_string_1"@)
            ==> npc_materials::selected_color(program, npc_materials::color_selector(object))
            == program.default_color,
        0 <= v < program.variants@.len() && program.variants@[v].selector_value@ == typed && (
        forall|j: int|
            0 <= j < v ==> (#[trigger] program.variants@[j]).selector_value@ != typed)
            ==> npc_materials::selected_color(program, Some(typed)) == program.variants@[v].color,
        (forall|j: int|
            0 <= j < program.variants@.len() ==> (
            #[trigger] program.variants@[j]).selector_value@ != typed)
            ==> npc_materials::selected_color(program, Some(typed)) == program.default_color,
{
    lemma_gives(object, "nozzle_box_item"@, typed);
    lemma_gives(object, "stream_string_1"@, raw);
    let wanted = npc_materials::has_selector(typed);
    search::lemma_first_position(program.variants@, wanted);
    if 0 <= v < program.variants@.len() && program.variants@[v].selector_value@ == typed {
        assert(wanted(program.variants@[v]));
    }
}

/// Where a class and a resource have a colour program or a model override, their register colour
/// is that of the first one for exactly this class and resource.
pub proof fn law_map_objects_find_their_colors(
    object: SceneObject,
    registry: ObjectRegistry,
    resource: Seq<char>,
    p: int,
    o: int,
)
    requires
        gives(object, "actor_tail_string"@, resource),
    ensures
        0 <= p < registry.map_obj_string_tev_programs@.len()
            && registry.map_obj_string_tev_programs@[p].factory_name@ == object.factory_name@
            && registry.map_obj_string_tev_programs@[p].resource_name@ == resource && (forall|j: int|
            0 <= j < p ==> ((#[trigger] registry.map_obj_string_tev_programs@[j]).factory_name@
                != object.factory_name@ || registry.map_obj_string_tev_programs@[j].resource_name@
                != resource)) ==> (npc_materials::string_color(object, Some(registry)) matches Some(
            color,
        ) && color.register == registry.map_obj_string_tev_programs@[p].tev_register && color.color
            == npc_materials::selected_color(
            registry.map_obj_string_tev_programs@[p],
            npc_materials::color_selector(object),
        )),
        0 <= o < registry.map_obj_model_overrides@.len()
            && registry.map_obj_model_overrides@[o].factory_name@ == object.factory_name@
            && registry.map_obj_model_overrides@[o].resource_name@ == resource && (forall|j: int|
            0 <= j < o ==> ((#[trigger] registry.map_obj_model_overrides@[j]).factory_name@
                != object.factory_name@ || registry.map_obj_model_overrides@[j].resource_name@
                != resource)) ==> npc_materials::model_override_color(object, Some(registry))
            == registry.map_obj_model_overrides@[o].tev_color,
{
    lemma_gives(object, "actor_tail_string"@, resource);
    let programs = registry.map_obj_string_tev_programs@;
    let selects = npc_materials::selects_color(object.factory_name@, resource);
    search::lemma_first_position(programs, selects);
    if 0 <= p < programs.len() && programs[p].factory_name@ == object.factory_name@
        && programs[p].resource_name@ == resource {
        assert(selects(programs[p]));
    }
    let list = registry.map_obj_model_overrides@;
    let overrides = npc_materials::overrides_model(object.factory_name@, resource);
    search::lemma_first_position(list, overrides);
    if 0 <= o < list.len() && list[o].factory_name@ == object.factory_name@
        && list[o].resource_name@ == resource {
        assert(overrides(list[o]));
    }
}

/// The own copy of a material that a recoloured object draws with stands at its own place in the
/// list and differs from the shared one in its colours alone.
pub proof fn law_recolored_copies_keep_the_rest(
    material: MaterialView,
    index: usize,
    object: SceneObject,
    registry: ObjectRegistry,
    n: nat,
)
    requires
        n <= registry.npc_material_colors@.len(),
    ensures
        ({
            let root = npc_materials::root_recolored(
                material,
                object,
                registry.npc_material_colors@,
                n,
            );
            &&& root.name == material.name
            &&& root.material_index == material.material_index
            &&& root.material_id == material.material_id
            &&& root.texture_indices == material.texture_indices
            &&& root.cull_mode == material.cull_mode
            &&& root.alpha_compare == material.alpha_compare
            &&& root.blend_mode == material.blend_mode
            &&& root.z_mode == material.z_mode
            &&& root.z_comp_loc == material.z_comp_loc
        }),
        n == registry.npc_material_colors@.len() ==> ({
            let copy = npc_materials::object_material(material, index, object, Some(registry));
            &&& copy.material_index == index
            &&& copy.name == material.name
            &&& copy.material_id == material.material_id
            &&& copy.texture_indices == material.texture_indices
            &&& copy.cull_mode == material.cull_mode
            &&& copy.alpha_compare == material.alpha_compare
            &&& copy.blend_mode == material.blend_mode
            &&& copy.z_mode == material.z_mode
            &&& copy.z_comp_loc == material.z_comp_loc
        }),
    decreases n,
{
    if n > 0 {
        law_recolored_copies_keep_the_rest(material, index, object, registry, (n - 1) as nat);
    }
    if n == registry.npc_material_colors@.len() {
        let tinted = npc_materials::with_pollution(
            npc_materials::with_tev_color(
                npc_materials::with_tev_color(
                    MaterialView { material_index: index, ..material },
                    npc_materials::string_color(object, Some(registry)),
                ),
                npc_materials::model_override_color(object, Some(registry)),
            ),
            npc_materials::initial_pollution(object, Some(registry)),
        );
        lemma_root_keeps(tinted, object, registry, n);
    }
}

proof fn lemma_root_keeps(
    material: MaterialView,
    object: SceneObject,
    registry: ObjectRegistry,
    n: nat,
)
    requires
        n <= registry.npc_material_colors@.len(),
    ensures
        ({
            let root = npc_materials::root_recolored(
                material,
                object,
                registry.npc_material_colors@,
                n,
            );
            &&& root.name == material.name
            &&& root.material_index == material.material_index
            &&& root.material_id == material.material_id
            &&& root.texture_indices == material.texture_indices
            &&& root.cull_mode == material.cull_mode
            &&& root.alpha_compare == material.alpha_compare
            &&& root.blend_mode == material.blend_mode
            &&& root.z_mode == material.z_mode
            &&& root.z_comp_loc == material.z_comp_loc
        }),
    decreases n,
{
    if n > 0 {
        lemma_root_keeps(material, object, registry, (n - 1) as nat);
    }
}

/// The accessories of an NPC are exactly the models of the parts whose bit is set in its mask, in
/// the order of the parts: each is looked for by its lower-case name, hangs on the joint of its
/// model, and takes channel, colours and goop from its part.
pub proof fn law_accessories_follow_the_mask(
    parts: Seq<NpcPartDefinition>,
    mask: u32,
    n: nat,
    k: int,
    m: int,
)
    requires
        0 <= k < n <= parts.len(),
        0 <= m < parts[k].models@.len(),
        parts[k].bit_index < 32,
        (mask >> (parts[k].bit_index as u32)) & 1 == 1,
    ensures
        exists|i: int|
            0 <= i < preview_animations::accessories_of(parts, mask, n).len() && ({
                let worn = #[trigger] preview_animations::accessories_of(parts, mask, n)[i];
                &&& worn.asset_suffix == "/"@ + text::lower(parts[k].models@[m].model_name@)
                &&& worn.joint_name == parts[k].models@[m].joint_name
                &&& worn.color_index_channel == parts[k].color_index_channel
                &&& worn.color_changes == parts[k].color_changes
                &&& worn.uses_pollution == parts[k].uses_pollution
            }),
    decreases n,
{
    let all = preview_animations::accessories_of(parts, mask, n);
    let rest = preview_animations::accessories_of(parts, mask, (n - 1) as nat);
    if k < n - 1 {
        law_accessories_follow_the_mask(parts, mask, (n - 1) as nat, k, m);
        let i = choose|i: int|
            0 <= i < rest.len() && ({
                let worn = #[trigger] rest[i];
                &&& worn.asset_suffix == "/"@ + text::lower(parts[k].models@[m].model_name@)
                &&& worn.joint_name == parts[k].models@[m].joint_name
                &&& worn.color_index_channel == parts[k].color_index_channel
                &&& worn.color_changes == parts[k].color_changes
                &&& worn.uses_pollution == parts[k].uses_pollution
            });
        assert(all[i] == rest[i]);
    } else {
        lemma_bit(mask, parts[k].bit_index);
        assert(all[rest.len() + m] == preview_animations::part_accessories(
            parts[k],
            parts[k].models@.len(),
        )[m]);
    }
}

proof fn lemma_bit(mask: u32, bit: u8)
    requires
        bit < 32,
    ensures
        (mask & (1u32 << bit) != 0) <==> (mask >> (bit as u32)) & 1 == 1,
{
    assert(bit < 32 ==> ((mask & (1u32 << bit) != 0) <==> (mask >> (bit as u32)) & 1 == 1))
        by (bit_vector);
}

/// Whatever an NPC wears belongs to a part whose bit is set in its mask.
pub proof fn law_nothing_else_is_worn(parts: Seq<NpcPartDefinition>, mask: u32, n: nat, i: int)
    requires
        n <= parts.len(),
        preview_animations::parts_have_bits(parts),
        0 <= i < preview_animations::accessories_of(parts, mask, n).len(),
    ensures
        exists|k: int, m: int|
            #![trigger parts[k].models@[m]]
            0 <= k < n && 0 <= m < parts[k].models@.len() && (mask >> (parts[k].bit_index as u32))
                & 1 == 1 && preview_animations::accessories_of(parts, mask, n)[i].asset_suffix
                == "/"@ + text::lower(parts[k].models@[m].model_name@)
                && preview_animations::accessories_of(parts, mask, n)[i].joint_name
                == parts[k].models@[m].joint_name,
    decreases n,
{
    let rest = preview_animations::accessories_of(parts, mask, (n - 1) as nat);
    if i < rest.len() {
        law_nothing_else_is_worn(parts, mask, (n - 1) as nat, i);
        let (k, m) = choose|k: int, m: int|
            #![trigger parts[k].models@[m]]
            0 <= k < n - 1 && 0 <= m < parts[k].models@.len() && (mask >> (
            parts[k].bit_index as u32)) & 1 == 1 && rest[i].asset_suffix == "/"@ + text::lower(
                parts[k].models@[m].model_name@,
            ) && rest[i].joint_name == parts[k].models@[m].joint_name;
        assert(parts[k].models@[m].joint_name == rest[i].joint_name);
    } else {
        lemma_bit(mask, parts[n - 1].bit_index);
        let m = i - rest.len();
        assert(parts[n - 1].models@[m].joint_name == preview_animations::part_accessories(
            parts[n - 1],
            parts[n - 1].models@.len(),
        )[m].joint_name);
    }
}

/// An accessory that takes goop is tinted like its NPC, one that does not is not; its own colour
/// changes go by the colour of its channel.
pub proof fn law_accessories_are_colored_like_their_npc(
    material: MaterialView,
    object: SceneObject,
    accessory: NpcAccessorySpec,
)
    requires
        accessory.color_changes@.len() == 0,
        material.tev_k_colors.len() > 0,
    ensures
        !accessory.uses_pollution || npc_materials::pollution_color(object) is None
            ==> npc_materials::accessory_material(material, object, accessory) == material,
        accessory.uses_pollution && npc_materials::pollution_color(object) is Some
            ==> npc_materials::accessory_material(material, object, accessory).tev_k_colors[0]
            == npc_materials::pollution_color(object)->0,
{
}

/// The last colour change of an accessory for a material sets the colour that the NPC's parts
/// parameter of the accessory's channel chooses.
pub proof fn law_accessory_colors_go_by_their_channel(
    material: MaterialView,
    index: usize,
    changes: Seq<NpcColorChangeDefinition>,
    n: nat,
)
    requires
        0 < n <= changes.len(),
    ensures
        text::lower(material.name) == text::lower(changes[n - 1].material_name@)
            ==> npc_materials::accessory_recolored(material, Some(index), changes, n)
            == npc_materials::recolored(
            npc_materials::accessory_recolored(material, Some(index), changes, (n - 1) as nat),
            changes[n - 1],
            index as int,
        ),
        text::lower(material.name) != text::lower(changes[n - 1].material_name@)
            ==> npc_materials::accessory_recolored(material, Some(index), changes, n)
            == npc_materials::accessory_recolored(
            material,
            Some(index),
            changes,
            (n - 1) as nat,
        ),
{
}

/// A register colour goes into the register that it names; one past the fourth is ignored.
pub proof fn law_register_colors_go_where_they_name(
    material: MaterialView,
    color: crate::registry::MapObjTevColorDefinition,
    i: int,
)
    requires
        material.tev_colors.len() == 4,
        0 <= i < 4,
    ensures
        npc_materials::with_tev_color(material, Some(color)).tev_colors[i] == (if color.register
            == i {
            color.color
        } else {
            material.tev_colors[i]
        }),
        npc_materials::with_tev_color(material, None) == material,
{
}

} // verus!
