//! What the presets of the material editor mean for the hardware.
use vstd::prelude::*;

use crate::asset_inspectors;
use crate::asset_inspectors::MaterialPreset;
use crate::gx;
use crate::gx::{
    GxColor, GxColorChannel, GxDefaults, GxTevInputs, GxView, ImportedAlphaMode, ModelMaterial,
};

verus! {

/// An opaque material neither blends nor tests its alpha nor skips the depth buffer, and hides its
/// back; what it draws with is kept.
pub proof fn law_opaque_materials_are_solid(gx: GxView, defaults: GxDefaults)
    ensures
        ({
            let solid = gx.opaque(defaults);
            &&& solid.material_mode == 1
            &&& solid.cull_mode == 2
            &&& solid.blend_mode.mode == 0
            &&& solid.blend_mode.source_factor == 1
            &&& solid.blend_mode.destination_factor == 0
            &&& solid.blend_mode.logic_operation == 3
            &&& solid.alpha_compare == defaults.alpha_compare
            &&& solid.depth_mode == defaults.depth_mode
            &&& solid.z_compare_location == 1
            &&& solid == (GxView {
                material_mode: solid.material_mode,
                cull_mode: solid.cull_mode,
                blend_mode: solid.blend_mode,
                alpha_compare: solid.alpha_compare,
                depth_mode: solid.depth_mode,
                z_compare_location: solid.z_compare_location,
                ..gx
            })
        }),
{
}

/// A blended material mixes by its alpha and tests the depth buffer without writing it; it shows
/// the sides that it showed before.
pub proof fn law_blended_materials_mix_by_alpha(gx: GxView, defaults: GxDefaults)
    ensures
        ({
            let mixed = gx.alpha_blended(defaults);
            &&& mixed.material_mode == 4
            &&& mixed.cull_mode == gx.cull_mode
            &&& mixed.blend_mode.mode == 1
            &&& mixed.blend_mode.source_factor == 4
            &&& mixed.blend_mode.destination_factor == 5
            &&& mixed.blend_mode.logic_operation == 3
            &&& mixed.alpha_compare == defaults.alpha_compare
            &&& mixed.depth_mode.update_enabled == 0
            &&& mixed.depth_mode.comparison_enabled == defaults.depth_mode.comparison_enabled
            &&& mixed.depth_mode.function == defaults.depth_mode.function
            &&& mixed.z_compare_location == 1
            &&& mixed == (GxView {
                material_mode: mixed.material_mode,
                blend_mode: mixed.blend_mode,
                alpha_compare: mixed.alpha_compare,
                depth_mode: mixed.depth_mode,
                z_compare_location: mixed.z_compare_location,
                ..gx
            })
        }),
{
}

/// The two presets undo each other but for the culling: an opaque material that was blended is
/// opaque, and a blended one that was opaque is blended.
pub proof fn law_the_last_preset_decides(gx: GxView, defaults: GxDefaults)
    ensures
        gx.alpha_blended(defaults).opaque(defaults) == gx.opaque(defaults),
        gx.opaque(defaults).alpha_blended(defaults) == (GxView {
            cull_mode: 2,
            ..gx.alpha_blended(defaults)
        }),
{
}

/// The first stage multiplies the texture with the lit colour, or takes the lit colour alone where
/// there is no texture, and so with alpha; the second adds the light of the second channel and
/// keeps the alpha.
pub proof fn law_stages_combine_texture_and_light(textured: bool, defaults: GxDefaults)
    ensures
        ({
            let order = gx::base_order(textured);
            let stage = gx::base_stage(textured, defaults);
            let light = gx::specular_stage(defaults);
            &&& order.color_channel == 4
            &&& textured ==> order.tex_coord == Some(0u8) && order.tex_map == Some(0u8)
            &&& !textured ==> order.tex_coord is None && order.tex_map is None
            &&& textured ==> stage.color_inputs == (GxTevInputs { a: 15, b: 8, c: 10, d: 15 })
                && stage.alpha_inputs == (GxTevInputs { a: 7, b: 4, c: 5, d: 7 })
            &&& !textured ==> stage.color_inputs == (GxTevInputs { a: 10, b: 15, c: 15, d: 15 })
                && stage.alpha_inputs == (GxTevInputs { a: 5, b: 7, c: 7, d: 7 })
            &&& stage.color_operation == defaults.tev_color_operation
            &&& stage.alpha_operation == defaults.tev_alpha_operation
            &&& light.color_inputs == (GxTevInputs { a: 15, b: 10, c: 12, d: 0 })
            &&& light.alpha_inputs == (GxTevInputs { a: 7, b: 7, c: 7, d: 0 })
            &&& light.color_operation == defaults.tev_color_operation
            &&& light.alpha_operation == defaults.tev_alpha_operation
            &&& gx::specular_order().color_channel == 5
            &&& gx::specular_order().tex_coord is None
            &&& gx::specular_order().tex_map is None
            &&& gx::plain_swap().raster_swap_table == 0
            &&& gx::plain_swap().texture_swap_table == 0
        }),
{
}

/// A lit material has a diffuse and a specular channel, white and black as the colours of the
/// second, and a second stage that adds it; its first stage is kept.
pub proof fn law_lit_materials_have_two_channels(gx: GxView, defaults: GxDefaults)
    requires
        gx.material_colors.len() == 2,
        gx.ambient_colors.len() == 2,
        gx.tev_orders.len() == 16,
        gx.tev_stages.len() == 16,
        gx.tev_swap_modes.len() == 16,
        gx.tev_konst_color_selectors.len() == 16,
        gx.tev_konst_alpha_selectors.len() == 16,
    ensures
        ({
            let lit = gx.lit(defaults);
            &&& lit.color_channel_count == 2
            &&& lit.tev_stage_count == 2
            &&& lit.color_channels.len() == 4
            &&& lit.color_channels[0] == Some(
                (GxColorChannel {
                    enable: 1,
                    material_source: 0,
                    light_mask: 1,
                    diffuse_function: 2,
                    attenuation_function: 1,
                    ambient_source: 0,
                }),
            )
            &&& lit.color_channels[1] == Some(defaults.color_channel)
            &&& lit.color_channels[2] == Some(
                (GxColorChannel {
                    enable: 1,
                    material_source: 0,
                    light_mask: 4,
                    diffuse_function: 1,
                    attenuation_function: 0,
                    ambient_source: 0,
                }),
            )
            &&& lit.color_channels[3] == Some(defaults.color_channel)
            &&& lit.material_colors[0] == gx.material_colors[0]
            &&& lit.ambient_colors[0] == gx.ambient_colors[0]
            &&& lit.material_colors[1] == Some((GxColor { r: 255, g: 255, b: 255, a: 255 }))
            &&& lit.ambient_colors[1] == Some((GxColor { r: 0, g: 0, b: 0, a: 0 }))
            &&& lit.tev_orders[0] == gx.tev_orders[0]
            &&& lit.tev_stages[0] == gx.tev_stages[0]
            &&& lit.tev_swap_modes[0] == gx.tev_swap_modes[0]
            &&& lit.tev_stages[1] is Some && lit.tev_orders[1] is Some
            &&& lit.tev_orders[1]->0.color_channel == 5
            &&& lit.tev_stages[1]->0.color_inputs.b == 10
            &&& lit.tev_stages[1]->0.color_inputs.d == 0
            &&& lit.tev_konst_color_selectors[1] == 0x0c
            &&& lit.tev_konst_alpha_selectors[1] == 0x1c
            &&& lit.blend_mode == gx.blend_mode
            &&& lit.depth_mode == gx.depth_mode
            &&& lit.cull_mode == gx.cull_mode
            &&& lit.tex_gen_count == gx.tex_gen_count
        }),
{
}

/// Switching the light off takes back what the light preset added, and of any other program only
/// the lights themselves.
pub proof fn law_unlit_materials_take_no_light(gx: GxView, textured: bool, defaults: GxDefaults, i: int)
    requires
        gx.color_channels.len() == 4,
        gx.material_colors.len() == 2,
        gx.ambient_colors.len() == 2,
        gx.tev_orders.len() == 16,
        gx.tev_stages.len() == 16,
        gx.tev_swap_modes.len() == 16,
        0 <= i < 4,
    ensures
        ({
            let dark = gx.unlit(textured, defaults);
            let had = gx::has_specular_stage(gx, textured, defaults);
            &&& had ==> dark.tev_stage_count == 1 && dark.color_channel_count == 1
                && dark.tev_stages[1] is None && dark.tev_orders[1] is None
                && dark.tev_swap_modes[1] is None && dark.material_colors[1] is None
                && dark.ambient_colors[1] is None
            &&& had ==> dark.color_channels[i] == (if i < 2 {
                Some(defaults.color_channel)
            } else {
                None
            })
            &&& !had ==> (match gx.color_channels[i] {
                Some(channel) => dark.color_channels[i] == Some(
                    (GxColorChannel { enable: 0, ..channel }),
                ),
                None => dark.color_channels[i] is None,
            })
            &&& dark.tev_stages[0] == gx.tev_stages[0]
            &&& dark.material_colors[0] == gx.material_colors[0]
            &&& dark.blend_mode == gx.blend_mode
        }),
{
}

/// An imported opaque material is doubtful where it is set to blend, leaves depth unwritten, or
/// shows a back that it did not have; one that was imported otherwise never is.
pub proof fn law_doubtful_materials_are_not_solid(material: ModelMaterial)
    ensures
        material.source_alpha_mode != ImportedAlphaMode::Opaque
            ==> !asset_inspectors::opacity_is_doubtful(material),
        material.source_alpha_mode == ImportedAlphaMode::Opaque ==> {
            &&& material.gx.blend_mode.mode != 0 ==> asset_inspectors::opacity_is_doubtful(material)
            &&& material.gx.depth_mode.update_enabled == 0 ==> asset_inspectors::opacity_is_doubtful(
                material,
            )
            &&& material.gx.cull_mode == 0 && !material.source_double_sided
                ==> asset_inspectors::opacity_is_doubtful(material)
            &&& material.gx.material_mode == 4 ==> asset_inspectors::opacity_is_doubtful(material)
            &&& material.gx.material_mode == 1 && material.gx.blend_mode.mode == 0
                && material.gx.depth_mode.update_enabled != 0 && (material.gx.cull_mode != 0
                || material.source_double_sided) ==> !asset_inspectors::opacity_is_doubtful(
                material,
            )
        },
{
    assert(4u8 & 4 == 4 && 1u8 & 4 == 0) by (bit_vector);
}

/// Each button of the material editor applies its own preset; the lit one only where it fits.
pub proof fn law_buttons_apply_their_preset(gx: GxView, textured: bool, defaults: GxDefaults)
    ensures
        asset_inspectors::preset_registers(MaterialPreset::Opaque, gx, textured, defaults)
            == gx.opaque(defaults),
        asset_inspectors::preset_registers(MaterialPreset::AlphaBlend, gx, textured, defaults)
            == gx.alpha_blended(defaults),
        asset_inspectors::preset_registers(MaterialPreset::Unlit, gx, textured, defaults)
            == gx.unlit(textured, defaults),
        gx::can_be_lit(gx, textured, defaults) ==> asset_inspectors::preset_registers(
            MaterialPreset::Lit,
            gx,
            textured,
            defaults,
        ) == gx.lit(defaults),
        !gx::can_be_lit(gx, textured, defaults) ==> asset_inspectors::preset_registers(
            MaterialPreset::Lit,
            gx,
            textured,
            defaults,
        ) == gx,
        ({
            let open = asset_inspectors::preset_registers(
                MaterialPreset::TwoSided,
                gx,
                textured,
                defaults,
            );
            open.cull_mode == 0 && open == (GxView { cull_mode: open.cull_mode, ..gx })
        }),
{
}

} // verus!
