//! GX material presets.
//!
//! The neutral state of each register block belongs to the material format and comes in as
//! `GxDefaults`; a preset says which blocks it touches and what it writes there.
use vstd::prelude::*;

verus! {

#[derive(Debug, Clone, Copy, PartialEq, Eq, Structural)]
pub struct GxColor {
    pub r: u8,
    pub g: u8,
    pub b: u8,
    pub a: u8,
}

#[derive(Debug, Clone, Copy, PartialEq, Eq, Structural)]
pub struct GxAlphaCompare {
    pub comparison_0: u8,
    pub reference_0: u8,
    pub operation: u8,
    pub comparison_1: u8,
    pub reference_1: u8,
}

#[derive(Debug, Clone, Copy, PartialEq, Eq, Structural)]
pub struct GxBlendMode {
    pub mode: u8,
    pub source_factor: u8,
    pub destination_factor: u8,
    pub logic_operation: u8,
}

#[derive(Debug, Clone, Copy, PartialEq, Eq, Structural)]
pub struct GxDepthMode {
    pub comparison_enabled: u8,
    pub function: u8,
    pub update_enabled: u8,
}

#[derive(Debug, Clone, Copy, PartialEq, Eq, Structural)]
pub struct GxColorChannel {
    pub enable: u8,
    pub material_source: u8,
    pub light_mask: u8,
    pub diffuse_function: u8,
    pub attenuation_function: u8,
    pub ambient_source: u8,
}

#[derive(Debug, Clone, Copy, PartialEq, Eq, Structural)]
pub struct GxTevOrder {
    pub tex_coord: Option<u8>,
    pub tex_map: Option<u8>,
    pub color_channel: u8,
}

/// The four inputs of a TEV combiner.
#[derive(Debug, Clone, Copy, PartialEq, Eq, Structural)]
pub struct GxTevInputs {
    pub a: u8,
    pub b: u8,
    pub c: u8,
    pub d: u8,
}

/// Operation, bias, scale, clamp and destination register of a TEV combiner.
#[derive(Debug, Clone, Copy, PartialEq, Eq, Structural)]
pub struct GxTevOperation {
    pub operation: u8,
    pub bias: u8,
    pub scale: u8,
    pub clamp: u8,
    pub register: u8,
}

#[derive(Debug, Clone, Copy, PartialEq, Eq, Structural)]
pub struct GxTevStage {
    pub color_inputs: GxTevInputs,
    pub color_operation: GxTevOperation,
    pub alpha_inputs: GxTevInputs,
    pub alpha_operation: GxTevOperation,
}

#[derive(Debug, Clone, Copy, PartialEq, Eq, Structural)]
pub struct GxTevSwapMode {
    pub raster_swap_table: u8,
    pub texture_swap_table: u8,
}

/// The neutral register blocks of the material format.
#[derive(Debug, Clone, Copy, PartialEq, Eq, Structural)]
pub struct GxDefaults {
    pub alpha_compare: GxAlphaCompare,
    pub depth_mode: GxDepthMode,
    pub color_channel: GxColorChannel,
    pub tev_color_operation: GxTevOperation,
    pub tev_alpha_operation: GxTevOperation,
}

/// The register state of a material.
#[derive(Debug, Clone, PartialEq, Eq)]
pub struct GxMaterial {
    pub name: String,
    pub material_mode: u8,
    pub cull_mode: u8,
    pub alpha_compare: GxAlphaCompare,
    pub blend_mode: GxBlendMode,
    pub depth_mode: GxDepthMode,
    pub z_compare_location: u8,
    pub tex_gen_count: u8,
    pub color_channel_count: u8,
    pub color_channels: [Option<GxColorChannel>; 4],
    pub material_colors: [Option<GxColor>; 2],
    pub ambient_colors: [Option<GxColor>; 2],
    pub tev_stage_count: u8,
    pub tev_orders: [Option<GxTevOrder>; 16],
    pub tev_stages: [Option<GxTevStage>; 16],
    pub tev_swap_modes: [Option<GxTevSwapMode>; 16],
    pub tev_konst_color_selectors: [u8; 16],
    pub tev_konst_alpha_selectors: [u8; 16],
}

/// The abstract value of a material's register state.
#[verifier::ext_equal]
pub struct GxView {
    pub name: Seq<char>,
    pub material_mode: u8,
    pub cull_mode: u8,
    pub alpha_compare: GxAlphaCompare,
    pub blend_mode: GxBlendMode,
    pub depth_mode: GxDepthMode,
    pub z_compare_location: u8,
    pub tex_gen_count: u8,
    pub color_channel_count: u8,
    pub color_channels: Seq<Option<GxColorChannel>>,
    pub material_colors: Seq<Option<GxColor>>,
    pub ambient_colors: Seq<Option<GxColor>>,
    pub tev_stage_count: u8,
    pub tev_orders: Seq<Option<GxTevOrder>>,
    pub tev_stages: Seq<Option<GxTevStage>>,
    pub tev_swap_modes: Seq<Option<GxTevSwapMode>>,
    pub tev_konst_color_selectors: Seq<u8>,
    pub tev_konst_alpha_selectors: Seq<u8>,
}

impl View for GxMaterial {
    type V = GxView;

    open spec fn view(&self) -> GxView {
        GxView {
            name: self.name@,
            material_mode: self.material_mode,
            cull_mode: self.cull_mode,
            alpha_compare: self.alpha_compare,
            blend_mode: self.blend_mode,
            depth_mode: self.depth_mode,
            z_compare_location: self.z_compare_location,
            tex_gen_count: self.tex_gen_count,
            color_channel_count: self.color_channel_count,
            color_channels: self.color_channels@,
            material_colors: self.material_colors@,
            ambient_colors: self.ambient_colors@,
            tev_stage_count: self.tev_stage_count,
            tev_orders: self.tev_orders@,
            tev_stages: self.tev_stages@,
            tev_swap_modes: self.tev_swap_modes@,
            tev_konst_color_selectors: self.tev_konst_color_selectors@,
            tev_konst_alpha_selectors: self.tev_konst_alpha_selectors@,
        }
    }
}

/// How the imported material treats alpha.
#[derive(Debug, Clone, Copy, PartialEq, Eq, Structural)]
pub enum ImportedAlphaMode {
    Opaque,
    Mask,
    Blend,
}

/// A material of an authored model.
#[derive(Debug, Clone)]
pub struct ModelMaterial {
    pub gx: GxMaterial,
    pub base_color_texture: Option<usize>,
    pub source_double_sided: bool,
    pub source_alpha_mode: ImportedAlphaMode,
}

impl GxView {
    /// Solid rendering: back-face culling, no blending, neutral depth test and writes.
    pub open spec fn opaque(self, defaults: GxDefaults) -> GxView {
        GxView {
            material_mode: 1,
            cull_mode: 2,
            alpha_compare: defaults.alpha_compare,
            blend_mode: GxBlendMode {
                mode: 0,
                source_factor: 1,
                destination_factor: 0,
                logic_operation: 3,
            },
            depth_mode: defaults.depth_mode,
            z_compare_location: 1,
            ..self
        }
    }

    /// Source-alpha blending without depth writes; culling stays.
    pub open spec fn alpha_blended(self, defaults: GxDefaults) -> GxView {
        GxView {
            material_mode: 4,
            alpha_compare: defaults.alpha_compare,
            blend_mode: GxBlendMode {
                mode: 1,
                source_factor: 4,
                destination_factor: 5,
                logic_operation: 3,
            },
            depth_mode: GxDepthMode { update_enabled: 0, ..defaults.depth_mode },
            z_compare_location: 1,
            ..self
        }
    }
}

/// Makes a material solid, in the mode word and in the explicit blocks alike.
pub fn apply_opaque_material_preset(material: &mut GxMaterial, defaults: &GxDefaults)
    ensures
        final(material)@ == old(material)@.opaque(*defaults),
{
    material.material_mode = 1;
    material.cull_mode = 2;
    material.alpha_compare = defaults.alpha_compare;
    material.blend_mode = GxBlendMode {
        mode: 0,
        source_factor: 1,
        destination_factor: 0,
        logic_operation: 3,
    };
    material.depth_mode = defaults.depth_mode;
    material.z_compare_location = 1;
}

/// Makes a material blend by its alpha without writing depth.
pub fn apply_alpha_blend_material_preset(material: &mut GxMaterial, defaults: &GxDefaults)
    ensures
        final(material)@ == old(material)@.alpha_blended(*defaults),
{
    material.material_mode = 4;
    material.alpha_compare = defaults.alpha_compare;
    material.blend_mode = GxBlendMode {
        mode: 1,
        source_factor: 4,
        destination_factor: 5,
        logic_operation: 3,
    };
    material.depth_mode = GxDepthMode {
        comparison_enabled: defaults.depth_mode.comparison_enabled,
        function: defaults.depth_mode.function,
        update_enabled: 0,
    };
    material.z_compare_location = 1;
}

/// The order of the one stage of a conservative material.
pub open spec fn base_order(textured: bool) -> GxTevOrder {
    GxTevOrder {
        tex_coord: if textured {
            Some(0u8)
        } else {
            None
        },
        tex_map: if textured {
            Some(0u8)
        } else {
            None
        },
        color_channel: 4,
    }
}

/// The one stage of a conservative material: texture times raster colour, or raster colour alone.
pub open spec fn base_stage(textured: bool, defaults: GxDefaults) -> GxTevStage {
    GxTevStage {
        color_inputs: if textured {
            GxTevInputs { a: 15, b: 8, c: 10, d: 15 }
        } else {
            GxTevInputs { a: 10, b: 15, c: 15, d: 15 }
        },
        color_operation: defaults.tev_color_operation,
        alpha_inputs: if textured {
            GxTevInputs { a: 7, b: 4, c: 5, d: 7 }
        } else {
            GxTevInputs { a: 5, b: 7, c: 7, d: 7 }
        },
        alpha_operation: defaults.tev_alpha_operation,
    }
}

/// No channel swap.
pub open spec fn plain_swap() -> GxTevSwapMode {
    GxTevSwapMode { raster_swap_table: 0, texture_swap_table: 0 }
}

/// The order of the specular stage.
pub open spec fn specular_order() -> GxTevOrder {
    GxTevOrder { tex_coord: None, tex_map: None, color_channel: 5 }
}

/// The specular stage: the previous colour plus the whole secondary raster channel.
pub open spec fn specular_stage(defaults: GxDefaults) -> GxTevStage {
    GxTevStage {
        color_inputs: GxTevInputs { a: 15, b: 10, c: 12, d: 0 },
        color_operation: defaults.tev_color_operation,
        alpha_inputs: GxTevInputs { a: 7, b: 7, c: 7, d: 0 },
        alpha_operation: defaults.tev_alpha_operation,
    }
}

/// The first stage is the one that the importer writes.
pub open spec fn has_base_program(gx: GxView, textured: bool, defaults: GxDefaults) -> bool {
    gx.tev_orders[0] == Some(base_order(textured)) && gx.tev_stages[0] == Some(
        base_stage(textured, defaults),
    ) && gx.tev_swap_modes[0] == Some(plain_swap())
}

/// The material is the importer's, with the preset's specular stage as its second.
pub open spec fn has_specular_stage(gx: GxView, textured: bool, defaults: GxDefaults) -> bool {
    gx.tev_stage_count == 2 && has_base_program(gx, textured, defaults) && gx.tev_orders[1] == Some(
        specular_order(),
    ) && gx.tev_stages[1] == Some(specular_stage(defaults)) && gx.tev_swap_modes[1] == Some(
        plain_swap(),
    )
}

/// The second stage and the secondary colours are unused.
pub open spec fn has_free_second_stage(gx: GxView) -> bool {
    gx.tev_stage_count == 1 && gx.tev_orders[1] is None && gx.tev_stages[1] is None
        && gx.tev_swap_modes[1] is None && gx.material_colors[1] is None
        && gx.ambient_colors[1] is None
}

/// The lit preset applies.
pub open spec fn can_be_lit(gx: GxView, textured: bool, defaults: GxDefaults) -> bool {
    has_base_program(gx, textured, defaults) && (has_specular_stage(gx, textured, defaults)
        || has_free_second_stage(gx))
}

/// The four channels of the lit preset: light 0 diffuse, light 2 specular.
pub open spec fn lit_channels(defaults: GxDefaults) -> Seq<Option<GxColorChannel>> {
    seq![
        Some(
            GxColorChannel {
                enable: 1,
                material_source: 0,
                light_mask: 1,
                diffuse_function: 2,
                attenuation_function: 1,
                ambient_source: 0,
            },
        ),
        Some(defaults.color_channel),
        Some(
            GxColorChannel {
                enable: 1,
                material_source: 0,
                light_mask: 4,
                diffuse_function: 1,
                attenuation_function: 0,
                ambient_source: 0,
            },
        ),
        Some(defaults.color_channel),
    ]
}

/// The four channels of an unlit importer material.
pub open spec fn unlit_channels(defaults: GxDefaults) -> Seq<Option<GxColorChannel>> {
    seq![Some(defaults.color_channel), Some(defaults.color_channel), None, None]
}

/// The channel, switched off.
pub open spec fn switched_off(channel: Option<GxColorChannel>) -> Option<GxColorChannel> {
    match channel {
        Some(channel) => Some(GxColorChannel { enable: 0, ..channel }),
        None => None,
    }
}

impl GxView {
    /// Diffuse light with a specular second stage.
    pub open spec fn lit(self, defaults: GxDefaults) -> GxView {
        GxView {
            color_channel_count: 2,
            color_channels: lit_channels(defaults),
            material_colors: self.material_colors.update(
                1,
                Some(GxColor { r: 255, g: 255, b: 255, a: 255 }),
            ),
            ambient_colors: self.ambient_colors.update(
                1,
                Some(GxColor { r: 0, g: 0, b: 0, a: 0 }),
            ),
            tev_stage_count: 2,
            tev_orders: self.tev_orders.update(1, Some(specular_order())),
            tev_stages: self.tev_stages.update(1, Some(specular_stage(defaults))),
            tev_swap_modes: self.tev_swap_modes.update(1, Some(plain_swap())),
            tev_konst_color_selectors: self.tev_konst_color_selectors.update(1, 0x0c),
            tev_konst_alpha_selectors: self.tev_konst_alpha_selectors.update(1, 0x1c),
            ..self
        }
    }

    /// No light: the preset's own specular stage is taken out again, and any other program only
    /// has its channels switched off.
    pub open spec fn unlit(self, textured: bool, defaults: GxDefaults) -> GxView {
        if has_specular_stage(self, textured, defaults) {
            GxView {
                color_channel_count: 1,
                color_channels: unlit_channels(defaults),
                material_colors: self.material_colors.update(1, None),
                ambient_colors: self.ambient_colors.update(1, None),
                tev_stage_count: 1,
                tev_orders: self.tev_orders.update(1, None),
                tev_stages: self.tev_stages.update(1, None),
                tev_swap_modes: self.tev_swap_modes.update(1, None),
                tev_konst_color_selectors: self.tev_konst_color_selectors.update(1, 0x0c),
                tev_konst_alpha_selectors: self.tev_konst_alpha_selectors.update(1, 0x1c),
                ..self
            }
        } else {
            GxView {
                color_channels: Seq::new(4, |i: int| switched_off(self.color_channels[i])),
                ..self
            }
        }
    }
}

/// Order and stage of a conservative material.
pub fn conservative_base_tev_stage(textured: bool, defaults: &GxDefaults) -> (r: (
    GxTevOrder,
    GxTevStage,
))
    ensures
        r.0 == base_order(textured),
        r.1 == base_stage(textured, *defaults),
{
    let order = GxTevOrder {
        tex_coord: if textured {
            Some(0)
        } else {
            None
        },
        tex_map: if textured {
            Some(0)
        } else {
            None
        },
        color_channel: 4,
    };
    let (color_inputs, alpha_inputs) = if textured {
        (GxTevInputs { a: 15, b: 8, c: 10, d: 15 }, GxTevInputs { a: 7, b: 4, c: 5, d: 7 })
    } else {
        (GxTevInputs { a: 10, b: 15, c: 15, d: 15 }, GxTevInputs { a: 5, b: 7, c: 7, d: 7 })
    };
    (
        order,
        GxTevStage {
            color_inputs,
            color_operation: defaults.tev_color_operation,
            alpha_inputs,
            alpha_operation: defaults.tev_alpha_operation,
        },
    )
}

/// Order, stage and swap mode of the specular stage.
pub fn conservative_specular_tev_stage(defaults: &GxDefaults) -> (r: (
    GxTevOrder,
    GxTevStage,
    GxTevSwapMode,
))
    ensures
        r.0 == specular_order(),
        r.1 == specular_stage(*defaults),
        r.2 == plain_swap(),
{
    (
        GxTevOrder { tex_coord: None, tex_map: None, color_channel: 5 },
        GxTevStage {
            color_inputs: GxTevInputs { a: 15, b: 10, c: 12, d: 0 },
            color_operation: defaults.tev_color_operation,
            alpha_inputs: GxTevInputs { a: 7, b: 7, c: 7, d: 0 },
            alpha_operation: defaults.tev_alpha_operation,
        },
        GxTevSwapMode { raster_swap_table: 0, texture_swap_table: 0 },
    )
}

/// Whether the first stage is the one that the importer writes.
pub fn has_canonical_conservative_base_program(
    material: &ModelMaterial,
    defaults: &GxDefaults,
) -> (r: bool)
    ensures
        r == has_base_program(
            material.gx@,
            material.base_color_texture is Some,
            *defaults,
        ),
{
    let gx = &material.gx;
    let (order, stage) = conservative_base_tev_stage(
        material.base_color_texture.is_some(),
        defaults,
    );
    gx.tev_orders[0] == Some(order) && gx.tev_stages[0] == Some(stage) && gx.tev_swap_modes[0]
        == Some(GxTevSwapMode { raster_swap_table: 0, texture_swap_table: 0 })
}

/// Whether the material carries the specular stage of the lit preset.
pub fn has_conservative_specular_stage(material: &ModelMaterial, defaults: &GxDefaults) -> (r: bool)
    ensures
        r == has_specular_stage(
            material.gx@,
            material.base_color_texture is Some,
            *defaults,
        ),
{
    let gx = &material.gx;
    let (order, stage, swap) = conservative_specular_tev_stage(defaults);
    gx.tev_stage_count == 2 && has_canonical_conservative_base_program(material, defaults)
        && gx.tev_orders[1] == Some(order) && gx.tev_stages[1] == Some(stage)
        && gx.tev_swap_modes[1] == Some(swap)
}

/// Lights a conservative material; `false` leaves any other material as it is.
pub fn apply_conservative_diffuse_specular_preset(
    material: &mut ModelMaterial,
    defaults: &GxDefaults,
) -> (r: bool)
    ensures
        r == can_be_lit(old(material).gx@, old(material).base_color_texture is Some, *defaults),
        final(material).gx@ == (if r {
            old(material).gx@.lit(*defaults)
        } else {
            old(material).gx@
        }),
        final(material).base_color_texture == old(material).base_color_texture,
        final(material).source_double_sided == old(material).source_double_sided,
        final(material).source_alpha_mode == old(material).source_alpha_mode,
{
    let is_existing_preset = has_conservative_specular_stage(material, defaults);
    let has_free_second_stage = material.gx.tev_stage_count == 1
        && material.gx.tev_orders[1].is_none() && material.gx.tev_stages[1].is_none()
        && material.gx.tev_swap_modes[1].is_none() && material.gx.material_colors[1].is_none()
        && material.gx.ambient_colors[1].is_none();
    if !has_canonical_conservative_base_program(material, defaults) || (!is_existing_preset
        && !has_free_second_stage) {
        return false;
    }
    let (order, stage, swap) = conservative_specular_tev_stage(defaults);
    let gx = &mut material.gx;
    gx.color_channel_count = 2;
    gx.color_channels = [
        Some(
            GxColorChannel {
                enable: 1,
                material_source: 0,
                light_mask: 1,
                diffuse_function: 2,
                attenuation_function: 1,
                ambient_source: 0,
            },
        ),
        Some(defaults.color_channel),
        Some(
            GxColorChannel {
                enable: 1,
                material_source: 0,
                light_mask: 4,
                diffuse_function: 1,
                attenuation_function: 0,
                ambient_source: 0,
            },
        ),
        Some(defaults.color_channel),
    ];
    gx.material_colors[1] = Some(GxColor { r: 255, g: 255, b: 255, a: 255 });
    gx.ambient_colors[1] = Some(GxColor { r: 0, g: 0, b: 0, a: 0 });
    gx.tev_stage_count = 2;
    gx.tev_orders[1] = Some(order);
    gx.tev_stages[1] = Some(stage);
    gx.tev_swap_modes[1] = Some(swap);
    gx.tev_konst_color_selectors[1] = 0x0c;
    gx.tev_konst_alpha_selectors[1] = 0x1c;
    proof {
        assert(material.gx@ =~= old(material).gx@.lit(*defaults));
    }
    true
}

/// Takes the light out of a material.
pub fn apply_conservative_unlit_preset(material: &mut ModelMaterial, defaults: &GxDefaults)
    ensures
        final(material).gx@ == old(material).gx@.unlit(
            old(material).base_color_texture is Some,
            *defaults,
        ),
        final(material).base_color_texture == old(material).base_color_texture,
        final(material).source_double_sided == old(material).source_double_sided,
        final(material).source_alpha_mode == old(material).source_alpha_mode,
{
    if has_conservative_specular_stage(material, defaults) {
        let gx = &mut material.gx;
        gx.color_channel_count = 1;
        gx.color_channels = [Some(defaults.color_channel), Some(defaults.color_channel), None, None];
        gx.material_colors[1] = None;
        gx.ambient_colors[1] = None;
        gx.tev_stage_count = 1;
        gx.tev_orders[1] = None;
        gx.tev_stages[1] = None;
        gx.tev_swap_modes[1] = None;
        gx.tev_konst_color_selectors[1] = 0x0c;
        gx.tev_konst_alpha_selectors[1] = 0x1c;
        proof {
            assert(material.gx@ =~= old(material).gx@.unlit(
                old(material).base_color_texture is Some,
                *defaults,
            ));
        }
        return;
    }
    let ghost before = material.gx@;
    let mut i: usize = 0;
    while i < 4
        invariant
            i <= 4,
            before == old(material).gx@,
            material.gx@ == (GxView {
                color_channels: Seq::new(
                    4,
                    |j: int|
                        if j < i {
                            switched_off(before.color_channels[j])
                        } else {
                            before.color_channels[j]
                        },
                ),
                ..before
            }),
            material.base_color_texture == old(material).base_color_texture,
            material.source_double_sided == old(material).source_double_sided,
            material.source_alpha_mode == old(material).source_alpha_mode,
        decreases 4 - i,
    {
        if let Some(channel) = material.gx.color_channels[i] {
            material.gx.color_channels[i] = Some(
                GxColorChannel {
                    enable: 0,
                    material_source: channel.material_source,
                    light_mask: channel.light_mask,
                    diffuse_function: channel.diffuse_function,
                    attenuation_function: channel.attenuation_function,
                    ambient_source: channel.ambient_source,
                },
            );
        }
        i += 1;
        proof {
            assert(material.gx@ =~= (GxView {
                color_channels: Seq::new(
                    4,
                    |j: int|
                        if j < i {
                            switched_off(before.color_channels[j])
                        } else {
                            before.color_channels[j]
                        },
                ),
                ..before
            }));
        }
    }
    proof {
        assert(material.gx@ =~= before.unlit(old(material).base_color_texture is Some, *defaults));
    }
}

/// An importer material in its unlit form: one stage, neutral channels and selectors.
pub open spec fn is_plain_import(gx: GxView, textured: bool, defaults: GxDefaults) -> bool {
    &&& has_base_program(gx, textured, defaults)
    &&& has_free_second_stage(gx)
    &&& gx.color_channel_count == 1
    &&& gx.color_channels == unlit_channels(defaults)
    &&& gx.material_colors.len() == 2
    &&& gx.ambient_colors.len() == 2
    &&& gx.tev_orders.len() == 16
    &&& gx.tev_stages.len() == 16
    &&& gx.tev_swap_modes.len() == 16
    &&& gx.tev_konst_color_selectors.len() == 16
    &&& gx.tev_konst_alpha_selectors.len() == 16
    &&& gx.tev_konst_color_selectors[1] == 0x0c
    &&& gx.tev_konst_alpha_selectors[1] == 0x1c
}

/// Lighting an importer material and taking the light out again gives the material back exactly.
pub proof fn law_lit_preset_is_reversible(gx: GxView, textured: bool, defaults: GxDefaults)
    requires
        is_plain_import(gx, textured, defaults),
    ensures
        can_be_lit(gx, textured, defaults),
        gx.lit(defaults).unlit(textured, defaults) == gx,
{
    let back = gx.lit(defaults).unlit(textured, defaults);
    assert(has_specular_stage(gx.lit(defaults), textured, defaults));
    assert(back.material_colors =~= gx.material_colors);
    assert(back.ambient_colors =~= gx.ambient_colors);
    assert(back.tev_orders =~= gx.tev_orders);
    assert(back.tev_stages =~= gx.tev_stages);
    assert(back.tev_swap_modes =~= gx.tev_swap_modes);
    assert(back.tev_konst_color_selectors =~= gx.tev_konst_color_selectors);
    assert(back.tev_konst_alpha_selectors =~= gx.tev_konst_alpha_selectors);
    assert(back =~= gx);
}

/// Taking the light out of any other program keeps all its stages, colours and selectors.
pub proof fn law_unlit_keeps_advanced_programs(gx: GxView, textured: bool, defaults: GxDefaults)
    requires
        !has_specular_stage(gx, textured, defaults),
    ensures
        ({
            let unlit = gx.unlit(textured, defaults);
            &&& unlit.tev_stage_count == gx.tev_stage_count
            &&& unlit.tev_orders == gx.tev_orders
            &&& unlit.tev_stages == gx.tev_stages
            &&& unlit.tev_swap_modes == gx.tev_swap_modes
            &&& unlit.tev_konst_color_selectors == gx.tev_konst_color_selectors
            &&& unlit.tev_konst_alpha_selectors == gx.tev_konst_alpha_selectors
            &&& unlit.material_colors == gx.material_colors
            &&& unlit.ambient_colors == gx.ambient_colors
            &&& unlit.color_channel_count == gx.color_channel_count
            &&& forall|i: int|
                0 <= i < 4 ==> (#[trigger] unlit.color_channels[i] matches Some(channel)
                    ==> channel.enable == 0)
        }),
{
}

} // verus!
