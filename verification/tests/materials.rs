use graffito_editor::asset_inspectors::{
    apply_material_preset, material_line, warns_of_opacity, MaterialPreset,
};
use graffito_editor::gx::{
    apply_alpha_blend_material_preset, apply_conservative_diffuse_specular_preset,
    apply_conservative_unlit_preset, apply_opaque_material_preset, conservative_base_tev_stage,
    GxAlphaCompare, GxBlendMode, GxColor, GxColorChannel, GxDefaults, GxDepthMode, GxMaterial,
    GxTevInputs, GxTevOperation, GxTevOrder, GxTevStage, GxTevSwapMode, ImportedAlphaMode,
    ModelMaterial,
};

fn operation() -> GxTevOperation {
    GxTevOperation {
        operation: 0,
        bias: 0,
        scale: 0,
        clamp: 1,
        register: 0,
    }
}

fn defaults() -> GxDefaults {
    GxDefaults {
        alpha_compare: GxAlphaCompare {
            comparison_0: 7,
            reference_0: 0,
            operation: 0,
            comparison_1: 7,
            reference_1: 0,
        },
        depth_mode: GxDepthMode {
            comparison_enabled: 1,
            function: 3,
            update_enabled: 1,
        },
        color_channel: GxColorChannel {
            enable: 0,
            material_source: 0,
            light_mask: 0,
            diffuse_function: 2,
            attenuation_function: 1,
            ambient_source: 0,
        },
        tev_color_operation: operation(),
        tev_alpha_operation: operation(),
    }
}

fn inputs(a: u8, b: u8, c: u8, d: u8) -> GxTevInputs {
    GxTevInputs { a, b, c, d }
}

fn gx() -> GxMaterial {
    GxMaterial {
        name: "Opaque".to_string(),
        material_mode: 1,
        cull_mode: 2,
        alpha_compare: defaults().alpha_compare,
        blend_mode: GxBlendMode {
            mode: 0,
            source_factor: 1,
            destination_factor: 0,
            logic_operation: 3,
        },
        depth_mode: defaults().depth_mode,
        z_compare_location: 1,
        tex_gen_count: 0,
        color_channel_count: 1,
        color_channels: [
            Some(defaults().color_channel),
            Some(defaults().color_channel),
            None,
            None,
        ],
        material_colors: [
            Some(GxColor {
                r: 255,
                g: 255,
                b: 255,
                a: 255,
            }),
            None,
        ],
        ambient_colors: [None, None],
        tev_stage_count: 1,
        tev_orders: [None; 16],
        tev_stages: [None; 16],
        tev_swap_modes: [None; 16],
        tev_konst_color_selectors: [12; 16],
        tev_konst_alpha_selectors: [28; 16],
    }
}

fn material() -> ModelMaterial {
    ModelMaterial {
        gx: gx(),
        base_color_texture: None,
        source_double_sided: false,
        source_alpha_mode: ImportedAlphaMode::Opaque,
    }
}

#[test]
fn opaque_material_preset_restores_solid_pixel_and_depth_state() {
    let mut material = GxMaterial {
        material_mode: 4,
        cull_mode: 0,
        alpha_compare: GxAlphaCompare {
            comparison_0: 1,
            reference_0: 128,
            operation: 1,
            comparison_1: 2,
            reference_1: 64,
        },
        blend_mode: GxBlendMode {
            mode: 1,
            source_factor: 4,
            destination_factor: 5,
            logic_operation: 3,
        },
        depth_mode: GxDepthMode {
            comparison_enabled: 0,
            function: 7,
            update_enabled: 0,
        },
        z_compare_location: 0,
        ..gx()
    };

    apply_opaque_material_preset(&mut material, &defaults());

    assert_eq!(material.material_mode, 1);
    assert_eq!(material.cull_mode, 2);
    assert_eq!(material.alpha_compare, defaults().alpha_compare);
    assert_eq!(
        material.blend_mode,
        GxBlendMode {
            mode: 0,
            source_factor: 1,
            destination_factor: 0,
            logic_operation: 3,
        }
    );
    assert_eq!(material.depth_mode, defaults().depth_mode);
    assert_eq!(material.z_compare_location, 1);
}

#[test]
fn alpha_blend_material_preset_is_explicit_and_preserves_culling_choice() {
    let mut material = GxMaterial {
        material_mode: 1,
        cull_mode: 0,
        alpha_compare: GxAlphaCompare {
            comparison_0: 1,
            reference_0: 128,
            operation: 1,
            comparison_1: 2,
            reference_1: 64,
        },
        depth_mode: GxDepthMode {
            comparison_enabled: 0,
            function: 7,
            update_enabled: 1,
        },
        z_compare_location: 0,
        ..gx()
    };

    apply_alpha_blend_material_preset(&mut material, &defaults());

    assert_eq!(material.material_mode, 4);
    assert_eq!(material.cull_mode, 0);
    assert_eq!(material.alpha_compare, defaults().alpha_compare);
    assert_eq!(
        material.blend_mode,
        GxBlendMode {
            mode: 1,
            source_factor: 4,
            destination_factor: 5,
            logic_operation: 3,
        }
    );
    assert_eq!(
        material.depth_mode,
        GxDepthMode {
            update_enabled: 0,
            ..defaults().depth_mode
        }
    );
    assert_eq!(material.z_compare_location, 1);
}

#[test]
fn conservative_diffuse_specular_preset_is_exactly_reversible() {
    let mut material = material();
    material.base_color_texture = Some(0);
    material.gx.tex_gen_count = 1;
    material.gx.color_channel_count = 1;
    let (order, stage) = conservative_base_tev_stage(true, &defaults());
    material.gx.tev_orders[0] = Some(order);
    material.gx.tev_stages[0] = Some(stage);
    material.gx.tev_swap_modes[0] = Some(GxTevSwapMode {
        raster_swap_table: 0,
        texture_swap_table: 0,
    });
    let original = material.gx.clone();

    assert!(apply_conservative_diffuse_specular_preset(
        &mut material,
        &defaults()
    ));
    assert_eq!(material.gx.color_channel_count, 2);
    assert_eq!(material.gx.color_channels[0].unwrap().light_mask, 0x01);
    let specular = material.gx.color_channels[2].unwrap();
    assert_eq!(specular.enable, 1);
    assert_eq!(specular.light_mask, 0x04);
    assert_eq!(
        material.gx.color_channels[0].unwrap().attenuation_function,
        1
    );
    assert_eq!(specular.diffuse_function, 1);
    assert_eq!(specular.attenuation_function, 0);
    let color = material.gx.material_colors[1].unwrap();
    assert_eq!((color.r, color.g, color.b, color.a), (255, 255, 255, 255));
    let ambient = material.gx.ambient_colors[1].unwrap();
    assert_eq!((ambient.r, ambient.g, ambient.b, ambient.a), (0, 0, 0, 0));
    assert_eq!(material.gx.tev_stage_count, 2);
    assert_eq!(
        material.gx.tev_orders[1],
        Some(GxTevOrder {
            tex_coord: None,
            tex_map: None,
            color_channel: 5,
        })
    );
    assert_eq!(
        material.gx.tev_stages[1].unwrap().color_inputs,
        inputs(15, 10, 12, 0)
    );
    assert_eq!(
        material.gx.tev_stages[1].unwrap().alpha_inputs,
        inputs(7, 7, 7, 0)
    );

    apply_conservative_unlit_preset(&mut material, &defaults());
    assert_eq!(material.gx, original);
}

#[test]
fn conservative_unlit_preserves_arbitrary_advanced_tev_state() {
    let mut material = material();
    material.gx.tev_stage_count = 2;
    material.gx.tev_orders[1] = Some(GxTevOrder {
        tex_coord: Some(3),
        tex_map: Some(2),
        color_channel: 5,
    });
    material.gx.tev_stages[1] = Some(GxTevStage {
        color_inputs: inputs(0, 2, 4, 6),
        color_operation: operation(),
        alpha_inputs: inputs(0, 1, 2, 3),
        alpha_operation: operation(),
    });
    material.gx.color_channel_count = 2;
    material.gx.color_channels = [
        Some(GxColorChannel {
            enable: 1,
            ..defaults().color_channel
        }),
        Some(defaults().color_channel),
        Some(GxColorChannel {
            enable: 1,
            light_mask: 0x04,
            ..defaults().color_channel
        }),
        None,
    ];
    let tev_orders = material.gx.tev_orders;
    let tev_stages = material.gx.tev_stages;
    let stage_count = material.gx.tev_stage_count;

    apply_conservative_unlit_preset(&mut material, &defaults());

    assert_eq!(material.gx.tev_orders, tev_orders);
    assert_eq!(material.gx.tev_stages, tev_stages);
    assert_eq!(material.gx.tev_stage_count, stage_count);
    assert!(material
        .gx
        .color_channels
        .iter()
        .flatten()
        .all(|channel| channel.enable == 0));
}

#[test]
fn presets_are_chosen_by_their_buttons() {
    let mut two_sided = material();
    assert!(apply_material_preset(
        MaterialPreset::TwoSided,
        &mut two_sided,
        &defaults()
    ));
    assert_eq!(two_sided.gx.cull_mode, 0);
    let mut blended = material();
    apply_material_preset(MaterialPreset::AlphaBlend, &mut blended, &defaults());
    assert_eq!(blended.gx.material_mode, 4);
}

#[test]
fn materials_are_summed_up() {
    assert_eq!(
        material_line(&material()),
        "TEV 1 stage(s), 0 texgen(s), 1 color channel(s), cull 2, mode 1, blend 0, Z write 1"
    );
    assert!(!warns_of_opacity(&material()));
}
