use graffito_editor::flag_shapes::{
    animate_flag_preview, build_flag_animation, find_flag_texture_asset,
    flag_definition_matches_object, flag_resource_name, flag_table_path,
    retail_flag_grid_dimension, runtime_flag_flutter_speed, runtime_stage_area_index,
    stable_flag_phase, texture_is_registered, AreaArchive, FlagGrid, FlagRanges, FlagScale,
    FlagTriangle,
};
use graffito_editor::grids::{grid_triangles, GridPoint, GridTriangle};
use graffito_editor::jdrama::VectorBits;
use graffito_editor::paths::PathComponent;
use graffito_editor::preview::{
    ColorChannels, CornerColors, J3dBillboardMode, J3dGeometryPreview, J3dPreviewCombineMode,
    J3dTexturePreview, PreviewRenderLayer, PreviewTriangle, Rgba, TextureSampler,
};
use graffito_editor::preview_flags::{
    build_procedural_flag_preview, flag_triangle, FlagSource, FlagTexture,
};
use graffito_editor::preview_grass::{
    build_procedural_grass_preview, is_map_obj_grass_group, SmsRand,
};
use graffito_editor::preview_waves::{
    build_procedural_wave_preview, find_wave_texture, wave_grid_offset, wave_triangles,
    wave_vertex_color,
};
use graffito_editor::preview_wires::{
    build_procedural_wire_preview, load_wire_fitting_preview, push_wire_prism,
    wire_fitting_candidates, WirePart, WirePath, WireSource,
};
use graffito_editor::registry::{MapObjFlagAreaSpeed, MapObjFlagDefinition};
use graffito_editor::runtime_materials::{
    runtime_flag_material, runtime_flag_tests, runtime_wave_alpha_compare,
    runtime_wave_blend_mode, runtime_wave_material, runtime_wave_z_mode, TevInputs,
};
use graffito_editor::stage::{RawParam, SceneObject, StageAsset, StageAssetKind};
use graffito_editor::wire_tables::{
    asset_is_stage_file, asset_is_table_file, load_wire_definitions, load_wire_style,
    wire_definition_from_cube, wire_point_count, CubeGeneralInfo, WireRecord, WireStyle,
};

fn sampler() -> TextureSampler {
    TextureSampler {
        format: 0,
        wrap_s: 1,
        wrap_t: 1,
        min_filter: 1,
        mag_filter: 1,
        mipmap_enabled: false,
        do_edge_lod: false,
        bias_clamp: false,
        max_anisotropy: 0,
        min_lod: 0,
        max_lod: 0,
        lod_bias: 0,
        mipmap_count: 1,
    }
}

fn texture(name: &str) -> J3dTexturePreview {
    J3dTexturePreview {
        name: name.to_string(),
        width: 1,
        height: 1,
        rgba: vec![1, 2, 3, 255],
        mips: vec![],
        sampler: sampler(),
    }
}

fn bits(values: [f32; 3]) -> VectorBits {
    VectorBits {
        x: values[0].to_bits(),
        y: values[1].to_bits(),
        z: values[2].to_bits(),
    }
}

fn asset(kind: StageAssetKind, path: &str) -> StageAsset {
    StageAsset {
        kind,
        path: path.to_string(),
    }
}

fn rgba(color: [u8; 4]) -> Rgba {
    let [r, g, b, a] = color;
    Rgba { r, g, b, a }
}

fn corners(colors: [[u8; 4]; 3]) -> CornerColors {
    let [a, b, c] = colors.map(rgba);
    CornerColors { a, b, c }
}

fn with_param(mut object: SceneObject, name: &str, value: &str) -> SceneObject {
    object.raw_params.push(RawParam {
        name: name.to_string(),
        value: value.to_string(),
    });
    object
}

fn inputs(a: u8, b: u8, c: u8, d: u8) -> TevInputs {
    TevInputs { a, b, c, d }
}

#[test]
fn retail_wave_grid_and_radial_alpha_are_preserved() {
    let triangles = wave_triangles(3, 7, 2, 1);

    assert_eq!(triangles.len(), 1_300);
    assert!(triangles.iter().all(|triangle| {
        triangle.render_layer == PreviewRenderLayer::WaveFoam
            && triangle.model_index == 3
            && triangle.packet_index == 7
            && triangle.material_index == Some(2)
            && triangle.texture_index == Some(1)
    }));
    assert_eq!(wave_vertex_color(0, 0)[3], 255);
    assert_eq!(wave_vertex_color(-2_600, 0)[3], 0);
}

#[test]
fn foam_triangles_have_the_colours_of_their_corners() {
    let triangles = wave_triangles(3, 7, 2, 1);
    let places = grid_triangles(26, 25);
    for (triangle, place) in triangles.iter().zip(places) {
        let at = |point: GridPoint| {
            rgba(wave_vertex_color(
                wave_grid_offset(point.inner),
                wave_grid_offset(point.outer),
            ))
        };
        let colors = CornerColors {
            a: at(place.a),
            b: at(place.b),
            c: at(place.c),
        };
        assert_eq!(triangle.color_channels.first, Some(colors));
        assert_eq!(triangle.vertex_colors, Some(colors));
        assert_eq!(
            triangle.combine_mode,
            J3dPreviewCombineMode::TextureModulateVertex
        );
    }
    // The first cell of the strip through the middle of the foam.
    let middle = triangles[13 * 50].vertex_colors.unwrap();
    assert_eq!((middle.a.a, middle.b.a, middle.c.a), (0, 0, 19));
}

#[test]
fn foam_fades_as_its_floating_point_formula_does() {
    for z in 0..=26 {
        for x in 0..26 {
            let (x, z) = (wave_grid_offset(x), wave_grid_offset(z));
            let far = (x as f32).abs().max((z as f32).abs());
            let alpha = (255.0 * (1.0 - far / 2_600.0)).clamp(0.0, 255.0) as u8;
            assert_eq!(wave_vertex_color(x, z), [0xc8, 0xc8, 0xff, alpha]);
        }
    }
    assert_eq!(wave_vertex_color(i32::MIN, 0)[3], 0);
}

#[test]
fn foam_fades_in_single_precision_between_the_points_too() {
    assert_eq!(wave_vertex_color(1_560, 0)[3], 101);
    assert_eq!(wave_vertex_color(0, -1_560)[3], 101);
    for far in 0..=2_700 {
        let alpha = (255.0_f32 * (1.0 - far as f32 / 2_600.0)).clamp(0.0, 255.0) as u8;
        assert_eq!(wave_vertex_color(-far, 0)[3], alpha);
        assert_eq!(wave_vertex_color(far / 2, far)[3], alpha);
    }
}

#[test]
fn retail_wave_tev_and_blend_state_are_preserved() {
    let material = runtime_wave_material(4, 9, 0x1122);

    assert_eq!(material.material.material_index, 4);
    assert_eq!(material.material.texture_indices[0], Some(9));
    assert_eq!(material.program.color_channels[0].mat_src, 1);
    assert_eq!(material.program.color_channels[1].mat_src, 1);
    assert_eq!(material.program.tex_gen_count, 2);
    assert_eq!(material.program.tev_stages.len(), 2);
    assert_eq!(
        material.program.tev_stages[0].alpha.inputs,
        inputs(7, 4, 5, 7)
    );
    assert_eq!(
        material.program.tev_stages[1].color.inputs,
        inputs(10, 15, 15, 15)
    );
    assert_eq!(
        material.program.tev_stages[1].alpha.inputs,
        inputs(7, 4, 0, 7)
    );
    assert_eq!(material.program.tev_stages[1].color.scale, 1);
    assert_eq!(material.program.tev_stages[1].alpha.scale, 1);
    assert_eq!(material.material.alpha_compare, runtime_wave_alpha_compare());
    assert_eq!(material.material.blend_mode, runtime_wave_blend_mode());
    assert_eq!(material.material.z_mode, runtime_wave_z_mode());
    assert_eq!(material.program.loader_flags, 0x1122);
}

#[test]
fn foam_needs_its_texture() {
    let assets = [
        asset(StageAssetKind::Model, "x!/map/map/wave.bti"),
        asset(StageAssetKind::Texture, "x!\\Map\\map\\WAVE.bti"),
    ];
    assert_eq!(find_wave_texture(&assets), Some(1));
    assert_eq!(find_wave_texture(&assets[..1]), None);

    let (mut textures, mut materials) = (vec![], vec![]);
    let none = build_procedural_wave_preview(None, 0, 0, 0, &mut textures, &mut materials);
    assert!(none.triangles.is_empty() && textures.is_empty() && materials.is_empty());
    let wave = texture("wave.bti");
    let made =
        build_procedural_wave_preview(Some(&wave), 5, 6, 0, &mut textures, &mut materials);
    assert_eq!(made.triangle_count, 1_300);
    assert_eq!(made.source_vertices, 1_352);
    assert_eq!((textures.len(), materials.len()), (1, 1));
    assert_eq!(materials[0].name, "_runtime_wave");
}

#[test]
fn grids_have_two_triangles_to_a_cell() {
    let at = |outer, inner| GridPoint { outer, inner };
    assert_eq!(
        grid_triangles(1, 1),
        vec![
            GridTriangle {
                a: at(0, 0),
                b: at(1, 0),
                c: at(0, 1)
            },
            GridTriangle {
                a: at(0, 1),
                b: at(1, 0),
                c: at(1, 1)
            },
        ]
    );
    assert_eq!(grid_triangles(3, 5).len(), 30);
    assert_eq!(grid_triangles(0, 5).len(), 0);
}

#[test]
fn builds_camera_facing_retail_grass_triangles() {
    let grass = with_param(
        SceneObject::new("grass-0", "MapObjGrassGroup"),
        "grass_blade_count",
        "3",
    );

    let preview = build_procedural_grass_preview(&[grass], 7, 11);

    assert_eq!(preview.group_count, 1);
    assert_eq!(preview.blade_count, 3);
    assert_eq!(preview.triangles.len(), 3);
    assert_eq!(
        preview.object_model_indices,
        [("grass-0".to_string(), 7)]
    );
    let triangle = preview.triangles[0];
    assert_eq!(triangle.packet_index, 11);
    assert_eq!(triangle.model_index, 7);
    let colors = corners([[40, 100, 40, 255], [60, 200, 60, 255], [40, 100, 40, 255]]);
    assert_eq!(triangle.color_channels.first, Some(colors));
    assert_eq!(triangle.color_channels.second, None);
    assert_eq!(triangle.vertex_colors, Some(colors));
    assert_eq!(triangle.combine_mode, J3dPreviewCombineMode::VertexOnly);
    assert!(matches!(
        triangle.billboard,
        Some(J3dBillboardMode::YAxis)
    ));
}

#[test]
fn sms_rand_matches_msl_lcg() {
    let mut random = SmsRand::new(1);
    assert_eq!(random.next_unit(), 16_838);
    assert_eq!(random.next_unit(), 5_758);
}

#[test]
fn grass_preview_identity_is_case_sensitive() {
    assert!(is_map_obj_grass_group(&SceneObject::new(
        "exact",
        "MapObjGrassGroup"
    )));
    assert!(!is_map_obj_grass_group(&SceneObject::new(
        "wrong-case",
        "mapobjgrassgroup"
    )));
}

#[test]
fn grass_draws_one_random_sequence_and_keeps_to_its_limit() {
    let group = |id: &str, count: &str| {
        with_param(
            SceneObject::new(id, "MapObjGrassGroup"),
            "grass_blade_count",
            count,
        )
    };
    let objects = [
        group("a", "2"),
        SceneObject::new("rock", "MapObjRock"),
        group("b", "-1"),
        group("c", "+1"),
        group("d", "0"),
    ];
    let preview = build_procedural_grass_preview(&objects, 1, 0);
    assert_eq!(preview.group_count, 2);
    let mut random = SmsRand::new(1);
    for blade in &preview.blades {
        assert_eq!(blade.x, random.next_unit());
        assert_eq!(blade.z, random.next_unit());
        assert_eq!(blade.height, random.next_unit());
    }
    assert_eq!(preview.blades[2].group, 1);
    assert_eq!(preview.blades[2].phase, 0);
    assert_eq!(preview.points.len(), 3);

    let many = [group("a", "249000"), group("b", "99999"), group("c", "5")];
    let preview = build_procedural_grass_preview(&many, 0, 0);
    assert_eq!(preview.blade_count, 250_000);
    assert_eq!(preview.group_count, 2);
    assert_eq!(preview.groups[1].blade_count, 1_000);
    let of_second = preview
        .points
        .iter()
        .filter(|point| point.model_index == 1)
        .count();
    assert_eq!(of_second, 500);
}

fn definition() -> MapObjFlagDefinition {
    MapObjFlagDefinition {
        factory_name: "DerivedFlagFactory".to_string(),
        texture_path_pattern: "/scene/mapObj/%s.bti".to_string(),
        registered_texture_names: vec!["derivedTexture".to_string()],
        resource_name_stream_index: 0,
        default_flutter_speed_degrees_per_frame: 8,
        area_flutter_speeds: vec![MapObjFlagAreaSpeed {
            area_index: 0,
            degrees_per_frame: 16,
        }],
        phase_wrap_degrees: 360,
        stage_archive_table_path: "/data/stageArc.bin".to_string(),
    }
}

fn scale(y: f32, z: f32) -> FlagScale {
    FlagScale {
        scale_y: y.to_bits(),
        scale_z: z.to_bits(),
        rows: (100.0 * z / 50.0).to_bits(),
        cols: (100.0 * y / 100.0).to_bits(),
    }
}

#[test]
fn retail_flag_grid_uses_authored_yz_scale_and_two_sided_state() {
    let grid = build_flag_animation(scale(2.0, 1.5), 360).expect("build flag animation");
    assert_eq!(grid.rows * grid.cols, 6);
    assert_eq!(grid_triangles(grid.cols - 1, grid.rows - 1).len(), 4);

    let texture = FlagTexture {
        texture_index: 7,
        material_index: 6,
        packet_index: 5,
    };
    let triangle = flag_triangle(0, 4, texture);
    assert_eq!(triangle.combine_mode, J3dPreviewCombineMode::TextureOnly);
    assert_eq!(triangle.cull_mode, Some(0));
    assert_eq!(triangle.material_index, Some(6));
    assert_eq!(triangle.texture_index, Some(7));
    assert_eq!(triangle.model_index, 4);
    assert_eq!(triangle.packet_index, 5);
    assert_eq!(triangle.alpha_compare.expect("alpha compare").comp0, 4);
    assert_eq!(triangle.z_mode.expect("z mode").update_enable, 1);
}

#[test]
fn flags_are_built_of_their_triangles() {
    let definitions = vec![definition()];
    let objects = vec![with_param(
        SceneObject::new("flag-0", "DerivedFlagFactory"),
        "stream_string_0",
        "derivedTexture",
    )];
    let assets = vec![asset(
        StageAssetKind::Texture,
        "stage!/mapobj/derivedtexture.bti",
    )];
    let scales = vec![scale(2.0, 1.5)];
    let decoded = vec![Some(texture("derivedTexture"))];
    let source = FlagSource {
        definitions: &definitions,
        objects: &objects,
        scales: &scales,
        assets: &assets,
        decoded: &decoded,
        first_model_index: 4,
        first_packet_index: 5,
        loader_flags: 0,
    };
    let preview = build_procedural_flag_preview(&source, &mut vec![], &mut vec![]);
    let triangle = preview.triangles[0];
    assert_eq!(triangle.combine_mode, J3dPreviewCombineMode::TextureOnly);
    assert_eq!(triangle.cull_mode, Some(0));
    assert_eq!(triangle.material_index, Some(0));
    assert_eq!(triangle.texture_index, Some(0));
    assert_eq!(triangle.model_index, 4);
    assert_eq!(triangle.packet_index, 5);
    assert_eq!(triangle.alpha_compare.expect("alpha compare").comp0, 4);
    assert_eq!(triangle.z_mode.expect("z mode").update_enable, 1);
    assert_eq!(runtime_flag_tests().z_mode.update_enable, 1);
}

#[test]
fn flag_animation_updates_only_its_generated_geometry() {
    let grid = build_flag_animation(scale(2.0, 1.5), 360).expect("build flag animation");
    let ranges = FlagRanges {
        point_start: 0,
        point_end: 6,
        triangle_start: 0,
        triangle_end: 4,
    };
    let corners = animate_flag_preview(grid, ranges, 6, 4).unwrap();
    assert_eq!(corners[0].a, 0);
    assert_eq!(corners[0].b, grid.rows);
    assert_eq!(
        corners[0],
        FlagTriangle {
            a: 0,
            b: 3,
            c: 1
        }
    );
    assert!(corners
        .iter()
        .all(|corner| corner.a < 6 && corner.b < 6 && corner.c < 6));
    assert!(animate_flag_preview(grid, ranges, 5, 4).is_none());
    let short = FlagRanges {
        triangle_end: 3,
        ..ranges
    };
    assert!(animate_flag_preview(grid, short, 6, 4).is_none());
    let moved = FlagRanges {
        point_start: 10,
        point_end: 16,
        ..ranges
    };
    assert_eq!(animate_flag_preview(grid, moved, 16, 4).unwrap()[0].b, 13);
}

#[test]
fn renderer_identity_and_texture_names_come_from_schema_definition() {
    let definitions = vec![definition()];
    let objects = vec![with_param(
        SceneObject::new("flag", "MapObjFlag"),
        "stream_string_0",
        "derivedTexture",
    )];
    let (assets, decoded) = (vec![], vec![]);
    let scales = vec![scale(2.0, 1.5)];
    let source = FlagSource {
        definitions: &definitions,
        objects: &objects,
        scales: &scales,
        assets: &assets,
        decoded: &decoded,
        first_model_index: 1,
        first_packet_index: 2,
        loader_flags: 0,
    };
    let preview = build_procedural_flag_preview(&source, &mut vec![], &mut vec![]);
    assert_eq!(
        preview.animated_flags.len(),
        0,
        "the non-schema factory must not match"
    );
    assert!(flag_definition_matches_object(
        &SceneObject::new("exact", "DerivedFlagFactory"),
        &definition()
    ));
    assert!(!flag_definition_matches_object(
        &SceneObject::new("wrong-case", "derivedflagfactory"),
        &definition()
    ));
}

#[test]
fn flag_texture_selector_prefers_the_subclass_tail_over_actor_character() {
    let definition = definition();
    let object = with_param(
        with_param(
            SceneObject::new("flag", "DerivedFlagFactory"),
            "stream_string_0",
            "shared flag character",
        ),
        "actor_tail_string",
        "derivedTexture",
    );

    assert_eq!(
        flag_resource_name(&object, &definition),
        Some("derivedTexture")
    );
}

#[test]
fn runtime_flag_material_outputs_the_texture_without_raster_shading() {
    let material = runtime_flag_material(3, 5, "derivedTexture", 0);

    assert!(!material.program.lighting_enabled);
    assert_eq!(material.program.color_channel_count, 0);
    assert_eq!(material.material.texture_indices[0], Some(5));
    assert_eq!(material.program.tev_stages.len(), 1);
    assert_eq!(
        material.program.tev_stages[0].color.inputs,
        inputs(8, 15, 15, 15)
    );
    assert_eq!(
        material.program.tev_stages[0].alpha.inputs,
        inputs(4, 7, 7, 7)
    );
    assert_eq!(material.program.tev_stages[0].order.color_channel, 4);
    assert_eq!(material.material.name, "_runtime_flag_derivedTexture");
}

#[test]
fn flags_share_a_texture_under_any_case() {
    let mut plain = definition();
    plain.resource_name_stream_index = 2;
    let definitions = vec![plain];
    let flag = |id: &str, name: &str| {
        with_param(
            SceneObject::new(id, "DerivedFlagFactory"),
            "stream_string_2",
            name,
        )
    };
    let objects = vec![
        flag("a", "derivedTexture"),
        flag("b", "DERIVEDTEXTURE"),
        flag("c", "unknown"),
        flag("d", "derivedTexture"),
    ];
    let scales = vec![scale(2.0, 1.5), scale(1.0, 1.0), scale(1.0, 1.0), scale(0.0, 1.0)];
    let assets = vec![
        asset(StageAssetKind::Model, "stage!/mapobj/derivedtexture.bti"),
        asset(StageAssetKind::Texture, "stage!/MapObj/DerivedTexture.bti"),
    ];
    let decoded = vec![None, Some(texture("t"))];
    let source = FlagSource {
        definitions: &definitions,
        objects: &objects,
        scales: &scales,
        assets: &assets,
        decoded: &decoded,
        first_model_index: 10,
        first_packet_index: 20,
        loader_flags: 7,
    };
    let (mut textures, mut materials) = (vec![], vec![]);
    let preview = build_procedural_flag_preview(&source, &mut textures, &mut materials);
    assert_eq!((textures.len(), materials.len()), (1, 1));
    assert_eq!(preview.animated_flags.len(), 2);
    assert_eq!(preview.animated_flags[1].model_index, 11);
    assert_eq!(preview.animated_flags[1].ranges.point_start, 6);
    assert_eq!(preview.animated_flags[1].ranges.point_end, 6 + 6);
    assert_eq!(preview.programs[0].loader_flags, 7);
    assert_eq!(
        find_flag_texture_asset(&assets, &definitions[0], "derivedTexture"),
        Some(1)
    );
    assert!(texture_is_registered(&definitions[0], "DerivedTEXTURE"));
}

#[test]
fn flag_sides_take_the_whole_part_of_what_they_ask_for() {
    let side = |value: f32| retail_flag_grid_dimension(value.to_bits());
    for value in [2.0f32, 2.5, 3.0, 3.999, 7.25, 100.5, 511.9, 512.0, 512.9] {
        assert_eq!(side(value), Some(value as usize), "{value}");
    }
    for value in [-1.0e9f32, -1.0, -0.0, 0.0, 1.0e-40, 0.5, 1.999] {
        assert_eq!(side(value), Some(3), "{value}");
    }
    for value in [
        513.0f32,
        1_023.9,
        1_024.0,
        1.0e30,
        f32::INFINITY,
        f32::NEG_INFINITY,
        f32::NAN,
    ] {
        assert_eq!(side(value), None, "{value}");
    }
    assert_eq!(build_flag_animation(scale(2.0, 1.5), 0), None);
    assert_eq!(build_flag_animation(scale(f32::EPSILON, 1.5), 360), None);
    assert_eq!(build_flag_animation(scale(f32::NAN, 1.5), 360), None);
    assert_eq!(
        build_flag_animation(scale(-2.0, 1.5), 360),
        Some(FlagGrid { rows: 3, cols: 3 })
    );
}

#[test]
fn flags_flutter_at_the_speed_of_their_area() {
    let definition = definition();
    let table = vec![
        AreaArchive {
            archive: vec![PathComponent::Normal("bianco0.arc".to_string())],
            area_index: 2,
        },
        AreaArchive {
            archive: vec![PathComponent::Normal("Dolpic0.arc".to_string())],
            area_index: 0,
        },
    ];
    assert_eq!(runtime_stage_area_index(Some(&table), "dolpic0"), Some(0));
    assert_eq!(runtime_stage_area_index(Some(&table), "mare0"), None);
    assert_eq!(runtime_stage_area_index(None, "dolpic0"), None);
    assert_eq!(runtime_flag_flutter_speed(&definition, Some(0)), 16);
    assert_eq!(runtime_flag_flutter_speed(&definition, Some(2)), 8);
    assert_eq!(runtime_flag_flutter_speed(&definition, None), 8);
    assert_eq!(flag_table_path(&definition), "data/stageArc.bin");
    assert_eq!(stable_flag_phase(""), 2_166_136_261 % 360);
    assert_eq!(stable_flag_phase("a"), 0xe40c_292c % 360);
}

fn wire_record(kind: &str, name: Option<&str>, offset: usize, size: usize) -> WireRecord {
    WireRecord {
        record_type: kind.to_string(),
        object_name: name.map(str::to_string),
        offset,
        size,
        cube_general_info: None,
        map_wire_manager: None,
    }
}

fn cube(length: f32) -> CubeGeneralInfo {
    CubeGeneralInfo {
        center: bits([100.0, 200.0, 300.0]),
        rotation_degrees: bits([0.0, 90.0, 0.0]),
        dimensions: bits([400.0, 500.0, length]),
    }
}

#[test]
fn wire_definition_uses_explicit_cube_layout_instead_of_actor_transform() {
    let definition = wire_definition_from_cube(cube(600.0)).expect("valid wire cube");

    assert_eq!(definition.center, bits([100.0, 200.0, 300.0]));
    assert_eq!(definition.rotation_degrees, bits([0.0, 90.0, 0.0]));
    assert_eq!(definition.dimensions, bits([400.0, 500.0, 600.0]));
}

#[test]
fn wires_have_a_length_between_their_limits() {
    for length in [50.01f32, 51.0, 1_000_000.0] {
        assert!(wire_definition_from_cube(cube(length)).is_some(), "{length}");
    }
    for length in [50.0f32, 0.0, -600.0, 1_000_001.0, f32::INFINITY, f32::NAN] {
        assert!(wire_definition_from_cube(cube(length)).is_none(), "{length}");
    }
    assert_eq!(wire_point_count(9, false), 10);
    assert_eq!(wire_point_count(0, true), 2);
    assert_eq!(wire_point_count(100_000, true), 4_098);
}

#[test]
fn wires_come_from_their_own_table() {
    let name = "ワイヤーキューブテーブル";
    let mut inside = wire_record("JDrama::CubeGeneralInfo", None, 20, 10);
    inside.cube_general_info = Some(cube(600.0));
    let mut outside = wire_record("CubeGeneralInfo", None, 110, 10);
    outside.cube_general_info = Some(cube(700.0));
    let mut short = wire_record("CubeGeneralInfo", None, 30, 10);
    short.cube_general_info = Some(cube(10.0));
    let records = vec![
        wire_record("JDrama::CubeGeneralInfoTable", Some(name), 10, 90),
        inside,
        outside,
        short,
    ];
    let found = load_wire_definitions(&[records]);
    assert_eq!(found.len(), 1);
    assert_eq!(found[0].dimensions.z, 600.0f32.to_bits());

    let mut other = wire_record("CubeGeneralInfo", None, 20, 10);
    other.cube_general_info = Some(cube(600.0));
    let records = vec![
        wire_record("CubeGeneralInfoTable", Some("another table"), 10, 90),
        other,
    ];
    assert!(load_wire_definitions(&[records]).is_empty());
    assert!(asset_is_table_file(&asset(
        StageAssetKind::Placement,
        "x!\\Map\\Tables.bin"
    )));
    assert!(asset_is_stage_file(&asset(
        StageAssetKind::Placement,
        "x!/map/scene.bin"
    )));
    assert!(!asset_is_stage_file(&asset(
        StageAssetKind::Model,
        "x!/map/scene.bin"
    )));
}

fn style(width: f32, height: f32) -> WireStyle {
    WireStyle {
        draw_width: width.to_bits(),
        draw_height: height.to_bits(),
        upper_surface: Rgba {
            r: 200,
            g: 200,
            b: 200,
            a: 255,
        },
        lower_surface: Rgba {
            r: 128,
            g: 128,
            b: 128,
            a: 255,
        },
    }
}

#[test]
fn wires_are_drawn_in_the_style_of_their_manager() {
    let file = |found: Option<WireStyle>| {
        let mut record = wire_record("MapWireManager", None, 0, 0);
        record.map_wire_manager = found;
        vec![record]
    };
    assert_eq!(
        load_wire_style(&[file(None), file(Some(style(10.0, 20.0)))]),
        style(10.0, 20.0)
    );
    assert_eq!(
        load_wire_style(&[file(Some(style(0.0, 20.0))), file(Some(style(1.0, 2.0)))]),
        style(1.0, 2.0)
    );
    let default = load_wire_style(&[file(Some(style(-1.0, 20.0)))]);
    assert_eq!(default.draw_width, 5.0f32.to_bits());
    assert_eq!(default.draw_height, 6.0f32.to_bits());
    assert_eq!(default.upper_surface.r, 0x78);
    assert_eq!(default.lower_surface.r, 0x32);
}

#[test]
fn wire_prisms_have_three_sides_to_a_piece() {
    let (mut triangles, mut parts) = (vec![], vec![]);
    let style = style(10.0, 20.0);
    push_wire_prism(&mut triangles, &mut parts, &[true, false, true], 2, style, 7, 11);
    assert_eq!(triangles.len(), 12);
    assert!(triangles.iter().all(|triangle| triangle.model_index == 7));
    assert!(triangles.iter().all(|triangle| triangle.packet_index == 11));
    assert_eq!(
        parts[0],
        WirePart::Prism {
            wire: 2,
            piece: 0,
            side: 0
        }
    );
    assert_eq!(
        parts[11],
        WirePart::Prism {
            wire: 2,
            piece: 2,
            side: 2
        }
    );
}

#[test]
fn builds_retail_sagged_triangular_prism() {
    // A wire of length 500 has nine points between its ends; the last of them is its end.
    let points = wire_point_count(9, false);
    assert_eq!(points, 10);
    let drawn = vec![true; points - 1];
    let style = load_wire_style(&[]);
    let (mut triangles, mut parts) = (vec![], vec![]);
    push_wire_prism(&mut triangles, &mut parts, &drawn, 0, style, 7, 11);
    assert_eq!(triangles.len(), 54);
    assert!(!triangles.is_empty());
    assert!(triangles.iter().all(|triangle| triangle.model_index == 7));
    assert!(triangles.iter().all(|triangle| triangle.packet_index == 11));
    let upper = corners([[0x78, 0x78, 0x78, 0xff]; 3]);
    let lower = corners([[0x32, 0x32, 0x32, 0xff]; 3]);
    assert!(triangles
        .iter()
        .any(|triangle| triangle.color_channels.first == Some(upper)));
    assert!(triangles
        .iter()
        .any(|triangle| triangle.color_channels.first == Some(lower)));
    for (triangle, part) in triangles.iter().zip(&parts) {
        let on_top = matches!(part, WirePart::Prism { side: 0, .. });
        let color = if on_top { upper } else { lower };
        assert_eq!(triangle.vertex_colors, Some(color));
        assert_eq!(triangle.color, Some(color.a));
        assert_eq!(triangle.combine_mode, J3dPreviewCombineMode::VertexOnly);
    }
}

fn fitting() -> J3dGeometryPreview {
    let triangle = |packet: usize| PreviewTriangle {
        source: packet,
        material_index: None,
        packet_index: packet,
        model_index: 0,
        render_layer: PreviewRenderLayer::Sky,
        texture_index: Some(packet),
        mask_texture_index: None,
        cull_mode: None,
        alpha_compare: None,
        blend_mode: None,
        z_mode: None,
        z_comp_loc: None,
        color_channels: ColorChannels {
            first: None,
            second: None,
        },
        color: None,
        vertex_colors: None,
        combine_mode: J3dPreviewCombineMode::Other(3),
        billboard: None,
        particle_type: None,
        particle_color_mode: None,
        particle_environment_color: None,
    };
    J3dGeometryPreview {
        triangles: vec![triangle(0), triangle(1)],
        textures: vec![texture("a")],
        materials: vec![],
    }
}

#[test]
fn wires_get_fittings_at_both_ends() {
    let wires = vec![
        WirePath {
            points: 3,
            drawn: vec![true, true],
            start_finite: vec![true, true],
            end_finite: vec![true, false],
        },
        WirePath {
            points: 1,
            drawn: vec![],
            start_finite: vec![],
            end_finite: vec![],
        },
    ];
    let geometry = fitting();
    let source = WireSource {
        wires: &wires,
        style: style(10.0, 20.0),
        fitting: Some(&geometry),
        fitting_points: 8,
        first_model_index: 1,
        first_packet_index: 100,
    };
    let mut textures = vec![];
    let preview = build_procedural_wire_preview(&source, &mut textures, &mut vec![]);
    assert_eq!(preview.wire_count, 2);
    assert_eq!(preview.points, vec![1, 1, 1]);
    assert_eq!(preview.triangles.len(), 12 + 2 + 1);
    assert_eq!(preview.packet_count, 5);
    assert_eq!(preview.source_vertices, 9 + 16);
    assert_eq!(preview.source_triangles, 12 + 4);
    assert_eq!(preview.source_textures, 1);
    assert_eq!(preview.triangles[12].packet_index, 101);
    assert_eq!(preview.triangles[14].packet_index, 103);
    assert_eq!(preview.triangles[12].texture_index, Some(0));
    assert_eq!(preview.triangles[13].texture_index, None);
    assert_eq!(
        preview.parts[14],
        WirePart::Fitting {
            wire: 0,
            at_end: true
        }
    );
    assert_eq!(textures.len(), 1);
}

#[test]
fn the_first_readable_fitting_is_used() {
    let candidates = wire_fitting_candidates();
    assert_eq!(candidates.len(), 6);
    assert_eq!(candidates[1].file, "files/data/common.szs");
    assert_eq!(candidates[1].member, "!/map/wirefitting.bmd");
    let loaded = vec![None, Some(fitting()), None];
    assert!(load_wire_fitting_preview(&loaded).is_some());
    assert!(load_wire_fitting_preview(&vec![None]).is_none());
}
