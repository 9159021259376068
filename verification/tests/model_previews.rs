use graffito_editor::jdrama::VectorBits;
use graffito_editor::level_transform::{
    apply_level_transform_visibility, asset_is_scene_file, level_transform_target_is_hidden,
    level_transform_targets, JointExtent, LevelTransformBehavior, LevelTransformTarget,
    ModelJoints, SceneEvent,
};
use graffito_editor::model_preview::{
    apply_model_material_table, apply_npc_eye_decal_culling, apply_pollution_bitmap_mask,
    attach_model_texture_srt_animation, best_material_table, find_pollution_bitmap,
    push_preview_materials, SrtAnimation,
};
use graffito_editor::npc_materials::{
    apply_enemy_tev_overrides, npc_parts_color_index, npc_pollution_k_color, npc_root_color_index,
    push_accessory_instance_materials, push_object_preview_materials,
};
use graffito_editor::order::{comes_before, insert_text};
use graffito_editor::placement_census::{
    retail_placement_census, PlacementSelector, StageObjects,
};
use graffito_editor::preview::{
    J3dAlphaCompare, J3dBlendMode, J3dGeometryPreview, J3dMaterial, J3dMip, J3dTexturePreview,
    J3dZMode, Rgba, TevColor, TextureSampler,
};
use graffito_editor::preview_animations::{
    apply_actor_runtime_textures, asset_stem, attach_npc_texture_pattern_animation,
    npc_accessory_specs, npc_parts_mask, root_accessory_body_pose, starting_joint_animation,
    starting_texture_pattern, texture_pattern_phase_frames, AssetFacts, PatternBinding,
};
use graffito_editor::preview_assets::{
    accessory_joint_animation_path, actor_runtime_texture_replacements, find_stage_asset_at,
    find_stage_asset_by_suffix, is_npc_eye_material_name, model_path_is_map_terrain,
    model_texture_srt_animation_path, model_texture_srt_animation_paths, stable_string_hash,
    starting_joint_animation_candidates,
};
use graffito_editor::preview_textures::{
    decode_pollution_bitmap_mask, preview_texture, replace_pollution_mask_texture_aliases,
};
use graffito_editor::registry::{
    EnemyMaterialColorDefinition, NpcActorDefinition, NpcColorChangeDefinition, NpcPartDefinition,
    NpcPartModelDefinition, ObjectRegistry,
};
use graffito_editor::relative_paths::{insert_path, path_comes_before};
use graffito_editor::stage::{RawParam, SceneObject, StageAsset, StageAssetKind};
use graffito_editor::text::{
    decimal_text, hex_text, parse_i32, parse_usize, replace_first, rsplit_once, strip_end,
    tail_after_pattern, to_lower, trim,
};

fn sampler() -> TextureSampler {
    TextureSampler {
        format: 1,
        wrap_s: 0,
        wrap_t: 0,
        min_filter: 0,
        mag_filter: 0,
        mipmap_enabled: true,
        do_edge_lod: true,
        bias_clamp: false,
        max_anisotropy: 1,
        min_lod: 1,
        max_lod: 2,
        lod_bias: 3,
        mipmap_count: 4,
    }
}

fn texture(name: &str, width: u16, height: u16, rgba: Vec<u8>) -> J3dTexturePreview {
    J3dTexturePreview {
        name: name.to_string(),
        width,
        height,
        rgba,
        mips: vec![],
        sampler: sampler(),
    }
}

fn material(name: &str) -> J3dMaterial {
    let white = Rgba {
        r: 255,
        g: 255,
        b: 255,
        a: 255,
    };
    let none = TevColor {
        r: 0,
        g: 0,
        b: 0,
        a: 0,
    };
    J3dMaterial {
        name: name.to_string(),
        material_index: 0,
        material_id: 0,
        texture_indices: [Some(1), None, None, None, None, None, None, None],
        material_colors: [white; 2],
        tev_colors: [none; 4],
        tev_k_colors: [white; 4],
        cull_mode: 2,
        alpha_compare: J3dAlphaCompare {
            comp0: 7,
            ref0: 0,
            op: 0,
            comp1: 7,
            ref1: 0,
        },
        blend_mode: J3dBlendMode {
            mode: 0,
            src_factor: 1,
            dst_factor: 0,
            logic_op: 3,
        },
        z_mode: J3dZMode {
            compare_enable: 1,
            func: 3,
            update_enable: 1,
        },
        z_comp_loc: 1,
    }
}

fn asset(kind: StageAssetKind, path: &str) -> StageAsset {
    StageAsset {
        kind,
        path: path.to_string(),
    }
}

fn object(factory: &str, params: &[(&str, &str)]) -> SceneObject {
    let mut object = SceneObject::new("object", factory);
    for (name, value) in params {
        object.raw_params.push(RawParam {
            name: name.to_string(),
            value: value.to_string(),
        });
    }
    object
}

#[test]
fn textures_are_uploaded_with_premultiplied_alpha() {
    let opaque = preview_texture(&texture("o", 1, 1, vec![9, 8, 7, 255]));
    assert_eq!(opaque.mips[0].pixels, vec![9, 8, 7, 255]);
    assert!(!opaque.has_alpha && !opaque.has_translucent_alpha);
    let clear = preview_texture(&texture("c", 1, 1, vec![9, 8, 7, 0]));
    assert_eq!(clear.mips[0].pixels, vec![0, 0, 0, 0]);
    assert!(clear.has_alpha && !clear.has_translucent_alpha);
    let half = preview_texture(&texture("h", 1, 1, vec![200, 0, 0, 128]));
    assert_eq!(half.mips[0].pixels, vec![100, 0, 0, 128]);
    assert!(half.has_translucent_alpha);
    let broken = preview_texture(&texture("b", 2, 2, vec![1, 2, 3, 4]));
    assert_eq!(broken.mips[0].pixels, vec![255; 4]);
    let mut leveled = texture("l", 1, 1, vec![1, 2, 3, 255]);
    leveled.mips.push(J3dMip {
        width: 1,
        height: 1,
        rgba: vec![5, 5, 5, 255],
    });
    leveled.mips.push(J3dMip {
        width: 3,
        height: 1,
        rgba: vec![5, 5, 5, 255],
    });
    let leveled = preview_texture(&leveled);
    assert_eq!(leveled.mips.len(), 1);
    assert_eq!(leveled.mips[0].pixels, vec![5, 5, 5, 255]);
}

#[test]
fn colours_are_scaled_by_alpha_and_rounded() {
    let mut rgba = vec![];
    let mut scaled = vec![];
    for alpha in 0..=255_u32 {
        for value in 0..=255_u32 {
            rgba.extend([value as u8, 255, 0, alpha as u8]);
            scaled.extend([
                ((2 * value * alpha + 255) / 510) as u8,
                alpha as u8,
                0,
                alpha as u8,
            ]);
        }
    }
    let uploaded = preview_texture(&texture("all", 256, 256, rgba));
    assert_eq!(uploaded.mips[0].pixels, scaled);
}

fn bitmap(width: i32, height: i32, pixels: &[u8]) -> Vec<u8> {
    let mut bytes = vec![0u8; 40];
    bytes[0] = b'B';
    bytes[1] = b'M';
    bytes[10..14].copy_from_slice(&40u32.to_le_bytes());
    bytes[18..22].copy_from_slice(&width.to_le_bytes());
    bytes[22..26].copy_from_slice(&height.to_le_bytes());
    bytes[26..28].copy_from_slice(&1u16.to_le_bytes());
    bytes[28..30].copy_from_slice(&8u16.to_le_bytes());
    bytes.extend_from_slice(pixels);
    bytes
}

#[test]
fn goop_masks_are_read_bottom_first() {
    let bytes = bitmap(2, 2, &[1, 2, 0, 0, 3, 4, 0, 0]);
    let (width, height, rgba) = decode_pollution_bitmap_mask(&bytes).unwrap();
    assert_eq!((width, height), (2, 2));
    assert_eq!(
        rgba,
        vec![3, 3, 3, 3, 4, 4, 4, 4, 1, 1, 1, 1, 2, 2, 2, 2]
    );
    let top_first = bitmap(2, -2, &[1, 2, 0, 0, 3, 4, 0, 0]);
    assert_eq!(decode_pollution_bitmap_mask(&top_first).unwrap().2[0], 1);
    assert!(decode_pollution_bitmap_mask(&bytes[..bytes.len() - 1]).is_none());
    assert!(decode_pollution_bitmap_mask(b"BM").is_none());

    let mut textures = vec![
        texture("goop", 2, 2, vec![0; 16]),
        texture("goop", 2, 2, vec![0; 16]),
        texture("other", 2, 2, vec![0; 16]),
    ];
    replace_pollution_mask_texture_aliases(&mut textures, 2, 2, &rgba);
    assert_eq!(textures[1].rgba, rgba);
    assert!(!textures[1].sampler.mipmap_enabled);
    assert_eq!(textures[2].rgba, vec![0; 16]);
    let mut preview = J3dGeometryPreview {
        triangles: vec![],
        textures: vec![texture("goop", 2, 2, vec![0; 16])],
        materials: vec![],
    };
    apply_pollution_bitmap_mask(&bytes, &mut preview);
    assert_eq!(preview.textures[0].rgba, rgba);
}

#[test]
fn assets_are_found_by_path_and_suffix() {
    let assets = [
        asset(StageAssetKind::Model, "a!/map/map/map.bmd"),
        asset(StageAssetKind::Animation, "a!\\Map\\map\\MAP.btk"),
    ];
    assert_eq!(
        find_stage_asset_by_suffix(&assets, StageAssetKind::Animation, "/map/map/map.BTK"),
        Some(1)
    );
    assert_eq!(
        find_stage_asset_by_suffix(&assets, StageAssetKind::Texture, "map.btk"),
        None
    );
    assert_eq!(
        find_stage_asset_at(&assets, StageAssetKind::Model, "a!/map/map/map.bmd"),
        Some(0)
    );
    assert!(model_path_is_map_terrain("a!/map/map/map.bmd"));
    assert!(!model_path_is_map_terrain("a!/map/map/sea.bmd"));
    assert_eq!(
        model_texture_srt_animation_path("a/b.bmd"),
        Some("a/b.btk".to_string())
    );
    assert_eq!(
        model_texture_srt_animation_paths("a/b.bmd"),
        vec!["a/b.btk"]
    );
    assert_eq!(
        model_texture_srt_animation_paths("x/gene_pakkun_model1.bmd").len(),
        2
    );
    assert!(accessory_joint_animation_path("a/hat.bmd").is_some());
    assert_eq!(asset_stem("a!/b/c.bck"), "c");
}

#[test]
fn hashes_are_the_same_in_every_run() {
    assert_eq!(stable_string_hash(""), 0xcbf2_9ce4_8422_2325);
    assert_eq!(
        stable_string_hash("a"),
        (0xcbf2_9ce4_8422_2325u64 ^ 0x61).wrapping_mul(0x1000_0000_01b3)
    );
    let npc = object("NPCMonteM", &[]);
    assert!(texture_pattern_phase_frames(&npc, 10) <= 10);
}

#[test]
fn npcs_start_with_their_family_animation() {
    let npc = object("NPCMonteM", &[]);
    let candidates = starting_joint_animation_candidates(&npc, "a!/montem/mom_model.bmd");
    assert!(!candidates.is_empty());
    let assets = [asset(StageAssetKind::Animation, &candidates[0])];
    assert_eq!(
        starting_joint_animation(&assets, &npc, "a!/montem/mom_model.bmd", None),
        Some(0)
    );
    assert!(actor_runtime_texture_replacements("Unknown").is_empty());
    assert!(is_npc_eye_material_name("Left_Eye_Mat"));
    assert!(!is_npc_eye_material_name("eye"));
}

#[test]
fn npc_colours_come_from_their_parameters() {
    let npc = object("NPCMonteM", &[]);
    assert_eq!(npc_root_color_index(&npc, 0), None);
    assert_eq!(npc_parts_color_index(&npc, 0), None);
    assert_eq!(npc_parts_mask(&npc), None);
    assert_eq!(npc_pollution_k_color(&npc), None);
}

#[test]
fn enemy_colours_replace_single_components() {
    let mut registry = ObjectRegistry::new();
    registry
        .enemy_material_colors
        .push(EnemyMaterialColorDefinition {
            factory_name: "Enemy".to_string(),
            material_name: "body".to_string(),
            tev_register: 1,
            color: [Some(10), None, Some(-30), None],
        });
    let none = TevColor {
        r: 1,
        g: 2,
        b: 3,
        a: 4,
    };
    let mut colors = [none; 4];
    apply_enemy_tev_overrides(&mut colors, "body", "Enemy", Some(&registry));
    assert_eq!(
        colors[1],
        TevColor {
            r: 10,
            g: 2,
            b: -30,
            a: 4
        }
    );
    assert_eq!(colors[0], none);
    let mut untouched = [none; 4];
    apply_enemy_tev_overrides(&mut untouched, "body", "Other", Some(&registry));
    assert_eq!(untouched, [none; 4]);
}

#[test]
fn materials_are_moved_behind_those_before() {
    let mut materials = vec![material("first")];
    let base = push_preview_materials(&mut materials, &[material("second")], 10);
    assert_eq!(base, 1);
    assert_eq!(materials[1].material_index, 1);
    assert_eq!(materials[1].texture_indices[0], Some(11));
    assert_eq!(best_material_table(&[None, Some(3), Some(7), Some(7)]).is_some(), true);
    assert_eq!(best_material_table(&[None]), None);
}

#[test]
fn eye_decals_of_npcs_are_seen_from_the_front() {
    let mut preview = J3dGeometryPreview {
        triangles: vec![],
        textures: vec![],
        materials: vec![material("face_eye_mat"), material("body")],
    };
    let before = preview.materials[1].cull_mode;
    apply_npc_eye_decal_culling(&object("NPCMonteM", &[]), &mut preview);
    assert_eq!(preview.materials[1].cull_mode, before);
}

#[test]
fn goop_layers_find_their_mask() {
    let assets = [asset(
        StageAssetKind::Texture,
        "a!/map/pollution/pollution00.bmp",
    )];
    assert_eq!(
        find_pollution_bitmap(&assets, "a!/map/pollution/pollution00.bmd", false),
        None
    );
}

fn target(behavior: LevelTransformBehavior) -> LevelTransformTarget {
    let zero = VectorBits { x: 0, y: 0, z: 0 };
    LevelTransformTarget {
        joint_index: 2,
        translation_offset: zero,
        scale_multiplier: zero,
        behavior,
    }
}

#[test]
fn hidden_targets_hide_their_shapes() {
    assert!(level_transform_target_is_hidden(
        &target(LevelTransformBehavior::AlwaysHidden),
        false
    ));
    assert!(!level_transform_target_is_hidden(
        &target(LevelTransformBehavior::HideAfterStart),
        false
    ));
    assert!(level_transform_target_is_hidden(
        &target(LevelTransformBehavior::HideAfterStart),
        true
    ));
    assert!(!level_transform_target_is_hidden(
        &target(LevelTransformBehavior::Linear),
        true
    ));
    let hidden = apply_level_transform_visibility(
        &[target(LevelTransformBehavior::AlwaysHidden)],
        &[vec![4, 5]],
        false,
        &[4, 6],
    );
    assert_eq!(hidden.len(), 2);
    assert_ne!(hidden[0], hidden[1]);
    let joints = ModelJoints {
        children: vec![],
        buildings: vec![],
        extents: vec![JointExtent {
            height: 0,
            depth: 0,
            depth_past_wall: 0,
        }],
    };
    let events = [SceneEvent {
        record_type: "Nothing".to_string(),
        sink: None,
    }];
    assert!(level_transform_targets(&events, "a!/map/map/map.bmd", None, &joints).is_empty());
    assert!(asset_is_scene_file(&asset(
        StageAssetKind::Placement,
        "a.szs!/map/scene.bin"
    )));
}

#[test]
fn placements_are_counted_by_stage_factory_and_resource() {
    let stage = |id: &str, objects: Vec<SceneObject>| StageObjects {
        stage_id: id.to_string(),
        objects,
    };
    let placed = |factory: &str, resource: &str| {
        object(factory, &[("actor_tail_string", resource)])
    };
    let stages = [
        stage(
            "mare0",
            vec![
                placed("MapObjBase", "b"),
                placed("MapObjBase", "a"),
                placed("MapObjBase", "b"),
                placed("MapObjBase", "unwanted"),
                object("MapObjBase", &[]),
            ],
        ),
        stage("bianco0", vec![placed("MapObjBase", "a")]),
    ];
    let selectors: Vec<PlacementSelector> = ["a", "b", "c"]
        .iter()
        .map(|resource| PlacementSelector {
            factory_name: "MapObjBase".to_string(),
            resource_name: resource.to_string(),
        })
        .collect();
    let census = retail_placement_census(&stages, &selectors);
    let seen: Vec<(&str, &str, usize)> = census
        .iter()
        .map(|entry| {
            (
                entry.stage_id.as_str(),
                entry.resource_name.as_str(),
                entry.count,
            )
        })
        .collect();
    assert_eq!(
        seen,
        vec![("bianco0", "a", 1), ("mare0", "a", 1), ("mare0", "b", 2)]
    );
}

#[test]
fn texts_are_ordered_as_their_bytes_are() {
    for (a, b) in [("", "a"), ("a", "ab"), ("B", "a"), ("z", "é"), ("é", "マ"), ("マ", "😀")] {
        assert!(comes_before(a, b) && a < b, "{a} {b}");
        assert!(!comes_before(b, a));
    }
    assert!(!comes_before("same", "same"));
    let mut list = vec!["a".to_string(), "c".to_string()];
    insert_text(&mut list, "b".to_string());
    insert_text(&mut list, "a".to_string());
    assert_eq!(list, vec!["a", "b", "c"]);
    let path = |text: &str| -> Vec<String> { text.split('/').map(str::to_string).collect() };
    assert!(path_comes_before(&path("a"), &path("a/b")));
    let mut paths = vec![path("a/b")];
    assert!(insert_path(&mut paths, &path("a")));
    assert!(!insert_path(&mut paths, &path("a/b")));
    assert_eq!(paths, vec![path("a"), path("a/b")]);
}

#[test]
fn texts_are_read_and_written_as_std_does() {
    for text in ["0", "+7", "-7", "2147483647", "-2147483648", "2147483648", "", "+", "1a"] {
        assert_eq!(parse_i32(text), text.parse::<i32>().ok(), "{text}");
    }
    for text in [
        "0",
        "+7",
        "-7",
        "18446744073709551615",
        "18446744073709551616",
        "99999999999999999999999999999999999999999999",
        "",
        "+",
        "007",
    ] {
        assert_eq!(parse_usize(text), text.parse::<usize>().ok(), "{text}");
    }
    assert_eq!(decimal_text(u128::MAX), u128::MAX.to_string());
    assert_eq!(hex_text(0x2400ff, 8), "002400ff");
    assert_eq!(to_lower("ÄBC"), "ÄBC".to_ascii_lowercase());
    assert_eq!(trim(" \u{3000}x\t"), " \u{3000}x\t".trim());
    assert_eq!(replace_first("a%sb%s", "%s", "-"), "a-b%s");
    assert_eq!(
        rsplit_once("a.b.c", '.'),
        Some(("a.b".to_string(), "c".to_string()))
    );
    assert_eq!(tail_after_pattern("a::b::c", "::"), "c");
    assert_eq!(tail_after_pattern("a:::b", "::"), "b");
    assert_eq!(strip_end("a.bmd", ".bmd"), Some("a".to_string()));
}

#[test]
fn texture_animations_are_bound_to_materials_by_name() {
    let assets = [asset(StageAssetKind::Animation, "a!/map/sea.btk")];
    let parsed = [SrtAnimation {
        asset: 0,
        material_names: vec!["foam".to_string(), "water".to_string()],
    }];
    let (mut animations, mut bindings) = (vec![], vec![vec![], vec![], vec![]]);
    attach_model_texture_srt_animation(
        &assets,
        &parsed,
        "a!/map/sea.bmd",
        1,
        &[material("water"), material("sand")],
        &mut animations,
        &mut bindings,
    );
    assert_eq!(animations, vec![0]);
    assert_eq!(bindings[1].len(), 1);
    assert_eq!(bindings[1][0].animation_index, 0);
    assert_eq!(bindings[1][0].binding_index, 1);
    assert!(bindings[2].is_empty());
}

#[test]
fn complete_material_tables_replace_materials_by_name() {
    let mut preview = J3dGeometryPreview {
        triangles: vec![],
        textures: vec![texture("old", 1, 1, vec![0; 4])],
        materials: vec![material("body"), material("head")],
    };
    let mut replacement = material("head");
    replacement.cull_mode = 0;
    replacement.texture_indices[0] = Some(0);
    assert!(apply_model_material_table(
        &mut preview,
        vec![replacement.duplicate()],
        vec![texture("new", 1, 1, vec![1; 4])]
    ));
    assert_eq!(preview.materials[1].cull_mode, 0);
    assert_eq!(preview.materials[0].cull_mode, 2);
    assert_eq!(preview.textures[0].name, "new");
    replacement.texture_indices[0] = Some(9);
    replacement.cull_mode = 1;
    assert!(!apply_model_material_table(
        &mut preview,
        vec![replacement],
        vec![texture("new", 1, 1, vec![1; 4])]
    ));
    assert_eq!(preview.materials[1].cull_mode, 0);
}

fn npc_registry() -> ObjectRegistry {
    let mut registry = ObjectRegistry::new();
    registry.npc_actors.push(NpcActorDefinition {
        factory_name: "NPCMonteM".to_string(),
        parts: vec![
            NpcPartDefinition {
                bit_index: 0,
                color_index_channel: 0,
                uses_pollution: false,
                color_changes: vec![],
                models: vec![NpcPartModelDefinition {
                    model_name: "hat".to_string(),
                    joint_name: Some("head".to_string()),
                }],
            },
            NpcPartDefinition {
                bit_index: 3,
                color_index_channel: 1,
                uses_pollution: true,
                color_changes: vec![NpcColorChangeDefinition {
                    material_name: "cloth".to_string(),
                    mode: 0,
                    colors0: vec![],
                    colors1: vec![],
                }],
                models: vec![NpcPartModelDefinition {
                    model_name: "broom".to_string(),
                    joint_name: None,
                }],
            },
        ],
    });
    registry
}

#[test]
fn npc_parts_follow_their_mask() {
    let registry = npc_registry();
    let npc = object("NPCMonteM", &[("npc_parts_mask", "8")]);
    assert_eq!(npc_parts_mask(&npc), Some(8));
    let parts = npc_accessory_specs(Some(&registry), &npc, Some(8));
    assert_eq!(parts.len(), 1);
    assert!(parts[0].asset_suffix.contains("broom"));
    assert!(parts[0].uses_pollution);
    assert_eq!(npc_accessory_specs(Some(&registry), &npc, Some(9)).len(), 2);
    assert!(npc_accessory_specs(Some(&registry), &npc, None).is_empty());
    assert!(npc_accessory_specs(None, &npc, Some(9)).is_empty());
    let mut odd = npc_registry();
    odd.npc_actors[0].parts[0].bit_index = 32;
    assert!(npc_accessory_specs(Some(&odd), &npc, None).is_empty());
    let facts: [AssetFacts; 0] = [];
    assert_eq!(root_accessory_body_pose(&[], &facts, &parts, Some(4)), None);

    let mut materials = vec![material("cloth"), material("skin")];
    let base = push_accessory_instance_materials(&mut materials, 0, 2, &npc, &parts[0]);
    assert_eq!(base, 2);
    assert_eq!(materials.len(), 4);
    assert_eq!(materials[3].material_index, 3);
    let plain = npc_accessory_specs(Some(&registry), &npc, Some(1));
    assert_eq!(
        push_accessory_instance_materials(&mut materials, 0, 2, &npc, &plain[0]),
        0
    );
    let rock = object("MapObjRock", &[]);
    assert_eq!(
        push_object_preview_materials(&mut materials, 0, 2, &rock, Some(&registry)),
        0
    );
}

#[test]
fn npcs_wink_with_their_pattern() {
    let npc = object("NPCMonteM", &[]);
    let assets = [asset(
        StageAssetKind::Animation,
        "a.szs!/montemcommon/mom_wink.btp",
    )];
    assert_eq!(
        starting_texture_pattern(&assets, &npc, "a.szs!/montem/mom_model.bmd"),
        Some(0)
    );
    let patterns = [PatternBinding {
        material_name: "face".to_string(),
        texture_slot: 0,
        texture_index: Some(2),
    }];
    let mut materials = vec![material("x"), material("face")];
    let bound = attach_npc_texture_pattern_animation(
        &patterns,
        &[material("face")],
        1,
        10,
        &mut materials,
    );
    assert_eq!(bound.len(), 1);
    assert_eq!(bound[0].material_index, 1);
    assert_eq!(bound[0].current_texture_index, Some(12));
    assert_eq!(materials[1].texture_indices[0], Some(12));
}

#[test]
fn dummy_textures_are_replaced_by_name() {
    let npc = object("NPCMonteM", &[]);
    let names = actor_runtime_texture_replacements("NPCMonteM");
    assert_eq!(names.len(), 2);
    let mut preview = J3dGeometryPreview {
        triangles: vec![],
        textures: vec![
            texture("H_ma_rak_dummy", 1, 1, vec![0; 4]),
            texture("other", 1, 1, vec![0; 4]),
        ],
        materials: vec![],
    };
    apply_actor_runtime_textures(
        &npc,
        &[Some(texture("h_ma_rak", 1, 1, vec![9; 4])), None],
        &mut preview,
    );
    assert_eq!(preview.textures[0].rgba, vec![9; 4]);
    assert_eq!(preview.textures[0].name, "H_ma_rak_dummy");
    assert_eq!(preview.textures[1].rgba, vec![0; 4]);
}
