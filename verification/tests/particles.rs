use graffito_editor::particle_births::{
    birth_frames, births_in_frame, child_births, child_inheritance,
    color_table_frame, drawn_particles, field_effect,
    final_emission_birth_frame, mix, particle_births, particle_chain, particle_draw_direction,
    random_field_acts, random_field_seed, sample_child_particles,
    sample_color_keys, sample_particles, stripe_particle_segments, ColorKeys,
    ColorPlayback, DirectionSource, FieldEffect, ParentSpan, ParticleChain,
};
use graffito_editor::particle_files::{load_actor_particle_effects, GameFile, ParticleFile};
use graffito_editor::particle_previews::{
    push_actor_particle_previews, push_level_transform_particle_previews, LoadedEffect,
};
use graffito_editor::particle_samples::{apply_particle_samples, ParticleSample};
use graffito_editor::particle_slots::{
    emission_end_frame, level_transform_assignments, level_transform_duration_frames,
    level_transform_effect_groups, particle_capacity, shared_sample_sources, BirthLimits,
    JpaBaseShape, JpaChildShape, JpaEffect, JpaParticleKind, PairedFile,
};
use graffito_editor::particle_sources::{
    all_found, cpp_class_names_for_object, file_holds_effect, particle_file_kind,
    particle_pair_group, requested_particle_effects, resolve_actor_particle_asset,
    searches_directory, with_normalized_paths, FoundEffect, ParticleFileKind, RequestedEffect,
};
use graffito_editor::preview::{
    J3dAlphaCompare, J3dTexturePreview, PreviewRenderLayer, Rgba, TextureSampler,
};
use graffito_editor::registry::{
    ActorParticleBinding, ObjectRegistry, ParticleBindingTarget, ParticleResource,
};
use graffito_editor::stage::{SceneObject, StageAsset, StageAssetKind};

#[test]
fn effect_pair_groups_are_derived_from_asset_names() {
    assert_eq!(
        particle_pair_group("archive!/map/map/custom_raise_a.jpa"),
        Some("custom_raise".to_string())
    );
    assert_eq!(
        particle_pair_group("archive!/map/map/custom_raise_b.jpa"),
        Some("custom_raise".to_string())
    );
    assert_eq!(particle_pair_group("archive!/map/map/unpaired.jpa"), None);
}

#[test]
fn deterministic_random_stays_normalized() {
    assert_eq!(mix(42), mix(42));
    let normalized = mix(42) as f32 / u32::MAX as f32;
    assert!((0.0..=1.0).contains(&normalized));
    assert_ne!(mix(42), mix(43));
    assert_eq!(mix(0), 0);
    assert_eq!(mix(1), 0x688990c0);
}

#[test]
fn directional_shapes_follow_the_requested_jparticle_vector() {
    assert_eq!(particle_draw_direction(0), DirectionSource::Velocity);
    assert_eq!(particle_draw_direction(1), DirectionSource::Position);
    assert_eq!(particle_draw_direction(2), DirectionSource::NegatedPosition);
    assert_eq!(particle_draw_direction(3), DirectionSource::Emitter);
}

#[test]
fn colours_lie_between_the_keys_around_a_frame() {
    assert_eq!(sample_color_keys(&[0, 10], 5), ColorKeys::Between(0));
    assert_eq!(sample_color_keys(&[0, 10, 20], 10), ColorKeys::Between(1));
    assert_eq!(sample_color_keys(&[3, 10], 3), ColorKeys::At(0));
    assert_eq!(sample_color_keys(&[0, 10], 10), ColorKeys::At(1));
    assert_eq!(sample_color_keys(&[], 1), ColorKeys::Nothing);
    assert_eq!(sample_color_keys(&[-5, 10], 0), ColorKeys::Between(0));
}

#[test]
fn colour_tables_are_held_repeated_or_spread() {
    let playback = |mode: u8, frame: u32| ColorPlayback {
        mode,
        max_frame: 4,
        random_offset: true,
        frame,
        life_frame: 7,
        random_frame: 3,
    };
    assert_eq!(color_table_frame(playback(0, 9)), 4);
    assert_eq!(color_table_frame(playback(0, 2)), 2);
    assert_eq!(color_table_frame(playback(1, 6)), 1);
    assert_eq!(color_table_frame(playback(2, 6)), 2);
    assert_eq!(color_table_frame(playback(2, 3)), 3);
    assert_eq!(color_table_frame(playback(3, 0)), 2);
    assert_eq!(color_table_frame(playback(4, 0)), 3);
    assert_eq!(color_table_frame(playback(5, 9)), 0);
}

#[test]
fn crossed_stripes_have_two_pieces_between_particles() {
    let crossed = stripe_particle_segments(2, true, false, 8);
    assert_eq!(crossed.len(), 2);
    assert_eq!((crossed[0].from, crossed[0].to), (1, 0));
    assert!(!crossed[0].second && crossed[1].second);
    let plain = stripe_particle_segments(4, false, true, 8);
    assert_eq!(plain.len(), 3);
    assert_eq!((plain[2].from, plain[2].to), (2, 3));
    assert_eq!(stripe_particle_segments(9, true, false, 3).len(), 3);
    assert!(stripe_particle_segments(0, true, false, 3).is_empty());
    assert_eq!(
        particle_chain(JpaParticleKind::Child, 2, Some(6), 1),
        ParticleChain::Stripe {
            crossed: true,
            reversed: true
        }
    );
    assert_eq!(
        particle_chain(JpaParticleKind::Parent, 2, Some(6), 1),
        ParticleChain::Single
    );
}

#[test]
fn stripe_cross_builds_two_continuous_strip_quads_per_particle_segment() {
    let colors = [[255u8, 255, 255, 32], [255, 255, 255, 255]];
    let segments = stripe_particle_segments(colors.len(), true, false, 8);
    assert_eq!(segments.len(), 2);
    assert!(segments.iter().all(|segment| segment.particle_type == 255));
    assert!(segments
        .iter()
        .all(|segment| colors[segment.head] == [255, 255, 255, 255]));
    // The texture runs from its start to its end along the one gap.
    assert_eq!((segments[0].step, segments[0].steps), (0, 1));
    assert_ne!(segments[0].second, segments[1].second);
    let reversed = stripe_particle_segments(3, false, true, 8);
    assert!(reversed.iter().all(|segment| segment.head == 0));
    assert_eq!((reversed[1].step, reversed[1].steps), (1, 2));
}

#[test]
fn asset_timeline_uses_the_emitter_window_without_the_particle_death_tail() {
    assert_eq!(emission_end_frame(30, 150), 180);
    assert_eq!(emission_end_frame(0, 180), 180);
}

#[test]
fn continuous_emitters_keep_accepting_births_after_frame_zero() {
    assert_eq!(final_emission_birth_frame(240, 0), 240);
    assert_eq!(final_emission_birth_frame(240, -1), 0);
    assert_eq!(final_emission_birth_frame(240, 60), 60);
}

#[test]
fn placement_names_resolve_cpp_particle_classes_without_overlays() {
    let mut registry = ObjectRegistry::new();
    registry.actor_particle_bindings.push(ActorParticleBinding {
        class_name: "TExampleActor".to_string(),
        effect_id: 7,
        target: ParticleBindingTarget::ActorOrigin,
    });
    let object = SceneObject::new("example", "ExampleActor");

    assert_eq!(
        cpp_class_names_for_object(&registry, &object),
        vec!["TExampleActor"]
    );
}

#[test]
fn births_follow_the_interval_and_number_their_seeds() {
    assert_eq!(birth_frames(6, 2), vec![0, 3, 6]);
    assert_eq!(birth_frames(0, 255), vec![0]);
    assert_eq!(births_in_frame(0, 0, true), 1);
    assert_eq!(births_in_frame(0, 0, false), 0);
    assert_eq!(births_in_frame(1, 0, true), 0);
    assert_eq!(births_in_frame(0, 4, true), 4);
    let births = particle_births(&[2, 0, 1]);
    assert_eq!(births.len(), 3);
    assert_eq!((births[0].event, births[0].seed), (0, 0x6d2b_79f5));
    assert_eq!(births[1].seed, 0x9e37_79b9u32.wrapping_add(0x6d2b_79f5));
    assert_eq!(births[2].event, 2);
    assert_eq!(
        births[2].seed,
        2u32.wrapping_mul(0x9e37_79b9).wrapping_add(0x6d2b_79f5)
    );
}

#[test]
fn only_living_particles_fill_the_slots() {
    assert_eq!(
        drawn_particles(&[true, false, true, true], 2),
        vec![0, 2]
    );
    assert_eq!(drawn_particles(&[false, true], 9), vec![1]);
    let drawn = sample_particles(&[1, 2], &[false, true, true], 1);
    assert_eq!(drawn, vec![particle_births(&[1, 2])[1]]);
}

#[test]
fn children_are_born_through_the_life_of_their_parents() {
    let spans = [
        ParentSpan {
            seed: 5,
            age: 7,
            first_age: 2,
            last_age: 6,
        },
        ParentSpan {
            seed: 9,
            age: 2,
            first_age: 3,
            last_age: 2,
        },
    ];
    let births = child_births(&spans, 1, 2);
    let ages: Vec<u32> = births.iter().map(|birth| birth.age).collect();
    assert_eq!(ages, vec![2, 2, 4, 4, 6, 6]);
    assert_eq!(
        births[1].seed,
        5u32.wrapping_add(2u32.wrapping_mul(0x85eb_ca6b))
            .wrapping_add(0xc2b2_ae35)
    );
    assert!(child_births(&spans, 1, -1).is_empty());
    let alive = sample_child_particles(&spans, 1, 2, 4, 8);
    let ages: Vec<u32> = alive.iter().map(|birth| birth.age).collect();
    assert_eq!(ages, vec![4, 4, 6, 6]);
    assert_eq!(sample_child_particles(&spans, 1, 2, 100, 3).len(), 3);
    assert!(sample_child_particles(&spans, 1, 2, -5, 3).is_empty());
    let inherited = child_inheritance(5);
    assert!(inherited.scale && inherited.rgb && !inherited.alpha);
    let last = [ParentSpan {
        seed: 0,
        age: u32::MAX,
        first_age: u32::MAX,
        last_age: u32::MAX,
    }];
    assert_eq!(child_births(&last, 0, 1).len(), 1);
}

fn base_shape() -> JpaBaseShape {
    JpaBaseShape {
        texture_index: 0,
        particle_type: 2,
        direction_type: 0,
        rotation_type: 0,
        color_mode: 4,
        environment_color: Rgba {
            r: 0,
            g: 0,
            b: 0,
            a: 0,
        },
        alpha_compare: J3dAlphaCompare {
            comp0: 7,
            ref0: 0,
            op: 0,
            comp1: 7,
            ref1: 0,
        },
        blend_mode: 1,
        source_blend_factor: 4,
        destination_blend_factor: 1,
        z_compare_enable: true,
        z_compare_function: 3,
    }
}

fn child(draw_parent: bool) -> JpaChildShape {
    JpaChildShape {
        texture_index: 0,
        particle_type: 2,
        direction_type: 0,
        rotation_type: 0,
        environment_color: base_shape().environment_color,
        draw_parent,
        spawn_step: 0,
        spawn_count: 1,
        lifetime: 10,
    }
}

fn texture() -> J3dTexturePreview {
    J3dTexturePreview {
        name: "t".to_string(),
        width: 1,
        height: 1,
        rgba: vec![255, 255, 255, 128],
        mips: vec![],
        sampler: TextureSampler {
            format: 0,
            wrap_s: 0,
            wrap_t: 0,
            min_filter: 0,
            mag_filter: 0,
            mipmap_enabled: false,
            do_edge_lod: false,
            bias_clamp: false,
            max_anisotropy: 0,
            min_lod: 0,
            max_lod: 0,
            lod_bias: 0,
            mipmap_count: 1,
        },
    }
}

fn effect(screen: bool, child_shape: Option<JpaChildShape>) -> LoadedEffect {
    LoadedEffect {
        effect: JpaEffect {
            uses_screen_texture: screen,
            indirect_texture_index: Some(0),
            base_shape: base_shape(),
            child_shape,
            textures: vec![texture()],
            max_frame: 60,
            start_frame: 0,
        },
        limits: BirthLimits {
            parents: 3,
            contributing_parents: 2,
            child_events: 1,
        },
    }
}

#[test]
fn capacities_keep_to_their_limits() {
    let limits = BirthLimits {
        parents: 3,
        contributing_parents: 2,
        child_events: 1,
    };
    assert_eq!(
        particle_capacity(2, None, JpaParticleKind::Parent, limits),
        3
    );
    let many = BirthLimits {
        parents: 100_000,
        ..limits
    };
    assert_eq!(
        particle_capacity(2, None, JpaParticleKind::Parent, many),
        512
    );
    let none = BirthLimits {
        parents: 0,
        ..limits
    };
    assert_eq!(
        particle_capacity(2, None, JpaParticleKind::Parent, none),
        1
    );
}

fn registry() -> ObjectRegistry {
    let mut registry = ObjectRegistry::new();
    for (id, target) in [
        (7, ParticleBindingTarget::ActorOrigin),
        (8, ParticleBindingTarget::ModelJoint(5)),
        (9, ParticleBindingTarget::ModelJoint(1)),
    ] {
        registry.actor_particle_bindings.push(ActorParticleBinding {
            class_name: "TExampleActor".to_string(),
            effect_id: id,
            target,
        });
    }
    registry.particle_resources.push(ParticleResource {
        effect_id: 7,
        path: "/jpa/seven.jpa".to_string(),
    });
    registry
}

#[test]
fn actors_emit_the_effects_of_their_bindings() {
    let registry = registry();
    let object = SceneObject::new("example", "ExampleActor");
    let found = [
        FoundEffect {
            effect_id: 9,
            effect: 1,
        },
        FoundEffect {
            effect_id: 7,
            effect: 0,
        },
        FoundEffect {
            effect_id: 8,
            effect: 0,
        },
    ];
    let effects = [effect(false, None), effect(true, Some(child(false)))];
    let (mut textures, mut triangles, mut packet, mut previews) = (vec![], vec![], 10, vec![]);
    let bindings = push_actor_particle_previews(
        Some(&registry),
        &object,
        &found,
        &effects,
        2,
        4,
        &mut textures,
        &mut triangles,
        &mut packet,
        &mut previews,
    );
    assert_eq!(bindings, vec![0, 2]);
    assert_eq!(previews.len(), 2);
    assert_eq!(packet, 12);
    assert_eq!(textures.len(), 2);
    assert_eq!(previews[0].shared_simulation_id, Some(7));
    assert_eq!(previews[0].particle_capacity, 3);
    assert_eq!(previews[1].kind, JpaParticleKind::Child);
    assert!(triangles.iter().all(|triangle| triangle.model_index == 4));
    assert_eq!(triangles[0].render_layer, PreviewRenderLayer::Particle);
    assert_eq!(triangles[0].packet_index, 10);
}

#[test]
fn pairs_of_effects_accompany_the_targets() {
    let file = |path: &str, screen: bool, max_frame: i16| PairedFile {
        path: path.to_string(),
        uses_screen_texture: screen,
        max_frame,
    };
    let files = [
        file("a!/map/map/rise_a.jpa", false, 10),
        file("a!/map/map/fall_a.jpa", true, 10),
        file("a!/map/map/rise_b.jpa", true, 10),
        file("a!/map/map/fall_b.jpa", true, 10),
    ];
    let groups = level_transform_effect_groups(&files);
    assert_eq!(groups, vec![vec![0, 2]]);
    let assignments = level_transform_assignments(groups.len(), 2);
    assert_eq!(assignments, vec![(0, 0), (0, 1)]);
    assert_eq!(level_transform_assignments(3, 2), vec![(0, 0), (1, 1)]);
    assert_eq!(level_transform_assignments(0, 2), vec![]);
    let effects = [
        effect(false, None),
        effect(false, None),
        effect(true, None),
        effect(false, None),
    ];
    let (mut textures, mut triangles, mut packet, mut previews) = (vec![], vec![], 0, vec![]);
    push_level_transform_particle_previews(
        &effects,
        &groups,
        &assignments,
        &mut textures,
        &mut triangles,
        &mut packet,
        &mut previews,
    );
    assert_eq!(previews.len(), 4);
    assert_eq!(triangles[0].render_layer, PreviewRenderLayer::Particle);
    assert_eq!(
        triangles[6].render_layer,
        PreviewRenderLayer::ParticleDistortion
    );
    assert_eq!(shared_sample_sources(&previews), vec![0, 1, 2, 3]);
}

#[test]
fn transformations_last_as_long_as_their_effects() {
    assert_eq!(
        level_transform_duration_frames(&[(30, 150), (0, 60)]),
        180
    );
    assert_eq!(level_transform_duration_frames(&[]), 600);
}

#[test]
fn effects_are_looked_for_where_they_are_named() {
    let registry = registry();
    let objects = [SceneObject::new("example", "ExampleActor")];
    let requested = requested_particle_effects(&registry, &objects);
    assert_eq!(requested.len(), 1);
    assert_eq!(requested[0].effect_id, 7);
    assert!(requested_particle_effects(&registry, &[]).is_empty());
    let mut found = vec![];
    assert!(!all_found(&requested, &found));
    resolve_actor_particle_asset(&requested, "a!/jpa/seven.jpa", None, &mut found);
    assert!(found.is_empty());
    resolve_actor_particle_asset(&requested, "a!/jpa/seven.jpa", Some(3), &mut found);
    resolve_actor_particle_asset(&requested, "b!/jpa/seven.jpa", Some(4), &mut found);
    assert_eq!(
        found,
        vec![FoundEffect {
            effect_id: 7,
            effect: 3
        }]
    );
    assert!(all_found(&requested, &found));
    assert!(!file_holds_effect("a!/jpa/eight.jpa", "/jpa/seven.jpa"));
    assert_eq!(particle_file_kind(Some("jpa")), ParticleFileKind::Effect);
    assert_eq!(particle_file_kind(Some("SZS")), ParticleFileKind::Archive);
    assert_eq!(particle_file_kind(Some("JPA")), ParticleFileKind::Other);
    assert_eq!(particle_file_kind(None), ParticleFileKind::Other);
    assert!(searches_directory(None));
}

#[test]
fn random_fields_act_once_in_a_cycle() {
    assert!(random_field_acts(0, 0));
    assert!(!random_field_acts(4, 0));
    assert!(random_field_acts(6, 3));
    assert!(!random_field_acts(7, 3));
    assert_eq!(random_field_seed(5, 0, 0), 5);
    assert_eq!(
        random_field_seed(5, 1, 2),
        5u32.wrapping_add(0x9e37_79b9)
            .wrapping_add(0x85eb_ca6bu32.wrapping_mul(2))
    );
    assert_eq!(field_effect(1), FieldEffect::BaseVelocity);
    assert_eq!(field_effect(2), FieldEffect::FieldVelocity);
    assert_eq!(field_effect(0), FieldEffect::Acceleration);
}

fn particle_file(path: &str, effect: Option<usize>) -> ParticleFile {
    ParticleFile {
        asset: StageAsset {
            kind: StageAssetKind::Particle,
            path: path.to_string(),
        },
        effect,
    }
}

fn game_file(path: &str, extension: &str, length: Option<u64>, effect: Option<usize>) -> GameFile {
    GameFile {
        path: path.to_string(),
        extension: Some(extension.to_string()),
        length,
        effect,
        members: vec![],
    }
}

fn wanted(effect_id: u16, path: &str) -> RequestedEffect {
    RequestedEffect {
        effect_id,
        path: path.to_string(),
    }
}

#[test]
fn effects_come_from_the_stage_before_the_game() {
    let requested = [wanted(1, "one.jpa"), wanted(2, "two.jpa"), wanted(3, "three.jpa")];
    let mut other = particle_file("stage!/three.jpa", Some(99));
    other.asset.kind = StageAssetKind::Other;
    let stage = [particle_file("stage!/one.jpa", Some(10)), other];
    let mut archive = game_file("/data/pack.szs", "SZS", Some(1), Some(98));
    archive.members = vec![
        particle_file("pack!/one.jpa", Some(20)),
        particle_file("pack!/two.jpa", Some(21)),
        particle_file("pack!/three.jpa", Some(22)),
    ];
    let files = [
        archive,
        game_file("/data/a/two.jpa", "jpa", None, Some(30)),
        game_file("/data/b/two.jpa", "jpa", Some(500), Some(31)),
        game_file("/data/c/two.jpa", "jpa", Some(500), Some(32)),
        game_file("/data/d/three.JPA", "JPA", Some(5), Some(33)),
    ];
    let found = load_actor_particle_effects(&requested, &stage, &files);
    let pairs: Vec<(u16, usize)> =
        found.iter().map(|item| (item.effect_id, item.effect)).collect();
    assert_eq!(pairs, [(1, 10), (2, 31), (3, 22)]);
    let found = load_actor_particle_effects(&requested[..1], &stage, &files);
    assert_eq!(found.len(), 1);
    assert!(load_actor_particle_effects(&[], &stage, &files).is_empty());
}

#[test]
fn wanted_paths_are_compared_in_their_normal_form() {
    let raw = || vec![wanted(1, "Map\\One.JPA"), wanted(2, "two.jpa")];
    let stage = [
        particle_file("stage!/map/one.jpa", Some(10)),
        particle_file("stage!/two.jpa", Some(11)),
    ];
    let normalized = vec!["map/one.jpa".to_string(), "two.jpa".to_string()];
    let requested = with_normalized_paths(raw(), normalized);
    assert_eq!(requested[0].effect_id, 1);
    assert_eq!(requested[0].path, "map/one.jpa");
    assert_eq!(requested[1].effect_id, 2);
    assert_eq!(requested[1].path, "two.jpa");
    let found = load_actor_particle_effects(&requested, &stage, &[]);
    let pairs: Vec<(u16, usize)> =
        found.iter().map(|item| (item.effect_id, item.effect)).collect();
    assert_eq!(pairs, [(1, 10), (2, 11)]);
    let unchanged = load_actor_particle_effects(&raw(), &stage, &[]);
    assert_eq!(unchanged.len(), 1);
    assert!(with_normalized_paths(vec![], vec![]).is_empty());
}

#[test]
fn archives_are_searched_from_the_shortest() {
    let requested = [wanted(1, "one.jpa"), wanted(2, "two.jpa")];
    let mut long = game_file("/data/long.arc", "arc", Some(900), None);
    long.members = vec![
        particle_file("long!/one.jpa", Some(1)),
        particle_file("long!/two.jpa", Some(2)),
    ];
    let mut short = game_file("/data/short.arc", "arc", Some(100), None);
    short.members = vec![
        particle_file("short!/one.jpa", None),
        particle_file("short!/two.jpa", Some(3)),
    ];
    let found = load_actor_particle_effects(&requested, &[], &[long, short]);
    let pairs: Vec<(u16, usize)> =
        found.iter().map(|item| (item.effect_id, item.effect)).collect();
    assert_eq!(pairs, [(2, 3), (1, 1)]);
}

#[test]
fn particles_fill_their_slots_and_the_rest_is_hidden() {
    let effects = [effect(false, None)];
    let (mut textures, mut triangles, mut packet, mut previews) = (vec![], vec![], 0, vec![]);
    push_level_transform_particle_previews(
        &effects,
        &[vec![0]],
        &[(0, 0)],
        &mut textures,
        &mut triangles,
        &mut packet,
        &mut previews,
    );
    assert_eq!(triangles.len(), 6);
    let fresh = triangles[0];
    assert_eq!(fresh.particle_color_mode, Some(4));
    assert_eq!(
        fresh.particle_environment_color,
        Some(base_shape().environment_color)
    );
    assert_eq!(fresh.particle_type, Some(base_shape().particle_type));
    let hidden = fresh.color_channels.first.unwrap();
    assert_eq!((hidden.a.r, hidden.a.a, hidden.c.a), (255, 0, 0));
    assert_eq!(
        fresh.color_channels.second.unwrap().b,
        base_shape().environment_color
    );

    let color = |a: u8| Rgba {
        r: 1,
        g: 2,
        b: 3,
        a,
    };
    let sample = |a: u8| ParticleSample {
        color: color(a),
        environment_color: color(9),
        particle_type: 255,
    };
    apply_particle_samples(&previews[0], &[sample(40), sample(50)], &mut triangles);
    let alpha = |at: usize| triangles[at].color_channels.first.unwrap().b.a;
    assert_eq!(
        (0..6).map(alpha).collect::<Vec<_>>(),
        [40, 40, 50, 50, 0, 0]
    );
    assert_eq!(triangles[3].color_channels.second.unwrap().a, color(9));
    assert_eq!(triangles[3].particle_type, Some(255));
    assert_eq!(triangles[3].particle_color_mode, Some(4));
    assert_eq!(triangles[4], fresh);
    apply_particle_samples(&previews[0], &[], &mut triangles);
    assert_eq!(triangles[0].color_channels.first, Some(hidden));
    assert_eq!(triangles[0].particle_type, Some(255));
}
