use graffito_editor::editor::SmsEditorApp;
use graffito_editor::ids::{model_runtime_resource_key, runtime_character_name};
use graffito_editor::jdrama::{
    collect_jdrama_record_names, find_jdrama_group_path_in_record, JDramaField, JDramaFieldValue,
    JDramaRecord, JDramaRecordPayload, JDramaTransform, VectorBits,
};
use graffito_editor::model_export::{
    placed_collision_instances, runtime_actor_parent_path, stage_edits_after_first_reading,
    stock_collision, stock_collision_surfaces, terrain_instances, AssetCollision, AuthoredSky,
    BakedCollision, BakedModel, CompiledCollision, ExportError, ExportInstance, MergeFailure,
    ModelAssetSnapshot, ModelExport, StageArchive, StockFault, COLLISION_NAME, TERRAIN_NAME,
};
use graffito_editor::model_instances::{
    model_instance_loader_flags, model_instance_preview_key, should_default_to_map_terrain,
    validate_instance_loader_compatibility, validate_standalone_actor_model_budget,
    AuthoredModelPreviewKey, CollisionSurface, CompiledModel, EditorModelInstance,
    GxDiagnosticSeverity,
    GxMaterialDiagnostic, J3dSection, LoaderFlagsError, ModelInstanceExportMode,
    ModelInstancePlacement, StageLoaderFlags, SMS_SM_J3D_ACT_MODEL_LOAD_FLAGS,
    STANDALONE_ACTOR_TEX1_SAFETY_BUDGET, TEX1_TAG,
};
use graffito_editor::model_snapshot::snapshot_error;
use graffito_editor::registry::{
    MapObjCollisionResourceDefinition, MapObjResourceDefinition, ObjectRegistry,
};
use graffito_editor::runtime_sky::{
    runtime_sky_resource_path_is, runtime_sky_resource_stem,
    runtime_sky_visual_animation_extension,
};
use graffito_editor::sky_bundle::{effective_sky_model, ArchiveResource, SkyTable};
use graffito_editor::stage_edits::{
    CollisionDocument, DocumentId, EditOperation, StageArchiveEdits, StageResourceDocument,
};
use graffito_editor::stock_path::{stock_mapobj_archive_path, StockPathError};
use std::sync::atomic::AtomicBool;

const FLAGS: StageLoaderFlags = StageLoaderFlags {
    map: 0x5100_0000,
    default_object: 0x1022_0000,
};

fn vector(x: f32, y: f32, z: f32) -> VectorBits {
    VectorBits {
        x: x.to_bits(),
        y: y.to_bits(),
        z: z.to_bits(),
    }
}

fn placement(asset: u128, name: &str) -> ModelInstancePlacement {
    ModelInstancePlacement::new(100 + asset, asset, name, vector(0.0, 0.0, 0.0))
}

fn collision() -> AssetCollision {
    AssetCollision {
        vertices: vec![
            vector(0.0, 0.0, 0.0),
            vector(1.0, 0.0, 0.0),
            vector(0.0, 0.0, 1.0),
            vector(0.0, 2.0, 0.0),
        ],
        surfaces: vec![
            CollisionSurface {
                surface_type: 0,
                attribute_0: 0,
                attribute_1: 0,
                data: None,
            },
            CollisionSurface {
                surface_type: 0x0100,
                attribute_0: 1,
                attribute_1: 2,
                data: Some(3),
            },
        ],
    }
}

/// The document of a collision, compiled from what the library hands out for the placement.
fn compiled(placement: &ModelInstancePlacement) -> CompiledCollision {
    CompiledCollision {
        source: stock_collision(placement, &collision()),
        outcome: Ok(DocumentId(50)),
    }
}

fn exported(placement: ModelInstancePlacement) -> ExportInstance {
    let loader_flags = match placement.export_mode {
        ModelInstanceExportMode::SeparateRuntimeObject => SMS_SM_J3D_ACT_MODEL_LOAD_FLAGS,
        ModelInstanceExportMode::MapTerrain => FLAGS.map,
        ModelInstanceExportMode::Skybox => FLAGS.default_object,
        ModelInstanceExportMode::StockMapObjBase => 0x1022_0000,
    };
    let stock_collision = compiled(&placement);
    ExportInstance {
        placement,
        loader_flags,
        loader_diagnostics: vec![],
        stock_collision,
    }
}

fn baked_terrain(instances: &[ExportInstance]) -> BakedModel {
    BakedModel {
        name: TERRAIN_NAME.to_string(),
        parts: terrain_instances(instances),
        outcome: Ok(DocumentId(900)),
    }
}

fn baked_collision(instances: &[ExportInstance]) -> BakedCollision {
    BakedCollision {
        name: COLLISION_NAME.to_string(),
        parts: placed_collision_instances(instances),
        outcome: Ok(Some(DocumentId(901))),
    }
}

fn authored_sky(instances: &[ExportInstance], record_type: &str) -> AuthoredSky {
    let transform = instances
        .iter()
        .find(|instance| instance.placement.export_mode == ModelInstanceExportMode::Skybox)
        .map_or(placement(0, "none").transform, |instance| {
            instance.placement.transform
        });
    AuthoredSky {
        transform,
        record: Ok(JDramaRecord {
            record_type: record_type.to_string(),
            name: "sky".to_string(),
            payload: JDramaRecordPayload::Fields { fields: vec![] },
        }),
    }
}

fn asset(id: u128) -> ModelAssetSnapshot {
    ModelAssetSnapshot {
        asset_id: id,
        unacknowledged: vec![],
        compiled: Ok(CompiledModel {
            document: DocumentId(id as u64),
            sections: vec![J3dSection {
                tag: TEX1_TAG,
                declared_size: 32,
            }],
        }),
        collision: Some(collision()),
    }
}

fn group(kind: &str, name: &str, children: Vec<JDramaRecord>) -> JDramaRecord {
    JDramaRecord {
        record_type: kind.to_string(),
        name: name.to_string(),
        payload: JDramaRecordPayload::Group {
            fields: vec![],
            children,
        },
    }
}

fn scene() -> JDramaRecord {
    let manager = JDramaRecord {
        record_type: "MapObjManager".to_string(),
        name: "fixture map object manager".to_string(),
        payload: JDramaRecordPayload::Fields {
            fields: vec![JDramaField {
                name: "capacity".to_string(),
                value: JDramaFieldValue::U32(300),
            }],
        },
    };
    group(
        "GroupObj",
        "whole scene",
        vec![manager, group("MarScene", "normal scene", vec![])],
    )
}

fn archive() -> StageArchive {
    StageArchive {
        resources: vec![ArchiveResource {
            raw_path: b"map/scene.bin".to_vec(),
            document: StageResourceDocument::Placement(scene()),
        }],
        object_types: vec![],
        runtime_map_group: Ok(Some(vec![1, 0, 0])),
        object_group: Ok(Some(vec![1, 0, 2])),
        sky_group: Ok(Some(vec![1, 0, 1])),
    }
}

fn registry() -> ObjectRegistry {
    let mut registry = ObjectRegistry::new();
    registry.map_obj_resources.push(MapObjResourceDefinition {
        resource_name: "VerifiedBlock".to_string(),
        object_flags: 0,
        required_manager_name: "fixture map object manager".to_string(),
        has_hold_dependency: false,
        has_move_dependency: false,
        uses_resource_name_model_fallback: true,
        primary_model: Some("/scene/mapObj/VerifiedBlock.bmd".to_string()),
        load_flags: 0x1022_0000,
        collision_resources: vec![MapObjCollisionResourceDefinition {
            resource_name: "/scene/mapObj/VerifiedBlockCollision.col".to_string(),
            max_vertices: Some(350),
        }],
    });
    registry
}

fn stock(asset: u128, resource: &str) -> ExportInstance {
    let mut placement = placement(asset, "Stock block");
    placement.export_mode = ModelInstanceExportMode::StockMapObjBase;
    placement.stock_map_obj_resource = resource.to_string();
    exported(placement)
}

fn run(
    assets: &[ModelAssetSnapshot],
    instances: &[ExportInstance],
    base: StageArchiveEdits,
    archive: Option<&StageArchive>,
    registry: Option<&ObjectRegistry>,
) -> Result<StageArchiveEdits, String> {
    let terrain = baked_terrain(instances);
    let collision = baked_collision(instances);
    let x = ModelExport {
        assets,
        instances,
        archive,
        registry,
        flags: FLAGS,
        terrain: &terrain,
        placed_collision: &collision,
    };
    // The table of the sky that the stage has in the end: the skybox's own, or that of the edits.
    let sky_model = instances
        .iter()
        .find(|instance| instance.placement.export_mode == ModelInstanceExportMode::Skybox)
        .map(|instance| DocumentId(instance.placement.asset_id as u64))
        .or_else(|| {
            archive.and_then(|archive| effective_sky_model(&archive.resources, &base))
        });
    let table = sky_model.map(|model| SkyTable {
        model,
        table: DocumentId(902),
    });
    SmsEditorApp::stage_edits_with_model_instances_from_snapshot(
        &x,
        base,
        authored_sky(instances, "Sky"),
        table,
    )
    .map_err(|error| error.message(&x, ""))
}

#[test]
fn first_collision_model_defaults_to_authored_map_terrain_only_once() {
    assert!(should_default_to_map_terrain(true, true, "custom0", &[]));
    assert!(!should_default_to_map_terrain(false, true, "custom0", &[]));
    assert!(!should_default_to_map_terrain(true, false, "custom0", &[]));

    let mut placement = placement(1, "world");
    placement.export_mode = ModelInstanceExportMode::MapTerrain;
    let instances = [EditorModelInstance {
        stage_id: "custom0".to_string(),
        placement,
        bounds_min: vector(-1.0, -1.0, -1.0),
        bounds_max: vector(1.0, 1.0, 1.0),
    }];
    assert!(!should_default_to_map_terrain(
        true, true, "custom0", &instances
    ));
    assert!(should_default_to_map_terrain(
        true, true, "custom1", &instances
    ));
}

#[test]
fn instance_preview_keys_follow_the_exact_runtime_loader_for_each_export_mode() {
    let registry = registry();
    let asset_id = 77;
    let mut instance = EditorModelInstance {
        stage_id: "test11".to_string(),
        placement: placement(asset_id, "profile"),
        bounds_min: vector(0.0, 0.0, 0.0),
        bounds_max: vector(1.0, 1.0, 1.0),
    };

    assert_eq!(
        model_instance_preview_key(&instance, Some(&registry), FLAGS).unwrap(),
        AuthoredModelPreviewKey {
            asset_id,
            loader_flags: SMS_SM_J3D_ACT_MODEL_LOAD_FLAGS,
        }
    );

    instance.placement.export_mode = ModelInstanceExportMode::MapTerrain;
    assert_eq!(
        model_instance_preview_key(&instance, Some(&registry), FLAGS)
            .unwrap()
            .loader_flags,
        FLAGS.map
    );

    instance.placement.export_mode = ModelInstanceExportMode::Skybox;
    assert_eq!(
        model_instance_preview_key(&instance, Some(&registry), FLAGS)
            .unwrap()
            .loader_flags,
        FLAGS.default_object
    );

    instance.placement.export_mode = ModelInstanceExportMode::StockMapObjBase;
    instance.placement.stock_map_obj_resource = "VerifiedBlock".to_string();
    assert_eq!(
        model_instance_preview_key(&instance, Some(&registry), FLAGS)
            .unwrap()
            .loader_flags,
        registry.map_obj_resources[0].load_flags
    );
}

#[test]
fn stock_loaders_need_a_known_slot() {
    let mut placement = placement(1, "slot");
    placement.export_mode = ModelInstanceExportMode::StockMapObjBase;
    let registry = registry();
    assert_eq!(
        model_instance_loader_flags(&placement, Some(&registry), FLAGS),
        Err(LoaderFlagsError::NoSlotSelected)
    );
    placement.stock_map_obj_resource = "Unknown".to_string();
    assert_eq!(
        model_instance_loader_flags(&placement, None, FLAGS),
        Err(LoaderFlagsError::RegistryUnavailable)
    );
    assert_eq!(
        model_instance_loader_flags(&placement, Some(&registry), FLAGS),
        Err(LoaderFlagsError::UnknownSlot)
    );
}

#[test]
fn explicit_map_terrain_mode_replaces_world_model_and_appends_collision() {
    let mut placement = placement(1, "TestInstance");
    placement.export_mode = ModelInstanceExportMode::MapTerrain;
    let edits = run(
        &[asset(1)],
        &[exported(placement)],
        StageArchiveEdits::new(),
        None,
        None,
    )
    .unwrap();
    assert_eq!(edits.models.len(), 1);
    assert_eq!(edits.models[0].raw_resource_path, b"map/map/map.bmd");
    assert_eq!(edits.collisions.len(), 1);
    assert_eq!(edits.collisions[0].raw_resource_path, b"map/map.col");
}

#[test]
fn skybox_mode_authors_global_model_and_typed_sky_actor_without_collision() {
    let mut placement = placement(1, "AuthoredSky");
    placement.export_mode = ModelInstanceExportMode::Skybox;
    let archive = archive();
    let edits = run(
        &[asset(1)],
        &[exported(placement)],
        StageArchiveEdits::new(),
        Some(&archive),
        None,
    )
    .unwrap();
    assert_eq!(
        edits
            .models
            .iter()
            .map(|edit| edit.raw_resource_path.as_slice())
            .collect::<Vec<_>>(),
        [
            b"map/map/sky.bmd".as_slice(),
            b"map/map/sky.bmt",
            b"map/map/reflectsky.bmd",
        ]
    );
    assert_eq!(edits.models[1].document, DocumentId(902));
    assert_eq!(edits.models[2].document, edits.models[0].document);
    assert!(edits.collisions.is_empty());
    assert_eq!(edits.placement_inserts.len(), 1);
    assert_eq!(edits.placement_inserts[0].record.record_type, "Sky");
    assert_eq!(
        edits.placement_inserts[0].raw_resource_path,
        b"map/scene.bin"
    );
}

#[test]
fn legacy_sky_only_project_edit_derives_the_runtime_reflection_bundle() {
    let mut archive = archive();
    archive.resources.push(ArchiveResource {
        raw_path: b"map/map/reflectsky.bmd".to_vec(),
        document: StageResourceDocument::Model(DocumentId(7)),
    });

    let sky = DocumentId(8);
    let mut base = StageArchiveEdits::new();
    base.put_resource(
        b"map/map/sky.bmd".to_vec(),
        EditOperation::Upsert,
        StageResourceDocument::Model(sky),
    );
    base.remove_resource(b"map/map/sky.bmt".to_vec());
    assert_eq!(effective_sky_model(&archive.resources, &base), Some(sky));

    let edits = run(&[], &[], base, Some(&archive), None).unwrap();
    let material_table = edits
        .models
        .iter()
        .find(|edit| edit.raw_resource_path == b"map/map/sky.bmt")
        .expect("derived shared sky material table");
    assert_eq!(material_table.document, DocumentId(902));
    let reflection = edits
        .models
        .iter()
        .find(|edit| edit.raw_resource_path == b"map/map/reflectsky.bmd")
        .expect("derived ReflectSky helper");
    assert_eq!(reflection.document, sky);
}

#[test]
fn default_runtime_mode_leaves_terrain_bmd_untouched_and_deduplicates_assets() {
    let mut second = placement(1, "Runtime B");
    second.instance_id = 500;
    let instances = [exported(placement(1, "Runtime A")), exported(second)];
    let archive = archive();
    let runtime_parent = runtime_actor_parent_path(&archive).unwrap();

    let edits = run(
        &[asset(1)],
        &instances,
        StageArchiveEdits::new(),
        Some(&archive),
        None,
    )
    .unwrap();

    assert_eq!(edits.models.len(), 1, "one BMD per distinct asset");
    assert_eq!(
        edits.models[0].raw_resource_path,
        format!("mapobj/{}/default.bmd", model_runtime_resource_key(1)).into_bytes()
    );
    assert!(edits
        .models
        .iter()
        .all(|edit| edit.raw_resource_path != b"map/map/map.bmd"));
    assert_eq!(edits.resources.len(), 1);
    assert_eq!(edits.resources[0].raw_resource_path, b"map/tables.bin");
    let StageResourceDocument::Placement(tables) = &edits.resources[0].document else {
        panic!("authored tables resource is not placement data");
    };
    let JDramaRecordPayload::Group { children, .. } = &tables.payload else {
        panic!("authored tables root is not a group");
    };
    assert_eq!(children.len(), 1, "one ObjChara per distinct asset");
    assert_eq!(children[0].record_type, "ObjChara");
    assert_eq!(edits.placement_inserts.len(), 2);
    assert!(edits
        .placement_inserts
        .iter()
        .all(|insert| insert.record.record_type == "SmJ3DAct"));
    assert!(edits
        .placement_inserts
        .iter()
        .all(|insert| insert.parent_record_path == runtime_parent));
    assert_eq!(edits.collisions.len(), 1);
    assert_eq!(edits.collisions[0].raw_resource_path, b"map/map.col");
}

#[test]
fn runtime_actor_parent_requires_one_exact_scheduled_map_group() {
    let message = |archive: &StageArchive| {
        let error = runtime_actor_parent_path(archive).unwrap_err();
        let terrain = baked_terrain(&[]);
        let collision = baked_collision(&[]);
        let x = ModelExport {
            assets: &[],
            instances: &[],
            archive: Some(archive),
            registry: None,
            flags: FLAGS,
            terrain: &terrain,
            placed_collision: &collision,
        };
        error.message(&x, "")
    };
    let mut missing = archive();
    missing.runtime_map_group = Ok(None);
    let missing = message(&missing);
    assert!(missing.contains("IdxGroup"), "{missing}");
    assert!(missing.contains("マップグループ"), "{missing}");
    assert!(missing.contains("never be scheduled"), "{missing}");

    let mut ambiguous = archive();
    ambiguous.runtime_map_group = Err("group マップグループ is ambiguous".to_string());
    let ambiguous = message(&ambiguous);
    assert!(ambiguous.contains("ambiguous"), "{ambiguous}");
    assert!(ambiguous.contains("マップグループ"), "{ambiguous}");
}

#[test]
fn separate_runtime_export_checks_the_exact_sm_j3d_act_loader_profile() {
    let mut instance = exported(placement(1, "Runtime loader"));
    instance.loader_diagnostics.push(GxMaterialDiagnostic {
        severity: GxDiagnosticSeverity::Warning,
        material_index: 0,
        message: "loader 0x00240000 ignores indirect state".to_string(),
        code: "loader-ignores-indirect".to_string(),
    });
    assert_eq!(instance.loader_flags, 0x0024_0000);
    assert!(instance.loader_diagnostics.iter().any(|diagnostic| {
        diagnostic.code == "loader-ignores-indirect"
            && diagnostic.message.contains("0x00240000")
    }));
    assert_eq!(
        validate_instance_loader_compatibility(&instance.loader_diagnostics),
        None
    );
    let archive = archive();
    let edits = run(
        &[asset(1)],
        std::slice::from_ref(&instance),
        StageArchiveEdits::new(),
        Some(&archive),
        None,
    )
    .unwrap();
    assert_eq!(edits.models.len(), 1, "warnings do not block export");

    instance.loader_flags = FLAGS.map;
    let error = run(
        &[asset(1)],
        std::slice::from_ref(&instance),
        StageArchiveEdits::new(),
        Some(&archive),
        None,
    )
    .unwrap_err();
    assert!(error.contains("not checked for this loader"), "{error}");
    instance.loader_flags = SMS_SM_J3D_ACT_MODEL_LOAD_FLAGS;

    instance.loader_diagnostics.push(GxMaterialDiagnostic {
        severity: GxDiagnosticSeverity::Error,
        material_index: 3,
        message: "too many stages".to_string(),
        code: "stages".to_string(),
    });
    let error = run(
        &[asset(1)],
        &[instance],
        StageArchiveEdits::new(),
        Some(&archive),
        None,
    )
    .unwrap_err();
    assert!(error.contains("material 3: too many stages (stages)"), "{error}");
    assert!(error.contains("0x00240000"), "{error}");
}

#[test]
fn standalone_actor_budget_rejects_oversized_tex1_but_not_map_terrain() {
    let model = CompiledModel {
        document: DocumentId(1),
        sections: vec![J3dSection {
            tag: TEX1_TAG,
            declared_size: (STANDALONE_ACTOR_TEX1_SAFETY_BUDGET + 0x20) as u32,
        }],
    };
    let placement = placement(1, "oversized");
    let error = validate_standalone_actor_model_budget(&model)
        .unwrap_err()
        .message(&placement, "SmJ3DAct");
    assert!(error.contains("24 MiB MEM1"), "{error}");
    assert!(error.contains("not a BMD format limit"), "{error}");
    assert!(error.contains("map-terrain mode"), "{error}");

    let mut terrain = placement;
    terrain.export_mode = ModelInstanceExportMode::MapTerrain;
    assert_eq!(
        model_instance_loader_flags(&terrain, None, FLAGS).unwrap(),
        FLAGS.map
    );
}

#[test]
fn verified_stock_map_obj_base_exports_exact_resources_and_local_collision() {
    let mut instance = stock(1, "VerifiedBlock");
    instance.placement.transform = JDramaTransform {
        translation: vector(4_000.0, 5_000.0, 6_000.0),
        rotation: vector(10.0, 20.0, 30.0),
        scale: vector(2.0, 3.0, 4.0),
    };
    let surface = CollisionSurface {
        surface_type: 0x4004,
        attribute_0: 7,
        attribute_1: 9,
        data: Some(11),
    };
    instance.placement.collision_surface_override = Some(surface);
    instance.stock_collision = compiled(&instance.placement);
    let archive = archive();
    let registry = registry();

    let edits = run(
        &[asset(1)],
        std::slice::from_ref(&instance),
        StageArchiveEdits::new(),
        Some(&archive),
        Some(&registry),
    )
    .unwrap();

    assert_eq!(edits.models.len(), 1);
    assert_eq!(
        edits.models[0].raw_resource_path,
        b"mapobj/VerifiedBlock.bmd"
    );
    assert_eq!(edits.collisions.len(), 1);
    assert_eq!(
        edits.collisions[0].raw_resource_path,
        b"mapobj/VerifiedBlockCollision.col"
    );
    assert!(edits
        .collisions
        .iter()
        .all(|edit| edit.raw_resource_path != b"map/map.col"));
    assert_eq!(
        edits.collisions[0].document,
        CollisionDocument::Compiled(DocumentId(50))
    );
    // Document 50 was compiled from this collision, which the library handed out.
    let installed = &instance.stock_collision.source;
    assert_eq!(
        installed.vertices,
        collision().vertices,
        "stock collision must remain actor-local rather than receiving the placement transform"
    );
    assert_eq!(installed.surfaces.len(), 2);
    assert!(installed.surfaces.iter().all(|group| {
        group.surface_type == 0x4004
            && group.attribute_0 == 7
            && group.attribute_1 == 9
            && group.data == Some(11)
    }));

    assert_eq!(edits.placement_inserts.len(), 1);
    let insertion = &edits.placement_inserts[0];
    assert_eq!(insertion.parent_record_path, vec![1, 0, 2]);
    assert_eq!(insertion.record.record_type, "MapObjBase");
    let JDramaRecordPayload::Actor {
        transform, fields, ..
    } = &insertion.record.payload
    else {
        panic!("stock placement is not a typed actor");
    };
    assert_eq!(transform.translation, vector(4_000.0, 5_000.0, 6_000.0));
    assert_eq!(fields.len(), 1);
    assert_eq!(fields[0].name, "resource_name");
    assert!(
        matches!(&fields[0].value, JDramaFieldValue::Text(text) if text == "VerifiedBlock")
    );
}

#[test]
fn stock_collision_of_other_surfaces_or_vertices_is_refused() {
    let archive = archive();
    let registry = registry();
    let fails = |instance: ExportInstance| {
        run(
            &[asset(1)],
            &[instance],
            StageArchiveEdits::new(),
            Some(&archive),
            Some(&registry),
        )
        .unwrap_err()
    };
    let mut instance = stock(1, "VerifiedBlock");
    instance.placement.collision_surface_override = Some(collision().surfaces[1]);
    let error = fails(instance);
    assert!(error.contains("compiled of another collision"), "{error}");
    let mut instance = stock(1, "VerifiedBlock");
    instance.stock_collision.source.vertices[0] = vector(4_000.0, 0.0, 0.0);
    let error = fails(instance);
    assert!(error.contains("compiled of another collision"), "{error}");
    let mut instance = stock(1, "VerifiedBlock");
    instance.stock_collision.outcome = Err("degenerate triangle".to_string());
    let error = fails(instance);
    assert!(error.contains("degenerate triangle"), "{error}");

    let groups = collision().surfaces;
    let mut placed = placement(1, "plain");
    assert_eq!(stock_collision_surfaces(&placed, &groups), groups);
    placed.collision_surface_override = Some(groups[1]);
    assert_eq!(
        stock_collision_surfaces(&placed, &groups),
        vec![groups[1], groups[1]]
    );
}

fn with_mode(asset: u128, mode: ModelInstanceExportMode) -> ExportInstance {
    let mut placement = placement(asset, "mixed");
    placement.export_mode = mode;
    placement.stock_map_obj_resource = "VerifiedBlock".to_string();
    exported(placement)
}

#[test]
fn world_documents_are_baked_of_their_instances_in_order() {
    let instances = [
        with_mode(1, ModelInstanceExportMode::MapTerrain),
        with_mode(2, ModelInstanceExportMode::SeparateRuntimeObject),
        with_mode(3, ModelInstanceExportMode::Skybox),
        with_mode(4, ModelInstanceExportMode::MapTerrain),
        with_mode(5, ModelInstanceExportMode::StockMapObjBase),
        with_mode(6, ModelInstanceExportMode::SeparateRuntimeObject),
    ];
    assert_eq!(terrain_instances(&instances), vec![0, 3]);
    assert_eq!(placed_collision_instances(&instances), vec![1, 5, 0, 3]);
    assert!(terrain_instances(&[]).is_empty());
    assert!(placed_collision_instances(&instances[2..3]).is_empty());

    let assets: Vec<ModelAssetSnapshot> = (1..=6).map(asset).collect();
    let archive = archive();
    let registry = registry();
    let message = |terrain: &BakedModel, collision: &BakedCollision| {
        let x = ModelExport {
            assets: &assets,
            instances: &instances,
            archive: Some(&archive),
            registry: Some(&registry),
            flags: FLAGS,
            terrain,
            placed_collision: collision,
        };
        SmsEditorApp::stage_edits_with_model_instances_from_snapshot(
            &x,
            StageArchiveEdits::new(),
            authored_sky(&instances, "Sky"),
            Some(SkyTable {
                model: DocumentId(3),
                table: DocumentId(902),
            }),
        )
        .map_err(|error| error.message(&x, ""))
    };
    let terrain = baked_terrain(&instances);
    let collision = baked_collision(&instances);
    let edits = message(&terrain, &collision).unwrap();
    let world = edits
        .models
        .iter()
        .find(|edit| edit.raw_resource_path == b"map/map/map.bmd")
        .unwrap();
    assert_eq!(world.document, DocumentId(900));
    assert_eq!(
        edits.collisions.last().unwrap().document,
        CollisionDocument::Compiled(DocumentId(901))
    );

    let mut short = baked_terrain(&instances);
    short.parts.pop();
    let error = message(&short, &collision).unwrap_err();
    assert!(error.contains("could not bake map-terrain instances"), "{error}");
    let mut more = baked_collision(&instances);
    more.parts.push(2);
    let error = message(&terrain, &more).unwrap_err();
    assert!(error.contains("could not merge placed model collision"), "{error}");
    let mut failed = baked_terrain(&instances);
    failed.outcome = Err(MergeFailure::Compile("too many joints".to_string()));
    let error = message(&failed, &collision).unwrap_err();
    assert!(error.contains("could not compile replacement map BMD3: too many joints"), "{error}");
    let mut failed = baked_collision(&instances);
    failed.outcome = Err(MergeFailure::Merge("mixed units".to_string()));
    let error = message(&terrain, &failed).unwrap_err();
    assert!(error.contains("mixed units"), "{error}");
}

#[test]
fn a_sky_needs_its_own_actor_and_table() {
    let instances = [with_mode(1, ModelInstanceExportMode::Skybox)];
    let assets = [asset(1)];
    let archive = archive();
    let terrain = baked_terrain(&instances);
    let collision = baked_collision(&instances);
    let x = ModelExport {
        assets: &assets,
        instances: &instances,
        archive: Some(&archive),
        registry: None,
        flags: FLAGS,
        terrain: &terrain,
        placed_collision: &collision,
    };
    let with = |sky: AuthoredSky, model: u64| {
        SmsEditorApp::stage_edits_with_model_instances_from_snapshot(
            &x,
            StageArchiveEdits::new(),
            sky,
            Some(SkyTable {
                model: DocumentId(model),
                table: DocumentId(902),
            }),
        )
    };
    let edits = with(authored_sky(&instances, "JDrama::Sky"), 1).unwrap();
    assert_eq!(edits.placement_inserts[0].record.record_type, "JDrama::Sky");
    assert_eq!(
        with(authored_sky(&instances, "MapObjBase"), 1).unwrap_err(),
        ExportError::SkyRecord
    );
    let mut moved = authored_sky(&instances, "Sky");
    moved.transform.scale = vector(2.0, 2.0, 2.0);
    assert_eq!(with(moved, 1).unwrap_err(), ExportError::SkyRecord);
    assert_eq!(
        with(authored_sky(&instances, "Sky"), 2).unwrap_err(),
        ExportError::SkyTable
    );
}

#[test]
fn the_first_reading_of_the_flag_comes_first() {
    let terrain = baked_terrain(&[]);
    let collision = baked_collision(&[]);
    let x = ModelExport {
        assets: &[],
        instances: &[],
        archive: None,
        registry: None,
        flags: FLAGS,
        terrain: &terrain,
        placed_collision: &collision,
    };
    let after = |stopped: bool, flag: &AtomicBool| {
        stage_edits_after_first_reading(
            &x,
            StageArchiveEdits::new(),
            authored_sky(&[], "Sky"),
            None,
            stopped,
            Some(flag),
        )
    };
    let set = AtomicBool::new(true);
    let unset = AtomicBool::new(false);
    assert_eq!(after(true, &unset).unwrap_err(), ExportError::Cancelled);
    assert!(after(false, &set).is_ok(), "nothing is placed: no second reading");
}

#[test]
fn stock_map_obj_base_rejects_unknown_and_conflicting_slots() {
    let archive = archive();
    let registry = registry();
    let error = run(
        &[asset(1)],
        &[stock(1, "verifiedblock")],
        StageArchiveEdits::new(),
        Some(&archive),
        Some(&registry),
    )
    .unwrap_err();
    assert!(
        error.contains("unknown stock MapObjBase resource"),
        "{error}"
    );
    assert!(error.contains("case-sensitive"), "{error}");

    let error = run(
        &[asset(1), asset(2)],
        &[stock(1, "VerifiedBlock"), stock(2, "VerifiedBlock")],
        StageArchiveEdits::new(),
        Some(&archive),
        Some(&registry),
    )
    .unwrap_err();
    assert!(error.contains("assigned to both asset"), "{error}");
}

#[test]
fn disabled_stock_collision_replaces_the_fixed_resource_with_an_empty_col() {
    let mut instance = stock(1, "VerifiedBlock");
    instance.placement.collision_enabled = false;
    let archive = archive();
    let registry = registry();
    let edits = run(
        &[asset(1)],
        &[instance],
        StageArchiveEdits::new(),
        Some(&archive),
        Some(&registry),
    )
    .unwrap();
    assert_eq!(edits.collisions.len(), 1);
    assert_eq!(edits.collisions[0].document, CollisionDocument::Empty);
}

#[test]
fn unsafe_stock_slot_metadata_is_rejected_before_authoring() {
    let archive = archive();
    let mut registry = registry();
    let fails = |registry: &ObjectRegistry| {
        run(
            &[asset(1)],
            &[stock(1, "VerifiedBlock")],
            StageArchiveEdits::new(),
            Some(&archive),
            Some(registry),
        )
        .unwrap_err()
    };

    registry.map_obj_resources[0].required_manager_name = "absent manager".to_string();
    let error = fails(&registry);
    assert!(
        error.contains("requires the exact scene manager record"),
        "{error}"
    );
    assert!(error.contains("absent manager"), "{error}");

    registry.map_obj_resources[0].required_manager_name = "fixture map object manager".to_string();
    registry.map_obj_resources[0].has_hold_dependency = true;
    let error = fails(&registry);
    assert!(error.contains("TMapObjData::mHold"), "{error}");

    registry.map_obj_resources[0].has_hold_dependency = false;
    registry.map_obj_resources[0].has_move_dependency = true;
    let error = fails(&registry);
    assert!(error.contains("TMapObjData::mMove"), "{error}");

    registry.map_obj_resources[0].has_move_dependency = false;
    registry.map_obj_resources[0].object_flags = 0x80;
    let error = fails(&registry);
    assert!(error.contains("damage-height"), "{error}");

    registry.map_obj_resources[0].object_flags = 0;
    registry.map_obj_resources[0].uses_resource_name_model_fallback = false;
    let error = fails(&registry);
    assert!(
        error.contains("compiled animation/model metadata"),
        "{error}"
    );

    registry.map_obj_resources[0].uses_resource_name_model_fallback = true;
    registry.map_obj_resources[0].primary_model = None;
    let error = fails(&registry);
    assert!(
        error.contains("does not instantiate a primary model"),
        "{error}"
    );
}

#[test]
fn stage_export_requires_persisted_import_diagnostic_acknowledgements() {
    let mut pending = asset(1);
    pending.unacknowledged.push("pbr-metallic".to_string());
    let error = run(
        &[pending],
        &[exported(placement(1, "PbrInstance"))],
        StageArchiveEdits::new(),
        None,
        None,
    )
    .unwrap_err();
    assert!(error.contains("unacknowledged import diagnostics"));
    assert!(error.contains("pbr-metallic"));

    let archive = archive();
    run(
        &[asset(1)],
        &[exported(placement(1, "PbrInstance"))],
        StageArchiveEdits::new(),
        Some(&archive),
        None,
    )
    .unwrap();
}

#[test]
fn model_export_honors_managed_build_cancellation_before_compilation() {
    let cancelled = AtomicBool::new(true);
    let terrain = baked_terrain(&[]);
    let collision = baked_collision(&[]);
    let x = ModelExport {
        assets: &[],
        instances: &[],
        archive: None,
        registry: None,
        flags: FLAGS,
        terrain: &terrain,
        placed_collision: &collision,
    };
    let error = SmsEditorApp::stage_edits_with_model_instances_from_snapshot_cancellable(
        &x,
        StageArchiveEdits::new(),
        authored_sky(&[], "Sky"),
        None,
        &cancelled,
    )
    .unwrap_err();
    assert_eq!(error, ExportError::Cancelled);
    assert!(graffito_editor::cancellation::is_cancelled_error(
        &error.message(&x, "")
    ));
}

#[test]
fn exports_name_what_they_lack() {
    let missing = run(
        &[],
        &[exported(placement(1, "a"))],
        StageArchiveEdits::new(),
        None,
        None,
    )
    .unwrap_err();
    assert!(missing.contains("model snapshot is missing instance"));
    assert!(missing.contains("00000000-0000-0000-0000-000000000001"));
    let error = run(
        &[asset(1)],
        &[exported(placement(1, "a"))],
        StageArchiveEdits::new(),
        None,
        None,
    )
    .unwrap_err();
    assert!(error.contains("requires the open source-free stage archive"));
    let archive = archive();
    let error = run(
        &[asset(1)],
        &[stock(1, "VerifiedBlock")],
        StageArchiveEdits::new(),
        Some(&archive),
        None,
    )
    .unwrap_err();
    assert!(error.contains("decomp-derived object registry"));
    let mut limited = registry();
    limited.map_obj_resources[0].collision_resources[0].max_vertices = Some(3);
    let assets = [asset(1)];
    let instances = [stock(1, "VerifiedBlock")];
    let terrain = baked_terrain(&instances);
    let collision = baked_collision(&instances);
    let x = ModelExport {
        assets: &assets,
        instances: &instances,
        archive: Some(&archive),
        registry: Some(&limited),
        flags: FLAGS,
        terrain: &terrain,
        placed_collision: &collision,
    };
    assert_eq!(
        SmsEditorApp::stage_edits_with_model_instances_from_snapshot(
            &x,
            StageArchiveEdits::new(),
            authored_sky(&instances, "Sky"),
            None,
        )
        .unwrap_err(),
        ExportError::Stock(0, StockFault::CollisionLimit(0))
    );
}

#[test]
fn stock_paths_stay_below_the_map_objects() {
    assert_eq!(
        stock_mapobj_archive_path("/scene/mapObj/Block.bmd", ".bmd").unwrap(),
        b"mapobj/Block.bmd"
    );
    assert_eq!(
        stock_mapobj_archive_path(" Block.bmd", ".bmd"),
        Err(StockPathError::Invalid)
    );
    assert_eq!(
        stock_mapobj_archive_path("/other/Block.bmd", ".bmd"),
        Err(StockPathError::Outside)
    );
    assert_eq!(
        stock_mapobj_archive_path("/scene/mapObj/../Block.bmd", ".bmd"),
        Err(StockPathError::UnsafeComponent)
    );
    assert_eq!(
        stock_mapobj_archive_path("/scene/mapObj/Block.col", ".bmd"),
        Err(StockPathError::WrongExtension)
    );
}

#[test]
fn an_accepted_stock_path_stands_for_itself() {
    for (resource, extension) in [
        ("/scene/mapObj/Block.bmd", ".bmd"),
        ("scene\\MAPOBJ\\sub/Block.BMD", ".bmd"),
        ("Wall", ".col"),
        ("mapobj/mapobj/a.b/Wall", ".col"),
        (".wall/Wall", ".col"),
    ] {
        let path = stock_mapobj_archive_path(resource, extension).unwrap();
        let text = std::str::from_utf8(&path).unwrap();
        assert_eq!(
            stock_mapobj_archive_path(text, extension).as_ref(),
            Ok(&path),
            "{resource}"
        );
        assert!(text.starts_with("mapobj/") && text.to_lowercase().ends_with(extension));
    }
    assert_eq!(
        stock_mapobj_archive_path("Wall", ".col").unwrap(),
        b"mapobj/Wall.col"
    );
}

#[test]
fn sky_resources_are_recognised_by_their_paths() {
    assert_eq!(runtime_sky_resource_stem(b"map/map/Sky.bmd"), Some("sky"));
    assert_eq!(
        runtime_sky_resource_stem(b"map\\map\\reflectsky.btk"),
        Some("reflectsky")
    );
    assert_eq!(runtime_sky_resource_stem(b"map/map/other.bmd"), None);
    assert!(runtime_sky_resource_path_is(b"map/map/SKY.BMT", "sky", "bmt"));
    assert!(!runtime_sky_resource_path_is(b"map/map/sky.bmd", "sky", "bmt"));
    assert_eq!(
        runtime_sky_visual_animation_extension(b"map/map/sky.btk", "sky"),
        Some("btk".to_string())
    );
    assert_eq!(
        runtime_sky_visual_animation_extension(b"map/map/sky.bmd", "sky"),
        None
    );
}

#[test]
fn runtime_names_come_from_the_asset_identifier() {
    let id = 0x0123_4567_89ab_cdef_0123_4567_89ab_cdef;
    assert!(model_runtime_resource_key(id).contains("0123456789abcdef0123456789abcdef"));
    assert!(runtime_character_name(id).contains("0123456789abcdef0123456789abcdef"));
    assert_ne!(model_runtime_resource_key(1), model_runtime_resource_key(2));
}

#[test]
fn record_trees_are_searched_in_order() {
    let tree = group(
        "Root",
        "root",
        vec![
            group("A", "first", vec![group("Wanted", "inner", vec![])]),
            group("Wanted", "outer", vec![]),
        ],
    );
    assert_eq!(
        find_jdrama_group_path_in_record(&tree, "Wanted"),
        Some(vec![0, 0])
    );
    assert_eq!(find_jdrama_group_path_in_record(&tree, "Root"), Some(vec![]));
    assert_eq!(find_jdrama_group_path_in_record(&tree, "None"), None);
    let mut names = vec![];
    collect_jdrama_record_names(&tree, &mut names);
    assert_eq!(names, vec!["root", "first", "inner", "outer"]);
}

#[test]
fn every_asset_is_read_once() {
    let instance = |asset: u128| EditorModelInstance {
        stage_id: "s".to_string(),
        placement: placement(asset, "x"),
        bounds_min: vector(0.0, 0.0, 0.0),
        bounds_max: vector(0.0, 0.0, 0.0),
    };
    let instances = [instance(3), instance(5), instance(3), instance(4)];
    assert_eq!(
        SmsEditorApp::load_model_asset_snapshot(&instances),
        vec![0, 1, 3]
    );
    assert_eq!(
        snapshot_error(&instances[0], "gone"),
        "could not snapshot model instance 00000000-0000-0000-0000-000000000067 (asset 00000000-0000-0000-0000-000000000003): gone"
    );
}
