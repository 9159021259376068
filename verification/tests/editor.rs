use graffito_editor::asset_edits::model_target_diagnostics;
use graffito_editor::asset_inspectors::{
    collision_line, hierarchy_line, model_collision_inspector, model_hierarchy_inspector,
    node_depth, node_line, node_sign, primitive_line, review_diagnostic, thumbnail_color,
    thumbnail_line, CollisionGroup, MaterialPreset, ModelNode, ModelTargetProfile,
    PrimitiveCounts,
};
use graffito_editor::asset_names::{find_asset_stem, find_folder, first_free_copy, put_in_folder};
use graffito_editor::asset_operations::{
    find_entry, CatalogChange, CatalogReply, LoadOutcome, SaveStep,
};
use graffito_editor::authored_preview::{
    append_authored_model_instances, empty_authored_model_preview, AppendSource, CachedGeometry,
};
use graffito_editor::content_browser::{
    row_ends, separate_file_line, CollisionMode, CollisionSimplification, CollisionSource,
    CoordinateConversion, ImportOptions, ImportPanelInput,
};
use graffito_editor::diagnostics_inspector::{
    model_diagnostics_inspector, ImportDiagnostic, Severity,
};
use graffito_editor::editor::{
    push_bounded, AssetState, CatalogAssetEntry, CatalogRequest, CatalogState, EditorEffect,
    InstanceState, PreviewState, ProjectState, SmsEditorApp,
};
use graffito_editor::editor_assets::{
    CatalogIssue, CatalogScan, CommitOutcome, ImportNews, ImportStep,
};
use graffito_editor::editor_instances::{ManifestOutcome, PlacedAsset, PlacementSource};
use graffito_editor::instance_inspector::{
    collision_surface_description, export_mode_label, export_mode_remark, find_stock_notice, loader_flags_line,
    loader_status, selected_slot_text, stock_slot_candidates, stock_slot_label,
    warns_of_lost_collision, InspectorChanges, LoaderStatus, StockNotice,
};
use graffito_editor::jdrama::{JDramaTransform, VectorBits};
use graffito_editor::model_instances::{
    AuthoredModelPreviewKey, CollisionSurface, EditorModelInstance, GxDiagnosticSeverity,
    GxMaterialDiagnostic, ModelInstanceExportMode, ModelInstancePlacement, StageLoaderFlags,
};
use graffito_editor::preview::{
    ColorChannels, J3dGeometryPreview, J3dPreviewCombineMode, J3dTexturePreview,
    PreviewRenderLayer, PreviewTriangle, TextureSampler,
};
use graffito_editor::preview_cache::{assets_of_keys, holds_key, loader_flags_for_asset};
use graffito_editor::registry::{
    CollisionSurfaceDefinition, MapObjResourceDefinition, ObjectRegistry,
};
use graffito_editor::stage_edits::DocumentId;

const FLAGS: StageLoaderFlags = StageLoaderFlags {
    map: 0x5100_0000,
    default_object: 0x1022_0000,
};

fn vector(x: f32, y: f32, z: f32) -> VectorBits {
    VectorBits {
        x: x.to_bits(),
        y: y.to_bits(),
        z: z.to_bits(),
    }
}

fn app() -> SmsEditorApp {
    SmsEditorApp {
        project: ProjectState {
            project_root: "/projects/demo".to_string(),
            stage_id: "custom0".to_string(),
            stage_open: true,
            authored_blank_stage: false,
            background_active: false,
            registry: None,
            flags: FLAGS,
        },
        catalog: CatalogState {
            root: None,
            entries: vec![],
            issues: vec![],
            folder_filter: None,
            asset_filter: String::new(),
            rename_draft: String::new(),
            move_draft: String::new(),
            folder_draft: String::new(),
            import_running: false,
        },
        asset: AssetState {
            selected: None,
            document: None,
            saved: None,
            material: 0,
            texture: 0,
            dirty: false,
            undo: vec![],
            redo: vec![],
        },
        instances: InstanceState {
            list: vec![],
            selected: None,
            dirty: false,
            undo: vec![],
            redo: vec![],
            surface_template: None,
        },
        preview: PreviewState {
            cache: vec![],
            model: None,
            base: None,
        },
        selected_object_id: None,
        model_editor_error: None,
        log: vec![],
        effects: vec![],
    }
}

fn entry(id: u128, name: &str, path: &str) -> CatalogAssetEntry {
    CatalogAssetEntry {
        id,
        name: name.to_string(),
        relative_path: path.to_string(),
        mesh_count: 1,
        material_count: 1,
        texture_count: 1,
        has_collision: true,
    }
}

fn instance(id: u128, asset: u128) -> EditorModelInstance {
    EditorModelInstance {
        stage_id: "custom0".to_string(),
        placement: ModelInstancePlacement::new(id, asset, "placed", vector(1.0, 2.0, 3.0)),
        bounds_min: vector(-1.0, -1.0, -1.0),
        bounds_max: vector(1.0, 1.0, 1.0),
    }
}

#[test]
fn background_build_locks_content_catalog_mutations() {
    let mut app = app();
    app.project.background_active = true;
    assert!(!app.content_catalog_mutation_allowed("save the model asset"));
    assert!(app
        .model_editor_error
        .as_deref()
        .is_some_and(|message| message.contains("Content snapshot")));
}

#[test]
fn the_catalog_is_scanned_once_for_a_root() {
    let mut app = app();
    assert_eq!(
        app.model_content_root(),
        Some("/projects/demo/Content".to_string())
    );
    app.refresh_model_catalog();
    assert_eq!(app.effects, vec![EditorEffect::ScanCatalog]);
    app.refresh_model_catalog();
    assert_eq!(app.effects.len(), 1);
    app.finish_catalog_scan(
        Ok(CatalogScan {
            assets: vec![entry(1, "a", "a.smsmodel")],
            issues: vec![CatalogIssue {
                kind: "Unreadable".to_string(),
                relative_path: "b.smsmodel".to_string(),
                message: "broken".to_string(),
            }],
        }),
        "/projects/demo/Content",
    );
    assert_eq!(app.catalog.entries.len(), 1);
    assert!(app.catalog.issues[0].contains("b.smsmodel"));
    assert_eq!(app.effects.last(), Some(&EditorEffect::LoadInstances));
    app.force_refresh_model_catalog();
    assert!(app.catalog.entries.is_empty());
    app.finish_catalog_scan(Err("denied".to_string()), "root");
    assert_eq!(
        app.log.last().unwrap(),
        "Could not scan model assets under 'root': denied"
    );
    app.project.project_root = "  ".to_string();
    assert_eq!(app.model_content_root(), None);
}

#[test]
fn imports_run_one_at_a_time() {
    let mut app = app();
    assert!(app.begin_model_import());
    app.catalog.folder_filter = Some("Geometry".to_string());
    assert_eq!(
        app.start_model_import(Some("rock"), "/tmp/rock.gltf"),
        Some("Geometry/rock.smsmodel".to_string())
    );
    assert!(!app.begin_model_import());
    assert_eq!(app.poll_model_import(ImportNews::Nothing), ImportStep::AskLater);
    app.project.background_active = true;
    assert_eq!(
        app.poll_model_import(ImportNews::Prepared),
        ImportStep::AskLater
    );
    app.project.background_active = false;
    assert_eq!(
        app.poll_model_import(ImportNews::Prepared),
        ImportStep::Commit
    );
    assert!(!app.catalog.import_running);
    let lines = app.log.len();
    let line = app.commit_prepared_model_import(
        CommitOutcome::Created {
            id: 9,
            relative_path: "Geometry/rock.smsmodel".to_string(),
        },
        "/tmp/rock.gltf",
    );
    assert_eq!(
        line.as_deref(),
        Some(
            "Imported '/tmp/rock.gltf' as Content/Geometry/rock.smsmodel; \
             the source glTF was not retained."
        )
    );
    assert_eq!(app.log.len(), lines);
    assert_eq!(
        app.effects,
        vec![EditorEffect::ScanCatalog, EditorEffect::SelectAsset(9)]
    );
    assert_eq!(
        app.commit_prepared_model_import(CommitOutcome::Failed("full".to_string()), "s"),
        None
    );
    assert_eq!(
        app.log.last().unwrap(),
        "Model import could not be committed: full"
    );
    assert_eq!(
        app.commit_prepared_model_import(CommitOutcome::NoCatalog("gone".to_string()), "s"),
        None
    );
    assert_eq!(app.log.last().unwrap(), "Model import was not committed: gone");

    app.start_model_import(Some("tree"), "t");
    assert_eq!(
        app.poll_model_import(ImportNews::Failed("bad file".to_string())),
        ImportStep::Idle
    );
    assert_eq!(app.log.last().unwrap(), "Model import failed: bad file");
    app.start_model_import(Some("tree"), "t");
    app.cancel_model_import();
    assert_eq!(app.effects.last(), Some(&EditorEffect::CancelImport));
    assert_eq!(app.start_model_import(None, "t"), None);
}

#[test]
fn first_authored_stage_model_is_placed_as_terrain_and_framed() {
    let mut app = app();
    app.project.authored_blank_stage = true;
    app.asset.selected = Some(5);
    app.asset.document = Some(DocumentId(3));
    app.asset.saved = Some(DocumentId(3));
    app.selected_object_id = Some("object".to_string());
    let asset = || PlacedAsset {
        name: "large-terrain".to_string(),
        has_collision: true,
        bounds: None,
    };
    assert!(app.placing_is_possible());
    assert_eq!(
        app.model_placement_source(5),
        PlacementSource::Open(Some(DocumentId(3)))
    );
    assert_eq!(app.model_placement_source(6), PlacementSource::Catalog);
    let placed = app
        .spawn_model_instance_at(
            5,
            50,
            Some(asset()),
            true,
            vector(0.0, 0.0, 0.0),
            "0.0, 0.0, 0.0",
        )
        .unwrap();
    assert_eq!(placed.loader_flags, FLAGS.map);
    assert_eq!(app.instances.list.len(), 1);
    assert_eq!(
        app.instances.list[0].placement.export_mode,
        ModelInstanceExportMode::MapTerrain
    );
    assert_eq!(
        app.instances.selected,
        Some(app.instances.list[0].placement.instance_id)
    );
    assert_eq!(app.instances.selected, Some(50));
    assert!(app.instances.dirty);
    assert_eq!(app.instances.list[0].bounds_min, vector(-50.0, -50.0, -50.0));
    assert_eq!(app.instances.list[0].bounds_max, vector(50.0, 50.0, 50.0));
    assert_eq!(app.asset.selected, None);
    assert_eq!(app.asset.document, None);
    assert_eq!(app.asset.saved, None);
    assert_eq!(app.selected_object_id, None);
    app.cache_model_preview(5, placed.loader_flags, Ok(()));
    assert!(holds_key(
        &app.preview.cache,
        AuthoredModelPreviewKey {
            asset_id: 5,
            loader_flags: FLAGS.map,
        }
    ));
    assert_eq!(
        app.effects,
        vec![EditorEffect::SaveInstances, EditorEffect::RebuildViewport]
    );
    assert_eq!(
        app.log,
        vec![
            "The first collision-bearing model in this authored stage was assigned as map terrain."
                .to_string()
        ]
    );
    app.effects.clear();
    app.finish_placing_model(placed);
    assert_eq!(
        app.log.last().unwrap(),
        "Placed model 'large-terrain' at 0.0, 0.0, 0.0."
    );
    assert_eq!(app.effects, vec![EditorEffect::FrameSelection]);

    let placed = app
        .spawn_model_instance_at(
            5,
            51,
            Some(asset()),
            true,
            vector(0.0, 0.0, 0.0),
            "0.0, 0.0, 0.0",
        )
        .unwrap();
    assert_eq!(placed.loader_flags, 0x0024_0000);
    assert_eq!(
        app.instances.list[1].placement.export_mode,
        ModelInstanceExportMode::SeparateRuntimeObject
    );
    app.effects.clear();
    app.finish_placing_model(placed);
    assert!(app.effects.is_empty());
}

#[test]
fn models_are_placed_only_in_an_open_stage_and_once_loaded() {
    let mut app = app();
    let place = |app: &mut SmsEditorApp, found: bool, saved: bool| {
        let asset = PlacedAsset { name: "rock".to_string(), has_collision: false, bounds: None };
        let asset = if found { Some(asset) } else { None };
        app.spawn_model_instance_at(5, 52, asset, saved, vector(0.0, 0.0, 0.0), "").is_some()
    };
    assert!(!place(&mut app, true, false));
    assert!(app.log.is_empty());
    assert!(!place(&mut app, false, true));
    assert_eq!(
        app.log.last().unwrap(),
        "Could not load the model asset for placement."
    );
    app.project.stage_open = false;
    assert!(!app.placing_is_possible());
    assert!(!place(&mut app, true, true));
    assert_eq!(
        app.log.last().unwrap(),
        "Open a stage before placing a model asset."
    );
    assert!(app.instances.list.is_empty());
    assert!(app.effects.is_empty());
}

#[test]
fn what_an_effect_asks_for_comes_before_the_effects_behind_it() {
    let mut app = app();
    assert!(app.next_effect().is_none());
    app.effects = vec![
        EditorEffect::ScanCatalog,
        EditorEffect::SelectAsset(9),
        EditorEffect::RebuildViewport,
    ];
    let (effect, behind) = app.next_effect().unwrap();
    assert_eq!(effect, EditorEffect::ScanCatalog);
    assert!(app.effects.is_empty());
    app.effects.push(EditorEffect::LoadInstances);
    app.resume_effects(behind);
    assert_eq!(
        app.effects,
        vec![
            EditorEffect::LoadInstances,
            EditorEffect::SelectAsset(9),
            EditorEffect::RebuildViewport,
        ]
    );
}

#[test]
fn instance_edits_can_be_taken_back_and_repeated() {
    let mut app = app();
    app.instances.list.push(instance(1, 10));
    app.instances.selected = Some(1);
    let mut moved = instance(1, 10);
    moved.placement.transform.translation = vector(9.0, 9.0, 9.0);
    app.update_selected_model_instance(moved);
    assert_eq!(app.instances.undo.len(), 1);
    assert!(app.undo_model_instance());
    assert_eq!(
        app.instances.list[0].placement.transform.translation,
        vector(1.0, 2.0, 3.0)
    );
    assert!(!app.undo_model_instance());
    assert!(app.redo_model_instance());
    assert_eq!(
        app.instances.list[0].placement.transform.translation,
        vector(9.0, 9.0, 9.0)
    );
    assert!(!app.redo_model_instance());
    assert!(app.delete_selected_model_instance());
    assert!(app.instances.list.is_empty());
    assert!(!app.delete_selected_model_instance());
    assert!(app.undo_model_instance());
    assert_eq!(app.instances.list.len(), 1);
    app.instances.selected = Some(77);
    app.ensure_model_instance_selection_exists();
    assert_eq!(app.instances.selected, None);
}

#[test]
fn undo_stacks_are_bounded() {
    let mut stack = vec![];
    for i in 0..45 {
        push_bounded(&mut stack, i);
    }
    assert_eq!(stack.len(), 40);
    assert_eq!(stack[0], 5);
}

#[test]
fn the_nearest_instance_under_the_pointer_is_picked() {
    let mut app = app();
    app.instances.list = vec![instance(1, 10), instance(2, 10), instance(3, 10)];
    let depth = |value: f32| Some(value.to_bits());
    assert_eq!(
        app.model_instance_at_screen_position(&[depth(5.0), depth(2.0), None]),
        Some(2)
    );
    assert_eq!(app.model_instance_at_screen_position(&[None, None, None]), None);
}

#[test]
fn manifests_of_another_version_are_refused() {
    let mut app = app();
    app.load_model_instances(ManifestOutcome::Read {
        format_version: 1,
        instances: vec![instance(1, 10)],
    });
    assert_eq!(app.instances.list.len(), 1);
    app.load_model_instances(ManifestOutcome::Read {
        format_version: 2,
        instances: vec![instance(1, 10), instance(2, 10)],
    });
    assert_ne!(app.instances.list.len(), 2);
    assert!(!app.log.is_empty());
    app.instances.dirty = true;
    app.save_model_instances(Err("full".to_string()));
    assert!(app.instances.dirty);
    app.save_model_instances(Ok(()));
    assert!(!app.instances.dirty);
}

#[test]
fn asset_edits_can_be_taken_back_and_repeated() {
    let mut app = app();
    app.asset.selected = Some(1);
    app.asset.document = Some(DocumentId(1));
    app.asset.saved = Some(DocumentId(1));
    app.mutate_model_asset("Edit", DocumentId(1));
    assert!(app.asset.undo.is_empty());
    app.mutate_model_asset("Edit", DocumentId(2));
    assert!(app.asset.dirty);
    assert!(app.undo_model_asset());
    assert_eq!(app.asset.document, Some(DocumentId(1)));
    assert!(!app.asset.dirty);
    assert!(app.redo_model_asset());
    assert_eq!(app.asset.document, Some(DocumentId(2)));
    assert!(!app.redo_model_asset());
    app.apply_gx_json_draft(Ok(DocumentId(3)), Err("bad".to_string()));
    assert_eq!(app.asset.document, Some(DocumentId(2)));
    assert_eq!(
        app.model_editor_error.as_deref(),
        Some("GX state is not valid for BMD3: bad")
    );
    app.apply_texture_json_draft(Err("not json".to_string()));
    assert_eq!(
        app.model_editor_error.as_deref(),
        Some("Invalid TEX1 encode state: not json")
    );
}

#[test]
fn assets_are_saved_before_others_are_opened() {
    let mut app = app();
    assert_eq!(app.save_selected_model_asset(Ok(())), SaveStep::Done(true));
    app.asset.selected = Some(1);
    app.asset.document = Some(DocumentId(4));
    app.asset.dirty = true;
    assert_eq!(
        app.save_selected_model_asset(Err("no mesh".to_string())),
        SaveStep::Done(false)
    );
    assert_eq!(
        app.model_editor_error.as_deref(),
        Some("Asset is invalid: no mesh")
    );
    assert_eq!(
        app.save_selected_model_asset(Ok(())),
        SaveStep::Write {
            id: 1,
            document: DocumentId(4)
        }
    );
    assert_eq!(
        app.finish_saving_model_asset(1, DocumentId(4), Err("full".to_string())),
        None
    );
    assert_eq!(
        app.model_editor_error.as_deref(),
        Some("Could not save model asset: full")
    );
    let lines = app.log.len();
    assert_eq!(
        app.finish_saving_model_asset(
            1,
            DocumentId(4),
            Ok(CatalogReply {
                id: 1,
                name: "a".to_string(),
                relative_path: "a.smsmodel".to_string(),
            }),
        ),
        Some("Saved model asset 'a'.".to_string())
    );
    assert_eq!(app.log.len(), lines);
    assert!(!app.asset.dirty);
    assert_eq!(app.asset.saved, Some(DocumentId(4)));
    assert!(app
        .select_model_asset(2, true, LoadOutcome::Failed("gone".to_string()))
        .is_none());
    assert!(app
        .select_model_asset(2, true, LoadOutcome::Loaded(DocumentId(8)))
        .is_some());
    assert_eq!(app.asset.selected, Some(2));
    assert_eq!(app.asset.document, Some(DocumentId(8)));
}

#[test]
fn catalog_operations_ask_for_what_was_drafted() {
    let mut app = app();
    app.catalog.entries = vec![
        entry(1, "rock", "Geometry/rock.smsmodel"),
        entry(2, "rock copy", "Geometry/rock_copy.smsmodel"),
    ];
    assert_eq!(find_entry(&app.catalog.entries, 2), Some(1));
    assert!(app.rename_selected_model_asset().is_none());
    app.asset.selected = Some(1);
    app.catalog.rename_draft = "  ".to_string();
    assert!(app.rename_selected_model_asset().is_none());
    assert_eq!(
        app.model_editor_error.as_deref(),
        Some("Asset name cannot be empty.")
    );
    app.catalog.rename_draft = " stone ".to_string();
    assert!(matches!(
        app.rename_selected_model_asset(),
        Some(CatalogRequest::Rename { id: 1, name }) if name == "stone"
    ));
    app.catalog.move_draft = "Props".to_string();
    assert!(matches!(
        app.move_selected_model_asset(),
        Some(CatalogRequest::Move { id: 1, folder }) if folder == "Props"
    ));
    assert!(matches!(
        app.duplicate_selected_model_asset(),
        Some(CatalogRequest::Duplicate { id: 1, destination })
            if destination.starts_with("Geometry/rock") && destination != "Geometry/rock.smsmodel"
                && destination != "Geometry/rock_copy.smsmodel"
    ));
    app.instances.list.push(instance(3, 1));
    assert!(matches!(
        app.delete_selected_model_asset(),
        Some(CatalogRequest::Delete { id: 1, references }) if references.len() == 1
    ));
    app.catalog.folder_draft = "Props".to_string();
    assert!(matches!(
        app.create_model_folder(),
        Some(CatalogRequest::CreateFolder { folder }) if folder == "Props"
    ));
    assert_eq!(
        app.finish_catalog_change(CatalogChange::Rename, Err("denied".to_string())),
        None
    );
    assert_eq!(
        app.model_editor_error.as_deref(),
        Some("Rename failed: denied")
    );
    let reply = || CatalogReply {
        id: 8,
        name: "stone".to_string(),
        relative_path: "Props/stone.smsmodel".to_string(),
    };
    for (change, line) in [
        (CatalogChange::Rename, "Renamed model asset to 'stone'."),
        (CatalogChange::Move, "Moved model asset to Content/Props/stone.smsmodel."),
        (CatalogChange::Duplicate, "Duplicated model asset to Content/Props/stone.smsmodel."),
    ] {
        app.effects.clear();
        app.catalog.issues = vec!["old issue".to_string()];
        let lines = app.log.len();
        assert_eq!(app.finish_catalog_change(change, Ok(reply())).as_deref(), Some(line));
        assert_eq!(app.log.len(), lines);
        assert!(app.catalog.issues.is_empty());
        assert_eq!(
            app.effects,
            vec![EditorEffect::ScanCatalog, EditorEffect::SelectAsset(8)]
        );
    }
    app.project.background_active = true;
    assert!(app.create_model_folder().is_none());
}

#[test]
fn copies_get_free_names() {
    assert_eq!(find_folder("a/b/c.smsmodel"), "a/b");
    assert_eq!(find_folder("c.smsmodel"), "");
    assert_eq!(put_in_folder("a", "c"), "a/c");
    assert_eq!(put_in_folder("", "c"), "c");
    assert_eq!(find_asset_stem("a/c.smsmodel"), "c");
    let first = first_free_copy(&[], "a", "c");
    let second = first_free_copy(&[first.clone()], "a", "c");
    assert_ne!(first, second);
    assert_ne!(first_free_copy(&[first, second.clone()], "a", "c"), second);
}

#[test]
fn the_browser_shows_what_passes_its_filters() {
    let mut app = app();
    app.catalog.entries = vec![
        entry(1, "Rock", "Geometry/rock.smsmodel"),
        entry(2, "Tree", "Props/tree.smsmodel"),
        entry(3, "Rock small", "Props/rock2.smsmodel"),
    ];
    app.catalog.asset_filter = " ROCK ".to_string();
    assert_eq!(app.visible_model_assets(), vec![0, 2]);
    app.choose_folder(Some("Props".to_string()));
    assert_eq!(app.visible_model_assets(), vec![2]);
    assert_eq!(app.model_asset_folders(), vec!["Geometry", "Props"]);
    let view = app.model_content_browser_panel();
    assert_eq!(view.assets, vec![2]);
    assert!(!app.model_asset_inspector_panel().shown);
    assert!(row_ends(2, 3));
    assert!(!row_ends(3, 3));
    assert!(app.arm_model_placement(2));
    assert_eq!(
        app.log.last().unwrap(),
        "Placing model 'Tree': click in the viewport to choose its position."
    );
}

#[test]
fn import_options_follow_the_chosen_collision() {
    let mut options = ImportOptions {
        conversion: CoordinateConversion {
            units_per_meter: 100.0f32.to_bits(),
            reverse_winding: false,
            basis: [0; 9],
        },
        collision: CollisionSource::Disabled,
        simplification: None,
    };
    for mode in [
        CollisionMode::RenderGeometry,
        CollisionMode::EmbeddedNodes,
        CollisionMode::SeparateFile,
        CollisionMode::Disabled,
    ] {
        options.choose_collision_mode(mode);
        assert_eq!(options.collision.collision_mode(), mode);
    }
    options.switch_simplification(true);
    assert!(options.simplification.is_some());
    options.switch_simplification(false);
    assert!(options.simplification.is_none());
}

fn untouched(options: &ImportOptions) -> ImportPanelInput {
    ImportPanelInput {
        conversion: options.conversion,
        mode: options.collision.collision_mode(),
        surface: None,
        prefix: None,
        path: None,
        simplify: None,
        simplification: None,
    }
}

#[test]
fn import_settings_are_taken_over_from_the_panel() {
    let mut options = ImportOptions {
        conversion: CoordinateConversion {
            units_per_meter: 100.0f32.to_bits(),
            reverse_winding: false,
            basis: [0; 9],
        },
        collision: CollisionSource::Disabled,
        simplification: None,
    };
    let wall = CollisionSurface { surface_type: 0x10, attribute_0: 1, attribute_1: 2, data: None };
    let mut input = untouched(&options);
    input.mode = CollisionMode::EmbeddedNodes;
    input.conversion.reverse_winding = true;
    input.surface = Some(wall);
    input.path = Some("unused.glb".to_string());
    input.simplification = Some(CollisionSimplification { target_ratio: 1, max_error: 2 });
    options.model_import_options_panel(input);
    assert!(options.conversion.reverse_winding);
    assert!(options.simplification.is_none());
    match &options.collision {
        CollisionSource::EmbeddedNodes {
            prefix,
            selected_nodes,
            default_surface,
            surfaces_by_node,
        } => {
            assert_eq!(prefix, "COL_");
            assert!(selected_nodes.is_empty());
            assert!(surfaces_by_node.is_empty());
            assert_eq!(*default_surface, wall);
        }
        other => panic!("{other:?}"),
    }
    if let CollisionSource::EmbeddedNodes { surfaces_by_node, .. } = &mut options.collision {
        surfaces_by_node.push((3, wall));
    }
    let mut input = untouched(&options);
    input.prefix = Some("HIT_".to_string());
    input.simplify = Some(true);
    options.model_import_options_panel(input);
    assert_eq!(
        options.simplification,
        Some(CollisionSimplification {
            target_ratio: 0.5f32.to_bits(),
            max_error: 1.0f32.to_bits(),
        })
    );
    match &options.collision {
        CollisionSource::EmbeddedNodes { prefix, default_surface, surfaces_by_node, .. } => {
            assert_eq!(prefix, "HIT_");
            assert_eq!(*default_surface, wall);
            assert_eq!(*surfaces_by_node, vec![(3, wall)]);
        }
        other => panic!("{other:?}"),
    }
    let mut input = untouched(&options);
    input.mode = CollisionMode::SeparateFile;
    input.path = Some("walls.glb".to_string());
    input.simplification = Some(CollisionSimplification { target_ratio: 7, max_error: 8 });
    options.model_import_options_panel(input);
    assert_eq!(
        options.simplification,
        Some(CollisionSimplification { target_ratio: 7, max_error: 8 })
    );
    match &options.collision {
        CollisionSource::SeparateFile { path, conversion } => {
            assert_eq!(path, "walls.glb");
            assert!(conversion.is_none());
        }
        other => panic!("{other:?}"),
    }
}

#[test]
fn collision_groups_keep_their_triangles() {
    let plain = CollisionSurface { surface_type: 0, attribute_0: 0, attribute_1: 0, data: None };
    let wall = CollisionSurface { surface_type: 0x10, attribute_0: 1, attribute_1: 2, data: None };
    let mut groups = vec![CollisionGroup { name: "floor".to_string(), surface: plain, triangles: 9 }];
    model_collision_inspector(&mut groups, 0, "wall".to_string(), wall);
    model_collision_inspector(&mut groups, 1, "gone".to_string(), plain);
    assert_eq!(groups.len(), 1);
    assert_eq!(groups[0].name, "wall");
    assert_eq!(groups[0].surface, wall);
    assert_eq!(groups[0].triangles, 9);
}

#[test]
fn the_hierarchy_has_a_row_for_each_node() {
    let node = |name: &str, parent: Option<u32>, children: Vec<u32>, mesh: Option<u32>| ModelNode {
        name: name.to_string(),
        parent,
        children,
        mesh,
        purpose: "Render".to_string(),
    };
    let nodes = [
        node("root", None, vec![1], None),
        node("arm", Some(0), vec![2], None),
        node("hand", Some(1), vec![], Some(3)),
    ];
    let rows = model_hierarchy_inspector(&nodes);
    let depths: Vec<usize> = rows.iter().map(|row| row.depth).collect();
    assert_eq!(depths, [0, 1, 2]);
    assert_eq!((rows[0].sign, rows[2].sign), ("+", "-"));
    assert_eq!(rows[2].name, "hand");
    assert_eq!(rows[2].line, "Render / mesh 3");
}

fn slot(name: &str, manager: &str) -> MapObjResourceDefinition {
    MapObjResourceDefinition {
        resource_name: name.to_string(),
        object_flags: 0,
        required_manager_name: manager.to_string(),
        has_hold_dependency: false,
        has_move_dependency: false,
        uses_resource_name_model_fallback: true,
        primary_model: Some(format!("/scene/mapObj/{name}.bmd")),
        load_flags: 0x1022_0000,
        collision_resources: vec![],
    }
}

#[test]
fn stock_slots_are_offered_with_their_managers() {
    let mut registry = ObjectRegistry::new();
    registry.map_obj_resources = vec![slot("Block", "here"), slot("Wall", "absent")];
    let mut held = slot("Held", "here");
    held.has_hold_dependency = true;
    registry.map_obj_resources.push(held);
    let names = vec!["here".to_string()];
    let offered = stock_slot_candidates(Some(&registry), Some(&names));
    assert!(offered.iter().all(|candidate| candidate.slot != 2));
    assert_eq!(
        find_stock_notice(&registry, &offered, "Block"),
        StockNotice::Nothing
    );
    assert_eq!(
        find_stock_notice(&registry, &[], "Block"),
        StockNotice::NoSlots
    );
    assert_eq!(
        find_stock_notice(&registry, &offered, "Held"),
        StockNotice::Incompatible
    );
    assert_eq!(
        stock_slot_label(&registry.map_obj_resources[0]),
        "Block (0x10220000; manager here)"
    );
    assert!(StockNotice::MissingManager { slot: 1 }
        .message("absent \"one\"")
        .contains("\"absent \\\"one\\\"\""));
    assert_eq!(selected_slot_text(""), "Select a verified slot...");
    assert_eq!(loader_flags_line(0x0024_0000), "Loader flags: 0x00240000");
}

#[test]
fn the_inspector_changes_the_selected_instance() {
    let mut app = app();
    app.instances.list.push(instance(1, 10));
    app.instances.selected = Some(1);
    let unchanged = |transform: JDramaTransform| InspectorChanges {
        transform,
        transform_changed: false,
        export_mode: None,
        stock_resource: None,
        collision_enabled: None,
        override_enabled: None,
        surface: None,
    };
    let transform = app.instances.list[0].placement.transform;
    app.model_instance_inspector_panel(unchanged(transform));
    assert!(app.instances.undo.is_empty());
    let mut changes = unchanged(transform);
    changes.export_mode = Some(ModelInstanceExportMode::Skybox);
    app.model_instance_inspector_panel(changes);
    assert_eq!(
        app.instances.list[0].placement.export_mode,
        ModelInstanceExportMode::Skybox
    );
    assert_eq!(export_mode_label(ModelInstanceExportMode::Skybox), "Stage skybox");
    let mut broken = unchanged(transform);
    broken.transform_changed = true;
    broken.transform.translation = vector(f32::NAN, 0.0, 0.0);
    app.model_instance_inspector_panel(broken);
    assert_eq!(app.instances.list[0].placement.transform, transform);
    let mut placement = app.instances.list[0].placement.clone();
    assert!(matches!(
        loader_status(&placement, None, FLAGS, None),
        LoaderStatus::Rebuilding { flags: 0x1022_0000 }
    ));
    placement.export_mode = ModelInstanceExportMode::StockMapObjBase;
    placement.collision_enabled = false;
    assert!(warns_of_lost_collision(&placement));
}

#[test]
fn collision_surfaces_are_named() {
    let definitions = [
        CollisionSurfaceDefinition {
            name: "Sand".to_string(),
            value: 4,
            is_property_flag: false,
        },
        CollisionSurfaceDefinition {
            name: "Slippery".to_string(),
            value: 0x4000,
            is_property_flag: true,
        },
    ];
    let text = collision_surface_description(0x4004, &definitions);
    assert!(text.contains("Slippery"), "{text}");
    let mut app = app();
    app.use_surface_as_template(CollisionSurface {
        surface_type: 4,
        attribute_0: 1,
        attribute_1: 2,
        data: None,
    });
    assert_eq!(app.instances.surface_template.unwrap().surface_type, 4);
}

#[test]
fn inspectors_describe_assets() {
    assert_eq!(ModelTargetProfile::Full.label().is_empty(), false);
    assert_ne!(
        ModelTargetProfile::SunshineMap.label(),
        ModelTargetProfile::SunshineObject.label()
    );
    let node = |parent: Option<u32>| ModelNode {
        name: "n".to_string(),
        parent,
        children: vec![],
        mesh: None,
        purpose: "Render".to_string(),
    };
    let nodes = [node(None), node(Some(0)), node(Some(1))];
    assert_eq!(node_depth(&nodes, 2), 2);
    assert!(primitive_line(
        0,
        PrimitiveCounts {
            vertices: 12,
            indices: 36,
            uv_sets: 1,
            color_sets: 0,
            material: Some(3),
        }
    )
    .contains("12"));
    assert!(collision_line(8, &[4, 5]).contains('9'));
    assert_eq!(review_diagnostic(&[1, 2], 3, true), vec![1, 2, 3]);
    assert_eq!(review_diagnostic(&[1, 2, 3], 2, false), vec![1, 3]);
    assert!(thumbnail_line(1, 2, 3).contains('2'));
    let lines = model_target_diagnostics(&[GxMaterialDiagnostic {
        severity: GxDiagnosticSeverity::Warning,
        material_index: 2,
        message: "ignored".to_string(),
        code: "x".to_string(),
    }]);
    assert_eq!(lines, vec!["Warning [x] material 2: ignored"]);
}

#[test]
fn material_and_texture_choices_stay_in_range() {
    let mut app = app();
    app.asset.material = 9;
    assert_eq!(app.model_material_inspector(3, None), Some(2));
    assert_eq!(app.model_material_inspector(3, Some(1)), Some(1));
    assert_eq!(app.model_texture_inspector(0, None), None);
}

#[test]
fn previews_are_built_for_every_loader_of_an_asset() {
    let mut sky = instance(2, 10);
    sky.placement.export_mode = ModelInstanceExportMode::Skybox;
    let list = [instance(1, 10), sky, instance(3, 11), instance(4, 10)];
    let mut flags = loader_flags_for_asset(&list, 10, None, FLAGS);
    flags.sort();
    assert_eq!(flags, vec![0x0024_0000, 0x1022_0000]);
    let key = AuthoredModelPreviewKey {
        asset_id: 10,
        loader_flags: 1,
    };
    assert!(holds_key(&[key], key));
    let mut app = app();
    app.cache_model_preview(10, 1, Ok(()));
    assert!(holds_key(&app.preview.cache, key));
    app.cache_model_preview(10, 1, Err("bad".to_string()));
    assert!(!app.log.is_empty());
}

fn geometry() -> J3dGeometryPreview {
    let triangle = PreviewTriangle {
        source: 0,
        material_index: None,
        packet_index: 0,
        model_index: 0,
        render_layer: PreviewRenderLayer::Main,
        texture_index: Some(0),
        mask_texture_index: None,
        cull_mode: None,
        alpha_compare: None,
        blend_mode: None,
        z_mode: None,
        z_comp_loc: None,
        color_channels: ColorChannels {
            first: None,
            second: None,
        },
        color: None,
        vertex_colors: None,
        combine_mode: J3dPreviewCombineMode::Other(3),
        billboard: None,
        particle_type: None,
        particle_color_mode: None,
        particle_environment_color: None,
    };
    J3dGeometryPreview {
        triangles: vec![triangle, triangle],
        textures: vec![J3dTexturePreview {
            name: "t".to_string(),
            width: 1,
            height: 1,
            rgba: vec![200, 100, 50, 128],
            mips: vec![],
            sampler: TextureSampler {
                format: 0,
                wrap_s: 0,
                wrap_t: 0,
                min_filter: 0,
                mag_filter: 0,
                mipmap_enabled: false,
                do_edge_lod: false,
                bias_clamp: false,
                max_anisotropy: 0,
                min_lod: 0,
                max_lod: 0,
                lod_bias: 0,
                mipmap_count: 1,
            },
        }],
        materials: vec![],
    }
}

#[test]
fn instances_are_appended_and_removed_without_a_trace() {
    let mut app = app();
    app.instances.list = vec![instance(1, 10), instance(2, 10)];
    let cache = vec![CachedGeometry {
        key: AuthoredModelPreviewKey {
            asset_id: 10,
            loader_flags: 0x0024_0000,
        },
        geometry: geometry(),
    }];
    let finite = vec![vec![true, true], vec![true, false]];
    let mut preview = empty_authored_model_preview();
    let source = AppendSource {
        cache: &cache,
        instances: &app.instances.list,
        stage_id: &app.project.stage_id,
        registry: &app.project.registry,
        flags: FLAGS,
        finite: &finite,
    };
    append_authored_model_instances(&mut preview, &source);
    assert_eq!(preview.triangles.len(), 3);
    assert_eq!(preview.textures.len(), 1);
    assert_ne!(
        preview.triangles[0].model_index,
        preview.triangles[2].model_index
    );
    let pixels = &preview.textures[0].mips[0].pixels;
    assert_eq!(pixels.len(), 4);
    assert_eq!(pixels[3], 128);
    assert!(pixels[0] < 200 && pixels[0] > 50);

    app.preview.model = Some(empty_authored_model_preview());
    assert!(app.sync_authored_model_instance_preview(&cache, &finite));
    assert_eq!(app.preview.model.as_ref().unwrap().triangles.len(), 3);
    app.remove_authored_model_instance_preview();
    assert_eq!(
        app.preview
            .model
            .as_ref()
            .map_or(0, |model| model.triangles.len()),
        0
    );
}

#[test]
fn nodes_and_thumbnails_are_described() {
    let mut node = ModelNode {
        name: "n".to_string(),
        parent: None,
        children: vec![],
        mesh: Some(4),
        purpose: "Render".to_string(),
    };
    assert_eq!(node_line(&node), "Render / mesh 4");
    assert_eq!(node_sign(&node), "-");
    node.children.push(1);
    node.mesh = None;
    assert_eq!(node_line(&node), "Render");
    assert_eq!(node_sign(&node), "+");
    assert_eq!(hierarchy_line(3, 2), "3 node(s), 2 mesh(es)");
    assert_ne!(thumbnail_color(1, 1), thumbnail_color(5, 9));
    assert_eq!(
        separate_file_line(""),
        "No separate collision source selected"
    );
    assert_eq!(separate_file_line("a.gltf"), "a.gltf");
    assert!(export_mode_remark(ModelInstanceExportMode::MapTerrain).contains("Destructive"));
}

#[test]
fn pressed_presets_edit_the_document_or_explain() {
    let mut app = app();
    app.asset.document = Some(DocumentId(1));
    app.press_material_preset(MaterialPreset::Lit, None);
    assert!(app
        .model_editor_error
        .as_deref()
        .is_some_and(|message| message.contains("canonical conservative glTF TEV program")));
    app.press_material_preset(MaterialPreset::Opaque, Some(DocumentId(2)));
    assert_eq!(app.asset.document, Some(DocumentId(2)));
    assert_eq!(app.asset.undo.len(), 1);
    assert_eq!(app.model_editor_error, None);
}

#[test]
fn deletions_and_folders_start_a_new_scan() {
    let mut app = app();
    app.asset.selected = Some(1);
    assert_eq!(app.finish_deleting_model_asset(Err("in use".to_string())), None);
    assert_eq!(
        app.model_editor_error.as_deref(),
        Some("Delete blocked; remove placed-instance references first: in use")
    );
    assert_eq!(app.asset.selected, Some(1));
    app.catalog.issues = vec!["old issue".to_string()];
    assert_eq!(
        app.finish_deleting_model_asset(Ok("a.smsmodel".to_string())).as_deref(),
        Some("Deleted Content/a.smsmodel and its managed blobs.")
    );
    assert_eq!(app.asset.selected, None);
    assert!(app.log.is_empty());
    assert!(app.catalog.issues.is_empty());
    app.catalog.issues = vec!["old issue".to_string()];
    app.finish_creating_folder(Ok("Props\\Rocks".to_string()));
    assert_eq!(app.catalog.folder_filter.as_deref(), Some("Props/Rocks"));
    assert!(app.effects.contains(&EditorEffect::ScanCatalog));
    assert!(app.catalog.issues.is_empty());
    app.project.project_root = String::new();
    app.catalog.issues = vec!["old issue".to_string()];
    app.finish_creating_folder(Ok("Trees".to_string()));
    assert_eq!(app.catalog.folder_filter.as_deref(), Some("Trees"));
    assert_eq!(app.catalog.issues, vec!["old issue".to_string()]);
}

#[test]
fn preview_caches_follow_the_instances() {
    let mut app = app();
    app.instances.list = vec![instance(1, 10), instance(2, 10), instance(3, 4)];
    let mut broken = instance(4, 5);
    broken.placement.export_mode = ModelInstanceExportMode::StockMapObjBase;
    app.instances.list.push(broken);
    app.preview.cache.push(AuthoredModelPreviewKey {
        asset_id: 99,
        loader_flags: 1,
    });
    let wanted = app.rebuild_model_preview_cache();
    assert_eq!(
        wanted
            .iter()
            .map(|key| key.asset_id)
            .collect::<Vec<_>>(),
        vec![4, 10]
    );
    assert!(app.preview.cache.is_empty());
    assert_eq!(app.log.len(), 1);
    assert!(app.repair_model_bounds(10, vector(-2.0, 0.0, 0.0), vector(2.0, 0.0, 0.0)));
    assert!(!app.repair_model_bounds(10, vector(-2.0, 0.0, 0.0), vector(2.0, 0.0, 0.0)));
    assert_eq!(assets_of_keys(&wanted), vec![4, 10]);
    app.cache_model_preview(10, wanted[1].loader_flags, Ok(()));
    assert_eq!(app.missing_previews(&wanted, 10), vec![]);
    assert_eq!(app.missing_previews(&wanted, 4), vec![wanted[0]]);
    app.report_unloadable_asset(4, "gone");
    assert_eq!(
        app.log.last().unwrap(),
        "Could not build preview for model asset 00000000-0000-0000-0000-000000000004: gone"
    );
    app.instances.dirty = false;
    app.finish_preview_rebuild(false, true);
    assert!(app.effects.is_empty());
    assert!(!app.instances.dirty);
    app.finish_preview_rebuild(true, true);
    assert!(app.instances.dirty);
    assert_eq!(
        app.effects,
        vec![EditorEffect::SaveInstances, EditorEffect::RebuildViewport]
    );
    app.reset_authored_model_preview_base();
    assert_eq!(app.preview.base, None);
    app.finish_authored_preview(vector(0.0, 0.0, 0.0), vector(1.0, 1.0, 1.0));
    assert!(app.preview.model.is_none());
}

#[test]
fn remarks_on_an_asset_are_shown_with_their_check_boxes() {
    let remark = |severity: Severity, code: u32, required: bool| ImportDiagnostic {
        severity,
        code,
        code_name: format!("Code{code}"),
        message: format!("message {code}"),
        acknowledgement_required: required,
    };
    let remarks = [
        remark(Severity::Info, 1, false),
        remark(Severity::Warning, 2, true),
        remark(Severity::Error, 3, true),
    ];
    let target = [GxMaterialDiagnostic {
        severity: GxDiagnosticSeverity::Warning,
        material_index: 4,
        message: "too many stages".to_string(),
        code: "stages".to_string(),
    }];
    let view = model_diagnostics_inspector(0x0024_0000, &remarks, &[3, 1], &target);
    assert_eq!(view.flags_line, "Loader flags: 0x00240000");
    assert_eq!(view.rows[0].title, "Info [Code1]");
    assert_eq!(view.rows[0].acknowledged, None);
    assert_eq!(view.rows[1].title, "Warning [Code2]");
    assert_eq!(view.rows[1].acknowledged, Some(false));
    assert_eq!(view.rows[2].acknowledged, Some(true));
    assert_eq!(view.rows[2].message, "message 3");
    assert_eq!(view.rows[2].severity.color(), (255, 116, 104));
    assert_eq!(view.target, vec!["Warning [stages] material 4: too many stages"]);
    assert_eq!((view.no_rows, view.no_target), (None, None));
    let empty = model_diagnostics_inspector(0, &[], &[], &[]);
    assert_eq!(empty.no_rows, Some("No import diagnostics"));
    assert_eq!(
        empty.no_target,
        Some("Selected loader consumes the authored GX state.")
    );
}
