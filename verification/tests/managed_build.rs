use graffito_editor::atomic_update::{
    backup_name, temporary_name, write_atomic, UpdateFault, UpdateStep,
};
use graffito_editor::build_ownership::{
    ensure_child_directory, ensure_owned_build_root, expected_marker, inspect_marker,
    reject_link_or_reparse, validate_directory_metadata, validate_marker, MarkerFault,
    OwnedRootEvent, OwnedRootFault, OwnedRootStep,
};
use graffito_editor::cancellation::{
    check_cancelled, check_cancelled_io, check_model_export_cancelled, is_cancelled_error,
    IoFaultKind,
};
use graffito_editor::direct_boot::{
    installed_boot, prepare_managed_direct_boot, BootFault, BootStep,
};
use graffito_editor::file_comparison::FileComparison;
use graffito_editor::managed_build::{
    finish_managed_run_mirror, finish_managed_stage_archive,
    managed_stage_relative_path_from_source, prepare_managed_game_launch,
    prepare_managed_run_mirror_from_source, prepare_managed_run_mirror_from_source_with_cancel,
    require_stage_source, resolve_managed_build_root, write_managed_stage_archive_from_source,
    ManagedGameBuildOutcome, ManagedRunMirrorOutcome, PatchedExecutable, StageBuildError,
    StagePathError, StagePlace, RUN_ROOT_NAME,
};
use graffito_editor::managed_files::{
    accept_stage_table, atomic_write_if_changed_with_cancel, atomic_write_with_cancel,
    component_type_fits, create_temporary_file, find_case_insensitive_component, read_effective_runtime_stage_table,
    read_runtime_stage_table_file, report_output_error, temporary_exhausted, temporary_path_candidate, ComponentFault,
    TableFault, TableStep, TemporaryOutcome, TemporaryStep, WriteStep,
};
use graffito_editor::mirror::{
    clean_stale_run_entries, has_main_dol, install_project_runtime_stage_table,
    inventory_base_game, mirror_regular_file, EntryFault, EntryKind, MirrorFileFault,
    MirrorInventory, MirrorStats, MirroredFileAction, TreeEntry, WalkedTree,
};
use graffito_editor::paths::{
    path_is_same_or_child, paths_equal_normalized, reject_overlap,
    relative_starts_with_ascii_case, split_file_name, PathComponent, ShownPath,
};
use graffito_editor::stage_music::{
    install_managed_stage_music, ProjectSoundAssignment, ProjectSoundAssignmentKind,
    ProjectStageMusic, RuntimeSoundAssignmentKind, StageMusicError,
};
use graffito_editor::stage_table::{
    resolve_runtime_stage_target, runtime_archive_stem, RuntimeStageTarget, ScenarioArchiveEntry,
    StageTargetError,
};
use std::sync::atomic::AtomicBool;

fn components(path: &str) -> Vec<PathComponent> {
    let mut list = Vec::new();
    if path.starts_with('/') {
        list.push(PathComponent::RootDir);
    }
    for part in path.split('/').filter(|part| !part.is_empty()) {
        list.push(match part {
            ".." => PathComponent::ParentDir,
            "." => PathComponent::CurDir,
            name => PathComponent::Normal(name.to_string()),
        });
    }
    list
}

fn shown(path: &str) -> ShownPath {
    ShownPath {
        shown: path.to_string(),
        components: components(path),
    }
}

fn entry(area_index: usize, scenario_index: usize, archive_name: &str) -> ScenarioArchiveEntry {
    ScenarioArchiveEntry {
        area_index,
        scenario_index,
        archive_name: archive_name.to_string(),
    }
}

#[test]
fn runtime_target_uses_staged_table_order_without_region_assumptions() {
    let entries = vec![
        entry(7, 4, "mods/scenes/PINNABEACH4.ARC"),
        entry(7, 6, "pinnaBeach4.arc"),
    ];

    let (target, count) =
        resolve_runtime_stage_target(&entries, &components("files/data/scene/pinnaBeach4.szs"))
            .unwrap();

    assert_eq!(count, 2);
    assert_eq!(target.area_index, 7);
    assert_eq!(target.scenario_index, 4);
    assert_eq!(target.archive_name, "mods/scenes/PINNABEACH4.ARC");
}

#[test]
fn runtime_target_rejects_missing_and_unrepresentable_mappings() {
    let entries = [entry(2, 0, "bianco0.arc")];
    let missing =
        resolve_runtime_stage_target(&entries, &components("files/data/scene/mare0.szs"))
            .unwrap_err();
    assert_eq!(missing, StageTargetError::NotMapped);
    assert!(missing
        .message("files/data/scene/mare0.szs", &entries)
        .contains("not mapped"));

    let entries = [entry(256, 0, "mare0.arc")];
    let too_large =
        resolve_runtime_stage_target(&entries, &components("files/data/scene/MARE0.SZS"))
            .unwrap_err();
    assert_eq!(too_large, StageTargetError::AreaTooLarge { entry: 0 });
    assert!(too_large
        .message("files/data/scene/MARE0.SZS", &entries)
        .contains("does not fit"));
}

#[test]
fn runtime_target_needs_a_stem_and_a_small_scenario() {
    let entries = [entry(3, 300, "mare0.arc")];
    let error =
        resolve_runtime_stage_target(&entries, &components("scene/mare0.szs")).unwrap_err();
    assert_eq!(error, StageTargetError::ScenarioTooLarge { entry: 0 });
    let error = resolve_runtime_stage_target(&entries, &components("scene/..")).unwrap_err();
    assert_eq!(error, StageTargetError::NoStem);
}

#[test]
fn archive_stems_drop_directories_and_archive_extensions() {
    assert_eq!(
        runtime_archive_stem("a\\b/Mare0.ARC"),
        Some("Mare0".to_string())
    );
    assert_eq!(runtime_archive_stem("mare0.szs"), Some("mare0".to_string()));
    assert_eq!(
        runtime_archive_stem("mare0.bin"),
        Some("mare0.bin".to_string())
    );
    assert_eq!(runtime_archive_stem("scene/"), None);
    assert_eq!(runtime_archive_stem(".arc"), None);
}

#[test]
fn effective_stage_table_prefers_the_project() {
    assert_eq!(
        read_effective_runtime_stage_table(Some(vec![1]), Some(vec![2]), "base").unwrap(),
        vec![1]
    );
    assert_eq!(
        read_effective_runtime_stage_table(None, Some(vec![2]), "base").unwrap(),
        vec![2]
    );
    assert!(read_effective_runtime_stage_table(None, None, "base/stageArc.bin").is_err());
}

#[test]
fn stage_table_files_are_checked_before_they_are_read() {
    assert_eq!(read_runtime_stage_table_file(None, true), Ok(TableStep::Absent));
    assert_eq!(
        read_runtime_stage_table_file(None, false),
        Err(TableFault::Missing)
    );
    assert_eq!(
        read_runtime_stage_table_file(Some((EntryKind::Link, 1)), true),
        Err(TableFault::Link)
    );
    assert_eq!(
        read_runtime_stage_table_file(Some((EntryKind::Directory, 1)), true),
        Err(TableFault::Irregular)
    );
    assert_eq!(
        read_runtime_stage_table_file(Some((EntryKind::File, 16_777_217)), true),
        Err(TableFault::TooLarge)
    );
    assert_eq!(
        read_runtime_stage_table_file(Some((EntryKind::File, 16_777_216)), true),
        Ok(TableStep::Read)
    );
    assert_eq!(accept_stage_table(b"abc", b"abc"), Ok(()));
    assert_eq!(accept_stage_table(b"abc", b"abd"), Err(TableFault::NotExact));
}

#[test]
fn unchanged_launch_output_is_reused() {
    assert_eq!(
        atomic_write_if_changed_with_cancel(None, b"", b"first", "launch.dol").unwrap(),
        WriteStep::Write { replaced: false }
    );
    assert_eq!(
        atomic_write_if_changed_with_cancel(
            Some(EntryKind::File),
            b"first",
            b"first",
            "launch.dol"
        )
        .unwrap(),
        WriteStep::Reuse
    );
    assert_eq!(
        atomic_write_if_changed_with_cancel(
            Some(EntryKind::File),
            b"first",
            b"second",
            "launch.dol"
        )
        .unwrap(),
        WriteStep::Write { replaced: true }
    );
    assert!(atomic_write_with_cancel(Some(EntryKind::Link), "launch.dol").is_err());
    assert!(!atomic_write_with_cancel(None, "launch.dol").unwrap());
    assert!(atomic_write_with_cancel(Some(EntryKind::File), "launch.dol").unwrap());
}

#[test]
fn temporary_files_are_tried_a_limited_number_of_times() {
    assert_eq!(
        create_temporary_file(0, TemporaryOutcome::Created),
        TemporaryStep::Use
    );
    assert_eq!(
        create_temporary_file(0, TemporaryOutcome::AlreadyExists),
        TemporaryStep::Retry
    );
    assert_eq!(
        create_temporary_file(63, TemporaryOutcome::AlreadyExists),
        TemporaryStep::GiveUp
    );
    assert_eq!(
        create_temporary_file(0, TemporaryOutcome::Failed),
        TemporaryStep::Fail
    );
    let first = temporary_path_candidate("main.dol", 12, 0);
    assert_ne!(first, temporary_path_candidate("main.dol", 12, 1));
    assert_ne!(first, temporary_path_candidate("main.dol", 13, 0));
}

#[test]
fn components_are_found_by_name_only_once() {
    let names = vec!["Data".to_string(), "other".to_string()];
    assert_eq!(find_case_insensitive_component(&names, "data"), Ok(0));
    assert_eq!(
        find_case_insensitive_component(&names, "none"),
        Err(ComponentFault::Missing)
    );
    let twice = vec!["Data".to_string(), "DATA".to_string()];
    let fault = find_case_insensitive_component(&twice, "data").unwrap_err();
    assert_eq!(fault, ComponentFault::Ambiguous);
    assert_eq!(
        fault.message("runtime stage archive table", "data", "/run"),
        "Found multiple case-insensitive runtime stage archive table components named 'data' beneath '/run'"
    );
    assert_eq!(
        ComponentFault::Missing.message("runtime stage archive table", "data", "/run"),
        "Could not find runtime stage archive table component 'data' beneath '/run'"
    );
}

#[test]
fn stage_keeps_its_place_below_the_base() {
    let base = shown("/games/SunshineExtract");
    let source = shown("/games/SunshineExtract/files/data/scene/bianco0.szs");
    assert_eq!(
        managed_stage_relative_path_from_source(&base, &base, &source, false).unwrap(),
        vec!["files", "data", "scene", "bianco0.szs"]
    );
    let place =
        write_managed_stage_archive_from_source(b"stage", &base, &base, &source, false).unwrap();
    assert_eq!(place.parent, vec!["files", "data", "scene"]);
    assert_eq!(place.name, "bianco0.szs");
    assert_eq!(place.root, "mod-root");
    assert_eq!(
        write_managed_stage_archive_from_source(b"", &base, &base, &source, false).unwrap_err(),
        StageBuildError::EmptyArchive
    );
}

#[test]
fn stage_source_and_document_base_are_held_against_the_project_base() {
    let base = shown("/games/SunshineExtract");
    let outside = shown("/games/outside.szs");
    let error = managed_stage_relative_path_from_source(&base, &base, &outside, false).unwrap_err();
    assert_eq!(error, StagePathError::OutsideBase);
    assert!(error
        .message("/games/SunshineExtract", "/games/SunshineExtract", "/games/outside.szs", "")
        .contains("beneath the extracted base game"));

    let source = shown("/games/SunshineExtract/files/data/scene/bianco0.szs");
    let error =
        managed_stage_relative_path_from_source(&base, &shown("/games"), &source, false)
            .unwrap_err();
    assert_eq!(error, StagePathError::BaseMismatch);
    assert!(error
        .message("/games/SunshineExtract", "/games", "source", "")
        .contains("does not match project base"));

    let plain = shown("/games/SunshineExtract/files/data/scene/bianco0.txt");
    assert_eq!(
        managed_stage_relative_path_from_source(&base, &base, &plain, false).unwrap_err(),
        StagePathError::UnsupportedExtension
    );
    let climbing = shown("/games/SunshineExtract/files/../bianco0.szs");
    assert_eq!(
        managed_stage_relative_path_from_source(&base, &base, &climbing, false).unwrap_err(),
        StagePathError::UnsafeComponent
    );
}

#[test]
fn cancelled_mirror_does_not_start() {
    let base = shown("/games/SunshineExtract");
    let source = shown("/games/SunshineExtract/files/data/scene/bianco0.szs");
    let error = prepare_managed_run_mirror_from_source_with_cancel(
        b"stage", &base, &base, &source, false, true,
    )
    .unwrap_err();
    assert_eq!(error, StageBuildError::Cancelled);
    assert!(is_cancelled_error(&error.message("", "", "", "")));
    let system = shown("/games/SunshineExtract/sys/bianco0.szs");
    assert_eq!(
        prepare_managed_run_mirror_from_source_with_cancel(
            b"stage", &base, &base, &system, false, false,
        )
        .unwrap_err(),
        StageBuildError::OutsideFiles
    );
}

#[test]
fn build_root_stays_apart_from_base_and_data() {
    let base = shown("/games/SunshineExtract");
    let data = shown("/games/Authoring.smsdata");
    let resolve = |root: &str, kind: Option<EntryKind>| {
        resolve_managed_build_root(root, kind, shown(root), &base, &data, false)
    };
    let root = resolve("/games/Authoring.smsbuild", None).unwrap();
    assert_eq!(root.shown, "/games/Authoring.smsbuild");
    assert!(resolve("/games/Authoring.smsbuild", Some(EntryKind::Directory)).is_ok());
    let error = resolve("/games/Authoring.smsbuild", Some(EntryKind::Link)).unwrap_err();
    assert_eq!(
        error,
        "Refusing managed build root symlink or reparse point: /games/Authoring.smsbuild"
    );
    let error = resolve("/games/SunshineExtract/build", None).unwrap_err();
    assert!(error.contains("overlap"), "{error}");
    assert!(resolve("/games/Authoring.smsdata", None).is_err());
    assert!(resolve("/games", None).is_err());
    assert!(reject_overlap(&base, &shown("/games"), "a", "b", false).is_err());
    assert!(reject_overlap(&base, &data, "a", "b", false).is_ok());
}

#[test]
fn paths_lie_in_each_other_by_whole_components() {
    let root = components("/a/Base");
    assert!(path_is_same_or_child(&components("/a/Base/x"), &root, false));
    assert!(path_is_same_or_child(&root, &root, false));
    assert!(!path_is_same_or_child(&components("/a/Basement"), &root, false));
    assert!(!path_is_same_or_child(&components("/a/base/x"), &root, false));
    assert!(path_is_same_or_child(&components("/a/base/x"), &root, true));
    assert!(paths_equal_normalized(&components("/A/BASE"), &root, true));
    assert!(!paths_equal_normalized(&components("/A/BASE"), &root, false));
    assert!(relative_starts_with_ascii_case(&components("FILES/x"), "files"));
    assert!(!relative_starts_with_ascii_case(&components("sys/x"), "files"));
    assert_eq!(
        split_file_name("a.tar.gz"),
        ("a.tar".to_string(), Some("gz".to_string()))
    );
    assert_eq!(split_file_name(".hidden"), (".hidden".to_string(), None));
}

#[test]
fn only_a_matching_marker_is_accepted() {
    let expected = expected_marker("project", shown("/games/Base"), "test");
    let own = expected_marker("project", shown("/games/Base"), "other version");
    assert_eq!(validate_marker(&own, &expected, false), Ok(()));

    let other = expected_marker("another-project", shown("/games/Base"), "test");
    let fault = validate_marker(&other, &expected, false).unwrap_err();
    assert_eq!(fault, MarkerFault::OtherProject);
    assert!(fault
        .message("root", "marker", "another-project", "project")
        .contains("belongs to project id 'another-project'"));

    let elsewhere = expected_marker("project", shown("/games/Other"), "test");
    assert_eq!(
        validate_marker(&elsewhere, &expected, false),
        Err(MarkerFault::OtherBase)
    );
    let mut newer = expected_marker("project", shown("/games/Base"), "test");
    newer.format_version = 2;
    assert_eq!(
        validate_marker(&newer, &expected, false),
        Err(MarkerFault::UnsupportedFormat)
    );
    let mut relative = expected_marker("project", shown("Base"), "test");
    relative.base_is_absolute = false;
    assert_eq!(
        validate_marker(&relative, &expected, false),
        Err(MarkerFault::RelativeBase)
    );
}

#[test]
fn an_unowned_build_directory_is_rejected() {
    let fault = inspect_marker(None).unwrap_err();
    assert_eq!(fault, MarkerFault::Missing);
    assert!(fault
        .message("root", "marker", "", "")
        .contains("unowned managed build directory"));
    assert_eq!(
        inspect_marker(Some((EntryKind::Link, 10))),
        Err(MarkerFault::Link)
    );
    assert_eq!(
        inspect_marker(Some((EntryKind::Directory, 10))),
        Err(MarkerFault::Irregular)
    );
    assert_eq!(
        inspect_marker(Some((EntryKind::File, 65_537))),
        Err(MarkerFault::TooLarge)
    );
    assert_eq!(inspect_marker(Some((EntryKind::File, 65_536))), Ok(()));
}

#[test]
fn a_new_build_directory_gets_a_marker_and_an_old_one_is_checked() {
    let after = |step, event| ensure_owned_build_root(step, event);
    let directory = OwnedRootEvent::Found(EntryKind::Directory);
    assert_eq!(
        after(OwnedRootStep::InspectRoot, OwnedRootEvent::NotFound),
        Ok(OwnedRootStep::InspectParent)
    );
    assert_eq!(
        after(OwnedRootStep::InspectParent, directory),
        Ok(OwnedRootStep::CreateRoot)
    );
    assert_eq!(
        after(OwnedRootStep::CreateRoot, OwnedRootEvent::Succeeded),
        Ok(OwnedRootStep::WriteMarker)
    );
    assert_eq!(
        after(OwnedRootStep::CreateRoot, OwnedRootEvent::AlreadyExists),
        Ok(OwnedRootStep::InspectRaced)
    );
    assert_eq!(
        after(OwnedRootStep::InspectRoot, directory),
        Ok(OwnedRootStep::CheckMarker)
    );
    assert_eq!(
        after(
            OwnedRootStep::InspectRoot,
            OwnedRootEvent::Found(EntryKind::Link)
        ),
        Err(OwnedRootFault::NoDirectory(EntryKind::Link))
    );
    assert_eq!(
        after(OwnedRootStep::CheckMarker, OwnedRootEvent::Failed),
        Err(OwnedRootFault::StepFailed)
    );
    assert!(reject_link_or_reparse(EntryKind::Link, "p", "d").is_err());
    assert!(reject_link_or_reparse(EntryKind::Other, "p", "d").is_ok());
    assert!(validate_directory_metadata(EntryKind::File, "p", "d").is_err());
    assert_eq!(
        ensure_child_directory(&components("mod-root/files"), "mod-root/files").unwrap(),
        vec!["mod-root", "files"]
    );
    assert!(ensure_child_directory(&components("mod-root/../x"), "x").is_err());
}

fn tree(path: &str, kind: EntryKind) -> TreeEntry {
    TreeEntry {
        path: path.split('/').map(str::to_string).collect(),
        kind,
    }
}

#[test]
fn runnable_mirror_drops_what_the_game_lacks() {
    let inventory = inventory_base_game(&[
        tree("sys", EntryKind::Directory),
        tree("sys/main.dol", EntryKind::File),
        tree("files", EntryKind::Directory),
        tree("files/shared.bin", EntryKind::File),
    ])
    .unwrap();
    assert!(has_main_dol(&inventory));
    let mut stats = MirrorStats::new();
    let plan = clean_stale_run_entries(
        &[
            tree("stale/obsolete.bin", EntryKind::File),
            tree("stale", EntryKind::Directory),
            tree("sys/main.dol", EntryKind::File),
            tree("sys", EntryKind::Directory),
        ],
        &inventory,
        &mut stats,
    );
    assert_eq!(plan.removed, vec![0, 1]);
    assert_eq!(plan.fault, None);
    assert_eq!(stats.removed_entries, 2);
}

#[test]
fn inventories_reject_links_and_names_that_differ_in_case_only() {
    let fault = inventory_base_game(&[tree("sys", EntryKind::Link)]).unwrap_err();
    assert_eq!(fault, EntryFault::Link { at: 0 });
    assert!(fault
        .message(WalkedTree::ExtractedGame, "sys")
        .contains("sys"));
    assert_eq!(
        inventory_base_game(&[tree("sys", EntryKind::Other)]).unwrap_err(),
        EntryFault::Irregular { at: 0 }
    );
}

#[test]
fn mirrored_files_are_independent_copies() {
    assert_eq!(
        mirror_regular_file(EntryKind::File, None, false, false),
        Ok(MirroredFileAction::Copied)
    );
    assert_eq!(
        mirror_regular_file(EntryKind::File, Some(EntryKind::File), false, true),
        Ok(MirroredFileAction::Reused)
    );
    assert_eq!(
        mirror_regular_file(EntryKind::File, Some(EntryKind::File), true, true),
        Ok(MirroredFileAction::Copied)
    );
    assert_eq!(
        mirror_regular_file(EntryKind::File, Some(EntryKind::File), false, false),
        Ok(MirroredFileAction::Copied)
    );
    assert_eq!(
        mirror_regular_file(EntryKind::Link, None, false, false),
        Err(MirrorFileFault::SourceLink)
    );
    assert_eq!(
        mirror_regular_file(EntryKind::File, Some(EntryKind::Link), false, false),
        Err(MirrorFileFault::DestinationLink)
    );
    let mut stats = MirrorStats::new();
    stats.count(MirroredFileAction::Copied);
    stats.count(MirroredFileAction::Reused);
    install_project_runtime_stage_table(&mut stats, None);
    assert_eq!((stats.copied_files, stats.reused_files), (1, 1));
}

fn music(stage_id: &str) -> ProjectStageMusic {
    ProjectStageMusic {
        stage_id: stage_id.to_string(),
        bgm_id: 5,
        wave_scene_id: 6,
        secondary_bgm_id: None,
        secondary_wave_scene_id: Some(9),
    }
}

#[test]
fn stage_music_is_installed_where_the_stage_is_mapped() {
    let entries = [entry(2, 1, "bianco0.arc"), entry(4, 3, "mare0.szs")];
    assert!(install_managed_stage_music(&[], &[], &entries)
        .unwrap()
        .is_none());
    let assignments = [ProjectSoundAssignment {
        kind: ProjectSoundAssignmentKind::Graph,
        source_name: "graph".to_string(),
        original_sound_id: 1,
        sound_id: 2,
    }];
    let plan = install_managed_stage_music(&[music("mare0")], &assignments, &entries)
        .unwrap()
        .unwrap();
    assert_eq!(plan.overrides.len(), 1);
    assert_eq!(plan.overrides[0].area_index, 4);
    assert_eq!(plan.overrides[0].scenario_index, 3);
    assert_eq!(plan.overrides[0].bgm_id, 5);
    assert_eq!(plan.overrides[0].secondary_wave_scene_id, Some(9));
    assert_eq!(
        plan.sound_assignments[0].kind,
        RuntimeSoundAssignmentKind::Graph
    );
    assert_eq!(plan.sound_assignments[0].sound_id, 2);

    let error = install_managed_stage_music(&[music("ricco0")], &[], &entries).unwrap_err();
    assert_eq!(error, StageMusicError::NotMapped { music: 0 });
    let large = [entry(256, 0, "mare0.arc")];
    assert_eq!(
        install_managed_stage_music(&[music("mare0")], &[], &large).unwrap_err(),
        StageMusicError::AreaTooLarge { music: 0, entry: 0 }
    );
    let large = [entry(1, 256, "mare0.arc")];
    assert_eq!(
        install_managed_stage_music(&[music("mare0")], &[], &large).unwrap_err(),
        StageMusicError::ScenarioTooLarge { music: 0, entry: 0 }
    );
}

#[test]
fn cancellation_is_reported_and_recognised() {
    let set = AtomicBool::new(true);
    let clear = AtomicBool::new(false);
    let report = check_cancelled(&set).unwrap_err();
    assert!(is_cancelled_error(&report));
    assert!(check_cancelled(&clear).is_ok());
    let fault = check_cancelled_io(&set).unwrap_err();
    assert_eq!(fault.kind, IoFaultKind::Interrupted);
    assert!(check_model_export_cancelled(None).is_ok());
    assert!(check_model_export_cancelled(Some(&set)).is_err());
    assert!(!is_cancelled_error("disk full"));
    assert_eq!(report_output_error("write", "p", &report), report);
}

#[test]
fn a_stage_without_a_source_cannot_be_built() {
    assert_eq!(require_stage_source("mare0", Some(3)), Ok(3));
    assert_eq!(
        require_stage_source::<u8>("mare0", None),
        Err("Stage 'mare0' has no semantic archive source identity".to_string())
    );
}

#[test]
fn direct_boot_goes_through_its_steps() {
    let mut step = BootStep::Begin;
    let mut seen = 0;
    while step != BootStep::Installed {
        step = prepare_managed_direct_boot(step, true, false);
        seen += 1;
    }
    assert_eq!(seen, 8);
    assert_eq!(
        prepare_managed_direct_boot(BootStep::ParseTable, true, true),
        BootStep::ResolveTarget
    );
    assert_eq!(
        prepare_managed_direct_boot(BootStep::Patch, true, true),
        BootStep::Cancelled
    );
    assert_eq!(
        prepare_managed_direct_boot(BootStep::Patch, false, true),
        BootStep::Failed(BootFault::Patch)
    );
    assert_eq!(
        BootFault::ReadTable.message("stageArc.bin", "denied"),
        "Could not read runtime stage archive table 'stageArc.bin': denied"
    );
    assert_eq!(
        BootFault::Install.message("main.dol", "Managed game build cancelled; x"),
        "Managed game build cancelled; x"
    );
    assert_eq!(
        BootFault::Install.message("main.dol", "denied"),
        "Could not install managed direct-boot executable 'main.dol': denied"
    );
}

#[test]
fn files_are_compared_piece_by_piece() {
    assert!(FileComparison::new(3, 4).is_none());
    let mut comparison = FileComparison::new(70_000, 70_000).unwrap();
    assert_eq!(comparison.next_chunk(), 65_536);
    let piece = vec![7u8; 65_536];
    assert!(comparison.compare_chunk(&piece, &piece));
    assert_eq!(comparison.next_chunk(), 4_464);
    let left = vec![1u8; 4_464];
    let mut right = left.clone();
    right[4_463] = 2;
    assert!(!comparison.compare_chunk(&left, &right));
    assert_eq!(comparison.next_chunk(), 0);
}

#[test]
fn a_cancelled_launch_is_not_completed() {
    let build = || ManagedGameBuildOutcome {
        run: ManagedRunMirrorOutcome {
            main_dol: vec![],
            stage: StagePlace {
                root: RUN_ROOT_NAME,
                parent: vec![],
                name: "mare0.szs".to_string(),
            },
            stage_size_bytes: 5,
            stage_replaced: false,
            stats: MirrorStats::new(),
        },
    };
    let boot = || {
        installed_boot(
            RuntimeStageTarget {
                area_index: 4,
                scenario_index: 1,
                archive_name: "mare0.arc".to_string(),
            },
            2,
            PatchedExecutable {
                size_bytes: 100,
                logo_bypass_address: 1,
                hook_address: 2,
                movie_hook_address: 3,
                stub_address: 4,
            },
            true,
        )
    };
    let launch = prepare_managed_game_launch(build(), boot(), false).unwrap();
    assert_eq!(launch.direct_boot.target.area_index, 4);
    assert_eq!(launch.direct_boot.matching_contexts, 2);
    assert!(launch.direct_boot.reused);
    let error = prepare_managed_game_launch(build(), boot(), true).unwrap_err();
    assert!(is_cancelled_error(&error));
}

#[test]
fn components_have_the_type_of_their_place() {
    assert!(component_type_fits(EntryKind::Directory, false));
    assert!(!component_type_fits(EntryKind::File, false));
    assert!(component_type_fits(EntryKind::File, true));
    assert!(!component_type_fits(EntryKind::Directory, true));
    let fault = temporary_exhausted("main.dol");
    assert_eq!(fault.kind, IoFaultKind::AlreadyExists);
    assert_eq!(
        fault.message,
        "could not reserve a temporary output beside 'main.dol'"
    );
}

#[test]
fn an_update_sets_the_old_file_aside_and_removes_it_last() {
    let mut step = UpdateStep::Create;
    let mut seen = Vec::new();
    while step != UpdateStep::Committed {
        seen.push(step);
        step = write_atomic(step, true);
    }
    assert_eq!(
        seen,
        vec![
            UpdateStep::Create,
            UpdateStep::Write,
            UpdateStep::LookForOld,
            UpdateStep::SetAside,
            UpdateStep::Commit,
            UpdateStep::LookForBackup,
            UpdateStep::RemoveBackup,
        ]
    );
    assert_eq!(write_atomic(UpdateStep::LookForOld, false), UpdateStep::Commit);
    assert_eq!(write_atomic(UpdateStep::LookForBackup, false), UpdateStep::Committed);
}

#[test]
fn a_failed_commit_restores_the_old_file() {
    let rescue = write_atomic(UpdateStep::Commit, false);
    assert_eq!(rescue, UpdateStep::LookForRescue);
    assert_eq!(write_atomic(rescue, true), UpdateStep::Restore);
    let failed = UpdateStep::Failed(UpdateFault::Commit);
    assert_eq!(write_atomic(rescue, false), failed);
    assert_eq!(write_atomic(UpdateStep::Restore, true), failed);
    assert_eq!(write_atomic(UpdateStep::Restore, false), failed);
    for (step, fault) in [
        (UpdateStep::Create, UpdateFault::Create),
        (UpdateStep::Write, UpdateFault::Write),
        (UpdateStep::SetAside, UpdateFault::SetAside),
        (UpdateStep::RemoveBackup, UpdateFault::RemoveBackup),
    ] {
        assert_eq!(write_atomic(step, false), UpdateStep::Failed(fault));
    }
}

#[test]
fn an_update_names_its_files_after_the_process() {
    assert_eq!(temporary_name(Some("models.json"), 77), ".models.json.77.tmp");
    assert_eq!(backup_name(Some("models.json"), 77), ".models.json.77.bak");
    assert_eq!(temporary_name(None, 3), ".instances.3.tmp");
    assert_eq!(
        UpdateFault::SetAside.message("a/b", "denied"),
        "Could not prepare atomic update 'a/b': denied"
    );
    assert_eq!(
        UpdateFault::RemoveBackup.message("x", "busy"),
        "Could not remove update backup 'x': busy"
    );
}

fn game() -> MirrorInventory {
    let file = |path: &str| TreeEntry {
        path: path.split('/').map(str::to_string).collect(),
        kind: EntryKind::File,
    };
    inventory_base_game(&[
        file("sys/main.dol"),
        file("files/shared.bin"),
        file("files/data/scene/bianco0.szs"),
    ])
    .unwrap()
}

#[test]
fn a_runnable_copy_has_its_places_and_counts_every_file() {
    let base = shown("/games/SunshineExtract");
    let source = shown("/games/SunshineExtract/files/data/scene/bianco0.szs");
    let archive = b"authored-stage-for-dolphin";
    let stage =
        prepare_managed_run_mirror_from_source(archive, &base, &base, &source, false).unwrap();
    assert_eq!(stage.root, "run-root");
    assert_eq!(stage.parent, vec!["files", "data", "scene"]);
    assert_eq!(stage.name, "bianco0.szs");

    // A file of the game is never kept where the copy is the same file under another name.
    let file = Some(EntryKind::File);
    assert_eq!(
        mirror_regular_file(EntryKind::File, file, true, true),
        Ok(MirroredFileAction::Copied)
    );
    let actions = [
        mirror_regular_file(EntryKind::File, None, false, false).unwrap(),
        mirror_regular_file(EntryKind::File, file, false, true).unwrap(),
        mirror_regular_file(EntryKind::File, file, false, false).unwrap(),
    ];
    let outcome =
        finish_managed_run_mirror(stage, archive, true, &game(), &actions, None, 2);
    assert_eq!(outcome.main_dol, vec!["run-root", "sys", "main.dol"]);
    assert!(outcome.stage_replaced);
    assert_eq!(outcome.stage_size_bytes, archive.len());
    assert_eq!(outcome.stats.copied_files + outcome.stats.reused_files, 3);
    assert_eq!(outcome.stats.reused_files, 1);
    assert_eq!(outcome.stats.removed_entries, 2);
}

#[test]
fn the_stage_table_of_a_project_counts_as_a_file() {
    let base = shown("/games/SunshineExtract");
    let source = shown("/games/SunshineExtract/files/data/scene/bianco0.szs");
    let stage =
        || prepare_managed_run_mirror_from_source(b"x", &base, &base, &source, false).unwrap();
    let actions = [MirroredFileAction::Copied; 3];
    let copied =
        finish_managed_run_mirror(stage(), b"x", false, &game(), &actions, Some(false), 0);
    assert_eq!((copied.stats.copied_files, copied.stats.reused_files), (4, 0));
    let kept = finish_managed_run_mirror(stage(), b"x", false, &game(), &actions, Some(true), 0);
    assert_eq!((kept.stats.copied_files, kept.stats.reused_files), (3, 1));
}

#[test]
fn a_written_stage_stands_below_the_mod_root() {
    let base = shown("/games/SunshineExtract");
    let source = shown("/games/SunshineExtract/files/data/scene/bianco0.szs");
    let write = |archive: &[u8], existing: Option<EntryKind>| {
        let place =
            write_managed_stage_archive_from_source(archive, &base, &base, &source, false)
                .unwrap();
        finish_managed_stage_archive(place, archive, existing, "out/bianco0.szs")
    };
    let first = write(b"first-authored-stage", None).unwrap();
    assert_eq!(first.stage.root, "mod-root");
    assert_eq!(first.stage.parent, vec!["files", "data", "scene"]);
    assert_eq!(first.stage.name, "bianco0.szs");
    assert_eq!(first.size_bytes, 20);
    assert!(!first.replaced);
    assert_eq!(first.marker, vec![".smsbuild-owner.toml"]);
    let second = write(b"second-authored-stage", Some(EntryKind::File)).unwrap();
    assert!(second.replaced);
    let fault = write(b"third", Some(EntryKind::Link)).unwrap_err();
    assert_eq!(
        fault.message,
        "existing managed output is not a regular non-link file: out/bianco0.szs"
    );
}
