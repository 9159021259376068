//! Decision logic of the Graffito level editor.
//!
//! The crate holds the parts of the editor that can be stated over plain values: path and name
//! rules, managed-build planning, model asset and placement state, stage export planning, and the
//! integer side of the preview builders. Windowing, file access and floating-point geometry live
//! in the application around it.
pub mod asset_edits;
pub mod asset_inspectors;
pub mod asset_names;
pub mod asset_operations;
pub mod atomic_update;
pub mod authored_preview;
pub mod build_ownership;
pub mod cancellation;
pub mod content_browser;
pub mod diagnostics_inspector;
pub mod direct_boot;
pub mod editor;
pub mod editor_assets;
pub mod editor_instances;
pub mod export_messages;
pub mod gx;
pub mod file_comparison;
pub mod flag_shapes;
pub mod grids;
pub mod ids;
pub mod instance_inspector;
pub mod jdrama;
pub mod level_transform;
pub mod managed_build;
pub mod managed_files;
pub mod mirror;
pub mod model_export;
pub mod model_export_laws;
pub mod model_instances;
pub mod model_preview;
pub mod model_snapshot;
pub mod npc_materials;
pub mod order;
pub mod particle_births;
pub mod particle_files;
pub mod particle_previews;
pub mod particle_samples;
pub mod particle_slots;
pub mod particle_sources;
pub mod paths;
pub mod placed_object_laws;
pub mod placement_census;
pub mod play_in_editor;
pub mod preview;
pub mod preview_animations;
pub mod preview_assets;
pub mod preview_cache;
pub mod preview_textures;
pub mod registry;
pub mod relative_paths;
pub mod preview_flags;
pub mod preview_grass;
pub mod preview_waves;
pub mod preview_wires;
pub mod runtime_materials;
pub mod runtime_sky;
pub mod search;
pub mod single_precision;
pub mod sky_bundle;
pub mod stage;
pub mod stage_edits;
pub mod stage_music;
pub mod stage_table;
pub mod stock_path;
pub mod text;
pub mod wire_tables;
pub mod level_transform_laws;
pub mod npc_laws;
pub mod preview_asset_laws;
pub mod build_laws;
pub mod play_laws;
pub mod material_preset_laws;
pub mod stage_export_laws;
pub mod procedural_preview_laws;
pub mod flag_laws;
pub mod wire_laws;
pub mod sky_laws;
pub mod model_preview_laws;
pub mod animation_laws;
pub mod particle_laws;
pub mod particle_birth_laws;
pub mod editor_laws;
pub mod text_laws;
pub mod report_laws;
pub mod preview_detail_laws;
pub mod export_verdict_laws;
