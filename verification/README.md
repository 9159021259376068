# Graffito Editor

The rules of a level editor for a GameCube game, written in Rust and proved with Verus.

- `src/` is the library. Every function states in its contract what it returns or changes, and
  Verus proves it. The laws that span several functions are public proof functions whose names
  begin with `law_`.
- `tests/` runs the library on concrete values.
- `app/` is the editor around the library: files, processes, windows and panels, and the
  floating-point geometry of the previews.

## What the library covers

- Managed builds: `managed_build`, `managed_files`, `build_ownership`, `mirror`,
  `file_comparison`, `direct_boot`, `stage_table`, `stage_music`, `atomic_update`.
- The running game: `play_in_editor`.
- Model assets and their instances: `editor`, `editor_assets`, `editor_instances`,
  `asset_operations`, `asset_edits`, `asset_inspectors`, `diagnostics_inspector`,
  `instance_inspector`, `content_browser`, `model_instances`, `gx`.
- Export into a stage: `model_export`, `model_export_laws`, `model_snapshot`, `sky_bundle`,
  `runtime_sky`, `stock_path`, `jdrama`, `stage_edits`.
- Previews: `authored_preview`, `model_preview`, `preview_animations`, `npc_materials`,
  `level_transform`, the `particle_*` modules, and `preview_waves`, `preview_grass`,
  `preview_flags`, `preview_wires` with what they draw on (`single_precision` among it).

## How numbers and documents are held

A floating-point number of a file is held by its bits, so that it is kept exactly and compared by
rules that can be stated. Where the library has to calculate with one, `single_precision` gives
the rounding of each step on integers. A document of a file format is held by the application and
known to the library by a `DocumentId`; what the library needs to know of it comes as plain values.
