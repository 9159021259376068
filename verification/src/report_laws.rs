//! Whom and what the editor's reports name.
use vstd::prelude::*;

use crate::asset_inspectors;
use crate::asset_inspectors::PrimitiveCounts;
use crate::build_ownership;
use crate::cancellation;
use crate::content_browser;
use crate::direct_boot;
use crate::direct_boot::BootFault;
use crate::editor_assets;
use crate::export_messages;
use crate::ids;
use crate::instance_inspector;
use crate::managed_build;
use crate::mirror::EntryKind;
use crate::model_export::{ExportError, ModelExport, StockFault};
use crate::model_instances;
use crate::model_instances::{
    EditorModelInstance, LoaderFlagsError, ModelInstanceExportMode, ModelInstancePlacement,
};
use crate::model_snapshot;
use crate::paths;
use crate::paths::ShownPath;
use crate::preview_cache;
use crate::registry::{CollisionSurfaceDefinition, MapObjResourceDefinition};
use crate::stage_music::{ProjectStageMusic, StageMusicError};
use crate::stage_table::ScenarioArchiveEntry;
use crate::text;

verus! {

/// A report holds a part.
pub open spec fn tells(report: Seq<char>, part: Seq<char>) -> bool {
    exists|a: Seq<char>, b: Seq<char>| report == #[trigger] (a + part + b)
}

proof fn lemma_tells(a: Seq<char>, part: Seq<char>, b: Seq<char>, report: Seq<char>)
    requires
        report =~= a + part + b,
    ensures
        tells(report, part),
{
    assert(report == a + part + b);
}

/// What an export says of an instance that it refuses: which instance it is, or which asset, or
/// both.
#[verifier::rlimit(60)]
#[verifier::spinoff_prover]
pub proof fn law_refusals_name_whom_they_mean(x: ModelExport, k: usize, outside: Seq<char>)
    requires
        k < x.count(),
    ensures
        ({
            let placement = x.placement(k as int);
            let instance = ids::hyphenated(placement.instance_id);
            let asset = ids::hyphenated(placement.asset_id);
            &&& tells(ExportError::MissingAsset(k).text(x, outside), instance)
            &&& tells(ExportError::MissingAsset(k).text(x, outside), asset)
            &&& tells(ExportError::Unacknowledged(k).text(x, outside), instance)
            &&& tells(ExportError::Unacknowledged(k).text(x, outside), asset)
            &&& tells(ExportError::Loader(k).text(x, outside), instance)
            &&& tells(ExportError::Loader(k).text(x, outside), asset)
            &&& tells(ExportError::Compile(k).text(x, outside), asset)
            &&& tells(ExportError::Transform(k).text(x, outside), instance)
            &&& tells(StockFault::NoSlotSelected.text(x, k), instance)
            &&& tells(StockFault::UnknownSlot.text(x, k), instance)
            &&& tells(StockFault::Transform.text(x, k), instance)
            &&& tells(StockFault::NoCollisionResource.text(x, k), instance)
            &&& tells(StockFault::Loader.text(x, k), asset)
            &&& tells(StockFault::Compile.text(x, k), asset)
            &&& tells(StockFault::NoCollision.text(x, k), asset)
        }),
{
    let i = ids::hyphenated(x.placement(k as int).instance_id);
    let a = ids::hyphenated(x.placement(k as int).asset_id);
    let kk = k as int;
    assert(export_messages::iid(x, kk) == i);
    assert(export_messages::aid(x, kk) == a);
    let none = Seq::<char>::empty();
    let t = ExportError::MissingAsset(k).text(x, outside);
    let end = "; take a new Content snapshot before starting the build"@;
    lemma_tells("model snapshot is missing instance "@, i, " asset "@ + a + end, t);
    lemma_tells("model snapshot is missing instance "@ + i + " asset "@, a, end, t);
    let t = ExportError::Unacknowledged(k).text(x, outside);
    let end = " with unacknowledged import diagnostics ("@ + export_messages::codes(x, kk)
        + "); review and save the asset before export"@;
    lemma_tells("model instance "@, i, " uses asset "@ + a + end, t);
    lemma_tells("model instance "@ + i + " uses asset "@, a, end, t);
    let t = ExportError::Loader(k).text(x, outside);
    let end = ") cannot use "@ + export_messages::target(x, kk) + " loader flags 0x"@ + text::hex(
        export_messages::flags(x, kk) as nat,
        8,
    ) + ": "@ + export_messages::loader_detail(x, kk);
    lemma_tells("model instance "@, i, " (asset "@ + a + end, t);
    lemma_tells("model instance "@ + i + " (asset "@, a, end, t);
    let t = ExportError::Compile(k).text(x, outside);
    lemma_tells(
        export_messages::compile_lead(x, kk),
        a,
        ": "@ + export_messages::compile_detail(x, kk),
        t,
    );
    let t = ExportError::Transform(k).text(x, outside);
    lemma_tells(
        export_messages::transform_lead(x, kk),
        i,
        " contains a non-finite runtime transform"@,
        t,
    );
    let t = StockFault::NoSlotSelected.text(x, k);
    lemma_tells(
        "model instance "@,
        i,
        " cannot export through Stock MapObjBase because no stock resource slot was selected"@,
        t,
    );
    let t = StockFault::UnknownSlot.text(x, k);
    lemma_tells(
        "model instance "@,
        i,
        " selected unknown stock MapObjBase resource "@ + text::debug_form(
            export_messages::selected_name(x, kk),
        ) + "; resource names are exact and case-sensitive"@,
        t,
    );
    let t = StockFault::Transform.text(x, k);
    lemma_tells(
        "model instance "@,
        i,
        " contains a non-finite stock MapObjBase transform"@,
        t,
    );
    let named = text::debug_form(export_messages::selected_name(x, kk));
    let t = StockFault::NoCollisionResource.text(x, k);
    lemma_tells(
        "stock MapObjBase resource "@ + named
            + " has no decomp-verified collision resource, but collision is enabled for instance "@,
        i,
        none,
        t,
    );
    let t = StockFault::Loader.text(x, k);
    lemma_tells(
        "asset "@,
        a,
        " cannot replace stock MapObjBase resource "@ + named + " with loader flags 0x"@ + text::hex(
            export_messages::slot_flags(x, kk) as nat,
            8,
        ) + ": "@ + export_messages::stock_loader_detail(x, kk),
        t,
    );
    let t = StockFault::Compile.text(x, k);
    lemma_tells(
        "could not compile stock MapObjBase BMD3 for asset "@,
        a,
        " in resource "@ + named + ": "@ + export_messages::compile_detail(x, kk),
        t,
    );
    let t = StockFault::NoCollision.text(x, k);
    lemma_tells(
        "stock MapObjBase resource "@ + named + " requires enabled collision, but asset "@,
        a,
        " has no collision document"@,
        t,
    );
}

/// Two placements that want one slot or one file for different assets are told apart by both
/// assets, or both slots.
pub proof fn law_clashes_name_both_sides(x: ModelExport, k: usize, j: usize, c: usize)
    requires
        k < x.count(),
        j < x.count(),
    ensures
        tells(
            StockFault::SlotTaken(j).text(x, k),
            ids::hyphenated(x.placement(k as int).asset_id),
        ),
        tells(
            StockFault::SlotTaken(j).text(x, k),
            ids::hyphenated(x.placement(j as int).asset_id),
        ),
        tells(
            StockFault::ModelTaken(j).text(x, k),
            ids::hyphenated(x.placement(k as int).asset_id),
        ),
        tells(
            StockFault::ModelTaken(j).text(x, k),
            ids::hyphenated(x.placement(j as int).asset_id),
        ),
        x.slot_index(j as int) is Some ==> tells(
            StockFault::CollisionTaken(c, j).text(x, k),
            text::debug_form(x.slot(j as int).resource_name@),
        ),
        x.slot_index(k as int) is Some ==> tells(
            StockFault::CollisionTaken(c, j).text(x, k),
            text::debug_form(x.slot(k as int).resource_name@),
        ),
{
    let (kk, jj) = (k as int, j as int);
    let a = export_messages::aid(x, kk);
    let b = export_messages::aid(x, jj);
    let m = text::debug_form(export_messages::slot_name(x, kk));
    let n = text::debug_form(export_messages::slot_name(x, jj));
    let end = "; one compiled stock slot cannot resolve two different authored models"@;
    let t = StockFault::SlotTaken(j).text(x, k);
    let lead = "stock MapObjBase resource "@ + m + " is assigned to both asset "@;
    lemma_tells(lead, b, " and asset "@ + a + end, t);
    lemma_tells(lead + b + " and asset "@, a, end, t);
    let end = "; replacing that global BMD would be ambiguous"@;
    let t = StockFault::ModelTaken(j).text(x, k);
    let lead = "stock MapObjBase resources "@ + n + " and "@ + m + " share model "@
        + export_messages::model_path(x, kk) + ", but were assigned different assets "@;
    lemma_tells(lead, b, " and "@ + a + end, t);
    lemma_tells(lead + b + " and "@, a, end, t);
    let t = StockFault::CollisionTaken(c, j).text(x, k);
    let lead = "stock collision resource "@ + export_messages::collision_path(x, kk, c as int)
        + " is shared by incompatible authored placements in slots "@;
    lemma_tells(lead, n, " and "@ + m, t);
    lemma_tells(lead + n + " and "@, m, Seq::empty(), t);
}

/// The flags that a refused loader is told of are those it was checked for, and a slot's limit is
/// told with the number that broke it.
pub proof fn law_refusals_tell_the_numbers(x: ModelExport, k: usize, c: usize, outside: Seq<char>)
    requires
        k < x.count(),
        x.asset_position(k as int) is Some,
    ensures
        x.placement(k as int).export_mode != ModelInstanceExportMode::StockMapObjBase ==> tells(
            ExportError::Loader(k).text(x, outside),
            "0x"@ + text::hex(x.wanted_flags(k as int) as nat, 8),
        ),
        x.placement(k as int).export_mode == ModelInstanceExportMode::StockMapObjBase
            && x.slot_index(k as int) is Some ==> tells(
            StockFault::Loader.text(x, k),
            "0x"@ + text::hex(x.wanted_flags(k as int) as nat, 8),
        ),
        x.slot_index(k as int) is Some && c < x.slot(k as int).collision_resources@.len() && (
        x.slot(k as int).collision_resources@[c as int].max_vertices matches Some(limit) && x.asset(
            k as int,
        ).collision is Some) ==> tells(
            StockFault::CollisionLimit(c).text(x, k),
            text::decimal(
                x.slot(k as int).collision_resources@[c as int].max_vertices->0 as nat,
            ),
        ) && tells(
            StockFault::CollisionLimit(c).text(x, k),
            text::decimal(x.asset(k as int).collision->0.vertices@.len()),
        ),
{
    reveal_strlit("0x");
    reveal_strlit(" loader flags 0x");
    reveal_strlit(" loader flags ");
    reveal_strlit(" with loader flags 0x");
    reveal_strlit(" with loader flags ");
    let kk = k as int;
    let i = export_messages::iid(x, kk);
    let a = export_messages::aid(x, kk);
    let named = text::debug_form(export_messages::selected_name(x, kk));
    assert(" loader flags 0x"@ =~= " loader flags "@ + "0x"@);
    assert(" with loader flags 0x"@ =~= " with loader flags "@ + "0x"@);
    let f = text::hex(export_messages::flags(x, kk) as nat, 8);
    lemma_tells(
        "model instance "@ + i + " (asset "@ + a + ") cannot use "@ + export_messages::target(x, kk)
            + " loader flags "@,
        "0x"@ + f,
        ": "@ + export_messages::loader_detail(x, kk),
        ExportError::Loader(k).text(x, outside),
    );
    let g = text::hex(export_messages::slot_flags(x, kk) as nat, 8);
    lemma_tells(
        "asset "@ + a + " cannot replace stock MapObjBase resource "@ + named
            + " with loader flags "@,
        "0x"@ + g,
        ": "@ + export_messages::stock_loader_detail(x, kk),
        StockFault::Loader.text(x, k),
    );
    let limit = text::decimal(export_messages::collision_limit(x, kk, c as int));
    let count = text::decimal(export_messages::vertices(x, kk));
    let lead = "stock collision resource "@ + text::debug_form(
        export_messages::collision_name(x, kk, c as int),
    ) + " permits at most "@;
    let t = StockFault::CollisionLimit(c).text(x, k);
    lemma_tells(lead, limit, " vertices, but asset "@ + a + " has "@ + count, t);
    lemma_tells(lead + limit + " vertices, but asset "@ + a + " has "@, count, Seq::empty(), t);
}

/// What compiling said, and what was found of a group, is passed on whole.
pub proof fn law_refusals_pass_on_what_they_were_told(x: ModelExport, k: usize, outside: Seq<char>)
    requires
        k < x.count(),
        x.asset_position(k as int) is Some,
    ensures
        x.asset(k as int).compiled matches Err(error) ==> error@.is_suffix_of(
            ExportError::Compile(k).text(x, outside),
        ) && error@.is_suffix_of(StockFault::Compile.text(x, k)),
        outside.is_suffix_of(ExportError::SkyRecord.text(x, outside)),
        outside.is_suffix_of(ExportError::SkyTable.text(x, outside)),
        x.archive matches Some(archive) ==> {
            &&& archive.runtime_map_group matches Err(error) ==> error@.is_suffix_of(
                ExportError::RuntimeGroupLookup.text(x, outside),
            )
            &&& archive.object_group matches Err(error) ==> error@.is_suffix_of(
                ExportError::ObjectGroupLookup.text(x, outside),
            )
            &&& archive.sky_group matches Err(error) ==> error@.is_suffix_of(
                ExportError::SkyGroupLookup.text(x, outside),
            )
        },
{
    let kk = k as int;
    let d = export_messages::compile_detail(x, kk);
    lemma_ends(ExportError::Compile(k).text(x, outside), d);
    lemma_ends(StockFault::Compile.text(x, k), d);
    lemma_ends(ExportError::SkyRecord.text(x, outside), outside);
    lemma_ends(ExportError::SkyTable.text(x, outside), outside);
    let a = export_messages::lookup_detail(x, export_messages::GroupKind::RuntimeMap);
    let b = export_messages::lookup_detail(x, export_messages::GroupKind::Object);
    let c = export_messages::lookup_detail(x, export_messages::GroupKind::Sky);
    lemma_ends(ExportError::RuntimeGroupLookup.text(x, outside), a);
    lemma_ends(ExportError::ObjectGroupLookup.text(x, outside), b);
    lemma_ends(ExportError::SkyGroupLookup.text(x, outside), c);
}

proof fn lemma_ends(report: Seq<char>, end: Seq<char>)
    ensures
        (report.len() >= end.len() && report.subrange(
            report.len() - end.len(),
            report.len() as int,
        ) =~= end) ==> end.is_suffix_of(report),
{
}

/// A list is joined by its separator, one after the other.
pub proof fn law_lists_are_joined_in_order(
    list: Seq<Seq<char>>,
    separator: Seq<char>,
    item: Seq<char>,
)
    ensures
        export_messages::joined(Seq::empty(), separator) == Seq::<char>::empty(),
        export_messages::joined(seq![item], separator) == item,
        list.len() > 0 ==> export_messages::joined(list.push(item), separator)
            == export_messages::joined(list, separator) + separator + item,
{
    assert(list.push(item).drop_last() =~= list);
}

/// A report on an instance whose loader is not known names the instance.
pub proof fn law_unresolved_loaders_name_the_instance(placement: ModelInstancePlacement)
    ensures
        tells(
            LoaderFlagsError::NoSlotSelected.text(placement),
            ids::hyphenated(placement.instance_id),
        ),
        tells(
            LoaderFlagsError::RegistryUnavailable.text(placement),
            ids::hyphenated(placement.instance_id),
        ),
        tells(
            LoaderFlagsError::UnknownSlot.text(placement),
            ids::hyphenated(placement.instance_id),
        ),
        tells(
            LoaderFlagsError::UnknownSlot.text(placement),
            text::debug_form(text::trimmed(placement.stock_map_obj_resource@)),
        ),
{
    let id = ids::hyphenated(placement.instance_id);
    let named = text::debug_form(text::trimmed(placement.stock_map_obj_resource@));
    lemma_tells(
        "model instance "@,
        id,
        " has no stock MapObjBase resource slot selected"@,
        LoaderFlagsError::NoSlotSelected.text(placement),
    );
    lemma_tells(
        "model instance "@,
        id,
        " cannot resolve stock loader flags because the decomp-derived registry is unavailable"@,
        LoaderFlagsError::RegistryUnavailable.text(placement),
    );
    lemma_tells(
        "model instance "@,
        id,
        " selected unknown stock MapObjBase resource "@ + named,
        LoaderFlagsError::UnknownSlot.text(placement),
    );
    lemma_tells(
        "model instance "@ + id + " selected unknown stock MapObjBase resource "@,
        named,
        Seq::empty(),
        LoaderFlagsError::UnknownSlot.text(placement),
    );
}

/// A model over its budget is reported with the instance, the asset, both of its sizes and both of
/// the limits.
pub proof fn law_budget_reports_tell_the_sizes(
    size: nat,
    textures: u32,
    placement: ModelInstancePlacement,
    target: Seq<char>,
)
    ensures
        ({
            let t = model_instances::budget_text(size, textures, placement, target);
            &&& tells(t, ids::hyphenated(placement.instance_id))
            &&& tells(t, ids::hyphenated(placement.asset_id))
            &&& tells(t, text::decimal(size) + "-byte BMD3"@)
            &&& tells(t, text::decimal(textures as nat) + "-byte TEX1"@)
            &&& tells(t, target)
            &&& tells(t, "(12582912 bytes total / 8388608 bytes TEX1)"@)
        }),
{
    let t = model_instances::budget_text(size, textures, placement, target);
    let i = ids::hyphenated(placement.instance_id);
    let a = ids::hyphenated(placement.asset_id);
    let m = text::decimal(size);
    let n = text::decimal(textures as nat);
    let last =
        " safety budget (12582912 bytes total / 8388608 bytes TEX1) for Sunshine's 24 MiB MEM1. This is an editor safety budget, not a BMD format limit; prune unused textures, downsize them, or use map-terrain mode when the model is intentionally the stage terrain"@;
    let s0 = "model instance "@;
    let s1 = " (asset "@;
    let s2 = ") compiles to a "@;
    let s3 = "-byte BMD3 with a "@;
    let s4 = "-byte TEX1, exceeding the Graffito-Editor standalone "@;
    lemma_tells(s0, i, s1 + a + s2 + m + s3 + n + s4 + target + last, t);
    lemma_tells(s0 + i + s1, a, s2 + m + s3 + n + s4 + target + last, t);
    lemma_tells(s0 + i + s1 + a + s2 + m + s3 + n + s4, target, last, t);
    reveal_strlit("-byte BMD3 with a ");
    reveal_strlit("-byte BMD3");
    reveal_strlit(" with a ");
    assert(s3 =~= "-byte BMD3"@ + " with a "@);
    lemma_tells(
        s0 + i + s1 + a + s2,
        m + "-byte BMD3"@,
        " with a "@ + n + s4 + target + last,
        t,
    );
    reveal_strlit("-byte TEX1, exceeding the Graffito-Editor standalone ");
    reveal_strlit("-byte TEX1");
    reveal_strlit(", exceeding the Graffito-Editor standalone ");
    assert(s4 =~= "-byte TEX1"@ + ", exceeding the Graffito-Editor standalone "@);
    lemma_tells(
        s0 + i + s1 + a + s2 + m + s3,
        n + "-byte TEX1"@,
        ", exceeding the Graffito-Editor standalone "@ + target + last,
        t,
    );
    reveal_strlit(
        " safety budget (12582912 bytes total / 8388608 bytes TEX1) for Sunshine's 24 MiB MEM1. This is an editor safety budget, not a BMD format limit; prune unused textures, downsize them, or use map-terrain mode when the model is intentionally the stage terrain",
    );
    reveal_strlit("(12582912 bytes total / 8388608 bytes TEX1)");
    let limits = "(12582912 bytes total / 8388608 bytes TEX1)"@;
    assert(last.subrange(15, 58) =~= limits);
    assert(last =~= last.subrange(0, 15) + limits + last.subrange(58, last.len() as int));
    lemma_tells(
        s0 + i + s1 + a + s2 + m + s3 + n + s4 + target + last.subrange(0, 15),
        limits,
        last.subrange(58, last.len() as int),
        t,
    );
}

/// A snapshot that fails names the instance and its asset and passes the error on.
pub proof fn law_failed_snapshots_name_the_instance(
    instance: EditorModelInstance,
    error: Seq<char>,
)
    ensures
        tells(
            model_snapshot::snapshot_failure(instance, error),
            ids::hyphenated(instance.placement.instance_id),
        ),
        tells(
            model_snapshot::snapshot_failure(instance, error),
            ids::hyphenated(instance.placement.asset_id),
        ),
        tells(model_snapshot::snapshot_failure(instance, error), error),
{
    let i = ids::hyphenated(instance.placement.instance_id);
    let a = ids::hyphenated(instance.placement.asset_id);
    let t = model_snapshot::snapshot_failure(instance, error);
    let lead = "could not snapshot model instance "@;
    lemma_tells(lead, i, " (asset "@ + a + "): "@ + error, t);
    lemma_tells(lead + i + " (asset "@, a, "): "@ + error, t);
    lemma_tells(lead + i + " (asset "@ + a + "): "@, error, Seq::empty(), t);
}

/// A preview that cannot be built names its asset, the flags it was built for and the error.
pub proof fn law_failed_previews_name_the_asset(id: u128, loader_flags: u32, error: Seq<char>)
    ensures
        tells(preview_cache::build_failure(id, loader_flags, error), ids::hyphenated(id)),
        tells(
            preview_cache::build_failure(id, loader_flags, error),
            text::hex(loader_flags as nat, 8),
        ),
        tells(preview_cache::build_failure(id, loader_flags, error), error),
        tells(preview_cache::load_failure(id, error), ids::hyphenated(id)),
        tells(preview_cache::load_failure(id, error), error),
{
    let i = ids::hyphenated(id);
    let f = text::hex(loader_flags as nat, 8);
    let lead = "Could not build preview for model asset "@;
    let t = preview_cache::build_failure(id, loader_flags, error);
    lemma_tells(lead, i, " with loader flags 0x"@ + f + ": "@ + error, t);
    lemma_tells(lead + i + " with loader flags 0x"@, f, ": "@ + error, t);
    lemma_tells(lead + i + " with loader flags 0x"@ + f + ": "@, error, Seq::empty(), t);
    let t = preview_cache::load_failure(id, error);
    lemma_tells(lead, i, ": "@ + error, t);
    lemma_tells(lead + i + ": "@, error, Seq::empty(), t);
}

/// Folders that must not overlap are both named, each under its own role.
pub proof fn law_overlaps_name_both_folders(
    left: Seq<char>,
    right: Seq<char>,
    left_label: Seq<char>,
    right_label: Seq<char>,
)
    ensures
        ({
            let t = paths::overlap_message(left, right, left_label, right_label);
            &&& left_label.is_prefix_of(t)
            &&& tells(t, left_label + " '"@ + left + "'"@)
            &&& tells(t, right_label + " '"@ + right + "'"@)
        }),
{
    let t = paths::overlap_message(left, right, left_label, right_label);
    reveal_strlit("' must not overlap ");
    reveal_strlit("'");
    reveal_strlit(" must not overlap ");
    assert("' must not overlap "@ =~= "'"@ + " must not overlap "@);
    let right_part = right_label + " '"@ + right + "'"@;
    let left_part = left_label + " '"@ + left + "'"@;
    lemma_tells(Seq::empty(), left_part, " must not overlap "@ + right_part, t);
    lemma_tells(left_part + " must not overlap "@, right_part, Seq::empty(), t);
    assert(t.subrange(0, left_label.len() as int) =~= left_label);
}

/// Music that cannot be installed is reported with its stage, and with the number that does not
/// fit.
pub proof fn law_music_reports_name_the_stage(
    music: Seq<ProjectStageMusic>,
    entries: Seq<ScenarioArchiveEntry>,
    m: usize,
    entry: usize,
)
    requires
        m < music.len(),
        entry < entries.len(),
    ensures
        tells(
            StageMusicError::NotMapped { music: m }.text(music, entries),
            music[m as int].stage_id@,
        ),
        tells(
            StageMusicError::AreaTooLarge { music: m, entry }.text(music, entries),
            music[m as int].stage_id@,
        ),
        tells(
            StageMusicError::AreaTooLarge { music: m, entry }.text(music, entries),
            text::decimal(entries[entry as int].area_index as nat),
        ),
        tells(
            StageMusicError::ScenarioTooLarge { music: m, entry }.text(music, entries),
            music[m as int].stage_id@,
        ),
        tells(
            StageMusicError::ScenarioTooLarge { music: m, entry }.text(music, entries),
            text::decimal(entries[entry as int].scenario_index as nat),
        ),
{
    let s = music[m as int].stage_id@;
    let a = text::decimal(entries[entry as int].area_index as nat);
    let b = text::decimal(entries[entry as int].scenario_index as nat);
    let end = "' does not fit Sunshine's u8 game sequence"@;
    lemma_tells(
        "Stage music override '"@,
        s,
        "' is not mapped by the packaged stageArc.bin"@,
        StageMusicError::NotMapped { music: m }.text(music, entries),
    );
    let t = StageMusicError::AreaTooLarge { music: m, entry }.text(music, entries);
    lemma_tells("Stage music area "@, a, " for '"@ + s + end, t);
    lemma_tells("Stage music area "@ + a + " for '"@, s, end, t);
    let t = StageMusicError::ScenarioTooLarge { music: m, entry }.text(music, entries);
    lemma_tells("Stage music scenario "@, b, " for '"@ + s + end, t);
    lemma_tells("Stage music scenario "@ + b + " for '"@, s, end, t);
}

/// What direct boot reports: the outside error as it is where it is about the table's place or the
/// target or a cancelled build, and else the file and the error.
pub proof fn law_boot_reports_name_the_file(path: Seq<char>, error: Seq<char>)
    ensures
        direct_boot::fault_text(BootFault::FindTable, path, error) == error,
        direct_boot::fault_text(BootFault::ResolveTarget, path, error) == error,
        cancellation::MANAGED_BUILD_CANCELLED@.is_prefix_of(error) ==> direct_boot::fault_text(
            BootFault::Install,
            path,
            error,
        ) == error,
        !cancellation::MANAGED_BUILD_CANCELLED@.is_prefix_of(error) ==> tells(
            direct_boot::fault_text(BootFault::Install, path, error),
            path + "': "@ + error,
        ),
        tells(direct_boot::fault_text(BootFault::ReadTable, path, error), path + "': "@ + error),
        tells(direct_boot::fault_text(BootFault::ParseTable, path, error), path + "': "@ + error),
        tells(
            direct_boot::fault_text(BootFault::ReadExecutable, path, error),
            path + "': "@ + error,
        ),
        tells(direct_boot::fault_text(BootFault::Patch, path, error), path + "': "@ + error),
{
    let part = path + "': "@ + error;
    let none = Seq::<char>::empty();
    if !cancellation::MANAGED_BUILD_CANCELLED@.is_prefix_of(error) {
        lemma_tells(
            "Could not install managed direct-boot executable '"@,
            part,
            none,
            direct_boot::fault_text(BootFault::Install, path, error),
        );
    }
    lemma_tells(
        "Could not read runtime stage archive table '"@,
        part,
        none,
        direct_boot::fault_text(BootFault::ReadTable, path, error),
    );
    lemma_tells(
        "Could not parse runtime stage archive table '"@,
        part,
        none,
        direct_boot::fault_text(BootFault::ParseTable, path, error),
    );
    lemma_tells(
        "Could not read managed game executable '"@,
        part,
        none,
        direct_boot::fault_text(BootFault::ReadExecutable, path, error),
    );
    lemma_tells(
        "Could not prepare version-independent direct boot from '"@,
        part,
        none,
        direct_boot::fault_text(BootFault::Patch, path, error),
    );
}

/// The counts of a primitive are all told, its triangles as a third of its indices.
pub proof fn law_primitives_tell_their_counts(index: nat, counts: PrimitiveCounts)
    ensures
        ({
            let t = asset_inspectors::primitive_text(index, counts);
            &&& tells(t, "Primitive "@ + text::decimal(index) + ": "@)
            &&& tells(t, text::decimal(counts.vertices as nat) + " vertices, "@)
            &&& tells(t, text::decimal((counts.indices as int / 3) as nat) + " triangles, "@)
            &&& tells(t, text::decimal(counts.uv_sets as nat) + " UV set(s), "@)
            &&& tells(t, text::decimal(counts.color_sets as nat) + " color set(s), material "@)
            &&& counts.material is None ==> "default"@.is_suffix_of(t)
            &&& counts.material matches Some(m) ==> text::decimal(m as nat).is_suffix_of(t)
        }),
{
    let t = asset_inspectors::primitive_text(index, counts);
    let p0 = "Primitive "@ + text::decimal(index) + ": "@;
    let p1 = text::decimal(counts.vertices as nat) + " vertices, "@;
    let p2 = text::decimal((counts.indices as int / 3) as nat) + " triangles, "@;
    let p3 = text::decimal(counts.uv_sets as nat) + " UV set(s), "@;
    let p4 = text::decimal(counts.color_sets as nat) + " color set(s), material "@;
    let p5 = match counts.material {
        Some(material) => text::decimal(material as nat),
        None => "default"@,
    };
    assert(t =~= p0 + p1 + p2 + p3 + p4 + p5);
    lemma_parts(p0, p1, p2, p3, p4, p5, t);
}

proof fn lemma_parts(
    p0: Seq<char>,
    p1: Seq<char>,
    p2: Seq<char>,
    p3: Seq<char>,
    p4: Seq<char>,
    p5: Seq<char>,
    t: Seq<char>,
)
    requires
        t == p0 + p1 + p2 + p3 + p4 + p5,
    ensures
        tells(t, p0),
        tells(t, p1),
        tells(t, p2),
        tells(t, p3),
        tells(t, p4),
        p5.is_suffix_of(t),
{
    assert(t =~= Seq::<char>::empty() + p0 + (p1 + p2 + p3 + p4 + p5));
    assert(t =~= p0 + p1 + (p2 + p3 + p4 + p5));
    assert(t =~= (p0 + p1) + p2 + (p3 + p4 + p5));
    assert(t =~= (p0 + p1 + p2) + p3 + (p4 + p5));
    assert(t =~= (p0 + p1 + p2 + p3) + p4 + p5);
    assert(t.subrange(t.len() - p5.len(), t.len() as int) =~= p5);
}

/// A slot is offered under its name, with its flags and its manager.
pub proof fn law_slots_are_offered_with_their_manager(slot: MapObjResourceDefinition)
    ensures
        slot.resource_name@.is_prefix_of(instance_inspector::slot_text(slot)),
        tells(
            instance_inspector::slot_text(slot),
            "(0x"@ + text::hex(slot.load_flags as nat, 8) + "; manager "@
                + slot.required_manager_name@ + ")"@,
        ),
{
    let t = instance_inspector::slot_text(slot);
    reveal_strlit(" (0x");
    reveal_strlit("(0x");
    reveal_strlit(" ");
    assert(" (0x"@ =~= " "@ + "(0x"@);
    let part = "(0x"@ + text::hex(slot.load_flags as nat, 8) + "; manager "@
        + slot.required_manager_name@ + ")"@;
    lemma_tells(slot.resource_name@ + " "@, part, Seq::empty(), t);
    assert(t.subrange(0, slot.resource_name@.len() as int) =~= slot.resource_name@);
}

/// An action that the build holds up is named, and a count of assets has its plural.
pub proof fn law_held_up_actions_are_named(action: Seq<char>, count: nat)
    ensures
        ("Cannot "@ + action + " while "@).is_prefix_of(editor_assets::locked_message(action)),
        count == 1 ==> content_browser::count_text(count) == text::decimal(1) + " asset"@,
        count != 1 ==> content_browser::count_text(count) == text::decimal(count) + " assets"@,
{
    reveal_strlit(
        " while a stage build or another background operation is reading the project Content snapshot; wait for it to finish.",
    );
    reveal_strlit(" while ");
    reveal_strlit(" asset");
    reveal_strlit(" assets");
    reveal_strlit("s");
    reveal_strlit("");
    let t = editor_assets::locked_message(action);
    let lead = "Cannot "@ + action + " while "@;
    assert(t.subrange(0, lead.len() as int) =~= lead);
    assert(text::decimal(count) + " asset"@ + "s"@ =~= text::decimal(count) + " assets"@);
    assert(text::decimal(count) + " asset"@ + ""@ =~= text::decimal(count) + " asset"@);
}

/// A build folder is refused where it is a link, or overlaps the base game or the project's data,
/// in that order, and only there.
pub proof fn law_build_folders_are_refused_for_a_reason(
    configured: Seq<char>,
    kind: Option<EntryKind>,
    build_root: ShownPath,
    base_root: ShownPath,
    data_root: ShownPath,
    fold_case: bool,
)
    ensures
        ({
            let complaint = managed_build::build_root_complaint(
                configured,
                kind,
                build_root,
                base_root,
                data_root,
                fold_case,
            );
            let link = kind == Some(EntryKind::Link);
            let base = paths::overlap(build_root.parts(), base_root.parts(), fold_case);
            let data = paths::overlap(build_root.parts(), data_root.parts(), fold_case);
            &&& complaint is None <==> !link && !base && !data
            &&& link ==> tells(complaint->0, configured) && tells(
                complaint->0,
                "managed build root"@,
            )
            &&& !link && base ==> tells(
                complaint->0,
                "managed build root"@ + " '"@ + build_root.shown@ + "'"@,
            ) && tells(complaint->0, "extracted base game"@ + " '"@ + base_root.shown@ + "'"@)
            &&& !link && !base && data ==> tells(
                complaint->0,
                "managed build root"@ + " '"@ + build_root.shown@ + "'"@,
            ) && tells(complaint->0, "project data"@ + " '"@ + data_root.shown@ + "'"@)
        }),
{
    let t = build_ownership::link_message("managed build root"@, configured);
    lemma_tells(
        "Refusing "@,
        "managed build root"@,
        " symlink or reparse point: "@ + configured,
        t,
    );
    lemma_tells(
        "Refusing "@ + "managed build root"@ + " symlink or reparse point: "@,
        configured,
        Seq::empty(),
        t,
    );
    law_overlaps_name_both_folders(
        build_root.shown@,
        base_root.shown@,
        "managed build root"@,
        "extracted base game"@,
    );
    law_overlaps_name_both_folders(
        build_root.shown@,
        data_root.shown@,
        "managed build root"@,
        "project data"@,
    );
}

/// A surface without a known name is shown by its number in four digits, any other by its names.
pub proof fn law_surfaces_are_shown_by_name(
    shown: Seq<char>,
    definitions: Seq<CollisionSurfaceDefinition>,
    surface_type: u16,
    i: int,
)
    requires
        instance_inspector::is_surface_description(shown, definitions, surface_type),
    ensures
        (forall|j: int|
            0 <= j < definitions.len() ==> !instance_inspector::describes(
                #[trigger] definitions[j],
                surface_type,
            )) ==> shown == "Unknown raw collision surface 0x"@ + text::hex(surface_type as nat, 4),
        0 <= i < definitions.len() && instance_inspector::describes(definitions[i], surface_type)
            ==> "Decomp-derived: "@.is_prefix_of(shown),
{
    let names = choose|names: Seq<Seq<char>>|
        {
            &&& #[trigger] crate::order::strictly_sorted(names)
            &&& forall|name: Seq<char>|
                names.contains(name) <==> #[trigger] instance_inspector::has_surface_name(
                    definitions,
                    surface_type,
                    definitions.len() as int,
                    name,
                )
            &&& shown == if names.len() == 0 {
                "Unknown raw collision surface 0x"@ + text::hex(surface_type as nat, 4)
            } else {
                "Decomp-derived: "@ + export_messages::joined(names, " | "@)
            }
        };
    if 0 <= i < definitions.len() && instance_inspector::describes(definitions[i], surface_type) {
        let name = definitions[i].name@;
        assert(instance_inspector::has_surface_name(
            definitions,
            surface_type,
            definitions.len() as int,
            name,
        ));
        assert(names.contains(name));
        assert(shown.subrange(0, "Decomp-derived: "@.len() as int) =~= "Decomp-derived: "@);
    }
    if forall|j: int|
        0 <= j < definitions.len() ==> !instance_inspector::describes(
            #[trigger] definitions[j],
            surface_type,
        ) {
        if names.len() > 0 {
            assert(names.contains(names[0]));
            assert(instance_inspector::has_surface_name(
                definitions,
                surface_type,
                definitions.len() as int,
                names[0],
            ));
        }
    }
}

} // verus!
