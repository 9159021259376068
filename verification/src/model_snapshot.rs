//! The assets that an export reads, each once, and the entry points of the export.
use vstd::prelude::*;

use crate::editor::SmsEditorApp;
use crate::ids;
use crate::model_export;
use crate::model_export::{AuthoredSky, ExportError, ModelExport};
use crate::model_instances::EditorModelInstance;
use crate::sky_bundle::SkyTable;
use crate::stage_edits::{EditsView, StageArchiveEdits};

use std::sync::atomic::AtomicBool;

verus! {

/// No earlier instance has the same asset.
pub open spec fn is_first_of_asset(instances: Seq<EditorModelInstance>, i: int) -> bool {
    forall|j: int|
        0 <= j < i ==> (#[trigger] instances[j]).placement.asset_id
            != instances[i].placement.asset_id
}

/// Positions of the first instance of each asset among the first `n`.
pub open spec fn first_instances(instances: Seq<EditorModelInstance>, n: nat) -> Seq<usize>
    decreases n,
{
    if n == 0 {
        Seq::empty()
    } else {
        let rest = first_instances(instances, (n - 1) as nat);
        if is_first_of_asset(instances, n - 1) {
            rest.push((n - 1) as usize)
        } else {
            rest
        }
    }
}

fn first_of_asset(instances: &[EditorModelInstance], i: usize) -> (r: bool)
    requires
        i < instances@.len(),
    ensures
        r == is_first_of_asset(instances@, i as int),
{
    let mut j: usize = 0;
    while j < i
        invariant
            j <= i < instances@.len(),
            forall|k: int|
                0 <= k < j ==> (#[trigger] instances@[k]).placement.asset_id
                    != instances@[i as int].placement.asset_id,
        decreases i - j,
    {
        if instances[j].placement.asset_id == instances[i].placement.asset_id {
            return false;
        }
        j += 1;
    }
    true
}

/// What is said where the asset of an instance cannot be read.
pub open spec fn snapshot_failure(instance: EditorModelInstance, error: Seq<char>) -> Seq<char> {
    "could not snapshot model instance "@ + ids::hyphenated(instance.placement.instance_id)
        + " (asset "@ + ids::hyphenated(instance.placement.asset_id) + "): "@ + error
}

/// What is said where the asset of an instance cannot be read.
pub fn snapshot_error(instance: &EditorModelInstance, error: &str) -> (r: String)
    ensures
        r@ == snapshot_failure(*instance, error@),
{
    let mut r = "could not snapshot model instance ".to_owned();
    r.append(ids::hyphenated_text(instance.placement.instance_id).as_str());
    r.append(" (asset ");
    r.append(ids::hyphenated_text(instance.placement.asset_id).as_str());
    r.append("): ");
    r.append(error);
    r
}

impl SmsEditorApp {
    /// Positions of the instances whose assets an export reads: the first of each asset, in order.
    pub fn load_model_asset_snapshot(instances: &[EditorModelInstance]) -> (r: Vec<usize>)
        ensures
            r@ == first_instances(instances@, instances@.len()),
    {
        let mut r: Vec<usize> = Vec::new();
        let mut i: usize = 0;
        while i < instances.len()
            invariant
                i <= instances.len(),
                r@ == first_instances(instances@, i as nat),
            decreases instances.len() - i,
        {
            if first_of_asset(instances, i) {
                r.push(i);
            }
            i += 1;
        }
        r
    }

    /// The edits of all placed models; this export cannot be cancelled.
    pub fn stage_edits_with_model_instances_from_snapshot(
        x: &ModelExport,
        base: StageArchiveEdits,
        sky_record: AuthoredSky,
        table: Option<SkyTable>,
    ) -> (r: Result<StageArchiveEdits, ExportError>)
        ensures
            match r {
                Ok(edits) => x.exported(base, model_export::record_of(sky_record), table) == Ok::<
                    EditsView,
                    ExportError,
                >(edits@),
                Err(fault) => x.exported(base, model_export::record_of(sky_record), table) == Err::<
                    EditsView,
                    ExportError,
                >(fault),
            },
    {
        model_export::stage_edits_with_model_instances_from_snapshot_impl(
            x,
            base,
            sky_record,
            table,
            None,
        )
    }

    /// The edits of all placed models; the flag can end this export early.
    pub fn stage_edits_with_model_instances_from_snapshot_cancellable(
        x: &ModelExport,
        base: StageArchiveEdits,
        sky_record: AuthoredSky,
        table: Option<SkyTable>,
        cancelled: &AtomicBool,
    ) -> (r: Result<StageArchiveEdits, ExportError>)
        ensures
            ({
                ||| r == Err::<StageArchiveEdits, ExportError>(ExportError::Cancelled)
                ||| match r {
                    Ok(edits) => x.exported(base, model_export::record_of(sky_record), table)
                        == Ok::<EditsView, ExportError>(edits@),
                    Err(fault) => x.exported(base, model_export::record_of(sky_record), table)
                        == Err::<EditsView, ExportError>(fault),
                }
            }),
    {
        model_export::stage_edits_with_model_instances_from_snapshot_impl(
            x,
            base,
            sky_record,
            table,
            Some(cancelled),
        )
    }
}

proof fn lemma_first_instances(instances: Seq<EditorModelInstance>, n: nat)
    requires
        n <= instances.len(),
        instances.len() <= usize::MAX,
    ensures
        forall|a: int|
            0 <= a < first_instances(instances, n).len() ==> (#[trigger] first_instances(
                instances,
                n,
            )[a]) < n && is_first_of_asset(instances, first_instances(instances, n)[a] as int),
        forall|a: int, b: int|
            0 <= a < b < first_instances(instances, n).len() ==> (#[trigger] first_instances(
                instances,
                n,
            )[a]) < (#[trigger] first_instances(instances, n)[b]),
        forall|i: int|
            0 <= i < n && #[trigger] is_first_of_asset(instances, i) ==> first_instances(
                instances,
                n,
            ).contains(i as usize),
    decreases n,
{
    if n > 0 {
        lemma_first_instances(instances, (n - 1) as nat);
        let rest = first_instances(instances, (n - 1) as nat);
        let all = first_instances(instances, n);
        assert(forall|a: int| 0 <= a < rest.len() ==> all[a] == rest[a]);
        assert forall|i: int| 0 <= i < n && #[trigger] is_first_of_asset(
            instances,
            i,
        ) implies all.contains(i as usize) by {
            if i < n - 1 {
                let a = choose|a: int| 0 <= a < rest.len() && rest[a] == i as usize;
                assert(all[a] == i as usize);
            } else {
                assert(all[all.len() - 1] == i as usize);
            }
        }
    }
}

proof fn lemma_asset_has_a_first(instances: Seq<EditorModelInstance>, i: int) -> (k: int)
    requires
        0 <= i < instances.len(),
    ensures
        0 <= k <= i,
        instances[k].placement.asset_id == instances[i].placement.asset_id,
        is_first_of_asset(instances, k),
    decreases i,
{
    if is_first_of_asset(instances, i) {
        i
    } else {
        let j = choose|j: int|
            0 <= j < i && (#[trigger] instances[j]).placement.asset_id
                == instances[i].placement.asset_id;
        lemma_asset_has_a_first(instances, j)
    }
}

/// An export reads the asset of every instance, and none twice.
pub proof fn law_every_asset_is_read_once(instances: Seq<EditorModelInstance>, i: int)
    requires
        instances.len() <= usize::MAX,
        0 <= i < instances.len(),
    ensures
        exists|a: int|
            0 <= a < first_instances(instances, instances.len()).len()
                && instances[#[trigger] first_instances(instances, instances.len())[a] as int].placement.asset_id
                == instances[i].placement.asset_id,
        forall|a: int, b: int|
            0 <= a < b < first_instances(instances, instances.len()).len()
                ==> instances[#[trigger] first_instances(instances, instances.len())[a] as int].placement.asset_id
                != instances[#[trigger] first_instances(instances, instances.len())[b] as int].placement.asset_id,
{
    let list = first_instances(instances, instances.len());
    lemma_first_instances(instances, instances.len());
    let k = lemma_asset_has_a_first(instances, i);
    let a = choose|a: int| 0 <= a < list.len() && list[a] == k as usize;
    assert(instances[list[a] as int].placement.asset_id == instances[i].placement.asset_id);
    assert forall|a: int, b: int| 0 <= a < b < list.len() implies instances[#[trigger] list[a] as int].placement.asset_id
        != instances[#[trigger] list[b] as int].placement.asset_id by {
        assert(is_first_of_asset(instances, list[b] as int));
        assert(list[a] < list[b]);
    }
}

} // verus!
