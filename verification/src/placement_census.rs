//! How often objects of certain kinds are placed in which stage.
use vstd::prelude::*;

use crate::order;
use crate::stage::SceneObject;
use crate::text;

verus! {

/// The objects of a stage.
#[derive(Debug)]
pub struct StageObjects {
    pub stage_id: String,
    pub objects: Vec<SceneObject>,
}

/// A factory and a resource that are looked for.
#[derive(Debug)]
pub struct PlacementSelector {
    pub factory_name: String,
    pub resource_name: String,
}

/// How often a resource is placed in a stage.
#[derive(Debug)]
pub struct CensusEntry {
    pub stage_id: String,
    pub factory_name: String,
    pub resource_name: String,
    pub count: usize,
}

/// What is counted: a stage, a factory and a resource.
pub struct CensusKey {
    pub stage: Seq<char>,
    pub factory: Seq<char>,
    pub resource: Seq<char>,
}

/// What an entry counts.
pub open spec fn key_of(entry: CensusEntry) -> CensusKey {
    CensusKey {
        stage: entry.stage_id@,
        factory: entry.factory_name@,
        resource: entry.resource_name@,
    }
}

/// The order of keys: by stage, then factory, then resource.
pub open spec fn key_before(a: CensusKey, b: CensusKey) -> bool {
    if a.stage != b.stage {
        order::before(a.stage, b.stage)
    } else if a.factory != b.factory {
        order::before(a.factory, b.factory)
    } else {
        order::before(a.resource, b.resource)
    }
}

/// Factory and resource are looked for.
pub open spec fn is_selected(
    selectors: Seq<PlacementSelector>,
    factory: Seq<char>,
    resource: Seq<char>,
) -> bool {
    exists|i: int|
        0 <= i < selectors.len() && (#[trigger] selectors[i]).factory_name@ == factory
            && selectors[i].resource_name@ == resource
}

/// What an object counts for.
pub open spec fn counted_as(
    stage: Seq<char>,
    object: SceneObject,
    selectors: Seq<PlacementSelector>,
) -> Option<CensusKey> {
    match object.param("actor_tail_string"@) {
        Some(resource) => if is_selected(selectors, object.factory_name@, resource) {
            Some(CensusKey { stage, factory: object.factory_name@, resource })
        } else {
            None
        },
        None => None,
    }
}

/// How often a key is met among the first `n` objects of a stage.
pub open spec fn met_in(
    stage: StageObjects,
    selectors: Seq<PlacementSelector>,
    key: CensusKey,
    n: nat,
) -> nat
    decreases n,
{
    if n == 0 {
        0
    } else {
        met_in(stage, selectors, key, (n - 1) as nat) + (if counted_as(
            stage.stage_id@,
            stage.objects@[n - 1],
            selectors,
        ) == Some(key) {
            1nat
        } else {
            0
        })
    }
}

/// How often a key is met in the first `n` stages.
pub open spec fn met(
    stages: Seq<StageObjects>,
    selectors: Seq<PlacementSelector>,
    key: CensusKey,
    n: nat,
) -> nat
    decreases n,
{
    if n == 0 {
        0
    } else {
        met(stages, selectors, key, (n - 1) as nat) + met_in(
            stages[n - 1],
            selectors,
            key,
            stages[n - 1].objects@.len(),
        )
    }
}

/// How many objects the first `n` stages have.
pub open spec fn object_total(stages: Seq<StageObjects>, n: nat) -> nat
    decreases n,
{
    if n == 0 {
        0
    } else {
        object_total(stages, (n - 1) as nat) + stages[n - 1].objects@.len()
    }
}

/// The entries stand in order and none stands twice.
pub open spec fn is_sorted(entries: Seq<CensusEntry>) -> bool {
    forall|i: int, j: int|
        0 <= i < j < entries.len() ==> #[trigger] key_before(key_of(entries[i]), key_of(entries[j]))
}

/// The count that the entries give for a key.
pub open spec fn count_of(entries: Seq<CensusEntry>, key: CensusKey) -> nat
    decreases entries.len(),
{
    if entries.len() == 0 {
        0
    } else if key_of(entries.last()) == key {
        entries.last().count as nat
    } else {
        count_of(entries.drop_last(), key)
    }
}

/// Of two keys one comes first, unless they are the same.
pub proof fn law_key_order_is_total(a: CensusKey, b: CensusKey)
    ensures
        a == b <==> !key_before(a, b) && !key_before(b, a),
        !(key_before(a, b) && key_before(b, a)),
{
    order::law_order_is_total(a.stage, b.stage);
    order::law_order_is_total(a.factory, b.factory);
    order::law_order_is_total(a.resource, b.resource);
}

proof fn lemma_key_order_is_transitive(a: CensusKey, b: CensusKey, c: CensusKey)
    requires
        key_before(a, b),
        key_before(b, c),
    ensures
        key_before(a, c),
{
    if a.stage != b.stage && b.stage != c.stage {
        order::law_order_is_transitive(a.stage, b.stage, c.stage);
        order::law_order_is_total(a.stage, c.stage);
    } else if a.stage == b.stage && b.stage == c.stage {
        if a.factory != b.factory && b.factory != c.factory {
            order::law_order_is_transitive(a.factory, b.factory, c.factory);
            order::law_order_is_total(a.factory, c.factory);
        } else if a.factory == b.factory && b.factory == c.factory {
            order::law_order_is_transitive(a.resource, b.resource, c.resource);
        }
    }
}

fn selects(selectors: &[PlacementSelector], factory: &str, resource: &str) -> (r: bool)
    ensures
        r == is_selected(selectors@, factory@, resource@),
{
    let mut i: usize = 0;
    while i < selectors.len()
        invariant
            i <= selectors.len(),
            forall|j: int|
                0 <= j < i ==> !((#[trigger] selectors@[j]).factory_name@ == factory@
                    && selectors@[j].resource_name@ == resource@),
        decreases selectors.len() - i,
    {
        if text::same(selectors[i].factory_name.as_str(), factory) && text::same(
            selectors[i].resource_name.as_str(),
            resource,
        ) {
            return true;
        }
        i += 1;
    }
    false
}

fn entry_before(entry: &CensusEntry, stage: &str, factory: &str, resource: &str) -> (r: bool)
    ensures
        r == key_before(
            key_of(*entry),
            (CensusKey { stage: stage@, factory: factory@, resource: resource@ }),
        ),
{
    if !text::same(entry.stage_id.as_str(), stage) {
        order::comes_before(entry.stage_id.as_str(), stage)
    } else if !text::same(entry.factory_name.as_str(), factory) {
        order::comes_before(entry.factory_name.as_str(), factory)
    } else {
        order::comes_before(entry.resource_name.as_str(), resource)
    }
}

/// The entry with this key is the only one, and no other stands for it.
proof fn lemma_count_at(entries: Seq<CensusEntry>, i: int)
    requires
        is_sorted(entries),
        0 <= i < entries.len(),
    ensures
        count_of(entries, key_of(entries[i])) == entries[i].count,
    decreases entries.len(),
{
    let last = entries.len() - 1;
    if i < last {
        assert(key_before(key_of(entries[i]), key_of(entries[last])));
        law_key_order_is_total(key_of(entries[i]), key_of(entries[last]));
        let rest = entries.drop_last();
        assert(is_sorted(rest)) by {
            assert forall|a: int, b: int| 0 <= a < b < rest.len() implies #[trigger] key_before(
                key_of(rest[a]),
                key_of(rest[b]),
            ) by {
                assert(key_before(key_of(entries[a]), key_of(entries[b])));
            }
        }
        lemma_count_at(rest, i);
    }
}

proof fn lemma_count_without(entries: Seq<CensusEntry>, key: CensusKey)
    requires
        forall|i: int| 0 <= i < entries.len() ==> key_of(#[trigger] entries[i]) != key,
    ensures
        count_of(entries, key) == 0,
    decreases entries.len(),
{
    if entries.len() > 0 {
        lemma_count_without(entries.drop_last(), key);
    }
}

/// Where a key stands, if it does.
proof fn lemma_count_positive(entries: Seq<CensusEntry>, key: CensusKey)
    requires
        count_of(entries, key) > 0,
    ensures
        exists|i: int| 0 <= i < entries.len() && key_of(#[trigger] entries[i]) == key,
    decreases entries.len(),
{
    if key_of(entries.last()) == key {
        assert(key_of(entries[entries.len() - 1]) == key);
    } else {
        lemma_count_positive(entries.drop_last(), key);
        let i = choose|i: int|
            0 <= i < entries.drop_last().len() && key_of(#[trigger] entries.drop_last()[i]) == key;
        assert(key_of(entries[i]) == key);
    }
}

fn count_one(entries: &mut Vec<CensusEntry>, stage: &str, factory: &str, resource: &str)
    requires
        is_sorted(old(entries)@),
        forall|i: int| 0 <= i < old(entries)@.len() ==> 0 < (#[trigger] old(entries)@[i]).count,
        forall|i: int|
            0 <= i < old(entries)@.len() ==> (#[trigger] old(entries)@[i]).count < usize::MAX,
    ensures
        is_sorted(final(entries)@),
        forall|i: int| 0 <= i < final(entries)@.len() ==> 0 < (#[trigger] final(entries)@[i]).count,
        forall|key: CensusKey|
            #[trigger] count_of(final(entries)@, key) == count_of(old(entries)@, key) + (if key
                == (CensusKey { stage: stage@, factory: factory@, resource: resource@ }) {
                1nat
            } else {
                0
            }),
{
    let ghost start = entries@;
    let ghost wanted = CensusKey { stage: stage@, factory: factory@, resource: resource@ };
    let mut i: usize = 0;
    while i < entries.len() && entry_before(&entries[i], stage, factory, resource)
        invariant
            i <= entries.len(),
            entries@ == start,
            wanted == (CensusKey { stage: stage@, factory: factory@, resource: resource@ }),
            forall|j: int| 0 <= j < i ==> key_before(key_of(#[trigger] start[j]), wanted),
        decreases entries.len() - i,
    {
        i += 1;
    }
    let found: bool = i < entries.len() && text::same(entries[i].stage_id.as_str(), stage)
        && text::same(entries[i].factory_name.as_str(), factory) && text::same(
        entries[i].resource_name.as_str(),
        resource,
    );
    if found {
        let entry = CensusEntry {
            stage_id: stage.to_owned(),
            factory_name: factory.to_owned(),
            resource_name: resource.to_owned(),
            count: entries[i].count + 1,
        };
        proof {
            assert(key_of(start[i as int]) == wanted);
            assert(key_of(entry) == wanted);
        }
        entries.set(i, entry);
        proof {
            let now = entries@;
            assert forall|a: int, b: int| 0 <= a < b < now.len() implies #[trigger] key_before(
                key_of(now[a]),
                key_of(now[b]),
            ) by {
                assert(key_of(now[a]) == key_of(start[a]));
                assert(key_of(now[b]) == key_of(start[b]));
                assert(key_before(key_of(start[a]), key_of(start[b])));
            }
            assert forall|key: CensusKey| #[trigger]
                count_of(now, key) == count_of(start, key) + (if key == wanted {
                    1nat
                } else {
                    0
                }) by {
                lemma_count_changed(start, now, i as int, key);
            }
        }
    } else {
        let entry = CensusEntry {
            stage_id: stage.to_owned(),
            factory_name: factory.to_owned(),
            resource_name: resource.to_owned(),
            count: 1,
        };
        let ghost made = entry;
        proof {
            assert(key_of(made) == wanted);
            if i < start.len() {
                assert(!key_before(key_of(start[i as int]), wanted));
                law_key_order_is_total(key_of(start[i as int]), wanted);
            }
        }
        entries.insert(i, entry);
        proof {
            let now = entries@;
            assert(now =~= start.insert(i as int, made));
            assert forall|j: int| i <= j < start.len() implies key_before(
                wanted,
                key_of(#[trigger] start[j]),
            ) by {
                if j > i {
                    assert(key_before(key_of(start[i as int]), key_of(start[j])));
                    lemma_key_order_is_transitive(
                        wanted,
                        key_of(start[i as int]),
                        key_of(start[j]),
                    );
                }
            }
            assert forall|a: int, b: int| 0 <= a < b < now.len() implies #[trigger] key_before(
                key_of(now[a]),
                key_of(now[b]),
            ) by {
                if a < i && b > i {
                    assert(key_before(key_of(start[a]), key_of(start[b - 1])));
                } else if a < i && b < i {
                    assert(key_before(key_of(start[a]), key_of(start[b])));
                } else if a > i {
                    assert(key_before(key_of(start[a - 1]), key_of(start[b - 1])));
                } else if a == i {
                    assert(now[b] == start[b - 1]);
                } else {
                    assert(now[a] == start[a]);
                }
            }
            assert forall|k: int| 0 <= k < now.len() implies 0 < (#[trigger] now[k]).count by {
                if k < i {
                    assert(now[k] == start[k]);
                } else if k > i {
                    assert(now[k] == start[k - 1]);
                }
            }
            assert forall|key: CensusKey| #[trigger]
                count_of(now, key) == count_of(start, key) + (if key == wanted {
                    1nat
                } else {
                    0
                }) by {
                lemma_count_added(start, made, i as int, key);
            }
        }
    }
}

proof fn lemma_count_changed(
    before: Seq<CensusEntry>,
    after: Seq<CensusEntry>,
    i: int,
    key: CensusKey,
)
    requires
        is_sorted(before),
        is_sorted(after),
        0 <= i < before.len(),
        after.len() == before.len(),
        key_of(after[i]) == key_of(before[i]),
        after[i].count == before[i].count + 1,
        forall|j: int| 0 <= j < before.len() && j != i ==> #[trigger] after[j] == before[j],
    ensures
        count_of(after, key) == count_of(before, key) + (if key == key_of(before[i]) {
            1nat
        } else {
            0
        }),
{
    if key == key_of(before[i]) {
        lemma_count_at(before, i);
        lemma_count_at(after, i);
    } else {
        lemma_same_counts(before, after, key);
    }
}

proof fn lemma_same_counts(before: Seq<CensusEntry>, after: Seq<CensusEntry>, key: CensusKey)
    requires
        after.len() == before.len(),
        forall|j: int|
            0 <= j < before.len() ==> key_of(#[trigger] after[j]) == key_of(before[j]) && (key_of(
                before[j],
            ) == key ==> after[j].count == before[j].count),
    ensures
        count_of(after, key) == count_of(before, key),
    decreases before.len(),
{
    if before.len() > 0 {
        let last = before.len() - 1;
        assert(after[last] == after.last());
        assert forall|j: int| 0 <= j < before.drop_last().len() implies key_of(
            #[trigger] after.drop_last()[j],
        ) == key_of(before.drop_last()[j]) && (key_of(before.drop_last()[j]) == key
            ==> after.drop_last()[j].count == before.drop_last()[j].count) by {
            assert(after.drop_last()[j] == after[j]);
        }
        lemma_same_counts(before.drop_last(), after.drop_last(), key);
    }
}

proof fn lemma_count_added(before: Seq<CensusEntry>, entry: CensusEntry, i: int, key: CensusKey)
    requires
        0 <= i <= before.len(),
        entry.count == 1,
        is_sorted(before),
        is_sorted(before.insert(i, entry)),
    ensures
        count_of(before.insert(i, entry), key) == count_of(before, key) + (if key == key_of(entry) {
            1nat
        } else {
            0
        }),
{
    let after = before.insert(i, entry);
    if key == key_of(entry) {
        lemma_count_at(after, i);
        assert forall|j: int| 0 <= j < before.len() implies key_of(#[trigger] before[j]) != key by {
            if j < i {
                assert(key_before(key_of(after[j]), key_of(after[i])));
                law_key_order_is_total(key_of(after[j]), key_of(after[i]));
            } else {
                assert(key_before(key_of(after[i]), key_of(after[j + 1])));
                law_key_order_is_total(key_of(after[i]), key_of(after[j + 1]));
            }
        }
        lemma_count_without(before, key);
    } else {
        lemma_count_skips(before, entry, i, key);
    }
}

proof fn lemma_count_skips(before: Seq<CensusEntry>, entry: CensusEntry, i: int, key: CensusKey)
    requires
        0 <= i <= before.len(),
        key_of(entry) != key,
    ensures
        count_of(before.insert(i, entry), key) == count_of(before, key),
    decreases before.len(),
{
    let after = before.insert(i, entry);
    if i == before.len() {
        assert(after.drop_last() =~= before);
    } else {
        assert(after.last() == before.last());
        assert(after.drop_last() =~= before.drop_last().insert(i, entry));
        lemma_count_skips(before.drop_last(), entry, i, key);
    }
}

proof fn lemma_met_bounded(
    stage: StageObjects,
    selectors: Seq<PlacementSelector>,
    key: CensusKey,
    n: nat,
)
    ensures
        met_in(stage, selectors, key, n) <= n,
    decreases n,
{
    if n > 0 {
        lemma_met_bounded(stage, selectors, key, (n - 1) as nat);
    }
}

proof fn lemma_all_met_bounded(
    stages: Seq<StageObjects>,
    selectors: Seq<PlacementSelector>,
    key: CensusKey,
    n: nat,
)
    ensures
        met(stages, selectors, key, n) <= object_total(stages, n),
    decreases n,
{
    if n > 0 {
        lemma_all_met_bounded(stages, selectors, key, (n - 1) as nat);
        lemma_met_bounded(stages[n - 1], selectors, key, stages[n - 1].objects@.len());
    }
}

proof fn lemma_total_grows(stages: Seq<StageObjects>, n: nat, m: nat)
    requires
        n <= m,
    ensures
        object_total(stages, n) <= object_total(stages, m),
    decreases m,
{
    if n < m {
        lemma_total_grows(stages, n, (m - 1) as nat);
    }
}

/// Counts the placements of the selected factories and resources in every stage, sorted by
/// stage, factory and resource.
pub fn retail_placement_census(stages: &[StageObjects], selectors: &[PlacementSelector]) -> (r: Vec<
    CensusEntry,
>)
    requires
        object_total(stages@, stages@.len()) < usize::MAX,
    ensures
        is_sorted(r@),
        forall|i: int| 0 <= i < r@.len() ==> 0 < (#[trigger] r@[i]).count,
        forall|key: CensusKey|
            #[trigger] count_of(r@, key) == met(stages@, selectors@, key, stages@.len()),
{
    let mut r: Vec<CensusEntry> = Vec::new();
    let mut s: usize = 0;
    while s < stages.len()
        invariant
            s <= stages.len(),
            object_total(stages@, stages@.len()) < usize::MAX,
            is_sorted(r@),
            forall|i: int| 0 <= i < r@.len() ==> 0 < (#[trigger] r@[i]).count,
            forall|key: CensusKey|
                #[trigger] count_of(r@, key) == met(stages@, selectors@, key, s as nat),
        decreases stages.len() - s,
    {
        let stage = &stages[s];
        proof {
            lemma_total_grows(stages@, (s + 1) as nat, stages@.len());
        }
        let mut o: usize = 0;
        while o < stage.objects.len()
            invariant
                s < stages.len(),
                o <= stage.objects.len(),
                *stage == stages@[s as int],
                object_total(stages@, (s + 1) as nat) < usize::MAX,
                is_sorted(r@),
                forall|i: int| 0 <= i < r@.len() ==> 0 < (#[trigger] r@[i]).count,
                forall|key: CensusKey|
                    #[trigger] count_of(r@, key) == met(stages@, selectors@, key, s as nat)
                        + met_in(*stage, selectors@, key, o as nat),
            decreases stage.objects.len() - o,
        {
            let object = &stage.objects[o];
            proof {
                assert forall|i: int| 0 <= i < r@.len() implies (#[trigger] r@[i]).count
                    < usize::MAX by {
                    let key = key_of(r@[i]);
                    lemma_count_at(r@, i);
                    lemma_all_met_bounded(stages@, selectors@, key, s as nat);
                    lemma_met_bounded(*stage, selectors@, key, o as nat);
                }
            }
            if let Some(resource) = object.raw_param("actor_tail_string") {
                if selects(selectors, object.factory_name.as_str(), resource) {
                    count_one(
                        &mut r,
                        stage.stage_id.as_str(),
                        object.factory_name.as_str(),
                        resource,
                    );
                }
            }
            o += 1;
        }
        s += 1;
    }
    r
}

/// The counts of a census fix its entries: a key stands in it exactly if it was met.
pub proof fn law_census_lists_what_was_met(
    entries: Seq<CensusEntry>,
    stages: Seq<StageObjects>,
    selectors: Seq<PlacementSelector>,
    key: CensusKey,
)
    requires
        is_sorted(entries),
        forall|i: int| 0 <= i < entries.len() ==> 0 < (#[trigger] entries[i]).count,
        forall|key: CensusKey|
            #[trigger] count_of(entries, key) == met(stages, selectors, key, stages.len()),
    ensures
        (exists|i: int| 0 <= i < entries.len() && key_of(#[trigger] entries[i]) == key) <==> met(
            stages,
            selectors,
            key,
            stages.len(),
        ) > 0,
{
    if exists|i: int| 0 <= i < entries.len() && key_of(#[trigger] entries[i]) == key {
        let i = choose|i: int| 0 <= i < entries.len() && key_of(#[trigger] entries[i]) == key;
        lemma_count_at(entries, i);
    }
    if met(stages, selectors, key, stages.len()) > 0 {
        assert(count_of(entries, key) > 0);
        lemma_count_positive(entries, key);
    }
}

} // verus!
