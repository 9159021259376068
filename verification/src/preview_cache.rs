//! Which compiled previews the placed instances need.
use vstd::prelude::*;

use crate::editor::{EditorEffect, SmsEditorApp};
use crate::ids;
use crate::jdrama::VectorBits;
use crate::model_instances;
use crate::model_instances::{
    AuthoredModelPreviewKey, EditorModelInstance, LoaderFlagsError, StageLoaderFlags,
};
use crate::registry::ObjectRegistry;
use crate::text;

verus! {

/// The numbers grow.
pub open spec fn ascending(list: Seq<u32>) -> bool {
    forall|i: int, j: int| 0 <= i < j < list.len() ==> #[trigger] list[i] < #[trigger] list[j]
}

/// Some of the first `n` instances of an asset is read with these loader flags.
pub open spec fn needs_flags(
    list: Seq<EditorModelInstance>,
    id: u128,
    registry: Option<ObjectRegistry>,
    flags: StageLoaderFlags,
    n: int,
    wanted: u32,
) -> bool {
    exists|i: int|
        0 <= i < n && (#[trigger] list[i]).placement.asset_id == id
            && model_instances::loader_flags_of(list[i].placement, registry, flags)
            == Ok::<u32, LoaderFlagsError>(wanted)
}

/// The list holds the loader flags of the asset's instances, in order and each once.
pub open spec fn is_flag_list(
    found: Seq<u32>,
    list: Seq<EditorModelInstance>,
    id: u128,
    registry: Option<ObjectRegistry>,
    flags: StageLoaderFlags,
) -> bool {
    &&& ascending(found)
    &&& forall|wanted: u32|
        found.contains(wanted) <==> #[trigger] needs_flags(
            list,
            id,
            registry,
            flags,
            list.len() as int,
            wanted,
        )
}

fn insert_number(list: &mut Vec<u32>, item: u32)
    requires
        ascending(old(list)@),
    ensures
        ascending(final(list)@),
        forall|n: u32| final(list)@.contains(n) <==> old(list)@.contains(n) || n == item,
{
    let ghost start = list@;
    let mut i: usize = 0;
    while i < list.len() && list[i] < item
        invariant
            i <= list.len(),
            list@ == start,
            ascending(start),
            forall|j: int| 0 <= j < i ==> #[trigger] start[j] < item,
        decreases list.len() - i,
    {
        i += 1;
    }
    if i < list.len() && list[i] == item {
        proof {
            assert(start[i as int] == item);
        }
        return;
    }
    list.insert(i, item);
    proof {
        let after = list@;
        assert forall|a: int, b: int| 0 <= a < b < after.len() implies #[trigger] after[a]
            < #[trigger] after[b] by {
            let x = if a < i { a } else { a - 1 };
            let y = if b < i { b } else { b - 1 };
            if a != i && b != i {
                assert(start[x] < start[y]);
            } else if a == i {
                assert(after[b] == start[b - 1]);
                if b - 1 > i {
                    assert(start[i as int] < start[b - 1]);
                }
            } else {
                assert(after[a] == start[a]);
            }
        }
        assert forall|n: u32| after.contains(n) <==> start.contains(n) || n == item by {
            if after.contains(n) {
                let k = choose|k: int| 0 <= k < after.len() && after[k] == n;
                if k < i {
                    assert(start[k] == n);
                } else if k > i {
                    assert(start[k - 1] == n);
                }
            }
            if start.contains(n) {
                let k = choose|k: int| 0 <= k < start.len() && start[k] == n;
                if k < i {
                    assert(after[k] == n);
                } else {
                    assert(after[k + 1] == n);
                }
            }
            if n == item {
                assert(after[i as int] == n);
            }
        }
    }
}

/// The loader flags that an asset's instances are read with, in order and each once.
pub fn loader_flags_for_asset(
    list: &[EditorModelInstance],
    id: u128,
    registry: Option<&ObjectRegistry>,
    flags: StageLoaderFlags,
) -> (r: Vec<u32>)
    ensures
        is_flag_list(r@, list@, id, model_instances::registry_value(registry), flags),
{
    let ghost known = model_instances::registry_value(registry);
    let mut r: Vec<u32> = Vec::new();
    let mut i: usize = 0;
    while i < list.len()
        invariant
            i <= list.len(),
            known == model_instances::registry_value(registry),
            ascending(r@),
            forall|wanted: u32|
                r@.contains(wanted) <==> #[trigger] needs_flags(
                    list@,
                    id,
                    known,
                    flags,
                    i as int,
                    wanted,
                ),
        decreases list.len() - i,
    {
        let ghost before = r@;
        let found = model_instances::model_instance_loader_flags(
            &list[i].placement,
            registry,
            flags,
        );
        if list[i].placement.asset_id == id {
            if let Ok(value) = found {
                insert_number(&mut r, value);
            }
        }
        proof {
            assert forall|wanted: u32|
                r@.contains(wanted) <==> #[trigger] needs_flags(
                    list@,
                    id,
                    known,
                    flags,
                    i + 1,
                    wanted,
                ) by {
                assert(before.contains(wanted) == needs_flags(
                    list@,
                    id,
                    known,
                    flags,
                    i as int,
                    wanted,
                ));
                lemma_one_more_instance(list@, id, known, flags, i as int, wanted);
            }
        }
        i += 1;
    }
    r
}

proof fn lemma_one_more_instance(
    list: Seq<EditorModelInstance>,
    id: u128,
    registry: Option<ObjectRegistry>,
    flags: StageLoaderFlags,
    n: int,
    wanted: u32,
)
    requires
        0 <= n < list.len(),
    ensures
        needs_flags(list, id, registry, flags, n + 1, wanted) == (needs_flags(
            list,
            id,
            registry,
            flags,
            n,
            wanted,
        ) || (list[n].placement.asset_id == id && model_instances::loader_flags_of(
            list[n].placement,
            registry,
            flags,
        ) == Ok::<u32, LoaderFlagsError>(wanted))),
{
    if needs_flags(list, id, registry, flags, n, wanted) {
        let i = choose|i: int|
            0 <= i < n && (#[trigger] list[i]).placement.asset_id == id
                && model_instances::loader_flags_of(list[i].placement, registry, flags)
                == Ok::<u32, LoaderFlagsError>(wanted);
        assert(0 <= i < n + 1 && list[i].placement.asset_id == id);
    }
}

/// The preview is of another asset.
pub open spec fn of_other_asset(id: u128) -> spec_fn(AuthoredModelPreviewKey) -> bool {
    |key: AuthoredModelPreviewKey| key.asset_id != id
}

/// The cached previews of the other assets.
pub fn drop_asset(cache: &[AuthoredModelPreviewKey], id: u128) -> (r: Vec<AuthoredModelPreviewKey>)
    ensures
        r@ == cache@.filter(of_other_asset(id)),
{
    let ghost keep = of_other_asset(id);
    let mut r: Vec<AuthoredModelPreviewKey> = Vec::new();
    let mut i: usize = 0;
    proof {
        assert(cache@.take(0).filter(keep) =~= Seq::empty()) by {
            reveal(Seq::filter);
        }
    }
    while i < cache.len()
        invariant
            i <= cache.len(),
            keep == of_other_asset(id),
            r@ == cache@.take(i as int).filter(keep),
        decreases cache.len() - i,
    {
        proof {
            assert(cache@.take(i + 1).drop_last() =~= cache@.take(i as int));
            assert(cache@.take(i + 1).filter(keep) == (if keep(cache@[i as int]) {
                cache@.take(i as int).filter(keep).push(cache@[i as int])
            } else {
                cache@.take(i as int).filter(keep)
            })) by {
                reveal(Seq::filter);
            }
        }
        if cache[i].asset_id != id {
            r.push(cache[i]);
        }
        i += 1;
    }
    proof {
        assert(cache@.take(i as int) =~= cache@);
    }
    r
}

/// The first key comes before the second: by asset, then by loader flags.
pub open spec fn key_before(a: AuthoredModelPreviewKey, b: AuthoredModelPreviewKey) -> bool {
    a.asset_id < b.asset_id || (a.asset_id == b.asset_id && a.loader_flags < b.loader_flags)
}

/// The keys stand in order and none stands twice.
pub open spec fn keys_sorted(list: Seq<AuthoredModelPreviewKey>) -> bool {
    forall|i: int, j: int| 0 <= i < j < list.len() ==> #[trigger] key_before(list[i], list[j])
}

fn insert_key(list: &mut Vec<AuthoredModelPreviewKey>, item: AuthoredModelPreviewKey)
    requires
        keys_sorted(old(list)@),
    ensures
        keys_sorted(final(list)@),
        forall|k: AuthoredModelPreviewKey|
            final(list)@.contains(k) <==> old(list)@.contains(k) || k == item,
{
    let ghost start = list@;
    let mut i: usize = 0;
    while i < list.len() && (list[i].asset_id < item.asset_id || (list[i].asset_id == item.asset_id
        && list[i].loader_flags < item.loader_flags))
        invariant
            i <= list.len(),
            list@ == start,
            keys_sorted(start),
            forall|j: int| 0 <= j < i ==> key_before(#[trigger] start[j], item),
        decreases list.len() - i,
    {
        i += 1;
    }
    if i < list.len() && list[i] == item {
        proof {
            assert(start[i as int] == item);
        }
        return;
    }
    list.insert(i, item);
    proof {
        let after = list@;
        assert forall|a: int, b: int| 0 <= a < b < after.len() implies #[trigger] key_before(
            after[a],
            after[b],
        ) by {
            if a < i && b < i {
                assert(key_before(start[a], start[b]));
            } else if a < i && b > i {
                assert(key_before(start[a], start[b - 1]));
            } else if a > i {
                assert(key_before(start[a - 1], start[b - 1]));
            } else if a == i {
                assert(key_before(item, start[i as int]));
                if b - 1 > i {
                    assert(key_before(start[i as int], start[b - 1]));
                }
            }
        }
        assert forall|k: AuthoredModelPreviewKey|
            after.contains(k) <==> start.contains(k) || k == item by {
            if after.contains(k) {
                let j = choose|j: int| 0 <= j < after.len() && after[j] == k;
                if j < i {
                    assert(start[j] == k);
                } else if j > i {
                    assert(start[j - 1] == k);
                }
            }
            if start.contains(k) {
                let j = choose|j: int| 0 <= j < start.len() && start[j] == k;
                if j < i {
                    assert(after[j] == k);
                } else {
                    assert(after[j + 1] == k);
                }
            }
            if k == item {
                assert(after[i as int] == k);
            }
        }
    }
}

/// The preview that an instance uses.
pub open spec fn key_of(
    instance: EditorModelInstance,
    registry: Option<ObjectRegistry>,
    flags: StageLoaderFlags,
) -> Result<AuthoredModelPreviewKey, LoaderFlagsError> {
    match model_instances::loader_flags_of(instance.placement, registry, flags) {
        Ok(loader_flags) => Ok(
            AuthoredModelPreviewKey { asset_id: instance.placement.asset_id, loader_flags },
        ),
        Err(error) => Err(error),
    }
}

/// Some of the first `n` instances uses this preview.
pub open spec fn uses_key(app: SmsEditorApp, n: int, key: AuthoredModelPreviewKey) -> bool {
    exists|i: int|
        0 <= i < n && key_of(
            #[trigger] app.instances.list@[i],
            app.project.registry,
            app.project.flags,
        ) == Ok::<AuthoredModelPreviewKey, LoaderFlagsError>(key)
}

/// The lines about those of the first `n` instances that no loader can be found for.
pub open spec fn unresolved_lines(app: SmsEditorApp, n: nat) -> Seq<Seq<char>>
    decreases n,
{
    if n == 0 {
        Seq::empty()
    } else {
        let rest = unresolved_lines(app, (n - 1) as nat);
        match key_of(app.instances.list@[n - 1], app.project.registry, app.project.flags) {
            Ok(_) => rest,
            Err(error) => rest.push(
                "Could not resolve model preview: "@ + error.text(
                    app.instances.list@[n - 1].placement,
                ),
            ),
        }
    }
}

/// The preview is wanted.
pub open spec fn is_wanted(wanted: Seq<AuthoredModelPreviewKey>) -> spec_fn(
    AuthoredModelPreviewKey,
) -> bool {
    |key: AuthoredModelPreviewKey| wanted.contains(key)
}

/// Whether a list holds a key.
pub fn holds_key(list: &[AuthoredModelPreviewKey], key: AuthoredModelPreviewKey) -> (r: bool)
    ensures
        r == list@.contains(key),
{
    let mut i: usize = 0;
    while i < list.len()
        invariant
            i <= list.len(),
            forall|j: int| 0 <= j < i ==> #[trigger] list@[j] != key,
        decreases list.len() - i,
    {
        if list[i] == key {
            assert(list@[i as int] == key);
            return true;
        }
        i += 1;
    }
    false
}

fn keep_wanted(cache: &[AuthoredModelPreviewKey], wanted: &[AuthoredModelPreviewKey]) -> (r: Vec<
    AuthoredModelPreviewKey,
>)
    ensures
        r@ == cache@.filter(is_wanted(wanted@)),
{
    let ghost keep = is_wanted(wanted@);
    let mut r: Vec<AuthoredModelPreviewKey> = Vec::new();
    let mut i: usize = 0;
    proof {
        assert(cache@.take(0).filter(keep) =~= Seq::empty()) by {
            reveal(Seq::filter);
        }
    }
    while i < cache.len()
        invariant
            i <= cache.len(),
            keep == is_wanted(wanted@),
            r@ == cache@.take(i as int).filter(keep),
        decreases cache.len() - i,
    {
        proof {
            assert(cache@.take(i + 1).drop_last() =~= cache@.take(i as int));
            assert(cache@.take(i + 1).filter(keep) == (if keep(cache@[i as int]) {
                cache@.take(i as int).filter(keep).push(cache@[i as int])
            } else {
                cache@.take(i as int).filter(keep)
            })) by {
                reveal(Seq::filter);
            }
        }
        if holds_key(wanted, cache[i]) {
            r.push(cache[i]);
        }
        i += 1;
    }
    proof {
        assert(cache@.take(i as int) =~= cache@);
    }
    r
}

/// The list with one more number, unless the list holds it.
pub open spec fn with_number(list: Seq<u128>, id: u128) -> Seq<u128> {
    if list.contains(id) {
        list
    } else {
        list.push(id)
    }
}

/// The assets of the first `n` keys, each once.
pub open spec fn assets_in(keys: Seq<AuthoredModelPreviewKey>, n: nat) -> Seq<u128>
    decreases n,
{
    if n == 0 {
        Seq::empty()
    } else {
        with_number(assets_in(keys, (n - 1) as nat), keys[n - 1].asset_id)
    }
}

/// The assets that previews are built of, each once and in the order of the keys.
pub fn assets_of_keys(keys: &[AuthoredModelPreviewKey]) -> (r: Vec<u128>)
    ensures
        r@ == assets_in(keys@, keys@.len()),
{
    let mut r: Vec<u128> = Vec::new();
    let mut i: usize = 0;
    while i < keys.len()
        invariant
            i <= keys.len(),
            r@ == assets_in(keys@, i as nat),
        decreases keys.len() - i,
    {
        let id: u128 = keys[i].asset_id;
        let mut j: usize = 0;
        let mut held: bool = false;
        while j < r.len()
            invariant
                j <= r.len(),
                held == r@.take(j as int).contains(id),
            decreases r.len() - j,
        {
            proof {
                let before = r@.take(j as int);
                let after = r@.take(j + 1);
                assert(after =~= before.push(r@[j as int]));
                if before.contains(id) {
                    let k = choose|k: int| 0 <= k < before.len() && before[k] == id;
                    assert(after[k] == id);
                }
                if r@[j as int] == id {
                    assert(after[j as int] == id);
                }
                if after.contains(id) {
                    let k = choose|k: int| 0 <= k < after.len() && after[k] == id;
                    if k < j {
                        assert(before[k] == id);
                    }
                }
            }
            if r[j] == id {
                held = true;
            }
            j += 1;
        }
        proof {
            assert(r@.take(j as int) =~= r@);
        }
        if !held {
            r.push(id);
        }
        i += 1;
    }
    r
}

/// The keys of an asset among the first `n` that the cache does not hold.
pub open spec fn missing_keys(
    keys: Seq<AuthoredModelPreviewKey>,
    cache: Seq<AuthoredModelPreviewKey>,
    id: u128,
    n: nat,
) -> Seq<AuthoredModelPreviewKey>
    decreases n,
{
    if n == 0 {
        Seq::empty()
    } else {
        let rest = missing_keys(keys, cache, id, (n - 1) as nat);
        if keys[n - 1].asset_id == id && !cache.contains(keys[n - 1]) {
            rest.push(keys[n - 1])
        } else {
            rest
        }
    }
}

/// The report of an asset that no preview can be built of.
pub open spec fn load_failure(id: u128, error: Seq<char>) -> Seq<char> {
    "Could not build preview for model asset "@ + ids::hyphenated(id) + ": "@ + error
}

/// An instance with the bounds of its asset.
pub open spec fn with_bounds(
    instance: EditorModelInstance,
    id: u128,
    bounds_min: VectorBits,
    bounds_max: VectorBits,
) -> EditorModelInstance {
    if needs_bounds(instance, id, bounds_min, bounds_max) {
        EditorModelInstance { bounds_min, bounds_max, ..instance }
    } else {
        instance
    }
}

/// The instance has other bounds than its asset.
pub open spec fn needs_bounds(
    instance: EditorModelInstance,
    id: u128,
    bounds_min: VectorBits,
    bounds_max: VectorBits,
) -> bool {
    instance.placement.asset_id == id && !(model_instances::vectors_equal(
        instance.bounds_min,
        bounds_min,
    ) && model_instances::vectors_equal(instance.bounds_max, bounds_max))
}

/// The report of a preview that could not be built.
pub open spec fn build_failure(id: u128, loader_flags: u32, error: Seq<char>) -> Seq<char> {
    "Could not build preview for model asset "@ + ids::hyphenated(id) + " with loader flags 0x"@
        + text::hex(loader_flags as nat, 8) + ": "@ + error
}

impl SmsEditorApp {
    /// Begins to rebuild the previews: those that no instance uses go, and the result lists those
    /// that the instances use, in order and each once. An instance that no loader can be found
    /// for is reported.
    pub fn rebuild_model_preview_cache(&mut self) -> (r: Vec<AuthoredModelPreviewKey>)
        ensures
            keys_sorted(r@),
            forall|key: AuthoredModelPreviewKey|
                r@.contains(key) <==> #[trigger] uses_key(
                    *old(self),
                    old(self).instances.list@.len() as int,
                    key,
                ),
            final(self).preview.cache@ == old(self).preview.cache@.filter(is_wanted(r@)),
            final(self).preview.model == old(self).preview.model,
            final(self).preview.base == old(self).preview.base,
            final(self).project == old(self).project,
            final(self).catalog == old(self).catalog,
            final(self).asset == old(self).asset,
            final(self).instances == old(self).instances,
            final(self).selected_object_id == old(self).selected_object_id,
            final(self).model_editor_error == old(self).model_editor_error,
            final(self).effects == old(self).effects,
            final(self).lines() == old(self).lines() + unresolved_lines(
                *old(self),
                old(self).instances.list@.len(),
            ),
    {
        let mut keys: Vec<AuthoredModelPreviewKey> = Vec::new();
        let mut i: usize = 0;
        proof {
            assert(self.lines() + Seq::<Seq<char>>::empty() =~= self.lines());
        }
        while i < self.instances.list.len()
            invariant
                i <= self.instances.list.len(),
                self.only_reports(*old(self)),
                self.model_editor_error == old(self).model_editor_error,
                self.effects == old(self).effects,
                keys_sorted(keys@),
                forall|key: AuthoredModelPreviewKey|
                    keys@.contains(key) <==> #[trigger] uses_key(*old(self), i as int, key),
                self.lines() == old(self).lines() + unresolved_lines(*old(self), i as nat),
            decreases self.instances.list.len() - i,
        {
            let ghost before = keys@;
            let found = model_instances::model_instance_preview_key(
                &self.instances.list[i],
                self.registry(),
                self.project.flags,
            );
            proof {
                assert(found == key_of(
                    old(self).instances.list@[i as int],
                    old(self).project.registry,
                    old(self).project.flags,
                ));
            }
            match found {
                Ok(key) => {
                    insert_key(&mut keys, key);
                },
                Err(error) => {
                    let report = error.message(&self.instances.list[i].placement);
                    let line = "Could not resolve model preview: ".to_owned().concat(
                        report.as_str(),
                    );
                    let ghost lines = self.lines();
                    self.write_log(line);
                    proof {
                        assert(self.lines() =~= old(self).lines() + unresolved_lines(
                            *old(self),
                            (i + 1) as nat,
                        ));
                    }
                },
            }
            proof {
                assert forall|key: AuthoredModelPreviewKey|
                    keys@.contains(key) <==> #[trigger] uses_key(*old(self), i + 1, key) by {
                    assert(before.contains(key) == uses_key(*old(self), i as int, key));
                    lemma_one_more_key(*old(self), i as int, key);
                }
            }
            i += 1;
        }
        self.preview.cache = keep_wanted(self.preview.cache.as_slice(), keys.as_slice());
        keys
    }

    /// Takes over a preview that was built, or reports that it could not be built.
    pub fn cache_model_preview(&mut self, id: u128, loader_flags: u32, built: Result<(), String>)
        ensures
            ({
                let key = AuthoredModelPreviewKey { asset_id: id, loader_flags };
                &&& final(self).project == old(self).project
                &&& final(self).catalog == old(self).catalog
                &&& final(self).asset == old(self).asset
                &&& final(self).instances == old(self).instances
                &&& final(self).selected_object_id == old(self).selected_object_id
                &&& final(self).model_editor_error == old(self).model_editor_error
                &&& final(self).effects == old(self).effects
                &&& final(self).preview.model == old(self).preview.model
                &&& final(self).preview.base == old(self).preview.base
                &&& match built {
                    Ok(()) => final(self).log == old(self).log && final(self).preview.cache@ == (
                    if old(self).preview.cache@.contains(key) {
                        old(self).preview.cache@
                    } else {
                        old(self).preview.cache@.push(key)
                    }),
                    Err(error) => final(self).lines() == old(self).lines().push(
                        build_failure(id, loader_flags, error@),
                    ) && final(self).preview.cache@ == old(self).preview.cache@.filter(
                        is_other_key(key),
                    ),
                }
            }),
    {
        let key = AuthoredModelPreviewKey { asset_id: id, loader_flags };
        match built {
            Ok(()) => {
                if !holds_key(self.preview.cache.as_slice(), key) {
                    self.preview.cache.push(key);
                }
            },
            Err(error) => {
                self.preview.cache = drop_key(self.preview.cache.as_slice(), key);
                let number = text::hex_text(loader_flags as u64, 8);
                let shown = ids::hyphenated_text(id);
                let line = "Could not build preview for model asset ".to_owned().concat(
                    shown.as_str(),
                ).concat(" with loader flags 0x").concat(number.as_str()).concat(": ").concat(
                    error.as_str(),
                );
                self.write_log(line);
            },
        }
    }

    /// The previews of an asset that have to be built: those that the instances use and the cache
    /// does not hold, in order.
    pub fn missing_previews(&self, keys: &[AuthoredModelPreviewKey], id: u128) -> (r: Vec<
        AuthoredModelPreviewKey,
    >)
        ensures
            r@ == missing_keys(keys@, self.preview.cache@, id, keys@.len()),
    {
        let mut r: Vec<AuthoredModelPreviewKey> = Vec::new();
        let mut i: usize = 0;
        while i < keys.len()
            invariant
                i <= keys.len(),
                r@ == missing_keys(keys@, self.preview.cache@, id, i as nat),
            decreases keys.len() - i,
        {
            if keys[i].asset_id == id && !holds_key(self.preview.cache.as_slice(), keys[i]) {
                r.push(keys[i]);
            }
            i += 1;
        }
        r
    }

    /// Reports an asset that could not be loaded for its previews, once for all of them.
    pub fn report_unloadable_asset(&mut self, id: u128, error: &str)
        ensures
            final(self).only_reports(*old(self)),
            final(self).model_editor_error == old(self).model_editor_error,
            final(self).effects == old(self).effects,
            final(self).lines() == old(self).lines().push(load_failure(id, error@)),
    {
        let shown = ids::hyphenated_text(id);
        let line = "Could not build preview for model asset ".to_owned().concat(
            shown.as_str(),
        ).concat(": ").concat(error);
        self.write_log(line);
    }

    /// Gives the instances of an asset the bounds of the asset. Whether any had other bounds.
    pub fn repair_model_bounds(&mut self, id: u128, bounds_min: VectorBits, bounds_max: VectorBits)
        -> (r: bool)
        ensures
            final(self).changes_instances(*old(self)),
            final(self).log == old(self).log,
            final(self).effects == old(self).effects,
            final(self).instances.selected == old(self).instances.selected,
            final(self).instances.dirty == old(self).instances.dirty,
            final(self).instances.undo == old(self).instances.undo,
            final(self).instances.redo == old(self).instances.redo,
            final(self).instances.surface_template == old(self).instances.surface_template,
            final(self).instances.list@ == Seq::new(
                old(self).instances.list@.len(),
                |i: int| with_bounds(old(self).instances.list@[i], id, bounds_min, bounds_max),
            ),
            r == exists|i: int|
                0 <= i < old(self).instances.list@.len() && needs_bounds(
                    #[trigger] old(self).instances.list@[i],
                    id,
                    bounds_min,
                    bounds_max,
                ),
    {
        let ghost start = self.instances.list@;
        let mut repaired = false;
        let mut i: usize = 0;
        while i < self.instances.list.len()
            invariant
                i <= self.instances.list.len(),
                start == old(self).instances.list@,
                self.instances.list@.len() == start.len(),
                self.changes_instances(*old(self)),
                self.log == old(self).log,
                self.effects == old(self).effects,
                self.instances.selected == old(self).instances.selected,
                self.instances.dirty == old(self).instances.dirty,
                self.instances.undo == old(self).instances.undo,
                self.instances.redo == old(self).instances.redo,
                self.instances.surface_template == old(self).instances.surface_template,
                forall|j: int|
                    0 <= j < i ==> #[trigger] self.instances.list@[j] == with_bounds(
                        start[j],
                        id,
                        bounds_min,
                        bounds_max,
                    ),
                forall|j: int|
                    i <= j < start.len() ==> #[trigger] self.instances.list@[j] == start[j],
                repaired == exists|j: int|
                    0 <= j < i && needs_bounds(
                        #[trigger] start[j],
                        id,
                        bounds_min,
                        bounds_max,
                    ),
            decreases self.instances.list.len() - i,
        {
            proof {
                assert(self.instances.list@[i as int] == start[i as int]);
            }
            let same = model_instances::equal_vectors(
                self.instances.list[i].bounds_min,
                bounds_min,
            ) && model_instances::equal_vectors(self.instances.list[i].bounds_max, bounds_max);
            if self.instances.list[i].placement.asset_id == id && !same {
                let mut instance = self.instances.list[i].duplicate();
                instance.bounds_min = bounds_min;
                instance.bounds_max = bounds_max;
                self.instances.list.set(i, instance);
                repaired = true;
                proof {
                    assert(needs_bounds(start[i as int], id, bounds_min, bounds_max));
                }
            }
            i += 1;
        }
        proof {
            assert(self.instances.list@ =~= Seq::new(
                start.len(),
                |i: int| with_bounds(start[i], id, bounds_min, bounds_max),
            ));
        }
        repaired
    }

    /// Completes the rebuilding of the previews: repaired bounds are saved and the viewport is
    /// rebuilt. Where the catalog could not be opened nothing follows, and nothing is repaired.
    pub fn finish_preview_rebuild(&mut self, catalog_open: bool, repaired: bool)
        ensures
            !catalog_open ==> *final(self) == *old(self),
            final(self).changes_instances(*old(self)),
            final(self).log == old(self).log,
            catalog_open ==> final(self).instances == (crate::editor::InstanceState {
                dirty: old(self).instances.dirty || repaired,
                ..old(self).instances
            }),
            catalog_open ==> final(self).effects@ == (if repaired {
                old(self).effects@.push(EditorEffect::SaveInstances)
            } else {
                old(self).effects@
            }).push(EditorEffect::RebuildViewport),
    {
        if !catalog_open {
            return;
        }
        if repaired {
            self.instances.dirty = true;
            self.effects.push(EditorEffect::SaveInstances);
        }
        self.effects.push(EditorEffect::RebuildViewport);
    }
}

/// A preview that the instances use is held, or is among those to be built of its asset, which is
/// loaded; and none that is held is built again.
pub proof fn law_every_used_preview_is_held_or_built(
    keys: Seq<AuthoredModelPreviewKey>,
    cache: Seq<AuthoredModelPreviewKey>,
    k: int,
    n: nat,
)
    requires
        0 <= k < n <= keys.len(),
    ensures
        assets_in(keys, n).contains(keys[k].asset_id),
        cache.contains(keys[k]) || missing_keys(keys, cache, keys[k].asset_id, n).contains(keys[k]),
        cache.contains(keys[k]) ==> forall|id: u128|
            !#[trigger] missing_keys(keys, cache, id, n).contains(keys[k]),
    decreases n,
{
    let id = keys[k].asset_id;
    let before = (n - 1) as nat;
    let assets = assets_in(keys, before);
    let missing = missing_keys(keys, cache, id, before);
    if k < n - 1 {
        law_every_used_preview_is_held_or_built(keys, cache, k, before);
        let i = choose|i: int| 0 <= i < assets.len() && assets[i] == id;
        assert(assets_in(keys, n)[i] == id);
        if !cache.contains(keys[k]) {
            let j = choose|j: int| 0 <= j < missing.len() && missing[j] == keys[k];
            assert(missing_keys(keys, cache, id, n)[j] == keys[k]);
        }
    } else {
        let all = assets_in(keys, n);
        if !assets.contains(id) {
            assert(all[all.len() - 1] == id);
        }
        let list = missing_keys(keys, cache, id, n);
        if !cache.contains(keys[k]) {
            assert(list[list.len() - 1] == keys[k]);
        }
    }
    if cache.contains(keys[k]) {
        assert forall|id: u128| !#[trigger] missing_keys(keys, cache, id, n).contains(keys[k]) by {
            lemma_missing_are_missing(keys, cache, id, n);
        }
    }
}

proof fn lemma_missing_are_missing(
    keys: Seq<AuthoredModelPreviewKey>,
    cache: Seq<AuthoredModelPreviewKey>,
    id: u128,
    n: nat,
)
    ensures
        forall|j: int|
            0 <= j < missing_keys(keys, cache, id, n).len() ==> !cache.contains(
                #[trigger] missing_keys(keys, cache, id, n)[j],
            ),
    decreases n,
{
    if n > 0 {
        lemma_missing_are_missing(keys, cache, id, (n - 1) as nat);
        let rest = missing_keys(keys, cache, id, (n - 1) as nat);
        let all = missing_keys(keys, cache, id, n);
        assert forall|j: int| 0 <= j < all.len() implies !cache.contains(#[trigger] all[j]) by {
            if j < rest.len() {
                assert(all[j] == rest[j]);
            }
        }
    }
}

proof fn lemma_one_more_key(app: SmsEditorApp, n: int, key: AuthoredModelPreviewKey)
    requires
        0 <= n < app.instances.list@.len(),
    ensures
        uses_key(app, n + 1, key) == (uses_key(app, n, key) || key_of(
            app.instances.list@[n],
            app.project.registry,
            app.project.flags,
        ) == Ok::<AuthoredModelPreviewKey, LoaderFlagsError>(key)),
{
    if uses_key(app, n, key) {
        let i = choose|i: int|
            0 <= i < n && key_of(
                #[trigger] app.instances.list@[i],
                app.project.registry,
                app.project.flags,
            ) == Ok::<AuthoredModelPreviewKey, LoaderFlagsError>(key);
        assert(0 <= i < n + 1 && app.instances.list@[i] == app.instances.list@[i]);
    }
}

/// Another preview.
pub open spec fn is_other_key(key: AuthoredModelPreviewKey) -> spec_fn(
    AuthoredModelPreviewKey,
) -> bool {
    |other: AuthoredModelPreviewKey| other != key
}

fn drop_key(cache: &[AuthoredModelPreviewKey], key: AuthoredModelPreviewKey) -> (r: Vec<
    AuthoredModelPreviewKey,
>)
    ensures
        r@ == cache@.filter(is_other_key(key)),
{
    let ghost keep = is_other_key(key);
    let mut r: Vec<AuthoredModelPreviewKey> = Vec::new();
    let mut i: usize = 0;
    proof {
        assert(cache@.take(0).filter(keep) =~= Seq::empty()) by {
            reveal(Seq::filter);
        }
    }
    while i < cache.len()
        invariant
            i <= cache.len(),
            keep == is_other_key(key),
            r@ == cache@.take(i as int).filter(keep),
        decreases cache.len() - i,
    {
        proof {
            assert(cache@.take(i + 1).drop_last() =~= cache@.take(i as int));
            assert(cache@.take(i + 1).filter(keep) == (if keep(cache@[i as int]) {
                cache@.take(i as int).filter(keep).push(cache@[i as int])
            } else {
                cache@.take(i as int).filter(keep)
            })) by {
                reveal(Seq::filter);
            }
        }
        if cache[i] != key {
            r.push(cache[i]);
        }
        i += 1;
    }
    proof {
        assert(cache@.take(i as int) =~= cache@);
    }
    r
}

} // verus!
