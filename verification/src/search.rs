//! First matches in sequences.
use vstd::prelude::*;

verus! {

/// Position of the first element with the property.
pub open spec fn first_position<T>(s: Seq<T>, p: spec_fn(T) -> bool) -> Option<int>
    decreases s.len(),
{
    if s.len() == 0 {
        None
    } else {
        match first_position(s.drop_last(), p) {
            Some(i) => Some(i),
            None => if p(s.last()) {
                Some(s.len() - 1)
            } else {
                None
            },
        }
    }
}

/// `first_position` finds an element with the property exactly when there is one, and none with
/// the property stands before it.
pub proof fn lemma_first_position<T>(s: Seq<T>, p: spec_fn(T) -> bool)
    ensures
        match first_position(s, p) {
            Some(i) => 0 <= i < s.len() && p(s[i]) && forall|j: int|
                0 <= j < i ==> !p(#[trigger] s[j]),
            None => forall|j: int| 0 <= j < s.len() ==> !p(#[trigger] s[j]),
        },
    decreases s.len(),
{
    if s.len() > 0 {
        let t = s.drop_last();
        lemma_first_position(t, p);
        assert(forall|j: int| 0 <= j < t.len() ==> #[trigger] s[j] == t[j]);
    }
}

/// The first element with the property stands at `i`.
pub proof fn lemma_found<T>(s: Seq<T>, p: spec_fn(T) -> bool, i: int)
    requires
        0 <= i < s.len(),
        p(s[i]),
        forall|j: int| 0 <= j < i ==> !p(#[trigger] s[j]),
    ensures
        first_position(s, p) == Some(i),
{
    lemma_first_position(s, p);
}

/// No element has the property.
pub proof fn lemma_not_found<T>(s: Seq<T>, p: spec_fn(T) -> bool)
    requires
        forall|j: int| 0 <= j < s.len() ==> !p(#[trigger] s[j]),
    ensures
        first_position(s, p) is None,
{
    lemma_first_position(s, p);
}

/// The first fault that `check` reports among the first `n` items.
pub open spec fn first_fault<E>(n: nat, check: spec_fn(int) -> Option<E>) -> Option<E>
    decreases n,
{
    if n == 0 {
        None
    } else {
        match first_fault((n - 1) as nat, check) {
            Some(e) => Some(e),
            None => check(n - 1),
        }
    }
}

/// A fault found early stays the first.
pub proof fn lemma_fault_stays<E>(k: nat, n: nat, check: spec_fn(int) -> Option<E>)
    requires
        k <= n,
        first_fault(k, check) is Some,
    ensures
        first_fault(n, check) == first_fault(k, check),
    decreases n - k,
{
    if k < n {
        lemma_fault_stays(k + 1, n, check);
    }
}

/// No fault among the first `n` items means that `check` reports none for any of them.
pub proof fn lemma_no_fault<E>(n: nat, check: spec_fn(int) -> Option<E>, i: int)
    requires
        first_fault(n, check) is None,
        0 <= i < n,
    ensures
        check(i) is None,
    decreases n,
{
    if i < n - 1 {
        lemma_no_fault((n - 1) as nat, check, i);
    }
}

/// A fault that was found is the fault of some item.
pub proof fn lemma_fault_has_an_item<E>(n: nat, check: spec_fn(int) -> Option<E>)
    ensures
        first_fault(n, check) is Some ==> exists|i: int|
            0 <= i < n && #[trigger] check(i) == first_fault(n, check),
    decreases n,
{
    if n > 0 {
        lemma_fault_has_an_item((n - 1) as nat, check);
        if first_fault((n - 1) as nat, check) is Some {
            let i = choose|i: int|
                0 <= i < n - 1 && #[trigger] check(i) == first_fault((n - 1) as nat, check);
            assert(check(i) == first_fault(n, check));
        } else {
            assert(first_fault(n, check) == check(n - 1));
        }
    }
}

/// The first index below `n` with the property.
pub open spec fn first_index(n: nat, p: spec_fn(int) -> bool) -> Option<int>
    decreases n,
{
    if n == 0 {
        None
    } else {
        match first_index((n - 1) as nat, p) {
            Some(i) => Some(i),
            None => if p(n - 1) {
                Some(n - 1)
            } else {
                None
            },
        }
    }
}

/// An index found early stays the first.
pub proof fn lemma_index_stays(k: nat, n: nat, p: spec_fn(int) -> bool)
    requires
        k <= n,
        first_index(k, p) is Some,
    ensures
        first_index(n, p) == first_index(k, p),
    decreases n - k,
{
    if k < n {
        lemma_index_stays(k + 1, n, p);
    }
}

/// The index that was found has the property and lies below `n`, and none before it has.
pub proof fn lemma_first_index(n: nat, p: spec_fn(int) -> bool)
    ensures
        match first_index(n, p) {
            Some(i) => 0 <= i < n && p(i) && forall|j: int| 0 <= j < i ==> !#[trigger] p(j),
            None => forall|i: int| 0 <= i < n ==> !#[trigger] p(i),
        },
    decreases n,
{
    if n > 0 {
        lemma_first_index((n - 1) as nat, p);
    }
}

/// The last index below `n` with the property.
pub open spec fn last_index(n: nat, p: spec_fn(int) -> bool) -> Option<int>
    decreases n,
{
    if n == 0 {
        None
    } else if p(n - 1) {
        Some(n - 1)
    } else {
        last_index((n - 1) as nat, p)
    }
}

/// The last index is one with the property that no later one has.
pub proof fn law_last_index_is_last(n: nat, p: spec_fn(int) -> bool)
    ensures
        match last_index(n, p) {
            Some(i) => 0 <= i < n && p(i) && forall|j: int| i < j < n ==> !#[trigger] p(j),
            None => forall|i: int| 0 <= i < n ==> !#[trigger] p(i),
        },
    decreases n,
{
    if n > 0 && !p(n - 1) {
        law_last_index_is_last((n - 1) as nat, p);
    }
}

/// The first fault is that of an item, and no item before it has one.
pub proof fn law_first_fault_is_first<E>(n: nat, check: spec_fn(int) -> Option<E>)
    ensures
        match first_fault(n, check) {
            Some(e) => exists|i: int|
                0 <= i < n && #[trigger] check(i) == Some(e) && forall|j: int|
                    0 <= j < i ==> (#[trigger] check(j)) is None,
            None => forall|i: int| 0 <= i < n ==> (#[trigger] check(i)) is None,
        },
    decreases n,
{
    if n > 0 {
        law_first_fault_is_first((n - 1) as nat, check);
        if first_fault((n - 1) as nat, check) is None && check(n - 1) is Some {
            assert(check(n - 1) == first_fault(n, check));
        }
    }
}

} // verus!
