//! Texts in order, and sorted lists of texts.
use vstd::prelude::*;

use crate::text;

verus! {

/// The first text comes before the second, character by character.
pub open spec fn before(a: Seq<char>, b: Seq<char>) -> bool
    decreases a.len(),
{
    if b.len() == 0 {
        false
    } else if a.len() == 0 {
        true
    } else if a[0] == b[0] {
        before(a.drop_first(), b.drop_first())
    } else {
        (a[0] as u32) < (b[0] as u32)
    }
}

/// The texts stand in order and none stands twice.
pub open spec fn strictly_sorted(list: Seq<Seq<char>>) -> bool {
    forall|i: int, j: int|
        0 <= i < j < list.len() ==> #[trigger] before(list[i], list[j])
}

/// Of two texts one comes first, unless they are the same.
pub proof fn law_order_is_total(a: Seq<char>, b: Seq<char>)
    ensures
        a == b <==> !before(a, b) && !before(b, a),
        !(before(a, b) && before(b, a)),
    decreases a.len(),
{
    if a.len() == 0 || b.len() == 0 {
        if a.len() == 0 && b.len() == 0 {
            assert(a =~= b);
        }
    } else if a[0] == b[0] {
        law_order_is_total(a.drop_first(), b.drop_first());
        if a.drop_first() == b.drop_first() {
            assert(a =~= seq![a[0]] + a.drop_first());
            assert(b =~= seq![b[0]] + b.drop_first());
        }
    } else {
        lemma_characters_have_their_own_numbers(a[0], b[0]);
    }
}

proof fn lemma_characters_have_their_own_numbers(a: char, b: char)
    requires
        a != b,
    ensures
        a as u32 != b as u32,
{
}

/// What comes before something earlier comes before it too.
pub proof fn law_order_is_transitive(a: Seq<char>, b: Seq<char>, c: Seq<char>)
    requires
        before(a, b),
        before(b, c),
    ensures
        before(a, c),
    decreases a.len(),
{
    if a.len() > 0 && a[0] == b[0] && b[0] == c[0] {
        law_order_is_transitive(a.drop_first(), b.drop_first(), c.drop_first());
    }
}

fn comes_before_from(a: &[char], b: &[char], i: usize) -> (r: bool)
    requires
        i <= a@.len(),
        i <= b@.len(),
    ensures
        r == before(a@.skip(i as int), b@.skip(i as int)),
    decreases a@.len() - i,
{
    if i == b.len() {
        false
    } else if i == a.len() {
        true
    } else if a[i] == b[i] {
        proof {
            assert(a@.skip(i as int).drop_first() =~= a@.skip(i + 1));
            assert(b@.skip(i as int).drop_first() =~= b@.skip(i + 1));
        }
        comes_before_from(a, b, i + 1)
    } else {
        (a[i] as u32) < (b[i] as u32)
    }
}

/// Whether the first text comes before the second.
pub fn comes_before(a: &str, b: &str) -> (r: bool)
    ensures
        r == before(a@, b@),
{
    let a = text::chars_of(a);
    let b = text::chars_of(b);
    proof {
        assert(a@.skip(0) =~= a@);
        assert(b@.skip(0) =~= b@);
    }
    comes_before_from(a.as_slice(), b.as_slice(), 0)
}

/// Puts a text at its place in a sorted list, unless the list holds it already.
pub fn insert_text(list: &mut Vec<String>, item: String)
    requires
        strictly_sorted(text::views(old(list)@)),
    ensures
        strictly_sorted(text::views(final(list)@)),
        forall|t: Seq<char>|
            text::views(final(list)@).contains(t) <==> text::views(old(list)@).contains(t) || t
                == item@,
{
    let ghost start = text::views(list@);
    let mut i: usize = 0;
    while i < list.len() && comes_before(list[i].as_str(), item.as_str())
        invariant
            i <= list.len(),
            list@ == old(list)@,
            start == text::views(list@),
            strictly_sorted(start),
            forall|j: int| 0 <= j < i ==> before(#[trigger] start[j], item@),
        decreases list.len() - i,
    {
        i += 1;
    }
    if i < list.len() && text::same(list[i].as_str(), item.as_str()) {
        proof {
            assert(start[i as int] == item@);
        }
        return;
    }
    let ghost wanted = item@;
    list.insert(i, item);
    let ghost after = text::views(list@);
    proof {
        assert(after =~= start.insert(i as int, wanted));
        assert forall|j: int| i <= j < start.len() implies before(
            wanted,
            #[trigger] start[j],
        ) by {
            law_order_is_total(start[i as int], wanted);
            if j > i {
                assert(before(start[i as int], start[j]));
                law_order_is_transitive(wanted, start[i as int], start[j]);
            }
        }
        assert forall|a: int, b: int| 0 <= a < b < after.len() implies #[trigger] before(
            after[a],
            after[b],
        ) by {
            if a < i && b < i {
                assert(before(start[a], start[b]));
            } else if a < i && b == i {
                assert(before(start[a], wanted));
            } else if a < i {
                assert(before(start[a], start[b - 1]));
            } else if a == i {
                assert(before(wanted, start[b - 1]));
            } else {
                assert(before(start[a - 1], start[b - 1]));
            }
        }
        assert forall|t: Seq<char>| after.contains(t) <==> start.contains(t) || t == wanted by {
            if after.contains(t) {
                let k = choose|k: int| 0 <= k < after.len() && after[k] == t;
                if k < i {
                    assert(start[k] == t);
                } else if k > i {
                    assert(start[k - 1] == t);
                }
            }
            if start.contains(t) {
                let k = choose|k: int| 0 <= k < start.len() && start[k] == t;
                if k < i {
                    assert(after[k] == t);
                } else {
                    assert(after[k + 1] == t);
                }
            }
            if t == wanted {
                assert(after[i as int] == t);
            }
        }
    }
}

/// A sorted list is determined by what it holds.
pub proof fn law_sorted_lists_with_the_same_texts_agree(a: Seq<Seq<char>>, b: Seq<Seq<char>>)
    requires
        strictly_sorted(a),
        strictly_sorted(b),
        forall|t: Seq<char>| a.contains(t) <==> b.contains(t),
    ensures
        a == b,
    decreases a.len(),
{
    if a.len() == 0 {
        if b.len() > 0 {
            assert(b.contains(b[0]));
            assert(a.contains(b[0]));
        }
        assert(a =~= b);
    } else {
        assert(a.contains(a.last()));
        assert(b.contains(a.last()));
        assert(b.contains(b.last()));
        assert(a.contains(b.last()));
        let i = choose|i: int| 0 <= i < b.len() && b[i] == a.last();
        let j = choose|j: int| 0 <= j < a.len() && a[j] == b.last();
        law_order_is_total(a.last(), b.last());
        if i < b.len() - 1 {
            assert(before(b[i], b[b.len() - 1]));
            if j < a.len() - 1 {
                assert(before(a[j], a[a.len() - 1]));
            }
        }
        assert(a.last() == b.last());
        let c = a.drop_last();
        let d = b.drop_last();
        assert forall|i: int, j: int| 0 <= i < j < c.len() implies #[trigger] before(
            c[i],
            c[j],
        ) by {
            assert(before(a[i], a[j]));
        }
        assert forall|i: int, j: int| 0 <= i < j < d.len() implies #[trigger] before(
            d[i],
            d[j],
        ) by {
            assert(before(b[i], b[j]));
        }
        assert forall|t: Seq<char>| c.contains(t) <==> d.contains(t) by {
            lemma_without_last(a, t);
            lemma_without_last(b, t);
        }
        law_sorted_lists_with_the_same_texts_agree(c, d);
        assert(a =~= c.push(a.last()));
        assert(b =~= d.push(b.last()));
    }
}

proof fn lemma_without_last(list: Seq<Seq<char>>, t: Seq<char>)
    requires
        list.len() > 0,
        strictly_sorted(list),
    ensures
        list.drop_last().contains(t) <==> list.contains(t) && t != list.last(),
{
    let rest = list.drop_last();
    if rest.contains(t) {
        let k = choose|k: int| 0 <= k < rest.len() && rest[k] == t;
        assert(list[k] == t);
        assert(before(list[k], list[list.len() - 1]));
        law_order_is_total(list[k], list.last());
    }
    if list.contains(t) && t != list.last() {
        let k = choose|k: int| 0 <= k < list.len() && list[k] == t;
        assert(rest[k] == t);
    }
}

} // verus!
