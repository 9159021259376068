//! Paths below a root as lists of names, in the order of their names, and sorted lists of them.
use vstd::prelude::*;

use crate::order;
use crate::text;

verus! {

/// The first path comes before the second, name by name.
pub open spec fn path_before(a: Seq<Seq<char>>, b: Seq<Seq<char>>) -> bool
    decreases a.len(),
{
    if b.len() == 0 {
        false
    } else if a.len() == 0 {
        true
    } else if a[0] == b[0] {
        path_before(a.drop_first(), b.drop_first())
    } else {
        order::before(a[0], b[0])
    }
}

/// The names of each path of a list.
pub open spec fn path_views(list: Seq<Vec<String>>) -> Seq<Seq<Seq<char>>> {
    Seq::new(list.len(), |i: int| text::views(list[i]@))
}

/// The paths stand in order and none stands twice.
pub open spec fn paths_sorted(list: Seq<Seq<Seq<char>>>) -> bool {
    forall|i: int, j: int|
        0 <= i < j < list.len() ==> #[trigger] path_before(list[i], list[j])
}

/// Of two paths one comes first, unless they are the same.
pub proof fn law_path_order_is_total(a: Seq<Seq<char>>, b: Seq<Seq<char>>)
    ensures
        a == b <==> !path_before(a, b) && !path_before(b, a),
        !(path_before(a, b) && path_before(b, a)),
    decreases a.len(),
{
    if a.len() == 0 || b.len() == 0 {
        if a.len() == 0 && b.len() == 0 {
            assert(a =~= b);
        }
    } else if a[0] == b[0] {
        law_path_order_is_total(a.drop_first(), b.drop_first());
        if a.drop_first() == b.drop_first() {
            assert(a =~= seq![a[0]] + a.drop_first());
            assert(b =~= seq![b[0]] + b.drop_first());
        }
    } else {
        order::law_order_is_total(a[0], b[0]);
    }
}

/// What comes before an earlier path comes before a later one.
pub proof fn law_path_order_is_transitive(a: Seq<Seq<char>>, b: Seq<Seq<char>>, c: Seq<Seq<char>>)
    requires
        path_before(a, b),
        path_before(b, c),
    ensures
        path_before(a, c),
    decreases a.len(),
{
    if a.len() > 0 {
        if a[0] == b[0] && b[0] == c[0] {
            law_path_order_is_transitive(a.drop_first(), b.drop_first(), c.drop_first());
        } else if a[0] != b[0] && b[0] != c[0] {
            order::law_order_is_transitive(a[0], b[0], c[0]);
            order::law_order_is_total(a[0], c[0]);
        }
    }
}

fn path_comes_before_from(a: &[String], b: &[String], i: usize) -> (r: bool)
    requires
        i <= a@.len(),
        i <= b@.len(),
    ensures
        r == path_before(text::views(a@).skip(i as int), text::views(b@).skip(i as int)),
    decreases a@.len() - i,
{
    let ghost p = text::views(a@);
    let ghost q = text::views(b@);
    if i == b.len() {
        false
    } else if i == a.len() {
        true
    } else if text::same(a[i].as_str(), b[i].as_str()) {
        proof {
            assert(p.skip(i as int).drop_first() =~= p.skip(i + 1));
            assert(q.skip(i as int).drop_first() =~= q.skip(i + 1));
        }
        path_comes_before_from(a, b, i + 1)
    } else {
        order::comes_before(a[i].as_str(), b[i].as_str())
    }
}

/// Whether the first path comes before the second.
pub fn path_comes_before(a: &[String], b: &[String]) -> (r: bool)
    ensures
        r == path_before(text::views(a@), text::views(b@)),
{
    proof {
        assert(text::views(a@).skip(0) =~= text::views(a@));
        assert(text::views(b@).skip(0) =~= text::views(b@));
    }
    path_comes_before_from(a, b, 0)
}

/// Whether two paths have the same names.
pub fn same_names(a: &[String], b: &[String]) -> (r: bool)
    ensures
        r == (text::views(a@) == text::views(b@)),
{
    proof {
        law_path_order_is_total(text::views(a@), text::views(b@));
    }
    !path_comes_before(a, b) && !path_comes_before(b, a)
}

/// A copy of a path.
pub fn copy_path(path: &[String]) -> (r: Vec<String>)
    ensures
        text::views(r@) == text::views(path@),
{
    let mut r: Vec<String> = Vec::new();
    let mut i: usize = 0;
    while i < path.len()
        invariant
            i <= path.len(),
            r@.len() == i,
            forall|j: int| 0 <= j < i ==> (#[trigger] r@[j])@ == path@[j]@,
        decreases path.len() - i,
    {
        r.push(path[i].clone());
        i += 1;
    }
    proof {
        assert(text::views(r@) =~= text::views(path@));
    }
    r
}

/// Whether a list holds a path.
pub fn holds_path(list: &[Vec<String>], path: &[String]) -> (r: bool)
    ensures
        r == path_views(list@).contains(text::views(path@)),
{
    let ghost views = path_views(list@);
    let mut i: usize = 0;
    while i < list.len()
        invariant
            i <= list.len(),
            views == path_views(list@),
            forall|j: int| 0 <= j < i ==> #[trigger] views[j] != text::views(path@),
        decreases list.len() - i,
    {
        if same_names(list[i].as_slice(), path) {
            assert(views[i as int] == text::views(path@));
            return true;
        }
        i += 1;
    }
    false
}

/// Puts a path at its place in a sorted list. Whether the list did not hold it before.
pub fn insert_path(list: &mut Vec<Vec<String>>, item: &[String]) -> (r: bool)
    requires
        paths_sorted(path_views(old(list)@)),
    ensures
        r == !path_views(old(list)@).contains(text::views(item@)),
        paths_sorted(path_views(final(list)@)),
        forall|t: Seq<Seq<char>>|
            path_views(final(list)@).contains(t) <==> path_views(old(list)@).contains(t) || t
                == text::views(item@),
{
    let ghost start = path_views(list@);
    let ghost wanted = text::views(item@);
    let mut i: usize = 0;
    while i < list.len() && path_comes_before(list[i].as_slice(), item)
        invariant
            i <= list.len(),
            list@ == old(list)@,
            start == path_views(list@),
            wanted == text::views(item@),
            paths_sorted(start),
            forall|j: int| 0 <= j < i ==> path_before(#[trigger] start[j], wanted),
        decreases list.len() - i,
    {
        i += 1;
    }
    if i < list.len() && same_names(list[i].as_slice(), item) {
        proof {
            assert(start[i as int] == wanted);
        }
        return false;
    }
    list.insert(i, copy_path(item));
    let ghost after = path_views(list@);
    proof {
        assert(after =~= start.insert(i as int, wanted));
        assert forall|j: int| i <= j < start.len() implies path_before(
            wanted,
            #[trigger] start[j],
        ) by {
            law_path_order_is_total(start[i as int], wanted);
            if j > i {
                assert(path_before(start[i as int], start[j]));
                law_path_order_is_transitive(wanted, start[i as int], start[j]);
            }
        }
        assert forall|a: int, b: int| 0 <= a < b < after.len() implies #[trigger] path_before(
            after[a],
            after[b],
        ) by {
            if a < i && b < i {
                assert(path_before(start[a], start[b]));
            } else if a < i && b == i {
                assert(path_before(start[a], wanted));
            } else if a < i {
                assert(path_before(start[a], start[b - 1]));
            } else if a == i {
                assert(path_before(wanted, start[b - 1]));
            } else {
                assert(path_before(start[a - 1], start[b - 1]));
            }
        }
        assert forall|t: Seq<Seq<char>>| after.contains(t) <==> start.contains(t) || t == wanted by {
            if after.contains(t) {
                let k = choose|k: int| 0 <= k < after.len() && after[k] == t;
                if k < i {
                    assert(start[k] == t);
                } else if k > i {
                    assert(start[k - 1] == t);
                }
            }
            if start.contains(t) {
                let k = choose|k: int| 0 <= k < start.len() && start[k] == t;
                if k < i {
                    assert(after[k] == t);
                } else {
                    assert(after[k + 1] == t);
                }
            }
            if t == wanted {
                assert(after[i as int] == t);
            }
        }
        if start.contains(wanted) {
            let k = choose|k: int| 0 <= k < start.len() && start[k] == wanted;
            law_path_order_is_total(wanted, wanted);
            if k < i {
                assert(path_before(start[k], wanted));
            } else {
                assert(path_before(wanted, start[k]));
            }
        }
    }
    true
}

} // verus!
