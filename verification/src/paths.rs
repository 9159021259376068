//! Paths as lists of components, and where they lie relative to each other.
use vstd::prelude::*;

use crate::text;

verus! {

/// A component of a path.
#[derive(Debug)]
pub enum PathComponent {
    Prefix(String),
    RootDir,
    CurDir,
    ParentDir,
    Normal(String),
}

/// The abstract value of a component.
pub enum ComponentView {
    Prefix(Seq<char>),
    RootDir,
    CurDir,
    ParentDir,
    Normal(Seq<char>),
}

impl View for PathComponent {
    type V = ComponentView;

    open spec fn view(&self) -> ComponentView {
        match *self {
            PathComponent::Prefix(name) => ComponentView::Prefix(name@),
            PathComponent::RootDir => ComponentView::RootDir,
            PathComponent::CurDir => ComponentView::CurDir,
            PathComponent::ParentDir => ComponentView::ParentDir,
            PathComponent::Normal(name) => ComponentView::Normal(name@),
        }
    }
}

/// The abstract value of a path.
pub open spec fn path_view(path: Seq<PathComponent>) -> Seq<ComponentView> {
    Seq::new(path.len(), |i: int| path[i]@)
}

/// Two names stand for the same entry; `fold_case` on file systems that ignore case.
pub open spec fn same_name(a: Seq<char>, b: Seq<char>, fold_case: bool) -> bool {
    if fold_case {
        text::same_ignoring_case(a, b)
    } else {
        a == b
    }
}

/// Two components stand for the same entry.
pub open spec fn same_component(a: ComponentView, b: ComponentView, fold_case: bool) -> bool {
    match (a, b) {
        (ComponentView::Prefix(x), ComponentView::Prefix(y)) => same_name(x, y, fold_case),
        (ComponentView::Normal(x), ComponentView::Normal(y)) => same_name(x, y, fold_case),
        (ComponentView::RootDir, ComponentView::RootDir) => true,
        (ComponentView::CurDir, ComponentView::CurDir) => true,
        (ComponentView::ParentDir, ComponentView::ParentDir) => true,
        _ => false,
    }
}

/// The first path is the second or lies below it.
pub open spec fn is_within(
    path: Seq<ComponentView>,
    root: Seq<ComponentView>,
    fold_case: bool,
) -> bool {
    &&& root.len() <= path.len()
    &&& forall|i: int|
        0 <= i < root.len() ==> same_component(#[trigger] path[i], root[i], fold_case)
}

/// The two paths are the same.
pub open spec fn same_path(a: Seq<ComponentView>, b: Seq<ComponentView>, fold_case: bool) -> bool {
    is_within(a, b, fold_case) && is_within(b, a, fold_case)
}

/// One of the paths lies in the other.
pub open spec fn overlap(a: Seq<ComponentView>, b: Seq<ComponentView>, fold_case: bool) -> bool {
    is_within(a, b, fold_case) || is_within(b, a, fold_case)
}

fn is_same_name(a: &str, b: &str, fold_case: bool) -> (r: bool)
    ensures
        r == same_name(a@, b@, fold_case),
{
    if fold_case {
        text::eq_ignoring_case(a, b)
    } else {
        text::same(a, b)
    }
}

fn is_same_component(a: &PathComponent, b: &PathComponent, fold_case: bool) -> (r: bool)
    ensures
        r == same_component(a@, b@, fold_case),
{
    match (a, b) {
        (PathComponent::Prefix(x), PathComponent::Prefix(y)) => is_same_name(
            x.as_str(),
            y.as_str(),
            fold_case,
        ),
        (PathComponent::Normal(x), PathComponent::Normal(y)) => is_same_name(
            x.as_str(),
            y.as_str(),
            fold_case,
        ),
        (PathComponent::RootDir, PathComponent::RootDir) => true,
        (PathComponent::CurDir, PathComponent::CurDir) => true,
        (PathComponent::ParentDir, PathComponent::ParentDir) => true,
        _ => false,
    }
}

/// Whether a path is a root or lies below it.
pub fn path_is_same_or_child(path: &[PathComponent], root: &[PathComponent], fold_case: bool) -> (r:
    bool)
    ensures
        r == is_within(path_view(path@), path_view(root@), fold_case),
{
    let ghost p = path_view(path@);
    let ghost q = path_view(root@);
    if root.len() > path.len() {
        return false;
    }
    let mut i: usize = 0;
    while i < root.len()
        invariant
            i <= root.len(),
            root.len() <= path.len(),
            p == path_view(path@),
            q == path_view(root@),
            forall|j: int| 0 <= j < i ==> same_component(#[trigger] p[j], q[j], fold_case),
        decreases root.len() - i,
    {
        if !is_same_component(&path[i], &root[i], fold_case) {
            assert(!same_component(p[i as int], q[i as int], fold_case));
            return false;
        }
        i += 1;
    }
    true
}

/// Whether two normalized paths are the same.
pub fn paths_equal_normalized(left: &[PathComponent], right: &[PathComponent], fold_case: bool) -> (r:
    bool)
    ensures
        r == same_path(path_view(left@), path_view(right@), fold_case),
{
    path_is_same_or_child(left, right, fold_case) && path_is_same_or_child(right, left, fold_case)
}

/// A path beside the text that shows it.
#[derive(Debug)]
pub struct ShownPath {
    pub shown: String,
    pub components: Vec<PathComponent>,
}

impl ShownPath {
    /// The components of the path.
    pub open spec fn parts(self) -> Seq<ComponentView> {
        path_view(self.components@)
    }
}

/// The complaint about two paths that overlap.
pub open spec fn overlap_message(
    left: Seq<char>,
    right: Seq<char>,
    left_label: Seq<char>,
    right_label: Seq<char>,
) -> Seq<char> {
    left_label + " '"@ + left + "' must not overlap "@ + right_label + " '"@ + right + "'"@
}

/// Rejects two paths of which one lies in the other.
pub fn reject_overlap(
    left: &ShownPath,
    right: &ShownPath,
    left_label: &str,
    right_label: &str,
    fold_case: bool,
) -> (r: Result<(), String>)
    ensures
        r is Ok <==> !overlap(left.parts(), right.parts(), fold_case),
        r matches Err(e) ==> e@ == overlap_message(
            left.shown@,
            right.shown@,
            left_label@,
            right_label@,
        ),
{
    if path_is_same_or_child(left.components.as_slice(), right.components.as_slice(), fold_case)
        || path_is_same_or_child(
        right.components.as_slice(),
        left.components.as_slice(),
        fold_case,
    ) {
        let message = left_label.to_owned().concat(" '").concat(left.shown.as_str()).concat(
            "' must not overlap ",
        ).concat(right_label).concat(" '").concat(right.shown.as_str()).concat("'");
        Err(message)
    } else {
        Ok(())
    }
}

/// The first component of the path is this name, up to case.
pub open spec fn begins_with(path: Seq<ComponentView>, expected: Seq<char>) -> bool {
    path.len() > 0 && (path[0] matches ComponentView::Normal(name) && text::same_ignoring_case(
        name,
        expected,
    ))
}

/// Whether the first component of a path is this name, up to case.
pub fn relative_starts_with_ascii_case(path: &[PathComponent], expected: &str) -> (r: bool)
    ensures
        r == begins_with(path_view(path@), expected@),
{
    if path.len() == 0 {
        return false;
    }
    match &path[0] {
        PathComponent::Normal(name) => text::eq_ignoring_case(name.as_str(), expected),
        _ => false,
    }
}

/// The last component, where it is a name.
pub open spec fn file_name(path: Seq<ComponentView>) -> Option<Seq<char>> {
    if path.len() > 0 {
        match path.last() {
            ComponentView::Normal(name) => Some(name),
            _ => None,
        }
    } else {
        None
    }
}

/// A file name before and after its extension; a leading dot begins no extension.
pub open spec fn split_name(name: Seq<char>) -> (Seq<char>, Option<Seq<char>>) {
    match text::split_last(name, '.') {
        Some((stem, extension)) => if stem.len() == 0 {
            (name, None)
        } else {
            (stem, Some(extension))
        },
        None => (name, None),
    }
}

/// The file name of a path without its extension, and the extension.
pub fn split_file_name(name: &str) -> (r: (String, Option<String>))
    ensures
        r.0@ == split_name(name@).0,
        match r.1 {
            Some(extension) => split_name(name@).1 == Some(extension@),
            None => split_name(name@).1 is None,
        },
{
    match text::rsplit_once(name, '.') {
        Some((stem, extension)) => {
            if text::same(stem.as_str(), "") {
                proof {
                    reveal_strlit("");
                }
                (name.to_owned(), None)
            } else {
                proof {
                    reveal_strlit("");
                    if split_name(name@).1 is None {
                        assert(stem@ =~= ""@);
                    }
                }
                (stem, Some(extension))
            }
        },
        None => (name.to_owned(), None),
    }
}

/// Every component is a name.
pub open spec fn all_normal(path: Seq<ComponentView>) -> bool {
    forall|i: int| 0 <= i < path.len() ==> (#[trigger] path[i]) is Normal
}

/// The names of a path that holds nothing else.
pub open spec fn names(path: Seq<ComponentView>) -> Seq<Seq<char>> {
    Seq::new(path.len(), |i: int| path[i]->Normal_0)
}

/// The names of the components from `start` on, unless one of them is no name.
pub fn normal_names(path: &[PathComponent], start: usize) -> (r: Option<Vec<String>>)
    requires
        start <= path@.len(),
    ensures
        match r {
            Some(list) => all_normal(path_view(path@).skip(start as int)) && text::views(list@)
                == names(path_view(path@).skip(start as int)),
            None => !all_normal(path_view(path@).skip(start as int)),
        },
{
    let ghost tail = path_view(path@).skip(start as int);
    let mut list: Vec<String> = Vec::new();
    let mut i: usize = start;
    while i < path.len()
        invariant
            start <= i <= path.len(),
            tail == path_view(path@).skip(start as int),
            list@.len() == i - start,
            forall|j: int| 0 <= j < i - start ==> (#[trigger] tail[j]) is Normal,
            forall|j: int|
                0 <= j < i - start ==> (#[trigger] list@[j])@ == tail[j]->Normal_0,
        decreases path.len() - i,
    {
        match &path[i] {
            PathComponent::Normal(name) => {
                proof {
                    assert(tail[i - start] == path@[i as int]@);
                }
                list.push(name.clone());
            },
            _ => {
                proof {
                    assert(tail[i - start] == path@[i as int]@);
                }
                return None;
            },
        }
        i += 1;
    }
    proof {
        assert(text::views(list@) =~= names(tail));
    }
    Some(list)
}

/// A path lies in itself.
pub proof fn law_path_lies_in_itself(path: Seq<ComponentView>, fold_case: bool)
    ensures
        is_within(path, path, fold_case),
        same_path(path, path, fold_case),
{
}

/// What lies below something in a root lies in the root.
pub proof fn law_within_is_transitive(
    a: Seq<ComponentView>,
    b: Seq<ComponentView>,
    c: Seq<ComponentView>,
    fold_case: bool,
)
    requires
        is_within(a, b, fold_case),
        is_within(b, c, fold_case),
    ensures
        is_within(a, c, fold_case),
{
    assert forall|i: int| 0 <= i < c.len() implies same_component(
        #[trigger] a[i],
        c[i],
        fold_case,
    ) by {
        assert(same_component(a[i], b[i], fold_case));
        assert(same_component(b[i], c[i], fold_case));
    }
}

/// Overlap does not depend on the order of the two paths.
pub proof fn law_overlap_is_symmetric(
    a: Seq<ComponentView>,
    b: Seq<ComponentView>,
    fold_case: bool,
)
    ensures
        overlap(a, b, fold_case) == overlap(b, a, fold_case),
{
}

/// Nothing below a root lies in a place that the root does not overlap.
pub proof fn law_outputs_stay_apart(
    output: Seq<ComponentView>,
    build_root: Seq<ComponentView>,
    base_root: Seq<ComponentView>,
    fold_case: bool,
)
    requires
        is_within(output, build_root, fold_case),
        !overlap(build_root, base_root, fold_case),
    ensures
        !is_within(output, base_root, fold_case),
        !is_within(base_root, output, fold_case),
{
    if is_within(output, base_root, fold_case) {
        if build_root.len() <= base_root.len() {
            assert forall|i: int| 0 <= i < build_root.len() implies same_component(
                #[trigger] base_root[i],
                build_root[i],
                fold_case,
            ) by {
                assert(same_component(output[i], build_root[i], fold_case));
                assert(same_component(output[i], base_root[i], fold_case));
            }
        } else {
            assert forall|i: int| 0 <= i < base_root.len() implies same_component(
                #[trigger] build_root[i],
                base_root[i],
                fold_case,
            ) by {
                assert(same_component(output[i], build_root[i], fold_case));
                assert(same_component(output[i], base_root[i], fold_case));
            }
        }
    }
    if is_within(base_root, output, fold_case) {
        law_within_is_transitive(base_root, output, build_root, fold_case);
    }
}

/// Names are the same letter for letter, or up to case where the file system folds it; a folder is
/// within another exactly where it goes on from it, and two are the same where they are as long.
pub proof fn law_names_are_compared_as_the_file_system_does(
    a: Seq<char>,
    b: Seq<char>,
    path: Seq<ComponentView>,
    root: Seq<ComponentView>,
    fold_case: bool,
)
    ensures
        same_component(ComponentView::Normal(a), ComponentView::Normal(b), false) <==> a == b,
        same_component(ComponentView::Normal(a), ComponentView::Normal(b), true) <==> text::lower(a)
            == text::lower(b),
        same_component(ComponentView::Prefix(a), ComponentView::Prefix(b), false) <==> a == b,
        !same_component(ComponentView::Normal(a), ComponentView::ParentDir, fold_case),
        !same_component(ComponentView::Normal(a), ComponentView::RootDir, fold_case),
        !same_component(ComponentView::Normal(a), ComponentView::Prefix(b), fold_case),
        is_within(root + path, root, fold_case),
        same_path(path, root, fold_case) <==> is_within(path, root, fold_case) && path.len()
            == root.len(),
        overlap(path, root, fold_case) <==> is_within(path, root, fold_case) || is_within(
            root,
            path,
            fold_case,
        ),
{
    assert forall|i: int| 0 <= i < root.len() implies same_component(
        #[trigger] (root + path)[i],
        root[i],
        fold_case,
    ) by {
        assert((root + path)[i] == root[i]);
    }
    if is_within(path, root, fold_case) && path.len() == root.len() {
        assert forall|i: int| 0 <= i < path.len() implies same_component(
            #[trigger] root[i],
            path[i],
            fold_case,
        ) by {
            assert(same_component(path[i], root[i], fold_case));
        }
    }
}

} // verus!
