//! Names of model assets: folders, and the first free name for a copy.
use vstd::prelude::*;

use crate::paths;
use crate::text;

verus! {

/// The folder of a path, empty for a path without one.
pub open spec fn folder_of(path: Seq<char>) -> Seq<char> {
    match text::split_last(path, '/') {
        Some((folder, _)) => folder,
        None => Seq::empty(),
    }
}

/// The last name of a path.
pub open spec fn name_in(path: Seq<char>) -> Seq<char> {
    match text::split_last(path, '/') {
        Some((_, name)) => name,
        None => path,
    }
}

/// A name in a folder.
pub open spec fn in_folder(folder: Seq<char>, name: Seq<char>) -> Seq<char> {
    if folder.len() == 0 {
        name
    } else {
        folder + "/"@ + name
    }
}

/// The folder of a path, empty for a path without one.
pub fn find_folder(path: &str) -> (r: String)
    ensures
        r@ == folder_of(path@),
{
    match text::rsplit_once(path, '/') {
        Some((folder, _)) => folder,
        None => String::new(),
    }
}

/// A name in a folder.
pub fn put_in_folder(folder: &str, name: &str) -> (r: String)
    ensures
        r@ == in_folder(folder@, name@),
{
    if folder.is_empty() {
        name.to_owned()
    } else {
        folder.to_owned().concat("/").concat(name)
    }
}

/// The stem of an asset's file name.
pub open spec fn asset_stem(path: Seq<char>) -> Seq<char> {
    paths::split_name(name_in(path)).0
}

/// The stem of an asset's file name.
pub fn find_asset_stem(path: &str) -> (r: String)
    ensures
        r@ == asset_stem(path@),
{
    let name = match text::rsplit_once(path, '/') {
        Some((_, name)) => name,
        None => path.to_owned(),
    };
    let (stem, _) = paths::split_file_name(name.as_str());
    stem
}

/// The file name of the copy number `serial`.
pub open spec fn copy_name(stem: Seq<char>, serial: nat) -> Seq<char> {
    if serial == 1 {
        stem + "_copy.smsmodel"@
    } else {
        stem + "_copy_"@ + text::decimal(serial) + ".smsmodel"@
    }
}

/// The path of the copy number `serial`.
pub open spec fn copy_path(folder: Seq<char>, stem: Seq<char>, serial: nat) -> Seq<char> {
    in_folder(folder, copy_name(stem, serial))
}

/// Every copy up to `n` exists.
pub open spec fn all_taken(
    existing: Seq<Seq<char>>,
    folder: Seq<char>,
    stem: Seq<char>,
    n: nat,
) -> bool {
    forall|k: nat| 1 <= k <= n ==> existing.contains(#[trigger] copy_path(folder, stem, k))
}

proof fn lemma_decimal_length(n: nat)
    ensures
        text::decimal(n).len() >= 1,
        n >= 10 ==> text::decimal(n).len() >= 2,
    decreases n,
{
    if n >= 10 {
        lemma_decimal_length(n / 10);
    }
}

proof fn lemma_digits_differ(a: int, b: int)
    requires
        0 <= a < 10,
        0 <= b < 10,
        text::digit_char(a) == text::digit_char(b),
    ensures
        a == b,
{
    assert((a + 48) as char as int == a + 48);
    assert((b + 48) as char as int == b + 48);
}

/// Different numbers are written differently.
pub proof fn law_decimal_is_injective(a: nat, b: nat)
    requires
        text::decimal(a) == text::decimal(b),
    ensures
        a == b,
    decreases a,
{
    lemma_decimal_length(a);
    lemma_decimal_length(b);
    if a < 10 || b < 10 {
        if a < 10 && b < 10 {
            assert(text::decimal(a) == seq![text::digit_char(a as int)]);
            assert(text::decimal(b) == seq![text::digit_char(b as int)]);
            assert(text::decimal(a)[0] == text::digit_char(a as int));
            assert(text::decimal(b)[0] == text::digit_char(b as int));
            lemma_digits_differ(a as int, b as int);
        }
    } else {
        let p = text::decimal(a / 10);
        let q = text::decimal(b / 10);
        assert(text::decimal(a) == p.push(text::digit_char((a % 10) as int)));
        assert(text::decimal(b) == q.push(text::digit_char((b % 10) as int)));
        assert(text::decimal(a).last() == text::digit_char((a % 10) as int));
        assert(text::decimal(b).last() == text::digit_char((b % 10) as int));
        lemma_digits_differ((a % 10) as int, (b % 10) as int);
        assert(text::decimal(a).drop_last() =~= text::decimal(a / 10));
        assert(text::decimal(b).drop_last() =~= text::decimal(b / 10));
        law_decimal_is_injective(a / 10, b / 10);
    }
}

/// Different copies have different paths.
pub proof fn law_copies_are_distinct(folder: Seq<char>, stem: Seq<char>, a: nat, b: nat)
    requires
        a != b,
        a >= 1,
        b >= 1,
    ensures
        copy_path(folder, stem, a) != copy_path(folder, stem, b),
{
    reveal_strlit("_copy.smsmodel");
    reveal_strlit("_copy_");
    reveal_strlit(".smsmodel");
    reveal_strlit("/");
    let x = copy_name(stem, a);
    let y = copy_name(stem, b);
    if x == y {
        let at = stem.len() + 5;
        if a == 1 {
            assert(x[at as int] == '.');
            assert(y[at as int] == '_');
        } else if b == 1 {
            assert(y[at as int] == '.');
            assert(x[at as int] == '_');
        } else {
            let start = stem.len() + 6;
            let p = text::decimal(a);
            let q = text::decimal(b);
            assert(x.len() == stem.len() + 6 + p.len() + 9);
            assert(y.len() == stem.len() + 6 + q.len() + 9);
            assert(p =~= x.subrange(start as int, (start + p.len()) as int));
            assert(q =~= y.subrange(start as int, (start + q.len()) as int));
            law_decimal_is_injective(a, b);
        }
    }
    if copy_path(folder, stem, a) == copy_path(folder, stem, b) && folder.len() > 0 {
        let p = copy_path(folder, stem, a);
        let q = copy_path(folder, stem, b);
        assert(x =~= p.skip((folder.len() + 1) as int));
        assert(y =~= q.skip((folder.len() + 1) as int));
    }
}

proof fn lemma_taken_is_bounded(
    existing: Seq<Seq<char>>,
    folder: Seq<char>,
    stem: Seq<char>,
    n: nat,
)
    requires
        all_taken(existing, folder, stem, n),
    ensures
        n <= existing.len(),
    decreases n,
{
    if n > 0 {
        let last = copy_path(folder, stem, n);
        assert(existing.contains(last));
        let i = choose|i: int| 0 <= i < existing.len() && existing[i] == last;
        let rest = existing.remove(i);
        assert forall|k: nat| 1 <= k <= n - 1 implies rest.contains(
            #[trigger] copy_path(folder, stem, k),
        ) by {
            law_copies_are_distinct(folder, stem, k, n);
            let path = copy_path(folder, stem, k);
            assert(existing.contains(path));
            let j = choose|j: int| 0 <= j < existing.len() && existing[j] == path;
            if j < i {
                assert(rest[j] == path);
            } else {
                assert(rest[j - 1] == path);
            }
        }
        lemma_taken_is_bounded(rest, folder, stem, (n - 1) as nat);
    }
}

fn is_taken(existing: &[String], path: &str) -> (r: bool)
    ensures
        r == text::views(existing@).contains(path@),
{
    let ghost views = text::views(existing@);
    let mut i: usize = 0;
    while i < existing.len()
        invariant
            i <= existing.len(),
            views == text::views(existing@),
            forall|j: int| 0 <= j < i ==> #[trigger] views[j] != path@,
        decreases existing.len() - i,
    {
        if text::same(existing[i].as_str(), path) {
            assert(views[i as int] == path@);
            return true;
        }
        i += 1;
    }
    false
}

fn make_copy_path(folder: &str, stem: &str, serial: usize) -> (r: String)
    requires
        serial >= 1,
    ensures
        r@ == copy_path(folder@, stem@, serial as nat),
{
    let name = if serial == 1 {
        stem.to_owned().concat("_copy.smsmodel")
    } else {
        let number = text::decimal_text(serial as u128);
        stem.to_owned().concat("_copy_").concat(number.as_str()).concat(".smsmodel")
    };
    put_in_folder(folder, name.as_str())
}

/// The path is that of the first copy that does not exist.
pub open spec fn is_first_free(
    existing: Seq<Seq<char>>,
    folder: Seq<char>,
    stem: Seq<char>,
    path: Seq<char>,
) -> bool {
    !existing.contains(path) && exists|serial: nat|
        serial >= 1 && path == #[trigger] copy_path(folder, stem, serial) && all_taken(
            existing,
            folder,
            stem,
            (serial - 1) as nat,
        )
}

/// The path of the first copy that does not exist; there always is one.
pub fn first_free_copy(existing: &[String], folder: &str, stem: &str) -> (r: String)
    requires
        existing@.len() < usize::MAX,
    ensures
        is_first_free(text::views(existing@), folder@, stem@, r@),
{
    let ghost views = text::views(existing@);
    let mut serial: usize = 1;
    let mut path = make_copy_path(folder, stem, serial);
    while is_taken(existing, path.as_str())
        invariant
            views == text::views(existing@),
            existing@.len() < usize::MAX,
            1 <= serial <= existing@.len() + 1,
            path@ == copy_path(folder@, stem@, serial as nat),
            all_taken(views, folder@, stem@, (serial - 1) as nat),
        decreases existing@.len() + 1 - serial,
    {
        proof {
            assert(all_taken(views, folder@, stem@, serial as nat));
            lemma_taken_is_bounded(views, folder@, stem@, serial as nat);
        }
        serial += 1;
        path = make_copy_path(folder, stem, serial);
    }
    path
}

/// A path comes apart into its folder and its name, and the two make the path again; an asset's
/// stem is its name without what follows the last point.
pub proof fn law_paths_come_apart(folder: Seq<char>, stem: Seq<char>)
    requires
        folder.len() > 0,
        stem.len() > 0,
        !stem.contains('/'),
    ensures
        in_folder(folder, stem + ".smsmodel"@) == folder + "/"@ + stem + ".smsmodel"@,
        folder_of(folder + "/"@ + stem + ".smsmodel"@) == folder,
        name_in(folder + "/"@ + stem + ".smsmodel"@) == stem + ".smsmodel"@,
        asset_stem(folder + "/"@ + stem + ".smsmodel"@) == stem,
        in_folder(Seq::empty(), stem) == stem,
        folder_of(stem).len() == 0,
{
    reveal_strlit("/");
    reveal_strlit(".smsmodel");
    reveal_strlit("smsmodel");
    let name = stem + ".smsmodel"@;
    let path = folder + "/"@ + stem + ".smsmodel"@;
    assert forall|i: int| 0 <= i < name.len() implies name[i] != '/' by {
        if i < stem.len() {
            assert(stem.contains(stem[i]));
        }
    }
    assert(!name.contains('/'));
    assert(path =~= folder.push('/') + name);
    assert(path =~= folder + "/"@ + name);
    text::law_joined_texts_come_apart(folder, '/', name);
    text::law_joined_texts_come_apart(folder, '/', stem);
    assert(name =~= stem.push('.') + "smsmodel"@);
    text::law_joined_texts_come_apart(stem, '.', "smsmodel"@);
}

/// The first copy of an asset is called after it, and later ones are numbered; all are assets of
/// the same folder.
pub proof fn law_copies_are_called_after_their_asset(folder: Seq<char>, stem: Seq<char>, serial: nat)
    ensures
        copy_name(stem, 1) == stem + "_copy.smsmodel"@,
        serial > 1 ==> copy_name(stem, serial) == stem + "_copy_"@ + text::decimal(serial)
            + ".smsmodel"@,
        folder.len() > 0 ==> copy_path(folder, stem, serial) == folder + "/"@ + copy_name(
            stem,
            serial,
        ),
{
}

} // verus!
