//! What numbers, names and trimmed texts look like.
use vstd::prelude::*;

use crate::ids;
use crate::text;

verus! {

/// A number in decimal is read back as itself, with a sign too, and starts with no zero.
pub proof fn law_decimals_are_read_back(n: nat)
    ensures
        text::is_digits(text::decimal(n)),
        n > 0 ==> text::decimal(n)[0] != '0',
        n <= usize::MAX ==> (text::usize_value(text::decimal(n)) matches Some(v) && v == n),
        n <= i32::MAX ==> (text::i32_value(text::decimal(n)) matches Some(v) && v == n),
        n <= 0x8000_0000 ==> (text::i32_value(seq!['-'] + text::decimal(n)) matches Some(v) && v
            == -n),
{
    lemma_decimal(n);
    let s = text::decimal(n);
    assert('0' <= s[0] <= '9');
    let minus = seq!['-'] + s;
    assert(minus.drop_first() =~= s);
    assert(minus[0] == '-');
}

proof fn lemma_decimal(n: nat)
    ensures
        text::is_digits(text::decimal(n)),
        text::digits_value(text::decimal(n)) == n,
        n > 0 ==> text::decimal(n)[0] != '0',
    decreases n,
{
    let s = text::decimal(n);
    if n < 10 {
        assert(s.drop_last() =~= Seq::empty());
        assert(s.last() as int == n + 48);
        assert(text::digits_value(Seq::empty()) == 0);
    } else {
        lemma_decimal(n / 10);
        let front = text::decimal(n / 10);
        assert(s.drop_last() =~= front);
        assert(s.last() as int == n % 10 + 48);
        assert forall|i: int| 0 <= i < s.len() implies '0' <= #[trigger] s[i] <= '9' by {
            if i < front.len() {
                assert(s[i] == front[i]);
            }
        }
        assert(s[0] == front[0]);
    }
}

/// One digit more makes a number ten times as large, and adds the digit.
pub proof fn law_digits_count_tens(s: Seq<char>, d: int)
    requires
        text::is_digits(s),
        0 <= d <= 9,
    ensures
        text::is_digits(s.push((48 + d) as char)),
        text::digits_value(s.push((48 + d) as char)) == 10 * text::digits_value(s) + d,
        text::digits_value(Seq::empty()) == 0,
        text::usize_value(s) matches Some(v) ==> v == text::digits_value(s),
{
    let t = s.push((48 + d) as char);
    assert(t.drop_last() =~= s);
    assert(t.last() as int == 48 + d);
    assert('0' <= s[0] <= '9');
}

/// A number in base sixteen has its digits from `0` to `f`, the lowest last, and as many as were
/// asked for.
pub proof fn law_hex_digits_stand_in_order(n: nat, width: nat)
    ensures
        text::hex(n, width).len() == width,
        width > 0 ==> {
            let last = text::hex(n, width).last();
            &&& text::hex(n, width).drop_last() == text::hex(n / 16, (width - 1) as nat)
            &&& n % 16 <= 9 ==> last as int == '0' as int + n % 16
            &&& n % 16 >= 10 ==> last as int == 'a' as int + n % 16 - 10
        },
    decreases width,
{
    if width > 0 {
        law_hex_digits_stand_in_order(n / 16, (width - 1) as nat);
        assert(text::hex(n, width).drop_last() =~= text::hex(n / 16, (width - 1) as nat));
    }
}

/// A written id is its 32 digits in groups of eight, four, four, four and twelve.
pub proof fn law_ids_are_written_in_groups(id: u128)
    ensures
        ids::hyphenated(id).len() == 36,
        ids::hyphenated(id)[8] == '-',
        ids::hyphenated(id)[13] == '-',
        ids::hyphenated(id)[18] == '-',
        ids::hyphenated(id)[23] == '-',
        ids::hyphenated(id).subrange(0, 8) + ids::hyphenated(id).subrange(9, 13) + ids::hyphenated(
            id,
        ).subrange(14, 18) + ids::hyphenated(id).subrange(19, 23) + ids::hyphenated(id).subrange(
            24,
            36,
        ) == ids::simple(id),
        ids::simple(id) == text::hex(id as nat, 32),
{
    law_hex_digits_stand_in_order(id as nat, 32);
    let s = ids::simple(id);
    let h = ids::hyphenated(id);
    assert(h.subrange(0, 8) =~= s.subrange(0, 8));
    assert(h.subrange(9, 13) =~= s.subrange(8, 12));
    assert(h.subrange(14, 18) =~= s.subrange(12, 16));
    assert(h.subrange(19, 23) =~= s.subrange(16, 20));
    assert(h.subrange(24, 36) =~= s.subrange(20, 32));
    assert(s.subrange(0, 8) + s.subrange(8, 12) + s.subrange(12, 16) + s.subrange(16, 20)
        + s.subrange(20, 32) =~= s);
}

proof fn lemma_trim_start(s: Seq<char>) -> (k: int)
    ensures
        0 <= k <= s.len(),
        text::trim_start(s) == s.skip(k),
        forall|i: int| 0 <= i < k ==> text::is_white_space(#[trigger] s[i]),
        k < s.len() ==> !text::is_white_space(s[k]),
    decreases s.len(),
{
    if s.len() > 0 && text::is_white_space(s[0]) {
        let rest = s.drop_first();
        let k = lemma_trim_start(rest);
        assert(rest.skip(k) =~= s.skip(k + 1));
        assert forall|i: int| 0 <= i < k + 1 implies text::is_white_space(#[trigger] s[i]) by {
            if i > 0 {
                assert(rest[i - 1] == s[i]);
            }
        }
        if k + 1 < s.len() {
            assert(rest[k] == s[k + 1]);
        }
        k + 1
    } else {
        assert(s.skip(0) =~= s);
        0
    }
}

proof fn lemma_trim_end(s: Seq<char>) -> (k: int)
    ensures
        0 <= k <= s.len(),
        text::trim_end(s) == s.take(k),
        forall|i: int| k <= i < s.len() ==> text::is_white_space(#[trigger] s[i]),
        k > 0 ==> !text::is_white_space(s[k - 1]),
    decreases s.len(),
{
    if s.len() > 0 && text::is_white_space(s.last()) {
        let rest = s.drop_last();
        let k = lemma_trim_end(rest);
        assert(rest.take(k) =~= s.take(k));
        assert forall|i: int| k <= i < s.len() implies text::is_white_space(#[trigger] s[i]) by {
            if i < rest.len() {
                assert(rest[i] == s[i]);
            }
        }
        if k > 0 {
            assert(rest[k - 1] == s[k - 1]);
        }
        k
    } else {
        assert(s.take(s.len() as int) =~= s);
        s.len() as int
    }
}

/// A trimmed text is what stands between the white space at both ends: nothing else is taken off,
/// and none is left there.
pub proof fn law_trimming_takes_the_white_space_off(s: Seq<char>)
    ensures
        exists|a: int, b: int|
            0 <= a <= b <= s.len() && #[trigger] s.subrange(a, b) == text::trimmed(s) && (
            forall|i: int|
                0 <= i < a || b <= i < s.len() ==> text::is_white_space(#[trigger] s[i])),
        text::trimmed(s).len() > 0 ==> !text::is_white_space(text::trimmed(s)[0])
            && !text::is_white_space(text::trimmed(s).last()),
{
    let a = lemma_trim_start(s);
    let t = s.skip(a);
    let k = lemma_trim_end(t);
    assert(t.take(k) =~= s.subrange(a, a + k));
    assert forall|i: int| 0 <= i < a || a + k <= i < s.len() implies text::is_white_space(
        #[trigger] s[i],
    ) by {
        if i >= a {
            assert(t[i - a] == s[i]);
        }
    }
    if k > 0 {
        assert(text::trimmed(s)[0] == s[a]);
        assert(text::trimmed(s).last() == t[k - 1]);
    }
}

/// Blanks, tabs and line ends are white space; no other ASCII character is.
pub proof fn law_ascii_white_space(c: char)
    requires
        c as u32 <= 0x7f,
    ensures
        text::is_white_space(c) <==> c == ' ' || (9 <= c as u32 <= 13),
{
}

/// A name without its namespaces is what follows the last pair of colons.
pub proof fn law_names_follow_their_last_namespace(s: Seq<char>, pattern: Seq<char>, i: int)
    requires
        pattern.len() > 0,
        text::stands_at(s, pattern, i),
        forall|j: int| i < j < s.len() ==> !#[trigger] text::stands_at(s, pattern, j),
    ensures
        text::after_last_pattern(s, pattern) == s.skip(i + pattern.len()),
{
    lemma_found_back(s, pattern, s.len() as int, i);
}

proof fn lemma_found_back(s: Seq<char>, pattern: Seq<char>, from: int, i: int)
    requires
        0 <= i < from <= s.len(),
        text::stands_at(s, pattern, i),
        forall|j: int| i < j < s.len() ==> !#[trigger] text::stands_at(s, pattern, j),
    ensures
        text::find_back(s, pattern, from) == Some(i),
    decreases from,
{
    if from - 1 > i {
        assert(!text::stands_at(s, pattern, from - 1));
        lemma_found_back(s, pattern, from - 1, i);
    }
}

/// The parts of a text between its separators: the last has none, and what stands before it comes
/// apart in the same way.
pub proof fn law_texts_split_at_every_separator(head: Seq<char>, c: char, tail: Seq<char>)
    requires
        forall|i: int| 0 <= i < tail.len() ==> (#[trigger] tail[i]) != c,
    ensures
        text::split(tail, c) == seq![tail],
        text::split(head.push(c) + tail, c) == text::split(head, c).push(tail),
{
    text::lemma_last_index(tail, c);
    if text::last_index(tail, c) >= 0 {
        assert(tail[text::last_index(tail, c)] == c);
    }
    let s = head.push(c) + tail;
    text::lemma_last_index(s, c);
    let i = text::last_index(s, c);
    assert(s[head.len() as int] == c);
    if i > head.len() {
        assert(s[i] == tail[i - head.len() - 1]);
    }
    assert(s.take(i) =~= head);
    assert(s.skip(i + 1) =~= tail);
}

/// Leading separators are all taken off, and nothing else.
pub proof fn law_leading_separators_go(s: Seq<char>, c: char)
    ensures
        text::without_leading(seq![c] + s, c) == text::without_leading(s, c),
        s.len() > 0 && s[0] != c ==> text::without_leading(s, c) == s,
        text::without_leading(Seq::empty(), c) == Seq::<char>::empty(),
{
    assert((seq![c] + s).drop_first() =~= s);
}

} // verus!
