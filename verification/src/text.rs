//! Text as sequences of characters: ASCII case folding, searching, splitting and numbers.
use vstd::prelude::*;

verus! {

/// `String::push` appends one character to the end of the text.
pub assume_specification[ String::push ](s: &mut String, c: char)
    ensures
        final(s)@ == old(s)@.push(c),
;

/// ASCII lower case of one character; every other character stays as it is.
pub open spec fn lower_char(c: char) -> char {
    if 'A' <= c && c <= 'Z' {
        (c as u32 + 32) as char
    } else {
        c
    }
}

/// ASCII lower case of a text.
pub open spec fn lower(s: Seq<char>) -> Seq<char> {
    Seq::new(s.len(), |i: int| lower_char(s[i]))
}

/// Two texts that differ at most in ASCII case.
pub open spec fn same_ignoring_case(a: Seq<char>, b: Seq<char>) -> bool {
    lower(a) == lower(b)
}

/// `s` with every `from` replaced by `to`.
pub open spec fn with_replaced(s: Seq<char>, from: char, to: char) -> Seq<char> {
    Seq::new(
        s.len(),
        |i: int|
            if s[i] == from {
                to
            } else {
                s[i]
            },
    )
}

/// `pattern` stands in `s` at position `i`.
pub open spec fn stands_at(s: Seq<char>, pattern: Seq<char>, i: int) -> bool {
    0 <= i && i + pattern.len() <= s.len() && s.subrange(i, i + pattern.len()) == pattern
}

/// `pattern` stands somewhere in `s`.
pub open spec fn occurs_in(s: Seq<char>, pattern: Seq<char>) -> bool {
    exists|i: int| stands_at(s, pattern, i)
}

/// The texts of a list.
pub open spec fn views(list: Seq<String>) -> Seq<Seq<char>> {
    Seq::new(list.len(), |i: int| list[i]@)
}

/// Position of the last `c` in `s`, or -1.
pub open spec fn last_index(s: Seq<char>, c: char) -> int
    decreases s.len(),
{
    if s.len() == 0 {
        -1
    } else if s.last() == c {
        s.len() - 1
    } else {
        last_index(s.drop_last(), c)
    }
}

/// What follows the last `c` in `s`; all of `s` when there is none.
pub open spec fn after_last(s: Seq<char>, c: char) -> Seq<char> {
    s.skip(last_index(s, c) + 1)
}

/// What stands before and after the last `c` in `s`.
pub open spec fn split_last(s: Seq<char>, c: char) -> Option<(Seq<char>, Seq<char>)> {
    let i = last_index(s, c);
    if i < 0 {
        None
    } else {
        Some((s.take(i), s.skip(i + 1)))
    }
}

/// The parts of `s` between the separators `c`.
pub open spec fn split(s: Seq<char>, c: char) -> Seq<Seq<char>>
    decreases s.len(),
{
    proof {
        lemma_last_index(s, c);
    }
    let i = last_index(s, c);
    if i < 0 {
        seq![s]
    } else {
        split(s.take(i), c).push(s.skip(i + 1))
    }
}

/// The text that `String::from_utf8_lossy` reads from bytes.
pub uninterp spec fn utf8_lossy(bytes: Seq<u8>) -> Seq<char>;

/// `String::from_utf8_lossy`: a function of the bytes alone, which decodes valid UTF-8 as it is.
/// What it makes of other bytes is only named.
#[verifier::external_body]
pub(crate) fn lossy_text(bytes: &[u8]) -> (r: String)
    ensures
        r@ == utf8_lossy(bytes@),
        vstd::utf8::valid_utf8(bytes@) ==> r@ == vstd::utf8::decode_utf8(bytes@),
{
    String::from_utf8_lossy(bytes).into_owned()
}

/// The form that `{:?}` gives a text.
pub uninterp spec fn debug_form(s: Seq<char>) -> Seq<char>;

/// `format!` with `{:?}`: the text in double quotes, with the escapes of `str`'s `Debug`; a
/// function of the text alone, named here.
#[verifier::external_body]
pub(crate) fn debug_text(s: &str) -> (r: String)
    ensures
        r@ == debug_form(s@),
{
    format!("{s:?}")
}

/// The position found by `last_index` holds the character, and none follows it.
pub proof fn lemma_last_index(s: Seq<char>, c: char)
    ensures
        -1 <= last_index(s, c) < s.len(),
        last_index(s, c) >= 0 ==> s[last_index(s, c)] == c,
        forall|i: int| last_index(s, c) < i < s.len() ==> s[i] != c,
    decreases s.len(),
{
    if s.len() > 0 && s.last() != c {
        lemma_last_index(s.drop_last(), c);
        assert forall|i: int| last_index(s, c) < i < s.len() implies s[i] != c by {
            if i < s.len() - 1 {
                assert(s.drop_last()[i] == s[i]);
            }
        }
    }
}

/// The characters of `s`.
pub fn chars_of(s: &str) -> (chars: Vec<char>)
    ensures
        chars@ == s@,
{
    let mut chars: Vec<char> = Vec::new();
    for c in iter: s.chars()
        invariant
            iter.seq() == s@,
            chars@ == iter.seq().take(iter.index() as int),
    {
        chars.push(c);
    }
    chars
}

/// Whether two texts hold the same characters.
pub fn same(a: &str, b: &str) -> (r: bool)
    ensures
        r == (a@ == b@),
{
    a.to_owned() == b.to_owned()
}

/// ASCII lower case of one character.
pub fn to_lower_char(c: char) -> (r: char)
    ensures
        r == lower_char(c),
{
    if 'A' <= c && c <= 'Z' {
        (c as u8 + 32) as char
    } else {
        c
    }
}

/// ASCII lower case of a text.
pub fn to_lower(s: &str) -> (r: String)
    ensures
        r@ == lower(s@),
{
    let chars = chars_of(s);
    let mut r = String::new();
    let mut i: usize = 0;
    while i < chars.len()
        invariant
            i <= chars.len(),
            chars@ == s@,
            r@ == lower(s@).take(i as int),
        decreases chars.len() - i,
    {
        r.push(to_lower_char(chars[i]));
        i += 1;
    }
    r
}

/// Whether two texts differ at most in ASCII case.
pub fn eq_ignoring_case(a: &str, b: &str) -> (r: bool)
    ensures
        r == same_ignoring_case(a@, b@),
{
    to_lower(a) == to_lower(b)
}

/// `s` with every `from` replaced by `to`.
pub fn replaced(s: &str, from: char, to: char) -> (r: String)
    ensures
        r@ == with_replaced(s@, from, to),
{
    let chars = chars_of(s);
    let mut r = String::new();
    let mut i: usize = 0;
    while i < chars.len()
        invariant
            i <= chars.len(),
            chars@ == s@,
            r@ == with_replaced(s@, from, to).take(i as int),
        decreases chars.len() - i,
    {
        if chars[i] == from {
            r.push(to);
        } else {
            r.push(chars[i]);
        }
        i += 1;
    }
    r
}

/// Whether `pattern` stands in `s` at position `at`.
pub fn pattern_at(s: &[char], pattern: &[char], at: usize) -> (r: bool)
    ensures
        r == stands_at(s@, pattern@, at as int),
{
    if pattern.len() > s.len() || at > s.len() - pattern.len() {
        return false;
    }
    let mut i: usize = 0;
    while i < pattern.len()
        invariant
            i <= pattern.len(),
            at + pattern.len() <= s.len(),
            forall|j: int| 0 <= j < i ==> s@[at + j] == pattern@[j],
        decreases pattern.len() - i,
    {
        if s[at + i] != pattern[i] {
            assert(s@.subrange(at as int, at + pattern@.len())[i as int] != pattern@[i as int]);
            return false;
        }
        i += 1;
    }
    assert(s@.subrange(at as int, at + pattern@.len()) =~= pattern@);
    true
}

/// Whether `s` begins with `prefix`.
pub fn starts_with(s: &str, prefix: &str) -> (r: bool)
    ensures
        r == prefix@.is_prefix_of(s@),
{
    let a = chars_of(s);
    let b = chars_of(prefix);
    pattern_at(&a, &b, 0)
}

/// Whether `s` ends with `suffix`.
pub fn ends_with(s: &str, suffix: &str) -> (r: bool)
    ensures
        r == suffix@.is_suffix_of(s@),
{
    let a = chars_of(s);
    let b = chars_of(suffix);
    if b.len() > a.len() {
        return false;
    }
    pattern_at(&a, &b, a.len() - b.len())
}

/// Whether `pattern` stands somewhere in `s`.
pub fn contains(s: &str, pattern: &str) -> (r: bool)
    ensures
        r == occurs_in(s@, pattern@),
{
    let a = chars_of(s);
    let b = chars_of(pattern);
    if b.len() > a.len() {
        return false;
    }
    let last: usize = a.len() - b.len();
    let mut i: usize = 0;
    while i < last
        invariant
            i <= last,
            last == a.len() - b.len(),
            a@ == s@,
            b@ == pattern@,
            forall|j: int| 0 <= j < i ==> !stands_at(s@, pattern@, j),
        decreases last - i,
    {
        if pattern_at(&a, &b, i) {
            return true;
        }
        i += 1;
    }
    pattern_at(&a, &b, last)
}

/// Position of the last `c` in `chars`.
pub fn position_of_last(chars: &[char], c: char) -> (r: Option<usize>)
    ensures
        match r {
            Some(i) => last_index(chars@, c) == i && i < chars@.len(),
            None => last_index(chars@, c) == -1,
        },
{
    let mut i: usize = chars.len();
    assert(chars@.take(i as int) =~= chars@);
    while i > 0
        invariant
            i <= chars.len(),
            last_index(chars@, c) == last_index(chars@.take(i as int), c),
        decreases i,
    {
        proof {
            assert(chars@.take(i as int).last() == chars@[i - 1]);
            assert(chars@.take(i as int).drop_last() =~= chars@.take(i - 1));
        }
        if chars[i - 1] == c {
            return Some(i - 1);
        }
        i -= 1;
    }
    None
}

/// What follows the last `c` in `s`; all of `s` when there is none.
pub fn tail_after_last(s: &str, c: char) -> (r: String)
    ensures
        r@ == after_last(s@, c),
{
    let chars = chars_of(s);
    let len: usize = chars.len();
    let start: usize = match position_of_last(&chars, c) {
        Some(i) => i + 1,
        None => 0,
    };
    s.substring_char(start, len).to_owned()
}

/// What stands before and after the last `c` in `s`.
pub fn rsplit_once(s: &str, c: char) -> (r: Option<(String, String)>)
    ensures
        match r {
            Some((before, after)) => split_last(s@, c) == Some((before@, after@)),
            None => split_last(s@, c) is None,
        },
{
    let chars = chars_of(s);
    let len: usize = chars.len();
    match position_of_last(&chars, c) {
        Some(i) => {
            let before = s.substring_char(0, i).to_owned();
            let after = s.substring_char(i + 1, len).to_owned();
            proof {
                assert(before@ =~= s@.take(i as int));
                assert(after@ =~= s@.skip(i + 1));
            }
            Some((before, after))
        },
        None => None,
    }
}

/// Unicode white space.
pub open spec fn is_white_space(c: char) -> bool {
    ||| '\u{9}' <= c <= '\u{d}'
    ||| c == '\u{20}'
    ||| c == '\u{85}'
    ||| c == '\u{a0}'
    ||| c == '\u{1680}'
    ||| '\u{2000}' <= c <= '\u{200a}'
    ||| c == '\u{2028}'
    ||| c == '\u{2029}'
    ||| c == '\u{202f}'
    ||| c == '\u{205f}'
    ||| c == '\u{3000}'
}

/// `s` without the white space at its start.
pub open spec fn trim_start(s: Seq<char>) -> Seq<char>
    decreases s.len(),
{
    if s.len() > 0 && is_white_space(s[0]) {
        trim_start(s.drop_first())
    } else {
        s
    }
}

/// `s` without the white space at its end.
pub open spec fn trim_end(s: Seq<char>) -> Seq<char>
    decreases s.len(),
{
    if s.len() > 0 && is_white_space(s.last()) {
        trim_end(s.drop_last())
    } else {
        s
    }
}

/// `s` without the white space at both ends.
pub open spec fn trimmed(s: Seq<char>) -> Seq<char> {
    trim_end(trim_start(s))
}

/// The decimal digit of `d`.
pub open spec fn digit_char(d: int) -> char {
    (d + 48) as char
}

/// `n` in decimal, without leading zeros.
pub open spec fn decimal(n: nat) -> Seq<char>
    decreases n,
{
    if n < 10 {
        seq![digit_char(n as int)]
    } else {
        decimal(n / 10).push(digit_char((n % 10) as int))
    }
}

/// The lower-case hexadecimal digit of `d`.
pub open spec fn hex_char(d: int) -> char {
    if d < 10 {
        (d + 48) as char
    } else {
        (d + 87) as char
    }
}

/// The last `width` hexadecimal digits of `n`.
pub open spec fn hex(n: nat, width: nat) -> Seq<char>
    decreases width,
{
    if width == 0 {
        Seq::empty()
    } else {
        hex(n / 16, (width - 1) as nat).push(hex_char((n % 16) as int))
    }
}

/// The value of a run of decimal digits.
pub open spec fn digits_value(s: Seq<char>) -> nat
    decreases s.len(),
{
    if s.len() == 0 {
        0
    } else {
        digits_value(s.drop_last()) * 10 + (s.last() as int - 48) as nat
    }
}

/// One or more decimal digits and nothing else.
pub open spec fn is_digits(s: Seq<char>) -> bool {
    s.len() > 0 && forall|i: int| 0 <= i < s.len() ==> '0' <= #[trigger] s[i] <= '9'
}

/// The 32-bit integer that `s` writes: an optional sign, then decimal digits.
pub open spec fn i32_value(s: Seq<char>) -> Option<i32> {
    let negative = s.len() > 0 && s[0] == '-';
    let signed = s.len() > 0 && (s[0] == '-' || s[0] == '+');
    let digits = if signed {
        s.drop_first()
    } else {
        s
    };
    let value = if negative {
        -digits_value(digits)
    } else {
        digits_value(digits) as int
    };
    if is_digits(digits) && i32::MIN <= value <= i32::MAX {
        Some(value as i32)
    } else {
        None
    }
}

/// Whether `c` is Unicode white space.
pub fn white_space(c: char) -> (r: bool)
    ensures
        r == is_white_space(c),
{
    ('\u{9}' <= c && c <= '\u{d}') || c == '\u{20}' || c == '\u{85}' || c == '\u{a0}' || c
        == '\u{1680}' || ('\u{2000}' <= c && c <= '\u{200a}') || c == '\u{2028}' || c == '\u{2029}'
        || c == '\u{202f}' || c == '\u{205f}' || c == '\u{3000}'
}

/// `s` without the white space at both ends.
pub fn trim(s: &str) -> (r: &str)
    ensures
        r@ == trimmed(s@),
{
    let chars = chars_of(s);
    let len: usize = chars.len();
    let mut start: usize = 0;
    proof {
        assert(s@.skip(0) =~= s@);
    }
    while start < len && white_space(chars[start])
        invariant
            start <= len,
            len == chars.len(),
            chars@ == s@,
            trim_start(s@) == trim_start(s@.skip(start as int)),
        decreases len - start,
    {
        proof {
            assert(s@.skip(start as int)[0] == s@[start as int]);
            assert(s@.skip(start as int).drop_first() =~= s@.skip(start + 1));
        }
        start += 1;
    }
    proof {
        if start < len {
            assert(s@.skip(start as int)[0] == s@[start as int]);
        }
        assert(trim_start(s@) == s@.skip(start as int));
    }
    let mut end: usize = len;
    proof {
        assert(s@.subrange(start as int, end as int) =~= s@.skip(start as int));
    }
    while end > start && white_space(chars[end - 1])
        invariant
            start <= end <= len,
            len == chars.len(),
            chars@ == s@,
            trim_end(trim_start(s@)) == trim_end(s@.subrange(start as int, end as int)),
        decreases end,
    {
        proof {
            assert(s@.subrange(start as int, end as int).last() == s@[end - 1]);
            assert(s@.subrange(start as int, end as int).drop_last() =~= s@.subrange(
                start as int,
                end - 1,
            ));
        }
        end -= 1;
    }
    proof {
        if end > start {
            assert(s@.subrange(start as int, end as int).last() == s@[end - 1]);
        }
    }
    s.substring_char(start, end)
}

/// `n` in decimal.
pub fn decimal_text(n: u128) -> (r: String)
    ensures
        r@ == decimal(n as nat),
    decreases n,
{
    if n < 10 {
        let mut r = String::new();
        r.push((n as u8 + 48) as char);
        proof {
            assert(r@ =~= decimal(n as nat));
        }
        r
    } else {
        let mut r = decimal_text(n / 10);
        r.push(((n % 10) as u8 + 48) as char);
        r
    }
}

/// The last `width` hexadecimal digits of `n`, in lower case.
pub fn hex_text(n: u64, width: usize) -> (r: String)
    ensures
        r@ == hex(n as nat, width as nat),
    decreases width,
{
    if width == 0 {
        String::new()
    } else {
        let mut r = hex_text(n / 16, width - 1);
        let d: u8 = (n % 16) as u8;
        if d < 10 {
            r.push((d + 48) as char);
        } else {
            r.push((d + 87) as char);
        }
        r
    }
}

/// The value of the digits from `start` on, capped just above the 32-bit range.
fn scan_digits(chars: &[char], start: usize) -> (r: Option<i64>)
    requires
        start < chars@.len(),
    ensures
        match r {
            Some(v) => is_digits(chars@.skip(start as int)) && (if digits_value(
                chars@.skip(start as int),
            ) <= 0x8000_0000 {
                v == digits_value(chars@.skip(start as int))
            } else {
                v == 0x8000_0001
            }),
            None => !is_digits(chars@.skip(start as int)),
        },
{
    let ghost digits = chars@.skip(start as int);
    let mut value: i64 = 0;
    let mut i: usize = start;
    while i < chars.len()
        invariant
            start <= i <= chars.len(),
            digits == chars@.skip(start as int),
            forall|j: int| 0 <= j < i - start ==> '0' <= #[trigger] digits[j] <= '9',
            0 <= value <= 0x8000_0001,
            if digits_value(digits.take(i - start)) <= 0x8000_0000 {
                value == digits_value(digits.take(i - start))
            } else {
                value == 0x8000_0001
            },
        decreases chars.len() - i,
    {
        let c: char = chars[i];
        proof {
            assert(digits[i - start] == c);
        }
        if c < '0' || c > '9' {
            return None;
        }
        proof {
            assert(digits.take(i + 1 - start).drop_last() =~= digits.take(i - start));
            assert(digits.take(i + 1 - start).last() == c);
        }
        value = value * 10 + (c as u8 - 48) as i64;
        if value > 0x8000_0000 {
            value = 0x8000_0001;
        }
        i += 1;
    }
    proof {
        assert(digits.take(i - start) =~= digits);
    }
    Some(value)
}

/// The 32-bit integer that `s` writes, if it writes one.
pub fn parse_i32(s: &str) -> (r: Option<i32>)
    ensures
        r == i32_value(s@),
{
    let chars = chars_of(s);
    let len: usize = chars.len();
    let negative: bool = len > 0 && chars[0] == '-';
    let signed: bool = len > 0 && (chars[0] == '-' || chars[0] == '+');
    let start: usize = if signed {
        1
    } else {
        0
    };
    proof {
        assert(s@.skip(start as int) =~= (if signed {
            s@.drop_first()
        } else {
            s@
        }));
    }
    if start == len {
        return None;
    }
    match scan_digits(&chars, start) {
        None => None,
        Some(value) => if value > 0x8000_0000 {
            None
        } else if negative {
            Some((-value) as i32)
        } else if value <= 0x7fff_ffff {
            Some(value as i32)
        } else {
            None
        },
    }
}

/// The `usize` that `s` writes: an optional plus sign, then decimal digits.
pub open spec fn usize_value(s: Seq<char>) -> Option<usize> {
    let digits = if s.len() > 0 && s[0] == '+' {
        s.drop_first()
    } else {
        s
    };
    if is_digits(digits) && digits_value(digits) <= usize::MAX {
        Some(digits_value(digits) as usize)
    } else {
        None
    }
}

/// The `usize` that `s` writes, if it writes one.
pub fn parse_usize(s: &str) -> (r: Option<usize>)
    ensures
        r == usize_value(s@),
{
    let chars = chars_of(s);
    let len: usize = chars.len();
    let start: usize = if len > 0 && chars[0] == '+' {
        1
    } else {
        0
    };
    let ghost digits = s@.skip(start as int);
    proof {
        assert(digits =~= (if s@.len() > 0 && s@[0] == '+' {
            s@.drop_first()
        } else {
            s@
        }));
    }
    if start == len {
        return None;
    }
    let limit: u128 = usize::MAX as u128 + 1;
    let mut value: u128 = 0;
    let mut i: usize = start;
    while i < len
        invariant
            start <= i <= len,
            len == chars@.len(),
            chars@ == s@,
            digits == s@.skip(start as int),
            digits == (if s@.len() > 0 && s@[0] == '+' {
                s@.drop_first()
            } else {
                s@
            }),
            limit == usize::MAX + 1,
            forall|j: int| 0 <= j < i - start ==> '0' <= #[trigger] digits[j] <= '9',
            value <= limit,
            if digits_value(digits.take(i - start)) < limit {
                value == digits_value(digits.take(i - start))
            } else {
                value == limit
            },
        decreases len - i,
    {
        let c: char = chars[i];
        proof {
            assert(digits[i - start] == c);
        }
        if c < '0' || c > '9' {
            return None;
        }
        proof {
            assert(digits.take(i + 1 - start).drop_last() =~= digits.take(i - start));
            assert(digits.take(i + 1 - start).last() == c);
        }
        value = value * 10 + (c as u8 - 48) as u128;
        if value > limit {
            value = limit;
        }
        i += 1;
    }
    proof {
        assert(digits.take(i - start) =~= digits);
    }
    if value == limit {
        None
    } else {
        Some(value as usize)
    }
}

/// Position of the first `pattern` in `s`, from position `from` on.
pub open spec fn find_from(s: Seq<char>, pattern: Seq<char>, from: int) -> Option<int>
    decreases s.len() - from + 1,
{
    if from < 0 || from + pattern.len() > s.len() {
        None
    } else if stands_at(s, pattern, from) {
        Some(from)
    } else {
        find_from(s, pattern, from + 1)
    }
}

/// Position of the first `pattern` in `s`.
pub open spec fn find(s: Seq<char>, pattern: Seq<char>) -> Option<int> {
    find_from(s, pattern, 0)
}

/// Position of the first `pattern` in `s`, counted in characters.
pub fn find_text(s: &str, pattern: &str) -> (r: Option<usize>)
    ensures
        match r {
            Some(i) => find(s@, pattern@) == Some(i as int) && i + pattern@.len() <= s@.len(),
            None => find(s@, pattern@) is None,
        },
{
    let a = chars_of(s);
    let b = chars_of(pattern);
    if b.len() > a.len() {
        return None;
    }
    let last: usize = a.len() - b.len();
    let mut i: usize = 0;
    loop
        invariant
            i <= last,
            last == a.len() - b.len(),
            a@ == s@,
            b@ == pattern@,
            find(s@, pattern@) == find_from(s@, pattern@, i as int),
        decreases last - i,
    {
        if pattern_at(&a, &b, i) {
            return Some(i);
        }
        if i == last {
            proof {
                assert(find_from(s@, pattern@, last + 1) is None);
            }
            return None;
        }
        i += 1;
    }
}

/// `s` with its first `pattern` replaced.
pub open spec fn with_first_replaced(s: Seq<char>, pattern: Seq<char>, by: Seq<char>) -> Seq<char> {
    match find(s, pattern) {
        Some(i) => s.take(i) + by + s.skip(i + pattern.len()),
        None => s,
    }
}

/// `s` with its first `pattern` replaced.
pub fn replace_first(s: &str, pattern: &str, by: &str) -> (r: String)
    ensures
        r@ == with_first_replaced(s@, pattern@, by@),
{
    match find_text(s, pattern) {
        Some(i) => {
            let total: usize = s.unicode_len();
            let mut r = take_text(s, i);
            r.append(by);
            let rest = skip_text(s, i + pattern.unicode_len());
            r.append(rest.as_str());
            r
        },
        None => s.to_owned(),
    }
}

/// The first `n` characters of `s`.
pub fn take_text(s: &str, n: usize) -> (r: String)
    requires
        n <= s@.len(),
    ensures
        r@ == s@.take(n as int),
{
    let r = s.substring_char(0, n).to_owned();
    proof {
        assert(r@ =~= s@.take(n as int));
    }
    r
}

/// What follows the first `n` characters of `s`.
pub fn skip_text(s: &str, n: usize) -> (r: String)
    requires
        n <= s@.len(),
    ensures
        r@ == s@.skip(n as int),
{
    let len: usize = s.unicode_len();
    let r = s.substring_char(n, len).to_owned();
    proof {
        assert(r@ =~= s@.skip(n as int));
    }
    r
}

/// Position of the last `pattern` in `s` that begins before `from`.
pub open spec fn find_back(s: Seq<char>, pattern: Seq<char>, from: int) -> Option<int>
    decreases from,
{
    if from <= 0 {
        None
    } else if stands_at(s, pattern, from - 1) {
        Some(from - 1)
    } else {
        find_back(s, pattern, from - 1)
    }
}

/// The part of `s` after its last `pattern`, or all of it.
pub open spec fn after_last_pattern(s: Seq<char>, pattern: Seq<char>) -> Seq<char> {
    match find_back(s, pattern, s.len() as int) {
        Some(i) => s.skip(i + pattern.len()),
        None => s,
    }
}

/// The part of `s` after its last `pattern`, or all of it.
pub fn tail_after_pattern(s: &str, pattern: &str) -> (r: String)
    ensures
        r@ == after_last_pattern(s@, pattern@),
{
    let a = chars_of(s);
    let b = chars_of(pattern);
    let mut i: usize = a.len();
    while i > 0
        invariant
            i <= a.len(),
            a@ == s@,
            b@ == pattern@,
            find_back(s@, pattern@, s@.len() as int) == find_back(s@, pattern@, i as int),
        decreases i,
    {
        if pattern_at(&a, &b, i - 1) {
            return skip_text(s, i - 1 + b.len());
        }
        i -= 1;
    }
    s.to_owned()
}

/// `s` without a suffix that it may have.
pub open spec fn without_suffix(s: Seq<char>, suffix: Seq<char>) -> Option<Seq<char>> {
    if suffix.is_suffix_of(s) {
        Some(s.take(s.len() - suffix.len()))
    } else {
        None
    }
}

/// `s` without a suffix that it may have.
pub fn strip_end(s: &str, suffix: &str) -> (r: Option<String>)
    ensures
        match r {
            Some(rest) => without_suffix(s@, suffix@) == Some(rest@),
            None => without_suffix(s@, suffix@) is None,
        },
{
    if ends_with(s, suffix) {
        let n: usize = s.unicode_len() - suffix.unicode_len();
        Some(take_text(s, n))
    } else {
        None
    }
}

/// `s` from its first character that is not `c` on.
pub open spec fn without_leading(s: Seq<char>, c: char) -> Seq<char>
    decreases s.len(),
{
    if s.len() > 0 && s[0] == c {
        without_leading(s.drop_first(), c)
    } else {
        s
    }
}

/// `s` from its first character that is not `c` on.
pub fn strip_leading(s: &str, c: char) -> (r: String)
    ensures
        r@ == without_leading(s@, c),
{
    let chars = chars_of(s);
    let mut i: usize = 0;
    proof {
        assert(s@.skip(0) =~= s@);
    }
    while i < chars.len() && chars[i] == c
        invariant
            i <= chars.len(),
            chars@ == s@,
            without_leading(s@, c) == without_leading(s@.skip(i as int), c),
        decreases chars.len() - i,
    {
        proof {
            assert(s@.skip(i as int).drop_first() =~= s@.skip(i + 1));
        }
        i += 1;
    }
    skip_text(s, i)
}

/// A text splits at its last separator: what was joined with one comes apart again, where the
/// second part has none.
pub proof fn law_joined_texts_come_apart(base: Seq<char>, c: char, tail: Seq<char>)
    requires
        !tail.contains(c),
    ensures
        split_last(base.push(c) + tail, c) == Some((base, tail)),
        after_last(base.push(c) + tail, c) == tail,
        split_last(tail, c) is None,
        after_last(tail, c) == tail,
{
    let s = base.push(c) + tail;
    lemma_last_index(s, c);
    assert(s[base.len() as int] == c);
    assert forall|i: int| base.len() < i < s.len() implies s[i] != c by {
        assert(s[i] == tail[i - base.len() - 1]);
    }
    assert(last_index(s, c) == base.len());
    assert(s.take(base.len() as int) =~= base);
    assert(s.skip(base.len() as int + 1) =~= tail);
    lemma_last_index(tail, c);
    assert(tail.skip(0) =~= tail);
}

/// Folding to lower case goes character by character, so that it can be done on parts; small
/// letters, digits and marks stay, and the capitals A to Z become small.
pub proof fn law_folding_goes_by_characters(a: Seq<char>, b: Seq<char>, i: int)
    requires
        0 <= i < a.len(),
    ensures
        lower(a + b) == lower(a) + lower(b),
        lower(lower(a)) == lower(a),
        'A' <= a[i] <= 'Z' ==> lower(a)[i] as int == a[i] as int + 32,
        !('A' <= a[i] <= 'Z') ==> lower(a)[i] == a[i],
        same_ignoring_case(a, lower(a)),
{
    assert(lower(a + b) =~= lower(a) + lower(b));
    assert forall|k: int| 0 <= k < a.len() implies lower(lower(a))[k] == lower(a)[k] by {}
    assert(lower(lower(a)) =~= lower(a));
}

/// A search ends at the first place from `from` on where the pattern stands, and without a result
/// only where it stands nowhere.
pub proof fn law_searches_find_the_first_place(s: Seq<char>, pattern: Seq<char>, from: int)
    requires
        0 <= from,
    ensures
        match find_from(s, pattern, from) {
            Some(i) => from <= i && i + pattern.len() <= s.len() && s.subrange(
                i,
                i + pattern.len(),
            ) == pattern && forall|j: int| from <= j < i ==> !#[trigger] stands_at(s, pattern, j),
            None => forall|j: int| from <= j ==> !#[trigger] stands_at(s, pattern, j),
        },
    decreases s.len() - from + 1,
{
    if from + pattern.len() <= s.len() && !stands_at(s, pattern, from) {
        law_searches_find_the_first_place(s, pattern, from + 1);
    }
}

} // verus!
