//! Verified helpers for the character-level work the engine needs:
//! case-insensitive comparison of currency codes, substring search for the
//! account-binding marker, digit parsing and decimal formatting.

use vstd::prelude::*;

verus! {

/// The code point of `c` with an ASCII upper-case letter folded to lower case.
pub open spec fn lower_code(c: char) -> u32 {
    if 65 <= c as u32 && c as u32 <= 90 {
        (c as u32 + 32) as u32
    } else {
        c as u32
    }
}

/// Character sequences of equal length whose characters agree up to ASCII case.
pub open spec fn eq_ignore_case(a: Seq<char>, b: Seq<char>) -> bool {
    a.len() == b.len() && forall|i: int| 0 <= i < a.len() ==> lower_code(a[i]) == lower_code(b[i])
}

/// Case-insensitive equality does not depend on the order of its sides.
pub proof fn lemma_eq_ignore_case_symm(a: Seq<char>, b: Seq<char>)
    ensures
        eq_ignore_case(a, b) == eq_ignore_case(b, a),
{
    if eq_ignore_case(a, b) {
        assert forall|i: int| 0 <= i < b.len() implies lower_code(b[i]) == lower_code(a[i]) by {
            assert(lower_code(a[i]) == lower_code(b[i]));
        }
    }
    if eq_ignore_case(b, a) {
        assert forall|i: int| 0 <= i < a.len() implies lower_code(a[i]) == lower_code(b[i]) by {
            assert(lower_code(b[i]) == lower_code(a[i]));
        }
    }
}

/// Case-insensitive comparison, as the engine compares currency codes.
pub fn str_eq_ignore_case(a: &str, b: &str) -> (r: bool)
    ensures
        r == eq_ignore_case(a@, b@),
{
    let alen: usize = a.unicode_len();
    let blen: usize = b.unicode_len();
    if alen != blen {
        return false;
    }
    let mut i: usize = 0;
    while i < alen
        invariant
            alen == a@.len(),
            blen == b@.len(),
            alen == blen,
            i <= alen,
            forall|j: int| 0 <= j < i ==> lower_code(a@[j]) == lower_code(b@[j]),
        decreases alen - i,
    {
        let ca: char = a.get_char(i);
        let cb: char = b.get_char(i);
        let la: u32 = if 65 <= ca as u32 && ca as u32 <= 90 { ca as u32 + 32 } else { ca as u32 };
        let lb: u32 = if 65 <= cb as u32 && cb as u32 <= 90 { cb as u32 + 32 } else { cb as u32 };
        if la != lb {
            return false;
        }
        i = i + 1;
    }
    true
}

/// Character-exact string equality.
pub fn str_eq(a: &str, b: &str) -> (r: bool)
    ensures
        r == (a@ == b@),
{
    let alen: usize = a.unicode_len();
    let blen: usize = b.unicode_len();
    if alen != blen {
        return false;
    }
    let mut i: usize = 0;
    while i < alen
        invariant
            alen == a@.len(),
            blen == b@.len(),
            alen == blen,
            i <= alen,
            forall|j: int| 0 <= j < i ==> a@[j] == b@[j],
        decreases alen - i,
    {
        if a.get_char(i) != b.get_char(i) {
            return false;
        }
        i = i + 1;
    }
    assert(a@ =~= b@);
    true
}

/// `pat` occurs in `s` at position `i`.
pub open spec fn match_at(s: Seq<char>, pat: Seq<char>, i: int) -> bool {
    0 <= i && i + pat.len() <= s.len() && s.subrange(i, i + pat.len() as int) == pat
}

/// The first position at or after `i` where `pat` occurs in `s`.
pub open spec fn first_match_from(s: Seq<char>, pat: Seq<char>, i: int) -> Option<int>
    recommends
        0 <= i,
    decreases s.len() - i + 1,
{
    if i + pat.len() > s.len() || i > s.len() {
        None
    } else if match_at(s, pat, i) {
        Some(i)
    } else {
        first_match_from(s, pat, i + 1)
    }
}

/// Whether `pat` occurs in `s` at position `i`, checked character by character.
fn match_chars_at(s: &str, pat: &str, i: usize) -> (r: bool)
    requires
        i + pat@.len() <= s@.len(),
    ensures
        r == match_at(s@, pat@, i as int),
{
    let slen: usize = s.unicode_len();
    let plen: usize = pat.unicode_len();
    let mut j: usize = 0;
    while j < plen
        invariant
            slen == s@.len(),
            plen == pat@.len(),
            i + plen <= s@.len(),
            j <= plen,
            forall|k: int| 0 <= k < j ==> s@[i + k] == pat@[k],
        decreases plen - j,
    {
        if s.get_char(i + j) != pat.get_char(j) {
            assert(s@.subrange(i as int, i + pat@.len() as int)[j as int] != pat@[j as int]);
            return false;
        }
        j = j + 1;
    }
    assert(s@.subrange(i as int, i + pat@.len() as int) =~= pat@);
    true
}

/// Finds the first occurrence of `pat` in `s` at or after position `from`.
/// Positions count characters, not bytes.
pub fn find_str(s: &str, pat: &str, from: usize) -> (r: Option<usize>)
    ensures
        match r {
            Some(i) => from <= i && match_at(s@, pat@, i as int) && first_match_from(
                s@,
                pat@,
                from as int,
            ) == Some(i as int),
            None => first_match_from(s@, pat@, from as int) is None,
        },
{
    let slen: usize = s.unicode_len();
    let plen: usize = pat.unicode_len();
    if from > slen || plen > slen - from {
        return None;
    }
    if plen == 0 {
        assert(s@.subrange(from as int, from as int) =~= pat@);
        return Some(from);
    }
    let bound: usize = slen - plen;
    let mut i: usize = from;
    while i <= bound
        invariant
            slen == s@.len(),
            plen == pat@.len(),
            1 <= plen <= slen,
            bound == slen - plen,
            from <= i,
            i <= bound + 1,
            first_match_from(s@, pat@, from as int) == first_match_from(s@, pat@, i as int),
        decreases bound + 1 - i,
    {
        if match_chars_at(s, pat, i) {
            return Some(i);
        }
        assert(first_match_from(s@, pat@, i as int) == first_match_from(s@, pat@, i + 1));
        i = i + 1;
    }
    None
}

/// The value of an ASCII digit, or 10 for any other character.
pub open spec fn digit_value(c: char) -> int {
    if 48 <= c as u32 && c as u32 <= 57 {
        c as u32 - 48
    } else {
        10
    }
}

/// `c` is an ASCII digit.
pub open spec fn is_digit(c: char) -> bool {
    48 <= c as u32 && c as u32 <= 57
}

/// Reads one character as a digit; any non-digit reads as `None`.
pub fn read_digit(c: char) -> (r: Option<u32>)
    ensures
        match r {
            Some(v) => is_digit(c) && v == digit_value(c),
            None => !is_digit(c),
        },
{
    let code: u32 = c as u32;
    if 48 <= code && code <= 57 {
        Some(code - 48)
    } else {
        None
    }
}

/// Every character of `s` is an ASCII digit.
pub open spec fn all_digits(s: Seq<char>) -> bool {
    forall|i: int| 0 <= i < s.len() ==> is_digit(#[trigger] s[i])
}

/// The value of `s` read as decimal digits, most significant first.
pub open spec fn digits_value(s: Seq<char>) -> int
    decreases s.len(),
{
    if s.len() == 0 {
        0
    } else {
        10 * digits_value(s.drop_last()) + digit_value(s.last())
    }
}

pub proof fn lemma_digits_value_nonneg(s: Seq<char>)
    ensures
        digits_value(s) >= 0,
    decreases s.len(),
{
    if s.len() > 0 {
        lemma_digits_value_nonneg(s.drop_last());
    }
}

/// A digit string's value only grows as digits are appended.
pub proof fn lemma_digits_value_take_le(s: Seq<char>, i: int)
    requires
        0 <= i <= s.len(),
    ensures
        digits_value(s.take(i)) <= digits_value(s),
    decreases s.len() - i,
{
    if i < s.len() {
        lemma_digits_value_take_le(s, i + 1);
        assert(s.take(i + 1).drop_last() =~= s.take(i));
        lemma_digits_value_nonneg(s.take(i));
    } else {
        assert(s.take(i) =~= s);
    }
}

/// Ten to the `n`.
pub open spec fn pow10(n: nat) -> int
    decreases n,
{
    if n == 0 {
        1
    } else {
        10 * pow10((n - 1) as nat)
    }
}

/// A string of `n` digits has a value below ten to the `n`.
pub proof fn lemma_digits_value_bound(s: Seq<char>)
    requires
        all_digits(s),
    ensures
        0 <= digits_value(s) < pow10(s.len()),
    decreases s.len(),
{
    if s.len() > 0 {
        assert(all_digits(s.drop_last())) by {
            assert(forall|i: int|
                0 <= i < s.len() - 1 ==> s.drop_last()[i] == #[trigger] s[i]);
        }
        lemma_digits_value_bound(s.drop_last());
        assert(is_digit(s.last()));
    }
}

/// The decimal digit character for `d`.
pub open spec fn spec_digit_char(d: int) -> char {
    if d == 0 {
        '0'
    } else if d == 1 {
        '1'
    } else if d == 2 {
        '2'
    } else if d == 3 {
        '3'
    } else if d == 4 {
        '4'
    } else if d == 5 {
        '5'
    } else if d == 6 {
        '6'
    } else if d == 7 {
        '7'
    } else if d == 8 {
        '8'
    } else {
        '9'
    }
}

/// A one-character string slice holding the decimal digit `d`.
pub fn digit_str(d: u64) -> (r: &'static str)
    requires
        d < 10,
    ensures
        r@ =~= seq![spec_digit_char(d as int)],
{
    proof {
        reveal_strlit("0");
        reveal_strlit("1");
        reveal_strlit("2");
        reveal_strlit("3");
        reveal_strlit("4");
        reveal_strlit("5");
        reveal_strlit("6");
        reveal_strlit("7");
        reveal_strlit("8");
        reveal_strlit("9");
    }
    match d {
        0 => "0",
        1 => "1",
        2 => "2",
        3 => "3",
        4 => "4",
        5 => "5",
        6 => "6",
        7 => "7",
        8 => "8",
        _ => "9",
    }
}

/// The decimal digits of `n`, most significant first, no leading zeros.
pub open spec fn spec_digits(n: nat) -> Seq<char>
    decreases n,
{
    if n < 10 {
        seq![spec_digit_char(n as int)]
    } else {
        spec_digits(n / 10) + seq![spec_digit_char((n % 10) as int)]
    }
}

/// Formats `n` in decimal.
pub fn u64_to_string(n: u64) -> (r: String)
    ensures
        r@ =~= spec_digits(n as nat),
    decreases n,
{
    if n < 10 {
        String::from_str(digit_str(n))
    } else {
        assert(n / 10 < n) by (nonlinear_arith)
            requires
                n >= 10,
        ;
        assert((n as nat) / 10 == (n / 10) as nat);
        let mut s: String = u64_to_string(n / 10);
        s.append(digit_str(n % 10));
        s
    }
}

/// The decimal form of `v`: a minus sign for negative values, then digits.
pub open spec fn spec_decimal_i64(v: int) -> Seq<char> {
    if v < 0 {
        seq!['-'] + spec_digits((-v) as nat)
    } else {
        spec_digits(v as nat)
    }
}

/// Formats `v` in decimal, with a leading minus sign when negative.
pub fn i64_to_string(v: i64) -> (r: String)
    ensures
        r@ =~= spec_decimal_i64(v as int),
{
    if v < 0 {
        let m: u64 = (-(v as i128)) as u64;
        proof {
            reveal_strlit("-");
        }
        let mut s: String = String::from_str("-");
        s.append(u64_to_string(m).as_str());
        s
    } else {
        u64_to_string(v as u64)
    }
}

/// The Unicode White_Space characters, the set a whitespace word split
/// recognizes.
pub open spec fn is_space(c: char) -> bool {
    let p = c as u32;
    ||| (0x9 <= p && p <= 0xD)
    ||| p == 0x20
    ||| p == 0x85
    ||| p == 0xA0
    ||| p == 0x1680
    ||| (0x2000 <= p && p <= 0x200A)
    ||| p == 0x2028
    ||| p == 0x2029
    ||| p == 0x202F
    ||| p == 0x205F
    ||| p == 0x3000
}

/// The first position at or after `i` holding a non-space character, or
/// the length when all that follows is spaces.
pub open spec fn first_non_space(s: Seq<char>, i: int) -> int
    recommends
        0 <= i,
    decreases s.len() - i + 1,
{
    if i < 0 || i >= s.len() {
        s.len() as int
    } else if is_space(s[i]) {
        first_non_space(s, i + 1)
    } else {
        i
    }
}

/// The first position at or after `i` holding a space, or the length when
/// none follows.
pub open spec fn first_space(s: Seq<char>, i: int) -> int
    recommends
        0 <= i,
    decreases s.len() - i + 1,
{
    if i < 0 || i >= s.len() {
        s.len() as int
    } else if !is_space(s[i]) {
        first_space(s, i + 1)
    } else {
        i
    }
}

/// The first whitespace-separated word of `s`, `None` when `s` holds only
/// whitespace.
pub open spec fn first_word(s: Seq<char>) -> Option<Seq<char>> {
    let start = first_non_space(s, 0);
    if start >= s.len() {
        None
    } else {
        Some(s.subrange(start, first_space(s, start)))
    }
}

proof fn lemma_first_non_space_range(s: Seq<char>, i: int)
    requires
        0 <= i <= s.len(),
    ensures
        i <= first_non_space(s, i) <= s.len(),
    decreases s.len() - i,
{
    if i < s.len() && is_space(s[i]) {
        lemma_first_non_space_range(s, i + 1);
    }
}

proof fn lemma_first_space_range(s: Seq<char>, i: int)
    requires
        0 <= i <= s.len(),
    ensures
        i <= first_space(s, i) <= s.len(),
    decreases s.len() - i,
{
    if i < s.len() && !is_space(s[i]) {
        lemma_first_space_range(s, i + 1);
    }
}

/// Whether one character has the Unicode White_Space property.
fn char_is_space(c: char) -> (r: bool)
    ensures
        r == is_space(c),
{
    let p: u32 = c as u32;
    (0x9 <= p && p <= 0xD) || p == 0x20 || p == 0x85 || p == 0xA0 || p == 0x1680 || (0x2000 <= p
        && p <= 0x200A) || p == 0x2028 || p == 0x2029 || p == 0x202F || p == 0x205F || p == 0x3000
}

/// Splits the first whitespace-separated word off `s`, as the payee
/// heuristics take the leading token of a description.
#[verifier::loop_isolation(false)]
pub fn split_first_word(s: &str) -> (r: Option<String>)
    ensures
        match r {
            Some(w) => first_word(s@) == Some(w@),
            None => first_word(s@) is None,
        },
{
    let n: usize = s.unicode_len();
    let mut start: usize = 0;
    while start < n && char_is_space(s.get_char(start))
        invariant
            start <= n,
            first_non_space(s@, 0) == first_non_space(s@, start as int),
        decreases n - start,
    {
        assert(first_non_space(s@, start as int) == first_non_space(s@, start + 1));
        start = start + 1;
    }
    proof {
        lemma_first_non_space_range(s@, start as int);
    }
    if start == n {
        return None;
    }
    let mut end: usize = start;
    while end < n && !char_is_space(s.get_char(end))
        invariant
            start <= end <= n,
            first_space(s@, start as int) == first_space(s@, end as int),
        decreases n - end,
    {
        assert(first_space(s@, end as int) == first_space(s@, end + 1));
        end = end + 1;
    }
    proof {
        lemma_first_space_range(s@, end as int);
    }
    Some(String::from_str(s.substring_char(start, end)))
}

/// `s` with every leading repetition of `prefix` removed.
pub open spec fn strip_prefix_repeated(s: Seq<char>, prefix: Seq<char>) -> Seq<char>
    decreases s.len(),
{
    if prefix.len() >= 1 && match_at(s, prefix, 0) {
        strip_prefix_repeated(s.skip(prefix.len() as int), prefix)
    } else {
        s
    }
}

/// Removes every leading repetition of `prefix` from `s`.
#[verifier::loop_isolation(false)]
pub fn trim_prefix_repeated<'a>(s: &'a str, prefix: &str) -> (r: &'a str)
    ensures
        r@ == strip_prefix_repeated(s@, prefix@),
{
    let n: usize = s.unicode_len();
    let plen: usize = prefix.unicode_len();
    if plen == 0 {
        return s;
    }
    if plen > n {
        assert(!match_at(s@, prefix@, 0));
        return s;
    }
    let bound: usize = n - plen;
    let mut start: usize = 0;
    assert(s@.skip(0) =~= s@);
    while start <= bound && match_chars_at(s, prefix, start)
        invariant
            start <= n,
            strip_prefix_repeated(s@, prefix@) == strip_prefix_repeated(
                s@.skip(start as int),
                prefix@,
            ),
        decreases n - start,
    {
        proof {
            assert(match_at(s@.skip(start as int), prefix@, 0)) by {
                assert(s@.skip(start as int).subrange(0, prefix@.len() as int) =~= s@.subrange(
                    start as int,
                    start + prefix@.len(),
                ));
            }
            assert(s@.skip(start as int).skip(plen as int) =~= s@.skip(start + plen));
        }
        start = start + plen;
    }
    proof {
        if start > bound {
            assert(!match_at(s@.skip(start as int), prefix@, 0));
        } else {
            assert(!match_at(s@.skip(start as int), prefix@, 0)) by {
                assert(s@.skip(start as int).subrange(0, prefix@.len() as int) =~= s@.subrange(
                    start as int,
                    start + prefix@.len(),
                ));
            }
        }
        assert(s@.skip(start as int) =~= s@.subrange(start as int, n as int));
    }
    s.substring_char(start, n)
}

/// A milli-unit amount written as whole units with three decimal places:
/// a sign when negative, the units, a point, and exactly three digits.
pub open spec fn spec_milli_string(v: int) -> Seq<char> {
    let a = if v < 0 {
        -v
    } else {
        v
    };
    let sign: Seq<char> = if v < 0 {
        seq!['-']
    } else {
        Seq::empty()
    };
    sign + spec_digits((a / 1000) as nat) + seq![
        '.',
        spec_digit_char((a % 1000) / 100),
        spec_digit_char(((a % 1000) / 10) % 10),
        spec_digit_char((a % 1000) % 10),
    ]
}

/// Formats a milli-unit amount as units with three decimal places.
pub fn milli_to_string(v: i64) -> (r: String)
    ensures
        r@ =~= spec_milli_string(v as int),
{
    let a: u64 = if v < 0 {
        (-(v as i128)) as u64
    } else {
        v as u64
    };
    proof {
        reveal_strlit("-");
        reveal_strlit(".");
    }
    let mut s: String = if v < 0 {
        String::from_str("-")
    } else {
        String::new()
    };
    s.append(u64_to_string(a / 1000).as_str());
    s.append(".");
    let frac: u64 = a % 1000;
    s.append(digit_str(frac / 100));
    s.append(digit_str((frac / 10) % 10));
    s.append(digit_str(frac % 10));
    s
}

} // verus!
