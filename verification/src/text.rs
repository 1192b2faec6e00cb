//! Text utilities: case folding, trimming, digit parsing and rendering.
//!
//! Case folding and trimming are delegated to `std` through trusted
//! wrappers; integer parsing and rendering are implemented and verified
//! here against exact character-level specifications.

use vstd::prelude::*;

verus! {

/// A character mapped to its ASCII lowercase equivalent.
pub open spec fn lower_char(c: char) -> char {
    if 65 <= c as u32 <= 90 {
        (((c as u32) + 32) as u32) as char
    } else {
        c
    }
}

/// A character mapped to its ASCII uppercase equivalent.
pub open spec fn upper_char(c: char) -> char {
    if 97 <= c as u32 <= 122 {
        (((c as u32) - 32) as u32) as char
    } else {
        c
    }
}

/// A string mapped characterwise to ASCII lowercase.
pub open spec fn lower_chars(s: Seq<char>) -> Seq<char> {
    s.map_values(|c: char| lower_char(c))
}

/// A string mapped characterwise to ASCII uppercase.
pub open spec fn upper_chars(s: Seq<char>) -> Seq<char> {
    s.map_values(|c: char| upper_char(c))
}

/// What `str::trim` returns: the string with leading and trailing
/// whitespace removed; a function of the characters alone.
pub uninterp spec fn trim_of(s: Seq<char>) -> Seq<char>;

/// Relies on `str::trim`: returns the input with leading and trailing
/// whitespace removed.
#[verifier::external_body]
pub fn trim<'a>(s: &'a str) -> (r: &'a str)
    ensures
        r@ == trim_of(s@),
{
    s.trim()
}

/// Relies on `str` equality from std: true exactly when the two strings
/// hold the same characters.
#[verifier::external_body]
pub fn str_eq(a: &str, b: &str) -> (r: bool)
    ensures
        r == (a@ == b@),
{
    a == b
}

/// Relies on `str::to_ascii_lowercase`: each character is mapped to its
/// ASCII lowercase equivalent; other characters are unchanged.
#[verifier::external_body]
pub fn to_ascii_lower(s: &str) -> (r: String)
    ensures
        r@ == lower_chars(s@),
{
    s.to_ascii_lowercase()
}

/// Relies on `str::to_ascii_uppercase`: each character is mapped to its
/// ASCII uppercase equivalent; other characters are unchanged.
#[verifier::external_body]
pub fn to_ascii_upper(s: &str) -> (r: String)
    ensures
        r@ == upper_chars(s@),
{
    s.to_ascii_uppercase()
}

/// A name normalized for case-insensitive lookup: trimmed, then folded to
/// ASCII lowercase.
pub open spec fn normalized(s: Seq<char>) -> Seq<char> {
    lower_chars(trim_of(s))
}

/// Trim the input and fold it to ASCII lowercase.
pub fn lower(s: &str) -> (r: String)
    ensures
        r@ == normalized(s@),
{
    to_ascii_lower(trim(s))
}

/// Whether `suffix` closes `s`.
pub open spec fn ends_with_chars(s: Seq<char>, suffix: Seq<char>) -> bool {
    &&& s.len() >= suffix.len()
    &&& s.subrange(s.len() - suffix.len(), s.len() as int) == suffix
}

/// Whether the string ends with the given suffix, compared character by
/// character.
pub fn str_ends_with(s: &str, suffix: &str) -> (r: bool)
    ensures
        r == ends_with_chars(s@, suffix@),
{
    let n = s.unicode_len();
    let m = suffix.unicode_len();
    if n < m {
        return false;
    }
    let mut j: usize = 0;
    while j < m
        invariant
            0 <= j <= m,
            m <= n,
            n == s@.len(),
            m == suffix@.len(),
            forall|k: int| 0 <= k < j ==> s@[n - m + k] == suffix@[k],
        decreases m - j,
    {
        if s.get_char(n - m + j) != suffix.get_char(j) {
            assert(s@.subrange(n - m, n as int)[j as int] != suffix@[j as int]);
            return false;
        }
        j += 1;
    }
    assert(s@.subrange(n - m, n as int) =~= suffix@);
    true
}

/// The first occurrence of `c` in `s` at or after index `i`.
pub open spec fn find_char_from(s: Seq<char>, c: char, i: int) -> Option<int>
    decreases s.len() - i,
{
    if i < 0 || i >= s.len() {
        None
    } else if s[i] == c {
        Some(i)
    } else {
        find_char_from(s, c, i + 1)
    }
}

/// Find the first occurrence of a character, searching from an index.
pub fn find_char(s: &str, c: char, from: usize) -> (r: Option<usize>)
    requires
        from <= s@.len(),
    ensures
        match r {
            Some(i) => find_char_from(s@, c, from as int) == Some(i as int) && from <= i
                < s@.len(),
            None => find_char_from(s@, c, from as int) is None,
        },
{
    let n = s.unicode_len();
    let mut i: usize = from;
    while i < n
        invariant
            from <= i <= n,
            n == s@.len(),
            find_char_from(s@, c, from as int) == find_char_from(s@, c, i as int),
        decreases n - i,
    {
        if s.get_char(i) == c {
            return Some(i);
        }
        i += 1;
    }
    None
}

/// The second `-`-separated segment of a string: what stands between the
/// first dash and the second (or the end), empty when there is no dash.
pub open spec fn second_dash_segment(s: Seq<char>) -> Seq<char> {
    match find_char_from(s, '-', 0) {
        None => Seq::empty(),
        Some(i) => match find_char_from(s, '-', i + 1) {
            None => s.subrange(i + 1, s.len() as int),
            Some(j) => s.subrange(i + 1, j),
        },
    }
}

/// Extract the second `-`-separated segment of a string.
pub fn dash_segment_1(s: &str) -> (r: String)
    ensures
        r@ == second_dash_segment(s@),
{
    let n = s.unicode_len();
    match find_char(s, '-', 0) {
        None => String::new(),
        Some(i) => {
            let seg = match find_char(s, '-', i + 1) {
                None => s.substring_char(i + 1, n),
                Some(j) => s.substring_char(i + 1, j),
            };
            seg.to_owned()
        },
    }
}

/// Whether a character is a decimal digit.
pub open spec fn is_digit_char(c: char) -> bool {
    48 <= c as u32 <= 57
}

/// The numeric value of a decimal digit character.
pub open spec fn digit_value(c: char) -> int {
    c as u32 - 48
}

/// Whether every character of the string is a decimal digit.
pub open spec fn all_digit_chars(s: Seq<char>) -> bool {
    forall|i: int| 0 <= i < s.len() ==> is_digit_char(#[trigger] s[i])
}

/// The value of a digit string read in base 10.
pub open spec fn digits_value(s: Seq<char>) -> int
    decreases s.len(),
{
    if s.len() == 0 {
        0
    } else {
        digits_value(s.drop_last()) * 10 + digit_value(s.last())
    }
}

/// The value of a digit string is never negative.
pub proof fn lemma_digits_value_nonneg(s: Seq<char>)
    requires
        all_digit_chars(s),
    ensures
        digits_value(s) >= 0,
    decreases s.len(),
{
    if s.len() > 0 {
        assert(all_digit_chars(s.drop_last())) by {
            assert(forall|i: int|
                0 <= i < s.len() - 1 ==> s.drop_last()[i] == #[trigger] s[i]);
        }
        lemma_digits_value_nonneg(s.drop_last());
        assert(is_digit_char(s.last()));
    }
}

/// Reading more digits never shrinks the value.
pub proof fn lemma_digits_value_prefix_le(s: Seq<char>, i: int)
    requires
        all_digit_chars(s),
        0 <= i <= s.len(),
    ensures
        digits_value(s.subrange(0, i)) <= digits_value(s),
    decreases s.len() - i,
{
    if i < s.len() {
        let t = s.subrange(0, i + 1);
        lemma_digits_value_prefix_le(s, i + 1);
        assert(t.drop_last() =~= s.subrange(0, i));
        assert(all_digit_chars(t)) by {
            assert(forall|k: int| 0 <= k < t.len() ==> t[k] == #[trigger] s[k]);
        }
        lemma_digits_value_nonneg(s.subrange(0, i));
        assert(digits_value(t) == digits_value(s.subrange(0, i)) * 10 + digit_value(t.last()));
        assert(is_digit_char(s[i]));
        assert(digits_value(s.subrange(0, i)) <= digits_value(t));
    } else {
        assert(s.subrange(0, i) =~= s);
    }
}

/// The value `str::parse::<u64>` assigns to a string: an optional leading
/// `+`, then at least one decimal digit, with the value within range.
pub open spec fn u64_string_value(s: Seq<char>) -> Option<u64> {
    let digits = if s.len() > 0 && s[0] == '+' {
        s.subrange(1, s.len() as int)
    } else {
        s
    };
    if digits.len() > 0 && all_digit_chars(digits) && digits_value(digits) <= u64::MAX {
        Some(digits_value(digits) as u64)
    } else {
        None
    }
}

/// Parse a decimal `u64`, accepting an optional leading `+`, rejecting
/// anything else that is not a digit, and rejecting out-of-range values.
pub fn parse_u64(s: &str) -> (r: Option<u64>)
    ensures
        r == u64_string_value(s@),
{
    let n = s.unicode_len();
    let start: usize = if n > 0 && s.get_char(0) == '+' {
        1
    } else {
        0
    };
    let ghost digits = if start == 1 {
        s@.subrange(1, n as int)
    } else {
        s@
    };
    if n == start {
        return None;
    }
    let mut i: usize = start;
    let mut acc: u64 = 0;
    while i < n
        invariant
            start <= i <= n,
            n == s@.len(),
            start == 0 || start == 1,
            start == 1 ==> n > 0 && s@[0] == '+',
            start == 0 ==> !(n > 0 && s@[0] == '+'),
            digits == (if start == 1 { s@.subrange(1, n as int) } else { s@ }),
            n > start,
            all_digit_chars(digits.subrange(0, i - start)),
            acc == digits_value(digits.subrange(0, i - start)),
        decreases n - i,
    {
        let c = s.get_char(i);
        let u = c as u32;
        let ghost prefix = digits.subrange(0, i - start);
        assert(digits[i - start] == s@[i as int]);
        if u < 48 || u > 57 {
            assert(!is_digit_char(digits[i - start]));
            return None;
        }
        let d = (u - 48) as u64;
        let ghost prefix1 = digits.subrange(0, i + 1 - start);
        assert(prefix1.drop_last() =~= prefix);
        assert(prefix1.last() == digits[i - start]);
        assert(all_digit_chars(prefix1)) by {
            assert(forall|k: int|
                0 <= k < prefix1.len() ==> prefix1[k] == #[trigger] digits[k]);
        }
        assert(digits_value(prefix1) == acc * 10 + d);
        let next = match acc.checked_mul(10) {
            Some(v) => v.checked_add(d),
            None => None,
        };
        match next {
            Some(v) => {
                acc = v;
            },
            None => {
                proof {
                    if all_digit_chars(digits) {
                        lemma_digits_value_prefix_le(digits, i + 1 - start);
                        assert(digits_value(digits) > u64::MAX);
                    }
                }
                return None;
            },
        }
        i += 1;
    }
    assert(digits.subrange(0, n - start) =~= digits);
    Some(acc)
}

/// The value `str::parse::<i64>` assigns to a string: an optional leading
/// sign, then at least one decimal digit, with the value within range.
pub open spec fn i64_string_value(s: Seq<char>) -> Option<i64> {
    let neg = s.len() > 0 && s[0] == '-';
    let digits = if s.len() > 0 && (s[0] == '-' || s[0] == '+') {
        s.subrange(1, s.len() as int)
    } else {
        s
    };
    if digits.len() > 0 && all_digit_chars(digits) {
        let v = if neg {
            -digits_value(digits)
        } else {
            digits_value(digits)
        };
        if i64::MIN <= v <= i64::MAX {
            Some(v as i64)
        } else {
            None
        }
    } else {
        None
    }
}

/// Parse a decimal `i64`, accepting an optional leading sign, rejecting
/// anything else that is not a digit, and rejecting out-of-range values.
pub fn parse_i64(s: &str) -> (r: Option<i64>)
    ensures
        r == i64_string_value(s@),
{
    let n = s.unicode_len();
    let neg = n > 0 && s.get_char(0) == '-';
    let start: usize = if n > 0 && (s.get_char(0) == '-' || s.get_char(0) == '+') {
        1
    } else {
        0
    };
    let ghost digits = if start == 1 {
        s@.subrange(1, n as int)
    } else {
        s@
    };
    if n == start {
        return None;
    }
    let mut i: usize = start;
    let mut acc: u64 = 0;
    while i < n
        invariant
            start <= i <= n,
            n == s@.len(),
            start == 0 || start == 1,
            start == 1 ==> n > 0 && (s@[0] == '-' || s@[0] == '+'),
            start == 0 ==> !(n > 0 && (s@[0] == '-' || s@[0] == '+')),
            digits == (if start == 1 { s@.subrange(1, n as int) } else { s@ }),
            n > start,
            all_digit_chars(digits.subrange(0, i - start)),
            acc == digits_value(digits.subrange(0, i - start)),
        decreases n - i,
    {
        let c = s.get_char(i);
        let u = c as u32;
        let ghost prefix = digits.subrange(0, i - start);
        assert(digits[i - start] == s@[i as int]);
        if u < 48 || u > 57 {
            assert(!is_digit_char(digits[i - start]));
            return None;
        }
        let d = (u - 48) as u64;
        let ghost prefix1 = digits.subrange(0, i + 1 - start);
        assert(prefix1.drop_last() =~= prefix);
        assert(prefix1.last() == digits[i - start]);
        assert(all_digit_chars(prefix1)) by {
            assert(forall|k: int|
                0 <= k < prefix1.len() ==> prefix1[k] == #[trigger] digits[k]);
        }
        assert(digits_value(prefix1) == acc * 10 + d);
        let next = match acc.checked_mul(10) {
            Some(v) => v.checked_add(d),
            None => None,
        };
        match next {
            Some(v) => {
                acc = v;
            },
            None => {
                proof {
                    if all_digit_chars(digits) {
                        lemma_digits_value_prefix_le(digits, i + 1 - start);
                        assert(digits_value(digits) > u64::MAX);
                    }
                }
                return None;
            },
        }
        i += 1;
    }
    assert(digits.subrange(0, n - start) =~= digits);
    if neg {
        if acc <= 9_223_372_036_854_775_808u64 {
            Some((-(acc as i128)) as i64)
        } else {
            None
        }
    } else {
        if acc <= 9_223_372_036_854_775_807u64 {
            Some(acc as i64)
        } else {
            None
        }
    }
}

/// The decimal digit character for a value below ten.
pub open spec fn digit_char(n: int) -> char {
    if n == 0 {
        '0'
    } else if n == 1 {
        '1'
    } else if n == 2 {
        '2'
    } else if n == 3 {
        '3'
    } else if n == 4 {
        '4'
    } else if n == 5 {
        '5'
    } else if n == 6 {
        '6'
    } else if n == 7 {
        '7'
    } else if n == 8 {
        '8'
    } else {
        '9'
    }
}

/// The decimal rendering of a nonnegative integer, most significant digit
/// first, without leading zeros (a lone zero for zero).
pub open spec fn dec_str_of(n: nat) -> Seq<char>
    decreases n,
{
    if n < 10 {
        seq![digit_char(n as int)]
    } else {
        dec_str_of(n / 10).push(digit_char((n % 10) as int))
    }
}

/// The single-character string for a decimal digit.
fn digit_str(d: u64) -> (r: &'static str)
    requires
        d < 10,
    ensures
        r@ == seq![digit_char(d as int)],
{
    let r: &'static str = match d {
        0 => "0",
        1 => "1",
        2 => "2",
        3 => "3",
        4 => "4",
        5 => "5",
        6 => "6",
        7 => "7",
        8 => "8",
        _ => "9",
    };
    proof {
        reveal_strlit("0");
        reveal_strlit("1");
        reveal_strlit("2");
        reveal_strlit("3");
        reveal_strlit("4");
        reveal_strlit("5");
        reveal_strlit("6");
        reveal_strlit("7");
        reveal_strlit("8");
        reveal_strlit("9");
        assert(r@ =~= seq![digit_char(d as int)]);
    }
    r
}

/// Render a `u64` in decimal.
pub fn u64_to_dec_str(n: u64) -> (r: String)
    ensures
        r@ == dec_str_of(n as nat),
    decreases n,
{
    if n < 10 {
        digit_str(n).to_owned()
    } else {
        let prefix = u64_to_dec_str(n / 10);
        let r = prefix.concat(digit_str(n % 10));
        assert(r@ =~= dec_str_of((n / 10) as nat).push(digit_char((n % 10) as int)));
        r
    }
}

/// The decimal rendering of an integer, with a leading minus sign when it
/// is negative.
pub open spec fn int_str_of(v: int) -> Seq<char> {
    if v < 0 {
        seq!['-'] + dec_str_of((-v) as nat)
    } else {
        dec_str_of(v as nat)
    }
}

/// Render an `i64` in decimal.
pub fn i64_to_dec_str(v: i64) -> (r: String)
    ensures
        r@ == int_str_of(v as int),
{
    if v >= 0 {
        u64_to_dec_str(v as u64)
    } else {
        let m: u64 = (-(v as i128)) as u64;
        let minus: &'static str = "-";
        proof {
            reveal_strlit("-");
        }
        let r = minus.to_owned().concat(u64_to_dec_str(m).as_str());
        assert(minus@ =~= seq!['-']);
        assert(r@ =~= seq!['-'] + dec_str_of(m as nat));
        r
    }
}

} // verus!
