//! The natural order of texts such as file names: runs of digits are
//! compared as numbers, so that `s2` comes before `s10`.

use regex::Regex;
use std::cmp::Ordering;
use vstd::prelude::*;
use vstd::string::*;

verus! {

pub open spec fn is_ascii_digit(c: char) -> bool {
    '0' <= c <= '9'
}

/// The index at which the run of digits ends that starts at `from`.
pub open spec fn digits_end(s: Seq<char>, from: int) -> int
    decreases s.len() - from,
{
    if from < 0 || from >= s.len() || !is_ascii_digit(s[from]) {
        from
    } else {
        digits_end(s, from + 1)
    }
}

/// The index of the first digit of the number between `from` and `to`
/// that is not a leading zero. Of a number of zeros only the last digit is
/// left.
pub open spec fn zeros_end(s: Seq<char>, from: int, to: int) -> int
    decreases to - from,
{
    if from + 1 >= to || s[from] != '0' {
        from
    } else {
        zeros_end(s, from + 1, to)
    }
}

/// How the first `n` characters of `s1` from `i1` on compare to those of
/// `s2` from `i2` on, character by character: -1 if they come first, 1 if
/// they come last, 0 if they are the same.
pub open spec fn chars_order(s1: Seq<char>, i1: int, s2: Seq<char>, i2: int, n: int) -> int
    decreases n,
{
    if n <= 0 {
        0
    } else if s1[i1] < s2[i2] {
        -1
    } else if s1[i1] > s2[i2] {
        1
    } else {
        chars_order(s1, i1 + 1, s2, i2 + 1, n - 1)
    }
}

/// How the numbers at `idx` in `s1` and in `s2` compare: the one with
/// more digits behind its leading zeros is the greater one, and of two
/// with the same number of digits the one whose digits come last.
pub open spec fn numbers_order(s1: Seq<char>, s2: Seq<char>, idx: int) -> int {
    let e1 = digits_end(s1, idx);
    let e2 = digits_end(s2, idx);
    let z1 = zeros_end(s1, idx, e1);
    let z2 = zeros_end(s2, idx, e2);
    if e1 - z1 < e2 - z2 {
        -1
    } else if e1 - z1 > e2 - z2 {
        1
    } else {
        chars_order(s1, z1, s2, z2, e1 - z1)
    }
}

/// The natural order of `s1` and `s2` from the index `idx` on.
///
/// Where both texts have a digit at `idx`, the numbers that start there
/// decide if they differ; if they are the same, the comparison goes on
/// behind as many characters as the number has digits without its leading
/// zeros. Elsewhere the characters at `idx` decide if they differ. Where
/// one of the texts ends, the shorter text comes first.
pub open spec fn natural_order(s1: Seq<char>, s2: Seq<char>, idx: int) -> int
    decreases s1.len() - idx,
{
    if idx < 0 || idx >= s1.len() || idx >= s2.len() {
        if s1.len() < s2.len() {
            -1
        } else if s1.len() > s2.len() {
            1
        } else {
            0
        }
    } else if is_ascii_digit(s1[idx]) && is_ascii_digit(s2[idx]) {
        let order = numbers_order(s1, s2, idx);
        let width = digits_end(s1, idx) - zeros_end(s1, idx, digits_end(s1, idx));
        if order != 0 {
            order
        } else if width >= 1 && idx + width <= s1.len() {
            natural_order(s1, s2, idx + width)
        } else {
            0
        }
    } else if s1[idx] < s2[idx] {
        -1
    } else if s1[idx] > s2[idx] {
        1
    } else {
        natural_order(s1, s2, idx + 1)
    }
}

/// The run of digits that starts at `from` ends behind `from`, within the
/// text, and at a character that is no digit.
pub proof fn lemma_digits_end(s: Seq<char>, from: int)
    requires
        0 <= from <= s.len(),
    ensures
        from <= digits_end(s, from) <= s.len(),
        from < s.len() && is_ascii_digit(s[from]) ==> from < digits_end(s, from),
        forall|i: int| from <= i < digits_end(s, from) ==> is_ascii_digit(#[trigger] s[i]),
        digits_end(s, from) < s.len() ==> !is_ascii_digit(s[digits_end(s, from)]),
    decreases s.len() - from,
{
    if from < s.len() && is_ascii_digit(s[from]) {
        lemma_digits_end(s, from + 1);
    }
}

/// What stands behind `to` does not change where a run of digits ends
/// that ends before `to`.
proof fn lemma_digits_end_of_prefix(s: Seq<char>, from: int, to: int)
    requires
        0 <= from <= to <= s.len(),
        to == s.len() || !is_ascii_digit(s[to]),
    ensures
        digits_end(s.subrange(from, to), 0) + from == digits_end(s, from),
{
    lemma_digits_end_shift(s.subrange(from, to), s, 0, from, to);
}

/// Two texts that agree from `ia` and `ib` on, as far as the first of
/// them goes, have runs of digits of one length there, if the second has
/// no digit where the first ends.
proof fn lemma_digits_end_shift(a: Seq<char>, b: Seq<char>, ia: int, ib: int, to: int)
    requires
        0 <= ia <= a.len(),
        0 <= ib <= to <= b.len(),
        a.len() - ia == to - ib,
        forall|i: int| ia <= i < a.len() ==> #[trigger] a[i] == b[i - ia + ib],
        to == b.len() || !is_ascii_digit(b[to]),
    ensures
        digits_end(a, ia) - ia == digits_end(b, ib) - ib,
    decreases a.len() - ia,
{
    if ia < a.len() {
        assert(a[ia] == b[ib]);
        if is_ascii_digit(a[ia]) {
            assert forall|i: int| ia + 1 <= i < a.len() implies #[trigger] a[i] == b[i - (ia + 1)
                + (ib + 1)] by {
                assert(a[i] == b[i - ia + ib]);
            }
            lemma_digits_end_shift(a, b, ia + 1, ib + 1, to);
        }
    }
}

/// Calls `Regex::new` with the pattern `(\d+)`, then `Regex::captures`
/// with the haystack, and returns the text of the whole match: the first
/// run of digits of the haystack. For a haystack of ASCII characters that
/// starts with a digit, this is the run of ASCII digits at its start.
/// Nothing is claimed where the pattern is not compiled or no match is
/// found.
#[verifier::external_body]
fn first_number(haystack: &str) -> (r: Option<String>)
    requires
        is_ascii(haystack),
        haystack@.len() > 0,
        is_ascii_digit(haystack@[0]),
    ensures
        r matches Some(t) ==> t@ == haystack@.subrange(0, digits_end(haystack@, 0)),
{
    let re = Regex::new(r"(\d+)").ok()?;
    let caps = re.captures(haystack)?;
    Some(caps[0].to_string())
}

fn is_digit_char(c: char) -> (b: bool)
    ensures
        b == is_ascii_digit(c),
{
    c >= '0' && c <= '9'
}

fn scan_digits(s: &str, from: usize, n: usize) -> (r: usize)
    requires
        from <= n,
        n == s@.len(),
    ensures
        r == digits_end(s@, from as int),
        from <= r <= n,
{
    let mut i = from;
    while i < n && is_digit_char(s.get_char(i))
        invariant
            from <= i <= n,
            n == s@.len(),
            digits_end(s@, from as int) == digits_end(s@, i as int),
        decreases n - i,
    {
        i += 1;
    }
    i
}

fn ascii_end(s: &str, from: usize, n: usize) -> (r: usize)
    requires
        from <= n,
        n == s@.len(),
    ensures
        from <= r <= n,
        forall|i: int| from <= i < r ==> '\0' <= #[trigger] s@[i] <= '\u{7f}',
        r == n || !is_ascii_digit(s@[r as int]),
{
    let mut i = from;
    while i < n && s.get_char(i) <= '\u{7f}'
        invariant
            from <= i <= n,
            n == s@.len(),
            forall|k: int| from <= k < i ==> '\0' <= #[trigger] s@[k] <= '\u{7f}',
        decreases n - i,
    {
        i += 1;
    }
    i
}

/// The index at which the run of digits ends that starts at `from`, as the
/// regular expression finds it in the ASCII text from `from` on.
fn digit_run_end(s: &str, from: usize, n: usize) -> (r: usize)
    requires
        from < n,
        n == s@.len(),
        is_ascii_digit(s@[from as int]),
    ensures
        r == digits_end(s@, from as int),
        from < r <= n,
{
    let to = ascii_end(s, from, n);
    let haystack = s.substring_char(from, to);
    proof {
        lemma_digits_end(s@, from as int);
        lemma_digits_end_of_prefix(s@, from as int, to as int);
        lemma_digits_end(haystack@, 0);
        assert(haystack@[0] == s@[from as int]);
        assert forall|i: int| 0 <= i < haystack@.len() implies '\0' <= #[trigger] haystack@[i]
            <= '\u{7f}' by {
            assert(haystack@[i] == s@[from + i]);
        }
    }
    match first_number(haystack) {
        Some(number) => from + number.as_str().unicode_len(),
        None => scan_digits(s, from, n),
    }
}

fn skip_zeros(s: &str, from: usize, to: usize) -> (r: usize)
    requires
        from < to <= s@.len(),
    ensures
        r == zeros_end(s@, from as int, to as int),
        from <= r < to,
{
    let mut i = from;
    while i + 1 < to && s.get_char(i) == '0'
        invariant
            from <= i < to <= s@.len(),
            zeros_end(s@, from as int, to as int) == zeros_end(s@, i as int, to as int),
        decreases to - i,
    {
        i += 1;
    }
    i
}

fn order_of_chars(s1: &str, i1: usize, s2: &str, i2: usize, n: usize) -> (r: i8)
    requires
        i1 + n <= s1@.len() <= usize::MAX,
        i2 + n <= s2@.len() <= usize::MAX,
    ensures
        r == chars_order(s1@, i1 as int, s2@, i2 as int, n as int),
{
    let mut k: usize = 0;
    while k < n
        invariant
            k <= n,
            i1 + n <= s1@.len() <= usize::MAX,
            i2 + n <= s2@.len() <= usize::MAX,
            chars_order(s1@, i1 as int, s2@, i2 as int, n as int) == chars_order(
                s1@,
                i1 + k,
                s2@,
                i2 + k,
                n - k,
            ),
        decreases n - k,
    {
        let c1 = s1.get_char(i1 + k);
        let c2 = s2.get_char(i2 + k);
        if c1 < c2 {
            return -1;
        }
        if c1 > c2 {
            return 1;
        }
        k += 1;
    }
    0
}

/// The natural order of two texts as a sign: -1 if `s1` comes first, 1 if
/// it comes last, 0 if neither does.
pub fn natural_order_sign(s1: &str, s2: &str) -> (r: i8)
    ensures
        r == natural_order(s1@, s2@, 0),
{
    let n1 = s1.unicode_len();
    let n2 = s2.unicode_len();
    let mut idx: usize = 0;
    while idx < n1 && idx < n2
        invariant
            n1 == s1@.len(),
            n2 == s2@.len(),
            natural_order(s1@, s2@, 0) == natural_order(s1@, s2@, idx as int),
        decreases n1 - idx,
    {
        let c1 = s1.get_char(idx);
        let c2 = s2.get_char(idx);
        if is_digit_char(c1) && is_digit_char(c2) {
            let e1 = digit_run_end(s1, idx, n1);
            let e2 = digit_run_end(s2, idx, n2);
            let z1 = skip_zeros(s1, idx, e1);
            let z2 = skip_zeros(s2, idx, e2);
            let order = if e1 - z1 < e2 - z2 {
                -1
            } else if e1 - z1 > e2 - z2 {
                1
            } else {
                order_of_chars(s1, z1, s2, z2, e1 - z1)
            };
            if order != 0 {
                return order;
            }
            idx = idx + (e1 - z1);
        } else {
            if c1 < c2 {
                return -1;
            }
            if c1 > c2 {
                return 1;
            }
            idx += 1;
        }
    }
    if n1 < n2 {
        -1
    } else if n1 > n2 {
        1
    } else {
        0
    }
}

/// The ordering that a sign stands for.
pub open spec fn ordering_of(sign: int) -> Ordering {
    if sign < 0 {
        Ordering::Less
    } else if sign > 0 {
        Ordering::Greater
    } else {
        Ordering::Equal
    }
}

/// Compares two texts in their natural order: see `natural_order`.
pub fn natural_cmp(s1: &str, s2: &str) -> (r: Ordering)
    ensures
        r == ordering_of(natural_order(s1@, s2@, 0)),
{
    let sign = natural_order_sign(s1, s2);
    if sign < 0 {
        Ordering::Less
    } else if sign > 0 {
        Ordering::Greater
    } else {
        Ordering::Equal
    }
}

} // verus!
