//! Bounding boxes as text: `[x, y, w, h]`.
//!
//! The text of a box is an opening bracket, the four numbers in decimal
//! notation, separated by a comma and a space, and a closing bracket. What
//! is read as a box is a little wider: each number may stand between any
//! number of spaces.

use super::geometry::BB;
use crate::result::RvError;
use vstd::prelude::*;
use vstd::string::*;

verus! {

pub open spec fn is_digit(c: char) -> bool {
    '0' <= c <= '9'
}

/// The decimal digit of `d`, for `d < 10`.
pub open spec fn digit_char(d: int) -> char {
    if d == 0 {
        '0'
    } else if d == 1 {
        '1'
    } else if d == 2 {
        '2'
    } else if d == 3 {
        '3'
    } else if d == 4 {
        '4'
    } else if d == 5 {
        '5'
    } else if d == 6 {
        '6'
    } else if d == 7 {
        '7'
    } else if d == 8 {
        '8'
    } else {
        '9'
    }
}

/// The value of a decimal digit.
pub open spec fn digit_value(c: char) -> int {
    c as u32 - '0' as u32
}

/// The decimal notation of `n`, without leading zeros.
pub open spec fn decimal(n: nat) -> Seq<char>
    decreases n,
{
    if n < 10 {
        seq![digit_char(n as int)]
    } else {
        decimal(n / 10).push(digit_char((n % 10) as int))
    }
}

/// The number that a text of decimal digits stands for.
pub open spec fn decimal_value(digits: Seq<char>) -> int
    decreases digits.len(),
{
    if digits.len() == 0 {
        0
    } else {
        decimal_value(digits.drop_last()) * 10 + digit_value(digits.last())
    }
}

/// A text of one or more decimal digits.
pub open spec fn is_number(s: Seq<char>) -> bool {
    s.len() > 0 && forall|i: int| 0 <= i < s.len() ==> is_digit(#[trigger] s[i])
}

/// The index of the first character from `from` on that is not a space,
/// at most `to`.
pub open spec fn skip_spaces(s: Seq<char>, from: int, to: int) -> int
    decreases to - from,
{
    if from >= to || s[from] != ' ' {
        from
    } else {
        skip_spaces(s, from + 1, to)
    }
}

/// The index behind the last character before `to` that is not a space,
/// at least `from`.
pub open spec fn skip_spaces_back(s: Seq<char>, from: int, to: int) -> int
    decreases to - from,
{
    if to <= from || s[to - 1] != ' ' {
        to
    } else {
        skip_spaces_back(s, from, to - 1)
    }
}

/// The index of the first comma from `from` on, or `to` if there is none
/// before it.
pub open spec fn first_comma(s: Seq<char>, from: int, to: int) -> int
    decreases to - from,
{
    if from >= to || s[from] == ',' {
        from
    } else {
        first_comma(s, from + 1, to)
    }
}

/// The number that stands between the indices `from` and `to`, with any
/// number of spaces before and behind it. `None` if something else stands
/// there, or a number that is no `u32`.
pub open spec fn field_value(s: Seq<char>, from: int, to: int) -> Option<u32> {
    let start = skip_spaces(s, from, to);
    let end = skip_spaces_back(s, start, to);
    let digits = s.subrange(start, end);
    if start < end && is_number(digits) && decimal_value(digits) <= u32::MAX {
        Some(decimal_value(digits) as u32)
    } else {
        None
    }
}

/// The box that a text stands for: the text starts with `[` and ends with
/// `]`, and between them stand four numbers, each a `u32`, separated by
/// three commas. `None` for any other text.
pub open spec fn spec_parse_bb(s: Seq<char>) -> Option<BB> {
    if s.len() < 2 || s[0] != '[' || s.last() != ']' {
        None
    } else {
        let end = s.len() - 1;
        let c1 = first_comma(s, 1, end);
        let c2 = first_comma(s, c1 + 1, end);
        let c3 = first_comma(s, c2 + 1, end);
        if c1 >= end || c2 >= end || c3 >= end || first_comma(s, c3 + 1, end) < end {
            None
        } else {
            match (
                field_value(s, 1, c1),
                field_value(s, c1 + 1, c2),
                field_value(s, c2 + 1, c3),
                field_value(s, c3 + 1, end),
            ) {
                (Some(x), Some(y), Some(w), Some(h)) => Some(BB { x, y, w, h }),
                _ => None,
            }
        }
    }
}

/// The text of a box.
pub open spec fn spec_bb_text(bb: BB) -> Seq<char> {
    seq!['['] + decimal(bb.x as nat) + seq![',', ' '] + decimal(bb.y as nat) + seq![',', ' ']
        + decimal(bb.w as nat) + seq![',', ' '] + decimal(bb.h as nat) + seq![']']
}

fn digit_str(d: u32) -> (r: &'static str)
    requires
        d < 10,
    ensures
        r@ == seq![digit_char(d as int)],
{
    proof {
        reveal_strlit("0");
        reveal_strlit("1");
        reveal_strlit("2");
        reveal_strlit("3");
        reveal_strlit("4");
        reveal_strlit("5");
        reveal_strlit("6");
        reveal_strlit("7");
        reveal_strlit("8");
        reveal_strlit("9");
    }
    let r = if d == 0 {
        "0"
    } else if d == 1 {
        "1"
    } else if d == 2 {
        "2"
    } else if d == 3 {
        "3"
    } else if d == 4 {
        "4"
    } else if d == 5 {
        "5"
    } else if d == 6 {
        "6"
    } else if d == 7 {
        "7"
    } else if d == 8 {
        "8"
    } else {
        "9"
    };
    assert(r@ =~= seq![digit_char(d as int)]);
    r
}

fn push_decimal(out: &mut String, n: u32)
    ensures
        final(out)@ == old(out)@ + decimal(n as nat),
    decreases n,
{
    if n >= 10 {
        push_decimal(out, n / 10);
    }
    out.append(digit_str(n % 10));
    assert(out@ =~= old(out)@ + decimal(n as nat));
}

fn find_comma(s: &str, from: usize, to: usize) -> (r: usize)
    requires
        from <= to <= s@.len(),
    ensures
        r == first_comma(s@, from as int, to as int),
        from <= r <= to,
{
    let mut i = from;
    while i < to && s.get_char(i) != ','
        invariant
            from <= i <= to <= s@.len(),
            first_comma(s@, from as int, to as int) == first_comma(s@, i as int, to as int),
        decreases to - i,
    {
        i += 1;
    }
    i
}

fn parse_field(s: &str, from: usize, to: usize) -> (r: Option<u32>)
    requires
        from <= to <= s@.len(),
    ensures
        r == field_value(s@, from as int, to as int),
{
    let mut start = from;
    while start < to && s.get_char(start) == ' '
        invariant
            from <= start <= to <= s@.len(),
            skip_spaces(s@, from as int, to as int) == skip_spaces(s@, start as int, to as int),
        decreases to - start,
    {
        start += 1;
    }
    let mut end = to;
    while end > start && s.get_char(end - 1) == ' '
        invariant
            start <= end <= to <= s@.len(),
            skip_spaces_back(s@, start as int, to as int) == skip_spaces_back(
                s@,
                start as int,
                end as int,
            ),
        decreases end - start,
    {
        end -= 1;
    }
    assert(start == skip_spaces(s@, from as int, to as int));
    assert(end == skip_spaces_back(s@, start as int, to as int));
    if start >= end {
        return None;
    }
    let ghost digits = s@.subrange(start as int, end as int);
    let mut value: u64 = 0;
    let mut i = start;
    while i < end
        invariant
            start <= i <= end <= s@.len(),
            from <= start,
            end <= to,
            start < end,
            start == skip_spaces(s@, from as int, to as int),
            end == skip_spaces_back(s@, start as int, to as int),
            digits == s@.subrange(start as int, end as int),
            is_number(digits.subrange(0, i - start)) || i == start,
            value == decimal_value(digits.subrange(0, i - start)),
            value <= u32::MAX,
        decreases end - i,
    {
        let c = s.get_char(i);
        let ghost shorter = digits.subrange(0, i - start);
        let ghost longer = digits.subrange(0, i + 1 - start);
        proof {
            assert(longer.drop_last() =~= shorter);
            assert(longer.last() == c);
        }
        if !(c >= '0' && c <= '9') {
            proof {
                assert(digits[i - start] == c);
                assert(!is_number(digits));
            }
            return None;
        }
        let d = (c as u32 - '0' as u32) as u64;
        value = value * 10 + d;
        if value > u32::MAX as u64 {
            proof {
                if is_number(digits) {
                    lemma_decimal_value_grows(digits, i + 1 - start);
                    assert(digits.subrange(0, digits.len() as int) =~= digits);
                }
            }
            return None;
        }
        proof {
            assert forall|k: int| 0 <= k < longer.len() implies is_digit(#[trigger] longer[k]) by {
                if k < shorter.len() {
                    assert(longer[k] == shorter[k]);
                }
            }
        }
        i += 1;
    }
    proof {
        assert(digits.subrange(0, i - start) =~= digits);
    }
    Some(value as u32)
}

/// The value of a number is at least the value of each of its beginnings.
pub proof fn lemma_decimal_value_grows(digits: Seq<char>, n: int)
    requires
        0 <= n <= digits.len(),
        forall|i: int| 0 <= i < digits.len() ==> is_digit(#[trigger] digits[i]),
    ensures
        0 <= decimal_value(digits.subrange(0, n)) <= decimal_value(
            digits.subrange(0, digits.len() as int),
        ),
    decreases digits.len() - n,
{
    lemma_decimal_value_nonnegative(digits.subrange(0, n));
    if n < digits.len() {
        lemma_decimal_value_grows(digits, n + 1);
        let longer = digits.subrange(0, n + 1);
        assert(longer.drop_last() =~= digits.subrange(0, n));
        assert(is_digit(longer.last())) by {
            assert(longer.last() == digits[n]);
        }
    }
}

/// The value of a text of digits is not negative.
pub proof fn lemma_decimal_value_nonnegative(digits: Seq<char>)
    requires
        forall|i: int| 0 <= i < digits.len() ==> is_digit(#[trigger] digits[i]),
    ensures
        0 <= decimal_value(digits),
    decreases digits.len(),
{
    if digits.len() > 0 {
        lemma_decimal_value_nonnegative(digits.drop_last());
        assert(is_digit(digits.last()));
    }
}

/// The decimal notation of a number is a text of digits, and stands for
/// the number.
pub proof fn lemma_decimal_is_number(n: nat)
    ensures
        is_number(decimal(n)),
        decimal_value(decimal(n)) == n,
    decreases n,
{
    if n < 10 {
        let d = decimal(n);
        assert(d.drop_last() =~= Seq::<char>::empty());
        assert(decimal_value(d.drop_last()) == 0);
        assert(d.last() == digit_char(n as int));
    } else {
        lemma_decimal_is_number(n / 10);
        let d = decimal(n);
        let head = decimal(n / 10);
        assert(d.drop_last() =~= head);
        assert(d.last() == digit_char((n % 10) as int));
        assert forall|i: int| 0 <= i < d.len() implies is_digit(#[trigger] d[i]) by {
            if i < head.len() {
                assert(d[i] == head[i]);
            }
        }
    }
}

/// The first comma from `from` on stands at `k` if no comma stands before
/// `k` and one stands at `k`, or `k` is the end.
pub proof fn lemma_first_comma_at(s: Seq<char>, from: int, k: int, to: int)
    requires
        0 <= from <= k <= to <= s.len(),
        forall|i: int| from <= i < k ==> #[trigger] s[i] != ',',
        k == to || s[k] == ',',
    ensures
        first_comma(s, from, to) == k,
    decreases k - from,
{
    if from < k {
        lemma_first_comma_at(s, from + 1, k, to);
    }
}

/// The spaces from `from` on end at `k` if spaces stand before `k` and
/// something else stands at `k`, or `k` is the end.
pub proof fn lemma_skip_spaces_at(s: Seq<char>, from: int, k: int, to: int)
    requires
        0 <= from <= k <= to <= s.len(),
        forall|i: int| from <= i < k ==> #[trigger] s[i] == ' ',
        k == to || s[k] != ' ',
    ensures
        skip_spaces(s, from, to) == k,
    decreases k - from,
{
    if from < k {
        lemma_skip_spaces_at(s, from + 1, k, to);
    }
}

/// Between `from` and `to` stands the decimal notation of `n`, after
/// `pad` spaces: the field has the value `n`.
proof fn lemma_field_of_decimal(s: Seq<char>, from: int, pad: int, to: int, n: u32)
    requires
        0 <= from <= from + pad < to <= s.len(),
        forall|i: int| from <= i < from + pad ==> #[trigger] s[i] == ' ',
        s.subrange(from + pad, to) == decimal(n as nat),
    ensures
        field_value(s, from, to) == Some(n),
        forall|i: int| from + pad <= i < to ==> #[trigger] s[i] != ',',
{
    lemma_decimal_is_number(n as nat);
    let d = decimal(n as nat);
    let start = from + pad;
    assert forall|i: int| start <= i < to implies is_digit(#[trigger] s[i]) by {
        assert(s[i] == d[i - start]);
    }
    assert(is_digit(s[start]));
    lemma_skip_spaces_at(s, from, start, to);
    assert(is_digit(s[to - 1]));
    assert(skip_spaces_back(s, start, to) == to);
}

/// The text of a box is read as the box.
pub proof fn lemma_text_round_trip(bb: BB)
    ensures
        spec_parse_bb(spec_bb_text(bb)) == Some(bb),
{
    let x = decimal(bb.x as nat);
    let y = decimal(bb.y as nat);
    let w = decimal(bb.w as nat);
    let h = decimal(bb.h as nat);
    lemma_decimal_is_number(bb.x as nat);
    lemma_decimal_is_number(bb.y as nat);
    lemma_decimal_is_number(bb.w as nat);
    lemma_decimal_is_number(bb.h as nat);
    let s = spec_bb_text(bb);
    let c1 = 1 + x.len() as int;
    let c2 = c1 + 2 + y.len();
    let c3 = c2 + 2 + w.len();
    let end = c3 + 2 + h.len();
    assert(s.len() == end + 1);
    assert(s[0] == '[');
    assert(s[end] == ']');
    assert(s[c1] == ',' && s[c1 + 1] == ' ');
    assert(s[c2] == ',' && s[c2 + 1] == ' ');
    assert(s[c3] == ',' && s[c3 + 1] == ' ');
    assert(s.subrange(1, c1) =~= x);
    assert(s.subrange(c1 + 2, c2) =~= y);
    assert(s.subrange(c2 + 2, c3) =~= w);
    assert(s.subrange(c3 + 2, end) =~= h);
    lemma_field_of_decimal(s, 1, 0, c1, bb.x);
    lemma_field_of_decimal(s, c1 + 1, 1, c2, bb.y);
    lemma_field_of_decimal(s, c2 + 1, 1, c3, bb.w);
    lemma_field_of_decimal(s, c3 + 1, 1, end, bb.h);
    lemma_first_comma_at(s, 1, c1, end);
    lemma_first_comma_at(s, c1 + 1, c2, end);
    lemma_first_comma_at(s, c2 + 1, c3, end);
    lemma_first_comma_at(s, c3 + 1, end, end);
}

impl BB {
    /// The text of the box, `[x, y, w, h]`.
    pub fn to_string(&self) -> (s: String)
        ensures
            s@ == spec_bb_text(*self),
    {
        proof {
            reveal_strlit("[");
            reveal_strlit(", ");
            reveal_strlit("]");
        }
        let mut out = String::from_str("[");
        push_decimal(&mut out, self.x);
        out.append(", ");
        push_decimal(&mut out, self.y);
        out.append(", ");
        push_decimal(&mut out, self.w);
        out.append(", ");
        push_decimal(&mut out, self.h);
        out.append("]");
        assert(out@ =~= spec_bb_text(*self));
        out
    }

    /// Reads a box from its text. Any text that `spec_parse_bb` does not
    /// take for a box is refused.
    pub fn from_text(s: &str) -> (r: Result<BB, RvError>)
        ensures
            match spec_parse_bb(s@) {
                Some(bb) => r == Ok::<BB, RvError>(bb),
                None => r == Err::<BB, RvError>(RvError::ParseBb),
            },
    {
        let n = s.unicode_len();
        if n < 2 || s.get_char(0) != '[' || s.get_char(n - 1) != ']' {
            return Err(RvError::ParseBb);
        }
        let end = n - 1;
        let c1 = find_comma(s, 1, end);
        if c1 >= end {
            return Err(RvError::ParseBb);
        }
        let c2 = find_comma(s, c1 + 1, end);
        if c2 >= end {
            return Err(RvError::ParseBb);
        }
        let c3 = find_comma(s, c2 + 1, end);
        if c3 >= end {
            return Err(RvError::ParseBb);
        }
        if find_comma(s, c3 + 1, end) < end {
            return Err(RvError::ParseBb);
        }
        let x = parse_field(s, 1, c1);
        let y = parse_field(s, c1 + 1, c2);
        let w = parse_field(s, c2 + 1, c3);
        let h = parse_field(s, c3 + 1, end);
        match (x, y, w, h) {
            (Some(x), Some(y), Some(w), Some(h)) => Ok(BB { x, y, w, h }),
            _ => Err(RvError::ParseBb),
        }
    }
}

impl std::str::FromStr for BB {
    type Err = RvError;

    /// Reads a box from its text, as `BB::from_text` does.
    fn from_str(s: &str) -> (r: Result<Self, RvError>)
        ensures
            match spec_parse_bb(s@) {
                Some(bb) => r == Ok::<BB, RvError>(bb),
                None => r == Err::<BB, RvError>(RvError::ParseBb),
            },
    {
        BB::from_text(s)
    }
}

} // verus!
