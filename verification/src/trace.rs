//! The lines of an access trace: one request per line, a dirty flag and a
//! page identifier, separated by one comma or by one space.

use crate::define::PageId;
use vstd::prelude::*;

verus! {

/// The byte `0`, the first of the decimal digits.
pub const DIGIT_0: u8 = 48;

/// The byte `9`, the last of the decimal digits.
pub const DIGIT_9: u8 = 57;

/// The byte `+`.
pub const PLUS: u8 = 43;

/// The byte `-`.
pub const MINUS: u8 = 45;

/// The byte `,`.
pub const COMMA: u8 = 44;

/// The byte of a space.
pub const SPACE: u8 = 32;

/// The number that a run of decimal digits writes.
pub open spec fn digits_value(digits: Seq<u8>) -> int
    decreases digits.len(),
{
    if digits.len() == 0 {
        0
    } else {
        digits_value(digits.drop_last()) * 10 + (digits.last() - DIGIT_0)
    }
}

/// Whether every byte is a decimal digit.
pub open spec fn all_digits(digits: Seq<u8>) -> bool {
    forall|i: int| 0 <= i < digits.len() ==> DIGIT_0 <= #[trigger] digits[i] <= DIGIT_9
}

/// The digits of a number, without the sign that may stand before them.
pub open spec fn unsigned_part(text: Seq<u8>) -> Seq<u8> {
    if text.len() > 0 && (text[0] == PLUS || text[0] == MINUS) {
        text.skip(1)
    } else {
        text
    }
}

/// The 32-bit integer that `text` writes in decimal: an optional `+` or `-`,
/// then at least one digit and nothing else. `None` where `text` is not of
/// that form or the number does not fit.
pub open spec fn decimal_i32(text: Seq<u8>) -> Option<i32> {
    let digits = unsigned_part(text);
    let value = if text.len() > 0 && text[0] == MINUS {
        -digits_value(digits)
    } else {
        digits_value(digits)
    };
    if digits.len() > 0 && all_digits(digits) && i32::MIN <= value <= i32::MAX {
        Some(value as i32)
    } else {
        None
    }
}

/// Whether `sep` stands in `line` at `i` and nowhere else.
pub open spec fn only_at(line: Seq<u8>, sep: u8, i: int) -> bool {
    &&& 0 <= i < line.len()
    &&& line[i] == sep
    &&& forall|j: int| 0 <= j < line.len() && j != i ==> line[j] != sep
}

/// The byte that separates the fields of `line`: a comma if the line has
/// one, else a space.
pub open spec fn separator(line: Seq<u8>) -> u8 {
    if line.contains(COMMA) {
        COMMA
    } else {
        SPACE
    }
}

/// The request that a trace line makes: whether the page will be modified,
/// and which page it is.
///
/// The line must have two fields, with one separator between them. A flag
/// that is no number counts as zero, and any number but zero asks for a
/// modification. A page identifier that is no number, or a negative one,
/// makes the line no request.
pub open spec fn trace_request(line: Seq<u8>) -> Option<(bool, PageId)> {
    let sep = separator(line);
    if exists|i: int| only_at(line, sep, i) {
        let i = choose|i: int| only_at(line, sep, i);
        let is_dirty = match decimal_i32(line.take(i)) {
            Some(flag) => flag != 0,
            None => false,
        };
        match decimal_i32(line.skip(i + 1)) {
            Some(page_id) => if page_id >= 0 {
                Some((is_dirty, page_id))
            } else {
                None
            },
            None => None,
        }
    } else {
        None
    }
}

/// A run of digits writes a number that is no smaller than what any of its
/// beginnings writes.
proof fn lemma_digits_value_grows(digits: Seq<u8>, k: int)
    requires
        all_digits(digits),
        0 <= k <= digits.len(),
    ensures
        0 <= digits_value(digits.take(k)) <= digits_value(digits),
    decreases digits.len() - k,
{
    if k == digits.len() {
        assert(digits.take(k) =~= digits);
        lemma_digits_value_nonnegative(digits);
    } else {
        let longer = digits.take(k + 1);
        assert(longer.drop_last() =~= digits.take(k));
        lemma_digits_value_grows(digits, k + 1);
        lemma_digits_value_nonnegative(digits.take(k));
    }
}

/// A run of digits writes a number that is not negative.
proof fn lemma_digits_value_nonnegative(digits: Seq<u8>)
    requires
        all_digits(digits),
    ensures
        0 <= digits_value(digits),
    decreases digits.len(),
{
    if digits.len() > 0 {
        lemma_digits_value_nonnegative(digits.drop_last());
    }
}

/// Reads the bytes of `line` from `start` up to `end` as a decimal 32-bit integer.
pub fn parse_decimal_i32(line: &[u8], start: usize, end: usize) -> (number: Option<i32>)
    requires
        start <= end <= line@.len(),
    ensures
        number == decimal_i32(line@.subrange(start as int, end as int)),
{
    let ghost text = line@.subrange(start as int, end as int);
    if start == end {
        return None;
    }
    let negative = line[start] == MINUS;
    let from = if line[start] == PLUS || line[start] == MINUS {
        start + 1
    } else {
        start
    };
    let ghost digits = unsigned_part(text);
    if from == end {
        return None;
    }
    let mut value: i64 = 0;
    let mut i: usize = from;
    while i < end
        invariant
            start <= from <= i <= end <= line@.len(),
            from < end,
            text == line@.subrange(start as int, end as int),
            digits == unsigned_part(text),
            digits == line@.subrange(from as int, end as int),
            forall|j: int| 0 <= j < i - from ==> DIGIT_0 <= #[trigger] digits[j] <= DIGIT_9,
            value == digits_value(digits.take(i - from)),
            0 <= value <= 0x8000_0000,
        decreases end - i,
    {
        let byte = line[i];
        if byte < DIGIT_0 || byte > DIGIT_9 {
            assert(digits[i - from] == byte);
            return None;
        }
        let ghost longer = digits.take(i - from + 1);
        assert(longer.drop_last() =~= digits.take(i - from));
        value = value * 10 + (byte - DIGIT_0) as i64;
        i = i + 1;
        if value > 0x8000_0000 {
            proof {
                // Whatever follows, the number is out of range once this much of it is.
                if all_digits(digits) {
                    lemma_digits_value_grows(digits, i - from);
                }
            }
            return None;
        }
    }
    assert(digits.take(i - from) =~= digits);
    if negative {
        Some((-value) as i32)
    } else if value > 0x7fff_ffff {
        None
    } else {
        Some(value as i32)
    }
}

/// Reads one line of a trace, without its line end, as [`trace_request`] says.
pub fn parse_trace_line(line: &[u8]) -> (request: Option<(bool, PageId)>)
    ensures
        request == trace_request(line@),
{
    let n = line.len();
    let mut has_comma = false;
    let mut k: usize = 0;
    while k < n
        invariant
            k <= n,
            n == line@.len(),
            has_comma <==> exists|j: int| 0 <= j < k && line@[j] == COMMA,
        decreases n - k,
    {
        if line[k] == COMMA {
            has_comma = true;
        }
        k = k + 1;
    }
    let sep: u8 = if has_comma {
        COMMA
    } else {
        SPACE
    };
    assert(sep == separator(line@));
    let mut at: Option<usize> = None;
    let mut count: usize = 0;
    let mut i: usize = 0;
    while i < n
        invariant
            i <= n,
            n == line@.len(),
            count <= i,
            count == 0 ==> forall|j: int| 0 <= j < i ==> line@[j] != sep,
            count == 1 ==> at is Some && at.unwrap() < i && line@[at.unwrap() as int] == sep
                && forall|j: int| 0 <= j < i && j != at.unwrap() ==> line@[j] != sep,
            count >= 2 ==> exists|a: int, b: int|
                0 <= a < b < i && line@[a] == sep && line@[b] == sep,
        decreases n - i,
    {
        if line[i] == sep {
            if count == 0 {
                at = Some(i);
            } else if count == 1 {
                assert(line@[at.unwrap() as int] == sep && line@[i as int] == sep);
            } else {
                let ghost (a, b) = choose|a: int, b: int|
                    0 <= a < b < i && line@[a] == sep && line@[b] == sep;
                assert(0 <= a < b < i + 1 && line@[a] == sep && line@[b] == sep);
            }
            count = count + 1;
        } else if count >= 2 {
            let ghost (a, b) = choose|a: int, b: int|
                0 <= a < b < i && line@[a] == sep && line@[b] == sep;
            assert(0 <= a < b < i + 1 && line@[a] == sep && line@[b] == sep);
        }
        i = i + 1;
    }
    if count != 1 {
        proof {
            if exists|p: int| only_at(line@, sep, p) {
                let p = choose|p: int| only_at(line@, sep, p);
                if count >= 2 {
                    let (a, b) = choose|a: int, b: int|
                        0 <= a < b < n && line@[a] == sep && line@[b] == sep;
                    assert(a == p && b == p);
                }
            }
        }
        return None;
    }
    let split = match at {
        Some(split) => split,
        None => 0,
    };
    proof {
        assert(only_at(line@, sep, split as int));
        let p = choose|p: int| only_at(line@, sep, p);
        assert(p == split);
        assert(line@.take(p) =~= line@.subrange(0, split as int));
        assert(line@.skip(p + 1) =~= line@.subrange(split + 1, n as int));
    }
    let is_dirty = match parse_decimal_i32(line, 0, split) {
        Some(flag) => flag != 0,
        None => false,
    };
    match parse_decimal_i32(line, split + 1, n) {
        Some(page_id) => if page_id >= 0 {
            Some((is_dirty, page_id))
        } else {
            None
        },
        None => None,
    }
}

} // verus!
