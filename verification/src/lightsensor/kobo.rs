//! The reading of the ambient-light sensor, as its driver writes it: a
//! decimal numeral followed by the end of the line.

use vstd::prelude::*;
use vstd::string::StrSliceExecFns;

verus! {

/// Whether `c` is white space.
pub open spec fn is_space(c: char) -> bool {
    let code = c as u32;
    ||| 0x09 <= code <= 0x0D
    ||| code == 0x20
    ||| code == 0x85
    ||| code == 0xA0
    ||| code == 0x1680
    ||| 0x2000 <= code <= 0x200A
    ||| code == 0x2028
    ||| code == 0x2029
    ||| code == 0x202F
    ||| code == 0x205F
    ||| code == 0x3000
}

/// Whether `c` is a decimal digit.
pub open spec fn is_digit(c: char) -> bool {
    '0' <= c <= '9'
}

/// The number of characters of `text` up to and including the last one that
/// is no white space.
pub open spec fn trimmed_len(text: Seq<char>) -> int
    decreases text.len(),
{
    if text.len() == 0 || !is_space(text.last()) {
        text.len() as int
    } else {
        trimmed_len(text.drop_last())
    }
}

/// The number that the digits `digits` write.
pub open spec fn number(digits: Seq<char>) -> int
    decreases digits.len(),
{
    if digits.len() == 0 {
        0
    } else {
        number(digits.drop_last()) * 10 + (digits.last() as u32 - '0' as u32)
    }
}

/// The digits of a numeral: the text without the white space at its end and
/// without a plus sign at its beginning.
pub open spec fn digits_of(text: Seq<char>) -> Seq<char> {
    let body = text.take(trimmed_len(text));
    if body.len() > 0 && body[0] == '+' {
        body.skip(1)
    } else {
        body
    }
}

/// The level that `text` reports: the number it writes, if it is a decimal
/// numeral of a number below 65536, white space after it set aside.
pub open spec fn level_of(text: Seq<char>) -> Option<u16> {
    let digits = digits_of(text);
    if digits.len() > 0 && (forall|i: int| 0 <= i < digits.len() ==> is_digit(#[trigger] digits[i]))
        && number(digits) <= u16::MAX {
        Some(number(digits) as u16)
    } else {
        None
    }
}

/// The trimmed length is the one index after which all is white space and
/// before which stands a character that is none.
pub proof fn lemma_trimmed_len_is(text: Seq<char>, end: int)
    requires
        0 <= end <= text.len(),
        end > 0 ==> !is_space(text[end - 1]),
        forall|i: int| end <= i < text.len() ==> is_space(#[trigger] text[i]),
    ensures
        trimmed_len(text) == end,
    decreases text.len(),
{
    if text.len() > 0 && is_space(text.last()) {
        assert(end < text.len());
        assert forall|i: int| end <= i < text.drop_last().len() implies is_space(
            #[trigger] text.drop_last()[i],
        ) by {
            assert(text.drop_last()[i] == text[i]);
        }
        lemma_trimmed_len_is(text.drop_last(), end);
    } else if text.len() > 0 {
        if end < text.len() {
            assert(is_space(text[text.len() - 1]));
        }
    }
}

/// A number written with digits is not less than the number that a part of
/// its digits, taken from the beginning, writes.
pub proof fn lemma_number_grows(digits: Seq<char>, upto: int)
    requires
        0 <= upto <= digits.len(),
        forall|i: int| 0 <= i < digits.len() ==> is_digit(#[trigger] digits[i]),
    ensures
        0 <= number(digits.take(upto)) <= number(digits),
    decreases digits.len() - upto,
{
    if upto == digits.len() {
        assert(digits.take(upto) =~= digits);
        lemma_number_nonnegative(digits);
    } else {
        lemma_number_grows(digits, upto + 1);
        let longer = digits.take(upto + 1);
        assert(longer.drop_last() =~= digits.take(upto));
        assert(is_digit(digits[upto]));
        assert(longer.last() == digits[upto]);
        lemma_number_nonnegative(digits.take(upto));
    }
}

/// A number written with digits is not negative.
pub proof fn lemma_number_nonnegative(digits: Seq<char>)
    requires
        forall|i: int| 0 <= i < digits.len() ==> is_digit(#[trigger] digits[i]),
    ensures
        0 <= number(digits),
    decreases digits.len(),
{
    if digits.len() > 0 {
        assert forall|i: int| 0 <= i < digits.drop_last().len() implies is_digit(
            #[trigger] digits.drop_last()[i],
        ) by {
            assert(digits.drop_last()[i] == digits[i]);
        }
        lemma_number_nonnegative(digits.drop_last());
        assert(is_digit(digits.last()));
    }
}

/// Tells whether `c` is white space.
fn space(c: char) -> (b: bool)
    ensures
        b == is_space(c),
{
    let code = c as u32;
    (0x09 <= code && code <= 0x0D) || code == 0x20 || code == 0x85 || code == 0xA0 || code
        == 0x1680 || (0x2000 <= code && code <= 0x200A) || code == 0x2028 || code == 0x2029 || code
        == 0x202F || code == 0x205F || code == 0x3000
}

/// Reads the level that the sensor reported as `text`.
pub fn parse_level(text: &str) -> (level: Option<u16>)
    ensures
        level == level_of(text@),
{
    let len = text.unicode_len();
    let mut end: usize = len;
    while end > 0 && space(text.get_char(end - 1))
        invariant
            0 <= end <= len,
            len == text@.len(),
            forall|i: int| end <= i < len ==> is_space(#[trigger] text@[i]),
        decreases end,
    {
        end -= 1;
    }
    proof {
        lemma_trimmed_len_is(text@, end as int);
    }
    let start: usize = if end > 0 && text.get_char(0) == '+' {
        1
    } else {
        0
    };
    let ghost digits = digits_of(text@);
    assert(digits =~= text@.subrange(start as int, end as int));
    if start == end {
        return None;
    }
    let mut value: u32 = 0;
    let mut i: usize = start;
    while i < end
        invariant
            start <= i <= end <= len,
            len == text@.len(),
            digits == text@.subrange(start as int, end as int),
            digits == digits_of(text@),
            forall|j: int| 0 <= j < i - start ==> is_digit(#[trigger] digits[j]),
            value == number(digits.take(i - start)),
            value <= u16::MAX,
        decreases end - i,
    {
        let c = text.get_char(i);
        assert(digits[i - start] == c);
        if !(c >= '0' && c <= '9') {
            assert(!is_digit(digits[i - start]));
            return None;
        }
        let d: u32 = c as u32 - '0' as u32;
        proof {
            assert(digits.take(i - start + 1).drop_last() =~= digits.take(i - start));
            assert(digits.take(i - start + 1).last() == c);
        }
        value = value * 10 + d;
        assert(value == number(digits.take(i - start + 1)));
        if value > 0xFFFF {
            proof {
                if forall|j: int| 0 <= j < digits.len() ==> is_digit(#[trigger] digits[j]) {
                    lemma_number_grows(digits, i - start + 1);
                }
            }
            return None;
        }
        i += 1;
    }
    proof {
        assert(digits.take(end - start) =~= digits);
    }
    Some(value as u16)
}

} // verus!
