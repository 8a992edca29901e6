//! Numbers as decimal text.
use crate::encoding::{digit, hex_digit_of};
use crate::text::join;
use vstd::prelude::*;

verus! {

/// The decimal text of a number, without leading zeros.
pub open spec fn decimal_of(number: nat) -> Seq<char>
    decreases number,
{
    if number < 10 {
        seq![hex_digit_of(number as int)]
    } else {
        decimal_of(number / 10).push(hex_digit_of((number % 10) as int))
    }
}

/// The decimal text of `number`.
pub fn decimal(number: u64) -> (text: String)
    ensures
        text@ == decimal_of(number as nat),
    decreases number,
{
    if number < 10 {
        return digit(number as u8).to_owned();
    }
    let mut text = decimal(number / 10);
    let ghost before = text@;
    text.append(digit((number % 10) as u8));
    assert(text@ =~= before.push(hex_digit_of((number % 10) as int)));
    text
}

/// The decimal text of an integer, with a sign where it is negative.
pub open spec fn signed_of(number: int) -> Seq<char> {
    if number < 0 {
        "-"@ + decimal_of((-number) as nat)
    } else {
        decimal_of(number as nat)
    }
}

/// The decimal text of `number`, with a sign where it is negative.
pub fn signed(number: i64) -> (text: String)
    ensures
        text@ == signed_of(number as int),
{
    if number < 0 {
        let size: u64 = (-(number + 1)) as u64 + 1;
        let text = decimal(size);
        join("-", text.as_str())
    } else {
        decimal(number as u64)
    }
}

/// The value of a decimal digit, where it is one.
pub open spec fn digit_value(symbol: char) -> Option<nat> {
    if '0' <= symbol <= '9' {
        Some((symbol as int - '0' as int) as nat)
    } else {
        None
    }
}

/// The number that some digits denote, where they all are digits.
pub open spec fn digits_value(digits: Seq<char>) -> Option<nat>
    decreases digits.len(),
{
    if digits.len() == 0 {
        Some(0)
    } else {
        match (digits_value(digits.drop_last()), digit_value(digits.last())) {
            (Some(value), Some(digit)) => Some(10 * value + digit),
            _ => None,
        }
    }
}

/// Whether a text begins with a sign.
pub open spec fn has_sign(text: Seq<char>) -> bool {
    text.len() > 0 && (text[0] == '-' || text[0] == '+')
}

/// The 64-bit integer that a text denotes, where it denotes one: a sign, or none,
/// and at least one digit.
pub open spec fn integer_of(text: Seq<char>) -> Option<i64> {
    let negative = text.len() > 0 && text[0] == '-';
    let digits = if has_sign(text) {
        text.skip(1)
    } else {
        text
    };
    if digits.len() == 0 {
        None
    } else {
        match digits_value(digits) {
            Some(value) => if negative && value <= i64::MAX + 1 {
                Some((-value) as i64)
            } else if !negative && value <= i64::MAX {
                Some(value as i64)
            } else {
                None
            },
            None => None,
        }
    }
}

/// More digits denote no smaller number.
proof fn digits_grow(digits: Seq<char>, n: int)
    requires
        0 <= n <= digits.len(),
    ensures
        digits_value(digits.take(n)) is None ==> digits_value(digits) is None,
        digits_value(digits) matches Some(whole) ==> (digits_value(digits.take(n)) matches Some(
            part,
        ) && part <= whole),
    decreases digits.len() - n,
{
    if n < digits.len() {
        digits_grow(digits, n + 1);
        assert(digits.take(n + 1).drop_last() =~= digits.take(n));
    } else {
        assert(digits.take(n) =~= digits);
    }
}

/// The number that the digits of `text` from a position on denote, where they all
/// are digits and the number is no greater than `bound`.
fn digits(text: &str, from: usize, bound: u64) -> (value: Option<u64>)
    requires
        from <= text@.len(),
        bound <= i64::MAX + 1,
    ensures
        match value {
            Some(value) => value <= bound && digits_value(text@.skip(from as int)) == Some(
                value as nat,
            ),
            None => !(digits_value(text@.skip(from as int)) matches Some(value) && value <= bound),
        },
{
    let ghost digits = text@.skip(from as int);
    let length: usize = text.unicode_len();
    let mut value: u64 = 0;
    let mut i: usize = from;
    assert(digits.take(0).len() == 0);
    while i < length
        invariant
            from <= i <= length,
            length == text@.len(),
            digits == text@.skip(from as int),
            bound <= i64::MAX + 1,
            value <= bound,
            digits_value(digits.take(i - from)) == Some(value as nat),
        decreases length - i,
    {
        let symbol = text.get_char(i);
        proof {
            assert(digits[i - from] == symbol);
            assert(digits.take(i - from + 1).drop_last() =~= digits.take(i - from));
            assert(digits.take(i - from + 1).last() == symbol);
            digits_grow(digits, i - from + 1);
        }
        if symbol < '0' || symbol > '9' {
            return None;
        }
        let digit: u64 = (symbol as u32 - '0' as u32) as u64;
        if value > (bound / 10) {
            return None;
        }
        let next: u64 = value * 10 + digit;
        if next > bound {
            return None;
        }
        value = next;
        i += 1;
    }
    assert(digits.take(i - from) =~= digits);
    Some(value)
}

/// The 64-bit integer that `text` denotes, where it denotes one.
pub fn parse_integer(text: &str) -> (value: Option<i64>)
    ensures
        value == integer_of(text@),
{
    let length: usize = text.unicode_len();
    if length == 0 {
        return None;
    }
    let sign = text.get_char(0);
    let signed = sign == '-' || sign == '+';
    let from: usize = if signed {
        1
    } else {
        0
    };
    assert(text@.skip(0) =~= text@);
    if from == length {
        return None;
    }
    if sign == '-' {
        match digits(text, from, 0x8000_0000_0000_0000) {
            Some(value) => if value == 0x8000_0000_0000_0000 {
                Some(i64::MIN)
            } else {
                Some(-(value as i64))
            },
            None => None,
        }
    } else {
        match digits(text, from, i64::MAX as u64) {
            Some(value) => Some(value as i64),
            None => None,
        }
    }
}

/// The digits of a number denote it.
proof fn decimal_denotes(number: nat)
    ensures
        digits_value(decimal_of(number)) == Some(number),
        decimal_of(number).len() > 0,
        digit_value(decimal_of(number)[0]) is Some,
    decreases number,
{
    let text = decimal_of(number);
    if number < 10 {
        assert(text.drop_last().len() == 0);
        assert(digits_value(text.drop_last()) == Some(0nat));
        assert(digit_value(hex_digit_of(number as int)) == Some(number));
    } else {
        decimal_denotes(number / 10);
        assert(text.drop_last() =~= decimal_of(number / 10));
        assert(digit_value(hex_digit_of((number % 10) as int)) == Some(number % 10));
    }
}

/// An integer is read back from its text.
pub proof fn integer_reads_back(number: i64)
    ensures
        integer_of(signed_of(number as int)) == Some(number),
{
    reveal_strlit("-");
    let text = signed_of(number as int);
    if number < 0 {
        decimal_denotes((-number) as nat);
        assert(text.skip(1) =~= decimal_of((-number) as nat));
    } else {
        decimal_denotes(number as nat);
    }
}

} // verus!
