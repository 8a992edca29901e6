//! Identifiers of tenants, operations and objects.
use crate::encoding::hex_digit_of;
use vstd::prelude::*;

verus! {

/// A 128-bit identifier.
#[derive(Clone, Copy, Debug, PartialEq, Eq, Structural)]
pub struct Id {
    pub value: u128,
}

/// The identifier that stands for none.
pub open spec fn nil() -> Id {
    Id { value: 0 }
}

/// How many hyphens stand before position `i` of an identifier's text.
pub open spec fn hyphens_before(i: int) -> int {
    if i <= 8 {
        0
    } else if i <= 13 {
        1
    } else if i <= 18 {
        2
    } else if i <= 23 {
        3
    } else {
        4
    }
}

/// The hyphenated text of an identifier: 32 lower-case hexadecimal digits, the
/// most significant first, in groups of 8, 4, 4, 4 and 12.
pub open spec fn text_of(value: u128) -> Seq<char> {
    Seq::new(
        36,
        |i: int|
            if i == 8 || i == 13 || i == 18 || i == 23 {
                '-'
            } else {
                hex_digit_of(((value >> ((31 - (i - hyphens_before(i))) * 4)) & 15) as int)
            },
    )
}

/// The value of a hexadecimal digit, upper or lower case, where it is one.
pub open spec fn hex_value(symbol: char) -> Option<nat> {
    if '0' <= symbol <= '9' {
        Some((symbol as int - '0' as int) as nat)
    } else if 'a' <= symbol <= 'f' {
        Some((symbol as int - 'a' as int + 10) as nat)
    } else if 'A' <= symbol <= 'F' {
        Some((symbol as int - 'A' as int + 10) as nat)
    } else {
        None
    }
}

/// The number that hexadecimal digits denote, the most significant first, where
/// they all are digits.
pub open spec fn hex_number(digits: Seq<char>) -> Option<nat>
    decreases digits.len(),
{
    if digits.len() == 0 {
        Some(0)
    } else {
        match (hex_number(digits.drop_last()), hex_value(digits.last())) {
            (Some(number), Some(digit)) => Some(16 * number + digit),
            _ => None,
        }
    }
}

/// The digits of a hyphenated text, where it is one: groups of 8, 4, 4, 4 and 12.
pub open spec fn without_hyphens(text: Seq<char>) -> Option<Seq<char>> {
    if text.len() == 36 && text[8] == '-' && text[13] == '-' && text[18] == '-' && text[23] == '-' {
        Some(
            text.subrange(0, 8) + text.subrange(9, 13) + text.subrange(14, 18) + text.subrange(
                19,
                23,
            ) + text.subrange(24, 36),
        )
    } else {
        None
    }
}

/// An upper-case ASCII letter as its lower-case one, any other symbol as it is.
pub open spec fn lower_case(symbol: char) -> char {
    if 'A' <= symbol <= 'Z' {
        (symbol as int + 32) as char
    } else {
        symbol
    }
}

/// The digits of a text that denotes an identifier: 32 digits, or their hyphenated
/// form, which may stand in braces or behind `urn:uuid:` in either case.
pub open spec fn identifier_digits(text: Seq<char>) -> Option<Seq<char>> {
    if text.len() == 32 {
        Some(text)
    } else if text.len() == 38 && text[0] == '{' && text[37] == '}' {
        without_hyphens(text.subrange(1, 37))
    } else if text.len() == 45 && text.take(9).map_values(|c: char| lower_case(c)) =~= seq![
        'u', 'r', 'n', ':', 'u', 'u', 'i', 'd', ':',
    ] {
        without_hyphens(text.skip(9))
    } else {
        without_hyphens(text)
    }
}

/// The identifier that a text denotes, where it denotes one.
pub open spec fn parsed(text: Seq<char>) -> Option<u128> {
    match identifier_digits(text) {
        Some(digits) => match hex_number(digits) {
            Some(number) => Some(number as u128),
            None => None,
        },
        None => None,
    }
}

/// Calls `Uuid::parse_str`, which reads the simple, hyphenated, braced and URN
/// forms, with digits in either case, and refuses every other text.
#[verifier::external_body]
fn uuid_parse(text: &str) -> (value: Option<u128>)
    ensures
        value == parsed(text@),
{
    uuid::Uuid::parse_str(text).ok().map(|id| id.as_u128())
}

/// The leading digits of an identifier's text denote its leading bits.
proof fn leading_digits(value: u128, digits: Seq<char>, count: int)
    requires
        digits.len() == 32,
        forall|i: int|
            0 <= i < 32 ==> #[trigger] digits[i] == hex_digit_of(
                ((value >> ((31 - i) * 4)) & 15) as int,
            ),
        0 <= count <= 32,
    ensures
        hex_number(digits.take(count)) == Some((value >> ((32 - count) * 4)) as nat),
    decreases count,
{
    if count == 0 {
        assert(value >> 128u128 == 0) by (bit_vector);
    } else {
        leading_digits(value, digits, count - 1);
        let shift: u128 = ((32 - count) * 4) as u128;
        let higher: u128 = (shift + 4) as u128;
        assert(value >> shift == 16 * (value >> higher) + ((value >> shift) & 15) && (value
            >> shift) & 15 < 16) by (bit_vector)
            requires
                shift <= 124,
                higher == shift + 4,
        ;
        assert(digits.take(count).drop_last() =~= digits.take(count - 1));
        let digit = ((value >> shift) & 15) as int;
        assert(hex_value(hex_digit_of(digit)) == Some(digit as nat));
    }
}

/// The text of an identifier denotes that identifier, so no two identifiers have
/// one text.
pub proof fn text_denotes_its_identifier(value: u128)
    ensures
        parsed(text_of(value)) == Some(value),
{
    let text = text_of(value);
    let digits = without_hyphens(text)->Some_0;
    assert forall|i: int| 0 <= i < 32 implies #[trigger] digits[i] == hex_digit_of(
        ((value >> ((31 - i) * 4)) & 15) as int,
    ) by {
        let place = if i < 8 {
            i
        } else if i < 12 {
            i + 1
        } else if i < 16 {
            i + 2
        } else if i < 20 {
            i + 3
        } else {
            i + 4
        };
        assert(digits[i] == text[place]);
    }
    leading_digits(value, digits, 32);
    assert(digits.take(32) =~= digits);
    assert(value >> 0u128 == value) by (bit_vector);
}

/// Calls `Uuid::to_string`, which writes the hyphenated text.
#[verifier::external_body]
fn uuid_text(value: u128) -> (text: String)
    ensures
        text@ == text_of(value),
{
    uuid::Uuid::from_u128(value).to_string()
}

impl Id {
    /// Whether this is the identifier that stands for none.
    pub fn is_nil(self) -> (answer: bool)
        ensures
            answer == (self == nil()),
    {
        self.value == 0
    }

    /// The hyphenated text of this identifier.
    pub fn text(self) -> (text: String)
        ensures
            text@ == text_of(self.value),
    {
        uuid_text(self.value)
    }

    /// The identifier that `text` denotes, where it denotes one.
    pub fn parse(text: &str) -> (id: Option<Id>)
        ensures
            match id {
                Some(id) => parsed(text@) == Some(id.value),
                None => parsed(text@) is None,
            },
            forall|v: u128| #[trigger] text_of(v) == text@ ==> id == Some(Id { value: v }),
    {
        proof {
            assert forall|v: u128| #[trigger] text_of(v) == text@ implies parsed(text@) == Some(v) by {
                text_denotes_its_identifier(v);
            }
        }
        match uuid_parse(text) {
            Some(value) => Some(Id { value }),
            None => None,
        }
    }
}

} // verus!
