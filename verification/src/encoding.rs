//! Text forms of bytes: URL-safe base64, computed by `base64`, and hexadecimal.
use crate::crypto::MESSAGE_BYTES;
use vstd::prelude::*;
use vstd::utf8::encode_utf8;

verus! {

/// The symbol that stands for six bits.
pub open spec fn base64_symbol(bits: int) -> char {
    if bits < 26 {
        ('A' as int + bits) as char
    } else if bits < 52 {
        ('a' as int + bits - 26) as char
    } else if bits < 62 {
        ('0' as int + bits - 52) as char
    } else if bits == 62 {
        '-'
    } else {
        '_'
    }
}

/// The URL-safe base64 text of some bytes, without padding: every three bytes are
/// four symbols of six bits each, and the last one or two bytes are as many
/// symbols as it takes, with zero bits behind them.
pub open spec fn base64_url_of(bytes: Seq<u8>) -> Seq<char>
    decreases bytes.len(),
{
    let first = bytes[0] as int;
    let second = bytes[1] as int;
    let third = bytes[2] as int;
    if bytes.len() == 0 {
        Seq::empty()
    } else if bytes.len() == 1 {
        seq![base64_symbol(first / 4), base64_symbol(first % 4 * 16)]
    } else if bytes.len() == 2 {
        seq![
            base64_symbol(first / 4),
            base64_symbol(first % 4 * 16 + second / 16),
            base64_symbol(second % 16 * 4),
        ]
    } else {
        seq![
            base64_symbol(first / 4),
            base64_symbol(first % 4 * 16 + second / 16),
            base64_symbol(second % 16 * 4 + third / 64),
            base64_symbol(third % 64),
        ] + base64_url_of(bytes.skip(3))
    }
}

/// The text of some bytes is never one symbol longer than a multiple of four, and
/// where it is three longer its last symbol stands for two zero bits.
pub proof fn base64_text_is_shaped(bytes: Seq<u8>)
    ensures
        base64_url_of(bytes).len() % 4 == (if bytes.len() % 3 == 0 {
            0nat
        } else {
            bytes.len() % 3 + 1
        }),
        bytes.len() % 3 == 2 ==> exists|bits: int|
            0 <= bits < 16 && base64_url_of(bytes).last() == #[trigger] base64_symbol(bits * 4),
    decreases bytes.len(),
{
    if bytes.len() == 2 {
        let bits = bytes[1] as int % 16;
        assert(base64_url_of(bytes).last() == base64_symbol(bits * 4));
    } else if bytes.len() >= 3 {
        base64_text_is_shaped(bytes.skip(3));
        if bytes.len() % 3 == 2 {
            assert(base64_url_of(bytes).last() == base64_url_of(bytes.skip(3)).last());
        }
    }
}

/// Calls `Engine::encode` of `base64`'s `URL_SAFE_NO_PAD`, which writes the text of
/// `bytes`. The bound leaves out the lengths whose text is too long to be held, on
/// which the call panics.
#[verifier::external_body]
pub(crate) fn base64_encode(bytes: &[u8]) -> (text: String)
    requires
        bytes@.len() <= MESSAGE_BYTES + 32,
    ensures
        text@ == base64_url_of(bytes@),
{
    base64::Engine::encode(&base64::engine::general_purpose::URL_SAFE_NO_PAD, bytes)
}

/// Calls `Engine::decode` of `base64`'s `URL_SAFE_NO_PAD`. That engine refuses
/// padding, symbols outside its alphabet and unused bits that are set, so it
/// decodes exactly the texts that encoding produces, each to the one byte
/// sequence it came from, which is no longer than the text.
#[verifier::external_body]
pub(crate) fn base64_decode(text: &str) -> (bytes: Option<Vec<u8>>)
    ensures
        match bytes {
            Some(found) => base64_url_of(found@) == text@ && (forall|other: Seq<u8>|
                #[trigger] base64_url_of(other) == text@ ==> other == found@) && found@.len()
                <= encode_utf8(text@).len(),
            None => forall|other: Seq<u8>| #[trigger] base64_url_of(other) != text@,
        },
{
    base64::Engine::decode(&base64::engine::general_purpose::URL_SAFE_NO_PAD, text).ok()
}

/// The lower-case hexadecimal digit of a value below sixteen.
pub open spec fn hex_digit_of(value: int) -> char {
    if value < 10 {
        (48 + value) as char
    } else {
        (87 + value) as char
    }
}

/// The lower-case hexadecimal text of some bytes, two digits each.
pub open spec fn hex_of(bytes: Seq<u8>) -> Seq<char> {
    Seq::new(
        2 * bytes.len(),
        |i: int|
            if i % 2 == 0 {
                hex_digit_of(bytes[i / 2] as int / 16)
            } else {
                hex_digit_of(bytes[i / 2] as int % 16)
            },
    )
}

/// No two byte sequences have one hexadecimal text.
pub proof fn hex_texts_differ(one: Seq<u8>, two: Seq<u8>)
    requires
        hex_of(one) == hex_of(two),
    ensures
        one == two,
{
    assert(hex_of(one).len() == 2 * one.len());
    assert(hex_of(two).len() == 2 * two.len());
    assert forall|i: int| 0 <= i < one.len() implies #[trigger] one[i] == two[i] by {
        assert(hex_of(one)[2 * i] == hex_digit_of(one[i] as int / 16));
        assert(hex_of(two)[2 * i] == hex_digit_of(two[i] as int / 16));
        assert((2 * i + 1) / 2 == i && (2 * i + 1) % 2 == 1);
        assert(hex_of(one)[2 * i + 1] == hex_digit_of(one[i] as int % 16));
        assert(hex_of(two)[2 * i + 1] == hex_digit_of(two[i] as int % 16));
    }
    assert(one =~= two);
}

/// The text of one hexadecimal digit.
pub(crate) fn digit(value: u8) -> (text: &'static str)
    requires
        value < 16,
    ensures
        text@ == seq![hex_digit_of(value as int)],
{
    proof {
        reveal_strlit("0"); reveal_strlit("1"); reveal_strlit("2"); reveal_strlit("3");
        reveal_strlit("4"); reveal_strlit("5"); reveal_strlit("6"); reveal_strlit("7");
        reveal_strlit("8"); reveal_strlit("9"); reveal_strlit("a"); reveal_strlit("b");
        reveal_strlit("c"); reveal_strlit("d"); reveal_strlit("e"); reveal_strlit("f");
    }
    let text = match value {
        0 => "0",
        1 => "1",
        2 => "2",
        3 => "3",
        4 => "4",
        5 => "5",
        6 => "6",
        7 => "7",
        8 => "8",
        9 => "9",
        10 => "a",
        11 => "b",
        12 => "c",
        13 => "d",
        14 => "e",
        _ => "f",
    };
    assert(text@ =~= seq![hex_digit_of(value as int)]);
    text
}

/// The lower-case hexadecimal text of `bytes`.
pub fn hex(bytes: &[u8]) -> (text: String)
    ensures
        text@ == hex_of(bytes@),
{
    let mut text = String::new();
    let mut i: usize = 0;
    while i < bytes.len()
        invariant
            i <= bytes@.len(),
            text@ == hex_of(bytes@.take(i as int)),
        decreases bytes@.len() - i,
    {
        let byte: u8 = bytes[i];
        text.append(digit(byte / 16));
        text.append(digit(byte % 16));
        assert(text@ =~= hex_of(bytes@.take(i + 1)));
        i += 1;
    }
    assert(bytes@.take(i as int) =~= bytes@);
    text
}

} // verus!
