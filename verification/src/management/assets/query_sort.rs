//! Order-preserving keys for indexes of immutable query results.
//!
//! A key is a byte string. Keys compare as the values they are made of, so an
//! index that knows nothing of types walks a result in the order of a field.
use crate::inventory::{Scalar, ScalarView, State};
use crate::order::{before_is_asymmetric, before_is_total, bytes_before};
use vstd::prelude::*;
use vstd::string::StringSliceAdditionalSpecFns;
use vstd::utf8::encode_utf8;

verus! {

/// Whether `a` and `b` differ within their common length, and `a` has the
/// smaller byte where they first do.
pub open spec fn splits_before(a: Seq<u8>, b: Seq<u8>) -> bool
    decreases a.len(),
{
    &&& a.len() > 0
    &&& b.len() > 0
    &&& if a[0] != b[0] {
        a[0] < b[0]
    } else {
        splits_before(a.drop_first(), b.drop_first())
    }
}

/// Text bytes with each zero byte followed by 255, closed by two zero bytes.
pub open spec fn terminated(bytes: Seq<u8>) -> Seq<u8>
    decreases bytes.len(),
{
    if bytes.len() == 0 {
        seq![0u8, 0u8]
    } else if bytes[0] == 0 {
        seq![0u8, 255u8] + terminated(bytes.drop_first())
    } else {
        seq![bytes[0]] + terminated(bytes.drop_first())
    }
}

/// The eight bytes of a number, the most significant first.
pub open spec fn big_endian(value: u64) -> Seq<u8> {
    Seq::new(8, |i: int| ((value >> ((7 - i) * 8)) & 0xff) as u8)
}

/// A signed number moved to the range of the unsigned ones, in the same order.
pub open spec fn lifted(value: int) -> u64 {
    (value + 0x8000_0000_0000_0000) as u64
}

/// The bytes of a value, before any reversal.
pub open spec fn payload_of(value: ScalarView) -> Seq<u8> {
    match value {
        ScalarView::String(text) => terminated(encode_utf8(text)),
        ScalarView::Integer(number) | ScalarView::Time(number) => big_endian(lifted(number)),
        ScalarView::Boolean(truth) => seq![if truth { 1u8 } else { 0u8 }],
    }
}

/// Every byte complemented.
pub open spec fn complemented(bytes: Seq<u8>) -> Seq<u8> {
    bytes.map_values(|byte: u8| (255 - byte) as u8)
}

/// The key of what is known of a field: a known value is marked 0 and followed
/// by its bytes, complemented where the order is descending; anything else is
/// the single byte 1.
pub open spec fn key_of(value: Option<State>, descending: bool) -> Seq<u8> {
    match value {
        Some(State::Known(value)) => seq![0u8] + (if descending {
            complemented(payload_of(value@))
        } else {
            payload_of(value@)
        }),
        _ => seq![1u8],
    }
}

/// Whether one value is smaller than another of its type: text by its bytes,
/// numbers and times by their value, `false` before `true`.
pub open spec fn smaller(a: ScalarView, b: ScalarView) -> bool {
    match (a, b) {
        (ScalarView::String(x), ScalarView::String(y)) => bytes_before(
            encode_utf8(x),
            encode_utf8(y),
        ),
        (ScalarView::Integer(x), ScalarView::Integer(y)) => x < y,
        (ScalarView::Time(x), ScalarView::Time(y)) => x < y,
        (ScalarView::Boolean(x), ScalarView::Boolean(y)) => !x && y,
        _ => false,
    }
}

/// The bytes of a text value.
fn text_payload(text: &str) -> (payload: Vec<u8>)
    ensures
        payload@ == terminated(encode_utf8(text@)),
{
    let bytes = text.as_bytes();
    let mut payload: Vec<u8> = Vec::new();
    let mut i: usize = 0;
    assert(bytes@.skip(0) =~= bytes@);
    while i < bytes.len()
        invariant
            bytes@ == encode_utf8(text@),
            i <= bytes@.len(),
            payload@ + terminated(bytes@.skip(i as int)) == terminated(bytes@),
        decreases bytes@.len() - i,
    {
        let ghost before = payload@;
        let ghost rest = bytes@.skip(i as int);
        assert(rest.drop_first() =~= bytes@.skip(i + 1));
        let byte: u8 = bytes[i];
        if byte == 0 {
            payload.push(0);
            payload.push(255);
            assert(payload@ =~= before + seq![0u8, 255u8]);
            assert(payload@ + terminated(rest.drop_first()) =~= before + (seq![0u8, 255u8]
                + terminated(rest.drop_first())));
        } else {
            payload.push(byte);
            assert(payload@ =~= before + seq![byte]);
            assert(payload@ + terminated(rest.drop_first()) =~= before + (seq![byte]
                + terminated(rest.drop_first())));
        }
        i += 1;
    }
    assert(bytes@.skip(i as int) =~= Seq::<u8>::empty());
    payload.push(0);
    payload.push(0);
    assert(payload@ =~= terminated(bytes@));
    payload
}

/// The bytes of a number or a time.
fn number_payload(value: i64) -> (payload: Vec<u8>)
    ensures
        payload@ == big_endian(lifted(value as int)),
{
    let bits: u64 = (value as u64) ^ 0x8000_0000_0000_0000;
    assert((value as u64) ^ 0x8000_0000_0000_0000 == (value + 0x8000_0000_0000_0000) as u64)
        by (bit_vector);
    let mut payload: Vec<u8> = Vec::new();
    let mut i: u64 = 0;
    while i < 8
        invariant
            i <= 8,
            payload@ =~= big_endian(bits).take(i as int),
        decreases 8 - i,
    {
        let byte: u8 = ((bits >> ((7 - i) * 8)) & 0xff) as u8;
        payload.push(byte);
        i += 1;
    }
    payload
}

/// The index key of what is known of a field.
pub fn key(value: Option<&State>, descending: bool) -> (key: Vec<u8>)
    ensures
        key@ == key_of(
            match value {
                Some(state) => Some(*state),
                None => None,
            },
            descending,
        ),
{
    let scalar = match value {
        Some(State::Known(scalar)) => scalar,
        _ => {
            let mut key: Vec<u8> = Vec::new();
            key.push(1);
            assert(key@ =~= seq![1u8]);
            return key;
        },
    };
    let payload: Vec<u8> = match scalar {
        Scalar::String(text) => text_payload(text.as_str()),
        Scalar::Integer(number) => number_payload(*number),
        Scalar::Time(number) => number_payload(*number),
        Scalar::Boolean(truth) => {
            let mut payload: Vec<u8> = Vec::new();
            payload.push(if *truth { 1 } else { 0 });
            assert(payload@ =~= seq![if *truth { 1u8 } else { 0u8 }]);
            payload
        },
    };
    assert(payload@ == payload_of(scalar@));
    let mut key: Vec<u8> = Vec::new();
    key.push(0);
    let mut i: usize = 0;
    while i < payload.len()
        invariant
            i <= payload@.len(),
            key@ =~= seq![0u8] + (if descending {
                complemented(payload@)
            } else {
                payload@
            }).take(i as int),
        decreases payload@.len() - i,
    {
        let byte: u8 = payload[i];
        if descending {
            assert(!byte == 255 - byte) by (bit_vector);
            key.push(!byte);
        } else {
            key.push(byte);
        }
        i += 1;
    }
    key
}

/// Where two byte strings first differ decides which comes before.
proof fn split_at(a: Seq<u8>, b: Seq<u8>, i: int)
    requires
        0 <= i < a.len(),
        i < b.len(),
        forall|j: int| 0 <= j < i ==> a[j] == b[j],
        a[i] < b[i],
    ensures
        splits_before(a, b),
    decreases i,
{
    if i > 0 {
        split_at(a.drop_first(), b.drop_first(), i - 1);
    }
}

/// The position at which a split happens.
proof fn split_position(a: Seq<u8>, b: Seq<u8>) -> (i: int)
    requires
        splits_before(a, b),
    ensures
        0 <= i < a.len(),
        i < b.len(),
        forall|j: int| 0 <= j < i ==> a[j] == b[j],
        a[i] < b[i],
    decreases a.len(),
{
    if a[0] != b[0] {
        0
    } else {
        let i = split_position(a.drop_first(), b.drop_first());
        assert forall|j: int| 0 <= j < i + 1 implies a[j] == b[j] by {
            if j > 0 {
                assert(a.drop_first()[j - 1] == b.drop_first()[j - 1]);
            }
        }
        i + 1
    }
}

/// A split is an order, whatever common bytes stand before it.
proof fn split_orders(prefix: Seq<u8>, a: Seq<u8>, b: Seq<u8>)
    requires
        splits_before(a, b),
    ensures
        splits_before(prefix + a, prefix + b),
        bytes_before(prefix + a, prefix + b),
{
    let i = split_position(a, b);
    split_at(prefix + a, prefix + b, prefix.len() + i);
    split_is_before(prefix + a, prefix + b);
}

proof fn split_is_before(a: Seq<u8>, b: Seq<u8>)
    requires
        splits_before(a, b),
    ensures
        bytes_before(a, b),
    decreases a.len(),
{
    if a[0] == b[0] {
        split_is_before(a.drop_first(), b.drop_first());
    }
}

/// Complementing the bytes turns a split around.
proof fn complement_reverses(a: Seq<u8>, b: Seq<u8>)
    requires
        splits_before(a, b),
    ensures
        splits_before(complemented(b), complemented(a)),
{
    let i = split_position(a, b);
    split_at(complemented(b), complemented(a), i);
}

/// Text in order gives closed text that splits in that order.
proof fn terminated_splits(x: Seq<u8>, y: Seq<u8>)
    requires
        bytes_before(x, y),
    ensures
        splits_before(terminated(x), terminated(y)),
    decreases x.len(),
{
    let a = terminated(x);
    let b = terminated(y);
    if x.len() == 0 {
        if y[0] == 0 {
            split_at(a, b, 1);
        } else {
            split_at(a, b, 0);
        }
    } else if x[0] != y[0] {
        split_at(a, b, 0);
    } else {
        terminated_splits(x.drop_first(), y.drop_first());
        if x[0] == 0 {
            split_orders(seq![0u8, 255u8], terminated(x.drop_first()), terminated(y.drop_first()));
        } else {
            split_orders(seq![x[0]], terminated(x.drop_first()), terminated(y.drop_first()));
        }
    }
}

/// Where two numbers agree above a byte, the smaller has no larger byte, and
/// where it has the same one they agree from that byte on.
proof fn byte_decides(a: u64, b: u64, shift: u64)
    by (bit_vector)
    requires
        shift <= 56,
        a < b,
        (a >> shift) >> 8u64 == (b >> shift) >> 8u64,
    ensures
        (a >> shift) & 0xff <= (b >> shift) & 0xff,
        (a >> shift) & 0xff == (b >> shift) & 0xff ==> a >> shift == b >> shift,
        (a >> shift) & 0xff < 256,
        (b >> shift) & 0xff < 256,
{
}

/// What stands above a byte of a number is the number from the next byte on.
proof fn byte_above(a: u64, shift: u64)
    by (bit_vector)
    requires
        shift <= 48,
    ensures
        (a >> shift) >> 8u64 == a >> ((shift + 8) as u64),
{
}

/// Numbers in order that agree in their first `i` bytes give bytes that split in
/// that order.
proof fn big_endian_splits_from(a: u64, b: u64, i: int)
    requires
        a < b,
        0 <= i < 8,
        forall|j: int| 0 <= j < i ==> big_endian(a)[j] == big_endian(b)[j],
        (a >> ((7 - i) * 8) as u64) >> 8u64 == (b >> ((7 - i) * 8) as u64) >> 8u64,
    ensures
        splits_before(big_endian(a), big_endian(b)),
    decreases 8 - i,
{
    let shift = ((7 - i) * 8) as u64;
    byte_decides(a, b, shift);
    if big_endian(a)[i] != big_endian(b)[i] {
        split_at(big_endian(a), big_endian(b), i);
    } else if i < 7 {
        byte_above(a, ((6 - i) * 8) as u64);
        byte_above(b, ((6 - i) * 8) as u64);
        big_endian_splits_from(a, b, i + 1);
    } else {
        assert(a >> 0u64 == a && b >> 0u64 == b) by (bit_vector);
    }
}

/// Numbers in order give bytes that split in that order.
proof fn big_endian_splits(a: u64, b: u64)
    requires
        a < b,
    ensures
        splits_before(big_endian(a), big_endian(b)),
{
    assert((a >> 56u64) >> 8u64 == (b >> 56u64) >> 8u64) by (bit_vector);
    big_endian_splits_from(a, b, 0);
}

/// The bytes of a smaller value of a type split before those of a larger one.
proof fn payload_splits(a: ScalarView, b: ScalarView)
    requires
        smaller(a, b),
        bounded(a),
        bounded(b),
    ensures
        splits_before(payload_of(a), payload_of(b)),
{
    match (a, b) {
        (ScalarView::String(x), ScalarView::String(y)) => {
            terminated_splits(encode_utf8(x), encode_utf8(y));
        },
        (ScalarView::Integer(x), ScalarView::Integer(y)) => {
            big_endian_splits(lifted(x), lifted(y));
        },
        (ScalarView::Time(x), ScalarView::Time(y)) => {
            big_endian_splits(lifted(x), lifted(y));
        },
        _ => {
            split_at(payload_of(a), payload_of(b), 0);
        },
    }
}

/// Numbers and times lie in the range of 64-bit integers, as they do in every
/// `Scalar`.
pub open spec fn bounded(value: ScalarView) -> bool {
    match value {
        ScalarView::Integer(x) | ScalarView::Time(x) => i64::MIN <= x <= i64::MAX,
        _ => true,
    }
}

/// Two values of one type are equal, or one is smaller than the other.
proof fn smaller_is_total(a: Scalar, b: Scalar)
    requires
        a.spec_kind() == b.spec_kind(),
    ensures
        a@ == b@ || smaller(a@, b@) || smaller(b@, a@),
{
    match (a@, b@) {
        (ScalarView::String(x), ScalarView::String(y)) => {
            before_is_total(encode_utf8(x), encode_utf8(y));
            vstd::utf8::encode_utf8_decode_utf8(x);
            vstd::utf8::encode_utf8_decode_utf8(y);
        },
        _ => {},
    }
}

/// Ascending keys of values of one type compare as the values do: the key of
/// the smaller value comes first, and equal keys mean equal values.
pub proof fn ascending_keys_keep_order(a: Scalar, b: Scalar)
    requires
        a.spec_kind() == b.spec_kind(),
    ensures
        smaller(a@, b@) <==> bytes_before(
            key_of(Some(State::Known(a)), false),
            key_of(Some(State::Known(b)), false),
        ),
        a@ == b@ <==> key_of(Some(State::Known(a)), false) == key_of(Some(State::Known(b)), false),
{
    let x = payload_of(a@);
    let y = payload_of(b@);
    if smaller(a@, b@) {
        payload_splits(a@, b@);
        split_orders(seq![0u8], x, y);
        before_is_asymmetric(seq![0u8] + x, seq![0u8] + y);
    }
    if smaller(b@, a@) {
        payload_splits(b@, a@);
        split_orders(seq![0u8], y, x);
        before_is_asymmetric(seq![0u8] + y, seq![0u8] + x);
    }
    smaller_is_total(a, b);
    if bytes_before(seq![0u8] + x, seq![0u8] + y) {
        before_is_asymmetric(seq![0u8] + x, seq![0u8] + y);
    }
}

/// Descending keys of values of one type compare the other way round: the key
/// of the larger value comes first.
pub proof fn descending_keys_reverse_order(a: Scalar, b: Scalar)
    requires
        a.spec_kind() == b.spec_kind(),
    ensures
        smaller(a@, b@) <==> bytes_before(
            key_of(Some(State::Known(b)), true),
            key_of(Some(State::Known(a)), true),
        ),
        a@ == b@ <==> key_of(Some(State::Known(a)), true) == key_of(Some(State::Known(b)), true),
{
    let x = complemented(payload_of(a@));
    let y = complemented(payload_of(b@));
    if smaller(a@, b@) {
        payload_splits(a@, b@);
        complement_reverses(payload_of(a@), payload_of(b@));
        split_orders(seq![0u8], y, x);
        before_is_asymmetric(seq![0u8] + y, seq![0u8] + x);
    }
    if smaller(b@, a@) {
        payload_splits(b@, a@);
        complement_reverses(payload_of(b@), payload_of(a@));
        split_orders(seq![0u8], x, y);
        before_is_asymmetric(seq![0u8] + x, seq![0u8] + y);
    }
    smaller_is_total(a, b);
    if bytes_before(seq![0u8] + y, seq![0u8] + x) {
        before_is_asymmetric(seq![0u8] + y, seq![0u8] + x);
    }
}

/// Whatever the direction, a known value comes before anything that is not
/// known, and what is not known shares one key.
pub proof fn unknown_comes_last(value: Scalar, other: Option<State>, one: bool, two: bool)
    requires
        !(other matches Some(State::Known(_))),
    ensures
        bytes_before(key_of(Some(State::Known(value)), one), key_of(other, two)),
        key_of(other, one) == key_of(None, two),
{
    split_at(key_of(Some(State::Known(value)), one), key_of(other, two), 0);
    split_is_before(key_of(Some(State::Known(value)), one), key_of(other, two));
}

} // verus!
