//! The order of byte strings and of text, and ordered sets of text.
use vstd::prelude::*;
use vstd::utf8::encode_utf8;

verus! {

/// Whether `a` comes before `b` in the order of byte strings: by the first byte
/// in which they differ, and a proper prefix before what it is a prefix of.
pub open spec fn bytes_before(a: Seq<u8>, b: Seq<u8>) -> bool
    decreases a.len(),
{
    if b.len() == 0 {
        false
    } else if a.len() == 0 {
        true
    } else if a[0] != b[0] {
        a[0] < b[0]
    } else {
        bytes_before(a.drop_first(), b.drop_first())
    }
}

/// The order of byte strings is asymmetric.
pub proof fn before_is_asymmetric(a: Seq<u8>, b: Seq<u8>)
    requires
        bytes_before(a, b),
    ensures
        !bytes_before(b, a),
        a != b,
    decreases a.len(),
{
    if a.len() > 0 && a[0] == b[0] {
        before_is_asymmetric(a.drop_first(), b.drop_first());
    }
}

/// Two byte strings are equal, or one comes before the other.
pub proof fn before_is_total(a: Seq<u8>, b: Seq<u8>)
    ensures
        a == b || bytes_before(a, b) || bytes_before(b, a),
    decreases a.len(),
{
    if a.len() == 0 {
        if b.len() == 0 {
            assert(a =~= b);
        }
    } else if b.len() > 0 && a[0] == b[0] {
        before_is_total(a.drop_first(), b.drop_first());
        if a.drop_first() == b.drop_first() {
            assert(a =~= seq![a[0]] + a.drop_first());
            assert(b =~= seq![b[0]] + b.drop_first());
        }
    }
}

/// The order of byte strings is transitive.
pub proof fn before_is_transitive(a: Seq<u8>, b: Seq<u8>, c: Seq<u8>)
    requires
        bytes_before(a, b),
        bytes_before(b, c),
    ensures
        bytes_before(a, c),
    decreases a.len(),
{
    if a.len() > 0 && a[0] == b[0] && b[0] == c[0] {
        before_is_transitive(a.drop_first(), b.drop_first(), c.drop_first());
    }
}

/// Whether text `a` comes before text `b`: by their UTF-8 bytes.
pub open spec fn text_before(a: Seq<char>, b: Seq<char>) -> bool {
    bytes_before(encode_utf8(a), encode_utf8(b))
}

/// The order of text is asymmetric.
pub proof fn text_before_is_asymmetric(a: Seq<char>, b: Seq<char>)
    requires
        text_before(a, b),
    ensures
        !text_before(b, a),
        a != b,
{
    before_is_asymmetric(encode_utf8(a), encode_utf8(b));
}

/// Two texts are equal, or one comes before the other.
pub proof fn text_before_is_total(a: Seq<char>, b: Seq<char>)
    ensures
        a == b || text_before(a, b) || text_before(b, a),
{
    before_is_total(encode_utf8(a), encode_utf8(b));
    vstd::utf8::encode_utf8_decode_utf8(a);
    vstd::utf8::encode_utf8_decode_utf8(b);
}

/// The order of text is transitive.
pub proof fn text_before_is_transitive(a: Seq<char>, b: Seq<char>, c: Seq<char>)
    requires
        text_before(a, b),
        text_before(b, c),
    ensures
        text_before(a, c),
{
    before_is_transitive(encode_utf8(a), encode_utf8(b), encode_utf8(c));
}

/// Whether `a` comes before `b` in the order of byte strings.
pub fn before(a: &[u8], b: &[u8]) -> (answer: bool)
    ensures
        answer == bytes_before(a@, b@),
{
    let mut i: usize = 0;
    assert(a@.skip(0) =~= a@ && b@.skip(0) =~= b@);
    while i < a.len() && i < b.len()
        invariant
            i <= a@.len(),
            i <= b@.len(),
            bytes_before(a@, b@) == bytes_before(a@.skip(i as int), b@.skip(i as int)),
        decreases a@.len() - i,
    {
        assert(a@.skip(i as int).drop_first() =~= a@.skip(i + 1));
        assert(b@.skip(i as int).drop_first() =~= b@.skip(i + 1));
        if a[i] != b[i] {
            return a[i] < b[i];
        }
        i += 1;
    }
    i < b.len()
}

/// Whether text `a` comes before text `b`.
pub fn precedes(a: &str, b: &str) -> (answer: bool)
    ensures
        answer == text_before(a@, b@),
{
    before(a.as_bytes(), b.as_bytes())
}

/// Byte strings stand by the first byte in which they differ, the smaller one first, and one
/// that another begins with stands before it.
pub proof fn bytes_stand_by_their_first_difference(a: Seq<u8>, b: Seq<u8>, at: int)
    requires
        0 <= at <= a.len(),
        at < b.len(),
        forall|i: int| 0 <= i < at ==> a[i] == #[trigger] b[i],
    ensures
        at == a.len() ==> bytes_before(a, b),
        at < a.len() && a[at] < b[at] ==> bytes_before(a, b),
        at < a.len() && a[at] > b[at] ==> bytes_before(b, a),
    decreases at,
{
    if at > 0 {
        assert(a[0] == b[0]);
        let (x, y) = (a.drop_first(), b.drop_first());
        assert forall|i: int| 0 <= i < at - 1 implies x[i] == #[trigger] y[i] by {
            assert(a[i + 1] == b[i + 1]);
        }
        bytes_stand_by_their_first_difference(x, y, at - 1);
    }
}

} // verus!
