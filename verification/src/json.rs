//! Pieces of JSON text. Strings are written and documents are compared by
//! `serde_json`; what stands around them is put together here, in such a way that
//! two values are never written alike.
use crate::encoding::hex_digit_of;
use crate::number::{decimal_of, digit_value, digits_value};
use vstd::prelude::*;

verus! {

/// How a character is written inside a JSON string.
pub open spec fn escape_of(symbol: char) -> Seq<char> {
    if symbol == '"' || symbol == '\\' {
        seq!['\\', symbol]
    } else if symbol == '\u{8}' {
        seq!['\\', 'b']
    } else if symbol == '\t' {
        seq!['\\', 't']
    } else if symbol == '\n' {
        seq!['\\', 'n']
    } else if symbol == '\u{c}' {
        seq!['\\', 'f']
    } else if symbol == '\r' {
        seq!['\\', 'r']
    } else if (symbol as int) < 32 {
        seq![
            '\\',
            'u',
            '0',
            '0',
            hex_digit_of(symbol as int / 16),
            hex_digit_of(symbol as int % 16),
        ]
    } else {
        seq![symbol]
    }
}

/// What stands between the quotes of a JSON string.
pub open spec fn escaped(text: Seq<char>) -> Seq<char>
    decreases text.len(),
{
    if text.len() == 0 {
        Seq::empty()
    } else {
        escape_of(text[0]) + escaped(text.skip(1))
    }
}

/// A text as a JSON string.
pub open spec fn quoted(text: Seq<char>) -> Seq<char> {
    seq!['"'] + escaped(text) + seq!['"']
}

/// Calls `serde_json::to_string` on a text: quotes around it, and an escape for
/// each quote, backslash and control character in it. A text is always written.
#[verifier::external_body]
pub(crate) fn json_text(text: &str) -> (written: String)
    ensures
        written@ == quoted(text@),
{
    serde_json::to_string(text).unwrap_or_default()
}

/// Whether two texts are JSON and hold equal documents.
pub uninterp spec fn same_document(a: Seq<char>, b: Seq<char>) -> bool;

/// Calls `==` on two `serde_json::Value`s, each read from its text by
/// `serde_json::from_str`: whether both texts are JSON and hold equal documents,
/// which depends on the two texts alone. What equality means for documents is left
/// to `serde_json`: white space and the order of an object's members do not count.
#[verifier::external_body]
pub(crate) fn json_same(a: &str, b: &str) -> (equal: bool)
    ensures
        equal == same_document(a@, b@),
{
    let a: Result<serde_json::Value, serde_json::Error> = serde_json::from_str(a);
    let b: Result<serde_json::Value, serde_json::Error> = serde_json::from_str(b);
    match (a, b) {
        (Ok(a), Ok(b)) => a == b,
        _ => false,
    }
}

/// An optional text as a JSON string, or as `null`.
pub open spec fn optional_of(text: Option<Seq<char>>) -> Seq<char> {
    match text {
        Some(text) => quoted(text),
        None => seq!['n', 'u', 'l', 'l'],
    }
}

/// A value, a comma, and what follows it.
pub open spec fn followed(value: Seq<char>, rest: Seq<char>) -> Seq<char> {
    value + (seq![','] + rest)
}

/// Two equal texts that begin with one symbol go on alike.
pub proof fn rests_differ(symbol: char, s: Seq<char>, t: Seq<char>)
    requires
        seq![symbol] + s == seq![symbol] + t,
    ensures
        s == t,
{
    assert((seq![symbol] + s).skip(1) =~= s);
    assert((seq![symbol] + t).skip(1) =~= t);
}

/// Two equal texts that begin with one text go on alike.
pub proof fn ends_differ(head: Seq<char>, s: Seq<char>, t: Seq<char>)
    requires
        head + s == head + t,
    ensures
        s == t,
{
    assert((head + s).skip(head.len() as int) =~= s);
    assert((head + t).skip(head.len() as int) =~= t);
}

/// Where two escapes begin two equal texts, they are of one character.
proof fn escapes_differ(c: char, d: char, s: Seq<char>, t: Seq<char>)
    requires
        escape_of(c) + s == escape_of(d) + t,
    ensures
        c == d,
        s == t,
{
    let whole = escape_of(c) + s;
    let one = escape_of(c);
    let two = escape_of(d);
    assert(whole[0] == one[0] && whole[0] == two[0]);
    if one.len() > 1 {
        assert(whole[1] == one[1]);
    }
    if two.len() > 1 {
        assert(whole[1] == two[1]);
    }
    if one.len() == 6 && two.len() == 6 {
        assert(whole[4] == one[4] && whole[4] == two[4]);
        assert(whole[5] == one[5] && whole[5] == two[5]);
    }
    assert(c == d);
    assert(whole.skip(one.len() as int) =~= s);
    assert(whole.skip(two.len() as int) =~= t);
}

/// No escape begins with a quote.
proof fn escapes_begin_otherwise(c: char)
    ensures
        escape_of(c).len() > 0,
        escape_of(c)[0] != '"',
{
}

/// Where two texts end at a quote in two equal texts, they are one text.
proof fn strings_end_alike(a: Seq<char>, b: Seq<char>, s: Seq<char>, t: Seq<char>)
    requires
        escaped(a) + seq!['"'] + s == escaped(b) + seq!['"'] + t,
    ensures
        a == b,
        s == t,
    decreases a.len() + b.len(),
{
    let whole = escaped(a) + seq!['"'] + s;
    if a.len() > 0 {
        escapes_begin_otherwise(a[0]);
        assert(whole[0] == escape_of(a[0])[0]);
    } else {
        assert(whole[0] == '"');
    }
    if b.len() > 0 {
        escapes_begin_otherwise(b[0]);
        assert(whole[0] == escape_of(b[0])[0]);
    } else {
        assert((escaped(b) + seq!['"'] + t)[0] == '"');
    }
    if a.len() > 0 && b.len() > 0 {
        let left = escaped(a.skip(1)) + seq!['"'] + s;
        let right = escaped(b.skip(1)) + seq!['"'] + t;
        assert(whole =~= escape_of(a[0]) + left);
        assert(whole =~= escape_of(b[0]) + right);
        escapes_differ(a[0], b[0], left, right);
        strings_end_alike(a.skip(1), b.skip(1), s, t);
        assert(a =~= seq![a[0]] + a.skip(1));
        assert(b =~= seq![b[0]] + b.skip(1));
    } else {
        assert(a =~= b);
        assert(whole.skip(1) =~= s);
        assert(whole.skip(1) =~= t);
    }
}

/// Where two JSON strings begin two equal texts, they are of one text.
pub proof fn strings_differ(a: Seq<char>, b: Seq<char>, s: Seq<char>, t: Seq<char>)
    requires
        quoted(a) + s == quoted(b) + t,
    ensures
        a == b,
        s == t,
{
    let whole = quoted(a) + s;
    assert(whole.skip(1) =~= escaped(a) + seq!['"'] + s);
    assert(whole.skip(1) =~= escaped(b) + seq!['"'] + t);
    strings_end_alike(a, b, s, t);
}

/// Where two optional JSON strings begin two equal texts, they are one.
pub proof fn optionals_differ(
    a: Option<Seq<char>>,
    b: Option<Seq<char>>,
    s: Seq<char>,
    t: Seq<char>,
)
    requires
        optional_of(a) + s == optional_of(b) + t,
    ensures
        a == b,
        s == t,
{
    let whole = optional_of(a) + s;
    assert(whole[0] == optional_of(a)[0]);
    assert(whole[0] == optional_of(b)[0]);
    match (a, b) {
        (Some(one), Some(two)) => strings_differ(one, two, s, t),
        _ => {
            assert(whole.skip(4) =~= s);
            assert(whole.skip(4) =~= t);
        },
    }
}

/// The decimal text of a number is made of digits, and denotes the number.
proof fn decimals_denote(number: nat)
    ensures
        decimal_of(number).len() > 0,
        forall|i: int|
            0 <= i < decimal_of(number).len() ==> digit_value(#[trigger] decimal_of(number)[i])
                is Some,
        digits_value(decimal_of(number)) == Some(number),
    decreases number,
{
    let text = decimal_of(number);
    if number < 10 {
        assert(text.drop_last() =~= Seq::empty());
        assert(digits_value(text.drop_last()) == Some(0nat));
    } else {
        decimals_denote(number / 10);
        assert(text.drop_last() =~= decimal_of(number / 10));
        assert forall|i: int| 0 <= i < text.len() implies digit_value(#[trigger] text[i]) is Some by {
            if i < text.len() - 1 {
                assert(text[i] == decimal_of(number / 10)[i]);
            }
        }
    }
}

/// Where two numbers that are not followed by digits begin two equal texts, they
/// are one.
pub proof fn numbers_differ(a: nat, b: nat, s: Seq<char>, t: Seq<char>)
    requires
        decimal_of(a) + s == decimal_of(b) + t,
        s.len() > 0,
        t.len() > 0,
        digit_value(s[0]) is None,
        digit_value(t[0]) is None,
    ensures
        a == b,
        s == t,
{
    decimals_denote(a);
    decimals_denote(b);
    let one = decimal_of(a);
    let two = decimal_of(b);
    let whole = one + s;
    if one.len() < two.len() {
        assert(whole[one.len() as int] == s[0]);
        assert(whole[one.len() as int] == two[one.len() as int]);
    }
    if two.len() < one.len() {
        assert(whole[two.len() as int] == t[0]);
        assert(whole[two.len() as int] == one[two.len() as int]);
    }
    assert(whole.take(one.len() as int) =~= one);
    assert(whole.take(one.len() as int) =~= two);
    assert(whole.skip(one.len() as int) =~= s);
    assert(whole.skip(one.len() as int) =~= t);
}

/// Whether values are written so that the texts of two never begin two equal
/// texts, nor a text that goes on with a closing bracket.
pub open spec fn is_code<T>(code: spec_fn(T) -> Seq<char>) -> bool {
    &&& forall|a: T| (#[trigger] code(a)).len() > 0 && code(a)[0] != ']'
    &&& forall|a: T, b: T, s: Seq<char>, t: Seq<char>| #[trigger]
        (code(a) + s) == #[trigger] (code(b) + t) ==> a == b && s == t
}

/// What stands behind the first value of a JSON array.
pub open spec fn tail_of<T>(items: Seq<T>, code: spec_fn(T) -> Seq<char>) -> Seq<char>
    decreases items.len(),
{
    if items.len() == 0 {
        seq![']']
    } else {
        seq![','] + code(items[0]) + tail_of(items.skip(1), code)
    }
}

/// Values as a JSON array.
pub open spec fn array_of<T>(items: Seq<T>, code: spec_fn(T) -> Seq<char>) -> Seq<char> {
    if items.len() == 0 {
        seq!['[', ']']
    } else {
        seq!['['] + code(items[0]) + tail_of(items.skip(1), code)
    }
}

/// Where two arrays end in two equal texts behind their first values, they hold
/// the same further values.
proof fn tails_differ<T>(
    a: Seq<T>,
    b: Seq<T>,
    code: spec_fn(T) -> Seq<char>,
    s: Seq<char>,
    t: Seq<char>,
)
    requires
        is_code(code),
        tail_of(a, code) + s == tail_of(b, code) + t,
    ensures
        a == b,
        s == t,
    decreases a.len(),
{
    let whole = tail_of(a, code) + s;
    assert(whole[0] == tail_of(a, code)[0]);
    assert(whole[0] == tail_of(b, code)[0]);
    if a.len() > 0 && b.len() > 0 {
        let left = tail_of(a.skip(1), code) + s;
        let right = tail_of(b.skip(1), code) + t;
        assert(whole.skip(1) =~= code(a[0]) + left);
        assert(whole.skip(1) =~= code(b[0]) + right);
        tails_differ(a.skip(1), b.skip(1), code, s, t);
        assert(a =~= seq![a[0]] + a.skip(1));
        assert(b =~= seq![b[0]] + b.skip(1));
    } else {
        assert(a =~= b);
        assert(whole.skip(1) =~= s);
        assert(whole.skip(1) =~= t);
    }
}

/// Where two arrays begin two equal texts, they hold the same values.
pub proof fn arrays_differ<T>(
    a: Seq<T>,
    b: Seq<T>,
    code: spec_fn(T) -> Seq<char>,
    s: Seq<char>,
    t: Seq<char>,
)
    requires
        is_code(code),
        array_of(a, code) + s == array_of(b, code) + t,
    ensures
        a == b,
        s == t,
{
    let whole = array_of(a, code) + s;
    assert(whole[1] == array_of(a, code)[1]);
    assert(whole[1] == array_of(b, code)[1]);
    if a.len() > 0 && b.len() > 0 {
        let left = tail_of(a.skip(1), code) + s;
        let right = tail_of(b.skip(1), code) + t;
        assert(whole.skip(1) =~= code(a[0]) + left);
        assert(whole.skip(1) =~= code(b[0]) + right);
        tails_differ(a.skip(1), b.skip(1), code, s, t);
        assert(a =~= seq![a[0]] + a.skip(1));
        assert(b =~= seq![b[0]] + b.skip(1));
    } else {
        if a.len() > 0 {
            assert(array_of(a, code)[1] == code(a[0])[0]);
        }
        if b.len() > 0 {
            assert(array_of(b, code)[1] == code(b[0])[0]);
        }
        assert(a =~= b);
        assert(whole.skip(2) =~= s);
        assert(whole.skip(2) =~= t);
    }
}

} // verus!
