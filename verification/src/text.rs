//! Building text out of pieces.
use vstd::prelude::*;

verus! {

/// The characters of `a` followed by those of `b`.
pub fn join(a: &str, b: &str) -> (joined: String)
    ensures
        joined@ == a@ + b@,
{
    let mut joined = a.to_owned();
    joined.append(b);
    joined
}

/// The characters of `a`, `b` and `c`, one after the other.
pub fn join3(a: &str, b: &str, c: &str) -> (joined: String)
    ensures
        joined@ == a@ + b@ + c@,
{
    let mut joined = a.to_owned();
    joined.append(b);
    joined.append(c);
    joined
}

/// Whether two texts hold the same characters.
pub fn same(a: &str, b: &str) -> (equal: bool)
    ensures
        equal == (a@ == b@),
{
    let a = a.to_owned();
    let b = b.to_owned();
    a == b
}

/// What follows `prefix` in `text`, where `text` begins with it.
pub fn strip_prefix<'a>(text: &'a str, prefix: &str) -> (rest: Option<&'a str>)
    ensures
        match rest {
            Some(rest) => text@ == prefix@ + rest@,
            None => !(prefix@ == text@.take(prefix@.len() as int) && prefix@.len() <= text@.len()),
        },
{
    let length: usize = prefix.unicode_len();
    let whole: usize = text.unicode_len();
    if length > whole {
        return None;
    }
    let head = text.substring_char(0, length);
    if !same(head, prefix) {
        assert(head@ == text@.take(length as int));
        return None;
    }
    let rest = text.substring_char(length, whole);
    assert(text@ =~= prefix@ + rest@);
    Some(rest)
}

/// `true` or `false` as text.
pub fn truth(value: bool) -> (word: &'static str)
    ensures
        word@ == (if value { "true"@ } else { "false"@ }),
{
    if value { "true" } else { "false" }
}

} // verus!
