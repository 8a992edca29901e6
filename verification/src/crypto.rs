//! Digests and signatures, computed by `sha2` and `ring`.
use vstd::prelude::*;

verus! {

/// The longest message that is signed or encoded. It keeps every length
/// computed from a message within the address space.
pub const MESSAGE_BYTES: usize = 0x4000_0000;

/// The SHA-256 digest of a message.
pub uninterp spec fn sha256_of(message: Seq<u8>) -> Seq<u8>;

/// Whether two messages have different digests unless they are one.
pub open spec fn digests_differ(one: Seq<u8>, two: Seq<u8>) -> bool {
    sha256_of(one) == sha256_of(two) ==> one == two
}

/// Calls `sha2::Sha256::digest`: the result is the digest of `message`, a
/// function of its bytes alone, and is 32 bytes long.
#[verifier::external_body]
pub(crate) fn sha256(message: &[u8]) -> (digest: [u8; 32])
    ensures
        digest@ == sha256_of(message@),
        digest@.len() == 32,
{
    <sha2::Sha256 as sha2::Digest>::digest(message).into()
}

/// The HMAC-SHA-256 tag of a message under a secret.
pub uninterp spec fn hmac_sha256_of(secret: Seq<u8>, message: Seq<u8>) -> Seq<u8>;

/// Calls `ring::hmac::sign` with an HMAC-SHA-256 key made of `secret`: the
/// result is the tag of `message`, a function of the two arguments alone, and is
/// 32 bytes long. The bounds leave out the lengths on which `ring` panics.
#[verifier::external_body]
pub(crate) fn hmac_sign(secret: &[u8], message: &[u8]) -> (tag: Vec<u8>)
    requires
        secret@.len() <= MESSAGE_BYTES,
        message@.len() <= MESSAGE_BYTES,
    ensures
        tag@ == hmac_sha256_of(secret@, message@),
        tag@.len() == 32,
{
    let key = ring::hmac::Key::new(ring::hmac::HMAC_SHA256, secret);
    ring::hmac::sign(&key, message).as_ref().to_vec()
}

/// Calls `ring::hmac::verify` with an HMAC-SHA-256 key made of `secret`: it
/// accepts `tag` exactly where it is the tag of `message`. The bounds leave out
/// the lengths on which `ring` panics.
#[verifier::external_body]
pub(crate) fn hmac_verify(secret: &[u8], message: &[u8], tag: &[u8]) -> (accepted: bool)
    requires
        secret@.len() <= MESSAGE_BYTES,
        message@.len() <= MESSAGE_BYTES,
    ensures
        accepted == (tag@ == hmac_sha256_of(secret@, message@)),
{
    let key = ring::hmac::Key::new(ring::hmac::HMAC_SHA256, secret);
    ring::hmac::verify(&key, message, tag).is_ok()
}

} // verus!
