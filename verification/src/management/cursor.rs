//! Signed tokens that carry a read position between requests.
//!
//! A token is the URL-safe text of a payload followed by its signature. The
//! reader of a token learns the payload only where the signature is right.
use crate::crypto::{hmac_sha256_of, hmac_sign, hmac_verify, MESSAGE_BYTES};
use crate::encoding::{base64_decode, base64_encode, base64_text_is_shaped, base64_url_of};
use crate::error::Error;
use vstd::prelude::*;
use vstd::utf8::encode_utf8;

verus! {

/// The longest token that is read, in bytes.
pub const TOKEN_BYTES: usize = 4096;

/// The length of a signature.
pub const SIGNATURE_BYTES: usize = 32;

/// Whether `token` is what `payload` is handed out as under `secret`.
pub open spec fn is_seal(secret: Seq<u8>, payload: Seq<u8>, token: Seq<char>) -> bool {
    &&& hmac_sha256_of(secret, payload).len() == SIGNATURE_BYTES
    &&& token == base64_url_of(payload + hmac_sha256_of(secret, payload))
}

/// Whether `token` is the text of enough bytes to hold a payload and a signature.
pub open spec fn is_framed(token: Seq<char>) -> bool {
    exists|bytes: Seq<u8>| #[trigger] base64_url_of(bytes) == token && bytes.len() > SIGNATURE_BYTES
}

/// What a token is read as: a token that is too long or that frames nothing is
/// malformed, one that is not the seal of any payload conflicts, and any other
/// gives the one payload that it is the seal of.
pub open spec fn unseals(secret: Seq<u8>, token: Seq<char>, read: Result<Seq<u8>, Error>) -> bool {
    match read {
        Ok(payload) => {
            &&& encode_utf8(token).len() <= TOKEN_BYTES
            &&& payload.len() > 0
            &&& is_seal(secret, payload, token)
            &&& forall|other: Seq<u8>| #[trigger] is_seal(secret, other, token) ==> other == payload
        },
        Err(error) => if encode_utf8(token).len() > TOKEN_BYTES || !is_framed(token) {
            error == Error::Malformed
        } else {
            &&& error == Error::Conflict
            &&& forall|other: Seq<u8>| !#[trigger] is_seal(secret, other, token)
        },
    }
}

/// The token that carries `payload`.
pub fn seal(secret: &[u8], payload: Vec<u8>) -> (token: String)
    requires
        secret@.len() <= MESSAGE_BYTES,
        payload@.len() <= MESSAGE_BYTES,
    ensures
        is_seal(secret@, payload@, token@),
{
    let signature = hmac_sign(secret, payload.as_slice());
    let ghost tag = signature@;
    let mut bytes = payload;
    bytes.extend_from_slice(signature.as_slice());
    assert(bytes@ =~= payload@ + tag);
    base64_encode(bytes.as_slice())
}

/// The payload that `token` carries.
pub fn unseal(secret: &[u8], token: &str) -> (read: Result<Vec<u8>, Error>)
    requires
        secret@.len() <= MESSAGE_BYTES,
    ensures
        unseals(
            secret@,
            token@,
            match read {
                Ok(payload) => Ok(payload@),
                Err(error) => Err(error),
            },
        ),
{
    if token.as_bytes().len() > TOKEN_BYTES {
        return Err(Error::Malformed);
    }
    let bytes = match base64_decode(token) {
        Some(bytes) => bytes,
        None => return Err(Error::Malformed),
    };
    if bytes.len() <= SIGNATURE_BYTES {
        return Err(Error::Malformed);
    }
    assert(is_framed(token@)) by {
        assert(base64_url_of(bytes@) == token@);
    }
    let split: usize = bytes.len() - SIGNATURE_BYTES;
    let (payload, signature) = bytes.as_slice().split_at(split);
    let accepted = hmac_verify(secret, payload, signature);
    let ghost tag = signature@;
    let ghost body = payload@;
    assert(body + tag =~= bytes@);
    assert forall|other: Seq<u8>| #[trigger] is_seal(secret@, other, token@) implies accepted && other
        == body by {
        let whole = other + hmac_sha256_of(secret@, other);
        assert(base64_url_of(whole) == token@);
        assert(whole == bytes@);
        assert(other =~= whole.take(split as int));
        assert(hmac_sha256_of(secret@, other) =~= whole.skip(split as int));
        assert(body =~= bytes@.take(split as int));
        assert(tag =~= bytes@.skip(split as int));
    }
    if !accepted {
        return Err(Error::Conflict);
    }
    let mut owned: Vec<u8> = Vec::new();
    owned.extend_from_slice(payload);
    assert(owned@ =~= body);
    Ok(owned)
}

/// What is sealed is read back: the token of a payload that is not empty, where
/// it is short enough to be read, gives that payload.
pub proof fn sealed_payload_reads_back(
    secret: Seq<u8>,
    payload: Seq<u8>,
    token: Seq<char>,
    read: Result<Seq<u8>, Error>,
)
    requires
        is_seal(secret, payload, token),
        payload.len() > 0,
        encode_utf8(token).len() <= TOKEN_BYTES,
        unseals(secret, token, read),
    ensures
        read == Ok::<Seq<u8>, Error>(payload),
{
    let whole = payload + hmac_sha256_of(secret, payload);
    assert(base64_url_of(whole) == token && whole.len() > SIGNATURE_BYTES);
    assert(is_framed(token));
}

/// A token has one reading.
pub proof fn token_has_one_reading(
    secret: Seq<u8>,
    token: Seq<char>,
    one: Result<Seq<u8>, Error>,
    two: Result<Seq<u8>, Error>,
)
    requires
        unseals(secret, token, one),
        unseals(secret, token, two),
    ensures
        one == two,
{
    if let Ok(payload) = one {
        sealed_payload_reads_back(secret, payload, token, two);
    }
    if let Ok(payload) = two {
        sealed_payload_reads_back(secret, payload, token, one);
    }
}

/// A token that was altered does not give its payload: it is refused, unless it
/// happens to be the seal of another payload.
pub proof fn altered_token_is_refused(
    secret: Seq<u8>,
    payload: Seq<u8>,
    token: Seq<char>,
    other: Seq<char>,
    read: Result<Seq<u8>, Error>,
)
    requires
        is_seal(secret, payload, token),
        other != token,
        unseals(secret, other, read),
    ensures
        match read {
            Ok(found) => found != payload && is_seal(secret, found, other),
            Err(error) => error == Error::Malformed || error == Error::Conflict,
        },
{
}

/// A token with one more letter frames nothing where its length was a multiple of
/// four, and where it was two more than one and the letter is `x`.
pub proof fn longer_token_is_malformed(
    secret: Seq<u8>,
    payload: Seq<u8>,
    token: Seq<char>,
    letter: char,
    read: Result<Seq<u8>, Error>,
)
    requires
        is_seal(secret, payload, token),
        token.len() % 4 == 0 || token.len() % 4 == 2 && letter == 'x',
        unseals(secret, token.push(letter), read),
    ensures
        read == Err::<Seq<u8>, Error>(Error::Malformed),
{
    let longer = token.push(letter);
    assert forall|bytes: Seq<u8>| #[trigger] base64_url_of(bytes) != longer by {
        base64_text_is_shaped(bytes);
    }
}

} // verus!
