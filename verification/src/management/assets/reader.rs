//! What a reader is known by: a document of who reads and of the devices that they
//! may see, and the digest of that document.
use crate::crypto::{digests_differ, sha256, sha256_of};
use crate::encoding::{hex, hex_of, hex_texts_differ};
use crate::error::Error;
use crate::id::Id;
use crate::json::{
    array_of, arrays_differ, ends_differ, is_code, json_text, quoted, rests_differ, strings_differ,
    tail_of,
};
use crate::management::assets::model::ReadScope;
use crate::management::assets::query_read::{accepted_at, Cursor, Position};
use crate::management::cursor::{is_seal, sealed_payload_reads_back, unseals, TOKEN_BYTES};
use crate::set::OrderedSet;
use vstd::prelude::*;
use vstd::utf8::{encode_utf8, encode_utf8_decode_utf8};

verus! {

/// Who reads, and the devices that they may see: all, or those listed, in order.
pub struct Reader {
    pub subject: Seq<char>,
    pub devices: Option<Seq<Seq<char>>>,
}

/// Who reads under a scope, and what they may see.
pub open spec fn reader_of(scope: ReadScope) -> Reader {
    Reader {
        subject: scope.subject@,
        devices: match scope.devices {
            Some(devices) => Some(devices@),
            None => None,
        },
    }
}

/// How texts are written.
pub open spec fn text_code() -> spec_fn(Seq<char>) -> Seq<char> {
    |text: Seq<char>| quoted(text)
}

/// The devices that a reader may see, as JSON.
pub open spec fn devices_text(devices: Option<Seq<Seq<char>>>) -> Seq<char> {
    match devices {
        Some(devices) => array_of(devices, text_code()),
        None => seq!['n', 'u', 'l', 'l'],
    }
}

/// The document that a reader is known by.
pub open spec fn document_of(reader: Reader) -> Seq<char> {
    "{\"subject\":"@ + (quoted(reader.subject) + (",\"devices\":"@ + (devices_text(reader.devices)
        + seq!['}'])))
}

/// The digest that a reader is known by.
pub open spec fn digest_of(reader: Reader) -> Seq<char> {
    hex_of(sha256_of(encode_utf8(document_of(reader))))
}

/// Some texts as JSON.
fn write_texts(texts: &OrderedSet<String>) -> (written: String)
    ensures
        written@ == array_of(texts@, text_code()),
{
    proof {
        reveal_strlit("[");
        reveal_strlit(",");
        reveal_strlit("]");
        reveal_strlit("[]");
    }
    if texts.items.len() == 0 {
        assert("[]"@ =~= seq!['[', ']']);
        return "[]".to_owned();
    }
    let ghost all = texts@;
    let ghost whole = array_of(all, text_code());
    assert("["@ =~= seq!['[']);
    assert(","@ =~= seq![',']);
    assert("]"@ =~= seq![']']);
    let mut written = "[".to_owned();
    written.append(json_text(texts.items[0].as_str()).as_str());
    let mut i: usize = 1;
    assert(written@ + tail_of(all.skip(1), text_code()) =~= whole);
    while i < texts.items.len()
        invariant
            1 <= i <= texts.items@.len(),
            all == texts@,
            all.len() == texts.items@.len(),
            ","@ == seq![','],
            written@ + tail_of(all.skip(i as int), text_code()) == whole,
        decreases texts.items@.len() - i,
    {
        let ghost before = written@;
        written.append(",");
        written.append(json_text(texts.items[i].as_str()).as_str());
        proof {
            let rest = all.skip(i as int);
            assert(rest[0] == all[i as int]);
            assert(rest.skip(1) =~= all.skip(i + 1));
            assert(written@ + tail_of(all.skip(i + 1), text_code()) =~= before + tail_of(
                rest,
                text_code(),
            ));
        }
        i += 1;
    }
    assert(all.skip(i as int).len() == 0);
    written.append("]");
    written
}

/// The document that a reader is known by.
pub fn document(scope: &ReadScope) -> (written: String)
    ensures
        written@ == document_of(reader_of(*scope)),
{
    proof {
        reveal_strlit("}");
        reveal_strlit("null");
    }
    assert("}"@ =~= seq!['}']);
    assert("null"@ =~= seq!['n', 'u', 'l', 'l']);
    let mut written = "{\"subject\":".to_owned();
    written.append(json_text(scope.subject.as_str()).as_str());
    written.append(",\"devices\":");
    match &scope.devices {
        Some(devices) => written.append(write_texts(devices).as_str()),
        None => written.append("null"),
    }
    written.append("}");
    assert(written@ =~= document_of(reader_of(*scope)));
    written
}

/// The digest that a reader is known by.
pub fn digest(scope: &ReadScope) -> (digest: String)
    ensures
        digest@ == digest_of(reader_of(*scope)),
{
    let found = sha256(document(scope).as_str().as_bytes());
    hex(found.as_slice())
}

/// Texts are told apart by how they are written.
proof fn texts_are_coded()
    ensures
        is_code(text_code()),
{
    let code = text_code();
    assert forall|a: Seq<char>| (#[trigger] code(a)).len() > 0 && code(a)[0] != ']' by {
        assert(code(a)[0] == '"');
    }
    assert forall|a: Seq<char>, b: Seq<char>, s: Seq<char>, t: Seq<char>| #[trigger]
        (code(a) + s) == #[trigger] (code(b) + t) implies a == b && s == t by {
        strings_differ(a, b, s, t);
    }
}

/// Where the devices of two readers begin two equal texts, they are the same.
proof fn devices_differ(
    a: Option<Seq<Seq<char>>>,
    b: Option<Seq<Seq<char>>>,
    s: Seq<char>,
    t: Seq<char>,
)
    requires
        devices_text(a) + s == devices_text(b) + t,
    ensures
        a == b,
        s == t,
{
    let whole = devices_text(a) + s;
    assert(whole[0] == devices_text(a)[0]);
    assert(whole[0] == devices_text(b)[0]);
    match (a, b) {
        (Some(x), Some(y)) => {
            texts_are_coded();
            arrays_differ(x, y, text_code(), s, t);
        },
        _ => {
            ends_differ(seq!['n', 'u', 'l', 'l'], s, t);
        },
    }
}

/// Two readers have one document exactly where they are the same subject and may
/// see the same devices.
pub proof fn documents_tell_readers_apart(one: Reader, two: Reader)
    ensures
        document_of(one) == document_of(two) <==> one == two,
{
    if document_of(one) == document_of(two) {
        let (s2, t2) = (
            devices_text(one.devices) + seq!['}'],
            devices_text(two.devices) + seq!['}'],
        );
        let (s1, t1) = (",\"devices\":"@ + s2, ",\"devices\":"@ + t2);
        ends_differ("{\"subject\":"@, quoted(one.subject) + s1, quoted(two.subject) + t1);
        strings_differ(one.subject, two.subject, s1, t1);
        ends_differ(",\"devices\":"@, s2, t2);
        devices_differ(one.devices, two.devices, seq!['}'], seq!['}']);
    }
}

/// Two readers have one digest exactly where they are the same subject and may see
/// the same devices, unless the digests of two different documents are one.
pub proof fn digests_tell_readers_apart(one: Reader, two: Reader)
    requires
        digests_differ(encode_utf8(document_of(one)), encode_utf8(document_of(two))),
    ensures
        digest_of(one) == digest_of(two) <==> one == two,
{
    documents_tell_readers_apart(one, two);
    encode_utf8_decode_utf8(document_of(one));
    encode_utf8_decode_utf8(document_of(two));
    if digest_of(one) == digest_of(two) {
        hex_texts_differ(
            sha256_of(encode_utf8(document_of(one))),
            sha256_of(encode_utf8(document_of(two))),
        );
    }
}

/// The token of a query's cursor is read back as the cursor that it was made of,
/// and then accepted exactly for the tenant and the task that it was issued for,
/// and for a reader who is the same subject and may see the same devices as the one
/// it was issued to: for any other, and for the same subject once they may see
/// other devices, it conflicts, unless the digests of two different documents are
/// one. `payload` is the cursor as it was written, `read` what the unsealed payload
/// was read as.
pub proof fn tokens_are_bound_to_their_reader(
    secret: Seq<u8>,
    cursor: Cursor,
    issued: Reader,
    payload: Seq<u8>,
    token: Seq<char>,
    unsealed: Result<Seq<u8>, Error>,
    read: Option<Cursor>,
    tenant: Seq<char>,
    task: Id,
    reader: Reader,
)
    requires
        cursor.scope@ == digest_of(issued),
        is_seal(secret, payload, token),
        payload.len() > 0,
        encode_utf8(token).len() <= TOKEN_BYTES,
        unseals(secret, token, unsealed),
        unsealed == Ok::<Seq<u8>, Error>(payload) ==> read == Some(cursor),
        digests_differ(encode_utf8(document_of(issued)), encode_utf8(document_of(reader))),
    ensures
        accepted_at(read, tenant, task, digest_of(reader)) == (if cursor.tenant@ == tenant
            && cursor.task == task && issued == reader {
            Ok::<Position, Error>(cursor.position)
        } else {
            Err(Error::Conflict)
        }),
{
    sealed_payload_reads_back(secret, payload, token, unsealed);
    digests_tell_readers_apart(issued, reader);
}

/// Two scopes are of one reader exactly where they are of one subject and list the same
/// devices, or both list none.
pub proof fn readers_are_told_apart_by_subject_and_devices(one: ReadScope, two: ReadScope)
    ensures
        reader_of(one) == reader_of(two) <==> one.subject@ == two.subject@ && (one.devices is Some
            <==> two.devices is Some) && (one.devices is Some ==> one.devices->Some_0@
            == two.devices->Some_0@),
{
}

} // verus!
