//! What is kept of requests, and what is known of devices.
use crate::crypto::{digests_differ, sha256, sha256_of};
use crate::error::{Error, Failure};
use crate::id::{nil, Id};
use crate::json::{
    followed, json_same, json_text, optional_of, optionals_differ, quoted, rests_differ,
    same_document, strings_differ,
};
use crate::management::automation::jobs::text_view;
use crate::management::command::Command;
use crate::management::model::{DeviceIdentity, Missing, Registration};
use crate::text::same;
use vstd::prelude::*;
use vstd::utf8::{encode_utf8, encode_utf8_decode_utf8};

verus! {

/// The document that a request is known by: the tenant, who asks, through which
/// instance, and what is asked for, as a JSON array.
pub open spec fn request_document(
    tenant: Seq<char>,
    actor: Option<Seq<char>>,
    instance: Option<Seq<char>>,
    command: Seq<char>,
) -> Seq<char> {
    seq!['['] + followed(
        quoted(tenant),
        followed(optional_of(actor), followed(optional_of(instance), command + seq![']'])),
    )
}

/// The fingerprint of a request: the digest of its document.
pub open spec fn fingerprint_of(
    tenant: Seq<char>,
    actor: Option<Seq<char>>,
    instance: Option<Seq<char>>,
    command: Seq<char>,
) -> Seq<u8> {
    sha256_of(encode_utf8(request_document(tenant, actor, instance, command)))
}

/// An optional text as a JSON string, or as `null`.
fn optional(text: &Option<String>) -> (written: String)
    ensures
        written@ == optional_of(text_view(*text)),
{
    match text {
        Some(text) => json_text(text.as_str()),
        None => {
            proof {
                reveal_strlit("null");
            }
            assert("null"@ =~= seq!['n', 'u', 'l', 'l']);
            "null".to_owned()
        },
    }
}

/// The fingerprint of a request. `command` is what is asked for, as JSON.
pub fn fingerprint(
    tenant: &str,
    actor: &Option<String>,
    instance: &Option<String>,
    command: &str,
) -> (digest: Vec<u8>)
    ensures
        digest@ == fingerprint_of(tenant@, text_view(*actor), text_view(*instance), command@),
        digest@.len() == 32,
{
    proof {
        reveal_strlit("[");
        reveal_strlit(",");
        reveal_strlit("]");
    }
    let mut document = "[".to_owned();
    document.append(json_text(tenant).as_str());
    document.append(",");
    document.append(optional(actor).as_str());
    document.append(",");
    document.append(optional(instance).as_str());
    document.append(",");
    document.append(command);
    document.append("]");
    assert("["@ =~= seq!['[']);
    assert(","@ =~= seq![',']);
    assert("]"@ =~= seq![']']);
    assert(document@ =~= request_document(
        tenant@,
        text_view(*actor),
        text_view(*instance),
        command@,
    ));
    let found = sha256(document.as_str().as_bytes());
    let mut digest: Vec<u8> = Vec::new();
    let mut i: usize = 0;
    while i < 32
        invariant
            i <= 32,
            found@.len() == 32,
            digest@ =~= found@.take(i as int),
        decreases 32 - i,
    {
        digest.push(found[i]);
        i += 1;
    }
    assert(digest@ =~= found@);
    digest
}

/// The operation that a request carries, where it changes anything, and the
/// fingerprint that the request is known by; an operation that stands for none is
/// refused. `document` is the request as JSON.
pub fn identity(
    command: &Command,
    tenant: &str,
    actor: &Option<String>,
    instance: &Option<String>,
    document: &str,
) -> (identity: Result<(Option<Id>, Vec<u8>), Error>)
    ensures
        match identity {
            Ok((operation, digest)) => {
                &&& command.spec_operation() != Some(nil())
                &&& operation == command.spec_operation()
                &&& digest@ == fingerprint_of(
                    tenant@,
                    text_view(*actor),
                    text_view(*instance),
                    document@,
                )
                &&& digest@.len() == 32
            },
            Err(error) => error == Error::Malformed && command.spec_operation() == Some(nil()),
        },
{
    match command.identity() {
        Ok(operation) => Ok((operation, fingerprint(tenant, actor, instance, document))),
        Err(error) => Err(error),
    }
}

/// Two requests have one document exactly where they are of one tenant, come from
/// one actor through one instance and ask for the same.
pub proof fn documents_tell_requests_apart(
    tenant: Seq<char>,
    actor: Option<Seq<char>>,
    instance: Option<Seq<char>>,
    command: Seq<char>,
    other_tenant: Seq<char>,
    other_actor: Option<Seq<char>>,
    other_instance: Option<Seq<char>>,
    other_command: Seq<char>,
)
    ensures
        request_document(tenant, actor, instance, command) == request_document(
            other_tenant,
            other_actor,
            other_instance,
            other_command,
        ) <==> tenant == other_tenant && actor == other_actor && instance == other_instance
            && command == other_command,
{
    if request_document(tenant, actor, instance, command) == request_document(
        other_tenant,
        other_actor,
        other_instance,
        other_command,
    ) {
        let (a3, b3) = (command + seq![']'], other_command + seq![']']);
        let a2 = followed(optional_of(instance), a3);
        let b2 = followed(optional_of(other_instance), b3);
        let a1 = followed(optional_of(actor), a2);
        let b1 = followed(optional_of(other_actor), b2);
        rests_differ('[', followed(quoted(tenant), a1), followed(quoted(other_tenant), b1));
        strings_differ(tenant, other_tenant, seq![','] + a1, seq![','] + b1);
        rests_differ(',', a1, b1);
        optionals_differ(actor, other_actor, seq![','] + a2, seq![','] + b2);
        rests_differ(',', a2, b2);
        optionals_differ(instance, other_instance, seq![','] + a3, seq![','] + b3);
        rests_differ(',', a3, b3);
        assert(a3.drop_last() =~= command);
        assert(b3.drop_last() =~= other_command);
    }
}

/// Two requests have one fingerprint exactly where they are of one tenant, come
/// from one actor through one instance and ask for the same, unless the digests of
/// two different documents are one.
pub proof fn fingerprints_tell_requests_apart(
    tenant: Seq<char>,
    actor: Option<Seq<char>>,
    instance: Option<Seq<char>>,
    command: Seq<char>,
    other_tenant: Seq<char>,
    other_actor: Option<Seq<char>>,
    other_instance: Option<Seq<char>>,
    other_command: Seq<char>,
)
    requires
        digests_differ(
            encode_utf8(request_document(tenant, actor, instance, command)),
            encode_utf8(
                request_document(other_tenant, other_actor, other_instance, other_command),
            ),
        ),
    ensures
        fingerprint_of(tenant, actor, instance, command) == fingerprint_of(
            other_tenant,
            other_actor,
            other_instance,
            other_command,
        ) <==> tenant == other_tenant && actor == other_actor && instance == other_instance
            && command == other_command,
{
    documents_tell_requests_apart(
        tenant,
        actor,
        instance,
        command,
        other_tenant,
        other_actor,
        other_instance,
        other_command,
    );
    encode_utf8_decode_utf8(request_document(tenant, actor, instance, command));
    encode_utf8_decode_utf8(
        request_document(other_tenant, other_actor, other_instance, other_command),
    );
}

/// How a request is recorded inside its transaction: one that only admits work
/// of the release driver is recorded as unknown, any other as what it did.
pub open spec fn recorded(software_stage: Option<String>, result: Option<String>) -> (
    u16,
    Seq<char>,
) {
    if software_stage matches Some(stage) && stage@ == "management_admission"@ {
        (202, "unknown"@)
    } else {
        (
            200,
            match result {
                Some(tag) => tag@,
                None => "success"@,
            },
        )
    }
}

/// How a request is recorded inside its transaction.
pub fn audit(software_stage: &Option<String>, result: Option<String>) -> (record: (u16, String))
    ensures
        (record.0, record.1@) == recorded(*software_stage, result),
{
    if let Some(stage) = software_stage {
        if same(stage.as_str(), "management_admission") {
            return (202, "unknown".to_owned());
        }
    }
    match result {
        Some(tag) => (200, tag),
        None => (200, "success".to_owned()),
    }
}

/// Whether `revision` is the highest generation of some registrations.
pub open spec fn is_highest(registrations: Seq<Registration>, revision: u64) -> bool {
    &&& exists|i: int|
        0 <= i < registrations.len() && (#[trigger] registrations[i]).generation == revision
    &&& forall|i: int|
        0 <= i < registrations.len() ==> (#[trigger] registrations[i]).generation <= revision
}

/// The identity of a device that has active registrations: all of them, at the
/// highest of their generations.
pub fn device(registrations: Vec<Registration>) -> (identity: Result<DeviceIdentity, Error>)
    ensures
        match identity {
            Ok(identity) => identity.registrations == registrations && is_highest(
                registrations@,
                identity.revision,
            ),
            Err(error) => error == Error::ManagementNotFound(Missing::Device)
                && registrations@.len() == 0,
        },
{
    if registrations.len() == 0 {
        return Err(Error::ManagementNotFound(Missing::Device));
    }
    let mut revision: u64 = registrations[0].generation;
    let mut i: usize = 1;
    while i < registrations.len()
        invariant
            1 <= i <= registrations@.len(),
            exists|j: int|
                0 <= j < i && (#[trigger] registrations@[j]).generation == revision,
            forall|j: int| 0 <= j < i ==> (#[trigger] registrations@[j]).generation <= revision,
        decreases registrations@.len() - i,
    {
        if registrations[i].generation > revision {
            revision = registrations[i].generation;
        }
        i += 1;
    }
    Ok(DeviceIdentity { revision, registrations })
}

/// Accepts a database for the management domain: it has to say that it is one,
/// and its catalog has to be the expected document. How the two are laid out does
/// not count.
pub fn admit_database(confirmed: bool, catalog: &str, expected: &str) -> (admitted: Result<(), Error>)
    ensures
        admitted is Ok <==> confirmed && same_document(catalog@, expected@),
        admitted is Err ==> admitted == Err::<(), Error>(
            Error::Unavailable(Failure::ManagementAdmission),
        ),
{
    admit_catalog(confirmed, json_same(catalog, expected))
}

/// Accepts a database that says it is one for the management domain, where its
/// catalog was found to be the expected document.
pub fn admit_catalog(confirmed: bool, expected: bool) -> (admitted: Result<(), Error>)
    ensures
        admitted is Ok <==> confirmed && expected,
        admitted is Err ==> admitted == Err::<(), Error>(
            Error::Unavailable(Failure::ManagementAdmission),
        ),
{
    if confirmed && expected {
        Ok(())
    } else {
        Err(Error::Unavailable(Failure::ManagementAdmission))
    }
}

/// A request is recorded as unknown exactly where it only admits work of the release
/// driver, and otherwise as what it did: as its own result, or as a success.
pub proof fn requests_are_recorded_as_what_they_did(
    software_stage: Option<String>,
    result: Option<String>,
)
    ensures
        recorded(software_stage, result).0 == 202 <==> (software_stage matches Some(stage) && stage@
            == "management_admission"@),
        recorded(software_stage, result).0 == 202 ==> recorded(software_stage, result).1
            == "unknown"@,
        recorded(software_stage, result).0 != 202 ==> recorded(software_stage, result).0 == 200
            && recorded(software_stage, result).1 == (if result is Some {
            result->Some_0@
        } else {
            "success"@
        }),
{
}

/// The highest generation is one that a registration has, that none exceeds, and that is one.
pub proof fn the_highest_generation_is_one(registrations: Seq<Registration>, one: u64, two: u64)
    requires
        is_highest(registrations, one),
    ensures
        is_highest(registrations, two) <==> one == two,
        forall|i: int|
            0 <= i < registrations.len() ==> (#[trigger] registrations[i]).generation <= one,
        exists|i: int|
            0 <= i < registrations.len() && (#[trigger] registrations[i]).generation == one,
{
    if is_highest(registrations, two) {
        let i = choose|i: int|
            0 <= i < registrations.len() && (#[trigger] registrations[i]).generation == one;
        let j = choose|j: int|
            0 <= j < registrations.len() && (#[trigger] registrations[j]).generation == two;
        assert(registrations[i].generation <= two && registrations[j].generation <= one);
    }
}

} // verus!
