//! The facts that rules are evaluated on, and the digests that name them.
use crate::crypto::{sha256, sha256_of};
use crate::encoding::{hex, hex_of};
use crate::inventory::{ResolvedField, SourceFact, State};
use crate::management::assets::model::{DeviceView, FieldDefinition};
use vstd::prelude::*;

verus! {

/// What a rule is told of a field of a device.
#[derive(Debug)]
pub struct Fact {
    pub state: State,
    pub source: &'static str,
    pub snapshot_id: String,
    pub observed_at: i64,
}

/// What a rule is told of a device.
#[derive(Debug)]
pub struct ObjectFacts {
    pub key: String,
    pub facts: Vec<(String, Fact)>,
}

/// What rules are told of some devices of a tenant: they all are told of every
/// field of the catalog, in the words of one version of the dictionary.
#[derive(Debug)]
pub struct Snapshot {
    pub tenant: String,
    pub dictionary_version: String,
    pub id: &'static str,
    pub version: String,
    pub complete: bool,
    pub coverage: Vec<String>,
    pub objects: Vec<ObjectFacts>,
}

/// The digest that names a document.
pub fn digest(document: &Vec<u8>) -> (name: String)
    ensures
        name@ == hex_of(sha256_of(document@)),
{
    let digest = sha256(document.as_slice());
    hex(digest.as_slice())
}

/// Whether `time` is when the latest of some facts was observed: zero where there
/// are none.
pub open spec fn is_latest(time: i64, sources: Seq<SourceFact>) -> bool {
    if sources.len() == 0 {
        time == 0
    } else {
        &&& forall|i: int|
            0 <= i < sources.len() ==> (#[trigger] sources[i]).evidence.observed_at <= time
        &&& exists|i: int|
            0 <= i < sources.len() && (#[trigger] sources[i]).evidence.observed_at == time
    }
}

/// When the latest of some facts was observed.
pub fn observed_at(sources: &Vec<SourceFact>) -> (time: i64)
    ensures
        is_latest(time, sources@),
{
    if sources.len() == 0 {
        return 0;
    }
    let mut time: i64 = sources[0].evidence.observed_at;
    let mut i: usize = 1;
    while i < sources.len()
        invariant
            1 <= i <= sources@.len(),
            forall|j: int|
                0 <= j < i ==> (#[trigger] sources@[j]).evidence.observed_at <= time,
            exists|j: int|
                0 <= j < i && (#[trigger] sources@[j]).evidence.observed_at == time,
        decreases sources@.len() - i,
    {
        if sources[i].evidence.observed_at > time {
            time = sources[i].evidence.observed_at;
        }
        i += 1;
    }
    time
}

/// Whether `fact` tells a rule of a field: its state, when it was last observed,
/// and the digest of the document that it is kept as.
pub open spec fn is_fact(fact: Fact, field: ResolvedField, document: Seq<u8>) -> bool {
    &&& fact.state == field.state
    &&& fact.source@ == "resolved-inventory"@
    &&& fact.snapshot_id@ == hex_of(sha256_of(document))
    &&& is_latest(fact.observed_at, field.sources@)
}

/// What a rule is told of a field that is kept as `document`.
pub fn fact(field: &ResolvedField, document: &Vec<u8>) -> (fact: Fact)
    ensures
        is_fact(fact, *field, document@),
{
    Fact {
        state: field.state.copy(),
        source: "resolved-inventory",
        snapshot_id: digest(document),
        observed_at: observed_at(&field.sources),
    }
}

/// Whether `object` tells a rule of every field of a device, in order.
pub open spec fn is_object(
    object: ObjectFacts,
    device: DeviceView,
    documents: Seq<Vec<u8>>,
) -> bool {
    &&& object.key == device.device
    &&& object.facts@.len() == device.fields@.len()
    &&& forall|i: int|
        0 <= i < device.fields@.len() ==> (#[trigger] object.facts@[i]).0 == device.fields@[i].0
            && is_fact(object.facts@[i].1, device.fields@[i].1, documents[i]@)
}

/// What a rule is told of a device whose fields are kept as `documents`.
pub fn object(device: &DeviceView, documents: &Vec<Vec<u8>>) -> (object: ObjectFacts)
    requires
        documents@.len() == device.fields@.len(),
    ensures
        is_object(object, *device, documents@),
{
    let mut facts: Vec<(String, Fact)> = Vec::new();
    let mut i: usize = 0;
    while i < device.fields.len()
        invariant
            i <= device.fields@.len(),
            documents@.len() == device.fields@.len(),
            facts@.len() == i,
            forall|j: int|
                0 <= j < i ==> (#[trigger] facts@[j]).0 == device.fields@[j].0 && is_fact(
                    facts@[j].1,
                    device.fields@[j].1,
                    documents@[j]@,
                ),
        decreases device.fields@.len() - i,
    {
        let field = &device.fields[i];
        let told = fact(&field.1, &documents[i]);
        facts.push((field.0.clone(), told));
        i += 1;
    }
    ObjectFacts { key: device.device.clone(), facts }
}

/// The keys of the catalog.
pub fn coverage(catalog: &Vec<FieldDefinition>) -> (keys: Vec<String>)
    ensures
        keys@.len() == catalog@.len(),
        forall|i: int| 0 <= i < keys@.len() ==> #[trigger] keys@[i] == catalog@[i].key,
{
    let mut keys: Vec<String> = Vec::new();
    let mut i: usize = 0;
    while i < catalog.len()
        invariant
            i <= catalog@.len(),
            keys@.len() == i,
            forall|j: int| 0 <= j < i ==> #[trigger] keys@[j] == catalog@[j].key,
        decreases catalog@.len() - i,
    {
        keys.push(catalog[i].key.clone());
        i += 1;
    }
    keys
}

/// What rules are told of some devices: all of them at once, under the digest of
/// the document that they are kept as.
pub fn snapshot(
    tenant: &str,
    dictionary_version: &str,
    devices: &Vec<DeviceView>,
    documents: &Vec<Vec<Vec<u8>>>,
    whole: &Vec<u8>,
    catalog: &Vec<FieldDefinition>,
) -> (snapshot: Snapshot)
    requires
        documents@.len() == devices@.len(),
        forall|i: int|
            0 <= i < devices@.len() ==> (#[trigger] documents@[i])@.len()
                == devices@[i].fields@.len(),
    ensures
        snapshot.tenant@ == tenant@,
        snapshot.dictionary_version@ == dictionary_version@,
        snapshot.id@ == "assets"@,
        snapshot.version@ == hex_of(sha256_of(whole@)),
        snapshot.complete,
        snapshot.coverage@.len() == catalog@.len(),
        forall|i: int|
            0 <= i < catalog@.len() ==> #[trigger] snapshot.coverage@[i] == catalog@[i].key,
        snapshot.objects@.len() == devices@.len(),
        forall|i: int|
            0 <= i < devices@.len() ==> is_object(
                #[trigger] snapshot.objects@[i],
                devices@[i],
                documents@[i]@,
            ),
{
    let mut objects: Vec<ObjectFacts> = Vec::new();
    let mut i: usize = 0;
    while i < devices.len()
        invariant
            i <= devices@.len(),
            documents@.len() == devices@.len(),
            forall|j: int|
                0 <= j < devices@.len() ==> (#[trigger] documents@[j])@.len()
                    == devices@[j].fields@.len(),
            objects@.len() == i,
            forall|j: int|
                0 <= j < i ==> is_object(#[trigger] objects@[j], devices@[j], documents@[j]@),
        decreases devices@.len() - i,
    {
        objects.push(object(&devices[i], &documents[i]));
        i += 1;
    }
    Snapshot {
        tenant: tenant.to_owned(),
        dictionary_version: dictionary_version.to_owned(),
        id: "assets",
        version: digest(whole),
        complete: true,
        coverage: coverage(catalog),
        objects,
    }
}

/// A rule is told of a device by its own name, and of each of its fields under the field's
/// name what is known of it, with the digest of its own document and the time of the
/// latest report of it.
pub proof fn rules_are_told_what_is_known(
    object: ObjectFacts,
    device: DeviceView,
    documents: Seq<Vec<u8>>,
    at: int,
)
    requires
        is_object(object, device, documents),
        0 <= at < device.fields@.len(),
    ensures
        object.key == device.device,
        object.facts@.len() == device.fields@.len(),
        object.facts@[at].0 == device.fields@[at].0,
        object.facts@[at].1.state == device.fields@[at].1.state,
        object.facts@[at].1.snapshot_id@ == hex_of(sha256_of(documents[at]@)),
        device.fields@[at].1.sources@.len() == 0 ==> object.facts@[at].1.observed_at == 0,
        forall|i: int|
            0 <= i < device.fields@[at].1.sources@.len() ==> (
            #[trigger] device.fields@[at].1.sources@[i]).evidence.observed_at
                <= object.facts@[at].1.observed_at,
        device.fields@[at].1.sources@.len() > 0 ==> exists|i: int|
            0 <= i < device.fields@[at].1.sources@.len() && (
            #[trigger] device.fields@[at].1.sources@[i]).evidence.observed_at
                == object.facts@[at].1.observed_at,
{
}

} // verus!
