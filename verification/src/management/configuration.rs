//! Authored configuration and the immutable inputs of its execution.
use crate::crypto::{sha256, sha256_of};
use crate::error::{Error, Failure, PlanFailureReason, PlanStage};
use crate::id::{text_of, Id};
use crate::management::pages::policy::{Effect, ExecutionRecord, Progress};
use crate::management::plans::{payload, payload_of, policy_status, status_name, Status};
use crate::management::resources::{
    Architecture, Artifact, Declaration, Platform, Variant,
};
use crate::map::OrderedMap;
use crate::number::{decimal, decimal_of, integer_reads_back};
use crate::text::{join, same};
use vstd::prelude::*;
use vstd::utf8::encode_utf8;

verus! {

/// The most devices that one configuration is planned for.
pub const MAX_TARGETS: usize = 32;

/// The most executions that one configuration has.
pub const MAX_EXECUTIONS: usize = 10_000;

/// The most executions that are recorded at once.
pub const FACTS_PER_PAGE: usize = 1000;

/// What is known of a device that a configuration is planned for.
#[derive(Debug)]
pub struct Evidence {
    pub registration: Id,
    pub generation: i64,
    pub os_version: String,
    pub edition: u32,
}

impl Evidence {
    /// The evidence with its text as a sequence of characters.
    pub open spec fn known(self) -> (Id, i64, Seq<char>, u32) {
        (self.registration, self.generation, self.os_version@, self.edition)
    }

    /// Another value equal to this one.
    pub fn copy(&self) -> (copy: Evidence)
        ensures
            copy == *self,
    {
        Evidence {
            registration: self.registration,
            generation: self.generation,
            os_version: self.os_version.clone(),
            edition: self.edition,
        }
    }

    /// Whether two pieces of evidence say the same.
    pub fn agrees(&self, other: &Evidence) -> (answer: bool)
        ensures
            answer == (self.known() == other.known()),
    {
        self.registration == other.registration && self.generation == other.generation
            && self.edition == other.edition && same(
            self.os_version.as_str(),
            other.os_version.as_str(),
        )
    }
}

/// A configuration as it was when its plan was computed.
#[derive(Debug)]
pub struct Frozen {
    pub enabled: bool,
    pub policy_status: String,
    pub version: u64,
    pub resource_digest: Vec<u8>,
    pub ddf: String,
    pub compiled_digest: [u8; 32],
    pub devices: OrderedMap<String, Evidence>,
}

/// Why a configuration cannot be planned or saved.
#[derive(Debug)]
pub enum Refusal {
    /// The request is refused for a reason that any request can have.
    Request(Error),
    /// It reaches too many devices, or has too many executions.
    TargetLimit,
    /// The plan cannot be carried out, on a device where there is one to name.
    Plan { reason: PlanFailureReason, device: Option<String>, stage: PlanStage },
}

/// A refusal of a plan that names a device.
pub open spec fn refuses_device(
    refusal: Refusal,
    reason: PlanFailureReason,
    device: Seq<char>,
    stage: PlanStage,
) -> bool {
    refusal matches Refusal::Plan { reason: r, device: Some(d), stage: s } && r == reason && d@
        == device && s == stage
}

/// Refuses a plan on a device.
pub fn at(reason: PlanFailureReason, device: &str, stage: PlanStage) -> (refusal: Refusal)
    ensures
        refuses_device(refusal, reason, device@, stage),
{
    Refusal::Plan { reason, device: Some(device.to_owned()), stage }
}

/// The document of the domain firewall.
pub open spec fn firewall_document(enabled: bool) -> Seq<u8> {
    encode_utf8(
        if enabled {
            "{\"enabled\":true}"@
        } else {
            "{\"enabled\":false}"@
        },
    )
}

/// Whether `variant` turns the domain firewall on or off: it holds the document
/// that says so, with its length and digest, and names how it is applied and
/// detected. It cannot be removed.
pub open spec fn is_firewall(variant: Variant, enabled: bool) -> bool {
    &&& variant.platform == Platform::Windows
    &&& variant.architecture == Architecture::X86_64
    &&& variant.key@ == "domain-firewall"@
    &&& variant.declaration matches Declaration::Configuration {
        artifact,
        schema,
        apply,
        detect,
        remove,
    } && {
        &&& artifact.reference@ == "inline-domain-firewall"@
        &&& artifact.length == firewall_document(enabled).len()
        &&& artifact.sha256@ == sha256_of(firewall_document(enabled))
        &&& schema@ == "windows-firewall-domain-v1"@
        &&& apply@ == "replace"@
        &&& detect@ == "device-firewall-status"@
        &&& remove is None
    }
}

/// The variant that turns the domain firewall on or off.
pub fn firewall_version(enabled: bool) -> (variant: Variant)
    ensures
        is_firewall(variant, enabled),
{
    let text = if enabled {
        "{\"enabled\":true}"
    } else {
        "{\"enabled\":false}"
    };
    let bytes = text.as_bytes();
    assert(bytes@ == firewall_document(enabled));
    Variant {
        platform: Platform::Windows,
        architecture: Architecture::X86_64,
        key: "domain-firewall".to_owned(),
        declaration: Declaration::Configuration {
            artifact: Artifact {
                reference: "inline-domain-firewall".to_owned(),
                length: bytes.len() as u64,
                sha256: sha256(bytes),
            },
            schema: "windows-firewall-domain-v1".to_owned(),
            apply: "replace".to_owned(),
            detect: "device-firewall-status".to_owned(),
            remove: None,
        },
    }
}

/// What is known of a device: it has to have exactly one active registration
/// whose capabilities are known.
pub fn evidence(rows: &Vec<Evidence>, device: &str, stage: PlanStage) -> (found: Result<
    Evidence,
    Refusal,
>)
    ensures
        match found {
            Ok(known) => rows@.len() == 1 && known == rows@[0],
            Err(refusal) => rows@.len() != 1 && refuses_device(
                refusal,
                PlanFailureReason::CapabilityUnknown,
                device@,
                stage,
            ),
        },
{
    if rows.len() != 1 {
        return Err(at(PlanFailureReason::CapabilityUnknown, device, stage));
    }
    Ok(rows[0].copy())
}

/// What is found out about a device that a configuration is planned for: its
/// active registrations with known capabilities, and whether the configuration
/// can be compiled for what the first of them reports.
#[derive(Debug)]
pub struct Finding {
    pub device: String,
    pub rows: Vec<Evidence>,
    pub supported: bool,
}

/// Whether a configuration can be planned for a device.
pub open spec fn is_plannable(finding: Finding) -> bool {
    finding.rows@.len() == 1 && finding.supported
}

/// What is known of each device, the last finding of a device where there are
/// several.
pub open spec fn evidence_of(findings: Seq<Finding>) -> Map<Seq<char>, Evidence>
    decreases findings.len(),
{
    if findings.len() == 0 {
        Map::empty()
    } else {
        evidence_of(findings.drop_last()).insert(
            findings.last().device@,
            findings.last().rows@[0],
        )
    }
}

/// Whether the plan is refused on the device at `i`, the first that it cannot be
/// planned for.
pub open spec fn refused_at(findings: Seq<Finding>, i: int, refusal: Refusal) -> bool {
    &&& 0 <= i < findings.len()
    &&& forall|j: int| 0 <= j < i ==> is_plannable(#[trigger] findings[j])
    &&& refuses_device(
        refusal,
        if findings[i].rows@.len() != 1 {
            PlanFailureReason::CapabilityUnknown
        } else {
            PlanFailureReason::PlatformUnsupported
        },
        findings[i].device@,
        PlanStage::Preview,
    )
    &&& !is_plannable(findings[i])
}

/// What is known of each device.
fn gather(findings: &Vec<Finding>) -> (known: Result<OrderedMap<String, Evidence>, Refusal>)
    ensures
        match known {
            Ok(known) => {
                &&& known.well_formed()
                &&& known@ == evidence_of(findings@)
                &&& forall|i: int|
                    0 <= i < findings@.len() ==> is_plannable(#[trigger] findings@[i])
            },
            Err(refusal) => exists|i: int| #[trigger] refused_at(findings@, i, refusal),
        },
{
    let mut known: OrderedMap<String, Evidence> = OrderedMap::new();
    let mut i: usize = 0;
    while i < findings.len()
        invariant
            i <= findings@.len(),
            known.well_formed(),
            known@ == evidence_of(findings@.take(i as int)),
            forall|j: int| 0 <= j < i ==> is_plannable(#[trigger] findings@[j]),
        decreases findings@.len() - i,
    {
        let finding = &findings[i];
        match evidence(&finding.rows, finding.device.as_str(), PlanStage::Preview) {
            Ok(found) => {
                if !finding.supported {
                    let refusal = at(
                        PlanFailureReason::PlatformUnsupported,
                        finding.device.as_str(),
                        PlanStage::Preview,
                    );
                    assert(refused_at(findings@, i as int, refusal));
                    return Err(refusal);
                }
                known.insert(finding.device.clone(), found);
            },
            Err(refusal) => {
                assert(refused_at(findings@, i as int, refusal));
                return Err(refusal);
            },
        }
        assert(findings@.take(i + 1).drop_last() =~= findings@.take(i as int));
        i += 1;
    }
    assert(findings@.take(i as int) =~= findings@);
    Ok(known)
}

/// The configuration that a version of a policy applies, as it is authored.
#[derive(Debug)]
pub struct Authored {
    pub status: Status,
    pub version: u64,
    pub enabled: bool,
    pub resource_digest: Vec<u8>,
    /// The revision of the device descriptions that it is compiled against.
    pub ddf: String,
    /// What it compiles to, whatever the device.
    pub identity: Vec<u8>,
}

/// Whether `frozen` is an authored configuration with what is known of the
/// devices that it is planned for. Only an active policy is planned.
pub open spec fn is_frozen(frozen: Frozen, authored: Authored, findings: Seq<Finding>) -> bool {
    &&& frozen.enabled == authored.enabled
    &&& frozen.policy_status@ == status_name(authored.status)
    &&& frozen.version == authored.version
    &&& frozen.resource_digest == authored.resource_digest
    &&& frozen.ddf == authored.ddf
    &&& frozen.compiled_digest@ == sha256_of(authored.identity@)
    &&& frozen.devices.well_formed()
    &&& frozen.devices@ == (if authored.status == Status::Active {
        evidence_of(findings)
    } else {
        Map::empty()
    })
}

/// Freezes the configuration that a policy applies, where it applies one, for the
/// devices that it reaches: few enough, and each with capabilities that are known
/// and that support it.
pub fn freeze_firewall(authored: Option<Authored>, findings: &Vec<Finding>) -> (frozen: Result<
    Option<Frozen>,
    Refusal,
>)
    ensures
        match authored {
            None => frozen matches Ok(None),
            Some(authored) => {
                let planned = authored.status == Status::Active;
                match frozen {
                    Ok(Some(frozen)) => {
                        &&& findings@.len() <= MAX_TARGETS
                        &&& planned ==> forall|i: int|
                            0 <= i < findings@.len() ==> is_plannable(#[trigger] findings@[i])
                        &&& is_frozen(frozen, authored, findings@)
                    },
                    Ok(None) => false,
                    Err(Refusal::TargetLimit) => findings@.len() > MAX_TARGETS,
                    Err(refusal) => findings@.len() <= MAX_TARGETS && planned && exists|i: int|
                        #[trigger] refused_at(findings@, i, refusal),
                }
            },
        },
{
    let authored = match authored {
        Some(authored) => authored,
        None => return Ok(None),
    };
    if findings.len() > MAX_TARGETS {
        return Err(Refusal::TargetLimit);
    }
    let devices = if authored.status == Status::Active {
        match gather(findings) {
            Ok(devices) => devices,
            Err(refusal) => return Err(refusal),
        }
    } else {
        OrderedMap::new()
    };
    let compiled_digest = sha256(authored.identity.as_slice());
    Ok(
        Some(
            Frozen {
                enabled: authored.enabled,
                policy_status: policy_status(authored.status).to_owned(),
                version: authored.version,
                resource_digest: authored.resource_digest,
                ddf: authored.ddf,
                compiled_digest,
                devices,
            },
        ),
    )
}

/// The execution of a version on a device, as its commands and receipts tell it.
#[derive(Debug)]
pub struct FactRow {
    pub version: i64,
    pub device: String,
    pub status: String,
    pub write_status: Option<i32>,
}

/// How far the execution of a version has come: a successful write decides, then
/// a withdrawn command, then a refused write, then a command that timed out.
pub open spec fn progress_of(write: Option<i32>, status: Seq<char>) -> Progress {
    if write == Some(200i32) {
        Progress::Succeeded
    } else if status == "cancelled"@ || status == "superseded"@ {
        Progress::Cancelled
    } else if write matches Some(code) && code >= 400 {
        Progress::Failed
    } else if status == "timed_out"@ {
        Progress::Unknown
    } else {
        Progress::Running
    }
}

/// How far the execution of a version has come.
pub fn progress(write: Option<i32>, status: &str) -> (progress: Progress)
    ensures
        progress == progress_of(write, status@),
{
    if let Some(code) = write {
        if code == 200 {
            return Progress::Succeeded;
        }
    }
    if same(status, "cancelled") || same(status, "superseded") {
        return Progress::Cancelled;
    }
    if let Some(code) = write {
        if code >= 400 {
            return Progress::Failed;
        }
    }
    if same(status, "timed_out") {
        Progress::Unknown
    } else {
        Progress::Running
    }
}

/// An execution of a payload.
#[derive(Debug)]
pub struct Fact {
    pub payload: String,
    pub digest: [u8; 32],
    pub execution: ExecutionRecord,
}

/// The digest of the resource that a version applies, where it is known: the last
/// of those that are listed for it.
pub open spec fn digest_of(versions: Seq<(i64, Vec<u8>)>, version: i64) -> Option<Seq<u8>>
    decreases versions.len(),
{
    if versions.len() == 0 {
        None
    } else if versions.last().0 == version {
        Some(versions.last().1@)
    } else {
        digest_of(versions.drop_last(), version)
    }
}

/// The digest of the resource that a version applies, where it is known and as
/// long as a digest is.
fn find_digest(versions: &Vec<(i64, Vec<u8>)>, version: i64) -> (found: Option<[u8; 32]>)
    ensures
        match found {
            Some(digest) => digest_of(versions@, version) == Some(digest@),
            None => !(digest_of(versions@, version) matches Some(digest) && digest.len() == 32),
        },
{
    let mut i: usize = versions.len();
    assert(versions@.take(i as int) =~= versions@);
    while i > 0
        invariant
            i <= versions@.len(),
            digest_of(versions@.take(i as int), version) == digest_of(versions@, version),
        decreases i,
    {
        i -= 1;
        proof {
            let shown = versions@.take(i + 1);
            assert(shown.last() == versions@[i as int]);
            assert(shown.drop_last() =~= versions@.take(i as int));
        }
        if versions[i].0 == version {
            return digest32(&versions[i].1);
        }
    }
    assert(versions@.take(0).len() == 0);
    None
}

/// The digest that some bytes are, where they are as many as a digest has.
pub fn digest32(bytes: &Vec<u8>) -> (digest: Option<[u8; 32]>)
    ensures
        match digest {
            Some(digest) => digest@ == bytes@,
            None => bytes@.len() != 32,
        },
{
    if bytes.len() != 32 {
        return None;
    }
    let mut digest: [u8; 32] = [0u8; 32];
    let mut i: usize = 0;
    while i < 32
        invariant
            i <= 32,
            digest@.len() == 32,
            bytes@.len() == 32,
            forall|j: int| 0 <= j < i ==> #[trigger] digest@[j] == bytes@[j],
        decreases 32 - i,
    {
        digest[i] = bytes[i];
        i += 1;
    }
    assert(digest@ =~= bytes@);
    Some(digest)
}

/// Whether `fact` is what a row says, with the payload of its version.
pub open spec fn is_fact(fact: Fact, row: FactRow, versions: Seq<(i64, Vec<u8>)>) -> bool {
    &&& digest_of(versions, row.version) == Some(fact.digest@)
    &&& fact.payload@ == payload_of(fact.digest@)
    &&& fact.execution.device == row.device
    &&& fact.execution.version == row.version as u64
    &&& fact.execution.progress == progress_of(row.write_status, row.status@)
    &&& fact.execution.effect == Effect::Unknown
}

/// Whether the payload of a row's version is known.
pub open spec fn has_payload(row: FactRow, versions: Seq<(i64, Vec<u8>)>) -> bool {
    digest_of(versions, row.version) matches Some(digest) && digest.len() == 32
}

/// The executions of a policy, as its commands and receipts tell them. Whether a
/// device is really in the state that was written is not known from them.
pub fn firewall_facts(rows: Vec<FactRow>, versions: &Vec<(i64, Vec<u8>)>) -> (facts: Result<
    Vec<Fact>,
    Refusal,
>)
    ensures
        match facts {
            Ok(facts) => {
                &&& rows@.len() <= MAX_EXECUTIONS
                &&& facts@.len() == rows@.len()
                &&& forall|i: int|
                    0 <= i < rows@.len() ==> is_fact(#[trigger] facts@[i], rows@[i], versions@)
            },
            Err(Refusal::TargetLimit) => rows@.len() > MAX_EXECUTIONS,
            Err(refusal) => {
                &&& rows@.len() <= MAX_EXECUTIONS
                &&& refusal == Refusal::Request(Error::Unavailable(Failure::ManagementStorage))
                &&& exists|i: int|
                    0 <= i < rows@.len() && !has_payload(#[trigger] rows@[i], versions@)
            },
        },
{
    if rows.len() > MAX_EXECUTIONS {
        return Err(Refusal::TargetLimit);
    }
    let ghost all = rows@;
    let mut facts: Vec<Fact> = Vec::new();
    for row in it: rows
        invariant
            it.seq() == all,
            all.len() <= MAX_EXECUTIONS,
            facts@.len() == it.index(),
            forall|i: int| 0 <= i < it.index() ==> is_fact(#[trigger] facts@[i], all[i], versions@),
    {
        let ghost at = it.index();
        assert(row == all[at]);
        match find_digest(versions, row.version) {
            Some(digest) => {
                let progress = progress(row.write_status, row.status.as_str());
                facts.push(
                    Fact {
                        payload: payload(&digest),
                        digest,
                        execution: ExecutionRecord {
                            device: row.device,
                            version: row.version as u64,
                            progress,
                            effect: Effect::Unknown,
                        },
                    },
                );
            },
            None => {
                assert(!has_payload(all[at], versions@));
                return Err(Refusal::Request(Error::Unavailable(Failure::ManagementStorage)));
            },
        }
    }
    Ok(facts)
}

/// A page of executions that are recorded together.
#[derive(Debug)]
pub struct FactPage {
    /// The request that records them, so that they are recorded once.
    pub request: String,
    pub from: usize,
    pub to: usize,
}

/// The name of the request that records a page of a task's executions.
pub open spec fn page_request(task: Id, page: nat) -> Seq<char> {
    text_of(task.value) + "-facts-"@ + decimal_of(page)
}

/// Whether `pages` cuts `count` executions into full pages and a last one.
pub open spec fn cuts(pages: Seq<FactPage>, count: int, task: Id) -> bool {
    &&& pages.len() == (count + FACTS_PER_PAGE - 1) / (FACTS_PER_PAGE as int)
    &&& forall|i: int|
        0 <= i < pages.len() ==> {
            &&& (#[trigger] pages[i]).request@ == page_request(task, i as nat)
            &&& pages[i].from == i * FACTS_PER_PAGE
            &&& pages[i].to == if (i + 1) * FACTS_PER_PAGE <= count {
                (i + 1) * FACTS_PER_PAGE
            } else {
                count
            }
        }
}

/// The pages in which `count` executions are recorded, none where there are none.
pub fn fact_pages(count: usize, task: Id) -> (pages: Vec<FactPage>)
    requires
        count <= MAX_EXECUTIONS,
    ensures
        cuts(pages@, count as int, task),
{
    let text = task.text();
    let prefix = join(text.as_str(), "-facts-");
    let mut pages: Vec<FactPage> = Vec::new();
    let mut from: usize = 0;
    while from < count
        invariant
            count <= MAX_EXECUTIONS,
            from <= count,
            prefix@ == text_of(task.value) + "-facts-"@,
            from < count ==> from == pages@.len() * FACTS_PER_PAGE,
            from == count ==> pages@.len() == (count + FACTS_PER_PAGE - 1) / (FACTS_PER_PAGE as int),
            forall|i: int|
                0 <= i < pages@.len() ==> {
                    &&& (#[trigger] pages@[i]).request@ == page_request(task, i as nat)
                    &&& pages@[i].from == i * FACTS_PER_PAGE
                    &&& pages@[i].to == if (i + 1) * FACTS_PER_PAGE <= count {
                        (i + 1) * FACTS_PER_PAGE
                    } else {
                        count as int
                    }
                },
        decreases count - from,
    {
        let to: usize = if count - from > FACTS_PER_PAGE {
            from + FACTS_PER_PAGE
        } else {
            count
        };
        let number = decimal(pages.len() as u64);
        pages.push(FactPage { request: join(prefix.as_str(), number.as_str()), from, to });
        from = to;
    }
    pages
}

/// Every execution is recorded in exactly one page.
pub proof fn each_fact_is_recorded_once(pages: Seq<FactPage>, count: int, task: Id, at: int)
    requires
        cuts(pages, count, task),
        0 <= at < count,
    ensures
        0 <= at / (FACTS_PER_PAGE as int) < pages.len(),
        pages[at / (FACTS_PER_PAGE as int)].from <= at < pages[at / (FACTS_PER_PAGE as int)].to,
        forall|i: int|
            0 <= i < pages.len() && (#[trigger] pages[i]).from <= at < pages[i].to ==> i == at / (
            FACTS_PER_PAGE as int),
{
}

/// Evidence says the same exactly where it says the same of the registration, of its
/// generation, of the operating system and of its edition.
pub proof fn evidence_is_told_apart(one: Evidence, two: Evidence)
    ensures
        one.known() == two.known() <==> one.registration == two.registration && one.generation
            == two.generation && one.os_version@ == two.os_version@ && one.edition == two.edition,
{
}

/// Turning the firewall on and turning it off are different documents, and the variant
/// that is made of one holds its length and its digest.
pub proof fn firewall_variants_hold_their_own_document(on: Variant, off: Variant)
    requires
        is_firewall(on, true),
        is_firewall(off, false),
    ensures
        firewall_document(true) == encode_utf8("{\"enabled\":true}"@),
        firewall_document(false) == encode_utf8("{\"enabled\":false}"@),
        on.declaration matches Declaration::Configuration { artifact, .. } && artifact.length
            == firewall_document(true).len() && artifact.sha256@ == sha256_of(
            firewall_document(true),
        ),
        off.declaration matches Declaration::Configuration { artifact, .. } && artifact.length
            == firewall_document(false).len() && artifact.sha256@ == sha256_of(
            firewall_document(false),
        ),
        on.platform == Platform::Windows && off.platform == Platform::Windows,
        on.declaration->Configuration_remove is None,
{
}

/// What is known of a device is what was last found of it, and of no other is anything
/// known.
pub proof fn evidence_is_that_last_found(findings: Seq<Finding>, at: int)
    requires
        0 <= at < findings.len(),
    ensures
        evidence_of(findings).dom().contains(findings[at].device@),
        (forall|later: int|
            at < later < findings.len() ==> (#[trigger] findings[later]).device@
                != findings[at].device@) ==> evidence_of(findings)[findings[at].device@]
            == findings[at].rows@[0],
        forall|device: Seq<char>| #[trigger]
            evidence_of(findings).dom().contains(device) ==> exists|i: int|
                0 <= i < findings.len() && (#[trigger] findings[i]).device@ == device,
    decreases findings.len(),
{
    let fewer = findings.drop_last();
    let last = findings.len() - 1;
    if fewer.len() > 0 {
        evidence_is_that_last_found(
            fewer,
            if at < last {
                at
            } else {
                0
            },
        );
    }
    if at < last {
        assert(fewer[at] == findings[at]);
        if forall|later: int|
            at < later < findings.len() ==> (#[trigger] findings[later]).device@
                != findings[at].device@ {
            assert(findings[last].device@ != findings[at].device@);
            assert forall|later: int| at < later < fewer.len() implies (
            #[trigger] fewer[later]).device@ != fewer[at].device@ by {
                assert(fewer[later] == findings[later]);
            }
        }
    }
    assert forall|device: Seq<char>| #[trigger] evidence_of(findings).dom().contains(
        device,
    ) implies exists|i: int|
        0 <= i < findings.len() && (#[trigger] findings[i]).device@ == device by {
        if device == findings[last].device@ {
            assert(findings[last].device@ == device);
        } else {
            assert(evidence_of(fewer).dom().contains(device));
            let i = choose|i: int|
                0 <= i < fewer.len() && (#[trigger] fewer[i]).device@ == device;
            assert(findings[i].device@ == device);
        }
    }
}

/// A configuration is frozen as it was authored: it says the same, of the same version and
/// resource, against the same descriptions, and by the digest of what it compiles to.
/// What is known of devices is frozen with it exactly where its policy is active. It is
/// refused on the first device that it cannot be planned for, for want of evidence or
/// of support.
pub proof fn configurations_are_frozen_as_authored(
    frozen: Frozen,
    authored: Authored,
    findings: Seq<Finding>,
    i: int,
    refusal: Refusal,
)
    requires
        is_frozen(frozen, authored, findings),
    ensures
        frozen.enabled == authored.enabled,
        frozen.version == authored.version,
        frozen.resource_digest == authored.resource_digest,
        frozen.ddf == authored.ddf,
        frozen.compiled_digest@ == sha256_of(authored.identity@),
        authored.status == Status::Active ==> frozen.devices@ == evidence_of(findings),
        authored.status != Status::Active ==> frozen.devices@.dom() == Set::<Seq<char>>::empty(),
        refused_at(findings, i, refusal) ==> {
            &&& 0 <= i < findings.len()
            &&& findings[i].rows@.len() != 1 || !findings[i].supported
            &&& forall|j: int|
                0 <= j < i ==> (#[trigger] findings[j]).rows@.len() == 1 && findings[j].supported
            &&& refusal matches Refusal::Plan { reason, device: Some(device), stage } && device@
                == findings[i].device@ && stage == PlanStage::Preview && (reason
                == PlanFailureReason::CapabilityUnknown <==> findings[i].rows@.len() != 1) && (
            reason == PlanFailureReason::PlatformUnsupported <==> findings[i].rows@.len() == 1)
        },
{
    assert(authored.status != Status::Active ==> frozen.devices@.dom() =~= Set::<
        Seq<char>,
    >::empty());
}

/// How far an execution has come: it succeeded exactly where its write did; short of that
/// it is cancelled exactly where its command was withdrawn; short of both it failed
/// exactly where its write was refused; and only a command that timed out and tells
/// nothing else leaves it unknown.
pub proof fn executions_have_come_as_far_as_they_tell(write: Option<i32>, status: Seq<char>)
    ensures
        progress_of(write, status) == Progress::Succeeded <==> write == Some(200i32),
        progress_of(write, status) == Progress::Cancelled <==> write != Some(200i32) && (status
            == "cancelled"@ || status == "superseded"@),
        progress_of(write, status) == Progress::Failed <==> (write matches Some(code) && code
            >= 400) && status != "cancelled"@ && status != "superseded"@,
        progress_of(write, status) == Progress::Unknown <==> status == "timed_out"@ && !(
        write matches Some(code) && (code == 200 || code >= 400)),
        progress_of(write, status) == Progress::Running ==> status != "timed_out"@ && status
            != "cancelled"@ && status != "superseded"@ && write != Some(200i32),
{
    reveal_strlit("cancelled");
    reveal_strlit("superseded");
    reveal_strlit("timed_out");
    assert("cancelled"@[0] == 'c' && "superseded"@[0] == 's' && "timed_out"@[0] == 't');
}

/// The digest of a version is the last that is listed for it, and there is none exactly
/// where none is listed.
pub proof fn digests_are_those_last_listed(versions: Seq<(i64, Vec<u8>)>, version: i64)
    ensures
        match digest_of(versions, version) {
            Some(digest) => exists|i: int|
                0 <= i < versions.len() && (#[trigger] versions[i]).0 == version && versions[i].1@
                    == digest && forall|j: int|
                    i < j < versions.len() ==> (#[trigger] versions[j]).0 != version,
            None => forall|i: int| 0 <= i < versions.len() ==> (#[trigger] versions[i]).0 != version,
        },
    decreases versions.len(),
{
    if versions.len() > 0 {
        let fewer = versions.drop_last();
        let last = versions.len() - 1;
        digests_are_those_last_listed(fewer, version);
        if versions[last].0 != version {
            match digest_of(fewer, version) {
                Some(digest) => {
                    let i = choose|i: int|
                        0 <= i < fewer.len() && (#[trigger] fewer[i]).0 == version && fewer[i].1@
                            == digest && forall|j: int|
                            i < j < fewer.len() ==> (#[trigger] fewer[j]).0 != version;
                    assert(versions[i] == fewer[i]);
                    assert forall|j: int| i < j < versions.len() implies (
                    #[trigger] versions[j]).0 != version by {
                        if j < last {
                            assert(fewer[j] == versions[j]);
                        }
                    }
                },
                None => {
                    assert forall|i: int| 0 <= i < versions.len() implies (
                    #[trigger] versions[i]).0 != version by {
                        if i < last {
                            assert(fewer[i] == versions[i]);
                        }
                    }
                },
            }
        } else {
            assert(versions[last].0 == version);
        }
    }
}

/// An execution is of the device and the version that its row names, under the payload of
/// that version, and never said to have had an effect that is not known.
pub proof fn facts_are_what_their_rows_tell(fact: Fact, row: FactRow, versions: Seq<(i64, Vec<u8>)>)
    requires
        is_fact(fact, row, versions),
    ensures
        fact.execution.device == row.device,
        row.version >= 0 ==> fact.execution.version == row.version,
        fact.execution.progress == Progress::Succeeded <==> row.write_status == Some(200i32),
        fact.execution.effect == Effect::Unknown,
        has_payload(row, versions),
        digest_of(versions, row.version) == Some(fact.digest@),
        fact.payload@ == payload_of(fact.digest@),
{
}

/// Two pages of executions are recorded by different requests, so that none is taken for
/// another.
pub proof fn pages_are_recorded_apart(pages: Seq<FactPage>, count: int, task: Id, a: int, b: int)
    requires
        cuts(pages, count, task),
        0 <= a < pages.len(),
        0 <= b < pages.len(),
        pages.len() <= i64::MAX,
    ensures
        pages[a].request@ == pages[b].request@ <==> a == b,
        pages[a].from < pages[a].to <= count,
{
    let head = text_of(task.value) + "-facts-"@;
    if pages[a].request@ == pages[b].request@ {
        assert(pages[a].request@.skip(head.len() as int) =~= decimal_of(a as nat));
        assert(pages[b].request@.skip(head.len() as int) =~= decimal_of(b as nat));
        integer_reads_back(a as i64);
        integer_reads_back(b as i64);
    }
}

} // verus!
