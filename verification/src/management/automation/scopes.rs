//! Jobs that resolve scopes: which devices a scope reaches, and why not others.
use crate::error::{Error, Failure};
use crate::id::Id;
use crate::management::automation::groups::{reference, reference_of, GroupKind, LockedGroup};
use crate::management::automation::model::{JobInput, ScopeInput, SourceSet};
use crate::management::automation::{device_reference, device_reference_of};
use crate::management::model::{Reference, ReferenceView};
use crate::management::pages::scope::{is_sound, Identity, Reason, ScopeDecision};
use crate::management::request::{group_checked, group_refusal, GroupRejection};
use crate::set::OrderedSet;
use crate::text::same;
use vstd::prelude::*;

verus! {

/// Something that a plan refers to, and the version that it was computed from.
#[derive(Debug)]
pub struct AssignmentReference {
    pub id: String,
    pub revision: u64,
}

/// What a source of a scope refers to.
pub open spec fn source_references(source: SourceSet) -> Seq<(Seq<char>, u64)> {
    match source.reference {
        Reference::Group(id) => seq![
            (reference_of("group-definition."@, id), source.definition_version),
            (reference_of("group-members."@, id), source.member_version),
            (reference_of("group-authority."@, id), source.authority_version),
        ],
        Reference::Device(id) => seq![(device_reference_of(id@), source.authority_version)],
    }
}

/// What the sources of a scope refer to, one after the other.
pub open spec fn all_references(sources: Seq<SourceSet>) -> Seq<(Seq<char>, u64)>
    decreases sources.len(),
{
    if sources.len() == 0 {
        Seq::empty()
    } else {
        all_references(sources.drop_last()) + source_references(sources.last())
    }
}

/// Everything that a resolved scope refers to: its definition, and what its
/// sources refer to.
pub open spec fn references_of(scope: Id, revision: u64, sources: Seq<SourceSet>) -> Seq<
    (Seq<char>, u64),
> {
    seq![(reference_of("scope-definition."@, scope), revision)] + all_references(sources)
}

/// References with their names as sequences of characters.
pub open spec fn named(references: Seq<AssignmentReference>) -> Seq<(Seq<char>, u64)> {
    Seq::new(references.len(), |i: int| (references[i].id@, references[i].revision))
}

/// Adds a reference.
fn add_reference(references: &mut Vec<AssignmentReference>, id: String, revision: u64)
    ensures
        named(final(references)@) == named(old(references)@).push((id@, revision)),
{
    let ghost name = id@;
    references.push(AssignmentReference { id, revision });
    assert(named(references@) =~= named(old(references)@).push((name, revision)));
}

/// Everything that a resolved scope refers to.
pub fn references(scope: Id, revision: u64, input: &ScopeInput) -> (references: Vec<
    AssignmentReference,
>)
    ensures
        named(references@) == references_of(scope, revision, input.sources@),
{
    let mut references: Vec<AssignmentReference> = Vec::new();
    assert(named(references@) =~= Seq::empty());
    let name = reference("scope-definition.", scope);
    add_reference(&mut references, name, revision);
    let ghost first = named(references@);
    assert(first =~= seq![(reference_of("scope-definition."@, scope), revision)]);
    let mut i: usize = 0;
    while i < input.sources.len()
        invariant
            i <= input.sources@.len(),
            named(references@) == first + all_references(input.sources@.take(i as int)),
        decreases input.sources@.len() - i,
    {
        let source = &input.sources[i];
        let ghost before = named(references@);
        match &source.reference {
            Reference::Group(id) => {
                let name = reference("group-definition.", *id);
                add_reference(&mut references, name, source.definition_version);
                let name = reference("group-members.", *id);
                add_reference(&mut references, name, source.member_version);
                let name = reference("group-authority.", *id);
                add_reference(&mut references, name, source.authority_version);
            },
            Reference::Device(id) => {
                let name = device_reference(id.as_str());
                add_reference(&mut references, name, source.authority_version);
            },
        }
        proof {
            let shown = input.sources@.take(i + 1);
            assert(shown.drop_last() =~= input.sources@.take(i as int));
            assert(shown.last() == *source);
            assert(named(references@) =~= before + source_references(*source));
            assert(named(references@) =~= first + all_references(shown));
        }
        i += 1;
    }
    assert(input.sources@.take(i as int) =~= input.sources@);
    references
}

/// What is found out about a group that a scope names: its published members, the
/// rule that they were computed by, and the versions that policies know of its
/// definition and of the identities behind its members.
#[derive(Debug)]
pub struct GroupFinding {
    pub lock: Result<LockedGroup, GroupRejection>,
    pub member_set: Option<Id>,
    pub built_rule: Option<i64>,
    pub definition: Option<u64>,
    pub authority: Option<u64>,
}

/// What a group that a scope names is captured as, or what the scope is refused
/// with: a group that a rule decides has to have members, computed by the rule
/// that now holds.
pub open spec fn captured_group(id: Id, finding: GroupFinding) -> Result<SourceSet, Error> {
    match finding.lock {
        Err(rejection) => Err(group_refusal(rejection)),
        Ok(group) => if group.kind == GroupKind::Dynamic && (finding.member_set is None
            || finding.built_rule != group.rule_version) {
            Err(Error::Unavailable(Failure::ManagementStorage))
        } else {
            match (finding.definition, finding.authority) {
                (Some(definition), Some(authority)) => Ok(
                    SourceSet {
                        reference: Reference::Group(id),
                        member_set: finding.member_set,
                        member_version: group.member_version,
                        definition_version: definition,
                        authority_version: authority,
                    },
                ),
                _ => Err(Error::Conflict),
            }
        },
    }
}

/// Captures a group that a scope names.
pub fn capture_group(id: Id, finding: GroupFinding) -> (source: Result<SourceSet, Error>)
    ensures
        source == captured_group(id, finding),
{
    let group = match group_checked(finding.lock) {
        Ok(group) => group,
        Err(error) => return Err(error),
    };
    if group.kind == GroupKind::Dynamic {
        let same_rule = match (finding.built_rule, group.rule_version) {
            (Some(a), Some(b)) => a == b,
            (None, None) => true,
            _ => false,
        };
        if finding.member_set.is_none() || !same_rule {
            return Err(Error::Unavailable(Failure::ManagementStorage));
        }
    }
    match (finding.definition, finding.authority) {
        (Some(definition), Some(authority)) => Ok(
            SourceSet {
                reference: Reference::Group(id),
                member_set: finding.member_set,
                member_version: group.member_version,
                definition_version: definition,
                authority_version: authority,
            },
        ),
        _ => Err(Error::Conflict),
    }
}

/// Captures a device that a scope names, at the latest version of its identity.
/// The second part is the name that policies refer to the device by.
pub fn capture_device(device: &String, authority: i64) -> (source: (SourceSet, String))
    ensures
        source.0 == (SourceSet {
            reference: Reference::Device(*device),
            member_set: None,
            member_version: 0,
            definition_version: 0,
            authority_version: authority as u64,
        }),
        source.1@ == device_reference_of(device@),
{
    (
        SourceSet {
            reference: Reference::Device(device.clone()),
            member_set: None,
            member_version: 0,
            definition_version: 0,
            authority_version: authority as u64,
        },
        device_reference(device.as_str()),
    )
}

/// What is done next to resolve a scope.
#[derive(Clone, Copy, Debug, PartialEq, Eq, Structural)]
pub enum ScopeStep {
    Capture,
    Sources,
    Evaluate,
    Publish,
    Propagate,
    Supersede,
}

/// What is done next to resolve a scope that has come to a phase.
pub open spec fn scope_step_of(phase: Option<Seq<char>>) -> Result<ScopeStep, Error> {
    match phase {
        None => Ok(ScopeStep::Capture),
        Some(phase) => if phase == "sources"@ {
            Ok(ScopeStep::Sources)
        } else if phase == "evaluate"@ {
            Ok(ScopeStep::Evaluate)
        } else if phase == "ready"@ {
            Ok(ScopeStep::Publish)
        } else if phase == "published"@ {
            Ok(ScopeStep::Propagate)
        } else if phase == "superseded"@ {
            Ok(ScopeStep::Supersede)
        } else {
            Err(Error::Unavailable(Failure::ManagementStorage))
        },
    }
}

/// What is done next to resolve a scope that has come to a phase, if it was
/// begun.
pub fn advance_scope_job(phase: Option<&str>) -> (step: Result<ScopeStep, Error>)
    ensures
        step == scope_step_of(
            match phase {
                Some(phase) => Some(phase@),
                None => None,
            },
        ),
{
    let phase = match phase {
        Some(phase) => phase,
        None => return Ok(ScopeStep::Capture),
    };
    if same(phase, "sources") {
        Ok(ScopeStep::Sources)
    } else if same(phase, "evaluate") {
        Ok(ScopeStep::Evaluate)
    } else if same(phase, "ready") {
        Ok(ScopeStep::Publish)
    } else if same(phase, "published") {
        Ok(ScopeStep::Propagate)
    } else if same(phase, "superseded") {
        Ok(ScopeStep::Supersede)
    } else {
        Err(Error::Unavailable(Failure::ManagementStorage))
    }
}

/// The most members of a source that are taken on at once.
pub const MEMBERS_AT_ONCE: usize = 1000;

/// Where the devices of a source come from.
#[derive(Debug)]
pub enum SourceDevices {
    /// Every source was taken on.
    Complete,
    /// The source has these devices.
    Known(Vec<String>),
    /// The source has the members of a set, behind the last that was taken on.
    Members(Id),
}

/// Whether the devices of the source at `index` come from `devices`, where those
/// up to `after` were taken on.
pub open spec fn comes_from(
    devices: SourceDevices,
    sources: Seq<SourceSet>,
    index: int,
    after: bool,
) -> bool {
    if index == sources.len() {
        devices is Complete
    } else {
        match sources[index].reference {
            Reference::Device(device) => devices matches SourceDevices::Known(known) && if after {
                known@.len() == 0
            } else {
                known@ == seq![device]
            },
            Reference::Group(_) => match sources[index].member_set {
                None => devices matches SourceDevices::Known(known) && known@.len() == 0,
                Some(run) => devices == SourceDevices::Members(run),
            },
        }
    }
}

/// Where the devices of the source at `index` come from.
pub fn source_devices(sources: &Vec<SourceSet>, index: usize, after: bool) -> (devices: Result<
    SourceDevices,
    Error,
>)
    ensures
        match devices {
            Ok(devices) => index <= sources@.len() && comes_from(
                devices,
                sources@,
                index as int,
                after,
            ),
            Err(error) => index > sources@.len() && error == Error::Unavailable(
                Failure::ManagementStorage,
            ),
        },
{
    if index == sources.len() {
        return Ok(SourceDevices::Complete);
    }
    if index > sources.len() {
        return Err(Error::Unavailable(Failure::ManagementStorage));
    }
    let source = &sources[index];
    match &source.reference {
        Reference::Device(device) => {
            let mut known: Vec<String> = Vec::new();
            if !after {
                known.push(device.clone());
                assert(known@ =~= seq![*device]);
            }
            Ok(SourceDevices::Known(known))
        },
        Reference::Group(_) => match source.member_set {
            None => Ok(SourceDevices::Known(Vec::new())),
            Some(run) => Ok(SourceDevices::Members(run)),
        },
    }
}

/// Accepts the set that a source's members are read from: it has to be published,
/// of that group, and at the version that was captured. `receipt` is the group
/// and the version that the set was published for, where it was.
pub fn admit_members(group: Id, version: u64, receipt: Option<(Id, u64)>) -> (admitted: Result<
    (),
    Error,
>)
    ensures
        admitted is Ok <==> receipt == Some((group, version)),
        admitted is Err ==> admitted == Err::<(), Error>(
            Error::Unavailable(Failure::ManagementStorage),
        ),
{
    match receipt {
        Some((of, at)) => if of == group && at == version {
            Ok(())
        } else {
            Err(Error::Unavailable(Failure::ManagementStorage))
        },
        None => Err(Error::Unavailable(Failure::ManagementStorage)),
    }
}

/// Where the sources are read on: behind the last device of a full page, or from
/// the next source.
pub fn after_source(index: usize, devices: &Vec<String>) -> (next: (usize, Option<String>))
    requires
        index < usize::MAX,
    ensures
        next == (if devices@.len() == MEMBERS_AT_ONCE {
            (index, Some(devices@[MEMBERS_AT_ONCE - 1]))
        } else {
            ((index + 1) as usize, None)
        }),
{
    if devices.len() == MEMBERS_AT_ONCE {
        (index, Some(devices[MEMBERS_AT_ONCE - 1].clone()))
    } else {
        (index + 1, None)
    }
}

/// The sources that are targets of a scope.
pub open spec fn targets_of(sources: Seq<SourceSet>, targets: Seq<ReferenceView>) -> Seq<usize>
    decreases sources.len(),
{
    if sources.len() == 0 {
        Seq::empty()
    } else if targets.contains(sources.last().reference@) {
        targets_of(sources.drop_last(), targets).push((sources.len() - 1) as usize)
    } else {
        targets_of(sources.drop_last(), targets)
    }
}

/// The sources that are targets of a scope, in order: only their devices are
/// considered.
pub fn targets(input: &ScopeInput) -> (indices: Vec<usize>)
    requires
        input.definition.targets.well_formed(),
    ensures
        indices@ == targets_of(input.sources@, input.definition.targets@),
{
    let mut indices: Vec<usize> = Vec::new();
    let mut i: usize = 0;
    while i < input.sources.len()
        invariant
            i <= input.sources@.len(),
            input.definition.targets.well_formed(),
            indices@ == targets_of(input.sources@.take(i as int), input.definition.targets@),
        decreases input.sources@.len() - i,
    {
        assert(input.sources@.take(i + 1).drop_last() =~= input.sources@.take(i as int));
        if input.definition.targets.contains(&input.sources[i].reference) {
            indices.push(i);
        }
        i += 1;
    }
    assert(input.sources@.take(i as int) =~= input.sources@);
    indices
}

/// The most devices that are evaluated at once, and the most of their memberships
/// that are looked at.
pub const EVALUATED_AT_ONCE: usize = 1000;

/// The most memberships that are looked at while devices are evaluated.
pub const MEMBERSHIPS_AT_ONCE: usize = 16000;

/// The most devices that a scope is resolved for.
pub const SCOPE_DEVICES: usize = 1_000_000;

/// How many devices are evaluated at once for a scope with so many sources.
pub open spec fn evaluation_limit_of(sources: usize) -> usize {
    if sources <= MEMBERSHIPS_AT_ONCE / EVALUATED_AT_ONCE {
        EVALUATED_AT_ONCE
    } else {
        (MEMBERSHIPS_AT_ONCE / sources) as usize
    }
}

/// The devices of a page, and whether more follow. `devices` are one more than a
/// page holds where there are as many.
pub fn cut_targets(devices: Vec<String>, limit: usize) -> (page: (Vec<String>, bool))
    ensures
        page.0@ == (if devices@.len() > limit {
            devices@.take(limit as int)
        } else {
            devices@
        }),
        page.1 == (devices@.len() > limit),
{
    let more = devices.len() > limit;
    let mut kept = devices;
    if more {
        kept.truncate(limit);
    }
    (kept, more)
}

/// How many devices are evaluated at once for a scope with so many sources.
pub fn evaluation_limit(sources: usize) -> (limit: usize)
    ensures
        limit == evaluation_limit_of(sources),
{
    if sources <= MEMBERSHIPS_AT_ONCE / EVALUATED_AT_ONCE {
        EVALUATED_AT_ONCE
    } else {
        MEMBERSHIPS_AT_ONCE / sources
    }
}

/// A scope can be resolved, and its memberships stay within bounds: as long as it
/// has no more sources than it may name things, some devices are evaluated at
/// once, and not too many memberships are looked at.
pub proof fn evaluation_is_bounded(sources: usize)
    requires
        1 <= sources <= MEMBERSHIPS_AT_ONCE,
    ensures
        1 <= evaluation_limit_of(sources) <= EVALUATED_AT_ONCE,
        evaluation_limit_of(sources) * sources <= MEMBERSHIPS_AT_ONCE,
{
    let limit = evaluation_limit_of(sources);
    if sources <= 16 {
        assert(limit * sources <= 16000) by (nonlinear_arith)
            requires
                limit == 1000,
                sources <= 16,
        ;
    } else {
        vstd::arithmetic::div_mod::lemma_fundamental_div_mod(16000, sources as int);
        vstd::arithmetic::div_mod::lemma_mod_bound(16000, sources as int);
        assert(limit * sources == sources * (16000int / sources as int)) by (nonlinear_arith)
            requires
                limit == 16000int / sources as int,
        ;
        assert(1 <= limit <= 1000) by (nonlinear_arith)
            requires
                limit == 16000int / sources as int,
                17 <= sources <= 16000,
        ;
    }
}

/// Accepts the devices of a page behind those that were evaluated before.
pub fn admit_evaluation(processed: usize, devices: usize) -> (admitted: Result<(), Error>)
    ensures
        admitted is Ok <==> processed + devices <= SCOPE_DEVICES,
        admitted is Err ==> admitted == Err::<(), Error>(
            Error::Unavailable(Failure::AssetObjectLimit),
        ),
{
    if processed > SCOPE_DEVICES || devices > SCOPE_DEVICES - processed {
        Err(Error::Unavailable(Failure::AssetObjectLimit))
    } else {
        Ok(())
    }
}

/// That a device is a member of a source.
#[derive(Debug)]
pub struct Hit {
    pub device: String,
    pub source: usize,
}

/// Whether a device is a member of a source.
pub open spec fn is_hit(hits: Seq<Hit>, device: Seq<char>, source: usize) -> bool {
    exists|i: int|
        0 <= i < hits.len() && (#[trigger] hits[i]).device@ == device && hits[i].source == source
}

/// The sources that a device is a member of, in order.
pub fn hits(rows: &Vec<Hit>, device: &str) -> (sources: OrderedSet<usize>)
    ensures
        sources.well_formed(),
        forall|source: usize| #[trigger]
            sources@.contains(source) <==> is_hit(rows@, device@, source),
{
    let mut sources: OrderedSet<usize> = OrderedSet::new();
    let mut i: usize = 0;
    while i < rows.len()
        invariant
            i <= rows@.len(),
            sources.well_formed(),
            forall|source: usize| #[trigger]
                sources@.contains(source) <==> is_hit(rows@.take(i as int), device@, source),
        decreases rows@.len() - i,
    {
        let ghost before = sources@;
        let row = &rows[i];
        let mine = same(row.device.as_str(), device);
        if mine {
            sources.insert(row.source);
        }
        proof {
            let few = rows@.take(i as int);
            let more = rows@.take(i + 1);
            assert forall|source: usize| #[trigger]
                sources@.contains(source) <==> is_hit(more, device@, source) by {
                assert(before.contains(source) <==> is_hit(few, device@, source));
                if is_hit(few, device@, source) {
                    let k = choose|k: int|
                        0 <= k < few.len() && (#[trigger] few[k]).device@ == device@
                            && few[k].source == source;
                    assert(more[k] == few[k]);
                }
                if mine && source == row.source {
                    assert(more[i as int].device@ == device@);
                }
                if is_hit(more, device@, source) && !is_hit(few, device@, source) {
                    let k = choose|k: int|
                        0 <= k < more.len() && (#[trigger] more[k]).device@ == device@
                            && more[k].source == source;
                    if k < i {
                        assert(few[k] == more[k]);
                    }
                }
            }
        }
        i += 1;
    }
    assert(rows@.take(i as int) =~= rows@);
    sources
}

/// Whether a source speaks of a device, and at which version.
#[derive(Clone, Copy, Debug, PartialEq, Eq, Structural)]
pub struct Membership {
    pub source: usize,
    pub version: u64,
    pub contains: bool,
}

/// The version at which a source speaks, counted from one.
pub open spec fn source_version(source: SourceSet) -> int {
    match source.reference {
        Reference::Device(_) => if source.authority_version >= 1 {
            source.authority_version as int
        } else {
            1
        },
        Reference::Group(_) => source.member_version + 1,
    }
}

/// What the sources among `references` say of a device, in order.
pub open spec fn memberships_of(
    sources: Seq<SourceSet>,
    references: Seq<ReferenceView>,
    hits: Seq<usize>,
) -> Seq<Membership>
    decreases sources.len(),
{
    if sources.len() == 0 {
        Seq::empty()
    } else {
        let before = memberships_of(sources.drop_last(), references, hits);
        let at = (sources.len() - 1) as usize;
        if references.contains(sources.last().reference@) {
            before.push(
                Membership {
                    source: at,
                    version: source_version(sources.last()) as u64,
                    contains: hits.contains(at),
                },
            )
        } else {
            before
        }
    }
}

/// What the sources among `references` say of a device that is a member of
/// `hits`.
pub fn memberships(
    sources: &Vec<SourceSet>,
    references: &OrderedSet<Reference>,
    hits: &OrderedSet<usize>,
) -> (memberships: Vec<Membership>)
    requires
        references.well_formed(),
        hits.well_formed(),
        forall|i: int|
            0 <= i < sources@.len() ==> source_version(#[trigger] sources@[i]) <= u64::MAX,
    ensures
        memberships@ == memberships_of(sources@, references@, hits@),
{
    let mut memberships: Vec<Membership> = Vec::new();
    let mut i: usize = 0;
    while i < sources.len()
        invariant
            i <= sources@.len(),
            references.well_formed(),
            hits.well_formed(),
            forall|j: int|
                0 <= j < sources@.len() ==> source_version(#[trigger] sources@[j]) <= u64::MAX,
            memberships@ == memberships_of(sources@.take(i as int), references@, hits@),
        decreases sources@.len() - i,
    {
        proof {
            let shown = sources@.take(i + 1);
            assert(shown.drop_last() =~= sources@.take(i as int));
            assert(shown.last() == sources@[i as int]);
        }
        let source = &sources[i];
        assert(source_version(sources@[i as int]) <= u64::MAX);
        if references.contains(&source.reference) {
            let version: u64 = match &source.reference {
                Reference::Device(_) => if source.authority_version >= 1 {
                    source.authority_version
                } else {
                    1
                },
                Reference::Group(_) => source.member_version + 1,
            };
            let contains = hits.contains(&i);
            memberships.push(Membership { source: i, version, contains });
        }
        i += 1;
    }
    assert(sources@.take(i as int) =~= sources@);
    memberships
}

/// What is found out about a device of a page: the sources that it is a member
/// of, the reasons for which the scope does not reach it, where it could be told,
/// and whether it is registered.
#[derive(Debug)]
pub struct DeviceFinding {
    pub device: String,
    pub sources: Vec<usize>,
    pub reasons: Option<Vec<Reason>>,
    pub live: bool,
}

/// Whether a device's finding can be decided on: it is a member of something, and
/// the reasons could be told.
pub open spec fn is_decidable(finding: DeviceFinding) -> bool {
    finding.sources@.len() > 0 && finding.reasons is Some
}

/// Whether a scope reaches a device: there is no reason against it, and it is
/// registered.
pub open spec fn is_matched(finding: DeviceFinding) -> bool {
    finding.reasons matches Some(reasons) && reasons@.len() == 0 && finding.live
}

/// Whether a decision tells what was found.
pub open spec fn tells(decision: ScopeDecision, finding: DeviceFinding) -> bool {
    &&& decision.device == finding.device
    &&& decision.identity == if finding.live {
        Identity::Active
    } else {
        Identity::Inactive
    }
    &&& finding.reasons == Some(decision.reasons)
    &&& decision.sources == finding.sources
}

/// How many of some answers are yes.
pub open spec fn yes_in(answers: Seq<bool>) -> nat
    decreases answers.len(),
{
    if answers.len() == 0 {
        0
    } else {
        yes_in(answers.drop_last()) + if answers.last() {
            1nat
        } else {
            0nat
        }
    }
}

/// A page of devices that were decided on.
#[derive(Debug)]
pub struct Evaluated {
    pub matched: Vec<bool>,
    pub decisions: Vec<ScopeDecision>,
    pub members: u64,
}

/// Decides on the devices of a page.
pub fn evaluate_scope_page(findings: Vec<DeviceFinding>) -> (page: Result<Evaluated, Error>)
    requires
        findings@.len() <= u64::MAX,
    ensures
        match page {
            Ok(page) => {
                &&& page.matched@.len() == findings@.len()
                &&& page.decisions@.len() == findings@.len()
                &&& forall|i: int|
                    0 <= i < findings@.len() ==> #[trigger] page.matched@[i] == is_matched(
                        findings@[i],
                    )
                &&& forall|i: int|
                    0 <= i < findings@.len() ==> tells(
                        #[trigger] page.decisions@[i],
                        findings@[i],
                    )
                &&& forall|i: int|
                    0 <= i < findings@.len() ==> is_decidable(#[trigger] findings@[i])
                &&& page.members == yes_in(page.matched@)
            },
            Err(error) => {
                &&& error == Error::Unavailable(Failure::ManagementStorage)
                &&& exists|i: int|
                    0 <= i < findings@.len() && !is_decidable(#[trigger] findings@[i])
            },
        },
{
    let ghost all = findings@;
    let mut matched: Vec<bool> = Vec::new();
    let mut decisions: Vec<ScopeDecision> = Vec::new();
    let mut members: u64 = 0;
    for finding in it: findings
        invariant
            it.seq() == all,
            all.len() <= u64::MAX,
            matched@.len() == it.index(),
            decisions@.len() == it.index(),
            forall|i: int|
                0 <= i < it.index() ==> #[trigger] matched@[i] == is_matched(all[i]),
            forall|i: int| 0 <= i < it.index() ==> tells(#[trigger] decisions@[i], all[i]),
            forall|i: int| 0 <= i < it.index() ==> is_decidable(#[trigger] all[i]),
            members == yes_in(matched@),
            members <= it.index(),
    {
        let ghost n = it.index();
        assert(finding == all[n]);
        let ghost before = matched@;
        let reasons = match finding.reasons {
            Some(reasons) => reasons,
            None => {
                assert(!is_decidable(all[n]));
                return Err(Error::Unavailable(Failure::ManagementStorage));
            },
        };
        if finding.sources.len() == 0 {
            assert(!is_decidable(all[n]));
            return Err(Error::Unavailable(Failure::ManagementStorage));
        }
        let reached = reasons.len() == 0 && finding.live;
        matched.push(reached);
        assert(matched@.drop_last() =~= before);
        if reached {
            members += 1;
        }
        decisions.push(
            ScopeDecision {
                device: finding.device,
                identity: if finding.live {
                    Identity::Active
                } else {
                    Identity::Inactive
                },
                reasons,
                sources: finding.sources,
            },
        );
    }
    Ok(Evaluated { matched, decisions, members })
}

/// What is decided on a device is accepted when it is read: a decision is of its
/// device, and speaks of sources that the scope has.
pub proof fn decision_reads_back(decision: ScopeDecision, finding: DeviceFinding, sources: int)
    requires
        tells(decision, finding),
        forall|i: int|
            0 <= i < finding.sources@.len() ==> #[trigger] finding.sources@[i] < sources,
    ensures
        is_sound(decision, finding.device@, sources),
{
}

/// The phase that a scope comes to once a page of its devices was decided on:
/// ready where none follows.
pub fn after_evaluation(more: bool) -> (phase: &'static str)
    ensures
        phase@ == if more {
            "evaluate"@
        } else {
            "ready"@
        },
{
    if more {
        "evaluate"
    } else {
        "ready"
    }
}

/// Whether everything that a scope refers to is still at the version that it was
/// computed from.
pub open spec fn all_current(references: Seq<AssignmentReference>, found: Seq<Option<u64>>) -> bool {
    forall|i: int|
        0 <= i < references.len() ==> found[i] == Some((#[trigger] references[i]).revision)
}

/// Whether a resolved scope can be published: its definition is the one that was
/// resolved, no identity has changed, and everything else that it refers to is
/// still current. The answer is whether the scope comes to a new version: not
/// where the result is the one that was published before.
pub fn publish_scope(
    current: u64,
    revision: u64,
    authority: bool,
    references: &Vec<AssignmentReference>,
    found: &Vec<Option<u64>>,
    unchanged: bool,
) -> (publish: Result<bool, Error>)
    requires
        found@.len() == references@.len(),
    ensures
        publish == (if current == revision && authority && all_current(references@, found@) {
            Ok::<bool, Error>(!unchanged)
        } else {
            Err(Error::Conflict)
        }),
{
    if current != revision || !authority {
        return Err(Error::Conflict);
    }
    let mut i: usize = 0;
    while i < references.len()
        invariant
            i <= references@.len(),
            found@.len() == references@.len(),
            forall|j: int|
                0 <= j < i ==> found@[j] == Some((#[trigger] references@[j]).revision),
        decreases references@.len() - i,
    {
        let known = match found[i] {
            Some(revision) => revision == references[i].revision,
            None => false,
        };
        if !known {
            assert(found@[i as int] != Some(references@[i as int].revision));
            return Err(Error::Conflict);
        }
        i += 1;
    }
    Ok(!unchanged)
}

/// The most policies that are planned anew at once.
pub const PLANNED_AT_ONCE: usize = 64;

/// A policy that is assigned to a scope: the revision of the assignment, and the
/// revision of the policy, where there is one.
#[derive(Debug)]
pub struct AssignedPolicy {
    pub policy: String,
    pub revision: i64,
    pub storage_revision: Option<u64>,
}

/// Whether `job` plans a policy on a scope's new resolution.
pub open spec fn plans_anew(
    job: JobInput,
    row: AssignedPolicy,
    scope: Id,
    task: Id,
    as_of: i64,
) -> bool {
    row.storage_revision matches Some(expected_revision) && job == (JobInput::Policy {
        policy: row.policy,
        scope,
        resolution: task,
        assignment_revision: Some(row.revision),
        expected_revision,
        as_of,
    })
}

/// How many policies are planned anew now, of so many.
pub open spec fn planned_now(rows: int) -> int {
    if rows > PLANNED_AT_ONCE {
        PLANNED_AT_ONCE as int
    } else {
        rows
    }
}

/// The policies that are planned anew now that a scope is resolved, and behind
/// which one the next are found, where there are more. `rows` are the next that
/// are assigned to the scope, one more than are planned at once where there are
/// as many. Nothing is planned where the resolution was replaced meanwhile.
pub fn propagate_scope(
    active: bool,
    rows: &Vec<AssignedPolicy>,
    scope: Id,
    task: Id,
    as_of: i64,
) -> (step: Result<(Vec<JobInput>, Option<String>), Error>)
    ensures
        match step {
            Ok((jobs, next)) => if !active {
                jobs@.len() == 0 && next is None
            } else {
                &&& jobs@.len() == planned_now(rows@.len() as int)
                &&& forall|i: int|
                    0 <= i < jobs@.len() ==> plans_anew(
                        #[trigger] jobs@[i],
                        rows@[i],
                        scope,
                        task,
                        as_of,
                    )
                &&& next == (if rows@.len() > PLANNED_AT_ONCE {
                    Some(rows@[PLANNED_AT_ONCE - 1].policy)
                } else {
                    None
                })
            },
            Err(error) => {
                &&& active
                &&& error == Error::Conflict
                &&& exists|i: int|
                    0 <= i < planned_now(rows@.len() as int) && (
                    #[trigger] rows@[i]).storage_revision is None
            },
        },
{
    let mut jobs: Vec<JobInput> = Vec::new();
    if !active {
        return Ok((jobs, None));
    }
    let mut i: usize = 0;
    while i < rows.len() && i < PLANNED_AT_ONCE
        invariant
            active,
            i <= rows@.len(),
            i <= PLANNED_AT_ONCE,
            jobs@.len() == i,
            forall|j: int|
                0 <= j < i ==> plans_anew(#[trigger] jobs@[j], rows@[j], scope, task, as_of),
        decreases rows@.len() - i,
    {
        let row = &rows[i];
        let expected_revision: u64 = match row.storage_revision {
            Some(revision) => revision,
            None => {
                assert(rows@[i as int].storage_revision is None);
                return Err(Error::Conflict);
            },
        };
        jobs.push(
            JobInput::Policy {
                policy: row.policy.clone(),
                scope,
                resolution: task,
                assignment_revision: Some(row.revision),
                expected_revision,
                as_of,
            },
        );
        i += 1;
    }
    let next = if rows.len() > PLANNED_AT_ONCE {
        Some(rows[PLANNED_AT_ONCE - 1].policy.clone())
    } else {
        None
    };
    Ok((jobs, next))
}

} // verus!
