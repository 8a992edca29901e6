//! Software releases. The signed-in actor authorizes work; a controlled driver
//! owns the effects outside.
use crate::error::{Error, Failure};
use crate::management::model::Missing;
use vstd::prelude::*;

verus! {

/// A ring of a release.
#[derive(Clone, Copy, Debug, PartialEq, Eq, Structural)]
pub enum Ring {
    Test,
    Pilot,
    Production,
}

/// A change of a candidate release.
#[derive(Debug)]
pub enum Change {
    Candidate {
        resource: String,
        version: String,
        expected_resource_revision: u64,
        submission: String,
    },
    Validate { ring: Ring },
    Approve { ring: Ring, publisher_subject: String },
    Authorize { ring: Ring },
    Publish { ring: Ring, publication: [u8; 32], attempt: u64 },
    Recover { ring: Ring, publication: [u8; 32], attempt: u64 },
    Retry { ring: Ring, attempt: u64 },
    Withdraw { ring: Ring },
}

/// What a signed-in actor may do to groups, scopes, policies, resources and
/// releases, and to the inventory.
#[derive(Clone, Copy, Debug, PartialEq, Eq, Structural)]
pub enum Permission {
    GroupRead,
    GroupWrite,
    GroupRecompute,
    ScopeRead,
    ScopeWrite,
    PolicyRead,
    PolicyWrite,
    PlanPreview,
    PlanSave,
    ResourceRead,
    ResourceWrite,
    ReleaseRead,
    ReleaseWrite,
    ReleaseValidate,
    ReleaseApprove,
    ReleasePublish,
    ReleaseRecover,
    ReleaseWithdraw,
    InventoryRead,
    InventoryAssign,
}

/// What a change of a candidate needs to be permitted.
pub open spec fn needed(change: Change) -> Permission {
    match change {
        Change::Candidate { .. } => Permission::ReleaseWrite,
        Change::Validate { .. } => Permission::ReleaseValidate,
        Change::Approve { .. } => Permission::ReleaseApprove,
        Change::Authorize { .. } | Change::Publish { .. } => Permission::ReleasePublish,
        Change::Recover { .. } | Change::Retry { .. } => Permission::ReleaseRecover,
        Change::Withdraw { .. } => Permission::ReleaseWithdraw,
    }
}

/// What a change of a candidate needs to be permitted.
pub fn permission(change: &Change) -> (permission: Permission)
    ensures
        permission == needed(*change),
{
    match change {
        Change::Candidate { .. } => Permission::ReleaseWrite,
        Change::Validate { .. } => Permission::ReleaseValidate,
        Change::Approve { .. } => Permission::ReleaseApprove,
        Change::Authorize { .. } | Change::Publish { .. } => Permission::ReleasePublish,
        Change::Recover { .. } | Change::Retry { .. } => Permission::ReleaseRecover,
        Change::Withdraw { .. } => Permission::ReleaseWithdraw,
    }
}

/// Who prepares a release does not thereby approve it: what approves a release
/// is permitted apart from everything else that is done to it.
pub proof fn approval_is_a_permission_of_its_own(change: Change)
    ensures
        needed(change) == Permission::ReleaseApprove <==> change is Approve,
{
}

/// Why the release driver did not do what it was asked.
#[derive(Debug)]
pub enum ServiceError {
    Diagnostic { category: Box<ServiceError> },
    Input,
    Content,
    ArtifactAddress,
    ArtifactBudget,
    ArtifactDigest,
    CandidateNotFound,
    Identity,
    Conflict,
    Blocked,
    CommitUnknown,
    RollbackFailed,
    Other,
}

/// What a failure of the release driver is answered with; a diagnostic is
/// answered as what it is about.
pub open spec fn failure_of(error: ServiceError) -> Error
    decreases error,
{
    match error {
        ServiceError::Diagnostic { category } => failure_of(*category),
        ServiceError::Input
        | ServiceError::Content
        | ServiceError::ArtifactAddress
        | ServiceError::ArtifactBudget
        | ServiceError::ArtifactDigest => Error::Malformed,
        ServiceError::CandidateNotFound => Error::ManagementNotFound(Missing::Candidate),
        ServiceError::Identity => Error::Forbidden,
        ServiceError::Conflict | ServiceError::Blocked => Error::Conflict,
        ServiceError::CommitUnknown | ServiceError::RollbackFailed => Error::CommitUnknown,
        ServiceError::Other => Error::Unavailable(Failure::Runtime),
    }
}

/// What a failure of the release driver is answered with.
pub fn failure(error: &ServiceError) -> (answer: Error)
    ensures
        answer == failure_of(*error),
    decreases error,
{
    match error {
        ServiceError::Diagnostic { category } => failure(category),
        ServiceError::Input
        | ServiceError::Content
        | ServiceError::ArtifactAddress
        | ServiceError::ArtifactBudget
        | ServiceError::ArtifactDigest => Error::Malformed,
        ServiceError::CandidateNotFound => Error::ManagementNotFound(Missing::Candidate),
        ServiceError::Identity => Error::Forbidden,
        ServiceError::Conflict | ServiceError::Blocked => Error::Conflict,
        ServiceError::CommitUnknown | ServiceError::RollbackFailed => Error::CommitUnknown,
        ServiceError::Other => Error::Unavailable(Failure::Runtime),
    }
}

/// What a change did.
#[derive(Clone, Copy, Debug, PartialEq, Eq, Structural)]
pub enum Effect {
    Performed,
    Replayed,
    Unknown,
}

/// Who approved a release, for whom, and when.
#[derive(Debug)]
pub struct Approval {
    pub approver: String,
    pub publisher: String,
    pub at: i64,
    pub digest: [u8; 32],
}

/// What is known of the outcome of a publication.
#[derive(Clone, Copy, Debug, PartialEq, Eq, Structural)]
pub enum PublicationOutcome {
    Applied,
    NotApplied,
    /// Anything that was not reported as applied or not applied.
    Open,
}

/// A publication of a release.
#[derive(Debug)]
pub struct Publication {
    pub id: [u8; 32],
    pub attempt: u64,
    pub outcome: PublicationOutcome,
    pub approval: Approval,
}

/// How far a release has come on a ring.
#[derive(Debug)]
pub enum RingState {
    Candidate,
    Validated,
    Approved(Approval),
    Publication(Publication),
}

/// Whether a publication has come to an end.
pub open spec fn is_reported(outcome: PublicationOutcome) -> bool {
    outcome is Applied || outcome is NotApplied
}

/// Whether two digests are equal.
fn same_digest(a: &[u8; 32], b: &[u8; 32]) -> (equal: bool)
    ensures
        equal == (a@ == b@),
{
    let mut i: usize = 0;
    while i < 32
        invariant
            i <= 32,
            forall|j: int| 0 <= j < i ==> #[trigger] a@[j] == b@[j],
        decreases 32 - i,
    {
        if a[i] != b[i] {
            assert(a@[i as int] != b@[i as int]);
            return false;
        }
        i += 1;
    }
    assert(a@ =~= b@);
    true
}

/// What the driver is asked to do for a change.
#[derive(Clone, Copy, Debug, PartialEq, Eq, Structural)]
pub enum Call {
    Create,
    Validate(Ring),
    Approve(Ring),
    Authorize(Ring),
    Retry(Ring, u64),
    Withdraw(Ring),
    /// Publish, or where the flag is set find out what became of it.
    Publish { attempt: u64, recover: bool, completed: bool },
}

/// Whether a ring holds the publication that a change names.
pub open spec fn names_publication(state: RingState, publication: Seq<u8>, attempt: u64) -> bool {
    state matches RingState::Publication(held) && held.id@ == publication && held.attempt == attempt
}

/// What the driver is asked to do for a change, where a candidate exists and
/// `state` is how far it has come on the ring that the change names.
pub open spec fn call_of(change: Change, expected_revision: u64, state: Option<RingState>) -> Result<
    Call,
    Error,
> {
    match change {
        Change::Candidate { .. } => if expected_revision == 0 {
            Ok(Call::Create)
        } else {
            Err(Error::Conflict)
        },
        Change::Validate { ring } => Ok(Call::Validate(ring)),
        Change::Approve { ring, .. } => Ok(Call::Approve(ring)),
        Change::Authorize { ring } => Ok(Call::Authorize(ring)),
        Change::Retry { ring, attempt } => Ok(Call::Retry(ring, attempt)),
        Change::Withdraw { ring } => match state {
            Some(_) => Ok(Call::Withdraw(ring)),
            None => Err(Error::ManagementNotFound(Missing::Candidate)),
        },
        Change::Publish { publication, attempt, .. } => published_call(
            state,
            publication,
            attempt,
            false,
        ),
        Change::Recover { publication, attempt, .. } => published_call(
            state,
            publication,
            attempt,
            true,
        ),
    }
}

/// What the driver is asked to do for a publication that a change names.
pub open spec fn published_call(
    state: Option<RingState>,
    publication: [u8; 32],
    attempt: u64,
    recover: bool,
) -> Result<Call, Error> {
    match state {
        None => Err(Error::ManagementNotFound(Missing::Candidate)),
        Some(state) => if names_publication(state, publication@, attempt) {
            Ok(
                Call::Publish {
                    attempt,
                    recover,
                    completed: is_reported(state->Publication_0.outcome),
                },
            )
        } else {
            Err(Error::Conflict)
        },
    }
}

fn publication_call(
    state: Option<&RingState>,
    publication: &[u8; 32],
    attempt: u64,
    recover: bool,
) -> (call: Result<Call, Error>)
    ensures
        call == published_call(
            match state {
                Some(state) => Some(*state),
                None => None,
            },
            *publication,
            attempt,
            recover,
        ),
{
    match state {
        None => Err(Error::ManagementNotFound(Missing::Candidate)),
        Some(RingState::Publication(held)) => {
            if !same_digest(&held.id, publication) || held.attempt != attempt {
                return Err(Error::Conflict);
            }
            let completed = match held.outcome {
                PublicationOutcome::Applied | PublicationOutcome::NotApplied => true,
                PublicationOutcome::Open => false,
            };
            Ok(Call::Publish { attempt, recover, completed })
        },
        Some(_) => Err(Error::Conflict),
    }
}

/// What the driver is asked to do for a change.
pub fn perform(change: &Change, expected_revision: u64, state: Option<&RingState>) -> (call: Result<
    Call,
    Error,
>)
    ensures
        call == call_of(
            *change,
            expected_revision,
            match state {
                Some(state) => Some(*state),
                None => None,
            },
        ),
{
    match change {
        Change::Candidate { .. } => if expected_revision != 0 {
            Err(Error::Conflict)
        } else {
            Ok(Call::Create)
        },
        Change::Validate { ring } => Ok(Call::Validate(*ring)),
        Change::Approve { ring, .. } => Ok(Call::Approve(*ring)),
        Change::Authorize { ring } => Ok(Call::Authorize(*ring)),
        Change::Retry { ring, attempt } => Ok(Call::Retry(*ring, *attempt)),
        Change::Withdraw { ring } => match state {
            Some(_) => Ok(Call::Withdraw(*ring)),
            None => Err(Error::ManagementNotFound(Missing::Candidate)),
        },
        Change::Publish { publication, attempt, .. } => publication_call(
            state,
            publication,
            *attempt,
            false,
        ),
        Change::Recover { publication, attempt, .. } => publication_call(
            state,
            publication,
            *attempt,
            true,
        ),
    }
}

/// What the driver answered.
#[derive(Clone, Copy, Debug, PartialEq, Eq, Structural)]
pub enum Reply {
    /// A candidate or a transition, and whether it had been made before.
    Made { replayed: bool },
    /// What a publication came to.
    Published(PublicationOutcome),
    /// Whether a release is no longer, or never was, published.
    Withdrawn { complete: bool, replayed: bool },
}

/// What a change did, from what the driver was asked and answered.
pub open spec fn effect_of(call: Call, reply: Reply) -> Effect {
    match reply {
        Reply::Made { replayed } => if replayed {
            Effect::Replayed
        } else {
            Effect::Performed
        },
        Reply::Published(outcome) => if !is_reported(outcome) {
            Effect::Unknown
        } else if call matches Call::Publish { completed, .. } && completed {
            Effect::Replayed
        } else {
            Effect::Performed
        },
        Reply::Withdrawn { complete, replayed } => if !complete {
            Effect::Unknown
        } else if replayed {
            Effect::Replayed
        } else {
            Effect::Performed
        },
    }
}

/// What a change did.
pub fn effect(call: Call, reply: Reply) -> (effect: Effect)
    ensures
        effect == effect_of(call, reply),
{
    match reply {
        Reply::Made { replayed } => if replayed {
            Effect::Replayed
        } else {
            Effect::Performed
        },
        Reply::Published(outcome) => match outcome {
            PublicationOutcome::Open => Effect::Unknown,
            _ => match call {
                Call::Publish { completed: true, .. } => Effect::Replayed,
                _ => Effect::Performed,
            },
        },
        Reply::Withdrawn { complete, replayed } => if !complete {
            Effect::Unknown
        } else if replayed {
            Effect::Replayed
        } else {
            Effect::Performed
        },
    }
}

/// Whether a change may be answered with the candidate: not where it is not
/// known what it did.
pub fn answer(effect: Effect) -> (admitted: Result<(), Error>)
    ensures
        admitted is Ok <==> !(effect is Unknown),
        admitted is Err ==> admitted == Err::<(), Error>(Error::CommitUnknown),
{
    match effect {
        Effect::Unknown => Err(Error::CommitUnknown),
        _ => Ok(()),
    }
}

/// The ring that a change is about, where it is about one.
pub open spec fn ring_in(change: Change) -> Option<Ring> {
    match change {
        Change::Candidate { .. } => None,
        Change::Validate { ring } => Some(ring),
        Change::Approve { ring, .. } => Some(ring),
        Change::Authorize { ring } => Some(ring),
        Change::Publish { ring, .. } => Some(ring),
        Change::Recover { ring, .. } => Some(ring),
        Change::Retry { ring, .. } => Some(ring),
        Change::Withdraw { ring } => Some(ring),
    }
}

/// The driver is asked for what the change says and for nothing else: to create a
/// candidate, to validate, approve, authorize, retry or withdraw it on a ring only
/// for a change that says so of that very ring, and for a publication only where
/// the change publishes or recovers it, of the attempt that the change names.
pub proof fn calls_are_of_the_kind_of_their_change(
    change: Change,
    expected_revision: u64,
    state: Option<RingState>,
)
    ensures
        call_of(change, expected_revision, state) matches Ok(call) ==> {
            &&& call is Create <==> change is Candidate
            &&& call is Validate <==> change is Validate
            &&& call is Approve <==> change is Approve
            &&& call is Authorize <==> change is Authorize
            &&& call is Retry <==> change is Retry
            &&& call is Withdraw <==> change is Withdraw
            &&& call is Publish <==> change is Publish || change is Recover
            &&& call matches Call::Validate(ring) ==> ring_in(change) == Some(ring)
            &&& call matches Call::Approve(ring) ==> ring_in(change) == Some(ring)
            &&& call matches Call::Authorize(ring) ==> ring_in(change) == Some(ring)
            &&& call matches Call::Withdraw(ring) ==> ring_in(change) == Some(ring)
            &&& call matches Call::Retry(ring, attempt) ==> change == (Change::Retry {
                ring,
                attempt,
            })
            &&& call matches Call::Publish { attempt, recover, .. } ==> {
                &&& recover <==> change is Recover
                &&& change matches Change::Publish { attempt: named, .. } ==> attempt == named
                &&& change matches Change::Recover { attempt: named, .. } ==> attempt == named
            }
        },
{
}

/// When the driver is asked at all: always for a validation, an approval, an
/// authorization and a retry; for a candidate only where none is expected to be
/// there; for a withdrawal only where the release has come to the ring; and for a
/// publication only where the ring holds it. What is refused is missing where the
/// release has not come to the ring, and in conflict otherwise.
pub proof fn calls_are_refused_only_where_they_cannot_be(
    change: Change,
    expected_revision: u64,
    state: Option<RingState>,
)
    ensures
        change is Validate || change is Approve || change is Authorize || change is Retry
            ==> call_of(change, expected_revision, state) is Ok,
        change is Candidate ==> (call_of(change, expected_revision, state) is Ok
            <==> expected_revision == 0),
        change is Withdraw ==> (call_of(change, expected_revision, state) is Ok <==> state is Some),
        change matches Change::Publish { publication, attempt, .. } ==> (call_of(
            change,
            expected_revision,
            state,
        ) is Ok <==> (state matches Some(RingState::Publication(held)) && held.id@ == publication@
            && held.attempt == attempt)),
        change matches Change::Recover { publication, attempt, .. } ==> (call_of(
            change,
            expected_revision,
            state,
        ) is Ok <==> (state matches Some(RingState::Publication(held)) && held.id@ == publication@
            && held.attempt == attempt)),
        call_of(change, expected_revision, state) matches Err(error) ==> error == if state is None
            && !(change is Candidate) {
            Error::ManagementNotFound(Missing::Candidate)
        } else {
            Error::Conflict
        },
{
}

/// A publication is told to be finished exactly where it was reported as applied or
/// as not applied.
pub proof fn calls_tell_whether_a_publication_is_finished(
    change: Change,
    expected_revision: u64,
    held: Publication,
)
    ensures
        call_of(change, expected_revision, Some(RingState::Publication(held))) matches Ok(
            Call::Publish { completed, .. },
        ) ==> (completed <==> held.outcome == PublicationOutcome::Applied || held.outcome
            == PublicationOutcome::NotApplied),
{
}

/// Changes need the same permission only where they are the same kind of work:
/// preparing, validating, approving, publishing, recovering and withdrawing are
/// each permitted apart from the others.
pub proof fn kinds_of_work_are_permitted_apart(change: Change)
    ensures
        needed(change) == Permission::ReleaseWrite <==> change is Candidate,
        needed(change) == Permission::ReleaseValidate <==> change is Validate,
        needed(change) == Permission::ReleaseApprove <==> change is Approve,
        needed(change) == Permission::ReleasePublish <==> change is Authorize || change is Publish,
        needed(change) == Permission::ReleaseRecover <==> change is Recover || change is Retry,
        needed(change) == Permission::ReleaseWithdraw <==> change is Withdraw,
{
}

/// A change is said to be performed only where the driver says that something came
/// of it that had not come of it before, and to be unknown exactly where the driver
/// does not say what came of it.
pub proof fn effects_are_what_the_driver_says(call: Call, reply: Reply)
    ensures
        effect_of(call, reply) is Unknown <==> (reply == Reply::Published(PublicationOutcome::Open)
            || (reply matches Reply::Withdrawn { complete, .. } && !complete)),
        effect_of(call, reply) is Performed ==> !(reply matches Reply::Made { replayed }
            && replayed) && !(reply matches Reply::Withdrawn { replayed, .. } && replayed),
        effect_of(call, reply) is Performed && reply is Published ==> !(
        call matches Call::Publish { completed, .. } && completed),
        effect_of(call, reply) is Replayed ==> (reply matches Reply::Made { replayed } && replayed)
            || (reply matches Reply::Withdrawn { replayed, .. } && replayed) || (reply is Published
            && (call matches Call::Publish { completed, .. } && completed)),
{
}

/// A diagnostic is answered as what it is about, however deep; a failure is answered
/// as a missing candidate only where the candidate is not found, as forbidden only
/// where it is about an identity, and as unknown exactly where it is not known
/// whether anything was kept.
pub proof fn failures_of_the_driver_are_told_apart(error: ServiceError)
    ensures
        failure_of(ServiceError::Diagnostic { category: Box::new(error) }) == failure_of(error),
        !(error is Diagnostic) ==> {
            &&& failure_of(error) == Error::ManagementNotFound(Missing::Candidate)
                <==> error is CandidateNotFound
            &&& failure_of(error) == Error::Forbidden <==> error is Identity
            &&& failure_of(error) == Error::Conflict <==> error is Conflict || error is Blocked
            &&& failure_of(error) == Error::CommitUnknown <==> error is CommitUnknown
                || error is RollbackFailed
            &&& failure_of(error) == Error::Unavailable(Failure::Runtime) <==> error is Other
            &&& failure_of(error) == Error::Malformed <==> error is Input || error is Content
                || error is ArtifactAddress || error is ArtifactBudget || error is ArtifactDigest
        },
{
}

/// A publication that has come to an end is never performed again: asking for it
/// once more replays it, or leaves it unknown.
pub proof fn finished_publications_are_not_performed_again(
    change: Change,
    expected_revision: u64,
    state: RingState,
    outcome: PublicationOutcome,
)
    requires
        change is Publish || change is Recover,
        state matches RingState::Publication(held) && is_reported(held.outcome),
    ensures
        call_of(change, expected_revision, Some(state)) matches Ok(call) ==> effect_of(
            call,
            Reply::Published(outcome),
        ) != Effect::Performed,
{
}

/// A publication is asked for only under the name and attempt that the ring
/// holds.
pub proof fn only_the_held_publication_is_published(
    ring: Ring,
    publication: [u8; 32],
    attempt: u64,
    expected_revision: u64,
    state: Option<RingState>,
)
    ensures
        call_of(
            Change::Publish { ring, publication, attempt },
            expected_revision,
            state,
        ) is Ok <==> (state matches Some(state) && names_publication(
            state,
            publication@,
            attempt,
        )),
{
}

/// The standing of a candidate release.
#[derive(Clone, Copy, Debug, PartialEq, Eq, Structural)]
pub enum Disposition {
    Active,
    Quarantined,
    Deprecated,
}

/// The name of a disposition.
pub open spec fn disposition_of(disposition: Disposition) -> Seq<char> {
    match disposition {
        Disposition::Active => "active"@,
        Disposition::Quarantined => "quarantined"@,
        Disposition::Deprecated => "deprecated"@,
    }
}

/// The name of a disposition.
pub fn disposition(standing: Disposition) -> (name: &'static str)
    ensures
        name@ == disposition_of(standing),
{
    match standing {
        Disposition::Active => "active",
        Disposition::Quarantined => "quarantined",
        Disposition::Deprecated => "deprecated",
    }
}

/// The name of a ring.
pub open spec fn ring_of(ring: Ring) -> Seq<char> {
    match ring {
        Ring::Test => "test"@,
        Ring::Pilot => "pilot"@,
        Ring::Production => "production"@,
    }
}

/// The name of a ring.
pub fn ring_name(ring: Ring) -> (name: &'static str)
    ensures
        name@ == ring_of(ring),
{
    match ring {
        Ring::Test => "test",
        Ring::Pilot => "pilot",
        Ring::Production => "production",
    }
}

/// A publication as it is shown.
#[derive(Debug)]
pub struct PublicationView {
    pub id: [u8; 32],
    pub attempt: u64,
    pub outcome: &'static str,
}

/// How far a release has come on a ring, as it is shown.
#[derive(Debug)]
pub struct CandidateRing {
    pub ring: &'static str,
    pub state: &'static str,
    pub publication: Option<PublicationView>,
    pub approval: Option<Approval>,
}

/// The name of a publication's outcome.
pub open spec fn outcome_of(outcome: PublicationOutcome) -> Seq<char> {
    match outcome {
        PublicationOutcome::Applied => "published"@,
        PublicationOutcome::NotApplied => "not_applied"@,
        PublicationOutcome::Open => "unknown"@,
    }
}

/// Whether `shown` shows how far a release has come on `ring`.
pub open spec fn shows(shown: CandidateRing, ring: Ring, state: RingState) -> bool {
    &&& shown.ring@ == ring_of(ring)
    &&& match state {
        RingState::Publication(held) => {
            &&& shown.state@ == "publication"@
            &&& shown.publication matches Some(publication) && publication.id == held.id
                && publication.attempt == held.attempt && publication.outcome@ == outcome_of(
                held.outcome,
            )
            &&& shown.approval == Some(held.approval)
        },
        RingState::Approved(approval) => shown.state@ == "approved"@ && shown.publication is None
            && shown.approval == Some(approval),
        RingState::Validated => shown.state@ == "validated"@ && shown.publication is None
            && shown.approval is None,
        RingState::Candidate => shown.state@ == "candidate"@ && shown.publication is None
            && shown.approval is None,
    }
}

/// Shows how far a release has come on a ring.
pub fn summary(ring: Ring, state: RingState) -> (shown: CandidateRing)
    ensures
        shows(shown, ring, state),
{
    match state {
        RingState::Publication(held) => CandidateRing {
            ring: ring_name(ring),
            state: "publication",
            publication: Some(
                PublicationView {
                    id: held.id,
                    attempt: held.attempt,
                    outcome: match held.outcome {
                        PublicationOutcome::Applied => "published",
                        PublicationOutcome::NotApplied => "not_applied",
                        PublicationOutcome::Open => "unknown",
                    },
                },
            ),
            approval: Some(held.approval),
        },
        RingState::Approved(approval) => CandidateRing {
            ring: ring_name(ring),
            state: "approved",
            publication: None,
            approval: Some(approval),
        },
        RingState::Validated => CandidateRing {
            ring: ring_name(ring),
            state: "validated",
            publication: None,
            approval: None,
        },
        RingState::Candidate => CandidateRing {
            ring: ring_name(ring),
            state: "candidate",
            publication: None,
            approval: None,
        },
    }
}

/// What is shown of a ring tells how far the release has come on it: a publication is
/// shown exactly where there is one, an approval exactly where the release was
/// approved, each as it is held, and no two stages and no two rings by one name.
pub proof fn summaries_tell_stages_apart(
    one: CandidateRing,
    two: CandidateRing,
    ring: Ring,
    other: Ring,
    state: RingState,
    later: RingState,
)
    requires
        shows(one, ring, state),
        shows(two, other, later),
    ensures
        one.publication is Some <==> state is Publication,
        one.approval == (match state {
            RingState::Approved(approval) => Some(approval),
            RingState::Publication(held) => Some(held.approval),
            _ => None,
        }),
        state matches RingState::Publication(held) ==> one.publication->Some_0.id == held.id
            && one.publication->Some_0.attempt == held.attempt,
        one.ring@ == two.ring@ <==> ring == other,
        one.state@ == two.state@ <==> (state is Candidate <==> later is Candidate) && (
        state is Validated <==> later is Validated) && (state is Approved <==> later is Approved),
        state matches RingState::Publication(held) ==> (later matches RingState::Publication(next)
            ==> (one.publication->Some_0.outcome@ == two.publication->Some_0.outcome@
            <==> held.outcome == next.outcome)),
{
    reveal_strlit("test");
    reveal_strlit("pilot");
    reveal_strlit("production");
    reveal_strlit("candidate");
    reveal_strlit("validated");
    reveal_strlit("approved");
    reveal_strlit("publication");
    reveal_strlit("published");
    reveal_strlit("not_applied");
    reveal_strlit("unknown");
    assert("test"@[0] == 't' && "pilot"@[0] == 'p' && "production"@[0] == 'p');
    assert("pilot"@[1] == 'i' && "production"@[1] == 'r');
    assert("candidate"@[0] == 'c' && "validated"@[0] == 'v' && "approved"@[0] == 'a');
    assert("publication"@[0] == 'p' && "published"@[0] == 'p' && "not_applied"@[0] == 'n');
    assert("unknown"@[0] == 'u');
}

/// No two standings of a candidate go by one name.
pub proof fn standings_are_told_apart(one: Disposition, two: Disposition)
    ensures
        disposition_of(one) == disposition_of(two) <==> one == two,
{
    reveal_strlit("active");
    reveal_strlit("quarantined");
    reveal_strlit("deprecated");
    assert("active"@[0] == 'a' && "quarantined"@[0] == 'q' && "deprecated"@[0] == 'd');
}

} // verus!
