//! Policies: how they change, and what a change sets going.
use crate::encoding::{hex, hex_of, hex_texts_differ};
use crate::error::Error;
use crate::id::Id;
use crate::management::automation::JobInput;
use crate::management::model::PolicyChange;
use crate::text::join;
use vstd::prelude::*;

verus! {

/// The status of a policy.
#[derive(Clone, Copy, Debug, PartialEq, Eq, Structural)]
pub enum Status {
    Draft,
    Active,
    Paused,
    Archived,
}

/// The name of a policy's status.
pub open spec fn status_name(status: Status) -> Seq<char> {
    match status {
        Status::Draft => "draft"@,
        Status::Active => "active"@,
        Status::Paused => "paused"@,
        Status::Archived => "archived"@,
    }
}

/// The name of a policy's status.
pub fn policy_status(status: Status) -> (name: &'static str)
    ensures
        name@ == status_name(status),
{
    match status {
        Status::Draft => "draft",
        Status::Active => "active",
        Status::Paused => "paused",
        Status::Archived => "archived",
    }
}

/// A policy as it is stored.
#[derive(Debug)]
pub struct Policy {
    pub id: String,
    pub storage_revision: u64,
    pub revision: u64,
    pub status: Status,
    pub plan: Option<[u8; 32]>,
    pub fresh: bool,
}

/// A policy as it is shown.
#[derive(Debug)]
pub struct PolicyView {
    pub id: String,
    pub storage_revision: u64,
    pub revision: u64,
    pub status: &'static str,
    pub plan: Option<String>,
    pub fresh: bool,
}

/// Whether `shown` shows `policy`.
pub open spec fn shows(shown: PolicyView, policy: Policy) -> bool {
    &&& shown.id == policy.id
    &&& shown.storage_revision == policy.storage_revision
    &&& shown.revision == policy.revision
    &&& shown.status@ == status_name(policy.status)
    &&& match (shown.plan, policy.plan) {
        (Some(text), Some(plan)) => text@ == hex_of(plan@),
        (None, None) => true,
        _ => false,
    }
    &&& shown.fresh == policy.fresh
}

/// Shows a policy, where there is one.
pub fn policy_read(policy: Option<Policy>) -> (shown: Result<PolicyView, Error>)
    ensures
        match policy {
            Some(policy) => shown matches Ok(shown) && shows(shown, policy),
            None => shown == Err::<PolicyView, Error>(
                Error::ManagementNotFound(crate::management::model::Missing::Policy),
            ),
        },
{
    match policy {
        Some(policy) => Ok(
            PolicyView {
                plan: match &policy.plan {
                    Some(plan) => Some(hex(plan.as_slice())),
                    None => None,
                },
                id: policy.id,
                storage_revision: policy.storage_revision,
                revision: policy.revision,
                status: policy_status(policy.status),
                fresh: policy.fresh,
            },
        ),
        None => Err(Error::ManagementNotFound(crate::management::model::Missing::Policy)),
    }
}

/// The state of a resource version, as far as policies care.
#[derive(Clone, Copy, Debug, PartialEq, Eq, Structural)]
pub enum VersionState {
    Frozen,
    Active,
    Other,
}

/// A resource version that a policy is to apply.
#[derive(Debug)]
pub struct ResourceVersion {
    pub state: VersionState,
    pub digest: [u8; 32],
}

/// What the policy store is told to do.
#[derive(Debug)]
pub enum PolicyCommand {
    Create,
    /// Activates a version with a payload, under the name and digest of the
    /// resource version that it is.
    Activate { version: u64, payload: String, digest: [u8; 32] },
    Pause,
    Resume,
    Archive,
}

/// The name of the payload that is a resource version.
pub open spec fn payload_of(digest: Seq<u8>) -> Seq<char> {
    "r-"@ + hex_of(digest)
}

/// The name of the payload that is the resource version with this digest.
pub fn payload(digest: &[u8; 32]) -> (name: String)
    ensures
        name@ == payload_of(digest@),
{
    let text = hex(digest.as_slice());
    join("r-", text.as_str())
}

/// Whether a resource version can be activated.
pub open spec fn is_activatable(resource: ResourceVersion) -> bool {
    resource.state == VersionState::Frozen || resource.state == VersionState::Active
}

/// How a change of a policy is carried out. `resource` is what the version that
/// the change activates resolved to; a version that is neither frozen nor active
/// cannot be activated.
pub fn policy_change(change: &PolicyChange, resource: Result<ResourceVersion, Error>) -> (command:
    Result<PolicyCommand, Error>)
    ensures
        match *change {
            PolicyChange::Create => command == Ok::<_, Error>(PolicyCommand::Create),
            PolicyChange::Pause => command == Ok::<_, Error>(PolicyCommand::Pause),
            PolicyChange::Resume => command == Ok::<_, Error>(PolicyCommand::Resume),
            PolicyChange::Archive => command == Ok::<_, Error>(PolicyCommand::Archive),
            PolicyChange::Activate { version, .. } => match resource {
                Err(error) => command == Err::<PolicyCommand, Error>(error),
                Ok(resource) => if is_activatable(resource) {
                    command matches Ok(PolicyCommand::Activate { version: v, payload, digest })
                        && v == version && payload@ == payload_of(resource.digest@) && digest
                        == resource.digest
                } else {
                    command == Err::<PolicyCommand, Error>(Error::Conflict)
                },
            },
        },
{
    match change {
        PolicyChange::Create => Ok(PolicyCommand::Create),
        PolicyChange::Pause => Ok(PolicyCommand::Pause),
        PolicyChange::Resume => Ok(PolicyCommand::Resume),
        PolicyChange::Archive => Ok(PolicyCommand::Archive),
        PolicyChange::Activate { version, .. } => match resource {
            Err(error) => Err(error),
            Ok(resource) => {
                if resource.state != VersionState::Frozen && resource.state
                    != VersionState::Active {
                    return Err(Error::Conflict);
                }
                Ok(
                    PolicyCommand::Activate {
                        version: *version,
                        payload: payload(&resource.digest),
                        digest: resource.digest,
                    },
                )
            },
        },
    }
}

/// The scope that a policy is assigned to.
#[derive(Clone, Copy, Debug, PartialEq, Eq, Structural)]
pub struct Assignment {
    pub scope: Id,
    pub revision: i64,
}

/// What sets the recomputation of a policy going: the two jobs' identifiers, the
/// revision that the policy came to and the time.
#[derive(Clone, Copy, Debug, PartialEq, Eq, Structural)]
pub struct Trigger {
    pub resolution: Id,
    pub task: Id,
    pub storage_revision: u64,
    pub as_of: i64,
}

/// What a change of an assigned policy sets going: the scope is resolved anew,
/// and the policy is planned on what that resolution finds. A policy that was
/// only just created is not planned, nor is one that is not assigned.
pub fn recompute(
    change: &PolicyChange,
    policy: &String,
    assignment: Option<Assignment>,
    trigger: Trigger,
) -> (jobs: Option<(JobInput, JobInput)>)
    ensures
        jobs == (match assignment {
            Some(assignment) => if *change is Create {
                None
            } else {
                Some(
                    (
                        JobInput::Scope { scope: assignment.scope },
                        JobInput::Policy {
                            policy: *policy,
                            scope: assignment.scope,
                            resolution: trigger.resolution,
                            assignment_revision: Some(assignment.revision),
                            expected_revision: trigger.storage_revision,
                            as_of: trigger.as_of,
                        },
                    ),
                )
            },
            None => None,
        }),
{
    if let PolicyChange::Create = change {
        return None;
    }
    match assignment {
        Some(assignment) => Some(
            (
                JobInput::Scope { scope: assignment.scope },
                JobInput::Policy {
                    policy: policy.clone(),
                    scope: assignment.scope,
                    resolution: trigger.resolution,
                    assignment_revision: Some(assignment.revision),
                    expected_revision: trigger.storage_revision,
                    as_of: trigger.as_of,
                },
            ),
        ),
        None => None,
    }
}

/// A policy is shown as it is stored, and no two of its statuses by one name.
pub proof fn policies_are_shown_as_they_are(
    one: PolicyView,
    two: PolicyView,
    policy: Policy,
    other: Policy,
)
    requires
        shows(one, policy),
        shows(two, other),
    ensures
        one.id == policy.id,
        one.storage_revision == policy.storage_revision,
        one.revision == policy.revision,
        one.fresh == policy.fresh,
        one.plan is Some <==> policy.plan is Some,
        one.status@ == two.status@ <==> policy.status == other.status,
        policy.plan is Some && other.plan is Some ==> (one.plan->Some_0@ == two.plan->Some_0@
            <==> policy.plan->Some_0@ == other.plan->Some_0@),
{
    reveal_strlit("draft");
    reveal_strlit("active");
    reveal_strlit("paused");
    reveal_strlit("archived");
    assert("draft"@[0] == 'd' && "active"@[0] == 'a' && "paused"@[0] == 'p');
    assert("archived"@[0] == 'a' && "archived"@[1] == 'r' && "active"@[1] == 'c');
    if policy.plan is Some && other.plan is Some && one.plan->Some_0@ == two.plan->Some_0@ {
        hex_texts_differ(policy.plan->Some_0@, other.plan->Some_0@);
    }
}

/// A payload goes by the digest of what it is: two of them go by one name exactly where
/// they have one digest. Only a version that is frozen or active is activated.
pub proof fn payloads_go_by_their_digest(one: ResourceVersion, two: ResourceVersion)
    ensures
        payload_of(one.digest@) == payload_of(two.digest@) <==> one.digest@ == two.digest@,
        is_activatable(one) <==> one.state == VersionState::Frozen || one.state
            == VersionState::Active,
{
    reveal_strlit("r-");
    if payload_of(one.digest@) == payload_of(two.digest@) {
        assert(payload_of(one.digest@).skip(2) =~= hex_of(one.digest@));
        assert(payload_of(two.digest@).skip(2) =~= hex_of(two.digest@));
        hex_texts_differ(one.digest@, two.digest@);
    }
}

} // verus!
