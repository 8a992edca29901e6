//! Jobs that plan policies on resolved scopes.
use crate::error::{Error, Failure};
use crate::id::{text_of, Id};
use crate::management::automation::groups::{reference, reference_of};
use crate::management::automation::jobs::Job;
use crate::management::automation::model::{JobInput, ScopeInput};
use crate::management::automation::runtime::terminal_of;
use crate::management::automation::scopes::{
    named, references, references_of, AssignmentReference,
};
use crate::management::model::Missing;
use crate::text::same;
use vstd::prelude::*;

verus! {

/// The jobs of a preview: the scope is resolved, and the policy is planned on
/// what that finds. `revision` is the policy's, where there is one, and
/// `defined` whether the scope is. A preview is of the policy as the caller knows
/// it, and belongs to no assignment.
pub fn start_policy_preview(
    policy: &String,
    revision: Option<u64>,
    expected: u64,
    defined: Result<(), Error>,
    scope: Id,
    resolution: Id,
    as_of: i64,
) -> (jobs: Result<(JobInput, JobInput), Error>)
    ensures
        match revision {
            None => jobs == Err::<(JobInput, JobInput), Error>(
                Error::ManagementNotFound(Missing::Policy),
            ),
            Some(revision) => if revision != expected {
                jobs == Err::<(JobInput, JobInput), Error>(Error::Conflict)
            } else {
                match defined {
                    Err(error) => jobs == Err::<(JobInput, JobInput), Error>(error),
                    Ok(_) => jobs == Ok::<(JobInput, JobInput), Error>(
                        (
                            JobInput::Scope { scope },
                            JobInput::Policy {
                                policy: *policy,
                                scope,
                                resolution,
                                assignment_revision: None,
                                expected_revision: expected,
                                as_of,
                            },
                        ),
                    ),
                }
            },
        },
{
    match revision {
        None => return Err(Error::ManagementNotFound(Missing::Policy)),
        Some(revision) => if revision != expected {
            return Err(Error::Conflict);
        },
    }
    if let Err(error) = defined {
        return Err(error);
    }
    Ok(
        (
            JobInput::Scope { scope },
            JobInput::Policy {
                policy: policy.clone(),
                scope,
                resolution,
                assignment_revision: None,
                expected_revision: expected,
                as_of,
            },
        ),
    )
}

/// A resolution of a scope that a policy is planned on: how far it has come, and
/// whether it is still what the scope is resolved to.
#[derive(Debug)]
pub struct Resolution {
    pub phase: String,
    pub current: bool,
    pub definition_revision: u64,
    pub resolution_revision: u64,
}

/// Whether a resolution was published, so that a policy can be planned on it.
pub open spec fn is_published(resolution: Option<Resolution>) -> bool {
    resolution matches Some(resolution) && resolution.phase@ == "published"@
}

/// What a job that plans a policy is refused with, where it is: the policy has to
/// be assigned to the scope as it was, where it was, and the scope has to be
/// resolved, and to that. `assigned` is the revision of the assignment, where
/// there is one, and `failed` whether the job that was to resolve the scope
/// failed: without a published resolution there is then nothing to wait for. One
/// that was published counts whatever became of the job.
pub open spec fn planning_refusal(
    expected: Option<i64>,
    assigned: Option<i64>,
    failed: bool,
    resolution: Option<Resolution>,
) -> Option<Error> {
    if expected is Some && assigned != expected {
        Some(Error::Conflict)
    } else if !is_published(resolution) {
        if failed {
            Some(Error::ManagementNotFound(Missing::Scope))
        } else {
            Some(Error::Unavailable(Failure::ManagementStorage))
        }
    } else if !resolution->Some_0.current {
        Some(Error::Conflict)
    } else {
        None
    }
}

/// Accepts what a policy is planned on.
pub fn admit_planning(
    expected: Option<i64>,
    assigned: Option<i64>,
    failed: bool,
    resolution: &Option<Resolution>,
) -> (admitted: Result<(), Error>)
    ensures
        match admitted {
            Ok(_) => planning_refusal(expected, assigned, failed, *resolution) is None,
            Err(error) => planning_refusal(expected, assigned, failed, *resolution) == Some(error),
        },
{
    if let Some(expected) = expected {
        let same_assignment = match assigned {
            Some(assigned) => assigned == expected,
            None => false,
        };
        if !same_assignment {
            return Err(Error::Conflict);
        }
    }
    if let Some(resolution) = resolution {
        if same(resolution.phase.as_str(), "published") {
            if resolution.current {
                return Ok(());
            }
            return Err(Error::Conflict);
        }
    }
    if failed {
        Err(Error::ManagementNotFound(Missing::Scope))
    } else {
        Err(Error::Unavailable(Failure::ManagementStorage))
    }
}

/// A policy whose scope could not be resolved fails for want of its source, unless
/// it was assigned to another scope meanwhile: the job failed, and no resolution
/// was published.
pub proof fn policy_inherits_the_failure_of_its_scope(
    expected: Option<i64>,
    assigned: Option<i64>,
    resolution: Option<Resolution>,
)
    requires
        expected is None || assigned == expected,
        !is_published(resolution),
    ensures
        planning_refusal(expected, assigned, true, resolution) matches Some(error) && terminal_of(
            error,
        ) == Some("source_unavailable"@),
{
}

/// A resolution that was published counts: what became of the job that computed
/// it does not.
pub proof fn published_resolution_outlives_its_job(
    expected: Option<i64>,
    assigned: Option<i64>,
    resolution: Option<Resolution>,
)
    requires
        is_published(resolution),
    ensures
        planning_refusal(expected, assigned, true, resolution) == planning_refusal(
            expected,
            assigned,
            false,
            resolution,
        ),
        (expected is None || assigned == expected) && resolution->Some_0.current
            ==> planning_refusal(expected, assigned, true, resolution) is None,
{
}

/// What the policy store is asked to plan.
#[derive(Debug)]
pub struct CandidateRequest {
    pub id: Id,
    pub policy: String,
    pub expected_revision: u64,
    /// The scope whose devices are planned for, and the version of its
    /// resolution.
    pub targets: String,
    pub target_revision: u64,
    pub references: Vec<AssignmentReference>,
    pub as_of: i64,
}

/// Begins a candidate plan: it refers to everything that the scope's resolution
/// was computed from, and to that resolution.
pub fn begin_candidate(
    task: Id,
    policy: &String,
    scope: Id,
    expected_revision: u64,
    as_of: i64,
    resolution: &Resolution,
    input: &ScopeInput,
) -> (request: CandidateRequest)
    ensures
        request.id == task,
        request.policy == *policy,
        request.expected_revision == expected_revision,
        request.targets@ == text_of(scope.value),
        request.target_revision == resolution.resolution_revision,
        named(request.references@) == references_of(
            scope,
            resolution.definition_revision,
            input.sources@,
        ).push((reference_of("scope-resolution."@, scope), resolution.resolution_revision)),
        request.as_of == as_of,
{
    let mut all = references(scope, resolution.definition_revision, input);
    let ghost before = all@;
    let id = reference("scope-resolution.", scope);
    all.push(AssignmentReference { id, revision: resolution.resolution_revision });
    assert(named(all@) =~= named(before).push(
        (reference_of("scope-resolution."@, scope), resolution.resolution_revision),
    ));
    CandidateRequest {
        id: task,
        policy: policy.clone(),
        expected_revision,
        targets: scope.text(),
        target_revision: resolution.resolution_revision,
        references: all,
        as_of,
    }
}

/// How far a candidate plan has come.
#[derive(Clone, Copy, Debug, PartialEq, Eq, Structural)]
pub enum CandidatePhase {
    Targets,
    Facts,
    Ready,
    Saved,
    Superseded,
}

/// A candidate plan, as the policy store answers for it.
#[derive(Clone, Copy, Debug, PartialEq, Eq, Structural)]
pub enum CandidateState {
    /// There is none yet.
    Missing,
    Found(CandidatePhase),
    /// It cannot be had.
    Rejected,
}

/// The next step of a job that plans a policy.
#[derive(Clone, Copy, Debug, PartialEq, Eq, Structural)]
pub enum PlanStep {
    /// The candidate plan is begun, and its devices are taken on.
    Begin,
    /// A page of devices is taken on.
    Targets,
    /// What was executed before is taken into account.
    Facts,
    /// The plan is the policy's latest, and the job is over.
    Finish,
    /// The job is over, and its plan is outdated.
    Supersede,
}

/// The next step of a job that plans a policy.
pub open spec fn plan_step(state: CandidateState) -> Result<PlanStep, Error> {
    match state {
        CandidateState::Missing => Ok(PlanStep::Begin),
        CandidateState::Rejected => Err(Error::Conflict),
        CandidateState::Found(phase) => Ok(
            match phase {
                CandidatePhase::Targets => PlanStep::Targets,
                CandidatePhase::Facts => PlanStep::Facts,
                CandidatePhase::Ready | CandidatePhase::Saved => PlanStep::Finish,
                CandidatePhase::Superseded => PlanStep::Supersede,
            },
        ),
    }
}

/// The next step of a job that plans a policy.
pub fn advance_policy_job(state: CandidateState) -> (step: Result<PlanStep, Error>)
    ensures
        step == plan_step(state),
{
    match state {
        CandidateState::Missing => Ok(PlanStep::Begin),
        CandidateState::Rejected => Err(Error::Conflict),
        CandidateState::Found(CandidatePhase::Targets) => Ok(PlanStep::Targets),
        CandidateState::Found(CandidatePhase::Facts) => Ok(PlanStep::Facts),
        CandidateState::Found(CandidatePhase::Ready) => Ok(PlanStep::Finish),
        CandidateState::Found(CandidatePhase::Saved) => Ok(PlanStep::Finish),
        CandidateState::Found(CandidatePhase::Superseded) => Ok(PlanStep::Supersede),
    }
}

/// The most devices that a candidate plan takes on at once.
pub const TARGETS_AT_ONCE: usize = 1000;

/// The devices that a candidate plan takes on, and how many it has altogether
/// where none follow.
#[derive(Debug)]
pub struct Targets {
    pub devices: Vec<String>,
    pub seal: Option<u64>,
}

/// The devices that a candidate plan takes on: a page of those that follow.
/// `devices` are one more than are taken on at once where there are as many, and
/// `count` were taken on before.
pub fn next_targets(devices: Vec<String>, count: u64) -> (targets: Targets)
    requires
        count + TARGETS_AT_ONCE <= u64::MAX,
    ensures
        devices@.len() > TARGETS_AT_ONCE ==> targets.devices@ == devices@.take(
            TARGETS_AT_ONCE as int,
        ) && targets.seal is None,
        devices@.len() <= TARGETS_AT_ONCE ==> targets.devices@ == devices@ && targets.seal == Some(
            (count + devices@.len()) as u64,
        ),
{
    let mut kept = devices;
    if kept.len() > TARGETS_AT_ONCE {
        kept.truncate(TARGETS_AT_ONCE);
        return Targets { devices: kept, seal: None };
    }
    let total: u64 = count + kept.len() as u64;
    Targets { devices: kept, seal: Some(total) }
}

/// Whether a previewed plan can be saved: it is of that policy, it is complete, it
/// did not fail, and no identity that it was computed from has changed.
pub open spec fn is_saveable(job: Job, policy: Seq<char>, authority: bool) -> bool {
    &&& job.input matches JobInput::Policy { policy: owner, .. } && owner@ == policy
    &&& job.completed
    &&& job.failure is None
    &&& authority
}

/// Accepts a previewed plan that is about to be saved. The answer is the scope
/// that the policy is assigned to.
pub fn save_ready_candidate(job: &Option<Job>, policy: &str, authority: bool) -> (scope: Result<
    Id,
    Error,
>)
    ensures
        match *job {
            None => scope == Err::<Id, Error>(Error::NotFound),
            Some(job) => if is_saveable(job, policy@, authority) {
                job.input matches JobInput::Policy { scope: of, .. } && scope == Ok::<Id, Error>(of)
            } else {
                scope == Err::<Id, Error>(Error::Conflict)
            },
        },
{
    let job = match job {
        Some(job) => job,
        None => return Err(Error::NotFound),
    };
    match &job.input {
        JobInput::Policy { policy: owner, scope, .. } => {
            if !same(owner.as_str(), policy) || !job.completed || job.failure.is_some()
                || !authority {
                return Err(Error::Conflict);
            }
            Ok(*scope)
        },
        _ => Err(Error::Conflict),
    }
}

/// A policy is planned exactly where it is still assigned as it was, where it was
/// assigned, and where its scope is resolved, to a resolution that is published and
/// still the scope's own. What is outdated is in conflict; a resolution that is not
/// there yet is waited for, unless it will never be there.
pub proof fn policies_are_planned_on_what_holds(
    expected: Option<i64>,
    assigned: Option<i64>,
    failed: bool,
    resolution: Option<Resolution>,
)
    ensures
        planning_refusal(expected, assigned, failed, resolution) is None <==> (expected is None
            || expected == assigned) && (resolution matches Some(found) && found.phase@
            == "published"@ && found.current),
        expected is Some && expected != assigned ==> planning_refusal(
            expected,
            assigned,
            failed,
            resolution,
        ) == Some(Error::Conflict),
        (expected is None || expected == assigned) && !(resolution matches Some(found)
            && found.phase@ == "published"@) ==> planning_refusal(
            expected,
            assigned,
            failed,
            resolution,
        ) == Some(
            if failed {
                Error::ManagementNotFound(Missing::Scope)
            } else {
                Error::Unavailable(Failure::ManagementStorage)
            },
        ),
        (resolution matches Some(found) && !found.current) && is_published(resolution)
            ==> planning_refusal(expected, assigned, failed, resolution) == Some(Error::Conflict),
{
}

/// A plan is worked out step by step: it is begun where there is none, takes on its
/// devices and then what was executed before, and is over once it is ready or saved.
/// One that was superseded ends as such, and one that cannot be had is in conflict.
pub proof fn plans_are_worked_out_step_by_step(state: CandidateState)
    ensures
        plan_step(state) == Ok::<PlanStep, Error>(PlanStep::Begin) <==> state
            == CandidateState::Missing,
        plan_step(state) == Ok::<PlanStep, Error>(PlanStep::Targets) <==> state
            == CandidateState::Found(CandidatePhase::Targets),
        plan_step(state) == Ok::<PlanStep, Error>(PlanStep::Facts) <==> state
            == CandidateState::Found(CandidatePhase::Facts),
        plan_step(state) == Ok::<PlanStep, Error>(PlanStep::Finish) <==> state
            == CandidateState::Found(CandidatePhase::Ready) || state == CandidateState::Found(
            CandidatePhase::Saved,
        ),
        plan_step(state) == Ok::<PlanStep, Error>(PlanStep::Supersede) <==> state
            == CandidateState::Found(CandidatePhase::Superseded),
        plan_step(state) == Err::<PlanStep, Error>(Error::Conflict) <==> state
            == CandidateState::Rejected,
{
}

/// A plan is saved only for the policy that it was made for, only once it is complete
/// and did not fail, and only while every identity is as it was computed from.
pub proof fn only_finished_plans_are_saved(job: Job, policy: Seq<char>, authority: bool)
    ensures
        is_saveable(job, policy, authority) <==> job.completed && job.failure is None && authority
            && (job.input matches JobInput::Policy { policy: owner, .. } && policy == owner@),
{
}

} // verus!
