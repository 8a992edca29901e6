//! The bounded plan of a configuration: how it is frozen, read and saved.
use crate::encoding::{hex, hex_of};
use crate::error::{Error, Failure, PlanFailureReason, PlanStage};
use crate::id::Id;
use crate::management::configuration::{
    at, evidence, refuses_device, Evidence, Frozen, Refusal, MAX_EXECUTIONS, MAX_TARGETS,
};
use crate::management::model::{Dispatch, FrozenIntent, FrozenPlan};
use crate::management::pages::policy::CandidateIntent;
use crate::management::plans::Status;
use vstd::prelude::*;

verus! {

/// A plan together with the devices that it reaches.
#[derive(Debug)]
pub struct PlanExecutionAdmission {
    pub id: Id,
    pub policy: String,
    pub devices: Vec<String>,
    pub configuration: Option<Frozen>,
    pub plan: FrozenPlan,
}

/// A stored plan, the revision at which it was saved, where it was, and whether
/// what it was computed from still stands.
#[derive(Debug)]
pub struct Admission {
    pub plan: PlanExecutionAdmission,
    pub saved_revision: Option<i64>,
    pub current: bool,
}

/// Whether a plan is the one that is asked for, and within its bounds.
pub open spec fn is_bounded(plan: PlanExecutionAdmission, id: Id) -> bool {
    &&& plan.id == id
    &&& plan.devices@.len() <= MAX_TARGETS
    &&& plan.plan.intents@.len() <= MAX_EXECUTIONS
}

/// Accepts a stored plan. What is stored under an identifier is a plan with that
/// identifier and within the bounds, or the store is at fault.
pub fn read_on(stored: Option<Admission>, id: Id) -> (admission: Result<Option<Admission>, Error>)
    ensures
        admission == (match stored {
            None => Ok::<Option<Admission>, Error>(None),
            Some(stored) => if is_bounded(stored.plan, id) {
                Ok(Some(stored))
            } else {
                Err(Error::Unavailable(Failure::ManagementStorage))
            },
        }),
{
    match stored {
        None => Ok(None),
        Some(stored) => {
            if stored.plan.id != id || stored.plan.devices.len() > MAX_TARGETS
                || stored.plan.plan.intents.len() > MAX_EXECUTIONS {
                return Err(Error::Unavailable(Failure::ManagementStorage));
            }
            Ok(Some(stored))
        },
    }
}

/// Accepts a stored plan that has to be there.
pub fn read_in(stored: Option<Admission>, id: Id, stage: PlanStage) -> (admission: Result<
    Admission,
    Refusal,
>)
    ensures
        match stored {
            None => admission matches Err(Refusal::Plan { reason, device, stage: s }) && reason
                == PlanFailureReason::StalePlan && device is None && s == stage,
            Some(stored) => if is_bounded(stored.plan, id) {
                admission == Ok::<Admission, Refusal>(stored)
            } else {
                admission == Err::<Admission, Refusal>(
                    Refusal::Request(Error::Unavailable(Failure::ManagementStorage)),
                )
            },
        },
{
    match read_on(stored, id) {
        Ok(Some(admission)) => Ok(admission),
        Ok(None) => Err(
            Refusal::Plan { reason: PlanFailureReason::StalePlan, device: None, stage },
        ),
        Err(error) => Err(Refusal::Request(error)),
    }
}

/// The kinds of intents, in the order in which they are frozen.
#[derive(Clone, Copy, Debug, PartialEq, Eq, Structural)]
pub enum IntentKind {
    Add,
    Supersede,
    Cancel,
    Retain,
}

/// The kind of intents that follows another, where one does.
pub fn next_kind(kind: IntentKind) -> (next: Option<IntentKind>)
    ensures
        next == (match kind {
            IntentKind::Add => Some(IntentKind::Supersede),
            IntentKind::Supersede => Some(IntentKind::Cancel),
            IntentKind::Cancel => Some(IntentKind::Retain),
            IntentKind::Retain => None,
        }),
{
    match kind {
        IntentKind::Add => Some(IntentKind::Supersede),
        IntentKind::Supersede => Some(IntentKind::Cancel),
        IntentKind::Cancel => Some(IntentKind::Retain),
        IntentKind::Retain => None,
    }
}

/// A candidate plan, as far as its freezing depends on it.
#[derive(Debug)]
pub struct Candidate {
    pub expected_revision: u64,
    pub target_count: u64,
    pub plan: Option<[u8; 32]>,
}

/// Whether a candidate plan is frozen: not where its policy applies no
/// configuration, and only while the policy is at the revision that it was
/// computed for and the configuration reaches few enough devices. `policy` is the
/// revision of the policy and whether it applies a configuration, where there is
/// a policy.
pub fn begin_freezing(policy: Option<(u64, bool)>, candidate: &Candidate) -> (frozen: Result<
    bool,
    Refusal,
>)
    ensures
        match policy {
            None => frozen == Err::<bool, Refusal>(Refusal::Request(Error::Conflict)),
            Some((revision, configured)) => if !configured {
                frozen == Ok::<bool, Refusal>(false)
            } else if revision != candidate.expected_revision {
                frozen matches Err(Refusal::Plan { reason, device, stage }) && reason
                    == PlanFailureReason::StalePlan && device is None && stage
                    == PlanStage::Preview
            } else if candidate.target_count > MAX_TARGETS {
                frozen == Err::<bool, Refusal>(Refusal::TargetLimit)
            } else {
                frozen == Ok::<bool, Refusal>(true)
            },
        },
{
    let (revision, configured) = match policy {
        Some(policy) => policy,
        None => return Err(Refusal::Request(Error::Conflict)),
    };
    if !configured {
        return Ok(false);
    }
    if revision != candidate.expected_revision {
        return Err(
            Refusal::Plan {
                reason: PlanFailureReason::StalePlan,
                device: None,
                stage: PlanStage::Preview,
            },
        );
    }
    if candidate.target_count > MAX_TARGETS as u64 {
        return Err(Refusal::TargetLimit);
    }
    Ok(true)
}

/// What an intent is frozen as. The predecessors of a superseding version are not
/// frozen by themselves.
pub open spec fn frozen_intent(intent: CandidateIntent) -> Option<FrozenIntent> {
    match intent {
        CandidateIntent::Desired { device, version, supersedes, previous_versions } => Some(
            if supersedes {
                FrozenIntent::Supersede { device, version, previous_versions }
            } else {
                FrozenIntent::Add { device, version }
            },
        ),
        CandidateIntent::Cancel { execution, reason } => Some(
            FrozenIntent::Cancel { device: execution.device, version: execution.version, reason },
        ),
        CandidateIntent::Retain { execution, reason } => Some(
            FrozenIntent::Retain { device: execution.device, version: execution.version, reason },
        ),
        CandidateIntent::Predecessor { .. } => None,
    }
}

/// Freezes an intent.
pub fn freeze_intent(intent: CandidateIntent) -> (frozen: Result<FrozenIntent, Error>)
    ensures
        frozen == (match frozen_intent(intent) {
            Some(frozen) => Ok::<FrozenIntent, Error>(frozen),
            None => Err(Error::Unavailable(Failure::ManagementStorage)),
        }),
{
    match intent {
        CandidateIntent::Desired { device, version, supersedes, previous_versions } => Ok(
            if supersedes {
                FrozenIntent::Supersede { device, version, previous_versions }
            } else {
                FrozenIntent::Add { device, version }
            },
        ),
        CandidateIntent::Cancel { execution, reason } => Ok(
            FrozenIntent::Cancel { device: execution.device, version: execution.version, reason },
        ),
        CandidateIntent::Retain { execution, reason } => Ok(
            FrozenIntent::Retain { device: execution.device, version: execution.version, reason },
        ),
        CandidateIntent::Predecessor { .. } => Err(Error::Unavailable(Failure::ManagementStorage)),
    }
}

/// Freezes a page of intents behind those that were frozen before.
pub fn add_intents(intents: &mut Vec<FrozenIntent>, rows: Vec<CandidateIntent>) -> (added: Result<
    (),
    Refusal,
>)
    requires
        old(intents)@.len() <= MAX_EXECUTIONS,
    ensures
        old(intents)@.len() <= final(intents)@.len() <= MAX_EXECUTIONS,
        final(intents)@.take(old(intents)@.len() as int) == old(intents)@,
        match added {
            Ok(_) => {
                &&& final(intents)@.len() == old(intents)@.len() + rows@.len()
                &&& forall|i: int|
                    0 <= i < rows@.len() ==> frozen_intent(#[trigger] rows@[i]) == Some(
                        final(intents)@[old(intents)@.len() + i],
                    )
            },
            Err(Refusal::TargetLimit) => {
                &&& old(intents)@.len() + rows@.len() > MAX_EXECUTIONS
                &&& final(intents)@ == old(intents)@
            },
            Err(refusal) => {
                &&& old(intents)@.len() + rows@.len() <= MAX_EXECUTIONS
                &&& refusal == Refusal::Request(Error::Unavailable(Failure::ManagementStorage))
                &&& exists|i: int|
                    0 <= i < rows@.len() && frozen_intent(#[trigger] rows@[i]) is None
            },
        },
{
    if rows.len() > MAX_EXECUTIONS - intents.len() {
        return Err(Refusal::TargetLimit);
    }
    let ghost before = intents@;
    let ghost all = rows@;
    for row in it: rows
        invariant
            it.seq() == all,
            before.len() + all.len() <= MAX_EXECUTIONS,
            before == old(intents)@,
            intents@.len() == before.len() + it.index(),
            intents@.take(before.len() as int) == before,
            forall|i: int|
                0 <= i < it.index() ==> frozen_intent(#[trigger] all[i]) == Some(
                    intents@[before.len() + i],
                ),
    {
        let ghost n = it.index();
        assert(row == all[n]);
        match freeze_intent(row) {
            Ok(frozen) => {
                let ghost held = intents@;
                intents.push(frozen);
                assert(intents@.take(before.len() as int) =~= held.take(before.len() as int));
            },
            Err(error) => {
                assert(frozen_intent(all[n]) is None);
                return Err(Refusal::Request(error));
            },
        }
    }
    Ok(())
}

/// Whether `frozen` is a plan as it was computed. It is not handed on yet, and
/// work is only scheduled from it where its policy is active.
pub open spec fn is_plan(
    frozen: PlanExecutionAdmission,
    task: Id,
    policy: String,
    status: Status,
    plan: Seq<u8>,
    devices: Vec<String>,
    configuration: Option<Frozen>,
    intents: Vec<FrozenIntent>,
) -> bool {
    &&& frozen.id == task
    &&& frozen.policy == policy
    &&& frozen.devices == devices
    &&& frozen.configuration == configuration
    &&& frozen.plan.id@ == hex_of(plan)
    &&& frozen.plan.scheduling_open == (status == Status::Active)
    &&& frozen.plan.intents == intents
    &&& frozen.plan.dispatch == Dispatch::NotRequested
}

/// Freezes a plan.
pub fn freeze_execution(
    task: Id,
    policy: String,
    status: Status,
    candidate: &Candidate,
    devices: Vec<String>,
    configuration: Option<Frozen>,
    intents: Vec<FrozenIntent>,
) -> (frozen: Result<PlanExecutionAdmission, Error>)
    ensures
        match candidate.plan {
            None => frozen == Err::<PlanExecutionAdmission, Error>(Error::Conflict),
            Some(plan) => frozen matches Ok(frozen) && is_plan(
                frozen,
                task,
                policy,
                status,
                plan@,
                devices,
                configuration,
                intents,
            ),
        },
{
    let plan = match &candidate.plan {
        Some(plan) => plan,
        None => return Err(Error::Conflict),
    };
    Ok(
        PlanExecutionAdmission {
            id: task,
            policy,
            devices,
            configuration,
            plan: FrozenPlan {
                id: hex(plan.as_slice()),
                scheduling_open: status == Status::Active,
                intents,
                dispatch: Dispatch::NotRequested,
            },
        },
    )
}

/// A plan that is frozen for few enough devices, with few enough intents, is
/// accepted when it is read under the identifier of the task that froze it.
pub proof fn frozen_plan_reads_back(
    frozen: PlanExecutionAdmission,
    task: Id,
    policy: String,
    status: Status,
    plan: Seq<u8>,
    devices: Vec<String>,
    configuration: Option<Frozen>,
    intents: Vec<FrozenIntent>,
)
    requires
        is_plan(frozen, task, policy, status, plan, devices, configuration, intents),
        devices@.len() <= MAX_TARGETS,
        intents@.len() <= MAX_EXECUTIONS,
    ensures
        is_bounded(frozen, task),
{
}

/// What is known of a device now and was known when its plan was computed.
#[derive(Debug)]
pub struct Recheck {
    pub device: String,
    pub expected: Evidence,
    pub rows: Vec<Evidence>,
}

/// Whether what is known of a device has not changed.
pub open spec fn still_holds(recheck: Recheck) -> bool {
    recheck.rows@.len() == 1 && recheck.rows@[0].known() == recheck.expected.known()
}

/// Whether a plan is refused on the device at `i`, the first of which something
/// else is known by now.
pub open spec fn outdated_at(rechecks: Seq<Recheck>, i: int, refusal: Refusal) -> bool {
    &&& 0 <= i < rechecks.len()
    &&& forall|j: int| 0 <= j < i ==> still_holds(#[trigger] rechecks[j])
    &&& !still_holds(rechecks[i])
    &&& refuses_device(
        refusal,
        if rechecks[i].rows@.len() != 1 {
            PlanFailureReason::CapabilityUnknown
        } else {
            PlanFailureReason::StalePlan
        },
        rechecks[i].device@,
        PlanStage::Save,
    )
}

/// Accepts a plan that is about to be saved, where there is one that is bounded:
/// what it was computed from still stands, and the same is known of each of its
/// devices.
pub fn validate_execution_save(current: Option<bool>, rechecks: &Vec<Recheck>) -> (valid: Result<
    (),
    Refusal,
>)
    ensures
        match current {
            None => valid is Ok,
            Some(false) => valid matches Err(Refusal::Plan { reason, device, stage }) && reason
                == PlanFailureReason::StalePlan && device is None && stage == PlanStage::Save,
            Some(true) => match valid {
                Ok(_) => forall|i: int|
                    0 <= i < rechecks@.len() ==> still_holds(#[trigger] rechecks@[i]),
                Err(refusal) => exists|i: int| #[trigger] outdated_at(rechecks@, i, refusal),
            },
        },
{
    match current {
        None => return Ok(()),
        Some(false) => return Err(
            Refusal::Plan {
                reason: PlanFailureReason::StalePlan,
                device: None,
                stage: PlanStage::Save,
            },
        ),
        Some(true) => {},
    }
    let mut i: usize = 0;
    while i < rechecks.len()
        invariant
            current == Some(true),
            i <= rechecks@.len(),
            forall|j: int| 0 <= j < i ==> still_holds(#[trigger] rechecks@[j]),
        decreases rechecks@.len() - i,
    {
        let recheck = &rechecks[i];
        match evidence(&recheck.rows, recheck.device.as_str(), PlanStage::Save) {
            Ok(found) => {
                if !found.agrees(&recheck.expected) {
                    let refusal = at(
                        PlanFailureReason::StalePlan,
                        recheck.device.as_str(),
                        PlanStage::Save,
                    );
                    assert(outdated_at(rechecks@, i as int, refusal));
                    return Err(refusal);
                }
            },
            Err(refusal) => {
                assert(outdated_at(rechecks@, i as int, refusal));
                return Err(refusal);
            },
        }
        i += 1;
    }
    Ok(())
}

/// An intent is frozen as what it is: what is wanted anew is added, what is wanted in the
/// place of other versions supersedes those very versions, and what is cancelled or
/// retained is so for the same reason, each on its own device and of its own version.
pub proof fn intents_are_frozen_as_what_they_are(intent: CandidateIntent)
    ensures
        frozen_intent(intent) is None <==> intent is Predecessor,
        frozen_intent(intent) matches Some(FrozenIntent::Add { device, version }) ==> (
        intent matches CandidateIntent::Desired { device: d, version: v, supersedes, .. } && d
            == device && v == version && !supersedes),
        frozen_intent(intent) matches Some(
            FrozenIntent::Supersede { device, version, previous_versions },
        ) ==> (intent matches CandidateIntent::Desired {
            device: d,
            version: v,
            supersedes,
            previous_versions: p,
        } && d == device && v == version && supersedes && p == previous_versions),
        frozen_intent(intent) matches Some(FrozenIntent::Cancel { device, version, reason }) ==> (
        intent matches CandidateIntent::Cancel { execution, reason: r } && execution.device
            == device && execution.version == version && r == reason),
        frozen_intent(intent) matches Some(FrozenIntent::Retain { device, version, reason }) ==> (
        intent matches CandidateIntent::Retain { execution, reason: r } && execution.device
            == device && execution.version == version && r == reason),
        intent is Cancel ==> (frozen_intent(intent) matches Some(frozen) && frozen is Cancel),
        intent is Retain ==> (frozen_intent(intent) matches Some(frozen) && frozen is Retain),
{
}

/// A plan is frozen as it was computed, for its policy and for the devices that it
/// reaches; work is scheduled from it exactly where the policy is active, and none is
/// handed on by freezing it. What is read under an identifier is a plan of that
/// identifier, for few enough devices and with few enough intents.
pub proof fn plans_are_frozen_as_they_were_computed(
    frozen: PlanExecutionAdmission,
    task: Id,
    policy: String,
    status: Status,
    plan: Seq<u8>,
    devices: Vec<String>,
    configuration: Option<Frozen>,
    intents: Vec<FrozenIntent>,
    id: Id,
)
    requires
        is_plan(frozen, task, policy, status, plan, devices, configuration, intents),
    ensures
        frozen.id == task,
        frozen.policy == policy,
        frozen.devices == devices,
        frozen.configuration == configuration,
        frozen.plan.intents == intents,
        frozen.plan.id@ == hex_of(plan),
        frozen.plan.scheduling_open <==> status == Status::Active,
        frozen.plan.dispatch == Dispatch::NotRequested,
        is_bounded(frozen, id) <==> id == task && devices@.len() <= MAX_TARGETS && intents@.len()
            <= MAX_EXECUTIONS,
{
}

/// A plan is saved only where the same is known of a device as when it was computed: of
/// one registration, and of it the same generation, operating system and edition. One
/// that cannot be saved names the first device of which something else is known, and
/// says whether too little or something else is.
pub proof fn plans_are_saved_on_what_they_were_computed_from(
    recheck: Recheck,
    rechecks: Seq<Recheck>,
    i: int,
    refusal: Refusal,
)
    ensures
        still_holds(recheck) <==> {
            &&& recheck.rows@.len() == 1
            &&& recheck.rows@[0].registration == recheck.expected.registration
            &&& recheck.rows@[0].generation == recheck.expected.generation
            &&& recheck.rows@[0].os_version@ == recheck.expected.os_version@
            &&& recheck.rows@[0].edition == recheck.expected.edition
        },
        outdated_at(rechecks, i, refusal) ==> {
            &&& 0 <= i < rechecks.len() && !still_holds(rechecks[i])
            &&& forall|j: int| 0 <= j < i ==> still_holds(#[trigger] rechecks[j])
            &&& refusal matches Refusal::Plan { reason, device: Some(device), stage } && device@
                == rechecks[i].device@ && stage == PlanStage::Save && (reason
                == PlanFailureReason::CapabilityUnknown <==> rechecks[i].rows@.len() != 1) && (
            reason == PlanFailureReason::StalePlan <==> rechecks[i].rows@.len() == 1)
        },
{
}

} // verus!
