//! How durable work is observed, carried out and answered for.
use crate::error::{Error, Failure};
use crate::id::Id;
use crate::management::automation::jobs::{entity, entity_of, Entity, Job};
use crate::management::automation::model::JobInput;
use crate::management::request::Settlement;
use vstd::prelude::*;

verus! {

/// How a failed attempt is treated: as fenced off by another, as unknown, as
/// worth another try, or as a broken invariant.
#[derive(Clone, Copy, Debug, PartialEq, Eq, Structural)]
pub enum ErrorKind {
    CommitUnknown,
    Fenced,
    Transient,
    Invariant,
}

/// How an attempt that failed with an error is treated.
pub open spec fn reconcile_error_of(error: Error) -> ErrorKind {
    match error {
        Error::CommitUnknown => ErrorKind::CommitUnknown,
        Error::Conflict => ErrorKind::Fenced,
        _ => ErrorKind::Transient,
    }
}

/// How an attempt that failed with an error is treated.
pub fn reconcile_error(error: Error) -> (kind: ErrorKind)
    ensures
        kind == reconcile_error_of(error),
{
    match error {
        Error::CommitUnknown => ErrorKind::CommitUnknown,
        Error::Conflict => ErrorKind::Fenced,
        _ => ErrorKind::Transient,
    }
}

/// What a transaction of durable work came to. A rollback is answered with the
/// fault that was met, where one was.
pub open spec fn worked<T>(settlement: Settlement<T>, met: Option<Error>) -> Result<T, Error> {
    match settlement {
        Settlement::Committed(value) => Ok(value),
        Settlement::RolledBack => Err(
            match met {
                Some(error) => error,
                None => Error::Unavailable(Failure::ManagementStorage),
            },
        ),
        Settlement::RollbackUnknown | Settlement::CommitUnknown => Err(Error::CommitUnknown),
        Settlement::NotStarted | Settlement::Abandoned => Err(
            Error::Unavailable(Failure::ManagementStorage),
        ),
    }
}

/// What an observation of durable work came to: whether there is work to do.
pub fn observed(settlement: Settlement<bool>, met: Option<Error>) -> (pending: Result<
    bool,
    ErrorKind,
>)
    ensures
        pending == (match worked(settlement, met) {
            Ok(pending) => Ok::<bool, ErrorKind>(pending),
            Err(error) => Err(reconcile_error_of(error)),
        }),
{
    match settlement {
        Settlement::Committed(pending) => Ok(pending),
        Settlement::RolledBack => match met {
            Some(error) => Err(reconcile_error(error)),
            None => Err(ErrorKind::Transient),
        },
        Settlement::RollbackUnknown | Settlement::CommitUnknown => Err(ErrorKind::CommitUnknown),
        Settlement::NotStarted | Settlement::Abandoned => Err(ErrorKind::Transient),
    }
}

/// What is to be found out of an entity of durable work.
pub fn observe(name: &str) -> (asked: Result<Entity, Error>)
    ensures
        asked == (match entity_of(name@) {
            Some(entity) => Ok::<Entity, Error>(entity),
            None => Err(Error::Malformed),
        }),
{
    match entity(name) {
        Some(entity) => Ok(entity),
        None => Err(Error::Malformed),
    }
}

/// What is done for an entity of durable work.
#[derive(Clone, Copy, Debug, PartialEq, Eq, Structural)]
pub enum Work {
    /// The changes of assets are dispatched.
    Dispatch,
    /// The job is over already.
    Nothing,
    Query(Id),
    Group(Id),
    Scope(Id),
    Policy(Id),
}

/// What is done for an entity of durable work. `job` is the job that the entity
/// denotes, where there is one.
pub open spec fn work_of(entity: Entity, job: Option<Job>) -> Result<Work, Error> {
    match entity {
        Entity::Changes => Ok(Work::Dispatch),
        Entity::Job(id) => match job {
            None => Err(Error::NotFound),
            Some(job) => if job.completed {
                Ok(Work::Nothing)
            } else {
                Ok(
                    match job.input {
                        JobInput::AssetQuery { .. } => Work::Query(id),
                        JobInput::Group { .. } => Work::Group(id),
                        JobInput::Scope { .. } => Work::Scope(id),
                        JobInput::Policy { .. } => Work::Policy(id),
                    },
                )
            },
        },
    }
}

/// What is done for an entity of durable work.
pub fn work(entity: Entity, job: &Option<Job>) -> (work: Result<Work, Error>)
    ensures
        work == work_of(entity, *job),
{
    let id = match entity {
        Entity::Changes => return Ok(Work::Dispatch),
        Entity::Job(id) => id,
    };
    match job {
        None => Err(Error::NotFound),
        Some(job) => {
            if job.completed {
                return Ok(Work::Nothing);
            }
            Ok(
                match &job.input {
                    JobInput::AssetQuery { .. } => Work::Query(id),
                    JobInput::Group { .. } => Work::Group(id),
                    JobInput::Scope { .. } => Work::Scope(id),
                    JobInput::Policy { .. } => Work::Policy(id),
                },
            )
        },
    }
}

/// The reason for which a rejection ends a job, where it does.
pub open spec fn terminal_of(rejection: Error) -> Option<Seq<char>> {
    match rejection {
        Error::Conflict => Some("superseded"@),
        Error::Unavailable(failure) => if failure == Failure::AssetObjectLimit || failure
            == Failure::AssetBytesLimit {
            Some("capacity_exceeded"@)
        } else {
            None
        },
        Error::ManagementNotFound(_) | Error::NotFound => Some("source_unavailable"@),
        Error::Malformed => Some("invalid_input"@),
        _ => None,
    }
}

/// The reason for which a rejection ends a job, where it does.
pub fn terminal(rejection: Error) -> (reason: Option<&'static str>)
    ensures
        match reason {
            Some(reason) => terminal_of(rejection) == Some(reason@),
            None => terminal_of(rejection) is None,
        },
{
    match rejection {
        Error::Conflict => Some("superseded"),
        Error::Unavailable(Failure::AssetObjectLimit) => Some("capacity_exceeded"),
        Error::Unavailable(Failure::AssetBytesLimit) => Some("capacity_exceeded"),
        Error::ManagementNotFound(_) | Error::NotFound => Some("source_unavailable"),
        Error::Malformed => Some("invalid_input"),
        _ => None,
    }
}

/// What follows an attempt at durable work.
#[derive(Debug)]
pub enum Follow {
    /// The attempt did its part.
    Done,
    /// The attempt is treated as failed.
    Fail(ErrorKind),
    /// The job ends for a reason. One that was superseded may have to be started
    /// anew.
    End { id: Id, reason: &'static str, restart: bool },
}

/// Whether `follow` is what follows an attempt. Only a rollback that was
/// acknowledged may end a job: what is unknown is tried again under the same
/// identity.
pub open spec fn follows(
    follow: Follow,
    name: Seq<char>,
    settlement: Settlement<()>,
    met: Option<Error>,
) -> bool {
    match settlement {
        Settlement::Committed(_) => follow is Done,
        Settlement::RolledBack => match met {
            None => follow == Follow::Fail(ErrorKind::Transient),
            Some(error) => match terminal_of(error) {
                None => follow == Follow::Fail(reconcile_error_of(error)),
                Some(reason) => match entity_of(name) {
                    Some(Entity::Job(job)) => follow matches Follow::End {
                        id,
                        reason: named,
                        restart,
                    } && id == job && named@ == reason && restart == (error == Error::Conflict),
                    _ => follow == Follow::Fail(ErrorKind::Transient),
                },
            },
        },
        Settlement::RollbackUnknown | Settlement::CommitUnknown => follow == Follow::Fail(
            ErrorKind::CommitUnknown,
        ),
        Settlement::NotStarted | Settlement::Abandoned => follow == Follow::Fail(
            ErrorKind::Transient,
        ),
    }
}

/// What follows an attempt at the durable work that `name` denotes. `met` is the
/// fault that the attempt met, where it met one.
pub fn apply(name: &str, settlement: Settlement<()>, met: Option<Error>) -> (follow: Follow)
    ensures
        follows(follow, name@, settlement, met),
{
    match settlement {
        Settlement::Committed(_) => return Follow::Done,
        Settlement::RollbackUnknown | Settlement::CommitUnknown => {
            return Follow::Fail(ErrorKind::CommitUnknown);
        },
        Settlement::NotStarted | Settlement::Abandoned => {
            return Follow::Fail(ErrorKind::Transient);
        },
        Settlement::RolledBack => {},
    }
    let error = match met {
        Some(error) => error,
        None => return Follow::Fail(ErrorKind::Transient),
    };
    let reason = match terminal(error) {
        Some(reason) => reason,
        None => return Follow::Fail(reconcile_error(error)),
    };
    let restart = match error {
        Error::Conflict => true,
        _ => false,
    };
    match entity(name) {
        Some(Entity::Job(id)) => Follow::End { id, reason, restart },
        _ => Follow::Fail(ErrorKind::Transient),
    }
}

/// What the end of durable work is answered with, once it was written down.
pub fn settle_work(settlement: Settlement<()>) -> (answer: Result<(), ErrorKind>)
    ensures
        answer is Ok <==> settlement is Committed,
        answer matches Err(kind) ==> kind == if settlement is RollbackUnknown
            || settlement is CommitUnknown {
            ErrorKind::CommitUnknown
        } else {
            ErrorKind::Transient
        },
{
    match settlement {
        Settlement::Committed(_) => Ok(()),
        Settlement::RollbackUnknown | Settlement::CommitUnknown => Err(ErrorKind::CommitUnknown),
        _ => Err(ErrorKind::Transient),
    }
}

/// A job only ends on a rollback that was acknowledged, so no work that may have
/// been done is recorded as failed.
pub proof fn unknown_work_does_not_end_a_job(
    follow: Follow,
    name: Seq<char>,
    settlement: Settlement<()>,
    met: Option<Error>,
)
    requires
        follows(follow, name, settlement, met),
        follow is End,
    ensures
        settlement is RolledBack,
{
}

/// How many milliseconds the bridge waits before it looks for work again: longer
/// where it failed.
pub fn bridge_delay(failed: bool) -> (milliseconds: u64)
    ensures
        milliseconds == if failed {
            1000u64
        } else {
            50u64
        },
{
    if failed {
        1000
    } else {
        50
    }
}

/// An attempt that did not commit and met no fault of its own, as one whose claim
/// was taken over before it began, is not answered as done and ends no job: the
/// one that holds the claim goes on with it.
pub proof fn lost_claims_end_nothing(follow: Follow, name: Seq<char>, settlement: Settlement<()>)
    requires
        follows(follow, name, settlement, None),
        !(settlement is Committed),
    ensures
        follow is Fail,
{
}

/// How a failed attempt is treated: an unknown commit as unknown, a conflict as fenced
/// off, and everything else as worth another try.
pub proof fn failed_attempts_are_treated_by_what_failed(error: Error)
    ensures
        reconcile_error_of(error) == ErrorKind::CommitUnknown <==> error == Error::CommitUnknown,
        reconcile_error_of(error) == ErrorKind::Fenced <==> error == Error::Conflict,
        reconcile_error_of(error) == ErrorKind::Transient <==> error != Error::CommitUnknown
            && error != Error::Conflict,
{
}

/// What a transaction came to: its value exactly where it was committed, the fault that
/// it met where it was rolled back, and unknown exactly where it is not known.
pub proof fn work_counts_only_once_committed<T>(settlement: Settlement<T>, met: Option<Error>)
    ensures
        worked(settlement, met) is Ok <==> settlement is Committed,
        settlement matches Settlement::Committed(value) ==> worked(settlement, met) == Ok::<
            T,
            Error,
        >(value),
        settlement is RolledBack && met is Some ==> worked(settlement, met) == Err::<T, Error>(
            met->Some_0,
        ),
        settlement is RollbackUnknown || settlement is CommitUnknown ==> worked(settlement, met)
            == Err::<T, Error>(Error::CommitUnknown),
        settlement is NotStarted || settlement is Abandoned || (settlement is RolledBack
            && met is None) ==> worked(settlement, met) == Err::<T, Error>(
            Error::Unavailable(Failure::ManagementStorage),
        ),
{
}

/// What is done for an entity is the work of its own kind and under its own identity,
/// and nothing once the job is over. A job that is not there is an error.
pub proof fn work_is_of_the_kind_of_its_job(entity: Entity, job: Option<Job>)
    ensures
        work_of(entity, job) == Ok::<Work, Error>(Work::Dispatch) <==> entity is Changes,
        entity matches Entity::Job(id) ==> {
            &&& work_of(entity, job) == Err::<Work, Error>(Error::NotFound) <==> job is None
            &&& job matches Some(job) ==> {
                &&& work_of(entity, Some(job)) == Ok::<Work, Error>(Work::Nothing)
                    <==> job.completed
                &&& work_of(entity, Some(job)) == Ok::<Work, Error>(Work::Query(id))
                    <==> !job.completed && job.input is AssetQuery
                &&& work_of(entity, Some(job)) == Ok::<Work, Error>(Work::Group(id))
                    <==> !job.completed && job.input is Group
                &&& work_of(entity, Some(job)) == Ok::<Work, Error>(Work::Scope(id))
                    <==> !job.completed && job.input is Scope
                &&& work_of(entity, Some(job)) == Ok::<Work, Error>(Work::Policy(id))
                    <==> !job.completed && job.input is Policy
            }
        },
{
}

/// Why a job ends: superseded by a conflict, for want of capacity where there are too
/// many devices or bytes, for want of its source where something is missing, and for
/// its input where that is malformed. Nothing else ends a job.
pub proof fn jobs_end_for_what_cannot_be_mended(rejection: Error)
    ensures
        terminal_of(rejection) == Some("superseded"@) <==> rejection == Error::Conflict,
        terminal_of(rejection) == Some("capacity_exceeded"@) <==> rejection == Error::Unavailable(
            Failure::AssetObjectLimit,
        ) || rejection == Error::Unavailable(Failure::AssetBytesLimit),
        terminal_of(rejection) == Some("source_unavailable"@) <==> rejection == Error::NotFound
            || rejection is ManagementNotFound,
        terminal_of(rejection) == Some("invalid_input"@) <==> rejection == Error::Malformed,
        terminal_of(rejection) is None <==> !(rejection == Error::Conflict || rejection
            == Error::Unavailable(Failure::AssetObjectLimit) || rejection == Error::Unavailable(
            Failure::AssetBytesLimit,
        ) || rejection == Error::NotFound || rejection is ManagementNotFound || rejection
            == Error::Malformed),
{
    reveal_strlit("superseded");
    reveal_strlit("capacity_exceeded");
    reveal_strlit("source_unavailable");
    reveal_strlit("invalid_input");
    assert("superseded"@.len() == 10 && "capacity_exceeded"@.len() == 17);
    assert("source_unavailable"@.len() == 18 && "invalid_input"@.len() == 13);
}

/// What follows an attempt: it is done exactly where it was committed; it ends its job,
/// that very job and for that very reason, exactly where it was rolled back for what
/// cannot be mended; a job is started anew only where it was superseded; and what is
/// not known is treated as unknown.
pub proof fn attempts_are_followed_by_what_they_came_to(
    follow: Follow,
    name: Seq<char>,
    settlement: Settlement<()>,
    met: Option<Error>,
)
    requires
        follows(follow, name, settlement, met),
    ensures
        follow is Done <==> settlement is Committed,
        follow is End <==> settlement is RolledBack && (met matches Some(error) && terminal_of(
            error,
        ) is Some) && (entity_of(name) matches Some(entity) && entity is Job),
        follow matches Follow::End { id, reason, restart } ==> {
            &&& entity_of(name) == Some(Entity::Job(id))
            &&& met matches Some(error) && terminal_of(error) == Some(reason@) && (restart
                <==> error == Error::Conflict)
        },
        follow == Follow::Fail(ErrorKind::CommitUnknown) <==> settlement is RollbackUnknown
            || settlement is CommitUnknown || (settlement is RolledBack && met == Some(
            Error::CommitUnknown,
        )),
{
}

} // verus!
