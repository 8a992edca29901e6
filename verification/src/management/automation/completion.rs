//! What becomes of durable work when it is over.
use crate::id::Id;
use crate::management::automation::jobs::{entity, entity_of, Entity};
use crate::management::automation::runtime::ErrorKind;
use crate::text::same;
use vstd::prelude::*;

verus! {

/// How an attempt at durable work is completed.
#[derive(Clone, Copy, Debug, PartialEq, Eq, Structural)]
pub enum Completion {
    /// There is nothing left to do.
    Converged,
    /// It is tried again.
    Retry,
    /// It is given up after so many failures.
    Suspended { failures: u32 },
}

/// What is written down together with the completion of durable work.
#[derive(Clone, Copy, Debug, PartialEq, Eq, Structural)]
pub enum Record {
    /// Nothing.
    Nothing,
    /// The job failed, being suspended.
    FailJob(Id),
    /// The changes of assets are dispatched again.
    ClearIngress,
    /// The changes of assets are not dispatched any more.
    FailIngress,
}

/// The reason for which a suspended job fails.
pub fn suspended() -> (reason: &'static str)
    ensures
        reason@ == "automation_suspended"@,
{
    "automation_suspended"
}

/// What is written down together with the completion of durable work: that it was
/// given up, whatever it was; and that the changes of assets are all dispatched.
pub open spec fn record_of(completion: Completion, name: Seq<char>) -> Result<Record, ErrorKind> {
    let entity = entity_of(name);
    if completion is Suspended {
        match entity {
            Some(Entity::Job(id)) => Ok(Record::FailJob(id)),
            Some(Entity::Changes) => Ok(Record::FailIngress),
            None => Err(ErrorKind::Invariant),
        }
    } else if completion is Converged && name == "changes"@ {
        Ok(Record::ClearIngress)
    } else {
        Ok(Record::Nothing)
    }
}

/// What is written down together with the completion of durable work.
pub fn finish(completion: Completion, name: &str) -> (record: Result<Record, ErrorKind>)
    ensures
        record == record_of(completion, name@),
{
    match completion {
        Completion::Suspended { .. } => match entity(name) {
            Some(Entity::Job(id)) => Ok(Record::FailJob(id)),
            Some(Entity::Changes) => Ok(Record::FailIngress),
            None => Err(ErrorKind::Invariant),
        },
        Completion::Converged => if same(name, "changes") {
            Ok(Record::ClearIngress)
        } else {
            Ok(Record::Nothing)
        },
        Completion::Retry => Ok(Record::Nothing),
    }
}

/// Durable work that is given up is never given up silently.
pub proof fn suspension_is_recorded(completion: Completion, name: Seq<char>)
    requires
        completion is Suspended,
    ensures
        record_of(completion, name) matches Ok(record) ==> record is FailJob
            || record is FailIngress,
        entity_of(name) is Some ==> record_of(completion, name) is Ok,
{
}

/// Whether the failure to dispatch the changes of assets is recorded: once, when
/// it begins.
pub fn ingress_is_recorded(changed: u64) -> (recorded: bool)
    ensures
        recorded == (changed > 0),
{
    changed > 0
}

/// Whether the changes of assets are dispatched, as far as that could be read.
pub fn ingress_ready(read: Option<bool>) -> (ready: bool)
    ensures
        ready == (read == Some(true)),
{
    match read {
        Some(ready) => ready,
        None => false,
    }
}

/// What is written down is of the work that was completed: that very job fails where it
/// was given up, the changes stop being dispatched where they were, they are
/// dispatched again exactly once they are all dispatched, and nothing is written
/// down of work that is tried again.
pub proof fn completions_are_recorded_of_their_own_work(completion: Completion, name: Seq<char>)
    ensures
        forall|id: Id| #[trigger]
            record_of(completion, name) == Ok::<Record, ErrorKind>(Record::FailJob(id))
                <==> completion is Suspended && entity_of(name) == Some(Entity::Job(id)),
        record_of(completion, name) == Ok::<Record, ErrorKind>(Record::FailIngress)
            <==> completion is Suspended && entity_of(name) == Some(Entity::Changes),
        record_of(completion, name) == Ok::<Record, ErrorKind>(Record::ClearIngress)
            <==> completion is Converged && name == "changes"@,
        completion is Retry ==> record_of(completion, name) == Ok::<Record, ErrorKind>(
            Record::Nothing,
        ),
        record_of(completion, name) == Err::<Record, ErrorKind>(ErrorKind::Invariant)
            <==> completion is Suspended && entity_of(name) is None,
{
}

} // verus!
