//! How a request is carried out: once, under authority at both ends, recorded,
//! and answered by what became of its transaction.
use crate::error::{Error, Failure};
use crate::id::Id;
use crate::management::model::Missing;
use crate::text::same;
use vstd::prelude::*;

verus! {

/// A value that a request brought and that was not accepted.
pub fn input<T, E>(value: Result<T, E>) -> (admitted: Result<T, Error>)
    ensures
        admitted == (match value {
            Ok(value) => Ok::<T, Error>(value),
            Err(_) => Err(Error::Malformed),
        }),
{
    match value {
        Ok(value) => Ok(value),
        Err(_) => Err(Error::Malformed),
    }
}

/// A stored value that could not be read.
pub fn stored<T, E>(value: Result<T, E>) -> (admitted: Result<T, Error>)
    ensures
        admitted == (match value {
            Ok(value) => Ok::<T, Error>(value),
            Err(_) => Err(Error::Unavailable(Failure::ManagementStorage)),
        }),
{
    match value {
        Ok(value) => Ok(value),
        Err(_) => Err(Error::Unavailable(Failure::ManagementStorage)),
    }
}

/// A step that a component rejected.
pub fn checked<T, E>(value: Result<T, E>) -> (admitted: Result<T, Error>)
    ensures
        admitted == (match value {
            Ok(value) => Ok::<T, Error>(value),
            Err(_) => Err(Error::Conflict),
        }),
{
    match value {
        Ok(value) => Ok(value),
        Err(_) => Err(Error::Conflict),
    }
}

/// Why the group store rejected a step.
#[derive(Clone, Copy, Debug, PartialEq, Eq, Structural)]
pub enum GroupRejection {
    NotFound,
    Deleted,
    CapacityExceeded,
    PageBudgetExceeded,
    InvalidInput,
    Other,
}

/// What a rejection of the group store is answered with.
pub open spec fn group_refusal(rejection: GroupRejection) -> Error {
    match rejection {
        GroupRejection::NotFound | GroupRejection::Deleted => Error::ManagementNotFound(
            Missing::Group,
        ),
        GroupRejection::CapacityExceeded => Error::Unavailable(Failure::AssetObjectLimit),
        GroupRejection::PageBudgetExceeded => Error::Unavailable(Failure::AssetBytesLimit),
        GroupRejection::InvalidInput => Error::Malformed,
        GroupRejection::Other => Error::Conflict,
    }
}

/// A step that the group store may have rejected.
pub fn group_checked<T>(value: Result<T, GroupRejection>) -> (admitted: Result<T, Error>)
    ensures
        admitted == (match value {
            Ok(value) => Ok::<T, Error>(value),
            Err(rejection) => Err(group_refusal(rejection)),
        }),
{
    match value {
        Ok(value) => Ok(value),
        Err(rejection) => Err(
            match rejection {
                GroupRejection::NotFound | GroupRejection::Deleted => Error::ManagementNotFound(
                    Missing::Group,
                ),
                GroupRejection::CapacityExceeded => Error::Unavailable(Failure::AssetObjectLimit),
                GroupRejection::PageBudgetExceeded => Error::Unavailable(Failure::AssetBytesLimit),
                GroupRejection::InvalidInput => Error::Malformed,
                GroupRejection::Other => Error::Conflict,
            },
        ),
    }
}

/// What went wrong inside a transaction: the request was refused, the store
/// failed, or the database did, with its code where it gave one.
#[derive(Debug)]
pub enum Fault {
    Request(Error),
    Storage,
    Sql(Option<String>),
}

/// Whether a database code means that another transaction got in the way.
pub open spec fn is_contention(code: Option<String>) -> bool {
    code matches Some(code) && (code@ == "40001"@ || code@ == "40P01"@)
}

/// What a fault is answered with.
pub open spec fn reason_of(fault: Fault) -> Error {
    match fault {
        Fault::Request(error) => error,
        Fault::Storage => Error::Unavailable(Failure::ManagementStorage),
        Fault::Sql(code) => if is_contention(code) {
            Error::Conflict
        } else {
            Error::Unavailable(Failure::Runtime)
        },
    }
}

/// What a fault is answered with.
pub fn reason(fault: &Fault) -> (error: Error)
    ensures
        error == reason_of(*fault),
{
    match fault {
        Fault::Request(error) => *error,
        Fault::Storage => Error::Unavailable(Failure::ManagementStorage),
        Fault::Sql(Some(code)) => if same(code.as_str(), "40001") || same(code.as_str(), "40P01") {
            Error::Conflict
        } else {
            Error::Unavailable(Failure::Runtime)
        },
        Fault::Sql(None) => Error::Unavailable(Failure::Runtime),
    }
}

/// What became of a transaction.
#[derive(Debug)]
pub enum Settlement<T> {
    /// It committed, and the commit was acknowledged.
    Committed(T),
    /// It never began.
    NotStarted,
    /// It was rolled back, and the rollback was acknowledged.
    RolledBack,
    /// It is not known whether it was rolled back.
    RollbackUnknown,
    /// It is not known whether it committed.
    CommitUnknown,
    /// It was given up without a word from the database.
    Abandoned,
}

/// The answer to a request whose transaction came to its end. A rollback is
/// answered with the fault that was met, where one was.
pub open spec fn settled<T>(settlement: Settlement<T>, met: Option<Error>) -> Result<T, Error> {
    match settlement {
        Settlement::Committed(value) => Ok(value),
        Settlement::RolledBack => Err(
            match met {
                Some(error) => error,
                None => Error::Unavailable(Failure::Runtime),
            },
        ),
        Settlement::RollbackUnknown | Settlement::CommitUnknown => Err(Error::CommitUnknown),
        Settlement::NotStarted | Settlement::Abandoned => Err(
            Error::Unavailable(Failure::Runtime),
        ),
    }
}

/// The answer to a request whose transaction came to its end.
pub fn settle<T>(settlement: Settlement<T>, met: Option<Error>) -> (answer: Result<T, Error>)
    ensures
        answer == settled(settlement, met),
{
    match settlement {
        Settlement::Committed(value) => Ok(value),
        Settlement::RolledBack => Err(
            match met {
                Some(error) => error,
                None => Error::Unavailable(Failure::Runtime),
            },
        ),
        Settlement::RollbackUnknown | Settlement::CommitUnknown => Err(Error::CommitUnknown),
        Settlement::NotStarted | Settlement::Abandoned => Err(
            Error::Unavailable(Failure::Runtime),
        ),
    }
}

/// The outcome of a transaction of the server's own, which records no fault.
pub open spec fn settled_internally<T>(settlement: Settlement<T>, failure: Failure) -> Result<
    T,
    Error,
> {
    match settlement {
        Settlement::Committed(value) => Ok(value),
        Settlement::RollbackUnknown | Settlement::CommitUnknown => Err(Error::CommitUnknown),
        _ => Err(Error::Unavailable(failure)),
    }
}

/// The outcome of a transaction of the server's own.
pub fn settle_internally<T>(settlement: Settlement<T>, failure: Failure) -> (answer: Result<
    T,
    Error,
>)
    ensures
        answer == settled_internally(settlement, failure),
{
    match settlement {
        Settlement::Committed(value) => Ok(value),
        Settlement::RollbackUnknown | Settlement::CommitUnknown => Err(Error::CommitUnknown),
        _ => Err(Error::Unavailable(failure)),
    }
}

/// A request is answered with a value only where its transaction committed, and
/// as unknown exactly where it is not known what became of the transaction,
/// unless the request itself met that answer and was rolled back.
pub proof fn answers_follow_the_transaction<T>(settlement: Settlement<T>, met: Option<Error>)
    ensures
        settled(settlement, met) is Ok <==> settlement is Committed,
        met != Some(Error::CommitUnknown) ==> (settled(settlement, met) == Err::<T, Error>(
            Error::CommitUnknown,
        ) <==> settlement is RollbackUnknown || settlement is CommitUnknown),
{
}

/// A request that carries an operation, as it was first answered.
#[derive(Debug)]
pub struct StoredAnswer {
    pub fingerprint: Vec<u8>,
    pub response: String,
}

/// Whether two byte strings are equal.
pub fn same_bytes(a: &Vec<u8>, b: &Vec<u8>) -> (equal: bool)
    ensures
        equal == (a@ == b@),
{
    if a.len() != b.len() {
        return false;
    }
    let mut i: usize = 0;
    while i < a.len()
        invariant
            a@.len() == b@.len(),
            i <= a@.len(),
            forall|j: int| 0 <= j < i ==> #[trigger] a@[j] == b@[j],
        decreases a@.len() - i,
    {
        if a[i] != b[i] {
            assert(a@[i as int] != b@[i as int]);
            return false;
        }
        i += 1;
    }
    assert(a@ =~= b@);
    true
}

/// What an operation that may have been carried out before is answered with: an
/// operation that was is answered as it was then, where it is the same request,
/// and conflicts where it is another one.
pub open spec fn replayed(stored: Option<StoredAnswer>, fingerprint: Seq<u8>) -> Result<
    Option<String>,
    Error,
> {
    match stored {
        None => Ok(None),
        Some(answer) => if answer.fingerprint@ == fingerprint {
            Ok(Some(answer.response))
        } else {
            Err(Error::Conflict)
        },
    }
}

/// What an operation that may have been carried out before is answered with.
pub fn replay(stored: Option<StoredAnswer>, fingerprint: &Vec<u8>) -> (answer: Result<
    Option<String>,
    Error,
>)
    ensures
        answer == replayed(stored, fingerprint@),
{
    match stored {
        None => Ok(None),
        Some(answer) => if same_bytes(&answer.fingerprint, fingerprint) {
            Ok(Some(answer.response))
        } else {
            Err(Error::Conflict)
        },
    }
}

/// An operation is carried out at most once: once an answer is stored for it,
/// the same request is given that answer and any other is refused.
pub proof fn stored_operation_is_not_repeated(answer: StoredAnswer, fingerprint: Seq<u8>)
    ensures
        replayed(Some(answer), answer.fingerprint@) == Ok::<Option<String>, Error>(
            Some(answer.response),
        ),
        fingerprint != answer.fingerprint@ ==> replayed(Some(answer), fingerprint) == Err::<
            Option<String>,
            Error,
        >(Error::Conflict),
        replayed(Some(answer), fingerprint) != Ok::<Option<String>, Error>(None),
{
}

/// A step of carrying out a request inside its transaction.
#[derive(Clone, Copy, Debug, PartialEq, Eq, Structural)]
pub enum Stage {
    Lock,
    Authorize,
    Lookup,
    Clock,
    Dispatch,
    Decode,
    Receipt,
    Audit,
    Confirm,
    Answered,
}

/// How far a request has come, and what has been done for it.
#[derive(Clone, Copy, Debug, PartialEq, Eq, Structural)]
pub struct Progress {
    pub stage: Stage,
    /// The operation that the request carries, where it carries one.
    pub operation: Option<Id>,
    /// Whether its answer has a shape that is verified before it is given.
    pub shaped: bool,
    pub authorized: bool,
    pub replayed: bool,
    pub dispatched: bool,
    pub decoded: bool,
    pub received: bool,
    pub audited: bool,
    pub confirmed: bool,
}

/// What came of a step.
#[derive(Clone, Copy, Debug, PartialEq, Eq, Structural)]
pub enum StepResult {
    Done,
    /// The lookup found an answer of the same request.
    Found,
    Failed(Error),
}

impl Progress {
    /// Where a request that carries `operation` begins.
    pub open spec fn spec_begin(operation: Option<Id>, shaped: bool) -> Progress {
        Progress {
            stage: Stage::Lock,
            operation,
            shaped,
            authorized: false,
            replayed: false,
            dispatched: false,
            decoded: false,
            received: false,
            audited: false,
            confirmed: false,
        }
    }

    /// Where a request that carries `operation` begins.
    pub fn begin(operation: Option<Id>, shaped: bool) -> (progress: Progress)
        ensures
            progress == Progress::spec_begin(operation, shaped),
            progress.well_formed(),
    {
        Progress {
            stage: Stage::Lock,
            operation,
            shaped,
            authorized: false,
            replayed: false,
            dispatched: false,
            decoded: false,
            received: false,
            audited: false,
            confirmed: false,
        }
    }

    /// What has been done by the time a request comes to its step.
    pub open spec fn well_formed(self) -> bool {
        let Progress {
            stage,
            operation,
            shaped,
            authorized,
            replayed,
            dispatched,
            decoded,
            received,
            audited,
            confirmed,
        } = self;
        &&& authorized == !(stage is Lock || stage is Authorize)
        &&& replayed ==> operation is Some && !dispatched && !received
        &&& dispatched == (!replayed && (stage is Decode || stage is Receipt || stage is Audit
            || stage is Confirm || stage is Answered))
        &&& replayed ==> (stage is Decode || stage is Audit || stage is Confirm
            || stage is Answered)
        &&& decoded == (shaped && (stage is Receipt || stage is Audit || stage is Confirm
            || stage is Answered))
        &&& received == (dispatched && operation is Some && (stage is Audit || stage is Confirm
            || stage is Answered))
        &&& audited == (stage is Confirm || stage is Answered)
        &&& confirmed == (stage is Answered)
        &&& stage is Receipt ==> operation is Some && dispatched
    }

    /// What comes after the answer has a shape that was verified or needs none.
    pub open spec fn spec_after_decode(self) -> Progress {
        if self.dispatched && self.operation is Some {
            Progress { stage: Stage::Receipt, decoded: self.shaped, ..self }
        } else {
            Progress { stage: Stage::Audit, decoded: self.shaped, ..self }
        }
    }

    /// The next step of a request whose step came to `result`.
    pub open spec fn follows(self, result: StepResult) -> Result<Progress, Error> {
        match result {
            StepResult::Failed(error) => Err(error),
            StepResult::Found => Ok(
                Progress { stage: Stage::Decode, replayed: true, ..self },
            ),
            StepResult::Done => Ok(
                match self.stage {
                    Stage::Lock => Progress { stage: Stage::Authorize, ..self },
                    Stage::Authorize => Progress {
                        stage: if self.operation is Some { Stage::Lookup } else { Stage::Clock },
                        authorized: true,
                        ..self
                    },
                    Stage::Lookup => Progress { stage: Stage::Clock, ..self },
                    Stage::Clock => Progress { stage: Stage::Dispatch, ..self },
                    Stage::Dispatch => Progress { stage: Stage::Decode, dispatched: true, ..self },
                    Stage::Decode => self.spec_after_decode(),
                    Stage::Receipt => Progress { stage: Stage::Audit, received: true, ..self },
                    Stage::Audit => Progress { stage: Stage::Confirm, audited: true, ..self },
                    Stage::Confirm => Progress { stage: Stage::Answered, confirmed: true, ..self },
                    Stage::Answered => self,
                },
            ),
        }
    }

    /// The next step of a request. Only the lookup of an operation finds an
    /// earlier answer.
    pub fn step(self, result: StepResult) -> (next: Result<Progress, Error>)
        requires
            self.well_formed(),
            result is Found ==> self.stage is Lookup && self.operation is Some,
        ensures
            next == self.follows(result),
            next matches Ok(next) ==> next.well_formed(),
    {
        match result {
            StepResult::Failed(error) => return Err(error),
            StepResult::Found => {
                let mut next = self;
                next.stage = Stage::Decode;
                next.replayed = true;
                return Ok(next);
            },
            StepResult::Done => {},
        }
        let mut next = self;
        match self.stage {
            Stage::Lock => {
                next.stage = Stage::Authorize;
            },
            Stage::Authorize => {
                next.stage = if self.operation.is_some() {
                    Stage::Lookup
                } else {
                    Stage::Clock
                };
                next.authorized = true;
            },
            Stage::Lookup => {
                next.stage = Stage::Clock;
            },
            Stage::Clock => {
                next.stage = Stage::Dispatch;
            },
            Stage::Dispatch => {
                next.stage = Stage::Decode;
                next.dispatched = true;
            },
            Stage::Decode => {
                next.stage = if self.dispatched && self.operation.is_some() {
                    Stage::Receipt
                } else {
                    Stage::Audit
                };
                next.decoded = self.shaped;
            },
            Stage::Receipt => {
                next.stage = Stage::Audit;
                next.received = true;
            },
            Stage::Audit => {
                next.stage = Stage::Confirm;
                next.audited = true;
            },
            Stage::Confirm => {
                next.stage = Stage::Answered;
                next.confirmed = true;
            },
            Stage::Answered => {},
        }
        Ok(next)
    }
}

/// A request that is answered was authorized before anything was done for it
/// and again before its answer was given, was recorded, and was either carried
/// out or given its earlier answer, never both; where it was carried out and
/// carries an operation, its answer is kept.
pub proof fn answered_requests_are_accounted_for(progress: Progress)
    requires
        progress.well_formed(),
        progress.stage is Answered,
    ensures
        progress.authorized && progress.confirmed && progress.audited,
        progress.dispatched != progress.replayed,
        progress.received <==> progress.dispatched && progress.operation is Some,
        progress.shaped ==> progress.decoded,
{
}

/// Nothing is carried out for a request that is not authorized.
pub proof fn unauthorized_requests_do_nothing(progress: Progress)
    requires
        progress.well_formed(),
        !progress.authorized,
    ensures
        !progress.dispatched && !progress.replayed && !progress.received && !progress.audited,
{
}

/// A rejection of the group store is answered as a missing group exactly where the group
/// is not there or no longer, as too much exactly where a limit is met, as malformed
/// exactly where the input is, and as a conflict otherwise.
pub proof fn rejections_of_groups_are_told_apart(rejection: GroupRejection)
    ensures
        group_refusal(rejection) == Error::ManagementNotFound(Missing::Group) <==> rejection
            == GroupRejection::NotFound || rejection == GroupRejection::Deleted,
        group_refusal(rejection) == Error::Unavailable(Failure::AssetObjectLimit) <==> rejection
            == GroupRejection::CapacityExceeded,
        group_refusal(rejection) == Error::Unavailable(Failure::AssetBytesLimit) <==> rejection
            == GroupRejection::PageBudgetExceeded,
        group_refusal(rejection) == Error::Malformed <==> rejection == GroupRejection::InvalidInput,
        group_refusal(rejection) == Error::Conflict <==> rejection == GroupRejection::Other,
{
}

/// A refused request is answered with its own refusal; a failure of the database is a
/// conflict exactly where another transaction got in the way.
pub proof fn faults_are_answered_as_what_they_are(fault: Fault)
    ensures
        fault matches Fault::Request(error) ==> reason_of(fault) == error,
        fault is Storage ==> reason_of(fault) == Error::Unavailable(Failure::ManagementStorage),
        fault matches Fault::Sql(code) ==> {
            &&& reason_of(fault) == Error::Conflict <==> (code matches Some(code) && (code@
                == "40001"@ || code@ == "40P01"@))
            &&& reason_of(fault) != Error::Conflict ==> reason_of(fault) == Error::Unavailable(
                Failure::Runtime,
            )
        },
{
}

/// A committed transaction is answered with the very value that it came to, and one that
/// was rolled back with the very fault that it met; nothing that may have been
/// committed is answered as failed.
pub proof fn answers_are_what_the_transaction_came_to<T>(
    settlement: Settlement<T>,
    met: Option<Error>,
    failure: Failure,
)
    ensures
        settlement matches Settlement::Committed(value) ==> settled(settlement, met) == Ok::<
            T,
            Error,
        >(value) && settled_internally(settlement, failure) == Ok::<T, Error>(value),
        settlement is RolledBack && met is Some ==> settled(settlement, met) == Err::<T, Error>(
            met->Some_0,
        ),
        (settlement is RolledBack && met is None) || settlement is NotStarted
            || settlement is Abandoned ==> settled(settlement, met) == Err::<T, Error>(
            Error::Unavailable(Failure::Runtime),
        ),
        settlement is RollbackUnknown || settlement is CommitUnknown ==> settled(settlement, met)
            == Err::<T, Error>(Error::CommitUnknown) && settled_internally(settlement, failure)
            == Err::<T, Error>(Error::CommitUnknown),
        settlement is RolledBack || settlement is NotStarted || settlement is Abandoned
            ==> settled_internally(settlement, failure) == Err::<T, Error>(
            Error::Unavailable(failure),
        ),
{
}

/// An operation that was not carried out before is carried out.
pub proof fn new_operations_are_carried_out(fingerprint: Seq<u8>)
    ensures
        replayed(None, fingerprint) == Ok::<Option<String>, Error>(None),
{
}

/// The place of a step in the order in which they are taken.
pub open spec fn rank(stage: Stage) -> int {
    match stage {
        Stage::Lock => 0,
        Stage::Authorize => 1,
        Stage::Lookup => 2,
        Stage::Clock => 3,
        Stage::Dispatch => 4,
        Stage::Decode => 5,
        Stage::Receipt => 6,
        Stage::Audit => 7,
        Stage::Confirm => 8,
        Stage::Answered => 9,
    }
}

/// A request goes through its steps in order: one after the other, but for the lookup,
/// which only an operation has, and the receipt, which only an operation has that was
/// carried out. An answer that was found is neither made nor kept again. A step that
/// fails ends the request with its error, and no step changes what the request is.
pub proof fn requests_go_step_by_step(progress: Progress, result: StepResult)
    requires
        progress.well_formed(),
        result is Found ==> progress.stage is Lookup && progress.operation is Some,
    ensures
        result matches StepResult::Failed(error) ==> progress.follows(result) == Err::<
            Progress,
            Error,
        >(error),
        !(result is Failed) ==> progress.follows(result) is Ok,
        progress.follows(result) matches Ok(next) ==> {
            &&& next.operation == progress.operation && next.shaped == progress.shaped
            &&& result is Found ==> next.stage is Decode && next.replayed && !next.dispatched
            &&& result is Done && !(progress.stage is Answered) ==> rank(next.stage) == rank(
                progress.stage,
            ) + if progress.stage is Authorize && progress.operation is None {
                2int
            } else if progress.stage is Decode && !(progress.dispatched
                && progress.operation is Some) {
                2int
            } else {
                1int
            }
            &&& result is Done && progress.stage is Answered ==> next == progress
        },
{
}

/// A request begins with nothing done for it.
pub proof fn requests_begin_with_nothing_done(operation: Option<Id>, shaped: bool)
    ensures
        ({
            let begun = Progress::spec_begin(operation, shaped);
            &&& rank(begun.stage) == 0
            &&& begun.operation == operation && begun.shaped == shaped
            &&& !begun.authorized && !begun.dispatched && !begun.replayed && !begun.received
            &&& !begun.audited && !begun.confirmed && !begun.decoded
        }),
{
}

} // verus!
