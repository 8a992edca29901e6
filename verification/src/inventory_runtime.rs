//! The worker that turns observed reports into inventory.
use crate::encoding::{hex, hex_of};
use crate::error::{Error, Failure};
use crate::text::same;
use vstd::prelude::*;

verus! {

/// Where the observations of a device's source belong: the tenant, the
/// registration, the source and the epoch of the source.
#[derive(Debug)]
pub struct Scope {
    pub tenant: String,
    pub registration: String,
    pub source: String,
    pub epoch: String,
}

impl View for Scope {
    type V = (Seq<char>, Seq<char>, Seq<char>, Seq<char>);

    open spec fn view(&self) -> (Seq<char>, Seq<char>, Seq<char>, Seq<char>) {
        (self.tenant@, self.registration@, self.source@, self.epoch@)
    }
}

impl Scope {
    /// Whether two scopes are one.
    pub fn is(&self, other: &Scope) -> (answer: bool)
        ensures
            answer == (self@ == other@),
    {
        same(self.tenant.as_str(), other.tenant.as_str()) && same(
            self.registration.as_str(),
            other.registration.as_str(),
        ) && same(self.source.as_str(), other.source.as_str()) && same(
            self.epoch.as_str(),
            other.epoch.as_str(),
        )
    }
}

/// What is asked of the observation store.
#[allow(inconsistent_fields)]
#[derive(Debug)]
pub enum Access<'a> {
    ReadJournal { tenant: &'a str },
    Activate { scope: &'a Scope },
    Submit { scope: &'a Scope, coverage: &'a str },
    Read { scope: &'a Scope },
}

/// The authority of the worker over a tenant's journal, until it is cancelled.
#[derive(Debug)]
pub struct JournalAuthority {
    pub tenant: String,
    pub cancelled: bool,
}

impl JournalAuthority {
    /// Whether the authority covers an access: reading the journal of its tenant,
    /// and nothing else.
    pub open spec fn covers(self, request: Access) -> bool {
        !self.cancelled && (request matches Access::ReadJournal { tenant } && tenant@
            == self.tenant@)
    }

    /// Whether the authority covers an access.
    pub fn authorize(&self, request: &Access) -> (granted: bool)
        ensures
            granted == self.covers(*request),
    {
        match request {
            Access::ReadJournal { tenant } => !self.cancelled && same(
                *tenant,
                self.tenant.as_str(),
            ),
            _ => false,
        }
    }
}

/// A report that is to be delivered: where it belongs, and what it covers.
#[derive(Debug)]
pub struct DurableReport {
    pub scope: Scope,
    pub coverage: String,
}

impl DurableReport {
    /// Whether the authority of a report covers an access: activating its scope,
    /// and submitting what it covers.
    pub open spec fn covers(self, request: Access) -> bool {
        match request {
            Access::Activate { scope } => scope@ == self.scope@,
            Access::Submit { scope, coverage } => scope@ == self.scope@ && coverage@
                == self.coverage@,
            _ => false,
        }
    }

    /// Whether the authority of the report covers an access.
    pub fn authorize(&self, request: &Access) -> (granted: bool)
        ensures
            granted == self.covers(*request),
    {
        match request {
            Access::Activate { scope } => (*scope).is(&self.scope),
            Access::Submit { scope, coverage } => (*scope).is(&self.scope) && same(
                *coverage,
                self.coverage.as_str(),
            ),
            _ => false,
        }
    }
}

/// The authority to read one scope.
#[derive(Debug)]
pub struct ReadAuthority<'a> {
    pub scope: &'a Scope,
}

impl<'a> ReadAuthority<'a> {
    /// Whether the authority covers an access: reading its scope, and nothing
    /// else.
    pub open spec fn covers(self, request: Access) -> bool {
        request matches Access::Read { scope } && scope@ == self.scope@
    }

    /// Whether the authority covers an access.
    pub fn authorize(&self, request: &Access) -> (granted: bool)
        ensures
            granted == self.covers(*request),
    {
        match request {
            Access::Read { scope } => (*scope).is(self.scope),
            _ => false,
        }
    }
}

/// No authority stands in for another: what one covers, none of the others does.
pub proof fn authorities_are_independent(
    journal: JournalAuthority,
    report: DurableReport,
    read: ReadAuthority,
    request: Access,
)
    ensures
        journal.covers(request) ==> !report.covers(request) && !read.covers(request),
        report.covers(request) ==> !read.covers(request),
{
}

/// A cancelled worker has no authority.
pub proof fn cancellation_withdraws_authority(journal: JournalAuthority, request: Access)
    requires
        journal.cancelled,
    ensures
        !journal.covers(request),
{
}

/// Where the worker stopped.
#[derive(Clone, Copy, Debug, PartialEq, Eq, Structural)]
pub enum WorkerFailure {
    JournalAuthority,
    ReportAuthority,
    ObservationActivate,
    ObservationReceive,
    DeliveryProgress,
    PendingReports,
    ProjectionInitialize,
    ProjectionTakeover,
    ProjectionCompose,
    ProjectionRun,
}

/// The name of where the worker stopped.
pub open spec fn failure_name(failure: WorkerFailure) -> Seq<char> {
    match failure {
        WorkerFailure::JournalAuthority => "journal_authority"@,
        WorkerFailure::ReportAuthority => "report_authority"@,
        WorkerFailure::ObservationActivate => "observation_activate"@,
        WorkerFailure::ObservationReceive => "observation_receive"@,
        WorkerFailure::DeliveryProgress => "delivery_progress"@,
        WorkerFailure::PendingReports => "pending_reports"@,
        WorkerFailure::ProjectionInitialize => "projection_initialize"@,
        WorkerFailure::ProjectionTakeover => "projection_takeover"@,
        WorkerFailure::ProjectionCompose => "projection_compose"@,
        WorkerFailure::ProjectionRun => "projection_run"@,
    }
}

impl WorkerFailure {
    /// The name of where the worker stopped.
    pub fn phase(self) -> (name: &'static str)
        ensures
            name@ == failure_name(self),
    {
        match self {
            WorkerFailure::JournalAuthority => "journal_authority",
            WorkerFailure::ReportAuthority => "report_authority",
            WorkerFailure::ObservationActivate => "observation_activate",
            WorkerFailure::ObservationReceive => "observation_receive",
            WorkerFailure::DeliveryProgress => "delivery_progress",
            WorkerFailure::PendingReports => "pending_reports",
            WorkerFailure::ProjectionInitialize => "projection_initialize",
            WorkerFailure::ProjectionTakeover => "projection_takeover",
            WorkerFailure::ProjectionCompose => "projection_compose",
            WorkerFailure::ProjectionRun => "projection_run",
        }
    }
}

/// The next step in the delivery of a report.
#[derive(Clone, Copy, Debug, PartialEq, Eq, Structural)]
pub enum Delivery {
    /// The report's scope is activated.
    Activate,
    /// The report is received.
    Receive,
    /// The report is recorded as delivered.
    Record,
    Delivered,
}

/// Begins the delivery of a report of the worker's own tenant.
pub fn begin_delivery(tenant: &str, report: &DurableReport) -> (step: Result<
    Delivery,
    WorkerFailure,
>)
    ensures
        step == (if report.scope.tenant@ == tenant@ {
            Ok::<Delivery, WorkerFailure>(Delivery::Activate)
        } else {
            Err(WorkerFailure::ReportAuthority)
        }),
{
    if same(report.scope.tenant.as_str(), tenant) {
        Ok(Delivery::Activate)
    } else {
        Err(WorkerFailure::ReportAuthority)
    }
}

/// The step that follows one that did its part, or where the worker stops.
pub open spec fn delivery_follows(step: Delivery, done: bool) -> Result<Delivery, WorkerFailure> {
    match step {
        Delivery::Activate => if done {
            Ok(Delivery::Receive)
        } else {
            Err(WorkerFailure::ObservationActivate)
        },
        Delivery::Receive => if done {
            Ok(Delivery::Record)
        } else {
            Err(WorkerFailure::ObservationReceive)
        },
        Delivery::Record => if done {
            Ok(Delivery::Delivered)
        } else {
            Err(WorkerFailure::DeliveryProgress)
        },
        Delivery::Delivered => Ok(Delivery::Delivered),
    }
}

/// The step that follows in the delivery of a report. An acknowledgement that was
/// lost leaves the report undelivered, and it is delivered again.
pub fn deliver(step: Delivery, done: bool) -> (next: Result<Delivery, WorkerFailure>)
    ensures
        next == delivery_follows(step, done),
{
    match step {
        Delivery::Activate => if done {
            Ok(Delivery::Receive)
        } else {
            Err(WorkerFailure::ObservationActivate)
        },
        Delivery::Receive => if done {
            Ok(Delivery::Record)
        } else {
            Err(WorkerFailure::ObservationReceive)
        },
        Delivery::Record => if done {
            Ok(Delivery::Delivered)
        } else {
            Err(WorkerFailure::DeliveryProgress)
        },
        Delivery::Delivered => Ok(Delivery::Delivered),
    }
}

/// A report counts as delivered only once it was received: the delivery comes to
/// its end through every step, each of which did its part.
pub proof fn delivered_reports_were_received(step: Delivery, done: bool)
    ensures
        delivery_follows(step, done) == Ok::<Delivery, WorkerFailure>(Delivery::Delivered) ==> step
            == Delivery::Delivered || (step == Delivery::Record && done),
        delivery_follows(step, done) == Ok::<Delivery, WorkerFailure>(Delivery::Record) ==> step
            == Delivery::Receive && done,
{
}

/// What the worker does with its next report.
#[derive(Clone, Copy, Debug, PartialEq, Eq, Structural)]
pub enum Pass {
    /// The report is delivered.
    Deliver,
    /// The pass has no time left: what was delivered is projected.
    Project,
    /// The worker was cancelled.
    Stop,
}

/// What the worker does with its next report, where there is one.
pub fn next_report(pending: bool, time_left: bool, cancelled: bool) -> (pass: Pass)
    ensures
        pass == (if !pending || !time_left {
            Pass::Project
        } else if cancelled {
            Pass::Stop
        } else {
            Pass::Deliver
        }),
{
    if !pending || !time_left {
        Pass::Project
    } else if cancelled {
        Pass::Stop
    } else {
        Pass::Deliver
    }
}

/// How the worker is said to have ended: a worker that was cancelled did not fail.
pub fn worker_result(result: Result<(), WorkerFailure>, cancelled: bool) -> (answer: Result<
    (),
    WorkerFailure,
>)
    ensures
        answer is Ok <==> cancelled || result is Ok,
        answer matches Err(failure) ==> result == Err::<(), WorkerFailure>(failure),
{
    if cancelled {
        Ok(())
    } else {
        result
    }
}

/// Whether the inventory can be relied on: what was delivered before was
/// projected once, the worker runs, and is not about to stop.
#[derive(Clone, Copy, Debug, Default, PartialEq, Eq, Structural)]
pub struct Readiness {
    pub initialized: bool,
    pub stopping: bool,
    /// Whether the worker runs, where it was started.
    pub running: Option<bool>,
}

impl Readiness {
    /// Whether the inventory can be relied on.
    pub open spec fn spec_ready(self) -> bool {
        self.initialized && !self.stopping && self.running == Some(true)
    }

    /// Whether the inventory can be relied on.
    pub fn ready(self) -> (ready: bool)
        ensures
            ready == self.spec_ready(),
    {
        let running = match self.running {
            Some(running) => running,
            None => false,
        };
        self.initialized && !self.stopping && running
    }

    /// Says that the worker is about to stop.
    pub fn stop(&mut self)
        ensures
            *final(self) == (Readiness { stopping: true, ..*old(self) }),
    {
        self.stopping = true;
    }

    /// Says that a pass of the worker projected what was delivered.
    pub fn initialize(&mut self)
        ensures
            *final(self) == (Readiness { initialized: true, ..*old(self) }),
    {
        self.initialized = true;
    }

    /// Says that the worker has ended.
    pub fn end(&mut self)
        ensures
            *final(self) == (Readiness { initialized: false, ..*old(self) }),
    {
        self.initialized = false;
    }
}

/// An inventory that is about to stop stays unreliable, whatever the worker still
/// does.
pub proof fn stopping_is_final(readiness: Readiness)
    requires
        readiness.stopping,
    ensures
        !readiness.spec_ready(),
        !(Readiness { initialized: true, ..readiness }).spec_ready(),
        !(Readiness { initialized: false, ..readiness }).spec_ready(),
{
}

/// How far a batch of observations has come.
#[derive(Clone, Copy, Debug, PartialEq, Eq, Structural)]
pub enum ProjectionStatus {
    Projected,
    Pending,
    PendingReceipt,
    NotApplicable,
}

/// What was received of a collection run's batch.
#[derive(Debug)]
pub struct Receipt {
    pub batch_id: String,
    pub received_at: u64,
    /// What was decided of it, as it was recorded.
    pub decision: String,
    /// Whether that decision lets it be projected.
    pub applicable: bool,
}

/// What is known of a collection run's batch.
#[derive(Debug)]
pub struct BatchFacts {
    /// Whether the batch is a snapshot.
    pub snapshot: bool,
    /// What was received of it, where it was received.
    pub receipt: Option<Receipt>,
    /// Whether its projection is settled.
    pub projected: bool,
}

/// What was received of a batch, as it is shown.
#[derive(Debug)]
pub struct ReceiptStatus {
    pub batch_id: String,
    pub received_at: u64,
    pub decision: String,
}

/// How far the delivery of a collection run has come.
#[derive(Debug)]
pub struct DeliveryStatus {
    pub receipt: Option<ReceiptStatus>,
    pub projection: ProjectionStatus,
}

/// How far a batch has come.
pub open spec fn projection_of(batch: BatchFacts) -> ProjectionStatus {
    if batch.projected {
        ProjectionStatus::Projected
    } else if batch.receipt matches Some(receipt) && receipt.applicable {
        ProjectionStatus::Pending
    } else if batch.snapshot {
        ProjectionStatus::PendingReceipt
    } else {
        ProjectionStatus::NotApplicable
    }
}

/// What was received of a batch, as it is shown, where it was received.
pub open spec fn receipt_of(batch: BatchFacts) -> Option<ReceiptStatus> {
    match batch.receipt {
        Some(receipt) => Some(
            ReceiptStatus {
                batch_id: receipt.batch_id,
                received_at: receipt.received_at,
                decision: receipt.decision,
            },
        ),
        None => None,
    }
}

/// How far a run's delivery has come: only a run of the worker's own tenant may be
/// inspected. A run without a batch has nothing to receive and nothing to project.
pub fn inspect(tenant: &str, scope: &Scope, batch: Option<BatchFacts>) -> (status: Result<
    DeliveryStatus,
    Error,
>)
    ensures
        status == (if scope.tenant@ != tenant@ {
            Err::<DeliveryStatus, Error>(Error::Forbidden)
        } else {
            match batch {
                None => Ok(
                    DeliveryStatus { receipt: None, projection: ProjectionStatus::NotApplicable },
                ),
                Some(batch) => Ok(
                    DeliveryStatus { receipt: receipt_of(batch), projection: projection_of(batch) },
                ),
            }
        }),
{
    if !same(scope.tenant.as_str(), tenant) {
        return Err(Error::Forbidden);
    }
    let batch = match batch {
        Some(batch) => batch,
        None => return Ok(
            DeliveryStatus { receipt: None, projection: ProjectionStatus::NotApplicable },
        ),
    };
    let applicable = match &batch.receipt {
        Some(receipt) => receipt.applicable,
        None => false,
    };
    let projection = if batch.projected {
        ProjectionStatus::Projected
    } else if applicable {
        ProjectionStatus::Pending
    } else if batch.snapshot {
        ProjectionStatus::PendingReceipt
    } else {
        ProjectionStatus::NotApplicable
    };
    let receipt = match batch.receipt {
        Some(receipt) => Some(
            ReceiptStatus {
                batch_id: receipt.batch_id,
                received_at: receipt.received_at,
                decision: receipt.decision,
            },
        ),
        None => None,
    };
    Ok(DeliveryStatus { receipt, projection })
}

/// What was received is shown exactly where something was received, and a run
/// without a batch shows nothing.
pub proof fn receipts_are_shown_as_received(batch: BatchFacts)
    ensures
        receipt_of(batch) is Some <==> batch.receipt is Some,
        batch.receipt matches Some(receipt) ==> receipt_of(batch)->Some_0.batch_id
            == receipt.batch_id && receipt_of(batch)->Some_0.received_at == receipt.received_at
            && receipt_of(batch)->Some_0.decision == receipt.decision,
{
}

/// The event under which the projection of a batch is looked up: its fingerprint.
pub fn projection_event(fingerprint: &[u8; 32]) -> (event: String)
    ensures
        event@ == hex_of(fingerprint@),
{
    hex(fingerprint.as_slice())
}

/// What is answered where the inventory cannot be reached.
pub fn unavailable() -> (error: Error)
    ensures
        error == Error::Unavailable(Failure::InventoryRuntime),
{
    Error::Unavailable(Failure::InventoryRuntime)
}

/// When work that begins now has to be over.
pub fn cutoff(now: u64) -> (deadline: Option<u64>)
    ensures
        deadline == (if now + BUDGET_SECONDS <= u64::MAX {
            Some((now + BUDGET_SECONDS) as u64)
        } else {
            None
        }),
{
    now.checked_add(BUDGET_SECONDS)
}

/// How many seconds a pass of the worker may take.
pub const BUDGET_SECONDS: u64 = 5;

/// Two scopes are one exactly where they are of one tenant, one registration, one source and
/// one epoch.
pub proof fn scopes_are_told_apart(one: Scope, two: Scope)
    ensures
        one@ == two@ <==> one.tenant@ == two.tenant@ && one.registration@ == two.registration@
            && one.source@ == two.source@ && one.epoch@ == two.epoch@,
{
}

/// What each authority covers: the worker's, reading the journal of its own tenant until it is
/// cancelled; that of a report, activating its own scope and submitting to it what it
/// covers itself; and that of a reader, reading one scope.
pub proof fn authorities_cover_their_own(
    journal: JournalAuthority,
    report: DurableReport,
    read: ReadAuthority,
    request: Access,
)
    ensures
        journal.covers(request) <==> !journal.cancelled && (request matches Access::ReadJournal {
            tenant,
        } && tenant@ == journal.tenant@),
        request is ReadJournal || request is Read ==> !report.covers(request),
        request matches Access::Activate { scope } ==> (report.covers(request) <==> scope@
            == report.scope@),
        request matches Access::Submit { scope, coverage } ==> (report.covers(request) <==> scope@
            == report.scope@ && coverage@ == report.coverage@),
        read.covers(request) <==> (request matches Access::Read { scope } && scope@ == read.scope@),
{
}

/// A report is delivered step by step: its scope is activated, it is received, and it is
/// recorded as delivered; where a step does not do its part, the worker stops there and
/// says where.
pub proof fn reports_are_delivered_step_by_step(step: Delivery, done: bool)
    ensures
        done && step == Delivery::Activate ==> delivery_follows(step, done) == Ok::<
            Delivery,
            WorkerFailure,
        >(Delivery::Receive),
        done && step == Delivery::Receive ==> delivery_follows(step, done) == Ok::<
            Delivery,
            WorkerFailure,
        >(Delivery::Record),
        done && step == Delivery::Record ==> delivery_follows(step, done) == Ok::<
            Delivery,
            WorkerFailure,
        >(Delivery::Delivered),
        delivery_follows(step, done) is Err <==> !done && step != Delivery::Delivered,
        delivery_follows(step, done) == Err::<Delivery, WorkerFailure>(
            WorkerFailure::ObservationActivate,
        ) <==> !done && step == Delivery::Activate,
        delivery_follows(step, done) == Err::<Delivery, WorkerFailure>(
            WorkerFailure::ObservationReceive,
        ) <==> !done && step == Delivery::Receive,
        delivery_follows(step, done) == Err::<Delivery, WorkerFailure>(
            WorkerFailure::DeliveryProgress,
        ) <==> !done && step == Delivery::Record,
{
}

/// A batch is said to be projected exactly where it is; short of that, to be pending exactly
/// where it was received and can be projected; and a receipt is waited for only of a
/// snapshot.
pub proof fn batches_have_come_as_far_as_is_known(batch: BatchFacts)
    ensures
        projection_of(batch) == ProjectionStatus::Projected <==> batch.projected,
        projection_of(batch) == ProjectionStatus::Pending <==> !batch.projected && (
        batch.receipt matches Some(receipt) && receipt.applicable),
        projection_of(batch) == ProjectionStatus::PendingReceipt <==> !batch.projected
            && batch.snapshot && !(batch.receipt matches Some(receipt) && receipt.applicable),
        projection_of(batch) == ProjectionStatus::NotApplicable <==> !batch.projected
            && !batch.snapshot && !(batch.receipt matches Some(receipt) && receipt.applicable),
{
}

/// The inventory can be relied on exactly where what was delivered before was projected, the
/// worker runs and is not about to stop.
pub proof fn readiness_needs_all_of_it(readiness: Readiness)
    ensures
        readiness.spec_ready() <==> readiness.initialized && !readiness.stopping && (
        readiness.running matches Some(running) && running),
{
}

/// No two places where the worker can stop go by one name.
pub proof fn failures_of_the_worker_are_told_apart(one: WorkerFailure, two: WorkerFailure)
    ensures
        failure_name(one) == failure_name(two) <==> one == two,
{
    reveal_strlit("journal_authority");
    reveal_strlit("report_authority");
    reveal_strlit("observation_activate");
    reveal_strlit("observation_receive");
    reveal_strlit("delivery_progress");
    reveal_strlit("pending_reports");
    reveal_strlit("projection_initialize");
    reveal_strlit("projection_takeover");
    reveal_strlit("projection_compose");
    reveal_strlit("projection_run");
    assert("journal_authority"@.len() == 17 && "delivery_progress"@.len() == 17);
    assert("journal_authority"@[0] == 'j' && "delivery_progress"@[0] == 'd');
    assert("report_authority"@.len() == 16 && "observation_activate"@.len() == 20);
    assert("observation_receive"@.len() == 19 && "projection_takeover"@.len() == 19);
    assert("observation_receive"@[0] == 'o' && "projection_takeover"@[0] == 'p');
    assert("pending_reports"@.len() == 15 && "projection_initialize"@.len() == 21);
    assert("projection_compose"@.len() == 18 && "projection_run"@.len() == 14);
}

} // verus!
