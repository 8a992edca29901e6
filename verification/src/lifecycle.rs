//! The lifetime of the server process: starting up, stopping, reporting.
use crate::error::{message_of, ConfigIssue, Error, Failure};
use crate::text::{join3, truth};
use vstd::prelude::*;

verus! {

/// How a task of the process ended. What the task itself had to say of its end is
/// not part of it.
#[derive(Clone, Copy, Debug, PartialEq, Eq, Structural)]
pub enum TaskExit {
    Completed,
    Failed,
    Panicked,
    Cancelled,
}

/// The word for how a task ended.
pub open spec fn exit_word_of(exit: TaskExit) -> Seq<char> {
    match exit {
        TaskExit::Completed => "completed"@,
        TaskExit::Failed => "failed"@,
        TaskExit::Panicked => "panicked"@,
        TaskExit::Cancelled => "cancelled"@,
    }
}

/// The word for how a task ended.
pub fn exit_word(exit: TaskExit) -> (word: &'static str)
    ensures
        word@ == exit_word_of(exit),
{
    match exit {
        TaskExit::Completed => "completed",
        TaskExit::Failed => "failed",
        TaskExit::Panicked => "panicked",
        TaskExit::Cancelled => "cancelled",
    }
}

/// Why the process ended.
#[allow(inconsistent_fields)]
#[derive(Debug)]
pub enum ProcessError {
    /// A step failed in a way that has a fixed description.
    Stage { stage: &'static str, kind: &'static str },
    /// A step met an input or output failure of a kind.
    Io { stage: &'static str, kind: String },
    /// A step was refused.
    At { stage: &'static str, error: Error },
    /// A task that the process cannot do without ended.
    CriticalTask { task: String, reason: TaskExit, cleanup_failed: bool },
}

/// The line that reports why the process ended.
pub open spec fn diagnostic_of(error: ProcessError) -> Seq<char> {
    match error {
        ProcessError::Stage { stage, kind } => stage@ + ": "@ + kind@,
        ProcessError::Io { stage, kind } => stage@ + ": "@ + kind@,
        ProcessError::At { stage, error } => stage@ + ": "@ + message_of(error),
        ProcessError::CriticalTask { task, reason, cleanup_failed } => task@ + ": "@
            + exit_word_of(reason) + " cleanup_failed="@ + (if cleanup_failed {
            "true"@
        } else {
            "false"@
        }),
    }
}

impl ProcessError {
    /// A refusal met in a step.
    pub fn at(stage: &'static str, error: Error) -> (failed: ProcessError)
        ensures
            failed == (ProcessError::At { stage, error }),
    {
        ProcessError::At { stage, error }
    }

    /// The line that reports why the process ended.
    pub fn diagnostic(&self) -> (line: String)
        ensures
            line@ == diagnostic_of(*self),
    {
        match self {
            ProcessError::Stage { stage, kind } => join3(stage, ": ", kind),
            ProcessError::Io { stage, kind } => join3(stage, ": ", kind.as_str()),
            ProcessError::At { stage, error } => join3(stage, ": ", error.message()),
            ProcessError::CriticalTask { task, reason, cleanup_failed } => {
                let mut line = join3(task.as_str(), ": ", exit_word(*reason));
                line.append(" cleanup_failed=");
                line.append(truth(*cleanup_failed));
                line
            },
        }
    }

    /// Another report equal to this one.
    pub fn copy(&self) -> (copy: ProcessError)
        ensures
            copy == *self,
    {
        match self {
            ProcessError::Stage { stage, kind } => ProcessError::Stage { stage, kind },
            ProcessError::Io { stage, kind } => ProcessError::Io { stage, kind: kind.clone() },
            ProcessError::At { stage, error } => ProcessError::At { stage, error: *error },
            ProcessError::CriticalTask { task, reason, cleanup_failed } =>
                ProcessError::CriticalTask {
                    task: task.clone(),
                    reason: *reason,
                    cleanup_failed: *cleanup_failed,
                },
        }
    }
}

/// The step that a refusal met while the application is put together belongs to.
pub open spec fn assembly_stage(error: Error) -> Seq<char> {
    match error {
        Error::Configuration(ConfigIssue::EnrollmentCa) => "startup.windows_ca"@,
        Error::Configuration(ConfigIssue::ProtocolKey) => "startup.protocol_key"@,
        Error::Configuration(ConfigIssue::WindowsTls) => "startup.windows_tls"@,
        Error::Configuration(ConfigIssue::WindowsListeners) => "startup.windows_listeners"@,
        _ => "startup.identity"@,
    }
}

/// Whether a report says that step `stage` was refused with `error`.
pub open spec fn reports(failed: ProcessError, stage: Seq<char>, error: Error) -> bool {
    failed matches ProcessError::At { stage: at, error: met } && at@ == stage && met == error
}

/// The report of a refusal met while the application is put together.
pub fn assembly_error(error: Error) -> (failed: ProcessError)
    ensures
        reports(failed, assembly_stage(error), error),
{
    let stage = match error {
        Error::Configuration(ConfigIssue::EnrollmentCa) => "startup.windows_ca",
        Error::Configuration(ConfigIssue::ProtocolKey) => "startup.protocol_key",
        Error::Configuration(ConfigIssue::WindowsTls) => "startup.windows_tls",
        Error::Configuration(ConfigIssue::WindowsListeners) => "startup.windows_listeners",
        _ => "startup.identity",
    };
    ProcessError::at(stage, error)
}

/// How the scope that the process runs in came to its end.
#[derive(Debug)]
pub enum ScopeExit {
    /// A task that the process cannot do without ended.
    CriticalTaskExited { name: String, reason: TaskExit },
    /// The work inside the scope ended by itself.
    Completed(Result<(), ProcessError>),
    /// The process was asked to stop, or could not wait for being asked.
    StopRequested(Result<(), String>),
    /// The scope was torn down.
    Terminated,
}

/// Whether `result` is what a process that ended with `exit` reports, where
/// `clean` tells whether everything it held was released.
pub open spec fn finishes(exit: ScopeExit, clean: bool, result: Result<(), ProcessError>) -> bool {
    match exit {
        ScopeExit::CriticalTaskExited { name, reason } => result == Err::<(), ProcessError>(
            ProcessError::CriticalTask { task: name, reason, cleanup_failed: !clean },
        ),
        ScopeExit::Completed(Err(error)) => result == Err::<(), ProcessError>(error),
        ScopeExit::StopRequested(Ok(())) if clean => result == Ok::<(), ProcessError>(()),
        ScopeExit::StopRequested(Err(kind)) if clean => result matches Err(
            ProcessError::Io { stage, kind: met },
        ) && stage@ == "shutdown.signal"@ && met == kind,
        _ => result matches Err(ProcessError::Stage { stage, kind }) && if clean {
            stage@ == "lifecycle"@ && kind@ == "scope terminated"@
        } else {
            stage@ == "shutdown"@ && kind@ == "resource drain failed"@
        },
    }
}

/// What the process reports at its end.
pub fn finish(exit: &ScopeExit, clean: bool) -> (result: Result<(), ProcessError>)
    ensures
        finishes(*exit, clean, result),
{
    match exit {
        ScopeExit::CriticalTaskExited { name, reason } => Err(
            ProcessError::CriticalTask {
                task: name.clone(),
                reason: *reason,
                cleanup_failed: !clean,
            },
        ),
        ScopeExit::Completed(Err(error)) => Err(error.copy()),
        ScopeExit::StopRequested(Ok(())) if clean => Ok(()),
        ScopeExit::StopRequested(Err(kind)) if clean => Err(
            ProcessError::Io { stage: "shutdown.signal", kind: kind.clone() },
        ),
        _ => if clean {
            Err(ProcessError::Stage { stage: "lifecycle", kind: "scope terminated" })
        } else {
            Err(ProcessError::Stage { stage: "shutdown", kind: "resource drain failed" })
        },
    }
}

/// A process succeeds only where it was asked to stop and released everything.
pub proof fn success_means_a_clean_stop(
    exit: ScopeExit,
    clean: bool,
    result: Result<(), ProcessError>,
)
    requires
        finishes(exit, clean, result),
    ensures
        result is Ok <==> clean && exit matches ScopeExit::StopRequested(Ok(_)),
{
}

/// The end of a task that the process cannot do without is reported by the
/// task's name and by how it ended, and the report tells whether anything was left
/// unreleased. The line holds nothing else: no word of what the task failed with
/// reaches it.
pub proof fn critical_exit_names_the_task(
    name: String,
    reason: TaskExit,
    clean: bool,
    result: Result<(), ProcessError>,
)
    requires
        finishes(ScopeExit::CriticalTaskExited { name, reason }, clean, result),
    ensures
        result is Err,
        diagnostic_of(result->Err_0) == name@ + ": "@ + exit_word_of(reason) + " cleanup_failed="@
            + (if clean {
            "false"@
        } else {
            "true"@
        }),
{
}

/// Every report other than that of a critical task begins with its step.
pub proof fn diagnostic_begins_with_its_stage(error: ProcessError)
    requires
        !(error is CriticalTask),
    ensures
        match error {
            ProcessError::Stage { stage, .. } => stage@.is_prefix_of(diagnostic_of(error)),
            ProcessError::Io { stage, .. } => stage@.is_prefix_of(diagnostic_of(error)),
            ProcessError::At { stage, .. } => stage@.is_prefix_of(diagnostic_of(error)),
            ProcessError::CriticalTask { .. } => true,
        },
{
    let stage = match error {
        ProcessError::Stage { stage, .. } => stage@,
        ProcessError::Io { stage, .. } => stage@,
        ProcessError::At { stage, .. } => stage@,
        ProcessError::CriticalTask { .. } => Seq::empty(),
    };
    assert(diagnostic_of(error).subrange(0, stage.len() as int) =~= stage);
}

/// Why a resource or task was not released.
#[derive(Clone, Copy, Debug, PartialEq, Eq, Structural)]
pub enum ShutdownFailureKind {
    Failed,
    TimedOut,
    Panicked,
    Cancelled,
    TaskUnknown,
    DeadlineExceeded,
    BudgetExhausted,
}

/// The name under which a release failure is logged.
pub open spec fn shutdown_kind_of(kind: ShutdownFailureKind) -> Seq<char> {
    match kind {
        ShutdownFailureKind::Failed => "failed"@,
        ShutdownFailureKind::TimedOut => "timed_out"@,
        ShutdownFailureKind::Panicked => "panicked"@,
        ShutdownFailureKind::Cancelled => "cancelled"@,
        ShutdownFailureKind::TaskUnknown => "task_unknown"@,
        ShutdownFailureKind::DeadlineExceeded => "deadline_exceeded"@,
        ShutdownFailureKind::BudgetExhausted => "budget_exhausted"@,
    }
}

/// The name under which a release failure is logged.
pub fn shutdown_kind(kind: ShutdownFailureKind) -> (name: &'static str)
    ensures
        name@ == shutdown_kind_of(kind),
{
    match kind {
        ShutdownFailureKind::Failed => "failed",
        ShutdownFailureKind::TimedOut => "timed_out",
        ShutdownFailureKind::Panicked => "panicked",
        ShutdownFailureKind::Cancelled => "cancelled",
        ShutdownFailureKind::TaskUnknown => "task_unknown",
        ShutdownFailureKind::DeadlineExceeded => "deadline_exceeded",
        ShutdownFailureKind::BudgetExhausted => "budget_exhausted",
    }
}

/// The limits that every listener serves under; durations are in seconds.
#[derive(Clone, Copy, Debug, PartialEq, Eq, Structural)]
pub struct HttpPolicy {
    pub connections: u32,
    pub preparation: u64,
    pub request: u64,
    pub drain: u64,
    pub header: u64,
    pub headers: u32,
    pub buffer_bytes: u32,
}

/// The limits that every listener serves under. Preparing a connection takes up
/// to five seconds for its encryption and two for the record of its failure.
pub fn http_policy() -> (policy: HttpPolicy)
    ensures
        policy.connections == 128,
        policy.preparation == 8,
        policy.request == 10,
        policy.drain == 10,
        policy.header == 10,
        policy.headers == 64,
        policy.buffer_bytes == 32768,
        policy.preparation > 5 + 2,
{
    HttpPolicy {
        connections: 128,
        preparation: 8,
        request: 10,
        drain: 10,
        header: 10,
        headers: 64,
        buffer_bytes: 32768,
    }
}

/// A step of starting the server, in the order in which they are taken.
#[derive(Clone, Copy, Debug, PartialEq, Eq, Structural)]
pub enum Startup {
    Configuration,
    Budget,
    Scope,
    DatabaseConfiguration,
    Reader,
    AccessConfiguration,
    AccessStore,
    RuntimeDatabaseConfiguration,
    Observation,
    Projection,
    InventoryTenant,
    ManagementTenant,
    Management,
    Assembly,
    Listener,
    EnrollmentListener,
    ManagementListener,
    Running,
}

/// What came of a step.
#[derive(Debug)]
pub enum StepOutcome {
    Done,
    Refused(Error),
    Io(String),
    Overdue,
}

impl Startup {
    /// How many steps come before this one.
    pub open spec fn rank(self) -> nat {
        match self {
            Startup::Configuration => 0,
            Startup::Budget => 1,
            Startup::Scope => 2,
            Startup::DatabaseConfiguration => 3,
            Startup::Reader => 4,
            Startup::AccessConfiguration => 5,
            Startup::AccessStore => 6,
            Startup::RuntimeDatabaseConfiguration => 7,
            Startup::Observation => 8,
            Startup::Projection => 9,
            Startup::InventoryTenant => 10,
            Startup::ManagementTenant => 11,
            Startup::Management => 12,
            Startup::Assembly => 13,
            Startup::Listener => 14,
            Startup::EnrollmentListener => 15,
            Startup::ManagementListener => 16,
            Startup::Running => 17,
        }
    }

    /// Whether the step counts against the time allowed for starting.
    pub open spec fn is_timed(self) -> bool {
        3 <= self.rank() <= 16
    }

    /// Whether the step opens a listener.
    pub open spec fn is_listener(self) -> bool {
        14 <= self.rank() <= 16
    }

    /// Whether the step, once done, holds something that has to be released.
    pub open spec fn holds_resource(self) -> bool {
        self == Startup::Reader || self == Startup::AccessStore || self == Startup::Observation
            || self == Startup::Projection || self == Startup::Management
    }

    /// The step under whose name a failure of this one is reported.
    pub open spec fn name(self, met: Error) -> Seq<char> {
        match self {
            Startup::Configuration => "startup.configuration"@,
            Startup::Budget => "startup.budget"@,
            Startup::Scope => "startup.scope"@,
            Startup::DatabaseConfiguration => "startup.database_configuration"@,
            Startup::Reader => "startup.reader_connection_or_admission"@,
            Startup::AccessConfiguration => "startup.access_configuration"@,
            Startup::AccessStore => "startup.access_store"@,
            Startup::RuntimeDatabaseConfiguration => "startup.runtime_database_configuration"@,
            Startup::Observation => "startup.observation"@,
            Startup::Projection => "startup.projection"@,
            Startup::Management => "startup.management"@,
            Startup::InventoryTenant | Startup::ManagementTenant | Startup::Assembly =>
                assembly_stage(met),
            Startup::Listener => "startup.listener_bind"@,
            Startup::EnrollmentListener => "startup.enrollment_listener"@,
            Startup::ManagementListener => "startup.management_listener"@,
            Startup::Running => "lifecycle.drive"@,
        }
    }

    /// What a refusal of this step is reported as.
    pub open spec fn refusal(self, met: Error) -> Error {
        match self {
            Startup::Budget => Error::Configuration(ConfigIssue::Budget),
            Startup::Scope | Startup::Running => Error::Unavailable(Failure::Runtime),
            Startup::Reader => Error::Unavailable(Failure::InventoryPool),
            Startup::InventoryTenant => Error::Configuration(ConfigIssue::Tenant),
            Startup::ManagementTenant => Error::Malformed,
            _ => met,
        }
    }

    /// The step after this one.
    pub fn next(self) -> (next: Startup)
        ensures
            self is Running ==> next is Running,
            !(self is Running) ==> next.rank() == self.rank() + 1,
    {
        match self {
            Startup::Configuration => Startup::Budget,
            Startup::Budget => Startup::Scope,
            Startup::Scope => Startup::DatabaseConfiguration,
            Startup::DatabaseConfiguration => Startup::Reader,
            Startup::Reader => Startup::AccessConfiguration,
            Startup::AccessConfiguration => Startup::AccessStore,
            Startup::AccessStore => Startup::RuntimeDatabaseConfiguration,
            Startup::RuntimeDatabaseConfiguration => Startup::Observation,
            Startup::Observation => Startup::Projection,
            Startup::Projection => Startup::InventoryTenant,
            Startup::InventoryTenant => Startup::ManagementTenant,
            Startup::ManagementTenant => Startup::Management,
            Startup::Management => Startup::Assembly,
            Startup::Assembly => Startup::Listener,
            Startup::Listener => Startup::EnrollmentListener,
            Startup::EnrollmentListener => Startup::ManagementListener,
            Startup::ManagementListener => Startup::Running,
            Startup::Running => Startup::Running,
        }
    }

    /// Whether the step, once done, holds something that has to be released.
    pub fn stages_resource(self) -> (answer: bool)
        ensures
            answer == self.holds_resource(),
    {
        match self {
            Startup::Reader
            | Startup::AccessStore
            | Startup::Observation
            | Startup::Projection
            | Startup::Management => true,
            _ => false,
        }
    }

    /// Whether `result` is what follows this step.
    pub open spec fn leads_to(
        self,
        outcome: StepOutcome,
        result: Result<Startup, ProcessError>,
    ) -> bool {
        match outcome {
            StepOutcome::Done => result matches Ok(next) && (self is Running ==> next is Running)
                && (!(self is Running) ==> next.rank() == self.rank() + 1),
            StepOutcome::Refused(error) => result matches Err(failed) && reports(
                failed,
                self.name(self.refusal(error)),
                self.refusal(error),
            ),
            StepOutcome::Io(kind) => result matches Err(ProcessError::Io { stage, kind: met })
                && stage@ == self.name(Error::Malformed) && met == kind,
            StepOutcome::Overdue => result matches Err(ProcessError::Stage { stage, kind }) && stage@
                == "startup"@ && kind@ == "total deadline exceeded"@,
        }
    }

    /// The step to take next, or the report with which starting ends. Only a
    /// listener meets an input or output failure, and only a timed step is
    /// overdue.
    pub fn step(self, outcome: StepOutcome) -> (result: Result<Startup, ProcessError>)
        requires
            outcome is Io ==> self.is_listener(),
            outcome is Overdue ==> self.is_timed(),
        ensures
            self.leads_to(outcome, result),
    {
        let error = match outcome {
            StepOutcome::Done => return Ok(self.next()),
            StepOutcome::Io(kind) => {
                let stage = match self {
                    Startup::Listener => "startup.listener_bind",
                    Startup::EnrollmentListener => "startup.enrollment_listener",
                    _ => "startup.management_listener",
                };
                return Err(ProcessError::Io { stage, kind });
            },
            StepOutcome::Overdue => return Err(
                ProcessError::Stage { stage: "startup", kind: "total deadline exceeded" },
            ),
            StepOutcome::Refused(error) => error,
        };
        let failed = match self {
            Startup::Configuration => ProcessError::at("startup.configuration", error),
            Startup::Budget => ProcessError::at(
                "startup.budget",
                Error::Configuration(ConfigIssue::Budget),
            ),
            Startup::Scope => ProcessError::at(
                "startup.scope",
                Error::Unavailable(Failure::Runtime),
            ),
            Startup::DatabaseConfiguration => ProcessError::at(
                "startup.database_configuration",
                error,
            ),
            Startup::Reader => ProcessError::at(
                "startup.reader_connection_or_admission",
                Error::Unavailable(Failure::InventoryPool),
            ),
            Startup::AccessConfiguration => ProcessError::at("startup.access_configuration", error),
            Startup::AccessStore => ProcessError::at("startup.access_store", error),
            Startup::RuntimeDatabaseConfiguration => ProcessError::at(
                "startup.runtime_database_configuration",
                error,
            ),
            Startup::Observation => ProcessError::at("startup.observation", error),
            Startup::Projection => ProcessError::at("startup.projection", error),
            Startup::InventoryTenant => assembly_error(Error::Configuration(ConfigIssue::Tenant)),
            Startup::ManagementTenant => assembly_error(Error::Malformed),
            Startup::Management => ProcessError::at("startup.management", error),
            Startup::Assembly => assembly_error(error),
            Startup::Listener => ProcessError::at("startup.listener_bind", error),
            Startup::EnrollmentListener => ProcessError::at("startup.enrollment_listener", error),
            Startup::ManagementListener => ProcessError::at("startup.management_listener", error),
            Startup::Running => ProcessError::at(
                "lifecycle.drive",
                Error::Unavailable(Failure::Runtime),
            ),
        };
        Err(failed)
    }
}

/// The tasks that run for as long as the server does, each of which it cannot
/// do without.
#[derive(Clone, Copy, Debug, PartialEq, Eq, Structural)]
pub enum CriticalTask {
    InventoryRuntime,
    Retention,
    Http,
    EnrollmentTls,
    ManagementTls,
}

/// What is launched once every step of starting is done, in order.
pub fn critical_tasks() -> (tasks: [CriticalTask; 5])
    ensures
        tasks@ == seq![
            CriticalTask::InventoryRuntime,
            CriticalTask::Retention,
            CriticalTask::Http,
            CriticalTask::EnrollmentTls,
            CriticalTask::ManagementTls,
        ],
{
    let tasks = [
        CriticalTask::InventoryRuntime,
        CriticalTask::Retention,
        CriticalTask::Http,
        CriticalTask::EnrollmentTls,
        CriticalTask::ManagementTls,
    ];
    assert(tasks@ =~= seq![
        CriticalTask::InventoryRuntime,
        CriticalTask::Retention,
        CriticalTask::Http,
        CriticalTask::EnrollmentTls,
        CriticalTask::ManagementTls,
    ]);
    tasks
}

/// The server runs only after every step: where a step leads to running, it is
/// the last one and it is done.
pub proof fn running_needs_every_step(
    step: Startup,
    outcome: StepOutcome,
    result: Result<Startup, ProcessError>,
)
    requires
        step.leads_to(outcome, result),
        result == Ok::<Startup, ProcessError>(Startup::Running),
    ensures
        outcome is Done,
        step is ManagementListener || step is Running,
{
}

/// Everything that has to be released is held before the first listener opens.
pub proof fn resources_come_before_listeners(resource: Startup, listener: Startup)
    requires
        resource.holds_resource(),
        listener.is_listener(),
    ensures
        resource.rank() < listener.rank(),
{
}

/// What the process reports at its end: the task that it cannot do without, with whether
/// anything was left unreleased; the failure of the work inside it; and otherwise first
/// that something was left unreleased, then that it could not wait for being asked to
/// stop, and then that it ended without being asked.
pub proof fn endings_are_reported_as_what_they_were(
    exit: ScopeExit,
    clean: bool,
    result: Result<(), ProcessError>,
)
    requires
        finishes(exit, clean, result),
    ensures
        exit matches ScopeExit::CriticalTaskExited { name, reason } ==> (result matches Err(
            ProcessError::CriticalTask { task, reason: why, cleanup_failed },
        ) && task == name && why == reason && cleanup_failed == !clean),
        exit matches ScopeExit::Completed(Err(error)) ==> result == Err::<(), ProcessError>(error),
        clean ==> (exit matches ScopeExit::StopRequested(Err(kind)) ==> (result matches Err(
            ProcessError::Io { stage, kind: met },
        ) && stage@ == "shutdown.signal"@ && met == kind)),
        !clean && !(exit is CriticalTaskExited) && !(exit matches ScopeExit::Completed(Err(_)))
            ==> (result matches Err(ProcessError::Stage { stage, kind }) && stage@ == "shutdown"@
            && kind@ == "resource drain failed"@),
        clean && (exit is Terminated || exit matches ScopeExit::Completed(Ok(_))) ==> (
        result matches Err(ProcessError::Stage { stage, kind }) && stage@ == "lifecycle"@ && kind@
            == "scope terminated"@),
{
}

/// No two ways for a task to end, and no two reasons for which something was not released, go
/// by one name.
pub proof fn endings_are_told_apart(
    one: TaskExit,
    two: TaskExit,
    kind: ShutdownFailureKind,
    other: ShutdownFailureKind,
)
    ensures
        exit_word_of(one) == exit_word_of(two) <==> one == two,
        shutdown_kind_of(kind) == shutdown_kind_of(other) <==> kind == other,
{
    reveal_strlit("completed");
    reveal_strlit("failed");
    reveal_strlit("panicked");
    reveal_strlit("cancelled");
    reveal_strlit("timed_out");
    reveal_strlit("task_unknown");
    reveal_strlit("deadline_exceeded");
    reveal_strlit("budget_exhausted");
    assert("completed"@[1] == 'o' && "failed"@[0] == 'f' && "panicked"@[0] == 'p');
    assert("cancelled"@[1] == 'a' && "completed"@[0] == 'c' && "cancelled"@[0] == 'c');
    assert("timed_out"@[0] == 't' && "task_unknown"@[0] == 't' && "timed_out"@[1] == 'i');
    assert("task_unknown"@[1] == 'a' && "deadline_exceeded"@[0] == 'd');
    assert("budget_exhausted"@[0] == 'b');
}

/// A step that is refused is reported with what it met, but for those that have a report of
/// their own; and what is met while the application is put together is reported under
/// the part that it is about.
pub proof fn refused_steps_are_reported_with_what_they_met(step: Startup, met: Error)
    ensures
        step.refusal(met) == met || step == Startup::Budget || step == Startup::Scope || step
            == Startup::Running || step == Startup::Reader || step == Startup::InventoryTenant
            || step == Startup::ManagementTenant,
        Startup::Reader.refusal(met) == Error::Unavailable(Failure::InventoryPool),
        Startup::Budget.refusal(met) == Error::Configuration(ConfigIssue::Budget),
        Startup::InventoryTenant.refusal(met) == Error::Configuration(ConfigIssue::Tenant),
        Startup::ManagementTenant.refusal(met) == Error::Malformed,
        Startup::Scope.refusal(met) == Error::Unavailable(Failure::Runtime),
        assembly_stage(met) == "startup.windows_ca"@ <==> met == Error::Configuration(
            ConfigIssue::EnrollmentCa,
        ),
        assembly_stage(met) == "startup.protocol_key"@ <==> met == Error::Configuration(
            ConfigIssue::ProtocolKey,
        ),
        assembly_stage(met) == "startup.windows_tls"@ <==> met == Error::Configuration(
            ConfigIssue::WindowsTls,
        ),
        assembly_stage(met) == "startup.windows_listeners"@ <==> met == Error::Configuration(
            ConfigIssue::WindowsListeners,
        ),
{
    reveal_strlit("startup.windows_ca");
    reveal_strlit("startup.protocol_key");
    reveal_strlit("startup.windows_tls");
    reveal_strlit("startup.windows_listeners");
    reveal_strlit("startup.identity");
    assert("startup.windows_ca"@.len() == 18 && "startup.protocol_key"@.len() == 20);
    assert("startup.windows_tls"@.len() == 19 && "startup.windows_listeners"@.len() == 25);
    assert("startup.identity"@.len() == 16);
}

/// What a step holds is a store or a connection: everything else that starting does has
/// nothing to release.
pub proof fn stores_are_what_is_released(step: Startup)
    ensures
        step.holds_resource() <==> step == Startup::Reader || step == Startup::AccessStore || step
            == Startup::Observation || step == Startup::Projection || step == Startup::Management,
        step.is_listener() <==> step == Startup::Listener || step == Startup::EnrollmentListener
            || step == Startup::ManagementListener,
        step.is_timed() <==> step != Startup::Configuration && step != Startup::Budget && step
            != Startup::Scope && step != Startup::Running,
{
}

} // verus!
