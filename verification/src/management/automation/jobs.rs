//! Jobs as they are named, shown, handed on and ended.
use crate::encoding::{hex, hex_of};
use crate::error::Error;
use crate::id::{parsed, text_denotes_its_identifier, text_of, Id};
use crate::management::automation::model::{JobInput, TaskKind};
use crate::management::configuration::Refusal;
use crate::management::execution::{Admission, PlanExecutionAdmission};
use crate::management::model::Missing;
use crate::pick::{alike, one_more, picks};
use crate::text::{join, join3, same, strip_prefix};
use vstd::prelude::*;

verus! {

/// What durable work is about: the changes of assets, or a job.
#[derive(Clone, Copy, Debug, PartialEq, Eq, Structural)]
pub enum Entity {
    Changes,
    Job(Id),
}

/// The name of a job as an entity of durable work.
pub open spec fn job_entity(id: Id) -> Seq<char> {
    "job:"@ + text_of(id.value)
}

/// What an entity's name denotes, where it denotes anything.
pub open spec fn entity_of(name: Seq<char>) -> Option<Entity> {
    if name == "changes"@ {
        Some(Entity::Changes)
    } else if name.len() >= 4 && name.take(4) == "job:"@ {
        match parsed(name.skip(4)) {
            Some(value) => Some(Entity::Job(Id { value })),
            None => None,
        }
    } else {
        None
    }
}

/// The name of a job as an entity of durable work.
pub fn job_target(id: Id) -> (name: String)
    ensures
        name@ == job_entity(id),
{
    let text = id.text();
    join("job:", text.as_str())
}

/// What an entity's name denotes, where it denotes anything. What is denoted by
/// the name of a job is that job.
pub fn entity(name: &str) -> (entity: Option<Entity>)
    ensures
        entity == entity_of(name@),
        forall|id: Id| #[trigger] job_entity(id) == name@ ==> entity == Some(Entity::Job(id)),
{
    proof {
        reveal_strlit("job:");
        reveal_strlit("changes");
        assert forall|id: Id| #[trigger] job_entity(id) == name@ implies name@.skip(4) == text_of(
            id.value,
        ) && name@[0] == 'j' by {
            assert(name@.skip(4) =~= text_of(id.value));
        }
        assert("changes"@[0] == 'c');
    }
    if same(name, "changes") {
        return Some(Entity::Changes);
    }
    match strip_prefix(name, "job:") {
        Some(rest) => {
            assert(name@.skip(4) =~= rest@);
            assert(name@.take(4) =~= "job:"@);
            match Id::parse(rest) {
                Some(id) => {
                    assert(id == Id { value: id.value });
                    Some(Entity::Job(id))
                },
                None => None,
            }
        },
        None => {
            assert forall|id: Id| #[trigger] job_entity(id) != name@ by {
                if job_entity(id) == name@ {
                    assert(name@.take(4) =~= "job:"@);
                }
            }
            None
        },
    }
}

/// What is missing where a job of a kind is asked for and there is none.
pub open spec fn missing_of(kind: TaskKind) -> Error {
    match kind {
        TaskKind::Group => Error::ManagementNotFound(Missing::Group),
        TaskKind::Scope => Error::ManagementNotFound(Missing::Scope),
        TaskKind::Policy => Error::ManagementNotFound(Missing::Preview),
        TaskKind::AssetQuery => Error::NotFound,
    }
}

/// What is missing where a job of a kind is asked for and there is none.
pub fn missing(kind: TaskKind) -> (error: Error)
    ensures
        error == missing_of(kind),
{
    match kind {
        TaskKind::Group => Error::ManagementNotFound(Missing::Group),
        TaskKind::Scope => Error::ManagementNotFound(Missing::Scope),
        TaskKind::Policy => Error::ManagementNotFound(Missing::Preview),
        TaskKind::AssetQuery => Error::NotFound,
    }
}

/// A job as it is stored.
#[derive(Debug)]
pub struct Job {
    pub input: JobInput,
    pub completed: bool,
    pub failure: Option<String>,
    pub cursor: Option<String>,
    pub forwarded: bool,
}

/// Whether a job is the one that is asked for: of that kind, and about that
/// target where one is given.
pub open spec fn is_asked_for(job: Job, target: Option<Seq<char>>, kind: TaskKind) -> bool {
    &&& target matches Some(target) ==> target == job.input.spec_target()
    &&& job.input.family() == kind
}

/// The name of a job's status.
pub open spec fn status_of(failure: Option<Seq<char>>, completed: bool, forwarded: bool) -> Seq<
    char,
> {
    match failure {
        Some(failure) => if failure == "superseded"@ {
            "superseded"@
        } else {
            "failed"@
        },
        None => if completed {
            "completed"@
        } else if forwarded {
            "running"@
        } else {
            "pending"@
        },
    }
}

/// An optional text as an optional sequence of characters.
pub open spec fn text_view(text: Option<String>) -> Option<Seq<char>> {
    match text {
        Some(text) => Some(text@),
        None => None,
    }
}

/// How far a job has come, as the store of its kind tells.
#[derive(Debug)]
pub enum Progress {
    /// Nothing is told of the job.
    Unknown,
    /// A group was built from so many objects, and has so many members.
    Group { objects: u64, members: u64 },
    /// A scope was resolved for so many devices, and reaches so many.
    Scope { objects: u64, members: u64 },
    /// A candidate plan.
    Policy { expected_revision: u64, targets: u64, facts: u64, plan: Option<[u8; 32]> },
}

/// A job as it is shown.
#[derive(Debug)]
pub struct TaskView {
    pub policy_revision: Option<u64>,
    pub task: Id,
    pub kind: &'static str,
    pub target: String,
    pub status: &'static str,
    pub processed: u64,
    pub members: u64,
    pub plan: Option<String>,
    pub failure: Option<String>,
}

/// Whether a view shows how far a job has come.
pub open spec fn shows_progress(view: TaskView, progress: Progress) -> bool {
    match progress {
        Progress::Unknown => view.processed == 0 && view.members == 0 && view.policy_revision is None
            && view.plan is None,
        Progress::Group { objects, members } => view.processed == objects && view.members
            == members && view.policy_revision is None && view.plan is None,
        Progress::Scope { objects, members } => view.processed == objects && view.members
            == members && view.policy_revision is None && view.plan is None,
        Progress::Policy { expected_revision, targets, facts, plan } => {
            &&& view.processed == targets + facts
            &&& view.members == targets
            &&& view.policy_revision == Some(expected_revision)
            &&& match (view.plan, plan) {
                (Some(text), Some(plan)) => text@ == hex_of(plan@),
                (None, None) => true,
                _ => false,
            }
        },
    }
}

/// Whether a view shows a job. How far a failed job had come is not shown.
pub open spec fn shows(view: TaskView, id: Id, job: Job, progress: Progress) -> bool {
    &&& view.task == id
    &&& view.kind@ == job.input.spec_kind()
    &&& view.target@ == job.input.spec_target()
    &&& view.status@ == status_of(text_view(job.failure), job.completed, job.forwarded)
    &&& view.failure == job.failure
    &&& shows_progress(view, if job.failure is Some {
        Progress::Unknown
    } else {
        progress
    })
}

/// Whether the counts of a candidate plan can be added.
pub open spec fn is_countable(progress: Progress) -> bool {
    progress matches Progress::Policy { targets, facts, .. } ==> targets + facts <= u64::MAX
}

/// The name of a job's status.
pub fn status(failure: &Option<String>, completed: bool, forwarded: bool) -> (name: &'static str)
    ensures
        name@ == status_of(text_view(*failure), completed, forwarded),
{
    match failure {
        Some(failure) => if same(failure.as_str(), "superseded") {
            "superseded"
        } else {
            "failed"
        },
        None => if completed {
            "completed"
        } else if forwarded {
            "running"
        } else {
            "pending"
        },
    }
}

/// Whether two kinds are one.
fn is_kind(input: &JobInput, kind: TaskKind) -> (answer: bool)
    ensures
        answer == (input.family() == kind),
{
    match (kind, input) {
        (TaskKind::AssetQuery, JobInput::AssetQuery { .. }) => true,
        (TaskKind::Group, JobInput::Group { .. }) => true,
        (TaskKind::Scope, JobInput::Scope { .. }) => true,
        (TaskKind::Policy, JobInput::Policy { .. }) => true,
        _ => false,
    }
}

/// Shows a job of a kind, about a target where one is given.
pub fn task_read(
    id: Id,
    job: Option<Job>,
    target: Option<&str>,
    kind: TaskKind,
    progress: Progress,
) -> (view: Result<TaskView, Error>)
    requires
        is_countable(progress),
    ensures
        match job {
            None => view == Err::<TaskView, Error>(missing_of(kind)),
            Some(job) => {
                let asked = match target {
                    Some(target) => Some(target@),
                    None => None,
                };
                if is_asked_for(job, asked, kind) {
                    view matches Ok(view) && shows(view, id, job, progress)
                } else {
                    view == Err::<TaskView, Error>(missing_of(kind))
                }
            },
        },
{
    let job = match job {
        Some(job) => job,
        None => return Err(missing(kind)),
    };
    let about = job.input.target();
    let other = match target {
        Some(target) => !same(target, about.as_str()),
        None => false,
    };
    if other || !is_kind(&job.input, kind) {
        return Err(missing(kind));
    }
    let progress = if job.failure.is_some() {
        Progress::Unknown
    } else {
        progress
    };
    let mut policy_revision: Option<u64> = None;
    let mut processed: u64 = 0;
    let mut members: u64 = 0;
    let mut plan: Option<String> = None;
    match &progress {
        Progress::Unknown => {},
        Progress::Group { objects, members: reached } => {
            processed = *objects;
            members = *reached;
        },
        Progress::Scope { objects, members: reached } => {
            processed = *objects;
            members = *reached;
        },
        Progress::Policy { expected_revision, targets, facts, plan: found } => {
            policy_revision = Some(*expected_revision);
            processed = *targets + *facts;
            members = *targets;
            if let Some(found) = found {
                plan = Some(hex(found.as_slice()));
            }
        },
    }
    Ok(
        TaskView {
            policy_revision,
            task: id,
            kind: job.input.kind(),
            target: about,
            status: status(&job.failure, job.completed, job.forwarded),
            processed,
            members,
            plan,
            failure: job.failure,
        },
    )
}

/// A job as it is answered: how it stands, the plan that it froze for execution,
/// where there is one, and what is recorded of its failure.
#[derive(Debug)]
pub struct TaskAnswer {
    pub task: TaskView,
    pub execution: Option<PlanExecutionAdmission>,
    pub failure_detail: Option<String>,
}

/// Answers with a job. A job that froze no plan is shown without one; a plan that
/// cannot be read for another reason refuses the whole answer.
pub fn task_answer(
    task: TaskView,
    execution: Result<Admission, Refusal>,
    failure_detail: Option<String>,
) -> (answer: Result<TaskAnswer, Refusal>)
    ensures
        answer == (match execution {
            Ok(admission) => Ok::<TaskAnswer, Refusal>(
                TaskAnswer { task, execution: Some(admission.plan), failure_detail },
            ),
            Err(Refusal::Plan { .. }) => Ok(TaskAnswer { task, execution: None, failure_detail }),
            Err(refusal) => Err(refusal),
        }),
{
    let execution = match execution {
        Ok(admission) => Some(admission.plan),
        Err(Refusal::Plan { .. }) => None,
        Err(refusal) => return Err(refusal),
    };
    Ok(TaskAnswer { task, execution, failure_detail })
}

/// Where the status of a job is read.
pub open spec fn status_url_of(input: JobInput, id: Id) -> Seq<char> {
    match input {
        JobInput::AssetQuery { .. } => "/api/v2/device-queries/"@ + text_of(id.value),
        JobInput::Group { group, .. } => "/api/v2/groups/"@ + text_of(group.value) + "/tasks/"@
            + text_of(id.value),
        JobInput::Scope { scope } => "/api/v2/scopes/"@ + text_of(scope.value) + "/tasks/"@
            + text_of(id.value),
        JobInput::Policy { .. } => "/api/v2/plan-previews/"@ + text_of(id.value),
    }
}

/// Where the status of a job is read.
pub fn status_url(input: &JobInput, id: Id) -> (url: String)
    ensures
        url@ == status_url_of(*input, id),
{
    let text = id.text();
    match input {
        JobInput::AssetQuery { .. } => join("/api/v2/device-queries/", text.as_str()),
        JobInput::Group { group, .. } => {
            let group = group.text();
            let head = join3("/api/v2/groups/", group.as_str(), "/tasks/");
            join(head.as_str(), text.as_str())
        },
        JobInput::Scope { scope } => {
            let scope = scope.text();
            let head = join3("/api/v2/scopes/", scope.as_str(), "/tasks/");
            join(head.as_str(), text.as_str())
        },
        JobInput::Policy { .. } => join("/api/v2/plan-previews/", text.as_str()),
    }
}

/// A job that was taken on, as the caller is told of it.
#[derive(Debug)]
pub struct Enqueued {
    pub task: Id,
    pub kind: &'static str,
    pub target: String,
    pub status_url: String,
    /// The policy whose latest job this now is, where it plans one.
    pub head: Option<String>,
}

/// Takes on a job.
pub fn enqueue_job(id: Id, input: &JobInput) -> (enqueued: Enqueued)
    ensures
        enqueued.task == id,
        enqueued.kind@ == input.spec_kind(),
        enqueued.target@ == input.spec_target(),
        enqueued.status_url@ == status_url_of(*input, id),
        enqueued.head == (match *input {
            JobInput::Policy { policy, .. } => Some(policy),
            _ => None,
        }),
{
    Enqueued {
        task: id,
        kind: input.kind(),
        target: input.target(),
        status_url: status_url(input, id),
        head: match input {
            JobInput::Policy { policy, .. } => Some(policy.clone()),
            _ => None,
        },
    }
}

/// A job that was not handed on yet.
#[derive(Clone, Copy, Debug, PartialEq, Eq, Structural)]
pub struct Waiting {
    pub id: Id,
    /// Whether the job plans a policy.
    pub plans: bool,
    /// Whether the scope job that it plans on has completed.
    pub resolved: bool,
}

/// The most jobs that are handed on at once.
pub const FORWARDED_JOBS: usize = 64;

/// Whether a job can be handed on: one that plans a policy only once its scope is
/// resolved.
pub open spec fn is_due(job: Waiting) -> bool {
    job.plans ==> job.resolved
}

/// The jobs that are due, in order.
pub open spec fn due_of(jobs: Seq<Waiting>) -> Seq<Id>
    decreases jobs.len(),
{
    if jobs.len() == 0 {
        Seq::empty()
    } else if is_due(jobs.last()) {
        due_of(jobs.drop_last()).push(jobs.last().id)
    } else {
        due_of(jobs.drop_last())
    }
}

/// The jobs that are handed on: the first of those that are due.
pub open spec fn forwarded_of(jobs: Seq<Waiting>) -> Seq<Id> {
    if due_of(jobs).len() <= FORWARDED_JOBS {
        due_of(jobs)
    } else {
        due_of(jobs).take(FORWARDED_JOBS as int)
    }
}

/// The jobs that are due stay due behind others.
proof fn due_is_kept(jobs: Seq<Waiting>, n: int)
    requires
        0 <= n <= jobs.len(),
    ensures
        due_of(jobs.take(n)).len() <= due_of(jobs).len(),
        due_of(jobs).take(due_of(jobs.take(n)).len() as int) == due_of(jobs.take(n)),
    decreases jobs.len() - n,
{
    if n < jobs.len() {
        due_is_kept(jobs, n + 1);
        assert(jobs.take(n + 1).drop_last() =~= jobs.take(n));
        let more = due_of(jobs.take(n + 1));
        let few = due_of(jobs.take(n));
        assert(few =~= more.take(few.len() as int));
        assert(due_of(jobs).take(few.len() as int) =~= due_of(jobs).take(more.len() as int).take(
            few.len() as int,
        ));
    } else {
        assert(jobs.take(n) =~= jobs);
        assert(due_of(jobs).take(due_of(jobs).len() as int) =~= due_of(jobs));
    }
}

/// The jobs that are handed on, of those that were not yet.
pub fn forward_jobs(jobs: &Vec<Waiting>) -> (due: Vec<Id>)
    ensures
        due@ == forwarded_of(jobs@),
{
    let mut due: Vec<Id> = Vec::new();
    let mut i: usize = 0;
    while i < jobs.len() && due.len() < FORWARDED_JOBS
        invariant
            i <= jobs@.len(),
            due@ == due_of(jobs@.take(i as int)),
            due@.len() <= FORWARDED_JOBS,
        decreases jobs@.len() - i,
    {
        assert(jobs@.take(i + 1).drop_last() =~= jobs@.take(i as int));
        if !jobs[i].plans || jobs[i].resolved {
            due.push(jobs[i].id);
        }
        i += 1;
    }
    proof {
        due_is_kept(jobs@, i as int);
        if i == jobs@.len() {
            assert(jobs@.take(i as int) =~= jobs@);
        }
    }
    due
}

/// What is handed on is due: no policy is planned before its scope is resolved.
pub proof fn plans_wait_for_their_scope(jobs: Seq<Waiting>, at: int) -> (from: int)
    requires
        0 <= at < forwarded_of(jobs).len(),
    ensures
        0 <= from < jobs.len(),
        jobs[from].id == forwarded_of(jobs)[at],
        is_due(jobs[from]),
    decreases jobs.len(),
{
    let last = jobs.len() - 1;
    let before = due_of(jobs.drop_last());
    if at < before.len() {
        let from = plans_wait_for_their_scope(jobs.drop_last(), at);
        assert(jobs.drop_last()[from] == jobs[from]);
        from
    } else {
        last
    }
}

/// How a job is recorded to have ended.
#[derive(Debug)]
pub struct Ending {
    pub action: &'static str,
    pub outcome: &'static str,
    pub target: String,
}

/// The name under which the end of a job is recorded.
pub open spec fn ending_action(failure: Option<Seq<char>>) -> Seq<char> {
    match failure {
        None => "automation_completed"@,
        Some(failure) => if failure == "superseded"@ {
            "automation_superseded"@
        } else {
            "automation_failed"@
        },
    }
}

/// Ends a job. `ended` is what the job that this ended is about, where it was not
/// ended before, and `exists` whether there is an ended job. The end of a job is
/// recorded once.
pub fn finish_job(ended: Option<String>, exists: bool, failure: Option<&str>) -> (ending: Result<
    Option<Ending>,
    Error,
>)
    ensures
        match ended {
            Some(target) => ending matches Ok(Some(ending)) && {
                &&& ending.target == target
                &&& ending.action@ == ending_action(
                    match failure {
                        Some(failure) => Some(failure@),
                        None => None,
                    },
                )
                &&& ending.outcome@ == if failure is Some {
                    "failed"@
                } else {
                    "success"@
                }
            },
            None => if exists {
                ending == Ok::<Option<Ending>, Error>(None)
            } else {
                ending == Err::<Option<Ending>, Error>(Error::NotFound)
            },
        },
{
    let target = match ended {
        Some(target) => target,
        None => {
            return if exists {
                Ok(None)
            } else {
                Err(Error::NotFound)
            };
        },
    };
    let action = match failure {
        None => "automation_completed",
        Some(failure) => if same(failure, "superseded") {
            "automation_superseded"
        } else {
            "automation_failed"
        },
    };
    let outcome = if failure.is_some() {
        "failed"
    } else {
        "success"
    };
    Ok(Some(Ending { action, outcome, target }))
}

/// The name of a job denotes that job, and the name of the changes denotes them: no
/// name denotes another's work.
pub proof fn names_denote_their_own_work(id: Id, other: Id)
    ensures
        entity_of(job_entity(id)) == Some(Entity::Job(id)),
        entity_of("changes"@) == Some(Entity::Changes),
        job_entity(id) == job_entity(other) <==> id == other,
{
    reveal_strlit("job:");
    reveal_strlit("changes");
    let name = job_entity(id);
    assert(name[0] == 'j');
    assert("changes"@[0] == 'c');
    assert(name.take(4) =~= "job:"@);
    assert(name.skip(4) =~= text_of(id.value));
    text_denotes_its_identifier(id.value);
    assert(job_entity(other).skip(4) =~= text_of(other.value));
    text_denotes_its_identifier(other.value);
}

/// A job is shown only to one who asks for its kind, and, where a target is named, for
/// what the job is about: the group, the scope, the policy, or the reader of a query.
pub proof fn jobs_are_shown_to_who_asks_for_them(
    job: Job,
    target: Option<Seq<char>>,
    kind: TaskKind,
)
    ensures
        is_asked_for(job, target, kind) <==> {
            &&& kind == TaskKind::AssetQuery <==> job.input is AssetQuery
            &&& kind == TaskKind::Group <==> job.input is Group
            &&& kind == TaskKind::Scope <==> job.input is Scope
            &&& kind == TaskKind::Policy <==> job.input is Policy
            &&& target matches Some(target) ==> match job.input {
                JobInput::AssetQuery { scope, .. } => target == scope.subject@,
                JobInput::Group { group, .. } => target == text_of(group.value),
                JobInput::Scope { scope } => target == text_of(scope.value),
                JobInput::Policy { policy, .. } => target == policy@,
            }
        },
{
}

/// What is missing is named after the kind that was asked for: a group, a scope or a
/// preview, and a query without saying so.
pub proof fn missing_jobs_are_named_by_their_kind(kind: TaskKind)
    ensures
        missing_of(kind) == Error::ManagementNotFound(Missing::Group) <==> kind == TaskKind::Group,
        missing_of(kind) == Error::ManagementNotFound(Missing::Scope) <==> kind == TaskKind::Scope,
        missing_of(kind) == Error::ManagementNotFound(Missing::Preview) <==> kind
            == TaskKind::Policy,
        missing_of(kind) == Error::NotFound <==> kind == TaskKind::AssetQuery,
{
}

/// What a job is said to be: superseded or failed exactly where it has such a failure,
/// and otherwise completed once it is, running once it was handed on, and pending
/// until then.
pub proof fn jobs_are_said_to_be_what_they_are(
    failure: Option<Seq<char>>,
    completed: bool,
    forwarded: bool,
)
    ensures
        status_of(failure, completed, forwarded) == "superseded"@ <==> failure == Some(
            "superseded"@,
        ),
        status_of(failure, completed, forwarded) == "failed"@ <==> (failure matches Some(reason)
            && reason != "superseded"@),
        status_of(failure, completed, forwarded) == "completed"@ <==> failure is None && completed,
        status_of(failure, completed, forwarded) == "running"@ <==> failure is None && !completed
            && forwarded,
        status_of(failure, completed, forwarded) == "pending"@ <==> failure is None && !completed
            && !forwarded,
{
    reveal_strlit("superseded");
    reveal_strlit("failed");
    reveal_strlit("completed");
    reveal_strlit("running");
    reveal_strlit("pending");
    assert("superseded"@[0] == 's' && "failed"@[0] == 'f' && "completed"@[0] == 'c');
    assert("running"@[0] == 'r' && "pending"@[0] == 'p');
}

/// A job that failed shows no progress. Otherwise a group and a scope show the objects
/// that they looked at and the members that they found, and a plan the devices that
/// it is for, those and the facts that it took into account, the policy's revision,
/// and the plan that it came to.
pub proof fn progress_is_shown_as_it_is(view: TaskView, id: Id, job: Job, progress: Progress)
    requires
        shows(view, id, job, progress),
    ensures
        view.task == id,
        view.failure == job.failure,
        job.failure is Some ==> view.processed == 0 && view.members == 0 && view.plan is None
            && view.policy_revision is None,
        job.failure is None ==> {
            &&& progress matches Progress::Group { objects, members } ==> view.processed == objects
                && view.members == members
            &&& progress matches Progress::Scope { objects, members } ==> view.processed == objects
                && view.members == members
            &&& progress matches Progress::Policy { expected_revision, targets, facts, plan } ==> {
                &&& view.members == targets
                &&& view.processed == view.members + facts
                &&& view.policy_revision == Some(expected_revision)
                &&& view.plan is Some <==> plan is Some
            }
        },
{
}

/// Whether the job at a position can be handed on: it plans no policy, or the scope
/// that it plans on is resolved.
pub open spec fn can_be_handed_on(jobs: Seq<Waiting>) -> spec_fn(int) -> bool {
    |i: int| !jobs[i].plans || jobs[i].resolved
}

proof fn due_jobs_are_picked(jobs: Seq<Waiting>) -> (at: Seq<int>)
    ensures
        picks(at, jobs.len() as int, can_be_handed_on(jobs)),
        due_of(jobs).len() == at.len(),
        forall|k: int| 0 <= k < at.len() ==> #[trigger] due_of(jobs)[k] == jobs[at[k]].id,
    decreases jobs.len(),
{
    if jobs.len() == 0 {
        Seq::empty()
    } else {
        let last = jobs.len() - 1;
        let fewer = jobs.drop_last();
        let at = due_jobs_are_picked(fewer);
        let (one, two) = (can_be_handed_on(fewer), can_be_handed_on(jobs));
        assert forall|i: int| 0 <= i < last implies #[trigger] one(i) == two(i) by {
            assert(fewer[i] == jobs[i]);
        }
        alike(at, last as nat, one, two);
        one_more(at, last, two);
        let before = due_of(fewer);
        let all = due_of(jobs);
        assert forall|k: int| 0 <= k < at.len() implies #[trigger] all[k] == before[k] && fewer[at[k]]
            == jobs[at[k]] by {}
        if two(last) {
            at.push(last)
        } else {
            at
        }
    }
}

/// The jobs that are handed on are the first of those that can be, in order and none
/// left out, as many as are handed on at once. The answer is where all those stood
/// that can be handed on.
pub proof fn due_jobs_are_handed_on_in_order(jobs: Seq<Waiting>) -> (at: Seq<int>)
    ensures
        picks(at, jobs.len() as int, can_be_handed_on(jobs)),
        forwarded_of(jobs).len() == (if at.len() <= FORWARDED_JOBS {
            at.len()
        } else {
            FORWARDED_JOBS as nat
        }),
        forall|k: int|
            0 <= k < forwarded_of(jobs).len() ==> #[trigger] forwarded_of(jobs)[k]
                == jobs[at[k]].id,
{
    let at = due_jobs_are_picked(jobs);
    assert forall|k: int| 0 <= k < forwarded_of(jobs).len() implies #[trigger] forwarded_of(jobs)[k]
        == jobs[at[k]].id by {
        assert(forwarded_of(jobs)[k] == due_of(jobs)[k]);
    }
    at
}

/// The end of a job is recorded for what it was.
pub proof fn endings_are_told_apart(failure: Option<Seq<char>>)
    ensures
        ending_action(failure) == "automation_completed"@ <==> failure is None,
        ending_action(failure) == "automation_superseded"@ <==> failure == Some("superseded"@),
        ending_action(failure) == "automation_failed"@ <==> (failure matches Some(reason) && reason
            != "superseded"@),
{
    reveal_strlit("automation_completed");
    reveal_strlit("automation_superseded");
    reveal_strlit("automation_failed");
    assert("automation_completed"@[11] == 'c' && "automation_superseded"@[11] == 's');
    assert("automation_failed"@[11] == 'f');
}

/// The status of a job is read at an address of its own: under its group or its scope
/// where it has one, and by its own name in any case.
pub proof fn status_addresses_end_with_the_job(input: JobInput, id: Id)
    ensures
        status_url_of(input, id).len() >= text_of(id.value).len(),
        status_url_of(input, id).skip(
            status_url_of(input, id).len() - text_of(id.value).len(),
        ) == text_of(id.value),
        input is Group ==> "/api/v2/groups/"@.is_prefix_of(status_url_of(input, id)),
        input is Scope ==> "/api/v2/scopes/"@.is_prefix_of(status_url_of(input, id)),
        input is AssetQuery ==> "/api/v2/device-queries/"@.is_prefix_of(status_url_of(input, id)),
        input is Policy ==> "/api/v2/plan-previews/"@.is_prefix_of(status_url_of(input, id)),
        input matches JobInput::Group { group, .. } ==> status_url_of(input, id).skip(15).take(
            text_of(group.value).len() as int,
        ) == text_of(group.value),
        input matches JobInput::Scope { scope } ==> status_url_of(input, id).skip(15).take(
            text_of(scope.value).len() as int,
        ) == text_of(scope.value),
{
    reveal_strlit("/api/v2/groups/");
    reveal_strlit("/api/v2/scopes/");
    reveal_strlit("/api/v2/device-queries/");
    reveal_strlit("/api/v2/plan-previews/");
    let url = status_url_of(input, id);
    match input {
        JobInput::AssetQuery { .. } => {
            let head = "/api/v2/device-queries/"@;
            assert(url.subrange(0, head.len() as int) =~= head);
        },
        JobInput::Policy { .. } => {
            let head = "/api/v2/plan-previews/"@;
            assert(url.subrange(0, head.len() as int) =~= head);
        },
        JobInput::Group { .. } => {
            assert(url.subrange(0, 15) =~= "/api/v2/groups/"@);
        },
        JobInput::Scope { .. } => {
            assert(url.subrange(0, 15) =~= "/api/v2/scopes/"@);
        },
    }
    assert(url.skip(url.len() - text_of(id.value).len()) =~= text_of(id.value));
    match input {
        JobInput::Group { group, .. } => {
            assert(url.skip(15).take(text_of(group.value).len() as int) =~= text_of(group.value));
        },
        JobInput::Scope { scope } => {
            assert(url.skip(15).take(text_of(scope.value).len() as int) =~= text_of(scope.value));
        },
        _ => {},
    }
}

} // verus!
