use rss_mdm::error::{Error, Failure};
use rss_mdm::id::Id;
use rss_mdm::management::assets::model::{Criteria, Operator};
use rss_mdm::management::automation::capture::{admit_capture, document, fingerprint};
use rss_mdm::management::automation::completion::{
    finish, ingress_is_recorded, ingress_ready, suspended, Completion, Record,
};
use rss_mdm::management::automation::dispatch::{
    affected, asset_work_pending, dispatch_assets, dispatch_devices, dispatch_group,
    dispatch_groups, merge_groups, Change, Dispatched, Phase,
};
use rss_mdm::management::automation::groups::{
    acknowledged, advance_group_job, append_group_input, follow_published, group_covers,
    input_version, next_authority, propagate_group, register_group_inputs,
    retry_superseded_group, start_group_job, watermark, Build, Built, GroupKind, GroupStart,
    GroupStep, LockedGroup,
};
use rss_mdm::management::automation::jobs::{
    enqueue_job, entity, finish_job, forward_jobs, job_target, missing, task_read, Entity, Job,
    Progress, Waiting,
};
use rss_mdm::management::automation::plans::{
    admit_planning, advance_policy_job, begin_candidate, next_targets, save_ready_candidate,
    start_policy_preview, CandidatePhase, CandidateState, PlanStep, Resolution,
};
use rss_mdm::management::automation::runtime::{
    apply, bridge_delay, observe, observed, reconcile_error, settle_work, terminal, work,
    ErrorKind, Follow, Work,
};
use rss_mdm::management::automation::scopes::{
    admit_evaluation, admit_members, advance_scope_job, after_evaluation, after_source,
    capture_device, capture_group, cut_targets, evaluate_scope_page, evaluation_limit, hits,
    memberships, propagate_scope, publish_scope, references, source_devices,
    targets, AssignedPolicy, AssignmentReference, DeviceFinding, GroupFinding, Hit, Membership,
    ScopeStep, SourceDevices,
};
use rss_mdm::management::automation::{
    device_reference, JobInput, ScopeInput, SourceSet, TaskKind,
};
use rss_mdm::management::model::{Missing, Reference, ScopeDefinition};
use rss_mdm::management::pages::scope::{admit_decision, Identity, Reason};
use rss_mdm::management::request::{GroupRejection, Settlement};
use rss_mdm::set::OrderedSet;
use sha2::Digest;

const STORAGE: Error = Error::Unavailable(Failure::ManagementStorage);

fn id(value: u128) -> Id {
    Id { value }
}

fn text(value: u128) -> String {
    id(value).text()
}

fn digest(bytes: &[u8]) -> String {
    sha2::Sha256::digest(bytes).iter().map(|byte| format!("{byte:02x}")).collect()
}

#[test]
fn devices_are_referred_to_by_digest() {
    assert_eq!(device_reference("设备"), format!("device.{}", digest("设备".as_bytes())));
}

#[test]
fn entities_denote_changes_and_jobs() {
    assert_eq!(job_target(id(5)), format!("job:{}", text(5)));
    assert_eq!(entity(&job_target(id(5))), Some(Entity::Job(id(5))));
    assert_eq!(entity("changes"), Some(Entity::Changes));
    for name in ["", "job:", "job:x", "changes ", "jobs"] {
        assert_eq!(entity(name), None);
    }
    assert_eq!(observe("changes"), Ok(Entity::Changes));
    assert_eq!(observe("x"), Err(Error::Malformed));
}

fn job(input: JobInput, completed: bool, failure: Option<&str>) -> Job {
    Job {
        input,
        completed,
        failure: failure.map(str::to_string),
        cursor: None,
        forwarded: true,
    }
}

fn policy_input() -> JobInput {
    JobInput::Policy {
        policy: "p".into(),
        scope: id(1),
        resolution: id(2),
        assignment_revision: None,
        expected_revision: 3,
        as_of: 4,
    }
}

fn group_input(publish: bool, automatic: bool) -> JobInput {
    JobInput::Group { group: id(1), watermark: 10, publish, automatic }
}

#[test]
fn tasks_are_shown_by_kind_and_target() {
    let progress = || Progress::Policy {
        expected_revision: 3,
        targets: 4,
        facts: 5,
        plan: Some([0xaa; 32]),
    };
    let shown = task_read(
        id(9),
        Some(job(policy_input(), true, None)),
        Some("p"),
        TaskKind::Policy,
        progress(),
    )
    .unwrap();
    assert_eq!((shown.kind, shown.target.as_str(), shown.status), ("policy", "p", "completed"));
    assert_eq!((shown.processed, shown.members, shown.policy_revision), (9, 4, Some(3)));
    assert_eq!(shown.plan, Some("aa".repeat(32)));
    let failed = task_read(
        id(9),
        Some(job(policy_input(), true, Some("capacity_exceeded"))),
        None,
        TaskKind::Policy,
        progress(),
    )
    .unwrap();
    assert_eq!((failed.status, failed.processed, failed.plan), ("failed", 0, None));
    let replaced = task_read(
        id(9),
        Some(job(group_input(true, true), true, Some("superseded"))),
        None,
        TaskKind::Group,
        Progress::Group { objects: 2, members: 1 },
    )
    .unwrap();
    assert_eq!((replaced.kind, replaced.status), ("group", "superseded"));
    let running = task_read(
        id(9),
        Some(job(group_input(false, false), false, None)),
        Some(&text(1)),
        TaskKind::Group,
        Progress::Group { objects: 2, members: 1 },
    )
    .unwrap();
    assert_eq!((running.kind, running.status), ("group_preview", "running"));
    assert_eq!((running.processed, running.members), (2, 1));
    for (kind, error) in [
        (TaskKind::Group, Error::ManagementNotFound(Missing::Group)),
        (TaskKind::Scope, Error::ManagementNotFound(Missing::Scope)),
        (TaskKind::Policy, Error::ManagementNotFound(Missing::Preview)),
        (TaskKind::AssetQuery, Error::NotFound),
    ] {
        assert_eq!(missing(kind), error);
        assert_eq!(task_read(id(9), None, None, kind, Progress::Unknown).unwrap_err(), error);
    }
    assert!(task_read(
        id(9),
        Some(job(policy_input(), true, None)),
        Some("q"),
        TaskKind::Policy,
        Progress::Unknown
    )
    .is_err());
    assert!(task_read(
        id(9),
        Some(job(policy_input(), true, None)),
        None,
        TaskKind::Scope,
        Progress::Unknown
    )
    .is_err());
}

#[test]
fn enqueued_jobs_tell_where_their_status_is() {
    let enqueued = enqueue_job(id(9), &policy_input());
    assert_eq!(enqueued.status_url, format!("/api/v2/plan-previews/{}", text(9)));
    assert_eq!(enqueued.head.as_deref(), Some("p"));
    let enqueued = enqueue_job(id(9), &group_input(true, false));
    assert_eq!(
        enqueued.status_url,
        format!("/api/v2/groups/{}/tasks/{}", text(1), text(9))
    );
    assert_eq!(enqueued.head, None);
    let enqueued = enqueue_job(id(9), &JobInput::Scope { scope: id(2) });
    assert_eq!(
        enqueued.status_url,
        format!("/api/v2/scopes/{}/tasks/{}", text(2), text(9))
    );
}

#[test]
fn policies_wait_for_their_scope() {
    let waiting = |value: u128, plans: bool, resolved: bool| Waiting {
        id: id(value),
        plans,
        resolved,
    };
    let due = forward_jobs(&vec![
        waiting(1, false, false),
        waiting(2, true, false),
        waiting(3, true, true),
    ]);
    assert_eq!(due, [id(1), id(3)]);
    let many: Vec<Waiting> = (0..100).map(|value| waiting(value, false, false)).collect();
    assert_eq!(forward_jobs(&many).len(), 64);
}

#[test]
fn the_end_of_a_job_is_recorded_once() {
    let ending = finish_job(Some("t".into()), false, None).unwrap().unwrap();
    assert_eq!((ending.action, ending.outcome), ("automation_completed", "success"));
    let ending = finish_job(Some("t".into()), false, Some("superseded")).unwrap().unwrap();
    assert_eq!((ending.action, ending.outcome), ("automation_superseded", "failed"));
    let ending = finish_job(Some("t".into()), false, Some("invalid_input")).unwrap().unwrap();
    assert_eq!((ending.action, ending.outcome), ("automation_failed", "failed"));
    assert!(finish_job(None, true, None).unwrap().is_none());
    assert_eq!(finish_job(None, false, None).unwrap_err(), Error::NotFound);
}

#[test]
fn attempts_follow_their_transaction() {
    let name = job_target(id(5));
    let rolled = |error: Error| apply(&name, Settlement::RolledBack, Some(error));
    assert!(matches!(apply(&name, Settlement::Committed(()), None), Follow::Done));
    assert!(matches!(
        apply(&name, Settlement::CommitUnknown, Some(Error::Conflict)),
        Follow::Fail(ErrorKind::CommitUnknown)
    ));
    assert!(matches!(
        apply(&name, Settlement::NotStarted, None),
        Follow::Fail(ErrorKind::Transient)
    ));
    for (error, expected, again) in [
        (Error::Conflict, "superseded", true),
        (Error::Unavailable(Failure::AssetObjectLimit), "capacity_exceeded", false),
        (Error::Unavailable(Failure::AssetBytesLimit), "capacity_exceeded", false),
        (Error::NotFound, "source_unavailable", false),
        (Error::ManagementNotFound(Missing::Group), "source_unavailable", false),
        (Error::Malformed, "invalid_input", false),
    ] {
        match rolled(error) {
            Follow::End { id: ended, reason, restart } => {
                assert_eq!((ended, reason, restart), (id(5), expected, again))
            }
            other => panic!("{other:?}"),
        }
        assert_eq!(terminal(error), Some(expected));
    }
    assert!(matches!(rolled(STORAGE), Follow::Fail(ErrorKind::Transient)));
    assert!(matches!(
        apply(&name, Settlement::RolledBack, None),
        Follow::Fail(ErrorKind::Transient)
    ));
    assert!(matches!(
        apply("changes", Settlement::RolledBack, Some(Error::Malformed)),
        Follow::Fail(ErrorKind::Transient)
    ));
    assert_eq!(reconcile_error(Error::Conflict), ErrorKind::Fenced);
    assert_eq!(observed(Settlement::Committed(true), None), Ok(true));
    assert_eq!(
        observed(Settlement::RolledBack, Some(Error::Conflict)),
        Err(ErrorKind::Fenced)
    );
    assert_eq!(settle_work(Settlement::Committed(())), Ok(()));
    assert_eq!(settle_work(Settlement::RollbackUnknown), Err(ErrorKind::CommitUnknown));
    assert_eq!(settle_work(Settlement::RolledBack), Err(ErrorKind::Transient));
    assert_eq!((bridge_delay(true), bridge_delay(false)), (1000, 50));
}

#[test]
fn work_is_chosen_by_entity_and_job() {
    let entity = Entity::Job(id(5));
    assert_eq!(work(Entity::Changes, &None), Ok(Work::Dispatch));
    assert_eq!(work(entity, &None), Err(Error::NotFound));
    assert_eq!(work(entity, &Some(job(policy_input(), true, None))), Ok(Work::Nothing));
    assert_eq!(
        work(entity, &Some(job(policy_input(), false, None))),
        Ok(Work::Policy(id(5)))
    );
    assert_eq!(
        work(entity, &Some(job(group_input(true, true), false, None))),
        Ok(Work::Group(id(5)))
    );
}

#[test]
fn work_that_is_given_up_is_recorded() {
    let given_up = Completion::Suspended { failures: 1000 };
    assert_eq!(finish(given_up, &job_target(id(5))), Ok(Record::FailJob(id(5))));
    assert_eq!(finish(given_up, "changes"), Ok(Record::FailIngress));
    assert_eq!(finish(given_up, "x"), Err(ErrorKind::Invariant));
    assert_eq!(finish(Completion::Converged, "changes"), Ok(Record::ClearIngress));
    assert_eq!(finish(Completion::Converged, &job_target(id(5))), Ok(Record::Nothing));
    assert_eq!(finish(Completion::Retry, "x"), Ok(Record::Nothing));
    assert_eq!(suspended(), "automation_suspended");
    assert!(ingress_is_recorded(1) && !ingress_is_recorded(0));
    assert!(ingress_ready(Some(true)) && !ingress_ready(Some(false)) && !ingress_ready(None));
}

fn state(consumed: i64, watermark: i64, cursor: Option<Id>, phase: Phase) -> Dispatched {
    Dispatched { consumed, watermark, cursor, phase }
}

#[test]
fn a_batch_is_dispatched_to_groups_then_to_scopes() {
    assert!(asset_work_pending(Some(1), None));
    assert!(!asset_work_pending(Some(1), Some(1)));
    assert!(!asset_work_pending(None, None));
    let idle = state(5, 5, None, Phase::Groups);
    assert_eq!(dispatch_assets(idle, 5), None);
    let batch = dispatch_assets(state(5, 5, Some(id(1)), Phase::Devices), 9).unwrap();
    assert_eq!(batch, state(5, 9, None, Phase::Groups));
    assert_eq!(dispatch_assets(batch, 20), Some(batch));
    let mut groups: OrderedSet<Id> = OrderedSet::new();
    for value in (1..=33).rev() {
        groups.insert(id(value));
    }
    let (now, next) = dispatch_groups(batch, &groups);
    assert_eq!((now.len(), now[0], now[31]), (32, id(1), id(32)));
    assert_eq!(next, state(5, 9, Some(id(32)), Phase::Groups));
    let mut rest: OrderedSet<Id> = OrderedSet::new();
    rest.insert(id(33));
    let (now, next) = dispatch_groups(next, &rest);
    assert_eq!(now, [id(33)]);
    assert_eq!(next, state(5, 9, None, Phase::Devices));
    let scopes: Vec<Id> = (1..=33).map(id).collect();
    let (jobs, next) = dispatch_devices(next, &scopes);
    assert_eq!(jobs.len(), 32);
    assert_eq!(next, state(5, 9, Some(id(32)), Phase::Devices));
    let (jobs, next) = dispatch_devices(next, &vec![id(33)]);
    assert!(matches!(jobs[0], JobInput::Scope { scope } if scope == id(33)));
    assert_eq!(next, state(9, 9, None, Phase::Groups));
    assert_eq!(Phase::named(Phase::Groups.name()), Phase::Groups);
    assert_eq!(Phase::named(Phase::Devices.name()), Phase::Devices);
}

#[test]
fn changes_are_about_devices_and_fields() {
    let change = |kind: &str, device: &str, fields: &[&str]| Change {
        kind: kind.into(),
        device: device.into(),
        fields: fields.iter().map(|field| field.to_string()).collect(),
    };
    let found = affected(&vec![
        change("facts", "a", &["os", "model"]),
        change("credential", "b", &["os"]),
    ])
    .unwrap();
    assert_eq!(found.devices.items, ["b"]);
    assert_eq!(found.fields.items, ["model", "os"]);
    assert!(found.authority);
    let found = affected(&vec![change("facts", "a", &[])]).unwrap();
    assert!(found.devices.items.is_empty() && !found.authority);
    let many: Vec<Change> = (0..1001).map(|_| change("facts", "a", &[])).collect();
    assert_eq!(affected(&many).unwrap_err(), STORAGE);
    let merged = merge_groups(&vec![id(3), id(1)], &vec![id(2), id(3)]);
    assert_eq!(merged.items, [id(1), id(2), id(3)]);
}

fn locked(kind: GroupKind) -> LockedGroup {
    LockedGroup { kind, revision: 7, rule_version: Some(2), member_version: 4 }
}

#[test]
fn affected_groups_are_computed_where_that_is_needed() {
    let start = dispatch_group(id(1), Ok(locked(GroupKind::Static)), false, false, id(8), 50)
        .unwrap()
        .unwrap();
    assert_eq!((start.id, start.task, start.expected, start.at), (id(1), id(8), 7, 50));
    assert!(start.publish && start.automatic);
    assert!(start.patch.unwrap().add.is_empty());
    let start = dispatch_group(id(1), Ok(locked(GroupKind::Dynamic)), false, false, id(8), 50)
        .unwrap()
        .unwrap();
    assert!(start.patch.is_none());
    for (lock, covered, pending) in [
        (Ok(locked(GroupKind::Static)), true, false),
        (Ok(locked(GroupKind::Static)), false, true),
        (Err(GroupRejection::NotFound), false, false),
        (Err(GroupRejection::Deleted), false, false),
    ] {
        assert!(dispatch_group(id(1), lock, covered, pending, id(8), 50).unwrap().is_none());
    }
    assert_eq!(
        dispatch_group(id(1), Err(GroupRejection::Other), false, false, id(8), 50).unwrap_err(),
        Error::Conflict
    );
}

fn start(publish: bool, automatic: bool, expected: u64) -> GroupStart {
    GroupStart { id: id(1), task: id(8), expected, patch: None, publish, automatic, at: 50 }
}

#[test]
fn a_group_job_begins_for_a_reason() {
    let members = || Some((vec!["a".to_string()], vec!["b".to_string()]));
    let asked = GroupStart::asked(id(1), id(8), 7, members(), 50);
    let patch = asked.patch.unwrap();
    assert_eq!((patch.add, patch.remove), members().unwrap());
    assert!(asked.publish && !asked.automatic);
    assert!(GroupStart::asked(id(1), id(8), 7, None, 50).patch.is_none());
    let shown = GroupStart::preview(id(1), id(8), 7, 50);
    assert!(!shown.publish && !shown.automatic && shown.patch.is_none());
    let ruled = GroupStart::follow_rule(id(1), id(8), 7, 50);
    assert!(ruled.publish && ruled.automatic && ruled.patch.is_none());
    for start in [&shown, &ruled] {
        assert_eq!((start.id, start.task, start.expected, start.at), (id(1), id(8), 7, 50));
    }
}

#[test]
fn a_published_group_acknowledges_what_it_was_computed_from() {
    assert_eq!(acknowledged(id(1), 12), (format!("group-members.{}", text(1)), 12));
    let (_, old) = acknowledged(id(1), 12);
    let (_, new) = acknowledged(id(1), 13);
    assert!(old < new);
}

#[test]
fn a_group_job_names_its_input() {
    let begun =
        start_group_job(start(true, true, 7), Ok(locked(GroupKind::Dynamic)), 12).unwrap();
    assert_eq!(begun.request.input_version, "assets:12");
    assert_eq!(begun.request.rule_version, Some(2));
    assert_eq!(begun.required, Some((format!("group-members.{}", text(1)), 12)));
    assert!(matches!(
        begun.input,
        JobInput::Group { watermark: 12, publish: true, automatic: true, .. }
    ));
    let preview =
        start_group_job(start(false, false, 7), Ok(locked(GroupKind::Dynamic)), 12).unwrap();
    assert_eq!(preview.required, None);
    assert_eq!(
        start_group_job(start(true, true, 6), Ok(locked(GroupKind::Dynamic)), 12).unwrap_err(),
        Error::Conflict
    );
    assert_eq!(
        start_group_job(start(true, true, 7), Err(GroupRejection::Deleted), 12).unwrap_err(),
        Error::ManagementNotFound(Missing::Group)
    );
    for mark in [0, 12, -1, i64::MAX, i64::MIN] {
        assert_eq!(watermark(&input_version(mark)), Some(mark));
    }
    assert_eq!(watermark("assets:"), None);
    assert_eq!(watermark("12"), None);
}

#[test]
fn a_superseded_group_job_is_replaced_where_nothing_covers_it() {
    let built = |version: &str, rule_version: i64| {
        Some(Built { input_version: version.into(), rule_version: Some(rule_version) })
    };
    let dynamic = locked(GroupKind::Dynamic);
    assert_eq!(group_covers(&built("assets:10", 2), dynamic, 10), Ok(true));
    assert_eq!(group_covers(&built("assets:9", 2), dynamic, 10), Ok(false));
    assert_eq!(group_covers(&built("assets:10", 1), dynamic, 10), Ok(false));
    assert_eq!(group_covers(&None, dynamic, 10), Ok(false));
    assert_eq!(group_covers(&built("x", 2), dynamic, 10), Err(STORAGE));
    let retry = |input: &JobInput, lock, built: &Option<Built>, exists: bool| {
        retry_superseded_group(input, lock, built, exists, id(8), 50)
    };
    let automatic = group_input(true, true);
    let started = retry(&automatic, Ok(dynamic), &built("assets:9", 2), false).unwrap().unwrap();
    assert_eq!((started.id, started.expected), (id(1), 7));
    assert!(retry(&automatic, Ok(dynamic), &built("assets:10", 2), false).unwrap().is_none());
    assert!(retry(&automatic, Ok(dynamic), &None, true).unwrap().is_none());
    assert!(retry(&group_input(true, false), Ok(dynamic), &None, false).unwrap().is_none());
    assert!(retry(&policy_input(), Ok(dynamic), &None, false).unwrap().is_none());
    assert!(retry(&automatic, Err(GroupRejection::Deleted), &None, false).unwrap().is_none());
    assert_eq!(
        retry(&automatic, Err(GroupRejection::Other), &None, false).unwrap_err(),
        Error::Conflict
    );
}

#[test]
fn a_group_is_built_step_by_step() {
    let build = |published: bool, sealed: bool, ready: bool, patched: bool| Build {
        published,
        sealed,
        ready,
        patched,
    };
    for (state, publish, step) in [
        (build(false, false, false, true), true, GroupStep::AppendListed),
        (build(false, false, false, false), true, GroupStep::AppendAssets),
        (build(false, true, false, false), true, GroupStep::Difference),
        (build(false, true, true, false), true, GroupStep::Publish),
        (build(false, true, true, false), false, GroupStep::Finish),
        (build(true, true, true, false), true, GroupStep::Propagate),
    ] {
        assert_eq!(advance_group_job(state, publish), step);
    }
    let appended = append_group_input(10, 5, true, 15).unwrap();
    assert_eq!((appended.append, appended.seal), (true, Some(15)));
    let appended = append_group_input(10, 0, false, 15).unwrap();
    assert_eq!((appended.append, appended.seal), (false, None));
    assert_eq!(
        append_group_input(10, 6, true, 15).unwrap_err(),
        Error::Unavailable(Failure::AssetObjectLimit)
    );
    assert_eq!(next_authority(Some(5), 3), Ok(5));
    assert_eq!(next_authority(Some(5), 9), Ok(9));
    assert_eq!(next_authority(None, 9), Err(Error::Conflict));
    let again = follow_published(id(1), true, true, true, 8, id(9), 50).unwrap();
    assert_eq!((again.expected, again.patch.is_some()), (8, true));
    assert!(follow_published(id(1), true, false, true, 8, id(9), 50).is_none());
    assert!(follow_published(id(1), false, true, true, 8, id(9), 50).is_none());
    let scopes: Vec<Id> = (1..=65).map(id).collect();
    let (jobs, next) = propagate_group(&scopes);
    assert_eq!((jobs.len(), next), (64, Some(id(64))));
    let (jobs, next) = propagate_group(&vec![id(1)]);
    assert_eq!((jobs.len(), next), (1, None));
}

#[test]
fn a_rule_registers_the_fields_it_mentions() {
    let predicate = |field: &str| Criteria::Predicate {
        field: field.into(),
        op: Operator::IsNull,
        value: None,
        values: None,
    };
    let rule = Criteria::And {
        children: vec![
            predicate("b"),
            Criteria::Or { children: vec![predicate("a"), predicate("b")] },
        ],
    };
    let inputs = register_group_inputs(id(1), 4, Some(&rule), false);
    assert_eq!(inputs.fields.items, ["a", "b"]);
    assert_eq!(inputs.definition, (format!("group-definition.{}", text(1)), 4));
    assert_eq!(
        inputs.begin,
        Some((format!("group-members.{}", text(1)), format!("group-authority.{}", text(1))))
    );
    let inputs = register_group_inputs(id(1), 4, None, true);
    assert!(inputs.fields.items.is_empty() && inputs.begin.is_none());
}

fn source(reference: Reference, member_set: Option<Id>) -> SourceSet {
    SourceSet {
        reference,
        member_set,
        member_version: 4,
        definition_version: 2,
        authority_version: 0,
    }
}

fn set(items: Vec<Reference>) -> OrderedSet<Reference> {
    let mut kept: OrderedSet<Reference> = OrderedSet::new();
    for item in items {
        kept.insert(item);
    }
    kept
}

fn device(name: &str) -> Reference {
    Reference::Device(name.into())
}

fn captured() -> ScopeInput {
    ScopeInput {
        definition: ScopeDefinition {
            targets: set(vec![device("a"), Reference::Group(id(1))]),
            limitations: None,
            exclusions: set(vec![device("b")]),
        },
        sources: vec![
            source(device("a"), None),
            source(device("b"), None),
            source(Reference::Group(id(1)), Some(id(6))),
        ],
        as_of: 10,
    }
}

#[test]
fn a_scope_refers_to_everything_it_was_computed_from() {
    let names: Vec<(String, u64)> = references(id(3), 9, &captured())
        .into_iter()
        .map(|reference| (reference.id, reference.revision))
        .collect();
    assert_eq!(
        names,
        [
            (format!("scope-definition.{}", text(3)), 9),
            (device_reference("a"), 0),
            (device_reference("b"), 0),
            (format!("group-definition.{}", text(1)), 2),
            (format!("group-members.{}", text(1)), 4),
            (format!("group-authority.{}", text(1)), 0),
        ]
    );
    let resolution = Resolution {
        phase: "published".into(),
        current: true,
        definition_revision: 9,
        resolution_revision: 11,
    };
    let request =
        begin_candidate(id(8), &"p".to_string(), id(3), 5, 60, &resolution, &captured());
    assert_eq!(request.references.len(), 7);
    assert_eq!(request.references[6].id, format!("scope-resolution.{}", text(3)));
    assert_eq!(request.references[6].revision, 11);
    assert_eq!((request.targets, request.target_revision), (text(3), 11));
}

#[test]
fn a_captured_scope_is_read_back_unchanged() {
    let written = document(9, &captured());
    assert_eq!(
        written,
        "[9,{\"targets\":[{\"kind\":\"device\",\"id\":\"a\"},{\"kind\":\"group\",\"id\":\
         \"00000000-0000-0000-0000-000000000001\"}],\"limitations\":null,\"exclusions\":\
         [{\"kind\":\"device\",\"id\":\"b\"}]},[[{\"kind\":\"device\",\"id\":\"a\"},4,2,0],\
         [{\"kind\":\"device\",\"id\":\"b\"},4,2,0],[{\"kind\":\"group\",\"id\":\
         \"00000000-0000-0000-0000-000000000001\"},4,2,0]]]"
    );
    let stored = fingerprint(9, &captured()).to_vec();
    assert_eq!(stored, sha2::Sha256::digest(written.as_bytes()).to_vec());
    assert_eq!(admit_capture(9, &captured(), &stored), Ok(()));
    assert_eq!(admit_capture(8, &captured(), &stored), Err(STORAGE));
    let mut same = captured();
    same.as_of = 11;
    same.sources[2].member_set = None;
    assert_eq!(fingerprint(9, &same).to_vec(), stored);
    let mut others: Vec<ScopeInput> = (0..7).map(|_| captured()).collect();
    others[0].sources[0].member_version += 1;
    others[1].sources[0].definition_version += 1;
    others[2].sources[0].authority_version += 1;
    others[3].sources.swap(0, 1);
    others[4].definition.limitations = Some(set(vec![]));
    others[5].definition.exclusions = set(vec![]);
    others[6].sources.pop();
    for other in &others {
        assert_ne!(fingerprint(9, other).to_vec(), stored);
    }
    others[4].definition.limitations = Some(set(vec![device("x\"")]));
    assert!(document(9, &others[4]).contains("\"limitations\":[{\"kind\":\"device\",\"id\":\"x\\\"\"}]"));
    let finding = |kind: GroupKind, member_set: Option<Id>, built_rule: Option<i64>| GroupFinding {
        lock: Ok(locked(kind)),
        member_set,
        built_rule,
        definition: Some(2),
        authority: Some(3),
    };
    let found = capture_group(id(1), finding(GroupKind::Dynamic, Some(id(6)), Some(2))).unwrap();
    assert_eq!(
        (found.member_set, found.member_version, found.definition_version, found.authority_version),
        (Some(id(6)), 4, 2, 3)
    );
    assert!(capture_group(id(1), finding(GroupKind::Static, None, None)).is_ok());
    assert_eq!(
        capture_group(id(1), finding(GroupKind::Dynamic, None, Some(2))).unwrap_err(),
        STORAGE
    );
    assert_eq!(
        capture_group(id(1), finding(GroupKind::Dynamic, Some(id(6)), Some(1))).unwrap_err(),
        STORAGE
    );
    let mut unknown = finding(GroupKind::Static, None, None);
    unknown.authority = None;
    assert_eq!(capture_group(id(1), unknown).unwrap_err(), Error::Conflict);
    let (source, name) = capture_device(&"a".to_string(), 12);
    assert_eq!((source.authority_version, name), (12, device_reference("a")));
}

#[test]
fn a_scope_is_resolved_phase_by_phase() {
    for (phase, step) in [
        (None, ScopeStep::Capture),
        (Some("sources"), ScopeStep::Sources),
        (Some("evaluate"), ScopeStep::Evaluate),
        (Some("ready"), ScopeStep::Publish),
        (Some("published"), ScopeStep::Propagate),
        (Some("superseded"), ScopeStep::Supersede),
    ] {
        assert_eq!(advance_scope_job(phase), Ok(step));
    }
    assert_eq!(advance_scope_job(Some("other")), Err(STORAGE));
    let sources = captured().sources;
    match source_devices(&sources, 0, false) {
        Ok(SourceDevices::Known(devices)) => assert_eq!(devices, ["a"]),
        other => panic!("{other:?}"),
    }
    match source_devices(&sources, 0, true) {
        Ok(SourceDevices::Known(devices)) => assert!(devices.is_empty()),
        other => panic!("{other:?}"),
    }
    assert!(matches!(
        source_devices(&sources, 2, false),
        Ok(SourceDevices::Members(run)) if run == id(6)
    ));
    assert!(matches!(source_devices(&sources, 3, false), Ok(SourceDevices::Complete)));
    assert_eq!(source_devices(&sources, 4, false).unwrap_err(), STORAGE);
    assert_eq!(admit_members(id(1), 4, Some((id(1), 4))), Ok(()));
    for receipt in [None, Some((id(2), 4)), Some((id(1), 5))] {
        assert_eq!(admit_members(id(1), 4, receipt), Err(STORAGE));
    }
    let full: Vec<String> = (0..1000).map(|n| format!("d{n:04}")).collect();
    assert_eq!(after_source(2, &full), (2, Some("d0999".to_string())));
    assert_eq!(after_source(2, &vec!["a".to_string()]), (3, None));
    assert_eq!((after_evaluation(true), after_evaluation(false)), ("evaluate", "ready"));
}

#[test]
fn devices_are_evaluated_against_the_sources_that_name_them() {
    let input = captured();
    assert_eq!(targets(&input), [0, 2]);
    let names = || vec!["a".to_string(), "b".to_string()];
    assert_eq!(cut_targets(names(), 1), (vec!["a".to_string()], true));
    assert_eq!(cut_targets(names(), 2), (names(), false));
    assert_eq!(cut_targets(names(), 0), (vec![], true));
    assert_eq!(evaluation_limit(0), 1000);
    assert_eq!(evaluation_limit(16), 1000);
    assert_eq!(evaluation_limit(17), 941);
    assert_eq!(evaluation_limit(1000), 16);
    assert_eq!(admit_evaluation(999_000, 1000), Ok(()));
    assert_eq!(
        admit_evaluation(999_001, 1000),
        Err(Error::Unavailable(Failure::AssetObjectLimit))
    );
    let rows = vec![
        Hit { device: "a".into(), source: 2 },
        Hit { device: "b".into(), source: 1 },
        Hit { device: "a".into(), source: 0 },
    ];
    let found = hits(&rows, "a");
    assert_eq!(found.items, [0, 2]);
    assert_eq!(
        memberships(&input.sources, &input.definition.targets, &found),
        [
            Membership { source: 0, version: 1, contains: true },
            Membership { source: 2, version: 5, contains: true }
        ]
    );
    assert_eq!(
        memberships(&input.sources, &input.definition.exclusions, &found),
        [Membership { source: 1, version: 1, contains: false }]
    );
}

#[test]
fn a_scope_reaches_registered_devices_without_a_reason_against_them() {
    let finding = |name: &str, reasons: Vec<Reason>, live: bool| DeviceFinding {
        device: name.into(),
        sources: vec![0],
        reasons: Some(reasons),
        live,
    };
    let page = evaluate_scope_page(vec![
        finding("a", vec![], true),
        finding("b", vec![Reason::ExplicitExclusion], true),
        finding("c", vec![], false),
    ])
    .unwrap();
    assert_eq!(page.matched, [true, false, false]);
    assert_eq!(page.members, 1);
    assert_eq!(page.decisions[1].reasons, [Reason::ExplicitExclusion]);
    assert_eq!(page.decisions[2].identity, Identity::Inactive);
    assert_eq!(admit_decision(&page.decisions[0], "a", 1), Ok(()));
    let mut lost = finding("a", vec![], true);
    lost.sources = vec![];
    assert_eq!(evaluate_scope_page(vec![lost]).unwrap_err(), STORAGE);
    let mut undecided = finding("a", vec![], true);
    undecided.reasons = None;
    assert_eq!(evaluate_scope_page(vec![undecided]).unwrap_err(), STORAGE);
}

#[test]
fn a_scope_is_published_while_it_is_current() {
    let known = || vec![AssignmentReference { id: "x".into(), revision: 2 }];
    assert_eq!(publish_scope(3, 3, true, &known(), &vec![Some(2)], false), Ok(true));
    assert_eq!(publish_scope(3, 3, true, &known(), &vec![Some(2)], true), Ok(false));
    for (current, authority, found) in [
        (4, true, Some(2)),
        (3, false, Some(2)),
        (3, true, Some(3)),
        (3, true, None),
    ] {
        assert_eq!(
            publish_scope(current, 3, authority, &known(), &vec![found], false),
            Err(Error::Conflict)
        );
    }
    let row = |name: &str, storage_revision: Option<u64>| AssignedPolicy {
        policy: name.into(),
        revision: 6,
        storage_revision,
    };
    let (jobs, next) =
        propagate_scope(true, &vec![row("p", Some(3))], id(1), id(2), 50).unwrap();
    assert!(matches!(
        &jobs[0],
        JobInput::Policy { policy, resolution, assignment_revision: Some(6), expected_revision: 3, .. }
            if policy == "p" && *resolution == id(2)
    ));
    assert_eq!(next, None);
    let many: Vec<AssignedPolicy> = (0..65).map(|n| row(&n.to_string(), Some(1))).collect();
    let (jobs, next) = propagate_scope(true, &many, id(1), id(2), 50).unwrap();
    assert_eq!((jobs.len(), next.as_deref()), (64, Some("63")));
    assert!(propagate_scope(false, &many, id(1), id(2), 50).unwrap().0.is_empty());
    assert_eq!(
        propagate_scope(true, &vec![row("p", None)], id(1), id(2), 50).unwrap_err(),
        Error::Conflict
    );
}

#[test]
fn a_preview_plans_the_policy_as_it_is_known() {
    let policy = "p".to_string();
    let begin = |revision: Option<u64>, defined: Result<(), Error>| {
        start_policy_preview(&policy, revision, 3, defined, id(1), id(2), 50)
    };
    let (first, second) = begin(Some(3), Ok(())).unwrap();
    assert!(matches!(first, JobInput::Scope { scope } if scope == id(1)));
    assert!(matches!(
        second,
        JobInput::Policy { assignment_revision: None, expected_revision: 3, as_of: 50, .. }
    ));
    assert_eq!(begin(Some(4), Ok(())).unwrap_err(), Error::Conflict);
    assert_eq!(
        begin(None, Ok(())).unwrap_err(),
        Error::ManagementNotFound(Missing::Policy)
    );
    assert_eq!(begin(Some(3), Err(Error::Forbidden)).unwrap_err(), Error::Forbidden);
}

#[test]
fn a_policy_is_planned_on_a_current_resolution_and_inherits_its_failure() {
    let resolution = |phase: &str, current: bool| {
        Some(Resolution {
            phase: phase.into(),
            current,
            definition_revision: 1,
            resolution_revision: 2,
        })
    };
    assert_eq!(admit_planning(None, None, false, &resolution("published", true)), Ok(()));
    assert_eq!(
        admit_planning(Some(3), Some(3), false, &resolution("published", true)),
        Ok(())
    );
    assert_eq!(
        admit_planning(Some(3), Some(4), false, &resolution("published", true)),
        Err(Error::Conflict)
    );
    assert_eq!(
        admit_planning(None, None, false, &resolution("published", false)),
        Err(Error::Conflict)
    );
    assert_eq!(admit_planning(None, None, false, &resolution("ready", true)), Err(STORAGE));
    assert_eq!(admit_planning(None, None, false, &None), Err(STORAGE));
    assert_eq!(admit_planning(None, None, true, &resolution("published", true)), Ok(()));
    assert_eq!(
        admit_planning(None, None, true, &resolution("published", false)),
        Err(Error::Conflict)
    );
    assert_eq!(
        admit_planning(None, None, true, &resolution("ready", true)),
        Err(Error::ManagementNotFound(Missing::Scope))
    );
    assert_eq!(
        admit_planning(Some(3), Some(4), true, &None),
        Err(Error::Conflict)
    );
    let failed = admit_planning(None, None, true, &None).unwrap_err();
    match apply(&job_target(id(9)), Settlement::RolledBack, Some(failed)) {
        Follow::End { reason, .. } => assert_eq!(reason, "source_unavailable"),
        other => panic!("{other:?}"),
    }
}

#[test]
fn a_candidate_takes_on_its_devices_in_pages() {
    for (state, step) in [
        (CandidateState::Missing, PlanStep::Begin),
        (CandidateState::Found(CandidatePhase::Targets), PlanStep::Targets),
        (CandidateState::Found(CandidatePhase::Facts), PlanStep::Facts),
        (CandidateState::Found(CandidatePhase::Ready), PlanStep::Finish),
        (CandidateState::Found(CandidatePhase::Saved), PlanStep::Finish),
        (CandidateState::Found(CandidatePhase::Superseded), PlanStep::Supersede),
    ] {
        assert_eq!(advance_policy_job(state), Ok(step));
    }
    assert_eq!(advance_policy_job(CandidateState::Rejected), Err(Error::Conflict));
    let many: Vec<String> = (0..1001).map(|n| n.to_string()).collect();
    let taken = next_targets(many, 5);
    assert_eq!((taken.devices.len(), taken.seal), (1000, None));
    let taken = next_targets(vec!["a".into()], 5);
    assert_eq!((taken.devices.len(), taken.seal), (1, Some(6)));
}

#[test]
fn a_complete_preview_of_the_policy_is_saved() {
    let ready = || Some(job(policy_input(), true, None));
    assert_eq!(save_ready_candidate(&ready(), "p", true), Ok(id(1)));
    assert_eq!(save_ready_candidate(&ready(), "q", true), Err(Error::Conflict));
    assert_eq!(save_ready_candidate(&ready(), "p", false), Err(Error::Conflict));
    assert_eq!(save_ready_candidate(&None, "p", true), Err(Error::NotFound));
    for other in [
        job(policy_input(), false, None),
        job(policy_input(), true, Some("failed")),
        job(JobInput::Scope { scope: id(1) }, true, None),
    ] {
        assert_eq!(save_ready_candidate(&Some(other), "p", true), Err(Error::Conflict));
    }
}
