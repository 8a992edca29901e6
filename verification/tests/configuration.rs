use rss_mdm::error::{Error, Failure, PlanFailureReason, PlanStage};
use rss_mdm::id::Id;
use rss_mdm::management::configuration::{
    digest32, evidence, fact_pages, firewall_facts, firewall_version, freeze_firewall, progress,
    Authored, Evidence, FactRow, Finding, Refusal, MAX_EXECUTIONS,
};
use rss_mdm::management::execution::{
    add_intents, begin_freezing, freeze_execution, freeze_intent, next_kind, read_in, read_on,
    validate_execution_save, Admission, Candidate, IntentKind, Recheck,
};
use rss_mdm::management::model::{
    CancelReason, Dispatch, FrozenIntent, PolicyChange, RetainReason,
};
use rss_mdm::management::pages::policy::{CandidateIntent, Effect, ExecutionRecord, Progress};
use rss_mdm::management::plans::{
    payload, policy_change, policy_read, policy_status, recompute, Assignment, Policy,
    PolicyCommand, ResourceVersion, Status, Trigger, VersionState,
};
use rss_mdm::management::automation::jobs::{task_answer, TaskView};
use rss_mdm::management::automation::JobInput;
use rss_mdm::management::resources::{Architecture, Declaration, Platform};
use sha2::Digest;

fn id(value: u128) -> Id {
    Id { value }
}

fn known(edition: u32) -> Evidence {
    Evidence { registration: id(1), generation: 1, os_version: "10.0.26100".into(), edition }
}

fn finding(device: &str, rows: usize, supported: bool) -> Finding {
    Finding {
        device: device.into(),
        rows: (0..rows).map(|n| known(n as u32)).collect(),
        supported,
    }
}

fn authored(status: Status) -> Authored {
    Authored {
        status,
        version: 7,
        enabled: true,
        resource_digest: vec![1, 2],
        ddf: "ddf".into(),
        identity: b"compiled".to_vec(),
    }
}

#[test]
fn the_firewall_is_a_document_with_its_digest() {
    let variant = firewall_version(true);
    assert_eq!(variant.platform, Platform::Windows);
    assert_eq!(variant.architecture, Architecture::X86_64);
    assert_eq!(variant.key, "domain-firewall");
    match variant.declaration {
        Declaration::Configuration { artifact, schema, apply, detect, remove } => {
            assert_eq!(artifact.reference, "inline-domain-firewall");
            assert_eq!(artifact.length, 16);
            let digest: [u8; 32] = sha2::Sha256::digest(b"{\"enabled\":true}").into();
            assert_eq!(artifact.sha256, digest);
            assert_eq!(schema, "windows-firewall-domain-v1");
            assert_eq!(apply, "replace");
            assert_eq!(detect, "device-firewall-status");
            assert_eq!(remove, None);
        }
        other => panic!("{other:?}"),
    }
    match firewall_version(false).declaration {
        Declaration::Configuration { artifact, .. } => assert_eq!(artifact.length, 17),
        other => panic!("{other:?}"),
    }
}

#[test]
fn a_configuration_is_frozen_for_devices_with_known_capabilities() {
    let findings = vec![finding("b", 1, true), finding("a", 1, true)];
    let frozen = freeze_firewall(Some(authored(Status::Active)), &findings).unwrap().unwrap();
    assert!(frozen.enabled);
    assert_eq!(frozen.policy_status, "active");
    assert_eq!(frozen.version, 7);
    assert_eq!(frozen.devices.keys.items, ["a", "b"]);
    let digest: [u8; 32] = sha2::Sha256::digest(b"compiled").into();
    assert_eq!(frozen.compiled_digest, digest);
    let paused = freeze_firewall(Some(authored(Status::Paused)), &vec![finding("a", 0, false)])
        .unwrap()
        .unwrap();
    assert_eq!(paused.policy_status, "paused");
    assert!(paused.devices.keys.items.is_empty());
    assert!(freeze_firewall(None, &findings).unwrap().is_none());
}

#[test]
fn a_configuration_is_refused_on_the_first_device_that_cannot_have_it() {
    let unknown = vec![finding("a", 1, true), finding("b", 0, true), finding("c", 1, false)];
    match freeze_firewall(Some(authored(Status::Active)), &unknown) {
        Err(Refusal::Plan { reason, device, stage }) => {
            assert_eq!(reason, PlanFailureReason::CapabilityUnknown);
            assert_eq!(device.as_deref(), Some("b"));
            assert_eq!(stage, PlanStage::Preview);
        }
        other => panic!("{other:?}"),
    }
    match freeze_firewall(Some(authored(Status::Active)), &vec![finding("c", 1, false)]) {
        Err(Refusal::Plan { reason, device, .. }) => {
            assert_eq!(reason, PlanFailureReason::PlatformUnsupported);
            assert_eq!(device.as_deref(), Some("c"));
        }
        other => panic!("{other:?}"),
    }
    let many: Vec<Finding> = (0..33).map(|n| finding(&n.to_string(), 1, true)).collect();
    assert!(matches!(
        freeze_firewall(Some(authored(Status::Active)), &many),
        Err(Refusal::TargetLimit)
    ));
    assert!(matches!(
        evidence(&vec![known(1), known(2)], "d", PlanStage::Save),
        Err(Refusal::Plan { reason: PlanFailureReason::CapabilityUnknown, .. })
    ));
    assert!(known(1).agrees(&known(1)));
    assert!(!known(1).agrees(&known(2)));
}

#[test]
fn progress_follows_the_write_and_the_command() {
    for (write, status, expected) in [
        (Some(200), "cancelled", Progress::Succeeded),
        (Some(404), "superseded", Progress::Cancelled),
        (None, "cancelled", Progress::Cancelled),
        (Some(400), "timed_out", Progress::Failed),
        (Some(399), "timed_out", Progress::Unknown),
        (None, "timed_out", Progress::Unknown),
        (Some(202), "sent", Progress::Running),
        (None, "queued", Progress::Running),
    ] {
        assert_eq!(progress(write, status), expected);
    }
}

#[test]
fn executions_name_the_payload_of_their_version() {
    let row = || FactRow {
        version: 3,
        device: "d".into(),
        status: "acknowledged".into(),
        write_status: Some(200),
    };
    let versions = vec![(3, vec![9; 32]), (3, vec![0xab; 32])];
    let facts = firewall_facts(vec![row()], &versions).unwrap();
    assert_eq!(facts.len(), 1);
    assert_eq!(facts[0].payload, format!("r-{}", "ab".repeat(32)));
    assert_eq!(facts[0].digest, [0xab; 32]);
    assert_eq!(facts[0].execution.version, 3);
    assert_eq!(facts[0].execution.progress, Progress::Succeeded);
    assert_eq!(facts[0].execution.effect, Effect::Unknown);
    for versions in [vec![], vec![(4, vec![1; 32])], vec![(3, vec![1; 31])]] {
        assert!(matches!(
            firewall_facts(vec![row()], &versions),
            Err(Refusal::Request(Error::Unavailable(Failure::ManagementStorage)))
        ));
    }
    let many: Vec<FactRow> = (0..=MAX_EXECUTIONS).map(|_| row()).collect();
    assert!(matches!(firewall_facts(many, &versions), Err(Refusal::TargetLimit)));
    assert_eq!(digest32(&vec![5; 32]), Some([5; 32]));
    assert_eq!(digest32(&vec![5; 33]), None);
}

#[test]
fn executions_are_recorded_in_pages() {
    let task = id(0xf);
    assert!(fact_pages(0, task).is_empty());
    let pages = fact_pages(2500, task);
    let shape: Vec<_> = pages.iter().map(|page| (page.from, page.to)).collect();
    assert_eq!(shape, [(0, 1000), (1000, 2000), (2000, 2500)]);
    assert_eq!(pages[2].request, "00000000-0000-0000-0000-00000000000f-facts-2");
    let exact: Vec<_> = fact_pages(1000, task).iter().map(|page| (page.from, page.to)).collect();
    assert_eq!(exact, [(0, 1000)]);
}

fn record(device: &str, version: u64) -> ExecutionRecord {
    ExecutionRecord {
        device: device.into(),
        version,
        progress: Progress::Running,
        effect: Effect::Unknown,
    }
}

fn desired(supersedes: bool) -> CandidateIntent {
    CandidateIntent::Desired {
        device: "d".into(),
        version: 2,
        supersedes,
        previous_versions: vec![1],
    }
}

#[test]
fn intents_are_frozen_without_predecessors() {
    assert!(matches!(
        freeze_intent(desired(false)),
        Ok(FrozenIntent::Add { version: 2, .. })
    ));
    match freeze_intent(desired(true)) {
        Ok(FrozenIntent::Supersede { previous_versions, .. }) => assert_eq!(previous_versions, [1]),
        other => panic!("{other:?}"),
    }
    assert!(matches!(
        freeze_intent(CandidateIntent::Cancel {
            execution: record("d", 1),
            reason: CancelReason::ScopeExit
        }),
        Ok(FrozenIntent::Cancel { version: 1, reason: CancelReason::ScopeExit, .. })
    ));
    assert!(matches!(
        freeze_intent(CandidateIntent::Retain {
            execution: record("d", 1),
            reason: RetainReason::Historical
        }),
        Ok(FrozenIntent::Retain { version: 1, reason: RetainReason::Historical, .. })
    ));
    let predecessor = || CandidateIntent::Predecessor {
        execution: record("d", 1),
        successor_version: 2,
    };
    assert!(matches!(
        freeze_intent(predecessor()),
        Err(Error::Unavailable(Failure::ManagementStorage))
    ));
    let mut intents = Vec::new();
    assert!(add_intents(&mut intents, vec![desired(false), desired(true)]).is_ok());
    assert_eq!(intents.len(), 2);
    assert!(matches!(
        add_intents(&mut intents, vec![predecessor()]),
        Err(Refusal::Request(Error::Unavailable(Failure::ManagementStorage)))
    ));
    let many = (0..MAX_EXECUTIONS).map(|_| desired(false)).collect();
    assert!(matches!(add_intents(&mut intents, many), Err(Refusal::TargetLimit)));
    assert_eq!(intents.len(), 2);
}

#[test]
fn kinds_of_intents_follow_each_other() {
    assert_eq!(next_kind(IntentKind::Add), Some(IntentKind::Supersede));
    assert_eq!(next_kind(IntentKind::Supersede), Some(IntentKind::Cancel));
    assert_eq!(next_kind(IntentKind::Cancel), Some(IntentKind::Retain));
    assert_eq!(next_kind(IntentKind::Retain), None);
}

fn candidate(target_count: u64, plan: Option<[u8; 32]>) -> Candidate {
    Candidate { expected_revision: 4, target_count, plan }
}

#[test]
fn a_plan_is_frozen_while_it_is_current_and_small() {
    let small = candidate(32, Some([1; 32]));
    assert!(matches!(begin_freezing(Some((4, true)), &small), Ok(true)));
    assert!(matches!(begin_freezing(Some((4, false)), &small), Ok(false)));
    assert!(matches!(
        begin_freezing(None, &small),
        Err(Refusal::Request(Error::Conflict))
    ));
    assert!(matches!(
        begin_freezing(Some((5, true)), &small),
        Err(Refusal::Plan { reason: PlanFailureReason::StalePlan, device: None, .. })
    ));
    assert!(matches!(
        begin_freezing(Some((4, true)), &candidate(33, None)),
        Err(Refusal::TargetLimit)
    ));
}

#[test]
fn a_frozen_plan_reads_back() {
    let plan = freeze_execution(
        id(5),
        "policy".into(),
        Status::Active,
        &candidate(1, Some([0xcd; 32])),
        vec!["d".into()],
        None,
        vec![],
    )
    .unwrap();
    assert_eq!(plan.plan.id, "cd".repeat(32));
    assert!(plan.plan.scheduling_open);
    assert_eq!(plan.plan.dispatch, Dispatch::NotRequested);
    let view = || TaskView {
        policy_revision: Some(4),
        task: id(5),
        kind: "policy",
        target: "policy".into(),
        status: "completed",
        processed: 1,
        members: 1,
        plan: None,
        failure: None,
    };
    let detail = || Some("{}".to_string());
    let stored = Admission { plan, saved_revision: None, current: true };
    let shown = task_answer(view(), read_in(Some(stored), id(5), PlanStage::Preview), detail());
    let shown = shown.unwrap();
    assert_eq!((shown.task.task, shown.failure_detail), (id(5), detail()));
    let plan = shown.execution.unwrap();
    let without = task_answer(view(), read_in(None, id(5), PlanStage::Preview), None).unwrap();
    assert!(without.execution.is_none() && without.failure_detail.is_none());
    let refused = Err(Refusal::Request(Error::Forbidden));
    assert!(matches!(
        task_answer(view(), refused, None),
        Err(Refusal::Request(Error::Forbidden))
    ));
    let stored = Admission { plan, saved_revision: None, current: true };
    let read = read_on(Some(stored), id(5)).unwrap().unwrap();
    assert_eq!(read.plan.devices, ["d"]);
    assert!(matches!(
        read_on(Some(read), id(6)),
        Err(Error::Unavailable(Failure::ManagementStorage))
    ));
    assert!(matches!(read_on(None, id(5)), Ok(None)));
    assert!(matches!(
        read_in(None, id(5), PlanStage::Save),
        Err(Refusal::Plan {
            reason: PlanFailureReason::StalePlan,
            device: None,
            stage: PlanStage::Save
        })
    ));
    assert!(matches!(
        freeze_execution(
            id(5),
            "policy".into(),
            Status::Paused,
            &candidate(1, None),
            vec![],
            None,
            vec![]
        ),
        Err(Error::Conflict)
    ));
}

#[test]
fn a_plan_is_saved_while_its_evidence_holds() {
    let recheck = |device: &str, rows: Vec<Evidence>| Recheck {
        device: device.into(),
        expected: known(1),
        rows,
    };
    assert!(validate_execution_save(None, &vec![recheck("a", vec![])]).is_ok());
    assert!(validate_execution_save(Some(true), &vec![recheck("a", vec![known(1)])]).is_ok());
    assert!(matches!(
        validate_execution_save(Some(false), &vec![]),
        Err(Refusal::Plan {
            reason: PlanFailureReason::StalePlan,
            device: None,
            stage: PlanStage::Save
        })
    ));
    match validate_execution_save(
        Some(true),
        &vec![recheck("a", vec![known(1)]), recheck("b", vec![known(2)])],
    ) {
        Err(Refusal::Plan { reason: PlanFailureReason::StalePlan, device, .. }) => {
            assert_eq!(device.as_deref(), Some("b"))
        }
        other => panic!("{other:?}"),
    }
    assert!(matches!(
        validate_execution_save(Some(true), &vec![recheck("a", vec![])]),
        Err(Refusal::Plan { reason: PlanFailureReason::CapabilityUnknown, .. })
    ));
}

fn activate() -> PolicyChange {
    PolicyChange::Activate {
        version: 2,
        resource: "resource".into(),
        resource_version: "1".into(),
    }
}

#[test]
fn only_frozen_and_active_versions_are_activated() {
    for state in [VersionState::Frozen, VersionState::Active] {
        match policy_change(&activate(), Ok(ResourceVersion { state, digest: [0x12; 32] })) {
            Ok(PolicyCommand::Activate { version, payload, digest }) => {
                assert_eq!(version, 2);
                assert_eq!(payload, format!("r-{}", "12".repeat(32)));
                assert_eq!(digest, [0x12; 32]);
            }
            other => panic!("{other:?}"),
        }
    }
    assert!(matches!(
        policy_change(
            &activate(),
            Ok(ResourceVersion { state: VersionState::Other, digest: [0; 32] })
        ),
        Err(Error::Conflict)
    ));
    assert!(matches!(
        policy_change(&activate(), Err(Error::Malformed)),
        Err(Error::Malformed)
    ));
    assert!(matches!(
        policy_change(&PolicyChange::Pause, Err(Error::Malformed)),
        Ok(PolicyCommand::Pause)
    ));
    assert_eq!(payload(&[0; 32]), format!("r-{}", "0".repeat(64)));
}

#[test]
fn a_changed_policy_is_planned_where_it_is_assigned() {
    let policy = "policy".to_string();
    let trigger = Trigger { resolution: id(1), task: id(2), storage_revision: 9, as_of: 100 };
    let assignment = Some(Assignment { scope: id(3), revision: 6 });
    assert!(recompute(&PolicyChange::Create, &policy, assignment, trigger).is_none());
    assert!(recompute(&PolicyChange::Pause, &policy, None, trigger).is_none());
    match recompute(&PolicyChange::Archive, &policy, assignment, trigger) {
        Some((JobInput::Scope { scope }, JobInput::Policy { resolution, assignment_revision, expected_revision, as_of, .. })) => {
            assert_eq!(scope, id(3));
            assert_eq!(resolution, id(1));
            assert_eq!(assignment_revision, Some(6));
            assert_eq!(expected_revision, 9);
            assert_eq!(as_of, 100);
        }
        other => panic!("{other:?}"),
    }
}

#[test]
fn a_policy_is_shown_with_its_status_and_plan() {
    for (status, name) in [
        (Status::Draft, "draft"),
        (Status::Active, "active"),
        (Status::Paused, "paused"),
        (Status::Archived, "archived"),
    ] {
        assert_eq!(policy_status(status), name);
        let policy = Policy {
            id: "p".into(),
            storage_revision: 3,
            revision: 2,
            status,
            plan: Some([0xee; 32]),
            fresh: true,
        };
        let shown = policy_read(Some(policy)).unwrap();
        assert_eq!(shown.status, name);
        assert_eq!(shown.plan, Some("ee".repeat(32)));
        assert_eq!((shown.storage_revision, shown.revision, shown.fresh), (3, 2, true));
    }
    assert!(matches!(
        policy_read(None),
        Err(Error::ManagementNotFound(rss_mdm::management::model::Missing::Policy))
    ));
}
