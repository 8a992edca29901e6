use rss_mdm::encoding::hex;
use rss_mdm::error::{ConfigIssue, Error, Failure};
use rss_mdm::id::Id;
use rss_mdm::management::assets::model::{Command as AssetCommand, Criteria, Operator, ReadScope};
use rss_mdm::management::automation::TaskKind;
use rss_mdm::management::command::{admit_preview, authorize, Command, Partition};
use rss_mdm::management::model::{
    is_listed, CancelReason, Dispatch, FrozenIntent, FrozenPlan, GroupChange, Missing, Operation,
    PolicyChange, Preview, PreviewInput, Reference, Registration, RetainReason, SavePlan,
    ScopeChange, ScopeDefinition,
};
use rss_mdm::management::pages::{GroupPageKind, PageQuery};
use rss_mdm::management::publications::{
    answer, disposition, effect, failure, perform, permission, ring_name, summary, Approval, Call,
    Change, Disposition, Effect, Permission, Publication, PublicationOutcome, Reply, Ring,
    RingState, ServiceError,
};
use rss_mdm::management::request::{
    checked, group_checked, input, reason, replay, settle, settle_internally, stored, Fault,
    GroupRejection, Progress, Settlement, Stage, StepResult, StoredAnswer,
};
use rss_mdm::management::resources::{
    command, found, variant, variant_view, Architecture, Artifact, Change as ResourceChange,
    Command as ResourceCommand, Declaration, Kind, Platform, Variant,
};
use rss_mdm::management::storage::{
    admit_catalog, admit_database, audit, device, fingerprint, identity,
};
use rss_mdm::set::OrderedSet;
use sha2::Digest;

const RUNTIME: Error = Error::Unavailable(Failure::Runtime);
const STORAGE: Error = Error::Unavailable(Failure::ManagementStorage);

#[test]
fn refusals_have_a_status_and_a_code() {
    for (error, status, code) in [
        (Error::Conflict, 409, "operation_conflict"),
        (Error::CommitUnknown, 503, "operation_unknown"),
        (Error::Malformed, 400, "malformed_request"),
        (Error::CertificateRequest, 400, "invalid_certificate_request"),
        (Error::Unauthorized, 401, "invalid_identity"),
        (Error::Forbidden, 403, "permission_denied"),
        (Error::NotFound, 404, "inventory_not_found"),
        (Error::Unsupported, 501, "action_not_supported"),
        (Error::Configuration(ConfigIssue::Tenant), 503, "service_unavailable"),
        (Error::Unavailable(Failure::Clock), 503, "service_unavailable"),
        (Error::ManagementNotFound(Missing::Rule), 404, "group_rule_not_found"),
    ] {
        assert_eq!(error.into_response(), (status, code));
    }
    for (missing, code) in [
        (Missing::Operation, "operation_not_found"),
        (Missing::Device, "management_device_not_found"),
        (Missing::Group, "group_not_found"),
        (Missing::Scope, "scope_not_found"),
        (Missing::Policy, "policy_not_found"),
        (Missing::Preview, "plan_preview_not_found"),
        (Missing::Resource, "resource_not_found"),
        (Missing::Source, "software_source_not_found"),
        (Missing::Candidate, "software_candidate_not_found"),
    ] {
        assert_eq!(missing.code(), code);
    }
    assert_eq!(Error::Forbidden.message(), "permission denied");
}

#[test]
fn outside_answers_become_refusals() {
    assert_eq!(input::<u8, ()>(Ok(1)), Ok(1));
    assert_eq!(input::<u8, ()>(Err(())), Err(Error::Malformed));
    assert_eq!(stored::<u8, ()>(Err(())), Err(STORAGE));
    assert_eq!(checked::<u8, ()>(Err(())), Err(Error::Conflict));
    for (rejection, error) in [
        (GroupRejection::NotFound, Error::ManagementNotFound(Missing::Group)),
        (GroupRejection::Deleted, Error::ManagementNotFound(Missing::Group)),
        (GroupRejection::CapacityExceeded, Error::Unavailable(Failure::AssetObjectLimit)),
        (GroupRejection::PageBudgetExceeded, Error::Unavailable(Failure::AssetBytesLimit)),
        (GroupRejection::InvalidInput, Error::Malformed),
        (GroupRejection::Other, Error::Conflict),
    ] {
        assert_eq!(group_checked::<u8>(Err(rejection)), Err(error));
    }
    assert_eq!(reason(&Fault::Request(Error::NotFound)), Error::NotFound);
    assert_eq!(reason(&Fault::Storage), STORAGE);
    assert_eq!(reason(&Fault::Sql(Some("40001".into()))), Error::Conflict);
    assert_eq!(reason(&Fault::Sql(Some("40P01".into()))), Error::Conflict);
    assert_eq!(reason(&Fault::Sql(Some("23505".into()))), RUNTIME);
    assert_eq!(reason(&Fault::Sql(None)), RUNTIME);
}

#[test]
fn answers_follow_the_transaction() {
    assert_eq!(settle(Settlement::Committed(1), Some(Error::Conflict)), Ok(1));
    assert_eq!(
        settle::<u8>(Settlement::RolledBack, Some(Error::Conflict)),
        Err(Error::Conflict)
    );
    assert_eq!(settle::<u8>(Settlement::RolledBack, None), Err(RUNTIME));
    assert_eq!(settle::<u8>(Settlement::RollbackUnknown, None), Err(Error::CommitUnknown));
    assert_eq!(
        settle::<u8>(Settlement::CommitUnknown, Some(Error::Conflict)),
        Err(Error::CommitUnknown)
    );
    assert_eq!(settle::<u8>(Settlement::NotStarted, None), Err(RUNTIME));
    assert_eq!(settle::<u8>(Settlement::Abandoned, None), Err(RUNTIME));
    assert_eq!(
        settle_internally::<u8>(Settlement::RolledBack, Failure::Clock),
        Err(Error::Unavailable(Failure::Clock))
    );
    assert_eq!(
        settle_internally::<u8>(Settlement::CommitUnknown, Failure::Clock),
        Err(Error::CommitUnknown)
    );
}

#[test]
fn a_repeated_operation_is_answered_as_before() {
    let kept = || Some(StoredAnswer { fingerprint: vec![1, 2], response: "{}".into() });
    assert_eq!(replay(None, &vec![1]), Ok(None));
    assert_eq!(replay(kept(), &vec![1, 2]), Ok(Some("{}".to_string())));
    assert_eq!(replay(kept(), &vec![1, 3]), Err(Error::Conflict));
}

#[test]
fn a_request_is_known_by_who_asks_for_what() {
    let of = |tenant: &str, actor: Option<&str>, instance: Option<&str>, command: &str| {
        fingerprint(
            tenant,
            &actor.map(str::to_string),
            &instance.map(str::to_string),
            command,
        )
    };
    let digest = |text: &str| sha2::Sha256::digest(text.as_bytes()).to_vec();
    let one = of("t", Some("a"), Some("i"), "{}");
    assert_eq!(one, digest("[\"t\",\"a\",\"i\",{}]"));
    assert_eq!(hex(&one).len(), 64);
    assert_eq!(of("t", None, None, "1"), digest("[\"t\",null,null,1]"));
    let odd = "q\"b\\n\n\r\t\u{8}\u{c}\u{1}\u{1f}\u{7f}/设备";
    let written = serde_json::to_string(&(odd, Some(odd), Some("i"), 7)).unwrap();
    assert_eq!(of(odd, Some(odd), Some("i"), "7"), digest(&written));
    for other in [
        of("u", Some("a"), Some("i"), "{}"),
        of("t", Some("b"), Some("i"), "{}"),
        of("t", None, Some("i"), "{}"),
        of("t", Some("null"), Some("i"), "{}"),
        of("t", Some("a"), Some("j"), "{}"),
        of("t", Some("a"), None, "{}"),
        of("t", Some("a"), Some("i"), "[]"),
        of("t\",\"a", Some("i"), Some("i"), "{}"),
    ] {
        assert_ne!(other, one);
    }
    let preview = |operation: Id| Command::GroupPreview {
        id: Id { value: 1 },
        operation,
        expected_revision: 1,
    };
    let actor = Some("a".to_string());
    let instance = Some("i".to_string());
    let known = identity(&preview(Id { value: 9 }), "t", &actor, &instance, "{}");
    assert_eq!(known, Ok((Some(Id { value: 9 }), one)));
    let none = identity(&preview(Id { value: 0 }), "t", &actor, &instance, "{}");
    assert_eq!(none, Err(Error::Malformed));
    let read = identity(&Command::GroupRead { id: Id { value: 1 } }, "t", &None, &None, "1");
    assert_eq!(read, Ok((None, digest("[\"t\",null,null,1]"))));
}

fn advance(mut progress: Progress, found: bool) -> Vec<Stage> {
    let mut stages = vec![progress.stage];
    while progress.stage != Stage::Answered {
        let result = if progress.stage == Stage::Lookup && found {
            StepResult::Found
        } else {
            StepResult::Done
        };
        progress = progress.step(result).unwrap();
        stages.push(progress.stage);
    }
    stages
}

#[test]
fn requests_are_locked_authorized_recorded_and_confirmed() {
    let write = Progress::begin(Some(Id { value: 1 }), true);
    assert_eq!(
        advance(write, false),
        [
            Stage::Lock,
            Stage::Authorize,
            Stage::Lookup,
            Stage::Clock,
            Stage::Dispatch,
            Stage::Decode,
            Stage::Receipt,
            Stage::Audit,
            Stage::Confirm,
            Stage::Answered
        ]
    );
    let repeated = advance(Progress::begin(Some(Id { value: 1 }), true), true);
    assert!(!repeated.contains(&Stage::Dispatch));
    assert!(!repeated.contains(&Stage::Receipt));
    assert!(repeated.contains(&Stage::Audit) && repeated.contains(&Stage::Confirm));
    let read = advance(Progress::begin(None, true), false);
    assert!(!read.contains(&Stage::Receipt));
    assert!(read.contains(&Stage::Dispatch));
    let refused = Progress::begin(None, true)
        .step(StepResult::Done)
        .unwrap()
        .step(StepResult::Failed(Error::Forbidden));
    assert!(matches!(refused, Err(Error::Forbidden)));
}

#[test]
fn requests_are_recorded_by_what_they_did() {
    assert_eq!(audit(&None, None), (200, "success".to_string()));
    assert_eq!(audit(&None, Some("replay".into())), (200, "replay".to_string()));
    assert_eq!(
        audit(&Some("management_admission".into()), Some("replay".into())),
        (202, "unknown".to_string())
    );
    assert_eq!(audit(&Some("other".into()), None), (200, "success".to_string()));
}

#[test]
fn a_device_is_at_its_highest_generation() {
    let registration = |generation: u64| Registration {
        id: "r".into(),
        channel: "mdm".into(),
        generation,
    };
    let identity = device(vec![registration(2), registration(5), registration(3)]).unwrap();
    assert_eq!((identity.revision, identity.registrations.len()), (5, 3));
    assert!(matches!(device(vec![]), Err(Error::ManagementNotFound(Missing::Device))));
}

#[test]
fn a_database_is_known_by_its_catalog() {
    let refused = Err(Error::Unavailable(Failure::ManagementAdmission));
    let expected = "{\"tables\":[\"a\",\"b\"],\"version\":1}";
    let other_layout = "{ \"version\": 1,\n \"tables\": [\"a\", \"b\"] }";
    assert_eq!(admit_database(true, expected, expected), Ok(()));
    assert_eq!(admit_database(true, other_layout, expected), Ok(()));
    assert_eq!(admit_database(false, expected, expected), refused);
    for other in [
        "{\"tables\":[\"b\",\"a\"],\"version\":1}",
        "{\"tables\":[\"a\",\"b\"],\"version\":2}",
        "{\"tables\":[\"a\",\"b\"]}",
        "{\"tables\":",
        "",
    ] {
        assert_eq!(admit_database(true, other, expected), refused);
    }
    assert_eq!(admit_catalog(true, true), Ok(()));
    for (confirmed, found) in [(true, false), (false, true), (false, false)] {
        assert_eq!(admit_catalog(confirmed, found), refused);
    }
}

fn operation<T>(input: T) -> Operation<T> {
    Operation { operation_id: Id { value: 9 }, expected_revision: 1, input }
}

fn set(items: &[&str]) -> OrderedSet<Reference> {
    let mut kept: OrderedSet<Reference> = OrderedSet::new();
    for item in items {
        kept.insert(Reference::Device(item.to_string()));
    }
    kept
}

fn definition() -> ScopeDefinition {
    ScopeDefinition { targets: set(&["b", "a"]), limitations: None, exclusions: set(&["c", "a"]) }
}

#[test]
fn a_scope_names_each_thing_once() {
    let mut scope = definition();
    scope.limitations = Some(set(&["d"]));
    scope.targets.insert(Reference::Group(Id { value: 1 }));
    let names: Vec<String> = scope
        .references()
        .items
        .iter()
        .map(|reference| match reference {
            Reference::Device(device) => device.clone(),
            Reference::Group(group) => group.text(),
        })
        .collect();
    assert_eq!(names, ["a", "b", "c", "d", "00000000-0000-0000-0000-000000000001"]);
}

fn criteria() -> Criteria {
    Criteria::Predicate { field: "f".into(), op: Operator::IsNull, value: None, values: None }
}

fn create(with: bool) -> Command {
    Command::Group {
        id: Id { value: 3 },
        change: operation(GroupChange::Create {
            name: "n".into(),
            description: "d".into(),
            criteria: if with { Some(criteria()) } else { None },
        }),
    }
}

#[test]
fn requests_need_their_permission() {
    let id = Id { value: 3 };
    for (request, needed) in [
        (create(false), Some(Permission::GroupWrite)),
        (
            Command::Group { id, change: operation(GroupChange::Recompute) },
            Some(Permission::GroupRecompute),
        ),
        (Command::GroupRead { id }, Some(Permission::GroupRead)),
        (
            Command::GroupPreview { id, operation: id, expected_revision: 1 },
            Some(Permission::GroupRead),
        ),
        (Command::PlanRead { id }, Some(Permission::PolicyRead)),
        (
            Command::Resource {
                id: "r".into(),
                change: operation(ResourceChange::Activate { version: "1".into() }),
            },
            Some(Permission::ResourceWrite),
        ),
        (
            Command::Scope {
                id,
                change: operation(ScopeChange::Put { definition: definition() }),
            },
            Some(Permission::ScopeWrite),
        ),
        (Command::ScopeRead { id }, Some(Permission::ScopeRead)),
        (
            Command::Policy { id: "p".into(), change: operation(PolicyChange::Pause) },
            Some(Permission::PolicyWrite),
        ),
        (Command::PolicyRead { id: "p".into() }, Some(Permission::PolicyRead)),
        (
            Command::Preview {
                id: "p".into(),
                request: operation(PreviewInput { scope: id, expected_revision: 1 }),
            },
            Some(Permission::PlanPreview),
        ),
        (
            Command::Save { id: "p".into(), request: operation(SavePlan { preview: id }) },
            Some(Permission::PlanSave),
        ),
        (Command::ResourceRead { id: "r".into() }, Some(Permission::ResourceRead)),
        (Command::Asset { command: AssetCommand::Fields }, None),
    ] {
        assert_eq!(request.permission(), needed, "{request:?}");
    }
}

#[test]
fn derived_results_need_every_device() {
    let some = || {
        let mut kept: OrderedSet<String> = OrderedSet::new();
        kept.insert("a".into());
        Ok(ReadScope { subject: "s".into(), devices: Some(kept) })
    };
    let all = || Ok(ReadScope::all());
    assert!(create(true).needs_full_inventory());
    assert!(!create(false).needs_full_inventory());
    assert_eq!(authorize(&create(true), Ok(()), &all()), Ok(()));
    assert_eq!(authorize(&create(true), Ok(()), &some()), Err(Error::Forbidden));
    assert_eq!(authorize(&create(false), Ok(()), &some()), Ok(()));
    assert_eq!(
        authorize(&create(false), Err(Error::Forbidden), &all()),
        Err(Error::Forbidden)
    );
    let page = Command::GroupPage {
        group: Id { value: 3 },
        result: Id { value: 4 },
        projection: GroupPageKind::Members,
        query: PageQuery { limit: 10, cursor: None },
    };
    assert_eq!(authorize(&page, Ok(()), &some()), Err(Error::Forbidden));
    let task = Command::TaskRead {
        id: Id { value: 3 },
        target: "t".into(),
        family: TaskKind::Group,
    };
    assert_eq!(authorize(&task, Ok(()), &some()), Err(Error::Forbidden));
    assert_eq!(authorize(&task, Ok(()), &Err(RUNTIME)), Err(RUNTIME));
}

#[test]
fn requests_carry_an_operation_and_a_target() {
    assert_eq!(create(false).identity(), Ok(Some(Id { value: 9 })));
    let nil = Command::Group {
        id: Id { value: 3 },
        change: Operation {
            operation_id: Id { value: 0 },
            expected_revision: 1,
            input: GroupChange::Delete,
        },
    };
    assert_eq!(nil.identity(), Err(Error::Malformed));
    assert_eq!(Command::GroupRead { id: Id { value: 3 } }.identity(), Ok(None));
    assert_eq!(
        create(false).target().as_deref(),
        Some("00000000-0000-0000-0000-000000000003")
    );
    assert_eq!(create(false).action(), "management_write");
    assert_eq!(Command::GroupRead { id: Id { value: 3 } }.action(), "management_read");
    assert!(matches!(create(false).partition(), Some(Partition::Group(name)) if name.ends_with('3')));
    assert!(matches!(
        Command::Save { id: "p".into(), request: operation(SavePlan { preview: Id { value: 1 } }) }
            .partition(),
        Some(Partition::Policy(_))
    ));
    assert!(Command::ScopeRead { id: Id { value: 3 } }.partition().is_none());
    let preview = |revision: u64| Operation {
        operation_id: Id { value: 1 },
        expected_revision: 4,
        input: PreviewInput { scope: Id { value: 2 }, expected_revision: revision },
    };
    assert_eq!(admit_preview(&preview(4)), Ok(()));
    assert!(admit_preview(&preview(5)).is_err());
}

fn preview(status: &str, devices: &[&str]) -> Preview {
    let frozen = rss_mdm::management::configuration::Frozen {
        enabled: true,
        policy_status: status.into(),
        version: 1,
        resource_digest: vec![],
        ddf: "d".into(),
        compiled_digest: [0; 32],
        devices: rss_mdm::map::OrderedMap::new(),
    };
    Preview {
        configuration: Some(frozen),
        id: Id { value: 1 },
        policy: "p".into(),
        policy_revision: 1,
        scope: Id { value: 2 },
        scope_revision: 1,
        as_of: 1,
        sources: vec![],
        devices: devices.iter().map(|device| device.to_string()).collect(),
        registrations: vec![],
        explanation: "e".into(),
        plan: FrozenPlan {
            id: "x".into(),
            scheduling_open: true,
            intents: vec![],
            dispatch: Dispatch::NotRequested,
        },
    }
}

#[test]
fn intents_withdraw_versions() {
    let retain = |reason: RetainReason| FrozenIntent::Retain {
        device: "d".into(),
        version: 3,
        reason,
    };
    let active = preview("active", &["d"]);
    let archived = preview("archived", &["d"]);
    let left = preview("active", &[]);
    let cancel = FrozenIntent::Cancel {
        device: "d".into(),
        version: 2,
        reason: CancelReason::Superseded,
    };
    assert_eq!(cancel.cancellation(&active), Some(("d", 2)));
    assert_eq!(retain(RetainReason::Historical).cancellation(&active), None);
    assert_eq!(retain(RetainReason::Historical).cancellation(&archived), Some(("d", 3)));
    assert_eq!(retain(RetainReason::Historical).cancellation(&left), Some(("d", 3)));
    assert_eq!(retain(RetainReason::Current).cancellation(&left), None);
    let add = FrozenIntent::Add { device: "d".into(), version: 1 };
    assert_eq!((add.device(), add.cancellation(&left)), ("d", None));
    assert!(is_listed(&vec!["a".to_string()], "a"));
    assert!(!is_listed(&vec!["a".to_string()], "b"));
}

fn approval() -> Approval {
    Approval { approver: "a".into(), publisher: "p".into(), at: 1, digest: [1; 32] }
}

fn published(outcome: PublicationOutcome) -> RingState {
    RingState::Publication(Publication { id: [7; 32], attempt: 2, outcome, approval: approval() })
}

#[test]
fn releases_are_permitted_step_by_step() {
    let ring = Ring::Pilot;
    for (change, needed) in [
        (
            Change::Candidate {
                resource: "r".into(),
                version: "1".into(),
                expected_resource_revision: 1,
                submission: "s".into(),
            },
            Permission::ReleaseWrite,
        ),
        (Change::Validate { ring }, Permission::ReleaseValidate),
        (
            Change::Approve { ring, publisher_subject: "p".into() },
            Permission::ReleaseApprove,
        ),
        (Change::Authorize { ring }, Permission::ReleasePublish),
        (
            Change::Publish { ring, publication: [7; 32], attempt: 2 },
            Permission::ReleasePublish,
        ),
        (
            Change::Recover { ring, publication: [7; 32], attempt: 2 },
            Permission::ReleaseRecover,
        ),
        (Change::Retry { ring, attempt: 2 }, Permission::ReleaseRecover),
        (Change::Withdraw { ring }, Permission::ReleaseWithdraw),
    ] {
        assert_eq!(permission(&change), needed);
    }
}

#[test]
fn only_the_held_publication_is_published() {
    let publish = |publication: [u8; 32], attempt: u64| Change::Publish {
        ring: Ring::Test,
        publication,
        attempt,
    };
    let open = published(PublicationOutcome::Open);
    assert_eq!(
        perform(&publish([7; 32], 2), 1, Some(&open)),
        Ok(Call::Publish { attempt: 2, recover: false, completed: false })
    );
    assert_eq!(perform(&publish([8; 32], 2), 1, Some(&open)), Err(Error::Conflict));
    assert_eq!(perform(&publish([7; 32], 3), 1, Some(&open)), Err(Error::Conflict));
    assert_eq!(
        perform(&publish([7; 32], 2), 1, Some(&RingState::Validated)),
        Err(Error::Conflict)
    );
    assert_eq!(
        perform(&publish([7; 32], 2), 1, None),
        Err(Error::ManagementNotFound(Missing::Candidate))
    );
    let done = published(PublicationOutcome::Applied);
    let call = perform(&publish([7; 32], 2), 1, Some(&done)).unwrap();
    assert_eq!(
        effect(call, Reply::Published(PublicationOutcome::Applied)),
        Effect::Replayed
    );
    assert_eq!(effect(call, Reply::Published(PublicationOutcome::Open)), Effect::Unknown);
    assert_eq!(effect(Call::Create, Reply::Made { replayed: false }), Effect::Performed);
    assert_eq!(
        effect(Call::Withdraw(Ring::Test), Reply::Withdrawn { complete: false, replayed: true }),
        Effect::Unknown
    );
    assert_eq!(answer(Effect::Performed), Ok(()));
    assert_eq!(answer(Effect::Unknown), Err(Error::CommitUnknown));
    assert_eq!(
        perform(&Change::Withdraw { ring: Ring::Test }, 1, None),
        Err(Error::ManagementNotFound(Missing::Candidate))
    );
}

#[test]
fn driver_failures_become_refusals() {
    for (error, answer) in [
        (ServiceError::Input, Error::Malformed),
        (ServiceError::ArtifactDigest, Error::Malformed),
        (ServiceError::CandidateNotFound, Error::ManagementNotFound(Missing::Candidate)),
        (ServiceError::Identity, Error::Forbidden),
        (ServiceError::Blocked, Error::Conflict),
        (ServiceError::RollbackFailed, Error::CommitUnknown),
        (ServiceError::Other, RUNTIME),
        (
            ServiceError::Diagnostic {
                category: Box::new(ServiceError::Diagnostic {
                    category: Box::new(ServiceError::Conflict),
                }),
            },
            Error::Conflict,
        ),
    ] {
        assert_eq!(failure(&error), answer);
    }
}

#[test]
fn a_release_is_shown_ring_by_ring() {
    let shown = summary(Ring::Production, published(PublicationOutcome::NotApplied));
    assert_eq!((shown.ring, shown.state), ("production", "publication"));
    assert_eq!(shown.publication.unwrap().outcome, "not_applied");
    assert_eq!(shown.approval.unwrap().approver, "a");
    assert_eq!(summary(Ring::Test, RingState::Approved(approval())).state, "approved");
    assert_eq!(summary(Ring::Test, RingState::Validated).state, "validated");
    assert_eq!(summary(Ring::Test, RingState::Candidate).state, "candidate");
    assert_eq!(ring_name(Ring::Pilot), "pilot");
    assert_eq!(disposition(Disposition::Quarantined), "quarantined");
}

fn artifact() -> Artifact {
    Artifact { reference: "a".into(), length: 5, sha256: [4; 32] }
}

#[test]
fn a_variant_reads_back_from_its_stored_form() {
    let software = Variant {
        platform: Platform::Macos,
        architecture: Architecture::Aarch64,
        key: "k".into(),
        declaration: Declaration::Software {
            source: "s".into(),
            package: "p".into(),
            version: "1".into(),
            artifact: artifact(),
            install: "i".into(),
            detect: "d".into(),
            uninstall: Some("u".into()),
        },
    };
    let read = variant_view(&variant(&software));
    assert_eq!(format!("{read:?}"), format!("{software:?}"));
}

#[test]
fn archival_counts_what_refers_to_a_version() {
    match command(&ResourceChange::Archive { version: "1".into() }, 2, 3) {
        ResourceCommand::Archive { version, references } => {
            assert_eq!((version.as_str(), references), ("1", 5))
        }
        other => panic!("{other:?}"),
    }
    assert!(matches!(
        command(&ResourceChange::Create { kind: Kind::Script }, 0, 0),
        ResourceCommand::Create(Kind::Script)
    ));
    assert_eq!(found(Some(1)), Ok(1));
    assert_eq!(found::<u8>(None), Err(Error::ManagementNotFound(Missing::Resource)));
}
