use rss_mdm::error::{Error, Failure};
use rss_mdm::id::Id;
use rss_mdm::management::cursor::{seal, unseal};
use rss_mdm::management::model::{CancelReason, Missing, RetainReason};
use rss_mdm::management::pages::policy::{
    admit_candidate, partition, policy_page, show_intent, Candidate, CandidateIntent,
    CandidateRejection, Effect, ExecutionRecord, Intent, IntentKind, IntentRow, PolicyItems,
    PolicyRows, Progress,
};
use rss_mdm::management::pages::scope::{
    admit_decisions, admit_scope_run, devices_on_page, scope_cursor, scope_page, Identity,
    ScopeDecision, ScopeItems, ScopeRow, ScopeRun,
};
use rss_mdm::management::pages::{
    accept, admit_group_build, current_result, default_limit, group_page, Cursor, GroupBuild,
    GroupPageItems, GroupPageKind, PolicyPageKind, ResultBinding, ScopePageKind,
};
use rss_mdm::management::request::GroupRejection;
use rss_mdm::management::paging::{admit_limit, fitting};
use serde_json::Value;

const GROUP: Id = Id { value: 0x10 };
const RESULT: Id = Id { value: 0x20 };

fn name(kind: GroupPageKind) -> &'static str {
    match kind {
        GroupPageKind::Members => "members",
        GroupPageKind::Changes => "changes",
        GroupPageKind::Decisions => "decisions",
    }
}

/// Writes a cursor of a group's result down and seals it.
fn encode(secret: &[u8], cursor: &Cursor) -> String {
    let (group, kind) = match &cursor.binding {
        ResultBinding::Group { group, kind } => (group.text(), name(*kind)),
        other => panic!("{other:?}"),
    };
    let payload = Value::from(vec![
        cursor.tenant.clone(),
        cursor.result.text(),
        group,
        kind.to_string(),
        cursor.after.clone(),
    ]);
    seal(secret, payload.to_string().into_bytes())
}

/// Reads a sealed cursor of a group's result.
fn decode(
    secret: &[u8],
    token: &str,
    tenant: &str,
    result: Id,
    binding: &ResultBinding,
) -> Result<String, Error> {
    let payload = unseal(secret, token)?;
    let parts: Option<Vec<String>> = serde_json::from_slice(&payload).ok();
    let cursor = parts.map(|parts| Cursor {
        tenant: parts[0].clone(),
        result: Id::parse(&parts[1]).unwrap(),
        binding: ResultBinding::Group {
            group: Id::parse(&parts[2]).unwrap(),
            kind: match parts[3].as_str() {
                "members" => GroupPageKind::Members,
                "changes" => GroupPageKind::Changes,
                _ => GroupPageKind::Decisions,
            },
        },
        after: parts[4].clone(),
    });
    accept(cursor, tenant, result, binding)
}

#[test]
fn cursors_bind_tenant_owner_result_and_projection() {
    let key = b"test-only";
    let binding = ResultBinding::Group { group: GROUP, kind: GroupPageKind::Members };
    let token = encode(
        key,
        &Cursor {
            tenant: "tenant-a".into(),
            result: RESULT,
            binding: ResultBinding::Group { group: GROUP, kind: GroupPageKind::Members },
            after: "device-1".into(),
        },
    );
    assert_eq!(
        decode(key, &token, "tenant-a", RESULT, &binding).unwrap(),
        "device-1"
    );
    assert!(decode(key, &token, "tenant-b", RESULT, &binding).is_err());
    assert!(decode(key, &token, "tenant-a", Id { value: 0x21 }, &binding).is_err());
    for other in [
        ResultBinding::Group { group: Id { value: 0x11 }, kind: GroupPageKind::Members },
        ResultBinding::Group { group: GROUP, kind: GroupPageKind::Decisions },
        ResultBinding::Scope { scope: GROUP, kind: ScopePageKind::Members },
    ] {
        assert!(decode(key, &token, "tenant-a", RESULT, &other).is_err());
    }
    assert!(decode(key, &format!("{token}x"), "tenant-a", RESULT, &binding).is_err());
    assert!(decode(b"other", &token, "tenant-a", RESULT, &binding).is_err());
}

#[test]
fn tokens_are_bounded_and_not_forged() {
    let token = seal(b"secret", b"payload".to_vec());
    assert_eq!(unseal(b"secret", &token), Ok(b"payload".to_vec()));
    assert!(unseal(b"secret", "").is_err());
    assert!(unseal(b"secret", "not a token").is_err());
    assert!(unseal(b"secret", &"A".repeat(5000)).is_err());
    assert!(unseal(b"secret", &token[1..]).is_err());
    assert_ne!(token, "payload");
    let whole = seal(b"secret", b"a".to_vec());
    assert_eq!(whole.len() % 4, 0);
    assert_eq!(unseal(b"secret", &format!("{whole}A")), Err(Error::Malformed));
    let two_over = seal(b"secret", b"ab".to_vec());
    assert_eq!(two_over.len() % 4, 2);
    assert_eq!(unseal(b"secret", &format!("{two_over}x")), Err(Error::Malformed));
    let three_over = seal(b"secret", b"abc".to_vec());
    assert_eq!(three_over.len() % 4, 3);
    assert_eq!(unseal(b"secret", &format!("{three_over}x")), Err(Error::Conflict));
}

#[test]
fn a_token_is_the_payload_and_its_tag_in_text() {
    let payload = b"The quick brown fox jumps over the lazy dog".to_vec();
    let token = "VGhlIHF1aWNrIGJyb3duIGZveCBqdW1wcyBvdmVyIHRoZSBsYXp5IGRvZ_e8\
                 g_QwU4QksTKY5qpvsUPvTVmhSUYXWZdHnbwtGjzY";
    assert_eq!(seal(b"key", payload.clone()), token);
    assert_eq!(unseal(b"key", token), Ok(payload));
    assert_eq!(unseal(b"kez", token), Err(Error::Conflict));
    assert_eq!(unseal(b"key", &format!("{token}=")), Err(Error::Malformed));
    assert_eq!(unseal(b"key", &token[..40]), Err(Error::Malformed));
}

#[test]
fn pages_are_limited() {
    assert_eq!(default_limit(), 1000);
    assert_eq!(admit_limit(1), Ok(()));
    assert_eq!(admit_limit(1000), Ok(()));
    assert_eq!(admit_limit(0), Err(Error::Malformed));
    assert_eq!(admit_limit(1001), Err(Error::Malformed));
    assert_eq!(fitting(&vec![5, 5, 5], 10), 2);
    assert_eq!(fitting(&vec![11, 1], 10), 0);
    assert_eq!(fitting(&vec![], 10), 0);
    assert_eq!(fitting(&vec![3, 3], 10), 2);
}

fn build(group: Id, ready: bool) -> GroupBuild {
    GroupBuild { group, ready, objects: 9, members: 2 }
}

#[test]
fn a_group_page_continues_behind_its_last_row() {
    assert_eq!(admit_group_build(&build(GROUP, true), GROUP), Ok(()));
    assert!(admit_group_build(&build(Id { value: 1 }, true), GROUP).is_err());
    assert!(admit_group_build(&build(GROUP, false), GROUP).is_err());
    let rows = GroupPageItems::Members { items: vec!["a".into(), "b".into()] };
    let page = group_page("tenant-a", RESULT, &build(GROUP, true), Some(RESULT), rows, 2, None);
    assert!(page.current);
    assert_eq!((page.total_objects, page.total_members), (9, 2));
    let next = page.next.unwrap();
    assert_eq!(next.after, "b");
    assert_eq!(
        accept(
            Some(next),
            "tenant-a",
            RESULT,
            &ResultBinding::Group { group: GROUP, kind: GroupPageKind::Members }
        ),
        Ok("b".to_string())
    );
    let rows = GroupPageItems::Changes { added: vec!["a".into()], removed: vec![] };
    let page = group_page(
        "tenant-a",
        RESULT,
        &build(GROUP, true),
        None,
        rows,
        2,
        Some("a".into()),
    );
    assert!(!page.current);
    assert_eq!(page.next.unwrap().after, "a");
}

#[test]
fn a_result_outlives_its_group() {
    let page = |found: Result<Option<Id>, GroupRejection>| {
        let rows = GroupPageItems::Members { items: vec!["a".into(), "b".into()] };
        let current = current_result(found).unwrap();
        group_page("tenant-a", RESULT, &build(GROUP, true), current, rows, 2, None)
    };
    let before = page(Ok(Some(RESULT)));
    let after = page(Err(GroupRejection::Deleted));
    assert!(before.current && !after.current);
    assert_eq!(before.next.unwrap().after, after.next.unwrap().after);
    assert_eq!(before.total_members, after.total_members);
    assert!(!page(Err(GroupRejection::NotFound)).current);
    assert_eq!(current_result(Err(GroupRejection::Other)), Err(Error::Conflict));
}

#[test]
fn a_scope_page_tells_its_result_and_goes_on() {
    let run = ScopeRun {
        phase: "published".into(),
        object_count: 3,
        member_count: 1,
        current: true,
    };
    let devices = vec!["a".to_string()];
    let items = ScopeItems::Members { items: vec!["a".into()] };
    let page = scope_page("t", RESULT, GROUP, &run, vec![], &devices, items);
    assert_eq!((page.result, page.scope, page.current), (RESULT, GROUP, true));
    assert_eq!((page.total_objects, page.total_members), (3, 1));
    let binding = ResultBinding::Scope { scope: GROUP, kind: ScopePageKind::Members };
    assert_eq!(accept(page.next, "t", RESULT, &binding), Ok("a".to_string()));
    let items = ScopeItems::Decisions { items: vec![] };
    let page = scope_page("t", RESULT, GROUP, &run, vec![], &vec![], items);
    assert!(page.next.is_none() && matches!(page.page, ScopeItems::Decisions { .. }));
}

#[test]
fn a_scope_page_needs_a_published_result() {
    let run = |phase: &str| ScopeRun {
        phase: phase.into(),
        object_count: 3,
        member_count: 1,
        current: true,
    };
    assert_eq!(admit_scope_run(Some(&run("published"))), Ok(()));
    assert_eq!(admit_scope_run(Some(&run("ready"))), Err(Error::Conflict));
    assert_eq!(admit_scope_run(None), Err(Error::NotFound));
    let row = |device: &str, bytes: u32| ScopeRow { device: device.into(), bytes };
    let rows = vec![row("a", 8_000_000), row("b", 8_000_000)];
    assert_eq!(devices_on_page(&rows, ScopePageKind::Decisions), ["a"]);
    assert_eq!(devices_on_page(&rows, ScopePageKind::Members), ["a", "b"]);
    let devices = vec!["a".to_string(), "b".to_string()];
    let next = scope_cursor("t", RESULT, GROUP, ScopePageKind::Members, &devices).unwrap();
    assert_eq!(next.after, "b");
    assert!(scope_cursor("t", RESULT, GROUP, ScopePageKind::Members, &vec![]).is_none());
}

#[test]
fn stored_decisions_speak_of_their_device_and_known_sources() {
    let decision = |device: &str, sources: Vec<usize>| ScopeDecision {
        device: device.into(),
        identity: Identity::Active,
        reasons: vec![],
        sources,
    };
    let rows = vec![("a".to_string(), decision("a", vec![0, 1]))];
    assert_eq!(admit_decisions(rows, 2).unwrap().len(), 1);
    for rows in [
        vec![("a".to_string(), decision("b", vec![0]))],
        vec![("a".to_string(), decision("a", vec![2]))],
    ] {
        assert!(matches!(
            admit_decisions(rows, 2),
            Err(Error::Unavailable(Failure::ManagementStorage))
        ));
    }
}

fn record(progress: Progress, effect: Effect) -> ExecutionRecord {
    ExecutionRecord { device: "d".into(), version: 4, progress, effect }
}

#[test]
fn executions_and_intents_are_shown_by_name() {
    for (progress, shown) in [
        (Progress::Planned, "planned"),
        (Progress::Running, "running"),
        (Progress::Unknown, "unknown"),
        (Progress::Succeeded, "succeeded"),
        (Progress::Failed, "failed"),
        (Progress::Cancelled, "cancelled"),
    ] {
        match show_intent(CandidateIntent::Retain {
            execution: record(progress, Effect::VerifiedPresent),
            reason: RetainReason::Paused,
        }) {
            Intent::Retain { execution, reason } => {
                assert_eq!(execution.progress, shown);
                assert_eq!(execution.effect, "verified_present");
                assert_eq!(reason, "paused");
            }
            other => panic!("{other:?}"),
        }
    }
    match show_intent(CandidateIntent::Cancel {
        execution: record(Progress::Running, Effect::VerifiedAbsent),
        reason: CancelReason::ScopeExit,
    }) {
        Intent::Cancel { execution, reason } => {
            assert_eq!((execution.effect, reason), ("verified_absent", "scope_exit"))
        }
        other => panic!("{other:?}"),
    }
    for (supersedes, added) in [(false, true), (true, false)] {
        let shown = show_intent(CandidateIntent::Desired {
            device: "d".into(),
            version: 4,
            supersedes,
            previous_versions: vec![],
        });
        assert_eq!(matches!(shown, Intent::Add { .. }), added);
        assert_eq!(matches!(shown, Intent::Supersede { .. }), !added);
    }
}

#[test]
fn a_policy_page_shows_targets_or_intents() {
    assert_eq!(partition(PolicyPageKind::Targets), None);
    assert_eq!(partition(PolicyPageKind::Add), Some(IntentKind::Add));
    assert_eq!(partition(PolicyPageKind::Predecessors), Some(IntentKind::Predecessors));
    let candidate = |plan: Option<[u8; 32]>| Candidate {
        policy: "p".into(),
        plan,
        target_count: 5,
        fact_count: 6,
    };
    assert_eq!(admit_candidate(&Ok(candidate(Some([3; 32]))), "p"), Ok([3; 32]));
    assert!(admit_candidate(&Ok(candidate(Some([3; 32]))), "q").is_err());
    assert!(admit_candidate(&Ok(candidate(None)), "p").is_err());
    assert_eq!(
        admit_candidate(&Err(CandidateRejection::NotFound), "p"),
        Err(Error::ManagementNotFound(Missing::Preview))
    );
    assert_eq!(admit_candidate(&Err(CandidateRejection::Other), "p"), Err(Error::Conflict));
    let rows = PolicyRows::Targets(vec!["a".into(), "b".into()]);
    let page =
        policy_page("t", RESULT, PolicyPageKind::Targets, &candidate(None), [0xab; 32], rows);
    assert_eq!(page.plan, "ab".repeat(32));
    assert_eq!((page.total_targets, page.total_executions), (5, 6));
    assert_eq!(page.next.unwrap().after, "b");
    assert!(matches!(page.page, PolicyItems::Targets { .. }));
    let rows = PolicyRows::Intents(vec![IntentRow {
        position: "7".into(),
        intent: CandidateIntent::Predecessor {
            execution: record(Progress::Planned, Effect::Unverified),
            successor_version: 5,
        },
    }]);
    let page =
        policy_page("t", RESULT, PolicyPageKind::Predecessors, &candidate(None), [0; 32], rows);
    assert_eq!(page.next.unwrap().after, "7");
    match page.page {
        PolicyItems::Intents { items } => {
            assert!(matches!(items[0], Intent::Predecessor { successor_version: 5, .. }))
        }
        other => panic!("{other:?}"),
    }
}
