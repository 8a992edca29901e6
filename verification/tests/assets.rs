use rss_mdm::error::{Error, Failure};
use rss_mdm::id::Id;
use rss_mdm::inventory::{Evidence, Kind, KnownValue, ResolvedField, Scalar, SourceFact, State};
use rss_mdm::management::assets::criteria::{criteria_view, rule, Limits};
use rss_mdm::management::assets::facts::{digest, fact, observed_at, snapshot};
use rss_mdm::management::assets::model::{
    authorize, Authority, Command, Criteria, DeviceView, Facet, FieldDefinition, ManualChange,
    Operator, Owner, Query, ReadScope, SavedChange, SavedDefinition, Sort,
};
use rss_mdm::management::assets::quality::{decode, Attempt as CollectionAttempt};
use rss_mdm::management::assets::query::{
    add_totals, advance_asset_query, document_digest, next_attempt, state_name, validate_query,
    AssetPage, Attempt, Decision, FacetKey, NextAttempt, QueryTotals, FIRST_ATTEMPT,
};
use rss_mdm::management::assets::query_read::{
    accept, admit_document, admit_read, facet_cursor, facet_position, items_on_page,
    items_position, query_state, result_url, Cursor, FacetCount, ItemRow, Position, QueryRun,
};
use rss_mdm::management::assets::query_sort::key;
use rss_mdm::management::assets::reader::{digest as reader_digest, document};
use rss_mdm::management::assets::snapshot::{
    admit_bytes, admit_lookup, admit_objects, admit_page, assemble, cut_page, frozen_rules,
    live_rules, CollectionRow, ManualRow, ObservedRow, SourceRow,
};
use rss_mdm::management::assets::store::{
    assign_asset, detail, narrow, saved_execute, saved_list, saved_read, saved_write, written,
    AssignmentFindings, SavedView, SavedWrite,
};
use rss_mdm::management::cursor::{seal, unseal};
use rss_mdm::management::model::Operation;
use rss_mdm::set::OrderedSet;
use sha2::Digest;

const LIMITS: Limits = Limits { depth: 8, nodes: 64, set_items: 100 };

fn field(key: &str, kind: Kind, manual: bool) -> FieldDefinition {
    FieldDefinition {
        key: key.into(),
        kind,
        operations: vec![Operator::Eq, Operator::Ge, Operator::In, Operator::IsNull],
        nullable: true,
        manual,
    }
}

fn catalog() -> Vec<FieldDefinition> {
    vec![
        field("os.version", Kind::String, false),
        field("custom.office_floor", Kind::Integer, true),
    ]
}

fn floor(op: Operator, value: Option<Scalar>, values: Option<Vec<Scalar>>) -> Criteria {
    Criteria::Predicate { field: "custom.office_floor".into(), op, value, values }
}

#[test]
fn one_typed_condition_round_trips_through_the_existing_group_core() {
    let condition = floor(Operator::Ge, Some(Scalar::Integer(3)), None);
    let found = rule(&condition, true, &catalog(), LIMITS).unwrap();
    match criteria_view(&found, &catalog()).unwrap() {
        Criteria::Predicate { field, op, value, values } => {
            assert_eq!(field, "custom.office_floor");
            assert_eq!(op, Operator::Ge);
            assert_eq!(value, Some(Scalar::Integer(3)));
            assert_eq!(values, None);
        }
        other => panic!("{other:?}"),
    }
    let invalid = floor(Operator::Eq, Some(Scalar::String("3".into())), None);
    assert!(rule(&invalid, true, &catalog(), LIMITS).is_err());
}

#[test]
fn conditions_are_refused_where_they_do_not_fit() {
    let three = || Some(Scalar::Integer(3));
    for condition in [
        floor(Operator::Ge, None, None),
        floor(Operator::Ge, three(), Some(vec![])),
        floor(Operator::In, three(), None),
        floor(Operator::IsNull, three(), None),
        floor(Operator::Contains, three(), None),
        Criteria::Predicate {
            field: "unknown".into(),
            op: Operator::Eq,
            value: three(),
            values: None,
        },
        floor(Operator::In, None, Some((0..101).map(Scalar::Integer).collect())),
    ] {
        assert!(matches!(rule(&condition, true, &catalog(), LIMITS), Err(Error::Malformed)));
    }
    let nested = |depth: usize| {
        let mut condition = floor(Operator::IsNull, None, None);
        for _ in 1..depth {
            condition = Criteria::And { children: vec![condition] };
        }
        condition
    };
    assert!(rule(&nested(8), true, &catalog(), LIMITS).is_ok());
    assert!(rule(&nested(9), true, &catalog(), LIMITS).is_err());
    let wide = |nodes: usize| Criteria::Or {
        children: (1..nodes).map(|_| floor(Operator::IsNull, None, None)).collect(),
    };
    assert!(rule(&wide(64), true, &catalog(), LIMITS).is_ok());
    assert!(rule(&wide(65), true, &catalog(), LIMITS).is_err());
    let members = floor(Operator::In, None, Some(vec![Scalar::Integer(1), Scalar::Integer(2)]));
    assert!(rule(&members, true, &catalog(), LIMITS).is_ok());
    assert!(matches!(rule(&members, false, &catalog(), LIMITS), Err(Error::Malformed)));
}

#[test]
fn scalar_index_order_preserves_prefix_unicode_numeric_and_unknown_semantics() {
    let text = |value: &str| Scalar::String(value.into());
    let lists = vec![
        vec![text(""), text("a"), text("a\0"), text("aa"), text("é"), text("设备")],
        vec![
            Scalar::Integer(i64::MIN),
            Scalar::Integer(-1),
            Scalar::Integer(0),
            Scalar::Integer(1),
            Scalar::Integer(i64::MAX),
        ],
        vec![Scalar::Boolean(false), Scalar::Boolean(true)],
    ];
    for values in lists {
        for descending in [false, true] {
            let mut keys: Vec<(Vec<u8>, usize)> = values
                .iter()
                .enumerate()
                .map(|(at, value)| (key(Some(&State::Known(value.copy())), descending), at))
                .collect();
            keys.sort();
            let order: Vec<usize> = keys.iter().map(|(_, at)| *at).collect();
            let expected: Vec<usize> = if descending {
                (0..values.len()).rev().collect()
            } else {
                (0..values.len()).collect()
            };
            assert_eq!(order, expected);
            let unknown = key(None, descending);
            assert!(keys.iter().all(|(known, _)| *known < unknown));
            assert_eq!(key(Some(&State::Missing), descending), unknown);
        }
    }
    assert_eq!(key(Some(&State::Null), false), key(Some(&State::Conflict), true));
}

fn query(select: &[&str], criteria: Option<Criteria>) -> Query {
    Query { criteria, select: select.iter().map(|name| name.to_string()).collect(), sort: None }
}

#[test]
fn queries_are_valid_where_they_can_be_prepared() {
    let valid = |query: Query| validate_query(&query, true, &catalog(), LIMITS);
    assert_eq!(valid(query(&[], None)), Ok(()));
    assert_eq!(valid(query(&["os.version", "custom.office_floor"], None)), Ok(()));
    assert_eq!(valid(query(&["os.version", "os.version"], None)), Err(Error::Malformed));
    assert_eq!(valid(query(&["a", "b", "c"], None)), Err(Error::Malformed));
    assert_eq!(valid(query(&["no.such.field"], None)), Err(Error::Malformed));
    let bad = floor(Operator::Ge, None, None);
    assert_eq!(valid(query(&[], Some(bad))), Err(Error::Malformed));
    let sorted = |field: &str| Query {
        criteria: None,
        select: vec!["os.version".into()],
        sort: Some(Sort { field: field.into(), descending: true }),
    };
    assert_eq!(valid(sorted("custom.office_floor")), Ok(()));
    assert_eq!(valid(sorted("no.such.field")), Err(Error::Malformed));
}

#[test]
fn conditions_are_refused_where_their_owners_refuse_them() {
    let fits = || Some(floor(Operator::Ge, Some(Scalar::Integer(3)), None));
    let valid = |query: Query, sound| validate_query(&query, sound, &catalog(), LIMITS);
    assert_eq!(valid(query(&[], fits()), true), Ok(()));
    assert_eq!(valid(query(&[], fits()), false), Err(Error::Malformed));
    assert_eq!(valid(query(&[], None), false), Ok(()));
    let write = |sound| {
        let definition = SavedDefinition { name: "mine".into(), query: query(&[], fits()) };
        let change = Operation {
            operation_id: Id { value: 1 },
            expected_revision: 0,
            input: SavedChange::Put { definition },
        };
        saved_write(Id { value: 1 }, &change, Ok(()), sound, 10, &catalog(), LIMITS)
    };
    assert_eq!(write(true), Ok(SavedWrite::Insert));
    assert_eq!(write(false), Err(Error::Malformed));
}

#[test]
fn pages_that_are_too_large_are_tried_smaller() {
    let bytes = Error::Unavailable(Failure::AssetBytesLimit);
    let sources = Error::Unavailable(Failure::AssetSourceLimit);
    assert_eq!(FIRST_ATTEMPT, 128);
    assert_eq!(next_attempt(128, Attempt::Done), NextAttempt::Proceed);
    assert_eq!(next_attempt(128, Attempt::Unread(bytes)), NextAttempt::Retry(64));
    assert_eq!(next_attempt(3, Attempt::Unread(sources)), NextAttempt::Retry(1));
    assert_eq!(next_attempt(1, Attempt::Unread(bytes)), NextAttempt::Refuse(bytes));
    assert_eq!(
        next_attempt(128, Attempt::Unread(Error::NotFound)),
        NextAttempt::Refuse(Error::NotFound)
    );
    assert_eq!(next_attempt(2, Attempt::Undecided), NextAttempt::Retry(1));
    assert_eq!(next_attempt(1, Attempt::Undecided), NextAttempt::Refuse(bytes));
    assert_eq!(
        next_attempt(128, Attempt::Undecidable),
        NextAttempt::Refuse(Error::Malformed)
    );
}

fn evidence(source: &str, observed_at: i64) -> Evidence {
    Evidence {
        source: source.into(),
        registration: None,
        registration_generation: None,
        epoch: None,
        snapshot_id: "s".into(),
        observed_at,
        received_at: observed_at,
        actor: None,
    }
}

fn source_fact(state: State, observed_at: i64) -> SourceFact {
    SourceFact { state, last_known: None, evidence: evidence("agent", observed_at) }
}

fn resolved(state: State, times: &[i64]) -> ResolvedField {
    ResolvedField {
        state,
        sources: times.iter().map(|time| source_fact(State::Missing, *time)).collect(),
    }
}

fn device(name: &str, channels: &[&str], os: State) -> DeviceView {
    let mut kept: OrderedSet<String> = OrderedSet::new();
    for channel in channels {
        kept.insert(channel.to_string());
    }
    DeviceView {
        device: name.into(),
        channels: kept,
        fields: vec![
            ("os.version".into(), resolved(os, &[3, 9, 4])),
            ("custom.office_floor".into(), resolved(State::Null, &[])),
        ],
        quality: vec![],
        revisions: vec![],
    }
}

#[test]
fn a_page_of_a_query_keeps_matches_and_counts_their_labels() {
    let windows = || State::Known(Scalar::String("10".into()));
    let page = AssetPage {
        devices: vec![
            device("a", &["mdm", "agent"], windows()),
            device("b", &["mdm"], windows()),
            device("c", &["mdm"], State::Missing),
        ],
        next: Some("c".into()),
    };
    let mut sorted = query(&[], None);
    sorted.sort = Some(Sort { field: "os.version".into(), descending: false });
    let decisions = vec![Decision::Match, Decision::NoMatch, Decision::Unknown];
    let step = advance_asset_query(&sorted, page, &decisions, None, "os.version");
    assert_eq!(step.rows.len(), 1);
    assert_eq!(step.rows[0].device.device, "a");
    assert_eq!(step.rows[0].key, key(Some(&windows()), false));
    assert_eq!((step.total, step.unknown), (3, 1));
    assert_eq!(step.cursor.as_deref(), Some("c"));
    assert!(!step.done);
    let count = |facet: Facet, label: &str| {
        step.facets.get(&FacetKey { facet, label: label.into() }).copied()
    };
    assert_eq!(count(Facet::Channels, "mdm"), Some(1));
    assert_eq!(count(Facet::Channels, "agent"), Some(1));
    assert_eq!(count(Facet::OsVersions, "10"), Some(1));
    assert_eq!(count(Facet::AssetStates, "known"), Some(1));
    assert_eq!(count(Facet::AssetStates, "null"), Some(1));
    assert_eq!(count(Facet::AssetStates, "missing"), None);
}

#[test]
fn a_query_in_pages_counts_each_device_once() {
    let page = |names: &[&str], next: Option<&str>| AssetPage {
        devices: names.iter().map(|name| device(name, &["mdm"], State::Null)).collect(),
        next: next.map(str::to_string),
    };
    let plain = query(&[], None);
    let first = page(&["a", "b"], Some("b"));
    let decisions = vec![Decision::Match, Decision::Unknown];
    let first = advance_asset_query(&plain, first, &decisions, None, "os.version");
    assert!(first.rows.len() as u64 + first.unknown <= first.total);
    assert_eq!(first.cursor.as_deref(), Some("b"));
    let second = page(&["c"], None);
    let decisions = vec![Decision::Match];
    let second = advance_asset_query(&plain, second, &decisions, first.cursor, "os.version");
    assert!(second.done);
    let mut totals = QueryTotals { total: 0, matched: 0, unknown: 0 };
    for (total, rows, unknown) in [
        (first.total, first.rows.len(), first.unknown),
        (second.total, second.rows.len(), second.unknown),
    ] {
        totals = add_totals(totals, total, rows as u64, unknown).unwrap();
    }
    assert_eq!((totals.total, totals.matched, totals.unknown), (3, 2, 1));
    assert_ne!(first.rows[0].device.device, second.rows[0].device.device);
}

#[test]
fn an_attempt_that_is_not_kept_adds_nothing() {
    let page = |names: &[&str], next: Option<&str>| AssetPage {
        devices: names.iter().map(|name| device(name, &["mdm"], State::Null)).collect(),
        next: next.map(str::to_string),
    };
    let plain = query(&[], None);
    // Each attempt: the devices behind the position, what is behind them, and
    // whether it was kept.
    let attempts: [(&[&str], Option<&str>, bool); 4] = [
        (&["a", "b"], Some("b"), true),
        (&["c", "d"], Some("d"), false),
        (&["c"], Some("c"), true),
        (&["d"], None, true),
    ];
    let mut position: Option<String> = None;
    let mut totals = QueryTotals { total: 0, matched: 0, unknown: 0 };
    let mut seen: Vec<String> = vec![];
    let mut done = false;
    for (names, next, committed) in attempts {
        assert!(!done);
        let decisions: Vec<Decision> = names.iter().map(|_| Decision::Match).collect();
        let step = advance_asset_query(
            &plain,
            page(names, next),
            &decisions,
            position.clone(),
            "os.version",
        );
        if committed {
            let matched = step.rows.len() as u64;
            totals = add_totals(totals, step.total, matched, step.unknown).unwrap();
            seen.extend(step.rows.iter().map(|row| row.device.device.clone()));
            position = step.cursor;
            done = step.done;
        }
    }
    assert!(done);
    assert_eq!(seen, ["a", "b", "c", "d"]);
    assert_eq!((totals.total, totals.matched, totals.unknown), (4, 4, 0));
}

#[test]
fn readers_are_known_by_who_they_are_and_what_they_see() {
    assert_eq!(document(&scope("s", None)), r#"{"subject":"s","devices":null}"#);
    assert_eq!(document(&scope("s", Some(&[]))), r#"{"subject":"s","devices":[]}"#);
    assert_eq!(
        document(&scope("i\"p", Some(&["b", "a"]))),
        r#"{"subject":"i\"p","devices":["a","b"]}"#
    );
    let hex: String = sha2::Sha256::digest(br#"{"subject":"s","devices":["a"]}"#)
        .iter()
        .map(|byte| format!("{byte:02x}"))
        .collect();
    let own = || reader_digest(&scope("s", Some(&["a"])));
    assert_eq!(own(), hex);
    assert_ne!(own(), reader_digest(&scope("t", Some(&["a"]))));
    assert_ne!(own(), reader_digest(&scope("s", Some(&["a", "b"]))));
    assert_ne!(own(), reader_digest(&scope("s", Some(&[]))));
    assert_ne!(own(), reader_digest(&scope("s", None)));
}

#[test]
fn states_and_facets_are_named() {
    for (state, name) in [
        (State::Known(Scalar::Boolean(true)), "known"),
        (State::Null, "null"),
        (State::Missing, "missing"),
        (State::Deleted, "deleted"),
        (State::Conflict, "conflict"),
        (State::Unsupported, "unsupported"),
    ] {
        assert_eq!(state_name(&state), name);
    }
    assert_eq!(Facet::OsVersions.as_str(), "os_versions");
    assert_eq!(Facet::Channels.as_str(), "channels");
    assert_eq!(Facet::AssetStates.as_str(), "asset_states");
}

#[test]
fn results_are_bounded() {
    let totals = QueryTotals { total: 999_999, matched: 10, unknown: 1 };
    let added = add_totals(totals, 1, 1, 0).unwrap();
    assert_eq!((added.total, added.matched, added.unknown), (1_000_000, 11, 1));
    assert!(matches!(
        add_totals(totals, 2, 1, 0),
        Err(Error::Unavailable(Failure::AssetObjectLimit))
    ));
    let first = add_totals(QueryTotals { total: 0, matched: 0, unknown: 0 }, 3, 1, 2).unwrap();
    let second = add_totals(first, 2, 2, 0).unwrap();
    assert_eq!((second.total, second.matched, second.unknown), (5, 3, 2));
    let digest: [u8; 32] = sha2::Sha256::digest(b"document").into();
    assert_eq!(document_digest(&b"document".to_vec()), Ok(digest));
    assert!(document_digest(&vec![0; 1_048_576]).is_ok());
    assert!(document_digest(&vec![0; 1_048_577]).is_err());
}

fn scope(subject: &str, devices: Option<&[&str]>) -> ReadScope {
    ReadScope {
        subject: subject.into(),
        devices: devices.map(|names| {
            let mut kept: OrderedSet<String> = OrderedSet::new();
            for name in names {
                kept.insert(name.to_string());
            }
            kept
        }),
    }
}

fn run(owner: Option<ReadScope>, completed: bool, failure: Option<&str>) -> QueryRun {
    QueryRun {
        owner,
        completed,
        forwarded: true,
        failure: failure.map(str::to_string),
        total: 9,
        matched: 4,
        unknown: 2,
    }
}

#[test]
fn a_query_task_is_shown_to_its_reader() {
    let mine = || scope("i:p", Some(&["a"]));
    let state = query_state(Some(run(Some(mine()), true, None)), &mine()).unwrap();
    assert!(state.ready);
    assert_eq!(state.status, "completed");
    assert_eq!((state.summary.total, state.summary.matched, state.summary.unknown), (9, 4, 2));
    let state = query_state(Some(run(Some(mine()), true, Some("late"))), &mine()).unwrap();
    assert!(!state.ready);
    assert_eq!((state.status, state.failure.as_deref()), ("failed", Some("late")));
    let state = query_state(Some(run(Some(mine()), false, None)), &mine()).unwrap();
    assert_eq!(state.status, "running");
    assert!(matches!(query_state(None, &mine()), Err(Error::NotFound)));
    assert!(matches!(
        query_state(Some(run(None, true, None)), &mine()),
        Err(Error::Unavailable(Failure::ManagementStorage))
    ));
    for other in [scope("i:q", Some(&["a"])), scope("i:p", Some(&["b"])), scope("i:p", None)] {
        assert!(matches!(
            query_state(Some(run(Some(mine()), true, None)), &other),
            Err(Error::Forbidden)
        ));
    }
    let task = Id { value: 7 };
    assert_eq!(
        result_url(task, true).as_deref(),
        Some("/api/v2/device-queries/00000000-0000-0000-0000-000000000007/items")
    );
    assert_eq!(result_url(task, false), None);
    assert_eq!(admit_read(1000, true), Ok(()));
    assert_eq!(admit_read(0, true), Err(Error::Malformed));
    assert_eq!(admit_read(1001, false), Err(Error::Malformed));
    assert_eq!(admit_read(1, false), Err(Error::Conflict));
}

#[test]
fn query_cursors_bind_tenant_task_reader_and_projection() {
    let task = Id { value: 7 };
    let cursor = || Cursor {
        tenant: "tenant-a".into(),
        task,
        scope: "digest".into(),
        position: Position::Items { key: vec![1], device: "d".into() },
    };
    let position = accept(Some(cursor()), "tenant-a", task, "digest").unwrap();
    assert_eq!(items_position(position), Ok((vec![1], "d".to_string())));
    assert!(matches!(accept(None, "tenant-a", task, "digest"), Err(Error::Malformed)));
    for (tenant, of, reader) in [
        ("tenant-b", task, "digest"),
        ("tenant-a", Id { value: 8 }, "digest"),
        ("tenant-a", task, "other"),
    ] {
        assert!(matches!(accept(Some(cursor()), tenant, of, reader), Err(Error::Conflict)));
    }
    let token = seal(b"secret", b"position".to_vec());
    assert_eq!(unseal(b"secret", &token), Ok(b"position".to_vec()));
    let read = accept(Some(cursor()), "tenant-a", task, "narrowed");
    assert!(matches!(read, Err(Error::Conflict)));
    let facet = || Position::Facet { facet: Facet::Channels, label: "mdm".into() };
    assert_eq!(facet_position(facet(), Facet::Channels), Ok("mdm".to_string()));
    assert!(facet_position(facet(), Facet::OsVersions).is_err());
    assert!(items_position(facet()).is_err());
    assert!(facet_position(
        Position::Items { key: vec![], device: "d".into() },
        Facet::Channels
    )
    .is_err());
    let counts = vec![
        FacetCount { label: "agent".into(), total: 1 },
        FacetCount { label: "mdm".into(), total: 2 },
    ];
    match facet_cursor(Facet::Channels, &counts) {
        Some(Position::Facet { label, .. }) => assert_eq!(label, "mdm"),
        other => panic!("{other:?}"),
    }
    assert!(facet_cursor(Facet::Channels, &vec![]).is_none());
}

#[test]
fn items_fill_a_page_by_their_bytes() {
    let row = |device: &str, bytes: u32| ItemRow { device: device.into(), key: vec![9], bytes };
    let (devices, next) = items_on_page(vec![row("a", 10), row("b", 10)]);
    assert_eq!(devices, ["a", "b"]);
    match next {
        Some(Position::Items { key, device }) => assert_eq!((key, device.as_str()), (vec![9], "b")),
        other => panic!("{other:?}"),
    }
    let (devices, _) = items_on_page(vec![row("a", 8_388_608), row("b", 8_388_608)]);
    assert_eq!(devices, ["a"]);
    let (devices, next) = items_on_page(vec![]);
    assert!(devices.is_empty() && next.is_none());
    let digest = sha2::Sha256::digest(b"document").to_vec();
    let document = b"document".to_vec();
    assert_eq!(admit_document(&document, &digest, "d", "d"), Ok(()));
    assert!(admit_document(&document, &digest, "d", "e").is_err());
    assert!(admit_document(&b"other".to_vec(), &digest, "d", "d").is_err());
}

#[test]
fn readers_see_what_their_scope_admits() {
    let some = scope("i:p", Some(&["a", "b"]));
    assert!(some.permits(&"a".to_string()));
    assert!(!some.permits(&"c".to_string()));
    assert_eq!(some.full(), Err(Error::Forbidden));
    let all = ReadScope::all();
    assert_eq!((all.subject.as_str(), all.full()), ("group", Ok(())));
    assert!(all.permits(&"c".to_string()));
    let own = ReadScope::from_proof("i", "p", None);
    assert_eq!(own.subject, "i:p");
    let narrowed = narrow(&some, &"b".to_string()).unwrap();
    assert!(narrowed.permits(&"b".to_string()) && !narrowed.permits(&"a".to_string()));
    assert_eq!(narrowed.subject, "i:p");
    assert!(matches!(narrow(&some, &"c".to_string()), Err(Error::Forbidden)));
    assert_eq!(detail(vec![1, 2]), Ok(1));
    assert_eq!(detail::<u8>(vec![]), Err(Error::NotFound));
}

#[test]
fn asset_requests_need_their_device_or_their_scope() {
    let authority = |assign: Result<(), Error>, read: Result<(), Error>| Authority {
        may_assign: assign,
        may_read: read,
        scope: Ok(scope("i:p", Some(&["a"]))),
    };
    let detail = Command::Detail { device: "a".into(), scope: scope("i:p", Some(&["a"])) };
    assert_eq!(authorize(&authority(Err(Error::Forbidden), Ok(())), &detail), Ok(()));
    assert_eq!(
        authorize(&authority(Ok(()), Err(Error::Forbidden)), &detail),
        Err(Error::Forbidden)
    );
    let status = |of: ReadScope| Command::QueryStatus { task: Id { value: 1 }, scope: of };
    let granted = authority(Err(Error::Forbidden), Err(Error::Forbidden));
    assert_eq!(authorize(&granted, &status(scope("i:p", Some(&["a"])))), Ok(()));
    assert_eq!(authorize(&granted, &status(scope("i:p", None))), Err(Error::Forbidden));
    assert_eq!(authorize(&granted, &Command::Fields), Ok(()));
    assert_eq!(detail.action(), "inventory_read");
    assert_eq!(detail.target().as_deref(), Some("a"));
    assert_eq!(detail.operation(), None);
}

fn manual(input: ManualChange) -> Operation<ManualChange> {
    Operation { operation_id: Id { value: 0xa }, expected_revision: 4, input }
}

const FOUND: AssignmentFindings = AssignmentFindings { named: true, exists: true, fits: true };

#[test]
fn an_assignment_keeps_the_last_known_value() {
    let owner = Owner { instance: "i".into(), principal: "p".into() };
    let definition = field("custom.office_floor", Kind::Integer, true);
    let assigned = assign_asset(
        &definition,
        &manual(ManualChange::Assign { value: Scalar::Integer(3) }),
        &owner,
        50,
        FOUND,
        None,
    )
    .unwrap();
    assert_eq!(assigned.state, State::Known(Scalar::Integer(3)));
    assert_eq!(assigned.evidence.source, "manual");
    assert_eq!(assigned.evidence.snapshot_id, "00000000-0000-0000-0000-00000000000a");
    assert_eq!(assigned.evidence.actor.as_deref(), Some("i:p"));
    assert_eq!((assigned.evidence.observed_at, assigned.evidence.received_at), (50, 50));
    let known = assigned.last_known.unwrap();
    assert_eq!(known.value, Scalar::Integer(3));
    let deleted = assign_asset(
        &definition,
        &manual(ManualChange::Delete),
        &owner,
        60,
        FOUND,
        Some(known),
    )
    .unwrap();
    assert_eq!(deleted.state, State::Deleted);
    let kept: KnownValue = deleted.last_known.unwrap();
    assert_eq!((kept.value, kept.evidence.observed_at), (Scalar::Integer(3), 50));
    let nulled =
        assign_asset(&definition, &manual(ManualChange::Null), &owner, 60, FOUND, None).unwrap();
    assert_eq!(nulled.state, State::Null);
    assert!(nulled.last_known.is_none());
}

#[test]
fn assignments_are_refused() {
    let owner = Owner { instance: "i".into(), principal: "p".into() };
    let set = || manual(ManualChange::Assign { value: Scalar::Integer(3) });
    let refused = |definition: &FieldDefinition, change: Operation<ManualChange>, found| {
        assign_asset(definition, &change, &owner, 1, found, None).unwrap_err()
    };
    let fixed = field("os.version", Kind::String, false);
    let free = field("custom.office_floor", Kind::Integer, true);
    assert_eq!(refused(&fixed, set(), FOUND), Error::Malformed);
    let mut late = set();
    late.expected_revision = i64::MAX as u64;
    assert_eq!(refused(&free, late, FOUND), Error::Malformed);
    assert_eq!(
        refused(&free, set(), AssignmentFindings { named: false, ..FOUND }),
        Error::Malformed
    );
    assert_eq!(
        refused(&free, set(), AssignmentFindings { exists: false, ..FOUND }),
        Error::NotFound
    );
    assert_eq!(
        refused(&free, set(), AssignmentFindings { fits: false, ..FOUND }),
        Error::Malformed
    );
    assert!(assign_asset(
        &free,
        &manual(ManualChange::Null),
        &owner,
        1,
        AssignmentFindings { fits: false, ..FOUND },
        None
    )
    .is_ok());
    assert_eq!(written(Some(3)), Ok(3));
    assert_eq!(written(None), Err(Error::Conflict));
}

fn saved(value: u128, definition: Option<SavedDefinition>) -> SavedView {
    SavedView { id: Id { value }, revision: 1, definition }
}

fn definition() -> SavedDefinition {
    SavedDefinition { name: "mine".into(), query: query(&[], None) }
}

#[test]
fn kept_queries_are_listed_read_and_carried_out() {
    let rows: Vec<SavedView> = (1..=101).map(|value| saved(value, None)).collect();
    let (items, next) = saved_list(rows);
    assert_eq!(items.len(), 100);
    assert_eq!(next, Some(Id { value: 100 }));
    let (items, next) = saved_list((1..=100).map(|value| saved(value, None)).collect());
    assert_eq!((items.len(), next), (100, None));
    assert!(matches!(saved_read(None), Err(Error::NotFound)));
    assert!(saved_read(Some(saved(1, None))).is_ok());
    assert!(matches!(saved_execute(None), Err(Error::NotFound)));
    assert!(matches!(saved_execute(Some(saved(1, None))), Err(Error::NotFound)));
    assert_eq!(saved_execute(Some(saved(1, Some(definition())))).unwrap().name, "mine");
}

#[test]
fn kept_queries_are_written() {
    let change = |expected_revision: u64, input: SavedChange| Operation {
        operation_id: Id { value: 1 },
        expected_revision,
        input,
    };
    let put = || SavedChange::Put { definition: definition() };
    let write = |id: u128, change: Operation<SavedChange>, named, bytes| {
        saved_write(Id { value: id }, &change, named, true, bytes, &catalog(), LIMITS)
    };
    assert_eq!(write(1, change(0, put()), Ok(()), 10), Ok(SavedWrite::Insert));
    assert_eq!(
        write(1, change(2, put()), Ok(()), 16384),
        Ok(SavedWrite::Replace { expected: 2 })
    );
    assert_eq!(
        write(1, change(0, SavedChange::Delete), Err(Error::Malformed), 99999),
        Ok(SavedWrite::Replace { expected: 0 })
    );
    assert_eq!(write(0, change(0, put()), Ok(()), 10), Err(Error::Malformed));
    assert_eq!(
        write(1, change(i64::MAX as u64, put()), Ok(()), 10),
        Err(Error::Malformed)
    );
    assert_eq!(write(1, change(0, put()), Err(Error::Malformed), 10), Err(Error::Malformed));
    assert_eq!(write(1, change(0, put()), Ok(()), 16385), Err(Error::Malformed));
    let bad = SavedChange::Put {
        definition: SavedDefinition { name: "bad".into(), query: query(&["a", "a"], None) },
    };
    assert_eq!(write(1, change(0, bad), Ok(()), 10), Err(Error::Malformed));
    let unknown = SavedChange::Put {
        definition: SavedDefinition { name: "bad".into(), query: query(&["a"], None) },
    };
    assert_eq!(write(1, change(0, unknown), Ok(()), 10), Err(Error::Malformed));
}

#[test]
fn attempts_stand_in_the_order_of_the_fields() {
    let attempt = |quality: &str| CollectionAttempt {
        quality: quality.into(),
        status: Some(200),
        received_at: None,
    };
    let observed = vec!["a".to_string(), "b".to_string()];
    let fields = decode(&observed, vec![attempt("good"), attempt("bad"), attempt("extra")]);
    let shape: Vec<_> =
        fields.iter().map(|field| (field.field.as_str(), field.quality.as_str())).collect();
    assert_eq!(shape, [("a", "good"), ("b", "bad")]);
    assert_eq!(decode(&observed, vec![attempt("good")]).len(), 1);
}

#[test]
fn rules_are_told_of_every_field() {
    let view = device("a", &["mdm"], State::Known(Scalar::String("10".into())));
    assert_eq!(observed_at(&view.fields[0].1.sources), 9);
    assert_eq!(observed_at(&vec![]), 0);
    assert_eq!(observed_at(&vec![source_fact(State::Null, -5)]), -5);
    let told = fact(&view.fields[0].1, &b"field".to_vec());
    assert_eq!(told.source, "resolved-inventory");
    assert_eq!(told.observed_at, 9);
    assert_eq!(told.snapshot_id, digest(&b"field".to_vec()));
    let documents = vec![vec![b"one".to_vec(), b"two".to_vec()]];
    let shown = snapshot(
        "tenant-a",
        "v7",
        &vec![view],
        &documents,
        &b"whole".to_vec(),
        &catalog(),
    );
    assert_eq!((shown.tenant.as_str(), shown.dictionary_version.as_str()), ("tenant-a", "v7"));
    assert_eq!(shown.id, "assets");
    assert!(shown.complete);
    assert_eq!(shown.version, digest(&b"whole".to_vec()));
    assert_eq!(shown.coverage, ["os.version", "custom.office_floor"]);
    assert_eq!(shown.objects[0].key, "a");
    assert_eq!(shown.objects[0].facts[1].1.snapshot_id, digest(&b"two".to_vec()));
    assert_eq!(shown.objects[0].facts[1].1.state, State::Null);
}

fn source_row(device: &str, scope: &str, generation: u64) -> SourceRow {
    SourceRow {
        device: device.into(),
        channel: "mdm".into(),
        source_channel: Some("mdm".into()),
        generation,
        scopes: vec![scope.into()],
    }
}

#[test]
fn assets_are_assembled_from_their_own_sources() {
    let ids = vec!["a".to_string(), "b".to_string()];
    let rows = vec![source_row("a", "scope-a", 3), source_row("b", "scope-b", 5)];
    let observed = vec![
        ObservedRow {
            scope: "scope-b".into(),
            field: 0,
            fact: source_fact(State::Known(Scalar::String("11".into())), 7),
        },
    ];
    let manual = vec![ManualRow {
        device: "a".into(),
        field: 1,
        revision: 2,
        fact: source_fact(State::Null, 8),
    }];
    let drafts =
        assemble(&ids, 2, &rows, observed, manual, vec![], live_rules(1_000)).unwrap();
    assert_eq!(drafts.len(), 2);
    assert_eq!(drafts[0].device, "a");
    assert_eq!(drafts[0].channels.items, ["mdm"]);
    assert!(drafts[0].fields[0].facts.is_empty());
    assert_eq!(drafts[0].fields[1].revision, Some(2));
    assert_eq!(drafts[1].fields[0].facts.len(), 1);
    assert_eq!(drafts[1].fields[0].facts[0].evidence.registration_generation, Some(5));
    let stray = vec![ObservedRow {
        scope: "scope-c".into(),
        field: 0,
        fact: source_fact(State::Null, 1),
    }];
    assert!(assemble(&ids, 2, &rows, stray, vec![], vec![], live_rules(1_000)).is_err());
    let mut crossed = source_row("a", "scope-a", 3);
    crossed.source_channel = Some("agent".into());
    assert!(matches!(
        assemble(&ids, 2, &vec![crossed], vec![], vec![], vec![], live_rules(1_000)),
        Err(Error::Unavailable(Failure::InventoryQuery))
    ));
    let none: Vec<CollectionRow> = vec![];
    assert!(assemble(&vec![], 2, &vec![], vec![], vec![], none, frozen_rules()).unwrap().is_empty());
}

#[test]
fn readings_of_assets_are_bounded() {
    assert_eq!(admit_bytes(10, live_rules(10)), Ok(()));
    assert_eq!(admit_bytes(11, live_rules(10)), Err(Error::Malformed));
    assert_eq!(admit_objects(10, 10), Ok(()));
    assert_eq!(admit_objects(11, 10), Err(Error::Malformed));
    assert_eq!(admit_lookup(1000), Ok(()));
    assert!(admit_lookup(1001).is_err());
    assert_eq!(admit_page(0, 1), Ok(()));
    assert!(admit_page(-1, 1).is_err());
    assert!(admit_page(0, 0).is_err());
    assert!(admit_page(0, 1001).is_err());
    let ids = vec!["a".to_string(), "b".to_string(), "c".to_string()];
    assert_eq!(cut_page(ids, 2), (vec!["a".to_string(), "b".to_string()], Some("b".to_string())));
    assert_eq!(cut_page(vec!["a".to_string()], 1), (vec!["a".to_string()], None));
}
