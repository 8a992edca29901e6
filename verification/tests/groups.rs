use rss_mdm::error::{Error, Failure};
use rss_mdm::id::Id;
use rss_mdm::inventory::{Kind, Scalar};
use rss_mdm::management::assets::criteria::Limits;
use rss_mdm::management::assets::model::{Criteria, FieldDefinition, Operator};
use rss_mdm::management::groups::{
    admit_group_deletion, follow, group_change, group_read, reject_group_reference, Follow,
    GroupPlan, StoreCommand,
};
use rss_mdm::management::model::{
    GroupChange, Missing, Operation, Reference, ScopeChange, ScopeDefinition,
};
use rss_mdm::management::request::GroupRejection;
use rss_mdm::management::scopes::{
    admit_changed, admit_deletion, scope_change, scope_definition, validate_scope_references,
    ReferenceFinding, ScopeWrite,
};
use rss_mdm::set::OrderedSet;

const LIMITS: Limits = Limits { depth: 8, nodes: 64, set_items: 100 };

fn catalog() -> Vec<FieldDefinition> {
    vec![FieldDefinition {
        key: "f".into(),
        kind: Kind::Integer,
        operations: vec![Operator::Eq],
        nullable: true,
        manual: false,
    }]
}

fn rule(value: Scalar) -> Criteria {
    Criteria::Predicate { field: "f".into(), op: Operator::Eq, value: Some(value), values: None }
}

fn change(expected_revision: u64, input: GroupChange) -> Result<GroupPlan, Error> {
    let operation = Operation { operation_id: Id { value: 1 }, expected_revision, input };
    group_change(operation, Ok(()), true, &catalog(), LIMITS)
}

#[test]
fn a_group_that_is_not_free_is_not_deleted() {
    let delete = |expected_revision: u64, free: Result<(), Error>| {
        let operation = Operation {
            operation_id: Id { value: 1 },
            expected_revision,
            input: GroupChange::Delete,
        };
        group_change(operation, free, true, &catalog(), LIMITS)
    };
    let missing = Error::ManagementNotFound(Missing::Group);
    assert_eq!(admit_group_deletion(Ok(()), false), Ok(()));
    assert_eq!(admit_group_deletion(Ok(()), true), Err(Error::Conflict));
    assert_eq!(admit_group_deletion(Err(GroupRejection::Deleted), true), Err(missing));
    assert!(delete(4, Ok(())).is_ok());
    assert_eq!(delete(u64::MAX, Ok(())).unwrap_err(), Error::Malformed);
    assert_eq!(delete(u64::MAX, Err(missing)).unwrap_err(), missing);
    assert_eq!(delete(4, Err(Error::Conflict)).unwrap_err(), Error::Conflict);
}

fn create(criteria: Option<Criteria>) -> GroupChange {
    GroupChange::Create { name: "n".into(), description: "d".into(), criteria }
}

#[test]
fn groups_are_created_at_no_revision() {
    match change(0, create(Some(rule(Scalar::Integer(1))))) {
        Ok(GroupPlan::Store(StoreCommand::Create { name, rule, .. })) => {
            assert_eq!(name, "n");
            assert!(rule.is_some());
        }
        other => panic!("{other:?}"),
    }
    assert_eq!(change(1, create(None)).unwrap_err(), Error::Conflict);
    assert_eq!(
        change(0, create(Some(rule(Scalar::Boolean(true))))).unwrap_err(),
        Error::Malformed
    );
}

#[test]
fn rules_are_refused_where_their_owners_refuse_them() {
    let change = |input: GroupChange, sound| {
        let operation = Operation { operation_id: Id { value: 1 }, expected_revision: 0, input };
        group_change(operation, Ok(()), sound, &catalog(), LIMITS)
    };
    let fits = || rule(Scalar::Integer(1));
    assert!(change(create(Some(fits())), true).is_ok());
    assert_eq!(change(create(Some(fits())), false).unwrap_err(), Error::Malformed);
    assert!(change(create(None), false).is_ok());
    assert!(change(GroupChange::Rule { criteria: fits() }, true).is_ok());
    assert_eq!(
        change(GroupChange::Rule { criteria: fits() }, false).unwrap_err(),
        Error::Malformed
    );
}

#[test]
fn groups_are_changed_at_a_storable_revision() {
    let late = i64::MAX as u64 + 1;
    let edit = || GroupChange::Edit { name: "n".into(), description: "d".into() };
    assert!(matches!(
        change(4, edit()),
        Ok(GroupPlan::Store(StoreCommand::Edit { expected: 4, .. }))
    ));
    assert_eq!(change(late, edit()).unwrap_err(), Error::Malformed);
    assert!(matches!(
        change(4, GroupChange::Delete),
        Ok(GroupPlan::Store(StoreCommand::Delete { expected: 4 }))
    ));
    assert_eq!(change(late, GroupChange::Delete).unwrap_err(), Error::Malformed);
    assert!(matches!(
        change(4, GroupChange::Rule { criteria: rule(Scalar::Integer(1)) }),
        Ok(GroupPlan::Store(StoreCommand::SetRule { expected: 4, .. }))
    ));
    assert!(matches!(
        change(4, GroupChange::Recompute),
        Ok(GroupPlan::Job { expected: 4, members: None })
    ));
}

#[test]
fn members_are_changed_in_bounded_numbers() {
    let members = |add: usize, remove: usize| GroupChange::Members {
        add: (0..add).map(|n| n.to_string()).collect(),
        remove: (0..remove).map(|n| n.to_string()).collect(),
    };
    match change(4, members(600, 400)) {
        Ok(GroupPlan::Job { members: Some((add, remove)), .. }) => {
            assert_eq!((add.len(), remove.len()), (600, 400))
        }
        other => panic!("{other:?}"),
    }
    assert_eq!(change(4, members(600, 401)).unwrap_err(), Error::Malformed);
    assert_eq!(change(4, members(1001, 0)).unwrap_err(), Error::Malformed);
}

#[test]
fn a_set_rule_is_registered_and_computed() {
    assert_eq!(follow(&create(None)), Follow::Register);
    assert_eq!(follow(&create(Some(rule(Scalar::Integer(1))))), Follow::RegisterAndCompute);
    assert_eq!(
        follow(&GroupChange::Rule { criteria: rule(Scalar::Integer(1)) }),
        Follow::RegisterAndCompute
    );
    assert_eq!(follow(&GroupChange::Recompute), Follow::Nothing);
    assert_eq!(reject_group_reference(false), Ok(()));
    assert_eq!(reject_group_reference(true), Err(Error::Conflict));
}

#[test]
fn a_rule_is_shown_for_the_fields_it_was_written_for() {
    assert_eq!(group_read(false, &Err(()), "v1"), Ok(false));
    assert_eq!(group_read(true, &Ok(Some("v1".into())), "v1"), Ok(true));
    assert_eq!(group_read(true, &Ok(Some("v0".into())), "v1"), Err(Error::Conflict));
    assert_eq!(
        group_read(true, &Ok(None), "v1"),
        Err(Error::ManagementNotFound(Missing::Rule))
    );
    assert_eq!(
        group_read(true, &Err(()), "v1"),
        Err(Error::Unavailable(Failure::Runtime))
    );
}

fn set(items: Vec<Reference>) -> OrderedSet<Reference> {
    let mut kept: OrderedSet<Reference> = OrderedSet::new();
    for item in items {
        kept.insert(item);
    }
    kept
}

fn put(expected_revision: u64, devices: usize) -> Operation<ScopeChange> {
    Operation {
        operation_id: Id { value: 1 },
        expected_revision,
        input: ScopeChange::Put {
            definition: ScopeDefinition {
                targets: set((0..devices).map(|n| Reference::Device(format!("d{n:04}"))).collect()),
                limitations: None,
                exclusions: set(vec![Reference::Group(Id { value: 7 })]),
            },
        },
    }
}

#[test]
fn a_scope_is_put_with_what_it_names() {
    let plan = scope_change(Id { value: 5 }, &put(0, 2)).unwrap();
    assert_eq!((plan.write, plan.revision, plan.resolve), (ScopeWrite::Insert, 1, true));
    assert_eq!(plan.kinds, ["device", "device", "group"]);
    assert_eq!(
        plan.targets,
        ["d0000", "d0001", "00000000-0000-0000-0000-000000000007"]
    );
    assert_eq!(
        plan.reference,
        "scope-definition.00000000-0000-0000-0000-000000000005"
    );
    let plan = scope_change(Id { value: 5 }, &put(3, 1)).unwrap();
    assert_eq!((plan.write, plan.revision), (ScopeWrite::Replace, 4));
    let delete = Operation {
        operation_id: Id { value: 1 },
        expected_revision: 3,
        input: ScopeChange::Delete,
    };
    let plan = scope_change(Id { value: 5 }, &delete).unwrap();
    assert_eq!((plan.write, plan.resolve), (ScopeWrite::Delete, false));
    assert!(plan.kinds.is_empty() && plan.targets.is_empty());
}

#[test]
fn scopes_are_refused() {
    assert_eq!(scope_change(Id { value: 0 }, &put(0, 1)).unwrap_err(), Error::Malformed);
    assert_eq!(
        scope_change(Id { value: 5 }, &put(i64::MAX as u64, 1)).unwrap_err(),
        Error::Conflict
    );
    assert!(scope_change(Id { value: 5 }, &put(0, 999)).is_ok());
    assert_eq!(scope_change(Id { value: 5 }, &put(0, 1000)).unwrap_err(), Error::Malformed);
    assert_eq!(admit_deletion(3, 3), Ok(()));
    assert_eq!(admit_deletion(4, 3), Err(Error::Conflict));
    assert_eq!(admit_changed(1), Ok(()));
    assert_eq!(admit_changed(0), Err(Error::Conflict));
    assert_eq!(scope_definition(Some((2, "x"))), Ok((2, "x")));
    assert_eq!(
        scope_definition::<u8>(None),
        Err(Error::ManagementNotFound(Missing::Scope))
    );
}

#[test]
fn what_a_scope_names_has_to_be_there() {
    let here = ReferenceFinding::Device { registrations: 1 };
    let gone = ReferenceFinding::Device { registrations: 0 };
    let deleted = ReferenceFinding::Group(Err(GroupRejection::Deleted));
    assert_eq!(validate_scope_references(&vec![here, ReferenceFinding::Group(Ok(()))]), Ok(()));
    assert_eq!(
        validate_scope_references(&vec![here, gone, deleted]),
        Err(Error::ManagementNotFound(Missing::Device))
    );
    assert_eq!(
        validate_scope_references(&vec![deleted, gone]),
        Err(Error::ManagementNotFound(Missing::Group))
    );
    assert_eq!(validate_scope_references(&vec![here; 1001]), Err(Error::Malformed));
}
