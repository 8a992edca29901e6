//! Groups: named sets of devices, listed or computed by a rule.
use crate::error::{Error, Failure};
use crate::management::assets::criteria::{
    evaluated, is_admitted, lowered, rule, written, Limits, RuleCriteria,
};
use crate::management::assets::meaning::{
    rule_holds, rules_mean_what_was_written, written_holds, Question,
};
use crate::management::assets::model::{Criteria, FieldDefinition};
use crate::management::model::{GroupChange, Missing, Operation};
use crate::management::request::{group_checked, group_refusal, GroupRejection};
use crate::text::same;
use vstd::prelude::*;

verus! {

/// The most members that are added and removed at once.
pub const MEMBER_CHANGES: usize = 1000;

/// What the group store is told to do.
#[allow(inconsistent_fields)]
#[derive(Debug)]
pub enum StoreCommand {
    Create { name: String, description: String, rule: Option<RuleCriteria> },
    Edit { expected: i64, name: String, description: String },
    SetRule { expected: i64, rule: RuleCriteria },
    Delete { expected: i64 },
}

/// How a change of a group is carried out: by the store at once, or by a job
/// that computes the members anew, with some added and removed by hand.
#[derive(Debug)]
pub enum GroupPlan {
    Store(StoreCommand),
    Job { expected: u64, members: Option<(Vec<String>, Vec<String>)> },
}

/// Whether a rule is admitted, and what it is evaluated as.
pub open spec fn rule_fits(criteria: Criteria, catalog: Seq<FieldDefinition>, limits: Limits) -> bool {
    is_admitted(
        written(criteria),
        limits.depth as int,
        limits.nodes as int,
        limits.set_items as int,
        catalog,
    )
}

/// What a change of a group is refused with, where it is: a group is created at
/// no revision, changed at one that can be stored, by a rule that is admitted,
/// and by a bounded number of members. One that is to be deleted has to be free to
/// be, before anything else is looked at. `sound` is whether those who own the
/// values and the conditions accept the rule, where there is one.
pub open spec fn change_refusal(
    op: Operation<GroupChange>,
    free: Result<(), Error>,
    sound: bool,
    catalog: Seq<FieldDefinition>,
    limits: Limits,
) -> Option<Error> {
    let storable = op.expected_revision <= i64::MAX;
    match op.input {
        GroupChange::Create { criteria, .. } => if op.expected_revision != 0 {
            Some(Error::Conflict)
        } else if criteria matches Some(criteria) && !(sound && rule_fits(
            criteria,
            catalog,
            limits,
        )) {
            Some(Error::Malformed)
        } else {
            None
        },
        GroupChange::Edit { .. } => if storable {
            None
        } else {
            Some(Error::Malformed)
        },
        GroupChange::Delete => match free {
            Err(error) => Some(error),
            Ok(_) => if storable {
                None
            } else {
                Some(Error::Malformed)
            },
        },
        GroupChange::Rule { criteria } => if storable && sound && rule_fits(
            criteria,
            catalog,
            limits,
        ) {
            None
        } else {
            Some(Error::Malformed)
        },
        GroupChange::Members { add, remove } => if add@.len() + remove@.len() > MEMBER_CHANGES {
            Some(Error::Malformed)
        } else {
            None
        },
        GroupChange::Recompute => None,
    }
}

/// Whether `plan` carries out a change of a group.
pub open spec fn plans(
    plan: GroupPlan,
    op: Operation<GroupChange>,
    catalog: Seq<FieldDefinition>,
) -> bool {
    let expected = op.expected_revision as i64;
    match op.input {
        GroupChange::Create { name, description, criteria } => plan matches GroupPlan::Store(
            StoreCommand::Create { name: n, description: d, rule },
        ) && n == name && d == description && (match (criteria, rule) {
            (Some(criteria), Some(rule)) => evaluated(rule) == lowered(written(criteria), catalog),
            (None, None) => true,
            _ => false,
        }),
        GroupChange::Edit { name, description } => plan == GroupPlan::Store(
            StoreCommand::Edit { expected, name, description },
        ),
        GroupChange::Rule { criteria } => plan matches GroupPlan::Store(
            StoreCommand::SetRule { expected: e, rule },
        ) && e == expected && evaluated(rule) == lowered(written(criteria), catalog),
        GroupChange::Delete => plan == GroupPlan::Store(StoreCommand::Delete { expected }),
        GroupChange::Members { add, remove } => plan == (GroupPlan::Job {
            expected: op.expected_revision,
            members: Some((add, remove)),
        }),
        GroupChange::Recompute => plan == (GroupPlan::Job {
            expected: op.expected_revision,
            members: None,
        }),
    }
}

/// How a change of a group is carried out. `free` tells whether the group can be
/// deleted, where it is to be, and `sound` whether its rule is accepted by those who
/// own the values and the conditions, where it gets one.
pub fn group_change(
    op: Operation<GroupChange>,
    free: Result<(), Error>,
    sound: bool,
    catalog: &Vec<FieldDefinition>,
    limits: Limits,
) -> (plan: Result<GroupPlan, Error>)
    ensures
        match plan {
            Ok(plan) => change_refusal(op, free, sound, catalog@, limits) is None && plans(
                plan,
                op,
                catalog@,
            ),
            Err(error) => change_refusal(op, free, sound, catalog@, limits) == Some(error),
        },
{
    let revision: u64 = op.expected_revision;
    match op.input {
        GroupChange::Create { name, description, criteria } => {
            if revision != 0 {
                return Err(Error::Conflict);
            }
            let definition = match &criteria {
                Some(criteria) => match rule(criteria, sound, catalog, limits) {
                    Ok(rule) => Some(rule),
                    Err(error) => return Err(error),
                },
                None => None,
            };
            Ok(GroupPlan::Store(StoreCommand::Create { name, description, rule: definition }))
        },
        GroupChange::Edit { name, description } => {
            if revision > i64::MAX as u64 {
                return Err(Error::Malformed);
            }
            Ok(
                GroupPlan::Store(
                    StoreCommand::Edit { expected: revision as i64, name, description },
                ),
            )
        },
        GroupChange::Rule { criteria } => {
            if revision > i64::MAX as u64 {
                return Err(Error::Malformed);
            }
            match rule(&criteria, sound, catalog, limits) {
                Ok(rule) => Ok(
                    GroupPlan::Store(StoreCommand::SetRule { expected: revision as i64, rule }),
                ),
                Err(error) => Err(error),
            }
        },
        GroupChange::Members { add, remove } => {
            if add.len() > MEMBER_CHANGES || remove.len() > MEMBER_CHANGES - add.len() {
                return Err(Error::Malformed);
            }
            Ok(GroupPlan::Job { expected: revision, members: Some((add, remove)) })
        },
        GroupChange::Delete => {
            if let Err(error) = free {
                return Err(error);
            }
            if revision > i64::MAX as u64 {
                return Err(Error::Malformed);
            }
            Ok(GroupPlan::Store(StoreCommand::Delete { expected: revision as i64 }))
        },
        GroupChange::Recompute => Ok(GroupPlan::Job { expected: revision, members: None }),
    }
}

/// What follows a change that the store carried out.
#[derive(Clone, Copy, Debug, PartialEq, Eq, Structural)]
pub enum Follow {
    /// Nothing.
    Nothing,
    /// The fields that the group is computed from are registered: none.
    Register,
    /// The fields are registered, and the members are computed at once.
    RegisterAndCompute,
}

/// What follows a change: where it set the rule of a group, or none, the fields
/// that the group is computed from are registered, and members that a rule now
/// decides are computed.
pub fn follow(change: &GroupChange) -> (next: Follow)
    ensures
        next == (match *change {
            GroupChange::Create { criteria, .. } => if criteria is Some {
                Follow::RegisterAndCompute
            } else {
                Follow::Register
            },
            GroupChange::Rule { .. } => Follow::RegisterAndCompute,
            _ => Follow::Nothing,
        }),
{
    match change {
        GroupChange::Create { criteria, .. } => if criteria.is_some() {
            Follow::RegisterAndCompute
        } else {
            Follow::Register
        },
        GroupChange::Rule { .. } => Follow::RegisterAndCompute,
        _ => Follow::Nothing,
    }
}

/// Refuses to delete a group that a scope or a saved plan refers to.
pub fn reject_group_reference(used: bool) -> (admitted: Result<(), Error>)
    ensures
        admitted is Ok <==> !used,
        admitted is Err ==> admitted == Err::<(), Error>(Error::Conflict),
{
    if used {
        Err(Error::Conflict)
    } else {
        Ok(())
    }
}

/// Whether a group is free to be deleted: it is there, and nothing refers to it.
pub fn admit_group_deletion(lock: Result<(), GroupRejection>, used: bool) -> (free: Result<(), Error>)
    ensures
        match lock {
            Err(rejection) => free == Err::<(), Error>(group_refusal(rejection)),
            Ok(_) => if used {
                free == Err::<(), Error>(Error::Conflict)
            } else {
                free is Ok
            },
        },
{
    match group_checked(lock) {
        Err(error) => Err(error),
        Ok(_) => reject_group_reference(used),
    }
}

/// Whether the rule of a group can be shown, where it has one: the store has to
/// answer, to have it, and to have it for the fields that are known now. `rule`
/// is the version of the fields that the rule was written for.
pub fn group_read(
    has_rule: bool,
    rule: &Result<Option<String>, ()>,
    dictionary: &str,
) -> (admitted: Result<bool, Error>)
    ensures
        admitted == (if !has_rule {
            Ok::<bool, Error>(false)
        } else {
            match *rule {
                Err(_) => Err(Error::Unavailable(Failure::Runtime)),
                Ok(None) => Err(Error::ManagementNotFound(Missing::Rule)),
                Ok(Some(version)) => if version@ == dictionary@ {
                    Ok(true)
                } else {
                    Err(Error::Conflict)
                },
            }
        }),
{
    if !has_rule {
        return Ok(false);
    }
    match rule {
        Err(_) => Err(Error::Unavailable(Failure::Runtime)),
        Ok(None) => Err(Error::ManagementNotFound(Missing::Rule)),
        Ok(Some(version)) => if same(version.as_str(), dictionary) {
            Ok(true)
        } else {
            Err(Error::Conflict)
        },
    }
}

/// A change of a group is carried out as it was asked for: a group is created, edited,
/// deleted or given a rule exactly where the change says so, with the name, the
/// description and the revision of the change; and members are computed exactly where
/// they are changed by hand or computed anew, with those that were to be added and
/// removed.
pub proof fn changes_are_carried_out_as_asked(
    plan: GroupPlan,
    op: Operation<GroupChange>,
    catalog: Seq<FieldDefinition>,
)
    requires
        plans(plan, op, catalog),
        op.expected_revision <= i64::MAX,
    ensures
        plan is Job <==> op.input is Members || op.input is Recompute,
        plan matches GroupPlan::Job { expected, members } ==> {
            &&& expected == op.expected_revision
            &&& members is Some <==> op.input is Members
            &&& members matches Some((add, remove)) ==> op.input == (GroupChange::Members {
                add,
                remove,
            })
        },
        plan matches GroupPlan::Store(StoreCommand::Create { name, description, rule }) ==> (
        op.input matches GroupChange::Create { name: n, description: d, criteria } && n == name
            && d == description && (rule is Some <==> criteria is Some)),
        plan matches GroupPlan::Store(StoreCommand::Edit { expected, name, description }) ==> (
        op.input matches GroupChange::Edit { name: n, description: d } && n == name && d
            == description && expected == op.expected_revision),
        plan matches GroupPlan::Store(StoreCommand::Delete { expected }) ==> op.input is Delete
            && expected == op.expected_revision,
        plan matches GroupPlan::Store(StoreCommand::SetRule { expected, .. }) ==> op.input is Rule
            && expected == op.expected_revision,
{
}

/// The rule that a group is given holds of exactly the devices that the condition of the
/// change holds of.
pub proof fn groups_are_given_the_rule_that_was_written(
    plan: GroupPlan,
    op: Operation<GroupChange>,
    free: Result<(), Error>,
    sound: bool,
    catalog: Seq<FieldDefinition>,
    limits: Limits,
    truth: spec_fn(Question) -> bool,
)
    requires
        plans(plan, op, catalog),
        change_refusal(op, free, sound, catalog, limits) is None,
    ensures
        op.input matches GroupChange::Rule { criteria } ==> (plan matches GroupPlan::Store(
            StoreCommand::SetRule { rule, .. },
        ) && rule_holds(rule, truth) == written_holds(criteria, truth)),
        op.input matches GroupChange::Create { criteria: Some(criteria), .. } ==> (
        plan matches GroupPlan::Store(StoreCommand::Create { rule: Some(rule), .. }) && rule_holds(
            rule,
            truth,
        ) == written_holds(criteria, truth)),
{
    let items = limits.set_items as int;
    match (op.input, plan) {
        (
            GroupChange::Rule { criteria },
            GroupPlan::Store(StoreCommand::SetRule { rule, .. }),
        ) => {
            rules_mean_what_was_written(criteria, rule, catalog, items, truth);
        },
        (
            GroupChange::Create { criteria: Some(criteria), .. },
            GroupPlan::Store(StoreCommand::Create { rule: Some(rule), .. }),
        ) => {
            rules_mean_what_was_written(criteria, rule, catalog, items, truth);
        },
        _ => {},
    }
}

/// A change of a group is refused only for what is wrong with it: a new group that is
/// expected to have a revision, a revision that cannot be stored, a rule that is not
/// accepted, too many members at once, and a group that cannot be deleted, for the
/// reason that it cannot.
pub proof fn changes_are_refused_for_what_is_wrong_with_them(
    op: Operation<GroupChange>,
    free: Result<(), Error>,
    sound: bool,
    catalog: Seq<FieldDefinition>,
    limits: Limits,
)
    ensures
        op.input is Recompute ==> change_refusal(op, free, sound, catalog, limits) is None,
        op.input matches GroupChange::Members { add, remove } ==> (change_refusal(
            op,
            free,
            sound,
            catalog,
            limits,
        ) is None <==> add@.len() + remove@.len() <= MEMBER_CHANGES),
        op.input is Edit ==> (change_refusal(op, free, sound, catalog, limits) is None
            <==> op.expected_revision <= i64::MAX),
        op.input is Delete ==> (change_refusal(op, free, sound, catalog, limits) is None
            <==> free is Ok && op.expected_revision <= i64::MAX),
        op.input is Delete && free is Err ==> change_refusal(op, free, sound, catalog, limits)
            == Some(free->Err_0),
        op.input is Create ==> (change_refusal(op, free, sound, catalog, limits) == Some(
            Error::Conflict,
        ) <==> op.expected_revision != 0),
        op.input matches GroupChange::Create { criteria, .. } && criteria is None
            && op.expected_revision == 0 ==> change_refusal(op, free, sound, catalog, limits) is None,
        (op.input is Rule || (op.input matches GroupChange::Create { criteria, .. }
            && criteria is Some)) && !sound ==> change_refusal(
            op,
            free,
            sound,
            catalog,
            limits,
        ) is Some,
{
}

} // verus!
