//! What conditions mean: which devices they hold of, once it is known which of their
//! predicates do.
use crate::inventory::{Scalar, ScalarView};
use crate::management::assets::criteria::{
    defined, depth_in, depth_of, evaluated, evaluated_list, evaluated_list_length, is_admitted,
    is_typed, kind_of, lowered, lowered_list, lowered_list_length, nodes_in, nodes_of, raised,
    raised_list, raised_list_length, typed_together, written, written_list, written_list_length,
    CriteriaView, Limits, Operand, RuleCriteria,
};
use crate::management::assets::model::{Criteria, FieldDefinition, Operator};
use crate::pick::sum;
use vstd::prelude::*;

verus! {

/// What one predicate asks of a device: of which field, by which operation, and
/// against which value or values.
pub struct Question {
    pub field: Seq<char>,
    pub op: Operator,
    pub value: Option<ScalarView>,
    pub values: Option<Seq<ScalarView>>,
}

/// Whether a written condition holds of a device, where `truth` answers what its
/// predicates ask.
pub open spec fn written_holds(criteria: Criteria, truth: spec_fn(Question) -> bool) -> bool
    decreases criteria,
{
    match criteria {
        Criteria::Predicate { field, op, value, values } => truth(
            Question {
                field: field@,
                op,
                value: match value {
                    Some(value) => Some(value@),
                    None => None,
                },
                values: match values {
                    Some(values) => Some(values@.map_values(|one: Scalar| one@)),
                    None => None,
                },
            },
        ),
        Criteria::And { children } => forall|i: int|
            0 <= i < children@.len() ==> written_holds(#[trigger] children@[i], truth),
        Criteria::Or { children } => exists|i: int|
            0 <= i < children@.len() && written_holds(#[trigger] children@[i], truth),
    }
}

/// Whether an evaluated condition holds of a device, where `truth` answers what its
/// predicates ask.
pub open spec fn rule_holds(rule: RuleCriteria, truth: spec_fn(Question) -> bool) -> bool
    decreases rule,
{
    match rule {
        RuleCriteria::Predicate { field, op, operand } => truth(
            Question {
                field: field@,
                op,
                value: match operand {
                    Some(Operand::Scalar(value)) => Some(value@),
                    _ => None,
                },
                values: match operand {
                    Some(Operand::Values { values, .. }) => Some(
                        values@.map_values(|one: Scalar| one@),
                    ),
                    _ => None,
                },
            },
        ),
        RuleCriteria::And { children } => forall|i: int|
            0 <= i < children@.len() ==> rule_holds(#[trigger] children@[i], truth),
        RuleCriteria::Or { children } => exists|i: int|
            0 <= i < children@.len() && rule_holds(#[trigger] children@[i], truth),
    }
}

/// An evaluated condition holds of exactly the devices that the condition it was
/// made of holds of, whatever its predicates answer: what joins conditions joins
/// their evaluated forms, and every predicate asks what it asked before.
pub proof fn rules_mean_what_was_written(
    criteria: Criteria,
    rule: RuleCriteria,
    catalog: Seq<FieldDefinition>,
    set_items: int,
    truth: spec_fn(Question) -> bool,
)
    requires
        is_typed(written(criteria), catalog, set_items),
        evaluated(rule) == lowered(written(criteria), catalog),
    ensures
        rule_holds(rule, truth) == written_holds(criteria, truth),
    decreases criteria,
{
    match (criteria, rule) {
        (Criteria::Predicate { .. }, RuleCriteria::Predicate { .. }) => {},
        (Criteria::And { children }, RuleCriteria::And { children: rules }) => {
            lists_mean_what_was_written(children@, rules@, catalog, set_items, truth);
        },
        (Criteria::Or { children }, RuleCriteria::Or { children: rules }) => {
            lists_mean_what_was_written(children@, rules@, catalog, set_items, truth);
        },
        _ => {},
    }
}

proof fn lists_mean_what_was_written(
    list: Seq<Criteria>,
    rules: Seq<RuleCriteria>,
    catalog: Seq<FieldDefinition>,
    set_items: int,
    truth: spec_fn(Question) -> bool,
)
    requires
        is_typed(
            CriteriaView::And {
                children: written_list(list, list.len()),
            },
            catalog,
            set_items,
        ),
        evaluated_list(rules, rules.len())
            == lowered_list(
            written_list(list, list.len()),
            written_list(list, list.len()).len(),
            catalog,
        ),
    ensures
        rules.len() == list.len(),
        forall|i: int|
            0 <= i < list.len() ==> rule_holds(#[trigger] rules[i], truth) == written_holds(
                list[i],
                truth,
            ),
        forall|i: int|
            0 <= i < list.len() ==> rule_holds(rules[i], truth) == written_holds(
                #[trigger] list[i],
                truth,
            ),
    decreases list,
{
    let conditions = written_list(list, list.len());
    written_list_length(list, list.len());
    evaluated_list_length(rules, rules.len());
    lowered_list_length(conditions, conditions.len(), catalog);
    assert forall|i: int| 0 <= i < list.len() implies rule_holds(#[trigger] rules[i], truth)
        == written_holds(list[i], truth) by {
        typed_together(conditions, (i + 1) as nat, conditions.len(), catalog, set_items);
        assert(conditions[i] == written(list[i]));
        assert(evaluated_list(rules, rules.len())[i] == evaluated(rules[i]));
        assert(lowered_list(conditions, conditions.len(), catalog)[i] == lowered(
            conditions[i],
            catalog,
        ));
        rules_mean_what_was_written(list[i], rules[i], catalog, set_items, truth);
    }
}

/// Whether every predicate of an evaluated condition is on a field that the catalog
/// has, by an operation that the field offers, and compares it with values of the
/// field's own type: with one value, with at most `set_items` of them where it asks
/// for membership, and with none where it asks for presence.
pub open spec fn compares_like_with_like(
    rule: RuleCriteria,
    catalog: Seq<FieldDefinition>,
    set_items: int,
) -> bool
    decreases rule,
{
    match rule {
        RuleCriteria::Predicate { field, op, operand } => exists|d: int|
            {
                &&& 0 <= d < catalog.len()
                &&& (#[trigger] catalog[d]).key@ == field@
                &&& forall|e: int| 0 <= e < d ==> (#[trigger] catalog[e]).key@ != field@
                &&& catalog[d].operations@.contains(op)
                &&& match operand {
                    None => op is IsNull || op is IsNotNull,
                    Some(Operand::Values { element, values }) => {
                        &&& op is In || op is NotIn
                        &&& element == catalog[d].kind
                        &&& values@.len() <= set_items
                        &&& forall|i: int|
                            0 <= i < values@.len() ==> (#[trigger] values@[i]).spec_kind()
                                == catalog[d].kind
                    },
                    Some(Operand::Scalar(value)) => {
                        &&& !(op is IsNull || op is IsNotNull || op is In || op is NotIn)
                        &&& value.spec_kind() == catalog[d].kind
                    },
                }
            },
        RuleCriteria::And { children } => forall|i: int|
            0 <= i < children@.len() ==> compares_like_with_like(
                #[trigger] children@[i],
                catalog,
                set_items,
            ),
        RuleCriteria::Or { children } => forall|i: int|
            0 <= i < children@.len() ==> compares_like_with_like(
                #[trigger] children@[i],
                catalog,
                set_items,
            ),
    }
}

/// The definition that a name finds is the first of that name.
proof fn definitions_are_found_by_name(catalog: Seq<FieldDefinition>, field: Seq<char>) -> (d: int)
    requires
        defined(catalog, field) is Some,
    ensures
        0 <= d < catalog.len(),
        defined(catalog, field) == Some(catalog[d]),
        catalog[d].key@ == field,
        forall|e: int| 0 <= e < d ==> (#[trigger] catalog[e]).key@ != field,
    decreases catalog.len(),
{
    if catalog[0].key@ == field {
        0
    } else {
        let d = definitions_are_found_by_name(catalog.drop_first(), field);
        assert forall|e: int| 0 <= e < d + 1 implies (#[trigger] catalog[e]).key@ != field by {
            if e > 0 {
                assert(catalog.drop_first()[e - 1] == catalog[e]);
            }
        }
        d + 1
    }
}

/// An evaluated condition never compares a field with what is not of its type.
pub proof fn rules_compare_like_with_like(
    criteria: Criteria,
    rule: RuleCriteria,
    catalog: Seq<FieldDefinition>,
    set_items: int,
)
    requires
        is_typed(written(criteria), catalog, set_items),
        evaluated(rule) == lowered(written(criteria), catalog),
    ensures
        compares_like_with_like(rule, catalog, set_items),
    decreases criteria,
{
    match (criteria, rule) {
        (
            Criteria::Predicate { field, value, values, .. },
            RuleCriteria::Predicate { operand, .. },
        ) => {
            let d = definitions_are_found_by_name(catalog, field@);
            assert(catalog[d].key@ == field@);
            match operand {
                Some(Operand::Scalar(held)) => {
                    assert(kind_of(held@) == held.spec_kind());
                },
                Some(Operand::Values { values: held, .. }) => {
                    let shown = held@.map_values(|one: Scalar| one@);
                    assert forall|i: int| 0 <= i < held@.len() implies (
                    #[trigger] held@[i]).spec_kind() == catalog[d].kind by {
                        assert(shown[i] == held@[i]@);
                        assert(kind_of(shown[i]) == catalog[d].kind);
                    }
                },
                None => {},
            }
        },
        (Criteria::And { children }, RuleCriteria::And { children: rules }) => {
            lists_compare_like_with_like(children@, rules@, catalog, set_items);
        },
        (Criteria::Or { children }, RuleCriteria::Or { children: rules }) => {
            lists_compare_like_with_like(children@, rules@, catalog, set_items);
        },
        _ => {},
    }
}

proof fn lists_compare_like_with_like(
    list: Seq<Criteria>,
    rules: Seq<RuleCriteria>,
    catalog: Seq<FieldDefinition>,
    set_items: int,
)
    requires
        is_typed(
            CriteriaView::And { children: written_list(list, list.len()) },
            catalog,
            set_items,
        ),
        evaluated_list(rules, rules.len()) == lowered_list(
            written_list(list, list.len()),
            written_list(list, list.len()).len(),
            catalog,
        ),
    ensures
        forall|i: int|
            0 <= i < rules.len() ==> compares_like_with_like(
                #[trigger] rules[i],
                catalog,
                set_items,
            ),
    decreases list,
{
    let conditions = written_list(list, list.len());
    written_list_length(list, list.len());
    evaluated_list_length(rules, rules.len());
    lowered_list_length(conditions, conditions.len(), catalog);
    assert forall|i: int| 0 <= i < rules.len() implies compares_like_with_like(
        #[trigger] rules[i],
        catalog,
        set_items,
    ) by {
        typed_together(conditions, (i + 1) as nat, conditions.len(), catalog, set_items);
        assert(conditions[i] == written(list[i]));
        assert(evaluated_list(rules, rules.len())[i] == evaluated(rules[i]));
        assert(lowered_list(conditions, conditions.len(), catalog)[i] == lowered(
            conditions[i],
            catalog,
        ));
        rules_compare_like_with_like(list[i], rules[i], catalog, set_items);
    }
}

/// A condition that is shown holds of exactly the devices that the evaluated
/// condition holds of.
pub proof fn shown_conditions_mean_what_is_evaluated(
    rule: RuleCriteria,
    shown: Criteria,
    truth: spec_fn(Question) -> bool,
)
    requires
        written(shown) == raised(evaluated(rule)),
    ensures
        written_holds(shown, truth) == rule_holds(rule, truth),
    decreases rule,
{
    match (rule, shown) {
        (RuleCriteria::Predicate { .. }, Criteria::Predicate { .. }) => {},
        (RuleCriteria::And { children: rules }, Criteria::And { children }) => {
            shown_lists_mean_what_is_evaluated(rules@, children@, truth);
        },
        (RuleCriteria::Or { children: rules }, Criteria::Or { children }) => {
            shown_lists_mean_what_is_evaluated(rules@, children@, truth);
        },
        _ => {},
    }
}

proof fn shown_lists_mean_what_is_evaluated(
    rules: Seq<RuleCriteria>,
    list: Seq<Criteria>,
    truth: spec_fn(Question) -> bool,
)
    requires
        written_list(list, list.len()) == raised_list(
            evaluated_list(rules, rules.len()),
            evaluated_list(rules, rules.len()).len(),
        ),
    ensures
        rules.len() == list.len(),
        forall|i: int|
            0 <= i < list.len() ==> rule_holds(#[trigger] rules[i], truth) == written_holds(
                list[i],
                truth,
            ),
        forall|i: int|
            0 <= i < list.len() ==> rule_holds(rules[i], truth) == written_holds(
                #[trigger] list[i],
                truth,
            ),
    decreases rules,
{
    let views = evaluated_list(rules, rules.len());
    written_list_length(list, list.len());
    evaluated_list_length(rules, rules.len());
    raised_list_length(views, views.len());
    assert forall|i: int| 0 <= i < list.len() implies rule_holds(#[trigger] rules[i], truth)
        == written_holds(list[i], truth) by {
        assert(written_list(list, list.len())[i] == written(list[i]));
        assert(raised_list(views, views.len())[i] == raised(views[i]));
        assert(views[i] == evaluated(rules[i]));
        shown_conditions_mean_what_is_evaluated(rules[i], list[i], truth);
    }
}

/// How deep a condition is: one level where nothing is below it, and otherwise one more than
/// the deepest of what it joins, be they joined by and or by or.
pub proof fn conditions_are_as_deep_as_what_they_join(
    criteria: CriteriaView,
    children: Seq<CriteriaView>,
)
    requires
        criteria == (CriteriaView::And { children }) || criteria == (CriteriaView::Or { children }),
    ensures
        children.len() == 0 ==> depth_of(criteria) == 1 && nodes_of(criteria) == 1,
        forall|i: int|
            0 <= i < children.len() ==> depth_of(#[trigger] children[i]) < depth_of(criteria),
        children.len() > 0 ==> exists|i: int|
            0 <= i < children.len() && depth_of(#[trigger] children[i]) + 1 == depth_of(criteria),
        nodes_of(criteria) == 1 + sum(children.len(), sizes_of(children)),
{
    deepest_child(children, children.len());
    children_are_counted(children, children.len());
}

/// How many nodes the condition at a position has.
pub open spec fn sizes_of(list: Seq<CriteriaView>) -> spec_fn(int) -> nat {
    |i: int| nodes_of(list[i])
}

proof fn children_are_counted(list: Seq<CriteriaView>, count: nat)
    requires
        count <= list.len(),
    ensures
        nodes_in(list, count) == sum(count, sizes_of(list)),
    decreases count,
{
    if count > 0 {
        children_are_counted(list, (count - 1) as nat);
    }
}

proof fn deepest_child(list: Seq<CriteriaView>, count: nat)
    requires
        count <= list.len(),
    ensures
        count == 0 ==> depth_in(list, count) == 0,
        forall|i: int| 0 <= i < count ==> depth_of(#[trigger] list[i]) <= depth_in(list, count),
        count > 0 ==> exists|i: int|
            0 <= i < count && depth_of(#[trigger] list[i]) == depth_in(list, count),
    decreases count,
{
    if count > 0 {
        let fewer = (count - 1) as nat;
        deepest_child(list, fewer);
        let before = depth_in(list, fewer);
        let last = depth_of(list[count - 1]);
        if before < last || fewer == 0 {
            assert(depth_of(list[count - 1]) == depth_in(list, count));
        } else {
            let i = choose|i: int| 0 <= i < fewer && depth_of(#[trigger] list[i]) == before;
            assert(depth_of(list[i]) == depth_in(list, count));
        }
    }
}

/// A predicate is admitted exactly where a level and a node are left for it, the catalog has
/// its field, the field offers its operation, and it has what the operation takes: nothing
/// where it asks for presence, a list of values of the field's type, not too long, where
/// it asks for membership, and one value of that type for every other comparison.
pub proof fn predicates_are_admitted_where_they_fit(
    field: Seq<char>,
    op: Operator,
    value: Option<ScalarView>,
    values: Option<Seq<ScalarView>>,
    limits: Limits,
    catalog: Seq<FieldDefinition>,
    d: int,
)
    requires
        0 <= d < catalog.len(),
        catalog[d].key@ == field,
        forall|e: int| 0 <= e < d ==> (#[trigger] catalog[e]).key@ != field,
    ensures
        is_admitted(
            CriteriaView::Predicate { field, op, value, values },
            limits.depth as int,
            limits.nodes as int,
            limits.set_items as int,
            catalog,
        ) <==> {
            &&& limits.depth >= 1 && limits.nodes >= 1
            &&& catalog[d].operations@.contains(op)
            &&& op is IsNull || op is IsNotNull ==> value is None && values is None
            &&& op is In || op is NotIn ==> value is None && (values matches Some(values)
                && values.len() <= limits.set_items && (forall|i: int|
                0 <= i < values.len() ==> kind_of(#[trigger] values[i]) == catalog[d].kind))
            &&& !(op is IsNull || op is IsNotNull || op is In || op is NotIn) ==> values is None
                && (value matches Some(value) && kind_of(value) == catalog[d].kind)
        },
{
    first_definition(catalog, field, d);
}

proof fn first_definition(catalog: Seq<FieldDefinition>, field: Seq<char>, d: int)
    requires
        0 <= d < catalog.len(),
        catalog[d].key@ == field,
        forall|e: int| 0 <= e < d ==> (#[trigger] catalog[e]).key@ != field,
    ensures
        defined(catalog, field) == Some(catalog[d]),
    decreases d,
{
    if d > 0 {
        assert(catalog[0].key@ != field);
        let rest = catalog.drop_first();
        assert forall|e: int| 0 <= e < d - 1 implies (#[trigger] rest[e]).key@ != field by {
            assert(rest[e] == catalog[e + 1]);
        }
        first_definition(rest, field, d - 1);
    }
}

/// A joined condition is admitted only where each of those that it joins is, with one level
/// less.
pub proof fn joined_conditions_are_admitted_one_by_one(
    criteria: CriteriaView,
    children: Seq<CriteriaView>,
    depth: int,
    nodes: int,
    set_items: int,
    catalog: Seq<FieldDefinition>,
    at: int,
)
    requires
        criteria == (CriteriaView::And { children }) || criteria == (CriteriaView::Or { children }),
        is_admitted(criteria, depth, nodes, set_items, catalog),
        0 <= at < children.len(),
    ensures
        is_admitted(children[at], depth - 1, nodes - 1, set_items, catalog),
{
    deepest_child(children, children.len());
    typed_together(children, (at + 1) as nat, children.len(), catalog, set_items);
    one_child_is_counted(children, children.len(), at);
}

proof fn one_child_is_counted(list: Seq<CriteriaView>, count: nat, at: int)
    requires
        0 <= at < count <= list.len(),
    ensures
        nodes_of(list[at]) <= nodes_in(list, count),
    decreases count,
{
    if at < count - 1 {
        one_child_is_counted(list, (count - 1) as nat, at);
    }
}

} // verus!
