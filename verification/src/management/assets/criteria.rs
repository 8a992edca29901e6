//! Conditions as they are written and as the group rules evaluate them.
use crate::error::Error;
use crate::inventory::{Kind, Scalar, ScalarView};
use crate::management::assets::meaning::{
    compares_like_with_like, rule_holds, rules_compare_like_with_like, rules_mean_what_was_written,
    written_holds, Question,
};
use crate::management::assets::model::{Criteria, FieldDefinition, Operator};
use crate::text::same;
use vstd::prelude::*;

verus! {

/// How large a condition may be.
#[derive(Clone, Copy, Debug)]
pub struct Limits {
    pub depth: usize,
    pub nodes: usize,
    pub set_items: usize,
}

/// What a predicate compares a field with.
#[derive(Debug)]
pub enum Operand {
    Scalar(Scalar),
    Values { element: Kind, values: Vec<Scalar> },
}

/// A condition as the group rules evaluate it.
#[derive(Debug)]
pub enum RuleCriteria {
    Predicate { field: String, op: Operator, operand: Option<Operand> },
    And { children: Vec<RuleCriteria> },
    Or { children: Vec<RuleCriteria> },
}

/// A written condition, with its texts and lists as sequences.
pub enum CriteriaView {
    Predicate {
        field: Seq<char>,
        op: Operator,
        value: Option<ScalarView>,
        values: Option<Seq<ScalarView>>,
    },
    And { children: Seq<CriteriaView> },
    Or { children: Seq<CriteriaView> },
}

/// What a predicate compares with, with its texts and lists as sequences.
pub enum OperandView {
    Scalar(ScalarView),
    Values { element: Kind, values: Seq<ScalarView> },
}

/// An evaluated condition, with its texts and lists as sequences.
pub enum RuleView {
    Predicate { field: Seq<char>, op: Operator, operand: Option<OperandView> },
    And { children: Seq<RuleView> },
    Or { children: Seq<RuleView> },
}

/// What values are, apart from how they are held.
pub open spec fn scalars_of(values: Seq<Scalar>) -> Seq<ScalarView> {
    values.map_values(|value: Scalar| value@)
}

/// What a written condition says.
pub open spec fn written(criteria: Criteria) -> CriteriaView
    decreases criteria, 0nat,
{
    match criteria {
        Criteria::Predicate { field, op, value, values } => CriteriaView::Predicate {
            field: field@,
            op,
            value: match value {
                Some(value) => Some(value@),
                None => None,
            },
            values: match values {
                Some(values) => Some(scalars_of(values@)),
                None => None,
            },
        },
        Criteria::And { children } => CriteriaView::And {
            children: written_list(children@, children@.len()),
        },
        Criteria::Or { children } => CriteriaView::Or {
            children: written_list(children@, children@.len()),
        },
    }
}

/// What the first `count` of some written conditions say.
pub open spec fn written_list(list: Seq<Criteria>, count: nat) -> Seq<CriteriaView>
    decreases list, count,
{
    if count == 0 || count > list.len() {
        Seq::empty()
    } else {
        written_list(list, (count - 1) as nat).push(written(list[count - 1]))
    }
}

/// What an evaluated condition says.
pub open spec fn evaluated(criteria: RuleCriteria) -> RuleView
    decreases criteria, 0nat,
{
    match criteria {
        RuleCriteria::Predicate { field, op, operand } => RuleView::Predicate {
            field: field@,
            op,
            operand: match operand {
                Some(Operand::Scalar(value)) => Some(OperandView::Scalar(value@)),
                Some(Operand::Values { element, values }) => Some(
                    OperandView::Values { element, values: scalars_of(values@) },
                ),
                None => None,
            },
        },
        RuleCriteria::And { children } => RuleView::And {
            children: evaluated_list(children@, children@.len()),
        },
        RuleCriteria::Or { children } => RuleView::Or {
            children: evaluated_list(children@, children@.len()),
        },
    }
}

/// What the first `count` of some evaluated conditions say.
pub open spec fn evaluated_list(list: Seq<RuleCriteria>, count: nat) -> Seq<RuleView>
    decreases list, count,
{
    if count == 0 || count > list.len() {
        Seq::empty()
    } else {
        evaluated_list(list, (count - 1) as nat).push(evaluated(list[count - 1]))
    }
}

/// How many nodes a condition has.
pub open spec fn nodes_of(criteria: CriteriaView) -> nat
    decreases criteria, 0nat,
{
    match criteria {
        CriteriaView::Predicate { .. } => 1,
        CriteriaView::And { children } => 1 + nodes_in(children, children.len()),
        CriteriaView::Or { children } => 1 + nodes_in(children, children.len()),
    }
}

/// How many nodes the first `count` of some conditions have.
pub open spec fn nodes_in(list: Seq<CriteriaView>, count: nat) -> nat
    decreases list, count,
{
    if count == 0 || count > list.len() {
        0
    } else {
        nodes_in(list, (count - 1) as nat) + nodes_of(list[count - 1])
    }
}

/// How many nodes a path through a condition has at most.
pub open spec fn depth_of(criteria: CriteriaView) -> nat
    decreases criteria, 0nat,
{
    match criteria {
        CriteriaView::Predicate { .. } => 1,
        CriteriaView::And { children } => 1 + depth_in(children, children.len()),
        CriteriaView::Or { children } => 1 + depth_in(children, children.len()),
    }
}

/// How many nodes a path through the first `count` of some conditions has at most.
pub open spec fn depth_in(list: Seq<CriteriaView>, count: nat) -> nat
    decreases list, count,
{
    if count == 0 || count > list.len() {
        0
    } else {
        let before = depth_in(list, (count - 1) as nat);
        let last = depth_of(list[count - 1]);
        if before < last {
            last
        } else {
            before
        }
    }
}

/// The type of a value.
pub open spec fn kind_of(value: ScalarView) -> Kind {
    match value {
        ScalarView::String(_) => Kind::String,
        ScalarView::Integer(_) => Kind::Integer,
        ScalarView::Boolean(_) => Kind::Boolean,
        ScalarView::Time(_) => Kind::Time,
    }
}

/// The definition of a field, where the catalog has one: the first of its name.
pub open spec fn defined(catalog: Seq<FieldDefinition>, field: Seq<char>) -> Option<FieldDefinition>
    decreases catalog.len(),
{
    if catalog.len() == 0 {
        None
    } else if catalog[0].key@ == field {
        Some(catalog[0])
    } else {
        defined(catalog.drop_first(), field)
    }
}

/// Whether a predicate of `op` on a field of type `kind` has the operand that it
/// takes: none for a test of presence, a bounded list of values for a test of
/// membership, one value for a comparison, each of the field's type.
pub open spec fn operand_fits(
    op: Operator,
    kind: Kind,
    value: Option<ScalarView>,
    values: Option<Seq<ScalarView>>,
    set_items: int,
) -> bool {
    match op {
        Operator::IsNull | Operator::IsNotNull => value is None && values is None,
        Operator::In | Operator::NotIn => value is None && (values matches Some(values) && {
            &&& values.len() <= set_items
            &&& forall|i: int| 0 <= i < values.len() ==> kind_of(#[trigger] values[i]) == kind
        }),
        _ => values is None && (value matches Some(value) && kind_of(value) == kind),
    }
}

/// Whether every predicate of a condition is of a known field, which offers its
/// operation, and has the operand that it takes.
pub open spec fn is_typed(
    criteria: CriteriaView,
    catalog: Seq<FieldDefinition>,
    set_items: int,
) -> bool
    decreases criteria, 0nat,
{
    match criteria {
        CriteriaView::Predicate { field, op, value, values } => match defined(catalog, field) {
            Some(definition) => definition.operations@.contains(op) && operand_fits(
                op,
                definition.kind,
                value,
                values,
                set_items,
            ),
            None => false,
        },
        CriteriaView::And { children } => are_typed(children, children.len(), catalog, set_items),
        CriteriaView::Or { children } => are_typed(children, children.len(), catalog, set_items),
    }
}

/// Whether every predicate of the first `count` of some conditions is typed.
pub open spec fn are_typed(
    list: Seq<CriteriaView>,
    count: nat,
    catalog: Seq<FieldDefinition>,
    set_items: int,
) -> bool
    decreases list, count,
{
    if count == 0 || count > list.len() {
        true
    } else {
        are_typed(list, (count - 1) as nat, catalog, set_items) && is_typed(
            list[count - 1],
            catalog,
            set_items,
        )
    }
}

/// The evaluated form of a written condition.
pub open spec fn lowered(criteria: CriteriaView, catalog: Seq<FieldDefinition>) -> RuleView
    decreases criteria, 0nat,
{
    match criteria {
        CriteriaView::Predicate { field, op, value, values } => RuleView::Predicate {
            field,
            op,
            operand: match (value, values) {
                (Some(value), _) => Some(OperandView::Scalar(value)),
                (None, Some(values)) => Some(
                    OperandView::Values {
                        element: match defined(catalog, field) {
                            Some(definition) => definition.kind,
                            None => Kind::String,
                        },
                        values,
                    },
                ),
                (None, None) => None,
            },
        },
        CriteriaView::And { children } => RuleView::And {
            children: lowered_list(children, children.len(), catalog),
        },
        CriteriaView::Or { children } => RuleView::Or {
            children: lowered_list(children, children.len(), catalog),
        },
    }
}

/// The evaluated forms of the first `count` of some conditions.
pub open spec fn lowered_list(
    list: Seq<CriteriaView>,
    count: nat,
    catalog: Seq<FieldDefinition>,
) -> Seq<RuleView>
    decreases list, count,
{
    if count == 0 || count > list.len() {
        Seq::empty()
    } else {
        lowered_list(list, (count - 1) as nat, catalog).push(lowered(list[count - 1], catalog))
    }
}

/// The written form of an evaluated condition.
pub open spec fn raised(criteria: RuleView) -> CriteriaView
    decreases criteria, 0nat,
{
    match criteria {
        RuleView::Predicate { field, op, operand } => CriteriaView::Predicate {
            field,
            op,
            value: match operand {
                Some(OperandView::Scalar(value)) => Some(value),
                _ => None,
            },
            values: match operand {
                Some(OperandView::Values { values, .. }) => Some(values),
                _ => None,
            },
        },
        RuleView::And { children } => CriteriaView::And {
            children: raised_list(children, children.len()),
        },
        RuleView::Or { children } => CriteriaView::Or {
            children: raised_list(children, children.len()),
        },
    }
}

/// The written forms of the first `count` of some conditions.
pub open spec fn raised_list(list: Seq<RuleView>, count: nat) -> Seq<CriteriaView>
    decreases list, count,
{
    if count == 0 || count > list.len() {
        Seq::empty()
    } else {
        raised_list(list, (count - 1) as nat).push(raised(list[count - 1]))
    }
}

/// Whether every predicate of an evaluated condition is on a field of the
/// catalog that offers its operation.
pub open spec fn is_offered(criteria: RuleView, catalog: Seq<FieldDefinition>) -> bool
    decreases criteria, 0nat,
{
    match criteria {
        RuleView::Predicate { field, op, .. } => match defined(catalog, field) {
            Some(definition) => definition.operations@.contains(op),
            None => false,
        },
        RuleView::And { children } => are_offered(children, children.len(), catalog),
        RuleView::Or { children } => are_offered(children, children.len(), catalog),
    }
}

/// Whether the first `count` of some evaluated conditions are offered.
pub open spec fn are_offered(
    list: Seq<RuleView>,
    count: nat,
    catalog: Seq<FieldDefinition>,
) -> bool
    decreases list, count,
{
    if count == 0 || count > list.len() {
        true
    } else {
        are_offered(list, (count - 1) as nat, catalog) && is_offered(list[count - 1], catalog)
    }
}

/// The definition of a field, where the catalog has one.
pub fn definition<'a>(catalog: &'a Vec<FieldDefinition>, field: &str) -> (found: Option<
    &'a FieldDefinition,
>)
    ensures
        match found {
            Some(found) => defined(catalog@, field@) == Some(*found),
            None => defined(catalog@, field@) is None,
        },
{
    let mut i: usize = 0;
    assert(catalog@.skip(0) =~= catalog@);
    while i < catalog.len()
        invariant
            i <= catalog@.len(),
            defined(catalog@, field@) == defined(catalog@.skip(i as int), field@),
        decreases catalog@.len() - i,
    {
        assert(catalog@.skip(i as int).drop_first() =~= catalog@.skip(i + 1));
        if same(catalog[i].key.as_str(), field) {
            return Some(&catalog[i]);
        }
        i += 1;
    }
    None
}

/// Another list of values equal to `values`, where each is of type `kind`.
fn typed_values(values: &Vec<Scalar>, kind: Kind) -> (copies: Option<Vec<Scalar>>)
    ensures
        match copies {
            Some(copies) => copies@ == values@ && (forall|i: int|
                0 <= i < values@.len() ==> kind_of((#[trigger] values@[i])@) == kind),
            None => exists|i: int| 0 <= i < values@.len() && kind_of((#[trigger] values@[i])@) != kind,
        },
{
    let mut copies: Vec<Scalar> = Vec::new();
    let mut i: usize = 0;
    while i < values.len()
        invariant
            i <= values@.len(),
            copies@ =~= values@.take(i as int),
            forall|j: int| 0 <= j < i ==> kind_of((#[trigger] values@[j])@) == kind,
        decreases values@.len() - i,
    {
        if values[i].kind() != kind {
            assert(kind_of(values@[i as int]@) != kind);
            return None;
        }
        copies.push(values[i].copy());
        i += 1;
    }
    assert(copies@ =~= values@);
    Some(copies)
}

/// Another list of values equal to `values`.
fn copied_values(values: &Vec<Scalar>) -> (copies: Vec<Scalar>)
    ensures
        copies@ == values@,
{
    let mut copies: Vec<Scalar> = Vec::new();
    let mut i: usize = 0;
    while i < values.len()
        invariant
            i <= values@.len(),
            copies@ =~= values@.take(i as int),
        decreases values@.len() - i,
    {
        copies.push(values[i].copy());
        i += 1;
    }
    assert(copies@ =~= values@);
    copies
}

/// The operand of a predicate of `op` on a field of type `kind`.
fn operand(
    op: Operator,
    kind: Kind,
    value: &Option<Scalar>,
    values: &Option<Vec<Scalar>>,
    set_items: usize,
) -> (found: Result<Option<Operand>, Error>)
    ensures
        ({
            let v = match *value {
                Some(value) => Some(value@),
                None => None,
            };
            let vs = match *values {
                Some(values) => Some(scalars_of(values@)),
                None => None,
            };
            match found {
                Ok(operand) => operand_fits(op, kind, v, vs, set_items as int) && (match operand {
                    Some(Operand::Scalar(one)) => v == Some(one@) && vs is None,
                    Some(Operand::Values { element, values }) => v is None && vs == Some(
                        scalars_of(values@),
                    ) && element == kind,
                    None => v is None && vs is None,
                }),
                Err(error) => error == Error::Malformed && !operand_fits(
                    op,
                    kind,
                    v,
                    vs,
                    set_items as int,
                ),
            }
        }),
{
    match op {
        Operator::IsNull | Operator::IsNotNull => {
            if value.is_none() && values.is_none() {
                Ok(None)
            } else {
                Err(Error::Malformed)
            }
        },
        Operator::In | Operator::NotIn => {
            if value.is_some() {
                return Err(Error::Malformed);
            }
            match values {
                None => Err(Error::Malformed),
                Some(values) => {
                    if values.len() > set_items {
                        return Err(Error::Malformed);
                    }
                    let ghost seen = scalars_of(values@);
                    match typed_values(values, kind) {
                        Some(values) => Ok(Some(Operand::Values { element: kind, values })),
                        None => {
                            proof {
                                let i = choose|i: int|
                                    0 <= i < values@.len() && kind_of((#[trigger] values@[i])@)
                                        != kind;
                                assert(kind_of(seen[i]) != kind);
                            }
                            Err(Error::Malformed)
                        },
                    }
                },
            }
        },
        _ => {
            if values.is_some() {
                return Err(Error::Malformed);
            }
            match value {
                None => Err(Error::Malformed),
                Some(value) => if value.kind() == kind {
                    Ok(Some(Operand::Scalar(value.copy())))
                } else {
                    Err(Error::Malformed)
                },
            }
        },
    }
}

/// Whether a condition has at most `depth` levels and `nodes` nodes and is typed.
pub open spec fn is_admitted(
    criteria: CriteriaView,
    depth: int,
    nodes: int,
    set_items: int,
    catalog: Seq<FieldDefinition>,
) -> bool {
    &&& depth_of(criteria) <= depth
    &&& nodes_of(criteria) <= nodes
    &&& is_typed(criteria, catalog, set_items)
}

/// Whether the first `count` of some conditions have at most `depth` levels and
/// together `nodes` nodes, and are typed.
pub open spec fn are_admitted(
    list: Seq<CriteriaView>,
    count: nat,
    depth: int,
    nodes: int,
    set_items: int,
    catalog: Seq<FieldDefinition>,
) -> bool {
    &&& depth_in(list, count) <= depth
    &&& nodes_in(list, count) <= nodes
    &&& are_typed(list, count, catalog, set_items)
}

pub(crate) proof fn written_list_length(list: Seq<Criteria>, count: nat)
    requires
        count <= list.len(),
    ensures
        written_list(list, count).len() == count,
        forall|i: int|
            0 <= i < count ==> #[trigger] written_list(list, count)[i] == written(list[i]),
    decreases count,
{
    if count > 0 {
        written_list_length(list, (count - 1) as nat);
    }
}

pub(crate) proof fn evaluated_list_length(list: Seq<RuleCriteria>, count: nat)
    requires
        count <= list.len(),
    ensures
        evaluated_list(list, count).len() == count,
        forall|i: int|
            0 <= i < count ==> #[trigger] evaluated_list(list, count)[i] == evaluated(list[i]),
    decreases count,
{
    if count > 0 {
        evaluated_list_length(list, (count - 1) as nat);
    }
}

pub(crate) proof fn lowered_list_length(list: Seq<CriteriaView>, count: nat, catalog: Seq<FieldDefinition>)
    requires
        count <= list.len(),
    ensures
        lowered_list(list, count, catalog).len() == count,
        forall|i: int|
            0 <= i < count ==> #[trigger] lowered_list(list, count, catalog)[i] == lowered(
                list[i],
                catalog,
            ),
    decreases count,
{
    if count > 0 {
        lowered_list_length(list, (count - 1) as nat, catalog);
    }
}

pub(crate) proof fn raised_list_length(list: Seq<RuleView>, count: nat)
    requires
        count <= list.len(),
    ensures
        raised_list(list, count).len() == count,
        forall|i: int| 0 <= i < count ==> #[trigger] raised_list(list, count)[i] == raised(list[i]),
    decreases count,
{
    if count > 0 {
        raised_list_length(list, (count - 1) as nat);
    }
}

proof fn counted_together(list: Seq<CriteriaView>, few: nat, many: nat)
    requires
        few <= many <= list.len(),
    ensures
        nodes_in(list, few) <= nodes_in(list, many),
        depth_in(list, few) <= depth_in(list, many),
    decreases many,
{
    if few < many {
        counted_together(list, few, (many - 1) as nat);
    }
}

pub(crate) proof fn typed_together(
    list: Seq<CriteriaView>,
    few: nat,
    many: nat,
    catalog: Seq<FieldDefinition>,
    set_items: int,
)
    requires
        few <= many <= list.len(),
        are_typed(list, many, catalog, set_items),
    ensures
        are_typed(list, few, catalog, set_items),
    decreases many,
{
    if few < many {
        typed_together(list, few, (many - 1) as nat, catalog, set_items);
    }
}

/// The evaluated form of a condition at a node that has `depth` levels left
/// below and `nodes` nodes left to use.
fn lower(
    criteria: &Criteria,
    depth: usize,
    nodes: &mut usize,
    set_items: usize,
    catalog: &Vec<FieldDefinition>,
) -> (found: Result<RuleCriteria, Error>)
    ensures
        match found {
            Ok(rule) => {
                &&& is_admitted(
                    written(*criteria),
                    depth as int,
                    *old(nodes) as int,
                    set_items as int,
                    catalog@,
                )
                &&& evaluated(rule) == lowered(written(*criteria), catalog@)
                &&& *final(nodes) == *old(nodes) - nodes_of(written(*criteria))
            },
            Err(error) => error == Error::Malformed && !is_admitted(
                written(*criteria),
                depth as int,
                *old(nodes) as int,
                set_items as int,
                catalog@,
            ),
        },
    decreases criteria,
{
    if depth == 0 || *nodes == 0 {
        return Err(Error::Malformed);
    }
    *nodes = *nodes - 1;
    proof {
        match criteria {
            Criteria::And { children } => written_list_length(children@, children@.len()),
            Criteria::Or { children } => written_list_length(children@, children@.len()),
            _ => {},
        }
    }
    match criteria {
        Criteria::Predicate { field, op, value, values } => {
            let kind = match definition(catalog, field.as_str()) {
                Some(definition) => {
                    if !offers(&definition.operations, *op) {
                        return Err(Error::Malformed);
                    }
                    definition.kind
                },
                None => return Err(Error::Malformed),
            };
            match operand(*op, kind, value, values, set_items) {
                Ok(operand) => Ok(
                    RuleCriteria::Predicate { field: field.clone(), op: *op, operand },
                ),
                Err(error) => Err(error),
            }
        },
        Criteria::And { children } => match lower_list(
            children,
            depth - 1,
            nodes,
            set_items,
            catalog,
        ) {
            Ok(children) => Ok(RuleCriteria::And { children }),
            Err(error) => Err(error),
        },
        Criteria::Or { children } => match lower_list(
            children,
            depth - 1,
            nodes,
            set_items,
            catalog,
        ) {
            Ok(children) => Ok(RuleCriteria::Or { children }),
            Err(error) => Err(error),
        },
    }
}

/// The evaluated forms of some conditions.
fn lower_list(
    list: &Vec<Criteria>,
    depth: usize,
    nodes: &mut usize,
    set_items: usize,
    catalog: &Vec<FieldDefinition>,
) -> (found: Result<Vec<RuleCriteria>, Error>)
    ensures
        ({
            let conditions = written_list(list@, list@.len());
            match found {
                Ok(rules) => {
                    &&& are_admitted(
                        conditions,
                        list@.len(),
                        depth as int,
                        *old(nodes) as int,
                        set_items as int,
                        catalog@,
                    )
                    &&& rules@.len() == list@.len()
                    &&& evaluated_list(rules@, rules@.len()) == lowered_list(
                        conditions,
                        conditions.len(),
                        catalog@,
                    )
                    &&& *final(nodes) == *old(nodes) - nodes_in(conditions, list@.len())
                },
                Err(error) => error == Error::Malformed && !are_admitted(
                    conditions,
                    list@.len(),
                    depth as int,
                    *old(nodes) as int,
                    set_items as int,
                    catalog@,
                ),
            }
        }),
    decreases list,
{
    let ghost conditions = written_list(list@, list@.len());
    proof {
        written_list_length(list@, list@.len());
    }
    let mut rules: Vec<RuleCriteria> = Vec::new();
    let mut i: usize = 0;
    while i < list.len()
        invariant
            i <= list@.len(),
            conditions == written_list(list@, list@.len()),
            conditions.len() == list@.len(),
            forall|j: int| 0 <= j < list@.len() ==> #[trigger] conditions[j] == written(list@[j]),
            rules@.len() == i,
            forall|j: int|
                0 <= j < i ==> evaluated(#[trigger] rules@[j]) == lowered(conditions[j], catalog@),
            are_admitted(
                conditions,
                i as nat,
                depth as int,
                *old(nodes) as int,
                set_items as int,
                catalog@,
            ),
            *nodes == *old(nodes) - nodes_in(conditions, i as nat),
        decreases list@.len() - i,
    {
        let ghost before = *nodes;
        match lower(&list[i], depth, nodes, set_items, catalog) {
            Ok(rule) => {
                rules.push(rule);
            },
            Err(error) => {
                proof {
                    let all = list@.len();
                    counted_together(conditions, (i + 1) as nat, all);
                    if are_typed(conditions, all, catalog@, set_items as int) {
                        typed_together(
                            conditions,
                            (i + 1) as nat,
                            all,
                            catalog@,
                            set_items as int,
                        );
                    }
                    assert(!is_admitted(
                        conditions[i as int],
                        depth as int,
                        before as int,
                        set_items as int,
                        catalog@,
                    ));
                }
                return Err(error);
            },
        }
        i += 1;
    }
    proof {
        evaluated_list_length(rules@, rules@.len());
        lowered_list_length(conditions, conditions.len(), catalog@);
        assert(evaluated_list(rules@, rules@.len()) =~= lowered_list(
            conditions,
            conditions.len(),
            catalog@,
        ));
    }
    Ok(rules)
}

/// The evaluated form of a written condition, where it stays within the limits
/// and every predicate is of a field of the catalog, by an operation that the
/// field offers, with values of its type. `sound` is whether those who own them
/// accept the values that the condition holds and the condition that they make:
/// what they refuse beyond its types and limits is theirs to say.
pub fn rule(
    criteria: &Criteria,
    sound: bool,
    catalog: &Vec<FieldDefinition>,
    limits: Limits,
) -> (found: Result<RuleCriteria, Error>)
    ensures
        match found {
            Ok(rule) => sound && is_admitted(
                written(*criteria),
                limits.depth as int,
                limits.nodes as int,
                limits.set_items as int,
                catalog@,
            ) && evaluated(rule) == lowered(written(*criteria), catalog@),
            Err(error) => error == Error::Malformed && !(sound && is_admitted(
                written(*criteria),
                limits.depth as int,
                limits.nodes as int,
                limits.set_items as int,
                catalog@,
            )),
        },
        found matches Ok(rule) ==> compares_like_with_like(rule, catalog@, limits.set_items as int),
        found matches Ok(rule) ==> forall|truth: spec_fn(Question) -> bool| #[trigger]
            rule_holds(rule, truth) == written_holds(*criteria, truth),
{
    if !sound {
        return Err(Error::Malformed);
    }
    let mut nodes: usize = limits.nodes;
    let found = lower(criteria, limits.depth, &mut nodes, limits.set_items, catalog);
    proof {
        if found is Ok {
            let rule = found->Ok_0;
            let items = limits.set_items as int;
            rules_compare_like_with_like(*criteria, rule, catalog@, items);
            assert forall|truth: spec_fn(Question) -> bool| #[trigger] rule_holds(rule, truth)
                == written_holds(*criteria, truth) by {
                rules_mean_what_was_written(*criteria, rule, catalog@, items, truth);
            }
        }
    }
    found
}

/// Whether operations hold `op`.
fn offers(operations: &Vec<Operator>, op: Operator) -> (answer: bool)
    ensures
        answer == operations@.contains(op),
{
    let mut i: usize = 0;
    while i < operations.len()
        invariant
            i <= operations@.len(),
            forall|j: int| 0 <= j < i ==> #[trigger] operations@[j] != op,
        decreases operations@.len() - i,
    {
        if operations[i] == op {
            return true;
        }
        i += 1;
    }
    false
}

/// The written form of an evaluated condition, where every predicate is on a
/// field of the catalog that offers its operation.
pub fn criteria_view(rule: &RuleCriteria, catalog: &Vec<FieldDefinition>) -> (found: Result<
    Criteria,
    Error,
>)
    ensures
        match found {
            Ok(criteria) => is_offered(evaluated(*rule), catalog@) && written(criteria) == raised(
                evaluated(*rule),
            ),
            Err(error) => error == Error::Malformed && !is_offered(evaluated(*rule), catalog@),
        },
    decreases rule,
{
    match rule {
        RuleCriteria::Predicate { field, op, operand } => {
            match definition(catalog, field.as_str()) {
                Some(definition) => if !offers(&definition.operations, *op) {
                    return Err(Error::Malformed);
                },
                None => return Err(Error::Malformed),
            }
            let (value, values) = match operand {
                Some(Operand::Scalar(value)) => (Some(value.copy()), None),
                Some(Operand::Values { values, .. }) => (None, Some(copied_values(values))),
                None => (None, None),
            };
            Ok(Criteria::Predicate { field: field.clone(), op: *op, value, values })
        },
        RuleCriteria::And { children } => match criteria_list(children, catalog) {
            Ok(children) => Ok(Criteria::And { children }),
            Err(error) => Err(error),
        },
        RuleCriteria::Or { children } => match criteria_list(children, catalog) {
            Ok(children) => Ok(Criteria::Or { children }),
            Err(error) => Err(error),
        },
    }
}

proof fn offered_together(
    list: Seq<RuleView>,
    few: nat,
    many: nat,
    catalog: Seq<FieldDefinition>,
)
    requires
        few <= many <= list.len(),
        are_offered(list, many, catalog),
    ensures
        are_offered(list, few, catalog),
    decreases many,
{
    if few < many {
        offered_together(list, few, (many - 1) as nat, catalog);
    }
}

/// The written forms of some evaluated conditions.
fn criteria_list(list: &Vec<RuleCriteria>, catalog: &Vec<FieldDefinition>) -> (found: Result<
    Vec<Criteria>,
    Error,
>)
    ensures
        ({
            let rules = evaluated_list(list@, list@.len());
            match found {
                Ok(conditions) => {
                    &&& are_offered(rules, rules.len(), catalog@)
                    &&& written_list(conditions@, conditions@.len()) == raised_list(
                        rules,
                        rules.len(),
                    )
                },
                Err(error) => error == Error::Malformed && !are_offered(
                    rules,
                    rules.len(),
                    catalog@,
                ),
            }
        }),
    decreases list,
{
    let ghost rules = evaluated_list(list@, list@.len());
    proof {
        evaluated_list_length(list@, list@.len());
    }
    let mut conditions: Vec<Criteria> = Vec::new();
    let mut i: usize = 0;
    while i < list.len()
        invariant
            i <= list@.len(),
            rules == evaluated_list(list@, list@.len()),
            rules.len() == list@.len(),
            forall|j: int| 0 <= j < list@.len() ==> #[trigger] rules[j] == evaluated(list@[j]),
            conditions@.len() == i,
            forall|j: int|
                0 <= j < i ==> written(#[trigger] conditions@[j]) == raised(rules[j]),
            are_offered(rules, i as nat, catalog@),
        decreases list@.len() - i,
    {
        match criteria_view(&list[i], catalog) {
            Ok(criteria) => {
                conditions.push(criteria);
            },
            Err(error) => {
                proof {
                    if are_offered(rules, rules.len(), catalog@) {
                        offered_together(rules, (i + 1) as nat, rules.len(), catalog@);
                    }
                }
                return Err(error);
            },
        }
        i += 1;
    }
    proof {
        written_list_length(conditions@, conditions@.len());
        raised_list_length(rules, rules.len());
        assert(written_list(conditions@, conditions@.len()) =~= raised_list(rules, rules.len()));
    }
    Ok(conditions)
}

/// A condition that is admitted reads back as it was written: its evaluated form
/// can be shown, and is shown as the same condition.
pub proof fn admitted_condition_reads_back(
    criteria: CriteriaView,
    catalog: Seq<FieldDefinition>,
    set_items: int,
)
    requires
        is_typed(criteria, catalog, set_items),
    ensures
        is_offered(lowered(criteria, catalog), catalog),
        raised(lowered(criteria, catalog)) == criteria,
    decreases criteria, 0nat,
{
    match criteria {
        CriteriaView::Predicate { field, op, value, values } => {},
        CriteriaView::And { children } => {
            admitted_conditions_read_back(children, catalog, set_items);
        },
        CriteriaView::Or { children } => {
            admitted_conditions_read_back(children, catalog, set_items);
        },
    }
}

proof fn admitted_conditions_read_back(
    list: Seq<CriteriaView>,
    catalog: Seq<FieldDefinition>,
    set_items: int,
)
    requires
        are_typed(list, list.len(), catalog, set_items),
    ensures
        are_offered(
            lowered_list(list, list.len(), catalog),
            lowered_list(list, list.len(), catalog).len(),
            catalog,
        ),
        raised_list(
            lowered_list(list, list.len(), catalog),
            lowered_list(list, list.len(), catalog).len(),
        ) == list,
    decreases list, 1nat,
{
    let rules = lowered_list(list, list.len(), catalog);
    lowered_list_length(list, list.len(), catalog);
    raised_list_length(rules, rules.len());
    assert forall|i: int| 0 <= i < list.len() implies raised(#[trigger] rules[i]) == list[i]
        && is_offered(rules[i], catalog) by {
        typed_together(list, (i + 1) as nat, list.len(), catalog, set_items);
        admitted_condition_reads_back(list[i], catalog, set_items);
    }
    assert(raised_list(rules, rules.len()) =~= list);
    offered_each(rules, rules.len(), catalog);
}

/// Conditions that each can be shown can be shown together.
proof fn offered_each(list: Seq<RuleView>, count: nat, catalog: Seq<FieldDefinition>)
    requires
        count <= list.len(),
        forall|i: int| 0 <= i < list.len() ==> is_offered(#[trigger] list[i], catalog),
    ensures
        are_offered(list, count, catalog),
    decreases count,
{
    if count > 0 {
        offered_each(list, (count - 1) as nat, catalog);
    }
}

} // verus!
