//! Scopes: which devices a policy reaches.
use crate::error::Error;
use crate::id::{text_denotes_its_identifier, nil, text_of, Id};
use crate::management::model::{Missing, Operation, Reference, ReferenceView, ScopeChange};
use crate::management::request::{group_checked, group_refusal, GroupRejection};
use crate::set::OrderedSet;
use crate::text::join;
use vstd::prelude::*;

verus! {

/// The most devices and groups that a scope names.
pub const SCOPE_REFERENCES: usize = 1000;

/// How a stored scope is changed: put at no revision, it is made; put at one, it
/// is replaced; and it is deleted.
#[derive(Clone, Copy, Debug, PartialEq, Eq, Structural)]
pub enum ScopeWrite {
    Insert,
    Replace,
    Delete,
}

/// How a change of a scope is carried out.
#[derive(Debug)]
pub struct ScopePlan {
    pub write: ScopeWrite,
    /// The revision that the scope comes to.
    pub revision: u64,
    /// What the scope names, in order, each with its kind.
    pub kinds: Vec<&'static str>,
    pub targets: Vec<String>,
    /// The name that policies refer to the definition by.
    pub reference: String,
    /// Whether the scope is resolved anew.
    pub resolve: bool,
}

/// What a change of a scope is refused with, where it is: the scope has to have
/// an identifier, its next revision has to be storable, and it has to name a
/// bounded number of devices and groups. `named` is how many it names.
pub open spec fn change_refusal(id: Id, op: Operation<ScopeChange>, named: int) -> Option<Error> {
    if id == nil() {
        Some(Error::Malformed)
    } else if op.expected_revision + 1 > i64::MAX {
        Some(Error::Conflict)
    } else if op.input is Put && named > SCOPE_REFERENCES {
        Some(Error::Malformed)
    } else {
        None
    }
}

/// The kind and the text of what a scope names.
pub open spec fn row_of(reference: ReferenceView) -> (Seq<char>, Seq<char>) {
    match reference {
        ReferenceView::Group(id) => ("group"@, text_of(id)),
        ReferenceView::Device(id) => ("device"@, id),
    }
}

/// Whether two lists hold the kinds and texts of what a scope names, in order.
pub open spec fn lists_rows(
    kinds: Seq<&'static str>,
    targets: Seq<String>,
    references: Seq<ReferenceView>,
) -> bool {
    &&& kinds.len() == references.len()
    &&& targets.len() == references.len()
    &&& forall|i: int|
        0 <= i < references.len() ==> (kinds[i]@, targets[i]@) == row_of(#[trigger] references[i])
}

/// The kinds and texts of what a scope names.
fn rows(references: &OrderedSet<Reference>) -> (rows: (Vec<&'static str>, Vec<String>))
    ensures
        lists_rows(rows.0@, rows.1@, references@),
{
    let mut kinds: Vec<&'static str> = Vec::new();
    let mut targets: Vec<String> = Vec::new();
    let mut i: usize = 0;
    while i < references.items.len()
        invariant
            i <= references.items@.len(),
            kinds@.len() == i,
            targets@.len() == i,
            forall|j: int|
                0 <= j < i ==> (kinds@[j]@, targets@[j]@) == row_of(#[trigger] references@[j]),
        decreases references.items@.len() - i,
    {
        match &references.items[i] {
            Reference::Group(id) => {
                kinds.push("group");
                targets.push(id.text());
            },
            Reference::Device(id) => {
                kinds.push("device");
                targets.push(id.clone());
            },
        }
        assert((kinds@[i as int]@, targets@[i as int]@) == row_of(references@[i as int]));
        i += 1;
    }
    (kinds, targets)
}

/// Whether `plan` carries out a change of a scope that names `references`.
pub open spec fn plans(
    plan: ScopePlan,
    id: Id,
    op: Operation<ScopeChange>,
    references: Seq<ReferenceView>,
) -> bool {
    &&& plan.write == (match op.input {
        ScopeChange::Put { .. } => if op.expected_revision == 0 {
            ScopeWrite::Insert
        } else {
            ScopeWrite::Replace
        },
        ScopeChange::Delete => ScopeWrite::Delete,
    })
    &&& plan.revision == op.expected_revision + 1
    &&& lists_rows(plan.kinds@, plan.targets@, references)
    &&& plan.reference@ == "scope-definition."@ + text_of(id.value)
    &&& plan.resolve == (op.input is Put)
}

/// Whether a scope names `reference` once it is changed: nothing once it is
/// deleted.
pub open spec fn is_named(change: ScopeChange, reference: ReferenceView) -> bool {
    change matches ScopeChange::Put { definition } && definition.names(reference)
}

/// Whether `references` is what a change makes a scope name, each once and in
/// order.
pub open spec fn names(change: ScopeChange, references: OrderedSet<Reference>) -> bool {
    &&& references.well_formed()
    &&& forall|reference: ReferenceView| #[trigger]
        references@.contains(reference) <==> is_named(change, reference)
}

/// How a change of a scope is carried out.
pub fn scope_change(id: Id, op: &Operation<ScopeChange>) -> (plan: Result<ScopePlan, Error>)
    requires
        op.input matches ScopeChange::Put { definition } ==> definition.well_formed(),
    ensures
        exists|references: OrderedSet<Reference>|
            #![trigger references.well_formed()]
            names(op.input, references) && match plan {
                Ok(plan) => change_refusal(id, *op, references@.len() as int) is None && plans(
                    plan,
                    id,
                    *op,
                    references@,
                ),
                Err(error) => change_refusal(id, *op, references@.len() as int) == Some(error),
            },
{
    let references = match &op.input {
        ScopeChange::Put { definition } => definition.references(),
        ScopeChange::Delete => OrderedSet::new(),
    };
    assert(names(op.input, references));
    if id.is_nil() {
        return Err(Error::Malformed);
    }
    if op.expected_revision >= i64::MAX as u64 {
        return Err(Error::Conflict);
    }
    let write = match &op.input {
        ScopeChange::Put { .. } => {
            if references.items.len() > SCOPE_REFERENCES {
                return Err(Error::Malformed);
            }
            if op.expected_revision == 0 {
                ScopeWrite::Insert
            } else {
                ScopeWrite::Replace
            }
        },
        ScopeChange::Delete => ScopeWrite::Delete,
    };
    let (kinds, targets) = rows(&references);
    let text = id.text();
    let resolve = match &op.input {
        ScopeChange::Put { .. } => true,
        ScopeChange::Delete => false,
    };
    Ok(
        ScopePlan {
            write,
            revision: op.expected_revision + 1,
            kinds,
            targets,
            reference: join("scope-definition.", text.as_str()),
            resolve,
        },
    )
}

/// A scope that has to be there: its revision and its definition.
pub fn scope_definition<T>(row: Option<(u64, T)>) -> (found: Result<(u64, T), Error>)
    ensures
        found == (match row {
            Some(row) => Ok::<(u64, T), Error>(row),
            None => Err(Error::ManagementNotFound(Missing::Scope)),
        }),
{
    match row {
        Some(row) => Ok(row),
        None => Err(Error::ManagementNotFound(Missing::Scope)),
    }
}

/// What was found of something that a scope names: a group, as the group store
/// answers for it, or a device with so many active registrations.
#[derive(Clone, Copy, Debug)]
pub enum ReferenceFinding {
    Group(Result<(), GroupRejection>),
    Device { registrations: usize },
}

/// What a scope is refused with for something that it names.
pub open spec fn finding_refusal(finding: ReferenceFinding) -> Option<Error> {
    match finding {
        ReferenceFinding::Group(Err(rejection)) => Some(group_refusal(rejection)),
        ReferenceFinding::Group(Ok(_)) => None,
        ReferenceFinding::Device { registrations } => if registrations == 0 {
            Some(Error::ManagementNotFound(Missing::Device))
        } else {
            None
        },
    }
}

/// Accepts what a scope names: few enough things, each of which is there. The
/// first that is not decides.
pub fn validate_scope_references(findings: &Vec<ReferenceFinding>) -> (valid: Result<(), Error>)
    ensures
        match valid {
            Ok(_) => findings@.len() <= SCOPE_REFERENCES && forall|i: int|
                0 <= i < findings@.len() ==> finding_refusal(#[trigger] findings@[i]) is None,
            Err(error) => if findings@.len() > SCOPE_REFERENCES {
                error == Error::Malformed
            } else {
                exists|i: int|
                    0 <= i < findings@.len() && finding_refusal(#[trigger] findings@[i]) == Some(
                        error,
                    ) && forall|j: int|
                        0 <= j < i ==> finding_refusal(#[trigger] findings@[j]) is None
            },
        },
{
    if findings.len() > SCOPE_REFERENCES {
        return Err(Error::Malformed);
    }
    let mut i: usize = 0;
    while i < findings.len()
        invariant
            i <= findings@.len(),
            findings@.len() <= SCOPE_REFERENCES,
            forall|j: int| 0 <= j < i ==> finding_refusal(#[trigger] findings@[j]) is None,
        decreases findings@.len() - i,
    {
        match findings[i] {
            ReferenceFinding::Group(answer) => {
                if let Err(error) = group_checked(answer) {
                    assert(finding_refusal(findings@[i as int]) == Some(error));
                    return Err(error);
                }
            },
            ReferenceFinding::Device { registrations } => {
                if registrations == 0 {
                    assert(finding_refusal(findings@[i as int]) == Some(
                        Error::ManagementNotFound(Missing::Device),
                    ));
                    return Err(Error::ManagementNotFound(Missing::Device));
                }
            },
        }
        i += 1;
    }
    Ok(())
}

/// Refuses to delete a scope at another revision than it is at.
pub fn admit_deletion(current: u64, expected: u64) -> (admitted: Result<(), Error>)
    ensures
        admitted is Ok <==> current == expected,
        admitted is Err ==> admitted == Err::<(), Error>(Error::Conflict),
{
    if current != expected {
        Err(Error::Conflict)
    } else {
        Ok(())
    }
}

/// Accepts a write that changed the scope it was meant for.
pub fn admit_changed(rows: u64) -> (admitted: Result<(), Error>)
    ensures
        admitted is Ok <==> rows == 1,
        admitted is Err ==> admitted == Err::<(), Error>(Error::Conflict),
{
    if rows != 1 {
        Err(Error::Conflict)
    } else {
        Ok(())
    }
}

/// What a scope names is stored the same way however the change was written
/// down: two changes that name the same devices and groups plan the same rows.
pub proof fn rows_depend_on_what_is_named(
    one: OrderedSet<Reference>,
    two: OrderedSet<Reference>,
    a: ScopeChange,
    b: ScopeChange,
)
    requires
        names(a, one),
        names(b, two),
        forall|reference: ReferenceView| #[trigger]
            is_named(a, reference) <==> is_named(b, reference),
    ensures
        one@ == two@,
{
    assert forall|reference: ReferenceView| #[trigger]
        one@.contains(reference) <==> two@.contains(reference) by {
        assert(is_named(a, reference) <==> is_named(b, reference));
    }
    crate::set::membership_determines_order::<Reference>(one@, two@);
}

/// A change of a scope is carried out as it was asked for: it is deleted exactly where the
/// change deletes it, new exactly where no revision is expected of it, and replaced
/// otherwise; it comes to the next revision; and it is resolved anew exactly where it
/// is still there.
pub proof fn changes_are_carried_out_as_asked(
    plan: ScopePlan,
    id: Id,
    op: Operation<ScopeChange>,
    references: Seq<ReferenceView>,
)
    requires
        plans(plan, id, op, references),
    ensures
        plan.write == ScopeWrite::Delete <==> op.input is Delete,
        plan.write == ScopeWrite::Insert <==> op.input is Put && op.expected_revision == 0,
        plan.write == ScopeWrite::Replace <==> op.input is Put && op.expected_revision > 0,
        plan.revision == op.expected_revision + 1,
        plan.resolve <==> op.input is Put,
        plan.kinds@.len() == references.len() && plan.targets@.len() == references.len(),
{
}

/// What a scope names is told from what it is stored as: a device by its name and a group
/// by its identifier, and no two things alike.
pub proof fn rows_tell_references_apart(one: ReferenceView, two: ReferenceView)
    ensures
        row_of(one) == row_of(two) <==> one == two,
        row_of(one).0 == "group"@ <==> one is Group,
        row_of(one).0 == "device"@ <==> one is Device,
        one matches ReferenceView::Device(device) ==> row_of(one).1 == device,
        one matches ReferenceView::Group(group) ==> row_of(one).1 == text_of(group),
{
    reveal_strlit("group");
    reveal_strlit("device");
    assert("group"@.len() == 5 && "device"@.len() == 6);
    if let (ReferenceView::Group(a), ReferenceView::Group(b)) = (one, two) {
        text_denotes_its_identifier(a);
        text_denotes_its_identifier(b);
    }
}

/// A change of a scope is refused only for what is wrong with it: a scope without an
/// identifier, a revision that cannot be stored, and a definition that names too
/// much.
pub proof fn changes_are_refused_for_what_is_wrong_with_them(
    id: Id,
    op: Operation<ScopeChange>,
    named: int,
)
    ensures
        change_refusal(id, op, named) is None <==> id.value != 0 && op.expected_revision < i64::MAX
            && (op.input is Put ==> named <= SCOPE_REFERENCES),
        id.value != 0 ==> (change_refusal(id, op, named) == Some(Error::Conflict)
            <==> op.expected_revision >= i64::MAX),
        id.value == 0 ==> change_refusal(id, op, named) == Some(Error::Malformed),
{
}

/// Nothing that a scope names may be missing: a device has to be registered, and a group
/// has to be there; what is missing is named.
pub proof fn scopes_name_what_is_there(finding: ReferenceFinding)
    ensures
        finding matches ReferenceFinding::Device { registrations } ==> {
            &&& finding_refusal(finding) is None <==> registrations > 0
            &&& registrations == 0 ==> finding_refusal(finding) == Some(
                Error::ManagementNotFound(Missing::Device),
            )
        },
        finding matches ReferenceFinding::Group(answer) ==> {
            &&& finding_refusal(finding) is None <==> answer is Ok
            &&& answer matches Err(rejection) ==> finding_refusal(finding) == Some(
                group_refusal(rejection),
            )
        },
{
}

/// A scope names everything that its targets, its limitations and its exclusions name,
/// and nothing else; once it is deleted, nothing.
pub proof fn scopes_name_targets_limitations_and_exclusions(
    change: ScopeChange,
    reference: ReferenceView,
)
    ensures
        change is Delete ==> !is_named(change, reference),
        change matches ScopeChange::Put { definition } ==> (is_named(change, reference)
            <==> definition.targets@.contains(reference) || definition.exclusions@.contains(
            reference,
        ) || (definition.limitations is Some && definition.limitations->Some_0@.contains(
            reference,
        ))),
{
}

/// What a scope names is stored one by one and in order: groups as groups and devices as
/// devices, each by its own identifier or name.
pub proof fn rows_are_those_of_what_is_named(
    plan: ScopePlan,
    id: Id,
    op: Operation<ScopeChange>,
    references: Seq<ReferenceView>,
    at: int,
)
    requires
        plans(plan, id, op, references),
        0 <= at < references.len(),
    ensures
        plan.kinds@[at]@ == "group"@ <==> references[at] is Group,
        plan.kinds@[at]@ == "device"@ <==> references[at] is Device,
        references[at] matches ReferenceView::Group(group) ==> plan.targets@[at]@ == text_of(
            group,
        ),
        references[at] matches ReferenceView::Device(device) ==> plan.targets@[at]@ == device,
        plan.reference@ == "scope-definition."@ + text_of(id.value),
{
    rows_tell_references_apart(references[at], references[at]);
}

} // verus!
