//! Pages of immutable results. Each request passes the normal authorization
//! gate; a cursor only says where the reading goes on.
use crate::error::Error;
use crate::id::Id;
use crate::management::cursor::{is_seal, sealed_payload_reads_back, unseals, TOKEN_BYTES};
use crate::management::request::{group_checked, group_refusal, GroupRejection};
use crate::text::same;
use vstd::prelude::*;
use vstd::utf8::encode_utf8;

pub mod policy;
pub mod scope;

verus! {

/// Which projection of a group's result is read.
#[derive(Clone, Copy, Debug, PartialEq, Eq, Structural)]
pub enum GroupPageKind {
    Members,
    Changes,
    Decisions,
}

/// Which projection of a scope's result is read.
#[derive(Clone, Copy, Debug, PartialEq, Eq, Structural)]
pub enum ScopePageKind {
    Members,
    Decisions,
}

/// Which projection of a policy's result is read.
#[derive(Clone, Copy, Debug, PartialEq, Eq, Structural)]
pub enum PolicyPageKind {
    Targets,
    Add,
    Supersede,
    Retain,
    Cancel,
    Predecessors,
}

/// A request for a page.
#[derive(Debug)]
pub struct PageQuery {
    pub limit: usize,
    pub cursor: Option<String>,
}

/// The page length where a request names none.
pub fn default_limit() -> (limit: usize)
    ensures
        limit == 1000,
{
    1000
}

/// The owner and the projection of a result.
#[allow(inconsistent_fields)]
#[derive(Debug)]
pub enum ResultBinding {
    Group { group: Id, kind: GroupPageKind },
    Scope { scope: Id, kind: ScopePageKind },
    Policy { policy: String, kind: PolicyPageKind },
}

/// A binding with its text as a sequence of characters.
#[allow(inconsistent_fields)]
pub enum ResultBindingView {
    Group { group: Id, kind: GroupPageKind },
    Scope { scope: Id, kind: ScopePageKind },
    Policy { policy: Seq<char>, kind: PolicyPageKind },
}

impl View for ResultBinding {
    type V = ResultBindingView;

    open spec fn view(&self) -> ResultBindingView {
        match *self {
            ResultBinding::Group { group, kind } => ResultBindingView::Group { group, kind },
            ResultBinding::Scope { scope, kind } => ResultBindingView::Scope { scope, kind },
            ResultBinding::Policy { policy, kind } => ResultBindingView::Policy {
                policy: policy@,
                kind,
            },
        }
    }
}

impl ResultBinding {
    /// Whether two bindings name the same owner and projection.
    pub fn matches(&self, other: &ResultBinding) -> (answer: bool)
        ensures
            answer == (self@ == other@),
    {
        match (self, other) {
            (
                ResultBinding::Group { group: a, kind: k },
                ResultBinding::Group { group: b, kind: l },
            ) => *a == *b && *k == *l,
            (
                ResultBinding::Scope { scope: a, kind: k },
                ResultBinding::Scope { scope: b, kind: l },
            ) => *a == *b && *k == *l,
            (
                ResultBinding::Policy { policy: a, kind: k },
                ResultBinding::Policy { policy: b, kind: l },
            ) => *k == *l && same(a.as_str(), b.as_str()),
            _ => false,
        }
    }
}

/// Where the reading of a result goes on.
#[derive(Debug)]
pub struct Cursor {
    pub tenant: String,
    pub result: Id,
    pub binding: ResultBinding,
    pub after: String,
}

/// Whether a cursor was handed out for this tenant, result, owner and projection.
pub open spec fn is_bound(
    cursor: Cursor,
    tenant: Seq<char>,
    result: Id,
    binding: ResultBindingView,
) -> bool {
    cursor.tenant@ == tenant && cursor.result == result && cursor.binding@ == binding
}

/// Where a cursor says that reading goes on, where it was handed out for the result
/// that is asked for; any other conflicts.
pub open spec fn accepted_at(
    cursor: Option<Cursor>,
    tenant: Seq<char>,
    result: Id,
    binding: ResultBindingView,
) -> Result<String, Error> {
    match cursor {
        Some(cursor) => if is_bound(cursor, tenant, result, binding) {
            Ok(cursor.after)
        } else {
            Err(Error::Conflict)
        },
        None => Err(Error::Conflict),
    }
}

/// Accepts the cursor that a sealed payload was read as, where it was read as
/// one, for the result that is asked for.
pub fn accept(
    cursor: Option<Cursor>,
    tenant: &str,
    result: Id,
    binding: &ResultBinding,
) -> (accepted: Result<String, Error>)
    ensures
        accepted == accepted_at(cursor, tenant@, result, binding@),
{
    match cursor {
        Some(cursor) => if same(cursor.tenant.as_str(), tenant) && cursor.result == result
            && cursor.binding.matches(binding) {
            Ok(cursor.after)
        } else {
            Err(Error::Conflict)
        },
        None => Err(Error::Conflict),
    }
}

/// Whether an optional cursor goes on behind `after`, and nowhere where there is
/// no `after`.
pub open spec fn continues(
    next: Option<Cursor>,
    tenant: Seq<char>,
    result: Id,
    binding: ResultBindingView,
    after: Option<Seq<char>>,
) -> bool {
    match after {
        Some(after) => next matches Some(cursor) && is_bound(cursor, tenant, result, binding)
            && cursor.after@ == after,
        None => next is None,
    }
}

/// A cursor that was handed out is accepted for exactly what it was handed out
/// for, and reading then goes on where it was meant to.
pub proof fn cursor_is_accepted_where_it_was_issued(
    cursor: Cursor,
    tenant: Seq<char>,
    result: Id,
    binding: ResultBindingView,
    after: Seq<char>,
    other_tenant: Seq<char>,
    other_result: Id,
    other_binding: ResultBindingView,
)
    requires
        continues(Some(cursor), tenant, result, binding, Some(after)),
    ensures
        is_bound(cursor, tenant, result, binding),
        cursor.after@ == after,
        is_bound(cursor, other_tenant, other_result, other_binding) <==> tenant == other_tenant
            && result == other_result && binding == other_binding,
{
}

/// The token of a cursor is read back as the cursor that it was made of, and then
/// accepted exactly for the tenant, result, owner and projection that it was handed
/// out for: anywhere else it conflicts. `payload` is the cursor as it was written,
/// `read` what the unsealed payload was read as.
pub proof fn token_is_accepted_where_it_was_issued(
    secret: Seq<u8>,
    cursor: Cursor,
    payload: Seq<u8>,
    token: Seq<char>,
    unsealed: Result<Seq<u8>, Error>,
    read: Option<Cursor>,
    tenant: Seq<char>,
    result: Id,
    binding: ResultBindingView,
)
    requires
        is_seal(secret, payload, token),
        payload.len() > 0,
        encode_utf8(token).len() <= TOKEN_BYTES,
        unseals(secret, token, unsealed),
        unsealed == Ok::<Seq<u8>, Error>(payload) ==> read == Some(cursor),
    ensures
        unsealed == Ok::<Seq<u8>, Error>(payload),
        accepted_at(read, tenant, result, binding) == (if cursor.tenant@ == tenant && cursor.result
            == result && cursor.binding@ == binding {
            Ok::<String, Error>(cursor.after)
        } else {
            Err(Error::Conflict)
        }),
{
    sealed_payload_reads_back(secret, payload, token, unsealed);
}

/// What is known of a group's result.
#[derive(Debug)]
pub struct GroupBuild {
    pub group: Id,
    pub ready: bool,
    pub objects: usize,
    pub members: usize,
}

/// Accepts a group's result for reading by the owner of `group`.
pub fn admit_group_build(build: &GroupBuild, group: Id) -> (admitted: Result<(), Error>)
    ensures
        match admitted {
            Ok(()) => build.group == group && build.ready,
            Err(Error::NotFound) => build.group != group,
            Err(error) => error == Error::Conflict && build.group == group && !build.ready,
        },
{
    if build.group != group {
        return Err(Error::NotFound);
    }
    if !build.ready {
        return Err(Error::Conflict);
    }
    Ok(())
}

/// Why a device is or is not a member, as it was recorded.
#[derive(Debug)]
pub struct DecisionRecord {
    pub device: String,
    pub document: String,
}

/// What a page of a group's result holds.
#[allow(inconsistent_fields)]
#[derive(Debug)]
pub enum GroupPageItems {
    Members { items: Vec<String> },
    Changes { added: Vec<String>, removed: Vec<String> },
    Decisions { items: Vec<DecisionRecord> },
}

/// A page of a group's result.
#[derive(Debug)]
pub struct GroupPage {
    pub result: Id,
    pub group: Id,
    pub current: bool,
    pub total_objects: usize,
    pub total_members: usize,
    pub page: GroupPageItems,
    pub next: Option<Cursor>,
}

/// The projection that rows belong to.
pub open spec fn kind_of(rows: GroupPageItems) -> GroupPageKind {
    match rows {
        GroupPageItems::Members { .. } => GroupPageKind::Members,
        GroupPageItems::Changes { .. } => GroupPageKind::Changes,
        GroupPageItems::Decisions { .. } => GroupPageKind::Decisions,
    }
}

/// Where reading goes on behind rows: behind the last member of a full page,
/// behind the last decision of any page, and where the changes say.
pub open spec fn group_after(
    rows: GroupPageItems,
    limit: int,
    changes_next: Option<String>,
) -> Option<Seq<char>> {
    match rows {
        GroupPageItems::Members { items } => if items@.len() == limit && limit > 0 {
            Some(items@.last()@)
        } else {
            None
        },
        GroupPageItems::Decisions { items } => if items@.len() > 0 {
            Some(items@.last().device@)
        } else {
            None
        },
        GroupPageItems::Changes { .. } => match changes_next {
            Some(after) => Some(after@),
            None => None,
        },
    }
}

/// Whether `page` is what rows of a group's result make.
pub open spec fn is_group_page(
    page: GroupPage,
    tenant: Seq<char>,
    result: Id,
    build: GroupBuild,
    current: Option<Id>,
    rows: GroupPageItems,
    limit: int,
    changes_next: Option<String>,
) -> bool {
    &&& page.result == result
    &&& page.group == build.group
    &&& page.current == (current == Some(result))
    &&& page.total_objects == build.objects
    &&& page.total_members == build.members
    &&& page.page == rows
    &&& continues(
        page.next,
        tenant,
        result,
        ResultBindingView::Group { group: build.group, kind: kind_of(rows) },
        group_after(rows, limit, changes_next),
    )
}

/// The page that rows of a group's result make. `current` is the result that
/// the group's members are taken from now, and `changes_next` is where further
/// changes begin.
pub fn group_page(
    tenant: &str,
    result: Id,
    build: &GroupBuild,
    current: Option<Id>,
    rows: GroupPageItems,
    limit: usize,
    changes_next: Option<String>,
) -> (page: GroupPage)
    ensures
        is_group_page(page, tenant@, result, *build, current, rows, limit as int, changes_next),
{
    let (kind, after) = match &rows {
        GroupPageItems::Members { items } => (
            GroupPageKind::Members,
            if items.len() == limit && limit > 0 {
                Some(items[items.len() - 1].clone())
            } else {
                None
            },
        ),
        GroupPageItems::Decisions { items } => (
            GroupPageKind::Decisions,
            if items.len() > 0 {
                Some(items[items.len() - 1].device.clone())
            } else {
                None
            },
        ),
        GroupPageItems::Changes { .. } => (GroupPageKind::Changes, changes_next),
    };
    let next = match after {
        Some(after) => Some(
            Cursor {
                tenant: tenant.to_owned(),
                result,
                binding: ResultBinding::Group { group: build.group, kind },
                after,
            },
        ),
        None => None,
    };
    let current = match current {
        Some(current) => current == result,
        None => false,
    };
    GroupPage {
        result,
        group: build.group,
        current,
        total_objects: build.objects,
        total_members: build.members,
        page: rows,
        next,
    }
}

/// The result that a group's members are taken from, where there is one: a group
/// that is not there any more has none.
pub fn current_result(found: Result<Option<Id>, GroupRejection>) -> (current: Result<
    Option<Id>,
    Error,
>)
    ensures
        current == (match found {
            Ok(result) => Ok::<Option<Id>, Error>(result),
            Err(GroupRejection::NotFound | GroupRejection::Deleted) => Ok(None),
            Err(rejection) => Err(group_refusal(rejection)),
        }),
{
    match found {
        Err(GroupRejection::NotFound | GroupRejection::Deleted) => Ok(None),
        found => group_checked(found),
    }
}

/// A finished result stays as it is, whatever becomes of its group: a page that is
/// read before the group was changed or deleted and one that is read later hold the
/// same rows and totals and go on in the same place. Only whether the result is
/// still the group's can differ, and that of a group that was deleted is not.
pub proof fn finished_results_outlive_their_group(
    before: GroupPage,
    after: GroupPage,
    tenant: Seq<char>,
    result: Id,
    build: GroupBuild,
    current: Option<Id>,
    later: Option<Id>,
    rows: GroupPageItems,
    limit: int,
    changes_next: Option<String>,
)
    requires
        is_group_page(before, tenant, result, build, current, rows, limit, changes_next),
        is_group_page(after, tenant, result, build, later, rows, limit, changes_next),
    ensures
        before.page == after.page,
        before.total_objects == after.total_objects,
        before.total_members == after.total_members,
        before.next is Some <==> after.next is Some,
        before.next matches Some(one) ==> (after.next matches Some(two) && one.after@ == two.after@
            && is_bound(two, one.tenant@, one.result, one.binding@)),
        later is None ==> !after.current,
{
}

/// Two bindings are one exactly where they are of one owner and one projection.
pub proof fn bindings_are_told_apart(one: ResultBinding, two: ResultBinding)
    ensures
        one@ == two@ <==> match (one, two) {
            (
                ResultBinding::Group { group: a, kind: k },
                ResultBinding::Group { group: b, kind: l },
            ) => a == b && k == l,
            (
                ResultBinding::Scope { scope: a, kind: k },
                ResultBinding::Scope { scope: b, kind: l },
            ) => a == b && k == l,
            (
                ResultBinding::Policy { policy: a, kind: k },
                ResultBinding::Policy { policy: b, kind: l },
            ) => a@ == b@ && k == l,
            _ => false,
        },
{
}

/// A page of a group's result is of that result and that group, tells how many objects and
/// members it has altogether, and says that it is the group's own exactly where it is.
/// Reading goes on behind the last member of a full page, behind the last decision
/// wherever there is one, and where the changes say, and always in the projection that
/// the page is of.
pub proof fn group_pages_go_on_behind_their_last_row(
    page: GroupPage,
    tenant: Seq<char>,
    result: Id,
    build: GroupBuild,
    current: Option<Id>,
    rows: GroupPageItems,
    limit: int,
    changes_next: Option<String>,
)
    requires
        is_group_page(page, tenant, result, build, current, rows, limit, changes_next),
        limit > 0,
    ensures
        page.result == result && page.group == build.group && page.page == rows,
        page.total_objects == build.objects && page.total_members == build.members,
        page.current <==> current == Some(result),
        page.next matches Some(cursor) ==> {
            &&& cursor.tenant@ == tenant && cursor.result == result
            &&& cursor.binding matches ResultBinding::Group { group, kind } && group == build.group
                && (kind == GroupPageKind::Members <==> rows is Members) && (kind
                == GroupPageKind::Changes <==> rows is Changes) && (kind
                == GroupPageKind::Decisions <==> rows is Decisions)
        },
        rows matches GroupPageItems::Members { items } ==> {
            &&& page.next is Some <==> items@.len() == limit
            &&& page.next matches Some(cursor) ==> cursor.after@ == items@[limit - 1]@
        },
        rows matches GroupPageItems::Decisions { items } ==> {
            &&& page.next is Some <==> items@.len() > 0
            &&& page.next matches Some(cursor) ==> cursor.after@ == items@[items@.len()
                - 1].device@
        },
        rows is Changes ==> {
            &&& page.next is Some <==> changes_next is Some
            &&& page.next matches Some(cursor) ==> cursor.after@ == changes_next->Some_0@
        },
{
}

} // verus!
