//! How changes of assets are dispatched to the groups and scopes they affect.
use crate::error::{Error, Failure};
use crate::id::Id;
use crate::management::automation::groups::{GroupStart, LockedGroup};
use crate::management::automation::model::JobInput;
use crate::management::request::GroupRejection;
use crate::set::{Element, OrderedSet};
use crate::text::same;
use vstd::prelude::*;

verus! {

/// The most changes that are dispatched together.
pub const CHANGES_PER_BATCH: usize = 1000;

/// The most groups, or scopes, that are dispatched to at once.
pub const DISPATCHED_AT_ONCE: usize = 32;

/// To what the changes are dispatched: first to groups, then to the scopes that
/// name devices.
#[derive(Clone, Copy, Debug, PartialEq, Eq, Structural)]
pub enum Phase {
    Groups,
    Devices,
}

/// The name of a phase.
pub open spec fn phase_name(phase: Phase) -> Seq<char> {
    match phase {
        Phase::Groups => "groups"@,
        Phase::Devices => "devices"@,
    }
}

impl Phase {
    /// The name of the phase.
    pub fn name(self) -> (name: &'static str)
        ensures
            name@ == phase_name(self),
    {
        match self {
            Phase::Groups => "groups",
            Phase::Devices => "devices",
        }
    }

    /// The phase of a name.
    pub fn named(name: &str) -> (phase: Phase)
        ensures
            phase == if name@ == "groups"@ {
                Phase::Groups
            } else {
                Phase::Devices
            },
    {
        if same(name, "groups") {
            Phase::Groups
        } else {
            Phase::Devices
        }
    }
}

/// The name of a phase denotes it.
pub proof fn phase_reads_back(phase: Phase)
    ensures
        phase == Phase::Groups <==> phase_name(phase) == "groups"@,
{
    reveal_strlit("groups");
    reveal_strlit("devices");
    assert("groups"@.len() != "devices"@.len());
}

/// How far the changes are dispatched: those up to `consumed` altogether, those
/// up to `watermark` as far as the phase and the cursor say.
#[derive(Clone, Copy, Debug, PartialEq, Eq, Structural)]
pub struct Dispatched {
    pub consumed: i64,
    pub watermark: i64,
    pub cursor: Option<Id>,
    pub phase: Phase,
}

impl Dispatched {
    /// Whether nothing counts as dispatched that lies behind the watermark.
    pub open spec fn well_formed(self) -> bool {
        self.consumed <= self.watermark
    }
}

/// Whether there are changes to dispatch: the clock of the assets is ahead of
/// what was consumed, where either is known.
pub fn asset_work_pending(clock: Option<i64>, consumed: Option<i64>) -> (pending: bool)
    ensures
        pending == ((match clock {
            Some(revision) => revision,
            None => 0,
        }) > (match consumed {
            Some(consumed) => consumed,
            None => 0,
        })),
{
    let clock: i64 = match clock {
        Some(revision) => revision,
        None => 0,
    };
    let consumed: i64 = match consumed {
        Some(consumed) => consumed,
        None => 0,
    };
    clock > consumed
}

/// What is dispatched next: the batch that was begun, or a new one up to
/// `newest`, the last of the next changes, where there are any.
pub open spec fn batch_of(state: Dispatched, newest: i64) -> Option<Dispatched> {
    if state.watermark != state.consumed {
        Some(state)
    } else if newest == state.consumed {
        None
    } else {
        Some(
            Dispatched {
                consumed: state.consumed,
                watermark: newest,
                cursor: None,
                phase: Phase::Groups,
            },
        )
    }
}

/// What is dispatched next, where there is anything.
pub fn dispatch_assets(state: Dispatched, newest: i64) -> (batch: Option<Dispatched>)
    ensures
        batch == batch_of(state, newest),
{
    if state.watermark != state.consumed {
        return Some(state);
    }
    if newest == state.consumed {
        return None;
    }
    Some(
        Dispatched {
            consumed: state.consumed,
            watermark: newest,
            cursor: None,
            phase: Phase::Groups,
        },
    )
}

/// A change of an asset: what kind it is of, which device it is about, and which
/// fields it changes.
#[derive(Debug)]
pub struct Change {
    pub kind: String,
    pub device: String,
    pub fields: Vec<String>,
}

/// Whether a kind of change is one of who and what a device is, rather than of
/// what is known of it.
pub open spec fn is_authority(kind: Seq<char>) -> bool {
    kind == "device"@ || kind == "registration"@ || kind == "source"@ || kind == "credential"@
}

/// Whether a kind of change is one of who and what a device is.
pub fn changes_authority(kind: &str) -> (answer: bool)
    ensures
        answer == is_authority(kind@),
{
    same(kind, "device") || same(kind, "registration") || same(kind, "source") || same(
        kind,
        "credential",
    )
}

/// What some changes are about: the devices whose identity changed, the fields
/// that changed, and whether any identity did.
#[derive(Debug)]
pub struct Affected {
    pub devices: OrderedSet<String>,
    pub fields: OrderedSet<String>,
    pub authority: bool,
}

/// Whether any of the first `n` changes is of the identity of a device.
pub open spec fn identity_changed(changes: Seq<Change>, n: int, device: Seq<char>) -> bool {
    exists|i: int|
        0 <= i < n && is_authority((#[trigger] changes[i]).kind@) && changes[i].device@ == device
}

/// Whether any of the first `n` changes is of a field.
pub open spec fn field_changed(changes: Seq<Change>, n: int, field: Seq<char>) -> bool {
    exists|i: int, j: int|
        0 <= i < n && 0 <= j < changes[i].fields@.len() && #[trigger] changes[i].fields@[j]@
            == field
}

/// Whether `affected` is what the first `n` changes are about.
pub open spec fn is_affected(affected: Affected, changes: Seq<Change>, n: int) -> bool {
    &&& affected.devices.well_formed()
    &&& affected.fields.well_formed()
    &&& forall|device: Seq<char>| #[trigger]
        affected.devices@.contains(device) <==> identity_changed(changes, n, device)
    &&& forall|field: Seq<char>| #[trigger]
        affected.fields@.contains(field) <==> field_changed(changes, n, field)
    &&& affected.authority <==> exists|i: int|
        0 <= i < n && is_authority((#[trigger] changes[i]).kind@)
}

/// Adds the fields of a change to those that changed.
fn add_fields(fields: &mut OrderedSet<String>, change: &Change)
    requires
        old(fields).well_formed(),
    ensures
        final(fields).well_formed(),
        forall|field: Seq<char>| #[trigger]
            final(fields)@.contains(field) <==> old(fields)@.contains(field) || exists|j: int|
                0 <= j < change.fields@.len() && #[trigger] change.fields@[j]@ == field,
{
    let ghost before = fields@;
    let mut j: usize = 0;
    while j < change.fields.len()
        invariant
            j <= change.fields@.len(),
            fields.well_formed(),
            forall|field: Seq<char>| #[trigger]
                fields@.contains(field) <==> before.contains(field) || exists|k: int|
                    0 <= k < j && #[trigger] change.fields@[k]@ == field,
        decreases change.fields@.len() - j,
    {
        let ghost held = fields@;
        fields.insert(change.fields[j].clone());
        proof {
            let added = change.fields@[j as int]@;
            assert forall|field: Seq<char>| #[trigger]
                fields@.contains(field) <==> before.contains(field) || exists|k: int|
                    0 <= k < j + 1 && #[trigger] change.fields@[k]@ == field by {
                assert(fields@.contains(field) <==> held.contains(field) || field == added);
                if field == added {
                    assert(change.fields@[j as int]@ == field);
                }
            }
        }
        j += 1;
    }
}

/// What some changes are about. A batch holds a bounded number of changes.
pub fn affected(changes: &Vec<Change>) -> (affected: Result<Affected, Error>)
    ensures
        match affected {
            Ok(affected) => changes@.len() <= CHANGES_PER_BATCH && is_affected(
                affected,
                changes@,
                changes@.len() as int,
            ),
            Err(error) => changes@.len() > CHANGES_PER_BATCH && error == Error::Unavailable(
                Failure::ManagementStorage,
            ),
        },
{
    if changes.len() > CHANGES_PER_BATCH {
        return Err(Error::Unavailable(Failure::ManagementStorage));
    }
    let mut found = Affected {
        devices: OrderedSet::new(),
        fields: OrderedSet::new(),
        authority: false,
    };
    let mut i: usize = 0;
    while i < changes.len()
        invariant
            i <= changes@.len(),
            is_affected(found, changes@, i as int),
        decreases changes@.len() - i,
    {
        let ghost before = found;
        let change = &changes[i];
        add_fields(&mut found.fields, change);
        proof {
            assert forall|field: Seq<char>| #[trigger]
                found.fields@.contains(field) <==> field_changed(changes@, i + 1, field) by {
                assert(before.fields@.contains(field) <==> field_changed(
                    changes@,
                    i as int,
                    field,
                ));
                if field_changed(changes@, i + 1, field) && !field_changed(
                    changes@,
                    i as int,
                    field,
                ) {
                    let (a, b) = choose|a: int, b: int|
                        0 <= a < i + 1 && 0 <= b < changes@[a].fields@.len()
                            && #[trigger] changes@[a].fields@[b]@ == field;
                    assert(a == i);
                    assert(change.fields@[b]@ == field);
                }
                if exists|j: int|
                    0 <= j < change.fields@.len() && #[trigger] change.fields@[j]@ == field {
                    let b = choose|b: int|
                        0 <= b < change.fields@.len() && #[trigger] change.fields@[b]@ == field;
                    assert(changes@[i as int].fields@[b]@ == field);
                }
            }
        }
        if changes_authority(change.kind.as_str()) {
            found.authority = true;
            found.devices.insert(change.device.clone());
            assert(is_authority(changes@[i as int].kind@));
        }
        proof {
            assert forall|device: Seq<char>| #[trigger]
                found.devices@.contains(device) <==> identity_changed(
                changes@,
                i + 1,
                device,
            ) by {
                assert(before.devices@.contains(device) <==> identity_changed(
                    changes@,
                    i as int,
                    device,
                ));
                if is_authority(change.kind@) && change.device@ == device {
                    assert(is_authority(changes@[i as int].kind@));
                }
            }
        }
        i += 1;
    }
    Ok(found)
}

/// Every group that is affected, each once and in order.
pub fn merge_groups(identities: &Vec<Id>, fields: &Vec<Id>) -> (groups: OrderedSet<Id>)
    ensures
        groups.well_formed(),
        forall|id: u128| #[trigger]
            groups@.contains(id) <==> identities@.contains(Id { value: id }) || fields@.contains(
                Id { value: id },
            ),
{
    let mut groups: OrderedSet<Id> = OrderedSet::new();
    add_groups(&mut groups, identities);
    add_groups(&mut groups, fields);
    groups
}

/// Adds some groups.
fn add_groups(groups: &mut OrderedSet<Id>, more: &Vec<Id>)
    requires
        old(groups).well_formed(),
    ensures
        final(groups).well_formed(),
        forall|id: u128| #[trigger]
            final(groups)@.contains(id) <==> old(groups)@.contains(id) || more@.contains(
                Id { value: id },
            ),
{
    let ghost before = groups@;
    let mut i: usize = 0;
    while i < more.len()
        invariant
            i <= more@.len(),
            groups.well_formed(),
            forall|id: u128| #[trigger]
                groups@.contains(id) <==> before.contains(id) || more@.take(i as int).contains(
                    Id { value: id },
                ),
        decreases more@.len() - i,
    {
        let ghost held = groups@;
        groups.insert(more[i]);
        proof {
            let shown = more@.take(i as int);
            let added = more@[i as int];
            assert(more@.take(i + 1) =~= shown.push(added));
            assert forall|id: u128| #[trigger]
                groups@.contains(id) <==> before.contains(id) || more@.take(i + 1).contains(
                Id { value: id },
            ) by {
                assert(groups@.contains(id) <==> held.contains(id) || id == added.value);
                let one = Id { value: id };
                if shown.contains(one) {
                    let k = shown.index_of(one);
                    assert(more@.take(i + 1)[k] == one);
                }
                if id == added.value {
                    assert(more@.take(i + 1)[i as int] == one);
                }
                if more@.take(i + 1).contains(one) && id != added.value {
                    let k = more@.take(i + 1).index_of(one);
                    assert(shown[k] == one);
                }
            }
        }
        i += 1;
    }
    assert(more@.take(i as int) =~= more@);
}

/// How far the changes are dispatched once the first of some groups were
/// dispatched to: those behind them are next, or else the scopes.
pub open spec fn after_groups(state: Dispatched, groups: Seq<u128>) -> Dispatched {
    if groups.len() > DISPATCHED_AT_ONCE {
        Dispatched {
            cursor: Some(Id { value: groups[DISPATCHED_AT_ONCE - 1] }),
            phase: Phase::Groups,
            ..state
        }
    } else {
        Dispatched { cursor: None, phase: Phase::Devices, ..state }
    }
}

/// The groups that are dispatched to now, and how far the changes are dispatched
/// then. `groups` are the next that are affected, one more than are dispatched to
/// at once where there are as many.
pub fn dispatch_groups(state: Dispatched, groups: &OrderedSet<Id>) -> (step: (Vec<Id>, Dispatched))
    ensures
        step.0@ == (if groups.items@.len() > DISPATCHED_AT_ONCE {
            groups.items@.take(DISPATCHED_AT_ONCE as int)
        } else {
            groups.items@
        }),
        step.1 == after_groups(state, groups@),
{
    let mut now: Vec<Id> = Vec::new();
    let mut i: usize = 0;
    while i < groups.items.len() && i < DISPATCHED_AT_ONCE
        invariant
            i <= groups.items@.len(),
            i <= DISPATCHED_AT_ONCE,
            now@ == groups.items@.take(i as int),
        decreases groups.items@.len() - i,
    {
        now.push(groups.items[i]);
        assert(groups.items@.take(i + 1) =~= groups.items@.take(i as int).push(
            groups.items@[i as int],
        ));
        i += 1;
    }
    let mut next = state;
    if groups.items.len() > DISPATCHED_AT_ONCE {
        let last = groups.items[DISPATCHED_AT_ONCE - 1];
        assert(groups@[DISPATCHED_AT_ONCE - 1] == last.value);
        next.cursor = Some(last);
        next.phase = Phase::Groups;
    } else {
        assert(groups.items@.take(i as int) =~= groups.items@);
        next.cursor = None;
        next.phase = Phase::Devices;
    }
    (now, next)
}

/// How far the changes are dispatched once the first of some scopes were
/// dispatched to: those behind them are next, or else the batch is consumed.
pub open spec fn after_devices(state: Dispatched, scopes: Seq<Id>) -> Dispatched {
    if scopes.len() > DISPATCHED_AT_ONCE {
        Dispatched {
            cursor: Some(scopes[DISPATCHED_AT_ONCE - 1]),
            phase: Phase::Devices,
            ..state
        }
    } else {
        Dispatched {
            consumed: state.watermark,
            watermark: state.watermark,
            cursor: None,
            phase: Phase::Groups,
        }
    }
}

/// Whether `jobs` resolve some scopes, in order.
pub open spec fn resolves(jobs: Seq<JobInput>, scopes: Seq<Id>) -> bool {
    &&& jobs.len() == scopes.len()
    &&& forall|i: int|
        0 <= i < jobs.len() ==> #[trigger] jobs[i] == (JobInput::Scope { scope: scopes[i] })
}

/// The scopes that are resolved now, and how far the changes are dispatched then.
/// `scopes` are the next that name a changed device, one more than are dispatched
/// to at once where there are as many.
pub fn dispatch_devices(state: Dispatched, scopes: &Vec<Id>) -> (step: (Vec<JobInput>, Dispatched))
    ensures
        resolves(
            step.0@,
            if scopes@.len() > DISPATCHED_AT_ONCE {
                scopes@.take(DISPATCHED_AT_ONCE as int)
            } else {
                scopes@
            },
        ),
        step.1 == after_devices(state, scopes@),
{
    let mut jobs: Vec<JobInput> = Vec::new();
    let mut i: usize = 0;
    while i < scopes.len() && i < DISPATCHED_AT_ONCE
        invariant
            i <= scopes@.len(),
            i <= DISPATCHED_AT_ONCE,
            jobs@.len() == i,
            forall|j: int|
                0 <= j < i ==> #[trigger] jobs@[j] == (JobInput::Scope { scope: scopes@[j] }),
        decreases scopes@.len() - i,
    {
        jobs.push(JobInput::Scope { scope: scopes[i] });
        i += 1;
    }
    let mut next = state;
    if scopes.len() > DISPATCHED_AT_ONCE {
        next.cursor = Some(scopes[DISPATCHED_AT_ONCE - 1]);
        next.phase = Phase::Devices;
    } else {
        next.consumed = state.watermark;
        next.cursor = None;
        next.phase = Phase::Groups;
    }
    (jobs, next)
}

/// Changes count as consumed only once they were dispatched to every group and
/// every scope, and what was dispatched stays so: no step takes anything back, a
/// batch keeps its watermark until it is consumed, and nothing behind the
/// watermark is consumed.
pub proof fn batches_are_consumed_whole(
    state: Dispatched,
    newest: i64,
    groups: Seq<u128>,
    scopes: Seq<Id>,
)
    requires
        state.well_formed(),
        newest >= state.consumed,
    ensures
        batch_of(state, newest) matches Some(batch) ==> {
            &&& batch.well_formed()
            &&& batch.consumed == state.consumed < batch.watermark
            &&& state.watermark <= batch.watermark
        },
        after_groups(state, groups).well_formed(),
        after_groups(state, groups).consumed == state.consumed,
        after_groups(state, groups).watermark == state.watermark,
        after_devices(state, scopes).well_formed(),
        after_devices(state, scopes).watermark == state.watermark,
        after_devices(state, scopes).consumed >= state.consumed,
        scopes.len() > DISPATCHED_AT_ONCE ==> after_devices(state, scopes).consumed
            == state.consumed,
        scopes.len() <= DISPATCHED_AT_ONCE ==> after_devices(state, scopes).consumed
            == state.watermark,
{
}

/// No group is passed over: of the groups that are affected, each is dispatched
/// to now or lies behind the cursor.
pub proof fn no_group_is_passed_over(state: Dispatched, groups: OrderedSet<Id>, at: int)
    requires
        groups.well_formed(),
        0 <= at < groups@.len(),
    ensures
        at < DISPATCHED_AT_ONCE || (after_groups(state, groups@).cursor matches Some(cursor)
            && cursor.value < groups@[at] && after_groups(state, groups@).phase == Phase::Groups),
{
    if at >= DISPATCHED_AT_ONCE {
        assert(Id::key_before(groups@[DISPATCHED_AT_ONCE - 1], groups@[at]));
    }
}

/// The job that computes an affected group anew, where one is needed: not where
/// the group is gone, what is published covers the changes already, or a job is
/// under way. `task` and `at` are the new job's.
pub fn dispatch_group(
    group: Id,
    lock: Result<LockedGroup, GroupRejection>,
    covered: bool,
    pending: bool,
    task: Id,
    at: i64,
) -> (start: Result<Option<GroupStart>, Error>)
    ensures
        match lock {
            Err(GroupRejection::NotFound) | Err(GroupRejection::Deleted) => start matches Ok(None),
            Err(_) => start == Err::<Option<GroupStart>, Error>(Error::Conflict),
            Ok(current) => if covered || pending {
                start matches Ok(None)
            } else {
                start matches Ok(Some(start)) && start.restarts(group, current, task, at)
            },
        },
{
    let current = match lock {
        Ok(current) => current,
        Err(GroupRejection::NotFound) | Err(GroupRejection::Deleted) => return Ok(None),
        Err(_) => return Err(Error::Conflict),
    };
    if covered || pending {
        return Ok(None);
    }
    Ok(Some(GroupStart::restart(group, current, task, at)))
}

/// A batch that was begun goes on as it is. A new one is begun only where there is
/// something new, reaches up to the newest change, and starts with the groups from
/// the first of them.
pub proof fn batches_begin_with_the_groups(state: Dispatched, newest: i64)
    ensures
        state.consumed != state.watermark ==> batch_of(state, newest) == Some(state),
        state.consumed == state.watermark ==> {
            &&& batch_of(state, newest) is None <==> newest == state.consumed
            &&& batch_of(state, newest) matches Some(batch) ==> {
                &&& batch.phase == Phase::Groups
                &&& batch.cursor is None
                &&& batch.watermark == newest
                &&& batch.consumed == state.consumed
            }
        },
{
}

/// The scopes are dispatched to once the groups are, from the first of them, and a
/// batch is over only once the scopes are.
pub proof fn scopes_come_after_the_groups(state: Dispatched, groups: Seq<u128>, scopes: Seq<Id>)
    ensures
        after_groups(state, groups).phase == Phase::Devices <==> groups.len()
            <= DISPATCHED_AT_ONCE,
        after_groups(state, groups).cursor is None <==> groups.len() <= DISPATCHED_AT_ONCE,
        after_devices(state, scopes).phase == Phase::Groups <==> scopes.len()
            <= DISPATCHED_AT_ONCE,
        after_devices(state, scopes).cursor is None <==> scopes.len() <= DISPATCHED_AT_ONCE,
{
}

/// No scope is passed over: of scopes that stand in order, each is resolved now or
/// lies behind the cursor.
pub proof fn no_scope_is_passed_over(state: Dispatched, scopes: Seq<Id>, at: int)
    requires
        forall|i: int, j: int|
            0 <= i < j < scopes.len() ==> (#[trigger] scopes[i]).value < (
            #[trigger] scopes[j]).value,
        0 <= at < scopes.len(),
    ensures
        at < DISPATCHED_AT_ONCE || (after_devices(state, scopes).cursor matches Some(cursor)
            && cursor.value < scopes[at].value && after_devices(state, scopes).phase
            == Phase::Devices && after_devices(state, scopes).consumed == state.consumed),
{
    if at >= DISPATCHED_AT_ONCE {
        assert(scopes[DISPATCHED_AT_ONCE - 1].value < scopes[at].value);
    }
}

/// Every change of a batch is heeded: each field that it changes is among those that
/// changed, and the device that it is about is among those whose identity changed
/// where it is of the device, its registration, a source or a credential. Nothing
/// else is.
pub proof fn every_change_is_heeded(affected: Affected, changes: Seq<Change>, at: int)
    requires
        is_affected(affected, changes, changes.len() as int),
        0 <= at < changes.len(),
    ensures
        forall|j: int|
            0 <= j < changes[at].fields@.len() ==> affected.fields@.contains(
                (#[trigger] changes[at].fields@[j])@,
            ),
        (changes[at].kind@ == "device"@ || changes[at].kind@ == "registration"@
            || changes[at].kind@ == "source"@ || changes[at].kind@ == "credential"@)
            ==> affected.authority && affected.devices@.contains(changes[at].device@),
        forall|device: Seq<char>| #[trigger]
            affected.devices@.contains(device) ==> affected.authority && exists|i: int|
                0 <= i < changes.len() && (#[trigger] changes[i]).device@ == device && (
                changes[i].kind@ == "device"@ || changes[i].kind@ == "registration"@
                    || changes[i].kind@ == "source"@ || changes[i].kind@ == "credential"@),
        forall|field: Seq<char>| #[trigger]
            affected.fields@.contains(field) ==> exists|i: int, j: int|
                0 <= i < changes.len() && 0 <= j < changes[i].fields@.len() && (
                #[trigger] changes[i].fields@[j])@ == field,
{
    let n = changes.len() as int;
    assert forall|j: int| 0 <= j < changes[at].fields@.len() implies affected.fields@.contains(
        (#[trigger] changes[at].fields@[j])@,
    ) by {
        assert(field_changed(changes, n, changes[at].fields@[j]@));
    }
    if is_authority(changes[at].kind@) {
        assert(identity_changed(changes, n, changes[at].device@));
    }
}

/// Scopes are resolved by jobs of their own, one for each and in order.
pub proof fn each_scope_is_resolved_once(jobs: Seq<JobInput>, scopes: Seq<Id>, at: int)
    requires
        resolves(jobs, scopes),
        0 <= at < scopes.len(),
    ensures
        jobs.len() == scopes.len(),
        jobs[at] matches JobInput::Scope { scope } && scope == scopes[at],
{
}

} // verus!
