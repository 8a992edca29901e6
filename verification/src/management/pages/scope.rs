//! Pages of a scope's result.
use crate::error::{Error, Failure};
use crate::id::Id;
use crate::management::automation::SourceSet;
use crate::management::pages::{continues, Cursor, ResultBinding, ResultBindingView, ScopePageKind};
use crate::management::paging::{fits, fitting};
use crate::text::same;
use vstd::prelude::*;

verus! {

/// How many bytes the rows of a page may take.
pub const PAGE_BYTES: u64 = 14_680_064;

/// How many bytes a row takes besides its explanation.
pub const ROW_BYTES: u64 = 1024;

/// Whether a device was registered when a scope was resolved.
#[derive(Clone, Copy, Debug, PartialEq, Eq, Structural)]
pub enum Identity {
    Active,
    Inactive,
}

/// Why a targeted device is not in a scope.
#[derive(Clone, Copy, Debug, PartialEq, Eq, Structural)]
pub enum Reason {
    MissingLimitationMatch,
    ExplicitExclusion,
}

/// How a scope treats one device, and which of its sources speak of it.
#[derive(Debug)]
pub struct ScopeDecision {
    pub device: String,
    pub identity: Identity,
    pub reasons: Vec<Reason>,
    pub sources: Vec<usize>,
}

/// What a page of a scope's result holds.
#[allow(inconsistent_fields)]
#[derive(Debug)]
pub enum ScopeItems {
    Members { items: Vec<String> },
    Decisions { items: Vec<ScopeDecision> },
}

/// A page of a scope's result.
#[derive(Debug)]
pub struct ScopePage {
    pub result: Id,
    pub scope: Id,
    pub current: bool,
    pub total_objects: u64,
    pub total_members: u64,
    pub sources: Vec<SourceSet>,
    pub page: ScopeItems,
    pub next: Option<Cursor>,
}

/// What is known of a scope's result.
#[derive(Debug)]
pub struct ScopeRun {
    pub phase: String,
    pub object_count: u64,
    pub member_count: u64,
    pub current: bool,
}

/// A row of a scope's result: the device and the size of its explanation.
#[derive(Debug)]
pub struct ScopeRow {
    pub device: String,
    pub bytes: u32,
}

/// Accepts a scope's result for reading: there has to be one, and it has to be
/// published.
pub fn admit_scope_run(run: Option<&ScopeRun>) -> (admitted: Result<(), Error>)
    ensures
        match admitted {
            Ok(()) => run matches Some(run) && run.phase@ == "published"@,
            Err(Error::NotFound) => run is None,
            Err(error) => error == Error::Conflict && (run matches Some(run) && run.phase@
                != "published"@),
        },
{
    match run {
        None => Err(Error::NotFound),
        Some(run) => if same(run.phase.as_str(), "published") {
            Ok(())
        } else {
            Err(Error::Conflict)
        },
    }
}

/// The bytes that a row takes on a page.
pub open spec fn row_size(row: ScopeRow, kind: ScopePageKind) -> u64 {
    match kind {
        ScopePageKind::Members => ROW_BYTES,
        ScopePageKind::Decisions => (row.bytes + ROW_BYTES) as u64,
    }
}

/// The bytes that rows take on a page.
pub open spec fn row_sizes(rows: Seq<ScopeRow>, kind: ScopePageKind) -> Seq<u64> {
    Seq::new(rows.len(), |i: int| row_size(rows[i], kind))
}

/// The devices of the leading rows that fit on a page.
pub fn devices_on_page(rows: &Vec<ScopeRow>, kind: ScopePageKind) -> (devices: Vec<String>)
    ensures
        fits(row_sizes(rows@, kind), PAGE_BYTES as int, devices@.len() as int),
        forall|i: int| 0 <= i < devices@.len() ==> #[trigger] devices@[i] == rows@[i].device,
{
    let mut sizes: Vec<u64> = Vec::new();
    let mut i: usize = 0;
    while i < rows.len()
        invariant
            i <= rows@.len(),
            sizes@ =~= row_sizes(rows@, kind).take(i as int),
        decreases rows@.len() - i,
    {
        let size: u64 = match kind {
            ScopePageKind::Members => ROW_BYTES,
            ScopePageKind::Decisions => rows[i].bytes as u64 + ROW_BYTES,
        };
        sizes.push(size);
        i += 1;
    }
    assert(sizes@ =~= row_sizes(rows@, kind));
    let count: usize = fitting(&sizes, PAGE_BYTES);
    let mut devices: Vec<String> = Vec::new();
    let mut j: usize = 0;
    while j < count
        invariant
            j <= count,
            count <= rows@.len(),
            devices@.len() == j,
            forall|i: int| 0 <= i < j ==> #[trigger] devices@[i] == rows@[i].device,
        decreases count - j,
    {
        devices.push(rows[j].device.clone());
        j += 1;
    }
    devices
}

/// Whether a stored decision is of `device` and speaks only of known sources.
pub open spec fn is_sound(decision: ScopeDecision, device: Seq<char>, sources: int) -> bool {
    &&& decision.device@ == device
    &&& forall|i: int| 0 <= i < decision.sources@.len() ==> #[trigger] decision.sources@[i] < sources
}

/// Accepts the stored decision of `device`.
pub fn admit_decision(decision: &ScopeDecision, device: &str, sources: usize) -> (admitted: Result<
    (),
    Error,
>)
    ensures
        admitted is Ok <==> is_sound(*decision, device@, sources as int),
        admitted is Err ==> admitted == Err::<(), Error>(
            Error::Unavailable(Failure::ManagementStorage),
        ),
{
    if !same(decision.device.as_str(), device) {
        return Err(Error::Unavailable(Failure::ManagementStorage));
    }
    let mut i: usize = 0;
    while i < decision.sources.len()
        invariant
            i <= decision.sources@.len(),
            forall|j: int| 0 <= j < i ==> #[trigger] decision.sources@[j] < sources,
        decreases decision.sources@.len() - i,
    {
        if decision.sources[i] >= sources {
            return Err(Error::Unavailable(Failure::ManagementStorage));
        }
        i += 1;
    }
    Ok(())
}

/// Accepts the stored decisions of a page, each with the device of its row.
pub fn admit_decisions(rows: Vec<(String, ScopeDecision)>, sources: usize) -> (admitted: Result<
    Vec<ScopeDecision>,
    Error,
>)
    ensures
        match admitted {
            Ok(items) => {
                &&& items@.len() == rows@.len()
                &&& forall|i: int|
                    0 <= i < rows@.len() ==> #[trigger] items@[i] == rows@[i].1 && is_sound(
                        rows@[i].1,
                        rows@[i].0@,
                        sources as int,
                    )
            },
            Err(error) => {
                &&& error == Error::Unavailable(Failure::ManagementStorage)
                &&& exists|i: int|
                    0 <= i < rows@.len() && !is_sound(
                        (#[trigger] rows@[i]).1,
                        rows@[i].0@,
                        sources as int,
                    )
            },
        },
{
    let ghost all = rows@;
    let mut items: Vec<ScopeDecision> = Vec::new();
    for row in it: rows
        invariant
            it.seq() == all,
            items@.len() == it.index(),
            forall|j: int|
                0 <= j < it.index() ==> #[trigger] items@[j] == all[j].1 && is_sound(
                    all[j].1,
                    all[j].0@,
                    sources as int,
                ),
    {
        let ghost n = it.index();
        assert(row == all[n]);
        let (device, decision) = row;
        if let Err(error) = admit_decision(&decision, device.as_str(), sources) {
            assert(!is_sound(all[n].1, all[n].0@, sources as int));
            return Err(error);
        }
        items.push(decision);
    }
    Ok(items)
}

/// Where reading goes on behind the devices of a page: behind the last one.
pub open spec fn scope_after(devices: Seq<String>) -> Option<Seq<char>> {
    if devices.len() > 0 {
        Some(devices.last()@)
    } else {
        None
    }
}

/// The cursor behind the devices of a page.
pub fn scope_cursor(
    tenant: &str,
    result: Id,
    scope: Id,
    kind: ScopePageKind,
    devices: &Vec<String>,
) -> (next: Option<Cursor>)
    ensures
        continues(
            next,
            tenant@,
            result,
            ResultBindingView::Scope { scope, kind },
            scope_after(devices@),
        ),
{
    if devices.len() == 0 {
        return None;
    }
    Some(
        Cursor {
            tenant: tenant.to_owned(),
            result,
            binding: ResultBinding::Scope { scope, kind },
            after: devices[devices.len() - 1].clone(),
        },
    )
}

/// The projection that rows belong to.
pub open spec fn scope_kind_of(items: ScopeItems) -> ScopePageKind {
    match items {
        ScopeItems::Members { .. } => ScopePageKind::Members,
        ScopeItems::Decisions { .. } => ScopePageKind::Decisions,
    }
}

/// The page that rows of a scope's result make. `devices` are the devices of the
/// rows.
pub fn scope_page(
    tenant: &str,
    result: Id,
    scope: Id,
    run: &ScopeRun,
    sources: Vec<SourceSet>,
    devices: &Vec<String>,
    items: ScopeItems,
) -> (page: ScopePage)
    ensures
        page.result == result,
        page.scope == scope,
        page.current == run.current,
        page.total_objects == run.object_count,
        page.total_members == run.member_count,
        page.sources == sources,
        page.page == items,
        continues(
            page.next,
            tenant@,
            result,
            ResultBindingView::Scope { scope, kind: scope_kind_of(items) },
            scope_after(devices@),
        ),
{
    let kind = match &items {
        ScopeItems::Members { .. } => ScopePageKind::Members,
        ScopeItems::Decisions { .. } => ScopePageKind::Decisions,
    };
    ScopePage {
        result,
        scope,
        current: run.current,
        total_objects: run.object_count,
        total_members: run.member_count,
        sources,
        page: items,
        next: scope_cursor(tenant, result, scope, kind, devices),
    }
}

/// Reading goes on behind the last device of a page, and nowhere behind a page without
/// devices; a page is of the projection that its rows are of, and a row takes its
/// explanation where that is shown, and a little more.
pub proof fn scope_pages_go_on_behind_their_last_device(
    devices: Seq<String>,
    items: ScopeItems,
    row: ScopeRow,
)
    ensures
        scope_after(devices) is None <==> devices.len() == 0,
        devices.len() > 0 ==> scope_after(devices) == Some(devices[devices.len() - 1]@),
        scope_kind_of(items) == ScopePageKind::Members <==> items is Members,
        scope_kind_of(items) == ScopePageKind::Decisions <==> items is Decisions,
        row_size(row, ScopePageKind::Members) == ROW_BYTES,
        row_size(row, ScopePageKind::Decisions) == row.bytes + ROW_BYTES,
{
}

/// A decision is accepted only for its own device, and only where every source that it
/// speaks of is one of the scope's.
pub proof fn decisions_speak_of_their_own_device(
    decision: ScopeDecision,
    device: Seq<char>,
    sources: int,
    at: int,
)
    requires
        0 <= at < decision.sources@.len(),
    ensures
        is_sound(decision, device, sources) ==> device == decision.device@ && decision.sources@[at]
            < sources,
        device != decision.device@ ==> !is_sound(decision, device, sources),
        decision.sources@[at] >= sources ==> !is_sound(decision, device, sources),
{
}

/// The rows of a page take what each of them takes.
pub proof fn rows_take_their_own_size(rows: Seq<ScopeRow>, kind: ScopePageKind, at: int)
    requires
        0 <= at < rows.len(),
    ensures
        row_sizes(rows, kind).len() == rows.len(),
        kind == ScopePageKind::Members ==> row_sizes(rows, kind)[at] == ROW_BYTES,
        kind == ScopePageKind::Decisions ==> row_sizes(rows, kind)[at] == rows[at].bytes
            + ROW_BYTES,
{
}

} // verus!
