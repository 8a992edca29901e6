//! Authorized reads of immutable query results. What a cursor was issued for is
//! part of what it signs.
use crate::crypto::{sha256, sha256_of};
use crate::error::{Error, Failure};
use crate::id::{text_of, Id};
use crate::management::assets::model::{Facet, ReadScope};
use crate::management::cursor::{is_seal, sealed_payload_reads_back, unseals, TOKEN_BYTES};
use crate::management::paging::{admit_limit, fits, fitting, PAGE_ITEMS};
use crate::text::{join3, same};
use vstd::prelude::*;
use vstd::utf8::encode_utf8;

verus! {

/// Where the reading of a result goes on.
#[derive(Debug)]
pub enum Position {
    Items { key: Vec<u8>, device: String },
    Facet { facet: Facet, label: String },
}

/// A position in the result of a task, for the reader whose scope has a digest.
#[derive(Debug)]
pub struct Cursor {
    pub tenant: String,
    pub task: Id,
    pub scope: String,
    pub position: Position,
}

/// A query task as it is stored.
#[derive(Debug)]
pub struct QueryRun {
    pub owner: Option<ReadScope>,
    pub completed: bool,
    pub forwarded: bool,
    pub failure: Option<String>,
    pub total: u64,
    pub matched: u64,
    pub unknown: u64,
}

/// How many devices a query matched, could not decide and looked at.
#[derive(Clone, Copy, Debug, PartialEq, Eq, Structural)]
pub struct Summary {
    pub matched: u64,
    pub unknown: u64,
    pub total: u64,
}

/// What a reader is told of a query task.
#[derive(Debug)]
pub struct QueryState {
    pub summary: Summary,
    pub status: &'static str,
    pub failure: Option<String>,
    pub ready: bool,
}

/// Whether two scopes are of one subject and list the same devices.
pub open spec fn same_scope(a: ReadScope, b: ReadScope) -> bool {
    a.subject@ == b.subject@ && match (a.devices, b.devices) {
        (Some(x), Some(y)) => x@ == y@,
        (None, None) => true,
        _ => false,
    }
}

/// What a reader is refused with, where a query task cannot be shown: there is
/// none, it is stored as another kind of task, or it is another reader's.
pub open spec fn state_refusal(run: Option<QueryRun>, scope: ReadScope) -> Option<Error> {
    match run {
        None => Some(Error::NotFound),
        Some(run) => match run.owner {
            None => Some(Error::Unavailable(Failure::ManagementStorage)),
            Some(owner) => if same_scope(owner, scope) {
                None
            } else {
                Some(Error::Forbidden)
            },
        },
    }
}

/// The name of how far a task has come: a failure comes before all else.
pub open spec fn status_of(failed: bool, completed: bool, forwarded: bool) -> Seq<char> {
    if failed {
        "failed"@
    } else if completed {
        "completed"@
    } else if forwarded {
        "running"@
    } else {
        "pending"@
    }
}

/// What a reader is told of a query task.
pub fn query_state(run: Option<QueryRun>, scope: &ReadScope) -> (state: Result<QueryState, Error>)
    ensures
        match state {
            Ok(state) => {
                &&& state_refusal(run, *scope) is None
                &&& run matches Some(run) && {
                    &&& state.summary == (Summary {
                        matched: run.matched,
                        unknown: run.unknown,
                        total: run.total,
                    })
                    &&& state.status@ == status_of(
                        run.failure is Some,
                        run.completed,
                        run.forwarded,
                    )
                    &&& state.failure == run.failure
                    &&& state.ready == (run.completed && run.failure is None)
                }
            },
            Err(error) => state_refusal(run, *scope) == Some(error),
        },
{
    let run = match run {
        Some(run) => run,
        None => return Err(Error::NotFound),
    };
    match &run.owner {
        None => return Err(Error::Unavailable(Failure::ManagementStorage)),
        Some(owner) => if !owner.matches(scope) {
            return Err(Error::Forbidden);
        },
    }
    let status = if run.failure.is_some() {
        "failed"
    } else if run.completed {
        "completed"
    } else if run.forwarded {
        "running"
    } else {
        "pending"
    };
    let ready = run.completed && run.failure.is_none();
    Ok(
        QueryState {
            summary: Summary { matched: run.matched, unknown: run.unknown, total: run.total },
            status,
            failure: run.failure,
            ready,
        },
    )
}

/// A result can be read exactly where its task is shown as completed.
pub proof fn ready_means_completed(failed: bool, completed: bool, forwarded: bool)
    ensures
        (completed && !failed) <==> status_of(failed, completed, forwarded) == "completed"@,
{
    reveal_strlit("failed");
    reveal_strlit("completed");
    reveal_strlit("running");
    reveal_strlit("pending");
    assert("failed"@.len() == 6 && "completed"@.len() == 9 && "running"@.len() == 7
        && "pending"@.len() == 7);
}

/// Where the result of a ready query task is read.
pub fn result_url(task: Id, ready: bool) -> (url: Option<String>)
    ensures
        match url {
            Some(url) => ready && url@ == "/api/v2/device-queries/"@ + text_of(task.value)
                + "/items"@,
            None => !ready,
        },
{
    if ready {
        let id = task.text();
        Some(join3("/api/v2/device-queries/", id.as_str(), "/items"))
    } else {
        None
    }
}

/// Accepts a request for a page of a result.
pub fn admit_read(limit: usize, ready: bool) -> (admitted: Result<(), Error>)
    ensures
        match admitted {
            Ok(()) => 1 <= limit <= PAGE_ITEMS && ready,
            Err(Error::Malformed) => !(1 <= limit <= PAGE_ITEMS),
            Err(error) => error == Error::Conflict && 1 <= limit <= PAGE_ITEMS && !ready,
        },
{
    if let Err(error) = admit_limit(limit) {
        return Err(error);
    }
    if !ready {
        return Err(Error::Conflict);
    }
    Ok(())
}

/// Whether a cursor was issued for this tenant, task and reader.
pub open spec fn is_issued(
    cursor: Cursor,
    tenant: Seq<char>,
    task: Id,
    scope_digest: Seq<char>,
) -> bool {
    cursor.tenant@ == tenant && cursor.task == task && cursor.scope@ == scope_digest
}

/// Where a cursor says that reading goes on, where it was issued for this tenant,
/// task and reader; another one conflicts, and what is no cursor is malformed.
pub open spec fn accepted_at(
    cursor: Option<Cursor>,
    tenant: Seq<char>,
    task: Id,
    scope_digest: Seq<char>,
) -> Result<Position, Error> {
    match cursor {
        Some(cursor) => if is_issued(cursor, tenant, task, scope_digest) {
            Ok(cursor.position)
        } else {
            Err(Error::Conflict)
        },
        None => Err(Error::Malformed),
    }
}

/// The token of a cursor is read back as the cursor that it was made of, and then
/// accepted exactly for the tenant, task and reader that it was issued for: for
/// another task, or once the reader may read other devices, it conflicts.
/// `payload` is the cursor as it was written, `read` what the unsealed payload was
/// read as.
pub proof fn token_is_accepted_where_it_was_issued(
    secret: Seq<u8>,
    cursor: Cursor,
    payload: Seq<u8>,
    token: Seq<char>,
    unsealed: Result<Seq<u8>, Error>,
    read: Option<Cursor>,
    tenant: Seq<char>,
    task: Id,
    scope_digest: Seq<char>,
)
    requires
        is_seal(secret, payload, token),
        payload.len() > 0,
        encode_utf8(token).len() <= TOKEN_BYTES,
        unseals(secret, token, unsealed),
        unsealed == Ok::<Seq<u8>, Error>(payload) ==> read == Some(cursor),
    ensures
        unsealed == Ok::<Seq<u8>, Error>(payload),
        accepted_at(read, tenant, task, scope_digest) == (if cursor.tenant@ == tenant && cursor.task
            == task && cursor.scope@ == scope_digest {
            Ok::<Position, Error>(cursor.position)
        } else {
            Err(Error::Conflict)
        }),
{
    sealed_payload_reads_back(secret, payload, token, unsealed);
}

/// Accepts the cursor that a sealed payload was read as, where it was read as
/// one.
pub fn accept(
    cursor: Option<Cursor>,
    tenant: &str,
    task: Id,
    scope_digest: &str,
) -> (accepted: Result<Position, Error>)
    ensures
        accepted == accepted_at(cursor, tenant@, task, scope_digest@),
{
    match cursor {
        Some(cursor) => if same(cursor.tenant.as_str(), tenant) && cursor.task == task && same(
            cursor.scope.as_str(),
            scope_digest,
        ) {
            Ok(cursor.position)
        } else {
            Err(Error::Conflict)
        },
        None => Err(Error::Malformed),
    }
}

/// Accepts a position for reading devices.
pub fn items_position(position: Position) -> (accepted: Result<(Vec<u8>, String), Error>)
    ensures
        match accepted {
            Ok((key, device)) => position == (Position::Items { key, device }),
            Err(error) => error == Error::Conflict && !(position is Items),
        },
{
    match position {
        Position::Items { key, device } => Ok((key, device)),
        _ => Err(Error::Conflict),
    }
}

/// Accepts a position for reading the labels of `facet`.
pub fn facet_position(position: Position, facet: Facet) -> (accepted: Result<String, Error>)
    ensures
        match accepted {
            Ok(label) => position == (Position::Facet { facet, label }),
            Err(error) => error == Error::Conflict && !(position matches Position::Facet {
                facet: bound,
                ..
            } && bound == facet),
        },
{
    match position {
        Position::Facet { facet: bound, label } if bound == facet => Ok(label),
        _ => Err(Error::Conflict),
    }
}

/// How many bytes the devices of a page may take.
pub const ITEMS_BYTES: u64 = 16_777_216;

/// How many bytes a device takes besides its document.
pub const ITEM_BYTES: u64 = 1024;

/// A row of a result: its place, its device and the size of its document.
#[derive(Debug)]
pub struct ItemRow {
    pub device: String,
    pub key: Vec<u8>,
    pub bytes: u32,
}

/// The bytes that rows take on a page.
pub open spec fn item_sizes(rows: Seq<ItemRow>) -> Seq<u64> {
    Seq::new(rows.len(), |i: int| (rows[i].bytes + ITEM_BYTES) as u64)
}

/// The leading rows that fit on a page, and the position behind the last of
/// them.
pub fn items_on_page(rows: Vec<ItemRow>) -> (page: (Vec<String>, Option<Position>))
    ensures
        fits(item_sizes(rows@), ITEMS_BYTES as int, page.0@.len() as int),
        forall|i: int| 0 <= i < page.0@.len() ==> #[trigger] page.0@[i] == rows@[i].device,
        match page.1 {
            None => page.0@.len() == 0,
            Some(position) => page.0@.len() > 0 && position == (Position::Items {
                key: rows@[page.0@.len() - 1].key,
                device: rows@[page.0@.len() - 1].device,
            }),
        },
{
    let mut sizes: Vec<u64> = Vec::new();
    let mut i: usize = 0;
    while i < rows.len()
        invariant
            i <= rows@.len(),
            sizes@ =~= item_sizes(rows@).take(i as int),
        decreases rows@.len() - i,
    {
        let size: u64 = rows[i].bytes as u64 + ITEM_BYTES;
        sizes.push(size);
        i += 1;
    }
    assert(sizes@ =~= item_sizes(rows@));
    let count: usize = fitting(&sizes, ITEMS_BYTES);
    let ghost all = rows@;
    let mut devices: Vec<String> = Vec::new();
    let mut next: Option<Position> = None;
    for row in it: rows
        invariant
            it.seq() == all,
            count <= all.len(),
            devices@.len() == (if it.index() <= count { it.index() } else { count as int }),
            forall|i: int| 0 <= i < devices@.len() ==> #[trigger] devices@[i] == all[i].device,
            match next {
                None => devices@.len() == 0,
                Some(position) => devices@.len() > 0 && position == (Position::Items {
                    key: all[devices@.len() - 1].key,
                    device: all[devices@.len() - 1].device,
                }),
            },
    {
        if devices.len() < count {
            devices.push(row.device.clone());
            next = Some(Position::Items { key: row.key, device: row.device });
        }
    }
    (devices, next)
}

/// Whether a stored document is what its digest was taken of, and is of the
/// device that it is stored for.
pub open spec fn is_intact(
    document: Seq<u8>,
    digest: Seq<u8>,
    device: Seq<char>,
    stored_for: Seq<char>,
) -> bool {
    sha256_of(document) == digest && device == stored_for
}

/// Accepts a stored document that is intact.
pub fn admit_document(
    document: &Vec<u8>,
    digest: &Vec<u8>,
    device: &str,
    stored_for: &str,
) -> (admitted: Result<(), Error>)
    ensures
        admitted is Ok <==> is_intact(document@, digest@, device@, stored_for@),
        admitted is Err ==> admitted == Err::<(), Error>(
            Error::Unavailable(Failure::ManagementStorage),
        ),
{
    let found = sha256(document.as_slice());
    if digest.len() != 32 {
        return Err(Error::Unavailable(Failure::ManagementStorage));
    }
    let mut i: usize = 0;
    while i < 32
        invariant
            i <= 32,
            digest@.len() == 32,
            found@.len() == 32,
            found@ == sha256_of(document@),
            forall|j: int| 0 <= j < i ==> found@[j] == #[trigger] digest@[j],
        decreases 32 - i,
    {
        if found[i] != digest[i] {
            assert(found@[i as int] != digest@[i as int]);
            return Err(Error::Unavailable(Failure::ManagementStorage));
        }
        i += 1;
    }
    assert(found@ =~= digest@);
    if !same(device, stored_for) {
        return Err(Error::Unavailable(Failure::ManagementStorage));
    }
    Ok(())
}

/// A label of a facet and how many devices stand under it.
#[derive(Debug)]
pub struct FacetCount {
    pub label: String,
    pub total: u64,
}

/// The position behind the labels of a page: behind the last one.
pub fn facet_cursor(facet: Facet, items: &Vec<FacetCount>) -> (next: Option<Position>)
    ensures
        match next {
            None => items@.len() == 0,
            Some(position) => items@.len() > 0 && position == (Position::Facet {
                facet,
                label: items@.last().label,
            }),
        },
{
    if items.len() == 0 {
        return None;
    }
    Some(Position::Facet { facet, label: items[items.len() - 1].label.clone() })
}

/// A document that was stored with its digest is accepted when it is read back
/// for its device, and no other document with that digest in its place is
/// accepted unless it has the same digest.
pub proof fn stored_document_reads_back(
    document: Seq<u8>,
    digest: Seq<u8>,
    device: Seq<char>,
    other: Seq<u8>,
)
    requires
        digest == sha256_of(document),
    ensures
        is_intact(document, digest, device, device),
        is_intact(other, digest, device, device) ==> sha256_of(other) == sha256_of(document),
{
}

/// A query is shown to its own reader and to nobody else: one of the same subject who may
/// see the same devices. What is no query is a fault of the store.
pub proof fn queries_are_shown_to_their_own_reader(run: Option<QueryRun>, scope: ReadScope)
    ensures
        state_refusal(run, scope) is None <==> (run matches Some(run) && (run.owner matches Some(
            owner,
        ) && owner.subject@ == scope.subject@ && (owner.devices is Some <==> scope.devices is Some)
            && (owner.devices is Some ==> owner.devices->Some_0@ == scope.devices->Some_0@))),
        run is None <==> state_refusal(run, scope) == Some(Error::NotFound),
        (run matches Some(run) && run.owner is None) <==> state_refusal(run, scope) == Some(
            Error::Unavailable(Failure::ManagementStorage),
        ),
        state_refusal(run, scope) is Some && (run matches Some(run) && run.owner is Some)
            ==> state_refusal(run, scope) == Some(Error::Forbidden),
{
}

/// A query is said to have failed exactly where it did, and otherwise to be completed, running
/// or pending by whether it is completed or was at least handed on.
pub proof fn queries_are_said_to_be_what_they_are(failed: bool, completed: bool, forwarded: bool)
    ensures
        status_of(failed, completed, forwarded) == "failed"@ <==> failed,
        status_of(failed, completed, forwarded) == "running"@ <==> !failed && !completed
            && forwarded,
        status_of(failed, completed, forwarded) == "pending"@ <==> !failed && !completed
            && !forwarded,
{
    reveal_strlit("failed");
    reveal_strlit("completed");
    reveal_strlit("running");
    reveal_strlit("pending");
    assert("failed"@[0] == 'f' && "completed"@[0] == 'c');
    assert("running"@[0] == 'r' && "pending"@[0] == 'p');
}

/// A device of a page takes its own document and a little more; a document is accepted only
/// where its digest is the one that it was stored with and it is of the device that it
/// was stored for.
pub proof fn documents_are_accepted_as_stored(
    rows: Seq<ItemRow>,
    at: int,
    document: Seq<u8>,
    digest: Seq<u8>,
    device: Seq<char>,
    stored_for: Seq<char>,
)
    requires
        0 <= at < rows.len(),
    ensures
        item_sizes(rows).len() == rows.len(),
        item_sizes(rows)[at] == rows[at].bytes + ITEM_BYTES,
        is_intact(document, digest, device, stored_for) <==> digest == sha256_of(document)
            && stored_for == device,
{
}

} // verus!
