//! What is kept about assets: assignments by hand, and queries under a name.
use crate::error::Error;
use crate::id::{nil, text_of, Id};
use crate::inventory::{Evidence, KnownValue, SourceFact, State};
use crate::management::assets::criteria::Limits;
use crate::management::assets::model::{
    FieldDefinition, ManualChange, Owner, ReadScope, SavedChange, SavedDefinition,
};
use crate::management::assets::query::{is_valid, validate_query};
use crate::management::model::Operation;
use crate::set::OrderedSet;
use crate::text::join3;
use vstd::prelude::*;

verus! {

/// What is found out about an assignment: whether the device's name is one,
/// whether there is such a device, and whether the field can have the value.
#[derive(Clone, Copy, Debug, PartialEq, Eq, Structural)]
pub struct AssignmentFindings {
    pub named: bool,
    pub exists: bool,
    pub fits: bool,
}

/// What an assignment is refused with, where it is: only a field that is assigned
/// by hand can be, at a revision that can be stored, of a device that there is,
/// to a value that the field can have.
pub open spec fn assignment_refusal(
    field: FieldDefinition,
    change: Operation<ManualChange>,
    findings: AssignmentFindings,
) -> Option<Error> {
    if !field.manual || change.expected_revision >= i64::MAX || !findings.named {
        Some(Error::Malformed)
    } else if !findings.exists {
        Some(Error::NotFound)
    } else if change.input is Assign && !findings.fits {
        Some(Error::Malformed)
    } else {
        None
    }
}

/// The state that an assignment brings a field into.
pub open spec fn assigned_state(change: ManualChange) -> State {
    match change {
        ManualChange::Assign { value } => State::Known(value),
        ManualChange::Null => State::Null,
        ManualChange::Delete => State::Deleted,
    }
}

/// Whether `evidence` says that an operation assigned the field at a time, and
/// who did.
pub open spec fn is_manual(evidence: Evidence, operation: Id, owner: Owner, at: i64) -> bool {
    &&& evidence.source@ == "manual"@
    &&& evidence.registration is None
    &&& evidence.registration_generation is None
    &&& evidence.epoch is None
    &&& evidence.snapshot_id@ == text_of(operation.value)
    &&& evidence.observed_at == at
    &&& evidence.received_at == at
    &&& evidence.actor matches Some(actor) && actor@ == owner.instance@ + ":"@ + owner.principal@
}

/// Whether `fact` is what an assignment leaves of a field. The last known value
/// is the one assigned, or the one that was known before.
pub open spec fn is_assigned(
    fact: SourceFact,
    change: Operation<ManualChange>,
    owner: Owner,
    at: i64,
    before: Option<KnownValue>,
) -> bool {
    &&& fact.state == assigned_state(change.input)
    &&& is_manual(fact.evidence, change.operation_id, owner, at)
    &&& fact.last_known == (match change.input {
        ManualChange::Assign { value } => Some(KnownValue { value, evidence: fact.evidence }),
        _ => before,
    })
}

/// Assigns a field of a device by hand. `before` is the value that was last known
/// of it.
pub fn assign_asset(
    field: &FieldDefinition,
    change: &Operation<ManualChange>,
    owner: &Owner,
    at: i64,
    findings: AssignmentFindings,
    before: Option<KnownValue>,
) -> (assigned: Result<SourceFact, Error>)
    ensures
        match assigned {
            Ok(fact) => assignment_refusal(*field, *change, findings) is None && is_assigned(
                fact,
                *change,
                *owner,
                at,
                before,
            ),
            Err(error) => assignment_refusal(*field, *change, findings) == Some(error),
        },
{
    if !field.manual || change.expected_revision >= i64::MAX as u64 || !findings.named {
        return Err(Error::Malformed);
    }
    if !findings.exists {
        return Err(Error::NotFound);
    }
    let evidence = Evidence {
        source: "manual".to_owned(),
        registration: None,
        registration_generation: None,
        epoch: None,
        snapshot_id: change.operation_id.text(),
        observed_at: at,
        received_at: at,
        actor: Some(join3(owner.instance.as_str(), ":", owner.principal.as_str())),
    };
    match &change.input {
        ManualChange::Assign { value } => {
            if !findings.fits {
                return Err(Error::Malformed);
            }
            Ok(
                SourceFact {
                    state: State::Known(value.copy()),
                    last_known: Some(
                        KnownValue { value: value.copy(), evidence: evidence.copy() },
                    ),
                    evidence,
                },
            )
        },
        ManualChange::Null => Ok(SourceFact { state: State::Null, last_known: before, evidence }),
        ManualChange::Delete => Ok(
            SourceFact { state: State::Deleted, last_known: before, evidence },
        ),
    }
}

/// A field that is set to null or deleted keeps the value that was last known of
/// it, however often that is done.
pub proof fn last_known_value_survives(
    one: SourceFact,
    two: SourceFact,
    first: Operation<ManualChange>,
    second: Operation<ManualChange>,
    owner: Owner,
    at: i64,
    before: Option<KnownValue>,
)
    requires
        is_assigned(one, first, owner, at, before),
        is_assigned(two, second, owner, at, one.last_known),
        !(second.input is Assign),
    ensures
        two.last_known == one.last_known,
        !(first.input is Assign) ==> two.last_known == before,
{
}

/// The revision that a write came to. A write that found another revision than it
/// expected changed nothing.
pub fn written(revision: Option<i64>) -> (written: Result<i64, Error>)
    ensures
        written == (match revision {
            Some(revision) => Ok::<i64, Error>(revision),
            None => Err(Error::Conflict),
        }),
{
    match revision {
        Some(revision) => Ok(revision),
        None => Err(Error::Conflict),
    }
}

/// A kept query; without its definition where it was deleted.
#[derive(Debug)]
pub struct SavedView {
    pub id: Id,
    pub revision: i64,
    pub definition: Option<SavedDefinition>,
}

/// The most kept queries on a page.
pub const SAVED_PER_PAGE: usize = 100;

/// A page of kept queries, and behind which one the next page starts, where there
/// is one. `rows` are one more than a page holds, where there are as many.
pub fn saved_list(rows: Vec<SavedView>) -> (page: (Vec<SavedView>, Option<Id>))
    ensures
        rows@.len() <= SAVED_PER_PAGE ==> page.0@ == rows@ && page.1 is None,
        rows@.len() > SAVED_PER_PAGE ==> page.0@ == rows@.take(SAVED_PER_PAGE as int) && page.1
            == Some(rows@[SAVED_PER_PAGE - 1].id),
{
    let mut items = rows;
    if items.len() <= SAVED_PER_PAGE {
        return (items, None);
    }
    let next = items[SAVED_PER_PAGE - 1].id;
    items.truncate(SAVED_PER_PAGE);
    (items, Some(next))
}

/// A kept query that has to be there.
pub fn saved_read(row: Option<SavedView>) -> (found: Result<SavedView, Error>)
    ensures
        found == (match row {
            Some(row) => Ok::<SavedView, Error>(row),
            None => Err(Error::NotFound),
        }),
{
    match row {
        Some(row) => Ok(row),
        None => Err(Error::NotFound),
    }
}

/// The definition of a kept query that is to be carried out: it has to be there,
/// and not to have been deleted.
pub fn saved_execute(row: Option<SavedView>) -> (found: Result<SavedDefinition, Error>)
    ensures
        found == (match row {
            Some(SavedView { definition: Some(definition), .. }) => Ok::<SavedDefinition, Error>(
                definition,
            ),
            _ => Err(Error::NotFound),
        }),
{
    match row {
        Some(SavedView { definition: Some(definition), .. }) => Ok(definition),
        _ => Err(Error::NotFound),
    }
}

/// The most bytes that a kept query takes.
pub const SAVED_BYTES: usize = 16384;

/// How a kept query is written: put at no revision, it is made; otherwise what is
/// kept at the expected revision is replaced, or deleted.
#[derive(Clone, Copy, Debug, PartialEq, Eq, Structural)]
pub enum SavedWrite {
    Insert,
    Replace { expected: i64 },
}

/// What a write of a kept query is refused with, where it is: it has to have an
/// identifier and a storable revision, a name that is one, a query that can be
/// prepared, and few enough bytes.
pub open spec fn saved_refusal(
    id: Id,
    change: Operation<SavedChange>,
    named: Result<(), Error>,
    sound: bool,
    bytes: int,
    catalog: Seq<FieldDefinition>,
    limits: Limits,
) -> Option<Error> {
    if id == nil() || change.expected_revision >= i64::MAX {
        Some(Error::Malformed)
    } else {
        match change.input {
            SavedChange::Delete => None,
            SavedChange::Put { definition } => match named {
                Err(error) => Some(error),
                Ok(_) => if !is_valid(definition.query, sound, catalog, limits) || bytes
                    > SAVED_BYTES {
                    Some(Error::Malformed)
                } else {
                    None
                },
            },
        }
    }
}

/// How a kept query is written. `named` is whether the name of the query is one,
/// `sound` whether those who own the values and the conditions accept its
/// condition, where it has one, and `bytes` how many the query takes.
pub fn saved_write(
    id: Id,
    change: &Operation<SavedChange>,
    named: Result<(), Error>,
    sound: bool,
    bytes: usize,
    catalog: &Vec<FieldDefinition>,
    limits: Limits,
) -> (write: Result<SavedWrite, Error>)
    ensures
        match write {
            Ok(write) => {
                &&& saved_refusal(id, *change, named, sound, bytes as int, catalog@, limits) is None
                &&& write == (if change.expected_revision == 0 && change.input is Put {
                    SavedWrite::Insert
                } else {
                    SavedWrite::Replace { expected: change.expected_revision as i64 }
                })
            },
            Err(error) => saved_refusal(id, *change, named, sound, bytes as int, catalog@, limits) == Some(
                error,
            ),
        },
{
    if id.is_nil() || change.expected_revision >= i64::MAX as u64 {
        return Err(Error::Malformed);
    }
    let expected: i64 = change.expected_revision as i64;
    match &change.input {
        SavedChange::Delete => Ok(SavedWrite::Replace { expected }),
        SavedChange::Put { definition } => {
            if let Err(error) = named {
                return Err(error);
            }
            if let Err(error) = validate_query(&definition.query, sound, catalog, limits) {
                return Err(error);
            }
            if bytes > SAVED_BYTES {
                return Err(Error::Malformed);
            }
            if expected == 0 {
                Ok(SavedWrite::Insert)
            } else {
                Ok(SavedWrite::Replace { expected })
            }
        },
    }
}

/// A reader's scope, narrowed to one device that they may see.
pub fn narrow(scope: &ReadScope, device: &String) -> (narrowed: Result<ReadScope, Error>)
    requires
        scope.well_formed(),
    ensures
        match narrowed {
            Ok(narrowed) => {
                &&& scope.admits(device@)
                &&& narrowed.well_formed()
                &&& narrowed.subject == scope.subject
                &&& narrowed.devices is Some
                &&& forall|other: Seq<char>| #[trigger]
                    narrowed.admits(other) <==> other == device@
            },
            Err(error) => !scope.admits(device@) && error == Error::Forbidden,
        },
{
    if !scope.permits(device) {
        return Err(Error::Forbidden);
    }
    let mut devices: OrderedSet<String> = OrderedSet::new();
    devices.insert(device.clone());
    Ok(ReadScope { subject: scope.subject.clone(), devices: Some(devices) })
}

/// The first of the devices that were read, where any was.
pub fn detail<T>(devices: Vec<T>) -> (device: Result<T, Error>)
    ensures
        device == (if devices@.len() > 0 {
            Ok::<T, Error>(devices@[0])
        } else {
            Err(Error::NotFound)
        }),
{
    let mut devices = devices;
    if devices.len() == 0 {
        return Err(Error::NotFound);
    }
    Ok(devices.remove(0))
}

/// A field is assigned exactly where it is one that is assigned by hand, of a device that
/// has a name and is there, at a revision that can be stored, and where a value that is
/// assigned is one that the field can have. A device that is not there is not found;
/// anything else is malformed.
pub proof fn assignments_are_refused_for_what_is_wrong_with_them(
    field: FieldDefinition,
    change: Operation<ManualChange>,
    findings: AssignmentFindings,
)
    ensures
        assignment_refusal(field, change, findings) is None <==> field.manual && findings.named
            && findings.exists && change.expected_revision < i64::MAX && (change.input is Assign
            ==> findings.fits),
        assignment_refusal(field, change, findings) == Some(Error::NotFound) <==> field.manual
            && findings.named && change.expected_revision < i64::MAX && !findings.exists,
        assignment_refusal(field, change, findings) matches Some(error) ==> error
            == Error::NotFound || error == Error::Malformed,
{
}

/// What was assigned is what is then known: that very value where one was assigned, and
/// that there is none, or no field any more, where the change says so. It was observed
/// when it was assigned, by hand, and by the one who assigned it.
pub proof fn assigned_values_are_known(
    fact: SourceFact,
    change: Operation<ManualChange>,
    owner: Owner,
    at: i64,
    before: Option<KnownValue>,
)
    requires
        is_assigned(fact, change, owner, at, before),
    ensures
        change.input matches ManualChange::Assign { value } ==> fact.state == State::Known(value)
            && (fact.last_known matches Some(known) && known.value == value && known.evidence
            == fact.evidence),
        change.input is Null <==> fact.state is Null,
        change.input is Delete <==> fact.state is Deleted,
        !(change.input is Assign) ==> fact.last_known == before,
        fact.evidence.source@ == "manual"@,
        fact.evidence.observed_at == at && fact.evidence.received_at == at,
        fact.evidence.snapshot_id@ == text_of(change.operation_id.value),
        fact.evidence.actor matches Some(actor) && actor@ == owner.instance@ + ":"@
            + owner.principal@,
        fact.evidence.registration is None && fact.evidence.epoch is None,
{
}

/// A kept query is written exactly where it has an identifier and a revision that can be
/// stored and, unless it is deleted, a name that is one, a query that can be prepared
/// and few enough bytes.
pub proof fn kept_queries_are_refused_for_what_is_wrong_with_them(
    id: Id,
    change: Operation<SavedChange>,
    named: Result<(), Error>,
    sound: bool,
    bytes: int,
    catalog: Seq<FieldDefinition>,
    limits: Limits,
)
    ensures
        saved_refusal(id, change, named, sound, bytes, catalog, limits) is None <==> id.value != 0
            && change.expected_revision < i64::MAX && (change.input matches SavedChange::Put {
            definition,
        } ==> named is Ok && is_valid(definition.query, sound, catalog, limits) && bytes
            <= SAVED_BYTES),
        id.value != 0 && change.expected_revision < i64::MAX && change.input is Put && named is Err
            ==> saved_refusal(id, change, named, sound, bytes, catalog, limits) == Some(
            named->Err_0,
        ),
{
}

} // verus!
