//! The values that asset requests and results are made of.
use crate::error::Error;
use crate::id::{text_of, Id};
use crate::inventory::{Kind, ResolvedField, Scalar};
use crate::management::model::Operation;
use crate::set::OrderedSet;
use crate::text::{join3, same};
use vstd::prelude::*;

verus! {

/// How a predicate compares a field.
#[derive(Clone, Copy, Debug, PartialEq, Eq, Structural)]
pub enum Operator {
    Eq,
    Ne,
    In,
    NotIn,
    Lt,
    Le,
    Gt,
    Ge,
    Contains,
    NotContains,
    IsNull,
    IsNotNull,
}

/// A field of the catalog.
#[derive(Debug)]
pub struct FieldDefinition {
    pub key: String,
    pub kind: Kind,
    pub operations: Vec<Operator>,
    pub nullable: bool,
    pub manual: bool,
}

/// A condition on the fields of a device.
#[derive(Debug)]
pub enum Criteria {
    Predicate { field: String, op: Operator, value: Option<Scalar>, values: Option<Vec<Scalar>> },
    And { children: Vec<Criteria> },
    Or { children: Vec<Criteria> },
}

/// How well a field was collected.
#[derive(Debug)]
pub struct QualityField {
    pub field: String,
    pub quality: String,
    pub status: Option<u16>,
    pub received_at: Option<i64>,
}

/// A collection run of a source and how well it collected each field.
#[derive(Debug)]
pub struct QualityRun {
    pub source: String,
    pub channel: String,
    pub registration: Id,
    pub registration_generation: u64,
    pub epoch: Id,
    pub run_id: Id,
    pub sequence: i64,
    pub result: String,
    pub delivery_pending: bool,
    pub fields: Vec<QualityField>,
}

/// Which devices a reader may see: all, or those listed.
#[derive(Debug)]
pub struct ReadScope {
    pub subject: String,
    pub devices: Option<OrderedSet<String>>,
}

/// A device with its fields, each with what is known of it.
#[derive(Debug)]
pub struct DeviceView {
    pub device: String,
    pub channels: OrderedSet<String>,
    pub fields: Vec<(String, ResolvedField)>,
    pub quality: Vec<QualityRun>,
    pub revisions: Vec<(String, i64)>,
}

/// Whether two ordered sets of texts have the same members.
pub fn same_members(a: &OrderedSet<String>, b: &OrderedSet<String>) -> (answer: bool)
    ensures
        answer == (a@ == b@),
{
    if a.items.len() != b.items.len() {
        assert(a@.len() != b@.len());
        return false;
    }
    let mut i: usize = 0;
    while i < a.items.len()
        invariant
            a.items@.len() == b.items@.len(),
            i <= a.items@.len(),
            forall|j: int| 0 <= j < i ==> #[trigger] a@[j] == b@[j],
        decreases a.items@.len() - i,
    {
        if !same(a.items[i].as_str(), b.items[i].as_str()) {
            assert(a@[i as int] != b@[i as int]);
            return false;
        }
        i += 1;
    }
    assert(a@ =~= b@);
    true
}

impl ReadScope {
    /// Whether the listed devices stand in order.
    pub open spec fn well_formed(self) -> bool {
        self.devices matches Some(devices) ==> devices.well_formed()
    }

    /// Whether a reader may see `device`.
    pub open spec fn admits(self, device: Seq<char>) -> bool {
        self.devices matches Some(devices) ==> devices@.contains(device)
    }

    /// The scope of the group rules, which see every device.
    pub fn all() -> (scope: ReadScope)
        ensures
            scope.well_formed(),
            scope.subject@ == "group"@,
            scope.devices is None,
    {
        ReadScope { subject: "group".to_owned(), devices: None }
    }

    /// The scope of a signed-in reader.
    pub fn from_proof(
        instance: &str,
        principal: &str,
        devices: Option<OrderedSet<String>>,
    ) -> (scope: ReadScope)
        ensures
            scope.subject@ == instance@ + ":"@ + principal@,
            scope.devices == devices,
    {
        ReadScope { subject: join3(instance, ":", principal), devices }
    }

    /// Refuses a reader who may not see every device.
    pub fn full(&self) -> (admitted: Result<(), Error>)
        ensures
            admitted is Ok <==> self.devices is None,
            admitted is Err ==> admitted == Err::<(), Error>(Error::Forbidden),
    {
        if self.devices.is_none() {
            Ok(())
        } else {
            Err(Error::Forbidden)
        }
    }

    /// Whether the reader may see `device`.
    pub fn permits(&self, device: &String) -> (answer: bool)
        requires
            self.well_formed(),
        ensures
            answer == self.admits(device@),
    {
        match &self.devices {
            Some(devices) => devices.contains(device),
            None => true,
        }
    }

    /// Whether two scopes are of one subject and list the same devices.
    pub fn matches(&self, other: &ReadScope) -> (answer: bool)
        ensures
            answer == (self.subject@ == other.subject@ && match (self.devices, other.devices) {
                (Some(a), Some(b)) => a@ == b@,
                (None, None) => true,
                _ => false,
            }),
    {
        if !same(self.subject.as_str(), other.subject.as_str()) {
            return false;
        }
        match (&self.devices, &other.devices) {
            (Some(a), Some(b)) => same_members(a, b),
            (None, None) => true,
            _ => false,
        }
    }
}

/// In which order a result is walked.
#[derive(Debug)]
pub struct Sort {
    pub field: String,
    pub descending: bool,
}

/// Which devices are asked for, what of them, and in which order.
#[derive(Debug)]
pub struct Query {
    pub criteria: Option<Criteria>,
    pub select: Vec<String>,
    pub sort: Option<Sort>,
}

/// By what the devices of a result are counted.
#[derive(Clone, Copy, Debug, PartialEq, Eq, Structural)]
pub enum Facet {
    OsVersions,
    Channels,
    AssetStates,
}

impl Facet {
    /// The name of the facet.
    pub open spec fn spec_name(self) -> Seq<char> {
        match self {
            Facet::OsVersions => "os_versions"@,
            Facet::Channels => "channels"@,
            Facet::AssetStates => "asset_states"@,
        }
    }

    /// The name of the facet.
    pub fn as_str(self) -> (name: &'static str)
        ensures
            name@ == self.spec_name(),
    {
        match self {
            Facet::OsVersions => "os_versions",
            Facet::Channels => "channels",
            Facet::AssetStates => "asset_states",
        }
    }
}

/// An assignment to a field by hand.
#[derive(Debug)]
pub enum ManualChange {
    Assign { value: Scalar },
    Null,
    Delete,
}

/// A query that is kept under a name.
#[derive(Debug)]
pub struct SavedDefinition {
    pub name: String,
    pub query: Query,
}

/// A change of a kept query.
#[derive(Debug)]
pub enum SavedChange {
    Put { definition: SavedDefinition },
    Delete,
}

/// Whose a kept query or an assignment is.
#[derive(Debug)]
pub struct Owner {
    pub instance: String,
    pub principal: String,
}

/// A request that is about assets.
#[allow(inconsistent_fields)]
#[derive(Debug)]
pub enum Command {
    QueryStatus { task: Id, scope: ReadScope },
    QueryItems { task: Id, scope: ReadScope, limit: usize, cursor: Option<String> },
    QueryFacets {
        task: Id,
        scope: ReadScope,
        facet: Facet,
        limit: usize,
        cursor: Option<String>,
    },
    Fields,
    Detail { device: String, scope: ReadScope },
    Search { request: Operation<Query>, scope: ReadScope },
    Manual { device: String, field: String, change: Operation<ManualChange>, owner: Owner },
    SavedList { owner: Owner, after: Option<Id> },
    SavedRead { owner: Owner, id: Id },
    SavedWrite { owner: Owner, id: Id, change: Operation<SavedChange> },
    SavedExecute {
        operation: Id,
        expected_revision: u64,
        owner: Owner,
        id: Id,
        scope: ReadScope,
    },
}

impl Command {
    /// The operation that the request carries, where it changes anything.
    pub open spec fn spec_operation(self) -> Option<Id> {
        match self {
            Command::Search { request, .. } => Some(request.operation_id),
            Command::SavedExecute { operation, .. } => Some(operation),
            Command::Manual { change, .. } => Some(change.operation_id),
            Command::SavedWrite { change, .. } => Some(change.operation_id),
            _ => None,
        }
    }

    /// The operation that the request carries, where it changes anything.
    pub fn operation(&self) -> (operation: Option<Id>)
        ensures
            operation == self.spec_operation(),
    {
        match self {
            Command::Search { request, .. } => Some(request.operation_id),
            Command::SavedExecute { operation, .. } => Some(*operation),
            Command::Manual { change, .. } => Some(change.operation_id),
            Command::SavedWrite { change, .. } => Some(change.operation_id),
            _ => None,
        }
    }

    /// What the request is recorded to be about, where it is about one thing.
    pub open spec fn spec_target(self) -> Option<Seq<char>> {
        match self {
            Command::Manual { device, .. } => Some(device@),
            Command::Detail { device, .. } => Some(device@),
            Command::QueryStatus { task, .. } => Some(text_of(task.value)),
            Command::QueryItems { task, .. } => Some(text_of(task.value)),
            Command::QueryFacets { task, .. } => Some(text_of(task.value)),
            Command::SavedRead { id, .. } => Some(text_of(id.value)),
            Command::SavedWrite { id, .. } => Some(text_of(id.value)),
            Command::SavedExecute { id, .. } => Some(text_of(id.value)),
            Command::Fields | Command::Search { .. } | Command::SavedList { .. } => None,
        }
    }

    /// What the request is recorded to be about, where it is about one thing.
    pub fn target(&self) -> (target: Option<String>)
        ensures
            match target {
                Some(target) => self.spec_target() == Some(target@),
                None => self.spec_target() is None,
            },
    {
        match self {
            Command::Manual { device, .. } => Some(device.clone()),
            Command::Detail { device, .. } => Some(device.clone()),
            Command::QueryStatus { task, .. } => Some(task.text()),
            Command::QueryItems { task, .. } => Some(task.text()),
            Command::QueryFacets { task, .. } => Some(task.text()),
            Command::SavedRead { id, .. } => Some(id.text()),
            Command::SavedWrite { id, .. } => Some(id.text()),
            Command::SavedExecute { id, .. } => Some(id.text()),
            Command::Fields | Command::Search { .. } | Command::SavedList { .. } => None,
        }
    }

    /// The name that the request is recorded under: what carries an operation
    /// writes.
    pub fn action(&self) -> (action: &'static str)
        ensures
            action@ == (if self.spec_operation() is Some {
                "management_write"@
            } else {
                "inventory_read"@
            }),
    {
        if self.operation().is_some() {
            "management_write"
        } else {
            "inventory_read"
        }
    }

    /// What the request needs: a permission on a device, the scope that it
    /// brings, or only some scope.
    pub open spec fn spec_demand(self) -> Demand {
        match self {
            Command::Manual { device, .. } => Demand::Assign(device@),
            Command::Detail { device, .. } => Demand::Read(device@),
            Command::QueryStatus { scope, .. } => Demand::Scope(scope),
            Command::QueryItems { scope, .. } => Demand::Scope(scope),
            Command::QueryFacets { scope, .. } => Demand::Scope(scope),
            Command::Search { scope, .. } => Demand::Scope(scope),
            Command::SavedExecute { scope, .. } => Demand::Scope(scope),
            Command::Fields
            | Command::SavedList { .. }
            | Command::SavedRead { .. }
            | Command::SavedWrite { .. } => Demand::AnyScope,
        }
    }
}

/// What a request about assets needs to be permitted.
pub enum Demand {
    Assign(Seq<char>),
    Read(Seq<char>),
    Scope(ReadScope),
    AnyScope,
}

/// What is known of the one who makes a request.
#[derive(Debug)]
pub struct Authority {
    /// Whether they may assign fields of the device of the request.
    pub may_assign: Result<(), Error>,
    /// Whether they may read the device of the request.
    pub may_read: Result<(), Error>,
    /// Which devices they may see, where that could be told.
    pub scope: Result<ReadScope, Error>,
}

/// Whether a request about assets is permitted.
pub open spec fn permitted(authority: Authority, demand: Demand) -> Result<(), Error> {
    match demand {
        Demand::Assign(_) => authority.may_assign,
        Demand::Read(_) => authority.may_read,
        Demand::Scope(scope) => match authority.scope {
            Ok(own) => if own.subject@ == scope.subject@ && (match (own.devices, scope.devices) {
                (Some(a), Some(b)) => a@ == b@,
                (None, None) => true,
                _ => false,
            }) {
                Ok(())
            } else {
                Err(Error::Forbidden)
            },
            Err(error) => Err(error),
        },
        Demand::AnyScope => match authority.scope {
            Ok(_) => Ok(()),
            Err(error) => Err(error),
        },
    }
}

/// Permits a request about assets.
pub fn authorize(authority: &Authority, command: &Command) -> (answer: Result<(), Error>)
    ensures
        answer == permitted(*authority, command.spec_demand()),
{
    let scope = match command {
        Command::Manual { .. } => return authority.may_assign,
        Command::Detail { .. } => return authority.may_read,
        Command::QueryStatus { scope, .. } => scope,
        Command::QueryItems { scope, .. } => scope,
        Command::QueryFacets { scope, .. } => scope,
        Command::Search { scope, .. } => scope,
        Command::SavedExecute { scope, .. } => scope,
        Command::Fields
        | Command::SavedList { .. }
        | Command::SavedRead { .. }
        | Command::SavedWrite { .. } => {
            return match &authority.scope {
                Ok(_) => Ok(()),
                Err(error) => Err(*error),
            };
        },
    };
    match &authority.scope {
        Ok(own) => if own.matches(scope) {
            Ok(())
        } else {
            Err(Error::Forbidden)
        },
        Err(error) => Err(*error),
    }
}

/// A reader may see every device where no devices are listed for them, and otherwise those
/// that are listed and no others.
pub proof fn readers_see_what_is_listed(scope: ReadScope, device: Seq<char>)
    ensures
        scope.devices is None ==> scope.admits(device),
        scope.devices is Some ==> (scope.admits(device) <==> scope.devices->Some_0@.contains(
            device,
        )),
{
}

/// What a request about assets needs: one that assigns a field, the permission to assign on
/// that device; one that shows a device, the permission to read it; one that queries or
/// reads a query, the very scope that it was made with; any other, only some scope.
pub proof fn requests_about_assets_need_what_they_touch(command: Command)
    ensures
        command.spec_demand() is Assign <==> command is Manual,
        command.spec_demand() is Read <==> command is Detail,
        command.spec_demand() is Scope <==> command is Search || command is SavedExecute
            || command is QueryStatus || command is QueryItems || command is QueryFacets,
        command.spec_demand() is AnyScope <==> command is Fields || command is SavedList
            || command is SavedRead || command is SavedWrite,
        command matches Command::Manual { device, .. } ==> command.spec_demand() == Demand::Assign(
            device@,
        ),
        command matches Command::Detail { device, .. } ==> command.spec_demand() == Demand::Read(
            device@,
        ),
        command matches Command::Search { scope, .. } ==> command.spec_demand() == Demand::Scope(
            scope,
        ),
        command matches Command::SavedExecute { scope, .. } ==> command.spec_demand()
            == Demand::Scope(scope),
        command matches Command::QueryStatus { scope, .. } ==> command.spec_demand()
            == Demand::Scope(scope),
        command matches Command::QueryItems { scope, .. } ==> command.spec_demand()
            == Demand::Scope(scope),
        command matches Command::QueryFacets { scope, .. } ==> command.spec_demand()
            == Demand::Scope(scope),
{
}

/// A request about assets is permitted exactly where its maker may do what it needs: assign
/// or read where that is granted, and query only under the scope that is now their own,
/// of the same subject and with the same devices. Otherwise it is refused for the
/// reason that was found, or forbidden.
pub proof fn requests_about_assets_are_permitted_by_what_is_granted(
    authority: Authority,
    demand: Demand,
)
    ensures
        demand is Assign ==> permitted(authority, demand) == authority.may_assign,
        demand is Read ==> permitted(authority, demand) == authority.may_read,
        demand is AnyScope ==> (permitted(authority, demand) is Ok <==> authority.scope is Ok),
        demand matches Demand::Scope(asked) ==> (permitted(authority, demand) is Ok <==> (
        authority.scope matches Ok(own) && own.subject@ == asked.subject@ && (own.devices is Some
            <==> asked.devices is Some) && (own.devices is Some ==> own.devices->Some_0@
            == asked.devices->Some_0@))),
        !(demand is Assign || demand is Read) && authority.scope is Err ==> permitted(
            authority,
            demand,
        ) == Err::<(), Error>(authority.scope->Err_0),
        demand is Scope && authority.scope is Ok && permitted(authority, demand) is Err
            ==> permitted(authority, demand) == Err::<(), Error>(Error::Forbidden),
{
}

/// A request about assets carries an operation exactly where it starts a query or changes
/// something, and it is the one that it was made with; it is recorded to be about the
/// device, the query or the kept query that it names.
pub proof fn requests_about_assets_carry_their_own_operation(command: Command)
    ensures
        command.spec_operation() is Some <==> command is Search || command is SavedExecute
            || command is Manual || command is SavedWrite,
        command matches Command::Search { request, .. } ==> command.spec_operation() == Some(
            request.operation_id,
        ),
        command matches Command::SavedExecute { operation, .. } ==> command.spec_operation()
            == Some(operation),
        command matches Command::Manual { change, .. } ==> command.spec_operation() == Some(
            change.operation_id,
        ),
        command matches Command::SavedWrite { change, .. } ==> command.spec_operation() == Some(
            change.operation_id,
        ),
        command matches Command::Manual { device, .. } ==> command.spec_target() == Some(device@),
        command matches Command::Detail { device, .. } ==> command.spec_target() == Some(device@),
        command matches Command::QueryStatus { task, .. } ==> command.spec_target() == Some(
            text_of(task.value),
        ),
        command matches Command::QueryItems { task, .. } ==> command.spec_target() == Some(
            text_of(task.value),
        ),
        command matches Command::QueryFacets { task, .. } ==> command.spec_target() == Some(
            text_of(task.value),
        ),
        command matches Command::SavedRead { id, .. } ==> command.spec_target() == Some(
            text_of(id.value),
        ),
        command matches Command::SavedWrite { id, .. } ==> command.spec_target() == Some(
            text_of(id.value),
        ),
        command matches Command::SavedExecute { id, .. } ==> command.spec_target() == Some(
            text_of(id.value),
        ),
        command is Fields || command is Search || command is SavedList
            ==> command.spec_target() is None,
{
}

/// No two facets go by one name.
pub proof fn facets_are_told_apart(one: Facet, two: Facet)
    ensures
        one.spec_name() == two.spec_name() <==> one == two,
{
    reveal_strlit("os_versions");
    reveal_strlit("channels");
    reveal_strlit("asset_states");
    assert("os_versions"@.len() == 11 && "channels"@.len() == 8 && "asset_states"@.len() == 12);
}

} // verus!
