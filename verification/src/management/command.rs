//! The requests of the management domain: what each carries, what it is about,
//! and what it needs to be permitted.
use crate::error::Error;
use crate::id::{nil, text_of, Id};
use crate::management::assets::model as assets;
use crate::management::automation::TaskKind;
use crate::management::model::{
    GroupChange, Operation, PolicyChange, PreviewInput, SavePlan, ScopeChange,
};
use crate::management::pages::{GroupPageKind, PageQuery, PolicyPageKind, ScopePageKind};
use crate::management::publications::{self, Permission};
use crate::management::resources;
use vstd::prelude::*;

verus! {

/// A request of the management domain.
#[allow(inconsistent_fields)]
#[derive(Debug)]
pub enum Command {
    Asset { command: assets::Command },
    PublicationIntent { source: String, id: String, request: Operation<publications::Change> },
    Resource { id: String, change: Operation<resources::Change> },
    ResourceRead { id: String },
    Group { id: Id, change: Operation<GroupChange> },
    GroupRead { id: Id },
    GroupPreview { id: Id, operation: Id, expected_revision: u64 },
    Scope { id: Id, change: Operation<ScopeChange> },
    ScopeRead { id: Id },
    Policy { id: String, change: Operation<PolicyChange> },
    PolicyRead { id: String },
    Preview { id: String, request: Operation<PreviewInput> },
    Save { id: String, request: Operation<SavePlan> },
    PlanRead { id: Id },
    GroupPage { group: Id, result: Id, projection: GroupPageKind, query: PageQuery },
    ScopePage { scope: Id, result: Id, projection: ScopePageKind, query: PageQuery },
    PolicyPage { policy: String, result: Id, projection: PolicyPageKind, query: PageQuery },
    TaskRead { id: Id, target: String, family: TaskKind },
}

/// What a request writes messages about: they are kept in order with those about
/// the same thing.
#[derive(Debug)]
pub enum Partition {
    Group(String),
    Resource(String),
    Policy(String),
}

impl Command {
    /// What the request writes messages about, where it writes any.
    pub fn partition(&self) -> (partition: Option<Partition>)
        ensures
            match *self {
                Command::Group { id, .. } => partition matches Some(Partition::Group(name)) && name@
                    == text_of(id.value),
                Command::Resource { id, .. } => partition == Some(Partition::Resource(id)),
                Command::Policy { id, .. } => partition == Some(Partition::Policy(id)),
                Command::Save { id, .. } => partition == Some(Partition::Policy(id)),
                _ => partition is None,
            },
    {
        match self {
            Command::Group { id, .. } => Some(Partition::Group(id.text())),
            Command::Resource { id, .. } => Some(Partition::Resource(id.clone())),
            Command::Policy { id, .. } => Some(Partition::Policy(id.clone())),
            Command::Save { id, .. } => Some(Partition::Policy(id.clone())),
            _ => None,
        }
    }

    /// The operation that a request carries, where it changes anything.
    pub open spec fn spec_operation(self) -> Option<Id> {
        match self {
            Command::Asset { command } => command.spec_operation(),
            Command::PublicationIntent { request, .. } => Some(request.operation_id),
            Command::Resource { change, .. } => Some(change.operation_id),
            Command::Group { change, .. } => Some(change.operation_id),
            Command::GroupPreview { operation, .. } => Some(operation),
            Command::Scope { change, .. } => Some(change.operation_id),
            Command::Policy { change, .. } => Some(change.operation_id),
            Command::Preview { request, .. } => Some(request.operation_id),
            Command::Save { request, .. } => Some(request.operation_id),
            _ => None,
        }
    }

    /// The operation that a request carries, where it changes anything; one that
    /// stands for none is refused.
    pub fn identity(&self) -> (operation: Result<Option<Id>, Error>)
        ensures
            operation == (if self.spec_operation() == Some(nil()) {
                Err::<Option<Id>, Error>(Error::Malformed)
            } else {
                Ok(self.spec_operation())
            }),
    {
        let operation = match self {
            Command::Asset { command } => command.operation(),
            Command::PublicationIntent { request, .. } => Some(request.operation_id),
            Command::Resource { change, .. } => Some(change.operation_id),
            Command::Group { change, .. } => Some(change.operation_id),
            Command::GroupPreview { operation, .. } => Some(*operation),
            Command::Scope { change, .. } => Some(change.operation_id),
            Command::Policy { change, .. } => Some(change.operation_id),
            Command::Preview { request, .. } => Some(request.operation_id),
            Command::Save { request, .. } => Some(request.operation_id),
            _ => None,
        };
        if let Some(id) = operation {
            if id.is_nil() {
                return Err(Error::Malformed);
            }
        }
        Ok(operation)
    }

    /// What a request is recorded to be about.
    pub open spec fn spec_target(self) -> Option<Seq<char>> {
        match self {
            Command::Asset { command } => command.spec_target(),
            Command::Group { id, .. } => Some(text_of(id.value)),
            Command::GroupRead { id } => Some(text_of(id.value)),
            Command::GroupPreview { id, .. } => Some(text_of(id.value)),
            Command::Scope { id, .. } => Some(text_of(id.value)),
            Command::ScopeRead { id } => Some(text_of(id.value)),
            Command::PlanRead { id } => Some(text_of(id.value)),
            Command::TaskRead { id, .. } => Some(text_of(id.value)),
            Command::GroupPage { group, .. } => Some(text_of(group.value)),
            Command::ScopePage { scope, .. } => Some(text_of(scope.value)),
            Command::PolicyPage { policy, .. } => Some(policy@),
            Command::Policy { id, .. } => Some(id@),
            Command::PolicyRead { id } => Some(id@),
            Command::Preview { id, .. } => Some(id@),
            Command::Save { id, .. } => Some(id@),
            Command::Resource { id, .. } => Some(id@),
            Command::ResourceRead { id } => Some(id@),
            Command::PublicationIntent { id, .. } => Some(id@),
        }
    }

    /// What a request is recorded to be about.
    pub fn target(&self) -> (target: Option<String>)
        ensures
            match target {
                Some(target) => self.spec_target() == Some(target@),
                None => self.spec_target() is None,
            },
    {
        match self {
            Command::Asset { command } => command.target(),
            Command::Group { id, .. } => Some(id.text()),
            Command::GroupRead { id } => Some(id.text()),
            Command::GroupPreview { id, .. } => Some(id.text()),
            Command::Scope { id, .. } => Some(id.text()),
            Command::ScopeRead { id } => Some(id.text()),
            Command::PlanRead { id } => Some(id.text()),
            Command::TaskRead { id, .. } => Some(id.text()),
            Command::GroupPage { group, .. } => Some(group.text()),
            Command::ScopePage { scope, .. } => Some(scope.text()),
            Command::PolicyPage { policy, .. } => Some(policy.clone()),
            Command::Policy { id, .. } => Some(id.clone()),
            Command::PolicyRead { id } => Some(id.clone()),
            Command::Preview { id, .. } => Some(id.clone()),
            Command::Save { id, .. } => Some(id.clone()),
            Command::Resource { id, .. } => Some(id.clone()),
            Command::ResourceRead { id } => Some(id.clone()),
            Command::PublicationIntent { id, .. } => Some(id.clone()),
        }
    }

    /// Whether a request only reads.
    pub open spec fn is_read(self) -> bool {
        match self {
            Command::ScopePage { .. }
            | Command::PolicyPage { .. }
            | Command::GroupPage { .. }
            | Command::TaskRead { .. }
            | Command::GroupRead { .. }
            | Command::ScopeRead { .. }
            | Command::PolicyRead { .. }
            | Command::PlanRead { .. }
            | Command::GroupPreview { .. }
            | Command::ResourceRead { .. } => true,
            _ => false,
        }
    }

    /// The name that a request is recorded under.
    pub open spec fn spec_action(self) -> Seq<char> {
        match self {
            Command::Asset { command } => if command.spec_operation() is Some {
                "management_write"@
            } else {
                "inventory_read"@
            },
            Command::Preview { .. } => "plan_preview"@,
            Command::Save { .. } => "plan_save"@,
            _ => if self.is_read() {
                "management_read"@
            } else {
                "management_write"@
            },
        }
    }

    /// The name that a request is recorded under.
    pub fn action(&self) -> (action: &'static str)
        ensures
            action@ == self.spec_action(),
    {
        match self {
            Command::Asset { command } => command.action(),
            Command::Preview { .. } => "plan_preview",
            Command::Save { .. } => "plan_save",
            Command::ScopePage { .. }
            | Command::PolicyPage { .. }
            | Command::GroupPage { .. }
            | Command::TaskRead { .. }
            | Command::GroupRead { .. }
            | Command::ScopeRead { .. }
            | Command::PolicyRead { .. }
            | Command::PlanRead { .. }
            | Command::GroupPreview { .. }
            | Command::ResourceRead { .. } => "management_read",
            _ => "management_write",
        }
    }

    /// What a request needs to be permitted; a request about assets says so
    /// itself.
    pub open spec fn needed(self) -> Option<Permission> {
        match self {
            Command::Asset { .. } => None,
            Command::PublicationIntent { request, .. } => Some(publications::needed(request.input)),
            Command::Resource { .. } => Some(Permission::ResourceWrite),
            Command::ResourceRead { .. } => Some(Permission::ResourceRead),
            Command::Group { change, .. } => Some(
                if change.input is Recompute {
                    Permission::GroupRecompute
                } else {
                    Permission::GroupWrite
                },
            ),
            Command::GroupRead { .. } | Command::GroupPreview { .. } | Command::GroupPage { .. } =>
                Some(Permission::GroupRead),
            Command::Scope { .. } => Some(Permission::ScopeWrite),
            Command::ScopeRead { .. } | Command::ScopePage { .. } => Some(Permission::ScopeRead),
            Command::Policy { .. } => Some(Permission::PolicyWrite),
            Command::PolicyRead { .. } | Command::PolicyPage { .. } | Command::PlanRead { .. } =>
                Some(Permission::PolicyRead),
            Command::Preview { .. } => Some(Permission::PlanPreview),
            Command::Save { .. } => Some(Permission::PlanSave),
            Command::TaskRead { family, .. } => Some(
                match family {
                    TaskKind::Group => Permission::GroupRead,
                    TaskKind::Scope => Permission::ScopeRead,
                    TaskKind::Policy => Permission::PolicyRead,
                    TaskKind::AssetQuery => Permission::InventoryRead,
                },
            ),
        }
    }

    /// What a request needs to be permitted.
    pub fn permission(&self) -> (permission: Option<Permission>)
        ensures
            permission == self.needed(),
    {
        match self {
            Command::Asset { .. } => None,
            Command::PublicationIntent { request, .. } => Some(
                publications::permission(&request.input),
            ),
            Command::Resource { .. } => Some(Permission::ResourceWrite),
            Command::ResourceRead { .. } => Some(Permission::ResourceRead),
            Command::Group { change, .. } => match &change.input {
                GroupChange::Recompute => Some(Permission::GroupRecompute),
                _ => Some(Permission::GroupWrite),
            },
            Command::GroupRead { .. } | Command::GroupPreview { .. } | Command::GroupPage { .. } =>
                Some(Permission::GroupRead),
            Command::Scope { .. } => Some(Permission::ScopeWrite),
            Command::ScopeRead { .. } | Command::ScopePage { .. } => Some(Permission::ScopeRead),
            Command::Policy { .. } => Some(Permission::PolicyWrite),
            Command::PolicyRead { .. } | Command::PolicyPage { .. } | Command::PlanRead { .. } =>
                Some(Permission::PolicyRead),
            Command::Preview { .. } => Some(Permission::PlanPreview),
            Command::Save { .. } => Some(Permission::PlanSave),
            Command::TaskRead { family, .. } => match family {
                TaskKind::Group => Some(Permission::GroupRead),
                TaskKind::Scope => Some(Permission::ScopeRead),
                TaskKind::Policy => Some(Permission::PolicyRead),
                TaskKind::AssetQuery => Some(Permission::InventoryRead),
            },
        }
    }

    /// Whether what a request writes or reads is derived from the inventory of
    /// every device, so that only one who may see all of it is permitted: rules
    /// of groups, and what groups, scopes and policies resolved to.
    pub open spec fn is_derived(self) -> bool {
        match self {
            Command::Group { change, .. } => match change.input {
                GroupChange::Create { criteria, .. } => criteria is Some,
                GroupChange::Rule { .. } | GroupChange::Recompute => true,
                _ => false,
            },
            Command::GroupPreview { .. }
            | Command::GroupPage { .. }
            | Command::ScopePage { .. }
            | Command::PolicyPage { .. }
            | Command::TaskRead { .. }
            | Command::PlanRead { .. } => true,
            _ => false,
        }
    }

    /// Whether only one who may see the inventory of every device is permitted.
    pub fn needs_full_inventory(&self) -> (answer: bool)
        ensures
            answer == self.is_derived(),
    {
        match self {
            Command::Group { change, .. } => match &change.input {
                GroupChange::Create { criteria, .. } => criteria.is_some(),
                GroupChange::Rule { .. } | GroupChange::Recompute => true,
                _ => false,
            },
            Command::GroupPreview { .. }
            | Command::GroupPage { .. }
            | Command::ScopePage { .. }
            | Command::PolicyPage { .. }
            | Command::TaskRead { .. }
            | Command::PlanRead { .. } => true,
            _ => false,
        }
    }
}

/// Permits a request: what it needs has to be granted, and where it is derived
/// from the inventory its scope has to be full. `granted` answers for the
/// permission that the request needs, and `scope` is what its maker may see.
pub open spec fn permitted(
    command: Command,
    granted: Result<(), Error>,
    scope: Result<assets::ReadScope, Error>,
) -> Result<(), Error> {
    match granted {
        Err(error) => Err(error),
        Ok(()) => if !command.is_derived() {
            Ok(())
        } else {
            match scope {
                Err(error) => Err(error),
                Ok(scope) => if scope.devices is None {
                    Ok(())
                } else {
                    Err(Error::Forbidden)
                },
            }
        },
    }
}

/// Permits a request.
pub fn authorize(
    command: &Command,
    granted: Result<(), Error>,
    scope: &Result<assets::ReadScope, Error>,
) -> (answer: Result<(), Error>)
    ensures
        answer is Ok <==> permitted(*command, granted, *scope) is Ok,
        answer matches Err(error) ==> permitted(*command, granted, *scope) == Err::<(), Error>(
            error,
        ),
{
    if let Err(error) = granted {
        return Err(error);
    }
    if !command.needs_full_inventory() {
        return Ok(());
    }
    match scope {
        Err(error) => Err(*error),
        Ok(scope) => scope.full(),
    }
}

/// Nothing that is derived from the inventory of every device is shown to or
/// written by one who may not see all of it.
pub proof fn derived_results_need_the_full_inventory(
    command: Command,
    granted: Result<(), Error>,
    scope: Result<assets::ReadScope, Error>,
)
    requires
        command.is_derived(),
        permitted(command, granted, scope) is Ok,
    ensures
        scope matches Ok(scope) && scope.devices is None,
{
}

/// A request that carries an operation is never recorded as a read of what it
/// changes, save for a preview of a group, which leaves the group as it is.
pub proof fn writes_are_recorded_as_writes(command: Command)
    requires
        command.spec_operation() is Some,
        !(command is GroupPreview),
    ensures
        !command.is_read(),
{
}

/// Accepts a request for a preview: it names one revision.
pub fn admit_preview(request: &Operation<PreviewInput>) -> (admitted: Result<(), Error>)
    ensures
        admitted is Ok <==> request.expected_revision == request.input.expected_revision,
        admitted is Err ==> admitted == Err::<(), Error>(Error::Malformed),
{
    if request.expected_revision != request.input.expected_revision {
        Err(Error::Malformed)
    } else {
        Ok(())
    }
}

/// Every request needs the permission for what it does to what it is about, and no
/// permission serves for anything else: reading and writing groups, scopes, policies
/// and resources, recomputing groups, and previewing and saving plans are each
/// permitted apart.
pub proof fn requests_need_the_permission_for_what_they_do(command: Command)
    ensures
        command.needed() is None <==> command is Asset,
        command.needed() == Some(Permission::ResourceWrite) <==> command is Resource,
        command.needed() == Some(Permission::ResourceRead) <==> command is ResourceRead,
        command.needed() == Some(Permission::GroupRecompute) <==> (command matches Command::Group {
            change,
            ..
        } && change.input is Recompute),
        command.needed() == Some(Permission::GroupWrite) <==> (command matches Command::Group {
            change,
            ..
        } && !(change.input is Recompute)),
        command.needed() == Some(Permission::ScopeWrite) <==> command is Scope,
        command.needed() == Some(Permission::PolicyWrite) <==> command is Policy,
        command.needed() == Some(Permission::PlanPreview) <==> command is Preview,
        command.needed() == Some(Permission::PlanSave) <==> command is Save,
        command.needed() == Some(Permission::GroupRead) <==> command is GroupRead
            || command is GroupPreview || command is GroupPage || (command matches Command::TaskRead {
            family,
            ..
        } && family == TaskKind::Group),
        command.needed() == Some(Permission::ScopeRead) <==> command is ScopeRead
            || command is ScopePage || (command matches Command::TaskRead { family, .. } && family
            == TaskKind::Scope),
        command.needed() == Some(Permission::PolicyRead) <==> command is PolicyRead
            || command is PolicyPage || command is PlanRead || (
        command matches Command::TaskRead { family, .. } && family == TaskKind::Policy),
        command.needed() == Some(Permission::InventoryRead) <==> (
        command matches Command::TaskRead { family, .. } && family == TaskKind::AssetQuery),
        command matches Command::PublicationIntent { request, .. } ==> command.needed() == Some(
            publications::needed(request.input),
        ),
{
}

/// A request is permitted exactly where what it needs is granted and, where it reads or
/// writes what follows from the inventory of every device, its maker may see all of
/// it: a rule of a group, and what a group, a scope or a policy came to. Otherwise it
/// is refused for the first of these that is wanting.
pub proof fn requests_are_permitted_by_grant_and_sight(
    command: Command,
    granted: Result<(), Error>,
    scope: Result<assets::ReadScope, Error>,
)
    ensures
        command.is_derived() <==> (command is GroupPreview || command is GroupPage
            || command is ScopePage || command is PolicyPage || command is TaskRead
            || command is PlanRead || (command matches Command::Group { change, .. } && (
        change.input is Rule || change.input is Recompute || (
        change.input matches GroupChange::Create { criteria, .. } && criteria is Some)))),
        permitted(command, granted, scope) is Ok <==> granted is Ok && (command.is_derived()
            ==> (scope matches Ok(scope) && scope.devices is None)),
        granted matches Err(error) ==> permitted(command, granted, scope) == Err::<(), Error>(
            error,
        ),
        granted is Ok && command.is_derived() && scope is Err ==> permitted(
            command,
            granted,
            scope,
        ) == Err::<(), Error>(scope->Err_0),
        granted is Ok && command.is_derived() && (scope matches Ok(scope) && scope.devices is Some)
            ==> permitted(command, granted, scope) == Err::<(), Error>(Error::Forbidden),
{
}

/// A request carries an operation exactly where it changes something or previews it, and
/// it is the one that it was made with; a request about assets says so itself.
pub proof fn changes_carry_their_own_operation(command: Command)
    ensures
        !(command is Asset) ==> (command.spec_operation() is None <==> command.is_read() && !(
        command is GroupPreview)),
        command matches Command::Asset { command: asset } ==> command.spec_operation()
            == asset.spec_operation(),
        command matches Command::PublicationIntent { request, .. } ==> command.spec_operation()
            == Some(request.operation_id),
        command matches Command::Resource { change, .. } ==> command.spec_operation() == Some(
            change.operation_id,
        ),
        command matches Command::Group { change, .. } ==> command.spec_operation() == Some(
            change.operation_id,
        ),
        command matches Command::GroupPreview { operation, .. } ==> command.spec_operation()
            == Some(operation),
        command matches Command::Scope { change, .. } ==> command.spec_operation() == Some(
            change.operation_id,
        ),
        command matches Command::Policy { change, .. } ==> command.spec_operation() == Some(
            change.operation_id,
        ),
        command matches Command::Preview { request, .. } ==> command.spec_operation() == Some(
            request.operation_id,
        ),
        command matches Command::Save { request, .. } ==> command.spec_operation() == Some(
            request.operation_id,
        ),
{
}

/// A request is recorded under what it does: a preview or a save of a plan as such, what
/// only reads as reading, and everything else as writing.
pub proof fn requests_are_recorded_as_what_they_do(command: Command)
    ensures
        command.spec_action() == "plan_preview"@ <==> command is Preview,
        command.spec_action() == "plan_save"@ <==> command is Save,
        command.spec_action() == "inventory_read"@ <==> (command matches Command::Asset {
            command: asset,
        } && asset.spec_operation() is None),
        command.spec_action() == "management_read"@ <==> command is GroupRead
            || command is GroupPreview || command is GroupPage || command is ScopeRead
            || command is ScopePage || command is PolicyRead || command is PolicyPage
            || command is PlanRead || command is TaskRead || command is ResourceRead,
        command.spec_action() == "management_write"@ <==> command is PublicationIntent
            || command is Resource || command is Group || command is Scope || command is Policy || (
        command matches Command::Asset { command: asset } && asset.spec_operation() is Some),
{
    reveal_strlit("plan_preview");
    reveal_strlit("plan_save");
    reveal_strlit("inventory_read");
    reveal_strlit("management_read");
    reveal_strlit("management_write");
    assert("plan_preview"@.len() == 12 && "plan_save"@.len() == 9);
    assert("inventory_read"@.len() == 14 && "management_read"@.len() == 15);
    assert("management_write"@.len() == 16);
}

/// A request is recorded to be about what it names: its group, its scope, its policy, its
/// resource, its release, its plan or its task, whatever it does to it.
pub proof fn requests_are_about_what_they_name(command: Command)
    ensures
        command matches Command::Group { id, .. } ==> command.spec_target() == Some(
            text_of(id.value),
        ),
        command matches Command::GroupRead { id } ==> command.spec_target() == Some(
            text_of(id.value),
        ),
        command matches Command::GroupPreview { id, .. } ==> command.spec_target() == Some(
            text_of(id.value),
        ),
        command matches Command::GroupPage { group, .. } ==> command.spec_target() == Some(
            text_of(group.value),
        ),
        command matches Command::Scope { id, .. } ==> command.spec_target() == Some(
            text_of(id.value),
        ),
        command matches Command::ScopeRead { id } ==> command.spec_target() == Some(
            text_of(id.value),
        ),
        command matches Command::ScopePage { scope, .. } ==> command.spec_target() == Some(
            text_of(scope.value),
        ),
        command matches Command::Policy { id, .. } ==> command.spec_target() == Some(id@),
        command matches Command::PolicyRead { id } ==> command.spec_target() == Some(id@),
        command matches Command::PolicyPage { policy, .. } ==> command.spec_target() == Some(
            policy@,
        ),
        command matches Command::Preview { id, .. } ==> command.spec_target() == Some(id@),
        command matches Command::Save { id, .. } ==> command.spec_target() == Some(id@),
        command matches Command::Resource { id, .. } ==> command.spec_target() == Some(id@),
        command matches Command::ResourceRead { id } ==> command.spec_target() == Some(id@),
        command matches Command::PublicationIntent { id, .. } ==> command.spec_target() == Some(
            id@,
        ),
        command matches Command::PlanRead { id } ==> command.spec_target() == Some(
            text_of(id.value),
        ),
        command matches Command::TaskRead { id, .. } ==> command.spec_target() == Some(
            text_of(id.value),
        ),
{
}

} // verus!
