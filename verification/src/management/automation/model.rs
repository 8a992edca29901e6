//! What durable jobs are given.
use crate::id::{text_of, Id};
use crate::management::assets::model::{Query, ReadScope};
use crate::management::model::{Reference, ScopeDefinition};
use vstd::prelude::*;

verus! {

/// The family of a job.
#[derive(Clone, Copy, Debug, PartialEq, Eq, Structural)]
pub enum TaskKind {
    AssetQuery,
    Group,
    Scope,
    Policy,
}

/// What a job is given.
#[allow(inconsistent_fields)]
#[derive(Debug)]
pub enum JobInput {
    AssetQuery { query: Query, scope: ReadScope, watermark: i64, as_of: i64 },
    Group { group: Id, watermark: i64, publish: bool, automatic: bool },
    Scope { scope: Id },
    Policy {
        policy: String,
        scope: Id,
        resolution: Id,
        assignment_revision: Option<i64>,
        expected_revision: u64,
        as_of: i64,
    },
}

impl JobInput {
    /// The family of the job.
    pub open spec fn family(self) -> TaskKind {
        match self {
            JobInput::AssetQuery { .. } => TaskKind::AssetQuery,
            JobInput::Group { .. } => TaskKind::Group,
            JobInput::Scope { .. } => TaskKind::Scope,
            JobInput::Policy { .. } => TaskKind::Policy,
        }
    }

    /// The name of the job's kind.
    pub open spec fn spec_kind(self) -> Seq<char> {
        match self {
            JobInput::AssetQuery { .. } => "asset_query"@,
            JobInput::Group { publish, .. } => if publish {
                "group"@
            } else {
                "group_preview"@
            },
            JobInput::Scope { .. } => "scope"@,
            JobInput::Policy { .. } => "policy"@,
        }
    }

    /// The name of the job's kind.
    pub fn kind(&self) -> (kind: &'static str)
        ensures
            kind@ == self.spec_kind(),
    {
        match self {
            JobInput::AssetQuery { .. } => "asset_query",
            JobInput::Group { publish: true, .. } => "group",
            JobInput::Group { publish: false, .. } => "group_preview",
            JobInput::Scope { .. } => "scope",
            JobInput::Policy { .. } => "policy",
        }
    }

    /// What the job is about.
    pub open spec fn spec_target(self) -> Seq<char> {
        match self {
            JobInput::AssetQuery { scope, .. } => scope.subject@,
            JobInput::Group { group, .. } => text_of(group.value),
            JobInput::Scope { scope } => text_of(scope.value),
            JobInput::Policy { policy, .. } => policy@,
        }
    }

    /// What the job is about.
    pub fn target(&self) -> (target: String)
        ensures
            target@ == self.spec_target(),
    {
        match self {
            JobInput::AssetQuery { scope, .. } => scope.subject.clone(),
            JobInput::Group { group, .. } => group.text(),
            JobInput::Scope { scope } => scope.text(),
            JobInput::Policy { policy, .. } => policy.clone(),
        }
    }
}

/// A source of a scope as it was captured: the set that its members are taken
/// from, and the versions of its members, its definition and its authority.
#[derive(Debug)]
pub struct SourceSet {
    pub reference: Reference,
    pub member_set: Option<Id>,
    pub member_version: u64,
    pub definition_version: u64,
    pub authority_version: u64,
}

/// A scope as it was captured.
#[derive(Debug)]
pub struct ScopeInput {
    pub definition: ScopeDefinition,
    pub sources: Vec<SourceSet>,
    pub as_of: i64,
}

/// Two jobs go by one kind exactly where they do one kind of work: a group that is only
/// looked at is no group that is published. What a job is about is its group, its
/// scope, its policy, or the reader of its query.
pub proof fn kinds_of_jobs_are_told_apart(one: JobInput, two: JobInput)
    ensures
        one.spec_kind() == two.spec_kind() <==> {
            &&& one is AssetQuery <==> two is AssetQuery
            &&& one is Group <==> two is Group
            &&& one is Scope <==> two is Scope
            &&& one is Policy <==> two is Policy
            &&& one matches JobInput::Group { publish, .. } ==> (two matches JobInput::Group {
                publish: other,
                ..
            } && publish == other)
        },
        one matches JobInput::Group { publish, .. } ==> (one.spec_kind() == "group"@ <==> publish),
        one.family() == two.family() <==> {
            &&& one is AssetQuery <==> two is AssetQuery
            &&& one is Group <==> two is Group
            &&& one is Scope <==> two is Scope
            &&& one is Policy <==> two is Policy
        },
        one.family() == TaskKind::Group <==> one is Group,
        one.family() == TaskKind::Scope <==> one is Scope,
        one.family() == TaskKind::Policy <==> one is Policy,
        one matches JobInput::Group { group, .. } ==> one.spec_target() == text_of(group.value),
        one matches JobInput::Scope { scope } ==> one.spec_target() == text_of(scope.value),
        one matches JobInput::Policy { policy, .. } ==> one.spec_target() == policy@,
        one matches JobInput::AssetQuery { scope, .. } ==> one.spec_target() == scope.subject@,
{
    reveal_strlit("asset_query");
    reveal_strlit("group");
    reveal_strlit("group_preview");
    reveal_strlit("scope");
    reveal_strlit("policy");
    assert("asset_query"@.len() == 11 && "group"@.len() == 5 && "group_preview"@.len() == 13);
    assert("scope"@.len() == 5 && "policy"@.len() == 6);
    assert("group"@[0] == 'g' && "scope"@[0] == 's');
}

} // verus!
