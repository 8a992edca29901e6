//! Who is a member of what a scope names, and what a resolved scope rests on.
use crate::error::{Error, Failure};
use crate::id::{text_denotes_its_identifier, text_of, Id};
use crate::management::automation::device_reference_of;
use crate::management::automation::groups::{reference_of, GroupKind};
use crate::management::automation::model::{JobInput, SourceSet};
use crate::management::automation::scopes::{
    all_current, all_references, captured_group, comes_from, evaluation_limit_of,
    is_decidable, is_hit,
    is_matched,
    memberships_of, references_of, scope_step_of, source_references, source_version, targets_of,
    planned_now, plans_anew, tells, yes_in, AssignedPolicy, AssignmentReference, DeviceFinding,
    GroupFinding, Hit, Membership, ScopeStep, SourceDevices, EVALUATED_AT_ONCE,
    MEMBERSHIPS_AT_ONCE, PLANNED_AT_ONCE,
};
use crate::management::model::{Reference, ReferenceView};
use crate::management::pages::scope::{Identity, ScopeDecision};
use crate::management::request::group_refusal;
use crate::pick::{alike, number, one_more, picks};
use vstd::prelude::*;

verus! {

/// Whether the source at a position is one of those that `references` name.
pub open spec fn is_among(sources: Seq<SourceSet>, references: Seq<ReferenceView>) -> spec_fn(
    int,
) -> bool {
    |i: int| references.contains(sources[i].reference@)
}

/// Of every source that a scope names there is one answer, and of no other: it is of
/// that source, at the version that was captured, and says that the device is a
/// member exactly where it was found among the source's members, be the source a
/// group or a device. The answer is where each of the sources stood.
pub proof fn answers_say_who_is_a_member(
    sources: Seq<SourceSet>,
    references: Seq<ReferenceView>,
    hits: Seq<usize>,
) -> (at: Seq<int>)
    requires
        sources.len() <= usize::MAX,
        forall|i: int|
            0 <= i < sources.len() ==> source_version(#[trigger] sources[i]) <= u64::MAX,
    ensures
        picks(at, sources.len() as int, is_among(sources, references)),
        memberships_of(sources, references, hits).len() == at.len(),
        forall|k: int|
            0 <= k < at.len() ==> (#[trigger] memberships_of(sources, references, hits)[k]).source
                == at[k],
        forall|k: int|
            0 <= k < at.len() ==> ((#[trigger] memberships_of(
                sources,
                references,
                hits,
            )[k]).contains <==> hits.contains(at[k] as usize)),
        forall|k: int|
            0 <= k < at.len() ==> (sources[at[k]].reference is Group ==> (
            #[trigger] memberships_of(sources, references, hits)[k]).version
                == sources[at[k]].member_version + 1),
        forall|k: int|
            0 <= k < at.len() ==> (sources[at[k]].reference is Device ==> (
            #[trigger] memberships_of(sources, references, hits)[k]).version == (if sources[at[k]].authority_version
                == 0 {
                1u64
            } else {
                sources[at[k]].authority_version
            })),
    decreases sources.len(),
{
    if sources.len() == 0 {
        Seq::empty()
    } else {
        let last = sources.len() - 1;
        let fewer = sources.drop_last();
        assert forall|i: int| 0 <= i < fewer.len() implies source_version(#[trigger] fewer[i])
            <= u64::MAX by {
            assert(fewer[i] == sources[i]);
        }
        let at = answers_say_who_is_a_member(fewer, references, hits);
        let (one, two) = (is_among(fewer, references), is_among(sources, references));
        assert forall|i: int| 0 <= i < last implies #[trigger] one(i) == two(i) by {
            assert(fewer[i] == sources[i]);
        }
        alike(at, last as nat, one, two);
        one_more(at, last, two);
        assert(source_version(sources[last]) <= u64::MAX);
        let before = memberships_of(fewer, references, hits);
        let all = memberships_of(sources, references, hits);
        assert forall|k: int| 0 <= k < at.len() implies #[trigger] all[k] == before[k]
            && fewer[at[k]] == sources[at[k]] by {}
        if two(last) {
            at.push(last)
        } else {
            at
        }
    }
}

/// What a scope says of a device follows from the members that were taken on: of a
/// source that the scope names it says that the device is a member exactly where
/// the device was taken on as a member of that source.
pub proof fn answers_follow_from_the_members_taken_on(
    sources: Seq<SourceSet>,
    references: Seq<ReferenceView>,
    rows: Seq<Hit>,
    device: Seq<char>,
    hits: Seq<usize>,
    answer: Membership,
)
    requires
        sources.len() <= usize::MAX,
        forall|i: int|
            0 <= i < sources.len() ==> source_version(#[trigger] sources[i]) <= u64::MAX,
        forall|source: usize| #[trigger]
            hits.contains(source) <==> is_hit(rows, device, source),
        memberships_of(sources, references, hits).contains(answer),
    ensures
        answer.source < sources.len(),
        references.contains(sources[answer.source as int].reference@),
        answer.contains <==> exists|i: int|
            0 <= i < rows.len() && (#[trigger] rows[i]).device@ == device && rows[i].source
                == answer.source,
{
    let at = answers_say_who_is_a_member(sources, references, hits);
    let all = memberships_of(sources, references, hits);
    let k = all.index_of(answer);
    assert(all[k] == answer);
    assert(is_among(sources, references)(at[k]));
    assert(hits.contains(answer.source) <==> is_hit(rows, device, answer.source));
}

/// The devices that a scope considers are those of the sources that it targets, each
/// source once and in order, and of no others.
pub proof fn only_targets_are_considered(sources: Seq<SourceSet>, targets: Seq<ReferenceView>) -> (at:
    Seq<int>)
    requires
        sources.len() <= usize::MAX,
    ensures
        picks(at, sources.len() as int, is_among(sources, targets)),
        targets_of(sources, targets).len() == at.len(),
        forall|k: int| 0 <= k < at.len() ==> #[trigger] targets_of(sources, targets)[k] == at[k],
    decreases sources.len(),
{
    if sources.len() == 0 {
        Seq::empty()
    } else {
        let last = sources.len() - 1;
        let fewer = sources.drop_last();
        let at = only_targets_are_considered(fewer, targets);
        let (one, two) = (is_among(fewer, targets), is_among(sources, targets));
        assert forall|i: int| 0 <= i < last implies #[trigger] one(i) == two(i) by {
            assert(fewer[i] == sources[i]);
        }
        alike(at, last as nat, one, two);
        one_more(at, last, two);
        let before = targets_of(fewer, targets);
        let all = targets_of(sources, targets);
        assert forall|k: int| 0 <= k < at.len() implies #[trigger] all[k] == before[k] by {}
        if two(last) {
            at.push(last)
        } else {
            at
        }
    }
}

/// Whether an answer is yes.
pub open spec fn is_yes(answers: Seq<bool>) -> spec_fn(int) -> bool {
    |i: int| answers[i]
}

/// A scope reaches a device exactly where the device is registered and nothing speaks
/// against it; what is recorded of it tells which, with the reasons that were found
/// and the sources that it is a member of; and as many members are counted as
/// devices are reached.
pub proof fn devices_are_reached_unless_something_speaks_against_it(
    finding: DeviceFinding,
    decision: ScopeDecision,
    answers: Seq<bool>,
)
    requires
        tells(decision, finding),
    ensures
        is_matched(finding) <==> finding.live && decision.reasons@.len() == 0,
        decision.device@ == finding.device@,
        decision.identity == Identity::Active <==> finding.live,
        finding.reasons == Some(decision.reasons),
        decision.sources@ == finding.sources@,
        yes_in(answers) == number(answers.len(), is_yes(answers)),
    decreases answers.len(),
{
    if answers.len() > 0 {
        let fewer = answers.drop_last();
        devices_are_reached_unless_something_speaks_against_it(finding, decision, fewer);
        alike(Seq::empty(), fewer.len(), is_yes(fewer), is_yes(answers));
    }
}

/// A group that a scope names is captured as itself, with the members and at the
/// versions that were found: of its members, of its definition and of the identities
/// behind them. It is captured only where it is there, where policies know of it,
/// and, if a rule decides its members, where they were computed by the rule that now
/// holds.
pub proof fn groups_are_captured_as_they_are(id: Id, finding: GroupFinding)
    ensures
        captured_group(id, finding) matches Ok(source) ==> {
            &&& source.reference == Reference::Group(id)
            &&& source.member_set == finding.member_set
            &&& finding.lock matches Ok(group) && source.member_version == group.member_version
            &&& finding.definition == Some(source.definition_version)
            &&& finding.authority == Some(source.authority_version)
        },
        captured_group(id, finding) is Ok <==> (finding.lock matches Ok(group) && (group.kind
            == GroupKind::Dynamic ==> finding.member_set is Some && finding.built_rule
            == group.rule_version) && finding.definition is Some && finding.authority is Some),
{
}

/// Whether a resolved scope rests on something at a version.
pub open spec fn rests_on(
    scope: Id,
    revision: u64,
    sources: Seq<SourceSet>,
    name: Seq<char>,
    version: u64,
) -> bool {
    references_of(scope, revision, sources).contains((name, version))
}

proof fn references_are_collected(sources: Seq<SourceSet>, i: int, one: (Seq<char>, u64))
    requires
        0 <= i < sources.len(),
        source_references(sources[i]).contains(one),
    ensures
        all_references(sources).contains(one),
    decreases sources.len(),
{
    let fewer = sources.drop_last();
    let before = all_references(fewer);
    let own = source_references(sources.last());
    let all = before + own;
    if i < fewer.len() {
        references_are_collected(fewer, i, one);
        let k = before.index_of(one);
        assert(all[k] == one);
    } else {
        let k = own.index_of(one);
        assert(all[before.len() + k] == one);
    }
}

/// A resolved scope rests on its own definition and, for every group that it names,
/// on the definition, on the members and on the identities behind them, each at the
/// version that was captured; for every device that it names, on the identity of the
/// device. So none of them changes without the scope being found out of date.
pub proof fn scopes_rest_on_everything_they_were_resolved_from(
    scope: Id,
    revision: u64,
    sources: Seq<SourceSet>,
    i: int,
)
    requires
        0 <= i < sources.len(),
    ensures
        rests_on(scope, revision, sources, reference_of("scope-definition."@, scope), revision),
        sources[i].reference matches Reference::Group(group) ==> {
            &&& rests_on(
                scope,
                revision,
                sources,
                reference_of("group-definition."@, group),
                sources[i].definition_version,
            )
            &&& rests_on(
                scope,
                revision,
                sources,
                reference_of("group-members."@, group),
                sources[i].member_version,
            )
            &&& rests_on(
                scope,
                revision,
                sources,
                reference_of("group-authority."@, group),
                sources[i].authority_version,
            )
        },
        sources[i].reference matches Reference::Device(device) ==> rests_on(
            scope,
            revision,
            sources,
            device_reference_of(device@),
            sources[i].authority_version,
        ),
{
    let all = references_of(scope, revision, sources);
    let rest = all_references(sources);
    assert(all[0] == (reference_of("scope-definition."@, scope), revision));
    let own = source_references(sources[i]);
    assert forall|k: int| 0 <= k < own.len() implies all.contains(#[trigger] own[k]) by {
        assert(own.contains(own[k]));
        references_are_collected(sources, i, own[k]);
        let n = rest.index_of(own[k]);
        assert(all[n + 1] == own[k]);
    }
    match sources[i].reference {
        Reference::Group(_) => {
            assert(all.contains(own[0]) && all.contains(own[1]) && all.contains(own[2]));
        },
        Reference::Device(_) => {
            assert(all.contains(own[0]));
        },
    }
}

/// Where the devices of a source come from: those of a device are the device itself,
/// once; those of a group are the members of the set that was captured, and none
/// where no set was.
pub proof fn sources_have_their_own_devices(
    devices: SourceDevices,
    sources: Seq<SourceSet>,
    index: int,
    after: bool,
)
    requires
        0 <= index <= sources.len(),
        comes_from(devices, sources, index, after),
    ensures
        devices is Complete <==> index == sources.len(),
        devices matches SourceDevices::Members(run) ==> sources[index].reference is Group
            && sources[index].member_set == Some(run),
        index < sources.len() && sources[index].reference is Group && sources[index].member_set is Some
            ==> devices is Members,
        devices matches SourceDevices::Known(known) ==> known@.len() == (if !after
            && sources[index].reference is Device {
            1nat
        } else {
            0
        }) && (known@.len() == 1 ==> sources[index].reference == Reference::Device(known@[0])),
{
}

/// A scope goes through its phases one after the other: it is captured first, its
/// sources are taken on, its devices evaluated, the result published and policies
/// told of it; no phase leads to another's work, and one that is not known is an
/// error.
pub proof fn phases_lead_to_their_own_work(phase: Option<Seq<char>>)
    ensures
        scope_step_of(phase) == Ok::<ScopeStep, Error>(ScopeStep::Capture) <==> phase is None,
        scope_step_of(phase) == Ok::<ScopeStep, Error>(ScopeStep::Sources) <==> phase == Some(
            "sources"@,
        ),
        scope_step_of(phase) == Ok::<ScopeStep, Error>(ScopeStep::Evaluate) <==> phase == Some(
            "evaluate"@,
        ),
        scope_step_of(phase) == Ok::<ScopeStep, Error>(ScopeStep::Publish) <==> phase == Some(
            "ready"@,
        ),
        scope_step_of(phase) == Ok::<ScopeStep, Error>(ScopeStep::Propagate) <==> phase == Some(
            "published"@,
        ),
        scope_step_of(phase) == Ok::<ScopeStep, Error>(ScopeStep::Supersede) <==> phase == Some(
            "superseded"@,
        ),
        scope_step_of(phase) matches Err(error) ==> error == Error::Unavailable(
            Failure::ManagementStorage,
        ),
{
    reveal_strlit("sources");
    reveal_strlit("evaluate");
    reveal_strlit("ready");
    reveal_strlit("published");
    reveal_strlit("superseded");
    assert("sources"@.len() == 7 && "evaluate"@.len() == 8 && "ready"@.len() == 5);
    assert("published"@.len() == 9 && "superseded"@.len() == 10);
}

/// As many devices are evaluated at once as may be: with one more there would be too many, or
/// too many memberships.
pub proof fn evaluation_is_as_large_as_it_may_be(sources: usize)
    requires
        1 <= sources,
    ensures
        evaluation_limit_of(sources) == EVALUATED_AT_ONCE || (evaluation_limit_of(sources) + 1)
            * sources > MEMBERSHIPS_AT_ONCE,
        EVALUATED_AT_ONCE == 1000 && MEMBERSHIPS_AT_ONCE == 16 * EVALUATED_AT_ONCE,
{
    if sources > 16 {
        let limit = evaluation_limit_of(sources) as int;
        vstd::arithmetic::div_mod::lemma_fundamental_div_mod(16000, sources as int);
        vstd::arithmetic::div_mod::lemma_mod_bound(16000, sources as int);
        assert((limit + 1) * sources > 16000) by (nonlinear_arith)
            requires
                16000 == sources * limit + 16000int % (sources as int),
                16000int % (sources as int) < sources,
        ;
    }
}

/// A policy is planned anew on the scope's new resolution, as it is assigned and at its own
/// revision, and no more of them are at once than may be.
pub proof fn policies_are_planned_on_the_new_resolution(
    job: JobInput,
    row: AssignedPolicy,
    scope: Id,
    task: Id,
    as_of: i64,
    rows: int,
)
    requires
        plans_anew(job, row, scope, task, as_of),
        0 <= rows,
    ensures
        job matches JobInput::Policy {
            policy,
            scope: of,
            resolution,
            assignment_revision,
            expected_revision,
            as_of: at,
        } && policy == row.policy && of == scope && resolution == task && assignment_revision
            == Some(row.revision) && row.storage_revision == Some(expected_revision) && at == as_of,
        planned_now(rows) <= rows && planned_now(rows) <= PLANNED_AT_ONCE,
        planned_now(rows) == rows || planned_now(rows) == PLANNED_AT_ONCE,
{
}

/// A resolved scope is published only where everything that it rests on is still at the
/// version that it was resolved from.
pub proof fn scopes_are_published_on_what_still_holds(
    references: Seq<AssignmentReference>,
    found: Seq<Option<u64>>,
    at: int,
)
    requires
        found.len() == references.len(),
        0 <= at < references.len(),
    ensures
        all_current(references, found) ==> found[at] == Some(references[at].revision),
        found[at] != Some(references[at].revision) ==> !all_current(references, found),
        found[at] is None ==> !all_current(references, found),
{
}

/// A device is decided on only where it is a member of something and the reasons against it
/// could be told.
pub proof fn devices_are_decided_on_what_is_known(finding: DeviceFinding)
    ensures
        finding.reasons is None ==> !is_decidable(finding) && !is_matched(finding),
        finding.sources@.len() == 0 ==> !is_decidable(finding),
        finding.reasons is Some && finding.sources@.len() > 0 ==> is_decidable(finding),
        !finding.live ==> !is_matched(finding),
{
}

/// A group that cannot be captured is missing where it is missing, at fault in the store where
/// its members are not computed by the rule that now holds, and in conflict where policies
/// do not know of it.
pub proof fn groups_are_not_captured_for_a_reason(id: Id, finding: GroupFinding)
    ensures
        finding.lock matches Err(rejection) ==> captured_group(id, finding) == Err::<
            SourceSet,
            Error,
        >(group_refusal(rejection)),
        finding.lock matches Ok(group) ==> {
            let outdated = group.kind == GroupKind::Dynamic && (finding.member_set is None
                || finding.built_rule != group.rule_version);
            &&& outdated ==> captured_group(id, finding) == Err::<SourceSet, Error>(
                Error::Unavailable(Failure::ManagementStorage),
            )
            &&& !outdated && (finding.definition is None || finding.authority is None)
                ==> captured_group(id, finding) == Err::<SourceSet, Error>(Error::Conflict)
        },
{
}

/// What policies refer to by name is one thing: two names of one kind are one exactly where
/// they are of one identifier.
pub proof fn names_refer_to_one_thing(what: Seq<char>, one: Id, two: Id)
    ensures
        reference_of(what, one) == reference_of(what, two) <==> one == two,
        reference_of(what, one).take(what.len() as int) == what,
{
    assert(reference_of(what, one).take(what.len() as int) =~= what);
    assert(reference_of(what, one).skip(what.len() as int) =~= text_of(one.value));
    assert(reference_of(what, two).skip(what.len() as int) =~= text_of(two.value));
    text_denotes_its_identifier(one.value);
    text_denotes_its_identifier(two.value);
}

} // verus!
