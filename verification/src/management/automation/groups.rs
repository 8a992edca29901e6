//! Jobs that compute the members of groups.
use crate::error::{Error, Failure};
use crate::id::{text_of, Id};
use crate::management::assets::meaning::{written_holds, Question};
use crate::management::assets::model::Criteria;
use crate::management::automation::dispatch::resolves;
use crate::management::automation::model::JobInput;
use crate::management::request::{group_checked, group_refusal, GroupRejection};
use crate::number::{integer_of, integer_reads_back, parse_integer, signed, signed_of};
use crate::set::OrderedSet;
use crate::text::{join, strip_prefix};
use vstd::prelude::*;

verus! {

/// Whether the members of a group are listed, or computed by a rule.
#[derive(Clone, Copy, Debug, PartialEq, Eq, Structural)]
pub enum GroupKind {
    Static,
    Dynamic,
}

/// A group that no other transaction changes.
#[derive(Clone, Copy, Debug, PartialEq, Eq, Structural)]
pub struct LockedGroup {
    pub kind: GroupKind,
    pub revision: u64,
    pub rule_version: Option<i64>,
    pub member_version: u64,
}

/// Members that are added to and removed from a group by hand.
#[derive(Debug)]
pub struct MemberPatch {
    pub add: Vec<String>,
    pub remove: Vec<String>,
}

impl MemberPatch {
    /// Whether the patch changes no members.
    pub open spec fn is_empty(self) -> bool {
        self.add@.len() == 0 && self.remove@.len() == 0
    }
}

/// What starts a job that computes a group.
#[derive(Debug)]
pub struct GroupStart {
    pub id: Id,
    pub task: Id,
    pub expected: u64,
    pub patch: Option<MemberPatch>,
    pub publish: bool,
    pub automatic: bool,
    pub at: i64,
}

impl GroupStart {
    /// Whether this computes and publishes a group as it now is: the members that
    /// are listed are kept, those that a rule decides are decided.
    pub open spec fn restarts(self, group: Id, current: LockedGroup, task: Id, at: i64) -> bool {
        &&& self.id == group
        &&& self.task == task
        &&& self.expected == current.revision
        &&& self.patch is Some <==> current.kind == GroupKind::Static
        &&& self.patch matches Some(patch) ==> patch.is_empty()
        &&& self.publish
        &&& self.automatic
        &&& self.at == at
    }

    /// Computes and publishes a group because someone asked for it, with members
    /// added and removed by hand where there are any.
    pub fn asked(
        group: Id,
        task: Id,
        expected: u64,
        members: Option<(Vec<String>, Vec<String>)>,
        at: i64,
    ) -> (start: GroupStart)
        ensures
            start.id == group,
            start.task == task,
            start.expected == expected,
            match members {
                Some((add, remove)) => start.patch == Some(MemberPatch { add, remove }),
                None => start.patch is None,
            },
            start.publish,
            !start.automatic,
            start.at == at,
    {
        let patch = match members {
            Some((add, remove)) => Some(MemberPatch { add, remove }),
            None => None,
        };
        GroupStart { id: group, task, expected, patch, publish: true, automatic: false, at }
    }

    /// Computes a group to look at, without publishing it.
    pub fn preview(group: Id, task: Id, expected: u64, at: i64) -> (start: GroupStart)
        ensures
            start == (GroupStart {
                id: group,
                task,
                expected,
                patch: None,
                publish: false,
                automatic: false,
                at,
            }),
    {
        GroupStart { id: group, task, expected, patch: None, publish: false, automatic: false, at }
    }

    /// Computes and publishes a group because its rule was changed.
    pub fn follow_rule(group: Id, task: Id, revision: u64, at: i64) -> (start: GroupStart)
        ensures
            start == (GroupStart {
                id: group,
                task,
                expected: revision,
                patch: None,
                publish: true,
                automatic: true,
                at,
            }),
    {
        GroupStart {
            id: group,
            task,
            expected: revision,
            patch: None,
            publish: true,
            automatic: true,
            at,
        }
    }

    /// Computes and publishes a group as it now is.
    pub fn restart(group: Id, current: LockedGroup, task: Id, at: i64) -> (start: GroupStart)
        ensures
            start.restarts(group, current, task, at),
    {
        GroupStart {
            id: group,
            task,
            expected: current.revision,
            patch: if current.kind == GroupKind::Static {
                Some(MemberPatch { add: Vec::new(), remove: Vec::new() })
            } else {
                None
            },
            publish: true,
            automatic: true,
            at,
        }
    }
}

/// The name that policies refer to something of a group by.
pub open spec fn reference_of(what: Seq<char>, id: Id) -> Seq<char> {
    what + text_of(id.value)
}

/// The name that policies refer to something of a group by.
pub fn reference(what: &str, id: Id) -> (name: String)
    ensures
        name@ == reference_of(what@, id),
{
    let text = id.text();
    join(what, text.as_str())
}

/// The version of the input that a group is computed from: the assets as they
/// are at a watermark.
pub open spec fn input_version_of(watermark: i64) -> Seq<char> {
    "assets:"@ + signed_of(watermark as int)
}

/// The watermark that a version of an input was taken at, where it names one.
pub open spec fn watermark_of(version: Seq<char>) -> Option<i64> {
    if version.len() >= 7 && version.take(7) == "assets:"@ {
        integer_of(version.skip(7))
    } else {
        None
    }
}

/// The version of the input that a group is computed from.
pub fn input_version(watermark: i64) -> (version: String)
    ensures
        version@ == input_version_of(watermark),
{
    let text = signed(watermark);
    join("assets:", text.as_str())
}

/// The watermark that a version of an input was taken at, where it names one.
pub fn watermark(version: &str) -> (watermark: Option<i64>)
    ensures
        watermark == watermark_of(version@),
{
    proof {
        reveal_strlit("assets:");
    }
    match strip_prefix(version, "assets:") {
        Some(rest) => {
            assert(version@.skip(7) =~= rest@);
            assert(version@.take(7) =~= "assets:"@);
            parse_integer(rest)
        },
        None => None,
    }
}

/// The watermark that an input was taken at is read back from its version.
pub proof fn watermark_reads_back(watermark: i64)
    ensures
        watermark_of(input_version_of(watermark)) == Some(watermark),
{
    reveal_strlit("assets:");
    let version = input_version_of(watermark);
    assert(version.skip(7) =~= signed_of(watermark as int));
    assert(version.take(7) =~= "assets:"@);
    integer_reads_back(watermark);
}

/// What the group store is asked to build.
#[derive(Debug)]
pub struct BuildRequest {
    pub id: Id,
    pub group: Id,
    pub expected: u64,
    pub rule_version: Option<i64>,
    pub patch: Option<MemberPatch>,
    pub input_version: String,
    pub as_of: i64,
}

/// A job that computes a group, and what the group store is asked to build. Where
/// policies have to wait for the result, `required` names what they refer to and
/// the input that it has to be computed from.
#[derive(Debug)]
pub struct GroupJob {
    pub request: BuildRequest,
    pub required: Option<(String, u64)>,
    pub input: JobInput,
}

/// Whether `job` computes a group from the assets at a watermark.
pub open spec fn is_group_job(
    job: GroupJob,
    start: GroupStart,
    current: LockedGroup,
    watermark: i64,
) -> bool {
    &&& job.request.id == start.task
    &&& job.request.group == start.id
    &&& job.request.expected == current.revision
    &&& job.request.rule_version == current.rule_version
    &&& job.request.patch == start.patch
    &&& job.request.input_version@ == input_version_of(watermark)
    &&& job.request.as_of == start.at
    &&& match job.required {
        Some((name, version)) => start.publish && start.automatic && name@ == reference_of(
            "group-members."@,
            start.id,
        ) && version == watermark as u64,
        None => !(start.publish && start.automatic),
    }
    &&& job.input == JobInput::Group {
        group: start.id,
        watermark,
        publish: start.publish,
        automatic: start.automatic,
    }
}

/// Starts a job that computes a group at the revision that is expected of it.
pub fn start_group_job(
    start: GroupStart,
    lock: Result<LockedGroup, GroupRejection>,
    watermark: i64,
) -> (job: Result<GroupJob, Error>)
    ensures
        match lock {
            Err(rejection) => job == Err::<GroupJob, Error>(group_refusal(rejection)),
            Ok(current) => if current.revision != start.expected {
                job == Err::<GroupJob, Error>(Error::Conflict)
            } else {
                job matches Ok(job) && is_group_job(job, start, current, watermark)
            },
        },
{
    let current = match group_checked(lock) {
        Ok(current) => current,
        Err(error) => return Err(error),
    };
    if current.revision != start.expected {
        return Err(Error::Conflict);
    }
    let required = if start.publish && start.automatic {
        Some((reference("group-members.", start.id), watermark as u64))
    } else {
        None
    };
    let input = JobInput::Group {
        group: start.id,
        watermark,
        publish: start.publish,
        automatic: start.automatic,
    };
    Ok(
        GroupJob {
            request: BuildRequest {
                id: start.task,
                group: start.id,
                expected: current.revision,
                rule_version: current.rule_version,
                patch: start.patch,
                input_version: input_version(watermark),
                as_of: start.at,
            },
            required,
            input,
        },
    )
}

/// The input and the rule that the members of a group were computed from.
#[derive(Debug)]
pub struct Built {
    pub input_version: String,
    pub rule_version: Option<i64>,
}

/// Whether the published members of a group cover changes up to a watermark.
pub open spec fn covers_of(
    built: Option<Built>,
    current: LockedGroup,
    watermark: i64,
) -> Result<bool, Error> {
    match built {
        None => Ok(false),
        Some(built) => match watermark_of(built.input_version@) {
            None => Err(Error::Unavailable(Failure::ManagementStorage)),
            Some(observed) => Ok(
                observed >= watermark && built.rule_version == current.rule_version,
            ),
        },
    }
}

/// Whether the published members of a group cover changes up to a watermark: they
/// were computed from an input that is as new, by the rule that now holds.
pub fn group_covers(built: &Option<Built>, current: LockedGroup, at: i64) -> (covers: Result<
    bool,
    Error,
>)
    ensures
        covers == covers_of(*built, current, at),
{
    let built = match built {
        Some(built) => built,
        None => return Ok(false),
    };
    match watermark(built.input_version.as_str()) {
        None => Err(Error::Unavailable(Failure::ManagementStorage)),
        Some(observed) => {
            let same_rule = match (built.rule_version, current.rule_version) {
                (Some(a), Some(b)) => a == b,
                (None, None) => true,
                _ => false,
            };
            Ok(observed >= at && same_rule)
        },
    }
}

/// The job that takes the place of one that was superseded, where one is needed:
/// only for a job that publishes by itself, of a group that is still there, whose
/// published members do not cover what the job was to cover, and for which no
/// other job is under way.
pub fn retry_superseded_group(
    job: &JobInput,
    lock: Result<LockedGroup, GroupRejection>,
    built: &Option<Built>,
    exists: bool,
    task: Id,
    at: i64,
) -> (start: Result<Option<GroupStart>, Error>)
    ensures
        match *job {
            JobInput::Group { group, watermark, publish, automatic } => if !(publish && automatic) {
                start matches Ok(None)
            } else {
                match lock {
                    Err(GroupRejection::NotFound) | Err(GroupRejection::Deleted) => start matches Ok(
                        None,
                    ),
                    Err(_) => start == Err::<Option<GroupStart>, Error>(Error::Conflict),
                    Ok(current) => match covers_of(*built, current, watermark) {
                        Err(error) => start == Err::<Option<GroupStart>, Error>(error),
                        Ok(covered) => if covered || exists {
                            start matches Ok(None)
                        } else {
                            start matches Ok(Some(start)) && start.restarts(
                                group,
                                current,
                                task,
                                at,
                            )
                        },
                    },
                }
            },
            _ => start matches Ok(None),
        },
{
    let (group, watermark) = match job {
        JobInput::Group { group, watermark, publish: true, automatic: true } => (
            *group,
            *watermark,
        ),
        _ => return Ok(None),
    };
    let current = match lock {
        Ok(current) => current,
        Err(GroupRejection::NotFound) | Err(GroupRejection::Deleted) => return Ok(None),
        Err(_) => return Err(Error::Conflict),
    };
    match group_covers(built, current, watermark) {
        Err(error) => Err(error),
        Ok(covered) => if covered || exists {
            Ok(None)
        } else {
            Ok(Some(GroupStart::restart(group, current, task, at)))
        },
    }
}

/// How many devices a page of a group's input is first tried with.
pub const FIRST_PAGE: usize = 1000;

/// What is done with a page of a group's input.
#[derive(Clone, Copy, Debug, PartialEq, Eq, Structural)]
pub struct Append {
    /// Whether there is anything to append.
    pub append: bool,
    /// How many objects the input has altogether, where this was the last page.
    pub seal: Option<usize>,
}

/// What is done with a page of a group's input: `objects` were appended before
/// it, and `last` says whether no page follows. A group has a bounded number of
/// members.
pub fn append_group_input(objects: usize, page: usize, last: bool, max_members: usize) -> (append:
    Result<Append, Error>)
    ensures
        match append {
            Ok(append) => {
                &&& objects + page <= max_members
                &&& append.append == (page > 0)
                &&& append.seal == if last {
                    Some((objects + page) as usize)
                } else {
                    None
                }
            },
            Err(error) => objects + page > max_members && error == Error::Unavailable(
                Failure::AssetObjectLimit,
            ),
        },
{
    if objects > max_members || page > max_members - objects {
        return Err(Error::Unavailable(Failure::AssetObjectLimit));
    }
    Ok(
        Append {
            append: page > 0,
            seal: if last {
                Some(objects + page)
            } else {
                None
            },
        },
    )
}

/// How far the computation of a group has come.
#[derive(Clone, Copy, Debug, PartialEq, Eq, Structural)]
pub struct Build {
    /// Whether its result was published.
    pub published: bool,
    /// Whether its input is complete.
    pub sealed: bool,
    /// Whether the difference to the published members is known.
    pub ready: bool,
    /// Whether members are listed rather than computed.
    pub patched: bool,
}

/// The next step of a job that computes a group.
#[derive(Clone, Copy, Debug, PartialEq, Eq, Structural)]
pub enum GroupStep {
    /// The listed members are taken on.
    AppendListed,
    /// A page of the assets is taken on.
    AppendAssets,
    /// The difference to the published members is worked out.
    Difference,
    /// The job is over without being published.
    Finish,
    /// The result is published.
    Publish,
    /// The scopes that name the group are resolved anew.
    Propagate,
}

/// The next step of a job that computes a group.
pub open spec fn group_step(build: Build, publish: bool) -> GroupStep {
    if build.published {
        GroupStep::Propagate
    } else if !build.sealed {
        if build.patched {
            GroupStep::AppendListed
        } else {
            GroupStep::AppendAssets
        }
    } else if !build.ready {
        GroupStep::Difference
    } else if !publish {
        GroupStep::Finish
    } else {
        GroupStep::Publish
    }
}

/// The next step of a job that computes a group.
pub fn advance_group_job(build: Build, publish: bool) -> (step: GroupStep)
    ensures
        step == group_step(build, publish),
{
    if build.published {
        return GroupStep::Propagate;
    }
    if !build.sealed {
        return if build.patched {
            GroupStep::AppendListed
        } else {
            GroupStep::AppendAssets
        };
    }
    if !build.ready {
        return GroupStep::Difference;
    }
    if publish {
        GroupStep::Publish
    } else {
        GroupStep::Finish
    }
}

/// What was only previewed is never published, and nothing is published before it
/// is complete.
pub proof fn previews_are_not_published(build: Build, publish: bool)
    ensures
        group_step(build, publish) is Publish ==> publish && build.sealed && build.ready
            && !build.published,
{
}

/// The version of the identities behind a group's members, once the group is
/// published: it never goes back. `known` is the version that policies know.
pub fn next_authority(known: Option<u64>, found: i64) -> (next: Result<u64, Error>)
    ensures
        next == (match known {
            None => Err::<u64, Error>(Error::Conflict),
            Some(known) => Ok(if known >= found as u64 {
                known
            } else {
                found as u64
            }),
        }),
{
    match known {
        None => Err(Error::Conflict),
        Some(known) => {
            let found: u64 = found as u64;
            Ok(if known >= found {
                known
            } else {
                found
            })
        },
    }
}

/// The version of its input that a published group acknowledges: what it was
/// computed from.
pub open spec fn acknowledged_version(watermark: i64) -> u64 {
    watermark as u64
}

/// What a published group acknowledges: the name that its members are known by,
/// and the input that they were computed from.
pub fn acknowledged(group: Id, watermark: i64) -> (input: (String, u64))
    ensures
        input.0@ == reference_of("group-members."@, group),
        input.1 == acknowledged_version(watermark),
{
    (reference("group-members.", group), watermark as u64)
}

/// Publishing an old result never acknowledges newer input: what changed behind
/// the watermark that it was computed at is above the version that is acknowledged.
pub proof fn newer_input_is_not_acknowledged(watermark: i64, changed: i64)
    requires
        0 <= watermark < changed,
    ensures
        acknowledged_version(watermark) < acknowledged_version(changed),
        acknowledged_version(watermark) == watermark,
{
}

/// The job that follows a published one, where the assets have changed meanwhile:
/// what was computed from an older input does not stand for the newer one.
/// `revision` is what the group came to.
pub fn follow_published(
    id: Id,
    dirty: bool,
    automatic: bool,
    patched: bool,
    revision: u64,
    task: Id,
    at: i64,
) -> (start: Option<GroupStart>)
    ensures
        match start {
            Some(start) => {
                &&& dirty && automatic
                &&& start.id == id
                &&& start.task == task
                &&& start.expected == revision
                &&& start.patch is Some <==> patched
                &&& start.patch matches Some(patch) ==> patch.is_empty()
                &&& start.publish
                &&& start.automatic
                &&& start.at == at
            },
            None => !(dirty && automatic),
        },
{
    if !dirty || !automatic {
        return None;
    }
    Some(
        GroupStart {
            id,
            task,
            expected: revision,
            patch: if patched {
                Some(MemberPatch { add: Vec::new(), remove: Vec::new() })
            } else {
                None
            },
            publish: true,
            automatic: true,
            at,
        },
    )
}

/// The most scopes that are resolved anew at once.
pub const PROPAGATED_AT_ONCE: usize = 64;

/// The scopes that are resolved anew now that a group is published, and behind
/// which one the next are found, where there are more. `scopes` are the next that
/// name the group, one more than are resolved at once where there are as many.
pub fn propagate_group(scopes: &Vec<Id>) -> (step: (Vec<JobInput>, Option<Id>))
    ensures
        scopes@.len() <= PROPAGATED_AT_ONCE ==> resolves(step.0@, scopes@) && step.1 is None,
        scopes@.len() > PROPAGATED_AT_ONCE ==> resolves(
            step.0@,
            scopes@.take(PROPAGATED_AT_ONCE as int),
        ) && step.1 == Some(scopes@[PROPAGATED_AT_ONCE - 1]),
{
    let mut jobs: Vec<JobInput> = Vec::new();
    let mut i: usize = 0;
    while i < scopes.len() && i < PROPAGATED_AT_ONCE
        invariant
            i <= scopes@.len(),
            i <= PROPAGATED_AT_ONCE,
            jobs@.len() == i,
            forall|j: int|
                0 <= j < i ==> #[trigger] jobs@[j] == (JobInput::Scope { scope: scopes@[j] }),
        decreases scopes@.len() - i,
    {
        jobs.push(JobInput::Scope { scope: scopes[i] });
        i += 1;
    }
    let next = if scopes.len() > PROPAGATED_AT_ONCE {
        Some(scopes[PROPAGATED_AT_ONCE - 1])
    } else {
        None
    };
    (jobs, next)
}

/// Whether a condition mentions a field.
pub open spec fn mentions(criteria: Criteria, field: Seq<char>) -> bool
    decreases criteria, 0nat,
{
    match criteria {
        Criteria::Predicate { field: named, .. } => named@ == field,
        Criteria::And { children } => mentioned_in(children@, children@.len(), field),
        Criteria::Or { children } => mentioned_in(children@, children@.len(), field),
    }
}

/// Whether any of the first `count` of some conditions mentions a field.
pub open spec fn mentioned_in(list: Seq<Criteria>, count: nat, field: Seq<char>) -> bool
    decreases list, count,
{
    if count == 0 || count > list.len() {
        false
    } else {
        mentioned_in(list, (count - 1) as nat, field) || mentions(list[count - 1], field)
    }
}

/// Adds the fields that a condition mentions.
fn collect(criteria: &Criteria, fields: &mut OrderedSet<String>)
    requires
        old(fields).well_formed(),
    ensures
        final(fields).well_formed(),
        forall|field: Seq<char>| #[trigger]
            final(fields)@.contains(field) <==> old(fields)@.contains(field) || mentions(
                *criteria,
                field,
            ),
    decreases criteria,
{
    match criteria {
        Criteria::Predicate { field, .. } => {
            fields.insert(field.clone());
        },
        Criteria::And { children } => collect_all(children, fields),
        Criteria::Or { children } => collect_all(children, fields),
    }
}

/// Adds the fields that some conditions mention.
fn collect_all(list: &Vec<Criteria>, fields: &mut OrderedSet<String>)
    requires
        old(fields).well_formed(),
    ensures
        final(fields).well_formed(),
        forall|field: Seq<char>| #[trigger]
            final(fields)@.contains(field) <==> old(fields)@.contains(field) || mentioned_in(
                list@,
                list@.len(),
                field,
            ),
    decreases list,
{
    let ghost before = fields@;
    let mut i: usize = 0;
    while i < list.len()
        invariant
            i <= list@.len(),
            fields.well_formed(),
            forall|field: Seq<char>| #[trigger]
                fields@.contains(field) <==> before.contains(field) || mentioned_in(
                    list@,
                    i as nat,
                    field,
                ),
        decreases list@.len() - i,
    {
        assert(decreases_to!(list => list@[i as int]));
        collect(&list[i], fields);
        i += 1;
    }
}

/// What is registered of a group whose rule was set, or which has none.
#[derive(Debug)]
pub struct Inputs {
    /// The fields that its members are computed from.
    pub fields: OrderedSet<String>,
    /// The name of its definition, and the version that it came to.
    pub definition: (String, u64),
    /// The names of its members and of the identities behind them, where policies
    /// do not know them yet: both begin at zero.
    pub begin: Option<(String, String)>,
}

/// What is registered of a group whose rule was set, or which has none. `known`
/// says whether policies know its members.
pub fn register_group_inputs(id: Id, revision: u64, criteria: Option<&Criteria>, known: bool) -> (
    inputs: Inputs)
    ensures
        inputs.fields.well_formed(),
        forall|field: Seq<char>| #[trigger]
            inputs.fields@.contains(field) <==> (match criteria {
                Some(criteria) => mentions(*criteria, field),
                None => false,
            }),
        inputs.definition.0@ == reference_of("group-definition."@, id),
        inputs.definition.1 == revision,
        match inputs.begin {
            Some((members, authority)) => !known && members@ == reference_of(
                "group-members."@,
                id,
            ) && authority@ == reference_of("group-authority."@, id),
            None => known,
        },
{
    let mut fields: OrderedSet<String> = OrderedSet::new();
    if let Some(criteria) = criteria {
        collect(criteria, &mut fields);
    }
    Inputs {
        fields,
        definition: (reference("group-definition.", id), revision),
        begin: if known {
            None
        } else {
            Some((reference("group-members.", id), reference("group-authority.", id)))
        },
    }
}

/// A group is computed step by step: its input is completed first, out of the listed
/// members where members are listed and out of the assets otherwise, then the
/// difference is worked out, and then it is published, or the job is over where it
/// was only to be looked at. Scopes are told only of what was published.
pub proof fn groups_are_computed_step_by_step(build: Build, publish: bool)
    ensures
        group_step(build, publish) is Propagate <==> build.published,
        group_step(build, publish) is AppendListed <==> !build.published && !build.sealed
            && build.patched,
        group_step(build, publish) is AppendAssets <==> !build.published && !build.sealed
            && !build.patched,
        group_step(build, publish) is Difference <==> !build.published && build.sealed
            && !build.ready,
        group_step(build, publish) is Publish <==> !build.published && build.sealed && build.ready
            && publish,
        group_step(build, publish) is Finish <==> !build.published && build.sealed && build.ready
            && !publish,
{
}

/// Members that were computed from the assets at one watermark cover the changes up to
/// another exactly where theirs is as new and the rule is still the one that they
/// were computed by. A group without members covers nothing.
pub proof fn members_cover_what_they_were_computed_from(
    built: Built,
    current: LockedGroup,
    computed: i64,
    watermark: i64,
)
    requires
        built.input_version@ == input_version_of(computed),
    ensures
        covers_of(Some(built), current, watermark) == Ok::<bool, Error>(
            watermark <= computed && current.rule_version == built.rule_version,
        ),
        covers_of(None, current, watermark) == Ok::<bool, Error>(false),
{
    watermark_reads_back(computed);
}

/// Starting a group anew keeps what was listed by hand: where members are listed, none
/// is added or removed, and where a rule decides them, the rule does. It is for the
/// group as it now is, and its result is published.
pub proof fn restarts_keep_listed_members(
    start: GroupStart,
    group: Id,
    current: LockedGroup,
    task: Id,
    at: i64,
)
    requires
        start.restarts(group, current, task, at),
    ensures
        start.id == group,
        start.task == task,
        start.at == at,
        start.expected == current.revision,
        start.publish && start.automatic,
        current.kind == GroupKind::Static ==> (start.patch matches Some(patch) && patch.add@.len()
            == 0 && patch.remove@.len() == 0),
        current.kind == GroupKind::Dynamic ==> start.patch is None,
{
}

/// A job computes the group that it was started for, as it was asked: by the rule that
/// now holds and with the members that were added and removed, from the assets at
/// the watermark that its input names. Policies wait for it exactly where it
/// publishes by itself, and then for that very input.
pub proof fn jobs_compute_the_group_they_were_started_for(
    job: GroupJob,
    start: GroupStart,
    current: LockedGroup,
    watermark: i64,
)
    requires
        is_group_job(job, start, current, watermark),
    ensures
        job.request.group == start.id,
        job.request.id == start.task,
        job.request.expected == current.revision,
        job.request.rule_version == current.rule_version,
        job.request.patch == start.patch,
        job.request.as_of == start.at,
        watermark_of(job.request.input_version@) == Some(watermark),
        job.required is Some <==> start.publish && start.automatic,
        job.required matches Some((_, version)) ==> version == acknowledged_version(watermark),
        job.input matches JobInput::Group { group, watermark: taken, publish, automatic } && group
            == start.id && taken == watermark && publish == start.publish && automatic
            == start.automatic,
{
    watermark_reads_back(watermark);
}

/// Whether a condition has a predicate on a field, at whatever depth.
pub open spec fn has_predicate_on(criteria: Criteria, field: Seq<char>) -> bool
    decreases criteria,
{
    match criteria {
        Criteria::Predicate { field: named, .. } => named@ == field,
        Criteria::And { children } => exists|i: int|
            0 <= i < children@.len() && has_predicate_on(#[trigger] children@[i], field),
        Criteria::Or { children } => exists|i: int|
            0 <= i < children@.len() && has_predicate_on(#[trigger] children@[i], field),
    }
}

proof fn mentioned_in_one(list: Seq<Criteria>, count: nat, field: Seq<char>)
    requires
        count <= list.len(),
    ensures
        mentioned_in(list, count, field) <==> exists|i: int|
            0 <= i < count && mentions(#[trigger] list[i], field),
    decreases count,
{
    if count > 0 {
        mentioned_in_one(list, (count - 1) as nat, field);
        if mentions(list[count - 1], field) {
            assert(mentions(list[count - 1], field));
        }
    }
}

/// The fields that a group is registered for are those that its condition has a
/// predicate on.
pub proof fn mentioned_fields_are_those_of_predicates(criteria: Criteria, field: Seq<char>)
    ensures
        mentions(criteria, field) <==> has_predicate_on(criteria, field),
    decreases criteria,
{
    match criteria {
        Criteria::Predicate { .. } => {},
        Criteria::And { children } => {
            assert forall|i: int| 0 <= i < children@.len() implies mentions(
                #[trigger] children@[i],
                field,
            ) == has_predicate_on(children@[i], field) by {
                mentioned_fields_are_those_of_predicates(children@[i], field);
            }
            mentioned_in_one(children@, children@.len(), field);
        },
        Criteria::Or { children } => {
            assert forall|i: int| 0 <= i < children@.len() implies mentions(
                #[trigger] children@[i],
                field,
            ) == has_predicate_on(children@[i], field) by {
                mentioned_fields_are_those_of_predicates(children@[i], field);
            }
            mentioned_in_one(children@, children@.len(), field);
        },
    }
}

/// Who is a member of a group can change only with a field that the group is
/// registered for: as long as what is asked of those fields is answered alike, the
/// group's condition holds of the same devices.
pub proof fn members_change_only_with_registered_fields(
    criteria: Criteria,
    before: spec_fn(Question) -> bool,
    after: spec_fn(Question) -> bool,
)
    requires
        forall|question: Question|
            mentions(criteria, question.field) ==> #[trigger] before(question) == after(question),
    ensures
        written_holds(criteria, before) == written_holds(criteria, after),
    decreases criteria,
{
    match criteria {
        Criteria::Predicate { .. } => {},
        Criteria::And { children } => {
            children_change_only_with_registered_fields(children@, before, after);
        },
        Criteria::Or { children } => {
            children_change_only_with_registered_fields(children@, before, after);
        },
    }
}

proof fn children_change_only_with_registered_fields(
    list: Seq<Criteria>,
    before: spec_fn(Question) -> bool,
    after: spec_fn(Question) -> bool,
)
    requires
        forall|question: Question|
            mentioned_in(list, list.len(), question.field) ==> #[trigger] before(question)
                == after(question),
    ensures
        forall|i: int|
            0 <= i < list.len() ==> written_holds(#[trigger] list[i], before) == written_holds(
                list[i],
                after,
            ),
    decreases list,
{
    assert forall|i: int| 0 <= i < list.len() implies written_holds(#[trigger] list[i], before)
        == written_holds(list[i], after) by {
        assert forall|question: Question|
            mentions(list[i], question.field) implies #[trigger] before(question) == after(
            question,
        ) by {
            mentioned_in_one(list, list.len(), question.field);
        }
        members_change_only_with_registered_fields(list[i], before, after);
    }
}

} // verus!
