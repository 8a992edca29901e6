//! What devices are put together of: everything that was said of them, and nothing
//! else.
use crate::error::{Error, Failure};
use crate::inventory::SourceFact;
use crate::management::assets::model::QualityRun;
use crate::management::assets::query::is_too_large;
use crate::management::assets::snapshot::{
    accepted_sources_are_known, assembly_refusal, covers, device_runs, distinct_keys, drafted,
    first_source_refusal,
    is_assembled, manual_facts, manual_revision, observed_facts, source_refusal,
    spec_frozen_rules, spec_live_rules, subject, texts, AssemblyRules, CollectionRow, DeviceDraft,
    ManualRow, ObservedRow, SourceRow,
};
use crate::order::text_before;
use crate::pick::{alike, number, one_more, picked_is_counted, picks};
use crate::set::{ascending, Element};
use vstd::prelude::*;

verus! {

/// Whether a source has a coordinate among those that it reports under.
pub open spec fn reports_under(row: SourceRow, scope: Seq<char>) -> bool {
    exists|k: int| 0 <= k < row.scopes@.len() && (#[trigger] row.scopes@[k])@ == scope
}

/// Whether the source at `s` is the one that a coordinate stands for: it reports
/// under it, and none behind it does.
pub open spec fn stands_for(rows: Seq<SourceRow>, s: int, scope: Seq<char>) -> bool {
    &&& 0 <= s < rows.len()
    &&& reports_under(rows[s], scope)
    &&& forall|t: int| s < t < rows.len() ==> !reports_under(#[trigger] rows[t], scope)
}

/// Whether a coordinate stands for a source of `device`.
pub open spec fn belongs_to(rows: Seq<SourceRow>, scope: Seq<char>, device: Seq<char>) -> bool {
    exists|s: int| #[trigger] stands_for(rows, s, scope) && rows[s].device@ == device
}

/// Whether a device has a source that reports over a channel.
pub open spec fn reports_over(rows: Seq<SourceRow>, device: Seq<char>, channel: Seq<char>) -> bool {
    exists|i: int|
        0 <= i < rows.len() && (#[trigger] rows[i]).device@ == device && rows[i].channel@ == channel
            && rows[i].scopes@.len() > 0
}

/// Whether a coordinate stands for a source of one of the devices `ids`.
pub open spec fn is_owned(rows: Seq<SourceRow>, ids: Seq<Seq<char>>, scope: Seq<char>) -> bool {
    exists|s: int| #[trigger] stands_for(rows, s, scope) && ids.contains(rows[s].device@)
}

/// Whether the report at a position is of a field of a device.
pub open spec fn reported_of(
    observed: Seq<ObservedRow>,
    rows: Seq<SourceRow>,
    device: Seq<char>,
    field: int,
) -> spec_fn(int) -> bool {
    |i: int| observed[i].field == field && belongs_to(rows, observed[i].scope@, device)
}

/// Whether the assignment at a position is of a field of a device.
pub open spec fn assigned_to(manual: Seq<ManualRow>, device: Seq<char>, field: int) -> spec_fn(
    int,
) -> bool {
    |i: int| manual[i].field == field && manual[i].device@ == device
}

/// Whether the collection run at a position is of a source of a device.
pub open spec fn collected_of(
    runs: Seq<CollectionRow>,
    rows: Seq<SourceRow>,
    device: Seq<char>,
) -> spec_fn(int) -> bool {
    |i: int| belongs_to(rows, runs[i].scope@, device)
}

/// Whether `told` is the report `fact` and of a generation: it tells the same state
/// and the same last known value, from the same source at the same time, and only
/// its generation and that of the last known value are those of the registration.
pub open spec fn is_of_generation(told: SourceFact, fact: SourceFact, generation: u64) -> bool {
    &&& told.state == fact.state
    &&& told.evidence.registration_generation == Some(generation)
    &&& told.evidence.source == fact.evidence.source
    &&& told.evidence.registration == fact.evidence.registration
    &&& told.evidence.epoch == fact.evidence.epoch
    &&& told.evidence.snapshot_id == fact.evidence.snapshot_id
    &&& told.evidence.observed_at == fact.evidence.observed_at
    &&& told.evidence.received_at == fact.evidence.received_at
    &&& told.evidence.actor == fact.evidence.actor
    &&& told.last_known is Some <==> fact.last_known is Some
    &&& fact.last_known matches Some(known) ==> {
        &&& told.last_known->Some_0.value == known.value
        &&& told.last_known->Some_0.evidence.registration_generation == Some(generation)
        &&& told.last_known->Some_0.evidence.source == known.evidence.source
        &&& told.last_known->Some_0.evidence.registration == known.evidence.registration
        &&& told.last_known->Some_0.evidence.epoch == known.evidence.epoch
        &&& told.last_known->Some_0.evidence.snapshot_id == known.evidence.snapshot_id
        &&& told.last_known->Some_0.evidence.observed_at == known.evidence.observed_at
        &&& told.last_known->Some_0.evidence.received_at == known.evidence.received_at
        &&& told.last_known->Some_0.evidence.actor == known.evidence.actor
    }
}

/// The source that a coordinate finds is the one that it stands for.
proof fn coordinates_find_their_source(rows: Seq<SourceRow>, scope: Seq<char>) -> (s: int)
    ensures
        match subject(rows, scope) {
            Some(source) => stands_for(rows, s, scope) && source == rows[s],
            None => forall|t: int| 0 <= t < rows.len() ==> !reports_under(#[trigger] rows[t], scope),
        },
    decreases rows.len(),
{
    if rows.len() == 0 {
        0
    } else {
        let last = rows.len() - 1;
        assert(covers(rows[last], scope) == reports_under(rows[last], scope));
        if covers(rows.last(), scope) {
            last
        } else {
            let fewer = rows.drop_last();
            let s = coordinates_find_their_source(fewer, scope);
            assert forall|t: int| 0 <= t < last implies #[trigger] rows[t] == fewer[t] by {}
            s
        }
    }
}

/// A coordinate stands for one source.
proof fn coordinates_stand_for_one_source(rows: Seq<SourceRow>, a: int, b: int, scope: Seq<char>)
    requires
        stands_for(rows, a, scope),
        stands_for(rows, b, scope),
    ensures
        a == b,
{
    if a < b {
        assert(!reports_under(rows[b], scope));
    }
    if b < a {
        assert(!reports_under(rows[a], scope));
    }
}

/// Whether a coordinate belongs to a device is told by the source that it finds.
proof fn found_sources_own_their_reports(rows: Seq<SourceRow>, scope: Seq<char>, device: Seq<char>)
    ensures
        belongs_to(rows, scope, device) <==> (subject(rows, scope) matches Some(source)
            && source.device@ == device),
{
    let s = coordinates_find_their_source(rows, scope);
    if belongs_to(rows, scope, device) {
        let t = choose|t: int| #[trigger] stands_for(rows, t, scope) && rows[t].device@ == device;
        if subject(rows, scope) is Some {
            coordinates_stand_for_one_source(rows, s, t, scope);
        } else {
            assert(!reports_under(rows[t], scope));
        }
    }
    if subject(rows, scope) matches Some(source) && source.device@ == device {
        assert(stands_for(rows, s, scope));
    }
}

proof fn observed_facts_are_picked(
    observed: Seq<ObservedRow>,
    rows: Seq<SourceRow>,
    device: Seq<char>,
    field: int,
) -> (at: Seq<int>)
    ensures
        picks(at, observed.len() as int, reported_of(observed, rows, device, field)),
        observed_facts(observed, rows, device, field).len() == at.len(),
        forall|k: int, s: int|
            0 <= k < at.len() && #[trigger] stands_for(rows, s, observed[at[k]].scope@)
                ==> is_of_generation(
                #[trigger] observed_facts(observed, rows, device, field)[k],
                observed[at[k]].fact,
                rows[s].generation,
            ),
    decreases observed.len(),
{
    if observed.len() == 0 {
        Seq::empty()
    } else {
        let last = observed.len() - 1;
        let fewer = observed.drop_last();
        let at = observed_facts_are_picked(fewer, rows, device, field);
        let (one, two) = (
            reported_of(fewer, rows, device, field),
            reported_of(observed, rows, device, field),
        );
        assert forall|i: int| 0 <= i < last implies #[trigger] one(i) == two(i) by {
            assert(fewer[i] == observed[i]);
        }
        alike(at, last as nat, one, two);
        one_more(at, last, two);
        let scope = observed[last].scope@;
        found_sources_own_their_reports(rows, scope, device);
        let found = coordinates_find_their_source(rows, scope);
        let facts = observed_facts(observed, rows, device, field);
        let before = observed_facts(fewer, rows, device, field);
        let all = if two(last) {
            at.push(last)
        } else {
            at
        };
        assert forall|k: int, s: int|
            0 <= k < all.len() && #[trigger] stands_for(
                rows,
                s,
                observed[all[k]].scope@,
            ) implies is_of_generation(
            #[trigger] facts[k],
            observed[all[k]].fact,
            rows[s].generation,
        ) by {
            if k < at.len() {
                assert(fewer[at[k]] == observed[at[k]]);
                assert(facts[k] == before[k]);
                assert(stands_for(rows, s, fewer[at[k]].scope@));
            } else {
                coordinates_stand_for_one_source(rows, s, found, scope);
            }
        }
        all
    }
}

proof fn manual_facts_are_picked(manual: Seq<ManualRow>, device: Seq<char>, field: int) -> (at: Seq<
    int,
>)
    ensures
        picks(at, manual.len() as int, assigned_to(manual, device, field)),
        manual_facts(manual, device, field).len() == at.len(),
        forall|k: int|
            0 <= k < at.len() ==> #[trigger] manual_facts(manual, device, field)[k]
                == manual[at[k]].fact,
        manual_revision(manual, device, field) == (if at.len() == 0 {
            None
        } else {
            Some(manual[at.last()].revision)
        }),
    decreases manual.len(),
{
    if manual.len() == 0 {
        Seq::empty()
    } else {
        let last = manual.len() - 1;
        let fewer = manual.drop_last();
        let at = manual_facts_are_picked(fewer, device, field);
        let (one, two) = (assigned_to(fewer, device, field), assigned_to(manual, device, field));
        assert forall|i: int| 0 <= i < last implies #[trigger] one(i) == two(i) by {
            assert(fewer[i] == manual[i]);
        }
        alike(at, last as nat, one, two);
        one_more(at, last, two);
        let facts = manual_facts(manual, device, field);
        let before = manual_facts(fewer, device, field);
        assert forall|k: int| 0 <= k < at.len() implies #[trigger] facts[k]
            == manual[at[k]].fact by {
            assert(before[k] == fewer[at[k]].fact);
        }
        if at.len() > 0 {
            assert(fewer[at.last()] == manual[at.last()]);
        }
        if two(last) {
            at.push(last)
        } else {
            at
        }
    }
}

/// A field of a device holds everything that was said of it, and nothing else: first
/// every report under a coordinate of one of the device's own sources, as it was
/// made and of the generation of that source's registration, and then every
/// assignment by hand, as it was made, each as often as it was made and in order.
/// Its revision is that of the last assignment. The answer is where each of the
/// reports and where each of the assignments stood.
pub proof fn fields_hold_everything_said_of_them(
    draft: DeviceDraft,
    fields: int,
    rows: Seq<SourceRow>,
    observed: Seq<ObservedRow>,
    manual: Seq<ManualRow>,
    runs: Seq<CollectionRow>,
    field: int,
) -> (at: (Seq<int>, Seq<int>))
    requires
        is_assembled(draft, fields, rows, observed, manual, runs),
        0 <= field < fields,
    ensures
        picks(
            at.0,
            observed.len() as int,
            reported_of(observed, rows, draft.device@, field),
        ),
        picks(at.1, manual.len() as int, assigned_to(manual, draft.device@, field)),
        draft.fields@.len() == fields,
        draft.fields@[field].facts@.len() == at.0.len() + at.1.len(),
        draft.fields@[field].facts@.len() == number(
            observed.len(),
            reported_of(observed, rows, draft.device@, field),
        ) + number(manual.len(), assigned_to(manual, draft.device@, field)),
        forall|k: int, s: int|
            0 <= k < at.0.len() && #[trigger] stands_for(rows, s, observed[at.0[k]].scope@)
                ==> is_of_generation(
                #[trigger] draft.fields@[field].facts@[k],
                observed[at.0[k]].fact,
                rows[s].generation,
            ),
        forall|k: int|
            0 <= k < at.1.len() ==> draft.fields@[field].facts@[at.0.len() + k]
                == manual[#[trigger] at.1[k]].fact,
        draft.fields@[field].revision == (if at.1.len() == 0 {
            None
        } else {
            Some(manual[at.1.last()].revision)
        }),
{
    let device = draft.device@;
    let seen = observed_facts_are_picked(observed, rows, device, field);
    let assigned = manual_facts_are_picked(manual, device, field);
    picked_is_counted(seen, observed.len(), reported_of(observed, rows, device, field));
    picked_is_counted(assigned, manual.len(), assigned_to(manual, device, field));
    let one = observed_facts(observed, rows, device, field);
    let two = manual_facts(manual, device, field);
    let facts = draft.fields@[field].facts@;
    assert(facts == one + two);
    assert forall|k: int, s: int|
        0 <= k < seen.len() && #[trigger] stands_for(rows, s, observed[seen[k]].scope@)
        implies is_of_generation(
        #[trigger] facts[k],
        observed[seen[k]].fact,
        rows[s].generation,
    ) by {
        assert(facts[k] == one[k]);
    }
    assert forall|k: int| 0 <= k < assigned.len() implies facts[seen.len() + k] == manual[
    #[trigger] assigned[k]].fact by {
        assert(facts[seen.len() + k] == two[k]);
    }
    (seen, assigned)
}

/// A device has the collection runs of its own sources, each once, in order and as
/// it was, of the generation of the source's registration; and it is on exactly the
/// channels that its sources report over. The answer is where each of the runs
/// stood.
pub proof fn devices_have_the_runs_and_channels_of_their_sources(
    draft: DeviceDraft,
    fields: int,
    rows: Seq<SourceRow>,
    observed: Seq<ObservedRow>,
    manual: Seq<ManualRow>,
    runs: Seq<CollectionRow>,
) -> (at: Seq<int>)
    requires
        is_assembled(draft, fields, rows, observed, manual, runs),
    ensures
        picks(at, runs.len() as int, collected_of(runs, rows, draft.device@)),
        draft.quality@.len() == at.len(),
        forall|k: int, s: int|
            0 <= k < at.len() && #[trigger] stands_for(rows, s, runs[at[k]].scope@) ==> (
            #[trigger] draft.quality@[k]) == (QualityRun {
                registration_generation: rows[s].generation,
                ..runs[at[k]].run
            }),
        forall|channel: Seq<char>| #[trigger]
            draft.channels@.contains(channel) <==> reports_over(rows, draft.device@, channel),
{
    runs_are_picked(runs, rows, draft.device@)
}

proof fn runs_are_picked(runs: Seq<CollectionRow>, rows: Seq<SourceRow>, device: Seq<char>) -> (at: Seq<
    int,
>)
    ensures
        picks(at, runs.len() as int, collected_of(runs, rows, device)),
        device_runs(runs, rows, device).len() == at.len(),
        forall|k: int, s: int|
            0 <= k < at.len() && #[trigger] stands_for(rows, s, runs[at[k]].scope@) ==> (
            #[trigger] device_runs(runs, rows, device)[k]) == (QualityRun {
                registration_generation: rows[s].generation,
                ..runs[at[k]].run
            }),
    decreases runs.len(),
{
    if runs.len() == 0 {
        Seq::empty()
    } else {
        let last = runs.len() - 1;
        let fewer = runs.drop_last();
        let at = runs_are_picked(fewer, rows, device);
        let (one, two) = (collected_of(fewer, rows, device), collected_of(runs, rows, device));
        assert forall|i: int| 0 <= i < last implies #[trigger] one(i) == two(i) by {
            assert(fewer[i] == runs[i]);
        }
        alike(at, last as nat, one, two);
        one_more(at, last, two);
        let scope = runs[last].scope@;
        found_sources_own_their_reports(rows, scope, device);
        let found = coordinates_find_their_source(rows, scope);
        let shown = device_runs(runs, rows, device);
        let before = device_runs(fewer, rows, device);
        let all = if two(last) {
            at.push(last)
        } else {
            at
        };
        assert forall|k: int, s: int|
            0 <= k < all.len() && #[trigger] stands_for(rows, s, runs[all[k]].scope@) implies (
        #[trigger] shown[k]) == (QualityRun {
            registration_generation: rows[s].generation,
            ..runs[all[k]].run
        }) by {
            if k < at.len() {
                assert(fewer[at[k]] == runs[at[k]]);
                assert(shown[k] == before[k]);
                assert(stands_for(rows, s, fewer[at[k]].scope@));
            } else {
                coordinates_stand_for_one_source(rows, s, found, scope);
            }
        }
        all
    }
}

/// Where devices are put together at all, every report and every run stands under a
/// coordinate of a source, and that source and every assignment is of one of the
/// devices that were asked for: nothing that was said is passed over.
pub proof fn nothing_said_is_passed_over(
    ids: Seq<Seq<char>>,
    rows: Seq<SourceRow>,
    observed: Seq<ObservedRow>,
    manual: Seq<ManualRow>,
    runs: Seq<CollectionRow>,
    rules: AssemblyRules,
)
    requires
        assembly_refusal(ids, rows, observed, manual, runs, rules) is None,
    ensures
        forall|i: int|
            0 <= i < observed.len() ==> is_owned(rows, ids, (#[trigger] observed[i]).scope@),
        forall|i: int|
            0 <= i < runs.len() ==> is_owned(rows, ids, (#[trigger] runs[i]).scope@),
        forall|i: int| 0 <= i < manual.len() ==> ids.contains((#[trigger] manual[i]).device@),
        forall|s: int|
            0 <= s < rows.len() ==> ((#[trigger] rows[s]).source_channel matches Some(channel)
                && channel@ == rows[s].channel@),
{
    assert forall|scope: Seq<char>| #[trigger] subject(rows, scope) is Some implies is_owned(
        rows,
        ids,
        scope,
    ) by {
        let s = coordinates_find_their_source(rows, scope);
        let k = choose|k: int|
            0 <= k < rows[s].scopes@.len() && (#[trigger] rows[s].scopes@[k])@ == scope;
        accepted_sources_are_known(rows, s, ids, rules);
        assert(stands_for(rows, s, scope));
    }
    assert forall|i: int| 0 <= i < observed.len() implies is_owned(
        rows,
        ids,
        (#[trigger] observed[i]).scope@,
    ) by {
        assert(subject(rows, observed[i].scope@) is Some);
    }
    assert forall|i: int| 0 <= i < runs.len() implies is_owned(
        rows,
        ids,
        (#[trigger] runs[i]).scope@,
    ) by {
        assert(subject(rows, runs[i].scope@) is Some);
    }
    assert forall|s: int| 0 <= s < rows.len() implies ((#[trigger] rows[s]).source_channel matches Some(
        channel,
    ) && channel@ == rows[s].channel@) by {
        accepted_sources_are_on_their_channel(rows, s, ids, rules);
    }
}

proof fn accepted_sources_are_on_their_channel(
    rows: Seq<SourceRow>,
    i: int,
    ids: Seq<Seq<char>>,
    rules: AssemblyRules,
)
    requires
        first_source_refusal(rows, ids, rules) is None,
        0 <= i < rows.len(),
    ensures
        rows[i].source_channel matches Some(channel) && channel@ == rows[i].channel@,
    decreases rows.len(),
{
    if i < rows.len() - 1 {
        accepted_sources_are_on_their_channel(rows.drop_last(), i, ids, rules);
    }
}

/// What reading devices is refused with is what comes first: too many sources, then the first
/// source that cannot be, then a report under no source, then an assignment to another
/// device, and then a run under no source; and each is answered by its own rule.
pub proof fn readings_are_refused_for_what_comes_first(
    ids: Seq<Seq<char>>,
    rows: Seq<SourceRow>,
    observed: Seq<ObservedRow>,
    manual: Seq<ManualRow>,
    runs: Seq<CollectionRow>,
    rules: AssemblyRules,
)
    ensures
        rows.len() > rules.sources ==> assembly_refusal(ids, rows, observed, manual, runs, rules)
            == Some(rules.too_many_sources),
        rows.len() <= rules.sources && first_source_refusal(rows, ids, rules) is Some
            ==> assembly_refusal(ids, rows, observed, manual, runs, rules)
            == first_source_refusal(rows, ids, rules),
        rows.len() <= rules.sources && first_source_refusal(rows, ids, rules) is None ==> {
            let strays = exists|i: int|
                0 <= i < observed.len() && subject(rows, (#[trigger] observed[i]).scope@) is None;
            let foreign = exists|i: int|
                0 <= i < manual.len() && !ids.contains((#[trigger] manual[i]).device@);
            let lost = exists|i: int|
                0 <= i < runs.len() && subject(rows, (#[trigger] runs[i]).scope@) is None;
            &&& strays ==> assembly_refusal(ids, rows, observed, manual, runs, rules) == Some(
                rules.unknown_scope,
            )
            &&& !strays && foreign ==> assembly_refusal(
                ids,
                rows,
                observed,
                manual,
                runs,
                rules,
            ) == Some(rules.unknown_device)
            &&& !strays && !foreign && lost ==> assembly_refusal(
                ids,
                rows,
                observed,
                manual,
                runs,
                rules,
            ) == Some(rules.unknown_run)
            &&& !strays && !foreign && !lost ==> assembly_refusal(
                ids,
                rows,
                observed,
                manual,
                runs,
                rules,
            ) is None
        },
{
}

/// A source is refused exactly where it belongs to no channel, where it is registered over
/// another channel than it belongs to, or where it reports of a device that was not asked
/// for; and of several the first decides.
pub proof fn sources_are_refused_one_by_one(
    rows: Seq<SourceRow>,
    ids: Seq<Seq<char>>,
    rules: AssemblyRules,
    at: int,
)
    requires
        0 <= at < rows.len(),
    ensures
        source_refusal(rows[at], ids, rules) == (if rows[at].source_channel is None {
            Some(Error::Malformed)
        } else if rows[at].source_channel->Some_0@ != rows[at].channel@ {
            Some(Error::Unavailable(Failure::InventoryQuery))
        } else if rows[at].scopes@.len() > 0 && !ids.contains(rows[at].device@) {
            Some(rules.unknown_device)
        } else {
            None
        }),
        (forall|i: int|
            0 <= i < at ==> source_refusal(#[trigger] rows[i], ids, rules) is None)
            && source_refusal(rows[at], ids, rules) is Some ==> first_source_refusal(
            rows,
            ids,
            rules,
        ) == source_refusal(rows[at], ids, rules),
    decreases rows.len(),
{
    let fewer = rows.drop_last();
    if (forall|i: int| 0 <= i < at ==> source_refusal(#[trigger] rows[i], ids, rules) is None)
        && source_refusal(rows[at], ids, rules) is Some {
        if at < fewer.len() {
            assert forall|i: int| 0 <= i < at implies source_refusal(
                #[trigger] fewer[i],
                ids,
                rules,
            ) is None by {
                assert(fewer[i] == rows[i]);
            }
            sources_are_refused_one_by_one(fewer, ids, rules, at);
        } else {
            assert forall|i: int| 0 <= i < fewer.len() implies source_refusal(
                #[trigger] fewer[i],
                ids,
                rules,
            ) is None by {
                assert(fewer[i] == rows[i]);
            }
            no_source_is_refused(fewer, ids, rules);
        }
    }
}

proof fn no_source_is_refused(rows: Seq<SourceRow>, ids: Seq<Seq<char>>, rules: AssemblyRules)
    requires
        forall|i: int| 0 <= i < rows.len() ==> source_refusal(#[trigger] rows[i], ids, rules) is None,
    ensures
        first_source_refusal(rows, ids, rules) is None,
    decreases rows.len(),
{
    if rows.len() > 0 {
        let fewer = rows.drop_last();
        assert forall|i: int| 0 <= i < fewer.len() implies source_refusal(
            #[trigger] fewer[i],
            ids,
            rules,
        ) is None by {
            assert(fewer[i] == rows[i]);
        }
        no_source_is_refused(fewer, ids, rules);
        assert(source_refusal(rows[rows.len() - 1], ids, rules) is None);
    }
}

/// Whatever is wrong with a reading of devices as they are now is answered as malformed, and
/// with one at a watermark as a fault of the store or as too much, so that it can be tried
/// with fewer devices.
pub proof fn readings_are_refused_by_their_kind(bytes: usize)
    ensures
        ({
            let live = spec_live_rules(bytes);
            let frozen = spec_frozen_rules();
            &&& live.bytes == bytes && live.sources == 20_000
            &&& live.too_many_sources == Error::Malformed && live.too_many_bytes
                == Error::Malformed
            &&& live.unknown_device == Error::Malformed && live.unknown_scope == Error::Malformed
            &&& live.unknown_run == Error::Malformed
            &&& frozen.bytes == 16 * 1024 * 1024 && frozen.sources == 2000
            &&& is_too_large(frozen.too_many_sources) && is_too_large(frozen.too_many_bytes)
            &&& frozen.unknown_device == Error::Unavailable(Failure::ManagementStorage)
            &&& frozen.unknown_scope == Error::Unavailable(Failure::ManagementStorage)
            &&& frozen.unknown_run == Error::Unavailable(Failure::CollectionQuery)
        }),
{
}

/// The devices that are put together are those that were asked for, each once and in order.
pub proof fn every_device_asked_for_is_put_together(
    ids: Seq<String>,
    drafts: Seq<DeviceDraft>,
    at: int,
    other: int,
)
    requires
        ascending::<String>(drafted(drafts)),
        forall|device: Seq<char>| #[trigger]
            drafted(drafts).contains(device) <==> texts(ids).contains(device),
    ensures
        0 <= at < ids.len() ==> exists|d: int|
            0 <= d < drafts.len() && (#[trigger] drafts[d]).device@ == ids[at]@,
        0 <= at < drafts.len() ==> exists|i: int|
            0 <= i < ids.len() && (#[trigger] ids[i])@ == drafts[at].device@,
        0 <= at < other < drafts.len() ==> text_before(
            drafts[at].device@,
            drafts[other].device@,
        ) && drafts[at].device@ != drafts[other].device@,
{
    let (keys, names) = (drafted(drafts), texts(ids));
    if 0 <= at < ids.len() {
        assert(names[at] == ids[at]@);
        assert(names.contains(ids[at]@));
        assert(keys.contains(ids[at]@));
        let d = keys.index_of(ids[at]@);
        assert(drafts[d].device@ == ids[at]@);
    }
    if 0 <= at < drafts.len() {
        assert(keys[at] == drafts[at].device@);
        assert(keys.contains(drafts[at].device@));
        assert(names.contains(drafts[at].device@));
        let i = names.index_of(drafts[at].device@);
        assert(ids[i]@ == drafts[at].device@);
    }
    if 0 <= at < other < drafts.len() {
        assert(keys[at] == drafts[at].device@ && keys[other] == drafts[other].device@);
        assert(<String as Element>::key_before(keys[at], keys[other]));
        distinct_keys(keys, at, other);
    }
}

} // verus!
