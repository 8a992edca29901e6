//! Putting devices together out of what their sources report.
//!
//! A device is read as of a watermark or as it is now. Either way its fields are
//! what every registered source and every manual assignment says of them.
use crate::error::{Error, Failure};
use crate::inventory::SourceFact;
use crate::management::assets::model::QualityRun;
use crate::map::OrderedMap;
use crate::set::{ascending, OrderedSet};
use crate::text::same;
use vstd::prelude::*;

verus! {

/// A source of a registered device: the channel it is registered over, the
/// channel that the source belongs to, and the coordinates it reports under.
#[derive(Debug)]
pub struct SourceRow {
    pub device: String,
    pub channel: String,
    pub source_channel: Option<String>,
    pub generation: u64,
    pub scopes: Vec<String>,
}

/// What a source reported of a field, under its coordinate.
#[derive(Debug)]
pub struct ObservedRow {
    pub scope: String,
    pub field: usize,
    pub fact: SourceFact,
}

/// What was assigned to a field by hand.
#[derive(Debug)]
pub struct ManualRow {
    pub device: String,
    pub field: usize,
    pub revision: i64,
    pub fact: SourceFact,
}

/// The last collection run of a source, under its coordinate.
#[derive(Debug)]
pub struct CollectionRow {
    pub scope: String,
    pub run: QualityRun,
}

/// A field of a device before its facts are resolved to one state.
#[derive(Debug)]
pub struct FieldDraft {
    pub facts: Vec<SourceFact>,
    pub revision: Option<i64>,
}

/// A device before its facts are resolved, with one draft for each field of the
/// catalog.
#[derive(Debug)]
pub struct DeviceDraft {
    pub device: String,
    pub channels: OrderedSet<String>,
    pub fields: Vec<FieldDraft>,
    pub quality: Vec<QualityRun>,
}

/// What reading devices is refused with.
#[derive(Clone, Copy, Debug)]
pub struct AssemblyRules {
    /// The most sources that are read at once.
    pub sources: usize,
    pub too_many_sources: Error,
    /// The most bytes that the devices may take together.
    pub bytes: usize,
    pub too_many_bytes: Error,
    pub unknown_device: Error,
    pub unknown_scope: Error,
    pub unknown_run: Error,
}

/// The rules for reading devices as they are now, `batch_bytes` of them at most.
pub open spec fn spec_live_rules(batch_bytes: usize) -> AssemblyRules {
    AssemblyRules {
        sources: 20_000,
        too_many_sources: Error::Malformed,
        bytes: batch_bytes,
        too_many_bytes: Error::Malformed,
        unknown_device: Error::Malformed,
        unknown_scope: Error::Malformed,
        unknown_run: Error::Malformed,
    }
}

/// The rules for reading devices as they were at a watermark.
pub open spec fn spec_frozen_rules() -> AssemblyRules {
    AssemblyRules {
        sources: 2000,
        too_many_sources: Error::Unavailable(Failure::AssetSourceLimit),
        bytes: 16_777_216,
        too_many_bytes: Error::Unavailable(Failure::AssetBytesLimit),
        unknown_device: Error::Unavailable(Failure::ManagementStorage),
        unknown_scope: Error::Unavailable(Failure::ManagementStorage),
        unknown_run: Error::Unavailable(Failure::CollectionQuery),
    }
}

/// The rules for reading devices as they are now, `batch_bytes` of them at most.
pub fn live_rules(batch_bytes: usize) -> (rules: AssemblyRules)
    ensures
        rules == spec_live_rules(batch_bytes),
{
    AssemblyRules {
        sources: 20_000,
        too_many_sources: Error::Malformed,
        bytes: batch_bytes,
        too_many_bytes: Error::Malformed,
        unknown_device: Error::Malformed,
        unknown_scope: Error::Malformed,
        unknown_run: Error::Malformed,
    }
}

/// The rules for reading devices as they were at a watermark.
pub fn frozen_rules() -> (rules: AssemblyRules)
    ensures
        rules == spec_frozen_rules(),
{
    AssemblyRules {
        sources: 2000,
        too_many_sources: Error::Unavailable(Failure::AssetSourceLimit),
        bytes: 16_777_216,
        too_many_bytes: Error::Unavailable(Failure::AssetBytesLimit),
        unknown_device: Error::Unavailable(Failure::ManagementStorage),
        unknown_scope: Error::Unavailable(Failure::ManagementStorage),
        unknown_run: Error::Unavailable(Failure::CollectionQuery),
    }
}

/// Whether a source reports under `scope`.
pub open spec fn covers(row: SourceRow, scope: Seq<char>) -> bool {
    exists|i: int| 0 <= i < row.scopes@.len() && #[trigger] row.scopes@[i]@ == scope
}

/// The source that reports under `scope`: the last one that does.
pub open spec fn subject(rows: Seq<SourceRow>, scope: Seq<char>) -> Option<SourceRow>
    decreases rows.len(),
{
    if rows.len() == 0 {
        None
    } else if covers(rows.last(), scope) {
        Some(rows.last())
    } else {
        subject(rows.drop_last(), scope)
    }
}

/// What the sources of `device` reported of `field`, in order, each of the
/// generation of its registration.
pub open spec fn observed_facts(
    observed: Seq<ObservedRow>,
    rows: Seq<SourceRow>,
    device: Seq<char>,
    field: int,
) -> Seq<SourceFact>
    decreases observed.len(),
{
    if observed.len() == 0 {
        Seq::empty()
    } else {
        let before = observed_facts(observed.drop_last(), rows, device, field);
        let row = observed.last();
        match subject(rows, row.scope@) {
            Some(source) => if source.device@ == device && row.field == field {
                before.push(row.fact.spec_of_generation(source.generation))
            } else {
                before
            },
            None => before,
        }
    }
}

/// What was assigned to `field` of `device` by hand, in order.
pub open spec fn manual_facts(manual: Seq<ManualRow>, device: Seq<char>, field: int) -> Seq<
    SourceFact,
>
    decreases manual.len(),
{
    if manual.len() == 0 {
        Seq::empty()
    } else {
        let before = manual_facts(manual.drop_last(), device, field);
        let row = manual.last();
        if row.device@ == device && row.field == field {
            before.push(row.fact)
        } else {
            before
        }
    }
}

/// The revision of the last assignment to `field` of `device`.
pub open spec fn manual_revision(manual: Seq<ManualRow>, device: Seq<char>, field: int) -> Option<
    i64,
>
    decreases manual.len(),
{
    if manual.len() == 0 {
        None
    } else if manual.last().device@ == device && manual.last().field == field {
        Some(manual.last().revision)
    } else {
        manual_revision(manual.drop_last(), device, field)
    }
}

/// The last collection runs of the sources of `device`, in order, each of the
/// generation of its registration.
pub open spec fn device_runs(
    runs: Seq<CollectionRow>,
    rows: Seq<SourceRow>,
    device: Seq<char>,
) -> Seq<QualityRun>
    decreases runs.len(),
{
    if runs.len() == 0 {
        Seq::empty()
    } else {
        let before = device_runs(runs.drop_last(), rows, device);
        let row = runs.last();
        match subject(rows, row.scope@) {
            Some(source) => if source.device@ == device {
                before.push(
                    QualityRun { registration_generation: source.generation, ..row.run },
                )
            } else {
                before
            },
            None => before,
        }
    }
}

/// Whether one of `rows` puts `device` on `channel`.
pub open spec fn on_channel(rows: Seq<SourceRow>, device: Seq<char>, channel: Seq<char>) -> bool {
    exists|i: int|
        0 <= i < rows.len() && (#[trigger] rows[i]).device@ == device && rows[i].scopes@.len() > 0
            && rows[i].channel@ == channel
}

/// Whether `draft` is what the reports say of its device.
pub open spec fn is_assembled(
    draft: DeviceDraft,
    fields: int,
    rows: Seq<SourceRow>,
    observed: Seq<ObservedRow>,
    manual: Seq<ManualRow>,
    runs: Seq<CollectionRow>,
) -> bool {
    let device = draft.device@;
    &&& draft.channels.well_formed()
    &&& forall|channel: Seq<char>| #[trigger]
        draft.channels@.contains(channel) <==> on_channel(rows, device, channel)
    &&& draft.fields@.len() == fields
    &&& forall|field: int|
        0 <= field < fields ==> (#[trigger] draft.fields@[field]).facts@ == observed_facts(
            observed,
            rows,
            device,
            field,
        ) + manual_facts(manual, device, field) && draft.fields@[field].revision
            == manual_revision(manual, device, field)
    &&& draft.quality@ == device_runs(runs, rows, device)
}

/// What a source is refused with, where it is.
pub open spec fn source_refusal(
    row: SourceRow,
    ids: Seq<Seq<char>>,
    rules: AssemblyRules,
) -> Option<Error> {
    match row.source_channel {
        None => Some(Error::Malformed),
        Some(channel) => if row.channel@ != channel@ {
            Some(Error::Unavailable(Failure::InventoryQuery))
        } else if row.scopes@.len() > 0 && !ids.contains(row.device@) {
            Some(rules.unknown_device)
        } else {
            None
        },
    }
}

/// What reading devices is refused with, where it is: the first of too many
/// sources, a source that cannot be, a report under no source's coordinate, an
/// assignment to another device, and a run under no source's coordinate.
pub open spec fn assembly_refusal(
    ids: Seq<Seq<char>>,
    rows: Seq<SourceRow>,
    observed: Seq<ObservedRow>,
    manual: Seq<ManualRow>,
    runs: Seq<CollectionRow>,
    rules: AssemblyRules,
) -> Option<Error> {
    if rows.len() > rules.sources {
        Some(rules.too_many_sources)
    } else if first_source_refusal(rows, ids, rules) is Some {
        first_source_refusal(rows, ids, rules)
    } else if exists|i: int|
        0 <= i < observed.len() && subject(rows, (#[trigger] observed[i]).scope@) is None {
        Some(rules.unknown_scope)
    } else if exists|i: int|
        0 <= i < manual.len() && !ids.contains((#[trigger] manual[i]).device@) {
        Some(rules.unknown_device)
    } else if exists|i: int|
        0 <= i < runs.len() && subject(rows, (#[trigger] runs[i]).scope@) is None {
        Some(rules.unknown_run)
    } else {
        None
    }
}

/// What the first source that is refused is refused with.
pub open spec fn first_source_refusal(
    rows: Seq<SourceRow>,
    ids: Seq<Seq<char>>,
    rules: AssemblyRules,
) -> Option<Error>
    decreases rows.len(),
{
    if rows.len() == 0 {
        None
    } else {
        let before = first_source_refusal(rows.drop_last(), ids, rules);
        if before is Some {
            before
        } else {
            source_refusal(rows.last(), ids, rules)
        }
    }
}

/// What some texts say.
pub open spec fn texts(list: Seq<String>) -> Seq<Seq<char>> {
    Seq::new(list.len(), |i: int| list[i]@)
}

/// The devices of drafts, in order.
pub open spec fn drafted(drafts: Seq<DeviceDraft>) -> Seq<Seq<char>> {
    Seq::new(drafts.len(), |i: int| drafts[i].device@)
}

/// Whether drafts are those of the devices `keys`, each with `fields` fields.
spec fn is_laid_out(drafts: Seq<DeviceDraft>, keys: Seq<Seq<char>>, fields: int) -> bool {
    &&& drafted(drafts) == keys
    &&& forall|d: int| 0 <= d < drafts.len() ==> (#[trigger] drafts[d]).fields@.len() == fields
}

/// A field of which nothing is said.
fn blank_fields(count: usize) -> (fields: Vec<FieldDraft>)
    ensures
        fields@.len() == count,
        forall|i: int|
            0 <= i < count ==> (#[trigger] fields@[i]).facts@ == Seq::<SourceFact>::empty()
                && fields@[i].revision is None,
{
    let mut fields: Vec<FieldDraft> = Vec::new();
    while fields.len() < count
        invariant
            fields@.len() <= count,
            forall|i: int|
                0 <= i < fields@.len() ==> (#[trigger] fields@[i]).facts@ == Seq::<
                    SourceFact,
                >::empty() && fields@[i].revision is None,
        decreases count - fields@.len(),
    {
        fields.push(FieldDraft { facts: Vec::new(), revision: None });
    }
    fields
}

/// Every device of `ids` once and in order.
fn in_order(ids: &Vec<String>) -> (order: OrderedSet<String>)
    ensures
        order.well_formed(),
        forall|key: Seq<char>| #[trigger] order@.contains(key) <==> texts(ids@).contains(key),
{
    let mut order: OrderedSet<String> = OrderedSet::new();
    let mut i: usize = 0;
    while i < ids.len()
        invariant
            i <= ids@.len(),
            order.well_formed(),
            forall|key: Seq<char>| #[trigger]
                order@.contains(key) <==> texts(ids@.take(i as int)).contains(key),
        decreases ids@.len() - i,
    {
        let ghost before = texts(ids@.take(i as int));
        let ghost after = texts(ids@.take(i + 1));
        let ghost old_keys = order@;
        order.insert(ids[i].clone());
        proof {
            assert(after =~= before.push(ids@[i as int]@));
            assert forall|key: Seq<char>| #[trigger] order@.contains(key) <==> after.contains(
                key,
            ) by {
                assert(old_keys.contains(key) <==> before.contains(key));
                if before.contains(key) {
                    let n = before.index_of(key);
                    assert(after[n] == key);
                }
                if key == ids@[i as int]@ {
                    assert(after[i as int] == key);
                }
                if after.contains(key) && key != ids@[i as int]@ {
                    let n = after.index_of(key);
                    assert(before[n] == key);
                }
            }
        }
        i += 1;
    }
    assert(ids@.take(i as int) =~= ids@);
    order
}

/// Drafts of which nothing is said, one for each device.
fn blank_drafts(order: &OrderedSet<String>, fields: usize) -> (drafts: Vec<DeviceDraft>)
    ensures
        is_laid_out(drafts@, order@, fields as int),
        forall|d: int|
            0 <= d < drafts@.len() ==> is_assembled(
                #[trigger] drafts@[d],
                fields as int,
                Seq::empty(),
                Seq::empty(),
                Seq::empty(),
                Seq::empty(),
            ),
{
    let mut drafts: Vec<DeviceDraft> = Vec::new();
    while drafts.len() < order.items.len()
        invariant
            drafts@.len() <= order.items@.len(),
            drafted(drafts@) =~= order@.take(drafts@.len() as int),
            forall|d: int|
                0 <= d < drafts@.len() ==> is_assembled(
                    #[trigger] drafts@[d],
                    fields as int,
                    Seq::empty(),
                    Seq::empty(),
                    Seq::empty(),
                    Seq::empty(),
                ),
        decreases order.items@.len() - drafts@.len(),
    {
        let at: usize = drafts.len();
        let draft = DeviceDraft {
            device: order.items[at].clone(),
            channels: OrderedSet::new(),
            fields: blank_fields(fields),
            quality: Vec::new(),
        };
        assert forall|field: int| 0 <= field < fields implies (#[trigger] draft.fields@[field]).facts@
            == observed_facts(Seq::empty(), Seq::empty(), draft.device@, field) + manual_facts(
            Seq::empty(),
            draft.device@,
            field,
        ) by {
            assert(Seq::<SourceFact>::empty() + Seq::<SourceFact>::empty() =~= Seq::<
                SourceFact,
            >::empty());
        }
        drafts.push(draft);
    }
    assert(drafted(drafts@) =~= order@);
    drafts
}

/// Whether `index` finds the source that reports under each coordinate.
spec fn is_indexed(index: OrderedMap<String, usize>, rows: Seq<SourceRow>) -> bool {
    &&& index.well_formed()
    &&& forall|scope: Seq<char>| #[trigger]
        index@.dom().contains(scope) <==> subject(rows, scope) is Some
    &&& forall|scope: Seq<char>| #[trigger]
        index@.dom().contains(scope) ==> index@[scope] < rows.len() && subject(rows, scope) == Some(
            rows[index@[scope] as int],
        )
}

/// Adds the coordinates of the source at `at` to the index of those before it.
fn index_source(index: &mut OrderedMap<String, usize>, rows: &Vec<SourceRow>, at: usize)
    requires
        at < rows@.len(),
        is_indexed(*old(index), rows@.take(at as int)),
    ensures
        is_indexed(*final(index), rows@.take(at + 1)),
{
    let ghost before = rows@.take(at as int);
    let ghost after = rows@.take(at + 1);
    let ghost row = rows@[at as int];
    assert(after.drop_last() =~= before);
    assert(after.last() == row);
    let mut j: usize = 0;
    while j < rows[at].scopes.len()
        invariant
            at < rows@.len(),
            row == rows@[at as int],
            before == rows@.take(at as int),
            after == rows@.take(at + 1),
            j <= row.scopes@.len(),
            index.well_formed(),
            forall|scope: Seq<char>|
                #![trigger index@.dom().contains(scope)]
                index@.dom().contains(scope) <==> subject(before, scope) is Some || (exists|k: int|
                    0 <= k < j && #[trigger] row.scopes@[k]@ == scope),
            forall|scope: Seq<char>|
                #![trigger index@.dom().contains(scope)]
                index@.dom().contains(scope) ==> index@[scope] <= at && if exists|k: int|
                    0 <= k < j && #[trigger] row.scopes@[k]@ == scope {
                    index@[scope] == at
                } else {
                    index@[scope] < at && subject(before, scope) == Some(rows@[index@[scope] as int])
                },
        decreases row.scopes@.len() - j,
    {
        let ghost held = index@;
        let ghost added = row.scopes@[j as int]@;
        index.insert(rows[at].scopes[j].clone(), at);
        proof {
            assert forall|scope: Seq<char>| #[trigger]
                index@.dom().contains(scope) <==> subject(before, scope) is Some || (exists|k: int|
                    0 <= k < j + 1 && #[trigger] row.scopes@[k]@ == scope) by {
                assert(held.dom().contains(scope) <==> subject(before, scope) is Some || (exists|
                    k: int,
                |
                    0 <= k < j && #[trigger] row.scopes@[k]@ == scope));
                if scope == added {
                    assert(row.scopes@[j as int]@ == scope);
                }
            }
            assert forall|scope: Seq<char>| #[trigger] index@.dom().contains(scope) implies index@[scope]
                <= at && if exists|k: int| 0 <= k < j + 1 && #[trigger] row.scopes@[k]@ == scope {
                index@[scope] == at
            } else {
                index@[scope] < at && subject(before, scope) == Some(rows@[index@[scope] as int])
            } by {
                if scope == added {
                    assert(row.scopes@[j as int]@ == scope);
                } else {
                    assert(held.dom().contains(scope));
                }
            }
        }
        j += 1;
    }
    proof {
        assert forall|scope: Seq<char>| #[trigger] index@.dom().contains(scope) <==> subject(
            after,
            scope,
        ) is Some by {
            assert(covers(row, scope) <==> exists|k: int|
                0 <= k < j && #[trigger] row.scopes@[k]@ == scope);
        }
        assert forall|scope: Seq<char>| #[trigger] index@.dom().contains(scope) implies index@[scope]
            < after.len() && subject(after, scope) == Some(after[index@[scope] as int]) by {
            assert(covers(row, scope) <==> exists|k: int|
                0 <= k < j && #[trigger] row.scopes@[k]@ == scope);
        }
    }
}

/// Whether nothing but the channels of drafts changed.
spec fn only_channels_differ(a: Seq<DeviceDraft>, b: Seq<DeviceDraft>) -> bool {
    &&& a.len() == b.len()
    &&& forall|d: int|
        0 <= d < a.len() ==> (#[trigger] b[d]).device == a[d].device && b[d].fields == a[d].fields
            && b[d].quality == a[d].quality
}

/// Whether the channels of drafts are those that `rows` put their devices on.
spec fn channels_are(drafts: Seq<DeviceDraft>, rows: Seq<SourceRow>) -> bool {
    forall|d: int|
        0 <= d < drafts.len() ==> (#[trigger] drafts[d]).channels.well_formed() && (forall|
            channel: Seq<char>,
        | #[trigger]
            drafts[d].channels@.contains(channel) <==> on_channel(rows, drafts[d].device@, channel))
}

/// Puts the devices of accepted sources on their channels, and finds the source
/// of every coordinate.
fn register(
    order: &OrderedSet<String>,
    drafts: &mut Vec<DeviceDraft>,
    rows: &Vec<SourceRow>,
    rules: AssemblyRules,
) -> (registered: Result<OrderedMap<String, usize>, Error>)
    requires
        order.well_formed(),
        drafted(old(drafts)@) == order@,
        channels_are(old(drafts)@, Seq::empty()),
    ensures
        match registered {
            Ok(index) => {
                &&& first_source_refusal(rows@, order@, rules) is None
                &&& is_indexed(index, rows@)
                &&& only_channels_differ(old(drafts)@, final(drafts)@)
                &&& channels_are(final(drafts)@, rows@)
            },
            Err(error) => first_source_refusal(rows@, order@, rules) == Some(error),
        },
{
    let ghost initial = drafts@;
    let mut index: OrderedMap<String, usize> = OrderedMap::new();
    let mut i: usize = 0;
    assert(rows@.take(0) =~= Seq::<SourceRow>::empty());
    while i < rows.len()
        invariant
            i <= rows@.len(),
            order.well_formed(),
            drafted(initial) == order@,
            is_indexed(index, rows@.take(i as int)),
            first_source_refusal(rows@.take(i as int), order@, rules) is None,
            only_channels_differ(initial, drafts@),
            channels_are(drafts@, rows@.take(i as int)),
        decreases rows@.len() - i,
    {
        let ghost before = rows@.take(i as int);
        let ghost after = rows@.take(i + 1);
        let ghost row = rows@[i as int];
        assert(after.drop_last() =~= before);
        assert(after.last() == row);
        let refusal = match &rows[i].source_channel {
            None => Some(Error::Malformed),
            Some(channel) => if !same(rows[i].channel.as_str(), channel.as_str()) {
                Some(Error::Unavailable(Failure::InventoryQuery))
            } else if rows[i].scopes.len() == 0 {
                None
            } else {
                match order.find(&rows[i].device) {
                    None => Some(rules.unknown_device),
                    Some(d) => {
                        let ghost held = drafts@;
                        assert(held[d as int].device@ == drafted(initial)[d as int]);
                        drafts[d].channels.insert(rows[i].channel.clone());
                        proof {
                            assert(order@.contains(row.device@));
                            assert forall|e: int|
                                0 <= e < drafts@.len() implies (#[trigger] drafts@[e]).channels.well_formed()
                                && (forall|channel: Seq<char>| #[trigger]
                                drafts@[e].channels@.contains(channel) <==> on_channel(
                                    after,
                                    drafts@[e].device@,
                                    channel,
                                )) by {
                                assert(held[e].channels.well_formed());
                                assert(drafted(initial)[e] == order@[e]);
                                if e != d {
                                    if order@[e] == order@[d as int] {
                                        distinct_keys(order@, e, d as int);
                                    }
                                }
                                assert forall|channel: Seq<char>| #[trigger]
                                    drafts@[e].channels@.contains(channel) <==> on_channel(
                                        after,
                                        drafts@[e].device@,
                                        channel,
                                    ) by {
                                    assert(held[e].channels@.contains(channel) <==> on_channel(
                                        before,
                                        held[e].device@,
                                        channel,
                                    ));
                                    one_more_source(before, row, held[e].device@, channel);
                                    assert(before.push(row) =~= after);
                                }
                            }
                        }
                        None
                    },
                }
            },
        };
        if let Some(error) = refusal {
            proof {
                assert(source_refusal(row, order@, rules) == Some(error));
                later_sources_keep_refusal(rows@, i + 1, order@, rules);
            }
            return Err(error);
        }
        proof {
            if row.scopes@.len() == 0 {
                assert forall|e: int| 0 <= e < drafts@.len() implies (#[trigger] drafts@[e]).channels.well_formed()
                    && (forall|channel: Seq<char>| #[trigger]
                    drafts@[e].channels@.contains(channel) <==> on_channel(
                        after,
                        drafts@[e].device@,
                        channel,
                    )) by {
                    assert forall|channel: Seq<char>| #[trigger]
                        drafts@[e].channels@.contains(channel) <==> on_channel(
                            after,
                            drafts@[e].device@,
                            channel,
                        ) by {
                        one_more_source(before, row, drafts@[e].device@, channel);
                        assert(before.push(row) =~= after);
                    }
                }
            }
        }
        index_source(&mut index, rows, i);
        i += 1;
    }
    assert(rows@.take(i as int) =~= rows@);
    Ok(index)
}

/// In ascending keys, two positions hold different keys.
pub(crate) proof fn distinct_keys(keys: Seq<Seq<char>>, a: int, b: int)
    requires
        ascending::<String>(keys),
        0 <= a < keys.len(),
        0 <= b < keys.len(),
        a != b,
    ensures
        keys[a] != keys[b],
{
    if a < b {
        assert(<String as crate::set::Element>::key_before(keys[a], keys[b]));
        <String as crate::set::Element>::is_asymmetric(keys[a], keys[b]);
    } else {
        assert(<String as crate::set::Element>::key_before(keys[b], keys[a]));
        <String as crate::set::Element>::is_asymmetric(keys[b], keys[a]);
    }
}

/// What one more source adds to the channels of a device.
proof fn one_more_source(
    rows: Seq<SourceRow>,
    row: SourceRow,
    device: Seq<char>,
    channel: Seq<char>,
)
    ensures
        on_channel(rows.push(row), device, channel) <==> on_channel(rows, device, channel) || (
        row.device@ == device && row.scopes@.len() > 0 && row.channel@ == channel),
{
    let more = rows.push(row);
    if on_channel(rows, device, channel) {
        let i = choose|i: int|
            0 <= i < rows.len() && (#[trigger] rows[i]).device@ == device && rows[i].scopes@.len()
                > 0 && rows[i].channel@ == channel;
        assert(more[i] == rows[i]);
    }
    if row.device@ == device && row.scopes@.len() > 0 && row.channel@ == channel {
        assert(more[rows.len() as int] == row);
    }
    if on_channel(more, device, channel) {
        let i = choose|i: int|
            0 <= i < more.len() && (#[trigger] more[i]).device@ == device && more[i].scopes@.len()
                > 0 && more[i].channel@ == channel;
        if i < rows.len() {
            assert(rows[i] == more[i]);
        }
    }
}

/// What an earlier source is refused with stands, whatever sources follow.
proof fn later_sources_keep_refusal(
    rows: Seq<SourceRow>,
    count: int,
    ids: Seq<Seq<char>>,
    rules: AssemblyRules,
)
    requires
        0 <= count <= rows.len(),
        first_source_refusal(rows.take(count), ids, rules) is Some,
    ensures
        first_source_refusal(rows, ids, rules) == first_source_refusal(
            rows.take(count),
            ids,
            rules,
        ),
    decreases rows.len(),
{
    if count == rows.len() {
        assert(rows.take(count) =~= rows);
    } else {
        assert(rows.drop_last().take(count) =~= rows.take(count));
        later_sources_keep_refusal(rows.drop_last(), count, ids, rules);
    }
}

/// Whether nothing but the facts and revisions of drafts' fields changed.
spec fn only_fields_differ(a: Seq<DeviceDraft>, b: Seq<DeviceDraft>) -> bool {
    &&& a.len() == b.len()
    &&& forall|d: int|
        0 <= d < a.len() ==> (#[trigger] b[d]).device == a[d].device && b[d].channels
            == a[d].channels && b[d].quality == a[d].quality && b[d].fields@.len()
            == a[d].fields@.len()
}

/// Whether the fields of drafts hold what was observed and what was assigned.
spec fn fields_are(
    drafts: Seq<DeviceDraft>,
    rows: Seq<SourceRow>,
    observed: Seq<ObservedRow>,
    manual: Seq<ManualRow>,
) -> bool {
    forall|d: int, field: int|
        0 <= d < drafts.len() && 0 <= field < drafts[d].fields@.len() ==> (
        #[trigger] drafts[d].fields@[field]).facts@ == observed_facts(
            observed,
            rows,
            drafts[d].device@,
            field,
        ) + manual_facts(manual, drafts[d].device@, field) && drafts[d].fields@[field].revision
            == manual_revision(manual, drafts[d].device@, field)
}

/// A source that reports under a coordinate is one of the sources, and has it.
proof fn subject_is_a_source(rows: Seq<SourceRow>, scope: Seq<char>) -> (i: int)
    requires
        subject(rows, scope) is Some,
    ensures
        0 <= i < rows.len(),
        subject(rows, scope) == Some(rows[i]),
        rows[i].scopes@.len() > 0,
    decreases rows.len(),
{
    if covers(rows.last(), scope) {
        rows.len() - 1
    } else {
        subject_is_a_source(rows.drop_last(), scope)
    }
}

/// Where no source is refused, the device of each that reports is known.
pub(crate) proof fn accepted_sources_are_known(
    rows: Seq<SourceRow>,
    i: int,
    ids: Seq<Seq<char>>,
    rules: AssemblyRules,
)
    requires
        first_source_refusal(rows, ids, rules) is None,
        0 <= i < rows.len(),
        rows[i].scopes@.len() > 0,
    ensures
        ids.contains(rows[i].device@),
    decreases rows.len(),
{
    if i < rows.len() - 1 {
        accepted_sources_are_known(rows.drop_last(), i, ids, rules);
    }
}

/// Adds what was observed to the fields of the drafts.
fn observe(
    order: &OrderedSet<String>,
    drafts: &mut Vec<DeviceDraft>,
    index: &OrderedMap<String, usize>,
    rows: &Vec<SourceRow>,
    observed: Vec<ObservedRow>,
    fields: usize,
    rules: AssemblyRules,
) -> (done: Result<(), Error>)
    requires
        order.well_formed(),
        is_laid_out(old(drafts)@, order@, fields as int),
        is_indexed(*index, rows@),
        first_source_refusal(rows@, order@, rules) is None,
        fields_are(old(drafts)@, rows@, Seq::empty(), Seq::empty()),
        forall|i: int| 0 <= i < observed@.len() ==> (#[trigger] observed@[i]).field < fields,
    ensures
        only_fields_differ(old(drafts)@, final(drafts)@),
        match done {
            Ok(()) => {
                &&& forall|i: int|
                    0 <= i < observed@.len() ==> subject(
                        rows@,
                        (#[trigger] observed@[i]).scope@,
                    ) is Some
                &&& fields_are(final(drafts)@, rows@, observed@, Seq::empty())
            },
            Err(error) => {
                &&& error == rules.unknown_scope
                &&& exists|i: int|
                    0 <= i < observed@.len() && subject(
                        rows@,
                        (#[trigger] observed@[i]).scope@,
                    ) is None
            },
        },
{
    let ghost initial = drafts@;
    let ghost all = observed@;
    assert(all.take(0) =~= Seq::<ObservedRow>::empty());
    for row in it: observed
        invariant
            it.seq() == all,
            all == observed@,
            order.well_formed(),
            is_laid_out(initial, order@, fields as int),
            is_indexed(*index, rows@),
            first_source_refusal(rows@, order@, rules) is None,
            forall|i: int| 0 <= i < all.len() ==> (#[trigger] all[i]).field < fields,
            only_fields_differ(initial, drafts@),
            initial == old(drafts)@,
            forall|i: int|
                0 <= i < it.index() ==> subject(rows@, (#[trigger] all[i]).scope@) is Some,
            fields_are(drafts@, rows@, all.take(it.index()), Seq::empty()),
    {
        let ghost n = it.index();
        let ghost before = all.take(n);
        let ghost after = all.take(n + 1);
        assert(after.drop_last() =~= before);
        assert(row == all[n]);
        assert(after.last() == row);
        let source: usize = match index.get(&row.scope) {
            Some(source) => *source,
            None => {
                assert(subject(rows@, all[n].scope@) is None);
                return Err(rules.unknown_scope);
            },
        };
        proof {
            let i = subject_is_a_source(rows@, row.scope@);
            accepted_sources_are_known(rows@, i, order@, rules);
        }
        let d: usize = match order.find(&rows[source].device) {
            Some(d) => d,
            None => return Err(rules.unknown_scope),
        };
        let ghost held = drafts@;
        assert(drafted(initial)[d as int] == order@[d as int]);
        assert(held[d as int].device == initial[d as int].device);
        assert(initial[d as int].fields@.len() == fields);
        let stamped = row.fact.of_generation(rows[source].generation);
        drafts[d].fields[row.field].facts.push(stamped);
        proof {
            assert forall|e: int, field: int|
                0 <= e < drafts@.len() && 0 <= field < drafts@[e].fields@.len() implies (
            #[trigger] drafts@[e].fields@[field]).facts@ == observed_facts(
                after,
                rows@,
                drafts@[e].device@,
                field,
            ) + manual_facts(Seq::empty(), drafts@[e].device@, field)
                && drafts@[e].fields@[field].revision == manual_revision(
                Seq::empty(),
                drafts@[e].device@,
                field,
            ) by {
                assert(held[e].fields@[field].facts@ == observed_facts(
                    before,
                    rows@,
                    held[e].device@,
                    field,
                ) + manual_facts(Seq::empty(), held[e].device@, field));
                assert(held[e].device == initial[e].device);
                assert(drafted(initial)[e] == order@[e]);
                if e != d {
                    distinct_keys(order@, e, d as int);
                }
                let earlier = observed_facts(before, rows@, held[e].device@, field);
                assert(earlier + Seq::<SourceFact>::empty() =~= earlier);
                assert(earlier.push(stamped) + Seq::<SourceFact>::empty() =~= earlier.push(
                    stamped,
                ));
            }
        }
    }
    assert(all.take(all.len() as int) =~= all);
    Ok(())
}

/// Adds what was assigned by hand to the fields of the drafts.
fn assign(
    order: &OrderedSet<String>,
    drafts: &mut Vec<DeviceDraft>,
    manual: Vec<ManualRow>,
    fields: usize,
    rules: AssemblyRules,
    Ghost(rows): Ghost<Seq<SourceRow>>,
    Ghost(observed): Ghost<Seq<ObservedRow>>,
) -> (done: Result<(), Error>)
    requires
        order.well_formed(),
        is_laid_out(old(drafts)@, order@, fields as int),
        fields_are(old(drafts)@, rows, observed, Seq::empty()),
        forall|i: int| 0 <= i < manual@.len() ==> (#[trigger] manual@[i]).field < fields,
    ensures
        only_fields_differ(old(drafts)@, final(drafts)@),
        match done {
            Ok(()) => {
                &&& forall|i: int|
                    0 <= i < manual@.len() ==> order@.contains((#[trigger] manual@[i]).device@)
                &&& fields_are(final(drafts)@, rows, observed, manual@)
            },
            Err(error) => {
                &&& error == rules.unknown_device
                &&& exists|i: int|
                    0 <= i < manual@.len() && !order@.contains((#[trigger] manual@[i]).device@)
            },
        },
{
    let ghost initial = drafts@;
    let ghost all = manual@;
    assert(all.take(0) =~= Seq::<ManualRow>::empty());
    for row in it: manual
        invariant
            it.seq() == all,
            all == manual@,
            order.well_formed(),
            is_laid_out(initial, order@, fields as int),
            forall|i: int| 0 <= i < all.len() ==> (#[trigger] all[i]).field < fields,
            only_fields_differ(initial, drafts@),
            initial == old(drafts)@,
            forall|i: int| 0 <= i < it.index() ==> order@.contains((#[trigger] all[i]).device@),
            fields_are(drafts@, rows, observed, all.take(it.index())),
    {
        let ghost n = it.index();
        let ghost before = all.take(n);
        let ghost after = all.take(n + 1);
        assert(after.drop_last() =~= before);
        assert(row == all[n]);
        assert(after.last() == row);
        let d: usize = match order.find(&row.device) {
            Some(d) => d,
            None => {
                assert(!order@.contains(all[n].device@));
                return Err(rules.unknown_device);
            },
        };
        let ghost held = drafts@;
        assert(drafted(initial)[d as int] == order@[d as int]);
        assert(held[d as int].device == initial[d as int].device);
        assert(initial[d as int].fields@.len() == fields);
        assert(order@.contains(all[n].device@));
        let field: usize = row.field;
        drafts[d].fields[field].facts.push(row.fact);
        drafts[d].fields[field].revision = Some(row.revision);
        proof {
            assert forall|e: int, f: int|
                0 <= e < drafts@.len() && 0 <= f < drafts@[e].fields@.len() implies (
            #[trigger] drafts@[e].fields@[f]).facts@ == observed_facts(
                observed,
                rows,
                drafts@[e].device@,
                f,
            ) + manual_facts(after, drafts@[e].device@, f) && drafts@[e].fields@[f].revision
                == manual_revision(after, drafts@[e].device@, f) by {
                assert(held[e].fields@[f].facts@ == observed_facts(
                    observed,
                    rows,
                    held[e].device@,
                    f,
                ) + manual_facts(before, held[e].device@, f));
                assert(held[e].device == initial[e].device);
                assert(drafted(initial)[e] == order@[e]);
                if e != d {
                    distinct_keys(order@, e, d as int);
                }
                let seen = observed_facts(observed, rows, held[e].device@, f);
                let earlier = manual_facts(before, held[e].device@, f);
                assert((seen + earlier).push(all[n].fact) =~= seen + earlier.push(all[n].fact));
            }
        }
    }
    assert(all.take(all.len() as int) =~= all);
    Ok(())
}

/// Whether nothing but the collection runs of drafts changed.
spec fn only_runs_differ(a: Seq<DeviceDraft>, b: Seq<DeviceDraft>) -> bool {
    &&& a.len() == b.len()
    &&& forall|d: int|
        0 <= d < a.len() ==> (#[trigger] b[d]).device == a[d].device && b[d].channels
            == a[d].channels && b[d].fields == a[d].fields
}

/// Whether the collection runs of drafts are those of their devices' sources.
spec fn runs_are(drafts: Seq<DeviceDraft>, rows: Seq<SourceRow>, runs: Seq<CollectionRow>) -> bool {
    forall|d: int|
        0 <= d < drafts.len() ==> (#[trigger] drafts[d]).quality@ == device_runs(
            runs,
            rows,
            drafts[d].device@,
        )
}

/// Adds collection runs to the drafts.
fn collect(
    order: &OrderedSet<String>,
    drafts: &mut Vec<DeviceDraft>,
    index: &OrderedMap<String, usize>,
    rows: &Vec<SourceRow>,
    runs: Vec<CollectionRow>,
    rules: AssemblyRules,
) -> (done: Result<(), Error>)
    requires
        order.well_formed(),
        drafted(old(drafts)@) == order@,
        is_indexed(*index, rows@),
        first_source_refusal(rows@, order@, rules) is None,
        runs_are(old(drafts)@, rows@, Seq::empty()),
    ensures
        only_runs_differ(old(drafts)@, final(drafts)@),
        match done {
            Ok(()) => {
                &&& forall|i: int|
                    0 <= i < runs@.len() ==> subject(rows@, (#[trigger] runs@[i]).scope@) is Some
                &&& runs_are(final(drafts)@, rows@, runs@)
            },
            Err(error) => {
                &&& error == rules.unknown_run
                &&& exists|i: int|
                    0 <= i < runs@.len() && subject(rows@, (#[trigger] runs@[i]).scope@) is None
            },
        },
{
    let ghost initial = drafts@;
    let ghost all = runs@;
    assert(all.take(0) =~= Seq::<CollectionRow>::empty());
    for row in it: runs
        invariant
            it.seq() == all,
            all == runs@,
            order.well_formed(),
            drafted(initial) == order@,
            is_indexed(*index, rows@),
            first_source_refusal(rows@, order@, rules) is None,
            only_runs_differ(initial, drafts@),
            initial == old(drafts)@,
            forall|i: int|
                0 <= i < it.index() ==> subject(rows@, (#[trigger] all[i]).scope@) is Some,
            runs_are(drafts@, rows@, all.take(it.index())),
    {
        let ghost n = it.index();
        let ghost before = all.take(n);
        let ghost after = all.take(n + 1);
        assert(after.drop_last() =~= before);
        assert(row == all[n]);
        assert(after.last() == row);
        let source: usize = match index.get(&row.scope) {
            Some(source) => *source,
            None => {
                assert(subject(rows@, all[n].scope@) is None);
                return Err(rules.unknown_run);
            },
        };
        proof {
            let i = subject_is_a_source(rows@, row.scope@);
            accepted_sources_are_known(rows@, i, order@, rules);
        }
        let d: usize = match order.find(&rows[source].device) {
            Some(d) => d,
            None => return Err(rules.unknown_run),
        };
        let ghost held = drafts@;
        assert(drafted(initial)[d as int] == order@[d as int]);
        assert(held[d as int].device == initial[d as int].device);
        let mut run = row.run;
        run.registration_generation = rows[source].generation;
        drafts[d].quality.push(run);
        proof {
            assert forall|e: int| 0 <= e < drafts@.len() implies (#[trigger] drafts@[e]).quality@
                == device_runs(after, rows@, drafts@[e].device@) by {
                assert(held[e].quality@ == device_runs(before, rows@, held[e].device@));
                assert(held[e].device == initial[e].device);
                assert(drafted(initial)[e] == order@[e]);
                if e != d {
                    distinct_keys(order@, e, d as int);
                }
            }
        }
    }
    assert(all.take(all.len() as int) =~= all);
    Ok(())
}

/// Puts the devices `ids` together: each once and in order, on the channels of
/// its sources, with what they reported and what was assigned of every field,
/// and with their last collection runs.
pub fn assemble(
    ids: &Vec<String>,
    fields: usize,
    rows: &Vec<SourceRow>,
    observed: Vec<ObservedRow>,
    manual: Vec<ManualRow>,
    runs: Vec<CollectionRow>,
    rules: AssemblyRules,
) -> (assembled: Result<Vec<DeviceDraft>, Error>)
    requires
        forall|i: int| 0 <= i < observed@.len() ==> (#[trigger] observed@[i]).field < fields,
        forall|i: int| 0 <= i < manual@.len() ==> (#[trigger] manual@[i]).field < fields,
    ensures
        match assembled {
            Ok(drafts) => {
                &&& assembly_refusal(
                    texts(ids@),
                    rows@,
                    observed@,
                    manual@,
                    runs@,
                    rules,
                ) is None
                &&& ascending::<String>(drafted(drafts@))
                &&& forall|device: Seq<char>| #[trigger]
                    drafted(drafts@).contains(device) <==> texts(ids@).contains(device)
                &&& forall|d: int|
                    0 <= d < drafts@.len() ==> is_assembled(
                        #[trigger] drafts@[d],
                        fields as int,
                        rows@,
                        observed@,
                        manual@,
                        runs@,
                    )
            },
            Err(error) => assembly_refusal(
                texts(ids@),
                rows@,
                observed@,
                manual@,
                runs@,
                rules,
            ) == Some(error),
        },
{
    if rows.len() > rules.sources {
        return Err(rules.too_many_sources);
    }
    let order = in_order(ids);
    let mut drafts = blank_drafts(&order, fields);
    let ghost blank = drafts@;
    let ghost names = texts(ids@);
    proof {
        same_refusals(rows@, order@, names, rules);
        assert(channels_are(blank, Seq::empty())) by {
            assert forall|d: int| 0 <= d < blank.len() implies (#[trigger] blank[d]).channels.well_formed()
                && (forall|channel: Seq<char>| #[trigger]
                blank[d].channels@.contains(channel) <==> on_channel(
                    Seq::empty(),
                    blank[d].device@,
                    channel,
                )) by {}
        }
        assert forall|i: int| 0 <= i < manual@.len() implies order@.contains(
            (#[trigger] manual@[i]).device@,
        ) == names.contains(manual@[i].device@) by {}
    }
    let index = match register(&order, &mut drafts, rows, rules) {
        Ok(index) => index,
        Err(error) => return Err(error),
    };
    let ghost registered = drafts@;
    proof {
        assert(drafted(registered) =~= order@) by {
            assert forall|d: int| 0 <= d < registered.len() implies #[trigger] drafted(registered)[d]
                == order@[d] by {
                assert(registered[d].device == blank[d].device);
                assert(drafted(blank)[d] == order@[d]);
            }
        }
        assert forall|d: int| 0 <= d < registered.len() implies (#[trigger] registered[d]).fields@.len()
            == fields by {
            assert(registered[d].fields == blank[d].fields);
        }
        assert(fields_are(registered, rows@, Seq::empty(), Seq::empty())) by {
            assert forall|d: int, field: int|
                0 <= d < registered.len() && 0 <= field < registered[d].fields@.len() implies (
            #[trigger] registered[d].fields@[field]).facts@ == observed_facts(
                Seq::empty(),
                rows@,
                registered[d].device@,
                field,
            ) + manual_facts(Seq::empty(), registered[d].device@, field)
                && registered[d].fields@[field].revision == manual_revision(
                Seq::empty(),
                registered[d].device@,
                field,
            ) by {
                assert(registered[d].fields == blank[d].fields);
                assert(is_assembled(
                    blank[d],
                    fields as int,
                    Seq::empty(),
                    Seq::empty(),
                    Seq::empty(),
                    Seq::empty(),
                ));
                assert(blank[d].fields@[field].facts@ == observed_facts(
                    Seq::empty(),
                    Seq::empty(),
                    blank[d].device@,
                    field,
                ) + manual_facts(Seq::empty(), blank[d].device@, field));
            }
        }
    }
    if let Err(error) = observe(&order, &mut drafts, &index, rows, observed, fields, rules) {
        return Err(error);
    }
    let ghost seen = drafts@;
    proof {
        assert(drafted(seen) =~= order@) by {
            assert forall|d: int| 0 <= d < seen.len() implies #[trigger] drafted(seen)[d]
                == order@[d] by {
                assert(seen[d].device == registered[d].device);
                assert(drafted(registered)[d] == order@[d]);
            }
        }
        assert forall|d: int| 0 <= d < seen.len() implies (#[trigger] seen[d]).fields@.len()
            == fields by {
            assert(registered[d].fields@.len() == fields);
        }
    }
    if let Err(error) = assign(
        &order,
        &mut drafts,
        manual,
        fields,
        rules,
        Ghost(rows@),
        Ghost(observed@),
    ) {
        return Err(error);
    }
    let ghost assigned = drafts@;
    proof {
        assert(drafted(assigned) =~= order@) by {
            assert forall|d: int| 0 <= d < assigned.len() implies #[trigger] drafted(assigned)[d]
                == order@[d] by {
                assert(assigned[d].device == seen[d].device);
                assert(drafted(seen)[d] == order@[d]);
            }
        }
        assert forall|d: int| 0 <= d < assigned.len() implies (#[trigger] assigned[d]).quality@
            == device_runs(Seq::empty(), rows@, assigned[d].device@) by {
            assert(assigned[d].quality == seen[d].quality);
            assert(seen[d].quality == registered[d].quality);
            assert(registered[d].quality == blank[d].quality);
            assert(is_assembled(
                blank[d],
                fields as int,
                Seq::empty(),
                Seq::empty(),
                Seq::empty(),
                Seq::empty(),
            ));
        }
    }
    if let Err(error) = collect(&order, &mut drafts, &index, rows, runs, rules) {
        return Err(error);
    }
    proof {
        let done = drafts@;
        assert(drafted(done) =~= order@) by {
            assert forall|d: int| 0 <= d < done.len() implies #[trigger] drafted(done)[d]
                == order@[d] by {
                assert(done[d].device == assigned[d].device);
                assert(drafted(assigned)[d] == order@[d]);
            }
        }
        assert forall|d: int| 0 <= d < done.len() implies is_assembled(
            #[trigger] done[d],
            fields as int,
            rows@,
            observed@,
            manual@,
            runs@,
        ) by {
            assert(done[d].channels == assigned[d].channels);
            assert(assigned[d].channels == seen[d].channels);
            assert(seen[d].channels == registered[d].channels);
            assert(done[d].fields == assigned[d].fields);
            assert(assigned[d].fields@.len() == seen[d].fields@.len());
            assert(seen[d].fields@.len() == fields);
            assert forall|field: int| 0 <= field < fields implies (
            #[trigger] done[d].fields@[field]).facts@ == observed_facts(
                observed@,
                rows@,
                done[d].device@,
                field,
            ) + manual_facts(manual@, done[d].device@, field) && done[d].fields@[field].revision
                == manual_revision(manual@, done[d].device@, field) by {
                assert(assigned[d].fields@[field].facts@ == observed_facts(
                    observed@,
                    rows@,
                    assigned[d].device@,
                    field,
                ) + manual_facts(manual@, assigned[d].device@, field));
            }
        }
    }
    Ok(drafts)
}

/// Refusals depend on which devices are known, not on how they are listed.
proof fn same_refusals(
    rows: Seq<SourceRow>,
    one: Seq<Seq<char>>,
    two: Seq<Seq<char>>,
    rules: AssemblyRules,
)
    requires
        forall|key: Seq<char>| #[trigger] one.contains(key) <==> two.contains(key),
    ensures
        first_source_refusal(rows, one, rules) == first_source_refusal(rows, two, rules),
    decreases rows.len(),
{
    if rows.len() > 0 {
        same_refusals(rows.drop_last(), one, two, rules);
        assert(one.contains(rows.last().device@) <==> two.contains(rows.last().device@));
    }
}

/// Every observed fact of a device's field was reported by a source of that
/// device, of that field, and carries the generation of the source's
/// registration.
pub proof fn facts_come_from_the_device_s_own_sources(
    observed: Seq<ObservedRow>,
    rows: Seq<SourceRow>,
    device: Seq<char>,
    field: int,
    at: int,
) -> (from: int)
    requires
        0 <= at < observed_facts(observed, rows, device, field).len(),
    ensures
        0 <= from < observed.len(),
        observed[from].field == field,
        subject(rows, observed[from].scope@) matches Some(source) && source.device@ == device
            && observed_facts(observed, rows, device, field)[at]
            == observed[from].fact.spec_of_generation(source.generation),
    decreases observed.len(),
{
    let before = observed_facts(observed.drop_last(), rows, device, field);
    if at < before.len() {
        facts_come_from_the_device_s_own_sources(observed.drop_last(), rows, device, field, at)
    } else {
        observed.len() - 1
    }
}

/// Accepts the devices of a reading by how many bytes they take together.
pub fn admit_bytes(bytes: usize, rules: AssemblyRules) -> (admitted: Result<(), Error>)
    ensures
        admitted is Ok <==> bytes <= rules.bytes,
        admitted is Err ==> admitted == Err::<(), Error>(rules.too_many_bytes),
{
    if bytes > rules.bytes {
        Err(rules.too_many_bytes)
    } else {
        Ok(())
    }
}

/// Accepts how many devices are read as they are now.
pub fn admit_objects(devices: usize, objects: usize) -> (admitted: Result<(), Error>)
    ensures
        admitted is Ok <==> devices <= objects,
        admitted is Err ==> admitted == Err::<(), Error>(Error::Malformed),
{
    if devices > objects {
        Err(Error::Malformed)
    } else {
        Ok(())
    }
}

/// The most devices that are looked up at once.
pub const LOOKUP_DEVICES: usize = 1000;

/// Accepts how many devices are looked up at once.
pub fn admit_lookup(devices: usize) -> (admitted: Result<(), Error>)
    ensures
        admitted is Ok <==> devices <= LOOKUP_DEVICES,
        admitted is Err ==> admitted == Err::<(), Error>(
            Error::Unavailable(Failure::ManagementStorage),
        ),
{
    if devices > LOOKUP_DEVICES {
        Err(Error::Unavailable(Failure::ManagementStorage))
    } else {
        Ok(())
    }
}

/// Accepts a request for a page of devices at a watermark.
pub fn admit_page(watermark: i64, limit: usize) -> (admitted: Result<(), Error>)
    ensures
        admitted is Ok <==> watermark >= 0 && 1 <= limit <= 1000,
        admitted is Err ==> admitted == Err::<(), Error>(
            Error::Unavailable(Failure::ManagementStorage),
        ),
{
    if watermark < 0 || limit < 1 || limit > 1000 {
        Err(Error::Unavailable(Failure::ManagementStorage))
    } else {
        Ok(())
    }
}

/// A page of at most `limit` of the devices that were read ahead, and where the
/// next page begins: behind the last device, where one was read beyond the page.
pub fn cut_page(ids: Vec<String>, limit: usize) -> (page: (Vec<String>, Option<String>))
    requires
        1 <= limit,
    ensures
        ids@.len() <= limit ==> page.0@ == ids@ && page.1 is None,
        ids@.len() > limit ==> page.0@ == ids@.take(limit as int) && page.1 == Some(
            ids@[limit - 1],
        ),
{
    let more = ids.len() > limit;
    let mut kept = ids;
    kept.truncate(limit);
    let next = if more {
        Some(kept[limit - 1].clone())
    } else {
        None
    };
    assert(!more ==> kept@ =~= ids@);
    assert(more ==> kept@ =~= ids@.take(limit as int));
    (kept, next)
}

} // verus!
