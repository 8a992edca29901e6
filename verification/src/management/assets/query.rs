//! Asset queries: immutable results that are prepared page by page.
use crate::crypto::{sha256, sha256_of};
use crate::error::{Error, Failure};
use crate::inventory::{ResolvedField, Scalar, State};
use crate::management::assets::criteria::{
    defined, definition, is_admitted, rule, written, Limits,
};
use crate::management::assets::model::{
    DeviceView, Facet, FieldDefinition, Query, Sort,
};
use crate::management::assets::query_sort::{key, key_of};
use crate::management::model::{is_listed, lists};
use crate::map::OrderedMap;
use crate::order::{
    precedes, text_before, text_before_is_asymmetric, text_before_is_total,
    text_before_is_transitive,
};
use crate::set::Element;
use crate::text::same;
use vstd::prelude::*;

verus! {

/// Whether no field is selected twice.
pub open spec fn all_distinct(select: Seq<String>) -> bool {
    forall|i: int, j: int|
        0 <= i < j < select.len() ==> (#[trigger] select[i])@ != (#[trigger] select[j])@
}

/// Whether every selected field is of the catalog.
pub open spec fn all_defined(select: Seq<String>, catalog: Seq<FieldDefinition>) -> bool {
    forall|i: int| 0 <= i < select.len() ==> defined(catalog, (#[trigger] select[i])@) is Some
}

/// Whether a query can be prepared: it selects fields of the catalog, none
/// twice, it is sorted by one of them, where it is sorted, and its condition is
/// admitted. `sound` is whether those who own the values and the conditions accept
/// its condition, where it has one.
pub open spec fn is_valid(
    query: Query,
    sound: bool,
    catalog: Seq<FieldDefinition>,
    limits: Limits,
) -> bool {
    &&& query.select@.len() <= catalog.len()
    &&& all_defined(query.select@, catalog)
    &&& all_distinct(query.select@)
    &&& query.sort matches Some(sort) ==> defined(catalog, sort.field@) is Some
    &&& query.criteria matches Some(criteria) ==> sound && is_admitted(
        written(criteria),
        limits.depth as int,
        limits.nodes as int,
        limits.set_items as int,
        catalog,
    )
}

/// Whether no field is selected twice.
fn has_no_repeats(select: &Vec<String>) -> (answer: bool)
    ensures
        answer == all_distinct(select@),
{
    let mut i: usize = 0;
    while i < select.len()
        invariant
            i <= select@.len(),
            forall|a: int, b: int|
                0 <= a < b < i ==> (#[trigger] select@[a])@ != (#[trigger] select@[b])@,
        decreases select@.len() - i,
    {
        let mut j: usize = 0;
        while j < i
            invariant
                j <= i,
                i < select@.len(),
                forall|a: int| 0 <= a < j ==> (#[trigger] select@[a])@ != select@[i as int]@,
            decreases i - j,
        {
            if same(select[j].as_str(), select[i].as_str()) {
                return false;
            }
            j += 1;
        }
        i += 1;
    }
    true
}

/// Whether every selected field is of the catalog.
fn has_definitions(select: &Vec<String>, catalog: &Vec<FieldDefinition>) -> (answer: bool)
    ensures
        answer == all_defined(select@, catalog@),
{
    let mut i: usize = 0;
    while i < select.len()
        invariant
            i <= select@.len(),
            forall|j: int| 0 <= j < i ==> defined(catalog@, (#[trigger] select@[j])@) is Some,
        decreases select@.len() - i,
    {
        if definition(catalog, select[i].as_str()).is_none() {
            return false;
        }
        i += 1;
    }
    true
}

/// Accepts a query that can be prepared.
pub fn validate_query(
    query: &Query,
    sound: bool,
    catalog: &Vec<FieldDefinition>,
    limits: Limits,
) -> (admitted: Result<(), Error>)
    ensures
        admitted is Ok <==> is_valid(*query, sound, catalog@, limits),
        admitted is Err ==> admitted == Err::<(), Error>(Error::Malformed),
{
    if query.select.len() > catalog.len() || !has_definitions(&query.select, catalog)
        || !has_no_repeats(&query.select) {
        return Err(Error::Malformed);
    }
    if let Some(sort) = &query.sort {
        if definition(catalog, sort.field.as_str()).is_none() {
            return Err(Error::Malformed);
        }
    }
    match &query.criteria {
        Some(criteria) => match rule(criteria, sound, catalog, limits) {
            Ok(_) => Ok(()),
            Err(error) => Err(error),
        },
        None => Ok(()),
    }
}

/// How many devices a page of a query is first tried with.
pub const FIRST_ATTEMPT: usize = 128;

/// What came of trying a page.
#[derive(Clone, Copy, Debug, PartialEq, Eq, Structural)]
pub enum Attempt {
    /// The page was read and every device on it decided.
    Done,
    /// The page was not read.
    Unread(Error),
    /// The page was read, and deciding its devices exceeded a limit.
    Undecided,
    /// The page was read, and its devices could not be decided.
    Undecidable,
}

/// What follows a try.
#[derive(Clone, Copy, Debug, PartialEq, Eq, Structural)]
pub enum NextAttempt {
    Proceed,
    Retry(usize),
    Refuse(Error),
}

/// Whether a page that was not read may be read with fewer devices.
pub open spec fn is_too_large(error: Error) -> bool {
    error == Error::Unavailable(Failure::AssetBytesLimit) || error == Error::Unavailable(
        Failure::AssetSourceLimit,
    )
}

/// What follows a try with `limit` devices: a page that is too large is tried
/// with half as many, down to a single device.
pub open spec fn follows_attempt(limit: usize, attempt: Attempt) -> NextAttempt {
    match attempt {
        Attempt::Done => NextAttempt::Proceed,
        Attempt::Unread(error) => if is_too_large(error) && limit > 1 {
            NextAttempt::Retry((limit / 2) as usize)
        } else {
            NextAttempt::Refuse(error)
        },
        Attempt::Undecided => if limit > 1 {
            NextAttempt::Retry((limit / 2) as usize)
        } else {
            NextAttempt::Refuse(Error::Unavailable(Failure::AssetBytesLimit))
        },
        Attempt::Undecidable => NextAttempt::Refuse(Error::Malformed),
    }
}

/// What follows a try with `limit` devices.
pub fn next_attempt(limit: usize, attempt: Attempt) -> (next: NextAttempt)
    ensures
        next == follows_attempt(limit, attempt),
{
    match attempt {
        Attempt::Done => NextAttempt::Proceed,
        Attempt::Unread(error) => {
            let too_large = match error {
                Error::Unavailable(Failure::AssetBytesLimit) => true,
                Error::Unavailable(Failure::AssetSourceLimit) => true,
                _ => false,
            };
            if too_large && limit > 1 {
                NextAttempt::Retry(limit / 2)
            } else {
                NextAttempt::Refuse(error)
            }
        },
        Attempt::Undecided => if limit > 1 {
            NextAttempt::Retry(limit / 2)
        } else {
            NextAttempt::Refuse(Error::Unavailable(Failure::AssetBytesLimit))
        },
        Attempt::Undecidable => NextAttempt::Refuse(Error::Malformed),
    }
}

/// Trying ends: a retry is with fewer devices, and with at least one.
pub proof fn retries_shrink(limit: usize, attempt: Attempt)
    requires
        1 <= limit,
    ensures
        follows_attempt(limit, attempt) matches NextAttempt::Retry(fewer) ==> 1 <= fewer < limit,
        limit == 1 ==> !(follows_attempt(limit, attempt) is Retry),
{
}

/// How a condition decides a device.
#[derive(Clone, Copy, Debug, PartialEq, Eq, Structural)]
pub enum Decision {
    Match,
    NoMatch,
    Unknown,
}

/// The name of what is known of a field.
pub open spec fn state_name_of(state: State) -> Seq<char> {
    match state {
        State::Known(_) => "known"@,
        State::Null => "null"@,
        State::Missing => "missing"@,
        State::Deleted => "deleted"@,
        State::Conflict => "conflict"@,
        State::Unsupported => "unsupported"@,
    }
}

/// The name of what is known of a field.
pub fn state_name(state: &State) -> (name: &'static str)
    ensures
        name@ == state_name_of(*state),
{
    match state {
        State::Known(_) => "known",
        State::Null => "null",
        State::Missing => "missing",
        State::Deleted => "deleted",
        State::Conflict => "conflict",
        State::Unsupported => "unsupported",
    }
}

/// A label of a facet.
#[derive(Debug)]
pub struct FacetKey {
    pub facet: Facet,
    pub label: String,
}

/// A label of a facet, with its text as a sequence of characters.
pub struct FacetKeyView {
    pub facet: Facet,
    pub label: Seq<char>,
}

/// The place of a facet in the order of their names.
pub open spec fn facet_rank(facet: Facet) -> int {
    match facet {
        Facet::AssetStates => 0,
        Facet::Channels => 1,
        Facet::OsVersions => 2,
    }
}

impl Element for FacetKey {
    type V = FacetKeyView;

    open spec fn key(&self) -> FacetKeyView {
        FacetKeyView { facet: self.facet, label: self.label@ }
    }

    open spec fn key_before(a: FacetKeyView, b: FacetKeyView) -> bool {
        if a.facet == b.facet {
            text_before(a.label, b.label)
        } else {
            facet_rank(a.facet) < facet_rank(b.facet)
        }
    }

    proof fn is_asymmetric(a: FacetKeyView, b: FacetKeyView) {
        if a.facet == b.facet {
            text_before_is_asymmetric(a.label, b.label);
        }
    }

    proof fn is_total(a: FacetKeyView, b: FacetKeyView) {
        if a.facet == b.facet {
            text_before_is_total(a.label, b.label);
        }
    }

    proof fn is_transitive(a: FacetKeyView, b: FacetKeyView, c: FacetKeyView) {
        if a.facet == b.facet && b.facet == c.facet {
            text_before_is_transitive(a.label, b.label, c.label);
        }
    }

    fn comes_before(&self, other: &FacetKey) -> (answer: bool) {
        if self.facet == other.facet {
            precedes(self.label.as_str(), other.label.as_str())
        } else {
            match (self.facet, other.facet) {
                (Facet::AssetStates, _) => true,
                (Facet::Channels, Facet::OsVersions) => true,
                _ => false,
            }
        }
    }

    fn duplicate(&self) -> (copy: FacetKey) {
        FacetKey { facet: self.facet, label: self.label.clone() }
    }
}

/// The labels that channels stand under.
pub open spec fn channel_labels(channels: Seq<Seq<char>>) -> Seq<FacetKeyView> {
    channels.map_values(|label: Seq<char>| FacetKeyView { facet: Facet::Channels, label })
}

/// The labels that fields stand under.
pub open spec fn state_labels(fields: Seq<(String, ResolvedField)>) -> Seq<FacetKeyView> {
    fields.map_values(
        |field: (String, ResolvedField)|
            FacetKeyView { facet: Facet::AssetStates, label: state_name_of(field.1.state) },
    )
}

/// What is known of the field `name`, where the device has it.
pub open spec fn state_of(fields: Seq<(String, ResolvedField)>, name: Seq<char>) -> Option<State>
    decreases fields.len(),
{
    if fields.len() == 0 {
        None
    } else if fields[0].0@ == name {
        Some(fields[0].1.state)
    } else {
        state_of(fields.drop_first(), name)
    }
}

/// The label that an operating system stands under, where it is a known text.
pub open spec fn os_labels(state: Option<State>) -> Seq<FacetKeyView> {
    match state {
        Some(State::Known(Scalar::String(label))) => seq![
            FacetKeyView { facet: Facet::OsVersions, label: label@ },
        ],
        _ => Seq::empty(),
    }
}

/// The labels that a device is counted under: each of its channels, its
/// operating system, and the state of each of its fields.
pub open spec fn labels_of(device: DeviceView, os_field: Seq<char>) -> Seq<FacetKeyView> {
    channel_labels(device.channels@) + os_labels(state_of(device.fields@, os_field))
        + state_labels(device.fields@)
}

/// How often `key` occurs among labels.
pub open spec fn occurrences(labels: Seq<FacetKeyView>, key: FacetKeyView) -> nat
    decreases labels.len(),
{
    if labels.len() == 0 {
        0
    } else {
        occurrences(labels.drop_last(), key) + (if labels.last() == key {
            1nat
        } else {
            0
        })
    }
}

/// What is known of the field `name`, where the device has it.
pub fn find_state<'a>(fields: &'a Vec<(String, ResolvedField)>, name: &str) -> (found: Option<
    &'a State,
>)
    ensures
        match found {
            Some(state) => state_of(fields@, name@) == Some(*state),
            None => state_of(fields@, name@) is None,
        },
{
    let mut i: usize = 0;
    assert(fields@.skip(0) =~= fields@);
    while i < fields.len()
        invariant
            i <= fields@.len(),
            state_of(fields@, name@) == state_of(fields@.skip(i as int), name@),
        decreases fields@.len() - i,
    {
        assert(fields@.skip(i as int).drop_first() =~= fields@.skip(i + 1));
        if same(fields[i].0.as_str(), name) {
            return Some(&fields[i].1.state);
        }
        i += 1;
    }
    None
}

/// What label keys are, apart from how they are held.
spec fn label_views(labels: Seq<FacetKey>) -> Seq<FacetKeyView> {
    labels.map_values(|label: FacetKey| label.key())
}

/// The labels that a device is counted under.
fn labels(device: &DeviceView, os_field: &str) -> (found: Vec<FacetKey>)
    ensures
        label_views(found@) == labels_of(*device, os_field@),
{
    let mut found: Vec<FacetKey> = Vec::new();
    let ghost channels = channel_labels(device.channels@);
    let mut i: usize = 0;
    while i < device.channels.items.len()
        invariant
            i <= device.channels.items@.len(),
            channels == channel_labels(device.channels@),
            label_views(found@) =~= channels.take(i as int),
        decreases device.channels.items@.len() - i,
    {
        let ghost before = found@;
        let label = FacetKey { facet: Facet::Channels, label: device.channels.items[i].clone() };
        assert(label.key() == channels[i as int]);
        found.push(label);
        assert(label_views(found@) =~= label_views(before).push(channels[i as int]));
        i += 1;
    }
    assert(label_views(found@) =~= channels);
    let ghost os = os_labels(state_of(device.fields@, os_field@));
    if let Some(State::Known(Scalar::String(label))) = find_state(&device.fields, os_field) {
        found.push(FacetKey { facet: Facet::OsVersions, label: label.clone() });
    }
    assert(label_views(found@) =~= channels + os);
    let ghost states = state_labels(device.fields@);
    let mut j: usize = 0;
    while j < device.fields.len()
        invariant
            j <= device.fields@.len(),
            states == state_labels(device.fields@),
            label_views(found@) =~= channels + os + states.take(j as int),
        decreases device.fields@.len() - j,
    {
        let ghost before = found@;
        let label = FacetKey {
            facet: Facet::AssetStates,
            label: state_name(&device.fields[j].1.state).to_owned(),
        };
        assert(label.key() == states[j as int]);
        found.push(label);
        assert(label_views(found@) =~= label_views(before).push(states[j as int]));
        j += 1;
    }
    assert(label_views(found@) =~= channels + os + states);
    found
}

/// Whether `counts` says how often each label occurs, and holds those that do.
pub open spec fn counts_are(
    counts: OrderedMap<FacetKey, u64>,
    labels: Seq<FacetKeyView>,
) -> bool {
    &&& counts.well_formed()
    &&& forall|key: FacetKeyView| #[trigger]
        counts@.dom().contains(key) <==> occurrences(labels, key) > 0
    &&& forall|key: FacetKeyView| #[trigger]
        counts@.dom().contains(key) ==> counts@[key] == occurrences(labels, key)
}

/// A label occurs at most as often as there are labels.
proof fn occurrences_are_bounded(labels: Seq<FacetKeyView>, key: FacetKeyView)
    ensures
        occurrences(labels, key) <= labels.len(),
    decreases labels.len(),
{
    if labels.len() > 0 {
        occurrences_are_bounded(labels.drop_last(), key);
    }
}

/// Counts further labels.
fn count_labels(
    counts: &mut OrderedMap<FacetKey, u64>,
    found: Vec<FacetKey>,
    Ghost(before): Ghost<Seq<FacetKeyView>>,
)
    requires
        counts_are(*old(counts), before),
        before.len() + found@.len() <= u64::MAX,
    ensures
        counts_are(*final(counts), before + label_views(found@)),
{
    let ghost all = found@;
    assert(before + label_views(all.take(0)) =~= before);
    for label in it: found
        invariant
            it.seq() == all,
            before.len() + all.len() <= u64::MAX,
            counts_are(*counts, before + label_views(all.take(it.index()))),
    {
        let ghost n = it.index();
        let ghost seen = before + label_views(all.take(n));
        let ghost next = before + label_views(all.take(n + 1));
        let ghost held = counts@;
        let ghost added = label.key();
        assert(next.drop_last() =~= seen);
        assert(next.last() == added);
        proof {
            occurrences_are_bounded(seen, added);
        }
        let count: u64 = match counts.get(&label) {
            Some(count) => *count,
            None => 0,
        };
        counts.insert(label, count + 1);
        proof {
            assert forall|key: FacetKeyView| #[trigger] counts@.dom().contains(key) <==> occurrences(
                next,
                key,
            ) > 0 by {
                assert(held.dom().contains(key) <==> occurrences(seen, key) > 0);
            }
            assert forall|key: FacetKeyView| #[trigger] counts@.dom().contains(key) implies counts@[key]
                == occurrences(next, key) by {
                if key != added {
                    assert(held.dom().contains(key));
                } else {
                    assert(held.dom().contains(key) <==> occurrences(seen, key) > 0);
                }
            }
        }
    }
    assert(all.take(all.len() as int) =~= all);
}

/// Whether a field stays where `select` names the fields to keep; naming none
/// keeps all.
pub open spec fn keeps(select: Seq<String>, name: Seq<char>) -> bool {
    select.len() == 0 || lists(select, name)
}

/// The entries whose field stays, in order.
pub open spec fn kept<T>(entries: Seq<(String, T)>, select: Seq<String>) -> Seq<(String, T)>
    decreases entries.len(),
{
    if entries.len() == 0 {
        Seq::empty()
    } else {
        let before = kept(entries.drop_last(), select);
        if keeps(select, entries.last().0@) {
            before.push(entries.last())
        } else {
            before
        }
    }
}

/// The entries whose field stays.
fn keep<T>(entries: Vec<(String, T)>, select: &Vec<String>) -> (left: Vec<(String, T)>)
    ensures
        left@ == kept(entries@, select@),
{
    let ghost all = entries@;
    let mut left: Vec<(String, T)> = Vec::new();
    assert(all.take(0) =~= Seq::<(String, T)>::empty());
    for entry in it: entries
        invariant
            it.seq() == all,
            left@ == kept(all.take(it.index()), select@),
    {
        let ghost n = it.index();
        assert(all.take(n + 1).drop_last() =~= all.take(n));
        assert(all.take(n + 1).last() == entry);
        if select.len() == 0 || is_listed(select, entry.0.as_str()) {
            left.push(entry);
        }
    }
    assert(all.take(all.len() as int) =~= all);
    left
}

/// A matched device as it goes into the result, with its place in it.
#[derive(Debug)]
pub struct QueryRow {
    pub device: DeviceView,
    pub key: Vec<u8>,
}

/// The place of a device in a result: by the field it is sorted by, where it is.
pub open spec fn place_of(device: DeviceView, sort: Option<Sort>) -> Seq<u8> {
    match sort {
        Some(sort) => key_of(state_of(device.fields@, sort.field@), sort.descending),
        None => Seq::empty(),
    }
}

/// Whether `row` is how `device` goes into the result of a query.
pub open spec fn is_row_of(row: QueryRow, device: DeviceView, query: Query) -> bool {
    &&& row.device.device == device.device
    &&& row.device.channels == device.channels
    &&& row.device.quality == device.quality
    &&& row.device.fields@ == kept(device.fields@, query.select@)
    &&& row.device.revisions@ == kept(device.revisions@, query.select@)
    &&& row.key@ == place_of(device, query.sort)
}

/// The devices that match, in order.
pub open spec fn matching(devices: Seq<DeviceView>, decisions: Seq<Decision>) -> Seq<DeviceView>
    decreases devices.len(),
{
    if devices.len() == 0 {
        Seq::empty()
    } else {
        let before = matching(devices.drop_last(), decisions);
        let at = devices.len() - 1;
        if at < decisions.len() && decisions[at] == Decision::Match {
            before.push(devices.last())
        } else {
            before
        }
    }
}

/// The labels that devices are counted under, one device after the other.
pub open spec fn all_labels(devices: Seq<DeviceView>, os_field: Seq<char>) -> Seq<FacetKeyView>
    decreases devices.len(),
{
    if devices.len() == 0 {
        Seq::empty()
    } else {
        all_labels(devices.drop_last(), os_field) + labels_of(devices.last(), os_field)
    }
}

/// How many devices are undecided.
pub open spec fn undecided(decisions: Seq<Decision>) -> nat
    decreases decisions.len(),
{
    if decisions.len() == 0 {
        0
    } else {
        undecided(decisions.drop_last()) + (if decisions.last() == Decision::Unknown {
            1nat
        } else {
            0
        })
    }
}

/// A page of devices and where the next one begins, where there is one.
#[derive(Debug)]
pub struct AssetPage {
    pub devices: Vec<DeviceView>,
    pub next: Option<String>,
}

/// What a page adds to the result of a query.
#[derive(Debug)]
pub struct QueryStep {
    pub rows: Vec<QueryRow>,
    pub facets: OrderedMap<FacetKey, u64>,
    pub total: u64,
    pub unknown: u64,
    pub cursor: Option<String>,
    pub done: bool,
}

/// Whether `step` is what a page adds to the result of a query: a row and labels
/// for each device that matches, how many devices were seen and how many stayed
/// undecided, where reading goes on, and whether it is finished.
pub open spec fn advances(
    step: QueryStep,
    query: Query,
    page: AssetPage,
    decisions: Seq<Decision>,
    after: Option<String>,
    os_field: Seq<char>,
) -> bool {
    let matched = matching(page.devices@, decisions);
    &&& step.rows@.len() == matched.len()
    &&& forall|i: int|
        0 <= i < matched.len() ==> is_row_of(#[trigger] step.rows@[i], matched[i], query)
    &&& counts_are(step.facets, all_labels(matched, os_field))
    &&& step.total == page.devices@.len()
    &&& step.unknown == undecided(decisions)
    &&& step.cursor == (if page.devices@.len() > 0 {
        Some(page.devices@.last().device)
    } else {
        after
    })
    &&& step.done == (page.next is None)
}

/// The labels of more matching devices are at least as many.
proof fn labels_grow(
    devices: Seq<DeviceView>,
    decisions: Seq<Decision>,
    os_field: Seq<char>,
    few: int,
)
    requires
        0 <= few <= devices.len(),
    ensures
        all_labels(matching(devices.take(few), decisions), os_field).len() <= all_labels(
            matching(devices, decisions),
            os_field,
        ).len(),
    decreases devices.len(),
{
    if few == devices.len() {
        assert(devices.take(few) =~= devices);
    } else {
        assert(devices.drop_last().take(few) =~= devices.take(few));
        labels_grow(devices.drop_last(), decisions, os_field, few);
        let before = matching(devices.drop_last(), decisions);
        let last = devices.last();
        assert(before.push(last).drop_last() =~= before);
    }
}

/// What a page adds to the result of a query.
pub fn advance_asset_query(
    query: &Query,
    page: AssetPage,
    decisions: &Vec<Decision>,
    after: Option<String>,
    os_field: &str,
) -> (step: QueryStep)
    requires
        all_labels(matching(page.devices@, decisions@), os_field@).len() <= u64::MAX,
    ensures
        advances(step, *query, page, decisions@, after, os_field@),
{
    let ghost all = page.devices@;
    let total: u64 = page.devices.len() as u64;
    let cursor = if page.devices.len() > 0 {
        Some(page.devices[page.devices.len() - 1].device.clone())
    } else {
        after
    };
    let done = page.next.is_none();
    let unknown: u64 = count_undecided(decisions);
    let mut rows: Vec<QueryRow> = Vec::new();
    let mut facets: OrderedMap<FacetKey, u64> = OrderedMap::new();
    let mut i: usize = 0;
    assert(all.take(0) =~= Seq::<DeviceView>::empty());
    for device in it: page.devices
        invariant
            it.seq() == all,
            i == it.index(),
            i <= all.len(),
            all.len() <= usize::MAX,
            all_labels(matching(all, decisions@), os_field@).len() <= u64::MAX,
            rows@.len() == matching(all.take(i as int), decisions@).len(),
            forall|r: int|
                0 <= r < rows@.len() ==> is_row_of(
                    #[trigger] rows@[r],
                    matching(all.take(i as int), decisions@)[r],
                    *query,
                ),
            counts_are(
                facets,
                all_labels(matching(all.take(i as int), decisions@), os_field@),
            ),
    {
        let ghost before = matching(all.take(i as int), decisions@);
        let ghost next = all.take(i + 1);
        assert(next.drop_last() =~= all.take(i as int));
        assert(next.last() == device);
        if i < decisions.len() && decisions[i] == Decision::Match {
            let found = labels(&device, os_field);
            proof {
                labels_grow(all, decisions@, os_field@, i + 1);
                assert(before.push(device).drop_last() =~= before);
                assert(label_views(found@).len() == found@.len());
            }
            count_labels(&mut facets, found, Ghost(all_labels(before, os_field@)));
            let place = match &query.sort {
                Some(sort) => key(
                    find_state(&device.fields, sort.field.as_str()),
                    sort.descending,
                ),
                None => Vec::new(),
            };
            let row = QueryRow {
                device: DeviceView {
                    device: device.device,
                    channels: device.channels,
                    fields: keep(device.fields, &query.select),
                    quality: device.quality,
                    revisions: keep(device.revisions, &query.select),
                },
                key: place,
            };
            assert(row.key@ =~= place_of(all[i as int], query.sort));
            rows.push(row);
        }
        i += 1;
    }
    assert(all.take(all.len() as int) =~= all);
    QueryStep { rows, facets, total, unknown, cursor, done }
}

/// How many devices are undecided.
fn count_undecided(decisions: &Vec<Decision>) -> (count: u64)
    ensures
        count == undecided(decisions@),
{
    let mut count: u64 = 0;
    let mut i: usize = 0;
    while i < decisions.len()
        invariant
            i <= decisions@.len(),
            count == undecided(decisions@.take(i as int)),
            count <= i,
        decreases decisions@.len() - i,
    {
        assert(decisions@.take(i + 1).drop_last() =~= decisions@.take(i as int));
        if decisions[i] == Decision::Unknown {
            count += 1;
        }
        i += 1;
    }
    assert(decisions@.take(i as int) =~= decisions@);
    count
}

/// The most devices that a query looks at.
pub const QUERY_OBJECTS: u64 = 1_000_000;

/// How far a query has come.
#[derive(Clone, Copy, Debug, PartialEq, Eq, Structural)]
pub struct QueryTotals {
    pub total: u64,
    pub matched: u64,
    pub unknown: u64,
}

impl QueryTotals {
    /// Whether no device was counted twice: those that match and those that stayed
    /// undecided are among those that were seen, and these are not too many.
    pub open spec fn is_sound(self) -> bool {
        self.matched + self.unknown <= self.total <= QUERY_OBJECTS
    }
}

/// How far a query has come with what a page saw, unless it would have looked at
/// too many devices.
pub open spec fn totals_with(totals: QueryTotals, total: u64, matched: u64, unknown: u64) -> Result<
    QueryTotals,
    Error,
> {
    if totals.total + total > QUERY_OBJECTS {
        Err(Error::Unavailable(Failure::AssetObjectLimit))
    } else {
        Ok(
            QueryTotals {
                total: (totals.total + total) as u64,
                matched: (totals.matched + matched) as u64,
                unknown: (totals.unknown + unknown) as u64,
            },
        )
    }
}

/// Adds what a page saw to how far a query has come, unless it would have looked
/// at too many devices.
pub fn add_totals(totals: QueryTotals, total: u64, matched: u64, unknown: u64) -> (
    added: Result<QueryTotals, Error>)
    requires
        totals.matched <= totals.total,
        totals.unknown <= totals.total,
        matched <= total,
        unknown <= total,
    ensures
        added == totals_with(totals, total, matched, unknown),
{
    if totals.total > QUERY_OBJECTS || total > QUERY_OBJECTS - totals.total {
        return Err(Error::Unavailable(Failure::AssetObjectLimit));
    }
    Ok(
        QueryTotals {
            total: totals.total + total,
            matched: totals.matched + matched,
            unknown: totals.unknown + unknown,
        },
    )
}

/// Never more devices match than a page holds.
pub proof fn matches_are_bounded(devices: Seq<DeviceView>, decisions: Seq<Decision>)
    ensures
        matching(devices, decisions).len() <= devices.len(),
    decreases devices.len(),
{
    if devices.len() > 0 {
        matches_are_bounded(devices.drop_last(), decisions);
    }
}

/// The devices that match and the decisions that stayed open are no more than the
/// devices.
proof fn decisions_are_counted_once(devices: Seq<DeviceView>, decisions: Seq<Decision>)
    requires
        decisions.len() == devices.len(),
    ensures
        matching(devices, decisions).len() + undecided(decisions) <= devices.len(),
    decreases devices.len(),
{
    if devices.len() > 0 {
        decisions_are_counted_once(devices.drop_last(), decisions.drop_last());
        same_decisions(devices.drop_last(), decisions.drop_last(), decisions);
    }
}

/// Which devices match depends on their own decisions alone.
proof fn same_decisions(devices: Seq<DeviceView>, one: Seq<Decision>, two: Seq<Decision>)
    requires
        devices.len() <= one.len() <= two.len(),
        forall|i: int| 0 <= i < devices.len() ==> one[i] == two[i],
    ensures
        matching(devices, one) == matching(devices, two),
    decreases devices.len(),
{
    if devices.len() > 0 {
        same_decisions(devices.drop_last(), one, two);
    }
}

/// A page with one decision for each device counts no device twice: those that
/// match and those that stayed undecided are among those that it saw.
pub proof fn pages_count_each_device_once(
    step: QueryStep,
    query: Query,
    page: AssetPage,
    decisions: Seq<Decision>,
    after: Option<String>,
    os_field: Seq<char>,
)
    requires
        advances(step, query, page, decisions, after, os_field),
        decisions.len() == page.devices@.len(),
    ensures
        step.rows@.len() + step.unknown <= step.total,
{
    decisions_are_counted_once(page.devices@, decisions);
}

/// Whether a page was read behind a position: its devices stand in order, each
/// behind the position.
pub open spec fn is_behind(devices: Seq<DeviceView>, after: Option<String>) -> bool {
    &&& forall|i: int, j: int|
        0 <= i < j < devices.len() ==> text_before(
            #[trigger] devices[i].device@,
            #[trigger] devices[j].device@,
        )
    &&& after matches Some(after) ==> forall|i: int|
        0 <= i < devices.len() ==> text_before(after@, #[trigger] devices[i].device@)
}

/// A query that goes on behind the position it had come to, after an interruption
/// or not, looks at no device twice: the next page holds none of this one, and is
/// itself behind everything that this one was behind.
pub proof fn resumed_queries_look_at_each_device_once(
    step: QueryStep,
    query: Query,
    page: AssetPage,
    decisions: Seq<Decision>,
    after: Option<String>,
    os_field: Seq<char>,
    next: Seq<DeviceView>,
)
    requires
        advances(step, query, page, decisions, after, os_field),
        is_behind(page.devices@, after),
        is_behind(next, step.cursor),
    ensures
        forall|i: int, j: int|
            0 <= i < page.devices@.len() && 0 <= j < next.len() ==> (
            #[trigger] page.devices@[i]).device@ != (#[trigger] next[j]).device@,
        is_behind(next, after),
{
    let devices = page.devices@;
    if devices.len() > 0 {
        let last = devices.last();
        assert(last == devices[devices.len() - 1]);
        assert forall|i: int, j: int|
            0 <= i < devices.len() && 0 <= j < next.len() implies (#[trigger] devices[i]).device@
            != (#[trigger] next[j]).device@ by {
            assert(text_before(last.device@, next[j].device@));
            if i < devices.len() - 1 {
                assert(text_before(devices[i].device@, devices[devices.len() - 1].device@));
                text_before_is_transitive(devices[i].device@, last.device@, next[j].device@);
                text_before_is_asymmetric(devices[i].device@, next[j].device@);
            } else {
                text_before_is_asymmetric(last.device@, next[j].device@);
            }
        }
        if let Some(position) = after {
            assert forall|j: int| 0 <= j < next.len() implies text_before(
                position@,
                #[trigger] next[j].device@,
            ) by {
                assert(text_before(position@, devices[devices.len() - 1].device@));
                assert(text_before(last.device@, next[j].device@));
                text_before_is_transitive(position@, last.device@, next[j].device@);
            }
        }
    }
}

/// How far a query has come with the pages that it has read, unless it looked at
/// too many devices.
pub open spec fn totals_of(steps: Seq<QueryStep>) -> Result<QueryTotals, Error>
    decreases steps.len(),
{
    if steps.len() == 0 {
        Ok(QueryTotals { total: 0, matched: 0, unknown: 0 })
    } else {
        match totals_of(steps.drop_last()) {
            Ok(totals) => totals_with(
                totals,
                steps.last().total,
                steps.last().rows@.len() as u64,
                steps.last().unknown,
            ),
            Err(error) => Err(error),
        }
    }
}

/// How many rows some pages add.
pub open spec fn rows_of(steps: Seq<QueryStep>) -> nat
    decreases steps.len(),
{
    if steps.len() == 0 {
        0
    } else {
        rows_of(steps.drop_last()) + steps.last().rows@.len()
    }
}

/// However many pages a query reads, it counts no device twice and looks at no more
/// than it may, and as many rows are added as devices match. It ends for no other
/// reason than that it would have looked at too many.
pub proof fn totals_stay_sound(steps: Seq<QueryStep>)
    requires
        forall|i: int|
            0 <= i < steps.len() ==> (#[trigger] steps[i]).rows@.len() + steps[i].unknown
                <= steps[i].total,
    ensures
        match totals_of(steps) {
            Ok(totals) => totals.is_sound() && totals.matched == rows_of(steps),
            Err(error) => error == Error::Unavailable(Failure::AssetObjectLimit),
        },
    decreases steps.len(),
{
    if steps.len() > 0 {
        let before = steps.drop_last();
        assert forall|i: int| 0 <= i < before.len() implies (#[trigger] before[i]).rows@.len()
            + before[i].unknown <= before[i].total by {
            assert(before[i] == steps[i]);
        }
        totals_stay_sound(before);
        assert(steps.last() == steps[steps.len() - 1]);
    }
}

/// The most bytes that a device of a result takes.
pub const DOCUMENT_BYTES: usize = 1_048_576;

/// The digest that a device of a result is stored with, unless it takes too
/// many bytes.
pub fn document_digest(document: &Vec<u8>) -> (digest: Result<[u8; 32], Error>)
    ensures
        match digest {
            Ok(digest) => document@.len() <= DOCUMENT_BYTES && digest@ == sha256_of(document@),
            Err(error) => document@.len() > DOCUMENT_BYTES && error == Error::Unavailable(
                Failure::AssetBytesLimit,
            ),
        },
{
    if document.len() > DOCUMENT_BYTES {
        return Err(Error::Unavailable(Failure::AssetBytesLimit));
    }
    Ok(sha256(document.as_slice()))
}

/// A page is kept exactly where every device on it was decided. It is tried again only where
/// it was too large, with half as many devices, and given up for the reason that it could
/// not be read, or for its size where it is of a single device.
pub proof fn pages_are_tried_again_only_where_too_large(limit: usize, attempt: Attempt)
    ensures
        follows_attempt(limit, attempt) is Proceed <==> attempt is Done,
        follows_attempt(limit, attempt) is Retry <==> limit > 1 && (attempt is Undecided || (
        attempt matches Attempt::Unread(error) && (error == Error::Unavailable(
            Failure::AssetBytesLimit,
        ) || error == Error::Unavailable(Failure::AssetSourceLimit)))),
        follows_attempt(limit, attempt) matches NextAttempt::Retry(fewer) ==> 2 * fewer <= limit
            < 2 * fewer + 2,
        follows_attempt(limit, attempt) is Refuse && attempt is Unread ==> follows_attempt(
            limit,
            attempt,
        ) == NextAttempt::Refuse(attempt->Unread_0),
        attempt is Undecidable ==> follows_attempt(limit, attempt) == NextAttempt::Refuse(
            Error::Malformed,
        ),
        attempt is Undecided && limit <= 1 ==> follows_attempt(limit, attempt)
            == NextAttempt::Refuse(Error::Unavailable(Failure::AssetBytesLimit)),
{
}

/// Every page adds what it saw: each of the three counts grows by its own.
pub proof fn pages_add_what_they_saw(totals: QueryTotals, total: u64, matched: u64, unknown: u64)
    requires
        totals.matched <= totals.total,
        totals.unknown <= totals.total,
        matched <= total,
        unknown <= total,
    ensures
        totals_with(totals, total, matched, unknown) is Ok <==> totals.total + total
            <= QUERY_OBJECTS,
        totals_with(totals, total, matched, unknown) matches Ok(added) ==> added.total
            == totals.total + total && added.matched == totals.matched + matched && added.unknown
            == totals.unknown + unknown,
{
}

/// A query can be prepared only where every field that it selects and the field that it is
/// sorted by have a definition of that name, and where it selects none twice.
pub proof fn prepared_queries_name_known_fields(
    query: Query,
    sound: bool,
    catalog: Seq<FieldDefinition>,
    limits: Limits,
    at: int,
)
    requires
        is_valid(query, sound, catalog, limits),
    ensures
        0 <= at < query.select@.len() ==> exists|d: int|
            0 <= d < catalog.len() && (#[trigger] catalog[d]).key@ == query.select@[at]@,
        forall|other: int|
            0 <= at < other < query.select@.len() ==> query.select@[at]@ != (
            #[trigger] query.select@[other])@,
        query.sort matches Some(sort) ==> exists|d: int|
            0 <= d < catalog.len() && (#[trigger] catalog[d]).key@ == sort.field@,
        query.criteria is Some ==> sound,
{
    if 0 <= at < query.select@.len() {
        definitions_are_of_their_name(catalog, query.select@[at]@);
    }
    if let Some(sort) = query.sort {
        definitions_are_of_their_name(catalog, sort.field@);
    }
}

proof fn definitions_are_of_their_name(catalog: Seq<FieldDefinition>, field: Seq<char>)
    ensures
        defined(catalog, field) is Some ==> exists|d: int|
            0 <= d < catalog.len() && (#[trigger] catalog[d]).key@ == field,
    decreases catalog.len(),
{
    if catalog.len() > 0 {
        if catalog[0].key@ == field {
            assert(catalog[0].key@ == field);
        } else if defined(catalog, field) is Some {
            let rest = catalog.drop_first();
            definitions_are_of_their_name(rest, field);
            let d = choose|d: int| 0 <= d < rest.len() && (#[trigger] rest[d]).key@ == field;
            assert(catalog[d + 1].key@ == field);
        }
    }
}

} // verus!
