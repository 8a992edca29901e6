//! What a page puts into the result of a query: which devices, which of their fields,
//! and under which labels they are counted.
use crate::inventory::{ResolvedField, Scalar, State};
use crate::management::assets::model::{DeviceView, Facet, Query};
use crate::management::assets::query::{
    advances, all_labels, channel_labels, is_row_of, keeps, kept, labels_of, matching, occurrences,
    os_labels, state_labels, state_name_of, state_of, undecided, AssetPage, Decision, FacetKeyView,
    QueryRow, QueryStep,
};
use crate::management::assets::query_sort::key_of;
use crate::management::assets::snapshot::distinct_keys;
use crate::pick::{alike, number, one_more, picks, sum, sums_alike};
use vstd::prelude::*;

verus! {

/// Whether `name` is one of the names in `select`.
pub open spec fn is_named(select: Seq<String>, name: Seq<char>) -> bool {
    exists|s: int| 0 <= s < select.len() && (#[trigger] select[s])@ == name
}

/// Whether `select` names the field of the entry at a position, or names none at
/// all.
pub open spec fn selects<T>(entries: Seq<(String, T)>, select: Seq<String>) -> spec_fn(int) -> bool {
    |i: int| select.len() == 0 || is_named(select, entries[i].0@)
}

/// What stays of entries are those that are selected, each as it was and in order.
/// The answer is where each of them stood.
pub proof fn selected_entries_stay<T>(entries: Seq<(String, T)>, select: Seq<String>) -> (at: Seq<
    int,
>)
    ensures
        picks(at, entries.len() as int, selects(entries, select)),
        kept(entries, select).len() == at.len(),
        forall|k: int|
            0 <= k < at.len() ==> #[trigger] kept(entries, select)[k] == entries[at[k]],
    decreases entries.len(),
{
    if entries.len() == 0 {
        Seq::empty()
    } else {
        let last = entries.len() - 1;
        let fewer = entries.drop_last();
        let at = selected_entries_stay(fewer, select);
        let (one, two) = (selects(fewer, select), selects(entries, select));
        assert forall|i: int| 0 <= i < last implies #[trigger] one(i) == two(i) by {
            assert(fewer[i] == entries[i]);
        }
        alike(at, last as nat, one, two);
        one_more(at, last, selects(entries, select));
        assert(keeps(select, entries.last().0@) == selects(entries, select)(last));
        if selects(entries, select)(last) {
            at.push(last)
        } else {
            at
        }
    }
}

/// A row of a result shows its device: with every field where the query selects
/// none, and otherwise with the selected fields and no others, each with what is
/// known of it; and likewise the revisions of its fields.
pub proof fn rows_show_what_was_selected(row: QueryRow, device: DeviceView, query: Query)
    requires
        is_row_of(row, device, query),
    ensures
        row.device.device@ == device.device@,
        row.device.channels == device.channels,
        row.device.quality == device.quality,
        query.select@.len() == 0 ==> row.device.fields@ == device.fields@
            && row.device.revisions@ == device.revisions@,
        query.select@.len() > 0 ==> forall|r: int|
            0 <= r < row.device.fields@.len() ==> is_named(
                query.select@,
                (#[trigger] row.device.fields@[r]).0@,
            ),
        query.select@.len() > 0 ==> forall|r: int|
            0 <= r < row.device.revisions@.len() ==> is_named(
                query.select@,
                (#[trigger] row.device.revisions@[r]).0@,
            ),
        forall|r: int|
            0 <= r < row.device.fields@.len() ==> device.fields@.contains(
                #[trigger] row.device.fields@[r],
            ),
        forall|r: int|
            0 <= r < row.device.revisions@.len() ==> device.revisions@.contains(
                #[trigger] row.device.revisions@[r],
            ),
        forall|f: int|
            0 <= f < device.fields@.len() && is_named(
                query.select@,
                (#[trigger] device.fields@[f]).0@,
            ) ==> row.device.fields@.contains(device.fields@[f]),
        forall|f: int|
            0 <= f < device.revisions@.len() && is_named(
                query.select@,
                (#[trigger] device.revisions@[f]).0@,
            ) ==> row.device.revisions@.contains(device.revisions@[f]),
{
    entries_show_what_was_selected(row.device.fields@, device.fields@, query.select@);
    entries_show_what_was_selected(row.device.revisions@, device.revisions@, query.select@);
}

proof fn entries_show_what_was_selected<T>(
    shown: Seq<(String, T)>,
    entries: Seq<(String, T)>,
    select: Seq<String>,
)
    requires
        shown == kept(entries, select),
    ensures
        select.len() == 0 ==> shown == entries,
        select.len() > 0 ==> forall|r: int|
            0 <= r < shown.len() ==> is_named(select, (#[trigger] shown[r]).0@),
        forall|r: int| 0 <= r < shown.len() ==> entries.contains(#[trigger] shown[r]),
        forall|f: int|
            0 <= f < entries.len() && is_named(select, (#[trigger] entries[f]).0@)
                ==> shown.contains(entries[f]),
{
    let at = selected_entries_stay(entries, select);
    let wanted = selects(entries, select);
    assert forall|f: int| 0 <= f < entries.len() && #[trigger] wanted(f) implies shown.contains(
        entries[f],
    ) by {
        let k = at.index_of(f);
        assert(at.contains(f));
        assert(shown[k] == entries[at[k]]);
    }
    assert forall|f: int|
        0 <= f < entries.len() && is_named(select, (#[trigger] entries[f]).0@)
        implies shown.contains(entries[f]) by {
        assert(wanted(f));
    }
    assert forall|r: int| 0 <= r < shown.len() implies entries.contains(#[trigger] shown[r])
        && wanted(at[r]) by {
        assert(entries[at[r]] == shown[r]);
    }
    if select.len() > 0 {
        assert forall|r: int| 0 <= r < shown.len() implies is_named(
            select,
            (#[trigger] shown[r]).0@,
        ) by {
            assert(wanted(at[r]));
            assert(shown[r] == entries[at[r]]);
        }
    } else {
        all_entries_stay(entries, select);
    }
}

proof fn all_entries_stay<T>(entries: Seq<(String, T)>, select: Seq<String>)
    requires
        select.len() == 0,
    ensures
        kept(entries, select) == entries,
    decreases entries.len(),
{
    if entries.len() > 0 {
        all_entries_stay(entries.drop_last(), select);
    }
    assert(kept(entries, select) =~= entries);
}

/// Whether the device at a position was decided to match.
pub open spec fn matches(decisions: Seq<Decision>) -> spec_fn(int) -> bool {
    |i: int| i < decisions.len() && decisions[i] == Decision::Match
}

/// Whether the device at a position stayed undecided.
pub open spec fn stays_open(decisions: Seq<Decision>) -> spec_fn(int) -> bool {
    |i: int| decisions[i] == Decision::Unknown
}

/// Where the devices that match stand.
proof fn matching_is_picked(devices: Seq<DeviceView>, decisions: Seq<Decision>) -> (at: Seq<int>)
    ensures
        picks(at, devices.len() as int, matches(decisions)),
        matching(devices, decisions).len() == at.len(),
        forall|k: int|
            0 <= k < at.len() ==> #[trigger] matching(devices, decisions)[k] == devices[at[k]],
    decreases devices.len(),
{
    if devices.len() == 0 {
        Seq::empty()
    } else {
        let last = devices.len() - 1;
        let at = matching_is_picked(devices.drop_last(), decisions);
        one_more(at, last, matches(decisions));
        if matches(decisions)(last) {
            at.push(last)
        } else {
            at
        }
    }
}

proof fn undecided_is_counted(decisions: Seq<Decision>)
    ensures
        undecided(decisions) == number(decisions.len(), stays_open(decisions)),
    decreases decisions.len(),
{
    if decisions.len() > 0 {
        let fewer = decisions.drop_last();
        undecided_is_counted(fewer);
        alike(Seq::empty(), fewer.len(), stays_open(fewer), stays_open(decisions));
    }
}

/// A page puts exactly the devices into the result that were decided to match, each
/// once, in the order of the page, and counts as undecided exactly those that were
/// not decided. The answer is where each of the rows stood on the page.
pub proof fn rows_are_the_devices_that_match(
    step: QueryStep,
    query: Query,
    page: AssetPage,
    decisions: Seq<Decision>,
    after: Option<String>,
    os_field: Seq<char>,
) -> (at: Seq<int>)
    requires
        advances(step, query, page, decisions, after, os_field),
    ensures
        picks(at, page.devices@.len() as int, matches(decisions)),
        step.rows@.len() == at.len(),
        forall|k: int|
            0 <= k < at.len() ==> (#[trigger] step.rows@[k]).device.device@
                == page.devices@[at[k]].device@ && is_row_of(
                step.rows@[k],
                page.devices@[at[k]],
                query,
            ),
        step.unknown == number(decisions.len(), stays_open(decisions)),
        step.total == page.devices@.len(),
{
    undecided_is_counted(decisions);
    let at = matching_is_picked(page.devices@, decisions);
    assert forall|k: int| 0 <= k < at.len() implies is_row_of(
        #[trigger] step.rows@[k],
        page.devices@[at[k]],
        query,
    ) by {
        assert(matching(page.devices@, decisions)[k] == page.devices@[at[k]]);
    }
    at
}

/// Whether a device runs the operating system that is called `label`: what is known
/// of the first of its fields that is called `os_field` is that text.
pub open spec fn runs(device: DeviceView, os_field: Seq<char>, label: Seq<char>) -> bool {
    exists|f: int|
        {
            &&& 0 <= f < device.fields@.len()
            &&& (#[trigger] device.fields@[f]).0@ == os_field
            &&& forall|e: int| 0 <= e < f ==> (#[trigger] device.fields@[e]).0@ != os_field
            &&& device.fields@[f].1.state matches State::Known(Scalar::String(text)) && text@
                == label
        }
}

/// Whether what is known of a field at a position goes by the name `label`.
pub open spec fn is_known_as(fields: Seq<(String, ResolvedField)>, label: Seq<char>) -> spec_fn(
    int,
) -> bool {
    |f: int| state_name_of(fields[f].1.state) == label
}

/// How often a device stands under a label: once under each channel that it is on,
/// once under the operating system that it runs, and under each state as often as
/// its fields are in it.
pub open spec fn stands_under(device: DeviceView, os_field: Seq<char>, key: FacetKeyView) -> nat {
    match key.facet {
        Facet::Channels => if device.channels@.contains(key.label) {
            1
        } else {
            0
        },
        Facet::OsVersions => if runs(device, os_field, key.label) {
            1
        } else {
            0
        },
        Facet::AssetStates => number(
            device.fields@.len(),
            is_known_as(device.fields@, key.label),
        ),
    }
}

/// How often the device at a position is counted under a label: not at all, where
/// it does not match.
pub open spec fn counts_for(
    devices: Seq<DeviceView>,
    decisions: Seq<Decision>,
    os_field: Seq<char>,
    key: FacetKeyView,
) -> spec_fn(int) -> nat {
    |i: int|
        if i < decisions.len() && decisions[i] == Decision::Match {
            stands_under(devices[i], os_field, key)
        } else {
            0nat
        }
}

proof fn occurrences_add(a: Seq<FacetKeyView>, b: Seq<FacetKeyView>, key: FacetKeyView)
    ensures
        occurrences(a + b, key) == occurrences(a, key) + occurrences(b, key),
    decreases b.len(),
{
    if b.len() == 0 {
        assert(a + b =~= a);
    } else {
        occurrences_add(a, b.drop_last(), key);
        assert((a + b).drop_last() =~= a + b.drop_last());
        assert((a + b).last() == b.last());
    }
}

/// A label that stands under another facet than all of some labels is not among
/// them.
proof fn other_facets_do_not_count(labels: Seq<FacetKeyView>, key: FacetKeyView)
    requires
        forall|i: int| 0 <= i < labels.len() ==> (#[trigger] labels[i]).facet != key.facet,
    ensures
        occurrences(labels, key) == 0,
    decreases labels.len(),
{
    if labels.len() > 0 {
        other_facets_do_not_count(labels.drop_last(), key);
    }
}

proof fn channels_are_counted(channels: Seq<Seq<char>>, key: FacetKeyView)
    requires
        key.facet == Facet::Channels,
        forall|i: int, j: int|
            0 <= i < j < channels.len() ==> #[trigger] channels[i] != #[trigger] channels[j],
    ensures
        occurrences(channel_labels(channels), key) == (if channels.contains(key.label) {
            1nat
        } else {
            0
        }),
    decreases channels.len(),
{
    let labels = channel_labels(channels);
    if channels.len() > 0 {
        let fewer = channels.drop_last();
        channels_are_counted(fewer, key);
        assert(labels.drop_last() =~= channel_labels(fewer));
        assert(labels.last().label == channels.last());
        if fewer.contains(key.label) {
            let k = fewer.index_of(key.label);
            assert(channels[k] == key.label);
            assert(channels[k] != channels[channels.len() - 1]);
        }
        if channels.contains(key.label) && channels.last() != key.label {
            let k = channels.index_of(key.label);
            assert(fewer[k] == key.label);
        }
    }
}

proof fn systems_are_found(fields: Seq<(String, ResolvedField)>, name: Seq<char>) -> (f: int)
    ensures
        match state_of(fields, name) {
            Some(state) => {
                &&& 0 <= f < fields.len()
                &&& fields[f].0@ == name
                &&& fields[f].1.state == state
                &&& forall|e: int| 0 <= e < f ==> (#[trigger] fields[e]).0@ != name
            },
            None => forall|e: int| 0 <= e < fields.len() ==> (#[trigger] fields[e]).0@ != name,
        },
    decreases fields.len(),
{
    if fields.len() == 0 {
        0
    } else if fields[0].0@ == name {
        0
    } else {
        let rest = fields.drop_first();
        let f = systems_are_found(rest, name);
        assert forall|e: int| 0 < e < fields.len() implies (#[trigger] fields[e]) == rest[e - 1] by {}
        f + 1
    }
}

proof fn states_are_counted(fields: Seq<(String, ResolvedField)>, key: FacetKeyView)
    requires
        key.facet == Facet::AssetStates,
    ensures
        occurrences(state_labels(fields), key) == number(
            fields.len(),
            is_known_as(fields, key.label),
        ),
    decreases fields.len(),
{
    let labels = state_labels(fields);
    if fields.len() > 0 {
        let fewer = fields.drop_last();
        states_are_counted(fewer, key);
        assert(labels.drop_last() =~= state_labels(fewer));
        alike(
            Seq::empty(),
            fewer.len(),
            is_known_as(fewer, key.label),
            is_known_as(fields, key.label),
        );
    }
}

/// A device is counted under each label as often as it stands under it.
proof fn labels_are_counted(device: DeviceView, os_field: Seq<char>, key: FacetKeyView)
    requires
        device.channels.well_formed(),
    ensures
        occurrences(labels_of(device, os_field), key) == stands_under(device, os_field, key),
{
    let channels = channel_labels(device.channels@);
    let os = os_labels(state_of(device.fields@, os_field));
    let states = state_labels(device.fields@);
    assert(labels_of(device, os_field) == channels + os + states);
    occurrences_add(channels + os, states, key);
    occurrences_add(channels, os, key);
    match key.facet {
        Facet::Channels => {
            other_facets_do_not_count(os, key);
            other_facets_do_not_count(states, key);
            assert forall|i: int, j: int| 0 <= i < j < device.channels@.len() implies #[trigger]
                device.channels@[i] != #[trigger] device.channels@[j] by {
                distinct_keys(device.channels@, i, j);
            }
            channels_are_counted(device.channels@, key);
        },
        Facet::OsVersions => {
            other_facets_do_not_count(channels, key);
            other_facets_do_not_count(states, key);
            let f = systems_are_found(device.fields@, os_field);
            if os.len() > 0 {
                assert(os.drop_last() =~= Seq::empty());
                assert(occurrences(os.drop_last(), key) == 0);
                if os.last().label == key.label {
                    assert(device.fields@[f].0@ == os_field);
                    assert(runs(device, os_field, key.label));
                }
            }
            if runs(device, os_field, key.label) {
                let g = choose|g: int|
                    {
                        &&& 0 <= g < device.fields@.len()
                        &&& (#[trigger] device.fields@[g]).0@ == os_field
                        &&& forall|e: int|
                            0 <= e < g ==> (#[trigger] device.fields@[e]).0@ != os_field
                        &&& device.fields@[g].1.state matches State::Known(Scalar::String(text))
                            && text@ == key.label
                    };
                assert(state_of(device.fields@, os_field) is Some);
                if f < g {
                    assert(device.fields@[f].0@ != os_field);
                }
                if g < f {
                    assert(device.fields@[g].0@ != os_field);
                }
                assert(os.last() == key);
            }
        },
        Facet::AssetStates => {
            other_facets_do_not_count(channels, key);
            other_facets_do_not_count(os, key);
            states_are_counted(device.fields@, key);
        },
    }
}

proof fn matching_labels_are_counted(
    devices: Seq<DeviceView>,
    decisions: Seq<Decision>,
    os_field: Seq<char>,
    key: FacetKeyView,
)
    requires
        forall|i: int| 0 <= i < devices.len() ==> (#[trigger] devices[i]).channels.well_formed(),
    ensures
        occurrences(all_labels(matching(devices, decisions), os_field), key) == sum(
            devices.len(),
            counts_for(devices, decisions, os_field, key),
        ),
    decreases devices.len(),
{
    if devices.len() > 0 {
        let fewer = devices.drop_last();
        let last = devices.len() - 1;
        matching_labels_are_counted(fewer, decisions, os_field, key);
        sums_alike(
            fewer.len(),
            counts_for(fewer, decisions, os_field, key),
            counts_for(devices, decisions, os_field, key),
        );
        if matches(decisions)(last) {
            let before = matching(fewer, decisions);
            assert(before.push(devices.last()).drop_last() =~= before);
            occurrences_add(
                all_labels(before, os_field),
                labels_of(devices.last(), os_field),
                key,
            );
            labels_are_counted(devices[last], os_field, key);
        }
    }
}

/// Every label of a page's result says how many of the devices that match are on
/// that channel, or run that operating system, or how many of their fields are in
/// that state. What counts nothing is not a label.
pub proof fn labels_count_the_devices_that_match(
    step: QueryStep,
    query: Query,
    page: AssetPage,
    decisions: Seq<Decision>,
    after: Option<String>,
    os_field: Seq<char>,
    key: FacetKeyView,
)
    requires
        advances(step, query, page, decisions, after, os_field),
        forall|i: int|
            0 <= i < page.devices@.len() ==> (#[trigger] page.devices@[i]).channels.well_formed(),
    ensures
        ({
            let counted = sum(
                page.devices@.len(),
                counts_for(page.devices@, decisions, os_field, key),
            );
            &&& step.facets@.dom().contains(key) <==> counted > 0
            &&& counted > 0 ==> step.facets@[key] == counted
        }),
{
    matching_labels_are_counted(page.devices@, decisions, os_field, key);
    assert(step.facets@.dom().contains(key) <==> occurrences(
        all_labels(matching(page.devices@, decisions), os_field),
        key,
    ) > 0);
}

/// The rows of a query that is sorted stand by what is known of the field that it is
/// sorted by; those of one that is not all stand alike.
pub proof fn rows_stand_by_the_field_they_are_sorted_by(
    row: QueryRow,
    device: DeviceView,
    query: Query,
)
    requires
        is_row_of(row, device, query),
    ensures
        match query.sort {
            None => row.key@.len() == 0,
            Some(sort) => {
                &&& forall|f: int|
                    0 <= f < device.fields@.len() && (#[trigger] device.fields@[f]).0@
                        == sort.field@ && (forall|e: int|
                        0 <= e < f ==> (#[trigger] device.fields@[e]).0@ != sort.field@)
                        ==> row.key@ == key_of(
                        Some(device.fields@[f].1.state),
                        sort.descending,
                    )
                &&& (forall|e: int|
                    0 <= e < device.fields@.len() ==> (#[trigger] device.fields@[e]).0@
                        != sort.field@) ==> row.key@ == key_of(None, sort.descending)
            },
        },
{
    if let Some(sort) = query.sort {
        let f = systems_are_found(device.fields@, sort.field@);
        assert forall|g: int|
            0 <= g < device.fields@.len() && (#[trigger] device.fields@[g]).0@ == sort.field@ && (
            forall|e: int| 0 <= e < g ==> (#[trigger] device.fields@[e]).0@ != sort.field@)
            implies row.key@ == key_of(Some(device.fields@[g].1.state), sort.descending) by {
            if f < g {
                assert(device.fields@[f].0@ != sort.field@);
            }
            if g < f {
                assert(device.fields@[g].0@ != sort.field@);
            }
        }
    }
}

} // verus!
