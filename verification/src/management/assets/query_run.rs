//! A query from its first page to its last: what its pages come to, however often
//! reading them was tried.
use crate::management::assets::model::{DeviceView, Query};
use crate::management::assets::query::{
    advances, is_behind, pages_count_each_device_once, rows_of, totals_of, totals_stay_sound,
    AssetPage, Decision, QueryStep,
};
use crate::management::automation::runtime::{follows, Follow};
use crate::management::request::Settlement;
use crate::order::{text_before, text_before_is_asymmetric, text_before_is_transitive};
use vstd::prelude::*;

verus! {

/// A page that was read, what was decided of its devices, what it adds to the
/// result, and whether that was kept.
pub struct PageAttempt {
    pub page: AssetPage,
    pub decisions: Seq<Decision>,
    pub step: QueryStep,
    pub committed: bool,
}

/// What was kept of some attempts.
pub open spec fn kept(attempts: Seq<PageAttempt>) -> Seq<QueryStep>
    decreases attempts.len(),
{
    if attempts.len() == 0 {
        Seq::empty()
    } else if attempts.last().committed {
        kept(attempts.drop_last()).push(attempts.last().step)
    } else {
        kept(attempts.drop_last())
    }
}

/// The devices of the pages that were kept, in the order in which they were read.
pub open spec fn seen(attempts: Seq<PageAttempt>) -> Seq<DeviceView>
    decreases attempts.len(),
{
    if attempts.len() == 0 {
        Seq::empty()
    } else if attempts.last().committed {
        seen(attempts.drop_last()) + attempts.last().page.devices@
    } else {
        seen(attempts.drop_last())
    }
}

/// The position that a query has come to: that of the last page that was kept.
pub open spec fn position(attempts: Seq<PageAttempt>) -> Option<String>
    decreases attempts.len(),
{
    if attempts.len() == 0 {
        None
    } else if attempts.last().committed {
        attempts.last().step.cursor
    } else {
        position(attempts.drop_last())
    }
}

/// Whether a query is finished: its last page was kept.
pub open spec fn is_done(attempts: Seq<PageAttempt>) -> bool
    decreases attempts.len(),
{
    if attempts.len() == 0 {
        false
    } else if attempts.last().committed {
        attempts.last().step.done
    } else {
        is_done(attempts.drop_last())
    }
}

/// Whether `attempts` are those of one query: while it is not finished, a page is
/// read behind the position that it has come to, with one decision for each device,
/// and what the page adds is kept only where the query has not looked at too many
/// devices.
pub open spec fn is_run(query: Query, attempts: Seq<PageAttempt>, os_field: Seq<char>) -> bool
    decreases attempts.len(),
{
    attempts.len() == 0 || {
        let before = attempts.drop_last();
        let attempt = attempts.last();
        &&& is_run(query, before, os_field)
        &&& !is_done(before)
        &&& is_behind(attempt.page.devices@, position(before))
        &&& attempt.decisions.len() == attempt.page.devices@.len()
        &&& advances(
            attempt.step,
            query,
            attempt.page,
            attempt.decisions,
            position(before),
            os_field,
        )
        &&& attempt.committed ==> totals_of(kept(attempts)) is Ok
    }
}

/// Whether devices stand in order, so that none stands among them twice.
pub open spec fn in_order(devices: Seq<DeviceView>) -> bool {
    forall|i: int, j: int|
        0 <= i < j < devices.len() ==> text_before(
            #[trigger] devices[i].device@,
            #[trigger] devices[j].device@,
        )
}

/// The devices of a run stand in order, and it has come to the last of them.
proof fn run_is_in_order(query: Query, attempts: Seq<PageAttempt>, os_field: Seq<char>)
    requires
        is_run(query, attempts, os_field),
    ensures
        in_order(seen(attempts)),
        position(attempts) == (if seen(attempts).len() > 0 {
            Some(seen(attempts).last().device)
        } else {
            None
        }),
    decreases attempts.len(),
{
    if attempts.len() > 0 {
        let before = attempts.drop_last();
        let attempt = attempts.last();
        run_is_in_order(query, before, os_field);
        if attempt.committed {
            let old = seen(before);
            let new = attempt.page.devices@;
            let all = old + new;
            assert(seen(attempts) == all);
            assert forall|i: int, j: int| 0 <= i < j < all.len() implies text_before(
                #[trigger] all[i].device@,
                #[trigger] all[j].device@,
            ) by {
                if j < old.len() {
                    assert(text_before(old[i].device@, old[j].device@));
                } else if i >= old.len() {
                    assert(text_before(
                        new[i - old.len()].device@,
                        new[j - old.len()].device@,
                    ));
                } else {
                    let last = old[old.len() - 1];
                    assert(text_before(last.device@, new[j - old.len()].device@));
                    if i < old.len() - 1 {
                        assert(text_before(old[i].device@, old[old.len() - 1].device@));
                        text_before_is_transitive(old[i].device@, last.device@, all[j].device@);
                    }
                }
            }
            if new.len() > 0 {
                assert(all.last() == new.last());
            } else {
                assert(all =~= old);
            }
        }
    }
}

/// What was kept of a run was counted page by page, and the devices that were seen
/// are as many as were counted.
proof fn run_is_counted(query: Query, attempts: Seq<PageAttempt>, os_field: Seq<char>)
    requires
        is_run(query, attempts, os_field),
    ensures
        forall|i: int|
            0 <= i < kept(attempts).len() ==> (#[trigger] kept(attempts)[i]).rows@.len()
                + kept(attempts)[i].unknown <= kept(attempts)[i].total,
        totals_of(kept(attempts)) is Ok,
        totals_of(kept(attempts))->Ok_0.total == seen(attempts).len(),
    decreases attempts.len(),
{
    if attempts.len() > 0 {
        let before = attempts.drop_last();
        let attempt = attempts.last();
        run_is_counted(query, before, os_field);
        if attempt.committed {
            pages_count_each_device_once(
                attempt.step,
                query,
                attempt.page,
                attempt.decisions,
                position(before),
                os_field,
            );
            assert(kept(attempts).drop_last() =~= kept(before));
            assert(kept(attempts).last() == attempt.step);
            assert forall|i: int| 0 <= i < kept(attempts).len() implies (#[trigger] kept(
                attempts,
            )[i]).rows@.len() + kept(attempts)[i].unknown <= kept(attempts)[i].total by {
                if i < kept(before).len() {
                    assert(kept(attempts)[i] == kept(before)[i]);
                }
            }
        }
    }
}

/// A query, however often reading its pages was tried: it counts as many devices as
/// stand on the pages that were kept, none of them twice, as many rows are kept as
/// devices match, those that match and those that stayed undecided are among those
/// that were seen, and it looks at no more than it may. It is finished exactly where
/// the last page that was kept has none behind it.
pub proof fn whole_queries_count_each_device_once(
    query: Query,
    attempts: Seq<PageAttempt>,
    os_field: Seq<char>,
)
    requires
        is_run(query, attempts, os_field),
    ensures
        totals_of(kept(attempts)) matches Ok(totals) && {
            &&& totals.total == seen(attempts).len()
            &&& totals.matched == rows_of(kept(attempts))
            &&& totals.is_sound()
        },
        forall|i: int, j: int|
            0 <= i < j < seen(attempts).len() ==> (#[trigger] seen(attempts)[i]).device@ != (
            #[trigger] seen(attempts)[j]).device@,
        attempts.len() > 0 && attempts.last().committed ==> (is_done(attempts)
            <==> attempts.last().page.next is None),
{
    run_is_in_order(query, attempts, os_field);
    run_is_counted(query, attempts, os_field);
    totals_stay_sound(kept(attempts));
    assert forall|i: int, j: int| 0 <= i < j < seen(attempts).len() implies (#[trigger] seen(
        attempts,
    )[i]).device@ != (#[trigger] seen(attempts)[j]).device@ by {
        assert(text_before(seen(attempts)[i].device@, seen(attempts)[j].device@));
        text_before_is_asymmetric(seen(attempts)[i].device@, seen(attempts)[j].device@);
    }
}

/// An attempt that was not kept adds nothing: neither devices nor rows nor totals,
/// and the query neither moves on nor ends. So one whose claim was taken over leaves
/// everything as it was, and is answered as failed; the one that took the claim over
/// goes on where the last page that was kept ended.
pub proof fn lost_attempts_leave_a_query_as_it_was(
    query: Query,
    attempts: Seq<PageAttempt>,
    os_field: Seq<char>,
    lost: PageAttempt,
    next: PageAttempt,
    name: Seq<char>,
    settlement: Settlement<()>,
    follow: Follow,
)
    requires
        is_run(query, attempts.push(lost), os_field),
        !lost.committed,
        !(settlement is Committed),
        follows(follow, name, settlement, None),
        is_run(query, attempts.push(lost).push(next), os_field),
    ensures
        kept(attempts.push(lost)) == kept(attempts),
        seen(attempts.push(lost)) == seen(attempts),
        position(attempts.push(lost)) == position(attempts),
        is_done(attempts.push(lost)) == is_done(attempts),
        totals_of(kept(attempts.push(lost))) == totals_of(kept(attempts)),
        follow is Fail,
        is_behind(next.page.devices@, position(attempts)),
        is_run(query, attempts.push(next), os_field),
{
    let tried = attempts.push(lost);
    assert(tried.drop_last() =~= attempts);
    assert(tried.push(next).drop_last() =~= tried);
    assert(attempts.push(next).drop_last() =~= attempts);
}

} // verus!
