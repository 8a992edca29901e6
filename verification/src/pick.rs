//! Picking positions out of a list, and counting them.
use vstd::prelude::*;

verus! {

/// Whether `at` are the positions below `count` that `wanted` holds of, each once
/// and in order.
pub open spec fn picks(at: Seq<int>, count: int, wanted: spec_fn(int) -> bool) -> bool {
    &&& forall|a: int, b: int| 0 <= a < b < at.len() ==> #[trigger] at[a] < #[trigger] at[b]
    &&& forall|a: int| 0 <= a < at.len() ==> 0 <= #[trigger] at[a] < count && wanted(at[a])
    &&& forall|i: int| 0 <= i < count && #[trigger] wanted(i) ==> at.contains(i)
}

/// How many positions below `count` `wanted` holds of.
pub open spec fn number(count: nat, wanted: spec_fn(int) -> bool) -> nat
    decreases count,
{
    if count == 0 {
        0
    } else {
        number((count - 1) as nat, wanted) + if wanted(count - 1) {
            1nat
        } else {
            0nat
        }
    }
}

/// What `of` comes to over the positions below `count`.
pub open spec fn sum(count: nat, of: spec_fn(int) -> nat) -> nat
    decreases count,
{
    if count == 0 {
        0
    } else {
        sum((count - 1) as nat, of) + of(count - 1)
    }
}

/// What is added of each position alike comes to the same.
pub proof fn sums_alike(count: nat, one: spec_fn(int) -> nat, two: spec_fn(int) -> nat)
    requires
        forall|i: int|
            #![trigger one(i)]
            #![trigger two(i)]
            0 <= i < count ==> one(i) == two(i),
    ensures
        sum(count, one) == sum(count, two),
    decreases count,
{
    if count > 0 {
        sums_alike((count - 1) as nat, one, two);
    }
}

/// One more position is picked where it is wanted, and only there.
pub proof fn one_more(at: Seq<int>, count: int, wanted: spec_fn(int) -> bool)
    requires
        0 <= count,
        picks(at, count, wanted),
    ensures
        wanted(count) ==> picks(at.push(count), count + 1, wanted),
        !wanted(count) ==> picks(at, count + 1, wanted),
{
    let more = at.push(count);
    assert forall|i: int| 0 <= i < count + 1 && #[trigger] wanted(i) implies more.contains(i) by {
        if i == count {
            assert(more[at.len() as int] == i);
        } else {
            let a = at.index_of(i);
            assert(at.contains(i));
            assert(more[a] == i);
        }
    }
    assert forall|i: int| 0 <= i < count + 1 && #[trigger] wanted(i) && !wanted(
        count,
    ) implies at.contains(i) by {}
}

/// What is wanted of each position alike is picked and counted alike.
pub proof fn alike(at: Seq<int>, count: nat, one: spec_fn(int) -> bool, two: spec_fn(int) -> bool)
    requires
        forall|i: int|
            #![trigger one(i)]
            #![trigger two(i)]
            0 <= i < count ==> one(i) == two(i),
    ensures
        number(count, one) == number(count, two),
        picks(at, count as int, one) == picks(at, count as int, two),
    decreases count,
{
    if count > 0 {
        alike(Seq::empty(), (count - 1) as nat, one, two);
    }
}

/// As many positions are picked as are counted.
pub proof fn picked_is_counted(at: Seq<int>, count: nat, wanted: spec_fn(int) -> bool)
    requires
        picks(at, count as int, wanted),
    ensures
        at.len() == number(count, wanted),
    decreases count,
{
    if count == 0 {
        if at.len() > 0 {
            assert(0 <= at[0] < count);
        }
    } else if wanted(count - 1) {
        assert(at.contains(count - 1));
        let last = at.len() - 1;
        let k = at.index_of(count - 1);
        if k < last {
            assert(at[k] < at[last]);
        }
        let fewer = at.drop_last();
        assert forall|i: int| 0 <= i < count - 1 && #[trigger] wanted(i) implies fewer.contains(
            i,
        ) by {
            let a = at.index_of(i);
            assert(at.contains(i));
            assert(fewer[a] == i);
        }
        assert forall|a: int| 0 <= a < fewer.len() implies 0 <= #[trigger] fewer[a] < count - 1
            && wanted(fewer[a]) by {
            assert(at[a] < at[last]);
        }
        assert(picks(fewer, count - 1, wanted));
        picked_is_counted(fewer, (count - 1) as nat, wanted);
    } else {
        assert forall|a: int| 0 <= a < at.len() implies 0 <= #[trigger] at[a] < count - 1
            && wanted(at[a]) by {}
        picked_is_counted(at, (count - 1) as nat, wanted);
    }
}

} // verus!
