//! Cutting a result into pages that fit a budget, and walking through them.
use crate::error::Error;
use crate::order::{text_before, text_before_is_asymmetric};
use vstd::prelude::*;

verus! {

/// The most items that a page holds.
pub const PAGE_ITEMS: usize = 1000;

/// Accepts a requested page length: one to `PAGE_ITEMS` items.
pub fn admit_limit(limit: usize) -> (admitted: Result<(), Error>)
    ensures
        admitted is Ok <==> 1 <= limit <= PAGE_ITEMS,
        admitted is Err ==> admitted == Err::<(), Error>(Error::Malformed),
{
    if 1 <= limit && limit <= PAGE_ITEMS {
        Ok(())
    } else {
        Err(Error::Malformed)
    }
}

/// The sum of the first `count` sizes.
pub open spec fn total(sizes: Seq<u64>, count: int) -> int
    decreases count,
{
    if count <= 0 {
        0
    } else {
        total(sizes, count - 1) + sizes[count - 1]
    }
}

/// Whether `count` is how many leading sizes fit into `budget`: they do
/// together, and with one more they do not.
pub open spec fn fits(sizes: Seq<u64>, budget: int, count: int) -> bool {
    &&& 0 <= count <= sizes.len()
    &&& total(sizes, count) <= budget
    &&& count < sizes.len() ==> total(sizes, count + 1) > budget
}

/// The sum of more sizes is no smaller.
pub proof fn total_grows(sizes: Seq<u64>, few: int, many: int)
    requires
        0 <= few <= many <= sizes.len(),
    ensures
        total(sizes, few) <= total(sizes, many),
    decreases many,
{
    if few < many {
        total_grows(sizes, few, many - 1);
    }
}

/// How many leading sizes fit is one number.
pub proof fn fitting_is_unique(sizes: Seq<u64>, budget: int, one: int, two: int)
    requires
        fits(sizes, budget, one),
        fits(sizes, budget, two),
    ensures
        one == two,
{
    if one < two {
        total_grows(sizes, one + 1, two);
    }
    if two < one {
        total_grows(sizes, two + 1, one);
    }
}

/// How many leading sizes fit into `budget`.
pub fn fitting(sizes: &Vec<u64>, budget: u64) -> (count: usize)
    ensures
        fits(sizes@, budget as int, count as int),
{
    let mut count: usize = 0;
    let mut used: u64 = 0;
    while count < sizes.len()
        invariant
            count <= sizes@.len(),
            used == total(sizes@, count as int),
            used <= budget,
        decreases sizes@.len() - count,
    {
        let size: u64 = sizes[count];
        if size > budget - used {
            return count;
        }
        used = used + size;
        count += 1;
    }
    count
}

/// The first `limit` rows at or behind position `start`.
pub open spec fn page_at(rows: Seq<Seq<char>>, start: int, limit: int) -> Seq<Seq<char>> {
    if start + limit <= rows.len() {
        rows.subrange(start, start + limit)
    } else {
        rows.subrange(start, rows.len() as int)
    }
}

/// Whether `start` is where reading goes on behind `after`: at the first row
/// that comes after it.
pub open spec fn resumes(rows: Seq<Seq<char>>, after: Seq<char>, start: int) -> bool {
    &&& 0 <= start <= rows.len()
    &&& forall|i: int| 0 <= i < start ==> !text_before(after, #[trigger] rows[i])
    &&& forall|i: int| start <= i < rows.len() ==> text_before(after, #[trigger] rows[i])
}

/// Every row that reading page by page comes to from position `start` on, where
/// each page goes on behind the last row of the one before it.
pub open spec fn walk(rows: Seq<Seq<char>>, start: int, limit: int) -> Seq<Seq<char>>
    decreases rows.len() - start,
{
    if start < 0 || start >= rows.len() || limit < 1 {
        Seq::empty()
    } else {
        page_at(rows, start, limit) + walk(rows, start + page_at(rows, start, limit).len(), limit)
    }
}

/// In ascending rows, reading goes on right behind the last row that was read.
pub proof fn reading_resumes_behind_the_last_row(rows: Seq<Seq<char>>, last: int)
    requires
        forall|i: int, j: int| 0 <= i < j < rows.len() ==> #[trigger] text_before(rows[i], rows[j]),
        0 <= last < rows.len(),
    ensures
        resumes(rows, rows[last], last + 1),
{
    assert forall|i: int| 0 <= i < last + 1 implies !text_before(rows[last], #[trigger] rows[i]) by {
        if text_before(rows[last], rows[i]) {
            text_before_is_asymmetric(rows[last], rows[i]);
            if i < last {
                assert(text_before(rows[i], rows[last]));
            }
        }
    }
    assert forall|i: int| last + 1 <= i < rows.len() implies text_before(
        rows[last],
        #[trigger] rows[i],
    ) by {
        assert(text_before(rows[last], rows[i]));
    }
}

/// Where reading goes on is one position.
pub proof fn resuming_is_unique(rows: Seq<Seq<char>>, after: Seq<char>, one: int, two: int)
    requires
        resumes(rows, after, one),
        resumes(rows, after, two),
    ensures
        one == two,
{
    if one < two {
        assert(text_before(after, rows[one]));
    }
    if two < one {
        assert(text_before(after, rows[two]));
    }
}

/// Reading page by page from position `start` gives every row from there on,
/// once and in order, whatever the page length.
pub proof fn pages_cover_the_result(rows: Seq<Seq<char>>, start: int, limit: int)
    requires
        0 <= start <= rows.len(),
        1 <= limit <= PAGE_ITEMS,
    ensures
        walk(rows, start, limit) == rows.skip(start),
    decreases rows.len() - start,
{
    if start < rows.len() {
        let page = page_at(rows, start, limit);
        pages_cover_the_result(rows, start + page.len(), limit);
        assert(page + rows.skip(start + page.len()) =~= rows.skip(start));
    } else {
        assert(rows.skip(start) =~= Seq::empty());
    }
}

/// Rows take what each of them takes: none take nothing, one more takes its own size more,
/// and no page takes more than its budget, nor leaves out a row that would still fit.
pub proof fn pages_take_what_their_rows_take(sizes: Seq<u64>, budget: int, count: int, at: int)
    requires
        fits(sizes, budget, count),
        0 <= at < sizes.len(),
    ensures
        total(sizes, 0) == 0,
        total(sizes, at + 1) - total(sizes, at) == sizes[at],
        count > 0 ==> sizes[0] <= budget,
        at < count ==> total(sizes, at + 1) <= budget,
        at >= count ==> total(sizes, at + 1) > budget,
{
    if at < count {
        total_grows(sizes, at + 1, count);
    } else {
        total_grows(sizes, count + 1, at + 1);
    }
    if count > 0 {
        total_grows(sizes, 1, count);
        assert(total(sizes, 0) == 0);
        assert(total(sizes, 1) == total(sizes, 0) + sizes[0]);
    }
}

} // verus!
