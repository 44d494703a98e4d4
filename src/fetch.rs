//! Fetch planning: mapping requested read ids onto batch and row coordinates.
use vstd::prelude::*;

use crate::error::Error;

verus! {

/// One planned batch: its index in the file and the rows to take from it,
/// in the order the storage engine reported them.
pub type FetchPath = Vec<(usize, Vec<u32>)>;

/// A fetch path as plain values.
pub open spec fn path_view(p: Seq<(usize, Vec<u32>)>) -> Seq<(usize, Seq<u32>)> {
    p.map_values(|e: (usize, Vec<u32>)| (e.0, e.1@))
}

/// The sum of a sequence of per-batch row counts.
pub open spec fn total(counts: Seq<u32>) -> int
    decreases counts.len(),
{
    if counts.len() == 0 {
        0
    } else {
        total(counts.drop_last()) + counts.last()
    }
}

/// The plan for per-batch hit counts `counts` over the flat row buffer `rows`:
/// batch `k` takes the next `counts[k]` entries of `rows`, and batches
/// without a hit are left out.
pub open spec fn plan_of(counts: Seq<u32>, rows: Seq<u32>) -> Seq<(usize, Seq<u32>)>
    decreases counts.len(),
{
    if counts.len() == 0 {
        seq![]
    } else {
        let k = counts.len() - 1;
        let prev = plan_of(counts.drop_last(), rows);
        let off = total(counts.drop_last());
        if counts.last() == 0 {
            prev
        } else {
            prev.push((k as usize, rows.subrange(off, off + counts.last())))
        }
    }
}

/// Whether a planner reply is self-consistent: the hit counts add up to the
/// number of located ids, and the row buffer holds that many entries.
pub open spec fn reply_fits(counts: Seq<u32>, rows: Seq<u32>, located: int) -> bool {
    &&& located <= rows.len()
    &&& total(counts) == located
}

/// Turns the planner's reply for one file into a fetch path.
///
/// `rows_per_batch` holds one hit count per batch of the file and
/// `batch_rows` the flat row buffer, of which the first `located` entries are
/// filled. No id located gives `Ok(None)`: nothing is fetched from the file.
/// A reply whose counts do not add up to `located`, or that claims more rows
/// than the buffer holds, is an `IndexError`.
pub fn plan_fetch_path(rows_per_batch: &Vec<u32>, batch_rows: &Vec<u32>, located: usize) -> (r:
    Result<Option<FetchPath>, Error>)
    ensures
        located == 0 ==> r == Ok::<Option<FetchPath>, Error>(None),
        located > 0 && reply_fits(rows_per_batch@, batch_rows@, located as int) ==> {
            &&& r is Ok
            &&& r->Ok_0 is Some
            &&& path_view(r->Ok_0->Some_0@) == plan_of(rows_per_batch@, batch_rows@)
        },
        located > 0 && !reply_fits(rows_per_batch@, batch_rows@, located as int) ==> r matches Err(
            Error::IndexError(_),
        ),
{
    if located == 0 {
        return Ok(None);
    }
    if located > batch_rows.len() {
        return Err(Error::IndexError("planned rows exceed the row buffer".to_string()));
    }
    let mut path: FetchPath = Vec::new();
    let mut offset: usize = 0;
    let mut b: usize = 0;
    while b < rows_per_batch.len()
        invariant
            b <= rows_per_batch.len(),
            0 < located <= batch_rows.len(),
            offset as int == total(rows_per_batch@.take(b as int)),
            offset <= located,
            path_view(path@) == plan_of(rows_per_batch@.take(b as int), batch_rows@),
        decreases rows_per_batch.len() - b,
    {
        let c = rows_per_batch[b] as usize;
        proof {
            let t = rows_per_batch@.take(b as int + 1);
            assert(t.drop_last() =~= rows_per_batch@.take(b as int));
        }
        if c > located - offset {
            proof {
                lemma_total_prefix_bounds(rows_per_batch@, b as int + 1);
            }
            return Err(Error::IndexError("planned rows exceed the located count".to_string()));
        }
        if c > 0 {
            let mut rows: Vec<u32> = Vec::new();
            let mut k: usize = 0;
            while k < c
                invariant
                    k <= c,
                    offset + c <= located,
                    located <= batch_rows.len(),
                    rows@ =~= batch_rows@.subrange(offset as int, offset + k),
                decreases c - k,
            {
                rows.push(batch_rows[offset + k]);
                k = k + 1;
            }
            let ghost before = path@;
            path.push((b, rows));
            proof {
                assert(path_view(path@) =~= path_view(before).push((b, rows@)));
            }
        }
        offset = offset + c;
        b = b + 1;
    }
    proof {
        assert(rows_per_batch@.take(b as int) =~= rows_per_batch@);
    }
    if offset != located {
        return Err(Error::IndexError("planned rows fall short of the located count".to_string()));
    }
    Ok(Some(path))
}

/// A plan never has more entries than the file has batches.
pub proof fn lemma_plan_len(counts: Seq<u32>, rows: Seq<u32>)
    ensures
        plan_of(counts, rows).len() <= counts.len(),
    decreases counts.len(),
{
    if counts.len() > 0 {
        lemma_plan_len(counts.drop_last(), rows);
    }
}

/// Every planned batch carries as many rows as its hit count says, so no
/// more than `u32::MAX`.
pub proof fn lemma_plan_entry_len(counts: Seq<u32>, rows: Seq<u32>)
    requires
        total(counts) <= rows.len(),
    ensures
        forall|i: int| 0 <= i < plan_of(counts, rows).len() ==> #[trigger] plan_of(counts, rows)[i].1.len() <= u32::MAX,
    decreases counts.len(),
{
    if counts.len() > 0 {
        let prev = counts.drop_last();
        lemma_total_nonneg(prev);
        lemma_plan_entry_len(prev, rows);
        let off = total(prev);
        let p = plan_of(counts, rows);
        assert forall|i: int| 0 <= i < p.len() implies #[trigger] p[i].1.len() <= u32::MAX by {
            if i < plan_of(prev, rows).len() {
                assert(p[i] == plan_of(prev, rows)[i]);
            } else {
                assert(p[i].1 == rows.subrange(off, off + counts.last()));
            }
        }
    }
}

pub proof fn lemma_total_nonneg(counts: Seq<u32>)
    ensures
        total(counts) >= 0,
    decreases counts.len(),
{
    if counts.len() > 0 {
        lemma_total_nonneg(counts.drop_last());
    }
}

/// The prefix sums of a reply bound its total from below.
pub proof fn lemma_total_prefix_bounds(counts: Seq<u32>, n: int)
    requires
        0 <= n <= counts.len(),
    ensures
        total(counts.take(n)) <= total(counts),
    decreases counts.len() - n,
{
    if n < counts.len() {
        lemma_total_prefix_bounds(counts, n + 1);
        assert(counts.take(n + 1).drop_last() =~= counts.take(n));
    } else {
        assert(counts.take(n) =~= counts);
    }
}

} // verus!
