//! Splitting of work into batches that respect the external limit of 50
//! items per call.

use vstd::prelude::*;

verus! {

/// Largest number of items one detail-fetch or extraction call may take.
pub const BATCH_LIMIT: usize = 50;

/// Number of batches for `len` items.
pub open spec fn batch_count(len: nat) -> nat {
    (len + BATCH_LIMIT as nat - 1) as nat / BATCH_LIMIT as nat
}

/// Bounds of the `i`-th batch: items `[50 i, min(50 (i + 1), len))`.
pub open spec fn batch_bound(len: nat, i: int) -> (int, int) {
    let start = i * BATCH_LIMIT as int;
    let end = (i + 1) * BATCH_LIMIT as int;
    (start, if end < len { end } else { len as int })
}

pub open spec fn is_batch_plan(len: nat, r: Seq<(usize, usize)>) -> bool {
    &&& r.len() == batch_count(len)
    &&& forall|i: int|
        0 <= i < r.len() ==> (#[trigger] r[i]).0 as int == batch_bound(len, i).0 && r[i].1 as int
            == batch_bound(len, i).1
}

/// Start and end of each batch over `len` items, in order.
pub fn batch_bounds(len: usize) -> (r: Vec<(usize, usize)>)
    ensures
        is_batch_plan(len as nat, r@),
{
    let mut r: Vec<(usize, usize)> = Vec::new();
    let mut start: usize = 0;
    while start < len
        invariant
            start <= len,
            start < len ==> start as int == r@.len() * BATCH_LIMIT as int,
            start == len ==> r@.len() == batch_count(len as nat),
            forall|i: int|
                0 <= i < r@.len() ==> (#[trigger] r@[i]).0 as int == batch_bound(len as nat, i).0
                    && r@[i].1 as int == batch_bound(len as nat, i).1,
        decreases len - start,
    {
        let end: usize = if len - start > BATCH_LIMIT {
            start + BATCH_LIMIT
        } else {
            len
        };
        let ghost j = r@.len() as int;
        r.push((start, end));
        proof {
            assert(batch_bound(len as nat, j).0 == start);
        }
        start = end;
        proof {
            if start == len {
                assert(j * 50 < len <= (j + 1) * 50);
                assert((len + 49) / 50 == j + 1);
            }
        }
    }
    r
}

/// Every batch of a plan holds at least one and at most `BATCH_LIMIT`
/// items; the batches follow each other without gap or overlap and together
/// cover all `len` items, so only the last may be partial.
pub proof fn lemma_batch_plan_within_limit(len: nat, r: Seq<(usize, usize)>)
    requires
        is_batch_plan(len, r),
    ensures
        forall|i: int| 0 <= i < r.len() ==> 0 < (#[trigger] r[i]).1 - r[i].0 <= BATCH_LIMIT,
        forall|i: int| 0 <= i < r.len() - 1 ==> (#[trigger] r[i]).1 - r[i].0 == BATCH_LIMIT,
        forall|i: int| 0 < i < r.len() ==> (#[trigger] r[i]).0 == r[i - 1].1,
        len == 0 <==> r.len() == 0,
        r.len() > 0 ==> r[0].0 == 0 && r[r.len() - 1].1 == len,
{
    assert forall|i: int| 0 <= i < r.len() implies 0 < (#[trigger] r[i]).1 - r[i].0 <= BATCH_LIMIT by {
        assert(i * 50 < len);
    }
    if r.len() > 0 {
        let last = r.len() - 1;
        assert(last * 50 < len);
        assert(len <= (last + 1) * 50);
    }
}

} // verus!
