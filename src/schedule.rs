use vstd::prelude::*;

verus! {

/// The rows `start..end` of a frame (row 0 at the bottom), rendered by one
/// worker task.
#[derive(Clone, Copy, Debug, PartialEq, Eq, Structural)]
pub struct RowBatch {
    pub start: u32,
    pub end: u32,
}

/// Row just above batch `k` when a frame `height` rows high is cut from the
/// top down into batches of `batch` rows.
pub open spec fn batch_end(height: int, batch: int, k: int) -> int {
    if k * batch < height {
        height - k * batch
    } else {
        0
    }
}

/// `v` cuts a frame `height` rows high into batches of `batch` rows, from
/// the top row down; only the last batch may be shorter.
pub open spec fn is_row_partition(v: Seq<RowBatch>, height: int, batch: int) -> bool {
    &&& v.len() * batch >= height
    &&& v.len() == 0 || (v.len() - 1) * batch < height
    &&& forall|k: int|
        #![trigger v[k]]
        0 <= k < v.len() ==> v[k].end == height - k * batch && v[k].start == batch_end(
            height,
            batch,
            k + 1,
        )
}

/// The worker tasks of a frame `height` rows high: batches of `batch` rows
/// each, the top rows first.
pub fn row_batches(height: u32, batch: u32) -> (r: Vec<RowBatch>)
    requires
        batch > 0,
    ensures
        is_row_partition(r@, height as int, batch as int),
{
    let mut v: Vec<RowBatch> = Vec::new();
    let mut end: u32 = height;
    assert(0 * batch == 0);
    while end > 0
        invariant
            batch > 0,
            end as int == batch_end(height as int, batch as int, v.len() as int),
            v.len() == 0 || (v.len() - 1) * batch < height,
            forall|k: int|
                #![trigger v@[k]]
                0 <= k < v.len() ==> v@[k].end == height - k * batch && v@[k].start == batch_end(
                    height as int,
                    batch as int,
                    k + 1,
                ),
        decreases end,
    {
        let k = v.len();
        assert((k + 1) * batch == k * batch + batch) by (nonlinear_arith);
        let start: u32 = if end > batch {
            end - batch
        } else {
            0
        };
        v.push(RowBatch { start, end });
        end = start;
    }
    proof {
        let n = v.len() as int;
        assert(n * batch >= height) by (nonlinear_arith)
            requires
                n * batch >= height || height - n * batch == 0,
        ;
    }
    v
}

/// Every row of the frame belongs to exactly one batch of a row partition:
/// no row is rendered twice and none is skipped.
pub proof fn lemma_each_row_once(v: Seq<RowBatch>, height: int, batch: int, y: int)
    requires
        batch > 0,
        is_row_partition(v, height, batch),
        0 <= y < height,
    ensures
        exists|k: int| #![trigger v[k]] 0 <= k < v.len() && v[k].start <= y < v[k].end,
        forall|j: int, k: int|
            #![trigger v[j], v[k]]
            0 <= j < v.len() && 0 <= k < v.len() && v[j].start <= y < v[j].end && v[k].start <= y
                < v[k].end ==> j == k,
{
    let k = (height - 1 - y) / batch;
    assert(k * batch <= height - 1 - y < k * batch + batch) by (nonlinear_arith)
        requires
            batch > 0,
            height - 1 - y >= 0,
            k == (height - 1 - y) / batch,
    ;
    assert(0 <= k) by (nonlinear_arith)
        requires
            batch > 0,
            height - 1 - y >= 0,
            k == (height - 1 - y) / batch,
    ;
    assert(k < v.len()) by (nonlinear_arith)
        requires
            batch > 0,
            v.len() * batch >= height,
            k * batch < height,
    ;
    assert((k + 1) * batch == k * batch + batch) by (nonlinear_arith);
    assert(v[k].start <= y < v[k].end);
    assert forall|i: int, j: int|
        #![trigger v[i], v[j]]
        0 <= i < v.len() && 0 <= j < v.len() && v[i].start <= y < v[i].end && v[j].start <= y
            < v[j].end implies i == j by {
        assert((i + 1) * batch == i * batch + batch) by (nonlinear_arith);
        assert((j + 1) * batch == j * batch + batch) by (nonlinear_arith);
        if i < j {
            assert(i * batch + batch <= j * batch) by (nonlinear_arith)
                requires
                    i + 1 <= j,
                    batch > 0,
            ;
        } else if j < i {
            assert(j * batch + batch <= i * batch) by (nonlinear_arith)
                requires
                    j + 1 <= i,
                    batch > 0,
            ;
        }
    }
}

} // verus!
