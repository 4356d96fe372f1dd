use vstd::prelude::*;

verus! {

// Similarity values arrive here as order keys: integers that compare as the
// values do, zero standing for zero. The scan reads nothing but that order.

/// The state of the left-to-right candidate scan over `data`: the
/// candidates found so far, the running maximum since the last downward
/// zero crossing (zero when none is positive), and where it was seen.
pub open spec fn scan_state(data: Seq<i64>) -> (Seq<int>, i64, int)
    decreases data.len(),
{
    if data.len() == 0 {
        (Seq::empty(), 0, 0)
    } else {
        let (idxs, max, at) = scan_state(data.drop_last());
        let n = data.len() - 1;
        let v = data.last();
        let (idxs2, max2) = if v < 0 && max > 0 {
            (idxs.push(at), 0i64)
        } else {
            (idxs, max)
        };
        if v > max2 {
            (idxs2, v, n)
        } else {
            (idxs2, max2, at)
        }
    }
}

/// The candidate peaks of `data`: for each region that a downward zero
/// crossing closes, and for the region still open at the end, the first
/// position of its largest positive value.
pub open spec fn peak_candidates(data: Seq<i64>) -> Seq<int> {
    let (idxs, max, at) = scan_state(data);
    if max > 0 {
        idxs.push(at)
    } else {
        idxs
    }
}

proof fn lemma_scan_bounds(data: Seq<i64>)
    ensures
        ({
            let (idxs, max, at) = scan_state(data);
            &&& max >= 0
            &&& max > 0 ==> 0 <= at < data.len() && data[at] == max
            &&& forall|i: int| 0 <= i < idxs.len() ==> 0 <= #[trigger] idxs[i] < data.len() && data[idxs[i]] > 0
            &&& forall|i: int, j: int| 0 <= i < j < idxs.len() ==> idxs[i] < idxs[j]
            &&& max > 0 && idxs.len() > 0 ==> idxs.last() < at
        }),
    decreases data.len(),
{
    if data.len() > 0 {
        let prev = data.drop_last();
        lemma_scan_bounds(prev);
        let (idxs, max, at) = scan_state(prev);
        assert forall|i: int| 0 <= i < idxs.len() implies data[idxs[i]] == prev[idxs[i]] by {
            assert(0 <= #[trigger] idxs[i] < prev.len());
        }
        if max > 0 {
            assert(data[at] == prev[at]);
        }
    }
}

/// Every candidate is a position in `data` holding a positive value, and the
/// candidates come in increasing order.
pub proof fn lemma_candidates_positive(data: Seq<i64>)
    ensures
        forall|i: int|
            0 <= i < peak_candidates(data).len() ==> 0 <= #[trigger] peak_candidates(data)[i] < data.len()
                && data[peak_candidates(data)[i]] > 0,
        forall|i: int, j: int|
            0 <= i < j < peak_candidates(data).len() ==> peak_candidates(data)[i] < peak_candidates(
                data,
            )[j],
{
    lemma_scan_bounds(data);
}

/// A curve with no positive value, such as the flat curve of a silent
/// window, has no candidate peak, and so no period is detected in it.
pub proof fn lemma_no_positive_no_candidates(data: Seq<i64>)
    requires
        forall|i: int| 0 <= i < data.len() ==> data[i] <= 0,
    ensures
        peak_candidates(data).len() == 0,
        detection_candidates(data).len() == 0,
{
    lemma_scan_bounds(data);
    let (idxs, max, at) = scan_state(data);
    if idxs.len() > 0 {
        assert(data[idxs[0]] > 0);
    }
    if max > 0 {
        assert(data[at] == max);
    }
}

/// The positions of the maxima between zero crossings of `data`.
pub fn maxes(data: &[i64]) -> (r: Vec<usize>)
    ensures
        r@.len() == peak_candidates(data@).len(),
        forall|i: int| 0 <= i < r@.len() ==> #[trigger] r@[i] as int == peak_candidates(data@)[i],
{
    let mut idxs: Vec<usize> = Vec::new();
    let mut max: i64 = 0;
    let mut maxidx: usize = 0;
    let mut n: usize = 0;
    proof {
        assert(data@.take(0) =~= Seq::<i64>::empty());
    }
    while n < data.len()
        invariant
            n <= data@.len(),
            ({
                let (s_idxs, s_max, s_at) = scan_state(data@.take(n as int));
                &&& idxs@.len() == s_idxs.len()
                &&& forall|i: int| 0 <= i < idxs@.len() ==> #[trigger] idxs@[i] as int == s_idxs[i]
                &&& max == s_max
                &&& maxidx as int == s_at
            }),
        decreases data@.len() - n,
    {
        let ghost pre = data@.take(n as int);
        let ghost next = data@.take(n as int + 1);
        proof {
            assert(next.drop_last() =~= pre);
            lemma_scan_bounds(pre);
        }
        let v = data[n];
        if v < 0 && max > 0 {
            idxs.push(maxidx);
            max = 0;
        }
        if v > max {
            max = v;
            maxidx = n;
        }
        n = n + 1;
    }
    proof {
        assert(data@.take(data@.len() as int) =~= data@);
    }
    if max > 0 {
        idxs.push(maxidx);
    }
    idxs
}

/// The candidates that pitch detection weighs: all but the first, which is
/// the peak around lag 0. With fewer than two candidates there is no
/// periodic peak, and none is returned.
pub open spec fn detection_candidates(data: Seq<i64>) -> Seq<int> {
    let c = peak_candidates(data);
    if c.len() > 1 {
        c.skip(1)
    } else {
        Seq::empty()
    }
}

/// The positions of the maxima between zero crossings of `data`, leaving out
/// the one around lag 0; none where there are fewer than two.
pub fn period_candidates(data: &[i64]) -> (r: Vec<usize>)
    ensures
        r@.len() == detection_candidates(data@).len(),
        forall|i: int| 0 <= i < r@.len() ==> #[trigger] r@[i] as int == detection_candidates(data@)[i],
{
    let all = maxes(data);
    let mut r: Vec<usize> = Vec::new();
    if all.len() > 1 {
        let mut i: usize = 1;
        while i < all.len()
            invariant
                1 <= i <= all@.len(),
                all@.len() == peak_candidates(data@).len(),
                forall|j: int| 0 <= j < all@.len() ==> #[trigger] all@[j] as int == peak_candidates(data@)[j],
                r@.len() == i - 1,
                forall|j: int| 0 <= j < r@.len() ==> #[trigger] r@[j] == all@[j + 1],
            decreases all@.len() - i,
        {
            r.push(all[i]);
            i = i + 1;
        }
    }
    r
}

/// The position of the largest value, the first one where it occurs more
/// than once.
pub fn max_peak(values: &[i64]) -> (r: usize)
    requires
        values@.len() > 0,
    ensures
        r < values@.len(),
        forall|j: int| 0 <= j < values@.len() ==> values@[j] <= values@[r as int],
        forall|j: int| 0 <= j < r ==> values@[j] < values@[r as int],
{
    let mut best: usize = 0;
    let mut i: usize = 1;
    while i < values.len()
        invariant
            1 <= i <= values@.len(),
            best < i,
            forall|j: int| 0 <= j < i ==> values@[j] <= values@[best as int],
            forall|j: int| 0 <= j < best ==> values@[j] < values@[best as int],
        decreases values@.len() - i,
    {
        if values[i] > values[best] {
            best = i;
        }
        i = i + 1;
    }
    best
}

/// The position of the first value above `thresh`.
pub fn first_peak_above_thresh(values: &[i64], thresh: i64) -> (r: usize)
    requires
        exists|j: int| 0 <= j < values@.len() && values@[j] > thresh,
    ensures
        r < values@.len(),
        values@[r as int] > thresh,
        forall|j: int| 0 <= j < r ==> values@[j] <= thresh,
{
    let mut i: usize = 0;
    while i < values.len()
        invariant
            i <= values@.len(),
            forall|j: int| 0 <= j < i ==> values@[j] <= thresh,
            exists|j: int| 0 <= j < values@.len() && values@[j] > thresh,
        decreases values@.len() - i,
    {
        if values[i] > thresh {
            return i;
        }
        i = i + 1;
    }
    i
}

} // verus!
