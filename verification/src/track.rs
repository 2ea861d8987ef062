//! The GPS track of a trip, in time order.
use vstd::prelude::*;

use crate::model::GpsPoint;
use crate::order::{as_ints, is_index_permutation, sort_indices_by_key, stably_ordered_by_key};

verus! {

/// The timestamps of a list of points.
pub open spec fn timestamps(points: Seq<GpsPoint>) -> Seq<i64> {
    points.map_values(|p: GpsPoint| p.timestamp)
}

/// `sorted` holds the points of `points`, each once, by increasing
/// timestamp, points with equal timestamps in their original order.
pub open spec fn is_time_ordering_of(points: Seq<GpsPoint>, sorted: Seq<GpsPoint>) -> bool {
    exists|perm: Seq<int>|
        {
            &&& is_index_permutation(perm, points.len() as int)
            &&& stably_ordered_by_key(timestamps(points), perm)
            &&& sorted.len() == points.len()
            &&& forall|k: int| 0 <= k < points.len() ==> sorted[k] == points[#[trigger] perm[k]]
        }
}

/// The points of a track in time order; the sort is stable.
pub fn sort_track(points: Vec<GpsPoint>) -> (r: Vec<GpsPoint>)
    ensures
        is_time_ordering_of(points@, r@),
        forall|k: int, l: int|
            0 <= k < l < r.len() ==> (#[trigger] r@[k]).timestamp <= (#[trigger] r@[l]).timestamp,
{
    let mut keys: Vec<i64> = Vec::new();
    let mut i: usize = 0;
    while i < points.len()
        invariant
            i <= points.len(),
            keys@ =~= timestamps(points@).subrange(0, i as int),
        decreases points.len() - i,
    {
        keys.push(points[i].timestamp);
        i = i + 1;
    }
    assert(keys@ =~= timestamps(points@));
    let perm = sort_indices_by_key(&keys);
    let ghost p = as_ints(perm@);
    let mut out: Vec<GpsPoint> = Vec::new();
    let mut k: usize = 0;
    while k < perm.len()
        invariant
            k <= perm.len(),
            perm.len() == points.len(),
            p == as_ints(perm@),
            is_index_permutation(p, points.len() as int),
            out.len() == k,
            forall|q: int| 0 <= q < k ==> out@[q] == points@[#[trigger] p[q]],
        decreases perm.len() - k,
    {
        assert(p[k as int] == perm@[k as int] as int);
        out.push(points[perm[k]]);
        k = k + 1;
    }
    assert(is_index_permutation(p, points.len() as int) && stably_ordered_by_key(
        timestamps(points@),
        p,
    ) && out@.len() == points@.len() && forall|q: int|
        0 <= q < points.len() ==> out@[q] == points@[#[trigger] p[q]]);
    proof {
        crate::laws::law_track_is_chronological(points@, out@);
    }
    out
}

} // verus!
