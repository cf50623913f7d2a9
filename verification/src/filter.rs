//! Outlier removal: which points of a cloud stay.
//!
//! Both filters keep a point on a test of its neighborhood. The neighborhood
//! is measured by the caller, who hands in one measurement per point; the test
//! and the selection are made here.

use crate::cloud::PointCloud;
use crate::point::Point;
use crate::scalar::{less_than, FloatData};
use vstd::prelude::*;

verus! {

/// The items of `data` that `keep` marks, in order. An item that `keep` does
/// not reach is not kept.
pub open spec fn select<T>(data: Seq<T>, keep: Seq<bool>) -> Seq<T>
    decreases data.len(),
{
    if data.len() == 0 {
        Seq::empty()
    } else {
        let rest = select(data.drop_last(), keep);
        if data.len() <= keep.len() && keep[data.len() - 1] {
            rest.push(data.last())
        } else {
            rest
        }
    }
}

/// The radius test: a point stays if it has strictly more than `min_neighbors`
/// points within the radius, itself among them.
pub open spec fn radius_mask(neighbor_counts: Seq<usize>, min_neighbors: usize) -> Seq<bool> {
    neighbor_counts.map_values(|count: usize| count > min_neighbors)
}

/// The statistical test: a point stays if the mean distance to its nearest
/// neighbors is strictly below its threshold. A point that lacks either
/// measurement does not stay.
pub open spec fn statistical_mask<S: FloatData>(local_means: Seq<S>, thresholds: Seq<S>) -> Seq<
    bool,
> {
    Seq::new(
        if local_means.len() <= thresholds.len() {
            local_means.len()
        } else {
            thresholds.len()
        },
        |i: int| less_than(local_means[i], thresholds[i]),
    )
}

/// Nothing is selected that was not there: a selection is no longer than what
/// it selects from.
pub proof fn lemma_select_len<T>(data: Seq<T>, keep: Seq<bool>)
    ensures
        select(data, keep).len() <= data.len(),
    decreases data.len(),
{
    if data.len() > 0 {
        lemma_select_len(data.drop_last(), keep);
    }
}

/// Where every item is marked, the selection is the whole.
pub proof fn lemma_select_all<T>(data: Seq<T>, keep: Seq<bool>)
    requires
        keep.len() >= data.len(),
        forall|i: int| 0 <= i < data.len() ==> keep[i],
    ensures
        select(data, keep) == data,
    decreases data.len(),
{
    if data.len() > 0 {
        lemma_select_all(data.drop_last(), keep);
        assert(data.drop_last().push(data.last()) =~= data);
    }
}

/// Where no item is marked, the selection is empty.
pub proof fn lemma_select_none<T>(data: Seq<T>, keep: Seq<bool>)
    requires
        forall|i: int| 0 <= i < data.len() && i < keep.len() ==> !keep[i],
    ensures
        select(data, keep) == Seq::<T>::empty(),
    decreases data.len(),
{
    if data.len() > 0 {
        lemma_select_none(data.drop_last(), keep);
    }
}

/// Radius outlier removal with `min_neighbors == 0` returns the whole cloud,
/// provided that every point was counted among its own neighbors.
pub proof fn lemma_radius_keeps_all<T>(data: Seq<T>, neighbor_counts: Seq<usize>)
    requires
        neighbor_counts.len() == data.len(),
        forall|i: int| 0 <= i < data.len() ==> neighbor_counts[i] >= 1,
    ensures
        select(data, radius_mask(neighbor_counts, 0)) == data,
{
    lemma_select_all(data, radius_mask(neighbor_counts, 0));
}

/// Statistical outlier removal that excludes no point returns the whole
/// cloud. Applied to its own output with the same measurements, it returns it
/// again.
pub proof fn lemma_statistical_keeps_all<T, S: FloatData>(
    data: Seq<T>,
    local_means: Seq<S>,
    thresholds: Seq<S>,
)
    requires
        local_means.len() == data.len(),
        thresholds.len() == data.len(),
        forall|i: int| 0 <= i < data.len() ==> less_than(local_means[i], thresholds[i]),
    ensures
        select(data, statistical_mask(local_means, thresholds)) == data,
        select(
            select(data, statistical_mask(local_means, thresholds)),
            statistical_mask(local_means, thresholds),
        ) == data,
{
    lemma_select_all(data, statistical_mask(local_means, thresholds));
}

impl<T: Point + Copy> PointCloud<T> {
    /// The unorganized cloud of the points that `keep` marks, in order.
    pub fn select(&self, keep: &Vec<bool>) -> (cloud: PointCloud<T>)
        ensures
            cloud.data@ == select(self.data@, keep@),
            cloud.width == 1,
            cloud.wf(),
    {
        let mut cloud = PointCloud::<T>::new();
        let mut i: usize = 0;
        while i < self.data.len()
            invariant
                i <= self.data@.len(),
                cloud.width == 1,
                cloud.data@ == select(self.data@.take(i as int), keep@),
            decreases self.data@.len() - i,
        {
            proof {
                assert(self.data@.take(i + 1).drop_last() =~= self.data@.take(i as int));
            }
            if i < keep.len() && keep[i] {
                cloud.add_data(self.data[i]);
            }
            i += 1;
        }
        proof {
            assert(self.data@.take(i as int) =~= self.data@);
        }
        cloud
    }

    /// Removes the points with too few neighbors.
    ///
    /// `neighbor_counts[i]` is the number of points within the radius of point
    /// `i`, that point included. A point stays if its count is strictly greater
    /// than `min_neighbors`. The result is unorganized and in the order of the
    /// input.
    pub fn remove_radius_outliers(&self, neighbor_counts: &Vec<usize>, min_neighbors: usize) -> (cloud:
        PointCloud<T>)
        ensures
            cloud.data@ == select(self.data@, radius_mask(neighbor_counts@, min_neighbors)),
            cloud.width == 1,
            cloud.wf(),
    {
        let mut keep: Vec<bool> = Vec::new();
        let mut i: usize = 0;
        while i < neighbor_counts.len()
            invariant
                i <= neighbor_counts@.len(),
                keep@ == radius_mask(neighbor_counts@.take(i as int), min_neighbors),
            decreases neighbor_counts@.len() - i,
        {
            keep.push(neighbor_counts[i] > min_neighbors);
            proof {
                assert(keep@ =~= radius_mask(neighbor_counts@.take(i + 1), min_neighbors));
            }
            i += 1;
        }
        proof {
            assert(neighbor_counts@.take(i as int) =~= neighbor_counts@);
        }
        self.select(&keep)
    }

    /// Removes the points that lie far from their neighbors.
    ///
    /// `local_means[i]` is the mean distance from point `i` to its nearest
    /// neighbors, and `thresholds[i]` is the mean of all those means plus the
    /// chosen multiple of the spread of the distances of point `i`. A point
    /// stays if its mean is strictly below its threshold. The result is
    /// unorganized and in the order of the input.
    pub fn remove_statistical_outliers(
        &self,
        local_means: &Vec<<T as Point>::Item>,
        thresholds: &Vec<<T as Point>::Item>,
    ) -> (cloud: PointCloud<T>)
        ensures
            cloud.data@ == select(self.data@, statistical_mask(local_means@, thresholds@)),
            cloud.width == 1,
            cloud.wf(),
    {
        let n = if local_means.len() <= thresholds.len() {
            local_means.len()
        } else {
            thresholds.len()
        };
        let mut keep: Vec<bool> = Vec::new();
        let mut i: usize = 0;
        while i < n
            invariant
                i <= n,
                n <= local_means@.len(),
                n <= thresholds@.len(),
                keep@.len() == i,
                forall|j: int| 0 <= j < i ==> keep@[j] == less_than(local_means@[j], thresholds@[j]),
            decreases n - i,
        {
            keep.push(local_means[i].lt(&thresholds[i]));
            i += 1;
        }
        proof {
            assert(keep@ =~= statistical_mask(local_means@, thresholds@));
        }
        self.select(&keep)
    }
}

} // verus!
