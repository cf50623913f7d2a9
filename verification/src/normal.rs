//! Surface normals: which direction a point's neighborhood gives it.
//!
//! The normal of a point is the direction in which its neighbors spread least:
//! the eigenvector of the smallest eigenvalue of their second-moment matrix.
//! The caller measures the neighborhoods; which eigenvector is the normal, and
//! what a point gets whose neighborhood is too small to span a plane, is decided
//! here.

use crate::cloud::PointCloud;
use crate::point::{Normal, Point};
use crate::scalar::{is_nan, less_than, FloatData};
use crate::vector::{unit_z, Vector3};
use vstd::prelude::*;

verus! {

/// The fewest neighbors that span a plane.
pub const MIN_NEIGHBORS: usize = 3;

/// What was measured around one point.
#[derive(Clone, Copy, Debug, PartialEq, Eq)]
pub struct Neighborhood<S> {
    /// The number of points within the radius, the point itself included.
    pub count: usize,
    /// The eigenvalues of the second-moment matrix of those points.
    pub eigenvalues: Vector3<S>,
    /// The eigenvectors, in the order of their eigenvalues.
    pub eigenvectors: Vector3<Vector3<S>>,
}

/// The axis of the smallest of three values, as a scan from the first finds
/// it: a later value takes over only if it is strictly smaller.
pub open spec fn smallest_axis<S: FloatData>(values: Vector3<S>) -> int {
    let first = if less_than(values.y, values.x) {
        1int
    } else {
        0int
    };
    if less_than(values.z, values.spec_get(first)) {
        2
    } else {
        first
    }
}

/// The normal that a neighborhood gives: `(0, 0, 1)` where fewer than three
/// points were found, the eigenvector of the smallest eigenvalue otherwise.
pub open spec fn normal_of<S: FloatData>(n: Neighborhood<S>) -> Vector3<S> {
    if n.count < MIN_NEIGHBORS {
        unit_z::<S>()
    } else {
        n.eigenvectors.spec_get(smallest_axis(n.eigenvalues))
    }
}

/// The records of a cloud after normal estimation: each point that has a
/// measurement gets the normal that it gives, and nothing else changes.
pub open spec fn with_normals<T: Normal>(
    data: Seq<T>,
    neighborhoods: Seq<Neighborhood<T::Item>>,
) -> Seq<T> {
    Seq::new(
        data.len(),
        |i: int|
            if i < neighborhoods.len() {
                data[i].spec_with_normal(normal_of(neighborhoods[i]))
            } else {
                data[i]
            },
    )
}

/// Where no eigenvalue is a NaN, the chosen eigenvalue is a smallest one, and
/// the first of the smallest ones.
pub proof fn lemma_smallest_axis<S: FloatData>(values: Vector3<S>)
    requires
        !is_nan(values.x),
        !is_nan(values.y),
        !is_nan(values.z),
    ensures
        0 <= smallest_axis(values) < 3,
        forall|a: int|
            0 <= a < 3 ==> !less_than(
                #[trigger] values.spec_get(a),
                values.spec_get(smallest_axis(values)),
            ),
        forall|a: int|
            0 <= a < smallest_axis(values) ==> less_than(
                values.spec_get(smallest_axis(values)),
                #[trigger] values.spec_get(a),
            ),
{
}

/// A point with fewer than three neighbors gets the normal `(0, 0, 1)`.
pub proof fn lemma_sparse_normal<T: Normal>(
    data: Seq<T>,
    neighborhoods: Seq<Neighborhood<T::Item>>,
    i: int,
)
    requires
        0 <= i < data.len(),
        i < neighborhoods.len(),
        neighborhoods[i].count < 3,
    ensures
        with_normals(data, neighborhoods)[i].spec_normal() == unit_z::<T::Item>(),
{
    data[i].lemma_normal(unit_z::<T::Item>());
}

/// The axis of the smallest of three values.
pub fn smallest<S: FloatData>(values: &Vector3<S>) -> (axis: usize)
    ensures
        axis == smallest_axis(*values),
        axis < 3,
{
    let mut axis: usize = 0;
    let mut least = values.x;
    if values.y.lt(&least) {
        axis = 1;
        least = values.y;
    }
    if values.z.lt(&least) {
        axis = 2;
    }
    axis
}

/// The normal that a neighborhood gives.
pub fn estimate_normal<S: FloatData>(n: &Neighborhood<S>) -> (normal: Vector3<S>)
    ensures
        normal == normal_of(*n),
{
    if n.count < MIN_NEIGHBORS {
        Vector3::unit_z()
    } else {
        n.eigenvectors.get(smallest(&n.eigenvalues))
    }
}

impl<T: Point + Normal> PointCloud<T> {
    /// Gives each point the normal of its neighborhood.
    ///
    /// `neighborhoods[i]` is what was measured around point `i`. Positions,
    /// colors, the order of the points and the width stay as they are.
    pub fn compute_normals(&mut self, neighborhoods: &Vec<Neighborhood<<T as Normal>::Item>>)
        ensures
            final(self).data@ == with_normals(old(self).data@, neighborhoods@),
            final(self).width == old(self).width,
            old(self).wf() ==> final(self).wf(),
    {
        let n = if self.data.len() <= neighborhoods.len() {
            self.data.len()
        } else {
            neighborhoods.len()
        };
        let mut i: usize = 0;
        while i < n
            invariant
                i <= n,
                n <= neighborhoods@.len(),
                n <= self.data@.len(),
                self.width == old(self).width,
                self.data@.len() == old(self).data@.len(),
                forall|k: int|
                    0 <= k < i ==> self.data@[k] == old(self).data@[k].spec_with_normal(
                        normal_of(neighborhoods@[k]),
                    ),
                forall|k: int| i <= k < self.data@.len() ==> self.data@[k] == old(self).data@[k],
            decreases n - i,
        {
            let normal = estimate_normal(&neighborhoods[i]);
            let p = self.item_mut(i);
            let slot = p.normal_mut();
            *slot = normal;
            i += 1;
        }
        proof {
            assert(self.data@ =~= with_normals(old(self).data@, neighborhoods@));
        }
    }
}

} // verus!
