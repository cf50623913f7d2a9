//! The point cloud: an ordered sequence of records of one type, and a width.

use crate::point::{Color, Point, PointColor};
use crate::vector::{zero_vector, Vector3};
use vstd::prelude::*;

verus! {

/// Records in order, with the width of the grid they form.
///
/// A cloud of width `1` is unorganized. The height is implied: it is the number
/// of full rows, `len / width`.
#[derive(Debug)]
pub struct PointCloud<T: Point> {
    pub data: Vec<T>,
    pub width: u32,
}

/// The record whose attributes are all zero.
pub open spec fn default_point<T: Point>() -> T {
    T::spec_from_point(zero_vector::<T::Item>())
}

/// The first `min(points.len(), colors.len())` positions, each with its color.
pub open spec fn colored_points<T: PointColor>(
    points: Seq<Vector3<<T as Point>::Item>>,
    colors: Seq<Vector3<<T as Color>::Item>>,
) -> Seq<T> {
    Seq::new(
        if points.len() <= colors.len() {
            points.len()
        } else {
            colors.len()
        },
        |i: int| T::spec_from_point(points[i]).spec_with_rgb(colors[i]),
    )
}

/// `old` cut or grown to `size` records, the new ones all default.
pub open spec fn resized<T: Point>(old: Seq<T>, size: nat) -> Seq<T> {
    Seq::new(
        size,
        |i: int|
            if i < old.len() {
                old[i]
            } else {
                default_point::<T>()
            },
    )
}

impl<T: Point> PointCloud<T> {
    /// Number of full rows of `width` records.
    pub open spec fn spec_height(&self) -> nat {
        if self.width == 0 {
            0
        } else {
            self.data@.len() / (self.width as nat)
        }
    }

    /// A cloud of more than one row holds exactly `width * height` records.
    pub open spec fn wf(&self) -> bool {
        &&& self.width >= 1
        &&& self.spec_height() > 1 ==> self.data@.len() == self.width * self.spec_height()
    }

    /// Every cloud of width `1` is well formed: its rows are its records.
    pub proof fn lemma_unorganized_wf(&self)
        requires
            self.width == 1,
        ensures
            self.wf(),
            self.spec_height() == self.data@.len(),
    {
    }

    /// The empty, unorganized cloud.
    pub fn new() -> (cloud: Self)
        ensures
            cloud.data@ == Seq::<T>::empty(),
            cloud.width == 1,
            cloud.wf(),
    {
        PointCloud { data: Vec::new(), width: 1 }
    }

    /// The unorganized cloud with one default record at each position, in
    /// order.
    pub fn from_point_vec(data: Vec<Vector3<T::Item>>) -> (cloud: Self)
        ensures
            cloud.data@ == data@.map_values(|p: Vector3<T::Item>| T::spec_from_point(p)),
            cloud.width == 1,
            cloud.wf(),
    {
        let mut points: Vec<T> = Vec::new();
        let mut i: usize = 0;
        while i < data.len()
            invariant
                i <= data.len(),
                points@ == data@.take(i as int).map_values(
                    |p: Vector3<T::Item>| T::spec_from_point(p),
                ),
            decreases data.len() - i,
        {
            points.push(T::from_point(data[i]));
            proof {
                assert(data@.take(i + 1) == data@.take(i as int).push(data@[i as int]));
                assert(points@ =~= data@.take(i + 1).map_values(
                    |p: Vector3<T::Item>| T::spec_from_point(p),
                ));
            }
            i += 1;
        }
        proof {
            assert(data@.take(i as int) == data@);
        }
        PointCloud { data: points, width: 1 }
    }

    /// The number of full rows; `0` for a cloud of width `0`.
    pub fn height(&self) -> (rows: usize)
        ensures
            rows == self.spec_height(),
    {
        if self.width == 0 {
            0
        } else {
            self.data.len() / (self.width as usize)
        }
    }

    pub fn len(&self) -> (n: usize)
        ensures
            n == self.data@.len(),
    {
        self.data.len()
    }

    pub fn item(&self, index: usize) -> (p: &T)
        requires
            index < self.data@.len(),
        ensures
            *p == self.data@[index as int],
    {
        &self.data[index]
    }

    pub fn item_mut(&mut self, index: usize) -> (p: &mut T)
        requires
            index < old(self).data@.len(),
        ensures
            *p == old(self).data@[index as int],
            final(self).data@ == old(self).data@.update(index as int, *final(p)),
            final(self).width == old(self).width,
            old(self).wf() ==> final(self).wf(),
    {
        &mut self.data[index]
    }

    /// Cuts or grows the cloud to `size` records and makes it unorganized.
    pub fn resize(&mut self, size: usize)
        ensures
            final(self).data@ == resized(old(self).data@, size as nat),
            final(self).width == 1,
            final(self).wf(),
    {
        self.width = 1;
        if size < self.data.len() {
            self.data.truncate(size);
        }
        while self.data.len() < size
            invariant
                self.width == 1,
                self.data@.len() <= size,
                self.data@.len() >= size || self.data@.len() >= old(self).data@.len(),
                self.data@ == resized(old(self).data@, self.data@.len()),
            decreases size - self.data@.len(),
        {
            self.data.push(T::from_point(Vector3::zero()));
            proof {
                assert(self.data@ =~= resized(old(self).data@, self.data@.len()));
            }
        }
    }

    /// Appends one record. The width stays as it is.
    pub fn add_data(&mut self, element: T)
        ensures
            final(self).data@ == old(self).data@.push(element),
            final(self).width == old(self).width,
            old(self).width == 1 ==> final(self).wf(),
    {
        self.data.push(element);
    }
}

impl<T: Point> Default for PointCloud<T> {
    /// The empty, unorganized cloud.
    fn default() -> (cloud: Self)
        ensures
            cloud.data@ == Seq::<T>::empty(),
            cloud.width == 1,
    {
        PointCloud::new()
    }
}

impl<T: PointColor> PointCloud<T> {
    /// The unorganized cloud of the positions paired with the colors, as far
    /// as both lists reach.
    pub fn from_point_color_vec(
        data: Vec<Vector3<<T as Point>::Item>>,
        colors: Vec<Vector3<<T as Color>::Item>>,
    ) -> (cloud: Self)
        ensures
            cloud.data@ == colored_points::<T>(data@, colors@),
            cloud.width == 1,
            cloud.wf(),
    {
        let n = if data.len() <= colors.len() {
            data.len()
        } else {
            colors.len()
        };
        let mut points: Vec<T> = Vec::new();
        let mut i: usize = 0;
        while i < n
            invariant
                i <= n,
                n <= data.len(),
                n <= colors.len(),
                points@.len() == i,
                forall|j: int|
                    0 <= j < i ==> points@[j] == T::spec_from_point(data@[j]).spec_with_rgb(
                        colors@[j],
                    ),
            decreases n - i,
        {
            points.push(T::from_point_color(data[i], colors[i]));
            i += 1;
        }
        proof {
            assert(points@ =~= colored_points::<T>(data@, colors@));
        }
        PointCloud { data: points, width: 1 }
    }
}

} // verus!
