//! Three-component vectors: positions, colors and normals.

use crate::scalar::{one, zero, FloatData};
use vstd::prelude::*;

verus! {

/// Three components of one type, addressed by name or by axis `0`, `1`, `2`.
#[derive(Clone, Copy, Debug, PartialEq, Eq)]
pub struct Vector3<T> {
    pub x: T,
    pub y: T,
    pub z: T,
}

impl<T: Copy> Vector3<T> {
    /// The component on `axis`; that of `z` for any axis above `1`.
    pub open spec fn spec_get(self, axis: int) -> T {
        if axis == 0 {
            self.x
        } else if axis == 1 {
            self.y
        } else {
            self.z
        }
    }

    /// The vector with the component on `axis` replaced.
    pub open spec fn spec_with(self, axis: int, value: T) -> Self {
        if axis == 0 {
            Vector3 { x: value, y: self.y, z: self.z }
        } else if axis == 1 {
            Vector3 { x: self.x, y: value, z: self.z }
        } else {
            Vector3 { x: self.x, y: self.y, z: value }
        }
    }

    /// The vector whose three components are all `value`.
    pub open spec fn spec_splat(value: T) -> Self {
        Vector3 { x: value, y: value, z: value }
    }

    pub fn new(x: T, y: T, z: T) -> (v: Self)
        ensures
            v == (Vector3 { x, y, z }),
    {
        Vector3 { x, y, z }
    }

    pub fn splat(value: T) -> (v: Self)
        ensures
            v == Self::spec_splat(value),
    {
        Vector3 { x: value, y: value, z: value }
    }

    pub fn get(&self, axis: usize) -> (value: T)
        requires
            axis < 3,
        ensures
            value == self.spec_get(axis as int),
    {
        if axis == 0 {
            self.x
        } else if axis == 1 {
            self.y
        } else {
            self.z
        }
    }

    pub fn set(&mut self, axis: usize, value: T)
        requires
            axis < 3,
        ensures
            *final(self) == old(self).spec_with(axis as int, value),
    {
        if axis == 0 {
            self.x = value;
        } else if axis == 1 {
            self.y = value;
        } else {
            self.z = value;
        }
    }
}

/// The zero vector.
pub open spec fn zero_vector<T: FloatData>() -> Vector3<T> {
    Vector3 { x: zero::<T>(), y: zero::<T>(), z: zero::<T>() }
}

/// The unit vector along the third axis, `(0, 0, 1)`.
pub open spec fn unit_z<T: FloatData>() -> Vector3<T> {
    Vector3 { x: zero::<T>(), y: zero::<T>(), z: one::<T>() }
}

impl<T: FloatData> Vector3<T> {
    pub fn zero() -> (v: Self)
        ensures
            v == zero_vector::<T>(),
    {
        Vector3 { x: T::zero(), y: T::zero(), z: T::zero() }
    }

    pub fn unit_z() -> (v: Self)
        ensures
            v == unit_z::<T>(),
    {
        Vector3 { x: T::zero(), y: T::zero(), z: T::one() }
    }
}

} // verus!
