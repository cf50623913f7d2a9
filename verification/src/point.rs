//! Point records: a position, and optionally a color and a normal.
//!
//! The four record types are told apart by what they carry. Each capability is
//! a trait, and each trait models its attribute by a spec function that reads it
//! (`spec_xyz`, `spec_rgb`, `spec_normal`) and one that replaces it and nothing
//! else (`spec_with_xyz`, ...).

use crate::scalar::FloatData;
use crate::vector::{zero_vector, Vector3};
use vstd::prelude::*;

verus! {

/// A record with a position.
pub trait Point: Sized {
    type Item: FloatData;

    /// The record at `point` whose other attributes are all zero.
    spec fn spec_from_point(point: Vector3<Self::Item>) -> Self;

    spec fn spec_xyz(&self) -> Vector3<Self::Item>;

    /// The record with its position replaced.
    spec fn spec_with_xyz(self, xyz: Vector3<Self::Item>) -> Self;

    /// What is written as a position is read back, and writing back what was
    /// read changes nothing.
    proof fn lemma_xyz(self, xyz: Vector3<Self::Item>)
        ensures
            Self::spec_from_point(xyz).spec_xyz() == xyz,
            self.spec_with_xyz(xyz).spec_xyz() == xyz,
            self.spec_with_xyz(self.spec_xyz()) == self,
    ;

    fn from_point(point: Vector3<Self::Item>) -> (p: Self)
        ensures
            p == Self::spec_from_point(point),
    ;

    fn xyz(&self) -> (v: &Vector3<Self::Item>)
        ensures
            *v == self.spec_xyz(),
    ;

    fn xyz_mut(&mut self) -> (v: &mut Vector3<Self::Item>)
        ensures
            *v == old(self).spec_xyz(),
            *final(self) == (*old(self)).spec_with_xyz(*final(v)),
    ;
}

/// A record with a color.
pub trait Color: Sized {
    type Item: FloatData;

    spec fn spec_rgb(&self) -> Vector3<Self::Item>;

    /// The record with its color replaced.
    spec fn spec_with_rgb(self, rgb: Vector3<Self::Item>) -> Self;

    /// What is written as a color is read back, and writing back what was read
    /// changes nothing.
    proof fn lemma_rgb(self, rgb: Vector3<Self::Item>)
        ensures
            self.spec_with_rgb(rgb).spec_rgb() == rgb,
            self.spec_with_rgb(self.spec_rgb()) == self,
    ;

    fn rgb(&self) -> (v: &Vector3<Self::Item>)
        ensures
            *v == self.spec_rgb(),
    ;

    fn rgb_mut(&mut self) -> (v: &mut Vector3<Self::Item>)
        ensures
            *v == old(self).spec_rgb(),
            *final(self) == (*old(self)).spec_with_rgb(*final(v)),
    ;
}

/// A record with a surface normal.
pub trait Normal: Sized {
    type Item: FloatData;

    spec fn spec_normal(&self) -> Vector3<Self::Item>;

    /// The record with its normal replaced.
    spec fn spec_with_normal(self, normal: Vector3<Self::Item>) -> Self;

    /// What is written as a normal is read back, and writing back what was read
    /// changes nothing.
    proof fn lemma_normal(self, normal: Vector3<Self::Item>)
        ensures
            self.spec_with_normal(normal).spec_normal() == normal,
            self.spec_with_normal(self.spec_normal()) == self,
    ;

    fn normal(&self) -> (v: &Vector3<Self::Item>)
        ensures
            *v == self.spec_normal(),
    ;

    fn normal_mut(&mut self) -> (v: &mut Vector3<Self::Item>)
        ensures
            *v == old(self).spec_normal(),
            *final(self) == (*old(self)).spec_with_normal(*final(v)),
    ;
}

/// A record that can be built from a position and a color.
pub trait PointColor: Point + Color {
    fn from_point_color(
        point: Vector3<<Self as Point>::Item>,
        color: Vector3<<Self as Color>::Item>,
    ) -> (p: Self)
        ensures
            p == Self::spec_from_point(point).spec_with_rgb(color),
    ;
}

/// A record that can be built from a position and a normal.
pub trait PointNormal: Point + Normal {
    fn from_point_normal(
        point: Vector3<<Self as Point>::Item>,
        normal: Vector3<<Self as Normal>::Item>,
    ) -> (p: Self)
        ensures
            p == Self::spec_from_point(point).spec_with_normal(normal),
    ;
}

/// A record that can be built from a position, a color and a normal.
pub trait PointColorNormal: Point + Color + Normal {
    fn from_point_color_normal(
        point: Vector3<<Self as Point>::Item>,
        color: Vector3<<Self as Color>::Item>,
        normal: Vector3<<Self as Normal>::Item>,
    ) -> (p: Self)
        ensures
            p == Self::spec_from_point(point).spec_with_rgb(color).spec_with_normal(normal),
    ;
}

/// A position and nothing else.
#[derive(Clone, Copy, Debug, PartialEq, Eq)]
pub struct PointXYZ<T: FloatData> {
    pub point: Vector3<T>,
}

/// A position and a normal.
#[derive(Clone, Copy, Debug, PartialEq, Eq)]
pub struct PointXYZNormal<T: FloatData, U: FloatData> {
    pub point: Vector3<T>,
    pub normal: Vector3<U>,
}

/// A position and a color.
#[derive(Clone, Copy, Debug, PartialEq, Eq)]
pub struct PointXYZRGB<T: FloatData, U: FloatData> {
    pub point: Vector3<T>,
    pub color: Vector3<U>,
}

/// A position, a color and a normal.
#[derive(Clone, Copy, Debug, PartialEq, Eq)]
pub struct PointXYZRGBNormal<T: FloatData, U: FloatData, V: FloatData> {
    pub point: Vector3<T>,
    pub color: Vector3<U>,
    pub normal: Vector3<V>,
}

impl<T: FloatData> Point for PointXYZ<T> {
    type Item = T;

    open spec fn spec_from_point(point: Vector3<T>) -> Self {
        PointXYZ { point }
    }

    open spec fn spec_xyz(&self) -> Vector3<T> {
        self.point
    }

    open spec fn spec_with_xyz(self, xyz: Vector3<T>) -> Self {
        PointXYZ { point: xyz }
    }

    proof fn lemma_xyz(self, xyz: Vector3<T>) {
    }

    fn from_point(point: Vector3<T>) -> (p: Self) {
        PointXYZ { point }
    }

    fn xyz(&self) -> (v: &Vector3<T>) {
        &self.point
    }

    fn xyz_mut(&mut self) -> (v: &mut Vector3<T>) {
        &mut self.point
    }
}

impl<T: FloatData, U: FloatData> Point for PointXYZNormal<T, U> {
    type Item = T;

    open spec fn spec_from_point(point: Vector3<T>) -> Self {
        PointXYZNormal { point, normal: zero_vector::<U>() }
    }

    open spec fn spec_xyz(&self) -> Vector3<T> {
        self.point
    }

    open spec fn spec_with_xyz(self, xyz: Vector3<T>) -> Self {
        PointXYZNormal { point: xyz, normal: self.normal }
    }

    proof fn lemma_xyz(self, xyz: Vector3<T>) {
    }

    fn from_point(point: Vector3<T>) -> (p: Self) {
        PointXYZNormal { point, normal: Vector3::zero() }
    }

    fn xyz(&self) -> (v: &Vector3<T>) {
        &self.point
    }

    fn xyz_mut(&mut self) -> (v: &mut Vector3<T>) {
        &mut self.point
    }
}

impl<T: FloatData, U: FloatData> Normal for PointXYZNormal<T, U> {
    type Item = U;

    open spec fn spec_normal(&self) -> Vector3<U> {
        self.normal
    }

    open spec fn spec_with_normal(self, normal: Vector3<U>) -> Self {
        PointXYZNormal { point: self.point, normal }
    }

    proof fn lemma_normal(self, normal: Vector3<U>) {
    }

    fn normal(&self) -> (v: &Vector3<U>) {
        &self.normal
    }

    fn normal_mut(&mut self) -> (v: &mut Vector3<U>) {
        &mut self.normal
    }
}

impl<T: FloatData, U: FloatData> PointNormal for PointXYZNormal<T, U> {
    fn from_point_normal(point: Vector3<T>, normal: Vector3<U>) -> (p: Self) {
        PointXYZNormal { point, normal }
    }
}

impl<T: FloatData, U: FloatData> Point for PointXYZRGB<T, U> {
    type Item = T;

    open spec fn spec_from_point(point: Vector3<T>) -> Self {
        PointXYZRGB { point, color: zero_vector::<U>() }
    }

    open spec fn spec_xyz(&self) -> Vector3<T> {
        self.point
    }

    open spec fn spec_with_xyz(self, xyz: Vector3<T>) -> Self {
        PointXYZRGB { point: xyz, color: self.color }
    }

    proof fn lemma_xyz(self, xyz: Vector3<T>) {
    }

    fn from_point(point: Vector3<T>) -> (p: Self) {
        PointXYZRGB { point, color: Vector3::zero() }
    }

    fn xyz(&self) -> (v: &Vector3<T>) {
        &self.point
    }

    fn xyz_mut(&mut self) -> (v: &mut Vector3<T>) {
        &mut self.point
    }
}

impl<T: FloatData, U: FloatData> Color for PointXYZRGB<T, U> {
    type Item = U;

    open spec fn spec_rgb(&self) -> Vector3<U> {
        self.color
    }

    open spec fn spec_with_rgb(self, rgb: Vector3<U>) -> Self {
        PointXYZRGB { point: self.point, color: rgb }
    }

    proof fn lemma_rgb(self, rgb: Vector3<U>) {
    }

    fn rgb(&self) -> (v: &Vector3<U>) {
        &self.color
    }

    fn rgb_mut(&mut self) -> (v: &mut Vector3<U>) {
        &mut self.color
    }
}

impl<T: FloatData, U: FloatData> PointColor for PointXYZRGB<T, U> {
    fn from_point_color(point: Vector3<T>, color: Vector3<U>) -> (p: Self) {
        PointXYZRGB { point, color }
    }
}

impl<T: FloatData, U: FloatData, V: FloatData> Point for PointXYZRGBNormal<T, U, V> {
    type Item = T;

    open spec fn spec_from_point(point: Vector3<T>) -> Self {
        PointXYZRGBNormal { point, color: zero_vector::<U>(), normal: zero_vector::<V>() }
    }

    open spec fn spec_xyz(&self) -> Vector3<T> {
        self.point
    }

    open spec fn spec_with_xyz(self, xyz: Vector3<T>) -> Self {
        PointXYZRGBNormal { point: xyz, color: self.color, normal: self.normal }
    }

    proof fn lemma_xyz(self, xyz: Vector3<T>) {
    }

    fn from_point(point: Vector3<T>) -> (p: Self) {
        PointXYZRGBNormal { point, color: Vector3::zero(), normal: Vector3::zero() }
    }

    fn xyz(&self) -> (v: &Vector3<T>) {
        &self.point
    }

    fn xyz_mut(&mut self) -> (v: &mut Vector3<T>) {
        &mut self.point
    }
}

impl<T: FloatData, U: FloatData, V: FloatData> Color for PointXYZRGBNormal<T, U, V> {
    type Item = U;

    open spec fn spec_rgb(&self) -> Vector3<U> {
        self.color
    }

    open spec fn spec_with_rgb(self, rgb: Vector3<U>) -> Self {
        PointXYZRGBNormal { point: self.point, color: rgb, normal: self.normal }
    }

    proof fn lemma_rgb(self, rgb: Vector3<U>) {
    }

    fn rgb(&self) -> (v: &Vector3<U>) {
        &self.color
    }

    fn rgb_mut(&mut self) -> (v: &mut Vector3<U>) {
        &mut self.color
    }
}

impl<T: FloatData, U: FloatData, V: FloatData> Normal for PointXYZRGBNormal<T, U, V> {
    type Item = V;

    open spec fn spec_normal(&self) -> Vector3<V> {
        self.normal
    }

    open spec fn spec_with_normal(self, normal: Vector3<V>) -> Self {
        PointXYZRGBNormal { point: self.point, color: self.color, normal }
    }

    proof fn lemma_normal(self, normal: Vector3<V>) {
    }

    fn normal(&self) -> (v: &Vector3<V>) {
        &self.normal
    }

    fn normal_mut(&mut self) -> (v: &mut Vector3<V>) {
        &mut self.normal
    }
}

impl<T: FloatData, U: FloatData, V: FloatData> PointColorNormal for PointXYZRGBNormal<T, U, V> {
    fn from_point_color_normal(point: Vector3<T>, color: Vector3<U>, normal: Vector3<V>) -> (p:
        Self) {
        PointXYZRGBNormal { point, color, normal }
    }
}

impl<T: FloatData> PointXYZ<T> {
    /// The position's component on axis `k`.
    pub fn at(&self, k: usize) -> (value: T)
        requires
            k < 3,
        ensures
            value == self.point.spec_get(k as int),
    {
        self.point.get(k)
    }
}

impl<T: FloatData, U: FloatData> PointXYZNormal<T, U> {
    /// The position's component on axis `k`.
    pub fn at(&self, k: usize) -> (value: T)
        requires
            k < 3,
        ensures
            value == self.point.spec_get(k as int),
    {
        self.point.get(k)
    }
}

impl<T: FloatData> Default for PointXYZ<T> {
    /// The record at the origin.
    fn default() -> (p: Self)
        ensures
            p == Self::spec_from_point(zero_vector::<T>()),
    {
        PointXYZ { point: Vector3::zero() }
    }
}

impl<T: FloatData, U: FloatData> Default for PointXYZNormal<T, U> {
    /// The record at the origin, with a zero normal.
    fn default() -> (p: Self)
        ensures
            p == Self::spec_from_point(zero_vector::<T>()),
    {
        PointXYZNormal { point: Vector3::zero(), normal: Vector3::zero() }
    }
}

impl<T: FloatData, U: FloatData> Default for PointXYZRGB<T, U> {
    /// The record at the origin, with a zero color.
    fn default() -> (p: Self)
        ensures
            p == Self::spec_from_point(zero_vector::<T>()),
    {
        PointXYZRGB { point: Vector3::zero(), color: Vector3::zero() }
    }
}

impl<T: FloatData, U: FloatData, V: FloatData> Default for PointXYZRGBNormal<T, U, V> {
    /// The record at the origin, with a zero color and a zero normal.
    fn default() -> (p: Self)
        ensures
            p == Self::spec_from_point(zero_vector::<T>()),
    {
        PointXYZRGBNormal { point: Vector3::zero(), color: Vector3::zero(), normal: Vector3::zero() }
    }
}

} // verus!
