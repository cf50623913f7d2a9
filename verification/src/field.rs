//! The scalar attributes of a record, by name.
//!
//! A column of a file is mapped to an attribute by its name. Which attributes
//! a record type has is a property of the type; a column whose attribute the
//! type lacks is passed over.

use crate::pcd::text::bytes_equal;
use crate::point::{Point, PointXYZ, PointXYZNormal, PointXYZRGB, PointXYZRGBNormal};
use crate::scalar::FloatData;
use crate::vector::Vector3;
use vstd::prelude::*;

verus! {

/// `x`
pub const NAME_X: [u8; 1] = [120];

/// `y`
pub const NAME_Y: [u8; 1] = [121];

/// `z`
pub const NAME_Z: [u8; 1] = [122];

/// `normal_x`
pub const NAME_NORMAL_X: [u8; 8] = [110, 111, 114, 109, 97, 108, 95, 120];

/// `normal_y`
pub const NAME_NORMAL_Y: [u8; 8] = [110, 111, 114, 109, 97, 108, 95, 121];

/// `normal_z`
pub const NAME_NORMAL_Z: [u8; 8] = [110, 111, 114, 109, 97, 108, 95, 122];

/// `r`
pub const NAME_R: [u8; 1] = [114];

/// `g`
pub const NAME_G: [u8; 1] = [103];

/// `b`
pub const NAME_B: [u8; 1] = [98];

/// `rgb`
pub const NAME_RGB: [u8; 3] = [114, 103, 98];

/// A scalar attribute that a column can fill.
#[derive(Clone, Copy, Debug, PartialEq, Eq, Structural)]
pub enum Field {
    X,
    Y,
    Z,
    NormalX,
    NormalY,
    NormalZ,
    Red,
    Green,
    Blue,
    /// The color as a whole: one value for all three channels.
    Rgb,
}

/// The attribute that a column of this name fills, if the name is known.
pub open spec fn field_named(name: Seq<u8>) -> Option<Field> {
    if name == NAME_X@ {
        Some(Field::X)
    } else if name == NAME_Y@ {
        Some(Field::Y)
    } else if name == NAME_Z@ {
        Some(Field::Z)
    } else if name == NAME_NORMAL_X@ {
        Some(Field::NormalX)
    } else if name == NAME_NORMAL_Y@ {
        Some(Field::NormalY)
    } else if name == NAME_NORMAL_Z@ {
        Some(Field::NormalZ)
    } else if name == NAME_R@ {
        Some(Field::Red)
    } else if name == NAME_G@ {
        Some(Field::Green)
    } else if name == NAME_B@ {
        Some(Field::Blue)
    } else if name == NAME_RGB@ {
        Some(Field::Rgb)
    } else {
        None
    }
}

/// Looks a column name up.
pub fn field_of(name: &[u8]) -> (field: Option<Field>)
    ensures
        field == field_named(name@),
{
    if bytes_equal(name, &NAME_X) {
        Some(Field::X)
    } else if bytes_equal(name, &NAME_Y) {
        Some(Field::Y)
    } else if bytes_equal(name, &NAME_Z) {
        Some(Field::Z)
    } else if bytes_equal(name, &NAME_NORMAL_X) {
        Some(Field::NormalX)
    } else if bytes_equal(name, &NAME_NORMAL_Y) {
        Some(Field::NormalY)
    } else if bytes_equal(name, &NAME_NORMAL_Z) {
        Some(Field::NormalZ)
    } else if bytes_equal(name, &NAME_R) {
        Some(Field::Red)
    } else if bytes_equal(name, &NAME_G) {
        Some(Field::Green)
    } else if bytes_equal(name, &NAME_B) {
        Some(Field::Blue)
    } else if bytes_equal(name, &NAME_RGB) {
        Some(Field::Rgb)
    } else {
        None
    }
}

/// `v` with the component that `field` names replaced by `value`, where
/// `field` is one of `x`, `y`, `z`; `v` itself otherwise.
pub open spec fn with_position<T: Copy>(v: Vector3<T>, field: Field, value: T) -> Vector3<T> {
    match field {
        Field::X => v.spec_with(0, value),
        Field::Y => v.spec_with(1, value),
        Field::Z => v.spec_with(2, value),
        _ => v,
    }
}

/// `v` with the component that `field` names replaced by `value`, where
/// `field` is one of the three normal components; `v` itself otherwise.
pub open spec fn with_normal<T: Copy>(v: Vector3<T>, field: Field, value: T) -> Vector3<T> {
    match field {
        Field::NormalX => v.spec_with(0, value),
        Field::NormalY => v.spec_with(1, value),
        Field::NormalZ => v.spec_with(2, value),
        _ => v,
    }
}

/// `v` with the channel that `field` names replaced by `value`, or with all
/// three replaced where `field` is the color as a whole; `v` itself where
/// `field` is no color.
pub open spec fn with_color<T: Copy>(v: Vector3<T>, field: Field, value: T) -> Vector3<T> {
    match field {
        Field::Red => v.spec_with(0, value),
        Field::Green => v.spec_with(1, value),
        Field::Blue => v.spec_with(2, value),
        Field::Rgb => Vector3::spec_splat(value),
        _ => v,
    }
}

/// Whether `field` is a position component.
pub open spec fn is_position(field: Field) -> bool {
    field == Field::X || field == Field::Y || field == Field::Z
}

/// Whether `field` is a normal component.
pub open spec fn is_normal(field: Field) -> bool {
    field == Field::NormalX || field == Field::NormalY || field == Field::NormalZ
}

/// Whether `field` is a color channel or the color as a whole.
pub open spec fn is_color(field: Field) -> bool {
    field == Field::Red || field == Field::Green || field == Field::Blue || field == Field::Rgb
}

fn set_position<T: Copy>(v: &mut Vector3<T>, field: Field, value: T)
    ensures
        *final(v) == with_position(*old(v), field, value),
{
    match field {
        Field::X => v.set(0, value),
        Field::Y => v.set(1, value),
        Field::Z => v.set(2, value),
        _ => {},
    }
}

fn set_normal<T: Copy>(v: &mut Vector3<T>, field: Field, value: T)
    ensures
        *final(v) == with_normal(*old(v), field, value),
{
    match field {
        Field::NormalX => v.set(0, value),
        Field::NormalY => v.set(1, value),
        Field::NormalZ => v.set(2, value),
        _ => {},
    }
}

fn set_color<T: Copy>(v: &mut Vector3<T>, field: Field, value: T)
    ensures
        *final(v) == with_color(*old(v), field, value),
{
    match field {
        Field::Red => v.set(0, value),
        Field::Green => v.set(1, value),
        Field::Blue => v.set(2, value),
        Field::Rgb => {
            *v = Vector3::splat(value);
        },
        _ => {},
    }
}

fn field_is_position(field: Field) -> (b: bool)
    ensures
        b == is_position(field),
{
    match field {
        Field::X | Field::Y | Field::Z => true,
        _ => false,
    }
}

fn field_is_normal(field: Field) -> (b: bool)
    ensures
        b == is_normal(field),
{
    match field {
        Field::NormalX | Field::NormalY | Field::NormalZ => true,
        _ => false,
    }
}

fn field_is_color(field: Field) -> (b: bool)
    ensures
        b == is_color(field),
{
    match field {
        Field::Red | Field::Green | Field::Blue | Field::Rgb => true,
        _ => false,
    }
}

/// A record whose scalar attributes can be written by name.
pub trait PointField: Point {
    /// Whether records of this type have the attribute.
    spec fn spec_has_field(field: Field) -> bool;

    /// The record with the attribute set to `value`; the record itself where
    /// the type lacks the attribute.
    spec fn spec_with_field(self, field: Field, value: Self::Item) -> Self;

    /// Every record type has the three position components, and writing one
    /// of them changes the position at that component and nothing else.
    proof fn lemma_position_field(self, field: Field, value: Self::Item)
        requires
            is_position(field),
        ensures
            Self::spec_has_field(field),
            self.spec_with_field(field, value) == self.spec_with_xyz(
                with_position(self.spec_xyz(), field, value),
            ),
    ;

    fn has_field(field: Field) -> (b: bool)
        ensures
            b == Self::spec_has_field(field),
    ;

    fn set_field(&mut self, field: Field, value: Self::Item)
        ensures
            *final(self) == (*old(self)).spec_with_field(field, value),
    ;
}

impl<T: FloatData> PointField for PointXYZ<T> {
    open spec fn spec_has_field(field: Field) -> bool {
        is_position(field)
    }

    open spec fn spec_with_field(self, field: Field, value: T) -> Self {
        PointXYZ { point: with_position(self.point, field, value) }
    }

    proof fn lemma_position_field(self, field: Field, value: T) {
    }

    fn has_field(field: Field) -> (b: bool) {
        field_is_position(field)
    }

    fn set_field(&mut self, field: Field, value: T) {
        set_position(&mut self.point, field, value);
    }
}

impl<T: FloatData> PointField for PointXYZNormal<T, T> {
    open spec fn spec_has_field(field: Field) -> bool {
        is_position(field) || is_normal(field)
    }

    open spec fn spec_with_field(self, field: Field, value: T) -> Self {
        PointXYZNormal {
            point: with_position(self.point, field, value),
            normal: with_normal(self.normal, field, value),
        }
    }

    proof fn lemma_position_field(self, field: Field, value: T) {
    }

    fn has_field(field: Field) -> (b: bool) {
        field_is_position(field) || field_is_normal(field)
    }

    fn set_field(&mut self, field: Field, value: T) {
        set_position(&mut self.point, field, value);
        set_normal(&mut self.normal, field, value);
    }
}

impl<T: FloatData> PointField for PointXYZRGB<T, T> {
    open spec fn spec_has_field(field: Field) -> bool {
        is_position(field) || is_color(field)
    }

    open spec fn spec_with_field(self, field: Field, value: T) -> Self {
        PointXYZRGB {
            point: with_position(self.point, field, value),
            color: with_color(self.color, field, value),
        }
    }

    proof fn lemma_position_field(self, field: Field, value: T) {
    }

    fn has_field(field: Field) -> (b: bool) {
        field_is_position(field) || field_is_color(field)
    }

    fn set_field(&mut self, field: Field, value: T) {
        set_position(&mut self.point, field, value);
        set_color(&mut self.color, field, value);
    }
}

impl<T: FloatData> PointField for PointXYZRGBNormal<T, T, T> {
    open spec fn spec_has_field(field: Field) -> bool {
        true
    }

    open spec fn spec_with_field(self, field: Field, value: T) -> Self {
        PointXYZRGBNormal {
            point: with_position(self.point, field, value),
            color: with_color(self.color, field, value),
            normal: with_normal(self.normal, field, value),
        }
    }

    proof fn lemma_position_field(self, field: Field, value: T) {
    }

    fn has_field(field: Field) -> (b: bool) {
        true
    }

    fn set_field(&mut self, field: Field, value: T) {
        set_position(&mut self.point, field, value);
        set_color(&mut self.color, field, value);
        set_normal(&mut self.normal, field, value);
    }
}

} // verus!
