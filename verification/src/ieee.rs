//! The two IEEE 754 binary formats: `Single` (32 bits) and `Double` (64 bits).

use crate::scalar::{byte_range, le_value, FloatData};
use vstd::prelude::*;

verus! {

#[verifier::external_type_specification]
#[verifier::external_body]
pub struct ExBincodeErrorKind(bincode::ErrorKind);

/// `bincode::deserialize::<u32>`: with bincode's default options (fixed-width
/// integers, little endian, trailing bytes allowed) it reads the first four
/// bytes as a little-endian integer, and fails only when fewer than four bytes
/// are there. Deserializing a 32-bit float reads the same four bytes and
/// reinterprets the same integer, so this is the float's bit pattern.
#[verifier::external_body]
fn deserialize_u32(bytes: &[u8]) -> (r: Result<u32, Box<bincode::ErrorKind>>)
    ensures
        bytes@.len() >= 4 ==> r is Ok && r->Ok_0 == le_value(bytes@.take(4)),
        bytes@.len() < 4 ==> r is Err,
{
    bincode::deserialize::<u32>(bytes)
}

/// `bincode::deserialize::<u64>`: as for `u32`, with eight bytes.
#[verifier::external_body]
fn deserialize_u64(bytes: &[u8]) -> (r: Result<u64, Box<bincode::ErrorKind>>)
    ensures
        bytes@.len() >= 8 ==> r is Ok && r->Ok_0 == le_value(bytes@.take(8)),
        bytes@.len() < 8 ==> r is Err,
{
    bincode::deserialize::<u64>(bytes)
}

/// A single-precision value: 1 sign bit, 8 exponent bits, 23 fraction bits.
#[derive(Clone, Copy, Debug, PartialEq, Eq, Structural)]
pub struct Single {
    pub bits: u32,
}

/// A double-precision value: 1 sign bit, 11 exponent bits, 52 fraction bits.
#[derive(Clone, Copy, Debug, PartialEq, Eq, Structural)]
pub struct Double {
    pub bits: u64,
}

impl Single {
    pub fn from_bits(bits: u32) -> (v: Self)
        ensures
            v.bits == bits,
    {
        Single { bits }
    }

    pub fn to_bits(self) -> (bits: u32)
        ensures
            bits == self.bits,
    {
        self.bits
    }
}

impl Double {
    pub fn from_bits(bits: u64) -> (v: Self)
        ensures
            v.bits == bits,
    {
        Double { bits }
    }

    pub fn to_bits(self) -> (bits: u64)
        ensures
            bits == self.bits,
    {
        self.bits
    }
}

impl FloatData for Single {
    open spec fn spec_size() -> nat {
        4
    }

    open spec fn spec_bits(self) -> nat {
        self.bits as nat
    }

    open spec fn spec_from_bits(bits: nat) -> Self {
        Single { bits: bits as u32 }
    }

    open spec fn spec_magnitude(self) -> nat {
        if self.bits >= 0x8000_0000 {
            (self.bits - 0x8000_0000) as nat
        } else {
            self.bits as nat
        }
    }

    open spec fn spec_is_negative(self) -> bool {
        self.bits >= 0x8000_0000
    }

    open spec fn spec_infinity() -> nat {
        0x7f80_0000
    }

    open spec fn spec_one_bits() -> nat {
        0x3f80_0000
    }

    proof fn lemma_size() {
    }

    proof fn lemma_bits(self) {
        reveal_with_fuel(byte_range, 5);
    }

    proof fn lemma_from_bits(bits: nat) {
        reveal_with_fuel(byte_range, 5);
    }

    fn size() -> (n: usize) {
        4
    }

    fn zero() -> (z: Self) {
        Single { bits: 0 }
    }

    fn one() -> (o: Self) {
        Single { bits: 0x3f80_0000 }
    }

    fn is_nan(&self) -> (b: bool) {
        let magnitude: u32 = if self.bits >= 0x8000_0000 {
            self.bits - 0x8000_0000
        } else {
            self.bits
        };
        magnitude > 0x7f80_0000
    }

    fn lt(&self, other: &Self) -> (b: bool) {
        if self.is_nan() || other.is_nan() {
            return false;
        }
        let a: i64 = if self.bits >= 0x8000_0000 {
            -((self.bits - 0x8000_0000) as i64)
        } else {
            self.bits as i64
        };
        let b: i64 = if other.bits >= 0x8000_0000 {
            -((other.bits - 0x8000_0000) as i64)
        } else {
            other.bits as i64
        };
        a < b
    }

    fn le(&self, other: &Self) -> (b: bool) {
        if self.is_nan() || other.is_nan() {
            return false;
        }
        let a: i64 = if self.bits >= 0x8000_0000 {
            -((self.bits - 0x8000_0000) as i64)
        } else {
            self.bits as i64
        };
        let b: i64 = if other.bits >= 0x8000_0000 {
            -((other.bits - 0x8000_0000) as i64)
        } else {
            other.bits as i64
        };
        a <= b
    }

    fn from_le_bytes(bytes: &[u8]) -> (v: Self) {
        match deserialize_u32(bytes) {
            Ok(bits) => Single { bits },
            Err(_) => Single { bits: 0 },
        }
    }
}

impl FloatData for Double {
    open spec fn spec_size() -> nat {
        8
    }

    open spec fn spec_bits(self) -> nat {
        self.bits as nat
    }

    open spec fn spec_from_bits(bits: nat) -> Self {
        Double { bits: bits as u64 }
    }

    open spec fn spec_magnitude(self) -> nat {
        if self.bits >= 0x8000_0000_0000_0000 {
            (self.bits - 0x8000_0000_0000_0000) as nat
        } else {
            self.bits as nat
        }
    }

    open spec fn spec_is_negative(self) -> bool {
        self.bits >= 0x8000_0000_0000_0000
    }

    open spec fn spec_infinity() -> nat {
        0x7ff0_0000_0000_0000
    }

    open spec fn spec_one_bits() -> nat {
        0x3ff0_0000_0000_0000
    }

    proof fn lemma_size() {
    }

    proof fn lemma_bits(self) {
        reveal_with_fuel(byte_range, 9);
    }

    proof fn lemma_from_bits(bits: nat) {
        reveal_with_fuel(byte_range, 9);
    }

    fn size() -> (n: usize) {
        8
    }

    fn zero() -> (z: Self) {
        Double { bits: 0 }
    }

    fn one() -> (o: Self) {
        Double { bits: 0x3ff0_0000_0000_0000 }
    }

    fn is_nan(&self) -> (b: bool) {
        let magnitude: u64 = if self.bits >= 0x8000_0000_0000_0000 {
            self.bits - 0x8000_0000_0000_0000
        } else {
            self.bits
        };
        magnitude > 0x7ff0_0000_0000_0000
    }

    fn lt(&self, other: &Self) -> (b: bool) {
        if self.is_nan() || other.is_nan() {
            return false;
        }
        let a: i128 = if self.bits >= 0x8000_0000_0000_0000 {
            -((self.bits - 0x8000_0000_0000_0000) as i128)
        } else {
            self.bits as i128
        };
        let b: i128 = if other.bits >= 0x8000_0000_0000_0000 {
            -((other.bits - 0x8000_0000_0000_0000) as i128)
        } else {
            other.bits as i128
        };
        a < b
    }

    fn le(&self, other: &Self) -> (b: bool) {
        if self.is_nan() || other.is_nan() {
            return false;
        }
        let a: i128 = if self.bits >= 0x8000_0000_0000_0000 {
            -((self.bits - 0x8000_0000_0000_0000) as i128)
        } else {
            self.bits as i128
        };
        let b: i128 = if other.bits >= 0x8000_0000_0000_0000 {
            -((other.bits - 0x8000_0000_0000_0000) as i128)
        } else {
            other.bits as i128
        };
        a <= b
    }

    fn from_le_bytes(bytes: &[u8]) -> (v: Self) {
        match deserialize_u64(bytes) {
            Ok(bits) => Double { bits },
            Err(_) => Double { bits: 0 },
        }
    }
}

} // verus!
