//! Floating-point scalars held as IEEE 754 bit patterns.
//!
//! A coordinate is never computed with here: it is stored, copied, decoded from
//! bytes, classified and compared. All of that is exact on the bit pattern, so a
//! scalar is modelled by the natural number that its bits spell.

use vstd::prelude::*;

verus! {

/// The number whose little-endian base-256 digits are `bytes`.
pub open spec fn le_value(bytes: Seq<u8>) -> nat
    decreases bytes.len(),
{
    if bytes.len() == 0 {
        0
    } else {
        bytes[0] as nat + 256 * le_value(bytes.skip(1))
    }
}

/// The `len` little-endian base-256 digits of `value`.
pub open spec fn le_digits(value: nat, len: nat) -> Seq<u8>
    decreases len,
{
    if len == 0 {
        Seq::empty()
    } else {
        seq![(value % 256) as u8] + le_digits(value / 256, (len - 1) as nat)
    }
}

/// `256` to the power `len`: one more than the largest value of `len` bytes.
pub open spec fn byte_range(len: nat) -> nat
    decreases len,
{
    if len == 0 {
        1
    } else {
        256 * byte_range((len - 1) as nat)
    }
}

/// A little-endian value of `bytes.len()` bytes lies below `256^len`.
pub proof fn lemma_le_value_bound(bytes: Seq<u8>)
    ensures
        le_value(bytes) < byte_range(bytes.len()),
    decreases bytes.len(),
{
    if bytes.len() > 0 {
        lemma_le_value_bound(bytes.skip(1));
    }
}

/// Reading back the digits of a value that fits gives the value.
pub proof fn lemma_le_value_of_digits(value: nat, len: nat)
    requires
        value < byte_range(len),
    ensures
        le_digits(value, len).len() == len,
        le_value(le_digits(value, len)) == value,
    decreases len,
{
    if len > 0 {
        let rest = (len - 1) as nat;
        assert(value / 256 < byte_range(rest)) by (nonlinear_arith)
            requires
                value < 256 * byte_range(rest),
        ;
        lemma_le_value_of_digits(value / 256, rest);
        let d = le_digits(value, len);
        assert(d.skip(1) =~= le_digits(value / 256, rest));
    } else {
        assert(le_digits(value, len).len() == 0);
    }
}

/// Writing out the digits of what a byte string spells gives the byte string.
pub proof fn lemma_le_digits_of_value(bytes: Seq<u8>)
    ensures
        le_digits(le_value(bytes), bytes.len()) == bytes,
    decreases bytes.len(),
{
    if bytes.len() > 0 {
        let tail = bytes.skip(1);
        lemma_le_digits_of_value(tail);
        let v = le_value(bytes);
        assert(v % 256 == bytes[0] as nat && v / 256 == le_value(tail)) by (nonlinear_arith)
            requires
                v == bytes[0] as nat + 256 * le_value(tail),
                bytes[0] < 256,
        ;
        assert(le_digits(v, bytes.len()) =~= bytes);
    } else {
        assert(le_digits(le_value(bytes), bytes.len()) =~= bytes);
    }
}

/// A floating-point scalar type, known by its bit pattern.
///
/// `spec_bits` is the model of a value: two scalars are equal exactly when their
/// bit patterns are. The other functions classify and order bit patterns as
/// IEEE 754 does.
pub trait FloatData: Copy + Sized {
    /// Bytes in the encoding of one value.
    spec fn spec_size() -> nat;

    /// The bit pattern, as a number below `256^spec_size()`.
    spec fn spec_bits(self) -> nat;

    /// The scalar with the given bit pattern.
    spec fn spec_from_bits(bits: nat) -> Self;

    /// The bit pattern with its sign bit cleared.
    spec fn spec_magnitude(self) -> nat;

    /// Whether the sign bit is set.
    spec fn spec_is_negative(self) -> bool;

    /// The magnitude of positive infinity; every larger magnitude is a NaN.
    spec fn spec_infinity() -> nat;

    /// The bit pattern of `1.0`.
    spec fn spec_one_bits() -> nat;

    /// A value takes at least one byte.
    proof fn lemma_size()
        ensures
            Self::spec_size() > 0,
    ;

    /// Bit patterns and scalars correspond one to one.
    proof fn lemma_bits(self)
        ensures
            self.spec_bits() < byte_range(Self::spec_size()),
            Self::spec_from_bits(self.spec_bits()) == self,
    ;

    /// Every bit pattern of the right width belongs to a scalar.
    proof fn lemma_from_bits(bits: nat)
        requires
            bits < byte_range(Self::spec_size()),
        ensures
            Self::spec_from_bits(bits).spec_bits() == bits,
    ;

    fn size() -> (n: usize)
        ensures
            n == Self::spec_size(),
            n > 0,
    ;

    /// Positive zero, the default of every attribute.
    fn zero() -> (z: Self)
        ensures
            z == Self::spec_from_bits(0),
    ;

    /// The value `1.0`.
    fn one() -> (o: Self)
        ensures
            o == Self::spec_from_bits(Self::spec_one_bits()),
    ;

    /// Whether the value is a NaN (see [`is_nan`]).
    fn is_nan(&self) -> (b: bool)
        ensures
            b == (self.spec_magnitude() > Self::spec_infinity()),
    ;

    /// IEEE 754 `self < other` (see [`less_than`]).
    fn lt(&self, other: &Self) -> (b: bool)
        ensures
            b == (self.spec_magnitude() <= Self::spec_infinity() && other.spec_magnitude()
                <= Self::spec_infinity() && order_key(
                self.spec_magnitude(),
                self.spec_is_negative(),
            ) < order_key(other.spec_magnitude(), other.spec_is_negative())),
    ;

    /// IEEE 754 `self <= other` (see [`less_or_equal`]).
    fn le(&self, other: &Self) -> (b: bool)
        ensures
            b == (self.spec_magnitude() <= Self::spec_infinity() && other.spec_magnitude()
                <= Self::spec_infinity() && order_key(
                self.spec_magnitude(),
                self.spec_is_negative(),
            ) <= order_key(other.spec_magnitude(), other.spec_is_negative())),
    ;

    /// Decodes the first `size()` bytes of `bytes`, least significant byte
    /// first (see [`decode_le`]).
    fn from_le_bytes(bytes: &[u8]) -> (v: Self)
        requires
            bytes@.len() >= Self::spec_size(),
        ensures
            v == Self::spec_from_bits(le_value(bytes@.take(Self::spec_size() as int))),
    ;
}

/// Where a value that is no NaN stands on the number line, given its magnitude
/// bits and its sign: sign-and-magnitude bit patterns grow with the value they
/// encode, and both zeros stand at `0`.
pub open spec fn order_key(magnitude: nat, negative: bool) -> int {
    if negative {
        -(magnitude as int)
    } else {
        magnitude as int
    }
}

/// Positive zero: all bits clear.
pub open spec fn zero<T: FloatData>() -> T {
    T::spec_from_bits(0)
}

/// The value `1.0`.
pub open spec fn one<T: FloatData>() -> T {
    T::spec_from_bits(T::spec_one_bits())
}

/// A NaN has all exponent bits set and a non-zero fraction: its magnitude lies
/// above that of infinity.
pub open spec fn is_nan<T: FloatData>(v: T) -> bool {
    v.spec_magnitude() > T::spec_infinity()
}

/// IEEE 754 `a < b`: false whenever either side is a NaN, and `-0.0 < 0.0` is
/// false.
pub open spec fn less_than<T: FloatData>(a: T, b: T) -> bool {
    !is_nan(a) && !is_nan(b) && order_key(a.spec_magnitude(), a.spec_is_negative())
        < order_key(b.spec_magnitude(), b.spec_is_negative())
}

/// IEEE 754 `a <= b`: false whenever either side is a NaN, and true of the two
/// zeros either way round.
pub open spec fn less_or_equal<T: FloatData>(a: T, b: T) -> bool {
    !is_nan(a) && !is_nan(b) && order_key(a.spec_magnitude(), a.spec_is_negative())
        <= order_key(b.spec_magnitude(), b.spec_is_negative())
}

/// The scalar that the first `spec_size()` bytes of `bytes` encode, least
/// significant byte first.
pub open spec fn decode_le<T: FloatData>(bytes: Seq<u8>) -> T {
    T::spec_from_bits(le_value(bytes.take(T::spec_size() as int)))
}

/// The little-endian encoding of a scalar.
pub open spec fn encode_le<T: FloatData>(v: T) -> Seq<u8> {
    le_digits(v.spec_bits(), T::spec_size())
}

/// The bit pattern of a decoded scalar is the number that its bytes spell.
pub proof fn lemma_decode_bits<T: FloatData>(bytes: Seq<u8>)
    requires
        bytes.len() >= T::spec_size(),
    ensures
        decode_le::<T>(bytes).spec_bits() == le_value(bytes.take(T::spec_size() as int)),
{
    lemma_le_value_bound(bytes.take(T::spec_size() as int));
    T::lemma_from_bits(le_value(bytes.take(T::spec_size() as int)));
}

/// Decoding the encoding of a scalar gives the scalar back, bit for bit,
/// whatever follows the encoding.
pub proof fn lemma_decode_encode<T: FloatData>(v: T, rest: Seq<u8>)
    ensures
        encode_le(v).len() == T::spec_size(),
        decode_le::<T>(encode_le(v) + rest) == v,
{
    v.lemma_bits();
    lemma_le_value_of_digits(v.spec_bits(), T::spec_size());
    assert((encode_le(v) + rest).take(T::spec_size() as int) =~= encode_le(v));
}

} // verus!
