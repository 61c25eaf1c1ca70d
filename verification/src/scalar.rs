//! Single-precision values, held by their IEEE 754 bit pattern.
//!
//! The host does the arithmetic; this module decides comparisons, and it does
//! so on the bits alone. A value that is not a NaN has a `rank`: an integer
//! that grows exactly as the encoded number does, with both zeros at rank 0.
//! Every comparison involving a NaN is false, as IEEE 754 prescribes.

use vstd::arithmetic::power2::{
    lemma2_to64, lemma_pow2_adds, lemma_pow2_pos, lemma_pow2_strictly_increases,
    lemma_pow2_unfold, pow2,
};
use vstd::prelude::*;

verus! {

/// Bit pattern of the sign of a single-precision value.
pub const SIGN_BIT: u32 = 0x8000_0000;

/// Bit pattern of positive infinity; every larger magnitude is a NaN.
pub const INFINITY_BITS: u32 = 0x7F80_0000;

/// Bit pattern of the largest finite value.
pub const MAX_BITS: u32 = 0x7F7F_FFFF;

/// Bit pattern of 1.0.
pub const ONE_BITS: u32 = 0x3F80_0000;

/// Bit pattern of the machine epsilon, 2^-23.
pub const EPSILON_BITS: u32 = 0x3400_0000;

/// Bit pattern of positive zero.
pub const ZERO_BITS: u32 = 0;

/// Two to the power 23: the weight of the exponent field in the bits, and of
/// the hidden bit in the significand.
pub const HIDDEN_BIT: u32 = 0x80_0000;

/// A single-precision value, identified by its bits.
#[derive(Clone, Copy, Debug, PartialEq, Eq, Structural)]
pub struct Scalar {
    pub bits: u32,
}

impl Scalar {
    /// The bits with the sign cleared.
    pub open spec fn magnitude(self) -> int {
        if self.bits >= SIGN_BIT {
            self.bits - SIGN_BIT
        } else {
            self.bits as int
        }
    }

    /// Whether the sign bit is set.
    pub open spec fn is_negative(self) -> bool {
        self.bits >= SIGN_BIT
    }

    /// Whether the value is a NaN.
    pub open spec fn is_nan_spec(self) -> bool {
        self.magnitude() > INFINITY_BITS
    }

    /// Whether the value is neither a NaN nor an infinity.
    pub open spec fn is_finite_spec(self) -> bool {
        self.magnitude() < INFINITY_BITS
    }

    /// Whether the value is positive or negative zero.
    pub open spec fn is_zero_spec(self) -> bool {
        self.magnitude() == 0
    }

    /// The place of the value in the numeric order. It means nothing for a
    /// NaN.
    pub open spec fn rank(self) -> int {
        if self.is_negative() {
            -self.magnitude()
        } else {
            self.magnitude()
        }
    }

    /// The exponent field of the bits.
    pub open spec fn exponent_field(self) -> int {
        self.magnitude() / (HIDDEN_BIT as int)
    }

    /// The fraction field of the bits.
    pub open spec fn fraction_field(self) -> int {
        self.magnitude() % (HIDDEN_BIT as int)
    }

    /// The significand as an integer: the fraction, with the hidden bit in
    /// front of it unless the value is subnormal.
    pub open spec fn significand(self) -> int {
        if self.exponent_field() == 0 {
            self.fraction_field()
        } else {
            HIDDEN_BIT + self.fraction_field()
        }
    }

    /// How many times the significand is doubled, counted from the subnormal
    /// values.
    pub open spec fn doublings(self) -> nat {
        if self.exponent_field() == 0 {
            0
        } else {
            (self.exponent_field() - 1) as nat
        }
    }

    /// The number that a finite value encodes, in units of 2^-149, the
    /// smallest positive value. In these units every finite value is an
    /// integer.
    pub open spec fn units(self) -> int {
        if self.is_negative() {
            -(self.significand() * pow2(self.doublings()))
        } else {
            self.significand() * pow2(self.doublings())
        }
    }

    /// `self < other`: false whenever a NaN is involved.
    pub open spec fn lt_spec(self, other: Scalar) -> bool {
        !self.is_nan_spec() && !other.is_nan_spec() && self.rank() < other.rank()
    }

    /// `self <= other`: false whenever a NaN is involved.
    pub open spec fn le_spec(self, other: Scalar) -> bool {
        !self.is_nan_spec() && !other.is_nan_spec() && self.rank() <= other.rank()
    }

    /// `self > other`: false whenever a NaN is involved.
    pub open spec fn gt_spec(self, other: Scalar) -> bool {
        other.lt_spec(self)
    }

    /// `self >= other`: false whenever a NaN is involved.
    pub open spec fn ge_spec(self, other: Scalar) -> bool {
        other.le_spec(self)
    }

    /// The value with its sign cleared.
    pub open spec fn abs_spec(self) -> Scalar {
        Scalar { bits: self.magnitude() as u32 }
    }

    /// Wraps a bit pattern.
    pub fn from_bits(bits: u32) -> (r: Scalar)
        ensures
            r == (Scalar { bits }),
    {
        Scalar { bits }
    }

    /// The bit pattern.
    pub fn to_bits(&self) -> (r: u32)
        ensures
            r == self.bits,
    {
        self.bits
    }

    fn magnitude_bits(&self) -> (r: u32)
        ensures
            r == self.magnitude(),
            r < SIGN_BIT,
    {
        if self.bits >= SIGN_BIT {
            self.bits - SIGN_BIT
        } else {
            self.bits
        }
    }

    fn rank_value(&self) -> (r: i64)
        ensures
            r == self.rank(),
    {
        let m: u32 = self.magnitude_bits();
        if self.bits >= SIGN_BIT {
            -(m as i64)
        } else {
            m as i64
        }
    }

    /// Takes the value apart: whether its sign is set, its significand, and
    /// how many times the significand is doubled. A finite value is the
    /// number `significand * 2^(doublings - 149)`, with that sign.
    pub fn to_parts(&self) -> (r: (bool, u32, u32))
        ensures
            r.0 == self.is_negative(),
            r.1 == self.significand(),
            r.2 == self.doublings(),
    {
        let magnitude: u32 = self.magnitude_bits();
        let exponent: u32 = magnitude / HIDDEN_BIT;
        let fraction: u32 = magnitude % HIDDEN_BIT;
        if exponent == 0 {
            (self.bits >= SIGN_BIT, fraction, 0)
        } else {
            (self.bits >= SIGN_BIT, HIDDEN_BIT + fraction, exponent - 1)
        }
    }

    /// Whether the value is a NaN.
    pub fn is_nan(&self) -> (r: bool)
        ensures
            r == self.is_nan_spec(),
    {
        self.magnitude_bits() > INFINITY_BITS
    }

    /// Whether the value is neither a NaN nor an infinity.
    pub fn is_finite(&self) -> (r: bool)
        ensures
            r == self.is_finite_spec(),
    {
        self.magnitude_bits() < INFINITY_BITS
    }

    /// Whether the value is positive or negative zero.
    pub fn is_zero(&self) -> (r: bool)
        ensures
            r == self.is_zero_spec(),
    {
        self.magnitude_bits() == 0
    }

    /// Clears the sign, as the absolute value of a single-precision number
    /// does, NaNs included.
    pub fn abs(&self) -> (r: Scalar)
        ensures
            r == self.abs_spec(),
            !r.is_negative(),
            r.is_nan_spec() == self.is_nan_spec(),
    {
        Scalar { bits: self.magnitude_bits() }
    }

    /// `self < other`, as the hardware compares the two numbers.
    pub fn lt(&self, other: &Scalar) -> (r: bool)
        ensures
            r == self.lt_spec(*other),
    {
        !self.is_nan() && !other.is_nan() && self.rank_value() < other.rank_value()
    }

    /// `self <= other`, as the hardware compares the two numbers.
    pub fn le(&self, other: &Scalar) -> (r: bool)
        ensures
            r == self.le_spec(*other),
    {
        !self.is_nan() && !other.is_nan() && self.rank_value() <= other.rank_value()
    }

    /// `self > other`, as the hardware compares the two numbers.
    pub fn gt(&self, other: &Scalar) -> (r: bool)
        ensures
            r == self.gt_spec(*other),
    {
        other.lt(self)
    }

    /// `self >= other`, as the hardware compares the two numbers.
    pub fn ge(&self, other: &Scalar) -> (r: bool)
        ensures
            r == self.ge_spec(*other),
    {
        other.le(self)
    }
}

/// Among the finite values without a sign, larger bits encode a larger
/// number.
proof fn lemma_magnitude_follows_number(a: Scalar, b: Scalar)
    requires
        a.is_finite_spec(),
        b.is_finite_spec(),
        !a.is_negative(),
        !b.is_negative(),
        a.magnitude() < b.magnitude(),
    ensures
        0 <= a.units() < b.units(),
{
    let pa = pow2(a.doublings()) as int;
    let pb = pow2(b.doublings()) as int;
    lemma_pow2_pos(a.doublings());
    lemma_pow2_pos(b.doublings());
    let (sa, sb) = (a.significand(), b.significand());
    assert(0 <= sa < 2 * HIDDEN_BIT && 0 <= sb);
    assert(0 <= sa * pa) by (nonlinear_arith)
        requires
            0 <= sa,
            0 < pa,
    ;
    if a.exponent_field() == b.exponent_field() {
        assert(sa < sb);
        assert(sa * pa < sb * pb) by (nonlinear_arith)
            requires
                sa < sb,
                pa == pb,
                0 < pa,
        ;
    } else if a.exponent_field() == 0 {
        lemma2_to64();
        assert(sa < HIDDEN_BIT <= sb);
        assert(sa * pa < sb * pb) by (nonlinear_arith)
            requires
                0 <= sa < sb,
                pa == 1,
                1 <= pb,
        ;
    } else {
        assert(a.exponent_field() < b.exponent_field());
        assert(HIDDEN_BIT <= sb);
        let next = (a.doublings() + 1) as nat;
        lemma_pow2_unfold(next);
        if next < b.doublings() {
            lemma_pow2_strictly_increases(next, b.doublings());
        }
        assert(2 * pa <= pb);
        assert(sa * pa < sb * pb) by (nonlinear_arith)
            requires
                0 <= sa < 2 * HIDDEN_BIT,
                HIDDEN_BIT <= sb,
                0 < pa,
                2 * pa <= pb,
        ;
    }
}

/// The rank orders the finite values as the numbers that they encode are
/// ordered, and two finite values have the same rank exactly if they encode
/// the same number.
pub proof fn lemma_rank_follows_number(a: Scalar, b: Scalar)
    requires
        a.is_finite_spec(),
        b.is_finite_spec(),
    ensures
        a.rank() < b.rank() <==> a.units() < b.units(),
        a.rank() == b.rank() <==> a.units() == b.units(),
{
    let pa = Scalar { bits: a.magnitude() as u32 };
    let pb = Scalar { bits: b.magnitude() as u32 };
    assert(pa.magnitude() == a.magnitude() && pb.magnitude() == b.magnitude());
    assert(pa.units() == if a.is_negative() { -a.units() } else { a.units() });
    assert(pb.units() == if b.is_negative() { -b.units() } else { b.units() });
    let zero = Scalar { bits: 0 };
    assert(zero.units() == 0) by {
        assert(zero.significand() == 0);
        assert(0 * pow2(zero.doublings()) == 0);
    }
    if pa.magnitude() > 0 {
        lemma_magnitude_follows_number(zero, pa);
    } else {
        assert(pa == zero);
    }
    if pb.magnitude() > 0 {
        lemma_magnitude_follows_number(zero, pb);
    } else {
        assert(pb == zero);
    }
    if pa.magnitude() < pb.magnitude() {
        lemma_magnitude_follows_number(pa, pb);
    } else if pb.magnitude() < pa.magnitude() {
        lemma_magnitude_follows_number(pb, pa);
    } else {
        assert(pa == pb);
    }
}

/// The named bit patterns encode the numbers that they are named after: zero
/// is 0, one is 2^149 units of 2^-149, and the machine epsilon is one
/// divided by 2^23.
pub proof fn lemma_constants_encode_their_numbers()
    ensures
        (Scalar { bits: ZERO_BITS }).units() == 0,
        (Scalar { bits: ONE_BITS }).units() == pow2(149),
        (Scalar { bits: EPSILON_BITS }).units() * pow2(23) == pow2(149),
{
    let zero = Scalar { bits: ZERO_BITS };
    let one = Scalar { bits: ONE_BITS };
    let epsilon = Scalar { bits: EPSILON_BITS };
    lemma2_to64();
    assert(zero.significand() == 0 && zero.doublings() == 0);
    assert(one.exponent_field() == 127 && one.fraction_field() == 0);
    assert(one.significand() == pow2(23) && one.doublings() == 126);
    assert(epsilon.exponent_field() == 104 && epsilon.fraction_field() == 0);
    assert(epsilon.significand() == pow2(23) && epsilon.doublings() == 103);
    lemma_pow2_adds(23, 126);
    lemma_pow2_adds(23, 103);
    lemma_pow2_adds(126, 23);
    assert(pow2(23) * pow2(103) * pow2(23) == pow2(23) * pow2(126)) by (nonlinear_arith)
        requires
            pow2(23) * pow2(103) == pow2(126),
    ;
}

/// No finite value is larger than the largest finite value.
pub proof fn lemma_max_is_the_largest_finite(a: Scalar)
    requires
        a.is_finite_spec(),
    ensures
        a.le_spec(Scalar { bits: MAX_BITS }),
{
}

/// The infinities lie beyond every finite value, on either side.
pub proof fn lemma_infinities_bound_the_finite(a: Scalar)
    requires
        a.is_finite_spec(),
    ensures
        (Scalar { bits: (SIGN_BIT + INFINITY_BITS) as u32 }).lt_spec(a),
        a.lt_spec(Scalar { bits: INFINITY_BITS }),
{
}

} // verus!
