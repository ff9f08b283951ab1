//! The numbers a detection head computes with, as far as they are compared.
use vstd::prelude::*;

verus! {

/// The bit that tells the negative numbers from the others.
pub const SIGN_BIT: u64 = 0x8000_0000_0000_0000;

/// The bits of positive infinity. What lies above them, the sign bit aside, is
/// not a number.
pub const INFINITY_BITS: u64 = 0x7ff0_0000_0000_0000;

/// A number in the binary64 interchange format of IEEE 754.
///
/// Narrower floating-point formats convert to binary64 and back without loss,
/// so one type carries the values of all of them. It is compared, copied and
/// clamped; it is not calculated with.
#[derive(Clone, Copy, Debug, PartialEq, Eq, Structural)]
pub struct Scalar {
    pub bits: u64,
}

impl Scalar {
    /// Positive zero.
    pub open spec fn spec_zero() -> Scalar {
        Scalar { bits: 0 }
    }

    /// The bits without the sign.
    pub open spec fn magnitude(self) -> int {
        if self.bits >= SIGN_BIT {
            self.bits - SIGN_BIT
        } else {
            self.bits as int
        }
    }

    /// Whether this is not a number.
    pub open spec fn spec_is_nan(self) -> bool {
        self.magnitude() > INFINITY_BITS
    }

    /// An integer that grows with the number. Both zeros have rank 0.
    pub open spec fn spec_rank(self) -> int {
        if self.bits >= SIGN_BIT {
            -self.magnitude()
        } else {
            self.magnitude()
        }
    }

    /// Whether this is the greater number. Nothing exceeds, or is exceeded by,
    /// what is not a number.
    pub open spec fn spec_exceeds(self, other: Scalar) -> bool {
        &&& !self.spec_is_nan()
        &&& !other.spec_is_nan()
        &&& self.spec_rank() > other.spec_rank()
    }

    /// The number itself, or the end of `low..=high` that it lies beyond.
    pub open spec fn spec_clamp(self, low: Scalar, high: Scalar) -> Scalar {
        if low.spec_exceeds(self) {
            low
        } else if self.spec_exceeds(high) {
            high
        } else {
            self
        }
    }

    /// Positive zero.
    pub fn zero() -> (r: Scalar)
        ensures
            r == Scalar::spec_zero(),
    {
        Scalar { bits: 0 }
    }

    /// Whether this is not a number.
    pub fn is_nan(&self) -> (r: bool)
        ensures
            r == self.spec_is_nan(),
    {
        if self.bits >= SIGN_BIT {
            self.bits - SIGN_BIT > INFINITY_BITS
        } else {
            self.bits > INFINITY_BITS
        }
    }

    /// The rank of this number among all numbers.
    pub fn rank(&self) -> (r: i64)
        ensures
            r == self.spec_rank(),
    {
        if self.bits >= SIGN_BIT {
            -((self.bits - SIGN_BIT) as i64)
        } else {
            self.bits as i64
        }
    }

    /// Whether this number is greater than `other`.
    pub fn exceeds(&self, other: &Scalar) -> (r: bool)
        ensures
            r == self.spec_exceeds(*other),
    {
        !self.is_nan() && !other.is_nan() && self.rank() > other.rank()
    }

    /// This number, brought into `low..=high`.
    pub fn clamp(&self, low: &Scalar, high: &Scalar) -> (r: Scalar)
        ensures
            r == self.spec_clamp(*low, *high),
    {
        if low.exceeds(self) {
            *low
        } else if self.exceeds(high) {
            *high
        } else {
            *self
        }
    }
}

/// Among numbers, exceeding is a strict order, and two numbers of which neither
/// exceeds the other exceed the same numbers and are exceeded by the same.
pub proof fn exceeding_is_a_strict_weak_order(a: Scalar, b: Scalar, c: Scalar)
    ensures
        !a.spec_exceeds(a),
        a.spec_exceeds(b) ==> !b.spec_exceeds(a),
        a.spec_exceeds(b) && b.spec_exceeds(c) ==> a.spec_exceeds(c),
        !a.spec_is_nan() && !b.spec_is_nan() && !a.spec_exceeds(b) && !b.spec_exceeds(a) ==> {
            &&& a.spec_exceeds(c) == b.spec_exceeds(c)
            &&& c.spec_exceeds(a) == c.spec_exceeds(b)
        },
{
}

/// Where the bounds are numbers in order, what is clamped to them lies beyond
/// neither, and clamping it once more changes nothing.
pub proof fn clamping_lands_between_the_bounds(x: Scalar, low: Scalar, high: Scalar)
    requires
        !low.spec_is_nan(),
        !high.spec_is_nan(),
        !low.spec_exceeds(high),
    ensures
        !low.spec_exceeds(x.spec_clamp(low, high)),
        !x.spec_clamp(low, high).spec_exceeds(high),
        x.spec_clamp(low, high).spec_clamp(low, high) == x.spec_clamp(low, high),
        x.spec_is_nan() ==> x.spec_clamp(low, high) == x,
{
}

/// What is not a number has bits beyond those of an infinity of its sign, and
/// zero has no bits set.
pub proof fn nan_lies_beyond_the_infinities(a: Scalar)
    ensures
        a.spec_is_nan() <==> (0x7ff0_0000_0000_0000 < a.bits < 0x8000_0000_0000_0000
            || 0xfff0_0000_0000_0000 < a.bits),
        Scalar::spec_zero().bits == 0,
{
}

/// Positive numbers grow with their bits, negative ones fall with them, and every
/// number without a sign exceeds every number with one, except that the two
/// zeros are equal.
pub proof fn exceeding_follows_the_bits(a: Scalar, b: Scalar)
    requires
        !a.spec_is_nan(),
        !b.spec_is_nan(),
    ensures
        a.bits < 0x8000_0000_0000_0000 && b.bits < 0x8000_0000_0000_0000 ==> (a.spec_exceeds(b)
            <==> a.bits > b.bits),
        a.bits >= 0x8000_0000_0000_0000 && b.bits >= 0x8000_0000_0000_0000 ==> (a.spec_exceeds(b)
            <==> a.bits < b.bits),
        a.bits < 0x8000_0000_0000_0000 && b.bits >= 0x8000_0000_0000_0000 ==> {
            &&& !b.spec_exceeds(a)
            &&& a.spec_exceeds(b) <==> !(a.bits == 0 && b.bits == 0x8000_0000_0000_0000)
        },
{
}

/// What is not a number neither exceeds nor is exceeded.
pub proof fn nan_is_not_compared(a: Scalar, b: Scalar)
    requires
        a.spec_is_nan(),
    ensures
        !a.spec_exceeds(b),
        !b.spec_exceeds(a),
{
}

/// A finite number without its sign, counted in the smallest positive number of
/// the format: an exponent of 11 bits above a fraction of 52 bits, with a hidden
/// bit in front of the fraction wherever the exponent is not zero.
pub open spec fn smallest_units(unsigned: int) -> int {
    let exponent = unsigned / 0x10_0000_0000_0000;
    let fraction = unsigned % 0x10_0000_0000_0000;
    if exponent == 0 {
        fraction
    } else {
        (0x10_0000_0000_0000 + fraction) * vstd::arithmetic::power2::pow2((exponent - 1) as nat)
    }
}

/// A finite number, counted in the smallest positive number of the format.
pub open spec fn signed_units(a: Scalar) -> int {
    if a.bits < 0x8000_0000_0000_0000 {
        smallest_units(a.bits as int)
    } else {
        -smallest_units(a.bits - 0x8000_0000_0000_0000)
    }
}

/// One finite number exceeds another exactly if its value is greater.
pub proof fn exceeding_compares_the_values(a: Scalar, b: Scalar)
    requires
        a.bits < 0x7ff0_0000_0000_0000 || 0x8000_0000_0000_0000 <= a.bits
            < 0xfff0_0000_0000_0000,
        b.bits < 0x7ff0_0000_0000_0000 || 0x8000_0000_0000_0000 <= b.bits
            < 0xfff0_0000_0000_0000,
    ensures
        a.spec_exceeds(b) <==> signed_units(a) > signed_units(b),
{
    let x = if a.bits < 0x8000_0000_0000_0000 {
        a.bits as int
    } else {
        a.bits - 0x8000_0000_0000_0000
    };
    let y = if b.bits < 0x8000_0000_0000_0000 {
        b.bits as int
    } else {
        b.bits - 0x8000_0000_0000_0000
    };
    assert(smallest_units(0) == 0);
    if 0 < x {
        units_grow(0, x);
    }
    if 0 < y {
        units_grow(0, y);
    }
    if x < y {
        units_grow(x, y);
    }
    if y < x {
        units_grow(y, x);
    }
}

/// A number without its sign grows with its bits.
proof fn units_grow(x: int, y: int)
    requires
        0 <= x < y,
    ensures
        smallest_units(x) < smallest_units(y),
{
    let hidden = 0x10_0000_0000_0000int;
    let (ex, fx) = (x / hidden, x % hidden);
    let (ey, fy) = (y / hidden, y % hidden);
    if ey == 0 {
    } else {
        let py = vstd::arithmetic::power2::pow2((ey - 1) as nat) as int;
        vstd::arithmetic::power2::lemma_pow2_pos((ey - 1) as nat);
        if ex == 0 {
            assert((hidden + fy) * py >= hidden + fy) by (nonlinear_arith)
                requires
                    1 <= py,
                    0 <= hidden + fy,
            ;
        } else {
            let px = vstd::arithmetic::power2::pow2((ex - 1) as nat) as int;
            vstd::arithmetic::power2::lemma_pow2_pos((ex - 1) as nat);
            if ex == ey {
                assert((hidden + fx) * px < (hidden + fy) * px) by (nonlinear_arith)
                    requires
                        fx < fy,
                        1 <= px,
                ;
            } else {
                vstd::arithmetic::power2::lemma_pow2_unfold(ex as nat);
                if ex < ey - 1 {
                    vstd::arithmetic::power2::lemma_pow2_strictly_increases(
                        ex as nat,
                        (ey - 1) as nat,
                    );
                }
                assert(2 * px <= py);
                assert((hidden + fx) * px < (hidden + fy) * py) by (nonlinear_arith)
                    requires
                        2 * px <= py,
                        1 <= px,
                        0 <= fx < hidden,
                        0 <= fy,
                {
                    assert((hidden + fx) * px < (2 * hidden) * px);
                    assert((2 * hidden) * px == hidden * (2 * px));
                    assert(hidden * (2 * px) <= hidden * py);
                    assert(hidden * py <= (hidden + fy) * py);
                }
            }
        }
    }
}

/// Flipping the signs of two numbers turns their order round.
pub proof fn opposites_are_in_opposite_order(a: Scalar, b: Scalar, minus_a: Scalar, minus_b: Scalar)
    requires
        minus_a.bits == a.bits + 0x8000_0000_0000_0000 || a.bits == minus_a.bits
            + 0x8000_0000_0000_0000,
        minus_b.bits == b.bits + 0x8000_0000_0000_0000 || b.bits == minus_b.bits
            + 0x8000_0000_0000_0000,
    ensures
        a.spec_exceeds(b) == minus_b.spec_exceeds(minus_a),
{
}

/// The rank of a number counts the numbers from zero to it, upwards or downwards.
pub proof fn rank_counts_from_zero(a: Scalar)
    ensures
        a.bits < 0x8000_0000_0000_0000 ==> a.spec_rank() == a.bits,
        a.bits >= 0x8000_0000_0000_0000 ==> a.spec_rank() + a.bits == 0x8000_0000_0000_0000,
{
}

/// Clamping keeps what lies between the bounds, puts what lies below on the lower
/// bound, and what lies above on the upper one.
pub proof fn clamping_moves_only_to_a_bound(x: Scalar, low: Scalar, high: Scalar)
    ensures
        !low.spec_exceeds(x) && !x.spec_exceeds(high) ==> x.spec_clamp(low, high) == x,
        low.spec_exceeds(x) ==> x.spec_clamp(low, high) == low,
        x.spec_exceeds(high) && !low.spec_exceeds(x) ==> x.spec_clamp(low, high) == high,
{
}

} // verus!
