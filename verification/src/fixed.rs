//! Saturating signed fixed-point numbers with three decimal places.
//!
//! Every length, factor and ratio of the engine is a [`Fixed`]. Arithmetic
//! never overflows: a result outside the representable range is replaced by
//! the nearest bound, and quotients are rounded toward zero.

use vstd::prelude::*;

verus! {

/// Raw units per whole unit.
pub const SCALE: i64 = 1000;

/// A signed fixed-point number: `raw` counts thousandths.
#[derive(Copy, Clone, PartialEq, Eq, PartialOrd, Ord, Hash, Debug, Structural)]
pub struct Fixed {
    pub raw: i64,
}

/// The nearest representable raw value to `x`.
pub open spec fn saturate(x: int) -> i64 {
    if x < i64::MIN {
        i64::MIN
    } else if x > i64::MAX {
        i64::MAX
    } else {
        x as i64
    }
}

/// The absolute value of `x`.
pub open spec fn magnitude(x: int) -> int {
    if x < 0 {
        -x
    } else {
        x
    }
}

/// The quotient of `a` by `b` rounded toward zero; for `b == 0` the sign of
/// `a` decides between the two bounds and zero.
pub open spec fn quotient(a: int, b: int) -> int {
    if b == 0 {
        if a > 0 {
            i64::MAX as int
        } else if a < 0 {
            i64::MIN as int
        } else {
            0
        }
    } else if (a < 0) == (b < 0) {
        magnitude(a) / magnitude(b)
    } else {
        -(magnitude(a) / magnitude(b))
    }
}

/// The nearest representable raw value to `x`.
fn clamp_wide(x: i128) -> (r: i64)
    ensures
        r == saturate(x as int),
{
    if x < i64::MIN as i128 {
        i64::MIN
    } else if x > i64::MAX as i128 {
        i64::MAX
    } else {
        x as i64
    }
}

/// The quotient of `a` by `b`, rounded toward zero and saturated.
fn quotient_wide(a: i128, b: i128) -> (r: i64)
    requires
        -0x4000_0000_0000_0000_0000_0000_0000_0000 <= a <= 0x4000_0000_0000_0000_0000_0000_0000_0000,
        -0x4000_0000_0000_0000_0000_0000_0000_0000 <= b <= 0x4000_0000_0000_0000_0000_0000_0000_0000,
    ensures
        r == saturate(quotient(a as int, b as int)),
{
    if b == 0 {
        if a > 0 {
            i64::MAX
        } else if a < 0 {
            i64::MIN
        } else {
            0
        }
    } else {
        let ua: i128 = if a < 0 {
            -a
        } else {
            a
        };
        let ub: i128 = if b < 0 {
            -b
        } else {
            b
        };
        let m: i128 = ua / ub;
        if (a < 0) == (b < 0) {
            clamp_wide(m)
        } else {
            clamp_wide(-m)
        }
    }
}

impl Fixed {
    /// The number zero.
    pub fn zero() -> (r: Fixed)
        ensures
            r.raw == 0,
    {
        Fixed { raw: 0 }
    }

    /// The whole number `n`, exactly.
    pub fn from_int(n: i32) -> (r: Fixed)
        ensures
            r.raw == n * SCALE,
    {
        Fixed { raw: (n as i64) * SCALE }
    }

    /// The sum, saturated.
    pub open spec fn spec_add(self, rhs: Fixed) -> Fixed {
        Fixed { raw: saturate(self.raw + rhs.raw) }
    }

    /// The difference, saturated.
    pub open spec fn spec_sub(self, rhs: Fixed) -> Fixed {
        Fixed { raw: saturate(self.raw - rhs.raw) }
    }

    /// The product, rounded toward zero and saturated.
    pub open spec fn spec_mul(self, rhs: Fixed) -> Fixed {
        Fixed { raw: saturate(quotient(self.raw * rhs.raw, SCALE as int)) }
    }

    /// The quotient, rounded toward zero and saturated; a zero divisor gives
    /// the bound on the side of the dividend, or zero for zero.
    pub open spec fn spec_div(self, rhs: Fixed) -> Fixed {
        Fixed { raw: saturate(quotient(self.raw * SCALE, rhs.raw as int)) }
    }

    /// The negation, saturated.
    pub open spec fn spec_neg(self) -> Fixed {
        Fixed { raw: saturate(-self.raw) }
    }

    /// The smaller of the two numbers.
    pub open spec fn min_spec(self, other: Fixed) -> Fixed {
        if other.raw < self.raw {
            other
        } else {
            self
        }
    }

    /// The smaller of the two numbers.
    pub fn min(self, other: Fixed) -> (r: Fixed)
        ensures
            r == self.min_spec(other),
    {
        if other.raw < self.raw {
            other
        } else {
            self
        }
    }

    /// The larger of the two numbers.
    pub open spec fn max_spec(self, other: Fixed) -> Fixed {
        if other.raw > self.raw {
            other
        } else {
            self
        }
    }

    /// The larger of the two numbers.
    pub fn max(self, other: Fixed) -> (r: Fixed)
        ensures
            r == self.max_spec(other),
    {
        if other.raw > self.raw {
            other
        } else {
            self
        }
    }

    /// The number divided into `parts` equal parts, rounded toward zero.
    pub open spec fn div_int_spec(self, parts: int) -> Fixed {
        Fixed { raw: saturate(quotient(self.raw as int, parts)) }
    }

    /// The number divided into `parts` equal parts, rounded toward zero.
    pub fn div_int(self, parts: u128) -> (r: Fixed)
        ensures
            r == self.div_int_spec(parts as int),
    {
        if parts > 0x8000_0000_0000_0000 {
            assert(magnitude(self.raw as int) / (parts as int) == 0) by (nonlinear_arith)
                requires
                    0 <= magnitude(self.raw as int) < parts,
            ;
            Fixed { raw: 0 }
        } else {
            Fixed { raw: quotient_wide(self.raw as i128, parts as i128) }
        }
    }

    /// `self * num / den` with a single rounding, toward zero.
    pub open spec fn mul_div_spec(self, num: Fixed, den: Fixed) -> Fixed {
        Fixed { raw: saturate(quotient(self.raw * num.raw, den.raw as int)) }
    }

    /// `self * num / den` with a single rounding.
    pub fn mul_div(self, num: Fixed, den: Fixed) -> (r: Fixed)
        ensures
            r == self.mul_div_spec(num, den),
    {
        assert(-0x4000_0000_0000_0000_0000_0000_0000_0000 <= self.raw * num.raw
            <= 0x4000_0000_0000_0000_0000_0000_0000_0000) by (nonlinear_arith)
            requires
                -0x8000_0000_0000_0000 <= self.raw <= 0x7fff_ffff_ffff_ffff,
                -0x8000_0000_0000_0000 <= num.raw <= 0x7fff_ffff_ffff_ffff,
        ;
        let p: i128 = (self.raw as i128) * (num.raw as i128);
        Fixed { raw: quotient_wide(p, den.raw as i128) }
    }
}

impl core::ops::Add for Fixed {
    type Output = Fixed;

    fn add(self, rhs: Fixed) -> (r: Fixed)
        ensures
            r == self.spec_add(rhs),
    {
        Fixed { raw: clamp_wide(self.raw as i128 + rhs.raw as i128) }
    }
}

impl vstd::std_specs::ops::AddSpecImpl for Fixed {
    open spec fn obeys_add_spec() -> bool {
        true
    }

    open spec fn add_req(self, rhs: Fixed) -> bool {
        true
    }

    open spec fn add_spec(self, rhs: Fixed) -> Fixed {
        self.spec_add(rhs)
    }
}

impl core::ops::Sub for Fixed {
    type Output = Fixed;

    fn sub(self, rhs: Fixed) -> (r: Fixed)
        ensures
            r == self.spec_sub(rhs),
    {
        Fixed { raw: clamp_wide(self.raw as i128 - rhs.raw as i128) }
    }
}

impl vstd::std_specs::ops::SubSpecImpl for Fixed {
    open spec fn obeys_sub_spec() -> bool {
        true
    }

    open spec fn sub_req(self, rhs: Fixed) -> bool {
        true
    }

    open spec fn sub_spec(self, rhs: Fixed) -> Fixed {
        self.spec_sub(rhs)
    }
}

impl core::ops::Mul for Fixed {
    type Output = Fixed;

    fn mul(self, rhs: Fixed) -> (r: Fixed)
        ensures
            r == self.spec_mul(rhs),
    {
        self.mul_div(rhs, Fixed { raw: SCALE })
    }
}

impl vstd::std_specs::ops::MulSpecImpl for Fixed {
    open spec fn obeys_mul_spec() -> bool {
        true
    }

    open spec fn mul_req(self, rhs: Fixed) -> bool {
        true
    }

    open spec fn mul_spec(self, rhs: Fixed) -> Fixed {
        self.spec_mul(rhs)
    }
}

impl core::ops::Div for Fixed {
    type Output = Fixed;

    fn div(self, rhs: Fixed) -> (r: Fixed)
        ensures
            r == self.spec_div(rhs),
    {
        self.mul_div(Fixed { raw: SCALE }, rhs)
    }
}

impl vstd::std_specs::ops::DivSpecImpl for Fixed {
    open spec fn obeys_div_spec() -> bool {
        true
    }

    open spec fn div_req(self, rhs: Fixed) -> bool {
        true
    }

    open spec fn div_spec(self, rhs: Fixed) -> Fixed {
        self.spec_div(rhs)
    }
}

impl core::ops::Neg for Fixed {
    type Output = Fixed;

    fn neg(self) -> (r: Fixed)
        ensures
            r == self.spec_neg(),
    {
        Fixed { raw: clamp_wide(-(self.raw as i128)) }
    }
}

impl vstd::std_specs::ops::NegSpecImpl for Fixed {
    open spec fn obeys_neg_spec() -> bool {
        true
    }

    open spec fn neg_req(self) -> bool {
        true
    }

    open spec fn neg_spec(self) -> Fixed {
        self.spec_neg()
    }
}

} // verus!
