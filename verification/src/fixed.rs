//! Signed Q32.32 fixed-point scalars.
//!
//! A `Fixed` stores a sign and a 64-bit magnitude; the value it denotes is
//! `(-1)^neg * mag / 2^32`.  Contracts speak of the *raw* value, the view
//! `self@ == (-1)^neg * mag`, an integer in `[-max_raw(), max_raw()]`.  Every
//! operation is total: magnitudes saturate at `u64::MAX` and division by
//! zero yields zero, and each postcondition states the exact integer result
//! including that saturation, so callers reason about the arithmetic with
//! no rounding left unspecified.

use vstd::prelude::*;

verus! {

/// Number of raw units per 1.0: 2^32.
pub const FRAC_ONE: u64 = 0x1_0000_0000;

/// Largest magnitude a `Fixed` can carry, as an int.
pub open spec fn max_raw() -> int {
    u64::MAX as int
}

/// Clamp an integer to the representable raw range.
pub open spec fn sat(v: int) -> int {
    if v > max_raw() {
        max_raw()
    } else if v < -max_raw() {
        -max_raw()
    } else {
        v
    }
}

/// Division truncated toward zero (the sign-magnitude quotient).
/// For `b == 0` the quotient of magnitudes is 0, so the result is 0.
pub open spec fn tdiv(a: int, b: int) -> int {
    let q = (vstd::math::abs(a) / vstd::math::abs(b)) as int;
    if (a < 0) != (b < 0) {
        -q
    } else {
        q
    }
}

/// Raw value of the saturating sum.
pub open spec fn fx_add_rv(a: int, b: int) -> int {
    sat(a + b)
}

/// Raw value of the saturating difference.
pub open spec fn fx_sub_rv(a: int, b: int) -> int {
    sat(a - b)
}

/// Raw value of the fixed-point product `a * b / 2^32`, truncated toward
/// zero and saturated.
pub open spec fn fx_mul_rv(a: int, b: int) -> int {
    sat(tdiv(a * b, FRAC_ONE as int))
}

/// Raw value of the fixed-point quotient `a * 2^32 / b`, truncated toward
/// zero and saturated; zero when `b == 0`.
pub open spec fn fx_div_rv(a: int, b: int) -> int {
    if b == 0 {
        0
    } else {
        sat(tdiv(a * (FRAC_ONE as int), b))
    }
}

/// `r` is the integer square root of `x`: the unique nonnegative root with
/// `r^2 <= x < (r+1)^2`.
pub open spec fn is_sqrt(r: int, x: int) -> bool {
    0 <= r && r * r <= x && x < (r + 1) * (r + 1)
}

/// The integer square root of a nonnegative integer.
pub open spec fn sqrt_floor(x: int) -> int {
    choose|r: int| is_sqrt(r, x)
}

/// Raw value of the fixed-point square root: `sqrt(mag / 2^32)` has raw
/// value `sqrt(mag * 2^32)`.  Nonpositive inputs map to zero.
pub open spec fn fx_sqrt_rv(a: int) -> int {
    if a <= 0 {
        0
    } else {
        sqrt_floor(a * (FRAC_ONE as int))
    }
}

/// A signed Q32.32 fixed-point number in sign-magnitude form.
#[derive(Clone, Copy, Debug, PartialEq, Eq, Structural)]
pub struct Fixed {
    neg: bool,
    mag: u64,
}

impl View for Fixed {
    type V = int;

    /// The raw value: magnitude in units of 2^-32, negated by the sign bit.
    closed spec fn view(&self) -> int {
        if self.neg {
            -(self.mag as int)
        } else {
            self.mag as int
        }
    }
}

/// The canonical representative of a raw value (zero is never negative).
pub closed spec fn fx_of(v: int) -> Fixed {
    Fixed { neg: v < 0, mag: vstd::math::abs(v) as u64 }
}

/// A canonical raw value round-trips through `fx_of`, and the canonical
/// representative of a representable raw value denotes that value.
pub broadcast proof fn lemma_fx_of_view(v: int)
    requires
        -max_raw() <= v <= max_raw(),
    ensures
        (#[trigger] fx_of(v))@ == v,
        fx_of(v).wf(),
{
}

/// The raw value of a canonical `Fixed` is representable.
pub broadcast proof fn lemma_wf_range(f: Fixed)
    requires
        #[trigger] f.wf(),
    ensures
        -max_raw() <= f@ <= max_raw(),
{
}

impl Fixed {
    /// A value is well formed when it is the canonical representative of
    /// its raw value; in particular a zero magnitude carries a positive
    /// sign, so equal raw values are equal `Fixed` values.  Every `Fixed`
    /// built by this module is well formed (it is the type invariant).
    #[verifier::type_invariant]
    pub open spec fn wf(self) -> bool {
        self == fx_of(self@)
    }

    /// The zero value.
    pub fn zero() -> (r: Fixed)
        ensures
            r@ == 0,
            r.wf(),
    {
        let r = Fixed { neg: false, mag: 0 };
        proof {
            use_type_invariant(&r);
        }
        r
    }

    /// The value 1.0.
    pub fn one() -> (r: Fixed)
        ensures
            r@ == FRAC_ONE as int,
            r.wf(),
    {
        let r = Fixed { neg: false, mag: FRAC_ONE };
        proof {
            use_type_invariant(&r);
        }
        r
    }

    /// Rebuild a value from sign and magnitude (the zero magnitude is
    /// normalized to a positive sign).
    pub fn from_parts(neg: bool, mag: u64) -> (r: Fixed)
        ensures
            r@ == if neg {
                -(mag as int)
            } else {
                mag as int
            },
            r.wf(),
    {
        let r = Fixed { neg: neg && mag > 0, mag };
        proof {
            use_type_invariant(&r);
        }
        r
    }

    /// The sign bit (true for strictly negative values).
    pub fn is_negative(&self) -> (r: bool)
        ensures
            r == (self@ < 0),
    {
        proof {
            use_type_invariant(self);
        }
        self.neg
    }

    /// The magnitude in raw units of 2^-32.
    pub fn magnitude(&self) -> (r: u64)
        ensures
            r as int == vstd::math::abs(self@),
    {
        self.mag
    }

    /// Convert a count to fixed point; saturates above `u32::MAX`.
    pub fn from_usize(n: usize) -> (r: Fixed)
        ensures
            r@ == sat(n as int * (FRAC_ONE as int)),
            r.wf(),
    {
        let r = if n > u32::MAX as usize {
            Fixed { neg: false, mag: u64::MAX }
        } else {
            proof {
                assert((n as int) * (FRAC_ONE as int) <= (u32::MAX as int) * (FRAC_ONE as int))
                    by (nonlinear_arith)
                    requires
                        n as int <= u32::MAX as int,
                ;
            }
            Fixed { neg: false, mag: (n as u64) * FRAC_ONE }
        };
        proof {
            use_type_invariant(&r);
        }
        r
    }

    /// The nonnegative ratio `num / den`, truncated toward zero and
    /// saturated; zero when `den == 0`.
    pub fn from_ratio(num: u64, den: u64) -> (r: Fixed)
        ensures
            r@ == fx_div_rv(num as int, den as int),
            r.wf(),
    {
        let r = if den == 0 {
            Fixed { neg: false, mag: 0 }
        } else {
            proof {
                assert((num as int) * (FRAC_ONE as int) <= u128::MAX) by (nonlinear_arith)
                    requires
                        num as int <= u64::MAX as int,
                ;
            }
            let p: u128 = (num as u128) * (FRAC_ONE as u128);
            let q: u128 = p / (den as u128);
            let m: u64 = if q > u64::MAX as u128 {
                u64::MAX
            } else {
                q as u64
            };
            Fixed { neg: false, mag: m }
        };
        proof {
            use_type_invariant(&r);
        }
        r
    }

    /// The negation.
    pub fn neg(self) -> (r: Fixed)
        ensures
            r@ == -self@,
            r.wf(),
    {
        proof {
            use_type_invariant(&self);
        }
        let r = if self.mag == 0 {
            self
        } else {
            Fixed { neg: !self.neg, mag: self.mag }
        };
        proof {
            use_type_invariant(&r);
        }
        r
    }

    /// The absolute value.
    pub fn abs(self) -> (r: Fixed)
        ensures
            r@ == vstd::math::abs(self@),
            r.wf(),
    {
        let r = Fixed { neg: false, mag: self.mag };
        proof {
            use_type_invariant(&r);
        }
        r
    }

    /// Saturating addition of raw values.
    pub fn add(self, other: Fixed) -> (r: Fixed)
        ensures
            r@ == fx_add_rv(self@, other@),
            r.wf(),
    {
        proof {
            use_type_invariant(&self);
            use_type_invariant(&other);
        }
        let r = if self.neg == other.neg {
            let m: u64 = if self.mag > u64::MAX - other.mag {
                u64::MAX
            } else {
                self.mag + other.mag
            };
            Fixed { neg: self.neg && m > 0, mag: m }
        } else if self.mag >= other.mag {
            let m: u64 = self.mag - other.mag;
            Fixed { neg: self.neg && m > 0, mag: m }
        } else {
            Fixed { neg: other.neg, mag: other.mag - self.mag }
        };
        proof {
            use_type_invariant(&r);
        }
        r
    }

    /// Saturating subtraction of raw values.
    pub fn sub(self, other: Fixed) -> (r: Fixed)
        ensures
            r@ == fx_sub_rv(self@, other@),
            r.wf(),
    {
        self.add(other.neg())
    }

    /// Comparison of raw values.
    pub fn le(self, other: Fixed) -> (r: bool)
        ensures
            r == (self@ <= other@),
    {
        proof {
            use_type_invariant(&self);
            use_type_invariant(&other);
        }
        if self.neg == other.neg {
            if self.neg {
                other.mag <= self.mag
            } else {
                self.mag <= other.mag
            }
        } else {
            self.neg
        }
    }

    /// Strict comparison of raw values.
    pub fn lt(self, other: Fixed) -> (r: bool)
        ensures
            r == (self@ < other@),
    {
        !other.le(self)
    }

    /// Saturating fixed-point multiplication: raw `a * b / 2^32`,
    /// truncated toward zero.
    pub fn mul(self, other: Fixed) -> (r: Fixed)
        ensures
            r@ == fx_mul_rv(self@, other@),
            r.wf(),
    {
        proof {
            use_type_invariant(&self);
            use_type_invariant(&other);
            assert((self.mag as int) * (other.mag as int) <= u128::MAX) by (nonlinear_arith)
                requires
                    self.mag as int <= u64::MAX as int,
                    other.mag as int <= u64::MAX as int,
            ;
        }
        let p: u128 = (self.mag as u128) * (other.mag as u128);
        let q: u128 = p / (FRAC_ONE as u128);
        let m: u64 = if q > u64::MAX as u128 {
            u64::MAX
        } else {
            q as u64
        };
        let n: bool = self.neg != other.neg;
        proof {
            lemma_signed_product(self@, other@, self.mag as int, other.mag as int);
        }
        let r = Fixed { neg: n && m > 0, mag: m };
        proof {
            use_type_invariant(&r);
        }
        r
    }

    /// Saturating fixed-point division: raw `a * 2^32 / b`, truncated
    /// toward zero; zero when the divisor is zero.
    pub fn div(self, other: Fixed) -> (r: Fixed)
        ensures
            r@ == fx_div_rv(self@, other@),
            r.wf(),
    {
        proof {
            use_type_invariant(&self);
            use_type_invariant(&other);
        }
        let r = if other.mag == 0 {
            Fixed { neg: false, mag: 0 }
        } else {
            proof {
                assert((self.mag as int) * (FRAC_ONE as int) <= u128::MAX) by (nonlinear_arith)
                    requires
                        self.mag as int <= u64::MAX as int,
                ;
            }
            let p: u128 = (self.mag as u128) * (FRAC_ONE as u128);
            let q: u128 = p / (other.mag as u128);
            let m: u64 = if q > u64::MAX as u128 {
                u64::MAX
            } else {
                q as u64
            };
            let n: bool = self.neg != other.neg;
            proof {
                lemma_signed_product(self@, FRAC_ONE as int, self.mag as int, FRAC_ONE as int);
            }
            Fixed { neg: n && m > 0, mag: m }
        };
        proof {
            use_type_invariant(&r);
        }
        r
    }

    /// Fixed-point square root: for a nonnegative value with raw `a`, the
    /// result's raw value is the integer square root of `a * 2^32`;
    /// negative values map to zero.
    pub fn sqrt(self) -> (r: Fixed)
        ensures
            r@ == fx_sqrt_rv(self@),
            r.wf(),
    {
        proof {
            use_type_invariant(&self);
        }
        let r = if self.neg || self.mag == 0 {
            Fixed { neg: false, mag: 0 }
        } else {
            proof {
                assert((self.mag as int) * (FRAC_ONE as int) <= u128::MAX) by (nonlinear_arith)
                    requires
                        self.mag as int <= u64::MAX as int,
                ;
            }
            let x: u128 = (self.mag as u128) * (FRAC_ONE as u128);
            let root: u64 = isqrt_u128(x);
            proof {
                lemma_sqrt_floor_is(root as int, x as int);
            }
            Fixed { neg: false, mag: root }
        };
        proof {
            use_type_invariant(&r);
        }
        r
    }
}

/// The product of signed values whose magnitudes multiply to `p` has
/// magnitude `p` and the sign of the operand signs' product.
proof fn lemma_signed_product(a: int, b: int, ma: int, mb: int)
    requires
        ma == vstd::math::abs(a),
        mb == vstd::math::abs(b),
    ensures
        vstd::math::abs(a * b) == ma * mb,
        ((a * b < 0) <==> (a < 0) != (b < 0) && ma * mb != 0),
{
    assert(vstd::math::abs(a * b) == vstd::math::abs(a) * vstd::math::abs(b)
        && ((a * b < 0) <==> (a < 0) != (b < 0) && vstd::math::abs(a) * vstd::math::abs(b) != 0))
        by (nonlinear_arith);
}

/// Integer square roots are unique.
proof fn lemma_sqrt_unique(r1: int, r2: int, x: int)
    requires
        is_sqrt(r1, x),
        is_sqrt(r2, x),
    ensures
        r1 == r2,
{
    assert(r1 == r2) by (nonlinear_arith)
        requires
            0 <= r1 && r1 * r1 <= x && x < (r1 + 1) * (r1 + 1),
            0 <= r2 && r2 * r2 <= x && x < (r2 + 1) * (r2 + 1),
    ;
}

/// A witness pins down `sqrt_floor`.
pub proof fn lemma_sqrt_floor_is(r: int, x: int)
    requires
        is_sqrt(r, x),
    ensures
        sqrt_floor(x) == r,
{
    assert(is_sqrt(sqrt_floor(x), x)) by {
        assert(exists|s: int| is_sqrt(s, x));
    }
    lemma_sqrt_unique(sqrt_floor(x), r, x);
}

/// Binary search for the integer square root of a value below 2^96.
fn isqrt_u128(x: u128) -> (r: u64)
    requires
        x < (0x1_0000_0000_0000u128 * 0x1_0000_0000_0000u128) as int,
    ensures
        is_sqrt(r as int, x as int),
{
    let mut lo: u64 = 0;
    let mut hi: u64 = 0x1_0000_0000_0000;
    proof {
        assert((hi as int) * (hi as int) > x as int);
    }
    while hi - lo > 1
        invariant
            lo < hi <= 0x1_0000_0000_0000,
            (lo as int) * (lo as int) <= x as int,
            (x as int) < (hi as int) * (hi as int),
        decreases hi - lo,
    {
        let mid: u64 = lo + (hi - lo) / 2;
        proof {
            assert((mid as int) * (mid as int) <= u128::MAX) by (nonlinear_arith)
                requires
                    mid as int <= 0x1_0000_0000_0000,
            ;
        }
        if (mid as u128) * (mid as u128) <= x {
            lo = mid;
        } else {
            hi = mid;
        }
    }
    lo
}

} // verus!
