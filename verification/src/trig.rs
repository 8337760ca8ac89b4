//! Arctangent on Q32.32 fixed point.
//!
//! `atan` evaluates an odd polynomial approximation on `[-1, 1]`
//! (coefficients of the standard degree-15 minimax expansion, converted to
//! raw Q32.32 units) and reduces larger arguments with
//! `atan(t) = sign(t) * pi/2 - atan(1/t)`.  `atan2` resolves the quadrant
//! the way the usual floating-point `atan2` does.  The contracts state the
//! exact fixed-point result of those formulas; the doc comments give the
//! real-valued function each one approximates.

use vstd::prelude::*;
use crate::fixed::{fx_add_rv, fx_div_rv, fx_mul_rv, fx_sub_rv, Fixed, FRAC_ONE};

verus! {

/// Raw Q32.32 value of pi.
pub const PI_RAW: u64 = 13493037704;

/// Raw Q32.32 value of pi / 2.
pub const HALF_PI_RAW: u64 = 6746518852;

/// Raw Q32.32 magnitudes of the odd polynomial's coefficients: the
/// approximation on `[-1, 1]` is
/// `t * (C1 - C3 t^2 + C5 t^4 - C7 t^6 + C9 t^8 - C11 t^10 + C13 t^12 - C15 t^14)`.
pub const ATAN_C1: u64 = 4294964430;

pub const ATAN_C3: u64 = 1431506417;

pub const ATAN_C5: u64 = 856697197;

pub const ATAN_C7: u64 = 597366965;

pub const ATAN_C9: u64 = 414120936;

pub const ATAN_C11: u64 = 240131132;

pub const ATAN_C13: u64 = 93893262;

pub const ATAN_C15: u64 = 17412046;

/// Raw value of the polynomial part, evaluated by Horner's rule on
/// `u = t^2` in Q32.32 arithmetic.
pub open spec fn sp_atan_poly(t: int) -> int {
    let u = fx_mul_rv(t, t);
    let h7 = -(ATAN_C15 as int);
    let h6 = fx_add_rv(ATAN_C13 as int, fx_mul_rv(u, h7));
    let h5 = fx_add_rv(-(ATAN_C11 as int), fx_mul_rv(u, h6));
    let h4 = fx_add_rv(ATAN_C9 as int, fx_mul_rv(u, h5));
    let h3 = fx_add_rv(-(ATAN_C7 as int), fx_mul_rv(u, h4));
    let h2 = fx_add_rv(ATAN_C5 as int, fx_mul_rv(u, h3));
    let h1 = fx_add_rv(-(ATAN_C3 as int), fx_mul_rv(u, h2));
    let h0 = fx_add_rv(ATAN_C1 as int, fx_mul_rv(u, h1));
    fx_mul_rv(t, h0)
}

/// Raw value of the full arctangent: the polynomial inside `[-1, 1]`,
/// and `sign(t) * pi/2 - atan(1/t)` outside it.
pub open spec fn sp_atan(t: int) -> int {
    if -(FRAC_ONE as int) <= t <= FRAC_ONE as int {
        sp_atan_poly(t)
    } else {
        let hp = if t < 0 {
            -(HALF_PI_RAW as int)
        } else {
            HALF_PI_RAW as int
        };
        fx_sub_rv(hp, sp_atan_poly(fx_div_rv(FRAC_ONE as int, t)))
    }
}

/// Raw value of the two-argument arctangent of `y / x`, with the quadrant
/// fixed by the signs of `y` and `x` as in the floating-point `atan2`.
pub open spec fn sp_atan2(y: int, x: int) -> int {
    if x > 0 {
        sp_atan(fx_div_rv(y, x))
    } else if x < 0 {
        if y >= 0 {
            fx_add_rv(sp_atan(fx_div_rv(y, x)), PI_RAW as int)
        } else {
            fx_sub_rv(sp_atan(fx_div_rv(y, x)), PI_RAW as int)
        }
    } else {
        if y > 0 {
            HALF_PI_RAW as int
        } else if y < 0 {
            -(HALF_PI_RAW as int)
        } else {
            0
        }
    }
}

impl Fixed {
    /// The value pi.
    pub fn pi() -> (r: Fixed)
        ensures
            r@ == PI_RAW as int,
            r.wf(),
    {
        Fixed::from_parts(false, PI_RAW)
    }

    /// The odd polynomial that approximates the arctangent on `[-1, 1]`.
    fn atan_poly(self) -> (r: Fixed)
        ensures
            r@ == sp_atan_poly(self@),
            r.wf(),
    {
        let u = self.mul(self);
        let h7 = Fixed::from_parts(true, ATAN_C15);
        let h6 = Fixed::from_parts(false, ATAN_C13).add(u.mul(h7));
        let h5 = Fixed::from_parts(true, ATAN_C11).add(u.mul(h6));
        let h4 = Fixed::from_parts(false, ATAN_C9).add(u.mul(h5));
        let h3 = Fixed::from_parts(true, ATAN_C7).add(u.mul(h4));
        let h2 = Fixed::from_parts(false, ATAN_C5).add(u.mul(h3));
        let h1 = Fixed::from_parts(true, ATAN_C3).add(u.mul(h2));
        let h0 = Fixed::from_parts(false, ATAN_C1).add(u.mul(h1));
        self.mul(h0)
    }

    /// The arctangent, approximating `atan(self)` in radians.
    pub fn atan(self) -> (r: Fixed)
        ensures
            r@ == sp_atan(self@),
            r.wf(),
    {
        let one = Fixed::one();
        if self.abs().le(one) {
            self.atan_poly()
        } else {
            let hp = Fixed::from_parts(self.is_negative(), HALF_PI_RAW);
            hp.sub(one.div(self).atan_poly())
        }
    }

    /// The two-argument arctangent, approximating `atan2(self, other)` (the
    /// angle of the point `(other, self)`) in radians.
    pub fn atan2(self, other: Fixed) -> (r: Fixed)
        ensures
            r@ == sp_atan2(self@, other@),
            r.wf(),
    {
        let z = Fixed::zero();
        if z.lt(other) {
            self.div(other).atan()
        } else if other.lt(z) {
            let a = self.div(other).atan();
            let pi = Fixed::pi();
            if z.le(self) {
                a.add(pi)
            } else {
                a.sub(pi)
            }
        } else {
            if z.lt(self) {
                Fixed::from_parts(false, HALF_PI_RAW)
            } else if self.lt(z) {
                Fixed::from_parts(true, HALF_PI_RAW)
            } else {
                z
            }
        }
    }
}

} // verus!
