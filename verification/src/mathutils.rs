//! Small arithmetic helpers shared by the pipeline: squaring and cubing,
//! generic over any type with a specified self-multiplication.

use vstd::prelude::*;
use crate::fixed::{fx_mul_rv, fx_of, Fixed};

verus! {

/// A copyable value with a specified multiplication.  `mul_ok` names the
/// operand pairs the multiplication accepts and `sp_mul` its exact result.
pub trait MulValue: Copy + Sized {
    spec fn mul_ok(self, other: Self) -> bool;

    spec fn sp_mul(self, other: Self) -> Self;

    fn mul_value(self, other: Self) -> (r: Self)
        requires
            self.mul_ok(other),
        ensures
            r == self.sp_mul(other),
    ;
}

/// Plain machine multiplication; defined only where the product fits.
impl MulValue for usize {
    open spec fn mul_ok(self, other: Self) -> bool {
        self * other <= usize::MAX
    }

    open spec fn sp_mul(self, other: Self) -> Self {
        (self * other) as usize
    }

    fn mul_value(self, other: Self) -> (r: Self) {
        self * other
    }
}

/// Saturating Q32.32 multiplication; total.
impl MulValue for Fixed {
    open spec fn mul_ok(self, other: Self) -> bool {
        true
    }

    open spec fn sp_mul(self, other: Self) -> Self {
        fx_of(fx_mul_rv(self@, other@))
    }

    fn mul_value(self, other: Self) -> (r: Self) {
        let r = self.mul(other);
        proof {
            use_type_invariant(&r);
        }
        r
    }
}

/// The square `v * v`.
pub fn sqr<T: MulValue>(v: T) -> (r: T)
    requires
        v.mul_ok(v),
    ensures
        r == v.sp_mul(v),
{
    v.mul_value(v)
}

/// The cube `(v * v) * v`.
pub fn cube<T: MulValue>(v: T) -> (r: T)
    requires
        v.mul_ok(v),
        v.sp_mul(v).mul_ok(v),
    ensures
        r == v.sp_mul(v).sp_mul(v),
{
    v.mul_value(v).mul_value(v)
}

} // verus!
