//! The sample types a coefficient set can hold: three-channel `Color`
//! radiance and plain `Fixed` scalars, unified by the `CoeffSample` trait.
//!
//! `CoeffSample` names the capabilities the pipeline needs of a sample -
//! a zero, addition, and scaling or division by a `Fixed` scalar - gives
//! each an exact specification, and carries the algebraic laws the
//! aggregation relies on: addition is commutative, adding zero is the
//! identity, addition is associative wherever no saturation occurs, and
//! division by one is the identity.

use vstd::prelude::*;
use crate::fixed::{
    fx_add_rv, fx_div_rv, fx_mul_rv, fx_of, max_raw, Fixed, FRAC_ONE,
};

verus! {

broadcast use crate::fixed::lemma_fx_of_view, crate::fixed::lemma_wf_range;

/// Raw Q32.32 weights of the Rec. 709 luminance formula
/// `0.2126 r + 0.7152 g + 0.0722 b`.
pub const LUM_R_RAW: u64 = 913110047;

pub const LUM_G_RAW: u64 = 3071760610;

pub const LUM_B_RAW: u64 = 310096638;

/// A value a spherical-harmonics coefficient can hold.  `sp_wf` is the
/// sample's canonical form, `add_ok` the operand pairs whose sum does not
/// saturate, and the `sp_` functions the exact results of the executable
/// operations.
pub trait CoeffSample: Copy + Sized {
    spec fn sp_wf(self) -> bool;

    spec fn add_ok(self, other: Self) -> bool;

    spec fn sp_zero() -> Self;

    spec fn sp_add(self, other: Self) -> Self;

    spec fn sp_scale(self, s: Fixed) -> Self;

    spec fn sp_div(self, s: Fixed) -> Self;

    /// The additive identity, the value a fresh coefficient set holds.
    fn zero() -> (r: Self)
        ensures
            r == Self::sp_zero(),
            r.sp_wf(),
    ;

    /// Component-wise addition.
    fn add_val(self, other: Self) -> (r: Self)
        ensures
            r == self.sp_add(other),
            r.sp_wf(),
    ;

    /// Component-wise multiplication by a scalar.
    fn scale(self, s: Fixed) -> (r: Self)
        ensures
            r == self.sp_scale(s),
            r.sp_wf(),
    ;

    /// Component-wise division by a scalar.
    fn div_by(self, s: Fixed) -> (r: Self)
        ensures
            r == self.sp_div(s),
            r.sp_wf(),
    ;

    /// Addition of samples is commutative.
    proof fn lemma_add_comm(self, other: Self)
        requires
            self.sp_wf(),
            other.sp_wf(),
        ensures
            self.sp_add(other) == other.sp_add(self),
    ;

    /// Adding the zero sample changes nothing.
    proof fn lemma_add_zero(self)
        requires
            self.sp_wf(),
        ensures
            self.sp_add(Self::sp_zero()) == self,
    ;

    /// Addition of samples is associative wherever the pairwise sums do
    /// not saturate.
    proof fn lemma_add_assoc(self, b: Self, c: Self)
        requires
            self.sp_wf(),
            b.sp_wf(),
            c.sp_wf(),
            self.add_ok(b),
            b.add_ok(c),
        ensures
            self.sp_add(b).sp_add(c) == self.sp_add(b.sp_add(c)),
    ;

    /// Dividing a sample by 1.0 changes nothing.
    proof fn lemma_div_one(self, one: Fixed)
        requires
            self.sp_wf(),
            one@ == FRAC_ONE as int,
        ensures
            self.sp_div(one) == self,
    ;

    /// Scaling a sample by 1.0 changes nothing.
    proof fn lemma_scale_one(self, one: Fixed)
        requires
            self.sp_wf(),
            one@ == FRAC_ONE as int,
        ensures
            self.sp_scale(one) == self,
    ;
}

impl CoeffSample for Fixed {
    open spec fn sp_wf(self) -> bool {
        self.wf()
    }

    open spec fn add_ok(self, other: Self) -> bool {
        -max_raw() <= self@ + other@ <= max_raw()
    }

    open spec fn sp_zero() -> Self {
        fx_of(0)
    }

    open spec fn sp_add(self, other: Self) -> Self {
        fx_of(fx_add_rv(self@, other@))
    }

    open spec fn sp_scale(self, s: Fixed) -> Self {
        fx_of(fx_mul_rv(self@, s@))
    }

    open spec fn sp_div(self, s: Fixed) -> Self {
        fx_of(fx_div_rv(self@, s@))
    }

    fn zero() -> (r: Self) {
        let r = Fixed::zero();
        proof {
            use_type_invariant(&r);
        }
        r
    }

    fn add_val(self, other: Self) -> (r: Self) {
        let r = self.add(other);
        proof {
            use_type_invariant(&r);
        }
        r
    }

    fn scale(self, s: Fixed) -> (r: Self) {
        let r = self.mul(s);
        proof {
            use_type_invariant(&r);
        }
        r
    }

    fn div_by(self, s: Fixed) -> (r: Self) {
        let r = self.div(s);
        proof {
            use_type_invariant(&r);
        }
        r
    }

    proof fn lemma_add_comm(self, other: Self) {
    }

    proof fn lemma_add_zero(self) {
    }

    proof fn lemma_add_assoc(self, b: Self, c: Self) {
    }

    proof fn lemma_div_one(self, one: Fixed) {
        assert((vstd::math::abs(self@) * (FRAC_ONE as int)) / (FRAC_ONE as int) == vstd::math::abs(
            self@,
        )) by (nonlinear_arith);
    }

    proof fn lemma_scale_one(self, one: Fixed) {
        assert((vstd::math::abs(self@) * (FRAC_ONE as int)) / (FRAC_ONE as int) == vstd::math::abs(
            self@,
        )) by (nonlinear_arith);
    }
}

/// A three-channel radiance sample; addition is component-wise and
/// scaling by a scalar applies to every channel.
#[derive(Clone, Copy, Debug, PartialEq, Eq, Structural)]
pub struct Color {
    pub r: Fixed,
    pub g: Fixed,
    pub b: Fixed,
}

/// Raw value of the Rec. 709 luminance of a color.
pub open spec fn sp_luminance(c: Color) -> int {
    fx_add_rv(
        fx_add_rv(fx_mul_rv(LUM_R_RAW as int, c.r@), fx_mul_rv(LUM_G_RAW as int, c.g@)),
        fx_mul_rv(LUM_B_RAW as int, c.b@),
    )
}

impl Color {
    /// The well-formed colors: every channel canonical.
    pub open spec fn wf(self) -> bool {
        self.r.wf() && self.g.wf() && self.b.wf()
    }

    /// The black color, the additive identity.
    pub fn black() -> (c: Color)
        ensures
            c.r@ == 0 && c.g@ == 0 && c.b@ == 0,
            c.wf(),
    {
        let z = Fixed::zero();
        proof {
            use_type_invariant(&z);
        }
        Color { r: z, g: z, b: z }
    }

    /// Component-wise addition.
    pub fn add(self, rhs: Color) -> (c: Color)
        ensures
            c.r@ == fx_add_rv(self.r@, rhs.r@),
            c.g@ == fx_add_rv(self.g@, rhs.g@),
            c.b@ == fx_add_rv(self.b@, rhs.b@),
    {
        Color { r: self.r.add(rhs.r), g: self.g.add(rhs.g), b: self.b.add(rhs.b) }
    }

    /// Component-wise division by a scalar.
    pub fn div(self, rhs: Fixed) -> (c: Color)
        ensures
            c.r@ == fx_div_rv(self.r@, rhs@),
            c.g@ == fx_div_rv(self.g@, rhs@),
            c.b@ == fx_div_rv(self.b@, rhs@),
    {
        Color { r: self.r.div(rhs), g: self.g.div(rhs), b: self.b.div(rhs) }
    }

    /// Component-wise multiplication by a scalar.
    pub fn mul(self, rhs: Fixed) -> (c: Color)
        ensures
            c.r@ == fx_mul_rv(self.r@, rhs@),
            c.g@ == fx_mul_rv(self.g@, rhs@),
            c.b@ == fx_mul_rv(self.b@, rhs@),
    {
        Color { r: self.r.mul(rhs), g: self.g.mul(rhs), b: self.b.mul(rhs) }
    }

    /// Channel access: 0 is red, 1 is green, 2 is blue; no other channel
    /// exists.
    pub fn index(self, i: usize) -> (v: Fixed)
        requires
            i < 3,
        ensures
            v == if i == 0 {
                self.r
            } else if i == 1 {
                self.g
            } else {
                self.b
            },
    {
        if i == 0 {
            self.r
        } else if i == 1 {
            self.g
        } else {
            self.b
        }
    }

    /// The Rec. 709 luminance of the color.
    pub fn luminance(self) -> (v: Fixed)
        ensures
            v@ == sp_luminance(self),
    {
        let lr = Fixed::from_parts(false, LUM_R_RAW);
        let lg = Fixed::from_parts(false, LUM_G_RAW);
        let lb = Fixed::from_parts(false, LUM_B_RAW);
        lr.mul(self.r).add(lg.mul(self.g)).add(lb.mul(self.b))
    }
}

impl CoeffSample for Color {
    open spec fn sp_wf(self) -> bool {
        self.wf()
    }

    open spec fn add_ok(self, other: Self) -> bool {
        self.r.add_ok(other.r) && self.g.add_ok(other.g) && self.b.add_ok(other.b)
    }

    open spec fn sp_zero() -> Self {
        Color { r: fx_of(0), g: fx_of(0), b: fx_of(0) }
    }

    open spec fn sp_add(self, other: Self) -> Self {
        Color {
            r: self.r.sp_add(other.r),
            g: self.g.sp_add(other.g),
            b: self.b.sp_add(other.b),
        }
    }

    open spec fn sp_scale(self, s: Fixed) -> Self {
        Color { r: self.r.sp_scale(s), g: self.g.sp_scale(s), b: self.b.sp_scale(s) }
    }

    open spec fn sp_div(self, s: Fixed) -> Self {
        Color { r: self.r.sp_div(s), g: self.g.sp_div(s), b: self.b.sp_div(s) }
    }

    fn zero() -> (r: Self) {
        let c = Color::black();
        proof {
            use_type_invariant(&c.r);
            use_type_invariant(&c.g);
            use_type_invariant(&c.b);
        }
        c
    }

    fn add_val(self, other: Self) -> (r: Self) {
        let c = self.add(other);
        proof {
            use_type_invariant(&c.r);
            use_type_invariant(&c.g);
            use_type_invariant(&c.b);
        }
        c
    }

    fn scale(self, s: Fixed) -> (r: Self) {
        let c = self.mul(s);
        proof {
            use_type_invariant(&c.r);
            use_type_invariant(&c.g);
            use_type_invariant(&c.b);
        }
        c
    }

    fn div_by(self, s: Fixed) -> (r: Self) {
        let c = self.div(s);
        proof {
            use_type_invariant(&c.r);
            use_type_invariant(&c.g);
            use_type_invariant(&c.b);
        }
        c
    }

    proof fn lemma_add_comm(self, other: Self) {
        self.r.lemma_add_comm(other.r);
        self.g.lemma_add_comm(other.g);
        self.b.lemma_add_comm(other.b);
    }

    proof fn lemma_add_zero(self) {
        self.r.lemma_add_zero();
        self.g.lemma_add_zero();
        self.b.lemma_add_zero();
    }

    proof fn lemma_add_assoc(self, b: Self, c: Self) {
        self.r.lemma_add_assoc(b.r, c.r);
        self.g.lemma_add_assoc(b.g, c.g);
        self.b.lemma_add_assoc(b.b, c.b);
    }

    proof fn lemma_div_one(self, one: Fixed) {
        self.r.lemma_div_one(one);
        self.g.lemma_div_one(one);
        self.b.lemma_div_one(one);
    }

    proof fn lemma_scale_one(self, one: Fixed) {
        self.r.lemma_scale_one(one);
        self.g.lemma_scale_one(one);
        self.b.lemma_scale_one(one);
    }
}

} // verus!
