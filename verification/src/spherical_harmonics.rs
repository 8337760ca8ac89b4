//! The spherical-harmonics coefficient set: for `num_bands` bands it holds
//! `(num_bands + 1)^2` coefficients in one vector, the coefficient of band
//! `l` and order `m` at linear index `l^2 + l + m`.
//!
//! Sets are values: addition of two sets with equal band counts and
//! division by a scalar build new sets element-wise, and the laws below
//! prove the algebra the aggregation relies on - addition of sets is
//! commutative, adding a fresh zero set is the identity, addition is
//! associative wherever no element saturates, and division by 1.0 returns
//! the set unchanged.

use vstd::prelude::*;
use vstd::slice::slice_subrange;
use crate::fixed::{fx_of, Fixed, FRAC_ONE};
use crate::mathutils::sqr;
use crate::types::{sp_luminance, CoeffSample, Color};

verus! {

/// An ordered set of spherical-harmonics coefficients of sample type `T`.
pub struct SphericalHarmonics<T> {
    pub data: Vec<T>,
    pub num_bands: usize,
}

/// Element-wise sum of two coefficient sequences.
pub open spec fn sp_set_add<T: CoeffSample>(a: Seq<T>, b: Seq<T>) -> Seq<T> {
    Seq::new(a.len(), |i: int| a[i].sp_add(b[i]))
}

/// Element-wise division of a coefficient sequence by a scalar.
pub open spec fn sp_set_div<T: CoeffSample>(a: Seq<T>, s: Fixed) -> Seq<T> {
    Seq::new(a.len(), |i: int| a[i].sp_div(s))
}

impl<T: CoeffSample> SphericalHarmonics<T> {
    /// The invariant of a set: exactly `(num_bands + 1)^2` coefficients,
    /// each in canonical form.
    pub open spec fn wf(self) -> bool {
        &&& self.data@.len() == (self.num_bands + 1) * (self.num_bands + 1)
        &&& forall|i: int| 0 <= i < self.data@.len() ==> (#[trigger] self.data@[i]).sp_wf()
    }

    /// A fresh zero-initialized set for the given band count.
    pub fn new(num_bands: usize) -> (r: Self)
        requires
            (num_bands + 1) * (num_bands + 1) <= usize::MAX,
        ensures
            r.wf(),
            r.num_bands == num_bands,
            forall|i: int| 0 <= i < r.data@.len() ==> r.data@[i] == T::sp_zero(),
    {
        proof {
            assert((num_bands + 1) * (num_bands + 1) >= num_bands + 1) by (nonlinear_arith)
                requires
                    num_bands >= 0,
            ;
        }
        let n: usize = sqr(num_bands + 1);
        let mut data: Vec<T> = Vec::new();
        while data.len() < n
            invariant
                data@.len() <= n,
                forall|i: int| 0 <= i < data@.len() ==> data@[i] == T::sp_zero(),
                forall|i: int| 0 <= i < data@.len() ==> (#[trigger] data@[i]).sp_wf(),
            decreases n - data.len(),
        {
            data.push(T::zero());
        }
        SphericalHarmonics { data, num_bands }
    }

    /// The coefficient of band `l`, order `m`, at linear index
    /// `l^2 + l + m`.
    pub fn at(&self, l: i32, m: i32) -> (r: T)
        requires
            self.wf(),
            0 <= l && l as int <= self.num_bands as int,
            -l <= m <= l,
        ensures
            r == self.data@[l as int * l as int + l as int + m as int],
    {
        let n: usize = self.data.len();
        proof {
            lemma_linear_index_in_range(l as int, m as int, self.num_bands as int);
            lemma_i32_square_fits(l as int);
            assert((l as int) * (l as int) + (l as int) + (m as int) < n as int);
        }
        let idx: usize = ((l as i64) * (l as i64) + (l as i64) + (m as i64)) as usize;
        self.data[idx]
    }

    /// A mutable borrow of the coefficient of band `l`, order `m`.
    pub fn at_mut(&mut self, l: i32, m: i32) -> (r: &mut T)
        requires
            old(self).wf(),
            0 <= l && l as int <= old(self).num_bands as int,
            -l <= m <= l,
        ensures
            *r == old(self).data@[l as int * l as int + l as int + m as int],
            final(self).data@ == old(self).data@.update(
                l as int * l as int + l as int + m as int,
                *final(r),
            ),
            final(self).num_bands == old(self).num_bands,
    {
        proof {
            lemma_linear_index_in_range(l as int, m as int, self.num_bands as int);
            lemma_i32_square_fits(l as int);
        }
        let idx: usize = ((l as i64) * (l as i64) + (l as i64) + (m as i64)) as usize;
        vec_ref_mut(&mut self.data, idx)
    }

    /// The window of `2l + 1` coefficients starting at linear index
    /// `l^2 + l`, as the band dump walks them.
    pub fn band(&self, l: usize) -> (r: &[T])
        requires
            self.wf(),
            l * l + 3 * l + 1 <= self.data@.len(),
        ensures
            r@ == self.data@.subrange(l * l + l, l * l + 3 * l + 1),
    {
        let n: usize = self.data.len();
        proof {
            assert(l * l + 3 * l + 1 >= l * l + l && l * l + 3 * l + 1 >= l * 2 + 1)
                by (nonlinear_arith)
                requires
                    l >= 0,
            ;
            assert(l * l + 3 * l + 1 <= n);
        }
        let band_start: usize = l * l + l;
        let num_in_band: usize = l * 2 + 1;
        slice_subrange(self.data.as_slice(), band_start, band_start + num_in_band)
    }

    /// The element-wise sum of two sets with equal band counts.
    pub fn add(self, rhs: Self) -> (r: Self)
        requires
            self.wf(),
            rhs.wf(),
            self.num_bands == rhs.num_bands,
        ensures
            r.wf(),
            r.num_bands == self.num_bands,
            r.data@ == sp_set_add(self.data@, rhs.data@),
            forall|i: int|
                0 <= i < r.data@.len() ==> r.data@[i] == self.data@[i].sp_add(rhs.data@[i]),
    {
        let n: usize = self.data.len();
        let mut data: Vec<T> = Vec::new();
        let mut i: usize = 0;
        while i < n
            invariant
                n == self.data@.len() == rhs.data@.len(),
                i == data@.len() <= n,
                forall|j: int| 0 <= j < i ==> data@[j] == self.data@[j].sp_add(rhs.data@[j]),
                forall|j: int| 0 <= j < i ==> (#[trigger] data@[j]).sp_wf(),
            decreases n - i,
        {
            data.push(self.data[i].add_val(rhs.data[i]));
            i = i + 1;
        }
        let r = SphericalHarmonics { data, num_bands: self.num_bands };
        proof {
            assert(r.data@ =~= sp_set_add(self.data@, rhs.data@));
        }
        r
    }

    /// The element-wise division of a set by a scalar.
    pub fn div(self, rhs: Fixed) -> (r: Self)
        requires
            self.wf(),
        ensures
            r.wf(),
            r.num_bands == self.num_bands,
            r.data@ == sp_set_div(self.data@, rhs),
            forall|i: int| 0 <= i < r.data@.len() ==> r.data@[i] == self.data@[i].sp_div(rhs),
    {
        let n: usize = self.data.len();
        let mut data: Vec<T> = Vec::new();
        let mut i: usize = 0;
        while i < n
            invariant
                n == self.data@.len(),
                i == data@.len() <= n,
                forall|j: int| 0 <= j < i ==> data@[j] == self.data@[j].sp_div(rhs),
                forall|j: int| 0 <= j < i ==> (#[trigger] data@[j]).sp_wf(),
            decreases n - i,
        {
            data.push(self.data[i].div_by(rhs));
            i = i + 1;
        }
        let r = SphericalHarmonics { data, num_bands: self.num_bands };
        proof {
            assert(r.data@ =~= sp_set_div(self.data@, rhs));
        }
        r
    }
}

impl SphericalHarmonics<Color> {
    /// The luminance-only projection of a radiance set: every coefficient
    /// replaced by its Rec. 709 luminance.
    pub fn luminance(&self) -> (r: SphericalHarmonics<Fixed>)
        requires
            self.wf(),
        ensures
            r.wf(),
            r.num_bands == self.num_bands,
            forall|i: int|
                0 <= i < r.data@.len() ==> r.data@[i] == fx_of(sp_luminance(self.data@[i])),
    {
        let n: usize = self.data.len();
        let mut data: Vec<Fixed> = Vec::new();
        let mut i: usize = 0;
        while i < n
            invariant
                n == self.data@.len(),
                i == data@.len() <= n,
                forall|j: int| 0 <= j < i ==> data@[j] == fx_of(sp_luminance(self.data@[j])),
                forall|j: int| 0 <= j < i ==> (#[trigger] data@[j]).wf(),
            decreases n - i,
        {
            let v = self.data[i].luminance();
            proof {
                use_type_invariant(&v);
            }
            data.push(v);
            i = i + 1;
        }
        SphericalHarmonics { data, num_bands: self.num_bands }
    }
}

/// A mutable borrow of one element of a vector.
fn vec_ref_mut<T>(v: &mut Vec<T>, i: usize) -> (element: &mut T)
    requires
        i < old(v).len(),
    ensures
        *element == old(v)@[i as int],
        final(v)@ == old(v)@.update(i as int, *final(element)),
{
    &mut v[i]
}

/// The square of an `i32` value fits comfortably in an `i64`.
proof fn lemma_i32_square_fits(l: int)
    requires
        0 <= l <= 0x8000_0000,
    ensures
        l * l <= 0x4000_0000_0000_0000,
{
    assert(l * l <= 0x4000_0000_0000_0000) by (nonlinear_arith)
        requires
            0 <= l <= 0x8000_0000,
    ;
}

/// For `0 <= l <= n` and `-l <= m <= l`, the linear index `l^2 + l + m`
/// lies inside a set of `(n + 1)^2` coefficients.
proof fn lemma_linear_index_in_range(l: int, m: int, n: int)
    requires
        0 <= l <= n,
        -l <= m <= l,
    ensures
        0 <= l * l + l + m < (n + 1) * (n + 1),
{
    assert(l * l + l + m < (n + 1) * (n + 1)) by (nonlinear_arith)
        requires
            0 <= l <= n,
            -l <= m <= l,
    ;
}

/// Addition of coefficient sets is commutative: summing two well-formed
/// sequences of equal length in either order gives the same sequence.
pub proof fn lemma_set_add_comm<T: CoeffSample>(a: Seq<T>, b: Seq<T>)
    requires
        a.len() == b.len(),
        forall|i: int| 0 <= i < a.len() ==> (#[trigger] a[i]).sp_wf(),
        forall|i: int| 0 <= i < b.len() ==> (#[trigger] b[i]).sp_wf(),
    ensures
        sp_set_add(a, b) == sp_set_add(b, a),
{
    assert forall|i: int| 0 <= i < a.len() implies a[i].sp_add(b[i]) == b[i].sp_add(a[i]) by {
        a[i].lemma_add_comm(b[i]);
    }
    assert(sp_set_add(a, b) =~= sp_set_add(b, a));
}

/// Adding a zero-initialized set is the identity.
pub proof fn lemma_set_add_zero<T: CoeffSample>(a: Seq<T>, z: Seq<T>)
    requires
        a.len() == z.len(),
        forall|i: int| 0 <= i < a.len() ==> (#[trigger] a[i]).sp_wf(),
        forall|i: int| 0 <= i < z.len() ==> z[i] == T::sp_zero(),
    ensures
        sp_set_add(a, z) == a,
{
    assert forall|i: int| 0 <= i < a.len() implies a[i].sp_add(z[i]) == a[i] by {
        a[i].lemma_add_zero();
    }
    assert(sp_set_add(a, z) =~= a);
}

/// Addition of coefficient sets is associative wherever no element's sum
/// saturates.
pub proof fn lemma_set_add_assoc<T: CoeffSample>(a: Seq<T>, b: Seq<T>, c: Seq<T>)
    requires
        a.len() == b.len() == c.len(),
        forall|i: int| 0 <= i < a.len() ==> (#[trigger] a[i]).sp_wf(),
        forall|i: int| 0 <= i < b.len() ==> (#[trigger] b[i]).sp_wf(),
        forall|i: int| 0 <= i < c.len() ==> (#[trigger] c[i]).sp_wf(),
        forall|i: int| 0 <= i < a.len() ==> (#[trigger] a[i]).add_ok(b[i]),
        forall|i: int| 0 <= i < b.len() ==> (#[trigger] b[i]).add_ok(c[i]),
    ensures
        sp_set_add(sp_set_add(a, b), c) == sp_set_add(a, sp_set_add(b, c)),
{
    assert forall|i: int|
        0 <= i < a.len() implies a[i].sp_add(b[i]).sp_add(c[i]) == a[i].sp_add(
        b[i].sp_add(c[i]),
    ) by {
        a[i].lemma_add_assoc(b[i], c[i]);
    }
    assert(sp_set_add(sp_set_add(a, b), c) =~= sp_set_add(a, sp_set_add(b, c)));
}

/// Dividing a coefficient set by the scalar 1.0 returns it unchanged.
pub proof fn lemma_set_div_one<T: CoeffSample>(a: Seq<T>, one: Fixed)
    requires
        forall|i: int| 0 <= i < a.len() ==> (#[trigger] a[i]).sp_wf(),
        one@ == FRAC_ONE as int,
    ensures
        sp_set_div(a, one) == a,
{
    assert forall|i: int| 0 <= i < a.len() implies a[i].sp_div(one) == a[i] by {
        a[i].lemma_div_one(one);
    }
    assert(sp_set_div(a, one) =~= a);
}

} // verus!
