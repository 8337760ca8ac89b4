//! Projection of radiance samples onto the real spherical-harmonics basis
//! and aggregation of per-face partial sums.
//!
//! `add_sample` accumulates one weighted sample into every coefficient of
//! a set using the closed-form real SH basis up to band 3; the
//! normalization constants are derived once, by `BasisFactors::new`, from
//! square roots of small integers over powers of `sqrt(pi)`.
//! `project_face` walks one decoded cubemap face row-major, weights every
//! texel by its solid angle, accumulates it, and divides the face total by
//! `2 * tau`.  `aggregate` sums per-face sets, starting from a fresh zero
//! set, in face-index order.  Band counts beyond 3 are a typed
//! unsupported-configuration error, never a silent truncation.

use vstd::prelude::*;
use vstd::pervasive::VecAdditionalExecFns;
use vstd::arithmetic::div_mod::lemma_fundamental_div_mod_converse;
use crate::fixed::{fx_add_rv, fx_div_rv, fx_mul_rv, fx_of, fx_sqrt_rv, fx_sub_rv, sat, Fixed, FRAC_ONE};
use crate::mathutils::sqr;
use crate::solid_angle::{
    face_direction, sp_face_direction, sp_texel_solid_angle, texel_coord_solid_angle, HALF_RAW,
    TWO_RAW,
};
use crate::spherical_harmonics::{sp_set_div, SphericalHarmonics};
use crate::trig::PI_RAW;
use crate::types::{CoeffSample, Color};

verus! {

broadcast use crate::fixed::lemma_fx_of_view;

/// Raw Q32.32 value of 3.0.
pub const THREE_RAW: u64 = 0x3_0000_0000;

/// Raw Q32.32 value of 4.0.
pub const FOUR_RAW: u64 = 0x4_0000_0000;

/// Raw Q32.32 value of 5.0.
pub const FIVE_RAW: u64 = 0x5_0000_0000;

/// Raw Q32.32 value of 8.0.
pub const EIGHT_RAW: u64 = 0x8_0000_0000;

/// Raw Q32.32 value of tau (2 * pi).
pub const TAU_RAW: u64 = 26986075408;

/// A configuration the pipeline does not implement.
#[derive(Clone, Copy, Debug, PartialEq, Eq, Structural)]
pub enum ShError {
    /// More bands were requested than the closed-form basis covers
    /// (bands beyond 3).
    UnsupportedBands,
}

/// Raw value of `sqrt(pi)`.
pub open spec fn sp_sqrt_pi() -> int {
    fx_sqrt_rv(PI_RAW as int)
}

/// Raw value of `sqrt(k) / (d * sqrt(pi))`, the shape shared by the basis
/// normalization constants (`d` is the raw value of 2, 4 or 8).
pub open spec fn sp_root_over(k: int, d: int) -> int {
    fx_div_rv(fx_sqrt_rv(sat(k * (FRAC_ONE as int))), fx_mul_rv(d, sp_sqrt_pi()))
}

/// Raw value of the band-0 constant `1 / (2 * sqrt(pi))`.
pub open spec fn sp_factor_band0() -> int {
    fx_div_rv(FRAC_ONE as int, fx_mul_rv(TWO_RAW as int, sp_sqrt_pi()))
}

/// The normalization constants of the real SH basis, bands 0 to 3,
/// derived once and stored.
#[derive(Clone, Copy)]
pub struct BasisFactors {
    pub band0: Fixed,
    pub band1: Fixed,
    pub band2_non0: Fixed,
    pub band2_0: Fixed,
    pub band3_3: Fixed,
    pub band3_2: Fixed,
    pub band3_1: Fixed,
    pub band3_0: Fixed,
}

/// The exact fixed-point values of the eight basis constants.
pub open spec fn sp_factors() -> BasisFactors {
    BasisFactors {
        band0: fx_of(sp_factor_band0()),
        band1: fx_of(sp_root_over(3, TWO_RAW as int)),
        band2_non0: fx_of(sp_root_over(15, TWO_RAW as int)),
        band2_0: fx_of(sp_root_over(5, FOUR_RAW as int)),
        band3_3: fx_of(sp_root_over(70, EIGHT_RAW as int)),
        band3_2: fx_of(sp_root_over(105, TWO_RAW as int)),
        band3_1: fx_of(sp_root_over(42, EIGHT_RAW as int)),
        band3_0: fx_of(sp_root_over(7, FOUR_RAW as int)),
    }
}

impl BasisFactors {
    /// Derive the eight constants: `1/(2 sqrt(pi))`, `sqrt(3)/(2 sqrt(pi))`,
    /// `sqrt(15)/(2 sqrt(pi))`, `sqrt(5)/(4 sqrt(pi))`, and the four band-3
    /// constants `sqrt(70)/(8 sqrt(pi))`, `sqrt(105)/(2 sqrt(pi))`,
    /// `sqrt(42)/(8 sqrt(pi))`, `sqrt(7)/(4 sqrt(pi))`.
    pub fn new() -> (r: BasisFactors)
        ensures
            r == sp_factors(),
    {
        let sqrt_pi = Fixed::pi().sqrt();
        let two = Fixed::from_parts(false, TWO_RAW);
        let four = Fixed::from_parts(false, FOUR_RAW);
        let eight = Fixed::from_parts(false, EIGHT_RAW);
        let r = BasisFactors {
            band0: Fixed::one().div(two.mul(sqrt_pi)),
            band1: Fixed::from_usize(3).sqrt().div(two.mul(sqrt_pi)),
            band2_non0: Fixed::from_usize(15).sqrt().div(two.mul(sqrt_pi)),
            band2_0: Fixed::from_usize(5).sqrt().div(four.mul(sqrt_pi)),
            band3_3: Fixed::from_usize(70).sqrt().div(eight.mul(sqrt_pi)),
            band3_2: Fixed::from_usize(105).sqrt().div(two.mul(sqrt_pi)),
            band3_1: Fixed::from_usize(42).sqrt().div(eight.mul(sqrt_pi)),
            band3_0: Fixed::from_usize(7).sqrt().div(four.mul(sqrt_pi)),
        };
        proof {
            use_type_invariant(&r.band0);
            use_type_invariant(&r.band1);
            use_type_invariant(&r.band2_non0);
            use_type_invariant(&r.band2_0);
            use_type_invariant(&r.band3_3);
            use_type_invariant(&r.band3_2);
            use_type_invariant(&r.band3_1);
            use_type_invariant(&r.band3_0);
        }
        r
    }
}

/// Raw value of the scalar that multiplies the sample for coefficient
/// `i`: the solid-angle weight times the normalization constant times the
/// basis polynomial in the direction components `(x, y, z)`, with the
/// exact sign and evaluation order of `add_sample`.
pub open spec fn sp_basis_scale(i: int, f: BasisFactors, x: int, y: int, z: int, w: int) -> int {
    let one = FRAC_ONE as int;
    let three = THREE_RAW as int;
    let five = FIVE_RAW as int;
    let half = HALF_RAW as int;
    if i == 0 {
        fx_mul_rv(w, f.band0@)
    } else if i == 1 {
        fx_mul_rv(fx_mul_rv(-w, f.band1@), y)
    } else if i == 2 {
        fx_mul_rv(fx_mul_rv(w, f.band1@), z)
    } else if i == 3 {
        fx_mul_rv(fx_mul_rv(-w, f.band1@), x)
    } else if i == 4 {
        fx_mul_rv(fx_mul_rv(fx_mul_rv(w, f.band2_non0@), y), x)
    } else if i == 5 {
        fx_mul_rv(fx_mul_rv(fx_mul_rv(-w, f.band2_non0@), y), z)
    } else if i == 6 {
        fx_mul_rv(fx_mul_rv(w, f.band2_0@), fx_sub_rv(fx_mul_rv(three, fx_mul_rv(z, z)), one))
    } else if i == 7 {
        fx_mul_rv(fx_mul_rv(fx_mul_rv(-w, f.band2_non0@), x), z)
    } else if i == 8 {
        fx_mul_rv(
            fx_mul_rv(fx_mul_rv(w, f.band2_non0@), fx_sub_rv(fx_mul_rv(x, x), fx_mul_rv(y, y))),
            half,
        )
    } else if i == 9 {
        fx_mul_rv(
            fx_mul_rv(fx_mul_rv(-w, f.band3_3@), y),
            fx_sub_rv(fx_mul_rv(three, fx_mul_rv(x, x)), fx_mul_rv(y, y)),
        )
    } else if i == 10 {
        fx_mul_rv(fx_mul_rv(fx_mul_rv(fx_mul_rv(w, f.band3_2@), x), y), z)
    } else if i == 11 {
        fx_mul_rv(
            fx_mul_rv(fx_mul_rv(-w, f.band3_1@), y),
            fx_sub_rv(fx_mul_rv(five, fx_mul_rv(z, z)), one),
        )
    } else if i == 12 {
        fx_mul_rv(
            fx_mul_rv(fx_mul_rv(w, f.band3_0@), z),
            fx_sub_rv(fx_mul_rv(five, fx_mul_rv(z, z)), three),
        )
    } else if i == 13 {
        fx_mul_rv(
            fx_mul_rv(fx_mul_rv(-w, f.band3_1@), x),
            fx_sub_rv(fx_mul_rv(five, fx_mul_rv(z, z)), one),
        )
    } else if i == 14 {
        fx_mul_rv(
            fx_mul_rv(w, f.band3_2@),
            fx_mul_rv(fx_mul_rv(half, fx_sub_rv(fx_mul_rv(x, x), fx_mul_rv(y, y))), z),
        )
    } else if i == 15 {
        fx_mul_rv(
            fx_mul_rv(fx_mul_rv(-w, f.band3_3@), x),
            fx_sub_rv(fx_mul_rv(x, x), fx_mul_rv(three, fx_mul_rv(y, y))),
        )
    } else {
        0
    }
}

/// Accumulate one weighted sample into every coefficient of the set: each
/// coefficient `i` gains the sample scaled by `sp_basis_scale(i, ..)`.
/// Safe to call once per texel; it mutates the set in place.
#[verifier::rlimit(100)]
pub fn add_sample(
    sh: &mut SphericalHarmonics<Color>,
    factors: &BasisFactors,
    dir: (Fixed, Fixed, Fixed),
    sample: Color,
    weight: Fixed,
)
    requires
        old(sh).wf(),
        old(sh).num_bands <= 3,
    ensures
        final(sh).wf(),
        final(sh).num_bands == old(sh).num_bands,
        forall|i: int|
            0 <= i < final(sh).data@.len() ==> final(sh).data@[i] == old(sh).data@[i].sp_add(
                sample.sp_scale(
                    fx_of(sp_basis_scale(i, *factors, dir.0@, dir.1@, dir.2@, weight@)),
                ),
            ),
{
    proof {
        let nb = old(sh).num_bands as int;
        assert((nb == 0 ==> (nb + 1) * (nb + 1) == 1) && (nb == 1 ==> (nb + 1) * (nb + 1) == 4)
            && (nb == 2 ==> (nb + 1) * (nb + 1) == 9) && (nb == 3 ==> (nb + 1) * (nb + 1) == 16))
            by (nonlinear_arith);
    }
    let one = Fixed::one();
    let half = Fixed::from_parts(false, HALF_RAW);
    let three = Fixed::from_parts(false, THREE_RAW);
    let five = Fixed::from_parts(false, FIVE_RAW);
    let nw = weight.neg();

    sh.data.set(0, sh.data[0].add_val(sample.scale(weight.mul(factors.band0))));

    if sh.num_bands > 0 {
        sh.data.set(1, sh.data[1].add_val(sample.scale(nw.mul(factors.band1).mul(dir.1))));
        sh.data.set(2, sh.data[2].add_val(sample.scale(weight.mul(factors.band1).mul(dir.2))));
        sh.data.set(3, sh.data[3].add_val(sample.scale(nw.mul(factors.band1).mul(dir.0))));
    }

    if sh.num_bands > 1 {
        sh.data.set(
            4,
            sh.data[4].add_val(sample.scale(weight.mul(factors.band2_non0).mul(dir.1).mul(dir.0))),
        );
        sh.data.set(
            5,
            sh.data[5].add_val(sample.scale(nw.mul(factors.band2_non0).mul(dir.1).mul(dir.2))),
        );
        sh.data.set(
            6,
            sh.data[6].add_val(
                sample.scale(weight.mul(factors.band2_0).mul(three.mul(sqr(dir.2)).sub(one))),
            ),
        );
        sh.data.set(
            7,
            sh.data[7].add_val(sample.scale(nw.mul(factors.band2_non0).mul(dir.0).mul(dir.2))),
        );
        sh.data.set(
            8,
            sh.data[8].add_val(
                sample.scale(
                    weight.mul(factors.band2_non0).mul(sqr(dir.0).sub(sqr(dir.1))).mul(half),
                ),
            ),
        );
    }

    if sh.num_bands > 2 {
        sh.data.set(
            9,
            sh.data[9].add_val(
                sample.scale(
                    nw.mul(factors.band3_3).mul(dir.1).mul(three.mul(sqr(dir.0)).sub(sqr(dir.1))),
                ),
            ),
        );
        sh.data.set(
            10,
            sh.data[10].add_val(
                sample.scale(weight.mul(factors.band3_2).mul(dir.0).mul(dir.1).mul(dir.2)),
            ),
        );
        sh.data.set(
            11,
            sh.data[11].add_val(
                sample.scale(
                    nw.mul(factors.band3_1).mul(dir.1).mul(five.mul(sqr(dir.2)).sub(one)),
                ),
            ),
        );
        sh.data.set(
            12,
            sh.data[12].add_val(
                sample.scale(
                    weight.mul(factors.band3_0).mul(dir.2).mul(five.mul(sqr(dir.2)).sub(three)),
                ),
            ),
        );
        sh.data.set(
            13,
            sh.data[13].add_val(
                sample.scale(
                    nw.mul(factors.band3_1).mul(dir.0).mul(five.mul(sqr(dir.2)).sub(one)),
                ),
            ),
        );
        sh.data.set(
            14,
            sh.data[14].add_val(
                sample.scale(
                    weight.mul(factors.band3_2).mul(
                        half.mul(sqr(dir.0).sub(sqr(dir.1))).mul(dir.2),
                    ),
                ),
            ),
        );
        sh.data.set(
            15,
            sh.data[15].add_val(
                sample.scale(
                    nw.mul(factors.band3_3).mul(dir.0).mul(sqr(dir.0).sub(three.mul(sqr(dir.1)))),
                ),
            ),
        );
    }

    proof {
        assert forall|i: int|
            0 <= i < sh.data@.len() implies sh.data@[i] == old(sh).data@[i].sp_add(
            sample.sp_scale(
                fx_of(sp_basis_scale(i, *factors, dir.0@, dir.1@, dir.2@, weight@)),
            ),
        ) by {
            assert(sp_basis_scale(i, *factors, dir.0@, dir.1@, dir.2@, weight@)
                == sp_basis_scale(i, *factors, dir.0@, dir.1@, dir.2@, weight@));
        }
    }
}

/// A sequence of zeroed coefficients.
pub open spec fn sp_zero_seq(n: int) -> Seq<Color> {
    Seq::new(n as nat, |i: int| Color::sp_zero())
}

/// Raw value of the reciprocal face size `1 / size`.
pub open spec fn sp_inv_size(size: int) -> int {
    fx_div_rv(FRAC_ONE as int, sat(size * (FRAC_ONE as int)))
}

/// One accumulation step: the set after texel number `k` (row-major, so
/// `u = k % size` and `v = k / size`) has been weighted by its solid
/// angle and projected onto every coefficient.
pub open spec fn sp_accum_step(
    prev: Seq<Color>,
    face: int,
    size: int,
    pixels: Seq<Color>,
    f: BasisFactors,
    k: int,
) -> Seq<Color> {
    let u = k % size;
    let v = k / size;
    let inv = sp_inv_size(size);
    let d = sp_face_direction(face, u, v, inv);
    let w = sp_texel_solid_angle(u, v, inv);
    Seq::new(
        prev.len(),
        |i: int| prev[i].sp_add(pixels[k].sp_scale(fx_of(sp_basis_scale(i, f, d.0, d.1, d.2, w)))),
    )
}

/// The coefficient set after the first `k` texels of a face have been
/// accumulated into a fresh zero set.
pub open spec fn sp_accum(
    face: int,
    size: int,
    pixels: Seq<Color>,
    num_bands: int,
    f: BasisFactors,
    k: int,
) -> Seq<Color>
    decreases k,
{
    if k <= 0 {
        sp_zero_seq((num_bands + 1) * (num_bands + 1))
    } else {
        sp_accum_step(
            sp_accum(face, size, pixels, num_bands, f, k - 1),
            face,
            size,
            pixels,
            f,
            k - 1,
        )
    }
}

/// The fixed-point value of the post-accumulation divisor `2 * tau`.
pub open spec fn sp_face_divisor() -> Fixed {
    fx_of(fx_mul_rv(TWO_RAW as int, TAU_RAW as int))
}

/// The full projection of one face: every texel accumulated in row-major
/// order, then every coefficient divided by `2 * tau`.
pub open spec fn sp_project_face(
    face: int,
    size: int,
    pixels: Seq<Color>,
    num_bands: int,
) -> Seq<Color> {
    sp_set_div(sp_accum(face, size, pixels, num_bands, sp_factors(), size * size), sp_face_divisor())
}

/// Project one decoded cubemap face onto a fresh coefficient set: every
/// texel is weighted by its solid angle and accumulated, and the face
/// total is divided by `2 * tau`.  Succeeds exactly when at most 3 bands
/// are requested; more are an unsupported configuration.
#[verifier::rlimit(100)]
pub fn project_face(
    face_idx: usize,
    size: usize,
    pixels: &Vec<Color>,
    num_bands: usize,
) -> (r: Result<SphericalHarmonics<Color>, ShError>)
    requires
        face_idx < 6,
        pixels@.len() == size * size,
    ensures
        r is Ok <==> num_bands <= 3,
        r matches Ok(sh) ==> {
            &&& sh.wf()
            &&& sh.num_bands == num_bands
            &&& sh.data@ == sp_project_face(face_idx as int, size as int, pixels@, num_bands as int)
        },
        r matches Err(e) ==> e == ShError::UnsupportedBands,
{
    if num_bands > 3 {
        return Err(ShError::UnsupportedBands);
    }
    proof {
        assert((num_bands as int + 1) * (num_bands as int + 1) <= 16) by (nonlinear_arith)
            requires
                num_bands as int <= 3,
        ;
    }
    let factors = BasisFactors::new();
    let inv_size = Fixed::one().div(Fixed::from_usize(size));
    let total: usize = pixels.len();
    proof {
        assert(size as int * size as int == total as int);
    }
    let mut sh = SphericalHarmonics::<Color>::new(num_bands);
    proof {
        assert(sh.data@ =~= sp_accum(
            face_idx as int,
            size as int,
            pixels@,
            num_bands as int,
            sp_factors(),
            0,
        ));
    }

    let mut v: usize = 0;
    while v < size
        invariant
            v <= size,
            face_idx < 6,
            num_bands <= 3,
            pixels@.len() == size * size,
            size as int * size as int <= usize::MAX,
            sh.wf(),
            sh.num_bands == num_bands,
            factors == sp_factors(),
            inv_size@ == sp_inv_size(size as int),
            sh.data@ == sp_accum(
                face_idx as int,
                size as int,
                pixels@,
                num_bands as int,
                sp_factors(),
                v as int * size as int,
            ),
        decreases size - v,
    {
        let mut u: usize = 0;
        proof {
            assert(v as int * size as int + size as int == (v as int + 1) * size as int
                && v as int * size as int + size as int <= size as int * size as int)
                by (nonlinear_arith)
                requires
                    0 <= v as int && (v as int) < size as int,
            ;
        }
        while u < size
            invariant
                u <= size,
                v < size,
                face_idx < 6,
                num_bands <= 3,
                pixels@.len() == size * size,
                size as int * size as int <= usize::MAX,
                v as int * size as int + size as int <= size as int * size as int,
                sh.wf(),
                sh.num_bands == num_bands,
                factors == sp_factors(),
                inv_size@ == sp_inv_size(size as int),
                sh.data@ == sp_accum(
                    face_idx as int,
                    size as int,
                    pixels@,
                    num_bands as int,
                    sp_factors(),
                    v as int * size as int + u as int,
                ),
            decreases size - u,
        {
            let weight = texel_coord_solid_angle(u, v, inv_size);
            let dir = face_direction(face_idx, u, v, inv_size);
            let k: usize = v * size + u;
            let pix = pixels[k];
            add_sample(&mut sh, &factors, dir, pix, weight);
            proof {
                lemma_fundamental_div_mod_converse(k as int, size as int, v as int, u as int);
                assert(sh.data@ =~= sp_accum(
                    face_idx as int,
                    size as int,
                    pixels@,
                    num_bands as int,
                    sp_factors(),
                    k as int + 1,
                ));
            }
            u = u + 1;
        }
        v = v + 1;
    }
    proof {
        assert(v as int * size as int == size as int * size as int) by (nonlinear_arith)
            requires
                v as int == size as int,
        ;
    }

    let divisor = Fixed::from_parts(false, TWO_RAW).mul(Fixed::from_parts(false, TAU_RAW));
    Ok(sh.div(divisor))
}

/// The sum of the first `k` per-face coefficient sets, folded onto a
/// fresh zero set in face order.
pub open spec fn sp_sum_faces(
    parts: Seq<SphericalHarmonics<Color>>,
    num_bands: int,
    k: int,
) -> Seq<Color>
    decreases k,
{
    if k <= 0 {
        sp_zero_seq((num_bands + 1) * (num_bands + 1))
    } else {
        crate::spherical_harmonics::sp_set_add(
            sp_sum_faces(parts, num_bands, k - 1),
            parts[k - 1].data@,
        )
    }
}

/// Sum per-face coefficient sets into one aggregate, starting from a
/// fresh zero set and adding in face-index order.
pub fn aggregate(parts: Vec<SphericalHarmonics<Color>>, num_bands: usize) -> (r:
    SphericalHarmonics<Color>)
    requires
        (num_bands + 1) * (num_bands + 1) <= usize::MAX,
        forall|i: int|
            0 <= i < parts@.len() ==> (#[trigger] parts@[i]).wf() && parts@[i].num_bands
                == num_bands,
    ensures
        r.wf(),
        r.num_bands == num_bands,
        r.data@ == sp_sum_faces(parts@, num_bands as int, parts@.len() as int),
{
    let ghost orig = parts@;
    let mut parts = parts;
    let mut acc = SphericalHarmonics::<Color>::new(num_bands);
    proof {
        assert(acc.data@ =~= sp_sum_faces(orig, num_bands as int, 0));
    }
    let mut i: usize = 0;
    let n: usize = parts.len();
    while i < n
        invariant
            i <= n,
            n == orig.len(),
            parts@ =~= orig.skip(i as int),
            forall|j: int|
                0 <= j < orig.len() ==> (#[trigger] orig[j]).wf() && orig[j].num_bands == num_bands,
            acc.wf(),
            acc.num_bands == num_bands,
            acc.data@ == sp_sum_faces(orig, num_bands as int, i as int),
        decreases n - i,
    {
        let p = parts.remove(0);
        proof {
            assert(p == orig[i as int]);
        }
        acc = acc.add(p);
        proof {
            assert(parts@ =~= orig.skip(i as int + 1));
        }
        i = i + 1;
    }
    acc
}

} // verus!
