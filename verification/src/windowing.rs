//! Windowing of a coefficient set: a damping parameter lambda chosen by
//! Newton-Raphson so that the total squared Laplacian of the luminance
//! set stays under a bound, and a per-band attenuation that applies it.
//!
//! Two quirks of the solver's tables are deliberate and kept as they are:
//! the per-band Laplacian table holds the one constant
//! `num_bands^2 * (num_bands+1)^2` for every band (not `l^2 * (l+1)^2`),
//! and each band's energy sums the squared coefficients for orders
//! starting at -1 whatever the band.  `apply_windowing` scales
//! every coefficient of band `l` by `1 / (1 + lambda * l^2 * (l+1)^2)`,
//! so a lambda of zero leaves the set unchanged, which `lemma_windowed_zero`
//! proves.

use vstd::prelude::*;
use vstd::pervasive::VecAdditionalExecFns;
use crate::fixed::{
    fx_add_rv, fx_div_rv, fx_mul_rv, fx_of, fx_sub_rv, lemma_sqrt_floor_is, sat, sqrt_floor, Fixed,
    FRAC_ONE,
};
use crate::mathutils::{cube, sqr};
use crate::solid_angle::TWO_RAW;
use crate::spherical_harmonics::SphericalHarmonics;
use crate::types::{CoeffSample, Color};

verus! {

broadcast use crate::fixed::lemma_fx_of_view;

/// Raw Q32.32 value of the convergence tolerance 1e-6.
pub const EPS_RAW: u64 = 4294;

/// The Newton-Raphson iteration cap.
pub const ITERATION_LIMIT: usize = 10000000;

/// Raw value of the per-band Laplacian table entry: the one constant
/// `num_bands^2 * (num_bands + 1)^2`, converted to fixed point, for every
/// band.
pub open spec fn sp_table_l(num_bands: int) -> int {
    sat(num_bands * num_bands * ((num_bands + 1) * (num_bands + 1)) * (FRAC_ONE as int))
}

/// Raw value of the energy of band `l` summed over orders `-1 ..= m`:
/// each step adds the square of the coefficient at linear index
/// `l^2 + l + m`.
pub open spec fn sp_band_energy(data: Seq<Fixed>, l: int, m: int) -> int
    decreases m + 2,
{
    if m < -1 {
        0
    } else {
        fx_add_rv(
            sp_band_energy(data, l, m - 1),
            fx_mul_rv(data[l * l + l + m]@, data[l * l + l + m]@),
        )
    }
}

/// Raw value of the full energy of band `l` (orders `-1 ..= l`).
pub open spec fn sp_table_b(data: Seq<Fixed>, l: int) -> int {
    sp_band_energy(data, l, l)
}

/// Raw value of the total squared Laplacian over bands `1 ..= l`.
pub open spec fn sp_laplacian(data: Seq<Fixed>, num_bands: int, l: int) -> int
    decreases l,
{
    if l <= 0 {
        0
    } else {
        fx_add_rv(
            sp_laplacian(data, num_bands, l - 1),
            fx_mul_rv(sp_table_l(num_bands), sp_table_b(data, l)),
        )
    }
}

/// Raw value of the solver's objective sum over bands `1 ..= l`:
/// `table_l * table_b / (1 + lambda * table_l)^2` per band.
pub open spec fn sp_newton_f(data: Seq<Fixed>, num_bands: int, lam: int, l: int) -> int
    decreases l,
{
    if l <= 0 {
        0
    } else {
        let tl = sp_table_l(num_bands);
        let d = fx_add_rv(FRAC_ONE as int, fx_mul_rv(lam, tl));
        fx_add_rv(
            sp_newton_f(data, num_bands, lam, l - 1),
            fx_div_rv(fx_mul_rv(tl, sp_table_b(data, l)), fx_mul_rv(d, d)),
        )
    }
}

/// Raw value of the solver's derivative sum over bands `1 ..= l`:
/// `2 * table_l^2 * table_b / (1 + lambda * table_l)^3` per band.
pub open spec fn sp_newton_fd(data: Seq<Fixed>, num_bands: int, lam: int, l: int) -> int
    decreases l,
{
    if l <= 0 {
        0
    } else {
        let tl = sp_table_l(num_bands);
        let d = fx_add_rv(FRAC_ONE as int, fx_mul_rv(lam, tl));
        fx_add_rv(
            sp_newton_fd(data, num_bands, lam, l - 1),
            fx_div_rv(
                fx_mul_rv(fx_mul_rv(TWO_RAW as int, fx_mul_rv(tl, tl)), sp_table_b(data, l)),
                fx_mul_rv(fx_mul_rv(d, d), d),
            ),
        )
    }
}

/// Raw value of one Newton update step `-(target - f) / fd`.
pub open spec fn sp_newton_delta(data: Seq<Fixed>, num_bands: int, target: int, lam: int) -> int {
    fx_div_rv(
        -fx_sub_rv(target, sp_newton_f(data, num_bands, lam, num_bands)),
        sp_newton_fd(data, num_bands, lam, num_bands),
    )
}

/// Raw value of the lambda the iteration reaches from `lam` with `fuel`
/// steps left: each step adds the update, and the iteration stops early
/// once an update is smaller than the tolerance.
pub open spec fn sp_newton(
    data: Seq<Fixed>,
    num_bands: int,
    target: int,
    lam: int,
    fuel: nat,
) -> int
    decreases fuel,
{
    if fuel == 0 {
        lam
    } else {
        let delta = sp_newton_delta(data, num_bands, target, lam);
        let lam2 = fx_add_rv(lam, delta);
        if vstd::math::abs(delta) < EPS_RAW as int {
            lam2
        } else {
            sp_newton(data, num_bands, target, lam2, (fuel - 1) as nat)
        }
    }
}

/// Raw value of the damping parameter: zero when the squared Laplacian
/// already satisfies the bound, else the Newton-Raphson result.
pub open spec fn sp_find_lambda(data: Seq<Fixed>, num_bands: int, max_laplacian: int) -> int {
    let target = fx_mul_rv(max_laplacian, max_laplacian);
    if sp_laplacian(data, num_bands, num_bands) <= target {
        0
    } else {
        sp_newton(data, num_bands, target, 0, ITERATION_LIMIT as nat)
    }
}

/// Pick the damping parameter for a luminance coefficient set: exactly 0
/// whenever the set's total squared Laplacian is at most
/// `max_laplacian^2`, and otherwise the lambda that up to 10,000,000
/// Newton-Raphson steps reach (the last value computed if the tolerance
/// is never met - the iteration cap is not reported as an error).
#[verifier::rlimit(100)]
pub fn find_windowing_lambda(sh: &SphericalHarmonics<Fixed>, max_laplacian: Fixed) -> (r: Fixed)
    requires
        sh.wf(),
        sh.num_bands <= 255,
    ensures
        r@ == sp_find_lambda(sh.data@, sh.num_bands as int, max_laplacian@),
        sp_laplacian(sh.data@, sh.num_bands as int, sh.num_bands as int) <= fx_mul_rv(
            max_laplacian@,
            max_laplacian@,
        ) ==> r@ == 0,
{
    let nb: usize = sh.num_bands;
    let ghost data = sh.data@;

    proof {
        assert(nb * nb <= 65025 && (nb + 1) * (nb + 1) <= 65536 && nb * nb * ((nb + 1) * (nb + 1))
            <= 4262461440 && nb * nb * ((nb + 1) * (nb + 1)) * (FRAC_ONE as int) == (nb * nb) as int
            * ((nb + 1) * (nb + 1)) as int * (FRAC_ONE as int)) by (nonlinear_arith)
            requires
                0 <= nb <= 255,
        ;
    }
    let tl = Fixed::from_usize(sqr(nb) * sqr(nb + 1));
    proof {
        assert(tl@ == sp_table_l(nb as int)) by {
            assert((nb as int * nb as int) * ((nb as int + 1) * (nb as int + 1)) * (FRAC_ONE as int)
                == nb as int * nb as int * ((nb as int + 1) * (nb as int + 1)) * (FRAC_ONE as int))
                by (nonlinear_arith);
        }
    }

    // Per-band energies; index 0 stays zero like the bands' table.
    let mut table_b: Vec<Fixed> = Vec::new();
    table_b.push(Fixed::zero());
    let mut l: usize = 1;
    while l <= nb
        invariant
            1 <= l <= nb + 1,
            nb <= 255,
            sh.wf(),
            nb == sh.num_bands,
            data == sh.data@,
            table_b@.len() == l,
            forall|j: int| 0 <= j < l ==> (#[trigger] table_b@[j]).wf(),
            forall|j: int| 1 <= j < l ==> table_b@[j]@ == sp_table_b(data, j),
        decreases nb + 1 - l,
    {
        let mut b = Fixed::zero();
        let mut m: i32 = -1;
        while m <= l as i32
            invariant
                -1 <= m <= l + 1,
                1 <= l <= nb,
                nb <= 255,
                sh.wf(),
                nb == sh.num_bands,
                data == sh.data@,
                b.wf(),
                b@ == sp_band_energy(data, l as int, m - 1),
            decreases l + 1 - m,
        {
            let v = sh.at(l as i32, m);
            b = b.add(sqr(v));
            m = m + 1;
        }
        table_b.push(b);
        l = l + 1;
    }

    let mut squared_laplacian = Fixed::zero();
    let mut l: usize = 1;
    while l <= nb
        invariant
            1 <= l <= nb + 1,
            nb <= 255,
            table_b@.len() == nb + 1,
            forall|j: int| 0 <= j < nb + 1 ==> (#[trigger] table_b@[j]).wf(),
            forall|j: int| 1 <= j < nb + 1 ==> table_b@[j]@ == sp_table_b(data, j),
            tl@ == sp_table_l(nb as int),
            squared_laplacian.wf(),
            squared_laplacian@ == sp_laplacian(data, nb as int, l - 1),
        decreases nb + 1 - l,
    {
        squared_laplacian = squared_laplacian.add(tl.mul(table_b[l]));
        l = l + 1;
    }

    let target_squared_laplacian = max_laplacian.mul(max_laplacian);
    if squared_laplacian.le(target_squared_laplacian) {
        return Fixed::zero();
    }

    let ghost target = target_squared_laplacian@;
    let one = Fixed::one();
    let two = Fixed::from_parts(false, TWO_RAW);
    let eps = Fixed::from_parts(false, EPS_RAW);
    let mut lambda = Fixed::zero();
    let mut done: bool = false;
    let mut it: usize = 0;
    while it < ITERATION_LIMIT && !done
        invariant
            it <= ITERATION_LIMIT,
            nb <= 255,
            table_b@.len() == nb + 1,
            forall|j: int| 0 <= j < nb + 1 ==> (#[trigger] table_b@[j]).wf(),
            forall|j: int| 1 <= j < nb + 1 ==> table_b@[j]@ == sp_table_b(data, j),
            tl@ == sp_table_l(nb as int),
            one@ == FRAC_ONE as int,
            two@ == TWO_RAW as int,
            eps@ == EPS_RAW as int,
            target == target_squared_laplacian@,
            lambda.wf(),
            !done ==> sp_newton(data, nb as int, target, 0, ITERATION_LIMIT as nat) == sp_newton(
                data,
                nb as int,
                target,
                lambda@,
                (ITERATION_LIMIT - it) as nat,
            ),
            done ==> lambda@ == sp_newton(data, nb as int, target, 0, ITERATION_LIMIT as nat),
        decreases ITERATION_LIMIT - it,
    {
        let ghost lam0 = lambda@;
        let mut f = Fixed::zero();
        let mut fd = Fixed::zero();
        let mut l: usize = 1;
        while l <= nb
            invariant
                1 <= l <= nb + 1,
                nb <= 255,
                table_b@.len() == nb + 1,
                forall|j: int| 0 <= j < nb + 1 ==> (#[trigger] table_b@[j]).wf(),
                forall|j: int| 1 <= j < nb + 1 ==> table_b@[j]@ == sp_table_b(data, j),
                tl@ == sp_table_l(nb as int),
                one@ == FRAC_ONE as int,
                two@ == TWO_RAW as int,
                lambda.wf(),
                lambda@ == lam0,
                f.wf(),
                fd.wf(),
                f@ == sp_newton_f(data, nb as int, lam0, l - 1),
                fd@ == sp_newton_fd(data, nb as int, lam0, l - 1),
            decreases nb + 1 - l,
        {
            f = f.add(tl.mul(table_b[l]).div(sqr(one.add(lambda.mul(tl)))));
            fd = fd.add(two.mul(sqr(tl)).mul(table_b[l]).div(cube(one.add(lambda.mul(tl)))));
            l = l + 1;
        }

        let fv = target_squared_laplacian.sub(f);
        let delta = fv.neg().div(fd);
        lambda = lambda.add(delta);
        it = it + 1;
        if delta.abs().lt(eps) {
            done = true;
        }
        proof {
            assert(delta@ == sp_newton_delta(data, nb as int, target, lam0));
            assert(sp_newton(data, nb as int, target, lam0, (ITERATION_LIMIT - (it - 1)) as nat)
                == if vstd::math::abs(sp_newton_delta(data, nb as int, target, lam0)) < EPS_RAW
                as int {
                    fx_add_rv(lam0, sp_newton_delta(data, nb as int, target, lam0))
                } else {
                    sp_newton(
                        data,
                        nb as int,
                        target,
                        fx_add_rv(lam0, sp_newton_delta(data, nb as int, target, lam0)),
                        (ITERATION_LIMIT - it) as nat,
                    )
                });
        }
    }

    lambda
}

/// Raw value of the attenuation of band `l`:
/// `1 / (1 + lambda * l^2 * (l + 1)^2)` in the solver's evaluation order.
pub open spec fn sp_band_factor(lam: int, l: int) -> int {
    let t = fx_add_rv(sat(l * (FRAC_ONE as int)), FRAC_ONE as int);
    fx_div_rv(
        FRAC_ONE as int,
        fx_add_rv(
            FRAC_ONE as int,
            fx_mul_rv(fx_mul_rv(lam, sat(l * l * (FRAC_ONE as int))), fx_mul_rv(t, t)),
        ),
    )
}

/// The windowed coefficient sequence: every coefficient scaled by its
/// band's attenuation (the band of linear index `k` is the integer square
/// root of `k`).
pub open spec fn sp_windowed(a: Seq<Color>, lam: int) -> Seq<Color> {
    Seq::new(a.len(), |k: int| a[k].sp_scale(fx_of(sp_band_factor(lam, sqrt_floor(k)))))
}

/// Scale every band of a set by its attenuation
/// `1 / (1 + lambda * l^2 * (l+1)^2)`; the input is left untouched and a
/// new set with the same band count is returned.
#[verifier::rlimit(100)]
pub fn apply_windowing(sh: &SphericalHarmonics<Color>, lambda: Fixed) -> (r: SphericalHarmonics<
    Color,
>)
    requires
        sh.wf(),
    ensures
        r.wf(),
        r.num_bands == sh.num_bands,
        r.data@ == sp_windowed(sh.data@, lambda@),
        forall|l: int, k: int|
            #![trigger sh.data@[k].sp_scale(fx_of(sp_band_factor(lambda@, l)))]
            0 <= l <= sh.num_bands && l * l <= k < (l + 1) * (l + 1) && k < sh.data@.len()
                ==> r.data@[k] == sh.data@[k].sp_scale(fx_of(sp_band_factor(lambda@, l))),
{
    let nb: usize = sh.num_bands;
    let total: usize = sh.data.len();
    let one = Fixed::one();
    let mut windowed = SphericalHarmonics::<Color>::new(nb);
    let mut i: usize = 0;
    let mut l: usize = 0;
    while l <= nb
        invariant
            l <= nb + 1,
            i as int == l * l,
            i <= total,
            total == sh.data@.len(),
            sh.wf(),
            nb == sh.num_bands,
            one@ == FRAC_ONE as int,
            windowed.wf(),
            windowed.num_bands == nb,
            forall|k: int|
                0 <= k < i ==> #[trigger] windowed.data@[k] == sh.data@[k].sp_scale(
                    fx_of(sp_band_factor(lambda@, sqrt_floor(k))),
                ),
        decreases nb + 1 - l,
    {
        proof {
            assert(l * l <= nb * nb && nb * nb <= total && (l + 1) * (l + 1) == l * l + 2 * l + 1
                && (l + 1) * (l + 1) <= (nb + 1) * (nb + 1)) by (nonlinear_arith)
                requires
                    0 <= l <= nb,
                    total == (nb + 1) * (nb + 1),
            ;
        }
        let s = one.div(one.add(lambda.mul(Fixed::from_usize(sqr(l))).mul(
            sqr(Fixed::from_usize(l).add(one)),
        )));
        let count: usize = l * 2 + 1;
        let mut c: usize = 0;
        while c < count
            invariant
                c <= count,
                count == l * 2 + 1,
                i as int == l * l + c,
                l * l + 2 * l + 1 == (l + 1) * (l + 1),
                (l + 1) * (l + 1) <= (nb + 1) * (nb + 1),
                total == sh.data@.len(),
                sh.wf(),
                nb == sh.num_bands,
                l <= nb,
                s@ == sp_band_factor(lambda@, l as int),
                windowed.wf(),
                windowed.num_bands == nb,
                forall|k: int|
                    0 <= k < i ==> #[trigger] windowed.data@[k] == sh.data@[k].sp_scale(
                        fx_of(sp_band_factor(lambda@, sqrt_floor(k))),
                    ),
            decreases count - c,
        {
            proof {
                lemma_sqrt_floor_is(l as int, i as int);
            }
            windowed.data.set(i, sh.data[i].scale(s));
            i = i + 1;
            c = c + 1;
        }
        l = l + 1;
    }
    proof {
        assert(i as int == total as int) by (nonlinear_arith)
            requires
                i as int == l * l,
                l == nb + 1,
                total == (nb + 1) * (nb + 1),
        ;
        assert(windowed.data@ =~= sp_windowed(sh.data@, lambda@));
        assert forall|l2: int, k: int|
            #![trigger sh.data@[k].sp_scale(fx_of(sp_band_factor(lambda@, l2)))]
            0 <= l2 <= sh.num_bands && l2 * l2 <= k < (l2 + 1) * (l2 + 1) && k
                < sh.data@.len() implies windowed.data@[k] == sh.data@[k].sp_scale(
            fx_of(sp_band_factor(lambda@, l2)),
        ) by {
            lemma_sqrt_floor_is(l2, k);
        }
    }
    windowed
}

/// With a lambda of zero every band's attenuation is exactly 1.0.
pub proof fn lemma_band_factor_zero(l: int)
    ensures
        sp_band_factor(0, l) == FRAC_ONE as int,
{
    let sq = sat(l * l * (FRAC_ONE as int));
    let t = fx_add_rv(sat(l * (FRAC_ONE as int)), FRAC_ONE as int);
    assert(0 * sq == 0 && 0 * fx_mul_rv(t, t) == 0) by (nonlinear_arith);
    assert(fx_mul_rv(0, sq) == 0);
    assert(fx_mul_rv(fx_mul_rv(0, sq), fx_mul_rv(t, t)) == 0);
    assert(((FRAC_ONE as int) * (FRAC_ONE as int)) / (FRAC_ONE as int) == FRAC_ONE as int)
        by (nonlinear_arith);
}

/// Windowing with a lambda of zero returns the coefficient sequence
/// unchanged: every scale factor is exactly 1.0.
pub proof fn lemma_windowed_zero(a: Seq<Color>)
    requires
        forall|i: int| 0 <= i < a.len() ==> (#[trigger] a[i]).sp_wf(),
    ensures
        sp_windowed(a, 0) == a,
{
    assert forall|k: int| 0 <= k < a.len() implies a[k].sp_scale(
        fx_of(sp_band_factor(0, sqrt_floor(k))),
    ) == a[k] by {
        lemma_band_factor_zero(sqrt_floor(k));
        broadcast use crate::fixed::lemma_fx_of_view;

        a[k].lemma_scale_one(fx_of(FRAC_ONE as int));
    }
    assert(sp_windowed(a, 0) =~= a);
}

} // verus!
