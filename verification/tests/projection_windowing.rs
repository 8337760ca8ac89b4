//! Projection of synthetic cubemaps and the windowing pass.

use cubemap_sh::fixed::Fixed;
use cubemap_sh::projection::{aggregate, project_face, BasisFactors, ShError};
use cubemap_sh::spherical_harmonics::SphericalHarmonics;
use cubemap_sh::types::Color;
use cubemap_sh::windowing::{apply_windowing, find_windowing_lambda};

fn fx(v: f64) -> Fixed {
    Fixed::from_parts(v < 0.0, (v.abs() * 4294967296.0) as u64)
}

fn to_f64(x: Fixed) -> f64 {
    let m = x.magnitude() as f64 / 4294967296.0;
    if x.is_negative() {
        -m
    } else {
        m
    }
}

fn uniform_face(size: usize, v: f64) -> Vec<Color> {
    vec![Color { r: fx(v), g: fx(v), b: fx(v) }; size * size]
}

/// Project six uniform faces and sum them, as the aggregator does.
fn project_uniform_cubemap(size: usize, value: f64, num_bands: usize) -> SphericalHarmonics<Color> {
    let mut parts = Vec::new();
    for face in 0..6usize {
        let pixels = uniform_face(size, value);
        parts.push(project_face(face, size, &pixels, num_bands).unwrap());
    }
    aggregate(parts, num_bands)
}

#[test]
fn basis_factors_match_the_real_constants() {
    let f = BasisFactors::new();
    let cases = [
        (f.band0, 0.28209479177387814),
        (f.band1, 0.4886025119029199),
        (f.band2_non0, 1.0925484305920792),
        (f.band2_0, 0.31539156525252005),
        (f.band3_3, 0.5900435899266435),
        (f.band3_2, 2.8906114426405543),
        (f.band3_1, 0.4570457994644658),
        (f.band3_0, 0.37317633259011546),
    ];
    for (got, expected) in cases {
        assert!((to_f64(got) - expected).abs() < 1e-7, "{} vs {expected}", to_f64(got));
    }
}

#[test]
fn too_many_bands_is_a_typed_error() {
    let pixels = uniform_face(4, 0.5);
    let r = project_face(0, 4, &pixels, 4);
    assert!(matches!(r, Err(ShError::UnsupportedBands)));
    assert!(project_face(0, 4, &pixels, 3).is_ok());
}

#[test]
fn uniform_radiance_projects_onto_band_zero_only() {
    // A constant signal is orthogonal to every non-constant basis
    // function: band 0 carries value * (1 / (2 sqrt(pi))), all higher
    // bands vanish.
    let sh = project_uniform_cubemap(32, 1.0, 2);
    let expected0 = 0.28209479177387814;
    for ch in 0..3usize {
        let got = to_f64(sh.data[0].index(ch));
        assert!((got - expected0).abs() < 2e-3, "band0 channel {ch}: {got} vs {expected0}");
    }
    for i in 1..9usize {
        for ch in 0..3usize {
            let got = to_f64(sh.data[i].index(ch));
            assert!(got.abs() < 1e-4, "coefficient {i} channel {ch} is {got}");
        }
    }
}

#[test]
fn mid_gray_cubemap_end_to_end() {
    // Six uniform (0.5, 0.5, 0.5) faces at 32x32 with 3 bands: band 0
    // approximates 0.5 / (2 sqrt(pi)) per channel and every other
    // coefficient is near zero; windowing with the fixed bound then
    // leaves the set essentially untouched.
    let sh = project_uniform_cubemap(32, 0.5, 3);
    assert_eq!(sh.num_bands, 3);
    assert_eq!(sh.data.len(), 16);

    let expected0 = 0.5 * 0.28209479177387814;
    for ch in 0..3usize {
        let got = to_f64(sh.data[0].index(ch));
        assert!((got - expected0).abs() < 1e-3, "band0 channel {ch}: {got} vs {expected0}");
    }
    for i in 1..16usize {
        for ch in 0..3usize {
            let got = to_f64(sh.data[i].index(ch));
            assert!(got.abs() < 1e-4, "coefficient {i} channel {ch} is {got}");
        }
    }

    let lum = sh.luminance();
    let lambda = find_windowing_lambda(&lum, Fixed::one());
    assert_eq!(lambda, Fixed::zero());
    let windowed = apply_windowing(&sh, lambda);
    assert_eq!(windowed.data, sh.data);
}

#[test]
fn aggregate_sums_faces_exactly() {
    let mut a: SphericalHarmonics<Color> = SphericalHarmonics::new(1);
    let mut b: SphericalHarmonics<Color> = SphericalHarmonics::new(1);
    *a.at_mut(0, 0) = Color { r: fx(1.0), g: fx(2.0), b: fx(-3.0) };
    *a.at_mut(1, 1) = Color { r: fx(0.5), g: fx(0.0), b: fx(0.25) };
    *b.at_mut(0, 0) = Color { r: fx(-0.5), g: fx(1.5), b: fx(3.0) };
    let sum = aggregate(vec![a, b], 1);
    assert_eq!(sum.num_bands, 1);
    assert_eq!(sum.data[0], Color { r: fx(0.5), g: fx(3.5), b: fx(0.0) });
    assert_eq!(sum.data[3], Color { r: fx(0.5), g: fx(0.0), b: fx(0.25) });
    assert_eq!(sum.data[1], Color { r: fx(0.0), g: fx(0.0), b: fx(0.0) });
}

#[test]
fn find_lambda_is_zero_when_the_laplacian_is_within_bound() {
    // All energy in band 0 contributes nothing to the Laplacian sum.
    let mut sh: SphericalHarmonics<Fixed> = SphericalHarmonics::new(2);
    *sh.at_mut(0, 0) = fx(100.0);
    *sh.at_mut(1, 0) = fx(0.001);
    assert_eq!(find_windowing_lambda(&sh, Fixed::one()), Fixed::zero());
}

#[test]
fn find_lambda_is_positive_when_the_laplacian_exceeds_the_bound() {
    let mut sh: SphericalHarmonics<Fixed> = SphericalHarmonics::new(2);
    *sh.at_mut(1, -1) = fx(3.0);
    *sh.at_mut(1, 0) = fx(2.0);
    *sh.at_mut(2, 1) = fx(4.0);
    let lambda = find_windowing_lambda(&sh, Fixed::one());
    assert!(Fixed::zero().lt(lambda), "lambda is {}", to_f64(lambda));
}

#[test]
fn windowing_with_zero_lambda_is_the_identity() {
    let mut sh: SphericalHarmonics<Color> = SphericalHarmonics::new(3);
    for i in 0..16usize {
        let v = (i as f64) * 0.321 - 1.7;
        *sh.at_mut(band_index(i) as i32, order_index(i)) = Color { r: fx(v), g: fx(-v), b: fx(0.5 * v) };
    }
    let windowed = apply_windowing(&sh, Fixed::zero());
    assert_eq!(windowed.data, sh.data);
    assert_eq!(windowed.num_bands, sh.num_bands);
}

#[test]
fn windowing_attenuates_each_band_by_its_factor() {
    let mut sh: SphericalHarmonics<Color> = SphericalHarmonics::new(2);
    for i in 0..9usize {
        *sh.at_mut(band_index(i) as i32, order_index(i)) =
            Color { r: fx(1.0), g: fx(1.0), b: fx(1.0) };
    }
    let windowed = apply_windowing(&sh, Fixed::one());
    // s(l) = 1 / (1 + lambda * l^2 * (l+1)^2): 1, 1/5, 1/37 for lambda 1.
    let expected = [1.0, 0.2, 1.0 / 37.0];
    for i in 0..9usize {
        let l = band_index(i);
        let got = to_f64(windowed.data[i].index(0));
        assert!((got - expected[l]).abs() < 1e-8, "index {i}: {got} vs {}", expected[l]);
    }
}

#[test]
fn windowed_luminance_meets_the_bound_it_solved_for() {
    // A set over the bound gets a positive lambda; applying it shrinks
    // the higher bands strictly.
    let mut sh: SphericalHarmonics<Color> = SphericalHarmonics::new(2);
    *sh.at_mut(1, 0) = Color { r: fx(5.0), g: fx(5.0), b: fx(5.0) };
    *sh.at_mut(2, 0) = Color { r: fx(5.0), g: fx(5.0), b: fx(5.0) };
    let lambda = find_windowing_lambda(&sh.luminance(), Fixed::one());
    assert!(Fixed::zero().lt(lambda));
    let windowed = apply_windowing(&sh, lambda);
    assert_eq!(windowed.data[0], sh.data[0]);
    let before = to_f64(sh.data[2].index(0));
    let after = to_f64(windowed.data[2].index(0));
    assert!(after < before && after > 0.0, "{after} vs {before}");
}

fn band_index(i: usize) -> usize {
    let mut l = 0usize;
    while (l + 1) * (l + 1) <= i {
        l += 1;
    }
    l
}

fn order_index(i: usize) -> i32 {
    let l = band_index(i) as i32;
    i as i32 - l * l - l
}
