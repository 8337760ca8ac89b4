//! The coefficient-set container and its algebra on concrete values.

use cubemap_sh::fixed::Fixed;
use cubemap_sh::mathutils::{cube, sqr};
use cubemap_sh::spherical_harmonics::SphericalHarmonics;
use cubemap_sh::types::Color;

fn fx(v: f64) -> Fixed {
    Fixed::from_parts(v < 0.0, (v.abs() * 4294967296.0) as u64)
}

fn gray(v: f64) -> Color {
    Color { r: fx(v), g: fx(v), b: fx(v) }
}

fn scalar_set(values: &[f64]) -> SphericalHarmonics<Fixed> {
    let num_bands = match values.len() {
        1 => 0,
        4 => 1,
        9 => 2,
        16 => 3,
        n => panic!("no band count has {n} coefficients"),
    };
    let mut sh: SphericalHarmonics<Fixed> = SphericalHarmonics::new(num_bands);
    for (i, v) in values.iter().enumerate() {
        *sh.at_mut(band_of(i) as i32, (i as i32) - band_of(i) as i32 * (band_of(i) as i32 + 1)) =
            fx(*v);
    }
    sh
}

fn band_of(i: usize) -> usize {
    let mut l = 0usize;
    while (l + 1) * (l + 1) <= i {
        l += 1;
    }
    l
}

#[test]
fn sqr_and_cube_on_plain_counts() {
    assert_eq!(sqr(7usize), 49);
    assert_eq!(cube(3usize), 27);
}

#[test]
fn sqr_and_cube_on_scalars() {
    assert_eq!(sqr(fx(1.5)), fx(2.25));
    assert_eq!(cube(fx(2.0)), fx(8.0));
}

#[test]
fn new_allocates_one_coefficient_per_band_order() {
    for (bands, len) in [(0usize, 1usize), (1, 4), (2, 9), (3, 16)] {
        let sh: SphericalHarmonics<Fixed> = SphericalHarmonics::new(bands);
        assert_eq!(sh.data.len(), len);
        assert_eq!(sh.num_bands, bands);
        for c in sh.data.iter() {
            assert_eq!(*c, Fixed::zero());
        }
    }
}

#[test]
fn at_reads_the_linear_index() {
    let sh = scalar_set(&[
        0.0, 1.0, 2.0, 3.0, 4.0, 5.0, 6.0, 7.0, 8.0, 9.0, 10.0, 11.0, 12.0, 13.0, 14.0, 15.0,
    ]);
    // Linear index is l^2 + l + m.
    assert_eq!(sh.at(0, 0), fx(0.0));
    assert_eq!(sh.at(1, -1), fx(1.0));
    assert_eq!(sh.at(1, 0), fx(2.0));
    assert_eq!(sh.at(1, 1), fx(3.0));
    assert_eq!(sh.at(2, -2), fx(4.0));
    assert_eq!(sh.at(3, 3), fx(15.0));
}

#[test]
fn at_mut_writes_the_linear_index() {
    let mut sh: SphericalHarmonics<Fixed> = SphericalHarmonics::new(2);
    *sh.at_mut(2, -1) = fx(42.0);
    assert_eq!(sh.data[5], fx(42.0));
}

#[test]
fn band_returns_the_window_after_the_band_center() {
    // The window starts at l^2 + l (the order-0 slot) and spans 2l + 1
    // entries.
    let sh = scalar_set(&[
        0.0, 1.0, 2.0, 3.0, 4.0, 5.0, 6.0, 7.0, 8.0, 9.0, 10.0, 11.0, 12.0, 13.0, 14.0, 15.0,
    ]);
    assert_eq!(sh.band(0), &[fx(0.0)]);
    assert_eq!(sh.band(1), &[fx(2.0), fx(3.0), fx(4.0)]);
    assert_eq!(sh.band(2), &[fx(6.0), fx(7.0), fx(8.0), fx(9.0), fx(10.0)]);
}

#[test]
fn set_addition_is_commutative() {
    let a = scalar_set(&[1.0, -2.0, 3.5, 0.25]);
    let b = scalar_set(&[0.5, 4.0, -1.25, 8.0]);
    let ab = scalar_set(&[1.0, -2.0, 3.5, 0.25]).add(scalar_set(&[0.5, 4.0, -1.25, 8.0]));
    let ba = b.add(a);
    assert_eq!(ab.data, ba.data);
}

#[test]
fn set_addition_is_associative_without_saturation() {
    let abc1 = scalar_set(&[1.0, -2.0, 3.5, 0.25])
        .add(scalar_set(&[0.5, 4.0, -1.25, 8.0]))
        .add(scalar_set(&[-0.75, 0.125, 2.0, -8.0]));
    let abc2 = scalar_set(&[1.0, -2.0, 3.5, 0.25]).add(
        scalar_set(&[0.5, 4.0, -1.25, 8.0]).add(scalar_set(&[-0.75, 0.125, 2.0, -8.0])),
    );
    assert_eq!(abc1.data, abc2.data);
}

#[test]
fn adding_a_fresh_zero_set_is_the_identity() {
    let a = scalar_set(&[1.0, -2.0, 3.5, 0.25]);
    let z: SphericalHarmonics<Fixed> = SphericalHarmonics::new(1);
    let r = scalar_set(&[1.0, -2.0, 3.5, 0.25]).add(z);
    assert_eq!(r.data, a.data);
}

#[test]
fn dividing_by_one_returns_the_set_unchanged() {
    let a = scalar_set(&[1.0, -2.0, 3.5, 0.25, 7.0, -0.125, 0.0, 2.5, 100.0]);
    let r = scalar_set(&[1.0, -2.0, 3.5, 0.25, 7.0, -0.125, 0.0, 2.5, 100.0]).div(Fixed::one());
    assert_eq!(r.data, a.data);
    assert_eq!(r.num_bands, a.num_bands);
}

#[test]
fn division_scales_every_coefficient() {
    let r = scalar_set(&[1.0, -2.0, 3.0, 4.0]).div(fx(2.0));
    assert_eq!(r.data, vec![fx(0.5), fx(-1.0), fx(1.5), fx(2.0)]);
}

#[test]
fn color_channels_index_in_rgb_order() {
    let c = Color { r: fx(0.25), g: fx(0.5), b: fx(0.75) };
    assert_eq!(c.index(0), fx(0.25));
    assert_eq!(c.index(1), fx(0.5));
    assert_eq!(c.index(2), fx(0.75));
}

#[test]
fn color_addition_and_scaling_are_component_wise() {
    let a = Color { r: fx(1.0), g: fx(2.0), b: fx(3.0) };
    let b = Color { r: fx(0.5), g: fx(-1.0), b: fx(0.25) };
    let s = a.add(b);
    assert_eq!(s, Color { r: fx(1.5), g: fx(1.0), b: fx(3.25) });
    assert_eq!(a.mul(fx(2.0)), Color { r: fx(2.0), g: fx(4.0), b: fx(6.0) });
    assert_eq!(a.div(fx(2.0)), Color { r: fx(0.5), g: fx(1.0), b: fx(1.5) });
}

#[test]
fn luminance_weighs_the_channels_by_rec709() {
    let c = Color { r: Fixed::one(), g: Fixed::zero(), b: Fixed::zero() };
    let lum = c.luminance();
    let got = lum.magnitude() as f64 / 4294967296.0;
    assert!((got - 0.2126).abs() < 1e-9);

    let w = gray(1.0);
    let lw = w.luminance().magnitude() as f64 / 4294967296.0;
    assert!((lw - 1.0).abs() < 1e-6);
}

#[test]
fn luminance_set_maps_every_coefficient() {
    let mut sh: SphericalHarmonics<Color> = SphericalHarmonics::new(1);
    *sh.at_mut(0, 0) = Color { r: fx(1.0), g: fx(1.0), b: fx(1.0) };
    let lum = sh.luminance();
    assert_eq!(lum.num_bands, 1);
    assert_eq!(lum.data.len(), 4);
    let got = lum.data[0].magnitude() as f64 / 4294967296.0;
    assert!((got - 1.0).abs() < 1e-6);
    assert_eq!(lum.data[1], Fixed::zero());
}
