//! The arctangent, the per-texel solid angles, and the face directions.

use cubemap_sh::fixed::Fixed;
use cubemap_sh::solid_angle::{area_element, face_direction, texel_coord_solid_angle};

fn fx(v: f64) -> Fixed {
    Fixed::from_parts(v < 0.0, (v.abs() * 4294967296.0) as u64)
}

fn to_f64(x: Fixed) -> f64 {
    let m = x.magnitude() as f64 / 4294967296.0;
    if x.is_negative() {
        -m
    } else {
        m
    }
}

#[test]
fn atan_of_zero_and_one() {
    assert_eq!(Fixed::zero().atan(), Fixed::zero());
    let r = to_f64(Fixed::one().atan());
    assert!((r - std::f64::consts::FRAC_PI_4).abs() < 1e-6);
}

#[test]
fn atan_is_odd() {
    let t = fx(0.37);
    assert_eq!(t.neg().atan(), t.atan().neg());
}

#[test]
fn atan_of_large_arguments_approaches_half_pi() {
    let r = to_f64(fx(1000.0).atan());
    assert!((r - (std::f64::consts::FRAC_PI_2 - (1.0f64 / 1000.0).atan())).abs() < 1e-6);
}

#[test]
fn atan2_matches_the_float_atan2_per_quadrant() {
    let cases: [(f64, f64); 6] = [
        (1.0, 2.0),
        (-1.0, 2.0),
        (1.0, -2.0),
        (-1.0, -2.0),
        (1.0, 0.0),
        (-1.0, 0.0),
    ];
    for (y, x) in cases {
        let got = to_f64(fx(y).atan2(fx(x)));
        assert!((got - y.atan2(x)).abs() < 1e-5, "atan2({y}, {x}) gave {got}");
    }
}

#[test]
fn area_element_at_the_face_corner_is_pi_over_six() {
    let r = to_f64(area_element(Fixed::one(), Fixed::one()));
    assert!((r - std::f64::consts::PI / 6.0).abs() < 1e-6);
}

#[test]
fn solid_angles_of_a_face_sum_to_a_sixth_of_the_sphere() {
    // One sixth of the sphere subtends 4 * pi / 6 steradians.
    let size: usize = 64;
    let inv = Fixed::one().div(Fixed::from_usize(size));
    let mut sum = 0.0f64;
    for v in 0..size {
        for u in 0..size {
            sum += to_f64(texel_coord_solid_angle(u, v, inv));
        }
    }
    let expected = 4.0 * std::f64::consts::PI / 6.0;
    assert!((sum - expected).abs() / expected < 0.01, "sum {sum} vs {expected}");
}

#[test]
fn texel_solid_angle_is_symmetric_across_the_face() {
    let size: usize = 16;
    let inv = Fixed::one().div(Fixed::from_usize(size));
    let a = texel_coord_solid_angle(0, 0, inv);
    let b = texel_coord_solid_angle(15, 15, inv);
    let c = texel_coord_solid_angle(0, 15, inv);
    assert_eq!(a, b);
    assert_eq!(a, c);
}

#[test]
fn face_directions_are_unit_length() {
    let size: usize = 8;
    let inv = Fixed::one().div(Fixed::from_usize(size));
    for face in 0..6usize {
        let (x, y, z) = face_direction(face, 1, 6, inv);
        let len = (to_f64(x).powi(2) + to_f64(y).powi(2) + to_f64(z).powi(2)).sqrt();
        assert!((len - 1.0).abs() < 1e-8, "face {face} length {len}");
    }
}

#[test]
fn opposite_faces_point_away_from_each_other() {
    let size: usize = 4;
    let inv = Fixed::one().div(Fixed::from_usize(size));
    // The first texels of the +X and -X faces have opposite x components.
    let (x0, _, _) = face_direction(0, 0, 0, inv);
    let (x1, _, _) = face_direction(1, 0, 0, inv);
    assert!(!x0.is_negative());
    assert!(x1.is_negative());
    assert_eq!(x0.magnitude(), x1.magnitude());
}
