//! Per-texel geometry of a cubemap face: the unit direction a texel
//! represents and the differential solid angle it subtends.
//!
//! A face texel at integer coordinates `(u, v)` on a face of resolution
//! `n = 1 / inv_size` has its center mapped to `[-1, 1]` face-local
//! coordinates by `c = 2 * (i + 0.5) * inv_size - 1`.  The solid angle is
//! the classic projected-area finite difference over the texel's four
//! corners, `A(x0,y0) - A(x0,y1) - A(x1,y0) + A(x1,y1)` with
//! `A(x, y) = atan2(x * y, sqrt(x^2 + y^2 + 1))`, and the direction comes
//! from a fixed per-face axis assignment followed by normalization.
//! Contracts give the exact Q32.32 evaluation of those formulas.

use vstd::prelude::*;
use crate::fixed::{fx_add_rv, fx_div_rv, fx_mul_rv, fx_sqrt_rv, fx_sub_rv, sat, Fixed, FRAC_ONE};
use crate::mathutils::sqr;
use crate::trig::sp_atan2;

verus! {

broadcast use crate::fixed::lemma_fx_of_view;

/// Raw Q32.32 value of 2.0.
pub const TWO_RAW: u64 = 0x2_0000_0000;

/// Raw Q32.32 value of 0.5.
pub const HALF_RAW: u64 = 0x8000_0000;

/// Raw value of the projected-area term `atan2(x * y, sqrt(x^2 + y^2 + 1))`.
pub open spec fn sp_area_element(x: int, y: int) -> int {
    sp_atan2(
        fx_mul_rv(x, y),
        fx_sqrt_rv(fx_add_rv(fx_add_rv(fx_mul_rv(x, x), fx_mul_rv(y, y)), FRAC_ONE as int)),
    )
}

/// Raw value of the texel-center face coordinate `2 * (i + 0.5) * inv - 1`.
pub open spec fn sp_center_coord(i: int, inv: int) -> int {
    fx_sub_rv(
        fx_mul_rv(fx_mul_rv(TWO_RAW as int, fx_add_rv(sat(i * (FRAC_ONE as int)), HALF_RAW as int)), inv),
        FRAC_ONE as int,
    )
}

/// Raw value of the solid angle of the texel centered at `(uc, vc)` whose
/// corners sit one half-texel (`inv`) away.
pub open spec fn sp_corner_solid_angle(uc: int, vc: int, inv: int) -> int {
    let x0 = fx_sub_rv(uc, inv);
    let y0 = fx_sub_rv(vc, inv);
    let x1 = fx_add_rv(uc, inv);
    let y1 = fx_add_rv(vc, inv);
    fx_add_rv(
        fx_sub_rv(fx_sub_rv(sp_area_element(x0, y0), sp_area_element(x0, y1)), sp_area_element(x1, y0)),
        sp_area_element(x1, y1),
    )
}

/// Raw value of the solid angle of texel `(u, v)`.
pub open spec fn sp_texel_solid_angle(u: int, v: int, inv: int) -> int {
    sp_corner_solid_angle(sp_center_coord(u, inv), sp_center_coord(v, inv), inv)
}

/// Raw value of the face coordinate `(2 * i + 1) * inv` used by the
/// direction table.
pub open spec fn sp_axis_coord(i: int, inv: int) -> int {
    fx_mul_rv(fx_add_rv(fx_mul_rv(TWO_RAW as int, sat(i * (FRAC_ONE as int))), FRAC_ONE as int), inv)
}

/// Raw components of the un-normalized direction of texel `(u, v)` on the
/// given face: the fixed axis/sign assignment of the six cube faces, in
/// the order +X, -X, +Y, -Y, +Z, -Z.
pub open spec fn sp_face_dir_raw(face: int, u: int, v: int, inv: int) -> (int, int, int) {
    let au = sp_axis_coord(u, inv);
    let av = sp_axis_coord(v, inv);
    let one = FRAC_ONE as int;
    if face == 0 {
        (fx_sub_rv(one, au), fx_sub_rv(one, av), one)
    } else if face == 1 {
        (fx_add_rv(-one, au), fx_sub_rv(one, av), -one)
    } else if face == 2 {
        (fx_add_rv(-one, av), one, fx_add_rv(-one, au))
    } else if face == 3 {
        (fx_sub_rv(one, av), -one, fx_add_rv(-one, au))
    } else if face == 4 {
        (one, fx_sub_rv(one, av), fx_add_rv(-one, au))
    } else {
        (-one, fx_sub_rv(one, av), fx_sub_rv(one, au))
    }
}

/// Raw components of a vector scaled to unit length: each component is
/// divided by `sqrt(x^2 + y^2 + z^2)`.
pub open spec fn sp_normalize(x: int, y: int, z: int) -> (int, int, int) {
    let len = fx_sqrt_rv(
        fx_add_rv(fx_add_rv(fx_mul_rv(x, x), fx_mul_rv(y, y)), fx_mul_rv(z, z)),
    );
    (fx_div_rv(x, len), fx_div_rv(y, len), fx_div_rv(z, len))
}

/// Raw components of the unit direction of texel `(u, v)` on the given
/// face.
pub open spec fn sp_face_direction(face: int, u: int, v: int, inv: int) -> (int, int, int) {
    let d = sp_face_dir_raw(face, u, v, inv);
    sp_normalize(d.0, d.1, d.2)
}

/// The projected-area term of the finite-difference solid angle.
pub fn area_element(x: Fixed, y: Fixed) -> (r: Fixed)
    ensures
        r@ == sp_area_element(x@, y@),
{
    x.mul(y).atan2(x.mul(x).add(y.mul(y)).add(Fixed::one()).sqrt())
}

/// The differential solid angle subtended by texel `(u, v)` of a face
/// whose resolution is `1 / inv_size`.
pub fn texel_coord_solid_angle(u: usize, v: usize, inv_size: Fixed) -> (r: Fixed)
    ensures
        r@ == sp_texel_solid_angle(u as int, v as int, inv_size@),
{
    let half = Fixed::from_parts(false, HALF_RAW);
    let two = Fixed::from_parts(false, TWO_RAW);
    let one = Fixed::one();
    let uc = two.mul(Fixed::from_usize(u).add(half)).mul(inv_size).sub(one);
    let vc = two.mul(Fixed::from_usize(v).add(half)).mul(inv_size).sub(one);

    let x0 = uc.sub(inv_size);
    let y0 = vc.sub(inv_size);
    let x1 = uc.add(inv_size);
    let y1 = vc.add(inv_size);
    area_element(x0, y0).sub(area_element(x0, y1)).sub(area_element(x1, y0)).add(
        area_element(x1, y1),
    )
}

/// The unit direction represented by texel `(u, v)` of the face with the
/// given index, following the fixed +X, -X, +Y, -Y, +Z, -Z assignment.
pub fn face_direction(face_idx: usize, u: usize, v: usize, inv_size: Fixed) -> (r: (
    Fixed,
    Fixed,
    Fixed,
))
    requires
        face_idx < 6,
    ensures
        (r.0@, r.1@, r.2@) == sp_face_direction(face_idx as int, u as int, v as int, inv_size@),
{
    let two = Fixed::from_parts(false, TWO_RAW);
    let one = Fixed::one();
    let au = two.mul(Fixed::from_usize(u)).add(one).mul(inv_size);
    let av = two.mul(Fixed::from_usize(v)).add(one).mul(inv_size);

    let d: (Fixed, Fixed, Fixed) = match face_idx {
        0 => (one.sub(au), one.sub(av), one),
        1 => (one.neg().add(au), one.sub(av), one.neg()),
        2 => (one.neg().add(av), one, one.neg().add(au)),
        3 => (one.sub(av), one.neg(), one.neg().add(au)),
        4 => (one, one.sub(av), one.neg().add(au)),
        _ => (one.neg(), one.sub(av), one.sub(au)),
    };

    let len = sqr(d.0).add(sqr(d.1)).add(sqr(d.2)).sqrt();
    (d.0.div(len), d.1.div(len), d.2.div(len))
}

} // verus!
