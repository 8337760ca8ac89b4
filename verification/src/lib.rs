//! Projection of a six-face cubemap of radiance samples onto a spherical
//! harmonics (SH) basis, with an optional windowing pass that damps the
//! higher bands to suppress ringing.
//!
//! All arithmetic is carried out in `Fixed`, a signed Q32.32 fixed-point
//! type whose operations are total (saturating) and specified exactly over
//! the integers, so every stage of the pipeline - solid angles, basis
//! projection, aggregation, and the windowing solver - is verified.
//! Decoding HDR images and printing live outside the library.

pub mod fixed;
pub mod mathutils;
pub mod projection;
pub mod solid_angle;
pub mod spherical_harmonics;
pub mod trig;
pub mod types;
pub mod windowing;
