//! Orientation estimation support library for a gradient-descent AHRS
//! (attitude and heading reference system) filter.
//!
//! All scalars are IEEE-754 single-precision values carried as their 32-bit
//! patterns (`u32`), so that the discrete parts of the algorithm — sign
//! manipulation, ordering against thresholds, gimbal-lock branch selection,
//! and the sign-preserving clamp of an arcsine argument — can be stated and
//! proved exactly. The floating-point arithmetic itself (products, square
//! roots, transcendentals) is performed by the caller, which hands the bit
//! patterns of intermediate results to the functions here.
//!
//! Convention: a quaternion is (w, x, y, z), scalar part first; Euler angles
//! are (roll, pitch, yaw) in radians, roll about the x-axis, pitch about the
//! y-axis, yaw about the z-axis.

use vstd::prelude::*;

pub mod bits;
pub mod euler;

verus! {

/// A three-component vector (angular rate or specific force); each field is
/// the bit pattern of a single-precision float.
#[derive(Clone, Copy, Debug, PartialEq, Eq, Structural)]
pub struct V {
    pub x: u32,
    pub y: u32,
    pub z: u32,
}

/// An orientation quaternion, scalar part `w` first; each field is the bit
/// pattern of a single-precision float.
#[derive(Clone, Copy, Debug, PartialEq, Eq, Structural)]
pub struct Q {
    pub w: u32,
    pub x: u32,
    pub y: u32,
    pub z: u32,
}

/// Euler angles in radians; each field is the bit pattern of a
/// single-precision float.
#[derive(Clone, Copy, Debug, PartialEq, Eq, Structural)]
pub struct Euler {
    pub roll: u32,
    pub pitch: u32,
    pub yaw: u32,
}

} // verus!
