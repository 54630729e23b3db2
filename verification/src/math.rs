//! Scalars, vectors and matrices as the engine stores them.
//!
//! The engine moves these values between gameplay code, the physics
//! simulation and the graphics queue; it never computes on them. A scalar is
//! therefore kept as the 32 bits of its IEEE-754 single-precision encoding,
//! and whoever does arithmetic decodes it at the edge.

use vstd::prelude::*;

verus! {

/// Bit pattern of the scalar zero.
pub const ZERO_BITS: u32 = 0;

/// Bit pattern of the scalar one.
pub const ONE_BITS: u32 = 0x3F80_0000;

/// Bit pattern of the scalar minus one.
pub const MINUS_ONE_BITS: u32 = 0xBF80_0000;

/// Bit pattern of the scalar one half.
pub const HALF_BITS: u32 = 0x3F00_0000;

/// A single-precision scalar, held by its IEEE-754 bit pattern.
#[derive(Clone, Copy, Debug, PartialEq, Eq, Structural)]
pub struct Real {
    pub bits: u32,
}

impl Real {
    /// The scalar with the given bit pattern.
    pub fn from_bits(bits: u32) -> (r: Real)
        ensures
            r.bits == bits,
    {
        Real { bits }
    }

    /// The scalar zero.
    pub fn zero() -> (r: Real)
        ensures
            r.bits == ZERO_BITS,
    {
        Real { bits: ZERO_BITS }
    }

    /// The scalar one.
    pub fn one() -> (r: Real)
        ensures
            r.bits == ONE_BITS,
    {
        Real { bits: ONE_BITS }
    }

    /// The bit pattern of the scalar.
    pub fn to_bits(&self) -> (bits: u32)
        ensures
            bits == self.bits,
    {
        self.bits
    }
}

/// A vector of two scalars.
#[derive(Clone, Copy, Debug, PartialEq, Eq, Structural)]
pub struct Vec2 {
    pub x: Real,
    pub y: Real,
}

/// A vector of three scalars.
#[derive(Clone, Copy, Debug, PartialEq, Eq, Structural)]
pub struct Vec3 {
    pub x: Real,
    pub y: Real,
    pub z: Real,
}

/// The vector with the three given components.
pub fn vec3(x: Real, y: Real, z: Real) -> (v: Vec3)
    ensures
        v == (Vec3 { x, y, z }),
{
    Vec3 { x, y, z }
}

/// The vector with the two given components.
pub fn vec2(x: Real, y: Real) -> (v: Vec2)
    ensures
        v == (Vec2 { x, y }),
{
    Vec2 { x, y }
}

/// Values that spell out a vector of three scalars.
pub trait ToVec3 {
    /// The vector that the value spells out.
    spec fn spec_to_vec3(&self) -> Vec3;

    fn to_vec3(&self) -> (v: Vec3)
        ensures
            v == self.spec_to_vec3(),
    ;
}

/// A scalar stands for the vector that repeats it on every axis.
impl ToVec3 for Real {
    open spec fn spec_to_vec3(&self) -> Vec3 {
        Vec3 { x: *self, y: *self, z: *self }
    }

    fn to_vec3(&self) -> (v: Vec3) {
        Vec3 { x: *self, y: *self, z: *self }
    }
}

/// An array stands for the vector of its elements, in order.
impl ToVec3 for [Real; 3] {
    open spec fn spec_to_vec3(&self) -> Vec3 {
        Vec3 { x: self[0], y: self[1], z: self[2] }
    }

    fn to_vec3(&self) -> (v: Vec3) {
        Vec3 { x: self[0], y: self[1], z: self[2] }
    }
}

/// A triple stands for the vector of its fields, in order.
impl ToVec3 for (Real, Real, Real) {
    open spec fn spec_to_vec3(&self) -> Vec3 {
        Vec3 { x: self.0, y: self.1, z: self.2 }
    }

    fn to_vec3(&self) -> (v: Vec3) {
        Vec3 { x: self.0, y: self.1, z: self.2 }
    }
}

/// A 3x3 matrix: nine scalars, column after column.
#[derive(Clone, Copy, Debug, PartialEq, Eq)]
pub struct Mat3 {
    pub words: [u32; 9],
}

/// A 4x4 matrix: sixteen scalars, column after column, as a graphics
/// pipeline reads them.
#[derive(Clone, Copy, Debug, PartialEq, Eq)]
pub struct Mat4 {
    pub words: [u32; 16],
}

impl Mat3 {
    /// The matrix of zeros.
    pub open spec fn spec_zeros() -> Mat3 {
        Mat3 {
            words: [
                ZERO_BITS,
                ZERO_BITS,
                ZERO_BITS,
                ZERO_BITS,
                ZERO_BITS,
                ZERO_BITS,
                ZERO_BITS,
                ZERO_BITS,
                ZERO_BITS,
            ],
        }
    }

    /// The identity matrix: ones on the diagonal, zeros elsewhere.
    pub open spec fn spec_identity() -> Mat3 {
        Mat3 {
            words: [
                ONE_BITS,
                ZERO_BITS,
                ZERO_BITS,
                ZERO_BITS,
                ONE_BITS,
                ZERO_BITS,
                ZERO_BITS,
                ZERO_BITS,
                ONE_BITS,
            ],
        }
    }

    /// The matrix of zeros.
    pub fn zeros() -> (m: Mat3)
        ensures
            m == Mat3::spec_zeros(),
    {
        Mat3 {
            words: [
                ZERO_BITS,
                ZERO_BITS,
                ZERO_BITS,
                ZERO_BITS,
                ZERO_BITS,
                ZERO_BITS,
                ZERO_BITS,
                ZERO_BITS,
                ZERO_BITS,
            ],
        }
    }

    /// The identity matrix.
    pub fn identity() -> (m: Mat3)
        ensures
            m == Mat3::spec_identity(),
    {
        Mat3 {
            words: [
                ONE_BITS,
                ZERO_BITS,
                ZERO_BITS,
                ZERO_BITS,
                ONE_BITS,
                ZERO_BITS,
                ZERO_BITS,
                ZERO_BITS,
                ONE_BITS,
            ],
        }
    }
}

impl Mat4 {
    /// The identity matrix: ones on the diagonal, zeros elsewhere.
    pub open spec fn spec_identity() -> Mat4 {
        Mat4 {
            words: [
                ONE_BITS,
                ZERO_BITS,
                ZERO_BITS,
                ZERO_BITS,
                ZERO_BITS,
                ONE_BITS,
                ZERO_BITS,
                ZERO_BITS,
                ZERO_BITS,
                ZERO_BITS,
                ONE_BITS,
                ZERO_BITS,
                ZERO_BITS,
                ZERO_BITS,
                ZERO_BITS,
                ONE_BITS,
            ],
        }
    }

    /// The identity matrix.
    pub fn identity() -> (m: Mat4)
        ensures
            m == Mat4::spec_identity(),
    {
        Mat4 {
            words: [
                ONE_BITS,
                ZERO_BITS,
                ZERO_BITS,
                ZERO_BITS,
                ZERO_BITS,
                ONE_BITS,
                ZERO_BITS,
                ZERO_BITS,
                ZERO_BITS,
                ZERO_BITS,
                ONE_BITS,
                ZERO_BITS,
                ZERO_BITS,
                ZERO_BITS,
                ZERO_BITS,
                ONE_BITS,
            ],
        }
    }
}

} // verus!
