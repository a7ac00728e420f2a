//! Vectors, quaternions and matrices as carried data.
//!
//! Every real number is held as the bit pattern of an IEEE 754 single
//! (`f32::to_bits`). The library moves, reorders and compares these patterns;
//! it never computes with them.

use vstd::prelude::*;

verus! {

/// Bit pattern of `1.0`.
pub const ONE: u32 = 0x3F80_0000;

/// Bit pattern of `0.0`.
pub const ZERO: u32 = 0;

/// Bit pattern of `-0.0`, which compares equal to `0.0`.
pub const NEG_ZERO: u32 = 0x8000_0000;

/// The pattern stands for a number equal to zero.
pub open spec fn is_zero(bits: u32) -> bool {
    bits == ZERO || bits == NEG_ZERO
}

/// The pattern stands for a number equal to one.
pub open spec fn is_one(bits: u32) -> bool {
    bits == ONE
}

#[derive(Clone, Copy, Debug, PartialEq, Eq, Structural)]
pub struct Vector2 {
    pub x: u32,
    pub y: u32,
}

#[derive(Clone, Copy, Debug, PartialEq, Eq, Structural)]
pub struct Vector3 {
    pub x: u32,
    pub y: u32,
    pub z: u32,
}

#[derive(Clone, Copy, Debug, PartialEq, Eq, Structural)]
pub struct Vector4 {
    pub x: u32,
    pub y: u32,
    pub z: u32,
    pub w: u32,
}

/// A rotation, scalar part first.
#[derive(Clone, Copy, Debug, PartialEq, Eq, Structural)]
pub struct Quaternion {
    pub w: u32,
    pub x: u32,
    pub y: u32,
    pub z: u32,
}

/// A 4x4 matrix held by columns: `x` is the first column, `w` the last.
#[derive(Clone, Copy, Debug, PartialEq, Eq, Structural)]
pub struct Matrix4 {
    pub x: Vector4,
    pub y: Vector4,
    pub z: Vector4,
    pub w: Vector4,
}

impl Vector2 {
    pub open spec fn spec_zero() -> Vector2 {
        Vector2 { x: ZERO, y: ZERO }
    }

    #[verifier::when_used_as_spec(spec_zero)]
    pub fn zero() -> (v: Vector2)
        ensures
            v == Vector2::spec_zero(),
    {
        Vector2 { x: ZERO, y: ZERO }
    }
}

impl Vector3 {
    pub open spec fn spec_zero() -> Vector3 {
        Vector3 { x: ZERO, y: ZERO, z: ZERO }
    }

    #[verifier::when_used_as_spec(spec_zero)]
    pub fn zero() -> (v: Vector3)
        ensures
            v == Vector3::spec_zero(),
    {
        Vector3 { x: ZERO, y: ZERO, z: ZERO }
    }

    pub open spec fn spec_from_array(a: [u32; 3]) -> Vector3 {
        Vector3 { x: a[0], y: a[1], z: a[2] }
    }

    /// The vector whose components are the three elements in order.
    #[verifier::when_used_as_spec(spec_from_array)]
    pub fn from_array(a: [u32; 3]) -> (v: Vector3)
        ensures
            v == Vector3::spec_from_array(a),
    {
        Vector3 { x: a[0], y: a[1], z: a[2] }
    }
}

impl Quaternion {
    pub open spec fn spec_new(w: u32, x: u32, y: u32, z: u32) -> Quaternion {
        Quaternion { w, x, y, z }
    }

    /// The quaternion with scalar part `w` and vector part `(x, y, z)`.
    #[verifier::when_used_as_spec(spec_new)]
    pub fn new(w: u32, x: u32, y: u32, z: u32) -> (q: Quaternion)
        ensures
            q == Quaternion::spec_new(w, x, y, z),
    {
        Quaternion { w, x, y, z }
    }

    pub open spec fn spec_from_xyzw(r: [u32; 4]) -> Quaternion {
        Quaternion { w: r[3], x: r[0], y: r[1], z: r[2] }
    }

    /// Reorders a rotation stored vector part first, `[x, y, z, w]`, into the
    /// scalar-first order used here.
    #[verifier::when_used_as_spec(spec_from_xyzw)]
    pub fn from_xyzw(r: [u32; 4]) -> (q: Quaternion)
        ensures
            q == Quaternion::spec_from_xyzw(r),
    {
        Quaternion::new(r[3], r[0], r[1], r[2])
    }
}

impl Matrix4 {
    pub open spec fn spec_identity() -> Matrix4 {
        Matrix4 {
            x: Vector4 { x: ONE, y: ZERO, z: ZERO, w: ZERO },
            y: Vector4 { x: ZERO, y: ONE, z: ZERO, w: ZERO },
            z: Vector4 { x: ZERO, y: ZERO, z: ONE, w: ZERO },
            w: Vector4 { x: ZERO, y: ZERO, z: ZERO, w: ONE },
        }
    }

    #[verifier::when_used_as_spec(spec_identity)]
    pub fn identity() -> (m: Matrix4)
        ensures
            m == Matrix4::spec_identity(),
            m.spec_is_identity(),
    {
        Matrix4 {
            x: Vector4 { x: ONE, y: ZERO, z: ZERO, w: ZERO },
            y: Vector4 { x: ZERO, y: ONE, z: ZERO, w: ZERO },
            z: Vector4 { x: ZERO, y: ZERO, z: ONE, w: ZERO },
            w: Vector4 { x: ZERO, y: ZERO, z: ZERO, w: ONE },
        }
    }

    pub open spec fn spec_from_array(m: [u32; 16]) -> Matrix4 {
        Matrix4 {
            x: Vector4 { x: m[0], y: m[1], z: m[2], w: m[3] },
            y: Vector4 { x: m[4], y: m[5], z: m[6], w: m[7] },
            z: Vector4 { x: m[8], y: m[9], z: m[10], w: m[11] },
            w: Vector4 { x: m[12], y: m[13], z: m[14], w: m[15] },
        }
    }

    /// The matrix whose sixteen elements, read column by column, are those of
    /// `m` in order: element `4 * c + r` of `m` lands in column `c`, row `r`.
    #[verifier::when_used_as_spec(spec_from_array)]
    pub fn from_array(m: [u32; 16]) -> (r: Matrix4)
        ensures
            r == Matrix4::spec_from_array(m),
    {
        Matrix4 {
            x: Vector4 { x: m[0], y: m[1], z: m[2], w: m[3] },
            y: Vector4 { x: m[4], y: m[5], z: m[6], w: m[7] },
            z: Vector4 { x: m[8], y: m[9], z: m[10], w: m[11] },
            w: Vector4 { x: m[12], y: m[13], z: m[14], w: m[15] },
        }
    }

    /// Every diagonal element equals one and every other element equals zero,
    /// as numbers: a zero may carry either sign.
    pub open spec fn spec_is_identity(&self) -> bool {
        &&& is_one(self.x.x) && is_zero(self.x.y) && is_zero(self.x.z) && is_zero(self.x.w)
        &&& is_zero(self.y.x) && is_one(self.y.y) && is_zero(self.y.z) && is_zero(self.y.w)
        &&& is_zero(self.z.x) && is_zero(self.z.y) && is_one(self.z.z) && is_zero(self.z.w)
        &&& is_zero(self.w.x) && is_zero(self.w.y) && is_zero(self.w.z) && is_one(self.w.w)
    }

    #[verifier::when_used_as_spec(spec_is_identity)]
    pub fn is_identity(&self) -> (b: bool)
        ensures
            b == self.spec_is_identity(),
    {
        zero_bits(self.x.y) && zero_bits(self.x.z) && zero_bits(self.x.w)
            && zero_bits(self.y.x) && zero_bits(self.y.z) && zero_bits(self.y.w)
            && zero_bits(self.z.x) && zero_bits(self.z.y) && zero_bits(self.z.w)
            && zero_bits(self.w.x) && zero_bits(self.w.y) && zero_bits(self.w.z)
            && self.x.x == ONE && self.y.y == ONE && self.z.z == ONE && self.w.w == ONE
    }
}

fn zero_bits(bits: u32) -> (b: bool)
    ensures
        b == is_zero(bits),
{
    bits == ZERO || bits == NEG_ZERO
}

} // verus!
