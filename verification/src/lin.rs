//! Vectors, triangles and the rigid transform.
//!
//! Every coordinate is a 32-bit IEEE-754 value carried as its raw bit pattern
//! (a [`Scalar`]). Operations that are pure bit manipulations — negation,
//! component shuffles, truncation — are implemented and verified here; the
//! arithmetic ones (sums, products, trigonometry) are the driver's, which
//! computes them on the actual floating-point values and passes bit patterns
//! back in.

use vstd::prelude::*;

verus! {

/// The IEEE-754 sign bit of a 32-bit value.
pub const SIGN_BIT: u32 = 0x8000_0000;

/// One 32-bit IEEE-754 value, held as its raw bit pattern.
#[derive(Clone, Copy, Debug, PartialEq, Eq, Structural)]
pub struct Scalar {
    pub bits: u32,
}

/// IEEE-754 negation: the sign bit flips and nothing else changes.
pub open spec fn spec_neg(s: Scalar) -> Scalar {
    Scalar { bits: s.bits ^ SIGN_BIT }
}

impl Scalar {
    pub fn new(bits: u32) -> (s: Self)
        ensures
            s.bits == bits,
    {
        Self { bits }
    }

    /// The negated value. IEEE-754 defines negation as flipping the sign bit,
    /// for every operand, so this needs no floating-point arithmetic.
    pub fn neg(self) -> (r: Self)
        ensures
            r == spec_neg(self),
    {
        Self { bits: self.bits ^ SIGN_BIT }
    }
}

/// Negation undoes itself: flipping the sign bit twice restores the value.
pub proof fn lemma_neg_involution(s: Scalar)
    ensures
        spec_neg(spec_neg(s)) == s,
{
    let b = s.bits;
    assert((b ^ 0x8000_0000u32) ^ 0x8000_0000u32 == b) by (bit_vector);
}

/// A 2D point or direction.
#[derive(Clone, Copy, Debug, PartialEq, Eq, Structural)]
pub struct Vec2 {
    pub x: Scalar,
    pub y: Scalar,
}

pub open spec fn spec_perp(v: Vec2) -> Vec2 {
    Vec2 { x: spec_neg(v.y), y: v.x }
}

pub open spec fn spec_perp_cc(v: Vec2) -> Vec2 {
    Vec2 { x: v.y, y: spec_neg(v.x) }
}

pub open spec fn spec_neg2(v: Vec2) -> Vec2 {
    Vec2 { x: spec_neg(v.x), y: spec_neg(v.y) }
}

impl Vec2 {
    pub fn new(x: Scalar, y: Scalar) -> (v: Self)
        ensures
            v == (Vec2 { x, y }),
    {
        Self { x, y }
    }

    /// The vector rotated a quarter turn in one fixed sense: `(-y, x)`.
    pub fn perp(&self) -> (r: Self)
        ensures
            r == spec_perp(*self),
    {
        Self { x: self.y.neg(), y: self.x }
    }

    /// The vector rotated a quarter turn the opposite way: `(y, -x)`.
    pub fn perp_cc(&self) -> (r: Self)
        ensures
            r == spec_perp_cc(*self),
    {
        Self { x: self.y, y: self.x.neg() }
    }

    /// The components swapped.
    pub fn transpose(&self) -> (r: Self)
        ensures
            r == (Vec2 { x: self.y, y: self.x }),
    {
        Self { x: self.y, y: self.x }
    }
}

/// The two quarter turns are exact negations of each other, so sidedness
/// tests built on either agree up to sign, with no rounding involved.
pub proof fn lemma_perp_opposites(v: Vec2)
    ensures
        spec_perp(v) == spec_neg2(spec_perp_cc(v)),
{
    lemma_neg_involution(v.x);
}

/// A 3D point or direction.
#[derive(Clone, Copy, Debug, PartialEq, Eq, Structural)]
pub struct Vec3 {
    pub x: Scalar,
    pub y: Scalar,
    pub z: Scalar,
}

impl Vec3 {
    pub fn new(x: Scalar, y: Scalar, z: Scalar) -> (v: Self)
        ensures
            v == (Vec3 { x, y, z }),
    {
        Self { x, y, z }
    }

    /// Drops the third component.
    pub fn trunc(&self) -> (r: Vec2)
        ensures
            r == (Vec2 { x: self.x, y: self.y }),
    {
        Vec2 { x: self.x, y: self.y }
    }
}

/// A 2D triangle; `a`, `b`, `c` are counter-clockwise in a front-facing
/// triangle.
#[derive(Clone, Copy, Debug, PartialEq, Eq, Structural)]
pub struct Triangle2 {
    pub a: Vec2,
    pub b: Vec2,
    pub c: Vec2,
}

/// A 3D triangle with the same winding convention.
#[derive(Clone, Copy, Debug, PartialEq, Eq, Structural)]
pub struct Triangle3 {
    pub a: Vec3,
    pub b: Vec3,
    pub c: Vec3,
}

impl Triangle3 {
    /// The triangle with the third component of every vertex dropped.
    pub fn trunc(&self) -> (r: Triangle2)
        ensures
            r.a == (Vec2 { x: self.a.x, y: self.a.y }),
            r.b == (Vec2 { x: self.b.x, y: self.b.y }),
            r.c == (Vec2 { x: self.c.x, y: self.c.y }),
    {
        Triangle2 { a: self.a.trunc(), b: self.b.trunc(), c: self.c.trunc() }
    }
}

/// A rigid-body pose: three Euler angles in radians plus a translation.
/// Applying it to a point rotates first (roll, then pitch, then yaw) and
/// translates after; the driver evaluates the trigonometry.
#[derive(Clone, Copy, Debug, PartialEq, Eq, Structural)]
pub struct Transform {
    pub yaw: Scalar,
    pub pitch: Scalar,
    pub roll: Scalar,
    pub translation: Vec3,
}

} // verus!
