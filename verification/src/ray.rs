//! Rays and small vector types in grid-local coordinates.
//!
//! One unit is one grid cell. Scalars are 16.16 fixed-point (`fx`), so a
//! ray's direction need not be normalized: distances along the ray are the
//! parameter `t` with `point = origin + direction * t`, in grid units of
//! the direction's own scale.

use vstd::prelude::*;
use crate::fx::{FX_POS_LIMIT, FX_DIR_LIMIT, fx_mul, fx_from_int};

verus! {

/// An integer cell coordinate.
#[derive(Clone, Copy, Debug, PartialEq, Eq, Structural)]
pub struct Vec3i {
    pub x: i32,
    pub y: i32,
    pub z: i32,
}

impl Vec3i {
    pub fn new(x: i32, y: i32, z: i32) -> (v: Self)
        ensures
            v == (Vec3i { x, y, z }),
    {
        Vec3i { x, y, z }
    }
}

/// A point or direction with fixed-point components.
#[derive(Clone, Copy, Debug, PartialEq, Eq, Structural)]
pub struct Vec3fx {
    pub x: i64,
    pub y: i64,
    pub z: i64,
}

impl Vec3fx {
    pub fn new(x: i64, y: i64, z: i64) -> (v: Self)
        ensures
            v == (Vec3fx { x, y, z }),
    {
        Vec3fx { x, y, z }
    }

    /// The point at a whole-cell corner.
    pub fn from_ints(x: i32, y: i32, z: i32) -> (v: Self)
        ensures
            v.x == x * 65536,
            v.y == y * 65536,
            v.z == z * 65536,
    {
        Vec3fx { x: fx_from_int(x), y: fx_from_int(y), z: fx_from_int(z) }
    }

    /// Componentwise negation.
    pub fn neg(self) -> (v: Self)
        requires
            self.x > i64::MIN,
            self.y > i64::MIN,
            self.z > i64::MIN,
        ensures
            v.x == -self.x,
            v.y == -self.y,
            v.z == -self.z,
    {
        Vec3fx { x: -self.x, y: -self.y, z: -self.z }
    }
}

/// A ray: an origin and an unnormalized direction, both in grid space.
#[derive(Clone, Copy, Debug, PartialEq, Eq, Structural)]
pub struct Ray3 {
    pub pos: Vec3fx,
    pub dir: Vec3fx,
}

impl Ray3 {
    /// Every component within the ranges the traversal's fixed-point
    /// arithmetic accepts (a machine limit, not a geometric one).
    pub open spec fn wf(self) -> bool {
        &&& -FX_POS_LIMIT <= self.pos.x <= FX_POS_LIMIT
        &&& -FX_POS_LIMIT <= self.pos.y <= FX_POS_LIMIT
        &&& -FX_POS_LIMIT <= self.pos.z <= FX_POS_LIMIT
        &&& -FX_DIR_LIMIT <= self.dir.x <= FX_DIR_LIMIT
        &&& -FX_DIR_LIMIT <= self.dir.y <= FX_DIR_LIMIT
        &&& -FX_DIR_LIMIT <= self.dir.z <= FX_DIR_LIMIT
    }

    /// The direction is not normalized here; normalize first when `t`
    /// must be a metric length.
    pub fn new(pos: Vec3fx, dir: Vec3fx) -> (r: Self)
        ensures
            r == (Ray3 { pos, dir }),
    {
        Ray3 { pos, dir }
    }

    /// The same origin aimed the opposite way.
    pub fn invert_dir(self) -> (r: Self)
        requires
            self.wf(),
        ensures
            r.pos == self.pos,
            r.dir.x == -self.dir.x,
            r.dir.y == -self.dir.y,
            r.dir.z == -self.dir.z,
            r.wf(),
    {
        Ray3 { pos: self.pos, dir: self.dir.neg() }
    }

    /// The point `origin + direction * t`, componentwise in fixed point.
    pub fn point_on_ray(&self, t: i64) -> (p: Vec3fx)
        requires
            self.wf(),
            -0x2_0000_0000 <= t <= 0x2_0000_0000,
        ensures
            p.x == self.pos.x + (self.dir.x * t) / 65536,
            p.y == self.pos.y + (self.dir.y * t) / 65536,
            p.z == self.pos.z + (self.dir.z * t) / 65536,
    {
        proof {
            assert(self.dir.x * t <= 0x4000_0000_0000_0000 && self.dir.x * t
                >= -0x4000_0000_0000_0000 && self.dir.y * t <= 0x4000_0000_0000_0000 && self.dir.y
                * t >= -0x4000_0000_0000_0000 && self.dir.z * t <= 0x4000_0000_0000_0000
                && self.dir.z * t >= -0x4000_0000_0000_0000) by (nonlinear_arith)
                requires
                    -FX_DIR_LIMIT <= self.dir.x <= FX_DIR_LIMIT,
                    -FX_DIR_LIMIT <= self.dir.y <= FX_DIR_LIMIT,
                    -FX_DIR_LIMIT <= self.dir.z <= FX_DIR_LIMIT,
                    -0x2_0000_0000 <= t <= 0x2_0000_0000,
            ;
            vstd::arithmetic::div_mod::lemma_fundamental_div_mod(self.dir.x * t, 65536);
            vstd::arithmetic::div_mod::lemma_fundamental_div_mod(self.dir.y * t, 65536);
            vstd::arithmetic::div_mod::lemma_fundamental_div_mod(self.dir.z * t, 65536);
        }
        let ox = fx_mul(self.dir.x, t);
        let oy = fx_mul(self.dir.y, t);
        let oz = fx_mul(self.dir.z, t);
        Vec3fx { x: self.pos.x + ox, y: self.pos.y + oy, z: self.pos.z + oz }
    }
}

} // verus!
