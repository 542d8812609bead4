//! Positions, placements and frame time, as plain integers.
use vstd::prelude::*;

verus! {

/// A pair of lengths, in millionths of a world unit.
#[derive(Clone, Copy, Debug, PartialEq, Eq, Structural)]
pub struct Vec2 {
    pub x: i64,
    pub y: i64,
}

impl Vec2 {
    pub fn new(x: i64, y: i64) -> (v: Vec2)
        ensures
            v == (Vec2 { x, y }),
    {
        Vec2 { x, y }
    }
}

/// One of the three axes of a position.
#[derive(Clone, Copy, Debug, PartialEq, Eq, Structural)]
pub enum Axis {
    X,
    Y,
    Z,
}

/// A position or an offset, in millionths of a world unit. `z` is the depth.
#[derive(Clone, Copy, Debug, PartialEq, Eq, Structural)]
pub struct Vec3 {
    pub x: i64,
    pub y: i64,
    pub z: i64,
}

impl Vec3 {
    /// The point at which every coordinate is zero.
    pub open spec fn origin() -> Vec3 {
        Vec3 { x: 0, y: 0, z: 0 }
    }

    /// The coordinate along `axis`.
    pub open spec fn along(self, axis: Axis) -> int {
        match axis {
            Axis::X => self.x as int,
            Axis::Y => self.y as int,
            Axis::Z => self.z as int,
        }
    }

    pub fn new(x: i64, y: i64, z: i64) -> (v: Vec3)
        ensures
            v == (Vec3 { x, y, z }),
    {
        Vec3 { x, y, z }
    }

    pub fn zero() -> (v: Vec3)
        ensures
            v == Vec3::origin(),
    {
        Vec3 { x: 0, y: 0, z: 0 }
    }

    pub fn get(&self, axis: Axis) -> (c: i64)
        ensures
            c == self.along(axis),
    {
        match axis {
            Axis::X => self.x,
            Axis::Y => self.y,
            Axis::Z => self.z,
        }
    }
}

/// Where an entity stands in a 2D scene: its position, and its roll about
/// the depth axis in microradians.
#[derive(Clone, Copy, Debug, PartialEq, Eq, Structural)]
pub struct Transform {
    pub translation: Vec3,
    pub rotation: i64,
}

impl Transform {
    /// The placement at the origin with no roll.
    pub open spec fn rest() -> Transform {
        Transform { translation: Vec3::origin(), rotation: 0 }
    }

    pub fn identity() -> (t: Transform)
        ensures
            t == Transform::rest(),
    {
        Transform { translation: Vec3 { x: 0, y: 0, z: 0 }, rotation: 0 }
    }

    pub fn from_xyz(x: i64, y: i64, z: i64) -> (t: Transform)
        ensures
            t == (Transform { translation: Vec3 { x, y, z }, rotation: 0 }),
    {
        Transform { translation: Vec3 { x, y, z }, rotation: 0 }
    }

    pub fn from_translation(translation: Vec3) -> (t: Transform)
        ensures
            t == (Transform { translation, rotation: 0 }),
    {
        Transform { translation, rotation: 0 }
    }
}

/// The clock of one frame, in microseconds.
#[derive(Clone, Copy, Debug, PartialEq, Eq, Structural)]
pub struct Time {
    /// Time since the previous frame.
    pub delta: u64,
    /// Time since the start.
    pub elapsed: u64,
}

} // verus!
