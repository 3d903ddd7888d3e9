use vstd::prelude::*;

verus! {

/// A 3D vector with integer components, in the crate's fixed length unit.
#[derive(Debug, Clone, Copy, PartialEq, Eq, Structural, Default)]
pub struct Vec3I {
    pub x: i32,
    pub y: i32,
    pub z: i32,
}

impl Vec3I {
    /// Creates a vector from its three components.
    pub fn new(x: i32, y: i32, z: i32) -> (r: Self)
        ensures
            r.x == x,
            r.y == y,
            r.z == z,
    {
        Vec3I { x, y, z }
    }
}

/// A 3D point with wide integer components, used for voxel centres.
#[derive(Debug, Clone, Copy, PartialEq, Eq, Structural)]
pub struct Pos3 {
    pub x: i64,
    pub y: i64,
    pub z: i64,
}

} // verus!
