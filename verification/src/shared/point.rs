//! Points in space.
use crate::shared::fixed::{in_limit, LIMIT};
use vstd::prelude::*;

verus! {

/// A position in space, each coordinate a fixed-point scalar.
#[derive(Clone, Copy, Debug, PartialEq, Eq, Structural)]
pub struct Point3 {
    pub x: i64,
    pub y: i64,
    pub z: i64,
}

impl Point3 {
    /// Every coordinate lies within the limit that the geometry accepts.
    pub open spec fn in_bounds(self) -> bool {
        in_limit(self.x as int) && in_limit(self.y as int) && in_limit(self.z as int)
    }

    /// Every coordinate lies within twice the limit, as every point on the
    /// surface of a valid sphere does.
    pub open spec fn within_reach(self) -> bool {
        &&& -2 * LIMIT <= self.x <= 2 * LIMIT
        &&& -2 * LIMIT <= self.y <= 2 * LIMIT
        &&& -2 * LIMIT <= self.z <= 2 * LIMIT
    }

    pub fn new(x: i64, y: i64, z: i64) -> (p: Point3)
        ensures
            p == (Point3 { x, y, z }),
    {
        Point3 { x, y, z }
    }

    /// Overwrites this point with the coordinates of `other`.
    pub fn set(&mut self, other: &Point3)
        ensures
            *final(self) == *other,
    {
        self.x = other.x;
        self.y = other.y;
        self.z = other.z;
    }

    /// The coordinates in the order x, y, z.
    pub fn to_array(self) -> (a: [i64; 3])
        ensures
            a@ == seq![self.x, self.y, self.z],
    {
        [self.x, self.y, self.z]
    }
}

impl vstd::std_specs::convert::FromSpecImpl<[i64; 3]> for Point3 {
    open spec fn obeys_from_spec() -> bool {
        true
    }

    open spec fn from_spec(value: [i64; 3]) -> Point3 {
        Point3 { x: value@[0], y: value@[1], z: value@[2] }
    }
}

impl From<[i64; 3]> for Point3 {
    fn from(value: [i64; 3]) -> (p: Point3) {
        Point3 { x: value[0], y: value[1], z: value[2] }
    }
}

} // verus!
