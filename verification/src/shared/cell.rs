//! The geometry of a cell: a sphere that is pushed away from the cells whose
//! core it has entered.
use crate::shared::fixed::{sqrt_floor, EPSILON, LIMIT};
use crate::shared::math::{
    direction, direction_spec, dist_sq, distance, lemma_sqrt_below, mean, mean_spec,
    radius_from_volume, sphere_radius, stretch, stretch_axis, Vector3, MAX_MEAN_POINTS,
};
use crate::shared::overlapping_cells::OverlappingCells;
use crate::shared::point::Point3;
use vstd::prelude::*;

verus! {

/// Where a cell is and how large it is.
#[derive(Clone, Copy, Debug, PartialEq, Eq, Structural)]
pub struct CellInformation {
    pub id: u64,
    pub position: Point3,
    pub radius: i64,
}

/// The larger of two scalars.
pub open spec fn larger(a: int, b: int) -> int {
    if a >= b {
        a
    } else {
        b
    }
}

/// Two spheres overlap when their centres are closer than the sum of their
/// radii.
pub open spec fn overlaps(cell1: CellInformation, cell2: CellInformation) -> bool {
    dist_sq(cell1.position, cell2.position) < (cell1.radius + cell2.radius) * (cell1.radius
        + cell2.radius)
}

/// The core of two spheres overlaps when their centres are closer than the
/// larger of their radii.
pub open spec fn core_overlaps(cell1: CellInformation, cell2: CellInformation) -> bool {
    dist_sq(cell1.position, cell2.position) < larger(cell1.radius as int, cell2.radius as int)
        * larger(cell1.radius as int, cell2.radius as int)
}

/// The point to which `cell` retreats from `from`: `cell`'s position moved
/// along the direction from `from` to `cell` by what the distance lacks to
/// the larger radius. Where the two centres coincide the direction is
/// `fallback`.
pub open spec fn away_point(
    cell: CellInformation,
    from: CellInformation,
    fallback: Vector3,
) -> Point3 {
    let len = sqrt_floor(dist_sq(from.position, cell.position));
    let dir = if len < EPSILON {
        fallback
    } else {
        direction_spec(from.position, cell.position)
    };
    let push = larger(cell.radius as int, from.radius as int) - len;
    Point3 {
        x: (cell.position.x + stretch(dir.x as int, push)) as i64,
        y: (cell.position.y + stretch(dir.y as int, push)) as i64,
        z: (cell.position.z + stretch(dir.z as int, push)) as i64,
    }
}

/// The retreat points of `cell` from those of `others` whose core it
/// overlaps, in the order of `others`.
pub open spec fn away_points(
    cell: CellInformation,
    others: Seq<CellInformation>,
    fallback: Vector3,
) -> Seq<Point3>
    decreases others.len(),
{
    if others.len() == 0 {
        Seq::empty()
    } else {
        let before = away_points(cell, others.drop_last(), fallback);
        if core_overlaps(cell, others.last()) {
            before.push(away_point(cell, others.last(), fallback))
        } else {
            before
        }
    }
}

/// The position of `cell` after it has retreated from `others`: the centroid
/// of its retreat points, or its old position where there are none.
pub open spec fn repositioned(
    cell: CellInformation,
    others: Seq<CellInformation>,
    fallback: Vector3,
) -> Point3 {
    let points = away_points(cell, others, fallback);
    if points.len() > 0 {
        mean_spec(points)
    } else {
        cell.position
    }
}

impl CellInformation {
    /// The position is within bounds and the radius is a non-negative scalar
    /// within the limit.
    pub open spec fn wf(self) -> bool {
        self.position.in_bounds() && 0 <= self.radius <= LIMIT
    }

    /// Sets the radius to that of a sphere of the new volume, then moves the
    /// cell away from the overlapping cells whose core it has entered.
    pub fn update(
        &mut self,
        overlapping_cells: &OverlappingCells,
        new_volume: i64,
        fallback: &Vector3,
    )
        requires
            old(self).position.in_bounds(),
            0 <= new_volume <= LIMIT,
            overlapping_cells.wf(),
            overlapping_cells.0@.len() <= MAX_MEAN_POINTS,
            fallback.is_direction(),
        ensures
            final(self).id == old(self).id,
            final(self).radius == sphere_radius(new_volume as int),
            final(self).position == repositioned(
                CellInformation { radius: final(self).radius, ..*old(self) },
                overlapping_cells.geometry(),
                *fallback,
            ),
    {
        self.radius = radius_from_volume(new_volume);
        proof {
            lemma_radius_of_limited_volume(new_volume as int, self.radius as int);
        }
        self.reposition(overlapping_cells, fallback);
    }

    /// Moves the cell away from the overlapping cells whose core it has
    /// entered.
    pub fn reposition(&mut self, overlapping_cells: &OverlappingCells, fallback: &Vector3)
        requires
            old(self).wf(),
            overlapping_cells.wf(),
            overlapping_cells.0@.len() <= MAX_MEAN_POINTS,
            fallback.is_direction(),
        ensures
            final(self).id == old(self).id,
            final(self).radius == old(self).radius,
            final(self).position == repositioned(
                *old(self),
                overlapping_cells.geometry(),
                *fallback,
            ),
    {
        let mut positions: Vec<Point3> = Vec::new();
        let n: usize = overlapping_cells.0.len();
        let ghost others = overlapping_cells.geometry();
        let mut i: usize = 0;
        while i < n
            invariant
                n == overlapping_cells.0@.len(),
                others == overlapping_cells.geometry(),
                i <= n,
                n <= MAX_MEAN_POINTS,
                self.wf(),
                *self == *old(self),
                overlapping_cells.wf(),
                fallback.is_direction(),
                positions@ == away_points(*self, others.subrange(0, i as int), *fallback),
                positions@.len() <= i,
            decreases n - i,
        {
            proof {
                assert(others.subrange(0, i + 1).drop_last() =~= others.subrange(0, i as int));
                assert(others.subrange(0, i + 1).last() == overlapping_cells.0@[i as int].1);
            }
            let other: CellInformation = overlapping_cells.0[i].1;
            if core_overlap(self, &other) {
                let p: Point3 = self.get_point_away_from(&other, fallback);
                positions.push(p);
            }
            i = i + 1;
        }
        proof {
            assert(others.subrange(0, n as int) =~= others);
        }
        if positions.len() > 0 {
            self.position = mean(&positions);
        }
    }

    /// Finds the point to which this cell retreats from another.
    pub fn get_point_away_from(&self, from: &CellInformation, fallback: &Vector3) -> (p: Point3)
        requires
            self.wf(),
            from.wf(),
            fallback.is_direction(),
        ensures
            p == away_point(*self, *from, *fallback),
    {
        let current_dist: i64 = distance(&from.position, &self.position);
        let dir: Vector3 = if current_dist < EPSILON {
            *fallback
        } else {
            direction(&from.position, &self.position)
        };
        let to_dist: i64 = if self.radius >= from.radius {
            self.radius
        } else {
            from.radius
        };
        let push: i64 = to_dist - current_dist;
        Point3 {
            x: self.position.x + stretch_axis(dir.x, push),
            y: self.position.y + stretch_axis(dir.y, push),
            z: self.position.z + stretch_axis(dir.z, push),
        }
    }
}

/// The radius of a sphere whose volume is within the limit is within the
/// limit too.
pub proof fn lemma_radius_of_limited_volume(v: int, r: int)
    requires
        0 <= v <= LIMIT,
        crate::shared::math::is_sphere_radius(v, r),
    ensures
        0 <= r <= LIMIT,
{
    let cube: int = r * r * r;
    assert(3 * crate::shared::math::PI_DEN * crate::shared::fixed::SCALE
        * crate::shared::fixed::SCALE == 339_000_000_000_000int);
    assert(4 * crate::shared::math::PI_NUM == 1420int);
    assert(1420 * cube <= 339_000_000_000_000 * v);
    if r > LIMIT {
        crate::shared::fixed::lemma_cube_monotone(1_000_000_000_000, r);
        assert(1_000_000_000_000int * 1_000_000_000_000 * 1_000_000_000_000
            == 1_000_000_000_000_000_000_000_000_000_000_000_000int) by (nonlinear_arith);
        assert(cube >= 1_000_000_000_000_000_000_000_000_000_000_000_000int);
        assert(false);
    }
}

/// Tells whether the centres of two cells are closer than the sum of their
/// radii.
pub fn overlap(cell1: &CellInformation, cell2: &CellInformation) -> (b: bool)
    requires
        cell1.wf(),
        cell2.wf(),
    ensures
        b == overlaps(*cell1, *cell2),
        b == (sqrt_floor(dist_sq(cell1.position, cell2.position)) < cell1.radius + cell2.radius),
{
    let min_distance: i64 = cell1.radius + cell2.radius;
    let d: i64 = distance(&cell1.position, &cell2.position);
    proof {
        lemma_sqrt_below(
            dist_sq(cell1.position, cell2.position),
            d as int,
            min_distance as int,
        );
    }
    d < min_distance
}

/// Tells whether the centres of two cells are closer than the larger of
/// their radii.
pub fn core_overlap(cell1: &CellInformation, cell2: &CellInformation) -> (b: bool)
    requires
        cell1.wf(),
        cell2.wf(),
    ensures
        b == core_overlaps(*cell1, *cell2),
        b == (sqrt_floor(dist_sq(cell1.position, cell2.position)) < larger(
            cell1.radius as int,
            cell2.radius as int,
        )),
{
    let max_radius: i64 = if cell1.radius >= cell2.radius {
        cell1.radius
    } else {
        cell2.radius
    };
    let d: i64 = distance(&cell1.position, &cell2.position);
    proof {
        lemma_sqrt_below(dist_sq(cell1.position, cell2.position), d as int, max_radius as int);
    }
    d < max_radius
}

} // verus!
