//! Boundary carving: the surface of a cell, clipped at a fair plane against
//! each neighbour that it overlaps, so that no two cells are drawn into each
//! other.
use crate::shared::cell::{overlap, overlaps, CellInformation};
use crate::shared::fixed::{
    div_floor, lemma_div_floor_bound, lemma_mul_bound, mul_wide, sqrt_floor, LIMIT, SCALE,
};
use crate::shared::math::{
    classify, classify_distance, direction, direction_spec, dist_sq, distance, radius_from_volume,
    signed_distance, signed_distance_spec, sphere_radius, stretch, stretch_axis, Plane,
    Point2PlaneClassification, Vector3,
};
use crate::shared::point::Point3;
use vstd::prelude::*;

verus! {

/// Finest tessellation whose vertices a 16-bit index can still number.
pub const MAX_LOD: u16 = 180;

/// A colour, each part between zero and one.
#[derive(Clone, Copy, Debug, PartialEq, Eq, Structural)]
pub struct Color {
    pub red: i64,
    pub green: i64,
    pub blue: i64,
}

/// One corner of the surface mesh.
#[derive(Clone, Copy, Debug, PartialEq, Eq, Structural)]
pub struct Vertex {
    pub position: Point3,
    pub color: Color,
}

/// What can happen to the drawn cell.
#[derive(Clone, Copy, Debug, PartialEq, Eq, Structural)]
pub enum CellEventType {
    /// The cell has moved.
    UpdatePosition(Point3),
    /// The cell has a new volume.
    UpdateVolume(i64),
    /// The cell is marked, unmarked or, with nothing given, toggled.
    Mark(Option<bool>),
}

/// Something that has happened to the cell with the given identifier.
#[derive(Clone, Copy, Debug, PartialEq, Eq, Structural)]
pub struct CellEvent {
    pub id: u64,
    pub event_type: CellEventType,
}

/// The drawn form of one cell.
#[derive(Clone, Debug)]
pub struct CellRenderer {
    marked: bool,
    radius: i64,
    position: Point3,
    vertices: Vec<Vertex>,
    indices: Vec<u16>,
    cell_id: u64,
}

/// White, the colour of an unmarked cell.
pub open spec fn white() -> Color {
    Color { red: SCALE, green: SCALE, blue: SCALE }
}

/// Yellow, the colour of a marked cell.
pub open spec fn yellow() -> Color {
    Color { red: SCALE, green: SCALE, blue: 0 }
}

/// What an event makes of the geometry and the mark of a drawn cell. An
/// event for another cell changes nothing. A new position is taken over, a
/// new volume sets the radius, and a mark is set as given or, with nothing
/// given, toggled.
pub open spec fn after_event(info: CellInformation, marked: bool, event: CellEvent) -> (
    CellInformation,
    bool,
) {
    if event.id != info.id {
        (info, marked)
    } else {
        match event.event_type {
            CellEventType::UpdatePosition(position) => (
                CellInformation { position, ..info },
                marked,
            ),
            CellEventType::UpdateVolume(volume) => (
                CellInformation { radius: sphere_radius(volume as int) as i64, ..info },
                marked,
            ),
            CellEventType::Mark(None) => (info, !marked),
            CellEventType::Mark(Some(mark)) => (info, mark),
        }
    }
}

/// A radius, capped at the distance between the centres.
pub open spec fn capped(radius: int, dist: int) -> int {
    if radius > dist {
        dist
    } else {
        radius
    }
}

/// Twice the distance from the second centre to the middle of the overlap:
/// with both radii capped at the distance between the centres, the second
/// radius less half of what the two radii together exceed the distance by,
/// doubled.
pub open spec fn split_weight(radius1: int, radius2: int, dist: int) -> int {
    capped(radius2, dist) - capped(radius1, dist) + dist
}

/// One coordinate of the middle of the overlap: from the second centre
/// toward the first by the weight over twice the distance, rounded down.
pub open spec fn split_coordinate(c1: int, c2: int, weight: int, dist: int) -> int {
    c2 + weight * (c1 - c2) / (2 * dist)
}

/// The middle of the overlap of two spheres on the line between their
/// centres. The larger sphere gets the larger share of the contested stretch.
pub open spec fn split_point(cell1: CellInformation, cell2: CellInformation) -> Point3 {
    let dist = sqrt_floor(dist_sq(cell1.position, cell2.position));
    let weight = split_weight(cell1.radius as int, cell2.radius as int, dist);
    Point3 {
        x: split_coordinate(cell1.position.x as int, cell2.position.x as int, weight, dist) as i64,
        y: split_coordinate(cell1.position.y as int, cell2.position.y as int, weight, dist) as i64,
        z: split_coordinate(cell1.position.z as int, cell2.position.z as int, weight, dist) as i64,
    }
}

/// The plane that separates a cell from another: none for the cell itself,
/// for a cell that does not overlap it and for a cell with the same centre;
/// otherwise the plane through the middle of the overlap whose normal points
/// from the cell to the other.
pub open spec fn separating_plane(cell: CellInformation, other: CellInformation) -> Option<Plane> {
    if cell.id == other.id || !overlaps(cell, other) || cell.position == other.position {
        None
    } else {
        let middle = split_point(cell, other);
        Some(
            Plane {
                pos: Vector3 { x: middle.x, y: middle.y, z: middle.z },
                normal: direction_spec(cell.position, other.position),
            },
        )
    }
}

/// The share of a difference that a weight between nothing and everything
/// gives lies between zero and the difference.
pub proof fn lemma_share_between(weight: int, delta: int, dist: int)
    requires
        0 < dist,
        0 <= weight <= 2 * dist,
    ensures
        delta >= 0 ==> 0 <= weight * delta / (2 * dist) <= delta,
        delta <= 0 ==> delta <= weight * delta / (2 * dist) <= 0,
{
    if delta >= 0 {
        assert(0 <= weight * delta <= delta * (2 * dist)) by (nonlinear_arith)
            requires
                0 <= weight <= 2 * dist,
                delta >= 0,
        ;
        lemma_div_floor_bound(weight * delta, 2 * dist, delta);
        crate::shared::fixed::lemma_div_floor_monotone(0, weight * delta, 2 * dist);
    } else {
        assert(delta * (2 * dist) <= weight * delta <= 0) by (nonlinear_arith)
            requires
                0 <= weight <= 2 * dist,
                delta <= 0,
        ;
        assert(-((-delta) * (2 * dist)) == delta * (2 * dist)) by (nonlinear_arith);
        lemma_div_floor_bound(weight * delta, 2 * dist, -delta);
        crate::shared::fixed::lemma_div_floor_monotone(weight * delta, 0, 2 * dist);
    }
}

/// Swapping the two cells leaves each coordinate of the middle of the
/// overlap where it is.
pub proof fn lemma_split_coordinate_symmetric(c1: int, c2: int, r1: int, r2: int, dist: int)
    requires
        0 < dist,
    ensures
        split_coordinate(c1, c2, split_weight(r1, r2, dist), dist) == split_coordinate(
            c2,
            c1,
            split_weight(r2, r1, dist),
            dist,
        ),
{
    let w: int = split_weight(r1, r2, dist);
    let v: int = split_weight(r2, r1, dist);
    assert(v == 2 * dist - w);
    assert(v * (c2 - c1) == w * (c1 - c2) + (c2 - c1) * (2 * dist)) by (nonlinear_arith)
        requires
            v == 2 * dist - w,
    ;
    vstd::arithmetic::div_mod::lemma_hoist_over_denominator(
        w * (c1 - c2),
        c2 - c1,
        (2 * dist) as nat,
    );
}

/// Two points that differ are at least one step apart.
pub proof fn lemma_distinct_points_apart(p: Point3, q: Point3)
    requires
        p != q,
    ensures
        sqrt_floor(dist_sq(p, q)) >= 1,
        crate::shared::fixed::is_sqrt_floor(dist_sq(p, q), sqrt_floor(dist_sq(p, q))),
{
    crate::shared::math::lemma_dist_sq_symmetric(p, q);
    crate::shared::fixed::lemma_sqrt_floor_exists(dist_sq(p, q));
    assert(dist_sq(p, q) >= 1) by (nonlinear_arith)
        requires
            dist_sq(p, q) == (q.x - p.x) * (q.x - p.x) + (q.y - p.y) * (q.y - p.y) + (q.z - p.z)
                * (q.z - p.z),
            q.x != p.x || q.y != p.y || q.z != p.z,
    ;
}

/// The plane that separates a cell from another and the plane that separates
/// the other from the cell pass through the same point, with normals that
/// point in opposite directions.
pub proof fn lemma_separating_plane_symmetric(a: CellInformation, b: CellInformation)
    requires
        a.wf(),
        b.wf(),
        separating_plane(a, b) is Some,
    ensures
        separating_plane(b, a) is Some,
        separating_plane(b, a)->0.pos == separating_plane(a, b)->0.pos,
        separating_plane(b, a)->0.normal.x == -separating_plane(a, b)->0.normal.x,
        separating_plane(b, a)->0.normal.y == -separating_plane(a, b)->0.normal.y,
        separating_plane(b, a)->0.normal.z == -separating_plane(a, b)->0.normal.z,
{
    crate::shared::math::lemma_dist_sq_symmetric(a.position, b.position);
    lemma_distinct_points_apart(a.position, b.position);
    let dist: int = sqrt_floor(dist_sq(a.position, b.position));
    let ra: int = a.radius as int;
    let rb: int = b.radius as int;
    assert((ra + rb) * (ra + rb) == (rb + ra) * (rb + ra));
    lemma_split_coordinate_symmetric(a.position.x as int, b.position.x as int, ra, rb, dist);
    lemma_split_coordinate_symmetric(a.position.y as int, b.position.y as int, ra, rb, dist);
    lemma_split_coordinate_symmetric(a.position.z as int, b.position.z as int, ra, rb, dist);
    crate::shared::math::lemma_component_within_distance(
        b.position.x - a.position.x,
        b.position.y - a.position.y,
        b.position.z - a.position.z,
        dist,
    );
    crate::shared::math::lemma_unit_component_bound(b.position.x - a.position.x, dist);
    crate::shared::math::lemma_unit_component_bound(b.position.y - a.position.y, dist);
    crate::shared::math::lemma_unit_component_bound(b.position.z - a.position.z, dist);
}

/// The scalar `c` lies between `a` and `b`, ends included.
pub open spec fn lies_between(c: int, a: int, b: int) -> bool {
    (a <= c <= b) || (b <= c <= a)
}

/// Calculates the middle of the overlap of two cells with different centres,
/// on the straight line between the centres: no coordinate of it lies
/// outside of the centres' coordinates.
pub fn between_depending_on_radius(cell1: &CellInformation, cell2: &CellInformation) -> (p: Point3)
    requires
        cell1.wf(),
        cell2.wf(),
        cell1.position != cell2.position,
    ensures
        p == split_point(*cell1, *cell2),
        p.in_bounds(),
        lies_between(p.x as int, cell1.position.x as int, cell2.position.x as int),
        lies_between(p.y as int, cell1.position.y as int, cell2.position.y as int),
        lies_between(p.z as int, cell1.position.z as int, cell2.position.z as int),
{
    let dist: i64 = distance(&cell1.position, &cell2.position);
    proof {
        lemma_distinct_points_apart(cell1.position, cell2.position);
    }
    let mut radius_capped1: i64 = cell1.radius;
    let mut radius_capped2: i64 = cell2.radius;
    if radius_capped1 > dist {
        radius_capped1 = dist;
    }
    if radius_capped2 > dist {
        radius_capped2 = dist;
    }
    let weight: i64 = radius_capped2 - radius_capped1 + dist;
    Point3 {
        x: split_axis(cell1.position.x, cell2.position.x, weight, dist),
        y: split_axis(cell1.position.y, cell2.position.y, weight, dist),
        z: split_axis(cell1.position.z, cell2.position.z, weight, dist),
    }
}

fn split_axis(c1: i64, c2: i64, weight: i64, dist: i64) -> (c: i64)
    requires
        crate::shared::fixed::in_limit(c1 as int),
        crate::shared::fixed::in_limit(c2 as int),
        0 < dist <= 4 * LIMIT,
        0 <= weight <= 2 * dist,
    ensures
        c == split_coordinate(c1 as int, c2 as int, weight as int, dist as int),
        crate::shared::fixed::in_limit(c as int),
        lies_between(c as int, c1 as int, c2 as int),
{
    let delta: i64 = c1 - c2;
    proof {
        lemma_share_between(weight as int, delta as int, dist as int);
        lemma_mul_bound(weight as int, delta as int, 8_000_000_000_000, 2_000_000_000_000);
    }
    let q: i128 = div_floor(mul_wide(weight, delta), 2 * (dist as i128));
    (c2 as i128 + q) as i64
}

/// Two classifications lie on opposite sides of a plane: they differ and
/// neither touches the plane.
pub open spec fn opposite_sides(
    a: Point2PlaneClassification,
    b: Point2PlaneClassification,
) -> bool {
    a != b && a != Point2PlaneClassification::Intersects && b
        != Point2PlaneClassification::Intersects
}

/// One coordinate of a point moved onto a plane along the plane's normal:
/// the coordinate less the signed distance times the normal's component.
pub open spec fn moved_coordinate(c: int, dist: int, normal: int) -> int {
    c - dist * normal / (SCALE as int)
}

/// The three coordinates are within twice the limit.
pub open spec fn reachable(x: int, y: int, z: int) -> bool {
    &&& -2 * LIMIT <= x <= 2 * LIMIT
    &&& -2 * LIMIT <= y <= 2 * LIMIT
    &&& -2 * LIMIT <= z <= 2 * LIMIT
}

/// The point moved onto the plane by exactly its signed distance, or nothing
/// where that leaves the reach of the geometry.
pub open spec fn moved_onto(point: Point3, plane: Plane) -> Option<Point3> {
    let dist = signed_distance_spec(point, plane);
    let x = moved_coordinate(point.x as int, dist, plane.normal.x as int);
    let y = moved_coordinate(point.y as int, dist, plane.normal.y as int);
    let z = moved_coordinate(point.z as int, dist, plane.normal.z as int);
    if reachable(x, y, z) {
        Some(Point3 { x: x as i64, y: y as i64, z: z as i64 })
    } else {
        None
    }
}

/// The centre and the point are on opposite sides of the plane.
pub open spec fn cut_off(center: Point3, point: Point3, plane: Plane) -> bool {
    opposite_sides(
        classify(signed_distance_spec(center, plane)),
        classify(signed_distance_spec(point, plane)),
    )
}

/// The point clipped at one plane: moved onto the plane if the plane cuts
/// it off from the centre, else left where it is.
pub open spec fn carve_one(center: Point3, point: Point3, plane: Plane) -> Option<Point3> {
    if cut_off(center, point, plane) {
        moved_onto(point, plane)
    } else {
        Some(point)
    }
}

/// The point clipped at each plane in turn, each plane looking at the point
/// as the planes before it left it; nothing once a plane has moved the point
/// out of reach.
pub open spec fn carve(center: Point3, point: Point3, planes: Seq<Plane>) -> Option<Point3>
    decreases planes.len(),
{
    if planes.len() == 0 {
        Some(point)
    } else {
        match carve(center, point, planes.drop_last()) {
            None => None,
            Some(p) => carve_one(center, p, planes.last()),
        }
    }
}

/// A point that no plane cuts off from the centre stays where it is.
pub proof fn lemma_carve_keeps_uncut_point(center: Point3, point: Point3, planes: Seq<Plane>)
    requires
        forall|i: int| 0 <= i < planes.len() ==> !cut_off(center, point, #[trigger] planes[i]),
    ensures
        carve(center, point, planes) == Some(point),
    decreases planes.len(),
{
    if planes.len() > 0 {
        let before = planes.drop_last();
        assert forall|i: int| 0 <= i < before.len() implies !cut_off(
            center,
            point,
            #[trigger] before[i],
        ) by {
            assert(before[i] == planes[i]);
        }
        lemma_carve_keeps_uncut_point(center, point, before);
        assert(!cut_off(center, point, planes[planes.len() - 1]));
    }
}

/// Position and normal of the plane are within bounds.
pub open spec fn plane_wf(plane: Plane) -> bool {
    plane.pos.in_bounds() && plane.normal.in_bounds()
}

/// The planes that separate a cell from those of `others` that have one, in
/// the order of `others`.
pub open spec fn separating_planes(cell: CellInformation, others: Seq<CellInformation>) -> Seq<
    Plane,
>
    decreases others.len(),
{
    if others.len() == 0 {
        Seq::empty()
    } else {
        let before = separating_planes(cell, others.drop_last());
        match separating_plane(cell, others.last()) {
            Some(plane) => before.push(plane),
            None => before,
        }
    }
}

/// The point on the surface of a sphere in the given direction from its
/// centre.
pub open spec fn surface_point(center: Point3, radius: int, dir: Vector3) -> Point3 {
    Point3 {
        x: (center.x + stretch(dir.x as int, radius)) as i64,
        y: (center.y + stretch(dir.y as int, radius)) as i64,
        z: (center.z + stretch(dir.z as int, radius)) as i64,
    }
}

/// The vertex of a cell's mesh in the given direction: the point on the
/// cell's surface in that direction, clipped at the planes that separate the
/// cell from its neighbours; nothing if a plane moves it out of reach.
pub open spec fn mesh_point(
    cell: CellInformation,
    near_cells: Seq<CellInformation>,
    dir: Vector3,
) -> Option<Point3> {
    carve(
        cell.position,
        surface_point(cell.position, cell.radius as int, dir),
        separating_planes(cell, near_cells),
    )
}

/// The number of vertices of the tessellation: one ring of twice the level
/// of detail plus one for each of the level of detail plus one latitudes.
pub open spec fn vertex_count(lod: int) -> int {
    (lod + 1) * (2 * lod + 1)
}

/// The mesh index at position `n`: every field of the latitude-longitude
/// grid contributes two triangles, six indices in all. The field in row `i`
/// and column `j` has the corners `first = i * (2 * lod + 1) + j` and
/// `second = first + 2 * lod + 1` and their right-hand neighbours.
pub open spec fn index_at(lod: int, n: int) -> int {
    let field = n / 6;
    let i = field / (2 * lod);
    let j = field % (2 * lod);
    let first = i * (2 * lod + 1) + j;
    let second = first + 2 * lod + 1;
    let corner = n % 6;
    if corner == 0 {
        first
    } else if corner == 1 {
        second
    } else if corner == 2 {
        first + 1
    } else if corner == 3 {
        second
    } else if corner == 4 {
        second + 1
    } else {
        first + 1
    }
}

/// The triangles of the tessellation of a sphere, as indices into its
/// vertices.
pub fn sphere_indices(lod: u16) -> (indices: Vec<u16>)
    requires
        lod <= MAX_LOD,
    ensures
        indices@.len() == 6 * (lod * (2 * lod)),
        forall|n: int| 0 <= n < indices@.len() ==> #[trigger] indices@[n] == index_at(lod as int, n),
        forall|n: int| 0 <= n < indices@.len() ==> (#[trigger] indices@[n]) < vertex_count(lod as int),
{
    let sector_count: u16 = lod * 2;
    let stack_count: u16 = lod;
    let mut indices: Vec<u16> = Vec::new();
    let mut i: u16 = 0;
    while i < stack_count
        invariant
            lod <= MAX_LOD,
            sector_count == 2 * lod,
            stack_count == lod,
            i <= stack_count,
            indices@.len() == 6 * (i * sector_count),
            forall|n: int|
                0 <= n < indices@.len() ==> #[trigger] indices@[n] == index_at(lod as int, n),
            forall|n: int|
                0 <= n < indices@.len() ==> (#[trigger] indices@[n]) < vertex_count(lod as int),
        decreases stack_count - i,
    {
        let mut j: u16 = 0;
        while j < sector_count
            invariant
                lod <= MAX_LOD,
                sector_count == 2 * lod,
                stack_count == lod,
                i < stack_count,
                j <= sector_count,
                indices@.len() == 6 * (i * sector_count + j),
                forall|n: int|
                    0 <= n < indices@.len() ==> #[trigger] indices@[n] == index_at(lod as int, n),
                forall|n: int|
                    0 <= n < indices@.len() ==> (#[trigger] indices@[n]) < vertex_count(
                        lod as int,
                    ),
            decreases sector_count - j,
        {
            proof {
                lemma_field_corners(lod as int, i as int, j as int);
            }
            let first: u16 = i * (sector_count + 1) + j;
            let second: u16 = first + sector_count + 1;
            let ghost base = indices@.len() as int;
            let ghost old_indices = indices@;
            indices.push(first);
            indices.push(second);
            indices.push(first + 1);
            indices.push(second);
            indices.push(second + 1);
            indices.push(first + 1);
            proof {
                let field: int = i * sector_count + j;
                assert(base == 6 * field);
                assert forall|n: int| 0 <= n < indices@.len() implies #[trigger] indices@[n]
                    == index_at(lod as int, n) && indices@[n] < vertex_count(lod as int) by {
                    if n < base {
                        assert(indices@[n] == old_indices[n]);
                    } else {
                        assert(n / 6 == field);
                        assert(n % 6 == n - base);
                    }
                }
            }
            j = j + 1;
        }
        proof {
            assert(i * sector_count + sector_count == (i + 1) * sector_count) by (nonlinear_arith);
        }
        i = i + 1;
    }
    proof {
        assert(lod * sector_count == lod * (2 * lod)) by (nonlinear_arith)
            requires
                sector_count == 2 * lod,
        ;
    }
    indices
}

/// The corners of the field in row `i` and column `j` are vertices, and the
/// field's number gives back its row and column.
proof fn lemma_field_corners(lod: int, i: int, j: int)
    requires
        0 <= i < lod <= MAX_LOD,
        0 <= j < 2 * lod,
    ensures
        (i * (2 * lod) + j) / (2 * lod) == i,
        (i * (2 * lod) + j) % (2 * lod) == j,
        0 <= i * (2 * lod + 1) + j,
        i * (2 * lod + 1) + j + 2 * lod + 2 < vertex_count(lod),
        vertex_count(lod) <= 65341,
        0 <= i * (2 * lod) + j < lod * (2 * lod),
{
    vstd::arithmetic::div_mod::lemma_fundamental_div_mod_converse(
        i * (2 * lod) + j,
        2 * lod,
        i,
        j,
    );
    assert(i * (2 * lod + 1) + j + 2 * lod + 2 < (lod + 1) * (2 * lod + 1) && 0 <= i * (2 * lod
        + 1) + j && i * (2 * lod) + j < lod * (2 * lod) && 0 <= i * (2 * lod) + j)
        by (nonlinear_arith)
        requires
            0 <= i < lod,
            0 <= j < 2 * lod,
    ;
    assert((lod + 1) * (2 * lod + 1) <= 65341) by (nonlinear_arith)
        requires
            0 <= lod <= 180,
    ;
}

impl CellRenderer {
    /// The geometry of the drawn cell.
    pub open spec fn info(self) -> CellInformation {
        CellInformation {
            id: self.spec_cell_id(),
            position: self.spec_position(),
            radius: self.spec_radius(),
        }
    }

    pub closed spec fn spec_cell_id(self) -> u64 {
        self.cell_id
    }

    pub closed spec fn spec_position(self) -> Point3 {
        self.position
    }

    pub closed spec fn spec_radius(self) -> i64 {
        self.radius
    }

    pub closed spec fn spec_marked(self) -> bool {
        self.marked
    }

    pub closed spec fn spec_vertices(self) -> Seq<Vertex> {
        self.vertices@
    }

    pub closed spec fn spec_indices(self) -> Seq<u16> {
        self.indices@
    }

    /// The colour in which the cell is drawn.
    pub open spec fn color(self) -> Color {
        if self.spec_marked() {
            yellow()
        } else {
            white()
        }
    }

    /// A renderer for a cell of the given volume, unmarked and without a
    /// mesh.
    pub fn new(position: &Point3, volume: &i64, id: u64) -> (renderer: CellRenderer)
        requires
            *volume >= 0,
        ensures
            renderer.spec_cell_id() == id,
            renderer.spec_position() == *position,
            renderer.spec_radius() == sphere_radius(*volume as int),
            !renderer.spec_marked(),
            renderer.spec_vertices().len() == 0,
            renderer.spec_indices().len() == 0,
    {
        CellRenderer {
            marked: false,
            radius: radius_from_volume(*volume),
            position: *position,
            vertices: Vec::new(),
            indices: Vec::new(),
            cell_id: id,
        }
    }

    pub fn position(&self) -> (p: &Point3)
        ensures
            *p == self.spec_position(),
    {
        &self.position
    }

    pub fn position_clone(&self) -> (p: Point3)
        ensures
            p == self.spec_position(),
    {
        self.position
    }

    pub fn radius(&self) -> (r: &i64)
        ensures
            *r == self.spec_radius(),
    {
        &self.radius
    }

    pub fn radius_clone(&self) -> (r: i64)
        ensures
            r == self.spec_radius(),
    {
        self.radius
    }

    pub fn vertices(&self) -> (v: &Vec<Vertex>)
        ensures
            v@ == self.spec_vertices(),
    {
        &self.vertices
    }

    pub fn indices(&self) -> (i: &Vec<u16>)
        ensures
            i@ == self.spec_indices(),
    {
        &self.indices
    }

    pub fn cell_id(&self) -> (id: u64)
        ensures
            id == self.spec_cell_id(),
    {
        self.cell_id
    }

    pub fn is_marked(&self) -> (m: bool)
        ensures
            m == self.spec_marked(),
    {
        self.marked
    }

    /// Takes note of an event. An event for another cell changes nothing. A
    /// new position is taken over, a new volume sets the radius, and a mark
    /// is set as given or, with nothing given, toggled.
    pub fn handle_events(&mut self, event: &CellEvent)
        requires
            event.event_type matches CellEventType::UpdateVolume(v) ==> v >= 0,
        ensures
            final(self).spec_vertices() == old(self).spec_vertices(),
            final(self).spec_indices() == old(self).spec_indices(),
            (final(self).info(), final(self).spec_marked()) == after_event(
                old(self).info(),
                old(self).spec_marked(),
                *event,
            ),
    {
        if event.id == self.cell_id {
            match event.event_type {
                CellEventType::UpdatePosition(new_pos) => {
                    self.position = new_pos;
                },
                CellEventType::UpdateVolume(new_volume) => {
                    self.radius = radius_from_volume(new_volume);
                },
                CellEventType::Mark(new_marked) => match new_marked {
                    None => {
                        self.marked = !self.marked;
                    },
                    Some(m) => {
                        self.marked = m;
                    },
                },
            }
        }
    }

    /// Returns nothing if `other` is this cell, does not overlap it or has
    /// the same centre; otherwise the plane that divides the two cells
    /// fairly.
    pub fn try_create_intersection_plane(&self, other: &CellInformation) -> (plane: Option<Plane>)
        requires
            self.info().wf(),
            other.wf(),
        ensures
            plane == separating_plane(self.info(), *other),
            plane is Some ==> plane_wf(plane->0) && plane->0.normal.is_direction(),
    {
        if other.id == self.cell_id {
            return None;
        }
        if !intersect(self, other) {
            return None;
        }
        if self.position.x == other.position.x && self.position.y == other.position.y
            && self.position.z == other.position.z {
            return None;
        }
        Some(self.create_intersection_plane(other))
    }

    /// The plane that separates this cell fairly from another that overlaps
    /// it around another centre.
    pub fn create_intersection_plane(&self, other: &CellInformation) -> (plane: Plane)
        requires
            self.info().wf(),
            other.wf(),
            self.spec_position() != other.position,
        ensures
            plane.pos.as_point() == split_point(self.info(), *other),
            plane.normal == direction_spec(self.spec_position(), other.position),
            plane_wf(plane),
            plane.normal.is_direction(),
            lies_between(plane.pos.x as int, self.spec_position().x as int, other.position.x as int),
            lies_between(plane.pos.y as int, self.spec_position().y as int, other.position.y as int),
            lies_between(plane.pos.z as int, self.spec_position().z as int, other.position.z as int),
    {
        let self_as_ci: CellInformation = CellInformation {
            id: self.cell_id,
            position: self.position,
            radius: self.radius,
        };
        let middle: Point3 = between_depending_on_radius(&self_as_ci, other);
        let normal: Vector3 = direction(&self.position, &other.position);
        Plane { pos: Vector3 { x: middle.x, y: middle.y, z: middle.z }, normal }
    }

    /// Looks at the planes that divide this cell from its neighbours, one
    /// after the other: a vertex on the same side of a plane as the centre
    /// stays, any other is moved onto the plane. Returns nothing if a plane
    /// moves the vertex out of reach.
    pub fn get_rid_of_intersections(&self, vertex: Vertex, planes: &Vec<Plane>) -> (carved: Option<
        Vertex,
    >)
        requires
            self.spec_position().in_bounds(),
            vertex.position.within_reach(),
            forall|i: int| 0 <= i < planes@.len() ==> plane_wf(#[trigger] planes@[i]),
        ensures
            carved == match carve(self.spec_position(), vertex.position, planes@) {
                Some(p) => Some(Vertex { position: p, color: vertex.color }),
                None => None,
            },
    {
        let mut current: Vertex = vertex;
        let n: usize = planes.len();
        let mut i: usize = 0;
        while i < n
            invariant
                n == planes@.len(),
                i <= n,
                self.spec_position().in_bounds(),
                current.position.within_reach(),
                current.color == vertex.color,
                forall|k: int| 0 <= k < planes@.len() ==> plane_wf(#[trigger] planes@[k]),
                carve(self.spec_position(), vertex.position, planes@.subrange(0, i as int)) == Some(
                    current.position,
                ),
            decreases n - i,
        {
            let plane: &Plane = &planes[i];
            proof {
                assert(planes@.subrange(0, i + 1).drop_last() =~= planes@.subrange(0, i as int));
                assert(planes@.subrange(0, i + 1).last() == planes@[i as int]);
                assert(plane_wf(planes@[i as int]));
            }
            let class_cell: Point2PlaneClassification = classify_distance(
                signed_distance(&self.position, plane),
            );
            let class_vertex: Point2PlaneClassification = classify_distance(
                signed_distance(&current.position, plane),
            );
            if class_cell != class_vertex && class_cell != Point2PlaneClassification::Intersects
                && class_vertex != Point2PlaneClassification::Intersects {
                match self.move_vertex_towards_plane(current, plane) {
                    Some(moved) => {
                        current = moved;
                    },
                    None => {
                        proof {
                            let sub = planes@.subrange(0, i + 1);
                            assert(sub.drop_last() =~= planes@.subrange(0, i as int));
                            assert(sub.last() == planes@[i as int]);
                            assert(cut_off(
                                self.spec_position(),
                                current.position,
                                planes@[i as int],
                            ));
                            assert(carve_one(
                                self.spec_position(),
                                current.position,
                                planes@[i as int],
                            ) is None);
                            assert(carve(self.spec_position(), vertex.position, sub) is None);
                            lemma_carve_stays_lost(
                                self.spec_position(),
                                vertex.position,
                                planes@,
                                i + 1,
                            );
                        }
                        return None;
                    },
                }
            }
            i = i + 1;
        }
        proof {
            assert(planes@.subrange(0, n as int) =~= planes@);
        }
        Some(current)
    }

    /// Moves a vertex onto a plane along the plane's normal, by exactly its
    /// signed distance. Returns nothing if that leaves the reach of the
    /// geometry.
    pub fn move_vertex_towards_plane(&self, vertex: Vertex, plane: &Plane) -> (moved: Option<
        Vertex,
    >)
        requires
            vertex.position.within_reach(),
            plane_wf(*plane),
        ensures
            moved == match moved_onto(vertex.position, *plane) {
                Some(p) => Some(Vertex { position: p, color: vertex.color }),
                None => None,
            },
    {
        let dist: i64 = signed_distance(&vertex.position, plane);
        let x: i128 = move_axis(vertex.position.x, dist, plane.normal.x);
        let y: i128 = move_axis(vertex.position.y, dist, plane.normal.y);
        let z: i128 = move_axis(vertex.position.z, dist, plane.normal.z);
        let reach: i128 = 2 * (LIMIT as i128);
        if -reach <= x && x <= reach && -reach <= y && y <= reach && -reach <= z && z <= reach {
            Some(
                Vertex {
                    position: Point3 { x: x as i64, y: y as i64, z: z as i64 },
                    color: vertex.color,
                },
            )
        } else {
            None
        }
    }

    /// Builds the mesh of the cell anew. Each direction of `unit_sphere` gives
    /// one vertex: the point on the cell's surface in that direction, clipped
    /// at the planes that separate the cell from its neighbours. Returns
    /// whether every vertex stayed within reach; if not, the mesh is left
    /// empty.
    pub fn update(
        &mut self,
        lod: u16,
        near_cells: &Vec<CellInformation>,
        unit_sphere: &Vec<Vector3>,
    ) -> (complete: bool)
        requires
            old(self).info().wf(),
            lod <= MAX_LOD,
            unit_sphere@.len() == vertex_count(lod as int),
            forall|i: int| 0 <= i < unit_sphere@.len() ==> (#[trigger] unit_sphere@[i]).is_direction(),
            forall|i: int| 0 <= i < near_cells@.len() ==> (#[trigger] near_cells@[i]).wf(),
        ensures
            final(self).info() == old(self).info(),
            final(self).spec_marked() == old(self).spec_marked(),
            complete <==> forall|i: int|
                0 <= i < unit_sphere@.len() ==> mesh_point(
                    old(self).info(),
                    near_cells@,
                    #[trigger] unit_sphere@[i],
                ) is Some,
            complete ==> final(self).spec_vertices().len() == unit_sphere@.len(),
            complete ==> forall|i: int|
                0 <= i < unit_sphere@.len() ==> Some(
                    (#[trigger] final(self).spec_vertices()[i]).position,
                ) == mesh_point(old(self).info(), near_cells@, unit_sphere@[i]) && final(self).spec_vertices()[i].color == old(self).color(),
            complete ==> final(self).spec_indices().len() == 6 * (lod * (2 * lod)),
            complete ==> forall|n: int|
                0 <= n < final(self).spec_indices().len() ==> #[trigger] final(self).spec_indices()[n] == index_at(lod as int, n),
            !complete ==> final(self).spec_vertices().len() == 0,
            !complete ==> final(self).spec_indices().len() == 0,
    {
        self.vertices = Vec::new();
        self.indices = Vec::new();
        let planes: Vec<Plane> = self.planes_against(near_cells);
        let color: Color = if self.marked {
            Color { red: SCALE, green: SCALE, blue: 0 }
        } else {
            Color { red: SCALE, green: SCALE, blue: SCALE }
        };
        let mut vertices: Vec<Vertex> = Vec::new();
        let n: usize = unit_sphere.len();
        let mut i: usize = 0;
        while i < n
            invariant
                n == unit_sphere@.len(),
                i <= n,
                self.info() == old(self).info(),
                self.spec_marked() == old(self).spec_marked(),
                self.spec_vertices().len() == 0,
                self.spec_indices().len() == 0,
                self.info().wf(),
                color == self.color(),
                planes@ == separating_planes(self.info(), near_cells@),
                forall|k: int| 0 <= k < planes@.len() ==> plane_wf(#[trigger] planes@[k]),
                forall|k: int|
                    0 <= k < unit_sphere@.len() ==> (#[trigger] unit_sphere@[k]).is_direction(),
                vertices@.len() == i,
                forall|k: int|
                    0 <= k < i ==> carve(
                        self.spec_position(),
                        surface_point(
                            self.spec_position(),
                            self.spec_radius() as int,
                            #[trigger] unit_sphere@[k],
                        ),
                        planes@,
                    ) == Some(vertices@[k].position) && vertices@[k].color == color,
            decreases n - i,
        {
            let dir: Vector3 = unit_sphere[i];
            let raw: Vertex = Vertex {
                position: Point3 {
                    x: self.position.x + stretch_axis(dir.x, self.radius),
                    y: self.position.y + stretch_axis(dir.y, self.radius),
                    z: self.position.z + stretch_axis(dir.z, self.radius),
                },
                color,
            };
            proof {
                lemma_stretch_within(dir.x as int, self.radius as int);
                lemma_stretch_within(dir.y as int, self.radius as int);
                lemma_stretch_within(dir.z as int, self.radius as int);
            }
            match self.get_rid_of_intersections(raw, &planes) {
                Some(vertex) => {
                    vertices.push(vertex);
                },
                None => {
                    return false;
                },
            }
            i = i + 1;
        }
        self.vertices = vertices;
        self.indices = sphere_indices(lod);
        true
    }

    /// The planes that separate this cell from those of the given cells that
    /// overlap it.
    pub fn planes_against(&self, near_cells: &Vec<CellInformation>) -> (planes: Vec<Plane>)
        requires
            self.info().wf(),
            forall|i: int| 0 <= i < near_cells@.len() ==> (#[trigger] near_cells@[i]).wf(),
        ensures
            planes@ == separating_planes(self.info(), near_cells@),
            forall|k: int|
                0 <= k < planes@.len() ==> plane_wf(#[trigger] planes@[k])
                    && planes@[k].normal.is_direction(),
    {
        let mut planes: Vec<Plane> = Vec::new();
        let n: usize = near_cells.len();
        let mut i: usize = 0;
        while i < n
            invariant
                n == near_cells@.len(),
                i <= n,
                self.info().wf(),
                forall|k: int| 0 <= k < near_cells@.len() ==> (#[trigger] near_cells@[k]).wf(),
                planes@ == separating_planes(self.info(), near_cells@.subrange(0, i as int)),
                forall|k: int|
                    0 <= k < planes@.len() ==> plane_wf(#[trigger] planes@[k])
                        && planes@[k].normal.is_direction(),
            decreases n - i,
        {
            proof {
                assert(near_cells@.subrange(0, i + 1).drop_last() =~= near_cells@.subrange(
                    0,
                    i as int,
                ));
                assert(near_cells@.subrange(0, i + 1).last() == near_cells@[i as int]);
            }
            let plane: Option<Plane> = self.try_create_intersection_plane(&near_cells[i]);
            match plane {
                Some(p) => {
                    planes.push(p);
                },
                None => {},
            }
            i = i + 1;
        }
        proof {
            assert(near_cells@.subrange(0, n as int) =~= near_cells@);
        }
        planes
    }
}

/// A direction stretched by a radius within the limit stays within the
/// limit.
proof fn lemma_stretch_within(dir: int, radius: int)
    requires
        -SCALE <= dir <= SCALE,
        0 <= radius <= LIMIT,
    ensures
        -LIMIT <= stretch(dir, radius) <= LIMIT,
{
    lemma_mul_bound(dir, radius, SCALE as int, LIMIT as int);
    assert(SCALE * LIMIT == LIMIT * SCALE) by (nonlinear_arith);
    lemma_div_floor_bound(dir * radius, SCALE as int, LIMIT as int);
}

/// Once a plane has moved the point out of reach, no later plane brings it
/// back.
proof fn lemma_carve_stays_lost(center: Point3, point: Point3, planes: Seq<Plane>, upto: int)
    requires
        0 <= upto <= planes.len(),
        carve(center, point, planes.subrange(0, upto)) is None,
    ensures
        carve(center, point, planes) is None,
    decreases planes.len() - upto,
{
    if upto < planes.len() {
        assert(planes.subrange(0, upto + 1).drop_last() =~= planes.subrange(0, upto));
        lemma_carve_stays_lost(center, point, planes, upto + 1);
    } else {
        assert(planes.subrange(0, upto) =~= planes);
    }
}

fn move_axis(c: i64, dist: i64, normal: i64) -> (m: i128)
    requires
        -2 * LIMIT <= c <= 2 * LIMIT,
        crate::shared::fixed::in_limit(normal as int),
    ensures
        m == moved_coordinate(c as int, dist as int, normal as int),
{
    proof {
        lemma_mul_bound(dist as int, normal as int, 0x8000_0000_0000_0000, 1_000_000_000_000);
        lemma_div_floor_bound(dist * normal, SCALE as int, 9_223_372_036_854_775_808_000_000int);
    }
    let q: i128 = div_floor(mul_wide(dist, normal), SCALE as i128);
    c as i128 - q
}

/// Tells whether the centre of the drawn cell and the centre of another cell
/// are closer than the sum of the radii.
pub fn intersect(cell1: &CellRenderer, cell2: &CellInformation) -> (b: bool)
    requires
        cell1.info().wf(),
        cell2.wf(),
    ensures
        b == overlaps(cell1.info(), *cell2),
{
    let as_ci: CellInformation = CellInformation {
        id: cell1.cell_id(),
        position: cell1.position_clone(),
        radius: cell1.radius_clone(),
    };
    overlap(&as_ci, cell2)
}

} // verus!
