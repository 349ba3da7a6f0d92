use plant_simulation::engine::cell_renderer::{
    between_depending_on_radius, intersect, sphere_indices, CellEvent, CellEventType,
    CellRenderer, Color, Vertex,
};
use plant_simulation::shared::cell::CellInformation;
use plant_simulation::shared::math::{Plane, Vector3};
use plant_simulation::shared::point::Point3;

const ONE: i64 = 1_000_000;
const UNIT_VOLUME: i64 = 4_188_791;

fn cell(id: u64, x: i64, y: i64, z: i64, radius: i64) -> CellInformation {
    CellInformation { id, position: Point3::new(x, y, z), radius }
}

fn renderer(id: u64, x: i64, y: i64, z: i64) -> CellRenderer {
    CellRenderer::new(&Point3::new(x, y, z), &UNIT_VOLUME, id)
}

fn white() -> Color {
    Color { red: ONE, green: ONE, blue: ONE }
}

fn vertex(x: i64, y: i64, z: i64) -> Vertex {
    Vertex { position: Point3::new(x, y, z), color: white() }
}

fn plane(px: i64, nx: i64) -> Plane {
    Plane { pos: Vector3 { x: px, y: 0, z: 0 }, normal: Vector3 { x: nx, y: 0, z: 0 } }
}

#[test]
fn new_renderer_has_the_radius_of_its_volume() {
    let r = renderer(7, 1, 2, 3);
    assert_eq!(r.cell_id(), 7);
    assert_eq!(r.position_clone(), Point3::new(1, 2, 3));
    assert_eq!(*r.position(), Point3::new(1, 2, 3));
    assert_eq!(r.radius_clone(), ONE);
    assert_eq!(*r.radius(), ONE);
    assert!(!r.is_marked());
    assert!(r.vertices().is_empty());
    assert!(r.indices().is_empty());
}

#[test]
fn events_for_the_cell_change_it() {
    let mut r = renderer(7, 0, 0, 0);
    r.handle_events(&CellEvent {
        id: 7,
        event_type: CellEventType::UpdatePosition(Point3::new(5, 6, 7)),
    });
    assert_eq!(r.position_clone(), Point3::new(5, 6, 7));
    r.handle_events(&CellEvent { id: 7, event_type: CellEventType::UpdateVolume(20 * ONE) });
    assert_eq!(r.radius_clone(), 1_683_890);
    r.handle_events(&CellEvent { id: 7, event_type: CellEventType::Mark(None) });
    assert!(r.is_marked());
    r.handle_events(&CellEvent { id: 7, event_type: CellEventType::Mark(None) });
    assert!(!r.is_marked());
    r.handle_events(&CellEvent { id: 7, event_type: CellEventType::Mark(Some(true)) });
    assert!(r.is_marked());
    r.handle_events(&CellEvent { id: 7, event_type: CellEventType::Mark(Some(false)) });
    assert!(!r.is_marked());
}

#[test]
fn events_for_other_cells_change_nothing() {
    let mut r = renderer(7, 0, 0, 0);
    r.handle_events(&CellEvent {
        id: 8,
        event_type: CellEventType::UpdatePosition(Point3::new(5, 6, 7)),
    });
    r.handle_events(&CellEvent { id: 8, event_type: CellEventType::UpdateVolume(20 * ONE) });
    r.handle_events(&CellEvent { id: 8, event_type: CellEventType::Mark(Some(true)) });
    assert_eq!(r.position_clone(), Point3::new(0, 0, 0));
    assert_eq!(r.radius_clone(), ONE);
    assert!(!r.is_marked());
}

#[test]
fn no_plane_against_itself_a_distant_or_a_coinciding_cell() {
    let r = renderer(1, 0, 0, 0);
    assert_eq!(r.try_create_intersection_plane(&cell(1, 500_000, 0, 0, ONE)), None);
    assert_eq!(r.try_create_intersection_plane(&cell(2, 2 * ONE, 0, 0, ONE)), None);
    assert_eq!(r.try_create_intersection_plane(&cell(2, 3 * ONE, 0, 0, ONE)), None);
    assert_eq!(r.try_create_intersection_plane(&cell(2, 0, 0, 0, ONE)), None);
    assert!(!intersect(&r, &cell(2, 2 * ONE, 0, 0, ONE)));
    assert!(intersect(&r, &cell(2, 1_999_999, 0, 0, ONE)));
}

#[test]
fn equal_cells_are_split_in_the_middle() {
    let r = renderer(1, 0, 0, 0);
    let plane = r.try_create_intersection_plane(&cell(2, 1_500_000, 0, 0, ONE));
    assert_eq!(
        plane,
        Some(Plane {
            pos: Vector3 { x: 750_000, y: 0, z: 0 },
            normal: Vector3 { x: ONE, y: 0, z: 0 },
        })
    );
}

#[test]
fn the_larger_cell_gets_the_larger_share() {
    let big = cell(1, 0, 0, 0, ONE);
    let small = cell(2, ONE, 0, 0, 500_000);
    assert_eq!(between_depending_on_radius(&big, &small), Point3::new(750_000, 0, 0));
    assert_eq!(between_depending_on_radius(&small, &big), Point3::new(750_000, 0, 0));
}

#[test]
fn separating_planes_of_a_pair_share_their_anchor() {
    let a = cell(1, 0, 0, 0, 800_000);
    let b = cell(2, 700_001, 300_000, -100_000, 600_000);
    let ra = CellRenderer::new(&a.position, &2_144_661, 1);
    let rb = CellRenderer::new(&b.position, &904_779, 2);
    let a_seen = CellInformation { id: 1, position: a.position, radius: ra.radius_clone() };
    let b_seen = CellInformation { id: 2, position: b.position, radius: rb.radius_clone() };
    let from_a = ra.try_create_intersection_plane(&b_seen).expect("the cells overlap");
    let from_b = rb.try_create_intersection_plane(&a_seen).expect("the cells overlap");
    assert_eq!(from_a.pos, from_b.pos);
    assert_eq!(from_a.normal.x, -from_b.normal.x);
    assert_eq!(from_a.normal.y, -from_b.normal.y);
    assert_eq!(from_a.normal.z, -from_b.normal.z);
    assert_eq!(
        between_depending_on_radius(&a, &b),
        Point3::new(426_604, 182_830, -60_944)
    );
    assert_eq!(between_depending_on_radius(&b, &a), between_depending_on_radius(&a, &b));
}

#[test]
fn carve_keeps_points_on_the_side_of_the_centre() {
    let r = renderer(1, 0, 0, 0);
    let planes = vec![plane(750_000, ONE), plane(-750_000, -ONE)];
    for v in [vertex(0, ONE, 0), vertex(700_000, 0, 0), vertex(-749_999, 5, 5), vertex(0, 0, 0)] {
        assert_eq!(r.get_rid_of_intersections(v, &planes), Some(v));
    }
    assert_eq!(r.get_rid_of_intersections(vertex(ONE, 0, 0), &vec![]), Some(vertex(ONE, 0, 0)));
}

#[test]
fn carve_moves_cut_off_points_onto_the_plane() {
    let r = renderer(1, 0, 0, 0);
    let planes = vec![plane(750_000, ONE)];
    assert_eq!(
        r.get_rid_of_intersections(vertex(ONE, 200_000, -3), &planes),
        Some(vertex(750_000, 200_000, -3))
    );
    assert_eq!(
        r.move_vertex_towards_plane(vertex(ONE, 200_000, -3), &planes[0]),
        Some(vertex(750_000, 200_000, -3))
    );
    // a point on the plane counts as on the side of the centre
    assert_eq!(
        r.get_rid_of_intersections(vertex(750_000, 1, 1), &planes),
        Some(vertex(750_000, 1, 1))
    );
}

#[test]
fn carve_applies_each_plane_to_the_moved_point() {
    let r = renderer(1, 0, 0, 0);
    let diagonal = Plane {
        pos: Vector3 { x: 0, y: 500_000, z: 0 },
        normal: Vector3 { x: 0, y: ONE, z: 0 },
    };
    let planes = vec![plane(750_000, ONE), diagonal];
    assert_eq!(
        r.get_rid_of_intersections(vertex(ONE, ONE, 0), &planes),
        Some(vertex(750_000, 500_000, 0))
    );
}

#[test]
fn carve_gives_up_on_points_out_of_reach() {
    let r = renderer(1, 0, 0, 0);
    // a normal a million times too long throws the point far away
    let wild = Plane {
        pos: Vector3 { x: 750_000, y: 0, z: 0 },
        normal: Vector3 { x: 1_000_000_000_000, y: 0, z: 0 },
    };
    assert_eq!(r.get_rid_of_intersections(vertex(ONE, 0, 0), &vec![wild]), None);
    assert_eq!(r.move_vertex_towards_plane(vertex(ONE, 0, 0), &wild), None);
}

#[test]
fn indices_of_the_coarsest_sphere() {
    assert_eq!(sphere_indices(0), Vec::<u16>::new());
    assert_eq!(sphere_indices(1), vec![0, 3, 1, 3, 4, 1, 1, 4, 2, 4, 5, 2]);
    let fine = sphere_indices(20);
    assert_eq!(fine.len(), 6 * 20 * 40);
    assert_eq!(*fine.iter().max().unwrap(), 21 * 41 - 1);
    // the field in row 3 and column 5
    let at = 6 * (3 * 40 + 5);
    assert_eq!(&fine[at..at + 6], &[128, 169, 129, 169, 170, 129]);
}

#[test]
fn update_builds_a_clipped_mesh() {
    let mut r = renderer(1, 0, 0, 0);
    r.handle_events(&CellEvent { id: 1, event_type: CellEventType::Mark(Some(true)) });
    let near = vec![cell(2, 1_500_000, 0, 0, ONE), cell(3, 0, 5 * ONE, 0, ONE)];
    let unit_sphere = vec![
        Vector3 { x: 0, y: 0, z: ONE },
        Vector3 { x: ONE, y: 0, z: 0 },
        Vector3 { x: 0, y: ONE, z: 0 },
        Vector3 { x: -ONE, y: 0, z: 0 },
        Vector3 { x: 600_000, y: 800_000, z: 0 },
        Vector3 { x: 0, y: 0, z: -ONE },
    ];
    assert!(r.update(1, &near, &unit_sphere));
    let yellow = Color { red: ONE, green: ONE, blue: 0 };
    let positions: Vec<Point3> = r.vertices().iter().map(|v| v.position).collect();
    assert_eq!(
        positions,
        vec![
            Point3::new(0, 0, ONE),
            Point3::new(750_000, 0, 0),
            Point3::new(0, ONE, 0),
            Point3::new(-ONE, 0, 0),
            Point3::new(600_000, 800_000, 0),
            Point3::new(0, 0, -ONE),
        ]
    );
    assert!(r.vertices().iter().all(|v| v.color == yellow));
    assert_eq!(r.indices(), &vec![0, 3, 1, 3, 4, 1, 1, 4, 2, 4, 5, 2]);
    assert_eq!(r.planes_against(&near).len(), 1);
}
