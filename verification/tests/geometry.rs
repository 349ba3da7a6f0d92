use plant_simulation::shared::cell::{core_overlap, overlap, CellInformation};
use plant_simulation::shared::decay::exp_neg;
use plant_simulation::shared::fixed::{div_floor, div_trunc, fixed_mul, icbrt, isqrt};
use plant_simulation::shared::math::{
    direction, distance, line_plane_intersection, mean, point_vs_plane, radius_from_volume,
    signed_distance, stretch_axis, volume_from_radius, Line, Line2PlaneClassification, Plane,
    Point2PlaneClassification, Vector3,
};
use plant_simulation::shared::overlapping_cells::OverlappingCells;
use plant_simulation::shared::point::Point3;
use plant_simulation::model::hormone::Phytohormones;

const ONE: i64 = 1_000_000;

fn cell(id: u64, x: i64, y: i64, z: i64, radius: i64) -> CellInformation {
    CellInformation { id, position: Point3::new(x, y, z), radius }
}

fn plane_x(at: i64) -> Plane {
    Plane { pos: Vector3 { x: at, y: 0, z: 0 }, normal: Vector3 { x: ONE, y: 0, z: 0 } }
}

#[test]
fn floor_and_truncating_division_differ_below_zero() {
    assert_eq!(div_floor(7, 2), 3);
    assert_eq!(div_floor(-7, 2), -4);
    assert_eq!(div_floor(-8, 2), -4);
    assert_eq!(div_trunc(7, 2), 3);
    assert_eq!(div_trunc(-7, 2), -3);
    assert_eq!(div_floor(0, 5), 0);
}

#[test]
fn integer_roots_round_down() {
    assert_eq!(isqrt(0), 0);
    assert_eq!(isqrt(15), 3);
    assert_eq!(isqrt(16), 4);
    assert_eq!(isqrt(u128::MAX), u64::MAX);
    assert_eq!(icbrt(0), 0);
    assert_eq!(icbrt(26), 2);
    assert_eq!(icbrt(27), 3);
    assert_eq!(icbrt(1_000_000_000_000_000_000), 1_000_000);
}

#[test]
fn fixed_point_product_rounds_toward_zero() {
    assert_eq!(fixed_mul(1_500_000, 2_000_000), 3_000_000);
    assert_eq!(fixed_mul(1, 999_999), 0);
    assert_eq!(fixed_mul(-1, 999_999), 0);
    assert_eq!(fixed_mul(-1_500_000, 1_500_001), -2_250_001);
}

#[test]
fn point_set_copies_every_coordinate() {
    let mut p = Point3::new(1, 2, 3);
    p.set(&Point3::new(-4, 5, 6));
    assert_eq!(p, Point3::new(-4, 5, 6));
    assert_eq!(p.to_array(), [-4, 5, 6]);
    assert_eq!(Point3::from([7, 8, 9]), Point3::new(7, 8, 9));
}

#[test]
fn distance_of_a_3_4_12_box_diagonal() {
    let a = Point3::new(0, 0, 0);
    let b = Point3::new(3 * ONE, 4 * ONE, 12 * ONE);
    assert_eq!(distance(&a, &b), 13 * ONE);
    assert_eq!(distance(&b, &a), 13 * ONE);
    assert_eq!(distance(&a, &a), 0);
}

#[test]
fn distance_rounds_down() {
    let a = Point3::new(0, 0, 0);
    let b = Point3::new(ONE, ONE, ONE);
    assert_eq!(distance(&a, &b), 1_732_050);
}

#[test]
fn volume_of_the_unit_sphere() {
    // four thirds of 355/113
    assert_eq!(volume_from_radius(ONE), 4_188_790);
    assert_eq!(volume_from_radius(0), 0);
    assert_eq!(volume_from_radius(-ONE), -4_188_791);
}

#[test]
fn radius_is_the_largest_whose_sphere_fits() {
    assert_eq!(radius_from_volume(4_188_790), 999_999);
    assert_eq!(radius_from_volume(4_188_791), ONE);
    assert_eq!(radius_from_volume(0), 0);
    assert_eq!(radius_from_volume(20 * ONE), 1_683_890);
}

#[test]
fn radius_and_volume_round_trip_within_one_step() {
    for v in [1, 17, 999_999, ONE, 20 * ONE, 123_456_789_012] {
        let r = radius_from_volume(v);
        assert!(volume_from_radius(r) <= v);
        assert!(v <= volume_from_radius(r + 1));
    }
    assert_eq!(volume_from_radius(radius_from_volume(20 * ONE)), 19_999_990);
    assert_eq!(volume_from_radius(radius_from_volume(20 * ONE) + 1), 20_000_026);
}

#[test]
fn round_trip_loses_at_most_a_ten_thousandth_of_a_volume() {
    for v in [30_000, 31_337, 999_999, ONE, 20 * ONE, 123_456_789_012, 1_000_000_000_000] {
        let back = volume_from_radius(radius_from_volume(v));
        assert!(back <= v);
        assert!((v - back) * 10_000 <= v);
    }
    // below three hundredths of a unit the resolution shows
    let back = volume_from_radius(radius_from_volume(17));
    assert!((17 - back) * 10_000 > 17);
}

#[test]
fn mean_of_points_rounds_each_coordinate_down() {
    let points = vec![Point3::new(0, 0, 0), Point3::new(3, -3, 1), Point3::new(4, -4, 1)];
    assert_eq!(mean(&points), Point3::new(2, -3, 0));
    assert_eq!(mean(&vec![Point3::new(5, 6, 7)]), Point3::new(5, 6, 7));
}

#[test]
fn signed_distance_is_positive_in_front_of_the_plane() {
    let plane = plane_x(2 * ONE);
    assert_eq!(signed_distance(&Point3::new(5 * ONE, 9, 9), &plane), 3 * ONE);
    assert_eq!(signed_distance(&Point3::new(-ONE, 0, 0), &plane), -3 * ONE);
    assert_eq!(signed_distance(&Point3::new(2 * ONE, 7 * ONE, 0), &plane), 0);
}

#[test]
fn points_are_classified_by_their_side() {
    let plane = plane_x(0);
    assert!(point_vs_plane(&Point3::new(ONE, 0, 0), &plane) == Point2PlaneClassification::InFront);
    assert!(point_vs_plane(&Point3::new(-ONE, 0, 0), &plane) == Point2PlaneClassification::Behind);
    assert!(
        point_vs_plane(&Point3::new(0, 5 * ONE, 0), &plane) == Point2PlaneClassification::Intersects
    );
}

#[test]
fn line_meets_plane_where_it_crosses() {
    let plane = plane_x(4 * ONE);
    let line = Line {
        pos: Vector3 { x: ONE, y: 2 * ONE, z: 0 },
        dir: Vector3 { x: 600_000, y: 800_000, z: 0 },
    };
    assert!(
        line_plane_intersection(&line, &plane)
            == Line2PlaneClassification::Intersects(Vector3 { x: 4 * ONE, y: 6 * ONE, z: 0 })
    );
    let back = Line {
        pos: Vector3 { x: 5 * ONE, y: 0, z: 0 },
        dir: Vector3 { x: -ONE, y: 0, z: 0 },
    };
    assert!(
        line_plane_intersection(&back, &plane)
            == Line2PlaneClassification::Intersects(Vector3 { x: 4 * ONE, y: 0, z: 0 })
    );
}

#[test]
fn line_of_any_direction_meets_the_plane() {
    let plane = Plane {
        pos: Vector3 { x: 4 * ONE, y: 0, z: 0 },
        normal: Vector3 { x: 2 * ONE, y: 0, z: 0 },
    };
    let line = Line {
        pos: Vector3 { x: ONE, y: 2 * ONE, z: -5 },
        dir: Vector3 { x: 3 * ONE, y: 4 * ONE, z: 0 },
    };
    assert!(
        line_plane_intersection(&line, &plane)
            == Line2PlaneClassification::Intersects(Vector3 { x: 4 * ONE, y: 6 * ONE, z: -5 })
    );
}

#[test]
fn line_that_meets_the_plane_too_far_away_is_out_of_bounds() {
    let plane = plane_x(1_000_000_000_000);
    let line = Line {
        pos: Vector3 { x: 0, y: 0, z: 0 },
        dir: Vector3 { x: ONE, y: 2 * ONE, z: 0 },
    };
    assert!(line_plane_intersection(&line, &plane) == Line2PlaneClassification::OutOfBounds);
    let straight = Line {
        pos: Vector3 { x: 0, y: 0, z: 0 },
        dir: Vector3 { x: ONE, y: ONE, z: 0 },
    };
    assert!(
        line_plane_intersection(&straight, &plane)
            == Line2PlaneClassification::Intersects(Vector3 {
                x: 1_000_000_000_000,
                y: 1_000_000_000_000,
                z: 0,
            })
    );
}

#[test]
fn line_along_the_plane_is_parallel() {
    let plane = plane_x(4 * ONE);
    let line = Line { pos: Vector3 { x: 0, y: 0, z: 0 }, dir: Vector3 { x: 0, y: ONE, z: 0 } };
    assert!(line_plane_intersection(&line, &plane) == Line2PlaneClassification::Parallel);
    let nearly = Line { pos: Vector3 { x: 0, y: 0, z: 0 }, dir: Vector3 { x: 0, y: ONE, z: 0 } };
    let tilted = Plane {
        pos: Vector3 { x: 4 * ONE, y: 0, z: 0 },
        normal: Vector3 { x: ONE, y: 0, z: 0 },
    };
    assert!(line_plane_intersection(&nearly, &tilted) == Line2PlaneClassification::Parallel);
}

#[test]
fn direction_has_length_one_and_turns_with_its_points() {
    let a = Point3::new(0, 0, 0);
    let b = Point3::new(3 * ONE, 4 * ONE, 0);
    assert_eq!(direction(&a, &b), Vector3 { x: 600_000, y: 800_000, z: 0 });
    assert_eq!(direction(&b, &a), Vector3 { x: -600_000, y: -800_000, z: 0 });
    assert_eq!(direction(&a, &a), Vector3 { x: 0, y: 0, z: 0 });
    assert_eq!(
        direction(&a, &Point3::new(ONE, ONE, ONE)),
        Vector3 { x: 577_350, y: 577_350, z: 577_350 }
    );
}

#[test]
fn stretch_scales_a_component() {
    assert_eq!(stretch_axis(600_000, 5 * ONE), 3 * ONE);
    assert_eq!(stretch_axis(-600_000, 5 * ONE), -3 * ONE);
    assert_eq!(stretch_axis(1, 1), 0);
    assert_eq!(stretch_axis(-1, 1), -1);
}

#[test]
fn decay_of_zero_is_one_and_decay_falls() {
    assert_eq!(exp_neg(0), ONE);
    assert_eq!(exp_neg(500_000), 606_530);
    assert_eq!(exp_neg(1_000_000), 367_879);
    assert_eq!(exp_neg(2_000_000), 135_335);
    assert_eq!(exp_neg(5_000_000), 6_737);
    assert_eq!(exp_neg(14_000_000), 0);
    let mut last = ONE;
    for x in 0..200u128 {
        let d = exp_neg(x * 100_000);
        assert!(d <= last);
        last = d;
    }
}

#[test]
fn spheres_overlap_when_closer_than_their_radii() {
    let a = cell(1, 0, 0, 0, 600_000);
    let b = cell(2, ONE, 0, 0, 600_000);
    assert!(overlap(&a, &b));
    assert!(overlap(&b, &a));
    let c = cell(3, 0, 0, 0, 300_000);
    let d = cell(4, ONE, 0, 0, 300_000);
    assert!(!overlap(&c, &d));
    // touching spheres do not overlap
    let e = cell(5, 0, 0, 0, 500_000);
    let f = cell(6, ONE, 0, 0, 500_000);
    assert!(!overlap(&e, &f));
}

#[test]
fn cores_overlap_when_closer_than_the_larger_radius() {
    let a = cell(1, 0, 0, 0, 600_000);
    let b = cell(2, ONE, 0, 0, 600_000);
    assert!(!core_overlap(&a, &b));
    let c = cell(3, 0, 0, 0, 1_200_000);
    assert!(core_overlap(&c, &b));
    assert!(core_overlap(&b, &c));
}

#[test]
fn cell_retreats_from_a_core_overlap() {
    let me = cell(1, 0, 0, 0, 2 * ONE);
    let other = cell(2, ONE, 0, 0, ONE);
    let fallback = Vector3 { x: 0, y: ONE, z: 0 };
    // pushed along the line away from the other until the distance is the larger radius
    assert_eq!(me.get_point_away_from(&other, &fallback), Point3::new(-ONE, 0, 0));
    // coinciding centres use the fallback direction
    let twin = cell(3, 0, 0, 0, ONE);
    assert_eq!(me.get_point_away_from(&twin, &fallback), Point3::new(0, 2 * ONE, 0));
}

#[test]
fn update_sets_radius_and_moves_to_the_mean_retreat() {
    let mut me = cell(1, 0, 0, 0, 1);
    let hormones = Phytohormones::new();
    let others = OverlappingCells(vec![
        (2, cell(2, ONE, 0, 0, ONE), hormones),
        (3, cell(3, 0, ONE, 0, ONE), hormones),
        (4, cell(4, 9 * ONE, 0, 0, ONE), hormones),
    ]);
    let fallback = Vector3 { x: 0, y: 0, z: ONE };
    me.update(&others, 20 * ONE, &fallback);
    assert_eq!(me.radius, 1_683_890);
    // retreat points (-683890, 0, 0) and (0, -683890, 0), and the far cell is left out
    assert_eq!(me.position, Point3::new(-341_945, -341_945, 0));
    assert_eq!(me.id, 1);
}

#[test]
fn cell_without_core_overlap_stays() {
    let mut me = cell(1, 0, 0, 0, ONE);
    let hormones = Phytohormones::new();
    let others = OverlappingCells(vec![(2, cell(2, 3 * ONE, 0, 0, ONE), hormones)]);
    me.reposition(&others, &Vector3 { x: ONE, y: 0, z: 0 });
    assert_eq!(me.position, Point3::new(0, 0, 0));
    assert_eq!(me.radius, ONE);
}
