use upstream_core::attack::{area_contains, AttackArea};
use upstream_core::geom::Vec2i;

fn v(x: i64, y: i64) -> Vec2i {
    Vec2i { x, y }
}

#[test]
fn circle_contains_within_sum_of_radii() {
    // center (0,0), radius 150 units; entity at distance 100 with radius 50
    // collides (100 <= 200).
    let area = AttackArea::Circle { o: v(0, 0), r: 150_000 };
    assert!(area_contains(&area, v(100_000, 0), 50_000));
}

#[test]
fn circle_misses_beyond_sum_of_radii() {
    // entity at distance 260 with radius 50 does not collide (260 > 200).
    let area = AttackArea::Circle { o: v(0, 0), r: 150_000 };
    assert!(!area_contains(&area, v(260_000, 0), 50_000));
}

#[test]
fn circle_boundary_is_inclusive() {
    let area = AttackArea::Circle { o: v(0, 0), r: 150_000 };
    assert!(area_contains(&area, v(200_000, 0), 50_000));
    assert!(!area_contains(&area, v(200_001, 0), 50_000));
}

#[test]
fn half_circle_hits_forward_side_only() {
    let area = AttackArea::HalfCircle { o: v(0, 0), r: 150_000, v: v(100, 0) };
    assert!(area_contains(&area, v(100_000, 0), 10_000));
    assert!(!area_contains(&area, v(-100_000, 0), 10_000));
}

#[test]
fn half_circle_footprint_reaches_over_the_edge() {
    // An entity just behind the dividing line still collides when its own
    // radius reaches over it.
    let area = AttackArea::HalfCircle { o: v(0, 0), r: 150_000, v: v(100, 0) };
    assert!(area_contains(&area, v(-5_000, 0), 10_000));
    assert!(!area_contains(&area, v(-15_000, 0), 10_000));
}

#[test]
fn rectangle_contains_point_inside() {
    let area = AttackArea::Rectangle { o: v(0, 0), w: 250_000, h: 110_000, v: v(100, 0) };
    assert!(area_contains(&area, v(100_000, 0), 10_000));
}

#[test]
fn rectangle_pads_sides_by_entity_radius() {
    let area = AttackArea::Rectangle { o: v(0, 0), w: 250_000, h: 110_000, v: v(100, 0) };
    // h/2 = 55; entity center 80 above the axis, radius 30: reaches 85 >= 80.
    assert!(area_contains(&area, v(100_000, 80_000), 30_000));
    // at 90 above, the radius no longer reaches the padded box or corner.
    assert!(!area_contains(&area, v(100_000, 90_000), 30_000));
}

#[test]
fn rectangle_corner_uses_clamped_distance() {
    let area = AttackArea::Rectangle { o: v(0, 0), w: 250_000, h: 110_000, v: v(100, 0) };
    // past the far corner (250, 55): offset (20, 20) has length ~28.3 <= 30.
    assert!(area_contains(&area, v(270_000, 75_000), 30_000));
    // offset (22, 22) has length ~31.1 > 30.
    assert!(!area_contains(&area, v(272_000, 77_000), 30_000));
}

#[test]
fn rectangle_rotates_with_its_direction() {
    let up = AttackArea::Rectangle { o: v(0, 0), w: 250_000, h: 110_000, v: v(0, 100) };
    assert!(area_contains(&up, v(0, 100_000), 10_000));
    assert!(!area_contains(&up, v(100_000, 0), 10_000));
}

#[test]
fn rectangle_behind_origin_misses() {
    let area = AttackArea::Rectangle { o: v(0, 0), w: 250_000, h: 110_000, v: v(100, 0) };
    assert!(!area_contains(&area, v(-80_000, 0), 10_000));
}

#[test]
fn diagonal_direction_hits_along_diagonal() {
    // (60, 80) is a fixed-point unit vector: 60^2 + 80^2 = 100^2.
    let area = AttackArea::HalfCircle { o: v(0, 0), r: 150_000, v: v(60, 80) };
    assert!(area_contains(&area, v(60_000, 80_000), 10_000));
    assert!(!area_contains(&area, v(-60_000, -80_000), 10_000));
}
