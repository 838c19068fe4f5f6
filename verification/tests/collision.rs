use flappy_sim::collision::{
    check_out_of_bounds, circle_intersects_box, detect_collisions, hits_pair, Aabb,
};
use flappy_sim::config::Config;
use flappy_sim::pipes::{BottomPipe, ObstaclePair, TopPipe};

const H: i64 = 360_000_000;
const HALF: i64 = 25_000_000;

#[test]
fn upper_edge_on_the_boundary_is_inside() {
    assert!(!check_out_of_bounds(H / 2 - HALF, HALF, H));
}

#[test]
fn upper_edge_just_above_the_boundary_is_outside() {
    assert!(check_out_of_bounds(H / 2 - HALF + 1, HALF, H));
}

#[test]
fn lower_edge_on_the_boundary_is_inside() {
    assert!(!check_out_of_bounds(-H / 2 + HALF, HALF, H));
}

#[test]
fn lower_edge_just_below_the_boundary_is_outside() {
    assert!(check_out_of_bounds(-H / 2 + HALF - 1, HALF, H));
}

#[test]
fn centre_is_inside() {
    assert!(!check_out_of_bounds(0, HALF, H));
}

#[test]
fn bounds_are_exact_for_an_odd_height() {
    // The boundary is at 2.5: an upper edge at 2 is inside, at 3 outside.
    assert!(!check_out_of_bounds(1, 1, 5));
    assert!(check_out_of_bounds(2, 1, 5));
    assert!(!check_out_of_bounds(-1, 1, 5));
    assert!(check_out_of_bounds(-2, 1, 5));
}

#[test]
fn bounds_do_not_overflow_at_the_extremes() {
    assert!(check_out_of_bounds(i64::MAX, i64::MAX, 1));
    assert!(check_out_of_bounds(i64::MIN, i64::MAX, i64::MAX));
}

fn unit_box() -> Aabb {
    Aabb { min_x: -10, max_x: 10, min_y: -20, max_y: 20 }
}

#[test]
fn touching_circle_and_box_intersect() {
    assert!(circle_intersects_box(15, 0, 5, unit_box()));
    assert!(circle_intersects_box(-15, 0, 5, unit_box()));
    assert!(circle_intersects_box(0, 25, 5, unit_box()));
    assert!(circle_intersects_box(0, -25, 5, unit_box()));
}

#[test]
fn a_gap_of_one_separates_circle_and_box() {
    assert!(!circle_intersects_box(16, 0, 5, unit_box()));
    assert!(!circle_intersects_box(-16, 0, 5, unit_box()));
    assert!(!circle_intersects_box(0, 26, 5, unit_box()));
    assert!(!circle_intersects_box(0, -26, 5, unit_box()));
}

#[test]
fn corner_distance_is_euclidean() {
    // The nearest point is the corner (10, 20); the offset is (3, 4).
    assert!(circle_intersects_box(13, 24, 5, unit_box()));
    assert!(!circle_intersects_box(13, 24, 4, unit_box()));
    assert!(!circle_intersects_box(14, 24, 5, unit_box()));
}

#[test]
fn centre_inside_the_box_intersects() {
    assert!(circle_intersects_box(0, 0, 0, unit_box()));
    assert!(circle_intersects_box(10, 20, 0, unit_box()));
    assert!(!circle_intersects_box(11, 20, 0, unit_box()));
}

#[test]
fn large_coordinates_are_handled() {
    let far: i128 = 1 << 70;
    let b = Aabb { min_x: -far, max_x: -far + 1, min_y: 0, max_y: 1 };
    assert!(!circle_intersects_box(far, 0, 1 << 62, b));
    let near = Aabb { min_x: 1 << 62, max_x: far, min_y: -far, max_y: far };
    assert!(circle_intersects_box(0, 0, 1 << 62, near));
}

#[test]
fn pipe_boxes_have_the_true_extents() {
    let cfg = Config::classic();
    let top = TopPipe { center_x: 100_000_000 }.collider(&cfg);
    assert_eq!(
        top,
        Aabb {
            min_x: 100_000_000,
            max_x: 300_000_000,
            min_y: 150_000_000,
            max_y: 570_000_000,
        }
    );
    let bottom = BottomPipe { center_x: 100_000_000 }.collider(&cfg);
    assert_eq!(
        bottom,
        Aabb {
            min_x: 100_000_000,
            max_x: 300_000_000,
            min_y: -570_000_000,
            max_y: -150_000_000,
        }
    );
}

#[test]
fn player_in_the_gap_does_not_hit() {
    let cfg = Config::classic();
    let pair = ObstaclePair { id: 0, center_x: cfg.player_x };
    assert!(!hits_pair(&cfg, 0, &pair));
    assert!(!hits_pair(&cfg, 49_999_999, &pair));
    assert!(!hits_pair(&cfg, -49_999_999, &pair));
}

#[test]
fn player_touching_a_pipe_hits() {
    let cfg = Config::classic();
    let pair = ObstaclePair { id: 0, center_x: cfg.player_x };
    assert!(hits_pair(&cfg, 50_000_000, &pair));
    assert!(hits_pair(&cfg, -50_000_000, &pair));
}

#[test]
fn player_beside_a_pipe_hits_only_within_reach() {
    let cfg = Config::classic();
    // The pipe's left edge is exactly one radius right of the player.
    let touching = ObstaclePair { id: 0, center_x: cfg.player_x + 75_000_000 };
    assert!(hits_pair(&cfg, 100_000_000, &touching));
    let apart = ObstaclePair { id: 1, center_x: cfg.player_x + 75_000_001 };
    assert!(!hits_pair(&cfg, 100_000_000, &apart));
}

#[test]
fn detect_collisions_finds_any_pair() {
    let cfg = Config::classic();
    let far = ObstaclePair { id: 0, center_x: 300_000_000 };
    let near = ObstaclePair { id: 1, center_x: cfg.player_x };
    assert!(!detect_collisions(&cfg, 60_000_000, &vec![]));
    assert!(!detect_collisions(&cfg, 60_000_000, &vec![far]));
    assert!(detect_collisions(&cfg, 60_000_000, &vec![far, near]));
    assert!(detect_collisions(&cfg, 60_000_000, &vec![near, far]));
    assert!(!detect_collisions(&cfg, 0, &vec![near, far]));
}
