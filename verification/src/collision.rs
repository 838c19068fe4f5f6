//! The bounds and collision detector: the player against the vertical world
//! bounds, and the player's bounding circle against the boxes of the pipes.
//!
//! Halves of odd extents are not whole numbers, so colliders are measured in
//! half units: every coordinate and the radius are doubled. The overlap test
//! does not depend on scale.

use vstd::prelude::*;
use crate::config::Config;
use crate::pipes::ObstaclePair;
use crate::pipes::top_box;
use crate::pipes::bottom_box;

verus! {

/// An axis-aligned box, by its edges.
pub struct Box2 {
    pub min_x: int,
    pub max_x: int,
    pub min_y: int,
    pub max_y: int,
}

/// Machine form of an axis-aligned box.
#[derive(Clone, Copy, Debug, PartialEq, Eq)]
pub struct Aabb {
    pub min_x: i128,
    pub max_x: i128,
    pub min_y: i128,
    pub max_y: i128,
}

impl View for Aabb {
    type V = Box2;

    open spec fn view(&self) -> Box2 {
        Box2 {
            min_x: self.min_x as int,
            max_x: self.max_x as int,
            min_y: self.min_y as int,
            max_y: self.max_y as int,
        }
    }
}

/// Largest coordinate magnitude that the overlap test accepts.
pub const COORD_LIMIT: i128 = 0x1_0000_0000_0000_0000_0000;

/// Largest radius that the overlap test accepts.
pub const RADIUS_LIMIT: i128 = 0x4000_0000_0000_0000;

/// The point of the interval from `lo` to `hi` nearest to `v`.
pub open spec fn clamp(v: int, lo: int, hi: int) -> int {
    if v < lo {
        lo
    } else if v > hi {
        hi
    } else {
        v
    }
}

/// Circle against box: the squared distance from the centre to the nearest
/// point of the box is at most the squared radius. Touching counts.
pub open spec fn circle_hits_box(cx: int, cy: int, radius: int, b: Box2) -> bool {
    let dx = cx - clamp(cx, b.min_x, b.max_x);
    let dy = cy - clamp(cy, b.min_y, b.max_y);
    dx * dx + dy * dy <= radius * radius
}

/// The player leaves the world when its lower edge is below the bottom
/// boundary or its upper edge above the top boundary. An edge exactly on a
/// boundary is still inside.
pub open spec fn out_of_bounds(position_y: int, half_height: int, world_height: int) -> bool {
    2 * (position_y - half_height) < -world_height || 2 * (position_y + half_height)
        > world_height
}

/// Whether the player's circle at height `position_y` overlaps the top or the
/// bottom pipe of a pair centred at `center_x`. The circle has the player's
/// half height as its radius.
pub open spec fn pair_hits(cfg: Config, position_y: int, center_x: int) -> bool {
    circle_hits_box(
        2 * cfg.player_x,
        2 * position_y,
        2 * cfg.player_half_height,
        top_box(cfg, center_x),
    ) || circle_hits_box(
        2 * cfg.player_x,
        2 * position_y,
        2 * cfg.player_half_height,
        bottom_box(cfg, center_x),
    )
}

/// Whether the player overlaps any pipe. The order of the pairs is immaterial.
pub open spec fn any_hit(cfg: Config, position_y: int, pipes: Seq<ObstaclePair>) -> bool {
    exists|i: int| 0 <= i < pipes.len() && pair_hits(cfg, position_y, #[trigger] pipes[i].center_x as int)
}

fn clamp_wide(v: i128, lo: i128, hi: i128) -> (r: i128)
    ensures
        r == clamp(v as int, lo as int, hi as int),
{
    if v < lo {
        lo
    } else if v > hi {
        hi
    } else {
        v
    }
}

proof fn lemma_square_grows(a: int, b: int)
    requires
        0 <= a < b,
    ensures
        a * a < b * b,
{
    assert(a * a < b * b) by (nonlinear_arith)
        requires
            0 <= a < b,
    ;
}

proof fn lemma_square_bound(a: int, b: int)
    requires
        0 <= a <= b,
    ensures
        0 <= a * a <= b * b,
{
    assert(0 <= a * a <= b * b) by (nonlinear_arith)
        requires
            0 <= a <= b,
    ;
}

fn magnitude(v: i128) -> (r: u128)
    requires
        v > i128::MIN,
    ensures
        r == (if v < 0 { -v } else { v as int }),
        r * r == v * v,
{
    assert((-v) * (-v) == v * v) by (nonlinear_arith);
    if v < 0 {
        (-v) as u128
    } else {
        v as u128
    }
}

/// Decides `circle_hits_box` on machine values.
pub fn circle_intersects_box(cx: i128, cy: i128, radius: i128, b: Aabb) -> (hit: bool)
    requires
        -COORD_LIMIT <= cx <= COORD_LIMIT,
        -COORD_LIMIT <= cy <= COORD_LIMIT,
        -COORD_LIMIT <= b.min_x <= COORD_LIMIT,
        -COORD_LIMIT <= b.max_x <= COORD_LIMIT,
        -COORD_LIMIT <= b.min_y <= COORD_LIMIT,
        -COORD_LIMIT <= b.max_y <= COORD_LIMIT,
        -RADIUS_LIMIT <= radius <= RADIUS_LIMIT,
    ensures
        hit == circle_hits_box(cx as int, cy as int, radius as int, b@),
{
    let dx: u128 = magnitude(cx - clamp_wide(cx, b.min_x, b.max_x));
    let dy: u128 = magnitude(cy - clamp_wide(cy, b.min_y, b.max_y));
    let r: u128 = magnitude(radius);
    proof {
        lemma_square_bound(0, dx as int);
        lemma_square_bound(0, dy as int);
        if dx > r {
            lemma_square_grows(r as int, dx as int);
        } else {
            lemma_square_bound(dx as int, r as int);
        }
        if dy > r {
            lemma_square_grows(r as int, dy as int);
        } else {
            lemma_square_bound(dy as int, r as int);
        }
        lemma_square_bound(r as int, RADIUS_LIMIT as int);
    }
    if dx > r || dy > r {
        return false;
    }
    dx * dx + dy * dy <= r * r
}

/// Detects when the player has gone out of bounds.
pub fn check_out_of_bounds(position_y: i64, half_height: i64, world_height: i64) -> (out: bool)
    ensures
        out == out_of_bounds(position_y as int, half_height as int, world_height as int),
{
    let y: i128 = position_y as i128;
    let h: i128 = half_height as i128;
    let w: i128 = world_height as i128;
    let bottom: i128 = 2 * (y - h);
    let top: i128 = 2 * (y + h);
    bottom < -w || top > w
}

/// Decides `pair_hits`.
pub fn hits_pair(cfg: &Config, position_y: i64, pair: &ObstaclePair) -> (hit: bool)
    requires
        cfg.valid(),
    ensures
        hit == pair_hits(*cfg, position_y as int, pair.center_x as int),
{
    let cx: i128 = 2 * (cfg.player_x as i128);
    let cy: i128 = 2 * (position_y as i128);
    let radius: i128 = 2 * (cfg.player_half_height as i128);
    circle_intersects_box(cx, cy, radius, pair.top().collider(cfg)) || circle_intersects_box(
        cx,
        cy,
        radius,
        pair.bottom().collider(cfg),
    )
}

/// Reports whether the player's circle overlaps any live pipe.
pub fn detect_collisions(cfg: &Config, position_y: i64, pipes: &Vec<ObstaclePair>) -> (hit: bool)
    requires
        cfg.valid(),
    ensures
        hit == any_hit(*cfg, position_y as int, pipes@),
{
    let mut i: usize = 0;
    while i < pipes.len()
        invariant
            cfg.valid(),
            0 <= i <= pipes.len(),
            forall|k: int| 0 <= k < i ==> !pair_hits(*cfg, position_y as int, #[trigger] pipes@[k].center_x as int),
        decreases pipes.len() - i,
    {
        if hits_pair(cfg, position_y, &pipes[i]) {
            return true;
        }
        i += 1;
    }
    false
}

} // verus!
