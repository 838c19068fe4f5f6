//! Laws of the simulation, stated over the mathematical world and proved.

use vstd::prelude::*;
use crate::config::Config;
use crate::collision::Box2;
use crate::collision::circle_hits_box;
use crate::collision::out_of_bounds;
use crate::kinematics::fits;
use crate::pipes::burst_valid;
use crate::pipes::initial_x;
use crate::pipes::retired;
use crate::pipes::lemma_scrolled_keeps;
use crate::pipes::lemma_scrolled_origin;
use crate::session::SessionState;
use crate::session::World;
use crate::session::lemma_burst_wf;

verus! {

/// The world after `k` ticks of length `dt` with nothing in between.
pub open spec fn steps(w: World, dt: int, k: nat) -> World
    decreases k,
{
    if k == 0 {
        w
    } else {
        steps(w, dt, (k - 1) as nat).step(dt)
    }
}

/// The world after `n` jumps with nothing in between.
pub open spec fn jumps(w: World, n: nat) -> World
    decreases n,
{
    if n == 0 {
        w
    } else {
        jumps(w, (n - 1) as nat).jump()
    }
}

/// The world after `k` single spawns with nothing in between.
pub open spec fn spawns(w: World, k: nat) -> World
    decreases k,
{
    if k == 0 {
        w
    } else {
        spawns(w, (k - 1) as nat).spawn_one()
    }
}

/// The world after `k` spawn periods of length `dt`: a tick of one period,
/// then one spawn, `k` times over.
pub open spec fn periods(w: World, dt: int, k: nat) -> World
    decreases k,
{
    if k == 0 {
        w
    } else {
        periods(w, dt, (k - 1) as nat).step(dt).spawn_one()
    }
}

/// A tick of length `dt` retires no pair of `w`.
pub open spec fn none_retired(w: World, dt: int) -> bool {
    forall|j: int|
        0 <= j < w.pipes.len() ==> !retired(
            w.config,
            (#[trigger] w.pipes[j]).center_x - w.config.pipe_speed * dt,
        )
}

/// The handle `id` was handed out and its pair is gone.
pub open spec fn gone(w: World, id: u64) -> bool {
    id < w.next_id && !w.has_pair(id)
}

/// Every operation keeps the world well formed whenever its result is made of
/// machine values; a burst must also be one that the core accepts.
pub proof fn law_world_stays_well_formed(w: World, dt: int, n: int, start: int, end: int)
    requires
        w.wf(),
        dt >= 0,
        n >= 0,
    ensures
        w.jump().representable() ==> w.jump().wf(),
        w.increment().representable() ==> w.increment().wf(),
        w.step(dt).representable() ==> w.step(dt).wf(),
        w.spawn_one().representable() ==> w.spawn_one().wf(),
        w.reset().representable() ==> w.reset().wf(),
        burst_valid(n, start, end) && fits(start) && end <= w.config.spawn_x() && w.spawn_initial(
            n,
            start,
            end,
        ).representable() ==> w.spawn_initial(n, start, end).wf(),
{
    if w.step(dt).representable() {
        crate::session::lemma_step_wf(w, dt);
    }
    if w.reset().representable() {
        lemma_burst_wf(
            w.config,
            w.config.spawn_count as int,
            w.config.pipe_start as int,
            w.config.spawn_x(),
            w.next_id,
        );
    }
    if burst_valid(n, start, end) && fits(start) && end <= w.config.spawn_x() && w.spawn_initial(
        n,
        start,
        end,
    ).representable() {
        lemma_burst_wf(w.config, n, start, end, w.next_id);
    }
}

/// A tick moves the player by the velocity it had before the tick, times
/// `dt`, and then changes the velocity by gravity times `dt`. It touches
/// neither the score nor the handles.
pub proof fn law_step_integrates(w: World, dt: int)
    ensures
        w.step(dt).position_y == w.position_y + w.velocity_y * dt,
        w.step(dt).velocity_y == w.velocity_y + w.gravity * dt,
        w.step(dt).score == w.score,
        w.step(dt).next_id == w.next_id,
        w.step(dt).config == w.config,
        w.step(dt).gravity == w.gravity,
{
}

/// Once the session is over, ticks never bring it back.
pub proof fn law_game_over_is_terminal(w: World, dt: int, k: nat)
    requires
        w.state == SessionState::GameOver,
    ensures
        steps(w, dt, k).state == SessionState::GameOver,
    decreases k,
{
    if k > 0 {
        law_game_over_is_terminal(w, dt, (k - 1) as nat);
    }
}

/// A session stays active through a tick exactly when it was active and the
/// tick ends without a violation.
pub proof fn law_step_state(w: World, dt: int)
    ensures
        w.step(dt).state == SessionState::Active <==> w.state == SessionState::Active
            && !w.step(dt).violation(),
{
}

/// Under downward gravity and without jumps, a player that is moving down
/// keeps moving down: after every further tick the velocity is still
/// negative and the position is no higher than before, and strictly lower
/// when the tick has a positive length.
pub proof fn law_descent(w: World, dt: int, k: nat)
    requires
        w.gravity < 0,
        w.velocity_y < 0,
        dt >= 0,
    ensures
        steps(w, dt, k).velocity_y <= w.velocity_y,
        steps(w, dt, k).gravity == w.gravity,
        steps(w, dt, k + 1).position_y <= steps(w, dt, k).position_y,
        steps(w, dt, k + 1).velocity_y <= steps(w, dt, k).velocity_y,
        dt > 0 ==> steps(w, dt, k + 1).position_y < steps(w, dt, k).position_y,
        dt > 0 ==> steps(w, dt, k + 1).velocity_y < steps(w, dt, k).velocity_y,
    decreases k,
{
    if k > 0 {
        law_descent(w, dt, (k - 1) as nat);
    }
    let now = steps(w, dt, k);
    assert(steps(w, dt, k + 1) == now.step(dt));
    let v = now.velocity_y;
    let g = now.gravity;
    assert(v * dt <= 0 && g * dt <= 0) by (nonlinear_arith)
        requires
            v < 0,
            g < 0,
            dt >= 0,
    ;
    if dt > 0 {
        assert(v * dt < 0 && g * dt < 0) by (nonlinear_arith)
            requires
                v < 0,
                g < 0,
                dt > 0,
        ;
    }
}

/// `n` jumps raise the velocity by exactly `n` times the boost and change
/// nothing else.
pub proof fn law_jumps_add_up(w: World, n: nat)
    ensures
        jumps(w, n) == (World { velocity_y: w.velocity_y + n * w.config.jump_boost, ..w }),
    decreases n,
{
    if n > 0 {
        law_jumps_add_up(w, (n - 1) as nat);
        assert((n - 1) * w.config.jump_boost + w.config.jump_boost == n * w.config.jump_boost)
            by (nonlinear_arith);
    } else {
        assert(0 * w.config.jump_boost == 0);
    }
}

/// The tick after `n` jumps already moves the player with the raised
/// velocity.
pub proof fn law_jumps_then_step(w: World, n: nat, dt: int)
    ensures
        jumps(w, n).step(dt).position_y == w.position_y + (w.velocity_y + n
            * w.config.jump_boost) * dt,
        jumps(w, n).step(dt).velocity_y == w.velocity_y + n * w.config.jump_boost + w.gravity
            * dt,
{
    law_jumps_add_up(w, n);
}

/// A tick moves every pair left by exactly the scroll speed times `dt`. A
/// pair whose right edge is then left of the world's left boundary is gone
/// after the tick; every other pair is still there under its handle.
pub proof fn law_scroll_and_retire(w: World, dt: int, j: int)
    requires
        w.wf(),
        dt >= 0,
        0 <= j < w.pipes.len(),
    ensures
        retired(w.config, w.pipes[j].center_x - w.config.pipe_speed * dt) ==> gone(
            w.step(dt),
            w.pipes[j].id,
        ),
        !retired(w.config, w.pipes[j].center_x - w.config.pipe_speed * dt) ==> exists|k: int|
            0 <= k < w.step(dt).pipes.len() && (#[trigger] w.step(dt).pipes[k]).id == w.pipes[j].id
                && w.step(dt).pipes[k].center_x == w.pipes[j].center_x - w.config.pipe_speed * dt,
{
    let shift = w.config.pipe_speed * dt;
    assert(shift >= 0) by (nonlinear_arith)
        requires
            w.config.pipe_speed > 0,
            dt >= 0,
            shift == w.config.pipe_speed * dt,
    ;
    let after = w.step(dt).pipes;
    if retired(w.config, w.pipes[j].center_x - shift) {
        assert forall|k: int| 0 <= k < after.len() implies (#[trigger] after[k]).id
            != w.pipes[j].id by {
            lemma_scrolled_origin(w.config, w.pipes, shift, k);
            let o = choose|o: int|
                k <= o < w.pipes.len() && after[k].id == (#[trigger] w.pipes[o]).id
                    && after[k].center_x == w.pipes[o].center_x - shift && !retired(
                    w.config,
                    w.pipes[o].center_x - shift,
                );
            if o < j {
                assert(w.pipes[o].id < w.pipes[j].id);
            } else if j < o {
                assert(w.pipes[j].id < w.pipes[o].id);
            }
        }
    } else {
        lemma_scrolled_keeps(w.config, w.pipes, shift, j);
    }
}

/// A pair that is gone never comes back: whatever the next operation is, the
/// handle stays without a live pair.
pub proof fn law_gone_stays_gone(w: World, id: u64, dt: int, n: int, start: int, end: int)
    requires
        w.wf(),
        gone(w, id),
        dt >= 0,
        n >= 0,
    ensures
        gone(w.step(dt), id),
        gone(w.jump(), id),
        gone(w.increment(), id),
        w.next_id < u64::MAX ==> gone(w.spawn_one(), id),
        w.next_id + n <= u64::MAX ==> gone(w.spawn_initial(n, start, end), id),
        w.next_id + w.config.spawn_count <= u64::MAX ==> gone(w.reset(), id),
{
    let shift = w.config.pipe_speed * dt;
    assert(shift >= 0) by (nonlinear_arith)
        requires
            w.config.pipe_speed > 0,
            dt >= 0,
            shift == w.config.pipe_speed * dt,
    ;
    let after = w.step(dt).pipes;
    assert forall|k: int| 0 <= k < after.len() implies (#[trigger] after[k]).id != id by {
        lemma_scrolled_origin(w.config, w.pipes, shift, k);
    }
    if w.next_id < u64::MAX {
        let grown = w.spawn_one().pipes;
        assert forall|k: int| 0 <= k < grown.len() implies (#[trigger] grown[k]).id != id by {
            if k < w.pipes.len() {
                assert(grown[k] == w.pipes[k]);
            }
        }
    }
    if w.next_id + n <= u64::MAX {
        let burst = w.spawn_initial(n, start, end).pipes;
        assert forall|k: int| 0 <= k < burst.len() implies (#[trigger] burst[k]).id != id by {
            assert(burst[k].id == ((w.next_id + k) as u64));
        }
    }
    if w.next_id + w.config.spawn_count <= u64::MAX {
        let burst = w.reset().pipes;
        assert forall|k: int| 0 <= k < burst.len() implies (#[trigger] burst[k]).id != id by {
            assert(burst[k].id == ((w.next_id + k) as u64));
        }
    }
}

/// `k` single spawns add exactly `k` pairs, all at the spawn edge, and keep
/// every pair that was there.
pub proof fn law_spawns_add_up(w: World, k: nat)
    ensures
        spawns(w, k).pipes.len() == w.pipes.len() + k,
        spawns(w, k).next_id == w.next_id + k,
        spawns(w, k).config == w.config,
        forall|i: int| 0 <= i < w.pipes.len() ==> spawns(w, k).pipes[i] == w.pipes[i],
        forall|i: int|
            w.pipes.len() <= i < w.pipes.len() + k ==> (#[trigger] spawns(w, k).pipes[i]).center_x
                == w.config.spawn_x() as i64,
    decreases k,
{
    if k > 0 {
        law_spawns_add_up(w, (k - 1) as nat);
    }
}

/// A tick never adds a pair, and a spawn adds exactly one.
pub proof fn law_only_spawns_add(w: World, dt: int)
    ensures
        w.step(dt).pipes.len() <= w.pipes.len(),
        w.spawn_one().pipes.len() == w.pipes.len() + 1,
        w.jump().pipes == w.pipes,
        w.increment().pipes == w.pipes,
{
    crate::pipes::lemma_scrolled_len(w.config, w.pipes, w.config.pipe_speed * dt);
}

/// Spawning is periodic: when the host spawns once per period, then after
/// `k` periods there are exactly `k` more pairs, as long as no pair is
/// retired on the way.
pub proof fn law_periodic_spawns(w: World, dt: int, k: nat)
    requires
        forall|i: nat| i < k ==> none_retired(#[trigger] periods(w, dt, i), dt),
    ensures
        periods(w, dt, k).pipes.len() == w.pipes.len() + k,
    decreases k,
{
    if k > 0 {
        let before = periods(w, dt, (k - 1) as nat);
        law_periodic_spawns(w, dt, (k - 1) as nat);
        assert(none_retired(before, dt));
        crate::pipes::lemma_scrolled_full(before.config, before.pipes, before.config.pipe_speed * dt);
    }
}

/// The vertical bounds are open: a player whose upper edge is exactly on the
/// top boundary is inside, and any positive excess `eps` puts it outside. The
/// same holds, mirrored, at the bottom boundary.
pub proof fn law_bounds_are_open(position_y: int, half_height: int, world_height: int, eps: int)
    requires
        0 <= 2 * half_height <= world_height,
        eps > 0,
    ensures
        2 * (position_y + half_height) == world_height ==> !out_of_bounds(
            position_y,
            half_height,
            world_height,
        ),
        2 * (position_y + half_height) == world_height ==> out_of_bounds(
            position_y + eps,
            half_height,
            world_height,
        ),
        2 * (position_y - half_height) == -world_height ==> !out_of_bounds(
            position_y,
            half_height,
            world_height,
        ),
        2 * (position_y - half_height) == -world_height ==> out_of_bounds(
            position_y - eps,
            half_height,
            world_height,
        ),
{
}

/// The overlap test is closed: a circle that touches a side of a box with no
/// gap overlaps it, and any positive gap `eps` to that side separates them.
pub proof fn law_touching_overlaps(cx: int, cy: int, radius: int, b: Box2, eps: int)
    requires
        radius >= 0,
        eps > 0,
        b.min_x <= b.max_x,
        b.min_y <= b.max_y,
    ensures
        b.min_y <= cy <= b.max_y && cx - radius == b.max_x ==> circle_hits_box(cx, cy, radius, b),
        b.min_y <= cy <= b.max_y && cx + radius == b.min_x ==> circle_hits_box(cx, cy, radius, b),
        b.min_x <= cx <= b.max_x && cy - radius == b.max_y ==> circle_hits_box(cx, cy, radius, b),
        b.min_x <= cx <= b.max_x && cy + radius == b.min_y ==> circle_hits_box(cx, cy, radius, b),
        cx - radius == b.max_x + eps ==> !circle_hits_box(cx, cy, radius, b),
        cx + radius == b.min_x - eps ==> !circle_hits_box(cx, cy, radius, b),
        cy - radius == b.max_y + eps ==> !circle_hits_box(cx, cy, radius, b),
        cy + radius == b.min_y - eps ==> !circle_hits_box(cx, cy, radius, b),
{
    let dx = cx - crate::collision::clamp(cx, b.min_x, b.max_x);
    let dy = cy - crate::collision::clamp(cy, b.min_y, b.max_y);
    if b.min_y <= cy <= b.max_y && (cx - radius == b.max_x || cx + radius == b.min_x) {
        assert(dx * dx + dy * dy <= radius * radius) by (nonlinear_arith)
            requires
                dx == radius || dx == -radius,
                dy == 0,
        ;
    }
    if b.min_x <= cx <= b.max_x && (cy - radius == b.max_y || cy + radius == b.min_y) {
        assert(dx * dx + dy * dy <= radius * radius) by (nonlinear_arith)
            requires
                dy == radius || dy == -radius,
                dx == 0,
        ;
    }
    if cx - radius == b.max_x + eps || cx + radius == b.min_x - eps {
        assert(dx * dx + dy * dy > radius * radius) by (nonlinear_arith)
            requires
                dx == radius + eps || dx == -(radius + eps),
                radius >= 0,
                eps > 0,
        ;
    }
    if cy - radius == b.max_y + eps || cy + radius == b.min_y - eps {
        assert(dx * dx + dy * dy > radius * radius) by (nonlinear_arith)
            requires
                dy == radius + eps || dy == -(radius + eps),
                radius >= 0,
                eps > 0,
        ;
    }
}

/// A reset puts the player back at rest at the centre height, zeroes the
/// score, makes the session active, removes every old pair and recreates the
/// initial burst at the positions it had when the session started.
pub proof fn law_reset_restores(w: World)
    requires
        w.wf(),
        w.next_id + w.config.spawn_count <= u64::MAX,
    ensures
        w.reset().wf(),
        w.reset().position_y == 0,
        w.reset().velocity_y == 0,
        w.reset().score == 0,
        w.reset().state == SessionState::Active,
        w.reset().config == w.config,
        w.reset().gravity == w.gravity,
        w.reset().pipes.len() == w.config.spawn_count,
        w.reset().pipes.len() == World::initial(w.config).pipes.len(),
        forall|i: int|
            0 <= i < w.config.spawn_count ==> (#[trigger] w.reset().pipes[i]).center_x
                == World::initial(w.config).pipes[i].center_x && w.reset().pipes[i].center_x
                == initial_x(
                w.config.pipe_start as int,
                w.config.spawn_x(),
                w.config.spawn_count as int,
                i,
            ) && w.reset().pipes[i].id == w.next_id + i,
        forall|i: int| 0 <= i < w.pipes.len() ==> gone(w.reset(), (#[trigger] w.pipes[i]).id),
{
    law_world_stays_well_formed(w, 0, 0, 0, 0);
    let n = w.config.spawn_count as int;
    lemma_burst_wf(w.config, n, w.config.pipe_start as int, w.config.spawn_x(), w.next_id);
    lemma_burst_wf(w.config, n, w.config.pipe_start as int, w.config.spawn_x(), 0);
    let burst = w.reset().pipes;
    assert forall|i: int| 0 <= i < w.pipes.len() implies gone(
        w.reset(),
        (#[trigger] w.pipes[i]).id,
    ) by {
        let id = w.pipes[i].id;
        assert forall|k: int| 0 <= k < burst.len() implies (#[trigger] burst[k]).id != id by {
            assert(burst[k].id == w.next_id + k);
        }
    }
}

/// A fresh session is well formed, active, and free of violations of the
/// vertical bounds.
pub proof fn law_initial_world(cfg: Config)
    requires
        cfg.valid(),
    ensures
        World::initial(cfg).wf(),
        World::initial(cfg).state == SessionState::Active,
        World::initial(cfg).score == 0,
        !out_of_bounds(0, cfg.player_half_height as int, cfg.world_height as int),
{
    lemma_burst_wf(cfg, cfg.spawn_count as int, cfg.pipe_start as int, cfg.spawn_x(), 0);
}

} // verus!
