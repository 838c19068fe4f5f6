//! The obstacle scroller and spawner: pairs of pipes that share one horizontal
//! coordinate, scroll left at constant speed, and are retired once they have
//! left the world.

use vstd::prelude::*;
use crate::config::Config;
use crate::config::SimError;
use crate::collision::Aabb;
use crate::collision::Box2;
use crate::collision::COORD_LIMIT;

verus! {

/// One top and bottom pipe sharing a horizontal coordinate. `id` is the
/// pair's handle: no two pairs of a session ever share one.
#[derive(Clone, Copy, Debug, PartialEq, Eq, Structural)]
pub struct ObstaclePair {
    pub id: u64,
    pub center_x: i64,
}

/// The upper pipe of a pair, centred on the top boundary of the world.
#[derive(Clone, Copy, Debug, PartialEq, Eq, Structural)]
pub struct TopPipe {
    pub center_x: i64,
}

/// The lower pipe of a pair, centred on the bottom boundary of the world.
#[derive(Clone, Copy, Debug, PartialEq, Eq, Structural)]
pub struct BottomPipe {
    pub center_x: i64,
}

/// The box of a top pipe, in half units: as wide as the pipe, as tall as the
/// pipe, centred on the top boundary.
pub open spec fn top_box(cfg: Config, center_x: int) -> Box2 {
    Box2 {
        min_x: 2 * center_x - 2 * cfg.pipe_half_width,
        max_x: 2 * center_x + 2 * cfg.pipe_half_width,
        min_y: cfg.world_height - cfg.pipe_height(),
        max_y: cfg.world_height + cfg.pipe_height(),
    }
}

/// The box of a bottom pipe, in half units: the mirror image of the top one.
pub open spec fn bottom_box(cfg: Config, center_x: int) -> Box2 {
    Box2 {
        min_x: 2 * center_x - 2 * cfg.pipe_half_width,
        max_x: 2 * center_x + 2 * cfg.pipe_half_width,
        min_y: -cfg.world_height - cfg.pipe_height(),
        max_y: -cfg.world_height + cfg.pipe_height(),
    }
}

impl TopPipe {
    /// The pipe's true extents as a box, in half units.
    pub fn collider(&self, cfg: &Config) -> (b: Aabb)
        requires
            cfg.valid(),
        ensures
            b@ == top_box(*cfg, self.center_x as int),
            -COORD_LIMIT <= b.min_x <= b.max_x <= COORD_LIMIT,
            -COORD_LIMIT <= b.min_y <= b.max_y <= COORD_LIMIT,
    {
        let x: i128 = 2 * (self.center_x as i128);
        let w: i128 = 2 * (cfg.pipe_half_width as i128);
        let h: i128 = cfg.world_height as i128;
        let p: i128 = h - cfg.pipe_gap as i128;
        Aabb { min_x: x - w, max_x: x + w, min_y: h - p, max_y: h + p }
    }
}

impl BottomPipe {
    /// The pipe's true extents as a box, in half units.
    pub fn collider(&self, cfg: &Config) -> (b: Aabb)
        requires
            cfg.valid(),
        ensures
            b@ == bottom_box(*cfg, self.center_x as int),
            -COORD_LIMIT <= b.min_x <= b.max_x <= COORD_LIMIT,
            -COORD_LIMIT <= b.min_y <= b.max_y <= COORD_LIMIT,
    {
        let x: i128 = 2 * (self.center_x as i128);
        let w: i128 = 2 * (cfg.pipe_half_width as i128);
        let h: i128 = cfg.world_height as i128;
        let p: i128 = h - cfg.pipe_gap as i128;
        Aabb { min_x: x - w, max_x: x + w, min_y: -h - p, max_y: -h + p }
    }
}

impl ObstaclePair {
    /// The upper pipe of the pair.
    pub fn top(&self) -> (t: TopPipe)
        ensures
            t.center_x == self.center_x,
    {
        TopPipe { center_x: self.center_x }
    }

    /// The lower pipe of the pair.
    pub fn bottom(&self) -> (b: BottomPipe)
        ensures
            b.center_x == self.center_x,
    {
        BottomPipe { center_x: self.center_x }
    }
}

/// A pair is retired once its right edge lies left of the world's left
/// boundary.
pub open spec fn retired(cfg: Config, center_x: int) -> bool {
    2 * (center_x + cfg.pipe_half_width) < -cfg.world_width
}

/// The pairs after scrolling `shift` to the left: every pair moves by exactly
/// `shift`, the retired ones are dropped, and the others keep their handles
/// and their order.
pub open spec fn scrolled(cfg: Config, pipes: Seq<ObstaclePair>, shift: int) -> Seq<ObstaclePair>
    decreases pipes.len(),
{
    if pipes.len() == 0 {
        Seq::empty()
    } else {
        let rest = scrolled(cfg, pipes.drop_last(), shift);
        let x = pipes.last().center_x - shift;
        if retired(cfg, x) {
            rest
        } else {
            rest.push(ObstaclePair { id: pipes.last().id, center_x: x as i64 })
        }
    }
}

/// Centre of pair `i` of an initial burst of `n` pairs spread evenly from
/// `start` to `end`, both ends included (rounded down to a whole unit).
pub open spec fn initial_x(start: int, end: int, n: int, i: int) -> int {
    start + ((end - start) * i) / (n - 1)
}

/// An initial burst: `n` pairs from `start` to `end`, with consecutive
/// handles from `first_id` on.
pub open spec fn initial_pipes(start: int, end: int, n: int, first_id: int) -> Seq<ObstaclePair> {
    Seq::new(
        n as nat,
        |i: int|
            ObstaclePair {
                id: (first_id + i) as u64,
                center_x: initial_x(start, end, n, i) as i64,
            },
    )
}

/// Pairs in spawn order: handles strictly increase, and an older pair is
/// never to the right of a younger one.
pub open spec fn ordered(pipes: Seq<ObstaclePair>) -> bool {
    forall|i: int, j: int|
        0 <= i < j < pipes.len() ==> (#[trigger] pipes[i]).id < (#[trigger] pipes[j]).id
            && pipes[i].center_x <= pipes[j].center_x
}

/// Every pair has a handle below `next_id` and lies at or left of `right`.
pub open spec fn bounded(pipes: Seq<ObstaclePair>, next_id: int, right: int) -> bool {
    forall|i: int|
        0 <= i < pipes.len() ==> (#[trigger] pipes[i]).id < next_id && pipes[i].center_x <= right
}

/// A pair that stays has a centre within the machine range.
pub proof fn lemma_kept_fits(cfg: Config, center_x: int, shift: int)
    requires
        cfg.valid(),
        i64::MIN <= center_x <= i64::MAX,
        shift >= 0,
        !retired(cfg, center_x - shift),
    ensures
        i64::MIN <= center_x - shift <= i64::MAX,
{
}

/// Every pair that is left after a scroll is one of the old pairs, moved by
/// exactly `shift`, and not retired.
pub proof fn lemma_scrolled_origin(cfg: Config, pipes: Seq<ObstaclePair>, shift: int, k: int)
    requires
        cfg.valid(),
        shift >= 0,
        0 <= k < scrolled(cfg, pipes, shift).len(),
    ensures
        exists|j: int|
            k <= j < pipes.len() && scrolled(cfg, pipes, shift)[k].id == (#[trigger] pipes[j]).id
                && scrolled(cfg, pipes, shift)[k].center_x == pipes[j].center_x - shift
                && !retired(cfg, pipes[j].center_x - shift),
    decreases pipes.len(),
{
    let rest = scrolled(cfg, pipes.drop_last(), shift);
    let last = pipes.len() - 1;
    lemma_scrolled_len(cfg, pipes.drop_last(), shift);
    if k < rest.len() {
        lemma_scrolled_origin(cfg, pipes.drop_last(), shift, k);
        let j = choose|j: int|
            k <= j < pipes.drop_last().len() && rest[k].id == (#[trigger] pipes.drop_last()[j]).id
                && rest[k].center_x == pipes.drop_last()[j].center_x - shift && !retired(
                cfg,
                pipes.drop_last()[j].center_x - shift,
            );
        assert(pipes[j] == pipes.drop_last()[j]);
    } else {
        lemma_kept_fits(cfg, pipes[last].center_x as int, shift);
        assert(scrolled(cfg, pipes, shift)[k].id == pipes[last].id);
    }
}

/// A scroll never adds pairs.
pub proof fn lemma_scrolled_len(cfg: Config, pipes: Seq<ObstaclePair>, shift: int)
    ensures
        scrolled(cfg, pipes, shift).len() <= pipes.len(),
    decreases pipes.len(),
{
    if pipes.len() > 0 {
        lemma_scrolled_len(cfg, pipes.drop_last(), shift);
    }
}

/// A scroll that retires no pair keeps their number.
pub proof fn lemma_scrolled_full(cfg: Config, pipes: Seq<ObstaclePair>, shift: int)
    requires
        forall|j: int|
            0 <= j < pipes.len() ==> !retired(cfg, (#[trigger] pipes[j]).center_x - shift),
    ensures
        scrolled(cfg, pipes, shift).len() == pipes.len(),
    decreases pipes.len(),
{
    if pipes.len() > 0 {
        let front = pipes.drop_last();
        assert forall|j: int| 0 <= j < front.len() implies !retired(
            cfg,
            (#[trigger] front[j]).center_x - shift,
        ) by {
            assert(front[j] == pipes[j]);
        }
        lemma_scrolled_full(cfg, front, shift);
        assert(!retired(cfg, pipes[pipes.len() - 1].center_x - shift));
    }
}

/// A pair that is not retired by a scroll is still there afterwards, with its
/// handle, moved by exactly `shift`.
pub proof fn lemma_scrolled_keeps(cfg: Config, pipes: Seq<ObstaclePair>, shift: int, j: int)
    requires
        cfg.valid(),
        shift >= 0,
        0 <= j < pipes.len(),
        !retired(cfg, pipes[j].center_x - shift),
    ensures
        exists|k: int|
            0 <= k < scrolled(cfg, pipes, shift).len() && (#[trigger] scrolled(
                cfg,
                pipes,
                shift,
            )[k]).id == pipes[j].id && scrolled(cfg, pipes, shift)[k].center_x == pipes[j].center_x
                - shift,
    decreases pipes.len(),
{
    let rest = scrolled(cfg, pipes.drop_last(), shift);
    let last = pipes.len() - 1;
    if j == last {
        lemma_kept_fits(cfg, pipes[last].center_x as int, shift);
        let k = rest.len() as int;
        assert(scrolled(cfg, pipes, shift)[k].id == pipes[j].id);
    } else {
        lemma_scrolled_keeps(cfg, pipes.drop_last(), shift, j);
        assert(pipes[j] == pipes.drop_last()[j]);
        let k = choose|k: int|
            0 <= k < rest.len() && (#[trigger] rest[k]).id == pipes.drop_last()[j].id
                && rest[k].center_x == pipes.drop_last()[j].center_x - shift;
        assert(scrolled(cfg, pipes, shift)[k] == rest[k]);
    }
}

/// A scroll keeps the pairs in spawn order and within their bounds.
pub proof fn lemma_scrolled_ordered(
    cfg: Config,
    pipes: Seq<ObstaclePair>,
    shift: int,
    next_id: int,
    right: int,
)
    requires
        cfg.valid(),
        shift >= 0,
        ordered(pipes),
        bounded(pipes, next_id, right),
    ensures
        ordered(scrolled(cfg, pipes, shift)),
        bounded(scrolled(cfg, pipes, shift), next_id, right),
{
    let out = scrolled(cfg, pipes, shift);
    assert forall|k: int| 0 <= k < out.len() implies (#[trigger] out[k]).id < next_id
        && out[k].center_x <= right by {
        lemma_scrolled_origin(cfg, pipes, shift, k);
    }
    assert forall|a: int, b: int| 0 <= a < b < out.len() implies (#[trigger] out[a]).id < (
    #[trigger] out[b]).id && out[a].center_x <= out[b].center_x by {
        lemma_scrolled_order_pair(cfg, pipes, shift, a, b);
    }
}

proof fn lemma_scrolled_order_pair(cfg: Config, pipes: Seq<ObstaclePair>, shift: int, a: int, b: int)
    requires
        cfg.valid(),
        shift >= 0,
        ordered(pipes),
        0 <= a < b < scrolled(cfg, pipes, shift).len(),
    ensures
        scrolled(cfg, pipes, shift)[a].id < scrolled(cfg, pipes, shift)[b].id,
        scrolled(cfg, pipes, shift)[a].center_x <= scrolled(cfg, pipes, shift)[b].center_x,
    decreases pipes.len(),
{
    let front = pipes.drop_last();
    let rest = scrolled(cfg, front, shift);
    let last = pipes.len() - 1;
    lemma_scrolled_len(cfg, front, shift);
    assert forall|i: int, j: int| 0 <= i < j < front.len() implies (#[trigger] front[i]).id < (
    #[trigger] front[j]).id && front[i].center_x <= front[j].center_x by {
        assert(front[i] == pipes[i]);
        assert(front[j] == pipes[j]);
    }
    if b < rest.len() {
        lemma_scrolled_order_pair(cfg, front, shift, a, b);
    } else {
        lemma_scrolled_origin(cfg, front, shift, a);
        let j = choose|j: int|
            a <= j < front.len() && rest[a].id == (#[trigger] front[j]).id && rest[a].center_x
                == front[j].center_x - shift && !retired(cfg, front[j].center_x - shift);
        assert(front[j] == pipes[j]);
        assert(pipes[j].id < pipes[last].id);
        lemma_kept_fits(cfg, pipes[last].center_x as int, shift);
    }
}

/// Moves every pair left by the scroll speed times `dt` and retires the pairs
/// that have left the world. A negative `dt` is refused.
pub fn move_pipes(cfg: &Config, pipes: &mut Vec<ObstaclePair>, dt: i64) -> (r: Result<(), SimError>)
    requires
        cfg.valid(),
    ensures
        dt < 0 ==> r == Err::<(), SimError>(SimError::InvalidArgument) && final(pipes)@ == old(pipes)@,
        dt >= 0 ==> r.is_ok() && final(pipes)@ == scrolled(*cfg, old(pipes)@, cfg.pipe_speed * dt),
{
    if dt < 0 {
        return Err(SimError::InvalidArgument);
    }
    let speed: i128 = cfg.pipe_speed as i128;
    let ticks: i128 = dt as i128;
    assert(0 <= speed * ticks <= 1_000_000_000_000 * 0x8000_0000_0000_0000) by (nonlinear_arith)
        requires
            0 <= speed <= 1_000_000_000_000,
            0 <= ticks <= 0x8000_0000_0000_0000,
    ;
    let shift: i128 = speed * ticks;
    let half: i128 = cfg.pipe_half_width as i128;
    let width: i128 = cfg.world_width as i128;
    let mut kept: Vec<ObstaclePair> = Vec::new();
    let mut i: usize = 0;
    while i < pipes.len()
        invariant
            cfg.valid(),
            0 <= i <= pipes.len(),
            pipes@ == old(pipes)@,
            shift == cfg.pipe_speed * dt,
            0 <= shift <= 1_000_000_000_000 * 0x8000_0000_0000_0000,
            half == cfg.pipe_half_width,
            width == cfg.world_width,
            kept@ == scrolled(*cfg, pipes@.subrange(0, i as int), shift as int),
        decreases pipes.len() - i,
    {
        let pair = pipes[i];
        let x: i128 = pair.center_x as i128 - shift;
        proof {
            assert(pipes@.subrange(0, i + 1).drop_last() == pipes@.subrange(0, i as int));
            assert(pipes@.subrange(0, i + 1).last() == pair);
        }
        if !(2 * (x + half) < -width) {
            kept.push(ObstaclePair { id: pair.id, center_x: x as i64 });
        }
        i += 1;
    }
    proof {
        assert(pipes@.subrange(0, i as int) == pipes@);
    }
    *pipes = kept;
    Ok(())
}

/// Adds one pair centred at `center_x` under the handle `id`.
pub fn spawn_pipes_at(pipes: &mut Vec<ObstaclePair>, center_x: i64, id: u64)
    ensures
        final(pipes)@ == old(pipes)@.push(ObstaclePair { id, center_x }),
{
    pipes.push(ObstaclePair { id, center_x });
}

/// Spawns one new pair at the right edge of the world.
pub fn spawn_new_pipes(cfg: &Config, pipes: &mut Vec<ObstaclePair>, id: u64)
    requires
        cfg.valid(),
    ensures
        final(pipes)@ == old(pipes)@.push(ObstaclePair { id, center_x: cfg.spawn_x() as i64 }),
        cfg.spawn_x() as i64 == cfg.spawn_x(),
{
    spawn_pipes_at(pipes, cfg.spawn_edge(), id);
}

/// When an initial burst can be made: it is empty or has two ends, and the
/// ends are in order.
pub open spec fn burst_valid(n: int, start: int, end: int) -> bool {
    n != 1 && start <= end
}

/// Every centre of a burst lies between its ends.
pub proof fn lemma_initial_x_range(start: int, end: int, n: int, i: int)
    requires
        start <= end,
        0 <= i < n,
        n >= 2,
    ensures
        start <= initial_x(start, end, n, i) <= end,
        i == 0 ==> initial_x(start, end, n, i) == start,
        i == n - 1 ==> initial_x(start, end, n, i) == end,
{
    let span = end - start;
    let d = n - 1;
    assert(0 <= span * i <= span * d) by (nonlinear_arith)
        requires
            0 <= span,
            0 <= i <= d,
    ;
    assert(0 <= (span * i) / d <= span) by (nonlinear_arith)
        requires
            0 <= span * i <= span * d,
            d > 0,
    ;
    if i == 0 {
        assert(span * 0 == 0);
    }
    if i == d {
        assert((span * d) / d == span) by (nonlinear_arith)
            requires
                d > 0,
        ;
    }
}

/// The centres of a burst never decrease from one pair to the next.
pub proof fn lemma_initial_x_monotone(start: int, end: int, n: int, i: int, j: int)
    requires
        start <= end,
        0 <= i <= j < n,
        n >= 2,
    ensures
        initial_x(start, end, n, i) <= initial_x(start, end, n, j),
{
    let span = end - start;
    let d = n - 1;
    assert(span * i <= span * j) by (nonlinear_arith)
        requires
            0 <= span,
            0 <= i <= j,
    ;
    assert((span * i) / d <= (span * j) / d) by (nonlinear_arith)
        requires
            span * i <= span * j,
            d > 0,
    ;
}

/// Creates the initial burst: `n` pairs evenly spread from `start` to `end`,
/// with handles from `first_id` on. A burst of exactly one pair has no
/// spacing and is refused as an invalid argument, as are ends out of order;
/// handles beyond the machine range are refused as an overflow.
pub fn spawn_pipes(n: usize, start: i64, end: i64, first_id: u64) -> (r: Result<
    Vec<ObstaclePair>,
    SimError,
>)
    ensures
        !burst_valid(n as int, start as int, end as int) ==> r == Err::<
            Vec<ObstaclePair>,
            SimError,
        >(SimError::InvalidArgument),
        burst_valid(n as int, start as int, end as int) && first_id + n > u64::MAX ==> r == Err::<
            Vec<ObstaclePair>,
            SimError,
        >(SimError::Overflow),
        burst_valid(n as int, start as int, end as int) && first_id + n <= u64::MAX ==> r.is_ok()
            && r.unwrap()@ == initial_pipes(start as int, end as int, n as int, first_id as int),
{
    if n == 1 || start > end {
        return Err(SimError::InvalidArgument);
    }
    if n as u64 > u64::MAX - first_id {
        return Err(SimError::Overflow);
    }
    let mut out: Vec<ObstaclePair> = Vec::new();
    let span: u128 = (end as i128 - start as i128) as u128;
    let mut i: usize = 0;
    while i < n
        invariant
            n != 1,
            start <= end,
            first_id + n <= u64::MAX,
            span == end - start,
            0 <= i <= n,
            out@ == initial_pipes(start as int, end as int, n as int, first_id as int).subrange(
                0,
                i as int,
            ),
        decreases n - i,
    {
        let step: u128 = i as u128;
        let den: u128 = (n - 1) as u128;
        proof {
            lemma_initial_x_range(start as int, end as int, n as int, i as int);
            assert(0 <= span * step <= 0xffff_ffff_ffff_ffff * 0xffff_ffff_ffff_ffff)
                by (nonlinear_arith)
                requires
                    0 <= span <= 0xffff_ffff_ffff_ffff,
                    0 <= step <= 0xffff_ffff_ffff_ffff,
            ;
        }
        let x: i128 = start as i128 + ((span * step) / den) as i128;
        let pair = ObstaclePair { id: first_id + i as u64, center_x: x as i64 };
        out.push(pair);
        proof {
            let all = initial_pipes(start as int, end as int, n as int, first_id as int);
            assert(all[i as int] == pair);
            assert(out@ == all.subrange(0, i + 1));
        }
        i += 1;
    }
    proof {
        let all = initial_pipes(start as int, end as int, n as int, first_id as int);
        assert(all.subrange(0, n as int) == all);
    }
    Ok(out)
}

} // verus!
