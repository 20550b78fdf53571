//! The player ship: bounded horizontal movement and cooldown-gated firing.
//!
//! The remaining cooldown is stored clamped at zero: the reference behaviour
//! lets it run negative, but only the sign of `timer - dt` gates firing, and
//! for non-negative elapsed times the clamped timer gates exactly the same
//! frames, while staying within fixed bounds.

use vstd::prelude::*;
use crate::geometry::{Vec2i, in_range, MAX_DT};
use crate::projectile::Projectile;
use crate::resolution::Resolution;

verus! {

/// Horizontal player speed, in milliunits per millisecond.
pub const PLAYER_SPEED: i64 = 200;

/// Upward projectile speed, in milliunits per millisecond.
pub const BULLET_SPEED: i64 = 400;

/// Minimum time between two shots, in milliseconds.
pub const SHOOT_COOLDOWN: i64 = 500;

/// The single player entity.
#[derive(Clone, Copy, PartialEq, Eq, Structural, Debug)]
pub struct Player {
    /// Current coordinate, in milliunits.
    pub position: Vec2i,
    /// Remaining firing cooldown, in milliseconds; firing is permitted only
    /// when it has run out.
    pub shoot_timer: i64,
}

impl Player {
    /// The position is within the machine limit and the timer within its
    /// fixed bounds.
    pub open spec fn wf(self) -> bool {
        &&& in_range(self.position)
        &&& 0 <= self.shoot_timer <= SHOOT_COOLDOWN
    }
}

/// Net horizontal sign of the held movement keys: both or neither held
/// cancels out.
pub open spec fn horizontal_sign(left: bool, right: bool) -> int {
    (if left {
        -1int
    } else {
        0int
    }) + (if right {
        1int
    } else {
        0int
    })
}

/// Clamps a value into `[lo, hi]`.
pub open spec fn clamp(v: int, lo: int, hi: int) -> int
    recommends
        lo <= hi,
{
    if v < lo {
        lo
    } else if v > hi {
        hi
    } else {
        v
    }
}

/// The player's x-coordinate after one frame: moved by the held keys, then
/// clamped to the screen.
pub open spec fn player_moved_x(p: Player, left: bool, right: bool, dt: i64, half_w: int) -> int {
    clamp(p.position.x + horizontal_sign(left, right) * PLAYER_SPEED * dt, -half_w, half_w)
}

/// Whether the player fires this frame: the fire key is held and the cooldown
/// has run out once this frame's time has elapsed.
pub open spec fn player_fires(timer: int, fire: bool, dt: i64) -> bool {
    fire && timer - dt <= 0
}

/// The cooldown timer after one frame: reset on firing, otherwise run down
/// and clamped at zero.
pub open spec fn timer_next(timer: int, fire: bool, dt: i64) -> int {
    if player_fires(timer, fire, dt) {
        SHOOT_COOLDOWN as int
    } else if timer - dt >= 0 {
        timer - dt
    } else {
        0
    }
}

/// The player after one frame.
pub open spec fn player_after(
    p: Player,
    left: bool,
    right: bool,
    fire: bool,
    dt: i64,
    half_w: int,
) -> Player {
    Player {
        position: Vec2i { x: player_moved_x(p, left, right, dt, half_w) as i64, y: p.position.y },
        shoot_timer: timer_next(p.shoot_timer as int, fire, dt) as i64,
    }
}

/// The projectile spawned by a shot: fired upward from the given position.
pub open spec fn spawned_projectile(position: Vec2i) -> Projectile {
    Projectile { speed: BULLET_SPEED, position }
}

/// Spawns the player at the bottom centre of the screen, ready to fire.
pub fn setup_player(res: &Resolution) -> (p: Player)
    requires
        res.wf(),
    ensures
        p.position.x == 0,
        p.position.y as int == -res.half_height() + res.pixel_ratio * 5_000,
        p.shoot_timer == 0,
        p.wf(),
{
    let y: i64 = -res.half_height_exec() + res.pixel_ratio * 5_000;
    Player { position: Vec2i { x: 0, y }, shoot_timer: 0 }
}

/// One frame of the player subsystem: moves the ship by the held keys and
/// clamps it to the screen, runs the cooldown down, and, when the fire key is
/// held and the cooldown has run out, spawns one projectile at the ship's new
/// position and restarts the cooldown. Holding the key fires exactly once per
/// cooldown interval.
pub fn update_player(
    player: &mut Player,
    left: bool,
    right: bool,
    fire: bool,
    dt: i64,
    res: &Resolution,
) -> (spawn: Option<Projectile>)
    requires
        old(player).wf(),
        res.wf(),
        0 <= dt <= MAX_DT,
    ensures
        *final(player) == player_after(*old(player), left, right, fire, dt, res.half_width()),
        final(player).wf(),
        spawn == (if player_fires(old(player).shoot_timer as int, fire, dt) {
            Some(spawned_projectile(final(player).position))
        } else {
            Option::<Projectile>::None
        }),
        spawn is Some ==> spawn->0.speed == BULLET_SPEED && spawn->0.position
            == final(player).position,
{
    let half_w = res.half_width_exec();
    let step: i64 = PLAYER_SPEED * dt;
    let mut horizontal: i64 = 0;
    if left {
        horizontal = horizontal - 1;
    }
    if right {
        horizontal = horizontal + 1;
    }
    let delta: i64 = if horizontal == 1 {
        step
    } else if horizontal == -1 {
        -step
    } else {
        0
    };
    proof {
        let h = horizontal_sign(left, right);
        assert((h == 1 ==> h * PLAYER_SPEED * dt == PLAYER_SPEED * dt) && (h == -1 ==> h
            * PLAYER_SPEED * dt == -(PLAYER_SPEED * dt)) && (h == 0 ==> h * PLAYER_SPEED * dt == 0))
            by (nonlinear_arith);
        assert(horizontal as int == h);
        assert(delta as int == h * PLAYER_SPEED * dt);
        assert(in_range(old(player).position));
    }
    let mut x = player.position.x + delta;
    if x > half_w {
        x = half_w;
    }
    if x < -half_w {
        x = -half_w;
    }
    player.position.x = x;
    let ran_down = player.shoot_timer <= dt;
    if ran_down {
        player.shoot_timer = 0;
    } else {
        player.shoot_timer = player.shoot_timer - dt;
    }
    if fire && ran_down {
        player.shoot_timer = SHOOT_COOLDOWN;
        Some(Projectile { speed: BULLET_SPEED, position: player.position })
    } else {
        None
    }
}

/// Timer evolution over a run of frames, each frame giving its elapsed time
/// and whether the fire key was held.
pub open spec fn timer_after_frames(t0: int, frames: Seq<(i64, bool)>) -> int
    decreases frames.len(),
{
    if frames.len() == 0 {
        t0
    } else {
        timer_next(timer_after_frames(t0, frames.drop_last()), frames.last().1, frames.last().0)
    }
}

/// Whether a shot is fired during frame `i` of the run.
pub open spec fn fires_at(t0: int, frames: Seq<(i64, bool)>, i: int) -> bool {
    player_fires(timer_after_frames(t0, frames.subrange(0, i)), frames[i].1, frames[i].0)
}

/// Total elapsed time over frames `lo..hi` of the run.
pub open spec fn total_dt(frames: Seq<(i64, bool)>, lo: int, hi: int) -> int
    decreases hi - lo,
{
    if lo >= hi {
        0
    } else {
        frames[hi - 1].0 + total_dt(frames, lo, hi - 1)
    }
}

/// After a shot in frame `j`, the timer can have run down by at most the time
/// elapsed since.
proof fn lemma_timer_lower_bound(t0: int, frames: Seq<(i64, bool)>, j: int, m: int)
    requires
        0 <= j < m <= frames.len(),
        forall|i: int| 0 <= i < frames.len() ==> (#[trigger] frames[i]).0 >= 0,
        fires_at(t0, frames, j),
    ensures
        timer_after_frames(t0, frames.subrange(0, m)) >= SHOOT_COOLDOWN - total_dt(
            frames,
            j + 1,
            m,
        ),
    decreases m - j,
{
    let p = frames.subrange(0, m);
    assert(p.drop_last() =~= frames.subrange(0, m - 1));
    assert(p.last() == frames[m - 1]);
    if m == j + 1 {
        assert(timer_after_frames(t0, p) == timer_next(
            timer_after_frames(t0, frames.subrange(0, j)),
            frames[j].1,
            frames[j].0,
        ));
    } else {
        lemma_timer_lower_bound(t0, frames, j, m - 1);
        assert(frames[m - 1].0 >= 0);
    }
}

/// Cooldown law. For any starting timer and any run of frames with
/// non-negative elapsed times, two shots are always at least
/// `SHOOT_COOLDOWN` milliseconds of simulated time apart: if shots are fired
/// during frames `j` and `k`, the time elapsed over the frames after `j` up
/// to and including `k` is at least the cooldown.
pub proof fn lemma_cooldown_monotonic(t0: int, frames: Seq<(i64, bool)>, j: int, k: int)
    requires
        0 <= j < k < frames.len(),
        forall|i: int| 0 <= i < frames.len() ==> (#[trigger] frames[i]).0 >= 0,
        fires_at(t0, frames, j),
        fires_at(t0, frames, k),
    ensures
        total_dt(frames, j + 1, k + 1) >= SHOOT_COOLDOWN,
{
    lemma_timer_lower_bound(t0, frames, j, k);
    assert(timer_after_frames(t0, frames.subrange(0, k)) - frames[k].0 <= 0);
    assert(total_dt(frames, j + 1, k + 1) == frames[k].0 + total_dt(frames, j + 1, k));
}

} // verus!
