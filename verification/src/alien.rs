//! The alien formation: a grid of entities sharing one direction/boundary
//! state, advanced by a two-phase per-frame state machine.
//!
//! Phase A (`update_aliens`) moves every live alien sideways, records whether
//! any live alien crossed a screen edge (and by how far, last writer wins),
//! refreshes visibility, and records whether the formation breached the
//! bottom. Phase B (`manage_alien_logic`) then applies at most one
//! formation-wide reaction: a pending shift (step down, reverse direction) or,
//! only when no shift is pending, a full reset to the original grid.

use vstd::prelude::*;
use crate::geometry::{Vec2i, iabs, in_range, MAX_COORD, MAX_DT, MAX_OVERSHOOT};
use crate::resolution::Resolution;

verus! {

/// Number of grid columns.
pub const WIDTH: usize = 10;

/// Number of grid rows.
pub const HEIGHT: usize = 5;

/// Number of aliens in the formation: `WIDTH` columns of `HEIGHT` aliens.
pub const ALIEN_COUNT: usize = 50;

/// Distance between neighbouring aliens in the grid, in milliunits.
pub const SPACING: i64 = 24_000;

/// Horizontal formation speed, in milliunits per millisecond.
pub const ALIEN_SPEED: i64 = 100;

/// How far the whole formation steps down on a shift, in milliunits.
pub const ALIEN_SHIFT_AMOUNT: i64 = 32_000;

/// One alien of the formation. Aliens are never destroyed: a dead alien is
/// hidden, excluded from movement and collision, and revived by a reset.
#[derive(Clone, Copy, PartialEq, Eq, Structural, Debug)]
pub struct Alien {
    /// Whether the alien has been hit. The inverse of "alive".
    pub dead: bool,
    /// Whether the renderer should draw the alien this frame.
    pub visible: bool,
    /// Immutable spawn coordinate, the target of a reset.
    pub original_position: Vec2i,
    /// Current coordinate.
    pub position: Vec2i,
}

/// The shared formation state: one instance per formation, written by the two
/// phases of the alien subsystem and read by nothing else.
#[derive(Clone, Copy, PartialEq, Eq, Structural, Debug)]
pub struct AlienManager {
    /// Horizontal sign of travel: `+1` or `-1`.
    pub direction: i64,
    /// Intent, set by phase A: the formation crossed a side boundary and must
    /// step down and reverse.
    pub shift_aliens_down: bool,
    /// Signed distance by which the crossing alien overshot the boundary, in
    /// milliunits; added to every alien by the shift.
    pub dist_from_boundary: i64,
    /// Intent, set by phase A: the formation breached the bottom and must be
    /// restored to its original grid.
    pub reset: bool,
}

impl AlienManager {
    /// The direction is a unit sign and the recorded overshoot is within the
    /// machine limit.
    pub open spec fn wf(self) -> bool {
        &&& (self.direction == 1 || self.direction == -1)
        &&& iabs(self.dist_from_boundary as int) <= MAX_OVERSHOOT
    }
}

/// Every position and spawn position of the formation is within the machine
/// limit.
pub open spec fn aliens_in_range(s: Seq<Alien>) -> bool {
    forall|i: int|
        0 <= i < s.len() ==> #[trigger] in_range(s[i].position) && in_range(
            s[i].original_position,
        )
}

/// Every position of the formation is within one frame's travel of the
/// machine limit: what phase A guarantees of its output and all phase B needs
/// of its input.
pub open spec fn aliens_in_flight_range(s: Seq<Alien>) -> bool {
    forall|i: int|
        0 <= i < s.len() ==> iabs((#[trigger] s[i]).position.x as int) <= MAX_COORD + ALIEN_SPEED
            * MAX_DT && iabs(s[i].position.y as int) <= MAX_COORD + ALIEN_SPEED * MAX_DT
}

/// Where an alien's x-coordinate stands after phase A: live aliens travel
/// `direction * ALIEN_SPEED * dt`, dead aliens do not move.
pub open spec fn moved_x(a: Alien, direction: i64, dt: i64) -> int {
    if a.dead {
        a.position.x as int
    } else {
        a.position.x + direction * ALIEN_SPEED * dt
    }
}

/// The alien is live and its moved x-coordinate lies beyond the screen edge.
pub open spec fn crosses(a: Alien, direction: i64, dt: i64, half_w: int) -> bool {
    !a.dead && iabs(moved_x(a, direction, dt)) > half_w
}

/// Signed correction that brings the crossing alien back onto the boundary it
/// crossed.
pub open spec fn overshoot_of(a: Alien, direction: i64, dt: i64, half_w: int) -> int {
    half_w * direction - moved_x(a, direction, dt)
}

/// Some live alien crosses a screen edge during this frame.
pub open spec fn any_crossing(s: Seq<Alien>, direction: i64, dt: i64, half_w: int) -> bool {
    exists|i: int| 0 <= i < s.len() && crosses(#[trigger] s[i], direction, dt, half_w)
}

/// The overshoot recorded after scanning `s` in order, starting from `dflt`:
/// each crossing alien overwrites the value, so the last crossing alien wins.
pub open spec fn last_overshoot(
    s: Seq<Alien>,
    direction: i64,
    dt: i64,
    half_w: int,
    dflt: int,
) -> int
    decreases s.len(),
{
    if s.len() == 0 {
        dflt
    } else if crosses(s.last(), direction, dt, half_w) {
        overshoot_of(s.last(), direction, dt, half_w)
    } else {
        last_overshoot(s.drop_last(), direction, dt, half_w, dflt)
    }
}

/// Some live alien stands below the bottom of the screen.
pub open spec fn breaches_bottom(s: Seq<Alien>, half_h: int) -> bool {
    exists|i: int|
        0 <= i < s.len() && !(#[trigger] s[i]).dead && (s[i].position.y as int) < -half_h
}

/// The formation after phase A: live aliens moved sideways, visibility
/// refreshed for every alien, nothing else touched.
pub open spec fn phase_a_aliens(s: Seq<Alien>, direction: i64, dt: i64) -> Seq<Alien> {
    Seq::new(
        s.len(),
        |i: int|
            Alien {
                dead: s[i].dead,
                visible: !s[i].dead,
                original_position: s[i].original_position,
                position: Vec2i { x: moved_x(s[i], direction, dt) as i64, y: s[i].position.y },
            },
    )
}

/// The formation state after phase A: intents accumulate (phase A never
/// clears a flag), the overshoot keeps its old value when nothing crossed,
/// and the direction is untouched.
pub open spec fn phase_a_manager(
    s: Seq<Alien>,
    m: AlienManager,
    half_w: int,
    half_h: int,
    dt: i64,
) -> AlienManager {
    AlienManager {
        direction: m.direction,
        shift_aliens_down: m.shift_aliens_down || any_crossing(s, m.direction, dt, half_w),
        dist_from_boundary: last_overshoot(
            s,
            m.direction,
            dt,
            half_w,
            m.dist_from_boundary as int,
        ) as i64,
        reset: m.reset || breaches_bottom(s, half_h),
    }
}

/// One alien after a formation-wide shift: stepped back inside by the
/// recorded overshoot and down by the fixed amount.
pub open spec fn shifted_alien(a: Alien, dist: int) -> Alien {
    Alien {
        dead: a.dead,
        visible: a.visible,
        original_position: a.original_position,
        position: Vec2i {
            x: (a.position.x + dist) as i64,
            y: (a.position.y - ALIEN_SHIFT_AMOUNT) as i64,
        },
    }
}

/// One alien after a full reset: back at its spawn coordinate and alive.
pub open spec fn reset_alien(a: Alien) -> Alien {
    Alien {
        dead: false,
        visible: a.visible,
        original_position: a.original_position,
        position: a.original_position,
    }
}

/// The formation after phase B: a pending shift moves every alien uniformly;
/// otherwise a pending reset restores every alien; otherwise nothing changes.
pub open spec fn phase_b_aliens(s: Seq<Alien>, m: AlienManager) -> Seq<Alien> {
    if m.shift_aliens_down {
        Seq::new(s.len(), |i: int| shifted_alien(s[i], m.dist_from_boundary as int))
    } else if m.reset {
        Seq::new(s.len(), |i: int| reset_alien(s[i]))
    } else {
        s
    }
}

/// The formation state after phase B: a shift clears its flag and flips the
/// direction exactly once (a pending reset then stays for the next frame); a
/// reset clears its flag and restores the initial direction.
pub open spec fn phase_b_manager(m: AlienManager) -> AlienManager {
    if m.shift_aliens_down {
        AlienManager {
            direction: (-(m.direction as int)) as i64,
            shift_aliens_down: false,
            dist_from_boundary: m.dist_from_boundary,
            reset: m.reset,
        }
    } else if m.reset {
        AlienManager {
            direction: 1,
            shift_aliens_down: m.shift_aliens_down,
            dist_from_boundary: m.dist_from_boundary,
            reset: false,
        }
    } else {
        m
    }
}

/// Column of the alien at index `i` of the formation vector.
pub open spec fn grid_col(i: int) -> int {
    i / (HEIGHT as int)
}

/// Row of the alien at index `i` of the formation vector.
pub open spec fn grid_row(i: int) -> int {
    i % (HEIGHT as int)
}

/// Spawn coordinate of the alien in the given column and row: the grid is
/// centered horizontally and anchored just below the top of the screen.
pub open spec fn grid_position(col: int, row: int, res: Resolution) -> Vec2i {
    Vec2i {
        x: (col * SPACING - (WIDTH as int) * SPACING / 2) as i64,
        y: (row * SPACING - (HEIGHT as int) * SPACING + res.half_height()) as i64,
    }
}

/// The alien at index `i` of a freshly spawned formation.
pub open spec fn initial_alien(i: int, res: Resolution) -> Alien {
    Alien {
        dead: false,
        visible: true,
        original_position: grid_position(grid_col(i), grid_row(i), res),
        position: grid_position(grid_col(i), grid_row(i), res),
    }
}

/// The formation state at startup: travelling right, no pending intent.
pub open spec fn initial_manager() -> AlienManager {
    AlienManager { direction: 1, shift_aliens_down: false, dist_from_boundary: 0, reset: false }
}

/// Spawns the full formation: `WIDTH x HEIGHT` aliens laid out on the grid,
/// all alive and visible, each remembering its spawn coordinate, and a fresh
/// formation state.
pub fn setup_aliens(res: &Resolution) -> (r: (Vec<Alien>, AlienManager))
    requires
        res.wf(),
    ensures
        r.0@.len() == ALIEN_COUNT,
        forall|i: int| 0 <= i < ALIEN_COUNT ==> r.0@[i] == initial_alien(i, *res),
        aliens_in_range(r.0@),
        r.1 == initial_manager(),
        r.1.wf(),
{
    let half_h = res.half_height_exec();
    let x_offset: i64 = (WIDTH as i64) * SPACING / 2;
    let y_offset: i64 = (HEIGHT as i64) * SPACING;
    let mut aliens: Vec<Alien> = Vec::new();
    for i in 0..ALIEN_COUNT
        invariant
            aliens@.len() == i,
            forall|k: int| 0 <= k < i ==> aliens@[k] == initial_alien(k, *res),
            aliens_in_range(aliens@),
            half_h == res.half_height(),
            x_offset == 120_000,
            y_offset == 120_000,
            res.wf(),
    {
        let col = i / HEIGHT;
        let row = i % HEIGHT;
        let px: i64 = (col as i64) * SPACING - x_offset;
        let py: i64 = (row as i64) * SPACING - y_offset + half_h;
        let position = Vec2i { x: px, y: py };
        let alien = Alien { dead: false, visible: true, original_position: position, position };
        proof {
            assert(grid_col(i as int) == col as int && grid_row(i as int) == row as int);
            assert(alien == initial_alien(i as int, *res));
        }
        aliens.push(alien);
    }
    let manager = initial_manager_exec();
    (aliens, manager)
}

/// Builds the startup formation state.
fn initial_manager_exec() -> (m: AlienManager)
    ensures
        m == initial_manager(),
{
    AlienManager { direction: 1, shift_aliens_down: false, dist_from_boundary: 0, reset: false }
}

/// Extending the scanned prefix by one alien extends the three phase-A
/// accumulators the way the per-alien body does.
proof fn lemma_scan_step(
    s: Seq<Alien>,
    i: int,
    direction: i64,
    dt: i64,
    half_w: int,
    half_h: int,
    dflt: int,
)
    requires
        0 <= i < s.len(),
    ensures
        any_crossing(s.subrange(0, i + 1), direction, dt, half_w) == (any_crossing(
            s.subrange(0, i),
            direction,
            dt,
            half_w,
        ) || crosses(s[i], direction, dt, half_w)),
        last_overshoot(s.subrange(0, i + 1), direction, dt, half_w, dflt) == (if crosses(
            s[i],
            direction,
            dt,
            half_w,
        ) {
            overshoot_of(s[i], direction, dt, half_w)
        } else {
            last_overshoot(s.subrange(0, i), direction, dt, half_w, dflt)
        }),
        breaches_bottom(s.subrange(0, i + 1), half_h) == (breaches_bottom(s.subrange(0, i), half_h)
            || (!s[i].dead && (s[i].position.y as int) < -half_h)),
{
    let p = s.subrange(0, i + 1);
    let q = s.subrange(0, i);
    assert(p.drop_last() =~= q);
    assert(p.last() == s[i]);
    assert forall|k: int| 0 <= k < q.len() implies q[k] == s[k] by {}
    if any_crossing(q, direction, dt, half_w) {
        let k = choose|k: int| 0 <= k < q.len() && crosses(#[trigger] q[k], direction, dt, half_w);
        assert(crosses(p[k], direction, dt, half_w));
    }
    if any_crossing(p, direction, dt, half_w) && !crosses(s[i], direction, dt, half_w) {
        let k = choose|k: int| 0 <= k < p.len() && crosses(#[trigger] p[k], direction, dt, half_w);
        assert(k < i);
        assert(crosses(q[k], direction, dt, half_w));
    }
    if breaches_bottom(q, half_h) {
        let k = choose|k: int|
            0 <= k < q.len() && !(#[trigger] q[k]).dead && (q[k].position.y as int) < -half_h;
        assert(!p[k].dead && (p[k].position.y as int) < -half_h);
    }
    if breaches_bottom(p, half_h) && !(!s[i].dead && (s[i].position.y as int) < -half_h) {
        let k = choose|k: int|
            0 <= k < p.len() && !(#[trigger] p[k]).dead && (p[k].position.y as int) < -half_h;
        assert(k < i);
        assert(!q[k].dead && (q[k].position.y as int) < -half_h);
    }
}

/// Phase A of the per-frame formation state machine. Moves every live alien
/// horizontally by `direction * ALIEN_SPEED * dt`, records a pending shift
/// with the overshoot of the last crossing alien (last writer wins when
/// several cross in one frame), refreshes every alien's visibility to its
/// liveness, and records a pending reset when a live alien stands below the
/// bottom of the screen. Never clears a flag and never changes the direction.
#[verifier::loop_isolation(false)]
pub fn update_aliens(aliens: &mut Vec<Alien>, manager: &mut AlienManager, res: &Resolution, dt: i64)
    requires
        old(manager).wf(),
        res.wf(),
        0 <= dt <= MAX_DT,
        aliens_in_range(old(aliens)@),
    ensures
        final(aliens)@ == phase_a_aliens(old(aliens)@, old(manager).direction, dt),
        *final(manager) == phase_a_manager(
            old(aliens)@,
            *old(manager),
            res.half_width(),
            res.half_height(),
            dt,
        ),
        final(manager).wf(),
{
    let ghost s0 = aliens@;
    let ghost m0 = *manager;
    let half_w = res.half_width_exec();
    let half_h = res.half_height_exec();
    let step: i64 = ALIEN_SPEED * dt;
    let move_amount: i64 = if manager.direction == 1 {
        step
    } else {
        -step
    };
    proof {
        let d = m0.direction;
        assert((d == 1 ==> d * ALIEN_SPEED * dt == ALIEN_SPEED * dt) && (d == -1 ==> d
            * ALIEN_SPEED * dt == -(ALIEN_SPEED * dt))) by (nonlinear_arith);
        assert(move_amount == m0.direction * ALIEN_SPEED * dt);
    }
    let n = aliens.len();
    for i in 0..n
        invariant
            aliens@.len() == s0.len(),
            forall|k: int| i <= k < s0.len() ==> aliens@[k] == s0[k],
            forall|k: int|
                0 <= k < i ==> aliens@[k] == phase_a_aliens(s0, m0.direction, dt)[k],
            manager.direction == m0.direction,
            manager.shift_aliens_down == (m0.shift_aliens_down || any_crossing(
                s0.subrange(0, i as int),
                m0.direction,
                dt,
                half_w as int,
            )),
            manager.dist_from_boundary as int == last_overshoot(
                s0.subrange(0, i as int),
                m0.direction,
                dt,
                half_w as int,
                m0.dist_from_boundary as int,
            ),
            manager.reset == (m0.reset || breaches_bottom(s0.subrange(0, i as int), half_h as int)),
            iabs(manager.dist_from_boundary as int) <= MAX_OVERSHOOT,
    {
        let a = aliens[i];
        let mut b = a;
        proof {
            assert(in_range(s0[i as int].position));
        }
        if !a.dead {
            let nx = a.position.x + move_amount;
            b.position.x = nx;
            let abs_nx: i64 = if nx < 0 {
                -nx
            } else {
                nx
            };
            if abs_nx > half_w {
                manager.shift_aliens_down = true;
                manager.dist_from_boundary = if manager.direction == 1 {
                    half_w - nx
                } else {
                    -half_w - nx
                };
                proof {
                    assert(manager.dist_from_boundary as int == overshoot_of(
                        s0[i as int],
                        m0.direction,
                        dt,
                        half_w as int,
                    ));
                }
            }
            if a.position.y < -half_h {
                manager.reset = true;
            }
        }
        b.visible = !a.dead;
        aliens[i] = b;
        proof {
            lemma_scan_step(
                s0,
                i as int,
                m0.direction,
                dt,
                half_w as int,
                half_h as int,
                m0.dist_from_boundary as int,
            );
            assert(aliens@[i as int] == phase_a_aliens(s0, m0.direction, dt)[i as int]);
        }
    }
    proof {
        assert(s0.subrange(0, s0.len() as int) =~= s0);
        assert(aliens@ =~= phase_a_aliens(s0, m0.direction, dt));
    }
}

/// Phase B of the per-frame formation state machine: the formation-wide
/// reaction to the intents phase A recorded. At most one reaction applies per
/// frame: a pending shift steps every alien down and back inside and flips
/// the direction; otherwise a pending reset restores every alien to its
/// spawn coordinate, revives the dead, and restores the initial direction.
/// When a shift and a reset are pending at once, only the shift applies and
/// the reset stays pending for the next frame.
#[verifier::loop_isolation(false)]
pub fn manage_alien_logic(aliens: &mut Vec<Alien>, manager: &mut AlienManager)
    requires
        old(manager).wf(),
        aliens_in_flight_range(old(aliens)@),
    ensures
        final(aliens)@ == phase_b_aliens(old(aliens)@, *old(manager)),
        *final(manager) == phase_b_manager(*old(manager)),
        final(manager).wf(),
{
    let ghost s0 = aliens@;
    let ghost m0 = *manager;
    if manager.shift_aliens_down {
        manager.shift_aliens_down = false;
        manager.direction = -manager.direction;
        let dist = manager.dist_from_boundary;
        let n = aliens.len();
        for i in 0..n
            invariant
                aliens@.len() == s0.len(),
                forall|k: int| i <= k < s0.len() ==> aliens@[k] == s0[k],
                forall|k: int| 0 <= k < i ==> aliens@[k] == phase_b_aliens(s0, m0)[k],
        {
            let a = aliens[i];
            let mut b = a;
            proof {
                assert(iabs(s0[i as int].position.x as int) <= MAX_COORD + ALIEN_SPEED * MAX_DT);
                assert(iabs(dist as int) <= MAX_OVERSHOOT);
            }
            b.position.x = a.position.x + dist;
            b.position.y = a.position.y - ALIEN_SHIFT_AMOUNT;
            aliens[i] = b;
            proof {
                assert(b == shifted_alien(s0[i as int], m0.dist_from_boundary as int));
            }
        }
        proof {
            assert(aliens@ =~= phase_b_aliens(s0, m0));
        }
    } else if manager.reset {
        manager.reset = false;
        manager.direction = 1;
        let n = aliens.len();
        for i in 0..n
            invariant
                aliens@.len() == s0.len(),
                forall|k: int| i <= k < s0.len() ==> aliens@[k] == s0[k],
                forall|k: int| 0 <= k < i ==> aliens@[k] == phase_b_aliens(s0, m0)[k],
        {
            let a = aliens[i];
            let mut b = a;
            b.position = a.original_position;
            b.dead = false;
            aliens[i] = b;
            proof {
                assert(b == reset_alien(s0[i as int]));
            }
        }
        proof {
            assert(aliens@ =~= phase_b_aliens(s0, m0));
        }
    }
}

/// The recorded overshoot never leaves the machine limit, whatever prefix of
/// the formation has been scanned.
proof fn lemma_overshoot_bound(s: Seq<Alien>, direction: i64, dt: i64, half_w: int, dflt: int)
    requires
        direction == 1 || direction == -1,
        0 <= dt <= MAX_DT,
        aliens_in_range(s),
        0 <= half_w <= MAX_COORD,
        iabs(dflt) <= MAX_OVERSHOOT,
    ensures
        iabs(last_overshoot(s, direction, dt, half_w, dflt)) <= MAX_OVERSHOOT,
    decreases s.len(),
{
    if s.len() == 0 {
    } else {
        let j = s.len() - 1;
        if crosses(s[j], direction, dt, half_w) {
            assert(in_range(s[j].position));
            assert((direction == 1 ==> direction * ALIEN_SPEED * dt == ALIEN_SPEED * dt) && (
            direction == -1 ==> direction * ALIEN_SPEED * dt == -(ALIEN_SPEED * dt)))
                by (nonlinear_arith);
            assert((direction == 1 ==> half_w * direction == half_w) && (direction == -1 ==> half_w
                * direction == -half_w)) by (nonlinear_arith);
        } else {
            let t = s.drop_last();
            assert forall|k: int| 0 <= k < t.len() implies #[trigger] in_range(t[k].position)
                && in_range(t[k].original_position) by {
                assert(in_range(s[k].position) && in_range(s[k].original_position));
            }
            lemma_overshoot_bound(t, direction, dt, half_w, dflt);
        }
    }
}

/// Phase A moves each alien by at most one frame's travel, so its output
/// stays within one frame's travel of the machine limit.
pub proof fn lemma_phase_a_range(s: Seq<Alien>, direction: i64, dt: i64)
    requires
        direction == 1 || direction == -1,
        0 <= dt <= MAX_DT,
        aliens_in_range(s),
    ensures
        aliens_in_flight_range(phase_a_aliens(s, direction, dt)),
{
    let t = phase_a_aliens(s, direction, dt);
    assert((direction == 1 ==> direction * ALIEN_SPEED * dt == ALIEN_SPEED * dt) && (direction
        == -1 ==> direction * ALIEN_SPEED * dt == -(ALIEN_SPEED * dt))) by (nonlinear_arith);
    assert forall|i: int| 0 <= i < t.len() implies iabs((#[trigger] t[i]).position.x as int)
        <= MAX_COORD + ALIEN_SPEED * MAX_DT && iabs(t[i].position.y as int) <= MAX_COORD
        + ALIEN_SPEED * MAX_DT by {
        assert(in_range(s[i].position));
    }
}

/// Formation bounds law. When any live alien crosses a screen edge during
/// phase A, the recorded overshoot is exactly what brings the last crossing
/// alien (the one whose overshoot wins) back onto that edge: after the next
/// phase B shift its x-coordinate sits at `half_w * direction`, inside
/// `[-half_w, half_w]`. No alien the shift is computed from stays out of
/// bounds past the frame that follows the crossing.
pub proof fn lemma_shift_corrects_boundary(
    s: Seq<Alien>,
    direction: i64,
    dt: i64,
    half_w: int,
    dflt: int,
)
    requires
        direction == 1 || direction == -1,
        half_w >= 0,
        any_crossing(s, direction, dt, half_w),
    ensures
        exists|j: int|
            #![trigger s[j]]
            0 <= j < s.len() && crosses(s[j], direction, dt, half_w) && (forall|k: int|
                j < k < s.len() ==> !crosses(#[trigger] s[k], direction, dt, half_w)) && moved_x(
                s[j],
                direction,
                dt,
            ) + last_overshoot(s, direction, dt, half_w, dflt) == half_w * direction && -half_w
                <= moved_x(s[j], direction, dt) + last_overshoot(s, direction, dt, half_w, dflt)
                <= half_w,
    decreases s.len(),
{
    assert((direction == 1 ==> half_w * direction == half_w) && (direction == -1 ==> half_w
        * direction == -half_w)) by (nonlinear_arith);
    let w = choose|i: int| 0 <= i < s.len() && crosses(#[trigger] s[i], direction, dt, half_w);
    let j = s.len() - 1;
    if crosses(s[j], direction, dt, half_w) {
        assert(s.last() == s[j]);
        assert(moved_x(s[j], direction, dt) + last_overshoot(s, direction, dt, half_w, dflt)
            == half_w * direction);
        assert(forall|k: int| j < k < s.len() ==> !crosses(#[trigger] s[k], direction, dt, half_w));
    } else {
        let t = s.drop_last();
        assert(w < j);
        assert(t[w] == s[w]);
        assert(any_crossing(t, direction, dt, half_w));
        lemma_shift_corrects_boundary(t, direction, dt, half_w, dflt);
        let jt = choose|jt: int|
            #![trigger t[jt]]
            0 <= jt < t.len() && crosses(t[jt], direction, dt, half_w) && (forall|k: int|
                jt < k < t.len() ==> !crosses(#[trigger] t[k], direction, dt, half_w)) && moved_x(
                t[jt],
                direction,
                dt,
            ) + last_overshoot(t, direction, dt, half_w, dflt) == half_w * direction && -half_w
                <= moved_x(t[jt], direction, dt) + last_overshoot(t, direction, dt, half_w, dflt)
                <= half_w;
        assert(t[jt] == s[jt]);
        assert(last_overshoot(s, direction, dt, half_w, dflt) == last_overshoot(
            t,
            direction,
            dt,
            half_w,
            dflt,
        ));
        assert forall|k: int| jt < k < s.len() implies !crosses(
            #[trigger] s[k],
            direction,
            dt,
            half_w,
        ) by {
            if k < j {
                assert(t[k] == s[k]);
            }
        }
        assert(0 <= jt < s.len() && crosses(s[jt], direction, dt, half_w));
    }
}

/// Formation bounds law, over a whole frame. When a live alien crosses a
/// screen edge during phase A of a frame with no shift already pending, that
/// frame's phase B shift puts the alien whose overshoot won (the last
/// crossing alien in scan order) exactly on the boundary it crossed: its
/// x-coordinate after the shift is inside `[-half_w, half_w]`. An alien never
/// remains outside the screen for more than the one frame between crossing
/// and shift.
pub proof fn lemma_formation_bounds(
    s: Seq<Alien>,
    m: AlienManager,
    half_w: int,
    half_h: int,
    dt: i64,
)
    requires
        m.wf(),
        aliens_in_range(s),
        0 <= half_w <= MAX_COORD,
        0 <= dt <= MAX_DT,
        !m.shift_aliens_down,
        any_crossing(s, m.direction, dt, half_w),
    ensures
        phase_a_manager(s, m, half_w, half_h, dt).shift_aliens_down,
        ({
            let after_shift = phase_b_aliens(
                phase_a_aliens(s, m.direction, dt),
                phase_a_manager(s, m, half_w, half_h, dt),
            );
            exists|j: int|
                #![trigger s[j]]
                0 <= j < after_shift.len() && crosses(s[j], m.direction, dt, half_w) && (forall|
                    k: int,
                |
                    j < k < s.len() ==> !crosses(#[trigger] s[k], m.direction, dt, half_w))
                    && -half_w <= after_shift[j].position.x <= half_w
        }),
{
    let direction = m.direction;
    let dflt = m.dist_from_boundary as int;
    let m1 = phase_a_manager(s, m, half_w, half_h, dt);
    let al2 = phase_a_aliens(s, direction, dt);
    let al3 = phase_b_aliens(al2, m1);
    lemma_overshoot_bound(s, direction, dt, half_w, dflt);
    lemma_shift_corrects_boundary(s, direction, dt, half_w, dflt);
    let j = choose|j: int|
        #![trigger s[j]]
        0 <= j < s.len() && crosses(s[j], direction, dt, half_w) && (forall|k: int|
            j < k < s.len() ==> !crosses(#[trigger] s[k], direction, dt, half_w)) && moved_x(
            s[j],
            direction,
            dt,
        ) + last_overshoot(s, direction, dt, half_w, dflt) == half_w * direction && -half_w
            <= moved_x(s[j], direction, dt) + last_overshoot(s, direction, dt, half_w, dflt)
            <= half_w;
    assert((direction == 1 ==> direction * ALIEN_SPEED * dt == ALIEN_SPEED * dt) && (direction
        == -1 ==> direction * ALIEN_SPEED * dt == -(ALIEN_SPEED * dt))) by (nonlinear_arith);
    assert(in_range(s[j].position));
    assert(al2[j].position.x as int == moved_x(s[j], direction, dt));
    assert(m1.dist_from_boundary as int == last_overshoot(s, direction, dt, half_w, dflt));
    assert(al3[j] == shifted_alien(al2[j], m1.dist_from_boundary as int));
    assert(al3[j].position.x as int == moved_x(s[j], direction, dt) + last_overshoot(
        s,
        direction,
        dt,
        half_w,
        dflt,
    ));
}

/// Direction invariant law. Through a full frame of the formation state
/// machine the direction stays a unit sign and the state stays well formed;
/// phase A never touches the direction; phase B flips it exactly once when a
/// shift is pending, restores it to `+1` when only a reset is pending, and
/// leaves it alone otherwise.
pub proof fn lemma_direction_invariant(
    s: Seq<Alien>,
    m: AlienManager,
    half_w: int,
    half_h: int,
    dt: i64,
)
    requires
        m.wf(),
        aliens_in_range(s),
        0 <= half_w <= MAX_COORD,
        0 <= dt <= MAX_DT,
    ensures
        ({
            let m1 = phase_a_manager(s, m, half_w, half_h, dt);
            let m2 = phase_b_manager(m1);
            &&& m1.direction == m.direction
            &&& m1.wf()
            &&& m2.wf()
            &&& (m1.shift_aliens_down ==> m2.direction == -m1.direction)
            &&& (!m1.shift_aliens_down && m1.reset ==> m2.direction == 1)
            &&& (!m1.shift_aliens_down && !m1.reset ==> m2.direction == m1.direction)
        }),
{
    lemma_overshoot_bound(s, m.direction, dt, half_w, m.dist_from_boundary as int);
}

/// Reset law. A reset (pending, with no shift pending) restores every alien
/// to its spawn coordinate and revives it, whatever the formation looked like
/// before; and resetting an already-reset formation changes nothing.
pub proof fn lemma_reset_restores(s: Seq<Alien>, m: AlienManager)
    requires
        !m.shift_aliens_down,
        m.reset,
    ensures
        phase_b_aliens(s, m).len() == s.len(),
        forall|i: int|
            0 <= i < s.len() ==> (#[trigger] phase_b_aliens(s, m)[i]).position
                == s[i].original_position && !phase_b_aliens(s, m)[i].dead && phase_b_aliens(
                s,
                m,
            )[i].original_position == s[i].original_position,
        phase_b_aliens(phase_b_aliens(s, m), m) == phase_b_aliens(s, m),
{
    assert(phase_b_aliens(phase_b_aliens(s, m), m) =~= phase_b_aliens(s, m));
}

} // verus!
