//! Projectiles and their two per-frame duties: advancing every projectile and
//! removing the off-screen ones, and the all-pairs collision scan between
//! live aliens and projectiles.

use vstd::prelude::*;
use crate::alien::{Alien, aliens_in_range};
use crate::geometry::{Vec2i, iabs, in_range, MAX_COORD, MAX_DT, MAX_SPEED};
use crate::resolution::Resolution;

verus! {

/// Distance under which a projectile hits an alien, in milliunits.
pub const BULLET_RADIUS: i64 = 24_000;

/// One projectile. Created by the player subsystem, removed when it leaves
/// the screen or hits an alien.
#[derive(Clone, Copy, PartialEq, Eq, Structural, Debug)]
pub struct Projectile {
    /// Signed vertical speed, in milliunits per millisecond; positive means
    /// upward.
    pub speed: i64,
    /// Current coordinate, in milliunits.
    pub position: Vec2i,
}

impl Projectile {
    /// The speed and position are within the machine limits.
    pub open spec fn wf(self) -> bool {
        &&& iabs(self.speed as int) <= MAX_SPEED
        &&& in_range(self.position)
    }
}

/// Every projectile of the sequence is within the machine limits.
pub open spec fn projectiles_wf(s: Seq<Projectile>) -> bool {
    forall|i: int| 0 <= i < s.len() ==> (#[trigger] s[i]).wf()
}

/// A projectile that has just been advanced: still within one frame's travel
/// of the machine limit.
pub open spec fn proj_in_flight(p: Projectile) -> bool {
    &&& iabs(p.speed as int) <= MAX_SPEED
    &&& iabs(p.position.x as int) <= MAX_COORD
    &&& iabs(p.position.y as int) <= MAX_COORD + MAX_SPEED * MAX_DT
}

/// Every projectile of the sequence is within one frame's travel of the
/// machine limit.
pub open spec fn projectiles_in_flight(s: Seq<Projectile>) -> bool {
    forall|i: int| 0 <= i < s.len() ==> proj_in_flight(#[trigger] s[i])
}

/// One projectile advanced by one frame: it climbs `speed * dt`.
pub open spec fn proj_step(p: Projectile, dt: i64) -> Projectile {
    Projectile {
        speed: p.speed,
        position: Vec2i { x: p.position.x, y: (p.position.y + p.speed * dt) as i64 },
    }
}

/// Whether the advanced projectile is still on screen and stays.
pub open spec fn proj_kept(p: Projectile, dt: i64, half_h: int) -> bool {
    p.position.y + p.speed * dt <= half_h
}

/// The projectiles after one frame: each advanced by its own speed, those
/// beyond the top of the screen removed, the order of the rest kept.
pub open spec fn cleanup(s: Seq<Projectile>, dt: i64, half_h: int) -> Seq<Projectile>
    decreases s.len(),
{
    if s.len() == 0 {
        s
    } else {
        let rest = cleanup(s.drop_last(), dt, half_h);
        if proj_kept(s.last(), dt, half_h) {
            rest.push(proj_step(s.last(), dt))
        } else {
            rest
        }
    }
}

/// One frame of the projectile subsystem: advances every projectile by
/// `speed * dt` and removes exactly those whose new y-coordinate exceeds the
/// top of the screen, keeping the order of the survivors. Removal is
/// immediate and final; there is no pooling.
#[verifier::loop_isolation(false)]
pub fn update_projectiles(projectiles: &mut Vec<Projectile>, res: &Resolution, dt: i64)
    requires
        projectiles_wf(old(projectiles)@),
        res.wf(),
        0 <= dt <= MAX_DT,
    ensures
        final(projectiles)@ == cleanup(old(projectiles)@, dt, res.half_height()),
{
    let ghost s0 = projectiles@;
    let half_h = res.half_height_exec();
    let n = projectiles.len();
    let mut kept: Vec<Projectile> = Vec::new();
    let mut i: usize = 0;
    while i < n
        invariant
            i <= n,
            n == s0.len(),
            projectiles@ == s0,
            kept@ == cleanup(s0.subrange(0, i as int), dt, half_h as int),
        decreases n - i,
    {
        let p = projectiles[i];
        proof {
            assert(s0[i as int].wf());
            let sp = p.speed;
            assert((0 <= sp ==> sp * dt <= MAX_SPEED * dt && sp * dt >= 0) && (sp < 0 ==> sp * dt
                >= -(MAX_SPEED * dt) && sp * dt <= 0)) by (nonlinear_arith)
                requires
                    -MAX_SPEED <= sp <= MAX_SPEED,
                    0 <= dt,
            {}
        }
        let ny = p.position.y + p.speed * dt;
        if ny <= half_h {
            kept.push(Projectile { speed: p.speed, position: Vec2i { x: p.position.x, y: ny } });
        }
        proof {
            let q = s0.subrange(0, i + 1);
            assert(q.drop_last() =~= s0.subrange(0, i as int));
            assert(q.last() == s0[i as int]);
        }
        i = i + 1;
    }
    proof {
        assert(s0.subrange(0, n as int) =~= s0);
    }
    *projectiles = kept;
}

/// Cleanup leaves every survivor within one frame's travel of the machine
/// limit, and on screen vertically.
pub proof fn lemma_cleanup_in_flight(s: Seq<Projectile>, dt: i64, half_h: int)
    requires
        projectiles_wf(s),
        0 <= dt <= MAX_DT,
        0 <= half_h <= MAX_COORD,
    ensures
        projectiles_in_flight(cleanup(s, dt, half_h)),
        forall|i: int|
            0 <= i < cleanup(s, dt, half_h).len() ==> (#[trigger] cleanup(
                s,
                dt,
                half_h,
            )[i]).position.y <= half_h,
    decreases s.len(),
{
    if s.len() > 0 {
        let t = s.drop_last();
        assert forall|i: int| 0 <= i < t.len() implies (#[trigger] t[i]).wf() by {
            assert(s[i].wf());
        }
        lemma_cleanup_in_flight(t, dt, half_h);
        let p = s.last();
        assert(p.wf());
        if proj_kept(p, dt, half_h) {
            let sp = p.speed;
            assert(iabs(sp * dt) <= MAX_SPEED * MAX_DT) by (nonlinear_arith)
                requires
                    -MAX_SPEED <= sp <= MAX_SPEED,
                    0 <= dt <= MAX_DT,
            {}
            assert(proj_in_flight(proj_step(p, dt)));
        }
    }
}

/// The square of an integer.
pub open spec fn sq(v: int) -> int {
    v * v
}

/// Whether a projectile is close enough to an alien to hit it: the Euclidean
/// distance between the two positions is under `BULLET_RADIUS`, compared on
/// squares to stay in integers.
pub open spec fn hits(a: Alien, p: Projectile) -> bool {
    sq(a.position.x - p.position.x) + sq(a.position.y - p.position.y) < sq(BULLET_RADIUS as int)
}

/// The consumed flags after one live alien has scanned the projectiles: every
/// unconsumed projectile within range is consumed.
pub open spec fn consume_row(a: Alien, ps: Seq<Projectile>, c: Seq<bool>) -> Seq<bool> {
    Seq::new(c.len(), |j: int| c[j] || hits(a, ps[j]))
}

/// The consumed flags after the first `i` aliens of the scan: each live alien
/// consumes, in order, every projectile that is still unconsumed and within
/// range of it; dead aliens are excluded from the scan.
pub open spec fn consumed_after(aliens: Seq<Alien>, ps: Seq<Projectile>, i: int) -> Seq<bool>
    decreases i,
{
    if i <= 0 {
        Seq::new(ps.len(), |j: int| false)
    } else {
        let c = consumed_after(aliens, ps, i - 1);
        if !aliens[i - 1].dead {
            consume_row(aliens[i - 1], ps, c)
        } else {
            c
        }
    }
}

/// Whether the scan kills alien `i`: it was live, and when its turn came some
/// projectile not yet consumed by an earlier alien was within range.
pub open spec fn alien_hit(aliens: Seq<Alien>, ps: Seq<Projectile>, i: int) -> bool {
    !aliens[i].dead && exists|j: int|
        #![trigger ps[j]]
        0 <= j < ps.len() && !consumed_after(aliens, ps, i)[j] && hits(aliens[i], ps[j])
}

/// The projectiles left after removing the flagged ones, order kept.
pub open spec fn surviving(ps: Seq<Projectile>, c: Seq<bool>) -> Seq<Projectile>
    recommends
        c.len() == ps.len(),
    decreases ps.len(),
{
    if ps.len() == 0 {
        ps
    } else {
        let rest = surviving(ps.drop_last(), c.drop_last());
        if c[ps.len() - 1] {
            rest
        } else {
            rest.push(ps.last())
        }
    }
}

/// The aliens after the collision scan: a hit alien is marked dead, nothing
/// else changes.
pub open spec fn collide_aliens(aliens: Seq<Alien>, ps: Seq<Projectile>) -> Seq<Alien> {
    Seq::new(
        aliens.len(),
        |i: int|
            Alien {
                dead: aliens[i].dead || alien_hit(aliens, ps, i),
                visible: aliens[i].visible,
                original_position: aliens[i].original_position,
                position: aliens[i].position,
            },
    )
}

/// The projectiles after the collision scan: exactly the consumed ones are
/// removed, the order of the rest kept.
pub open spec fn collide_projectiles(aliens: Seq<Alien>, ps: Seq<Projectile>) -> Seq<Projectile> {
    surviving(ps, consumed_after(aliens, ps, aliens.len() as int))
}

/// Whether the projectile hits the alien, on machine integers.
fn hit_test(a: &Alien, p: &Projectile) -> (r: bool)
    requires
        in_range(a.position),
        proj_in_flight(*p),
    ensures
        r == hits(*a, *p),
{
    let dx = a.position.x - p.position.x;
    let dy = a.position.y - p.position.y;
    proof {
        assert(0 <= dx * dx <= 4_410_000_000_000_000_000 && 0 <= dy * dy
            <= 4_410_000_000_000_000_000) by (nonlinear_arith)
            requires
                iabs(dx as int) <= 2_100_000_000,
                iabs(dy as int) <= 2_100_000_000,
        {}
    }
    dx * dx + dy * dy < BULLET_RADIUS * BULLET_RADIUS
}

/// The collision subsystem: one all-pairs scan per frame between live aliens
/// and projectiles. Scanning alien by alien in order, a live alien is marked
/// dead by the first projectile found within `BULLET_RADIUS` of it, and every
/// projectile it consumes is removed; a projectile already consumed earlier
/// in the same pass is treated as removed and can kill nothing else. Dead
/// aliens take no part in the scan, and nothing moves.
#[verifier::loop_isolation(false)]
pub fn update_alien_interactions(aliens: &mut Vec<Alien>, projectiles: &mut Vec<Projectile>)
    requires
        aliens_in_range(old(aliens)@),
        projectiles_in_flight(old(projectiles)@),
    ensures
        final(aliens)@ == collide_aliens(old(aliens)@, old(projectiles)@),
        final(projectiles)@ == collide_projectiles(old(aliens)@, old(projectiles)@),
{
    let ghost a0 = aliens@;
    let ghost p0 = projectiles@;
    let na = aliens.len();
    let np = projectiles.len();
    let mut consumed: Vec<bool> = Vec::new();
    let mut k: usize = 0;
    while k < np
        invariant
            k <= np,
            consumed@.len() == k,
            forall|j: int| 0 <= j < k ==> !(#[trigger] consumed@[j]),
        decreases np - k,
    {
        consumed.push(false);
        k = k + 1;
    }
    proof {
        assert(consumed@ =~= consumed_after(a0, p0, 0));
    }
    let mut i: usize = 0;
    while i < na
        invariant
            i <= na,
            aliens@.len() == na,
            projectiles@ == p0,
            consumed@.len() == np,
            consumed@ == consumed_after(a0, p0, i as int),
            forall|m: int| i <= m < na ==> aliens@[m] == a0[m],
            forall|m: int| 0 <= m < i ==> aliens@[m] == collide_aliens(a0, p0)[m],
        decreases na - i,
    {
        let ghost ci = consumed@;
        let a = aliens[i];
        if !a.dead {
            let mut hit = false;
            let mut j: usize = 0;
            while j < np
                invariant
                    j <= np,
                    aliens@.len() == na,
                    aliens@[i as int] == a0[i as int],
                    a == a0[i as int],
                    !a.dead,
                    projectiles@ == p0,
                    consumed@.len() == np,
                    forall|jj: int|
                        0 <= jj < j ==> #[trigger] consumed@[jj] == (ci[jj] || hits(
                            a0[i as int],
                            p0[jj],
                        )),
                    forall|jj: int| j <= jj < np ==> #[trigger] consumed@[jj] == ci[jj],
                    hit == exists|jj: int|
                        #![trigger p0[jj]]
                        0 <= jj < j && !ci[jj] && hits(a0[i as int], p0[jj]),
                decreases np - j,
            {
                proof {
                    assert(in_range(a0[i as int].position));
                    assert(proj_in_flight(p0[j as int]));
                }
                if !consumed[j] {
                    let close = hit_test(&a, &projectiles[j]);
                    if close {
                        hit = true;
                        consumed[j] = true;
                        proof {
                            assert(hits(a0[i as int], p0[j as int]));
                        }
                    }
                }
                j = j + 1;
            }
            proof {
                assert(consumed@ =~= consume_row(a0[i as int], p0, ci));
                assert(hit == alien_hit(a0, p0, i as int));
            }
            if hit {
                let mut b = a;
                b.dead = true;
                aliens[i] = b;
            }
        }
        proof {
            assert(consumed@ =~= consumed_after(a0, p0, i as int + 1));
            assert(aliens@[i as int] == collide_aliens(a0, p0)[i as int]);
        }
        i = i + 1;
    }
    let mut remaining: Vec<Projectile> = Vec::new();
    let ghost cf = consumed@;
    let mut k2: usize = 0;
    while k2 < np
        invariant
            k2 <= np,
            projectiles@ == p0,
            consumed@ == cf,
            cf.len() == np,
            remaining@ == surviving(p0.subrange(0, k2 as int), cf.subrange(0, k2 as int)),
        decreases np - k2,
    {
        if !consumed[k2] {
            remaining.push(projectiles[k2]);
        }
        proof {
            let q = p0.subrange(0, k2 as int + 1);
            let d = cf.subrange(0, k2 as int + 1);
            assert(q.drop_last() =~= p0.subrange(0, k2 as int));
            assert(d.drop_last() =~= cf.subrange(0, k2 as int));
            assert(q.last() == p0[k2 as int] && d[q.len() - 1] == cf[k2 as int]);
        }
        k2 = k2 + 1;
    }
    proof {
        assert(p0.subrange(0, np as int) =~= p0);
        assert(cf.subrange(0, np as int) =~= cf);
    }
    *projectiles = remaining;
}

/// A projectile's track over a run of frames: it survives when every frame's
/// advance leaves it at or below the top of the screen.
pub open spec fn survives(p: Projectile, dts: Seq<i64>, half_h: int) -> bool
    decreases dts.len(),
{
    if dts.len() == 0 {
        true
    } else {
        proj_kept(p, dts[0], half_h) && survives(proj_step(p, dts[0]), dts.drop_first(), half_h)
    }
}

/// Total time of a run of frames.
pub open spec fn total_time(dts: Seq<i64>) -> int
    decreases dts.len(),
{
    if dts.len() == 0 {
        0
    } else {
        dts[0] + total_time(dts.drop_first())
    }
}

/// A run of non-negative frame times has a non-negative total.
proof fn lemma_total_time_nonneg(dts: Seq<i64>)
    requires
        forall|i: int| 0 <= i < dts.len() ==> 0 <= #[trigger] dts[i],
    ensures
        total_time(dts) >= 0,
    decreases dts.len(),
{
    if dts.len() > 0 {
        assert forall|i: int| 0 <= i < dts.drop_first().len() implies 0 <= #[trigger] dts.drop_first()[i] by {
            assert(dts[i + 1] >= 0);
        }
        lemma_total_time_nonneg(dts.drop_first());
    }
}

/// Projectile cleanup law. An upward projectile that starts on screen at
/// `y0` with speed `s` survives a run of frames exactly when
/// `y0 + s * t <= half_h` for the total simulated time `t`: it is removed in
/// the first frame whose accumulated time pushes it past the top, and never
/// before.
pub proof fn lemma_projectile_cleanup(p: Projectile, dts: Seq<i64>, half_h: int)
    requires
        0 <= p.speed <= MAX_SPEED,
        in_range(p.position),
        p.position.y <= half_h,
        0 <= half_h <= MAX_COORD,
        forall|i: int| 0 <= i < dts.len() ==> 0 <= #[trigger] dts[i] <= MAX_DT,
    ensures
        survives(p, dts, half_h) <==> p.position.y + p.speed * total_time(dts) <= half_h,
    decreases dts.len(),
{
    let sp = p.speed;
    let y = p.position.y;
    if dts.len() == 0 {
    } else {
        let d0 = dts[0];
        let rest = dts.drop_first();
        assert forall|i: int| 0 <= i < rest.len() implies 0 <= #[trigger] rest[i] <= MAX_DT by {
            assert(0 <= dts[i + 1] <= MAX_DT);
        }
        lemma_total_time_nonneg(rest);
        assert(sp * total_time(dts) == sp * d0 + sp * total_time(rest) && sp * d0 >= 0 && sp
            * total_time(rest) >= 0 && sp * d0 <= MAX_SPEED * MAX_DT) by (nonlinear_arith)
            requires
                0 <= sp <= MAX_SPEED,
                0 <= d0 <= MAX_DT,
                total_time(rest) >= 0,
                total_time(dts) == d0 + total_time(rest),
        {}
        if proj_kept(p, d0, half_h) {
            let q = proj_step(p, d0);
            assert(q.position.y == y + sp * d0);
            lemma_projectile_cleanup(q, rest, half_h);
        } else {
            assert(y + sp * total_time(dts) > half_h);
        }
    }
}

} // verus!
