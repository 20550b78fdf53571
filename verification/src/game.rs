//! The whole game: one value holding every subsystem's state, advanced one
//! frame at a time in the fixed per-frame order — player, projectile advance,
//! collision scan, formation phase A, formation phase B. A projectile spawned
//! by the player this frame joins the world at the end of the frame, as a
//! deferred spawn request, and first moves next frame.

use vstd::prelude::*;
use crate::alien::{
    Alien, AlienManager, aliens_in_flight_range, aliens_in_range, initial_alien, initial_manager,
    lemma_phase_a_range, manage_alien_logic, phase_a_aliens, phase_a_manager, phase_b_aliens,
    phase_b_manager, setup_aliens, update_aliens, ALIEN_COUNT,
};
use crate::geometry::{in_range, iabs, MAX_COORD, MAX_DT, MAX_OVERSHOOT, MAX_SPEED, Vec2i};
use crate::player::{
    Player, player_after, player_fires, setup_player, spawned_projectile, update_player,
    SHOOT_COOLDOWN,
};
use crate::projectile::{
    cleanup, collide_aliens, collide_projectiles, lemma_cleanup_in_flight, projectiles_wf,
    update_alien_interactions, update_projectiles, Projectile,
};
use crate::resolution::{Resolution, PIXEL_RATIO};

verus! {

/// The full state of one running game.
pub struct Game {
    /// Screen metrics, fixed at startup.
    pub resolution: Resolution,
    /// The player ship.
    pub player: Player,
    /// The alien formation, in spawn order.
    pub aliens: Vec<Alien>,
    /// The shared formation state.
    pub alien_manager: AlienManager,
    /// The projectiles in flight, in spawn order.
    pub projectiles: Vec<Projectile>,
}

impl Game {
    /// Every part of the state is within its machine limits.
    pub open spec fn wf(self) -> bool {
        &&& self.resolution.wf()
        &&& self.player.wf()
        &&& self.alien_manager.wf()
        &&& aliens_in_range(self.aliens@)
        &&& projectiles_wf(self.projectiles@)
    }

    /// Sets up a fresh game on the given screen: the full alien formation on
    /// its grid, the player at the bottom centre, no projectiles.
    pub fn new(resolution: Resolution) -> (g: Game)
        requires
            resolution.wf(),
        ensures
            g.wf(),
            g.resolution == resolution,
            g.player == setup_player_state(resolution),
            g.aliens@.len() == ALIEN_COUNT,
            forall|i: int| 0 <= i < ALIEN_COUNT ==> g.aliens@[i] == initial_alien(i, resolution),
            g.alien_manager == initial_manager(),
            g.projectiles@.len() == 0,
    {
        let player = setup_player(&resolution);
        let (aliens, alien_manager) = setup_aliens(&resolution);
        Game { resolution, player, aliens, alien_manager, projectiles: Vec::new() }
    }

    /// Advances the game by one frame. `dt` is the elapsed time; `left`,
    /// `right` and `fire` say which keys are held. The subsystems run in the
    /// fixed order — player, projectile advance and off-screen removal,
    /// collision scan, formation phase A, formation phase B — and a
    /// projectile fired this frame joins the world at the end of the frame.
    pub fn step(&mut self, left: bool, right: bool, fire: bool, dt: i64)
        requires
            old(self).wf(),
            0 <= dt <= MAX_DT,
        ensures
            ({
                let r = old(self).resolution;
                let half_w = r.half_width();
                let half_h = r.half_height();
                let fired = player_fires(old(self).player.shoot_timer as int, fire, dt);
                let p1 = player_after(old(self).player, left, right, fire, dt, half_w);
                let ps1 = cleanup(old(self).projectiles@, dt, half_h);
                let al1 = collide_aliens(old(self).aliens@, ps1);
                let ps2 = collide_projectiles(old(self).aliens@, ps1);
                let m0 = old(self).alien_manager;
                let al2 = phase_a_aliens(al1, m0.direction, dt);
                let m1 = phase_a_manager(al1, m0, half_w, half_h, dt);
                let al3 = phase_b_aliens(al2, m1);
                let m2 = phase_b_manager(m1);
                &&& final(self).resolution == r
                &&& final(self).player == p1
                &&& final(self).aliens@ == al3
                &&& final(self).alien_manager == m2
                &&& final(self).projectiles@ == (if fired {
                    ps2.push(spawned_projectile(p1.position))
                } else {
                    ps2
                })
            }),
    {
        let ghost a0 = self.aliens@;
        let ghost q0 = self.projectiles@;
        let spawn = update_player(&mut self.player, left, right, fire, dt, &self.resolution);
        update_projectiles(&mut self.projectiles, &self.resolution, dt);
        proof {
            lemma_cleanup_in_flight(q0, dt, self.resolution.half_height());
        }
        update_alien_interactions(&mut self.aliens, &mut self.projectiles);
        proof {
            assert(a0 == old(self).aliens@);
            assert(aliens_in_range(a0));
            let al1 = collide_aliens(a0, cleanup(q0, dt, self.resolution.half_height()));
            assert forall|i: int| 0 <= i < al1.len() implies #[trigger] in_range(al1[i].position)
                && in_range(al1[i].original_position) by {
                assert(in_range(a0[i].position) && in_range(a0[i].original_position));
                assert(al1[i].position == a0[i].position);
                assert(al1[i].original_position == a0[i].original_position);
            }
        }
        let ghost a1 = self.aliens@;
        update_aliens(&mut self.aliens, &mut self.alien_manager, &self.resolution, dt);
        proof {
            lemma_phase_a_range(a1, old(self).alien_manager.direction, dt);
        }
        manage_alien_logic(&mut self.aliens, &mut self.alien_manager);
        if let Some(p) = spawn {
            self.projectiles.push(p);
        }
    }
}

/// The player state `Game::new` starts from.
pub open spec fn setup_player_state(resolution: Resolution) -> Player {
    Player {
        position: Vec2i {
            x: 0,
            y: (-resolution.half_height() + resolution.pixel_ratio * 5_000) as i64,
        },
        shoot_timer: 0,
    }
}

/// Whether the state is within its machine limits: the runtime check for
/// `Game::wf`, for hosts that assemble a state by hand.
pub fn is_well_formed(game: &Game) -> (b: bool)
    ensures
        b == game.wf(),
{
    let r = &game.resolution;
    if !(0 <= r.screen_dimensions.x && r.screen_dimensions.x <= MAX_COORD && 0
        <= r.screen_dimensions.y && r.screen_dimensions.y <= MAX_COORD && r.screen_dimensions.x % 2
        == 0 && r.screen_dimensions.y % 2 == 0 && r.pixel_ratio == PIXEL_RATIO) {
        return false;
    }
    if !(coord_ok(game.player.position.x) && coord_ok(game.player.position.y) && 0
        <= game.player.shoot_timer && game.player.shoot_timer <= SHOOT_COOLDOWN) {
        return false;
    }
    let m = &game.alien_manager;
    if !((m.direction == 1 || m.direction == -1) && -MAX_OVERSHOOT <= m.dist_from_boundary
        && m.dist_from_boundary <= MAX_OVERSHOOT) {
        return false;
    }
    let na = game.aliens.len();
    let mut i: usize = 0;
    while i < na
        invariant
            i <= na,
            na == game.aliens@.len(),
            forall|k: int|
                0 <= k < i ==> #[trigger] in_range(game.aliens@[k].position) && in_range(
                    game.aliens@[k].original_position,
                ),
        decreases na - i,
    {
        let a = &game.aliens[i];
        if !(coord_ok(a.position.x) && coord_ok(a.position.y) && coord_ok(a.original_position.x)
            && coord_ok(a.original_position.y)) {
            proof {
                assert(!(in_range(game.aliens@[i as int].position) && in_range(
                    game.aliens@[i as int].original_position,
                )));
            }
            return false;
        }
        proof {
            assert forall|k: int| 0 <= k < i + 1 implies #[trigger] in_range(
                game.aliens@[k].position,
            ) && in_range(game.aliens@[k].original_position) by {
                if k == i as int {
                    assert(in_range(game.aliens@[k].position));
                    assert(in_range(game.aliens@[k].original_position));
                }
            }
        }
        i = i + 1;
    }
    let np = game.projectiles.len();
    let mut j: usize = 0;
    while j < np
        invariant
            j <= np,
            np == game.projectiles@.len(),
            forall|k: int| 0 <= k < j ==> (#[trigger] game.projectiles@[k]).wf(),
        decreases np - j,
    {
        let p = &game.projectiles[j];
        if !(-MAX_SPEED <= p.speed && p.speed <= MAX_SPEED && coord_ok(p.position.x) && coord_ok(
            p.position.y,
        )) {
            proof {
                assert(!game.projectiles@[j as int].wf());
            }
            return false;
        }
        j = j + 1;
    }
    true
}

/// Whether one coordinate is within the machine limit.
fn coord_ok(v: i64) -> (b: bool)
    ensures
        b == (iabs(v as int) <= MAX_COORD),
{
    -MAX_COORD <= v && v <= MAX_COORD
}

} // verus!
