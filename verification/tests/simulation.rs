//! Runtime checks of the game logic on concrete scenarios: formation layout,
//! boundary shifts, resets, collisions, firing cooldown and projectile
//! cleanup. All coordinates are milliunits and all times milliseconds.

use invaders_core::alien::{
    manage_alien_logic, setup_aliens, update_aliens, Alien, AlienManager, ALIEN_COUNT,
};
use invaders_core::game::{is_well_formed, Game};
use invaders_core::geometry::Vec2i;
use invaders_core::player::{setup_player, update_player, SHOOT_COOLDOWN};
use invaders_core::projectile::{update_alien_interactions, update_projectiles, Projectile};
use invaders_core::resolution::Resolution;

fn alien_at(x: i64, y: i64) -> Alien {
    Alien {
        dead: false,
        visible: true,
        original_position: Vec2i { x, y },
        position: Vec2i { x, y },
    }
}

fn projectile_at(x: i64, y: i64, speed: i64) -> Projectile {
    Projectile {
        speed,
        position: Vec2i { x, y },
    }
}

fn manager_right() -> AlienManager {
    AlienManager {
        direction: 1,
        shift_aliens_down: false,
        dist_from_boundary: 0,
        reset: false,
    }
}

#[test]
fn formation_setup_grid() {
    let res = Resolution::new(512, 512);
    assert_eq!(res.screen_dimensions.x, 512_000);
    assert_eq!(res.screen_dimensions.y, 512_000);
    let (aliens, manager) = setup_aliens(&res);
    assert_eq!(aliens.len(), ALIEN_COUNT);
    assert_eq!(ALIEN_COUNT, 50);
    // Column 0, row 0: centered horizontally, anchored near the top.
    assert_eq!(aliens[0].position.x, -120_000);
    assert_eq!(aliens[0].position.y, -120_000 + 256_000);
    // Column 9, row 4: the far corner of the grid.
    assert_eq!(aliens[49].position.x, 9 * 24_000 - 120_000);
    assert_eq!(aliens[49].position.y, 4 * 24_000 - 120_000 + 256_000);
    for a in &aliens {
        assert!(!a.dead);
        assert!(a.visible);
        assert_eq!(a.position, a.original_position);
    }
    assert_eq!(manager.direction, 1);
    assert!(!manager.shift_aliens_down);
    assert!(!manager.reset);
    assert_eq!(manager.dist_from_boundary, 0);
}

#[test]
fn end_to_end_boundary_shift() {
    // A 2x1 grid on a 200x200 screen, one second at speed 100.
    let res = Resolution::new(200, 200);
    let mut aliens = vec![alien_at(-12_000, 100_000), alien_at(12_000, 100_000)];
    let mut manager = manager_right();
    update_aliens(&mut aliens, &mut manager, &res, 1_000);
    assert_eq!(aliens[0].position.x, 88_000);
    assert_eq!(aliens[1].position.x, 112_000);
    assert!(manager.shift_aliens_down);
    // Overshoot from the crossing alien: 100 - 112 = -12 units.
    assert_eq!(manager.dist_from_boundary, -12_000);
    assert_eq!(manager.direction, 1);
    assert!(!manager.reset);
    // The shift corrects the crossing alien exactly onto the boundary.
    manage_alien_logic(&mut aliens, &mut manager);
    assert!(!manager.shift_aliens_down);
    assert_eq!(manager.direction, -1);
    assert_eq!(aliens[0].position.x, 76_000);
    assert_eq!(aliens[1].position.x, 100_000);
    assert_eq!(aliens[0].position.y, 100_000 - 32_000);
    assert_eq!(aliens[1].position.y, 100_000 - 32_000);
}

#[test]
fn last_crossing_alien_wins() {
    // Two aliens cross in the same frame: the later one in scan order sets
    // the overshoot.
    let res = Resolution::new(200, 200);
    let mut aliens = vec![alien_at(12_000, 0), alien_at(24_000, 0)];
    let mut manager = manager_right();
    update_aliens(&mut aliens, &mut manager, &res, 1_000);
    assert_eq!(aliens[0].position.x, 112_000);
    assert_eq!(aliens[1].position.x, 124_000);
    assert!(manager.shift_aliens_down);
    assert_eq!(manager.dist_from_boundary, 100_000 - 124_000);
}

#[test]
fn shift_takes_priority_over_reset() {
    // Both intents pending in one frame: only the shift applies, the reset
    // stays pending and applies the next frame.
    let mut aliens = vec![alien_at(0, 50_000)];
    aliens[0].position = Vec2i {
        x: 110_000,
        y: -110_000,
    };
    let mut manager = AlienManager {
        direction: 1,
        shift_aliens_down: true,
        dist_from_boundary: -10_000,
        reset: true,
    };
    manage_alien_logic(&mut aliens, &mut manager);
    assert!(!manager.shift_aliens_down);
    assert!(manager.reset, "reset must stay pending behind a shift");
    assert_eq!(manager.direction, -1);
    assert_eq!(aliens[0].position.x, 100_000);
    assert_eq!(aliens[0].position.y, -142_000);
    // Next frame the delayed reset applies.
    manage_alien_logic(&mut aliens, &mut manager);
    assert!(!manager.reset);
    assert_eq!(manager.direction, 1);
    assert_eq!(aliens[0].position, aliens[0].original_position);
}

#[test]
fn reset_restores_formation() {
    let mut aliens = vec![alien_at(-12_000, 90_000), alien_at(12_000, 90_000)];
    aliens[0].dead = true;
    aliens[0].position = Vec2i { x: 55_000, y: -3_000 };
    aliens[1].position = Vec2i { x: -70_000, y: 1_000 };
    let mut manager = AlienManager {
        direction: -1,
        shift_aliens_down: false,
        dist_from_boundary: -4_000,
        reset: true,
    };
    manage_alien_logic(&mut aliens, &mut manager);
    assert!(!manager.reset);
    assert_eq!(manager.direction, 1);
    for a in &aliens {
        assert!(!a.dead);
        assert_eq!(a.position, a.original_position);
    }
}

#[test]
fn bottom_breach_requests_reset() {
    let res = Resolution::new(200, 200);
    let mut aliens = vec![alien_at(0, 90_000)];
    aliens[0].position = Vec2i {
        x: 0,
        y: -100_001,
    };
    let mut manager = manager_right();
    update_aliens(&mut aliens, &mut manager, &res, 0);
    assert!(manager.reset);
    assert!(!manager.shift_aliens_down);
    manage_alien_logic(&mut aliens, &mut manager);
    assert_eq!(aliens[0].position, aliens[0].original_position);
    assert!(!manager.reset);
}

#[test]
fn dead_aliens_hidden_and_still() {
    let res = Resolution::new(200, 200);
    let mut aliens = vec![alien_at(0, 0), alien_at(30_000, 0)];
    aliens[0].dead = true;
    let mut manager = manager_right();
    update_aliens(&mut aliens, &mut manager, &res, 1_000);
    assert!(!aliens[0].visible, "dead aliens are hidden");
    assert_eq!(aliens[0].position.x, 0, "dead aliens do not move");
    assert!(aliens[1].visible);
    assert_eq!(aliens[1].position.x, 130_000);
}

#[test]
fn direction_flips_once_per_shift() {
    let res = Resolution::new(200, 200);
    let mut aliens = vec![alien_at(99_000, 0)];
    let mut manager = manager_right();
    update_aliens(&mut aliens, &mut manager, &res, 100);
    assert!(manager.shift_aliens_down);
    manage_alien_logic(&mut aliens, &mut manager);
    assert_eq!(manager.direction, -1);
    // Travelling left until the other edge: flips back to +1.
    let mut crossed = false;
    for _ in 0..100 {
        update_aliens(&mut aliens, &mut manager, &res, 100);
        if manager.shift_aliens_down {
            manage_alien_logic(&mut aliens, &mut manager);
            crossed = true;
            break;
        }
    }
    assert!(crossed);
    assert_eq!(manager.direction, 1);
}

#[test]
fn collision_within_radius_kills() {
    let mut aliens = vec![alien_at(0, 0)];
    let mut projectiles = vec![projectile_at(23_999, 0, 400)];
    update_alien_interactions(&mut aliens, &mut projectiles);
    assert!(aliens[0].dead);
    assert_eq!(projectiles.len(), 0);
}

#[test]
fn collision_at_radius_misses() {
    let mut aliens = vec![alien_at(0, 0)];
    let mut projectiles = vec![projectile_at(24_000, 0, 400)];
    update_alien_interactions(&mut aliens, &mut projectiles);
    assert!(!aliens[0].dead);
    assert_eq!(projectiles.len(), 1);
    assert_eq!(projectiles[0].position.x, 24_000);
}

#[test]
fn consumed_projectile_kills_only_once() {
    // Both aliens are within range of the single projectile; only the first
    // in scan order dies, because the projectile is consumed at once.
    let mut aliens = vec![alien_at(0, 0), alien_at(1_000, 0)];
    let mut projectiles = vec![projectile_at(0, 0, 400)];
    update_alien_interactions(&mut aliens, &mut projectiles);
    assert!(aliens[0].dead);
    assert!(!aliens[1].dead);
    assert_eq!(projectiles.len(), 0);
}

#[test]
fn dead_aliens_ignored_by_collision() {
    let mut aliens = vec![alien_at(0, 0)];
    aliens[0].dead = true;
    let mut projectiles = vec![projectile_at(0, 0, 400)];
    update_alien_interactions(&mut aliens, &mut projectiles);
    assert_eq!(projectiles.len(), 1, "a dead alien consumes nothing");
}

#[test]
fn collision_with_nothing_changes_nothing() {
    let mut aliens = vec![alien_at(0, 0)];
    let mut projectiles: Vec<Projectile> = Vec::new();
    update_alien_interactions(&mut aliens, &mut projectiles);
    assert!(!aliens[0].dead);
    let mut no_aliens: Vec<Alien> = Vec::new();
    let mut projectiles = vec![projectile_at(0, 0, 400)];
    update_alien_interactions(&mut no_aliens, &mut projectiles);
    assert_eq!(projectiles.len(), 1);
}

#[test]
fn cooldown_gates_firing() {
    let res = Resolution::new(512, 512);
    let mut player = setup_player(&res);
    let mut spawn_frames: Vec<usize> = Vec::new();
    for frame in 0..11 {
        let spawn = update_player(&mut player, false, false, true, 100, &res);
        if spawn.is_some() {
            spawn_frames.push(frame);
        }
    }
    // Fires at once, then exactly every SHOOT_COOLDOWN of simulated time.
    assert_eq!(SHOOT_COOLDOWN, 500);
    assert_eq!(spawn_frames, vec![0, 5, 10]);
}

#[test]
fn released_fire_key_spawns_nothing() {
    let res = Resolution::new(512, 512);
    let mut player = setup_player(&res);
    for _ in 0..10 {
        let spawn = update_player(&mut player, false, false, false, 100, &res);
        assert!(spawn.is_none());
    }
}

#[test]
fn player_movement_and_clamp() {
    let res = Resolution::new(200, 200);
    let mut player = setup_player(&res);
    assert_eq!(player.position.x, 0);
    assert_eq!(player.position.y, -100_000 + 10_000);
    // Both keys held cancel out.
    update_player(&mut player, true, true, false, 1_000, &res);
    assert_eq!(player.position.x, 0);
    // One second right at speed 200 would reach 200 units: clamped to 100.
    update_player(&mut player, false, true, false, 1_000, &res);
    assert_eq!(player.position.x, 100_000);
    // Left for a quarter second: back by 50 units.
    update_player(&mut player, true, false, false, 250, &res);
    assert_eq!(player.position.x, 50_000);
    // Far left: clamped to the left edge.
    update_player(&mut player, true, false, false, 1_000, &res);
    assert_eq!(player.position.x, -100_000);
}

#[test]
fn projectile_removed_exactly_when_off_screen() {
    let res = Resolution::new(200, 200);
    let mut projectiles = vec![projectile_at(0, 0, 400)];
    // 200 ms: climbs to 80 units, still on a 200-unit-tall screen.
    update_projectiles(&mut projectiles, &res, 200);
    assert_eq!(projectiles.len(), 1);
    assert_eq!(projectiles[0].position.y, 80_000);
    // 50 ms more: exactly at the top edge, still kept.
    update_projectiles(&mut projectiles, &res, 50);
    assert_eq!(projectiles.len(), 1);
    assert_eq!(projectiles[0].position.y, 100_000);
    // Any further travel removes it.
    update_projectiles(&mut projectiles, &res, 1);
    assert_eq!(projectiles.len(), 0);
}

#[test]
fn projectile_removal_keeps_order() {
    let res = Resolution::new(200, 200);
    let mut projectiles = vec![
        projectile_at(-1_000, 0, 400),
        projectile_at(0, 99_000, 400),
        projectile_at(1_000, 0, 400),
    ];
    update_projectiles(&mut projectiles, &res, 100);
    assert_eq!(projectiles.len(), 2);
    assert_eq!(projectiles[0].position.x, -1_000);
    assert_eq!(projectiles[1].position.x, 1_000);
}

#[test]
fn game_step_defers_spawn_to_frame_end() {
    let res = Resolution::new(512, 512);
    let mut game = Game::new(res);
    assert!(is_well_formed(&game));
    assert_eq!(game.projectiles.len(), 0);
    game.step(false, false, true, 16);
    // The new projectile appears at the player's position, not yet advanced.
    assert_eq!(game.projectiles.len(), 1);
    assert_eq!(game.projectiles[0].position, game.player.position);
    assert_eq!(game.projectiles[0].speed, 400);
    let y0 = game.projectiles[0].position.y;
    game.step(false, false, false, 16);
    assert_eq!(game.projectiles.len(), 1);
    assert_eq!(game.projectiles[0].position.y, y0 + 400 * 16);
}

#[test]
fn game_step_moves_formation() {
    let res = Resolution::new(512, 512);
    let mut game = Game::new(res);
    let x0 = game.aliens[0].position.x;
    game.step(false, false, false, 16);
    assert_eq!(game.aliens[0].position.x, x0 + 100 * 16);
    assert_eq!(game.alien_manager.direction, 1);
    assert!(is_well_formed(&game));
}

#[test]
fn game_projectile_kills_alien() {
    let res = Resolution::new(512, 512);
    let mut game = Game::new(res);
    // Plant a projectile right under a live alien and step once.
    let target = game.aliens[0].position;
    game.projectiles.push(projectile_at(target.x, target.y - 20_000, 400));
    game.step(false, false, false, 10);
    assert!(game.aliens[0].dead);
    assert_eq!(game.projectiles.len(), 0);
    assert!(!game.aliens[1].dead);
}
