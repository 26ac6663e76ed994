use arena_core::game::{table_bump, Game};
use arena_core::models::{BulletState, GameCommand, GameConfig, IdValue};

fn cfg() -> GameConfig {
    // A 100 x 100 unit arena, in milli-units.
    GameConfig { bound_x: 100_000, bound_y: 100_000 }
}

fn place(g: &mut Game, idx: usize, x: i64, y: i64, dir_x: i64, dir_y: i64) {
    g.state.players[idx].x = x;
    g.state.players[idx].y = y;
    g.state.players[idx].dir_x = dir_x;
    g.state.players[idx].dir_y = dir_y;
}

fn score_of(g: &Game, id: u32) -> u64 {
    for e in g.state.scoreboard.iter() {
        if e.id == id {
            return e.val;
        }
    }
    0
}

#[test]
fn new_game_is_empty() {
    let g = Game::new(cfg());
    assert_eq!(g.state.players.len(), 0);
    assert_eq!(g.state.bullets.len(), 0);
    assert_eq!(g.state.dead.len(), 0);
    assert_eq!(g.state.scoreboard.len(), 0);
    assert_eq!(g.bullet_id_counter, 0);
    assert_eq!(g.now_ms, 0);
}

#[test]
fn add_player_spawns_in_bounds_with_grace_clock() {
    let mut g = Game::new(cfg());
    g.add_player(7);
    assert_eq!(g.state.players.len(), 1);
    let p = g.state.players[0];
    assert_eq!(p.id, 7);
    assert!(p.x >= 1000 && p.x <= 99_000);
    assert!(p.y >= 1000 && p.y <= 99_000);
    assert_eq!(p.throttle, 0);
    assert_eq!(g.survival_times.len(), 1);
    assert_eq!(g.survival_times[0].id, 7);
    assert_eq!(g.survival_times[0].val, 10_000);
}

#[test]
fn throttle_is_clamped() {
    let mut g = Game::new(cfg());
    g.add_player(1);
    g.handle_cmd(1, GameCommand::Throttle(5_000));
    assert_eq!(g.state.players[0].throttle, 1000);
    g.handle_cmd(1, GameCommand::Throttle(-3));
    assert_eq!(g.state.players[0].throttle, 0);
    g.handle_cmd(1, GameCommand::Throttle(750));
    assert_eq!(g.state.players[0].throttle, 750);
}

#[test]
fn rotate_sets_clamped_heading() {
    let mut g = Game::new(cfg());
    g.add_player(1);
    g.handle_cmd(1, GameCommand::Rotate(2_000, -2_000));
    assert_eq!(g.state.players[0].dir_x, 1000);
    assert_eq!(g.state.players[0].dir_y, -1000);
    g.handle_cmd(1, GameCommand::Rotate(0, 600));
    assert_eq!(g.state.players[0].dir_x, 0);
    assert_eq!(g.state.players[0].dir_y, 600);
}

#[test]
fn commands_for_unknown_players_are_dropped() {
    let mut g = Game::new(cfg());
    g.add_player(1);
    let before = g.state.players[0];
    g.handle_cmd(99, GameCommand::Throttle(1000));
    g.handle_cmd(99, GameCommand::Fire);
    assert_eq!(g.state.players[0], before);
    assert_eq!(g.state.bullets.len(), 0);
}

#[test]
fn fire_spawns_bullet_offset_along_heading() {
    let mut g = Game::new(cfg());
    g.add_player(1);
    place(&mut g, 0, 50_000, 40_000, 1000, 0);
    g.handle_cmd(1, GameCommand::Fire);
    assert_eq!(g.state.bullets.len(), 1);
    let b = g.state.bullets[0];
    assert_eq!(b.id, 0);
    assert_eq!(b.player_id, 1);
    assert_eq!(b.x, 55_000);
    assert_eq!(b.y, 40_000);
    assert_eq!(b.dir_x, 1000);
    assert_eq!(b.dir_y, 0);
    assert_eq!(g.bullet_id_counter, 1);
}

#[test]
fn fifth_fire_is_ignored() {
    let mut g = Game::new(cfg());
    g.add_player(1);
    place(&mut g, 0, 50_000, 50_000, 1000, 0);
    for _ in 0..5 {
        g.handle_cmd(1, GameCommand::Fire);
    }
    assert_eq!(g.state.bullets.len(), 4);
    let ids: Vec<u32> = g.state.bullets.iter().map(|b| b.id).collect();
    assert_eq!(ids, vec![0, 1, 2, 3]);
    assert_eq!(g.bullet_id_counter, 4);
}

#[test]
fn player_motion_advances_exactly_and_clamps_at_walls() {
    let mut g = Game::new(cfg());
    g.add_player(1);
    place(&mut g, 0, 50_000, 50_000, 1000, 0);
    g.handle_cmd(1, GameCommand::Throttle(1000));
    g.tick(33);
    // 1000/1000 dir * 8000 milli/s * 33 ms = 264 milli-units.
    assert_eq!(g.state.players[0].x, 50_264);
    assert_eq!(g.state.players[0].y, 50_000);

    place(&mut g, 0, 98_900, 50_000, 1000, 0);
    g.tick(33);
    assert_eq!(g.state.players[0].x, 99_000);
}

#[test]
fn bullet_motion_advances_exactly_and_leaves_through_wall() {
    let mut g = Game::new(cfg());
    g.add_player(1);
    place(&mut g, 0, 1_000, 1_000, 0, 1000);
    g.state.bullets.push(BulletState {
        id: 10,
        player_id: 1,
        x: 50_000,
        y: 50_000,
        dir_x: 1000,
        dir_y: 0,
    });
    g.state.bullets.push(BulletState {
        id: 11,
        player_id: 1,
        x: 99_900,
        y: 90_000,
        dir_x: 1000,
        dir_y: 0,
    });
    g.tick(33);
    // 20000 milli/s * 33 ms = 660 milli-units.
    assert_eq!(g.state.bullets.len(), 1);
    assert_eq!(g.state.bullets[0].id, 10);
    assert_eq!(g.state.bullets[0].x, 50_660);
    // The second bullet reached 100_560 > bound + radius and was culled.
}

#[test]
fn head_on_collision_kills_both_without_scoring() {
    let mut g = Game::new(cfg());
    g.add_player(1);
    g.add_player(2);
    // Two units apart, player radius one unit: they meet on the next tick.
    place(&mut g, 0, 10_000, 50_000, 1000, 0);
    g.handle_cmd(1, GameCommand::Throttle(1000));
    place(&mut g, 1, 12_000, 50_000, -1000, 0);
    g.tick(33);
    assert_eq!(g.state.players.len(), 0);
    assert_eq!(g.state.dead.len(), 2);
    assert_eq!(g.state.dead[0].player.id, 1);
    assert_eq!(g.state.dead[1].player.id, 2);
    assert_eq!(g.state.dead[0].respawn, g.now_ms + 3000);
    assert_eq!(g.state.dead[1].respawn, g.now_ms + 3000);
    assert_eq!(g.state.scoreboard.len(), 0);
}

#[test]
fn bullet_kills_non_owner_and_scores() {
    let mut g = Game::new(cfg());
    g.add_player(1);
    g.add_player(2);
    place(&mut g, 0, 10_000, 10_000, 0, 0);
    place(&mut g, 1, 50_000, 50_000, 0, 0);
    g.state.bullets.push(BulletState {
        id: 3,
        player_id: 1,
        x: 50_400,
        y: 50_000,
        dir_x: 0,
        dir_y: 0,
    });
    g.tick(33);
    assert_eq!(g.state.players.len(), 1);
    assert_eq!(g.state.players[0].id, 1);
    assert_eq!(g.state.dead.len(), 1);
    assert_eq!(g.state.dead[0].player.id, 2);
    assert_eq!(g.state.dead[0].respawn, g.now_ms + 3000);
    assert_eq!(score_of(&g, 1), 1);
    assert_eq!(g.state.bullets.len(), 0);
    // The victim's survival clock was reset past the grace period.
    let clock = g.survival_times.iter().find(|e| e.id == 2).unwrap();
    assert_eq!(clock.val, g.now_ms + 10_000);
}

#[test]
fn bullet_does_not_hurt_its_owner() {
    let mut g = Game::new(cfg());
    g.add_player(1);
    place(&mut g, 0, 50_000, 50_000, 0, 0);
    g.state.bullets.push(BulletState {
        id: 3,
        player_id: 1,
        x: 50_000,
        y: 50_000,
        dir_x: 0,
        dir_y: 0,
    });
    g.tick(33);
    assert_eq!(g.state.players.len(), 1);
    assert_eq!(g.state.bullets.len(), 1);
    assert_eq!(g.state.scoreboard.len(), 0);
}

#[test]
fn overlapping_bullets_destroy_each_other() {
    let mut g = Game::new(cfg());
    g.add_player(1);
    place(&mut g, 0, 10_000, 10_000, 0, 0);
    g.state.bullets.push(BulletState {
        id: 0,
        player_id: 1,
        x: 50_000,
        y: 50_000,
        dir_x: 0,
        dir_y: 0,
    });
    g.state.bullets.push(BulletState {
        id: 1,
        player_id: 1,
        x: 50_300,
        y: 50_000,
        dir_x: 0,
        dir_y: 0,
    });
    g.tick(33);
    assert_eq!(g.state.bullets.len(), 0);
    assert_eq!(g.state.players.len(), 1);
    assert_eq!(g.state.scoreboard.len(), 0);
}

#[test]
fn corpse_respawns_after_three_seconds() {
    let mut g = Game::new(cfg());
    g.add_player(1);
    g.add_player(2);
    place(&mut g, 0, 10_000, 50_000, 1000, 0);
    g.handle_cmd(1, GameCommand::Throttle(1000));
    place(&mut g, 1, 12_000, 50_000, -1000, 0);
    g.tick(33);
    assert_eq!(g.state.dead.len(), 2);
    let respawn = g.state.dead[0].respawn;
    assert_eq!(respawn, 3033);
    g.tick(1000);
    g.tick(1000);
    assert_eq!(g.state.players.len(), 0, "still dead before the respawn time");
    g.tick(1000);
    // now_ms is 3033 >= respawn: both revive, in bounds.
    assert_eq!(g.state.players.len(), 2);
    assert_eq!(g.state.dead.len(), 0);
    for p in g.state.players.iter() {
        assert!(p.x >= 1000 && p.x <= 99_000);
        assert!(p.y >= 1000 && p.y <= 99_000);
    }
}

#[test]
fn survival_bonus_after_grace_then_every_interval() {
    let mut g = Game::new(cfg());
    g.add_player(1);
    place(&mut g, 0, 50_000, 50_000, 0, 0);
    for _ in 0..9 {
        g.tick(1000);
    }
    assert_eq!(score_of(&g, 1), 0, "no bonus inside the grace period");
    g.tick(1000);
    // now_ms reached 10_000: first bonus; next at 14_000.
    assert_eq!(score_of(&g, 1), 1);
    g.tick(1000);
    g.tick(1000);
    g.tick(1000);
    assert_eq!(score_of(&g, 1), 1, "no second bonus before the interval");
    g.tick(1000);
    assert_eq!(score_of(&g, 1), 2);
}

#[test]
fn player_left_removes_live_dead_and_clock() {
    let mut g = Game::new(cfg());
    g.add_player(1);
    g.add_player(2);
    g.player_left(1);
    assert_eq!(g.state.players.len(), 1);
    assert_eq!(g.state.players[0].id, 2);
    assert_eq!(g.survival_times.len(), 1);
    assert_eq!(g.survival_times[0].id, 2);
    g.player_left(42);
    assert_eq!(g.state.players.len(), 1, "unknown id is a no-op");
}

#[test]
fn reset_preserves_identities_and_wipes_everything_else() {
    let mut g = Game::new(cfg());
    g.add_player(1);
    g.add_player(2);
    // Kill player 2 with a bullet of player 1 so one id is a corpse.
    place(&mut g, 0, 10_000, 10_000, 0, 0);
    place(&mut g, 1, 50_000, 50_000, 0, 0);
    g.state.bullets.push(BulletState {
        id: 9,
        player_id: 1,
        x: 50_000,
        y: 50_000,
        dir_x: 0,
        dir_y: 0,
    });
    g.tick(33);
    assert_eq!(g.state.players.len(), 1);
    assert_eq!(g.state.dead.len(), 1);
    assert_eq!(score_of(&g, 1), 1);
    g.handle_cmd(1, GameCommand::Fire);
    assert_eq!(g.state.bullets.len(), 1);

    g.reset();
    assert_eq!(g.state.players.len(), 2);
    let mut ids: Vec<u32> = g.state.players.iter().map(|p| p.id).collect();
    ids.sort();
    assert_eq!(ids, vec![1, 2]);
    assert_eq!(g.state.dead.len(), 0);
    assert_eq!(g.state.bullets.len(), 0);
    assert_eq!(g.state.scoreboard.len(), 0);
    assert_eq!(g.bullet_id_counter, 0);
    assert_eq!(g.survival_times.len(), 2);
    for p in g.state.players.iter() {
        assert!(p.x >= 1000 && p.x <= 99_000);
        assert!(p.y >= 1000 && p.y <= 99_000);
    }
}

#[test]
fn scoreboard_bump_is_exactly_one_point() {
    let mut t: Vec<IdValue> = Vec::new();
    table_bump(&mut t, 5);
    assert_eq!(t.len(), 1);
    assert_eq!(t[0].id, 5);
    assert_eq!(t[0].val, 1);
    table_bump(&mut t, 5);
    assert_eq!(t[0].val, 2);
    table_bump(&mut t, 6);
    assert_eq!(t.len(), 2);
    assert_eq!(t[1].id, 6);
    assert_eq!(t[1].val, 1);
    assert_eq!(t[0].val, 2);
}

#[test]
fn dead_players_cannot_act() {
    let mut g = Game::new(cfg());
    g.add_player(1);
    g.add_player(2);
    place(&mut g, 0, 10_000, 10_000, 0, 0);
    place(&mut g, 1, 50_000, 50_000, 0, 0);
    g.state.bullets.push(BulletState {
        id: 0,
        player_id: 1,
        x: 50_000,
        y: 50_000,
        dir_x: 0,
        dir_y: 0,
    });
    g.tick(33);
    assert_eq!(g.state.players.len(), 1);
    g.handle_cmd(2, GameCommand::Fire);
    assert_eq!(g.state.bullets.len(), 0, "a dead player cannot fire");
}
