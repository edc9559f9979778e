use dungeon_sim::player::KeyInput;
use dungeon_sim::{GameState, Mouse, Player};
use rand::rngs::SmallRng;
use rand::SeedableRng;

fn in_spawn_box(gs: &GameState, m: &Mouse) -> bool {
    let r = &gs.current_room;
    (r.x + 5..r.x + 15).contains(&m.x) && (r.y + 5..r.y + 15).contains(&m.y)
}

#[test]
fn a_fresh_game_is_active_and_empty() {
    let mut rng = SmallRng::seed_from_u64(5);
    let gs = GameState::new(&mut rng);
    assert!(gs.active);
    assert_eq!(gs.timer, 0);
    assert_eq!(gs.score, 0);
    assert_eq!(gs.current_room.width, 20);
    assert_eq!(gs.current_room.height, 20);
    assert_eq!(gs.enemies.len(), 10);
    for m in gs.enemies.iter() {
        assert!(m.dead && !m.active);
        assert_eq!((m.x, m.y), (10, 10));
    }
}

#[test]
fn generate_spawns_three_to_eight_mice_near_the_center() {
    for seed in 0..20u64 {
        let mut rng = SmallRng::seed_from_u64(seed);
        let mut gs = GameState::new(&mut rng);
        gs.generate(&mut rng);
        let live: Vec<&Mouse> = gs.enemies.iter().filter(|m| m.active).collect();
        assert!((3..=8).contains(&live.len()));
        for m in live {
            assert!(!m.dead);
            assert!(in_spawn_box(&gs, m));
        }
        for m in gs.enemies.iter().filter(|m| !m.active) {
            assert!(m.dead);
            assert_eq!((m.x, m.y), (10, 10));
        }
    }
}

#[test]
fn transition_replaces_room_and_roster_wholesale() {
    let mut rng = SmallRng::seed_from_u64(9);
    let mut gs = GameState::new(&mut rng);
    gs.enemies[0] = Mouse::new(40, 15, false, true);
    gs.enemies[0].die();
    let old_doors = gs.current_room.doors.clone();
    gs.transition(&mut rng);
    // Same geometry, a fresh door draw, a fresh roster: the dead mouse that
    // was in slot 0 is gone, replaced by a live spawn.
    assert_eq!(gs.current_room.width, 20);
    assert_eq!((gs.current_room.x, gs.current_room.y), (30, 2));
    assert!(gs.enemies[0].active && !gs.enemies[0].dead);
    assert!(in_spawn_box(&gs, &gs.enemies[0]));
    // The fresh draw owes nothing to the old layout: across a handful of
    // runs the door sets diverge.
    let mut differs = gs.current_room.doors != old_doors;
    for seed in 100..105u64 {
        let mut r2 = SmallRng::seed_from_u64(seed);
        let mut g2 = GameState::new(&mut r2);
        let before = g2.current_room.doors.clone();
        g2.transition(&mut r2);
        if g2.current_room.doors != before {
            differs = true;
        }
    }
    assert!(differs);
}

#[test]
fn moving_onto_a_door_changes_rooms() {
    let mut rng = SmallRng::seed_from_u64(9);
    let mut gs = GameState::new(&mut rng);
    let mut p = Player::new(&gs.current_room);
    // Plant a door just right of the player's reach on the right wall and
    // walk into it.
    gs.current_room.doors[0] = (49, 12);
    p.x = 47;
    p.shoot(1, 0);
    p.key(KeyInput::Raw(dungeon_sim::player::ArrowKey::Right), &mut gs, &mut rng);
    // The move request (48, 12) touches the door block: a fresh roster
    // appears and the bullets are dropped.
    let live = gs.enemies.iter().filter(|m| m.active).count();
    assert!((3..=8).contains(&live));
    for b in p.bullets.iter() {
        assert!(!b.active);
    }
}

#[test]
fn restart_is_refused_while_the_game_is_active() {
    let mut rng = SmallRng::seed_from_u64(5);
    let mut gs = GameState::new(&mut rng);
    let mut p = Player::new(&gs.current_room);
    gs.score = 777;
    gs.timer = 55;
    p.health = 2;
    gs.restart(&mut p, &mut rng);
    assert_eq!(gs.score, 777);
    assert_eq!(gs.timer, 55);
    assert_eq!(p.health, 2);
    assert!(gs.active);
}

#[test]
fn restart_after_game_over_resets_the_run() {
    let mut rng = SmallRng::seed_from_u64(5);
    let mut gs = GameState::new(&mut rng);
    let mut p = Player::new(&gs.current_room);
    p.health = 0;
    gs.score = 900;
    gs.timer = 45;
    gs.update(&mut p, &mut rng);
    assert!(!gs.active);
    let frozen_score = gs.score;
    gs.update(&mut p, &mut rng);
    assert_eq!(gs.score, frozen_score);
    gs.restart(&mut p, &mut rng);
    assert!(gs.active);
    assert_eq!(p.health, 4);
    assert_eq!(gs.score, 0);
    assert_eq!(gs.timer, 0);
    for m in gs.enemies.iter() {
        assert!(m.dead && !m.active);
    }
}

#[test]
fn restart_comes_through_the_r_key() {
    let mut rng = SmallRng::seed_from_u64(5);
    let mut gs = GameState::new(&mut rng);
    let mut p = Player::new(&gs.current_room);
    p.health = 0;
    gs.update(&mut p, &mut rng);
    assert!(!gs.active);
    p.key(KeyInput::Unicode('r'), &mut gs, &mut rng);
    assert!(gs.active);
    assert_eq!(p.health, 4);
}

#[test]
fn each_tick_adds_one_to_timer_and_score() {
    let mut rng = SmallRng::seed_from_u64(5);
    let mut gs = GameState::new(&mut rng);
    let mut p = Player::new(&gs.current_room);
    for _ in 0..7 {
        gs.update(&mut p, &mut rng);
        p.update();
    }
    assert_eq!(gs.timer, 7);
    assert_eq!(gs.score, 7);
    assert_eq!(p.timer, 7);
}

#[test]
fn mice_step_only_on_every_fifth_tick() {
    let mut rng = SmallRng::seed_from_u64(5);
    let mut gs = GameState::new(&mut rng);
    let mut p = Player::new(&gs.current_room);
    gs.enemies[0] = Mouse::new(35, 8, false, true);
    gs.timer = 1;
    gs.update(&mut p, &mut rng);
    gs.update(&mut p, &mut rng);
    gs.update(&mut p, &mut rng);
    // Ticks 1, 2, 3: off cadence, no motion.
    assert_eq!((gs.enemies[0].x, gs.enemies[0].y), (35, 8));
    gs.timer = 5;
    gs.update(&mut p, &mut rng);
    // On cadence the mouse takes at most one axis-aligned step.
    let (mx, my) = (gs.enemies[0].x, gs.enemies[0].y);
    let dx = mx.abs_diff(35);
    let dy = my.abs_diff(8);
    assert!(dx + dy <= 1);
    assert!(!gs.enemies[0].dead && gs.enemies[0].active);
}

#[test]
fn a_mouse_walk_stays_on_the_floor_and_off_the_player() {
    for seed in 0..10u64 {
        let mut rng = SmallRng::seed_from_u64(seed);
        let mut gs = GameState::new(&mut rng);
        let mut p = Player::new(&gs.current_room);
        gs.generate(&mut rng);
        for _ in 0..200usize {
            gs.update(&mut p, &mut rng);
            p.update();
            for m in gs.enemies.iter().filter(|m| m.active) {
                assert!(!gs.current_room.is_wall(m.x, m.y));
                assert!(!gs.current_room.is_wall(m.x + 1, m.y));
            }
        }
    }
}
