use dungeon_sim::{Bullet, GameState, Mouse, Player};
use rand::rngs::SmallRng;
use rand::SeedableRng;

#[test]
fn a_wall_absorbs_the_bullet_in_place() {
    let mut rng = SmallRng::seed_from_u64(2);
    let mut gs = GameState::new(&mut rng);
    let mut b = Bullet::new(48, 12, 1, 0, true);
    b.move_forward(&mut gs);
    // The right wall stands at x = 49: the bullet deactivates without
    // moving onto it.
    assert!(!b.active);
    assert_eq!((b.x, b.y), (48, 12));
    assert_eq!(gs.score, 0);
}

#[test]
fn a_live_mouse_is_killed_for_exactly_one_hundred_points() {
    let mut rng = SmallRng::seed_from_u64(2);
    let mut gs = GameState::new(&mut rng);
    gs.enemies[3] = Mouse::new(42, 12, false, true);
    let mut b = Bullet::new(41, 12, 1, 0, true);
    b.move_forward(&mut gs);
    assert!(!b.active);
    assert_eq!((b.x, b.y), (42, 12));
    assert!(gs.enemies[3].dead);
    assert!(gs.enemies[3].active);
    assert_eq!(gs.score, 100);
}

#[test]
fn the_lowest_slot_takes_the_kill() {
    let mut rng = SmallRng::seed_from_u64(2);
    let mut gs = GameState::new(&mut rng);
    gs.enemies[2] = Mouse::new(42, 12, false, true);
    gs.enemies[5] = Mouse::new(41, 12, false, true);
    let mut b = Bullet::new(41, 12, 1, 0, true);
    b.move_forward(&mut gs);
    // Both footprints cover the destination (42, 12); slot 2 dies, slot 5
    // is untouched, and the score moves by exactly one kill.
    assert!(gs.enemies[2].dead);
    assert!(!gs.enemies[5].dead);
    assert_eq!(gs.score, 100);
}

#[test]
fn dead_mice_are_passed_through() {
    let mut rng = SmallRng::seed_from_u64(2);
    let mut gs = GameState::new(&mut rng);
    gs.enemies[0] = Mouse::new(42, 12, true, true);
    let mut b = Bullet::new(41, 12, 1, 0, true);
    b.move_forward(&mut gs);
    assert!(b.active);
    assert_eq!((b.x, b.y), (42, 12));
    assert_eq!(gs.score, 0);
}

#[test]
fn inactive_bullets_do_not_move() {
    let mut rng = SmallRng::seed_from_u64(2);
    let mut gs = GameState::new(&mut rng);
    let mut b = Bullet::new(40, 12, 1, 0, false);
    b.move_forward(&mut gs);
    assert!(!b.active);
    assert_eq!((b.x, b.y), (40, 12));
}

#[test]
fn update_bullets_advances_the_roster_in_slot_order() {
    let mut rng = SmallRng::seed_from_u64(2);
    let mut gs = GameState::new(&mut rng);
    let mut p = Player::new(&gs.current_room);
    p.shoot(1, 0);
    p.shoot(0, -1);
    p.update_bullets(&mut gs);
    assert_eq!((p.bullets[0].x, p.bullets[0].y), (41, 12));
    assert_eq!((p.bullets[1].x, p.bullets[1].y), (40, 11));
    for b in p.bullets.iter().skip(2) {
        assert!(!b.active);
    }
}

#[test]
fn a_shot_crosses_the_room_and_dies_on_the_far_wall() {
    let mut rng = SmallRng::seed_from_u64(2);
    let mut gs = GameState::new(&mut rng);
    let mut p = Player::new(&gs.current_room);
    p.shoot(1, 0);
    for _ in 0..8 {
        p.update_bullets(&mut gs);
        assert!(p.bullets[0].active);
    }
    assert_eq!(p.bullets[0].x, 48);
    p.update_bullets(&mut gs);
    assert!(!p.bullets[0].active);
    assert_eq!(p.bullets[0].x, 48);
}
