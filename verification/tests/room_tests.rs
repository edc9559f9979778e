use dungeon_sim::Room;
use rand::rngs::SmallRng;
use rand::SeedableRng;

fn non_corner_perimeter(room: &Room, x: usize, y: usize) -> bool {
    let on_h = (y == room.y || y == room.y + room.height - 1)
        && x > room.x
        && x < room.x + room.width - 1;
    let on_v = (x == room.x || x == room.x + room.width - 1)
        && y > room.y
        && y < room.y + room.height - 1;
    on_h || on_v
}

#[test]
fn walls_are_exactly_the_perimeter() {
    let mut rng = SmallRng::seed_from_u64(1);
    let room = Room::new(20, 20, &mut rng);
    assert_eq!(room.x, 30);
    assert_eq!(room.y, 2);
    for x in room.x..room.x + room.width {
        assert!(room.is_wall(x, room.y));
        assert!(room.is_wall(x, room.y + room.height - 1));
    }
    for y in room.y..room.y + room.height {
        assert!(room.is_wall(room.x, y));
        assert!(room.is_wall(room.x + room.width - 1, y));
    }
    for x in room.x + 1..room.x + room.width - 1 {
        for y in room.y + 1..room.y + room.height - 1 {
            assert!(!room.is_wall(x, y));
        }
    }
}

#[test]
fn doors_are_non_corner_perimeter_cells_and_two_to_four() {
    for seed in 0..40u64 {
        let mut rng = SmallRng::seed_from_u64(seed);
        let room = Room::new(20, 20, &mut rng);
        let mut count = 0;
        for &(dx, dy) in room.doors.iter() {
            if (dx, dy) != (0, 0) {
                count += 1;
                assert!(non_corner_perimeter(&room, dx, dy));
            }
        }
        assert!((2..=4).contains(&count));
    }
}

#[test]
fn door_layout_varies_with_the_draws() {
    let mut counts = Vec::new();
    let mut first_doors = Vec::new();
    for seed in 0..40u64 {
        let mut rng = SmallRng::seed_from_u64(seed);
        let room = Room::new(20, 20, &mut rng);
        counts.push(room.doors.iter().filter(|d| **d != (0, 0)).count());
        first_doors.push(room.doors[0]);
    }
    counts.sort();
    counts.dedup();
    assert!(counts.len() > 1);
    first_doors.sort();
    first_doors.dedup();
    assert!(first_doors.len() > 1);
}

#[test]
fn is_door_tests_the_two_by_two_block() {
    let room = Room {
        width: 20,
        height: 20,
        x: 30,
        y: 2,
        doors: vec![(49, 12), (0, 0), (0, 0), (0, 0)],
        locked: false,
    };
    assert!(room.is_door(49, 12));
    assert!(room.is_door(48, 12));
    assert!(room.is_door(49, 11));
    assert!(room.is_door(48, 11));
    assert!(!room.is_door(47, 12));
    assert!(!room.is_door(49, 13));
    assert!(!room.is_door(35, 10));
    // Unset sentinel slots are not doors, even right at the origin.
    assert!(!room.is_door(0, 0));
}

#[test]
fn unlock_clears_the_flag_and_nothing_else() {
    let mut room = Room {
        width: 20,
        height: 20,
        x: 30,
        y: 2,
        doors: vec![(30, 10), (0, 0), (0, 0), (0, 0)],
        locked: true,
    };
    room.unlock();
    assert!(!room.locked);
    assert_eq!(room.doors[0], (30, 10));
    assert_eq!(room.width, 20);
}

#[test]
fn small_rooms_still_get_legal_doors() {
    for seed in 0..10u64 {
        let mut rng = SmallRng::seed_from_u64(seed);
        let room = Room::new(3, 3, &mut rng);
        for &(dx, dy) in room.doors.iter() {
            if (dx, dy) != (0, 0) {
                assert!(non_corner_perimeter(&room, dx, dy));
            }
        }
    }
}
