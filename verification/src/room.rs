use vstd::prelude::*;
use crate::rng::rng_range;
use rand::rngs::SmallRng;

verus! {

/// Width of the character display the room is centered on.
pub const BUFFER_WIDTH: usize = 80;
/// Height of the character display the room is centered on.
pub const BUFFER_HEIGHT: usize = 25;

/// A rectangular bounded area on the display: a wall ring around a floor,
/// with up to four doors scattered along the walls at construction.
pub struct Room {
    pub width: usize,
    pub height: usize,
    /// Column of the left wall; the room is centered on the display.
    pub x: usize,
    /// Row of the top wall.
    pub y: usize,
    /// Four door slots; an unset slot holds the (0, 0) sentinel.
    pub doors: Vec<(usize, usize)>,
    /// Wired into the door rendering color; nothing in the engine sets it.
    pub locked: bool,
}

/// (x, y) lies on the perimeter ring of the w-by-h rectangle anchored at (rx, ry).
pub open spec fn is_wall_cell(rx: int, ry: int, w: int, h: int, x: int, y: int) -> bool {
    x == rx || x == rx + w - 1 || y == ry || y == ry + h - 1
}

/// (x, y) lies strictly inside the wall ring.
pub open spec fn is_interior_cell(rx: int, ry: int, w: int, h: int, x: int, y: int) -> bool {
    rx < x < rx + w - 1 && ry < y < ry + h - 1
}

/// A legal door position: on the perimeter ring, but not at a corner.
pub open spec fn is_door_cell(rx: int, ry: int, w: int, h: int, x: int, y: int) -> bool {
    ((y == ry || y == ry + h - 1) && rx < x < rx + w - 1)
    || ((x == rx || x == rx + w - 1) && ry < y < ry + h - 1)
}

impl Room {
    /// (x, y) is a wall cell of this room.
    pub open spec fn wall(self, x: int, y: int) -> bool {
        is_wall_cell(self.x as int, self.y as int, self.width as int, self.height as int, x, y)
    }

    /// (x, y) is a floor cell of this room.
    pub open spec fn interior(self, x: int, y: int) -> bool {
        is_interior_cell(self.x as int, self.y as int, self.width as int, self.height as int, x, y)
    }

    /// A door slot is either the unset sentinel or a non-corner perimeter cell.
    pub open spec fn door_slot_ok(self, d: (usize, usize)) -> bool {
        d == (0usize, 0usize)
        || is_door_cell(
            self.x as int, self.y as int, self.width as int, self.height as int,
            d.0 as int, d.1 as int,
        )
    }

    pub open spec fn wf(self) -> bool {
        &&& 3 <= self.width
        &&& 3 <= self.height
        &&& self.x + self.width <= BUFFER_WIDTH
        &&& self.y + self.height <= BUFFER_HEIGHT
        &&& self.doors@.len() == 4
        &&& forall|i: int| 0 <= i < 4 ==> self.door_slot_ok(#[trigger] self.doors@[i])
    }

    /// The 2-by-2 interaction block anchored at (x, y) touches the door in slot i.
    pub open spec fn slot_hit(self, i: int, x: int, y: int) -> bool {
        {
            let dx = self.doors@[i].0 as int;
            let dy = self.doors@[i].1 as int;
            (dx == x || dx == x + 1) && (dy == y || dy == y + 1)
        }
    }

    /// Slot i holds a configured door, not the unset sentinel.
    pub open spec fn slot_set(self, i: int) -> bool {
        self.doors@[i] != (0usize, 0usize)
    }

    /// Some configured door is touched by the 2-by-2 block anchored at (x, y).
    pub open spec fn door_hit(self, x: int, y: int) -> bool {
        exists|i: int| 0 <= i < 4 && self.slot_set(i) && #[trigger] self.slot_hit(i, x, y)
    }

    /// The first n slots are configured doors, the rest are the sentinel.
    pub open spec fn doors_shape(self, n: int) -> bool {
        &&& (forall|k: int| 0 <= k < n ==> is_door_cell(
                self.x as int, self.y as int, self.width as int, self.height as int,
                (#[trigger] self.doors@[k]).0 as int, self.doors@[k].1 as int,
            ))
        &&& (forall|k: int| n <= k < 4 ==> #[trigger] self.doors@[k] == (0usize, 0usize))
    }

    /// Builds a room centered on the display and scatters 2 to 4 doors across
    /// the four walls, never at a corner; unused slots keep the (0, 0) sentinel.
    pub fn new(width: usize, height: usize, rng: &mut SmallRng) -> (room: Room)
        requires
            3 <= width <= BUFFER_WIDTH,
            3 <= height <= BUFFER_HEIGHT,
        ensures
            room.wf(),
            room.width == width,
            room.height == height,
            room.x == (BUFFER_WIDTH - width) / 2,
            room.y == (BUFFER_HEIGHT - height) / 2,
            !room.locked,
            exists|n: int| 2 <= n <= 4 && #[trigger] room.doors_shape(n),
    {
        let x = (BUFFER_WIDTH - width) / 2;
        let y = (BUFFER_HEIGHT - height) / 2;
        assert(x + width <= BUFFER_WIDTH);
        assert(y + height <= BUFFER_HEIGHT);

        let mut doors: Vec<(usize, usize)> = Vec::new();
        doors.push((0, 0));
        doors.push((0, 0));
        doors.push((0, 0));
        doors.push((0, 0));

        let door_count = rng_range(rng, 2, 5);
        let mut i: usize = 0;
        while i < door_count
            invariant
                2 <= door_count <= 4,
                i <= door_count,
                3 <= width <= BUFFER_WIDTH,
                3 <= height <= BUFFER_HEIGHT,
                x + width <= BUFFER_WIDTH,
                y + height <= BUFFER_HEIGHT,
                doors@.len() == 4,
                forall|k: int| 0 <= k < i ==> is_door_cell(
                    x as int, y as int, width as int, height as int,
                    (#[trigger] doors@[k]).0 as int, doors@[k].1 as int,
                ),
                forall|k: int| i <= k < 4 ==> #[trigger] doors@[k] == (0usize, 0usize),
            decreases door_count - i,
        {
            let side = rng_range(rng, 0, 4);
            let d: (usize, usize) = if side == 0 {
                (x + rng_range(rng, 1, width - 1), y)
            } else if side == 1 {
                (x + rng_range(rng, 1, width - 1), y + height - 1)
            } else if side == 2 {
                (x, y + rng_range(rng, 1, height - 1))
            } else {
                (x + width - 1, y + rng_range(rng, 1, height - 1))
            };
            doors.set(i, d);
            i += 1;
        }

        let room = Room { width, height, x, y, doors, locked: false };
        assert(room.doors_shape(door_count as int));
        room
    }

    /// (x, y) lies exactly on the perimeter row or column of the rectangle.
    pub fn is_wall(&self, x: usize, y: usize) -> (r: bool)
        requires
            self.wf(),
        ensures
            r == self.wall(x as int, y as int),
    {
        x == self.x || x == self.x + self.width - 1 || y == self.y || y == self.y + self.height - 1
    }

    /// The 2-by-2 interaction block anchored at (x, y) touches a configured
    /// door (the block tolerates the 2-cell actor width).
    pub fn is_door(&self, x: usize, y: usize) -> (r: bool)
        requires
            self.wf(),
            x < usize::MAX,
            y < usize::MAX,
        ensures
            r == self.door_hit(x as int, y as int),
    {
        let mut i: usize = 0;
        while i < 4
            invariant
                self.wf(),
                i <= 4,
                x < usize::MAX,
                y < usize::MAX,
                forall|j: int| 0 <= j < i
                    ==> !(self.slot_set(j) && #[trigger] self.slot_hit(j, x as int, y as int)),
            decreases 4 - i,
        {
            let (dx, dy) = self.doors[i];
            if (dx != 0 || dy != 0) && (x == dx || x + 1 == dx) && (y == dy || y + 1 == dy) {
                assert(self.slot_set(i as int) && self.slot_hit(i as int, x as int, y as int));
                return true;
            }
            i += 1;
        }
        false
    }

    /// Clears the lock flag; everything else is untouched.
    pub fn unlock(&mut self)
        ensures
            *final(self) == (Room { locked: false, ..*old(self) }),
    {
        self.locked = false;
    }
}

/// A cell reached by a one-cell step from a floor cell, and itself not a
/// wall, is again a floor cell: an actor on the floor can never step out of
/// the room past its wall ring.
pub proof fn lemma_step_stays_interior(room: Room, px: int, py: int, nx: int, ny: int)
    requires
        room.wf(),
        room.interior(px, py),
        crate::geom::step_from(px, py, nx, ny),
        !room.wall(nx, ny),
    ensures
        room.interior(nx, ny),
{
}

/// Walls are exactly the perimeter ring: every cell on a boundary row or
/// column of the rectangle is a wall, and no strictly interior cell is one.
pub proof fn lemma_wall_characterization(room: Room, x: int, y: int)
    requires
        room.wf(),
    ensures
        (x == room.x || x == room.x + room.width - 1 || y == room.y || y == room.y + room.height - 1)
            ==> room.wall(x, y),
        room.interior(x, y) ==> !room.wall(x, y),
{
}

}
