use vstd::prelude::*;
use crate::game::GameState;
use crate::geom::{cardinal, sat_step, step_from};
use crate::mouse::Mouse;
use crate::room::Room;

verus! {

/// Some live mouse's footprint covers the single cell (x, y).
pub open spec fn hit_any(enemies: Seq<Mouse>, x: int, y: int) -> bool {
    exists|i: int| 0 <= i < enemies.len() && (#[trigger] enemies[i]).live()
        && enemies[i].covers(x, y)
}

/// Slot i holds the first live mouse whose footprint covers (x, y): ties
/// between bullets and overlapping mice resolve lowest-slot-first.
pub open spec fn first_kill(enemies: Seq<Mouse>, i: int, x: int, y: int) -> bool {
    &&& 0 <= i < enemies.len()
    &&& enemies[i].live()
    &&& enemies[i].covers(x, y)
    &&& (forall|k: int| 0 <= k < i
            ==> !((#[trigger] enemies[k]).live() && enemies[k].covers(x, y)))
}

/// The lowest slot at or after i whose live mouse covers the cell (x, y);
/// the roster length when none does.
pub open spec fn first_hit_from(mice: Seq<Mouse>, x: int, y: int, i: int) -> int
    decreases mice.len() - i,
{
    if i < 0 || i >= mice.len() {
        mice.len() as int
    } else if mice[i].live() && mice[i].covers(x, y) {
        i
    } else {
        first_hit_from(mice, x, y, i + 1)
    }
}

/// With no live cover at or after slot i, the scan runs to the end.
proof fn lemma_first_hit_from_none(mice: Seq<Mouse>, x: int, y: int, i: int)
    requires
        0 <= i <= mice.len(),
        forall|k: int| i <= k < mice.len()
            ==> !((#[trigger] mice[k]).live() && mice[k].covers(x, y)),
    ensures
        first_hit_from(mice, x, y, i) == mice.len(),
    decreases mice.len() - i,
{
    if i < mice.len() {
        lemma_first_hit_from_none(mice, x, y, i + 1);
    }
}

/// A slot that covers, with none covering before it, is where the scan stops.
proof fn lemma_first_hit_from_found(mice: Seq<Mouse>, x: int, y: int, i: int, j: int)
    requires
        0 <= i <= j < mice.len(),
        mice[j].live(),
        mice[j].covers(x, y),
        forall|k: int| i <= k < j ==> !((#[trigger] mice[k]).live() && mice[k].covers(x, y)),
    ensures
        first_hit_from(mice, x, y, i) == j,
    decreases j - i,
{
    if i < j {
        lemma_first_hit_from_found(mice, x, y, i + 1, j);
    }
}

/// How one tick of flight transforms the (bullet, roster, score) triple,
/// exactly as the flight resolves: an inactive bullet changes nothing; a wall
/// ahead absorbs the bullet in place; otherwise it advances one cell, and the
/// lowest live slot covering the landing cell dies for exactly 100 points,
/// taking the bullet with it.
pub open spec fn bullet_flight(b: Bullet, mice: Seq<Mouse>, score: int, room: Room) -> (Bullet, Seq<Mouse>, int) {
    if !b.active {
        (b, mice, score)
    } else {
        let nx = b.target_x();
        let ny = b.target_y();
        if room.wall(nx, ny) {
            ((Bullet { active: false, ..b }), mice, score)
        } else {
            let moved = (Bullet { x: nx as usize, y: ny as usize, ..b });
            let j = first_hit_from(mice, nx, ny, 0);
            if j < mice.len() {
                (
                    (Bullet { active: false, ..moved }),
                    mice.update(j, (Mouse { dead: true, ..mice[j] })),
                    score + 100,
                )
            } else {
                (moved, mice, score)
            }
        }
    }
}

/// The whole volley from slot i on: each bullet in slot order flies one tick
/// against the roster and score the slots before it left behind.
pub open spec fn volley_from(bullets: Seq<Bullet>, mice: Seq<Mouse>, score: int, room: Room, i: int) -> (Seq<Bullet>, Seq<Mouse>, int)
    decreases bullets.len() - i,
{
    if i < 0 || i >= bullets.len() {
        (bullets, mice, score)
    } else {
        let stepped = bullet_flight(bullets[i], mice, score, room);
        volley_from(bullets.update(i, stepped.0), stepped.1, stepped.2, room, i + 1)
    }
}

/// This call's outcome is one spec flight step: what `move_forward` promises
/// of the exec state is exactly `bullet_flight` of the entry state.
pub proof fn lemma_flight_step(b0: Bullet, b1: Bullet, g0: GameState, g1: GameState)
    requires
        g0.wf(),
        b0.wf(g0.current_room),
        g1.current_room == g0.current_room,
        b1.dx == b0.dx,
        b1.dy == b0.dy,
        !b0.active ==> b1 == b0 && g1.enemies@ == g0.enemies@ && g1.score == g0.score,
        b0.active ==> {
            let nx = b0.target_x();
            let ny = b0.target_y();
            &&& (g0.current_room.wall(nx, ny) ==> !b1.active && b1.x == b0.x && b1.y == b0.y
                    && g1.enemies@ == g0.enemies@ && g1.score == g0.score)
            &&& (!g0.current_room.wall(nx, ny) ==> {
                &&& b1.x == nx && b1.y == ny
                &&& (!hit_any(g0.enemies@, nx, ny) ==> b1.active
                        && g1.enemies@ == g0.enemies@ && g1.score == g0.score)
                &&& (hit_any(g0.enemies@, nx, ny) ==> !b1.active
                        && g1.score == g0.score + 100
                        && exists|i: int| #[trigger] first_kill(g0.enemies@, i, nx, ny)
                            && g1.enemies@ == g0.enemies@.update(
                                i, (Mouse { dead: true, ..g0.enemies@[i] })))
            })
        },
    ensures
        bullet_flight(b0, g0.enemies@, g0.score as int, g0.current_room)
            == (b1, g1.enemies@, g1.score as int),
{
    if b0.active {
        let nx = b0.target_x();
        let ny = b0.target_y();
        if !g0.current_room.wall(nx, ny) {
            if hit_any(g0.enemies@, nx, ny) {
                let j = choose|j: int| #[trigger] first_kill(g0.enemies@, j, nx, ny)
                    && g1.enemies@ == g0.enemies@.update(
                        j, (Mouse { dead: true, ..g0.enemies@[j] }));
                lemma_first_hit_from_found(g0.enemies@, nx, ny, 0, j);
            } else {
                lemma_first_hit_from_none(g0.enemies@, nx, ny, 0);
            }
        }
    }
}

/// How one tick of flight leaves a single bullet: an inactive one is
/// untouched; an active one keeps its direction and either is absorbed in
/// place by a wall ahead or advances exactly one cell. Whether a kill
/// deactivated it is settled by the roster it flew against.
pub open spec fn bullet_stepped(b0: Bullet, b1: Bullet, room: Room) -> bool {
    &&& (!b0.active ==> b1 == b0)
    &&& (b0.active ==> {
        &&& b1.dx == b0.dx
        &&& b1.dy == b0.dy
        &&& (room.wall(b0.target_x(), b0.target_y())
                ==> !b1.active && b1.x == b0.x && b1.y == b0.y)
        &&& (!room.wall(b0.target_x(), b0.target_y())
                ==> b1.x == b0.target_x() && b1.y == b0.target_y())
    })
}

/// A projectile travelling in one of the four cardinal directions.
#[derive(Clone, Copy, PartialEq, Eq, Structural)]
pub struct Bullet {
    pub x: usize,
    pub y: usize,
    /// -1 left, +1 right, 0 no movement on this axis.
    pub dx: isize,
    /// -1 up, +1 down, 0 no movement on this axis.
    pub dy: isize,
    pub active: bool,
}

impl Bullet {
    /// An in-flight bullet sits on a floor cell and travels cardinally.
    pub open spec fn wf(self, room: Room) -> bool {
        self.active ==> room.interior(self.x as int, self.y as int)
            && cardinal(self.dx as int, self.dy as int)
    }

    /// The cell one step ahead of the bullet, saturated at zero.
    pub open spec fn target_x(self) -> int {
        sat_step(self.x as int, self.dx as int)
    }

    pub open spec fn target_y(self) -> int {
        sat_step(self.y as int, self.dy as int)
    }

    /// One tick of flight. An inactive bullet does nothing. An active one
    /// advances one cell along its direction; a wall absorbs it in place,
    /// and on a live mouse it deactivates, marks the first such mouse in
    /// roster order dead, and adds exactly 100 to the score. Dead or inactive
    /// mice are passed through, and the player is never hit.
    pub fn move_forward(&mut self, gamestate: &mut GameState)
        requires
            old(gamestate).wf(),
            old(self).wf(old(gamestate).current_room),
            old(gamestate).score <= usize::MAX - 100,
        ensures
            final(gamestate).wf(),
            final(self).wf(final(gamestate).current_room),
            final(gamestate).current_room == old(gamestate).current_room,
            final(gamestate).timer == old(gamestate).timer,
            final(gamestate).active == old(gamestate).active,
            final(self).dx == old(self).dx,
            final(self).dy == old(self).dy,
            !old(self).active ==> *final(self) == *old(self) && *final(gamestate) == *old(gamestate),
            old(self).active ==> {
                let nx = old(self).target_x();
                let ny = old(self).target_y();
                let room = old(gamestate).current_room;
                let mice = old(gamestate).enemies@;
                &&& (room.wall(nx, ny) ==> {
                    &&& !final(self).active
                    &&& final(self).x == old(self).x && final(self).y == old(self).y
                    &&& final(gamestate).enemies@ == mice
                    &&& final(gamestate).score == old(gamestate).score
                })
                &&& (!room.wall(nx, ny) ==> {
                    &&& final(self).x == nx && final(self).y == ny
                    &&& (!hit_any(mice, nx, ny) ==> {
                        &&& final(self).active
                        &&& final(gamestate).enemies@ == mice
                        &&& final(gamestate).score == old(gamestate).score
                    })
                    &&& (hit_any(mice, nx, ny) ==> {
                        &&& !final(self).active
                        &&& final(gamestate).score == old(gamestate).score + 100
                        &&& exists|i: int| #[trigger] first_kill(mice, i, nx, ny)
                            && final(gamestate).enemies@
                                == mice.update(i, (Mouse { dead: true, ..mice[i] }))
                    })
                })
            },
    {
        if self.active {
            let nx = if self.dx < 0 {
                if self.x > 0 { self.x - 1 } else { 0 }
            } else {
                self.x + (self.dx as usize)
            };
            let ny = if self.dy < 0 {
                if self.y > 0 { self.y - 1 } else { 0 }
            } else {
                self.y + (self.dy as usize)
            };
            assert(nx == self.target_x() && ny == self.target_y());
            if gamestate.current_room.is_wall(nx, ny) {
                self.active = false;
            } else {
                proof {
                    assert(step_from(self.x as int, self.y as int, nx as int, ny as int));
                    crate::room::lemma_step_stays_interior(
                        gamestate.current_room, self.x as int, self.y as int, nx as int, ny as int);
                }
                self.x = nx;
                self.y = ny;
                let mut i: usize = 0;
                while i < 10
                    invariant
                        i <= 10,
                        old(self).active,
                        nx as int == old(self).target_x(),
                        ny as int == old(self).target_y(),
                        !old(gamestate).current_room.wall(nx as int, ny as int),
                        self.x == nx,
                        self.y == ny,
                        self.active,
                        self.dx == old(self).dx,
                        self.dy == old(self).dy,
                        *gamestate == *old(gamestate),
                        gamestate.wf(),
                        gamestate.enemies@.len() == 10,
                        gamestate.score <= usize::MAX - 100,
                        gamestate.current_room.interior(nx as int, ny as int),
                        forall|k: int| 0 <= k < i
                            ==> !((#[trigger] gamestate.enemies@[k]).live()
                                && gamestate.enemies@[k].covers(nx as int, ny as int)),
                    decreases 10 - i,
                {
                    let m = gamestate.enemies[i];
                    if m.active && !m.dead && m.is_collision(self.x, self.y) {
                        let mut killed = m;
                        killed.die();
                        gamestate.enemies.set(i, killed);
                        gamestate.score = gamestate.score + 100;
                        self.active = false;
                        proof {
                            assert(first_kill(old(gamestate).enemies@, i as int, nx as int, ny as int));
                            assert(hit_any(old(gamestate).enemies@, nx as int, ny as int));
                        }
                        return;
                    }
                    i += 1;
                }
            }
        }
    }

    pub fn new(x: usize, y: usize, dx: isize, dy: isize, active: bool) -> (b: Bullet)
        ensures
            b.x == x,
            b.y == y,
            b.dx == dx,
            b.dy == dy,
            b.active == active,
    {
        Bullet { x, y, dx, dy, active }
    }
}

}
