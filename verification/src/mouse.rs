use vstd::prelude::*;
use crate::geom::{cardinal_sat_target, footprint_hits, step_from};
use crate::player::Player;
use crate::rng::rng_range;
use crate::room::Room;
use rand::rngs::SmallRng;

verus! {

/// A wandering enemy with a 2-cell-wide footprint anchored at its left cell.
#[derive(Clone, Copy, PartialEq, Eq, Structural)]
pub struct Mouse {
    pub x: usize,
    pub y: usize,
    /// A dead mouse stays in the roster, rendered distinctly, and stops moving.
    pub dead: bool,
    /// Only an active mouse participates in collision and movement.
    pub active: bool,
}

impl Mouse {
    /// Participates in collision: active and not dead.
    pub open spec fn live(self) -> bool {
        self.active && !self.dead
    }

    /// The mouse's footprint covers (x, y).
    pub open spec fn covers(self, x: int, y: int) -> bool {
        footprint_hits(self.x as int, self.y as int, x, y)
    }

    /// An active mouse stands with its whole footprint on floor cells.
    pub open spec fn wf(self, room: Room) -> bool {
        self.active ==> room.interior(self.x as int, self.y as int)
            && room.interior(self.x as int + 1, self.y as int)
    }

    pub fn new(x: usize, y: usize, dead: bool, active: bool) -> (m: Mouse)
        ensures
            m.x == x,
            m.y == y,
            m.dead == dead,
            m.active == active,
    {
        Mouse { x, y, dead, active }
    }

    /// Marks the mouse dead; it keeps its place in the roster.
    pub fn die(&mut self)
        ensures
            *final(self) == (Mouse { dead: true, ..*old(self) }),
    {
        self.dead = true;
    }

    /// The mouse's footprint covers (x, y).
    pub fn is_collision(&self, x: usize, y: usize) -> (r: bool)
        requires
            self.x < usize::MAX,
        ensures
            r == self.covers(x as int, y as int),
    {
        (x == self.x || x == self.x + 1) && y == self.y
    }
}

/// Movement legality for a mouse: neither cell of the target footprint is a
/// wall, and neither is covered by the player's footprint.
pub open spec fn mouse_can_move(room: Room, p: Player, nx: int, ny: int) -> bool {
    &&& !room.wall(nx, ny)
    &&& !room.wall(nx + 1, ny)
    &&& !p.covers(nx, ny)
    &&& !p.covers(nx + 1, ny)
}

/// The target footprint touches the player's footprint.
pub open spec fn player_contact(p: Player, nx: int, ny: int) -> bool {
    p.covers(nx, ny) || p.covers(nx + 1, ny)
}

/// How one resolved move attempt to (nx, ny) leaves the mouse and the player:
/// flags are untouched, the position becomes the target exactly when neither
/// target cell is a wall or under the player, contact at the target (even on
/// a blocked move) costs the player one heart iff the mouse is not dead,
/// hearts remain and the player's 8-tick cooldown has elapsed, stamping the
/// cooldown, and nothing else of the player changes.
pub open spec fn mouse_attempt_resolved(m0: Mouse, m1: Mouse, room: Room, p0: Player, p1: Player, nx: int, ny: int) -> bool {
    &&& m1.dead == m0.dead
    &&& m1.active == m0.active
    &&& (mouse_can_move(room, p0, nx, ny) ==> m1.x == nx && m1.y == ny)
    &&& (!mouse_can_move(room, p0, nx, ny) ==> m1.x == m0.x && m1.y == m0.y)
    &&& p1.x == p0.x
    &&& p1.y == p0.y
    &&& p1.timer == p0.timer
    &&& p1.bullets@ == p0.bullets@
    &&& p1.i_bullet == p0.i_bullet
    &&& (player_contact(p0, nx, ny) && !m0.dead && p0.health > 0 && p0.cooldown_ready()
            ==> p1.health == p0.health - 1 && p1.last_hit == p0.timer)
    &&& (!(player_contact(p0, nx, ny) && !m0.dead && p0.health > 0 && p0.cooldown_ready())
            ==> p1.health == p0.health && p1.last_hit == p0.last_hit)
}

/// One cadenced step of one roster slot, as far as the mouse's position
/// goes: some cardinal draw's saturated target, taken exactly when it passes
/// the wall and player checks. The player's footprint stands still through
/// the whole pass, so its position alone decides the checks.
pub open spec fn enemy_step_taken(m0: Mouse, m1: Mouse, room: Room, p: Player) -> bool {
    exists|tx: int, ty: int| {
        &&& #[trigger] cardinal_sat_target(m0.x as int, m0.y as int, tx, ty)
        &&& (mouse_can_move(room, p, tx, ty) ==> m1.x == tx && m1.y == ty)
        &&& (!mouse_can_move(room, p, tx, ty) ==> m1.x == m0.x && m1.y == m0.y)
    }
}

impl Mouse {
    /// The shared movement and combat policy, from the mouse's side: the move
    /// lands iff neither target cell is a wall or under the player; contact
    /// with the player is evaluated even when the move is blocked, and damages
    /// the player once iff the mouse is not dead, hearts are left, and the
    /// player's 8-tick cooldown has elapsed.
    pub fn move_to(&mut self, new_x: usize, new_y: usize, room: &Room, player: &mut Player)
        requires
            room.wf(),
            old(player).wf(*room),
            old(self).wf(*room),
            step_from(old(self).x as int, old(self).y as int, new_x as int, new_y as int),
            new_x < usize::MAX,
        ensures
            final(self).wf(*room),
            final(player).wf(*room),
            mouse_attempt_resolved(*old(self), *final(self), *room, *old(player), *final(player),
                new_x as int, new_y as int),
    {
        let blocked_wall = room.is_wall(new_x, new_y) || room.is_wall(new_x + 1, new_y);
        let hit_player = player.is_collision(new_x, new_y) || player.is_collision(new_x + 1, new_y);
        if !blocked_wall && !hit_player {
            proof {
                if self.active {
                    crate::room::lemma_step_stays_interior(
                        *room, self.x as int, self.y as int, new_x as int, new_y as int);
                    assert(step_from(self.x as int + 1, self.y as int, new_x as int + 1, new_y as int));
                    crate::room::lemma_step_stays_interior(
                        *room, self.x as int + 1, self.y as int, new_x as int + 1, new_y as int);
                }
            }
            self.x = new_x;
            self.y = new_y;
        }
        if hit_player {
            if self.dead {
                return;
            }
            if player.health > 0 && player.timer - player.last_hit > 8 {
                player.health = player.health - 1;
                player.last_hit = player.timer;
            }
        }
    }

    /// On every 5th global tick a live mouse draws one of the four cardinal
    /// directions uniformly and attempts the shared movement policy against
    /// the player; a dead mouse, or any other tick, changes nothing.
    pub fn random_move(&mut self, room: &Room, rng: &mut SmallRng, player: &mut Player, timer: usize)
        requires
            room.wf(),
            old(player).wf(*room),
            old(self).wf(*room),
            !old(self).dead ==> old(self).active,
        ensures
            final(self).wf(*room),
            final(player).wf(*room),
            final(self).dead == old(self).dead,
            final(self).active == old(self).active,
            old(self).dead || timer % 5 != 0
                ==> *final(self) == *old(self) && *final(player) == *old(player),
            step_from(old(self).x as int, old(self).y as int, final(self).x as int, final(self).y as int),
            (final(self).x != old(self).x || final(self).y != old(self).y) ==> {
                &&& !room.wall(final(self).x as int, final(self).y as int)
                &&& !room.wall(final(self).x as int + 1, final(self).y as int)
                &&& !old(player).covers(final(self).x as int, final(self).y as int)
                &&& !old(player).covers(final(self).x as int + 1, final(self).y as int)
            },
            final(player).x == old(player).x,
            final(player).y == old(player).y,
            final(player).timer == old(player).timer,
            final(player).bullets@ == old(player).bullets@,
            final(player).i_bullet == old(player).i_bullet,
            (final(player).health == old(player).health
                && final(player).last_hit == old(player).last_hit)
            || (old(player).health > 0 && old(player).cooldown_ready()
                && final(player).health == old(player).health - 1
                && final(player).last_hit == old(player).timer),
            !old(self).dead && timer % 5 == 0 ==> exists|tx: int, ty: int| {
                &&& cardinal_sat_target(old(self).x as int, old(self).y as int, tx, ty)
                &&& #[trigger] mouse_attempt_resolved(*old(self), *final(self), *room,
                        *old(player), *final(player), tx, ty)
            },
    {
        if !self.dead && timer % 5 == 0 {
            let d = rng_range(rng, 0, 4);
            let new_x: usize;
            let new_y: usize;
            if d == 0 {
                new_x = if self.x > 0 { self.x - 1 } else { 0 };
                new_y = self.y;
            } else if d == 1 {
                new_x = self.x + 1;
                new_y = self.y;
            } else if d == 2 {
                new_x = self.x;
                new_y = if self.y > 0 { self.y - 1 } else { 0 };
            } else {
                new_x = self.x;
                new_y = self.y + 1;
            }
            assert(cardinal_sat_target(self.x as int, self.y as int, new_x as int, new_y as int));
            self.move_to(new_x, new_y, room, player);
        }
    }
}

/// A tick-synchronized roster: ten slots, every active mouse on floor cells,
/// and every mouse that is not dead is active (dead placeholders fill the
/// unused slots).
pub open spec fn roster_wf(enemies: Seq<Mouse>, room: Room) -> bool {
    &&& enemies.len() == 10
    &&& (forall|i: int| 0 <= i < 10 ==> (#[trigger] enemies[i]).wf(room))
    &&& (forall|i: int| 0 <= i < 10 ==> !(#[trigger] enemies[i]).dead ==> enemies[i].active)
}

/// How one tick leaves one roster slot: both flags are preserved, a dead
/// mouse stays exactly put, and any motion is a single axis-aligned step.
pub open spec fn enemy_ticked(m0: Mouse, m1: Mouse) -> bool {
    &&& m1.dead == m0.dead
    &&& m1.active == m0.active
    &&& (m0.dead ==> m1 == m0)
    &&& step_from(m0.x as int, m0.y as int, m1.x as int, m1.y as int)
}

/// Some live mouse's footprint overlaps the 2-cell footprint anchored at (x, y).
pub open spec fn enemy_contact(enemies: Seq<Mouse>, x: int, y: int) -> bool {
    exists|i: int| 0 <= i < enemies.len() && (#[trigger] enemies[i]).live()
        && (enemies[i].covers(x, y) || enemies[i].covers(x + 1, y))
}

}
