use vstd::prelude::*;
use crate::bullet::{bullet_stepped, first_kill, lemma_flight_step, volley_from, Bullet};
use crate::game::{fresh_roster, restarted, GameState};
use crate::geom::{cardinal, footprint_hits, sat_step, step_from};
use crate::mouse::enemy_contact;
use crate::room::Room;
use rand::rngs::SmallRng;

verus! {

/// The four directional keys the player moves by.
#[derive(Clone, Copy)]
pub enum ArrowKey {
    Left,
    Right,
    Up,
    Down,
}

/// A decoded keypress: either a raw directional key or a character key
/// (w/a/s/d shoot, r restarts).
#[derive(Clone, Copy)]
pub enum KeyInput {
    Raw(ArrowKey),
    Unicode(char),
}

/// Movement legality for the player: neither cell of the target footprint is
/// a wall of the room the move was requested in, and no live mouse of the
/// roster the move resolves against overlaps the target footprint.
pub open spec fn player_can_move(room: Room, enemies: Seq<crate::mouse::Mouse>, nx: int, ny: int) -> bool {
    &&& !room.wall(nx, ny)
    &&& !room.wall(nx + 1, ny)
    &&& !enemy_contact(enemies, nx, ny)
}

/// How one shot leaves the player: the bullet roster gains a fresh active
/// bullet at the player's cell in the cursor's slot, the cursor advances
/// round-robin, and nothing else changes.
pub open spec fn shot(p0: Player, p1: Player, dx: isize, dy: isize) -> bool {
    &&& p1.x == p0.x
    &&& p1.y == p0.y
    &&& p1.health == p0.health
    &&& p1.last_hit == p0.last_hit
    &&& p1.timer == p0.timer
    &&& p1.i_bullet == ((p0.i_bullet + 1) % 10)
    &&& p1.bullets@ == p0.bullets@.update(
            p0.i_bullet as int,
            (Bullet { x: p0.x, y: p0.y, dx, dy, active: true }),
        )
}

/// How one resolved move request to (nx, ny) leaves the player and the game.
///
/// While the game is over nothing changes. Otherwise: landing on a door swaps
/// the room and roster wholesale and empties the bullet roster; the position
/// changes exactly when neither target cell is a wall of the room the move
/// was requested in and no live mouse of the roster the move resolves
/// against overlaps the target; contact with a live mouse at the target,
/// even on a blocked move, costs one heart when hearts remain and the 8-tick
/// cooldown has elapsed, and stamps the cooldown.
pub open spec fn move_resolved(p0: Player, p1: Player, g0: GameState, g1: GameState, nx: int, ny: int) -> bool {
    &&& g1.current_room.x == g0.current_room.x
    &&& g1.current_room.y == g0.current_room.y
    &&& g1.current_room.width == g0.current_room.width
    &&& g1.current_room.height == g0.current_room.height
    &&& g1.timer == g0.timer
    &&& g1.score == g0.score
    &&& g1.active == g0.active
    &&& p1.timer == p0.timer
    &&& p1.i_bullet == p0.i_bullet
    &&& (!g0.active ==> p1 == p0 && g1 == g0)
    &&& (g0.active ==> {
        let hit_door = g0.current_room.door_hit(nx, ny);
        let wall_ok = !g0.current_room.wall(nx, ny) && !g0.current_room.wall(nx + 1, ny);
        let contact = enemy_contact(g1.enemies@, nx, ny);
        &&& (hit_door ==> {
            &&& fresh_roster(g1.enemies@, g1.current_room)
            &&& !g1.current_room.locked
            &&& (exists|n: int| 2 <= n <= 4 && #[trigger] g1.current_room.doors_shape(n))
            &&& p1.bullets@.len() == 10
            &&& (forall|i: int| 0 <= i < 10 ==> #[trigger] p1.bullets@[i]
                    == (Bullet { active: false, ..p0.bullets@[i] }))
        })
        &&& (!hit_door ==> {
            &&& g1.current_room == g0.current_room
            &&& g1.enemies@ == g0.enemies@
            &&& p1.bullets@ == p0.bullets@
        })
        &&& (wall_ok && !contact ==> p1.x == nx && p1.y == ny)
        &&& (!(wall_ok && !contact) ==> p1.x == p0.x && p1.y == p0.y)
        &&& (player_can_move(g0.current_room, g1.enemies@, nx, ny) == (wall_ok && !contact))
        &&& (contact && p0.health > 0 && p0.cooldown_ready()
                ==> p1.health == p0.health - 1 && p1.last_hit == p0.timer)
        &&& (!(contact && p0.health > 0 && p0.cooldown_ready())
                ==> p1.health == p0.health && p1.last_hit == p0.last_hit)
    })
}

/// How one raw directional key resolves: the corresponding one-cell move
/// request, decrements saturating at zero.
pub open spec fn raw_key_resolved(p0: Player, p1: Player, g0: GameState, g1: GameState, key: ArrowKey) -> bool {
    match key {
        ArrowKey::Left => move_resolved(p0, p1, g0, g1, sat_step(p0.x as int, -1), p0.y as int),
        ArrowKey::Right => move_resolved(p0, p1, g0, g1, p0.x as int + 1, p0.y as int),
        ArrowKey::Up => move_resolved(p0, p1, g0, g1, p0.x as int, sat_step(p0.y as int, -1)),
        ArrowKey::Down => move_resolved(p0, p1, g0, g1, p0.x as int, p0.y as int + 1),
    }
}

/// How one character key resolves: w/a/s/d spawn a bullet travelling up,
/// left, down or right, r restarts a finished game, anything else is ignored.
pub open spec fn unicode_key_resolved(p0: Player, p1: Player, g0: GameState, g1: GameState, key: char) -> bool {
    if key == 'w' {
        shot(p0, p1, 0isize, -1isize) && g1 == g0
    } else if key == 'a' {
        shot(p0, p1, -1isize, 0isize) && g1 == g0
    } else if key == 's' {
        shot(p0, p1, 0isize, 1isize) && g1 == g0
    } else if key == 'd' {
        shot(p0, p1, 1isize, 0isize) && g1 == g0
    } else if key == 'r' {
        restarted(g0, g1, p0, p1)
    } else {
        p1 == p0 && g1 == g0
    }
}

/// A move request that would land either footprint cell on a wall never
/// changes the mover's position: rejection leaves the player exactly where
/// they stood.
pub proof fn lemma_wall_rejection(p0: Player, p1: Player, g0: GameState, g1: GameState, nx: int, ny: int)
    requires
        move_resolved(p0, p1, g0, g1, nx, ny),
        g0.active,
        g0.current_room.wall(nx, ny) || g0.current_room.wall(nx + 1, ny),
    ensures
        p1.x == p0.x && p1.y == p0.y,
{
}

/// Footprints never end a tick overlapping because of a move: a request onto
/// a live mouse is refused in place, and a move that does land overlaps no
/// live mouse of the roster it resolved against.
pub proof fn lemma_no_overlap_after_rejection(p0: Player, p1: Player, g0: GameState, g1: GameState, nx: int, ny: int)
    requires
        move_resolved(p0, p1, g0, g1, nx, ny),
        g0.active,
    ensures
        enemy_contact(g1.enemies@, nx, ny) ==> p1.x == p0.x && p1.y == p0.y,
        (p1.x != p0.x || p1.y != p0.y) ==> !enemy_contact(g1.enemies@, p1.x as int, p1.y as int),
{
}

/// Health only moves down, by exactly one, and only once the 8-tick cooldown
/// has elapsed; the decrement stamps the cooldown, so a contact on the next
/// tick cannot damage again.
pub proof fn lemma_damage_cooldown(p0: Player, p1: Player, g0: GameState, g1: GameState, nx: int, ny: int)
    requires
        move_resolved(p0, p1, g0, g1, nx, ny),
    ensures
        p1.health != p0.health ==> {
            &&& p0.health > 0
            &&& p0.cooldown_ready()
            &&& p1.health == p0.health - 1
            &&& p1.last_hit == p0.timer
            &&& !p1.cooldown_ready()
        },
{
}

/// A shot by a well-formed player leaves a well-formed player: the fresh
/// bullet stands on the player's own floor cell and flies cardinally.
proof fn lemma_shot_preserves_wf(p0: Player, p1: Player, room: Room, dx: isize, dy: isize)
    requires
        p0.wf(room),
        cardinal(dx as int, dy as int),
        shot(p0, p1, dx, dy),
    ensures
        p1.wf(room),
{
    assert forall|i: int| 0 <= i < 10 implies (#[trigger] p1.bullets@[i]).wf(room) by {
        assert(p0.bullets@[i].wf(room));
    }
}

/// The player: a 2-cell-wide sprite with a health pool, a damage cooldown
/// stamp, a running tick counter, and a fixed ten-slot bullet roster written
/// round-robin.
pub struct Player {
    pub x: usize,
    pub y: usize,
    /// Hearts left, between 0 and 4.
    pub health: usize,
    /// Tick stamp of the last damage taken, for the 8-tick cooldown.
    pub last_hit: usize,
    /// Ticks seen by this player, advanced once per tick.
    pub timer: usize,
    pub bullets: Vec<Bullet>,
    /// Next bullet slot to overwrite, always below 10.
    pub i_bullet: usize,
}

impl Player {
    /// The player's footprint covers (x, y).
    pub open spec fn covers(self, x: int, y: int) -> bool {
        footprint_hits(self.x as int, self.y as int, x, y)
    }

    /// The cooldown window has elapsed: more than 8 of the player's own ticks
    /// since the last damage.
    pub open spec fn cooldown_ready(self) -> bool {
        self.timer - self.last_hit > 8
    }

    pub open spec fn wf(self, room: Room) -> bool {
        &&& self.bullets@.len() == 10
        &&& self.i_bullet < 10
        &&& self.health <= 4
        &&& self.last_hit <= self.timer
        &&& room.interior(self.x as int, self.y as int)
        &&& room.interior(self.x as int + 1, self.y as int)
        &&& (forall|i: int| 0 <= i < 10 ==> (#[trigger] self.bullets@[i]).wf(room))
    }

    /// Spawns the player centered in the given room, at full health, with an
    /// empty (all-inactive) bullet roster.
    pub fn new(room: &Room) -> (p: Player)
        requires
            room.wf(),
            room.width >= 5,
        ensures
            p.wf(*room),
            p.x == room.x + room.width / 2,
            p.y == room.y + room.height / 2,
            p.health == 4,
            p.last_hit == 0,
            p.timer == 0,
            p.i_bullet == 0,
            forall|i: int| 0 <= i < 10 ==> !(#[trigger] p.bullets@[i]).active,
    {
        let mut bullets: Vec<Bullet> = Vec::new();
        let mut k: usize = 0;
        while k < 10
            invariant
                k <= 10,
                bullets@.len() == k,
                forall|i: int| 0 <= i < k ==> #[trigger] bullets@[i]
                    == (Bullet { x: 0usize, y: 0usize, dx: 0isize, dy: 0isize, active: false }),
            decreases 10 - k,
        {
            bullets.push(Bullet::new(0, 0, 0, 0, false));
            k += 1;
        }
        Player {
            x: room.x + room.width / 2,
            y: room.y + room.height / 2,
            health: 4,
            last_hit: 0,
            timer: 0,
            bullets,
            i_bullet: 0,
        }
    }

    /// One tick of the player: only the tick counter advances.
    pub fn update(&mut self)
        requires
            old(self).timer < usize::MAX,
        ensures
            *final(self) == (Player { timer: (old(self).timer + 1) as usize, ..*old(self) }),
    {
        self.timer();
    }

    /// Advances the player's tick counter by one.
    pub fn timer(&mut self)
        requires
            old(self).timer < usize::MAX,
        ensures
            *final(self) == (Player { timer: (old(self).timer + 1) as usize, ..*old(self) }),
    {
        self.timer = self.timer + 1;
    }

    /// Writes a fresh active bullet at the player's cell into the next roster
    /// slot, overwriting round-robin whatever was there, even a bullet still
    /// in flight.
    pub fn shoot(&mut self, dx: isize, dy: isize)
        requires
            cardinal(dx as int, dy as int),
            old(self).bullets@.len() == 10,
            old(self).i_bullet < 10,
        ensures
            shot(*old(self), *final(self), dx, dy),
    {
        let slot = self.i_bullet;
        self.bullets.set(slot, Bullet::new(self.x, self.y, dx, dy, true));
        self.i_bullet = if slot + 1 < 10 { slot + 1 } else { 0 };
    }

    /// The player's footprint covers (x, y).
    pub fn is_collision(&self, x: usize, y: usize) -> (r: bool)
        requires
            self.x < usize::MAX,
        ensures
            r == self.covers(x as int, y as int),
    {
        (x == self.x || x == self.x + 1) && y == self.y
    }

    /// Deactivates every bullet in the roster; used when the room is swapped
    /// out under them.
    pub fn clear(&mut self)
        requires
            old(self).bullets@.len() == 10,
        ensures
            final(self).x == old(self).x,
            final(self).y == old(self).y,
            final(self).health == old(self).health,
            final(self).last_hit == old(self).last_hit,
            final(self).timer == old(self).timer,
            final(self).i_bullet == old(self).i_bullet,
            final(self).bullets@.len() == 10,
            forall|i: int| 0 <= i < 10 ==> #[trigger] final(self).bullets@[i]
                == (Bullet { active: false, ..old(self).bullets@[i] }),
    {
        let mut k: usize = 0;
        while k < 10
            invariant
                k <= 10,
                self.bullets@.len() == 10,
                self.x == old(self).x,
                self.y == old(self).y,
                self.health == old(self).health,
                self.last_hit == old(self).last_hit,
                self.timer == old(self).timer,
                self.i_bullet == old(self).i_bullet,
                forall|i: int| 0 <= i < k ==> #[trigger] self.bullets@[i]
                    == (Bullet { active: false, ..old(self).bullets@[i] }),
                forall|i: int| k <= i < 10 ==> #[trigger] self.bullets@[i] == old(self).bullets@[i],
            decreases 10 - k,
        {
            let mut b = self.bullets[k];
            b.active = false;
            self.bullets.set(k, b);
            k += 1;
        }
    }

    /// The shared movement and combat policy, from the player's side, plus
    /// the door rule: landing the request on a door swaps in a fresh room and
    /// roster (and drops the bullets) before the move resolves; walls are
    /// those of the room the move was requested in.
    #[verifier::loop_isolation(false)]
    pub fn move_to(&mut self, new_x: usize, new_y: usize, game_state: &mut GameState, rng: &mut SmallRng)
        requires
            old(game_state).wf(),
            old(self).wf(old(game_state).current_room),
            step_from(old(self).x as int, old(self).y as int, new_x as int, new_y as int),
        ensures
            final(game_state).wf(),
            final(self).wf(final(game_state).current_room),
            move_resolved(*old(self), *final(self), *old(game_state), *final(game_state),
                new_x as int, new_y as int),
    {
        if game_state.active {
            let hit_door = game_state.current_room.is_door(new_x, new_y);
            let wall_ok = !game_state.current_room.is_wall(new_x, new_y)
                && !game_state.current_room.is_wall(new_x + 1, new_y);
            if hit_door {
                game_state.transition(rng);
                self.clear();
            }
            let mut contact = false;
            let mut i: usize = 0;
            while i < 10
                invariant
                    i <= 10,
                    contact ==> enemy_contact(game_state.enemies@, new_x as int, new_y as int),
                    !contact ==> forall|j: int| 0 <= j < i
                        ==> !((#[trigger] game_state.enemies@[j]).live()
                            && (game_state.enemies@[j].covers(new_x as int, new_y as int)
                                || game_state.enemies@[j].covers(new_x as int + 1, new_y as int))),
                decreases 10 - i,
            {
                let m = game_state.enemies[i];
                if m.active && !m.dead {
                    proof {
                        assert(m.wf(game_state.current_room));
                    }
                    if m.is_collision(new_x, new_y) || m.is_collision(new_x + 1, new_y) {
                        contact = true;
                    }
                }
                i += 1;
            }
            if wall_ok && !contact {
                proof {
                    crate::room::lemma_step_stays_interior(
                        game_state.current_room, self.x as int, self.y as int,
                        new_x as int, new_y as int);
                    assert(step_from(self.x as int + 1, self.y as int,
                        new_x as int + 1, new_y as int));
                    crate::room::lemma_step_stays_interior(
                        game_state.current_room, self.x as int + 1, self.y as int,
                        new_x as int + 1, new_y as int);
                }
                self.x = new_x;
                self.y = new_y;
            }
            if contact && self.health > 0 && self.timer - self.last_hit > 8 {
                self.health = self.health - 1;
                self.last_hit = self.timer;
            }
        }
    }

    /// Resolves one decoded keypress: arrows request one-cell moves, w/a/s/d
    /// shoot in the four cardinal directions, r restarts a finished game, and
    /// any other character does nothing.
    pub fn key(&mut self, key: KeyInput, game_state: &mut GameState, rng: &mut SmallRng)
        requires
            old(game_state).wf(),
            old(self).wf(old(game_state).current_room),
        ensures
            final(game_state).wf(),
            final(self).wf(final(game_state).current_room),
            match key {
                KeyInput::Raw(code) => raw_key_resolved(
                    *old(self), *final(self), *old(game_state), *final(game_state), code),
                KeyInput::Unicode(c) => unicode_key_resolved(
                    *old(self), *final(self), *old(game_state), *final(game_state), c),
            },
    {
        match key {
            KeyInput::Raw(code) => self.handle_raw(code, game_state, rng),
            KeyInput::Unicode(c) => self.handle_unicode(c, game_state, rng),
        }
    }

    /// Arrow keys request a one-cell move, decrements saturating at zero.
    fn handle_raw(&mut self, key: ArrowKey, game_state: &mut GameState, rng: &mut SmallRng)
        requires
            old(game_state).wf(),
            old(self).wf(old(game_state).current_room),
        ensures
            final(game_state).wf(),
            final(self).wf(final(game_state).current_room),
            raw_key_resolved(*old(self), *final(self), *old(game_state), *final(game_state), key),
    {
        match key {
            ArrowKey::Left => {
                let nx = if self.x > 0 { self.x - 1 } else { 0 };
                self.move_to(nx, self.y, game_state, rng);
            }
            ArrowKey::Right => {
                self.move_to(self.x + 1, self.y, game_state, rng);
            }
            ArrowKey::Up => {
                let ny = if self.y > 0 { self.y - 1 } else { 0 };
                self.move_to(self.x, ny, game_state, rng);
            }
            ArrowKey::Down => {
                self.move_to(self.x, self.y + 1, game_state, rng);
            }
        }
    }

    /// w/a/s/d shoot up, left, down, right; r restarts a finished game.
    fn handle_unicode(&mut self, key: char, game_state: &mut GameState, rng: &mut SmallRng)
        requires
            old(game_state).wf(),
            old(self).wf(old(game_state).current_room),
        ensures
            final(game_state).wf(),
            final(self).wf(final(game_state).current_room),
            unicode_key_resolved(*old(self), *final(self), *old(game_state), *final(game_state), key),
    {
        match key {
            'w' => {
                self.shoot(0, -1);
                proof { lemma_shot_preserves_wf(*old(self), *self, game_state.current_room, 0isize, -1isize); }
            }
            'a' => {
                self.shoot(-1, 0);
                proof { lemma_shot_preserves_wf(*old(self), *self, game_state.current_room, -1isize, 0isize); }
            }
            's' => {
                self.shoot(0, 1);
                proof { lemma_shot_preserves_wf(*old(self), *self, game_state.current_room, 0isize, 1isize); }
            }
            'd' => {
                self.shoot(1, 0);
                proof { lemma_shot_preserves_wf(*old(self), *self, game_state.current_room, 1isize, 0isize); }
            }
            'r' => {
                game_state.restart(self, rng);
            }
            _ => {}
        }
    }

    /// Advances every bullet in the roster, in slot order, against the
    /// current room and roster.
    #[verifier::loop_isolation(false)]
    pub fn update_bullets(&mut self, game_state: &mut GameState)
        requires
            old(game_state).wf(),
            old(self).wf(old(game_state).current_room),
            old(game_state).score <= usize::MAX - 1000,
        ensures
            final(game_state).wf(),
            final(self).wf(final(game_state).current_room),
            final(game_state).current_room == old(game_state).current_room,
            final(game_state).timer == old(game_state).timer,
            final(game_state).active == old(game_state).active,
            final(self).x == old(self).x,
            final(self).y == old(self).y,
            final(self).health == old(self).health,
            final(self).last_hit == old(self).last_hit,
            final(self).timer == old(self).timer,
            final(self).i_bullet == old(self).i_bullet,
            old(game_state).score <= final(game_state).score
                <= old(game_state).score + 1000,
            (final(game_state).score == old(game_state).score) <==> (forall|j: int| 0 <= j < 10
                ==> (#[trigger] final(game_state).enemies@[j]).dead
                    == old(game_state).enemies@[j].dead),
            final(game_state).enemies@.len() == 10,
            forall|j: int| 0 <= j < 10 ==> {
                let m0 = old(game_state).enemies@[j];
                let m1 = #[trigger] final(game_state).enemies@[j];
                m1.x == m0.x && m1.y == m0.y && m1.active == m0.active && (m0.dead ==> m1.dead)
            },
            forall|i: int| 0 <= i < 10 ==> bullet_stepped(
                old(self).bullets@[i], #[trigger] final(self).bullets@[i],
                old(game_state).current_room),
            (final(self).bullets@, final(game_state).enemies@, final(game_state).score as int)
                == volley_from(old(self).bullets@, old(game_state).enemies@,
                    old(game_state).score as int, old(game_state).current_room, 0),
    {
        let mut i: usize = 0;
        while i < 10
            invariant
                i <= 10,
                game_state.wf(),
                game_state.current_room == old(game_state).current_room,
                game_state.timer == old(game_state).timer,
                game_state.active == old(game_state).active,
                game_state.enemies@.len() == 10,
                old(game_state).score <= game_state.score,
                game_state.score <= old(game_state).score + 100 * i,
                self.x == old(self).x,
                self.y == old(self).y,
                self.health == old(self).health,
                self.last_hit == old(self).last_hit,
                self.timer == old(self).timer,
                self.i_bullet == old(self).i_bullet,
                self.bullets@.len() == 10,
                self.wf(game_state.current_room),
                forall|j: int| 0 <= j < 10 ==> {
                    let m0 = old(game_state).enemies@[j];
                    let m1 = #[trigger] game_state.enemies@[j];
                    m1.x == m0.x && m1.y == m0.y && m1.active == m0.active && (m0.dead ==> m1.dead)
                },
                (game_state.score == old(game_state).score) <==> (forall|j: int| 0 <= j < 10
                    ==> (#[trigger] game_state.enemies@[j]).dead
                        == old(game_state).enemies@[j].dead),
                forall|k: int| 0 <= k < i ==> bullet_stepped(
                    old(self).bullets@[k], #[trigger] self.bullets@[k],
                    old(game_state).current_room),
                forall|k: int| i <= k < 10 ==> #[trigger] self.bullets@[k] == old(self).bullets@[k],
                volley_from(old(self).bullets@, old(game_state).enemies@,
                        old(game_state).score as int, old(game_state).current_room, 0)
                    == volley_from(self.bullets@, game_state.enemies@,
                        game_state.score as int, old(game_state).current_room, i as int),
            decreases 10 - i,
        {
            let ghost gs_before = *game_state;
            let ghost mice_before = game_state.enemies@;
            let ghost score_entry = game_state.score;
            let mut b = self.bullets[i];
            let ghost b_before = b;
            proof {
                assert(b_before.wf(game_state.current_room));
            }
            b.move_forward(game_state);
            let ghost bullets_prev = self.bullets@;
            self.bullets.set(i, b);
            proof {
                lemma_flight_step(b_before, b, gs_before, *game_state);
                assert(volley_from(bullets_prev, mice_before, score_entry as int,
                        old(game_state).current_room, i as int)
                    == volley_from(self.bullets@, game_state.enemies@,
                        game_state.score as int, old(game_state).current_room, i as int + 1));
                assert forall|j: int| 0 <= j < 10 implies {
                    let m0 = old(game_state).enemies@[j];
                    let m1 = #[trigger] game_state.enemies@[j];
                    m1.x == m0.x && m1.y == m0.y && m1.active == m0.active && (m0.dead ==> m1.dead)
                } by {
                    assert(mice_before[j].x == old(game_state).enemies@[j].x);
                }
                if game_state.score == score_entry {
                    assert(game_state.enemies@ =~= mice_before);
                } else {
                    // This call killed: the slot that died was alive at the
                    // start of the whole pass, so the rosters now differ.
                    let tx = b_before.target_x();
                    let ty = b_before.target_y();
                    let j = choose|j: int| #[trigger] first_kill(mice_before, j, tx, ty)
                        && game_state.enemies@ == mice_before.update(
                            j, (crate::mouse::Mouse { dead: true, ..mice_before[j] }));
                    assert(!old(game_state).enemies@[j].dead);
                    assert(game_state.enemies@[j].dead);
                }
                if score_entry != old(game_state).score {
                    // A kill from an earlier slot already drove the score up;
                    // its victim stays dead, so the rosters keep differing.
                    let j = choose|j: int| 0 <= j < 10
                        && (#[trigger] mice_before[j]).dead != old(game_state).enemies@[j].dead;
                    assert(mice_before[j].dead && !old(game_state).enemies@[j].dead);
                    assert(game_state.enemies@[j].dead);
                }
            }
            i += 1;
        }
        proof {
            assert(volley_from(self.bullets@, game_state.enemies@, game_state.score as int,
                    old(game_state).current_room, 10)
                == (self.bullets@, game_state.enemies@, game_state.score as int));
        }
    }
}

}
