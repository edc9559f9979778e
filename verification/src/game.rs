use vstd::prelude::*;
use crate::mouse::{enemy_step_taken, enemy_ticked, mouse_attempt_resolved, mouse_can_move, roster_wf, Mouse};
use crate::player::Player;
use crate::rng::rng_range;
use crate::geom::cardinal_sat_target;
use crate::room::{Room, BUFFER_HEIGHT, BUFFER_WIDTH};
use rand::rngs::SmallRng;

verus! {

/// The orchestrator: the current room, the enemy roster, the running tick
/// counter, the score, and the active flag (false means game over, frozen
/// until a restart).
pub struct GameState {
    pub current_room: Room,
    pub timer: usize,
    pub enemies: Vec<Mouse>,
    pub score: usize,
    pub active: bool,
}

/// A freshly spawned mouse: live, standing in the 10-by-10 block near the
/// room's center.
pub open spec fn spawned_in(room: Room, m: Mouse) -> bool {
    &&& !m.dead
    &&& m.active
    &&& room.x + 5 <= m.x < room.x + 15
    &&& room.y + 5 <= m.y < room.y + 15
}

/// The inactive filler that unused roster slots hold.
pub open spec fn placeholder(m: Mouse) -> bool {
    m.x == 10 && m.y == 10 && m.dead && !m.active
}

/// The first n slots hold freshly spawned mice, the rest placeholders.
pub open spec fn roster_split(enemies: Seq<Mouse>, room: Room, n: int) -> bool {
    &&& (forall|i: int| 0 <= i < n ==> spawned_in(room, #[trigger] enemies[i]))
    &&& (forall|i: int| n <= i < enemies.len() ==> placeholder(#[trigger] enemies[i]))
}

/// A roster as room entry leaves it: a count drawn from [3, 9) of live mice
/// near the center, placeholders in the remaining slots.
pub open spec fn fresh_roster(enemies: Seq<Mouse>, room: Room) -> bool {
    &&& enemies.len() == 10
    &&& exists|n: int| 3 <= n < 9 && #[trigger] roster_split(enemies, room, n)
}

/// Every slot holds the inactive filler.
pub open spec fn all_placeholders(enemies: Seq<Mouse>) -> bool {
    &&& enemies.len() == 10
    &&& forall|i: int| 0 <= i < 10 ==> placeholder(#[trigger] enemies[i])
}

/// How a restart keypress leaves the game and the player: a no-op while the
/// game is active; while it is over, health returns to 4, score and timer to
/// 0, a fresh room replaces the old one, the roster empties to placeholders,
/// and play resumes. The player keeps position, tick counter, cooldown stamp
/// and bullets.
pub open spec fn restarted(g0: GameState, g1: GameState, p0: Player, p1: Player) -> bool {
    &&& g1.current_room.x == g0.current_room.x
    &&& g1.current_room.y == g0.current_room.y
    &&& g1.current_room.width == g0.current_room.width
    &&& g1.current_room.height == g0.current_room.height
    &&& (g0.active ==> p1 == p0 && g1 == g0)
    &&& (!g0.active ==> {
        &&& p1.health == 4
        &&& p1.x == p0.x
        &&& p1.y == p0.y
        &&& p1.last_hit == p0.last_hit
        &&& p1.timer == p0.timer
        &&& p1.bullets@ == p0.bullets@
        &&& p1.i_bullet == p0.i_bullet
        &&& g1.score == 0
        &&& g1.timer == 0
        &&& g1.active
        &&& !g1.current_room.locked
        &&& all_placeholders(g1.enemies@)
    })
}

/// Builds the ten-slot roster of inactive fillers.
fn placeholder_roster() -> (v: Vec<Mouse>)
    ensures
        all_placeholders(v@),
{
    let mut v: Vec<Mouse> = Vec::new();
    let mut k: usize = 0;
    while k < 10
        invariant
            k <= 10,
            v@.len() == k,
            forall|i: int| 0 <= i < k ==> placeholder(#[trigger] v@[i]),
        decreases 10 - k,
    {
        v.push(Mouse::new(10, 10, true, false));
        k += 1;
    }
    v
}

impl GameState {
    pub open spec fn wf(self) -> bool {
        &&& self.current_room.wf()
        &&& self.current_room.width == 20
        &&& self.current_room.height == 20
        &&& self.current_room.x == (BUFFER_WIDTH - 20) / 2
        &&& self.current_room.y == (BUFFER_HEIGHT - 20) / 2
        &&& roster_wf(self.enemies@, self.current_room)
    }

    /// A fresh game: a 20-by-20 room centered on the display, an empty enemy
    /// roster, zero timer and score, active.
    pub fn new(rng: &mut SmallRng) -> (g: GameState)
        ensures
            g.wf(),
            g.timer == 0,
            g.score == 0,
            g.active,
            !g.current_room.locked,
            exists|n: int| 2 <= n <= 4 && #[trigger] g.current_room.doors_shape(n),
            all_placeholders(g.enemies@),
    {
        let current_room = Room::new(20, 20, rng);
        let enemies = placeholder_roster();
        GameState { current_room, timer: 0, enemies, score: 0, active: true }
    }

    /// Repopulates the roster: a count drawn from [3, 9) of live mice at
    /// random cells near the room's center, placeholders behind them.
    pub fn generate(&mut self, rng: &mut SmallRng)
        requires
            old(self).wf(),
        ensures
            final(self).wf(),
            final(self).current_room == old(self).current_room,
            final(self).timer == old(self).timer,
            final(self).score == old(self).score,
            final(self).active == old(self).active,
            fresh_roster(final(self).enemies@, final(self).current_room),
    {
        self.enemies = placeholder_roster();
        let n = rng_range(rng, 3, 9);
        let rx = self.current_room.x;
        let ry = self.current_room.y;
        let mut i: usize = 0;
        while i < n
            invariant
                3 <= n < 9,
                i <= n,
                self.current_room == old(self).current_room,
                self.current_room.wf(),
                self.current_room.width == 20,
                self.current_room.height == 20,
                rx == self.current_room.x,
                ry == self.current_room.y,
                self.timer == old(self).timer,
                self.score == old(self).score,
                self.active == old(self).active,
                self.enemies@.len() == 10,
                forall|k: int| 0 <= k < i ==> spawned_in(self.current_room, #[trigger] self.enemies@[k]),
                forall|k: int| i <= k < 10 ==> placeholder(#[trigger] self.enemies@[k]),
            decreases n - i,
        {
            let mx = rng_range(rng, rx + 5, rx + 15);
            let my = rng_range(rng, ry + 5, ry + 15);
            self.enemies.set(i, Mouse::new(mx, my, false, true));
            i += 1;
        }
        assert(roster_split(self.enemies@, self.current_room, n as int));
    }

    /// Room transition: the current room and the enemy roster are both
    /// replaced wholesale; nothing of the old room's door layout carries over.
    pub fn transition(&mut self, rng: &mut SmallRng)
        requires
            old(self).wf(),
        ensures
            final(self).wf(),
            final(self).current_room.x == old(self).current_room.x,
            final(self).current_room.y == old(self).current_room.y,
            final(self).current_room.width == old(self).current_room.width,
            final(self).current_room.height == old(self).current_room.height,
            !final(self).current_room.locked,
            exists|n: int| 2 <= n <= 4 && #[trigger] final(self).current_room.doors_shape(n),
            final(self).timer == old(self).timer,
            final(self).score == old(self).score,
            final(self).active == old(self).active,
            fresh_roster(final(self).enemies@, final(self).current_room),
    {
        self.current_room = Room::new(20, 20, rng);
        self.generate(rng);
    }

    /// Restart succeeds only while the game is over: health back to 4, score
    /// and timer to 0, a fresh room and an empty roster, and play resumes.
    /// While the game is active it changes nothing.
    pub fn restart(&mut self, player: &mut Player, rng: &mut SmallRng)
        requires
            old(self).wf(),
            old(player).wf(old(self).current_room),
        ensures
            final(self).wf(),
            final(player).wf(final(self).current_room),
            restarted(*old(self), *final(self), *old(player), *final(player)),
            !old(self).active ==> exists|n: int| 2 <= n <= 4
                && #[trigger] final(self).current_room.doors_shape(n),
    {
        if !self.active {
            player.health = 4;
            self.score = 0;
            self.timer = 0;
            self.current_room = Room::new(20, 20, rng);
            self.enemies = placeholder_roster();
            self.active = true;
        }
    }

    /// One tick while active: the game goes over (frozen from the next tick
    /// on) once the player's health is seen at zero, every mouse takes its
    /// cadenced random step against the player, and the timer and the
    /// survival score each advance by one. While the game is over the tick
    /// changes nothing. The player can lose at most one heart per tick, and
    /// only with the 8-tick cooldown elapsed; mice step only on every 5th
    /// tick.
    #[verifier::loop_isolation(false)]
    pub fn update(&mut self, player: &mut Player, rng: &mut SmallRng)
        requires
            old(self).wf(),
            old(player).wf(old(self).current_room),
            old(self).timer < usize::MAX,
            old(self).score < usize::MAX,
        ensures
            final(self).wf(),
            final(player).wf(final(self).current_room),
            final(self).current_room == old(self).current_room,
            final(player).x == old(player).x,
            final(player).y == old(player).y,
            final(player).timer == old(player).timer,
            final(player).bullets@ == old(player).bullets@,
            final(player).i_bullet == old(player).i_bullet,
            !old(self).active ==> *final(self) == *old(self) && *final(player) == *old(player),
            old(self).active ==> {
                &&& final(self).timer == old(self).timer + 1
                &&& final(self).score == old(self).score + 1
                &&& final(self).active == (old(player).health != 0)
                &&& ((final(player).health == old(player).health
                        && final(player).last_hit == old(player).last_hit)
                    || (old(player).health > 0 && old(player).cooldown_ready()
                        && final(player).health == old(player).health - 1
                        && final(player).last_hit == old(player).timer))
                &&& (old(self).timer % 5 != 0 ==> final(self).enemies@ == old(self).enemies@
                        && final(player).health == old(player).health
                        && final(player).last_hit == old(player).last_hit)
                &&& final(self).enemies@.len() == 10
                &&& (forall|j: int| 0 <= j < 10 ==> enemy_ticked(
                        old(self).enemies@[j], #[trigger] final(self).enemies@[j]))
                &&& (old(self).timer % 5 == 0 ==> forall|j: int| 0 <= j < 10
                        ==> !(#[trigger] old(self).enemies@[j]).dead
                        ==> enemy_step_taken(old(self).enemies@[j], final(self).enemies@[j],
                                old(self).current_room, *old(player)))
            },
    {
        if self.active {
            if player.health == 0 {
                self.active = false;
            }
            let mut i: usize = 0;
            while i < 10
                invariant
                    i <= 10,
                    self.current_room == old(self).current_room,
                    self.timer == old(self).timer,
                    self.score == old(self).score,
                    self.active == (old(player).health != 0),
                    self.wf(),
                    player.wf(self.current_room),
                    player.x == old(player).x,
                    player.y == old(player).y,
                    player.timer == old(player).timer,
                    player.bullets@ == old(player).bullets@,
                    player.i_bullet == old(player).i_bullet,
                    (player.health == old(player).health
                        && player.last_hit == old(player).last_hit)
                    || (old(player).health > 0 && old(player).cooldown_ready()
                        && player.health == old(player).health - 1
                        && player.last_hit == old(player).timer),
                    old(self).timer % 5 != 0 ==> self.enemies@ == old(self).enemies@
                        && player.health == old(player).health
                        && player.last_hit == old(player).last_hit,
                    forall|j: int| 0 <= j < i ==> enemy_ticked(
                        old(self).enemies@[j], #[trigger] self.enemies@[j]),
                    old(self).timer % 5 == 0 ==> forall|j: int| 0 <= j < i
                        ==> !(#[trigger] old(self).enemies@[j]).dead
                        ==> enemy_step_taken(old(self).enemies@[j], self.enemies@[j],
                                old(self).current_room, *old(player)),
                    forall|j: int| i <= j < 10 ==> #[trigger] self.enemies@[j]
                        == old(self).enemies@[j],
                decreases 10 - i,
            {
                let ghost mice_before = self.enemies@;
                let mut m = self.enemies[i];
                let ghost m_pre = m;
                let ghost p_pre = *player;
                proof {
                    assert(m.wf(self.current_room));
                    assert(!m.dead ==> m.active);
                }
                m.random_move(&self.current_room, rng, player, self.timer);
                self.enemies.set(i, m);
                proof {
                    if old(self).timer % 5 != 0 {
                        assert(self.enemies@ =~= mice_before);
                    }
                    if old(self).timer % 5 == 0 && !m_pre.dead {
                        // The witness target of this slot's draw also
                        // witnesses the step against the standing player.
                        let (tx, ty) = choose|tx: int, ty: int| {
                            &&& cardinal_sat_target(m_pre.x as int, m_pre.y as int, tx, ty)
                            &&& #[trigger] mouse_attempt_resolved(m_pre, m, self.current_room,
                                    p_pre, *player, tx, ty)
                        };
                        assert(mouse_can_move(self.current_room, p_pre, tx, ty)
                            == mouse_can_move(self.current_room, *old(player), tx, ty));
                        assert(enemy_step_taken(m_pre, m, old(self).current_room, *old(player)));
                    }
                }
                i += 1;
            }
            self.timer = self.timer + 1;
            self.score = self.score + 1;
        }
    }
}

}
