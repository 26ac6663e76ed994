//! The simulation engine: owns the authoritative world and exposes command
//! application, join/leave, reset and the per-tick advance.

use vstd::prelude::*;
use crate::models::{
    count_owned, dead_count, live_count, lemma_count_owned_push, lemma_count_owned_nonneg,
    lemma_count_owned_take_succ, lemma_dead_count_nonneg, lemma_live_count_push,
    lemma_live_count_nonneg, bullet_ok, config_ok, corpse_ok, player_ok, player_in_bounds,
    BulletState, DeadPlayer, GameCommand, GameConfig, GameState, IdValue, PlayerState,
    BULLET_RADIUS, DIR_SCALE, FIRE_OFFSET_PER_DIR, MAX_CONCURRENT_BULLETS, MAX_TIME_MS,
    PLAYER_RADIUS, SURVIVAL_TIMEOUT_MS, THROTTLE_MAX,
};
use crate::tables::{lemma_idx_is_first, lemma_idx_none, set_val, val_of};
use crate::rng::random_in_range;

verus! {

/// A player as it is created on join and on reset: the given id, somewhere
/// inside the bounds, heading along the positive x axis, stopped.
pub open spec fn fresh_player(p: PlayerState, id: u32, c: GameConfig) -> bool {
    &&& p.id == id
    &&& player_in_bounds(p, c)
    &&& p.dir_x == DIR_SCALE
    &&& p.dir_y == 0
    &&& p.throttle == 0
}

/// A player after a rotate command: the heading vector is replaced, with
/// each component clamped into the direction scale.
pub open spec fn rotated_player(p: PlayerState, dx: int, dy: int) -> PlayerState {
    PlayerState {
        id: p.id,
        x: p.x,
        y: p.y,
        dir_x: crate::spec_clamp(dx, -DIR_SCALE as int, DIR_SCALE as int) as i64,
        dir_y: crate::spec_clamp(dy, -DIR_SCALE as int, DIR_SCALE as int) as i64,
        throttle: p.throttle,
    }
}

/// A player after a throttle command: the throttle is clamped into
/// `[0, THROTTLE_MAX]` before it is stored.
pub open spec fn throttled_player(p: PlayerState, t: int) -> PlayerState {
    PlayerState {
        id: p.id,
        x: p.x,
        y: p.y,
        dir_x: p.dir_x,
        dir_y: p.dir_y,
        throttle: crate::spec_clamp(t, 0, THROTTLE_MAX as int) as i64,
    }
}

/// The bullet a fire command creates: the shooter's heading, offset
/// `FIRE_OFFSET` from the shooter along it, and the next wrapping id.
pub open spec fn spawned_bullet(p: PlayerState, bid: u32) -> BulletState {
    BulletState {
        id: bid,
        player_id: p.id,
        x: (p.x + FIRE_OFFSET_PER_DIR * p.dir_x) as i64,
        y: (p.y + FIRE_OFFSET_PER_DIR * p.dir_y) as i64,
        dir_x: p.dir_x,
        dir_y: p.dir_y,
    }
}

/// The bullet id counter wraps around instead of overflowing.
pub open spec fn wrap_inc(c: u32) -> u32 {
    if c == u32::MAX {
        0
    } else {
        (c + 1) as u32
    }
}

/// The simulation engine.
pub struct Game {
    pub config: GameConfig,
    pub state: GameState,
    /// Wrapping counter that hands out bullet ids.
    pub bullet_id_counter: u32,
    /// Per-player time of the next survival bonus.
    pub survival_times: Vec<IdValue>,
    /// The simulation clock, in milliseconds.
    pub now_ms: u64,
}

impl Game {
    /// The engine's invariant: a valid configuration, every entity
    /// well-formed, every id live or dead at most once over both sets, and
    /// nobody exceeding the bullet cap.
    pub open spec fn wf(self) -> bool {
        &&& config_ok(self.config)
        &&& forall|i: int|
            0 <= i < self.state.players@.len() ==> player_ok(
                #[trigger] self.state.players@[i],
                self.config,
            )
        &&& forall|i: int|
            0 <= i < self.state.bullets@.len() ==> bullet_ok(
                #[trigger] self.state.bullets@[i],
                self.config,
            )
        &&& forall|i: int|
            0 <= i < self.state.dead@.len() ==> corpse_ok(
                #[trigger] self.state.dead@[i],
                self.config,
            )
        &&& forall|id: u32|
            (#[trigger] live_count(self.state.players@, id)) + dead_count(self.state.dead@, id)
                <= 1
        &&& forall|id: u32|
            (#[trigger] count_owned(self.state.bullets@, id)) <= MAX_CONCURRENT_BULLETS as int
    }

    /// `id` is currently live.
    pub open spec fn is_live(self, id: u32) -> bool {
        live_count(self.state.players@, id) > 0
    }

    /// `id` is currently a corpse.
    pub open spec fn is_dead(self, id: u32) -> bool {
        dead_count(self.state.dead@, id) > 0
    }

    /// `id` is connected: live or a corpse, never both.
    pub open spec fn connected(self, id: u32) -> bool {
        self.is_live(id) || self.is_dead(id)
    }

    /// A new engine with an empty world.
    pub fn new(config: GameConfig) -> (g: Game)
        requires
            config_ok(config),
        ensures
            g.wf(),
            g.config == config,
            g.state.players@.len() == 0,
            g.state.bullets@.len() == 0,
            g.state.dead@.len() == 0,
            g.state.scoreboard@.len() == 0,
            g.survival_times@.len() == 0,
            g.bullet_id_counter == 0,
            g.now_ms == 0,
    {
        Game {
            config,
            state: GameState {
                players: Vec::new(),
                bullets: Vec::new(),
                dead: Vec::new(),
                scoreboard: Vec::new(),
            },
            bullet_id_counter: 0,
            survival_times: Vec::new(),
            now_ms: 0,
        }
    }

    /// Left for callers that set up the world before the first tick;
    /// the engine needs no late initialisation.
    pub fn init(&mut self)
        ensures
            *final(self) == *old(self),
    {
    }
}

/// Sets the entry for `id` in an id-keyed table to `v`, updating the first
/// entry with that key or appending a fresh one.
pub fn table_set(t: &mut Vec<IdValue>, id: u32, v: u64)
    ensures
        final(t)@ == set_val(old(t)@, id, v),
{
    let n = t.len();
    let mut i: usize = 0;
    while i < n
        invariant
            i <= n,
            n == t@.len(),
            t@ == old(t)@,
            forall|k: int| 0 <= k < i ==> t@[k].id != id,
        decreases n - i,
    {
        if t[i].id == id {
            proof {
                lemma_idx_is_first(t@, id, i as int);
            }
            t.set(i, IdValue { id, val: v });
            return ;
        }
        i = i + 1;
    }
    proof {
        lemma_idx_none(t@, id);
    }
    t.push(IdValue { id, val: v });
}

/// Increments the score entry for `id` by one point (saturating),
/// creating the entry at one on the first scoring event.
pub fn table_bump(t: &mut Vec<IdValue>, id: u32)
    ensures
        final(t)@ == crate::tables::bump(old(t)@, id),
{
    let n = t.len();
    let mut i: usize = 0;
    while i < n
        invariant
            i <= n,
            n == t@.len(),
            t@ == old(t)@,
            forall|k: int| 0 <= k < i ==> t@[k].id != id,
        decreases n - i,
    {
        if t[i].id == id {
            proof {
                lemma_idx_is_first(t@, id, i as int);
            }
            let v = t[i].val;
            let nv = if v < u64::MAX {
                v + 1
            } else {
                v
            };
            t.set(i, IdValue { id, val: nv });
            return ;
        }
        i = i + 1;
    }
    proof {
        lemma_idx_none(t@, id);
    }
    t.push(IdValue { id, val: 1 });
}

/// One axis of bullet motion: fixed-point scaling on the nonnegative
/// magnitude, then a signed step.
fn bullet_axis_step(v: i64, dir: i64, dt: u64) -> (r: i64)
    requires
        -DIR_SCALE <= dir <= DIR_SCALE,
        dt <= 1000,
        -1_000_000 <= v <= crate::models::MAX_BOUND + 1_000_000,
    ensures
        r as int == v as int + crate::steps::bullet_delta(dir as int, dt as int),
{
    let m: u64 = if dir >= 0 {
        dir as u64
    } else {
        (-dir) as u64
    };
    proof {
        assert(m * 20000 <= 20_000_000 && m * 20000 * dt <= 20_000_000_000) by (nonlinear_arith)
            requires
                m <= 1000 && dt <= 1000,
        ;
    }
    let prod: u64 = m * (crate::models::BULLET_SPEED as u64) * dt;
    proof {
        assert(prod / 1_000_000 <= 20_000) by (nonlinear_arith)
            requires
                prod <= 20_000_000_000,
        ;
    }
    let d64: u64 = prod / 1_000_000;
    let d: i64 = d64 as i64;
    if dir >= 0 {
        v + d
    } else {
        v - d
    }
}

/// One axis of player motion: heading, base speed, throttle and the tick
/// duration, all in fixed point.
fn player_axis_step(v: i64, dir: i64, throttle: i64, dt: u64) -> (r: i64)
    requires
        -DIR_SCALE <= dir <= DIR_SCALE,
        0 <= throttle <= THROTTLE_MAX,
        dt <= 1000,
        -1_000_000 <= v <= crate::models::MAX_BOUND + 1_000_000,
    ensures
        r as int == v as int + crate::steps::player_delta(
            dir as int,
            throttle as int,
            dt as int,
        ),
{
    let m: u64 = if dir >= 0 {
        dir as u64
    } else {
        (-dir) as u64
    };
    let th: u64 = throttle as u64;
    proof {
        assert(m * 8000 <= 8_000_000 && m * 8000 * th <= 8_000_000_000 && m * 8000 * th * dt
            <= 8_000_000_000_000) by (nonlinear_arith)
            requires
                m <= 1000 && th <= 1000 && dt <= 1000,
        ;
    }
    let prod: u64 = m * (crate::models::PLAYER_BASE_SPEED as u64) * th * dt;
    proof {
        assert(prod / 1_000_000_000 <= 8_000) by (nonlinear_arith)
            requires
                prod <= 8_000_000_000_000,
        ;
    }
    let d64: u64 = prod / 1_000_000_000;
    let d: i64 = d64 as i64;
    if dir >= 0 {
        v + d
    } else {
        v - d
    }
}

/// A uniformly random position whose whole player circle lies in bounds.
fn random_player_pos(c: &GameConfig) -> (pos: (i64, i64))
    requires
        config_ok(*c),
    ensures
        PLAYER_RADIUS <= pos.0 <= c.bound_x - PLAYER_RADIUS,
        PLAYER_RADIUS <= pos.1 <= c.bound_y - PLAYER_RADIUS,
{
    let x = random_in_range(PLAYER_RADIUS, c.bound_x - PLAYER_RADIUS);
    let y = random_in_range(PLAYER_RADIUS, c.bound_y - PLAYER_RADIUS);
    (x, y)
}

impl Game {
    /// Inserts a live player at a random in-bounds position and starts its
    /// survival clock after the grace period. The caller (the session
    /// coordinator) guarantees the id is not already connected.
    pub fn add_player(&mut self, player_id: u32)
        requires
            old(self).wf(),
            !old(self).connected(player_id),
            old(self).now_ms <= MAX_TIME_MS,
        ensures
            final(self).wf(),
            final(self).state.players@.len() == old(self).state.players@.len() + 1,
            final(self).state.players@.subrange(0, old(self).state.players@.len() as int) == old(
                self,
            ).state.players@,
            fresh_player(final(self).state.players@.last(), player_id, old(self).config),
            final(self).is_live(player_id),
            final(self).survival_times@ == set_val(
                old(self).survival_times@,
                player_id,
                (old(self).now_ms + SURVIVAL_TIMEOUT_MS) as u64,
            ),
            final(self).state.bullets@ == old(self).state.bullets@,
            final(self).state.dead@ == old(self).state.dead@,
            final(self).state.scoreboard@ == old(self).state.scoreboard@,
            final(self).config == old(self).config,
            final(self).now_ms == old(self).now_ms,
            final(self).bullet_id_counter == old(self).bullet_id_counter,
    {
        let (x, y) = random_player_pos(&self.config);
        let p = PlayerState { id: player_id, x, y, dir_x: DIR_SCALE, dir_y: 0, throttle: 0 };
        let ghost old_players = self.state.players@;
        self.state.players.push(p);
        table_set(&mut self.survival_times, player_id, self.now_ms + SURVIVAL_TIMEOUT_MS);
        proof {
            assert(self.state.players@ == old_players.push(p));
            assert(self.state.players@.subrange(0, old_players.len() as int) =~= old_players);
            assert forall|id: u32|
                (#[trigger] live_count(self.state.players@, id)) + dead_count(
                    self.state.dead@,
                    id,
                ) <= 1 by {
                lemma_live_count_push(old_players, p, id);
                if id == player_id {
                    lemma_live_count_nonneg(old_players, id);
                    lemma_dead_count_nonneg(self.state.dead@, id);
                }
            }
            lemma_live_count_push(old_players, p, player_id);
            lemma_live_count_nonneg(old_players, player_id);
        }
    }

    /// Applies one command for `player_id`. Commands from unknown or
    /// currently dead players are dropped silently; a throttle outside
    /// `[0, THROTTLE_MAX]` is clamped; a fire past the per-player cap of
    /// `MAX_CONCURRENT_BULLETS` in-flight bullets is dropped.
    pub fn handle_cmd(&mut self, player_id: u32, cmd: GameCommand)
        requires
            old(self).wf(),
        ensures
            final(self).wf(),
            final(self).config == old(self).config,
            final(self).now_ms == old(self).now_ms,
            final(self).state.dead@ == old(self).state.dead@,
            final(self).state.scoreboard@ == old(self).state.scoreboard@,
            final(self).survival_times@ == old(self).survival_times@,
            !old(self).is_live(player_id) ==> *final(self) == *old(self),
            old(self).is_live(player_id) ==> {
                let i = crate::models::player_idx(old(self).state.players@, player_id);
                match cmd {
                    GameCommand::Rotate(dx, dy) => {
                        &&& final(self).state.players@ == old(self).state.players@.update(
                            i,
                            rotated_player(old(self).state.players@[i], dx as int, dy as int),
                        )
                        &&& final(self).state.bullets@ == old(self).state.bullets@
                        &&& final(self).bullet_id_counter == old(self).bullet_id_counter
                    },
                    GameCommand::Throttle(t) => {
                        &&& final(self).state.players@ == old(self).state.players@.update(
                            i,
                            throttled_player(old(self).state.players@[i], t as int),
                        )
                        &&& final(self).state.bullets@ == old(self).state.bullets@
                        &&& final(self).bullet_id_counter == old(self).bullet_id_counter
                    },
                    GameCommand::Fire => {
                        &&& final(self).state.players@ == old(self).state.players@
                        &&& (count_owned(old(self).state.bullets@, player_id)
                            < MAX_CONCURRENT_BULLETS as int ==> {
                            &&& final(self).state.bullets@ == old(self).state.bullets@.push(
                                spawned_bullet(
                                    old(self).state.players@[i],
                                    old(self).bullet_id_counter,
                                ),
                            )
                            &&& final(self).bullet_id_counter == wrap_inc(
                                old(self).bullet_id_counter,
                            )
                        })
                        &&& (count_owned(old(self).state.bullets@, player_id)
                            >= MAX_CONCURRENT_BULLETS as int ==> {
                            &&& final(self).state.bullets@ == old(self).state.bullets@
                            &&& final(self).bullet_id_counter == old(self).bullet_id_counter
                        })
                    },
                }
            },
    {
        let ghost ps0 = self.state.players@;
        let ghost bs0 = self.state.bullets@;
        let n = self.state.players.len();
        let mut i: usize = 0;
        while i < n
            invariant
                old(self).wf(),
                i <= n,
                n == self.state.players@.len(),
                *self == *old(self),
                ps0 == self.state.players@,
                bs0 == self.state.bullets@,
                forall|k: int| 0 <= k < i ==> self.state.players@[k].id != player_id,
            decreases n - i,
        {
            if self.state.players[i].id == player_id {
                proof {
                    crate::models::lemma_player_idx_is_first(ps0, player_id, i as int);
                    crate::models::lemma_player_idx_live(ps0, player_id);
                }
                match cmd {
                    GameCommand::Rotate(dx, dy) => {
                        let p = self.state.players[i];
                        let np = PlayerState {
                            id: p.id,
                            x: p.x,
                            y: p.y,
                            dir_x: crate::clamp_i64(dx, -DIR_SCALE, DIR_SCALE),
                            dir_y: crate::clamp_i64(dy, -DIR_SCALE, DIR_SCALE),
                            throttle: p.throttle,
                        };
                        self.state.players.set(i, np);
                        proof {
                            assert forall|id: u32|
                                (#[trigger] live_count(self.state.players@, id)) + dead_count(
                                    self.state.dead@,
                                    id,
                                ) <= 1 by {
                                crate::models::lemma_live_count_update(ps0, i as int, np, id);
                            }
                        }
                    },
                    GameCommand::Throttle(t) => {
                        let p = self.state.players[i];
                        let np = PlayerState {
                            id: p.id,
                            x: p.x,
                            y: p.y,
                            dir_x: p.dir_x,
                            dir_y: p.dir_y,
                            throttle: crate::clamp_i64(t, 0, THROTTLE_MAX),
                        };
                        self.state.players.set(i, np);
                        proof {
                            assert forall|id: u32|
                                (#[trigger] live_count(self.state.players@, id)) + dead_count(
                                    self.state.dead@,
                                    id,
                                ) <= 1 by {
                                crate::models::lemma_live_count_update(ps0, i as int, np, id);
                            }
                        }
                    },
                    GameCommand::Fire => {
                        let m = self.state.bullets.len();
                        let mut cnt: usize = 0;
                        let mut j: usize = 0;
                        while j < m
                            invariant
                                j <= m,
                                cnt <= j,
                                m == self.state.bullets@.len(),
                                self.state.bullets@ == bs0,
                                cnt as int == count_owned(bs0.take(j as int), player_id),
                            decreases m - j,
                        {
                            proof {
                                crate::models::lemma_count_owned_take_succ(
                                    bs0,
                                    player_id,
                                    j as int,
                                );
                            }
                            if self.state.bullets[j].player_id == player_id {
                                cnt = cnt + 1;
                            }
                            j = j + 1;
                        }
                        proof {
                            assert(bs0.take(bs0.len() as int) =~= bs0);
                        }
                        if cnt < MAX_CONCURRENT_BULLETS {
                            let p = self.state.players[i];
                            let bid = self.bullet_id_counter;
                            self.bullet_id_counter = if bid == u32::MAX {
                                0
                            } else {
                                bid + 1
                            };
                            let b = BulletState {
                                id: bid,
                                player_id: p.id,
                                x: p.x + FIRE_OFFSET_PER_DIR * p.dir_x,
                                y: p.y + FIRE_OFFSET_PER_DIR * p.dir_y,
                                dir_x: p.dir_x,
                                dir_y: p.dir_y,
                            };
                            self.state.bullets.push(b);
                            proof {
                                assert forall|id: u32|
                                    (#[trigger] count_owned(self.state.bullets@, id))
                                        <= MAX_CONCURRENT_BULLETS as int by {
                                    lemma_count_owned_push(bs0, b, id);
                                    crate::models::lemma_count_owned_nonneg(bs0, id);
                                }
                            }
                        }
                    },
                }
                return ;
            }
            i = i + 1;
        }
        proof {
            crate::models::lemma_live_count_absent(ps0, player_id);
        }
    }

    /// Moves every corpse whose respawn time has elapsed back into the
    /// live set, in corpse order, with the state it was buried with.
    pub fn revive_dead(&mut self)
        ensures
            final(self).state.players@ == old(self).state.players@ + crate::steps::revived_upto(
                old(self).state.dead@,
                old(self).now_ms as int,
                old(self).state.dead@.len() as int,
            ),
            final(self).state.dead@ == crate::steps::dead_stay_upto(
                old(self).state.dead@,
                old(self).now_ms as int,
                old(self).state.dead@.len() as int,
            ),
            final(self).state.bullets@ == old(self).state.bullets@,
            final(self).state.scoreboard@ == old(self).state.scoreboard@,
            final(self).survival_times@ == old(self).survival_times@,
            final(self).config == old(self).config,
            final(self).now_ms == old(self).now_ms,
            final(self).bullet_id_counter == old(self).bullet_id_counter,
    {
        let ghost ds0 = self.state.dead@;
        let ghost ps0 = self.state.players@;
        let nd = self.state.dead.len();
        let mut stay: Vec<DeadPlayer> = Vec::new();
        let mut i: usize = 0;
        while i < nd
            invariant
                i <= nd,
                nd == self.state.dead@.len(),
                self.state.dead@ == ds0,
                self.state.players@ == ps0 + crate::steps::revived_upto(
                    ds0,
                    self.now_ms as int,
                    i as int,
                ),
                self.state.bullets@ == old(self).state.bullets@,
                self.state.scoreboard@ == old(self).state.scoreboard@,
                self.survival_times@ == old(self).survival_times@,
                self.config == old(self).config,
                self.now_ms == old(self).now_ms,
                self.bullet_id_counter == old(self).bullet_id_counter,
                ds0 == old(self).state.dead@,
                ps0 == old(self).state.players@,
                stay@ == crate::steps::dead_stay_upto(ds0, self.now_ms as int, i as int),
            decreases nd - i,
        {
            let d = self.state.dead[i];
            if d.respawn <= self.now_ms {
                self.state.players.push(d.player);
                proof {
                    assert(ps0 + crate::steps::revived_upto(ds0, self.now_ms as int, i + 1) =~= (
                    ps0 + crate::steps::revived_upto(ds0, self.now_ms as int, i as int)).push(
                        ds0[i as int].player,
                    ));
                }
            } else {
                stay.push(d);
            }
            i = i + 1;
        }
        self.state.dead = stay;
    }

    /// Advances every bullet by one motion step.
    pub fn advance_bullets(&mut self, dt: u64)
        requires
            dt <= 1000,
            config_ok(old(self).config),
            forall|i: int|
                0 <= i < old(self).state.bullets@.len() ==> bullet_ok(
                    #[trigger] old(self).state.bullets@[i],
                    old(self).config,
                ),
        ensures
            final(self).state.bullets@.len() == old(self).state.bullets@.len(),
            forall|i: int|
                0 <= i < old(self).state.bullets@.len() ==> final(self).state.bullets@[i]
                    == crate::steps::moved_bullet(
                    #[trigger] old(self).state.bullets@[i],
                    dt as int,
                ),
            final(self).state.players@ == old(self).state.players@,
            final(self).state.dead@ == old(self).state.dead@,
            final(self).state.scoreboard@ == old(self).state.scoreboard@,
            final(self).survival_times@ == old(self).survival_times@,
            final(self).config == old(self).config,
            final(self).now_ms == old(self).now_ms,
            final(self).bullet_id_counter == old(self).bullet_id_counter,
    {
        let ghost bs0 = self.state.bullets@;
        let n = self.state.bullets.len();
        let mut i: usize = 0;
        while i < n
            invariant
                i <= n,
                dt <= 1000,
                n == self.state.bullets@.len(),
                n == bs0.len(),
                bs0 == old(self).state.bullets@,
                config_ok(self.config),
                forall|k: int|
                    0 <= k < bs0.len() ==> bullet_ok(#[trigger] bs0[k], self.config),
                forall|k: int|
                    0 <= k < i ==> self.state.bullets@[k] == crate::steps::moved_bullet(
                        bs0[k],
                        dt as int,
                    ),
                forall|k: int| i <= k < n ==> self.state.bullets@[k] == bs0[k],
                self.state.players@ == old(self).state.players@,
                self.state.dead@ == old(self).state.dead@,
                self.state.scoreboard@ == old(self).state.scoreboard@,
                self.survival_times@ == old(self).survival_times@,
                self.config == old(self).config,
                self.now_ms == old(self).now_ms,
                self.bullet_id_counter == old(self).bullet_id_counter,
            decreases n - i,
        {
            let b = self.state.bullets[i];
            proof {
                assert(self.state.bullets@[i as int] == bs0[i as int]);
                assert(bullet_ok(bs0[i as int], self.config));
            }
            let nx = bullet_axis_step(b.x, b.dir_x, dt);
            let ny = bullet_axis_step(b.y, b.dir_y, dt);
            self.state.bullets.set(
                i,
                BulletState {
                    id: b.id,
                    player_id: b.player_id,
                    x: nx,
                    y: ny,
                    dir_x: b.dir_x,
                    dir_y: b.dir_y,
                },
            );
            i = i + 1;
        }
    }

    /// Advances every live player by one motion step and clamps it so its
    /// whole circle stays inside the bounds.
    pub fn advance_players(&mut self, dt: u64)
        requires
            dt <= 1000,
            config_ok(old(self).config),
            forall|i: int|
                0 <= i < old(self).state.players@.len() ==> player_ok(
                    #[trigger] old(self).state.players@[i],
                    old(self).config,
                ),
        ensures
            final(self).state.players@.len() == old(self).state.players@.len(),
            forall|i: int|
                0 <= i < old(self).state.players@.len() ==> final(self).state.players@[i]
                    == crate::steps::moved_player(
                    #[trigger] old(self).state.players@[i],
                    dt as int,
                    old(self).config,
                ),
            forall|i: int|
                0 <= i < final(self).state.players@.len() ==> player_ok(
                    #[trigger] final(self).state.players@[i],
                    old(self).config,
                ),
            final(self).state.bullets@ == old(self).state.bullets@,
            final(self).state.dead@ == old(self).state.dead@,
            final(self).state.scoreboard@ == old(self).state.scoreboard@,
            final(self).survival_times@ == old(self).survival_times@,
            final(self).config == old(self).config,
            final(self).now_ms == old(self).now_ms,
            final(self).bullet_id_counter == old(self).bullet_id_counter,
    {
        let ghost ps0 = self.state.players@;
        let n = self.state.players.len();
        let mut i: usize = 0;
        while i < n
            invariant
                i <= n,
                dt <= 1000,
                n == self.state.players@.len(),
                n == ps0.len(),
                ps0 == old(self).state.players@,
                config_ok(self.config),
                forall|k: int| 0 <= k < ps0.len() ==> player_ok(#[trigger] ps0[k], self.config),
                forall|k: int|
                    0 <= k < i ==> self.state.players@[k] == crate::steps::moved_player(
                        ps0[k],
                        dt as int,
                        self.config,
                    ),
                forall|k: int|
                    0 <= k < i ==> player_ok(#[trigger] self.state.players@[k], self.config),
                forall|k: int| i <= k < n ==> self.state.players@[k] == ps0[k],
                self.state.bullets@ == old(self).state.bullets@,
                self.state.dead@ == old(self).state.dead@,
                self.state.scoreboard@ == old(self).state.scoreboard@,
                self.survival_times@ == old(self).survival_times@,
                self.config == old(self).config,
                self.now_ms == old(self).now_ms,
                self.bullet_id_counter == old(self).bullet_id_counter,
            decreases n - i,
        {
            let p = self.state.players[i];
            proof {
                assert(self.state.players@[i as int] == ps0[i as int]);
                assert(player_ok(ps0[i as int], self.config));
            }
            let mx = player_axis_step(p.x, p.dir_x, p.throttle, dt);
            let my = player_axis_step(p.y, p.dir_y, p.throttle, dt);
            let nx = crate::clamp_i64(mx, PLAYER_RADIUS, self.config.bound_x - PLAYER_RADIUS);
            let ny = crate::clamp_i64(my, PLAYER_RADIUS, self.config.bound_y - PLAYER_RADIUS);
            self.state.players.set(
                i,
                PlayerState {
                    id: p.id,
                    x: nx,
                    y: ny,
                    dir_x: p.dir_x,
                    dir_y: p.dir_y,
                    throttle: p.throttle,
                },
            );
            i = i + 1;
        }
    }

    /// Removes every bullet that has left the bounds by one radius or more.
    pub fn cull_bullets(&mut self)
        requires
            config_ok(old(self).config),
        ensures
            final(self).state.bullets@ == crate::steps::kept_bullets_upto(
                old(self).state.bullets@,
                old(self).config,
                old(self).state.bullets@.len() as int,
            ),
            forall|i: int|
                0 <= i < final(self).state.bullets@.len() ==> crate::steps::in_cull_range(
                    #[trigger] final(self).state.bullets@[i],
                    old(self).config,
                ),
            final(self).state.players@ == old(self).state.players@,
            final(self).state.dead@ == old(self).state.dead@,
            final(self).state.scoreboard@ == old(self).state.scoreboard@,
            final(self).survival_times@ == old(self).survival_times@,
            final(self).config == old(self).config,
            final(self).now_ms == old(self).now_ms,
            final(self).bullet_id_counter == old(self).bullet_id_counter,
    {
        let ghost bs0 = self.state.bullets@;
        let n = self.state.bullets.len();
        let mut kept: Vec<BulletState> = Vec::new();
        let mut i: usize = 0;
        while i < n
            invariant
                i <= n,
                n == self.state.bullets@.len(),
                self.state.bullets@ == bs0,
                bs0 == old(self).state.bullets@,
                config_ok(self.config),
                self.config == old(self).config,
                kept@ == crate::steps::kept_bullets_upto(bs0, self.config, i as int),
                forall|k: int|
                    0 <= k < kept@.len() ==> crate::steps::in_cull_range(
                        #[trigger] kept@[k],
                        self.config,
                    ),
            decreases n - i,
        {
            let b = self.state.bullets[i];
            if b.x > -BULLET_RADIUS && b.x < self.config.bound_x + BULLET_RADIUS && b.y
                > -BULLET_RADIUS && b.y < self.config.bound_y + BULLET_RADIUS {
                kept.push(b);
            }
            i = i + 1;
        }
        self.state.bullets = kept;
    }

    /// Tests every pair of distinct bullets and removes every bullet of an
    /// overlapping pair: mutual destruction, with no winner.
    pub fn resolve_bullet_bullet(&mut self)
        requires
            config_ok(old(self).config),
            forall|i: int|
                0 <= i < old(self).state.bullets@.len() ==> crate::steps::in_cull_range(
                    #[trigger] old(self).state.bullets@[i],
                    old(self).config,
                ),
        ensures
            final(self).state.bullets@ == crate::steps::bb_survivors_upto(
                old(self).state.bullets@,
                old(self).state.bullets@.len() as int,
            ),
            final(self).state.players@ == old(self).state.players@,
            final(self).state.dead@ == old(self).state.dead@,
            final(self).state.scoreboard@ == old(self).state.scoreboard@,
            final(self).survival_times@ == old(self).survival_times@,
            final(self).config == old(self).config,
            final(self).now_ms == old(self).now_ms,
            final(self).bullet_id_counter == old(self).bullet_id_counter,
    {
        let ghost bs0 = self.state.bullets@;
        let n = self.state.bullets.len();
        let mut kept: Vec<BulletState> = Vec::new();
        let mut i: usize = 0;
        while i < n
            invariant
                i <= n,
                n == self.state.bullets@.len(),
                self.state.bullets@ == bs0,
                bs0 == old(self).state.bullets@,
                config_ok(self.config),
                self.config == old(self).config,
                forall|k: int|
                    0 <= k < bs0.len() ==> crate::steps::in_cull_range(
                        #[trigger] bs0[k],
                        self.config,
                    ),
                kept@ == crate::steps::bb_survivors_upto(bs0, i as int),
            decreases n - i,
        {
            let mut clear = true;
            let mut j: usize = 0;
            while j < n
                invariant
                    j <= n,
                    i < n,
                    n == self.state.bullets@.len(),
                    self.state.bullets@ == bs0,
                    config_ok(self.config),
                    forall|k: int|
                        0 <= k < bs0.len() ==> crate::steps::in_cull_range(
                            #[trigger] bs0[k],
                            self.config,
                        ),
                    clear ==> forall|k: int|
                        0 <= k < j && k != i ==> !crate::geom::bullets_overlap(
                            bs0[i as int],
                            #[trigger] bs0[k],
                        ),
                    !clear ==> exists|k: int|
                        0 <= k < j && k != i && crate::geom::bullets_overlap(
                            bs0[i as int],
                            #[trigger] bs0[k],
                        ),
                decreases n - j,
            {
                if j != i {
                    let hit = crate::geom::is_colliding(
                        &self.state.bullets[i],
                        &self.state.bullets[j],
                    );
                    if hit {
                        clear = false;
                    }
                }
                j = j + 1;
            }
            proof {
                if clear {
                    assert(crate::steps::bullet_clear(bs0, i as int));
                } else {
                    assert(!crate::steps::bullet_clear(bs0, i as int));
                }
            }
            if clear {
                kept.push(self.state.bullets[i]);
            }
            i = i + 1;
        }
        self.state.bullets = kept;
    }

    /// Tests every pair of distinct live players; every player of an
    /// overlapping pair dies: it leaves the live set and is buried at a
    /// fresh random position, respawning `DEAD_PUNISH_MS` later, with its
    /// survival clock reset past the grace period. No score changes.
    #[verifier::loop_isolation(false)]
    pub fn resolve_player_player(&mut self)
        requires
            config_ok(old(self).config),
            old(self).now_ms <= MAX_TIME_MS,
            forall|i: int|
                0 <= i < old(self).state.players@.len() ==> player_ok(
                    #[trigger] old(self).state.players@[i],
                    old(self).config,
                ),
        ensures
            final(self).state.players@ == crate::steps::pp_survivors_upto(
                old(self).state.players@,
                old(self).state.players@.len() as int,
            ),
            final(self).state.dead@.len() == old(self).state.dead@.len()
                + crate::steps::pp_victims_upto(
                old(self).state.players@,
                old(self).state.players@.len() as int,
            ).len(),
            final(self).state.dead@.subrange(0, old(self).state.dead@.len() as int) == old(
                self,
            ).state.dead@,
            forall|q: int|
                0 <= q < crate::steps::pp_victims_upto(
                    old(self).state.players@,
                    old(self).state.players@.len() as int,
                ).len() ==> crate::steps::corpse_matches(
                    #[trigger] final(self).state.dead@[old(self).state.dead@.len() + q],
                    crate::steps::pp_victims_upto(
                        old(self).state.players@,
                        old(self).state.players@.len() as int,
                    )[q],
                    old(self).now_ms as int,
                    old(self).config,
                ),
            final(self).survival_times@ == crate::steps::reset_clocks(
                crate::steps::pp_victims_upto(
                    old(self).state.players@,
                    old(self).state.players@.len() as int,
                ),
                old(self).survival_times@,
                (old(self).now_ms + SURVIVAL_TIMEOUT_MS) as u64,
            ),
            final(self).state.bullets@ == old(self).state.bullets@,
            final(self).state.scoreboard@ == old(self).state.scoreboard@,
            final(self).config == old(self).config,
            final(self).now_ms == old(self).now_ms,
            final(self).bullet_id_counter == old(self).bullet_id_counter,
    {
        let ghost ps0 = self.state.players@;
        let ghost ds0 = self.state.dead@;
        let n = self.state.players.len();
        let mut surv: Vec<PlayerState> = Vec::new();
        let mut vict: Vec<PlayerState> = Vec::new();
        let mut i: usize = 0;
        while i < n
            invariant
                i <= n,
                surv@ == crate::steps::pp_survivors_upto(ps0, i as int),
                vict@ == crate::steps::pp_victims_upto(ps0, i as int),
            decreases n - i,
        {
            let mut clear = true;
            let mut j: usize = 0;
            while j < n
                invariant
                    j <= n,
                    i < n,
                    clear ==> forall|k: int|
                        0 <= k < j && k != i ==> !crate::geom::players_overlap(
                            ps0[i as int],
                            #[trigger] ps0[k],
                        ),
                    !clear ==> exists|k: int|
                        0 <= k < j && k != i && crate::geom::players_overlap(
                            ps0[i as int],
                            #[trigger] ps0[k],
                        ),
                decreases n - j,
            {
                if j != i {
                    let hit = crate::geom::is_colliding(
                        &self.state.players[i],
                        &self.state.players[j],
                    );
                    if hit {
                        clear = false;
                    }
                }
                j = j + 1;
            }
            proof {
                if clear {
                    assert(crate::steps::player_clear(ps0, i as int));
                } else {
                    assert(!crate::steps::player_clear(ps0, i as int));
                }
            }
            if clear {
                surv.push(self.state.players[i]);
            } else {
                vict.push(self.state.players[i]);
            }
            i = i + 1;
        }
        self.state.players = surv;

        let t = self.now_ms + SURVIVAL_TIMEOUT_MS;
        let r = self.now_ms + crate::models::DEAD_PUNISH_MS;
        let ghost vs = vict@;
        let ghost ss0 = self.survival_times@;
        proof {
            assert(vs.skip(0) =~= vs);
        }
        let m = vict.len();
        let mut k: usize = 0;
        while k < m
            invariant
                k <= m,
                self.config == old(self).config,
                self.now_ms == old(self).now_ms,
                self.bullet_id_counter == old(self).bullet_id_counter,
                self.state.players@ == crate::steps::pp_survivors_upto(ps0, ps0.len() as int),
                self.state.bullets@ == old(self).state.bullets@,
                self.state.scoreboard@ == old(self).state.scoreboard@,
                self.state.dead@.len() == ds0.len() + k,
                self.state.dead@.subrange(0, ds0.len() as int) == ds0,
                forall|q: int|
                    0 <= q < k ==> crate::steps::corpse_matches(
                        #[trigger] self.state.dead@[ds0.len() + q],
                        vs[q],
                        self.now_ms as int,
                        self.config,
                    ),
                crate::steps::reset_clocks(vs.skip(k as int), self.survival_times@, t)
                    == crate::steps::reset_clocks(vs, ss0, t),
            decreases m - k,
        {
            let v = vict[k];
            proof {
                crate::steps::lemma_reset_clocks_step(vs, self.survival_times@, t, k as int);
            }
            let (x, y) = random_player_pos(&self.config);
            let ghost dpre = self.state.dead@;
            self.state.dead.push(
                DeadPlayer {
                    respawn: r,
                    player: PlayerState {
                        id: v.id,
                        x,
                        y,
                        dir_x: v.dir_x,
                        dir_y: v.dir_y,
                        throttle: v.throttle,
                    },
                },
            );
            table_set(&mut self.survival_times, v.id, t);
            proof {
                assert(self.state.dead@.subrange(0, ds0.len() as int) =~= ds0);
            }
            k = k + 1;
        }
        proof {
            assert(vs.skip(m as int) =~= Seq::<PlayerState>::empty());
        }
    }

    /// Processes each bullet in order against the then-live players: every
    /// player overlapping a bullet of another owner dies and is buried at a
    /// fresh random position; the shooter is credited one point per kill;
    /// a bullet that killed is removed.
    #[verifier::loop_isolation(false)]
    pub fn resolve_bullet_player(&mut self)
        requires
            config_ok(old(self).config),
            old(self).now_ms <= MAX_TIME_MS,
            forall|i: int|
                0 <= i < old(self).state.bullets@.len() ==> crate::steps::in_cull_range(
                    #[trigger] old(self).state.bullets@[i],
                    old(self).config,
                ),
            forall|i: int|
                0 <= i < old(self).state.players@.len() ==> player_ok(
                    #[trigger] old(self).state.players@[i],
                    old(self).config,
                ),
        ensures
            final(self).state.players@ == crate::steps::bp_players(
                old(self).state.bullets@,
                old(self).state.players@,
                old(self).state.bullets@.len() as int,
            ),
            final(self).state.bullets@ == crate::steps::bp_kept_upto(
                old(self).state.bullets@,
                old(self).state.players@,
                old(self).state.bullets@.len() as int,
            ),
            final(self).state.dead@.len() == old(self).state.dead@.len()
                + crate::steps::bp_victims(
                old(self).state.bullets@,
                old(self).state.players@,
                old(self).state.bullets@.len() as int,
            ).len(),
            final(self).state.dead@.subrange(0, old(self).state.dead@.len() as int) == old(
                self,
            ).state.dead@,
            forall|q: int|
                0 <= q < crate::steps::bp_victims(
                    old(self).state.bullets@,
                    old(self).state.players@,
                    old(self).state.bullets@.len() as int,
                ).len() ==> crate::steps::corpse_matches(
                    #[trigger] final(self).state.dead@[old(self).state.dead@.len() + q],
                    crate::steps::bp_victims(
                        old(self).state.bullets@,
                        old(self).state.players@,
                        old(self).state.bullets@.len() as int,
                    )[q],
                    old(self).now_ms as int,
                    old(self).config,
                ),
            final(self).state.scoreboard@ == crate::tables::apply_hits(
                old(self).state.scoreboard@,
                crate::steps::bp_hits(
                    old(self).state.bullets@,
                    old(self).state.players@,
                    old(self).state.bullets@.len() as int,
                ),
            ),
            final(self).survival_times@ == crate::steps::reset_clocks(
                crate::steps::bp_victims(
                    old(self).state.bullets@,
                    old(self).state.players@,
                    old(self).state.bullets@.len() as int,
                ),
                old(self).survival_times@,
                (old(self).now_ms + SURVIVAL_TIMEOUT_MS) as u64,
            ),
            final(self).config == old(self).config,
            final(self).now_ms == old(self).now_ms,
            final(self).bullet_id_counter == old(self).bullet_id_counter,
    {
        let ghost bs0 = self.state.bullets@;
        let ghost ps0 = self.state.players@;
        let ghost ds0 = self.state.dead@;
        let ghost sb0 = self.state.scoreboard@;
        let ghost ss0 = self.survival_times@;
        let t = self.now_ms + SURVIVAL_TIMEOUT_MS;
        let r = self.now_ms + crate::models::DEAD_PUNISH_MS;
        let m = self.state.bullets.len();
        let mut used: Vec<bool> = Vec::new();
        let mut hits: Vec<u32> = Vec::new();
        let mut k: usize = 0;
        while k < m
            invariant
                k <= m,
                self.config == old(self).config,
                self.now_ms == old(self).now_ms,
                self.bullet_id_counter == old(self).bullet_id_counter,
                self.state.bullets@ == bs0,
                self.state.scoreboard@ == sb0,
                self.state.players@ == crate::steps::bp_players(bs0, ps0, k as int),
                forall|i: int|
                    0 <= i < self.state.players@.len() ==> player_ok(
                        #[trigger] self.state.players@[i],
                        self.config,
                    ),
                used@.len() == k as int,
                forall|i: int|
                    0 <= i < k ==> used@[i] == crate::steps::bullet_used(bs0, ps0, i),
                hits@ == crate::steps::bp_hits(bs0, ps0, k as int),
                self.state.dead@.len() == ds0.len() + crate::steps::bp_victims(
                    bs0,
                    ps0,
                    k as int,
                ).len(),
                self.state.dead@.subrange(0, ds0.len() as int) == ds0,
                forall|q: int|
                    0 <= q < crate::steps::bp_victims(bs0, ps0, k as int).len()
                        ==> crate::steps::corpse_matches(
                        #[trigger] self.state.dead@[ds0.len() + q],
                        crate::steps::bp_victims(bs0, ps0, k as int)[q],
                        self.now_ms as int,
                        self.config,
                    ),
                self.survival_times@ == crate::steps::reset_clocks(
                    crate::steps::bp_victims(bs0, ps0, k as int),
                    ss0,
                    t,
                ),
            decreases m - k,
        {
            let b = self.state.bullets[k];
            let ghost cur = self.state.players@;
            let np = self.state.players.len();
            let mut surv: Vec<PlayerState> = Vec::new();
            let mut victs: Vec<PlayerState> = Vec::new();
            let mut j: usize = 0;
            while j < np
                invariant
                    j <= np,
                    surv@ == crate::steps::hit_survivors_upto(b, cur, j as int),
                    victs@ == crate::steps::hit_victims_upto(b, cur, j as int),
                decreases np - j,
            {
                let p = self.state.players[j];
                let overlap = crate::geom::is_colliding(&b, &p);
                if overlap && b.player_id != p.id {
                    victs.push(p);
                } else {
                    surv.push(p);
                }
                j = j + 1;
            }
            self.state.players = surv;
            used.push(victs.len() > 0);

            let ghost vstep = crate::steps::hit_victims_upto(b, cur, cur.len() as int);
            let ghost dead_mid = self.state.dead@;
            let ghost ss_mid = self.survival_times@;
            let ghost hits_mid = hits@;
            proof {
                assert(vstep.skip(0) =~= vstep);
                assert(hits@ =~= hits_mid + Seq::new(0nat, |x: int| b.player_id));
            }
            let w = victs.len();
            let mut q: usize = 0;
            while q < w
                invariant
                    q <= w,
                    victs@ == vstep,
                    self.config == old(self).config,
                    self.now_ms == old(self).now_ms,
                    self.bullet_id_counter == old(self).bullet_id_counter,
                    self.state.dead@.len() == dead_mid.len() + q,
                    self.state.dead@.subrange(0, dead_mid.len() as int) == dead_mid,
                    forall|u: int|
                        0 <= u < q ==> crate::steps::corpse_matches(
                            #[trigger] self.state.dead@[dead_mid.len() + u],
                            vstep[u],
                            self.now_ms as int,
                            self.config,
                        ),
                    crate::steps::reset_clocks(vstep.skip(q as int), self.survival_times@, t)
                        == crate::steps::reset_clocks(vstep, ss_mid, t),
                    hits@ == hits_mid + Seq::new(q as nat, |x: int| b.player_id),
                    self.state.players@ == crate::steps::hit_survivors_upto(
                        b,
                        cur,
                        cur.len() as int,
                    ),
                    self.state.bullets@ == bs0,
                    self.state.scoreboard@ == sb0,
                decreases w - q,
            {
                let v = victs[q];
                proof {
                    crate::steps::lemma_reset_clocks_step(
                        vstep,
                        self.survival_times@,
                        t,
                        q as int,
                    );
                }
                let (x, y) = random_player_pos(&self.config);
                self.state.dead.push(
                    DeadPlayer {
                        respawn: r,
                        player: PlayerState {
                            id: v.id,
                            x,
                            y,
                            dir_x: v.dir_x,
                            dir_y: v.dir_y,
                            throttle: v.throttle,
                        },
                    },
                );
                table_set(&mut self.survival_times, v.id, t);
                hits.push(b.player_id);
                proof {
                    assert(self.state.dead@.subrange(0, dead_mid.len() as int) =~= dead_mid);
                    assert(hits@ =~= hits_mid + Seq::new((q + 1) as nat, |x: int| b.player_id));
                }
                q = q + 1;
            }
            proof {
                assert(vstep.skip(w as int) =~= Seq::<PlayerState>::empty());
                let ghost kk = k as int;
                assert(crate::steps::bp_players(bs0, ps0, kk + 1)
                    == crate::steps::hit_survivors_upto(b, cur, cur.len() as int));
                assert(crate::steps::bp_victims(bs0, ps0, kk + 1)
                    == crate::steps::bp_victims(bs0, ps0, kk) + vstep);
                assert(crate::steps::bp_hits(bs0, ps0, kk + 1) == crate::steps::bp_hits(
                    bs0,
                    ps0,
                    kk,
                ) + Seq::new(vstep.len(), |x: int| b.player_id));
                crate::steps::lemma_reset_clocks_concat(
                    crate::steps::bp_victims(bs0, ps0, kk),
                    vstep,
                    ss0,
                    t,
                );
                crate::steps::lemma_hit_split_ok(b, cur, self.config, cur.len() as int);
                assert(self.state.dead@.subrange(0, ds0.len() as int) =~= ds0);
                assert forall|qq: int|
                    0 <= qq < crate::steps::bp_victims(bs0, ps0, kk + 1).len()
                        implies crate::steps::corpse_matches(
                    #[trigger] self.state.dead@[ds0.len() + qq],
                    crate::steps::bp_victims(bs0, ps0, kk + 1)[qq],
                    self.now_ms as int,
                    self.config,
                ) by {
                    let prevlen = crate::steps::bp_victims(bs0, ps0, kk).len() as int;
                    if qq < prevlen {
                        assert(ds0.len() + qq < dead_mid.len());
                        assert(self.state.dead@.subrange(0, dead_mid.len() as int)[ds0.len()
                            + qq] == self.state.dead@[ds0.len() + qq]);
                        assert(self.state.dead@[ds0.len() + qq] == dead_mid[ds0.len() + qq]);
                        assert(crate::steps::corpse_matches(
                            dead_mid[ds0.len() + qq],
                            crate::steps::bp_victims(bs0, ps0, kk)[qq],
                            self.now_ms as int,
                            self.config,
                        ));
                        assert(crate::steps::bp_victims(bs0, ps0, kk + 1)[qq]
                            == crate::steps::bp_victims(bs0, ps0, kk)[qq]);
                    } else {
                        assert(crate::steps::bp_victims(bs0, ps0, kk + 1)[qq] == vstep[
                            qq - prevlen]);
                        assert(dead_mid.len() == ds0.len() + prevlen);
                        assert(crate::steps::corpse_matches(
                            self.state.dead@[dead_mid.len() + (qq - prevlen)],
                            vstep[qq - prevlen],
                            self.now_ms as int,
                            self.config,
                        ));
                    }
                }
            }
            k = k + 1;
        }
        let mut keptb: Vec<BulletState> = Vec::new();
        let mut ii: usize = 0;
        while ii < m
            invariant
                ii <= m,
                self.state.bullets@ == bs0,
                used@.len() == m as int,
                forall|i: int|
                    0 <= i < m ==> used@[i] == crate::steps::bullet_used(bs0, ps0, i),
                keptb@ == crate::steps::bp_kept_upto(bs0, ps0, ii as int),
            decreases m - ii,
        {
            if !used[ii] {
                keptb.push(self.state.bullets[ii]);
            }
            ii = ii + 1;
        }
        self.state.bullets = keptb;

        let h = hits.len();
        let ghost allhits = hits@;
        proof {
            assert(allhits.skip(0) =~= allhits);
        }
        let mut hh: usize = 0;
        while hh < h
            invariant
                hh <= h,
                hits@ == allhits,
                self.config == old(self).config,
                self.now_ms == old(self).now_ms,
                self.bullet_id_counter == old(self).bullet_id_counter,
                self.state.players@ == crate::steps::bp_players(bs0, ps0, m as int),
                self.state.bullets@ == crate::steps::bp_kept_upto(bs0, ps0, m as int),
                self.survival_times@ == crate::steps::reset_clocks(
                    crate::steps::bp_victims(bs0, ps0, m as int),
                    ss0,
                    t,
                ),
                self.state.dead@.len() == ds0.len() + crate::steps::bp_victims(
                    bs0,
                    ps0,
                    m as int,
                ).len(),
                self.state.dead@.subrange(0, ds0.len() as int) == ds0,
                forall|qx: int|
                    0 <= qx < crate::steps::bp_victims(bs0, ps0, m as int).len()
                        ==> crate::steps::corpse_matches(
                        #[trigger] self.state.dead@[ds0.len() + qx],
                        crate::steps::bp_victims(bs0, ps0, m as int)[qx],
                        self.now_ms as int,
                        self.config,
                    ),
                crate::tables::apply_hits(self.state.scoreboard@, allhits.skip(hh as int))
                    == crate::tables::apply_hits(sb0, allhits),
            decreases h - hh,
        {
            proof {
                crate::tables::lemma_apply_hits_step(
                    self.state.scoreboard@,
                    allhits,
                    hh as int,
                );
            }
            let target = hits[hh];
            table_bump(&mut self.state.scoreboard, target);
            hh = hh + 1;
        }
        proof {
            assert(allhits.skip(h as int) =~= Seq::<u32>::empty());
        }
    }

    /// Awards one point to every player whose survival clock has elapsed
    /// and pushes that clock one bonus interval past the present moment.
    #[verifier::loop_isolation(false)]
    pub fn award_survival(&mut self)
        requires
            old(self).now_ms <= MAX_TIME_MS,
        ensures
            final(self).survival_times@.len() == old(self).survival_times@.len(),
            forall|i: int|
                0 <= i < old(self).survival_times@.len() ==> final(self).survival_times@[i] == (
                if old(self).survival_times@[i].val <= old(self).now_ms {
                    IdValue {
                        id: (#[trigger] old(self).survival_times@[i]).id,
                        val: (old(self).now_ms + crate::models::SURVIVAL_POINT_INTERVAL_MS)
                            as u64,
                    }
                } else {
                    old(self).survival_times@[i]
                }),
            final(self).state.scoreboard@ == crate::tables::award_scores(
                old(self).survival_times@,
                old(self).state.scoreboard@,
                old(self).now_ms as int,
            ),
            final(self).state.players@ == old(self).state.players@,
            final(self).state.bullets@ == old(self).state.bullets@,
            final(self).state.dead@ == old(self).state.dead@,
            final(self).config == old(self).config,
            final(self).now_ms == old(self).now_ms,
            final(self).bullet_id_counter == old(self).bullet_id_counter,
    {
        let ghost ss0 = self.survival_times@;
        let ghost sb0 = self.state.scoreboard@;
        proof {
            assert(ss0.skip(0) =~= ss0);
        }
        let n = self.survival_times.len();
        let mut i: usize = 0;
        while i < n
            invariant
                i <= n,
                self.config == old(self).config,
                self.now_ms == old(self).now_ms,
                self.bullet_id_counter == old(self).bullet_id_counter,
                self.state.players@ == old(self).state.players@,
                self.state.bullets@ == old(self).state.bullets@,
                self.state.dead@ == old(self).state.dead@,
                self.survival_times@.len() == n as int,
                forall|k: int|
                    0 <= k < i ==> self.survival_times@[k] == (if ss0[k].val <= self.now_ms {
                        IdValue {
                            id: (#[trigger] ss0[k]).id,
                            val: (self.now_ms + crate::models::SURVIVAL_POINT_INTERVAL_MS)
                                as u64,
                        }
                    } else {
                        ss0[k]
                    }),
                forall|k: int| i <= k < n ==> self.survival_times@[k] == ss0[k],
                crate::tables::award_scores(
                    ss0.skip(i as int),
                    self.state.scoreboard@,
                    self.now_ms as int,
                ) == crate::tables::award_scores(ss0, sb0, self.now_ms as int),
            decreases n - i,
        {
            proof {
                crate::tables::lemma_award_step(
                    ss0,
                    self.state.scoreboard@,
                    self.now_ms as int,
                    i as int,
                );
            }
            let e = self.survival_times[i];
            if e.val <= self.now_ms {
                table_bump(&mut self.state.scoreboard, e.id);
                self.survival_times.set(
                    i,
                    IdValue { id: e.id, val: self.now_ms + crate::models::SURVIVAL_POINT_INTERVAL_MS },
                );
            }
            i = i + 1;
        }
        proof {
            assert(ss0.skip(n as int) =~= Seq::<IdValue>::empty());
        }
    }

    /// Discards all engine state except the identities of the connected
    /// players (live or dead), re-adding each as a fresh live player:
    /// scores, positions, projectiles and corpses are wiped; the bounds
    /// and the simulation clock are kept.
    #[verifier::loop_isolation(false)]
    pub fn reset(&mut self)
        requires
            old(self).wf(),
            old(self).now_ms <= MAX_TIME_MS,
        ensures
            final(self).wf(),
            final(self).state.players@.len() == old(self).state.players@.len() + old(
                self,
            ).state.dead@.len(),
            forall|i: int|
                0 <= i < old(self).state.players@.len() ==> fresh_player(
                    #[trigger] final(self).state.players@[i],
                    old(self).state.players@[i].id,
                    old(self).config,
                ),
            forall|i: int|
                0 <= i < old(self).state.dead@.len() ==> fresh_player(
                    #[trigger] final(self).state.players@[old(self).state.players@.len() + i],
                    old(self).state.dead@[i].player.id,
                    old(self).config,
                ),
            final(self).state.bullets@.len() == 0,
            final(self).state.dead@.len() == 0,
            final(self).state.scoreboard@.len() == 0,
            final(self).survival_times@.len() == final(self).state.players@.len(),
            forall|i: int|
                0 <= i < final(self).survival_times@.len() ==> final(self).survival_times@[i]
                    == (IdValue {
                    id: final(self).state.players@[i].id,
                    val: (old(self).now_ms + SURVIVAL_TIMEOUT_MS) as u64,
                }),
            final(self).bullet_id_counter == 0,
            final(self).config == old(self).config,
            final(self).now_ms == old(self).now_ms,
    {
        let ghost ps0 = self.state.players@;
        let ghost ds0 = self.state.dead@;
        let t = self.now_ms + SURVIVAL_TIMEOUT_MS;
        let p = self.state.players.len();
        let d = self.state.dead.len();
        let mut nps: Vec<PlayerState> = Vec::new();
        let mut nsv: Vec<IdValue> = Vec::new();
        let mut i: usize = 0;
        while i < p
            invariant
                i <= p,
                nps@.len() == i as int,
                nsv@.len() == i as int,
                forall|k: int|
                    0 <= k < i ==> fresh_player(#[trigger] nps@[k], ps0[k].id, self.config),
                forall|k: int| 0 <= k < i ==> nps@[k].id == ps0[k].id,
                forall|k: int|
                    0 <= k < i ==> nsv@[k] == (IdValue { id: ps0[k].id, val: t }),
            decreases p - i,
        {
            let id = self.state.players[i].id;
            let (x, y) = random_player_pos(&self.config);
            nps.push(PlayerState { id, x, y, dir_x: DIR_SCALE, dir_y: 0, throttle: 0 });
            nsv.push(IdValue { id, val: t });
            i = i + 1;
        }
        let mut j: usize = 0;
        while j < d
            invariant
                j <= d,
                nps@.len() == p + j as int,
                nsv@.len() == p + j as int,
                forall|k: int|
                    0 <= k < p ==> fresh_player(#[trigger] nps@[k], ps0[k].id, self.config),
                forall|k: int| 0 <= k < p ==> nps@[k].id == ps0[k].id,
                forall|k: int|
                    0 <= k < j ==> fresh_player(
                        #[trigger] nps@[p + k],
                        ds0[k].player.id,
                        self.config,
                    ),
                forall|k: int| 0 <= k < j ==> nps@[p + k].id == ds0[k].player.id,
                forall|k: int|
                    0 <= k < p + j ==> nsv@[k] == (IdValue { id: nps@[k].id, val: t }),
            decreases d - j,
        {
            let id = self.state.dead[j].player.id;
            let (x, y) = random_player_pos(&self.config);
            nps.push(PlayerState { id, x, y, dir_x: DIR_SCALE, dir_y: 0, throttle: 0 });
            nsv.push(IdValue { id, val: t });
            j = j + 1;
        }
        self.state.players = nps;
        self.state.bullets = Vec::new();
        self.state.dead = Vec::new();
        self.state.scoreboard = Vec::new();
        self.survival_times = nsv;
        self.bullet_id_counter = 0;
        proof {
            let a = self.state.players@.subrange(0, p as int);
            let b = self.state.players@.subrange(p as int, (p + d) as int);
            assert(self.state.players@ =~= a + b);
            assert forall|id: u32|
                (#[trigger] live_count(self.state.players@, id)) + dead_count(
                    self.state.dead@,
                    id,
                ) <= 1 by {
                crate::steps::lemma_live_count_concat(a, b, id);
                crate::models::lemma_matching_live_counts(a, ps0, id);
                crate::steps::lemma_matching_dead_counts(ds0, b, id);
                assert(dead_count(self.state.dead@, id) == 0);
            }
            assert forall|id: u32|
                (#[trigger] count_owned(self.state.bullets@, id)) <= MAX_CONCURRENT_BULLETS
                    as int by {
                assert(count_owned(self.state.bullets@, id) == 0);
            }
            assert forall|i: int|
                0 <= i < self.state.players@.len() implies player_ok(
                #[trigger] self.state.players@[i],
                self.config,
            ) by {
                if i < p {
                    assert(fresh_player(self.state.players@[i], ps0[i].id, self.config));
                } else {
                    assert(fresh_player(self.state.players@[i], ds0[i - p].player.id,
                        self.config));
                }
            }
        }
    }

    /// Advances the world by one tick of `dt` milliseconds, in the fixed
    /// step order: respawn, bullet motion, player motion, bullet culling,
    /// bullet-bullet collisions, player-player collisions, bullet-player
    /// collisions, survival bonuses.
    pub fn tick(&mut self, dt: u64)
        requires
            old(self).wf(),
            0 < dt <= 1000,
            old(self).now_ms + dt <= MAX_TIME_MS,
        ensures
            final(self).wf(),
            final(self).now_ms == old(self).now_ms + dt,
            final(self).config == old(self).config,
            forall|i: int|
                0 <= i < final(self).state.bullets@.len() ==> crate::steps::in_cull_range(
                    #[trigger] final(self).state.bullets@[i],
                    old(self).config,
                ),
            forall|i: int|
                0 <= i < final(self).state.players@.len() ==> player_in_bounds(
                    #[trigger] final(self).state.players@[i],
                    old(self).config,
                ),
            forall|id: u32|
                val_of(final(self).state.scoreboard@, id) >= val_of(
                    old(self).state.scoreboard@,
                    id,
                ),
            forall|id: u32|
                (#[trigger] live_count(final(self).state.players@, id)) + dead_count(
                    final(self).state.dead@,
                    id,
                ) == live_count(old(self).state.players@, id) + dead_count(
                    old(self).state.dead@,
                    id,
                ),
            // The whole tick, composed: respawn, motion, culling and the
            // three collision resolutions, in that order. Only the random
            // positions of fresh corpses are left open (they are pinned
            // in-bounds by `wf`).
            ({
                let now = old(self).now_ms as int + dt;
                let ps1 = old(self).state.players@ + crate::steps::revived_upto(
                    old(self).state.dead@,
                    now,
                    old(self).state.dead@.len() as int,
                );
                let bs2 = crate::steps::moved_bullets(old(self).state.bullets@, dt as int);
                let ps3 = crate::steps::moved_players(ps1, dt as int, old(self).config);
                let bs4 = crate::steps::kept_bullets_upto(bs2, old(self).config,
                    bs2.len() as int);
                let bs5 = crate::steps::bb_survivors_upto(bs4, bs4.len() as int);
                let ps6 = crate::steps::pp_survivors_upto(ps3, ps3.len() as int);
                let clocks1 = crate::steps::reset_clocks(
                    crate::steps::pp_victims_upto(ps3, ps3.len() as int),
                    old(self).survival_times@,
                    (now + SURVIVAL_TIMEOUT_MS) as u64,
                );
                let clocks2 = crate::steps::reset_clocks(
                    crate::steps::bp_victims(bs5, ps6, bs5.len() as int),
                    clocks1,
                    (now + SURVIVAL_TIMEOUT_MS) as u64,
                );
                &&& final(self).state.players@ == crate::steps::bp_players(bs5, ps6,
                    bs5.len() as int)
                &&& final(self).state.bullets@ == crate::steps::bp_kept_upto(bs5, ps6,
                    bs5.len() as int)
                &&& final(self).state.scoreboard@ == crate::tables::award_scores(
                    clocks2,
                    crate::tables::apply_hits(
                        old(self).state.scoreboard@,
                        crate::steps::bp_hits(bs5, ps6, bs5.len() as int),
                    ),
                    now,
                )
                &&& final(self).survival_times@.len() == clocks2.len()
                &&& forall|i: int|
                    0 <= i < clocks2.len() ==> final(self).survival_times@[i] == (if (
                    #[trigger] clocks2[i]).val as int <= now {
                        IdValue {
                            id: clocks2[i].id,
                            val: (now + crate::models::SURVIVAL_POINT_INTERVAL_MS) as u64,
                        }
                    } else {
                        clocks2[i]
                    })
                &&& final(self).state.dead@.len() == crate::steps::dead_stay_upto(
                    old(self).state.dead@,
                    now,
                    old(self).state.dead@.len() as int,
                ).len() + crate::steps::pp_victims_upto(ps3, ps3.len() as int).len()
                    + crate::steps::bp_victims(bs5, ps6, bs5.len() as int).len()
            }),
    {
        self.now_ms = self.now_ms + dt;
        let ghost now = self.now_ms as int;
        let ghost g0 = *old(self);
        self.revive_dead();
        let ghost g1 = *self;
        proof {
            crate::steps::lemma_revive_ok(g0.state.dead@, now, g0.state.dead@.len() as int,
                g0.config);
            assert forall|i: int|
                0 <= i < g1.state.players@.len() implies player_ok(
                #[trigger] g1.state.players@[i],
                g0.config,
            ) by {
                if i < g0.state.players@.len() {
                    assert(g1.state.players@[i] == g0.state.players@[i]);
                } else {
                    assert(g1.state.players@[i] == crate::steps::revived_upto(
                        g0.state.dead@,
                        now,
                        g0.state.dead@.len() as int,
                    )[i - g0.state.players@.len()]);
                }
            }
            assert forall|id: u32|
                (#[trigger] live_count(g1.state.players@, id)) + dead_count(g1.state.dead@, id)
                    == live_count(g0.state.players@, id) + dead_count(g0.state.dead@, id) by {
                crate::steps::lemma_live_count_concat(
                    g0.state.players@,
                    crate::steps::revived_upto(g0.state.dead@, now, g0.state.dead@.len() as int),
                    id,
                );
                crate::steps::lemma_revive_partition(g0.state.dead@, now, id,
                    g0.state.dead@.len() as int);
                assert(g0.state.dead@.take(g0.state.dead@.len() as int) =~= g0.state.dead@);
            }
        }
        self.advance_bullets(dt);
        let ghost g2 = *self;
        proof {
            assert forall|i: int|
                0 <= i < g2.state.bullets@.len() implies crate::models::dir_ok(
                (#[trigger] g2.state.bullets@[i]).dir_x as int,
                g2.state.bullets@[i].dir_y as int,
            ) && g2.state.bullets@[i].player_id == g1.state.bullets@[i].player_id by {
                assert(g2.state.bullets@[i] == crate::steps::moved_bullet(
                    g1.state.bullets@[i],
                    dt as int,
                ));
                assert(bullet_ok(g1.state.bullets@[i], g0.config));
            }
        }
        self.advance_players(dt);
        let ghost g3 = *self;
        proof {
            assert forall|id: u32|
                (#[trigger] live_count(g3.state.players@, id)) == live_count(
                    g2.state.players@,
                    id,
                ) by {
                assert forall|i: int|
                    0 <= i < g3.state.players@.len() implies (#[trigger] g3.state.players@[i]).id
                        == g2.state.players@[i].id by {
                    assert(g3.state.players@[i] == crate::steps::moved_player(
                        g2.state.players@[i],
                        dt as int,
                        g2.config,
                    ));
                }
                crate::models::lemma_matching_live_counts(g3.state.players@,
                    g2.state.players@, id);
            }
        }
        self.cull_bullets();
        let ghost g4 = *self;
        proof {
            crate::steps::lemma_kept_bullets_ok(g3.state.bullets@, g0.config,
                g3.state.bullets@.len() as int);
            assert forall|i: int|
                0 <= i < g4.state.bullets@.len() implies bullet_ok(
                #[trigger] g4.state.bullets@[i],
                g0.config,
            ) && crate::steps::in_cull_range(g4.state.bullets@[i], g0.config) by {}
            assert forall|id: u32|
                (#[trigger] count_owned(g4.state.bullets@, id)) <= MAX_CONCURRENT_BULLETS
                    as int by {
                crate::steps::lemma_kept_count_le(g3.state.bullets@, g0.config, id,
                    g3.state.bullets@.len() as int);
                assert(g3.state.bullets@.take(g3.state.bullets@.len() as int)
                    =~= g3.state.bullets@);
                crate::models::lemma_matching_owned_counts(g3.state.bullets@,
                    g1.state.bullets@, id);
            }
        }
        self.resolve_bullet_bullet();
        let ghost g5 = *self;
        proof {
            crate::steps::lemma_bb_survivors_ok(g4.state.bullets@, g0.config,
                g4.state.bullets@.len() as int);
            assert forall|id: u32|
                (#[trigger] count_owned(g5.state.bullets@, id)) <= MAX_CONCURRENT_BULLETS
                    as int by {
                crate::steps::lemma_bb_count_le(g4.state.bullets@, id,
                    g4.state.bullets@.len() as int);
                assert(g4.state.bullets@.take(g4.state.bullets@.len() as int)
                    =~= g4.state.bullets@);
            }
        }
        self.resolve_player_player();
        let ghost g6 = *self;
        proof {
            let ps5 = g5.state.players@;
            let vict = crate::steps::pp_victims_upto(ps5, ps5.len() as int);
            crate::steps::lemma_pp_split_ok(ps5, g0.config, ps5.len() as int);
            let buried = g6.state.dead@.subrange(g5.state.dead@.len() as int,
                g6.state.dead@.len() as int);
            assert(g6.state.dead@ =~= g5.state.dead@ + buried);
            assert forall|i: int|
                0 <= i < g6.state.dead@.len() implies corpse_ok(
                #[trigger] g6.state.dead@[i],
                g0.config,
            ) by {
                if i < g5.state.dead@.len() {
                    assert(g6.state.dead@[i] == g5.state.dead@[i]);
                } else {
                    let q = i - g5.state.dead@.len();
                    assert(crate::steps::corpse_matches(g6.state.dead@[g5.state.dead@.len()
                        + q], vict[q], now, g0.config));
                    assert(player_ok(vict[q], g0.config));
                }
            }
            assert forall|id: u32|
                (#[trigger] live_count(g6.state.players@, id)) + dead_count(g6.state.dead@, id)
                    == live_count(g5.state.players@, id) + dead_count(g5.state.dead@, id) by {
                crate::steps::lemma_pp_partition(ps5, id, ps5.len() as int);
                assert(ps5.take(ps5.len() as int) =~= ps5);
                crate::steps::lemma_dead_count_concat(g5.state.dead@, buried, id);
                assert forall|k: int| 0 <= k < buried.len() implies (#[trigger] buried[k]).player.id
                    == vict[k].id by {
                    assert(crate::steps::corpse_matches(g6.state.dead@[g5.state.dead@.len()
                        + k], vict[k], now, g0.config));
                }
                crate::steps::lemma_matching_dead_counts(buried, vict, id);
            }
        }
        self.resolve_bullet_player();
        let ghost g7 = *self;
        proof {
            let bs6 = g6.state.bullets@;
            let ps6 = g6.state.players@;
            let m = bs6.len() as int;
            let vict = crate::steps::bp_victims(bs6, ps6, m);
            crate::steps::lemma_bp_players_ok(bs6, ps6, g0.config, m);
            crate::steps::lemma_bp_kept_ok(bs6, ps6, g0.config, m);
            let buried = g7.state.dead@.subrange(g6.state.dead@.len() as int,
                g7.state.dead@.len() as int);
            assert(g7.state.dead@ =~= g6.state.dead@ + buried);
            assert forall|i: int|
                0 <= i < g7.state.dead@.len() implies corpse_ok(
                #[trigger] g7.state.dead@[i],
                g0.config,
            ) by {
                if i < g6.state.dead@.len() {
                    assert(g7.state.dead@[i] == g6.state.dead@[i]);
                } else {
                    let q = i - g6.state.dead@.len();
                    assert(crate::steps::corpse_matches(g7.state.dead@[g6.state.dead@.len()
                        + q], vict[q], now, g0.config));
                    assert(player_ok(vict[q], g0.config));
                }
            }
            assert forall|id: u32|
                (#[trigger] live_count(g7.state.players@, id)) + dead_count(g7.state.dead@, id)
                    == live_count(g6.state.players@, id) + dead_count(g6.state.dead@, id) by {
                crate::steps::lemma_bp_partition(bs6, ps6, id, m);
                crate::steps::lemma_dead_count_concat(g6.state.dead@, buried, id);
                assert forall|k: int| 0 <= k < buried.len() implies (#[trigger] buried[k]).player.id
                    == vict[k].id by {
                    assert(crate::steps::corpse_matches(g7.state.dead@[g6.state.dead@.len()
                        + k], vict[k], now, g0.config));
                }
                crate::steps::lemma_matching_dead_counts(buried, vict, id);
            }
            assert forall|id: u32|
                (#[trigger] count_owned(g7.state.bullets@, id)) <= MAX_CONCURRENT_BULLETS
                    as int by {
                crate::steps::lemma_bp_kept_count_le(bs6, ps6, id, m);
                assert(bs6.take(m) =~= bs6);
            }
            assert forall|id: u32|
                val_of(#[trigger] g7.state.scoreboard@, id) >= val_of(
                    g6.state.scoreboard@,
                    id,
                ) by {
                crate::tables::lemma_apply_hits_monotone(g6.state.scoreboard@,
                    crate::steps::bp_hits(bs6, ps6, m), id);
            }
        }
        self.award_survival();
        proof {
            assert forall|id: u32|
                val_of(#[trigger] final(self).state.scoreboard@, id) >= val_of(
                    g0.state.scoreboard@,
                    id,
                ) by {
                crate::tables::lemma_award_monotone(g7.survival_times@,
                    g7.state.scoreboard@, now, id);
                crate::tables::lemma_apply_hits_monotone(g6.state.scoreboard@,
                    crate::steps::bp_hits(g6.state.bullets@, g6.state.players@,
                        g6.state.bullets@.len() as int), id);
            }
            assert(self.state.players@ == g7.state.players@);
            assert(self.state.bullets@ == g7.state.bullets@);
            assert(self.state.dead@ == g7.state.dead@);
            assert forall|id: u32|
                (#[trigger] live_count(self.state.players@, id)) + dead_count(
                    self.state.dead@,
                    id,
                ) == live_count(g0.state.players@, id) + dead_count(g0.state.dead@, id) by {
                assert(live_count(g7.state.players@, id) + dead_count(g7.state.dead@, id)
                    == live_count(g6.state.players@, id) + dead_count(g6.state.dead@, id));
                assert(live_count(g6.state.players@, id) + dead_count(g6.state.dead@, id)
                    == live_count(g5.state.players@, id) + dead_count(g5.state.dead@, id));
                assert(g5.state.players@ == g3.state.players@);
                assert(g5.state.dead@ == g1.state.dead@);
                assert(live_count(g3.state.players@, id) == live_count(
                    g2.state.players@,
                    id,
                ));
                assert(g2.state.players@ == g1.state.players@);
                assert(live_count(g1.state.players@, id) + dead_count(g1.state.dead@, id)
                    == live_count(g0.state.players@, id) + dead_count(g0.state.dead@, id));
            }
            assert forall|i: int|
                0 <= i < self.state.players@.len() implies player_ok(
                #[trigger] self.state.players@[i],
                g0.config,
            ) by {
                assert(g7.state.players@[i] == crate::steps::bp_players(g6.state.bullets@,
                    g6.state.players@, g6.state.bullets@.len() as int)[i]);
            }
            assert forall|i: int|
                0 <= i < self.state.bullets@.len() implies bullet_ok(
                #[trigger] self.state.bullets@[i],
                g0.config,
            ) && crate::steps::in_cull_range(self.state.bullets@[i], g0.config) by {
                assert(g7.state.bullets@[i] == crate::steps::bp_kept_upto(g6.state.bullets@,
                    g6.state.players@, g6.state.bullets@.len() as int)[i]);
            }
            let bs2 = crate::steps::moved_bullets(g0.state.bullets@, dt as int);
            assert(g2.state.bullets@.len() == bs2.len());
            assert forall|i: int|
                0 <= i < bs2.len() implies g2.state.bullets@[i] == #[trigger] bs2[i] by {
                assert(bs2[i] == crate::steps::moved_bullet(g0.state.bullets@[i], dt as int));
                assert(g2.state.bullets@[i] == crate::steps::moved_bullet(
                    g1.state.bullets@[i],
                    dt as int,
                ));
            }
            assert(g2.state.bullets@ =~= bs2);
            let ps3 = crate::steps::moved_players(g1.state.players@, dt as int, g0.config);
            assert(g3.state.players@.len() == ps3.len());
            assert forall|i: int|
                0 <= i < ps3.len() implies g3.state.players@[i] == #[trigger] ps3[i] by {
                assert(ps3[i] == crate::steps::moved_player(g1.state.players@[i], dt as int,
                    g0.config));
                assert(g3.state.players@[i] == crate::steps::moved_player(
                    g2.state.players@[i],
                    dt as int,
                    g2.config,
                ));
            }
            assert(g3.state.players@ =~= ps3);
        }
    }

    /// Removes `player_id` from the live set and the corpse set, and drops
    /// its survival clock. A no-op for an unknown id. The scoreboard entry
    /// is kept: scores survive disconnects.
    pub fn player_left(&mut self, player_id: u32)
        requires
            old(self).wf(),
        ensures
            final(self).wf(),
            final(self).state.players@ == crate::steps::players_except_upto(
                old(self).state.players@,
                player_id,
                old(self).state.players@.len() as int,
            ),
            final(self).state.dead@ == crate::steps::dead_except_upto(
                old(self).state.dead@,
                player_id,
                old(self).state.dead@.len() as int,
            ),
            final(self).survival_times@ == crate::tables::entries_except_upto(
                old(self).survival_times@,
                player_id,
                old(self).survival_times@.len() as int,
            ),
            final(self).state.bullets@ == old(self).state.bullets@,
            final(self).state.scoreboard@ == old(self).state.scoreboard@,
            final(self).config == old(self).config,
            final(self).now_ms == old(self).now_ms,
            final(self).bullet_id_counter == old(self).bullet_id_counter,
    {
        let ghost c = self.config;
        let ghost ps0 = self.state.players@;
        let ghost ds0 = self.state.dead@;
        let ghost ss0 = self.survival_times@;

        let n = self.state.players.len();
        let mut kept: Vec<PlayerState> = Vec::new();
        let mut i: usize = 0;
        while i < n
            invariant
                i <= n,
                n == self.state.players@.len(),
                self.state.players@ == ps0,
                kept@ == crate::steps::players_except_upto(ps0, player_id, i as int),
            decreases n - i,
        {
            let p = self.state.players[i];
            if p.id != player_id {
                kept.push(p);
            }
            i = i + 1;
        }
        self.state.players = kept;

        let nd = self.state.dead.len();
        let mut kept_dead: Vec<DeadPlayer> = Vec::new();
        let mut j: usize = 0;
        while j < nd
            invariant
                j <= nd,
                nd == self.state.dead@.len(),
                self.state.dead@ == ds0,
                kept_dead@ == crate::steps::dead_except_upto(ds0, player_id, j as int),
            decreases nd - j,
        {
            let d = self.state.dead[j];
            if d.player.id != player_id {
                kept_dead.push(d);
            }
            j = j + 1;
        }
        self.state.dead = kept_dead;

        let ns = self.survival_times.len();
        let mut kept_surv: Vec<IdValue> = Vec::new();
        let mut k: usize = 0;
        while k < ns
            invariant
                k <= ns,
                ns == self.survival_times@.len(),
                self.survival_times@ == ss0,
                kept_surv@ == crate::tables::entries_except_upto(ss0, player_id, k as int),
            decreases ns - k,
        {
            let e = self.survival_times[k];
            if e.id != player_id {
                kept_surv.push(e);
            }
            k = k + 1;
        }
        self.survival_times = kept_surv;

        proof {
            crate::steps::lemma_players_except_ok(ps0, player_id, c, ps0.len() as int);
            crate::steps::lemma_dead_except_ok(ds0, player_id, c, ds0.len() as int);
            assert forall|id: u32|
                (#[trigger] live_count(self.state.players@, id)) + dead_count(
                    self.state.dead@,
                    id,
                ) <= 1 by {
                crate::steps::lemma_players_except_count_le(ps0, player_id, id, ps0.len() as int);
                crate::steps::lemma_dead_except_count_le(ds0, player_id, id, ds0.len() as int);
                assert(ps0.take(ps0.len() as int) =~= ps0);
                assert(ds0.take(ds0.len() as int) =~= ds0);
                crate::models::lemma_live_count_nonneg(self.state.players@, id);
                crate::models::lemma_dead_count_nonneg(self.state.dead@, id);
            }
        }
    }
}

} // verus!
