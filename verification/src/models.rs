//! World data model: entities, configuration, fixed-point units and the
//! basic spec-level predicates and measures that the engine contracts use.
//!
//! Units: coordinates and radii are milli-units (1000 = one world unit),
//! headings are unit vectors scaled by `DIR_SCALE`, throttle is scaled by
//! `THROTTLE_MAX`, speeds are milli-units per second, and time is
//! simulation milliseconds.

use vstd::prelude::*;

verus! {

/// Radius of a player's circle, in milli-units.
pub const PLAYER_RADIUS: i64 = 1000;

/// Radius of a bullet's circle, in milli-units.
pub const BULLET_RADIUS: i64 = 250;

/// Player speed at full throttle, in milli-units per second.
pub const PLAYER_BASE_SPEED: i64 = 8000;

/// Bullet speed, in milli-units per second.
pub const BULLET_SPEED: i64 = 20000;

/// A freshly fired bullet starts this many milli-units from its shooter,
/// along the shooter's heading (five world units).
pub const FIRE_OFFSET: i64 = 5000;

/// Offset of a fresh bullet per unit of heading component:
/// `FIRE_OFFSET / DIR_SCALE`.
pub const FIRE_OFFSET_PER_DIR: i64 = 5;

/// Scale of heading vectors: a heading component lies in
/// `[-DIR_SCALE, DIR_SCALE]`.
pub const DIR_SCALE: i64 = 1000;

/// Scale of the throttle: stored throttle lies in `[0, THROTTLE_MAX]`.
pub const THROTTLE_MAX: i64 = 1000;

/// Largest world bound the engine accepts, in milli-units.
pub const MAX_BOUND: i64 = 500_000_000;

/// Bullets may stand at most this far outside the bounds (a fresh bullet is
/// offset `FIRE_OFFSET` from a player that is itself in bounds).
pub const BULLET_MARGIN: i64 = 5000;

/// At most this many bullets of one player may be in flight at once.
pub const MAX_CONCURRENT_BULLETS: usize = 4;

/// The fixed tick rate the coordinator drives the engine at.
pub const TICKS_PER_SECOND: u64 = 30;

/// Duration of one tick in simulation milliseconds.
pub const TICK_MS: u64 = 33;

/// How long a killed player stays a corpse, in milliseconds.
pub const DEAD_PUNISH_MS: u64 = 3000;

/// Grace period after join or death before survival bonuses start.
pub const SURVIVAL_TIMEOUT_MS: u64 = 10_000;

/// Interval between survival bonuses once the grace period has elapsed.
pub const SURVIVAL_POINT_INTERVAL_MS: u64 = 4_000;

/// Largest simulation clock value the engine's arithmetic is proved for.
pub const MAX_TIME_MS: u64 = 1_000_000_000_000;

/// A live player.
#[derive(Clone, Copy, PartialEq, Eq, Structural, Debug)]
pub struct PlayerState {
    pub id: u32,
    pub x: i64,
    pub y: i64,
    /// Heading unit vector, scaled by `DIR_SCALE`.
    pub dir_x: i64,
    pub dir_y: i64,
    /// Throttle, scaled by `THROTTLE_MAX`.
    pub throttle: i64,
}

/// A bullet in flight.
#[derive(Clone, Copy, PartialEq, Eq, Structural, Debug)]
pub struct BulletState {
    pub id: u32,
    /// The player that fired this bullet.
    pub player_id: u32,
    pub x: i64,
    pub y: i64,
    /// Heading unit vector, scaled by `DIR_SCALE`.
    pub dir_x: i64,
    pub dir_y: i64,
}

/// A dead player's saved state plus its respawn time.
#[derive(Clone, Copy, PartialEq, Eq, Structural, Debug)]
pub struct DeadPlayer {
    /// Simulation time at which the player comes back to life.
    pub respawn: u64,
    pub player: PlayerState,
}

/// One entry of an id-keyed table (the scoreboard, or the survival clocks).
#[derive(Clone, Copy, PartialEq, Eq, Structural, Debug)]
pub struct IdValue {
    pub id: u32,
    pub val: u64,
}

/// World bounds, fixed for the lifetime of one engine instance.
#[derive(Clone, Copy, PartialEq, Eq, Structural, Debug)]
pub struct GameConfig {
    pub bound_x: i64,
    pub bound_y: i64,
}

/// A command a connected player may send.
#[derive(Clone, Copy, PartialEq, Eq, Structural, Debug)]
pub enum GameCommand {
    /// Set the heading to the given vector (components scaled by
    /// `DIR_SCALE`; out-of-range components are clamped).
    Rotate(i64, i64),
    /// Set the throttle (clamped into `[0, THROTTLE_MAX]`).
    Throttle(i64),
    Fire,
}

/// The broadcastable world state.
pub struct GameState {
    pub players: Vec<PlayerState>,
    pub bullets: Vec<BulletState>,
    pub dead: Vec<DeadPlayer>,
    /// Accumulated score per player id; entries appear on first scoring
    /// event and are never removed while the player is connected.
    pub scoreboard: Vec<IdValue>,
}

/// The bounds are positive, leave room for a player circle, and are small
/// enough that all collision arithmetic stays well inside `i64`.
pub open spec fn config_ok(c: GameConfig) -> bool {
    2 * PLAYER_RADIUS < c.bound_x <= MAX_BOUND && 2 * PLAYER_RADIUS < c.bound_y <= MAX_BOUND
}

/// A heading vector has both components within the direction scale.
pub open spec fn dir_ok(dx: int, dy: int) -> bool {
    -DIR_SCALE <= dx <= DIR_SCALE && -DIR_SCALE <= dy <= DIR_SCALE
}

/// The player's whole circle lies inside the bounds.
pub open spec fn player_in_bounds(p: PlayerState, c: GameConfig) -> bool {
    &&& PLAYER_RADIUS <= p.x <= c.bound_x - PLAYER_RADIUS
    &&& PLAYER_RADIUS <= p.y <= c.bound_y - PLAYER_RADIUS
}

/// A well-formed live player: in bounds, sane heading and throttle.
pub open spec fn player_ok(p: PlayerState, c: GameConfig) -> bool {
    &&& player_in_bounds(p, c)
    &&& dir_ok(p.dir_x as int, p.dir_y as int)
    &&& 0 <= p.throttle <= THROTTLE_MAX
}

/// A well-formed bullet: within the bounds plus the spawn margin, sane
/// heading.
pub open spec fn bullet_ok(b: BulletState, c: GameConfig) -> bool {
    &&& -BULLET_MARGIN <= b.x <= c.bound_x + BULLET_MARGIN
    &&& -BULLET_MARGIN <= b.y <= c.bound_y + BULLET_MARGIN
    &&& dir_ok(b.dir_x as int, b.dir_y as int)
}

/// A well-formed corpse: its saved player state is well-formed.
pub open spec fn corpse_ok(d: DeadPlayer, c: GameConfig) -> bool {
    player_ok(d.player, c)
}

/// How often `id` occurs among the live players.
pub open spec fn live_count(ps: Seq<PlayerState>, id: u32) -> int
    decreases ps.len(),
{
    if ps.len() == 0 {
        0
    } else {
        live_count(ps.drop_last(), id) + if ps.last().id == id {
            1int
        } else {
            0int
        }
    }
}

/// How often `id` occurs among the corpses.
pub open spec fn dead_count(ds: Seq<DeadPlayer>, id: u32) -> int
    decreases ds.len(),
{
    if ds.len() == 0 {
        0
    } else {
        dead_count(ds.drop_last(), id) + if ds.last().player.id == id {
            1int
        } else {
            0int
        }
    }
}

/// How many bullets in `bs` are owned by player `id`.
pub open spec fn count_owned(bs: Seq<BulletState>, id: u32) -> int
    decreases bs.len(),
{
    if bs.len() == 0 {
        0
    } else {
        count_owned(bs.drop_last(), id) + if bs.last().player_id == id {
            1int
        } else {
            0int
        }
    }
}

pub proof fn lemma_live_count_push(ps: Seq<PlayerState>, p: PlayerState, id: u32)
    ensures
        live_count(ps.push(p), id) == live_count(ps, id) + if p.id == id {
            1int
        } else {
            0int
        },
{
    assert(ps.push(p).drop_last() =~= ps);
}

pub proof fn lemma_dead_count_push(ds: Seq<DeadPlayer>, d: DeadPlayer, id: u32)
    ensures
        dead_count(ds.push(d), id) == dead_count(ds, id) + if d.player.id == id {
            1int
        } else {
            0int
        },
{
    assert(ds.push(d).drop_last() =~= ds);
}

pub proof fn lemma_count_owned_push(bs: Seq<BulletState>, b: BulletState, id: u32)
    ensures
        count_owned(bs.push(b), id) == count_owned(bs, id) + if b.player_id == id {
            1int
        } else {
            0int
        },
{
    assert(bs.push(b).drop_last() =~= bs);
}

pub proof fn lemma_live_count_take_succ(ps: Seq<PlayerState>, id: u32, n: int)
    requires
        0 <= n < ps.len(),
    ensures
        live_count(ps.take(n + 1), id) == live_count(ps.take(n), id) + if ps[n].id == id {
            1int
        } else {
            0int
        },
{
    assert(ps.take(n + 1).drop_last() =~= ps.take(n));
    assert(ps.take(n + 1).last() == ps[n]);
}

pub proof fn lemma_dead_count_take_succ(ds: Seq<DeadPlayer>, id: u32, n: int)
    requires
        0 <= n < ds.len(),
    ensures
        dead_count(ds.take(n + 1), id) == dead_count(ds.take(n), id) + if ds[n].player.id == id {
            1int
        } else {
            0int
        },
{
    assert(ds.take(n + 1).drop_last() =~= ds.take(n));
    assert(ds.take(n + 1).last() == ds[n]);
}

pub proof fn lemma_count_owned_take_succ(bs: Seq<BulletState>, id: u32, n: int)
    requires
        0 <= n < bs.len(),
    ensures
        count_owned(bs.take(n + 1), id) == count_owned(bs.take(n), id) + if bs[n].player_id == id {
            1int
        } else {
            0int
        },
{
    assert(bs.take(n + 1).drop_last() =~= bs.take(n));
    assert(bs.take(n + 1).last() == bs[n]);
}

pub proof fn lemma_live_count_nonneg(ps: Seq<PlayerState>, id: u32)
    ensures
        live_count(ps, id) >= 0,
    decreases ps.len(),
{
    if ps.len() > 0 {
        lemma_live_count_nonneg(ps.drop_last(), id);
    }
}

pub proof fn lemma_dead_count_nonneg(ds: Seq<DeadPlayer>, id: u32)
    ensures
        dead_count(ds, id) >= 0,
    decreases ds.len(),
{
    if ds.len() > 0 {
        lemma_dead_count_nonneg(ds.drop_last(), id);
    }
}

pub proof fn lemma_count_owned_nonneg(bs: Seq<BulletState>, id: u32)
    ensures
        count_owned(bs, id) >= 0,
    decreases bs.len(),
{
    if bs.len() > 0 {
        lemma_count_owned_nonneg(bs.drop_last(), id);
    }
}

/// A present member contributes at least one to the count.
pub proof fn lemma_live_count_member(ps: Seq<PlayerState>, i: int)
    requires
        0 <= i < ps.len(),
    ensures
        live_count(ps, ps[i].id) >= 1,
    decreases ps.len(),
{
    lemma_live_count_nonneg(ps.drop_last(), ps[i].id);
    if i < ps.len() - 1 {
        lemma_live_count_member(ps.drop_last(), i);
    }
}

/// Two player lists with pointwise equal ids count every id alike.
pub proof fn lemma_matching_live_counts(a: Seq<PlayerState>, b: Seq<PlayerState>, id: u32)
    requires
        a.len() == b.len(),
        forall|i: int| 0 <= i < a.len() ==> a[i].id == b[i].id,
    ensures
        live_count(a, id) == live_count(b, id),
    decreases a.len(),
{
    if a.len() > 0 {
        lemma_matching_live_counts(a.drop_last(), b.drop_last(), id);
    }
}

/// Two bullet lists with pointwise equal owners count every owner alike.
pub proof fn lemma_matching_owned_counts(a: Seq<BulletState>, b: Seq<BulletState>, id: u32)
    requires
        a.len() == b.len(),
        forall|i: int| 0 <= i < a.len() ==> a[i].player_id == b[i].player_id,
    ensures
        count_owned(a, id) == count_owned(b, id),
    decreases a.len(),
{
    if a.len() > 0 {
        lemma_matching_owned_counts(a.drop_last(), b.drop_last(), id);
    }
}

/// Replacing a player by one with the same id moves no count.
pub proof fn lemma_live_count_update(ps: Seq<PlayerState>, i: int, p: PlayerState, id: u32)
    requires
        0 <= i < ps.len(),
        p.id == ps[i].id,
    ensures
        live_count(ps.update(i, p), id) == live_count(ps, id),
    decreases ps.len(),
{
    if i == ps.len() - 1 {
        assert(ps.update(i, p).drop_last() =~= ps.drop_last());
        assert(ps.update(i, p).last() == p);
    } else {
        assert(ps.update(i, p).drop_last() =~= ps.drop_last().update(i, p));
        assert(ps.update(i, p).last() == ps.last());
        lemma_live_count_update(ps.drop_last(), i, p, id);
    }
}

/// An id that occurs nowhere counts zero.
pub proof fn lemma_live_count_absent(ps: Seq<PlayerState>, id: u32)
    requires
        forall|k: int| 0 <= k < ps.len() ==> (#[trigger] ps[k]).id != id,
    ensures
        live_count(ps, id) == 0,
    decreases ps.len(),
{
    if ps.len() > 0 {
        lemma_live_count_absent(ps.drop_last(), id);
    }
}

/// Index of the first live player with id `id`, or -1 when none is live.
pub open spec fn player_idx(ps: Seq<PlayerState>, id: u32) -> int
    decreases ps.len(),
{
    if ps.len() == 0 {
        -1
    } else if ps[0].id == id {
        0
    } else {
        let r = player_idx(ps.drop_first(), id);
        if r == -1 {
            -1
        } else {
            r + 1
        }
    }
}

/// The basic shape of `player_idx`: a valid first index, or -1 exactly
/// when the id is not live.
pub proof fn lemma_player_idx_props(ps: Seq<PlayerState>, id: u32)
    ensures
        -1 <= player_idx(ps, id) < ps.len(),
        player_idx(ps, id) >= 0 ==> ps[player_idx(ps, id)].id == id,
        forall|k: int| 0 <= k < ps.len() && ps[k].id == id ==> player_idx(ps, id) >= 0,
        player_idx(ps, id) >= 0 ==> forall|k: int|
            0 <= k < player_idx(ps, id) ==> ps[k].id != id,
    decreases ps.len(),
{
    if ps.len() > 0 && ps[0].id != id {
        lemma_player_idx_props(ps.drop_first(), id);
        assert(forall|k: int|
            0 <= k < ps.len() && ps[k].id == id ==> 0 <= k - 1 < ps.drop_first().len()
                && ps.drop_first()[k - 1].id == id);
    }
}

/// A first index found by a forward scan is `player_idx`.
pub proof fn lemma_player_idx_is_first(ps: Seq<PlayerState>, id: u32, i: int)
    requires
        0 <= i < ps.len(),
        ps[i].id == id,
        forall|k: int| 0 <= k < i ==> ps[k].id != id,
    ensures
        player_idx(ps, id) == i,
{
    lemma_player_idx_props(ps, id);
    let r = player_idx(ps, id);
    if r < i {
        assert(ps[r].id == id);
    }
    if r > i {
        assert(ps[i].id != id);
    }
}

/// The id is live exactly when `player_idx` found an index.
pub proof fn lemma_player_idx_live(ps: Seq<PlayerState>, id: u32)
    ensures
        (player_idx(ps, id) >= 0) == (live_count(ps, id) > 0),
{
    lemma_player_idx_props(ps, id);
    if player_idx(ps, id) >= 0 {
        lemma_live_count_member(ps, player_idx(ps, id));
    } else {
        assert forall|k: int| 0 <= k < ps.len() implies (#[trigger] ps[k]).id != id by {
            if ps[k].id == id {
                assert(player_idx(ps, id) >= 0);
            }
        }
        lemma_live_count_absent(ps, id);
    }
}

pub proof fn lemma_dead_count_member(ds: Seq<DeadPlayer>, i: int)
    requires
        0 <= i < ds.len(),
    ensures
        dead_count(ds, ds[i].player.id) >= 1,
    decreases ds.len(),
{
    lemma_dead_count_nonneg(ds.drop_last(), ds[i].player.id);
    if i < ds.len() - 1 {
        lemma_dead_count_member(ds.drop_last(), i);
    }
}

} // verus!
