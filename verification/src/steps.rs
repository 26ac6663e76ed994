//! The per-tick step functions of the world, as spec-level definitions:
//! motion integration, respawn, bullet culling, and the three collision
//! resolutions. The engine's exec code is proved against these.

use vstd::prelude::*;
use crate::models::{
    count_owned, dead_count, live_count, lemma_count_owned_push, lemma_count_owned_take_succ,
    lemma_dead_count_push, lemma_dead_count_take_succ, lemma_live_count_push,
    lemma_live_count_take_succ, bullet_ok, corpse_ok, player_ok, BulletState, DeadPlayer,
    GameConfig, IdValue, PlayerState, BULLET_RADIUS, BULLET_SPEED, DEAD_PUNISH_MS,
    PLAYER_BASE_SPEED, PLAYER_RADIUS,
};
use crate::geom::{bullet_hits_player, bullets_overlap, players_overlap};
use crate::spec_clamp;

verus! {

// ---------------------------------------------------------------------------
// Motion
// ---------------------------------------------------------------------------
/// Distance a bullet travels along one axis in `dt` milliseconds, given the
/// heading component `dir` (scaled by `DIR_SCALE`). Truncating division on
/// the nonnegative magnitude.
pub open spec fn bullet_delta(dir: int, dt: int) -> int {
    if dir >= 0 {
        (dir * BULLET_SPEED * dt) / 1_000_000
    } else {
        -(((-dir) * BULLET_SPEED * dt) / 1_000_000)
    }
}

/// Distance a player travels along one axis in `dt` milliseconds at the
/// given heading component and throttle.
pub open spec fn player_delta(dir: int, throttle: int, dt: int) -> int {
    if dir >= 0 {
        (dir * PLAYER_BASE_SPEED * throttle * dt) / 1_000_000_000
    } else {
        -(((-dir) * PLAYER_BASE_SPEED * throttle * dt) / 1_000_000_000)
    }
}

/// A bullet after one motion step.
pub open spec fn moved_bullet(b: BulletState, dt: int) -> BulletState {
    BulletState {
        id: b.id,
        player_id: b.player_id,
        x: (b.x + bullet_delta(b.dir_x as int, dt)) as i64,
        y: (b.y + bullet_delta(b.dir_y as int, dt)) as i64,
        dir_x: b.dir_x,
        dir_y: b.dir_y,
    }
}

/// A player after one motion step, clamped so the whole circle stays
/// inside the bounds.
pub open spec fn moved_player(p: PlayerState, dt: int, c: GameConfig) -> PlayerState {
    PlayerState {
        id: p.id,
        x: spec_clamp(
            p.x + player_delta(p.dir_x as int, p.throttle as int, dt),
            PLAYER_RADIUS as int,
            c.bound_x - PLAYER_RADIUS,
        ) as i64,
        y: spec_clamp(
            p.y + player_delta(p.dir_y as int, p.throttle as int, dt),
            PLAYER_RADIUS as int,
            c.bound_y - PLAYER_RADIUS,
        ) as i64,
        dir_x: p.dir_x,
        dir_y: p.dir_y,
        throttle: p.throttle,
    }
}

/// All bullets after one motion step.
pub open spec fn moved_bullets(bs: Seq<BulletState>, dt: int) -> Seq<BulletState> {
    Seq::new(bs.len(), |i: int| moved_bullet(bs[i], dt))
}

/// All players after one motion step.
pub open spec fn moved_players(ps: Seq<PlayerState>, dt: int, c: GameConfig) -> Seq<
    PlayerState,
> {
    Seq::new(ps.len(), |i: int| moved_player(ps[i], dt, c))
}

// ---------------------------------------------------------------------------
// Respawn
// ---------------------------------------------------------------------------
/// Corpses among the first `n` whose respawn time has not yet elapsed.
pub open spec fn dead_stay_upto(ds: Seq<DeadPlayer>, now: int, n: int) -> Seq<DeadPlayer>
    decreases n,
{
    if n <= 0 {
        Seq::empty()
    } else {
        let rest = dead_stay_upto(ds, now, n - 1);
        if ds[n - 1].respawn as int <= now {
            rest
        } else {
            rest.push(ds[n - 1])
        }
    }
}

/// Players revived from the first `n` corpses: exactly those whose respawn
/// time has elapsed, in corpse order.
pub open spec fn revived_upto(ds: Seq<DeadPlayer>, now: int, n: int) -> Seq<PlayerState>
    decreases n,
{
    if n <= 0 {
        Seq::empty()
    } else {
        let rest = revived_upto(ds, now, n - 1);
        if ds[n - 1].respawn as int <= now {
            rest.push(ds[n - 1].player)
        } else {
            rest
        }
    }
}

// ---------------------------------------------------------------------------
// Culling
// ---------------------------------------------------------------------------
/// A bullet is kept while it has left the bounds by less than one radius.
pub open spec fn in_cull_range(b: BulletState, c: GameConfig) -> bool {
    &&& -BULLET_RADIUS < b.x < c.bound_x + BULLET_RADIUS
    &&& -BULLET_RADIUS < b.y < c.bound_y + BULLET_RADIUS
}

/// The bullets among the first `n` that are still in range, in order.
pub open spec fn kept_bullets_upto(bs: Seq<BulletState>, c: GameConfig, n: int) -> Seq<
    BulletState,
>
    decreases n,
{
    if n <= 0 {
        Seq::empty()
    } else {
        let rest = kept_bullets_upto(bs, c, n - 1);
        if in_cull_range(bs[n - 1], c) {
            rest.push(bs[n - 1])
        } else {
            rest
        }
    }
}

// ---------------------------------------------------------------------------
// Bullet-bullet collisions
// ---------------------------------------------------------------------------
/// Bullet `i` overlaps no other bullet of the volley.
pub open spec fn bullet_clear(bs: Seq<BulletState>, i: int) -> bool {
    forall|j: int| 0 <= j < bs.len() && j != i ==> !bullets_overlap(bs[i], bs[j])
}

/// The bullets among the first `n` that overlap no other bullet; every
/// bullet of an overlapping pair is destroyed, with no winner.
pub open spec fn bb_survivors_upto(bs: Seq<BulletState>, n: int) -> Seq<BulletState>
    decreases n,
{
    if n <= 0 {
        Seq::empty()
    } else {
        let rest = bb_survivors_upto(bs, n - 1);
        if bullet_clear(bs, n - 1) {
            rest.push(bs[n - 1])
        } else {
            rest
        }
    }
}

// ---------------------------------------------------------------------------
// Player-player collisions
// ---------------------------------------------------------------------------
/// Player `i` overlaps no other live player.
pub open spec fn player_clear(ps: Seq<PlayerState>, i: int) -> bool {
    forall|j: int| 0 <= j < ps.len() && j != i ==> !players_overlap(ps[i], ps[j])
}

/// The players among the first `n` that overlap no other player.
pub open spec fn pp_survivors_upto(ps: Seq<PlayerState>, n: int) -> Seq<PlayerState>
    decreases n,
{
    if n <= 0 {
        Seq::empty()
    } else {
        let rest = pp_survivors_upto(ps, n - 1);
        if player_clear(ps, n - 1) {
            rest.push(ps[n - 1])
        } else {
            rest
        }
    }
}

/// The players among the first `n` involved in at least one overlapping
/// pair, in order: they all die together.
pub open spec fn pp_victims_upto(ps: Seq<PlayerState>, n: int) -> Seq<PlayerState>
    decreases n,
{
    if n <= 0 {
        Seq::empty()
    } else {
        let rest = pp_victims_upto(ps, n - 1);
        if player_clear(ps, n - 1) {
            rest
        } else {
            rest.push(ps[n - 1])
        }
    }
}

// ---------------------------------------------------------------------------
// Bullet-player collisions
// ---------------------------------------------------------------------------
/// The players among the first `n` not hit by bullet `b`.
pub open spec fn hit_survivors_upto(b: BulletState, ps: Seq<PlayerState>, n: int) -> Seq<
    PlayerState,
>
    decreases n,
{
    if n <= 0 {
        Seq::empty()
    } else {
        let rest = hit_survivors_upto(b, ps, n - 1);
        if bullet_hits_player(b, ps[n - 1]) {
            rest
        } else {
            rest.push(ps[n - 1])
        }
    }
}

/// The players among the first `n` hit by bullet `b`, in order.
pub open spec fn hit_victims_upto(b: BulletState, ps: Seq<PlayerState>, n: int) -> Seq<
    PlayerState,
>
    decreases n,
{
    if n <= 0 {
        Seq::empty()
    } else {
        let rest = hit_victims_upto(b, ps, n - 1);
        if bullet_hits_player(b, ps[n - 1]) {
            rest.push(ps[n - 1])
        } else {
            rest
        }
    }
}

/// The live players once the first `k` bullets have been processed in
/// order; a player killed by an earlier bullet cannot be hit again.
pub open spec fn bp_players(bs: Seq<BulletState>, ps: Seq<PlayerState>, k: int) -> Seq<
    PlayerState,
>
    decreases k,
{
    if k <= 0 {
        ps
    } else {
        let prev = bp_players(bs, ps, k - 1);
        hit_survivors_upto(bs[k - 1], prev, prev.len() as int)
    }
}

/// All players killed by the first `k` bullets, in kill order.
pub open spec fn bp_victims(bs: Seq<BulletState>, ps: Seq<PlayerState>, k: int) -> Seq<
    PlayerState,
>
    decreases k,
{
    if k <= 0 {
        Seq::empty()
    } else {
        let prev = bp_players(bs, ps, k - 1);
        bp_victims(bs, ps, k - 1) + hit_victims_upto(bs[k - 1], prev, prev.len() as int)
    }
}

/// One scoreboard credit (the shooter's id) per kill, in kill order.
pub open spec fn bp_hits(bs: Seq<BulletState>, ps: Seq<PlayerState>, k: int) -> Seq<u32>
    decreases k,
{
    if k <= 0 {
        Seq::empty()
    } else {
        let prev = bp_players(bs, ps, k - 1);
        bp_hits(bs, ps, k - 1) + Seq::new(
            hit_victims_upto(bs[k - 1], prev, prev.len() as int).len(),
            |i: int| bs[k - 1].player_id,
        )
    }
}

/// Bullet `i` is used (and removed) exactly when it killed someone.
pub open spec fn bullet_used(bs: Seq<BulletState>, ps: Seq<PlayerState>, i: int) -> bool {
    let prev = bp_players(bs, ps, i);
    hit_victims_upto(bs[i], prev, prev.len() as int).len() > 0
}

/// The bullets among the first `n` that are not used, in order.
pub open spec fn bp_kept_upto(bs: Seq<BulletState>, ps: Seq<PlayerState>, n: int) -> Seq<
    BulletState,
>
    decreases n,
{
    if n <= 0 {
        Seq::empty()
    } else {
        let rest = bp_kept_upto(bs, ps, n - 1);
        if bullet_used(bs, ps, n - 1) {
            rest
        } else {
            rest.push(bs[n - 1])
        }
    }
}

// ---------------------------------------------------------------------------
// Removal by id (disconnects)
// ---------------------------------------------------------------------------
/// The players among the first `n` whose id differs from `id`.
pub open spec fn players_except_upto(ps: Seq<PlayerState>, id: u32, n: int) -> Seq<PlayerState>
    decreases n,
{
    if n <= 0 {
        Seq::empty()
    } else {
        let rest = players_except_upto(ps, id, n - 1);
        if ps[n - 1].id == id {
            rest
        } else {
            rest.push(ps[n - 1])
        }
    }
}

/// The corpses among the first `n` whose id differs from `id`.
pub open spec fn dead_except_upto(ds: Seq<DeadPlayer>, id: u32, n: int) -> Seq<DeadPlayer>
    decreases n,
{
    if n <= 0 {
        Seq::empty()
    } else {
        let rest = dead_except_upto(ds, id, n - 1);
        if ds[n - 1].player.id == id {
            rest
        } else {
            rest.push(ds[n - 1])
        }
    }
}

/// A corpse freshly made from victim `v`: same identity and motion state,
/// a random in-bounds position, respawning a fixed punishment later.
pub open spec fn corpse_matches(d: DeadPlayer, v: PlayerState, now: int, c: GameConfig) -> bool {
    &&& d.respawn as int == now + DEAD_PUNISH_MS
    &&& d.player.id == v.id
    &&& d.player.dir_x == v.dir_x
    &&& d.player.dir_y == v.dir_y
    &&& d.player.throttle == v.throttle
    &&& crate::models::player_in_bounds(d.player, c)
}

/// Survival clocks after every victim's clock was reset to `t`, in order.
pub open spec fn reset_clocks(vs: Seq<PlayerState>, s: Seq<IdValue>, t: u64) -> Seq<IdValue>
    decreases vs.len(),
{
    if vs.len() == 0 {
        s
    } else {
        reset_clocks(vs.drop_first(), crate::tables::set_val(s, vs[0].id, t), t)
    }
}

/// Unfolds `reset_clocks` one victim at a time, front first.
pub proof fn lemma_reset_clocks_step(vs: Seq<PlayerState>, s: Seq<IdValue>, t: u64, n: int)
    requires
        0 <= n < vs.len(),
    ensures
        reset_clocks(vs.skip(n), s, t) == reset_clocks(
            vs.skip(n + 1),
            crate::tables::set_val(s, vs[n].id, t),
            t,
        ),
{
    assert(vs.skip(n).drop_first() =~= vs.skip(n + 1));
    assert(vs.skip(n)[0] == vs[n]);
}

/// Resetting clocks for two victim lists in a row is resetting for their
/// concatenation.
pub proof fn lemma_reset_clocks_concat(
    a: Seq<PlayerState>,
    b: Seq<PlayerState>,
    s: Seq<IdValue>,
    t: u64,
)
    ensures
        reset_clocks(a + b, s, t) == reset_clocks(b, reset_clocks(a, s, t), t),
    decreases a.len(),
{
    if a.len() == 0 {
        assert(a + b =~= b);
    } else {
        assert((a + b).drop_first() =~= a.drop_first() + b);
        assert((a + b)[0] == a[0]);
        lemma_reset_clocks_concat(a.drop_first(), b, crate::tables::set_val(s, a[0].id, t), t);
    }
}

// ---------------------------------------------------------------------------
// Counting lemmas: each step moves ids around, never invents one
// ---------------------------------------------------------------------------
pub proof fn lemma_live_count_concat(a: Seq<PlayerState>, b: Seq<PlayerState>, id: u32)
    ensures
        live_count(a + b, id) == live_count(a, id) + live_count(b, id),
    decreases b.len(),
{
    if b.len() == 0 {
        assert(a + b =~= a);
    } else {
        assert((a + b).drop_last() =~= a + b.drop_last());
        assert((a + b).last() == b.last());
        lemma_live_count_concat(a, b.drop_last(), id);
    }
}

pub proof fn lemma_dead_count_concat(a: Seq<DeadPlayer>, b: Seq<DeadPlayer>, id: u32)
    ensures
        dead_count(a + b, id) == dead_count(a, id) + dead_count(b, id),
    decreases b.len(),
{
    if b.len() == 0 {
        assert(a + b =~= a);
    } else {
        assert((a + b).drop_last() =~= a + b.drop_last());
        assert((a + b).last() == b.last());
        lemma_dead_count_concat(a, b.drop_last(), id);
    }
}

/// Reviving splits every id's corpse count between the revived players and
/// the remaining corpses.
pub proof fn lemma_revive_partition(ds: Seq<DeadPlayer>, now: int, id: u32, n: int)
    requires
        0 <= n <= ds.len(),
    ensures
        live_count(revived_upto(ds, now, n), id) + dead_count(dead_stay_upto(ds, now, n), id)
            == dead_count(ds.take(n), id),
    decreases n,
{
    if n == 0 {
        assert(ds.take(0) =~= Seq::<DeadPlayer>::empty());
    } else {
        lemma_revive_partition(ds, now, id, n - 1);
        lemma_dead_count_take_succ(ds, id, n - 1);
        if ds[n - 1].respawn as int <= now {
            lemma_live_count_push(revived_upto(ds, now, n - 1), ds[n - 1].player, id);
        } else {
            lemma_dead_count_push(dead_stay_upto(ds, now, n - 1), ds[n - 1], id);
        }
    }
}

/// A player-player resolution splits every id's live count between
/// survivors and victims.
pub proof fn lemma_pp_partition(ps: Seq<PlayerState>, id: u32, n: int)
    requires
        0 <= n <= ps.len(),
    ensures
        live_count(pp_survivors_upto(ps, n), id) + live_count(pp_victims_upto(ps, n), id)
            == live_count(ps.take(n), id),
    decreases n,
{
    if n == 0 {
        assert(ps.take(0) =~= Seq::<PlayerState>::empty());
    } else {
        lemma_pp_partition(ps, id, n - 1);
        lemma_live_count_take_succ(ps, id, n - 1);
        if player_clear(ps, n - 1) {
            lemma_live_count_push(pp_survivors_upto(ps, n - 1), ps[n - 1], id);
        } else {
            lemma_live_count_push(pp_victims_upto(ps, n - 1), ps[n - 1], id);
        }
    }
}

/// One bullet's resolution splits every id's live count between survivors
/// and victims.
pub proof fn lemma_hit_partition(b: BulletState, ps: Seq<PlayerState>, id: u32, n: int)
    requires
        0 <= n <= ps.len(),
    ensures
        live_count(hit_survivors_upto(b, ps, n), id) + live_count(hit_victims_upto(b, ps, n), id)
            == live_count(ps.take(n), id),
    decreases n,
{
    if n == 0 {
        assert(ps.take(0) =~= Seq::<PlayerState>::empty());
    } else {
        lemma_hit_partition(b, ps, id, n - 1);
        lemma_live_count_take_succ(ps, id, n - 1);
        if bullet_hits_player(b, ps[n - 1]) {
            lemma_live_count_push(hit_victims_upto(b, ps, n - 1), ps[n - 1], id);
        } else {
            lemma_live_count_push(hit_survivors_upto(b, ps, n - 1), ps[n - 1], id);
        }
    }
}

/// The whole bullet pass splits every id's live count between the players
/// still standing and the accumulated victims.
pub proof fn lemma_bp_partition(bs: Seq<BulletState>, ps: Seq<PlayerState>, id: u32, k: int)
    requires
        0 <= k,
    ensures
        live_count(bp_players(bs, ps, k), id) + live_count(bp_victims(bs, ps, k), id)
            == live_count(ps, id),
    decreases k,
{
    if k > 0 {
        lemma_bp_partition(bs, ps, id, k - 1);
        let prev = bp_players(bs, ps, k - 1);
        lemma_hit_partition(bs[k - 1], prev, id, prev.len() as int);
        assert(prev.take(prev.len() as int) =~= prev);
        lemma_live_count_concat(
            bp_victims(bs, ps, k - 1),
            hit_victims_upto(bs[k - 1], prev, prev.len() as int),
            id,
        );
    }
}

/// Culling only removes bullets.
pub proof fn lemma_kept_count_le(bs: Seq<BulletState>, c: GameConfig, id: u32, n: int)
    requires
        0 <= n <= bs.len(),
    ensures
        count_owned(kept_bullets_upto(bs, c, n), id) <= count_owned(bs.take(n), id),
    decreases n,
{
    if n == 0 {
        assert(bs.take(0) =~= Seq::<BulletState>::empty());
    } else {
        lemma_kept_count_le(bs, c, id, n - 1);
        lemma_count_owned_take_succ(bs, id, n - 1);
        if in_cull_range(bs[n - 1], c) {
            lemma_count_owned_push(kept_bullets_upto(bs, c, n - 1), bs[n - 1], id);
        }
    }
}

/// Mutual bullet destruction only removes bullets.
pub proof fn lemma_bb_count_le(bs: Seq<BulletState>, id: u32, n: int)
    requires
        0 <= n <= bs.len(),
    ensures
        count_owned(bb_survivors_upto(bs, n), id) <= count_owned(bs.take(n), id),
    decreases n,
{
    if n == 0 {
        assert(bs.take(0) =~= Seq::<BulletState>::empty());
    } else {
        lemma_bb_count_le(bs, id, n - 1);
        lemma_count_owned_take_succ(bs, id, n - 1);
        if bullet_clear(bs, n - 1) {
            lemma_count_owned_push(bb_survivors_upto(bs, n - 1), bs[n - 1], id);
        }
    }
}

/// Removing used bullets only removes bullets.
pub proof fn lemma_bp_kept_count_le(
    bs: Seq<BulletState>,
    ps: Seq<PlayerState>,
    id: u32,
    n: int,
)
    requires
        0 <= n <= bs.len(),
    ensures
        count_owned(bp_kept_upto(bs, ps, n), id) <= count_owned(bs.take(n), id),
    decreases n,
{
    if n == 0 {
        assert(bs.take(0) =~= Seq::<BulletState>::empty());
    } else {
        lemma_bp_kept_count_le(bs, ps, id, n - 1);
        lemma_count_owned_take_succ(bs, id, n - 1);
        if !bullet_used(bs, ps, n - 1) {
            lemma_count_owned_push(bp_kept_upto(bs, ps, n - 1), bs[n - 1], id);
        }
    }
}

/// A disconnect only removes live players.
pub proof fn lemma_players_except_count_le(ps: Seq<PlayerState>, id: u32, id2: u32, n: int)
    requires
        0 <= n <= ps.len(),
    ensures
        live_count(players_except_upto(ps, id, n), id2) <= live_count(ps.take(n), id2),
    decreases n,
{
    if n == 0 {
        assert(ps.take(0) =~= Seq::<PlayerState>::empty());
    } else {
        lemma_players_except_count_le(ps, id, id2, n - 1);
        lemma_live_count_take_succ(ps, id2, n - 1);
        if ps[n - 1].id != id {
            lemma_live_count_push(players_except_upto(ps, id, n - 1), ps[n - 1], id2);
        }
    }
}

/// A disconnect only removes corpses.
pub proof fn lemma_dead_except_count_le(ds: Seq<DeadPlayer>, id: u32, id2: u32, n: int)
    requires
        0 <= n <= ds.len(),
    ensures
        dead_count(dead_except_upto(ds, id, n), id2) <= dead_count(ds.take(n), id2),
    decreases n,
{
    if n == 0 {
        assert(ds.take(0) =~= Seq::<DeadPlayer>::empty());
    } else {
        lemma_dead_except_count_le(ds, id, id2, n - 1);
        lemma_dead_count_take_succ(ds, id2, n - 1);
        if ds[n - 1].player.id != id {
            lemma_dead_count_push(dead_except_upto(ds, id, n - 1), ds[n - 1], id2);
        }
    }
}

/// Fresh corpses carry exactly the ids of the players they bury.
pub proof fn lemma_matching_dead_counts(cs: Seq<DeadPlayer>, vs: Seq<PlayerState>, id: u32)
    requires
        cs.len() == vs.len(),
        forall|i: int| 0 <= i < cs.len() ==> cs[i].player.id == vs[i].id,
    ensures
        dead_count(cs, id) == live_count(vs, id),
    decreases cs.len(),
{
    if cs.len() > 0 {
        lemma_matching_dead_counts(cs.drop_last(), vs.drop_last(), id);
    }
}

// ---------------------------------------------------------------------------
// Well-formedness carried through the steps
// ---------------------------------------------------------------------------
pub proof fn lemma_revive_ok(ds: Seq<DeadPlayer>, now: int, n: int, c: GameConfig)
    requires
        0 <= n <= ds.len(),
        forall|i: int| 0 <= i < ds.len() ==> corpse_ok(#[trigger] ds[i], c),
    ensures
        forall|k: int|
            0 <= k < revived_upto(ds, now, n).len() ==> player_ok(
                #[trigger] revived_upto(ds, now, n)[k],
                c,
            ),
        forall|k: int|
            0 <= k < dead_stay_upto(ds, now, n).len() ==> corpse_ok(
                #[trigger] dead_stay_upto(ds, now, n)[k],
                c,
            ),
        forall|k: int|
            0 <= k < dead_stay_upto(ds, now, n).len() ==> (#[trigger] dead_stay_upto(
                ds,
                now,
                n,
            )[k]).respawn as int > now,
    decreases n,
{
    if n > 0 {
        lemma_revive_ok(ds, now, n - 1, c);
        if ds[n - 1].respawn as int <= now {
            assert(revived_upto(ds, now, n) == revived_upto(ds, now, n - 1).push(
                ds[n - 1].player,
            ));
            assert(dead_stay_upto(ds, now, n) == dead_stay_upto(ds, now, n - 1));
        } else {
            assert(dead_stay_upto(ds, now, n) == dead_stay_upto(ds, now, n - 1).push(ds[n - 1]));
            assert(revived_upto(ds, now, n) == revived_upto(ds, now, n - 1));
        }
    }
}

pub proof fn lemma_kept_bullets_ok(bs: Seq<BulletState>, c: GameConfig, n: int)
    requires
        0 <= n <= bs.len(),
        forall|i: int|
            0 <= i < bs.len() ==> crate::models::dir_ok(
                (#[trigger] bs[i]).dir_x as int,
                bs[i].dir_y as int,
            ),
    ensures
        forall|k: int|
            0 <= k < kept_bullets_upto(bs, c, n).len() ==> crate::models::dir_ok(
                (#[trigger] kept_bullets_upto(bs, c, n)[k]).dir_x as int,
                kept_bullets_upto(bs, c, n)[k].dir_y as int,
            ) && in_cull_range(kept_bullets_upto(bs, c, n)[k], c),
    decreases n,
{
    if n > 0 {
        lemma_kept_bullets_ok(bs, c, n - 1);
        if in_cull_range(bs[n - 1], c) {
            assert(kept_bullets_upto(bs, c, n) == kept_bullets_upto(bs, c, n - 1).push(bs[n - 1]));
        }
    }
}

pub proof fn lemma_bb_survivors_ok(bs: Seq<BulletState>, c: GameConfig, n: int)
    requires
        0 <= n <= bs.len(),
        forall|i: int|
            0 <= i < bs.len() ==> bullet_ok(#[trigger] bs[i], c) && in_cull_range(bs[i], c),
    ensures
        forall|k: int|
            0 <= k < bb_survivors_upto(bs, n).len() ==> bullet_ok(
                #[trigger] bb_survivors_upto(bs, n)[k],
                c,
            ) && in_cull_range(bb_survivors_upto(bs, n)[k], c),
    decreases n,
{
    if n > 0 {
        lemma_bb_survivors_ok(bs, c, n - 1);
        if bullet_clear(bs, n - 1) {
            assert(bb_survivors_upto(bs, n) == bb_survivors_upto(bs, n - 1).push(bs[n - 1]));
        }
    }
}

pub proof fn lemma_pp_split_ok(ps: Seq<PlayerState>, c: GameConfig, n: int)
    requires
        0 <= n <= ps.len(),
        forall|i: int| 0 <= i < ps.len() ==> player_ok(#[trigger] ps[i], c),
    ensures
        forall|k: int|
            0 <= k < pp_survivors_upto(ps, n).len() ==> player_ok(
                #[trigger] pp_survivors_upto(ps, n)[k],
                c,
            ),
        forall|k: int|
            0 <= k < pp_victims_upto(ps, n).len() ==> player_ok(
                #[trigger] pp_victims_upto(ps, n)[k],
                c,
            ),
    decreases n,
{
    if n > 0 {
        lemma_pp_split_ok(ps, c, n - 1);
        if player_clear(ps, n - 1) {
            assert(pp_survivors_upto(ps, n) == pp_survivors_upto(ps, n - 1).push(ps[n - 1]));
            assert(pp_victims_upto(ps, n) == pp_victims_upto(ps, n - 1));
        } else {
            assert(pp_victims_upto(ps, n) == pp_victims_upto(ps, n - 1).push(ps[n - 1]));
            assert(pp_survivors_upto(ps, n) == pp_survivors_upto(ps, n - 1));
        }
    }
}

pub proof fn lemma_hit_split_ok(b: BulletState, ps: Seq<PlayerState>, c: GameConfig, n: int)
    requires
        0 <= n <= ps.len(),
        forall|i: int| 0 <= i < ps.len() ==> player_ok(#[trigger] ps[i], c),
    ensures
        forall|k: int|
            0 <= k < hit_survivors_upto(b, ps, n).len() ==> player_ok(
                #[trigger] hit_survivors_upto(b, ps, n)[k],
                c,
            ),
        forall|k: int|
            0 <= k < hit_victims_upto(b, ps, n).len() ==> player_ok(
                #[trigger] hit_victims_upto(b, ps, n)[k],
                c,
            ),
    decreases n,
{
    if n > 0 {
        lemma_hit_split_ok(b, ps, c, n - 1);
        if bullet_hits_player(b, ps[n - 1]) {
            assert(hit_victims_upto(b, ps, n) == hit_victims_upto(b, ps, n - 1).push(ps[n - 1]));
            assert(hit_survivors_upto(b, ps, n) == hit_survivors_upto(b, ps, n - 1));
        } else {
            assert(hit_survivors_upto(b, ps, n) == hit_survivors_upto(b, ps, n - 1).push(
                ps[n - 1],
            ));
            assert(hit_victims_upto(b, ps, n) == hit_victims_upto(b, ps, n - 1));
        }
    }
}

pub proof fn lemma_bp_players_ok(
    bs: Seq<BulletState>,
    ps: Seq<PlayerState>,
    c: GameConfig,
    k: int,
)
    requires
        0 <= k,
        forall|i: int| 0 <= i < ps.len() ==> player_ok(#[trigger] ps[i], c),
    ensures
        forall|i: int|
            0 <= i < bp_players(bs, ps, k).len() ==> player_ok(
                #[trigger] bp_players(bs, ps, k)[i],
                c,
            ),
        forall|i: int|
            0 <= i < bp_victims(bs, ps, k).len() ==> player_ok(
                #[trigger] bp_victims(bs, ps, k)[i],
                c,
            ),
    decreases k,
{
    if k > 0 {
        lemma_bp_players_ok(bs, ps, c, k - 1);
        let prev = bp_players(bs, ps, k - 1);
        lemma_hit_split_ok(bs[k - 1], prev, c, prev.len() as int);
        assert(bp_players(bs, ps, k) == hit_survivors_upto(bs[k - 1], prev, prev.len() as int));
        assert(bp_victims(bs, ps, k) == bp_victims(bs, ps, k - 1) + hit_victims_upto(
            bs[k - 1],
            prev,
            prev.len() as int,
        ));
    }
}

pub proof fn lemma_bp_kept_ok(
    bs: Seq<BulletState>,
    ps: Seq<PlayerState>,
    c: GameConfig,
    n: int,
)
    requires
        0 <= n <= bs.len(),
        forall|i: int|
            0 <= i < bs.len() ==> bullet_ok(#[trigger] bs[i], c) && in_cull_range(bs[i], c),
    ensures
        forall|k: int|
            0 <= k < bp_kept_upto(bs, ps, n).len() ==> bullet_ok(
                #[trigger] bp_kept_upto(bs, ps, n)[k],
                c,
            ) && in_cull_range(bp_kept_upto(bs, ps, n)[k], c),
    decreases n,
{
    if n > 0 {
        lemma_bp_kept_ok(bs, ps, c, n - 1);
        if !bullet_used(bs, ps, n - 1) {
            assert(bp_kept_upto(bs, ps, n) == bp_kept_upto(bs, ps, n - 1).push(bs[n - 1]));
        }
    }
}

pub proof fn lemma_players_except_ok(ps: Seq<PlayerState>, id: u32, c: GameConfig, n: int)
    requires
        0 <= n <= ps.len(),
        forall|i: int| 0 <= i < ps.len() ==> player_ok(#[trigger] ps[i], c),
    ensures
        forall|k: int|
            0 <= k < players_except_upto(ps, id, n).len() ==> player_ok(
                #[trigger] players_except_upto(ps, id, n)[k],
                c,
            ),
    decreases n,
{
    if n > 0 {
        lemma_players_except_ok(ps, id, c, n - 1);
        if ps[n - 1].id != id {
            assert(players_except_upto(ps, id, n) == players_except_upto(ps, id, n - 1).push(
                ps[n - 1],
            ));
        }
    }
}

pub proof fn lemma_dead_except_ok(ds: Seq<DeadPlayer>, id: u32, c: GameConfig, n: int)
    requires
        0 <= n <= ds.len(),
        forall|i: int| 0 <= i < ds.len() ==> corpse_ok(#[trigger] ds[i], c),
    ensures
        forall|k: int|
            0 <= k < dead_except_upto(ds, id, n).len() ==> corpse_ok(
                #[trigger] dead_except_upto(ds, id, n)[k],
                c,
            ),
    decreases n,
{
    if n > 0 {
        lemma_dead_except_ok(ds, id, c, n - 1);
        if ds[n - 1].player.id != id {
            assert(dead_except_upto(ds, id, n) == dead_except_upto(ds, id, n - 1).push(ds[n - 1]));
        }
    }
}

} // verus!
