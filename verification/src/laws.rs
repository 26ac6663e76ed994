//! The library-wide laws of the engine, each proved once and for all over
//! the spec-level definitions the engine contracts use.

use vstd::prelude::*;
use crate::game::Game;
use crate::geom::{bullets_overlap, overlaps, players_overlap};
use crate::models::{
    count_owned, live_count, player_in_bounds, BulletState, DeadPlayer, GameConfig, IdValue,
    PlayerState, MAX_CONCURRENT_BULLETS,
};
use crate::steps::{
    bb_survivors_upto, bullet_clear, dead_stay_upto, in_cull_range, kept_bullets_upto,
    player_clear, pp_victims_upto, revived_upto,
};
use crate::tables::{bump, bump_val, lemma_bump_effect, val_of};

verus! {

/// Every live player of a well-formed engine stays within
/// `[PLAYER_RADIUS, bound - PLAYER_RADIUS]` on both axes.
pub proof fn lemma_live_players_in_bounds(g: Game)
    requires
        g.wf(),
    ensures
        forall|i: int|
            0 <= i < g.state.players@.len() ==> player_in_bounds(
                #[trigger] g.state.players@[i],
                g.config,
            ),
{
}

/// No player of a well-formed engine ever has more than
/// `MAX_CONCURRENT_BULLETS` bullets in flight.
pub proof fn lemma_projectile_cap(g: Game, id: u32)
    requires
        g.wf(),
    ensures
        count_owned(g.state.bullets@, id) <= MAX_CONCURRENT_BULLETS as int,
{
}

/// A bullet that has left the bounds by one radius or more is not among
/// the bullets the cull step keeps.
pub proof fn lemma_cull_excludes(bs: Seq<BulletState>, c: GameConfig, n: int, b: BulletState)
    requires
        0 <= n <= bs.len(),
        !in_cull_range(b, c),
    ensures
        forall|k: int|
            0 <= k < kept_bullets_upto(bs, c, n).len() ==> kept_bullets_upto(bs, c, n)[k] != b,
    decreases n,
{
    if n > 0 {
        lemma_cull_excludes(bs, c, n - 1, b);
        if in_cull_range(bs[n - 1], c) {
            assert(kept_bullets_upto(bs, c, n) == kept_bullets_upto(bs, c, n - 1).push(
                bs[n - 1],
            ));
        }
    }
}

/// The circular overlap test does not depend on the order of the two
/// circles.
pub proof fn lemma_collision_symmetric(
    ax: int,
    ay: int,
    ar: int,
    bx: int,
    by: int,
    br: int,
)
    ensures
        overlaps(ax, ay, ar, bx, by, br) == overlaps(bx, by, br, ax, ay, ar),
{
    crate::geom::lemma_overlaps_symmetric(ax, ay, ar, bx, by, br);
}

/// When two distinct bullets overlap, the bullet-bullet resolution marks
/// both as colliding: both are destroyed, never exactly one.
pub proof fn lemma_mutual_bullet_destruction(bs: Seq<BulletState>, i: int, j: int)
    requires
        0 <= i < bs.len(),
        0 <= j < bs.len(),
        i != j,
        bullets_overlap(bs[i], bs[j]),
    ensures
        !bullet_clear(bs, i),
        !bullet_clear(bs, j),
        forall|k: int|
            0 <= k < bb_survivors_upto(bs, bs.len() as int).len() ==> bb_survivors_upto(
                bs,
                bs.len() as int,
            )[k] != bs[i] && bb_survivors_upto(bs, bs.len() as int)[k] != bs[j],
{
    crate::geom::lemma_overlaps_symmetric(
        bs[i].x as int,
        bs[i].y as int,
        crate::models::BULLET_RADIUS as int,
        bs[j].x as int,
        bs[j].y as int,
        crate::models::BULLET_RADIUS as int,
    );
    lemma_bb_excludes_overlapping(bs, bs.len() as int, i);
    lemma_bb_excludes_overlapping(bs, bs.len() as int, j);
}

/// The value of a colliding bullet never survives: any survivor equal to
/// it would overlap it (or be it), so it could not be clear.
proof fn lemma_bb_excludes_overlapping(bs: Seq<BulletState>, n: int, i: int)
    requires
        0 <= n <= bs.len(),
        0 <= i < bs.len(),
        !bullet_clear(bs, i),
    ensures
        forall|k: int|
            0 <= k < bb_survivors_upto(bs, n).len() ==> bb_survivors_upto(bs, n)[k] != bs[i],
    decreases n,
{
    if n > 0 {
        lemma_bb_excludes_overlapping(bs, n - 1, i);
        if bullet_clear(bs, n - 1) {
            assert(bb_survivors_upto(bs, n) == bb_survivors_upto(bs, n - 1).push(bs[n - 1]));
            if bs[n - 1] == bs[i] {
                assert(n - 1 != i);
                assert(!bullets_overlap(bs[n - 1], bs[i]));
                assert(bullets_overlap(bs[n - 1], bs[i])) by {
                    assert(bs[n - 1].x == bs[i].x && bs[n - 1].y == bs[i].y);
                }
                assert(false);
            }
        }
    }
}

/// When two distinct live players overlap, the player-player resolution
/// kills both, never exactly one: each of the two indices is marked
/// colliding and each contributes a victim.
pub proof fn lemma_mutual_player_destruction(ps: Seq<PlayerState>, i: int, j: int)
    requires
        0 <= i < ps.len(),
        0 <= j < ps.len(),
        i != j,
        players_overlap(ps[i], ps[j]),
    ensures
        !player_clear(ps, i),
        !player_clear(ps, j),
        pp_victims_upto(ps, ps.len() as int).contains(ps[i]),
        pp_victims_upto(ps, ps.len() as int).contains(ps[j]),
{
    crate::geom::lemma_overlaps_symmetric(
        ps[i].x as int,
        ps[i].y as int,
        crate::models::PLAYER_RADIUS as int,
        ps[j].x as int,
        ps[j].y as int,
        crate::models::PLAYER_RADIUS as int,
    );
    lemma_pp_victims_contains(ps, ps.len() as int, i);
    lemma_pp_victims_contains(ps, ps.len() as int, j);
}

/// Every index marked colliding contributes its player to the victims.
proof fn lemma_pp_victims_contains(ps: Seq<PlayerState>, n: int, i: int)
    requires
        0 <= i < n <= ps.len(),
        !player_clear(ps, i),
    ensures
        pp_victims_upto(ps, n).contains(ps[i]),
    decreases n,
{
    if i == n - 1 {
        assert(pp_victims_upto(ps, n) == pp_victims_upto(ps, n - 1).push(ps[n - 1]));
        assert(pp_victims_upto(ps, n).last() == ps[i]);
    } else {
        lemma_pp_victims_contains(ps, n - 1, i);
        let w = choose|w: int|
            0 <= w < pp_victims_upto(ps, n - 1).len() && #[trigger] pp_victims_upto(
                ps,
                n - 1,
            )[w] == ps[i];
        if player_clear(ps, n - 1) {
            assert(pp_victims_upto(ps, n)[w] == ps[i]);
        } else {
            assert(pp_victims_upto(ps, n) == pp_victims_upto(ps, n - 1).push(ps[n - 1]));
            assert(pp_victims_upto(ps, n)[w] == ps[i]);
        }
    }
}

/// The respawn step is exact: a corpse whose time has elapsed is revived,
/// one whose time has not stays buried, and nothing else changes hands.
pub proof fn lemma_respawn_split(ds: Seq<DeadPlayer>, now: int, n: int)
    requires
        0 <= n <= ds.len(),
    ensures
        revived_upto(ds, now, n).len() + dead_stay_upto(ds, now, n).len() == n,
        forall|k: int|
            0 <= k < dead_stay_upto(ds, now, n).len() ==> (#[trigger] dead_stay_upto(
                ds,
                now,
                n,
            )[k]).respawn as int > now,
        forall|k: int|
            0 <= k < n && ds[k].respawn as int <= now ==> revived_upto(ds, now, n).contains(
                #[trigger] ds[k].player,
            ),
        forall|k: int|
            0 <= k < n && ds[k].respawn as int > now ==> dead_stay_upto(ds, now, n).contains(
                #[trigger] ds[k],
            ),
    decreases n,
{
    if n > 0 {
        lemma_respawn_split(ds, now, n - 1);
        if ds[n - 1].respawn as int <= now {
            assert(revived_upto(ds, now, n) == revived_upto(ds, now, n - 1).push(
                ds[n - 1].player,
            ));
            assert(dead_stay_upto(ds, now, n) == dead_stay_upto(ds, now, n - 1));
            assert forall|k: int|
                0 <= k < n && ds[k].respawn as int <= now implies revived_upto(
                ds,
                now,
                n,
            ).contains(#[trigger] ds[k].player) by {
                if k < n - 1 {
                    let w = choose|w: int|
                        0 <= w < revived_upto(ds, now, n - 1).len() && #[trigger] revived_upto(
                            ds,
                            now,
                            n - 1,
                        )[w] == ds[k].player;
                    assert(revived_upto(ds, now, n)[w] == ds[k].player);
                } else {
                    assert(revived_upto(ds, now, n).last() == ds[k].player);
                }
            }
        } else {
            assert(dead_stay_upto(ds, now, n) == dead_stay_upto(ds, now, n - 1).push(
                ds[n - 1],
            ));
            assert(revived_upto(ds, now, n) == revived_upto(ds, now, n - 1));
            assert forall|k: int|
                0 <= k < n && ds[k].respawn as int > now implies dead_stay_upto(
                ds,
                now,
                n,
            ).contains(#[trigger] ds[k]) by {
                if k < n - 1 {
                    let w = choose|w: int|
                        0 <= w < dead_stay_upto(ds, now, n - 1).len() && #[trigger] dead_stay_upto(
                            ds,
                            now,
                            n - 1,
                        )[w] == ds[k];
                    assert(dead_stay_upto(ds, now, n)[w] == ds[k]);
                } else {
                    assert(dead_stay_upto(ds, now, n).last() == ds[k]);
                }
            }
        }
    }
}

/// One kill credits the shooter exactly one point (saturating at the
/// integer limit) and leaves every other score untouched.
pub proof fn lemma_kill_increments_score(s: Seq<IdValue>, shooter: u32, other: u32)
    requires
        other != shooter,
    ensures
        val_of(bump(s, shooter), shooter) == bump_val(val_of(s, shooter)),
        val_of(bump(s, shooter), other) == val_of(s, other),
{
    lemma_bump_effect(s, shooter, other);
}

/// A survival pass never pays twice within one interval: every clock the
/// pass touched (and every clock it left alone) ends strictly in the
/// future, so a pass run again before the interval elapses pays nothing.
pub proof fn lemma_no_double_bonus(surv: Seq<IdValue>, scores: Seq<IdValue>, now: int)
    requires
        forall|i: int| 0 <= i < surv.len() ==> (#[trigger] surv[i]).val as int > now,
    ensures
        crate::tables::award_scores(surv, scores, now) == scores,
    decreases surv.len(),
{
    if surv.len() > 0 {
        lemma_no_double_bonus(surv.drop_first(), scores, now);
        assert forall|i: int|
            0 <= i < surv.drop_first().len() implies (#[trigger] surv.drop_first()[i]).val
            as int > now by {
            assert(surv.drop_first()[i] == surv[i + 1]);
        }
    }
}

/// Scoreboard values never decrease across a tick: this is stated and
/// proved as a postcondition of `Game::tick`, restated here over its
/// scoring folds.
pub proof fn lemma_scores_nondecreasing(
    scores: Seq<IdValue>,
    hits: Seq<u32>,
    surv: Seq<IdValue>,
    now: int,
    id: u32,
)
    ensures
        val_of(
            crate::tables::award_scores(surv, crate::tables::apply_hits(scores, hits), now),
            id,
        ) >= val_of(scores, id),
{
    crate::tables::lemma_apply_hits_monotone(scores, hits, id);
    crate::tables::lemma_award_monotone(surv, crate::tables::apply_hits(scores, hits), now, id);
}

} // verus!
