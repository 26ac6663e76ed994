//! Id-keyed tables stored as association vectors: the scoreboard and the
//! survival clocks. Lookup goes to the first entry with the key; updates
//! rewrite that entry or append a fresh one.

use vstd::prelude::*;
use crate::models::IdValue;

verus! {

/// Index of the first entry with key `id`, or -1 when absent.
pub open spec fn idx_of_id(s: Seq<IdValue>, id: u32) -> int
    decreases s.len(),
{
    if s.len() == 0 {
        -1
    } else if s[0].id == id {
        0
    } else {
        let r = idx_of_id(s.drop_first(), id);
        if r == -1 {
            -1
        } else {
            r + 1
        }
    }
}

pub open spec fn has_id(s: Seq<IdValue>, id: u32) -> bool {
    idx_of_id(s, id) >= 0
}

/// The value stored under `id`, or 0 when absent.
pub open spec fn val_of(s: Seq<IdValue>, id: u32) -> u64 {
    if has_id(s, id) {
        s[idx_of_id(s, id)].val
    } else {
        0
    }
}

/// One scoring event: saturating increment.
pub open spec fn bump_val(v: u64) -> u64 {
    if v < u64::MAX {
        (v + 1) as u64
    } else {
        v
    }
}

/// The table after one scoring event for `id`: the first entry with that
/// key is incremented, or a fresh entry with value 1 is appended.
pub open spec fn bump(s: Seq<IdValue>, id: u32) -> Seq<IdValue> {
    if has_id(s, id) {
        s.update(idx_of_id(s, id), IdValue { id, val: bump_val(s[idx_of_id(s, id)].val) })
    } else {
        s.push(IdValue { id, val: 1 })
    }
}

/// The table with the entry for `id` set to `v` (updated or appended).
pub open spec fn set_val(s: Seq<IdValue>, id: u32, v: u64) -> Seq<IdValue> {
    if has_id(s, id) {
        s.update(idx_of_id(s, id), IdValue { id, val: v })
    } else {
        s.push(IdValue { id, val: v })
    }
}

/// The table without any entry keyed `id`.
pub open spec fn entries_except_upto(s: Seq<IdValue>, id: u32, n: int) -> Seq<IdValue>
    decreases n,
{
    if n <= 0 {
        Seq::empty()
    } else {
        let rest = entries_except_upto(s, id, n - 1);
        if s[n - 1].id == id {
            rest
        } else {
            rest.push(s[n - 1])
        }
    }
}

/// The scoreboard after crediting one point per entry of `hits`, in order.
pub open spec fn apply_hits(scores: Seq<IdValue>, hits: Seq<u32>) -> Seq<IdValue>
    decreases hits.len(),
{
    if hits.len() == 0 {
        scores
    } else {
        apply_hits(bump(scores, hits[0]), hits.drop_first())
    }
}

/// The survival pass over the clock table: every elapsed entry is pushed
/// `interval` past `now` and earns its player one point, in table order.
pub open spec fn award_scores(surv: Seq<IdValue>, scores: Seq<IdValue>, now: int) -> Seq<IdValue>
    decreases surv.len(),
{
    if surv.len() == 0 {
        scores
    } else {
        award_scores(
            surv.drop_first(),
            if surv[0].val as int <= now {
                bump(scores, surv[0].id)
            } else {
                scores
            },
            now,
        )
    }
}

/// Unfolds `award_scores` one clock entry at a time, front first.
pub proof fn lemma_award_step(surv: Seq<IdValue>, scores: Seq<IdValue>, now: int, n: int)
    requires
        0 <= n < surv.len(),
    ensures
        award_scores(surv.skip(n), scores, now) == award_scores(
            surv.skip(n + 1),
            if surv[n].val as int <= now {
                bump(scores, surv[n].id)
            } else {
                scores
            },
            now,
        ),
{
    assert(surv.skip(n).drop_first() =~= surv.skip(n + 1));
    assert(surv.skip(n)[0] == surv[n]);
}

/// Survival bonuses never lower any score.
pub proof fn lemma_award_monotone(surv: Seq<IdValue>, scores: Seq<IdValue>, now: int, id: u32)
    ensures
        val_of(award_scores(surv, scores, now), id) >= val_of(scores, id),
    decreases surv.len(),
{
    if surv.len() > 0 {
        if surv[0].val as int <= now {
            lemma_bump_effect(scores, surv[0].id, id);
            lemma_award_monotone(surv.drop_first(), bump(scores, surv[0].id), now, id);
        } else {
            lemma_award_monotone(surv.drop_first(), scores, now, id);
        }
    }
}

/// The basic shape of `idx_of_id`: it is a valid index of an entry with the
/// key, the first such, and -1 exactly when no entry has the key.
pub proof fn lemma_idx_props(s: Seq<IdValue>, id: u32)
    ensures
        -1 <= idx_of_id(s, id) < s.len(),
        idx_of_id(s, id) >= 0 ==> s[idx_of_id(s, id)].id == id,
        forall|k: int| 0 <= k < s.len() && s[k].id == id ==> idx_of_id(s, id) >= 0,
        idx_of_id(s, id) >= 0 ==> forall|k: int|
            0 <= k < idx_of_id(s, id) ==> s[k].id != id,
    decreases s.len(),
{
    if s.len() > 0 && s[0].id != id {
        lemma_idx_props(s.drop_first(), id);
        assert(forall|k: int|
            0 <= k < s.len() && s[k].id == id ==> 0 <= k - 1 < s.drop_first().len()
                && s.drop_first()[k - 1].id == id);
    }
}

/// Updating an entry in place (keeping its key) does not move any key.
pub proof fn lemma_idx_update(s: Seq<IdValue>, i: int, e: IdValue, id: u32)
    requires
        0 <= i < s.len(),
        e.id == s[i].id,
    ensures
        idx_of_id(s.update(i, e), id) == idx_of_id(s, id),
    decreases s.len(),
{
    if s.len() > 0 {
        if i == 0 {
            assert(s.update(0, e).drop_first() =~= s.drop_first());
        } else if s[0].id != id {
            assert(s.update(i, e).drop_first() =~= s.drop_first().update(i - 1, e));
            lemma_idx_update(s.drop_first(), i - 1, e, id);
        }
    }
}

/// Appending an entry leaves present keys where they were, and puts an
/// absent key at the end.
pub proof fn lemma_idx_push(s: Seq<IdValue>, e: IdValue, id: u32)
    ensures
        has_id(s, id) ==> idx_of_id(s.push(e), id) == idx_of_id(s, id),
        !has_id(s, id) && e.id == id ==> idx_of_id(s.push(e), id) == s.len(),
        !has_id(s, id) && e.id != id ==> !has_id(s.push(e), id),
    decreases s.len(),
{
    if s.len() > 0 {
        assert(s.push(e).drop_first() =~= s.drop_first().push(e));
        lemma_idx_push(s.drop_first(), e, id);
    } else {
        assert(s.push(e).drop_first() =~= Seq::<IdValue>::empty());
        assert(idx_of_id(Seq::<IdValue>::empty(), id) == -1);
        assert(s.push(e)[0] == e);
    }
}

/// What `bump` does to every key: the bumped key gains exactly one
/// (saturating), every other key keeps its value.
pub proof fn lemma_bump_effect(s: Seq<IdValue>, id: u32, other: u32)
    ensures
        val_of(bump(s, id), id) == bump_val(val_of(s, id)),
        other != id ==> val_of(bump(s, id), other) == val_of(s, other),
        other != id ==> has_id(bump(s, id), other) == has_id(s, other),
        has_id(bump(s, id), id),
{
    lemma_idx_props(s, id);
    lemma_idx_props(s, other);
    if has_id(s, id) {
        let i = idx_of_id(s, id);
        lemma_idx_update(s, i, IdValue { id, val: bump_val(s[i].val) }, id);
        lemma_idx_update(s, i, IdValue { id, val: bump_val(s[i].val) }, other);
    } else {
        lemma_idx_push(s, IdValue { id, val: 1 }, id);
        lemma_idx_push(s, IdValue { id, val: 1 }, other);
    }
}

/// Crediting hits never lowers any score.
pub proof fn lemma_apply_hits_monotone(scores: Seq<IdValue>, hits: Seq<u32>, id: u32)
    ensures
        val_of(apply_hits(scores, hits), id) >= val_of(scores, id),
    decreases hits.len(),
{
    if hits.len() > 0 {
        lemma_bump_effect(scores, hits[0], id);
        lemma_apply_hits_monotone(bump(scores, hits[0]), hits.drop_first(), id);
    }
}

/// Unfolds `apply_hits` one hit at a time, front first.
pub proof fn lemma_apply_hits_step(scores: Seq<IdValue>, hits: Seq<u32>, n: int)
    requires
        0 <= n < hits.len(),
    ensures
        apply_hits(scores, hits.skip(n)) == apply_hits(
            bump(scores, hits[n]),
            hits.skip(n + 1),
        ),
{
    assert(hits.skip(n).drop_first() =~= hits.skip(n + 1));
    assert(hits.skip(n)[0] == hits[n]);
}

/// A first index found by a forward scan is `idx_of_id`.
pub proof fn lemma_idx_is_first(s: Seq<IdValue>, id: u32, i: int)
    requires
        0 <= i < s.len(),
        s[i].id == id,
        forall|k: int| 0 <= k < i ==> s[k].id != id,
    ensures
        idx_of_id(s, id) == i,
{
    lemma_idx_props(s, id);
    let r = idx_of_id(s, id);
    if r < i {
        assert(s[r].id == id);
    }
    if r > i {
        assert(s[i].id != id);
    }
}

/// A scan that found no key proves the key absent.
pub proof fn lemma_idx_none(s: Seq<IdValue>, id: u32)
    requires
        forall|k: int| 0 <= k < s.len() ==> s[k].id != id,
    ensures
        idx_of_id(s, id) == -1,
{
    lemma_idx_props(s, id);
    if idx_of_id(s, id) >= 0 {
        assert(s[idx_of_id(s, id)].id == id);
    }
}

} // verus!
