//! The engine's cross-cutting guarantees, stated and proved over the
//! resolver specifications.

use vstd::prelude::*;

use crate::enemy::Enemy;
use crate::loot::Pickup;
use crate::world::{
    alive_enemies, apply_collect_event, collect_at, damage_fold, damage_target, dead_enemies,
    find_id, lemma_collect_event_wf, lemma_damage_fold_frame, lemma_find_id,
    lemma_spawned_pickups, spec_pickup_kind, spec_resolve_deaths, ContactEvent, WorldView,
};

verus! {

/// How many events of a batch damage the enemy at roster index `i`. The
/// classification is stable across the batch, because damage never changes
/// ids, rosters or weapons.
pub open spec fn hits_on(w: WorldView, evs: Seq<ContactEvent>, i: int) -> nat
    decreases evs.len(),
{
    if evs.len() == 0 {
        0
    } else {
        hits_on(w, evs.drop_last(), i) + (if damage_target(w, evs.last()) == i {
            1nat
        } else {
            0nat
        })
    }
}

/// Cumulative damage: over one batch, an enemy's health drops by exactly
/// one hit's damage for every event naming it — damage is additive, never
/// capped per tick — so the total reduction is the hit count times the
/// damage per hit, saturating only at the bottom of the `i64` range.
pub proof fn lemma_cumulative_damage(w: WorldView, d: int, evs: Seq<ContactEvent>, i: int)
    requires
        0 <= i < w.enemies.len(),
        d >= 0,
    ensures
        damage_fold(w, d, evs).enemies[i].health == crate::math::clamped_sub(
            w.enemies[i].health as int,
            hits_on(w, evs, i) * d,
        ),
    decreases evs.len(),
{
    if evs.len() == 0 {
        assert(hits_on(w, evs, i) == 0);
        assert(hits_on(w, evs, i) * d == 0) by (nonlinear_arith)
            requires
                hits_on(w, evs, i) == 0,
        ;
        assert(damage_fold(w, d, evs) == w);
        assert(crate::math::clamped_sub(w.enemies[i].health as int, 0) == w.enemies[i].health);
    } else {
        lemma_cumulative_damage(w, d, evs.drop_last(), i);
        let wmid = damage_fold(w, d, evs.drop_last());
        let wlast = damage_fold(w, d, evs);
        let ev = evs.last();
        lemma_damage_fold_frame(w, d, evs.drop_last());
        assert(wmid.enemies.len() == w.enemies.len());
        assert(wmid.enemy_ids() =~= w.enemy_ids()) by {
            assert(forall|k: int|
                0 <= k < w.enemies.len() ==> (#[trigger] wmid.enemies[k]).id == w.enemies[k].id);
        }
        assert(damage_target(wmid, ev) == damage_target(w, ev));
        let t = damage_target(w, ev);
        let h = hits_on(w, evs.drop_last(), i);
        assert(h * d >= 0) by (nonlinear_arith)
            requires
                d >= 0,
        ;
        lemma_find_id(wmid.enemy_ids(), ev.a);
        lemma_find_id(wmid.enemy_ids(), ev.b);
        assert(hits_on(w, evs, i) == h + (if t == i { 1nat } else { 0nat }));
        if t == -1 {
            assert(wlast == wmid);
            assert(hits_on(w, evs, i) == h);
        } else if t == i {
            assert(wlast.enemies[i].health == crate::math::clamped_sub(
                wmid.enemies[i].health as int,
                d,
            ));
            assert((h + 1) * d == h * d + d) by (nonlinear_arith);
            crate::math::lemma_clamped_sub_chain(w.enemies[i].health as int, h * d, d);
        } else {
            assert(wlast.enemies[i] == wmid.enemies[i]);
            assert(hits_on(w, evs, i) == h);
        }
    }
}

/// Every surviving enemy has health above zero.
pub proof fn lemma_alive_positive(es: Seq<Enemy>)
    ensures
        forall|j: int|
            0 <= j < alive_enemies(es).len() ==> (#[trigger] alive_enemies(es)[j]).health > 0,
    decreases es.len(),
{
    if es.len() > 0 {
        lemma_alive_positive(es.drop_last());
        let rest = alive_enemies(es.drop_last());
        assert forall|j: int|
            0 <= j < alive_enemies(es).len() implies (#[trigger] alive_enemies(es)[j]).health
            > 0 by {
            if j < rest.len() {
                assert(alive_enemies(es)[j] == rest[j]);
            } else {
                assert(alive_enemies(es)[j] == es.last());
            }
        }
    }
}

/// An enemy survives a death pass exactly when its health is above zero:
/// the death resolver removes an actor if and only if its cumulative
/// damage brought it to zero or below.
pub proof fn lemma_removed_iff_dead(es: Seq<Enemy>, i: int)
    requires
        0 <= i < es.len(),
    ensures
        alive_enemies(es).contains(es[i]) <==> es[i].health > 0,
    decreases es.len(),
{
    lemma_alive_positive(es);
    let rest = alive_enemies(es.drop_last());
    if i == es.len() - 1 {
        if es[i].health > 0 {
            assert(alive_enemies(es) == rest.push(es.last()));
            assert(alive_enemies(es)[rest.len() as int] == es[i]);
        }
    } else {
        assert(es.drop_last()[i] == es[i]);
        lemma_removed_iff_dead(es.drop_last(), i);
        if es[i].health > 0 {
            let j = choose|j: int| 0 <= j < rest.len() && rest[j] == es[i];
            assert(alive_enemies(es)[j] == es[i]);
        }
    }
}

/// One death, one pickup: a death pass removes exactly the dead enemies
/// and spawns exactly one pickup per death — never zero, never two. The
/// pickup for the `j`-th death carries a fresh id, sits at that enemy's
/// last position, and is a health pack exactly when its loot roll came up,
/// an experience gem otherwise.
pub proof fn lemma_one_pickup_per_death(w: WorldView, rolls: Seq<bool>)
    requires
        w.next_id + dead_enemies(w.enemies).len() <= u64::MAX,
    ensures
        spec_resolve_deaths(w, rolls).enemies == alive_enemies(w.enemies),
        spec_resolve_deaths(w, rolls).pickups.len() == w.pickups.len() + dead_enemies(
            w.enemies,
        ).len(),
        forall|j: int|
            0 <= j < dead_enemies(w.enemies).len()
                ==> #[trigger] spec_resolve_deaths(w, rolls).pickups[w.pickups.len() + j]
                == (Pickup {
                id: (w.next_id + j) as u64,
                kind: spec_pickup_kind(rolls[j]),
                pos: dead_enemies(w.enemies)[j].pos,
            }),
{
    lemma_spawned_pickups(dead_enemies(w.enemies), rolls, w.next_id as int);
}

/// Idempotence under duplicate delivery: once a contact event has been
/// applied, applying the same event again changes nothing — the collected
/// pickup is gone, so the duplicate matches no pickup and is skipped. No
/// effect is applied twice and the pickup roster never goes negative.
pub proof fn lemma_collect_event_idempotent(w: WorldView, ev: ContactEvent)
    requires
        w.wf(),
    ensures
        apply_collect_event(apply_collect_event(w, ev), ev) == apply_collect_event(w, ev),
{
    let w1 = apply_collect_event(w, ev);
    lemma_collect_event_wf(w, ev);
    lemma_find_id(w.pickup_ids(), ev.a);
    lemma_find_id(w.pickup_ids(), ev.b);
    let ta = find_id(w.pickup_ids(), ev.a);
    let tb = find_id(w.pickup_ids(), ev.b);
    if ta != -1 && ev.b == w.player_id {
        lemma_collected_id_gone(w, ta, ev.a);
        assert(find_id(w1.pickup_ids(), ev.a) == -1) by {
            lemma_find_id(w1.pickup_ids(), ev.a);
        }
        assert(find_id(w1.pickup_ids(), ev.b) == -1) by {
            lemma_find_id(w1.pickup_ids(), ev.b);
        }
    } else if ta == -1 && tb != -1 && ev.a == w.player_id {
        lemma_collected_id_gone(w, tb, ev.b);
        assert(find_id(w1.pickup_ids(), ev.b) == -1) by {
            lemma_find_id(w1.pickup_ids(), ev.b);
        }
        assert(find_id(w1.pickup_ids(), ev.a) == -1) by {
            lemma_find_id(w1.pickup_ids(), ev.a);
        }
    }
}

/// After collecting the pickup at index `t`, no live pickup carries its id
/// any more, nor the player's id.
proof fn lemma_collected_id_gone(w: WorldView, t: int, id: u64)
    requires
        w.wf(),
        0 <= t < w.pickups.len(),
        w.pickups[t].id == id,
    ensures
        forall|k: int|
            0 <= k < collect_at(w, t).pickups.len()
                ==> (#[trigger] collect_at(w, t).pickups[k]).id != id,
        forall|k: int|
            0 <= k < collect_at(w, t).pickups.len()
                ==> (#[trigger] collect_at(w, t).pickups[k]).id != w.player_id,
{
    let nv = collect_at(w, t);
    assert(forall|k: int|
        0 <= k < nv.pickups.len() ==> nv.pickups[k] == w.pickups[if k < t {
            k
        } else {
            k + 1
        }]);
}

} // verus!
