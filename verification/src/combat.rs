//! Objects that leave combat.

use vstd::prelude::*;
use crate::ids::ObjectId;
use crate::keyed::{lemma_filter_all, unlike, Table};
use crate::seqs::{lemma_filter_members, lemma_filter_next, lemma_filter_start};
use crate::state::{AttackerInfo, CombatModel, Game, GameState};
use crate::views::map_view;
use crate::zones::{gone_from, retain_others};

verus! {

broadcast use crate::views::group_views;

/// Being an attacker other than an object.
pub open spec fn attacker_unlike(id: ObjectId) -> spec_fn(AttackerInfo) -> bool {
    |a: AttackerInfo| a.object_id != id
}

/// Lists of objects without one object: neither has it a list, nor is it in one.
pub open spec fn lists_without(m: Map<ObjectId, Seq<ObjectId>>, id: ObjectId) -> Map<
    ObjectId,
    Seq<ObjectId>,
> {
    Map::new(|k: ObjectId| m.dom().contains(k) && k != id, |k: ObjectId| gone_from(m[k], id))
}

/// Combat without an object.
pub open spec fn combat_without(c: CombatModel, id: ObjectId) -> CombatModel {
    CombatModel {
        attackers: c.attackers.filter(attacker_unlike(id)),
        blocker_assignments: lists_without(c.blocker_assignments, id),
        blocker_to_attacker: lists_without(c.blocker_to_attacker, id),
    }
}

/// The game with an object taken out of combat.
pub open spec fn out_of_combat(g: Game, id: ObjectId) -> Game {
    match g.combat {
        Some(c) => Game { combat: Some(combat_without(c, id)), ..g },
        None => g,
    }
}

proof fn lemma_gone_twice(list: Seq<ObjectId>, id: ObjectId)
    ensures
        gone_from(gone_from(list, id), id) == gone_from(list, id),
{
    let s = gone_from(list, id);
    lemma_filter_members(list, unlike(id));
    assert forall|i: int| 0 <= i < s.len() implies unlike(id)(#[trigger] s[i]) by {
        assert(s.contains(s[i]));
    }
    lemma_filter_all(s, unlike(id));
}

fn clear_lists(t: &mut Table<ObjectId, Vec<ObjectId>>, id: ObjectId)
    ensures
        map_view(final(t)@) == lists_without(map_view(old(t)@), id),
{
    let ghost m0 = map_view(t@);
    let _ = t.remove(&id);
    let ghost order = t.order();
    proof {
        t.lemma_order();
    }
    let mut i: usize = 0;
    while i < t.len()
        invariant
            i <= order.len(),
            order == t.order(),
            order.len() == t.seq().len(),
            t@.dom() == m0.dom().remove(id),
            forall|k: ObjectId| #[trigger]
                t@.dom().contains(k) <==> exists|i: int|
                    0 <= i < order.len() && #[trigger] order[i] == k,
            forall|k: ObjectId|
                #![trigger map_view(t@)[k]]
                t@.dom().contains(k) ==> map_view(t@)[k] == m0[k] || map_view(t@)[k] == gone_from(
                    m0[k],
                    id,
                ),
            forall|j: int|
                0 <= j < i ==> map_view(t@)[#[trigger] order[j]] == gone_from(m0[order[j]], id),
        decreases order.len() - i,
    {
        let key = *t.key_at(i);
        let ghost before = map_view(t@);
        assert(order[i as int] == key);
        assert(t@.dom().contains(key));
        if let Some(list) = t.get_mut(&key) {
            retain_others(list, id);
        }
        proof {
            lemma_gone_twice(m0[key], id);
            assert(map_view(t@) == before.insert(key, gone_from(before[key], id)));
            assert(t@.dom() =~= m0.dom().remove(id));
            assert forall|j: int| 0 <= j < i + 1 implies map_view(t@)[#[trigger] order[j]]
                == gone_from(m0[order[j]], id) by {
                if order[j] != key {
                    assert(before[order[j]] == gone_from(m0[order[j]], id));
                }
            }
        }
        i += 1;
    }
    assert forall|k: ObjectId| #[trigger] map_view(t@).dom().contains(k) implies map_view(t@)[k]
        == gone_from(m0[k], id) by {
        assert(t@.dom().contains(k));
        let j = choose|j: int| 0 <= j < order.len() && #[trigger] order[j] == k;
        assert(map_view(t@)[order[j]] == gone_from(m0[order[j]], id));
    }
    assert(map_view(t@) =~= lists_without(m0, id));
}

fn clear_attackers(list: &mut Vec<AttackerInfo>, id: ObjectId)
    ensures
        final(list)@ == old(list)@.filter(attacker_unlike(id)),
{
    let ghost s = list@;
    let ghost keep = attacker_unlike(id);
    proof {
        lemma_filter_start(s, keep);
    }
    let mut out: Vec<AttackerInfo> = Vec::new();
    let mut i: usize = 0;
    while i < list.len()
        invariant
            i <= s.len(),
            s == list@,
            keep == attacker_unlike(id),
            out@ == s.take(i as int).filter(keep),
            s.take(s.len() as int) == s,
        decreases s.len() - i,
    {
        proof {
            lemma_filter_next(s, i as int, keep);
        }
        if list[i].object_id != id {
            out.push(list[i]);
        }
        i += 1;
    }
    *list = out;
}

/// Takes an object out of combat: it neither attacks nor blocks any more.
pub fn remove_object_from_combat(state: &mut GameState, object_id: ObjectId)
    ensures
        final(state)@ == out_of_combat(old(state)@, object_id),
{
    if let Some(c) = &mut state.combat {
        clear_attackers(&mut c.attackers, object_id);
        clear_lists(&mut c.blocker_assignments, object_id);
        clear_lists(&mut c.blocker_to_attacker, object_id);
    }
}

} // verus!
