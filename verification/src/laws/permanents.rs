//! What can be done with permanents: using planeswalkers, turning cards face down and up, giving
//! permanents up, phasing, leaving combat, tapping.

use vstd::prelude::*;
use crate::ability::{AbilityCost, AbilityDefinition, Effect, TargetRef};
use crate::cards::{kind_of, CoreType, CounterKind, Keyword, Zone};
use crate::combat::{attacker_unlike, out_of_combat};
use crate::effects::acted_on;
use crate::events::EventModel;
use crate::ids::{ObjectId, PlayerId};
use crate::keyed::unlike;
use crate::laws::zones::{a_move_between_lists, others};
use crate::mana::ManaCost;
use crate::morph::{
    face_down_refusal, face_up_refusal, is_morph, is_put_face_down, library_card, top_object,
    turned_face_up,
};
use crate::object::{ObjectModel, PhaseOutCause, PhaseStatus};
use crate::phasing::{
    all_out_of_combat, crosses, due_in, due_out, followers, follows, is_listed, phased_in,
    phased_out, phasing_in_with, phasing_out_told, phasing_out_with, restated, run_out,
    status_after, stepped, wave_from, Way,
};
use crate::planeswalker::{
    activation_told, announced, is_activated, loyalty_cost_of, loyalty_paid, may_activate,
    objection, targeting_told, to_be_targeted, Objection,
};
use crate::replacement::Processed;
use crate::sacrifice::{
    bears_on, given_up, giving_up_told, outcome_of, source_bears_on, under_static, SacrificeOutcome,
};
use crate::seqs::{lemma_filter_members, lemma_first_where};
use crate::speed::{has_engines, speed_of, starts_engines, with_speed};
use crate::state::{is_seat, lemma_seat, AttackerInfo, Game, PlayerModel};
use crate::zones::moved_objects_lie_where_they_were_put;
use crate::filter::{matches_filter, seen_from};

verus! {

/// A loyalty ability may be used by the one who controls the planeswalker, on the battlefield, in a
/// main phase of that player's own turn, while the stack is empty, and once a turn.
pub proof fn when_planeswalkers_are_used(g: Game, id: ObjectId, player: PlayerId)
    ensures
        may_activate(g, id, player) ==> g.objects.dom().contains(id),
        g.objects.dom().contains(id) ==> {
            let o = g.objects[id];
            may_activate(g, id, player) <==> o.zone is Battlefield
                && o.card_types.core_types.contains(CoreType::Planeswalker) && o.controller
                == player && !o.loyalty_activated_this_turn && g.active_player == player
                && g.stack.len() == 0 && (g.phase is PreCombatMain || g.phase is PostCombatMain)
        },
{
}

/// A loyalty ability that takes away more than there is cannot be used. Where it takes away no
/// more, loyalty is no objection.
pub proof fn loyalty_must_be_there(
    g: Game,
    player: PlayerId,
    id: ObjectId,
    index: usize,
    loyalty: u32,
    amount: i32,
)
    requires
        may_activate(g, id, player),
        index < g.objects[id].abilities.len(),
        g.objects[id].abilities[index as int].cost == Some(AbilityCost::Loyalty { amount }),
        g.objects[id].loyalty == Some(loyalty),
    ensures
        loyalty + amount < 0 ==> objection(g, player, id, index) is Some,
        loyalty + amount >= 0 && objection(g, player, id, index) is Some ==> objection(
            g,
            player,
            id,
            index,
        ) == Some(Objection::Forbidden("No legal targets available"@)),
{
    reveal_strlit("Not enough loyalty to activate ability");
    reveal_strlit("No legal targets available");
}

/// Using a loyalty ability changes the loyalty, and the number of loyalty counters, by what the
/// ability says, marks the planeswalker as used, and puts the ability on the stack.
pub proof fn loyalty_is_paid(
    g: Game,
    h: Game,
    player: PlayerId,
    id: ObjectId,
    index: usize,
    loyalty: u32,
    amount: i32,
    targets: Seq<TargetRef>,
)
    requires
        g.objects.dom().contains(id),
        index < g.objects[id].abilities.len(),
        g.objects[id].abilities[index as int].cost == Some(AbilityCost::Loyalty { amount }),
        g.objects[id].loyalty == Some(loyalty),
        0 <= loyalty + amount <= u32::MAX,
        is_activated(g, h, player, id, index, targets),
    ensures
        h.objects[id].loyalty == Some((loyalty + amount) as u32),
        h.objects[id].counters.dom().contains(CounterKind::Loyalty),
        h.objects[id].counters[CounterKind::Loyalty] == loyalty + amount,
        h.objects[id].loyalty_activated_this_turn,
        h.objects[id].power == g.objects[id].power && h.objects[id].zone == g.objects[id].zone,
        h.stack.len() == g.stack.len() + 1,
        h.stack.drop_last() == g.stack,
        h.stack.last().controller == player && h.stack.last().source_id == id,
        h.stack.last().id.0 == g.next_object_id,
        h.pending_activations == g.pending_activations.push((id, index)),
        h.players == g.players,
{
    assert(h.stack.drop_last() =~= g.stack);
}

/// A card that lies face down is a creature with power and toughness two, and nothing else: it has
/// no name, cost, colour, keyword or ability. Under it lies the face that the card had.
pub proof fn face_down_cards_are_two_two_creatures(g: Game, h: Game, id: ObjectId)
    requires
        g.objects.dom().contains(id),
        is_put_face_down(g, h, id),
    ensures
        ({
            let o = g.objects[id];
            let q = h.objects[id];
            &&& q.face_down && q.zone is Battlefield
            &&& q.name@ == ""@ && q.base_name@ == ""@
            &&& q.power == Some(2i32) && q.toughness == Some(2i32)
            &&& q.base_power == Some(2i32) && q.base_toughness == Some(2i32)
            &&& q.card_types.core_types == seq![CoreType::Creature]
            &&& q.card_types.subtypes.len() == 0 && q.card_types.supertypes.len() == 0
            &&& q.mana_cost == ManaCost::NoCost && q.base_mana_cost == ManaCost::NoCost
            &&& q.keywords.len() == 0 && q.base_keywords.len() == 0
            &&& q.abilities.len() == 0 && q.trigger_definitions.len() == 0
            &&& q.replacement_definitions.len() == 0 && q.static_definitions.len() == 0
            &&& q.color.len() == 0 && q.base_color.len() == 0
            &&& q.back_face is Some
            &&& q.back_face->0.name == o.name
            &&& q.back_face->0.power == o.power && q.back_face->0.toughness == o.toughness
            &&& q.back_face->0.loyalty == o.loyalty
            &&& q.back_face->0.card_types == o.card_types
            &&& q.back_face->0.mana_cost == o.mana_cost
            &&& q.back_face->0.keywords == o.keywords && q.back_face->0.abilities == o.abilities
            &&& q.back_face->0.color == o.color
            &&& q.owner == o.owner
        }),
{
    moved_objects_lie_where_they_were_put(g, id, Zone::Battlefield);
}

/// Turned face up, a permanent has what the hidden face says, and hides nothing any more.
pub proof fn turned_up_the_hidden_face_shows(g: Game, id: ObjectId)
    requires
        g.objects.dom().contains(id),
        g.objects[id].back_face is Some,
    ensures
        ({
            let b = g.objects[id].back_face->0;
            let q = turned_face_up(g, id).objects[id];
            &&& !q.face_down && q.back_face is None
            &&& q.name == b.name && q.base_name == b.name
            &&& q.power == b.power && q.toughness == b.toughness
            &&& q.base_power == b.power && q.base_toughness == b.toughness
            &&& q.loyalty == b.loyalty
            &&& q.card_types == b.card_types && q.mana_cost == b.mana_cost
            &&& q.keywords == b.keywords && q.abilities == b.abilities
            &&& q.trigger_definitions == b.trigger_definitions
            &&& q.replacement_definitions == b.replacement_definitions
            &&& q.static_definitions == b.static_definitions && q.color == b.color
            &&& q.zone == g.objects[id].zone && q.controller == g.objects[id].controller
            &&& q.counters == g.objects[id].counters && q.tapped == g.objects[id].tapped
            &&& turned_face_up(g, id).layers_dirty
        }),
{
}

/// A card may be played face down from the hand by the one who controls it.
pub proof fn who_plays_face_down(g: Game, player: PlayerId, id: ObjectId)
    ensures
        face_down_refusal(g, player, id) is None <==> g.objects.dom().contains(id)
            && g.objects[id].controller == player && g.objects[id].zone is Hand,
{
}

/// A permanent may be turned face up by the one who controls it, if it lies face down on the
/// battlefield over a face that is a creature or has a keyword with a cost for that.
pub proof fn who_turns_face_up(g: Game, player: PlayerId, id: ObjectId)
    requires
        g.objects.dom().contains(id),
    ensures
        ({
            let o = g.objects[id];
            face_up_refusal(g, player, id) is None <==> o.controller == player && o.face_down
                && o.zone is Battlefield && o.back_face is Some && (
            o.back_face->0.card_types.core_types.contains(CoreType::Creature) || exists|i: int|
                0 <= i < o.back_face->0.keywords.len() && ((#[trigger] o.back_face->0.keywords[i])
                    is Morph || o.back_face->0.keywords[i] is Megamorph
                    || o.back_face->0.keywords[i] is Disguise))
        }),
{
    let o = g.objects[id];
    if o.back_face is Some {
        let list = o.back_face->0.keywords;
        if exists|i: int|
            0 <= i < list.len() && ((#[trigger] list[i]) is Morph || list[i] is Megamorph
                || list[i] is Disguise) {
            let i = choose|i: int|
                0 <= i < list.len() && ((#[trigger] list[i]) is Morph || list[i] is Megamorph
                    || list[i] is Disguise);
            assert(is_morph(list[i]));
        }
    }
}

/// The card that is manifested is the one on top of the player's library.
pub proof fn the_top_card_is_manifested(g: Game, player: PlayerId, i: int, k: int)
    requires
        is_seat(g.players, player, i),
        g.players[i].library.len() > 0,
        0 <= k < g.object_ids.len(),
        g.object_ids[k] == g.players[i].library[0],
        g.objects[g.object_ids[k]].id == g.players[i].library[0],
        g.objects[g.object_ids[k]].owner == player,
        g.objects[g.object_ids[k]].zone is Library,
        forall|j: int|
            0 <= j < k ==> g.objects[#[trigger] g.object_ids[j]].id != g.players[i].library[0],
    ensures
        top_object(g, player) == Ok::<ObjectId, Seq<char>>(g.players[i].library[0]),
{
    lemma_seat(g.players, player, i);
    lemma_first_where(g.object_ids, library_card(g, player, g.players[i].library[0]), k);
}

/// A permanent that is given up goes from the battlefield to the graveyard of its owner, and that
/// it was sacrificed is told last.
pub proof fn what_is_given_up_goes_to_the_graveyard(p: Processed, id: ObjectId, i: int)
    requires
        p.result is Execute,
        p.result->Execute_0 is Sacrifice,
        p.result->Execute_0->Sacrifice_object_id == id,
        p.game.objects.dom().contains(id),
        p.game.objects[id].zone is Battlefield,
        is_seat(p.game.players, p.game.objects[id].owner, i),
    ensures
        ({
            let h = given_up(p);
            &&& h.objects[id].zone is Graveyard
            &&& h.players[i].graveyard == p.game.players[i].graveyard.push(id)
            &&& h.battlefield == others(p.game.battlefield, id)
            &&& h.layers_dirty
            &&& giving_up_told(p).last() == (EventModel::PermanentSacrificed {
                object_id: id,
                player_id: p.result->Execute_0->Sacrifice_player_id,
            })
            &&& outcome_of(p) is Complete
        }),
{
    moved_objects_lie_where_they_were_put(p.game, id, Zone::Graveyard);
    a_move_between_lists(p.game, id, Zone::Graveyard, i);
}

/// A sacrifice that was prevented does nothing; one that waits for a choice says whose it is.
pub proof fn what_is_not_given_up_stays(p: Processed)
    ensures
        p.result is Prevented ==> given_up(p) == p.game && giving_up_told(p) == p.told
            && outcome_of(p) is Complete,
        p.result is NeedsChoice ==> given_up(p) == p.game && giving_up_told(p) == p.told
            && outcome_of(p) == SacrificeOutcome::NeedsReplacementChoice(
            p.result->NeedsChoice_0,
        ),
{
}

/// Speed is a number of the player, nothing at first, and what it was set to afterwards.
pub proof fn speed_is_what_it_was_set_to(
    g: Game,
    p: PlayerId,
    speed: Option<u8>,
    i: int,
    other: PlayerId,
)
    requires
        is_seat(g.players, p, i),
        other != p,
    ensures
        ({
            let h = with_speed(g, p, speed);
            &&& g.players[i].speed is None ==> speed_of(g, p) == 0
            &&& g.players[i].speed is Some ==> speed_of(g, p) == g.players[i].speed->0
            &&& h == (Game {
                players: g.players.update(i, PlayerModel { speed, ..g.players[i] }),
                ..g
            })
            &&& speed is Some ==> speed_of(h, p) == speed->0
            &&& speed is None ==> speed_of(h, p) == 0
        }),
{
    lemma_seat(g.players, p, i);
    let h = with_speed(g, p, speed);
    assert forall|j: int| 0 <= j < i implies (#[trigger] h.players[j]).id != p by {
        assert(g.players[j].id != p);
    }
    assert(is_seat(h.players, p, i));
    lemma_seat(h.players, p, i);
}

/// A player has started engines by controlling a permanent with the keyword for it.
pub proof fn who_has_started_engines(g: Game, p: PlayerId, i: int, k: int)
    requires
        0 <= i < g.battlefield.len(),
        g.objects.dom().contains(g.battlefield[i]),
        g.objects[g.battlefield[i]].controller == p,
        0 <= k < g.objects[g.battlefield[i]].keywords.len(),
        g.objects[g.battlefield[i]].keywords[k] is StartYourEngines,
    ensures
        has_engines(g, p),
{
    assert(kind_of(g.objects[g.battlefield[i]].keywords[k]) == kind_of(
        Keyword::StartYourEngines,
    ));
    assert(starts_engines(g, p, g.battlefield[i]));
}

/// An object that leaves combat attacks no longer and blocks nothing, and all others go on.
pub proof fn leaving_combat(g: Game, id: ObjectId, a: AttackerInfo, k: ObjectId, x: ObjectId)
    requires
        g.combat is Some,
    ensures
        ({
            let c = g.combat->0;
            let h = out_of_combat(g, id);
            let d = h.combat->0;
            &&& h.combat is Some
            &&& h == (Game { combat: h.combat, ..g })
            &&& d.attackers.contains(a) <==> c.attackers.contains(a) && a.object_id != id
            &&& d.blocker_assignments.dom().contains(k) <==> c.blocker_assignments.dom().contains(
                k,
            ) && k != id
            &&& d.blocker_to_attacker.dom().contains(k) <==> c.blocker_to_attacker.dom().contains(
                k,
            ) && k != id
            &&& c.blocker_assignments.dom().contains(k) && k != id ==> (
            d.blocker_assignments[k].contains(x) <==> c.blocker_assignments[k].contains(x) && x
                != id)
            &&& c.blocker_to_attacker.dom().contains(k) && k != id ==> (
            d.blocker_to_attacker[k].contains(x) <==> c.blocker_to_attacker[k].contains(x) && x
                != id)
        }),
{
    let c = g.combat->0;
    lemma_filter_members(c.attackers, attacker_unlike(id));
    lemma_filter_members(c.blocker_assignments[k], unlike(id));
    lemma_filter_members(c.blocker_to_attacker[k], unlike(id));
}

/// Without combat there is nothing to leave.
pub proof fn without_combat_nothing_leaves(g: Game, id: ObjectId)
    requires
        g.combat is None,
    ensures
        out_of_combat(g, id) == g,
{
}

/// Tapping taps, untapping untaps, and neither does anything else.
pub proof fn tapping_and_untapping(
    e: Effect,
    g: Game,
    told: Seq<EventModel>,
    id: ObjectId,
)
    requires
        g.objects.dom().contains(id),
    ensures
        e is Tap ==> acted_on(e, g, told, id) == (
            Game { objects: g.objects.insert(id, ObjectModel { tapped: true, ..g.objects[id] }), ..g },
            told,
        ),
        e is Untap ==> acted_on(e, g, told, id) == (
            Game { objects: g.objects.insert(id, ObjectModel { tapped: false, ..g.objects[id] }), ..g },
            told,
        ),
{
}

/// An effect that moves an object moves it from the zone that it names, or from wherever it is, to
/// the other zone that it names.
pub proof fn changing_zones(e: Effect, g: Game, told: Seq<EventModel>, id: ObjectId)
    requires
        e is ChangeZone,
        g.objects.dom().contains(id),
    ensures
        ({
            let h = acted_on(e, g, told, id).0;
            &&& e->ChangeZone_origin is None || e->ChangeZone_origin == Some(g.objects[id].zone) ==> h.objects[id].zone
                == e->ChangeZone_destination
            &&& e->ChangeZone_origin is Some && e->ChangeZone_origin->0 != g.objects[id].zone ==> acted_on(
                e,
                g,
                told,
                id,
            ) == (g, told)
        }),
{
    moved_objects_lie_where_they_were_put(g, id, e->ChangeZone_destination);
}

proof fn lemma_alone(g: Game, id: ObjectId, cause: PhaseOutCause, way: Way)
    requires
        is_listed(g),
        g.objects.dom().contains(id),
        g.objects[id].attachments.len() == 0,
    ensures
        ({
            let w = wave_from(g, id, cause);
            let o = g.objects[id];
            let r = run_out(w, way);
            &&& r.game == restated(g, id, status_after(way, o, cause))
            &&& r.phased == (if crosses(way, o) {
                seq![id]
            } else {
                Seq::empty()
            })
        }),
{
    let w = wave_from(g, id, cause);
    let a = stepped(w, way);
    assert(w.queue.drop_last() =~= Seq::empty());
    assert(a.queue =~= Seq::empty());
    assert(is_listed(a.game)) by {
        assert forall|x: ObjectId| #[trigger]
            a.game.objects.dom().contains(x) implies a.game.object_ids.contains(x) by {
            assert(g.objects.dom().contains(x));
        }
    }
    assert(run_out(w, way) == run_out(a, way));
    assert(run_out(a, way) == a);
    if crosses(way, g.objects[id]) {
        assert(a.phased =~= seq![id]);
    }
}

proof fn lemma_one_out(g: Game, id: ObjectId)
    ensures
        all_out_of_combat(g, seq![id], 1) == out_of_combat(g, id),
{
    reveal_with_fuel(all_out_of_combat, 2);
    let a = all_out_of_combat(g, seq![id], 0);
    assert(seq![id][0] == id);
    assert(all_out_of_combat(g, seq![id], 1) == out_of_combat(a, seq![id][0]));
}

proof fn lemma_out_of_combat(g: Game, id: ObjectId, cause: PhaseOutCause, h: Game)
    requires
        run_out(wave_from(g, id, cause), Way::Out).game == h,
        run_out(wave_from(g, id, cause), Way::Out).phased == seq![id],
        h.combat == g.combat,
    ensures
        phased_out(g, id, cause).objects == h.objects,
        phased_out(g, id, cause).combat == out_of_combat(g, id).combat,
        phased_out(g, id, cause).battlefield == h.battlefield,
        phased_out(g, id, cause).players == h.players,
{
    lemma_one_out(h, id);
}

/// A permanent without attachments that is there phases out alone, and leaves combat.
#[verifier::rlimit(60)]
pub proof fn phasing_out_alone(g: Game, id: ObjectId, cause: PhaseOutCause)
    requires
        is_listed(g),
        g.objects.dom().contains(id),
        g.objects[id].attachments.len() == 0,
        g.objects[id].phase_status is PhasedIn,
    ensures
        phasing_out_with(g, id, cause) == seq![id],
        phased_out(g, id, cause).objects == g.objects.insert(
            id,
            ObjectModel { phase_status: PhaseStatus::PhasedOut { cause }, ..g.objects[id] },
        ),
        phased_out(g, id, cause).combat == out_of_combat(g, id).combat,
        phased_out(g, id, cause).battlefield == g.battlefield,
        phased_out(g, id, cause).players == g.players,
{
    lemma_alone(g, id, cause, Way::Out);
    lemma_out_of_combat(g, id, cause, run_out(wave_from(g, id, cause), Way::Out).game);
}

/// A permanent without attachments that phased out phases in alone.
pub proof fn phasing_in_alone(g: Game, id: ObjectId, cause: PhaseOutCause)
    requires
        is_listed(g),
        g.objects.dom().contains(id),
        g.objects[id].attachments.len() == 0,
        g.objects[id].phase_status is PhasedOut,
    ensures
        phasing_in_with(g, id) == seq![id],
        phasing_out_with(g, id, cause).len() == 0,
        phased_in(g, id) == (Game {
            objects: g.objects.insert(
                id,
                ObjectModel { phase_status: PhaseStatus::PhasedIn, ..g.objects[id] },
            ),
            ..g
        }),
{
    lemma_alone(g, id, cause, Way::Out);
    lemma_alone(g, id, PhaseOutCause::Directly, Way::In);
}

/// An aura or equipment on a permanent phases out with it, marked as having followed; what else is
/// attached stays.
pub proof fn attachments_follow(g: Game, id: ObjectId)
    requires
        g.objects.dom().contains(id),
    ensures
        follows(g, Way::Out, id) <==> g.objects[id].card_types.core_types.contains(
            CoreType::Enchantment,
        ) || g.objects[id].card_types.core_types.contains(CoreType::Artifact),
        follows(g, Way::In, id) <==> g.objects[id].phase_status == (PhaseStatus::PhasedOut {
            cause: PhaseOutCause::Indirectly,
        }),
{
}

/// Each object that phased out is told of, in order, and whether it only followed another.
pub proof fn phasing_out_is_told(
    told: Seq<EventModel>,
    g: Game,
    list: Seq<ObjectId>,
    id: ObjectId,
)
    requires
        g.objects.dom().contains(id),
    ensures
        phasing_out_told(told, g, list.push(id), list.len() + 1) == phasing_out_told(
            told,
            g,
            list,
            list.len(),
        ).push(
            EventModel::PermanentPhasedOut {
                object_id: id,
                indirect: g.objects[id].phase_status == (PhaseStatus::PhasedOut {
                    cause: PhaseOutCause::Indirectly,
                }),
            },
        ),
{
    lemma_told(told, g, list, id, list.len());
}

proof fn lemma_told(
    told: Seq<EventModel>,
    g: Game,
    list: Seq<ObjectId>,
    id: ObjectId,
    n: nat,
)
    requires
        n <= list.len(),
    ensures
        phasing_out_told(told, g, list.push(id), n) == phasing_out_told(told, g, list, n),
    decreases n,
{
    if n > 0 {
        lemma_told(told, g, list, id, (n - 1) as nat);
    }
}

/// What phases in as a player untaps is what phased out by itself and is the player's; what phases
/// out is what has the keyword for it, is there, and is the player's.
pub proof fn what_phases_as_a_player_untaps(g: Game, p: PlayerId, id: ObjectId)
    requires
        g.objects.dom().contains(id),
    ensures
        due_in(g, p)(id) <==> g.objects[id].controller == p && g.objects[id].phase_status == (
        PhaseStatus::PhasedOut { cause: PhaseOutCause::Directly }),
        due_out(g, p)(id) <==> g.objects[id].controller == p && g.objects[id].phase_status
            is PhasedIn && exists|k: int|
            0 <= k < g.objects[id].keywords.len() && (#[trigger] g.objects[id].keywords[k])
                is Phasing,
{
    let list = g.objects[id].keywords;
    if exists|k: int| 0 <= k < list.len() && (#[trigger] list[k]) is Phasing {
        let k = choose|k: int| 0 <= k < list.len() && (#[trigger] list[k]) is Phasing;
        assert(kind_of(list[k]) == kind_of(Keyword::Phasing));
    }
}

/// Loyalty is never less than nothing, and never more than 32 bits hold.
pub proof fn loyalty_stays_within_bounds(g: Game, id: ObjectId, loyalty: u32, amount: i32)
    requires
        g.objects.dom().contains(id),
        g.objects[id].loyalty == Some(loyalty),
    ensures
        ({
            let q = loyalty_paid(g, id, amount).objects[id];
            &&& loyalty + amount < 0 ==> q.loyalty == Some(0u32)
            &&& loyalty + amount > u32::MAX ==> q.loyalty == Some(u32::MAX)
            &&& q.counters[CounterKind::Loyalty] == q.loyalty->0
        }),
{
}

/// An ability without a loyalty cost costs nothing, and one with it what it says.
pub proof fn loyalty_costs(a: AbilityDefinition, amount: i32)
    ensures
        a.cost == Some(AbilityCost::Loyalty { amount }) ==> loyalty_cost_of(a) == amount,
        a.cost is None || !(a.cost->0 is Loyalty) ==> loyalty_cost_of(a) == 0,
{
}

/// A loyalty ability that waits for its targets marks the planeswalker as used, and is not on the
/// stack yet; what waits is the ability of that planeswalker, with its loyalty cost.
pub proof fn loyalty_abilities_that_wait_for_targets(
    g: Game,
    player: PlayerId,
    id: ObjectId,
    a: AbilityDefinition,
    index: usize,
)
    requires
        g.objects.dom().contains(id),
    ensures
        ({
            let h = announced(g, player, id);
            let w = to_be_targeted(a, player, id, index);
            &&& h.objects == g.objects.insert(
                id,
                ObjectModel { loyalty_activated_this_turn: true, ..g.objects[id] },
            )
            &&& h.stack == g.stack && h.players == g.players
            &&& !h.lands_tapped_for_mana.dom().contains(player)
            &&& w.object_id == id && w.activation_ability_index == Some(index)
            &&& w.ability.effect == a.effect && w.ability.controller == player
            &&& w.ability.source_id == id && w.ability.targets.len() == 0
            &&& w.activation_cost == Some(AbilityCost::Loyalty { amount: loyalty_cost_of(a) })
        }),
{
}

/// Each target is told first, in order, then that the ability is on the stack, and last that it was
/// activated.
pub proof fn activations_are_told(
    told: Seq<EventModel>,
    g: Game,
    id: ObjectId,
    target: TargetRef,
)
    ensures
        activation_told(told, g, id, seq![target]) == told.push(
            EventModel::BecomesTarget { target, source_id: id },
        ).push(EventModel::StackPushed { object_id: ObjectId(g.next_object_id) }).push(
            EventModel::AbilityActivated { source_id: id },
        ),
        activation_told(told, g, id, Seq::empty()) == told.push(
            EventModel::StackPushed { object_id: ObjectId(g.next_object_id) },
        ).push(EventModel::AbilityActivated { source_id: id }),
{
    reveal_with_fuel(targeting_told, 2);
}

/// A permanent that is there puts everything under its static ability that the ability means, or
/// everything where it says nothing.
pub proof fn what_static_abilities_bear_on(
    g: Game,
    i: int,
    k: int,
    id: ObjectId,
    name: Seq<char>,
)
    requires
        0 <= i < g.battlefield.len(),
        g.objects.dom().contains(g.battlefield[i]),
        g.objects[g.battlefield[i]].phase_status is PhasedIn,
        0 <= k < g.objects[g.battlefield[i]].static_definitions.len(),
        g.objects[g.battlefield[i]].static_definitions[k].mode is Other,
        g.objects[g.battlefield[i]].static_definitions[k].mode->Other_0@ == name,
    ensures
        ({
            let source = g.battlefield[i];
            let o = g.objects[source];
            let d = o.static_definitions[k];
            &&& d.affected is None ==> under_static(g, id, name)
            &&& d.affected is Some && matches_filter(
                g,
                id,
                *d.affected->0,
                seen_from(source, o.controller),
            ) ==> under_static(g, id, name)
        }),
{
    let source = g.battlefield[i];
    let o = g.objects[source];
    let d = o.static_definitions[k];
    if bears_on(g, source, o, d, id, name) {
        assert(source_bears_on(g, source, id, name));
    }
}

/// Without such a permanent nothing is under the ability.
pub proof fn without_static_abilities(g: Game, id: ObjectId, name: Seq<char>)
    requires
        forall|i: int|
            0 <= i < g.battlefield.len() && g.objects.dom().contains(
                #[trigger] g.battlefield[i],
            ) ==> g.objects[g.battlefield[i]].phase_status is PhasedOut
                || g.objects[g.battlefield[i]].static_definitions.len() == 0,
    ensures
        !under_static(g, id, name),
{
}

/// An attachment that is an artifact or an enchantment phases out with the permanent, as one that
/// followed.
pub proof fn an_attachment_phases_out_too(g: Game, id: ObjectId, a: ObjectId)
    requires
        is_listed(g),
        id != a,
        g.objects.dom().contains(id) && g.objects.dom().contains(a),
        g.objects[id].attachments == seq![a],
        g.objects[id].phase_status is PhasedIn && g.objects[a].phase_status is PhasedIn,
        g.objects[a].card_types.core_types.contains(CoreType::Artifact),
    ensures
        ({
            let w = run_out(wave_from(g, id, PhaseOutCause::Directly), Way::Out);
            &&& w.phased == seq![id, a]
            &&& w.game.objects[id].phase_status == (PhaseStatus::PhasedOut {
                cause: PhaseOutCause::Directly,
            })
            &&& w.game.objects[a].phase_status == (PhaseStatus::PhasedOut {
                cause: PhaseOutCause::Indirectly,
            })
        }),
{
    let w = wave_from(g, id, PhaseOutCause::Directly);
    let x = stepped(w, Way::Out);
    assert(w.queue.drop_last() =~= Seq::empty());
    reveal_with_fuel(followers, 2);
    assert(x.queue =~= seq![(a, PhaseOutCause::Indirectly)]);
    let y = stepped(x, Way::Out);
    assert(x.queue.drop_last() =~= Seq::empty());
    assert(y.queue =~= Seq::empty());
    assert(x.phased =~= seq![id]);
    assert(y.phased =~= seq![id, a]);
    lemma_listed(g, x.game);
    lemma_listed(g, y.game);
    assert(run_out(w, Way::Out) == run_out(x, Way::Out));
    assert(run_out(x, Way::Out) == run_out(y, Way::Out));
    assert(run_out(y, Way::Out) == y);
}

proof fn lemma_listed(g: Game, h: Game)
    requires
        is_listed(g),
        h.objects.dom() =~= g.objects.dom(),
        h.object_ids == g.object_ids,
    ensures
        is_listed(h),
{
    assert forall|x: ObjectId| #[trigger]
        h.objects.dom().contains(x) implies h.object_ids.contains(x) by {
        assert(g.objects.dom().contains(x));
    }
}

} // verus!
