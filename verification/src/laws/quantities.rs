//! What the numbers that cards speak of are.

use vstd::prelude::*;
use crate::ability::{
    AggregateFunction, ChoiceValue, ChosenAttribute, CountScope, ObjectProperty, PlayerCounterKind,
    PlayerFilter, QuantityExpr,
    QuantityRef, RoundingMode, TargetFilter, TargetRef, TypeFilter, ZoneRef,
};
use crate::cards::{counter_named, CoreType, Zone};
use crate::events::{EventModel, ZoneRecordModel};
use crate::filter::{filter_scope, matches_filter, ScopeModel};
use crate::ids::{ObjectId, PlayerId};
use crate::mana::mana_value_of;

use crate::quantity::{
    card_of_types, cards_in, chosen_number, counted_player, creature_died, found, hands_of_others,
    has_land_with, land_with, left_of, lives_of_others, losses_of_others, nonland_left, other_than,
    piles, player_counters, properties_of, ref_value, target_object, target_person, value_of,
};
use crate::seqs::{
    count_where, greatest, lemma_count_bound, lemma_count_positive_where,
    the_greatest_is_one_of_them, the_least_is_one_of_them, wrapped_sum,
};
use crate::state::{is_seat, lemma_seat, player_of, Game, PlayerModel};

verus! {

/// The number that a reference stands for.
pub open spec fn number(g: Game, q: QuantityRef, sc: ScopeModel) -> i32 {
    value_of(g, QuantityExpr::Ref { qty: q }, sc)
}

proof fn lemma_numbers(g: Game, sc: ScopeModel)
    ensures
        forall|q: QuantityRef| #[trigger] number(g, q, sc) == ref_value(g, q, sc),
{
    assert forall|q: QuantityRef| #[trigger] number(g, q, sc) == ref_value(g, q, sc) by {
        reveal_with_fuel(value_of, 2);
    }
}

/// A count, or the greatest number of 32 bits where it is greater.
pub open spec fn up_to_most(n: int) -> int {
    if n < 0x7fff_ffff {
        n
    } else {
        0x7fff_ffff
    }
}

/// Whether a player is the first in the list of players with an identifier.
pub open spec fn plays_as(g: Game, i: int, p: PlayerId) -> bool {
    &&& 0 <= i < g.players.len()
    &&& g.players[i].id == p
    &&& forall|j: int| 0 <= j < i ==> (#[trigger] g.players[j]).id != p
}

/// The sizes of hand and graveyard, the life and the tallies of the turn are those of the
/// controller.
pub proof fn numbers_of_the_controller(g: Game, sc: ScopeModel, i: int)
    requires
        plays_as(g, i, sc.controller),
    ensures
        ({
            let p = g.players[i];
            &&& number(g, QuantityRef::HandSize, sc) == up_to_most(p.hand.len() as int)
            &&& number(g, QuantityRef::GraveyardSize, sc) == up_to_most(p.graveyard.len() as int)
            &&& number(g, QuantityRef::LifeTotal, sc) == p.life
            &&& i32::MIN <= p.life - g.format_config.starting_life <= i32::MAX ==> number(
                g,
                QuantityRef::LifeAboveStarting,
                sc,
            ) == p.life - g.format_config.starting_life
            &&& number(g, QuantityRef::LifeLostThisTurn, sc) == up_to_most(
                p.life_lost_this_turn as int,
            )
            &&& number(g, QuantityRef::LifeGainedThisTurn, sc) == up_to_most(
                p.life_gained_this_turn as int,
            )
            &&& number(g, QuantityRef::CrimesCommittedThisTurn, sc) == up_to_most(
                p.crimes_committed_this_turn as int,
            )
            &&& number(g, QuantityRef::TurnsTaken, sc) == up_to_most(p.turns_taken as int)
            &&& number(g, QuantityRef::DescendedThisTurn, sc) == (if p.descended_this_turn {
                1int
            } else {
                0
            })
            &&& number(g, QuantityRef::Speed, sc) == (match p.speed {
                Some(s) => s as int,
                None => 0,
            })
        }),
{
    lemma_numbers(g, sc);
    lemma_seat(g.players, sc.controller, i);
    assert(player_of(g, sc.controller) == Some(g.players[i]));
}

/// Of a player who is not in the game all numbers are zero.
pub proof fn an_absent_player_has_nothing(g: Game, sc: ScopeModel)
    requires
        forall|j: int| 0 <= j < g.players.len() ==> (#[trigger] g.players[j]).id != sc.controller,
    ensures
        number(g, QuantityRef::HandSize, sc) == 0,
        number(g, QuantityRef::GraveyardSize, sc) == 0,
        number(g, QuantityRef::LifeTotal, sc) == 0,
        number(g, QuantityRef::LifeAboveStarting, sc) == 0,
        number(g, QuantityRef::LifeLostThisTurn, sc) == 0,
        number(g, QuantityRef::LifeGainedThisTurn, sc) == 0,
        number(g, QuantityRef::TurnsTaken, sc) == 0,
        number(g, QuantityRef::Speed, sc) == 0,
{
    lemma_numbers(g, sc);
    if player_of(g, sc.controller) is Some {
        let k = choose|k: int| is_seat(g.players, sc.controller, k);
        assert(is_seat(g.players, sc.controller, k));
    }
}

/// A card that moves from hand to graveyard raises the size of the graveyard by one and lowers that
/// of the hand.
pub proof fn a_card_put_into_the_graveyard_counts_there(g: Game, h: Game, sc: ScopeModel, i: int, card: ObjectId)
    requires
        plays_as(g, i, sc.controller),
        plays_as(h, i, sc.controller),
        h.players[i].graveyard == g.players[i].graveyard.push(card),
        h.players[i].hand.push(card) == g.players[i].hand,
        g.players[i].graveyard.len() < i32::MAX,
        g.players[i].hand.len() <= i32::MAX,
    ensures
        number(h, QuantityRef::GraveyardSize, sc) == number(g, QuantityRef::GraveyardSize, sc) + 1,
        number(h, QuantityRef::HandSize, sc) == number(g, QuantityRef::HandSize, sc) - 1,
{
    numbers_of_the_controller(g, sc, i);
    numbers_of_the_controller(h, sc, i);
    assert(h.players[i].hand.push(card).len() == h.players[i].hand.len() + 1);
}

/// What the game as a whole records.
pub proof fn numbers_of_the_game(g: Game, sc: ScopeModel)
    ensures
        number(g, QuantityRef::StartingLifeTotal, sc) == g.format_config.starting_life,
        number(g, QuantityRef::PreviousEffectAmount, sc) == (match g.last_effect_amount {
            Some(n) => n,
            None => 0,
        }),
        number(g, QuantityRef::ExiledFromHandThisResolution, sc) == up_to_most(
            g.exiled_from_hand_this_resolution as int,
        ),
        number(g, QuantityRef::SpellsCastLastTurn, sc) == (match g.spells_cast_last_turn {
            Some(n) => n as int,
            None => 0,
        }),
        number(g, QuantityRef::AttackedThisTurn, sc) == (if g.players_attacked_this_turn.contains(
            sc.controller,
        ) {
            1int
        } else {
            0
        }),
        number(g, QuantityRef::CounterAddedThisTurn, sc)
            == (if g.players_who_added_counter_this_turn.contains(sc.controller) {
            1int
        } else {
            0
        }),
        number(g, QuantityRef::OpponentDiscardedCardThisTurn, sc) == 1 <==> exists|p: PlayerId|
            p != sc.controller && g.players_who_discarded_card_this_turn.contains(p),
        0 <= number(g, QuantityRef::OpponentDiscardedCardThisTurn, sc) <= 1,
        g.dungeons_completed.dom().contains(sc.controller) ==> number(
            g,
            QuantityRef::DungeonsCompleted,
            sc,
        ) == up_to_most(g.dungeons_completed[sc.controller] as int),
        !g.dungeons_completed.dom().contains(sc.controller) ==> number(
            g,
            QuantityRef::DungeonsCompleted,
            sc,
        ) == 0,
        !g.spells_cast_this_turn_by_player.dom().contains(sc.controller) ==> number(
            g,
            QuantityRef::SpellsCastThisTurn { filter: None },
            sc,
        ) == 0,
        g.spells_cast_this_turn_by_player.dom().contains(sc.controller) ==> number(
            g,
            QuantityRef::SpellsCastThisTurn { filter: None },
            sc,
        ) == up_to_most(g.spells_cast_this_turn_by_player[sc.controller].len() as int),
{
    lemma_numbers(g, sc);
}

/// The numbers that the source of an ability has: power and toughness, counters, and what was paid
/// for it.
pub proof fn numbers_of_the_source(g: Game, sc: ScopeModel, name: String)
    requires
        g.objects.dom().contains(sc.source),
        sc.entering is None,
    ensures
        ({
            let o = g.objects[sc.source];
            let kind = counter_named(name@);
            &&& o.power is Some ==> number(g, QuantityRef::SelfPower, sc) == o.power->0
            &&& o.toughness is Some ==> number(g, QuantityRef::SelfToughness, sc) == o.toughness->0
            &&& o.power is None && !g.lki_cache.dom().contains(sc.source) ==> number(
                g,
                QuantityRef::SelfPower,
                sc,
            ) == 0
            &&& o.toughness is None && !g.lki_cache.dom().contains(sc.source) ==> number(
                g,
                QuantityRef::SelfToughness,
                sc,
            ) == 0
            &&& o.counters.dom().contains(kind) ==> number(
                g,
                QuantityRef::CountersOnSelf { counter_type: name },
                sc,
            ) == up_to_most(o.counters[kind] as int)
            &&& !o.counters.dom().contains(kind) ==> number(
                g,
                QuantityRef::CountersOnSelf { counter_type: name },
                sc,
            ) == 0
            &&& number(g, QuantityRef::ManaSpentOnSelf, sc) == up_to_most(
                o.mana_spent_to_cast_amount as int,
            )
            &&& 0 <= number(g, QuantityRef::ColorsSpentOnSelf, sc) <= 5
            &&& number(g, QuantityRef::ColorsSpentOnSelf, sc) == (if o.colors_spent_to_cast.white
                > 0 {
                1int
            } else {
                0
            }) + (if o.colors_spent_to_cast.blue > 0 {
                1int
            } else {
                0
            }) + (if o.colors_spent_to_cast.black > 0 {
                1int
            } else {
                0
            }) + (if o.colors_spent_to_cast.red > 0 {
                1int
            } else {
                0
            }) + (if o.colors_spent_to_cast.green > 0 {
                1int
            } else {
                0
            })
            &&& o.cost_x_paid is Some ==> number(g, QuantityRef::CostXPaid, sc) == up_to_most(
                o.cost_x_paid->0 as int,
            )
            &&& o.cost_x_paid is None && sc.chosen_x is Some ==> number(
                g,
                QuantityRef::CostXPaid,
                sc,
            ) == up_to_most(sc.chosen_x->0 as int)
            &&& o.cost_x_paid is None && sc.chosen_x is None ==> number(
                g,
                QuantityRef::CostXPaid,
                sc,
            ) == 0
        }),
{
    lemma_numbers(g, sc);
}

/// A source that is gone has the power and toughness that were last known of it.
pub proof fn last_known_numbers_of_the_source(g: Game, sc: ScopeModel)
    requires
        !g.objects.dom().contains(sc.source),
        g.lki_cache.dom().contains(sc.source),
    ensures
        g.lki_cache[sc.source].power is Some ==> number(g, QuantityRef::SelfPower, sc)
            == g.lki_cache[sc.source].power->0,
        g.lki_cache[sc.source].toughness is Some ==> number(g, QuantityRef::SelfToughness, sc)
            == g.lki_cache[sc.source].toughness->0,
{
    lemma_numbers(g, sc);
}

/// The numbers of a trigger are those of the object that its event is about: here the object that
/// changed its zone.
pub proof fn numbers_of_the_trigger(g: Game, sc: ScopeModel, id: ObjectId)
    requires
        g.current_trigger_event matches Some(EventModel::ZoneChanged { object_id, .. })
            && object_id == id,
        g.objects.dom().contains(id),
    ensures
        ({
            let o = g.objects[id];
            &&& o.power is Some ==> number(g, QuantityRef::EventContextSourcePower, sc)
                == o.power->0
            &&& o.toughness is Some ==> number(g, QuantityRef::EventContextSourceToughness, sc)
                == o.toughness->0
            &&& number(g, QuantityRef::EventContextSourceManaValue, sc) == up_to_most(
                mana_value_of(o.mana_cost) as int,
            )
            &&& number(g, QuantityRef::EventContextSourceCostX, sc) == (match o.cost_x_paid {
                Some(x) => up_to_most(x as int),
                None => 0,
            })
            &&& number(g, QuantityRef::ManaSpentOnTriggeringSpell, sc) == up_to_most(
                o.mana_spent_to_cast_amount as int,
            )
        }),
{
    lemma_numbers(g, sc);
}

/// The amount of a trigger is that of its event; where the event has none it is the last count of
/// an effect.
pub proof fn amount_of_the_trigger(g: Game, sc: ScopeModel)
    ensures
        match g.current_trigger_event {
            Some(EventModel::DamageDealt { amount, .. }) => number(
                g,
                QuantityRef::EventContextAmount,
                sc,
            ) == up_to_most(amount as int),
            Some(EventModel::DamagePrevented { amount, .. }) => number(
                g,
                QuantityRef::EventContextAmount,
                sc,
            ) == up_to_most(amount as int),
            Some(EventModel::CounterAdded { count, .. }) => number(
                g,
                QuantityRef::EventContextAmount,
                sc,
            ) == up_to_most(count as int),
            Some(EventModel::CardsDrawn { count, .. }) => number(
                g,
                QuantityRef::EventContextAmount,
                sc,
            ) == up_to_most(count as int),
            None => number(g, QuantityRef::EventContextAmount, sc) == (match g.last_effect_count {
                Some(n) => n,
                None => 0,
            }),
            _ => true,
        },
{
    lemma_numbers(g, sc);
}

/// Whether a target is the first object in the game among the targets.
pub open spec fn first_object_target(g: Game, sc: ScopeModel, k: int, id: ObjectId) -> bool {
    &&& 0 <= k < sc.targets.len()
    &&& sc.targets[k] == TargetRef::Object(id)
    &&& g.objects.dom().contains(id)
    &&& forall|j: int|
        0 <= j < k ==> (match #[trigger] sc.targets[j] {
            TargetRef::Object(other) => !g.objects.dom().contains(other),
            TargetRef::Player(_) => true,
        })
}

proof fn lemma_target_object(g: Game, sc: ScopeModel, k: int, id: ObjectId, from: int)
    requires
        first_object_target(g, sc, k, id),
        0 <= from <= k,
    ensures
        target_object(g, sc.targets, from) == Some(g.objects[id]),
    decreases k - from,
{
    if from < k {
        lemma_target_object(g, sc, k, id, from + 1);
        assert(match sc.targets[from] {
            TargetRef::Object(other) => !g.objects.dom().contains(other),
            TargetRef::Player(_) => true,
        });
    }
}

/// The power and the counters of the target are those of the first object among the targets.
pub proof fn numbers_of_the_target(g: Game, sc: ScopeModel, k: int, id: ObjectId, name: String)
    requires
        first_object_target(g, sc, k, id),
    ensures
        number(g, QuantityRef::TargetPower, sc) == (match g.objects[id].power {
            Some(n) => n,
            None => 0,
        }),
        ({
            let kind = counter_named(name@);
            let n = number(g, QuantityRef::CountersOnTarget { counter_type: name }, sc);
            let m = g.objects[id].counters;
            if m.dom().contains(kind) {
                n == up_to_most(m[kind] as int)
            } else {
                n == 0
            }
        }),
{
    lemma_numbers(g, sc);
    lemma_target_object(g, sc, k, id, 0);
}

/// Without targets all numbers of the target are zero.
pub proof fn no_target_no_number(g: Game, sc: ScopeModel, zone: ZoneRef, name: String)
    requires
        sc.targets.len() == 0,
    ensures
        number(g, QuantityRef::TargetPower, sc) == 0,
        number(g, QuantityRef::TargetLifeTotal, sc) == 0,
        number(g, QuantityRef::TargetZoneCardCount { zone }, sc) == 0,
        number(g, QuantityRef::AnyCountersOnTarget, sc) == 0,
        number(g, QuantityRef::CountersOnTarget { counter_type: name }, sc) == 0,
{
    lemma_numbers(g, sc);
}

/// The life and the piles of the target are those of the player who is the only target.
pub proof fn numbers_of_the_targeted_player(g: Game, sc: ScopeModel, i: int)
    requires
        0 <= i < g.players.len(),
        plays_as(g, i, g.players[i].id),
        sc.targets == seq![TargetRef::Player(g.players[i].id)],
    ensures
        ({
            let p = g.players[i];
            &&& number(g, QuantityRef::TargetLifeTotal, sc) == p.life
            &&& number(g, QuantityRef::TargetZoneCardCount { zone: ZoneRef::Library }, sc)
                == up_to_most(p.library.len() as int)
            &&& number(g, QuantityRef::TargetZoneCardCount { zone: ZoneRef::Graveyard }, sc)
                == up_to_most(p.graveyard.len() as int)
            &&& number(g, QuantityRef::TargetZoneCardCount { zone: ZoneRef::Hand }, sc)
                == up_to_most(p.hand.len() as int)
        }),
{
    lemma_numbers(g, sc);
    let p = g.players[i];
    lemma_seat(g.players, p.id, i);
    assert(player_of(g, p.id) == Some(p));
    assert(sc.targets[0] == TargetRef::Player(p.id));
    reveal_with_fuel(target_person, 2);
    reveal_with_fuel(crate::filter::target_player, 2);
}

/// Among several opponents the greatest life total and the greatest hand count.
pub proof fn the_opponent_with_most_counts(g: Game, sc: ScopeModel, j: int)
    requires
        0 <= j < g.players.len(),
        g.players[j].id != sc.controller,
    ensures
        g.players[j].life <= number(g, QuantityRef::OpponentLifeTotal, sc),
        up_to_most(g.players[j].hand.len() as int) <= number(g, QuantityRef::OpponentHandSize, sc),
        exists|k: int|
            0 <= k < g.players.len() && (#[trigger] g.players[k]).id != sc.controller
                && g.players[k].life == number(g, QuantityRef::OpponentLifeTotal, sc),
        exists|k: int|
            0 <= k < g.players.len() && (#[trigger] g.players[k]).id != sc.controller && up_to_most(
                g.players[k].hand.len() as int,
            ) == number(g, QuantityRef::OpponentHandSize, sc),
{
    lemma_numbers(g, sc);
    let c = sc.controller;
    let o = g.players.filter(other_than(c));
    let lives = lives_of_others(g, c);
    let hands = hands_of_others(g, c);
    crate::seqs::lemma_filter_members(g.players, other_than(c));
    assert(g.players.contains(g.players[j]));
    assert(o.contains(g.players[j]));
    let i = choose|i: int| 0 <= i < o.len() && o[i] == g.players[j];
    assert(lives[i] == g.players[j].life);
    assert(hands.len() == o.len());
    the_greatest_is_one_of_them(lives);
    the_greatest_is_one_of_them(hands);
    assert(lives.contains(greatest(lives)));
    assert(hands.contains(greatest(hands)));
    let a = choose|a: int| 0 <= a < lives.len() && lives[a] == greatest(lives);
    let b = choose|b: int| 0 <= b < hands.len() && hands[b] == greatest(hands);
    assert(o.contains(o[a]));
    assert(o.contains(o[b]));
    assert(g.players.contains(o[a]));
    assert(g.players.contains(o[b]));
    let ka = choose|k: int| 0 <= k < g.players.len() && g.players[k] == o[a];
    let kb = choose|k: int| 0 <= k < g.players.len() && g.players[k] == o[b];
    assert(g.players[ka].id != c);
    assert(g.players[kb].id != c);
    assert(up_to_most(g.players[j].hand.len() as int) == hands[i]);
}

proof fn lemma_count_push<T>(s: Seq<T>, x: T, p: spec_fn(T) -> bool)
    ensures
        count_where(s.push(x), p) == count_where(s, p) + (if p(x) {
            1nat
        } else {
            0
        }),
{
    assert(s.push(x).drop_last() =~= s);
    assert(s.push(x).last() == x);
}

/// The game after one more move between zones was recorded.
pub open spec fn with_move(g: Game, r: ZoneRecordModel) -> Game {
    Game { zone_changes_this_turn: g.zone_changes_this_turn.push(r), ..g }
}

/// Each move away from the battlefield counts once: for its controller, among those that were no
/// lands, and as a death where a creature went to the graveyard.
pub proof fn each_departure_counts_once(g: Game, sc: ScopeModel, r: ZoneRecordModel)
    requires
        g.zone_changes_this_turn.len() < i32::MAX,
    ensures
        ({
            let h = with_move(g, r);
            let left = r.from_zone == Some(Zone::Battlefield);
            &&& number(h, QuantityRef::PermanentsLeftBattlefieldThisTurn, sc) == number(
                g,
                QuantityRef::PermanentsLeftBattlefieldThisTurn,
                sc,
            ) + (if left && r.controller == sc.controller {
                1int
            } else {
                0
            })
            &&& number(h, QuantityRef::NonlandPermanentsLeftBattlefieldThisTurn, sc) == number(
                g,
                QuantityRef::NonlandPermanentsLeftBattlefieldThisTurn,
                sc,
            ) + (if left && !r.core_types.contains(CoreType::Land) {
                1int
            } else {
                0
            })
            &&& number(h, QuantityRef::CreaturesDiedThisTurn, sc) == number(
                g,
                QuantityRef::CreaturesDiedThisTurn,
                sc,
            ) + (if left && r.to_zone == Zone::Graveyard && r.core_types.contains(
                CoreType::Creature,
            ) {
                1int
            } else {
                0
            })
        }),
{
    lemma_numbers(g, sc);
    let h = with_move(g, r);
    lemma_numbers(h, sc);
    let s = g.zone_changes_this_turn;
    lemma_count_push(s, r, left_of(sc.controller));
    lemma_count_push(s, r, nonland_left());
    lemma_count_push(s, r, creature_died());
    lemma_count_bound(s, left_of(sc.controller));
    lemma_count_bound(s, nonland_left());
    lemma_count_bound(s, creature_died());
}

/// Where nothing moved this turn nothing left and nothing died.
pub proof fn no_departure_no_count(g: Game, sc: ScopeModel)
    requires
        g.zone_changes_this_turn.len() == 0,
    ensures
        number(g, QuantityRef::PermanentsLeftBattlefieldThisTurn, sc) == 0,
        number(g, QuantityRef::NonlandPermanentsLeftBattlefieldThisTurn, sc) == 0,
        number(g, QuantityRef::CreaturesDiedThisTurn, sc) == 0,
{
    lemma_numbers(g, sc);
}

/// The game with one more player.
pub open spec fn with_another(g: Game, p: PlayerModel) -> Game {
    Game { players: g.players.push(p), ..g }
}

/// Whether a player is counted: the controller, all players, or all but the controller.
pub open spec fn is_counted(scope: CountScope, p: PlayerId, controller: PlayerId) -> bool {
    (scope is Controller && p == controller) || scope is All || (scope is Opponents && p
        != controller)
}

proof fn lemma_counters_of_front(
    players: Seq<PlayerModel>,
    p: PlayerModel,
    n: nat,
    kind: PlayerCounterKind,
    scope: CountScope,
    c: PlayerId,
)
    requires
        n <= players.len(),
    ensures
        player_counters(players.push(p), n, kind, scope, c) == player_counters(
            players,
            n,
            kind,
            scope,
            c,
        ),
    decreases n,
{
    if n > 0 {
        lemma_counters_of_front(players, p, (n - 1) as nat, kind, scope, c);
    }
}

/// The counters of a player add to those of the players before, where the player is counted.
pub proof fn counters_of_players_add_up(
    g: Game,
    sc: ScopeModel,
    p: PlayerModel,
    kind: PlayerCounterKind,
    scope: CountScope,
)
    ensures
        ({
            let before = number(g, QuantityRef::PlayerCounter { kind, scope }, sc);
            let after = number(with_another(g, p), QuantityRef::PlayerCounter { kind, scope }, sc);
            if is_counted(scope, p.id, sc.controller) && p.player_counters.dom().contains(kind) {
                after == up_to_most(before + p.player_counters[kind])
            } else {
                after == before
            }
        }),
        g.players.len() == 0 ==> number(g, QuantityRef::PlayerCounter { kind, scope }, sc) == 0,
{
    let h = with_another(g, p);
    lemma_numbers(g, sc);
    lemma_numbers(h, sc);
    lemma_counters_of_front(g.players, p, g.players.len(), kind, scope, sc.controller);
    assert(h.players[g.players.len() as int] == p);
}

/// What each opponent lost this turn adds to what the opponents lost; what the controller lost does
/// not.
pub proof fn losses_of_opponents_add_up(g: Game, sc: ScopeModel, p: PlayerModel)
    ensures
        ({
            let before = number(g, QuantityRef::OpponentLifeLostThisTurn, sc);
            let after = number(with_another(g, p), QuantityRef::OpponentLifeLostThisTurn, sc);
            if p.id == sc.controller {
                after == before
            } else {
                before + up_to_most(p.life_lost_this_turn as int) <= i32::MAX ==> after == before
                    + up_to_most(p.life_lost_this_turn as int)
            }
        }),
        g.players.len() == 0 ==> number(g, QuantityRef::OpponentLifeLostThisTurn, sc) == 0,
{
    let h = with_another(g, p);
    lemma_numbers(g, sc);
    lemma_numbers(h, sc);
    let c = sc.controller;
    crate::keyed::lemma_filter_push(g.players, p, other_than(c));
    let a = losses_of_others(g, c);
    let b = losses_of_others(h, c);
    let o = g.players.filter(other_than(c));
    if p.id == c {
        assert(b =~= a);
    } else {
        assert(h.players.filter(other_than(c)) == o.push(p));
        assert(b.drop_last() =~= a);
        assert(b.last() == crate::seqs::signed(p.life_lost_this_turn));
    }
    if g.players.len() == 0 {
        assert(g.players =~= Seq::empty());
        reveal(Seq::filter);
        assert(a.len() == 0);
    }
}

proof fn lemma_piles_of_front(
    players: Seq<PlayerModel>,
    p: PlayerModel,
    n: nat,
    zone: ZoneRef,
    scope: CountScope,
    c: PlayerId,
)
    requires
        n <= players.len(),
    ensures
        piles(players.push(p), n, zone, scope, c) == piles(players, n, zone, scope, c),
    decreases n,
{
    if n > 0 {
        lemma_piles_of_front(players, p, (n - 1) as nat, zone, scope, c);
    }
}

proof fn lemma_count_all<T>(s: Seq<T>, p: spec_fn(T) -> bool)
    requires
        forall|i: int| 0 <= i < s.len() ==> p(#[trigger] s[i]),
    ensures
        count_where(s, p) == s.len(),
    decreases s.len(),
{
    if s.len() > 0 {
        assert forall|i: int| 0 <= i < s.drop_last().len() implies p(#[trigger] s.drop_last()[i]) by {
            assert(s.drop_last()[i] == s[i]);
        }
        lemma_count_all(s.drop_last(), p);
    }
}

/// The cards that a player has in library, graveyard or hand add to those of the players before,
/// where the player is counted.
pub proof fn cards_of_players_add_up(
    g: Game,
    sc: ScopeModel,
    p: PlayerModel,
    zone: ZoneRef,
    scope: CountScope,
    none: Vec<TypeFilter>,
)
    requires
        none@.len() == 0,
        !(zone is Exile),
    ensures
        ({
            let q = QuantityRef::ZoneCardCount { zone, card_types: none, scope };
            let pile = match zone {
                ZoneRef::Library => p.library,
                ZoneRef::Graveyard => p.graveyard,
                _ => p.hand,
            };
            let before = number(g, q, sc);
            let after = number(with_another(g, p), q, sc);
            if is_counted(scope, p.id, sc.controller) {
                after == up_to_most(before + pile.len())
            } else {
                after == before
            }
        }),
{
    let h = with_another(g, p);
    lemma_numbers(g, sc);
    lemma_numbers(h, sc);
    let c = sc.controller;
    lemma_piles_of_front(g.players, p, g.players.len(), zone, scope, c);
    let a = cards_in(g, zone, scope, c);
    let b = cards_in(h, zone, scope, c);
    lemma_count_all(a, card_of_types(g, none@));
    lemma_count_all(b, card_of_types(h, none@));
    assert(h.players[g.players.len() as int] == p);
}

/// The number of objects that a filter means is the number of permanents in play that match it,
/// where the filter asks for no zone and sets no object apart.
pub proof fn permanents_that_match_are_counted(g: Game, sc: ScopeModel, filter: TargetFilter)
    requires
        crate::filter::zone_asked(filter) is None,
        !crate::filter::speaks_of_others(filter),
    ensures
        number(g, QuantityRef::ObjectCount { filter }, sc) == up_to_most(
            g.battlefield.filter(
                |id: ObjectId|
                    g.objects.dom().contains(id) && g.objects[id].phase_status is PhasedIn,
            ).filter(|id: ObjectId| matches_filter(g, id, filter, filter_scope(sc))).len() as int,
        ),
{
    lemma_numbers(g, sc);
    let there = |id: ObjectId|
        g.objects.dom().contains(id) && g.objects[id].phase_status is PhasedIn;
    assert(there =~= crate::targeting::present(g)) by {
        assert forall|id: ObjectId| there(id) == #[trigger] crate::targeting::present(g)(id) by {}
    }
    let ids = g.battlefield.filter(crate::targeting::present(g));
    let meant = |id: ObjectId| matches_filter(g, id, filter, filter_scope(sc));
    crate::filter::matching_is_a_filter(g, ids, ids.len(), filter, filter_scope(sc));
    assert(ids.take(ids.len() as int) =~= ids);
    reveal_with_fuel(found, 2);
    assert(found(g, filter, sc) == ids.filter(meant));
}

/// The greatest and the least of a property of objects belong to objects that are meant, and no
/// object that is meant has more or less.
pub proof fn greatest_and_least_of_objects(
    g: Game,
    sc: ScopeModel,
    filter: TargetFilter,
    i: int,
)
    requires
        0 <= i < found(g, filter, sc).len(),
    ensures
        ({
            let power = match g.objects[found(g, filter, sc)[i]].power {
                Some(n) => n,
                None => 0,
            };
            let toughness = match g.objects[found(g, filter, sc)[i]].toughness {
                Some(n) => n,
                None => 0,
            };
            let value = up_to_most(
                mana_value_of(g.objects[found(g, filter, sc)[i]].mana_cost) as int,
            );
            &&& aggregate(g, sc, AggregateFunction::Min, ObjectProperty::Power, filter) <= power
                <= aggregate(g, sc, AggregateFunction::Max, ObjectProperty::Power, filter)
            &&& aggregate(g, sc, AggregateFunction::Min, ObjectProperty::Toughness, filter)
                <= toughness <= aggregate(
                g,
                sc,
                AggregateFunction::Max,
                ObjectProperty::Toughness,
                filter,
            )
            &&& aggregate(g, sc, AggregateFunction::Min, ObjectProperty::ManaValue, filter) <= value
                <= aggregate(g, sc, AggregateFunction::Max, ObjectProperty::ManaValue, filter)
            &&& found(g, filter, sc).len() == 1 ==> aggregate(
                g,
                sc,
                AggregateFunction::Sum,
                ObjectProperty::Power,
                filter,
            ) == power && aggregate(
                g,
                sc,
                AggregateFunction::Max,
                ObjectProperty::Power,
                filter,
            ) == power && aggregate(
                g,
                sc,
                AggregateFunction::Sum,
                ObjectProperty::Toughness,
                filter,
            ) == toughness && aggregate(
                g,
                sc,
                AggregateFunction::Sum,
                ObjectProperty::ManaValue,
                filter,
            ) == value
        }),
{
    lemma_numbers(g, sc);
    let ids = found(g, filter, sc);
    let a = properties_of(g, ids, ObjectProperty::Power);
    let b = properties_of(g, ids, ObjectProperty::Toughness);
    let c = properties_of(g, ids, ObjectProperty::ManaValue);
    the_greatest_is_one_of_them(a);
    the_greatest_is_one_of_them(b);
    the_greatest_is_one_of_them(c);
    the_least_is_one_of_them(a);
    the_least_is_one_of_them(b);
    the_least_is_one_of_them(c);
    assert(a.len() == ids.len() && b.len() == ids.len() && c.len() == ids.len());
    assert(a.contains(a[i]) && b.contains(b[i]) && c.contains(c[i]));
    reveal_with_fuel(wrapped_sum, 2);
    if ids.len() == 1 {
        assert(i == 0);
        assert(a.drop_last().len() == 0 && b.drop_last().len() == 0 && c.drop_last().len() == 0);
        assert(a.last() == a[0] && b.last() == b[0] && c.last() == c[0]);
    }
}

/// The greatest, least or whole of a property of the objects that a filter means.
pub open spec fn aggregate(
    g: Game,
    sc: ScopeModel,
    function: AggregateFunction,
    property: ObjectProperty,
    filter: TargetFilter,
) -> i32 {
    number(g, QuantityRef::Aggregate { function, property, filter }, sc)
}

/// Whether a player is one of those that a count of players speaks of. Players who have lost do
/// not count.
pub open spec fn is_meant(filter: PlayerFilter, p: PlayerModel, controller: PlayerId) -> bool {
    !p.is_eliminated && match filter {
        PlayerFilter::Controller => p.id == controller,
        PlayerFilter::Opponent => p.id != controller,
        PlayerFilter::OpponentLostLife => p.id != controller && p.life_lost_this_turn > 0,
        PlayerFilter::OpponentGainedLife => p.id != controller && p.life_gained_this_turn > 0,
        _ => true,
    }
}

/// Each player counts once, where the player is meant.
pub proof fn players_are_counted(g: Game, sc: ScopeModel, p: PlayerModel, filter: PlayerFilter)
    requires
        filter is Controller || filter is Opponent || filter is OpponentLostLife
            || filter is OpponentGainedLife || filter is All,
        g.players.len() < i32::MAX,
    ensures
        number(with_another(g, p), QuantityRef::PlayerCount { filter }, sc) == number(
            g,
            QuantityRef::PlayerCount { filter },
            sc,
        ) + (if is_meant(filter, p, sc.controller) {
            1int
        } else {
            0
        }),
        g.players.len() == 0 ==> number(g, QuantityRef::PlayerCount { filter }, sc) == 0,
{
    let h = with_another(g, p);
    lemma_numbers(g, sc);
    lemma_numbers(h, sc);
    let a = counted_player(g, filter, sc.controller, sc.source);
    let b = counted_player(h, filter, sc.controller, sc.source);
    assert(a =~= b) by {
        assert forall|x: PlayerModel| #[trigger] a(x) == b(x) by {}
    }
    lemma_count_push(g.players, p, a);
    lemma_count_bound(g.players, a);
}

/// Whether a player has a land with a subtype in play.
pub open spec fn has_land(g: Game, p: PlayerId, subtype: Seq<char>) -> bool {
    exists|i: int|
        0 <= i < g.battlefield.len() && is_land_with(g, p, subtype, #[trigger] g.battlefield[i])
}

/// Whether an object is a land of a player with a subtype.
pub open spec fn is_land_with(g: Game, p: PlayerId, subtype: Seq<char>, id: ObjectId) -> bool {
    &&& g.objects.dom().contains(id)
    &&& g.objects[id].controller == p
    &&& g.objects[id].card_types.core_types.contains(CoreType::Land)
    &&& exists|j: int|
        0 <= j < g.objects[id].card_types.subtypes.len()
            && (#[trigger] g.objects[id].card_types.subtypes[j])@ == subtype
}

proof fn lemma_has_land(g: Game, p: PlayerId, subtype: Seq<char>)
    ensures
        has_land_with(g, p, subtype) == (if has_land(g, p, subtype) {
            1nat
        } else {
            0
        }),
{
    let f = land_with(g, p, subtype);
    lemma_count_positive_where(g.battlefield, f);
    assert forall|id: ObjectId| #[trigger] f(id) == is_land_with(g, p, subtype, id) by {}
}

/// Each of the five basic land types counts once, however many lands have it.
pub proof fn each_basic_land_type_counts_once(g: Game, sc: ScopeModel)
    ensures
        number(g, QuantityRef::BasicLandTypeCount, sc) == (if has_land(g, sc.controller, "Plains"@) {
            1int
        } else {
            0
        }) + (if has_land(g, sc.controller, "Island"@) {
            1int
        } else {
            0
        }) + (if has_land(g, sc.controller, "Swamp"@) {
            1int
        } else {
            0
        }) + (if has_land(g, sc.controller, "Mountain"@) {
            1int
        } else {
            0
        }) + (if has_land(g, sc.controller, "Forest"@) {
            1int
        } else {
            0
        }),
{
    lemma_numbers(g, sc);
    lemma_has_land(g, sc.controller, "Plains"@);
    lemma_has_land(g, sc.controller, "Island"@);
    lemma_has_land(g, sc.controller, "Swamp"@);
    lemma_has_land(g, sc.controller, "Mountain"@);
    lemma_has_land(g, sc.controller, "Forest"@);
}

/// X is the number chosen for the ability; any other variable is the number that was last named.
pub proof fn variables_are_chosen_numbers(g: Game, sc: ScopeModel, name: String)
    ensures
        name@ == "X"@ && sc.chosen_x is Some ==> number(g, QuantityRef::Variable { name }, sc)
            == up_to_most(sc.chosen_x->0 as int),
        name@ != "X"@ ==> number(g, QuantityRef::Variable { name }, sc) == (
        match g.last_named_choice {
            Some(ChoiceValue::Number(v)) => v as int,
            _ => 0,
        }),
{
    lemma_numbers(g, sc);
}

/// The chosen number of an object is the first number among what was chosen for it.
pub proof fn the_first_number_chosen_counts(g: Game, sc: ScopeModel, k: int, n: u8)
    requires
        g.objects.dom().contains(sc.source),
        0 <= k < g.objects[sc.source].chosen_attributes.len(),
        g.objects[sc.source].chosen_attributes[k] == ChosenAttribute::Number(n),
        forall|j: int|
            0 <= j < k ==> !((#[trigger] g.objects[sc.source].chosen_attributes[j]) is Number),
    ensures
        number(g, QuantityRef::ChosenNumber, sc) == n,
{
    lemma_numbers(g, sc);
    lemma_chosen(g.objects[sc.source].chosen_attributes, 0, k, n);
}

proof fn lemma_chosen(s: Seq<ChosenAttribute>, from: int, k: int, n: u8)
    requires
        0 <= from <= k < s.len(),
        s[k] == ChosenAttribute::Number(n),
        forall|j: int| 0 <= j < k ==> !((#[trigger] s[j]) is Number),
    ensures
        chosen_number(s, from) == n,
    decreases k - from,
{
    if from < k {
        lemma_chosen(s, from + 1, k, n);
    }
}

/// A number plus an offset, and a multiple of a number, as far as they fit; half of a number is
/// off by less than one.
pub proof fn numbers_are_computed(
    g: Game,
    sc: ScopeModel,
    e: QuantityExpr,
    offset: i32,
    factor: i32,
    rounding: RoundingMode,
)
    ensures
        ({
            let n = value_of(g, e, sc);
            &&& i32::MIN <= n + offset <= i32::MAX ==> value_of(
                g,
                QuantityExpr::Offset { inner: Box::new(e), offset },
                sc,
            ) == n + offset
            &&& i32::MIN <= factor * n <= i32::MAX ==> value_of(
                g,
                QuantityExpr::Multiply { factor, inner: Box::new(e) },
                sc,
            ) == factor * n
            &&& 0 <= n < i32::MAX && rounding is Down ==> n - 1 <= 2 * value_of(
                g,
                QuantityExpr::HalfRounded { inner: Box::new(e), rounding },
                sc,
            ) <= n
            &&& 0 <= n < i32::MAX && rounding is Up ==> n <= 2 * value_of(
                g,
                QuantityExpr::HalfRounded { inner: Box::new(e), rounding },
                sc,
            ) <= n + 1
        }),
        value_of(g, QuantityExpr::Fixed { value: offset }, sc) == offset,
{
    let n = value_of(g, e, sc);
    assert(value_of(g, QuantityExpr::Offset { inner: Box::new(e), offset }, sc) == n.wrapping_add(
        offset,
    ));
    assert(value_of(g, QuantityExpr::Multiply { factor, inner: Box::new(e) }, sc)
        == factor.wrapping_mul(n));
}

/// Half of a negative number is rounded towards zero where it is rounded down, and so is half of one
/// more where it is rounded up.
pub proof fn halves_of_negative_numbers(g: Game, sc: ScopeModel, e: QuantityExpr)
    requires
        i32::MIN < value_of(g, e, sc) < 0,
    ensures
        ({
            let n = value_of(g, e, sc);
            let down = value_of(
                g,
                QuantityExpr::HalfRounded { inner: Box::new(e), rounding: RoundingMode::Down },
                sc,
            );
            let up = value_of(
                g,
                QuantityExpr::HalfRounded { inner: Box::new(e), rounding: RoundingMode::Up },
                sc,
            );
            n <= 2 * down <= n + 1 && n + 1 <= 2 * up <= n + 2
        }),
{
}

/// Of the object that a trigger is about, and that is no more, the numbers are those last known.
pub proof fn last_known_numbers_of_the_trigger(g: Game, sc: ScopeModel, id: ObjectId)
    requires
        g.current_trigger_event matches Some(EventModel::ZoneChanged { object_id, .. })
            && object_id == id,
        !g.objects.dom().contains(id),
        g.lki_cache.dom().contains(id),
    ensures
        number(g, QuantityRef::EventContextSourceManaValue, sc) == up_to_most(
            g.lki_cache[id].mana_value as int,
        ),
        g.lki_cache[id].power is Some ==> number(g, QuantityRef::EventContextSourcePower, sc)
            == g.lki_cache[id].power->0,
        g.lki_cache[id].toughness is Some ==> number(
            g,
            QuantityRef::EventContextSourceToughness,
            sc,
        ) == g.lki_cache[id].toughness->0,
{
    lemma_numbers(g, sc);
}

/// What was spent on a permanent that comes in is what was spent on that permanent, not on the
/// source of the ability that asks.
pub proof fn what_was_spent_on_what_comes_in(g: Game, sc: ScopeModel, id: ObjectId)
    requires
        sc.entering == Some(id),
        g.objects.dom().contains(id),
    ensures
        number(g, QuantityRef::ManaSpentOnSelf, sc) == up_to_most(
            g.objects[id].mana_spent_to_cast_amount as int,
        ),
{
    lemma_numbers(g, sc);
}

} // verus!
