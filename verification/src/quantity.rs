//! Numbers that the state of a game decides.

use vstd::prelude::*;
use crate::ability::{
    AggregateFunction, AttachmentKind, ChoiceValue, ChosenAttribute, ControllerRef, CountScope,
    ObjectProperty, PlayerFilter, QuantityExpr, QuantityRef, ResolvedAbility, RoundingMode,
    TargetFilter, TargetRef, TypeFilter, ZoneRef,
};
use crate::cards::{
    counter_named, has_core_type, parse_counter_type, CoreType, CounterKind, CounterType, Zone,
};
use crate::devotion::{commander_colors, commander_color_identity, count_devotion, devotion_of};
use crate::events::{AttachmentSnapshot, EventModel, GameEvent, ZoneRecordModel};
use crate::filter::{
    filter_contains_other_than_trigger_object, filter_scope, first_target_player,
    lemma_matching_exist, matches_filter, matches_target_filter, matching, matching_ids,
    record_is_meant, seen_from, speaks_of_others, spell_record_matches_filter, target_player,
    type_filter_matches, type_fits, within, zone_asked, Scope, ScopeModel,
};
use crate::ids::{ObjectId, PlayerId, TrackedSetId};
use crate::keyed::{map_total, Table};
use crate::mana::{colors_in_tally, mana_value_of, ManaColor};
use crate::object::{GameObject, ObjectModel};
use crate::players::{
    exiled_with, linked_exile_cards_for_source, owns_card_exiled_by_source, owns_one,
};
use crate::seqs::{
    capped, count_where, distinct, distinct_count, greatest, least, lemma_count_next,
    lemma_filter_next, lemma_filter_start, lemma_take_all, lemma_take_next, max_of, min_of, signed,
    sum_of, u32_to_i32_saturating, usize_to_i32_saturating, wrapped_sum,
};
use crate::speed::{effective_speed, speed_of};
use crate::state::{
    count_in, count_of_key, object_at, player_of, Game, GameState, Player, PlayerModel,
    SpellCastRecord, SpellRecordModel,
};
use crate::targeting::{
    append_ids, event_amount, event_player, event_source, extract_amount_from_event,
    extract_player_from_event, extract_source_from_event, zone_ids, zone_object_ids,
};
use crate::text::{contains_text, holds_text, same_text};
use crate::views::seq_view;

verus! {

broadcast use crate::views::group_views;

/// For which object a quantity is computed.
#[derive(Debug, Clone, Copy)]
pub struct QuantityContext {
    /// The object that enters the battlefield, where one does.
    pub entering: Option<ObjectId>,
    /// The source of the ability.
    pub source: ObjectId,
}

/// Half of a number, with halves rounded the given way and the result cut towards zero. Adding one
/// to the greatest number wraps around.
pub open spec fn half_of(value: i32, rounding: RoundingMode) -> i32 {
    let whole: int = match rounding {
        RoundingMode::Up => value.wrapping_add(1) as int,
        RoundingMode::Down => value as int,
    };
    if whole >= 0 {
        (whole / 2) as i32
    } else {
        (-((-whole) / 2)) as i32
    }
}

/// The object that "itself" means: the one that enters, else the source.
pub open spec fn self_object(sc: ScopeModel) -> ObjectId {
    match sc.entering {
        Some(id) => id,
        None => sc.source,
    }
}

/// The object that the current trigger is about.
pub open spec fn trigger_source(g: Game) -> Option<ObjectId> {
    match g.current_trigger_event {
        Some(e) => event_source(e),
        None => None,
    }
}

/// The object that the current trigger is about, where it is in the game.
pub open spec fn trigger_object(g: Game) -> Option<ObjectModel> {
    match trigger_source(g) {
        Some(id) => object_at(g, id),
        None => None,
    }
}

/// A number of a player, zero where there is no such player.
pub open spec fn of_player(g: Game, p: PlayerId, f: spec_fn(PlayerModel) -> i32) -> i32 {
    match player_of(g, p) {
        Some(q) => f(q),
        None => 0,
    }
}

/// A number that may be unknown, zero where it is.
pub open spec fn or_zero(n: Option<i32>) -> i32 {
    match n {
        Some(v) => v,
        None => 0,
    }
}

/// A number that may be unknown, cut at the greatest signed one and zero where it is unknown.
pub open spec fn signed_or_zero(n: Option<u32>) -> i32 {
    match n {
        Some(v) => signed(v),
        None => 0,
    }
}

/// Whether a player is one of those counted.
pub open spec fn in_scope(p: PlayerId, scope: CountScope, controller: PlayerId) -> bool {
    match scope {
        CountScope::Controller => p == controller,
        CountScope::All => true,
        CountScope::Opponents => p != controller,
    }
}

/// The counters of a kind that the first `n` players have, as far as they are in scope.
pub open spec fn player_counters(
    players: Seq<PlayerModel>,
    n: nat,
    kind: crate::ability::PlayerCounterKind,
    scope: CountScope,
    controller: PlayerId,
) -> nat
    decreases n,
{
    if n == 0 || n > players.len() {
        0
    } else {
        player_counters(players, (n - 1) as nat, kind, scope, controller) + (if in_scope(
            players[n - 1].id,
            scope,
            controller,
        ) {
            count_in(players[n - 1].player_counters, kind) as nat
        } else {
            0
        })
    }
}

/// The power of an object, or what was last known of it.
pub open spec fn known_power(g: Game, id: ObjectId) -> Option<i32> {
    match object_at(g, id) {
        Some(o) if o.power is Some => o.power,
        _ => if g.lki_cache.dom().contains(id) {
            g.lki_cache[id].power
        } else {
            None
        },
    }
}

/// The toughness of an object, or what was last known of it.
pub open spec fn known_toughness(g: Game, id: ObjectId) -> Option<i32> {
    match object_at(g, id) {
        Some(o) if o.toughness is Some => o.toughness,
        _ => if g.lki_cache.dom().contains(id) {
            g.lki_cache[id].toughness
        } else {
            None
        },
    }
}

/// The mana value of an object, or what was last known of it.
pub open spec fn known_mana_value(g: Game, id: ObjectId) -> Option<u32> {
    match object_at(g, id) {
        Some(o) => Some(mana_value_of(o.mana_cost)),
        None => if g.lki_cache.dom().contains(id) {
            Some(g.lki_cache[id].mana_value)
        } else {
            None
        },
    }
}

/// A number that an object has.
pub open spec fn property_of(o: ObjectModel, p: ObjectProperty) -> i32 {
    match p {
        ObjectProperty::Power => or_zero(o.power),
        ObjectProperty::Toughness => or_zero(o.toughness),
        ObjectProperty::ManaValue => signed(mana_value_of(o.mana_cost)),
    }
}

/// The numbers of the objects of a list.
pub open spec fn properties_of(g: Game, ids: Seq<ObjectId>, p: ObjectProperty) -> Seq<i32> {
    Seq::new(ids.len(), |i: int| property_of(g.objects[ids[i]], p))
}

/// All counters on an object, or those of one kind.
pub open spec fn counters_on(o: ObjectModel, kind: Option<CounterKind>) -> i32 {
    match kind {
        Some(k) => signed(count_in(o.counters, k)),
        None => capped(map_total(o.counters)),
    }
}

/// The counters on the objects of a list.
pub open spec fn counters_of(g: Game, ids: Seq<ObjectId>, kind: Option<CounterKind>) -> Seq<i32> {
    Seq::new(ids.len(), |i: int| counters_on(g.objects[ids[i]], kind))
}

/// The printed names of the objects of a list.
pub open spec fn printed_names(g: Game, ids: Seq<ObjectId>) -> Seq<Seq<char>> {
    Seq::new(ids.len(), |i: int| g.objects[ids[i]].base_name@)
}

/// Being a name.
pub open spec fn named() -> spec_fn(Seq<char>) -> bool {
    |n: Seq<char>| n.len() > 0
}

/// Being no name.
pub open spec fn unnamed() -> spec_fn(Seq<char>) -> bool {
    |n: Seq<char>| n.len() == 0
}

/// The first object among the targets from a place on that is in the game.
pub open spec fn target_object(g: Game, targets: Seq<TargetRef>, from: int) -> Option<ObjectModel>
    decreases targets.len() - from,
{
    if from < 0 || from >= targets.len() {
        None
    } else {
        match targets[from] {
            TargetRef::Object(id) if object_at(g, id) is Some => object_at(g, id),
            _ => target_object(g, targets, from + 1),
        }
    }
}

/// The first player among the targets from a place on who is in the game.
pub open spec fn target_person(g: Game, targets: Seq<TargetRef>, from: int) -> Option<PlayerModel>
    decreases targets.len() - from,
{
    if from < 0 || from >= targets.len() {
        None
    } else {
        match targets[from] {
            TargetRef::Player(p) if player_of(g, p) is Some => player_of(g, p),
            _ => target_person(g, targets, from + 1),
        }
    }
}

/// Being a card of one owner that is in the game.
pub open spec fn owned_by(g: Game, p: PlayerId) -> spec_fn(ObjectId) -> bool {
    |id: ObjectId| object_at(g, id) is Some && object_at(g, id)->0.owner == p
}

/// Being a card whose owner is in scope.
pub open spec fn owned_in_scope(g: Game, scope: CountScope, c: PlayerId) -> spec_fn(
    ObjectId,
) -> bool {
    |id: ObjectId| object_at(g, id) is Some && in_scope(object_at(g, id)->0.owner, scope, c)
}

/// The cards that a player has in a zone of the player's own.
pub open spec fn hand_or_pile(p: PlayerModel, zone: ZoneRef) -> Seq<ObjectId> {
    match zone {
        ZoneRef::Library => p.library,
        ZoneRef::Graveyard => p.graveyard,
        ZoneRef::Hand => p.hand,
        ZoneRef::Exile => Seq::empty(),
    }
}

/// The cards that the first `n` players in scope have in such a zone.
pub open spec fn piles(
    players: Seq<PlayerModel>,
    n: nat,
    zone: ZoneRef,
    scope: CountScope,
    c: PlayerId,
) -> Seq<ObjectId>
    decreases n,
{
    if n == 0 || n > players.len() {
        Seq::empty()
    } else {
        let front = piles(players, (n - 1) as nat, zone, scope, c);
        if in_scope(players[n - 1].id, scope, c) {
            front + hand_or_pile(players[n - 1], zone)
        } else {
            front
        }
    }
}

/// The cards in a zone whose players, or in exile whose owners, are in scope.
pub open spec fn cards_in(g: Game, zone: ZoneRef, scope: CountScope, c: PlayerId) -> Seq<ObjectId> {
    match zone {
        ZoneRef::Exile => g.exile.filter(owned_in_scope(g, scope, c)),
        _ => piles(g.players, g.players.len(), zone, scope, c),
    }
}

/// The card types of the first `n` objects of a list, one after another.
pub open spec fn types_among(g: Game, ids: Seq<ObjectId>, n: nat) -> Seq<CoreType>
    decreases n,
{
    if n == 0 || n > ids.len() {
        Seq::empty()
    } else {
        let front = types_among(g, ids, (n - 1) as nat);
        match object_at(g, ids[n - 1]) {
            Some(o) => front + o.card_types.core_types,
            None => front,
        }
    }
}

/// The colors of the first `n` objects of a list, one after another.
pub open spec fn colors_among(g: Game, ids: Seq<ObjectId>, n: nat) -> Seq<ManaColor>
    decreases n,
{
    if n == 0 || n > ids.len() {
        Seq::empty()
    } else {
        let front = colors_among(g, ids, (n - 1) as nat);
        match object_at(g, ids[n - 1]) {
            Some(o) => front + o.color,
            None => front,
        }
    }
}

/// The cards of a list of links.
pub open spec fn exiled_ids(g: Game, source: ObjectId) -> Seq<ObjectId> {
    Seq::new(exiled_with(g, source).len(), |i: int| exiled_with(g, source)[i].exiled_id)
}

/// Being a card of one of the given types; any card where none is given.
pub open spec fn card_of_types(g: Game, types: Seq<TypeFilter>) -> spec_fn(ObjectId) -> bool {
    |id: ObjectId|
        types.len() == 0 || (object_at(g, id) is Some && exists|i: int|
            0 <= i < types.len() && type_fits(
                #[trigger] types[i],
                object_at(g, id)->0.card_types.core_types,
                object_at(g, id)->0.card_types.subtypes,
            ))
}

/// The newest of the first `n` tracked sets.
pub open spec fn newest_set(s: Seq<(TrackedSetId, Vec<ObjectId>)>, n: nat) -> Option<
    (TrackedSetId, Vec<ObjectId>),
>
    decreases n,
{
    if n == 0 || n > s.len() {
        None
    } else {
        match newest_set(s, (n - 1) as nat) {
            Some(b) => if s[n - 1].0.0 >= b.0.0 {
                Some(s[n - 1])
            } else {
                Some(b)
            },
            None => Some(s[n - 1]),
        }
    }
}

/// Being a land of a player that has a subtype.
pub open spec fn land_with(g: Game, c: PlayerId, subtype: Seq<char>) -> spec_fn(ObjectId) -> bool {
    |id: ObjectId|
        object_at(g, id) is Some && object_at(g, id)->0.controller == c && object_at(
            g,
            id,
        )->0.card_types.core_types.contains(CoreType::Land) && holds_text(
            object_at(g, id)->0.card_types.subtypes,
            subtype,
        )
}

/// One where a player has a land with a subtype, else zero.
pub open spec fn has_land_with(g: Game, c: PlayerId, subtype: Seq<char>) -> nat {
    if count_where(g.battlefield, land_with(g, c, subtype)) > 0 {
        1
    } else {
        0
    }
}

/// Being a spell that a filter means.
pub open spec fn spell_meant(f: TargetFilter) -> spec_fn(SpellRecordModel) -> bool {
    |r: SpellRecordModel| record_is_meant(r, f)
}

/// Being the key of a permanent that came in this turn.
pub open spec fn came_in(g: Game) -> spec_fn(ObjectId) -> bool {
    |k: ObjectId|
        object_at(g, k) is Some && object_at(g, k)->0.zone == Zone::Battlefield && object_at(
            g,
            k,
        )->0.entered_battlefield_turn == Some(g.turn_number)
}

/// The permanents that came in this turn.
pub open spec fn newcomers(g: Game) -> Seq<ObjectId> {
    let keys = g.object_ids.filter(came_in(g));
    Seq::new(keys.len(), |i: int| g.objects[keys[i]].id)
}

/// Being a move of a permanent of a player away from the battlefield.
pub open spec fn left_of(c: PlayerId) -> spec_fn(ZoneRecordModel) -> bool {
    |r: ZoneRecordModel| r.from_zone == Some(Zone::Battlefield) && r.controller == c
}

/// Being a move of a permanent that is no land away from the battlefield.
pub open spec fn nonland_left() -> spec_fn(ZoneRecordModel) -> bool {
    |r: ZoneRecordModel|
        r.from_zone == Some(Zone::Battlefield) && !r.core_types.contains(CoreType::Land)
}

/// Being the death of a creature.
pub open spec fn creature_died() -> spec_fn(ZoneRecordModel) -> bool {
    |r: ZoneRecordModel|
        r.core_types.contains(CoreType::Creature) && r.from_zone == Some(Zone::Battlefield)
            && r.to_zone == Zone::Graveyard
}

/// The first number among chosen attributes from a place on.
pub open spec fn chosen_number(s: Seq<ChosenAttribute>, from: int) -> i32
    decreases s.len() - from,
{
    if from < 0 || from >= s.len() {
        0
    } else {
        match s[from] {
            ChosenAttribute::Number(n) => n as i32,
            _ => chosen_number(s, from + 1),
        }
    }
}

/// Being a player other than one.
pub open spec fn other_than(c: PlayerId) -> spec_fn(PlayerModel) -> bool {
    |p: PlayerModel| p.id != c
}

/// The life that each other player lost this turn.
pub open spec fn losses_of_others(g: Game, c: PlayerId) -> Seq<i32> {
    let o = g.players.filter(other_than(c));
    Seq::new(o.len(), |i: int| signed(o[i].life_lost_this_turn))
}

/// The life of each other player.
pub open spec fn lives_of_others(g: Game, c: PlayerId) -> Seq<i32> {
    let o = g.players.filter(other_than(c));
    Seq::new(o.len(), |i: int| o[i].life)
}

/// The hand size of each other player.
pub open spec fn hands_of_others(g: Game, c: PlayerId) -> Seq<i32> {
    let o = g.players.filter(other_than(c));
    Seq::new(o.len(), |i: int| capped(o[i].hand.len()))
}

/// Being an attachment of a kind whose controller is the one meant.
pub open spec fn attachment_meant(
    kind: AttachmentKind,
    ctrl: Option<ControllerRef>,
    sc: ScopeModel,
) -> spec_fn(AttachmentSnapshot) -> bool {
    |a: AttachmentSnapshot|
        a.kind == kind && (match ctrl {
            None => true,
            Some(ControllerRef::You) => a.controller == sc.controller,
            Some(ControllerRef::Opponent) => a.controller != sc.controller,
            Some(ControllerRef::TargetPlayer) => sc.in_ability && target_player(sc.targets, 0)
                == Some(a.controller),
        })
}

/// Whether a player is one that a filter counts.
pub open spec fn player_counts(
    g: Game,
    f: PlayerFilter,
    c: PlayerId,
    source: ObjectId,
    p: PlayerModel,
) -> bool {
    !p.is_eliminated && match f {
        PlayerFilter::Controller => p.id == c,
        PlayerFilter::Opponent => p.id != c,
        PlayerFilter::OpponentLostLife => p.id != c && p.life_lost_this_turn > 0,
        PlayerFilter::OpponentGainedLife => p.id != c && p.life_gained_this_turn > 0,
        PlayerFilter::All => true,
        PlayerFilter::HighestSpeed => forall|i: int|
            0 <= i < g.players.len() ==> speed_of(g, (#[trigger] g.players[i]).id) <= speed_of(
                g,
                p.id,
            ),
        PlayerFilter::ZoneChangedThisWay => exists|i: int|
            0 <= i < g.last_zone_changed_ids.len() && owned_by(g, p.id)(
                #[trigger] g.last_zone_changed_ids[i],
            ),
        PlayerFilter::OwnersOfCardsExiledBySource => owns_one(exiled_with(g, source), p.id),
        PlayerFilter::TriggeringPlayer => match g.current_trigger_event {
            Some(e) => event_player(e) == Some(p.id),
            None => false,
        },
    }
}

/// Being a player that a filter counts.
pub open spec fn counted_player(g: Game, f: PlayerFilter, c: PlayerId, source: ObjectId) -> spec_fn(
    PlayerModel,
) -> bool {
    |p: PlayerModel| player_counts(g, f, c, source, p)
}

/// The zone in which a filter's objects are looked for: the battlefield where it asks for none.
pub open spec fn zone_searched(f: TargetFilter) -> Zone {
    match zone_asked(f) {
        Some(z) => z,
        None => Zone::Battlefield,
    }
}

/// The objects that a filter means in the zone that it asks for.
pub open spec fn found(g: Game, f: TargetFilter, sc: ScopeModel) -> Seq<ObjectId>
    decreases f, 3nat, 0nat,
{
    let ids = zone_ids(g, zone_searched(f));
    matching(g, ids, ids.len(), f, filter_scope(sc))
}

/// The object that a count of "others" leaves out: the one that the trigger is about, else the
/// source.
pub open spec fn set_apart(g: Game, sc: ScopeModel) -> ObjectId {
    match trigger_source(g) {
        Some(id) => id,
        None => match sc.event {
            Some(e) => match event_source(e) {
                Some(id) => id,
                None => sc.source,
            },
            None => sc.source,
        },
    }
}

/// What a reference to a number stands for.
pub open spec fn ref_value(g: Game, q: QuantityRef, sc: ScopeModel) -> i32
    decreases q, 0nat, 0nat,
{
    let c = sc.controller;
    match q {
        QuantityRef::HandSize => of_player(g, c, |p: PlayerModel| capped(p.hand.len())),
        QuantityRef::LifeTotal => of_player(g, c, |p: PlayerModel| p.life),
        QuantityRef::PlayerCounter { kind, scope } => capped(
            player_counters(g.players, g.players.len(), kind, scope, c),
        ),
        QuantityRef::GraveyardSize => of_player(g, c, |p: PlayerModel| capped(p.graveyard.len())),
        QuantityRef::LifeAboveStarting => of_player(
            g,
            c,
            |p: PlayerModel| p.life.wrapping_sub(g.format_config.starting_life),
        ),
        QuantityRef::StartingLifeTotal => g.format_config.starting_life,
        QuantityRef::LifeLostThisTurn => of_player(
            g,
            c,
            |p: PlayerModel| signed(p.life_lost_this_turn),
        ),
        QuantityRef::Speed => speed_of(g, c) as i32,
        QuantityRef::ObjectCount { filter } => {
            let raw = found(g, filter, sc).len();
            if speaks_of_others(filter) && matches_filter(
                g,
                set_apart(g, sc),
                filter,
                filter_scope(sc),
            ) && raw > 0 {
                capped((raw - 1) as nat)
            } else {
                capped(raw)
            }
        },
        QuantityRef::ObjectCountDistinctNames { filter } => {
            let names = printed_names(g, found(g, filter, sc));
            capped(distinct(names.filter(named())) + count_where(names, unnamed()))
        },
        QuantityRef::PlayerCount { filter } => capped(
            count_where(g.players, counted_player(g, filter, c, sc.source)),
        ),
        QuantityRef::CountersOnSelf { counter_type } => match object_at(g, sc.source) {
            Some(o) => counters_on(o, Some(counter_named(counter_type@))),
            None => 0,
        },
        QuantityRef::Variable { name } => if name@ == "X"@ {
            match sc.chosen_x {
                Some(x) => signed(x),
                None => match trigger_object(g) {
                    Some(o) => signed_or_zero(o.cost_x_paid),
                    None => 0,
                },
            }
        } else {
            match g.last_named_choice {
                Some(ChoiceValue::Number(v)) => v as i32,
                _ => 0,
            }
        },
        QuantityRef::SelfPower => or_zero(known_power(g, sc.source)),
        QuantityRef::SelfToughness => or_zero(known_toughness(g, sc.source)),
        QuantityRef::Aggregate { function, property, filter } => {
            let values = properties_of(g, found(g, filter, sc), property);
            match function {
                AggregateFunction::Max => greatest(values),
                AggregateFunction::Min => least(values),
                AggregateFunction::Sum => wrapped_sum(values),
            }
        },
        QuantityRef::CountersOnTarget { counter_type } => match target_object(g, sc.targets, 0) {
            Some(o) => counters_on(o, Some(counter_named(counter_type@))),
            None => 0,
        },
        QuantityRef::AnyCountersOnTarget => match target_object(g, sc.targets, 0) {
            Some(o) => counters_on(o, None),
            None => 0,
        },
        QuantityRef::CountersOnObjects { counter_type, filter } => wrapped_sum(
            counters_of(
                g,
                found(g, filter, sc),
                match counter_type {
                    Some(t) => Some(counter_named(t@)),
                    None => None,
                },
            ),
        ),
        QuantityRef::TargetPower => match target_object(g, sc.targets, 0) {
            Some(o) => or_zero(o.power),
            None => 0,
        },
        QuantityRef::Devotion { colors } => signed(devotion_of(g, c, colors@)),
        QuantityRef::TargetLifeTotal => match target_person(g, sc.targets, 0) {
            Some(p) => p.life,
            None => 0,
        },
        QuantityRef::TargetZoneCardCount { zone } => match target_player(sc.targets, 0) {
            Some(pid) => of_player(
                g,
                pid,
                |p: PlayerModel|
                    match zone {
                        ZoneRef::Exile => capped(count_where(g.exile, owned_by(g, pid))),
                        _ => capped(hand_or_pile(p, zone).len()),
                    },
            ),
            None => 0,
        },
        QuantityRef::DistinctCardTypesInZone { zone, scope } => {
            let ids = cards_in(g, zone, scope, c);
            capped(distinct(types_among(g, ids, ids.len())))
        },
        QuantityRef::DistinctCardTypesExiledBySource => {
            let ids = exiled_ids(g, sc.source);
            capped(distinct(types_among(g, ids, ids.len())))
        },
        QuantityRef::CardsExiledBySource => capped(exiled_with(g, sc.source).len()),
        QuantityRef::ZoneCardCount { zone, card_types, scope } => capped(
            count_where(cards_in(g, zone, scope, c), card_of_types(g, card_types@)),
        ),
        QuantityRef::PreviousEffectAmount => or_zero(g.last_effect_amount),
        QuantityRef::TrackedSetSize => {
            let sets = g.tracked_object_sets.seq();
            match newest_set(sets, sets.len()) {
                Some(s) => capped(s.1@.len()),
                None => 0,
            }
        },
        QuantityRef::ExiledFromHandThisResolution => signed(g.exiled_from_hand_this_resolution),
        QuantityRef::EventContextAmount => match g.current_trigger_event {
            Some(e) if event_amount(e) is Some => or_zero(event_amount(e)),
            _ => or_zero(g.last_effect_count),
        },
        QuantityRef::EventContextSourcePower => match trigger_source(g) {
            Some(id) => or_zero(known_power(g, id)),
            None => 0,
        },
        QuantityRef::EventContextSourceToughness => match trigger_source(g) {
            Some(id) => or_zero(known_toughness(g, id)),
            None => 0,
        },
        QuantityRef::EventContextSourceManaValue => match trigger_source(g) {
            Some(id) => signed_or_zero(known_mana_value(g, id)),
            None => 0,
        },
        QuantityRef::EventContextSourceCostX => match trigger_object(g) {
            Some(o) => signed_or_zero(o.cost_x_paid),
            None => 0,
        },
        QuantityRef::ManaSpentOnTriggeringSpell => match trigger_object(g) {
            Some(o) => signed(o.mana_spent_to_cast_amount),
            None => 0,
        },
        QuantityRef::ManaSpentOnSelf => match object_at(g, self_object(sc)) {
            Some(o) => signed(o.mana_spent_to_cast_amount),
            None => 0,
        },
        QuantityRef::ColorsSpentOnSelf => match object_at(g, self_object(sc)) {
            Some(o) => colors_in_tally(o.colors_spent_to_cast) as i32,
            None => 0,
        },
        QuantityRef::ColorsInCommandersColorIdentity => capped(distinct(commander_colors(g, c))),
        QuantityRef::DistinctColorsAmongPermanents { filter } => {
            let ids = found(g, filter, sc);
            capped(distinct(colors_among(g, ids, ids.len())))
        },
        QuantityRef::BasicLandTypeCount => (has_land_with(g, c, "Plains"@) + has_land_with(
            g,
            c,
            "Island"@,
        ) + has_land_with(g, c, "Swamp"@) + has_land_with(g, c, "Mountain"@) + has_land_with(
            g,
            c,
            "Forest"@,
        )) as i32,
        QuantityRef::SpellsCastThisTurn { filter } => if g.spells_cast_this_turn_by_player.dom().contains(
        c) {
            let list = g.spells_cast_this_turn_by_player[c];
            match filter {
                None => capped(list.len()),
                Some(f) => capped(count_where(list, spell_meant(f))),
            }
        } else {
            0
        },
        QuantityRef::EnteredThisTurn { filter } => {
            let ids = newcomers(g);
            capped(matching(g, ids, ids.len(), filter, filter_scope(sc)).len())
        },
        QuantityRef::CrimesCommittedThisTurn => of_player(
            g,
            c,
            |p: PlayerModel| signed(p.crimes_committed_this_turn),
        ),
        QuantityRef::LifeGainedThisTurn => of_player(
            g,
            c,
            |p: PlayerModel| signed(p.life_gained_this_turn),
        ),
        QuantityRef::PermanentsLeftBattlefieldThisTurn => capped(
            count_where(g.zone_changes_this_turn, left_of(c)),
        ),
        QuantityRef::NonlandPermanentsLeftBattlefieldThisTurn => capped(
            count_where(g.zone_changes_this_turn, nonland_left()),
        ),
        QuantityRef::TurnsTaken => of_player(g, c, |p: PlayerModel| signed(p.turns_taken)),
        QuantityRef::ChosenNumber => match object_at(g, sc.source) {
            Some(o) => chosen_number(o.chosen_attributes, 0),
            None => 0,
        },
        QuantityRef::CreaturesDiedThisTurn => capped(
            count_where(g.zone_changes_this_turn, creature_died()),
        ),
        QuantityRef::AttackedThisTurn => if g.players_attacked_this_turn.contains(c) {
            1
        } else {
            0
        },
        QuantityRef::DescendedThisTurn => of_player(
            g,
            c,
            |p: PlayerModel|
                if p.descended_this_turn {
                    1i32
                } else {
                    0i32
                },
        ),
        QuantityRef::SpellsCastLastTurn => match g.spells_cast_last_turn {
            Some(n) => n as i32,
            None => 0,
        },
        QuantityRef::OpponentLifeLostThisTurn => wrapped_sum(losses_of_others(g, c)),
        QuantityRef::CounterAddedThisTurn => if g.players_who_added_counter_this_turn.contains(c) {
            1
        } else {
            0
        },
        QuantityRef::OpponentDiscardedCardThisTurn => if exists|p: PlayerId|
            p != c && g.players_who_discarded_card_this_turn.contains(p) {
            1
        } else {
            0
        },
        QuantityRef::OpponentLifeTotal => greatest(lives_of_others(g, c)),
        QuantityRef::OpponentHandSize => greatest(hands_of_others(g, c)),
        QuantityRef::DungeonsCompleted => signed(count_in(g.dungeons_completed, c)),
        QuantityRef::CostXPaid => match object_at(g, sc.source) {
            Some(o) if o.cost_x_paid is Some => signed_or_zero(o.cost_x_paid),
            _ => signed_or_zero(sc.chosen_x),
        },
        QuantityRef::AttachmentsOnLeavingObject { kind, controller } => match g.current_trigger_event {
            Some(EventModel::ZoneChanged { record, .. }) => capped(
                count_where(record.attachments, attachment_meant(kind, controller, sc)),
            ),
            _ => 0,
        },
    }
}

/// What a number, fixed or computed, is. A result that does not fit 32 bits wraps around.
pub open spec fn value_of(g: Game, e: QuantityExpr, sc: ScopeModel) -> i32
    decreases e, 0nat, 0nat,
{
    match e {
        QuantityExpr::Fixed { value } => value,
        QuantityExpr::Ref { qty } => ref_value(g, qty, sc),
        QuantityExpr::HalfRounded { inner, rounding } => half_of(value_of(g, *inner, sc), rounding),
        QuantityExpr::Offset { inner, offset } => value_of(g, *inner, sc).wrapping_add(offset),
        QuantityExpr::Multiply { factor, inner } => factor.wrapping_mul(value_of(g, *inner, sc)),
    }
}

/// Half of a number, rounded the given way.
pub fn half_rounded(value: i32, rounding: RoundingMode) -> (r: i32)
    ensures
        r == half_of(value, rounding),
{
    let whole: i32 = match rounding {
        RoundingMode::Up => value.wrapping_add(1),
        RoundingMode::Down => value,
    };
    if whole >= 0 {
        whole / 2
    } else if whole % 2 == 0 {
        whole / 2
    } else {
        // Rounding away from the least number keeps the negation in range.
        (whole + 1) / 2
    }
}

fn zero_or(n: Option<i32>) -> (r: i32)
    ensures
        r == or_zero(n),
{
    match n {
        Some(v) => v,
        None => 0,
    }
}

fn zero_or_signed(n: Option<u32>) -> (r: i32)
    ensures
        r == signed_or_zero(n),
{
    match n {
        Some(v) => u32_to_i32_saturating(v),
        None => 0,
    }
}

fn trigger_source_id(state: &GameState) -> (r: Option<ObjectId>)
    ensures
        r == trigger_source(state@),
{
    match &state.current_trigger_event {
        Some(e) => extract_source_from_event(e),
        None => None,
    }
}

fn trigger_obj(state: &GameState) -> (r: Option<&GameObject>)
    ensures
        match r {
            Some(o) => trigger_object(state@) == Some(o@),
            None => trigger_object(state@) is None,
        },
{
    match trigger_source_id(state) {
        Some(id) => state.object(id),
        None => None,
    }
}

fn scope_has(p: PlayerId, scope: CountScope, controller: PlayerId) -> (r: bool)
    ensures
        r == in_scope(p, scope, controller),
{
    match scope {
        CountScope::Controller => p == controller,
        CountScope::All => true,
        CountScope::Opponents => p != controller,
    }
}

fn count_player_counters(
    state: &GameState,
    kind: crate::ability::PlayerCounterKind,
    scope: CountScope,
    c: PlayerId,
) -> (r: i32)
    ensures
        r == capped(player_counters(state@.players, state@.players.len(), kind, scope, c)),
{
    let ghost ps = state@.players;
    let mut total: u64 = 0;
    let mut i: usize = 0;
    while i < state.players.len()
        invariant
            i <= ps.len(),
            ps == state@.players,
            ps.len() == state.players@.len(),
            total == (if player_counters(ps, i as nat, kind, scope, c) > u64::MAX {
                u64::MAX as int
            } else {
                player_counters(ps, i as nat, kind, scope, c) as int
            }),
        decreases ps.len() - i,
    {
        assert(ps[i as int] == state.players@[i as int]@);
        if scope_has(state.players[i].id, scope, c) {
            total = total.saturating_add(state.players[i].player_counter(kind) as u64);
        }
        i += 1;
    }
    if total > i32::MAX as u64 {
        i32::MAX
    } else {
        total as i32
    }
}

fn power_known(state: &GameState, id: ObjectId) -> (r: i32)
    ensures
        r == or_zero(known_power(state@, id)),
{
    if let Some(o) = state.object(id) {
        if let Some(p) = o.power {
            return p;
        }
    }
    match state.lki_cache.get(&id) {
        Some(l) => zero_or(l.power),
        None => 0,
    }
}

fn toughness_known(state: &GameState, id: ObjectId) -> (r: i32)
    ensures
        r == or_zero(known_toughness(state@, id)),
{
    if let Some(o) = state.object(id) {
        if let Some(p) = o.toughness {
            return p;
        }
    }
    match state.lki_cache.get(&id) {
        Some(l) => zero_or(l.toughness),
        None => 0,
    }
}

fn mana_value_known(state: &GameState, id: ObjectId) -> (r: i32)
    ensures
        r == signed_or_zero(known_mana_value(state@, id)),
{
    match state.object(id) {
        Some(o) => u32_to_i32_saturating(o.mana_cost.mana_value()),
        None => match state.lki_cache.get(&id) {
            Some(l) => u32_to_i32_saturating(l.mana_value),
            None => 0,
        },
    }
}

fn object_property(o: &GameObject, p: ObjectProperty) -> (r: i32)
    ensures
        r == property_of(o@, p),
{
    match p {
        ObjectProperty::Power => zero_or(o.power),
        ObjectProperty::Toughness => zero_or(o.toughness),
        ObjectProperty::ManaValue => u32_to_i32_saturating(o.mana_cost.mana_value()),
    }
}

fn object_counters(o: &GameObject, kind: Option<&CounterType>) -> (r: i32)
    ensures
        r == counters_on(
            o@,
            match kind {
                Some(k) => Some(k@),
                None => None,
            },
        ),
{
    match kind {
        Some(k) => u32_to_i32_saturating(count_of_key(&o.counters, k)),
        None => o.counters.total(),
    }
}

/// The objects of a list are all in the game.
spec fn all_there(g: Game, ids: Seq<ObjectId>) -> bool {
    forall|i: int| 0 <= i < ids.len() ==> object_at(g, #[trigger] ids[i]) is Some
}

fn collect_properties(state: &GameState, ids: &Vec<ObjectId>, p: ObjectProperty) -> (r: Vec<i32>)
    requires
        all_there(state@, ids@),
    ensures
        r@ == properties_of(state@, ids@, p),
{
    let mut out: Vec<i32> = Vec::new();
    let mut i: usize = 0;
    while i < ids.len()
        invariant
            i <= ids@.len(),
            all_there(state@, ids@),
            out@ == properties_of(state@, ids@, p).take(i as int),
        decreases ids.len() - i,
    {
        proof {
            lemma_take_next(properties_of(state@, ids@, p), i as int);
            assert(object_at(state@, ids@[i as int]) is Some);
        }
        let v: i32 = match state.object(ids[i]) {
            Some(o) => object_property(o, p),
            None => 0,
        };
        out.push(v);
        i += 1;
    }
    proof {
        lemma_take_all(properties_of(state@, ids@, p));
    }
    out
}

fn collect_counters(state: &GameState, ids: &Vec<ObjectId>, kind: Option<&CounterType>) -> (r: Vec<i32>)
    requires
        all_there(state@, ids@),
    ensures
        r@ == counters_of(
            state@,
            ids@,
            match kind {
                Some(k) => Some(k@),
                None => None,
            },
        ),
{
    let ghost k = match kind {
        Some(k) => Some(k@),
        None => None,
    };
    let ghost all = counters_of(state@, ids@, k);
    let mut out: Vec<i32> = Vec::new();
    let mut i: usize = 0;
    while i < ids.len()
        invariant
            i <= ids@.len(),
            all == counters_of(state@, ids@, k),
            k == (match kind {
                Some(k) => Some(k@),
                None => None,
            }),
            all_there(state@, ids@),
            out@ == all.take(i as int),
        decreases ids.len() - i,
    {
        proof {
            lemma_take_next(all, i as int);
            assert(object_at(state@, ids@[i as int]) is Some);
        }
        let v: i32 = match state.object(ids[i]) {
            Some(o) => object_counters(o, kind),
            None => 0,
        };
        out.push(v);
        i += 1;
    }
    proof {
        lemma_take_all(all);
    }
    out
}

fn count_names(state: &GameState, ids: &Vec<ObjectId>) -> (r: i32)
    requires
        all_there(state@, ids@),
    ensures
        r == capped(
            distinct(printed_names(state@, ids@).filter(named())) + count_where(
                printed_names(state@, ids@),
                unnamed(),
            ),
        ),
{
    let ghost all = printed_names(state@, ids@);
    let mut names: Vec<String> = Vec::new();
    let mut blank: usize = 0;
    let mut i: usize = 0;
    proof {
        lemma_filter_start(all, named());
        lemma_filter_start(all, unnamed());
        assert(seq_view(names@) =~= Seq::<Seq<char>>::empty());
    }
    while i < ids.len()
        invariant
            i <= ids@.len(),
            all == printed_names(state@, ids@),
            all_there(state@, ids@),
            blank + names@.len() == i,
            seq_view(names@) == all.take(i as int).filter(named()),
            blank == count_where(all.take(i as int), unnamed()),
            all.take(all.len() as int) == all,
        decreases ids.len() - i,
    {
        proof {
            lemma_filter_next(all, i as int, named());
            lemma_count_next(all, i as int, unnamed());
            assert(object_at(state@, ids@[i as int]) is Some);
        }
        if let Some(o) = state.object(ids[i]) {
            if o.base_name.as_str().is_empty() {
                blank += 1;
            } else {
                names.push(o.base_name.clone());
            }
        }
        i += 1;
    }
    let different: usize = distinct_count(&names);
    proof {
        seq_view(names@).lemma_cardinality_of_set();
    }
    usize_to_i32_saturating(different + blank)
}

fn first_target_object<'a, 'b>(state: &'b GameState, sc: &Scope<'a>) -> (r: Option<&'b GameObject>)
    ensures
        match r {
            Some(o) => target_object(state@, sc@.targets, 0) == Some(o@),
            None => target_object(state@, sc@.targets, 0) is None,
        },
{
    match sc.targets {
        None => None,
        Some(list) => {
            let mut i: usize = 0;
            while i < list.len()
                invariant
                    i <= list@.len(),
                    sc.targets == Some(list),
                    target_object(state@, list@, 0) == target_object(state@, list@, i as int),
                decreases list.len() - i,
            {
                if let TargetRef::Object(id) = list[i] {
                    let o = state.object(id);
                    if o.is_some() {
                        return o;
                    }
                }
                i += 1;
            }
            None
        },
    }
}

fn first_target_person<'a, 'b>(state: &'b GameState, sc: &Scope<'a>) -> (r: Option<&'b Player>)
    ensures
        match r {
            Some(p) => target_person(state@, sc@.targets, 0) == Some(p@),
            None => target_person(state@, sc@.targets, 0) is None,
        },
{
    match sc.targets {
        None => None,
        Some(list) => {
            let mut i: usize = 0;
            while i < list.len()
                invariant
                    i <= list@.len(),
                    sc.targets == Some(list),
                    target_person(state@, list@, 0) == target_person(state@, list@, i as int),
                decreases list.len() - i,
            {
                if let TargetRef::Player(p) = list[i] {
                    let q = state.player(p);
                    if q.is_some() {
                        return q;
                    }
                }
                i += 1;
            }
            None
        },
    }
}

fn exiled_cards_of(state: &GameState, p: PlayerId) -> (r: usize)
    ensures
        r == count_where(state@.exile, owned_by(state@, p)),
{
    let ghost s = state@.exile;
    let ghost keep = owned_by(state@, p);
    proof {
        lemma_filter_start(s, keep);
    }
    let mut n: usize = 0;
    let mut i: usize = 0;
    while i < state.exile.len()
        invariant
            i <= s.len(),
            s == state@.exile,
            s == state.exile@,
            keep == owned_by(state@, p),
            n <= i,
            n == count_where(s.take(i as int), keep),
            s.take(s.len() as int) == s,
        decreases s.len() - i,
    {
        proof {
            lemma_count_next(s, i as int, keep);
        }
        if let Some(o) = state.object(state.exile[i]) {
            if o.owner == p {
                n += 1;
            }
        }
        i += 1;
    }
    n
}

/// The cards in a zone whose players, or in exile whose owners, are in scope.
fn scoped_cards(state: &GameState, zone: ZoneRef, scope: CountScope, c: PlayerId) -> (r: Vec<ObjectId>)
    ensures
        r@ == cards_in(state@, zone, scope, c),
{
    let ghost g = state@;
    let mut out: Vec<ObjectId> = Vec::new();
    if zone == ZoneRef::Exile {
        let ghost s = g.exile;
        let ghost keep = owned_in_scope(g, scope, c);
        proof {
            lemma_filter_start(s, keep);
        }
        let mut i: usize = 0;
        while i < state.exile.len()
            invariant
                i <= s.len(),
                g == state@,
                s == state.exile@,
                keep == owned_in_scope(g, scope, c),
                out@ == s.take(i as int).filter(keep),
                s.take(s.len() as int) == s,
            decreases s.len() - i,
        {
            proof {
                lemma_filter_next(s, i as int, keep);
            }
            if let Some(o) = state.object(state.exile[i]) {
                if scope_has(o.owner, scope, c) {
                    out.push(state.exile[i]);
                }
            }
            i += 1;
        }
    } else {
        let mut i: usize = 0;
        while i < state.players.len()
            invariant
                i <= state.players@.len(),
                g == state@,
                zone != ZoneRef::Exile,
                out@ == piles(g.players, i as nat, zone, scope, c),
            decreases state.players.len() - i,
        {
            let p = &state.players[i];
            assert(g.players[i as int] == p@);
            if scope_has(p.id, scope, c) {
                match zone {
                    ZoneRef::Library => append_ids(&mut out, &p.library),
                    ZoneRef::Graveyard => append_ids(&mut out, &p.graveyard),
                    _ => append_ids(&mut out, &p.hand),
                }
            }
            i += 1;
        }
    }
    out
}

/// Appends one list of card types to another.
pub fn append_types(out: &mut Vec<CoreType>, list: &Vec<CoreType>)
    ensures
        final(out)@ == old(out)@ + list@,
{
    let ghost start = out@;
    let mut j: usize = 0;
    assert(start + list@.take(0) =~= start);
    while j < list.len()
        invariant
            j <= list@.len(),
            out@ == start + list@.take(j as int),
        decreases list.len() - j,
    {
        out.push(list[j]);
        proof {
            lemma_take_next(list@, j as int);
            assert(start + list@.take(j as int).push(list@[j as int]) =~= (start + list@.take(
                j as int,
            )).push(list@[j as int]));
        }
        j += 1;
    }
    assert(list@.take(j as int) =~= list@);
}

fn count_types(state: &GameState, ids: &Vec<ObjectId>) -> (r: i32)
    ensures
        r == capped(distinct(types_among(state@, ids@, ids@.len()))),
{
    let ghost g = state@;
    let mut out: Vec<CoreType> = Vec::new();
    let mut i: usize = 0;
    while i < ids.len()
        invariant
            i <= ids@.len(),
            g == state@,
            out@ == types_among(g, ids@, i as nat),
        decreases ids.len() - i,
    {
        if let Some(o) = state.object(ids[i]) {
            append_types(&mut out, &o.card_types.core_types);
        }
        i += 1;
    }
    assert(seq_view(out@) =~= out@);
    usize_to_i32_saturating(distinct_count(&out))
}

fn count_colors(state: &GameState, ids: &Vec<ObjectId>) -> (r: i32)
    ensures
        r == capped(distinct(colors_among(state@, ids@, ids@.len()))),
{
    let ghost g = state@;
    let mut out: Vec<ManaColor> = Vec::new();
    let mut i: usize = 0;
    while i < ids.len()
        invariant
            i <= ids@.len(),
            g == state@,
            out@ == colors_among(g, ids@, i as nat),
        decreases ids.len() - i,
    {
        if let Some(o) = state.object(ids[i]) {
            crate::devotion::append_colors(&mut out, &o.color);
        }
        i += 1;
    }
    assert(seq_view(out@) =~= out@);
    usize_to_i32_saturating(distinct_count(&out))
}

fn exiled_card_ids(state: &GameState, source: ObjectId) -> (r: Vec<ObjectId>)
    ensures
        r@ == exiled_ids(state@, source),
{
    let cards = linked_exile_cards_for_source(state, source);
    let mut out: Vec<ObjectId> = Vec::new();
    let mut i: usize = 0;
    while i < cards.len()
        invariant
            i <= cards@.len(),
            out@ == Seq::new(i as nat, |k: int| cards@[k].exiled_id),
        decreases cards.len() - i,
    {
        out.push(cards[i].exiled_id);
        assert(out@ =~= Seq::new((i + 1) as nat, |k: int| cards@[k].exiled_id));
        i += 1;
    }
    assert(out@ =~= exiled_ids(state@, source));
    out
}

/// Whether a card is of one of the given types; any card is where none is given.
pub fn matches_zone_card_filter(state: &GameState, id: ObjectId, types: &Vec<TypeFilter>) -> (r: bool)
    ensures
        r == card_of_types(state@, types@)(id),
{
    if types.len() == 0 {
        return true;
    }
    match state.object(id) {
        None => false,
        Some(o) => {
            let mut i: usize = 0;
            while i < types.len()
                invariant
                    i <= types@.len(),
                    object_at(state@, id) == Some(o@),
                    types@.len() > 0,
                    forall|j: int|
                        0 <= j < i ==> !type_fits(
                            #[trigger] types@[j],
                            o@.card_types.core_types,
                            o@.card_types.subtypes,
                        ),
                decreases types.len() - i,
            {
                if type_filter_matches(&types[i], o) {
                    return true;
                }
                i += 1;
            }
            false
        },
    }
}

fn count_cards(state: &GameState, ids: &Vec<ObjectId>, types: &Vec<TypeFilter>) -> (r: usize)
    ensures
        r == count_where(ids@, card_of_types(state@, types@)),
{
    let ghost keep = card_of_types(state@, types@);
    proof {
        lemma_filter_start(ids@, keep);
    }
    let mut n: usize = 0;
    let mut i: usize = 0;
    while i < ids.len()
        invariant
            i <= ids@.len(),
            keep == card_of_types(state@, types@),
            n <= i,
            n == count_where(ids@.take(i as int), keep),
            ids@.take(ids@.len() as int) == ids@,
        decreases ids.len() - i,
    {
        proof {
            lemma_count_next(ids@, i as int, keep);
        }
        if matches_zone_card_filter(state, ids[i], types) {
            n += 1;
        }
        i += 1;
    }
    n
}

fn newest_tracked_size(t: &Table<TrackedSetId, Vec<ObjectId>>) -> (r: i32)
    ensures
        r == (match newest_set(t.seq(), t.seq().len()) {
            Some(s) => capped(s.1@.len()),
            None => 0,
        }),
{
    let ghost s = t.seq();
    let mut best: Option<usize> = None;
    let mut i: usize = 0;
    while i < t.len()
        invariant
            i <= s.len(),
            s == t.seq(),
            match best {
                Some(b) => b < i && newest_set(s, i as nat) == Some(s[b as int]),
                None => newest_set(s, i as nat) is None,
            },
        decreases s.len() - i,
    {
        best = match best {
            Some(b) => if t.key_at(i).0 >= t.key_at(b).0 {
                Some(i)
            } else {
                Some(b)
            },
            None => Some(i),
        };
        i += 1;
    }
    match best {
        Some(b) => usize_to_i32_saturating(t.value_at(b).len()),
        None => 0,
    }
}

fn basic_land_types(state: &GameState, c: PlayerId, subtype: &str) -> (r: i32)
    ensures
        r == has_land_with(state@, c, subtype@) as i32,
        0 <= r <= 1,
{
    let ghost s = state@.battlefield;
    let ghost keep = land_with(state@, c, subtype@);
    proof {
        crate::seqs::lemma_count_positive_where(s, keep);
    }
    let mut i: usize = 0;
    while i < state.battlefield.len()
        invariant
            i <= s.len(),
            s == state.battlefield@,
            s == state@.battlefield,
            keep == land_with(state@, c, subtype@),
            count_where(s, keep) > 0 <==> exists|k: int| 0 <= k < s.len() && keep(#[trigger] s[k]),
            forall|k: int| 0 <= k < i ==> !keep(#[trigger] s[k]),
        decreases s.len() - i,
    {
        if let Some(o) = state.object(state.battlefield[i]) {
            if o.controller == c && has_core_type(&o.card_types.core_types, CoreType::Land)
                && contains_text(&o.card_types.subtypes, subtype) {
                assert(keep(s[i as int]));
                return 1;
            }
        }
        i += 1;
    }
    0
}

fn count_spells(list: &Vec<SpellCastRecord>, f: &TargetFilter) -> (r: usize)
    ensures
        r == count_where(seq_view(list@), spell_meant(*f)),
{
    let ghost s = seq_view(list@);
    let ghost keep = spell_meant(*f);
    proof {
        lemma_filter_start(s, keep);
    }
    let mut n: usize = 0;
    let mut i: usize = 0;
    while i < list.len()
        invariant
            i <= s.len(),
            s == seq_view(list@),
            keep == spell_meant(*f),
            n <= i,
            n == count_where(s.take(i as int), keep),
            s.take(s.len() as int) == s,
        decreases s.len() - i,
    {
        proof {
            lemma_count_next(s, i as int, keep);
        }
        if spell_record_matches_filter(&list[i], f) {
            n += 1;
        }
        i += 1;
    }
    n
}

fn newcomer_ids(state: &GameState) -> (r: Vec<ObjectId>)
    ensures
        r@ == newcomers(state@),
{
    let ghost g = state@;
    let ghost s = g.object_ids;
    let ghost keep = came_in(g);
    let mut out: Vec<ObjectId> = Vec::new();
    let ghost mut keys = Seq::<ObjectId>::empty();
    let mut i: usize = 0;
    proof {
        lemma_filter_start(s, keep);
    }
    while i < state.objects.len()
        invariant
            i <= s.len(),
            g == state@,
            s == g.object_ids,
            s.len() == state.objects.seq().len(),
            keep == came_in(g),
            keys == s.take(i as int).filter(keep),
            out@ == Seq::new(keys.len(), |k: int| g.objects[keys[k]].id),
            s.take(s.len() as int) == s,
        decreases s.len() - i,
    {
        proof {
            lemma_filter_next(s, i as int, keep);
        }
        let id = *state.objects.key_at(i);
        assert(id == s[i as int]);
        let ghost before = keys;
        proof {
            keys = s.take(i + 1).filter(keep);
        }
        if let Some(o) = state.object(id) {
            if o.zone == Zone::Battlefield && o.entered_battlefield_turn == Some(state.turn_number) {
                out.push(o.id);
            }
        }
        assert(out@ =~= Seq::new(keys.len(), |k: int| g.objects[keys[k]].id));
        i += 1;
    }
    out
}

#[derive(Clone, Copy)]
enum Move {
    Of(PlayerId),
    Nonland,
    Death,
}

spec fn move_meant(m: Move) -> spec_fn(ZoneRecordModel) -> bool {
    match m {
        Move::Of(c) => left_of(c),
        Move::Nonland => nonland_left(),
        Move::Death => creature_died(),
    }
}

fn count_moves(state: &GameState, m: Move) -> (r: i32)
    ensures
        r == capped(count_where(state@.zone_changes_this_turn, move_meant(m))),
{
    let ghost s = state@.zone_changes_this_turn;
    let ghost keep = move_meant(m);
    proof {
        lemma_filter_start(s, keep);
    }
    let mut n: usize = 0;
    let mut i: usize = 0;
    while i < state.zone_changes_this_turn.len()
        invariant
            i <= s.len(),
            s == seq_view(state.zone_changes_this_turn@),
            keep == move_meant(m),
            n <= i,
            n == count_where(s.take(i as int), keep),
            s.take(s.len() as int) == s,
        decreases s.len() - i,
    {
        proof {
            lemma_count_next(s, i as int, keep);
        }
        let r = &state.zone_changes_this_turn[i];
        assert(s[i as int] == r@);
        let from_battlefield: bool = match r.from_zone {
            Some(z) => z == Zone::Battlefield,
            None => false,
        };
        let hit: bool = from_battlefield && match m {
            Move::Of(c) => r.controller == c,
            Move::Nonland => !has_core_type(&r.core_types, CoreType::Land),
            Move::Death => has_core_type(&r.core_types, CoreType::Creature) && r.to_zone
                == Zone::Graveyard,
        };
        if hit {
            n += 1;
        }
        i += 1;
    }
    usize_to_i32_saturating(n)
}

fn first_chosen_number(list: &Vec<ChosenAttribute>) -> (r: i32)
    ensures
        r == chosen_number(list@, 0),
{
    let mut i: usize = 0;
    while i < list.len()
        invariant
            i <= list@.len(),
            chosen_number(list@, 0) == chosen_number(list@, i as int),
        decreases list.len() - i,
    {
        if let ChosenAttribute::Number(n) = list[i] {
            return n as i32;
        }
        i += 1;
    }
    0
}

#[derive(Clone, Copy)]
enum Stat {
    LifeLost,
    Life,
    HandSize,
}

spec fn stat_of(p: PlayerModel, s: Stat) -> i32 {
    match s {
        Stat::LifeLost => signed(p.life_lost_this_turn),
        Stat::Life => p.life,
        Stat::HandSize => capped(p.hand.len()),
    }
}

spec fn stats_of_others(g: Game, c: PlayerId, s: Stat) -> Seq<i32> {
    let o = g.players.filter(other_than(c));
    Seq::new(o.len(), |i: int| stat_of(o[i], s))
}

fn collect_stats(state: &GameState, c: PlayerId, stat: Stat) -> (r: Vec<i32>)
    ensures
        r@ == stats_of_others(state@, c, stat),
{
    let ghost s = state@.players;
    let ghost keep = other_than(c);
    let mut out: Vec<i32> = Vec::new();
    let ghost mut o = Seq::<PlayerModel>::empty();
    proof {
        lemma_filter_start(s, keep);
    }
    let mut i: usize = 0;
    while i < state.players.len()
        invariant
            i <= s.len(),
            s == state@.players,
            s.len() == state.players@.len(),
            keep == other_than(c),
            o == s.take(i as int).filter(keep),
            out@ == Seq::new(o.len(), |k: int| stat_of(o[k], stat)),
            s.take(s.len() as int) == s,
        decreases s.len() - i,
    {
        proof {
            lemma_filter_next(s, i as int, keep);
            o = s.take(i + 1).filter(keep);
        }
        let p = &state.players[i];
        assert(p@ == s[i as int]);
        if p.id != c {
            let v: i32 = match stat {
                Stat::LifeLost => u32_to_i32_saturating(p.life_lost_this_turn),
                Stat::Life => p.life,
                Stat::HandSize => usize_to_i32_saturating(p.hand.len()),
            };
            out.push(v);
        }
        assert(out@ =~= Seq::new(o.len(), |k: int| stat_of(o[k], stat)));
        i += 1;
    }
    out
}

fn attachments_meant<'a>(
    list: &Vec<AttachmentSnapshot>,
    kind: AttachmentKind,
    ctrl: Option<ControllerRef>,
    sc: &Scope<'a>,
) -> (r: usize)
    ensures
        r == count_where(list@, attachment_meant(kind, ctrl, sc@)),
{
    let ghost keep = attachment_meant(kind, ctrl, sc@);
    proof {
        lemma_filter_start(list@, keep);
    }
    let mut n: usize = 0;
    let mut i: usize = 0;
    while i < list.len()
        invariant
            i <= list@.len(),
            keep == attachment_meant(kind, ctrl, sc@),
            n <= i,
            n == count_where(list@.take(i as int), keep),
            list@.take(list@.len() as int) == list@,
        decreases list.len() - i,
    {
        proof {
            lemma_count_next(list@, i as int, keep);
        }
        let a = list[i];
        let hit: bool = a.kind == kind && match ctrl {
            None => true,
            Some(ControllerRef::You) => a.controller == sc.controller,
            Some(ControllerRef::Opponent) => a.controller != sc.controller,
            Some(ControllerRef::TargetPlayer) => sc.in_ability && match first_target_player(sc) {
                Some(p) => p == a.controller,
                None => false,
            },
        };
        if hit {
            n += 1;
        }
        i += 1;
    }
    n
}

fn is_fastest(state: &GameState, p: PlayerId) -> (r: bool)
    ensures
        r == (forall|i: int|
            0 <= i < state@.players.len() ==> speed_of(state@, (#[trigger] state@.players[i]).id)
                <= speed_of(state@, p)),
{
    let ghost ps = state@.players;
    let own: u8 = effective_speed(state, p);
    let mut i: usize = 0;
    while i < state.players.len()
        invariant
            i <= ps.len(),
            ps == state@.players,
            ps.len() == state.players@.len(),
            own == speed_of(state@, p),
            forall|j: int| 0 <= j < i ==> speed_of(state@, (#[trigger] ps[j]).id) <= own,
        decreases ps.len() - i,
    {
        assert(ps[i as int] == state.players@[i as int]@);
        if effective_speed(state, state.players[i].id) > own {
            assert(speed_of(state@, ps[i as int].id) > own);
            return false;
        }
        i += 1;
    }
    true
}

fn moved_card_of(state: &GameState, p: PlayerId) -> (r: bool)
    ensures
        r == (exists|i: int|
            0 <= i < state@.last_zone_changed_ids.len() && owned_by(state@, p)(
                #[trigger] state@.last_zone_changed_ids[i],
            )),
{
    let ghost s = state@.last_zone_changed_ids;
    let mut i: usize = 0;
    while i < state.last_zone_changed_ids.len()
        invariant
            i <= s.len(),
            s == state.last_zone_changed_ids@,
            s == state@.last_zone_changed_ids,
            forall|j: int| 0 <= j < i ==> !owned_by(state@, p)(#[trigger] s[j]),
        decreases s.len() - i,
    {
        if let Some(o) = state.object(state.last_zone_changed_ids[i]) {
            if o.owner == p {
                assert(owned_by(state@, p)(s[i as int]));
                return true;
            }
        }
        i += 1;
    }
    false
}

/// The number of players that a filter counts.
pub fn resolve_player_count(
    state: &GameState,
    filter: PlayerFilter,
    controller: PlayerId,
    source_id: ObjectId,
) -> (r: i32)
    ensures
        r == capped(count_where(state@.players, counted_player(state@, filter, controller, source_id))),
{
    let ghost s = state@.players;
    let ghost keep = counted_player(state@, filter, controller, source_id);
    proof {
        lemma_filter_start(s, keep);
    }
    let mut n: usize = 0;
    let mut i: usize = 0;
    while i < state.players.len()
        invariant
            i <= s.len(),
            s == state@.players,
            s.len() == state.players@.len(),
            keep == counted_player(state@, filter, controller, source_id),
            n <= i,
            n == count_where(s.take(i as int), keep),
            s.take(s.len() as int) == s,
        decreases s.len() - i,
    {
        proof {
            lemma_count_next(s, i as int, keep);
        }
        let p = &state.players[i];
        assert(p@ == s[i as int]);
        let hit: bool = !p.is_eliminated && match filter {
            PlayerFilter::Controller => p.id == controller,
            PlayerFilter::Opponent => p.id != controller,
            PlayerFilter::OpponentLostLife => p.id != controller && p.life_lost_this_turn > 0,
            PlayerFilter::OpponentGainedLife => p.id != controller && p.life_gained_this_turn > 0,
            PlayerFilter::All => true,
            PlayerFilter::HighestSpeed => is_fastest(state, p.id),
            PlayerFilter::ZoneChangedThisWay => moved_card_of(state, p.id),
            PlayerFilter::OwnersOfCardsExiledBySource => owns_card_exiled_by_source(
                state,
                p.id,
                source_id,
            ),
            PlayerFilter::TriggeringPlayer => match &state.current_trigger_event {
                Some(e) => match extract_player_from_event(e) {
                    Some(q) => q == p.id,
                    None => false,
                },
                None => false,
            },
        };
        if hit {
            n += 1;
        }
        i += 1;
    }
    usize_to_i32_saturating(n)
}

fn opponent_discarded(state: &GameState, c: PlayerId) -> (r: bool)
    ensures
        r == exists|p: PlayerId| p != c && state@.players_who_discarded_card_this_turn.contains(p),
{
    let set = &state.players_who_discarded_card_this_turn;
    proof {
        set.lemma_members();
    }
    let mut i: usize = 0;
    while i < set.len()
        invariant
            i <= set.seq().len(),
            set@ == state@.players_who_discarded_card_this_turn,
            forall|k: PlayerId|
                set@.contains(k) <==> exists|i: int|
                    0 <= i < set.seq().len() && (#[trigger] set.seq()[i])@ == k,
            forall|j: int| 0 <= j < i ==> #[trigger] set.seq()[j] == c,
        decreases set.seq().len() - i,
    {
        if *set.at(i) != c {
            assert(set.seq()[i as int]@ == set.seq()[i as int]);
            assert(set@.contains(set.seq()[i as int]));
            return true;
        }
        i += 1;
    }
    false
}

/// The objects that a filter means in the zone that it asks for.
fn find<'a>(state: &GameState, f: &TargetFilter, sc: Scope<'a>) -> (r: Vec<ObjectId>)
    ensures
        r@ == found(state@, *f, sc@),
        all_there(state@, r@),
    decreases f, 3nat, 0nat,
{
    let zone = match f.extract_in_zone() {
        Some(z) => z,
        None => Zone::Battlefield,
    };
    let ids = zone_object_ids(state, zone);
    let r = matching_ids(state, &ids, f, sc.for_filter());
    proof {
        lemma_matching_exist(state@, ids@, ids@.len(), *f, filter_scope(sc@));
    }
    r
}

fn others_apart<'a>(state: &GameState, sc: &Scope<'a>) -> (r: ObjectId)
    ensures
        r == set_apart(state@, sc@),
{
    match trigger_source_id(state) {
        Some(id) => id,
        None => match sc.event {
            Some(e) => match extract_source_from_event(e) {
                Some(id) => id,
                None => sc.source,
            },
            None => sc.source,
        },
    }
}

/// What a reference to a number stands for.
#[verifier::rlimit(60)]
fn resolve_ref<'a>(state: &GameState, qty: &QuantityRef, sc: Scope<'a>) -> (r: i32)
    ensures
        r == ref_value(state@, *qty, sc@),
    decreases qty, 0nat, 0nat,
{
    let c = sc.controller;
    let player = state.player(c);
    match qty {
        QuantityRef::HandSize => match player {
            Some(p) => usize_to_i32_saturating(p.hand.len()),
            None => 0,
        },
        QuantityRef::LifeTotal => match player {
            Some(p) => p.life,
            None => 0,
        },
        QuantityRef::PlayerCounter { kind, scope } => count_player_counters(state, *kind, *scope, c),
        QuantityRef::GraveyardSize => match player {
            Some(p) => usize_to_i32_saturating(p.graveyard.len()),
            None => 0,
        },
        QuantityRef::LifeAboveStarting => match player {
            Some(p) => p.life.wrapping_sub(state.format_config.starting_life),
            None => 0,
        },
        QuantityRef::StartingLifeTotal => state.format_config.starting_life,
        QuantityRef::LifeLostThisTurn => match player {
            Some(p) => u32_to_i32_saturating(p.life_lost_this_turn),
            None => 0,
        },
        QuantityRef::Speed => effective_speed(state, c) as i32,
        QuantityRef::ObjectCount { filter } => {
            let raw: usize = find(state, filter, sc).len();
            if filter_contains_other_than_trigger_object(filter) {
                let apart = others_apart(state, &sc);
                if matches_target_filter(state, apart, filter, sc.for_filter()) && raw > 0 {
                    return usize_to_i32_saturating(raw - 1);
                }
            }
            usize_to_i32_saturating(raw)
        },
        QuantityRef::ObjectCountDistinctNames { filter } => {
            let ids = find(state, filter, sc);
            count_names(state, &ids)
        },
        QuantityRef::PlayerCount { filter } => resolve_player_count(state, *filter, c, sc.source),
        QuantityRef::CountersOnSelf { counter_type } => match state.object(sc.source) {
            Some(o) => {
                let kind = parse_counter_type(counter_type.as_str());
                object_counters(o, Some(&kind))
            },
            None => 0,
        },
        QuantityRef::Variable { name } => if same_text(name.as_str(), "X") {
            match sc.chosen_x {
                Some(x) => u32_to_i32_saturating(x),
                None => match trigger_obj(state) {
                    Some(o) => zero_or_signed(o.cost_x_paid),
                    None => 0,
                },
            }
        } else {
            match state.last_named_choice {
                Some(ChoiceValue::Number(v)) => v as i32,
                _ => 0,
            }
        },
        QuantityRef::SelfPower => power_known(state, sc.source),
        QuantityRef::SelfToughness => toughness_known(state, sc.source),
        QuantityRef::Aggregate { function, property, filter } => {
            let ids = find(state, filter, sc);
            let values = collect_properties(state, &ids, *property);
            match function {
                AggregateFunction::Max => max_of(&values),
                AggregateFunction::Min => min_of(&values),
                AggregateFunction::Sum => sum_of(&values),
            }
        },
        QuantityRef::CountersOnTarget { counter_type } => match first_target_object(state, &sc) {
            Some(o) => {
                let kind = parse_counter_type(counter_type.as_str());
                object_counters(o, Some(&kind))
            },
            None => 0,
        },
        QuantityRef::AnyCountersOnTarget => match first_target_object(state, &sc) {
            Some(o) => object_counters(o, None),
            None => 0,
        },
        QuantityRef::CountersOnObjects { counter_type, filter } => {
            let ids = find(state, filter, sc);
            match counter_type {
                Some(t) => {
                    let kind = parse_counter_type(t.as_str());
                    sum_of(&collect_counters(state, &ids, Some(&kind)))
                },
                None => sum_of(&collect_counters(state, &ids, None)),
            }
        },
        QuantityRef::TargetPower => match first_target_object(state, &sc) {
            Some(o) => zero_or(o.power),
            None => 0,
        },
        QuantityRef::Devotion { colors } => u32_to_i32_saturating(count_devotion(state, c, colors)),
        QuantityRef::TargetLifeTotal => match first_target_person(state, &sc) {
            Some(p) => p.life,
            None => 0,
        },
        QuantityRef::TargetZoneCardCount { zone } => match first_target_player(&sc) {
            Some(pid) => match state.player(pid) {
                Some(p) => match zone {
                    ZoneRef::Library => usize_to_i32_saturating(p.library.len()),
                    ZoneRef::Graveyard => usize_to_i32_saturating(p.graveyard.len()),
                    ZoneRef::Hand => usize_to_i32_saturating(p.hand.len()),
                    ZoneRef::Exile => usize_to_i32_saturating(exiled_cards_of(state, pid)),
                },
                None => 0,
            },
            None => 0,
        },
        QuantityRef::DistinctCardTypesInZone { zone, scope } => {
            let ids = scoped_cards(state, *zone, *scope, c);
            count_types(state, &ids)
        },
        QuantityRef::DistinctCardTypesExiledBySource => {
            let ids = exiled_card_ids(state, sc.source);
            count_types(state, &ids)
        },
        QuantityRef::CardsExiledBySource => usize_to_i32_saturating(
            linked_exile_cards_for_source(state, sc.source).len(),
        ),
        QuantityRef::ZoneCardCount { zone, card_types, scope } => {
            let ids = scoped_cards(state, *zone, *scope, c);
            usize_to_i32_saturating(count_cards(state, &ids, card_types))
        },
        QuantityRef::PreviousEffectAmount => zero_or(state.last_effect_amount),
        QuantityRef::TrackedSetSize => newest_tracked_size(&state.tracked_object_sets),
        QuantityRef::ExiledFromHandThisResolution => u32_to_i32_saturating(
            state.exiled_from_hand_this_resolution,
        ),
        QuantityRef::EventContextAmount => {
            if let Some(e) = &state.current_trigger_event {
                if let Some(n) = extract_amount_from_event(e) {
                    return n;
                }
            }
            zero_or(state.last_effect_count)
        },
        QuantityRef::EventContextSourcePower => match trigger_source_id(state) {
            Some(id) => power_known(state, id),
            None => 0,
        },
        QuantityRef::EventContextSourceToughness => match trigger_source_id(state) {
            Some(id) => toughness_known(state, id),
            None => 0,
        },
        QuantityRef::EventContextSourceManaValue => match trigger_source_id(state) {
            Some(id) => mana_value_known(state, id),
            None => 0,
        },
        QuantityRef::EventContextSourceCostX => match trigger_obj(state) {
            Some(o) => zero_or_signed(o.cost_x_paid),
            None => 0,
        },
        QuantityRef::ManaSpentOnTriggeringSpell => match trigger_obj(state) {
            Some(o) => u32_to_i32_saturating(o.mana_spent_to_cast_amount),
            None => 0,
        },
        QuantityRef::ManaSpentOnSelf => {
            let id = match sc.entering {
                Some(e) => e,
                None => sc.source,
            };
            match state.object(id) {
                Some(o) => u32_to_i32_saturating(o.mana_spent_to_cast_amount),
                None => 0,
            }
        },
        QuantityRef::ColorsSpentOnSelf => {
            let id = match sc.entering {
                Some(e) => e,
                None => sc.source,
            };
            match state.object(id) {
                Some(o) => o.colors_spent_to_cast.distinct_colors() as i32,
                None => 0,
            }
        },
        QuantityRef::ColorsInCommandersColorIdentity => {
            let colors = commander_color_identity(state, c);
            assert(seq_view(colors@) =~= colors@);
            usize_to_i32_saturating(distinct_count(&colors))
        },
        QuantityRef::DistinctColorsAmongPermanents { filter } => {
            let ids = find(state, filter, sc);
            count_colors(state, &ids)
        },
        QuantityRef::BasicLandTypeCount => basic_land_types(state, c, "Plains") + basic_land_types(
            state,
            c,
            "Island",
        ) + basic_land_types(state, c, "Swamp") + basic_land_types(state, c, "Mountain")
            + basic_land_types(state, c, "Forest"),
        QuantityRef::SpellsCastThisTurn { filter } => match state.spells_cast_this_turn_by_player.get(
            &c,
        ) {
            None => 0,
            Some(list) => match filter {
                None => usize_to_i32_saturating(list.spells.len()),
                Some(f) => usize_to_i32_saturating(count_spells(&list.spells, f)),
            },
        },
        QuantityRef::EnteredThisTurn { filter } => {
            let ids = newcomer_ids(state);
            usize_to_i32_saturating(matching_ids(state, &ids, filter, sc.for_filter()).len())
        },
        QuantityRef::CrimesCommittedThisTurn => match player {
            Some(p) => u32_to_i32_saturating(p.crimes_committed_this_turn),
            None => 0,
        },
        QuantityRef::LifeGainedThisTurn => match player {
            Some(p) => u32_to_i32_saturating(p.life_gained_this_turn),
            None => 0,
        },
        QuantityRef::PermanentsLeftBattlefieldThisTurn => count_moves(state, Move::Of(c)),
        QuantityRef::NonlandPermanentsLeftBattlefieldThisTurn => count_moves(state, Move::Nonland),
        QuantityRef::TurnsTaken => match player {
            Some(p) => u32_to_i32_saturating(p.turns_taken),
            None => 0,
        },
        QuantityRef::ChosenNumber => match state.object(sc.source) {
            Some(o) => first_chosen_number(&o.chosen_attributes),
            None => 0,
        },
        QuantityRef::CreaturesDiedThisTurn => count_moves(state, Move::Death),
        QuantityRef::AttackedThisTurn => if state.players_attacked_this_turn.contains(&c) {
            1
        } else {
            0
        },
        QuantityRef::DescendedThisTurn => match player {
            Some(p) => if p.descended_this_turn {
                1
            } else {
                0
            },
            None => 0,
        },
        QuantityRef::SpellsCastLastTurn => match state.spells_cast_last_turn {
            Some(n) => n as i32,
            None => 0,
        },
        QuantityRef::OpponentLifeLostThisTurn => {
            let v = collect_stats(state, c, Stat::LifeLost);
            assert(v@ =~= losses_of_others(state@, c));
            sum_of(&v)
        },
        QuantityRef::CounterAddedThisTurn => if state.players_who_added_counter_this_turn.contains(
            &c,
        ) {
            1
        } else {
            0
        },
        QuantityRef::OpponentDiscardedCardThisTurn => if opponent_discarded(state, c) {
            1
        } else {
            0
        },
        QuantityRef::OpponentLifeTotal => {
            let v = collect_stats(state, c, Stat::Life);
            assert(v@ =~= lives_of_others(state@, c));
            max_of(&v)
        },
        QuantityRef::OpponentHandSize => {
            let v = collect_stats(state, c, Stat::HandSize);
            assert(v@ =~= hands_of_others(state@, c));
            max_of(&v)
        },
        QuantityRef::DungeonsCompleted => u32_to_i32_saturating(
            count_of_key(&state.dungeons_completed, &c),
        ),
        QuantityRef::CostXPaid => {
            if let Some(o) = state.object(sc.source) {
                if o.cost_x_paid.is_some() {
                    return zero_or_signed(o.cost_x_paid);
                }
            }
            zero_or_signed(sc.chosen_x)
        },
        QuantityRef::AttachmentsOnLeavingObject { kind, controller } => match &state.current_trigger_event {
            Some(GameEvent::ZoneChanged { record, .. }) => usize_to_i32_saturating(
                attachments_meant(&record.attachments, *kind, *controller, &sc),
            ),
            _ => 0,
        },
    }
}

/// What a number, fixed or computed, is from a point of view.
pub fn evaluate<'a>(state: &GameState, e: &QuantityExpr, sc: Scope<'a>) -> (r: i32)
    ensures
        r == value_of(state@, *e, sc@),
    decreases e, 0nat, 0nat,
{
    match e {
        QuantityExpr::Fixed { value } => *value,
        QuantityExpr::Ref { qty } => resolve_ref(state, qty, sc),
        QuantityExpr::HalfRounded { inner, rounding } => half_rounded(
            evaluate(state, inner, sc),
            *rounding,
        ),
        QuantityExpr::Offset { inner, offset } => evaluate(state, inner, sc).wrapping_add(*offset),
        QuantityExpr::Multiply { factor, inner } => (*factor).wrapping_mul(
            evaluate(state, inner, sc),
        ),
    }
}

/// What a number is for the controller and the source of an ability.
pub fn resolve_quantity(
    state: &GameState,
    expr: &QuantityExpr,
    controller: PlayerId,
    source_id: ObjectId,
) -> (r: i32)
    ensures
        r == value_of(state@, *expr, seen_from(source_id, controller)),
{
    evaluate(state, expr, Scope::from_source_with_controller(source_id, controller))
}

/// What a number is where an object may be entering the battlefield.
pub fn resolve_quantity_with_ctx(
    state: &GameState,
    expr: &QuantityExpr,
    controller: PlayerId,
    ctx: QuantityContext,
) -> (r: i32)
    ensures
        r == value_of(
            state@,
            *expr,
            ScopeModel { entering: ctx.entering, ..seen_from(ctx.source, controller) },
        ),
{
    let base = Scope::from_source_with_controller(ctx.source, controller);
    evaluate(state, expr, Scope { entering: ctx.entering, ..base })
}

/// What a number is for an ability that is being resolved, with its targets and its X.
pub fn resolve_quantity_with_targets(
    state: &GameState,
    expr: &QuantityExpr,
    ability: &ResolvedAbility,
) -> (r: i32)
    ensures
        r == value_of(state@, *expr, within(*ability)),
{
    evaluate(state, expr, Scope::from_ability(ability))
}

/// What a number is with the given targets, where no ability is being resolved.
pub fn resolve_quantity_with_targets_slice(
    state: &GameState,
    expr: &QuantityExpr,
    controller: PlayerId,
    source_id: ObjectId,
    targets: &[TargetRef],
) -> (r: i32)
    ensures
        r == value_of(
            state@,
            *expr,
            ScopeModel { targets: targets@, ..seen_from(source_id, controller) },
        ),
{
    let base = Scope::from_source_with_controller(source_id, controller);
    evaluate(state, expr, Scope { targets: Some(targets), ..base })
}

/// What a number is for another player than the controller of its source.
pub fn resolve_quantity_scoped(
    state: &GameState,
    expr: &QuantityExpr,
    source_id: ObjectId,
    scope_player: PlayerId,
) -> (r: i32)
    ensures
        r == value_of(state@, *expr, seen_from(source_id, scope_player)),
{
    evaluate(state, expr, Scope::from_source_with_controller(source_id, scope_player))
}

/// What a number is while a trigger is checked against an event: an event that is being resolved
/// goes before the one checked.
pub open spec fn value_at_check(
    g: Game,
    e: QuantityExpr,
    controller: PlayerId,
    source: ObjectId,
    event: Option<EventModel>,
) -> i32 {
    match event {
        Some(ev) if g.current_trigger_event is None => {
            let checked = value_of(
                g,
                e,
                ScopeModel { event: Some(ev), ..seen_from(source, controller) },
            );
            match e {
                QuantityExpr::Ref { qty: QuantityRef::ManaSpentOnTriggeringSpell } => match event_source(
                    ev,
                ) {
                    Some(id) => match object_at(g, id) {
                        Some(o) => signed(o.mana_spent_to_cast_amount),
                        None => checked,
                    },
                    None => checked,
                },
                _ => checked,
            }
        },
        _ => value_of(g, e, seen_from(source, controller)),
    }
}

/// The number that an expression takes from an event that is being checked.
fn resolve_event_scoped_ref(state: &GameState, expr: &QuantityExpr, event: &GameEvent) -> (r: Option<
    i32,
>)
    ensures
        r == (match *expr {
            QuantityExpr::Ref { qty: QuantityRef::ManaSpentOnTriggeringSpell } => match event_source(
                event@,
            ) {
                Some(id) => match object_at(state@, id) {
                    Some(o) => Some(signed(o.mana_spent_to_cast_amount)),
                    None => None,
                },
                None => None,
            },
            _ => None,
        }),
{
    match expr {
        QuantityExpr::Ref { qty } => match qty {
            QuantityRef::ManaSpentOnTriggeringSpell => match extract_source_from_event(event) {
                Some(id) => match state.object(id) {
                    Some(o) => Some(u32_to_i32_saturating(o.mana_spent_to_cast_amount)),
                    None => None,
                },
                None => None,
            },
            _ => None,
        },
        _ => None,
    }
}

/// What a number is while a trigger is checked against an event.
pub fn resolve_quantity_for_trigger_check(
    state: &GameState,
    expr: &QuantityExpr,
    controller: PlayerId,
    source_id: ObjectId,
    event: Option<&GameEvent>,
) -> (r: i32)
    ensures
        r == value_at_check(
            state@,
            *expr,
            controller,
            source_id,
            match event {
                Some(e) => Some(e@),
                None => None,
            },
        ),
{
    if state.current_trigger_event.is_some() {
        return resolve_quantity(state, expr, controller, source_id);
    }
    if let Some(e) = event {
        if let Some(value) = resolve_event_scoped_ref(state, expr, e) {
            return value;
        }
        let base = Scope::from_source_with_controller(source_id, controller);
        let r: i32 = evaluate(state, expr, Scope { event: Some(e), ..base });
        return r;
    }
    resolve_quantity(state, expr, controller, source_id)
}

// ---------------------------------------------------------------------------
// Laws
// ---------------------------------------------------------------------------

/// The half that is rounded up and the half that is rounded down make the whole, and differ by one
/// at most.
pub proof fn the_halves_make_the_whole(value: i32)
    requires
        0 <= value < i32::MAX,
    ensures
        half_of(value, RoundingMode::Up) + half_of(value, RoundingMode::Down) == value,
        0 <= half_of(value, RoundingMode::Up) - half_of(value, RoundingMode::Down) <= 1,
{
}

proof fn lemma_scopes(
    players: Seq<PlayerModel>,
    n: nat,
    kind: crate::ability::PlayerCounterKind,
    controller: PlayerId,
)
    ensures
        player_counters(players, n, kind, CountScope::All, controller) == player_counters(
            players,
            n,
            kind,
            CountScope::Controller,
            controller,
        ) + player_counters(players, n, kind, CountScope::Opponents, controller),
    decreases n,
{
    if 0 < n <= players.len() {
        lemma_scopes(players, (n - 1) as nat, kind, controller);
    }
}

/// The counters of all players are those of one player and those of the others.
pub proof fn all_counters_are_ones_own_and_those_of_others(
    g: Game,
    kind: crate::ability::PlayerCounterKind,
    controller: PlayerId,
)
    ensures
        player_counters(g.players, g.players.len(), kind, CountScope::All, controller)
            == player_counters(g.players, g.players.len(), kind, CountScope::Controller, controller)
            + player_counters(g.players, g.players.len(), kind, CountScope::Opponents, controller),
{
    lemma_scopes(g.players, g.players.len(), kind, controller);
}

proof fn lemma_named_or_not(s: Seq<Seq<char>>)
    ensures
        s.filter(named()).len() + count_where(s, unnamed()) == s.len(),
    decreases s.len(),
{
    reveal(Seq::filter);
    if s.len() > 0 {
        lemma_named_or_not(s.drop_last());
    }
}

/// There are no more different names among objects than there are objects.
pub proof fn there_are_no_more_names_than_objects(g: Game, filter: TargetFilter, sc: ScopeModel)
    ensures
        ref_value(g, QuantityRef::ObjectCountDistinctNames { filter }, sc) <= capped(
            found(g, filter, sc).len(),
        ),
{
    let names = printed_names(g, found(g, filter, sc));
    lemma_named_or_not(names);
    names.filter(named()).lemma_cardinality_of_set();
}

} // verus!
