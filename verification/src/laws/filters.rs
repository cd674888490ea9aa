//! Which objects filters mean, and what events are about.

use vstd::prelude::*;
use crate::ability::{
    ControllerRef, FilterProp, QuantityExpr, TargetFilter, TargetRef, TypeFilter, TypedFilter,
};
use crate::cards::{kind_of, CoreType, Zone};
use crate::events::EventModel;
use crate::filter::{
    has_properties, is_meant_by, is_meant_by_all, is_meant_by_any, matches_filter, record_has,
    record_is_meant, type_fits, zone_asked, zone_of_properties, ScopeModel,
};
use crate::ids::ObjectId;
use crate::laws::quantities::up_to_most;
use crate::mana::mana_value_of;
use crate::object::ObjectModel;
use crate::players::{exiled_with, linked_cards};
use crate::state::{Game, PlayerModel, SpellRecordModel};
use crate::targeting::{event_amount, event_player, event_source, own_zones, zone_ids};

verus! {

/// Whether an object is in the game and phased in.
pub open spec fn is_there(g: Game, id: ObjectId) -> bool {
    g.objects.dom().contains(id) && g.objects[id].phase_status is PhasedIn
}

/// What is not there is meant by no filter.
pub proof fn what_is_not_there_is_not_meant(g: Game, id: ObjectId, f: TargetFilter, sc: ScopeModel)
    requires
        !is_there(g, id),
    ensures
        !matches_filter(g, id, f, sc),
{
}

/// Filters that need no look at an object: any, the source itself, one given object, no player.
pub proof fn plain_filters(g: Game, id: ObjectId, f: TargetFilter, sc: ScopeModel)
    requires
        is_there(g, id),
    ensures
        f is Any ==> matches_filter(g, id, f, sc),
        f is SelfRef ==> (matches_filter(g, id, f, sc) <==> id == sc.source),
        f is SpecificObject ==> (matches_filter(g, id, f, sc) <==> id == f->id),
        f is Player || f is Controller ==> !matches_filter(g, id, f, sc),
        f is ExiledBySource ==> (matches_filter(g, id, f, sc) <==> exists|i: int|
            0 <= i < exiled_with(g, sc.source).len() && (
            #[trigger] exiled_with(g, sc.source)[i]).exiled_id == id),
{
    reveal_with_fuel(matches_filter, 2);
    reveal_with_fuel(is_meant_by, 2);
}

proof fn lemma_all(
    g: Game,
    id: ObjectId,
    o: ObjectModel,
    fs: Seq<TargetFilter>,
    n: nat,
    sc: ScopeModel,
)
    requires
        n <= fs.len(),
    ensures
        is_meant_by_all(g, id, o, fs, n, sc) <==> forall|i: int|
            0 <= i < n ==> is_meant_by(g, id, o, #[trigger] fs[i], sc),
        is_meant_by_any(g, id, o, fs, n, sc) <==> exists|i: int|
            0 <= i < n && is_meant_by(g, id, o, #[trigger] fs[i], sc),
    decreases n,
{
    reveal_with_fuel(is_meant_by_all, 2);
    reveal_with_fuel(is_meant_by_any, 2);
    if n > 0 {
        lemma_all(g, id, o, fs, (n - 1) as nat, sc);
    }
}

/// A filter that negates another means what the other does not; one of several that must all hold
/// means what all of them mean; one of alternatives means what some of them means.
pub proof fn filters_are_combined(g: Game, id: ObjectId, f: TargetFilter, sc: ScopeModel)
    requires
        is_there(g, id),
    ensures
        f is Not ==> matches_filter(g, id, f, sc) == !matches_filter(g, id, *f->filter, sc),
        f is And ==> (matches_filter(g, id, f, sc) <==> forall|i: int|
            0 <= i < f->And_filters@.len() ==> matches_filter(
                g,
                id,
                #[trigger] f->And_filters@[i],
                sc,
            )),
        f is Or ==> (matches_filter(g, id, f, sc) <==> exists|i: int|
            0 <= i < f->Or_filters@.len() && matches_filter(
                g,
                id,
                #[trigger] f->Or_filters@[i],
                sc,
            )),
{
    let o = g.objects[id];
    assert forall|h: TargetFilter| #[trigger]
        matches_filter(g, id, h, sc) == is_meant_by(g, id, o, h, sc) by {
        reveal_with_fuel(matches_filter, 2);
    }
    reveal_with_fuel(is_meant_by, 2);
    match f {
        TargetFilter::And { filters } => {
            lemma_all(g, id, o, filters@, filters@.len(), sc);
            assert(matches_filter(g, id, f, sc) == is_meant_by_all(
                g,
                id,
                o,
                filters@,
                filters@.len(),
                sc,
            ));
        },
        TargetFilter::Or { filters } => {
            lemma_all(g, id, o, filters@, filters@.len(), sc);
            assert(matches_filter(g, id, f, sc) == is_meant_by_any(
                g,
                id,
                o,
                filters@,
                filters@.len(),
                sc,
            ));
        },
        _ => {},
    }
}

/// Whether types and subtypes are what a filter by type asks for.
pub open spec fn is_of_type(tf: TypeFilter, core: Seq<CoreType>, sub: Seq<String>) -> bool {
    match tf {
        TypeFilter::Any => true,
        TypeFilter::Artifact => core.contains(CoreType::Artifact),
        TypeFilter::Creature => core.contains(CoreType::Creature),
        TypeFilter::Enchantment => core.contains(CoreType::Enchantment),
        TypeFilter::Instant => core.contains(CoreType::Instant),
        TypeFilter::Land => core.contains(CoreType::Land),
        TypeFilter::Planeswalker => core.contains(CoreType::Planeswalker),
        TypeFilter::Sorcery => core.contains(CoreType::Sorcery),
        TypeFilter::Permanent => core.contains(CoreType::Artifact) || core.contains(
            CoreType::Creature,
        ) || core.contains(CoreType::Enchantment) || core.contains(CoreType::Land)
            || core.contains(CoreType::Planeswalker) || core.contains(CoreType::Battle),
        TypeFilter::Subtype(s) => exists|i: int| 0 <= i < sub.len() && (#[trigger] sub[i])@ == s@,
    }
}

/// A filter by types without further properties means the objects that have every one of the types
/// and the controller it asks for: the player, an opponent, or anyone.
pub proof fn filters_by_type_and_controller(
    g: Game,
    id: ObjectId,
    t: TypedFilter,
    sc: ScopeModel,
)
    requires
        is_there(g, id),
        t.properties@.len() == 0,
    ensures
        ({
            let o = g.objects[id];
            matches_filter(g, id, TargetFilter::Typed(t), sc) <==> (forall|i: int|
                0 <= i < t.type_filters@.len() ==> is_of_type(
                    #[trigger] t.type_filters@[i],
                    o.card_types.core_types,
                    o.card_types.subtypes,
                )) && (match t.controller {
                None => true,
                Some(ControllerRef::You) => o.controller == sc.controller,
                Some(ControllerRef::Opponent) => o.controller != sc.controller,
                Some(ControllerRef::TargetPlayer) => crate::filter::target_player(sc.targets, 0)
                    == Some(o.controller),
            })
        }),
{
    let o = g.objects[id];
    reveal_with_fuel(matches_filter, 2);
    reveal_with_fuel(is_meant_by, 2);
    reveal_with_fuel(has_properties, 2);
    assert forall|i: int| 0 <= i < t.type_filters@.len() implies type_fits(
        #[trigger] t.type_filters@[i],
        o.card_types.core_types,
        o.card_types.subtypes,
    ) == is_of_type(t.type_filters@[i], o.card_types.core_types, o.card_types.subtypes) by {}
}

/// Whether an object has a property that a filter asks for, as far as it can be seen from the object
/// alone.
pub open spec fn shows_property(
    g: Game,
    id: ObjectId,
    o: ObjectModel,
    p: FilterProp,
    sc: ScopeModel,
) -> bool {
    match p {
        FilterProp::HasSupertype { value } => o.card_types.supertypes.contains(value),
        FilterProp::InZone { zone } => o.zone == zone,
        FilterProp::OtherThanTriggerObject => true,
        FilterProp::Another => id != sc.source,
        FilterProp::Owned { controller } => match controller {
            ControllerRef::You => o.owner == sc.controller,
            ControllerRef::Opponent => o.owner != sc.controller,
            ControllerRef::TargetPlayer => crate::filter::target_player(sc.targets, 0) == Some(
                o.owner,
            ),
        },
        FilterProp::WithKeyword { value } => exists|i: int|
            0 <= i < o.keywords.len() && crate::cards::kind_of(#[trigger] o.keywords[i])
                == crate::cards::kind_of(value),
        FilterProp::CmcLE { value } => up_to_most(mana_value_of(o.mana_cost) as int)
            <= crate::quantity::value_of(g, value, sc),
    }
}

/// A filter with one property means the objects of its types that have the property: a supertype, a
/// zone, an owner, a keyword, a mana value, or not being the source.
pub proof fn filters_by_one_property(
    g: Game,
    id: ObjectId,
    t: TypedFilter,
    sc: ScopeModel,
)
    requires
        is_there(g, id),
        t.properties@.len() == 1,
        t.type_filters@.len() == 0,
        t.controller is None,
    ensures
        matches_filter(g, id, TargetFilter::Typed(t), sc) <==> shows_property(
            g,
            id,
            g.objects[id],
            t.properties@[0],
            sc,
        ),
{
    let o = g.objects[id];
    let ps = t.properties@;
    reveal_with_fuel(matches_filter, 2);
    reveal_with_fuel(is_meant_by, 2);
    reveal_with_fuel(has_properties, 3);
    reveal_with_fuel(crate::filter::has_property, 2);
    assert(has_properties(g, id, o, ps, 1, sc) == crate::filter::has_property(g, id, o, ps[0], sc));
}

/// A filter that names a zone asks for that zone, and one that means exiled cards for exile.
pub proof fn filters_ask_for_zones(t: TypedFilter, zone: Zone)
    ensures
        zone_asked(TargetFilter::ExiledBySource) == Some(Zone::Exile),
        zone_asked(TargetFilter::Any) is None,
        zone_asked(TargetFilter::SelfRef) is None,
        t.properties@.len() == 0 ==> zone_asked(TargetFilter::Typed(t)) is None,
        t.properties@.len() == 1 && t.properties@[0] == (FilterProp::InZone { zone })
            ==> zone_asked(TargetFilter::Typed(t)) == Some(zone),
{
    reveal_with_fuel(zone_asked, 2);
    reveal_with_fuel(zone_of_properties, 3);
}

/// A filter by types means a spell that was cast exactly when the spell had the types; a negation
/// means what the filter does not.
pub proof fn filters_on_spells(r: SpellRecordModel, t: TypedFilter, f: TargetFilter)
    ensures
        record_is_meant(r, TargetFilter::Any),
        f is Not ==> record_is_meant(r, f) == !record_is_meant(r, *f->filter),
        t.properties@.len() == 0 && (t.controller is None || t.controller == Some(
            ControllerRef::You,
        )) ==> (record_is_meant(r, TargetFilter::Typed(t)) <==> forall|i: int|
            0 <= i < t.type_filters@.len() ==> is_of_type(
                #[trigger] t.type_filters@[i],
                r.core_types,
                r.subtypes,
            )),
        t.controller == Some(ControllerRef::Opponent) ==> !record_is_meant(
            r,
            TargetFilter::Typed(t),
        ),
{
    reveal_with_fuel(record_is_meant, 2);
    assert forall|i: int| 0 <= i < t.type_filters@.len() implies type_fits(
        #[trigger] t.type_filters@[i],
        r.core_types,
        r.subtypes,
    ) == is_of_type(t.type_filters@[i], r.core_types, r.subtypes) by {}
}

/// The object that an event is about.
pub proof fn what_events_are_about(e: EventModel)
    ensures
        match e {
            EventModel::ZoneChanged { object_id, .. } => event_source(e) == Some(object_id),
            EventModel::SpellCast { object_id, .. } => event_source(e) == Some(object_id),
            EventModel::DamageDealt { source_id, .. } => event_source(e) == Some(source_id),
            EventModel::DamagePrevented { source_id, .. } => event_source(e) == Some(source_id),
            EventModel::CounterAdded { object_id, .. } => event_source(e) == Some(object_id),
            EventModel::CreatureDestroyed { object_id } => event_source(e) == Some(object_id),
            EventModel::Regenerated { object_id } => event_source(e) == Some(object_id),
            EventModel::PermanentSacrificed { object_id, .. } => event_source(e) == Some(object_id),
            EventModel::TurnedFaceUp { object_id } => event_source(e) == Some(object_id),
            EventModel::AbilityActivated { source_id } => event_source(e) == Some(source_id),
            EventModel::ManaAdded { source_id, .. } => event_source(e) == Some(source_id),
            EventModel::TokenCreated { object_id } => event_source(e) == Some(object_id),
            EventModel::PlayerLost { .. } => event_source(e) is None,
            EventModel::CardsDrawn { .. } => event_source(e) is None,
            _ => true,
        },
{
}

/// The player that an event is about: who draws, adds mana, sacrifices, loses, casts, controlled
/// what moved, or is dealt damage.
pub proof fn whom_events_are_about(e: EventModel)
    ensures
        match e {
            EventModel::CardsDrawn { player_id, .. } => event_player(e) == Some(player_id),
            EventModel::ManaAdded { player_id, .. } => event_player(e) == Some(player_id),
            EventModel::PermanentSacrificed { player_id, .. } => event_player(e) == Some(player_id),
            EventModel::PlayerLost { player_id } => event_player(e) == Some(player_id),
            EventModel::SpellCast { controller, .. } => event_player(e) == Some(controller),
            EventModel::ZoneChanged { record, .. } => event_player(e) == Some(record.controller),
            EventModel::DamageDealt { target: TargetRef::Player(p), .. } => event_player(e)
                == Some(p),
            EventModel::DamageDealt { target: TargetRef::Object(_), .. } => event_player(e)
                is None,
            _ => true,
        },
{
}

/// The amount that an event carries: damage, counters or cards.
pub proof fn how_much_events_are_about(e: EventModel)
    ensures
        match e {
            EventModel::DamageDealt { amount, .. } => event_amount(e) is Some && event_amount(
                e,
            )->0 == up_to_most(amount as int),
            EventModel::DamagePrevented { amount, .. } => event_amount(e) is Some && event_amount(
                e,
            )->0 == up_to_most(amount as int),
            EventModel::CounterAdded { count, .. } => event_amount(e) is Some && event_amount(
                e,
            )->0 == up_to_most(count as int),
            EventModel::CardsDrawn { count, .. } => event_amount(e) is Some && event_amount(
                e,
            )->0 == up_to_most(count as int),
            EventModel::ZoneChanged { .. } => event_amount(e) is None,
            _ => true,
        },
{
}

proof fn lemma_zones_of_front(players: Seq<PlayerModel>, p: PlayerModel, zone: Zone, n: nat)
    requires
        n <= players.len(),
    ensures
        own_zones(players.push(p), zone, n) == own_zones(players, zone, n),
    decreases n,
{
    if n > 0 {
        lemma_zones_of_front(players, p, zone, (n - 1) as nat);
    }
}

/// The objects of a zone: on the battlefield those phased in, in exile all, on the stack the
/// entries; and of library, hand or graveyard those of one player after another.
pub proof fn objects_of_zones(g: Game, p: PlayerModel, id: ObjectId)
    ensures
        zone_ids(g, Zone::Exile) == g.exile,
        zone_ids(g, Zone::Stack).len() == g.stack.len(),
        forall|i: int| 0 <= i < g.stack.len() ==> #[trigger] zone_ids(g, Zone::Stack)[i]
            == g.stack[i].id,
        zone_ids(g, Zone::Battlefield).contains(id) <==> g.battlefield.contains(id) && is_there(
            g,
            id,
        ),
        zone_ids(Game { players: g.players.push(p), ..g }, Zone::Hand) == zone_ids(g, Zone::Hand)
            + p.hand,
        zone_ids(Game { players: g.players.push(p), ..g }, Zone::Library) == zone_ids(
            g,
            Zone::Library,
        ) + p.library,
        zone_ids(Game { players: g.players.push(p), ..g }, Zone::Graveyard) == zone_ids(
            g,
            Zone::Graveyard,
        ) + p.graveyard,
{
    crate::seqs::lemma_filter_members(g.battlefield, crate::targeting::present(g));
    let n = g.players.len();
    lemma_zones_of_front(g.players, p, Zone::Hand, n);
    lemma_zones_of_front(g.players, p, Zone::Library, n);
    lemma_zones_of_front(g.players, p, Zone::Graveyard, n);
    assert(g.players.push(p)[n as int] == p);
}

/// A link to a card that is still in exile counts as a card exiled with its source, with its owner
/// and mana value; a link of another source or to a card elsewhere does not.
pub proof fn links_to_exiled_cards(g: Game, source: ObjectId, n: nat)
    requires
        0 < n <= g.exile_links.len(),
        g.objects.dom().contains(g.exile_links[n - 1].exiled_id),
    ensures
        ({
            let link = g.exile_links[n - 1];
            let o = g.objects[link.exiled_id];
            let front = linked_cards(g, source, (n - 1) as nat);
            let all = linked_cards(g, source, n);
            if link.source_id == source && o.zone is Exile {
                &&& all.len() == front.len() + 1
                &&& all.last().exiled_id == link.exiled_id
                &&& all.last().owner == o.owner
                &&& all.last().mana_value == mana_value_of(o.mana_cost)
            } else {
                all == front
            }
        }),
        g.current_trigger_event is None ==> exiled_with(g, source) == linked_cards(
            g,
            source,
            g.exile_links.len(),
        ),
{
}

/// A filter on spells with one property asks for just that: a mana value of at most so much, a
/// supertype, or a keyword.
pub proof fn filters_on_spells_by_one_property(r: SpellRecordModel, t: TypedFilter)
    requires
        t.type_filters@.len() == 0,
        t.controller is None,
        t.properties@.len() == 1,
    ensures
        ({
            let meant = record_is_meant(r, TargetFilter::Typed(t));
            match t.properties@[0] {
                FilterProp::CmcLE { value } => match value {
                    QuantityExpr::Fixed { value: most } => r.mana_value <= i32::MAX ==> (meant
                        <==> r.mana_value <= most),
                    _ => !meant,
                },
                FilterProp::HasSupertype { value } => meant <==> r.supertypes.contains(value),
                FilterProp::WithKeyword { value } => meant <==> exists|k: int|
                    0 <= k < r.keywords.len() && kind_of(#[trigger] r.keywords[k]) == kind_of(value),
                _ => !meant,
            }
        }),
{
    reveal_with_fuel(record_is_meant, 2);
    let p = t.properties@[0];
    assert(record_is_meant(r, TargetFilter::Typed(t)) <==> record_has(r, p)) by {
        if record_has(r, p) {
            assert forall|i: int| 0 <= i < t.properties@.len() implies record_has(
                r,
                #[trigger] t.properties@[i],
            ) by {
                assert(i == 0);
            }
        }
    }
}

} // verus!
