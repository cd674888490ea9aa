//! What is found among cards and targets.

use std::sync::Arc;
use vstd::prelude::*;
use crate::ability::{AbilityDefinition, Effect, TargetFilter, TargetRef};
use crate::ability_utils::{
    first_targets, lacks_target, leaves_no_choice, legal_targets, players_as_targets,
    resolved_from, target_asked, target_slots,
};
use crate::card_database::{
    beside, face_meant, face_named, keyed, layout_of, layout_under, other_face_meant, referred_to,
    second_face_of, CardDatabase, CardLayout,
};
use crate::cards::Zone;
use crate::filter::{being_meant, matches_filter, matching_is_a_filter, seen_from, zone_asked};
use crate::ids::{ObjectId, PlayerId};
use crate::laws::faces::number_printed;
use crate::object::{CardFace, LayoutKind, ObjectModel, PrintedCardRef};
use crate::printed_cards::{
    brought_up_to, objects_updated, reference_to, rehydrated, second_face_in, updated_any,
};
use crate::seqs::{lemma_filter_members, lemma_first_where, lemma_first_where_none, lemma_take_all};
use crate::state::Game;
use crate::targeting::zone_ids;
use crate::text::lowercase;

verus! {

/// A reference means the first face of the card with that identifier that has the name.
pub proof fn references_mean_faces(db: CardDatabase, r: PrintedCardRef, i: int)
    requires
        0 <= i < db.faces@.len(),
        db.faces@[i].1.scryfall_oracle_id is Some,
        (db.faces@[i].1.scryfall_oracle_id->0)@ == r.oracle_id@,
        db.faces@[i].1.name@ == r.face_name@,
        forall|j: int|
            0 <= j < i ==> (#[trigger] db.faces@[j]).1.scryfall_oracle_id is None || (
            db.faces@[j].1.scryfall_oracle_id->0)@ != r.oracle_id@ || db.faces@[j].1.name@
                != r.face_name@,
    ensures
        face_meant(db, r) == Some(db.faces@[i].1),
{
    lemma_first_where(db.faces@, referred_to(r), i);
}

/// The other face that a reference means is of the same card and has another name.
pub proof fn references_mean_other_faces(db: CardDatabase, r: PrintedCardRef, i: int)
    requires
        0 <= i < db.faces@.len(),
        db.faces@[i].1.scryfall_oracle_id is Some,
        (db.faces@[i].1.scryfall_oracle_id->0)@ == r.oracle_id@,
        db.faces@[i].1.name@ != r.face_name@,
        forall|j: int|
            0 <= j < i ==> (#[trigger] db.faces@[j]).1.scryfall_oracle_id is None || (
            db.faces@[j].1.scryfall_oracle_id->0)@ != r.oracle_id@ || db.faces@[j].1.name@
                == r.face_name@,
    ensures
        other_face_meant(db, r) == Some(db.faces@[i].1),
{
    lemma_first_where(db.faces@, beside(r), i);
}

/// A reference to a card that is not there means nothing.
pub proof fn unknown_references_mean_nothing(db: CardDatabase, r: PrintedCardRef)
    requires
        forall|j: int|
            0 <= j < db.faces@.len() ==> (#[trigger] db.faces@[j]).1.scryfall_oracle_id is None || (
            db.faces@[j].1.scryfall_oracle_id->0)@ != r.oracle_id@,
    ensures
        face_meant(db, r) is None,
        other_face_meant(db, r) is None,
{
    lemma_first_where_none(db.faces@, referred_to(r));
    lemma_first_where_none(db.faces@, beside(r));
}

/// A face is found by its name, whatever the case of the letters.
pub proof fn faces_are_found_by_name(
    db: CardDatabase,
    name: Seq<char>,
    other: Seq<char>,
    i: int,
)
    requires
        lowercase(name) == lowercase(other),
        0 <= i < db.faces@.len(),
        db.faces@[i].0@ == lowercase(name),
        forall|j: int| 0 <= j < i ==> (#[trigger] db.faces@[j]).0@ != lowercase(name),
    ensures
        face_named(db, name) == Some(db.faces@[i].1),
        face_named(db, other) == Some(db.faces@[i].1),
{
    lemma_first_where(db.faces@, keyed(lowercase(name)), i);
}

/// The layout of a card is the first that is known under its identifier.
pub proof fn layouts_are_found(db: CardDatabase, oracle_id: Seq<char>, i: int)
    requires
        0 <= i < db.layouts@.len(),
        db.layouts@[i].0@ == oracle_id,
        forall|j: int| 0 <= j < i ==> (#[trigger] db.layouts@[j]).0@ != oracle_id,
    ensures
        layout_of(db, oracle_id) == Some(db.layouts@[i].1),
{
    lemma_first_where(db.layouts@, layout_under(oracle_id), i);
}

/// Cards of one face, and split cards, have no face that is not showing; all others have the second
/// face, with the layout of the card.
pub proof fn second_faces(front: Arc<CardFace>, back: Arc<CardFace>)
    ensures
        second_face_of(CardLayout::Single(front)) is None,
        second_face_of(CardLayout::Split(front, back)) is None,
        second_face_of(CardLayout::Adventure(front, back)) == Some((LayoutKind::Adventure, back)),
        second_face_of(CardLayout::Transform(front, back)) == Some((LayoutKind::Transform, back)),
        second_face_of(CardLayout::Modal(front, back)) == Some((LayoutKind::Modal, back)),
        second_face_of(CardLayout::Meld(front, back)) == Some((LayoutKind::Meld, back)),
        second_face_of(CardLayout::Omen(front, back)) == Some((LayoutKind::Omen, back)),
{
}

/// An object that is brought up to a face has what the face prints. If it had no other face and the
/// card has one that is not showing, it has that one.
pub proof fn objects_are_brought_up_to_their_faces(db: CardDatabase, o: ObjectModel, f: CardFace)
    ensures
        ({
            let q = brought_up_to(db, o, f@);
            let second = second_face_in(db, f.name@);
            &&& q.name == f@.name && q.card_types == f@.card_type && q.mana_cost == f@.mana_cost
            &&& q.power == number_printed(f@.power) && q.toughness == number_printed(f@.toughness)
            &&& q.base_power == number_printed(f@.power)
            &&& q.base_toughness == number_printed(f@.toughness)
            &&& q.keywords == f@.keywords && q.abilities == f@.abilities
            &&& q.trigger_definitions == f@.triggers
            &&& q.replacement_definitions == f@.replacements
            &&& q.static_definitions == f@.static_abilities
            &&& q.zone == o.zone && q.owner == o.owner && q.controller == o.controller
            &&& q.tapped == o.tapped && q.id == o.id
            &&& o.back_face is None && second is Some ==> q.back_face is Some && {
                let b = q.back_face->0;
                let s = (second->0).1@;
                &&& b.name == s.name && b.card_types == s.card_type && b.mana_cost == s.mana_cost
                &&& b.power == number_printed(s.power) && b.toughness == number_printed(
                    s.toughness,
                )
                &&& b.layout_kind == Some((second->0).0)
            }
            &&& o.back_face is Some ==> q.back_face is Some
        }),
{
}

/// Bringing a game up to date keeps every object where it is. What a reference means something for
/// is brought up to it, and what it means nothing for stays as it was.
pub proof fn one_object_is_brought_up_to_date(db: CardDatabase, g: Game, id: ObjectId)
    requires
        g.object_ids == seq![id],
        g.objects.dom().contains(id),
        g.card_face_registry.len() > 0,
    ensures
        ({
            let h = rehydrated(db, g);
            let o = g.objects[id];
            let face = match o.printed_ref {
                Some(r) => face_meant(db, r),
                None => None,
            };
            &&& face is None ==> h.objects == g.objects && h.layers_dirty == g.layers_dirty
            &&& face is Some ==> h.objects == g.objects.insert(
                id,
                brought_up_to(db, o, (face->0)@),
            ) && h.layers_dirty == (g.layers_dirty || o.zone is Battlefield)
            &&& face is Some && g.state_revision < u64::MAX ==> h.state_revision
                == g.state_revision + 1
            &&& face is None && !g.layers_dirty ==> h.state_revision == g.state_revision
            &&& h.players == g.players && h.battlefield == g.battlefield && h.stack == g.stack
        }),
{
    reveal_with_fuel(objects_updated, 2);
    reveal_with_fuel(updated_any, 2);
}

/// The faces that are known are taken over where none were.
pub proof fn known_faces_are_taken_over(db: CardDatabase, g: Game)
    requires
        g.object_ids.len() == 0,
    ensures
        g.card_face_registry.len() == 0 ==> rehydrated(db, g).card_face_registry == db.faces@,
        g.card_face_registry.len() > 0 ==> rehydrated(db, g).card_face_registry
            == g.card_face_registry,
{
}

/// An object is a legal target exactly when it is in the zone that the filter asks for, or on the
/// battlefield where it asks for none, and the filter means it.
pub proof fn which_objects_are_legal_targets(
    g: Game,
    f: TargetFilter,
    p: PlayerId,
    source: ObjectId,
    id: ObjectId,
)
    ensures
        ({
            let zone = match zone_asked(f) {
                Some(z) => z,
                None => Zone::Battlefield,
            };
            legal_targets(g, f, p, source).contains(TargetRef::Object(id)) <==> zone_ids(
                g,
                zone,
            ).contains(id) && matches_filter(g, id, f, seen_from(source, p))
        }),
{
    let zone = match zone_asked(f) {
        Some(z) => z,
        None => Zone::Battlefield,
    };
    let ids = zone_ids(g, zone);
    let sc = seen_from(source, p);
    matching_is_a_filter(g, ids, ids.len(), f, sc);
    lemma_take_all(ids);
    lemma_filter_members(ids, being_meant(g, f, sc));
    let found = ids.filter(being_meant(g, f, sc));
    let all = legal_targets(g, f, p, source);
    lemma_players(g, g.players.len());
    if found.contains(id) {
        let k = choose|k: int| 0 <= k < found.len() && found[k] == id;
        assert(all[k] == TargetRef::Object(id));
    }
    if all.contains(TargetRef::Object(id)) {
        let k = choose|k: int| 0 <= k < all.len() && all[k] == TargetRef::Object(id);
        if k < found.len() {
            assert(found[k] == id);
        } else {
            let rest = players_as_targets(g, g.players.len());
            assert(all[k] == rest[k - found.len()]);
        }
    }
}

proof fn lemma_players(g: Game, n: nat)
    requires
        n <= g.players.len(),
    ensures
        forall|k: int|
            0 <= k < players_as_targets(g, n).len() ==> (#[trigger] players_as_targets(g, n)[k])
                is Player,
    decreases n,
{
    if n > 0 {
        lemma_players(g, (n - 1) as nat);
    }
}

/// Players who are still in the game may be targets, those who have lost may not, and only where the
/// filter means anything or players.
pub proof fn which_players_are_legal_targets(g: Game, n: nat)
    requires
        n < g.players.len(),
    ensures
        players_as_targets(g, 0).len() == 0,
        g.players[n as int].is_eliminated ==> players_as_targets(g, n + 1) == players_as_targets(
            g,
            n,
        ),
        !g.players[n as int].is_eliminated ==> players_as_targets(g, n + 1) == players_as_targets(
            g,
            n,
        ).push(TargetRef::Player(g.players[n as int].id)),
{
}

/// Whether players are among the targets depends on the filter.
pub proof fn filters_that_mean_players(g: Game, f: TargetFilter, p: PlayerId, source: ObjectId)
    ensures
        ({
            let list = legal_targets(g, f, p, source);
            let people = players_as_targets(g, g.players.len());
            &&& f is Any || f is Player ==> list.len() >= people.len() && list.skip(
                list.len() - people.len(),
            ) == people
            &&& !(f is Any) && !(f is Player) ==> forall|k: int|
                0 <= k < list.len() ==> (#[trigger] list[k]) is Object
        }),
{
    let list = legal_targets(g, f, p, source);
    let people = players_as_targets(g, g.players.len());
    if f is Any || f is Player {
        assert(list.skip(list.len() - people.len()) =~= people);
    }
}

/// An effect asks for a target where it has a filter that leaves something open; one that means the
/// source or its controller asks for none.
pub proof fn which_effects_ask_for_targets(e: Effect)
    ensures
        e is GainLife || e is Choose || e is Unimplemented ==> target_asked(e) is None,
        match e {
            Effect::Destroy { target, .. } => asks(target, e),
            Effect::Tap { target } => asks(target, e),
            Effect::Untap { target } => asks(target, e),
            Effect::PhaseOut { target } => asks(target, e),
            Effect::Draw { target, .. } => asks(target, e),
            Effect::Mill { target, .. } => asks(target, e),
            Effect::PutCounter { target, .. } => asks(target, e),
            Effect::AddCounter { target, .. } => asks(target, e),
            Effect::ChangeZone { target, .. } => asks(target, e),
            Effect::Shuffle { target } => asks(target, e),
            Effect::LoseLife { target, .. } => match target {
                Some(t) => asks(t, e),
                None => target_asked(e) is None,
            },
            _ => true,
        },
{
}

/// What an effect with a filter asks for.
pub open spec fn asks(f: TargetFilter, e: Effect) -> bool {
    if f is SelfRef || f is Controller || f is ExiledBySource || f is SpecificObject {
        target_asked(e) is None
    } else {
        target_asked(e) == Some(f)
    }
}

/// An ability has a slot for each target that its parts ask for, in order.
pub proof fn each_part_has_its_slot(
    g: Game,
    a: AbilityDefinition,
    b: Arc<AbilityDefinition>,
    p: PlayerId,
    source: ObjectId,
)
    requires
        a.sub_ability == Some(b),
    ensures
        ({
            let alone = AbilityDefinition { sub_ability: None, ..a };
            let f = target_asked(*a.effect);
            &&& target_slots(g, a, p, source) == target_slots(g, alone, p, source) + target_slots(
                g,
                *b,
                p,
                source,
            )
            &&& f is Some ==> target_slots(g, alone, p, source) == seq![
                legal_targets(g, f->0, p, source),
            ]
            &&& f is None ==> target_slots(g, alone, p, source).len() == 0
        }),
{
    reveal_with_fuel(target_slots, 2);
}

/// Targets are taken by themselves exactly when every slot has one, and none lacks one then.
pub proof fn when_targets_are_taken_by_themselves(slots: Seq<Seq<TargetRef>>, i: int)
    requires
        0 <= i < slots.len(),
    ensures
        slots[i].len() == 0 ==> lacks_target(slots) && !leaves_no_choice(slots),
        slots[i].len() > 1 ==> !leaves_no_choice(slots),
        leaves_no_choice(slots) ==> !lacks_target(slots) && first_targets(slots).len()
            == slots.len() && slots[i] == seq![first_targets(slots)[i]],
{
    if leaves_no_choice(slots) {
        assert(slots[i] =~= seq![first_targets(slots)[i]]);
    }
}

/// What an ability does as it resolves is what it says, for the source, the controller and the
/// targets that it was given.
pub proof fn abilities_resolve_as_written(
    a: AbilityDefinition,
    source: ObjectId,
    p: PlayerId,
    targets: Seq<TargetRef>,
)
    ensures
        ({
            let r = resolved_from(a, source, p, targets);
            &&& r.effect == a.effect && r.sub_ability == a.sub_ability
            &&& r.source_id == source && r.controller == p && r.targets == targets
            &&& r.chosen_x is None
        }),
{
}

/// The other face of an object is brought up to date by its own reference, keeps its layout, and
/// gets the layout of the card where it had none.
pub proof fn other_faces_are_brought_up_to_date(
    db: CardDatabase,
    o: ObjectModel,
    f: CardFace,
    r: PrintedCardRef,
    face: Arc<CardFace>,
)
    requires
        o.back_face is Some,
        o.back_face->0.printed_ref == Some(r),
        face_meant(db, r) == Some(face),
    ensures
        ({
            let b = o.back_face->0;
            let q = brought_up_to(db, o, f@);
            let c = q.back_face->0;
            let second = second_face_in(db, f.name@);
            &&& q.back_face is Some
            &&& c.name == face@.name && c.card_types == face@.card_type
            &&& c.mana_cost == face@.mana_cost && c.keywords == face@.keywords
            &&& c.power == number_printed(face@.power)
            &&& c.toughness == number_printed(face@.toughness)
            &&& c.abilities == face@.abilities && c.trigger_definitions == face@.triggers
            &&& b.layout_kind is Some ==> c.layout_kind == b.layout_kind
            &&& b.layout_kind is None && second is Some ==> c.layout_kind == Some((second->0).0)
        }),
{
}

/// Another face without a reference, or with one that means nothing, stays as it was.
pub proof fn other_faces_without_reference_stay(db: CardDatabase, o: ObjectModel, f: CardFace)
    requires
        o.back_face is Some,
        o.back_face->0.printed_ref is None || face_meant(db, o.back_face->0.printed_ref->0) is None,
        o.back_face->0.layout_kind is Some,
    ensures
        brought_up_to(db, o, f@).back_face == o.back_face,
{
}

/// A face refers to its card by the identifier, if it has one, and by its own name.
pub proof fn faces_refer_to_their_card(f: CardFace)
    ensures
        f@.scryfall_oracle_id is None ==> reference_to(f@) is None,
        f@.scryfall_oracle_id is Some ==> reference_to(f@) == Some(
            PrintedCardRef { oracle_id: f@.scryfall_oracle_id->0, face_name: f@.name },
        ),
{
}

} // verus!
