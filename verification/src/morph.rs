//! Permanents that lie face down.

use std::sync::Arc;
use vstd::prelude::*;
use crate::ability::{
    AbilityDefinition, ReplacementDefinition, StaticDefinition, TriggerDefinition,
};
use crate::cards::{has_core_type, CardType, CardTypeModel, CoreType, Keyword, Zone};
use crate::errors::{invalid, refuse, EngineError};
use crate::events::{emit, log, EventModel, GameEvent};
use crate::ids::{ObjectId, PlayerId};
use crate::mana::{ManaColor, ManaCost};
use crate::object::{BackFaceData, BackFaceModel, GameObject, ObjectModel};
use crate::printed_cards::{apply_back_face_to_object, face_shown, showing, snapshot_object_face};
use crate::seqs::{first_where, lemma_first_where, lemma_first_where_none};
use crate::state::{object_at, player_of, with_object, Game, GameState};
use crate::zones::{
    move_to_zone, move_told, moved, moved_objects_lie_where_they_were_put,
};

verus! {

broadcast use crate::views::group_views;

/// The characteristics of a card that lies face down.
#[derive(Debug)]
pub struct FaceDownData {
    pub name: String,
    pub power: Option<i32>,
    pub toughness: Option<i32>,
    pub card_types: CardType,
    pub keywords: Vec<Keyword>,
    pub abilities: Vec<AbilityDefinition>,
    pub trigger_definitions: Vec<TriggerDefinition>,
    pub replacement_definitions: Vec<ReplacementDefinition>,
    pub static_definitions: Vec<StaticDefinition>,
    pub color: Vec<ManaColor>,
}

/// The types of a creature without any other types.
pub open spec fn plain_creature() -> CardTypeModel {
    CardTypeModel {
        supertypes: Seq::empty(),
        core_types: seq![CoreType::Creature],
        subtypes: Seq::empty(),
    }
}

fn plain_creature_type() -> (r: CardType)
    ensures
        r@ == plain_creature(),
{
    let mut core_types: Vec<CoreType> = Vec::new();
    core_types.push(CoreType::Creature);
    assert(core_types@ =~= seq![CoreType::Creature]);
    CardType { supertypes: Vec::new(), core_types, subtypes: Vec::new() }
}

/// An object that lies face down: a 2/2 creature with an empty name, and without mana cost, other
/// types, abilities or colors. Its own face is kept.
pub open spec fn veiled(o: ObjectModel, own: BackFaceModel, name: String) -> ObjectModel {
    ObjectModel {
        face_down: true,
        name,
        base_name: name,
        power: Some(2),
        toughness: Some(2),
        base_power: Some(2),
        base_toughness: Some(2),
        card_types: plain_creature(),
        base_card_types: plain_creature(),
        mana_cost: ManaCost::NoCost,
        base_mana_cost: ManaCost::NoCost,
        keywords: Seq::empty(),
        base_keywords: Seq::empty(),
        abilities: Seq::empty(),
        base_abilities: Seq::empty(),
        trigger_definitions: Seq::empty(),
        base_trigger_definitions: Seq::empty(),
        replacement_definitions: Seq::empty(),
        base_replacement_definitions: Seq::empty(),
        static_definitions: Seq::empty(),
        base_static_definitions: Seq::empty(),
        color: Seq::empty(),
        base_color: Seq::empty(),
        back_face: Some(own),
        ..o
    }
}

fn veil(obj: &mut GameObject, own: BackFaceData)
    ensures
        final(obj)@.name@ == ""@,
        final(obj)@ == veiled(old(obj)@, own@, final(obj)@.name),
{
    proof {
        reveal_strlit("");
    }
    let name = String::new();
    obj.face_down = true;
    obj.base_name = name.clone();
    obj.name = name;
    obj.power = Some(2);
    obj.toughness = Some(2);
    obj.base_power = Some(2);
    obj.base_toughness = Some(2);
    obj.card_types = plain_creature_type();
    obj.base_card_types = plain_creature_type();
    obj.mana_cost = ManaCost::NoCost;
    obj.base_mana_cost = ManaCost::NoCost;
    obj.keywords = Vec::new();
    obj.base_keywords = Vec::new();
    obj.abilities = Arc::new(Vec::new());
    obj.base_abilities = Arc::new(Vec::new());
    obj.trigger_definitions = Arc::new(Vec::new());
    obj.base_trigger_definitions = Arc::new(Vec::new());
    obj.replacement_definitions = Vec::new();
    obj.base_replacement_definitions = Vec::new();
    obj.static_definitions = Arc::new(Vec::new());
    obj.base_static_definitions = Arc::new(Vec::new());
    obj.color = Vec::new();
    obj.base_color = Vec::new();
    obj.back_face = Some(own);
}

/// The game with an object put onto the battlefield face down, under an empty name.
pub open spec fn put_face_down(g: Game, id: ObjectId, name: String) -> Game {
    let h = moved(g, id, Zone::Battlefield);
    with_object(
        h,
        id,
        veiled(object_at(h, id)->0, face_shown(object_at(g, id)->0), name),
    )
}

/// Whether a game is another with an object put onto the battlefield face down.
pub open spec fn is_put_face_down(g: Game, h: Game, id: ObjectId) -> bool {
    object_at(h, id) is Some && object_at(h, id)->0.name@ == ""@ && h == put_face_down(
        g,
        id,
        object_at(h, id)->0.name,
    )
}

fn lay_face_down(state: &mut GameState, id: ObjectId, events: &mut Vec<GameEvent>)
    requires
        object_at(old(state)@, id) is Some,
    ensures
        is_put_face_down(old(state)@, final(state)@, id),
        log(final(events)@) == move_told(
            log(old(events)@),
            old(state)@,
            id,
            Zone::Battlefield,
        ),
{
    let own = match state.object(id) {
        Some(o) => snapshot_object_face(o),
        None => {
            return;
        },
    };
    proof {
        moved_objects_lie_where_they_were_put(state@, id, Zone::Battlefield);
    }
    move_to_zone(state, id, Zone::Battlefield, events);
    if let Some(obj) = state.object_mut(id) {
        veil(obj, own);
    }
}

/// Why a player may not play a card face down.
pub open spec fn face_down_refusal(g: Game, player: PlayerId, id: ObjectId) -> Option<Seq<char>> {
    match object_at(g, id) {
        None => Some("Object not found"@),
        Some(o) => if o.controller != player {
            Some("You don't control this card"@)
        } else if o.zone != Zone::Hand {
            Some("Card is not in hand"@)
        } else {
            None
        },
    }
}

/// Plays a card from a player's hand face down, as a 2/2 creature.
pub fn play_face_down(
    state: &mut GameState,
    player: PlayerId,
    object_id: ObjectId,
    events: &mut Vec<GameEvent>,
) -> (r: Result<(), EngineError>)
    ensures
        match face_down_refusal(old(state)@, player, object_id) {
            Some(text) => invalid(r, text) && final(state)@ == old(state)@ && log(final(events)@)
                == log(old(events)@),
            None => r is Ok && is_put_face_down(old(state)@, final(state)@, object_id) && log(
                final(events)@,
            ) == move_told(log(old(events)@), old(state)@, object_id, Zone::Battlefield),
        },
{
    match state.object(object_id) {
        Some(o) => {
            if o.controller != player {
                return refuse("You don't control this card");
            }
            if o.zone != Zone::Hand {
                return refuse("Card is not in hand");
            }
        },
        None => {
            return refuse("Object not found");
        },
    }
    lay_face_down(state, object_id, events);
    Ok(())
}

/// Whether a keyword gives a cost to turn a permanent face up.
pub open spec fn is_morph(k: Keyword) -> bool {
    k is Morph || k is Megamorph || k is Disguise
}

/// Whether one of some keywords gives a cost to turn a permanent face up.
pub open spec fn has_morph(list: Seq<Keyword>) -> bool {
    exists|i: int| 0 <= i < list.len() && is_morph(#[trigger] list[i])
}

fn has_morph_cost(list: &Vec<Keyword>) -> (r: bool)
    ensures
        r == has_morph(list@),
{
    let mut i: usize = 0;
    while i < list.len()
        invariant
            i <= list@.len(),
            forall|j: int| 0 <= j < i ==> !is_morph(#[trigger] list@[j]),
        decreases list.len() - i,
    {
        let hit = match &list[i] {
            Keyword::Morph(_) | Keyword::Megamorph(_) | Keyword::Disguise(_) => true,
            _ => false,
        };
        if hit {
            assert(is_morph(list@[i as int]));
            return true;
        }
        i += 1;
    }
    false
}

/// Why a player may not turn a permanent face up.
pub open spec fn face_up_refusal(g: Game, player: PlayerId, id: ObjectId) -> Option<Seq<char>> {
    match object_at(g, id) {
        None => Some("Object not found"@),
        Some(o) => if o.controller != player {
            Some("You don't control this permanent"@)
        } else if !o.face_down {
            Some("Permanent is not face down"@)
        } else if o.zone != Zone::Battlefield {
            Some("Object is not on the battlefield"@)
        } else {
            match o.back_face {
                None => Some("No stored face data"@),
                Some(b) => if has_morph(b.keywords) || b.card_types.core_types.contains(
                    CoreType::Creature,
                ) {
                    None
                } else {
                    Some("Card cannot be turned face up (no morph cost)"@)
                },
            }
        },
    }
}

/// An object turned face up: it shows its own face again.
pub open spec fn unveiled(o: ObjectModel) -> ObjectModel {
    ObjectModel {
        back_face: None,
        ..showing(ObjectModel { face_down: false, back_face: None, ..o }, o.back_face->0)
    }
}

/// The game with a permanent turned face up.
pub open spec fn turned_face_up(g: Game, id: ObjectId) -> Game {
    Game { layers_dirty: true, ..with_object(g, id, unveiled(object_at(g, id)->0)) }
}

fn check_face_up(state: &GameState, player: PlayerId, object_id: ObjectId) -> (r: Result<
    (),
    EngineError,
>)
    ensures
        match face_up_refusal(state@, player, object_id) {
            Some(text) => invalid(r, text),
            None => r is Ok,
        },
{
    match state.object(object_id) {
        Some(o) => {
            if o.controller != player {
                return refuse("You don't control this permanent");
            }
            if !o.face_down {
                return refuse("Permanent is not face down");
            }
            if o.zone != Zone::Battlefield {
                return refuse("Object is not on the battlefield");
            }
            match &o.back_face {
                Some(b) => {
                    if !has_morph_cost(&b.keywords) && !has_core_type(
                        &b.card_types.core_types,
                        CoreType::Creature,
                    ) {
                        return refuse("Card cannot be turned face up (no morph cost)");
                    }
                    Ok(())
                },
                None => refuse("No stored face data"),
            }
        },
        None => refuse("Object not found"),
    }
}

fn unveil(obj: &mut GameObject)
    requires
        old(obj)@.back_face is Some,
    ensures
        final(obj)@ == unveiled(old(obj)@),
{
    obj.face_down = false;
    if let Some(b) = obj.back_face.take() {
        apply_back_face_to_object(obj, b);
    }
    obj.back_face = None;
}

/// Turns a permanent that a player controls face up: one with morph, megamorph or disguise, or a
/// creature card.
pub fn turn_face_up(
    state: &mut GameState,
    player: PlayerId,
    object_id: ObjectId,
    events: &mut Vec<GameEvent>,
) -> (r: Result<(), EngineError>)
    ensures
        match face_up_refusal(old(state)@, player, object_id) {
            Some(text) => invalid(r, text) && final(state)@ == old(state)@ && log(final(events)@)
                == log(old(events)@),
            None => r is Ok && final(state)@ == turned_face_up(old(state)@, object_id) && log(
                final(events)@,
            ) == log(old(events)@).push(EventModel::TurnedFaceUp { object_id }),
        },
{
    if let Err(e) = check_face_up(state, player, object_id) {
        return Err(e);
    }
    if let Some(obj) = state.object_mut(object_id) {
        unveil(obj);
    }
    state.layers_dirty = true;
    emit(events, GameEvent::TurnedFaceUp { object_id });
    Ok(())
}

/// Manifests a card: puts it onto the battlefield face down, as a 2/2 creature.
pub fn manifest_card(
    state: &mut GameState,
    _player: PlayerId,
    object_id: ObjectId,
    events: &mut Vec<GameEvent>,
) -> (r: Result<(), EngineError>)
    ensures
        match object_at(old(state)@, object_id) {
            None => invalid(r, "Object not found for manifest"@) && final(state)@ == old(state)@
                && log(final(events)@) == log(old(events)@),
            Some(_) => r is Ok && is_put_face_down(old(state)@, final(state)@, object_id) && log(
                final(events)@,
            ) == move_told(log(old(events)@), old(state)@, object_id, Zone::Battlefield),
        },
{
    if state.object(object_id).is_none() {
        return refuse("Object not found for manifest");
    }
    lay_face_down(state, object_id, events);
    Ok(())
}

/// Being the object that is a card in a player's library.
pub open spec fn library_card(g: Game, player: PlayerId, card: ObjectId) -> spec_fn(ObjectId) -> bool {
    |id: ObjectId|
        g.objects[id].owner == player && g.objects[id].zone == Zone::Library && g.objects[id].id
            == card
}

/// The object that is a card in a player's library.
pub open spec fn object_of_card(g: Game, player: PlayerId, card: ObjectId) -> Option<ObjectId> {
    match first_where(g.object_ids, library_card(g, player, card)) {
        Some(i) => Some(g.object_ids[i]),
        None => None,
    }
}

fn find_object_of_card(state: &GameState, player: PlayerId, card: ObjectId) -> (r: Option<ObjectId>)
    ensures
        r == object_of_card(state@, player, card),
        r is Some ==> object_at(state@, r->0) is Some,
{
    let ghost g = state@;
    let ghost ids = state@.object_ids;
    let ghost p = library_card(g, player, card);
    proof {
        state.objects.lemma_order();
    }
    let mut i: usize = 0;
    while i < state.objects.len()
        invariant
            i <= ids.len(),
            ids == state@.object_ids,
            ids == state.objects.order(),
            ids.len() == state.objects.seq().len(),
            g == state@,
            p == library_card(g, player, card),
            forall|k: ObjectId| #[trigger]
                state.objects@.dom().contains(k) <==> exists|i: int|
                    0 <= i < ids.len() && #[trigger] ids[i] == k,
            forall|j: int| 0 <= j < i ==> !p(#[trigger] ids[j]),
        decreases ids.len() - i,
    {
        let id = *state.objects.key_at(i);
        assert(ids[i as int] == id);
        assert(state.objects@.dom().contains(id));
        if let Some(o) = state.object(id) {
            if o.owner == player && o.zone == Zone::Library && o.id == card {
                proof {
                    lemma_first_where(ids, p, i as int);
                }
                return Some(id);
            }
        }
        i += 1;
    }
    proof {
        lemma_first_where_none(ids, p);
    }
    None
}

/// The object that is on top of a player's library, or why there is none.
pub open spec fn top_object(g: Game, player: PlayerId) -> Result<ObjectId, Seq<char>> {
    match player_of(g, player) {
        None => Err("Player not found"@),
        Some(p) => if p.library.len() == 0 {
            Err("Library is empty"@)
        } else {
            match object_of_card(g, player, p.library[0]) {
                None => Err("Top card object not found"@),
                Some(id) => Ok(id),
            }
        },
    }
}

/// Manifests the top card of a player's library.
pub fn manifest(state: &mut GameState, player: PlayerId, events: &mut Vec<GameEvent>) -> (r: Result<
    (),
    EngineError,
>)
    ensures
        match top_object(old(state)@, player) {
            Err(text) => invalid(r, text) && final(state)@ == old(state)@ && log(final(events)@)
                == log(old(events)@),
            Ok(id) => r is Ok && is_put_face_down(old(state)@, final(state)@, id) && log(
                final(events)@,
            ) == move_told(log(old(events)@), old(state)@, id, Zone::Battlefield),
        },
{
    let top = match state.player(player) {
        Some(p) => {
            if p.library.len() == 0 {
                return refuse("Library is empty");
            }
            p.library[0]
        },
        None => {
            return refuse("Player not found");
        },
    };
    match find_object_of_card(state, player, top) {
        Some(id) => manifest_card(state, player, id, events),
        None => refuse("Top card object not found"),
    }
}

/// A card that was put onto the battlefield face down and turned face up shows the face it had.
pub proof fn turning_face_up_restores_the_face(g: Game, h: Game, id: ObjectId)
    requires
        object_at(g, id) is Some,
        is_put_face_down(g, h, id),
    ensures
        object_at(turned_face_up(h, id), id) is Some,
        face_shown(object_at(turned_face_up(h, id), id)->0) == face_shown(object_at(g, id)->0),
        !object_at(turned_face_up(h, id), id)->0.face_down,
        object_at(turned_face_up(h, id), id)->0.zone == Zone::Battlefield,
{
    moved_objects_lie_where_they_were_put(g, id, Zone::Battlefield);
}

/// A permanent that lies face down says nothing of the card.
pub proof fn face_down_permanents_look_alike(
    o: ObjectModel,
    own: BackFaceModel,
    other: ObjectModel,
    others: BackFaceModel,
    name: String,
)
    ensures
        ({
            let a = face_shown(veiled(o, own, name));
            let b = face_shown(veiled(other, others, name));
            a.name == b.name && a.power == b.power && a.toughness == b.toughness && a.card_types
                == b.card_types && a.mana_cost == b.mana_cost && a.keywords == b.keywords
                && a.abilities == b.abilities && a.trigger_definitions == b.trigger_definitions
                && a.replacement_definitions == b.replacement_definitions && a.static_definitions
                == b.static_definitions && a.color == b.color
        }),
{
}

} // verus!
