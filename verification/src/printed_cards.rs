//! What is printed on cards, and how objects get it.

use std::sync::Arc;
use vstd::prelude::*;
use crate::ability::{
    copy_replacements, share, AbilityDefinition, ReplacementDefinition, StaticDefinition,
    TriggerDefinition,
};
use crate::card_database::{
    face_meant, find_first, layout_of, named, other_face_meant, second_face_of, CardDatabase,
};
use crate::cards::{
    contains_exact_subtype, copy_colors, copy_keywords, has_exact_subtype, CardType, CardTypeModel,
    CounterKind, CounterType, Keyword, Zone,
};
use crate::devotion::colors_of_cost;
use crate::ids::{CardId, ObjectId, PlayerId};
use crate::mana::{ManaColor, ManaCost};
use crate::object::{
    BackFaceData, BackFaceModel, CardFace, CardFaceModel, CaseState, GameObject, LayoutKind,
    ObjectModel, PrintedCardRef, PtValue,
};
use crate::state::{object_at, with_object, Game, GameState};
use crate::text::{natural_in, parse_natural};
use crate::zones::{create_object, created, next_id};
pub use crate::devotion::derive_colors_from_mana_cost;

verus! {

broadcast use crate::views::group_views;

/// The values that a copy of an object gets.
#[derive(Debug)]
pub struct CopiableValues {
    pub name: String,
    pub mana_cost: ManaCost,
    pub color: Vec<ManaColor>,
    pub card_types: CardType,
    pub power: Option<i32>,
    pub toughness: Option<i32>,
    pub loyalty: Option<u32>,
    pub keywords: Vec<Keyword>,
    pub abilities: Arc<Vec<AbilityDefinition>>,
    pub trigger_definitions: Arc<Vec<TriggerDefinition>>,
    pub replacement_definitions: Vec<ReplacementDefinition>,
    pub static_definitions: Arc<Vec<StaticDefinition>>,
}

/// The values that a copy of an object gets.
#[verifier::ext_equal]
pub struct CopiableModel {
    pub name: String,
    pub mana_cost: ManaCost,
    pub color: Seq<ManaColor>,
    pub card_types: CardTypeModel,
    pub power: Option<i32>,
    pub toughness: Option<i32>,
    pub loyalty: Option<u32>,
    pub keywords: Seq<Keyword>,
    pub abilities: Seq<AbilityDefinition>,
    pub trigger_definitions: Seq<TriggerDefinition>,
    pub replacement_definitions: Seq<ReplacementDefinition>,
    pub static_definitions: Seq<StaticDefinition>,
}

impl View for CopiableValues {
    type V = CopiableModel;

    open spec fn view(&self) -> CopiableModel {
        CopiableModel {
            name: self.name,
            mana_cost: self.mana_cost,
            color: self.color@,
            card_types: self.card_types@,
            power: self.power,
            toughness: self.toughness,
            loyalty: self.loyalty,
            keywords: self.keywords@,
            abilities: self.abilities@,
            trigger_definitions: self.trigger_definitions@,
            replacement_definitions: self.replacement_definitions@,
            static_definitions: self.static_definitions@,
        }
    }
}

// ---------------------------------------------------------------------------
// Faces
// ---------------------------------------------------------------------------

/// The reference to a face, for one that belongs to a card with an identifier.
pub open spec fn reference_to(f: CardFaceModel) -> Option<PrintedCardRef> {
    match f.scryfall_oracle_id {
        Some(oracle_id) => Some(PrintedCardRef { oracle_id, face_name: f.name }),
        None => None,
    }
}

/// The reference to a face, for one that belongs to a card with an identifier.
pub fn printed_ref_from_face(card_face: &CardFace) -> (r: Option<PrintedCardRef>)
    ensures
        r == reference_to(card_face@),
{
    match &card_face.scryfall_oracle_id {
        Some(oracle_id) => Some(
            PrintedCardRef { oracle_id: oracle_id.clone(), face_name: card_face.name.clone() },
        ),
        None => None,
    }
}

/// The number that a printed power or toughness stands for outside a game: one that depends on the
/// game is zero.
pub open spec fn printed_number(v: Option<PtValue>) -> Option<i32> {
    match v {
        Some(PtValue::Fixed(n)) => Some(n),
        Some(PtValue::Variable(_)) | Some(PtValue::Quantity(_)) => Some(0),
        None => None,
    }
}

fn parse_pt(val: &Option<PtValue>) -> (r: Option<i32>)
    ensures
        r == printed_number(*val),
{
    match val {
        Some(pt) => match pt {
            PtValue::Fixed(n) => Some(*n),
            PtValue::Variable(_) | PtValue::Quantity(_) => Some(0),
        },
        None => None,
    }
}

/// The loyalty that is printed on a face, where it is a number.
pub open spec fn printed_loyalty(f: CardFaceModel) -> Option<u32> {
    match f.loyalty {
        Some(text) => match natural_in(text@) {
            Some(n) => Some(n as u32),
            None => None,
        },
        None => None,
    }
}

fn parse_loyalty(f: &CardFace) -> (r: Option<u32>)
    ensures
        r == printed_loyalty(f@),
{
    match &f.loyalty {
        Some(text) => parse_natural(text.as_str()),
        None => None,
    }
}

/// The colors of a face: those that it says it has, or those of its mana cost.
pub open spec fn printed_colors(f: CardFaceModel) -> Seq<ManaColor> {
    match f.color_override {
        Some(list) => list,
        None => colors_of_cost(f.mana_cost),
    }
}

fn face_colors(f: &CardFace) -> (r: Vec<ManaColor>)
    ensures
        r@ == printed_colors(f@),
{
    match &f.color_override {
        Some(list) => copy_colors(list),
        None => derive_colors_from_mana_cost(&f.mana_cost),
    }
}

fn copy_ref(r: &Option<PrintedCardRef>) -> (c: Option<PrintedCardRef>)
    ensures
        c == *r,
{
    match r {
        Some(x) => Some(x.clone()),
        None => None,
    }
}

fn copy_cost(r: &Option<ManaCost>) -> (c: Option<ManaCost>)
    ensures
        c == *r,
{
    match r {
        Some(x) => Some(x.clone()),
        None => None,
    }
}

/// An object with the characteristics that a face has, as they are and as they were printed.
pub open spec fn showing(o: ObjectModel, b: BackFaceModel) -> ObjectModel {
    ObjectModel {
        name: b.name,
        power: b.power,
        toughness: b.toughness,
        loyalty: b.loyalty,
        card_types: b.card_types,
        mana_cost: b.mana_cost,
        keywords: b.keywords,
        abilities: b.abilities,
        trigger_definitions: b.trigger_definitions,
        replacement_definitions: b.replacement_definitions,
        static_definitions: b.static_definitions,
        color: b.color,
        base_name: b.name,
        base_power: b.power,
        base_toughness: b.toughness,
        base_loyalty: b.loyalty,
        base_card_types: b.card_types,
        base_mana_cost: b.mana_cost,
        base_keywords: b.keywords,
        base_abilities: b.abilities,
        base_trigger_definitions: b.trigger_definitions,
        base_replacement_definitions: b.replacement_definitions,
        base_static_definitions: b.static_definitions,
        base_color: b.color,
        base_characteristics_initialized: true,
        printed_ref: b.printed_ref,
        modal: b.modal,
        additional_cost: b.additional_cost,
        strive_cost: b.strive_cost,
        casting_restrictions: b.casting_restrictions,
        casting_options: b.casting_options,
        ..o
    }
}

/// A face that is not showing, as it is printed.
pub open spec fn hidden_face(f: CardFaceModel, layout_kind: Option<LayoutKind>) -> BackFaceModel {
    BackFaceModel {
        name: f.name,
        power: printed_number(f.power),
        toughness: printed_number(f.toughness),
        loyalty: printed_loyalty(f),
        card_types: f.card_type,
        mana_cost: f.mana_cost,
        keywords: f.keywords,
        abilities: f.abilities,
        trigger_definitions: f.triggers,
        replacement_definitions: f.replacements,
        static_definitions: f.static_abilities,
        color: printed_colors(f),
        printed_ref: reference_to(f),
        modal: f.modal,
        additional_cost: f.additional_cost,
        strive_cost: f.strive_cost,
        casting_restrictions: f.casting_restrictions,
        casting_options: f.casting_options,
        layout_kind,
    }
}

/// An object with the printed loyalty as counters, the first level of a Class, and the open state
/// of a Case.
pub open spec fn readied(o: ObjectModel, f: CardFaceModel) -> ObjectModel {
    ObjectModel {
        counters: match printed_loyalty(f) {
            Some(n) => o.counters.insert(CounterKind::Loyalty, n),
            None => o.counters,
        },
        class_level: if has_exact_subtype(f.card_type.subtypes, "Class"@) {
            Some(1)
        } else {
            o.class_level
        },
        case_state: if has_exact_subtype(f.card_type.subtypes, "Case"@) && f.solve_condition is Some {
            Some(CaseState { is_solved: false, solve_condition: f.solve_condition->0 })
        } else {
            o.case_state
        },
        ..o
    }
}

/// An object that shows a printed face.
pub open spec fn printed_as(o: ObjectModel, f: CardFaceModel) -> ObjectModel {
    readied(showing(o, hidden_face(f, None)), f)
}

/// Gives an object the characteristics of a face that is not showing.
pub fn apply_back_face_to_object(obj: &mut GameObject, back_face: BackFaceData)
    ensures
        final(obj)@ == showing(old(obj)@, back_face@),
{
    obj.name = back_face.name.clone();
    obj.power = back_face.power;
    obj.toughness = back_face.toughness;
    obj.loyalty = back_face.loyalty;
    obj.card_types = back_face.card_types.clone();
    obj.mana_cost = back_face.mana_cost.clone();
    obj.keywords = copy_keywords(&back_face.keywords);
    obj.abilities = back_face.abilities.clone();
    obj.trigger_definitions = back_face.trigger_definitions.clone();
    obj.replacement_definitions = copy_replacements(&back_face.replacement_definitions);
    obj.static_definitions = back_face.static_definitions.clone();
    obj.color = copy_colors(&back_face.color);
    obj.base_power = back_face.power;
    obj.base_toughness = back_face.toughness;
    obj.base_name = back_face.name;
    obj.base_loyalty = back_face.loyalty;
    obj.base_card_types = back_face.card_types;
    obj.base_mana_cost = back_face.mana_cost;
    obj.base_keywords = back_face.keywords;
    obj.base_abilities = back_face.abilities;
    obj.base_trigger_definitions = back_face.trigger_definitions;
    obj.base_replacement_definitions = back_face.replacement_definitions;
    obj.base_static_definitions = back_face.static_definitions;
    obj.base_color = back_face.color;
    obj.base_characteristics_initialized = true;
    obj.printed_ref = back_face.printed_ref;
    obj.modal = back_face.modal;
    obj.additional_cost = back_face.additional_cost;
    obj.strive_cost = back_face.strive_cost;
    obj.casting_restrictions = back_face.casting_restrictions;
    obj.casting_options = back_face.casting_options;
}

fn back_face_of(f: &CardFace, layout_kind: Option<LayoutKind>) -> (r: BackFaceData)
    ensures
        r@ == hidden_face(f@, layout_kind),
{
    BackFaceData {
        name: f.name.clone(),
        power: parse_pt(&f.power),
        toughness: parse_pt(&f.toughness),
        loyalty: parse_loyalty(f),
        card_types: f.card_type.clone(),
        mana_cost: f.mana_cost.clone(),
        keywords: copy_keywords(&f.keywords),
        abilities: f.abilities.clone(),
        trigger_definitions: f.triggers.clone(),
        replacement_definitions: copy_replacements(&f.replacements),
        static_definitions: f.static_abilities.clone(),
        color: face_colors(f),
        printed_ref: printed_ref_from_face(f),
        modal: share(&f.modal),
        additional_cost: share(&f.additional_cost),
        strive_cost: copy_cost(&f.strive_cost),
        casting_restrictions: f.casting_restrictions.clone(),
        casting_options: f.casting_options.clone(),
        layout_kind,
    }
}

fn ready(obj: &mut GameObject, f: &CardFace)
    ensures
        final(obj)@ == readied(old(obj)@, f@),
{
    if let Some(n) = parse_loyalty(f) {
        obj.counters.insert(CounterType::Loyalty, n);
    }
    if contains_exact_subtype(&f.card_type.subtypes, "Class") {
        obj.class_level = Some(1);
    }
    if contains_exact_subtype(&f.card_type.subtypes, "Case") {
        if let Some(c) = &f.solve_condition {
            obj.case_state = Some(CaseState { is_solved: false, solve_condition: c.clone() });
        }
    }
}

/// Gives an object what is printed on a face. A planeswalker gets its loyalty as counters, a Class
/// its first level, and a Case is not solved.
pub fn apply_card_face_to_object(obj: &mut GameObject, card_face: &CardFace)
    ensures
        final(obj)@ == printed_as(old(obj)@, card_face@),
{
    apply_back_face_to_object(obj, back_face_of(card_face, None));
    ready(obj, card_face);
}

/// Gives a face that is not showing what is printed on a card, but for the layout.
pub fn apply_card_face_to_back_face(back_face: &mut BackFaceData, card_face: &CardFace)
    ensures
        final(back_face)@ == hidden_face(card_face@, old(back_face)@.layout_kind),
{
    let kind = back_face.layout_kind;
    *back_face = back_face_of(card_face, kind);
}

/// The values that a copy of an object gets: those that were printed.
pub open spec fn copiable(o: ObjectModel) -> CopiableModel {
    CopiableModel {
        name: o.base_name,
        mana_cost: o.base_mana_cost,
        color: o.base_color,
        card_types: o.base_card_types,
        power: o.base_power,
        toughness: o.base_toughness,
        loyalty: o.base_loyalty,
        keywords: o.base_keywords,
        abilities: o.base_abilities,
        trigger_definitions: o.base_trigger_definitions,
        replacement_definitions: o.base_replacement_definitions,
        static_definitions: o.base_static_definitions,
    }
}

/// The values that a copy of an object gets: those that were printed.
pub fn intrinsic_copiable_values(obj: &GameObject) -> (r: CopiableValues)
    ensures
        r@ == copiable(obj@),
{
    CopiableValues {
        name: obj.base_name.clone(),
        mana_cost: obj.base_mana_cost.clone(),
        color: copy_colors(&obj.base_color),
        card_types: obj.base_card_types.clone(),
        power: obj.base_power,
        toughness: obj.base_toughness,
        loyalty: obj.base_loyalty,
        keywords: copy_keywords(&obj.base_keywords),
        abilities: obj.base_abilities.clone(),
        trigger_definitions: obj.base_trigger_definitions.clone(),
        replacement_definitions: copy_replacements(&obj.base_replacement_definitions),
        static_definitions: obj.base_static_definitions.clone(),
    }
}

/// An object with the values of another in place of its own, but not as printed.
pub open spec fn copying(o: ObjectModel, v: CopiableModel) -> ObjectModel {
    ObjectModel {
        name: v.name,
        mana_cost: v.mana_cost,
        color: v.color,
        card_types: v.card_types,
        power: v.power,
        toughness: v.toughness,
        loyalty: v.loyalty,
        keywords: v.keywords,
        abilities: v.abilities,
        trigger_definitions: v.trigger_definitions,
        replacement_definitions: v.replacement_definitions,
        static_definitions: v.static_definitions,
        ..o
    }
}

/// Gives an object the values of another in place of its own, but not as printed.
pub fn apply_copiable_values(obj: &mut GameObject, values: &CopiableValues)
    ensures
        final(obj)@ == copying(old(obj)@, values@),
{
    obj.name = values.name.clone();
    obj.mana_cost = values.mana_cost.clone();
    obj.color = copy_colors(&values.color);
    obj.card_types = values.card_types.clone();
    obj.power = values.power;
    obj.toughness = values.toughness;
    obj.loyalty = values.loyalty;
    obj.keywords = copy_keywords(&values.keywords);
    obj.abilities = values.abilities.clone();
    obj.trigger_definitions = values.trigger_definitions.clone();
    obj.replacement_definitions = copy_replacements(&values.replacement_definitions);
    obj.static_definitions = values.static_definitions.clone();
}

/// The face that an object shows, with the static abilities that were printed.
pub open spec fn face_shown(o: ObjectModel) -> BackFaceModel {
    BackFaceModel {
        name: o.name,
        power: o.power,
        toughness: o.toughness,
        loyalty: o.loyalty,
        card_types: o.card_types,
        mana_cost: o.mana_cost,
        keywords: o.keywords,
        abilities: o.abilities,
        trigger_definitions: o.trigger_definitions,
        replacement_definitions: o.replacement_definitions,
        static_definitions: o.base_static_definitions,
        color: o.color,
        printed_ref: o.printed_ref,
        modal: o.modal,
        additional_cost: o.additional_cost,
        strive_cost: o.strive_cost,
        casting_restrictions: o.casting_restrictions,
        casting_options: o.casting_options,
        layout_kind: None,
    }
}

/// The face that an object shows, with the static abilities that were printed.
pub fn snapshot_object_face(obj: &GameObject) -> (r: BackFaceData)
    ensures
        r@ == face_shown(obj@),
{
    BackFaceData {
        name: obj.name.clone(),
        power: obj.power,
        toughness: obj.toughness,
        loyalty: obj.loyalty,
        card_types: obj.card_types.clone(),
        mana_cost: obj.mana_cost.clone(),
        keywords: copy_keywords(&obj.keywords),
        abilities: obj.abilities.clone(),
        trigger_definitions: obj.trigger_definitions.clone(),
        replacement_definitions: copy_replacements(&obj.replacement_definitions),
        static_definitions: obj.base_static_definitions.clone(),
        color: copy_colors(&obj.color),
        printed_ref: copy_ref(&obj.printed_ref),
        modal: share(&obj.modal),
        additional_cost: share(&obj.additional_cost),
        strive_cost: copy_cost(&obj.strive_cost),
        casting_restrictions: obj.casting_restrictions.clone(),
        casting_options: obj.casting_options.clone(),
        layout_kind: None,
    }
}

/// The game with a new object that shows a face, in its owner's library.
pub open spec fn created_from_face(g: Game, f: CardFaceModel, owner: PlayerId) -> Game {
    let id = next_id(g);
    let h = created(g, CardId(g.next_object_id), owner, f.name, Zone::Library);
    with_object(h, id, printed_as(h.objects[id], f))
}

/// Makes a new object that shows a face, in its owner's library.
pub fn create_object_from_card_face(state: &mut GameState, face: &CardFace, owner: PlayerId) -> (r:
    ObjectId)
    ensures
        r == next_id(old(state)@),
        final(state)@ == created_from_face(old(state)@, face@, owner),
{
    let card_id = CardId(state.next_object_id);
    let id = create_object(state, card_id, owner, face.name.clone(), Zone::Library);
    if let Some(obj) = state.object_mut(id) {
        apply_card_face_to_object(obj, face);
    }
    id
}

// ---------------------------------------------------------------------------
// Bringing a game up to date
// ---------------------------------------------------------------------------

/// The layout and the other face of the card with a name, for cards that show one face at a time.
pub open spec fn second_face_in(db: CardDatabase, name: Seq<char>) -> Option<
    (LayoutKind, Arc<CardFace>),
> {
    match find_first(db.cards@, named(name)) {
        Some(c) => second_face_of(c.layout),
        None => None,
    }
}

/// The layout of the card that a face belongs to, as faces know it.
pub open spec fn layout_by_face(db: CardDatabase, f: CardFaceModel) -> Option<LayoutKind> {
    match f.scryfall_oracle_id {
        Some(id) => layout_of(db, id@),
        None => None,
    }
}

/// A face that is not showing, as the database has it.
pub open spec fn refreshed(db: CardDatabase, b: BackFaceModel, f: CardFaceModel) -> BackFaceModel {
    let c = match b.printed_ref {
        Some(r) => match face_meant(db, r) {
            Some(face) => hidden_face(face@, b.layout_kind),
            None => b,
        },
        None => b,
    };
    if c.layout_kind is None {
        BackFaceModel {
            layout_kind: match second_face_in(db, f.name@) {
                Some(x) => Some(x.0),
                None => layout_by_face(db, f),
            },
            ..c
        }
    } else {
        c
    }
}

/// The face that is not showing, where the database has one and the object has none.
pub open spec fn other_face(db: CardDatabase, f: CardFaceModel, r: Option<PrintedCardRef>) -> Option<
    BackFaceModel,
> {
    match second_face_in(db, f.name@) {
        Some(x) => Some(hidden_face(x.1@, Some(x.0))),
        None => match r {
            Some(reference) => match other_face_meant(db, reference) {
                Some(face) => Some(
                    hidden_face(
                        face@,
                        match layout_by_face(db, f) {
                            Some(k) => if k == LayoutKind::Single {
                                None
                            } else {
                                Some(k)
                            },
                            None => None,
                        },
                    ),
                ),
                None => None,
            },
            None => None,
        },
    }
}

/// An object that shows a face, with its other face, as the database has them.
pub open spec fn brought_up_to(db: CardDatabase, o: ObjectModel, f: CardFaceModel) -> ObjectModel {
    let p = printed_as(o, f);
    ObjectModel {
        back_face: match p.back_face {
            Some(b) => Some(refreshed(db, b, f)),
            None => other_face(db, f, p.printed_ref),
        },
        ..p
    }
}

/// The face that an object shows, as the database has it.
pub open spec fn face_to_show(db: CardDatabase, o: ObjectModel) -> Option<Arc<CardFace>> {
    match o.printed_ref {
        Some(r) => face_meant(db, r),
        None => None,
    }
}

/// The game with the first `n` objects as the database has them.
pub open spec fn objects_updated(db: CardDatabase, g: Game, n: nat) -> Game
    decreases n,
{
    if n == 0 || n > g.object_ids.len() {
        g
    } else {
        let h = objects_updated(db, g, (n - 1) as nat);
        let id = g.object_ids[n - 1];
        match object_at(h, id) {
            Some(o) => match face_to_show(db, o) {
                Some(f) => with_object(h, id, brought_up_to(db, o, f@)),
                None => h,
            },
            None => h,
        }
    }
}

/// Whether the database has a face for one of the first `n` objects, and for one on the
/// battlefield.
pub open spec fn updated_any(db: CardDatabase, g: Game, n: nat) -> (bool, bool)
    decreases n,
{
    if n == 0 || n > g.object_ids.len() {
        (false, false)
    } else {
        let (any, on_battlefield) = updated_any(db, g, (n - 1) as nat);
        match object_at(objects_updated(db, g, (n - 1) as nat), g.object_ids[n - 1]) {
            Some(o) => if face_to_show(db, o) is Some {
                (true, on_battlefield || o.zone == Zone::Battlefield)
            } else {
                (any, on_battlefield)
            },
            None => (any, on_battlefield),
        }
    }
}

/// The game with all cards as the database has them.
pub open spec fn rehydrated(db: CardDatabase, g: Game) -> Game {
    let s = if g.card_face_registry.len() == 0 {
        Game { card_face_registry: db.faces@, ..g }
    } else {
        g
    };
    let h = objects_updated(db, s, s.object_ids.len());
    let (any, on_battlefield) = updated_any(db, s, s.object_ids.len());
    let dirty = h.layers_dirty || on_battlefield;
    Game {
        layers_dirty: dirty,
        state_revision: if any || dirty {
            h.state_revision.wrapping_add(1)
        } else {
            h.state_revision
        },
        ..h
    }
}

fn find_second_face(db: &CardDatabase, name: &str) -> (r: Option<(LayoutKind, Arc<CardFace>)>)
    ensures
        r == second_face_in(*db, name@),
{
    match db.get_by_name(name) {
        Some(c) => c.layout.second_face(),
        None => None,
    }
}

fn find_layout(db: &CardDatabase, f: &CardFace) -> (r: Option<LayoutKind>)
    ensures
        r == layout_by_face(*db, f@),
{
    match &f.scryfall_oracle_id {
        Some(id) => db.get_layout_kind(id.as_str()),
        None => None,
    }
}

fn refresh(db: &CardDatabase, back_face: &mut BackFaceData, f: &CardFace)
    ensures
        final(back_face)@ == refreshed(*db, old(back_face)@, f@),
{
    let found = match &back_face.printed_ref {
        Some(r) => db.get_face_by_printed_ref(r),
        None => None,
    };
    if let Some(face) = found {
        apply_card_face_to_back_face(back_face, &*face);
    }
    if back_face.layout_kind.is_none() {
        back_face.layout_kind = match find_second_face(db, f.name.as_str()) {
            Some(x) => Some(x.0),
            None => find_layout(db, f),
        };
    }
}

fn find_other_face(db: &CardDatabase, f: &CardFace, reference: &Option<PrintedCardRef>) -> (r: Option<
    BackFaceData,
>)
    ensures
        crate::views::opt_view(r) == other_face(*db, f@, *reference),
{
    if let Some((kind, face)) = find_second_face(db, f.name.as_str()) {
        return Some(back_face_of(&*face, Some(kind)));
    }
    match reference {
        Some(r) => match db.get_other_face_by_printed_ref(r) {
            Some(face) => {
                let kind = match find_layout(db, f) {
                    Some(k) => if k == LayoutKind::Single {
                        None
                    } else {
                        Some(k)
                    },
                    None => None,
                };
                Some(back_face_of(&*face, kind))
            },
            None => None,
        },
        None => None,
    }
}

fn bring_up_to(db: &CardDatabase, obj: &mut GameObject, f: &CardFace)
    ensures
        final(obj)@ == brought_up_to(*db, old(obj)@, f@),
{
    apply_card_face_to_object(obj, f);
    if let Some(b) = &mut obj.back_face {
        refresh(db, b, f);
    } else {
        obj.back_face = find_other_face(db, f, &obj.printed_ref);
    }
}

fn update_object(db: &CardDatabase, state: &mut GameState, id: ObjectId) -> (r: Option<Zone>)
    requires
        object_at(old(state)@, id) is Some,
    ensures
        ({
            let o = object_at(old(state)@, id)->0;
            match face_to_show(*db, o) {
                Some(f) => final(state)@ == with_object(old(state)@, id, brought_up_to(*db, o, f@))
                    && r == Some(o.zone),
                None => final(state)@ == old(state)@ && r is None,
            }
        }),
{
    match state.object_mut(id) {
        Some(o) => {
            let found = match &o.printed_ref {
                Some(r) => db.get_face_by_printed_ref(r),
                None => None,
            };
            match found {
                Some(f) => {
                    let zone = o.zone;
                    bring_up_to(db, o, &*f);
                    Some(zone)
                },
                None => None,
            }
        },
        None => None,
    }
}

proof fn lemma_same_objects(db: CardDatabase, g: Game, n: nat)
    ensures
        objects_updated(db, g, n).objects.dom() == g.objects.dom(),
        objects_updated(db, g, n).object_ids == g.object_ids,
    decreases n,
{
    if 0 < n <= g.object_ids.len() {
        lemma_same_objects(db, g, (n - 1) as nat);
        assert(objects_updated(db, g, n).objects.dom() =~= g.objects.dom());
    }
}

fn copy_registry(list: &Vec<(String, Arc<CardFace>)>) -> (r: Vec<(String, Arc<CardFace>)>)
    ensures
        r@ == list@,
{
    let mut out: Vec<(String, Arc<CardFace>)> = Vec::new();
    let mut i: usize = 0;
    while i < list.len()
        invariant
            i <= list@.len(),
            out@ == list@.take(i as int),
        decreases list.len() - i,
    {
        out.push((list[i].0.clone(), list[i].1.clone()));
        assert(list@.take(i as int).push(list@[i as int]) =~= list@.take(i as int + 1));
        i += 1;
    }
    assert(list@.take(i as int) =~= list@);
    out
}

/// Gives all objects that refer to a printed face what the database has for it, and their other
/// faces.
pub fn rehydrate_game_from_card_db(state: &mut GameState, db: &CardDatabase)
    ensures
        final(state)@ == rehydrated(*db, old(state)@),
{
    if state.card_face_registry.len() == 0 {
        state.card_face_registry = copy_registry(&db.faces);
    }
    let ghost g = state@;
    let ghost ids = state@.object_ids;
    let mut any: bool = false;
    let mut on_battlefield: bool = false;
    proof {
        state.objects.lemma_order();
    }
    let mut i: usize = 0;
    while i < state.objects.len()
        invariant
            i <= ids.len(),
            ids == g.object_ids,
            ids == state.objects.order(),
            ids.len() == state.objects.seq().len(),
            state@ == objects_updated(*db, g, i as nat),
            (any, on_battlefield) == updated_any(*db, g, i as nat),
            forall|k: ObjectId| #[trigger]
                g.objects.dom().contains(k) <==> exists|i: int|
                    0 <= i < ids.len() && #[trigger] ids[i] == k,
        decreases ids.len() - i,
    {
        let id = *state.objects.key_at(i);
        proof {
            lemma_same_objects(*db, g, i as nat);
            lemma_same_objects(*db, g, (i + 1) as nat);
            assert(ids[i as int] == id);
            assert(g.objects.dom().contains(id));
        }
        if let Some(zone) = update_object(db, state, id) {
            any = true;
            if zone == Zone::Battlefield {
                on_battlefield = true;
            }
        }
        i += 1;
        assert(state@ == objects_updated(*db, g, i as nat));
        proof {
            state.objects.lemma_order();
        }
    }
    if on_battlefield {
        state.layers_dirty = true;
    }
    if any || state.layers_dirty {
        state.state_revision = state.state_revision.wrapping_add(1);
    }
}

// ---------------------------------------------------------------------------
// Laws
// ---------------------------------------------------------------------------

/// An object that gets the face it shows is what it was, and all of that is then as printed. What
/// its static abilities were beyond the printed ones is lost.
pub proof fn a_face_restored_is_the_face_shown(o: ObjectModel, other: ObjectModel)
    ensures
        face_shown(showing(other, face_shown(o))) == face_shown(o),
        o.static_definitions == o.base_static_definitions ==> showing(other, face_shown(o)).name
            == o.name && showing(other, face_shown(o)).static_definitions == o.static_definitions,
{
}

/// A copy of an object has the values that can be copied, and copying leaves what is printed on it.
pub proof fn a_copy_has_the_copied_values(o: ObjectModel, other: ObjectModel)
    ensures
        copiable(copying(o, copiable(other))) == copiable(o),
        copying(o, copiable(other)).name == other.base_name,
        copying(o, copiable(other)).power == other.base_power,
        copying(o, copiable(other)).toughness == other.base_toughness,
        copying(copying(o, copiable(other)), copiable(other)) == copying(o, copiable(other)),
{
}

/// What an object shows of a printed face can be copied: both are the printed values.
pub proof fn what_is_printed_can_be_copied(o: ObjectModel, f: CardFaceModel)
    ensures
        copiable(printed_as(o, f)).name == f.name,
        copiable(printed_as(o, f)).mana_cost == f.mana_cost,
        copiable(printed_as(o, f)).card_types == f.card_type,
        copying(printed_as(o, f), copiable(printed_as(o, f))) == printed_as(o, f),
{
}

} // verus!
