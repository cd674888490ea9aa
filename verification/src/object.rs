//! Card faces and the objects of a game.

use std::sync::Arc;
use vstd::prelude::*;
use crate::ability::{
    AbilityCost, AbilityDefinition, ChosenAttribute, QuantityExpr, ReplacementDefinition,
    StaticDefinition, TriggerDefinition,
};
use crate::cards::{
    any_of_kind, has_kind, kind_of, no_types, CardType, CardTypeModel, CounterKind, CounterType,
    Keyword, Zone,
};
use crate::ids::{CardId, ObjectId, PlayerId};
use crate::keyed::Table;
use crate::mana::{ColorTally, ManaColor, ManaCost};
use crate::views::opt_view;

verus! {

/// How the faces of a card belong together.
#[derive(Debug, Clone, Copy, PartialEq, Eq, Structural)]
pub enum LayoutKind {
    Single,
    Adventure,
    Transform,
    Modal,
    Meld,
    Omen,
}

/// Why a permanent phased out.
#[derive(Debug, Clone, Copy, PartialEq, Eq, Structural)]
pub enum PhaseOutCause {
    Directly,
    Indirectly,
}

/// Whether a permanent is treated as though it did not exist.
#[derive(Debug, Clone, Copy, PartialEq, Eq, Structural)]
pub enum PhaseStatus {
    PhasedIn,
    PhasedOut { cause: PhaseOutCause },
}

/// In what way a spell may be cast.
#[derive(Debug, Clone, Copy, PartialEq, Eq, Structural)]
pub enum SpellCastingOptionKind {
    AsThoughHadFlash,
    AlternativeCost,
}

/// A printed power or toughness.
#[derive(Debug)]
pub enum PtValue {
    Fixed(i32),
    Variable(String),
    Quantity(QuantityExpr),
}

/// Which printed face an object shows.
#[derive(Debug)]
pub struct PrintedCardRef {
    pub oracle_id: String,
    pub face_name: String,
}

impl Clone for PrintedCardRef {
    fn clone(&self) -> (r: Self)
        ensures
            r == *self,
    {
        PrintedCardRef { oracle_id: self.oracle_id.clone(), face_name: self.face_name.clone() }
    }
}

/// A choice among several effects.
#[derive(Debug)]
pub struct ModalChoice {
    pub min_choices: usize,
    pub max_choices: usize,
}

/// A cost on top of the mana cost.
#[derive(Debug)]
pub struct AdditionalCost {
    pub cost: AbilityCost,
    pub optional: bool,
}

/// What must be done to solve a Case.
#[derive(Debug)]
pub struct SolveCondition {
    pub text: String,
}

/// Whether a Case is solved.
#[derive(Debug)]
pub struct CaseState {
    pub is_solved: bool,
    pub solve_condition: Arc<SolveCondition>,
}

/// When a spell may be cast.
#[derive(Debug)]
pub enum CastingRestriction {
    AsSorcery,
    DuringCombat,
    DuringOpponentsTurn,
    DuringYourTurn,
    DuringYourUpkeep,
    DuringOpponentsUpkeep,
    DuringAnyUpkeep,
    DuringYourEndStep,
    DuringOpponentsEndStep,
    DeclareAttackersStep,
    DeclareBlockersStep,
    BeforeAttackersDeclared,
    BeforeBlockersDeclared,
    BeforeCombatDamage,
    AfterCombat,
    RequiresCondition { text: String },
}

/// When an ability may be activated.
#[derive(Debug)]
pub enum ActivationRestriction {
    AsSorcery,
    AsInstant,
    DuringYourTurn,
    DuringYourUpkeep,
    DuringCombat,
    BeforeAttackersDeclared,
    BeforeCombatDamage,
    OnlyOnceEachTurn,
    OnlyOnce,
    MaxTimesEachTurn { count: u8 },
    RequiresCondition { text: String },
    IsSolved,
    ClassLevelIs { level: u8 },
}

/// A way to cast a spell that its card offers.
#[derive(Debug)]
pub struct SpellCastingOption {
    pub kind: SpellCastingOptionKind,
    pub cost: Option<AbilityCost>,
    pub condition: Option<String>,
}

/// A printed face of a card.
#[derive(Debug)]
pub struct CardFace {
    pub name: String,
    pub mana_cost: ManaCost,
    pub card_type: CardType,
    pub power: Option<PtValue>,
    pub toughness: Option<PtValue>,
    pub loyalty: Option<String>,
    pub keywords: Vec<Keyword>,
    pub abilities: Arc<Vec<AbilityDefinition>>,
    pub triggers: Arc<Vec<TriggerDefinition>>,
    pub static_abilities: Arc<Vec<StaticDefinition>>,
    pub replacements: Vec<ReplacementDefinition>,
    pub color_override: Option<Vec<ManaColor>>,
    pub scryfall_oracle_id: Option<String>,
    pub modal: Option<Arc<ModalChoice>>,
    pub additional_cost: Option<Arc<AdditionalCost>>,
    pub strive_cost: Option<ManaCost>,
    pub casting_restrictions: Arc<Vec<CastingRestriction>>,
    pub casting_options: Arc<Vec<SpellCastingOption>>,
    pub solve_condition: Option<Arc<SolveCondition>>,
}

/// What a printed face says.
#[verifier::ext_equal]
pub struct CardFaceModel {
    pub name: String,
    pub mana_cost: ManaCost,
    pub card_type: CardTypeModel,
    pub power: Option<PtValue>,
    pub toughness: Option<PtValue>,
    pub loyalty: Option<String>,
    pub keywords: Seq<Keyword>,
    pub abilities: Seq<AbilityDefinition>,
    pub triggers: Seq<TriggerDefinition>,
    pub static_abilities: Seq<StaticDefinition>,
    pub replacements: Seq<ReplacementDefinition>,
    pub color_override: Option<Seq<ManaColor>>,
    pub scryfall_oracle_id: Option<String>,
    pub modal: Option<Arc<ModalChoice>>,
    pub additional_cost: Option<Arc<AdditionalCost>>,
    pub strive_cost: Option<ManaCost>,
    pub casting_restrictions: Seq<CastingRestriction>,
    pub casting_options: Seq<SpellCastingOption>,
    pub solve_condition: Option<Arc<SolveCondition>>,
}

impl View for CardFace {
    type V = CardFaceModel;

    open spec fn view(&self) -> CardFaceModel {
        CardFaceModel {
            name: self.name,
            mana_cost: self.mana_cost,
            card_type: self.card_type@,
            power: self.power,
            toughness: self.toughness,
            loyalty: self.loyalty,
            keywords: self.keywords@,
            abilities: self.abilities@,
            triggers: self.triggers@,
            static_abilities: self.static_abilities@,
            replacements: self.replacements@,
            color_override: opt_view(self.color_override),
            scryfall_oracle_id: self.scryfall_oracle_id,
            modal: self.modal,
            additional_cost: self.additional_cost,
            strive_cost: self.strive_cost,
            casting_restrictions: self.casting_restrictions@,
            casting_options: self.casting_options@,
            solve_condition: self.solve_condition,
        }
    }
}

/// The face of an object that is not showing.
#[derive(Debug)]
pub struct BackFaceData {
    pub name: String,
    pub power: Option<i32>,
    pub toughness: Option<i32>,
    pub loyalty: Option<u32>,
    pub card_types: CardType,
    pub mana_cost: ManaCost,
    pub keywords: Vec<Keyword>,
    pub abilities: Arc<Vec<AbilityDefinition>>,
    pub trigger_definitions: Arc<Vec<TriggerDefinition>>,
    pub replacement_definitions: Vec<ReplacementDefinition>,
    pub static_definitions: Arc<Vec<StaticDefinition>>,
    pub color: Vec<ManaColor>,
    pub printed_ref: Option<PrintedCardRef>,
    pub modal: Option<Arc<ModalChoice>>,
    pub additional_cost: Option<Arc<AdditionalCost>>,
    pub strive_cost: Option<ManaCost>,
    pub casting_restrictions: Arc<Vec<CastingRestriction>>,
    pub casting_options: Arc<Vec<SpellCastingOption>>,
    pub layout_kind: Option<LayoutKind>,
}

/// What a face that is not showing says.
#[verifier::ext_equal]
pub struct BackFaceModel {
    pub name: String,
    pub power: Option<i32>,
    pub toughness: Option<i32>,
    pub loyalty: Option<u32>,
    pub card_types: CardTypeModel,
    pub mana_cost: ManaCost,
    pub keywords: Seq<Keyword>,
    pub abilities: Seq<AbilityDefinition>,
    pub trigger_definitions: Seq<TriggerDefinition>,
    pub replacement_definitions: Seq<ReplacementDefinition>,
    pub static_definitions: Seq<StaticDefinition>,
    pub color: Seq<ManaColor>,
    pub printed_ref: Option<PrintedCardRef>,
    pub modal: Option<Arc<ModalChoice>>,
    pub additional_cost: Option<Arc<AdditionalCost>>,
    pub strive_cost: Option<ManaCost>,
    pub casting_restrictions: Seq<CastingRestriction>,
    pub casting_options: Seq<SpellCastingOption>,
    pub layout_kind: Option<LayoutKind>,
}

impl View for BackFaceData {
    type V = BackFaceModel;

    open spec fn view(&self) -> BackFaceModel {
        BackFaceModel {
            name: self.name,
            power: self.power,
            toughness: self.toughness,
            loyalty: self.loyalty,
            card_types: self.card_types@,
            mana_cost: self.mana_cost,
            keywords: self.keywords@,
            abilities: self.abilities@,
            trigger_definitions: self.trigger_definitions@,
            replacement_definitions: self.replacement_definitions@,
            static_definitions: self.static_definitions@,
            color: self.color@,
            printed_ref: self.printed_ref,
            modal: self.modal,
            additional_cost: self.additional_cost,
            strive_cost: self.strive_cost,
            casting_restrictions: self.casting_restrictions@,
            casting_options: self.casting_options@,
            layout_kind: self.layout_kind,
        }
    }
}

/// An object of a game: a card, a token or an emblem.
#[derive(Debug)]
pub struct GameObject {
    pub id: ObjectId,
    pub card_id: CardId,
    pub owner: PlayerId,
    pub controller: PlayerId,
    pub zone: Zone,
    pub name: String,
    pub power: Option<i32>,
    pub toughness: Option<i32>,
    pub loyalty: Option<u32>,
    pub card_types: CardType,
    pub mana_cost: ManaCost,
    pub keywords: Vec<Keyword>,
    pub abilities: Arc<Vec<AbilityDefinition>>,
    pub trigger_definitions: Arc<Vec<TriggerDefinition>>,
    pub replacement_definitions: Vec<ReplacementDefinition>,
    pub static_definitions: Arc<Vec<StaticDefinition>>,
    pub color: Vec<ManaColor>,
    pub base_name: String,
    pub base_power: Option<i32>,
    pub base_toughness: Option<i32>,
    pub base_loyalty: Option<u32>,
    pub base_card_types: CardType,
    pub base_mana_cost: ManaCost,
    pub base_keywords: Vec<Keyword>,
    pub base_abilities: Arc<Vec<AbilityDefinition>>,
    pub base_trigger_definitions: Arc<Vec<TriggerDefinition>>,
    pub base_replacement_definitions: Vec<ReplacementDefinition>,
    pub base_static_definitions: Arc<Vec<StaticDefinition>>,
    pub base_color: Vec<ManaColor>,
    pub base_characteristics_initialized: bool,
    pub printed_ref: Option<PrintedCardRef>,
    pub modal: Option<Arc<ModalChoice>>,
    pub additional_cost: Option<Arc<AdditionalCost>>,
    pub strive_cost: Option<ManaCost>,
    pub casting_restrictions: Arc<Vec<CastingRestriction>>,
    pub casting_options: Arc<Vec<SpellCastingOption>>,
    pub back_face: Option<BackFaceData>,
    pub tapped: bool,
    pub face_down: bool,
    pub damage_marked: u32,
    pub dealt_deathtouch_damage: bool,
    pub attached_to: Option<ObjectId>,
    pub attachments: Vec<ObjectId>,
    pub counters: Table<CounterType, u32>,
    pub phase_status: PhaseStatus,
    pub is_token: bool,
    pub is_commander: bool,
    pub is_emblem: bool,
    pub entered_battlefield_turn: Option<u32>,
    pub loyalty_activated_this_turn: bool,
    pub class_level: Option<u8>,
    pub case_state: Option<CaseState>,
    pub chosen_attributes: Vec<ChosenAttribute>,
    pub cast_from_zone: Option<Zone>,
    pub colors_spent_to_cast: ColorTally,
    pub mana_spent_to_cast_amount: u32,
    pub cost_x_paid: Option<u32>,
    pub timestamp: u64,
}

/// What an object is.
#[verifier::ext_equal]
pub struct ObjectModel {
    pub id: ObjectId,
    pub card_id: CardId,
    pub owner: PlayerId,
    pub controller: PlayerId,
    pub zone: Zone,
    pub name: String,
    pub power: Option<i32>,
    pub toughness: Option<i32>,
    pub loyalty: Option<u32>,
    pub card_types: CardTypeModel,
    pub mana_cost: ManaCost,
    pub keywords: Seq<Keyword>,
    pub abilities: Seq<AbilityDefinition>,
    pub trigger_definitions: Seq<TriggerDefinition>,
    pub replacement_definitions: Seq<ReplacementDefinition>,
    pub static_definitions: Seq<StaticDefinition>,
    pub color: Seq<ManaColor>,
    pub base_name: String,
    pub base_power: Option<i32>,
    pub base_toughness: Option<i32>,
    pub base_loyalty: Option<u32>,
    pub base_card_types: CardTypeModel,
    pub base_mana_cost: ManaCost,
    pub base_keywords: Seq<Keyword>,
    pub base_abilities: Seq<AbilityDefinition>,
    pub base_trigger_definitions: Seq<TriggerDefinition>,
    pub base_replacement_definitions: Seq<ReplacementDefinition>,
    pub base_static_definitions: Seq<StaticDefinition>,
    pub base_color: Seq<ManaColor>,
    pub base_characteristics_initialized: bool,
    pub printed_ref: Option<PrintedCardRef>,
    pub modal: Option<Arc<ModalChoice>>,
    pub additional_cost: Option<Arc<AdditionalCost>>,
    pub strive_cost: Option<ManaCost>,
    pub casting_restrictions: Seq<CastingRestriction>,
    pub casting_options: Seq<SpellCastingOption>,
    pub back_face: Option<BackFaceModel>,
    pub tapped: bool,
    pub face_down: bool,
    pub damage_marked: u32,
    pub dealt_deathtouch_damage: bool,
    pub attached_to: Option<ObjectId>,
    pub attachments: Seq<ObjectId>,
    pub counters: Map<CounterKind, u32>,
    pub phase_status: PhaseStatus,
    pub is_token: bool,
    pub is_commander: bool,
    pub is_emblem: bool,
    pub entered_battlefield_turn: Option<u32>,
    pub loyalty_activated_this_turn: bool,
    pub class_level: Option<u8>,
    pub case_state: Option<CaseState>,
    pub chosen_attributes: Seq<ChosenAttribute>,
    pub cast_from_zone: Option<Zone>,
    pub colors_spent_to_cast: ColorTally,
    pub mana_spent_to_cast_amount: u32,
    pub cost_x_paid: Option<u32>,
    pub timestamp: u64,
}

impl View for GameObject {
    type V = ObjectModel;

    open spec fn view(&self) -> ObjectModel {
        ObjectModel {
            id: self.id,
            card_id: self.card_id,
            owner: self.owner,
            controller: self.controller,
            zone: self.zone,
            name: self.name,
            power: self.power,
            toughness: self.toughness,
            loyalty: self.loyalty,
            card_types: self.card_types@,
            mana_cost: self.mana_cost,
            keywords: self.keywords@,
            abilities: self.abilities@,
            trigger_definitions: self.trigger_definitions@,
            replacement_definitions: self.replacement_definitions@,
            static_definitions: self.static_definitions@,
            color: self.color@,
            base_name: self.base_name,
            base_power: self.base_power,
            base_toughness: self.base_toughness,
            base_loyalty: self.base_loyalty,
            base_card_types: self.base_card_types@,
            base_mana_cost: self.base_mana_cost,
            base_keywords: self.base_keywords@,
            base_abilities: self.base_abilities@,
            base_trigger_definitions: self.base_trigger_definitions@,
            base_replacement_definitions: self.base_replacement_definitions@,
            base_static_definitions: self.base_static_definitions@,
            base_color: self.base_color@,
            base_characteristics_initialized: self.base_characteristics_initialized,
            printed_ref: self.printed_ref,
            modal: self.modal,
            additional_cost: self.additional_cost,
            strive_cost: self.strive_cost,
            casting_restrictions: self.casting_restrictions@,
            casting_options: self.casting_options@,
            back_face: opt_view(self.back_face),
            tapped: self.tapped,
            face_down: self.face_down,
            damage_marked: self.damage_marked,
            dealt_deathtouch_damage: self.dealt_deathtouch_damage,
            attached_to: self.attached_to,
            attachments: self.attachments@,
            counters: self.counters@,
            phase_status: self.phase_status,
            is_token: self.is_token,
            is_commander: self.is_commander,
            is_emblem: self.is_emblem,
            entered_battlefield_turn: self.entered_battlefield_turn,
            loyalty_activated_this_turn: self.loyalty_activated_this_turn,
            class_level: self.class_level,
            case_state: self.case_state,
            chosen_attributes: self.chosen_attributes@,
            cast_from_zone: self.cast_from_zone,
            colors_spent_to_cast: self.colors_spent_to_cast,
            mana_spent_to_cast_amount: self.mana_spent_to_cast_amount,
            cost_x_paid: self.cost_x_paid,
            timestamp: self.timestamp,
        }
    }
}

/// An object that has nothing but a name, an owner and a place.
pub open spec fn blank(
    id: ObjectId,
    card_id: CardId,
    owner: PlayerId,
    name: String,
    zone: Zone,
) -> ObjectModel {
    ObjectModel {
        id,
        card_id,
        owner,
        controller: owner,
        zone,
        name,
        power: None,
        toughness: None,
        loyalty: None,
        card_types: no_types(),
        mana_cost: ManaCost::NoCost,
        keywords: Seq::empty(),
        abilities: Seq::empty(),
        trigger_definitions: Seq::empty(),
        replacement_definitions: Seq::empty(),
        static_definitions: Seq::empty(),
        color: Seq::empty(),
        base_name: name,
        base_power: None,
        base_toughness: None,
        base_loyalty: None,
        base_card_types: no_types(),
        base_mana_cost: ManaCost::NoCost,
        base_keywords: Seq::empty(),
        base_abilities: Seq::empty(),
        base_trigger_definitions: Seq::empty(),
        base_replacement_definitions: Seq::empty(),
        base_static_definitions: Seq::empty(),
        base_color: Seq::empty(),
        base_characteristics_initialized: false,
        printed_ref: None,
        modal: None,
        additional_cost: None,
        strive_cost: None,
        casting_restrictions: Seq::empty(),
        casting_options: Seq::empty(),
        back_face: None,
        tapped: false,
        face_down: false,
        damage_marked: 0,
        dealt_deathtouch_damage: false,
        attached_to: None,
        attachments: Seq::empty(),
        counters: Map::empty(),
        phase_status: PhaseStatus::PhasedIn,
        is_token: false,
        is_commander: false,
        is_emblem: false,
        entered_battlefield_turn: None,
        loyalty_activated_this_turn: false,
        class_level: None,
        case_state: None,
        chosen_attributes: Seq::empty(),
        cast_from_zone: None,
        colors_spent_to_cast: ColorTally { white: 0, blue: 0, black: 0, red: 0, green: 0 },
        mana_spent_to_cast_amount: 0,
        cost_x_paid: None,
        timestamp: 0,
    }
}

impl GameObject {
    pub fn new(id: ObjectId, card_id: CardId, owner: PlayerId, name: String, zone: Zone) -> (r: Self)
        ensures
            r@ == blank(id, card_id, owner, name, zone),
    {
        let base_name = name.clone();
        GameObject {
            id,
            card_id,
            owner,
            controller: owner,
            zone,
            name,
            power: None,
            toughness: None,
            loyalty: None,
            card_types: CardType::default(),
            mana_cost: ManaCost::NoCost,
            keywords: Vec::new(),
            abilities: Arc::new(Vec::new()),
            trigger_definitions: Arc::new(Vec::new()),
            replacement_definitions: Vec::new(),
            static_definitions: Arc::new(Vec::new()),
            color: Vec::new(),
            base_name,
            base_power: None,
            base_toughness: None,
            base_loyalty: None,
            base_card_types: CardType::default(),
            base_mana_cost: ManaCost::NoCost,
            base_keywords: Vec::new(),
            base_abilities: Arc::new(Vec::new()),
            base_trigger_definitions: Arc::new(Vec::new()),
            base_replacement_definitions: Vec::new(),
            base_static_definitions: Arc::new(Vec::new()),
            base_color: Vec::new(),
            base_characteristics_initialized: false,
            printed_ref: None,
            modal: None,
            additional_cost: None,
            strive_cost: None,
            casting_restrictions: Arc::new(Vec::new()),
            casting_options: Arc::new(Vec::new()),
            back_face: None,
            tapped: false,
            face_down: false,
            damage_marked: 0,
            dealt_deathtouch_damage: false,
            attached_to: None,
            attachments: Vec::new(),
            counters: Table::new(),
            phase_status: PhaseStatus::PhasedIn,
            is_token: false,
            is_commander: false,
            is_emblem: false,
            entered_battlefield_turn: None,
            loyalty_activated_this_turn: false,
            class_level: None,
            case_state: None,
            chosen_attributes: Vec::new(),
            cast_from_zone: None,
            colors_spent_to_cast: ColorTally::none(),
            mana_spent_to_cast_amount: 0,
            cost_x_paid: None,
            timestamp: 0,
        }
    }

    /// Whether the object has a keyword of the same kind as the given one.
    pub fn has_keyword(&self, keyword: &Keyword) -> (r: bool)
        ensures
            r == has_kind(self@.keywords, kind_of(*keyword)),
    {
        any_of_kind(&self.keywords, keyword.kind())
    }

    pub fn is_phased_out(&self) -> (r: bool)
        ensures
            r == (self@.phase_status is PhasedOut),
    {
        match self.phase_status {
            PhaseStatus::PhasedIn => false,
            PhaseStatus::PhasedOut { .. } => true,
        }
    }

    pub fn is_phased_in(&self) -> (r: bool)
        ensures
            r == (self@.phase_status is PhasedIn),
    {
        !self.is_phased_out()
    }
}

/// Whether an object has a keyword of the given kind.
pub open spec fn object_has(o: ObjectModel, keyword: Keyword) -> bool {
    has_kind(o.keywords, kind_of(keyword))
}

} // verus!
