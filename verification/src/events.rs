//! What happens in a game, what is about to happen, and what the game waits for.

use std::sync::Arc;
use vstd::prelude::*;
use crate::ability::{
    AbilityCost, AbilityDefinition, AttachmentKind, Effect, ResolvedAbility, TargetRef, TokenModel,
    TokenSpec,
};
use crate::cards::{CoreType, CounterKind, CounterType, Phase, Zone};
use crate::ids::{CardId, ObjectId, PlayerId, ReplacementId};
use crate::keyed::KeySet;
use crate::mana::{ManaCost, ManaType};
use crate::views::{lemma_seq_view_push, seq_view};

verus! {

/// Whether something enters the battlefield tapped, if an effect says so.
#[derive(Debug, Clone, Copy, PartialEq, Eq, Structural)]
pub enum EtbTapState {
    Unspecified,
    Tapped,
    Untapped,
}

/// The games won and drawn in a match.
#[derive(Debug, Clone, Copy, PartialEq, Eq, Structural)]
pub struct MatchScore {
    pub p0_wins: u8,
    pub p1_wins: u8,
    pub draws: u8,
}

/// An attachment of an object as it was when the object moved.
#[derive(Debug, Clone, Copy, PartialEq, Eq, Structural)]
pub struct AttachmentSnapshot {
    pub object_id: ObjectId,
    pub controller: PlayerId,
    pub kind: AttachmentKind,
}

/// A card exiled with a source.
#[derive(Debug, Clone, Copy, PartialEq, Eq, Structural)]
pub struct LinkedExileSnapshot {
    pub exiled_id: ObjectId,
    pub owner: PlayerId,
    pub mana_value: u32,
}

/// What an ability that is being resolved refers to.
#[verifier::ext_equal]
pub struct ResolvedModel {
    pub effect: Arc<Effect>,
    pub targets: Seq<TargetRef>,
    pub source_id: ObjectId,
    pub controller: PlayerId,
    pub chosen_x: Option<u32>,
    pub sub_ability: Option<Arc<AbilityDefinition>>,
}

impl View for ResolvedAbility {
    type V = ResolvedModel;

    open spec fn view(&self) -> ResolvedModel {
        ResolvedModel {
            effect: self.effect,
            targets: self.targets@,
            source_id: self.source_id,
            controller: self.controller,
            chosen_x: self.chosen_x,
            sub_ability: self.sub_ability,
        }
    }
}

/// A place for a target and what may be put there.
#[derive(Debug)]
pub struct TargetSlot {
    pub legal_targets: Vec<TargetRef>,
}

impl View for TargetSlot {
    type V = Seq<TargetRef>;

    open spec fn view(&self) -> Seq<TargetRef> {
        self.legal_targets@
    }
}

/// A move of an object between zones.
#[derive(Debug)]
pub struct ZoneChangeRecord {
    pub object_id: ObjectId,
    pub from_zone: Option<Zone>,
    pub to_zone: Zone,
    pub controller: PlayerId,
    pub owner: PlayerId,
    pub core_types: Vec<CoreType>,
    pub attachments: Vec<AttachmentSnapshot>,
    pub linked_exile_snapshot: Vec<LinkedExileSnapshot>,
}

/// What a move of an object was.
#[verifier::ext_equal]
pub struct ZoneRecordModel {
    pub object_id: ObjectId,
    pub from_zone: Option<Zone>,
    pub to_zone: Zone,
    pub controller: PlayerId,
    pub owner: PlayerId,
    pub core_types: Seq<CoreType>,
    pub attachments: Seq<AttachmentSnapshot>,
    pub linked_exile_snapshot: Seq<LinkedExileSnapshot>,
}

impl View for ZoneChangeRecord {
    type V = ZoneRecordModel;

    open spec fn view(&self) -> ZoneRecordModel {
        ZoneRecordModel {
            object_id: self.object_id,
            from_zone: self.from_zone,
            to_zone: self.to_zone,
            controller: self.controller,
            owner: self.owner,
            core_types: self.core_types@,
            attachments: self.attachments@,
            linked_exile_snapshot: self.linked_exile_snapshot@,
        }
    }
}

/// Something that happened.
#[derive(Debug)]
pub enum GameEvent {
    MulliganStarted,
    CardsDrawn { player_id: PlayerId, count: u32 },
    ManaAdded { player_id: PlayerId, mana_type: ManaType, source_id: ObjectId },
    ZoneChanged {
        object_id: ObjectId,
        from: Option<Zone>,
        to: Zone,
        record: Box<ZoneChangeRecord>,
    },
    SpellCast { object_id: ObjectId, controller: PlayerId },
    DamageDealt {
        source_id: ObjectId,
        target: TargetRef,
        amount: u32,
        is_combat: bool,
        excess: u32,
    },
    DamagePrevented { source_id: ObjectId, target: TargetRef, amount: u32 },
    CounterAdded { object_id: ObjectId, counter_type: CounterType, count: u32 },
    CreatureDestroyed { object_id: ObjectId },
    Regenerated { object_id: ObjectId },
    ReplacementApplied { source_id: ObjectId, event_type: String },
    PermanentPhasedOut { object_id: ObjectId, indirect: bool },
    PermanentPhasedIn { object_id: ObjectId },
    PermanentSacrificed { object_id: ObjectId, player_id: PlayerId },
    PlayerLost { player_id: PlayerId },
    PowerToughnessChanged {
        object_id: ObjectId,
        power: i32,
        toughness: i32,
        power_delta: i32,
        toughness_delta: i32,
    },
    TurnedFaceUp { object_id: ObjectId },
    AbilityActivated { source_id: ObjectId },
    BecomesTarget { target: TargetRef, source_id: ObjectId },
    StackPushed { object_id: ObjectId },
    SpeedChanged { player_id: PlayerId, speed: Option<u8> },
    TokenCreated { object_id: ObjectId },
    PhaseChanged { phase: Phase },
    GameOver { winner: Option<PlayerId> },
}

/// What happened.
#[verifier::ext_equal]
pub enum EventModel {
    MulliganStarted,
    CardsDrawn { player_id: PlayerId, count: u32 },
    ManaAdded { player_id: PlayerId, mana_type: ManaType, source_id: ObjectId },
    ZoneChanged { object_id: ObjectId, from: Option<Zone>, to: Zone, record: ZoneRecordModel },
    SpellCast { object_id: ObjectId, controller: PlayerId },
    DamageDealt {
        source_id: ObjectId,
        target: TargetRef,
        amount: u32,
        is_combat: bool,
        excess: u32,
    },
    DamagePrevented { source_id: ObjectId, target: TargetRef, amount: u32 },
    CounterAdded { object_id: ObjectId, counter_type: CounterKind, count: u32 },
    CreatureDestroyed { object_id: ObjectId },
    Regenerated { object_id: ObjectId },
    ReplacementApplied { source_id: ObjectId, event_type: Seq<char> },
    PermanentPhasedOut { object_id: ObjectId, indirect: bool },
    PermanentPhasedIn { object_id: ObjectId },
    PermanentSacrificed { object_id: ObjectId, player_id: PlayerId },
    PlayerLost { player_id: PlayerId },
    PowerToughnessChanged {
        object_id: ObjectId,
        power: i32,
        toughness: i32,
        power_delta: i32,
        toughness_delta: i32,
    },
    TurnedFaceUp { object_id: ObjectId },
    AbilityActivated { source_id: ObjectId },
    BecomesTarget { target: TargetRef, source_id: ObjectId },
    StackPushed { object_id: ObjectId },
    SpeedChanged { player_id: PlayerId, speed: Option<u8> },
    TokenCreated { object_id: ObjectId },
    PhaseChanged { phase: Phase },
    GameOver { winner: Option<PlayerId> },
}

impl View for GameEvent {
    type V = EventModel;

    open spec fn view(&self) -> EventModel {
        match *self {
            GameEvent::MulliganStarted => EventModel::MulliganStarted,
            GameEvent::CardsDrawn { player_id, count } => {
                EventModel::CardsDrawn { player_id, count }
            },
            GameEvent::ManaAdded { player_id, mana_type, source_id } => {
                EventModel::ManaAdded { player_id, mana_type, source_id }
            },
            GameEvent::ZoneChanged { object_id, from, to, record } => {
                EventModel::ZoneChanged { object_id, from, to, record: record@ }
            },
            GameEvent::SpellCast { object_id, controller } => {
                EventModel::SpellCast { object_id, controller }
            },
            GameEvent::DamageDealt { source_id, target, amount, is_combat, excess } => {
                EventModel::DamageDealt { source_id, target, amount, is_combat, excess }
            },
            GameEvent::DamagePrevented { source_id, target, amount } => {
                EventModel::DamagePrevented { source_id, target, amount }
            },
            GameEvent::CounterAdded { object_id, counter_type, count } => {
                EventModel::CounterAdded { object_id, counter_type: counter_type@, count }
            },
            GameEvent::CreatureDestroyed { object_id } => {
                EventModel::CreatureDestroyed { object_id }
            },
            GameEvent::Regenerated { object_id } => EventModel::Regenerated { object_id },
            GameEvent::ReplacementApplied { source_id, event_type } => {
                EventModel::ReplacementApplied { source_id, event_type: event_type@ }
            },
            GameEvent::PermanentPhasedOut { object_id, indirect } => {
                EventModel::PermanentPhasedOut { object_id, indirect }
            },
            GameEvent::PermanentPhasedIn { object_id } => {
                EventModel::PermanentPhasedIn { object_id }
            },
            GameEvent::PermanentSacrificed { object_id, player_id } => {
                EventModel::PermanentSacrificed { object_id, player_id }
            },
            GameEvent::PlayerLost { player_id } => EventModel::PlayerLost { player_id },
            GameEvent::PowerToughnessChanged {
                object_id,
                power,
                toughness,
                power_delta,
                toughness_delta,
            } => {
                EventModel::PowerToughnessChanged {
                    object_id,
                    power,
                    toughness,
                    power_delta,
                    toughness_delta,
                }
            },
            GameEvent::TurnedFaceUp { object_id } => EventModel::TurnedFaceUp { object_id },
            GameEvent::AbilityActivated { source_id } => EventModel::AbilityActivated { source_id },
            GameEvent::BecomesTarget { target, source_id } => {
                EventModel::BecomesTarget { target, source_id }
            },
            GameEvent::StackPushed { object_id } => EventModel::StackPushed { object_id },
            GameEvent::SpeedChanged { player_id, speed } => {
                EventModel::SpeedChanged { player_id, speed }
            },
            GameEvent::TokenCreated { object_id } => EventModel::TokenCreated { object_id },
            GameEvent::PhaseChanged { phase } => EventModel::PhaseChanged { phase },
            GameEvent::GameOver { winner } => EventModel::GameOver { winner },
        }
    }
}

/// Something that is about to happen.
#[derive(Debug)]
pub enum ProposedEvent {
    ZoneChange {
        object_id: ObjectId,
        from: Zone,
        to: Zone,
        cause: Option<ObjectId>,
        enter_tapped: EtbTapState,
        enter_with_counters: Vec<(String, u32)>,
        controller_override: Option<PlayerId>,
        enter_transformed: bool,
        applied: KeySet<ReplacementId>,
    },
    Damage {
        source_id: ObjectId,
        target: TargetRef,
        amount: u32,
        is_combat: bool,
        applied: KeySet<ReplacementId>,
    },
    Draw { player_id: PlayerId, count: u32, applied: KeySet<ReplacementId> },
    LifeGain { player_id: PlayerId, amount: u32, applied: KeySet<ReplacementId> },
    LifeLoss { player_id: PlayerId, amount: u32, applied: KeySet<ReplacementId> },
    AddCounter {
        object_id: ObjectId,
        counter_type: CounterType,
        count: u32,
        applied: KeySet<ReplacementId>,
    },
    RemoveCounter {
        object_id: ObjectId,
        counter_type: CounterType,
        count: u32,
        applied: KeySet<ReplacementId>,
    },
    Tap { object_id: ObjectId, applied: KeySet<ReplacementId> },
    Untap { object_id: ObjectId, applied: KeySet<ReplacementId> },
    Destroy {
        object_id: ObjectId,
        source: Option<ObjectId>,
        cant_regenerate: bool,
        applied: KeySet<ReplacementId>,
    },
    Discard { player_id: PlayerId, object_id: ObjectId, applied: KeySet<ReplacementId> },
    CreateToken {
        owner: PlayerId,
        spec: Box<TokenSpec>,
        enter_tapped: EtbTapState,
        count: u32,
        applied: KeySet<ReplacementId>,
    },
    Sacrifice { object_id: ObjectId, player_id: PlayerId, applied: KeySet<ReplacementId> },
    ProduceMana {
        source_id: ObjectId,
        player_id: PlayerId,
        mana_type: ManaType,
        applied: KeySet<ReplacementId>,
    },
    BeginTurn { player_id: PlayerId, is_extra_turn: bool, applied: KeySet<ReplacementId> },
    BeginPhase { player_id: PlayerId, phase: Phase, applied: KeySet<ReplacementId> },
}

/// What is about to happen.
#[verifier::ext_equal]
pub enum ProposedModel {
    ZoneChange {
        object_id: ObjectId,
        from: Zone,
        to: Zone,
        cause: Option<ObjectId>,
        enter_tapped: EtbTapState,
        enter_with_counters: Seq<(String, u32)>,
        controller_override: Option<PlayerId>,
        enter_transformed: bool,
        applied: Set<ReplacementId>,
    },
    Damage {
        source_id: ObjectId,
        target: TargetRef,
        amount: u32,
        is_combat: bool,
        applied: Set<ReplacementId>,
    },
    Draw { player_id: PlayerId, count: u32, applied: Set<ReplacementId> },
    LifeGain { player_id: PlayerId, amount: u32, applied: Set<ReplacementId> },
    LifeLoss { player_id: PlayerId, amount: u32, applied: Set<ReplacementId> },
    AddCounter {
        object_id: ObjectId,
        counter_type: CounterKind,
        count: u32,
        applied: Set<ReplacementId>,
    },
    RemoveCounter {
        object_id: ObjectId,
        counter_type: CounterKind,
        count: u32,
        applied: Set<ReplacementId>,
    },
    Tap { object_id: ObjectId, applied: Set<ReplacementId> },
    Untap { object_id: ObjectId, applied: Set<ReplacementId> },
    Destroy {
        object_id: ObjectId,
        source: Option<ObjectId>,
        cant_regenerate: bool,
        applied: Set<ReplacementId>,
    },
    Discard { player_id: PlayerId, object_id: ObjectId, applied: Set<ReplacementId> },
    CreateToken {
        owner: PlayerId,
        spec: TokenModel,
        enter_tapped: EtbTapState,
        count: u32,
        applied: Set<ReplacementId>,
    },
    Sacrifice { object_id: ObjectId, player_id: PlayerId, applied: Set<ReplacementId> },
    ProduceMana {
        source_id: ObjectId,
        player_id: PlayerId,
        mana_type: ManaType,
        applied: Set<ReplacementId>,
    },
    BeginTurn { player_id: PlayerId, is_extra_turn: bool, applied: Set<ReplacementId> },
    BeginPhase { player_id: PlayerId, phase: Phase, applied: Set<ReplacementId> },
}

impl View for ProposedEvent {
    type V = ProposedModel;

    open spec fn view(&self) -> ProposedModel {
        match *self {
            ProposedEvent::ZoneChange {
                object_id,
                from,
                to,
                cause,
                enter_tapped,
                enter_with_counters,
                controller_override,
                enter_transformed,
                applied,
            } => {
                ProposedModel::ZoneChange {
                    object_id,
                    from,
                    to,
                    cause,
                    enter_tapped,
                    enter_with_counters: enter_with_counters@,
                    controller_override,
                    enter_transformed,
                    applied: applied@,
                }
            },
            ProposedEvent::Damage { source_id, target, amount, is_combat, applied } => {
                ProposedModel::Damage { source_id, target, amount, is_combat, applied: applied@ }
            },
            ProposedEvent::Draw { player_id, count, applied } => {
                ProposedModel::Draw { player_id, count, applied: applied@ }
            },
            ProposedEvent::LifeGain { player_id, amount, applied } => {
                ProposedModel::LifeGain { player_id, amount, applied: applied@ }
            },
            ProposedEvent::LifeLoss { player_id, amount, applied } => {
                ProposedModel::LifeLoss { player_id, amount, applied: applied@ }
            },
            ProposedEvent::AddCounter { object_id, counter_type, count, applied } => {
                ProposedModel::AddCounter {
                    object_id,
                    counter_type: counter_type@,
                    count,
                    applied: applied@,
                }
            },
            ProposedEvent::RemoveCounter { object_id, counter_type, count, applied } => {
                ProposedModel::RemoveCounter {
                    object_id,
                    counter_type: counter_type@,
                    count,
                    applied: applied@,
                }
            },
            ProposedEvent::Tap { object_id, applied } => {
                ProposedModel::Tap { object_id, applied: applied@ }
            },
            ProposedEvent::Untap { object_id, applied } => {
                ProposedModel::Untap { object_id, applied: applied@ }
            },
            ProposedEvent::Destroy { object_id, source, cant_regenerate, applied } => {
                ProposedModel::Destroy { object_id, source, cant_regenerate, applied: applied@ }
            },
            ProposedEvent::Discard { player_id, object_id, applied } => {
                ProposedModel::Discard { player_id, object_id, applied: applied@ }
            },
            ProposedEvent::CreateToken { owner, spec, enter_tapped, count, applied } => {
                ProposedModel::CreateToken {
                    owner,
                    spec: spec@,
                    enter_tapped,
                    count,
                    applied: applied@,
                }
            },
            ProposedEvent::Sacrifice { object_id, player_id, applied } => {
                ProposedModel::Sacrifice { object_id, player_id, applied: applied@ }
            },
            ProposedEvent::ProduceMana { source_id, player_id, mana_type, applied } => {
                ProposedModel::ProduceMana { source_id, player_id, mana_type, applied: applied@ }
            },
            ProposedEvent::BeginTurn { player_id, is_extra_turn, applied } => {
                ProposedModel::BeginTurn { player_id, is_extra_turn, applied: applied@ }
            },
            ProposedEvent::BeginPhase { player_id, phase, applied } => {
                ProposedModel::BeginPhase { player_id, phase, applied: applied@ }
            },
        }
    }
}

/// An ability whose targets are still to be chosen.
#[derive(Debug)]
pub struct PendingCast {
    pub object_id: ObjectId,
    pub card_id: CardId,
    pub ability: ResolvedAbility,
    pub cost: ManaCost,
    pub activation_ability_index: Option<usize>,
    pub activation_cost: Option<AbilityCost>,
}

/// An ability whose targets are still to be chosen.
#[verifier::ext_equal]
pub struct PendingCastModel {
    pub object_id: ObjectId,
    pub card_id: CardId,
    pub ability: ResolvedModel,
    pub cost: ManaCost,
    pub activation_ability_index: Option<usize>,
    pub activation_cost: Option<AbilityCost>,
}

impl View for PendingCast {
    type V = PendingCastModel;

    open spec fn view(&self) -> PendingCastModel {
        PendingCastModel {
            object_id: self.object_id,
            card_id: self.card_id,
            ability: self.ability@,
            cost: self.cost,
            activation_ability_index: self.activation_ability_index,
            activation_cost: self.activation_cost,
        }
    }
}

/// What a game waits for.
#[derive(Debug)]
pub enum WaitingFor {
    Priority { player: PlayerId },
    MulliganDecision { player: PlayerId, mulligan_count: u8 },
    MulliganBottomCards { player: PlayerId, count: u8 },
    GameOver { winner: Option<PlayerId> },
    ChooseLegend { player: PlayerId, legend_name: String, candidates: Vec<ObjectId> },
    ReplacementChoice {
        player: PlayerId,
        candidate_count: usize,
        candidate_descriptions: Vec<String>,
    },
    TargetSelection {
        player: PlayerId,
        pending_cast: Box<PendingCast>,
        target_slots: Vec<TargetSlot>,
    },
    BetweenGamesSideboard { player: PlayerId, game_number: u8, score: MatchScore },
    BetweenGamesChoosePlayDraw { player: PlayerId, game_number: u8, score: MatchScore },
}

/// What a game waits for.
#[verifier::ext_equal]
pub enum WaitingModel {
    Priority { player: PlayerId },
    MulliganDecision { player: PlayerId, mulligan_count: u8 },
    MulliganBottomCards { player: PlayerId, count: u8 },
    GameOver { winner: Option<PlayerId> },
    ChooseLegend { player: PlayerId, legend_name: Seq<char>, candidates: Seq<ObjectId> },
    ReplacementChoice {
        player: PlayerId,
        candidate_count: usize,
        candidate_descriptions: Seq<Seq<char>>,
    },
    TargetSelection {
        player: PlayerId,
        pending_cast: PendingCastModel,
        target_slots: Seq<Seq<TargetRef>>,
    },
    BetweenGamesSideboard { player: PlayerId, game_number: u8, score: MatchScore },
    BetweenGamesChoosePlayDraw { player: PlayerId, game_number: u8, score: MatchScore },
}

impl View for WaitingFor {
    type V = WaitingModel;

    open spec fn view(&self) -> WaitingModel {
        match *self {
            WaitingFor::Priority { player } => WaitingModel::Priority { player },
            WaitingFor::MulliganDecision { player, mulligan_count } => {
                WaitingModel::MulliganDecision { player, mulligan_count }
            },
            WaitingFor::MulliganBottomCards { player, count } => {
                WaitingModel::MulliganBottomCards { player, count }
            },
            WaitingFor::GameOver { winner } => WaitingModel::GameOver { winner },
            WaitingFor::ChooseLegend { player, legend_name, candidates } => {
                WaitingModel::ChooseLegend {
                    player,
                    legend_name: legend_name@,
                    candidates: candidates@,
                }
            },
            WaitingFor::ReplacementChoice { player, candidate_count, candidate_descriptions } => {
                WaitingModel::ReplacementChoice {
                    player,
                    candidate_count,
                    candidate_descriptions: seq_view(candidate_descriptions@),
                }
            },
            WaitingFor::TargetSelection { player, pending_cast, target_slots } => {
                WaitingModel::TargetSelection {
                    player,
                    pending_cast: pending_cast@,
                    target_slots: seq_view(target_slots@),
                }
            },
            WaitingFor::BetweenGamesSideboard { player, game_number, score } => {
                WaitingModel::BetweenGamesSideboard { player, game_number, score }
            },
            WaitingFor::BetweenGamesChoosePlayDraw { player, game_number, score } => {
                WaitingModel::BetweenGamesChoosePlayDraw { player, game_number, score }
            },
        }
    }
}

/// The record of what happened.
pub open spec fn log(events: Seq<GameEvent>) -> Seq<EventModel> {
    seq_view(events)
}

/// Adds an event to the record.
pub fn emit(events: &mut Vec<GameEvent>, event: GameEvent)
    ensures
        log(final(events)@) == log(old(events)@).push(event@),
{
    proof {
        lemma_seq_view_push(events@, event);
    }
    events.push(event);
}

/// The replacements that were applied to an event.
pub open spec fn applied_to(e: ProposedModel) -> Set<ReplacementId> {
    match e {
        ProposedModel::ZoneChange { applied, .. } => applied,
        ProposedModel::Damage { applied, .. } => applied,
        ProposedModel::Draw { applied, .. } => applied,
        ProposedModel::LifeGain { applied, .. } => applied,
        ProposedModel::LifeLoss { applied, .. } => applied,
        ProposedModel::AddCounter { applied, .. } => applied,
        ProposedModel::RemoveCounter { applied, .. } => applied,
        ProposedModel::Tap { applied, .. } => applied,
        ProposedModel::Untap { applied, .. } => applied,
        ProposedModel::Destroy { applied, .. } => applied,
        ProposedModel::Discard { applied, .. } => applied,
        ProposedModel::CreateToken { applied, .. } => applied,
        ProposedModel::Sacrifice { applied, .. } => applied,
        ProposedModel::ProduceMana { applied, .. } => applied,
        ProposedModel::BeginTurn { applied, .. } => applied,
        ProposedModel::BeginPhase { applied, .. } => applied,
    }
}

/// The same event with another set of applied replacements.
pub open spec fn with_applied(e: ProposedModel, applied: Set<ReplacementId>) -> ProposedModel {
    match e {
        ProposedModel::ZoneChange {
            object_id,
            from,
            to,
            cause,
            enter_tapped,
            enter_with_counters,
            controller_override,
            enter_transformed,
            ..
        } => {
            ProposedModel::ZoneChange {
                object_id,
                from,
                to,
                cause,
                enter_tapped,
                enter_with_counters,
                controller_override,
                enter_transformed,
                applied,
            }
        },
        ProposedModel::Damage { source_id, target, amount, is_combat, .. } => {
            ProposedModel::Damage { source_id, target, amount, is_combat, applied }
        },
        ProposedModel::Draw { player_id, count, .. } => {
            ProposedModel::Draw { player_id, count, applied }
        },
        ProposedModel::LifeGain { player_id, amount, .. } => {
            ProposedModel::LifeGain { player_id, amount, applied }
        },
        ProposedModel::LifeLoss { player_id, amount, .. } => {
            ProposedModel::LifeLoss { player_id, amount, applied }
        },
        ProposedModel::AddCounter { object_id, counter_type, count, .. } => {
            ProposedModel::AddCounter { object_id, counter_type, count, applied }
        },
        ProposedModel::RemoveCounter { object_id, counter_type, count, .. } => {
            ProposedModel::RemoveCounter { object_id, counter_type, count, applied }
        },
        ProposedModel::Tap { object_id, .. } => ProposedModel::Tap { object_id, applied },
        ProposedModel::Untap { object_id, .. } => ProposedModel::Untap { object_id, applied },
        ProposedModel::Destroy { object_id, source, cant_regenerate, .. } => {
            ProposedModel::Destroy { object_id, source, cant_regenerate, applied }
        },
        ProposedModel::Discard { player_id, object_id, .. } => {
            ProposedModel::Discard { player_id, object_id, applied }
        },
        ProposedModel::CreateToken { owner, spec, enter_tapped, count, .. } => {
            ProposedModel::CreateToken { owner, spec, enter_tapped, count, applied }
        },
        ProposedModel::Sacrifice { object_id, player_id, .. } => {
            ProposedModel::Sacrifice { object_id, player_id, applied }
        },
        ProposedModel::ProduceMana { source_id, player_id, mana_type, .. } => {
            ProposedModel::ProduceMana { source_id, player_id, mana_type, applied }
        },
        ProposedModel::BeginTurn { player_id, is_extra_turn, .. } => {
            ProposedModel::BeginTurn { player_id, is_extra_turn, applied }
        },
        ProposedModel::BeginPhase { player_id, phase, .. } => {
            ProposedModel::BeginPhase { player_id, phase, applied }
        },
    }
}

impl ProposedEvent {
    /// The replacements that were applied.
    pub fn applied(&self) -> (r: &KeySet<ReplacementId>)
        ensures
            r@ == applied_to(self@),
    {
        match self {
            ProposedEvent::ZoneChange { applied, .. } => applied,
            ProposedEvent::Damage { applied, .. } => applied,
            ProposedEvent::Draw { applied, .. } => applied,
            ProposedEvent::LifeGain { applied, .. } => applied,
            ProposedEvent::LifeLoss { applied, .. } => applied,
            ProposedEvent::AddCounter { applied, .. } => applied,
            ProposedEvent::RemoveCounter { applied, .. } => applied,
            ProposedEvent::Tap { applied, .. } => applied,
            ProposedEvent::Untap { applied, .. } => applied,
            ProposedEvent::Destroy { applied, .. } => applied,
            ProposedEvent::Discard { applied, .. } => applied,
            ProposedEvent::CreateToken { applied, .. } => applied,
            ProposedEvent::Sacrifice { applied, .. } => applied,
            ProposedEvent::ProduceMana { applied, .. } => applied,
            ProposedEvent::BeginTurn { applied, .. } => applied,
            ProposedEvent::BeginPhase { applied, .. } => applied,
        }
    }

    /// Whether a replacement was applied.
    pub fn already_applied(&self, rid: &ReplacementId) -> (r: bool)
        ensures
            r == applied_to(self@).contains(*rid),
    {
        self.applied().contains(rid)
    }

    /// Notes that a replacement was applied.
    pub fn mark_applied(&mut self, rid: ReplacementId)
        ensures
            final(self)@ == with_applied(old(self)@, applied_to(old(self)@).insert(rid)),
    {
        match self {
            ProposedEvent::ZoneChange { applied, .. } => applied.insert(rid),
            ProposedEvent::Damage { applied, .. } => applied.insert(rid),
            ProposedEvent::Draw { applied, .. } => applied.insert(rid),
            ProposedEvent::LifeGain { applied, .. } => applied.insert(rid),
            ProposedEvent::LifeLoss { applied, .. } => applied.insert(rid),
            ProposedEvent::AddCounter { applied, .. } => applied.insert(rid),
            ProposedEvent::RemoveCounter { applied, .. } => applied.insert(rid),
            ProposedEvent::Tap { applied, .. } => applied.insert(rid),
            ProposedEvent::Untap { applied, .. } => applied.insert(rid),
            ProposedEvent::Destroy { applied, .. } => applied.insert(rid),
            ProposedEvent::Discard { applied, .. } => applied.insert(rid),
            ProposedEvent::CreateToken { applied, .. } => applied.insert(rid),
            ProposedEvent::Sacrifice { applied, .. } => applied.insert(rid),
            ProposedEvent::ProduceMana { applied, .. } => applied.insert(rid),
            ProposedEvent::BeginTurn { applied, .. } => applied.insert(rid),
            ProposedEvent::BeginPhase { applied, .. } => applied.insert(rid),
        }
    }
}

} // verus!
