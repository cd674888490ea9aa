//! The state of a game.

use std::sync::Arc;
use rand::rngs::StdRng;
use vstd::prelude::*;
use crate::ability::{
    AbilityDefinition, ChoiceValue, ContinuousModification, GameRestriction, PlayerCounterKind,
    ReplacementDefinition, ResolvedAbility, TargetFilter, TargetRef,
};
use crate::cards::{CoreType, Keyword, Phase, Supertype};
use crate::events::{
    EventModel, GameEvent, MatchScore, ProposedEvent, ProposedModel, WaitingFor, WaitingModel,
    ZoneChangeRecord, ZoneRecordModel,
};
use crate::ids::{CardId, ObjectId, PlayerId, ReplacementId, TrackedSetId};
use crate::keyed::{Key, KeySet, Table};
use crate::mana::{ManaColor, ManaPool, ManaUnit};
use crate::object::{CardFace, GameObject, ObjectModel};
use crate::views::{group_views, map_view, opt_view, seq_view};

verus! {

broadcast use group_views;

/// A seeded source of random numbers, `rand::rngs::StdRng`. Nothing is known of its contents.
#[verifier::external_type_specification]
#[verifier::external_body]
pub struct ExStdRng(StdRng);

/// A generator seeded by `rand::SeedableRng::seed_from_u64`. Nothing is claimed of it.
#[verifier::external_body]
fn seeded_rng(seed: u64) -> (r: StdRng) {
    rand::SeedableRng::seed_from_u64(seed)
}

impl Key for (ObjectId, usize) {
    fn same(&self, other: &Self) -> (b: bool) {
        self.0 == other.0 && self.1 == other.1
    }
}

/// A format.
#[derive(Debug, Clone, Copy, PartialEq, Eq, Structural)]
pub enum GameFormat {
    Standard,
    FreeForAll,
    Commander,
    Brawl,
    HistoricBrawl,
    TwoHeadedGiant,
}

/// How many games a match has.
#[derive(Debug, Clone, Copy, PartialEq, Eq, Structural)]
pub enum MatchType {
    Bo1,
    Bo3,
}

/// Where a match stands.
#[derive(Debug, Clone, Copy, PartialEq, Eq, Structural)]
pub enum MatchPhase {
    InGame,
    BetweenGames,
    Completed,
}

/// Why a card counts as exiled with a source.
#[derive(Debug, Clone, Copy, PartialEq, Eq, Structural)]
pub enum ExileLinkKind {
    TrackedBySource,
    UntilSourceLeaves,
}

/// What is attacked.
#[derive(Debug, Clone, Copy, PartialEq, Eq, Structural)]
pub enum AttackTarget {
    Player(PlayerId),
    Planeswalker(ObjectId),
}

/// How a spell is cast.
#[derive(Debug, Clone, Copy, PartialEq, Eq, Structural)]
pub enum CastingVariant {
    Normal,
    Flashback,
}

/// The rules of a format.
#[derive(Debug, Clone, Copy, PartialEq, Eq, Structural)]
pub struct FormatConfig {
    pub format: GameFormat,
    pub starting_life: i32,
    pub commander_damage_threshold: Option<u8>,
    pub team_based: bool,
}

/// What kind of match is played.
#[derive(Debug, Clone, Copy, PartialEq, Eq, Structural)]
pub struct MatchConfig {
    pub match_type: MatchType,
}

/// A card exiled with a source.
#[derive(Debug, Clone, Copy, PartialEq, Eq, Structural)]
pub struct ExileLink {
    pub source_id: ObjectId,
    pub exiled_id: ObjectId,
    pub kind: ExileLinkKind,
}

/// Damage that was dealt.
#[derive(Debug, Clone, Copy, PartialEq, Eq, Structural)]
pub struct DamageRecord {
    pub source_id: ObjectId,
    pub target: TargetRef,
    pub amount: u32,
}

/// The combat damage that a commander dealt to a player.
#[derive(Debug, Clone, Copy, PartialEq, Eq, Structural)]
pub struct CommanderDamageEntry {
    pub player: PlayerId,
    pub commander: ObjectId,
    pub damage: u32,
}

/// An attacking creature.
#[derive(Debug, Clone, Copy, PartialEq, Eq, Structural)]
pub struct AttackerInfo {
    pub object_id: ObjectId,
    pub defending_player: PlayerId,
    pub attack_target: AttackTarget,
    pub blocked: bool,
}

/// What was last known of an object.
#[derive(Debug)]
pub struct LKISnapshot {
    pub name: String,
    pub power: Option<i32>,
    pub toughness: Option<i32>,
    pub mana_value: u32,
    pub controller: PlayerId,
    pub owner: PlayerId,
}

/// A continuous effect that does not come from a static ability.
#[derive(Debug)]
pub struct TransientEffect {
    pub source_id: ObjectId,
    pub controller: PlayerId,
    pub timestamp: u64,
    pub affected: Arc<TargetFilter>,
    pub modifications: Arc<Vec<Arc<ContinuousModification>>>,
}

/// What an entry of the stack is.
#[allow(inconsistent_fields)]
#[derive(Debug)]
pub enum StackEntryKind {
    Spell {
        card_id: CardId,
        ability: Option<Arc<ResolvedAbility>>,
        casting_variant: CastingVariant,
        actual_mana_spent: u32,
    },
    ActivatedAbility { source_id: ObjectId, ability: Arc<ResolvedAbility> },
    TriggeredAbility { source_id: ObjectId, ability: Arc<ResolvedAbility> },
}

/// An entry of the stack.
#[derive(Debug)]
pub struct StackEntry {
    pub id: ObjectId,
    pub source_id: ObjectId,
    pub controller: PlayerId,
    pub kind: StackEntryKind,
}

/// A number of copies of one card in a deck.
#[derive(Debug)]
pub struct DeckEntry {
    pub card: Arc<CardFace>,
    pub count: u32,
}

impl Clone for DeckEntry {
    fn clone(&self) -> (r: Self)
        ensures
            r == *self,
    {
        DeckEntry { card: self.card.clone(), count: self.count }
    }
}

/// A number of copies of a card, by its name.
#[derive(Debug)]
pub struct DeckCardCount {
    pub name: String,
    pub count: u32,
}

/// A spell that was cast, as it was.
#[derive(Debug)]
pub struct SpellCastRecord {
    pub core_types: Vec<CoreType>,
    pub supertypes: Vec<Supertype>,
    pub subtypes: Vec<String>,
    pub keywords: Vec<Keyword>,
    pub colors: Vec<ManaColor>,
    pub mana_value: u32,
    pub has_x_in_cost: bool,
}

/// What a spell that was cast was like.
#[verifier::ext_equal]
pub struct SpellRecordModel {
    pub core_types: Seq<CoreType>,
    pub supertypes: Seq<Supertype>,
    pub subtypes: Seq<String>,
    pub keywords: Seq<Keyword>,
    pub colors: Seq<ManaColor>,
    pub mana_value: u32,
    pub has_x_in_cost: bool,
}

impl View for SpellCastRecord {
    type V = SpellRecordModel;

    open spec fn view(&self) -> SpellRecordModel {
        SpellRecordModel {
            core_types: self.core_types@,
            supertypes: self.supertypes@,
            subtypes: self.subtypes@,
            keywords: self.keywords@,
            colors: self.colors@,
            mana_value: self.mana_value,
            has_x_in_cost: self.has_x_in_cost,
        }
    }
}

/// The spells that a player cast, oldest first.
#[derive(Debug)]
pub struct SpellHistory {
    pub spells: Vec<SpellCastRecord>,
}

impl View for SpellHistory {
    type V = Seq<SpellRecordModel>;

    open spec fn view(&self) -> Seq<SpellRecordModel> {
        seq_view(self.spells@)
    }
}

/// A player.
#[derive(Debug)]
pub struct Player {
    pub id: PlayerId,
    pub life: i32,
    pub hand: Vec<ObjectId>,
    pub library: Vec<ObjectId>,
    pub graveyard: Vec<ObjectId>,
    pub mana_pool: ManaPool,
    pub is_eliminated: bool,
    pub poison_counters: u32,
    pub drew_from_empty_library: bool,
    pub life_gained_this_turn: u32,
    pub life_lost_this_turn: u32,
    pub speed: Option<u8>,
    pub crimes_committed_this_turn: u32,
    pub descended_this_turn: bool,
    pub turns_taken: u32,
    pub player_counters: Table<PlayerCounterKind, u32>,
}

/// What is known of a player.
#[verifier::ext_equal]
pub struct PlayerModel {
    pub id: PlayerId,
    pub life: i32,
    pub hand: Seq<ObjectId>,
    pub library: Seq<ObjectId>,
    pub graveyard: Seq<ObjectId>,
    pub is_eliminated: bool,
    pub poison_counters: u32,
    pub drew_from_empty_library: bool,
    pub life_gained_this_turn: u32,
    pub life_lost_this_turn: u32,
    pub speed: Option<u8>,
    pub crimes_committed_this_turn: u32,
    pub descended_this_turn: bool,
    pub turns_taken: u32,
    pub player_counters: Map<PlayerCounterKind, u32>,
    pub mana: Seq<ManaUnit>,
}

impl View for Player {
    type V = PlayerModel;

    open spec fn view(&self) -> PlayerModel {
        PlayerModel {
            id: self.id,
            life: self.life,
            hand: self.hand@,
            library: self.library@,
            graveyard: self.graveyard@,
            is_eliminated: self.is_eliminated,
            poison_counters: self.poison_counters,
            drew_from_empty_library: self.drew_from_empty_library,
            life_gained_this_turn: self.life_gained_this_turn,
            life_lost_this_turn: self.life_lost_this_turn,
            speed: self.speed,
            crimes_committed_this_turn: self.crimes_committed_this_turn,
            descended_this_turn: self.descended_this_turn,
            turns_taken: self.turns_taken,
            player_counters: self.player_counters@,
            mana: self.mana_pool.mana@,
        }
    }
}

/// Attackers and blockers.
#[derive(Debug)]
pub struct CombatState {
    pub attackers: Vec<AttackerInfo>,
    pub blocker_assignments: Table<ObjectId, Vec<ObjectId>>,
    pub blocker_to_attacker: Table<ObjectId, Vec<ObjectId>>,
}

/// Who attacks and who blocks whom.
#[verifier::ext_equal]
pub struct CombatModel {
    pub attackers: Seq<AttackerInfo>,
    pub blocker_assignments: Map<ObjectId, Seq<ObjectId>>,
    pub blocker_to_attacker: Map<ObjectId, Seq<ObjectId>>,
}

impl View for CombatState {
    type V = CombatModel;

    open spec fn view(&self) -> CombatModel {
        CombatModel {
            attackers: self.attackers@,
            blocker_assignments: map_view(self.blocker_assignments@),
            blocker_to_attacker: map_view(self.blocker_to_attacker@),
        }
    }
}

/// The cards a player registered and plays with.
#[derive(Debug)]
pub struct PlayerDeckPool {
    pub player: PlayerId,
    pub registered_main: Arc<Vec<DeckEntry>>,
    pub registered_sideboard: Arc<Vec<DeckEntry>>,
    pub registered_commander: Arc<Vec<DeckEntry>>,
    pub current_main: Arc<Vec<DeckEntry>>,
    pub current_sideboard: Arc<Vec<DeckEntry>>,
    pub current_commander: Arc<Vec<DeckEntry>>,
}

/// The cards a player registered and plays with.
#[verifier::ext_equal]
pub struct DeckPoolModel {
    pub player: PlayerId,
    pub registered_main: Seq<DeckEntry>,
    pub registered_sideboard: Seq<DeckEntry>,
    pub registered_commander: Seq<DeckEntry>,
    pub current_main: Seq<DeckEntry>,
    pub current_sideboard: Seq<DeckEntry>,
    pub current_commander: Seq<DeckEntry>,
}

impl View for PlayerDeckPool {
    type V = DeckPoolModel;

    open spec fn view(&self) -> DeckPoolModel {
        DeckPoolModel {
            player: self.player,
            registered_main: self.registered_main@,
            registered_sideboard: self.registered_sideboard@,
            registered_commander: self.registered_commander@,
            current_main: self.current_main@,
            current_sideboard: self.current_sideboard@,
            current_commander: self.current_commander@,
        }
    }
}

/// A replacement that waits for a choice.
#[derive(Debug)]
pub struct PendingReplacement {
    pub proposed: ProposedEvent,
    pub candidates: Vec<ReplacementId>,
    pub depth: u16,
    pub is_optional: bool,
}

/// A replacement that waits for a choice.
#[verifier::ext_equal]
pub struct PendingReplacementModel {
    pub proposed: ProposedModel,
    pub candidates: Seq<ReplacementId>,
    pub depth: u16,
    pub is_optional: bool,
}

impl View for PendingReplacement {
    type V = PendingReplacementModel;

    open spec fn view(&self) -> PendingReplacementModel {
        PendingReplacementModel {
            proposed: self.proposed@,
            candidates: self.candidates@,
            depth: self.depth,
            is_optional: self.is_optional,
        }
    }
}

/// The state of a game.
#[derive(Debug)]
pub struct GameState {
    pub turn_number: u32,
    pub active_player: PlayerId,
    pub priority_player: PlayerId,
    pub phase: Phase,
    pub players: Vec<Player>,
    pub objects: Table<ObjectId, GameObject>,
    pub next_object_id: u64,
    pub next_timestamp: u64,
    pub battlefield: Vec<ObjectId>,
    pub exile: Vec<ObjectId>,
    pub stack: Vec<StackEntry>,
    pub seat_order: Vec<PlayerId>,
    pub eliminated_players: Vec<PlayerId>,
    pub format_config: FormatConfig,
    pub waiting_for: WaitingFor,
    pub combat: Option<CombatState>,
    pub layers_dirty: bool,
    pub exile_links: Vec<ExileLink>,
    pub lki_cache: Table<ObjectId, LKISnapshot>,
    pub current_trigger_event: Option<GameEvent>,
    pub last_named_choice: Option<ChoiceValue>,
    pub last_effect_amount: Option<i32>,
    pub last_effect_count: Option<i32>,
    pub tracked_object_sets: Table<TrackedSetId, Vec<ObjectId>>,
    pub exiled_from_hand_this_resolution: u32,
    pub zone_changes_this_turn: Vec<ZoneChangeRecord>,
    pub last_zone_changed_ids: Vec<ObjectId>,
    pub dungeons_completed: Table<PlayerId, u32>,
    pub spells_cast_this_turn: u8,
    pub spells_cast_last_turn: Option<u8>,
    pub spells_cast_this_game: Table<PlayerId, u32>,
    pub spells_cast_this_turn_by_player: Table<PlayerId, SpellHistory>,
    pub players_attacked_this_turn: KeySet<PlayerId>,
    pub players_attacked_this_step: KeySet<PlayerId>,
    pub attacking_creatures_this_turn: Table<PlayerId, u32>,
    pub players_who_discarded_card_this_turn: KeySet<PlayerId>,
    pub players_who_created_token_this_turn: KeySet<PlayerId>,
    pub players_who_sacrificed_artifact_this_turn: KeySet<PlayerId>,
    pub players_who_had_creature_etb_this_turn: KeySet<PlayerId>,
    pub players_who_had_angel_or_berserker_etb_this_turn: KeySet<PlayerId>,
    pub players_who_had_artifact_etb_this_turn: KeySet<PlayerId>,
    pub players_who_searched_library_this_turn: KeySet<PlayerId>,
    pub players_who_added_counter_this_turn: KeySet<PlayerId>,
    pub cards_left_graveyard_this_turn: Table<PlayerId, u32>,
    pub creature_died_this_turn: bool,
    pub activated_abilities_this_turn: Table<(ObjectId, usize), u32>,
    pub activated_abilities_this_game: Table<(ObjectId, usize), u32>,
    pub pending_activations: Vec<(ObjectId, usize)>,
    pub lands_tapped_for_mana: Table<PlayerId, Vec<ObjectId>>,
    pub priority_passes: KeySet<PlayerId>,
    pub priority_pass_count: u8,
    pub pending_damage_prevention: Vec<ReplacementDefinition>,
    pub pending_replacement: Option<PendingReplacement>,
    pub post_replacement_effect: Option<Arc<AbilityDefinition>>,
    pub post_replacement_source: Option<ObjectId>,
    pub restrictions: Vec<GameRestriction>,
    pub damage_dealt_this_turn: Vec<DamageRecord>,
    pub commander_damage: Vec<CommanderDamageEntry>,
    pub transient_effects: Vec<TransientEffect>,
    pub match_config: MatchConfig,
    pub match_phase: MatchPhase,
    pub match_score: MatchScore,
    pub game_number: u8,
    pub current_starting_player: PlayerId,
    pub next_game_chooser: Option<PlayerId>,
    pub sideboard_submitted: Vec<PlayerId>,
    pub deck_pools: Vec<PlayerDeckPool>,
    pub card_face_registry: Vec<(String, Arc<CardFace>)>,
    pub state_revision: u64,
    pub rng: StdRng,
    pub rng_seed: u64,
}

/// What the state of a game says, the source of random numbers included.
#[verifier::ext_equal]
pub struct Game {
    pub turn_number: u32,
    pub active_player: PlayerId,
    pub priority_player: PlayerId,
    pub phase: Phase,
    pub players: Seq<PlayerModel>,
    pub objects: Map<ObjectId, ObjectModel>,
    pub next_object_id: u64,
    pub next_timestamp: u64,
    pub battlefield: Seq<ObjectId>,
    pub exile: Seq<ObjectId>,
    pub stack: Seq<StackEntry>,
    pub seat_order: Seq<PlayerId>,
    pub eliminated_players: Seq<PlayerId>,
    pub format_config: FormatConfig,
    pub waiting_for: WaitingModel,
    pub combat: Option<CombatModel>,
    pub layers_dirty: bool,
    pub exile_links: Seq<ExileLink>,
    pub lki_cache: Map<ObjectId, LKISnapshot>,
    pub current_trigger_event: Option<EventModel>,
    pub last_named_choice: Option<ChoiceValue>,
    pub last_effect_amount: Option<i32>,
    pub last_effect_count: Option<i32>,
    pub tracked_object_sets: Table<TrackedSetId, Vec<ObjectId>>,
    pub exiled_from_hand_this_resolution: u32,
    pub zone_changes_this_turn: Seq<ZoneRecordModel>,
    pub last_zone_changed_ids: Seq<ObjectId>,
    pub dungeons_completed: Map<PlayerId, u32>,
    pub spells_cast_this_turn: u8,
    pub spells_cast_last_turn: Option<u8>,
    pub spells_cast_this_game: Map<PlayerId, u32>,
    pub spells_cast_this_turn_by_player: Map<PlayerId, Seq<SpellRecordModel>>,
    pub players_attacked_this_turn: Set<PlayerId>,
    pub players_attacked_this_step: Set<PlayerId>,
    pub attacking_creatures_this_turn: Map<PlayerId, u32>,
    pub players_who_discarded_card_this_turn: Set<PlayerId>,
    pub players_who_created_token_this_turn: Set<PlayerId>,
    pub players_who_sacrificed_artifact_this_turn: Set<PlayerId>,
    pub players_who_had_creature_etb_this_turn: Set<PlayerId>,
    pub players_who_had_angel_or_berserker_etb_this_turn: Set<PlayerId>,
    pub players_who_had_artifact_etb_this_turn: Set<PlayerId>,
    pub players_who_searched_library_this_turn: Set<PlayerId>,
    pub players_who_added_counter_this_turn: Set<PlayerId>,
    pub cards_left_graveyard_this_turn: Map<PlayerId, u32>,
    pub creature_died_this_turn: bool,
    pub activated_abilities_this_turn: Map<(ObjectId, usize), u32>,
    pub activated_abilities_this_game: Map<(ObjectId, usize), u32>,
    pub pending_activations: Seq<(ObjectId, usize)>,
    pub lands_tapped_for_mana: Map<PlayerId, Seq<ObjectId>>,
    pub priority_passes: Set<PlayerId>,
    pub priority_pass_count: u8,
    pub pending_damage_prevention: Seq<ReplacementDefinition>,
    pub pending_replacement: Option<PendingReplacementModel>,
    pub post_replacement_effect: Option<Arc<AbilityDefinition>>,
    pub post_replacement_source: Option<ObjectId>,
    pub restrictions: Seq<GameRestriction>,
    pub damage_dealt_this_turn: Seq<DamageRecord>,
    pub commander_damage: Seq<CommanderDamageEntry>,
    pub transient_effects: Seq<TransientEffect>,
    pub match_config: MatchConfig,
    pub match_phase: MatchPhase,
    pub match_score: MatchScore,
    pub game_number: u8,
    pub current_starting_player: PlayerId,
    pub next_game_chooser: Option<PlayerId>,
    pub sideboard_submitted: Seq<PlayerId>,
    pub deck_pools: Seq<DeckPoolModel>,
    pub card_face_registry: Seq<(String, Arc<CardFace>)>,
    pub state_revision: u64,
    pub rng: StdRng,
    pub rng_seed: u64,
    pub object_ids: Seq<ObjectId>,
}

impl View for GameState {
    type V = Game;

    open spec fn view(&self) -> Game {
        Game {
            turn_number: self.turn_number,
            active_player: self.active_player,
            priority_player: self.priority_player,
            phase: self.phase,
            players: seq_view(self.players@),
            objects: map_view(self.objects@),
            next_object_id: self.next_object_id,
            next_timestamp: self.next_timestamp,
            battlefield: self.battlefield@,
            exile: self.exile@,
            stack: self.stack@,
            seat_order: self.seat_order@,
            eliminated_players: self.eliminated_players@,
            format_config: self.format_config,
            waiting_for: self.waiting_for@,
            combat: opt_view(self.combat),
            layers_dirty: self.layers_dirty,
            exile_links: self.exile_links@,
            lki_cache: self.lki_cache@,
            current_trigger_event: opt_view(self.current_trigger_event),
            last_named_choice: self.last_named_choice,
            last_effect_amount: self.last_effect_amount,
            last_effect_count: self.last_effect_count,
            tracked_object_sets: self.tracked_object_sets,
            exiled_from_hand_this_resolution: self.exiled_from_hand_this_resolution,
            zone_changes_this_turn: seq_view(self.zone_changes_this_turn@),
            last_zone_changed_ids: self.last_zone_changed_ids@,
            dungeons_completed: self.dungeons_completed@,
            spells_cast_this_turn: self.spells_cast_this_turn,
            spells_cast_last_turn: self.spells_cast_last_turn,
            spells_cast_this_game: self.spells_cast_this_game@,
            spells_cast_this_turn_by_player: map_view(self.spells_cast_this_turn_by_player@),
            players_attacked_this_turn: self.players_attacked_this_turn@,
            players_attacked_this_step: self.players_attacked_this_step@,
            attacking_creatures_this_turn: self.attacking_creatures_this_turn@,
            players_who_discarded_card_this_turn: self.players_who_discarded_card_this_turn@,
            players_who_created_token_this_turn: self.players_who_created_token_this_turn@,
            players_who_sacrificed_artifact_this_turn: self.players_who_sacrificed_artifact_this_turn@,
            players_who_had_creature_etb_this_turn: self.players_who_had_creature_etb_this_turn@,
            players_who_had_angel_or_berserker_etb_this_turn: self.players_who_had_angel_or_berserker_etb_this_turn@,
            players_who_had_artifact_etb_this_turn: self.players_who_had_artifact_etb_this_turn@,
            players_who_searched_library_this_turn: self.players_who_searched_library_this_turn@,
            players_who_added_counter_this_turn: self.players_who_added_counter_this_turn@,
            cards_left_graveyard_this_turn: self.cards_left_graveyard_this_turn@,
            creature_died_this_turn: self.creature_died_this_turn,
            activated_abilities_this_turn: self.activated_abilities_this_turn@,
            activated_abilities_this_game: self.activated_abilities_this_game@,
            pending_activations: self.pending_activations@,
            lands_tapped_for_mana: map_view(self.lands_tapped_for_mana@),
            priority_passes: self.priority_passes@,
            priority_pass_count: self.priority_pass_count,
            pending_damage_prevention: self.pending_damage_prevention@,
            pending_replacement: opt_view(self.pending_replacement),
            post_replacement_effect: self.post_replacement_effect,
            post_replacement_source: self.post_replacement_source,
            restrictions: self.restrictions@,
            damage_dealt_this_turn: self.damage_dealt_this_turn@,
            commander_damage: self.commander_damage@,
            transient_effects: self.transient_effects@,
            match_config: self.match_config,
            match_phase: self.match_phase,
            match_score: self.match_score,
            game_number: self.game_number,
            current_starting_player: self.current_starting_player,
            next_game_chooser: self.next_game_chooser,
            sideboard_submitted: self.sideboard_submitted@,
            deck_pools: seq_view(self.deck_pools@),
            card_face_registry: self.card_face_registry@,
            state_revision: self.state_revision,
            rng: self.rng,
            rng_seed: self.rng_seed,
            object_ids: self.objects.order(),
        }
    }
}

/// A player at the start of a game.
pub open spec fn new_player(id: PlayerId, life: i32) -> PlayerModel {
    PlayerModel {
        id,
        life,
        hand: Seq::empty(),
        library: Seq::empty(),
        graveyard: Seq::empty(),
        is_eliminated: false,
        poison_counters: 0,
        drew_from_empty_library: false,
        life_gained_this_turn: 0,
        life_lost_this_turn: 0,
        speed: None,
        crimes_committed_this_turn: 0,
        descended_this_turn: false,
        turns_taken: 0,
        player_counters: Map::empty(),
        mana: Seq::empty(),
    }
}

/// The players at the start of a game, in seat order.
pub open spec fn seated(config: FormatConfig, n: nat) -> Seq<PlayerModel> {
    Seq::new(n, |i: int| new_player(PlayerId(i as u8), config.starting_life))
}

/// The seats in order.
pub open spec fn seats(n: nat) -> Seq<PlayerId> {
    Seq::new(n, |i: int| PlayerId(i as u8))
}

/// A game that has not begun.
pub open spec fn is_new_game(g: Game, config: FormatConfig, player_count: u8, seed: u64) -> bool {
    &&& g.tracked_object_sets.seq().len() == 0
    &&& g == Game {
        turn_number: 0,
        active_player: PlayerId(0),
        priority_player: PlayerId(0),
        phase: Phase::Untap,
        players: seated(config, player_count as nat),
        objects: Map::empty(),
        next_object_id: 1,
        next_timestamp: 1,
        battlefield: Seq::empty(),
        exile: Seq::empty(),
        stack: Seq::empty(),
        seat_order: seats(player_count as nat),
        eliminated_players: Seq::empty(),
        format_config: config,
        waiting_for: WaitingModel::Priority { player: PlayerId(0) },
        combat: None,
        layers_dirty: false,
        exile_links: Seq::empty(),
        lki_cache: Map::empty(),
        current_trigger_event: None,
        last_named_choice: None,
        last_effect_amount: None,
        last_effect_count: None,
        tracked_object_sets: g.tracked_object_sets,
        exiled_from_hand_this_resolution: 0,
        zone_changes_this_turn: Seq::empty(),
        last_zone_changed_ids: Seq::empty(),
        dungeons_completed: Map::empty(),
        spells_cast_this_turn: 0,
        spells_cast_last_turn: None,
        spells_cast_this_game: Map::empty(),
        spells_cast_this_turn_by_player: Map::empty(),
        players_attacked_this_turn: Set::empty(),
        players_attacked_this_step: Set::empty(),
        attacking_creatures_this_turn: Map::empty(),
        players_who_discarded_card_this_turn: Set::empty(),
        players_who_created_token_this_turn: Set::empty(),
        players_who_sacrificed_artifact_this_turn: Set::empty(),
        players_who_had_creature_etb_this_turn: Set::empty(),
        players_who_had_angel_or_berserker_etb_this_turn: Set::empty(),
        players_who_had_artifact_etb_this_turn: Set::empty(),
        players_who_searched_library_this_turn: Set::empty(),
        players_who_added_counter_this_turn: Set::empty(),
        cards_left_graveyard_this_turn: Map::empty(),
        creature_died_this_turn: false,
        activated_abilities_this_turn: Map::empty(),
        activated_abilities_this_game: Map::empty(),
        pending_activations: Seq::empty(),
        lands_tapped_for_mana: Map::empty(),
        priority_passes: Set::empty(),
        priority_pass_count: 0,
        pending_damage_prevention: Seq::empty(),
        pending_replacement: None,
        post_replacement_effect: None,
        post_replacement_source: None,
        restrictions: Seq::empty(),
        damage_dealt_this_turn: Seq::empty(),
        commander_damage: Seq::empty(),
        transient_effects: Seq::empty(),
        match_config: MatchConfig { match_type: MatchType::Bo1 },
        match_phase: MatchPhase::InGame,
        match_score: MatchScore { p0_wins: 0, p1_wins: 0, draws: 0 },
        game_number: 1,
        current_starting_player: PlayerId(0),
        next_game_chooser: None,
        sideboard_submitted: Seq::empty(),
        deck_pools: Seq::empty(),
        card_face_registry: Seq::empty(),
        state_revision: 0,
        rng: g.rng,
        rng_seed: seed,
        object_ids: Seq::empty(),
    }
}

impl Player {
    pub fn new(id: PlayerId, life: i32) -> (r: Self)
        ensures
            r@ == new_player(id, life),
    {
        Player {
            id,
            life,
            hand: Vec::new(),
            library: Vec::new(),
            graveyard: Vec::new(),
            mana_pool: ManaPool::new(),
            is_eliminated: false,
            poison_counters: 0,
            drew_from_empty_library: false,
            life_gained_this_turn: 0,
            life_lost_this_turn: 0,
            speed: None,
            crimes_committed_this_turn: 0,
            descended_this_turn: false,
            turns_taken: 0,
            player_counters: Table::new(),
        }
    }

    /// The number of counters of a kind that the player has.
    pub fn player_counter(&self, kind: PlayerCounterKind) -> (r: u32)
        ensures
            r == count_in(self@.player_counters, kind),
    {
        match self.player_counters.get(&kind) {
            Some(n) => *n,
            None => 0,
        }
    }
}

/// The number that a map has for a key, zero where it has none.
pub open spec fn count_in<K>(m: Map<K, u32>, k: K) -> u32 {
    if m.dom().contains(k) {
        m[k]
    } else {
        0
    }
}

/// The number that a table has for a key, zero where it has none.
pub fn count_of_key<K: Key>(t: &Table<K, u32>, k: &K) -> (r: u32)
    ensures
        r == count_in(t@, k@),
{
    match t.get(k) {
        Some(n) => *n,
        None => 0,
    }
}

impl GameFormat {
    /// Whether a duel of this format has a free first mulligan.
    pub fn grants_free_first_mulligan(&self) -> (r: bool)
        ensures
            r == free_in_duels(*self),
    {
        match self {
            GameFormat::Commander | GameFormat::Brawl | GameFormat::HistoricBrawl => true,
            GameFormat::Standard | GameFormat::FreeForAll | GameFormat::TwoHeadedGiant => false,
        }
    }
}

/// Whether a duel of a format has a free first mulligan.
pub open spec fn free_in_duels(f: GameFormat) -> bool {
    f == GameFormat::Commander || f == GameFormat::Brawl || f == GameFormat::HistoricBrawl
}

impl FormatConfig {
    pub fn standard() -> (r: Self)
        ensures
            r == (FormatConfig {
                format: GameFormat::Standard,
                starting_life: 20,
                commander_damage_threshold: None,
                team_based: false,
            }),
    {
        FormatConfig {
            format: GameFormat::Standard,
            starting_life: 20,
            commander_damage_threshold: None,
            team_based: false,
        }
    }

    pub fn free_for_all() -> (r: Self)
        ensures
            r == (FormatConfig {
                format: GameFormat::FreeForAll,
                starting_life: 20,
                commander_damage_threshold: None,
                team_based: false,
            }),
    {
        FormatConfig {
            format: GameFormat::FreeForAll,
            starting_life: 20,
            commander_damage_threshold: None,
            team_based: false,
        }
    }

    pub fn commander() -> (r: Self)
        ensures
            r == (FormatConfig {
                format: GameFormat::Commander,
                starting_life: 40,
                commander_damage_threshold: Some(21),
                team_based: false,
            }),
    {
        FormatConfig {
            format: GameFormat::Commander,
            starting_life: 40,
            commander_damage_threshold: Some(21),
            team_based: false,
        }
    }

    pub fn brawl() -> (r: Self)
        ensures
            r == (FormatConfig {
                format: GameFormat::Brawl,
                starting_life: 25,
                commander_damage_threshold: None,
                team_based: false,
            }),
    {
        FormatConfig {
            format: GameFormat::Brawl,
            starting_life: 25,
            commander_damage_threshold: None,
            team_based: false,
        }
    }

    pub fn two_headed_giant() -> (r: Self)
        ensures
            r == (FormatConfig {
                format: GameFormat::TwoHeadedGiant,
                starting_life: 30,
                commander_damage_threshold: None,
                team_based: true,
            }),
    {
        FormatConfig {
            format: GameFormat::TwoHeadedGiant,
            starting_life: 30,
            commander_damage_threshold: None,
            team_based: true,
        }
    }
}

impl CombatState {
    pub fn new() -> (r: Self)
        ensures
            r@ == (CombatModel {
                attackers: Seq::empty(),
                blocker_assignments: Map::empty(),
                blocker_to_attacker: Map::empty(),
            }),
    {
        CombatState {
            attackers: Vec::new(),
            blocker_assignments: Table::new(),
            blocker_to_attacker: Table::new(),
        }
    }
}

/// The object with this identifier, if there is one.
pub open spec fn object_at(g: Game, id: ObjectId) -> Option<ObjectModel> {
    if g.objects.dom().contains(id) {
        Some(g.objects[id])
    } else {
        None
    }
}

/// The game with one object changed.
pub open spec fn with_object(g: Game, id: ObjectId, o: ObjectModel) -> Game {
    Game { objects: g.objects.insert(id, o), ..g }
}

/// `i` is the place of the first player with this identifier.
pub open spec fn is_seat(players: Seq<PlayerModel>, p: PlayerId, i: int) -> bool {
    &&& 0 <= i < players.len()
    &&& players[i].id == p
    &&& forall|j: int| 0 <= j < i ==> (#[trigger] players[j]).id != p
}

/// The place of the first player with this identifier, if there is one.
pub open spec fn seat_of(players: Seq<PlayerModel>, p: PlayerId) -> Option<int> {
    if exists|i: int| is_seat(players, p, i) {
        Some(choose|i: int| is_seat(players, p, i))
    } else {
        None
    }
}

/// The first player with this identifier, if there is one.
pub open spec fn player_of(g: Game, p: PlayerId) -> Option<PlayerModel> {
    match seat_of(g.players, p) {
        Some(i) => Some(g.players[i]),
        None => None,
    }
}

/// The game with the player at a place changed.
pub open spec fn with_player_at(g: Game, i: int, p: PlayerModel) -> Game {
    Game { players: g.players.update(i, p), ..g }
}

/// A place found is the one that `seat_of` speaks of.
pub proof fn lemma_seat(players: Seq<PlayerModel>, p: PlayerId, i: int)
    requires
        is_seat(players, p, i),
    ensures
        seat_of(players, p) == Some(i),
{
    let c = choose|c: int| is_seat(players, p, c);
    assert(is_seat(players, p, c));
    if c < i {
        assert(players[c].id != p);
    }
    if i < c {
        assert(players[i].id != p);
    }
}

/// Without a player of this identifier there is no place.
pub proof fn lemma_no_seat(players: Seq<PlayerModel>, p: PlayerId)
    requires
        forall|j: int| 0 <= j < players.len() ==> (#[trigger] players[j]).id != p,
    ensures
        seat_of(players, p) is None,
{
    if exists|i: int| is_seat(players, p, i) {
        let c = choose|c: int| is_seat(players, p, c);
        assert(is_seat(players, p, c));
    }
}

impl GameState {
    /// A game of the given format that has not begun.
    pub fn new(config: FormatConfig, player_count: u8, seed: u64) -> (r: Self)
        ensures
            is_new_game(r@, config, player_count, seed),
    {
        let mut players: Vec<Player> = Vec::new();
        let mut seat_order: Vec<PlayerId> = Vec::new();
        let mut i: u8 = 0;
        while i < player_count
            invariant
                i <= player_count,
                seq_view(players@) == seated(config, i as nat),
                seat_order@ == seats(i as nat),
            decreases player_count - i,
        {
            let p = Player::new(PlayerId(i), config.starting_life);
            players.push(p);
            seat_order.push(PlayerId(i));
            assert(seated(config, (i + 1) as nat) =~= seated(config, i as nat).push(
                new_player(PlayerId(i), config.starting_life),
            ));
            assert(seats((i + 1) as nat) =~= seats(i as nat).push(PlayerId(i)));
            i += 1;
        }
        let r = GameState {
            turn_number: 0,
            active_player: PlayerId(0),
            priority_player: PlayerId(0),
            phase: Phase::Untap,
            players,
            objects: Table::new(),
            next_object_id: 1,
            next_timestamp: 1,
            battlefield: Vec::new(),
            exile: Vec::new(),
            stack: Vec::new(),
            seat_order,
            eliminated_players: Vec::new(),
            format_config: config,
            waiting_for: WaitingFor::Priority { player: PlayerId(0) },
            combat: None,
            layers_dirty: false,
            exile_links: Vec::new(),
            lki_cache: Table::new(),
            current_trigger_event: None,
            last_named_choice: None,
            last_effect_amount: None,
            last_effect_count: None,
            tracked_object_sets: Table::new(),
            exiled_from_hand_this_resolution: 0,
            zone_changes_this_turn: Vec::new(),
            last_zone_changed_ids: Vec::new(),
            dungeons_completed: Table::new(),
            spells_cast_this_turn: 0,
            spells_cast_last_turn: None,
            spells_cast_this_game: Table::new(),
            spells_cast_this_turn_by_player: Table::new(),
            players_attacked_this_turn: KeySet::new(),
            players_attacked_this_step: KeySet::new(),
            attacking_creatures_this_turn: Table::new(),
            players_who_discarded_card_this_turn: KeySet::new(),
            players_who_created_token_this_turn: KeySet::new(),
            players_who_sacrificed_artifact_this_turn: KeySet::new(),
            players_who_had_creature_etb_this_turn: KeySet::new(),
            players_who_had_angel_or_berserker_etb_this_turn: KeySet::new(),
            players_who_had_artifact_etb_this_turn: KeySet::new(),
            players_who_searched_library_this_turn: KeySet::new(),
            players_who_added_counter_this_turn: KeySet::new(),
            cards_left_graveyard_this_turn: Table::new(),
            creature_died_this_turn: false,
            activated_abilities_this_turn: Table::new(),
            activated_abilities_this_game: Table::new(),
            pending_activations: Vec::new(),
            lands_tapped_for_mana: Table::new(),
            priority_passes: KeySet::new(),
            priority_pass_count: 0,
            pending_damage_prevention: Vec::new(),
            pending_replacement: None,
            post_replacement_effect: None,
            post_replacement_source: None,
            restrictions: Vec::new(),
            damage_dealt_this_turn: Vec::new(),
            commander_damage: Vec::new(),
            transient_effects: Vec::new(),
            match_config: MatchConfig { match_type: MatchType::Bo1 },
            match_phase: MatchPhase::InGame,
            match_score: MatchScore { p0_wins: 0, p1_wins: 0, draws: 0 },
            game_number: 1,
            current_starting_player: PlayerId(0),
            next_game_chooser: None,
            sideboard_submitted: Vec::new(),
            deck_pools: Vec::new(),
            card_face_registry: Vec::new(),
            state_revision: 0,
            rng: seeded_rng(seed),
            rng_seed: seed,
        };
        assert(r@.object_ids =~= Seq::empty());
        r
    }

    /// A game of two players that has not begun.
    pub fn new_two_player(seed: u64) -> (r: Self)
        ensures
            is_new_game(
                r@,
                (FormatConfig {
                    format: GameFormat::Standard,
                    starting_life: 20,
                    commander_damage_threshold: None,
                    team_based: false,
                }),
                2,
                seed,
            ),
    {
        GameState::new(FormatConfig::standard(), 2, seed)
    }

    /// The object with an identifier.
    pub fn object(&self, id: ObjectId) -> (r: Option<&GameObject>)
        ensures
            match r {
                Some(o) => object_at(self@, id) == Some(o@),
                None => object_at(self@, id) is None,
            },
    {
        self.objects.get(&id)
    }

    /// The object with an identifier, to be changed.
    pub fn object_mut(&mut self, id: ObjectId) -> (r: Option<&mut GameObject>)
        ensures
            match r {
                Some(o) => object_at(old(self)@, id) == Some(o@) && final(self)@ == with_object(
                    old(self)@,
                    id,
                    final(o)@,
                ),
                None => object_at(old(self)@, id) is None && final(self)@ == old(self)@,
            },
    {
        self.objects.get_mut(&id)
    }

    /// The place of the first player with an identifier.
    pub fn seat(&self, p: PlayerId) -> (r: Option<usize>)
        ensures
            match seat_of(self@.players, p) {
                Some(i) => r is Some && r->0 == i && 0 <= i < self@.players.len()
                    && self@.players[i].id == p,
                None => r is None,
            },
    {
        let ghost ps = self@.players;
        let mut i: usize = 0;
        while i < self.players.len()
            invariant
                i <= self.players@.len(),
                ps == self@.players,
                forall|j: int| 0 <= j < i ==> (#[trigger] ps[j]).id != p,
            decreases self.players.len() - i,
        {
            assert(ps[i as int] == self.players@[i as int]@);
            if self.players[i].id == p {
                proof {
                    lemma_seat(ps, p, i as int);
                }
                return Some(i);
            }
            i += 1;
        }
        proof {
            lemma_no_seat(ps, p);
        }
        None
    }

    /// The first player with an identifier.
    pub fn player(&self, p: PlayerId) -> (r: Option<&Player>)
        ensures
            match r {
                Some(q) => player_of(self@, p) == Some(q@),
                None => player_of(self@, p) is None,
            },
    {
        match self.seat(p) {
            Some(i) => Some(&self.players[i]),
            None => None,
        }
    }

    /// The player at a place, to be changed.
    pub fn player_mut_at(&mut self, i: usize) -> (r: &mut Player)
        requires
            i < old(self)@.players.len(),
        ensures
            old(self)@.players[i as int] == r@,
            final(self)@ == with_player_at(old(self)@, i as int, final(r)@),
    {
        &mut self.players[i]
    }
}

} // verus!
