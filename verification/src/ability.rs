//! Abilities, effects, filters, quantities and replacement definitions.

use std::sync::Arc;
use vstd::prelude::*;
use crate::cards::{CoreType, CounterType, DynamicKeywordKind, Keyword, Supertype, Zone};
use crate::ids::{ObjectId, PlayerId};
use crate::keyed::Key;
use crate::mana::{ManaColor, ManaCost, ManaType};

verus! {

/// A player as seen by the controller of an ability.
#[derive(Debug, Clone, Copy, PartialEq, Eq, Structural)]
pub enum ControllerRef {
    You,
    Opponent,
    TargetPlayer,
}

/// Whose things are counted.
#[derive(Debug, Clone, Copy, PartialEq, Eq, Structural)]
pub enum CountScope {
    Controller,
    All,
    Opponents,
}

/// A zone in which cards are counted.
#[derive(Debug, Clone, Copy, PartialEq, Eq, Structural)]
pub enum ZoneRef {
    Library,
    Graveyard,
    Hand,
    Exile,
}

/// How several values become one.
#[derive(Debug, Clone, Copy, PartialEq, Eq, Structural)]
pub enum AggregateFunction {
    Max,
    Min,
    Sum,
}

/// A number that an object has.
#[derive(Debug, Clone, Copy, PartialEq, Eq, Structural)]
pub enum ObjectProperty {
    Power,
    Toughness,
    ManaValue,
}

/// Which way a half is rounded.
#[derive(Debug, Clone, Copy, PartialEq, Eq, Structural)]
pub enum RoundingMode {
    Up,
    Down,
}

/// A kind of counter that players have.
#[derive(Debug, Clone, Copy, PartialEq, Eq, Structural)]
pub enum PlayerCounterKind {
    Experience,
    Rad,
    Ticket,
}

impl View for PlayerCounterKind {
    type V = PlayerCounterKind;

    open spec fn view(&self) -> PlayerCounterKind {
        *self
    }
}

impl Key for PlayerCounterKind {
    fn same(&self, other: &Self) -> (b: bool) {
        *self == *other
    }
}

/// A kind of attachment.
#[derive(Debug, Clone, Copy, PartialEq, Eq, Structural)]
pub enum AttachmentKind {
    Aura,
    Equipment,
    Fortification,
}

/// A comparison of two numbers.
#[derive(Debug, Clone, Copy, PartialEq, Eq, Structural)]
pub enum Comparator {
    GT,
    LT,
    GE,
    LE,
    EQ,
}

/// Which players are counted.
#[derive(Debug, Clone, Copy, PartialEq, Eq, Structural)]
pub enum PlayerFilter {
    Controller,
    Opponent,
    OpponentLostLife,
    OpponentGainedLife,
    All,
    HighestSpeed,
    ZoneChangedThisWay,
    OwnersOfCardsExiledBySource,
    TriggeringPlayer,
}

/// How an ability comes to be used.
#[derive(Debug, Clone, Copy, PartialEq, Eq, Structural)]
pub enum AbilityKind {
    Spell,
    Activated,
    BeginGame,
}

/// How long something lasts.
#[derive(Debug, Clone, Copy, PartialEq, Eq, Structural)]
pub enum Duration {
    UntilEndOfTurn,
    Permanent,
}

/// Whose life is gained.
#[derive(Debug, Clone, Copy, PartialEq, Eq, Structural)]
pub enum GainLifePlayer {
    Controller,
    TargetedController,
}

/// A choice that an effect asks for.
#[derive(Debug, Clone, Copy, PartialEq, Eq, Structural)]
pub enum ChoiceType {
    Opponent,
    Color,
    Number,
}

/// A target of an effect.
#[derive(Debug, Clone, Copy, PartialEq, Eq, Structural)]
pub enum TargetRef {
    Object(ObjectId),
    Player(PlayerId),
}

/// A change of an amount of damage.
#[derive(Debug, Clone, Copy, PartialEq, Eq, Structural)]
pub enum DamageModification {
    Double,
    Triple,
    Plus { value: u32 },
    Minus { value: u32 },
    SetToSourcePower,
}

/// Whom damage must be dealt to.
#[derive(Debug, Clone, Copy, PartialEq, Eq, Structural)]
pub enum DamageTargetFilter {
    OpponentOrTheirPermanents,
    CreatureOnly,
    PlayerOnly,
    OpponentOnly,
}

/// Which damage is meant.
#[derive(Debug, Clone, Copy, PartialEq, Eq, Structural)]
pub enum CombatDamageScope {
    CombatOnly,
    NoncombatOnly,
}

/// How much damage a shield prevents.
#[derive(Debug, Clone, Copy, PartialEq, Eq, Structural)]
pub enum PreventionAmount {
    All,
    Next(u32),
}

/// What kind of one-time shield a replacement definition is.
#[derive(Debug, Clone, Copy, PartialEq, Eq, Structural)]
pub enum ShieldKind {
    Unshielded,
    Regeneration,
    Prevention { amount: PreventionAmount },
}

/// A change of a number of tokens or counters.
#[derive(Debug, Clone, Copy, PartialEq, Eq, Structural)]
pub enum QuantityModification {
    Double,
    Plus { value: u32 },
    Minus { value: u32 },
}

/// A change of produced mana.
#[derive(Debug, Clone, Copy, PartialEq, Eq, Structural)]
pub enum ManaModification {
    ReplaceWith { mana_type: ManaType },
}

/// Which sources a restriction is about.
#[derive(Debug, Clone, Copy, PartialEq, Eq, Structural)]
pub enum RestrictionScope {
    SpecificSource(ObjectId),
    SourcesControlledBy(PlayerId),
    DamageToTarget(ObjectId),
}

/// When a restriction ends.
#[derive(Debug, Clone, Copy, PartialEq, Eq, Structural)]
pub enum RestrictionExpiry {
    EndOfTurn,
    EndOfCombat,
}

/// A rule that limits what can happen.
#[derive(Debug, Clone, Copy, PartialEq, Eq, Structural)]
pub enum GameRestriction {
    DamagePreventionDisabled { source: ObjectId, expiry: RestrictionExpiry, scope: Option<RestrictionScope> },
    CastOnlyFromZones { source: ObjectId },
    CantCastSpells { source: ObjectId },
}

/// Something chosen for an object.
#[derive(Debug, Clone, Copy, PartialEq, Eq, Structural)]
pub enum ChosenAttribute {
    Number(u8),
    Color(ManaColor),
    Player(PlayerId),
}

/// A choice made by name.
#[derive(Debug, Clone, Copy, PartialEq, Eq, Structural)]
pub enum ChoiceValue {
    Number(u8),
    Color(ManaColor),
}

/// What kind of event a replacement definition is for.
#[derive(Debug, Clone, Copy, PartialEq, Eq, Structural)]
pub enum ReplacementEvent {
    DamageDone,
    ChangeZone,
    Moved,
    Discard,
    Destroy,
    Draw,
    DrawCards,
    GainLife,
    LifeReduced,
    LoseLife,
    AddCounter,
    RemoveCounter,
    Tap,
    Untap,
    Counter,
    CreateToken,
    Attached,
    DealtDamage,
    Mill,
    PayLife,
    ProduceMana,
    TurnFaceUp,
    BeginTurn,
    BeginPhase,
    GameLoss,
    GameWin,
}

impl View for ReplacementEvent {
    type V = ReplacementEvent;

    open spec fn view(&self) -> ReplacementEvent {
        *self
    }
}

impl Key for ReplacementEvent {
    fn same(&self, other: &Self) -> (b: bool) {
        *self == *other
    }
}

/// Which types an object must have.
#[derive(Debug)]
pub enum TypeFilter {
    Any,
    Permanent,
    Artifact,
    Creature,
    Enchantment,
    Instant,
    Land,
    Planeswalker,
    Sorcery,
    Subtype(String),
}

/// A property that an object must have.
#[allow(inconsistent_fields)]
#[derive(Debug)]
pub enum FilterProp {
    /// A mana value of at most this.
    CmcLE { value: QuantityExpr },
    HasSupertype { value: Supertype },
    InZone { zone: Zone },
    /// Being another object than the one that a trigger is about. A single object always passes;
    /// counting takes the triggering object out.
    OtherThanTriggerObject,
    Owned { controller: ControllerRef },
    WithKeyword { value: Keyword },
    /// Being another object than the source.
    Another,
}

/// A filter by types, controller and properties: all must hold.
#[derive(Debug)]
pub struct TypedFilter {
    pub type_filters: Vec<TypeFilter>,
    pub controller: Option<ControllerRef>,
    pub properties: Vec<FilterProp>,
}

/// Which objects are meant.
#[derive(Debug)]
pub enum TargetFilter {
    Any,
    SelfRef,
    Player,
    Controller,
    ExiledBySource,
    SpecificObject { id: ObjectId },
    Typed(TypedFilter),
    Not { filter: Box<TargetFilter> },
    And { filters: Vec<TargetFilter> },
    Or { filters: Vec<TargetFilter> },
}

/// A number that the state of a game decides.
#[allow(inconsistent_fields)]
#[derive(Debug)]
pub enum QuantityRef {
    HandSize,
    LifeTotal,
    GraveyardSize,
    LifeAboveStarting,
    StartingLifeTotal,
    LifeLostThisTurn,
    Speed,
    SelfPower,
    SelfToughness,
    AnyCountersOnTarget,
    TargetPower,
    TargetLifeTotal,
    DistinctCardTypesExiledBySource,
    CardsExiledBySource,
    PreviousEffectAmount,
    TrackedSetSize,
    ExiledFromHandThisResolution,
    EventContextAmount,
    EventContextSourcePower,
    EventContextSourceToughness,
    EventContextSourceManaValue,
    EventContextSourceCostX,
    ManaSpentOnTriggeringSpell,
    ManaSpentOnSelf,
    ColorsSpentOnSelf,
    ColorsInCommandersColorIdentity,
    BasicLandTypeCount,
    CrimesCommittedThisTurn,
    LifeGainedThisTurn,
    PermanentsLeftBattlefieldThisTurn,
    NonlandPermanentsLeftBattlefieldThisTurn,
    TurnsTaken,
    ChosenNumber,
    CreaturesDiedThisTurn,
    AttackedThisTurn,
    DescendedThisTurn,
    SpellsCastLastTurn,
    OpponentLifeLostThisTurn,
    CounterAddedThisTurn,
    OpponentDiscardedCardThisTurn,
    OpponentLifeTotal,
    OpponentHandSize,
    DungeonsCompleted,
    CostXPaid,
    PlayerCounter { kind: PlayerCounterKind, scope: CountScope },
    ObjectCount { filter: TargetFilter },
    ObjectCountDistinctNames { filter: TargetFilter },
    PlayerCount { filter: PlayerFilter },
    CountersOnSelf { counter_type: String },
    Variable { name: String },
    Aggregate { function: AggregateFunction, property: ObjectProperty, filter: TargetFilter },
    CountersOnTarget { counter_type: String },
    CountersOnObjects { counter_type: Option<String>, filter: TargetFilter },
    Devotion { colors: Vec<ManaColor> },
    TargetZoneCardCount { zone: ZoneRef },
    DistinctCardTypesInZone { zone: ZoneRef, scope: CountScope },
    ZoneCardCount { zone: ZoneRef, card_types: Vec<TypeFilter>, scope: CountScope },
    DistinctColorsAmongPermanents { filter: TargetFilter },
    SpellsCastThisTurn { filter: Option<TargetFilter> },
    EnteredThisTurn { filter: TargetFilter },
    AttachmentsOnLeavingObject { kind: AttachmentKind, controller: Option<ControllerRef> },
}

/// A number, fixed or computed.
#[derive(Debug)]
pub enum QuantityExpr {
    Fixed { value: i32 },
    Ref { qty: QuantityRef },
    HalfRounded { inner: Box<QuantityExpr>, rounding: RoundingMode },
    Offset { inner: Box<QuantityExpr>, offset: i32 },
    Multiply { factor: i32, inner: Box<QuantityExpr> },
}

impl Default for TypedFilter {
    fn default() -> (r: Self)
        ensures
            r.type_filters@.len() == 0,
            r.controller is None,
            r.properties@.len() == 0,
    {
        TypedFilter { type_filters: Vec::new(), controller: None, properties: Vec::new() }
    }
}

impl TypedFilter {
    /// A filter that asks for one type.
    pub fn new(t: TypeFilter) -> (r: Self)
        ensures
            r.type_filters@ == seq![t],
            r.controller is None,
            r.properties@.len() == 0,
    {
        let mut type_filters: Vec<TypeFilter> = Vec::new();
        type_filters.push(t);
        TypedFilter { type_filters, controller: None, properties: Vec::new() }
    }

    pub fn creature() -> (r: Self)
        ensures
            r.type_filters@ == seq![TypeFilter::Creature],
            r.controller is None,
            r.properties@.len() == 0,
    {
        TypedFilter::new(TypeFilter::Creature)
    }

    pub fn land() -> (r: Self)
        ensures
            r.type_filters@ == seq![TypeFilter::Land],
            r.controller is None,
            r.properties@.len() == 0,
    {
        TypedFilter::new(TypeFilter::Land)
    }

    /// The same filter with one more type asked for.
    pub fn with_type(self, t: TypeFilter) -> (r: Self)
        ensures
            r == (TypedFilter { type_filters: r.type_filters, ..self }),
            r.type_filters@ == self.type_filters@.push(t),
    {
        let mut this = self;
        this.type_filters.push(t);
        this
    }

    /// The same filter for objects of the given player.
    pub fn controller(self, c: ControllerRef) -> (r: Self)
        ensures
            r == (TypedFilter { controller: Some(c), ..self }),
    {
        let mut this = self;
        this.controller = Some(c);
        this
    }

    /// The same filter with these properties asked for.
    pub fn properties(self, p: Vec<FilterProp>) -> (r: Self)
        ensures
            r == (TypedFilter { properties: p, ..self }),
    {
        let mut this = self;
        this.properties = p;
        this
    }
}

/// What a comparison says of two numbers.
pub open spec fn compares(c: Comparator, lhs: int, rhs: int) -> bool {
    match c {
        Comparator::GT => lhs > rhs,
        Comparator::LT => lhs < rhs,
        Comparator::GE => lhs >= rhs,
        Comparator::LE => lhs <= rhs,
        Comparator::EQ => lhs == rhs,
    }
}

impl Comparator {
    pub fn evaluate(&self, lhs: i32, rhs: i32) -> (r: bool)
        ensures
            r == compares(*self, lhs as int, rhs as int),
    {
        match self {
            Comparator::GT => lhs > rhs,
            Comparator::LT => lhs < rhs,
            Comparator::GE => lhs >= rhs,
            Comparator::LE => lhs <= rhs,
            Comparator::EQ => lhs == rhs,
        }
    }
}

/// What an ability does.
#[allow(inconsistent_fields)]
#[derive(Debug)]
pub enum Effect {
    Draw { count: QuantityExpr, target: TargetFilter },
    GainLife { amount: QuantityExpr, player: GainLifePlayer },
    LoseLife { amount: QuantityExpr, target: Option<TargetFilter> },
    Mill { count: QuantityExpr, target: TargetFilter, destination: Zone },
    Destroy { target: TargetFilter, cant_regenerate: bool },
    PutCounter { counter_type: String, count: QuantityExpr, target: TargetFilter },
    AddCounter { counter_type: String, count: QuantityExpr, target: TargetFilter },
    Tap { target: TargetFilter },
    Untap { target: TargetFilter },
    ChangeZone { origin: Option<Zone>, destination: Zone, target: TargetFilter },
    Choose { choice_type: ChoiceType, persist: bool },
    Shuffle { target: TargetFilter },
    PhaseOut { target: TargetFilter },
    Unimplemented { name: String, description: Option<String> },
}

/// The cost of an ability.
#[derive(Debug)]
pub enum AbilityCost {
    Loyalty { amount: i32 },
    Mana { cost: ManaCost },
    Tap,
}

/// An ability as it is written.
#[derive(Debug)]
pub struct AbilityDefinition {
    pub kind: AbilityKind,
    pub effect: Arc<Effect>,
    pub cost: Option<AbilityCost>,
    pub sub_ability: Option<Arc<AbilityDefinition>>,
}

impl AbilityDefinition {
    /// An ability without cost or further parts.
    pub fn new(kind: AbilityKind, effect: Effect) -> (r: Self)
        ensures
            r == (AbilityDefinition { kind, effect: r.effect, cost: None, sub_ability: None }),
            *r.effect == effect,
    {
        AbilityDefinition { kind, effect: Arc::new(effect), cost: None, sub_ability: None }
    }

    /// The same ability with a cost.
    pub fn cost(self, cost: AbilityCost) -> (r: Self)
        ensures
            r == (AbilityDefinition { cost: Some(cost), ..self }),
    {
        let mut this = self;
        this.cost = Some(cost);
        this
    }

    /// The same ability followed by another.
    pub fn sub_ability(self, sub_ability: AbilityDefinition) -> (r: Self)
        ensures
            r.sub_ability is Some,
            *r.sub_ability->0 == sub_ability,
            r == (AbilityDefinition { sub_ability: r.sub_ability, ..self }),
    {
        let mut this = self;
        this.sub_ability = Some(Arc::new(sub_ability));
        this
    }
}

/// An ability whose source, controller and targets are known.
#[derive(Debug)]
pub struct ResolvedAbility {
    pub effect: Arc<Effect>,
    pub targets: Vec<TargetRef>,
    pub source_id: ObjectId,
    pub controller: PlayerId,
    pub chosen_x: Option<u32>,
    /// What follows the effect.
    pub sub_ability: Option<Arc<AbilityDefinition>>,
}

impl ResolvedAbility {
    pub fn new(effect: Arc<Effect>, targets: Vec<TargetRef>, source_id: ObjectId, controller: PlayerId) -> (r: Self)
        ensures
            r == (ResolvedAbility {
                effect,
                targets,
                source_id,
                controller,
                chosen_x: None,
                sub_ability: None,
            }),
    {
        ResolvedAbility {
            effect,
            targets,
            source_id,
            controller,
            chosen_x: None,
            sub_ability: None,
        }
    }
}

/// What a static ability is about.
#[derive(Debug)]
pub enum StaticMode {
    Continuous,
    CantLoseTheGame,
    CantWinTheGame,
    /// Any other, by its name.
    Other(String),
}

/// A change that a static ability makes.
#[allow(inconsistent_fields)]
#[derive(Debug)]
pub enum ContinuousModification {
    AddPower { value: i32 },
    AddToughness { value: i32 },
    AddKeyword { keyword: Keyword },
    RemoveKeyword { keyword: Keyword },
    AddDynamicKeyword { kind: DynamicKeywordKind, value: QuantityExpr },
    RemoveAllAbilities,
}

/// A static ability.
#[derive(Debug)]
pub struct StaticDefinition {
    pub mode: StaticMode,
    pub affected: Option<Arc<TargetFilter>>,
    pub modifications: Vec<Arc<ContinuousModification>>,
}

impl StaticDefinition {
    pub fn new(mode: StaticMode) -> (r: Self)
        ensures
            r.mode == mode,
            r.affected is None,
            r.modifications@.len() == 0,
    {
        StaticDefinition { mode, affected: None, modifications: Vec::new() }
    }

    pub fn continuous() -> (r: Self)
        ensures
            r.mode == StaticMode::Continuous,
            r.affected is None,
            r.modifications@.len() == 0,
    {
        StaticDefinition::new(StaticMode::Continuous)
    }

    /// The same ability for the objects of a filter.
    pub fn affected(self, filter: TargetFilter) -> (r: Self)
        ensures
            r.affected is Some,
            *r.affected->0 == filter,
            r == (StaticDefinition { affected: r.affected, ..self }),
    {
        let mut this = self;
        this.affected = Some(Arc::new(filter));
        this
    }

    /// The same ability with one more change.
    pub fn modification(self, m: ContinuousModification) -> (r: Self)
        ensures
            r == (StaticDefinition { modifications: r.modifications, ..self }),
            r.modifications@.len() == self.modifications@.len() + 1,
            r.modifications@.drop_last() == self.modifications@,
            *r.modifications@.last() == m,
    {
        let mut this = self;
        this.modifications.push(Arc::new(m));
        assert(this.modifications@.drop_last() =~= self.modifications@);
        this
    }
}

/// What a triggered ability waits for.
#[derive(Debug)]
pub enum TriggerMode {
    CounterAdded,
    ChangesZone,
}

/// Which counters a triggered ability waits for.
#[derive(Debug)]
pub struct CounterFilter {
    pub counter_type: CounterType,
    pub threshold: Option<u32>,
}

/// A triggered ability.
#[derive(Debug)]
pub struct TriggerDefinition {
    pub mode: TriggerMode,
    pub counter_filter: Option<CounterFilter>,
}

impl TriggerDefinition {
    pub fn new(mode: TriggerMode) -> (r: Self)
        ensures
            r == (TriggerDefinition { mode, counter_filter: None }),
    {
        TriggerDefinition { mode, counter_filter: None }
    }

    /// The same ability for these counters.
    pub fn counter_filter(self, f: CounterFilter) -> (r: Self)
        ensures
            r == (TriggerDefinition { counter_filter: Some(f), ..self }),
    {
        let mut this = self;
        this.counter_filter = Some(f);
        this
    }
}

/// What must hold for a replacement to apply.
#[allow(inconsistent_fields)]
#[derive(Debug)]
pub enum ReplacementCondition {
    UnlessControlsSubtype { subtypes: Vec<String> },
    UnlessControlsOtherLeq { count: u32, filter: TypedFilter },
    UnlessControlsMatching { filter: TargetFilter },
    UnlessPlayerLifeAtMost { amount: u32 },
    UnlessMultipleOpponents,
    UnlessControlsCountMatching { minimum: u32, filter: TargetFilter },
    UnlessYourTurn,
    UnlessQuantity {
        lhs: QuantityExpr,
        comparator: Comparator,
        rhs: QuantityExpr,
        active_player_req: Option<ControllerRef>,
    },
    OnlyIfQuantity {
        lhs: QuantityExpr,
        comparator: Comparator,
        rhs: QuantityExpr,
        active_player_req: Option<ControllerRef>,
    },
    CastViaEscape,
    CastViaKicker { variant: Option<String> },
    SourceTappedState { tapped: bool },
    DealtDamageThisTurnBySourceControlledBy { controller: ControllerRef },
    OnlyExtraTurn,
    Unrecognized { text: String },
}

/// Whether a replacement must be applied.
#[derive(Debug)]
pub enum ReplacementMode {
    Mandatory,
    Optional { decline: Option<Arc<AbilityDefinition>> },
}

/// A token that is to be made.
#[derive(Debug)]
pub struct TokenSpec {
    pub display_name: String,
    pub script_name: String,
    pub power: Option<i32>,
    pub toughness: Option<i32>,
    pub core_types: Arc<Vec<CoreType>>,
    pub subtypes: Arc<Vec<String>>,
    pub supertypes: Arc<Vec<Supertype>>,
    pub colors: Arc<Vec<ManaColor>>,
    pub keywords: Arc<Vec<Keyword>>,
    pub static_abilities: Arc<Vec<StaticDefinition>>,
    pub enter_with_counters: Vec<(String, u32)>,
    pub tapped: bool,
    pub enters_attacking: bool,
    pub sacrifice_at: Option<Duration>,
    pub source_id: ObjectId,
    pub controller: PlayerId,
}

/// What a token to be made is like.
#[verifier::ext_equal]
pub struct TokenModel {
    pub display_name: String,
    pub script_name: String,
    pub power: Option<i32>,
    pub toughness: Option<i32>,
    pub core_types: Arc<Vec<CoreType>>,
    pub subtypes: Arc<Vec<String>>,
    pub supertypes: Arc<Vec<Supertype>>,
    pub colors: Arc<Vec<ManaColor>>,
    pub keywords: Arc<Vec<Keyword>>,
    pub static_abilities: Arc<Vec<StaticDefinition>>,
    pub enter_with_counters: Seq<(String, u32)>,
    pub tapped: bool,
    pub enters_attacking: bool,
    pub sacrifice_at: Option<Duration>,
    pub source_id: ObjectId,
    pub controller: PlayerId,
}

impl View for TokenSpec {
    type V = TokenModel;

    open spec fn view(&self) -> TokenModel {
        TokenModel {
            display_name: self.display_name,
            script_name: self.script_name,
            power: self.power,
            toughness: self.toughness,
            core_types: self.core_types,
            subtypes: self.subtypes,
            supertypes: self.supertypes,
            colors: self.colors,
            keywords: self.keywords,
            static_abilities: self.static_abilities,
            enter_with_counters: self.enter_with_counters@,
            tapped: self.tapped,
            enters_attacking: self.enters_attacking,
            sacrifice_at: self.sacrifice_at,
            source_id: self.source_id,
            controller: self.controller,
        }
    }
}

/// A copy of a list of counters to enter with.
pub fn copy_counter_list(list: &Vec<(String, u32)>) -> (r: Vec<(String, u32)>)
    ensures
        r@ == list@,
{
    let mut r: Vec<(String, u32)> = Vec::new();
    let mut i: usize = 0;
    while i < list.len()
        invariant
            i <= list@.len(),
            r@ == list@.take(i as int),
        decreases list.len() - i,
    {
        r.push((list[i].0.clone(), list[i].1));
        assert(list@.take(i + 1) =~= list@.take(i as int).push(list@[i as int]));
        i += 1;
    }
    assert(list@.take(i as int) =~= list@);
    r
}

impl Clone for TokenSpec {
    fn clone(&self) -> (r: Self)
        ensures
            r@ == self@,
    {
        TokenSpec {
            display_name: self.display_name.clone(),
            script_name: self.script_name.clone(),
            power: self.power,
            toughness: self.toughness,
            core_types: self.core_types.clone(),
            subtypes: self.subtypes.clone(),
            supertypes: self.supertypes.clone(),
            colors: self.colors.clone(),
            keywords: self.keywords.clone(),
            static_abilities: self.static_abilities.clone(),
            enter_with_counters: copy_counter_list(&self.enter_with_counters),
            tapped: self.tapped,
            enters_attacking: self.enters_attacking,
            sacrifice_at: self.sacrifice_at,
            source_id: self.source_id,
            controller: self.controller,
        }
    }
}

/// A copy of a shared value that may be absent.
pub fn share<T>(o: &Option<Arc<T>>) -> (r: Option<Arc<T>>)
    ensures
        r == *o,
{
    match o {
        Some(a) => Some(a.clone()),
        None => None,
    }
}

/// An effect that replaces events of some kind.
#[derive(Debug)]
pub struct ReplacementDefinition {
    pub event: ReplacementEvent,
    pub execute: Option<Arc<AbilityDefinition>>,
    pub mode: ReplacementMode,
    pub valid_card: Option<Arc<TargetFilter>>,
    pub description: Option<String>,
    pub condition: Option<Arc<ReplacementCondition>>,
    pub destination_zone: Option<Zone>,
    pub damage_modification: Option<DamageModification>,
    pub damage_source_filter: Option<Arc<TargetFilter>>,
    pub damage_target_filter: Option<DamageTargetFilter>,
    pub combat_scope: Option<CombatDamageScope>,
    pub shield_kind: ShieldKind,
    pub quantity_modification: Option<QuantityModification>,
    pub token_owner_scope: Option<ControllerRef>,
    pub valid_player: Option<ControllerRef>,
    pub is_consumed: bool,
    pub mana_modification: Option<ManaModification>,
    pub additional_token_spec: Option<Arc<TokenSpec>>,
}

impl Clone for ReplacementMode {
    fn clone(&self) -> (r: Self)
        ensures
            r == *self,
    {
        match self {
            ReplacementMode::Mandatory => ReplacementMode::Mandatory,
            ReplacementMode::Optional { decline } => ReplacementMode::Optional {
                decline: share(decline),
            },
        }
    }
}

impl Clone for ReplacementDefinition {
    fn clone(&self) -> (r: Self)
        ensures
            r == *self,
    {
        ReplacementDefinition {
            event: self.event,
            execute: share(&self.execute),
            mode: self.mode.clone(),
            valid_card: share(&self.valid_card),
            description: match &self.description {
                Some(d) => Some(d.clone()),
                None => None,
            },
            condition: share(&self.condition),
            destination_zone: self.destination_zone,
            damage_modification: self.damage_modification,
            damage_source_filter: share(&self.damage_source_filter),
            damage_target_filter: self.damage_target_filter,
            combat_scope: self.combat_scope,
            shield_kind: self.shield_kind,
            quantity_modification: self.quantity_modification,
            token_owner_scope: self.token_owner_scope,
            valid_player: self.valid_player,
            is_consumed: self.is_consumed,
            mana_modification: self.mana_modification,
            additional_token_spec: share(&self.additional_token_spec),
        }
    }
}

/// A definition for an event that asks for nothing and changes nothing.
pub open spec fn plain_replacement(event: ReplacementEvent) -> ReplacementDefinition {
    ReplacementDefinition {
        event,
        execute: None,
        mode: ReplacementMode::Mandatory,
        valid_card: None,
        description: None,
        condition: None,
        destination_zone: None,
        damage_modification: None,
        damage_source_filter: None,
        damage_target_filter: None,
        combat_scope: None,
        shield_kind: ShieldKind::Unshielded,
        quantity_modification: None,
        token_owner_scope: None,
        valid_player: None,
        is_consumed: false,
        mana_modification: None,
        additional_token_spec: None,
    }
}

impl ReplacementDefinition {
    pub fn new(event: ReplacementEvent) -> (r: Self)
        ensures
            r == plain_replacement(event),
    {
        ReplacementDefinition {
            event,
            execute: None,
            mode: ReplacementMode::Mandatory,
            valid_card: None,
            description: None,
            condition: None,
            destination_zone: None,
            damage_modification: None,
            damage_source_filter: None,
            damage_target_filter: None,
            combat_scope: None,
            shield_kind: ShieldKind::Unshielded,
            quantity_modification: None,
            token_owner_scope: None,
            valid_player: None,
            is_consumed: false,
            mana_modification: None,
            additional_token_spec: None,
        }
    }

    pub fn execute(self, value: AbilityDefinition) -> (r: Self)
        ensures
            r.execute is Some,
            *r.execute->0 == value,
            r == (ReplacementDefinition { execute: r.execute, ..self }),
    {
        let mut this = self;
        this.execute = Some(Arc::new(value));
        this
    }

    pub fn valid_card(self, value: TargetFilter) -> (r: Self)
        ensures
            r.valid_card is Some,
            *r.valid_card->0 == value,
            r == (ReplacementDefinition { valid_card: r.valid_card, ..self }),
    {
        let mut this = self;
        this.valid_card = Some(Arc::new(value));
        this
    }

    pub fn condition(self, value: ReplacementCondition) -> (r: Self)
        ensures
            r.condition is Some,
            *r.condition->0 == value,
            r == (ReplacementDefinition { condition: r.condition, ..self }),
    {
        let mut this = self;
        this.condition = Some(Arc::new(value));
        this
    }

    pub fn damage_source_filter(self, value: TargetFilter) -> (r: Self)
        ensures
            r.damage_source_filter is Some,
            *r.damage_source_filter->0 == value,
            r == (ReplacementDefinition { damage_source_filter: r.damage_source_filter, ..self }),
    {
        let mut this = self;
        this.damage_source_filter = Some(Arc::new(value));
        this
    }

    pub fn description(self, value: String) -> (r: Self)
        ensures
            r == (ReplacementDefinition { description: Some(value), ..self }),
    {
        let mut this = self;
        this.description = Some(value);
        this
    }

    pub fn destination_zone(self, value: Zone) -> (r: Self)
        ensures
            r == (ReplacementDefinition { destination_zone: Some(value), ..self }),
    {
        let mut this = self;
        this.destination_zone = Some(value);
        this
    }

    pub fn damage_modification(self, value: DamageModification) -> (r: Self)
        ensures
            r == (ReplacementDefinition { damage_modification: Some(value), ..self }),
    {
        let mut this = self;
        this.damage_modification = Some(value);
        this
    }

    pub fn damage_target_filter(self, value: DamageTargetFilter) -> (r: Self)
        ensures
            r == (ReplacementDefinition { damage_target_filter: Some(value), ..self }),
    {
        let mut this = self;
        this.damage_target_filter = Some(value);
        this
    }

    pub fn combat_scope(self, value: CombatDamageScope) -> (r: Self)
        ensures
            r == (ReplacementDefinition { combat_scope: Some(value), ..self }),
    {
        let mut this = self;
        this.combat_scope = Some(value);
        this
    }

    pub fn quantity_modification(self, value: QuantityModification) -> (r: Self)
        ensures
            r == (ReplacementDefinition { quantity_modification: Some(value), ..self }),
    {
        let mut this = self;
        this.quantity_modification = Some(value);
        this
    }

    pub fn token_owner_scope(self, value: ControllerRef) -> (r: Self)
        ensures
            r == (ReplacementDefinition { token_owner_scope: Some(value), ..self }),
    {
        let mut this = self;
        this.token_owner_scope = Some(value);
        this
    }

    pub fn mana_modification(self, value: ManaModification) -> (r: Self)
        ensures
            r == (ReplacementDefinition { mana_modification: Some(value), ..self }),
    {
        let mut this = self;
        this.mana_modification = Some(value);
        this
    }

    pub fn additional_token_spec(self, value: TokenSpec) -> (r: Self)
        ensures
            r.additional_token_spec is Some,
            *r.additional_token_spec->0 == value,
            r == (ReplacementDefinition { additional_token_spec: r.additional_token_spec, ..self }),
    {
        let mut this = self;
        this.additional_token_spec = Some(Arc::new(value));
        this
    }

    /// The same definition as a one-time regeneration shield.
    pub fn regeneration_shield(self) -> (r: Self)
        ensures
            r == (ReplacementDefinition { shield_kind: ShieldKind::Regeneration, ..self }),
    {
        let mut this = self;
        this.shield_kind = ShieldKind::Regeneration;
        this
    }

    /// The same definition as a one-time prevention shield.
    pub fn prevention_shield(self, amount: PreventionAmount) -> (r: Self)
        ensures
            r == (ReplacementDefinition { shield_kind: ShieldKind::Prevention { amount }, ..self }),
    {
        let mut this = self;
        this.shield_kind = ShieldKind::Prevention { amount };
        this
    }

    /// The same definition, which a player may decline.
    pub fn optional(self, decline: Option<AbilityDefinition>) -> (r: Self)
        ensures
            r == (ReplacementDefinition { mode: r.mode, ..self }),
            r.mode is Optional,
            match decline {
                Some(d) => r.mode->decline is Some && *r.mode->decline->0 == d,
                None => r.mode->decline is None,
            },
    {
        let mut this = self;
        this.mode = ReplacementMode::Optional {
            decline: match decline {
                Some(d) => Some(Arc::new(d)),
                None => None,
            },
        };
        this
    }
}

/// A copy of a list of replacement definitions.
pub fn copy_replacements(list: &Vec<ReplacementDefinition>) -> (r: Vec<ReplacementDefinition>)
    ensures
        r@ == list@,
{
    let r = list.clone();
    assert(r@ =~= list@);
    r
}

} // verus!
