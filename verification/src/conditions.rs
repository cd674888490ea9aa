//! Conditions of casting and activating: how they are read and when they hold.

use vstd::prelude::*;
use crate::ability::{compares, Comparator};
use crate::cards::{
    any_of_kind, counter_named, has_color, has_core_type, has_kind, has_supertype,
    parse_counter_type, CoreType, CounterKind, CounterType, KeywordKind, Supertype, Zone,
};
use crate::ids::{ObjectId, PlayerId};
use crate::keyed::Key;
use crate::mana::ManaColor;
use crate::object::{GameObject, ObjectModel};
use crate::quantity::types_among;
use crate::seqs::{
    count_where, distinct, distinct_count, lemma_count_next, lemma_filter_next, lemma_filter_start,
    lemma_take_all, lemma_take_next, sum_of, wrapped_sum,
};
use crate::state::{count_in, count_of_key, object_at, player_of, Game, GameState, SpellRecordModel};
use crate::text::{
    after_prefix, ascii_capital, ascii_small, before_suffix, capitalize_words, capitalized,
    contains_piece, eq_ignore_ascii_case, has_text, is_ascii_text, is_blank_char, lemma_place,
    lowercase, opt_text, parse_number, parse_signed, parted, place_of_text, same_ignoring_case,
    same_text, signed_in, small_letters, split_once, strip_prefix, strip_suffix, to_lowercase, trim,
    trim_end_matches, trim_end_text, trim_start_text, trimmed, trimmed_back, trimmed_front,
    without_beginnings, without_endings, without_last, word_number,
};
use crate::views::{opt_view, seq_view};

verus! {

broadcast use crate::views::group_views;

/// A number that every player has.
#[derive(Debug, Clone, Copy, PartialEq, Eq, Structural)]
pub enum PlayerQuantity {
    HandSize,
    ControlledCreatureCount,
}

/// What kind of permanent a condition asks for.
#[derive(Debug)]
pub enum Wanted {
    Subtype { subtype: String },
    Core { core_type: CoreType },
    Color { color: ManaColor },
    LegendaryCreature,
    NamedPlaneswalker { name: String },
    CreatureWithKeyword { kind: KeywordKind },
    CreatureWithPowerAtLeast { minimum: i32 },
    CreatureWithPt { power: i32, toughness: i32 },
    AnotherColorlessCreature,
    SnowPermanent,
}

/// What kind of permanent a condition asks for.
#[verifier::ext_equal]
pub enum WantedModel {
    Subtype { subtype: Seq<char> },
    Core { core_type: CoreType },
    Color { color: ManaColor },
    LegendaryCreature,
    NamedPlaneswalker { name: Seq<char> },
    CreatureWithKeyword { kind: KeywordKind },
    CreatureWithPowerAtLeast { minimum: i32 },
    CreatureWithPt { power: i32, toughness: i32 },
    AnotherColorlessCreature,
    SnowPermanent,
}

impl View for Wanted {
    type V = WantedModel;

    open spec fn view(&self) -> WantedModel {
        match *self {
            Wanted::Subtype { subtype } => WantedModel::Subtype { subtype: subtype@ },
            Wanted::Core { core_type } => WantedModel::Core { core_type },
            Wanted::Color { color } => WantedModel::Color { color },
            Wanted::LegendaryCreature => WantedModel::LegendaryCreature,
            Wanted::NamedPlaneswalker { name } => WantedModel::NamedPlaneswalker { name: name@ },
            Wanted::CreatureWithKeyword { kind } => WantedModel::CreatureWithKeyword { kind },
            Wanted::CreatureWithPowerAtLeast { minimum } => {
                WantedModel::CreatureWithPowerAtLeast { minimum }
            },
            Wanted::CreatureWithPt { power, toughness } => {
                WantedModel::CreatureWithPt { power, toughness }
            },
            Wanted::AnotherColorlessCreature => WantedModel::AnotherColorlessCreature,
            Wanted::SnowPermanent => WantedModel::SnowPermanent,
        }
    }
}

/// A condition of casting or activating.
#[allow(inconsistent_fields)]
#[derive(Debug)]
pub enum RestrictionCondition {
    SourceInZone { zone: Zone },
    SourceIsAttacking,
    SourceIsAttackingOrBlocking,
    SourceIsBlocked,
    SourcePowerAtLeast { minimum: i32 },
    SourceHasCounterAtLeast { counter_type: CounterType, count: u32 },
    SourceHasNoCounter { counter_type: CounterType },
    SourceEnteredThisTurn,
    SourceIsCreature,
    SourceUntappedAttachedTo { required_type: CoreType },
    SourceLacksKeyword { kind: KeywordKind },
    SourceIsColor { color: ManaColor },
    FirstSpellThisGame,
    OpponentSearchedLibraryThisTurn,
    BeenAttackedThisStep,
    GraveyardCardCountAtLeast { count: usize },
    GraveyardCardTypeCountAtLeast { count: usize },
    GraveyardSubtypeCardCountAtLeast { subtype: String, count: usize },
    OpponentPoisonAtLeast { count: u32 },
    HandSizeExact { count: usize },
    HandSizeOneOf { counts: Vec<usize> },
    QuantityVsEachOpponent { lhs: PlayerQuantity, comparator: Comparator, rhs: PlayerQuantity },
    CreaturesYouControlTotalPowerAtLeast { minimum: i32 },
    YouControlLandSubtypeAny { subtypes: Vec<String> },
    YouControlAtLeast { what: Wanted, count: usize },
    YouControlSubtypeOrGraveyardCardSubtype { subtype: String },
    YouControlDifferentPowerCreatureCountAtLeast { count: usize },
    YouControlLandsWithSameNameAtLeast { count: usize },
    YouControlNoCreatures,
    YouAttackedThisTurn,
    YouAttackedWithAtLeast { count: u32 },
    YouCastNoncreatureSpellThisTurn,
    YouCastSpellCountAtLeast { count: u32 },
    YouGainedLifeThisTurn,
    YouCreatedTokenThisTurn,
    YouDiscardedCardThisTurn,
    YouSacrificedArtifactThisTurn,
    CreatureDiedThisTurn,
    YouHadCreatureEnterThisTurn,
    YouHadAngelOrBerserkerEnterThisTurn,
    YouHadArtifactEnterThisTurn,
    CardsLeftYourGraveyardThisTurnAtLeast { count: u32 },
}

/// A condition of casting or activating.
#[allow(inconsistent_fields)]
#[verifier::ext_equal]
pub enum ConditionModel {
    SourceInZone { zone: Zone },
    SourceIsAttacking,
    SourceIsAttackingOrBlocking,
    SourceIsBlocked,
    SourcePowerAtLeast { minimum: i32 },
    SourceHasCounterAtLeast { counter_type: CounterKind, count: u32 },
    SourceHasNoCounter { counter_type: CounterKind },
    SourceEnteredThisTurn,
    SourceIsCreature,
    SourceUntappedAttachedTo { required_type: CoreType },
    SourceLacksKeyword { kind: KeywordKind },
    SourceIsColor { color: ManaColor },
    FirstSpellThisGame,
    OpponentSearchedLibraryThisTurn,
    BeenAttackedThisStep,
    GraveyardCardCountAtLeast { count: usize },
    GraveyardCardTypeCountAtLeast { count: usize },
    GraveyardSubtypeCardCountAtLeast { subtype: Seq<char>, count: usize },
    OpponentPoisonAtLeast { count: u32 },
    HandSizeExact { count: usize },
    HandSizeOneOf { counts: Seq<usize> },
    QuantityVsEachOpponent { lhs: PlayerQuantity, comparator: Comparator, rhs: PlayerQuantity },
    CreaturesYouControlTotalPowerAtLeast { minimum: i32 },
    YouControlLandSubtypeAny { subtypes: Seq<Seq<char>> },
    YouControlAtLeast { what: WantedModel, count: usize },
    YouControlSubtypeOrGraveyardCardSubtype { subtype: Seq<char> },
    YouControlDifferentPowerCreatureCountAtLeast { count: usize },
    YouControlLandsWithSameNameAtLeast { count: usize },
    YouControlNoCreatures,
    YouAttackedThisTurn,
    YouAttackedWithAtLeast { count: u32 },
    YouCastNoncreatureSpellThisTurn,
    YouCastSpellCountAtLeast { count: u32 },
    YouGainedLifeThisTurn,
    YouCreatedTokenThisTurn,
    YouDiscardedCardThisTurn,
    YouSacrificedArtifactThisTurn,
    CreatureDiedThisTurn,
    YouHadCreatureEnterThisTurn,
    YouHadAngelOrBerserkerEnterThisTurn,
    YouHadArtifactEnterThisTurn,
    CardsLeftYourGraveyardThisTurnAtLeast { count: u32 },
}

impl View for RestrictionCondition {
    type V = ConditionModel;

    open spec fn view(&self) -> ConditionModel {
        match *self {
            RestrictionCondition::SourceInZone { zone } => ConditionModel::SourceInZone { zone },
            RestrictionCondition::SourceIsAttacking => ConditionModel::SourceIsAttacking,
            RestrictionCondition::SourceIsAttackingOrBlocking => {
                ConditionModel::SourceIsAttackingOrBlocking
            },
            RestrictionCondition::SourceIsBlocked => ConditionModel::SourceIsBlocked,
            RestrictionCondition::SourcePowerAtLeast { minimum } => {
                ConditionModel::SourcePowerAtLeast { minimum }
            },
            RestrictionCondition::SourceHasCounterAtLeast { counter_type, count } => {
                ConditionModel::SourceHasCounterAtLeast { counter_type: counter_type@, count }
            },
            RestrictionCondition::SourceHasNoCounter { counter_type } => {
                ConditionModel::SourceHasNoCounter { counter_type: counter_type@ }
            },
            RestrictionCondition::SourceEnteredThisTurn => ConditionModel::SourceEnteredThisTurn,
            RestrictionCondition::SourceIsCreature => ConditionModel::SourceIsCreature,
            RestrictionCondition::SourceUntappedAttachedTo { required_type } => {
                ConditionModel::SourceUntappedAttachedTo { required_type }
            },
            RestrictionCondition::SourceLacksKeyword { kind } => {
                ConditionModel::SourceLacksKeyword { kind }
            },
            RestrictionCondition::SourceIsColor { color } => {
                ConditionModel::SourceIsColor { color }
            },
            RestrictionCondition::FirstSpellThisGame => ConditionModel::FirstSpellThisGame,
            RestrictionCondition::OpponentSearchedLibraryThisTurn => {
                ConditionModel::OpponentSearchedLibraryThisTurn
            },
            RestrictionCondition::BeenAttackedThisStep => ConditionModel::BeenAttackedThisStep,
            RestrictionCondition::GraveyardCardCountAtLeast { count } => {
                ConditionModel::GraveyardCardCountAtLeast { count }
            },
            RestrictionCondition::GraveyardCardTypeCountAtLeast { count } => {
                ConditionModel::GraveyardCardTypeCountAtLeast { count }
            },
            RestrictionCondition::GraveyardSubtypeCardCountAtLeast { subtype, count } => {
                ConditionModel::GraveyardSubtypeCardCountAtLeast { subtype: subtype@, count }
            },
            RestrictionCondition::OpponentPoisonAtLeast { count } => {
                ConditionModel::OpponentPoisonAtLeast { count }
            },
            RestrictionCondition::HandSizeExact { count } => {
                ConditionModel::HandSizeExact { count }
            },
            RestrictionCondition::HandSizeOneOf { counts } => {
                ConditionModel::HandSizeOneOf { counts: counts@ }
            },
            RestrictionCondition::QuantityVsEachOpponent { lhs, comparator, rhs } => {
                ConditionModel::QuantityVsEachOpponent { lhs, comparator, rhs }
            },
            RestrictionCondition::CreaturesYouControlTotalPowerAtLeast { minimum } => {
                ConditionModel::CreaturesYouControlTotalPowerAtLeast { minimum }
            },
            RestrictionCondition::YouControlLandSubtypeAny { subtypes } => {
                ConditionModel::YouControlLandSubtypeAny { subtypes: seq_view(subtypes@) }
            },
            RestrictionCondition::YouControlAtLeast { what, count } => {
                ConditionModel::YouControlAtLeast { what: what@, count }
            },
            RestrictionCondition::YouControlSubtypeOrGraveyardCardSubtype { subtype } => {
                ConditionModel::YouControlSubtypeOrGraveyardCardSubtype { subtype: subtype@ }
            },
            RestrictionCondition::YouControlDifferentPowerCreatureCountAtLeast { count } => {
                ConditionModel::YouControlDifferentPowerCreatureCountAtLeast { count }
            },
            RestrictionCondition::YouControlLandsWithSameNameAtLeast { count } => {
                ConditionModel::YouControlLandsWithSameNameAtLeast { count }
            },
            RestrictionCondition::YouControlNoCreatures => ConditionModel::YouControlNoCreatures,
            RestrictionCondition::YouAttackedThisTurn => ConditionModel::YouAttackedThisTurn,
            RestrictionCondition::YouAttackedWithAtLeast { count } => {
                ConditionModel::YouAttackedWithAtLeast { count }
            },
            RestrictionCondition::YouCastNoncreatureSpellThisTurn => {
                ConditionModel::YouCastNoncreatureSpellThisTurn
            },
            RestrictionCondition::YouCastSpellCountAtLeast { count } => {
                ConditionModel::YouCastSpellCountAtLeast { count }
            },
            RestrictionCondition::YouGainedLifeThisTurn => ConditionModel::YouGainedLifeThisTurn,
            RestrictionCondition::YouCreatedTokenThisTurn => {
                ConditionModel::YouCreatedTokenThisTurn
            },
            RestrictionCondition::YouDiscardedCardThisTurn => {
                ConditionModel::YouDiscardedCardThisTurn
            },
            RestrictionCondition::YouSacrificedArtifactThisTurn => {
                ConditionModel::YouSacrificedArtifactThisTurn
            },
            RestrictionCondition::CreatureDiedThisTurn => ConditionModel::CreatureDiedThisTurn,
            RestrictionCondition::YouHadCreatureEnterThisTurn => {
                ConditionModel::YouHadCreatureEnterThisTurn
            },
            RestrictionCondition::YouHadAngelOrBerserkerEnterThisTurn => {
                ConditionModel::YouHadAngelOrBerserkerEnterThisTurn
            },
            RestrictionCondition::YouHadArtifactEnterThisTurn => {
                ConditionModel::YouHadArtifactEnterThisTurn
            },
            RestrictionCondition::CardsLeftYourGraveyardThisTurnAtLeast { count } => {
                ConditionModel::CardsLeftYourGraveyardThisTurnAtLeast { count }
            },
        }
    }
}

// ---------------------------------------------------------------------------
// When a condition holds
// ---------------------------------------------------------------------------

/// Whether a list of subtypes holds one, whatever the case of its letters.
pub open spec fn has_subtype(list: Seq<String>, subtype: Seq<char>) -> bool {
    exists|i: int| 0 <= i < list.len() && same_ignoring_case((#[trigger] list[i])@, subtype)
}

/// Whether a list of subtypes holds one, whatever the case of its letters.
pub fn contains_subtype(list: &Vec<String>, subtype: &str) -> (r: bool)
    ensures
        r == has_subtype(list@, subtype@),
{
    let mut i: usize = 0;
    while i < list.len()
        invariant
            i <= list@.len(),
            forall|j: int| 0 <= j < i ==> !same_ignoring_case((#[trigger] list@[j])@, subtype@),
        decreases list.len() - i,
    {
        if eq_ignore_ascii_case(list[i].as_str(), subtype) {
            return true;
        }
        i += 1;
    }
    false
}

/// Whether a permanent is of the kind asked for, as seen from a source.
pub open spec fn is_wanted(o: ObjectModel, w: WantedModel, source: ObjectId) -> bool {
    let core = o.card_types.core_types;
    match w {
        WantedModel::Subtype { subtype } => has_subtype(o.card_types.subtypes, subtype),
        WantedModel::Core { core_type } => core.contains(core_type),
        WantedModel::Color { color } => o.color.contains(color),
        WantedModel::LegendaryCreature => core.contains(CoreType::Creature)
            && o.card_types.supertypes.contains(Supertype::Legendary),
        WantedModel::NamedPlaneswalker { name } => core.contains(CoreType::Planeswalker)
            && has_text(o.name@, name),
        WantedModel::CreatureWithKeyword { kind } => core.contains(CoreType::Creature) && has_kind(
            o.keywords,
            kind,
        ),
        WantedModel::CreatureWithPowerAtLeast { minimum } => core.contains(CoreType::Creature)
            && o.power is Some && o.power->0 >= minimum,
        WantedModel::CreatureWithPt { power, toughness } => core.contains(CoreType::Creature)
            && o.power == Some(power) && o.toughness == Some(toughness),
        WantedModel::AnotherColorlessCreature => o.id != source && core.contains(CoreType::Creature)
            && o.color.len() == 0,
        WantedModel::SnowPermanent => o.card_types.supertypes.contains(Supertype::Snow),
    }
}

fn wanted(o: &GameObject, w: &Wanted, source: ObjectId) -> (r: bool)
    ensures
        r == is_wanted(o@, w@, source),
{
    let core = &o.card_types.core_types;
    match w {
        Wanted::Subtype { subtype } => contains_subtype(&o.card_types.subtypes, subtype.as_str()),
        Wanted::Core { core_type } => has_core_type(core, *core_type),
        Wanted::Color { color } => has_color(&o.color, *color),
        Wanted::LegendaryCreature => has_core_type(core, CoreType::Creature) && has_supertype(
            &o.card_types.supertypes,
            Supertype::Legendary,
        ),
        Wanted::NamedPlaneswalker { name } => has_core_type(core, CoreType::Planeswalker)
            && contains_piece(o.name.as_str(), name.as_str()),
        Wanted::CreatureWithKeyword { kind } => has_core_type(core, CoreType::Creature)
            && any_of_kind(&o.keywords, *kind),
        Wanted::CreatureWithPowerAtLeast { minimum } => has_core_type(core, CoreType::Creature)
            && match o.power {
            Some(p) => p >= *minimum,
            None => false,
        },
        Wanted::CreatureWithPt { power, toughness } => has_core_type(core, CoreType::Creature)
            && match o.power {
            Some(p) => p == *power,
            None => false,
        } && match o.toughness {
            Some(t) => t == *toughness,
            None => false,
        },
        Wanted::AnotherColorlessCreature => o.id != source && has_core_type(
            core,
            CoreType::Creature,
        ) && o.color.len() == 0,
        Wanted::SnowPermanent => has_supertype(&o.card_types.supertypes, Supertype::Snow),
    }
}

/// Being a permanent of a player that is of the kind asked for.
pub open spec fn wanted_of(g: Game, p: PlayerId, w: WantedModel, source: ObjectId) -> spec_fn(
    ObjectId,
) -> bool {
    |id: ObjectId|
        object_at(g, id) is Some && object_at(g, id)->0.controller == p && is_wanted(
            object_at(g, id)->0,
            w,
            source,
        )
}

/// The number of permanents of a player that are of the kind asked for.
pub open spec fn controlled(g: Game, p: PlayerId, w: WantedModel, source: ObjectId) -> nat {
    count_where(g.battlefield, wanted_of(g, p, w, source))
}

fn count_controlled(state: &GameState, p: PlayerId, w: &Wanted, source: ObjectId) -> (r: usize)
    ensures
        r == controlled(state@, p, w@, source),
{
    let ghost s = state@.battlefield;
    let ghost keep = wanted_of(state@, p, w@, source);
    proof {
        lemma_filter_start(s, keep);
    }
    let mut n: usize = 0;
    let mut i: usize = 0;
    while i < state.battlefield.len()
        invariant
            i <= s.len(),
            s == state.battlefield@,
            keep == wanted_of(state@, p, w@, source),
            n <= i,
            n == count_where(s.take(i as int), keep),
            s.take(s.len() as int) == s,
        decreases s.len() - i,
    {
        proof {
            lemma_count_next(s, i as int, keep);
        }
        if let Some(o) = state.object(state.battlefield[i]) {
            if o.controller == p && wanted(o, w, source) {
                n += 1;
            }
        }
        i += 1;
    }
    n
}

/// The creatures of a player, in the order of the battlefield.
pub open spec fn creatures_of(g: Game, p: PlayerId) -> Seq<ObjectId> {
    g.battlefield.filter(
        wanted_of(g, p, WantedModel::Core { core_type: CoreType::Creature }, ObjectId(0)),
    )
}

/// The lands of a player, in the order of the battlefield.
pub open spec fn lands_of(g: Game, p: PlayerId) -> Seq<ObjectId> {
    g.battlefield.filter(
        wanted_of(g, p, WantedModel::Core { core_type: CoreType::Land }, ObjectId(0)),
    )
}

fn permanents_of_type(state: &GameState, p: PlayerId, t: CoreType) -> (r: Vec<ObjectId>)
    ensures
        r@ == state@.battlefield.filter(
            wanted_of(state@, p, WantedModel::Core { core_type: t }, ObjectId(0)),
        ),
        forall|i: int| 0 <= i < r@.len() ==> object_at(state@, #[trigger] r@[i]) is Some,
{
    let ghost s = state@.battlefield;
    let ghost keep = wanted_of(state@, p, WantedModel::Core { core_type: t }, ObjectId(0));
    proof {
        lemma_filter_start(s, keep);
    }
    let mut out: Vec<ObjectId> = Vec::new();
    let mut i: usize = 0;
    while i < state.battlefield.len()
        invariant
            i <= s.len(),
            s == state.battlefield@,
            keep == wanted_of(state@, p, WantedModel::Core { core_type: t }, ObjectId(0)),
            out@ == s.take(i as int).filter(keep),
            s.take(s.len() as int) == s,
            forall|i: int| 0 <= i < out@.len() ==> object_at(state@, #[trigger] out@[i]) is Some,
        decreases s.len() - i,
    {
        proof {
            lemma_filter_next(s, i as int, keep);
        }
        if let Some(o) = state.object(state.battlefield[i]) {
            if o.controller == p && has_core_type(&o.card_types.core_types, t) {
                out.push(state.battlefield[i]);
            }
        }
        i += 1;
    }
    out
}

/// The powers of objects, zero for one without power.
pub open spec fn powers(g: Game, ids: Seq<ObjectId>) -> Seq<i32> {
    Seq::new(
        ids.len(),
        |i: int|
            match g.objects[ids[i]].power {
                Some(p) => p,
                None => 0,
            },
    )
}

/// The powers of the first `n` objects that have power.
pub open spec fn known_powers(g: Game, ids: Seq<ObjectId>, n: nat) -> Seq<i32>
    decreases n,
{
    if n == 0 || n > ids.len() {
        Seq::empty()
    } else {
        match g.objects[ids[n - 1]].power {
            Some(p) => known_powers(g, ids, (n - 1) as nat).push(p),
            None => known_powers(g, ids, (n - 1) as nat),
        }
    }
}

/// The names of objects.
pub open spec fn names_of(g: Game, ids: Seq<ObjectId>) -> Seq<Seq<char>> {
    Seq::new(ids.len(), |i: int| g.objects[ids[i]].name@)
}

/// Being one name.
pub open spec fn this_name(n: Seq<char>) -> spec_fn(Seq<char>) -> bool {
    |m: Seq<char>| m == n
}

/// How often the most frequent of the first `n` names comes in a list.
pub open spec fn most_frequent(names: Seq<Seq<char>>, n: nat) -> nat
    decreases n,
{
    if n == 0 || n > names.len() {
        0
    } else {
        let here = count_where(names, this_name(names[n - 1]));
        let front = most_frequent(names, (n - 1) as nat);
        if here > front {
            here
        } else {
            front
        }
    }
}

fn total_power_of_controlled_creatures(state: &GameState, p: PlayerId) -> (r: i32)
    ensures
        r == wrapped_sum(powers(state@, creatures_of(state@, p))),
{
    let ids = permanents_of_type(state, p, CoreType::Creature);
    let ghost all = powers(state@, ids@);
    let mut out: Vec<i32> = Vec::new();
    let mut i: usize = 0;
    while i < ids.len()
        invariant
            i <= ids@.len(),
            all == powers(state@, ids@),
            forall|i: int| 0 <= i < ids@.len() ==> object_at(state@, #[trigger] ids@[i]) is Some,
            out@ == all.take(i as int),
        decreases ids.len() - i,
    {
        proof {
            lemma_take_next(all, i as int);
            assert(object_at(state@, ids@[i as int]) is Some);
        }
        let v: i32 = match state.object(ids[i]) {
            Some(o) => match o.power {
                Some(x) => x,
                None => 0,
            },
            None => 0,
        };
        out.push(v);
        i += 1;
    }
    proof {
        lemma_take_all(all);
    }
    sum_of(&out)
}

impl Key for i32 {
    fn same(&self, other: &Self) -> (b: bool) {
        *self == *other
    }
}

fn controlled_creature_power_count(state: &GameState, p: PlayerId) -> (r: usize)
    ensures
        r == distinct(known_powers(state@, creatures_of(state@, p), creatures_of(state@, p).len())),
{
    let ids = permanents_of_type(state, p, CoreType::Creature);
    let mut out: Vec<i32> = Vec::new();
    let mut i: usize = 0;
    while i < ids.len()
        invariant
            i <= ids@.len(),
            forall|i: int| 0 <= i < ids@.len() ==> object_at(state@, #[trigger] ids@[i]) is Some,
            out@ == known_powers(state@, ids@, i as nat),
        decreases ids.len() - i,
    {
        assert(object_at(state@, ids@[i as int]) is Some);
        if let Some(o) = state.object(ids[i]) {
            if let Some(x) = o.power {
                out.push(x);
            }
        }
        i += 1;
    }
    assert(seq_view(out@) =~= out@);
    distinct_count(&out)
}

fn controlled_land_same_name_count(state: &GameState, p: PlayerId) -> (r: usize)
    ensures
        r == most_frequent(names_of(state@, lands_of(state@, p)), lands_of(state@, p).len()),
{
    let ids = permanents_of_type(state, p, CoreType::Land);
    let ghost names = names_of(state@, ids@);
    let mut best: usize = 0;
    let mut i: usize = 0;
    while i < ids.len()
        invariant
            i <= ids@.len(),
            names == names_of(state@, ids@),
            forall|i: int| 0 <= i < ids@.len() ==> object_at(state@, #[trigger] ids@[i]) is Some,
            best == most_frequent(names, i as nat),
        decreases ids.len() - i,
    {
        let ghost keep = this_name(names[i as int]);
        proof {
            lemma_filter_start(names, keep);
        }
        let mut n: usize = 0;
        let mut j: usize = 0;
        while j < ids.len()
            invariant
                i < ids@.len(),
                j <= ids@.len(),
                names == names_of(state@, ids@),
                keep == this_name(names[i as int]),
                forall|i: int| 0 <= i < ids@.len() ==> object_at(state@, #[trigger] ids@[i]) is Some,
                n <= j,
                n == count_where(names.take(j as int), keep),
                names.take(names.len() as int) == names,
            decreases ids.len() - j,
        {
            proof {
                lemma_count_next(names, j as int, keep);
                assert(object_at(state@, ids@[i as int]) is Some);
                assert(object_at(state@, ids@[j as int]) is Some);
            }
            if let Some(a) = state.object(ids[i]) {
                if let Some(b) = state.object(ids[j]) {
                    if same_text(b.name.as_str(), a.name.as_str()) {
                        n += 1;
                    }
                }
            }
            j += 1;
        }
        if n > best {
            best = n;
        }
        i += 1;
    }
    best
}

/// The hand size of a player, zero where there is no such player.
pub open spec fn hand_size(g: Game, p: PlayerId) -> nat {
    match player_of(g, p) {
        Some(q) => q.hand.len(),
        None => 0,
    }
}

/// The graveyard of a player, empty where there is no such player.
pub open spec fn graveyard_of(g: Game, p: PlayerId) -> Seq<ObjectId> {
    match player_of(g, p) {
        Some(q) => q.graveyard,
        None => Seq::empty(),
    }
}

fn player_hand_size(state: &GameState, p: PlayerId) -> (r: usize)
    ensures
        r == hand_size(state@, p),
{
    match state.player(p) {
        Some(q) => q.hand.len(),
        None => 0,
    }
}

fn player_graveyard_ids(state: &GameState, p: PlayerId) -> (r: Vec<ObjectId>)
    ensures
        r@ == graveyard_of(state@, p),
{
    match state.player(p) {
        Some(q) => crate::targeting::copy_ids(&q.graveyard),
        None => Vec::new(),
    }
}

/// Being a card with a subtype.
pub open spec fn card_with(g: Game, subtype: Seq<char>) -> spec_fn(ObjectId) -> bool {
    |id: ObjectId|
        object_at(g, id) is Some && has_subtype(object_at(g, id)->0.card_types.subtypes, subtype)
}

fn graveyard_subtype_count(state: &GameState, p: PlayerId, subtype: &str) -> (r: usize)
    ensures
        r == count_where(graveyard_of(state@, p), card_with(state@, subtype@)),
{
    let ids = player_graveyard_ids(state, p);
    let ghost keep = card_with(state@, subtype@);
    proof {
        lemma_filter_start(ids@, keep);
    }
    let mut n: usize = 0;
    let mut i: usize = 0;
    while i < ids.len()
        invariant
            i <= ids@.len(),
            keep == card_with(state@, subtype@),
            n <= i,
            n == count_where(ids@.take(i as int), keep),
            ids@.take(ids@.len() as int) == ids@,
        decreases ids.len() - i,
    {
        proof {
            lemma_count_next(ids@, i as int, keep);
        }
        if let Some(o) = state.object(ids[i]) {
            if contains_subtype(&o.card_types.subtypes, subtype) {
                n += 1;
            }
        }
        i += 1;
    }
    n
}

fn distinct_graveyard_card_type_count(state: &GameState, p: PlayerId) -> (r: usize)
    ensures
        r == distinct(types_among(state@, graveyard_of(state@, p), graveyard_of(state@, p).len())),
{
    let ids = player_graveyard_ids(state, p);
    let ghost g = state@;
    let mut out: Vec<CoreType> = Vec::new();
    let mut i: usize = 0;
    while i < ids.len()
        invariant
            i <= ids@.len(),
            g == state@,
            out@ == types_among(g, ids@, i as nat),
        decreases ids.len() - i,
    {
        if let Some(o) = state.object(ids[i]) {
            crate::quantity::append_types(&mut out, &o.card_types.core_types);
        }
        i += 1;
    }
    assert(seq_view(out@) =~= out@);
    distinct_count(&out)
}

/// A number that a player has.
pub open spec fn player_number(g: Game, q: PlayerQuantity, p: PlayerId) -> nat {
    match q {
        PlayerQuantity::HandSize => hand_size(g, p),
        PlayerQuantity::ControlledCreatureCount => controlled(
            g,
            p,
            WantedModel::Core { core_type: CoreType::Creature },
            ObjectId(0),
        ),
    }
}

fn resolve_player_quantity(state: &GameState, q: PlayerQuantity, p: PlayerId) -> (r: usize)
    ensures
        r == player_number(state@, q, p),
{
    match q {
        PlayerQuantity::HandSize => player_hand_size(state, p),
        PlayerQuantity::ControlledCreatureCount => count_controlled(
            state,
            p,
            &Wanted::Core { core_type: CoreType::Creature },
            ObjectId(0),
        ),
    }
}

fn compare_sizes(c: Comparator, lhs: usize, rhs: usize) -> (r: bool)
    ensures
        r == compares(c, lhs as int, rhs as int),
{
    match c {
        Comparator::GT => lhs > rhs,
        Comparator::LT => lhs < rhs,
        Comparator::GE => lhs >= rhs,
        Comparator::LE => lhs <= rhs,
        Comparator::EQ => lhs == rhs,
    }
}

fn versus_each_opponent(
    state: &GameState,
    p: PlayerId,
    lhs: PlayerQuantity,
    c: Comparator,
    rhs: PlayerQuantity,
) -> (r: bool)
    ensures
        r == (forall|i: int|
            0 <= i < state@.players.len() && (#[trigger] state@.players[i]).id != p ==> compares(
                c,
                player_number(state@, lhs, p) as int,
                player_number(state@, rhs, state@.players[i].id) as int,
            )),
{
    let ghost ps = state@.players;
    let own: usize = resolve_player_quantity(state, lhs, p);
    let mut i: usize = 0;
    while i < state.players.len()
        invariant
            i <= ps.len(),
            ps == state@.players,
            ps.len() == state.players@.len(),
            own == player_number(state@, lhs, p),
            forall|j: int|
                0 <= j < i && (#[trigger] ps[j]).id != p ==> compares(
                    c,
                    own as int,
                    player_number(state@, rhs, ps[j].id) as int,
                ),
        decreases ps.len() - i,
    {
        let q = state.players[i].id;
        assert(ps[i as int] == state.players@[i as int]@);
        if q != p && !compare_sizes(c, own, resolve_player_quantity(state, rhs, q)) {
            assert(ps[i as int].id != p);
            return false;
        }
        i += 1;
    }
    true
}

/// Whether one of a list of subtypes, in small letters, is among some.
pub open spec fn lowered_among(list: Seq<String>, wanted: Seq<Seq<char>>) -> bool {
    exists|i: int| 0 <= i < list.len() && wanted.contains(lowercase((#[trigger] list[i])@))
}

/// Being a land of a player with one of some subtypes, written in small letters.
pub open spec fn land_of_any(g: Game, p: PlayerId, subtypes: Seq<Seq<char>>) -> spec_fn(
    ObjectId,
) -> bool {
    |id: ObjectId|
        object_at(g, id) is Some && object_at(g, id)->0.controller == p && object_at(
            g,
            id,
        )->0.card_types.core_types.contains(CoreType::Land) && lowered_among(
            object_at(g, id)->0.card_types.subtypes,
            subtypes,
        )
}

fn subtype_among(list: &Vec<String>, wanted: &Vec<String>) -> (r: bool)
    ensures
        r == lowered_among(list@, seq_view(wanted@)),
{
    let mut i: usize = 0;
    while i < list.len()
        invariant
            i <= list@.len(),
            forall|j: int|
                0 <= j < i ==> !seq_view(wanted@).contains(lowercase((#[trigger] list@[j])@)),
        decreases list.len() - i,
    {
        let low = to_lowercase(list[i].as_str());
        if crate::seqs::holds(wanted, &low) {
            return true;
        }
        i += 1;
    }
    false
}

fn you_control_land_with_any_subtype(state: &GameState, p: PlayerId, subtypes: &Vec<String>) -> (r:
    bool)
    ensures
        r == (exists|i: int|
            0 <= i < state@.battlefield.len() && land_of_any(state@, p, seq_view(subtypes@))(
                #[trigger] state@.battlefield[i],
            )),
{
    let ghost bf = state@.battlefield;
    let ghost keep = land_of_any(state@, p, seq_view(subtypes@));
    let mut i: usize = 0;
    while i < state.battlefield.len()
        invariant
            i <= bf.len(),
            bf == state@.battlefield,
            bf == state.battlefield@,
            keep == land_of_any(state@, p, seq_view(subtypes@)),
            forall|j: int| 0 <= j < i ==> !keep(#[trigger] bf[j]),
        decreases bf.len() - i,
    {
        if let Some(o) = state.object(state.battlefield[i]) {
            if o.controller == p && has_core_type(&o.card_types.core_types, CoreType::Land)
                && subtype_among(&o.card_types.subtypes, subtypes) {
                assert(keep(bf[i as int]));
                return true;
            }
        }
        i += 1;
    }
    false
}

/// Whether an object attacks.
pub open spec fn attacks(g: Game, id: ObjectId) -> bool {
    match g.combat {
        Some(c) => exists|i: int|
            0 <= i < c.attackers.len() && (#[trigger] c.attackers[i]).object_id == id,
        None => false,
    }
}

/// Whether an object blocks.
pub open spec fn blocks(g: Game, id: ObjectId) -> bool {
    match g.combat {
        Some(c) => c.blocker_to_attacker.dom().contains(id),
        None => false,
    }
}

/// Whether an object is blocked.
pub open spec fn is_blocked(g: Game, id: ObjectId) -> bool {
    match g.combat {
        Some(c) => c.blocker_assignments.dom().contains(id) && c.blocker_assignments[id].len() > 0,
        None => false,
    }
}

fn is_source_attacking(state: &GameState, id: ObjectId) -> (r: bool)
    ensures
        r == attacks(state@, id),
{
    match &state.combat {
        Some(c) => {
            let ghost list = c@.attackers;
            let mut i: usize = 0;
            while i < c.attackers.len()
                invariant
                    i <= list.len(),
                    list == c.attackers@,
                    state@.combat == Some(c@),
                    list == state@.combat->0.attackers,
                    forall|j: int| 0 <= j < i ==> (#[trigger] list[j]).object_id != id,
                decreases list.len() - i,
            {
                if c.attackers[i].object_id == id {
                    assert(list[i as int].object_id == id);
                    return true;
                }
                i += 1;
            }
            false
        },
        None => false,
    }
}

fn is_source_blocking(state: &GameState, id: ObjectId) -> (r: bool)
    ensures
        r == blocks(state@, id),
{
    match &state.combat {
        Some(c) => c.blocker_to_attacker.contains_key(&id),
        None => false,
    }
}

fn is_source_blocked(state: &GameState, id: ObjectId) -> (r: bool)
    ensures
        r == is_blocked(state@, id),
{
    match &state.combat {
        Some(c) => match c.blocker_assignments.get(&id) {
            Some(b) => b.len() > 0,
            None => false,
        },
        None => false,
    }
}

/// The counters of a kind on an object, zero where there is no such object.
pub open spec fn counters_at(g: Game, id: ObjectId, k: CounterKind) -> u32 {
    match object_at(g, id) {
        Some(o) => count_in(o.counters, k),
        None => 0,
    }
}

fn counters_on_source(state: &GameState, id: ObjectId, k: &CounterType) -> (r: u32)
    ensures
        r == counters_at(state@, id, k@),
{
    match state.object(id) {
        Some(o) => count_of_key(&o.counters, k),
        None => 0,
    }
}

/// Whether the object that a source is attached to is untapped and of a type.
pub open spec fn untapped_host(g: Game, id: ObjectId, t: CoreType) -> bool {
    match object_at(g, id) {
        Some(o) => match o.attached_to {
            Some(h) => match object_at(g, h) {
                Some(host) => !host.tapped && host.card_types.core_types.contains(t),
                None => false,
            },
            None => false,
        },
        None => false,
    }
}

/// The spells that a player cast this turn, none where nothing is recorded.
pub open spec fn spells_of(g: Game, p: PlayerId) -> Seq<SpellRecordModel> {
    if g.spells_cast_this_turn_by_player.dom().contains(p) {
        g.spells_cast_this_turn_by_player[p]
    } else {
        Seq::empty()
    }
}

fn cast_noncreature(state: &GameState, p: PlayerId) -> (r: bool)
    ensures
        r == (exists|i: int|
            0 <= i < spells_of(state@, p).len() && !(#[trigger] spells_of(
                state@,
                p,
            )[i]).core_types.contains(CoreType::Creature)),
{
    match state.spells_cast_this_turn_by_player.get(&p) {
        Some(h) => {
            let ghost list = spells_of(state@, p);
            let mut i: usize = 0;
            while i < h.spells.len()
                invariant
                    i <= list.len(),
                    list == seq_view(h.spells@),
                    list == spells_of(state@, p),
                    forall|j: int|
                        0 <= j < i ==> (#[trigger] list[j]).core_types.contains(CoreType::Creature),
                decreases list.len() - i,
            {
                if !has_core_type(&h.spells[i].core_types, CoreType::Creature) {
                    assert(!list[i as int].core_types.contains(CoreType::Creature));
                    return true;
                }
                i += 1;
            }
            false
        },
        None => false,
    }
}

/// Whether a condition holds for a player and a source.
pub open spec fn holds_for(g: Game, p: PlayerId, source: ObjectId, c: ConditionModel) -> bool {
    let src = object_at(g, source);
    match c {
        ConditionModel::SourceInZone { zone } => src is Some && src->0.zone == zone,
        ConditionModel::SourceIsAttacking => attacks(g, source),
        ConditionModel::SourceIsAttackingOrBlocking => attacks(g, source) || blocks(g, source),
        ConditionModel::SourceIsBlocked => is_blocked(g, source),
        ConditionModel::SourcePowerAtLeast { minimum } => src is Some && src->0.power is Some
            && src->0.power->0 >= minimum,
        ConditionModel::SourceHasCounterAtLeast { counter_type, count } => counters_at(
            g,
            source,
            counter_type,
        ) >= count,
        ConditionModel::SourceHasNoCounter { counter_type } => counters_at(g, source, counter_type)
            == 0,
        ConditionModel::SourceEnteredThisTurn => src is Some && src->0.entered_battlefield_turn
            == Some(g.turn_number),
        ConditionModel::SourceIsCreature => src is Some && src->0.card_types.core_types.contains(
            CoreType::Creature,
        ),
        ConditionModel::SourceUntappedAttachedTo { required_type } => untapped_host(
            g,
            source,
            required_type,
        ),
        ConditionModel::SourceLacksKeyword { kind } => src is Some && !has_kind(
            src->0.keywords,
            kind,
        ),
        ConditionModel::SourceIsColor { color } => src is Some && src->0.color.contains(color),
        ConditionModel::FirstSpellThisGame => count_in(g.spells_cast_this_game, p) == 0,
        ConditionModel::OpponentSearchedLibraryThisTurn => exists|q: PlayerId|
            q != p && g.players_who_searched_library_this_turn.contains(q),
        ConditionModel::BeenAttackedThisStep => g.players_attacked_this_step.contains(p),
        ConditionModel::GraveyardCardCountAtLeast { count } => graveyard_of(g, p).len() >= count,
        ConditionModel::GraveyardCardTypeCountAtLeast { count } => distinct(
            types_among(g, graveyard_of(g, p), graveyard_of(g, p).len()),
        ) >= count,
        ConditionModel::GraveyardSubtypeCardCountAtLeast { subtype, count } => player_of(g, p)
            is Some && count_where(graveyard_of(g, p), card_with(g, subtype)) >= count,
        ConditionModel::OpponentPoisonAtLeast { count } => exists|i: int|
            0 <= i < g.players.len() && (#[trigger] g.players[i]).id != p
                && g.players[i].poison_counters >= count,
        ConditionModel::HandSizeExact { count } => hand_size(g, p) == count,
        ConditionModel::HandSizeOneOf { counts } => exists|i: int|
            0 <= i < counts.len() && #[trigger] counts[i] == hand_size(g, p),
        ConditionModel::QuantityVsEachOpponent { lhs, comparator, rhs } => forall|i: int|
            0 <= i < g.players.len() && (#[trigger] g.players[i]).id != p ==> compares(
                comparator,
                player_number(g, lhs, p) as int,
                player_number(g, rhs, g.players[i].id) as int,
            ),
        ConditionModel::CreaturesYouControlTotalPowerAtLeast { minimum } => wrapped_sum(
            powers(g, creatures_of(g, p)),
        ) >= minimum,
        ConditionModel::YouControlLandSubtypeAny { subtypes } => exists|i: int|
            0 <= i < g.battlefield.len() && land_of_any(g, p, subtypes)(#[trigger] g.battlefield[i]),
        ConditionModel::YouControlAtLeast { what, count } => controlled(g, p, what, source)
            >= count,
        ConditionModel::YouControlSubtypeOrGraveyardCardSubtype { subtype } => controlled(
            g,
            p,
            WantedModel::Subtype { subtype },
            source,
        ) >= 1 || count_where(graveyard_of(g, p), card_with(g, subtype)) >= 1,
        ConditionModel::YouControlDifferentPowerCreatureCountAtLeast { count } => distinct(
            known_powers(g, creatures_of(g, p), creatures_of(g, p).len()),
        ) >= count,
        ConditionModel::YouControlLandsWithSameNameAtLeast { count } => most_frequent(
            names_of(g, lands_of(g, p)),
            lands_of(g, p).len(),
        ) >= count,
        ConditionModel::YouControlNoCreatures => controlled(
            g,
            p,
            WantedModel::Core { core_type: CoreType::Creature },
            source,
        ) == 0,
        ConditionModel::YouAttackedThisTurn => g.players_attacked_this_turn.contains(p),
        ConditionModel::YouAttackedWithAtLeast { count } => count_in(
            g.attacking_creatures_this_turn,
            p,
        ) >= count,
        ConditionModel::YouCastNoncreatureSpellThisTurn => exists|i: int|
            0 <= i < spells_of(g, p).len() && !(#[trigger] spells_of(g, p)[i]).core_types.contains(
                CoreType::Creature,
            ),
        ConditionModel::YouCastSpellCountAtLeast { count } => spells_of(g, p).len() >= count,
        ConditionModel::YouGainedLifeThisTurn => player_of(g, p) is Some && player_of(
            g,
            p,
        )->0.life_gained_this_turn > 0,
        ConditionModel::YouCreatedTokenThisTurn => g.players_who_created_token_this_turn.contains(
            p,
        ),
        ConditionModel::YouDiscardedCardThisTurn => g.players_who_discarded_card_this_turn.contains(
            p,
        ),
        ConditionModel::YouSacrificedArtifactThisTurn => g.players_who_sacrificed_artifact_this_turn.contains(
        p),
        ConditionModel::CreatureDiedThisTurn => g.creature_died_this_turn,
        ConditionModel::YouHadCreatureEnterThisTurn => g.players_who_had_creature_etb_this_turn.contains(
        p),
        ConditionModel::YouHadAngelOrBerserkerEnterThisTurn => g.players_who_had_angel_or_berserker_etb_this_turn.contains(
        p),
        ConditionModel::YouHadArtifactEnterThisTurn => g.players_who_had_artifact_etb_this_turn.contains(
        p),
        ConditionModel::CardsLeftYourGraveyardThisTurnAtLeast { count } => count_in(
            g.cards_left_graveyard_this_turn,
            p,
        ) >= count,
    }
}

fn opponent_searched(state: &GameState, p: PlayerId) -> (r: bool)
    ensures
        r == exists|q: PlayerId| q != p && state@.players_who_searched_library_this_turn.contains(q),
{
    let set = &state.players_who_searched_library_this_turn;
    proof {
        set.lemma_members();
    }
    let mut i: usize = 0;
    while i < set.len()
        invariant
            i <= set.seq().len(),
            set@ == state@.players_who_searched_library_this_turn,
            forall|k: PlayerId|
                set@.contains(k) <==> exists|i: int|
                    0 <= i < set.seq().len() && (#[trigger] set.seq()[i])@ == k,
            forall|j: int| 0 <= j < i ==> #[trigger] set.seq()[j] == p,
        decreases set.seq().len() - i,
    {
        if *set.at(i) != p {
            assert(set.seq()[i as int]@ == set.seq()[i as int]);
            assert(set@.contains(set.seq()[i as int]));
            return true;
        }
        i += 1;
    }
    false
}

fn opponent_poisoned(state: &GameState, p: PlayerId, count: u32) -> (r: bool)
    ensures
        r == (exists|i: int|
            0 <= i < state@.players.len() && (#[trigger] state@.players[i]).id != p
                && state@.players[i].poison_counters >= count),
{
    let ghost ps = state@.players;
    let mut i: usize = 0;
    while i < state.players.len()
        invariant
            i <= ps.len(),
            ps == state@.players,
            ps.len() == state.players@.len(),
            forall|j: int|
                0 <= j < i ==> (#[trigger] ps[j]).id == p || ps[j].poison_counters < count,
        decreases ps.len() - i,
    {
        assert(ps[i as int] == state.players@[i as int]@);
        if state.players[i].id != p && state.players[i].poison_counters >= count {
            return true;
        }
        i += 1;
    }
    false
}

fn size_among(counts: &Vec<usize>, n: usize) -> (r: bool)
    ensures
        r == (exists|i: int| 0 <= i < counts@.len() && #[trigger] counts@[i] == n),
{
    let mut i: usize = 0;
    while i < counts.len()
        invariant
            i <= counts@.len(),
            forall|j: int| 0 <= j < i ==> #[trigger] counts@[j] != n,
        decreases counts.len() - i,
    {
        if counts[i] == n {
            return true;
        }
        i += 1;
    }
    false
}

/// Whether a condition holds for a player and a source.
#[verifier::rlimit(40)]
pub fn evaluate_condition(
    state: &GameState,
    player: PlayerId,
    source_id: ObjectId,
    condition: &RestrictionCondition,
) -> (r: bool)
    ensures
        r == holds_for(state@, player, source_id, condition@),
{
    let src = state.object(source_id);
    match condition {
        RestrictionCondition::SourceInZone { zone } => match src {
            Some(o) => o.zone == *zone,
            None => false,
        },
        RestrictionCondition::SourceIsAttacking => is_source_attacking(state, source_id),
        RestrictionCondition::SourceIsAttackingOrBlocking => is_source_attacking(state, source_id)
            || is_source_blocking(state, source_id),
        RestrictionCondition::SourceIsBlocked => is_source_blocked(state, source_id),
        RestrictionCondition::SourcePowerAtLeast { minimum } => match src {
            Some(o) => match o.power {
                Some(p) => p >= *minimum,
                None => false,
            },
            None => false,
        },
        RestrictionCondition::SourceHasCounterAtLeast { counter_type, count } => counters_on_source(
            state,
            source_id,
            counter_type,
        ) >= *count,
        RestrictionCondition::SourceHasNoCounter { counter_type } => counters_on_source(
            state,
            source_id,
            counter_type,
        ) == 0,
        RestrictionCondition::SourceEnteredThisTurn => match src {
            Some(o) => match o.entered_battlefield_turn {
                Some(t) => t == state.turn_number,
                None => false,
            },
            None => false,
        },
        RestrictionCondition::SourceIsCreature => match src {
            Some(o) => has_core_type(&o.card_types.core_types, CoreType::Creature),
            None => false,
        },
        RestrictionCondition::SourceUntappedAttachedTo { required_type } => match src {
            Some(o) => match o.attached_to {
                Some(h) => match state.object(h) {
                    Some(host) => !host.tapped && has_core_type(
                        &host.card_types.core_types,
                        *required_type,
                    ),
                    None => false,
                },
                None => false,
            },
            None => false,
        },
        RestrictionCondition::SourceLacksKeyword { kind } => match src {
            Some(o) => !any_of_kind(&o.keywords, *kind),
            None => false,
        },
        RestrictionCondition::SourceIsColor { color } => match src {
            Some(o) => has_color(&o.color, *color),
            None => false,
        },
        RestrictionCondition::FirstSpellThisGame => count_of_key(
            &state.spells_cast_this_game,
            &player,
        ) == 0,
        RestrictionCondition::OpponentSearchedLibraryThisTurn => opponent_searched(state, player),
        RestrictionCondition::BeenAttackedThisStep => state.players_attacked_this_step.contains(
            &player,
        ),
        RestrictionCondition::GraveyardCardCountAtLeast { count } => player_graveyard_ids(
            state,
            player,
        ).len() >= *count,
        RestrictionCondition::GraveyardCardTypeCountAtLeast { count } => distinct_graveyard_card_type_count(
        state, player) >= *count,
        RestrictionCondition::GraveyardSubtypeCardCountAtLeast { subtype, count } => state.player(
            player,
        ).is_some() && graveyard_subtype_count(state, player, subtype.as_str()) >= *count,
        RestrictionCondition::OpponentPoisonAtLeast { count } => opponent_poisoned(
            state,
            player,
            *count,
        ),
        RestrictionCondition::HandSizeExact { count } => player_hand_size(state, player) == *count,
        RestrictionCondition::HandSizeOneOf { counts } => size_among(
            counts,
            player_hand_size(state, player),
        ),
        RestrictionCondition::QuantityVsEachOpponent { lhs, comparator, rhs } => versus_each_opponent(
            state,
            player,
            *lhs,
            *comparator,
            *rhs,
        ),
        RestrictionCondition::CreaturesYouControlTotalPowerAtLeast { minimum } => total_power_of_controlled_creatures(
        state, player) >= *minimum,
        RestrictionCondition::YouControlLandSubtypeAny { subtypes } => you_control_land_with_any_subtype(
            state,
            player,
            subtypes,
        ),
        RestrictionCondition::YouControlAtLeast { what, count } => count_controlled(
            state,
            player,
            what,
            source_id,
        ) >= *count,
        RestrictionCondition::YouControlSubtypeOrGraveyardCardSubtype { subtype } => count_controlled(
            state,
            player,
            &Wanted::Subtype { subtype: subtype.clone() },
            source_id,
        ) >= 1 || graveyard_subtype_count(state, player, subtype.as_str()) >= 1,
        RestrictionCondition::YouControlDifferentPowerCreatureCountAtLeast { count } => controlled_creature_power_count(
        state, player) >= *count,
        RestrictionCondition::YouControlLandsWithSameNameAtLeast { count } => controlled_land_same_name_count(
        state, player) >= *count,
        RestrictionCondition::YouControlNoCreatures => count_controlled(
            state,
            player,
            &Wanted::Core { core_type: CoreType::Creature },
            source_id,
        ) == 0,
        RestrictionCondition::YouAttackedThisTurn => state.players_attacked_this_turn.contains(
            &player,
        ),
        RestrictionCondition::YouAttackedWithAtLeast { count } => count_of_key(
            &state.attacking_creatures_this_turn,
            &player,
        ) >= *count,
        RestrictionCondition::YouCastNoncreatureSpellThisTurn => cast_noncreature(state, player),
        RestrictionCondition::YouCastSpellCountAtLeast { count } => match state.spells_cast_this_turn_by_player.get(
        &player) {
            Some(h) => h.spells.len() >= *count as usize,
            None => *count == 0,
        },
        RestrictionCondition::YouGainedLifeThisTurn => match state.player(player) {
            Some(q) => q.life_gained_this_turn > 0,
            None => false,
        },
        RestrictionCondition::YouCreatedTokenThisTurn => state.players_who_created_token_this_turn.contains(
        &player),
        RestrictionCondition::YouDiscardedCardThisTurn => state.players_who_discarded_card_this_turn.contains(
        &player),
        RestrictionCondition::YouSacrificedArtifactThisTurn => state.players_who_sacrificed_artifact_this_turn.contains(
        &player),
        RestrictionCondition::CreatureDiedThisTurn => state.creature_died_this_turn,
        RestrictionCondition::YouHadCreatureEnterThisTurn => state.players_who_had_creature_etb_this_turn.contains(
        &player),
        RestrictionCondition::YouHadAngelOrBerserkerEnterThisTurn => state.players_who_had_angel_or_berserker_etb_this_turn.contains(
        &player),
        RestrictionCondition::YouHadArtifactEnterThisTurn => state.players_who_had_artifact_etb_this_turn.contains(
        &player),
        RestrictionCondition::CardsLeftYourGraveyardThisTurnAtLeast { count } => count_of_key(
            &state.cards_left_graveyard_this_turn,
            &player,
        ) >= *count,
    }
}

// ---------------------------------------------------------------------------
// How a condition is read
// ---------------------------------------------------------------------------

/// The number that a piece of text stands for, with white space around it.
pub open spec fn count_word(s: Seq<char>) -> Option<nat> {
    word_number(trimmed(s))
}

fn parse_count_word(s: &str) -> (r: Option<usize>)
    ensures
        match count_word(s@) {
            Some(n) => r is Some && r->0 == n && n <= u32::MAX,
            None => r is None,
        },
{
    match parse_number(trim(s)) {
        Some(n) => Some(n as usize),
        None => None,
    }
}

/// What stands between a beginning and an ending.
pub open spec fn between(s: Seq<char>, prefix: Seq<char>, suffix: Seq<char>) -> Option<Seq<char>> {
    match after_prefix(s, prefix) {
        Some(rest) => before_suffix(rest, suffix),
        None => None,
    }
}

fn middle<'a>(s: &'a str, prefix: &str, suffix: &str) -> (r: Option<&'a str>)
    ensures
        opt_text(r) == between(s@, prefix@, suffix@),
{
    match strip_prefix(s, prefix) {
        Some(rest) => strip_suffix(rest, suffix),
        None => None,
    }
}

/// The number between a beginning and an ending.
pub open spec fn threshold(s: Seq<char>, prefix: Seq<char>, suffix: Seq<char>) -> Option<nat> {
    match between(s, prefix, suffix) {
        Some(m) => count_word(m),
        None => None,
    }
}

fn parse_numeric_threshold(s: &str, prefix: &str, suffix: &str) -> (r: Option<usize>)
    ensures
        match threshold(s@, prefix@, suffix@) {
            Some(n) => r is Some && r->0 == n && n <= u32::MAX,
            None => r is None,
        },
{
    match middle(s, prefix, suffix) {
        Some(m) => parse_count_word(m),
        None => None,
    }
}

/// A number of 32 bits read as a signed one.
pub open spec fn as_signed(n: nat) -> i32 {
    if n <= i32::MAX {
        n as i32
    } else {
        (n - 0x1_0000_0000) as i32
    }
}

fn to_signed(n: usize) -> (r: i32)
    requires
        n <= u32::MAX,
    ensures
        r == as_signed(n as nat),
{
    if n <= i32::MAX as usize {
        n as i32
    } else {
        ((n as u64 - 0x8000_0000) as i32) + i32::MIN
    }
}

/// The card type of a name.
pub open spec fn core_type_named(s: Seq<char>) -> Option<CoreType> {
    if s == "Artifact"@ {
        Some(CoreType::Artifact)
    } else if s == "Creature"@ {
        Some(CoreType::Creature)
    } else if s == "Enchantment"@ {
        Some(CoreType::Enchantment)
    } else if s == "Instant"@ {
        Some(CoreType::Instant)
    } else if s == "Land"@ {
        Some(CoreType::Land)
    } else if s == "Planeswalker"@ {
        Some(CoreType::Planeswalker)
    } else if s == "Sorcery"@ {
        Some(CoreType::Sorcery)
    } else if s == "Battle"@ {
        Some(CoreType::Battle)
    } else if s == "Kindred"@ {
        Some(CoreType::Kindred)
    } else {
        None
    }
}

/// The color of a name.
pub open spec fn color_named(s: Seq<char>) -> Option<ManaColor> {
    if s == "White"@ {
        Some(ManaColor::White)
    } else if s == "Blue"@ {
        Some(ManaColor::Blue)
    } else if s == "Black"@ {
        Some(ManaColor::Black)
    } else if s == "Red"@ {
        Some(ManaColor::Red)
    } else if s == "Green"@ {
        Some(ManaColor::Green)
    } else {
        None
    }
}

/// A word without plural endings, beginning with a capital.
pub open spec fn singular(s: Seq<char>) -> Seq<char> {
    capitalized(without_last(trimmed(s), 's'), true, false)
}

fn to_singular(s: &str) -> (r: String)
    ensures
        r@ == singular(s@),
{
    capitalize_words(trim_end_matches(trim(s), 's'))
}

fn parse_core_type_word(s: &str) -> (r: Option<CoreType>)
    ensures
        r == core_type_named(singular(s@)),
{
    let w = to_singular(s);
    let t = w.as_str();
    if same_text(t, "Artifact") {
        Some(CoreType::Artifact)
    } else if same_text(t, "Creature") {
        Some(CoreType::Creature)
    } else if same_text(t, "Enchantment") {
        Some(CoreType::Enchantment)
    } else if same_text(t, "Instant") {
        Some(CoreType::Instant)
    } else if same_text(t, "Land") {
        Some(CoreType::Land)
    } else if same_text(t, "Planeswalker") {
        Some(CoreType::Planeswalker)
    } else if same_text(t, "Sorcery") {
        Some(CoreType::Sorcery)
    } else if same_text(t, "Battle") {
        Some(CoreType::Battle)
    } else if same_text(t, "Kindred") {
        Some(CoreType::Kindred)
    } else {
        None
    }
}

fn parse_color_word(s: &str) -> (r: Option<ManaColor>)
    ensures
        r == color_named(singular(s@)),
{
    let w = to_singular(s);
    let t = w.as_str();
    if same_text(t, "White") {
        Some(ManaColor::White)
    } else if same_text(t, "Blue") {
        Some(ManaColor::Blue)
    } else if same_text(t, "Black") {
        Some(ManaColor::Black)
    } else if same_text(t, "Red") {
        Some(ManaColor::Red)
    } else if same_text(t, "Green") {
        Some(ManaColor::Green)
    } else {
        None
    }
}

/// What follows "you control a" or "you control an".
pub open spec fn after_you_control_a(s: Seq<char>) -> Option<Seq<char>> {
    match after_prefix(s, "you control an "@) {
        Some(r) => Some(r),
        None => after_prefix(s, "you control a "@),
    }
}

fn rest_after_you_control_a<'a>(s: &'a str) -> (r: Option<&'a str>)
    ensures
        opt_text(r) == after_you_control_a(s@),
{
    match strip_prefix(s, "you control an ") {
        Some(r) => Some(r),
        None => strip_prefix(s, "you control a "),
    }
}

/// The pieces between separators.
pub open spec fn pieces(s: Seq<char>, sep: Seq<char>) -> Seq<Seq<char>>
    decreases s.len(),
{
    match parted(s, sep) {
        Some((a, b)) if sep.len() > 0 && b.len() < s.len() => seq![a] + pieces(b, sep),
        _ => seq![s],
    }
}

/// A piece without white space around it and without articles before it.
pub open spec fn without_article(s: Seq<char>) -> Seq<char> {
    without_beginnings(without_beginnings(trimmed(s), "a "@), "an "@)
}

/// Whether a word names one of the land types that such a condition can ask for.
pub open spec fn is_land_word(s: Seq<char>) -> bool {
    s == "plains"@ || s == "island"@ || s == "swamp"@ || s == "mountain"@ || s == "forest"@ || s
        == "desert"@
}

fn land_word(s: &str) -> (r: bool)
    ensures
        r == is_land_word(s@),
{
    same_text(s, "plains") || same_text(s, "island") || same_text(s, "swamp") || same_text(
        s,
        "mountain",
    ) || same_text(s, "forest") || same_text(s, "desert")
}

/// The words of a list, each without article.
pub open spec fn words_of(list: Seq<Seq<char>>) -> Seq<Seq<char>> {
    Seq::new(list.len(), |i: int| without_article(list[i]))
}

/// The land types that "you control a ... or a ..." asks for.
pub open spec fn land_subtypes(s: Seq<char>) -> Option<Seq<Seq<char>>> {
    match after_you_control_a(s) {
        Some(rest) => {
            let words = words_of(pieces(rest, " or "@));
            if has_text(rest, " or "@) && words.len() >= 2 && forall|i: int|
                0 <= i < words.len() ==> is_land_word(#[trigger] words[i]) {
                Some(words)
            } else {
                None
            }
        },
        None => None,
    }
}

proof fn lemma_parted_shorter(s: Seq<char>, sep: Seq<char>)
    requires
        sep.len() > 0,
    ensures
        match parted(s, sep) {
            Some((a, b)) => b.len() < s.len(),
            None => true,
        },
{
    lemma_place(s, sep, 0);
}

fn parse_you_control_land_subtypes(s: &str) -> (r: Option<Vec<String>>)
    ensures
        match land_subtypes(s@) {
            Some(w) => r is Some && seq_view(r->0@) == w,
            None => r is None,
        },
{
    let rest = match rest_after_you_control_a(s) {
        Some(r) => r,
        None => {
            return None;
        },
    };
    if !contains_piece(rest, " or ") {
        return None;
    }
    proof {
        reveal_strlit(" or ");
    }
    let ghost all = pieces(rest@, " or "@);
    let ghost words = words_of(all);
    let mut out: Vec<String> = Vec::new();
    let mut tail: &str = rest;
    let mut more: bool = true;
    let mut fine: bool = true;
    assert(all =~= Seq::<Seq<char>>::empty() + pieces(tail@, " or "@));
    let ghost mut done = Seq::<Seq<char>>::empty();
    assert(seq_view(out@) =~= words_of(done));
    while more
        invariant
            " or "@.len() > 0,
            all == pieces(rest@, " or "@),
            all == done + (if more {
                pieces(tail@, " or "@)
            } else {
                Seq::empty()
            }),
            seq_view(out@) == words_of(done),
            fine == forall|i: int| 0 <= i < done.len() ==> is_land_word(
                #[trigger] words_of(done)[i],
            ),
        decreases tail@.len() + (if more {
            1nat
        } else {
            0
        }),
    {
        let ghost before = done;
        let ghost whole = pieces(tail@, " or "@);
        proof {
            lemma_parted_shorter(tail@, " or "@);
        }
        let piece: &str;
        match split_once(tail, " or ") {
            Some((a, b)) => {
                piece = a;
                tail = b;
            },
            None => {
                piece = tail;
                more = false;
            },
        }
        let word = trim_start_text(trim_start_text(trim(piece), "a "), "an ").to_owned();
        if !land_word(word.as_str()) {
            fine = false;
        }
        proof {
            done = done.push(piece@);
            assert(all =~= done + (if more {
                pieces(tail@, " or "@)
            } else {
                Seq::empty()
            }));
            assert(words_of(done) =~= words_of(before).push(without_article(piece@)));
            assert(word@ == without_article(piece@));
            let w = words_of(done);
            assert(w[before.len() as int] == word@);
            if fine {
                assert forall|i: int| 0 <= i < done.len() implies is_land_word(#[trigger] w[i]) by {
                    if i < before.len() {
                        assert(w[i] == words_of(before)[i]);
                    }
                }
            } else {
                if !is_land_word(word@) {
                    assert(!is_land_word(w[before.len() as int]));
                } else {
                    let i = choose|i: int|
                        0 <= i < before.len() && !is_land_word(#[trigger] words_of(before)[i]);
                    assert(w[i] == words_of(before)[i]);
                }
            }
        }
        out.push(word);
        assert(seq_view(out@) =~= words_of(done));
    }
    assert(done =~= all);
    if out.len() < 2 || !fine {
        return None;
    }
    Some(out)
}

/// The number and the subtype that "you control ... or more ..." asks for.
pub open spec fn subtype_count(s: Seq<char>) -> Option<(nat, Seq<char>)> {
    match after_prefix(s, "you control "@) {
        Some(rest) => match parted(rest, " or more "@) {
            Some((number, kind)) => match count_word(number) {
                Some(n) => {
                    let word = trimmed(kind);
                    if core_type_named(singular(word)) is Some || before_suffix(
                        word,
                        " permanents"@,
                    ) is Some || word == "snow permanents"@ {
                        None
                    } else {
                        Some((n, trimmed(without_last(word, 's'))))
                    }
                },
                None => None,
            },
            None => None,
        },
        None => None,
    }
}

fn parse_you_control_subtype_count(s: &str) -> (r: Option<(usize, String)>)
    ensures
        match subtype_count(s@) {
            Some((n, w)) => r is Some && (r->0).0 == n && (r->0).1@ == w,
            None => r is None,
        },
{
    let rest = match strip_prefix(s, "you control ") {
        Some(r) => r,
        None => {
            return None;
        },
    };
    let (number, kind) = match split_once(rest, " or more ") {
        Some(p) => p,
        None => {
            return None;
        },
    };
    let n: usize = match parse_count_word(number) {
        Some(n) => n,
        None => {
            return None;
        },
    };
    let word = trim(kind);
    if parse_core_type_word(word).is_some() || strip_suffix(word, " permanents").is_some()
        || same_text(word, "snow permanents") {
        return None;
    }
    Some((n, trim(trim_end_matches(word, 's')).to_owned()))
}

/// The power and the toughness that "you control a .../... creature" asks for.
pub open spec fn creature_pt(s: Seq<char>) -> Option<(i32, i32)> {
    match between(s, "you control a "@, " creature"@) {
        Some(stats) => match parted(stats, "/"@) {
            Some((a, b)) => match (signed_in(a), signed_in(b)) {
                (Some(p), Some(t)) => Some((p as i32, t as i32)),
                _ => None,
            },
            None => None,
        },
        None => None,
    }
}

fn parse_creature_pt_condition(s: &str) -> (r: Option<(i32, i32)>)
    ensures
        r == creature_pt(s@),
{
    let stats = match middle(s, "you control a ", " creature") {
        Some(m) => m,
        None => {
            return None;
        },
    };
    match split_once(stats, "/") {
        Some((a, b)) => match (parse_signed(a), parse_signed(b)) {
            (Some(p), Some(t)) => Some((p, t)),
            _ => None,
        },
        None => None,
    }
}

/// The number of permanents of a color or of a card type that "you control ... or more ..." asks
/// for.
pub open spec fn color_or_type_count(s: Seq<char>) -> Option<ConditionModel> {
    match after_prefix(s, "you control "@) {
        Some(rest) => match parted(rest, " or more "@) {
            Some((number, kind)) => match (
                count_word(number),
                color_named(singular(without_endings(kind, " permanents"@))),
                core_type_named(singular(kind)),
            ) {
                (Some(n), Some(color), _) => Some(
                    ConditionModel::YouControlAtLeast {
                        what: WantedModel::Color { color },
                        count: n as usize,
                    },
                ),
                (Some(n), None, Some(core_type)) => Some(
                    ConditionModel::YouControlAtLeast {
                        what: WantedModel::Core { core_type },
                        count: n as usize,
                    },
                ),
                _ => None,
            },
            None => None,
        },
        None => None,
    }
}

fn parse_color_or_type_count(s: &str) -> (r: Option<RestrictionCondition>)
    ensures
        opt_view(r) == color_or_type_count(s@),
{
    let rest = match strip_prefix(s, "you control ") {
        Some(r) => r,
        None => {
            return None;
        },
    };
    let (number, kind) = match split_once(rest, " or more ") {
        Some(p) => p,
        None => {
            return None;
        },
    };
    let count: usize = match parse_count_word(number) {
        Some(n) => n,
        None => {
            return None;
        },
    };
    if let Some(color) = parse_color_word(trim_end_text(kind, " permanents")) {
        return Some(RestrictionCondition::YouControlAtLeast { what: Wanted::Color { color }, count });
    }
    if let Some(core_type) = parse_core_type_word(kind) {
        return Some(
            RestrictionCondition::YouControlAtLeast { what: Wanted::Core { core_type }, count },
        );
    }
    None
}

/// The condition of a kind of permanent of which one is enough.
pub open spec fn one(what: WantedModel) -> Option<ConditionModel> {
    Some(ConditionModel::YouControlAtLeast { what, count: 1 })
}

/// The conditions on what a player controls that are written out in full.
pub open spec fn fixed_control_condition(s: Seq<char>) -> Option<ConditionModel> {
    if s == "you control a creature with flying"@ {
        one(WantedModel::CreatureWithKeyword { kind: KeywordKind::Flying })
    } else if s == "you control a legendary creature"@ {
        one(WantedModel::LegendaryCreature)
    } else if s == "you control another colorless creature"@ {
        one(WantedModel::AnotherColorlessCreature)
    } else if s == "you control fewer creatures than each opponent"@ {
        Some(
            ConditionModel::QuantityVsEachOpponent {
                lhs: PlayerQuantity::ControlledCreatureCount,
                comparator: Comparator::LT,
                rhs: PlayerQuantity::ControlledCreatureCount,
            },
        )
    } else if s == "you control no creatures"@ {
        Some(ConditionModel::YouControlNoCreatures)
    } else {
        match after_you_control_a(s) {
            Some(rest) => match before_suffix(rest, " planeswalker"@) {
                Some(name) => one(
                    WantedModel::NamedPlaneswalker { name: capitalized(name, true, false) },
                ),
                None => match core_type_named(singular(rest)) {
                    Some(core_type) => one(WantedModel::Core { core_type }),
                    None => one(WantedModel::Subtype { subtype: rest }),
                },
            },
            None => None,
        }
    }
}

fn parse_fixed_control_condition(s: &str) -> (r: Option<RestrictionCondition>)
    ensures
        opt_view(r) == fixed_control_condition(s@),
{
    if same_text(s, "you control a creature with flying") {
        Some(
            RestrictionCondition::YouControlAtLeast {
                what: Wanted::CreatureWithKeyword { kind: KeywordKind::Flying },
                count: 1,
            },
        )
    } else if same_text(s, "you control a legendary creature") {
        Some(RestrictionCondition::YouControlAtLeast { what: Wanted::LegendaryCreature, count: 1 })
    } else if same_text(s, "you control another colorless creature") {
        Some(
            RestrictionCondition::YouControlAtLeast {
                what: Wanted::AnotherColorlessCreature,
                count: 1,
            },
        )
    } else if same_text(s, "you control fewer creatures than each opponent") {
        Some(
            RestrictionCondition::QuantityVsEachOpponent {
                lhs: PlayerQuantity::ControlledCreatureCount,
                comparator: Comparator::LT,
                rhs: PlayerQuantity::ControlledCreatureCount,
            },
        )
    } else if same_text(s, "you control no creatures") {
        Some(RestrictionCondition::YouControlNoCreatures)
    } else {
        match rest_after_you_control_a(s) {
            Some(rest) => {
                if let Some(name) = strip_suffix(rest, " planeswalker") {
                    return Some(
                        RestrictionCondition::YouControlAtLeast {
                            what: Wanted::NamedPlaneswalker { name: capitalize_words(name) },
                            count: 1,
                        },
                    );
                }
                if let Some(core_type) = parse_core_type_word(rest) {
                    return Some(
                        RestrictionCondition::YouControlAtLeast {
                            what: Wanted::Core { core_type },
                            count: 1,
                        },
                    );
                }
                Some(
                    RestrictionCondition::YouControlAtLeast {
                        what: Wanted::Subtype { subtype: rest.to_owned() },
                        count: 1,
                    },
                )
            },
            None => None,
        }
    }
}

/// The condition on what a player controls that a text states.
pub open spec fn control_condition(s: Seq<char>) -> Option<ConditionModel> {
    if s == "you control a desert or there is a desert card in your graveyard"@ {
        Some(ConditionModel::YouControlSubtypeOrGraveyardCardSubtype { subtype: "desert"@ })
    } else if land_subtypes(s) is Some {
        Some(ConditionModel::YouControlLandSubtypeAny { subtypes: land_subtypes(s)->0 })
    } else if subtype_count(s) is Some {
        let (n, subtype) = subtype_count(s)->0;
        Some(
            ConditionModel::YouControlAtLeast {
                what: WantedModel::Subtype { subtype },
                count: n as usize,
            },
        )
    } else if threshold(s, "creatures you control have total power "@, " or greater"@) is Some {
        Some(
            ConditionModel::CreaturesYouControlTotalPowerAtLeast {
                minimum: as_signed(
                    threshold(s, "creatures you control have total power "@, " or greater"@)->0,
                ),
            },
        )
    } else if threshold(s, "you control "@, " or more creatures with different powers"@) is Some {
        Some(
            ConditionModel::YouControlDifferentPowerCreatureCountAtLeast {
                count: threshold(
                    s,
                    "you control "@,
                    " or more creatures with different powers"@,
                )->0 as usize,
            },
        )
    } else if threshold(s, "you control "@, " or more lands with the same name"@) is Some {
        Some(
            ConditionModel::YouControlLandsWithSameNameAtLeast {
                count: threshold(s, "you control "@, " or more lands with the same name"@)->0
                    as usize,
            },
        )
    } else if threshold(s, "you control "@, " or more snow permanents"@) is Some {
        Some(
            ConditionModel::YouControlAtLeast {
                what: WantedModel::SnowPermanent,
                count: threshold(s, "you control "@, " or more snow permanents"@)->0 as usize,
            },
        )
    } else if color_or_type_count(s) is Some {
        color_or_type_count(s)
    } else if threshold(s, "you control a creature with power "@, " or greater"@) is Some {
        one(
            WantedModel::CreatureWithPowerAtLeast {
                minimum: as_signed(
                    threshold(s, "you control a creature with power "@, " or greater"@)->0,
                ),
            },
        )
    } else if creature_pt(s) is Some {
        one(
            WantedModel::CreatureWithPt {
                power: (creature_pt(s)->0).0,
                toughness: (creature_pt(s)->0).1,
            },
        )
    } else {
        fixed_control_condition(s)
    }
}

fn parse_you_control_condition(s: &str) -> (r: Option<RestrictionCondition>)
    ensures
        opt_view(r) == control_condition(s@),
{
    if same_text(s, "you control a desert or there is a desert card in your graveyard") {
        return Some(
            RestrictionCondition::YouControlSubtypeOrGraveyardCardSubtype {
                subtype: "desert".to_owned(),
            },
        );
    }
    if let Some(subtypes) = parse_you_control_land_subtypes(s) {
        return Some(RestrictionCondition::YouControlLandSubtypeAny { subtypes });
    }
    if let Some((count, subtype)) = parse_you_control_subtype_count(s) {
        return Some(
            RestrictionCondition::YouControlAtLeast { what: Wanted::Subtype { subtype }, count },
        );
    }
    if let Some(n) = parse_numeric_threshold(
        s,
        "creatures you control have total power ",
        " or greater",
    ) {
        return Some(
            RestrictionCondition::CreaturesYouControlTotalPowerAtLeast { minimum: to_signed(n) },
        );
    }
    if let Some(count) = parse_numeric_threshold(
        s,
        "you control ",
        " or more creatures with different powers",
    ) {
        return Some(
            RestrictionCondition::YouControlDifferentPowerCreatureCountAtLeast { count },
        );
    }
    if let Some(count) = parse_numeric_threshold(
        s,
        "you control ",
        " or more lands with the same name",
    ) {
        return Some(RestrictionCondition::YouControlLandsWithSameNameAtLeast { count });
    }
    if let Some(count) = parse_numeric_threshold(s, "you control ", " or more snow permanents") {
        return Some(
            RestrictionCondition::YouControlAtLeast { what: Wanted::SnowPermanent, count },
        );
    }
    let found = parse_color_or_type_count(s);
    if found.is_some() {
        return found;
    }
    if let Some(n) = parse_numeric_threshold(
        s,
        "you control a creature with power ",
        " or greater",
    ) {
        return Some(
            RestrictionCondition::YouControlAtLeast {
                what: Wanted::CreatureWithPowerAtLeast { minimum: to_signed(n) },
                count: 1,
            },
        );
    }
    if let Some((power, toughness)) = parse_creature_pt_condition(s) {
        return Some(
            RestrictionCondition::YouControlAtLeast {
                what: Wanted::CreatureWithPt { power, toughness },
                count: 1,
            },
        );
    }
    parse_fixed_control_condition(s)
}

/// The condition on a graveyard that a text states.
pub open spec fn graveyard_condition(s: Seq<char>) -> Option<ConditionModel> {
    if threshold(s, "there are "@, " or more cards in your graveyard"@) is Some {
        Some(
            ConditionModel::GraveyardCardCountAtLeast {
                count: threshold(s, "there are "@, " or more cards in your graveyard"@)->0 as usize,
            },
        )
    } else if threshold(s, "there are "@, " or more card types among cards in your graveyard"@)
        is Some {
        Some(
            ConditionModel::GraveyardCardTypeCountAtLeast {
                count: threshold(
                    s,
                    "there are "@,
                    " or more card types among cards in your graveyard"@,
                )->0 as usize,
            },
        )
    } else if between(s, "there is an "@, " card in your graveyard"@) is Some {
        Some(
            ConditionModel::GraveyardSubtypeCardCountAtLeast {
                subtype: between(s, "there is an "@, " card in your graveyard"@)->0,
                count: 1,
            },
        )
    } else if between(s, "two or more "@, " cards are in your graveyard"@) is Some {
        Some(
            ConditionModel::GraveyardSubtypeCardCountAtLeast {
                subtype: without_last(
                    between(s, "two or more "@, " cards are in your graveyard"@)->0,
                    's',
                ),
                count: 2,
            },
        )
    } else {
        None
    }
}

fn parse_graveyard_condition(s: &str) -> (r: Option<RestrictionCondition>)
    ensures
        opt_view(r) == graveyard_condition(s@),
{
    if let Some(count) = parse_numeric_threshold(
        s,
        "there are ",
        " or more cards in your graveyard",
    ) {
        return Some(RestrictionCondition::GraveyardCardCountAtLeast { count });
    }
    if let Some(count) = parse_numeric_threshold(
        s,
        "there are ",
        " or more card types among cards in your graveyard",
    ) {
        return Some(RestrictionCondition::GraveyardCardTypeCountAtLeast { count });
    }
    if let Some(subtype) = middle(s, "there is an ", " card in your graveyard") {
        return Some(
            RestrictionCondition::GraveyardSubtypeCardCountAtLeast {
                subtype: subtype.to_owned(),
                count: 1,
            },
        );
    }
    if let Some(subtype) = middle(s, "two or more ", " cards are in your graveyard") {
        return Some(
            RestrictionCondition::GraveyardSubtypeCardCountAtLeast {
                subtype: trim_end_matches(subtype, 's').to_owned(),
                count: 2,
            },
        );
    }
    None
}

/// The condition on a hand that a text states.
pub open spec fn hand_condition(s: Seq<char>) -> Option<ConditionModel> {
    if s == "you have no cards in hand"@ {
        Some(ConditionModel::HandSizeExact { count: 0 })
    } else if s == "you have more cards in hand than each opponent"@ {
        Some(
            ConditionModel::QuantityVsEachOpponent {
                lhs: PlayerQuantity::HandSize,
                comparator: Comparator::GT,
                rhs: PlayerQuantity::HandSize,
            },
        )
    } else if s == "you have exactly zero or seven cards in hand"@ {
        Some(ConditionModel::HandSizeOneOf { counts: seq![0usize, 7usize] })
    } else {
        match threshold(s, "you have exactly "@, " cards in hand"@) {
            Some(n) => Some(ConditionModel::HandSizeExact { count: n as usize }),
            None => None,
        }
    }
}

fn parse_hand_condition(s: &str) -> (r: Option<RestrictionCondition>)
    ensures
        opt_view(r) == hand_condition(s@),
{
    if same_text(s, "you have no cards in hand") {
        Some(RestrictionCondition::HandSizeExact { count: 0 })
    } else if same_text(s, "you have more cards in hand than each opponent") {
        Some(
            RestrictionCondition::QuantityVsEachOpponent {
                lhs: PlayerQuantity::HandSize,
                comparator: Comparator::GT,
                rhs: PlayerQuantity::HandSize,
            },
        )
    } else if same_text(s, "you have exactly zero or seven cards in hand") {
        let mut counts: Vec<usize> = Vec::new();
        counts.push(0);
        counts.push(7);
        assert(counts@ =~= seq![0usize, 7usize]);
        Some(RestrictionCondition::HandSizeOneOf { counts })
    } else {
        match parse_numeric_threshold(s, "you have exactly ", " cards in hand") {
            Some(count) => Some(RestrictionCondition::HandSizeExact { count }),
            None => None,
        }
    }
}

/// The kind of counter and the number that "... or more ... counters" asks for.
pub open spec fn counters_asked(s: Seq<char>) -> Option<(CounterKind, u32)> {
    let this = match after_prefix(s, "this artifact has "@) {
        Some(r) => Some(r),
        None => after_prefix(s, "this enchantment has "@),
    };
    let on_it = match this {
        Some(r) => before_suffix(r, " counters on it"@),
        None => None,
    };
    let text = match on_it {
        Some(t) => Some(t),
        None => between(s, "there are "@, " counters on this artifact"@),
    };
    match text {
        Some(t) => match parted(t, " or more "@) {
            Some((number, name)) => match count_word(number) {
                Some(n) => Some((counter_named(name), n as u32)),
                None => None,
            },
            None => None,
        },
        None => None,
    }
}

fn parse_counter_requirement(s: &str) -> (r: Option<(CounterType, u32)>)
    ensures
        match counters_asked(s@) {
            Some((k, n)) => r is Some && (r->0).0@ == k && (r->0).1 == n,
            None => r is None,
        },
{
    let this = match strip_prefix(s, "this artifact has ") {
        Some(r) => Some(r),
        None => strip_prefix(s, "this enchantment has "),
    };
    let on_it = match this {
        Some(r) => strip_suffix(r, " counters on it"),
        None => None,
    };
    let text = match on_it {
        Some(t) => Some(t),
        None => middle(s, "there are ", " counters on this artifact"),
    };
    match text {
        Some(t) => match split_once(t, " or more ") {
            Some((number, name)) => match parse_count_word(number) {
                Some(n) => Some((parse_counter_type(name), n as u32)),
                None => None,
            },
            None => None,
        },
        None => None,
    }
}

/// The condition on a source that a text states.
pub open spec fn source_condition(s: Seq<char>) -> Option<ConditionModel> {
    if s == "from your graveyard"@ || s == "this card is in your graveyard"@ {
        Some(ConditionModel::SourceInZone { zone: Zone::Graveyard })
    } else if s == "this card is suspended"@ {
        Some(ConditionModel::SourceInZone { zone: Zone::Exile })
    } else if s == "this creature is attacking"@ {
        Some(ConditionModel::SourceIsAttacking)
    } else if s == "this creature is blocked"@ {
        Some(ConditionModel::SourceIsBlocked)
    } else if s == "this creature is attacking or blocking"@ || s
        == "this creature is attacking or blocking and only once each turn"@ {
        Some(ConditionModel::SourceIsAttackingOrBlocking)
    } else if s == "this permanent is a creature"@ {
        Some(ConditionModel::SourceIsCreature)
    } else if s == "this creature entered this turn"@ || s == "this land entered this turn"@ {
        Some(ConditionModel::SourceEnteredThisTurn)
    } else if s == "enchanted land is untapped"@ {
        Some(ConditionModel::SourceUntappedAttachedTo { required_type: CoreType::Land })
    } else if s == "enchanted creature is untapped"@ {
        Some(ConditionModel::SourceUntappedAttachedTo { required_type: CoreType::Creature })
    } else if s == "this creature doesn't have defender"@ {
        Some(ConditionModel::SourceLacksKeyword { kind: KeywordKind::Defender })
    } else if s == "this creature is blue"@ {
        Some(ConditionModel::SourceIsColor { color: ManaColor::Blue })
    } else {
        match threshold(s, "this creature's power is "@, " or greater"@) {
            Some(n) => Some(ConditionModel::SourcePowerAtLeast { minimum: as_signed(n) }),
            None => match counters_asked(s) {
                Some((counter_type, count)) => Some(
                    ConditionModel::SourceHasCounterAtLeast { counter_type, count },
                ),
                None => match between(s, "there are no "@, " counters on this artifact"@) {
                    Some(name) => Some(
                        ConditionModel::SourceHasNoCounter { counter_type: counter_named(name) },
                    ),
                    None => None,
                },
            },
        }
    }
}

fn parse_source_condition(s: &str) -> (r: Option<RestrictionCondition>)
    ensures
        opt_view(r) == source_condition(s@),
{
    if same_text(s, "from your graveyard") || same_text(s, "this card is in your graveyard") {
        Some(RestrictionCondition::SourceInZone { zone: Zone::Graveyard })
    } else if same_text(s, "this card is suspended") {
        Some(RestrictionCondition::SourceInZone { zone: Zone::Exile })
    } else if same_text(s, "this creature is attacking") {
        Some(RestrictionCondition::SourceIsAttacking)
    } else if same_text(s, "this creature is blocked") {
        Some(RestrictionCondition::SourceIsBlocked)
    } else if same_text(s, "this creature is attacking or blocking") || same_text(
        s,
        "this creature is attacking or blocking and only once each turn",
    ) {
        Some(RestrictionCondition::SourceIsAttackingOrBlocking)
    } else if same_text(s, "this permanent is a creature") {
        Some(RestrictionCondition::SourceIsCreature)
    } else if same_text(s, "this creature entered this turn") || same_text(
        s,
        "this land entered this turn",
    ) {
        Some(RestrictionCondition::SourceEnteredThisTurn)
    } else if same_text(s, "enchanted land is untapped") {
        Some(RestrictionCondition::SourceUntappedAttachedTo { required_type: CoreType::Land })
    } else if same_text(s, "enchanted creature is untapped") {
        Some(RestrictionCondition::SourceUntappedAttachedTo { required_type: CoreType::Creature })
    } else if same_text(s, "this creature doesn't have defender") {
        Some(RestrictionCondition::SourceLacksKeyword { kind: KeywordKind::Defender })
    } else if same_text(s, "this creature is blue") {
        Some(RestrictionCondition::SourceIsColor { color: ManaColor::Blue })
    } else {
        if let Some(n) = parse_numeric_threshold(s, "this creature's power is ", " or greater") {
            return Some(RestrictionCondition::SourcePowerAtLeast { minimum: to_signed(n) });
        }
        if let Some((counter_type, count)) = parse_counter_requirement(s) {
            return Some(RestrictionCondition::SourceHasCounterAtLeast { counter_type, count });
        }
        match middle(s, "there are no ", " counters on this artifact") {
            Some(name) => Some(
                RestrictionCondition::SourceHasNoCounter { counter_type: parse_counter_type(name) },
            ),
            None => None,
        }
    }
}

/// The number of attackers that "you attacked with ... creatures this turn" asks for, whether or
/// not "or more" is added.
pub open spec fn attackers_asked(s: Seq<char>) -> Option<nat> {
    match threshold(s, "you attacked with "@, " or more creatures this turn"@) {
        Some(n) => Some(n),
        None => threshold(s, "you attacked with "@, " creatures this turn"@),
    }
}

/// The condition on what happened that a text states.
pub open spec fn history_condition(s: Seq<char>) -> Option<ConditionModel> {
    if s == "this spell is the first spell you've cast this game"@ {
        Some(ConditionModel::FirstSpellThisGame)
    } else if s == "an opponent searched their library this turn"@ {
        Some(ConditionModel::OpponentSearchedLibraryThisTurn)
    } else if s == "you've been attacked this step"@ {
        Some(ConditionModel::BeenAttackedThisStep)
    } else if s == "an opponent has three or more poison counters"@ {
        Some(ConditionModel::OpponentPoisonAtLeast { count: 3 })
    } else if s == "you attacked this turn"@ {
        Some(ConditionModel::YouAttackedThisTurn)
    } else if s == "you gained life this turn"@ {
        Some(ConditionModel::YouGainedLifeThisTurn)
    } else if s == "you created a token this turn"@ {
        Some(ConditionModel::YouCreatedTokenThisTurn)
    } else if s == "a creature died this turn"@ {
        Some(ConditionModel::CreatureDiedThisTurn)
    } else if s == "you've cast a noncreature spell this turn"@ {
        Some(ConditionModel::YouCastNoncreatureSpellThisTurn)
    } else if s == "you've discarded a card this turn"@ {
        Some(ConditionModel::YouDiscardedCardThisTurn)
    } else if s == "you've sacrificed an artifact this turn"@ {
        Some(ConditionModel::YouSacrificedArtifactThisTurn)
    } else if s == "you had a creature enter the battlefield under your control this turn"@ {
        Some(ConditionModel::YouHadCreatureEnterThisTurn)
    } else if s
        == "you had an angel or berserker enter the battlefield under your control this turn"@ {
        Some(ConditionModel::YouHadAngelOrBerserkerEnterThisTurn)
    } else if s
        == "this artifact or another artifact entered the battlefield under your control this turn"@ {
        Some(ConditionModel::YouHadArtifactEnterThisTurn)
    } else {
        match attackers_asked(s) {
            Some(n) => Some(ConditionModel::YouAttackedWithAtLeast { count: n as u32 }),
            None => match threshold(s, "you've cast "@, " or more spells this turn"@) {
                Some(n) => Some(ConditionModel::YouCastSpellCountAtLeast { count: n as u32 }),
                None => match threshold(s, ""@, " or more cards left your graveyard this turn"@) {
                    Some(n) => Some(
                        ConditionModel::CardsLeftYourGraveyardThisTurnAtLeast { count: n as u32 },
                    ),
                    None => None,
                },
            },
        }
    }
}

fn parse_history_condition(s: &str) -> (r: Option<RestrictionCondition>)
    ensures
        opt_view(r) == history_condition(s@),
{
    if same_text(s, "this spell is the first spell you've cast this game") {
        Some(RestrictionCondition::FirstSpellThisGame)
    } else if same_text(s, "an opponent searched their library this turn") {
        Some(RestrictionCondition::OpponentSearchedLibraryThisTurn)
    } else if same_text(s, "you've been attacked this step") {
        Some(RestrictionCondition::BeenAttackedThisStep)
    } else if same_text(s, "an opponent has three or more poison counters") {
        Some(RestrictionCondition::OpponentPoisonAtLeast { count: 3 })
    } else if same_text(s, "you attacked this turn") {
        Some(RestrictionCondition::YouAttackedThisTurn)
    } else if same_text(s, "you gained life this turn") {
        Some(RestrictionCondition::YouGainedLifeThisTurn)
    } else if same_text(s, "you created a token this turn") {
        Some(RestrictionCondition::YouCreatedTokenThisTurn)
    } else if same_text(s, "a creature died this turn") {
        Some(RestrictionCondition::CreatureDiedThisTurn)
    } else if same_text(s, "you've cast a noncreature spell this turn") {
        Some(RestrictionCondition::YouCastNoncreatureSpellThisTurn)
    } else if same_text(s, "you've discarded a card this turn") {
        Some(RestrictionCondition::YouDiscardedCardThisTurn)
    } else if same_text(s, "you've sacrificed an artifact this turn") {
        Some(RestrictionCondition::YouSacrificedArtifactThisTurn)
    } else if same_text(
        s,
        "you had a creature enter the battlefield under your control this turn",
    ) {
        Some(RestrictionCondition::YouHadCreatureEnterThisTurn)
    } else if same_text(
        s,
        "you had an angel or berserker enter the battlefield under your control this turn",
    ) {
        Some(RestrictionCondition::YouHadAngelOrBerserkerEnterThisTurn)
    } else if same_text(
        s,
        "this artifact or another artifact entered the battlefield under your control this turn",
    ) {
        Some(RestrictionCondition::YouHadArtifactEnterThisTurn)
    } else {
        if let Some(n) = parse_numeric_threshold(
            s,
            "you attacked with ",
            " or more creatures this turn",
        ) {
            return Some(RestrictionCondition::YouAttackedWithAtLeast { count: n as u32 });
        }
        if let Some(n) = parse_numeric_threshold(s, "you attacked with ", " creatures this turn") {
            return Some(RestrictionCondition::YouAttackedWithAtLeast { count: n as u32 });
        }
        if let Some(n) = parse_numeric_threshold(s, "you've cast ", " or more spells this turn") {
            return Some(RestrictionCondition::YouCastSpellCountAtLeast { count: n as u32 });
        }
        match parse_numeric_threshold(s, "", " or more cards left your graveyard this turn") {
            Some(n) => Some(
                RestrictionCondition::CardsLeftYourGraveyardThisTurnAtLeast { count: n as u32 },
            ),
            None => None,
        }
    }
}

/// The condition that a text in small letters states, if it states one.
pub open spec fn condition_in(s: Seq<char>) -> Option<ConditionModel> {
    match source_condition(s) {
        Some(c) => Some(c),
        None => match control_condition(s) {
            Some(c) => Some(c),
            None => match graveyard_condition(s) {
                Some(c) => Some(c),
                None => match hand_condition(s) {
                    Some(c) => Some(c),
                    None => history_condition(s),
                },
            },
        },
    }
}

/// The condition that a text in small letters states, if it states one.
pub fn parse_condition_text(s: &str) -> (r: Option<RestrictionCondition>)
    ensures
        opt_view(r) == condition_in(s@),
{
    let found = parse_source_condition(s);
    if found.is_some() {
        return found;
    }
    let found = parse_you_control_condition(s);
    if found.is_some() {
        return found;
    }
    let found = parse_graveyard_condition(s);
    if found.is_some() {
        return found;
    }
    let found = parse_hand_condition(s);
    if found.is_some() {
        return found;
    }
    parse_history_condition(s)
}

/// Whether what a text in small letters states holds; a text that states no condition holds.
pub open spec fn text_holds(g: Game, p: PlayerId, source: ObjectId, s: Seq<char>) -> bool {
    match condition_in(s) {
        Some(c) => holds_for(g, p, source, c),
        None => true,
    }
}

/// Whether what a text in small letters states holds; a text that states no condition holds.
pub fn evaluate_lowered_condition(state: &GameState, player: PlayerId, source_id: ObjectId, s: &str) -> (r:
    bool)
    ensures
        r == text_holds(state@, player, source_id, s@),
{
    match parse_condition_text(s) {
        Some(c) => evaluate_condition(state, player, source_id, &c),
        None => true,
    }
}

/// A text of a condition as it is read: without white space around it, without full stops at its
/// end, in small letters.
pub open spec fn normalized(s: Seq<char>) -> Seq<char> {
    lowercase(without_last(trimmed(s), '.'))
}

/// A text of ASCII characters as it is read.
pub open spec fn plain(s: Seq<char>) -> Seq<char> {
    small_letters(without_last(trimmed(s), '.'))
}

proof fn lemma_front_is_ascii(s: Seq<char>)
    requires
        is_ascii_text(s),
    ensures
        is_ascii_text(trimmed_front(s)),
    decreases s.len(),
{
    if s.len() > 0 && is_blank_char(s[0]) {
        lemma_front_is_ascii(s.skip(1));
    }
}

proof fn lemma_back_is_ascii(s: Seq<char>)
    requires
        is_ascii_text(s),
    ensures
        is_ascii_text(trimmed_back(s)),
    decreases s.len(),
{
    if s.len() > 0 && is_blank_char(s.last()) {
        lemma_back_is_ascii(s.drop_last());
    }
}

proof fn lemma_end_is_ascii(s: Seq<char>, c: char)
    requires
        is_ascii_text(s),
    ensures
        is_ascii_text(without_last(s, c)),
    decreases s.len(),
{
    if s.len() > 0 && s.last() == c {
        lemma_end_is_ascii(s.drop_last(), c);
    }
}

/// Whether the condition that a text states holds for a player and a source. A text that states
/// no known condition holds.
pub fn evaluate_condition_text(
    state: &GameState,
    player: PlayerId,
    source_id: ObjectId,
    text: &str,
) -> (r: bool)
    ensures
        r == text_holds(state@, player, source_id, normalized(text@)),
        is_ascii_text(text@) ==> r == text_holds(state@, player, source_id, plain(text@)),
{
    let lower = to_lowercase(trim_end_matches(trim(text), '.'));
    proof {
        if is_ascii_text(text@) {
            lemma_front_is_ascii(text@);
            lemma_back_is_ascii(trimmed_front(text@));
            lemma_end_is_ascii(trimmed(text@), '.');
        }
    }
    evaluate_lowered_condition(state, player, source_id, lower.as_str())
}

// ---------------------------------------------------------------------------
// Laws
// ---------------------------------------------------------------------------

/// A text with ASCII small letters as the capitals.
pub open spec fn capital_letters(s: Seq<char>) -> Seq<char> {
    Seq::new(s.len(), |i: int| ascii_capital(s[i]))
}

proof fn lemma_end_of_capitals(s: Seq<char>)
    ensures
        without_last(capital_letters(s), '.') == capital_letters(without_last(s, '.')),
    decreases s.len(),
{
    if s.len() > 0 && s.last() == '.' {
        lemma_end_of_capitals(s.drop_last());
        assert(capital_letters(s).drop_last() =~= capital_letters(s.drop_last()));
    } else if s.len() > 0 {
        assert(ascii_capital(s.last()) != '.');
    }
}

/// Neither the case of letters nor white space around a text nor a full stop at its end matters for
/// how it is read.
pub proof fn case_spaces_and_full_stops_do_not_matter(s: Seq<char>)
    requires
        is_ascii_text(s),
        trimmed(s) == s,
    ensures
        plain(seq![' '] + capital_letters(s) + seq!['.']) == plain(s),
{
    let c = capital_letters(s);
    let t = seq![' '] + c + seq!['.'];
    let u = c + seq!['.'];
    assert(is_blank_char(' '));
    assert(!is_blank_char('.'));
    assert(t.skip(1) =~= u);
    assert(trimmed_front(t) == trimmed_front(u));
    if s.len() > 0 {
        lemma_trimmed_begins(s);
        assert(u[0] == ascii_capital(s[0]));
        assert(!is_blank_char(u[0]));
    } else {
        assert(u[0] == '.');
    }
    assert(trimmed_front(u) == u);
    assert(u.last() == '.');
    assert(trimmed(t) == u);
    assert(u.drop_last() =~= c);
    assert(without_last(u, '.') == without_last(c, '.'));
    lemma_end_of_capitals(s);
    assert(small_letters(capital_letters(without_last(s, '.'))) =~= small_letters(
        without_last(s, '.'),
    ));
}

proof fn lemma_trimmed_front_begins(s: Seq<char>)
    ensures
        trimmed_front(s).len() <= s.len(),
        trimmed_front(s).len() > 0 ==> !is_blank_char(trimmed_front(s)[0]),
    decreases s.len(),
{
    if s.len() > 0 && is_blank_char(s[0]) {
        lemma_trimmed_front_begins(s.skip(1));
    }
}

proof fn lemma_trimmed_back_begins(s: Seq<char>)
    ensures
        trimmed_back(s).len() <= s.len(),
        trimmed_back(s).len() > 0 ==> trimmed_back(s)[0] == s[0],
    decreases s.len(),
{
    if s.len() > 0 && is_blank_char(s.last()) {
        lemma_trimmed_back_begins(s.drop_last());
    }
}

proof fn lemma_trimmed_begins(s: Seq<char>)
    requires
        trimmed(s) == s,
        s.len() > 0,
    ensures
        !is_blank_char(s[0]),
{
    lemma_trimmed_front_begins(s);
    lemma_trimmed_back_begins(trimmed_front(s));
}

/// A text that begins with a "y" says nothing of a source.
proof fn lemma_not_of_a_source(s: Seq<char>)
    requires
        s.len() > 0,
        s[0] == 'y',
    ensures
        source_condition(s) is None,
{
    assert forall|p: Seq<char>| p.len() > 0 && p[0] != 'y' implies (#[trigger] after_prefix(s, p))
        is None by {
        if p.len() <= s.len() && s.take(p.len() as int) == p {
            assert(s.take(p.len() as int)[0] == s[0]);
        }
    }
    assert("from your graveyard"@[0] != 'y' && "from your graveyard"@.len() > 0) by {
        reveal_strlit("from your graveyard");
    }
    assert("this card is in your graveyard"@[0] != 'y' && "this card is in your graveyard"@.len() > 0) by {
        reveal_strlit("this card is in your graveyard");
    }
    assert("this card is suspended"@[0] != 'y' && "this card is suspended"@.len() > 0) by {
        reveal_strlit("this card is suspended");
    }
    assert("this creature is attacking"@[0] != 'y' && "this creature is attacking"@.len() > 0) by {
        reveal_strlit("this creature is attacking");
    }
    assert("this creature is blocked"@[0] != 'y' && "this creature is blocked"@.len() > 0) by {
        reveal_strlit("this creature is blocked");
    }
    assert("this creature is attacking or blocking"@[0] != 'y' && "this creature is attacking or blocking"@.len() > 0) by {
        reveal_strlit("this creature is attacking or blocking");
    }
    assert("this creature is attacking or blocking and only once each turn"@[0] != 'y' && "this creature is attacking or blocking and only once each turn"@.len() > 0) by {
        reveal_strlit("this creature is attacking or blocking and only once each turn");
    }
    assert("this permanent is a creature"@[0] != 'y' && "this permanent is a creature"@.len() > 0) by {
        reveal_strlit("this permanent is a creature");
    }
    assert("this creature entered this turn"@[0] != 'y' && "this creature entered this turn"@.len() > 0) by {
        reveal_strlit("this creature entered this turn");
    }
    assert("this land entered this turn"@[0] != 'y' && "this land entered this turn"@.len() > 0) by {
        reveal_strlit("this land entered this turn");
    }
    assert("enchanted land is untapped"@[0] != 'y' && "enchanted land is untapped"@.len() > 0) by {
        reveal_strlit("enchanted land is untapped");
    }
    assert("enchanted creature is untapped"@[0] != 'y' && "enchanted creature is untapped"@.len() > 0) by {
        reveal_strlit("enchanted creature is untapped");
    }
    assert("this creature doesn't have defender"@[0] != 'y' && "this creature doesn't have defender"@.len() > 0) by {
        reveal_strlit("this creature doesn't have defender");
    }
    assert("this creature is blue"@[0] != 'y' && "this creature is blue"@.len() > 0) by {
        reveal_strlit("this creature is blue");
    }
    assert("this creature's power is "@[0] != 'y' && "this creature's power is "@.len() > 0) by {
        reveal_strlit("this creature's power is ");
    }
    assert("this artifact has "@[0] != 'y' && "this artifact has "@.len() > 0) by {
        reveal_strlit("this artifact has ");
    }
    assert("this enchantment has "@[0] != 'y' && "this enchantment has "@.len() > 0) by {
        reveal_strlit("this enchantment has ");
    }
    assert("there are "@[0] != 'y' && "there are "@.len() > 0) by {
        reveal_strlit("there are ");
    }
    assert("there are no "@[0] != 'y' && "there are no "@.len() > 0) by {
        reveal_strlit("there are no ");
    }
}

/// A text without a space that is followed by an "o" does not hold "or".
proof fn lemma_no_or(s: Seq<char>, p: Seq<char>)
    requires
        p.len() >= 2,
        p[0] == ' ',
        p[1] == 'o',
        forall|i: int| 0 <= i < s.len() - 1 && #[trigger] s[i] == ' ' ==> s[i + 1] != 'o',
    ensures
        place_of_text(s, p, 0) is None,
{
    lemma_place(s, p, 0);
    if let Some(i) = place_of_text(s, p, 0) {
        let t = s.subrange(i, i + p.len());
        assert(t[0] == s[i]);
        assert(t[1] == s[i + 1]);
    }
}

proof fn lemma_one_word(s: Seq<char>)
    requires
        forall|i: int| 0 <= i < s.len() ==> !is_blank_char(#[trigger] s[i]),
    ensures
        capitalized(s, false, true) == s,
    decreases s.len(),
{
    if s.len() > 0 {
        lemma_one_word(s.skip(1));
        assert(seq![s[0]] + s.skip(1) =~= s);
    }
}

/// The lengths and the beginnings of what a condition on permanents is written with.
proof fn lemma_control_phrases()
    ensures
        "you control a desert or there is a desert card in your graveyard"@.len() == 64,
        " or greater"@.len() == 11,
        " or more creatures with different powers"@.len() == 40,
        " or more lands with the same name"@.len() == 33,
        " or more snow permanents"@.len() == 24,
        "you control a creature with power "@.len() == 34,
        " creature"@.len() == 9,
        "you control a creature with flying"@.len() == 34,
        "you control a legendary creature"@.len() == 32,
        "you control another colorless creature"@.len() == 38,
        "you control fewer creatures than each opponent"@.len() == 46,
        "you control no creatures"@.len() == 24,
        " planeswalker"@.len() == 13,
        " or more "@.len() == 9,
        " or "@.len() == 4,
        "creatures you control have total power "@.len() == 39,
        " or more "@[0] == ' ' && " or more "@[1] == 'o',
        " or "@[0] == ' ' && " or "@[1] == 'o',
        "creatures you control have total power "@[0] == 'c',
{
    reveal_strlit("you control a desert or there is a desert card in your graveyard");
    reveal_strlit(" or greater");
    reveal_strlit(" or more creatures with different powers");
    reveal_strlit(" or more lands with the same name");
    reveal_strlit(" or more snow permanents");
    reveal_strlit("you control a creature with power ");
    reveal_strlit(" creature");
    reveal_strlit("you control a creature with flying");
    reveal_strlit("you control a legendary creature");
    reveal_strlit("you control another colorless creature");
    reveal_strlit("you control fewer creatures than each opponent");
    reveal_strlit("you control no creatures");
    reveal_strlit(" planeswalker");
    reveal_strlit(" or more ");
    reveal_strlit(" or ");
    reveal_strlit("creatures you control have total power ");
}

proof fn lemma_no_creatures_is_read()
    ensures
        condition_in("you control no creatures"@) == Some(ConditionModel::YouControlNoCreatures),
{
    let s = "you control no creatures"@;
    reveal_strlit("you control no creatures");
    lemma_not_of_a_source(s);
    lemma_control_phrases();
    reveal_strlit("you control ");
    reveal_strlit("you control a ");
    reveal_strlit("you control an ");
    let rest = s.skip(12);
    assert(s.take(12) =~= "you control "@);
    assert(after_prefix(s, "you control "@) == Some(rest));
    assert(s.take(14)[12] != "you control a "@[12]);
    assert(s.take(15)[12] != "you control an "@[12]);
    lemma_no_or(rest, " or more "@);
    assert(parted(rest, " or more "@) is None);
    if "creatures you control have total power "@.len() <= s.len() {
        assert(s.take("creatures you control have total power "@.len() as int)[0] == 'y');
    }
    assert(subtype_count(s) is None);
    assert(color_or_type_count(s) is None);
    assert(land_subtypes(s) is None);
    assert(creature_pt(s) is None);
}

proof fn lemma_a_creature_is_read()
    ensures
        condition_in("you control a creature"@) == one(
            WantedModel::Core { core_type: CoreType::Creature },
        ),
{
    let s = "you control a creature"@;
    reveal_strlit("you control a creature");
    lemma_not_of_a_source(s);
    lemma_control_phrases();
    reveal_strlit("you control ");
    reveal_strlit("you control a ");
    reveal_strlit("you control an ");
    let rest = s.skip(12);
    let word = s.skip(14);
    assert(s.take(12) =~= "you control "@);
    assert(after_prefix(s, "you control "@) == Some(rest));
    assert(s.take(15)[13] != "you control an "@[13]);
    assert(s.take(14) =~= "you control a "@);
    assert(after_you_control_a(s) == Some(word));
    lemma_no_or(rest, " or more "@);
    lemma_no_or(word, " or "@);
    assert(land_subtypes(s) is None);
    assert(subtype_count(s) is None);
    assert(color_or_type_count(s) is None);
    assert(creature_pt(s) is None);
    assert(trimmed(word) == word);
    assert(without_last(word, 's') == word);
    assert(!is_blank_char(word[0]));
    lemma_one_word(word.skip(1));
    assert(ascii_capital('c') == 'C');
    assert(capitalized(word, true, false) == seq!['C'] + word.skip(1));
    reveal_strlit("Creature");
    reveal_strlit("Artifact");
    assert(seq!['C'] + word.skip(1) =~= "Creature"@);
    assert("Artifact"@[0] != "Creature"@[0]);
    assert(core_type_named(singular(word)) == Some(CoreType::Creature));
}

/// Whether "you control no creatures" holds is the opposite of whether "you control a creature"
/// does.
pub proof fn no_creatures_is_the_opposite_of_a_creature(g: Game, p: PlayerId, source: ObjectId)
    ensures
        text_holds(g, p, source, plain("you control no creatures"@)) == !text_holds(
            g,
            p,
            source,
            plain("you control a creature"@),
        ),
{
    lemma_no_creatures_is_read();
    lemma_a_creature_is_read();
    let s = "you control no creatures"@;
    let t = "you control a creature"@;
    reveal_strlit("you control no creatures");
    reveal_strlit("you control a creature");
    assert(plain(s) =~= s);
    assert(plain(t) =~= t);
}

} // verus!
