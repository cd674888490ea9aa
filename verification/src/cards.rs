//! What is printed on cards and what objects are made of.

use vstd::prelude::*;
use crate::keyed::Key;
use crate::mana::{ManaColor, ManaCost};
use crate::text::same_text;

verus! {

/// A card type.
#[derive(Debug, Clone, Copy, PartialEq, Eq, Structural)]
pub enum CoreType {
    Artifact,
    Creature,
    Enchantment,
    Instant,
    Land,
    Planeswalker,
    Sorcery,
    Battle,
    Kindred,
}

impl View for CoreType {
    type V = CoreType;

    open spec fn view(&self) -> CoreType {
        *self
    }
}

impl Key for CoreType {
    fn same(&self, other: &Self) -> (b: bool) {
        *self == *other
    }
}

/// A supertype.
#[derive(Debug, Clone, Copy, PartialEq, Eq, Structural)]
pub enum Supertype {
    Basic,
    Legendary,
    Snow,
    World,
}

impl View for Supertype {
    type V = Supertype;

    open spec fn view(&self) -> Supertype {
        *self
    }
}

impl Key for Supertype {
    fn same(&self, other: &Self) -> (b: bool) {
        *self == *other
    }
}

/// A place where objects can be.
#[derive(Debug, Clone, Copy, PartialEq, Eq, Structural)]
pub enum Zone {
    Library,
    Hand,
    Battlefield,
    Graveyard,
    Stack,
    Exile,
    Command,
}

/// A phase or step of a turn.
#[derive(Debug, Clone, Copy, PartialEq, Eq, Structural)]
pub enum Phase {
    Untap,
    Upkeep,
    Draw,
    PreCombatMain,
    BeginCombat,
    DeclareAttackers,
    DeclareBlockers,
    CombatDamage,
    EndCombat,
    PostCombatMain,
    End,
    Cleanup,
}

/// A kind of keyword ability, without what a particular one carries.
#[derive(Debug, Clone, Copy, PartialEq, Eq, Structural)]
pub enum KeywordKind {
    Flying,
    Trample,
    Haste,
    Vigilance,
    Deathtouch,
    Lifelink,
    Defender,
    Indestructible,
    Flash,
    Phasing,
    StartYourEngines,
    Flashback,
    Sneak,
    Modular,
    Morph,
    Megamorph,
    Disguise,
}

/// A keyword whose number is computed.
#[derive(Debug, Clone, Copy, PartialEq, Eq, Structural)]
pub enum DynamicKeywordKind {
    Modular,
}

/// The cost of casting a card from a graveyard by flashback.
#[derive(Debug, PartialEq)]
pub enum FlashbackCost {
    Mana(ManaCost),
}

impl Clone for FlashbackCost {
    fn clone(&self) -> (r: Self)
        ensures
            r == *self,
    {
        match self {
            FlashbackCost::Mana(cost) => FlashbackCost::Mana(cost.clone()),
        }
    }
}

/// A keyword ability.
#[derive(Debug, PartialEq)]
pub enum Keyword {
    Flying,
    Trample,
    Haste,
    Vigilance,
    Deathtouch,
    Lifelink,
    Defender,
    Indestructible,
    Flash,
    Phasing,
    StartYourEngines,
    Flashback(FlashbackCost),
    Modular(u32),
    Sneak(ManaCost),
    Morph(ManaCost),
    Megamorph(ManaCost),
    Disguise(ManaCost),
}

impl Clone for Keyword {
    fn clone(&self) -> (r: Self)
        ensures
            r == *self,
    {
        match self {
            Keyword::Flying => Keyword::Flying,
            Keyword::Trample => Keyword::Trample,
            Keyword::Haste => Keyword::Haste,
            Keyword::Vigilance => Keyword::Vigilance,
            Keyword::Deathtouch => Keyword::Deathtouch,
            Keyword::Lifelink => Keyword::Lifelink,
            Keyword::Defender => Keyword::Defender,
            Keyword::Indestructible => Keyword::Indestructible,
            Keyword::Flash => Keyword::Flash,
            Keyword::Phasing => Keyword::Phasing,
            Keyword::StartYourEngines => Keyword::StartYourEngines,
            Keyword::Flashback(c) => Keyword::Flashback(c.clone()),
            Keyword::Modular(n) => Keyword::Modular(*n),
            Keyword::Sneak(c) => Keyword::Sneak(c.clone()),
            Keyword::Morph(c) => Keyword::Morph(c.clone()),
            Keyword::Megamorph(c) => Keyword::Megamorph(c.clone()),
            Keyword::Disguise(c) => Keyword::Disguise(c.clone()),
        }
    }
}

/// The kind of a keyword.
pub open spec fn kind_of(k: Keyword) -> KeywordKind {
    match k {
        Keyword::Flying => KeywordKind::Flying,
        Keyword::Trample => KeywordKind::Trample,
        Keyword::Haste => KeywordKind::Haste,
        Keyword::Vigilance => KeywordKind::Vigilance,
        Keyword::Deathtouch => KeywordKind::Deathtouch,
        Keyword::Lifelink => KeywordKind::Lifelink,
        Keyword::Defender => KeywordKind::Defender,
        Keyword::Indestructible => KeywordKind::Indestructible,
        Keyword::Flash => KeywordKind::Flash,
        Keyword::Phasing => KeywordKind::Phasing,
        Keyword::StartYourEngines => KeywordKind::StartYourEngines,
        Keyword::Flashback(_) => KeywordKind::Flashback,
        Keyword::Modular(_) => KeywordKind::Modular,
        Keyword::Sneak(_) => KeywordKind::Sneak,
        Keyword::Morph(_) => KeywordKind::Morph,
        Keyword::Megamorph(_) => KeywordKind::Megamorph,
        Keyword::Disguise(_) => KeywordKind::Disguise,
    }
}

impl Keyword {
    /// The kind of this keyword.
    pub fn kind(&self) -> (r: KeywordKind)
        ensures
            r == kind_of(*self),
    {
        match self {
            Keyword::Flying => KeywordKind::Flying,
            Keyword::Trample => KeywordKind::Trample,
            Keyword::Haste => KeywordKind::Haste,
            Keyword::Vigilance => KeywordKind::Vigilance,
            Keyword::Deathtouch => KeywordKind::Deathtouch,
            Keyword::Lifelink => KeywordKind::Lifelink,
            Keyword::Defender => KeywordKind::Defender,
            Keyword::Indestructible => KeywordKind::Indestructible,
            Keyword::Flash => KeywordKind::Flash,
            Keyword::Phasing => KeywordKind::Phasing,
            Keyword::StartYourEngines => KeywordKind::StartYourEngines,
            Keyword::Flashback(_) => KeywordKind::Flashback,
            Keyword::Modular(_) => KeywordKind::Modular,
            Keyword::Sneak(_) => KeywordKind::Sneak,
            Keyword::Morph(_) => KeywordKind::Morph,
            Keyword::Megamorph(_) => KeywordKind::Megamorph,
            Keyword::Disguise(_) => KeywordKind::Disguise,
        }
    }
}

impl DynamicKeywordKind {
    /// The keyword of this kind with the given number.
    pub fn with_value(&self, value: u32) -> (r: Keyword)
        ensures
            r == (match *self {
                DynamicKeywordKind::Modular => Keyword::Modular(value),
            }),
    {
        match self {
            DynamicKeywordKind::Modular => Keyword::Modular(value),
        }
    }
}

/// Whether a list of keywords holds one of the given kind.
pub open spec fn has_kind(list: Seq<Keyword>, kind: KeywordKind) -> bool {
    exists|i: int| 0 <= i < list.len() && kind_of(#[trigger] list[i]) == kind
}

/// Whether a list of keywords holds one of the given kind.
pub fn any_of_kind(list: &Vec<Keyword>, kind: KeywordKind) -> (r: bool)
    ensures
        r == has_kind(list@, kind),
{
    let mut i: usize = 0;
    while i < list.len()
        invariant
            i <= list@.len(),
            forall|j: int| 0 <= j < i ==> kind_of(#[trigger] list@[j]) != kind,
        decreases list.len() - i,
    {
        if list[i].kind() == kind {
            return true;
        }
        i += 1;
    }
    false
}

/// Whether a list of subtypes holds one, letter by letter.
pub open spec fn has_exact_subtype(list: Seq<String>, subtype: Seq<char>) -> bool {
    exists|i: int| 0 <= i < list.len() && (#[trigger] list[i])@ == subtype
}

/// Whether a list of subtypes holds one, letter by letter.
pub fn contains_exact_subtype(list: &Vec<String>, subtype: &str) -> (r: bool)
    ensures
        r == has_exact_subtype(list@, subtype@),
{
    let mut i: usize = 0;
    while i < list.len()
        invariant
            i <= list@.len(),
            forall|j: int| 0 <= j < i ==> (#[trigger] list@[j])@ != subtype@,
        decreases list.len() - i,
    {
        if same_text(list[i].as_str(), subtype) {
            return true;
        }
        i += 1;
    }
    false
}

/// A copy of a list of keywords.
pub fn copy_keywords(list: &Vec<Keyword>) -> (r: Vec<Keyword>)
    ensures
        r@ == list@,
{
    let r = list.clone();
    assert(r@ =~= list@);
    r
}

/// A copy of a list of colors.
pub fn copy_colors(list: &Vec<ManaColor>) -> (r: Vec<ManaColor>)
    ensures
        r@ == list@,
{
    let r = list.clone();
    assert(r@ =~= list@);
    r
}

/// Whether a list of card types holds one.
pub fn has_core_type(list: &Vec<CoreType>, t: CoreType) -> (r: bool)
    ensures
        r == list@.contains(t),
{
    let mut i: usize = 0;
    while i < list.len()
        invariant
            i <= list@.len(),
            forall|j: int| 0 <= j < i ==> #[trigger] list@[j] != t,
        decreases list.len() - i,
    {
        if list[i] == t {
            return true;
        }
        i += 1;
    }
    false
}

/// Whether a list of supertypes holds one.
pub fn has_supertype(list: &Vec<Supertype>, t: Supertype) -> (r: bool)
    ensures
        r == list@.contains(t),
{
    let mut i: usize = 0;
    while i < list.len()
        invariant
            i <= list@.len(),
            forall|j: int| 0 <= j < i ==> #[trigger] list@[j] != t,
        decreases list.len() - i,
    {
        if list[i] == t {
            return true;
        }
        i += 1;
    }
    false
}

/// Whether a list of colors holds one.
pub fn has_color(list: &Vec<ManaColor>, t: ManaColor) -> (r: bool)
    ensures
        r == list@.contains(t),
{
    let mut i: usize = 0;
    while i < list.len()
        invariant
            i <= list@.len(),
            forall|j: int| 0 <= j < i ==> #[trigger] list@[j] != t,
        decreases list.len() - i,
    {
        if list[i] == t {
            return true;
        }
        i += 1;
    }
    false
}

/// A type line.
#[derive(Debug)]
pub struct CardType {
    pub supertypes: Vec<Supertype>,
    pub core_types: Vec<CoreType>,
    pub subtypes: Vec<String>,
}

/// What a type line says.
#[verifier::ext_equal]
pub struct CardTypeModel {
    pub supertypes: Seq<Supertype>,
    pub core_types: Seq<CoreType>,
    pub subtypes: Seq<String>,
}

impl View for CardType {
    type V = CardTypeModel;

    open spec fn view(&self) -> CardTypeModel {
        CardTypeModel {
            supertypes: self.supertypes@,
            core_types: self.core_types@,
            subtypes: self.subtypes@,
        }
    }
}

/// A type line that says nothing.
pub open spec fn no_types() -> CardTypeModel {
    CardTypeModel { supertypes: Seq::empty(), core_types: Seq::empty(), subtypes: Seq::empty() }
}

impl Clone for CardType {
    fn clone(&self) -> (r: Self)
        ensures
            r@ == self@,
    {
        let r = CardType {
            supertypes: self.supertypes.clone(),
            core_types: self.core_types.clone(),
            subtypes: self.subtypes.clone(),
        };
        assert(r@.supertypes =~= self@.supertypes);
        assert(r@.core_types =~= self@.core_types);
        assert(r@.subtypes =~= self@.subtypes);
        r
    }
}

impl Default for CardType {
    fn default() -> (r: Self)
        ensures
            r@ == no_types(),
    {
        CardType { supertypes: Vec::new(), core_types: Vec::new(), subtypes: Vec::new() }
    }
}

/// A kind of counter.
#[derive(Debug)]
pub enum CounterType {
    Plus1Plus1,
    Minus1Minus1,
    Loyalty,
    Lore,
    /// Any other kind, by its name.
    Generic(String),
}

/// A kind of counter, told apart by name.
pub enum CounterKind {
    Plus1Plus1,
    Minus1Minus1,
    Loyalty,
    Lore,
    Generic(Seq<char>),
}

impl View for CounterType {
    type V = CounterKind;

    open spec fn view(&self) -> CounterKind {
        match *self {
            CounterType::Plus1Plus1 => CounterKind::Plus1Plus1,
            CounterType::Minus1Minus1 => CounterKind::Minus1Minus1,
            CounterType::Loyalty => CounterKind::Loyalty,
            CounterType::Lore => CounterKind::Lore,
            CounterType::Generic(s) => CounterKind::Generic(s@),
        }
    }
}

impl Key for CounterType {
    fn same(&self, other: &Self) -> (b: bool) {
        match (self, other) {
            (CounterType::Plus1Plus1, CounterType::Plus1Plus1) => true,
            (CounterType::Minus1Minus1, CounterType::Minus1Minus1) => true,
            (CounterType::Loyalty, CounterType::Loyalty) => true,
            (CounterType::Lore, CounterType::Lore) => true,
            (CounterType::Generic(a), CounterType::Generic(b)) => same_text(a.as_str(), b.as_str()),
            _ => false,
        }
    }
}

impl Clone for CounterType {
    fn clone(&self) -> (r: Self)
        ensures
            r == *self,
    {
        match self {
            CounterType::Plus1Plus1 => CounterType::Plus1Plus1,
            CounterType::Minus1Minus1 => CounterType::Minus1Minus1,
            CounterType::Loyalty => CounterType::Loyalty,
            CounterType::Lore => CounterType::Lore,
            CounterType::Generic(s) => CounterType::Generic(s.clone()),
        }
    }
}

/// The kind of counter that a name stands for.
pub open spec fn counter_named(text: Seq<char>) -> CounterKind {
    if text == "P1P1"@ || text == "+1/+1"@ {
        CounterKind::Plus1Plus1
    } else if text == "M1M1"@ || text == "-1/-1"@ {
        CounterKind::Minus1Minus1
    } else if text == "LOYALTY"@ || text == "loyalty"@ {
        CounterKind::Loyalty
    } else if text == "LORE"@ || text == "lore"@ {
        CounterKind::Lore
    } else {
        CounterKind::Generic(text)
    }
}

/// The kind of counter that a name stands for.
pub fn parse_counter_type(text: &str) -> (r: CounterType)
    ensures
        r@ == counter_named(text@),
{
    if same_text(text, "P1P1") || same_text(text, "+1/+1") {
        CounterType::Plus1Plus1
    } else if same_text(text, "M1M1") || same_text(text, "-1/-1") {
        CounterType::Minus1Minus1
    } else if same_text(text, "LOYALTY") || same_text(text, "loyalty") {
        CounterType::Loyalty
    } else if same_text(text, "LORE") || same_text(text, "lore") {
        CounterType::Lore
    } else {
        CounterType::Generic(text.to_owned())
    }
}

} // verus!
