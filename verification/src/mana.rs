//! Mana, mana costs and mana pools.

use std::sync::Arc;
use vstd::prelude::*;
use crate::ids::ObjectId;
use crate::keyed::Key;
use crate::seqs::{first_where, lemma_first_where, lemma_first_where_none};
use crate::text::{contains_text, holds_text};

verus! {

/// One of the five colors.
#[derive(Debug, Clone, Copy, PartialEq, Eq, Structural)]
pub enum ManaColor {
    White,
    Blue,
    Black,
    Red,
    Green,
}

/// One of the six types of mana.
#[derive(Debug, Clone, Copy, PartialEq, Eq, Structural)]
pub enum ManaType {
    White,
    Blue,
    Black,
    Red,
    Green,
    Colorless,
}

/// One symbol of a mana cost that is not a number.
#[derive(Debug, Clone, Copy, PartialEq, Eq, Structural)]
pub enum ManaCostShard {
    White,
    Blue,
    Black,
    Red,
    Green,
    Colorless,
    Snow,
    X,
    WhiteBlue,
    WhiteBlack,
    BlueBlack,
    BlueRed,
    BlackRed,
    BlackGreen,
    RedWhite,
    RedGreen,
    GreenWhite,
    GreenBlue,
    TwoWhite,
    TwoBlue,
    TwoBlack,
    TwoRed,
    TwoGreen,
    PhyrexianWhite,
    PhyrexianBlue,
    PhyrexianBlack,
    PhyrexianRed,
    PhyrexianGreen,
    PhyrexianWhiteBlue,
    PhyrexianWhiteBlack,
    PhyrexianBlueBlack,
    PhyrexianBlueRed,
    PhyrexianBlackRed,
    PhyrexianBlackGreen,
    PhyrexianRedWhite,
    PhyrexianRedGreen,
    PhyrexianGreenWhite,
    PhyrexianGreenBlue,
    ColorlessWhite,
    ColorlessBlue,
    ColorlessBlack,
    ColorlessRed,
    ColorlessGreen,
}

impl View for ManaColor {
    type V = ManaColor;

    open spec fn view(&self) -> ManaColor {
        *self
    }
}

impl Key for ManaColor {
    fn same(&self, other: &Self) -> (b: bool) {
        *self == *other
    }
}

impl View for ManaType {
    type V = ManaType;

    open spec fn view(&self) -> ManaType {
        *self
    }
}

impl Key for ManaType {
    fn same(&self, other: &Self) -> (b: bool) {
        *self == *other
    }
}

impl View for ManaCostShard {
    type V = ManaCostShard;

    open spec fn view(&self) -> ManaCostShard {
        *self
    }
}

impl Key for ManaCostShard {
    fn same(&self, other: &Self) -> (b: bool) {
        *self == *other
    }
}

/// A mana cost.
#[derive(Debug, PartialEq)]
pub enum ManaCost {
    /// No mana cost at all, as on a land.
    NoCost,
    /// The cost of the object itself.
    SelfManaCost,
    /// Symbols and an amount of generic mana.
    Cost { shards: Arc<Vec<ManaCostShard>>, generic: u32 },
}

impl Clone for ManaCost {
    fn clone(&self) -> (r: Self)
        ensures
            r == *self,
    {
        match self {
            ManaCost::NoCost => ManaCost::NoCost,
            ManaCost::SelfManaCost => ManaCost::SelfManaCost,
            ManaCost::Cost { shards, generic } => ManaCost::Cost {
                shards: shards.clone(),
                generic: *generic,
            },
        }
    }
}

/// What one symbol adds to the mana value: {X} nothing, a symbol with a two on one side two, any
/// other one.
pub open spec fn shard_value(shard: ManaCostShard) -> nat {
    match shard {
        ManaCostShard::X => 0,
        ManaCostShard::TwoWhite | ManaCostShard::TwoBlue | ManaCostShard::TwoBlack
        | ManaCostShard::TwoRed | ManaCostShard::TwoGreen => 2,
        _ => 1,
    }
}

/// What the first `n` symbols add to the mana value.
pub open spec fn shards_value(shards: Seq<ManaCostShard>, n: nat) -> nat
    decreases n,
{
    if n == 0 || n > shards.len() {
        0
    } else {
        shards_value(shards, (n - 1) as nat) + shard_value(shards[n - 1])
    }
}

/// The mana value before it is cut to what 32 bits hold.
pub open spec fn exact_mana_value(cost: ManaCost) -> nat {
    match cost {
        ManaCost::NoCost | ManaCost::SelfManaCost => 0,
        ManaCost::Cost { shards, generic } => shards_value(shards@, shards@.len()) + generic
            as nat,
    }
}

/// The mana value of a cost.
pub open spec fn mana_value_of(cost: ManaCost) -> u32 {
    if exact_mana_value(cost) > u32::MAX {
        u32::MAX
    } else {
        exact_mana_value(cost) as u32
    }
}

fn value_of_shard(shard: ManaCostShard) -> (r: u32)
    ensures
        r == shard_value(shard),
        r <= 2,
{
    match shard {
        ManaCostShard::X => 0,
        ManaCostShard::TwoWhite | ManaCostShard::TwoBlue | ManaCostShard::TwoBlack
        | ManaCostShard::TwoRed | ManaCostShard::TwoGreen => 2,
        _ => 1,
    }
}

impl Default for ManaCost {
    fn default() -> (r: Self)
        ensures
            r is NoCost,
    {
        ManaCost::NoCost
    }
}

impl ManaCost {
    /// A cost of generic mana.
    pub fn generic(n: u32) -> (r: Self)
        ensures
            r is Cost,
            r->shards@.len() == 0,
            r->generic == n,
    {
        ManaCost::of(Vec::new(), n)
    }

    /// A cost of no mana at all.
    pub fn zero() -> (r: Self)
        ensures
            r is Cost,
            r->shards@.len() == 0,
            r->generic == 0,
    {
        ManaCost::generic(0)
    }

    /// A cost of the given symbols and generic mana.
    pub fn of(shards: Vec<ManaCostShard>, generic: u32) -> (r: Self)
        ensures
            r is Cost,
            r->shards@ == shards@,
            r->generic == generic,
    {
        ManaCost::Cost { shards: Arc::new(shards), generic }
    }

    /// The mana value: {X} counts as zero.
    pub fn mana_value(&self) -> (r: u32)
        ensures
            r == mana_value_of(*self),
    {
        match self {
            ManaCost::NoCost | ManaCost::SelfManaCost => 0,
            ManaCost::Cost { shards, generic } => {
                let mut total: u32 = *generic;
                let mut i: usize = 0;
                let ghost list = shards@;
                while i < shards.len()
                    invariant
                        list == shards@,
                        i <= list.len(),
                        total == (if shards_value(list, i as nat) + *generic > u32::MAX {
                            u32::MAX as int
                        } else {
                            shards_value(list, i as nat) + *generic
                        }),
                    decreases list.len() - i,
                {
                    total = total.saturating_add(value_of_shard(shards[i]));
                    i += 1;
                }
                total
            },
        }
    }
}

/// A limit on what a unit of mana may be spent on.
#[derive(Debug)]
pub enum ManaRestriction {
    /// Only for creature spells of this subtype.
    OnlyForCreatureType(String),
}

/// When a unit of mana leaves the pool, if not at the end of the step.
#[derive(Debug, Clone, Copy, PartialEq, Eq, Structural)]
pub enum ManaExpiry {
    EndOfTurn,
    EndOfCombat,
}

/// What the restrictions on mana look at in a spell.
#[derive(Debug)]
pub struct SpellMeta {
    pub types: Vec<String>,
    pub subtypes: Vec<String>,
}

/// One unit of mana in a pool.
#[derive(Debug)]
pub struct ManaUnit {
    pub color: ManaType,
    pub source_id: ObjectId,
    pub snow: bool,
    pub restrictions: Arc<Vec<ManaRestriction>>,
    pub expiry: Option<ManaExpiry>,
}

impl Clone for ManaUnit {
    fn clone(&self) -> (r: Self)
        ensures
            r == *self,
    {
        ManaUnit {
            color: self.color,
            source_id: self.source_id,
            snow: self.snow,
            restrictions: self.restrictions.clone(),
            expiry: self.expiry,
        }
    }
}

/// Whether a restriction lets its mana be spent on a spell.
pub open spec fn restriction_allows(r: ManaRestriction, meta: SpellMeta) -> bool {
    match r {
        ManaRestriction::OnlyForCreatureType(kind) => holds_text(meta.types@, "Creature"@)
            && holds_text(meta.subtypes@, kind@),
    }
}

/// Whether a unit of mana may be spent on a spell.
pub open spec fn unit_allows(unit: ManaUnit, meta: SpellMeta) -> bool {
    forall|i: int|
        0 <= i < unit.restrictions@.len() ==> restriction_allows(
            #[trigger] unit.restrictions@[i],
            meta,
        )
}

impl ManaUnit {
    /// Whether this unit may be spent on a spell: every restriction on it must allow that.
    pub fn allows(&self, meta: &SpellMeta) -> (r: bool)
        ensures
            r == unit_allows(*self, *meta),
    {
        let mut i: usize = 0;
        while i < self.restrictions.len()
            invariant
                i <= self.restrictions@.len(),
                forall|j: int|
                    0 <= j < i ==> restriction_allows(#[trigger] self.restrictions@[j], *meta),
            decreases self.restrictions@.len() - i,
        {
            let ok: bool = match &self.restrictions[i] {
                ManaRestriction::OnlyForCreatureType(kind) => contains_text(
                    &meta.types,
                    "Creature",
                ) && contains_text(&meta.subtypes, kind.as_str()),
            };
            if !ok {
                assert(!restriction_allows(self.restrictions@[i as int], *meta));
                return false;
            }
            i += 1;
        }
        true
    }
}

/// How much mana of each color was spent.
#[derive(Debug, Clone, Copy, PartialEq, Eq, Structural)]
pub struct ColorTally {
    pub white: u32,
    pub blue: u32,
    pub black: u32,
    pub red: u32,
    pub green: u32,
}

/// The number of colors with a tally above zero.
pub open spec fn colors_in_tally(t: ColorTally) -> int {
    (if t.white > 0 {
        1int
    } else {
        0
    }) + (if t.blue > 0 {
        1int
    } else {
        0
    }) + (if t.black > 0 {
        1int
    } else {
        0
    }) + (if t.red > 0 {
        1int
    } else {
        0
    }) + (if t.green > 0 {
        1int
    } else {
        0
    })
}

impl ColorTally {
    pub fn none() -> (r: Self)
        ensures
            colors_in_tally(r) == 0,
    {
        ColorTally { white: 0, blue: 0, black: 0, red: 0, green: 0 }
    }

    /// The number of different colors spent.
    pub fn distinct_colors(&self) -> (r: usize)
        ensures
            r == colors_in_tally(*self),
    {
        let mut n: usize = 0;
        if self.white > 0 {
            n += 1;
        }
        if self.blue > 0 {
            n += 1;
        }
        if self.black > 0 {
            n += 1;
        }
        if self.red > 0 {
            n += 1;
        }
        if self.green > 0 {
            n += 1;
        }
        n
    }
}

/// The units of mana that a player may spend.
#[derive(Debug)]
pub struct ManaPool {
    pub mana: Vec<ManaUnit>,
}

/// A pool after the unit at `i` was taken out: the last unit moves into its place.
pub open spec fn without(pool: Seq<ManaUnit>, i: int) -> Seq<ManaUnit> {
    pool.update(i, pool.last()).drop_last()
}

/// A unit of mana of the given type that may be spent on the spell, if one is given.
pub open spec fn eligible(color: ManaType, meta: Option<SpellMeta>) -> spec_fn(ManaUnit) -> bool {
    |u: ManaUnit| u.color == color && (meta is Some ==> unit_allows(u, meta->0))
}

/// What is left of a pool, and the unit taken, when the first unit that satisfies `p` is spent.
pub open spec fn take_first(pool: Seq<ManaUnit>, p: spec_fn(ManaUnit) -> bool) -> Option<
    (ManaUnit, Seq<ManaUnit>),
> {
    match first_where(pool, p) {
        Some(i) => Some((pool[i], without(pool, i))),
        None => None,
    }
}

/// The units of mana of the given type in a pool.
pub open spec fn count_of(pool: Seq<ManaUnit>, color: ManaType) -> nat
    decreases pool.len(),
{
    if pool.len() == 0 {
        0
    } else {
        count_of(pool.drop_last(), color) + (if pool.last().color == color {
            1nat
        } else {
            0
        })
    }
}

/// What `take_first` says of the outcome of taking a unit out.
pub open spec fn took(
    before: Seq<ManaUnit>,
    p: spec_fn(ManaUnit) -> bool,
    after: Seq<ManaUnit>,
    unit: Option<ManaUnit>,
) -> bool {
    match take_first(before, p) {
        Some((u, rest)) => unit == Some(u) && after == rest,
        None => unit is None && after == before,
    }
}

impl Clone for ManaPool {
    fn clone(&self) -> (r: Self)
        ensures
            r.mana@ == self.mana@,
    {
        let mana = self.mana.clone();
        assert(mana@ =~= self.mana@);
        ManaPool { mana }
    }
}

impl ManaPool {
    pub fn new() -> (r: Self)
        ensures
            r.mana@ == Seq::<ManaUnit>::empty(),
    {
        ManaPool { mana: Vec::new() }
    }

    /// Puts a unit into the pool.
    pub fn add(&mut self, unit: ManaUnit)
        ensures
            final(self).mana@ == old(self).mana@.push(unit),
    {
        self.mana.push(unit);
    }

    /// The number of units of the given type.
    pub fn count_color(&self, color: ManaType) -> (n: usize)
        ensures
            n == count_of(self.mana@, color),
    {
        let mut n: usize = 0;
        let mut i: usize = 0;
        while i < self.mana.len()
            invariant
                n <= i <= self.mana@.len(),
                n == count_of(self.mana@.take(i as int), color),
            decreases self.mana.len() - i,
        {
            assert(self.mana@.take(i + 1).drop_last() =~= self.mana@.take(i as int));
            if self.mana[i].color == color {
                n += 1;
            }
            i += 1;
        }
        assert(self.mana@.take(i as int) =~= self.mana@);
        n
    }

    /// The number of units.
    pub fn total(&self) -> (n: usize)
        ensures
            n == self.mana@.len(),
    {
        self.mana.len()
    }

    /// Takes the first unit of the given type that may be spent on the spell, if one is given.
    pub fn spend_eligible(&mut self, color: ManaType, spell: Option<&SpellMeta>) -> (r: Option<ManaUnit>)
        ensures
            took(old(self).mana@, eligible(color, opt_meta(spell)), final(self).mana@, r),
    {
        let ghost p = eligible(color, opt_meta(spell));
        let mut i: usize = 0;
        while i < self.mana.len()
            invariant
                i <= self.mana@.len(),
                p == eligible(color, opt_meta(spell)),
                self.mana@ == old(self).mana@,
                forall|j: int| 0 <= j < i ==> !p(#[trigger] self.mana@[j]),
            decreases self.mana.len() - i,
        {
            let fits: bool = self.mana[i].color == color && match spell {
                Some(meta) => self.mana[i].allows(meta),
                None => true,
            };
            assert(fits == p(self.mana@[i as int]));
            if fits {
                proof {
                    lemma_first_where(self.mana@, p, i as int);
                }
                let unit = self.mana.swap_remove(i);
                assert(self.mana@ =~= without(old(self).mana@, i as int));
                return Some(unit);
            }
            i += 1;
        }
        proof {
            lemma_first_where_none(self.mana@, p);
        }
        None
    }

    /// Takes the first unit of the given type.
    pub fn spend(&mut self, color: ManaType) -> (r: Option<ManaUnit>)
        ensures
            took(old(self).mana@, eligible(color, None), final(self).mana@, r),
    {
        self.spend_eligible(color, None)
    }

    /// Takes the first unit of the given type that may be spent on the spell.
    pub fn spend_for(&mut self, color: ManaType, meta: &SpellMeta) -> (r: Option<ManaUnit>)
        ensures
            took(old(self).mana@, eligible(color, Some(*meta)), final(self).mana@, r),
    {
        self.spend_eligible(color, Some(meta))
    }
}

impl Default for ManaPool {
    fn default() -> (r: Self)
        ensures
            r.mana@ == Seq::<ManaUnit>::empty(),
    {
        ManaPool::new()
    }
}

/// A spell that is referred to, as a value.
pub open spec fn opt_meta(spell: Option<&SpellMeta>) -> Option<SpellMeta> {
    match spell {
        Some(m) => Some(*m),
        None => None,
    }
}

} // verus!
