//! Paying mana costs out of mana pools.

use std::sync::Arc;
use vstd::multiset::Multiset;
use vstd::prelude::*;
use crate::events::{emit, log, EventModel, GameEvent};
use crate::ids::{ObjectId, PlayerId};
use crate::mana::{
    eligible, opt_meta, take_first, took, unit_allows, without, ManaCost, ManaCostShard, ManaPool,
    ManaType, ManaUnit, SpellMeta,
};
use crate::seqs::{
    count_where, first_where, is_first, lemma_count_next, lemma_count_positive_where,
    lemma_first_where, lemma_first_where_none,
};
use crate::state::{object_at, player_of, seat_of, with_player_at, Game, GameState, PlayerModel};
use crate::text::same_text;

verus! {

/// Demand for each color, in the order white, blue, black, red, green.
pub type ColorDemand = [u32; 5];

/// Why a cost could not be paid.
#[derive(Debug, Clone, Copy, PartialEq, Eq, Structural)]
pub enum PaymentError {
    InsufficientMana,
    InvalidCost,
}

/// A payment of life in place of a Phyrexian mana symbol.
#[derive(Debug, Clone, Copy, PartialEq, Eq, Structural)]
pub struct LifePayment {
    pub player_id: PlayerId,
    pub amount: i32,
}

/// What a symbol of a mana cost asks for.
#[derive(Debug, Clone, Copy, PartialEq, Eq, Structural)]
pub enum ShardRequirement {
    /// One mana of this type.
    Single(ManaType),
    /// One mana of either type.
    Hybrid(ManaType, ManaType),
    /// One mana of this type, or life.
    Phyrexian(ManaType),
    /// One mana of this type, or two of any.
    TwoGenericHybrid(ManaType),
    /// One mana from a snow source.
    Snow,
    /// A chosen amount.
    X,
    /// One colorless mana, or one of this type.
    ColorlessHybrid(ManaType),
    /// One mana of either type, or life.
    HybridPhyrexian(ManaType, ManaType),
}

/// The place of a color in a `ColorDemand`.
pub open spec fn demand_index(mt: ManaType) -> Option<int> {
    match mt {
        ManaType::White => Some(0),
        ManaType::Blue => Some(1),
        ManaType::Black => Some(2),
        ManaType::Red => Some(3),
        ManaType::Green => Some(4),
        ManaType::Colorless => None,
    }
}

pub(crate) fn mana_type_to_demand_index(mt: ManaType) -> (r: Option<usize>)
    ensures
        match demand_index(mt) {
            Some(i) => r is Some && r->0 == i && r->0 < 5,
            None => r is None,
        },
{
    match mt {
        ManaType::White => Some(0),
        ManaType::Blue => Some(1),
        ManaType::Black => Some(2),
        ManaType::Red => Some(3),
        ManaType::Green => Some(4),
        ManaType::Colorless => None,
    }
}

/// What each symbol of a mana cost asks for.
pub open spec fn requirement(shard: ManaCostShard) -> ShardRequirement {
    match shard {
        ManaCostShard::White => ShardRequirement::Single(ManaType::White),
        ManaCostShard::Blue => ShardRequirement::Single(ManaType::Blue),
        ManaCostShard::Black => ShardRequirement::Single(ManaType::Black),
        ManaCostShard::Red => ShardRequirement::Single(ManaType::Red),
        ManaCostShard::Green => ShardRequirement::Single(ManaType::Green),
        ManaCostShard::Colorless => ShardRequirement::Single(ManaType::Colorless),
        ManaCostShard::Snow => ShardRequirement::Snow,
        ManaCostShard::X => ShardRequirement::X,
        ManaCostShard::WhiteBlue => ShardRequirement::Hybrid(ManaType::White, ManaType::Blue),
        ManaCostShard::WhiteBlack => ShardRequirement::Hybrid(ManaType::White, ManaType::Black),
        ManaCostShard::BlueBlack => ShardRequirement::Hybrid(ManaType::Blue, ManaType::Black),
        ManaCostShard::BlueRed => ShardRequirement::Hybrid(ManaType::Blue, ManaType::Red),
        ManaCostShard::BlackRed => ShardRequirement::Hybrid(ManaType::Black, ManaType::Red),
        ManaCostShard::BlackGreen => ShardRequirement::Hybrid(ManaType::Black, ManaType::Green),
        ManaCostShard::RedWhite => ShardRequirement::Hybrid(ManaType::Red, ManaType::White),
        ManaCostShard::RedGreen => ShardRequirement::Hybrid(ManaType::Red, ManaType::Green),
        ManaCostShard::GreenWhite => ShardRequirement::Hybrid(ManaType::Green, ManaType::White),
        ManaCostShard::GreenBlue => ShardRequirement::Hybrid(ManaType::Green, ManaType::Blue),
        ManaCostShard::TwoWhite => ShardRequirement::TwoGenericHybrid(ManaType::White),
        ManaCostShard::TwoBlue => ShardRequirement::TwoGenericHybrid(ManaType::Blue),
        ManaCostShard::TwoBlack => ShardRequirement::TwoGenericHybrid(ManaType::Black),
        ManaCostShard::TwoRed => ShardRequirement::TwoGenericHybrid(ManaType::Red),
        ManaCostShard::TwoGreen => ShardRequirement::TwoGenericHybrid(ManaType::Green),
        ManaCostShard::PhyrexianWhite => ShardRequirement::Phyrexian(ManaType::White),
        ManaCostShard::PhyrexianBlue => ShardRequirement::Phyrexian(ManaType::Blue),
        ManaCostShard::PhyrexianBlack => ShardRequirement::Phyrexian(ManaType::Black),
        ManaCostShard::PhyrexianRed => ShardRequirement::Phyrexian(ManaType::Red),
        ManaCostShard::PhyrexianGreen => ShardRequirement::Phyrexian(ManaType::Green),
        ManaCostShard::PhyrexianWhiteBlue => ShardRequirement::HybridPhyrexian(ManaType::White, ManaType::Blue),
        ManaCostShard::PhyrexianWhiteBlack => ShardRequirement::HybridPhyrexian(ManaType::White, ManaType::Black),
        ManaCostShard::PhyrexianBlueBlack => ShardRequirement::HybridPhyrexian(ManaType::Blue, ManaType::Black),
        ManaCostShard::PhyrexianBlueRed => ShardRequirement::HybridPhyrexian(ManaType::Blue, ManaType::Red),
        ManaCostShard::PhyrexianBlackRed => ShardRequirement::HybridPhyrexian(ManaType::Black, ManaType::Red),
        ManaCostShard::PhyrexianBlackGreen => ShardRequirement::HybridPhyrexian(ManaType::Black, ManaType::Green),
        ManaCostShard::PhyrexianRedWhite => ShardRequirement::HybridPhyrexian(ManaType::Red, ManaType::White),
        ManaCostShard::PhyrexianRedGreen => ShardRequirement::HybridPhyrexian(ManaType::Red, ManaType::Green),
        ManaCostShard::PhyrexianGreenWhite => ShardRequirement::HybridPhyrexian(ManaType::Green, ManaType::White),
        ManaCostShard::PhyrexianGreenBlue => ShardRequirement::HybridPhyrexian(ManaType::Green, ManaType::Blue),
        ManaCostShard::ColorlessWhite => ShardRequirement::ColorlessHybrid(ManaType::White),
        ManaCostShard::ColorlessBlue => ShardRequirement::ColorlessHybrid(ManaType::Blue),
        ManaCostShard::ColorlessBlack => ShardRequirement::ColorlessHybrid(ManaType::Black),
        ManaCostShard::ColorlessRed => ShardRequirement::ColorlessHybrid(ManaType::Red),
        ManaCostShard::ColorlessGreen => ShardRequirement::ColorlessHybrid(ManaType::Green),
    }
}

/// What a symbol of a mana cost asks for.
pub fn shard_to_mana_type(shard: ManaCostShard) -> (r: ShardRequirement)
    ensures
        r == requirement(shard),
{
    match shard {
        ManaCostShard::White => ShardRequirement::Single(ManaType::White),
        ManaCostShard::Blue => ShardRequirement::Single(ManaType::Blue),
        ManaCostShard::Black => ShardRequirement::Single(ManaType::Black),
        ManaCostShard::Red => ShardRequirement::Single(ManaType::Red),
        ManaCostShard::Green => ShardRequirement::Single(ManaType::Green),
        ManaCostShard::Colorless => ShardRequirement::Single(ManaType::Colorless),
        ManaCostShard::Snow => ShardRequirement::Snow,
        ManaCostShard::X => ShardRequirement::X,
        ManaCostShard::WhiteBlue => ShardRequirement::Hybrid(ManaType::White, ManaType::Blue),
        ManaCostShard::WhiteBlack => ShardRequirement::Hybrid(ManaType::White, ManaType::Black),
        ManaCostShard::BlueBlack => ShardRequirement::Hybrid(ManaType::Blue, ManaType::Black),
        ManaCostShard::BlueRed => ShardRequirement::Hybrid(ManaType::Blue, ManaType::Red),
        ManaCostShard::BlackRed => ShardRequirement::Hybrid(ManaType::Black, ManaType::Red),
        ManaCostShard::BlackGreen => ShardRequirement::Hybrid(ManaType::Black, ManaType::Green),
        ManaCostShard::RedWhite => ShardRequirement::Hybrid(ManaType::Red, ManaType::White),
        ManaCostShard::RedGreen => ShardRequirement::Hybrid(ManaType::Red, ManaType::Green),
        ManaCostShard::GreenWhite => ShardRequirement::Hybrid(ManaType::Green, ManaType::White),
        ManaCostShard::GreenBlue => ShardRequirement::Hybrid(ManaType::Green, ManaType::Blue),
        ManaCostShard::TwoWhite => ShardRequirement::TwoGenericHybrid(ManaType::White),
        ManaCostShard::TwoBlue => ShardRequirement::TwoGenericHybrid(ManaType::Blue),
        ManaCostShard::TwoBlack => ShardRequirement::TwoGenericHybrid(ManaType::Black),
        ManaCostShard::TwoRed => ShardRequirement::TwoGenericHybrid(ManaType::Red),
        ManaCostShard::TwoGreen => ShardRequirement::TwoGenericHybrid(ManaType::Green),
        ManaCostShard::PhyrexianWhite => ShardRequirement::Phyrexian(ManaType::White),
        ManaCostShard::PhyrexianBlue => ShardRequirement::Phyrexian(ManaType::Blue),
        ManaCostShard::PhyrexianBlack => ShardRequirement::Phyrexian(ManaType::Black),
        ManaCostShard::PhyrexianRed => ShardRequirement::Phyrexian(ManaType::Red),
        ManaCostShard::PhyrexianGreen => ShardRequirement::Phyrexian(ManaType::Green),
        ManaCostShard::PhyrexianWhiteBlue => ShardRequirement::HybridPhyrexian(ManaType::White, ManaType::Blue),
        ManaCostShard::PhyrexianWhiteBlack => ShardRequirement::HybridPhyrexian(ManaType::White, ManaType::Black),
        ManaCostShard::PhyrexianBlueBlack => ShardRequirement::HybridPhyrexian(ManaType::Blue, ManaType::Black),
        ManaCostShard::PhyrexianBlueRed => ShardRequirement::HybridPhyrexian(ManaType::Blue, ManaType::Red),
        ManaCostShard::PhyrexianBlackRed => ShardRequirement::HybridPhyrexian(ManaType::Black, ManaType::Red),
        ManaCostShard::PhyrexianBlackGreen => ShardRequirement::HybridPhyrexian(ManaType::Black, ManaType::Green),
        ManaCostShard::PhyrexianRedWhite => ShardRequirement::HybridPhyrexian(ManaType::Red, ManaType::White),
        ManaCostShard::PhyrexianRedGreen => ShardRequirement::HybridPhyrexian(ManaType::Red, ManaType::Green),
        ManaCostShard::PhyrexianGreenWhite => ShardRequirement::HybridPhyrexian(ManaType::Green, ManaType::White),
        ManaCostShard::PhyrexianGreenBlue => ShardRequirement::HybridPhyrexian(ManaType::Green, ManaType::Blue),
        ManaCostShard::ColorlessWhite => ShardRequirement::ColorlessHybrid(ManaType::White),
        ManaCostShard::ColorlessBlue => ShardRequirement::ColorlessHybrid(ManaType::Blue),
        ManaCostShard::ColorlessBlack => ShardRequirement::ColorlessHybrid(ManaType::Black),
        ManaCostShard::ColorlessRed => ShardRequirement::ColorlessHybrid(ManaType::Red),
        ManaCostShard::ColorlessGreen => ShardRequirement::ColorlessHybrid(ManaType::Green),
    }
}

/// The type of mana that a basic land subtype stands for.
pub fn land_subtype_to_mana_type(subtype: &str) -> (r: Option<ManaType>)
    ensures
        r == (if subtype@ == "Plains"@ {
            Some(ManaType::White)
        } else if subtype@ == "Island"@ {
            Some(ManaType::Blue)
        } else if subtype@ == "Swamp"@ {
            Some(ManaType::Black)
        } else if subtype@ == "Mountain"@ {
            Some(ManaType::Red)
        } else if subtype@ == "Forest"@ {
            Some(ManaType::Green)
        } else {
            None
        }),
{
    if same_text(subtype, "Plains") {
        Some(ManaType::White)
    } else if same_text(subtype, "Island") {
        Some(ManaType::Blue)
    } else if same_text(subtype, "Swamp") {
        Some(ManaType::Black)
    } else if same_text(subtype, "Mountain") {
        Some(ManaType::Red)
    } else if same_text(subtype, "Forest") {
        Some(ManaType::Green)
    } else {
        None
    }
}

/// The colors in the order in which ties between them are broken.
pub open spec fn five_colors() -> Seq<ManaType> {
    seq![ManaType::White, ManaType::Blue, ManaType::Black, ManaType::Red, ManaType::Green]
}

/// Whether a unit may be spent, on the spell where one is given.
pub open spec fn usable(u: ManaUnit, meta: Option<SpellMeta>) -> bool {
    meta is Some ==> unit_allows(u, meta->0)
}

/// How many units of a type may be spent.
pub open spec fn usable_of(pool: Seq<ManaUnit>, c: ManaType, meta: Option<SpellMeta>) -> nat {
    count_where(pool, eligible(c, meta))
}

/// The color of which least may be spent, but at least one unit; the earliest among equals. Only
/// the first `n` colors are looked at.
pub open spec fn scarcest(pool: Seq<ManaUnit>, meta: Option<SpellMeta>, n: nat) -> Option<ManaType>
    decreases n,
{
    if n == 0 || n > 5 {
        None
    } else {
        let c = five_colors()[n - 1];
        match scarcest(pool, meta, (n - 1) as nat) {
            None => if usable_of(pool, c, meta) > 0 {
                Some(c)
            } else {
                None
            },
            Some(b) => if 0 < usable_of(pool, c, meta) < usable_of(pool, b, meta) {
                Some(c)
            } else {
                Some(b)
            },
        }
    }
}

/// Spending one mana of any type: colorless if there is any, else of the scarcest color.
pub open spec fn spend_generic(pool: Seq<ManaUnit>, meta: Option<SpellMeta>) -> Option<
    (ManaUnit, Seq<ManaUnit>),
> {
    match take_first(pool, eligible(ManaType::Colorless, meta)) {
        Some(t) => Some(t),
        None => match scarcest(pool, meta, 5) {
            Some(c) => take_first(pool, eligible(c, meta)),
            None => None,
        },
    }
}

/// The half of a hybrid symbol that is spent by preference: one that the pool has; of two, the one
/// that the hand needs less; of two needed alike, the one that the pool has more of.
pub open spec fn hybrid_choice(
    pool: Seq<ManaUnit>,
    a: ManaType,
    b: ManaType,
    demand: Option<Seq<u32>>,
    meta: Option<SpellMeta>,
) -> ManaType {
    let need = |t: ManaType|
        match (demand, demand_index(t)) {
            (Some(d), Some(i)) => d[i] as int,
            _ => 0int,
        };
    if usable_of(pool, a, meta) == 0 {
        b
    } else if usable_of(pool, b, meta) == 0 {
        a
    } else if need(a) != need(b) {
        if need(a) < need(b) {
            a
        } else {
            b
        }
    } else if usable_of(pool, a, meta) >= usable_of(pool, b, meta) {
        a
    } else {
        b
    }
}

// ---------------------------------------------------------------------------
// What can be paid
// ---------------------------------------------------------------------------

/// What matters of a unit of mana for the symbols of a cost.
#[derive(Debug, Clone, Copy, PartialEq, Eq, Structural)]
pub struct Kind {
    pub color: ManaType,
    pub snow: bool,
}

/// The kind of a unit.
pub open spec fn kind_of(u: ManaUnit) -> Kind {
    Kind { color: u.color, snow: u.snow }
}

/// The kinds of the units of a pool that may be spent.
pub open spec fn on_offer(pool: Seq<ManaUnit>, meta: Option<SpellMeta>) -> Multiset<Kind>
    decreases pool.len(),
{
    if pool.len() == 0 {
        Multiset::empty()
    } else {
        let rest = on_offer(pool.drop_last(), meta);
        if usable(pool.last(), meta) {
            rest.insert(kind_of(pool.last()))
        } else {
            rest
        }
    }
}

/// Whether one mana of a kind pays for a symbol.
pub open spec fn fits(k: Kind, req: ShardRequirement) -> bool {
    match req {
        ShardRequirement::Single(a) | ShardRequirement::Phyrexian(a)
        | ShardRequirement::TwoGenericHybrid(a) => k.color == a,
        ShardRequirement::Hybrid(a, b) | ShardRequirement::HybridPhyrexian(a, b) => k.color == a
            || k.color == b,
        ShardRequirement::Snow => k.snow,
        ShardRequirement::X => false,
        ShardRequirement::ColorlessHybrid(a) => k.color == ManaType::Colorless || k.color == a,
    }
}

/// Whether a symbol can be paid without mana: with life, or because it asks for nothing.
pub open spec fn needs_no_mana(req: ShardRequirement) -> bool {
    req is Phyrexian || req is HybridPhyrexian || req is X
}

/// Whether mana can be shared out among the symbols of a cost from the place `i` on so that each
/// of them is paid and `owed` more mana of any kind are left. A symbol that two mana of any kind
/// can pay may add those to what is owed.
pub open spec fn coverable(
    offer: Multiset<Kind>,
    shards: Seq<ManaCostShard>,
    i: nat,
    owed: nat,
) -> bool
    decreases shards.len() - i,
{
    if i >= shards.len() {
        owed <= offer.len()
    } else {
        let req = requirement(shards[i as int]);
        ||| needs_no_mana(req) && coverable(offer, shards, i + 1, owed)
        ||| req is TwoGenericHybrid && coverable(offer, shards, i + 1, owed + 2)
        ||| exists|k: Kind| #[trigger]
            offer.count(k) > 0 && fits(k, req) && coverable(offer.remove(k), shards, i + 1, owed)
    }
}

/// Whether a pool can pay a cost: some share of the mana that may be spent pays every symbol and
/// leaves enough for the generic mana.
pub open spec fn covers(pool: Seq<ManaUnit>, cost: ManaCost, meta: Option<SpellMeta>) -> bool {
    match cost {
        ManaCost::NoCost | ManaCost::SelfManaCost => true,
        ManaCost::Cost { shards, generic } => coverable(
            on_offer(pool, meta),
            shards@,
            0,
            generic as nat,
        ),
    }
}

/// The place of a kind in a table of all kinds.
pub open spec fn place_of(k: Kind) -> int {
    let c = match k.color {
        ManaType::White => 0int,
        ManaType::Blue => 1,
        ManaType::Black => 2,
        ManaType::Red => 3,
        ManaType::Green => 4,
        ManaType::Colorless => 5,
    };
    if k.snow {
        c + 6
    } else {
        c
    }
}

/// How much mana of each kind there is, and how much of any kind is owed.
struct Stock {
    have: [usize; 12],
    total: usize,
    owed: u128,
    offer: Ghost<Multiset<Kind>>,
}

impl Stock {
    spec fn wf(self) -> bool {
        &&& forall|k: Kind| #[trigger] self.offer@.count(k) == self.have@[place_of(k)]
        &&& self.offer@.len() == self.total
    }

    spec fn pays(self, shards: Seq<ManaCostShard>, i: nat) -> bool {
        coverable(self.offer@, shards, i, self.owed as nat)
    }

    fn copy(&self) -> (r: Self)
        ensures
            r == *self,
    {
        Stock { have: self.have, total: self.total, owed: self.owed, offer: self.offer }
    }
}

fn place(k: Kind) -> (r: usize)
    ensures
        r == place_of(k),
        r < 12,
{
    let c: usize = match k.color {
        ManaType::White => 0,
        ManaType::Blue => 1,
        ManaType::Black => 2,
        ManaType::Red => 3,
        ManaType::Green => 4,
        ManaType::Colorless => 5,
    };
    if k.snow {
        c + 6
    } else {
        c
    }
}

fn kind_at(i: usize) -> (r: Kind)
    requires
        i < 12,
    ensures
        place_of(r) == i,
{
    let snow: bool = i >= 6;
    let c: usize = if snow {
        i - 6
    } else {
        i
    };
    let color = if c == 0 {
        ManaType::White
    } else if c == 1 {
        ManaType::Blue
    } else if c == 2 {
        ManaType::Black
    } else if c == 3 {
        ManaType::Red
    } else if c == 4 {
        ManaType::Green
    } else {
        ManaType::Colorless
    };
    Kind { color, snow }
}

fn kind_fits(k: Kind, req: ShardRequirement) -> (r: bool)
    ensures
        r == fits(k, req),
{
    match req {
        ShardRequirement::Single(a)
        | ShardRequirement::Phyrexian(a)
        | ShardRequirement::TwoGenericHybrid(a) => k.color == a,
        ShardRequirement::Hybrid(a, b) | ShardRequirement::HybridPhyrexian(a, b) => k.color == a
            || k.color == b,
        ShardRequirement::Snow => k.snow,
        ShardRequirement::X => false,
        ShardRequirement::ColorlessHybrid(a) => k.color == ManaType::Colorless || k.color == a,
    }
}

/// Whether a unit may be spent, on the spell where one is given.
fn may_be_spent(u: &ManaUnit, spell: Option<&SpellMeta>) -> (r: bool)
    ensures
        r == usable(*u, opt_meta(spell)),
{
    match spell {
        Some(meta) => u.allows(meta),
        None => true,
    }
}

/// Counts the mana of a pool that may be spent.
fn stock_of(pool: &ManaPool, spell: Option<&SpellMeta>, owed: u128) -> (r: Stock)
    ensures
        r.wf(),
        r.owed == owed,
        r.offer@ == on_offer(pool.mana@, opt_meta(spell)),
{
    broadcast use vstd::multiset::group_multiset_axioms;

    let ghost meta = opt_meta(spell);
    let ghost units = pool.mana@;
    let mut have: [usize; 12] = [0; 12];
    let mut total: usize = 0;
    let mut i: usize = 0;
    while i < pool.mana.len()
        invariant
            i <= units.len(),
            units == pool.mana@,
            meta == opt_meta(spell),
            total <= i,
            forall|j: int| 0 <= j < 12 ==> #[trigger] have@[j] <= i,
            forall|k: Kind| #[trigger]
                on_offer(units.take(i as int), meta).count(k) == have@[place_of(k)],
            on_offer(units.take(i as int), meta).len() == total,
        decreases units.len() - i,
    {
        broadcast use vstd::multiset::group_multiset_axioms;

        assert(units.take(i + 1).drop_last() =~= units.take(i as int));
        assert(units.take(i + 1).last() == units[i as int]);
        if may_be_spent(&pool.mana[i], spell) {
            let k = Kind { color: pool.mana[i].color, snow: pool.mana[i].snow };
            let at: usize = place(k);
            have[at] = have[at] + 1;
            total += 1;
            assert forall|q: Kind| #[trigger]
                on_offer(units.take(i + 1), meta).count(q) == have@[place_of(q)] by {
                if q != k {
                    assert(place_of(q) != place_of(k));
                }
            }
        }
        i += 1;
    }
    assert(units.take(i as int) =~= units);
    Stock { have, total, owed, offer: Ghost(on_offer(units, meta)) }
}

/// The stock without one mana of a kind.
fn less_one(s: &Stock, k: Kind) -> (r: Stock)
    requires
        s.wf(),
        s.offer@.count(k) > 0,
    ensures
        r.wf(),
        r.owed == s.owed,
        r.offer@ == s.offer@.remove(k),
{
    broadcast use vstd::multiset::group_multiset_axioms;

    let mut r = s.copy();
    let at: usize = place(k);
    assert(s.offer@.count(k) <= s.offer@.len());
    r.have[at] = r.have[at] - 1;
    r.total = r.total - 1;
    r.offer = Ghost(s.offer@.remove(k));
    assert forall|q: Kind| #[trigger] r.offer@.count(q) == r.have@[place_of(q)] by {
        if q != k {
            assert(place_of(q) != place_of(k));
            assert(s.offer@.count(q) == s.have@[place_of(q)]);
        } else {
            assert(s.offer@.count(k) == s.have@[place_of(k)]);
        }
    }
    r
}

/// Whether one of some stocks pays for the symbols from the place `i` on.
spec fn one_pays(list: Seq<Stock>, shards: Seq<ManaCostShard>, i: nat) -> bool {
    exists|j: int| 0 <= j < list.len() && (#[trigger] list[j]).pays(shards, i)
}

/// Whether stocks are well formed and none owes more than `most`.
spec fn all_wf(list: Seq<Stock>, most: nat) -> bool {
    forall|j: int| 0 <= j < list.len() ==> (#[trigger] list[j]).wf() && list[j].owed <= most
}

fn same_stock(a: &Stock, b: &Stock) -> (r: bool)
    requires
        a.wf(),
        b.wf(),
    ensures
        r ==> a.offer@ == b.offer@ && a.owed == b.owed,
{
    if a.owed != b.owed {
        return false;
    }
    let mut i: usize = 0;
    while i < 12
        invariant
            i <= 12,
            forall|j: int| 0 <= j < i ==> #[trigger] a.have@[j] == b.have@[j],
        decreases 12 - i,
    {
        if a.have[i] != b.have[i] {
            return false;
        }
        i += 1;
    }
    assert forall|k: Kind| #[trigger] a.offer@.count(k) == b.offer@.count(k) by {
        assert(a.have@[place_of(k)] == b.have@[place_of(k)]);
    }
    assert(a.offer@ =~= b.offer@);
    true
}

/// Adds a stock to some, unless one like it is there.
fn add_stock(
    list: &mut Vec<Stock>,
    s: Stock,
    Ghost(shards): Ghost<Seq<ManaCostShard>>,
    Ghost(i): Ghost<nat>,
    Ghost(most): Ghost<nat>,
)
    requires
        all_wf(old(list)@, most),
        s.wf(),
        s.owed <= most,
    ensures
        all_wf(final(list)@, most),
        one_pays(final(list)@, shards, i) == (one_pays(old(list)@, shards, i) || s.pays(shards, i)),
{
    let mut j: usize = 0;
    while j < list.len()
        invariant
            j <= list@.len(),
            list@ == old(list)@,
            all_wf(list@, most),
            s.wf(),
        decreases list.len() - j,
    {
        if same_stock(&list[j], &s) {
            assert(list@[j as int].pays(shards, i) == s.pays(shards, i));
            return;
        }
        j += 1;
    }
    let ghost before = list@;
    list.push(s);
    proof {
        assert(list@[before.len() as int] == s);
        assert(forall|j: int| 0 <= j < before.len() ==> list@[j] == #[trigger] before[j]);
        if one_pays(before, shards, i) {
            let j = choose|j: int| 0 <= j < before.len() && (#[trigger] before[j]).pays(shards, i);
            assert(list@[j].pays(shards, i));
        }
    }
}

/// Adds what paying a symbol in each possible way leaves of a stock.
fn add_ways(
    list: &mut Vec<Stock>,
    s: &Stock,
    req: ShardRequirement,
    Ghost(shards): Ghost<Seq<ManaCostShard>>,
    Ghost(i): Ghost<nat>,
    Ghost(most): Ghost<nat>,
)
    requires
        all_wf(old(list)@, most),
        s.wf(),
        i < shards.len(),
        req == requirement(shards[i as int]),
        s.owed + 2 <= most <= u128::MAX,
    ensures
        all_wf(final(list)@, most),
        one_pays(final(list)@, shards, i + 1) == (one_pays(old(list)@, shards, i + 1) || s.pays(
            shards,
            i,
        )),
{
    let no_mana: bool = matches!(
        req,
        ShardRequirement::Phyrexian(_) | ShardRequirement::HybridPhyrexian(_, _) | ShardRequirement::X
    );
    if no_mana {
        add_stock(list, s.copy(), Ghost(shards), Ghost(i + 1), Ghost(most));
    }
    if matches!(req, ShardRequirement::TwoGenericHybrid(_)) {
        let mut more = s.copy();
        more.owed = s.owed + 2;
        add_stock(list, more, Ghost(shards), Ghost(i + 1), Ghost(most));
    }
    let ghost mid = list@;
    let mut c: usize = 0;
    while c < 12
        invariant
            c <= 12,
            all_wf(list@, most),
            s.wf(),
            s.owed <= most,
            one_pays(list@, shards, i + 1) == (one_pays(mid, shards, i + 1) || exists|k: Kind|
                #[trigger] s.offer@.count(k) > 0 && place_of(k) < c && fits(k, req) && coverable(
                    s.offer@.remove(k),
                    shards,
                    i + 1,
                    s.owed as nat,
                )),
        decreases 12 - c,
    {
        let k = kind_at(c);
        assert(s.offer@.count(k) == s.have@[place_of(k)]);
        assert(forall|q: Kind| place_of(q) == place_of(k) ==> q == k);
        if s.have[c] > 0 && kind_fits(k, req) {
            add_stock(list, less_one(s, k), Ghost(shards), Ghost(i + 1), Ghost(most));
        }
        c += 1;
    }
}

/// Whether a stock pays for the symbols of a cost from a place on.
fn can_cover(start: Stock, shards: &Vec<ManaCostShard>, from: usize) -> (r: bool)
    requires
        start.wf(),
        from <= shards@.len(),
        start.owed <= u64::MAX as u128 * 4,
    ensures
        r == start.pays(shards@, from as nat),
{
    let ghost list = shards@;
    let ghost goal = start.pays(list, from as nat);
    let ghost base = start.owed;
    let mut stocks: Vec<Stock> = Vec::new();
    stocks.push(start);
    assert(stocks@[0].pays(list, from as nat) == goal);
    let mut i: usize = from;
    while i < shards.len()
        invariant
            from <= i <= list.len(),
            list == shards@,
            base <= u64::MAX as u128 * 4,
            all_wf(stocks@, (base + 2 * i) as nat),
            one_pays(stocks@, list, i as nat) == goal,
        decreases list.len() - i,
    {
        let req = shard_to_mana_type(shards[i]);
        let mut next: Vec<Stock> = Vec::new();
        let mut j: usize = 0;
        while j < stocks.len()
            invariant
                j <= stocks@.len(),
                i < list.len(),
                list == shards@,
                req == requirement(list[i as int]),
                base <= u64::MAX as u128 * 4,
                all_wf(stocks@, (base + 2 * i) as nat),
                all_wf(next@, (base + 2 * (i + 1)) as nat),
                one_pays(next@, list, (i + 1) as nat) == exists|m: int|
                    0 <= m < j && (#[trigger] stocks@[m]).pays(list, i as nat),
            decreases stocks.len() - j,
        {
            add_ways(
                &mut next,
                &stocks[j],
                req,
                Ghost(list),
                Ghost(i as nat),
                Ghost((base + 2 * (i + 1)) as nat),
            );
            j += 1;
        }
        stocks = next;
        i += 1;
    }
    let mut j: usize = 0;
    while j < stocks.len()
        invariant
            j <= stocks@.len(),
            all_wf(stocks@, (base + 2 * list.len()) as nat),
            forall|m: int| 0 <= m < j ==> !(#[trigger] stocks@[m]).pays(list, list.len()),
            one_pays(stocks@, list, list.len()) == goal,
            goal == start.pays(shards@, from as nat),
        decreases stocks.len() - j,
    {
        if stocks[j].owed <= stocks[j].total as u128 {
            assert(stocks@[j as int].pays(list, list.len()));
            return true;
        }
        j += 1;
    }
    false
}

// ---------------------------------------------------------------------------
// What is paid
// ---------------------------------------------------------------------------

/// A payment under way: what the pool still holds, what was spent, how often life was paid, and
/// how much mana of any type is still owed.
pub struct Purse {
    pub pool: Seq<ManaUnit>,
    pub spent: Seq<ManaUnit>,
    pub life: nat,
    pub owed: nat,
}

/// The purse after the unit and the rest of the pool that spending one mana gives.
pub open spec fn then_spent(p: Purse, taken: Option<(ManaUnit, Seq<ManaUnit>)>) -> Option<Purse> {
    match taken {
        Some((u, rest)) => Some(Purse { pool: rest, spent: p.spent.push(u), ..p }),
        None => None,
    }
}

/// The purse after life was paid once.
pub open spec fn then_bled(p: Purse) -> Purse {
    Purse { life: p.life + 1, ..p }
}

/// Spending two mana of any type.
pub open spec fn spend_two(p: Purse, meta: Option<SpellMeta>) -> Option<Purse> {
    match then_spent(p, spend_generic(p.pool, meta)) {
        Some(q) => then_spent(q, spend_generic(q.pool, meta)),
        None => None,
    }
}

/// A symbol of a cost that is paid next for a spell.
pub struct Step {
    pub shards: Seq<ManaCostShard>,
    pub i: nat,
    pub meta: Option<SpellMeta>,
}

/// Whether what follows a step can be paid out of a purse.
pub open spec fn rest_is_covered(p: Purse, step: Step) -> bool {
    coverable(on_offer(p.pool, step.meta), step.shards, step.i + 1, p.owed)
}

/// A unit that may be spent, is of a type and can be spared: without it what follows can be paid.
pub open spec fn spared_of(p: Purse, c: ManaType, step: Step) -> spec_fn(ManaUnit) -> bool {
    |u: ManaUnit|
        u.color == c && usable(u, step.meta) && coverable(
            on_offer(p.pool, step.meta).remove(kind_of(u)),
            step.shards,
            step.i + 1,
            p.owed,
        )
}

/// A unit from a snow source that may be spent and can be spared.
pub open spec fn spared_snow(p: Purse, step: Step) -> spec_fn(ManaUnit) -> bool {
    |u: ManaUnit|
        u.snow && usable(u, step.meta) && coverable(
            on_offer(p.pool, step.meta).remove(kind_of(u)),
            step.shards,
            step.i + 1,
            p.owed,
        )
}

/// The purse after the first unit of a type that can be spared was spent.
pub open spec fn pay_with(p: Purse, c: ManaType, step: Step) -> Option<Purse> {
    then_spent(p, take_first(p.pool, spared_of(p, c, step)))
}

/// The first of two purses, if there is one.
pub open spec fn rather(a: Option<Purse>, b: Option<Purse>) -> Option<Purse> {
    if a is Some {
        a
    } else {
        b
    }
}

/// The other half of a hybrid symbol.
pub open spec fn other_half(h: ManaType, a: ManaType, b: ManaType) -> ManaType {
    if h == a {
        b
    } else {
        a
    }
}

/// The purse after one half of a hybrid symbol was spent: the preferred one if it can be spared.
pub open spec fn pay_half(
    p: Purse,
    a: ManaType,
    b: ManaType,
    demand: Option<Seq<u32>>,
    step: Step,
) -> Option<Purse> {
    let h = hybrid_choice(p.pool, a, b, demand, step.meta);
    rather(pay_with(p, h, step), pay_with(p, other_half(h, a, b), step))
}

/// The purse after two mana of any type were spent, or are owed where those that would be spent
/// now are needed.
pub open spec fn pay_two(p: Purse, step: Step) -> Purse {
    match spend_two(p, step.meta) {
        Some(q) => if rest_is_covered(q, step) {
            q
        } else {
            Purse { owed: p.owed + 2, ..p }
        },
        None => Purse { owed: p.owed + 2, ..p },
    }
}

/// The purse after one symbol was paid; `None` where it cannot be paid. Mana that what follows
/// cannot do without is not spent.
pub open spec fn pay_shard(p: Purse, demand: Option<Seq<u32>>, step: Step) -> Option<Purse> {
    match requirement(step.shards[step.i as int]) {
        ShardRequirement::Single(c) => pay_with(p, c, step),
        ShardRequirement::Hybrid(a, b) => pay_half(p, a, b, demand, step),
        ShardRequirement::Phyrexian(c) => rather(pay_with(p, c, step), Some(then_bled(p))),
        ShardRequirement::TwoGenericHybrid(c) => rather(
            pay_with(p, c, step),
            Some(pay_two(p, step)),
        ),
        ShardRequirement::Snow => then_spent(p, take_first(p.pool, spared_snow(p, step))),
        ShardRequirement::X => Some(p),
        ShardRequirement::ColorlessHybrid(c) => rather(
            pay_with(p, ManaType::Colorless, step),
            pay_with(p, c, step),
        ),
        ShardRequirement::HybridPhyrexian(a, b) => rather(
            pay_half(p, a, b, demand, step),
            Some(then_bled(p)),
        ),
    }
}

/// The purse after the first `n` symbols were paid in order.
pub open spec fn pay_shards(
    p: Purse,
    shards: Seq<ManaCostShard>,
    n: nat,
    demand: Option<Seq<u32>>,
    meta: Option<SpellMeta>,
) -> Option<Purse>
    decreases n,
{
    if n == 0 || n > shards.len() {
        Some(p)
    } else {
        match pay_shards(p, shards, (n - 1) as nat, demand, meta) {
            Some(q) => pay_shard(q, demand, Step { shards, i: (n - 1) as nat, meta }),
            None => None,
        }
    }
}

/// The purse after `n` mana of any type were paid.
pub open spec fn pay_generic(p: Purse, n: nat, meta: Option<SpellMeta>) -> Option<Purse>
    decreases n,
{
    if n == 0 {
        Some(p)
    } else {
        match pay_generic(p, (n - 1) as nat, meta) {
            Some(q) => then_spent(q, spend_generic(q.pool, meta)),
            None => None,
        }
    }
}

/// A payment that has not begun.
pub open spec fn fresh(pool: Seq<ManaUnit>, owed: nat) -> Purse {
    Purse { pool, spent: Seq::empty(), life: 0, owed }
}

/// The purse after a whole cost was paid: its symbols in order, then the mana of any type. `None`
/// where the pool cannot pay it.
pub open spec fn payment(
    pool: Seq<ManaUnit>,
    cost: ManaCost,
    demand: Option<Seq<u32>>,
    meta: Option<SpellMeta>,
) -> Option<Purse> {
    match cost {
        ManaCost::NoCost | ManaCost::SelfManaCost => Some(fresh(pool, 0)),
        ManaCost::Cost { shards, generic } => if covers(pool, cost, meta) {
            match pay_shards(fresh(pool, generic as nat), shards@, shards@.len(), demand, meta) {
                Some(q) => pay_generic(q, q.owed, meta),
                None => None,
            }
        } else {
            None
        },
    }
}

// ---------------------------------------------------------------------------
// What spending one mana does to what is on offer
// ---------------------------------------------------------------------------

proof fn lemma_offer_joined(a: Seq<ManaUnit>, b: Seq<ManaUnit>, meta: Option<SpellMeta>)
    ensures
        on_offer(a + b, meta) == on_offer(a, meta).add(on_offer(b, meta)),
    decreases b.len(),
{
    broadcast use vstd::multiset::group_multiset_axioms;

    if b.len() == 0 {
        assert(a + b =~= a);
        assert(on_offer(a, meta).add(Multiset::empty()) =~= on_offer(a, meta));
    } else {
        lemma_offer_joined(a, b.drop_last(), meta);
        assert((a + b).drop_last() =~= a + b.drop_last());
        assert((a + b).last() == b.last());
        assert(on_offer(a + b, meta) =~= on_offer(a, meta).add(on_offer(b, meta)));
    }
}

proof fn lemma_offer_of_one(u: ManaUnit, meta: Option<SpellMeta>)
    ensures
        on_offer(seq![u], meta) == (if usable(u, meta) {
            Multiset::empty().insert(kind_of(u))
        } else {
            Multiset::empty()
        }),
{
    assert(seq![u].drop_last() =~= Seq::<ManaUnit>::empty());
    assert(seq![u].last() == u);
    reveal_with_fuel(on_offer, 2);
}

proof fn lemma_offer_less_one(pool: Seq<ManaUnit>, i: int, meta: Option<SpellMeta>)
    requires
        0 <= i < pool.len(),
        usable(pool[i], meta),
    ensures
        on_offer(pool, meta).count(kind_of(pool[i])) > 0,
        on_offer(without(pool, i), meta) == on_offer(pool, meta).remove(kind_of(pool[i])),
        on_offer(without(pool, i), meta).len() + 1 == on_offer(pool, meta).len(),
{
    broadcast use vstd::multiset::group_multiset_axioms;

    let u = pool[i];
    let a = pool.take(i);
    let z = pool.skip(i + 1);
    assert(pool =~= a + seq![u] + z);
    lemma_offer_of_one(u, meta);
    lemma_offer_joined(a, seq![u], meta);
    lemma_offer_joined(a + seq![u], z, meta);
    let one = Multiset::<Kind>::empty().insert(kind_of(u));
    let rest = on_offer(a, meta).add(on_offer(z, meta));
    if i == pool.len() - 1 {
        assert(without(pool, i) =~= a);
        assert(z =~= Seq::<ManaUnit>::empty());
        assert(rest =~= on_offer(a, meta));
    } else {
        let y = z.drop_last();
        let l = z.last();
        assert(without(pool, i) =~= a + seq![l] + y);
        assert(z =~= y + seq![l]);
        lemma_offer_of_one(l, meta);
        lemma_offer_joined(a, seq![l], meta);
        lemma_offer_joined(a + seq![l], y, meta);
        lemma_offer_joined(y, seq![l], meta);
        assert(on_offer(without(pool, i), meta) =~= rest);
    }
    assert(on_offer(pool, meta) =~= rest.add(one));
    assert(on_offer(pool, meta).remove(kind_of(u)) =~= rest);
}

/// A kind that is on offer is that of a unit that may be spent.
proof fn lemma_offered(pool: Seq<ManaUnit>, k: Kind, meta: Option<SpellMeta>) -> (i: int)
    requires
        on_offer(pool, meta).count(k) > 0,
    ensures
        0 <= i < pool.len(),
        usable(pool[i], meta),
        kind_of(pool[i]) == k,
    decreases pool.len(),
{
    broadcast use vstd::multiset::group_multiset_axioms;

    if usable(pool.last(), meta) && kind_of(pool.last()) == k {
        pool.len() - 1
    } else {
        lemma_offered(pool.drop_last(), k, meta)
    }
}

proof fn lemma_some_first(pool: Seq<ManaUnit>, p: spec_fn(ManaUnit) -> bool, k: int)
    requires
        0 <= k < pool.len(),
        p(pool[k]),
    ensures
        first_where(pool, p) is Some,
        0 <= first_where(pool, p)->0 <= k,
        is_first(pool, p, first_where(pool, p)->0),
    decreases k,
{
    if forall|j: int| 0 <= j < k ==> !p(#[trigger] pool[j]) {
        assert(is_first(pool, p, k));
        lemma_first_where(pool, p, k);
    } else {
        let j = choose|j: int| 0 <= j < k && p(#[trigger] pool[j]);
        lemma_some_first(pool, p, j);
    }
}

/// What is on offer after a unit was taken that may be spent.
proof fn lemma_taken(pool: Seq<ManaUnit>, p: spec_fn(ManaUnit) -> bool, meta: Option<SpellMeta>)
    requires
        forall|u: ManaUnit| #[trigger] p(u) ==> usable(u, meta),
    ensures
        match take_first(pool, p) {
            Some((u, rest)) => {
                &&& p(u)
                &&& on_offer(pool, meta).count(kind_of(u)) > 0
                &&& on_offer(rest, meta) == on_offer(pool, meta).remove(kind_of(u))
                &&& on_offer(rest, meta).len() + 1 == on_offer(pool, meta).len()
            },
            None => true,
        },
{
    if take_first(pool, p) is Some {
        let i = choose|i: int| is_first(pool, p, i);
        assert(is_first(pool, p, i));
        lemma_offer_less_one(pool, i, meta);
    }
}

proof fn lemma_take_of_color(pool: Seq<ManaUnit>, c: ManaType, meta: Option<SpellMeta>)
    ensures
        take_first(pool, eligible(c, meta)) is Some <==> usable_of(pool, c, meta) > 0,
{
    let p = eligible(c, meta);
    lemma_count_positive_where(pool, p);
    if usable_of(pool, c, meta) > 0 {
        let k = choose|i: int| 0 <= i < pool.len() && p(#[trigger] pool[i]);
        lemma_some_first(pool, p, k);
    } else {
        assert forall|j: int| 0 <= j < pool.len() implies !p(#[trigger] pool[j]) by {}
        lemma_first_where_none(pool, p);
    }
}

proof fn lemma_scarcest(pool: Seq<ManaUnit>, meta: Option<SpellMeta>, n: nat)
    requires
        n <= 5,
    ensures
        match scarcest(pool, meta, n) {
            Some(c) => usable_of(pool, c, meta) > 0,
            None => forall|j: int|
                0 <= j < n ==> usable_of(pool, #[trigger] five_colors()[j], meta) == 0,
        },
    decreases n,
{
    if n > 0 {
        lemma_scarcest(pool, meta, (n - 1) as nat);
    }
}

/// One mana of any type can be spent exactly when some is on offer, which is then one less.
proof fn lemma_spend_generic(pool: Seq<ManaUnit>, meta: Option<SpellMeta>)
    ensures
        spend_generic(pool, meta) is Some <==> on_offer(pool, meta).len() > 0,
        match spend_generic(pool, meta) {
            Some((u, rest)) => {
                &&& usable(u, meta)
                &&& on_offer(rest, meta) == on_offer(pool, meta).remove(kind_of(u))
                &&& on_offer(rest, meta).len() + 1 == on_offer(pool, meta).len()
            },
            None => true,
        },
{
    broadcast use vstd::multiset::group_multiset_axioms;

    lemma_take_of_color(pool, ManaType::Colorless, meta);
    lemma_taken(pool, eligible(ManaType::Colorless, meta), meta);
    lemma_scarcest(pool, meta, 5);
    match scarcest(pool, meta, 5) {
        Some(c) => {
            lemma_take_of_color(pool, c, meta);
            lemma_taken(pool, eligible(c, meta), meta);
        },
        None => {
            if on_offer(pool, meta).len() > 0 {
                let k = on_offer(pool, meta).choose();
                let i = lemma_offered(pool, k, meta);
                let c = k.color;
                assert(eligible(c, meta)(pool[i]));
                lemma_count_positive_where(pool, eligible(c, meta));
                assert(five_colors()[0] == ManaType::White);
                assert(five_colors()[1] == ManaType::Blue);
                assert(five_colors()[2] == ManaType::Black);
                assert(five_colors()[3] == ManaType::Red);
                assert(five_colors()[4] == ManaType::Green);
            }
        },
    }
}

/// A symbol that is covered together with what follows is paid, and what follows stays covered.
proof fn lemma_shard_is_paid(p: Purse, demand: Option<Seq<u32>>, step: Step)
    requires
        step.i < step.shards.len(),
        coverable(on_offer(p.pool, step.meta), step.shards, step.i, p.owed),
    ensures
        pay_shard(p, demand, step) is Some,
        rest_is_covered(pay_shard(p, demand, step)->0, step),
        pay_shard(p, demand, step)->0.owed <= p.owed + 2,
{
    let meta = step.meta;
    let offer = on_offer(p.pool, meta);
    let req = requirement(step.shards[step.i as int]);
    lemma_taken(p.pool, spared_snow(p, step), meta);
    assert forall|c: ManaType| (#[trigger] pay_with(p, c, step)) is Some implies rest_is_covered(
        pay_with(p, c, step)->0,
        step,
    ) && pay_with(p, c, step)->0.owed == p.owed by {
        lemma_taken(p.pool, spared_of(p, c, step), meta);
    }
    if exists|k: Kind| #[trigger]
        offer.count(k) > 0 && fits(k, req) && coverable(
            offer.remove(k),
            step.shards,
            step.i + 1,
            p.owed,
        ) {
        let k = choose|k: Kind| #[trigger]
            offer.count(k) > 0 && fits(k, req) && coverable(
                offer.remove(k),
                step.shards,
                step.i + 1,
                p.owed,
            );
        let i = lemma_offered(p.pool, k, meta);
        assert(spared_of(p, k.color, step)(p.pool[i]));
        lemma_some_first(p.pool, spared_of(p, k.color, step), i);
        assert(pay_with(p, k.color, step) is Some);
        if k.snow {
            assert(spared_snow(p, step)(p.pool[i]));
            lemma_some_first(p.pool, spared_snow(p, step), i);
        }
    }
}

proof fn lemma_generic_is_paid(p: Purse, n: nat, meta: Option<SpellMeta>)
    requires
        n <= on_offer(p.pool, meta).len(),
    ensures
        pay_generic(p, n, meta) is Some,
        on_offer(pay_generic(p, n, meta)->0.pool, meta).len() + n == on_offer(p.pool, meta).len(),
    decreases n,
{
    if n > 0 {
        lemma_generic_is_paid(p, (n - 1) as nat, meta);
        lemma_spend_generic(pay_generic(p, (n - 1) as nat, meta)->0.pool, meta);
    }
}

// ---------------------------------------------------------------------------
// Paying
// ---------------------------------------------------------------------------

fn count_usable(pool: &ManaPool, color: ManaType, spell: Option<&SpellMeta>) -> (n: usize)
    ensures
        n == usable_of(pool.mana@, color, opt_meta(spell)),
{
    let ghost units = pool.mana@;
    let ghost p = eligible(color, opt_meta(spell));
    let mut n: usize = 0;
    let mut i: usize = 0;
    while i < pool.mana.len()
        invariant
            n <= i <= units.len(),
            units == pool.mana@,
            p == eligible(color, opt_meta(spell)),
            n == count_where(units.take(i as int), p),
        decreases units.len() - i,
    {
        proof {
            lemma_count_next(units, i as int, p);
        }
        if pool.mana[i].color == color && may_be_spent(&pool.mana[i], spell) {
            assert(p(units[i as int]));
            n += 1;
        } else {
            assert(!p(units[i as int]));
        }
        i += 1;
    }
    assert(units.take(i as int) =~= units);
    n
}

fn spend_any_unit(pool: &mut ManaPool, spell: Option<&SpellMeta>) -> (r: Option<ManaUnit>)
    ensures
        match spend_generic(old(pool).mana@, opt_meta(spell)) {
            Some((u, rest)) => r == Some(u) && final(pool).mana@ == rest,
            None => r is None && final(pool).mana@ == old(pool).mana@,
        },
{
    if let Some(unit) = spend_eligible(pool, ManaType::Colorless, spell) {
        return Some(unit);
    }
    let colors = [
        ManaType::White,
        ManaType::Blue,
        ManaType::Black,
        ManaType::Red,
        ManaType::Green,
    ];
    let mut best: Option<(ManaType, usize)> = None;
    let mut i: usize = 0;
    while i < 5
        invariant
            i <= 5,
            colors@ == five_colors(),
            match best {
                Some((c, n)) => scarcest(pool.mana@, opt_meta(spell), i as nat) == Some(c) && n
                    == usable_of(pool.mana@, c, opt_meta(spell)),
                None => scarcest(pool.mana@, opt_meta(spell), i as nat) is None,
            },
        decreases 5 - i,
    {
        let color = colors[i];
        let count: usize = count_usable(pool, color, spell);
        if count > 0 {
            best = match best {
                None => Some((color, count)),
                Some((c, n)) => if count < n {
                    Some((color, count))
                } else {
                    Some((c, n))
                },
            };
        }
        i += 1;
    }
    match best {
        Some((color, _)) => spend_eligible(pool, color, spell),
        None => None,
    }
}

/// Spends one mana of the given type, on the spell where one is given.
fn spend_eligible(pool: &mut ManaPool, color: ManaType, spell: Option<&SpellMeta>) -> (r: Option<
    ManaUnit,
>)
    ensures
        took(old(pool).mana@, eligible(color, opt_meta(spell)), final(pool).mana@, r),
{
    match spell {
        Some(meta) => pool.spend_for(color, meta),
        None => pool.spend(color),
    }
}

/// A demand that is referred to, as a sequence.
pub open spec fn opt_demand(demand: Option<&ColorDemand>) -> Option<Seq<u32>> {
    match demand {
        Some(d) => Some(d@),
        None => None,
    }
}

fn need_of(mt: ManaType, demand: &ColorDemand) -> (r: u32)
    ensures
        r == (match demand_index(mt) {
            Some(i) => demand@[i] as int,
            None => 0int,
        }),
{
    match mana_type_to_demand_index(mt) {
        Some(i) => demand[i],
        None => 0,
    }
}

/// The half of a hybrid symbol that is spent by preference.
fn auto_pay_hybrid(
    pool: &ManaPool,
    a: ManaType,
    b: ManaType,
    hand_demand: Option<&ColorDemand>,
    spell: Option<&SpellMeta>,
) -> (r: ManaType)
    ensures
        r == hybrid_choice(pool.mana@, a, b, opt_demand(hand_demand), opt_meta(spell)),
{
    let count_a: usize = count_usable(pool, a, spell);
    let count_b: usize = count_usable(pool, b, spell);
    if count_a == 0 {
        return b;
    }
    if count_b == 0 {
        return a;
    }
    if let Some(demand) = hand_demand {
        let demand_a: u32 = need_of(a, demand);
        let demand_b: u32 = need_of(b, demand);
        if demand_a != demand_b {
            return if demand_a < demand_b {
                a
            } else {
                b
            };
        }
    }
    if count_a >= count_b {
        a
    } else {
        b
    }
}

/// A list of `n` payments of two life, each still without its player.
pub open spec fn life_list(payments: Seq<LifePayment>, n: nat) -> bool {
    payments =~= Seq::new(n, |i: int| LifePayment { player_id: PlayerId(0), amount: 2 })
}

/// The most that can be owed while the first `i` symbols are paid.
spec fn owed_at_most(i: nat) -> nat {
    (u32::MAX + 2 * i) as nat
}

/// A payment under way.
struct Payment<'a> {
    spent: Vec<ManaUnit>,
    life: Vec<LifePayment>,
    owed: u128,
    shards: &'a Vec<ManaCostShard>,
    spell: Option<&'a SpellMeta>,
}

impl<'a> Payment<'a> {
    spec fn purse(self, pool: ManaPool) -> Purse {
        Purse {
            pool: pool.mana@,
            spent: self.spent@,
            life: self.life@.len(),
            owed: self.owed as nat,
        }
    }

    spec fn step(self, i: nat) -> Step {
        Step { shards: self.shards@, i, meta: opt_meta(self.spell) }
    }

    spec fn wf(self, i: nat) -> bool {
        &&& life_list(self.life@, self.life@.len())
        &&& self.owed <= owed_at_most(i)
        &&& i <= self.shards@.len()
    }

    /// Whether two payments are for the same spell and the same cost.
    spec fn same_cost(self, other: Payment<'a>) -> bool {
        self.shards == other.shards && self.spell == other.spell
    }

    /// Whether what follows the symbol at a place can be paid without one mana of a kind.
    fn spares(&self, pool: &ManaPool, i: usize, k: Kind) -> (r: bool)
        requires
            self.wf(i as nat),
            i < self.shards@.len(),
            on_offer(pool.mana@, opt_meta(self.spell)).count(k) > 0,
        ensures
            r == coverable(
                on_offer(pool.mana@, opt_meta(self.spell)).remove(k),
                self.shards@,
                (i + 1) as nat,
                self.owed as nat,
            ),
    {
        let stock = stock_of(pool, self.spell, self.owed);
        assert(i < self.shards.len());
        can_cover(less_one(&stock, k), self.shards, i + 1)
    }

    /// Spends the first unit of a type, or the first from a snow source where no type is given,
    /// that can be spared.
    fn spend_spared(&mut self, pool: &mut ManaPool, i: usize, color: Option<ManaType>) -> (ok: bool)
        requires
            old(self).wf(i as nat),
            i < old(self).shards@.len(),
        ensures
            final(self).wf(i as nat),
            final(self).same_cost(*old(self)),
            ({
                let p = old(self).purse(*old(pool));
                let step = old(self).step(i as nat);
                let f = match color {
                    Some(c) => spared_of(p, c, step),
                    None => spared_snow(p, step),
                };
                match then_spent(p, take_first(p.pool, f)) {
                    Some(q) => ok && final(self).purse(*final(pool)) == q,
                    None => !ok && *final(self) == *old(self) && *final(pool) == *old(pool),
                }
            }),
    {
        let ghost p = self.purse(*pool);
        let ghost step = self.step(i as nat);
        let ghost f = match color {
            Some(c) => spared_of(p, c, step),
            None => spared_snow(p, step),
        };
        let ghost units = pool.mana@;
        let mut j: usize = 0;
        while j < pool.mana.len()
            invariant
                j <= units.len(),
                units == pool.mana@,
                *self == *old(self),
                *pool == *old(pool),
                self.wf(i as nat),
                i < self.shards@.len(),
                p == self.purse(*pool),
                step == self.step(i as nat),
                f == (match color {
                    Some(c) => spared_of(p, c, step),
                    None => spared_snow(p, step),
                }),
                forall|m: int| 0 <= m < j ==> !f(#[trigger] units[m]),
            decreases units.len() - j,
        {
            let k = Kind { color: pool.mana[j].color, snow: pool.mana[j].snow };
            let wanted: bool = match color {
                Some(c) => k.color == c,
                None => k.snow,
            };
            let mut fine: bool = false;
            if wanted && may_be_spent(&pool.mana[j], self.spell) {
                proof {
                    lemma_offer_less_one(units, j as int, step.meta);
                }
                fine = self.spares(pool, i, k);
            }
            assert(fine == f(units[j as int]));
            if fine {
                proof {
                    lemma_first_where(units, f, j as int);
                }
                let unit = pool.mana.swap_remove(j);
                assert(pool.mana@ =~= without(units, j as int));
                self.spent.push(unit);
                return true;
            }
            j += 1;
        }
        proof {
            lemma_first_where_none(units, f);
        }
        false
    }

    /// Spends one half of a hybrid symbol.
    fn spend_half(
        &mut self,
        pool: &mut ManaPool,
        i: usize,
        a: ManaType,
        b: ManaType,
        hand_demand: Option<&ColorDemand>,
    ) -> (ok: bool)
        requires
            old(self).wf(i as nat),
            i < old(self).shards@.len(),
        ensures
            final(self).wf(i as nat),
            final(self).same_cost(*old(self)),
            match pay_half(
                old(self).purse(*old(pool)),
                a,
                b,
                opt_demand(hand_demand),
                old(self).step(i as nat),
            ) {
                Some(q) => ok && final(self).purse(*final(pool)) == q,
                None => !ok && *final(self) == *old(self) && *final(pool) == *old(pool),
            },
    {
        let half = auto_pay_hybrid(pool, a, b, hand_demand, self.spell);
        if self.spend_spared(pool, i, Some(half)) {
            return true;
        }
        let other = if half == a {
            b
        } else {
            a
        };
        self.spend_spared(pool, i, Some(other))
    }

    /// Pays life once.
    fn bleed(&mut self)
        ensures
            final(self).same_cost(*old(self)),
            final(self).owed == old(self).owed,
            final(self).spent == old(self).spent,
            final(self).life@.len() == old(self).life@.len() + 1,
            life_list(old(self).life@, old(self).life@.len()) ==> life_list(
                final(self).life@,
                final(self).life@.len(),
            ),
    {
        self.life.push(LifePayment { player_id: PlayerId(0), amount: 2 });
    }

    /// Spends two mana of any type, or lets them be owed where those are needed.
    fn spend_or_owe_two(&mut self, pool: &mut ManaPool, i: usize)
        requires
            old(self).wf(i as nat),
            i < old(self).shards@.len(),
        ensures
            final(self).wf((i + 1) as nat),
            final(self).same_cost(*old(self)),
            final(self).purse(*final(pool)) == pay_two(
                old(self).purse(*old(pool)),
                old(self).step(i as nat),
            ),
    {
        assert(i < self.shards.len());
        let mut rest = pool.clone();
        if let Some(first) = spend_any_unit(&mut rest, self.spell) {
            if let Some(second) = spend_any_unit(&mut rest, self.spell) {
                let stock = stock_of(&rest, self.spell, self.owed);
                if can_cover(stock, self.shards, i + 1) {
                    self.spent.push(first);
                    self.spent.push(second);
                    *pool = rest;
                    return;
                }
            }
        }
        self.owed = self.owed + 2;
    }

    /// Pays the symbol at a place.
    fn pay_one(&mut self, pool: &mut ManaPool, i: usize, hand_demand: Option<&ColorDemand>)
        requires
            old(self).wf(i as nat),
            i < old(self).shards@.len(),
            pay_shard(
                old(self).purse(*old(pool)),
                opt_demand(hand_demand),
                old(self).step(i as nat),
            ) is Some,
        ensures
            final(self).wf((i + 1) as nat),
            final(self).same_cost(*old(self)),
            pay_shard(
                old(self).purse(*old(pool)),
                opt_demand(hand_demand),
                old(self).step(i as nat),
            ) == Some(final(self).purse(*final(pool))),
    {
        match shard_to_mana_type(self.shards[i]) {
            ShardRequirement::Single(color) => {
                self.spend_spared(pool, i, Some(color));
            },
            ShardRequirement::Hybrid(a, b) => {
                self.spend_half(pool, i, a, b, hand_demand);
            },
            ShardRequirement::Phyrexian(color) => {
                if !self.spend_spared(pool, i, Some(color)) {
                    self.bleed();
                }
            },
            ShardRequirement::TwoGenericHybrid(color) => {
                if !self.spend_spared(pool, i, Some(color)) {
                    self.spend_or_owe_two(pool, i);
                }
            },
            ShardRequirement::Snow => {
                self.spend_spared(pool, i, None);
            },
            ShardRequirement::X => {},
            ShardRequirement::ColorlessHybrid(color) => {
                if !self.spend_spared(pool, i, Some(ManaType::Colorless)) {
                    self.spend_spared(pool, i, Some(color));
                }
            },
            ShardRequirement::HybridPhyrexian(a, b) => {
                if !self.spend_half(pool, i, a, b, hand_demand) {
                    self.bleed();
                }
            },
        }
    }
}

/// What paying a cost gives: on success the purse that `payment` describes, on failure the error
/// and the pool as it was.
pub open spec fn paid(
    before: Seq<ManaUnit>,
    after: Seq<ManaUnit>,
    outcome: Option<Purse>,
    r: Result<(Vec<ManaUnit>, Vec<LifePayment>), PaymentError>,
) -> bool {
    match outcome {
        Some(q) => r is Ok && after == q.pool && r->Ok_0.0@ == q.spent && life_list(
            r->Ok_0.1@,
            q.life,
        ),
        None => r == Err::<(Vec<ManaUnit>, Vec<LifePayment>), PaymentError>(
            PaymentError::InsufficientMana,
        ) && after == before,
    }
}

/// Pays a mana cost from the pool, on the spell where one is given.
///
/// Symbols are paid first and in order, then the mana of any type. Of the halves of a hybrid
/// symbol the one that the hand needs less is preferred, and mana to life; but no mana is spent
/// that a later symbol cannot do without. Where the cost cannot be paid in full nothing is paid.
pub fn pay_cost_with_demand(
    pool: &mut ManaPool,
    cost: &ManaCost,
    hand_demand: Option<&ColorDemand>,
    spell: Option<&SpellMeta>,
) -> (r: Result<(Vec<ManaUnit>, Vec<LifePayment>), PaymentError>)
    ensures
        r is Ok <==> covers(old(pool).mana@, *cost, opt_meta(spell)),
        paid(
            old(pool).mana@,
            final(pool).mana@,
            payment(old(pool).mana@, *cost, opt_demand(hand_demand), opt_meta(spell)),
            r,
        ),
{
    if !can_pay_for_spell(pool, cost, spell) {
        return Err(PaymentError::InsufficientMana);
    }
    let ghost start = pool.mana@;
    let ghost demand = opt_demand(hand_demand);
    let ghost meta = opt_meta(spell);
    match cost {
        ManaCost::NoCost | ManaCost::SelfManaCost => {
            let life: Vec<LifePayment> = Vec::new();
            assert(life_list(life@, 0));
            Ok((Vec::new(), life))
        },
        ManaCost::Cost { shards, generic } => {
            let mut p = Payment {
                spent: Vec::new(),
                life: Vec::new(),
                owed: *generic as u128,
                shards,
                spell,
            };
            let ghost list = shards@;
            let ghost begun = fresh(start, *generic as nat);
            assert(p.purse(*pool) == begun);
            let mut i: usize = 0;
            while i < shards.len()
                invariant
                    i <= list.len(),
                    list == shards@,
                    p.shards == shards,
                    p.spell == spell,
                    p.wf(i as nat),
                    demand == opt_demand(hand_demand),
                    meta == opt_meta(spell),
                    coverable(on_offer(pool.mana@, meta), list, i as nat, p.owed as nat),
                    pay_shards(begun, list, i as nat, demand, meta) == Some(p.purse(*pool)),
                decreases list.len() - i,
            {
                proof {
                    lemma_shard_is_paid(p.purse(*pool), demand, p.step(i as nat));
                }
                p.pay_one(pool, i, hand_demand);
                i += 1;
            }
            let ghost mid = p.purse(*pool);
            proof {
                lemma_generic_is_paid(mid, mid.owed, meta);
            }
            let owed: u128 = p.owed;
            let mut n: u128 = 0;
            while n < owed
                invariant
                    n <= owed,
                    p.spell == spell,
                    meta == opt_meta(spell),
                    owed == p.owed,
                    owed == mid.owed,
                    owed <= on_offer(mid.pool, meta).len(),
                    life_list(p.life@, p.life@.len()),
                    pay_generic(mid, n as nat, meta) == Some(p.purse(*pool)),
                decreases owed - n,
            {
                proof {
                    lemma_generic_is_paid(mid, (n + 1) as nat, meta);
                }
                if let Some(unit) = spend_any_unit(pool, spell) {
                    p.spent.push(unit);
                }
                n += 1;
            }
            Ok((p.spent, p.life))
        },
    }
}

/// Pays a mana cost from the pool.
pub fn pay_cost(pool: &mut ManaPool, cost: &ManaCost) -> (r: Result<
    (Vec<ManaUnit>, Vec<LifePayment>),
    PaymentError,
>)
    ensures
        r is Ok <==> covers(old(pool).mana@, *cost, None),
        paid(
            old(pool).mana@,
            final(pool).mana@,
            payment(old(pool).mana@, *cost, None, None),
            r,
        ),
{
    pay_cost_with_demand(pool, cost, None, None)
}

/// Whether the pool can pay a cost for a spell: mana that may not be spent on the spell does not
/// count.
pub fn can_pay_for_spell(pool: &ManaPool, cost: &ManaCost, spell: Option<&SpellMeta>) -> (r: bool)
    ensures
        r == covers(pool.mana@, *cost, opt_meta(spell)),
{
    match cost {
        ManaCost::NoCost | ManaCost::SelfManaCost => true,
        ManaCost::Cost { shards, generic } => can_cover(
            stock_of(pool, spell, *generic as u128),
            shards,
            0,
        ),
    }
}

/// Whether the pool can pay a cost, with no regard to restrictions on its mana.
pub fn can_pay(pool: &ManaPool, cost: &ManaCost) -> (r: bool)
    ensures
        r == covers(pool.mana@, *cost, None),
{
    can_pay_for_spell(pool, cost, None)
}

// ---------------------------------------------------------------------------
// Mana in a game
// ---------------------------------------------------------------------------

/// Whether a unit is of a type, from a source, and may be spent on anything.
pub open spec fn is_produced(u: ManaUnit, source: ObjectId, mt: ManaType) -> bool {
    u.color == mt && u.source_id == source && !u.snow && u.restrictions@.len() == 0
        && u.expiry is None
}

/// The game with a unit added to the pool of the player at a place.
pub open spec fn with_unit(g: Game, i: int, u: ManaUnit) -> Game {
    with_player_at(g, i, PlayerModel { mana: g.players[i].mana.push(u), ..g.players[i] })
}

/// Produces mana and adds it to the pool of a player.
pub fn produce_mana(
    state: &mut GameState,
    source_id: ObjectId,
    mana_type: ManaType,
    player_id: PlayerId,
    events: &mut Vec<GameEvent>,
)
    requires
        player_of(old(state)@, player_id) is Some,
    ensures
        exists|u: ManaUnit| #[trigger]
            is_produced(u, source_id, mana_type) && final(state)@ == with_unit(
                old(state)@,
                seat_of(old(state)@.players, player_id)->0,
                u,
            ),
        log(final(events)@) == log(old(events)@).push(
            EventModel::ManaAdded { player_id, mana_type, source_id },
        ),
{
    let unit = ManaUnit {
        color: mana_type,
        source_id,
        snow: false,
        restrictions: Arc::new(Vec::new()),
        expiry: None,
    };
    let ghost u = unit;
    if let Some(i) = state.seat(player_id) {
        let player = state.player_mut_at(i);
        player.mana_pool.add(unit);
        assert(is_produced(u, source_id, mana_type));
    }
    emit(events, GameEvent::ManaAdded { player_id, mana_type, source_id });
}

/// One where a type of mana is the color at a place of a `ColorDemand`, else zero.
pub open spec fn is_color(mt: ManaType, k: int) -> nat {
    if demand_index(mt) == Some(k) {
        1
    } else {
        0
    }
}

/// How often a symbol asks for the color at a place of a `ColorDemand`.
pub open spec fn asks_for(shard: ManaCostShard, k: int) -> nat {
    match requirement(shard) {
        ShardRequirement::Single(a) => is_color(a, k),
        ShardRequirement::Hybrid(a, b) => is_color(a, k) + is_color(b, k),
        ShardRequirement::HybridPhyrexian(a, b) => is_color(a, k) + is_color(b, k),
        ShardRequirement::TwoGenericHybrid(a) => is_color(a, k),
        ShardRequirement::Phyrexian(a) => is_color(a, k),
        ShardRequirement::ColorlessHybrid(a) => is_color(a, k),
        ShardRequirement::Snow => 0,
        ShardRequirement::X => 0,
    }
}

/// How often the first `n` symbols ask for a color.
pub open spec fn shards_ask_for(shards: Seq<ManaCostShard>, k: int, n: nat) -> nat
    decreases n,
{
    if n == 0 || n > shards.len() {
        0
    } else {
        shards_ask_for(shards, k, (n - 1) as nat) + asks_for(shards[n - 1], k)
    }
}

/// How often a card asks for a color, nothing for the card left out.
pub open spec fn card_asks_for(g: Game, id: ObjectId, excluding: ObjectId, k: int) -> nat {
    match object_at(g, id) {
        Some(o) => match o.mana_cost {
            ManaCost::Cost { shards, .. } => if id != excluding {
                shards_ask_for(shards@, k, shards@.len())
            } else {
                0
            },
            _ => 0,
        },
        None => 0,
    }
}

/// How often the first `n` cards of a hand ask for a color.
pub open spec fn hand_asks_for(
    g: Game,
    hand: Seq<ObjectId>,
    excluding: ObjectId,
    k: int,
    n: nat,
) -> nat
    decreases n,
{
    if n == 0 || n > hand.len() {
        0
    } else {
        hand_asks_for(g, hand, excluding, k, (n - 1) as nat) + card_asks_for(
            g,
            hand[n - 1],
            excluding,
            k,
        )
    }
}

/// A number, or the largest one of 32 bits.
pub open spec fn at_most_u32(n: nat) -> u32 {
    if n > u32::MAX {
        u32::MAX
    } else {
        n as u32
    }
}

fn demand_more(demand: &mut ColorDemand, mt: ManaType)
    ensures
        forall|k: int|
            0 <= k < 5 ==> #[trigger] final(demand)@[k] == at_most_u32(
                old(demand)@[k] as nat + is_color(mt, k),
            ),
{
    if let Some(i) = mana_type_to_demand_index(mt) {
        demand[i] = demand[i].saturating_add(1);
    }
}

fn demand_of_shard(demand: &mut ColorDemand, shard: ManaCostShard)
    ensures
        forall|k: int|
            0 <= k < 5 ==> #[trigger] final(demand)@[k] == at_most_u32(
                old(demand)@[k] as nat + asks_for(shard, k),
            ),
{
    match shard_to_mana_type(shard) {
        ShardRequirement::Single(a)
        | ShardRequirement::TwoGenericHybrid(a)
        | ShardRequirement::Phyrexian(a)
        | ShardRequirement::ColorlessHybrid(a) => demand_more(demand, a),
        ShardRequirement::Hybrid(a, b) | ShardRequirement::HybridPhyrexian(a, b) => {
            demand_more(demand, a);
            demand_more(demand, b);
        },
        ShardRequirement::Snow | ShardRequirement::X => {},
    }
}

fn demand_of_shards(demand: &mut ColorDemand, shards: &Vec<ManaCostShard>)
    ensures
        forall|k: int|
            0 <= k < 5 ==> #[trigger] final(demand)@[k] == at_most_u32(
                old(demand)@[k] as nat + shards_ask_for(shards@, k, shards@.len()),
            ),
{
    let ghost start = demand@;
    let mut i: usize = 0;
    while i < shards.len()
        invariant
            i <= shards@.len(),
            forall|k: int|
                0 <= k < 5 ==> #[trigger] demand@[k] == at_most_u32(
                    start[k] as nat + shards_ask_for(shards@, k, i as nat),
                ),
        decreases shards.len() - i,
    {
        demand_of_shard(demand, shards[i]);
        i += 1;
    }
}

/// How often the other cards of a hand ask for each color, in the order of a `ColorDemand`. A
/// player who is not in the game demands nothing.
pub fn compute_hand_color_demand(state: &GameState, player_id: PlayerId, excluding: ObjectId) -> (r:
    ColorDemand)
    ensures
        forall|k: int|
            0 <= k < 5 ==> #[trigger] r@[k] == (match player_of(state@, player_id) {
                Some(p) => at_most_u32(
                    hand_asks_for(state@, p.hand, excluding, k, p.hand.len()),
                ),
                None => 0,
            }),
{
    let mut demand: ColorDemand = [0u32; 5];
    let player = match state.player(player_id) {
        Some(p) => p,
        None => {
            return demand;
        },
    };
    let ghost hand = player.hand@;
    let mut i: usize = 0;
    while i < player.hand.len()
        invariant
            i <= hand.len(),
            hand == player.hand@,
            forall|k: int|
                0 <= k < 5 ==> #[trigger] demand@[k] == at_most_u32(
                    hand_asks_for(state@, hand, excluding, k, i as nat),
                ),
        decreases hand.len() - i,
    {
        let id = player.hand[i];
        if id != excluding {
            if let Some(o) = state.object(id) {
                if let ManaCost::Cost { shards, .. } = &o.mana_cost {
                    demand_of_shards(&mut demand, shards);
                }
            }
        }
        i += 1;
    }
    demand
}

// ---------------------------------------------------------------------------
// Laws
// ---------------------------------------------------------------------------

proof fn lemma_without(pool: Seq<ManaUnit>, i: int)
    requires
        0 <= i < pool.len(),
    ensures
        without(pool, i).to_multiset().insert(pool[i]) == pool.to_multiset(),
        without(pool, i).len() + 1 == pool.len(),
{
    broadcast use vstd::seq_lib::group_to_multiset_ensures;
    broadcast use vstd::multiset::group_multiset_axioms;

    let s = pool.update(i, pool.last());
    assert(s.remove(s.len() - 1) =~= s.drop_last());
    assert(s.last() == pool.last());
    assert(pool.to_multiset().contains(pool[i]));
    assert(pool.to_multiset().contains(pool.last()));
    assert(without(pool, i).to_multiset().insert(pool[i]) =~= pool.to_multiset());
}

/// Whether all that a purse has spent was allowed to be spent.
pub open spec fn all_usable(spent: Seq<ManaUnit>, meta: Option<SpellMeta>) -> bool {
    forall|i: int| 0 <= i < spent.len() ==> usable(#[trigger] spent[i], meta)
}

/// Whether one purse comes from another by spending mana that may be spent.
pub open spec fn comes_from(q: Purse, p: Purse, meta: Option<SpellMeta>) -> bool {
    &&& p.pool.to_multiset().add(p.spent.to_multiset()) == q.pool.to_multiset().add(
        q.spent.to_multiset(),
    )
    &&& p.pool.len() + p.spent.len() == q.pool.len() + q.spent.len()
    &&& all_usable(p.spent, meta) ==> all_usable(q.spent, meta)
}

proof fn lemma_spent_is_kept(p: Purse, f: spec_fn(ManaUnit) -> bool, meta: Option<SpellMeta>)
    requires
        forall|u: ManaUnit| #[trigger] f(u) ==> usable(u, meta),
    ensures
        match then_spent(p, take_first(p.pool, f)) {
            Some(q) => comes_from(q, p, meta),
            None => true,
        },
{
    broadcast use vstd::seq_lib::group_to_multiset_ensures;
    broadcast use vstd::multiset::group_multiset_axioms;

    if take_first(p.pool, f) is Some {
        let i = choose|i: int| is_first(p.pool, f, i);
        lemma_without(p.pool, i);
        let q = then_spent(p, take_first(p.pool, f))->0;
        assert(q.pool.to_multiset().add(q.spent.to_multiset()) =~= p.pool.to_multiset().add(
            p.spent.to_multiset(),
        ));
    }
}

proof fn lemma_generic_is_kept(p: Purse, meta: Option<SpellMeta>)
    ensures
        match then_spent(p, spend_generic(p.pool, meta)) {
            Some(q) => comes_from(q, p, meta),
            None => true,
        },
{
    lemma_spent_is_kept(p, eligible(ManaType::Colorless, meta), meta);
    match scarcest(p.pool, meta, 5) {
        Some(c) => {
            lemma_spent_is_kept(p, eligible(c, meta), meta);
        },
        None => {},
    }
}

proof fn lemma_shard_is_kept(p: Purse, demand: Option<Seq<u32>>, step: Step)
    ensures
        match pay_shard(p, demand, step) {
            Some(q) => comes_from(q, p, step.meta),
            None => true,
        },
{
    let meta = step.meta;
    lemma_spent_is_kept(p, spared_snow(p, step), meta);
    assert forall|c: ManaType| (#[trigger] pay_with(p, c, step)) is Some implies comes_from(
        pay_with(p, c, step)->0,
        p,
        meta,
    ) by {
        lemma_spent_is_kept(p, spared_of(p, c, step), meta);
    }
    lemma_generic_is_kept(p, meta);
    match then_spent(p, spend_generic(p.pool, meta)) {
        Some(q) => {
            lemma_generic_is_kept(q, meta);
        },
        None => {},
    }
}

proof fn lemma_shards_are_kept(
    p: Purse,
    shards: Seq<ManaCostShard>,
    n: nat,
    demand: Option<Seq<u32>>,
    meta: Option<SpellMeta>,
)
    ensures
        match pay_shards(p, shards, n, demand, meta) {
            Some(q) => comes_from(q, p, meta),
            None => true,
        },
    decreases n,
{
    if 0 < n <= shards.len() {
        lemma_shards_are_kept(p, shards, (n - 1) as nat, demand, meta);
        match pay_shards(p, shards, (n - 1) as nat, demand, meta) {
            Some(q) => {
                lemma_shard_is_kept(q, demand, Step { shards, i: (n - 1) as nat, meta });
            },
            None => {},
        }
    }
}

proof fn lemma_rest_is_kept(p: Purse, n: nat, meta: Option<SpellMeta>)
    ensures
        match pay_generic(p, n, meta) {
            Some(q) => comes_from(q, p, meta),
            None => true,
        },
    decreases n,
{
    if n > 0 {
        lemma_rest_is_kept(p, (n - 1) as nat, meta);
        match pay_generic(p, (n - 1) as nat, meta) {
            Some(q) => {
                lemma_generic_is_kept(q, meta);
            },
            None => {},
        }
    }
}

proof fn lemma_payment(
    pool: Seq<ManaUnit>,
    cost: ManaCost,
    demand: Option<Seq<u32>>,
    meta: Option<SpellMeta>,
)
    ensures
        match payment(pool, cost, demand, meta) {
            Some(q) => comes_from(q, fresh(pool, 0), meta),
            None => true,
        },
{
    match cost {
        ManaCost::NoCost | ManaCost::SelfManaCost => {},
        ManaCost::Cost { shards, generic } => {
            let p = fresh(pool, generic as nat);
            lemma_shards_are_kept(p, shards@, shards@.len(), demand, meta);
            match pay_shards(p, shards@, shards@.len(), demand, meta) {
                Some(q) => {
                    lemma_rest_is_kept(q, q.owed, meta);
                },
                None => {},
            }
        },
    }
}

/// No mana is lost or made by paying: what was spent and what is left is what the pool held.
pub proof fn payment_keeps_all_mana(
    pool: Seq<ManaUnit>,
    cost: ManaCost,
    demand: Option<Seq<u32>>,
    meta: Option<SpellMeta>,
)
    ensures
        match payment(pool, cost, demand, meta) {
            Some(q) => q.pool.to_multiset().add(q.spent.to_multiset()) == pool.to_multiset()
                && q.pool.len() + q.spent.len() == pool.len(),
            None => true,
        },
{
    broadcast use vstd::multiset::group_multiset_axioms;
    broadcast use vstd::seq_lib::group_to_multiset_ensures;

    lemma_payment(pool, cost, demand, meta);
    let p = fresh(pool, 0);
    assert(p.pool.to_multiset().add(p.spent.to_multiset()) =~= pool.to_multiset());
}

/// Restricted mana is spent only on what its restrictions permit.
pub proof fn only_permitted_mana_is_spent(
    pool: Seq<ManaUnit>,
    cost: ManaCost,
    demand: Option<Seq<u32>>,
    meta: Option<SpellMeta>,
)
    ensures
        match payment(pool, cost, demand, meta) {
            Some(q) => all_usable(q.spent, meta),
            None => true,
        },
{
    lemma_payment(pool, cost, demand, meta);
}

proof fn lemma_shards_are_paid(
    p: Purse,
    shards: Seq<ManaCostShard>,
    n: nat,
    demand: Option<Seq<u32>>,
    meta: Option<SpellMeta>,
)
    requires
        n <= shards.len(),
        coverable(on_offer(p.pool, meta), shards, 0, p.owed),
    ensures
        pay_shards(p, shards, n, demand, meta) is Some,
        ({
            let q = pay_shards(p, shards, n, demand, meta)->0;
            coverable(on_offer(q.pool, meta), shards, n, q.owed)
        }),
    decreases n,
{
    if n > 0 {
        lemma_shards_are_paid(p, shards, (n - 1) as nat, demand, meta);
        let q = pay_shards(p, shards, (n - 1) as nat, demand, meta)->0;
        lemma_shard_is_paid(q, demand, Step { shards, i: (n - 1) as nat, meta });
    }
}

/// A cost is paid exactly when the pool can pay it, whatever the hand needs.
pub proof fn what_can_be_paid_is_paid(
    pool: Seq<ManaUnit>,
    cost: ManaCost,
    demand: Option<Seq<u32>>,
    meta: Option<SpellMeta>,
)
    ensures
        covers(pool, cost, meta) <==> payment(pool, cost, demand, meta) is Some,
{
    match cost {
        ManaCost::NoCost | ManaCost::SelfManaCost => {},
        ManaCost::Cost { shards, generic } => {
            if covers(pool, cost, meta) {
                let p = fresh(pool, generic as nat);
                lemma_shards_are_paid(p, shards@, shards@.len(), demand, meta);
                let q = pay_shards(p, shards@, shards@.len(), demand, meta)->0;
                lemma_generic_is_paid(q, q.owed, meta);
            }
        },
    }
}

} // verus!
