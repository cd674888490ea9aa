//! What mana costs ask for and what paying them takes.

use vstd::multiset::Multiset;
use vstd::prelude::*;
use crate::mana::{
    eligible, take_first, without, ManaCost, ManaCostShard, ManaType, ManaUnit, SpellMeta,
};
use crate::mana_payment::{
    coverable, covers, fits, fresh, kind_of, life_list, needs_no_mana, on_offer, pay_generic,
    pay_shard, pay_shards, pay_with, payment, payment_keeps_all_mana, requirement, spared_of,
    spared_snow, what_can_be_paid_is_paid, LifePayment, Purse, Step,
};
use crate::seqs::{
    first_where, is_first, lemma_count_positive_where, lemma_first_where, lemma_first_where_none,
};

verus! {

/// Whether a cost is one symbol and nothing else.
pub open spec fn is_only(cost: ManaCost, shard: ManaCostShard) -> bool {
    cost is Cost && cost->shards@ == seq![shard] && cost->generic == 0
}

/// Whether a mana has one of two colors.
pub open spec fn either(u: ManaUnit, a: ManaType, b: ManaType) -> bool {
    u.color == a || u.color == b
}

proof fn lemma_one_offered(u: ManaUnit, meta: Option<SpellMeta>)
    requires
        u.restrictions@.len() == 0 || meta is None,
    ensures
        on_offer(seq![u], meta) == Multiset::empty().insert(kind_of(u)),
{
    assert(seq![u].drop_last() =~= Seq::<ManaUnit>::empty());
    assert(seq![u].last() == u);
    reveal_with_fuel(on_offer, 2);
}

proof fn lemma_one_symbol(u: ManaUnit, cost: ManaCost, shard: ManaCostShard, meta: Option<SpellMeta>)
    requires
        is_only(cost, shard),
        u.restrictions@.len() == 0 || meta is None,
    ensures
        covers(seq![u], cost, meta) == (needs_no_mana(requirement(shard)) || fits(
            kind_of(u),
            requirement(shard),
        )),
{
    broadcast use vstd::multiset::group_multiset_axioms;

    lemma_one_offered(u, meta);
    let offer = on_offer(seq![u], meta);
    let req = requirement(shard);
    let shards = cost->shards@;
    assert(shards.len() == 1 && shards[0] == shard);
    reveal_with_fuel(coverable, 3);
    assert(offer.len() == 1);
    let k = kind_of(u);
    assert(offer.count(k) == 1);
    assert(offer.remove(k).len() == 0);
    assert(coverable(offer.remove(k), shards, 1, 0));
    if fits(k, req) {
        assert(offer.count(k) > 0 && fits(k, req) && coverable(offer.remove(k), shards, 1, 0));
    }
}

/// A single mana pays a symbol of one color exactly when it has that color, a hybrid symbol exactly
/// when it has one of the two colors, a snow symbol exactly when it comes from a snow source. A
/// symbol with a two on one side takes one mana of the other side. Phyrexian symbols can always be
/// paid, with life, and X asks for nothing.
pub proof fn one_mana_pays_one_symbol(
    u: ManaUnit,
    cost: ManaCost,
    shard: ManaCostShard,
    meta: Option<SpellMeta>,
)
    requires
        is_only(cost, shard),
        u.restrictions@.len() == 0 || meta is None,
    ensures
        covers(seq![u], cost, meta) == match shard {
            ManaCostShard::White => u.color == ManaType::White,
            ManaCostShard::Blue => u.color == ManaType::Blue,
            ManaCostShard::Black => u.color == ManaType::Black,
            ManaCostShard::Red => u.color == ManaType::Red,
            ManaCostShard::Green => u.color == ManaType::Green,
            ManaCostShard::Colorless => u.color == ManaType::Colorless,
            ManaCostShard::Snow => u.snow,
            ManaCostShard::X => true,
            ManaCostShard::WhiteBlue => either(u, ManaType::White, ManaType::Blue),
            ManaCostShard::WhiteBlack => either(u, ManaType::White, ManaType::Black),
            ManaCostShard::BlueBlack => either(u, ManaType::Blue, ManaType::Black),
            ManaCostShard::BlueRed => either(u, ManaType::Blue, ManaType::Red),
            ManaCostShard::BlackRed => either(u, ManaType::Black, ManaType::Red),
            ManaCostShard::BlackGreen => either(u, ManaType::Black, ManaType::Green),
            ManaCostShard::RedWhite => either(u, ManaType::Red, ManaType::White),
            ManaCostShard::RedGreen => either(u, ManaType::Red, ManaType::Green),
            ManaCostShard::GreenWhite => either(u, ManaType::Green, ManaType::White),
            ManaCostShard::GreenBlue => either(u, ManaType::Green, ManaType::Blue),
            ManaCostShard::TwoWhite => u.color == ManaType::White,
            ManaCostShard::TwoBlue => u.color == ManaType::Blue,
            ManaCostShard::TwoBlack => u.color == ManaType::Black,
            ManaCostShard::TwoRed => u.color == ManaType::Red,
            ManaCostShard::TwoGreen => u.color == ManaType::Green,
            ManaCostShard::ColorlessWhite => either(u, ManaType::Colorless, ManaType::White),
            ManaCostShard::ColorlessBlue => either(u, ManaType::Colorless, ManaType::Blue),
            ManaCostShard::ColorlessBlack => either(u, ManaType::Colorless, ManaType::Black),
            ManaCostShard::ColorlessRed => either(u, ManaType::Colorless, ManaType::Red),
            ManaCostShard::ColorlessGreen => either(u, ManaType::Colorless, ManaType::Green),
            _ => true,
        },
{
    lemma_one_symbol(u, cost, shard, meta);
}

/// Whether a single mana is what a Phyrexian symbol names.
pub open spec fn phyrexian_color(u: ManaUnit, shard: ManaCostShard) -> bool {
    match shard {
        ManaCostShard::PhyrexianWhite => u.color == ManaType::White,
        ManaCostShard::PhyrexianBlue => u.color == ManaType::Blue,
        ManaCostShard::PhyrexianBlack => u.color == ManaType::Black,
        ManaCostShard::PhyrexianRed => u.color == ManaType::Red,
        ManaCostShard::PhyrexianGreen => u.color == ManaType::Green,
        ManaCostShard::PhyrexianWhiteBlue => either(u, ManaType::White, ManaType::Blue),
        ManaCostShard::PhyrexianWhiteBlack => either(u, ManaType::White, ManaType::Black),
        ManaCostShard::PhyrexianBlueBlack => either(u, ManaType::Blue, ManaType::Black),
        ManaCostShard::PhyrexianBlueRed => either(u, ManaType::Blue, ManaType::Red),
        ManaCostShard::PhyrexianBlackRed => either(u, ManaType::Black, ManaType::Red),
        ManaCostShard::PhyrexianBlackGreen => either(u, ManaType::Black, ManaType::Green),
        ManaCostShard::PhyrexianRedWhite => either(u, ManaType::Red, ManaType::White),
        ManaCostShard::PhyrexianRedGreen => either(u, ManaType::Red, ManaType::Green),
        ManaCostShard::PhyrexianGreenWhite => either(u, ManaType::Green, ManaType::White),
        ManaCostShard::PhyrexianGreenBlue => either(u, ManaType::Green, ManaType::Blue),
        _ => false,
    }
}

/// Whether a symbol is a Phyrexian one.
pub open spec fn is_phyrexian(shard: ManaCostShard) -> bool {
    shard is PhyrexianWhite || shard is PhyrexianBlue || shard is PhyrexianBlack
        || shard is PhyrexianRed || shard is PhyrexianGreen || shard is PhyrexianWhiteBlue
        || shard is PhyrexianWhiteBlack || shard is PhyrexianBlueBlack || shard is PhyrexianBlueRed
        || shard is PhyrexianBlackRed || shard is PhyrexianBlackGreen || shard is PhyrexianRedWhite
        || shard is PhyrexianRedGreen || shard is PhyrexianGreenWhite || shard is PhyrexianGreenBlue
}

proof fn lemma_one_taken(u: ManaUnit, p: spec_fn(ManaUnit) -> bool)
    ensures
        take_first(seq![u], p) == (if p(u) {
            Some((u, Seq::<ManaUnit>::empty()))
        } else {
            None
        }),
{
    let pool = seq![u];
    if p(u) {
        assert(is_first(pool, p, 0));
        lemma_first_where(pool, p, 0);
        assert(without(pool, 0) =~= Seq::<ManaUnit>::empty());
    } else {
        lemma_first_where_none(pool, p);
    }
}

proof fn lemma_one_symbol_paid(
    u: ManaUnit,
    cost: ManaCost,
    shard: ManaCostShard,
    demand: Option<Seq<u32>>,
    meta: Option<SpellMeta>,
)
    requires
        is_only(cost, shard),
        u.restrictions@.len() == 0 || meta is None,
    ensures
        match payment(seq![u], cost, demand, meta) {
            Some(q) => if fits(kind_of(u), requirement(shard)) {
                q.spent == seq![u] && q.pool.len() == 0 && q.life == 0
            } else {
                q.spent.len() == 0 && q.pool == seq![u] && q.life == (if requirement(shard) is X {
                    0nat
                } else {
                    1
                })
            },
            None => !fits(kind_of(u), requirement(shard)) && !needs_no_mana(requirement(shard)),
        },
{
    broadcast use vstd::multiset::group_multiset_axioms;

    lemma_one_symbol(u, cost, shard, meta);
    lemma_one_offered(u, meta);
    let offer = on_offer(seq![u], meta);
    let shards = cost->shards@;
    let step = Step { shards, i: 0, meta };
    let p = fresh(seq![u], 0);
    let k = kind_of(u);
    assert(offer.remove(k).len() == 0);
    assert(coverable(offer.remove(k), shards, 1, 0));
    assert forall|c: ManaType| #[trigger] pay_with(p, c, step) == (if u.color == c {
        Some(Purse { pool: Seq::empty(), spent: Seq::<ManaUnit>::empty().push(u), ..p })
    } else {
        None
    }) by {
        lemma_one_taken(u, spared_of(p, c, step));
    }
    lemma_one_taken(u, spared_snow(p, step));
    reveal_with_fuel(pay_shards, 2);
    assert(Seq::<ManaUnit>::empty().push(u) =~= seq![u]);
    if covers(seq![u], cost, meta) {
        assert(pay_shards(p, shards, 1, demand, meta) == pay_shard(p, demand, step));
        reveal_with_fuel(pay_generic, 1);
    }
}

/// A Phyrexian symbol is paid with a mana of its color if the pool has it and with life, once, if
/// not. X takes nothing. For any other symbol the mana that pays it is the one that is spent.
pub proof fn one_symbol_takes_one_mana_or_life(
    u: ManaUnit,
    cost: ManaCost,
    shard: ManaCostShard,
    demand: Option<Seq<u32>>,
    meta: Option<SpellMeta>,
)
    requires
        is_only(cost, shard),
        u.restrictions@.len() == 0 || meta is None,
    ensures
        match payment(seq![u], cost, demand, meta) {
            Some(q) => if shard is X {
                q.spent.len() == 0 && q.life == 0 && q.pool == seq![u]
            } else if is_phyrexian(shard) && !phyrexian_color(u, shard) {
                q.spent.len() == 0 && q.life == 1 && q.pool == seq![u]
            } else {
                q.spent == seq![u] && q.life == 0 && q.pool.len() == 0
            },
            None => !is_phyrexian(shard),
        },
{
    lemma_one_symbol_paid(u, cost, shard, demand, meta);
}

/// Generic mana is paid with as many mana, of whatever color, and with no life.
pub proof fn generic_mana_is_paid_with_any_mana(
    pool: Seq<ManaUnit>,
    cost: ManaCost,
    demand: Option<Seq<u32>>,
)
    requires
        cost is Cost,
        cost->shards@.len() == 0,
    ensures
        covers(pool, cost, None) <==> cost->generic <= pool.len(),
        match payment(pool, cost, demand, None) {
            Some(q) => q.spent.len() == cost->generic && q.pool.len() + cost->generic == pool.len()
                && q.life == 0,
            None => pool.len() < cost->generic,
        },
{
    lemma_all_offered(pool);
    what_can_be_paid_is_paid(pool, cost, demand, None);
    payment_keeps_all_mana(pool, cost, demand, None);
    reveal_with_fuel(coverable, 1);
    let p = fresh(pool, cost->generic as nat);
    assert(pay_shards(p, cost->shards@, 0, demand, None) == Some(p));
    lemma_generic_spends(p, cost->generic as nat, None);
}

proof fn lemma_generic_spends(p: Purse, n: nat, meta: Option<SpellMeta>)
    ensures
        match pay_generic(p, n, meta) {
            Some(q) => q.spent.len() == p.spent.len() + n && q.life == p.life,
            None => true,
        },
    decreases n,
{
    if n > 0 {
        lemma_generic_spends(p, (n - 1) as nat, meta);
    }
}

proof fn lemma_all_offered(pool: Seq<ManaUnit>)
    ensures
        on_offer(pool, None).len() == pool.len(),
    decreases pool.len(),
{
    broadcast use vstd::multiset::group_multiset_axioms;

    if pool.len() > 0 {
        lemma_all_offered(pool.drop_last());
    }
}

/// A symbol with a two on one side can be paid with any two mana.
pub proof fn any_two_mana_pay_a_symbol_with_a_two(
    pool: Seq<ManaUnit>,
    cost: ManaCost,
    shard: ManaCostShard,
)
    requires
        is_only(cost, shard),
        shard is TwoWhite || shard is TwoBlue || shard is TwoBlack || shard is TwoRed
            || shard is TwoGreen,
        pool.len() >= 2,
    ensures
        covers(pool, cost, None),
{
    lemma_all_offered(pool);
    reveal_with_fuel(coverable, 2);
}

/// Colorless mana is spent first on generic mana.
pub proof fn colorless_mana_is_spent_first(
    pool: Seq<ManaUnit>,
    cost: ManaCost,
    demand: Option<Seq<u32>>,
    i: int,
)
    requires
        cost is Cost,
        cost->shards@.len() == 0,
        cost->generic == 1,
        0 <= i < pool.len(),
        pool[i].color == ManaType::Colorless,
    ensures
        payment(pool, cost, demand, None) is Some,
        payment(pool, cost, demand, None)->0.spent.len() == 1,
        payment(pool, cost, demand, None)->0.spent[0].color == ManaType::Colorless,
{
    generic_mana_is_paid_with_any_mana(pool, cost, demand);
    let p = fresh(pool, 1);
    assert(pay_shards(p, cost->shards@, 0, demand, None) == Some(p));
    reveal_with_fuel(pay_generic, 2);
    let f = eligible(ManaType::Colorless, None);
    assert(f(pool[i]));
    if take_first(pool, f) is None {
        lemma_count_positive_where(pool, f);
        assert(first_where(pool, f) is None);
        lemma_some_is_first(pool, f, i);
    } else {
        let j = choose|j: int| is_first(pool, f, j);
        assert(is_first(pool, f, j));
    }
}

proof fn lemma_some_is_first(pool: Seq<ManaUnit>, p: spec_fn(ManaUnit) -> bool, k: int)
    requires
        0 <= k < pool.len(),
        p(pool[k]),
    ensures
        first_where(pool, p) is Some,
    decreases k,
{
    if forall|j: int| 0 <= j < k ==> !p(#[trigger] pool[j]) {
        assert(is_first(pool, p, k));
    } else {
        let j = choose|j: int| 0 <= j < k && p(#[trigger] pool[j]);
        lemma_some_is_first(pool, p, j);
    }
}

/// A list of `n` life payments is `n` times two life.
pub proof fn each_life_payment_is_two_life(payments: Seq<LifePayment>, n: nat)
    requires
        life_list(payments, n),
    ensures
        payments.len() == n,
        forall|i: int| 0 <= i < payments.len() ==> (#[trigger] payments[i]).amount == 2,
{
}

} // verus!
