//! What mana pools and keywords promise.

use vstd::prelude::*;
use crate::cards::{counter_named, has_kind, kind_of, CounterKind, Keyword};
use crate::mana::{
    colors_in_tally, count_of, eligible, took, unit_allows, ColorTally, ManaRestriction, ManaType,
    ManaUnit, SpellMeta,
};
use crate::mana_payment::{five_colors, hybrid_choice, scarcest, usable_of, with_unit};
use crate::seqs::{lemma_first_where, lemma_first_where_none};
use crate::state::{Game, PlayerModel};

verus! {

/// Mana of a colour is counted one by one.
pub proof fn each_mana_counts_for_its_color(pool: Seq<ManaUnit>, unit: ManaUnit, color: ManaType)
    ensures
        count_of(Seq::empty(), color) == 0,
        unit.color == color ==> count_of(pool.push(unit), color) == count_of(pool, color) + 1,
        unit.color != color ==> count_of(pool.push(unit), color) == count_of(pool, color),
{
    assert(pool.push(unit).drop_last() =~= pool);
}

/// Mana without restrictions pays for every spell. Mana that is only for creatures of a type pays
/// for a spell exactly when that is a creature of that type.
pub proof fn what_mana_pays_for(unit: ManaUnit, meta: SpellMeta, kind: String)
    ensures
        unit.restrictions@.len() == 0 ==> unit_allows(unit, meta),
        unit.restrictions@ == seq![ManaRestriction::OnlyForCreatureType(kind)] ==> (unit_allows(
            unit,
            meta,
        ) <==> (exists|i: int| 0 <= i < meta.types@.len() && (#[trigger] meta.types@[i])@
            == "Creature"@) && (exists|j: int|
            0 <= j < meta.subtypes@.len() && (#[trigger] meta.subtypes@[j])@ == kind@)),
{
    if unit.restrictions@ == seq![ManaRestriction::OnlyForCreatureType(kind)] {
        assert(unit.restrictions@[0] == ManaRestriction::OnlyForCreatureType(kind));
    }
}

/// The first mana of the colour that pays for the spell is spent, and all other mana stays. Where
/// there is none, nothing is spent.
pub proof fn the_first_fitting_mana_is_spent(
    before: Seq<ManaUnit>,
    after: Seq<ManaUnit>,
    color: ManaType,
    meta: Option<SpellMeta>,
    unit: Option<ManaUnit>,
    i: int,
)
    requires
        took(before, eligible(color, meta), after, unit),
    ensures
        0 <= i < before.len() && before[i].color == color && (meta is Some ==> unit_allows(
            before[i],
            meta->0,
        )) && (forall|j: int|
            0 <= j < i ==> (#[trigger] before[j]).color != color || (meta is Some && !unit_allows(
                before[j],
                meta->0,
            ))) ==> {
            &&& unit == Some(before[i])
            &&& after.len() == before.len() - 1
            &&& after.to_multiset().insert(before[i]) == before.to_multiset()
        },
        (forall|j: int|
            0 <= j < before.len() ==> (#[trigger] before[j]).color != color || (meta is Some
                && !unit_allows(before[j], meta->0))) ==> unit is None && after == before,
{
    let p = eligible(color, meta);
    if 0 <= i < before.len() && before[i].color == color && (meta is Some ==> unit_allows(
        before[i],
        meta->0,
    )) && (forall|j: int|
        0 <= j < i ==> (#[trigger] before[j]).color != color || (meta is Some && !unit_allows(
            before[j],
            meta->0,
        ))) {
        lemma_first_where(before, p, i);
        lemma_without(before, i);
    }
    if forall|j: int|
        0 <= j < before.len() ==> (#[trigger] before[j]).color != color || (meta is Some
            && !unit_allows(before[j], meta->0)) {
        lemma_first_where_none(before, p);
    }
}

proof fn lemma_without(pool: Seq<ManaUnit>, i: int)
    requires
        0 <= i < pool.len(),
    ensures
        pool.update(i, pool.last()).drop_last().to_multiset().insert(pool[i])
            == pool.to_multiset(),
{
    broadcast use vstd::seq_lib::group_to_multiset_ensures;

    let last = pool.last();
    let front = pool.drop_last();
    assert(front.push(last) =~= pool);
    let rest = pool.update(i, last).drop_last();
    if i == pool.len() - 1 {
        assert(rest =~= front);
    } else {
        assert(rest =~= front.update(i, last));
    }
    assert(rest.to_multiset().insert(pool[i]) =~= pool.to_multiset());
}

/// Colours of mana that was spent are counted once each, however much of each was spent.
pub proof fn each_color_spent_counts_once(t: ColorTally)
    ensures
        0 <= colors_in_tally(t) <= 5,
        colors_in_tally(t) == 0 <==> t.white == 0 && t.blue == 0 && t.black == 0 && t.red == 0
            && t.green == 0,
        colors_in_tally(t) == 5 <==> t.white > 0 && t.blue > 0 && t.black > 0 && t.red > 0
            && t.green > 0,
        t.white > 0 ==> colors_in_tally(ColorTally { white: 0, ..t }) == colors_in_tally(t) - 1,
        t.blue > 0 ==> colors_in_tally(ColorTally { blue: 0, ..t }) == colors_in_tally(t) - 1,
        t.black > 0 ==> colors_in_tally(ColorTally { black: 0, ..t }) == colors_in_tally(t) - 1,
        t.red > 0 ==> colors_in_tally(ColorTally { red: 0, ..t }) == colors_in_tally(t) - 1,
        t.green > 0 ==> colors_in_tally(ColorTally { green: 0, ..t }) == colors_in_tally(t) - 1,
{
}

/// Whether a keyword stands alone, without a number or a cost.
pub open spec fn stands_alone(k: Keyword) -> bool {
    match k {
        Keyword::Flashback(_) | Keyword::Modular(_) | Keyword::Sneak(_) | Keyword::Morph(_)
        | Keyword::Megamorph(_) | Keyword::Disguise(_) => false,
        _ => true,
    }
}

/// A list has a keyword that stands alone exactly when it holds that keyword; two keywords of which
/// one stands alone are of one kind only where they are the same.
pub proof fn keywords_of_a_kind(list: Seq<Keyword>, k: Keyword, other: Keyword)
    requires
        stands_alone(k),
    ensures
        kind_of(other) == kind_of(k) <==> other == k,
        has_kind(list, kind_of(k)) <==> list.contains(k),
{
    if list.contains(k) {
        let i = choose|i: int| 0 <= i < list.len() && list[i] == k;
        assert(kind_of(list[i]) == kind_of(k));
    }
    if has_kind(list, kind_of(k)) {
        let i = choose|i: int| 0 <= i < list.len() && kind_of(#[trigger] list[i]) == kind_of(k);
        lemma_alone(k, list[i]);
    }
}

proof fn lemma_alone(k: Keyword, other: Keyword)
    requires
        stands_alone(k),
        kind_of(other) == kind_of(k),
    ensures
        other == k,
{
}

/// Keywords with a number or a cost are of one kind whatever the number or the cost is, and of
/// different kinds where they are called differently.
pub proof fn keywords_with_numbers(k: Keyword, other: Keyword)
    requires
        !stands_alone(k),
    ensures
        kind_of(other) == kind_of(k) <==> (k is Flashback && other is Flashback) || (k is Modular
            && other is Modular) || (k is Sneak && other is Sneak) || (k is Morph && other is Morph)
            || (k is Megamorph && other is Megamorph) || (k is Disguise && other is Disguise),
{
}

/// Counters have short and long names; any other name is its own kind of counter.
pub proof fn names_of_counters(text: Seq<char>)
    ensures
        counter_named("P1P1"@) is Plus1Plus1 && counter_named("+1/+1"@) is Plus1Plus1,
        counter_named("M1M1"@) is Minus1Minus1 && counter_named("-1/-1"@) is Minus1Minus1,
        counter_named("LOYALTY"@) is Loyalty && counter_named("loyalty"@) is Loyalty,
        counter_named("LORE"@) is Lore && counter_named("lore"@) is Lore,
        counter_named(text) is Generic ==> counter_named(text) == CounterKind::Generic(text),
        text.len() != 4 && text.len() != 5 && text.len() != 7 ==> counter_named(text)
            == CounterKind::Generic(text),
{
    reveal_strlit("P1P1");
    reveal_strlit("+1/+1");
    reveal_strlit("M1M1");
    reveal_strlit("-1/-1");
    reveal_strlit("LOYALTY");
    reveal_strlit("loyalty");
    reveal_strlit("LORE");
    reveal_strlit("lore");
    assert("M1M1"@[0] != "P1P1"@[0]);
    assert("-1/-1"@[0] != "+1/+1"@[0]);
    assert("LORE"@[0] != "P1P1"@[0] && "LORE"@[0] != "M1M1"@[0]);
    assert("lore"@[0] != "P1P1"@[0] && "lore"@[0] != "M1M1"@[0]);
    assert("LORE"@ != "LOYALTY"@) by {
        assert("LORE"@.len() != "LOYALTY"@.len());
    }
    assert("LORE"@ != "loyalty"@ && "lore"@ != "LOYALTY"@ && "lore"@ != "loyalty"@) by {
        assert("LORE"@.len() == 4 && "lore"@.len() == 4);
        assert("LOYALTY"@.len() == 7 && "loyalty"@.len() == 7);
    }
    assert("LORE"@ != "+1/+1"@ && "LORE"@ != "-1/-1"@ && "lore"@ != "+1/+1"@ && "lore"@
        != "-1/-1"@) by {
        assert("+1/+1"@.len() == 5 && "-1/-1"@.len() == 5);
    }
}

/// Mana that can be used counts one by one: it is of the colour, and pays for the spell.
pub proof fn each_usable_mana_counts(
    pool: Seq<ManaUnit>,
    unit: ManaUnit,
    color: ManaType,
    meta: Option<SpellMeta>,
)
    ensures
        usable_of(Seq::empty(), color, meta) == 0,
        usable_of(pool.push(unit), color, meta) == usable_of(pool, color, meta) + (if unit.color
            == color && (meta is Some ==> unit_allows(unit, meta->0)) {
            1int
        } else {
            0
        }),
{
    assert(pool.push(unit).drop_last() =~= pool);
}

/// Whether a type of mana is a colour.
pub open spec fn is_a_color(c: ManaType) -> bool {
    !(c is Colorless)
}

proof fn lemma_scarcest(pool: Seq<ManaUnit>, meta: Option<SpellMeta>, n: nat, c: ManaType, k: int)
    requires
        n <= 5,
        0 <= k < n,
        c == five_colors()[k],
    ensures
        ({
            let s = scarcest(pool, meta, n);
            &&& usable_of(pool, c, meta) > 0 ==> s is Some && usable_of(pool, s->0, meta)
                <= usable_of(pool, c, meta)
            &&& s is Some ==> usable_of(pool, s->0, meta) > 0 && is_a_color(s->0)
        }),
    decreases n,
{
    if k < n - 1 {
        lemma_scarcest(pool, meta, (n - 1) as nat, c, k);
    } else if n > 1 {
        lemma_scarcest(pool, meta, (n - 1) as nat, five_colors()[0], 0);
    }
}

/// Where generic mana is paid with a colour, it is a colour of which there is least.
pub proof fn generic_mana_takes_the_scarcest_color(
    pool: Seq<ManaUnit>,
    meta: Option<SpellMeta>,
    c: ManaType,
)
    requires
        is_a_color(c),
    ensures
        ({
            let s = scarcest(pool, meta, 5);
            &&& usable_of(pool, c, meta) > 0 ==> s is Some && usable_of(pool, s->0, meta)
                <= usable_of(pool, c, meta)
            &&& s is Some ==> usable_of(pool, s->0, meta) > 0 && is_a_color(s->0)
        }),
{
    let k: int = match c {
        ManaType::White => 0,
        ManaType::Blue => 1,
        ManaType::Black => 2,
        ManaType::Red => 3,
        _ => 4,
    };
    lemma_scarcest(pool, meta, 5, c, k);
}

/// A symbol of two colours is paid with the one that there is; where there are both, with the one
/// that the cards in hand need less; and where they need both alike, with the one there is more of.
pub proof fn the_color_that_pays_for_two(
    pool: Seq<ManaUnit>,
    a: ManaType,
    b: ManaType,
    demand: Option<Seq<u32>>,
    meta: Option<SpellMeta>,
)
    ensures
        ({
            let c = hybrid_choice(pool, a, b, demand, meta);
            let x = usable_of(pool, a, meta);
            let y = usable_of(pool, b, meta);
            &&& c == a || c == b
            &&& x > 0 && y == 0 ==> c == a
            &&& x == 0 && y > 0 ==> c == b
            &&& x > y && y > 0 && demand is None ==> c == a
            &&& y > x && x > 0 && demand is None ==> c == b
        }),
        demand is Some && usable_of(pool, ManaType::White, meta) > 0 && usable_of(
            pool,
            ManaType::Blue,
            meta,
        ) > 0 ==> {
            let c = hybrid_choice(pool, ManaType::White, ManaType::Blue, demand, meta);
            &&& demand->0[0] < demand->0[1] ==> c is White
            &&& demand->0[1] < demand->0[0] ==> c is Blue
        },
        demand is Some && usable_of(pool, ManaType::Black, meta) > 0 && usable_of(
            pool,
            ManaType::Red,
            meta,
        ) > 0 ==> {
            let c = hybrid_choice(pool, ManaType::Black, ManaType::Red, demand, meta);
            &&& demand->0[2] < demand->0[3] ==> c is Black
            &&& demand->0[3] < demand->0[2] ==> c is Red
        },
        demand is Some && usable_of(pool, ManaType::Green, meta) > 0 && usable_of(
            pool,
            ManaType::White,
            meta,
        ) > 0 ==> {
            let c = hybrid_choice(pool, ManaType::Green, ManaType::White, demand, meta);
            &&& demand->0[4] < demand->0[0] ==> c is Green
            &&& demand->0[0] < demand->0[4] ==> c is White
        },
{
}

/// Mana that is produced goes to the end of the pool of the player, and nothing else changes.
pub proof fn mana_produced_goes_to_the_pool(g: Game, i: int, u: ManaUnit, j: int)
    requires
        0 <= i < g.players.len(),
        0 <= j < g.players.len(),
        j != i,
    ensures
        ({
            let h = with_unit(g, i, u);
            &&& h.players[i] == (PlayerModel { mana: g.players[i].mana.push(u), ..g.players[i] })
            &&& h.players[j] == g.players[j]
            &&& h == (Game { players: h.players, ..g })
        }),
{
}

} // verus!
