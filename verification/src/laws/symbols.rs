//! The colors and the mana values of mana costs, and devotion.

use vstd::prelude::*;
use crate::devotion::{
    colors_of_cost, colors_of_shard, colors_of_shards, devotion_among, devotion_of, share_color,
    symbols_of, with_colors,
};
use crate::ids::{ObjectId, PlayerId};
use crate::laws::payment::{is_only, is_phyrexian, one_mana_pays_one_symbol};
use crate::mana::{
    exact_mana_value, mana_value_of, shards_value, ManaColor, ManaCost, ManaCostShard, ManaType,
    ManaUnit,
};
use crate::mana_payment::{asks_for, covers, hand_asks_for, shards_ask_for};
use crate::state::Game;

verus! {

/// Whether a symbol has a color.
pub open spec fn has_the_color(shard: ManaCostShard, c: ManaColor) -> bool {
    match c {
        ManaColor::White => shard is White
            || shard is TwoWhite
            || shard is PhyrexianWhite
            || shard is ColorlessWhite
            || shard is WhiteBlue
            || shard is WhiteBlack
            || shard is RedWhite
            || shard is GreenWhite
            || shard is PhyrexianWhiteBlue
            || shard is PhyrexianWhiteBlack
            || shard is PhyrexianRedWhite
            || shard is PhyrexianGreenWhite,
        ManaColor::Blue => shard is Blue
            || shard is TwoBlue
            || shard is PhyrexianBlue
            || shard is ColorlessBlue
            || shard is WhiteBlue
            || shard is BlueBlack
            || shard is BlueRed
            || shard is GreenBlue
            || shard is PhyrexianWhiteBlue
            || shard is PhyrexianBlueBlack
            || shard is PhyrexianBlueRed
            || shard is PhyrexianGreenBlue,
        ManaColor::Black => shard is Black
            || shard is TwoBlack
            || shard is PhyrexianBlack
            || shard is ColorlessBlack
            || shard is WhiteBlack
            || shard is BlueBlack
            || shard is BlackRed
            || shard is BlackGreen
            || shard is PhyrexianWhiteBlack
            || shard is PhyrexianBlueBlack
            || shard is PhyrexianBlackRed
            || shard is PhyrexianBlackGreen,
        ManaColor::Red => shard is Red
            || shard is TwoRed
            || shard is PhyrexianRed
            || shard is ColorlessRed
            || shard is BlueRed
            || shard is BlackRed
            || shard is RedWhite
            || shard is RedGreen
            || shard is PhyrexianBlueRed
            || shard is PhyrexianBlackRed
            || shard is PhyrexianRedWhite
            || shard is PhyrexianRedGreen,
        ManaColor::Green => shard is Green
            || shard is TwoGreen
            || shard is PhyrexianGreen
            || shard is ColorlessGreen
            || shard is BlackGreen
            || shard is RedGreen
            || shard is GreenWhite
            || shard is GreenBlue
            || shard is PhyrexianBlackGreen
            || shard is PhyrexianRedGreen
            || shard is PhyrexianGreenWhite
            || shard is PhyrexianGreenBlue,
    }
}

/// The mana of a color.
pub open spec fn mana_of(c: ManaColor) -> ManaType {
    match c {
        ManaColor::White => ManaType::White,
        ManaColor::Blue => ManaType::Blue,
        ManaColor::Black => ManaType::Black,
        ManaColor::Red => ManaType::Red,
        ManaColor::Green => ManaType::Green,
    }
}

/// A symbol has the colors that it names, each once.
pub proof fn colors_of_a_symbol(shard: ManaCostShard, c: ManaColor)
    ensures
        colors_of_shard(shard).contains(c) <==> has_the_color(shard, c),
        colors_of_shard(shard).len() <= 2,
        colors_of_shard(shard).no_duplicates(),
{
    let s = colors_of_shard(shard);
    if s.len() > 0 {
        assert(s.contains(s[0]));
    }
    if s.len() > 1 {
        assert(s.contains(s[1]));
    }
}

/// A cost of one symbol is of a color exactly when a mana of that color pays it. (Phyrexian symbols
/// can be paid without mana.)
pub proof fn a_symbol_is_of_the_colors_that_pay_it(
    cost: ManaCost,
    shard: ManaCostShard,
    c: ManaColor,
    u: ManaUnit,
)
    requires
        is_only(cost, shard),
        !is_phyrexian(shard),
        !(shard is X) && !(shard is Snow),
        u.color == mana_of(c),
    ensures
        colors_of_shard(shard).contains(c) <==> covers(seq![u], cost, None),
{
    one_mana_pays_one_symbol(u, cost, shard, None);
    colors_of_a_symbol(shard, c);
}

proof fn lemma_with_colors(list: Seq<ManaColor>, more: Seq<ManaColor>, n: nat, c: ManaColor)
    requires
        n <= more.len(),
    ensures
        with_colors(list, more, n).contains(c) <==> list.contains(c) || more.take(n as int).contains(
            c,
        ),
    decreases n,
{
    if n == 0 {
        assert(more.take(0).len() == 0);
    } else {
        lemma_with_colors(list, more, (n - 1) as nat, c);
        let front = with_colors(list, more, (n - 1) as nat);
        let x = more[n - 1];
        assert(more.take(n as int) =~= more.take(n - 1).push(x));
        assert(more.take(n as int).contains(c) <==> more.take(n - 1).contains(c) || x == c) by {
            let t = more.take(n - 1);
            if t.contains(c) {
                let i = choose|i: int| 0 <= i < t.len() && t[i] == c;
                assert(t.push(x)[i] == c);
            }
            assert(t.push(x)[n - 1] == x);
        }
        assert(front.push(x).contains(c) <==> front.contains(c) || x == c) by {
            if front.contains(c) {
                let i = choose|i: int| 0 <= i < front.len() && front[i] == c;
                assert(front.push(x)[i] == c);
            }
            assert(front.push(x)[front.len() as int] == x);
        }
        if front.contains(x) {
            assert(x == c ==> front.contains(c));
        }
    }
}

proof fn lemma_colors_of_shards(shards: Seq<ManaCostShard>, n: nat, c: ManaColor)
    requires
        n <= shards.len(),
    ensures
        colors_of_shards(shards, n).contains(c) <==> exists|i: int|
            0 <= i < n && has_the_color(#[trigger] shards[i], c),
    decreases n,
{
    if n > 0 {
        lemma_colors_of_shards(shards, (n - 1) as nat, c);
        let more = colors_of_shard(shards[n - 1]);
        colors_of_a_symbol(shards[n - 1], c);
        lemma_with_colors(colors_of_shards(shards, (n - 1) as nat), more, more.len(), c);
        assert(more.take(more.len() as int) =~= more);
    }
}

/// A mana cost is of a color exactly when one of its symbols names it.
pub proof fn colors_of_a_mana_cost(cost: ManaCost, c: ManaColor)
    ensures
        cost is Cost ==> (colors_of_cost(cost).contains(c) <==> exists|i: int|
            0 <= i < cost->shards@.len() && has_the_color(#[trigger] cost->shards@[i], c)),
        !(cost is Cost) ==> colors_of_cost(cost).len() == 0,
{
    if cost is Cost {
        lemma_colors_of_shards(cost->shards@, cost->shards@.len(), c);
    }
}

/// What a symbol adds to the mana value: X nothing, one with a two on one side two, any other one.
/// Generic mana adds its amount.
pub proof fn mana_values(cost: ManaCost, front: ManaCost, shard: ManaCostShard)
    requires
        cost is Cost && front is Cost,
        cost->shards@ == front->shards@.push(shard),
    ensures
        ({
            let adds: int = if shard is X {
                0
            } else if shard is TwoWhite || shard is TwoBlue || shard is TwoBlack || shard is TwoRed
                || shard is TwoGreen {
                2
            } else {
                1
            };
            let rest = exact_mana_value(front) - front->generic;
            exact_mana_value(cost) == rest + adds + cost->generic
        }),
{
    lemma_value_of_front(front->shards@, shard, front->shards@.len());
    let all = cost->shards@;
    assert(all[front->shards@.len() as int] == shard);
}

proof fn lemma_value_of_front(front: Seq<ManaCostShard>, shard: ManaCostShard, n: nat)
    requires
        n <= front.len(),
    ensures
        shards_value(front.push(shard), n) == shards_value(front, n),
    decreases n,
{
    if n > 0 {
        lemma_value_of_front(front, shard, (n - 1) as nat);
    }
}

/// A cost without symbols has its generic mana as mana value, no cost has none; and the mana value
/// that is given is the exact one, as far as it fits 32 bits.
pub proof fn mana_values_of_plain_costs(cost: ManaCost)
    ensures
        cost is Cost && cost->shards@.len() == 0 ==> mana_value_of(cost) == cost->generic,
        !(cost is Cost) ==> mana_value_of(cost) == 0,
        exact_mana_value(cost) <= u32::MAX ==> mana_value_of(cost) == exact_mana_value(cost),
        exact_mana_value(cost) > u32::MAX ==> mana_value_of(cost) == u32::MAX,
{
}

/// Whether a symbol has one of some colors.
pub open spec fn has_one_of_the_colors(shard: ManaCostShard, colors: Seq<ManaColor>) -> bool {
    exists|i: int| 0 <= i < colors.len() && has_the_color(shard, #[trigger] colors[i])
}

/// The symbols of a cost that have one of some colors.
pub open spec fn symbols_with(shards: Seq<ManaCostShard>, colors: Seq<ManaColor>) -> nat {
    shards.filter(|s: ManaCostShard| has_one_of_the_colors(s, colors)).len()
}

proof fn lemma_shares(shard: ManaCostShard, colors: Seq<ManaColor>)
    ensures
        share_color(colors_of_shard(shard), colors) <==> has_one_of_the_colors(shard, colors),
{
    let s = colors_of_shard(shard);
    if share_color(s, colors) {
        let i = choose|i: int| 0 <= i < s.len() && colors.contains(#[trigger] s[i]);
        let j = choose|j: int| 0 <= j < colors.len() && colors[j] == s[i];
        colors_of_a_symbol(shard, s[i]);
        assert(s.contains(s[i]));
        assert(has_the_color(shard, colors[j]));
    }
    if has_one_of_the_colors(shard, colors) {
        let j = choose|j: int| 0 <= j < colors.len() && has_the_color(shard, #[trigger] colors[j]);
        colors_of_a_symbol(shard, colors[j]);
        let i = choose|i: int| 0 <= i < s.len() && s[i] == colors[j];
        assert(colors.contains(s[i]));
    }
}

proof fn lemma_symbols(shards: Seq<ManaCostShard>, n: nat, colors: Seq<ManaColor>)
    requires
        n <= shards.len(),
    ensures
        symbols_of(shards, n, colors) == symbols_with(shards.take(n as int), colors),
    decreases n,
{
    reveal(Seq::filter);
    if n > 0 {
        lemma_symbols(shards, (n - 1) as nat, colors);
        lemma_shares(shards[n - 1], colors);
        assert(shards.take(n as int).drop_last() =~= shards.take(n - 1));
        assert(shards.take(n as int).last() == shards[n - 1]);
    }
}

/// A permanent adds to the devotion of its controller as many as its cost has symbols of the
/// colors, and nothing to that of others.
pub proof fn each_permanent_adds_to_devotion(
    g: Game,
    p: PlayerId,
    colors: Seq<ManaColor>,
    n: nat,
)
    requires
        0 < n <= g.battlefield.len(),
        g.objects.dom().contains(g.battlefield[n - 1]),
    ensures
        ({
            let o = g.objects[g.battlefield[n - 1]];
            let adds: nat = if o.controller == p && o.mana_cost is Cost {
                symbols_with(o.mana_cost->shards@, colors)
            } else {
                0
            };
            devotion_among(g, n, p, colors) == devotion_among(g, (n - 1) as nat, p, colors) + adds
        }),
        devotion_among(g, 0, p, colors) == 0,
        devotion_among(g, g.battlefield.len(), p, colors) <= u32::MAX ==> devotion_of(g, p, colors)
            == devotion_among(g, g.battlefield.len(), p, colors),
{
    let o = g.objects[g.battlefield[n - 1]];
    if o.mana_cost is Cost {
        let shards = o.mana_cost->shards@;
        lemma_symbols(shards, shards.len(), colors);
        assert(shards.take(shards.len() as int) =~= shards);
    }
}

/// The place of a color among white, blue, black, red and green.
pub open spec fn place_of_color(c: ManaColor) -> int {
    match c {
        ManaColor::White => 0,
        ManaColor::Blue => 1,
        ManaColor::Black => 2,
        ManaColor::Red => 3,
        ManaColor::Green => 4,
    }
}

proof fn lemma_asks(shard: ManaCostShard, c: ManaColor)
    ensures
        asks_for(shard, place_of_color(c)) == (if has_the_color(shard, c) {
            1nat
        } else {
            0
        }),
{
    match c {
        ManaColor::White => {},
        ManaColor::Blue => {},
        ManaColor::Black => {},
        ManaColor::Red => {},
        ManaColor::Green => {},
    }
}

/// A symbol asks once for each color that it names.
pub proof fn symbols_ask_for_their_colors(
    shards: Seq<ManaCostShard>,
    c: ManaColor,
    n: nat,
)
    requires
        0 < n <= shards.len(),
    ensures
        shards_ask_for(shards, place_of_color(c), n) == shards_ask_for(
            shards,
            place_of_color(c),
            (n - 1) as nat,
        ) + (if has_the_color(shards[n - 1], c) {
            1int
        } else {
            0
        }),
        shards_ask_for(shards, place_of_color(c), 0) == 0,
{
    lemma_asks(shards[n - 1], c);
}

/// The card that is left out asks for nothing, and every other card of a hand for what its symbols
/// name.
pub proof fn cards_of_the_hand_ask_for_colors(
    g: Game,
    hand: Seq<ObjectId>,
    excluding: ObjectId,
    k: int,
    n: nat,
)
    requires
        0 < n <= hand.len(),
        g.objects.dom().contains(hand[n - 1]),
        g.objects[hand[n - 1]].mana_cost is Cost,
    ensures
        ({
            let shards = g.objects[hand[n - 1]].mana_cost->shards@;
            hand_asks_for(g, hand, excluding, k, n) == hand_asks_for(
                g,
                hand,
                excluding,
                k,
                (n - 1) as nat,
            ) + (if hand[n - 1] == excluding {
                0
            } else {
                shards_ask_for(shards, k, shards.len())
            })
        }),
{
}

} // verus!
