//! Colors of mana costs, devotion and color identity.

use vstd::prelude::*;
use crate::ids::PlayerId;
use crate::keyed::Key;
use crate::mana::{ManaColor, ManaCost, ManaCostShard};
use crate::seqs::lemma_take_next;
use crate::state::{object_at, Game, GameState};

verus! {

/// The colors of a symbol of a mana cost.
pub open spec fn colors_of_shard(shard: ManaCostShard) -> Seq<ManaColor> {
    match shard {
        ManaCostShard::White | ManaCostShard::TwoWhite | ManaCostShard::PhyrexianWhite => seq![ManaColor::White],
        ManaCostShard::Blue | ManaCostShard::TwoBlue | ManaCostShard::PhyrexianBlue => seq![ManaColor::Blue],
        ManaCostShard::Black | ManaCostShard::TwoBlack | ManaCostShard::PhyrexianBlack => seq![ManaColor::Black],
        ManaCostShard::Red | ManaCostShard::TwoRed | ManaCostShard::PhyrexianRed => seq![ManaColor::Red],
        ManaCostShard::Green | ManaCostShard::TwoGreen | ManaCostShard::PhyrexianGreen => seq![ManaColor::Green],
        ManaCostShard::WhiteBlue | ManaCostShard::PhyrexianWhiteBlue => seq![ManaColor::White, ManaColor::Blue],
        ManaCostShard::WhiteBlack | ManaCostShard::PhyrexianWhiteBlack => seq![ManaColor::White, ManaColor::Black],
        ManaCostShard::BlueBlack | ManaCostShard::PhyrexianBlueBlack => seq![ManaColor::Blue, ManaColor::Black],
        ManaCostShard::BlueRed | ManaCostShard::PhyrexianBlueRed => seq![ManaColor::Blue, ManaColor::Red],
        ManaCostShard::BlackRed | ManaCostShard::PhyrexianBlackRed => seq![ManaColor::Black, ManaColor::Red],
        ManaCostShard::BlackGreen | ManaCostShard::PhyrexianBlackGreen => seq![ManaColor::Black, ManaColor::Green],
        ManaCostShard::RedWhite | ManaCostShard::PhyrexianRedWhite => seq![ManaColor::Red, ManaColor::White],
        ManaCostShard::RedGreen | ManaCostShard::PhyrexianRedGreen => seq![ManaColor::Red, ManaColor::Green],
        ManaCostShard::GreenWhite | ManaCostShard::PhyrexianGreenWhite => seq![ManaColor::Green, ManaColor::White],
        ManaCostShard::GreenBlue | ManaCostShard::PhyrexianGreenBlue => seq![ManaColor::Green, ManaColor::Blue],
        ManaCostShard::ColorlessWhite => seq![ManaColor::White],
        ManaCostShard::ColorlessBlue => seq![ManaColor::Blue],
        ManaCostShard::ColorlessBlack => seq![ManaColor::Black],
        ManaCostShard::ColorlessRed => seq![ManaColor::Red],
        ManaCostShard::ColorlessGreen => seq![ManaColor::Green],
        ManaCostShard::Colorless | ManaCostShard::Snow | ManaCostShard::X => seq![],
    }
}

/// The colors of a symbol of a mana cost.
pub fn shard_colors(shard: ManaCostShard) -> (r: Vec<ManaColor>)
    ensures
        r@ == colors_of_shard(shard),
        r@.len() <= 2,
{
    let mut out: Vec<ManaColor> = Vec::new();
    match shard {
        ManaCostShard::White | ManaCostShard::TwoWhite | ManaCostShard::PhyrexianWhite => {
            out.push(ManaColor::White);
        },
        ManaCostShard::Blue | ManaCostShard::TwoBlue | ManaCostShard::PhyrexianBlue => {
            out.push(ManaColor::Blue);
        },
        ManaCostShard::Black | ManaCostShard::TwoBlack | ManaCostShard::PhyrexianBlack => {
            out.push(ManaColor::Black);
        },
        ManaCostShard::Red | ManaCostShard::TwoRed | ManaCostShard::PhyrexianRed => {
            out.push(ManaColor::Red);
        },
        ManaCostShard::Green | ManaCostShard::TwoGreen | ManaCostShard::PhyrexianGreen => {
            out.push(ManaColor::Green);
        },
        ManaCostShard::WhiteBlue | ManaCostShard::PhyrexianWhiteBlue => {
            out.push(ManaColor::White);
            out.push(ManaColor::Blue);
        },
        ManaCostShard::WhiteBlack | ManaCostShard::PhyrexianWhiteBlack => {
            out.push(ManaColor::White);
            out.push(ManaColor::Black);
        },
        ManaCostShard::BlueBlack | ManaCostShard::PhyrexianBlueBlack => {
            out.push(ManaColor::Blue);
            out.push(ManaColor::Black);
        },
        ManaCostShard::BlueRed | ManaCostShard::PhyrexianBlueRed => {
            out.push(ManaColor::Blue);
            out.push(ManaColor::Red);
        },
        ManaCostShard::BlackRed | ManaCostShard::PhyrexianBlackRed => {
            out.push(ManaColor::Black);
            out.push(ManaColor::Red);
        },
        ManaCostShard::BlackGreen | ManaCostShard::PhyrexianBlackGreen => {
            out.push(ManaColor::Black);
            out.push(ManaColor::Green);
        },
        ManaCostShard::RedWhite | ManaCostShard::PhyrexianRedWhite => {
            out.push(ManaColor::Red);
            out.push(ManaColor::White);
        },
        ManaCostShard::RedGreen | ManaCostShard::PhyrexianRedGreen => {
            out.push(ManaColor::Red);
            out.push(ManaColor::Green);
        },
        ManaCostShard::GreenWhite | ManaCostShard::PhyrexianGreenWhite => {
            out.push(ManaColor::Green);
            out.push(ManaColor::White);
        },
        ManaCostShard::GreenBlue | ManaCostShard::PhyrexianGreenBlue => {
            out.push(ManaColor::Green);
            out.push(ManaColor::Blue);
        },
        ManaCostShard::ColorlessWhite => {
            out.push(ManaColor::White);
        },
        ManaCostShard::ColorlessBlue => {
            out.push(ManaColor::Blue);
        },
        ManaCostShard::ColorlessBlack => {
            out.push(ManaColor::Black);
        },
        ManaCostShard::ColorlessRed => {
            out.push(ManaColor::Red);
        },
        ManaCostShard::ColorlessGreen => {
            out.push(ManaColor::Green);
        },
        ManaCostShard::Colorless | ManaCostShard::Snow | ManaCostShard::X => {},
    }
    assert(out@ =~= colors_of_shard(shard));
    out
}

/// A list with a color added at the end, unless it is there.
pub open spec fn with_color(list: Seq<ManaColor>, c: ManaColor) -> Seq<ManaColor> {
    if list.contains(c) {
        list
    } else {
        list.push(c)
    }
}

/// A list with the first `n` of some colors added.
pub open spec fn with_colors(list: Seq<ManaColor>, more: Seq<ManaColor>, n: nat) -> Seq<ManaColor>
    decreases n,
{
    if n == 0 || n > more.len() {
        list
    } else {
        with_color(with_colors(list, more, (n - 1) as nat), more[n - 1])
    }
}

/// The colors of the first `n` symbols, each once, in the order in which they come.
pub open spec fn colors_of_shards(shards: Seq<ManaCostShard>, n: nat) -> Seq<ManaColor>
    decreases n,
{
    if n == 0 || n > shards.len() {
        Seq::empty()
    } else {
        let more = colors_of_shard(shards[n - 1]);
        with_colors(colors_of_shards(shards, (n - 1) as nat), more, more.len())
    }
}

/// The colors of a mana cost, each once, in the order in which they come.
pub open spec fn colors_of_cost(cost: ManaCost) -> Seq<ManaColor> {
    match cost {
        ManaCost::NoCost | ManaCost::SelfManaCost => Seq::empty(),
        ManaCost::Cost { shards, .. } => colors_of_shards(shards@, shards@.len()),
    }
}

fn add_color(list: &mut Vec<ManaColor>, c: ManaColor)
    ensures
        final(list)@ == with_color(old(list)@, c),
{
    if !crate::cards::has_color(list, c) {
        list.push(c);
    }
}

fn add_colors(list: &mut Vec<ManaColor>, more: &Vec<ManaColor>)
    ensures
        final(list)@ == with_colors(old(list)@, more@, more@.len()),
{
    let ghost start = list@;
    let mut i: usize = 0;
    while i < more.len()
        invariant
            i <= more@.len(),
            list@ == with_colors(start, more@, i as nat),
        decreases more.len() - i,
    {
        add_color(list, more[i]);
        i += 1;
    }
}

/// The colors of a mana cost, each once, in the order in which they come.
pub fn derive_colors_from_mana_cost(mana_cost: &ManaCost) -> (r: Vec<ManaColor>)
    ensures
        r@ == colors_of_cost(*mana_cost),
{
    let mut colors: Vec<ManaColor> = Vec::new();
    match mana_cost {
        ManaCost::NoCost | ManaCost::SelfManaCost => {},
        ManaCost::Cost { shards, .. } => {
            let ghost list = shards@;
            let mut i: usize = 0;
            while i < shards.len()
                invariant
                    i <= list.len(),
                    list == shards@,
                    colors@ == colors_of_shards(list, i as nat),
                decreases list.len() - i,
            {
                let more = shard_colors(shards[i]);
                add_colors(&mut colors, &more);
                i += 1;
            }
        },
    }
    colors
}

proof fn lemma_with_color(list: Seq<ManaColor>, c: ManaColor)
    requires
        list.no_duplicates(),
    ensures
        with_color(list, c).no_duplicates(),
        with_color(list, c).contains(c),
        forall|x: ManaColor| list.contains(x) ==> #[trigger] with_color(list, c).contains(x),
        forall|x: ManaColor| #[trigger] with_color(list, c).contains(x) ==> list.contains(x) || x == c,
{
    let t = with_color(list, c);
    if !list.contains(c) {
        assert(t[list.len() as int] == c);
        assert forall|x: ManaColor| list.contains(x) implies #[trigger] t.contains(x) by {
            let k = choose|k: int| 0 <= k < list.len() && list[k] == x;
            assert(t[k] == x);
        }
        assert forall|x: ManaColor| #[trigger] t.contains(x) implies list.contains(x) || x == c by {
            let k = choose|k: int| 0 <= k < t.len() && t[k] == x;
            if k < list.len() {
                assert(list[k] == x);
            }
        }
    }
}

proof fn lemma_with_colors(list: Seq<ManaColor>, more: Seq<ManaColor>, n: nat)
    requires
        list.no_duplicates(),
        n <= more.len(),
    ensures
        with_colors(list, more, n).no_duplicates(),
        forall|x: ManaColor| #[trigger]
            with_colors(list, more, n).contains(x) <==> list.contains(x) || more.take(
                n as int,
            ).contains(x),
    decreases n,
{
    if n > 0 {
        let front = with_colors(list, more, (n - 1) as nat);
        lemma_with_colors(list, more, (n - 1) as nat);
        lemma_with_color(front, more[n - 1]);
        assert forall|x: ManaColor| #[trigger]
            with_colors(list, more, n).contains(x) <==> list.contains(x) || more.take(
                n as int,
            ).contains(x) by {
            let a = more.take(n - 1);
            let b = more.take(n as int);
            lemma_take_next(more, n - 1);
            if a.contains(x) {
                let k = choose|k: int| 0 <= k < a.len() && a[k] == x;
                assert(b[k] == x);
            }
            if x == more[n - 1] {
                assert(b[n - 1] == x);
            }
            if b.contains(x) {
                let k = choose|k: int| 0 <= k < b.len() && b[k] == x;
                if k < n - 1 {
                    assert(a[k] == x);
                }
            }
        }
    }
}

/// The colors of a mana cost are those of its symbols, and none comes twice.
pub proof fn colors_of_a_cost(shards: Seq<ManaCostShard>, n: nat)
    requires
        n <= shards.len(),
    ensures
        colors_of_shards(shards, n).no_duplicates(),
        forall|x: ManaColor| #[trigger]
            colors_of_shards(shards, n).contains(x) <==> exists|i: int|
                0 <= i < n && colors_of_shard(#[trigger] shards[i]).contains(x),
    decreases n,
{
    if n > 0 {
        colors_of_a_cost(shards, (n - 1) as nat);
        let more = colors_of_shard(shards[n - 1]);
        lemma_with_colors(colors_of_shards(shards, (n - 1) as nat), more, more.len());
        assert(more.take(more.len() as int) =~= more);
    }
}

/// Whether two lists of colors share one.
pub open spec fn share_color(a: Seq<ManaColor>, b: Seq<ManaColor>) -> bool {
    exists|i: int| 0 <= i < a.len() && b.contains(#[trigger] a[i])
}

/// The first `n` symbols that are of one of the given colors.
pub open spec fn symbols_of(shards: Seq<ManaCostShard>, n: nat, colors: Seq<ManaColor>) -> nat
    decreases n,
{
    if n == 0 || n > shards.len() {
        0
    } else {
        symbols_of(shards, (n - 1) as nat, colors) + (if share_color(
            colors_of_shard(shards[n - 1]),
            colors,
        ) {
            1nat
        } else {
            0
        })
    }
}

/// What the first `n` permanents add to a player's devotion.
pub open spec fn devotion_among(g: Game, n: nat, p: PlayerId, colors: Seq<ManaColor>) -> nat
    decreases n,
{
    if n == 0 || n > g.battlefield.len() {
        0
    } else {
        devotion_among(g, (n - 1) as nat, p, colors) + (match object_at(g, g.battlefield[n - 1]) {
            Some(o) => if o.controller == p {
                match o.mana_cost {
                    ManaCost::Cost { shards, .. } => symbols_of(shards@, shards@.len(), colors),
                    _ => 0,
                }
            } else {
                0
            },
            None => 0,
        })
    }
}

/// A player's devotion to colors: the symbols of those colors among the mana costs of the player's
/// permanents, as far as 32 bits can hold the number.
pub open spec fn devotion_of(g: Game, p: PlayerId, colors: Seq<ManaColor>) -> u32 {
    let n = devotion_among(g, g.battlefield.len(), p, colors);
    if n > u32::MAX {
        u32::MAX
    } else {
        n as u32
    }
}

fn shares(a: &Vec<ManaColor>, b: &Vec<ManaColor>) -> (r: bool)
    ensures
        r == share_color(a@, b@),
{
    let mut i: usize = 0;
    while i < a.len()
        invariant
            i <= a@.len(),
            forall|j: int| 0 <= j < i ==> !b@.contains(#[trigger] a@[j]),
        decreases a.len() - i,
    {
        if crate::cards::has_color(b, a[i]) {
            return true;
        }
        i += 1;
    }
    false
}

fn count_symbols(shards: &Vec<ManaCostShard>, colors: &Vec<ManaColor>) -> (r: u64)
    ensures
        r == (if symbols_of(shards@, shards@.len(), colors@) > u64::MAX {
            u64::MAX as int
        } else {
            symbols_of(shards@, shards@.len(), colors@) as int
        }),
{
    let mut n: u64 = 0;
    let mut i: usize = 0;
    while i < shards.len()
        invariant
            i <= shards@.len(),
            n == (if symbols_of(shards@, i as nat, colors@) > u64::MAX {
                u64::MAX as int
            } else {
                symbols_of(shards@, i as nat, colors@) as int
            }),
        decreases shards.len() - i,
    {
        let of_shard = shard_colors(shards[i]);
        if shares(&of_shard, colors) {
            n = n.saturating_add(1);
        }
        i += 1;
    }
    n
}

/// A player's devotion to colors.
pub fn count_devotion(state: &GameState, p: PlayerId, colors: &Vec<ManaColor>) -> (r: u32)
    ensures
        r == devotion_of(state@, p, colors@),
{
    let ghost g = state@;
    let mut n: u64 = 0;
    let mut i: usize = 0;
    while i < state.battlefield.len()
        invariant
            i <= state.battlefield@.len(),
            g == state@,
            n == (if devotion_among(g, i as nat, p, colors@) > u64::MAX {
                u64::MAX as int
            } else {
                devotion_among(g, i as nat, p, colors@) as int
            }),
        decreases state.battlefield.len() - i,
    {
        if let Some(o) = state.object(state.battlefield[i]) {
            if o.controller == p {
                if let ManaCost::Cost { shards, .. } = &o.mana_cost {
                    n = n.saturating_add(count_symbols(shards, colors));
                }
            }
        }
        i += 1;
    }
    if n > u32::MAX as u64 {
        u32::MAX
    } else {
        n as u32
    }
}

/// The colors of the commanders that a player owns among the first `n` objects, one after another.
pub open spec fn commander_colors_among(g: Game, n: nat, p: PlayerId) -> Seq<ManaColor>
    decreases n,
{
    if n == 0 || n > g.object_ids.len() {
        Seq::empty()
    } else {
        let front = commander_colors_among(g, (n - 1) as nat, p);
        match object_at(g, g.object_ids[n - 1]) {
            Some(o) => if o.is_commander && o.owner == p {
                front + o.color + colors_of_cost(o.mana_cost)
            } else {
                front
            },
            None => front,
        }
    }
}

/// The colors of the commanders that a player owns.
pub open spec fn commander_colors(g: Game, p: PlayerId) -> Seq<ManaColor> {
    commander_colors_among(g, g.object_ids.len(), p)
}

/// Appends one list of colors to another.
pub fn append_colors(out: &mut Vec<ManaColor>, list: &Vec<ManaColor>)
    ensures
        final(out)@ == old(out)@ + list@,
{
    let ghost start = out@;
    let mut i: usize = 0;
    assert(start + list@.take(0) =~= start);
    while i < list.len()
        invariant
            i <= list@.len(),
            out@ == start + list@.take(i as int),
        decreases list.len() - i,
    {
        out.push(list[i]);
        proof {
            lemma_take_next(list@, i as int);
            assert(start + list@.take(i as int).push(list@[i as int]) =~= (start + list@.take(
                i as int,
            )).push(list@[i as int]));
        }
        i += 1;
    }
    assert(list@.take(i as int) =~= list@);
}

/// The colors of the commanders that a player owns, one after another.
pub fn commander_color_identity(state: &GameState, p: PlayerId) -> (r: Vec<ManaColor>)
    ensures
        r@ == commander_colors(state@, p),
{
    let ghost g = state@;
    let mut out: Vec<ManaColor> = Vec::new();
    let mut i: usize = 0;
    while i < state.objects.len()
        invariant
            i <= state.objects.seq().len(),
            g == state@,
            out@ == commander_colors_among(g, i as nat, p),
        decreases state.objects.seq().len() - i,
    {
        let id = *state.objects.key_at(i);
        assert(id == g.object_ids[i as int]);
        if let Some(o) = state.object(id) {
            if o.is_commander && o.owner == p {
                append_colors(&mut out, &o.color);
                let more = derive_colors_from_mana_cost(&o.mana_cost);
                append_colors(&mut out, &more);
            }
        }
        i += 1;
    }
    out
}

} // verus!
