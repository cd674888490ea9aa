//! What continuous effects promise: which are in force, in what order, and what they change.

use std::sync::Arc;
use vstd::prelude::*;
use crate::ability::{ContinuousModification, StaticDefinition, TargetFilter};
use crate::cards::{has_kind, kind_of, CounterKind, Keyword, KeywordKind};
use crate::filter::{matches_filter, seen_from};
use crate::ids::{ObjectId, PlayerId};
use crate::layers::{
    affected_by, all_by_themselves, by_age, by_itself, effect_applied, effects_applied,
    effects_in_force, effects_of_changes, effects_of_objects, effects_of_statics, keywords_after,
    layers_evaluated, not_of_kind, of_kind, place_by_age, statics_work, transient_effects,
    with_keyword, ActiveContinuousEffect,
};
use crate::object::ObjectModel;
use crate::off_zone_characteristics::{
    changing_keywords, effects_considered, first_of_kind, keywords_after_all, keywords_of,
};
use crate::seqs::{
    first_where, is_first, lemma_filter_members, lemma_first_where, lemma_first_where_none,
};
use crate::state::{Game, TransientEffect};
use crate::quantity::value_of;

verus! {

/// How many counters of a kind there are.
pub open spec fn counters_of(o: ObjectModel, kind: CounterKind) -> int {
    if o.counters.dom().contains(kind) {
        o.counters[kind] as int
    } else {
        0
    }
}

/// What a number is with its counters, where all fits in 32 bits.
pub open spec fn fits(base: int, o: ObjectModel) -> bool {
    let up = counters_of(o, CounterKind::Plus1Plus1);
    let down = counters_of(o, CounterKind::Minus1Minus1);
    &&& up <= i32::MAX && down <= i32::MAX
    &&& i32::MIN <= base + up <= i32::MAX
    &&& i32::MIN <= base + up - down <= i32::MAX
}

/// By itself, a permanent has its base power and toughness, one more for each counter that adds
/// one, one less for each that takes one away, and its base keywords.
pub proof fn counters_change_power_and_toughness(o: ObjectModel, p: i32, t: i32)
    requires
        o.base_characteristics_initialized,
        o.base_power == Some(p),
        o.base_toughness == Some(t),
        fits(p as int, o),
        fits(t as int, o),
    ensures
        by_itself(o).power == Some(
            (p + counters_of(o, CounterKind::Plus1Plus1) - counters_of(
                o,
                CounterKind::Minus1Minus1,
            )) as i32,
        ),
        by_itself(o).toughness == Some(
            (t + counters_of(o, CounterKind::Plus1Plus1) - counters_of(
                o,
                CounterKind::Minus1Minus1,
            )) as i32,
        ),
        by_itself(o).keywords == o.base_keywords,
        by_itself(o) == (ObjectModel {
            power: by_itself(o).power,
            toughness: by_itself(o).toughness,
            keywords: o.base_keywords,
            ..o
        }),
{
}

/// What has no power has none with counters either.
pub proof fn without_power_counters_give_none(o: ObjectModel)
    requires
        o.base_characteristics_initialized,
    ensures
        o.base_power is None ==> by_itself(o).power is None,
        o.base_toughness is None ==> by_itself(o).toughness is None,
{
}

/// What a permanent is when it is looked at for the first time becomes its base.
pub proof fn the_first_look_gives_the_base(o: ObjectModel)
    requires
        !o.base_characteristics_initialized,
    ensures
        ({
            let b = by_itself(o);
            &&& b.base_characteristics_initialized
            &&& b.base_name == o.name && b.base_power == o.power && b.base_toughness == o.toughness
            &&& b.base_loyalty == o.loyalty && b.base_card_types == o.card_types
            &&& b.base_mana_cost == o.mana_cost && b.base_keywords == o.keywords
            &&& b.base_abilities == o.abilities && b.base_color == o.color
            &&& b.base_trigger_definitions == o.trigger_definitions
            &&& b.base_replacement_definitions == o.replacement_definitions
            &&& b.base_static_definitions == o.static_definitions
            &&& b.keywords == o.keywords
        }),
{
}

/// An effect that adds to power adds just that to power, and one that adds to toughness to
/// toughness; nothing else of the object changes.
pub proof fn effects_add_to_power_or_toughness(
    g: Game,
    o: ObjectModel,
    e: ActiveContinuousEffect,
    p: i32,
    t: i32,
)
    requires
        o.power == Some(p),
        o.toughness == Some(t),
    ensures
        match *e.modification {
            ContinuousModification::AddPower { value } => i32::MIN <= p + value <= i32::MAX
                ==> affected_by(g, o, e) == (ObjectModel { power: Some((p + value) as i32), ..o }),
            ContinuousModification::AddToughness { value } => i32::MIN <= t + value <= i32::MAX
                ==> affected_by(g, o, e) == (ObjectModel {
                toughness: Some((t + value) as i32),
                ..o
            }),
            _ => affected_by(g, o, e) == (ObjectModel {
                keywords: keywords_after(g, o.keywords, e),
                ..o
            }),
        },
{
}

proof fn lemma_some_first(list: Seq<Keyword>, p: spec_fn(Keyword) -> bool, k: int)
    requires
        0 <= k < list.len(),
        p(list[k]),
    ensures
        first_where(list, p) is Some,
        is_first(list, p, first_where(list, p)->0),
    decreases k,
{
    if exists|j: int| 0 <= j < k && p(#[trigger] list[j]) {
        let j = choose|j: int| 0 <= j < k && p(#[trigger] list[j]);
        lemma_some_first(list, p, j);
    } else {
        assert(is_first(list, p, k));
        lemma_first_where(list, p, k);
    }
}

/// A keyword that is added is there afterwards, in the place of the first of its kind or at the
/// end, and keywords of other kinds stay.
pub proof fn a_keyword_added_is_there(list: Seq<Keyword>, k: Keyword, other: Keyword)
    requires
        kind_of(other) != kind_of(k),
    ensures
        with_keyword(list, k).contains(k),
        with_keyword(list, k).contains(other) <==> list.contains(other),
        !has_kind(list, kind_of(k)) ==> with_keyword(list, k) == list.push(k),
        has_kind(list, kind_of(k)) ==> with_keyword(list, k).len() == list.len(),
{
    let p = of_kind(kind_of(k));
    let now = with_keyword(list, k);
    if has_kind(list, kind_of(k)) {
        let j = choose|j: int| 0 <= j < list.len() && kind_of(#[trigger] list[j]) == kind_of(k);
        lemma_some_first(list, p, j);
        let i = first_where(list, p)->0;
        assert(now[i] == k);
        if list.contains(other) {
            let x = choose|x: int| 0 <= x < list.len() && list[x] == other;
            assert(now[x] == other);
        }
        if now.contains(other) {
            let x = choose|x: int| 0 <= x < now.len() && now[x] == other;
            assert(list[x] == other);
        }
    } else {
        lemma_first_where_none(list, p);
        assert(now[list.len() as int] == k);
        if list.contains(other) {
            let x = choose|x: int| 0 <= x < list.len() && list[x] == other;
            assert(now[x] == other);
        }
        if now.contains(other) {
            let x = choose|x: int| 0 <= x < now.len() && now[x] == other;
            assert(list[x] == other);
        }
    }
}

/// Effects change keywords as they say: one adds a keyword, one takes all of a kind away, one takes
/// all away, and others leave them as they are.
pub proof fn effects_change_keywords(
    g: Game,
    list: Seq<Keyword>,
    e: ActiveContinuousEffect,
    x: Keyword,
)
    ensures
        match *e.modification {
            ContinuousModification::AddKeyword { keyword } => keywords_after(
                g,
                list,
                e,
            ).contains(keyword),
            ContinuousModification::RemoveKeyword { keyword } => keywords_after(
                g,
                list,
                e,
            ).contains(x) <==> list.contains(x) && kind_of(x) != kind_of(keyword),
            ContinuousModification::RemoveAllAbilities => keywords_after(g, list, e).len() == 0,
            ContinuousModification::AddPower { .. } => keywords_after(g, list, e) == list,
            ContinuousModification::AddToughness { .. } => keywords_after(g, list, e) == list,
            _ => true,
        },
{
    match *e.modification {
        ContinuousModification::AddKeyword { keyword } => {
            let p = of_kind(kind_of(keyword));
            let now = with_keyword(list, keyword);
            if has_kind(list, kind_of(keyword)) {
                let j = choose|j: int|
                    0 <= j < list.len() && kind_of(#[trigger] list[j]) == kind_of(keyword);
                lemma_some_first(list, p, j);
                assert(now[first_where(list, p)->0] == keyword);
            } else {
                lemma_first_where_none(list, p);
                assert(now[list.len() as int] == keyword);
            }
        },
        ContinuousModification::RemoveKeyword { keyword } => {
            lemma_filter_members(list, not_of_kind(kind_of(keyword)));
        },
        _ => {},
    }
}

/// Static abilities work on the battlefield, while the permanent is there, and those of emblems in
/// the command zone.
pub proof fn where_static_abilities_work(o: ObjectModel)
    ensures
        statics_work(o) <==> (o.zone is Battlefield && o.phase_status is PhasedIn) || (o.zone
            is Command && o.is_emblem),
{
}

/// A continuous ability that says what it affects gives one effect for each thing it changes, with
/// the source, controller and age of the object; other abilities give none.
pub proof fn each_change_is_an_effect(
    id: ObjectId,
    p: PlayerId,
    age: u64,
    defs: Seq<StaticDefinition>,
    n: nat,
    k: int,
)
    requires
        n < defs.len(),
    ensures
        ({
            let d = defs[n as int];
            let before = effects_of_statics(id, p, age, defs, n);
            let now = effects_of_statics(id, p, age, defs, n + 1);
            let m = before.len() as int;
            &&& effects_of_statics(id, p, age, defs, 0).len() == 0
            &&& d.affected is None || !(d.mode is Continuous) ==> now == before
            &&& d.affected is Some && d.mode is Continuous ==> {
                &&& now.len() == m + d.modifications@.len()
                &&& now.take(m) == before
                &&& 0 <= k < d.modifications@.len() ==> now[m + k] == (ActiveContinuousEffect {
                    source_id: id,
                    controller: p,
                    timestamp: age,
                    affected_filter: d.affected->0,
                    modification: d.modifications@[k],
                })
            }
        }),
{
    let d = defs[n as int];
    let before = effects_of_statics(id, p, age, defs, n);
    if d.affected is Some && d.mode is Continuous {
        lemma_changes(id, p, age, d.affected->0, d.modifications@, d.modifications@.len());
        assert(effects_of_statics(id, p, age, defs, n + 1).take(before.len() as int) =~= before);
    }
}

proof fn lemma_changes(
    id: ObjectId,
    p: PlayerId,
    age: u64,
    f: Arc<TargetFilter>,
    changes: Seq<Arc<ContinuousModification>>,
    n: nat,
)
    requires
        n <= changes.len(),
    ensures
        effects_of_changes(id, p, age, f, changes, n).len() == n,
        forall|k: int|
            0 <= k < n ==> #[trigger] effects_of_changes(id, p, age, f, changes, n)[k] == (
            ActiveContinuousEffect {
                source_id: id,
                controller: p,
                timestamp: age,
                affected_filter: f,
                modification: changes[k],
            }),
    decreases n,
{
    if n > 0 {
        lemma_changes(id, p, age, f, changes, (n - 1) as nat);
    }
}

/// The effects in force are those of the static abilities of all objects, in order, and after them
/// those that were made by spells and abilities.
pub proof fn whose_effects_are_in_force(g: Game, n: nat)
    requires
        n < g.object_ids.len(),
    ensures
        ({
            let id = g.object_ids[n as int];
            let o = g.objects[id];
            let works = (o.zone is Battlefield && o.phase_status is PhasedIn) || (o.zone is Command
                && o.is_emblem);
            &&& effects_of_objects(g, 0).len() == 0
            &&& works ==> effects_of_objects(g, n + 1) == effects_of_objects(g, n)
                + effects_of_statics(
                id,
                o.controller,
                o.timestamp,
                o.static_definitions,
                o.static_definitions.len(),
            )
            &&& !works ==> effects_of_objects(g, n + 1) == effects_of_objects(g, n)
            &&& effects_in_force(g) == effects_of_objects(g, g.object_ids.len())
                + transient_effects(g.transient_effects, g.transient_effects.len())
        }),
{
}

/// A new effect of a spell or ability comes after the older ones, with its own source, controller,
/// age and filter.
pub proof fn a_transient_effect_is_in_force(list: Seq<TransientEffect>, t: TransientEffect, k: int)
    requires
        0 <= k < t.modifications@.len(),
    ensures
        ({
            let before = transient_effects(list, list.len());
            let now = transient_effects(list.push(t), list.len() + 1);
            &&& now.len() == before.len() + t.modifications@.len()
            &&& now[before.len() + k] == (ActiveContinuousEffect {
                source_id: t.source_id,
                controller: t.controller,
                timestamp: t.timestamp,
                affected_filter: t.affected,
                modification: t.modifications@[k],
            })
        }),
{
    lemma_transient(list, t, list.len());
    lemma_changes(
        t.source_id,
        t.controller,
        t.timestamp,
        t.affected,
        t.modifications@,
        t.modifications@.len(),
    );
}

proof fn lemma_transient(list: Seq<TransientEffect>, t: TransientEffect, n: nat)
    requires
        n <= list.len(),
    ensures
        transient_effects(list.push(t), n) == transient_effects(list, n),
    decreases n,
{
    if n > 0 {
        lemma_transient(list, t, (n - 1) as nat);
    }
}

/// An effect changes the one permanent that its filter means, and not the one that it does not.
pub proof fn effects_change_what_they_mean(g: Game, e: ActiveContinuousEffect, id: ObjectId)
    requires
        g.battlefield == seq![id],
        g.objects.dom().contains(id),
    ensures
        matches_filter(g, id, *e.affected_filter, seen_from(e.source_id, e.controller))
            ==> effect_applied(g, e, 1).objects[id] == affected_by(g, g.objects[id], e),
        !matches_filter(g, id, *e.affected_filter, seen_from(e.source_id, e.controller))
            ==> effect_applied(g, e, 1) == g,
{
    reveal_with_fuel(effect_applied, 2);
}

/// Where no effect is in force, a permanent has its base power with its counters.
pub proof fn without_effects_counters_decide(g: Game, id: ObjectId, p: i32, t: i32)
    requires
        g.battlefield == seq![id],
        g.object_ids == seq![id],
        g.objects.dom().contains(id),
        g.objects[id].static_definitions.len() == 0,
        g.objects[id].base_characteristics_initialized,
        g.transient_effects.len() == 0,
        g.objects[id].base_power == Some(p),
        g.objects[id].base_toughness == Some(t),
        fits(p as int, g.objects[id]),
        fits(t as int, g.objects[id]),
    ensures
        ({
            let o = g.objects[id];
            let q = layers_evaluated(g).objects[id];
            &&& q.power == Some(
                (p + counters_of(o, CounterKind::Plus1Plus1) - counters_of(
                    o,
                    CounterKind::Minus1Minus1,
                )) as i32,
            )
            &&& q.toughness == Some(
                (t + counters_of(o, CounterKind::Plus1Plus1) - counters_of(
                    o,
                    CounterKind::Minus1Minus1,
                )) as i32,
            )
            &&& q.keywords == o.base_keywords
            &&& !layers_evaluated(g).layers_dirty
        }),
{
    reveal(layers_evaluated);
    let o = g.objects[id];
    counters_change_power_and_toughness(o, p, t);
    reveal_with_fuel(all_by_themselves, 2);
    let h = all_by_themselves(g, 1);
    assert(h.objects[id] == by_itself(o));
    reveal_with_fuel(effects_of_objects, 2);
    assert(effects_of_statics(id, o.controller, o.timestamp, o.static_definitions, 0).len() == 0);
    let list = effects_in_force(h);
    assert(list =~= Seq::empty());
    assert(g.battlefield.len() == 1);
    assert(by_age(list, 0).len() == 0);
    assert(effects_applied(h, by_age(list, 0), 0) == h);
}

/// Of two effects the older one comes first, whichever was found first; of two of one age the one
/// that was found first.
pub proof fn older_effects_come_first(a: ActiveContinuousEffect, b: ActiveContinuousEffect)
    ensures
        a.timestamp <= b.timestamp ==> by_age(seq![a, b], 2) == seq![a, b],
        a.timestamp > b.timestamp ==> by_age(seq![a, b], 2) == seq![b, a],
{
    reveal_with_fuel(by_age, 3);
    reveal_with_fuel(place_by_age, 2);
    let s = seq![a, b];
    assert(by_age(s, 1) =~= seq![a]);
    if a.timestamp <= b.timestamp {
        assert(by_age(s, 2) =~= seq![a, b]);
    } else {
        assert(by_age(s, 2) =~= seq![b, a]);
    }
}

/// On the battlefield a card has the keywords that it has there; a card that is not there has none.
pub proof fn where_keywords_come_from(g: Game, id: ObjectId)
    ensures
        !g.objects.dom().contains(id) ==> keywords_of(g, id).len() == 0,
        g.objects.dom().contains(id) && g.objects[id].zone is Battlefield ==> keywords_of(g, id)
            == g.objects[id].keywords,
{
}

/// The keyword of a kind that is found is the first of that kind.
pub proof fn the_first_of_a_kind_is_found(list: Seq<Keyword>, kind: KeywordKind, i: int)
    requires
        0 <= i < list.len(),
        kind_of(list[i]) == kind,
        forall|j: int| 0 <= j < i ==> kind_of(#[trigger] list[j]) != kind,
    ensures
        first_of_kind(list, kind) == Some(list[i]),
{
    lemma_first_where(list, of_kind(kind), i);
}

/// The number that an effect gives with a keyword.
pub open spec fn number_given(g: Game, e: ActiveContinuousEffect) -> i32 {
    value_of(
        g,
        (*e.modification)->AddDynamicKeyword_value,
        seen_from(e.source_id, e.controller),
    )
}

/// Whether an effect means an object.
pub open spec fn reaches(g: Game, t: TransientEffect, id: ObjectId) -> bool {
    matches_filter(g, id, *t.affected, seen_from(t.source_id, t.controller))
}

/// An effect that gives a keyword with a number that is computed gives it with that number, or with
/// none where the number is negative.
pub proof fn keywords_with_computed_numbers(
    g: Game,
    list: Seq<Keyword>,
    e: ActiveContinuousEffect,
)
    requires
        *e.modification is AddDynamicKeyword,
        (*e.modification)->kind is Modular,
    ensures
        ({
            let n = number_given(g, e);
            &&& n >= 0 ==> keywords_after(g, list, e).contains(Keyword::Modular(n as u32))
            &&& n < 0 ==> keywords_after(g, list, e).contains(Keyword::Modular(0))
        }),
{
    let n = number_given(g, e);
    let k = Keyword::Modular(
        if n >= 0 {
            n as u32
        } else {
            0
        },
    );
    a_keyword_added_is_there(list, k, Keyword::Flying);
}

/// A card outside the battlefield has a keyword that an effect gives it there.
pub proof fn effects_reach_cards_elsewhere(
    g: Game,
    id: ObjectId,
    t: TransientEffect,
    m: Arc<ContinuousModification>,
    keyword: Keyword,
)
    requires
        g.object_ids == seq![id],
        g.objects.dom().contains(id),
        g.objects[id].zone is Hand,
        g.objects[id].base_static_definitions.len() == 0,
        g.transient_effects == seq![t],
        t.modifications@ == seq![m],
        *m == (ContinuousModification::AddKeyword { keyword }),
    ensures
        reaches(g, t, id) ==> keywords_of(g, id).contains(keyword),
        !reaches(g, t, id) ==> keywords_of(g, id) == g.objects[id].base_keywords,
{
    let o = g.objects[id];
    reveal_with_fuel(effects_of_objects, 2);
    reveal_with_fuel(transient_effects, 2);
    reveal_with_fuel(effects_of_changes, 2);
    let e = ActiveContinuousEffect {
        source_id: t.source_id,
        controller: t.controller,
        timestamp: t.timestamp,
        affected_filter: t.affected,
        modification: m,
    };
    let all = effects_considered(g, id, o);
    assert(effects_of_statics(id, o.controller, o.timestamp, o.base_static_definitions, 0).len()
        == 0);
    assert(effects_in_force(g) =~= seq![e]);
    assert(all =~= seq![e]);
    reveal_with_fuel(changing_keywords, 2);
    let list = changing_keywords(g, id, all, all.len());
    reveal_with_fuel(by_age, 2);
    reveal_with_fuel(place_by_age, 2);
    reveal_with_fuel(keywords_after_all, 2);
    if reaches(g, t, id) {
        assert(list =~= seq![e]);
        assert(by_age(list, 1) =~= seq![e]);
        let other = if kind_of(keyword) == kind_of(Keyword::Flying) {
            Keyword::Haste
        } else {
            Keyword::Flying
        };
        a_keyword_added_is_there(o.base_keywords, keyword, other);
    } else {
        assert(list =~= Seq::empty());
    }
}

} // verus!
