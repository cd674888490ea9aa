//! Continuous effects, and what they make of the power, toughness and keywords of permanents.

use std::sync::Arc;
use vstd::prelude::*;
use crate::ability::{ContinuousModification, StaticDefinition, StaticMode, TargetFilter};
use crate::applicability::{at_least_zero, zero_or_more};
use crate::cards::{
    copy_colors, copy_keywords, kind_of, CounterKind, CounterType, DynamicKeywordKind, Keyword,
    KeywordKind, Zone,
};
use crate::ability::copy_replacements;
use crate::filter::{matches_filter, matches_target_filter, seen_from, Scope};
use crate::ids::{ObjectId, PlayerId};
use crate::object::{GameObject, ObjectModel};
use crate::quantity::{resolve_quantity, value_of};
use crate::seqs::{
    first_where, lemma_filter_next, lemma_filter_start, lemma_first_where, lemma_first_where_none,
};
use crate::state::{
    count_in, count_of_key, object_at, with_object, Game, GameState, TransientEffect,
};

verus! {

broadcast use crate::views::group_views;

/// A continuous effect that is in force.
#[derive(Debug)]
pub struct ActiveContinuousEffect {
    pub source_id: ObjectId,
    pub controller: PlayerId,
    pub timestamp: u64,
    pub affected_filter: Arc<TargetFilter>,
    pub modification: Arc<ContinuousModification>,
}

// ---------------------------------------------------------------------------
// Effects in force
// ---------------------------------------------------------------------------

/// The effects of the first `n` changes that a source makes.
pub open spec fn effects_of_changes(
    source_id: ObjectId,
    controller: PlayerId,
    timestamp: u64,
    affected_filter: Arc<TargetFilter>,
    changes: Seq<Arc<ContinuousModification>>,
    n: nat,
) -> Seq<ActiveContinuousEffect>
    decreases n,
{
    if n == 0 || n > changes.len() {
        Seq::empty()
    } else {
        effects_of_changes(
            source_id,
            controller,
            timestamp,
            affected_filter,
            changes,
            (n - 1) as nat,
        ).push(
            ActiveContinuousEffect {
                source_id,
                controller,
                timestamp,
                affected_filter,
                modification: changes[n - 1],
            },
        )
    }
}

/// The effects of the first `n` static abilities of a source: those that are continuous and say
/// what they affect.
pub open spec fn effects_of_statics(
    source_id: ObjectId,
    controller: PlayerId,
    timestamp: u64,
    defs: Seq<StaticDefinition>,
    n: nat,
) -> Seq<ActiveContinuousEffect>
    decreases n,
{
    if n == 0 || n > defs.len() {
        Seq::empty()
    } else {
        let front = effects_of_statics(source_id, controller, timestamp, defs, (n - 1) as nat);
        let d = defs[n - 1];
        match d.affected {
            Some(f) => if d.mode is Continuous {
                front + effects_of_changes(
                    source_id,
                    controller,
                    timestamp,
                    f,
                    d.modifications@,
                    d.modifications@.len(),
                )
            } else {
                front
            },
            None => front,
        }
    }
}

/// Whether the static abilities of an object work for others: on the battlefield while phased in,
/// and in the command zone for an emblem.
pub open spec fn statics_work(o: ObjectModel) -> bool {
    (o.zone == Zone::Battlefield && o.phase_status is PhasedIn) || (o.zone == Zone::Command
        && o.is_emblem)
}

/// The effects of the static abilities of the first `n` objects.
pub open spec fn effects_of_objects(g: Game, n: nat) -> Seq<ActiveContinuousEffect>
    decreases n,
{
    if n == 0 || n > g.object_ids.len() {
        Seq::empty()
    } else {
        let front = effects_of_objects(g, (n - 1) as nat);
        let id = g.object_ids[n - 1];
        let o = g.objects[id];
        if statics_work(o) {
            front + effects_of_statics(
                id,
                o.controller,
                o.timestamp,
                o.static_definitions,
                o.static_definitions.len(),
            )
        } else {
            front
        }
    }
}

/// The effects that do not come from static abilities, the first `n` of them.
pub open spec fn transient_effects(list: Seq<TransientEffect>, n: nat) -> Seq<ActiveContinuousEffect>
    decreases n,
{
    if n == 0 || n > list.len() {
        Seq::empty()
    } else {
        let t = list[n - 1];
        transient_effects(list, (n - 1) as nat) + effects_of_changes(
            t.source_id,
            t.controller,
            t.timestamp,
            t.affected,
            t.modifications@,
            t.modifications@.len(),
        )
    }
}

/// The effects in force.
pub open spec fn effects_in_force(g: Game) -> Seq<ActiveContinuousEffect> {
    effects_of_objects(g, g.object_ids.len()) + transient_effects(
        g.transient_effects,
        g.transient_effects.len(),
    )
}

fn add_changes(
    out: &mut Vec<ActiveContinuousEffect>,
    source_id: ObjectId,
    controller: PlayerId,
    timestamp: u64,
    affected_filter: &Arc<TargetFilter>,
    changes: &Vec<Arc<ContinuousModification>>,
)
    ensures
        final(out)@ == old(out)@ + effects_of_changes(
            source_id,
            controller,
            timestamp,
            *affected_filter,
            changes@,
            changes@.len(),
        ),
{
    let ghost start = out@;
    let ghost f = *affected_filter;
    let mut i: usize = 0;
    assert(out@ =~= start + effects_of_changes(source_id, controller, timestamp, f, changes@, 0));
    while i < changes.len()
        invariant
            i <= changes@.len(),
            f == *affected_filter,
            out@ == start + effects_of_changes(
                source_id,
                controller,
                timestamp,
                f,
                changes@,
                i as nat,
            ),
        decreases changes.len() - i,
    {
        out.push(
            ActiveContinuousEffect {
                source_id,
                controller,
                timestamp,
                affected_filter: affected_filter.clone(),
                modification: changes[i].clone(),
            },
        );
        assert(out@ =~= start + effects_of_changes(
            source_id,
            controller,
            timestamp,
            f,
            changes@,
            (i + 1) as nat,
        ));
        i += 1;
    }
}

fn add_statics(
    out: &mut Vec<ActiveContinuousEffect>,
    source_id: ObjectId,
    controller: PlayerId,
    timestamp: u64,
    defs: &Vec<StaticDefinition>,
)
    ensures
        final(out)@ == old(out)@ + effects_of_statics(
            source_id,
            controller,
            timestamp,
            defs@,
            defs@.len(),
        ),
{
    let ghost start = out@;
    let mut i: usize = 0;
    assert(out@ =~= start + effects_of_statics(source_id, controller, timestamp, defs@, 0));
    while i < defs.len()
        invariant
            i <= defs@.len(),
            out@ == start + effects_of_statics(source_id, controller, timestamp, defs@, i as nat),
        decreases defs.len() - i,
    {
        let d = &defs[i];
        if matches!(d.mode, StaticMode::Continuous) {
            if let Some(f) = &d.affected {
                add_changes(out, source_id, controller, timestamp, f, &d.modifications);
            }
        }
        assert(out@ =~= start + effects_of_statics(
            source_id,
            controller,
            timestamp,
            defs@,
            (i + 1) as nat,
        ));
        i += 1;
    }
}

/// The effects in force: those of static abilities in the order in which their objects came into
/// the game, then the others.
pub fn collect_shared_active_continuous_effects(state: &GameState) -> (r: Vec<
    ActiveContinuousEffect,
>)
    ensures
        r@ == effects_in_force(state@),
{
    let ghost g = state@;
    let ghost ids = state@.object_ids;
    let mut out: Vec<ActiveContinuousEffect> = Vec::new();
    proof {
        state.objects.lemma_order();
    }
    let mut i: usize = 0;
    while i < state.objects.len()
        invariant
            i <= ids.len(),
            ids == state@.object_ids,
            ids == state.objects.order(),
            ids.len() == state.objects.seq().len(),
            g == state@,
            forall|k: ObjectId| #[trigger]
                state.objects@.dom().contains(k) <==> exists|i: int|
                    0 <= i < ids.len() && #[trigger] ids[i] == k,
            out@ == effects_of_objects(g, i as nat),
        decreases ids.len() - i,
    {
        let id = *state.objects.key_at(i);
        assert(ids[i as int] == id);
        assert(state.objects@.dom().contains(id));
        if let Some(o) = state.object(id) {
            if (o.zone == Zone::Battlefield && o.is_phased_in()) || (o.zone == Zone::Command
                && o.is_emblem) {
                add_statics(&mut out, id, o.controller, o.timestamp, &o.static_definitions);
            }
        }
        i += 1;
    }
    let ghost front = out@;
    let mut k: usize = 0;
    assert(out@ =~= front + transient_effects(g.transient_effects, 0));
    while k < state.transient_effects.len()
        invariant
            k <= g.transient_effects.len(),
            g == state@,
            g.transient_effects == state.transient_effects@,
            out@ == front + transient_effects(g.transient_effects, k as nat),
        decreases g.transient_effects.len() - k,
    {
        let t = &state.transient_effects[k];
        add_changes(
            &mut out,
            t.source_id,
            t.controller,
            t.timestamp,
            &t.affected,
            &t.modifications,
        );
        assert(out@ =~= front + transient_effects(g.transient_effects, (k + 1) as nat));
        k += 1;
    }
    out
}

/// Adds the effects of the printed static abilities of an object.
pub fn add_effects_of_base_statics(
    out: &mut Vec<ActiveContinuousEffect>,
    id: ObjectId,
    obj: &GameObject,
)
    ensures
        final(out)@ == old(out)@ + effects_of_statics(
            id,
            obj@.controller,
            obj@.timestamp,
            obj@.base_static_definitions,
            obj@.base_static_definitions.len(),
        ),
{
    add_statics(out, id, obj.controller, obj.timestamp, &obj.base_static_definitions);
}

// ---------------------------------------------------------------------------
// Order
// ---------------------------------------------------------------------------

/// The place behind all of the first `n` effects of a list, except those at its end that are
/// younger.
pub open spec fn place_by_age(list: Seq<ActiveContinuousEffect>, timestamp: u64, n: nat) -> nat
    decreases n,
{
    if n == 0 || n > list.len() || list[n - 1].timestamp <= timestamp {
        n
    } else {
        place_by_age(list, timestamp, (n - 1) as nat)
    }
}

/// The first `n` effects of a list, the oldest first; among those of one age the order stays.
pub open spec fn by_age(list: Seq<ActiveContinuousEffect>, n: nat) -> Seq<ActiveContinuousEffect>
    decreases n,
{
    if n == 0 || n > list.len() {
        Seq::empty()
    } else {
        let front = by_age(list, (n - 1) as nat);
        let e = list[n - 1];
        front.insert(place_by_age(front, e.timestamp, front.len()) as int, e)
    }
}

proof fn lemma_place_by_age(list: Seq<ActiveContinuousEffect>, timestamp: u64, n: nat)
    requires
        n <= list.len(),
    ensures
        place_by_age(list, timestamp, n) <= n,
    decreases n,
{
    if n > 0 && list[n - 1].timestamp > timestamp {
        lemma_place_by_age(list, timestamp, (n - 1) as nat);
    }
}

proof fn lemma_by_age_len(list: Seq<ActiveContinuousEffect>, n: nat)
    requires
        n <= list.len(),
    ensures
        by_age(list, n).len() == n,
    decreases n,
{
    if n > 0 {
        lemma_by_age_len(list, (n - 1) as nat);
        let front = by_age(list, (n - 1) as nat);
        lemma_place_by_age(front, list[n - 1].timestamp, front.len());
    }
}

proof fn lemma_place_parts(list: Seq<ActiveContinuousEffect>, timestamp: u64, n: nat)
    requires
        n <= list.len(),
        forall|i: int, j: int|
            0 <= i < j < list.len() ==> (#[trigger] list[i]).timestamp <= (
            #[trigger] list[j]).timestamp,
    ensures
        place_by_age(list, timestamp, n) <= n,
        forall|i: int|
            0 <= i < place_by_age(list, timestamp, n) ==> (#[trigger] list[i]).timestamp
                <= timestamp,
        forall|i: int|
            place_by_age(list, timestamp, n) <= i < n ==> (#[trigger] list[i]).timestamp
                > timestamp,
    decreases n,
{
    if n > 0 && list[n - 1].timestamp > timestamp {
        lemma_place_parts(list, timestamp, (n - 1) as nat);
    }
}

/// Effects are put in order of their age.
pub proof fn effects_are_ordered_by_age(list: Seq<ActiveContinuousEffect>, n: nat)
    requires
        n <= list.len(),
    ensures
        by_age(list, n).len() == n,
        forall|i: int, j: int|
            0 <= i < j < n ==> (#[trigger] by_age(list, n)[i]).timestamp <= (#[trigger] by_age(
                list,
                n,
            )[j]).timestamp,
    decreases n,
{
    lemma_by_age_len(list, n);
    if n > 0 {
        effects_are_ordered_by_age(list, (n - 1) as nat);
        let front = by_age(list, (n - 1) as nat);
        let e = list[n - 1];
        let k = place_by_age(front, e.timestamp, front.len());
        lemma_place_parts(front, e.timestamp, front.len());
        let all = by_age(list, n);
        assert forall|i: int, j: int| 0 <= i < j < n implies (#[trigger] all[i]).timestamp <= (
        #[trigger] all[j]).timestamp by {
            let a = if i < k {
                i
            } else {
                i - 1
            };
            let b = if j < k {
                j
            } else {
                j - 1
            };
            if i != k {
                assert(all[i] == front[a]);
            }
            if j != k {
                assert(all[j] == front[b]);
            }
        }
    }
}

/// Puts effects in order of their age, the oldest first.
pub fn order_active_continuous_effects(list: Vec<ActiveContinuousEffect>) -> (r: Vec<
    ActiveContinuousEffect,
>)
    ensures
        r@ == by_age(list@, list@.len()),
{
    let mut out: Vec<ActiveContinuousEffect> = Vec::new();
    let mut i: usize = 0;
    while i < list.len()
        invariant
            i <= list@.len(),
            out@ == by_age(list@, i as nat),
        decreases list.len() - i,
    {
        let t: u64 = list[i].timestamp;
        let mut k: usize = out.len();
        let mut found: bool = false;
        while k > 0 && !found
            invariant
                k <= out@.len(),
                place_by_age(out@, t, out@.len()) == place_by_age(out@, t, k as nat),
                found ==> place_by_age(out@, t, k as nat) == k,
            decreases
                    k,
                    (if found {
                        0nat
                    } else {
                        1
                    }),
        {
            if out[k - 1].timestamp <= t {
                found = true;
            } else {
                k -= 1;
            }
        }
        out.insert(
            k,
            ActiveContinuousEffect {
                source_id: list[i].source_id,
                controller: list[i].controller,
                timestamp: list[i].timestamp,
                affected_filter: list[i].affected_filter.clone(),
                modification: list[i].modification.clone(),
            },
        );
        i += 1;
    }
    out
}

// ---------------------------------------------------------------------------
// Keywords
// ---------------------------------------------------------------------------

/// Being a keyword of a kind.
pub open spec fn of_kind(kind: KeywordKind) -> spec_fn(Keyword) -> bool {
    |k: Keyword| kind_of(k) == kind
}

/// Being a keyword of another kind.
pub open spec fn not_of_kind(kind: KeywordKind) -> spec_fn(Keyword) -> bool {
    |k: Keyword| kind_of(k) != kind
}

/// A list of keywords with one more, which takes the place of the first of its kind.
pub open spec fn with_keyword(list: Seq<Keyword>, k: Keyword) -> Seq<Keyword> {
    match first_where(list, of_kind(kind_of(k))) {
        Some(i) => list.update(i, k),
        None => list.push(k),
    }
}

/// Adds a keyword to a list, in place of the first of its kind.
pub fn upsert_keyword(keywords: &mut Vec<Keyword>, keyword: Keyword)
    ensures
        final(keywords)@ == with_keyword(old(keywords)@, keyword),
{
    let kind = keyword.kind();
    let ghost s = keywords@;
    let ghost is_same = of_kind(kind);
    let mut i: usize = 0;
    while i < keywords.len()
        invariant
            i <= s.len(),
            s == keywords@,
            s == old(keywords)@,
            kind == kind_of(keyword),
            is_same == of_kind(kind),
            forall|j: int| 0 <= j < i ==> !is_same(#[trigger] s[j]),
        decreases s.len() - i,
    {
        if keywords[i].kind() == kind {
            proof {
                lemma_first_where(s, is_same, i as int);
            }
            keywords.set(i, keyword);
            return;
        }
        i += 1;
    }
    proof {
        lemma_first_where_none(s, is_same);
    }
    keywords.push(keyword);
}

/// Takes the keywords of a kind out of a list.
pub fn remove_keyword_kind(keywords: &mut Vec<Keyword>, kind: KeywordKind)
    ensures
        final(keywords)@ == old(keywords)@.filter(not_of_kind(kind)),
{
    let ghost s = keywords@;
    let ghost keep = not_of_kind(kind);
    proof {
        lemma_filter_start(s, keep);
    }
    let mut out: Vec<Keyword> = Vec::new();
    let mut i: usize = 0;
    while i < keywords.len()
        invariant
            i <= s.len(),
            s == keywords@,
            keep == not_of_kind(kind),
            out@ == s.take(i as int).filter(keep),
            s.take(s.len() as int) == s,
        decreases s.len() - i,
    {
        proof {
            lemma_filter_next(s, i as int, keep);
        }
        if keywords[i].kind() != kind {
            out.push(keywords[i].clone());
        }
        i += 1;
    }
    *keywords = out;
}

/// The keyword with a computed number.
pub open spec fn numbered_keyword(kind: DynamicKeywordKind, n: u32) -> Keyword {
    match kind {
        DynamicKeywordKind::Modular => Keyword::Modular(n),
    }
}

/// What an effect makes of a list of keywords.
pub open spec fn keywords_after(g: Game, list: Seq<Keyword>, e: ActiveContinuousEffect) -> Seq<
    Keyword,
> {
    match *e.modification {
        ContinuousModification::AddKeyword { keyword } => with_keyword(list, keyword),
        ContinuousModification::RemoveKeyword { keyword } => list.filter(
            not_of_kind(kind_of(keyword)),
        ),
        ContinuousModification::AddDynamicKeyword { kind, value } => with_keyword(
            list,
            numbered_keyword(
                kind,
                at_least_zero(value_of(g, value, seen_from(e.source_id, e.controller))),
            ),
        ),
        ContinuousModification::RemoveAllAbilities => Seq::empty(),
        _ => list,
    }
}

/// Lets an effect change a list of keywords.
pub fn apply_keyword_modification(
    state: &GameState,
    keywords: &mut Vec<Keyword>,
    effect: &ActiveContinuousEffect,
)
    ensures
        final(keywords)@ == keywords_after(state@, old(keywords)@, *effect),
{
    match &*effect.modification {
        ContinuousModification::AddKeyword { keyword } => upsert_keyword(
            keywords,
            keyword.clone(),
        ),
        ContinuousModification::RemoveKeyword { keyword } => remove_keyword_kind(
            keywords,
            keyword.kind(),
        ),
        ContinuousModification::AddDynamicKeyword { kind, value } => {
            let n: i32 = resolve_quantity(state, value, effect.controller, effect.source_id);
            upsert_keyword(keywords, kind.with_value(zero_or_more(n)));
        },
        ContinuousModification::RemoveAllAbilities => {
            *keywords = Vec::new();
        },
        _ => {},
    }
}

// ---------------------------------------------------------------------------
// Permanents
// ---------------------------------------------------------------------------

/// An object whose own characteristics are noted: if they were not yet, as they are now.
pub open spec fn with_base(o: ObjectModel) -> ObjectModel {
    if o.base_characteristics_initialized {
        o
    } else {
        ObjectModel {
            base_name: o.name,
            base_power: o.power,
            base_toughness: o.toughness,
            base_loyalty: o.loyalty,
            base_card_types: o.card_types,
            base_mana_cost: o.mana_cost,
            base_keywords: o.keywords,
            base_abilities: o.abilities,
            base_trigger_definitions: o.trigger_definitions,
            base_replacement_definitions: o.replacement_definitions,
            base_static_definitions: o.static_definitions,
            base_color: o.color,
            base_characteristics_initialized: true,
            ..o
        }
    }
}

fn note_base(o: &mut GameObject)
    ensures
        final(o)@ == with_base(old(o)@),
{
    if !o.base_characteristics_initialized {
        o.base_name = o.name.clone();
        o.base_power = o.power;
        o.base_toughness = o.toughness;
        o.base_loyalty = o.loyalty;
        o.base_card_types = o.card_types.clone();
        o.base_mana_cost = o.mana_cost.clone();
        o.base_keywords = copy_keywords(&o.keywords);
        o.base_abilities = o.abilities.clone();
        o.base_trigger_definitions = o.trigger_definitions.clone();
        o.base_replacement_definitions = copy_replacements(&o.replacement_definitions);
        o.base_static_definitions = o.static_definitions.clone();
        o.base_color = copy_colors(&o.color);
        o.base_characteristics_initialized = true;
    }
}

/// A power or toughness with the counters that change it.
pub open spec fn with_pt_counters(n: Option<i32>, counters: Map<CounterKind, u32>) -> Option<i32> {
    match n {
        Some(v) => Some(
            v.wrapping_add(count_in(counters, CounterKind::Plus1Plus1) as i32).wrapping_sub(
                count_in(counters, CounterKind::Minus1Minus1) as i32,
            ),
        ),
        None => None,
    }
}

/// An object as it is by itself, with its counters.
pub open spec fn by_itself(o: ObjectModel) -> ObjectModel {
    let b = with_base(o);
    ObjectModel {
        power: with_pt_counters(b.base_power, b.counters),
        toughness: with_pt_counters(b.base_toughness, b.counters),
        keywords: b.base_keywords,
        ..b
    }
}

fn reset(o: &mut GameObject)
    ensures
        final(o)@ == by_itself(old(o)@),
{
    note_base(o);
    let plus: i32 = #[verifier::truncate] (count_of_key(&o.counters, &CounterType::Plus1Plus1)
        as i32);
    let minus: i32 = #[verifier::truncate] (count_of_key(&o.counters, &CounterType::Minus1Minus1)
        as i32);
    o.power = match o.base_power {
        Some(v) => Some(v.wrapping_add(plus).wrapping_sub(minus)),
        None => None,
    };
    o.toughness = match o.base_toughness {
        Some(v) => Some(v.wrapping_add(plus).wrapping_sub(minus)),
        None => None,
    };
    o.keywords = copy_keywords(&o.base_keywords);
}

/// The game with the first `n` permanents as they are by themselves.
pub open spec fn all_by_themselves(g: Game, n: nat) -> Game
    decreases n,
{
    if n == 0 || n > g.battlefield.len() {
        g
    } else {
        let h = all_by_themselves(g, (n - 1) as nat);
        let id = g.battlefield[n - 1];
        match object_at(h, id) {
            Some(o) => with_object(h, id, by_itself(o)),
            None => h,
        }
    }
}

proof fn lemma_by_themselves(g: Game, n: nat)
    ensures
        all_by_themselves(g, n) == (Game { objects: all_by_themselves(g, n).objects, ..g }),
    decreases n,
{
    if 0 < n <= g.battlefield.len() {
        lemma_by_themselves(g, (n - 1) as nat);
    }
}

/// A power or toughness with an amount added.
pub open spec fn raised(n: Option<i32>, value: i32) -> Option<i32> {
    match n {
        Some(v) => Some(v.wrapping_add(value)),
        None => None,
    }
}

/// What an effect makes of a permanent.
pub open spec fn affected_by(g: Game, o: ObjectModel, e: ActiveContinuousEffect) -> ObjectModel {
    match *e.modification {
        ContinuousModification::AddPower { value } => ObjectModel {
            power: raised(o.power, value),
            ..o
        },
        ContinuousModification::AddToughness { value } => ObjectModel {
            toughness: raised(o.toughness, value),
            ..o
        },
        _ => ObjectModel { keywords: keywords_after(g, o.keywords, e), ..o },
    }
}

/// The game after an effect has changed the first `n` permanents, if it affects them.
pub open spec fn effect_applied(g: Game, e: ActiveContinuousEffect, n: nat) -> Game
    decreases n,
{
    if n == 0 || n > g.battlefield.len() {
        g
    } else {
        let h = effect_applied(g, e, (n - 1) as nat);
        let id = g.battlefield[n - 1];
        if matches_filter(h, id, *e.affected_filter, seen_from(e.source_id, e.controller)) {
            with_object(h, id, affected_by(h, object_at(h, id)->0, e))
        } else {
            h
        }
    }
}

proof fn lemma_effect_applied(g: Game, e: ActiveContinuousEffect, n: nat)
    ensures
        effect_applied(g, e, n) == (Game { objects: effect_applied(g, e, n).objects, ..g }),
    decreases n,
{
    if 0 < n <= g.battlefield.len() {
        lemma_effect_applied(g, e, (n - 1) as nat);
    }
}

/// The game after the first `n` effects have changed the permanents they affect.
pub open spec fn effects_applied(g: Game, list: Seq<ActiveContinuousEffect>, n: nat) -> Game
    decreases n,
{
    if n == 0 || n > list.len() {
        g
    } else {
        let h = effects_applied(g, list, (n - 1) as nat);
        effect_applied(h, list[n - 1], h.battlefield.len())
    }
}

/// The game with power, toughness and keywords of permanents computed anew.
#[verifier::opaque]
pub open spec fn layers_evaluated(g: Game) -> Game {
    let h = all_by_themselves(g, g.battlefield.len());
    let list = by_age(effects_in_force(h), effects_in_force(h).len());
    Game { layers_dirty: false, ..effects_applied(h, list, list.len()) }
}

fn raise_power(state: &mut GameState, id: ObjectId, value: i32)
    requires
        object_at(old(state)@, id) is Some,
    ensures
        ({
            let o = object_at(old(state)@, id)->0;
            final(state)@ == with_object(
                old(state)@,
                id,
                ObjectModel { power: raised(o.power, value), ..o },
            )
        }),
{
    if let Some(o) = state.object_mut(id) {
        o.power = match o.power {
            Some(v) => Some(v.wrapping_add(value)),
            None => None,
        };
    }
}

fn raise_toughness(state: &mut GameState, id: ObjectId, value: i32)
    requires
        object_at(old(state)@, id) is Some,
    ensures
        ({
            let o = object_at(old(state)@, id)->0;
            final(state)@ == with_object(
                old(state)@,
                id,
                ObjectModel { toughness: raised(o.toughness, value), ..o },
            )
        }),
{
    if let Some(o) = state.object_mut(id) {
        o.toughness = match o.toughness {
            Some(v) => Some(v.wrapping_add(value)),
            None => None,
        };
    }
}

fn set_keywords(state: &mut GameState, id: ObjectId, keywords: Vec<Keyword>)
    requires
        object_at(old(state)@, id) is Some,
    ensures
        final(state)@ == with_object(
            old(state)@,
            id,
            ObjectModel { keywords: keywords@, ..object_at(old(state)@, id)->0 },
        ),
{
    if let Some(o) = state.object_mut(id) {
        o.keywords = keywords;
    }
}

fn affect(state: &mut GameState, id: ObjectId, e: &ActiveContinuousEffect)
    requires
        object_at(old(state)@, id) is Some,
    ensures
        final(state)@ == with_object(
            old(state)@,
            id,
            affected_by(old(state)@, object_at(old(state)@, id)->0, *e),
        ),
{
    match &*e.modification {
        ContinuousModification::AddPower { value } => raise_power(state, id, *value),
        ContinuousModification::AddToughness { value } => raise_toughness(state, id, *value),
        _ => {
            let mut keywords: Vec<Keyword> = match state.object(id) {
                Some(o) => copy_keywords(&o.keywords),
                None => Vec::new(),
            };
            apply_keyword_modification(state, &mut keywords, e);
            set_keywords(state, id, keywords);
        },
    }
}

fn reset_all(state: &mut GameState)
    ensures
        final(state)@ == all_by_themselves(old(state)@, old(state)@.battlefield.len()),
{
    let ghost g = state@;
    let ghost bf = state@.battlefield;
    let mut i: usize = 0;
    while i < state.battlefield.len()
        invariant
            i <= bf.len(),
            bf == g.battlefield,
            bf == state.battlefield@,
            state@ == all_by_themselves(g, i as nat),
        decreases bf.len() - i,
    {
        let id = state.battlefield[i];
        if let Some(o) = state.object_mut(id) {
            reset(o);
        }
        i += 1;
        proof {
            lemma_by_themselves(g, i as nat);
        }
    }
}

fn apply_effect(state: &mut GameState, e: &ActiveContinuousEffect)
    ensures
        final(state)@ == effect_applied(old(state)@, *e, old(state)@.battlefield.len()),
{
    let ghost g = state@;
    let ghost bf = state@.battlefield;
    let mut i: usize = 0;
    while i < state.battlefield.len()
        invariant
            i <= bf.len(),
            bf == g.battlefield,
            bf == state.battlefield@,
            state@ == effect_applied(g, *e, i as nat),
        decreases bf.len() - i,
    {
        let id = state.battlefield[i];
        let sc = Scope::from_source_with_controller(e.source_id, e.controller);
        if matches_target_filter(state, id, &e.affected_filter, sc) {
            affect(state, id, e);
        }
        i += 1;
        proof {
            lemma_effect_applied(g, *e, i as nat);
        }
    }
}

/// Computes power, toughness and keywords of permanents anew: each permanent as it is by itself
/// with its counters, then changed by the effects in force in order of their age.
pub fn evaluate_layers(state: &mut GameState)
    ensures
        final(state)@ == layers_evaluated(old(state)@),
{
    proof {
        reveal(layers_evaluated);
    }
    reset_all(state);
    let ghost h = state@;
    let list = order_active_continuous_effects(collect_shared_active_continuous_effects(state));
    let mut i: usize = 0;
    while i < list.len()
        invariant
            i <= list@.len(),
            state@ == effects_applied(h, list@, i as nat),
        decreases list.len() - i,
    {
        apply_effect(state, &list[i]);
        i += 1;
    }
    state.layers_dirty = false;
}

impl GameState {
    /// A new timestamp, younger than all before.
    pub fn next_timestamp(&mut self) -> (r: u64)
        ensures
            r == old(self)@.next_timestamp,
            final(self)@ == (Game {
                next_timestamp: old(self)@.next_timestamp.wrapping_add(1),
                ..old(self)@
            }),
    {
        let t: u64 = self.next_timestamp;
        self.next_timestamp = t.wrapping_add(1);
        t
    }
}

} // verus!
