//! The keywords of cards that are not on the battlefield.

use vstd::prelude::*;
use crate::ability::ContinuousModification;
use crate::cards::{copy_keywords, has_kind, kind_of, Keyword, KeywordKind, Zone};
use crate::filter::{matches_filter, matches_target_filter, seen_from, Scope};
use crate::ids::ObjectId;
use crate::layers::{
    add_effects_of_base_statics, apply_keyword_modification, by_age,
    collect_shared_active_continuous_effects, effects_in_force, effects_of_statics, keywords_after,
    not_of_kind, of_kind, order_active_continuous_effects, with_keyword, ActiveContinuousEffect,
};
use crate::object::ObjectModel;
use crate::seqs::{
    first_where, is_first, lemma_filter_members, lemma_first_where, lemma_first_where_none,
};
use crate::state::{object_at, Game, GameState};

verus! {

broadcast use crate::views::group_views;

/// Whether a change is one of keywords.
pub open spec fn is_about_keywords(m: ContinuousModification) -> bool {
    m is AddKeyword || m is RemoveKeyword || m is AddDynamicKeyword || m is RemoveAllAbilities
}

fn supports_off_zone_keyword_query(m: &ContinuousModification) -> (r: bool)
    ensures
        r == is_about_keywords(*m),
{
    matches!(
        m,
        ContinuousModification::AddKeyword { .. }
            | ContinuousModification::RemoveKeyword { .. }
            | ContinuousModification::AddDynamicKeyword { .. }
            | ContinuousModification::RemoveAllAbilities
    )
}

/// Whether an effect changes the keywords of a card.
pub open spec fn changes_keywords_of(g: Game, id: ObjectId, e: ActiveContinuousEffect) -> bool {
    is_about_keywords(*e.modification) && matches_filter(
        g,
        id,
        *e.affected_filter,
        seen_from(e.source_id, e.controller),
    )
}

/// The effects among the first `n` of a list that change the keywords of a card.
pub open spec fn changing_keywords(
    g: Game,
    id: ObjectId,
    list: Seq<ActiveContinuousEffect>,
    n: nat,
) -> Seq<ActiveContinuousEffect>
    decreases n,
{
    if n == 0 || n > list.len() {
        Seq::empty()
    } else {
        let front = changing_keywords(g, id, list, (n - 1) as nat);
        if changes_keywords_of(g, id, list[n - 1]) {
            front.push(list[n - 1])
        } else {
            front
        }
    }
}

/// The effects that could change the keywords of a card: those in force, and those of its own
/// printed static abilities, which work where it is.
pub open spec fn effects_considered(g: Game, id: ObjectId, o: ObjectModel) -> Seq<
    ActiveContinuousEffect,
> {
    if o.zone != Zone::Battlefield && !(o.zone == Zone::Command && o.is_emblem) {
        effects_in_force(g) + effects_of_statics(
            id,
            o.controller,
            o.timestamp,
            o.base_static_definitions,
            o.base_static_definitions.len(),
        )
    } else {
        effects_in_force(g)
    }
}

/// The effects that change the keywords of a card, the oldest first.
pub open spec fn keyword_effects(g: Game, id: ObjectId, o: ObjectModel) -> Seq<
    ActiveContinuousEffect,
> {
    let all = effects_considered(g, id, o);
    let list = changing_keywords(g, id, all, all.len());
    by_age(list, list.len())
}

/// What the first `n` effects make of a list of keywords.
pub open spec fn keywords_after_all(
    g: Game,
    start: Seq<Keyword>,
    list: Seq<ActiveContinuousEffect>,
    n: nat,
) -> Seq<Keyword>
    decreases n,
{
    if n == 0 || n > list.len() {
        start
    } else {
        keywords_after(g, keywords_after_all(g, start, list, (n - 1) as nat), list[n - 1])
    }
}

/// The keywords of a card: on the battlefield those it has there, elsewhere its printed ones as
/// changed by effects.
pub open spec fn keywords_of(g: Game, id: ObjectId) -> Seq<Keyword> {
    match object_at(g, id) {
        Some(o) => if o.zone == Zone::Battlefield {
            o.keywords
        } else {
            let list = keyword_effects(g, id, o);
            keywords_after_all(g, o.base_keywords, list, list.len())
        },
        None => Seq::empty(),
    }
}

fn collect_applicable_off_zone_keyword_effects(state: &GameState, object_id: ObjectId) -> (r: Vec<
    ActiveContinuousEffect,
>)
    requires
        object_at(state@, object_id) is Some,
    ensures
        ({
            let all = effects_considered(state@, object_id, object_at(state@, object_id)->0);
            r@ == changing_keywords(state@, object_id, all, all.len())
        }),
{
    let ghost g = state@;
    let ghost o = object_at(g, object_id)->0;
    let mut effects = collect_shared_active_continuous_effects(state);
    if let Some(obj) = state.object(object_id) {
        if obj.zone != Zone::Battlefield && !(obj.zone == Zone::Command && obj.is_emblem) {
            add_effects_of_base_statics(&mut effects, object_id, obj);
        }
    }
    assert(effects@ == effects_considered(g, object_id, o));
    let mut out: Vec<ActiveContinuousEffect> = Vec::new();
    let mut i: usize = 0;
    while i < effects.len()
        invariant
            i <= effects@.len(),
            g == state@,
            out@ == changing_keywords(g, object_id, effects@, i as nat),
        decreases effects.len() - i,
    {
        let e = &effects[i];
        let sc = Scope::from_source_with_controller(e.source_id, e.controller);
        if supports_off_zone_keyword_query(&e.modification) && matches_target_filter(
            state,
            object_id,
            &e.affected_filter,
            sc,
        ) {
            out.push(
                ActiveContinuousEffect {
                    source_id: e.source_id,
                    controller: e.controller,
                    timestamp: e.timestamp,
                    affected_filter: e.affected_filter.clone(),
                    modification: e.modification.clone(),
                },
            );
        }
        i += 1;
    }
    out
}

/// The keywords of a card, wherever it is. A card that is not in the game has none.
pub fn effective_off_zone_keywords(state: &GameState, object_id: ObjectId) -> (r: Vec<Keyword>)
    ensures
        r@ == keywords_of(state@, object_id),
{
    let mut keywords: Vec<Keyword> = Vec::new();
    match state.object(object_id) {
        Some(obj) => {
            if obj.zone == Zone::Battlefield {
                return copy_keywords(&obj.keywords);
            }
            keywords = copy_keywords(&obj.base_keywords);
        },
        None => {
            return keywords;
        },
    }
    let ghost start = keywords@;
    let effects = order_active_continuous_effects(
        collect_applicable_off_zone_keyword_effects(state, object_id),
    );
    let mut i: usize = 0;
    while i < effects.len()
        invariant
            i <= effects@.len(),
            keywords@ == keywords_after_all(state@, start, effects@, i as nat),
        decreases effects.len() - i,
    {
        apply_keyword_modification(state, &mut keywords, &effects[i]);
        i += 1;
    }
    keywords
}

/// The first keyword of a kind in a list.
pub open spec fn first_of_kind(list: Seq<Keyword>, kind: KeywordKind) -> Option<Keyword> {
    match first_where(list, of_kind(kind)) {
        Some(i) => Some(list[i]),
        None => None,
    }
}

/// The first keyword of a kind that a card has, wherever it is.
pub fn effective_off_zone_keyword(state: &GameState, object_id: ObjectId, kind: KeywordKind) -> (r:
    Option<Keyword>)
    ensures
        r == first_of_kind(keywords_of(state@, object_id), kind),
{
    let keywords = effective_off_zone_keywords(state, object_id);
    let ghost s = keywords@;
    let ghost is_same = of_kind(kind);
    let mut i: usize = 0;
    while i < keywords.len()
        invariant
            i <= s.len(),
            s == keywords@,
            s == keywords_of(state@, object_id),
            is_same == of_kind(kind),
            forall|j: int| 0 <= j < i ==> !is_same(#[trigger] s[j]),
        decreases s.len() - i,
    {
        if keywords[i].kind() == kind {
            proof {
                lemma_first_where(s, is_same, i as int);
            }
            return Some(keywords[i].clone());
        }
        i += 1;
    }
    proof {
        lemma_first_where_none(s, is_same);
    }
    None
}

proof fn lemma_kind_found(list: Seq<Keyword>, kind: KeywordKind)
    ensures
        first_of_kind(list, kind) is Some == has_kind(list, kind),
{
    let is_same = of_kind(kind);
    if exists|i: int| is_first(list, is_same, i) {
        let i = choose|i: int| is_first(list, is_same, i);
        assert(kind_of(list[i]) == kind);
    }
    if has_kind(list, kind) {
        let k = choose|k: int| 0 <= k < list.len() && kind_of(#[trigger] list[k]) == kind;
        lemma_some_of_kind(list, kind, k);
    }
}

proof fn lemma_some_of_kind(list: Seq<Keyword>, kind: KeywordKind, k: int)
    requires
        0 <= k < list.len(),
        kind_of(list[k]) == kind,
    ensures
        first_of_kind(list, kind) is Some,
    decreases k,
{
    if forall|j: int| 0 <= j < k ==> kind_of(#[trigger] list[j]) != kind {
        lemma_first_where(list, of_kind(kind), k);
    } else {
        let j = choose|j: int| 0 <= j < k && kind_of(#[trigger] list[j]) == kind;
        lemma_some_of_kind(list, kind, j);
    }
}

/// Whether a card has a keyword of a kind, wherever it is.
pub fn off_zone_has_keyword_kind(state: &GameState, object_id: ObjectId, kind: KeywordKind) -> (r:
    bool)
    ensures
        r == has_kind(keywords_of(state@, object_id), kind),
{
    proof {
        lemma_kind_found(keywords_of(state@, object_id), kind);
    }
    effective_off_zone_keyword(state, object_id, kind).is_some()
}

// ---------------------------------------------------------------------------
// Laws
// ---------------------------------------------------------------------------

/// A keyword that is added is the one of its kind.
proof fn lemma_added(list: Seq<Keyword>, k: Keyword)
    ensures
        first_of_kind(with_keyword(list, k), kind_of(k)) == Some(k),
{
    let is_same = of_kind(kind_of(k));
    match first_where(list, is_same) {
        Some(i) => {
            let c = choose|c: int| is_first(list, is_same, c);
            assert(is_first(list, is_same, c));
            lemma_first_where(list, is_same, c);
            assert(is_first(list.update(i, k), is_same, i));
            lemma_first_where(list.update(i, k), is_same, i);
        },
        None => {
            let n = list.len() as int;
            if exists|j: int| 0 <= j < n && is_same(#[trigger] list[j]) {
                let j = choose|j: int| 0 <= j < n && is_same(#[trigger] list[j]);
                lemma_some_place(list, is_same, j);
            }
            assert(is_first(list.push(k), is_same, n));
            lemma_first_where(list.push(k), is_same, n);
        },
    }
}

proof fn lemma_some_place(s: Seq<Keyword>, p: spec_fn(Keyword) -> bool, k: int)
    requires
        0 <= k < s.len(),
        p(s[k]),
    ensures
        first_where(s, p) is Some,
    decreases k,
{
    if forall|j: int| 0 <= j < k ==> !p(#[trigger] s[j]) {
        assert(is_first(s, p, k));
    } else {
        let j = choose|j: int| 0 <= j < k && p(#[trigger] s[j]);
        lemma_some_place(s, p, j);
    }
}

/// Of a kind that is taken away nothing is left.
proof fn lemma_removed(list: Seq<Keyword>, kind: KeywordKind)
    ensures
        first_of_kind(list.filter(not_of_kind(kind)), kind) is None,
{
    let keep = not_of_kind(kind);
    let kept = list.filter(keep);
    lemma_filter_members(list, keep);
    assert forall|j: int| 0 <= j < kept.len() implies !of_kind(kind)(#[trigger] kept[j]) by {
        assert(kept.contains(kept[j]));
    }
    lemma_first_where_none(kept, of_kind(kind));
}

/// The newest effect on the keywords of a card decides: a keyword that it adds is the card's one
/// of that kind, of a kind that it takes away the card has none, and without all abilities the
/// card has no keyword at all.
pub proof fn the_newest_effect_decides(g: Game, id: ObjectId)
    requires
        object_at(g, id) is Some,
        object_at(g, id)->0.zone != Zone::Battlefield,
        keyword_effects(g, id, object_at(g, id)->0).len() > 0,
    ensures
        match *keyword_effects(g, id, object_at(g, id)->0).last().modification {
            ContinuousModification::AddKeyword { keyword } => first_of_kind(
                keywords_of(g, id),
                kind_of(keyword),
            ) == Some(keyword),
            ContinuousModification::RemoveKeyword { keyword } => first_of_kind(
                keywords_of(g, id),
                kind_of(keyword),
            ) is None,
            ContinuousModification::RemoveAllAbilities => keywords_of(g, id).len() == 0,
            _ => true,
        },
{
    let o = object_at(g, id)->0;
    let list = keyword_effects(g, id, o);
    let before = keywords_after_all(g, o.base_keywords, list, (list.len() - 1) as nat);
    match *list.last().modification {
        ContinuousModification::AddKeyword { keyword } => {
            lemma_added(before, keyword);
        },
        ContinuousModification::RemoveKeyword { keyword } => {
            lemma_removed(before, kind_of(keyword));
        },
        _ => {},
    }
}

/// A card whose keywords no effect changes has its printed ones.
pub proof fn unchanged_cards_have_their_printed_keywords(g: Game, id: ObjectId)
    requires
        object_at(g, id) is Some,
        object_at(g, id)->0.zone != Zone::Battlefield,
        keyword_effects(g, id, object_at(g, id)->0).len() == 0,
    ensures
        keywords_of(g, id) == object_at(g, id)->0.base_keywords,
{
}

} // verus!
