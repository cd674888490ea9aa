//! Which objects a filter means.

use vstd::prelude::*;
use crate::ability::{
    ControllerRef, FilterProp, QuantityExpr, ResolvedAbility, TargetFilter, TargetRef, TypeFilter,
    TypedFilter,
};
use crate::cards::{has_core_type, has_kind, any_of_kind, has_supertype, kind_of, CoreType, Zone};
use crate::events::{EventModel, GameEvent};
use crate::ids::{ObjectId, PlayerId};
use crate::mana::mana_value_of;
use crate::object::{GameObject, ObjectModel};
use crate::players::{exiled_with, linked_exile_cards_for_source};
use crate::quantity::{evaluate, value_of};
use crate::seqs::{signed, u32_to_i32_saturating};
use crate::state::{object_at, Game, GameState, SpellCastRecord, SpellRecordModel};
use crate::text::{contains_text, holds_text};

verus! {

/// From whose point of view a filter or a quantity is read.
#[derive(Clone, Copy)]
pub struct Scope<'a> {
    /// The player who is "you".
    pub controller: PlayerId,
    /// The object that is "this".
    pub source: ObjectId,
    /// The object that enters the battlefield, where one does.
    pub entering: Option<ObjectId>,
    /// The targets, where there can be any.
    pub targets: Option<&'a [TargetRef]>,
    /// The value chosen for X.
    pub chosen_x: Option<u32>,
    /// Whether targets and X belong to an ability that is being resolved.
    pub in_ability: bool,
    /// The event that a trigger is checked against.
    pub event: Option<&'a GameEvent>,
}

/// From whose point of view a filter or a quantity is read.
#[verifier::ext_equal]
pub struct ScopeModel {
    pub controller: PlayerId,
    pub source: ObjectId,
    pub entering: Option<ObjectId>,
    pub targets: Seq<TargetRef>,
    pub chosen_x: Option<u32>,
    pub in_ability: bool,
    pub event: Option<EventModel>,
}

impl<'a> View for Scope<'a> {
    type V = ScopeModel;

    open spec fn view(&self) -> ScopeModel {
        ScopeModel {
            controller: self.controller,
            source: self.source,
            entering: self.entering,
            targets: match self.targets {
                Some(t) => t@,
                None => Seq::empty(),
            },
            chosen_x: self.chosen_x,
            in_ability: self.in_ability,
            event: match self.event {
                Some(e) => Some(e@),
                None => None,
            },
        }
    }
}

/// The point of view of an object of the given player.
pub open spec fn seen_from(source: ObjectId, controller: PlayerId) -> ScopeModel {
    ScopeModel {
        controller,
        source,
        entering: None,
        targets: Seq::empty(),
        chosen_x: None,
        in_ability: false,
        event: None,
    }
}

/// The controller of an object, the first player where there is no such object.
pub open spec fn controller_of(g: Game, id: ObjectId) -> PlayerId {
    match object_at(g, id) {
        Some(o) => o.controller,
        None => PlayerId(0),
    }
}

impl<'a> Scope<'a> {
    /// The point of view of an object of the given player.
    pub fn from_source_with_controller(source: ObjectId, controller: PlayerId) -> (r: Scope<'a>)
        ensures
            r@ == seen_from(source, controller),
    {
        Scope {
            controller,
            source,
            entering: None,
            targets: None,
            chosen_x: None,
            in_ability: false,
            event: None,
        }
    }

    /// The point of view of an object and its controller.
    pub fn from_source(state: &GameState, source: ObjectId) -> (r: Scope<'a>)
        ensures
            r@ == seen_from(source, controller_of(state@, source)),
    {
        let controller = match state.object(source) {
            Some(o) => o.controller,
            None => PlayerId(0),
        };
        Scope::from_source_with_controller(source, controller)
    }

    /// The point of view of an ability that is being resolved.
    pub fn from_ability(ability: &'a ResolvedAbility) -> (r: Scope<'a>)
        ensures
            r@ == within(*ability),
    {
        Scope {
            controller: ability.controller,
            source: ability.source_id,
            entering: None,
            targets: Some(ability.targets.as_slice()),
            chosen_x: ability.chosen_x,
            in_ability: true,
            event: None,
        }
    }

    /// The point of view of the filters inside a quantity.
    pub fn for_filter(self) -> (r: Scope<'a>)
        ensures
            r@ == filter_scope(self@),
    {
        if self.in_ability {
            Scope { entering: None, ..self }
        } else {
            Scope { entering: None, targets: None, chosen_x: None, ..self }
        }
    }
}

/// The point of view of an ability that is being resolved.
pub open spec fn within(ability: ResolvedAbility) -> ScopeModel {
    ScopeModel {
        controller: ability.controller,
        source: ability.source_id,
        entering: None,
        targets: ability.targets@,
        chosen_x: ability.chosen_x,
        in_ability: true,
        event: None,
    }
}

/// The point of view of the filters inside a quantity: only those of an ability see targets and X.
pub open spec fn filter_scope(sc: ScopeModel) -> ScopeModel {
    if sc.in_ability {
        ScopeModel { entering: None, ..sc }
    } else {
        ScopeModel { entering: None, targets: Seq::empty(), chosen_x: None, ..sc }
    }
}

/// The first player among the targets from a place on.
pub open spec fn target_player(targets: Seq<TargetRef>, from: int) -> Option<PlayerId>
    decreases targets.len() - from,
{
    if from < 0 || from >= targets.len() {
        None
    } else {
        match targets[from] {
            TargetRef::Player(p) => Some(p),
            TargetRef::Object(_) => target_player(targets, from + 1),
        }
    }
}

/// The first player among the targets.
pub fn first_target_player<'a>(sc: &Scope<'a>) -> (r: Option<PlayerId>)
    ensures
        r == target_player(sc@.targets, 0),
{
    match sc.targets {
        None => None,
        Some(list) => {
            let mut i: usize = 0;
            while i < list.len()
                invariant
                    i <= list@.len(),
                    sc.targets == Some(list),
                    target_player(list@, 0) == target_player(list@, i as int),
                decreases list.len() - i,
            {
                if let TargetRef::Player(p) = list[i] {
                    return Some(p);
                }
                i += 1;
            }
            None
        },
    }
}

/// Whether a player is the one that a reference means.
pub open spec fn means(sc: ScopeModel, c: ControllerRef, p: PlayerId) -> bool {
    match c {
        ControllerRef::You => p == sc.controller,
        ControllerRef::Opponent => p != sc.controller,
        ControllerRef::TargetPlayer => target_player(sc.targets, 0) == Some(p),
    }
}

fn is_meant<'a>(sc: &Scope<'a>, c: ControllerRef, p: PlayerId) -> (r: bool)
    ensures
        r == means(sc@, c, p),
{
    match c {
        ControllerRef::You => p == sc.controller,
        ControllerRef::Opponent => p != sc.controller,
        ControllerRef::TargetPlayer => match first_target_player(sc) {
            Some(q) => q == p,
            None => false,
        },
    }
}

/// Whether types and subtypes satisfy a type filter.
pub open spec fn type_fits(tf: TypeFilter, core: Seq<CoreType>, sub: Seq<String>) -> bool {
    match tf {
        TypeFilter::Any => true,
        TypeFilter::Permanent => core.contains(CoreType::Artifact) || core.contains(
            CoreType::Creature,
        ) || core.contains(CoreType::Enchantment) || core.contains(CoreType::Land)
            || core.contains(CoreType::Planeswalker) || core.contains(CoreType::Battle),
        TypeFilter::Artifact => core.contains(CoreType::Artifact),
        TypeFilter::Creature => core.contains(CoreType::Creature),
        TypeFilter::Enchantment => core.contains(CoreType::Enchantment),
        TypeFilter::Instant => core.contains(CoreType::Instant),
        TypeFilter::Land => core.contains(CoreType::Land),
        TypeFilter::Planeswalker => core.contains(CoreType::Planeswalker),
        TypeFilter::Sorcery => core.contains(CoreType::Sorcery),
        TypeFilter::Subtype(s) => holds_text(sub, s@),
    }
}

fn fits_type(tf: &TypeFilter, core: &Vec<CoreType>, sub: &Vec<String>) -> (r: bool)
    ensures
        r == type_fits(*tf, core@, sub@),
{
    match tf {
        TypeFilter::Any => true,
        TypeFilter::Permanent => has_core_type(core, CoreType::Artifact) || has_core_type(
            core,
            CoreType::Creature,
        ) || has_core_type(core, CoreType::Enchantment) || has_core_type(core, CoreType::Land)
            || has_core_type(core, CoreType::Planeswalker) || has_core_type(core, CoreType::Battle),
        TypeFilter::Artifact => has_core_type(core, CoreType::Artifact),
        TypeFilter::Creature => has_core_type(core, CoreType::Creature),
        TypeFilter::Enchantment => has_core_type(core, CoreType::Enchantment),
        TypeFilter::Instant => has_core_type(core, CoreType::Instant),
        TypeFilter::Land => has_core_type(core, CoreType::Land),
        TypeFilter::Planeswalker => has_core_type(core, CoreType::Planeswalker),
        TypeFilter::Sorcery => has_core_type(core, CoreType::Sorcery),
        TypeFilter::Subtype(s) => contains_text(sub, s.as_str()),
    }
}

/// Whether an object satisfies a type filter.
pub fn type_filter_matches(tf: &TypeFilter, obj: &GameObject) -> (r: bool)
    ensures
        r == type_fits(*tf, obj@.card_types.core_types, obj@.card_types.subtypes),
{
    fits_type(tf, &obj.card_types.core_types, &obj.card_types.subtypes)
}

/// Whether types and subtypes satisfy every type filter of a list.
pub open spec fn types_fit(tfs: Seq<TypeFilter>, core: Seq<CoreType>, sub: Seq<String>) -> bool {
    forall|i: int| 0 <= i < tfs.len() ==> type_fits(#[trigger] tfs[i], core, sub)
}

fn fits_types(tfs: &Vec<TypeFilter>, core: &Vec<CoreType>, sub: &Vec<String>) -> (r: bool)
    ensures
        r == types_fit(tfs@, core@, sub@),
{
    let mut i: usize = 0;
    while i < tfs.len()
        invariant
            i <= tfs@.len(),
            forall|j: int| 0 <= j < i ==> type_fits(#[trigger] tfs@[j], core@, sub@),
        decreases tfs.len() - i,
    {
        if !fits_type(&tfs[i], core, sub) {
            return false;
        }
        i += 1;
    }
    true
}

/// Whether a card is among those exiled with a source.
pub open spec fn is_exiled_with(g: Game, source: ObjectId, id: ObjectId) -> bool {
    exists|i: int|
        0 <= i < exiled_with(g, source).len() && (#[trigger] exiled_with(g, source)[i]).exiled_id
            == id
}

fn exiled_by_source(state: &GameState, source: ObjectId, id: ObjectId) -> (r: bool)
    ensures
        r == is_exiled_with(state@, source, id),
{
    let cards = linked_exile_cards_for_source(state, source);
    let ghost list = exiled_with(state@, source);
    let mut i: usize = 0;
    while i < cards.len()
        invariant
            i <= cards@.len(),
            cards@ == list,
            list == exiled_with(state@, source),
            forall|j: int| 0 <= j < i ==> (#[trigger] list[j]).exiled_id != id,
        decreases cards.len() - i,
    {
        if cards[i].exiled_id == id {
            assert(list[i as int].exiled_id == id);
            return true;
        }
        i += 1;
    }
    false
}

/// Whether an object that is there has a property.
pub open spec fn has_property(
    g: Game,
    id: ObjectId,
    o: ObjectModel,
    p: FilterProp,
    sc: ScopeModel,
) -> bool
    decreases p, 0nat, 0nat,
{
    match p {
        FilterProp::CmcLE { value } => signed(mana_value_of(o.mana_cost)) <= value_of(g, value, sc),
        FilterProp::HasSupertype { value } => o.card_types.supertypes.contains(value),
        FilterProp::InZone { zone } => o.zone == zone,
        FilterProp::OtherThanTriggerObject => true,
        FilterProp::Owned { controller } => means(sc, controller, o.owner),
        FilterProp::WithKeyword { value } => has_kind(o.keywords, kind_of(value)),
        FilterProp::Another => id != sc.source,
    }
}

/// Whether an object that is there has the first `n` properties of a list.
pub open spec fn has_properties(
    g: Game,
    id: ObjectId,
    o: ObjectModel,
    ps: Seq<FilterProp>,
    n: nat,
    sc: ScopeModel,
) -> bool
    decreases ps, 0nat, n,
{
    if n == 0 || n > ps.len() {
        true
    } else {
        has_properties(g, id, o, ps, (n - 1) as nat, sc) && has_property(g, id, o, ps[n - 1], sc)
    }
}

/// Whether an object that is there is one that a filter means.
pub open spec fn is_meant_by(
    g: Game,
    id: ObjectId,
    o: ObjectModel,
    f: TargetFilter,
    sc: ScopeModel,
) -> bool
    decreases f, 0nat, 0nat,
{
    match f {
        TargetFilter::Any => true,
        TargetFilter::SelfRef => id == sc.source,
        TargetFilter::Player | TargetFilter::Controller => false,
        TargetFilter::ExiledBySource => is_exiled_with(g, sc.source, id),
        TargetFilter::SpecificObject { id: wanted } => id == wanted,
        TargetFilter::Typed(t) => types_fit(
            t.type_filters@,
            o.card_types.core_types,
            o.card_types.subtypes,
        ) && (t.controller is Some ==> means(sc, t.controller->0, o.controller)) && has_properties(
            g,
            id,
            o,
            t.properties@,
            t.properties@.len(),
            sc,
        ),
        TargetFilter::Not { filter } => !is_meant_by(g, id, o, *filter, sc),
        TargetFilter::And { filters } => is_meant_by_all(g, id, o, filters@, filters@.len(), sc),
        TargetFilter::Or { filters } => is_meant_by_any(g, id, o, filters@, filters@.len(), sc),
    }
}

/// Whether an object that is there is one that each of the first `n` filters means.
pub open spec fn is_meant_by_all(
    g: Game,
    id: ObjectId,
    o: ObjectModel,
    fs: Seq<TargetFilter>,
    n: nat,
    sc: ScopeModel,
) -> bool
    decreases fs, 0nat, n,
{
    if n == 0 || n > fs.len() {
        true
    } else {
        is_meant_by_all(g, id, o, fs, (n - 1) as nat, sc) && is_meant_by(g, id, o, fs[n - 1], sc)
    }
}

/// Whether an object that is there is one that some of the first `n` filters means.
pub open spec fn is_meant_by_any(
    g: Game,
    id: ObjectId,
    o: ObjectModel,
    fs: Seq<TargetFilter>,
    n: nat,
    sc: ScopeModel,
) -> bool
    decreases fs, 0nat, n,
{
    if n == 0 || n > fs.len() {
        false
    } else {
        is_meant_by_any(g, id, o, fs, (n - 1) as nat, sc) || is_meant_by(g, id, o, fs[n - 1], sc)
    }
}

/// Whether a filter means an object: one that is in the game and phased in.
pub open spec fn matches_filter(g: Game, id: ObjectId, f: TargetFilter, sc: ScopeModel) -> bool
    decreases f, 1nat, 0nat,
{
    match object_at(g, id) {
        Some(o) => o.phase_status is PhasedIn && is_meant_by(g, id, o, f, sc),
        None => false,
    }
}

/// The objects that a filter means among the first `n` of a list.
pub open spec fn matching(
    g: Game,
    ids: Seq<ObjectId>,
    n: nat,
    f: TargetFilter,
    sc: ScopeModel,
) -> Seq<ObjectId>
    decreases f, 2nat, n,
{
    if n == 0 || n > ids.len() {
        Seq::empty()
    } else {
        let front = matching(g, ids, (n - 1) as nat, f, sc);
        if matches_filter(g, ids[n - 1], f, sc) {
            front.push(ids[n - 1])
        } else {
            front
        }
    }
}

fn property_holds<'a>(
    state: &GameState,
    id: ObjectId,
    obj: &GameObject,
    p: &FilterProp,
    sc: Scope<'a>,
) -> (r: bool)
    ensures
        r == has_property(state@, id, obj@, *p, sc@),
    decreases p, 0nat, 0nat,
{
    match p {
        FilterProp::CmcLE { value } => u32_to_i32_saturating(obj.mana_cost.mana_value())
            <= evaluate(state, value, sc),
        FilterProp::HasSupertype { value } => has_supertype(&obj.card_types.supertypes, *value),
        FilterProp::InZone { zone } => obj.zone == *zone,
        FilterProp::OtherThanTriggerObject => true,
        FilterProp::Owned { controller } => is_meant(&sc, *controller, obj.owner),
        FilterProp::WithKeyword { value } => any_of_kind(&obj.keywords, value.kind()),
        FilterProp::Another => id != sc.source,
    }
}

proof fn lemma_lost_property(
    g: Game,
    id: ObjectId,
    o: ObjectModel,
    ps: Seq<FilterProp>,
    k: nat,
    n: nat,
    sc: ScopeModel,
)
    requires
        k <= n <= ps.len(),
        !has_properties(g, id, o, ps, k, sc),
    ensures
        !has_properties(g, id, o, ps, n, sc),
    decreases n,
{
    if k < n {
        lemma_lost_property(g, id, o, ps, k, (n - 1) as nat, sc);
    }
}

proof fn lemma_lost_filter(
    g: Game,
    id: ObjectId,
    o: ObjectModel,
    fs: Seq<TargetFilter>,
    k: nat,
    n: nat,
    sc: ScopeModel,
)
    requires
        k <= n <= fs.len(),
    ensures
        !is_meant_by_all(g, id, o, fs, k, sc) ==> !is_meant_by_all(g, id, o, fs, n, sc),
        is_meant_by_any(g, id, o, fs, k, sc) ==> is_meant_by_any(g, id, o, fs, n, sc),
    decreases n,
{
    if k < n {
        lemma_lost_filter(g, id, o, fs, k, (n - 1) as nat, sc);
    }
}

fn typed_holds<'a>(
    state: &GameState,
    id: ObjectId,
    obj: &GameObject,
    t: &TypedFilter,
    sc: Scope<'a>,
) -> (r: bool)
    ensures
        r == (types_fit(
            t.type_filters@,
            obj@.card_types.core_types,
            obj@.card_types.subtypes,
        ) && (t.controller is Some ==> means(sc@, t.controller->0, obj@.controller))
            && has_properties(
            state@,
            id,
            obj@,
            t.properties@,
            t.properties@.len(),
            sc@,
        )),
    decreases t, 0nat, 0nat,
{
    if !fits_types(&t.type_filters, &obj.card_types.core_types, &obj.card_types.subtypes) {
        return false;
    }
    if let Some(c) = t.controller {
        if !is_meant(&sc, c, obj.controller) {
            return false;
        }
    }
    let ghost ps = t.properties@;
    let mut i: usize = 0;
    while i < t.properties.len()
        invariant
            i <= ps.len(),
            ps == t.properties@,
            types_fit(t.type_filters@, obj@.card_types.core_types, obj@.card_types.subtypes),
            t.controller is Some ==> means(sc@, t.controller->0, obj@.controller),
            has_properties(state@, id, obj@, ps, i as nat, sc@),
        decreases ps.len() - i,
    {
        proof {
            assert(decreases_to!(t => t.properties));
            assert(decreases_to!(t.properties => t.properties@[i as int]));
        }
        if !property_holds(state, id, obj, &t.properties[i], sc) {
            proof {
                lemma_lost_property(
                    state@,
                    id,
                    obj@,
                    ps,
                    (i + 1) as nat,
                    ps.len(),
                    sc@,
                );
            }
            return false;
        }
        i += 1;
    }
    true
}

/// Whether a filter means an object that is there.
pub fn filter_holds<'a>(
    state: &GameState,
    id: ObjectId,
    obj: &GameObject,
    f: &TargetFilter,
    sc: Scope<'a>,
) -> (r: bool)
    ensures
        r == is_meant_by(state@, id, obj@, *f, sc@),
    decreases f, 0nat, 0nat,
{
    match f {
        TargetFilter::Any => true,
        TargetFilter::SelfRef => id == sc.source,
        TargetFilter::Player | TargetFilter::Controller => false,
        TargetFilter::ExiledBySource => exiled_by_source(state, sc.source, id),
        TargetFilter::SpecificObject { id: wanted } => id == *wanted,
        TargetFilter::Typed(t) => typed_holds(state, id, obj, t, sc),
        TargetFilter::Not { filter } => !filter_holds(state, id, obj, filter, sc),
        TargetFilter::And { filters } => {
            let ghost fs = filters@;
            let mut i: usize = 0;
            while i < filters.len()
                invariant
                    i <= fs.len(),
                    fs == filters@,
                    f is And,
                    *filters == f->And_filters,
                    is_meant_by_all(state@, id, obj@, fs, i as nat, sc@),
                decreases fs.len() - i,
            {
                proof {
                    assert(decreases_to!(f => f->And_filters));
                    assert(decreases_to!(f->And_filters => f->And_filters@[i as int]));
                }
                if !filter_holds(state, id, obj, &filters[i], sc) {
                    proof {
                        lemma_lost_filter(
                            state@,
                            id,
                            obj@,
                            fs,
                            (i + 1) as nat,
                            fs.len(),
                            sc@,
                        );
                    }
                    return false;
                }
                i += 1;
            }
            true
        },
        TargetFilter::Or { filters } => {
            let ghost fs = filters@;
            let mut i: usize = 0;
            while i < filters.len()
                invariant
                    i <= fs.len(),
                    fs == filters@,
                    f is Or,
                    *filters == f->Or_filters,
                    !is_meant_by_any(state@, id, obj@, fs, i as nat, sc@),
                decreases fs.len() - i,
            {
                proof {
                    assert(decreases_to!(f => f->Or_filters));
                    assert(decreases_to!(f->Or_filters => f->Or_filters@[i as int]));
                }
                if filter_holds(state, id, obj, &filters[i], sc) {
                    proof {
                        lemma_lost_filter(
                            state@,
                            id,
                            obj@,
                            fs,
                            (i + 1) as nat,
                            fs.len(),
                            sc@,
                        );
                    }
                    return true;
                }
                i += 1;
            }
            false
        },
    }
}

/// Whether a filter means an object.
pub fn matches_target_filter<'a>(
    state: &GameState,
    id: ObjectId,
    f: &TargetFilter,
    sc: Scope<'a>,
) -> (r: bool)
    ensures
        r == matches_filter(state@, id, *f, sc@),
    decreases f, 1nat, 0nat,
{
    match state.object(id) {
        Some(obj) => obj.is_phased_in() && filter_holds(state, id, obj, f, sc),
        None => false,
    }
}

/// Whether a filter by types means an object.
pub fn matches_typed_filter<'a>(
    state: &GameState,
    id: ObjectId,
    t: &TypedFilter,
    sc: Scope<'a>,
) -> (r: bool)
    ensures
        r == matches_filter(state@, id, TargetFilter::Typed(*t), sc@),
{
    match state.object(id) {
        Some(obj) => obj.is_phased_in() && typed_holds(state, id, obj, t, sc),
        None => false,
    }
}

/// The objects of a list that a filter means, in order.
pub fn matching_ids<'a>(
    state: &GameState,
    ids: &Vec<ObjectId>,
    f: &TargetFilter,
    sc: Scope<'a>,
) -> (r: Vec<ObjectId>)
    ensures
        r@ == matching(state@, ids@, ids@.len(), *f, sc@),
    decreases f, 2nat, 0nat,
{
    let mut out: Vec<ObjectId> = Vec::new();
    let mut i: usize = 0;
    while i < ids.len()
        invariant
            i <= ids@.len(),
            out@ == matching(state@, ids@, i as nat, *f, sc@),
        decreases ids.len() - i,
    {
        if matches_target_filter(state, ids[i], f, sc) {
            out.push(ids[i]);
        }
        i += 1;
    }
    out
}

/// Being an object that a filter means.
pub open spec fn being_meant(g: Game, f: TargetFilter, sc: ScopeModel) -> spec_fn(ObjectId) -> bool {
    |id: ObjectId| matches_filter(g, id, f, sc)
}

/// The matching objects of a list are those that a filter of the list keeps.
pub proof fn matching_is_a_filter(g: Game, ids: Seq<ObjectId>, n: nat, f: TargetFilter, sc: ScopeModel)
    requires
        n <= ids.len(),
    ensures
        matching(g, ids, n, f, sc) == ids.take(n as int).filter(being_meant(g, f, sc)),
    decreases n,
{
    let p = being_meant(g, f, sc);
    if n == 0 {
        crate::seqs::lemma_filter_start(ids, p);
    } else {
        matching_is_a_filter(g, ids, (n - 1) as nat, f, sc);
        crate::seqs::lemma_filter_next(ids, n - 1, p);
    }
}

/// Every matching object is in the game.
pub proof fn lemma_matching_exist(
    g: Game,
    ids: Seq<ObjectId>,
    n: nat,
    f: TargetFilter,
    sc: ScopeModel,
)
    ensures
        forall|i: int|
            0 <= i < matching(g, ids, n, f, sc).len() ==> object_at(
                g,
                #[trigger] matching(g, ids, n, f, sc)[i],
            ) is Some,
        matching(g, ids, n, f, sc).len() <= n,
    decreases n,
{
    if n > 0 && n <= ids.len() {
        lemma_matching_exist(g, ids, (n - 1) as nat, f, sc);
        let front = matching(g, ids, (n - 1) as nat, f, sc);
        let all = matching(g, ids, n, f, sc);
        assert forall|i: int| 0 <= i < all.len() implies object_at(g, #[trigger] all[i]) is Some by {
            if i < front.len() {
                assert(all[i] == front[i]);
            } else {
                assert(all == front.push(ids[n - 1]));
                assert(matches_filter(g, ids[n - 1], f, sc));
                assert(object_at(g, ids[n - 1]) is Some);
            }
        }
    }
}

/// The zone that one of the first `n` properties asks for.
pub open spec fn zone_of_properties(ps: Seq<FilterProp>, n: nat) -> Option<Zone>
    decreases n,
{
    if n == 0 || n > ps.len() {
        None
    } else {
        match zone_of_properties(ps, (n - 1) as nat) {
            Some(z) => Some(z),
            None => match ps[n - 1] {
                FilterProp::InZone { zone } => Some(zone),
                _ => None,
            },
        }
    }
}

/// The zone that a filter asks for: where it names one, or means cards in exile.
pub open spec fn zone_asked(f: TargetFilter) -> Option<Zone>
    decreases f, 0nat,
{
    match f {
        TargetFilter::Typed(t) => zone_of_properties(t.properties@, t.properties@.len()),
        TargetFilter::ExiledBySource => Some(Zone::Exile),
        TargetFilter::And { filters } | TargetFilter::Or { filters } => zone_asked_by(
            filters@,
            filters@.len(),
        ),
        _ => None,
    }
}

/// The zone that the first of the first `n` filters to ask for one asks for.
pub open spec fn zone_asked_by(fs: Seq<TargetFilter>, n: nat) -> Option<Zone>
    decreases fs, n,
{
    if n == 0 || n > fs.len() {
        None
    } else {
        match zone_asked_by(fs, (n - 1) as nat) {
            Some(z) => Some(z),
            None => zone_asked(fs[n - 1]),
        }
    }
}

proof fn lemma_zone_kept(ps: Seq<FilterProp>, k: nat, n: nat)
    requires
        k <= n <= ps.len(),
        zone_of_properties(ps, k) is Some,
    ensures
        zone_of_properties(ps, n) == zone_of_properties(ps, k),
    decreases n,
{
    if k < n {
        lemma_zone_kept(ps, k, (n - 1) as nat);
    }
}

proof fn lemma_zone_asked_kept(fs: Seq<TargetFilter>, k: nat, n: nat)
    requires
        k <= n <= fs.len(),
        zone_asked_by(fs, k) is Some,
    ensures
        zone_asked_by(fs, n) == zone_asked_by(fs, k),
    decreases n,
{
    if k < n {
        lemma_zone_asked_kept(fs, k, (n - 1) as nat);
    }
}

fn zone_in(filters: &Vec<TargetFilter>) -> (r: Option<Zone>)
    ensures
        r == zone_asked_by(filters@, filters@.len()),
    decreases filters,
{
    let ghost fs = filters@;
    let mut i: usize = 0;
    while i < filters.len()
        invariant
            i <= fs.len(),
            fs == filters@,
            zone_asked_by(fs, i as nat) is None,
        decreases fs.len() - i,
    {
        proof {
            assert(decreases_to!(filters => filters@[i as int]));
        }
        let z = filters[i].extract_in_zone();
        if z.is_some() {
            proof {
                lemma_zone_asked_kept(fs, (i + 1) as nat, fs.len());
            }
            return z;
        }
        i += 1;
    }
    None
}

impl TargetFilter {
    /// The zone that the filter asks for, if it asks for one.
    pub fn extract_in_zone(&self) -> (r: Option<Zone>)
        ensures
            r == zone_asked(*self),
        decreases self,
    {
        match self {
            TargetFilter::Typed(t) => {
                let ghost ps = t.properties@;
                let mut i: usize = 0;
                while i < t.properties.len()
                    invariant
                        i <= ps.len(),
                        ps == t.properties@,
                        *self == TargetFilter::Typed(*t),
                        zone_of_properties(ps, i as nat) is None,
                    decreases ps.len() - i,
                {
                    if let FilterProp::InZone { zone } = &t.properties[i] {
                        proof {
                            lemma_zone_kept(ps, (i + 1) as nat, ps.len());
                        }
                        return Some(*zone);
                    }
                    i += 1;
                }
                None
            },
            TargetFilter::ExiledBySource => Some(Zone::Exile),
            TargetFilter::And { filters } => zone_in(filters),
            TargetFilter::Or { filters } => zone_in(filters),
            _ => None,
        }
    }
}

/// Whether one of the properties sets the triggering object apart.
pub open spec fn sets_trigger_apart(ps: Seq<FilterProp>) -> bool {
    exists|i: int| 0 <= i < ps.len() && (#[trigger] ps[i]) is OtherThanTriggerObject
}

/// Whether a filter sets the triggering object apart anywhere inside.
pub open spec fn speaks_of_others(f: TargetFilter) -> bool
    decreases f, 0nat,
{
    match f {
        TargetFilter::Typed(t) => sets_trigger_apart(t.properties@),
        TargetFilter::Not { filter } => speaks_of_others(*filter),
        TargetFilter::And { filters } | TargetFilter::Or { filters } => some_speaks_of_others(
            filters@,
            filters@.len(),
        ),
        _ => false,
    }
}

/// Whether one of the first `n` filters sets the triggering object apart.
pub open spec fn some_speaks_of_others(fs: Seq<TargetFilter>, n: nat) -> bool
    decreases fs, n,
{
    if n == 0 || n > fs.len() {
        false
    } else {
        some_speaks_of_others(fs, (n - 1) as nat) || speaks_of_others(fs[n - 1])
    }
}

proof fn lemma_speaks_kept(fs: Seq<TargetFilter>, k: nat, n: nat)
    requires
        k <= n <= fs.len(),
        some_speaks_of_others(fs, k),
    ensures
        some_speaks_of_others(fs, n),
    decreases n,
{
    if k < n {
        lemma_speaks_kept(fs, k, (n - 1) as nat);
    }
}

fn any_contains_other(filters: &Vec<TargetFilter>) -> (r: bool)
    ensures
        r == some_speaks_of_others(filters@, filters@.len()),
    decreases filters,
{
    let ghost fs = filters@;
    let mut i: usize = 0;
    while i < filters.len()
        invariant
            i <= fs.len(),
            fs == filters@,
            !some_speaks_of_others(fs, i as nat),
        decreases fs.len() - i,
    {
        proof {
            assert(decreases_to!(filters => filters@[i as int]));
        }
        if filter_contains_other_than_trigger_object(&filters[i]) {
            proof {
                lemma_speaks_kept(fs, (i + 1) as nat, fs.len());
            }
            return true;
        }
        i += 1;
    }
    false
}

/// Whether a filter sets the triggering object apart anywhere inside.
pub fn filter_contains_other_than_trigger_object(filter: &TargetFilter) -> (r: bool)
    ensures
        r == speaks_of_others(*filter),
    decreases filter,
{
    match filter {
        TargetFilter::Typed(t) => {
            let ghost ps = t.properties@;
            let mut i: usize = 0;
            while i < t.properties.len()
                invariant
                    i <= ps.len(),
                    ps == t.properties@,
                    *filter == TargetFilter::Typed(*t),
                    forall|j: int| 0 <= j < i ==> !((#[trigger] ps[j]) is OtherThanTriggerObject),
                decreases ps.len() - i,
            {
                if let FilterProp::OtherThanTriggerObject = &t.properties[i] {
                    assert(ps[i as int] is OtherThanTriggerObject);
                    return true;
                }
                i += 1;
            }
            false
        },
        TargetFilter::Not { filter: inner } => filter_contains_other_than_trigger_object(inner),
        TargetFilter::And { filters } => any_contains_other(filters),
        TargetFilter::Or { filters } => any_contains_other(filters),
        _ => false,
    }
}

/// Whether a spell that was cast had a property, as far as its record tells.
pub open spec fn record_has(r: SpellRecordModel, p: FilterProp) -> bool {
    match p {
        FilterProp::CmcLE { value: QuantityExpr::Fixed { value } } => signed(r.mana_value) <= value,
        FilterProp::HasSupertype { value } => r.supertypes.contains(value),
        FilterProp::WithKeyword { value } => has_kind(r.keywords, kind_of(value)),
        _ => false,
    }
}

/// Whether a filter by types means a spell that a player cast.
pub open spec fn record_fits(r: SpellRecordModel, t: TypedFilter) -> bool {
    &&& types_fit(t.type_filters@, r.core_types, r.subtypes)
    &&& t.controller is Some ==> t.controller == Some(ControllerRef::You)
    &&& forall|i: int| 0 <= i < t.properties@.len() ==> record_has(r, #[trigger] t.properties@[i])
}

/// Whether a filter means a spell that its controller cast.
pub open spec fn record_is_meant(r: SpellRecordModel, f: TargetFilter) -> bool
    decreases f, 0nat,
{
    match f {
        TargetFilter::Any => true,
        TargetFilter::Typed(t) => record_fits(r, t),
        TargetFilter::Not { filter } => !record_is_meant(r, *filter),
        TargetFilter::And { filters } => record_is_meant_by_all(r, filters@, filters@.len()),
        TargetFilter::Or { filters } => record_is_meant_by_any(r, filters@, filters@.len()),
        _ => false,
    }
}

/// Whether each of the first `n` filters means a spell.
pub open spec fn record_is_meant_by_all(r: SpellRecordModel, fs: Seq<TargetFilter>, n: nat) -> bool
    decreases fs, n,
{
    n == 0 || n > fs.len() || (record_is_meant_by_all(r, fs, (n - 1) as nat) && record_is_meant(
        r,
        fs[n - 1],
    ))
}

/// Whether some of the first `n` filters means a spell.
pub open spec fn record_is_meant_by_any(r: SpellRecordModel, fs: Seq<TargetFilter>, n: nat) -> bool
    decreases fs, n,
{
    0 < n <= fs.len() && (record_is_meant_by_any(r, fs, (n - 1) as nat) || record_is_meant(
        r,
        fs[n - 1],
    ))
}

fn record_property(r: &SpellCastRecord, p: &FilterProp) -> (b: bool)
    ensures
        b == record_has(r@, *p),
{
    match p {
        FilterProp::CmcLE { value } => match value {
            QuantityExpr::Fixed { value } => u32_to_i32_saturating(r.mana_value) <= *value,
            _ => false,
        },
        FilterProp::HasSupertype { value } => has_supertype(&r.supertypes, *value),
        FilterProp::WithKeyword { value } => any_of_kind(&r.keywords, value.kind()),
        _ => false,
    }
}

fn record_typed(r: &SpellCastRecord, t: &TypedFilter) -> (b: bool)
    ensures
        b == record_fits(r@, *t),
{
    if !fits_types(&t.type_filters, &r.core_types, &r.subtypes) {
        return false;
    }
    if let Some(c) = t.controller {
        if c != ControllerRef::You {
            return false;
        }
    }
    let mut i: usize = 0;
    while i < t.properties.len()
        invariant
            i <= t.properties@.len(),
            types_fit(t.type_filters@, r@.core_types, r@.subtypes),
            t.controller is Some ==> t.controller == Some(ControllerRef::You),
            forall|j: int| 0 <= j < i ==> record_has(r@, #[trigger] t.properties@[j]),
        decreases t.properties.len() - i,
    {
        if !record_property(r, &t.properties[i]) {
            return false;
        }
        i += 1;
    }
    true
}

proof fn lemma_record_kept(r: SpellRecordModel, fs: Seq<TargetFilter>, k: nat, n: nat)
    requires
        k <= n <= fs.len(),
    ensures
        !record_is_meant_by_all(r, fs, k) ==> !record_is_meant_by_all(r, fs, n),
        record_is_meant_by_any(r, fs, k) ==> record_is_meant_by_any(r, fs, n),
    decreases n,
{
    if k < n {
        lemma_record_kept(r, fs, k, (n - 1) as nat);
    }
}

fn record_all(r: &SpellCastRecord, filters: &Vec<TargetFilter>) -> (b: bool)
    ensures
        b == record_is_meant_by_all(r@, filters@, filters@.len()),
    decreases filters,
{
    let mut i: usize = 0;
    while i < filters.len()
        invariant
            i <= filters@.len(),
            record_is_meant_by_all(r@, filters@, i as nat),
        decreases filters.len() - i,
    {
        proof {
            assert(decreases_to!(filters => filters@[i as int]));
        }
        if !spell_record_matches_filter(r, &filters[i]) {
            proof {
                lemma_record_kept(r@, filters@, (i + 1) as nat, filters@.len());
            }
            return false;
        }
        i += 1;
    }
    true
}

fn record_any(r: &SpellCastRecord, filters: &Vec<TargetFilter>) -> (b: bool)
    ensures
        b == record_is_meant_by_any(r@, filters@, filters@.len()),
    decreases filters,
{
    let mut i: usize = 0;
    while i < filters.len()
        invariant
            i <= filters@.len(),
            !record_is_meant_by_any(r@, filters@, i as nat),
        decreases filters.len() - i,
    {
        proof {
            assert(decreases_to!(filters => filters@[i as int]));
        }
        if spell_record_matches_filter(r, &filters[i]) {
            proof {
                lemma_record_kept(r@, filters@, (i + 1) as nat, filters@.len());
            }
            return true;
        }
        i += 1;
    }
    false
}

/// Whether a filter means a spell that its controller cast.
pub fn spell_record_matches_filter(r: &SpellCastRecord, f: &TargetFilter) -> (b: bool)
    ensures
        b == record_is_meant(r@, *f),
    decreases f,
{
    match f {
        TargetFilter::Any => true,
        TargetFilter::Typed(t) => record_typed(r, t),
        TargetFilter::Not { filter } => !spell_record_matches_filter(r, filter),
        TargetFilter::And { filters } => record_all(r, filters),
        TargetFilter::Or { filters } => record_any(r, filters),
        _ => false,
    }
}

} // verus!
