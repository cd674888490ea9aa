//! Targets of abilities.

use vstd::prelude::*;
use crate::ability::{
    share, AbilityDefinition, Effect, ResolvedAbility, TargetFilter, TargetRef,
};
use crate::cards::Zone;
use crate::events::{ResolvedModel, TargetSlot};
use crate::filter::{matching, matching_ids, seen_from, zone_asked, Scope};
use crate::ids::{ObjectId, PlayerId};
use crate::state::{Game, GameState};
use crate::targeting::{zone_ids, zone_object_ids};

verus! {

broadcast use crate::views::group_views;

/// Objects as targets.
pub open spec fn as_targets(ids: Seq<ObjectId>) -> Seq<TargetRef> {
    Seq::new(ids.len(), |i: int| TargetRef::Object(ids[i]))
}

/// The first `n` players, but for those who have lost, as targets.
pub open spec fn players_as_targets(g: Game, n: nat) -> Seq<TargetRef>
    decreases n,
{
    if n == 0 || n > g.players.len() {
        Seq::empty()
    } else {
        let front = players_as_targets(g, (n - 1) as nat);
        if g.players[n - 1].is_eliminated {
            front
        } else {
            front.push(TargetRef::Player(g.players[n - 1].id))
        }
    }
}

/// Whether a filter means players too.
pub open spec fn means_players(f: TargetFilter) -> bool {
    f is Any || f is Player
}

/// What a filter allows as targets: objects in the zone it names, or else on the battlefield, and
/// players.
pub open spec fn legal_targets(
    g: Game,
    f: TargetFilter,
    controller: PlayerId,
    source: ObjectId,
) -> Seq<TargetRef> {
    let zone = match zone_asked(f) {
        Some(z) => z,
        None => Zone::Battlefield,
    };
    let ids = zone_ids(g, zone);
    let objects = as_targets(matching(g, ids, ids.len(), f, seen_from(source, controller)));
    if means_players(f) {
        objects + players_as_targets(g, g.players.len())
    } else {
        objects
    }
}

/// What a filter allows as targets of an ability: objects in the zone it names, or else on the
/// battlefield, and players.
pub fn find_legal_targets(
    state: &GameState,
    f: &TargetFilter,
    controller: PlayerId,
    source: ObjectId,
) -> (r: Vec<TargetRef>)
    ensures
        r@ == legal_targets(state@, *f, controller, source),
{
    let ghost g = state@;
    let zone = match f.extract_in_zone() {
        Some(z) => z,
        None => Zone::Battlefield,
    };
    let ids = zone_object_ids(state, zone);
    let found = matching_ids(
        state,
        &ids,
        f,
        Scope::from_source_with_controller(source, controller),
    );
    let mut out: Vec<TargetRef> = Vec::new();
    let mut i: usize = 0;
    while i < found.len()
        invariant
            i <= found@.len(),
            out@ == as_targets(found@.take(i as int)),
        decreases found.len() - i,
    {
        out.push(TargetRef::Object(found[i]));
        i += 1;
        assert(out@ =~= as_targets(found@.take(i as int)));
    }
    assert(found@.take(i as int) =~= found@);
    let ghost objects = out@;
    if matches!(f, TargetFilter::Any) || matches!(f, TargetFilter::Player) {
        let mut j: usize = 0;
        assert(out@ =~= objects + players_as_targets(g, 0));
        while j < state.players.len()
            invariant
                j <= g.players.len(),
                g == state@,
                g.players.len() == state.players@.len(),
                out@ == objects + players_as_targets(g, j as nat),
            decreases g.players.len() - j,
        {
            assert(g.players[j as int] == state.players@[j as int]@);
            if !state.players[j].is_eliminated {
                out.push(TargetRef::Player(state.players[j].id));
            }
            j += 1;
            assert(out@ =~= objects + players_as_targets(g, j as nat));
        }
    }
    out
}

/// Whether a filter leaves a choice that is made when the ability is activated.
pub open spec fn asks_for_target(f: TargetFilter) -> bool {
    match f {
        TargetFilter::Any | TargetFilter::Player | TargetFilter::Typed(_) | TargetFilter::Not { .. }
        | TargetFilter::And { .. } | TargetFilter::Or { .. } => true,
        TargetFilter::SelfRef | TargetFilter::Controller | TargetFilter::ExiledBySource
        | TargetFilter::SpecificObject { .. } => false,
    }
}

/// The filter for the target of an effect, where it has a target that is chosen.
pub open spec fn target_asked(e: Effect) -> Option<TargetFilter> {
    let f = match e {
        Effect::Draw { target, .. } => Some(target),
        Effect::LoseLife { target, .. } => target,
        Effect::Mill { target, .. } => Some(target),
        Effect::Destroy { target, .. } => Some(target),
        Effect::PutCounter { target, .. } => Some(target),
        Effect::AddCounter { target, .. } => Some(target),
        Effect::Tap { target } => Some(target),
        Effect::Untap { target } => Some(target),
        Effect::ChangeZone { target, .. } => Some(target),
        Effect::Shuffle { target } => Some(target),
        Effect::PhaseOut { target } => Some(target),
        Effect::GainLife { .. } | Effect::Choose { .. } | Effect::Unimplemented { .. } => None,
    };
    match f {
        Some(x) => if asks_for_target(x) {
            Some(x)
        } else {
            None
        },
        None => None,
    }
}

fn asks(f: &TargetFilter) -> (r: bool)
    ensures
        r == asks_for_target(*f),
{
    match f {
        TargetFilter::Any | TargetFilter::Player | TargetFilter::Typed(_) | TargetFilter::Not { .. }
        | TargetFilter::And { .. } | TargetFilter::Or { .. } => true,
        TargetFilter::SelfRef | TargetFilter::Controller | TargetFilter::ExiledBySource
        | TargetFilter::SpecificObject { .. } => false,
    }
}

fn find_target_asked(e: &Effect) -> (r: Option<&TargetFilter>)
    ensures
        match r {
            Some(f) => target_asked(*e) == Some(*f),
            None => target_asked(*e) is None,
        },
{
    let f = match e {
        Effect::Draw { target, .. } => Some(target),
        Effect::LoseLife { target, .. } => match target {
            Some(t) => Some(t),
            None => None,
        },
        Effect::Mill { target, .. } => Some(target),
        Effect::Destroy { target, .. } => Some(target),
        Effect::PutCounter { target, .. } => Some(target),
        Effect::AddCounter { target, .. } => Some(target),
        Effect::Tap { target } => Some(target),
        Effect::Untap { target } => Some(target),
        Effect::ChangeZone { target, .. } => Some(target),
        Effect::Shuffle { target } => Some(target),
        Effect::PhaseOut { target } => Some(target),
        Effect::GainLife { .. } | Effect::Choose { .. } | Effect::Unimplemented { .. } => None,
    };
    match f {
        Some(x) => if asks(x) {
            Some(x)
        } else {
            None
        },
        None => None,
    }
}

/// The places for targets of an ability and what follows it, each with what may be put there.
pub open spec fn target_slots(
    g: Game,
    a: AbilityDefinition,
    controller: PlayerId,
    source: ObjectId,
) -> Seq<Seq<TargetRef>>
    decreases a,
{
    let own = match target_asked(*a.effect) {
        Some(f) => seq![legal_targets(g, f, controller, source)],
        None => Seq::empty(),
    };
    match a.sub_ability {
        Some(b) => own + target_slots(g, *b, controller, source),
        None => own,
    }
}

/// The places for targets of an ability and what follows it, each with what may be put there.
pub fn build_target_slots(
    state: &GameState,
    a: &AbilityDefinition,
    controller: PlayerId,
    source: ObjectId,
) -> (r: Vec<TargetSlot>)
    ensures
        crate::views::seq_view(r@) == target_slots(state@, *a, controller, source),
    decreases a,
{
    let mut out: Vec<TargetSlot> = Vec::new();
    if let Some(f) = find_target_asked(&*a.effect) {
        let legal_targets = find_legal_targets(state, f, controller, source);
        out.push(TargetSlot { legal_targets });
    }
    assert(crate::views::seq_view(out@) =~= (match target_asked(*a.effect) {
        Some(f) => seq![legal_targets(state@, f, controller, source)],
        None => Seq::empty(),
    }));
    if let Some(b) = &a.sub_ability {
        let ghost own = out@;
        let mut rest = build_target_slots(state, &**b, controller, source);
        let ghost more = rest@;
        out.append(&mut rest);
        assert(crate::views::seq_view(out@) =~= crate::views::seq_view(own) + crate::views::seq_view(
            more,
        ));
    }
    out
}

/// Whether there is a place for which nothing is a legal target.
pub open spec fn lacks_target(slots: Seq<Seq<TargetRef>>) -> bool {
    exists|i: int| 0 <= i < slots.len() && (#[trigger] slots[i]).len() == 0
}

/// Whether each place has just one legal target.
pub open spec fn leaves_no_choice(slots: Seq<Seq<TargetRef>>) -> bool {
    forall|i: int| 0 <= i < slots.len() ==> (#[trigger] slots[i]).len() == 1
}

/// The first legal target of each place.
pub open spec fn first_targets(slots: Seq<Seq<TargetRef>>) -> Seq<TargetRef> {
    Seq::new(slots.len(), |i: int| slots[i][0])
}

/// Whether there is a place for which nothing is a legal target.
pub fn is_target_lacking(slots: &Vec<TargetSlot>) -> (r: bool)
    ensures
        r == lacks_target(crate::views::seq_view(slots@)),
{
    let ghost s = crate::views::seq_view(slots@);
    let mut i: usize = 0;
    while i < slots.len()
        invariant
            i <= slots@.len(),
            s == crate::views::seq_view(slots@),
            forall|j: int| 0 <= j < i ==> (#[trigger] s[j]).len() != 0,
        decreases slots.len() - i,
    {
        assert(s[i as int] == slots@[i as int]@);
        if slots[i].legal_targets.len() == 0 {
            assert(s[i as int].len() == 0);
            return true;
        }
        i += 1;
    }
    false
}

/// The targets of an ability, where each place has just one legal target.
pub fn auto_select_targets(slots: &Vec<TargetSlot>) -> (r: Option<Vec<TargetRef>>)
    ensures
        ({
            let s = crate::views::seq_view(slots@);
            match r {
                Some(list) => leaves_no_choice(s) && list@ == first_targets(s),
                None => !leaves_no_choice(s),
            }
        }),
{
    let ghost s = crate::views::seq_view(slots@);
    let mut out: Vec<TargetRef> = Vec::new();
    let mut i: usize = 0;
    while i < slots.len()
        invariant
            i <= slots@.len(),
            s == crate::views::seq_view(slots@),
            out@.len() == i,
            forall|j: int| 0 <= j < i ==> (#[trigger] s[j]).len() == 1 && out@[j] == s[j][0],
        decreases slots.len() - i,
    {
        assert(s[i as int] == slots@[i as int]@);
        if slots[i].legal_targets.len() != 1 {
            assert(s[i as int].len() != 1);
            return None;
        }
        out.push(slots[i].legal_targets[0]);
        i += 1;
    }
    assert(out@ =~= first_targets(s));
    Some(out)
}

/// An ability as it goes on the stack, with targets.
pub open spec fn resolved_from(
    a: AbilityDefinition,
    source: ObjectId,
    controller: PlayerId,
    targets: Seq<TargetRef>,
) -> ResolvedModel {
    ResolvedModel {
        effect: a.effect,
        targets,
        source_id: source,
        controller,
        chosen_x: None,
        sub_ability: a.sub_ability,
    }
}

/// An ability as it goes on the stack, with targets.
pub fn build_resolved_from_def(
    a: &AbilityDefinition,
    source: ObjectId,
    controller: PlayerId,
    targets: Vec<TargetRef>,
) -> (r: ResolvedAbility)
    ensures
        r@ == resolved_from(*a, source, controller, targets@),
{
    let mut r = ResolvedAbility::new(a.effect.clone(), targets, source, controller);
    r.sub_ability = share(&a.sub_ability);
    r
}

} // verus!
