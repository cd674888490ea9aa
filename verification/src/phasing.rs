//! Phasing. A permanent that is phased out stays on the battlefield and is treated as though it did
//! not exist.

use vstd::prelude::*;
use crate::cards::{has_core_type, has_kind, CoreType, Keyword, KeywordKind};
use crate::combat::{out_of_combat, remove_object_from_combat};
use crate::events::{emit, log, EventModel, GameEvent};
use crate::ids::{ObjectId, PlayerId};
use crate::keyed::KeySet;
use crate::object::{ObjectModel, PhaseOutCause, PhaseStatus};
use crate::seqs::{count_where, lemma_filter_next, lemma_filter_start};
use crate::state::{object_at, with_object, Game, GameState};
use crate::targeting::copy_ids;

verus! {

broadcast use crate::views::group_views;

/// Which way permanents phase.
#[derive(Debug, Clone, Copy, PartialEq, Eq, Structural)]
pub enum Way {
    Out,
    In,
}

/// Permanents that phase together: the game, those still to be looked at (the last one first),
/// those seen, and those that have phased.
#[verifier::ext_equal]
pub struct Wave {
    pub game: Game,
    pub queue: Seq<(ObjectId, PhaseOutCause)>,
    pub seen: Set<ObjectId>,
    pub phased: Seq<ObjectId>,
}

/// Whether an object changes sides.
pub open spec fn crosses(way: Way, o: ObjectModel) -> bool {
    match way {
        Way::Out => o.phase_status is PhasedIn,
        Way::In => o.phase_status is PhasedOut,
    }
}

/// The status that an object gets. One that is already phased out keeps its cause, unless it now
/// phases out directly.
pub open spec fn status_after(way: Way, o: ObjectModel, cause: PhaseOutCause) -> PhaseStatus {
    match way {
        Way::Out => if o.phase_status is PhasedIn || cause == PhaseOutCause::Directly {
            PhaseStatus::PhasedOut { cause }
        } else {
            o.phase_status
        },
        Way::In => PhaseStatus::PhasedIn,
    }
}

/// Whether an object that is attached to one that phases follows it.
pub open spec fn follows(g: Game, way: Way, id: ObjectId) -> bool {
    match object_at(g, id) {
        Some(o) => match way {
            Way::Out => o.card_types.core_types.contains(CoreType::Enchantment)
                || o.card_types.core_types.contains(CoreType::Artifact),
            Way::In => o.phase_status == PhaseStatus::PhasedOut {
                cause: PhaseOutCause::Indirectly,
            },
        },
        None => false,
    }
}

/// Those of the first `n` objects of a list that follow, all indirectly.
pub open spec fn followers(g: Game, way: Way, list: Seq<ObjectId>, n: nat) -> Seq<
    (ObjectId, PhaseOutCause),
>
    decreases n,
{
    if n == 0 || n > list.len() {
        Seq::empty()
    } else {
        let front = followers(g, way, list, (n - 1) as nat);
        if follows(g, way, list[n - 1]) {
            front.push((list[n - 1], PhaseOutCause::Indirectly))
        } else {
            front
        }
    }
}

/// The game with the status of an object changed.
pub open spec fn restated(g: Game, id: ObjectId, status: PhaseStatus) -> Game {
    with_object(g, id, ObjectModel { phase_status: status, ..object_at(g, id)->0 })
}

/// Whether what is attached to the next object of a wave follows it. Only what is attached to the
/// first permanent phases out with it: attachments of attachments stay.
pub open spec fn has_followers(w: Wave, way: Way) -> bool {
    way == Way::In || w.phased.len() == 0
}

/// What becomes of a wave when its next object is looked at.
pub open spec fn stepped(w: Wave, way: Way) -> Wave {
    let (id, cause) = w.queue.last();
    let rest = w.queue.drop_last();
    let seen = w.seen.insert(id);
    if w.seen.contains(id) {
        Wave { queue: rest, ..w }
    } else {
        match object_at(w.game, id) {
            None => Wave { queue: rest, seen, ..w },
            Some(o) => {
                let g = restated(w.game, id, status_after(way, o, cause));
                if crosses(way, o) {
                    Wave {
                        game: g,
                        queue: if has_followers(w, way) {
                            rest + followers(g, way, o.attachments, o.attachments.len())
                        } else {
                            rest
                        },
                        seen,
                        phased: w.phased.push(id),
                    }
                } else {
                    Wave { game: g, queue: rest, seen, ..w }
                }
            },
        }
    }
}

/// Being an object that was not seen.
pub open spec fn not_among(seen: Set<ObjectId>) -> spec_fn(ObjectId) -> bool {
    |id: ObjectId| !seen.contains(id)
}

/// The number of objects that were not seen.
pub open spec fn unseen(w: Wave) -> nat {
    count_where(w.game.object_ids, not_among(w.seen))
}

/// Whether all objects of a game are in the list of its objects.
pub open spec fn is_listed(g: Game) -> bool {
    forall|id: ObjectId| #[trigger] g.objects.dom().contains(id) ==> g.object_ids.contains(id)
}

/// A wave that has run out.
pub open spec fn run_out(w: Wave, way: Way) -> Wave
    decreases unseen(w), w.queue.len(),
    when is_listed(w.game)
{
    if w.queue.len() == 0 {
        w
    } else {
        proof {
            lemma_step(w, way);
        }
        run_out(stepped(w, way), way)
    }
}

proof fn lemma_fewer(s: Seq<ObjectId>, seen: Set<ObjectId>, id: ObjectId)
    ensures
        count_where(s, not_among(seen.insert(id))) <= count_where(s, not_among(seen)),
        s.contains(id) && !seen.contains(id) ==> count_where(s, not_among(seen.insert(id)))
            < count_where(s, not_among(seen)),
    decreases s.len(),
{
    if s.len() > 0 {
        lemma_fewer(s.drop_last(), seen, id);
        if s.contains(id) && s.last() != id {
            let i = choose|i: int| 0 <= i < s.len() && s[i] == id;
            assert(s.drop_last()[i] == id);
        }
    }
}

/// Looking at the next object brings a wave closer to its end.
pub proof fn lemma_step(w: Wave, way: Way)
    requires
        is_listed(w.game),
        w.queue.len() > 0,
    ensures
        is_listed(stepped(w, way).game),
        unseen(stepped(w, way)) < unseen(w) || (unseen(stepped(w, way)) == unseen(w) && stepped(
            w,
            way,
        ).queue.len() < w.queue.len()),
{
    let id = w.queue.last().0;
    lemma_fewer(w.game.object_ids, w.seen, id);
    if object_at(w.game, id) is Some {
        assert(w.game.object_ids.contains(id));
        let t = stepped(w, way);
        assert(t.game.object_ids == w.game.object_ids);
        assert forall|k: ObjectId| #[trigger] t.game.objects.dom().contains(k) implies t.game.object_ids.contains(
        k) by {
            assert(w.game.objects.dom().contains(k));
        }
    }
}

/// A wave that begins with one object.
pub open spec fn wave_from(g: Game, id: ObjectId, cause: PhaseOutCause) -> Wave {
    Wave { game: g, queue: seq![(id, cause)], seen: Set::empty(), phased: Seq::empty() }
}

/// Whether an attachment with these types follows the permanent it is attached to when that phases
/// out.
fn is_attachment_cascaded_by_phasing(core_types: &Vec<CoreType>) -> (r: bool)
    ensures
        r == (core_types@.contains(CoreType::Enchantment) || core_types@.contains(
            CoreType::Artifact,
        )),
{
    has_core_type(core_types, CoreType::Enchantment) || has_core_type(
        core_types,
        CoreType::Artifact,
    )
}

fn follows_host(state: &GameState, way: Way, id: ObjectId) -> (r: bool)
    ensures
        r == follows(state@, way, id),
{
    match state.object(id) {
        Some(o) => match way {
            Way::Out => is_attachment_cascaded_by_phasing(&o.card_types.core_types),
            Way::In => match o.phase_status {
                PhaseStatus::PhasedOut { cause } => cause == PhaseOutCause::Indirectly,
                PhaseStatus::PhasedIn => false,
            },
        },
        None => false,
    }
}

fn add_followers(
    state: &GameState,
    way: Way,
    list: &Vec<ObjectId>,
    queue: &mut Vec<(ObjectId, PhaseOutCause)>,
)
    ensures
        final(queue)@ == old(queue)@ + followers(state@, way, list@, list@.len()),
{
    let ghost start = queue@;
    let mut i: usize = 0;
    assert(queue@ =~= start + followers(state@, way, list@, 0));
    while i < list.len()
        invariant
            i <= list@.len(),
            queue@ == start + followers(state@, way, list@, i as nat),
        decreases list.len() - i,
    {
        if follows_host(state, way, list[i]) {
            queue.push((list[i], PhaseOutCause::Indirectly));
        }
        i += 1;
        assert(queue@ =~= start + followers(state@, way, list@, i as nat));
    }
}

/// Changes the status of an object. Hands back its attachments if it has changed sides.
fn restate(state: &mut GameState, way: Way, id: ObjectId, cause: PhaseOutCause) -> (r: Option<
    Vec<ObjectId>,
>)
    ensures
        match object_at(old(state)@, id) {
            Some(o) => final(state)@ == restated(old(state)@, id, status_after(way, o, cause)) && (
            r is Some <==> crosses(way, o)) && (r is Some ==> (r->0)@ == o.attachments),
            None => final(state)@ == old(state)@ && r is None,
        },
{
    match state.object_mut(id) {
        Some(o) => {
            let is_out = o.is_phased_out();
            match way {
                Way::Out => {
                    if !is_out || cause == PhaseOutCause::Directly {
                        o.phase_status = PhaseStatus::PhasedOut { cause };
                    }
                },
                Way::In => {
                    o.phase_status = PhaseStatus::PhasedIn;
                },
            }
            let has_crossed = match way {
                Way::Out => !is_out,
                Way::In => is_out,
            };
            if has_crossed {
                Some(copy_ids(&o.attachments))
            } else {
                None
            }
        },
        None => None,
    }
}

fn look_at_next(
    state: &mut GameState,
    way: Way,
    queue: &mut Vec<(ObjectId, PhaseOutCause)>,
    seen: &mut KeySet<ObjectId>,
    phased: &mut Vec<ObjectId>,
)
    requires
        old(queue)@.len() > 0,
    ensures
        (Wave { game: final(state)@, queue: final(queue)@, seen: final(seen)@, phased: final(phased)@ })
            == stepped(
            (Wave { game: old(state)@, queue: old(queue)@, seen: old(seen)@, phased: old(phased)@ }),
            way,
        ),
{
    if let Some((id, cause)) = queue.pop() {
        if seen.contains(&id) {
            return;
        }
        seen.insert(id);
        if let Some(list) = restate(state, way, id, cause) {
            if way == Way::In || phased.len() == 0 {
                add_followers(state, way, &list, queue);
            }
            phased.push(id);
        }
    }
}

fn run_wave(state: &mut GameState, way: Way, id: ObjectId, cause: PhaseOutCause) -> (r: Vec<ObjectId>)
    ensures
        ({
            let w = run_out(wave_from(old(state)@, id, cause), way);
            final(state)@ == w.game && r@ == w.phased
        }),
{
    let mut queue: Vec<(ObjectId, PhaseOutCause)> = Vec::new();
    queue.push((id, cause));
    let mut seen: KeySet<ObjectId> = KeySet::new();
    let mut phased: Vec<ObjectId> = Vec::new();
    let ghost start = wave_from(state@, id, cause);
    proof {
        state.objects.lemma_order();
        assert(queue@ =~= start.queue);
        assert forall|k: ObjectId| #[trigger] state@.objects.dom().contains(k) implies state@.object_ids.contains(
        k) by {
            assert(state.objects@.dom().contains(k));
            let i = choose|i: int|
                0 <= i < state.objects.order().len() && #[trigger] state.objects.order()[i] == k;
            assert(state@.object_ids[i] == k);
        }
    }
    while queue.len() > 0
        invariant
            is_listed(state@),
            run_out(start, way) == run_out(
                (Wave { game: state@, queue: queue@, seen: seen@, phased: phased@ }),
                way,
            ),
        decreases
            unseen((Wave { game: state@, queue: queue@, seen: seen@, phased: phased@ })),
            queue@.len(),
    {
        proof {
            lemma_step((Wave { game: state@, queue: queue@, seen: seen@, phased: phased@ }), way);
        }
        look_at_next(state, way, &mut queue, &mut seen, &mut phased);
    }
    phased
}

/// The game with the first `n` objects of a list taken out of combat.
pub open spec fn all_out_of_combat(g: Game, list: Seq<ObjectId>, n: nat) -> Game
    decreases n,
{
    if n == 0 || n > list.len() {
        g
    } else {
        out_of_combat(all_out_of_combat(g, list, (n - 1) as nat), list[n - 1])
    }
}

/// Whether an object is phased out indirectly.
pub open spec fn is_indirect(g: Game, id: ObjectId) -> bool {
    object_at(g, id) is Some && object_at(g, id)->0.phase_status == PhaseStatus::PhasedOut {
        cause: PhaseOutCause::Indirectly,
    }
}

/// What is told of the first `n` permanents that have phased out.
pub open spec fn phasing_out_told(
    told: Seq<EventModel>,
    g: Game,
    list: Seq<ObjectId>,
    n: nat,
) -> Seq<EventModel>
    decreases n,
{
    if n == 0 || n > list.len() {
        told
    } else {
        phasing_out_told(told, g, list, (n - 1) as nat).push(
            EventModel::PermanentPhasedOut {
                object_id: list[n - 1],
                indirect: is_indirect(g, list[n - 1]),
            },
        )
    }
}

/// What is told of the first `n` permanents that have phased in.
pub open spec fn phasing_in_told(told: Seq<EventModel>, list: Seq<ObjectId>, n: nat) -> Seq<
    EventModel,
>
    decreases n,
{
    if n == 0 || n > list.len() {
        told
    } else {
        phasing_in_told(told, list, (n - 1) as nat).push(
            EventModel::PermanentPhasedIn { object_id: list[n - 1] },
        )
    }
}

/// The permanents that phase out with one.
pub open spec fn phasing_out_with(g: Game, id: ObjectId, cause: PhaseOutCause) -> Seq<ObjectId> {
    run_out(wave_from(g, id, cause), Way::Out).phased
}

/// The game after a permanent, and what is attached to it, has phased out.
pub open spec fn phased_out(g: Game, id: ObjectId, cause: PhaseOutCause) -> Game {
    let w = run_out(wave_from(g, id, cause), Way::Out);
    all_out_of_combat(w.game, w.phased, w.phased.len())
}

/// The permanents that phase in with one.
pub open spec fn phasing_in_with(g: Game, id: ObjectId) -> Seq<ObjectId> {
    run_out(wave_from(g, id, PhaseOutCause::Directly), Way::In).phased
}

/// The game after a permanent, and what phased out with it, has phased in.
pub open spec fn phased_in(g: Game, id: ObjectId) -> Game {
    run_out(wave_from(g, id, PhaseOutCause::Directly), Way::In).game
}

fn leave_combat(state: &mut GameState, list: &Vec<ObjectId>)
    ensures
        final(state)@ == all_out_of_combat(old(state)@, list@, list@.len()),
{
    let ghost g = state@;
    let mut i: usize = 0;
    while i < list.len()
        invariant
            i <= list@.len(),
            state@ == all_out_of_combat(g, list@, i as nat),
        decreases list.len() - i,
    {
        remove_object_from_combat(state, list[i]);
        i += 1;
    }
}

fn tell_phased_out(state: &GameState, list: &Vec<ObjectId>, events: &mut Vec<GameEvent>)
    ensures
        log(final(events)@) == phasing_out_told(log(old(events)@), state@, list@, list@.len()),
{
    let ghost told = log(events@);
    let mut i: usize = 0;
    while i < list.len()
        invariant
            i <= list@.len(),
            log(events@) == phasing_out_told(told, state@, list@, i as nat),
        decreases list.len() - i,
    {
        let indirect = match state.object(list[i]) {
            Some(o) => match o.phase_status {
                PhaseStatus::PhasedOut { cause } => cause == PhaseOutCause::Indirectly,
                PhaseStatus::PhasedIn => false,
            },
            None => false,
        };
        emit(events, GameEvent::PermanentPhasedOut { object_id: list[i], indirect });
        i += 1;
    }
}

/// Phases a permanent out, and with it, indirectly, the Auras, Equipment and Fortifications that are
/// attached to it, but not what is attached to those. They leave combat. Hands back the permanents that have phased out.
pub fn phase_out_object(
    state: &mut GameState,
    object_id: ObjectId,
    cause: PhaseOutCause,
    events: &mut Vec<GameEvent>,
) -> (r: Vec<ObjectId>)
    ensures
        r@ == phasing_out_with(old(state)@, object_id, cause),
        final(state)@ == phased_out(old(state)@, object_id, cause),
        log(final(events)@) == phasing_out_told(
            log(old(events)@),
            final(state)@,
            r@,
            r@.len(),
        ),
{
    let phased = run_wave(state, Way::Out, object_id, cause);
    leave_combat(state, &phased);
    tell_phased_out(state, &phased, events);
    phased
}

/// Phases a permanent in, and with it what phased out indirectly and is attached to it. Hands back
/// the permanents that have phased in.
pub fn phase_in_object(
    state: &mut GameState,
    object_id: ObjectId,
    events: &mut Vec<GameEvent>,
) -> (r: Vec<ObjectId>)
    ensures
        r@ == phasing_in_with(old(state)@, object_id),
        final(state)@ == phased_in(old(state)@, object_id),
        log(final(events)@) == phasing_in_told(log(old(events)@), r@, r@.len()),
{
    let phased = run_wave(state, Way::In, object_id, PhaseOutCause::Directly);
    let ghost told = log(events@);
    let mut i: usize = 0;
    while i < phased.len()
        invariant
            i <= phased@.len(),
            log(events@) == phasing_in_told(told, phased@, i as nat),
        decreases phased.len() - i,
    {
        emit(events, GameEvent::PermanentPhasedIn { object_id: phased[i] });
        i += 1;
    }
    phased
}

/// Being a phased-in permanent of a player that has phasing.
pub open spec fn due_out(g: Game, p: PlayerId) -> spec_fn(ObjectId) -> bool {
    |id: ObjectId|
        object_at(g, id) is Some && object_at(g, id)->0.phase_status is PhasedIn && object_at(
            g,
            id,
        )->0.controller == p && has_kind(object_at(g, id)->0.keywords, KeywordKind::Phasing)
}

/// Being a permanent that phased out directly under a player's control.
pub open spec fn due_in(g: Game, p: PlayerId) -> spec_fn(ObjectId) -> bool {
    |id: ObjectId|
        object_at(g, id) is Some && object_at(g, id)->0.phase_status == (PhaseStatus::PhasedOut {
            cause: PhaseOutCause::Directly,
        }) && object_at(g, id)->0.controller == p
}

/// The game and what is told after the first `n` of some permanents have phased in.
pub open spec fn all_phased_in(g: Game, told: Seq<EventModel>, ids: Seq<ObjectId>, n: nat) -> (
    Game,
    Seq<EventModel>,
)
    decreases n,
{
    if n == 0 || n > ids.len() {
        (g, told)
    } else {
        let (h, t) = all_phased_in(g, told, ids, (n - 1) as nat);
        let list = phasing_in_with(h, ids[n - 1]);
        (phased_in(h, ids[n - 1]), phasing_in_told(t, list, list.len()))
    }
}

/// The game and what is told after the first `n` of some permanents have phased out.
pub open spec fn all_phased_out(g: Game, told: Seq<EventModel>, ids: Seq<ObjectId>, n: nat) -> (
    Game,
    Seq<EventModel>,
)
    decreases n,
{
    if n == 0 || n > ids.len() {
        (g, told)
    } else {
        let (h, t) = all_phased_out(g, told, ids, (n - 1) as nat);
        let list = phasing_out_with(h, ids[n - 1], PhaseOutCause::Directly);
        let after = phased_out(h, ids[n - 1], PhaseOutCause::Directly);
        (after, phasing_out_told(t, after, list, list.len()))
    }
}

/// The game and what is told after the active player's permanents have phased: those that are due
/// to phase in do, and those that are due to phase out, both as it was before.
pub open spec fn untap_phased(g: Game, told: Seq<EventModel>) -> (Game, Seq<EventModel>) {
    let ins = g.battlefield.filter(due_in(g, g.active_player));
    let outs = g.battlefield.filter(due_out(g, g.active_player));
    let (h, t) = all_phased_in(g, told, ins, ins.len());
    all_phased_out(h, t, outs, outs.len())
}

fn is_due(state: &GameState, way: Way, id: ObjectId) -> (r: bool)
    ensures
        way == Way::Out ==> r == due_out(state@, state@.active_player)(id),
        way == Way::In ==> r == due_in(state@, state@.active_player)(id),
{
    match state.object(id) {
        Some(o) => o.controller == state.active_player && match way {
            Way::Out => o.is_phased_in() && o.has_keyword(&Keyword::Phasing),
            Way::In => match o.phase_status {
                PhaseStatus::PhasedOut { cause } => cause == PhaseOutCause::Directly,
                PhaseStatus::PhasedIn => false,
            },
        },
        None => false,
    }
}

fn find_due(state: &GameState, way: Way) -> (r: Vec<ObjectId>)
    ensures
        way == Way::Out ==> r@ == state@.battlefield.filter(due_out(state@, state@.active_player)),
        way == Way::In ==> r@ == state@.battlefield.filter(due_in(state@, state@.active_player)),
{
    let ghost s = state@.battlefield;
    let ghost keep = if way == Way::Out {
        due_out(state@, state@.active_player)
    } else {
        due_in(state@, state@.active_player)
    };
    proof {
        lemma_filter_start(s, keep);
    }
    let mut out: Vec<ObjectId> = Vec::new();
    let mut i: usize = 0;
    while i < state.battlefield.len()
        invariant
            i <= s.len(),
            s == state.battlefield@,
            keep == (if way == Way::Out {
                due_out(state@, state@.active_player)
            } else {
                due_in(state@, state@.active_player)
            }),
            out@ == s.take(i as int).filter(keep),
            s.take(s.len() as int) == s,
        decreases s.len() - i,
    {
        proof {
            lemma_filter_next(s, i as int, keep);
        }
        if is_due(state, way, state.battlefield[i]) {
            out.push(state.battlefield[i]);
        }
        i += 1;
    }
    out
}

/// Phases the active player's permanents at the beginning of the untap step: those that phased out
/// directly phase in, and those with phasing phase out, at the same time.
pub fn execute_untap_step_phasing(state: &mut GameState, events: &mut Vec<GameEvent>)
    ensures
        (final(state)@, log(final(events)@)) == untap_phased(old(state)@, log(old(events)@)),
{
    let outs = find_due(state, Way::Out);
    let ins = find_due(state, Way::In);
    let ghost g = state@;
    let ghost told = log(events@);
    let mut i: usize = 0;
    while i < ins.len()
        invariant
            i <= ins@.len(),
            (state@, log(events@)) == all_phased_in(g, told, ins@, i as nat),
        decreases ins.len() - i,
    {
        let _ = phase_in_object(state, ins[i], events);
        i += 1;
    }
    let ghost h = state@;
    let ghost t = log(events@);
    let mut j: usize = 0;
    while j < outs.len()
        invariant
            j <= outs@.len(),
            (state@, log(events@)) == all_phased_out(h, t, outs@, j as nat),
        decreases outs.len() - j,
    {
        let _ = phase_out_object(state, outs[j], PhaseOutCause::Directly, events);
        j += 1;
    }
}

// ---------------------------------------------------------------------------
// Laws
// ---------------------------------------------------------------------------

/// Whether two games differ in the phasing of objects at most.
#[verifier::opaque]
pub open spec fn alike_but_for_phasing(g: Game, h: Game) -> bool {
    &&& h == Game { objects: h.objects, ..g }
    &&& h.objects.dom() == g.objects.dom()
    &&& forall|id: ObjectId| #[trigger]
        g.objects.dom().contains(id) ==> h.objects[id] == (ObjectModel {
            phase_status: h.objects[id].phase_status,
            ..g.objects[id]
        })
}

proof fn lemma_alike(g: Game, h: Game)
    requires
        alike_but_for_phasing(g, h),
    ensures
        h.objects.dom() == g.objects.dom(),
        h.object_ids == g.object_ids,
        forall|id: ObjectId| #[trigger]
            g.objects.dom().contains(id) ==> h.objects[id].attachments == g.objects[id].attachments,
        forall|id: ObjectId| #[trigger]
            g.objects.dom().contains(id) && h.objects[id].phase_status == g.objects[id].phase_status
                ==> h.objects[id] == g.objects[id],
{
    reveal(alike_but_for_phasing);
}

proof fn lemma_alike_self(g: Game)
    ensures
        alike_but_for_phasing(g, g),
{
    reveal(alike_but_for_phasing);
}

proof fn lemma_alike_next(g: Game, h: Game, id: ObjectId, status: PhaseStatus)
    requires
        alike_but_for_phasing(g, h),
        h.objects.dom().contains(id),
    ensures
        alike_but_for_phasing(g, restated(h, id, status)),
{
    reveal(alike_but_for_phasing);
    let t = restated(h, id, status);
    assert(t.objects.dom() =~= h.objects.dom());
}

proof fn lemma_run_alike(g: Game, w: Wave, way: Way)
    requires
        is_listed(w.game),
        alike_but_for_phasing(g, w.game),
    ensures
        alike_but_for_phasing(g, run_out(w, way).game),
    decreases unseen(w), w.queue.len(),
{
    if w.queue.len() > 0 {
        lemma_step(w, way);
        let (id, cause) = w.queue.last();
        if w.game.objects.dom().contains(id) {
            lemma_alike_next(g, w.game, id, status_after(way, w.game.objects[id], cause));
        }
        lemma_run_alike(g, stepped(w, way), way);
    }
}

proof fn lemma_combat_only(g: Game, list: Seq<ObjectId>, n: nat)
    ensures
        all_out_of_combat(g, list, n) == (Game {
            combat: all_out_of_combat(g, list, n).combat,
            ..g
        }),
    decreases n,
{
    if 0 < n <= list.len() {
        lemma_combat_only(g, list, (n - 1) as nat);
    }
}

/// Phasing changes nothing but the phasing of objects and who is in combat: zones, counters,
/// attachments and all else persist.
pub proof fn phasing_changes_nothing_else(g: Game, id: ObjectId, cause: PhaseOutCause)
    requires
        is_listed(g),
    ensures
        alike_but_for_phasing(g, Game { combat: g.combat, ..phased_out(g, id, cause) }),
        alike_but_for_phasing(g, phased_in(g, id)),
{
    lemma_alike_self(g);
    lemma_run_alike(g, wave_from(g, id, cause), Way::Out);
    lemma_run_alike(g, wave_from(g, id, PhaseOutCause::Directly), Way::In);
    reveal(alike_but_for_phasing);
    let w = run_out(wave_from(g, id, cause), Way::Out);
    lemma_combat_only(w.game, w.phased, w.phased.len());
}

/// Whether an object is attached to another.
pub open spec fn is_linked(g: Game, host: ObjectId, id: ObjectId) -> bool {
    g.objects[host].attachments.contains(id)
}

spec fn runs_out(g: Game, id: ObjectId, w: Wave) -> bool {
    &&& is_listed(w.game)
    &&& alike_but_for_phasing(g, w.game)
    &&& forall|x: ObjectId| #[trigger]
        g.objects.dom().contains(x) ==> if w.phased.contains(x) {
            g.objects[x].phase_status is PhasedIn && w.game.objects[x].phase_status is PhasedOut
                && (x != id ==> is_indirect(w.game, x))
        } else {
            x != id ==> w.game.objects[x].phase_status == g.objects[x].phase_status
        }
    &&& forall|k: int|
        0 <= k < w.phased.len() ==> g.objects.dom().contains(#[trigger] w.phased[k])
            && w.seen.contains(w.phased[k]) && (k > 0 ==> w.phased[k] != id && is_linked(
            g,
            id,
            w.phased[k],
        ))
    &&& w.phased.len() > 0 ==> w.phased[0] == id
    &&& if w.phased.len() == 0 {
        w.queue.len() == 0 || (w.seen =~= Set::empty() && w.queue.len() == 1 && w.queue[0].0 == id
            && w.game == g)
    } else {
        w.seen.contains(id) && forall|i: int|
            0 <= i < w.queue.len() ==> (#[trigger] w.queue[i]).1 == PhaseOutCause::Indirectly
                && is_linked(g, id, w.queue[i].0)
    }
}

proof fn lemma_followers(g: Game, way: Way, list: Seq<ObjectId>, n: nat)
    requires
        n <= list.len(),
    ensures
        forall|i: int|
            0 <= i < followers(g, way, list, n).len() ==> list.contains(
                (#[trigger] followers(g, way, list, n)[i]).0,
            ) && followers(g, way, list, n)[i].1 == PhaseOutCause::Indirectly,
        forall|k: int|
            0 <= k < n && follows(g, way, #[trigger] list[k]) ==> followers(g, way, list, n).contains(
                (list[k], PhaseOutCause::Indirectly),
            ),
    decreases n,
{
    if n > 0 {
        lemma_followers(g, way, list, (n - 1) as nat);
        let front = followers(g, way, list, (n - 1) as nat);
        let all = followers(g, way, list, n);
        assert forall|k: int| 0 <= k < n && follows(g, way, #[trigger] list[k]) implies all.contains(
            (list[k], PhaseOutCause::Indirectly),
        ) by {
            if k == n - 1 {
                assert(all[front.len() as int] == (list[k], PhaseOutCause::Indirectly));
            } else {
                let i = choose|i: int|
                    0 <= i < front.len() && front[i] == (list[k], PhaseOutCause::Indirectly);
                assert(all[i] == front[i]);
            }
        }
        assert forall|i: int| 0 <= i < all.len() implies list.contains((#[trigger] all[i]).0)
            && all[i].1 == PhaseOutCause::Indirectly by {
            if i < front.len() {
                assert(all[i] == front[i]);
            } else {
                assert(list[n - 1] == all[i].0);
            }
        }
    }
}

proof fn lemma_step_out(g: Game, id: ObjectId, w: Wave)
    requires
        runs_out(g, id, w),
        w.queue.len() > 0,
    ensures
        runs_out(g, id, stepped(w, Way::Out)),
{
    let way = Way::Out;
    let t = stepped(w, way);
    lemma_step(w, way);
    let (x, cause) = w.queue.last();
    let rest = w.queue.drop_last();
    assert(w.queue[w.queue.len() - 1] == (x, cause));
    lemma_alike(g, w.game);
    if w.game.objects.dom().contains(x) {
        lemma_alike_next(g, w.game, x, status_after(way, w.game.objects[x], cause));
    }
    let n = w.phased.len();
    if g.objects.dom().contains(x) && !w.seen.contains(x) {
        let o = object_at(w.game, x)->0;
        assert(!w.phased.contains(x));
        let list = o.attachments;
        let h = restated(w.game, x, status_after(way, o, cause));
        lemma_followers(h, way, list, list.len());
        let more = followers(h, way, list, list.len());
        if crosses(way, o) {
            assert(t.phased[n as int] == x);
            assert forall|y: ObjectId| #[trigger] g.objects.dom().contains(y) implies (
            if t.phased.contains(y) {
                g.objects[y].phase_status is PhasedIn && t.game.objects[y].phase_status is PhasedOut
                    && (y != id ==> is_indirect(t.game, y))
            } else {
                y != id ==> t.game.objects[y].phase_status == g.objects[y].phase_status
            }) by {
                if y != x {
                    if w.phased.contains(y) {
                        let k = choose|k: int| 0 <= k < n && w.phased[k] == y;
                        assert(t.phased[k] == y);
                    }
                    if t.phased.contains(y) {
                        let k = choose|k: int| 0 <= k < n + 1 && t.phased[k] == y;
                        assert(w.phased[k] == y);
                    }
                }
            }
            assert forall|k: int| 0 <= k < t.phased.len() implies g.objects.dom().contains(
                #[trigger] t.phased[k],
            ) && t.seen.contains(t.phased[k]) && (k > 0 ==> t.phased[k] != id && is_linked(
                g,
                id,
                t.phased[k],
            )) by {
                if k < n {
                    assert(t.phased[k] == w.phased[k]);
                }
            }
            assert forall|i: int| 0 <= i < t.queue.len() implies (#[trigger] t.queue[i]).1
                == PhaseOutCause::Indirectly && is_linked(g, id, t.queue[i].0) by {
                if n == 0 {
                    assert(t.queue[i] == more[i - rest.len()]);
                } else {
                    assert(t.queue[i] == w.queue[i]);
                }
            }
        }
    }
}

proof fn lemma_run_out(g: Game, id: ObjectId, w: Wave)
    requires
        runs_out(g, id, w),
    ensures
        runs_out(g, id, run_out(w, Way::Out)),
        run_out(w, Way::Out).queue.len() == 0,
    decreases unseen(w), w.queue.len(),
{
    if w.queue.len() > 0 {
        lemma_step(w, Way::Out);
        lemma_step_out(g, id, w);
        lemma_run_out(g, id, stepped(w, Way::Out));
    }
}

spec fn is_awaited(w: Wave, id: ObjectId) -> bool {
    exists|i: int| 0 <= i < w.queue.len() && (#[trigger] w.queue[i]).0 == id
}

spec fn runs_in(g: Game, id: ObjectId, w: Wave) -> bool {
    &&& is_listed(w.game)
    &&& alike_but_for_phasing(g, w.game)
    &&& forall|x: ObjectId| #[trigger]
        g.objects.dom().contains(x) ==> if w.phased.contains(x) {
            w.game.objects[x].phase_status is PhasedIn
        } else {
            w.game.objects[x].phase_status == g.objects[x].phase_status
        }
    &&& forall|x: ObjectId|
        g.objects.dom().contains(x) && #[trigger] w.seen.contains(x)
            ==> w.game.objects[x].phase_status is PhasedIn
    &&& forall|k: int, a: ObjectId|
        0 <= k < w.phased.len() && #[trigger] is_linked(g, w.phased[k], a) && is_indirect(w.game, a)
            ==> is_awaited(w, a)
    &&& forall|k: int| 0 <= k < w.phased.len() ==> g.objects.dom().contains(#[trigger] w.phased[k])
    &&& w.seen.contains(id) || is_awaited(w, id)
}

proof fn lemma_step_in(g: Game, id: ObjectId, w: Wave)
    requires
        runs_in(g, id, w),
        w.queue.len() > 0,
    ensures
        runs_in(g, id, stepped(w, Way::In)),
{
    let way = Way::In;
    let t = stepped(w, way);
    lemma_step(w, way);
    let (x, cause) = w.queue.last();
    let rest = w.queue.drop_last();
    lemma_alike(g, w.game);
    if w.game.objects.dom().contains(x) {
        lemma_alike_next(g, w.game, x, status_after(way, w.game.objects[x], cause));
    }
    let n = w.phased.len();
    assert forall|a: ObjectId| is_awaited(w, a) && a != x implies is_awaited(t, a) by {
        let i = choose|i: int| 0 <= i < w.queue.len() && (#[trigger] w.queue[i]).0 == a;
        assert(t.queue[i] == w.queue[i]);
    }
    if g.objects.dom().contains(x) && !w.seen.contains(x) {
        let o = object_at(w.game, x)->0;
        let list = o.attachments;
        let h = restated(w.game, x, status_after(way, o, cause));
        if crosses(way, o) {
            lemma_followers(h, way, list, list.len());
            let more = followers(h, way, list, list.len());
            assert(t.phased[n as int] == x);
            assert forall|y: ObjectId| #[trigger] g.objects.dom().contains(y) implies (
            if t.phased.contains(y) {
                t.game.objects[y].phase_status is PhasedIn
            } else {
                t.game.objects[y].phase_status == g.objects[y].phase_status
            }) by {
                if w.phased.contains(y) {
                    let k = choose|k: int| 0 <= k < n && w.phased[k] == y;
                    assert(t.phased[k] == y);
                } else if t.phased.contains(y) && y != x {
                    let k = choose|k: int| 0 <= k < n + 1 && t.phased[k] == y;
                    assert(w.phased[k] == y);
                }
            }
            assert forall|k: int, a: ObjectId|
                0 <= k < t.phased.len() && #[trigger] is_linked(g, t.phased[k], a) && is_indirect(
                    t.game,
                    a,
                ) implies is_awaited(t, a) by {
                if k < n {
                    assert(is_linked(g, w.phased[k], a));
                    assert(a != x);
                    assert(is_indirect(w.game, a));
                } else {
                    let i = choose|i: int| 0 <= i < list.len() && list[i] == a;
                    assert(follows(h, way, list[i]));
                    let m = choose|m: int|
                        0 <= m < more.len() && more[m] == (a, PhaseOutCause::Indirectly);
                    assert(t.queue[rest.len() + m] == more[m]);
                }
            }
        } else {
            assert forall|k: int, a: ObjectId|
                0 <= k < t.phased.len() && #[trigger] is_linked(g, t.phased[k], a) && is_indirect(
                    t.game,
                    a,
                ) implies is_awaited(t, a) by {
                assert(is_linked(g, w.phased[k], a));
                assert(is_indirect(w.game, a));
            }
        }
    } else {
        assert forall|k: int, a: ObjectId|
            0 <= k < t.phased.len() && #[trigger] is_linked(g, t.phased[k], a) && is_indirect(
                t.game,
                a,
            ) implies is_awaited(t, a) by {
            assert(is_linked(g, w.phased[k], a));
            assert(is_indirect(w.game, a));
        }
    }
}

proof fn lemma_run_in(g: Game, id: ObjectId, w: Wave)
    requires
        runs_in(g, id, w),
    ensures
        runs_in(g, id, run_out(w, Way::In)),
        run_out(w, Way::In).queue.len() == 0,
    decreases unseen(w), w.queue.len(),
{
    if w.queue.len() > 0 {
        lemma_step(w, Way::In);
        lemma_step_in(g, id, w);
        lemma_run_in(g, id, stepped(w, Way::In));
    }
}

proof fn lemma_back_in(g: Game, w: Wave, id: ObjectId, h: Game, v: Wave, x: ObjectId)
    requires
        runs_out(g, id, w),
        h == (Game { combat: h.combat, ..w.game }),
        runs_in(h, id, v),
        v.queue.len() == 0,
        w.phased.contains(x),
    ensures
        g.objects.dom().contains(x),
        v.game.objects[x].phase_status is PhasedIn,
{
    let k = choose|k: int| 0 <= k < w.phased.len() && w.phased[k] == x;
    lemma_alike(g, w.game);
    lemma_alike(h, v.game);
    assert(w.phased[0] == id);
    assert(g.objects.dom().contains(w.phased[0]));
    assert(g.objects.dom().contains(w.phased[k]));
    assert(h.objects.dom().contains(id));
    assert(h.objects.dom().contains(x));
    assert(v.seen.contains(id));
    if k > 0 {
        assert(w.phased.contains(id));
        assert(v.phased.contains(id));
        let m = choose|m: int| 0 <= m < v.phased.len() && v.phased[m] == id;
        assert(is_linked(h, v.phased[m], x));
        if !(v.game.objects[x].phase_status is PhasedIn) {
            assert(is_indirect(v.game, x));
            assert(is_awaited(v, x));
        }
    }
}

/// A permanent phases out with nothing but what is attached to it, and that indirectly.
pub proof fn only_own_attachments_follow(g: Game, id: ObjectId, cause: PhaseOutCause, x: ObjectId)
    requires
        is_listed(g),
        phasing_out_with(g, id, cause).contains(x),
    ensures
        g.objects[x].phase_status is PhasedIn,
        phased_out(g, id, cause).objects[x].phase_status is PhasedOut,
        x != id ==> is_linked(g, id, x) && is_indirect(phased_out(g, id, cause), x),
{
    let start = wave_from(g, id, cause);
    lemma_alike_self(g);
    assert(runs_out(g, id, start));
    lemma_run_out(g, id, start);
    let w = run_out(start, Way::Out);
    lemma_combat_only(w.game, w.phased, w.phased.len());
    let k = choose|k: int| 0 <= k < w.phased.len() && w.phased[k] == x;
    assert(g.objects.dom().contains(w.phased[k]));
}

/// What phases out with a permanent phases in with it and is as it was. If all was phased in
/// before, all objects are as they were.
pub proof fn what_phases_out_together_phases_in_together(g: Game, id: ObjectId, cause: PhaseOutCause)
    requires
        is_listed(g),
    ensures
        forall|x: ObjectId| #[trigger]
            phasing_out_with(g, id, cause).contains(x) ==> g.objects.dom().contains(x) && phased_in(
                phased_out(g, id, cause),
                id,
            ).objects[x] == g.objects[x],
        (forall|x: ObjectId| #[trigger]
            g.objects.dom().contains(x) ==> g.objects[x].phase_status is PhasedIn) ==> phased_in(
            phased_out(g, id, cause),
            id,
        ).objects == g.objects,
{
    let start = wave_from(g, id, cause);
    lemma_alike_self(g);
    assert(runs_out(g, id, start));
    lemma_run_out(g, id, start);
    let w = run_out(start, Way::Out);
    let h = phased_out(g, id, cause);
    lemma_combat_only(w.game, w.phased, w.phased.len());
    assert forall|k: ObjectId| #[trigger] h.objects.dom().contains(k) implies h.object_ids.contains(
    k) by {
        assert(w.game.objects.dom().contains(k));
    }
    lemma_alike(g, w.game);
    lemma_alike_self(h);
    let begin = wave_from(h, id, PhaseOutCause::Directly);
    assert(begin.queue[0].0 == id);
    assert(is_awaited(begin, id));
    assert(runs_in(h, id, begin));
    lemma_run_in(h, id, begin);
    let v = run_out(begin, Way::In);
    assert(alike_but_for_phasing(g, Game { combat: g.combat, ..v.game })) by {
        reveal(alike_but_for_phasing);
    }
    lemma_alike(g, Game { combat: g.combat, ..v.game });
    assert forall|x: ObjectId| #[trigger] w.phased.contains(x) implies g.objects.dom().contains(x)
        && v.game.objects[x] == g.objects[x] by {
        lemma_back_in(g, w, id, h, v, x);
    }
    if forall|x: ObjectId| #[trigger]
        g.objects.dom().contains(x) ==> g.objects[x].phase_status is PhasedIn {
        assert forall|x: ObjectId| #[trigger] g.objects.dom().contains(x) implies v.game.objects[x]
            == g.objects[x] by {
            assert(h.objects.dom().contains(x));
            if !w.phased.contains(x) {
                if x == id {
                    assert(v.seen.contains(id));
                }
            }
        }
        assert(v.game.objects =~= g.objects);
    }
}

} // verus!
