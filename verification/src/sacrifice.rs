//! Sacrificing permanents.

use vstd::prelude::*;
use crate::ability::{StaticDefinition, StaticMode};
use crate::cards::Zone;
use crate::errors::{forbid, forbidden, invalid, refuse, EngineError};
use crate::events::{emit, log, EventModel, GameEvent, ProposedEvent, ProposedModel};
use crate::filter::{matches_filter, matches_target_filter, seen_from, Scope};
use crate::ids::{ObjectId, PlayerId};
use crate::keyed::KeySet;
use crate::object::{GameObject, ObjectModel};
use crate::replacement::{event_replaced, replace_event, Processed, ReplacementResult, ResultModel};
use crate::restrictions::{record_sacrifice, sacrificed};
use crate::state::{object_at, Game, GameState};
use crate::text::same_text;
use crate::zones::{move_to_zone, move_told, moved};

verus! {

broadcast use crate::views::group_views;

/// What came of a sacrifice.
#[derive(Debug, Clone, Copy, PartialEq, Eq, Structural)]
pub enum SacrificeOutcome {
    /// It is done, as it was or in another way.
    Complete,
    /// A player has to choose between replacements first.
    NeedsReplacementChoice(PlayerId),
}

/// Whether a static ability of a permanent is of a named kind and is about an object.
pub open spec fn bears_on(
    g: Game,
    source: ObjectId,
    o: ObjectModel,
    d: StaticDefinition,
    id: ObjectId,
    name: Seq<char>,
) -> bool {
    (match d.mode {
        StaticMode::Other(s) => s@ == name,
        _ => false,
    }) && (match d.affected {
        Some(f) => matches_filter(g, id, *f, seen_from(source, o.controller)),
        None => true,
    })
}

/// Whether a permanent has a static ability of a named kind that is about an object.
pub open spec fn source_bears_on(g: Game, source: ObjectId, id: ObjectId, name: Seq<char>) -> bool {
    match object_at(g, source) {
        Some(o) => o.phase_status is PhasedIn && exists|i: int|
            0 <= i < o.static_definitions.len() && bears_on(
                g,
                source,
                o,
                #[trigger] o.static_definitions[i],
                id,
                name,
            ),
        None => false,
    }
}

/// Whether a static ability of a named kind is about an object.
pub open spec fn under_static(g: Game, id: ObjectId, name: Seq<char>) -> bool {
    exists|i: int|
        0 <= i < g.battlefield.len() && source_bears_on(g, #[trigger] g.battlefield[i], id, name)
}

fn source_has_static(
    state: &GameState,
    source: ObjectId,
    obj: &GameObject,
    id: ObjectId,
    name: &str,
) -> (r: bool)
    requires
        object_at(state@, source) == Some(obj@),
    ensures
        r == source_bears_on(state@, source, id, name@),
{
    if obj.is_phased_out() {
        return false;
    }
    let ghost defs = obj@.static_definitions;
    let mut i: usize = 0;
    while i < obj.static_definitions.len()
        invariant
            i <= defs.len(),
            defs == obj@.static_definitions,
            defs == obj.static_definitions@,
            obj@.phase_status is PhasedIn,
            object_at(state@, source) == Some(obj@),
            forall|j: int|
                0 <= j < i ==> !bears_on(state@, source, obj@, #[trigger] defs[j], id, name@),
        decreases defs.len() - i,
    {
        let d = &obj.static_definitions[i];
        let is_named = match &d.mode {
            StaticMode::Other(s) => same_text(s.as_str(), name),
            _ => false,
        };
        if is_named {
            let is_meant = match &d.affected {
                Some(f) => matches_target_filter(
                    state,
                    id,
                    &**f,
                    Scope::from_source_with_controller(source, obj.controller),
                ),
                None => true,
            };
            if is_meant {
                assert(bears_on(state@, source, obj@, defs[i as int], id, name@));
                return true;
            }
        }
        i += 1;
    }
    false
}

/// Whether a static ability of a named kind is about an object.
pub fn object_has_static_other(state: &GameState, id: ObjectId, name: &str) -> (r: bool)
    ensures
        r == under_static(state@, id, name@),
{
    let ghost bf = state@.battlefield;
    let mut i: usize = 0;
    while i < state.battlefield.len()
        invariant
            i <= bf.len(),
            bf == state@.battlefield,
            bf == state.battlefield@,
            forall|j: int| 0 <= j < i ==> !source_bears_on(state@, #[trigger] bf[j], id, name@),
        decreases bf.len() - i,
    {
        if let Some(o) = state.object(state.battlefield[i]) {
            if source_has_static(state, state.battlefield[i], o, id, name) {
                assert(source_bears_on(state@, bf[i as int], id, name@));
                return true;
            }
        }
        i += 1;
    }
    false
}

/// A sacrifice that is about to happen.
pub open spec fn sacrifice_of(id: ObjectId, player: PlayerId) -> ProposedModel {
    ProposedModel::Sacrifice { object_id: id, player_id: player, applied: Set::empty() }
}

/// The game after a sacrifice, or what replaced it, has happened.
pub open spec fn given_up(p: Processed) -> Game {
    match p.result {
        ResultModel::Execute(ProposedModel::Sacrifice { object_id, player_id, .. }) => sacrificed(
            Game { layers_dirty: true, ..moved(p.game, object_id, Zone::Graveyard) },
            object_id,
            player_id,
        ),
        ResultModel::Execute(ProposedModel::ZoneChange { object_id, to, .. }) => Game {
            layers_dirty: true,
            ..moved(p.game, object_id, to)
        },
        _ => p.game,
    }
}

/// What is told of a sacrifice, or of what replaced it.
pub open spec fn giving_up_told(p: Processed) -> Seq<EventModel> {
    match p.result {
        ResultModel::Execute(ProposedModel::Sacrifice { object_id, player_id, .. }) => move_told(
            p.told,
            p.game,
            object_id,
            Zone::Graveyard,
        ).push(EventModel::PermanentSacrificed { object_id, player_id }),
        ResultModel::Execute(ProposedModel::ZoneChange { object_id, to, .. }) => move_told(
            p.told,
            p.game,
            object_id,
            to,
        ),
        _ => p.told,
    }
}

/// What comes of a sacrifice.
pub open spec fn outcome_of(p: Processed) -> SacrificeOutcome {
    match p.result {
        ResultModel::NeedsChoice(player) => SacrificeOutcome::NeedsReplacementChoice(player),
        _ => SacrificeOutcome::Complete,
    }
}

/// Sacrifices a permanent, after what replaces that. Nothing happens to one that cannot be
/// sacrificed.
pub fn sacrifice_permanent(
    state: &mut GameState,
    object_id: ObjectId,
    player: PlayerId,
    events: &mut Vec<GameEvent>,
) -> (r: Result<SacrificeOutcome, EngineError>)
    ensures
        ({
            let g = old(state)@;
            let h = final(state)@;
            let told = log(old(events)@);
            let told_now = log(final(events)@);
            match object_at(g, object_id) {
                None => invalid(r, "Sacrifice target not found"@) && h == g && told_now == told,
                Some(o) => if o.zone != Zone::Battlefield {
                    forbidden(r, "Cannot sacrifice: permanent is not on the battlefield"@) && h == g
                        && told_now == told
                } else if under_static(g, object_id, "CantBeSacrificed"@) {
                    r == Ok::<SacrificeOutcome, EngineError>(SacrificeOutcome::Complete) && h == g
                        && told_now == told
                } else {
                    let p = event_replaced(g, sacrifice_of(object_id, player), told);
                    r == Ok::<SacrificeOutcome, EngineError>(outcome_of(p)) && h == given_up(p)
                        && told_now == giving_up_told(p)
                },
            }
        }),
{
    match state.object(object_id) {
        Some(o) => {
            if o.zone != Zone::Battlefield {
                return forbid("Cannot sacrifice: permanent is not on the battlefield");
            }
        },
        None => {
            return refuse("Sacrifice target not found");
        },
    }
    if object_has_static_other(state, object_id, "CantBeSacrificed") {
        return Ok(SacrificeOutcome::Complete);
    }
    let proposed = ProposedEvent::Sacrifice {
        object_id,
        player_id: player,
        applied: KeySet::new(),
    };
    match replace_event(state, proposed, events) {
        ReplacementResult::Execute(e) => {
            match e {
                ProposedEvent::Sacrifice { object_id: oid, player_id: pid, .. } => {
                    move_to_zone(state, oid, Zone::Graveyard, events);
                    state.layers_dirty = true;
                    record_sacrifice(state, oid, pid);
                    emit(events, GameEvent::PermanentSacrificed { object_id: oid, player_id: pid });
                },
                ProposedEvent::ZoneChange { object_id: oid, to, .. } => {
                    move_to_zone(state, oid, to, events);
                    state.layers_dirty = true;
                },
                _ => {},
            }
        },
        ReplacementResult::Prevented => {},
        ReplacementResult::NeedsChoice(choice_player) => {
            return Ok(SacrificeOutcome::NeedsReplacementChoice(choice_player));
        },
    }
    Ok(SacrificeOutcome::Complete)
}

} // verus!
