//! State-based actions: what the rules do by themselves whenever a player would get priority.

use vstd::prelude::*;
use crate::ability::{ControllerRef, StaticDefinition, StaticMode, TargetFilter, TriggerDefinition};
use crate::cards::{
    contains_exact_subtype, has_core_type, has_exact_subtype, has_kind, has_supertype, CoreType,
    CounterKind, CounterType, Keyword, KeywordKind, Supertype, Zone,
};
use crate::elimination::{eliminate_player, eliminated, elimination_told};
use crate::events::{
    emit, log, EventModel, GameEvent, ProposedEvent, ProposedModel, WaitingFor, WaitingModel,
};
use crate::ids::{ObjectId, PlayerId};
use crate::keyed::{unlike, KeySet, Table};
use crate::layers::{evaluate_layers, layers_evaluated};
use crate::object::{GameObject, ObjectModel};
use crate::proposals::plain_move;
use crate::replacement::{
    choice_asked, event_replaced, replace_event, replacement_choice_waiting_for, ReplacementResult,
    ResultModel,
};
use crate::seqs::{
    first_where, holds, lemma_filter_next, lemma_filter_nothing, lemma_filter_start,
    lemma_first_where, lemma_first_where_none,
};
use crate::speed::{controls_start_your_engines, has_engines, set_speed, with_speed};
use crate::state::{
    count_in, count_of_key, object_at, with_object, CommanderDamageEntry, Game, GameState, Player,
    PlayerModel, StackEntryKind,
};
use crate::text::same_text;
use crate::views::seq_view;
use crate::zones::{
    gone_from, move_to_zone, move_told, moved, remove_from_zone, retain_others, taken_out,
};

verus! {

broadcast use crate::views::group_views;

/// How often the actions are checked at most.
pub const MAX_SBA_ITERATIONS: u32 = 9;

/// A game in which actions are being performed, what was told, and whether any was performed.
#[verifier::ext_equal]
pub struct Sweep {
    pub game: Game,
    pub told: Seq<EventModel>,
    pub any: bool,
}

// ---------------------------------------------------------------------------
// Players who lose
// ---------------------------------------------------------------------------

/// Whether a static ability of a player's permanent is about a player.
pub open spec fn is_about(controller: PlayerId, affected: Option<TargetFilter>, p: PlayerId) -> bool {
    match affected {
        Some(TargetFilter::Typed(t)) => match t.controller {
            Some(ControllerRef::You) => controller == p,
            Some(ControllerRef::Opponent) => controller != p,
            Some(ControllerRef::TargetPlayer) => false,
            None => true,
        },
        Some(TargetFilter::Player) | Some(TargetFilter::Any) | None => true,
        _ => false,
    }
}

fn static_affects_player(controller: PlayerId, def: &StaticDefinition, p: PlayerId) -> (r: bool)
    ensures
        r == is_about(controller, crate::applicability::shared(def.affected), p),
{
    match &def.affected {
        Some(f) => match &**f {
            TargetFilter::Typed(t) => match t.controller {
                Some(ControllerRef::You) => controller == p,
                Some(ControllerRef::Opponent) => controller != p,
                Some(ControllerRef::TargetPlayer) => false,
                None => true,
            },
            TargetFilter::Player | TargetFilter::Any => true,
            _ => false,
        },
        None => true,
    }
}

/// Whether a static ability keeps a player from losing.
pub open spec fn protects(controller: PlayerId, d: StaticDefinition, p: PlayerId) -> bool {
    d.mode is CantLoseTheGame && is_about(
        controller,
        crate::applicability::shared(d.affected),
        p,
    )
}

/// Whether an object keeps a player from losing.
pub open spec fn object_protects(g: Game, id: ObjectId, p: PlayerId) -> bool {
    match object_at(g, id) {
        Some(o) => exists|i: int|
            0 <= i < o.static_definitions.len() && protects(
                o.controller,
                #[trigger] o.static_definitions[i],
                p,
            ),
        None => false,
    }
}

/// Whether a permanent keeps a player from losing.
pub open spec fn cannot_lose(g: Game, p: PlayerId) -> bool {
    exists|i: int|
        0 <= i < g.battlefield.len() && object_protects(g, #[trigger] g.battlefield[i], p)
}

fn object_has_cant_lose(obj: &GameObject, p: PlayerId) -> (r: bool)
    ensures
        r == (exists|i: int|
            0 <= i < obj@.static_definitions.len() && protects(
                obj@.controller,
                #[trigger] obj@.static_definitions[i],
                p,
            )),
{
    let ghost defs = obj@.static_definitions;
    let mut i: usize = 0;
    while i < obj.static_definitions.len()
        invariant
            i <= defs.len(),
            defs == obj@.static_definitions,
            defs == obj.static_definitions@,
            forall|j: int| 0 <= j < i ==> !protects(obj.controller, #[trigger] defs[j], p),
        decreases defs.len() - i,
    {
        let d = &obj.static_definitions[i];
        if matches!(d.mode, StaticMode::CantLoseTheGame) && static_affects_player(
            obj.controller,
            d,
            p,
        ) {
            assert(protects(obj.controller, defs[i as int], p));
            return true;
        }
        i += 1;
    }
    false
}

fn player_has_cant_lose(state: &GameState, p: PlayerId) -> (r: bool)
    ensures
        r == cannot_lose(state@, p),
{
    let ghost bf = state@.battlefield;
    let mut i: usize = 0;
    while i < state.battlefield.len()
        invariant
            i <= bf.len(),
            bf == state@.battlefield,
            bf == state.battlefield@,
            forall|j: int| 0 <= j < i ==> !object_protects(state@, #[trigger] bf[j], p),
        decreases bf.len() - i,
    {
        if let Some(o) = state.object(state.battlefield[i]) {
            if object_has_cant_lose(o, p) {
                assert(object_protects(state@, bf[i as int], p));
                return true;
            }
        }
        i += 1;
    }
    false
}

/// Why a player loses.
#[derive(Debug, Clone, Copy, PartialEq, Eq, Structural)]
pub enum Reason {
    NoLife,
    EmptyLibrary,
    Poison,
}

/// Whether a player still in the game has a reason to lose.
pub open spec fn has_reason(p: PlayerModel, why: Reason) -> bool {
    !p.is_eliminated && match why {
        Reason::NoLife => p.life <= 0,
        Reason::EmptyLibrary => p.drew_from_empty_library,
        Reason::Poison => p.poison_counters >= 10,
    }
}

/// The first `n` players who lose for a reason.
pub open spec fn losers(g: Game, why: Reason, n: nat) -> Seq<PlayerId>
    decreases n,
{
    if n == 0 || n > g.players.len() {
        Seq::empty()
    } else {
        let front = losers(g, why, (n - 1) as nat);
        let p = g.players[n - 1];
        if has_reason(p, why) && !cannot_lose(g, p.id) {
            front.push(p.id)
        } else {
            front
        }
    }
}

/// The game after one player has lost.
pub open spec fn lost(s: Sweep, p: PlayerId, is_told: bool) -> Sweep {
    let told = if is_told {
        s.told.push(EventModel::PlayerLost { player_id: p })
    } else {
        s.told
    };
    Sweep {
        game: eliminated(s.game, p),
        told: elimination_told(told, s.game, p),
        any: true,
    }
}

/// The game after the first `n` of some players have lost.
pub open spec fn all_lost(s: Sweep, ids: Seq<PlayerId>, is_told: bool, n: nat) -> Sweep
    decreases n,
{
    if n == 0 || n > ids.len() {
        s
    } else {
        lost(all_lost(s, ids, is_told, (n - 1) as nat), ids[n - 1], is_told)
    }
}

/// The game after the players have lost who have a reason to.
pub open spec fn reason_checked(s: Sweep, why: Reason) -> Sweep {
    let ids = losers(s.game, why, s.game.players.len());
    all_lost(s, ids, true, ids.len())
}

fn find_losers(state: &GameState, why: Reason) -> (r: Vec<PlayerId>)
    ensures
        r@ == losers(state@, why, state@.players.len()),
{
    let ghost g = state@;
    let mut out: Vec<PlayerId> = Vec::new();
    let mut i: usize = 0;
    while i < state.players.len()
        invariant
            i <= g.players.len(),
            g == state@,
            g.players.len() == state.players@.len(),
            out@ == losers(g, why, i as nat),
        decreases g.players.len() - i,
    {
        let p = &state.players[i];
        assert(g.players[i as int] == state.players@[i as int]@);
        let has_lost = !p.is_eliminated && match why {
            Reason::NoLife => p.life <= 0,
            Reason::EmptyLibrary => p.drew_from_empty_library,
            Reason::Poison => p.poison_counters >= 10,
        };
        if has_lost && !player_has_cant_lose(state, p.id) {
            out.push(p.id);
        }
        i += 1;
    }
    out
}

fn eliminate_all(
    state: &mut GameState,
    ids: &Vec<PlayerId>,
    is_told: bool,
    events: &mut Vec<GameEvent>,
    any_performed: &mut bool,
)
    ensures
        (Sweep { game: final(state)@, told: log(final(events)@), any: *final(any_performed) })
            == all_lost(
            (Sweep { game: old(state)@, told: log(old(events)@), any: *old(any_performed) }),
            ids@,
            is_told,
            ids@.len(),
        ),
{
    let ghost s = Sweep { game: state@, told: log(events@), any: *any_performed };
    let mut i: usize = 0;
    while i < ids.len()
        invariant
            i <= ids@.len(),
            (Sweep { game: state@, told: log(events@), any: *any_performed }) == all_lost(
                s,
                ids@,
                is_told,
                i as nat,
            ),
        decreases ids.len() - i,
    {
        if is_told {
            emit(events, GameEvent::PlayerLost { player_id: ids[i] });
        }
        eliminate_player(state, ids[i], events);
        *any_performed = true;
        i += 1;
    }
}

fn check_reason(
    state: &mut GameState,
    why: Reason,
    events: &mut Vec<GameEvent>,
    any_performed: &mut bool,
)
    ensures
        (Sweep { game: final(state)@, told: log(final(events)@), any: *final(any_performed) })
            == reason_checked(
            (Sweep { game: old(state)@, told: log(old(events)@), any: *old(any_performed) }),
            why,
        ),
{
    let ids = find_losers(state, why);
    eliminate_all(state, &ids, true, events, any_performed);
}

/// The players whom the first `n` entries of commander damage defeat.
pub open spec fn defeated(g: Game, threshold: u32, n: nat) -> Seq<PlayerId>
    decreases n,
{
    if n == 0 || n > g.commander_damage.len() {
        Seq::empty()
    } else {
        let front = defeated(g, threshold, (n - 1) as nat);
        let entry = g.commander_damage[n - 1];
        if entry.damage >= threshold && !g.eliminated_players.contains(entry.player)
            && !cannot_lose(g, entry.player) {
            front.push(entry.player)
        } else {
            front
        }
    }
}

/// The game after the players have lost who were dealt enough damage by one commander.
pub open spec fn commander_damage_checked(s: Sweep) -> Sweep {
    match s.game.format_config.commander_damage_threshold {
        Some(t) => {
            let ids = defeated(s.game, t as u32, s.game.commander_damage.len());
            all_lost(s, ids, false, ids.len())
        },
        None => s,
    }
}

fn find_defeated(state: &GameState, threshold: u32) -> (r: Vec<PlayerId>)
    ensures
        r@ == defeated(state@, threshold, state@.commander_damage.len()),
{
    let ghost g = state@;
    let mut out: Vec<PlayerId> = Vec::new();
    let mut i: usize = 0;
    while i < state.commander_damage.len()
        invariant
            i <= g.commander_damage.len(),
            g == state@,
            g.commander_damage == state.commander_damage@,
            out@ == defeated(g, threshold, i as nat),
        decreases g.commander_damage.len() - i,
    {
        let entry = state.commander_damage[i];
        assert(seq_view(state.eliminated_players@) =~= state.eliminated_players@);
        if entry.damage >= threshold && !holds(&state.eliminated_players, &entry.player)
            && !player_has_cant_lose(state, entry.player) {
            out.push(entry.player);
        }
        i += 1;
    }
    out
}

fn check_commander_damage(
    state: &mut GameState,
    events: &mut Vec<GameEvent>,
    any_performed: &mut bool,
)
    ensures
        (Sweep { game: final(state)@, told: log(final(events)@), any: *final(any_performed) })
            == commander_damage_checked(
            (Sweep { game: old(state)@, told: log(old(events)@), any: *old(any_performed) }),
        ),
{
    if let Some(t) = state.format_config.commander_damage_threshold {
        let ids = find_defeated(state, t as u32);
        eliminate_all(state, &ids, false, events, any_performed);
    }
}

// ---------------------------------------------------------------------------
// Permanents that leave
// ---------------------------------------------------------------------------

/// What is wrong with a permanent.
#[derive(Debug, Clone, Copy, PartialEq, Eq, Structural)]
pub enum Flaw {
    ZeroToughness,
    LethalDamage,
    IllegalAura,
    IllegalEquipment,
    ZeroLoyalty,
}

/// Whether an object can be attached to: one on the battlefield.
pub open spec fn can_be_attached_to(g: Game, id: ObjectId) -> bool {
    object_at(g, id) is Some && object_at(g, id)->0.zone == Zone::Battlefield
}

/// Whether an object has a flaw.
pub open spec fn has_flaw(g: Game, o: ObjectModel, flaw: Flaw) -> bool {
    let core = o.card_types.core_types;
    match flaw {
        Flaw::ZeroToughness => core.contains(CoreType::Creature) && o.toughness is Some
            && o.toughness->0 <= 0,
        Flaw::LethalDamage => core.contains(CoreType::Creature) && ((o.toughness is Some
            && o.toughness->0 > 0 && o.damage_marked >= o.toughness->0) || (
        o.dealt_deathtouch_damage && o.damage_marked > 0)) && !has_kind(
            o.keywords,
            KeywordKind::Indestructible,
        ),
        Flaw::IllegalAura => core.contains(CoreType::Enchantment) && o.attached_to is Some
            && !can_be_attached_to(g, o.attached_to->0),
        Flaw::IllegalEquipment => has_exact_subtype(o.card_types.subtypes, "Equipment"@)
            && o.attached_to is Some && !can_be_attached_to(g, o.attached_to->0),
        Flaw::ZeroLoyalty => core.contains(CoreType::Planeswalker) && o.loyalty == Some(0u32),
    }
}

/// Being an object with a flaw.
pub open spec fn flawed(g: Game, flaw: Flaw) -> spec_fn(ObjectId) -> bool {
    |id: ObjectId| object_at(g, id) is Some && has_flaw(g, object_at(g, id)->0, flaw)
}

fn is_valid_attachment_target(state: &GameState, id: ObjectId) -> (r: bool)
    ensures
        r == can_be_attached_to(state@, id),
{
    match state.object(id) {
        Some(o) => o.zone == Zone::Battlefield,
        None => false,
    }
}

fn object_has_flaw(state: &GameState, o: &GameObject, flaw: Flaw) -> (r: bool)
    ensures
        r == has_flaw(state@, o@, flaw),
{
    let core = &o.card_types.core_types;
    match flaw {
        Flaw::ZeroToughness => has_core_type(core, CoreType::Creature) && match o.toughness {
            Some(t) => t <= 0,
            None => false,
        },
        Flaw::LethalDamage => has_core_type(core, CoreType::Creature) && (match o.toughness {
            Some(t) => t > 0 && o.damage_marked >= t as u32,
            None => false,
        } || (o.dealt_deathtouch_damage && o.damage_marked > 0)) && !o.has_keyword(
            &Keyword::Indestructible,
        ),
        Flaw::IllegalAura => has_core_type(core, CoreType::Enchantment) && match o.attached_to {
            Some(h) => !is_valid_attachment_target(state, h),
            None => false,
        },
        Flaw::IllegalEquipment => contains_exact_subtype(&o.card_types.subtypes, "Equipment")
            && match o.attached_to {
            Some(h) => !is_valid_attachment_target(state, h),
            None => false,
        },
        Flaw::ZeroLoyalty => has_core_type(core, CoreType::Planeswalker) && match o.loyalty {
            Some(l) => l == 0,
            None => false,
        },
    }
}

fn find_flawed(state: &GameState, flaw: Flaw) -> (r: Vec<ObjectId>)
    ensures
        r@ == state@.battlefield.filter(flawed(state@, flaw)),
{
    let ghost s = state@.battlefield;
    let ghost keep = flawed(state@, flaw);
    proof {
        lemma_filter_start(s, keep);
    }
    let mut out: Vec<ObjectId> = Vec::new();
    let mut i: usize = 0;
    while i < state.battlefield.len()
        invariant
            i <= s.len(),
            s == state.battlefield@,
            keep == flawed(state@, flaw),
            out@ == s.take(i as int).filter(keep),
            s.take(s.len() as int) == s,
        decreases s.len() - i,
    {
        proof {
            lemma_filter_next(s, i as int, keep);
        }
        if let Some(o) = state.object(state.battlefield[i]) {
            if object_has_flaw(state, o, flaw) {
                out.push(state.battlefield[i]);
            }
        }
        i += 1;
    }
    out
}

/// The game after the first `n` of some objects have been put into graveyards.
pub open spec fn all_buried(s: Sweep, ids: Seq<ObjectId>, n: nat) -> Sweep
    decreases n,
{
    if n == 0 || n > ids.len() {
        s
    } else {
        let t = all_buried(s, ids, (n - 1) as nat);
        Sweep {
            game: moved(t.game, ids[n - 1], Zone::Graveyard),
            told: move_told(t.told, t.game, ids[n - 1], Zone::Graveyard),
            any: true,
        }
    }
}

/// The game after the permanents with a flaw have been put into graveyards.
pub open spec fn flaw_buried(s: Sweep, flaw: Flaw) -> Sweep {
    let ids = s.game.battlefield.filter(flawed(s.game, flaw));
    all_buried(s, ids, ids.len())
}

fn bury_flawed(
    state: &mut GameState,
    flaw: Flaw,
    events: &mut Vec<GameEvent>,
    any_performed: &mut bool,
)
    ensures
        (Sweep { game: final(state)@, told: log(final(events)@), any: *final(any_performed) })
            == flaw_buried(
            (Sweep { game: old(state)@, told: log(old(events)@), any: *old(any_performed) }),
            flaw,
        ),
{
    let ghost s = Sweep { game: state@, told: log(events@), any: *any_performed };
    let ids = find_flawed(state, flaw);
    let mut i: usize = 0;
    while i < ids.len()
        invariant
            i <= ids@.len(),
            (Sweep { game: state@, told: log(events@), any: *any_performed }) == all_buried(
                s,
                ids@,
                i as nat,
            ),
        decreases ids.len() - i,
    {
        move_to_zone(state, ids[i], Zone::Graveyard, events);
        *any_performed = true;
        i += 1;
    }
}

/// A destruction of a permanent by the rules.
pub open spec fn destruction(id: ObjectId) -> ProposedModel {
    ProposedModel::Destroy {
        object_id: id,
        source: None,
        cant_regenerate: false,
        applied: Set::empty(),
    }
}

/// The game with a choice of replacements that a player is asked for.
pub open spec fn asking(g: Game, player: PlayerId) -> Game {
    Game { waiting_for: choice_asked(g, player), ..g }
}

/// The game after a permanent that is destroyed has been put into a graveyard, if nothing
/// replaces that. Whether the rest is put off until a player has chosen.
pub open spec fn destroyed(s: Sweep, object_id: ObjectId, source: Option<ObjectId>) -> (Sweep, bool) {
    let p = event_replaced(
        s.game,
        plain_move(object_id, Zone::Battlefield, Zone::Graveyard, source, Set::empty()),
        s.told,
    );
    match p.result {
        ResultModel::NeedsChoice(player) => (
            Sweep { game: asking(p.game, player), told: p.told, any: s.any },
            true,
        ),
        ResultModel::Execute(ProposedModel::ZoneChange { object_id: id, to, .. }) => (
            Sweep {
                game: moved(p.game, id, to),
                told: move_told(p.told, p.game, id, to).push(
                    EventModel::CreatureDestroyed { object_id },
                ),
                any: true,
            },
            false,
        ),
        _ => (
            Sweep {
                game: p.game,
                told: p.told.push(EventModel::CreatureDestroyed { object_id }),
                any: true,
            },
            false,
        ),
    }
}

/// The game after one permanent was to be destroyed. Whether the rest is put off until a player
/// has chosen.
pub open spec fn destroyed_by_damage(s: Sweep, id: ObjectId) -> (Sweep, bool) {
    let p = event_replaced(s.game, destruction(id), s.told);
    let t = Sweep { game: p.game, told: p.told, any: s.any };
    match p.result {
        ResultModel::NeedsChoice(player) => (Sweep { game: asking(p.game, player), ..t }, true),
        ResultModel::Execute(ProposedModel::Destroy { object_id, source, .. }) => destroyed(
            t,
            object_id,
            source,
        ),
        _ => (Sweep { any: true, ..t }, false),
    }
}

/// The game after some permanents, from a place on, were to be destroyed.
pub open spec fn all_destroyed(s: Sweep, ids: Seq<ObjectId>, from: int) -> Sweep
    decreases ids.len() - from,
{
    if from < 0 || from >= ids.len() {
        s
    } else {
        let (t, is_put_off) = destroyed_by_damage(s, ids[from]);
        if is_put_off {
            t
        } else {
            all_destroyed(t, ids, from + 1)
        }
    }
}

/// The game after the creatures with lethal damage were to be destroyed.
pub open spec fn lethal_damage_checked(s: Sweep) -> Sweep {
    all_destroyed(s, s.game.battlefield.filter(flawed(s.game, Flaw::LethalDamage)), 0)
}

fn bury_destroyed(
    state: &mut GameState,
    object_id: ObjectId,
    source: Option<ObjectId>,
    events: &mut Vec<GameEvent>,
    any_performed: &mut bool,
) -> (r: bool)
    ensures
        (
            Sweep { game: final(state)@, told: log(final(events)@), any: *final(any_performed) },
            r,
        ) == destroyed(
            (Sweep { game: old(state)@, told: log(old(events)@), any: *old(any_performed) }),
            object_id,
            source,
        ),
{
    let proposed = ProposedEvent::zone_change(
        object_id,
        Zone::Battlefield,
        Zone::Graveyard,
        source,
    );
    match replace_event(state, proposed, events) {
        ReplacementResult::NeedsChoice(player) => {
            let asked = replacement_choice_waiting_for(player, state);
            state.waiting_for = asked;
            return true;
        },
        ReplacementResult::Execute(e) => {
            match e {
                ProposedEvent::ZoneChange { object_id: id, to, .. } => move_to_zone(
                    state,
                    id,
                    to,
                    events,
                ),
                _ => {},
            }
        },
        ReplacementResult::Prevented => {},
    }
    emit(events, GameEvent::CreatureDestroyed { object_id });
    *any_performed = true;
    false
}

fn destroy_one(
    state: &mut GameState,
    id: ObjectId,
    events: &mut Vec<GameEvent>,
    any_performed: &mut bool,
) -> (r: bool)
    ensures
        (
            Sweep { game: final(state)@, told: log(final(events)@), any: *final(any_performed) },
            r,
        ) == destroyed_by_damage(
            (Sweep { game: old(state)@, told: log(old(events)@), any: *old(any_performed) }),
            id,
        ),
{
    let proposed = ProposedEvent::Destroy {
        object_id: id,
        source: None,
        cant_regenerate: false,
        applied: KeySet::new(),
    };
    match replace_event(state, proposed, events) {
        ReplacementResult::NeedsChoice(player) => {
            let asked = replacement_choice_waiting_for(player, state);
            state.waiting_for = asked;
            true
        },
        ReplacementResult::Execute(e) => match e {
            ProposedEvent::Destroy { object_id, source, .. } => bury_destroyed(
                state,
                object_id,
                source,
                events,
                any_performed,
            ),
            _ => {
                *any_performed = true;
                false
            },
        },
        ReplacementResult::Prevented => {
            *any_performed = true;
            false
        },
    }
}

fn check_lethal_damage(
    state: &mut GameState,
    events: &mut Vec<GameEvent>,
    any_performed: &mut bool,
)
    ensures
        (Sweep { game: final(state)@, told: log(final(events)@), any: *final(any_performed) })
            == lethal_damage_checked(
            (Sweep { game: old(state)@, told: log(old(events)@), any: *old(any_performed) }),
        ),
{
    let ghost s = Sweep { game: state@, told: log(events@), any: *any_performed };
    let ids = find_flawed(state, Flaw::LethalDamage);
    let mut i: usize = 0;
    while i < ids.len()
        invariant
            i <= ids@.len(),
            s == (Sweep { game: old(state)@, told: log(old(events)@), any: *old(any_performed) }),
            ids@ == s.game.battlefield.filter(flawed(s.game, Flaw::LethalDamage)),
            all_destroyed(s, ids@, 0) == all_destroyed(
                (Sweep { game: state@, told: log(events@), any: *any_performed }),
                ids@,
                i as int,
            ),
        decreases ids.len() - i,
    {
        if destroy_one(state, ids[i], events, any_performed) {
            return;
        }
        i += 1;
    }
}

// ---------------------------------------------------------------------------
// Legends
// ---------------------------------------------------------------------------

/// Being a legendary permanent of a player.
pub open spec fn legend_of(g: Game, p: PlayerId) -> spec_fn(ObjectId) -> bool {
    |id: ObjectId|
        object_at(g, id) is Some && object_at(g, id)->0.controller == p && object_at(
            g,
            id,
        )->0.card_types.supertypes.contains(Supertype::Legendary)
}

/// The legendary permanents of a player.
pub open spec fn legends(g: Game, p: PlayerId) -> Seq<ObjectId> {
    g.battlefield.filter(legend_of(g, p))
}

/// Being an object with a name.
pub open spec fn called(g: Game, name: Seq<char>) -> spec_fn(ObjectId) -> bool {
    |id: ObjectId| g.objects[id].name@ == name
}

/// The objects of a list that share their name with one of them.
pub open spec fn namesakes(g: Game, ids: Seq<ObjectId>, id: ObjectId) -> Seq<ObjectId> {
    ids.filter(called(g, g.objects[id].name@))
}

/// Being an object that shares its name with another of a list.
pub open spec fn has_namesake(g: Game, ids: Seq<ObjectId>) -> spec_fn(ObjectId) -> bool {
    |id: ObjectId| namesakes(g, ids, id).len() >= 2
}

/// The choice between legendary permanents of one name that a player is asked for.
pub open spec fn legend_choice(g: Game, p: PlayerId) -> Option<WaitingModel> {
    let ids = legends(g, p);
    match first_where(ids, has_namesake(g, ids)) {
        Some(i) => Some(
            WaitingModel::ChooseLegend {
                player: p,
                legend_name: g.objects[ids[i]].name@,
                candidates: namesakes(g, ids, ids[i]),
            },
        ),
        None => None,
    }
}

/// The game with the first choice between legendary permanents that a player from a place on is
/// asked for.
pub open spec fn legends_checked(g: Game, from: int) -> Game
    decreases g.players.len() - from,
{
    if from < 0 || from >= g.players.len() {
        g
    } else {
        match legend_choice(g, g.players[from].id) {
            Some(w) => Game { waiting_for: w, ..g },
            None => legends_checked(g, from + 1),
        }
    }
}

fn find_legends(state: &GameState, p: PlayerId) -> (r: Vec<ObjectId>)
    ensures
        r@ == legends(state@, p),
        forall|i: int| 0 <= i < r@.len() ==> object_at(state@, #[trigger] r@[i]) is Some,
{
    let ghost s = state@.battlefield;
    let ghost keep = legend_of(state@, p);
    proof {
        lemma_filter_start(s, keep);
    }
    let mut out: Vec<ObjectId> = Vec::new();
    let mut i: usize = 0;
    while i < state.battlefield.len()
        invariant
            i <= s.len(),
            s == state.battlefield@,
            keep == legend_of(state@, p),
            out@ == s.take(i as int).filter(keep),
            s.take(s.len() as int) == s,
            forall|i: int| 0 <= i < out@.len() ==> object_at(state@, #[trigger] out@[i]) is Some,
        decreases s.len() - i,
    {
        proof {
            lemma_filter_next(s, i as int, keep);
        }
        if let Some(o) = state.object(state.battlefield[i]) {
            if o.controller == p && has_supertype(&o.card_types.supertypes, Supertype::Legendary) {
                out.push(state.battlefield[i]);
            }
        }
        i += 1;
    }
    out
}

fn find_namesakes(state: &GameState, ids: &Vec<ObjectId>, name: &str) -> (r: Vec<ObjectId>)
    requires
        forall|i: int| 0 <= i < ids@.len() ==> object_at(state@, #[trigger] ids@[i]) is Some,
    ensures
        r@ == ids@.filter(called(state@, name@)),
{
    let ghost s = ids@;
    let ghost keep = called(state@, name@);
    proof {
        lemma_filter_start(s, keep);
    }
    let mut out: Vec<ObjectId> = Vec::new();
    let mut i: usize = 0;
    while i < ids.len()
        invariant
            i <= s.len(),
            s == ids@,
            keep == called(state@, name@),
            out@ == s.take(i as int).filter(keep),
            s.take(s.len() as int) == s,
            forall|i: int| 0 <= i < s.len() ==> object_at(state@, #[trigger] s[i]) is Some,
        decreases s.len() - i,
    {
        proof {
            lemma_filter_next(s, i as int, keep);
            assert(object_at(state@, s[i as int]) is Some);
        }
        if let Some(o) = state.object(ids[i]) {
            if same_text(o.name.as_str(), name) {
                out.push(ids[i]);
            }
        }
        i += 1;
    }
    out
}

fn find_legend_choice(state: &GameState, p: PlayerId) -> (r: Option<WaitingFor>)
    ensures
        crate::views::opt_view(r) == legend_choice(state@, p),
{
    let ids = find_legends(state, p);
    let ghost s = ids@;
    let ghost is_double = has_namesake(state@, s);
    let mut i: usize = 0;
    while i < ids.len()
        invariant
            i <= s.len(),
            s == ids@,
            s == legends(state@, p),
            is_double == has_namesake(state@, s),
            forall|i: int| 0 <= i < s.len() ==> object_at(state@, #[trigger] s[i]) is Some,
            forall|j: int| 0 <= j < i ==> !is_double(#[trigger] s[j]),
        decreases s.len() - i,
    {
        assert(object_at(state@, s[i as int]) is Some);
        if let Some(o) = state.object(ids[i]) {
            let candidates = find_namesakes(state, &ids, o.name.as_str());
            if candidates.len() >= 2 {
                proof {
                    lemma_first_where(s, is_double, i as int);
                }
                return Some(
                    WaitingFor::ChooseLegend { player: p, legend_name: o.name.clone(), candidates },
                );
            }
        }
        i += 1;
    }
    proof {
        lemma_first_where_none(s, is_double);
    }
    None
}

fn check_legend_rule(state: &mut GameState)
    ensures
        final(state)@ == legends_checked(old(state)@, 0),
{
    let ghost g = state@;
    let mut i: usize = 0;
    while i < state.players.len()
        invariant
            i <= g.players.len(),
            g == state@,
            g == old(state)@,
            g.players.len() == state.players@.len(),
            legends_checked(g, 0) == legends_checked(g, i as int),
        decreases g.players.len() - i,
    {
        assert(g.players[i as int] == state.players@[i as int]@);
        let p = state.players[i].id;
        if let Some(w) = find_legend_choice(state, p) {
            state.waiting_for = w;
            return;
        }
        i += 1;
    }
}

// ---------------------------------------------------------------------------
// Equipment, Sagas, counters, tokens, speed
// ---------------------------------------------------------------------------

/// The game with an attachment taken off what it is attached to.
pub open spec fn detached(g: Game, id: ObjectId) -> Game {
    match object_at(g, id) {
        Some(o) => {
            let h = match o.attached_to {
                Some(host) => match object_at(g, host) {
                    Some(t) => with_object(
                        g,
                        host,
                        ObjectModel { attachments: gone_from(t.attachments, id), ..t },
                    ),
                    None => g,
                },
                None => g,
            };
            with_object(h, id, ObjectModel { attached_to: None, ..object_at(h, id)->0 })
        },
        None => g,
    }
}

fn take_off(state: &mut GameState, host: ObjectId, id: ObjectId)
    ensures
        final(state)@ == (match object_at(old(state)@, host) {
            Some(t) => with_object(
                old(state)@,
                host,
                ObjectModel { attachments: gone_from(t.attachments, id), ..t },
            ),
            None => old(state)@,
        }),
{
    if let Some(t) = state.object_mut(host) {
        retain_others(&mut t.attachments, id);
    }
}

fn unset_attached(state: &mut GameState, id: ObjectId)
    requires
        object_at(old(state)@, id) is Some,
    ensures
        final(state)@ == with_object(
            old(state)@,
            id,
            ObjectModel { attached_to: None, ..object_at(old(state)@, id)->0 },
        ),
{
    if let Some(o) = state.object_mut(id) {
        o.attached_to = None;
    }
}

fn detach(state: &mut GameState, id: ObjectId)
    ensures
        final(state)@ == detached(old(state)@, id),
{
    let host = match state.object(id) {
        Some(o) => o.attached_to,
        None => {
            return;
        },
    };
    if let Some(h) = host {
        take_off(state, h, id);
    }
    unset_attached(state, id);
}

/// The game after the first `n` of some attachments have been taken off.
pub open spec fn all_detached(g: Game, ids: Seq<ObjectId>, n: nat) -> Game
    decreases n,
{
    if n == 0 || n > ids.len() {
        g
    } else {
        detached(all_detached(g, ids, (n - 1) as nat), ids[n - 1])
    }
}

/// The game after Equipment that is attached to nothing legal has been taken off.
pub open spec fn equipment_checked(s: Sweep) -> Sweep {
    let ids = s.game.battlefield.filter(flawed(s.game, Flaw::IllegalEquipment));
    Sweep { game: all_detached(s.game, ids, ids.len()), any: s.any || ids.len() > 0, ..s }
}

fn check_unattached_equipment(state: &mut GameState, any_performed: &mut bool)
    ensures
        forall|told: Seq<EventModel>|
            (Sweep { game: final(state)@, told, any: *final(any_performed) })
                == #[trigger] equipment_checked(
                (Sweep { game: old(state)@, told, any: *old(any_performed) }),
            ),
{
    let ghost g = state@;
    let ids = find_flawed(state, Flaw::IllegalEquipment);
    let mut i: usize = 0;
    while i < ids.len()
        invariant
            i <= ids@.len(),
            state@ == all_detached(g, ids@, i as nat),
            *any_performed == (*old(any_performed) || i > 0),
        decreases ids.len() - i,
    {
        detach(state, ids[i]);
        *any_performed = true;
        i += 1;
    }
}

/// The last chapter among the first `n` triggered abilities.
pub open spec fn last_chapter(defs: Seq<TriggerDefinition>, n: nat) -> Option<u32>
    decreases n,
{
    if n == 0 || n > defs.len() {
        None
    } else {
        let front = last_chapter(defs, (n - 1) as nat);
        match defs[n - 1].counter_filter {
            Some(f) => match (f.counter_type@, f.threshold) {
                (CounterKind::Lore, Some(t)) => match front {
                    Some(m) => if m >= t {
                        front
                    } else {
                        Some(t)
                    },
                    None => Some(t),
                },
                _ => front,
            },
            None => front,
        }
    }
}

/// The number of the last chapter of a Saga, none for anything else.
pub open spec fn final_chapter_of(o: ObjectModel) -> Option<u32> {
    if has_exact_subtype(o.card_types.subtypes, "Saga"@) {
        last_chapter(o.trigger_definitions, o.trigger_definitions.len())
    } else {
        None
    }
}

fn final_chapter_number(o: &GameObject) -> (r: Option<u32>)
    ensures
        r == final_chapter_of(o@),
{
    if !contains_exact_subtype(&o.card_types.subtypes, "Saga") {
        return None;
    }
    let ghost defs = o@.trigger_definitions;
    let mut best: Option<u32> = None;
    let mut i: usize = 0;
    while i < o.trigger_definitions.len()
        invariant
            i <= defs.len(),
            defs == o.trigger_definitions@,
            best == last_chapter(defs, i as nat),
        decreases defs.len() - i,
    {
        if let Some(f) = &o.trigger_definitions[i].counter_filter {
            if let Some(t) = f.threshold {
                if matches!(f.counter_type, CounterType::Lore) {
                    best = match best {
                        Some(m) => if m >= t {
                            Some(m)
                        } else {
                            Some(t)
                        },
                        None => Some(t),
                    };
                }
            }
        }
        i += 1;
    }
    best
}

/// Whether a triggered ability of an object is on the stack.
pub open spec fn has_trigger_on_stack(g: Game, id: ObjectId) -> bool {
    exists|i: int|
        0 <= i < g.stack.len() && (match (#[trigger] g.stack[i]).kind {
            StackEntryKind::TriggeredAbility { source_id, .. } => source_id == id,
            _ => false,
        })
}

fn trigger_on_stack(state: &GameState, id: ObjectId) -> (r: bool)
    ensures
        r == has_trigger_on_stack(state@, id),
{
    let ghost s = state@.stack;
    let mut i: usize = 0;
    while i < state.stack.len()
        invariant
            i <= s.len(),
            s == state@.stack,
            s == state.stack@,
            forall|j: int|
                0 <= j < i ==> !(match (#[trigger] s[j]).kind {
                    StackEntryKind::TriggeredAbility { source_id, .. } => source_id == id,
                    _ => false,
                }),
        decreases s.len() - i,
    {
        let hit = match &state.stack[i].kind {
            StackEntryKind::TriggeredAbility { source_id, .. } => *source_id == id,
            _ => false,
        };
        if hit {
            assert(s[i as int] == state.stack@[i as int]);
            return true;
        }
        i += 1;
    }
    false
}

/// Whether it was told that an object got a lore counter.
pub open spec fn got_lore(told: Seq<EventModel>, id: ObjectId) -> bool {
    exists|i: int|
        0 <= i < told.len() && (match #[trigger] told[i] {
            EventModel::CounterAdded { object_id, counter_type, .. } => object_id == id
                && counter_type == CounterKind::Lore,
            _ => false,
        })
}

fn lore_event_pending(events: &Vec<GameEvent>, id: ObjectId) -> (r: bool)
    ensures
        r == got_lore(log(events@), id),
{
    let ghost told = log(events@);
    let mut i: usize = 0;
    while i < events.len()
        invariant
            i <= told.len(),
            told == log(events@),
            told.len() == events@.len(),
            forall|j: int|
                0 <= j < i ==> !(match #[trigger] told[j] {
                    EventModel::CounterAdded { object_id, counter_type, .. } => object_id == id
                        && counter_type == CounterKind::Lore,
                    _ => false,
                }),
        decreases told.len() - i,
    {
        assert(told[i as int] == events@[i as int]@);
        let hit = match &events[i] {
            GameEvent::CounterAdded { object_id, counter_type, .. } => *object_id == id && matches!(
                counter_type,
                CounterType::Lore
            ),
            _ => false,
        };
        if hit {
            return true;
        }
        i += 1;
    }
    false
}

/// Being a Saga whose last chapter is over.
pub open spec fn finished_saga(g: Game, told: Seq<EventModel>) -> spec_fn(ObjectId) -> bool {
    |id: ObjectId|
        object_at(g, id) is Some && final_chapter_of(object_at(g, id)->0) is Some && count_in(
            object_at(g, id)->0.counters,
            CounterKind::Lore,
        ) >= final_chapter_of(object_at(g, id)->0)->0 && !has_trigger_on_stack(g, id)
            && !got_lore(told, id)
}

fn is_finished_saga(state: &GameState, events: &Vec<GameEvent>, id: ObjectId) -> (r: bool)
    ensures
        r == finished_saga(state@, log(events@))(id),
{
    match state.object(id) {
        Some(o) => match final_chapter_number(o) {
            Some(n) => count_of_key(&o.counters, &CounterType::Lore) >= n && !trigger_on_stack(
                state,
                id,
            ) && !lore_event_pending(events, id),
            None => false,
        },
        None => false,
    }
}

/// The owner of an object, the first player where there is no such object.
pub open spec fn owner_of(g: Game, id: ObjectId) -> PlayerId {
    match object_at(g, id) {
        Some(o) => o.owner,
        None => PlayerId(0),
    }
}

/// The game after the first `n` of some Sagas have been sacrificed.
pub open spec fn all_sacrificed(s: Sweep, ids: Seq<ObjectId>, n: nat) -> Sweep
    decreases n,
{
    if n == 0 || n > ids.len() {
        s
    } else {
        let t = all_sacrificed(s, ids, (n - 1) as nat);
        let id = ids[n - 1];
        Sweep {
            game: moved(t.game, id, Zone::Graveyard),
            told: move_told(
                t.told.push(
                    EventModel::PermanentSacrificed {
                        object_id: id,
                        player_id: owner_of(t.game, id),
                    },
                ),
                t.game,
                id,
                Zone::Graveyard,
            ),
            any: true,
        }
    }
}

/// The game after the Sagas whose last chapter is over have been sacrificed.
pub open spec fn sagas_checked(s: Sweep) -> Sweep {
    let ids = s.game.battlefield.filter(finished_saga(s.game, s.told));
    all_sacrificed(s, ids, ids.len())
}

fn find_finished_sagas(state: &GameState, events: &Vec<GameEvent>) -> (r: Vec<ObjectId>)
    ensures
        r@ == state@.battlefield.filter(finished_saga(state@, log(events@))),
{
    let ghost s = state@.battlefield;
    let ghost keep = finished_saga(state@, log(events@));
    proof {
        lemma_filter_start(s, keep);
    }
    let mut out: Vec<ObjectId> = Vec::new();
    let mut i: usize = 0;
    while i < state.battlefield.len()
        invariant
            i <= s.len(),
            s == state.battlefield@,
            keep == finished_saga(state@, log(events@)),
            out@ == s.take(i as int).filter(keep),
            s.take(s.len() as int) == s,
        decreases s.len() - i,
    {
        proof {
            lemma_filter_next(s, i as int, keep);
        }
        if is_finished_saga(state, events, state.battlefield[i]) {
            out.push(state.battlefield[i]);
        }
        i += 1;
    }
    out
}

fn check_saga_sacrifice(
    state: &mut GameState,
    events: &mut Vec<GameEvent>,
    any_performed: &mut bool,
)
    ensures
        (Sweep { game: final(state)@, told: log(final(events)@), any: *final(any_performed) })
            == sagas_checked(
            (Sweep { game: old(state)@, told: log(old(events)@), any: *old(any_performed) }),
        ),
{
    let ghost s = Sweep { game: state@, told: log(events@), any: *any_performed };
    let ids = find_finished_sagas(state, events);
    let mut i: usize = 0;
    while i < ids.len()
        invariant
            i <= ids@.len(),
            (Sweep { game: state@, told: log(events@), any: *any_performed }) == all_sacrificed(
                s,
                ids@,
                i as nat,
            ),
        decreases ids.len() - i,
    {
        let id = ids[i];
        let owner = match state.object(id) {
            Some(o) => o.owner,
            None => PlayerId(0),
        };
        emit(events, GameEvent::PermanentSacrificed { object_id: id, player_id: owner });
        move_to_zone(state, id, Zone::Graveyard, events);
        *any_performed = true;
        i += 1;
    }
}

/// The counters of which there are any.
pub open spec fn positive(m: Map<CounterKind, u32>) -> Map<CounterKind, u32> {
    Map::new(|k: CounterKind| m.dom().contains(k) && m[k] > 0, |k: CounterKind| m[k])
}

fn keep_positive(t: &Table<CounterType, u32>) -> (r: Table<CounterType, u32>)
    ensures
        r@ == positive(t@),
{
    let ghost order = t.order();
    proof {
        t.lemma_order();
    }
    let mut out: Table<CounterType, u32> = Table::new();
    let mut i: usize = 0;
    while i < t.len()
        invariant
            i <= order.len(),
            order == t.order(),
            order.len() == t.seq().len(),
            forall|k: CounterKind| #[trigger]
                t@.dom().contains(k) <==> exists|i: int|
                    0 <= i < order.len() && #[trigger] order[i] == k,
            forall|k: CounterKind| #[trigger]
                out@.dom().contains(k) ==> t@.dom().contains(k) && t@[k] > 0 && out@[k] == t@[k],
            forall|j: int|
                0 <= j < i && t@[#[trigger] order[j]] > 0 ==> out@.dom().contains(order[j]),
        decreases order.len() - i,
    {
        let key = t.key_at(i).clone();
        assert(order[i as int] == key@);
        assert(t@.dom().contains(key@));
        let n: u32 = count_of_key(t, &key);
        if n > 0 {
            out.insert(key, n);
        }
        i += 1;
    }
    assert forall|k: CounterKind| #[trigger] positive(t@).dom().contains(k) implies out@.dom().contains(
    k) by {
        let j = choose|j: int| 0 <= j < order.len() && #[trigger] order[j] == k;
        assert(t@[order[j]] > 0);
    }
    assert(out@ =~= positive(t@));
    out
}

/// The smaller of two numbers.
pub open spec fn smaller(a: u32, b: u32) -> u32 {
    if a <= b {
        a
    } else {
        b
    }
}

/// The counters of an object without pairs of +1/+1 and -1/-1.
pub open spec fn without_pairs(m: Map<CounterKind, u32>) -> Map<CounterKind, u32> {
    let plus = count_in(m, CounterKind::Plus1Plus1);
    let minus = count_in(m, CounterKind::Minus1Minus1);
    let pairs = smaller(plus, minus);
    if pairs > 0 {
        positive(
            m.insert(CounterKind::Plus1Plus1, (plus - pairs) as u32).insert(
                CounterKind::Minus1Minus1,
                (minus - pairs) as u32,
            ),
        )
    } else {
        m
    }
}

/// Whether an object has a pair of +1/+1 and -1/-1 counters.
pub open spec fn has_pair(o: ObjectModel) -> bool {
    count_in(o.counters, CounterKind::Plus1Plus1) > 0 && count_in(
        o.counters,
        CounterKind::Minus1Minus1,
    ) > 0
}

/// The game after pairs of counters on the first `n` of some objects have been removed.
pub open spec fn pairs_removed(s: Sweep, ids: Seq<ObjectId>, n: nat) -> Sweep
    decreases n,
{
    if n == 0 || n > ids.len() {
        s
    } else {
        let t = pairs_removed(s, ids, (n - 1) as nat);
        match object_at(t.game, ids[n - 1]) {
            Some(o) => if has_pair(o) {
                Sweep {
                    game: Game {
                        layers_dirty: true,
                        ..with_object(
                            t.game,
                            ids[n - 1],
                            ObjectModel { counters: without_pairs(o.counters), ..o },
                        )
                    },
                    any: true,
                    ..t
                }
            } else {
                t
            },
            None => t,
        }
    }
}

/// The game after pairs of counters on permanents have been removed.
pub open spec fn counters_checked(s: Sweep) -> Sweep {
    pairs_removed(s, s.game.battlefield, s.game.battlefield.len())
}

fn pair_of(state: &GameState, id: ObjectId) -> (r: bool)
    ensures
        r == (object_at(state@, id) is Some && has_pair(object_at(state@, id)->0)),
{
    match state.object(id) {
        Some(o) => count_of_key(&o.counters, &CounterType::Plus1Plus1) > 0 && count_of_key(
            &o.counters,
            &CounterType::Minus1Minus1,
        ) > 0,
        None => false,
    }
}

fn remove_pairs(state: &mut GameState, id: ObjectId)
    requires
        object_at(old(state)@, id) is Some,
        has_pair(object_at(old(state)@, id)->0),
    ensures
        ({
            let o = object_at(old(state)@, id)->0;
            final(state)@ == (Game {
                layers_dirty: true,
                ..with_object(
                    old(state)@,
                    id,
                    ObjectModel { counters: without_pairs(o.counters), ..o },
                )
            })
        }),
{
    if let Some(o) = state.object_mut(id) {
        let plus: u32 = count_of_key(&o.counters, &CounterType::Plus1Plus1);
        let minus: u32 = count_of_key(&o.counters, &CounterType::Minus1Minus1);
        let pairs: u32 = if plus <= minus {
            plus
        } else {
            minus
        };
        o.counters.insert(CounterType::Plus1Plus1, plus - pairs);
        o.counters.insert(CounterType::Minus1Minus1, minus - pairs);
        o.counters = keep_positive(&o.counters);
    }
    state.layers_dirty = true;
}

fn check_counter_cancellation(state: &mut GameState, any_performed: &mut bool)
    ensures
        forall|told: Seq<EventModel>|
            (Sweep { game: final(state)@, told, any: *final(any_performed) })
                == #[trigger] counters_checked(
                (Sweep { game: old(state)@, told, any: *old(any_performed) }),
            ),
{
    let ghost g = state@;
    let ghost any = *any_performed;
    let ids = crate::targeting::copy_ids(&state.battlefield);
    let mut i: usize = 0;
    while i < ids.len()
        invariant
            i <= ids@.len(),
            forall|told: Seq<EventModel>|
                (Sweep { game: state@, told, any: *any_performed }) == #[trigger] pairs_removed(
                    (Sweep { game: g, told, any }),
                    ids@,
                    i as nat,
                ),
        decreases ids.len() - i,
    {
        let ghost before = state@;
        let ghost done = *any_performed;
        if pair_of(state, ids[i]) {
            remove_pairs(state, ids[i]);
            *any_performed = true;
        }
        i += 1;
        assert forall|told: Seq<EventModel>|
            (Sweep { game: state@, told, any: *any_performed }) == #[trigger] pairs_removed(
                (Sweep { game: g, told, any }),
                ids@,
                i as nat,
            ) by {
            assert((Sweep { game: before, told, any: done }) == pairs_removed(
                (Sweep { game: g, told, any }),
                ids@,
                (i - 1) as nat,
            ));
        }
    }
}

/// Whether an object is a token that is neither on the battlefield nor on the stack.
pub open spec fn is_stray_token(o: ObjectModel) -> bool {
    o.is_token && o.zone != Zone::Battlefield && o.zone != Zone::Stack
}

/// The tokens among the first `n` objects that are neither on the battlefield nor on the stack.
pub open spec fn stray_tokens(g: Game, n: nat) -> Seq<ObjectId>
    decreases n,
{
    if n == 0 || n > g.object_ids.len() {
        Seq::empty()
    } else {
        let front = stray_tokens(g, (n - 1) as nat);
        let id = g.object_ids[n - 1];
        if is_stray_token(g.objects[id]) {
            front.push(id)
        } else {
            front
        }
    }
}

/// The game without an object.
pub open spec fn ceased(g: Game, id: ObjectId, zone: Zone, owner: PlayerId) -> Game {
    let h = taken_out(g, id, zone, owner);
    Game { objects: h.objects.remove(id), object_ids: h.object_ids.filter(unlike(id)), ..h }
}

/// The game after the first `n` of some objects, which lay as in another game, have ceased to
/// exist.
pub open spec fn all_ceased(g: Game, then: Game, ids: Seq<ObjectId>, n: nat) -> Game
    decreases n,
{
    if n == 0 || n > ids.len() {
        g
    } else {
        let id = ids[n - 1];
        ceased(
            all_ceased(g, then, ids, (n - 1) as nat),
            id,
            then.objects[id].zone,
            then.objects[id].owner,
        )
    }
}

/// The game after tokens that are neither on the battlefield nor on the stack have ceased to
/// exist.
pub open spec fn tokens_checked(s: Sweep) -> Sweep {
    let ids = stray_tokens(s.game, s.game.object_ids.len());
    Sweep { game: all_ceased(s.game, s.game, ids, ids.len()), any: s.any || ids.len() > 0, ..s }
}

fn cease(state: &mut GameState, id: ObjectId, zone: Zone, owner: PlayerId)
    ensures
        final(state)@ == ceased(old(state)@, id, zone, owner),
{
    remove_from_zone(state, id, zone, owner);
    let _ = state.objects.remove(&id);
}

/// Where the objects of a list lie and who owns them.
pub open spec fn lying(g: Game, ids: Seq<ObjectId>) -> Seq<(ObjectId, Zone, PlayerId)> {
    Seq::new(ids.len(), |i: int| (ids[i], g.objects[ids[i]].zone, g.objects[ids[i]].owner))
}

fn find_stray_tokens(state: &GameState) -> (r: Vec<(ObjectId, Zone, PlayerId)>)
    ensures
        r@ == lying(state@, stray_tokens(state@, state@.object_ids.len())),
{
    let ghost g = state@;
    let ghost ids = state@.object_ids;
    let mut out: Vec<(ObjectId, Zone, PlayerId)> = Vec::new();
    proof {
        state.objects.lemma_order();
    }
    let mut i: usize = 0;
    while i < state.objects.len()
        invariant
            i <= ids.len(),
            ids == state@.object_ids,
            ids == state.objects.order(),
            ids.len() == state.objects.seq().len(),
            g == state@,
            forall|k: ObjectId| #[trigger]
                state.objects@.dom().contains(k) <==> exists|i: int|
                    0 <= i < ids.len() && #[trigger] ids[i] == k,
            out@ == lying(g, stray_tokens(g, i as nat)),
        decreases ids.len() - i,
    {
        let id = *state.objects.key_at(i);
        assert(ids[i as int] == id);
        assert(state.objects@.dom().contains(id));
        if let Some(o) = state.object(id) {
            if o.is_token && o.zone != Zone::Battlefield && o.zone != Zone::Stack {
                out.push((id, o.zone, o.owner));
            }
        }
        assert(out@ =~= lying(g, stray_tokens(g, (i + 1) as nat)));
        i += 1;
    }
    out
}

fn check_token_cease_to_exist(state: &mut GameState, any_performed: &mut bool)
    ensures
        forall|told: Seq<EventModel>|
            (Sweep { game: final(state)@, told, any: *final(any_performed) })
                == #[trigger] tokens_checked(
                (Sweep { game: old(state)@, told, any: *old(any_performed) }),
            ),
{
    let ghost g = state@;
    let ghost ids = stray_tokens(g, g.object_ids.len());
    let list = find_stray_tokens(state);
    let mut i: usize = 0;
    while i < list.len()
        invariant
            i <= list@.len(),
            list@ == lying(g, ids),
            state@ == all_ceased(g, g, ids, i as nat),
            *any_performed == (*old(any_performed) || i > 0),
        decreases list.len() - i,
    {
        let (id, zone, owner) = list[i];
        assert(list@[i as int] == lying(g, ids)[i as int]);
        cease(state, id, zone, owner);
        *any_performed = true;
        i += 1;
    }
}

/// The first `n` players who control a permanent with "start your engines!" and have no speed.
pub open spec fn starters(g: Game, n: nat) -> Seq<PlayerId>
    decreases n,
{
    if n == 0 || n > g.players.len() {
        Seq::empty()
    } else {
        let front = starters(g, (n - 1) as nat);
        let p = g.players[n - 1];
        if p.speed is None && has_engines(g, p.id) {
            front.push(p.id)
        } else {
            front
        }
    }
}

/// The game after the first `n` of some players have got speed one.
pub open spec fn all_started(s: Sweep, ids: Seq<PlayerId>, n: nat) -> Sweep
    decreases n,
{
    if n == 0 || n > ids.len() {
        s
    } else {
        let t = all_started(s, ids, (n - 1) as nat);
        Sweep {
            game: with_speed(t.game, ids[n - 1], Some(1)),
            told: t.told.push(
                EventModel::SpeedChanged { player_id: ids[n - 1], speed: Some(1) },
            ),
            any: true,
        }
    }
}

/// The game after players who start their engines have got speed one.
pub open spec fn engines_checked(s: Sweep) -> Sweep {
    let ids = starters(s.game, s.game.players.len());
    all_started(s, ids, ids.len())
}

fn find_starters(state: &GameState) -> (r: Vec<PlayerId>)
    ensures
        r@ == starters(state@, state@.players.len()),
{
    let ghost g = state@;
    let mut out: Vec<PlayerId> = Vec::new();
    let mut i: usize = 0;
    while i < state.players.len()
        invariant
            i <= g.players.len(),
            g == state@,
            g.players.len() == state.players@.len(),
            out@ == starters(g, i as nat),
        decreases g.players.len() - i,
    {
        let p = &state.players[i];
        assert(g.players[i as int] == state.players@[i as int]@);
        if p.speed.is_none() && controls_start_your_engines(state, p.id) {
            out.push(p.id);
        }
        i += 1;
    }
    out
}

fn check_start_your_engines(
    state: &mut GameState,
    events: &mut Vec<GameEvent>,
    any_performed: &mut bool,
)
    ensures
        (Sweep { game: final(state)@, told: log(final(events)@), any: *final(any_performed) })
            == engines_checked(
            (Sweep { game: old(state)@, told: log(old(events)@), any: *old(any_performed) }),
        ),
{
    let ghost s = Sweep { game: state@, told: log(events@), any: *any_performed };
    let ids = find_starters(state);
    let mut i: usize = 0;
    while i < ids.len()
        invariant
            i <= ids@.len(),
            (Sweep { game: state@, told: log(events@), any: *any_performed }) == all_started(
                s,
                ids@,
                i as nat,
            ),
        decreases ids.len() - i,
    {
        set_speed(state, ids[i], Some(1), events);
        *any_performed = true;
        i += 1;
    }
}

// ---------------------------------------------------------------------------
// All actions
// ---------------------------------------------------------------------------

/// Whether a game is over.
pub open spec fn is_over(g: Game) -> bool {
    g.waiting_for is GameOver
}

/// What a step makes of a sweep, unless the game is over.
pub open spec fn players_checked(s: Sweep) -> Sweep {
    let a = reason_checked(s, Reason::NoLife);
    if is_over(a.game) {
        a
    } else {
        let b = reason_checked(a, Reason::EmptyLibrary);
        if is_over(b.game) {
            b
        } else {
            let c = reason_checked(b, Reason::Poison);
            if is_over(c.game) {
                c
            } else {
                commander_damage_checked(c)
            }
        }
    }
}

/// The actions about creatures.
pub open spec fn creatures_checked(s: Sweep) -> Sweep {
    lethal_damage_checked(flaw_buried(s, Flaw::ZeroToughness))
}

/// The actions that come after those about players and creatures.
pub open spec fn rest_checked(s: Sweep) -> Sweep {
    let a = Sweep { game: legends_checked(s.game, 0), ..s };
    let b = flaw_buried(a, Flaw::IllegalAura);
    let c = equipment_checked(b);
    let d = flaw_buried(c, Flaw::ZeroLoyalty);
    let e = sagas_checked(d);
    let f = counters_checked(e);
    let h = tokens_checked(f);
    engines_checked(h)
}

/// One check of all actions, and whether the checking ends with it: when the game is over or a
/// player has to choose.
pub open spec fn swept(s: Sweep) -> (Sweep, bool) {
    let a = players_checked(s);
    if is_over(a.game) {
        (a, true)
    } else {
        let b = creatures_checked(a);
        if b.game.pending_replacement is Some {
            (b, true)
        } else {
            (rest_checked(b), false)
        }
    }
}

/// The game after at most `n` checks of all actions, which end when one performs nothing.
pub open spec fn settled(g: Game, told: Seq<EventModel>, n: nat) -> (Game, Seq<EventModel>)
    decreases n,
{
    if n == 0 {
        (g, told)
    } else {
        let (s, is_last) = swept(Sweep { game: g, told, any: false });
        if is_last || !s.any {
            (s.game, s.told)
        } else {
            settled(s.game, s.told, (n - 1) as nat)
        }
    }
}

/// What is told of the first `n` permanents whose power or toughness has changed.
pub open spec fn changes_told(told: Seq<EventModel>, before: Game, after: Game, n: nat) -> Seq<
    EventModel,
>
    decreases n,
{
    if n == 0 || n > before.battlefield.len() {
        told
    } else {
        let front = changes_told(told, before, after, (n - 1) as nat);
        let id = before.battlefield[n - 1];
        match (object_at(before, id), object_at(after, id)) {
            (Some(o), Some(a)) => match (o.power, o.toughness, a.power, a.toughness) {
                (Some(p), Some(t), Some(np), Some(nt)) => if np != p || nt != t {
                    front.push(
                        EventModel::PowerToughnessChanged {
                            object_id: id,
                            power: np,
                            toughness: nt,
                            power_delta: np.wrapping_sub(p),
                            toughness_delta: nt.wrapping_sub(t),
                        },
                    )
                } else {
                    front
                },
                _ => front,
            },
            _ => front,
        }
    }
}

/// The game with power and toughness up to date, and what was told of it.
pub open spec fn brought_up_to_date(g: Game, told: Seq<EventModel>) -> (Game, Seq<EventModel>) {
    if g.layers_dirty {
        let h = layers_evaluated(g);
        (h, changes_told(told, g, h, g.battlefield.len()))
    } else {
        (g, told)
    }
}

/// The game after all state-based actions, and what was told.
pub open spec fn actions_performed(g: Game, told: Seq<EventModel>) -> (Game, Seq<EventModel>) {
    let (h, told) = brought_up_to_date(g, told);
    settled(h, told, MAX_SBA_ITERATIONS as nat)
}

/// The power and toughness of the first `n` of some objects that have both.
pub open spec fn known_pts(g: Game, ids: Seq<ObjectId>, n: nat) -> Seq<(ObjectId, i32, i32)>
    decreases n,
{
    if n == 0 || n > ids.len() {
        Seq::empty()
    } else {
        let front = known_pts(g, ids, (n - 1) as nat);
        match object_at(g, ids[n - 1]) {
            Some(o) => match (o.power, o.toughness) {
                (Some(p), Some(t)) => front.push((ids[n - 1], p, t)),
                _ => front,
            },
            None => front,
        }
    }
}

/// What is told of the first `n` of some objects whose power or toughness is not as noted.
pub open spec fn deltas_told(
    told: Seq<EventModel>,
    pts: Seq<(ObjectId, i32, i32)>,
    after: Game,
    n: nat,
) -> Seq<EventModel>
    decreases n,
{
    if n == 0 || n > pts.len() {
        told
    } else {
        let front = deltas_told(told, pts, after, (n - 1) as nat);
        let (id, p, t) = pts[n - 1];
        match object_at(after, id) {
            Some(a) => match (a.power, a.toughness) {
                (Some(np), Some(nt)) => if np != p || nt != t {
                    front.push(
                        EventModel::PowerToughnessChanged {
                            object_id: id,
                            power: np,
                            toughness: nt,
                            power_delta: np.wrapping_sub(p),
                            toughness_delta: nt.wrapping_sub(t),
                        },
                    )
                } else {
                    front
                },
                _ => front,
            },
            None => front,
        }
    }
}

proof fn lemma_deltas_push(
    told: Seq<EventModel>,
    pts: Seq<(ObjectId, i32, i32)>,
    x: (ObjectId, i32, i32),
    after: Game,
    n: nat,
)
    requires
        n <= pts.len(),
    ensures
        deltas_told(told, pts.push(x), after, n) == deltas_told(told, pts, after, n),
    decreases n,
{
    if n > 0 {
        lemma_deltas_push(told, pts, x, after, (n - 1) as nat);
        assert(pts.push(x)[n - 1] == pts[n - 1]);
    }
}

proof fn lemma_deltas(told: Seq<EventModel>, before: Game, after: Game, n: nat)
    requires
        n <= before.battlefield.len(),
    ensures
        ({
            let pts = known_pts(before, before.battlefield, n);
            deltas_told(told, pts, after, pts.len()) == changes_told(told, before, after, n)
        }),
    decreases n,
{
    if n > 0 {
        lemma_deltas(told, before, after, (n - 1) as nat);
        let front = known_pts(before, before.battlefield, (n - 1) as nat);
        let id = before.battlefield[n - 1];
        match object_at(before, id) {
            Some(o) => match (o.power, o.toughness) {
                (Some(p), Some(t)) => {
                    lemma_deltas_push(told, front, (id, p, t), after, front.len());
                    assert(front.push((id, p, t))[front.len() as int] == (id, p, t));
                },
                _ => {},
            },
            None => {},
        }
    }
}

fn note_pts(state: &GameState) -> (r: Vec<(ObjectId, i32, i32)>)
    ensures
        r@ == known_pts(state@, state@.battlefield, state@.battlefield.len()),
{
    let ghost s = state@.battlefield;
    let mut out: Vec<(ObjectId, i32, i32)> = Vec::new();
    let mut i: usize = 0;
    while i < state.battlefield.len()
        invariant
            i <= s.len(),
            s == state@.battlefield,
            s == state.battlefield@,
            out@ == known_pts(state@, s, i as nat),
        decreases s.len() - i,
    {
        if let Some(o) = state.object(state.battlefield[i]) {
            if let (Some(p), Some(t)) = (o.power, o.toughness) {
                out.push((state.battlefield[i], p, t));
            }
        }
        i += 1;
    }
    out
}

fn tell_deltas(state: &GameState, pts: &Vec<(ObjectId, i32, i32)>, events: &mut Vec<GameEvent>)
    ensures
        log(final(events)@) == deltas_told(log(old(events)@), pts@, state@, pts@.len()),
{
    let ghost told = log(events@);
    let mut i: usize = 0;
    while i < pts.len()
        invariant
            i <= pts@.len(),
            log(events@) == deltas_told(told, pts@, state@, i as nat),
        decreases pts.len() - i,
    {
        let (id, p, t) = pts[i];
        if let Some(a) = state.object(id) {
            if let (Some(np), Some(nt)) = (a.power, a.toughness) {
                if np != p || nt != t {
                    emit(
                        events,
                        GameEvent::PowerToughnessChanged {
                            object_id: id,
                            power: np,
                            toughness: nt,
                            power_delta: np.wrapping_sub(p),
                            toughness_delta: nt.wrapping_sub(t),
                        },
                    );
                }
            }
        }
        i += 1;
    }
}

fn bring_up_to_date(state: &mut GameState, events: &mut Vec<GameEvent>)
    ensures
        (final(state)@, log(final(events)@)) == brought_up_to_date(old(state)@, log(old(events)@)),
{
    if state.layers_dirty {
        let ghost g = state@;
        let ghost told = log(events@);
        let pts = note_pts(state);
        evaluate_layers(state);
        tell_deltas(state, &pts, events);
        proof {
            lemma_deltas(told, g, state@, g.battlefield.len());
        }
    }
}

fn game_is_over(state: &GameState) -> (r: bool)
    ensures
        r == is_over(state@),
{
    matches!(state.waiting_for, WaitingFor::GameOver { .. })
}

fn check_players(state: &mut GameState, events: &mut Vec<GameEvent>, any_performed: &mut bool)
    ensures
        (Sweep { game: final(state)@, told: log(final(events)@), any: *final(any_performed) })
            == players_checked(
            (Sweep { game: old(state)@, told: log(old(events)@), any: *old(any_performed) }),
        ),
{
    check_reason(state, Reason::NoLife, events, any_performed);
    if game_is_over(state) {
        return;
    }
    check_reason(state, Reason::EmptyLibrary, events, any_performed);
    if game_is_over(state) {
        return;
    }
    check_reason(state, Reason::Poison, events, any_performed);
    if game_is_over(state) {
        return;
    }
    check_commander_damage(state, events, any_performed);
}

fn check_rest(state: &mut GameState, events: &mut Vec<GameEvent>, any_performed: &mut bool)
    ensures
        (Sweep { game: final(state)@, told: log(final(events)@), any: *final(any_performed) })
            == rest_checked(
            (Sweep { game: old(state)@, told: log(old(events)@), any: *old(any_performed) }),
        ),
{
    check_legend_rule(state);
    bury_flawed(state, Flaw::IllegalAura, events, any_performed);
    check_unattached_equipment(state, any_performed);
    bury_flawed(state, Flaw::ZeroLoyalty, events, any_performed);
    check_saga_sacrifice(state, events, any_performed);
    check_counter_cancellation(state, any_performed);
    check_token_cease_to_exist(state, any_performed);
    check_start_your_engines(state, events, any_performed);
}

fn sweep(state: &mut GameState, events: &mut Vec<GameEvent>, any_performed: &mut bool) -> (r: bool)
    ensures
        (
            Sweep { game: final(state)@, told: log(final(events)@), any: *final(any_performed) },
            r,
        ) == swept(
            (Sweep { game: old(state)@, told: log(old(events)@), any: *old(any_performed) }),
        ),
{
    check_players(state, events, any_performed);
    if game_is_over(state) {
        return true;
    }
    bury_flawed(state, Flaw::ZeroToughness, events, any_performed);
    check_lethal_damage(state, events, any_performed);
    if state.pending_replacement.is_some() {
        return true;
    }
    check_rest(state, events, any_performed);
    false
}

/// Performs state-based actions: all that apply are performed, and again, until none applies, the
/// game is over, a player has to choose, or the limit is reached.
pub fn check_state_based_actions(state: &mut GameState, events: &mut Vec<GameEvent>)
    ensures
        (final(state)@, log(final(events)@)) == actions_performed(old(state)@, log(old(events)@)),
{
    bring_up_to_date(state, events);
    let ghost g = state@;
    let ghost told = log(events@);
    let mut n: u32 = MAX_SBA_ITERATIONS;
    while n > 0
        invariant
            n <= MAX_SBA_ITERATIONS,
            (g, told) == brought_up_to_date(old(state)@, log(old(events)@)),
            settled(g, told, MAX_SBA_ITERATIONS as nat) == settled(
                state@,
                log(events@),
                n as nat,
            ),
        decreases n,
    {
        let mut any_performed: bool = false;
        let is_last = sweep(state, events, &mut any_performed);
        if is_last || !any_performed {
            return;
        }
        n -= 1;
    }
}

// ---------------------------------------------------------------------------
// Laws
// ---------------------------------------------------------------------------

/// Pairs of counters cancel out: no pair is left, and the difference stays.
pub proof fn pairs_of_counters_cancel_out(m: Map<CounterKind, u32>)
    ensures
        count_in(without_pairs(m), CounterKind::Plus1Plus1) == 0 || count_in(
            without_pairs(m),
            CounterKind::Minus1Minus1,
        ) == 0,
        count_in(without_pairs(m), CounterKind::Plus1Plus1) - count_in(
            without_pairs(m),
            CounterKind::Minus1Minus1,
        ) == count_in(m, CounterKind::Plus1Plus1) - count_in(m, CounterKind::Minus1Minus1),
        forall|k: CounterKind|
            k != CounterKind::Plus1Plus1 && k != CounterKind::Minus1Minus1 ==> count_in(
                without_pairs(m),
                k,
            ) == #[trigger] count_in(m, k),
{
}

/// A creature that is indestructible is not destroyed by damage, one without toughness is not
/// saved by that.
pub proof fn indestructible_creatures_survive_damage(g: Game, o: ObjectModel)
    requires
        has_kind(o.keywords, KeywordKind::Indestructible),
    ensures
        !has_flaw(g, o, Flaw::LethalDamage),
        o.card_types.core_types.contains(CoreType::Creature) && o.toughness == Some(0i32)
            ==> has_flaw(g, o, Flaw::ZeroToughness),
{
}

proof fn lemma_protected(g: Game, why: Reason, p: PlayerId, n: nat)
    requires
        cannot_lose(g, p),
    ensures
        !losers(g, why, n).contains(p),
    decreases n,
{
    if 0 < n <= g.players.len() {
        lemma_protected(g, why, p, (n - 1) as nat);
        let front = losers(g, why, (n - 1) as nat);
        let all = losers(g, why, n);
        if all.contains(p) {
            let i = choose|i: int| 0 <= i < all.len() && all[i] == p;
            if i < front.len() {
                assert(front[i] == p);
            }
        }
    }
}

/// A player who cannot lose is not among those who lose, whatever the reason.
pub proof fn protected_players_do_not_lose(g: Game, why: Reason, p: PlayerId)
    requires
        cannot_lose(g, p),
    ensures
        !losers(g, why, g.players.len()).contains(p),
{
    lemma_protected(g, why, p, g.players.len());
}

/// Whether no state-based action concerns a player.
pub open spec fn is_player_at_rest(g: Game, p: PlayerModel) -> bool {
    &&& forall|why: Reason| #[trigger] has_reason(p, why) ==> cannot_lose(g, p.id)
    &&& legend_choice(g, p.id) is None
    &&& p.speed is None ==> !has_engines(g, p.id)
}

/// Whether no state-based action concerns a permanent.
pub open spec fn is_permanent_at_rest(g: Game, told: Seq<EventModel>, id: ObjectId) -> bool {
    &&& forall|flaw: Flaw| !(#[trigger] flawed(g, flaw))(id)
    &&& !finished_saga(g, told)(id)
    &&& object_at(g, id) is Some ==> !has_pair(object_at(g, id)->0)
}

/// Whether an entry of commander damage defeats nobody any more.
pub open spec fn is_damage_at_rest(g: Game, entry: CommanderDamageEntry) -> bool {
    g.format_config.commander_damage_threshold is Some && entry.damage
        >= g.format_config.commander_damage_threshold->0 ==> g.eliminated_players.contains(
        entry.player,
    ) || cannot_lose(g, entry.player)
}

/// Whether there is nothing for state-based actions to do.
pub open spec fn is_at_rest(g: Game, told: Seq<EventModel>) -> bool {
    &&& !g.layers_dirty
    &&& forall|i: int| 0 <= i < g.players.len() ==> is_player_at_rest(g, #[trigger] g.players[i])
    &&& forall|i: int|
        0 <= i < g.commander_damage.len() ==> is_damage_at_rest(g, #[trigger] g.commander_damage[i])
    &&& forall|i: int|
        0 <= i < g.battlefield.len() ==> is_permanent_at_rest(g, told, #[trigger] g.battlefield[i])
    &&& forall|i: int|
        0 <= i < g.object_ids.len() ==> !is_stray_token(g.objects[#[trigger] g.object_ids[i]])
}

proof fn lemma_no_losers(g: Game, told: Seq<EventModel>, why: Reason, n: nat)
    requires
        is_at_rest(g, told),
    ensures
        losers(g, why, n) == Seq::<PlayerId>::empty(),
    decreases n,
{
    if 0 < n <= g.players.len() {
        lemma_no_losers(g, told, why, (n - 1) as nat);
        assert(is_player_at_rest(g, g.players[n - 1]));
    }
}

proof fn lemma_no_starters(g: Game, told: Seq<EventModel>, n: nat)
    requires
        is_at_rest(g, told),
    ensures
        starters(g, n) == Seq::<PlayerId>::empty(),
    decreases n,
{
    if 0 < n <= g.players.len() {
        lemma_no_starters(g, told, (n - 1) as nat);
        assert(is_player_at_rest(g, g.players[n - 1]));
    }
}

proof fn lemma_nobody_defeated(g: Game, told: Seq<EventModel>, n: nat)
    requires
        is_at_rest(g, told),
        g.format_config.commander_damage_threshold is Some,
    ensures
        defeated(g, g.format_config.commander_damage_threshold->0 as u32, n) == Seq::<
            PlayerId,
        >::empty(),
    decreases n,
{
    if 0 < n <= g.commander_damage.len() {
        lemma_nobody_defeated(g, told, (n - 1) as nat);
        assert(is_damage_at_rest(g, g.commander_damage[n - 1]));
    }
}

proof fn lemma_no_legends(g: Game, told: Seq<EventModel>, from: int)
    requires
        is_at_rest(g, told),
    ensures
        legends_checked(g, from) == g,
    decreases g.players.len() - from,
{
    if 0 <= from < g.players.len() {
        assert(is_player_at_rest(g, g.players[from]));
        lemma_no_legends(g, told, from + 1);
    }
}

proof fn lemma_no_pairs(s: Sweep, n: nat)
    requires
        is_at_rest(s.game, s.told),
    ensures
        pairs_removed(s, s.game.battlefield, n) == s,
    decreases n,
{
    if 0 < n <= s.game.battlefield.len() {
        lemma_no_pairs(s, (n - 1) as nat);
        assert(is_permanent_at_rest(s.game, s.told, s.game.battlefield[n - 1]));
    }
}

proof fn lemma_no_stray_tokens(g: Game, told: Seq<EventModel>, n: nat)
    requires
        is_at_rest(g, told),
    ensures
        stray_tokens(g, n) == Seq::<ObjectId>::empty(),
    decreases n,
{
    if 0 < n <= g.object_ids.len() {
        lemma_no_stray_tokens(g, told, (n - 1) as nat);
        assert(!is_stray_token(g.objects[g.object_ids[n - 1]]));
    }
}

proof fn lemma_no_flaws(g: Game, told: Seq<EventModel>, flaw: Flaw)
    requires
        is_at_rest(g, told),
    ensures
        g.battlefield.filter(flawed(g, flaw)) == Seq::<ObjectId>::empty(),
{
    let p = flawed(g, flaw);
    assert forall|i: int| 0 <= i < g.battlefield.len() implies !p(#[trigger] g.battlefield[i]) by {
        assert(is_permanent_at_rest(g, told, g.battlefield[i]));
        assert(!flawed(g, flaw)(g.battlefield[i]));
    }
    lemma_filter_nothing(g.battlefield, p);
}

proof fn lemma_sweep_at_rest(s: Sweep)
    requires
        is_at_rest(s.game, s.told),
    ensures
        swept(s).0 == s,
{
    let g = s.game;
    lemma_no_losers(g, s.told, Reason::NoLife, g.players.len());
    lemma_no_losers(g, s.told, Reason::EmptyLibrary, g.players.len());
    lemma_no_losers(g, s.told, Reason::Poison, g.players.len());
    if g.format_config.commander_damage_threshold is Some {
        lemma_nobody_defeated(g, s.told, g.commander_damage.len());
    }
    assert(players_checked(s) == s);
    lemma_no_flaws(g, s.told, Flaw::ZeroToughness);
    lemma_no_flaws(g, s.told, Flaw::LethalDamage);
    assert(creatures_checked(s) == s);
    lemma_no_legends(g, s.told, 0);
    lemma_no_flaws(g, s.told, Flaw::IllegalAura);
    lemma_no_flaws(g, s.told, Flaw::IllegalEquipment);
    lemma_no_flaws(g, s.told, Flaw::ZeroLoyalty);
    let p = finished_saga(g, s.told);
    assert forall|i: int| 0 <= i < g.battlefield.len() implies !p(#[trigger] g.battlefield[i]) by {
        assert(is_permanent_at_rest(g, s.told, g.battlefield[i]));
    }
    lemma_filter_nothing(g.battlefield, p);
    lemma_no_pairs(s, g.battlefield.len());
    lemma_no_stray_tokens(g, s.told, g.object_ids.len());
    lemma_no_starters(g, s.told, g.players.len());
    assert(rest_checked(s) == s);
}

/// Where there is nothing to do, state-based actions change nothing and tell nothing.
pub proof fn nothing_happens_to_a_game_at_rest(g: Game, told: Seq<EventModel>)
    requires
        is_at_rest(g, told),
    ensures
        actions_performed(g, told) == (g, told),
{
    lemma_sweep_at_rest(Sweep { game: g, told, any: false });
}

} // verus!
