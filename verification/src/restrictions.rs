//! When spells may be cast and abilities activated, and the history that this depends on.

use std::sync::Arc;
use vstd::prelude::*;
use crate::ability::{AbilityCost, AbilityDefinition, AbilityKind};
use crate::cards::{
    copy_colors, copy_keywords, has_core_type, has_kind, CoreType, Keyword, KeywordKind, Phase,
    Zone,
};
use crate::conditions::{contains_subtype, has_subtype, normalized, spells_of, text_holds};
use crate::errors::{forbid, forbidden, EngineError};
use crate::ids::{ObjectId, PlayerId};
use crate::keyed::{Key, Table};
use crate::mana::{exact_mana_value, mana_value_of, shards_value, ManaCost, ManaCostShard};
use crate::object::{
    ActivationRestriction, CastingRestriction, GameObject, ObjectModel, SpellCastingOption,
    SpellCastingOptionKind,
};
use crate::seqs::{first_where, lemma_first_where, lemma_first_where_none};
use crate::state::{
    count_in, count_of_key, object_at, Game, GameState, SpellCastRecord, SpellHistory,
    SpellRecordModel,
};
use crate::text::{decimal, push_number, quote, quoted};

pub use crate::conditions::evaluate_condition_text;

verus! {

broadcast use crate::views::group_views;

// ---------------------------------------------------------------------------
// Timing
// ---------------------------------------------------------------------------

/// Whether it is a main phase.
pub open spec fn is_main(phase: Phase) -> bool {
    phase == Phase::PreCombatMain || phase == Phase::PostCombatMain
}

/// Whether a player may do what can be done at the speed of a sorcery.
pub open spec fn sorcery_window(g: Game, p: PlayerId) -> bool {
    is_main(g.phase) && g.stack.len() == 0 && g.active_player == p
}

/// Whether attackers are still to be declared and the active player has priority.
pub open spec fn before_attackers(g: Game) -> bool {
    g.active_player == g.priority_player && (g.phase == Phase::PreCombatMain || g.phase
        == Phase::BeginCombat)
}

/// Whether it is a step of combat.
pub open spec fn in_combat(phase: Phase) -> bool {
    phase == Phase::BeginCombat || phase == Phase::DeclareAttackers || phase
        == Phase::DeclareBlockers || phase == Phase::CombatDamage || phase == Phase::EndCombat
}

/// Whether it is a step of combat before damage.
pub open spec fn before_damage(phase: Phase) -> bool {
    phase == Phase::BeginCombat || phase == Phase::DeclareAttackers || phase
        == Phase::DeclareBlockers
}

fn is_main_phase(phase: Phase) -> (r: bool)
    ensures
        r == is_main(phase),
{
    matches!(phase, Phase::PreCombatMain | Phase::PostCombatMain)
}

fn is_sorcery_speed_window(state: &GameState, player: PlayerId) -> (r: bool)
    ensures
        r == sorcery_window(state@, player),
{
    is_main_phase(state.phase) && state.stack.len() == 0 && state.active_player == player
}

fn is_before_attackers_declared(state: &GameState) -> (r: bool)
    ensures
        r == before_attackers(state@),
{
    state.active_player == state.priority_player && matches!(
        state.phase,
        Phase::PreCombatMain | Phase::BeginCombat
    )
}

fn is_combat_phase(phase: Phase) -> (r: bool)
    ensures
        r == in_combat(phase),
{
    matches!(
        phase,
        Phase::BeginCombat
            | Phase::DeclareAttackers
            | Phase::DeclareBlockers
            | Phase::CombatDamage
            | Phase::EndCombat
    )
}

fn is_before_combat_damage(phase: Phase) -> (r: bool)
    ensures
        r == before_damage(phase),
{
    matches!(phase, Phase::BeginCombat | Phase::DeclareAttackers | Phase::DeclareBlockers)
}

/// Whether a spell is cast at the speed of an instant.
pub open spec fn instant_speed(o: ObjectModel, allow_flash_timing: bool) -> bool {
    allow_flash_timing || o.card_types.core_types.contains(CoreType::Instant) || has_kind(
        o.keywords,
        KeywordKind::Flash,
    )
}

/// The reason why a spell cannot be cast now, if there is one.
pub open spec fn timing_refusal(
    g: Game,
    p: PlayerId,
    o: ObjectModel,
    kind: AbilityKind,
    allow_flash_timing: bool,
) -> Option<Seq<char>> {
    if instant_speed(o, allow_flash_timing) || kind != AbilityKind::Spell {
        None
    } else if !is_main(g.phase) {
        Some("Sorcery-speed spells can only be cast during main phases"@)
    } else if g.stack.len() != 0 {
        Some("Sorcery-speed spells can only be cast when the stack is empty"@)
    } else if g.active_player != p {
        Some("Sorcery-speed spells can only be cast by the active player"@)
    } else {
        None
    }
}

/// Whether a spell may be cast now.
pub fn check_spell_timing(
    state: &GameState,
    player: PlayerId,
    obj: &GameObject,
    ability_def: &AbilityDefinition,
    allow_flash_timing: bool,
) -> (r: Result<(), EngineError>)
    ensures
        match timing_refusal(state@, player, obj@, ability_def.kind, allow_flash_timing) {
            None => r is Ok,
            Some(text) => forbidden(r, text),
        },
{
    let at_instant_speed = allow_flash_timing || has_core_type(
        &obj.card_types.core_types,
        CoreType::Instant,
    ) || obj.has_keyword(&Keyword::Flash);
    if !at_instant_speed && ability_def.kind == AbilityKind::Spell {
        if !is_main_phase(state.phase) {
            return forbid("Sorcery-speed spells can only be cast during main phases");
        }
        if state.stack.len() != 0 {
            return forbid("Sorcery-speed spells can only be cast when the stack is empty");
        }
        if state.active_player != player {
            return forbid("Sorcery-speed spells can only be cast by the active player");
        }
    }
    Ok(())
}

/// A sorcery cast at its own time is not refused, whoever holds the card.
pub proof fn sorcery_window_allows_every_spell(
    g: Game,
    p: PlayerId,
    o: ObjectModel,
    kind: AbilityKind,
    flash: bool,
)
    requires
        sorcery_window(g, p),
    ensures
        timing_refusal(g, p, o, kind, flash) is None,
{
}

/// What an option to cast a spell as though it had flash costs, if it can be used.
pub open spec fn flash_option(
    g: Game,
    p: PlayerId,
    source: ObjectId,
    option: SpellCastingOption,
) -> Option<ManaCost> {
    if option.kind != SpellCastingOptionKind::AsThoughHadFlash {
        None
    } else if option.condition is Some && !text_holds(
        g,
        p,
        source,
        normalized(option.condition->0@),
    ) {
        None
    } else {
        match option.cost {
            None => Some(ManaCost::NoCost),
            Some(AbilityCost::Mana { cost }) => Some(cost),
            _ => None,
        }
    }
}

/// What the first option from a place on costs that lets a spell be cast as though it had flash.
pub open spec fn flash_cost_from(
    g: Game,
    p: PlayerId,
    source: ObjectId,
    options: Seq<SpellCastingOption>,
    i: int,
) -> Option<ManaCost>
    decreases options.len() - i,
{
    if i < 0 || i >= options.len() {
        None
    } else {
        match flash_option(g, p, source, options[i]) {
            Some(c) => Some(c),
            None => flash_cost_from(g, p, source, options, i + 1),
        }
    }
}

fn flash_option_cost(state: &GameState, p: PlayerId, source: ObjectId, option: &SpellCastingOption) -> (r:
    Option<ManaCost>)
    ensures
        r == flash_option(state@, p, source, *option),
{
    if option.kind != SpellCastingOptionKind::AsThoughHadFlash {
        return None;
    }
    if let Some(text) = &option.condition {
        if !evaluate_condition_text(state, p, source, text.as_str()) {
            return None;
        }
    }
    match &option.cost {
        None => Some(ManaCost::NoCost),
        Some(AbilityCost::Mana { cost }) => Some(cost.clone()),
        _ => None,
    }
}

/// What it costs to cast a spell as though it had flash, if its card offers that.
pub fn flash_timing_cost(state: &GameState, player: PlayerId, obj: &GameObject) -> (r: Option<
    ManaCost,
>)
    ensures
        r == flash_cost_from(state@, player, obj@.id, obj@.casting_options, 0),
{
    let ghost options = obj.casting_options@;
    let mut i: usize = 0;
    while i < obj.casting_options.len()
        invariant
            i <= options.len(),
            options == obj.casting_options@,
            flash_cost_from(state@, player, obj.id, options, 0) == flash_cost_from(
                state@,
                player,
                obj.id,
                options,
                i as int,
            ),
        decreases options.len() - i,
    {
        let found = flash_option_cost(state, player, obj.id, &obj.casting_options[i]);
        if found.is_some() {
            return found;
        }
        i += 1;
    }
    None
}

// ---------------------------------------------------------------------------
// Costs
// ---------------------------------------------------------------------------

/// The generic mana of a cost.
pub open spec fn generic_of(cost: ManaCost) -> u32 {
    match cost {
        ManaCost::Cost { generic, .. } => generic,
        _ => 0,
    }
}

/// The symbols of a cost.
pub open spec fn shards_of(cost: ManaCost) -> Seq<ManaCostShard> {
    match cost {
        ManaCost::Cost { shards, .. } => shards@,
        _ => Seq::empty(),
    }
}

/// Whether a cost is one cost paid on top of another.
pub open spec fn is_sum(base: ManaCost, extra: ManaCost, sum: ManaCost) -> bool {
    match (base, extra) {
        (ManaCost::Cost { .. }, ManaCost::Cost { .. }) => sum is Cost && shards_of(sum)
            == shards_of(base) + shards_of(extra) && generic_of(sum) == generic_of(base)
            + generic_of(extra),
        (ManaCost::Cost { .. }, _) => sum == base,
        (_, _) => sum == extra,
    }
}

/// One cost paid on top of another.
pub fn add_mana_cost(base: &ManaCost, extra: &ManaCost) -> (r: ManaCost)
    requires
        generic_of(*base) + generic_of(*extra) <= u32::MAX,
    ensures
        is_sum(*base, *extra, r),
{
    match (base, extra) {
        (
            ManaCost::Cost { shards: a, generic: x },
            ManaCost::Cost { shards: b, generic: y },
        ) => {
            let mut shards: Vec<ManaCostShard> = Vec::new();
            let mut i: usize = 0;
            assert(a@.take(0) =~= Seq::empty());
            while i < a.len()
                invariant
                    i <= a@.len(),
                    shards@ == a@.take(i as int),
                decreases a.len() - i,
            {
                shards.push(a[i]);
                assert(a@.take(i as int).push(a@[i as int]) =~= a@.take(i + 1));
                i += 1;
            }
            assert(a@.take(i as int) =~= a@);
            let mut j: usize = 0;
            assert(a@ + b@.take(0) =~= a@);
            while j < b.len()
                invariant
                    j <= b@.len(),
                    shards@ == a@ + b@.take(j as int),
                decreases b.len() - j,
            {
                shards.push(b[j]);
                assert((a@ + b@.take(j as int)).push(b@[j as int]) =~= a@ + b@.take(j + 1));
                j += 1;
            }
            assert(b@.take(j as int) =~= b@);
            ManaCost::Cost { shards: Arc::new(shards), generic: *x + *y }
        },
        (ManaCost::Cost { .. }, _) => base.clone(),
        (_, _) => extra.clone(),
    }
}

proof fn lemma_shards_value_prefix(a: Seq<ManaCostShard>, b: Seq<ManaCostShard>, n: nat)
    requires
        n <= a.len(),
    ensures
        shards_value(a + b, n) == shards_value(a, n),
    decreases n,
{
    if n > 0 {
        lemma_shards_value_prefix(a, b, (n - 1) as nat);
        assert((a + b)[n - 1] == a[n - 1]);
    }
}

proof fn lemma_shards_value_join(a: Seq<ManaCostShard>, b: Seq<ManaCostShard>, n: nat)
    requires
        n <= b.len(),
    ensures
        shards_value(a + b, a.len() + n) == shards_value(a, a.len()) + shards_value(b, n),
    decreases n,
{
    if n == 0 {
        lemma_shards_value_prefix(a, b, a.len());
    } else {
        lemma_shards_value_join(a, b, (n - 1) as nat);
        assert((a + b)[a.len() + n - 1] == b[n - 1]);
    }
}

/// The mana value of a sum of costs is the sum of their mana values.
pub proof fn mana_values_add_up(base: ManaCost, extra: ManaCost, sum: ManaCost)
    requires
        is_sum(base, extra, sum),
    ensures
        exact_mana_value(sum) == exact_mana_value(base) + exact_mana_value(extra),
{
    if base is Cost && extra is Cost {
        lemma_shards_value_join(shards_of(base), shards_of(extra), shards_of(extra).len());
    }
}

// ---------------------------------------------------------------------------
// History
// ---------------------------------------------------------------------------

/// One more, but no more than fits.
pub open spec fn one_more(n: u32) -> u32 {
    if n == u32::MAX {
        n
    } else {
        (n + 1) as u32
    }
}

/// The map with one more for a key.
pub open spec fn counted<K>(m: Map<K, u32>, k: K) -> Map<K, u32> {
    m.insert(k, one_more(count_in(m, k)))
}

/// Counts one more for a key.
pub fn count_one<K: Key>(t: &mut Table<K, u32>, k: K)
    ensures
        final(t)@ == counted(old(t)@, k@),
{
    let n: u32 = count_of_key(t, &k);
    t.insert(k, n.saturating_add(1));
}

/// Whether a cost has an X in it.
pub open spec fn has_x(cost: ManaCost) -> bool {
    shards_of(cost).contains(ManaCostShard::X)
}

fn cost_has_x(cost: &ManaCost) -> (r: bool)
    ensures
        r == has_x(*cost),
{
    match cost {
        ManaCost::Cost { shards, .. } => {
            let mut i: usize = 0;
            while i < shards.len()
                invariant
                    i <= shards@.len(),
                    shards_of(*cost) == shards@,
                    forall|j: int| 0 <= j < i ==> #[trigger] shards@[j] != ManaCostShard::X,
                decreases shards.len() - i,
            {
                if shards[i] == ManaCostShard::X {
                    assert(shards_of(*cost)[i as int] == ManaCostShard::X);
                    return true;
                }
                i += 1;
            }
            false
        },
        _ => false,
    }
}

/// What is kept of a spell that is cast.
pub open spec fn spell_record(o: ObjectModel) -> SpellRecordModel {
    SpellRecordModel {
        core_types: o.card_types.core_types,
        supertypes: o.card_types.supertypes,
        subtypes: o.card_types.subtypes,
        keywords: o.keywords,
        colors: o.color,
        mana_value: mana_value_of(o.mana_cost),
        has_x_in_cost: has_x(o.mana_cost),
    }
}

/// The game after a player has cast a spell.
pub open spec fn spell_cast(g: Game, p: PlayerId, o: ObjectModel) -> Game {
    Game {
        spells_cast_this_turn: if g.spells_cast_this_turn == u8::MAX {
            u8::MAX
        } else {
            (g.spells_cast_this_turn + 1) as u8
        },
        spells_cast_this_game: counted(g.spells_cast_this_game, p),
        spells_cast_this_turn_by_player: g.spells_cast_this_turn_by_player.insert(
            p,
            spells_of(g, p).push(spell_record(o)),
        ),
        ..g
    }
}

/// Records that a player cast a spell.
pub fn record_spell_cast(state: &mut GameState, player: PlayerId, obj: &GameObject)
    ensures
        final(state)@ == spell_cast(old(state)@, player, obj@),
{
    state.spells_cast_this_turn = state.spells_cast_this_turn.saturating_add(1);
    count_one(&mut state.spells_cast_this_game, player);
    let types = obj.card_types.clone();
    let record = SpellCastRecord {
        core_types: types.core_types,
        supertypes: types.supertypes,
        subtypes: types.subtypes,
        keywords: copy_keywords(&obj.keywords),
        colors: copy_colors(&obj.color),
        mana_value: obj.mana_cost.mana_value(),
        has_x_in_cost: cost_has_x(&obj.mana_cost),
    };
    if state.spells_cast_this_turn_by_player.contains_key(&player) {
        if let Some(history) = state.spells_cast_this_turn_by_player.get_mut(&player) {
            history.spells.push(record);
        }
    } else {
        let mut spells: Vec<SpellCastRecord> = Vec::new();
        spells.push(record);
        state.spells_cast_this_turn_by_player.insert(player, SpellHistory { spells });
    }
    assert(state@.spells_cast_this_turn_by_player =~= spell_cast(
        old(state)@,
        player,
        obj@,
    ).spells_cast_this_turn_by_player);
}

/// The game after the active player has declared a number of attackers.
pub open spec fn attackers_declared(g: Game, n: usize) -> Game {
    if n == 0 {
        g
    } else {
        let before = count_in(g.attacking_creatures_this_turn, g.active_player);
        Game {
            players_attacked_this_turn: g.players_attacked_this_turn.insert(g.active_player),
            attacking_creatures_this_turn: g.attacking_creatures_this_turn.insert(
                g.active_player,
                if before + (n as u32) > u32::MAX {
                    u32::MAX
                } else {
                    (before + (n as u32)) as u32
                },
            ),
            ..g
        }
    }
}

/// Records that the active player declared a number of attackers.
pub fn record_attackers_declared(state: &mut GameState, attacker_count: usize)
    ensures
        final(state)@ == attackers_declared(old(state)@, attacker_count),
{
    if attacker_count == 0 {
        return;
    }
    state.players_attacked_this_turn.insert(state.active_player);
    let before: u32 = count_of_key(&state.attacking_creatures_this_turn, &state.active_player);
    state.attacking_creatures_this_turn.insert(
        state.active_player,
        before.saturating_add(#[verifier::truncate] (attacker_count as u32)),
    );
}

/// Records that a player discarded a card.
pub fn record_discard(state: &mut GameState, player: PlayerId)
    ensures
        final(state)@ == (Game {
            players_who_discarded_card_this_turn: old(
                state,
            )@.players_who_discarded_card_this_turn.insert(player),
            ..old(state)@
        }),
{
    state.players_who_discarded_card_this_turn.insert(player);
}

/// The game after a token has been created.
pub open spec fn token_created(g: Game, id: ObjectId) -> Game {
    match object_at(g, id) {
        Some(o) => Game {
            players_who_created_token_this_turn: g.players_who_created_token_this_turn.insert(
                o.controller,
            ),
            ..g
        },
        None => g,
    }
}

/// Records that the controller of a token created it.
pub fn record_token_created(state: &mut GameState, object_id: ObjectId)
    ensures
        final(state)@ == token_created(old(state)@, object_id),
{
    let p = match state.object(object_id) {
        Some(o) => o.controller,
        None => {
            return;
        },
    };
    state.players_who_created_token_this_turn.insert(p);
}

/// The game after a player has sacrificed a permanent.
pub open spec fn sacrificed(g: Game, id: ObjectId, p: PlayerId) -> Game {
    match object_at(g, id) {
        Some(o) => if o.card_types.core_types.contains(CoreType::Artifact) {
            Game {
                players_who_sacrificed_artifact_this_turn:
                    g.players_who_sacrificed_artifact_this_turn.insert(p),
                ..g
            }
        } else {
            g
        },
        None => g,
    }
}

/// Records that a player sacrificed a permanent.
pub fn record_sacrifice(state: &mut GameState, object_id: ObjectId, player: PlayerId)
    ensures
        final(state)@ == sacrificed(old(state)@, object_id, player),
{
    let is_artifact = match state.object(object_id) {
        Some(o) => has_core_type(&o.card_types.core_types, CoreType::Artifact),
        None => false,
    };
    if is_artifact {
        state.players_who_sacrificed_artifact_this_turn.insert(player);
    }
}

/// Whether a creature is an Angel or a Berserker.
pub open spec fn is_angel_or_berserker(o: ObjectModel) -> bool {
    has_subtype(o.card_types.subtypes, "Angel"@) || has_subtype(
        o.card_types.subtypes,
        "Berserker"@,
    )
}

/// The game after an object has entered the battlefield.
pub open spec fn entered(g: Game, id: ObjectId) -> Game {
    match object_at(g, id) {
        Some(o) => if o.zone == Zone::Battlefield {
            let is_creature = o.card_types.core_types.contains(CoreType::Creature);
            Game {
                players_who_had_creature_etb_this_turn: if is_creature {
                    g.players_who_had_creature_etb_this_turn.insert(o.controller)
                } else {
                    g.players_who_had_creature_etb_this_turn
                },
                players_who_had_angel_or_berserker_etb_this_turn: if is_creature
                    && is_angel_or_berserker(o) {
                    g.players_who_had_angel_or_berserker_etb_this_turn.insert(o.controller)
                } else {
                    g.players_who_had_angel_or_berserker_etb_this_turn
                },
                players_who_had_artifact_etb_this_turn: if o.card_types.core_types.contains(
                    CoreType::Artifact,
                ) {
                    g.players_who_had_artifact_etb_this_turn.insert(o.controller)
                } else {
                    g.players_who_had_artifact_etb_this_turn
                },
                ..g
            }
        } else {
            g
        },
        None => g,
    }
}

/// Records that an object entered the battlefield.
pub fn record_battlefield_entry(state: &mut GameState, object_id: ObjectId)
    ensures
        final(state)@ == entered(old(state)@, object_id),
{
    let p;
    let is_creature;
    let is_named;
    let is_artifact;
    match state.object(object_id) {
        Some(o) => {
            if o.zone != Zone::Battlefield {
                return;
            }
            p = o.controller;
            is_creature = has_core_type(&o.card_types.core_types, CoreType::Creature);
            is_named =
            contains_subtype(&o.card_types.subtypes, "Angel") || contains_subtype(
                &o.card_types.subtypes,
                "Berserker",
            );
            is_artifact = has_core_type(&o.card_types.core_types, CoreType::Artifact);
        },
        None => {
            return;
        },
    }
    if is_creature {
        state.players_who_had_creature_etb_this_turn.insert(p);
        if is_named {
            state.players_who_had_angel_or_berserker_etb_this_turn.insert(p);
        }
    }
    if is_artifact {
        state.players_who_had_artifact_etb_this_turn.insert(p);
    }
}

/// The game after an object has left a graveyard or died, but for what its entering records.
pub open spec fn left(g: Game, o: ObjectModel, from: Zone, to: Zone) -> Game {
    Game {
        cards_left_graveyard_this_turn: if from == Zone::Graveyard && to != Zone::Graveyard {
            counted(g.cards_left_graveyard_this_turn, o.owner)
        } else {
            g.cards_left_graveyard_this_turn
        },
        creature_died_this_turn: g.creature_died_this_turn || (from == Zone::Battlefield && to
            == Zone::Graveyard && o.card_types.core_types.contains(CoreType::Creature)),
        ..g
    }
}

/// The game after a move of an object has been recorded.
pub open spec fn zone_change_recorded(g: Game, id: ObjectId, from: Zone, to: Zone) -> Game {
    match object_at(g, id) {
        Some(o) => if to == Zone::Battlefield {
            entered(left(g, o, from, to), id)
        } else {
            left(g, o, from, to)
        },
        None => g,
    }
}

/// Records that an object moved between zones.
pub fn record_zone_change(state: &mut GameState, object_id: ObjectId, from: Zone, to: Zone)
    ensures
        final(state)@ == zone_change_recorded(old(state)@, object_id, from, to),
{
    let owner;
    let is_creature;
    match state.object(object_id) {
        Some(o) => {
            owner = o.owner;
            is_creature = has_core_type(&o.card_types.core_types, CoreType::Creature);
        },
        None => {
            return;
        },
    }
    if from == Zone::Graveyard && to != Zone::Graveyard {
        count_one(&mut state.cards_left_graveyard_this_turn, owner);
    }
    if from == Zone::Battlefield && to == Zone::Graveyard && is_creature {
        state.creature_died_this_turn = true;
    }
    if to == Zone::Battlefield {
        record_battlefield_entry(state, object_id);
    }
}

/// What has been recorded of a turn is not forgotten when another move is recorded.
pub proof fn records_only_grow(g: Game, id: ObjectId, from: Zone, to: Zone, p: PlayerId)
    ensures
        g.creature_died_this_turn ==> zone_change_recorded(g, id, from, to).creature_died_this_turn,
        g.players_who_had_creature_etb_this_turn.contains(p) ==> zone_change_recorded(
            g,
            id,
            from,
            to,
        ).players_who_had_creature_etb_this_turn.contains(p),
        g.players_who_had_artifact_etb_this_turn.contains(p) ==> zone_change_recorded(
            g,
            id,
            from,
            to,
        ).players_who_had_artifact_etb_this_turn.contains(p),
        g.players_who_had_angel_or_berserker_etb_this_turn.contains(p) ==> zone_change_recorded(
            g,
            id,
            from,
            to,
        ).players_who_had_angel_or_berserker_etb_this_turn.contains(p),
        count_in(g.cards_left_graveyard_this_turn, p) <= count_in(
            zone_change_recorded(g, id, from, to).cards_left_graveyard_this_turn,
            p,
        ),
{
}

// ---------------------------------------------------------------------------
// Restrictions
// ---------------------------------------------------------------------------

/// Whether a restriction on casting is met.
pub open spec fn casting_met(g: Game, p: PlayerId, source: ObjectId, r: CastingRestriction) -> bool {
    match r {
        CastingRestriction::AsSorcery => sorcery_window(g, p),
        CastingRestriction::DuringCombat => in_combat(g.phase),
        CastingRestriction::DuringOpponentsTurn => g.active_player != p,
        CastingRestriction::DuringYourTurn => g.active_player == p,
        CastingRestriction::DuringYourUpkeep => g.active_player == p && g.phase == Phase::Upkeep,
        CastingRestriction::DuringOpponentsUpkeep => g.active_player != p && g.phase
            == Phase::Upkeep,
        CastingRestriction::DuringAnyUpkeep => g.phase == Phase::Upkeep,
        CastingRestriction::DuringYourEndStep => g.active_player == p && g.phase == Phase::End,
        CastingRestriction::DuringOpponentsEndStep => g.active_player != p && g.phase == Phase::End,
        CastingRestriction::DeclareAttackersStep => g.phase == Phase::DeclareAttackers,
        CastingRestriction::DeclareBlockersStep => g.phase == Phase::DeclareBlockers,
        CastingRestriction::BeforeAttackersDeclared => before_attackers(g),
        CastingRestriction::BeforeBlockersDeclared => g.phase == Phase::BeginCombat || g.phase
            == Phase::DeclareAttackers,
        CastingRestriction::BeforeCombatDamage => before_damage(g.phase),
        CastingRestriction::AfterCombat => g.phase == Phase::EndCombat || g.phase
            == Phase::PostCombatMain || g.phase == Phase::End || g.phase == Phase::Cleanup,
        CastingRestriction::RequiresCondition { text } => text_holds(
            g,
            p,
            source,
            normalized(text@),
        ),
    }
}

fn casting_restriction_applies(
    state: &GameState,
    player: PlayerId,
    source_id: ObjectId,
    restriction: &CastingRestriction,
) -> (r: bool)
    ensures
        r == casting_met(state@, player, source_id, *restriction),
{
    match restriction {
        CastingRestriction::AsSorcery => is_sorcery_speed_window(state, player),
        CastingRestriction::DuringCombat => is_combat_phase(state.phase),
        CastingRestriction::DuringOpponentsTurn => state.active_player != player,
        CastingRestriction::DuringYourTurn => state.active_player == player,
        CastingRestriction::DuringYourUpkeep => state.active_player == player && state.phase
            == Phase::Upkeep,
        CastingRestriction::DuringOpponentsUpkeep => state.active_player != player && state.phase
            == Phase::Upkeep,
        CastingRestriction::DuringAnyUpkeep => state.phase == Phase::Upkeep,
        CastingRestriction::DuringYourEndStep => state.active_player == player && state.phase
            == Phase::End,
        CastingRestriction::DuringOpponentsEndStep => state.active_player != player && state.phase
            == Phase::End,
        CastingRestriction::DeclareAttackersStep => state.phase == Phase::DeclareAttackers,
        CastingRestriction::DeclareBlockersStep => state.phase == Phase::DeclareBlockers,
        CastingRestriction::BeforeAttackersDeclared => is_before_attackers_declared(state),
        CastingRestriction::BeforeBlockersDeclared => matches!(
            state.phase,
            Phase::BeginCombat | Phase::DeclareAttackers
        ),
        CastingRestriction::BeforeCombatDamage => is_before_combat_damage(state.phase),
        CastingRestriction::AfterCombat => matches!(
            state.phase,
            Phase::EndCombat | Phase::PostCombatMain | Phase::End | Phase::Cleanup
        ),
        CastingRestriction::RequiresCondition { text } => evaluate_condition_text(
            state,
            player,
            source_id,
            text.as_str(),
        ),
    }
}

/// A restriction on casting a spell as it is written, where `quotation` is the text of its condition in
/// quotation marks.
pub open spec fn casting_written(r: CastingRestriction, quotation: Seq<char>) -> Seq<char> {
    match r {
        CastingRestriction::AsSorcery => "AsSorcery"@,
        CastingRestriction::DuringCombat => "DuringCombat"@,
        CastingRestriction::DuringOpponentsTurn => "DuringOpponentsTurn"@,
        CastingRestriction::DuringYourTurn => "DuringYourTurn"@,
        CastingRestriction::DuringYourUpkeep => "DuringYourUpkeep"@,
        CastingRestriction::DuringOpponentsUpkeep => "DuringOpponentsUpkeep"@,
        CastingRestriction::DuringAnyUpkeep => "DuringAnyUpkeep"@,
        CastingRestriction::DuringYourEndStep => "DuringYourEndStep"@,
        CastingRestriction::DuringOpponentsEndStep => "DuringOpponentsEndStep"@,
        CastingRestriction::DeclareAttackersStep => "DeclareAttackersStep"@,
        CastingRestriction::DeclareBlockersStep => "DeclareBlockersStep"@,
        CastingRestriction::BeforeAttackersDeclared => "BeforeAttackersDeclared"@,
        CastingRestriction::BeforeBlockersDeclared => "BeforeBlockersDeclared"@,
        CastingRestriction::BeforeCombatDamage => "BeforeCombatDamage"@,
        CastingRestriction::AfterCombat => "AfterCombat"@,
        CastingRestriction::RequiresCondition { .. } => "RequiresCondition { text: "@ + quotation + " }"@,
    }
}

/// A restriction on casting a spell as it is written, where `quotation` is the text of its condition in
/// quotation marks.
pub fn write_casting_restriction(r: &CastingRestriction, quotation: &str) -> (s: String)
    ensures
        s@ == casting_written(*r, quotation@),
{
    match r {
        CastingRestriction::AsSorcery => "AsSorcery".to_owned(),
        CastingRestriction::DuringCombat => "DuringCombat".to_owned(),
        CastingRestriction::DuringOpponentsTurn => "DuringOpponentsTurn".to_owned(),
        CastingRestriction::DuringYourTurn => "DuringYourTurn".to_owned(),
        CastingRestriction::DuringYourUpkeep => "DuringYourUpkeep".to_owned(),
        CastingRestriction::DuringOpponentsUpkeep => "DuringOpponentsUpkeep".to_owned(),
        CastingRestriction::DuringAnyUpkeep => "DuringAnyUpkeep".to_owned(),
        CastingRestriction::DuringYourEndStep => "DuringYourEndStep".to_owned(),
        CastingRestriction::DuringOpponentsEndStep => "DuringOpponentsEndStep".to_owned(),
        CastingRestriction::DeclareAttackersStep => "DeclareAttackersStep".to_owned(),
        CastingRestriction::DeclareBlockersStep => "DeclareBlockersStep".to_owned(),
        CastingRestriction::BeforeAttackersDeclared => "BeforeAttackersDeclared".to_owned(),
        CastingRestriction::BeforeBlockersDeclared => "BeforeBlockersDeclared".to_owned(),
        CastingRestriction::BeforeCombatDamage => "BeforeCombatDamage".to_owned(),
        CastingRestriction::AfterCombat => "AfterCombat".to_owned(),
        CastingRestriction::RequiresCondition { .. } => {
            let mut s = "RequiresCondition { text: ".to_owned();
            s.append(quotation);
            s.append(" }");
            s
        },
    }
}

/// What is said when a restriction on casting a spell is not met.
pub open spec fn casting_refusal(r: CastingRestriction) -> Seq<char> {
    let quotation = match r {
        CastingRestriction::RequiresCondition { text } => quoted(text@),
        _ => Seq::empty(),
    };
    "Casting restriction not satisfied: "@ + casting_written(r, quotation)
}

fn refuse_casting(r: &CastingRestriction) -> (e: Result<(), EngineError>)
    ensures
        forbidden(e, casting_refusal(*r)),
{
    let quotation = match r {
        CastingRestriction::RequiresCondition { text } => quote(text.as_str()),
        _ => String::new(),
    };
    let written = write_casting_restriction(r, quotation.as_str());
    let mut s = "Casting restriction not satisfied: ".to_owned();
    s.append(written.as_str());
    Err(EngineError::ActionNotAllowed(s))
}

/// Being a restriction on casting a spell that is not met.
pub open spec fn casting_unmet(g: Game, p: PlayerId, source: ObjectId) -> spec_fn(
    CastingRestriction,
) -> bool {
    |r: CastingRestriction| !casting_met(g, p, source, r)
}

/// Refuses to cast a spell if a restriction is not met, naming the first such one.
pub fn check_casting_restrictions(
    state: &GameState,
    player: PlayerId,
    source_id: ObjectId,
    restrictions: &[CastingRestriction],
) -> (r: Result<(), EngineError>)
    ensures
        match first_where(restrictions@, casting_unmet(state@, player, source_id)) {
            Some(i) => forbidden(r, casting_refusal(restrictions@[i])),
            None => r is Ok,
        },
{
    let ghost unmet = casting_unmet(state@, player, source_id);
    let mut i: usize = 0;
    while i < restrictions.len()
        invariant
            i <= restrictions@.len(),
            unmet == casting_unmet(state@, player, source_id),
            forall|j: int| 0 <= j < i ==> !unmet(#[trigger] restrictions@[j]),
        decreases restrictions@.len() - i,
    {
        if !casting_restriction_applies(state, player, source_id, &restrictions[i]) {
            proof {
                lemma_first_where(restrictions@, unmet, i as int);
            }
            return refuse_casting(&restrictions[i]);
        }
        i += 1;
    }
    proof {
        lemma_first_where_none(restrictions@, unmet);
    }
    Ok(())
}

/// Whether a restriction on activating an ability is met.
pub open spec fn activation_met(
    g: Game,
    p: PlayerId,
    source: ObjectId,
    ability: usize,
    r: ActivationRestriction,
) -> bool {
    match r {
        ActivationRestriction::AsSorcery => sorcery_window(g, p),
        ActivationRestriction::AsInstant => true,
        ActivationRestriction::DuringYourTurn => g.active_player == p,
        ActivationRestriction::DuringYourUpkeep => g.active_player == p && g.phase == Phase::Upkeep,
        ActivationRestriction::DuringCombat => in_combat(g.phase),
        ActivationRestriction::BeforeAttackersDeclared => before_attackers(g),
        ActivationRestriction::BeforeCombatDamage => before_damage(g.phase),
        ActivationRestriction::OnlyOnceEachTurn => count_in(
            g.activated_abilities_this_turn,
            (source, ability),
        ) == 0,
        ActivationRestriction::OnlyOnce => count_in(
            g.activated_abilities_this_game,
            (source, ability),
        ) == 0,
        ActivationRestriction::MaxTimesEachTurn { count } => count_in(
            g.activated_abilities_this_turn,
            (source, ability),
        ) < count,
        ActivationRestriction::RequiresCondition { text } => text_holds(
            g,
            p,
            source,
            normalized(text@),
        ),
        ActivationRestriction::IsSolved => object_at(g, source) is Some && object_at(
            g,
            source,
        )->0.case_state is Some && object_at(g, source)->0.case_state->0.is_solved,
        ActivationRestriction::ClassLevelIs { level } => object_at(g, source) is Some && object_at(
            g,
            source,
        )->0.class_level == Some(level),
    }
}

fn activation_restriction_applies(
    state: &GameState,
    player: PlayerId,
    source_id: ObjectId,
    ability_index: usize,
    restriction: &ActivationRestriction,
) -> (r: bool)
    ensures
        r == activation_met(state@, player, source_id, ability_index, *restriction),
{
    let key = (source_id, ability_index);
    match restriction {
        ActivationRestriction::AsSorcery => is_sorcery_speed_window(state, player),
        ActivationRestriction::AsInstant => true,
        ActivationRestriction::DuringYourTurn => state.active_player == player,
        ActivationRestriction::DuringYourUpkeep => state.active_player == player && state.phase
            == Phase::Upkeep,
        ActivationRestriction::DuringCombat => is_combat_phase(state.phase),
        ActivationRestriction::BeforeAttackersDeclared => is_before_attackers_declared(state),
        ActivationRestriction::BeforeCombatDamage => is_before_combat_damage(state.phase),
        ActivationRestriction::OnlyOnceEachTurn => count_of_key(
            &state.activated_abilities_this_turn,
            &key,
        ) == 0,
        ActivationRestriction::OnlyOnce => count_of_key(&state.activated_abilities_this_game, &key)
            == 0,
        ActivationRestriction::MaxTimesEachTurn { count } => count_of_key(
            &state.activated_abilities_this_turn,
            &key,
        ) < *count as u32,
        ActivationRestriction::RequiresCondition { text } => evaluate_condition_text(
            state,
            player,
            source_id,
            text.as_str(),
        ),
        ActivationRestriction::IsSolved => match state.object(source_id) {
            Some(o) => match &o.case_state {
                Some(c) => c.is_solved,
                None => false,
            },
            None => false,
        },
        ActivationRestriction::ClassLevelIs { level } => match state.object(source_id) {
            Some(o) => match o.class_level {
                Some(n) => n == *level,
                None => false,
            },
            None => false,
        },
    }
}

/// A restriction on activating an ability as it is written, where `quotation` is the text of its condition in
/// quotation marks.
pub open spec fn activation_written(r: ActivationRestriction, quotation: Seq<char>) -> Seq<char> {
    match r {
        ActivationRestriction::AsSorcery => "AsSorcery"@,
        ActivationRestriction::AsInstant => "AsInstant"@,
        ActivationRestriction::DuringYourTurn => "DuringYourTurn"@,
        ActivationRestriction::DuringYourUpkeep => "DuringYourUpkeep"@,
        ActivationRestriction::DuringCombat => "DuringCombat"@,
        ActivationRestriction::BeforeAttackersDeclared => "BeforeAttackersDeclared"@,
        ActivationRestriction::BeforeCombatDamage => "BeforeCombatDamage"@,
        ActivationRestriction::OnlyOnceEachTurn => "OnlyOnceEachTurn"@,
        ActivationRestriction::OnlyOnce => "OnlyOnce"@,
        ActivationRestriction::IsSolved => "IsSolved"@,
        ActivationRestriction::MaxTimesEachTurn { count } => "MaxTimesEachTurn { count: "@ + decimal(count as nat) + " }"@,
        ActivationRestriction::ClassLevelIs { level } => "ClassLevelIs { level: "@ + decimal(level as nat) + " }"@,
        ActivationRestriction::RequiresCondition { .. } => "RequiresCondition { text: "@ + quotation + " }"@,
    }
}

/// A restriction on activating an ability as it is written, where `quotation` is the text of its condition in
/// quotation marks.
pub fn write_activation_restriction(r: &ActivationRestriction, quotation: &str) -> (s: String)
    ensures
        s@ == activation_written(*r, quotation@),
{
    match r {
        ActivationRestriction::AsSorcery => "AsSorcery".to_owned(),
        ActivationRestriction::AsInstant => "AsInstant".to_owned(),
        ActivationRestriction::DuringYourTurn => "DuringYourTurn".to_owned(),
        ActivationRestriction::DuringYourUpkeep => "DuringYourUpkeep".to_owned(),
        ActivationRestriction::DuringCombat => "DuringCombat".to_owned(),
        ActivationRestriction::BeforeAttackersDeclared => "BeforeAttackersDeclared".to_owned(),
        ActivationRestriction::BeforeCombatDamage => "BeforeCombatDamage".to_owned(),
        ActivationRestriction::OnlyOnceEachTurn => "OnlyOnceEachTurn".to_owned(),
        ActivationRestriction::OnlyOnce => "OnlyOnce".to_owned(),
        ActivationRestriction::IsSolved => "IsSolved".to_owned(),
        ActivationRestriction::MaxTimesEachTurn { count } => {
            let mut s = "MaxTimesEachTurn { count: ".to_owned();
            push_number(&mut s, *count as u128);
            s.append(" }");
            s
        },
        ActivationRestriction::ClassLevelIs { level } => {
            let mut s = "ClassLevelIs { level: ".to_owned();
            push_number(&mut s, *level as u128);
            s.append(" }");
            s
        },
        ActivationRestriction::RequiresCondition { .. } => {
            let mut s = "RequiresCondition { text: ".to_owned();
            s.append(quotation);
            s.append(" }");
            s
        },
    }
}

/// What is said when a restriction on activating an ability is not met.
pub open spec fn activation_refusal(r: ActivationRestriction) -> Seq<char> {
    let quotation = match r {
        ActivationRestriction::RequiresCondition { text } => quoted(text@),
        _ => Seq::empty(),
    };
    "Activation restriction not satisfied: "@ + activation_written(r, quotation)
}

fn refuse_activation(r: &ActivationRestriction) -> (e: Result<(), EngineError>)
    ensures
        forbidden(e, activation_refusal(*r)),
{
    let quotation = match r {
        ActivationRestriction::RequiresCondition { text } => quote(text.as_str()),
        _ => String::new(),
    };
    let written = write_activation_restriction(r, quotation.as_str());
    let mut s = "Activation restriction not satisfied: ".to_owned();
    s.append(written.as_str());
    Err(EngineError::ActionNotAllowed(s))
}

/// Being a restriction on activating an ability that is not met.
pub open spec fn activation_unmet(g: Game, p: PlayerId, source: ObjectId, ability: usize) -> spec_fn(
    ActivationRestriction,
) -> bool {
    |r: ActivationRestriction| !activation_met(g, p, source, ability, r)
}

/// Refuses to activate an ability if a restriction is not met, naming the first such one.
pub fn check_activation_restrictions(
    state: &GameState,
    player: PlayerId,
    source_id: ObjectId,
    ability_index: usize,
    restrictions: &[ActivationRestriction],
) -> (r: Result<(), EngineError>)
    ensures
        match first_where(
            restrictions@,
            activation_unmet(state@, player, source_id, ability_index),
        ) {
            Some(i) => forbidden(r, activation_refusal(restrictions@[i])),
            None => r is Ok,
        },
{
    let ghost unmet = activation_unmet(state@, player, source_id, ability_index);
    let mut i: usize = 0;
    while i < restrictions.len()
        invariant
            i <= restrictions@.len(),
            unmet == activation_unmet(state@, player, source_id, ability_index),
            forall|j: int| 0 <= j < i ==> !unmet(#[trigger] restrictions@[j]),
        decreases restrictions@.len() - i,
    {
        if !activation_restriction_applies(
            state,
            player,
            source_id,
            ability_index,
            &restrictions[i],
        ) {
            proof {
                lemma_first_where(restrictions@, unmet, i as int);
            }
            return refuse_activation(&restrictions[i]);
        }
        i += 1;
    }
    proof {
        lemma_first_where_none(restrictions@, unmet);
    }
    Ok(())
}

/// The game after an ability has been activated.
pub open spec fn activated(g: Game, source: ObjectId, ability: usize) -> Game {
    Game {
        activated_abilities_this_turn: counted(g.activated_abilities_this_turn, (source, ability)),
        activated_abilities_this_game: counted(g.activated_abilities_this_game, (source, ability)),
        ..g
    }
}

/// Records that an ability was activated.
pub fn record_ability_activation(state: &mut GameState, source_id: ObjectId, ability_index: usize)
    ensures
        final(state)@ == activated(old(state)@, source_id, ability_index),
{
    count_one(&mut state.activated_abilities_this_turn, (source_id, ability_index));
    count_one(&mut state.activated_abilities_this_game, (source_id, ability_index));
}

/// An ability that may be activated only once is refused after it has been activated, whoever
/// controls it then.
pub proof fn activated_once_is_refused(g: Game, p: PlayerId, source: ObjectId, ability: usize)
    ensures
        !activation_met(
            activated(g, source, ability),
            p,
            source,
            ability,
            ActivationRestriction::OnlyOnceEachTurn,
        ),
        !activation_met(
            activated(g, source, ability),
            p,
            source,
            ability,
            ActivationRestriction::OnlyOnce,
        ),
{
}

/// Activating one ability says nothing of how often another was activated.
pub proof fn activations_are_counted_apart(
    g: Game,
    p: PlayerId,
    source: ObjectId,
    ability: usize,
    other_source: ObjectId,
    other_ability: usize,
    count: u8,
)
    requires
        (source, ability) != (other_source, other_ability),
    ensures
        activation_met(
            activated(g, source, ability),
            p,
            other_source,
            other_ability,
            ActivationRestriction::MaxTimesEachTurn { count },
        ) == activation_met(
            g,
            p,
            other_source,
            other_ability,
            ActivationRestriction::MaxTimesEachTurn { count },
        ),
{
}

/// An ability that may be activated a number of times each turn may be activated once less often
/// after it has been activated.
pub proof fn each_activation_counts(
    g: Game,
    p: PlayerId,
    source: ObjectId,
    ability: usize,
    count: u8,
)
    requires
        0 < count,
    ensures
        activation_met(
            activated(g, source, ability),
            p,
            source,
            ability,
            ActivationRestriction::MaxTimesEachTurn { count },
        ) == activation_met(
            g,
            p,
            source,
            ability,
            ActivationRestriction::MaxTimesEachTurn { count: (count - 1) as u8 },
        ),
{
}

} // verus!
