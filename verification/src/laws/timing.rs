//! When spells may be cast and abilities activated, and what is recorded of a turn.

use vstd::prelude::*;
use crate::ability::AbilityKind;
use crate::cards::{CoreType, Keyword, KeywordKind, Zone};
use crate::conditions::{has_subtype, normalized, text_holds};
use crate::ids::{ObjectId, PlayerId};
use crate::mana::{mana_value_of, ManaCost, ManaCostShard};
use crate::object::{ActivationRestriction, CastingRestriction, ObjectModel, SpellCastingOption};
use crate::restrictions::{
    activated, activation_unmet, attackers_declared, casting_unmet, entered, flash_cost_from,
    is_sum, sacrificed, spell_cast, timing_refusal, token_created, zone_change_recorded,
};
use crate::seqs::{first_where, is_first, lemma_first_where_none};
use crate::state::Game;

verus! {

/// Whether it is one of the two main phases.
pub open spec fn main_phase(g: Game) -> bool {
    g.phase is PreCombatMain || g.phase is PostCombatMain
}

/// Whether a player has a main phase of their own and nothing is on the stack.
pub open spec fn may_act_as_sorcery(g: Game, p: PlayerId) -> bool {
    main_phase(g) && g.stack.len() == 0 && g.active_player == p
}

/// Whether it is a step of combat: any from its beginning to its end.
pub open spec fn combat_step(g: Game) -> bool {
    g.phase is BeginCombat || g.phase is DeclareAttackers || g.phase is DeclareBlockers
        || g.phase is CombatDamage || g.phase is EndCombat
}

/// How often an entry of a table was counted.
pub open spec fn times<K>(m: Map<K, u32>, k: K) -> int {
    if m.dom().contains(k) {
        m[k] as int
    } else {
        0
    }
}

/// Whether an ability may be activated now, as far as one restriction goes.
pub open spec fn activation_allowed(
    g: Game,
    p: PlayerId,
    source: ObjectId,
    ability: usize,
    r: ActivationRestriction,
) -> bool {
    match r {
        ActivationRestriction::AsSorcery => may_act_as_sorcery(g, p),
        ActivationRestriction::AsInstant => true,
        ActivationRestriction::DuringYourTurn => g.active_player == p,
        ActivationRestriction::DuringYourUpkeep => g.active_player == p && g.phase is Upkeep,
        ActivationRestriction::DuringCombat => combat_step(g),
        ActivationRestriction::BeforeAttackersDeclared => (g.phase is PreCombatMain
            || g.phase is BeginCombat) && g.priority_player == g.active_player,
        ActivationRestriction::BeforeCombatDamage => combat_step(g) && !(g.phase is CombatDamage)
            && !(g.phase is EndCombat),
        ActivationRestriction::OnlyOnceEachTurn => times(
            g.activated_abilities_this_turn,
            (source, ability),
        ) < 1,
        ActivationRestriction::OnlyOnce => times(
            g.activated_abilities_this_game,
            (source, ability),
        ) < 1,
        ActivationRestriction::MaxTimesEachTurn { count } => times(
            g.activated_abilities_this_turn,
            (source, ability),
        ) < count,
        ActivationRestriction::IsSolved => g.objects.dom().contains(source) && (
        match g.objects[source].case_state {
            Some(c) => c.is_solved,
            None => false,
        }),
        ActivationRestriction::ClassLevelIs { level } => g.objects.dom().contains(source)
            && g.objects[source].class_level == Some(level),
        ActivationRestriction::RequiresCondition { text } => text_holds(
            g,
            p,
            source,
            normalized(text@),
        ),
    }
}

/// Whether a list of restrictions on activating an ability is accepted.
pub open spec fn accepts_activation(
    g: Game,
    p: PlayerId,
    source: ObjectId,
    ability: usize,
    list: Seq<ActivationRestriction>,
) -> bool {
    first_where(list, activation_unmet(g, p, source, ability)) is None
}

/// An ability may be activated exactly when each of its restrictions allows it: one of sorcery
/// speed in a main phase of the player with an empty stack, one of a step in that step, one on the
/// number of activations while there were fewer.
pub proof fn restrictions_on_activation(
    g: Game,
    p: PlayerId,
    source: ObjectId,
    ability: usize,
    list: Seq<ActivationRestriction>,
)
    ensures
        accepts_activation(g, p, source, ability, list) <==> forall|i: int|
            0 <= i < list.len() ==> activation_allowed(g, p, source, ability, #[trigger] list[i]),
{
    let unmet = activation_unmet(g, p, source, ability);
    assert forall|r: ActivationRestriction| #[trigger] unmet(r) == !activation_allowed(
        g,
        p,
        source,
        ability,
        r,
    ) by {}
    if forall|i: int|
        0 <= i < list.len() ==> activation_allowed(g, p, source, ability, #[trigger] list[i]) {
        lemma_first_where_none(list, unmet);
    } else {
        let i = choose|i: int|
            0 <= i < list.len() && !activation_allowed(g, p, source, ability, #[trigger] list[i]);
        lemma_found(list, unmet, i);
    }
}

proof fn lemma_found<T>(s: Seq<T>, p: spec_fn(T) -> bool, k: int)
    requires
        0 <= k < s.len(),
        p(s[k]),
    ensures
        first_where(s, p) is Some,
    decreases k,
{
    if forall|j: int| 0 <= j < k ==> !p(#[trigger] s[j]) {
        assert(is_first(s, p, k));
    } else {
        let j = choose|j: int| 0 <= j < k && p(#[trigger] s[j]);
        lemma_found(s, p, j);
    }
}

/// Whether a spell may be cast now, as far as one restriction goes.
pub open spec fn casting_allowed(
    g: Game,
    p: PlayerId,
    source: ObjectId,
    r: CastingRestriction,
) -> bool {
    match r {
        CastingRestriction::AsSorcery => may_act_as_sorcery(g, p),
        CastingRestriction::DuringCombat => combat_step(g),
        CastingRestriction::DuringOpponentsTurn => g.active_player != p,
        CastingRestriction::DuringYourTurn => g.active_player == p,
        CastingRestriction::DuringYourUpkeep => g.phase is Upkeep && g.active_player == p,
        CastingRestriction::DuringOpponentsUpkeep => g.phase is Upkeep && g.active_player != p,
        CastingRestriction::DuringAnyUpkeep => g.phase is Upkeep,
        CastingRestriction::DuringYourEndStep => g.phase is End && g.active_player == p,
        CastingRestriction::DuringOpponentsEndStep => g.phase is End && g.active_player != p,
        CastingRestriction::DeclareAttackersStep => g.phase is DeclareAttackers,
        CastingRestriction::DeclareBlockersStep => g.phase is DeclareBlockers,
        CastingRestriction::BeforeAttackersDeclared => (g.phase is PreCombatMain
            || g.phase is BeginCombat) && g.priority_player == g.active_player,
        CastingRestriction::BeforeBlockersDeclared => g.phase is BeginCombat
            || g.phase is DeclareAttackers,
        CastingRestriction::BeforeCombatDamage => combat_step(g) && !(g.phase is CombatDamage)
            && !(g.phase is EndCombat),
        CastingRestriction::AfterCombat => g.phase is EndCombat || g.phase is PostCombatMain
            || g.phase is End || g.phase is Cleanup,
        CastingRestriction::RequiresCondition { text } => text_holds(
            g,
            p,
            source,
            normalized(text@),
        ),
    }
}

/// A spell may be cast exactly when each of its restrictions allows it.
pub proof fn restrictions_on_casting(
    g: Game,
    p: PlayerId,
    source: ObjectId,
    list: Seq<CastingRestriction>,
)
    ensures
        first_where(list, casting_unmet(g, p, source)) is None <==> forall|i: int|
            0 <= i < list.len() ==> casting_allowed(g, p, source, #[trigger] list[i]),
{
    let unmet = casting_unmet(g, p, source);
    assert forall|r: CastingRestriction| #[trigger] unmet(r) == !casting_allowed(
        g,
        p,
        source,
        r,
    ) by {}
    if forall|i: int|
        0 <= i < list.len() ==> casting_allowed(g, p, source, #[trigger] list[i]) {
        lemma_first_where_none(list, unmet);
    } else {
        let i = choose|i: int|
            0 <= i < list.len() && !casting_allowed(g, p, source, #[trigger] list[i]);
        lemma_found(list, unmet, i);
    }
}

/// A spell that is no instant and has no flash may be cast only in a main phase of its caster with
/// an empty stack; an instant, one with flash or one that is given flash at any time.
pub proof fn timing_of_spells(g: Game, p: PlayerId, o: ObjectModel, flash: bool)
    ensures
        timing_refusal(g, p, o, AbilityKind::Spell, flash) is None <==> (flash
            || o.card_types.core_types.contains(CoreType::Instant) || o.keywords.contains(
            Keyword::Flash,
        ) || may_act_as_sorcery(g, p)),
{
    if o.keywords.contains(Keyword::Flash) {
        let i = choose|i: int| 0 <= i < o.keywords.len() && o.keywords[i] == Keyword::Flash;
        assert(crate::cards::kind_of(o.keywords[i]) == KeywordKind::Flash);
    }
    if crate::cards::has_kind(o.keywords, KeywordKind::Flash) {
        let i = choose|i: int|
            0 <= i < o.keywords.len() && crate::cards::kind_of(#[trigger] o.keywords[i])
                == KeywordKind::Flash;
        assert(o.keywords[i] == Keyword::Flash);
        assert(o.keywords.contains(Keyword::Flash));
    }
}

/// The generic mana of a sum of costs is the sum of that of both, and its symbols are those of the
/// first and then those of the second.
pub proof fn costs_add_up(base: ManaCost, extra: ManaCost, sum: ManaCost)
    requires
        is_sum(base, extra, sum),
        base is Cost,
        extra is Cost,
    ensures
        sum is Cost,
        sum->generic == base->generic + extra->generic,
        sum->shards@ == base->shards@ + extra->shards@,
{
}

/// Nothing is added where one of the costs is none.
pub proof fn no_cost_adds_nothing(base: ManaCost, extra: ManaCost, sum: ManaCost)
    requires
        is_sum(base, extra, sum),
    ensures
        base is Cost && !(extra is Cost) ==> sum == base,
        !(base is Cost) ==> sum == extra,
{
}

/// One more than was counted, as far as it fits.
pub open spec fn once_more(n: int) -> int {
    if n < 0xffff_ffff {
        n + 1
    } else {
        n
    }
}

/// A spell that is cast is counted for the turn and for its caster, and kept as it was.
pub proof fn a_spell_cast_is_recorded(g: Game, p: PlayerId, o: ObjectModel, other: PlayerId)
    ensures
        ({
            let h = spell_cast(g, p, o);
            let list = h.spells_cast_this_turn_by_player[p];
            let before = if g.spells_cast_this_turn_by_player.dom().contains(p) {
                g.spells_cast_this_turn_by_player[p]
            } else {
                Seq::empty()
            };
            &&& g.spells_cast_this_turn < 255 ==> h.spells_cast_this_turn
                == g.spells_cast_this_turn + 1
            &&& times(h.spells_cast_this_game, p) == once_more(times(g.spells_cast_this_game, p))
            &&& other != p ==> times(h.spells_cast_this_game, other) == times(
                g.spells_cast_this_game,
                other,
            )
            &&& h.spells_cast_this_turn_by_player.dom().contains(p)
            &&& list.len() == before.len() + 1
            &&& list.drop_last() == before
            &&& list.last().core_types == o.card_types.core_types
            &&& list.last().supertypes == o.card_types.supertypes
            &&& list.last().subtypes == o.card_types.subtypes
            &&& list.last().keywords == o.keywords
            &&& list.last().colors == o.color
            &&& list.last().mana_value == mana_value_of(o.mana_cost)
            &&& list.last().has_x_in_cost == (o.mana_cost is Cost
                && o.mana_cost->shards@.contains(ManaCostShard::X))
        }),
{
    let h = spell_cast(g, p, o);
    let list = h.spells_cast_this_turn_by_player[p];
    let before = if g.spells_cast_this_turn_by_player.dom().contains(p) {
        g.spells_cast_this_turn_by_player[p]
    } else {
        Seq::empty()
    };
    assert(list.drop_last() =~= before);
}

/// Attackers are counted for the active player, who has then attacked; no attackers are no attack.
pub proof fn attackers_are_recorded(g: Game, n: usize)
    ensures
        n == 0 ==> attackers_declared(g, n) == g,
        0 < n <= u32::MAX ==> attackers_declared(g, n).players_attacked_this_turn
            == g.players_attacked_this_turn.insert(g.active_player),
        0 < n <= u32::MAX && times(g.attacking_creatures_this_turn, g.active_player) + n
            <= u32::MAX ==> times(
            attackers_declared(g, n).attacking_creatures_this_turn,
            g.active_player,
        ) == times(g.attacking_creatures_this_turn, g.active_player) + n,
{
}

/// A player who sacrifices an artifact, and only such a player, is recorded as one who did.
pub proof fn sacrificed_artifacts_are_recorded(g: Game, id: ObjectId, p: PlayerId)
    requires
        g.objects.dom().contains(id),
    ensures
        sacrificed(g, id, p).players_who_sacrificed_artifact_this_turn
            == (if g.objects[id].card_types.core_types.contains(CoreType::Artifact) {
            g.players_who_sacrificed_artifact_this_turn.insert(p)
        } else {
            g.players_who_sacrificed_artifact_this_turn
        }),
{
}

/// The controller of a token is recorded as one who created a token.
pub proof fn created_tokens_are_recorded(g: Game, id: ObjectId)
    requires
        g.objects.dom().contains(id),
    ensures
        token_created(g, id).players_who_created_token_this_turn
            == g.players_who_created_token_this_turn.insert(g.objects[id].controller),
{
}

/// What enters the battlefield is recorded for its controller: a creature, an artifact, and a
/// creature that is an Angel or a Berserker.
pub proof fn entries_are_recorded(g: Game, id: ObjectId)
    requires
        g.objects.dom().contains(id),
        g.objects[id].zone is Battlefield,
    ensures
        ({
            let o = g.objects[id];
            let h = entered(g, id);
            let creature = o.card_types.core_types.contains(CoreType::Creature);
            let named = has_subtype(o.card_types.subtypes, "Angel"@) || has_subtype(
                o.card_types.subtypes,
                "Berserker"@,
            );
            &&& h.players_who_had_creature_etb_this_turn == (if creature {
                g.players_who_had_creature_etb_this_turn.insert(o.controller)
            } else {
                g.players_who_had_creature_etb_this_turn
            })
            &&& h.players_who_had_artifact_etb_this_turn
                == (if o.card_types.core_types.contains(CoreType::Artifact) {
                g.players_who_had_artifact_etb_this_turn.insert(o.controller)
            } else {
                g.players_who_had_artifact_etb_this_turn
            })
            &&& h.players_who_had_angel_or_berserker_etb_this_turn == (if creature && named {
                g.players_who_had_angel_or_berserker_etb_this_turn.insert(o.controller)
            } else {
                g.players_who_had_angel_or_berserker_etb_this_turn
            })
        }),
{
}

/// A card that leaves a graveyard is counted for its owner; a creature that goes from the
/// battlefield to a graveyard has died.
pub proof fn moves_are_recorded(g: Game, id: ObjectId, from: Zone, to: Zone)
    requires
        g.objects.dom().contains(id),
    ensures
        ({
            let o = g.objects[id];
            let h = zone_change_recorded(g, id, from, to);
            &&& times(h.cards_left_graveyard_this_turn, o.owner) == (if from is Graveyard && !(
            to is Graveyard) {
                once_more(times(g.cards_left_graveyard_this_turn, o.owner))
            } else {
                times(g.cards_left_graveyard_this_turn, o.owner)
            })
            &&& h.creature_died_this_turn <==> g.creature_died_this_turn || (from is Battlefield
                && to is Graveyard && o.card_types.core_types.contains(CoreType::Creature))
        }),
{
}

/// An activation is counted for the turn and for the game, for this ability and no other.
pub proof fn activations_are_recorded(g: Game, source: ObjectId, ability: usize, other: (ObjectId, usize))
    ensures
        ({
            let h = activated(g, source, ability);
            let k = (source, ability);
            &&& times(h.activated_abilities_this_turn, k) == once_more(
                times(g.activated_abilities_this_turn, k),
            )
            &&& times(h.activated_abilities_this_game, k) == once_more(
                times(g.activated_abilities_this_game, k),
            )
            &&& other != k ==> times(h.activated_abilities_this_turn, other) == times(
                g.activated_abilities_this_turn,
                other,
            ) && times(h.activated_abilities_this_game, other) == times(
                g.activated_abilities_this_game,
                other,
            )
        }),
{
}

/// A spell may be cast as though it had flash by the first option for that whose condition holds:
/// for nothing more where the option has no cost, else for the mana that it costs.
pub proof fn options_for_flash(
    g: Game,
    p: PlayerId,
    source: ObjectId,
    options: Seq<SpellCastingOption>,
    i: int,
)
    requires
        0 <= i < options.len(),
        options[i].condition is None,
    ensures
        ({
            let o = options[i];
            let cost = flash_cost_from(g, p, source, options, i);
            &&& flash_cost_from(g, p, source, options, options.len() as int) is None
            &&& o.kind is AsThoughHadFlash && o.cost is None ==> cost == Some(ManaCost::NoCost)
            &&& o.kind is AsThoughHadFlash && o.cost is Some && o.cost->0 is Mana ==> cost == Some(
                o.cost->0->cost,
            )
            &&& !(o.kind is AsThoughHadFlash) || (o.cost is Some && !(o.cost->0 is Mana)) ==> cost
                == flash_cost_from(g, p, source, options, i + 1)
        }),
{
}

/// An option with a condition counts only while the condition holds.
pub proof fn options_with_conditions(
    g: Game,
    p: PlayerId,
    source: ObjectId,
    options: Seq<SpellCastingOption>,
    i: int,
)
    requires
        0 <= i < options.len(),
        options[i].condition is Some,
        !text_holds(g, p, source, normalized(options[i].condition->0@)),
    ensures
        flash_cost_from(g, p, source, options, i) == flash_cost_from(
            g,
            p,
            source,
            options,
            i + 1,
        ),
{
}

} // verus!
