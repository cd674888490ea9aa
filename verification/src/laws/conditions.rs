//! What the conditions of casting and activating say.

use vstd::prelude::*;
use crate::ability::{compares, Comparator};
use crate::cards::{CoreType, Keyword, KeywordKind, Supertype};
use crate::conditions::{
    condition_in, creatures_of, hand_size, history_condition, holds_for, powers, text_holds,
    wanted_of, ConditionModel, PlayerQuantity, WantedModel,
};
use crate::ids::{ObjectId, PlayerId};
use crate::laws::quantities::plays_as;
use crate::laws::timing::times;
use crate::mana::ManaColor;
use crate::object::ObjectModel;
use crate::seqs::count_where;
use crate::state::{lemma_seat, player_of, Game};
use crate::text::after_prefix;

verus! {

/// Whether an object attacks.
pub open spec fn is_attacker(g: Game, id: ObjectId) -> bool {
    g.combat is Some && exists|i: int|
        0 <= i < g.combat->0.attackers.len() && (#[trigger] g.combat->0.attackers[i]).object_id
            == id
}

/// Whether an object blocks.
pub open spec fn is_blocker(g: Game, id: ObjectId) -> bool {
    g.combat is Some && g.combat->0.blocker_to_attacker.dom().contains(id)
}

/// Whether an object is blocked by at least one other.
pub open spec fn has_blockers(g: Game, id: ObjectId) -> bool {
    g.combat is Some && g.combat->0.blocker_assignments.dom().contains(id)
        && g.combat->0.blocker_assignments[id].len() > 0
}

proof fn lemma_defender(list: Seq<Keyword>)
    ensures
        crate::cards::has_kind(list, KeywordKind::Defender) <==> list.contains(Keyword::Defender),
{
    if list.contains(Keyword::Defender) {
        let i = choose|i: int| 0 <= i < list.len() && list[i] == Keyword::Defender;
        assert(crate::cards::kind_of(list[i]) == KeywordKind::Defender);
    }
    if crate::cards::has_kind(list, KeywordKind::Defender) {
        let i = choose|i: int|
            0 <= i < list.len() && crate::cards::kind_of(#[trigger] list[i])
                == KeywordKind::Defender;
        assert(list[i] == Keyword::Defender);
    }
}

proof fn lemma_count_is_kept<T>(s: Seq<T>, p: spec_fn(T) -> bool)
    ensures
        count_where(s, p) == s.filter(p).len(),
    decreases s.len(),
{
    reveal(Seq::filter);
    if s.len() > 0 {
        lemma_count_is_kept(s.drop_last(), p);
    }
}

/// Whether a permanent is of a kind, as far as types, colors, power and toughness are concerned.
pub open spec fn fits_kind(o: ObjectModel, w: WantedModel, source: ObjectId) -> bool {
    let creature = o.card_types.core_types.contains(CoreType::Creature);
    match w {
        WantedModel::Core { core_type } => o.card_types.core_types.contains(core_type),
        WantedModel::Color { color } => o.color.contains(color),
        WantedModel::LegendaryCreature => creature && o.card_types.supertypes.contains(
            Supertype::Legendary,
        ),
        WantedModel::CreatureWithPowerAtLeast { minimum } => creature && o.power is Some
            && minimum <= o.power->0,
        WantedModel::CreatureWithPt { power, toughness } => creature && o.power == Some(power)
            && o.toughness == Some(toughness),
        WantedModel::AnotherColorlessCreature => creature && o.color.len() == 0 && o.id != source,
        WantedModel::SnowPermanent => o.card_types.supertypes.contains(Supertype::Snow),
        WantedModel::Subtype { subtype } => crate::conditions::has_subtype(
            o.card_types.subtypes,
            subtype,
        ),
        WantedModel::NamedPlaneswalker { name } => o.card_types.core_types.contains(
            CoreType::Planeswalker,
        ) && crate::text::has_text(o.name@, name),
        WantedModel::CreatureWithKeyword { kind } => creature && crate::cards::has_kind(
            o.keywords,
            kind,
        ),
    }
}

/// A player controls at least some number of permanents of a kind exactly when so many permanents
/// of the player are of that kind.
pub proof fn permanents_of_a_kind_are_counted(
    g: Game,
    p: PlayerId,
    source: ObjectId,
    what: WantedModel,
    count: usize,
)
    ensures
        holds_for(g, p, source, ConditionModel::YouControlAtLeast { what, count })
            <==> g.battlefield.filter(
            |id: ObjectId|
                g.objects.dom().contains(id) && g.objects[id].controller == p && fits_kind(
                    g.objects[id],
                    what,
                    source,
                ),
        ).len() >= count,
        holds_for(g, p, source, ConditionModel::YouControlNoCreatures) <==> forall|i: int|
            0 <= i < g.battlefield.len() && g.objects.dom().contains(#[trigger] g.battlefield[i])
                ==> !(g.objects[g.battlefield[i]].controller == p
                && g.objects[g.battlefield[i]].card_types.core_types.contains(CoreType::Creature)),
{
    let f = wanted_of(g, p, what, source);
    let h = |id: ObjectId|
        g.objects.dom().contains(id) && g.objects[id].controller == p && fits_kind(
            g.objects[id],
            what,
            source,
        );
    assert(f =~= h) by {
        assert forall|id: ObjectId| #[trigger] f(id) == h(id) by {}
    }
    lemma_count_is_kept(g.battlefield, f);
    let c = wanted_of(g, p, WantedModel::Core { core_type: CoreType::Creature }, source);
    crate::seqs::lemma_count_positive_where(g.battlefield, c);
}

/// Conditions on the hand and the graveyard are about those of the player.
pub proof fn conditions_on_hand_and_graveyard(
    g: Game,
    p: PlayerId,
    source: ObjectId,
    i: int,
    count: usize,
)
    requires
        plays_as(g, i, p),
    ensures
        holds_for(g, p, source, ConditionModel::HandSizeExact { count })
            <==> g.players[i].hand.len() == count,
        holds_for(g, p, source, ConditionModel::GraveyardCardCountAtLeast { count })
            <==> g.players[i].graveyard.len() >= count,
        holds_for(g, p, source, ConditionModel::YouGainedLifeThisTurn)
            <==> g.players[i].life_gained_this_turn > 0,
        holds_for(g, p, source, ConditionModel::HandSizeOneOf { counts: seq![0usize, 7usize] })
            ==> g.players[i].hand.len() == 0 || g.players[i].hand.len() == 7,
{
    lemma_seat(g.players, p, i);
    assert(player_of(g, p) == Some(g.players[i]));
    let counts = seq![0usize, 7usize];
    assert(counts[0] == 0 && counts[1] == 7);
    let n = g.players[i].hand.len();
    let c = ConditionModel::HandSizeOneOf { counts };
    if holds_for(g, p, source, c) {
        let k = choose|k: int| 0 <= k < counts.len() && #[trigger] counts[k] == hand_size(g, p);
        assert(k == 0 || k == 1);
    }
}

/// A player has more cards in hand than each opponent, or fewer creatures, exactly when that is so
/// of every opponent.
pub proof fn comparisons_are_with_each_opponent(
    g: Game,
    p: PlayerId,
    source: ObjectId,
    i: int,
    j: int,
    lhs: PlayerQuantity,
    rhs: PlayerQuantity,
)
    requires
        plays_as(g, i, p),
        plays_as(g, j, g.players[j].id),
        g.players[j].id != p,
        lhs is HandSize && rhs is HandSize,
        holds_for(
            g,
            p,
            source,
            ConditionModel::QuantityVsEachOpponent { lhs, comparator: Comparator::GT, rhs },
        ),
    ensures
        g.players[i].hand.len() > g.players[j].hand.len(),
{
    lemma_seat(g.players, p, i);
    lemma_seat(g.players, g.players[j].id, j);
    assert(player_of(g, p) == Some(g.players[i]));
    assert(player_of(g, g.players[j].id) == Some(g.players[j]));
    assert(g.players[j].id != p);
}

/// Comparisons of numbers mean what they say.
pub proof fn comparisons(c: Comparator, a: int, b: int)
    ensures
        compares(c, a, b) == match c {
            Comparator::GT => b < a,
            Comparator::LT => a < b,
            Comparator::GE => !(a < b),
            Comparator::LE => !(b < a),
            Comparator::EQ => !(a < b) && !(b < a),
        },
{
}

/// The spells that were recorded of a player this turn.
pub open spec fn spells_recorded(g: Game, p: PlayerId) -> Seq<crate::state::SpellRecordModel> {
    if g.spells_cast_this_turn_by_player.dom().contains(p) {
        g.spells_cast_this_turn_by_player[p]
    } else {
        Seq::empty()
    }
}

/// Conditions on the source of an ability.
pub proof fn conditions_on_the_source(g: Game, p: PlayerId, source: ObjectId, c: ConditionModel)
    ensures
        ({
            let o = if g.objects.dom().contains(source) {
                Some(g.objects[source])
            } else {
                None
            };
            let now = holds_for(g, p, source, c);
            match c {
                ConditionModel::SourceInZone { zone } => now <==> (o is Some && o->0.zone == zone),
                ConditionModel::SourceIsAttacking => now <==> is_attacker(g, source),
                ConditionModel::SourceIsAttackingOrBlocking => now <==> (is_attacker(g, source)
                    || is_blocker(g, source)),
                ConditionModel::SourceIsBlocked => now <==> has_blockers(g, source),
                ConditionModel::SourcePowerAtLeast { minimum } => now <==> (o is Some && o->0.power
                    is Some && minimum <= o->0.power->0),
                ConditionModel::SourceHasCounterAtLeast { counter_type, count } => o is Some ==> (
                now <==> count <= times(o->0.counters, counter_type)),
                ConditionModel::SourceHasNoCounter { counter_type } => o is Some ==> (now <==> times(
                    o->0.counters,
                    counter_type,
                ) == 0),
                ConditionModel::SourceEnteredThisTurn => now <==> (o is Some
                    && o->0.entered_battlefield_turn == Some(g.turn_number)),
                ConditionModel::SourceIsCreature => now <==> (o is Some
                    && o->0.card_types.core_types.contains(CoreType::Creature)),
                ConditionModel::SourceIsColor { color } => now <==> (o is Some
                    && o->0.color.contains(color)),
                _ => true,
            }
        }),
{
}

/// Conditions on what was recorded of a turn.
pub proof fn conditions_on_the_turn(g: Game, p: PlayerId, source: ObjectId, c: ConditionModel)
    ensures
        ({
            let now = holds_for(g, p, source, c);
            match c {
                ConditionModel::FirstSpellThisGame => now <==> times(g.spells_cast_this_game, p)
                    == 0,
                ConditionModel::BeenAttackedThisStep => now
                    <==> g.players_attacked_this_step.contains(p),
                ConditionModel::YouAttackedThisTurn => now
                    <==> g.players_attacked_this_turn.contains(p),
                ConditionModel::YouAttackedWithAtLeast { count } => now <==> count <= times(
                    g.attacking_creatures_this_turn,
                    p,
                ),
                ConditionModel::YouCastSpellCountAtLeast { count } => now <==> count
                    <= spells_recorded(g, p).len(),
                ConditionModel::YouCreatedTokenThisTurn => now
                    <==> g.players_who_created_token_this_turn.contains(p),
                ConditionModel::YouDiscardedCardThisTurn => now
                    <==> g.players_who_discarded_card_this_turn.contains(p),
                ConditionModel::YouSacrificedArtifactThisTurn => now
                    <==> g.players_who_sacrificed_artifact_this_turn.contains(p),
                ConditionModel::CreatureDiedThisTurn => now <==> g.creature_died_this_turn,
                ConditionModel::YouHadCreatureEnterThisTurn => now
                    <==> g.players_who_had_creature_etb_this_turn.contains(p),
                ConditionModel::YouHadAngelOrBerserkerEnterThisTurn => now
                    <==> g.players_who_had_angel_or_berserker_etb_this_turn.contains(p),
                ConditionModel::YouHadArtifactEnterThisTurn => now
                    <==> g.players_who_had_artifact_etb_this_turn.contains(p),
                ConditionModel::CardsLeftYourGraveyardThisTurnAtLeast { count } => now <==> count
                    <= times(g.cards_left_graveyard_this_turn, p),
                _ => true,
            }
        }),
{
    assert(crate::conditions::spells_of(g, p) == spells_recorded(g, p));
}

/// An opponent with enough poison counters meets a condition on them, the player's own poison does
/// not; a search by an opponent counts, the player's own does not; one spell that is no creature
/// spell is enough for a condition on such.
pub proof fn conditions_on_opponents_and_spells(
    g: Game,
    p: PlayerId,
    source: ObjectId,
    count: u32,
    i: int,
    q: PlayerId,
)
    ensures
        0 <= i < g.players.len() && g.players[i].id != p && g.players[i].poison_counters >= count
            ==> holds_for(g, p, source, ConditionModel::OpponentPoisonAtLeast { count }),
        (forall|j: int|
            0 <= j < g.players.len() && (#[trigger] g.players[j]).id != p
                ==> g.players[j].poison_counters < count) ==> !holds_for(
            g,
            p,
            source,
            ConditionModel::OpponentPoisonAtLeast { count },
        ),
        q != p && g.players_who_searched_library_this_turn.contains(q) ==> holds_for(
            g,
            p,
            source,
            ConditionModel::OpponentSearchedLibraryThisTurn,
        ),
        g.players_who_searched_library_this_turn.subset_of(set![p]) ==> !holds_for(
            g,
            p,
            source,
            ConditionModel::OpponentSearchedLibraryThisTurn,
        ),
        0 <= i < spells_recorded(g, p).len() && !spells_recorded(g, p)[i].core_types.contains(
            CoreType::Creature,
        ) ==> holds_for(g, p, source, ConditionModel::YouCastNoncreatureSpellThisTurn),
        (forall|j: int|
            0 <= j < spells_recorded(g, p).len() ==> (
            #[trigger] spells_recorded(g, p)[j]).core_types.contains(CoreType::Creature))
            ==> !holds_for(g, p, source, ConditionModel::YouCastNoncreatureSpellThisTurn),
{
    assert(crate::conditions::spells_of(g, p) == spells_recorded(g, p));
}

/// A text that states no condition stands in nobody's way.
pub proof fn unread_texts_hold(g: Game, p: PlayerId, source: ObjectId, s: Seq<char>)
    requires
        condition_in(s) is None,
    ensures
        text_holds(g, p, source, s),
{
}

/// The creatures whose power is counted are those of the player: with one creature the condition on
/// total power is one on its power.
pub proof fn total_power_of_one_creature(g: Game, p: PlayerId, source: ObjectId, minimum: i32)
    requires
        g.battlefield.len() == 1,
        g.objects.dom().contains(g.battlefield[0]),
        g.objects[g.battlefield[0]].controller == p,
        g.objects[g.battlefield[0]].card_types.core_types.contains(CoreType::Creature),
        g.objects[g.battlefield[0]].power is Some,
    ensures
        holds_for(g, p, source, ConditionModel::CreaturesYouControlTotalPowerAtLeast { minimum })
            <==> g.objects[g.battlefield[0]].power->0 >= minimum,
{
    let f = wanted_of(g, p, WantedModel::Core { core_type: CoreType::Creature }, ObjectId(0));
    reveal(Seq::filter);
    assert(g.battlefield.drop_last().len() == 0);
    assert(g.battlefield.drop_last().filter(f).len() == 0);
    let ids = creatures_of(g, p);
    assert(f(g.battlefield.last()));
    assert(ids =~= seq![g.battlefield[0]]);
    let s = powers(g, ids);
    reveal_with_fuel(crate::seqs::wrapped_sum, 2);
    assert(s.len() == 1);
    assert(s.drop_last().len() == 0);
    assert(s.last() == g.objects[g.battlefield[0]].power->0);
}

proof fn lemma_source_text_1()
    ensures
        "this card is in your graveyard"@ != "from your graveyard"@,
{
    reveal_strlit("this card is in your graveyard");
    assert("this card is in your graveyard"@ != "from your graveyard"@) by {
        reveal_strlit("from your graveyard");
        assert("this card is in your graveyard"@.len() == 30 && "from your graveyard"@.len() == 19);
    }
}

proof fn lemma_source_text_2()
    ensures
        "this card is suspended"@ != "from your graveyard"@,
        "this card is suspended"@ != "this card is in your graveyard"@,
{
    reveal_strlit("this card is suspended");
    assert("this card is suspended"@ != "from your graveyard"@) by {
        reveal_strlit("from your graveyard");
        assert("this card is suspended"@.len() == 22 && "from your graveyard"@.len() == 19);
    }
    assert("this card is suspended"@ != "this card is in your graveyard"@) by {
        reveal_strlit("this card is in your graveyard");
        assert("this card is suspended"@.len() == 22 && "this card is in your graveyard"@.len() == 30);
    }
}

proof fn lemma_source_text_3()
    ensures
        "this creature is attacking"@ != "from your graveyard"@,
        "this creature is attacking"@ != "this card is in your graveyard"@,
        "this creature is attacking"@ != "this card is suspended"@,
{
    reveal_strlit("this creature is attacking");
    assert("this creature is attacking"@ != "from your graveyard"@) by {
        reveal_strlit("from your graveyard");
        assert("this creature is attacking"@.len() == 26 && "from your graveyard"@.len() == 19);
    }
    assert("this creature is attacking"@ != "this card is in your graveyard"@) by {
        reveal_strlit("this card is in your graveyard");
        assert("this creature is attacking"@.len() == 26 && "this card is in your graveyard"@.len() == 30);
    }
    assert("this creature is attacking"@ != "this card is suspended"@) by {
        reveal_strlit("this card is suspended");
        assert("this creature is attacking"@.len() == 26 && "this card is suspended"@.len() == 22);
    }
}

proof fn lemma_source_text_4()
    ensures
        "this creature is blocked"@ != "from your graveyard"@,
        "this creature is blocked"@ != "this card is in your graveyard"@,
        "this creature is blocked"@ != "this card is suspended"@,
        "this creature is blocked"@ != "this creature is attacking"@,
{
    reveal_strlit("this creature is blocked");
    assert("this creature is blocked"@ != "from your graveyard"@) by {
        reveal_strlit("from your graveyard");
        assert("this creature is blocked"@.len() == 24 && "from your graveyard"@.len() == 19);
    }
    assert("this creature is blocked"@ != "this card is in your graveyard"@) by {
        reveal_strlit("this card is in your graveyard");
        assert("this creature is blocked"@.len() == 24 && "this card is in your graveyard"@.len() == 30);
    }
    assert("this creature is blocked"@ != "this card is suspended"@) by {
        reveal_strlit("this card is suspended");
        assert("this creature is blocked"@.len() == 24 && "this card is suspended"@.len() == 22);
    }
    assert("this creature is blocked"@ != "this creature is attacking"@) by {
        reveal_strlit("this creature is attacking");
        assert("this creature is blocked"@.len() == 24 && "this creature is attacking"@.len() == 26);
    }
}

proof fn lemma_source_text_5()
    ensures
        "this creature is attacking or blocking"@ != "from your graveyard"@,
        "this creature is attacking or blocking"@ != "this card is in your graveyard"@,
        "this creature is attacking or blocking"@ != "this card is suspended"@,
        "this creature is attacking or blocking"@ != "this creature is attacking"@,
        "this creature is attacking or blocking"@ != "this creature is blocked"@,
{
    reveal_strlit("this creature is attacking or blocking");
    assert("this creature is attacking or blocking"@ != "from your graveyard"@) by {
        reveal_strlit("from your graveyard");
        assert("this creature is attacking or blocking"@.len() == 38 && "from your graveyard"@.len() == 19);
    }
    assert("this creature is attacking or blocking"@ != "this card is in your graveyard"@) by {
        reveal_strlit("this card is in your graveyard");
        assert("this creature is attacking or blocking"@.len() == 38 && "this card is in your graveyard"@.len() == 30);
    }
    assert("this creature is attacking or blocking"@ != "this card is suspended"@) by {
        reveal_strlit("this card is suspended");
        assert("this creature is attacking or blocking"@.len() == 38 && "this card is suspended"@.len() == 22);
    }
    assert("this creature is attacking or blocking"@ != "this creature is attacking"@) by {
        reveal_strlit("this creature is attacking");
        assert("this creature is attacking or blocking"@.len() == 38 && "this creature is attacking"@.len() == 26);
    }
    assert("this creature is attacking or blocking"@ != "this creature is blocked"@) by {
        reveal_strlit("this creature is blocked");
        assert("this creature is attacking or blocking"@.len() == 38 && "this creature is blocked"@.len() == 24);
    }
}

proof fn lemma_source_text_7()
    ensures
        "this permanent is a creature"@ != "from your graveyard"@,
        "this permanent is a creature"@ != "this card is in your graveyard"@,
        "this permanent is a creature"@ != "this card is suspended"@,
        "this permanent is a creature"@ != "this creature is attacking"@,
        "this permanent is a creature"@ != "this creature is blocked"@,
        "this permanent is a creature"@ != "this creature is attacking or blocking"@,
        "this permanent is a creature"@ != "this creature is attacking or blocking and only once each turn"@,
{
    reveal_strlit("this permanent is a creature");
    assert("this permanent is a creature"@ != "from your graveyard"@) by {
        reveal_strlit("from your graveyard");
        assert("this permanent is a creature"@.len() == 28 && "from your graveyard"@.len() == 19);
    }
    assert("this permanent is a creature"@ != "this card is in your graveyard"@) by {
        reveal_strlit("this card is in your graveyard");
        assert("this permanent is a creature"@.len() == 28 && "this card is in your graveyard"@.len() == 30);
    }
    assert("this permanent is a creature"@ != "this card is suspended"@) by {
        reveal_strlit("this card is suspended");
        assert("this permanent is a creature"@.len() == 28 && "this card is suspended"@.len() == 22);
    }
    assert("this permanent is a creature"@ != "this creature is attacking"@) by {
        reveal_strlit("this creature is attacking");
        assert("this permanent is a creature"@.len() == 28 && "this creature is attacking"@.len() == 26);
    }
    assert("this permanent is a creature"@ != "this creature is blocked"@) by {
        reveal_strlit("this creature is blocked");
        assert("this permanent is a creature"@.len() == 28 && "this creature is blocked"@.len() == 24);
    }
    assert("this permanent is a creature"@ != "this creature is attacking or blocking"@) by {
        reveal_strlit("this creature is attacking or blocking");
        assert("this permanent is a creature"@.len() == 28 && "this creature is attacking or blocking"@.len() == 38);
    }
    assert("this permanent is a creature"@ != "this creature is attacking or blocking and only once each turn"@) by {
        reveal_strlit("this creature is attacking or blocking and only once each turn");
        assert("this permanent is a creature"@.len() == 28 && "this creature is attacking or blocking and only once each turn"@.len() == 62);
    }
}

proof fn lemma_source_text_8()
    ensures
        "this creature entered this turn"@ != "from your graveyard"@,
        "this creature entered this turn"@ != "this card is in your graveyard"@,
        "this creature entered this turn"@ != "this card is suspended"@,
        "this creature entered this turn"@ != "this creature is attacking"@,
        "this creature entered this turn"@ != "this creature is blocked"@,
        "this creature entered this turn"@ != "this creature is attacking or blocking"@,
        "this creature entered this turn"@ != "this creature is attacking or blocking and only once each turn"@,
        "this creature entered this turn"@ != "this permanent is a creature"@,
{
    reveal_strlit("this creature entered this turn");
    assert("this creature entered this turn"@ != "from your graveyard"@) by {
        reveal_strlit("from your graveyard");
        assert("this creature entered this turn"@.len() == 31 && "from your graveyard"@.len() == 19);
    }
    assert("this creature entered this turn"@ != "this card is in your graveyard"@) by {
        reveal_strlit("this card is in your graveyard");
        assert("this creature entered this turn"@.len() == 31 && "this card is in your graveyard"@.len() == 30);
    }
    assert("this creature entered this turn"@ != "this card is suspended"@) by {
        reveal_strlit("this card is suspended");
        assert("this creature entered this turn"@.len() == 31 && "this card is suspended"@.len() == 22);
    }
    assert("this creature entered this turn"@ != "this creature is attacking"@) by {
        reveal_strlit("this creature is attacking");
        assert("this creature entered this turn"@.len() == 31 && "this creature is attacking"@.len() == 26);
    }
    assert("this creature entered this turn"@ != "this creature is blocked"@) by {
        reveal_strlit("this creature is blocked");
        assert("this creature entered this turn"@.len() == 31 && "this creature is blocked"@.len() == 24);
    }
    assert("this creature entered this turn"@ != "this creature is attacking or blocking"@) by {
        reveal_strlit("this creature is attacking or blocking");
        assert("this creature entered this turn"@.len() == 31 && "this creature is attacking or blocking"@.len() == 38);
    }
    assert("this creature entered this turn"@ != "this creature is attacking or blocking and only once each turn"@) by {
        reveal_strlit("this creature is attacking or blocking and only once each turn");
        assert("this creature entered this turn"@.len() == 31 && "this creature is attacking or blocking and only once each turn"@.len() == 62);
    }
    assert("this creature entered this turn"@ != "this permanent is a creature"@) by {
        reveal_strlit("this permanent is a creature");
        assert("this creature entered this turn"@.len() == 31 && "this permanent is a creature"@.len() == 28);
    }
}

proof fn lemma_source_text_9()
    ensures
        "this land entered this turn"@ != "from your graveyard"@,
        "this land entered this turn"@ != "this card is in your graveyard"@,
        "this land entered this turn"@ != "this card is suspended"@,
        "this land entered this turn"@ != "this creature is attacking"@,
        "this land entered this turn"@ != "this creature is blocked"@,
        "this land entered this turn"@ != "this creature is attacking or blocking"@,
        "this land entered this turn"@ != "this creature is attacking or blocking and only once each turn"@,
        "this land entered this turn"@ != "this permanent is a creature"@,
        "this land entered this turn"@ != "this creature entered this turn"@,
{
    reveal_strlit("this land entered this turn");
    assert("this land entered this turn"@ != "from your graveyard"@) by {
        reveal_strlit("from your graveyard");
        assert("this land entered this turn"@.len() == 27 && "from your graveyard"@.len() == 19);
    }
    assert("this land entered this turn"@ != "this card is in your graveyard"@) by {
        reveal_strlit("this card is in your graveyard");
        assert("this land entered this turn"@.len() == 27 && "this card is in your graveyard"@.len() == 30);
    }
    assert("this land entered this turn"@ != "this card is suspended"@) by {
        reveal_strlit("this card is suspended");
        assert("this land entered this turn"@.len() == 27 && "this card is suspended"@.len() == 22);
    }
    assert("this land entered this turn"@ != "this creature is attacking"@) by {
        reveal_strlit("this creature is attacking");
        assert("this land entered this turn"@.len() == 27 && "this creature is attacking"@.len() == 26);
    }
    assert("this land entered this turn"@ != "this creature is blocked"@) by {
        reveal_strlit("this creature is blocked");
        assert("this land entered this turn"@.len() == 27 && "this creature is blocked"@.len() == 24);
    }
    assert("this land entered this turn"@ != "this creature is attacking or blocking"@) by {
        reveal_strlit("this creature is attacking or blocking");
        assert("this land entered this turn"@.len() == 27 && "this creature is attacking or blocking"@.len() == 38);
    }
    assert("this land entered this turn"@ != "this creature is attacking or blocking and only once each turn"@) by {
        reveal_strlit("this creature is attacking or blocking and only once each turn");
        assert("this land entered this turn"@.len() == 27 && "this creature is attacking or blocking and only once each turn"@.len() == 62);
    }
    assert("this land entered this turn"@ != "this permanent is a creature"@) by {
        reveal_strlit("this permanent is a creature");
        assert("this land entered this turn"@.len() == 27 && "this permanent is a creature"@.len() == 28);
    }
    assert("this land entered this turn"@ != "this creature entered this turn"@) by {
        reveal_strlit("this creature entered this turn");
        assert("this land entered this turn"@.len() == 27 && "this creature entered this turn"@.len() == 31);
    }
}

proof fn lemma_source_text_10()
    ensures
        "enchanted land is untapped"@ != "from your graveyard"@,
        "enchanted land is untapped"@ != "this card is in your graveyard"@,
        "enchanted land is untapped"@ != "this card is suspended"@,
        "enchanted land is untapped"@ != "this creature is attacking"@,
        "enchanted land is untapped"@ != "this creature is blocked"@,
        "enchanted land is untapped"@ != "this creature is attacking or blocking"@,
        "enchanted land is untapped"@ != "this creature is attacking or blocking and only once each turn"@,
        "enchanted land is untapped"@ != "this permanent is a creature"@,
        "enchanted land is untapped"@ != "this creature entered this turn"@,
        "enchanted land is untapped"@ != "this land entered this turn"@,
{
    reveal_strlit("enchanted land is untapped");
    assert("enchanted land is untapped"@ != "from your graveyard"@) by {
        reveal_strlit("from your graveyard");
        assert("enchanted land is untapped"@.len() == 26 && "from your graveyard"@.len() == 19);
    }
    assert("enchanted land is untapped"@ != "this card is in your graveyard"@) by {
        reveal_strlit("this card is in your graveyard");
        assert("enchanted land is untapped"@.len() == 26 && "this card is in your graveyard"@.len() == 30);
    }
    assert("enchanted land is untapped"@ != "this card is suspended"@) by {
        reveal_strlit("this card is suspended");
        assert("enchanted land is untapped"@.len() == 26 && "this card is suspended"@.len() == 22);
    }
    assert("enchanted land is untapped"@ != "this creature is attacking"@) by {
        reveal_strlit("this creature is attacking");
        assert("enchanted land is untapped"@[0] == 'e' && "this creature is attacking"@[0] == 't');
    }
    assert("enchanted land is untapped"@ != "this creature is blocked"@) by {
        reveal_strlit("this creature is blocked");
        assert("enchanted land is untapped"@.len() == 26 && "this creature is blocked"@.len() == 24);
    }
    assert("enchanted land is untapped"@ != "this creature is attacking or blocking"@) by {
        reveal_strlit("this creature is attacking or blocking");
        assert("enchanted land is untapped"@.len() == 26 && "this creature is attacking or blocking"@.len() == 38);
    }
    assert("enchanted land is untapped"@ != "this creature is attacking or blocking and only once each turn"@) by {
        reveal_strlit("this creature is attacking or blocking and only once each turn");
        assert("enchanted land is untapped"@.len() == 26 && "this creature is attacking or blocking and only once each turn"@.len() == 62);
    }
    assert("enchanted land is untapped"@ != "this permanent is a creature"@) by {
        reveal_strlit("this permanent is a creature");
        assert("enchanted land is untapped"@.len() == 26 && "this permanent is a creature"@.len() == 28);
    }
    assert("enchanted land is untapped"@ != "this creature entered this turn"@) by {
        reveal_strlit("this creature entered this turn");
        assert("enchanted land is untapped"@.len() == 26 && "this creature entered this turn"@.len() == 31);
    }
    assert("enchanted land is untapped"@ != "this land entered this turn"@) by {
        reveal_strlit("this land entered this turn");
        assert("enchanted land is untapped"@.len() == 26 && "this land entered this turn"@.len() == 27);
    }
}

proof fn lemma_source_text_11()
    ensures
        "enchanted creature is untapped"@ != "from your graveyard"@,
        "enchanted creature is untapped"@ != "this card is in your graveyard"@,
        "enchanted creature is untapped"@ != "this card is suspended"@,
        "enchanted creature is untapped"@ != "this creature is attacking"@,
        "enchanted creature is untapped"@ != "this creature is blocked"@,
        "enchanted creature is untapped"@ != "this creature is attacking or blocking"@,
        "enchanted creature is untapped"@ != "this creature is attacking or blocking and only once each turn"@,
        "enchanted creature is untapped"@ != "this permanent is a creature"@,
        "enchanted creature is untapped"@ != "this creature entered this turn"@,
        "enchanted creature is untapped"@ != "this land entered this turn"@,
        "enchanted creature is untapped"@ != "enchanted land is untapped"@,
{
    reveal_strlit("enchanted creature is untapped");
    assert("enchanted creature is untapped"@ != "from your graveyard"@) by {
        reveal_strlit("from your graveyard");
        assert("enchanted creature is untapped"@.len() == 30 && "from your graveyard"@.len() == 19);
    }
    assert("enchanted creature is untapped"@ != "this card is in your graveyard"@) by {
        reveal_strlit("this card is in your graveyard");
        assert("enchanted creature is untapped"@[0] == 'e' && "this card is in your graveyard"@[0] == 't');
    }
    assert("enchanted creature is untapped"@ != "this card is suspended"@) by {
        reveal_strlit("this card is suspended");
        assert("enchanted creature is untapped"@.len() == 30 && "this card is suspended"@.len() == 22);
    }
    assert("enchanted creature is untapped"@ != "this creature is attacking"@) by {
        reveal_strlit("this creature is attacking");
        assert("enchanted creature is untapped"@.len() == 30 && "this creature is attacking"@.len() == 26);
    }
    assert("enchanted creature is untapped"@ != "this creature is blocked"@) by {
        reveal_strlit("this creature is blocked");
        assert("enchanted creature is untapped"@.len() == 30 && "this creature is blocked"@.len() == 24);
    }
    assert("enchanted creature is untapped"@ != "this creature is attacking or blocking"@) by {
        reveal_strlit("this creature is attacking or blocking");
        assert("enchanted creature is untapped"@.len() == 30 && "this creature is attacking or blocking"@.len() == 38);
    }
    assert("enchanted creature is untapped"@ != "this creature is attacking or blocking and only once each turn"@) by {
        reveal_strlit("this creature is attacking or blocking and only once each turn");
        assert("enchanted creature is untapped"@.len() == 30 && "this creature is attacking or blocking and only once each turn"@.len() == 62);
    }
    assert("enchanted creature is untapped"@ != "this permanent is a creature"@) by {
        reveal_strlit("this permanent is a creature");
        assert("enchanted creature is untapped"@.len() == 30 && "this permanent is a creature"@.len() == 28);
    }
    assert("enchanted creature is untapped"@ != "this creature entered this turn"@) by {
        reveal_strlit("this creature entered this turn");
        assert("enchanted creature is untapped"@.len() == 30 && "this creature entered this turn"@.len() == 31);
    }
    assert("enchanted creature is untapped"@ != "this land entered this turn"@) by {
        reveal_strlit("this land entered this turn");
        assert("enchanted creature is untapped"@.len() == 30 && "this land entered this turn"@.len() == 27);
    }
    assert("enchanted creature is untapped"@ != "enchanted land is untapped"@) by {
        reveal_strlit("enchanted land is untapped");
        assert("enchanted creature is untapped"@.len() == 30 && "enchanted land is untapped"@.len() == 26);
    }
}

proof fn lemma_source_text_12()
    ensures
        "this creature doesn't have defender"@ != "from your graveyard"@,
        "this creature doesn't have defender"@ != "this card is in your graveyard"@,
        "this creature doesn't have defender"@ != "this card is suspended"@,
        "this creature doesn't have defender"@ != "this creature is attacking"@,
        "this creature doesn't have defender"@ != "this creature is blocked"@,
        "this creature doesn't have defender"@ != "this creature is attacking or blocking"@,
        "this creature doesn't have defender"@ != "this creature is attacking or blocking and only once each turn"@,
        "this creature doesn't have defender"@ != "this permanent is a creature"@,
        "this creature doesn't have defender"@ != "this creature entered this turn"@,
        "this creature doesn't have defender"@ != "this land entered this turn"@,
        "this creature doesn't have defender"@ != "enchanted land is untapped"@,
        "this creature doesn't have defender"@ != "enchanted creature is untapped"@,
{
    reveal_strlit("this creature doesn't have defender");
    assert("this creature doesn't have defender"@ != "from your graveyard"@) by {
        reveal_strlit("from your graveyard");
        assert("this creature doesn't have defender"@.len() == 35 && "from your graveyard"@.len() == 19);
    }
    assert("this creature doesn't have defender"@ != "this card is in your graveyard"@) by {
        reveal_strlit("this card is in your graveyard");
        assert("this creature doesn't have defender"@.len() == 35 && "this card is in your graveyard"@.len() == 30);
    }
    assert("this creature doesn't have defender"@ != "this card is suspended"@) by {
        reveal_strlit("this card is suspended");
        assert("this creature doesn't have defender"@.len() == 35 && "this card is suspended"@.len() == 22);
    }
    assert("this creature doesn't have defender"@ != "this creature is attacking"@) by {
        reveal_strlit("this creature is attacking");
        assert("this creature doesn't have defender"@.len() == 35 && "this creature is attacking"@.len() == 26);
    }
    assert("this creature doesn't have defender"@ != "this creature is blocked"@) by {
        reveal_strlit("this creature is blocked");
        assert("this creature doesn't have defender"@.len() == 35 && "this creature is blocked"@.len() == 24);
    }
    assert("this creature doesn't have defender"@ != "this creature is attacking or blocking"@) by {
        reveal_strlit("this creature is attacking or blocking");
        assert("this creature doesn't have defender"@.len() == 35 && "this creature is attacking or blocking"@.len() == 38);
    }
    assert("this creature doesn't have defender"@ != "this creature is attacking or blocking and only once each turn"@) by {
        reveal_strlit("this creature is attacking or blocking and only once each turn");
        assert("this creature doesn't have defender"@.len() == 35 && "this creature is attacking or blocking and only once each turn"@.len() == 62);
    }
    assert("this creature doesn't have defender"@ != "this permanent is a creature"@) by {
        reveal_strlit("this permanent is a creature");
        assert("this creature doesn't have defender"@.len() == 35 && "this permanent is a creature"@.len() == 28);
    }
    assert("this creature doesn't have defender"@ != "this creature entered this turn"@) by {
        reveal_strlit("this creature entered this turn");
        assert("this creature doesn't have defender"@.len() == 35 && "this creature entered this turn"@.len() == 31);
    }
    assert("this creature doesn't have defender"@ != "this land entered this turn"@) by {
        reveal_strlit("this land entered this turn");
        assert("this creature doesn't have defender"@.len() == 35 && "this land entered this turn"@.len() == 27);
    }
    assert("this creature doesn't have defender"@ != "enchanted land is untapped"@) by {
        reveal_strlit("enchanted land is untapped");
        assert("this creature doesn't have defender"@.len() == 35 && "enchanted land is untapped"@.len() == 26);
    }
    assert("this creature doesn't have defender"@ != "enchanted creature is untapped"@) by {
        reveal_strlit("enchanted creature is untapped");
        assert("this creature doesn't have defender"@.len() == 35 && "enchanted creature is untapped"@.len() == 30);
    }
}

proof fn lemma_source_text_13()
    ensures
        "this creature is blue"@ != "from your graveyard"@,
        "this creature is blue"@ != "this card is in your graveyard"@,
        "this creature is blue"@ != "this card is suspended"@,
        "this creature is blue"@ != "this creature is attacking"@,
        "this creature is blue"@ != "this creature is blocked"@,
        "this creature is blue"@ != "this creature is attacking or blocking"@,
        "this creature is blue"@ != "this creature is attacking or blocking and only once each turn"@,
        "this creature is blue"@ != "this permanent is a creature"@,
        "this creature is blue"@ != "this creature entered this turn"@,
        "this creature is blue"@ != "this land entered this turn"@,
        "this creature is blue"@ != "enchanted land is untapped"@,
        "this creature is blue"@ != "enchanted creature is untapped"@,
        "this creature is blue"@ != "this creature doesn't have defender"@,
{
    reveal_strlit("this creature is blue");
    assert("this creature is blue"@ != "from your graveyard"@) by {
        reveal_strlit("from your graveyard");
        assert("this creature is blue"@.len() == 21 && "from your graveyard"@.len() == 19);
    }
    assert("this creature is blue"@ != "this card is in your graveyard"@) by {
        reveal_strlit("this card is in your graveyard");
        assert("this creature is blue"@.len() == 21 && "this card is in your graveyard"@.len() == 30);
    }
    assert("this creature is blue"@ != "this card is suspended"@) by {
        reveal_strlit("this card is suspended");
        assert("this creature is blue"@.len() == 21 && "this card is suspended"@.len() == 22);
    }
    assert("this creature is blue"@ != "this creature is attacking"@) by {
        reveal_strlit("this creature is attacking");
        assert("this creature is blue"@.len() == 21 && "this creature is attacking"@.len() == 26);
    }
    assert("this creature is blue"@ != "this creature is blocked"@) by {
        reveal_strlit("this creature is blocked");
        assert("this creature is blue"@.len() == 21 && "this creature is blocked"@.len() == 24);
    }
    assert("this creature is blue"@ != "this creature is attacking or blocking"@) by {
        reveal_strlit("this creature is attacking or blocking");
        assert("this creature is blue"@.len() == 21 && "this creature is attacking or blocking"@.len() == 38);
    }
    assert("this creature is blue"@ != "this creature is attacking or blocking and only once each turn"@) by {
        reveal_strlit("this creature is attacking or blocking and only once each turn");
        assert("this creature is blue"@.len() == 21 && "this creature is attacking or blocking and only once each turn"@.len() == 62);
    }
    assert("this creature is blue"@ != "this permanent is a creature"@) by {
        reveal_strlit("this permanent is a creature");
        assert("this creature is blue"@.len() == 21 && "this permanent is a creature"@.len() == 28);
    }
    assert("this creature is blue"@ != "this creature entered this turn"@) by {
        reveal_strlit("this creature entered this turn");
        assert("this creature is blue"@.len() == 21 && "this creature entered this turn"@.len() == 31);
    }
    assert("this creature is blue"@ != "this land entered this turn"@) by {
        reveal_strlit("this land entered this turn");
        assert("this creature is blue"@.len() == 21 && "this land entered this turn"@.len() == 27);
    }
    assert("this creature is blue"@ != "enchanted land is untapped"@) by {
        reveal_strlit("enchanted land is untapped");
        assert("this creature is blue"@.len() == 21 && "enchanted land is untapped"@.len() == 26);
    }
    assert("this creature is blue"@ != "enchanted creature is untapped"@) by {
        reveal_strlit("enchanted creature is untapped");
        assert("this creature is blue"@.len() == 21 && "enchanted creature is untapped"@.len() == 30);
    }
    assert("this creature is blue"@ != "this creature doesn't have defender"@) by {
        reveal_strlit("this creature doesn't have defender");
        assert("this creature is blue"@.len() == 21 && "this creature doesn't have defender"@.len() == 35);
    }
}

/// What texts about a source say: where it is, whether it attacks, blocks or is blocked, whether it
/// is a creature, came in this turn, is attached to something untapped, has no defender, is blue.
pub proof fn texts_about_a_source(g: Game, p: PlayerId, source: ObjectId)
    ensures
        ({
            let o = if g.objects.dom().contains(source) {
                Some(g.objects[source])
            } else {
                None
            };
            let host = if o is Some && o->0.attached_to is Some && g.objects.dom().contains(
                o->0.attached_to->0,
            ) {
                Some(g.objects[o->0.attached_to->0])
            } else {
                None
            };
            &&& text_holds(g, p, source, "from your graveyard"@) <==> o is Some && o->0.zone is Graveyard
            &&& text_holds(g, p, source, "this card is in your graveyard"@) <==> o is Some && o->0.zone is Graveyard
            &&& text_holds(g, p, source, "this card is suspended"@) <==> o is Some && o->0.zone is Exile
            &&& text_holds(g, p, source, "this creature is attacking"@) <==> is_attacker(g, source)
            &&& text_holds(g, p, source, "this creature is blocked"@) <==> has_blockers(g, source)
            &&& text_holds(g, p, source, "this creature is attacking or blocking"@) <==> is_attacker(g, source) || is_blocker(g, source)
            &&& text_holds(g, p, source, "this permanent is a creature"@) <==> o is Some && o->0.card_types.core_types.contains(CoreType::Creature)
            &&& text_holds(g, p, source, "this creature entered this turn"@) <==> o is Some && o->0.entered_battlefield_turn == Some(g.turn_number)
            &&& text_holds(g, p, source, "this land entered this turn"@) <==> o is Some && o->0.entered_battlefield_turn == Some(g.turn_number)
            &&& text_holds(g, p, source, "enchanted land is untapped"@) <==> host is Some && !host->0.tapped && host->0.card_types.core_types.contains(CoreType::Land)
            &&& text_holds(g, p, source, "enchanted creature is untapped"@) <==> host is Some && !host->0.tapped && host->0.card_types.core_types.contains(CoreType::Creature)
            &&& text_holds(g, p, source, "this creature doesn't have defender"@) <==> o is Some && !o->0.keywords.contains(Keyword::Defender)
            &&& text_holds(g, p, source, "this creature is blue"@) <==> o is Some && o->0.color.contains(ManaColor::Blue)
        }),
{
    lemma_source_text_1();
    lemma_source_text_2();
    lemma_source_text_3();
    lemma_source_text_4();
    lemma_source_text_5();
    lemma_source_text_7();
    lemma_source_text_8();
    lemma_source_text_9();
    lemma_source_text_10();
    lemma_source_text_11();
    lemma_source_text_12();
    lemma_source_text_13();
    if g.objects.dom().contains(source) {
        lemma_defender(g.objects[source].keywords);
    }
}

proof fn lemma_history_text_1()
    ensures
        "an opponent searched their library this turn"@ != "this spell is the first spell you've cast this game"@,
{
    reveal_strlit("an opponent searched their library this turn");
    assert("an opponent searched their library this turn"@ != "this spell is the first spell you've cast this game"@) by {
        reveal_strlit("this spell is the first spell you've cast this game");
        assert("an opponent searched their library this turn"@.len() == 44 && "this spell is the first spell you've cast this game"@.len() == 51);
    }
}

proof fn lemma_history_text_2()
    ensures
        "you've been attacked this step"@ != "this spell is the first spell you've cast this game"@,
        "you've been attacked this step"@ != "an opponent searched their library this turn"@,
{
    reveal_strlit("you've been attacked this step");
    assert("you've been attacked this step"@ != "this spell is the first spell you've cast this game"@) by {
        reveal_strlit("this spell is the first spell you've cast this game");
        assert("you've been attacked this step"@.len() == 30 && "this spell is the first spell you've cast this game"@.len() == 51);
    }
    assert("you've been attacked this step"@ != "an opponent searched their library this turn"@) by {
        reveal_strlit("an opponent searched their library this turn");
        assert("you've been attacked this step"@.len() == 30 && "an opponent searched their library this turn"@.len() == 44);
    }
}

proof fn lemma_history_text_3()
    ensures
        "an opponent has three or more poison counters"@ != "this spell is the first spell you've cast this game"@,
        "an opponent has three or more poison counters"@ != "an opponent searched their library this turn"@,
        "an opponent has three or more poison counters"@ != "you've been attacked this step"@,
{
    reveal_strlit("an opponent has three or more poison counters");
    assert("an opponent has three or more poison counters"@ != "this spell is the first spell you've cast this game"@) by {
        reveal_strlit("this spell is the first spell you've cast this game");
        assert("an opponent has three or more poison counters"@.len() == 45 && "this spell is the first spell you've cast this game"@.len() == 51);
    }
    assert("an opponent has three or more poison counters"@ != "an opponent searched their library this turn"@) by {
        reveal_strlit("an opponent searched their library this turn");
        assert("an opponent has three or more poison counters"@.len() == 45 && "an opponent searched their library this turn"@.len() == 44);
    }
    assert("an opponent has three or more poison counters"@ != "you've been attacked this step"@) by {
        reveal_strlit("you've been attacked this step");
        assert("an opponent has three or more poison counters"@.len() == 45 && "you've been attacked this step"@.len() == 30);
    }
}

proof fn lemma_history_text_4()
    ensures
        "you attacked this turn"@ != "this spell is the first spell you've cast this game"@,
        "you attacked this turn"@ != "an opponent searched their library this turn"@,
        "you attacked this turn"@ != "you've been attacked this step"@,
        "you attacked this turn"@ != "an opponent has three or more poison counters"@,
{
    reveal_strlit("you attacked this turn");
    assert("you attacked this turn"@ != "this spell is the first spell you've cast this game"@) by {
        reveal_strlit("this spell is the first spell you've cast this game");
        assert("you attacked this turn"@.len() == 22 && "this spell is the first spell you've cast this game"@.len() == 51);
    }
    assert("you attacked this turn"@ != "an opponent searched their library this turn"@) by {
        reveal_strlit("an opponent searched their library this turn");
        assert("you attacked this turn"@.len() == 22 && "an opponent searched their library this turn"@.len() == 44);
    }
    assert("you attacked this turn"@ != "you've been attacked this step"@) by {
        reveal_strlit("you've been attacked this step");
        assert("you attacked this turn"@.len() == 22 && "you've been attacked this step"@.len() == 30);
    }
    assert("you attacked this turn"@ != "an opponent has three or more poison counters"@) by {
        reveal_strlit("an opponent has three or more poison counters");
        assert("you attacked this turn"@.len() == 22 && "an opponent has three or more poison counters"@.len() == 45);
    }
}

proof fn lemma_history_text_6()
    ensures
        "you created a token this turn"@ != "this spell is the first spell you've cast this game"@,
        "you created a token this turn"@ != "an opponent searched their library this turn"@,
        "you created a token this turn"@ != "you've been attacked this step"@,
        "you created a token this turn"@ != "an opponent has three or more poison counters"@,
        "you created a token this turn"@ != "you attacked this turn"@,
        "you created a token this turn"@ != "you gained life this turn"@,
{
    reveal_strlit("you created a token this turn");
    assert("you created a token this turn"@ != "this spell is the first spell you've cast this game"@) by {
        reveal_strlit("this spell is the first spell you've cast this game");
        assert("you created a token this turn"@.len() == 29 && "this spell is the first spell you've cast this game"@.len() == 51);
    }
    assert("you created a token this turn"@ != "an opponent searched their library this turn"@) by {
        reveal_strlit("an opponent searched their library this turn");
        assert("you created a token this turn"@.len() == 29 && "an opponent searched their library this turn"@.len() == 44);
    }
    assert("you created a token this turn"@ != "you've been attacked this step"@) by {
        reveal_strlit("you've been attacked this step");
        assert("you created a token this turn"@.len() == 29 && "you've been attacked this step"@.len() == 30);
    }
    assert("you created a token this turn"@ != "an opponent has three or more poison counters"@) by {
        reveal_strlit("an opponent has three or more poison counters");
        assert("you created a token this turn"@.len() == 29 && "an opponent has three or more poison counters"@.len() == 45);
    }
    assert("you created a token this turn"@ != "you attacked this turn"@) by {
        reveal_strlit("you attacked this turn");
        assert("you created a token this turn"@.len() == 29 && "you attacked this turn"@.len() == 22);
    }
    assert("you created a token this turn"@ != "you gained life this turn"@) by {
        reveal_strlit("you gained life this turn");
        assert("you created a token this turn"@.len() == 29 && "you gained life this turn"@.len() == 25);
    }
}

proof fn lemma_history_text_7()
    ensures
        "a creature died this turn"@ != "this spell is the first spell you've cast this game"@,
        "a creature died this turn"@ != "an opponent searched their library this turn"@,
        "a creature died this turn"@ != "you've been attacked this step"@,
        "a creature died this turn"@ != "an opponent has three or more poison counters"@,
        "a creature died this turn"@ != "you attacked this turn"@,
        "a creature died this turn"@ != "you gained life this turn"@,
        "a creature died this turn"@ != "you created a token this turn"@,
{
    reveal_strlit("a creature died this turn");
    assert("a creature died this turn"@ != "this spell is the first spell you've cast this game"@) by {
        reveal_strlit("this spell is the first spell you've cast this game");
        assert("a creature died this turn"@.len() == 25 && "this spell is the first spell you've cast this game"@.len() == 51);
    }
    assert("a creature died this turn"@ != "an opponent searched their library this turn"@) by {
        reveal_strlit("an opponent searched their library this turn");
        assert("a creature died this turn"@.len() == 25 && "an opponent searched their library this turn"@.len() == 44);
    }
    assert("a creature died this turn"@ != "you've been attacked this step"@) by {
        reveal_strlit("you've been attacked this step");
        assert("a creature died this turn"@.len() == 25 && "you've been attacked this step"@.len() == 30);
    }
    assert("a creature died this turn"@ != "an opponent has three or more poison counters"@) by {
        reveal_strlit("an opponent has three or more poison counters");
        assert("a creature died this turn"@.len() == 25 && "an opponent has three or more poison counters"@.len() == 45);
    }
    assert("a creature died this turn"@ != "you attacked this turn"@) by {
        reveal_strlit("you attacked this turn");
        assert("a creature died this turn"@.len() == 25 && "you attacked this turn"@.len() == 22);
    }
    assert("a creature died this turn"@ != "you gained life this turn"@) by {
        reveal_strlit("you gained life this turn");
        assert("a creature died this turn"@[0] == 'a' && "you gained life this turn"@[0] == 'y');
    }
    assert("a creature died this turn"@ != "you created a token this turn"@) by {
        reveal_strlit("you created a token this turn");
        assert("a creature died this turn"@.len() == 25 && "you created a token this turn"@.len() == 29);
    }
}

proof fn lemma_history_text_9()
    ensures
        "you've discarded a card this turn"@ != "this spell is the first spell you've cast this game"@,
        "you've discarded a card this turn"@ != "an opponent searched their library this turn"@,
        "you've discarded a card this turn"@ != "you've been attacked this step"@,
        "you've discarded a card this turn"@ != "an opponent has three or more poison counters"@,
        "you've discarded a card this turn"@ != "you attacked this turn"@,
        "you've discarded a card this turn"@ != "you gained life this turn"@,
        "you've discarded a card this turn"@ != "you created a token this turn"@,
        "you've discarded a card this turn"@ != "a creature died this turn"@,
        "you've discarded a card this turn"@ != "you've cast a noncreature spell this turn"@,
{
    reveal_strlit("you've discarded a card this turn");
    assert("you've discarded a card this turn"@ != "this spell is the first spell you've cast this game"@) by {
        reveal_strlit("this spell is the first spell you've cast this game");
        assert("you've discarded a card this turn"@.len() == 33 && "this spell is the first spell you've cast this game"@.len() == 51);
    }
    assert("you've discarded a card this turn"@ != "an opponent searched their library this turn"@) by {
        reveal_strlit("an opponent searched their library this turn");
        assert("you've discarded a card this turn"@.len() == 33 && "an opponent searched their library this turn"@.len() == 44);
    }
    assert("you've discarded a card this turn"@ != "you've been attacked this step"@) by {
        reveal_strlit("you've been attacked this step");
        assert("you've discarded a card this turn"@.len() == 33 && "you've been attacked this step"@.len() == 30);
    }
    assert("you've discarded a card this turn"@ != "an opponent has three or more poison counters"@) by {
        reveal_strlit("an opponent has three or more poison counters");
        assert("you've discarded a card this turn"@.len() == 33 && "an opponent has three or more poison counters"@.len() == 45);
    }
    assert("you've discarded a card this turn"@ != "you attacked this turn"@) by {
        reveal_strlit("you attacked this turn");
        assert("you've discarded a card this turn"@.len() == 33 && "you attacked this turn"@.len() == 22);
    }
    assert("you've discarded a card this turn"@ != "you gained life this turn"@) by {
        reveal_strlit("you gained life this turn");
        assert("you've discarded a card this turn"@.len() == 33 && "you gained life this turn"@.len() == 25);
    }
    assert("you've discarded a card this turn"@ != "you created a token this turn"@) by {
        reveal_strlit("you created a token this turn");
        assert("you've discarded a card this turn"@.len() == 33 && "you created a token this turn"@.len() == 29);
    }
    assert("you've discarded a card this turn"@ != "a creature died this turn"@) by {
        reveal_strlit("a creature died this turn");
        assert("you've discarded a card this turn"@.len() == 33 && "a creature died this turn"@.len() == 25);
    }
    assert("you've discarded a card this turn"@ != "you've cast a noncreature spell this turn"@) by {
        reveal_strlit("you've cast a noncreature spell this turn");
        assert("you've discarded a card this turn"@.len() == 33 && "you've cast a noncreature spell this turn"@.len() == 41);
    }
}

proof fn lemma_history_text_10()
    ensures
        "you've sacrificed an artifact this turn"@ != "this spell is the first spell you've cast this game"@,
        "you've sacrificed an artifact this turn"@ != "an opponent searched their library this turn"@,
        "you've sacrificed an artifact this turn"@ != "you've been attacked this step"@,
        "you've sacrificed an artifact this turn"@ != "an opponent has three or more poison counters"@,
        "you've sacrificed an artifact this turn"@ != "you attacked this turn"@,
        "you've sacrificed an artifact this turn"@ != "you gained life this turn"@,
        "you've sacrificed an artifact this turn"@ != "you created a token this turn"@,
        "you've sacrificed an artifact this turn"@ != "a creature died this turn"@,
        "you've sacrificed an artifact this turn"@ != "you've cast a noncreature spell this turn"@,
        "you've sacrificed an artifact this turn"@ != "you've discarded a card this turn"@,
{
    reveal_strlit("you've sacrificed an artifact this turn");
    assert("you've sacrificed an artifact this turn"@ != "this spell is the first spell you've cast this game"@) by {
        reveal_strlit("this spell is the first spell you've cast this game");
        assert("you've sacrificed an artifact this turn"@.len() == 39 && "this spell is the first spell you've cast this game"@.len() == 51);
    }
    assert("you've sacrificed an artifact this turn"@ != "an opponent searched their library this turn"@) by {
        reveal_strlit("an opponent searched their library this turn");
        assert("you've sacrificed an artifact this turn"@.len() == 39 && "an opponent searched their library this turn"@.len() == 44);
    }
    assert("you've sacrificed an artifact this turn"@ != "you've been attacked this step"@) by {
        reveal_strlit("you've been attacked this step");
        assert("you've sacrificed an artifact this turn"@.len() == 39 && "you've been attacked this step"@.len() == 30);
    }
    assert("you've sacrificed an artifact this turn"@ != "an opponent has three or more poison counters"@) by {
        reveal_strlit("an opponent has three or more poison counters");
        assert("you've sacrificed an artifact this turn"@.len() == 39 && "an opponent has three or more poison counters"@.len() == 45);
    }
    assert("you've sacrificed an artifact this turn"@ != "you attacked this turn"@) by {
        reveal_strlit("you attacked this turn");
        assert("you've sacrificed an artifact this turn"@.len() == 39 && "you attacked this turn"@.len() == 22);
    }
    assert("you've sacrificed an artifact this turn"@ != "you gained life this turn"@) by {
        reveal_strlit("you gained life this turn");
        assert("you've sacrificed an artifact this turn"@.len() == 39 && "you gained life this turn"@.len() == 25);
    }
    assert("you've sacrificed an artifact this turn"@ != "you created a token this turn"@) by {
        reveal_strlit("you created a token this turn");
        assert("you've sacrificed an artifact this turn"@.len() == 39 && "you created a token this turn"@.len() == 29);
    }
    assert("you've sacrificed an artifact this turn"@ != "a creature died this turn"@) by {
        reveal_strlit("a creature died this turn");
        assert("you've sacrificed an artifact this turn"@.len() == 39 && "a creature died this turn"@.len() == 25);
    }
    assert("you've sacrificed an artifact this turn"@ != "you've cast a noncreature spell this turn"@) by {
        reveal_strlit("you've cast a noncreature spell this turn");
        assert("you've sacrificed an artifact this turn"@.len() == 39 && "you've cast a noncreature spell this turn"@.len() == 41);
    }
    assert("you've sacrificed an artifact this turn"@ != "you've discarded a card this turn"@) by {
        reveal_strlit("you've discarded a card this turn");
        assert("you've sacrificed an artifact this turn"@.len() == 39 && "you've discarded a card this turn"@.len() == 33);
    }
}

proof fn lemma_history_text_11()
    ensures
        "you had a creature enter the battlefield under your control this turn"@ != "this spell is the first spell you've cast this game"@,
        "you had a creature enter the battlefield under your control this turn"@ != "an opponent searched their library this turn"@,
        "you had a creature enter the battlefield under your control this turn"@ != "you've been attacked this step"@,
        "you had a creature enter the battlefield under your control this turn"@ != "an opponent has three or more poison counters"@,
        "you had a creature enter the battlefield under your control this turn"@ != "you attacked this turn"@,
        "you had a creature enter the battlefield under your control this turn"@ != "you gained life this turn"@,
        "you had a creature enter the battlefield under your control this turn"@ != "you created a token this turn"@,
        "you had a creature enter the battlefield under your control this turn"@ != "a creature died this turn"@,
        "you had a creature enter the battlefield under your control this turn"@ != "you've cast a noncreature spell this turn"@,
        "you had a creature enter the battlefield under your control this turn"@ != "you've discarded a card this turn"@,
        "you had a creature enter the battlefield under your control this turn"@ != "you've sacrificed an artifact this turn"@,
        "you had a creature enter the battlefield under your control this turn"@ != "you have no cards in hand"@,
        "you had a creature enter the battlefield under your control this turn"@ != "you have more cards in hand than each opponent"@,
        "you had a creature enter the battlefield under your control this turn"@ != "you have exactly zero or seven cards in hand"@,
{
    reveal_strlit("you had a creature enter the battlefield under your control this turn");
    assert("you had a creature enter the battlefield under your control this turn"@ != "this spell is the first spell you've cast this game"@) by {
        reveal_strlit("this spell is the first spell you've cast this game");
        assert("you had a creature enter the battlefield under your control this turn"@.len() == 69 && "this spell is the first spell you've cast this game"@.len() == 51);
    }
    assert("you had a creature enter the battlefield under your control this turn"@ != "an opponent searched their library this turn"@) by {
        reveal_strlit("an opponent searched their library this turn");
        assert("you had a creature enter the battlefield under your control this turn"@.len() == 69 && "an opponent searched their library this turn"@.len() == 44);
    }
    assert("you had a creature enter the battlefield under your control this turn"@ != "you've been attacked this step"@) by {
        reveal_strlit("you've been attacked this step");
        assert("you had a creature enter the battlefield under your control this turn"@.len() == 69 && "you've been attacked this step"@.len() == 30);
    }
    assert("you had a creature enter the battlefield under your control this turn"@ != "an opponent has three or more poison counters"@) by {
        reveal_strlit("an opponent has three or more poison counters");
        assert("you had a creature enter the battlefield under your control this turn"@.len() == 69 && "an opponent has three or more poison counters"@.len() == 45);
    }
    assert("you had a creature enter the battlefield under your control this turn"@ != "you attacked this turn"@) by {
        reveal_strlit("you attacked this turn");
        assert("you had a creature enter the battlefield under your control this turn"@.len() == 69 && "you attacked this turn"@.len() == 22);
    }
    assert("you had a creature enter the battlefield under your control this turn"@ != "you gained life this turn"@) by {
        reveal_strlit("you gained life this turn");
        assert("you had a creature enter the battlefield under your control this turn"@.len() == 69 && "you gained life this turn"@.len() == 25);
    }
    assert("you had a creature enter the battlefield under your control this turn"@ != "you created a token this turn"@) by {
        reveal_strlit("you created a token this turn");
        assert("you had a creature enter the battlefield under your control this turn"@.len() == 69 && "you created a token this turn"@.len() == 29);
    }
    assert("you had a creature enter the battlefield under your control this turn"@ != "a creature died this turn"@) by {
        reveal_strlit("a creature died this turn");
        assert("you had a creature enter the battlefield under your control this turn"@.len() == 69 && "a creature died this turn"@.len() == 25);
    }
    assert("you had a creature enter the battlefield under your control this turn"@ != "you've cast a noncreature spell this turn"@) by {
        reveal_strlit("you've cast a noncreature spell this turn");
        assert("you had a creature enter the battlefield under your control this turn"@.len() == 69 && "you've cast a noncreature spell this turn"@.len() == 41);
    }
    assert("you had a creature enter the battlefield under your control this turn"@ != "you've discarded a card this turn"@) by {
        reveal_strlit("you've discarded a card this turn");
        assert("you had a creature enter the battlefield under your control this turn"@.len() == 69 && "you've discarded a card this turn"@.len() == 33);
    }
    assert("you had a creature enter the battlefield under your control this turn"@ != "you've sacrificed an artifact this turn"@) by {
        reveal_strlit("you've sacrificed an artifact this turn");
        assert("you had a creature enter the battlefield under your control this turn"@.len() == 69 && "you've sacrificed an artifact this turn"@.len() == 39);
    }
    assert("you had a creature enter the battlefield under your control this turn"@ != "you have no cards in hand"@) by {
        reveal_strlit("you have no cards in hand");
        assert("you had a creature enter the battlefield under your control this turn"@.len() == 69 && "you have no cards in hand"@.len() == 25);
    }
    assert("you had a creature enter the battlefield under your control this turn"@ != "you have more cards in hand than each opponent"@) by {
        reveal_strlit("you have more cards in hand than each opponent");
        assert("you had a creature enter the battlefield under your control this turn"@.len() == 69 && "you have more cards in hand than each opponent"@.len() == 46);
    }
    assert("you had a creature enter the battlefield under your control this turn"@ != "you have exactly zero or seven cards in hand"@) by {
        reveal_strlit("you have exactly zero or seven cards in hand");
        assert("you had a creature enter the battlefield under your control this turn"@.len() == 69 && "you have exactly zero or seven cards in hand"@.len() == 44);
    }
}

proof fn lemma_history_text_12()
    ensures
        "you had an angel or berserker enter the battlefield under your control this turn"@ != "this spell is the first spell you've cast this game"@,
        "you had an angel or berserker enter the battlefield under your control this turn"@ != "an opponent searched their library this turn"@,
        "you had an angel or berserker enter the battlefield under your control this turn"@ != "you've been attacked this step"@,
        "you had an angel or berserker enter the battlefield under your control this turn"@ != "an opponent has three or more poison counters"@,
        "you had an angel or berserker enter the battlefield under your control this turn"@ != "you attacked this turn"@,
        "you had an angel or berserker enter the battlefield under your control this turn"@ != "you gained life this turn"@,
        "you had an angel or berserker enter the battlefield under your control this turn"@ != "you created a token this turn"@,
        "you had an angel or berserker enter the battlefield under your control this turn"@ != "a creature died this turn"@,
        "you had an angel or berserker enter the battlefield under your control this turn"@ != "you've cast a noncreature spell this turn"@,
        "you had an angel or berserker enter the battlefield under your control this turn"@ != "you've discarded a card this turn"@,
        "you had an angel or berserker enter the battlefield under your control this turn"@ != "you've sacrificed an artifact this turn"@,
        "you had an angel or berserker enter the battlefield under your control this turn"@ != "you had a creature enter the battlefield under your control this turn"@,
        "you had an angel or berserker enter the battlefield under your control this turn"@ != "you have no cards in hand"@,
        "you had an angel or berserker enter the battlefield under your control this turn"@ != "you have more cards in hand than each opponent"@,
        "you had an angel or berserker enter the battlefield under your control this turn"@ != "you have exactly zero or seven cards in hand"@,
{
    reveal_strlit("you had an angel or berserker enter the battlefield under your control this turn");
    assert("you had an angel or berserker enter the battlefield under your control this turn"@ != "this spell is the first spell you've cast this game"@) by {
        reveal_strlit("this spell is the first spell you've cast this game");
        assert("you had an angel or berserker enter the battlefield under your control this turn"@.len() == 80 && "this spell is the first spell you've cast this game"@.len() == 51);
    }
    assert("you had an angel or berserker enter the battlefield under your control this turn"@ != "an opponent searched their library this turn"@) by {
        reveal_strlit("an opponent searched their library this turn");
        assert("you had an angel or berserker enter the battlefield under your control this turn"@.len() == 80 && "an opponent searched their library this turn"@.len() == 44);
    }
    assert("you had an angel or berserker enter the battlefield under your control this turn"@ != "you've been attacked this step"@) by {
        reveal_strlit("you've been attacked this step");
        assert("you had an angel or berserker enter the battlefield under your control this turn"@.len() == 80 && "you've been attacked this step"@.len() == 30);
    }
    assert("you had an angel or berserker enter the battlefield under your control this turn"@ != "an opponent has three or more poison counters"@) by {
        reveal_strlit("an opponent has three or more poison counters");
        assert("you had an angel or berserker enter the battlefield under your control this turn"@.len() == 80 && "an opponent has three or more poison counters"@.len() == 45);
    }
    assert("you had an angel or berserker enter the battlefield under your control this turn"@ != "you attacked this turn"@) by {
        reveal_strlit("you attacked this turn");
        assert("you had an angel or berserker enter the battlefield under your control this turn"@.len() == 80 && "you attacked this turn"@.len() == 22);
    }
    assert("you had an angel or berserker enter the battlefield under your control this turn"@ != "you gained life this turn"@) by {
        reveal_strlit("you gained life this turn");
        assert("you had an angel or berserker enter the battlefield under your control this turn"@.len() == 80 && "you gained life this turn"@.len() == 25);
    }
    assert("you had an angel or berserker enter the battlefield under your control this turn"@ != "you created a token this turn"@) by {
        reveal_strlit("you created a token this turn");
        assert("you had an angel or berserker enter the battlefield under your control this turn"@.len() == 80 && "you created a token this turn"@.len() == 29);
    }
    assert("you had an angel or berserker enter the battlefield under your control this turn"@ != "a creature died this turn"@) by {
        reveal_strlit("a creature died this turn");
        assert("you had an angel or berserker enter the battlefield under your control this turn"@.len() == 80 && "a creature died this turn"@.len() == 25);
    }
    assert("you had an angel or berserker enter the battlefield under your control this turn"@ != "you've cast a noncreature spell this turn"@) by {
        reveal_strlit("you've cast a noncreature spell this turn");
        assert("you had an angel or berserker enter the battlefield under your control this turn"@.len() == 80 && "you've cast a noncreature spell this turn"@.len() == 41);
    }
    assert("you had an angel or berserker enter the battlefield under your control this turn"@ != "you've discarded a card this turn"@) by {
        reveal_strlit("you've discarded a card this turn");
        assert("you had an angel or berserker enter the battlefield under your control this turn"@.len() == 80 && "you've discarded a card this turn"@.len() == 33);
    }
    assert("you had an angel or berserker enter the battlefield under your control this turn"@ != "you've sacrificed an artifact this turn"@) by {
        reveal_strlit("you've sacrificed an artifact this turn");
        assert("you had an angel or berserker enter the battlefield under your control this turn"@.len() == 80 && "you've sacrificed an artifact this turn"@.len() == 39);
    }
    assert("you had an angel or berserker enter the battlefield under your control this turn"@ != "you had a creature enter the battlefield under your control this turn"@) by {
        reveal_strlit("you had a creature enter the battlefield under your control this turn");
        assert("you had an angel or berserker enter the battlefield under your control this turn"@.len() == 80 && "you had a creature enter the battlefield under your control this turn"@.len() == 69);
    }
    assert("you had an angel or berserker enter the battlefield under your control this turn"@ != "you have no cards in hand"@) by {
        reveal_strlit("you have no cards in hand");
        assert("you had an angel or berserker enter the battlefield under your control this turn"@.len() == 80 && "you have no cards in hand"@.len() == 25);
    }
    assert("you had an angel or berserker enter the battlefield under your control this turn"@ != "you have more cards in hand than each opponent"@) by {
        reveal_strlit("you have more cards in hand than each opponent");
        assert("you had an angel or berserker enter the battlefield under your control this turn"@.len() == 80 && "you have more cards in hand than each opponent"@.len() == 46);
    }
    assert("you had an angel or berserker enter the battlefield under your control this turn"@ != "you have exactly zero or seven cards in hand"@) by {
        reveal_strlit("you have exactly zero or seven cards in hand");
        assert("you had an angel or berserker enter the battlefield under your control this turn"@.len() == 80 && "you have exactly zero or seven cards in hand"@.len() == 44);
    }
}

/// Whether a text differs from another at a place.
spec fn differs_at(s: Seq<char>, p: Seq<char>, k: int) -> bool {
    0 <= k < s.len() && k < p.len() && s[k] != p[k]
}

proof fn lemma_not_after(s: Seq<char>, p: Seq<char>, k: int)
    requires
        differs_at(s, p, k),
    ensures
        after_prefix(s, p) is None,
        s != p,
{
    if p.len() <= s.len() && s.take(p.len() as int) == p {
        assert(s.take(p.len() as int)[k] == s[k]);
    }
}

/// A text that begins with "a" or with "you" but neither with "you control" nor with "you have"
/// speaks of what has happened.
proof fn lemma_about_history(s: Seq<char>, k: int, j: int)
    requires
        s.len() > 0,
        s[0] == 'a' || s[0] == 'y',
        0 <= k < 11,
        differs_at(s, "you control"@, k),
        0 <= j < 8,
        differs_at(s, "you have"@, j),
    ensures
        condition_in(s) == history_condition(s),
{
    reveal_strlit("you control");
    reveal_strlit("you have");
    assert(differs_at(s, "from your graveyard"@, 0)) by {
        reveal_strlit("from your graveyard");
    }
    lemma_not_after(s, "from your graveyard"@, 0);
    assert(differs_at(s, "this card is in your graveyard"@, 0)) by {
        reveal_strlit("this card is in your graveyard");
    }
    lemma_not_after(s, "this card is in your graveyard"@, 0);
    assert(differs_at(s, "this card is suspended"@, 0)) by {
        reveal_strlit("this card is suspended");
    }
    lemma_not_after(s, "this card is suspended"@, 0);
    assert(differs_at(s, "this creature is attacking"@, 0)) by {
        reveal_strlit("this creature is attacking");
    }
    lemma_not_after(s, "this creature is attacking"@, 0);
    assert(differs_at(s, "this creature is blocked"@, 0)) by {
        reveal_strlit("this creature is blocked");
    }
    lemma_not_after(s, "this creature is blocked"@, 0);
    assert(differs_at(s, "this creature is attacking or blocking"@, 0)) by {
        reveal_strlit("this creature is attacking or blocking");
    }
    lemma_not_after(s, "this creature is attacking or blocking"@, 0);
    assert(differs_at(s, "this creature is attacking or blocking and only once each turn"@, 0)) by {
        reveal_strlit("this creature is attacking or blocking and only once each turn");
    }
    lemma_not_after(s, "this creature is attacking or blocking and only once each turn"@, 0);
    assert(differs_at(s, "this permanent is a creature"@, 0)) by {
        reveal_strlit("this permanent is a creature");
    }
    lemma_not_after(s, "this permanent is a creature"@, 0);
    assert(differs_at(s, "this creature entered this turn"@, 0)) by {
        reveal_strlit("this creature entered this turn");
    }
    lemma_not_after(s, "this creature entered this turn"@, 0);
    assert(differs_at(s, "this land entered this turn"@, 0)) by {
        reveal_strlit("this land entered this turn");
    }
    lemma_not_after(s, "this land entered this turn"@, 0);
    assert(differs_at(s, "enchanted land is untapped"@, 0)) by {
        reveal_strlit("enchanted land is untapped");
    }
    lemma_not_after(s, "enchanted land is untapped"@, 0);
    assert(differs_at(s, "enchanted creature is untapped"@, 0)) by {
        reveal_strlit("enchanted creature is untapped");
    }
    lemma_not_after(s, "enchanted creature is untapped"@, 0);
    assert(differs_at(s, "this creature doesn't have defender"@, 0)) by {
        reveal_strlit("this creature doesn't have defender");
    }
    lemma_not_after(s, "this creature doesn't have defender"@, 0);
    assert(differs_at(s, "this creature is blue"@, 0)) by {
        reveal_strlit("this creature is blue");
    }
    lemma_not_after(s, "this creature is blue"@, 0);
    assert(differs_at(s, "this creature's power is "@, 0)) by {
        reveal_strlit("this creature's power is ");
    }
    lemma_not_after(s, "this creature's power is "@, 0);
    assert(differs_at(s, "this artifact has "@, 0)) by {
        reveal_strlit("this artifact has ");
    }
    lemma_not_after(s, "this artifact has "@, 0);
    assert(differs_at(s, "this enchantment has "@, 0)) by {
        reveal_strlit("this enchantment has ");
    }
    lemma_not_after(s, "this enchantment has "@, 0);
    assert(differs_at(s, "there are "@, 0)) by {
        reveal_strlit("there are ");
    }
    lemma_not_after(s, "there are "@, 0);
    assert(differs_at(s, "there are no "@, 0)) by {
        reveal_strlit("there are no ");
    }
    lemma_not_after(s, "there are no "@, 0);
    assert(differs_at(s, "there are "@, 0)) by {
        reveal_strlit("there are ");
    }
    lemma_not_after(s, "there are "@, 0);
    assert(differs_at(s, "there is an "@, 0)) by {
        reveal_strlit("there is an ");
    }
    lemma_not_after(s, "there is an "@, 0);
    assert(differs_at(s, "two or more "@, 0)) by {
        reveal_strlit("two or more ");
    }
    lemma_not_after(s, "two or more "@, 0);
    assert(differs_at(s, "creatures you control have total power "@, 0)) by {
        reveal_strlit("creatures you control have total power ");
    }
    lemma_not_after(s, "creatures you control have total power "@, 0);
    assert(differs_at(s, "you control a desert or there is a desert card in your graveyard"@, k)) by {
        reveal_strlit("you control a desert or there is a desert card in your graveyard");
    }
    lemma_not_after(s, "you control a desert or there is a desert card in your graveyard"@, k);
    assert(differs_at(s, "you control a creature with flying"@, k)) by {
        reveal_strlit("you control a creature with flying");
    }
    lemma_not_after(s, "you control a creature with flying"@, k);
    assert(differs_at(s, "you control a legendary creature"@, k)) by {
        reveal_strlit("you control a legendary creature");
    }
    lemma_not_after(s, "you control a legendary creature"@, k);
    assert(differs_at(s, "you control another colorless creature"@, k)) by {
        reveal_strlit("you control another colorless creature");
    }
    lemma_not_after(s, "you control another colorless creature"@, k);
    assert(differs_at(s, "you control fewer creatures than each opponent"@, k)) by {
        reveal_strlit("you control fewer creatures than each opponent");
    }
    lemma_not_after(s, "you control fewer creatures than each opponent"@, k);
    assert(differs_at(s, "you control no creatures"@, k)) by {
        reveal_strlit("you control no creatures");
    }
    lemma_not_after(s, "you control no creatures"@, k);
    assert(differs_at(s, "you control "@, k)) by {
        reveal_strlit("you control ");
    }
    lemma_not_after(s, "you control "@, k);
    assert(differs_at(s, "you control a "@, k)) by {
        reveal_strlit("you control a ");
    }
    lemma_not_after(s, "you control a "@, k);
    assert(differs_at(s, "you control an "@, k)) by {
        reveal_strlit("you control an ");
    }
    lemma_not_after(s, "you control an "@, k);
    assert(differs_at(s, "you control a creature with power "@, k)) by {
        reveal_strlit("you control a creature with power ");
    }
    lemma_not_after(s, "you control a creature with power "@, k);
    assert(differs_at(s, "you have no cards in hand"@, j)) by {
        reveal_strlit("you have no cards in hand");
    }
    lemma_not_after(s, "you have no cards in hand"@, j);
    assert(differs_at(s, "you have more cards in hand than each opponent"@, j)) by {
        reveal_strlit("you have more cards in hand than each opponent");
    }
    lemma_not_after(s, "you have more cards in hand than each opponent"@, j);
    assert(differs_at(s, "you have exactly zero or seven cards in hand"@, j)) by {
        reveal_strlit("you have exactly zero or seven cards in hand");
    }
    lemma_not_after(s, "you have exactly zero or seven cards in hand"@, j);
    assert(differs_at(s, "you have exactly "@, j)) by {
        reveal_strlit("you have exactly ");
    }
    lemma_not_after(s, "you have exactly "@, j);
}

/// What texts about the turn say: who attacked, was attacked, created tokens, discarded, sacrificed,
/// had creatures enter, or searched a library; and whether a creature died.
pub proof fn texts_about_the_turn(g: Game, p: PlayerId, source: ObjectId)
    ensures
        text_holds(g, p, source, "an opponent searched their library this turn"@) <==> (exists|q: PlayerId| q != p && g.players_who_searched_library_this_turn.contains(q)),
        text_holds(g, p, source, "you've been attacked this step"@) <==> (g.players_attacked_this_step.contains(p)),
        text_holds(g, p, source, "an opponent has three or more poison counters"@) <==> (exists|i: int| 0 <= i < g.players.len() && (#[trigger] g.players[i]).id != p && g.players[i].poison_counters >= 3),
        text_holds(g, p, source, "you attacked this turn"@) <==> (g.players_attacked_this_turn.contains(p)),
        text_holds(g, p, source, "you created a token this turn"@) <==> (g.players_who_created_token_this_turn.contains(p)),
        text_holds(g, p, source, "a creature died this turn"@) <==> (g.creature_died_this_turn),
        text_holds(g, p, source, "you've discarded a card this turn"@) <==> (g.players_who_discarded_card_this_turn.contains(p)),
        text_holds(g, p, source, "you've sacrificed an artifact this turn"@) <==> (g.players_who_sacrificed_artifact_this_turn.contains(p)),
        text_holds(g, p, source, "you had a creature enter the battlefield under your control this turn"@) <==> (g.players_who_had_creature_etb_this_turn.contains(p)),
        text_holds(g, p, source, "you had an angel or berserker enter the battlefield under your control this turn"@) <==> (g.players_who_had_angel_or_berserker_etb_this_turn.contains(p)),
{
    lemma_history_text_1();
    assert(condition_in("an opponent searched their library this turn"@) == history_condition("an opponent searched their library this turn"@)) by {
        reveal_strlit("an opponent searched their library this turn");
        reveal_strlit("you control");
        reveal_strlit("you have");
        lemma_about_history("an opponent searched their library this turn"@, 0, 0);
    }
    lemma_history_text_2();
    assert(condition_in("you've been attacked this step"@) == history_condition("you've been attacked this step"@)) by {
        reveal_strlit("you've been attacked this step");
        reveal_strlit("you control");
        reveal_strlit("you have");
        lemma_about_history("you've been attacked this step"@, 3, 3);
    }
    lemma_history_text_3();
    assert(condition_in("an opponent has three or more poison counters"@) == history_condition("an opponent has three or more poison counters"@)) by {
        reveal_strlit("an opponent has three or more poison counters");
        reveal_strlit("you control");
        reveal_strlit("you have");
        lemma_about_history("an opponent has three or more poison counters"@, 0, 0);
    }
    lemma_history_text_4();
    assert(condition_in("you attacked this turn"@) == history_condition("you attacked this turn"@)) by {
        reveal_strlit("you attacked this turn");
        reveal_strlit("you control");
        reveal_strlit("you have");
        lemma_about_history("you attacked this turn"@, 4, 4);
    }
    lemma_history_text_6();
    assert(condition_in("you created a token this turn"@) == history_condition("you created a token this turn"@)) by {
        reveal_strlit("you created a token this turn");
        reveal_strlit("you control");
        reveal_strlit("you have");
        lemma_about_history("you created a token this turn"@, 5, 4);
    }
    lemma_history_text_7();
    assert(condition_in("a creature died this turn"@) == history_condition("a creature died this turn"@)) by {
        reveal_strlit("a creature died this turn");
        reveal_strlit("you control");
        reveal_strlit("you have");
        lemma_about_history("a creature died this turn"@, 0, 0);
    }
    lemma_history_text_9();
    assert(condition_in("you've discarded a card this turn"@) == history_condition("you've discarded a card this turn"@)) by {
        reveal_strlit("you've discarded a card this turn");
        reveal_strlit("you control");
        reveal_strlit("you have");
        lemma_about_history("you've discarded a card this turn"@, 3, 3);
    }
    lemma_history_text_10();
    assert(condition_in("you've sacrificed an artifact this turn"@) == history_condition("you've sacrificed an artifact this turn"@)) by {
        reveal_strlit("you've sacrificed an artifact this turn");
        reveal_strlit("you control");
        reveal_strlit("you have");
        lemma_about_history("you've sacrificed an artifact this turn"@, 3, 3);
    }
    lemma_history_text_11();
    assert(condition_in("you had a creature enter the battlefield under your control this turn"@) == history_condition("you had a creature enter the battlefield under your control this turn"@)) by {
        reveal_strlit("you had a creature enter the battlefield under your control this turn");
        reveal_strlit("you control");
        reveal_strlit("you have");
        lemma_about_history("you had a creature enter the battlefield under your control this turn"@, 4, 6);
    }
    lemma_history_text_12();
    assert(condition_in("you had an angel or berserker enter the battlefield under your control this turn"@) == history_condition("you had an angel or berserker enter the battlefield under your control this turn"@)) by {
        reveal_strlit("you had an angel or berserker enter the battlefield under your control this turn");
        reveal_strlit("you control");
        reveal_strlit("you have");
        lemma_about_history("you had an angel or berserker enter the battlefield under your control this turn"@, 4, 6);
    }
}

} // verus!
