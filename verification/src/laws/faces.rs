//! What objects get from the faces of cards and from one another.

use vstd::prelude::*;
use crate::cards::{CounterKind, Zone};
use crate::devotion::colors_of_cost;
use crate::ids::{CardId, PlayerId};
use crate::object::{BackFaceModel, CardFaceModel, LayoutKind, ObjectModel, PtValue};
use crate::printed_cards::{
    copiable, copying, created_from_face, face_shown, hidden_face, printed_as, showing,
};
use crate::state::Game;
use crate::zones::next_id;

verus! {

/// Whether nothing of an object differs but what a face decides, its counters, the level of a
/// Class and the state of a Case.
pub open spec fn differs_in_face_only(o: ObjectModel, q: ObjectModel) -> bool {
    &&& q.id == o.id
    &&& q.card_id == o.card_id
    &&& q.owner == o.owner
    &&& q.controller == o.controller
    &&& q.zone == o.zone
    &&& q.back_face == o.back_face
    &&& q.tapped == o.tapped
    &&& q.face_down == o.face_down
    &&& q.damage_marked == o.damage_marked
    &&& q.dealt_deathtouch_damage == o.dealt_deathtouch_damage
    &&& q.attached_to == o.attached_to
    &&& q.attachments == o.attachments
    &&& q.phase_status == o.phase_status
    &&& q.is_token == o.is_token
    &&& q.is_commander == o.is_commander
    &&& q.is_emblem == o.is_emblem
    &&& q.entered_battlefield_turn == o.entered_battlefield_turn
    &&& q.loyalty_activated_this_turn == o.loyalty_activated_this_turn
    &&& q.chosen_attributes == o.chosen_attributes
    &&& q.cast_from_zone == o.cast_from_zone
    &&& q.colors_spent_to_cast == o.colors_spent_to_cast
    &&& q.mana_spent_to_cast_amount == o.mana_spent_to_cast_amount
    &&& q.cost_x_paid == o.cost_x_paid
    &&& q.timestamp == o.timestamp
}

/// An object that gets a face has every characteristic of the face, now and as printed, and is
/// otherwise what it was.
pub proof fn a_face_gives_its_characteristics(o: ObjectModel, b: BackFaceModel)
    ensures
        ({
            let q = showing(o, b);
            &&& q.name == b.name
            &&& q.base_name == b.name
            &&& q.power == b.power
            &&& q.base_power == b.power
            &&& q.toughness == b.toughness
            &&& q.base_toughness == b.toughness
            &&& q.loyalty == b.loyalty
            &&& q.base_loyalty == b.loyalty
            &&& q.card_types == b.card_types
            &&& q.base_card_types == b.card_types
            &&& q.mana_cost == b.mana_cost
            &&& q.base_mana_cost == b.mana_cost
            &&& q.keywords == b.keywords
            &&& q.base_keywords == b.keywords
            &&& q.abilities == b.abilities
            &&& q.base_abilities == b.abilities
            &&& q.trigger_definitions == b.trigger_definitions
            &&& q.base_trigger_definitions == b.trigger_definitions
            &&& q.replacement_definitions == b.replacement_definitions
            &&& q.base_replacement_definitions == b.replacement_definitions
            &&& q.static_definitions == b.static_definitions
            &&& q.base_static_definitions == b.static_definitions
            &&& q.color == b.color
            &&& q.base_color == b.color
            &&& q.printed_ref == b.printed_ref
            &&& q.modal == b.modal
            &&& q.additional_cost == b.additional_cost
            &&& q.strive_cost == b.strive_cost
            &&& q.casting_restrictions == b.casting_restrictions
            &&& q.casting_options == b.casting_options
            &&& q.base_characteristics_initialized
            &&& q.counters == o.counters
            &&& q.class_level == o.class_level
            &&& q.case_state == o.case_state
            &&& differs_in_face_only(o, q)
        }),
{
}

/// The number that is printed: a fixed one is itself, one that depends on the game is zero, and
/// none is none.
pub open spec fn number_printed(v: Option<PtValue>) -> Option<i32> {
    if v is None {
        None
    } else if v->0 is Fixed {
        Some(v->0->Fixed_0)
    } else {
        Some(0)
    }
}

/// An object that gets a printed face has its power and its toughness, each from its own place on
/// the card, its types, cost, keywords and abilities, its colors, and what is printed of casting it.
/// All of that is then as printed.
pub proof fn a_printed_face_gives_what_is_printed(o: ObjectModel, f: CardFaceModel)
    ensures
        ({
            let q = printed_as(o, f);
            &&& q.name == f.name && q.base_name == f.name
            &&& q.power == number_printed(f.power) && q.base_power == number_printed(f.power)
            &&& q.toughness == number_printed(f.toughness) && q.base_toughness == number_printed(
                f.toughness,
            )
            &&& q.card_types == f.card_type && q.base_card_types == f.card_type
            &&& q.mana_cost == f.mana_cost && q.base_mana_cost == f.mana_cost
            &&& q.keywords == f.keywords && q.base_keywords == f.keywords
            &&& q.abilities == f.abilities && q.base_abilities == f.abilities
            &&& q.trigger_definitions == f.triggers && q.base_trigger_definitions == f.triggers
            &&& q.replacement_definitions == f.replacements && q.base_replacement_definitions
                == f.replacements
            &&& q.static_definitions == f.static_abilities && q.base_static_definitions
                == f.static_abilities
            &&& q.color == q.base_color
            &&& f.color_override is Some ==> q.color == f.color_override->0
            &&& f.color_override is None ==> q.color == colors_of_cost(f.mana_cost)
            &&& q.loyalty == q.base_loyalty
            &&& f.loyalty is None ==> q.loyalty is None && q.counters == o.counters
            &&& q.loyalty is Some ==> q.counters == o.counters.insert(
                CounterKind::Loyalty,
                q.loyalty->0,
            )
            &&& q.base_characteristics_initialized
            &&& f.scryfall_oracle_id is None ==> q.printed_ref is None
            &&& f.scryfall_oracle_id is Some ==> q.printed_ref is Some && q.printed_ref->0.oracle_id
                == f.scryfall_oracle_id->0 && q.printed_ref->0.face_name == f.name
            &&& q.modal == f.modal
            &&& q.additional_cost == f.additional_cost
            &&& q.strive_cost == f.strive_cost
            &&& q.casting_restrictions == f.casting_restrictions
            &&& q.casting_options == f.casting_options
            &&& differs_in_face_only(o, q)
        }),
{
}

/// A printed power or toughness that is a number is the power or toughness of the object, whatever
/// the other is.
pub proof fn printed_numbers_are_the_numbers(o: ObjectModel, f: CardFaceModel, p: i32, t: i32)
    ensures
        f.power == Some(PtValue::Fixed(p)) ==> printed_as(o, f).power == Some(p) && printed_as(
            o,
            f,
        ).base_power == Some(p) && hidden_face(f, None).power == Some(p),
        f.toughness == Some(PtValue::Fixed(t)) ==> printed_as(o, f).toughness == Some(t)
            && printed_as(o, f).base_toughness == Some(t) && hidden_face(f, None).toughness
            == Some(t),
        f.power is None ==> printed_as(o, f).power is None,
        f.toughness is None ==> printed_as(o, f).toughness is None,
{
}

/// A printed loyalty of digits is a number, and the object gets as many loyalty counters.
pub proof fn printed_loyalty_is_counted(o: ObjectModel, f: CardFaceModel, n: nat)
    requires
        f.loyalty is Some,
        crate::text::natural_in(f.loyalty->0@) == Some(n),
        n <= u32::MAX,
    ensures
        printed_as(o, f).loyalty == Some(n as u32),
        printed_as(o, f).counters.dom().contains(CounterKind::Loyalty),
        printed_as(o, f).counters[CounterKind::Loyalty] == n,
{
}

/// A Class starts at its first level, and a Case starts unsolved; other objects keep what they had.
pub proof fn classes_and_cases_start_anew(o: ObjectModel, f: CardFaceModel)
    ensures
        ({
            let q = printed_as(o, f);
            let is_class = exists|i: int|
                0 <= i < f.card_type.subtypes.len() && (#[trigger] f.card_type.subtypes[i])@
                    == "Class"@;
            let is_case = exists|i: int|
                0 <= i < f.card_type.subtypes.len() && (#[trigger] f.card_type.subtypes[i])@
                    == "Case"@;
            &&& is_class ==> q.class_level == Some(1u8)
            &&& !is_class ==> q.class_level == o.class_level
            &&& is_case && f.solve_condition is Some ==> q.case_state is Some
                && !q.case_state->0.is_solved && q.case_state->0.solve_condition
                == f.solve_condition->0
            &&& !is_case ==> q.case_state == o.case_state
        }),
{
}

/// A face that is not showing has what is printed on it.
pub proof fn a_hidden_face_has_what_is_printed(f: CardFaceModel, kind: Option<LayoutKind>)
    ensures
        ({
            let b = hidden_face(f, kind);
            &&& b.name == f.name
            &&& b.power == number_printed(f.power)
            &&& b.toughness == number_printed(f.toughness)
            &&& b.card_types == f.card_type
            &&& b.mana_cost == f.mana_cost
            &&& b.keywords == f.keywords
            &&& b.abilities == f.abilities
            &&& b.trigger_definitions == f.triggers
            &&& b.replacement_definitions == f.replacements
            &&& b.static_definitions == f.static_abilities
            &&& f.color_override is Some ==> b.color == f.color_override->0
            &&& f.color_override is None ==> b.color == colors_of_cost(f.mana_cost)
            &&& b.modal == f.modal
            &&& b.additional_cost == f.additional_cost
            &&& b.strive_cost == f.strive_cost
            &&& b.casting_restrictions == f.casting_restrictions
            &&& b.casting_options == f.casting_options
            &&& b.layout_kind == kind
        }),
{
}

/// A copy has every value that was printed on what it copies, and keeps what is printed on itself.
pub proof fn a_copy_has_what_is_printed(o: ObjectModel, other: ObjectModel)
    ensures
        ({
            let q = copying(o, copiable(other));
            &&& q.name == other.base_name
            &&& q.base_name == o.base_name
            &&& q.power == other.base_power
            &&& q.base_power == o.base_power
            &&& q.toughness == other.base_toughness
            &&& q.base_toughness == o.base_toughness
            &&& q.loyalty == other.base_loyalty
            &&& q.base_loyalty == o.base_loyalty
            &&& q.card_types == other.base_card_types
            &&& q.base_card_types == o.base_card_types
            &&& q.mana_cost == other.base_mana_cost
            &&& q.base_mana_cost == o.base_mana_cost
            &&& q.keywords == other.base_keywords
            &&& q.base_keywords == o.base_keywords
            &&& q.abilities == other.base_abilities
            &&& q.base_abilities == o.base_abilities
            &&& q.trigger_definitions == other.base_trigger_definitions
            &&& q.base_trigger_definitions == o.base_trigger_definitions
            &&& q.replacement_definitions == other.base_replacement_definitions
            &&& q.base_replacement_definitions == o.base_replacement_definitions
            &&& q.static_definitions == other.base_static_definitions
            &&& q.base_static_definitions == o.base_static_definitions
            &&& q.color == other.base_color
            &&& q.base_color == o.base_color
            &&& q.counters == o.counters
            &&& q.printed_ref == o.printed_ref
            &&& differs_in_face_only(o, q)
        }),
{
}

/// The face that an object shows is what it has now; of its static abilities those that are printed.
pub proof fn the_face_shown_is_what_the_object_has(o: ObjectModel)
    ensures
        ({
            let b = face_shown(o);
            &&& b.name == o.name
            &&& b.power == o.power
            &&& b.toughness == o.toughness
            &&& b.loyalty == o.loyalty
            &&& b.card_types == o.card_types
            &&& b.mana_cost == o.mana_cost
            &&& b.keywords == o.keywords
            &&& b.abilities == o.abilities
            &&& b.trigger_definitions == o.trigger_definitions
            &&& b.replacement_definitions == o.replacement_definitions
            &&& b.static_definitions == o.base_static_definitions
            &&& b.color == o.color
            &&& b.printed_ref == o.printed_ref
            &&& b.modal == o.modal
            &&& b.additional_cost == o.additional_cost
            &&& b.strive_cost == o.strive_cost
            &&& b.casting_restrictions == o.casting_restrictions
            &&& b.casting_options == o.casting_options
            &&& b.layout_kind is None
        }),
{
}

/// A card that is made from a face lies in its owner's library, under the control of its owner,
/// and shows the face.
pub proof fn a_card_made_from_a_face(g: Game, f: CardFaceModel, owner: PlayerId)
    ensures
        ({
            let h = created_from_face(g, f, owner);
            let q = h.objects[next_id(g)];
            &&& h.objects.dom().contains(next_id(g))
            &&& q.id == next_id(g)
            &&& q.card_id == CardId(g.next_object_id)
            &&& q.owner == owner && q.controller == owner
            &&& q.zone == Zone::Library
            &&& q.name == f.name && q.card_types == f.card_type && q.mana_cost == f.mana_cost
            &&& q.power == number_printed(f.power) && q.toughness == number_printed(f.toughness)
        }),
{
}

} // verus!
