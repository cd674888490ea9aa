//! Bringing decks into a game.

use std::sync::Arc;
use vstd::prelude::*;
use crate::cards::Zone;
use crate::ids::{CardId, PlayerId};
use crate::object::{CardFace, CardFaceModel, ObjectModel};
use crate::printed_cards::{
    apply_card_face_to_object, create_object_from_card_face, created_from_face, printed_as,
};
use crate::state::{with_object, DeckEntry, DeckPoolModel, Game, GameState, PlayerDeckPool};
use crate::zones::{create_object, created, next_id};

verus! {

broadcast use crate::views::group_views;

/// The cards that a player brings to a game.
#[derive(Debug)]
pub struct PlayerDeckPayload {
    pub main_deck: Arc<Vec<DeckEntry>>,
    pub sideboard: Arc<Vec<DeckEntry>>,
    pub commander: Arc<Vec<DeckEntry>>,
}

/// The cards that both players bring to a game.
#[derive(Debug)]
pub struct DeckPayload {
    pub player: PlayerDeckPayload,
    pub opponent: PlayerDeckPayload,
}

/// The cards that a player brings to a game.
#[verifier::ext_equal]
pub struct DeckModel {
    pub main_deck: Seq<DeckEntry>,
    pub sideboard: Seq<DeckEntry>,
    pub commander: Seq<DeckEntry>,
}

impl View for PlayerDeckPayload {
    type V = DeckModel;

    open spec fn view(&self) -> DeckModel {
        DeckModel {
            main_deck: self.main_deck@,
            sideboard: self.sideboard@,
            commander: self.commander@,
        }
    }
}

/// The game with a number of new objects that show a face, in their owner's library.
pub open spec fn copies_created(g: Game, f: CardFaceModel, owner: PlayerId, n: nat) -> Game
    decreases n,
{
    if n == 0 {
        g
    } else {
        created_from_face(copies_created(g, f, owner, (n - 1) as nat), f, owner)
    }
}

/// The game with a new commander.
pub open spec fn commander_created(g: Game, f: CardFaceModel, owner: PlayerId) -> Game {
    let id = next_id(g);
    let h = created(g, CardId(g.next_object_id), owner, f.name, Zone::Command);
    with_object(
        h,
        id,
        ObjectModel { is_commander: true, ..printed_as(h.objects[id], f) },
    )
}

/// The game with a number of new commanders.
pub open spec fn commanders_created(g: Game, f: CardFaceModel, owner: PlayerId, n: nat) -> Game
    decreases n,
{
    if n == 0 {
        g
    } else {
        commander_created(commanders_created(g, f, owner, (n - 1) as nat), f, owner)
    }
}

/// The game with the cards of the first `n` entries of a list.
pub open spec fn entries_loaded(
    g: Game,
    owner: PlayerId,
    list: Seq<DeckEntry>,
    as_commanders: bool,
    n: nat,
) -> Game
    decreases n,
{
    if n == 0 || n > list.len() {
        g
    } else {
        let h = entries_loaded(g, owner, list, as_commanders, (n - 1) as nat);
        let entry = list[n - 1];
        if as_commanders {
            commanders_created(h, entry.card@, owner, entry.count as nat)
        } else {
            copies_created(h, entry.card@, owner, entry.count as nat)
        }
    }
}

/// The game with a player's deck: the main deck in the library, commanders in the command zone.
pub open spec fn deck_loaded(g: Game, owner: PlayerId, d: DeckModel) -> Game {
    entries_loaded(
        entries_loaded(g, owner, d.main_deck, false, d.main_deck.len()),
        owner,
        d.commander,
        true,
        d.commander.len(),
    )
}

/// The cards that a player has registered and plays with.
pub open spec fn registered_pool(player: PlayerId, d: DeckModel) -> DeckPoolModel {
    DeckPoolModel {
        player,
        registered_main: d.main_deck,
        registered_sideboard: d.sideboard,
        registered_commander: d.commander,
        current_main: d.main_deck,
        current_sideboard: d.sideboard,
        current_commander: d.commander,
    }
}

/// The game with both players' decks.
pub open spec fn decks_loaded(g: Game, d: DeckModel, e: DeckModel) -> Game {
    Game {
        deck_pools: seq![registered_pool(PlayerId(0), d), registered_pool(PlayerId(1), e)],
        ..deck_loaded(deck_loaded(g, PlayerId(0), d), PlayerId(1), e)
    }
}

fn create_copies(state: &mut GameState, face: &CardFace, owner: PlayerId, count: u32)
    ensures
        final(state)@ == copies_created(old(state)@, face@, owner, count as nat),
{
    let ghost g = state@;
    let mut i: u32 = 0;
    while i < count
        invariant
            i <= count,
            state@ == copies_created(g, face@, owner, i as nat),
        decreases count - i,
    {
        let _ = create_object_from_card_face(state, face, owner);
        i += 1;
    }
}

fn create_commander(state: &mut GameState, face: &CardFace, owner: PlayerId)
    ensures
        final(state)@ == commander_created(old(state)@, face@, owner),
{
    let card_id = CardId(state.next_object_id);
    let id = create_object(state, card_id, owner, face.name.clone(), Zone::Command);
    if let Some(obj) = state.object_mut(id) {
        apply_card_face_to_object(obj, face);
        obj.is_commander = true;
    }
}

fn create_commanders(state: &mut GameState, face: &CardFace, owner: PlayerId, count: u32)
    ensures
        final(state)@ == commanders_created(old(state)@, face@, owner, count as nat),
{
    let ghost g = state@;
    let mut i: u32 = 0;
    while i < count
        invariant
            i <= count,
            state@ == commanders_created(g, face@, owner, i as nat),
        decreases count - i,
    {
        create_commander(state, face, owner);
        i += 1;
    }
}

fn load_entries(state: &mut GameState, owner: PlayerId, list: &Vec<DeckEntry>, as_commanders: bool)
    ensures
        final(state)@ == entries_loaded(
            old(state)@,
            owner,
            list@,
            as_commanders,
            list@.len(),
        ),
{
    let ghost g = state@;
    let mut i: usize = 0;
    while i < list.len()
        invariant
            i <= list@.len(),
            state@ == entries_loaded(g, owner, list@, as_commanders, i as nat),
        decreases list.len() - i,
    {
        let entry = &list[i];
        if as_commanders {
            create_commanders(state, &*entry.card, owner, entry.count);
        } else {
            create_copies(state, &*entry.card, owner, entry.count);
        }
        i += 1;
    }
}

fn pool_of(player: PlayerId, d: &PlayerDeckPayload) -> (r: PlayerDeckPool)
    ensures
        r@ == registered_pool(player, d@),
{
    PlayerDeckPool {
        player,
        registered_main: d.main_deck.clone(),
        registered_sideboard: d.sideboard.clone(),
        registered_commander: d.commander.clone(),
        current_main: d.main_deck.clone(),
        current_sideboard: d.sideboard.clone(),
        current_commander: d.commander.clone(),
    }
}

/// Brings both players' decks into a game: the main decks in the libraries, commanders in the
/// command zone, and all of them as the pools of cards that the players have registered.
pub fn load_deck_into_state(state: &mut GameState, payload: &DeckPayload)
    ensures
        final(state)@ == decks_loaded(old(state)@, payload.player@, payload.opponent@),
{
    load_entries(state, PlayerId(0), &*payload.player.main_deck, false);
    load_entries(state, PlayerId(0), &*payload.player.commander, true);
    load_entries(state, PlayerId(1), &*payload.opponent.main_deck, false);
    load_entries(state, PlayerId(1), &*payload.opponent.commander, true);
    let mut pools: Vec<PlayerDeckPool> = Vec::new();
    pools.push(pool_of(PlayerId(0), &payload.player));
    pools.push(pool_of(PlayerId(1), &payload.opponent));
    state.deck_pools = pools;
    assert(state@.deck_pools =~= decks_loaded(
        old(state)@,
        payload.player@,
        payload.opponent@,
    ).deck_pools);
}

} // verus!
