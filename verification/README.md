# tabletop_engine

The rules core of a trading card game, written in Verus: every operation on a game is an
executable function with a contract, and the contracts speak of a mathematical model of the game.

- `src/state.rs` holds the game (`GameState`) and its model (`Game`). An operation that changes a
  game says in its `ensures` which model follows from which, and what is told in events.
- Payment and timing: `mana.rs`, `mana_payment.rs`, `restrictions.rs`, `conditions.rs`,
  `planeswalker.rs`.
- What happens instead of something else: `proposals.rs`, `registry.rs`, `applicability.rs`,
  `replacement.rs`, `tokens.rs`.
- What the rules do by themselves: `sba.rs`, `phasing.rs`, `sacrifice.rs`, `elimination.rs`,
  `layers.rs`.
- Numbers, filters and keywords: `quantity.rs`, `filter.rs`, `targeting.rs`, `devotion.rs`,
  `off_zone_characteristics.rs`.
- Cards and faces: `card_database.rs`, `printed_cards.rs`, `morph.rs`.
- Games and matches: `players.rs`, `mulligan.rs`, `turns.rs`, `engine.rs`, `deck_loading.rs`,
  `match_flow.rs`.
- Foundations: `ids.rs`, `keyed.rs` (tables and sets), `seqs.rs` (lists), `text.rs`, `views.rs`.

Public proof functions state what holds of several operations together: that paying loses no
mana and a cost is paid exactly when the pool can pay it, that a card turned face up shows its
face again, that no replacement applies twice to an event, that a game at rest stays as it is.

What is taken from outside without proof stands behind small functions, each with a comment that
says what is claimed of it: random numbers and shuffling (`rand`), the map of handlers
(`indexmap`), small letters (`str::to_lowercase`) and texts in quotation marks (`Debug`).

`app/` gives the errors of payments their texts, and `tests/` runs the library on concrete games.
