# cribbage_server

The domain of a two-player cribbage game server, verified with Verus.

- `src/domain/cards.rs`, `pile.rs`, `deck.rs`: cards and their text, piles of
  cards (hands, crib, deck), the standard pack, shuffling, cutting, dealing.
- `src/domain/players.rs`: the two players, the dealer and pone roles, and the
  acknowledgements the game waits for.
- `src/domain/plays.rs`: the play (pegging): running total, legal plays, go,
  series of plays.
- `src/domain/scoring.rs`: the rules of scoring: fifteens, pairs, runs,
  flushes, nobs, his heels, the points of the play and of the go.
- `src/domain/scoreboard.rs`: pegs, positions, the board and its winner.
- `src/domain/state.rs`: the phases of a game and how events move them.
- `src/domain/game.rs`: the game as an event-sourced state machine: commands
  are decided into events (or refused with an error), and events are applied.
  Every part of a game, down to the whole game, can be written as text for
  logs; each text is specified exactly.
- `src/domain/properties.rs`: laws of the game, proved over the specifications.
- `src/ids.rs`, `src/names.rs`: game and user identities (UUIDs) and game
  names.
- `src/domain/available_game.rs`, `play_computer.rs`, `src/notification.rs`,
  `src/storage.rs`: the lobby entry, the command to play the computer, table
  change notifications, and paging, sequence numbering and the creation
  time (from time-ordered UUIDs) of stored rows.
- `app/`: serialisable copies of commands, events and errors, the `cqrs-es`
  and `eventsourced` adapters, and the PostgreSQL queries.
