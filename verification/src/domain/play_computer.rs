use vstd::prelude::*;

use crate::domain::game::{DomainError, Game, GameEvent, GameEventView};
use crate::domain::players::{Player, PLAYER0};
use crate::ids::{GameId, UserId};
use crate::names::generate_game_name;

verus! {

/// The command by which a user starts a game against the computer.
#[derive(Debug, PartialEq, Eq)]
pub struct PlayComputer {
    host: UserId,
}

/// What the command decides for a game identity `id`: a game that exists
/// already is refused; otherwise the game is created, hosted by the user
/// against the computer (the nil user), and the reply is the identity with
/// the host's player.
pub open spec fn play_computer_outcome(
    host: UserId,
    id: GameId,
    created: bool,
    name: Seq<char>,
    r: Result<(GameEvent, (GameId, Player)), DomainError>,
) -> bool {
    if created {
        r matches Err(DomainError::InvalidGame(i)) && i == id
    } else {
        r matches Ok((event, reply)) && event@ == (GameEventView::ComputerGameCreated {
            game_id: id,
            host,
            guest: UserId(0),
            name,
        }) && reply == (id, PLAYER0)
    }
}

impl PlayComputer {
    /// The user who starts the game.
    pub closed spec fn spec_host(&self) -> UserId {
        self.host
    }

    /// Creates the command for the given user.
    pub fn new(host: UserId) -> (c: PlayComputer)
        ensures c.spec_host() == host,
    {
        PlayComputer { host }
    }

    /// The user who starts the game.
    pub fn host(&self) -> (u: UserId)
        ensures u == self.spec_host(),
    {
        self.host
    }

    /// Decides the command for the game identity `id`, naming a new game
    /// `name`.
    pub fn decide(&self, id: GameId, game: &Game, name: String) -> (r: Result<(GameEvent, (GameId, Player)), DomainError>)
        ensures play_computer_outcome(self.spec_host(), id, game@.created(), name@, r),
    {
        if *game.id() != GameId::nil() {
            return Err(DomainError::InvalidGame(id));
        }
        let event = GameEvent::ComputerGameCreated { game_id: id, host: self.host, guest: UserId::nil(), name };
        Ok((event, (id, PLAYER0)))
    }

    /// Handles the command for the game identity `id`, with a generated name.
    pub fn handle_command(self, id: &GameId, game: &Game) -> (r: Result<(GameEvent, (GameId, Player)), DomainError>)
        ensures
            exists|name: Seq<char>| name.len() > 0 && play_computer_outcome(self.spec_host(), *id, game@.created(), name, r),
    {
        let name = generate_game_name();
        let ghost n = name@;
        let r = self.decide(*id, game, name);
        assert(n.len() > 0 && play_computer_outcome(self.spec_host(), *id, game@.created(), n, r));
        r
    }
}

} // verus!
