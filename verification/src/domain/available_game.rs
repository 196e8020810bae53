use vstd::prelude::*;
use vstd::string::*;

use crate::ids::GameId;

verus! {

/// How a game appears in the public lobby.
#[derive(Clone, Copy, Debug, PartialEq, Eq, Structural)]
pub enum Availability {
    /// Only joinable by direct invitation or link; not listed.
    Private,
    /// Listed, and joinable by anyone in the lobby other than the host.
    Public,
}

impl Availability {
    /// The availability that a name denotes: `Private` or `Public`, written
    /// exactly as the variant.
    pub open spec fn spec_from_name(name: Seq<char>) -> Option<Availability> {
        if name == "Private"@ {
            Some(Availability::Private)
        } else if name == "Public"@ {
            Some(Availability::Public)
        } else {
            None
        }
    }

    /// Reads an availability from its name, e.g. `Public`; `None` for any
    /// other text.
    pub fn from_name(name: &str) -> (a: Option<Availability>)
        ensures a == Availability::spec_from_name(name@),
    {
        let text = String::from_str(name);
        if text == String::from_str("Private") {
            Some(Availability::Private)
        } else if text == String::from_str("Public") {
            Some(Availability::Public)
        } else {
            None
        }
    }
}

/// A game as the lobby lists it for a user: its identity, its name and how
/// it is available.
#[derive(Debug, PartialEq, Eq)]
pub struct AvailableGame {
    id: GameId,
    name: String,
    availability: Availability,
}

/// The mathematical value of an `AvailableGame`.
pub struct AvailableGameView {
    pub id: GameId,
    pub name: Seq<char>,
    pub availability: Availability,
}

impl View for AvailableGame {
    type V = AvailableGameView;

    closed spec fn view(&self) -> AvailableGameView {
        AvailableGameView { id: self.id, name: self.name@, availability: self.availability }
    }
}

impl AvailableGame {
    /// Creates the lobby entry of a game.
    pub fn new(id: GameId, name: String, availability: Availability) -> (g: AvailableGame)
        ensures g@ == (AvailableGameView { id, name: name@, availability }),
    {
        AvailableGame { id, name, availability }
    }

    /// The lobby entry of a stored game: its identity, its name, and its
    /// availability by name; `None` when the name denotes no availability.
    pub fn from_stored(id: GameId, name: String, availability: &str) -> (g: Option<AvailableGame>)
        ensures
            match Availability::spec_from_name(availability@) {
                Some(a) => g matches Some(game) && game@ == (AvailableGameView { id, name: name@, availability: a }),
                None => g is None,
            },
    {
        match Availability::from_name(availability) {
            Some(a) => Some(AvailableGame::new(id, name, a)),
            None => None,
        }
    }

    /// The game's identity.
    pub fn id(&self) -> (id: &GameId)
        ensures *id == self@.id,
    {
        &self.id
    }

    /// The game's name.
    pub fn name(&self) -> (n: &str)
        ensures n@ == self@.name,
    {
        self.name.as_str()
    }

    /// How the game is available.
    pub fn availability(&self) -> (a: &Availability)
        ensures *a == self@.availability,
    {
        &self.availability
    }
}

} // verus!
