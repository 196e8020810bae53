use vstd::prelude::*;
use vstd::string::*;

use crate::display::{format_vec, joined, texts};
use crate::domain::cards::{card_texts, cards_text, format_cards, Card};
use crate::domain::deck::{standard_pack, Deck, CARDS_DISCARDED_TO_CRIB, CARDS_KEPT_PER_HAND, STANDARD_DECK_SIZE};
use crate::domain::pile::{slice_contains, Hand};
use crate::domain::players::{roles_from_cuts, Dealer, Player, Roles, PLAYER0, PLAYER1};
use crate::domain::scoreboard::{Scoreboard, ScoreboardView};
use crate::domain::scoring::{count_items, go_items, his_heels_items, play_items, Pegging, PeggingView, ScoreSheet};
use crate::domain::state::{Discarding, DiscardingView, Playing, PlayingView, Starting, State, StateView, StartingView};
use crate::ids::{random_bits, GameId, UserId};
use crate::names::generate_game_name;

verus! {

broadcast use vstd::seq_lib::group_seq_properties;

// ---------------------------------------------------------------------------
// Commands, events and errors.
// ---------------------------------------------------------------------------

/// Commands that drive the game state machine. Each variant is an action a
/// player (or a user, before the game has players) can take.
#[derive(Debug, PartialEq, Eq)]
pub enum GameCommand {
    /// The user creates a new game and becomes its host; a guest must join
    /// before the game can go on.
    HostGame { user_id: UserId, game_id: GameId },
    /// The user joins the game as its guest.
    JoinGame { user_id: UserId },
    /// The user starts a single-player game against the computer.
    PlayComputer { user_id: UserId, game_id: GameId },
    /// The player cuts the deck to decide who deals first.
    CutForDeal { player: Player },
    /// The player acknowledges the cuts and is ready to start.
    StartGame { player: Player },
    /// The player lays two cards away to the crib.
    DiscardCards { player: Player, cards: Vec<Card> },
    /// The player lays a card during the play.
    PlayCard { player: Player, card: Card },
    /// The player declares go during the play.
    Go { player: Player },
    /// The player acknowledges the end of the play: the pone's hand is counted.
    ScorePone { player: Player },
    /// The player acknowledges the pone's count: the dealer's hand is counted.
    ScoreDealer { player: Player },
    /// The player acknowledges the dealer's count: the crib is counted.
    ScoreCrib { player: Player },
    /// The player acknowledges the crib's count: the next round starts.
    StartNextRound { player: Player },
}

/// The mathematical value of a `GameCommand`.
pub enum GameCommandView {
    HostGame { user_id: UserId, game_id: GameId },
    JoinGame { user_id: UserId },
    PlayComputer { user_id: UserId, game_id: GameId },
    CutForDeal { player: Player },
    StartGame { player: Player },
    DiscardCards { player: Player, cards: Seq<Card> },
    PlayCard { player: Player, card: Card },
    Go { player: Player },
    ScorePone { player: Player },
    ScoreDealer { player: Player },
    ScoreCrib { player: Player },
    StartNextRound { player: Player },
}

impl View for GameCommand {
    type V = GameCommandView;

    open spec fn view(&self) -> GameCommandView {
        match self {
            GameCommand::HostGame { user_id, game_id } => GameCommandView::HostGame { user_id: *user_id, game_id: *game_id },
            GameCommand::JoinGame { user_id } => GameCommandView::JoinGame { user_id: *user_id },
            GameCommand::PlayComputer { user_id, game_id } => GameCommandView::PlayComputer { user_id: *user_id, game_id: *game_id },
            GameCommand::CutForDeal { player } => GameCommandView::CutForDeal { player: *player },
            GameCommand::StartGame { player } => GameCommandView::StartGame { player: *player },
            GameCommand::DiscardCards { player, cards } => GameCommandView::DiscardCards { player: *player, cards: cards@ },
            GameCommand::PlayCard { player, card } => GameCommandView::PlayCard { player: *player, card: *card },
            GameCommand::Go { player } => GameCommandView::Go { player: *player },
            GameCommand::ScorePone { player } => GameCommandView::ScorePone { player: *player },
            GameCommand::ScoreDealer { player } => GameCommandView::ScoreDealer { player: *player },
            GameCommand::ScoreCrib { player } => GameCommandView::ScoreCrib { player: *player },
            GameCommand::StartNextRound { player } => GameCommandView::StartNextRound { player: *player },
        }
    }
}

/// Domain events: the single source of truth of a game's history. The state
/// of a game is what folding its events in order gives.
#[derive(Debug, PartialEq, Eq)]
pub enum GameEvent {
    /// A user created a lobby game and waits for another user to join.
    LobbyGameCreated { game_id: GameId, host: UserId, name: String },
    /// A user joined a lobby game.
    LobbyGameJoined { guest: UserId },
    /// A user created a game against the computer "user" `guest`.
    ComputerGameCreated { game_id: GameId, host: UserId, guest: UserId, name: String },
    /// A player cut a card for the choice of the first dealer.
    CutForDealMade { player: Player, cut: Card },
    /// A player acknowledged the cuts for deal.
    GameStarted { player: Player },
    /// Both cuts were of the same rank: the cut is made again.
    CutForDealTied,
    /// The cuts differ: the dealer is chosen.
    CutForDealDecided { dealer: Dealer },
    /// A hand was dealt to the player.
    HandDealt { player: Player, hand: Hand },
    /// A player laid cards away to the crib.
    CardsDiscarded { player: Player, cards: Vec<Card> },
    /// Both players discarded and the starter was turned; `pegging` records
    /// his heels.
    StarterSelected { cut: Card, pegging: Pegging },
    /// A player laid a card in the play, pegging `pegging`.
    CardPlayed { player: Player, card: Card, pegging: Pegging },
    /// A player called go, pegging `pegging` (to whoever it goes to).
    GoCalled { player: Player, pegging: Pegging },
    /// A player acknowledged the end of the play; `pegging` is the pone's count.
    PoneScored { player: Player, pegging: Pegging },
    /// A player acknowledged the pone's count; `pegging` is the dealer's count.
    DealerScored { player: Player, pegging: Pegging },
    /// A player acknowledged the dealer's count; `pegging` is the crib's count.
    CribScored { player: Player, pegging: Pegging },
    /// A player acknowledged the crib's count; with both, the next round starts.
    NextRoundStarted { player: Player },
}

/// The mathematical value of a `GameEvent`.
pub enum GameEventView {
    LobbyGameCreated { game_id: GameId, host: UserId, name: Seq<char> },
    LobbyGameJoined { guest: UserId },
    ComputerGameCreated { game_id: GameId, host: UserId, guest: UserId, name: Seq<char> },
    CutForDealMade { player: Player, cut: Card },
    GameStarted { player: Player },
    CutForDealTied,
    CutForDealDecided { dealer: Dealer },
    HandDealt { player: Player, hand: Seq<Card> },
    CardsDiscarded { player: Player, cards: Seq<Card> },
    StarterSelected { cut: Card, pegging: PeggingView },
    CardPlayed { player: Player, card: Card, pegging: PeggingView },
    GoCalled { player: Player, pegging: PeggingView },
    PoneScored { player: Player, pegging: PeggingView },
    DealerScored { player: Player, pegging: PeggingView },
    CribScored { player: Player, pegging: PeggingView },
    NextRoundStarted { player: Player },
}

impl View for GameEvent {
    type V = GameEventView;

    open spec fn view(&self) -> GameEventView {
        match self {
            GameEvent::LobbyGameCreated { game_id, host, name } =>
                GameEventView::LobbyGameCreated { game_id: *game_id, host: *host, name: name@ },
            GameEvent::LobbyGameJoined { guest } => GameEventView::LobbyGameJoined { guest: *guest },
            GameEvent::ComputerGameCreated { game_id, host, guest, name } =>
                GameEventView::ComputerGameCreated { game_id: *game_id, host: *host, guest: *guest, name: name@ },
            GameEvent::CutForDealMade { player, cut } => GameEventView::CutForDealMade { player: *player, cut: *cut },
            GameEvent::GameStarted { player } => GameEventView::GameStarted { player: *player },
            GameEvent::CutForDealTied => GameEventView::CutForDealTied,
            GameEvent::CutForDealDecided { dealer } => GameEventView::CutForDealDecided { dealer: *dealer },
            GameEvent::HandDealt { player, hand } => GameEventView::HandDealt { player: *player, hand: hand@ },
            GameEvent::CardsDiscarded { player, cards } => GameEventView::CardsDiscarded { player: *player, cards: cards@ },
            GameEvent::StarterSelected { cut, pegging } => GameEventView::StarterSelected { cut: *cut, pegging: pegging@ },
            GameEvent::CardPlayed { player, card, pegging } =>
                GameEventView::CardPlayed { player: *player, card: *card, pegging: pegging@ },
            GameEvent::GoCalled { player, pegging } => GameEventView::GoCalled { player: *player, pegging: pegging@ },
            GameEvent::PoneScored { player, pegging } => GameEventView::PoneScored { player: *player, pegging: pegging@ },
            GameEvent::DealerScored { player, pegging } => GameEventView::DealerScored { player: *player, pegging: pegging@ },
            GameEvent::CribScored { player, pegging } => GameEventView::CribScored { player: *player, pegging: pegging@ },
            GameEvent::NextRoundStarted { player } => GameEventView::NextRoundStarted { player: *player },
        }
    }
}

impl GameEventView {
    /// The name of the event's kind.
    pub open spec fn event_type(self) -> Seq<char> {
        match self {
            GameEventView::LobbyGameCreated { .. } => "LobbyGameCreated"@,
            GameEventView::LobbyGameJoined { .. } => "LobbyGameJoined"@,
            GameEventView::ComputerGameCreated { .. } => "ComputerGameCreated"@,
            GameEventView::CutForDealMade { .. } => "CutForDealMade"@,
            GameEventView::GameStarted { .. } => "GameStarted"@,
            GameEventView::CutForDealTied => "CutForDealTied"@,
            GameEventView::CutForDealDecided { .. } => "CutForDealDecided"@,
            GameEventView::HandDealt { .. } => "HandDealt"@,
            GameEventView::CardsDiscarded { .. } => "CardsDiscarded"@,
            GameEventView::StarterSelected { .. } => "StarterSelected"@,
            GameEventView::CardPlayed { .. } => "CardPlayed"@,
            GameEventView::GoCalled { .. } => "GoCalled"@,
            GameEventView::PoneScored { .. } => "PoneScored"@,
            GameEventView::DealerScored { .. } => "DealerScored"@,
            GameEventView::CribScored { .. } => "CribScored"@,
            GameEventView::NextRoundStarted { .. } => "NextRoundStarted"@,
        }
    }
}

/// The views of a sequence of events.
pub open spec fn events_view(events: Seq<GameEvent>) -> Seq<GameEventView> {
    events.map_values(|e: GameEvent| e@)
}

impl GameEvent {
    /// The name of the event's kind, e.g. `CardPlayed`.
    pub fn event_type(&self) -> (s: &'static str)
        ensures s@ == self@.event_type(),
    {
        match self {
            GameEvent::LobbyGameCreated { .. } => "LobbyGameCreated",
            GameEvent::LobbyGameJoined { .. } => "LobbyGameJoined",
            GameEvent::ComputerGameCreated { .. } => "ComputerGameCreated",
            GameEvent::CutForDealMade { .. } => "CutForDealMade",
            GameEvent::GameStarted { .. } => "GameStarted",
            GameEvent::CutForDealTied => "CutForDealTied",
            GameEvent::CutForDealDecided { .. } => "CutForDealDecided",
            GameEvent::HandDealt { .. } => "HandDealt",
            GameEvent::CardsDiscarded { .. } => "CardsDiscarded",
            GameEvent::StarterSelected { .. } => "StarterSelected",
            GameEvent::CardPlayed { .. } => "CardPlayed",
            GameEvent::GoCalled { .. } => "GoCalled",
            GameEvent::PoneScored { .. } => "PoneScored",
            GameEvent::DealerScored { .. } => "DealerScored",
            GameEvent::CribScored { .. } => "CribScored",
            GameEvent::NextRoundStarted { .. } => "NextRoundStarted",
        }
    }

    /// Returns a copy of the event.
    pub fn duplicate(&self) -> (e: GameEvent)
        ensures e@ == self@,
    {
        match self {
            GameEvent::LobbyGameCreated { game_id, host, name } =>
                GameEvent::LobbyGameCreated { game_id: *game_id, host: *host, name: name.clone() },
            GameEvent::LobbyGameJoined { guest } => GameEvent::LobbyGameJoined { guest: *guest },
            GameEvent::ComputerGameCreated { game_id, host, guest, name } =>
                GameEvent::ComputerGameCreated { game_id: *game_id, host: *host, guest: *guest, name: name.clone() },
            GameEvent::CutForDealMade { player, cut } => GameEvent::CutForDealMade { player: *player, cut: *cut },
            GameEvent::GameStarted { player } => GameEvent::GameStarted { player: *player },
            GameEvent::CutForDealTied => GameEvent::CutForDealTied,
            GameEvent::CutForDealDecided { dealer } => GameEvent::CutForDealDecided { dealer: *dealer },
            GameEvent::HandDealt { player, hand } => GameEvent::HandDealt { player: *player, hand: hand.duplicate() },
            GameEvent::CardsDiscarded { player, cards } =>
                GameEvent::CardsDiscarded { player: *player, cards: crate::domain::scoring::copy_cards(cards.as_slice()) },
            GameEvent::StarterSelected { cut, pegging } => GameEvent::StarterSelected { cut: *cut, pegging: pegging.duplicate() },
            GameEvent::CardPlayed { player, card, pegging } =>
                GameEvent::CardPlayed { player: *player, card: *card, pegging: pegging.duplicate() },
            GameEvent::GoCalled { player, pegging } => GameEvent::GoCalled { player: *player, pegging: pegging.duplicate() },
            GameEvent::PoneScored { player, pegging } => GameEvent::PoneScored { player: *player, pegging: pegging.duplicate() },
            GameEvent::DealerScored { player, pegging } => GameEvent::DealerScored { player: *player, pegging: pegging.duplicate() },
            GameEvent::CribScored { player, pegging } => GameEvent::CribScored { player: *player, pegging: pegging.duplicate() },
            GameEvent::NextRoundStarted { player } => GameEvent::NextRoundStarted { player: *player },
        }
    }
}

/// Errors that answer an action the rules do not allow.
#[derive(Debug, PartialEq, Eq)]
pub enum DomainError {
    /// The host and the guest must be different users.
    InvalidOpponent,
    /// The action (named) is not permitted: the user is not a player of the
    /// game, or the game is not in a phase that allows it.
    NotPermitted(String),
    /// The cards (written out) are not two cards of the player's hand.
    InvalidDiscards(String),
    /// The player plays or calls go when it is not their turn.
    NotPlayersTurn(Player),
    /// The card is not one the player may lay now.
    InvalidPlay(Card),
    /// The player calls go while holding a card they may lay.
    InvalidGo,
    /// The game already exists.
    InvalidGame(GameId),
}

/// The mathematical value of a `DomainError`.
pub enum DomainErrorView {
    InvalidOpponent,
    NotPermitted(Seq<char>),
    InvalidDiscards(Seq<char>),
    NotPlayersTurn(Player),
    InvalidPlay(Card),
    InvalidGo,
    InvalidGame(GameId),
}

impl View for DomainError {
    type V = DomainErrorView;

    open spec fn view(&self) -> DomainErrorView {
        match self {
            DomainError::InvalidOpponent => DomainErrorView::InvalidOpponent,
            DomainError::NotPermitted(s) => DomainErrorView::NotPermitted(s@),
            DomainError::InvalidDiscards(s) => DomainErrorView::InvalidDiscards(s@),
            DomainError::NotPlayersTurn(p) => DomainErrorView::NotPlayersTurn(*p),
            DomainError::InvalidPlay(c) => DomainErrorView::InvalidPlay(*c),
            DomainError::InvalidGo => DomainErrorView::InvalidGo,
            DomainError::InvalidGame(id) => DomainErrorView::InvalidGame(*id),
        }
    }
}

impl DomainError {
    /// The error's message, e.g. `join game is not permitted`.
    pub fn message(&self) -> (s: String)
        ensures s@ == self@.message(),
    {
        match self {
            DomainError::InvalidOpponent => String::from_str("invalid opponent"),
            DomainError::NotPermitted(what) => {
                let mut s = what.clone();
                s.append(" is not permitted");
                s
            },
            DomainError::InvalidDiscards(cards) => {
                let mut s = String::from_str("invalid discards: ");
                s.append(cards.as_str());
                s
            },
            DomainError::NotPlayersTurn(p) => {
                let mut s = String::from_str("not the player's turn: ");
                s.append(p.to_string().as_str());
                s
            },
            DomainError::InvalidPlay(c) => {
                let mut s = String::from_str("invalid play: ");
                s.append(c.to_string().as_str());
                s
            },
            DomainError::InvalidGo => String::from_str("invalid go: some cards are playable"),
            DomainError::InvalidGame(_) => String::from_str("invalid game"),
        }
    }
}

impl DomainErrorView {
    /// The message of the error.
    pub open spec fn message(self) -> Seq<char> {
        match self {
            DomainErrorView::InvalidOpponent => "invalid opponent"@,
            DomainErrorView::NotPermitted(what) => what + " is not permitted"@,
            DomainErrorView::InvalidDiscards(cards) => "invalid discards: "@ + cards,
            DomainErrorView::NotPlayersTurn(p) => "not the player's turn: "@ + p.spec_text(),
            DomainErrorView::InvalidPlay(c) => "invalid play: "@ + c.spec_text(),
            DomainErrorView::InvalidGo => "invalid go: some cards are playable"@,
            DomainErrorView::InvalidGame(_) => "invalid game"@,
        }
    }
}

/// What a command decides: the events it emits, or the error it is refused with.
pub type Decision = Result<Seq<GameEventView>, DomainErrorView>;

/// The decision that a command's result stands for.
pub open spec fn outcome(r: Result<Vec<GameEvent>, DomainError>) -> Decision {
    match r {
        Ok(events) => Ok(events_view(events@)),
        Err(e) => Err(e@),
    }
}

/// The refusal of an action (named) that is not permitted.
pub open spec fn refused(what: Seq<char>) -> Decision {
    Err(DomainErrorView::NotPermitted(what))
}

/// The card that a cut with the random number `seed` takes from `deck`.
pub open spec fn card_at(deck: Seq<Card>, seed: u128) -> Card {
    deck[(seed % (deck.len() as u128)) as int]
}

/// `true` when every one of `cards` is in `hand`.
pub open spec fn all_held(hand: Seq<Card>, cards: Seq<Card>) -> bool {
    forall|i: int| 0 <= i < cards.len() ==> hand.contains(#[trigger] cards[i])
}

/// The two deals from the top of `deck`: six cards to the host, the next six
/// to the guest.
pub open spec fn dealt_events(deck: Seq<Card>) -> Seq<GameEventView> {
    seq![
        GameEventView::HandDealt { player: PLAYER0, hand: deck.subrange(0, 6) },
        GameEventView::HandDealt { player: PLAYER1, hand: deck.subrange(6, 12) },
    ]
}

/// Playing a card during the play: permitted on the player's turn, with a
/// card the player may lay; the player pegs what the card scores.
pub open spec fn card_decision(p: PlayingView, player: Player, card: Card) -> Decision {
    let ps = p.play_state;
    if ps.next_to_play != player {
        Err(DomainErrorView::NotPlayersTurn(player))
    } else if !ps.legal_plays(player).contains(card) {
        Err(DomainErrorView::InvalidPlay(card))
    } else {
        let pegging = PeggingView { player, sheet: play_items(ps.with_card_played(card)) };
        Ok(seq![GameEventView::CardPlayed { player, card, pegging }])
    }
}

// ---------------------------------------------------------------------------
// Chance: what a command draws at random.
// ---------------------------------------------------------------------------

/// The outcomes of chance that a command may need: a name for a new game,
/// the identity of a computer opponent, a random number for a cut, and a
/// shuffled pack to deal from.
pub struct Chance {
    pub name: String,
    pub guest: UserId,
    pub cut_seed: u128,
    pub deck: Deck,
}

/// The mathematical value of a `Chance`.
pub struct ChanceView {
    pub name: Seq<char>,
    pub guest: UserId,
    pub cut_seed: u128,
    pub deck: Seq<Card>,
}

impl View for Chance {
    type V = ChanceView;

    open spec fn view(&self) -> ChanceView {
        ChanceView { name: self.name@, guest: self.guest, cut_seed: self.cut_seed, deck: self.deck@ }
    }
}

impl ChanceView {
    /// Chance as it falls: a name that is not empty, a guest identity that is
    /// not the nil one, and a deck that is a standard pack in some order.
    pub open spec fn valid(self) -> bool {
        &&& self.name.len() > 0
        &&& self.guest != UserId(0)
        &&& self.deck.len() == STANDARD_DECK_SIZE
        &&& self.deck.to_multiset() == standard_pack().to_multiset()
    }
}

impl Chance {
    /// Draws the outcomes of chance: a generated game name, a fresh user
    /// identity, a random number and a shuffled pack.
    pub fn draw() -> (c: Chance)
        ensures c@.valid(),
    {
        Chance {
            name: generate_game_name(),
            guest: UserId::new(),
            cut_seed: random_bits(),
            deck: Deck::shuffled_pack(),
        }
    }
}


// ---------------------------------------------------------------------------
// The game.
// ---------------------------------------------------------------------------

/// A game: its identity, its players and the state of play. A game that has
/// not been created has the nil identity.
#[derive(Debug, PartialEq, Eq)]
pub struct Game {
    id: GameId,
    host: UserId,
    guest: Option<UserId>,
    name: String,
    state: State,
}

/// The mathematical value of a `Game`.
pub struct GameView {
    pub id: GameId,
    pub host: UserId,
    pub guest: Option<UserId>,
    pub name: Seq<char>,
    pub state: StateView,
}

impl View for Game {
    type V = GameView;

    closed spec fn view(&self) -> GameView {
        GameView { id: self.id, host: self.host, guest: self.guest, name: self.name@, state: self.state@ }
    }
}

impl GameView {
    /// The game's text: its name; then the host and the guest (`-` while
    /// there is none); then the state, e.g.
    /// `Cribbage\nUserId(..) UserId(..)\nStarting(..)`.
    pub open spec fn text(self) -> Seq<char> {
        self.name + "\n"@ + self.host.spec_text() + " "@
            + match self.guest {
                Some(g) => g.spec_text(),
                None => "-"@,
            }
            + "\n"@ + self.state.text()
    }

    /// The game has been created: its identity is not the nil one.
    pub open spec fn created(self) -> bool {
        self.id != GameId(0)
    }

    /// The player that a user is in this game: the host is the first player,
    /// the guest the second.
    pub open spec fn player_of(self, user: UserId) -> Option<Player> {
        if user == self.host {
            Some(PLAYER0)
        } else if self.guest == Some(user) {
            Some(PLAYER1)
        } else {
            None
        }
    }

    /// Hosting: permitted only while the game has not been created.
    pub open spec fn host_game(self, host: UserId, game_id: GameId, name: Seq<char>) -> Decision {
        if self.created() {
            refused("host game"@)
        } else {
            Ok(seq![GameEventView::LobbyGameCreated { game_id, host, name }])
        }
    }

    /// Joining: permitted once the game is created and while it has no
    /// guest; the host cannot be their own opponent.
    pub open spec fn join_game(self, guest: UserId) -> Decision {
        if !self.created() || self.guest is Some {
            refused("join game"@)
        } else if self.host == guest {
            Err(DomainErrorView::InvalidOpponent)
        } else {
            Ok(seq![GameEventView::LobbyGameJoined { guest }])
        }
    }

    /// Playing the computer: permitted only while the game has not been
    /// created; the computer (`guest`) joins at once.
    pub open spec fn play_computer(self, host: UserId, game_id: GameId, guest: UserId, name: Seq<char>) -> Decision {
        if self.created() {
            refused("play computer"@)
        } else {
            Ok(seq![GameEventView::ComputerGameCreated { game_id, host, guest, name }])
        }
    }

    /// Cutting for deal: permitted while starting and before the player
    /// acknowledged the cuts; the cut is the deck's card that `seed` names.
    pub open spec fn cut_for_deal(self, player: Player, seed: u128) -> Decision {
        match self.state {
            StateView::Starting(s) if self.created() =>
                if !s.pending.spec_waiting_on(player) {
                    refused("cut for deal"@)
                } else {
                    Ok(seq![GameEventView::CutForDealMade { player, cut: card_at(s.deck, seed) }])
                },
            _ => refused("cut for deal"@),
        }
    }

    /// Starting the game: the player's acknowledgement; once both players
    /// have acknowledged, the cuts decide the dealer and `deck` is dealt, or
    /// a tie makes the players cut again.
    pub open spec fn start_game(self, player: Player, deck: Seq<Card>) -> Decision {
        match self.state {
            StateView::Starting(s) if self.created() => {
                let started = seq![GameEventView::GameStarted { player }];
                if s.pending.spec_waiting_on(player.spec_opponent()) {
                    Ok(started)
                } else {
                    match roles_from_cuts(s.cuts) {
                        Some(roles) => Ok(started.push(GameEventView::CutForDealDecided { dealer: Dealer(roles.spec_dealer()) })
                            + dealt_events(deck)),
                        None => Ok(started.push(GameEventView::CutForDealTied)),
                    }
                }
            },
            _ => refused("start game"@),
        }
    }

    /// Discarding: permitted while discarding and before the player
    /// discarded; the cards must be two cards of the player's six. Once both
    /// players have discarded, the starter is the deck's card that `seed`
    /// names, and his heels go to the dealer.
    pub open spec fn discard_cards(self, player: Player, cards: Seq<Card>, seed: u128) -> Decision {
        match self.state {
            StateView::Discarding(d) if self.created() => {
                let hand = player.pick(d.hands);
                if !d.pending.spec_waiting_on(player) {
                    refused("discard cards"@)
                } else if !all_held(hand, cards) || cards.len() != CARDS_DISCARDED_TO_CRIB
                    || hand.len() - cards.len() != CARDS_KEPT_PER_HAND {
                    Err(DomainErrorView::InvalidDiscards(cards_text(cards)))
                } else {
                    let discarded = seq![GameEventView::CardsDiscarded { player, cards }];
                    if d.pending.spec_waiting_on(player.spec_opponent()) {
                        Ok(discarded)
                    } else {
                        let cut = card_at(d.deck, seed);
                        let pegging = PeggingView { player: d.roles.spec_dealer(), sheet: his_heels_items(cut) };
                        Ok(discarded.push(GameEventView::StarterSelected { cut, pegging }))
                    }
                }
            },
            _ => refused("discard cards"@),
        }
    }

    /// Playing a card: permitted during the play; see `card_decision`.
    pub open spec fn play_card(self, player: Player, card: Card) -> Decision {
        match self.state {
            StateView::Playing(p) if self.created() => card_decision(p, player, card),
            _ => refused("play card"@),
        }
    }

    /// Calling go: permitted during the play, on the player's turn, when the
    /// player has no card they may lay; the go is pegged by whoever laid the
    /// last card of the series (the player, when there is none).
    pub open spec fn go(self, player: Player) -> Decision {
        match self.state {
            StateView::Playing(p) if self.created() => {
                let ps = p.play_state;
                if ps.next_to_play != player {
                    Err(DomainErrorView::NotPlayersTurn(player))
                } else if ps.legal_plays(player).len() > 0 {
                    Err(DomainErrorView::InvalidGo)
                } else {
                    let recipient = if ps.current.len() > 0 { ps.current.last().player } else { player };
                    Ok(seq![GameEventView::GoCalled { player, pegging: PeggingView { player: recipient, sheet: go_items(ps) } }])
                }
            },
            _ => refused("go"@),
        }
    }

    /// Scoring the pone: permitted during the play; the pone's hand, as it
    /// was before the play, is counted with the starter.
    pub open spec fn score_pone(self, player: Player) -> Decision {
        match self.state {
            StateView::Playing(p) if self.created() => {
                let pone = p.roles.spec_dealer().spec_opponent();
                let sheet = count_items(p.play_state.regathered(pone), p.starter_cut, 4);
                Ok(seq![GameEventView::PoneScored { player, pegging: PeggingView { player: pone, sheet } }])
            },
            _ => refused("score pone"@),
        }
    }

    /// Scoring the dealer: permitted while the pone's count is shown; the
    /// dealer's hand is counted with the starter.
    pub open spec fn score_dealer(self, player: Player) -> Decision {
        match self.state {
            StateView::ScoringPone(s) if self.created() => {
                let dealer = s.roles.spec_dealer();
                let sheet = count_items(dealer.pick(s.hands), s.starter_cut, 4);
                Ok(seq![GameEventView::DealerScored { player, pegging: PeggingView { player: dealer, sheet } }])
            },
            _ => refused("score dealer"@),
        }
    }

    /// Scoring the crib: permitted while the dealer's count is shown; the
    /// crib is counted with the starter, for the dealer.
    pub open spec fn score_crib(self, player: Player) -> Decision {
        match self.state {
            StateView::ScoringDealer(s) if self.created() => {
                let sheet = count_items(s.crib, s.starter_cut, 5);
                Ok(seq![GameEventView::CribScored { player, pegging: PeggingView { player: s.roles.spec_dealer(), sheet } }])
            },
            _ => refused("score crib"@),
        }
    }

    /// Starting the next round: permitted while the crib's count is shown;
    /// once both players have acknowledged, `deck` is dealt.
    pub open spec fn start_next_round(self, player: Player, deck: Seq<Card>) -> Decision {
        match self.state {
            StateView::ScoringCrib(s) if self.created() => {
                let started = seq![GameEventView::NextRoundStarted { player }];
                if s.pending.spec_waiting_on(player.spec_opponent()) {
                    Ok(started)
                } else {
                    Ok(started + dealt_events(deck))
                }
            },
            _ => refused("start next round"@),
        }
    }

    /// What the game decides on a command, given the outcomes of chance.
    pub open spec fn decide(self, command: GameCommandView, chance: ChanceView) -> Decision {
        match command {
            GameCommandView::HostGame { user_id, game_id } => self.host_game(user_id, game_id, chance.name),
            GameCommandView::JoinGame { user_id } => self.join_game(user_id),
            GameCommandView::PlayComputer { user_id, game_id } =>
                self.play_computer(user_id, game_id, chance.guest, chance.name),
            GameCommandView::CutForDeal { player } => self.cut_for_deal(player, chance.cut_seed),
            GameCommandView::StartGame { player } => self.start_game(player, chance.deck),
            GameCommandView::DiscardCards { player, cards } => self.discard_cards(player, cards, chance.cut_seed),
            GameCommandView::PlayCard { player, card } => self.play_card(player, card),
            GameCommandView::Go { player } => self.go(player),
            GameCommandView::ScorePone { player } => self.score_pone(player),
            GameCommandView::ScoreDealer { player } => self.score_dealer(player),
            GameCommandView::ScoreCrib { player } => self.score_crib(player),
            GameCommandView::StartNextRound { player } => self.start_next_round(player, chance.deck),
        }
    }

    /// The command can be decided without running out of cards: a cut is
    /// made from a deck that is not empty, and a discard of two held cards
    /// is checked against a hand that holds at least two.
    pub open spec fn decidable(self, command: GameCommandView) -> bool {
        match (command, self.state) {
            (GameCommandView::CutForDeal { player }, StateView::Starting(s)) =>
                self.created() && s.pending.spec_waiting_on(player) ==> s.deck.len() > 0,
            (GameCommandView::DiscardCards { player, cards }, StateView::Discarding(d)) => {
                let hand = player.pick(d.hands);
                self.created() && d.pending.spec_waiting_on(player) && all_held(hand, cards)
                    && cards.len() == CARDS_DISCARDED_TO_CRIB ==> {
                    &&& hand.len() >= cards.len()
                    &&& hand.len() - cards.len() == CARDS_KEPT_PER_HAND
                        && !d.pending.spec_waiting_on(player.spec_opponent()) ==> d.deck.len() > 0
                }
            },
            _ => true,
        }
    }
}


// ---------------------------------------------------------------------------
// Building decisions.
// ---------------------------------------------------------------------------

/// The refusal of an action (named) that is not permitted.
fn refuse(what: &str) -> (r: Result<Vec<GameEvent>, DomainError>)
    ensures outcome(r) == refused(what@),
{
    Err(DomainError::NotPermitted(String::from_str(what)))
}

/// A list of one event.
fn one_event(e: GameEvent) -> (v: Vec<GameEvent>)
    ensures events_view(v@) == seq![e@],
{
    let mut v: Vec<GameEvent> = Vec::new();
    v.push(e);
    assert(events_view(v@) =~= seq![e@]);
    v
}

/// Appends an event.
fn push_event(events: &mut Vec<GameEvent>, e: GameEvent)
    ensures events_view(final(events)@) == events_view(old(events)@).push(e@),
{
    events.push(e);
    assert(events_view(events@) =~= events_view(old(events)@).push(e@));
}

/// Appends the deal of both hands from the top of `deck`.
fn push_deals(events: &mut Vec<GameEvent>, deck: &Deck)
    requires deck@.len() >= 12,
    ensures events_view(final(events)@) == events_view(old(events)@) + dealt_events(deck@),
{
    let mut pack = deck.duplicate();
    let hands = pack.deal();
    push_event(events, GameEvent::HandDealt { player: PLAYER0, hand: hands[0].duplicate() });
    push_event(events, GameEvent::HandDealt { player: PLAYER1, hand: hands[1].duplicate() });
    assert(events_view(events@) =~= events_view(old(events)@) + dealt_events(deck@));
}

/// The services that handling a command may use: none.
#[derive(Clone, Copy, Debug, Default, PartialEq, Eq, Structural)]
pub struct GameServices;

/// Decides a card laid during the play.
fn decide_card(playing: &Playing, player: Player, card: Card) -> (r: Result<Vec<GameEvent>, DomainError>)
    ensures outcome(r) == card_decision(playing@, player, card),
{
    let play_state = playing.play_state();
    if play_state.next_to_play() != player {
        Err(DomainError::NotPlayersTurn(player))
    } else if !slice_contains(play_state.legal_plays(player).as_slice(), card) {
        Err(DomainError::InvalidPlay(card))
    } else {
        let mut after = play_state.duplicate();
        let sheet = after.play(card);
        Ok(one_event(GameEvent::CardPlayed { player, card, pegging: Pegging::new(player, sheet) }))
    }
}

impl Game {
    /// Creates a game from its parts.
    pub fn new(id: GameId, host: UserId, guest: Option<UserId>, name: &str, state: State) -> (g: Game)
        ensures g@ == (GameView { id, host, guest, name: name@, state: state@ }),
    {
        Game { id, host, guest, name: String::from_str(name), state }
    }

    /// The game's identity.
    pub fn id(&self) -> (id: &GameId)
        ensures *id == self@.id,
    {
        &self.id
    }

    /// The user who hosts the game.
    pub fn host(&self) -> (u: &UserId)
        ensures *u == self@.host,
    {
        &self.host
    }

    /// The user who joined the game as guest, if any.
    pub fn guest(&self) -> (u: Option<UserId>)
        ensures u == self@.guest,
    {
        self.guest
    }

    /// Writes the game as text: its name; then the host and the guest (`-`
    /// while there is none); then the state.
    pub fn to_string(&self) -> (s: String)
        ensures s@ == self@.text(),
    {
        let mut s = String::from_str(self.name.as_str());
        s.append("\n");
        s.append(self.host.to_string().as_str());
        s.append(" ");
        match self.guest {
            Some(g) => s.append(g.to_string().as_str()),
            None => s.append("-"),
        }
        s.append("\n");
        s.append(self.state.to_string().as_str());
        proof {
            reveal_strlit("\n");
            reveal_strlit(" ");
            reveal_strlit("-");
        }
        s
    }

    /// The game's name.
    pub fn name(&self) -> (n: &String)
        ensures n@ == self@.name,
    {
        &self.name
    }

    /// The game's name, to change in place.
    pub fn name_mut(&mut self) -> (n: &mut String)
        ensures
            n@ == old(self)@.name,
            final(self)@ == (GameView { name: final(n)@, ..old(self)@ }),
    {
        &mut self.name
    }

    /// The state of play, to change in place.
    pub fn state_mut(&mut self) -> (s: &mut State)
        ensures
            s@ == old(self)@.state,
            final(self)@ == (GameView { state: final(s)@, ..old(self)@ }),
    {
        &mut self.state
    }

    /// The state of play.
    pub fn state(&self) -> (s: &State)
        ensures s@ == self@.state,
    {
        &self.state
    }

    /// The player that the user is in this game, if the user plays it: the
    /// host is the first player, the guest the second.
    pub fn validate_user(&self, user_id: UserId) -> (p: Option<Player>)
        ensures p == self@.player_of(user_id),
    {
        if user_id == self.host {
            Some(PLAYER0)
        } else {
            match self.guest {
                Some(guest) if guest == user_id => Some(PLAYER1),
                _ => None,
            }
        }
    }

    /// Whether the command can be decided: `GameView::decidable`.
    pub fn is_decidable(&self, command: &GameCommand) -> (b: bool)
        ensures b == self@.decidable(command@),
    {
        let created = self.id != GameId::nil();
        match (command, &self.state) {
            (GameCommand::CutForDeal { player }, State::Starting(starting)) =>
                !(created && starting.pending().waiting_on(*player)) || starting.deck().len() > 0,
            (GameCommand::DiscardCards { player, cards }, State::Discarding(discarding)) => {
                let hand = discarding.hand(*player);
                let pending = discarding.pending();
                if created && pending.waiting_on(*player) && hand.contains_all(cards.as_slice())
                    && cards.len() == CARDS_DISCARDED_TO_CRIB {
                    hand.len() >= cards.len() && (hand.len() - cards.len() != CARDS_KEPT_PER_HAND
                        || pending.waiting_on(player.opponent()) || discarding.deck().len() > 0)
                } else {
                    true
                }
            },
            _ => true,
        }
    }

    /// Whether the event can be applied: `GameView::can_apply`.
    pub fn can_apply_event(&self, event: &GameEvent) -> (b: bool)
        ensures b == self@.can_apply(event@),
    {
        match (event, &self.state) {
            (GameEvent::StarterSelected { pegging, .. }, State::Discarding(discarding)) =>
                discarding.scoreboard().fits(pegging),
            (GameEvent::CardPlayed { card, pegging, .. }, State::Playing(playing)) =>
                playing.play_state().running_total() <= usize::MAX - card.value() && playing.scoreboard().fits(pegging),
            (GameEvent::GoCalled { pegging, .. }, State::Playing(playing)) => playing.scoreboard().fits(pegging),
            (GameEvent::PoneScored { player, pegging }, State::Playing(playing)) =>
                playing.pending().waiting_on(player.opponent()) || playing.scoreboard().fits(pegging),
            (GameEvent::DealerScored { player, pegging }, State::ScoringPone(scoring)) =>
                scoring.pending().waiting_on(player.opponent()) || scoring.scoreboard().fits(pegging),
            (GameEvent::CribScored { player, pegging }, State::ScoringDealer(scoring)) =>
                scoring.pending().waiting_on(player.opponent()) || scoring.scoreboard().fits(pegging),
            _ => true,
        }
    }

    fn host_game(&self, host: UserId, game_id: GameId, name: String) -> (r: Result<Vec<GameEvent>, DomainError>)
        ensures outcome(r) == self@.host_game(host, game_id, name@),
    {
        if self.id != GameId::nil() {
            refuse("host game")
        } else {
            Ok(one_event(GameEvent::LobbyGameCreated { game_id, host, name }))
        }
    }

    fn join_game(&self, guest: UserId) -> (r: Result<Vec<GameEvent>, DomainError>)
        ensures outcome(r) == self@.join_game(guest),
    {
        if self.id == GameId::nil() || self.guest.is_some() {
            refuse("join game")
        } else if self.host == guest {
            Err(DomainError::InvalidOpponent)
        } else {
            Ok(one_event(GameEvent::LobbyGameJoined { guest }))
        }
    }

    fn play_computer(&self, host: UserId, game_id: GameId, guest: UserId, name: String) -> (r: Result<Vec<GameEvent>, DomainError>)
        ensures outcome(r) == self@.play_computer(host, game_id, guest, name@),
    {
        if self.id != GameId::nil() {
            refuse("play computer")
        } else {
            Ok(one_event(GameEvent::ComputerGameCreated { game_id, host, guest, name }))
        }
    }

    fn cut_for_deal(&self, player: Player, seed: u128) -> (r: Result<Vec<GameEvent>, DomainError>)
        requires self@.decidable(GameCommandView::CutForDeal { player }),
        ensures outcome(r) == self@.cut_for_deal(player, seed),
    {
        if self.id == GameId::nil() {
            return refuse("cut for deal");
        }
        match &self.state {
            State::Starting(starting) => {
                if !starting.pending().waiting_on(player) {
                    refuse("cut for deal")
                } else {
                    let cut = starting.deck().cut_at(seed);
                    Ok(one_event(GameEvent::CutForDealMade { player, cut }))
                }
            },
            _ => refuse("cut for deal"),
        }
    }

    fn start_game(&self, player: Player, deck: &Deck) -> (r: Result<Vec<GameEvent>, DomainError>)
        requires deck@.len() >= 12,
        ensures outcome(r) == self@.start_game(player, deck@),
    {
        if self.id == GameId::nil() {
            return refuse("start game");
        }
        match &self.state {
            State::Starting(starting) => {
                let mut events = one_event(GameEvent::GameStarted { player });
                let mut pending = starting.pending();
                let proceed = pending.acknowledge(player);
                if proceed {
                    match starting.roles() {
                        Some(roles) => {
                            push_event(&mut events, GameEvent::CutForDealDecided { dealer: roles.dealer() });
                            push_deals(&mut events, deck);
                        },
                        None => push_event(&mut events, GameEvent::CutForDealTied),
                    }
                }
                Ok(events)
            },
            _ => refuse("start game"),
        }
    }

    fn discard_cards(&self, player: Player, cards: Vec<Card>, seed: u128) -> (r: Result<Vec<GameEvent>, DomainError>)
        requires self@.decidable(GameCommandView::DiscardCards { player, cards: cards@ }),
        ensures outcome(r) == self@.discard_cards(player, cards@, seed),
    {
        if self.id == GameId::nil() {
            return refuse("discard cards");
        }
        match &self.state {
            State::Discarding(discarding) => {
                let hand = discarding.hand(player);
                if !discarding.pending().waiting_on(player) {
                    refuse("discard cards")
                } else if !hand.contains_all(cards.as_slice()) || cards.len() != CARDS_DISCARDED_TO_CRIB
                    || hand.len() - cards.len() != CARDS_KEPT_PER_HAND {
                    Err(DomainError::InvalidDiscards(format_cards(cards.as_slice())))
                } else {
                    let mut events = one_event(GameEvent::CardsDiscarded { player, cards });
                    let mut pending = discarding.pending();
                    if pending.acknowledge(player) {
                        let cut = discarding.deck().cut_at(seed);
                        let dealer = discarding.dealer().player();
                        let pegging = Pegging::new(dealer, ScoreSheet::his_heels(cut));
                        push_event(&mut events, GameEvent::StarterSelected { cut, pegging });
                    }
                    Ok(events)
                }
            },
            _ => refuse("discard cards"),
        }
    }

    fn play_card(&self, player: Player, card: Card) -> (r: Result<Vec<GameEvent>, DomainError>)
        ensures outcome(r) == self@.play_card(player, card),
    {
        if self.id == GameId::nil() {
            return refuse("play card");
        }
        match &self.state {
            State::Playing(playing) => {
                let r = decide_card(playing, player, card);
                assert(self@.state == StateView::Playing(playing@));
                r
            },
            _ => refuse("play card"),
        }
    }

    fn go(&self, player: Player) -> (r: Result<Vec<GameEvent>, DomainError>)
        ensures outcome(r) == self@.go(player),
    {
        if self.id == GameId::nil() {
            return refuse("go");
        }
        match &self.state {
            State::Playing(playing) => {
                let play_state = playing.play_state();
                if play_state.next_to_play() != player {
                    Err(DomainError::NotPlayersTurn(player))
                } else if play_state.legal_plays(player).len() > 0 {
                    Err(DomainError::InvalidGo)
                } else {
                    let plays = play_state.current_plays();
                    let recipient = if plays.len() > 0 { plays[plays.len() - 1].player } else { player };
                    let pegging = Pegging::new(recipient, ScoreSheet::go(play_state));
                    Ok(one_event(GameEvent::GoCalled { player, pegging }))
                }
            },
            _ => refuse("go"),
        }
    }

    fn score_pone(&self, player: Player) -> (r: Result<Vec<GameEvent>, DomainError>)
        ensures outcome(r) == self@.score_pone(player),
    {
        if self.id == GameId::nil() {
            return refuse("score pone");
        }
        match &self.state {
            State::Playing(playing) => {
                let pone = playing.pone().player();
                let hands = playing.play_state().regather_hands();
                let hand = &hands[pone.index()];
                assert(hand@ == playing@.play_state.regathered(pone));
                let pegging = Pegging::new(pone, ScoreSheet::hand(hand, playing.starter_cut()));
                Ok(one_event(GameEvent::PoneScored { player, pegging }))
            },
            _ => refuse("score pone"),
        }
    }

    fn score_dealer(&self, player: Player) -> (r: Result<Vec<GameEvent>, DomainError>)
        ensures outcome(r) == self@.score_dealer(player),
    {
        if self.id == GameId::nil() {
            return refuse("score dealer");
        }
        match &self.state {
            State::ScoringPone(scoring) => {
                let dealer = scoring.dealer().player();
                let hand = scoring.hand(dealer);
                let sheet = ScoreSheet::hand(hand, scoring.starter_cut());
                let pegging = Pegging::new(dealer, sheet);
                let events = one_event(GameEvent::DealerScored { player, pegging });
                assert(events_view(events@) == seq![GameEventView::DealerScored {
                    player,
                    pegging: PeggingView { player: dealer, sheet: count_items(dealer.pick(scoring@.hands), scoring@.starter_cut, 4) },
                }]);
                Ok(events)
            },
            _ => refuse("score dealer"),
        }
    }

    fn score_crib(&self, player: Player) -> (r: Result<Vec<GameEvent>, DomainError>)
        ensures outcome(r) == self@.score_crib(player),
    {
        if self.id == GameId::nil() {
            return refuse("score crib");
        }
        match &self.state {
            State::ScoringDealer(scoring) => {
                let dealer = scoring.dealer().player();
                let pegging = Pegging::new(dealer, ScoreSheet::crib(scoring.crib(), scoring.starter_cut()));
                Ok(one_event(GameEvent::CribScored { player, pegging }))
            },
            _ => refuse("score crib"),
        }
    }

    fn start_next_round(&self, player: Player, deck: &Deck) -> (r: Result<Vec<GameEvent>, DomainError>)
        requires deck@.len() >= 12,
        ensures outcome(r) == self@.start_next_round(player, deck@),
    {
        if self.id == GameId::nil() {
            return refuse("start next round");
        }
        match &self.state {
            State::ScoringCrib(scoring) => {
                let mut events = one_event(GameEvent::NextRoundStarted { player });
                let mut pending = scoring.pending();
                if pending.acknowledge(player) {
                    push_deals(&mut events, deck);
                }
                Ok(events)
            },
            _ => refuse("start next round"),
        }
    }

    /// Decides a command with the given outcomes of chance: the events the
    /// command emits, or the error it is refused with.
    pub fn decide(&self, command: GameCommand, chance: &Chance) -> (r: Result<Vec<GameEvent>, DomainError>)
        requires
            chance@.valid(),
            self@.decidable(command@),
        ensures
            outcome(r) == self@.decide(command@, chance@),
    {
        match command {
            GameCommand::HostGame { user_id, game_id } => self.host_game(user_id, game_id, chance.name.clone()),
            GameCommand::JoinGame { user_id } => self.join_game(user_id),
            GameCommand::PlayComputer { user_id, game_id } =>
                self.play_computer(user_id, game_id, chance.guest, chance.name.clone()),
            GameCommand::CutForDeal { player } => self.cut_for_deal(player, chance.cut_seed),
            GameCommand::StartGame { player } => self.start_game(player, &chance.deck),
            GameCommand::DiscardCards { player, cards } => self.discard_cards(player, cards, chance.cut_seed),
            GameCommand::PlayCard { player, card } => self.play_card(player, card),
            GameCommand::Go { player } => self.go(player),
            GameCommand::ScorePone { player } => self.score_pone(player),
            GameCommand::ScoreDealer { player } => self.score_dealer(player),
            GameCommand::ScoreCrib { player } => self.score_crib(player),
            GameCommand::StartNextRound { player } => self.start_next_round(player, &chance.deck),
        }
    }

    /// Handles a command: draws what chance the command needs (a name, a
    /// computer opponent, a cut, a shuffled pack) and decides it.
    pub fn handle_command(&self, command: GameCommand) -> (r: Result<Vec<GameEvent>, DomainError>)
        requires
            self@.decidable(command@),
        ensures
            exists|chance: ChanceView| chance.valid() && outcome(r) == self@.decide(command@, chance),
    {
        let chance = Chance::draw();
        let r = self.decide(command, &chance);
        assert(chance@.valid() && outcome(r) == self@.decide(command@, chance@));
        r
    }
}

impl Default for Game {
    /// A game not yet created: nil identities, no guest, no name, and the
    /// initial starting state.
    fn default() -> (g: Game)
        ensures g@ == (GameView {
            id: GameId(0),
            host: UserId(0),
            guest: None,
            name: Seq::empty(),
            state: StateView::Starting(StartingView::initial()),
        }),
    {
        Game { id: GameId::nil(), host: UserId::nil(), guest: None, name: String::new(), state: State::default() }
    }
}


// ---------------------------------------------------------------------------
// Applying events.
// ---------------------------------------------------------------------------

/// The state after an event. Events that belong to another phase than the
/// state's leave it unchanged.
pub open spec fn state_after(state: StateView, event: GameEventView) -> StateView {
    match event {
        GameEventView::LobbyGameCreated { .. } => StateView::Starting(StartingView::initial()),
        GameEventView::ComputerGameCreated { .. } => StateView::Starting(StartingView::initial()),
        GameEventView::LobbyGameJoined { .. } => state,
        GameEventView::CutForDealMade { player, cut } => match state {
            StateView::Starting(s) => StateView::Starting(s.cut_made(player, cut)),
            _ => state,
        },
        GameEventView::GameStarted { player } => match state {
            StateView::Starting(s) => StateView::Starting(s.acknowledged(player)),
            _ => state,
        },
        GameEventView::CutForDealTied => match state {
            StateView::Starting(_) => StateView::Starting(StartingView::initial()),
            _ => state,
        },
        GameEventView::CutForDealDecided { dealer } => match state {
            StateView::Starting(_) =>
                StateView::Discarding(DiscardingView::new_round(ScoreboardView::zero(), Roles::spec_new(dealer.0))),
            _ => state,
        },
        GameEventView::HandDealt { player, hand } => match state {
            StateView::Discarding(d) => StateView::Discarding(d.dealt(player, hand)),
            _ => state,
        },
        GameEventView::CardsDiscarded { player, cards } => match state {
            StateView::Discarding(d) => StateView::Discarding(d.discarded(player, cards)),
            _ => state,
        },
        GameEventView::StarterSelected { cut, pegging } => match state {
            StateView::Discarding(d) => d.starter_selected(cut, pegging),
            _ => state,
        },
        GameEventView::CardPlayed { card, pegging, .. } => match state {
            StateView::Playing(p) => p.card_played(card, pegging),
            _ => state,
        },
        GameEventView::GoCalled { pegging, .. } => match state {
            StateView::Playing(p) => p.go_called(pegging),
            _ => state,
        },
        GameEventView::PoneScored { player, pegging } => match state {
            StateView::Playing(p) => p.pone_scored(player, pegging),
            _ => state,
        },
        GameEventView::DealerScored { player, pegging } => match state {
            StateView::ScoringPone(s) => s.dealer_scored(player, pegging),
            _ => state,
        },
        GameEventView::CribScored { player, pegging } => match state {
            StateView::ScoringDealer(s) => s.crib_scored(player, pegging),
            _ => state,
        },
        GameEventView::NextRoundStarted { player } => match state {
            StateView::ScoringCrib(s) => s.next_round_started(player),
            _ => state,
        },
    }
}

/// An event can be applied to the state: the running total with a card
/// played, and every pegging added to the board, fit the machine's integers.
/// Any card may be played.
pub open spec fn state_can_apply(state: StateView, event: GameEventView) -> bool {
    match (event, state) {
        (GameEventView::StarterSelected { pegging, .. }, StateView::Discarding(d)) => d.scoreboard.peg_fits(pegging),
        (GameEventView::CardPlayed { card, pegging, .. }, StateView::Playing(p)) =>
            p.play_state.running_total() + card.spec_value() <= usize::MAX && p.scoreboard.peg_fits(pegging),
        (GameEventView::GoCalled { pegging, .. }, StateView::Playing(p)) => p.scoreboard.peg_fits(pegging),
        (GameEventView::PoneScored { player, pegging }, StateView::Playing(p)) =>
            !p.pending.spec_waiting_on(player.spec_opponent()) ==> p.scoreboard.peg_fits(pegging),
        (GameEventView::DealerScored { player, pegging }, StateView::ScoringPone(s)) =>
            !s.pending.spec_waiting_on(player.spec_opponent()) ==> s.scoreboard.peg_fits(pegging),
        (GameEventView::CribScored { player, pegging }, StateView::ScoringDealer(s)) =>
            !s.pending.spec_waiting_on(player.spec_opponent()) ==> s.scoreboard.peg_fits(pegging),
        _ => true,
    }
}

impl GameView {
    /// The game after an event: creation sets the identity, the host and the
    /// name (and, against the computer, the guest); joining sets the guest;
    /// every event moves the state as `state_after` says.
    pub open spec fn applied(self, event: GameEventView) -> GameView {
        let state = state_after(self.state, event);
        match event {
            GameEventView::LobbyGameCreated { game_id, host, name } =>
                GameView { id: game_id, host, guest: self.guest, name, state },
            GameEventView::LobbyGameJoined { guest } => GameView { guest: Some(guest), state, ..self },
            GameEventView::ComputerGameCreated { game_id, host, guest, name } =>
                GameView { id: game_id, host, guest: Some(guest), name, state },
            _ => GameView { state, ..self },
        }
    }

    /// The event can be applied to the game.
    pub open spec fn can_apply(self, event: GameEventView) -> bool {
        state_can_apply(self.state, event)
    }

    /// The game after the events, applied in order.
    pub open spec fn applied_all(self, events: Seq<GameEventView>) -> GameView
        decreases events.len(),
    {
        if events.len() == 0 {
            self
        } else {
            self.applied(events[0]).applied_all(events.drop_first())
        }
    }

    /// Each of the events, in order, can be applied to the game as the
    /// events before it left it.
    pub open spec fn can_apply_all(self, events: Seq<GameEventView>) -> bool
        decreases events.len(),
    {
        events.len() == 0 || (self.can_apply(events[0]) && self.applied(events[0]).can_apply_all(events.drop_first()))
    }
}

impl Game {
    /// Takes the state out of the game, leaving the initial starting state.
    fn take_state(&mut self) -> (s: State)
        ensures
            s@ == old(self)@.state,
            final(self)@ == (GameView { state: StateView::Starting(StartingView::initial()), ..old(self)@ }),
    {
        let mut state = State::default();
        std::mem::swap(&mut state, &mut self.state);
        state
    }

    fn lobby_game_created(&mut self, game_id: GameId, host: UserId, name: String)
        ensures final(self)@ == old(self)@.applied(GameEventView::LobbyGameCreated { game_id, host, name: name@ }),
    {
        self.id = game_id;
        self.host = host;
        self.name = name;
        self.state = State::default();
    }

    fn lobby_game_joined(&mut self, guest: UserId)
        ensures final(self)@ == old(self)@.applied(GameEventView::LobbyGameJoined { guest }),
    {
        self.guest = Some(guest);
    }

    fn computer_game_created(&mut self, game_id: GameId, host: UserId, guest: UserId, name: String)
        ensures
            final(self)@ == old(self)@.applied(GameEventView::ComputerGameCreated { game_id, host, guest, name: name@ }),
    {
        self.id = game_id;
        self.host = host;
        self.guest = Some(guest);
        self.name = name;
        self.state = State::default();
    }

    fn cut_for_deal_made(&mut self, player: Player, cut: Card)
        ensures final(self)@ == old(self)@.applied(GameEventView::CutForDealMade { player, cut }),
    {
        self.state = match self.take_state() {
            State::Starting(mut starting) => {
                starting.set_cut(player, cut);
                State::Starting(starting)
            },
            other => other,
        };
    }

    fn game_started(&mut self, player: Player)
        ensures final(self)@ == old(self)@.applied(GameEventView::GameStarted { player }),
    {
        self.state = match self.take_state() {
            State::Starting(mut starting) => {
                starting.set_acknowledged(player);
                State::Starting(starting)
            },
            other => other,
        };
    }

    fn cut_for_deal_decided(&mut self, dealer: Dealer)
        ensures final(self)@ == old(self)@.applied(GameEventView::CutForDealDecided { dealer }),
    {
        self.state = match self.take_state() {
            State::Starting(_) => State::Discarding(Discarding::new_round(Scoreboard::zero(), Roles::new(dealer))),
            other => other,
        };
    }

    fn hand_dealt(&mut self, player: Player, hand: Hand)
        ensures final(self)@ == old(self)@.applied(GameEventView::HandDealt { player, hand: hand@ }),
    {
        self.state = match self.take_state() {
            State::Discarding(mut discarding) => {
                discarding.deal_hand(player, &hand);
                State::Discarding(discarding)
            },
            other => other,
        };
    }

    fn cut_for_deal_tied(&mut self)
        ensures final(self)@ == old(self)@.applied(GameEventView::CutForDealTied),
    {
        self.state = match self.take_state() {
            State::Starting(_) => State::Starting(Starting::initial()),
            other => other,
        };
    }

    fn cards_discarded(&mut self, player: Player, cards: &[Card])
        ensures final(self)@ == old(self)@.applied(GameEventView::CardsDiscarded { player, cards: cards@ }),
    {
        self.state = match self.take_state() {
            State::Discarding(mut discarding) => {
                discarding.discard_cards_to_crib(player, cards);
                State::Discarding(discarding)
            },
            other => other,
        };
    }

    fn starter_selected(&mut self, cut: Card, pegging: Pegging)
        requires old(self)@.can_apply(GameEventView::StarterSelected { cut, pegging: pegging@ }),
        ensures final(self)@ == old(self)@.applied(GameEventView::StarterSelected { cut, pegging: pegging@ }),
    {
        self.state = match self.take_state() {
            State::Discarding(discarding) => discarding.select_starter(cut, &pegging),
            other => other,
        };
    }

    fn card_played(&mut self, player: Player, card: Card, pegging: Pegging)
        requires old(self)@.can_apply(GameEventView::CardPlayed { player, card, pegging: pegging@ }),
        ensures final(self)@ == old(self)@.applied(GameEventView::CardPlayed { player, card, pegging: pegging@ }),
    {
        self.state = match self.take_state() {
            State::Playing(playing) => playing.card_played(card, &pegging),
            other => other,
        };
    }

    fn go_called(&mut self, player: Player, pegging: Pegging)
        requires old(self)@.can_apply(GameEventView::GoCalled { player, pegging: pegging@ }),
        ensures final(self)@ == old(self)@.applied(GameEventView::GoCalled { player, pegging: pegging@ }),
    {
        self.state = match self.take_state() {
            State::Playing(playing) => playing.go_called(&pegging),
            other => other,
        };
    }

    fn pone_scored(&mut self, player: Player, pegging: Pegging)
        requires old(self)@.can_apply(GameEventView::PoneScored { player, pegging: pegging@ }),
        ensures final(self)@ == old(self)@.applied(GameEventView::PoneScored { player, pegging: pegging@ }),
    {
        self.state = match self.take_state() {
            State::Playing(playing) => playing.pone_scored(player, &pegging),
            other => other,
        };
    }

    fn dealer_scored(&mut self, player: Player, pegging: Pegging)
        requires old(self)@.can_apply(GameEventView::DealerScored { player, pegging: pegging@ }),
        ensures final(self)@ == old(self)@.applied(GameEventView::DealerScored { player, pegging: pegging@ }),
    {
        self.state = match self.take_state() {
            State::ScoringPone(scoring) => scoring.dealer_scored(player, &pegging),
            other => other,
        };
    }

    fn crib_scored(&mut self, player: Player, pegging: Pegging)
        requires old(self)@.can_apply(GameEventView::CribScored { player, pegging: pegging@ }),
        ensures final(self)@ == old(self)@.applied(GameEventView::CribScored { player, pegging: pegging@ }),
    {
        self.state = match self.take_state() {
            State::ScoringDealer(scoring) => scoring.crib_scored(player, &pegging),
            other => other,
        };
    }

    fn next_round_started(&mut self, player: Player)
        ensures final(self)@ == old(self)@.applied(GameEventView::NextRoundStarted { player }),
    {
        self.state = match self.take_state() {
            State::ScoringCrib(scoring) => scoring.next_round_started(player),
            other => other,
        };
    }
}

impl Game {
    /// Applies an event: the game moves as `GameView::applied` says.
    pub fn apply_event(&mut self, event: GameEvent)
        requires
            old(self)@.can_apply(event@),
        ensures
            final(self)@ == old(self)@.applied(event@),
    {
        match event {
            GameEvent::LobbyGameCreated { game_id, host, name } => self.lobby_game_created(game_id, host, name),
            GameEvent::LobbyGameJoined { guest } => self.lobby_game_joined(guest),
            GameEvent::ComputerGameCreated { game_id, host, guest, name } =>
                self.computer_game_created(game_id, host, guest, name),
            GameEvent::CutForDealMade { player, cut } => self.cut_for_deal_made(player, cut),
            GameEvent::GameStarted { player } => self.game_started(player),
            GameEvent::CutForDealDecided { dealer } => self.cut_for_deal_decided(dealer),
            GameEvent::HandDealt { player, hand } => self.hand_dealt(player, hand),
            GameEvent::CutForDealTied => self.cut_for_deal_tied(),
            GameEvent::CardsDiscarded { player, cards } => self.cards_discarded(player, cards.as_slice()),
            GameEvent::StarterSelected { cut, pegging } => self.starter_selected(cut, pegging),
            GameEvent::CardPlayed { player, card, pegging } => self.card_played(player, card, pegging),
            GameEvent::GoCalled { player, pegging } => self.go_called(player, pegging),
            GameEvent::PoneScored { player, pegging } => self.pone_scored(player, pegging),
            GameEvent::DealerScored { player, pegging } => self.dealer_scored(player, pegging),
            GameEvent::CribScored { player, pegging } => self.crib_scored(player, pegging),
            GameEvent::NextRoundStarted { player } => self.next_round_started(player),
        }
    }

    /// Applies events in order.
    pub fn apply_events(&mut self, events: &[GameEvent])
        requires
            old(self)@.can_apply_all(events_view(events@)),
        ensures
            final(self)@ == old(self)@.applied_all(events_view(events@)),
    {
        let ghost all = events_view(events@);
        let ghost start = self@;
        let mut i: usize = 0;
        while i < events.len()
            invariant
                i <= events@.len(),
                all == events_view(events@),
                self@.can_apply_all(all.skip(i as int)),
                self@.applied_all(all.skip(i as int)) == start.applied_all(all),
            decreases events.len() - i,
        {
            let event = events[i].duplicate();
            proof {
                assert(all.skip(i as int).drop_first() =~= all.skip(i + 1));
                assert(all.skip(i as int)[0] == event@);
            }
            self.apply_event(event);
            i = i + 1;
        }
        assert(all.skip(i as int) =~= Seq::<GameEventView>::empty());
        assert(all.skip(0) =~= all);
    }
}


} // verus!
