use cribbage_server::display::format_vec;
use cribbage_server::domain::cards::Card;
use cribbage_server::domain::deck::{Deck, CARDS_DEALT_PER_HAND, STANDARD_DECK_SIZE};
use cribbage_server::domain::game::{Chance, DomainError, Game, GameCommand, GameEvent};
use cribbage_server::domain::pile::{Crib, Hand};
use cribbage_server::domain::players::{Dealer, Pending, Player, Pone, Roles, PLAYER0, PLAYER1, PLAYER_COUNT};
use cribbage_server::domain::plays::{GoStatus, Play, PlayState};
use cribbage_server::domain::scoreboard::{Position, Scoreboard};
use cribbage_server::domain::scoring::{Pegging, Points, ScoreKind, ScoreSheet};
use cribbage_server::domain::state::{
    Discarding, Playing, Scoring, ScoringCribType, ScoringDealerType, ScoringPoneType, State,
};
use cribbage_server::ids::{GameId, UserId};

fn card(text: &str) -> Card {
    Card::from_str(text).expect("card text")
}

fn cards(text: &str) -> Vec<Card> {
    hand(text).as_slice().to_vec()
}

fn hand(text: &str) -> Hand {
    Hand::from_str(text).expect("cards text")
}

fn crib(text: &str) -> Crib {
    Crib::from_str(text).expect("cards text")
}

fn player(index: usize) -> Player {
    Player::from_index(index).expect("player index")
}

fn plays(list: &[(usize, &str)]) -> Vec<Play> {
    list.iter().map(|(p, c)| Play::new(player(*p), card(c))).collect()
}

fn card_texts(cards: &[Card]) -> Vec<String> {
    cards.iter().map(|c| c.to_string()).collect()
}

/// The game that the events build, from a game not yet created.
fn given(events: &[GameEvent]) -> Game {
    let mut game = Game::default();
    game.apply_events(events);
    game
}

/// The command handled by the game, with chance as it falls.
fn when(game: &Game, command: GameCommand) -> Result<Vec<GameEvent>, DomainError> {
    game.handle_command(command)
}

/// The command decided by the game with the cut taken from the top of the
/// deck, as a scenario with a starter arranges it.
fn when_cut_from_top(game: &Game, command: GameCommand) -> Result<Vec<GameEvent>, DomainError> {
    let chance = Chance {
        name: String::from("test game"),
        guest: UserId::new(),
        cut_seed: 0,
        deck: Deck::shuffled_pack(),
    };
    game.decide(command, &chance)
}

/// The game after the events.
fn then(game: Game, events: &[GameEvent]) -> Game {
    let mut game = game;
    game.apply_events(events);
    game
}

/// A game set up in a given phase, with the host dealing.
#[derive(Clone)]
struct Scenario {
    next: usize,
    hands: (String, String),
    cut: String,
    crib: String,
    ack: Option<usize>,
    points: (usize, usize),
    go: bool,
    current: Vec<Play>,
    previous: Vec<Play>,
}

impl Scenario {
    fn new() -> Self {
        Scenario {
            next: 1,
            hands: (String::new(), String::new()),
            cut: String::from("AS"),
            crib: String::new(),
            ack: None,
            points: (0, 0),
            go: false,
            current: Vec::new(),
            previous: Vec::new(),
        }
    }

    fn next(mut self, next: usize) -> Self {
        self.next = next;
        self
    }

    fn hands(mut self, host: &str, guest: &str) -> Self {
        self.hands = (host.to_string(), guest.to_string());
        self
    }

    fn cut(mut self, cut: &str) -> Self {
        self.cut = cut.to_string();
        self
    }

    fn crib(mut self, crib: &str) -> Self {
        self.crib = crib.to_string();
        self
    }

    fn ack(mut self, player: usize) -> Self {
        self.ack = Some(player);
        self
    }

    fn points(mut self, host: usize, guest: usize) -> Self {
        self.points = (host, guest);
        self
    }

    fn go(mut self) -> Self {
        self.go = true;
        self
    }

    fn current(mut self, list: &[(usize, &str)]) -> Self {
        self.current = plays(list);
        self
    }

    fn previous(mut self, list: &[(usize, &str)]) -> Self {
        self.previous = plays(list);
        self
    }

    fn pending(&self) -> Pending {
        let mut pending = Pending::new();
        if let Some(p) = self.ack {
            pending.acknowledge(player(p));
        }
        pending
    }

    fn scoreboard(&self) -> Scoreboard {
        Scoreboard::new([Position::new(self.points.0), Position::new(self.points.1)])
    }

    fn roles(&self) -> Roles {
        Roles::new(Dealer(PLAYER0))
    }

    fn player_hands(&self) -> [Hand; 2] {
        [hand(&self.hands.0), hand(&self.hands.1)]
    }

    /// The deck: the starter on top, then the rest of the pack that is in
    /// no hand and not in the crib.
    fn deck(&self) -> Deck {
        let starter = card(&self.cut);
        let mut taken = cards(&self.hands.0);
        taken.extend(cards(&self.hands.1));
        taken.extend(cards(&self.crib));
        taken.push(starter);
        let mut deck = Deck::from_cards(vec![starter]);
        for c in Deck::standard_pack().as_slice() {
            if !taken.contains(c) {
                deck.add(*c);
            }
        }
        deck
    }

    fn game(state: State) -> Game {
        Game::new(GameId::new(), UserId::new(), Some(UserId::new()), "test game", state)
    }

    fn discarding(&self) -> Game {
        let state = Discarding::new(
            self.scoreboard(),
            self.roles(),
            self.player_hands(),
            crib(&self.crib),
            self.deck(),
            self.pending(),
        );
        Self::game(State::Discarding(state))
    }

    fn play_state(&self) -> PlayState {
        let mut play_state = PlayState::new(player(self.next))
            .with_pending_plays(PLAYER0, cards(&self.hands.0).as_slice())
            .with_pending_plays(PLAYER1, cards(&self.hands.1).as_slice());
        if self.go {
            play_state = play_state.with_go_status(GoStatus::Called);
        }
        play_state
            .with_previous_plays(&self.previous)
            .with_current_plays(&self.current)
            .expect("the series stays within 31")
    }

    fn playing(&self) -> Game {
        let state = Playing::new(
            self.scoreboard(),
            self.roles(),
            self.player_hands(),
            self.play_state(),
            crib(&self.crib),
            card(&self.cut),
            self.pending(),
        );
        Self::game(State::Playing(state))
    }

    fn scoring_parts(&self) -> (Scoreboard, Roles, [Hand; 2], Crib, Card, Pegging, Pending) {
        (
            self.scoreboard(),
            self.roles(),
            self.player_hands(),
            crib(&self.crib),
            card(&self.cut),
            Pegging::new(PLAYER0, ScoreSheet::new()),
            self.pending(),
        )
    }

    fn scoring_pone(&self) -> Game {
        let (s, r, h, c, cut, p, pending) = self.scoring_parts();
        Self::game(State::ScoringPone(Scoring::<ScoringPoneType>::new(s, r, h, c, cut, p, pending)))
    }

    fn scoring_dealer(&self) -> Game {
        let (s, r, h, c, cut, p, pending) = self.scoring_parts();
        Self::game(State::ScoringDealer(Scoring::<ScoringDealerType>::new(s, r, h, c, cut, p, pending)))
    }

    fn scoring_crib(&self) -> Game {
        let (s, r, h, c, cut, p, pending) = self.scoring_parts();
        Self::game(State::ScoringCrib(Scoring::<ScoringCribType>::new(s, r, h, c, cut, p, pending)))
    }
}

fn playing_of(game: &Game) -> &Playing {
    match game.state() {
        State::Playing(playing) => playing,
        other => panic!("unexpected state: {}", other.name()),
    }
}

fn computer_game(game_id: GameId, host: UserId, guest: UserId) -> GameEvent {
    GameEvent::ComputerGameCreated { game_id, host, guest, name: String::from("test game") }
}

// ---------------------------------------------------------------------------
// Players.
// ---------------------------------------------------------------------------

#[test]
fn a_user_can_host_game() {
    let user_id = UserId::new();
    let game_id = GameId::new();
    let game = Game::default();

    let events = when(&game, GameCommand::HostGame { user_id, game_id }).expect("hosted");
    match &events[..] {
        [GameEvent::LobbyGameCreated { game_id: event_game_id, host, name }] => {
            assert_eq!(event_game_id, &game_id);
            assert_eq!(host, &user_id);
            assert_ne!(name.trim(), "");
        },
        other => panic!("unexpected events: {:?}", other),
    }
}

#[test]
fn a_user_can_play_the_computer() {
    let user_id = UserId::new();
    let game_id = GameId::new();
    let game = Game::default();

    let events = when(&game, GameCommand::PlayComputer { user_id, game_id }).expect("created");
    match &events[..] {
        [GameEvent::ComputerGameCreated { game_id: event_game_id, host, guest, name }] => {
            assert_eq!(event_game_id, &game_id);
            assert_eq!(host, &user_id);
            assert_ne!(guest, &UserId::default());
            assert_ne!(guest, &user_id);
            assert_ne!(name.trim(), "");
        },
        other => panic!("unexpected events: {:?}", other),
    }
}

#[test]
fn a_user_can_join_lobby_game() {
    let game_id = GameId::new();
    let host = UserId::new();
    let guest = UserId::new();
    let game = given(&[GameEvent::LobbyGameCreated { game_id, host, name: String::from("lobby") }]);

    let events = when(&game, GameCommand::JoinGame { user_id: guest }).expect("joined");
    assert_eq!(events, vec![GameEvent::LobbyGameJoined { guest }]);
}

#[test]
fn a_user_cannot_join_active_game() {
    let game_id = GameId::new();
    let host = UserId::new();
    let guest = UserId::new();
    let game = given(&[computer_game(game_id, host, guest)]);

    let error = when(&game, GameCommand::JoinGame { user_id: UserId::new() }).expect_err("refused");
    assert_eq!(error, DomainError::NotPermitted(String::from("join game")));
}

#[test]
fn a_different_user_must_join_lobby_game() {
    let game_id = GameId::new();
    let host = UserId::new();
    let guest = host;
    let game = given(&[GameEvent::LobbyGameCreated { game_id, host, name: String::from("lobby") }]);

    let error = when(&game, GameCommand::JoinGame { user_id: guest }).expect_err("refused");
    assert_eq!(error, DomainError::InvalidOpponent);
}

// ---------------------------------------------------------------------------
// The pack, the cut for deal and the deal.
// ---------------------------------------------------------------------------

#[test]
fn use_a_standard_pack_of_cards() {
    let user_id = UserId::new();
    let game_id = GameId::new();
    let game = Game::default();

    let events = when(&game, GameCommand::PlayComputer { user_id, game_id }).expect("created");
    let game = then(game, &events);
    match game.state() {
        State::Starting(starting) => assert_eq!(starting.deck().len(), STANDARD_DECK_SIZE),
        other => panic!("unexpected state: {}", other.name()),
    }
}

#[test]
fn user_must_cut_for_dealer_1() {
    let game = given(&[computer_game(GameId::new(), UserId::new(), UserId::new())]);

    let events = when(&game, GameCommand::CutForDeal { player: PLAYER0 }).expect("cut");
    match &events[..] {
        [GameEvent::CutForDealMade { player, .. }] => assert_eq!(player, &PLAYER0),
        other => panic!("unexpected events: {:?}", other),
    }
}

#[test]
fn user_must_cut_for_dealer_2() {
    let cut0 = card("AS");
    let game = given(&[
        computer_game(GameId::new(), UserId::new(), UserId::new()),
        GameEvent::CutForDealMade { player: PLAYER0, cut: cut0 },
    ]);

    let events = when(&game, GameCommand::CutForDeal { player: PLAYER1 }).expect("cut");
    match &events[..] {
        [GameEvent::CutForDealMade { player, cut }] => {
            assert_eq!(player, &PLAYER1);
            assert_ne!(cut, &cut0);
        },
        other => panic!("unexpected events: {:?}", other),
    }
}

fn cuts_made(cut0: &str, cut1: &str) -> Game {
    given(&[
        computer_game(GameId::new(), UserId::new(), UserId::new()),
        GameEvent::CutForDealMade { player: PLAYER0, cut: card(cut0) },
        GameEvent::CutForDealMade { player: PLAYER1, cut: card(cut1) },
        GameEvent::GameStarted { player: PLAYER0 },
    ])
}

#[test]
fn dealer_decided_with_lowest_cut() {
    let game = cuts_made("AS", "QH");

    let events = when(&game, GameCommand::StartGame { player: PLAYER1 }).expect("started");
    assert_eq!(
        events[..2],
        vec![GameEvent::GameStarted { player: PLAYER1 }, GameEvent::CutForDealDecided { dealer: Dealer::from(PLAYER0) }]
    );
    let deals = events.iter().filter(|e| matches!(e, GameEvent::HandDealt { .. })).count();
    assert_eq!(deals, PLAYER_COUNT);

    let game = then(game, &events);
    match game.state() {
        State::Discarding(discarding) => {
            assert_eq!(discarding.deck().len(), STANDARD_DECK_SIZE - (CARDS_DEALT_PER_HAND * PLAYER_COUNT));
        },
        other => panic!("unexpected state: {}", other.name()),
    }
}

#[test]
fn dealer_undecided_with_tied_cut() {
    let game = cuts_made("AS", "AH");

    let events = when(&game, GameCommand::StartGame { player: PLAYER1 }).expect("started");
    assert_eq!(events, vec![GameEvent::GameStarted { player: PLAYER1 }, GameEvent::CutForDealTied]);
}

#[test]
fn dealer_deals_six_cards_each() {
    let game = cuts_made("AS", "QH");

    let events = when(&game, GameCommand::StartGame { player: PLAYER1 }).expect("started");
    assert_eq!(
        events[..2],
        vec![GameEvent::GameStarted { player: PLAYER1 }, GameEvent::CutForDealDecided { dealer: Dealer::from(PLAYER0) }]
    );
    let hands: Vec<&Hand> = events
        .iter()
        .filter_map(|event| match event {
            GameEvent::HandDealt { hand, .. } => Some(hand),
            _ => None,
        })
        .collect();
    assert_eq!(hands.len(), PLAYER_COUNT);
    assert_eq!(hands[0].len(), CARDS_DEALT_PER_HAND);
    assert_eq!(hands[1].len(), CARDS_DEALT_PER_HAND);
}

// ---------------------------------------------------------------------------
// The crib.
// ---------------------------------------------------------------------------

fn fresh_discarding() -> Game {
    Scenario::new().hands("AH2H3H4H5H6H", "AC2C3C4C5C6C").cut("QD").crib("").discarding()
}

fn host_discarded(cut: &str) -> Scenario {
    Scenario::new().hands("3H4H5H6H", "AC2C3C4C5C6C").ack(0).cut(cut).crib("AH2H")
}

#[test]
fn player_can_discard_own_cards_to_the_crib() {
    let game = fresh_discarding();

    let events = when_cut_from_top(&game, GameCommand::DiscardCards { player: PLAYER0, cards: cards("AH2H") })
        .expect("discarded");
    assert_eq!(events, vec![GameEvent::CardsDiscarded { player: PLAYER0, cards: cards("AH2H") }]);

    let game = then(game, &events);
    match game.state() {
        State::Discarding(discarding) => {
            assert!(discarding.deck().contains_none(&cards("AH2H")));
            assert_eq!(discarding.deck().len(), STANDARD_DECK_SIZE - (CARDS_DEALT_PER_HAND * PLAYER_COUNT));
        },
        other => panic!("unexpected state: {}", other.name()),
    }
}

#[test]
fn player_cannot_discard_other_than_two_held_cards_to_the_crib() {
    for text in ["AH2H3H", "AH"] {
        let discards = cards(text);
        let expected_error_text = format_vec(&card_texts(&discards));
        let game = fresh_discarding();

        let error = when_cut_from_top(&game, GameCommand::DiscardCards { player: PLAYER0, cards: discards })
            .expect_err("refused");
        assert_eq!(error, DomainError::InvalidDiscards(expected_error_text));
    }
}

#[test]
fn player_cannot_discard_unowned_cards_to_the_crib() {
    let discards = cards("AC2C");
    let expected_error_text = format_vec(&card_texts(&discards));
    let game = fresh_discarding();

    let error =
        when_cut_from_top(&game, GameCommand::DiscardCards { player: PLAYER0, cards: discards }).expect_err("refused");
    assert_eq!(error, DomainError::InvalidDiscards(expected_error_text));
}

#[test]
fn player_cannot_discard_if_already_discarded() {
    let game = host_discarded("QD").discarding();

    let error = when_cut_from_top(&game, GameCommand::DiscardCards { player: PLAYER0, cards: cards("5H6H") })
        .expect_err("refused");
    assert_eq!(error, DomainError::NotPermitted(String::from("discard cards")));
}

// ---------------------------------------------------------------------------
// Before the play.
// ---------------------------------------------------------------------------

#[test]
fn start_the_play_after_discards() {
    let game = host_discarded("QD").discarding();

    let events = when_cut_from_top(&game, GameCommand::DiscardCards { player: PLAYER1, cards: cards("AC2C") })
        .expect("discarded");
    assert!(events.contains(&GameEvent::CardsDiscarded { player: PLAYER1, cards: cards("AC2C") }));
    assert!(events.iter().any(|e| matches!(e, GameEvent::StarterSelected { .. })));

    let game = then(game, &events);
    let playing = playing_of(&game);
    let starter_cut = playing.starter_cut();
    assert!(!playing.hand(PLAYER0).contains(starter_cut));
    assert!(!playing.hand(PLAYER1).contains(starter_cut));
    assert!(!playing.crib().contains(starter_cut));
}

#[test]
fn score_his_heels_when_jack_cut_after_discards() {
    let game = host_discarded("JC").discarding();

    let events = when_cut_from_top(&game, GameCommand::DiscardCards { player: PLAYER1, cards: cards("AC2C") })
        .expect("discarded");
    let pegging = events
        .iter()
        .find_map(|e| match e {
            GameEvent::StarterSelected { pegging, .. } => Some(pegging),
            _ => None,
        })
        .expect("starter selected");
    assert_eq!(pegging.player(), PLAYER0);
    assert_eq!(pegging.score_sheet().points(), Points::from(2));
    assert_eq!(pegging.score_sheet(), &ScoreSheet::his_heels(card("JC")));
}

#[test]
fn finish_game_when_jack_cut_after_discards() {
    let game = host_discarded("JC").points(119, 0).discarding();

    let events = when_cut_from_top(&game, GameCommand::DiscardCards { player: PLAYER1, cards: cards("AC2C") })
        .expect("discarded");
    let game = then(game, &events);
    match game.state() {
        State::Finished(finished) => assert_eq!(finished.winner(), PLAYER0),
        other => panic!("unexpected state: {}", other.name()),
    }
}

// ---------------------------------------------------------------------------
// The play.
// ---------------------------------------------------------------------------

fn played(game: &Game, player: Player, text: &str) -> Vec<GameEvent> {
    when(game, GameCommand::PlayCard { player, card: card(text) }).expect("played")
}

fn card_played(player: Player, text: &str, sheet: ScoreSheet) -> Vec<GameEvent> {
    vec![GameEvent::CardPlayed { player, card: card(text), pegging: Pegging::new(player, sheet) }]
}

fn sheet(kind: ScoreKind, text: &str, points: usize) -> ScoreSheet {
    ScoreSheet::default().add_event(kind, &cards(text), Points::from(points))
}

#[test]
fn accept_valid_play() {
    let game = Scenario::new().next(1).cut("AC").hands("QH", "4C").playing();
    assert_eq!(played(&game, PLAYER1, "4C"), card_played(PLAYER1, "4C", ScoreSheet::default()));
}

#[test]
fn accept_valid_play_after_opponent_go_called() {
    let game = Scenario::new()
        .next(1)
        .go()
        .cut("AC")
        .hands("9S", "4SAS")
        .current(&[(1, "TC"), (0, "TD"), (0, "5C")])
        .playing();
    assert_eq!(played(&game, PLAYER1, "4S"), card_played(PLAYER1, "4S", ScoreSheet::default()));
}

#[test]
fn cannot_play_when_unheld_card() {
    let game = Scenario::new().next(1).points(0, 0).hands("9S", "4S").cut("AS").playing();
    let error = when(&game, GameCommand::PlayCard { player: PLAYER1, card: card("9S") }).expect_err("refused");
    assert_eq!(error, DomainError::InvalidPlay(card("9S")));
}

#[test]
fn cannot_play_when_not_their_turn() {
    let game = Scenario::new().next(1).points(0, 0).hands("9S", "4S").cut("AS").playing();
    let error = when(&game, GameCommand::PlayCard { player: PLAYER0, card: card("9S") }).expect_err("refused");
    assert_eq!(error, DomainError::NotPlayersTurn(PLAYER0));
}

#[test]
fn cannot_play_when_play_exceeds_target() {
    let game = Scenario::new()
        .next(1)
        .points(0, 0)
        .hands("9S", "4S")
        .cut("AS")
        .current(&[(0, "KH"), (0, "KC"), (0, "KD")])
        .playing();
    let error = when(&game, GameCommand::PlayCard { player: PLAYER1, card: card("4S") }).expect_err("refused");
    assert_eq!(error, DomainError::InvalidPlay(card("4S")));
}

#[test]
fn score_play_when_target_not_reached_mid_play() {
    let game = Scenario::new().next(1).points(0, 0).hands("5S", "5H").cut("AS").current(&[(0, "TH")]).playing();
    assert_eq!(played(&game, PLAYER1, "5H"), card_played(PLAYER1, "5H", sheet(ScoreKind::Fifteen, "TH5H", 2)));
}

#[test]
fn score_play_when_target_not_reached_end_play() {
    let game = Scenario::new()
        .next(1)
        .points(0, 0)
        .hands("QS", "2H")
        .cut("QC")
        .current(&[(0, "JH"), (0, "2C")])
        .previous(&[(0, "7C"), (1, "6S"), (1, "2S"), (1, "KS")])
        .playing();
    assert_eq!(played(&game, PLAYER1, "2H"), card_played(PLAYER1, "2H", sheet(ScoreKind::Pair, "2H2C", 2)));
}

#[test]
fn score_play_when_target_not_reached_finished() {
    let game = Scenario::new()
        .next(1)
        .points(0, 120)
        .hands("AH", "5H")
        .cut("QC")
        .current(&[(0, "JH")])
        .previous(&[(0, "9H"), (0, "7C"), (1, "6S"), (1, "2S"), (1, "KS")])
        .playing();
    assert_eq!(played(&game, PLAYER1, "5H"), card_played(PLAYER1, "5H", sheet(ScoreKind::Fifteen, "JH5H", 2)));
}

#[test]
fn score_play_when_target_reached_mid_play() {
    let game = Scenario::new()
        .next(1)
        .points(0, 0)
        .hands("9H", "AH")
        .cut("KC")
        .current(&[(0, "TH"), (0, "JH"), (0, "QH")])
        .previous(&[(1, "2S"), (1, "QS"), (1, "6S")])
        .playing();
    assert_eq!(
        played(&game, PLAYER1, "AH"),
        card_played(PLAYER1, "AH", sheet(ScoreKind::ThirtyOne, "THJHQHAH", 2))
    );
}

#[test]
fn score_play_when_target_reached_end_play() {
    let game = Scenario::new()
        .next(1)
        .points(0, 0)
        .hands("QC", "AH")
        .cut("KC")
        .current(&[(0, "TH"), (0, "JH"), (0, "QH")])
        .previous(&[(1, "2S"), (1, "QS"), (1, "6S")])
        .playing();
    assert_eq!(
        played(&game, PLAYER1, "AH"),
        card_played(PLAYER1, "AH", sheet(ScoreKind::ThirtyOne, "THJHQHAH", 2))
    );
}

#[test]
fn score_play_when_target_reached_finished() {
    let game = Scenario::new()
        .next(1)
        .points(0, 120)
        .hands("QC", "AH")
        .cut("KC")
        .current(&[(0, "TH"), (1, "JH"), (0, "QH")])
        .previous(&[(1, "9H"), (1, "5S"), (0, "6S")])
        .playing();
    assert_eq!(
        played(&game, PLAYER1, "AH"),
        card_played(PLAYER1, "AH", sheet(ScoreKind::ThirtyOne, "THJHQHAH", 2))
    );
}

#[test]
fn score_play_when_plays_finished_and_game_not_finished() {
    let game = Scenario::new()
        .next(1)
        .points(0, 60)
        .hands("", "AH")
        .cut("KC")
        .current(&[(0, "8H"), (1, "JH"), (0, "QH")])
        .previous(&[(1, "9H"), (0, "4S"), (1, "5S"), (0, "6S")])
        .playing();
    assert_eq!(played(&game, PLAYER1, "AH"), card_played(PLAYER1, "AH", sheet(ScoreKind::LastCard, "", 1)));
}

#[test]
fn score_play_when_plays_finished_and_game_finished() {
    let game = Scenario::new()
        .next(1)
        .points(0, 120)
        .hands("", "AH")
        .cut("KC")
        .current(&[(0, "8H"), (1, "JH"), (0, "QH")])
        .previous(&[(1, "9H"), (0, "4S"), (1, "5S"), (0, "6S")])
        .playing();
    assert_eq!(played(&game, PLAYER1, "AH"), card_played(PLAYER1, "AH", sheet(ScoreKind::LastCard, "", 1)));
}

#[test]
fn swap_player_after_pone_play() {
    let game = Scenario::new().next(1).points(0, 0).cut("AS").hands("7H8H8D9C", "4S5STHJH").playing();
    let events = played(&game, PLAYER1, "4S");
    let game = then(game, &events);
    assert_eq!(playing_of(&game).play_state().next_to_play(), PLAYER0);
}

#[test]
fn swap_player_after_dealer_play() {
    let game =
        Scenario::new().next(0).points(0, 0).cut("AS").hands("7H8H8D9C", "5STHJH").current(&[(1, "4S")]).playing();
    let events = played(&game, PLAYER0, "9C");
    let game = then(game, &events);
    assert_eq!(playing_of(&game).play_state().next_to_play(), PLAYER1);
}

#[test]
fn reset_play_after_exact_target_reached() {
    let game = Scenario::new()
        .next(0)
        .points(0, 0)
        .cut("AS")
        .hands("7H8H8D", "5STH")
        .current(&[(1, "JH"), (0, "9C"), (1, "4S")])
        .playing();
    let events = played(&game, PLAYER0, "8H");
    let game = then(game, &events);
    let playing = playing_of(&game);
    assert_eq!(playing.dealer(), Dealer::from(PLAYER0));
    assert_eq!(playing.pone(), Pone::from(PLAYER1));
    assert_eq!(playing.play_state().next_to_play(), PLAYER1);
    assert_eq!(playing.play_state().previous_plays(), &plays(&[(1, "JH"), (0, "9C"), (1, "4S"), (0, "8H")]));
    assert!(playing.play_state().current_plays().is_empty());
}

#[test]
fn score_play_points_for_fifteens() {
    let game = Scenario::new().next(1).points(0, 0).cut("AS").hands("KH", "8D").current(&[(0, "7D")]).playing();
    assert_eq!(played(&game, PLAYER1, "8D"), card_played(PLAYER1, "8D", sheet(ScoreKind::Fifteen, "7D8D", 2)));
}

#[test]
fn score_play_points_for_pair() {
    let game = Scenario::new().next(1).points(0, 0).cut("AS").hands("KH", "8D").current(&[(0, "8S")]).playing();
    assert_eq!(played(&game, PLAYER1, "8D"), card_played(PLAYER1, "8D", sheet(ScoreKind::Pair, "8D8S", 2)));
}

#[test]
fn score_play_points_for_triplet() {
    let game = Scenario::new()
        .next(1)
        .points(0, 0)
        .cut("AS")
        .hands("KH", "8DAH")
        .current(&[(1, "8C"), (0, "8S")])
        .playing();
    assert_eq!(played(&game, PLAYER1, "8D"), card_played(PLAYER1, "8D", sheet(ScoreKind::Triplet, "8D8S8C", 6)));
}

#[test]
fn score_play_points_for_quartet() {
    let game = Scenario::new()
        .next(1)
        .points(0, 0)
        .cut("AS")
        .hands("KH", "7DAH")
        .current(&[(1, "7C"), (0, "7S"), (0, "7H")])
        .playing();
    assert_eq!(
        played(&game, PLAYER1, "7D"),
        card_played(PLAYER1, "7D", sheet(ScoreKind::Quadruplet, "7D7H7S7C", 12))
    );
}

#[test]
fn score_play_points_for_run() {
    let game = Scenario::new()
        .next(1)
        .points(0, 0)
        .cut("AC")
        .hands("KH", "AS")
        .current(&[(1, "2D"), (0, "3H")])
        .playing();
    assert_eq!(played(&game, PLAYER1, "AS"), card_played(PLAYER1, "AS", sheet(ScoreKind::Run, "AS2D3H", 3)));
}

#[test]
fn score_play_points_for_run_edge_case_1() {
    let game = Scenario::new()
        .next(0)
        .points(0, 0)
        .cut("AS")
        .hands("7H6H", "AH")
        .current(&[(1, "8S"), (0, "7H"), (1, "7S")])
        .playing();
    assert_eq!(played(&game, PLAYER0, "6H"), card_played(PLAYER0, "6H", ScoreSheet::default()));
}

#[test]
fn score_play_points_for_run_edge_case_2() {
    let game = Scenario::new()
        .next(0)
        .points(0, 0)
        .cut("AS")
        .hands("5H7H", "AH")
        .current(&[(1, "9S"), (0, "6H"), (1, "8S")])
        .playing();
    assert_eq!(played(&game, PLAYER0, "7H"), card_played(PLAYER0, "7H", sheet(ScoreKind::Run, "6H7H8S9S", 4)));
}

// ---------------------------------------------------------------------------
// The go.
// ---------------------------------------------------------------------------

fn go_called(player: Player, recipient: Player, sheet: ScoreSheet) -> Vec<GameEvent> {
    vec![GameEvent::GoCalled { player, pegging: Pegging::new(recipient, sheet) }]
}

#[test]
fn accept_go_when_pone_has_no_valid_card() {
    let game = Scenario::new()
        .next(1)
        .points(0, 0)
        .cut("AS")
        .hands("AH", "KH")
        .current(&[(0, "TH"), (0, "JH"), (0, "QH")])
        .playing();
    let events = when(&game, GameCommand::Go { player: PLAYER1 }).expect("go");
    assert_eq!(events, go_called(PLAYER1, PLAYER0, ScoreSheet::default()));
}

#[test]
fn accept_go_when_dealer_has_no_valid_card() {
    let game = Scenario::new()
        .next(0)
        .go()
        .points(0, 0)
        .cut("AS")
        .hands("KH", "KS")
        .current(&[(0, "TH"), (1, "QH"), (0, "JH")])
        .playing();
    let events = when(&game, GameCommand::Go { player: PLAYER0 }).expect("go");
    assert_eq!(events, go_called(PLAYER0, PLAYER0, sheet(ScoreKind::LastCard, "", 1)));
}

#[test]
fn cannot_call_go_when_valid_card_held() {
    let game = Scenario::new()
        .next(1)
        .points(0, 0)
        .cut("AC")
        .hands("AH", "AS")
        .current(&[(0, "TH"), (0, "JH"), (0, "8H")])
        .playing();
    let error = when(&game, GameCommand::Go { player: PLAYER1 }).expect_err("refused");
    assert_eq!(error, DomainError::InvalidGo);
}

#[test]
fn cannot_call_go_when_not_turn() {
    let game = Scenario::new()
        .next(1)
        .points(0, 0)
        .cut("AC")
        .hands("AH", "AS")
        .current(&[(0, "TH"), (0, "JH"), (0, "8H")])
        .playing();
    let error = when(&game, GameCommand::Go { player: PLAYER0 }).expect_err("refused");
    assert_eq!(error, DomainError::NotPlayersTurn(PLAYER0));
}

#[test]
fn score_go_when_both_players_called_go_playing() {
    let game = Scenario::new()
        .next(0)
        .go()
        .points(0, 0)
        .cut("AS")
        .hands("KH", "KS")
        .current(&[(0, "TH"), (1, "QH"), (0, "JH")])
        .playing();
    let events = when(&game, GameCommand::Go { player: PLAYER0 }).expect("go");
    assert_eq!(events, go_called(PLAYER0, PLAYER0, sheet(ScoreKind::LastCard, "", 1)));
}

#[test]
fn score_go_when_both_players_called_go_finished() {
    let game = Scenario::new()
        .next(0)
        .go()
        .points(120, 0)
        .cut("AS")
        .hands("KH", "KS")
        .current(&[(0, "TH"), (1, "QH"), (0, "JH")])
        .playing();
    let events = when(&game, GameCommand::Go { player: PLAYER0 }).expect("go");
    assert_eq!(events, go_called(PLAYER0, PLAYER0, sheet(ScoreKind::LastCard, "", 1)));
    let game = then(game, &events);
    match game.state() {
        State::Finished(finished) => assert_eq!(finished.winner(), PLAYER0),
        other => panic!("unexpected state: {}", other.name()),
    }
}

#[test]
fn swap_player_after_pone_called_go() {
    let game = Scenario::new()
        .next(1)
        .points(0, 0)
        .cut("AS")
        .hands("8H8D", "5SJH")
        .current(&[(1, "4S"), (0, "9C"), (1, "TH"), (0, "7H")])
        .playing();
    let events = when(&game, GameCommand::Go { player: PLAYER1 }).expect("go");
    let game = then(game, &events);
    assert_eq!(playing_of(&game).play_state().next_to_play(), PLAYER0);
}

#[test]
fn swap_player_after_dealer_called_go() {
    let game = Scenario::new()
        .next(0)
        .points(0, 0)
        .cut("AS")
        .hands("7H8H8D", "4S5S")
        .current(&[(1, "JH"), (0, "9C"), (1, "TH")])
        .playing();
    let events = when(&game, GameCommand::Go { player: PLAYER0 }).expect("go");
    let game = then(game, &events);
    assert_eq!(playing_of(&game).play_state().next_to_play(), PLAYER1);
}

#[test]
fn reset_play_after_pone_then_dealer_called_go() {
    let game = Scenario::new()
        .next(0)
        .go()
        .points(0, 0)
        .cut("AS")
        .hands("8H8D", "5SJH")
        .current(&[(1, "4S"), (0, "9C"), (1, "TH"), (0, "7H")])
        .playing();
    let events = when(&game, GameCommand::Go { player: PLAYER0 }).expect("go");
    let game = then(game, &events);
    let playing = playing_of(&game);
    assert_eq!(playing.dealer(), Dealer::from(PLAYER0));
    assert_eq!(playing.pone(), Pone::from(PLAYER1));
    assert_eq!(playing.play_state().next_to_play(), PLAYER1);
    assert_eq!(playing.play_state().previous_plays(), &plays(&[(1, "4S"), (0, "9C"), (1, "TH"), (0, "7H")]));
    assert!(playing.play_state().current_plays().is_empty());
}

#[test]
fn reset_play_after_after_dealer_then_pone_called_go() {
    let game = Scenario::new()
        .next(1)
        .go()
        .points(0, 0)
        .cut("AS")
        .hands("7H8H8D", "4S5S")
        .current(&[(1, "JH"), (0, "9C"), (1, "TH")])
        .playing();
    let events = when(&game, GameCommand::Go { player: PLAYER1 }).expect("go");
    let game = then(game, &events);
    let playing = playing_of(&game);
    assert_eq!(playing.dealer(), Dealer::from(PLAYER0));
    assert_eq!(playing.pone(), Pone::from(PLAYER1));
    assert_eq!(playing.play_state().next_to_play(), PLAYER0);
    assert_eq!(playing.play_state().previous_plays(), &plays(&[(1, "JH"), (0, "9C"), (1, "TH")]));
    assert!(playing.play_state().current_plays().is_empty());
}

// ---------------------------------------------------------------------------
// Pegging.
// ---------------------------------------------------------------------------

fn play_points(scenario: Scenario) -> Points {
    let game = scenario.playing();
    ScoreSheet::play_card(playing_of(&game).play_state()).points()
}

#[test]
fn should_score_fifteens() {
    let scenario = Scenario::new().next(1).points(0, 0).hands("AC", "").current(&[(0, "JD"), (0, "5H")]).cut("AH");
    assert_eq!(play_points(scenario), Points::from(2));
}

#[test]
fn should_score_pairs() {
    let scenario =
        Scenario::new().next(1).points(0, 0).hands("AC", "").current(&[(0, "JD"), (0, "AH"), (0, "AS")]).cut("KH");
    assert_eq!(play_points(scenario), Points::from(2));
}

#[test]
fn should_score_royal_pairs() {
    let scenario =
        Scenario::new().next(1).points(0, 0).hands("AC", "").current(&[(0, "AD"), (0, "AH"), (0, "AS")]).cut("KH");
    assert_eq!(play_points(scenario), Points::from(6));
}

#[test]
fn should_score_double_royal_pairs() {
    let scenario = Scenario::new()
        .next(1)
        .points(0, 0)
        .hands("2H", "")
        .current(&[(0, "AC"), (0, "AD"), (0, "AH"), (0, "AS")])
        .cut("KH");
    assert_eq!(play_points(scenario), Points::from(12));
}

#[test]
fn should_score_runs() {
    let current_plays = [(0, "2C"), (0, "3C"), (0, "4C"), (0, "5C"), (0, "6C"), (0, "7C")];
    for len in 1..=current_plays.len() {
        let scenario =
            Scenario::new().next(1).points(0, 0).hands("AS", "AD").current(&current_plays[..len]).cut("KH");
        assert_eq!(play_points(scenario), Points::from(if len < 3 { 0 } else { len }));
    }
}

#[test]
fn should_score_runs_unordered() {
    let scenario =
        Scenario::new().next(1).points(0, 0).hands("KS", "KD").current(&[(0, "3S"), (0, "2C"), (0, "AS")]).cut("KH");
    assert_eq!(play_points(scenario), Points::from(3));
}

#[test]
fn game_should_score_rules_example_flush() {
    let scenario = Scenario::new()
        .next(0)
        .points(0, 0)
        .hands("", "2H")
        .cut("3H")
        .current(&[(1, "TH"), (0, "8H"), (1, "QH"), (0, "AH")]);
    assert_eq!(play_points(scenario), Points::from(0));
}

#[test]
fn should_score_when_target_not_reached() {
    let game = Scenario::new()
        .next(1)
        .go()
        .points(0, 0)
        .hands("", "")
        .current(&[(0, "AC"), (0, "2D"), (0, "5H"), (0, "4S")])
        .cut("KH")
        .playing();
    assert_eq!(ScoreSheet::go(playing_of(&game).play_state()).points(), Points::from(1));
}

#[test]
fn should_score_when_target_reached() {
    let scenario = Scenario::new()
        .next(1)
        .points(0, 0)
        .hands("", "")
        .current(&[(0, "KC"), (0, "KD"), (0, "KH"), (0, "AS")])
        .cut("KS");
    assert_eq!(play_points(scenario), Points::from(2));
}

// ---------------------------------------------------------------------------
// Counting the hands.
// ---------------------------------------------------------------------------

fn pone_to_count() -> Scenario {
    Scenario::new()
        .next(1)
        .hands("", "TH")
        .cut("4H")
        .previous(&[(0, "7H"), (0, "8C"), (0, "AC"), (0, "2C"), (1, "QH"), (1, "KS"), (1, "5H"), (1, "TH")])
        .ack(0)
}

fn counted() -> Scenario {
    Scenario::new().cut("4H").hands("7H8CAC2C", "JCKS5HTH").crib("AHADASTD").ack(0)
}

fn only_pegging(events: &[GameEvent]) -> (Player, &Pegging) {
    assert_eq!(events.len(), 1);
    match &events[0] {
        GameEvent::PoneScored { player, pegging }
        | GameEvent::DealerScored { player, pegging }
        | GameEvent::CribScored { player, pegging } => (*player, pegging),
        other => panic!("unexpected event: {:?}", other),
    }
}

#[test]
fn score_pone_hand_when_plays_finished() {
    let game = pone_to_count().points(0, 0).playing();
    let events = when(&game, GameCommand::ScorePone { player: PLAYER1 }).expect("scored");
    assert!(matches!(events[0], GameEvent::PoneScored { .. }));
    let (player, pegging) = only_pegging(&events);
    assert_eq!(player, PLAYER1);
    assert_eq!(pegging.player(), PLAYER1);
    assert_eq!(pegging.score_sheet().points(), Points::from(6));
}

#[test]
fn score_winning_pone_hand_when_plays_finished() {
    let game = pone_to_count().points(0, 115).playing();
    let events = when(&game, GameCommand::ScorePone { player: PLAYER1 }).expect("scored");
    let (player, pegging) = only_pegging(&events);
    assert_eq!(player, PLAYER1);
    assert_eq!(pegging.player(), PLAYER1);
    assert_eq!(pegging.score_sheet().points(), Points::from(6));
    let game = then(game, &events);
    match game.state() {
        State::Finished(finished) => assert_eq!(finished.winner(), PLAYER1),
        other => panic!("unexpected state: {}", other.name()),
    }
}

#[test]
fn score_dealer_hand_when_pone_score_acknowledged() {
    let game = counted().points(0, 0).scoring_pone();
    let events = when(&game, GameCommand::ScoreDealer { player: PLAYER1 }).expect("scored");
    assert!(matches!(events[0], GameEvent::DealerScored { .. }));
    let (player, pegging) = only_pegging(&events);
    assert_eq!(player, PLAYER1);
    assert_eq!(pegging.player(), PLAYER0);
    assert_eq!(pegging.score_sheet().points(), Points::from(4));
}

#[test]
fn score_winning_dealer_hand_when_pone_score_acknowledged() {
    let game = counted().points(117, 0).scoring_pone();
    let events = when(&game, GameCommand::ScoreDealer { player: PLAYER1 }).expect("scored");
    let (player, pegging) = only_pegging(&events);
    assert_eq!(player, PLAYER1);
    assert_eq!(pegging.player(), PLAYER0);
    assert_eq!(pegging.score_sheet().points(), Points::from(4));
    let game = then(game, &events);
    match game.state() {
        State::Finished(finished) => assert_eq!(finished.winner(), PLAYER0),
        other => panic!("unexpected state: {}", other.name()),
    }
}

#[test]
fn score_crib_when_dealer_score_acknowledged() {
    let game = counted().points(0, 0).scoring_dealer();
    let events = when(&game, GameCommand::ScoreCrib { player: PLAYER1 }).expect("scored");
    assert!(matches!(events[0], GameEvent::CribScored { .. }));
    let (player, pegging) = only_pegging(&events);
    assert_eq!(player, PLAYER1);
    assert_eq!(pegging.player(), PLAYER0);
    assert_eq!(pegging.score_sheet().points(), Points::from(12));
}

#[test]
fn score_winning_crib_when_dealer_score_acknowledged() {
    let game = counted().points(109, 0).scoring_dealer();
    let events = when(&game, GameCommand::ScoreCrib { player: PLAYER1 }).expect("scored");
    let (player, pegging) = only_pegging(&events);
    assert_eq!(player, PLAYER1);
    assert_eq!(pegging.player(), PLAYER0);
    assert_eq!(pegging.score_sheet().points(), Points::from(12));
    let game = then(game, &events);
    match game.state() {
        State::Finished(finished) => assert_eq!(finished.winner(), PLAYER0),
        other => panic!("unexpected state: {}", other.name()),
    }
}

#[test]
fn redeal_when_crib_score_acknowledged() {
    let game = counted().points(0, 0).scoring_crib();
    let events = when(&game, GameCommand::StartNextRound { player: PLAYER1 }).expect("started");
    let game = then(game, &events);
    match game.state() {
        State::Discarding(discarding) => {
            assert_eq!(discarding.dealer(), Dealer::from(PLAYER1));
            assert_eq!(discarding.pone(), Pone::from(PLAYER0));
            assert_eq!(discarding.hand(PLAYER0).len(), CARDS_DEALT_PER_HAND);
            assert_eq!(discarding.hand(PLAYER1).len(), CARDS_DEALT_PER_HAND);
        },
        other => panic!("unexpected state: {}", other.name()),
    }
}
