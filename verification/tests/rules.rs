use cribbage_server::domain::available_game::{Availability, AvailableGame};
use cribbage_server::domain::cards::Card;
use cribbage_server::domain::deck::{Deck, STANDARD_DECK_SIZE};
use cribbage_server::domain::game::{Chance, DomainError, Game, GameCommand, GameEvent};
use cribbage_server::domain::pile::Hand;
use cribbage_server::domain::play_computer::PlayComputer;
use cribbage_server::domain::players::{Dealer, Pending, Player, Roles, PLAYER0, PLAYER1};
use cribbage_server::domain::scoreboard::{Scoreboard, WINNING_SCORE};
use cribbage_server::domain::scoring::{Pegging, Points, ScoreKind, ScoreSheet};
use cribbage_server::domain::state::State;
use cribbage_server::ids::{GameId, UserId};

fn card(text: &str) -> Card {
    Card::from_str(text).expect("card text")
}

fn hand(text: &str) -> Hand {
    Hand::from_str(text).expect("cards text")
}

fn chance_with_standard_pack() -> Chance {
    Chance { name: String::from("Fixed Name"), guest: UserId(7), cut_seed: 0, deck: Deck::standard_pack() }
}

fn apply(game: &mut Game, events: &[GameEvent]) {
    game.apply_events(events);
}

fn handled(game: &mut Game, command: GameCommand) -> Vec<GameEvent> {
    let events = game.handle_command(command).expect("accepted");
    apply(game, &events);
    events
}

#[test]
fn replaying_a_history_in_two_parts_gives_the_same_game() {
    let events = vec![
        GameEvent::ComputerGameCreated { game_id: GameId(3), host: UserId(1), guest: UserId(2), name: String::from("g") },
        GameEvent::CutForDealMade { player: PLAYER0, cut: card("AS") },
        GameEvent::CutForDealMade { player: PLAYER1, cut: card("QH") },
        GameEvent::GameStarted { player: PLAYER0 },
        GameEvent::GameStarted { player: PLAYER1 },
        GameEvent::CutForDealDecided { dealer: Dealer(PLAYER0) },
        GameEvent::HandDealt { player: PLAYER0, hand: hand("AH2H3H4H5H6H") },
        GameEvent::HandDealt { player: PLAYER1, hand: hand("AC2C3C4C5C6C") },
    ];
    let mut whole = Game::default();
    whole.apply_events(&events);
    for split in 0..=events.len() {
        let mut parts = Game::default();
        parts.apply_events(&events[..split]);
        parts.apply_events(&events[split..]);
        assert_eq!(parts, whole);
    }
}

#[test]
fn a_game_not_created_permits_only_its_creation() {
    let game = Game::default();
    let refused = [
        (GameCommand::JoinGame { user_id: UserId(1) }, "join game"),
        (GameCommand::CutForDeal { player: PLAYER0 }, "cut for deal"),
        (GameCommand::StartGame { player: PLAYER0 }, "start game"),
        (GameCommand::DiscardCards { player: PLAYER0, cards: vec![] }, "discard cards"),
        (GameCommand::PlayCard { player: PLAYER0, card: card("AS") }, "play card"),
        (GameCommand::Go { player: PLAYER0 }, "go"),
        (GameCommand::ScorePone { player: PLAYER0 }, "score pone"),
        (GameCommand::ScoreDealer { player: PLAYER0 }, "score dealer"),
        (GameCommand::ScoreCrib { player: PLAYER0 }, "score crib"),
        (GameCommand::StartNextRound { player: PLAYER0 }, "start next round"),
    ];
    for (command, what) in refused {
        assert_eq!(game.handle_command(command), Err(DomainError::NotPermitted(String::from(what))));
    }
}

#[test]
fn a_created_game_cannot_be_created_again() {
    let mut game = Game::default();
    handled(&mut game, GameCommand::HostGame { user_id: UserId(1), game_id: GameId(9) });
    assert_eq!(
        game.handle_command(GameCommand::HostGame { user_id: UserId(2), game_id: GameId(10) }),
        Err(DomainError::NotPermitted(String::from("host game")))
    );
    assert_eq!(
        game.handle_command(GameCommand::PlayComputer { user_id: UserId(2), game_id: GameId(10) }),
        Err(DomainError::NotPermitted(String::from("play computer")))
    );
}

#[test]
fn hosting_then_joining_seats_both_players() {
    let chance = chance_with_standard_pack();
    let mut game = Game::default();
    let host = UserId(11);
    let guest = UserId(12);
    let events = game.decide(GameCommand::HostGame { user_id: host, game_id: GameId(5) }, &chance).expect("hosted");
    assert_eq!(events, vec![GameEvent::LobbyGameCreated { game_id: GameId(5), host, name: String::from("Fixed Name") }]);
    apply(&mut game, &events);
    assert_eq!(game.name(), "Fixed Name");
    assert_eq!(*game.id(), GameId(5));
    assert_eq!(game.validate_user(host), Some(PLAYER0));
    assert_eq!(game.validate_user(guest), None);

    let events = game.decide(GameCommand::JoinGame { user_id: guest }, &chance).expect("joined");
    apply(&mut game, &events);
    assert_eq!(game.validate_user(host), Some(PLAYER0));
    assert_eq!(game.validate_user(guest), Some(PLAYER1));
    assert_eq!(game.validate_user(UserId(13)), None);
    assert_eq!(game.guest(), Some(guest));
    assert!(matches!(game.state(), State::Starting(_)));
}

#[test]
fn the_dealer_deals_from_the_top_of_the_pack() {
    let chance = chance_with_standard_pack();
    let mut game = Game::default();
    apply(&mut game, &[
        GameEvent::ComputerGameCreated { game_id: GameId(3), host: UserId(1), guest: UserId(2), name: String::from("g") },
        GameEvent::CutForDealMade { player: PLAYER0, cut: card("KS") },
        GameEvent::CutForDealMade { player: PLAYER1, cut: card("2D") },
        GameEvent::GameStarted { player: PLAYER1 },
    ]);
    let events = game.decide(GameCommand::StartGame { player: PLAYER0 }, &chance).expect("started");
    assert_eq!(events, vec![
        GameEvent::GameStarted { player: PLAYER0 },
        GameEvent::CutForDealDecided { dealer: Dealer(PLAYER1) },
        GameEvent::HandDealt { player: PLAYER0, hand: hand("AH2H3H4H5H6H") },
        GameEvent::HandDealt { player: PLAYER1, hand: hand("7H8H9HTHJHQH") },
    ]);
    apply(&mut game, &events);
    match game.state() {
        State::Discarding(discarding) => {
            assert_eq!(discarding.dealer(), Dealer(PLAYER1));
            assert_eq!(discarding.deck().len(), STANDARD_DECK_SIZE - 12);
            assert!(discarding.deck().contains_none(hand("AH2H3H4H5H6H7H8H9HTHJHQH").as_slice()));
            assert_eq!(discarding.scoreboard().position(PLAYER0).front(), Points::from(0));
        },
        other => panic!("unexpected state: {}", other.name()),
    }
}

#[test]
fn a_tied_cut_starts_the_cut_again() {
    let mut game = Game::default();
    apply(&mut game, &[
        GameEvent::ComputerGameCreated { game_id: GameId(3), host: UserId(1), guest: UserId(2), name: String::from("g") },
        GameEvent::CutForDealMade { player: PLAYER0, cut: card("KS") },
        GameEvent::CutForDealMade { player: PLAYER1, cut: card("KD") },
        GameEvent::GameStarted { player: PLAYER1 },
    ]);
    handled(&mut game, GameCommand::StartGame { player: PLAYER0 });
    match game.state() {
        State::Starting(starting) => {
            assert_eq!(starting.cut(PLAYER0), None);
            assert_eq!(starting.cut(PLAYER1), None);
            assert_eq!(starting.deck().len(), STANDARD_DECK_SIZE);
            assert!(starting.pending().waiting_on(PLAYER0));
            assert!(starting.pending().waiting_on(PLAYER1));
        },
        other => panic!("unexpected state: {}", other.name()),
    }
}

#[test]
fn a_player_acknowledging_alone_waits_for_the_other() {
    let mut game = Game::default();
    apply(&mut game, &[
        GameEvent::ComputerGameCreated { game_id: GameId(3), host: UserId(1), guest: UserId(2), name: String::from("g") },
        GameEvent::CutForDealMade { player: PLAYER0, cut: card("KS") },
        GameEvent::CutForDealMade { player: PLAYER1, cut: card("2D") },
    ]);
    let events = game.handle_command(GameCommand::StartGame { player: PLAYER0 }).expect("started");
    assert_eq!(events, vec![GameEvent::GameStarted { player: PLAYER0 }]);
}

#[test]
fn cutting_again_after_acknowledging_is_not_permitted() {
    let mut game = Game::default();
    apply(&mut game, &[
        GameEvent::ComputerGameCreated { game_id: GameId(3), host: UserId(1), guest: UserId(2), name: String::from("g") },
        GameEvent::GameStarted { player: PLAYER0 },
    ]);
    assert_eq!(
        game.handle_command(GameCommand::CutForDeal { player: PLAYER0 }),
        Err(DomainError::NotPermitted(String::from("cut for deal")))
    );
}

/// Plays a whole game by commands, each player always laying the first card
/// they may lay, and returns the finished game.
fn play_out(game: Game) -> Game {
    play_out_watched(game, &mut |_| {})
}

/// Plays a whole game as `play_out` does, showing `watch` the game after
/// each command.
fn play_out_watched(mut game: Game, watch: &mut dyn FnMut(&Game)) -> Game {
    for _ in 0..10_000 {
        let commands: Vec<GameCommand> = match game.state() {
            State::Starting(starting) => {
                if starting.cut(PLAYER0).is_none() || starting.cut(PLAYER1).is_none() {
                    let mut v = vec![];
                    if starting.pending().waiting_on(PLAYER0) && starting.cut(PLAYER0).is_none() {
                        v.push(GameCommand::CutForDeal { player: PLAYER0 });
                    }
                    if starting.pending().waiting_on(PLAYER1) && starting.cut(PLAYER1).is_none() {
                        v.push(GameCommand::CutForDeal { player: PLAYER1 });
                    }
                    v
                } else {
                    vec![GameCommand::StartGame { player: PLAYER0 }, GameCommand::StartGame { player: PLAYER1 }]
                }
            },
            State::Discarding(discarding) => [PLAYER0, PLAYER1]
                .into_iter()
                .filter(|p| discarding.pending().waiting_on(*p))
                .map(|p| GameCommand::DiscardCards { player: p, cards: discarding.hand(p).as_slice()[..2].to_vec() })
                .collect(),
            State::Playing(playing) => {
                let play_state = playing.play_state();
                if play_state.is_finished() {
                    vec![GameCommand::ScorePone { player: PLAYER0 }, GameCommand::ScorePone { player: PLAYER1 }]
                } else {
                    let next = play_state.next_to_play();
                    match play_state.legal_plays(next).first() {
                        Some(c) => vec![GameCommand::PlayCard { player: next, card: *c }],
                        None => vec![GameCommand::Go { player: next }],
                    }
                }
            },
            State::ScoringPone(_) => vec![GameCommand::ScoreDealer { player: PLAYER1 }, GameCommand::ScoreDealer { player: PLAYER0 }],
            State::ScoringDealer(_) => vec![GameCommand::ScoreCrib { player: PLAYER0 }, GameCommand::ScoreCrib { player: PLAYER1 }],
            State::ScoringCrib(_) => {
                vec![GameCommand::StartNextRound { player: PLAYER1 }, GameCommand::StartNextRound { player: PLAYER0 }]
            },
            State::Finished(_) => return game,
        };
        for command in commands {
            if matches!(game.state(), State::Finished(_)) {
                break;
            }
            handled(&mut game, command);
            watch(&game);
        }
    }
    panic!("the game did not finish");
}

#[test]
fn a_game_played_by_its_commands_reaches_a_winner() {
    let mut game = Game::default();
    handled(&mut game, GameCommand::PlayComputer { user_id: UserId::new(), game_id: GameId::new() });
    let game = play_out(game);
    match game.state() {
        State::Finished(finished) => {
            let winner = finished.winner();
            assert!(finished.scoreboard().position(winner).front() >= Points::from(WINNING_SCORE));
            assert!(finished.scoreboard().position(winner.opponent()).front() < Points::from(WINNING_SCORE));
        },
        other => panic!("unexpected state: {}", other.name()),
    }
}

/// The board of the round, in every state from the deal on.
fn board_of(state: &State) -> Option<&Scoreboard> {
    match state {
        State::Starting(_) => None,
        State::Discarding(s) => Some(s.scoreboard()),
        State::Playing(s) => Some(s.scoreboard()),
        State::ScoringPone(s) => Some(s.scoreboard()),
        State::ScoringDealer(s) => Some(s.scoreboard()),
        State::ScoringCrib(s) => Some(s.scoreboard()),
        State::Finished(s) => Some(s.scoreboard()),
    }
}

#[test]
fn scores_never_go_back_over_a_whole_game() {
    let mut game = Game::default();
    handled(&mut game, GameCommand::PlayComputer { user_id: UserId::new(), game_id: GameId::new() });
    let mut boards_seen = 0;
    let mut last: Option<[(Points, Points); 2]> = None;
    let game = play_out_watched(game, &mut |after| {
        let now = board_of(after.state()).map(|a| {
            [PLAYER0, PLAYER1].map(|p| (a.position(p).back(), a.position(p).front()))
        });
        if let (Some(b), Some(a)) = (last, now) {
            boards_seen += 1;
            for i in 0..2 {
                assert!(a[i].1 >= b[i].1);
                assert!(a[i].0 <= a[i].1);
            }
        }
        last = now;
    });
    assert!(boards_seen > 0);
    assert!(matches!(game.state(), State::Finished(_)));
}

#[test]
fn rounds_stay_sound_over_a_whole_game() {
    let mut game = Game::default();
    handled(&mut game, GameCommand::PlayComputer { user_id: UserId::new(), game_id: GameId::new() });
    let mut plays_seen = 0;
    let game = play_out_watched(game, &mut |after| match after.state() {
        State::Discarding(d) => {
            let discarded = [PLAYER0, PLAYER1].iter().filter(|p| !d.pending().waiting_on(**p)).count();
            assert_eq!(d.crib().len(), 2 * discarded);
            for p in [PLAYER0, PLAYER1] {
                if !d.pending().waiting_on(p) {
                    assert!(d.hand(p).len() <= 4);
                }
            }
        },
        State::Playing(p) => {
            plays_seen += 1;
            let ps = p.play_state();
            assert!(ps.running_total() <= 31);
            assert!(p.crib().len() <= 4);
            let mut laid = [0usize; 2];
            for play in ps.previous_plays().iter().chain(ps.current_plays().iter()) {
                laid[play.player().index()] += 1;
            }
            for player in [PLAYER0, PLAYER1] {
                assert!(laid[player.index()] + ps.pending_plays(player).len() <= 4);
            }
        },
        State::ScoringPone(s) => assert!(s.hands().iter().all(|h| h.len() <= 4) && s.crib().len() <= 4),
        State::ScoringDealer(s) => assert!(s.hands().iter().all(|h| h.len() <= 4) && s.crib().len() <= 4),
        State::ScoringCrib(s) => assert_eq!(s.scoreboard().winner(), None),
        _ => {},
    });
    assert!(plays_seen > 0);
    assert!(matches!(game.state(), State::Finished(_)));
}

#[test]
fn a_discard_of_one_card_twice_is_accepted_and_keeps_five() {
    let mut game = Game::default();
    handled(&mut game, GameCommand::PlayComputer { user_id: UserId::new(), game_id: GameId::new() });
    for _ in 0..100 {
        if matches!(game.state(), State::Discarding(_)) {
            break;
        }
        for command in [
            GameCommand::CutForDeal { player: PLAYER0 },
            GameCommand::CutForDeal { player: PLAYER1 },
            GameCommand::StartGame { player: PLAYER0 },
            GameCommand::StartGame { player: PLAYER1 },
        ] {
            let _ = game.handle_command(command).map(|events| game.apply_events(&events));
        }
    }
    let first = match game.state() {
        State::Discarding(d) => d.hand(PLAYER0).as_slice()[0],
        other => panic!("unexpected state: {}", other.name()),
    };
    handled(&mut game, GameCommand::DiscardCards { player: PLAYER0, cards: vec![first, first] });
    match game.state() {
        State::Discarding(d) => {
            assert_eq!(d.hand(PLAYER0).len(), 5);
            assert_eq!(d.crib().len(), 2);
        },
        other => panic!("unexpected state: {}", other.name()),
    }
}

#[test]
fn pegging_never_takes_points_away() {
    let mut board = Scoreboard::zero();
    let sheet = ScoreSheet::default().add_event(ScoreKind::Fifteen, &[card("7H"), card("8H")], Points::from(2));
    board.peg(&Pegging::new(PLAYER1, sheet.duplicate()));
    board.peg(&Pegging::new(PLAYER1, ScoreSheet::default()));
    assert_eq!(board.position(PLAYER1).front(), Points::from(2));
    assert_eq!(board.position(PLAYER1).back(), Points::from(0));
    assert_eq!(board.position(PLAYER0).front(), Points::from(0));
    board.peg(&Pegging::new(PLAYER1, sheet));
    assert_eq!(board.position(PLAYER1).front(), Points::from(4));
    assert_eq!(board.position(PLAYER1).back(), Points::from(2));
    assert_eq!(board.history().len(), 2);
    assert_eq!(board.winner(), None);
}

#[test]
fn acknowledgements_in_either_order_release_the_game() {
    for first in [PLAYER0, PLAYER1] {
        let mut pending = Pending::new();
        assert!(!pending.acknowledge(first));
        assert!(!pending.acknowledge(first));
        assert!(pending.acknowledge(first.opponent()));
        assert!(!pending.waiting_on(PLAYER0));
        assert!(!pending.waiting_on(PLAYER1));
    }
}

#[test]
fn swapping_roles_twice_gives_them_back() {
    let mut roles = Roles::new(Dealer(PLAYER0));
    roles.swap();
    assert_eq!(roles.dealer(), Dealer(PLAYER1));
    assert_eq!(roles.pone().player(), PLAYER0);
    roles.swap();
    assert_eq!(roles, Roles::new(Dealer(PLAYER0)));
}

#[test]
fn the_standard_pack_holds_each_card_once() {
    let pack = Deck::standard_pack();
    assert_eq!(pack.len(), STANDARD_DECK_SIZE);
    let cards = pack.as_slice();
    for i in 0..cards.len() {
        for j in 0..i {
            assert_ne!(cards[i], cards[j]);
        }
    }
    let shuffled = Deck::shuffled_pack();
    assert_eq!(shuffled.len(), STANDARD_DECK_SIZE);
    assert!(shuffled.contains_all(pack.as_slice()));
}

#[test]
fn the_computer_command_refuses_an_existing_game() {
    let mut game = Game::default();
    let command = PlayComputer::new(UserId(4));
    let (event, reply) = command.decide(GameId(8), &game, String::from("Vs Computer")).expect("created");
    assert_eq!(event, GameEvent::ComputerGameCreated {
        game_id: GameId(8),
        host: UserId(4),
        guest: UserId::nil(),
        name: String::from("Vs Computer"),
    });
    assert_eq!(reply, (GameId(8), PLAYER0));
    apply(&mut game, &[event]);
    let again = PlayComputer::new(UserId(4)).handle_command(&GameId(8), &game);
    assert_eq!(again, Err(DomainError::InvalidGame(GameId(8))));
}

#[test]
fn errors_read_as_messages() {
    assert_eq!(DomainError::NotPermitted(String::from("join game")).message(), "join game is not permitted");
    assert_eq!(DomainError::InvalidOpponent.message(), "invalid opponent");
    assert_eq!(DomainError::InvalidDiscards(String::from("AH, 2H")).message(), "invalid discards: AH, 2H");
    assert_eq!(DomainError::NotPlayersTurn(PLAYER1).message(), "not the player's turn: Player(1)");
    assert_eq!(DomainError::InvalidPlay(card("9S")).message(), "invalid play: 9S");
    assert_eq!(DomainError::InvalidGo.message(), "invalid go: some cards are playable");
}

#[test]
fn fresh_identities_are_never_nil() {
    for _ in 0..100 {
        assert_ne!(GameId::new(), GameId::nil());
        assert_ne!(UserId::new(), UserId::nil());
    }
}

#[test]
fn stored_availability_is_read_by_name() {
    assert_eq!(Availability::from_name("Public"), Some(Availability::Public));
    assert_eq!(Availability::from_name("Private"), Some(Availability::Private));
    assert_eq!(Availability::from_name("public"), None);
    let game = AvailableGame::from_stored(GameId(2), String::from("Lucky Peg"), "Private").expect("known availability");
    assert_eq!(*game.id(), GameId(2));
    assert_eq!(game.name(), "Lucky Peg");
    assert_eq!(*game.availability(), Availability::Private);
    assert!(AvailableGame::from_stored(GameId(2), String::from("x"), "Hidden").is_none());
}

#[test]
fn the_pone_counts_the_hand_held_before_the_play() {
    let pone: Player = PLAYER1;
    assert_eq!(pone.opponent(), PLAYER0);
    assert_eq!(ScoreSheet::hand(&hand("QHKS5HTH"), card("4H")).points(), Points::from(6));
    assert_eq!(ScoreSheet::his_heels(card("JC")).points(), Points::from(2));
    assert_eq!(ScoreSheet::his_heels(card("QC")).points(), Points::from(0));
}
