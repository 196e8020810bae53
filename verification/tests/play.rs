use cribbage_server::domain::cards::Card;
use cribbage_server::domain::game::{Game, GameEvent};
use cribbage_server::domain::pile::{Crib, Hand};
use cribbage_server::domain::players::{Dealer, Pending, Roles, PLAYER0, PLAYER1};
use cribbage_server::domain::plays::{GoStatus, Play, PlayState};
use cribbage_server::domain::scoreboard::{Pegging as BoardPegging, Position, Scoreboard};
use cribbage_server::domain::scoring::{Pegging, Points, ScoreKind, ScoreSheet};
use cribbage_server::domain::state::{Playing, State};
use cribbage_server::ids::{GameId, UserId};
use cribbage_server::storage::last_created_at;

fn card(text: &str) -> Card {
    Card::from_str(text).expect("card text")
}

fn hand(text: &str) -> Hand {
    Hand::from_str(text).expect("cards text")
}

/// A series at 25, the host to lay, holding a king and a two.
fn series_at_25() -> PlayState {
    PlayState::new(PLAYER0)
        .with_pending_plays(PLAYER0, &[card("KH"), card("2C")])
        .with_pending_plays(PLAYER1, &[card("3D")])
        .with_current_plays(&[Play::new(PLAYER1, card("KS")), Play::new(PLAYER0, card("QS")), Play::new(PLAYER1, card("5S"))])
        .expect("the total fits")
}

#[test]
fn any_card_may_be_laid_even_beyond_31() {
    let mut play_state = series_at_25();
    assert!(!play_state.legal_plays(PLAYER0).contains(&card("KH")));
    let sheet = play_state.play(card("KH"));
    assert_eq!(sheet.points(), Points::from(0));
    assert_eq!(play_state.running_total(), 35);
    assert_eq!(play_state.pending_plays(PLAYER0), &vec![card("2C")]);
    assert_eq!(play_state.pending_plays(PLAYER1), &vec![card("3D")]);
    assert_eq!(play_state.current_plays().last(), Some(&Play::new(PLAYER0, card("KH"))));
    assert_eq!(play_state.current_plays().len(), 4);
    assert_eq!(play_state.next_to_play(), PLAYER1);
    assert_eq!(play_state.go_status(), GoStatus::NotCalled);
}

#[test]
fn a_card_played_event_beyond_31_is_applied() {
    let playing = Playing::new(
        Scoreboard::new([Position::new(0), Position::new(0)]),
        Roles::new(Dealer(PLAYER1)),
        [hand("KH2C"), hand("3D")],
        series_at_25(),
        Crib::new(),
        card("AS"),
        Pending::new(),
    );
    let mut game = Game::new(GameId::new(), UserId::new(), Some(UserId::new()), "test game", State::Playing(playing));
    let event = GameEvent::CardPlayed {
        player: PLAYER0,
        card: card("KH"),
        pegging: Pegging::new(PLAYER0, ScoreSheet::default()),
    };
    assert!(game.can_apply_event(&event));
    game.apply_event(event);
    match game.state() {
        State::Playing(p) => {
            assert_eq!(p.hand(PLAYER0).as_slice(), &[card("2C")]);
            assert_eq!(p.play_state().running_total(), 35);
        },
        other => panic!("unexpected state: {}", other.name()),
    }
}

#[test]
fn points_add_up() {
    let a = Points::from(7);
    let b = Points::from(35);
    assert_eq!((a + b).value(), a.value() + b.value());
    assert_eq!(Points::from(9).value(), 9);
    let mut total = Points::from(3);
    total += Points::from(4);
    assert_eq!(total, Points::from(7));
    let position = Position { back: Points::from(1), front: Points::from(5) } + Points::from(2);
    assert_eq!((position.back(), position.front()), (Points::from(5), Points::from(7)));
    let pegs = BoardPegging { back_peg: Points::from(0), front_peg: Points::from(9) } + Points::from(6);
    assert_eq!((pegs.back_peg(), pegs.front_peg()), (Points::from(9), Points::from(15)));
}

#[test]
fn the_last_game_of_a_chunk_gives_its_creation_time() {
    let millis: u128 = 1_700_000_000_123;
    let v7 = (millis << 80) | (7u128 << 76) | (0b10u128 << 62) | 0x1234;
    let v4 = UserId::new().as_u128();
    assert_eq!(last_created_at(&[]), None);
    assert_eq!(last_created_at(&[v4, v7]), Some((1_700_000_000, 123_000_000)));
    assert_eq!(last_created_at(&[v7, v4]), None);
}

#[test]
fn the_latest_pegging_is_the_last_that_scored() {
    let mut board = Scoreboard::new([Position::new(0), Position::new(0)]);
    assert!(board.latest_pegging().is_none());
    let fifteen = ScoreSheet::default().add_event(ScoreKind::Fifteen, &[card("7H"), card("8H")], Points::from(2));
    let go = ScoreSheet::default().add_event(ScoreKind::LastCard, &[], Points::from(1));
    board.peg(&Pegging::new(PLAYER0, fifteen));
    board.peg(&Pegging::new(PLAYER1, go));
    assert_eq!(board.history().len(), 2);
    let latest = board.latest_pegging().expect("a pegging");
    assert_eq!(latest.player(), PLAYER1);
    assert_eq!(latest.score_sheet().points(), Points::from(1));
}
