use cribbage_server::domain::cards::Card;
use cribbage_server::domain::deck::Deck;
use cribbage_server::domain::game::{Game, GameEvent};
use cribbage_server::domain::pile::{Crib, Hand};
use cribbage_server::domain::players::{Dealer, Pending, Player, Roles, PLAYER0, PLAYER1};
use cribbage_server::domain::plays::{Play, PlayState};
use cribbage_server::domain::scoreboard::{Position, Scoreboard};
use cribbage_server::domain::scoring::{Pegging, Points, ScoreKind, ScoreSheet};
use cribbage_server::domain::state::{HasCrib, HasHands, HasRoles, Playing, Starting, State, Wrap, WrapOrFinished};
use cribbage_server::ids::{GameId, UserId};

fn card(text: &str) -> Card {
    Card::from_str(text).expect("card text")
}

fn hand(text: &str) -> Hand {
    Hand::from_str(text).expect("cards text")
}

#[test]
fn score_events_are_added_only_when_they_apply() {
    let cards = [card("7H"), card("8H")];
    let sheet = ScoreSheet::default()
        .add_event_if(true, ScoreKind::Fifteen, &cards, Points::from(2))
        .add_event_if(false, ScoreKind::Pair, &cards, Points::from(2));
    assert_eq!(sheet.points(), Points::from(2));
    assert_eq!(sheet.items().len(), 1);
    assert_eq!(sheet.items()[0].kind(), ScoreKind::Fifteen);
    assert_eq!(sheet.points_after(119), Some(121));
    assert_eq!(sheet.points_after(usize::MAX), None);
}

#[test]
fn finishing_the_plays_gives_back_each_hand_in_order_of_play() {
    let plays = [Play::new(PLAYER1, card("4S")), Play::new(PLAYER0, card("9C")), Play::new(PLAYER1, card("TH"))];
    let current = [Play::new(PLAYER0, card("7H"))];
    let mut play_state = PlayState::new(PLAYER1)
        .with_previous_plays(&plays)
        .with_current_plays(&current)
        .expect("within 31");
    let hands = play_state.finish_plays();
    assert_eq!(hands[0].as_slice(), &[card("9C"), card("7H")]);
    assert_eq!(hands[1].as_slice(), &[card("4S"), card("TH")]);
    assert!(play_state.previous_plays().is_empty());
    assert!(play_state.current_plays().is_empty());
    assert_eq!(play_state.running_total(), 0);
}

#[test]
fn the_board_remembers_the_latest_scoring_pegging() {
    let mut board = Scoreboard::zero();
    assert!(board.latest_pegging().is_none());
    let pegging = Pegging::new(PLAYER0, ScoreSheet::default().add_event(ScoreKind::Nobs, &[card("JH")], Points::from(1)));
    board.peg(&pegging);
    board.peg(&Pegging::new(PLAYER1, ScoreSheet::default()));
    assert_eq!(board.latest_pegging(), Some(&pegging));
    assert_eq!(board.to_string(), "Scoreboard(  0 ->   1,   0 ->   0)");
}

#[test]
fn a_starting_state_comes_apart_into_its_parts() {
    let mut starting = Starting::default();
    starting.set_cut(PLAYER1, card("5D"));
    starting.set_acknowledged(PLAYER0);
    let (cuts, deck, pending) = starting.into_parts();
    assert_eq!(cuts, [None, Some(card("5D"))]);
    assert!(!deck.contains(card("5D")));
    assert!(!pending.waiting_on(PLAYER0));
    assert!(pending.waiting_on(PLAYER1));
}

#[test]
fn a_game_can_be_changed_in_place() {
    let mut game = Game::new(GameId(1), UserId(2), None, "before", State::default());
    game.name_mut().push_str(" and after");
    assert_eq!(game.name(), "before and after");
    *game.state_mut() = Starting::new([Some(card("AS")), None], Deck::standard_pack(), Pending::new()).wrap();
    match game.state() {
        State::Starting(starting) => assert_eq!(starting.cut(PLAYER0), Some(card("AS"))),
        other => panic!("unexpected state: {}", other.name()),
    }
}

#[test]
fn a_state_with_a_winner_wraps_as_finished() {
    let board = Scoreboard::new([Position::new(121), Position::new(30)]);
    let playing = Playing::new(
        board,
        Roles::new(Dealer(PLAYER1)),
        [hand("AH"), hand("2H")],
        PlayState::new(PLAYER0),
        Crib::new(),
        card("3H"),
        Pending::new(),
    );
    assert_eq!(playing.dealer(), Dealer(PLAYER1));
    assert_eq!(HasRoles::pone(&playing).player(), PLAYER0);
    assert_eq!(HasHands::hand(&playing, PLAYER1).as_slice(), &[card("2H")]);
    assert!(HasCrib::crib(&playing).is_empty());
    match playing.wrap_or_finished() {
        State::Finished(finished) => assert_eq!(finished.winner(), PLAYER0),
        other => panic!("unexpected state: {}", other.name()),
    }
}

#[test]
fn events_name_their_kind() {
    let event = GameEvent::CardPlayed {
        player: PLAYER0,
        card: card("5S"),
        pegging: Pegging::new(PLAYER0, ScoreSheet::default()),
    };
    assert_eq!(event.event_type(), "CardPlayed");
    assert_eq!(event.duplicate(), event);
    assert_eq!(GameEvent::CutForDealTied.event_type(), "CutForDealTied");
    let player: Player = PLAYER1;
    assert_eq!(player.to_string(), "Player(1)");
}


#[test]
fn a_card_laid_moves_from_the_hand_to_the_plays() {
    let mut play_state = PlayState::new(PLAYER0)
        .with_pending_plays(PLAYER0, &[card("5H"), card("9C")])
        .with_pending_plays(PLAYER1, &[card("KD")]);
    play_state.play(card("5H"));
    assert_eq!(play_state.pending_plays(PLAYER0).as_slice(), &[card("9C")]);
    assert_eq!(play_state.pending_plays(PLAYER1).as_slice(), &[card("KD")]);
    let hands = play_state.regather_hands();
    assert_eq!(hands[0].as_slice(), &[card("5H")]);
    assert!(hands[1].is_empty());
    assert_eq!(play_state.next_to_play(), PLAYER1);
    play_state.go();
    assert_eq!(play_state.pending_plays(PLAYER1).as_slice(), &[card("KD")]);
    assert_eq!(play_state.regather_hands()[0].as_slice(), &[card("5H")]);
}
