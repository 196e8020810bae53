use cribbage_server::domain::cards::Card;
use cribbage_server::domain::deck::Deck;
use cribbage_server::domain::game::Game;
use cribbage_server::domain::pile::{Crib, Hand};
use cribbage_server::domain::players::{Dealer, Pending, Player, Roles, PLAYER0, PLAYER1};
use cribbage_server::domain::plays::{Play, PlayState};
use cribbage_server::domain::scoreboard::{Position, Scoreboard};
use cribbage_server::domain::scoring::{Pegging, Points, ScoreItem, ScoreKind, ScoreSheet};
use cribbage_server::domain::state::{
    Discarding, Finished, Playing, Scoring, ScoringCribType, ScoringDealerType, ScoringPoneType, Starting, State,
};
use cribbage_server::ids::{GameId, UserId};

fn card(text: &str) -> Card {
    Card::from_str(text).expect("card text")
}

fn hand(text: &str) -> Hand {
    Hand::from_str(text).expect("cards text")
}

fn crib(text: &str) -> Crib {
    Crib::from_str(text).expect("cards text")
}

// ---------------------------------------------------------------------------
// Masking the parts of a text that vary from run to run.
// ---------------------------------------------------------------------------

fn is_digit(c: char) -> bool {
    c.is_ascii_digit()
}

/// The number of characters of `chars[i..]` that make a run of `min` to
/// `max` digits (as many as there are, up to `max`); `None` below `min`.
fn digits_at(chars: &[char], i: usize, min: usize, max: usize) -> Option<usize> {
    let mut n = 0;
    while i + n < chars.len() && n < max && is_digit(chars[i + n]) {
        n += 1;
    }
    if n >= min { Some(n) } else { None }
}

/// The length of a timestamp such as `2024-06-01 12:34:56.789` at `i`.
fn timestamp_at(chars: &[char], i: usize) -> Option<usize> {
    let mut j = i;
    for (count, sep) in [(4, Some('-')), (2, Some('-')), (2, Some(' ')), (2, Some(':')), (2, Some(':')), (2, Some('.'))] {
        if digits_at(chars, j, count, count)? != count {
            return None;
        }
        j += count;
        match sep {
            Some(s) if j < chars.len() && chars[j] == s => j += 1,
            _ => return None,
        }
    }
    Some(j + digits_at(chars, j, 1, 9)? - i)
}

/// The length of a user identity such as `UserId(a1a2a3a4-b1b2-c1c2-d1d2-d3d4d5d6d7d8)` at `i`.
fn user_id_at(chars: &[char], i: usize) -> Option<usize> {
    let prefix: Vec<char> = "UserId(".chars().collect();
    if chars.len() < i + prefix.len() + 37 || chars[i..i + prefix.len()] != prefix[..] {
        return None;
    }
    let uuid = &chars[i + prefix.len()..i + prefix.len() + 36];
    for (k, c) in uuid.iter().enumerate() {
        let ok = if k == 8 || k == 13 || k == 18 || k == 23 { *c == '-' } else { c.is_ascii_hexdigit() && !c.is_ascii_uppercase() };
        if !ok {
            return None;
        }
    }
    if chars[i + prefix.len() + 36] == ')' { Some(prefix.len() + 37) } else { None }
}

/// The length of a card such as `AH` at `i`.
fn card_at(chars: &[char], i: usize) -> Option<usize> {
    if i + 1 < chars.len() && "A23456789TJQK".contains(chars[i]) && "HCDS".contains(chars[i + 1]) { Some(2) } else { None }
}

/// The length of a run of `<card>`s separated by `", "` at `i`.
fn cards_at(chars: &[char], i: usize) -> Option<usize> {
    let one: Vec<char> = "<card>".chars().collect();
    let more: Vec<char> = ", <card>".chars().collect();
    let starts = |j: usize, p: &Vec<char>| j + p.len() <= chars.len() && chars[j..j + p.len()] == p[..];
    if !starts(i, &one) {
        return None;
    }
    let mut j = i + one.len();
    while starts(j, &more) {
        j += more.len();
    }
    Some(j - i)
}

/// The length of a pair of scores such as `  0 ->  42` at `i`: spaces, a
/// number, ` ->`, spaces and a number.
fn score_at(chars: &[char], i: usize) -> Option<usize> {
    let mut j = i;
    while j < chars.len() && chars[j].is_whitespace() {
        j += 1;
    }
    j += digits_at(chars, j, 1, usize::MAX)?;
    if !(j + 3 <= chars.len() && chars[j..j + 3] == [' ', '-', '>']) {
        return None;
    }
    j += 3;
    while j < chars.len() && chars[j].is_whitespace() {
        j += 1;
    }
    j += digits_at(chars, j, 1, usize::MAX)?;
    Some(j - i)
}

/// Replaces, from left to right, each stretch that `at` recognises by `by`.
fn replace(text: &str, at: fn(&[char], usize) -> Option<usize>, by: &str) -> String {
    let chars: Vec<char> = text.chars().collect();
    let mut out = String::new();
    let mut i = 0;
    while i < chars.len() {
        match at(&chars, i) {
            Some(n) if n > 0 => {
                out.push_str(by);
                i += n;
            },
            _ => {
                out.push(chars[i]);
                i += 1;
            },
        }
    }
    out
}

/// The text with its timestamps, user identities, players, cards and scores
/// masked, in that order.
fn masked(text: &str) -> String {
    let text = replace(text, timestamp_at, "<timestamp>");
    let text = replace(&text, user_id_at, "<userid>");
    let text = text.replace("Player(0)", "<player>").replace("Player(1)", "<player>");
    let text = replace(&text, card_at, "<card>");
    let text = replace(&text, cards_at, "[<cards>]");
    replace(&text, score_at, "<score>")
}

// ---------------------------------------------------------------------------
// Games in each phase, set up as the tests need them.
// ---------------------------------------------------------------------------

fn test_game(state: State) -> Game {
    Game::new(GameId::new(), UserId::new(), Some(UserId::new()), "test-game__2024-06-01 12:34:56.789 UTC", state)
}

fn board(host: usize, guest: usize) -> Scoreboard {
    Scoreboard::new([Position::new(host), Position::new(guest)])
}

fn roles() -> Roles {
    Roles::new(Dealer(PLAYER0))
}

fn deck_without(taken: &[Card]) -> Deck {
    let mut deck = Deck::standard_pack();
    for c in taken {
        deck.remove(*c);
    }
    deck
}

fn counted_hands() -> [Hand; 2] {
    [hand("AS2S3S4S"), hand("AC2C3C4C")]
}

fn scoring_parts(pegging: Pegging) -> (Scoreboard, Roles, [Hand; 2], Crib, Card, Pegging, Pending) {
    (board(0, 0), roles(), counted_hands(), crib("TSJSQSKS"), card("JH"), pegging, Pending::new())
}

// ---------------------------------------------------------------------------
// The game written as text, one test per phase.
// ---------------------------------------------------------------------------

#[test]
fn should_output_user_readable_starting_game_in_logs() {
    let cuts = [Some(card("AS")), Some(card("AC"))];
    let state = Starting::new(cuts, deck_without(&[card("AS"), card("AC")]), Pending::new());
    let game = test_game(State::Starting(state));
    assert_eq!(
        masked(&game.to_string()),
        "test-game__<timestamp> U[<cards>]
<userid> <userid>
Starting(
    cuts: [<cards>]
    deck: Deck([<cards>])
    pending: Pending(<player>, <player>)
)"
    );
}

#[test]
fn should_output_user_readable_discarding_game_in_logs() {
    let hands = [hand("AH2H3H4H5H6H"), hand("AC2C3C4C5C6C")];
    let mut taken = hands[0].as_slice().to_vec();
    taken.extend_from_slice(hands[1].as_slice());
    let state = Discarding::new(board(0, 0), roles(), hands, Crib::new(), deck_without(&taken), Pending::new());
    let game = test_game(State::Discarding(state));
    assert_eq!(
        masked(&game.to_string()),
        "test-game__<timestamp> U[<cards>]
<userid> <userid>
Discarding(
    scoreboard: Scoreboard(<score>,<score>)
    roles: Dealer(<player>), Pone(<player>)
    hands: Hand([<cards>]), Hand([<cards>])
    crib: Crib()
    deck: Deck([<cards>])
    pending: Pending(<player>, <player>)
)"
    );
}

#[test]
fn should_output_user_readable_playing_game_in_logs() {
    let play_state = PlayState::new(PLAYER1)
        .with_pending_plays(PLAYER0, &[card("9S")])
        .with_pending_plays(PLAYER1, &[card("4S")])
        .with_current_plays(&[Play::new(PLAYER0, card("AH"))])
        .expect("the series stays within 31");
    let state = Playing::new(
        board(0, 0),
        roles(),
        [hand("9S"), hand("4S")],
        play_state,
        Crib::new(),
        card("AS"),
        Pending::new(),
    );
    let game = test_game(State::Playing(state));
    assert_eq!(
        masked(&game.to_string()),
        "test-game__<timestamp> U[<cards>]
<userid> <userid>
Playing(
    scoreboard: Scoreboard(<score>,<score>),
    roles: Dealer(<player>), Pone(<player>),
    hands: Hand([<cards>]), Hand([<cards>]),
    play_state: Next(<player>), GoStatus(NotCalled), Pending(<player> -> [<cards>], <player> -> [<cards>]), Current((<player> -> [<cards>])), Previous(),
    cut: [<cards>],
    crib: Crib(),
    pending: Pending(<player>, <player>)
)"
    );
}

#[test]
fn should_output_user_readable_pone_scoring_game_in_logs() {
    let pegging = Pegging::new(PLAYER1, ScoreSheet::hand(&counted_hands()[1], card("JH")));
    let (s, r, h, c, cut, p, pending) = scoring_parts(pegging);
    let game = test_game(State::ScoringPone(Scoring::<ScoringPoneType>::new(s, r, h, c, cut, p, pending)));
    assert_eq!(
        masked(&game.to_string()),
        "test-game__<timestamp> U[<cards>]
<userid> <userid>
ScoringPone(
    scoreboard: Scoreboard(<score>,<score>),
    roles: Dealer(<player>), Pone(<player>),
    hands: Hand([<cards>]), Hand([<cards>]),
    cut: [<cards>],
    crib: Crib([<cards>]),
    pegging: <player> -> Fifteen: ([<cards>]) -> 2, Fifteen: ([<cards>]) -> 2, Run: ([<cards>]) -> 4, Flush: ([<cards>]) -> 4,
    pending: Pending(<player>, <player>)
)"
    );
}

#[test]
fn should_output_user_readable_dealer_scoring_game_in_logs() {
    let pegging = Pegging::new(PLAYER0, ScoreSheet::hand(&counted_hands()[0], card("JH")));
    let (s, r, h, c, cut, p, pending) = scoring_parts(pegging);
    let game = test_game(State::ScoringDealer(Scoring::<ScoringDealerType>::new(s, r, h, c, cut, p, pending)));
    assert_eq!(
        masked(&game.to_string()),
        "test-game__<timestamp> U[<cards>]
<userid> <userid>
ScoringDealer(
    scoreboard: Scoreboard(<score>,<score>),
    roles: Dealer(<player>), Pone(<player>),
    hands: Hand([<cards>]), Hand([<cards>]),
    cut: [<cards>],
    crib: Crib([<cards>]),
    pegging: <player> -> Fifteen: ([<cards>]) -> 2, Fifteen: ([<cards>]) -> 2, Run: ([<cards>]) -> 4, Flush: ([<cards>]) -> 4,
    pending: Pending(<player>, <player>)
)"
    );
}

#[test]
fn should_output_user_readable_crib_scoring_game_in_logs() {
    let pegging = Pegging::new(PLAYER0, ScoreSheet::crib(&crib("TSJSQSKS"), card("JH")));
    let (s, r, h, c, cut, p, pending) = scoring_parts(pegging);
    let game = test_game(State::ScoringCrib(Scoring::<ScoringCribType>::new(s, r, h, c, cut, p, pending)));
    assert_eq!(
        masked(&game.to_string()),
        "test-game__<timestamp> U[<cards>]
<userid> <userid>
ScoringCrib(
    scoreboard: Scoreboard(<score>,<score>),
    roles: Dealer(<player>), Pone(<player>),
    hands: Hand([<cards>]), Hand([<cards>]),
    cut: [<cards>],
    crib: Crib([<cards>]),
    pegging: <player> -> Pair: ([<cards>]) -> 2, Run: ([<cards>]) -> 4, Run: ([<cards>]) -> 4,
    pending: Pending(<player>, <player>)
)"
    );
}

#[test]
fn should_output_user_readable_finished_game_in_logs() {
    let state = Finished::new(PLAYER1, board(0, 121), roles(), counted_hands(), crib("TSJSQSKS"), card("JH"));
    let game = test_game(State::Finished(state));
    assert_eq!(
        masked(&game.to_string()),
        "test-game__<timestamp> U[<cards>]
<userid> <userid>
Finished(
    winner: <player>,
    scoreboard: Scoreboard(<score>,<score>),
    roles: Dealer(<player>), Pone(<player>),
    hands: Hand([<cards>]), Hand([<cards>]),
    crib: Crib([<cards>]),
    cut: [<cards>]
)"
    );
}

// ---------------------------------------------------------------------------
// The texts themselves, unmasked.
// ---------------------------------------------------------------------------

#[test]
fn a_user_identity_is_written_as_its_uuid() {
    let id = UserId(0xa1a2a3a4b1b2c1c2d1d2d3d4d5d6d7d8);
    assert_eq!(id.to_string(), "UserId(a1a2a3a4-b1b2-c1c2-d1d2-d3d4d5d6d7d8)");
    assert_eq!(UserId(0x0f).to_string(), "UserId(00000000-0000-0000-0000-00000000000f)");
}

#[test]
fn a_game_without_guest_shows_a_dash() {
    let game = Game::new(GameId::new(), UserId(1), None, "Lone", State::default());
    assert_eq!(
        game.to_string(),
        "Lone\nUserId(00000000-0000-0000-0000-000000000001) -\nStarting(\n    cuts: --, --\n    deck: Deck(AH, 2H, 3H, 4H, 5H, 6H, 7H, 8H, 9H, TH, JH, QH, KH, AC, 2C, 3C, 4C, 5C, 6C, 7C, 8C, 9C, TC, JC, QC, KC, AD, 2D, 3D, 4D, 5D, 6D, 7D, 8D, 9D, TD, JD, QD, KD, AS, 2S, 3S, 4S, 5S, 6S, 7S, 8S, 9S, TS, JS, QS, KS)\n    pending: Pending(Player(0), Player(1))\n)"
    );
}

#[test]
fn piles_plays_and_roles_are_written_in_full() {
    assert_eq!(hand("AH2H").to_string(), "Hand(AH, 2H)");
    assert_eq!(Crib::new().to_string(), "Crib()");
    assert_eq!(Play::new(PLAYER0, card("AH")).to_string(), "(Player(0) -> AH)");
    assert_eq!(roles().to_string(), "Dealer(Player(0)), Pone(Player(1))");
    let mut pending = Pending::new();
    pending.acknowledge(PLAYER0);
    assert_eq!(pending.to_string(), "Pending(Player(1))");
    pending.acknowledge(PLAYER1);
    assert_eq!(pending.to_string(), "Pending()");
    let play_state = PlayState::new(PLAYER1)
        .with_pending_plays(PLAYER0, &[card("9S")])
        .with_pending_plays(PLAYER1, &[card("4S"), card("5S")])
        .with_previous_plays(&[Play::new(PLAYER1, card("KH")), Play::new(PLAYER0, card("KD"))])
        .with_current_plays(&[Play::new(PLAYER0, card("AH"))])
        .expect("the series stays within 31");
    assert_eq!(
        play_state.to_string(),
        "Next(Player(1)), GoStatus(NotCalled), Pending(Player(0) -> 9S, Player(1) -> 4S, 5S), Current((Player(0) -> AH)), Previous((Player(1) -> KH), (Player(0) -> KD))"
    );
}

#[test]
fn score_items_and_peggings_are_written_with_their_points() {
    let item = ScoreItem::new(ScoreKind::Fifteen, vec![card("7H"), card("8H")], Points::from(2));
    assert_eq!(item.to_string(), "Fifteen: (7H, 8H) -> 2");
    let sheet = ScoreSheet::default()
        .add_event(ScoreKind::Fifteen, &[card("7H"), card("8H")], Points::from(2))
        .add_event(ScoreKind::ThirtyOne, &[], Points::from(2));
    assert_eq!(sheet.to_string(), "Fifteen: (7H, 8H) -> 2, ThirtyOne: () -> 2");
    assert_eq!(Pegging::new(PLAYER1, sheet).to_string(), "Player(1) -> Fifteen: (7H, 8H) -> 2, ThirtyOne: () -> 2");
    let player: Player = PLAYER0;
    assert_eq!(Pegging::new(player, ScoreSheet::default()).to_string(), "Player(0) -> ");
}
