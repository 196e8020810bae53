use cribbage_server::domain::cards::Card;
use cribbage_server::domain::pile::{Crib, Hand};
use cribbage_server::domain::players::{PLAYER0, PLAYER1};
use cribbage_server::domain::plays::PlayState;
use cribbage_server::domain::scoring::{Points, ScoreKind, ScoreSheet};

fn card(text: &str) -> Card {
    Card::from_str(text).expect("card text")
}

fn hand(text: &str) -> Hand {
    Hand::from_str(text).expect("cards text")
}

fn crib(text: &str) -> Crib {
    Crib::from_str(text).expect("cards text")
}

fn hand_points(cards: &str, starter: &str) -> Points {
    ScoreSheet::hand(&hand(cards), card(starter)).points()
}

fn crib_points(cards: &str, starter: &str) -> Points {
    ScoreSheet::crib(&crib(cards), card(starter)).points()
}

#[test]
fn hand_should_score_fifteens() {
    assert_eq!(hand_points("7H8CAC2C", "4H"), Points::from(4));
    assert_eq!(hand_points("THJCKS5H", "4H"), Points::from(6));
}

#[test]
fn hand_should_score_pairs() {
    assert_eq!(hand_points("2H4C5C2C", "AH"), Points::from(2));
    assert_eq!(hand_points("TCASADTH", "AH"), Points::from(8));
}

#[test]
fn hand_should_score_royal_pairs() {
    assert_eq!(hand_points("2H2D5C2C", "AH"), Points::from(6));
    assert_eq!(hand_points("TCASADTH", "AH"), Points::from(8));
}

#[test]
fn hand_should_score_double_royal_pairs() {
    assert_eq!(hand_points("2H2C2D2S", "AH"), Points::from(12));
    assert_eq!(hand_points("TCASADTH", "AH"), Points::from(8));
}

#[test]
fn hand_should_score_runs() {
    assert_eq!(hand_points("JDQCKC2C", "AH"), Points::from(3));
    assert_eq!(hand_points("3C3S2D5H", "AH"), Points::from(8));
}

#[test]
fn hand_should_score_flushes() {
    assert_eq!(hand_points("2H4H6H8H", "TH"), Points::from(5));
    assert_eq!(hand_points("2D4D6D8D", "TH"), Points::from(4));
}

#[test]
fn hand_should_score_nobs() {
    assert_eq!(hand_points("2D4H6HJH", "TH"), Points::from(1));
    assert_eq!(hand_points("2H4D6DJD", "TH"), Points::from(0));
}

#[test]
fn crib_should_score_fifteens() {
    assert_eq!(crib_points("7H8CAC2C", "4H"), Points::from(4));
    assert_eq!(crib_points("THJCKS5H", "4H"), Points::from(6));
}

#[test]
fn crib_should_score_pairs() {
    assert_eq!(crib_points("2H4C5C2C", "AH"), Points::from(2));
    assert_eq!(crib_points("TCASADTH", "AH"), Points::from(8));
}

#[test]
fn crib_should_score_royal_pairs() {
    assert_eq!(crib_points("2H2D5C2C", "AH"), Points::from(6));
    assert_eq!(crib_points("TCASADTH", "AH"), Points::from(8));
}

#[test]
fn crib_should_score_double_royal_pairs() {
    assert_eq!(crib_points("2H2C2D2S", "AH"), Points::from(12));
    assert_eq!(crib_points("TCASADTH", "AH"), Points::from(8));
}

#[test]
fn crib_should_score_runs() {
    assert_eq!(crib_points("JDQCKC2C", "AH"), Points::from(3));
    assert_eq!(crib_points("3C3S2D5H", "AH"), Points::from(8));
}

#[test]
fn crib_should_score_flushes() {
    assert_eq!(crib_points("2H4H6H8H", "TH"), Points::from(5));
    assert_eq!(crib_points("2D4D6D8D", "TH"), Points::from(0));
}

#[test]
fn crib_should_score_nobs() {
    assert_eq!(crib_points("2D4H6HJH", "TH"), Points::from(1));
    assert_eq!(crib_points("2H4D6DJD", "TH"), Points::from(0));
}

#[test]
fn should_score_rules_example_eights_sevens_sixes() {
    assert_eq!(hand_points("8H7C7D6S", "2H"), Points::from(16));
}

#[test]
fn should_score_rules_example_runs() {
    assert_eq!(hand_points("JHQCKDAS", "2D"), Points::from(3));
}

#[test]
fn should_score_rules_example_flush() {
    assert_eq!(hand_points("THQHKHAH", "2H"), Points::from(5));
    assert_eq!(hand_points("THQHKHAH", "2S"), Points::from(4));
    assert_eq!(hand_points("THQHKHAS", "2H"), Points::from(0));
}

#[test]
fn should_score_rules_example_perfect_29() {
    assert_eq!(hand_points("5H5C5DJS", "5S"), Points::from(29));
}

#[test]
fn a_flush_is_never_scored_in_the_play() {
    let mut play_state = PlayState::new(PLAYER0)
        .with_pending_plays(PLAYER0, &[card("2H"), card("4H")])
        .with_pending_plays(PLAYER1, &[card("3H"), card("5H")]);
    let mut kinds = Vec::new();
    for c in ["2H", "3H", "4H", "5H"] {
        let sheet = play_state.play(card(c));
        kinds.extend(sheet.items().iter().map(|i| i.kind()));
    }
    assert!(kinds.contains(&ScoreKind::Run));
    assert!(kinds.iter().all(|k| *k != ScoreKind::Flush && *k != ScoreKind::Nobs && *k != ScoreKind::HisHeels));
}

#[test]
fn the_dealer_pegs_in_every_play() {
    let pack: Vec<Card> = cribbage_server::domain::deck::Deck::standard_pack().as_slice().to_vec();
    for offset in 0..pack.len() {
        for stride in [1usize, 5, 7, 11] {
            let pick = |k: usize| pack[(offset + k * stride) % pack.len()];
            let dealer_hand: Vec<Card> = (0..4).map(pick).collect();
            let pone_hand: Vec<Card> = (4..8).map(pick).collect();
            let mut play_state = PlayState::new(PLAYER1)
                .with_pending_plays(PLAYER0, &dealer_hand)
                .with_pending_plays(PLAYER1, &pone_hand);
            let mut dealer_points = 0;
            while !play_state.is_finished() {
                let next = play_state.next_to_play();
                let legal = play_state.legal_plays(next);
                if let Some(card) = legal.last() {
                    let sheet = play_state.play(*card);
                    if next == PLAYER0 {
                        dealer_points += sheet.points().value();
                    }
                } else {
                    let recipient = play_state.current_plays().last().map(|p| p.player()).unwrap_or(next);
                    let sheet = play_state.go();
                    if recipient == PLAYER0 {
                        dealer_points += sheet.points().value();
                    }
                }
            }
            assert!(dealer_points >= 1, "dealer pegged nothing with {:?} against {:?}", dealer_hand, pone_hand);
        }
    }
}
