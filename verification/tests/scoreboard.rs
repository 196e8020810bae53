use cribbage_server::domain::scoreboard::{Pegging, Position};
use cribbage_server::domain::scoring::Points;

#[test]
fn pegging_scoring_will_jump_back_peg_over_front() {
    let mut score = Pegging { back_peg: Points::from(21), front_peg: Points::from(42) };
    let points = Points::from(15);

    score += points;

    assert_eq!(score.back_peg(), Points::from(42));
    assert_eq!(score.front_peg(), Points::from(57));
    assert_eq!(score.points(), Points::from(57));
}

#[test]
fn points_will_be_displayed_as_numeric_value() {
    let points = Points::from(42);
    assert_eq!(points.to_string(), "42");
}

#[test]
fn position_scoring_will_jump_back_peg_over_front() {
    let mut score = Position { back: Points::from(21), front: Points::from(42) };
    let points = Points::from(15);

    score += points;

    assert_eq!(score.back(), Points::from(42));
    assert_eq!(score.front(), Points::from(57));
    assert_eq!(score.points(), Points::from(57));
}

#[test]
fn pegging_score_can_be_displayed() {
    let score = Pegging { back_peg: Points::from(21), front_peg: Points::from(42) };
    assert_eq!(score.to_string(), " 21 ->  42");
}

#[test]
fn position_score_can_be_displayed() {
    let score = Position { back: Points::from(21), front: Points::from(42) };
    assert_eq!(score.to_string(), " 21 ->  42");
}

#[test]
fn wide_scores_take_the_places_they_need() {
    let score = Position { back: Points::from(1234), front: Points::from(5) };
    assert_eq!(score.to_string(), "1234 ->   5");
}
