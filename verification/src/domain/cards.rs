use vstd::prelude::*;
use vstd::string::*;

use crate::display::{format_vec, joined, texts};

verus! {

/// The face (rank) of a playing card. Aces are always low.
#[derive(Clone, Copy, Debug, PartialEq, Eq, Structural, Hash)]
pub enum Face {
    Ace,
    Two,
    Three,
    Four,
    Five,
    Six,
    Seven,
    Eight,
    Nine,
    Ten,
    Jack,
    Queen,
    King,
}

/// The suit of a playing card.
#[derive(Clone, Copy, Debug, PartialEq, Eq, Structural, Hash)]
pub enum Suit {
    Hearts,
    Clubs,
    Diamonds,
    Spades,
}

/// A playing card of the standard 52-card pack.
#[derive(Clone, Copy, Debug, PartialEq, Eq, Structural, Hash)]
pub struct Card {
    pub face: Face,
    pub suit: Suit,
}

/// The pip value used for the running total of the play and for fifteens.
pub type Value = usize;

impl Face {
    /// Rank of the face: ace 1 up to king 13.
    pub open spec fn spec_rank(self) -> nat {
        match self {
            Face::Ace => 1,
            Face::Two => 2,
            Face::Three => 3,
            Face::Four => 4,
            Face::Five => 5,
            Face::Six => 6,
            Face::Seven => 7,
            Face::Eight => 8,
            Face::Nine => 9,
            Face::Ten => 10,
            Face::Jack => 11,
            Face::Queen => 12,
            Face::King => 13,
        }
    }

    /// Pip value: the rank, with court cards counting ten.
    pub open spec fn spec_value(self) -> nat {
        if self.spec_rank() > 10 { 10 } else { self.spec_rank() }
    }

    /// The character naming the face in card text.
    pub open spec fn spec_char(self) -> char {
        match self {
            Face::Ace => 'A',
            Face::Two => '2',
            Face::Three => '3',
            Face::Four => '4',
            Face::Five => '5',
            Face::Six => '6',
            Face::Seven => '7',
            Face::Eight => '8',
            Face::Nine => '9',
            Face::Ten => 'T',
            Face::Jack => 'J',
            Face::Queen => 'Q',
            Face::King => 'K',
        }
    }

    /// The face named by a character of card text, if any.
    pub open spec fn spec_from_char(c: char) -> Option<Face> {
        if c == 'A' { Some(Face::Ace) }
        else if c == '2' { Some(Face::Two) }
        else if c == '3' { Some(Face::Three) }
        else if c == '4' { Some(Face::Four) }
        else if c == '5' { Some(Face::Five) }
        else if c == '6' { Some(Face::Six) }
        else if c == '7' { Some(Face::Seven) }
        else if c == '8' { Some(Face::Eight) }
        else if c == '9' { Some(Face::Nine) }
        else if c == 'T' { Some(Face::Ten) }
        else if c == 'J' { Some(Face::Jack) }
        else if c == 'Q' { Some(Face::Queen) }
        else if c == 'K' { Some(Face::King) }
        else { None }
    }

    /// Returns the rank of the face (ace low).
    pub fn rank(&self) -> (r: u8)
        ensures r == self.spec_rank(),
    {
        match self {
            Face::Ace => 1,
            Face::Two => 2,
            Face::Three => 3,
            Face::Four => 4,
            Face::Five => 5,
            Face::Six => 6,
            Face::Seven => 7,
            Face::Eight => 8,
            Face::Nine => 9,
            Face::Ten => 10,
            Face::Jack => 11,
            Face::Queen => 12,
            Face::King => 13,
        }
    }

    /// Returns the pip value of the face.
    pub fn value(&self) -> (v: Value)
        ensures v == self.spec_value(),
    {
        let r = self.rank();
        if r > 10 { 10 } else { r as Value }
    }

    fn from_char(c: char) -> (f: Option<Face>)
        ensures f == Face::spec_from_char(c),
    {
        if c == 'A' { Some(Face::Ace) }
        else if c == '2' { Some(Face::Two) }
        else if c == '3' { Some(Face::Three) }
        else if c == '4' { Some(Face::Four) }
        else if c == '5' { Some(Face::Five) }
        else if c == '6' { Some(Face::Six) }
        else if c == '7' { Some(Face::Seven) }
        else if c == '8' { Some(Face::Eight) }
        else if c == '9' { Some(Face::Nine) }
        else if c == 'T' { Some(Face::Ten) }
        else if c == 'J' { Some(Face::Jack) }
        else if c == 'Q' { Some(Face::Queen) }
        else if c == 'K' { Some(Face::King) }
        else { None }
    }
}

impl Suit {
    /// The character naming the suit in card text.
    pub open spec fn spec_char(self) -> char {
        match self {
            Suit::Hearts => 'H',
            Suit::Clubs => 'C',
            Suit::Diamonds => 'D',
            Suit::Spades => 'S',
        }
    }

    /// The suit named by a character of card text, if any.
    pub open spec fn spec_from_char(c: char) -> Option<Suit> {
        if c == 'H' { Some(Suit::Hearts) }
        else if c == 'C' { Some(Suit::Clubs) }
        else if c == 'D' { Some(Suit::Diamonds) }
        else if c == 'S' { Some(Suit::Spades) }
        else { None }
    }

    fn from_char(c: char) -> (s: Option<Suit>)
        ensures s == Suit::spec_from_char(c),
    {
        if c == 'H' { Some(Suit::Hearts) }
        else if c == 'C' { Some(Suit::Clubs) }
        else if c == 'D' { Some(Suit::Diamonds) }
        else if c == 'S' { Some(Suit::Spades) }
        else { None }
    }
}


/// Errors that occur when manipulating cards in piles, hands, crib, etc.
#[derive(Debug, PartialEq, Eq)]
pub enum CardsError {
    /// The text could not be parsed into a valid `Card`.
    InvalidCard(String),
    /// A requested card is not present in the pile/hand/deck.
    CardNotFound(String),
    /// Not enough cards are available to fulfill a cut or deal request.
    CardsNotAvailable(u8),
}

impl Card {
    /// Rank of the card (ace 1 up to king 13).
    pub open spec fn spec_rank(self) -> nat {
        self.face.spec_rank()
    }

    /// Pip value of the card.
    pub open spec fn spec_value(self) -> nat {
        self.face.spec_value()
    }

    /// The two characters naming the card, face then suit, e.g. `AS` or `TH`.
    pub open spec fn spec_text(self) -> Seq<char> {
        seq![self.face.spec_char(), self.suit.spec_char()]
    }

    /// The card named by exactly two characters of text, face then suit.
    pub open spec fn spec_parse(text: Seq<char>) -> Option<Card> {
        if text.len() != 2 {
            None
        } else {
            match (Face::spec_from_char(text[0]), Suit::spec_from_char(text[1])) {
                (Some(face), Some(suit)) => Some(Card { face, suit }),
                _ => None,
            }
        }
    }

    /// Creates a card from its face and suit.
    pub fn new(face: Face, suit: Suit) -> (c: Card)
        ensures c == (Card { face, suit }),
    {
        Card { face, suit }
    }

    /// Returns the face of the card.
    pub fn face(&self) -> (f: Face)
        ensures f == self.face,
    {
        self.face
    }

    /// Returns the suit of the card.
    pub fn suit(&self) -> (s: Suit)
        ensures s == self.suit,
    {
        self.suit
    }

    /// Returns the rank of the card (ace low).
    pub fn rank(&self) -> (r: u8)
        ensures r == self.spec_rank(),
    {
        self.face.rank()
    }

    /// Returns the pip value of the card.
    pub fn value(&self) -> (v: Value)
        ensures v == self.spec_value(),
    {
        self.face.value()
    }

    /// Returns `true` if the card is a jack.
    pub fn is_jack(&self) -> (b: bool)
        ensures b == (self.face == Face::Jack),
    {
        self.face == Face::Jack
    }

    /// Parses two characters of text, face then suit (`A23456789TJQK`, `HCDS`).
    pub fn from_str(text: &str) -> (r: Result<Card, CardsError>)
        ensures
            match Card::spec_parse(text@) {
                Some(c) => r == Ok::<Card, CardsError>(c),
                None => r matches Err(CardsError::InvalidCard(t)) && t@ == text@,
            },
    {
        let len = text.unicode_len();
        if len != 2 {
            return Err(CardsError::InvalidCard(String::from_str(text)));
        }
        let face = Face::from_char(text.get_char(0));
        let suit = Suit::from_char(text.get_char(1));
        match (face, suit) {
            (Some(face), Some(suit)) => Ok(Card { face, suit }),
            _ => Err(CardsError::InvalidCard(String::from_str(text))),
        }
    }

    /// Returns the two-character text naming the card, e.g. `AS`.
    pub fn to_string(&self) -> (s: String)
        ensures s@ == self.spec_text(),
    {
        let mut s = String::new();
        let face: &str = match self.face {
            Face::Ace => "A",
            Face::Two => "2",
            Face::Three => "3",
            Face::Four => "4",
            Face::Five => "5",
            Face::Six => "6",
            Face::Seven => "7",
            Face::Eight => "8",
            Face::Nine => "9",
            Face::Ten => "T",
            Face::Jack => "J",
            Face::Queen => "Q",
            Face::King => "K",
        };
        proof {
            reveal_strlit("A"); reveal_strlit("2"); reveal_strlit("3"); reveal_strlit("4");
            reveal_strlit("5"); reveal_strlit("6"); reveal_strlit("7"); reveal_strlit("8");
            reveal_strlit("9"); reveal_strlit("T"); reveal_strlit("J"); reveal_strlit("Q");
            reveal_strlit("K");
        }
        s.append(face);
        let suit: &str = match self.suit {
            Suit::Hearts => "H",
            Suit::Clubs => "C",
            Suit::Diamonds => "D",
            Suit::Spades => "S",
        };
        proof {
            reveal_strlit("H"); reveal_strlit("C"); reveal_strlit("D"); reveal_strlit("S");
        }
        s.append(suit);
        assert(s@ =~= self.spec_text());
        s
    }
}

/// The texts of cards, each card's text joined with `", "`, e.g. `AH, 2H`.
pub open spec fn cards_text(cards: Seq<Card>) -> Seq<char> {
    joined(card_texts(cards))
}

/// The text of each card.
pub open spec fn card_texts(cards: Seq<Card>) -> Seq<Seq<char>> {
    cards.map_values(|c: Card| c.spec_text())
}

/// Writes cards as text: each card's text, joined with `", "`.
pub fn format_cards(cards: &[Card]) -> (s: String)
    ensures s@ == cards_text(cards@),
{
    let mut parts: Vec<String> = Vec::new();
    let mut i: usize = 0;
    while i < cards.len()
        invariant
            i <= cards@.len(),
            texts(parts@) == card_texts(cards@.take(i as int)),
        decreases cards.len() - i,
    {
        let t = cards[i].to_string();
        proof {
            assert(texts(parts@.push(t)) =~= texts(parts@).push(t@));
            assert(card_texts(cards@.take(i + 1)) =~= card_texts(cards@.take(i as int)).push(cards@[i as int].spec_text()));
        }
        parts.push(t);
        i = i + 1;
    }
    assert(cards@.take(cards@.len() as int) =~= cards@);
    format_vec(parts.as_slice())
}


} // verus!
