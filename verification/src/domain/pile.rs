use vstd::prelude::*;
use vstd::string::*;

use crate::domain::cards::{cards_text, format_cards, Card, CardsError};

verus! {

broadcast use vstd::seq_lib::group_seq_properties;


/// An ordered pile of cards: a hand, the crib or the deck, told apart by the
/// marker type `T`.
#[derive(Clone, Debug, PartialEq, Eq)]
pub struct Pile<T> {
    cards: Vec<Card>,
    kind: T,
}

/// The kinds of pile: each marker type names one.
pub trait PileKind: Sized {
    /// The marker value of this kind of pile.
    fn kind() -> Self;

    /// The name of this kind of pile, e.g. `Hand`.
    spec fn spec_name() -> Seq<char>;

    /// Returns the name of this kind of pile, e.g. `Hand`.
    fn name() -> (n: &'static str)
        ensures n@ == Self::spec_name();
}

/// Marker type for a player's personal hand.
#[derive(Clone, Copy, Debug, PartialEq, Eq)]
pub struct HandType;

/// Marker type for the crib pile.
#[derive(Clone, Copy, Debug, PartialEq, Eq)]
pub struct CribType;

/// Marker type for the deck.
#[derive(Clone, Copy, Debug, PartialEq, Eq)]
pub struct DeckType;

impl PileKind for HandType {
    fn kind() -> Self {
        HandType
    }

    open spec fn spec_name() -> Seq<char> {
        "Hand"@
    }

    fn name() -> (n: &'static str) {
        proof {
            reveal_strlit("Hand");
        }
        "Hand"
    }
}

impl PileKind for CribType {
    fn kind() -> Self {
        CribType
    }

    open spec fn spec_name() -> Seq<char> {
        "Crib"@
    }

    fn name() -> (n: &'static str) {
        proof {
            reveal_strlit("Crib");
        }
        "Crib"
    }
}

impl PileKind for DeckType {
    fn kind() -> Self {
        DeckType
    }

    open spec fn spec_name() -> Seq<char> {
        "Deck"@
    }

    fn name() -> (n: &'static str) {
        proof {
            reveal_strlit("Deck");
        }
        "Deck"
    }
}

/// A hand is the set of cards a player holds privately during play.
/// 6 cards dealt then 4 after discarding to the crib.
pub type Hand = Pile<HandType>;

/// The crib is the pile of discarded cards that belongs to the dealer
/// and is scored at the end of the round.
pub type Crib = Pile<CribType>;

impl<T> View for Pile<T> {
    type V = Seq<Card>;

    closed spec fn view(&self) -> Seq<Card> {
        self.cards@
    }
}

/// The sequence of cards named by card text: consecutive two-character
/// names with no separator, e.g. `AH2H3H`; `None` when the text is malformed.
pub open spec fn spec_parse_cards(text: Seq<char>) -> Option<Seq<Card>>
    decreases text.len(),
{
    if text.len() == 0 {
        Some(Seq::empty())
    } else if text.len() < 2 {
        None
    } else {
        match (Card::spec_parse(text.take(2)), spec_parse_cards(text.skip(2))) {
            (Some(c), Some(rest)) => Some(seq![c] + rest),
            _ => None,
        }
    }
}

/// Keeps every card other than `card`.
pub open spec fn other_than(card: Card) -> spec_fn(Card) -> bool {
    |c: Card| c != card
}

/// `true` when `card` does not occur in `cards`.
pub open spec fn not_in(cards: Seq<Card>, card: Card) -> bool {
    !cards.contains(card)
}

/// Parses card text such as `AH2H3H` into the cards it names, in order.
pub fn parse_cards(text: &str) -> (r: Result<Vec<Card>, CardsError>)
    ensures
        match spec_parse_cards(text@) {
            Some(cards) => r matches Ok(v) && v@ == cards,
            None => r matches Err(CardsError::InvalidCard(t)) && t@ == text@,
        },
{
    let len = text.unicode_len();
    let mut cards: Vec<Card> = Vec::new();
    let mut i: usize = 0;
    while i < len
        invariant
            len == text@.len(),
            i <= len,
            i % 2 == 0,
            spec_parse_cards(text@) == match spec_parse_cards(text@.skip(i as int)) {
                Some(rest) => Some(cards@ + rest),
                None => None::<Seq<Card>>,
            },
        decreases len - i,
    {
        assert(text@.skip(i as int).len() == len - i);
        if len - i < 2 {
            return Err(CardsError::InvalidCard(String::from_str(text)));
        }
        let c0 = text.get_char(i);
        let c1 = text.get_char(i + 1);
        let pair = text.substring_char(i, i + 2);
        let ghost rest = text@.skip(i as int);
        assert(rest.take(2) =~= seq![c0, c1]);
        assert(rest.skip(2) =~= text@.skip(i + 2));
        assert(pair@ =~= rest.take(2));
        match Card::from_str(pair) {
            Ok(card) => {
                proof {
                    if let Some(tail) = spec_parse_cards(text@.skip(i + 2)) {
                        assert(cards@.push(card) + tail =~= cards@ + (seq![card] + tail));
                    }
                }
                cards.push(card);
            },
            Err(_) => {
                return Err(CardsError::InvalidCard(String::from_str(text)));
            },
        }
        i = i + 2;
    }
    assert(text@.skip(i as int) =~= Seq::<char>::empty());
    assert(cards@ + Seq::<Card>::empty() =~= cards@);
    Ok(cards)
}

/// Returns `true` if `card` occurs in `cards`.
pub fn slice_contains(cards: &[Card], card: Card) -> (b: bool)
    ensures b == cards@.contains(card),
{
    let mut i: usize = 0;
    while i < cards.len()
        invariant
            i <= cards@.len(),
            forall|j: int| 0 <= j < i ==> cards@[j] != card,
        decreases cards.len() - i,
    {
        if cards[i] == card {
            return true;
        }
        i = i + 1;
    }
    false
}

/// A pile's text: the name of its kind and its cards, e.g. `Hand(AH, 2H)`.
pub open spec fn pile_text(name: Seq<char>, cards: Seq<Card>) -> Seq<char> {
    name + "("@ + cards_text(cards) + ")"@
}

impl<T: PileKind> Pile<T> {
    /// Writes the pile as text: the name of its kind and its cards, e.g.
    /// `Hand(AH, 2H)`.
    pub fn to_string(&self) -> (s: String)
        ensures s@ == pile_text(T::spec_name(), self@),
    {
        let mut s = String::from_str(T::name());
        s.append("(");
        s.append(format_cards(self.cards.as_slice()).as_str());
        s.append(")");
        proof {
            reveal_strlit("(");
            reveal_strlit(")");
        }
        s
    }

    /// Creates an empty pile.
    pub fn new() -> (p: Self)
        ensures p@ == Seq::<Card>::empty(),
    {
        Pile { cards: Vec::new(), kind: T::kind() }
    }

    /// Creates a pile holding the given cards in order.
    pub fn from_cards(cards: Vec<Card>) -> (p: Self)
        ensures p@ == cards@,
    {
        Pile { cards, kind: T::kind() }
    }

    /// Creates a pile holding a copy of the given cards in order.
    pub fn from_slice(cards: &[Card]) -> (p: Self)
        ensures p@ == cards@,
    {
        let mut v: Vec<Card> = Vec::new();
        let mut i: usize = 0;
        while i < cards.len()
            invariant
                i <= cards@.len(),
                v@ == cards@.take(i as int),
            decreases cards.len() - i,
        {
            v.push(cards[i]);
            i = i + 1;
        }
        assert(cards@.take(cards@.len() as int) =~= cards@);
        Pile { cards: v, kind: T::kind() }
    }

    /// Parses card text such as `AH2H3H` into a pile.
    pub fn from_str(text: &str) -> (r: Result<Self, CardsError>)
        ensures
            match spec_parse_cards(text@) {
                Some(cards) => r matches Ok(p) && p@ == cards,
                None => r matches Err(CardsError::InvalidCard(t)) && t@ == text@,
            },
    {
        match parse_cards(text) {
            Ok(cards) => Ok(Self::from_cards(cards)),
            Err(e) => Err(e),
        }
    }

    /// Returns a copy of the pile.
    pub fn duplicate(&self) -> (p: Self)
        ensures p@ == self@,
    {
        Self::from_slice(self.cards.as_slice())
    }

    /// The cards of the pile, in order.
    pub fn as_slice(&self) -> (s: &[Card])
        ensures s@ == self@,
    {
        self.cards.as_slice()
    }

    /// The number of cards in the pile.
    pub fn len(&self) -> (n: usize)
        ensures n == self@.len(),
    {
        self.cards.len()
    }

    /// Returns `true` if the pile holds no card.
    pub fn is_empty(&self) -> (b: bool)
        ensures b == (self@.len() == 0),
    {
        self.cards.len() == 0
    }

    /// Returns `true` if the pile holds `card`.
    pub fn contains(&self, card: Card) -> (b: bool)
        ensures b == self@.contains(card),
    {
        slice_contains(self.cards.as_slice(), card)
    }

    /// Returns `true` if the pile holds every one of `cards`.
    pub fn contains_all(&self, cards: &[Card]) -> (b: bool)
        ensures b == (forall|i: int| 0 <= i < cards@.len() ==> self@.contains(#[trigger] cards@[i])),
    {
        let mut i: usize = 0;
        while i < cards.len()
            invariant
                i <= cards@.len(),
                forall|j: int| 0 <= j < i ==> self@.contains(#[trigger] cards@[j]),
            decreases cards.len() - i,
        {
            if !self.contains(cards[i]) {
                return false;
            }
            i = i + 1;
        }
        true
    }

    /// Returns `true` if the pile holds none of `cards`.
    pub fn contains_none(&self, cards: &[Card]) -> (b: bool)
        ensures b == (forall|i: int| 0 <= i < cards@.len() ==> !self@.contains(#[trigger] cards@[i])),
    {
        let mut i: usize = 0;
        while i < cards.len()
            invariant
                i <= cards@.len(),
                forall|j: int| 0 <= j < i ==> !self@.contains(#[trigger] cards@[j]),
            decreases cards.len() - i,
        {
            if self.contains(cards[i]) {
                return false;
            }
            i = i + 1;
        }
        true
    }

    /// Adds a card on top of the pile.
    pub fn add(&mut self, card: Card)
        ensures final(self)@ == old(self)@.push(card),
    {
        self.cards.push(card);
    }

    /// Adds the given cards on top of the pile, in order.
    pub fn add_all(&mut self, cards: &[Card])
        ensures final(self)@ == old(self)@ + cards@,
    {
        let mut i: usize = 0;
        while i < cards.len()
            invariant
                i <= cards@.len(),
                self@ == old(self)@ + cards@.take(i as int),
            decreases cards.len() - i,
        {
            self.cards.push(cards[i]);
            i = i + 1;
        }
        assert(cards@.take(cards@.len() as int) =~= cards@);
    }

    /// Removes every occurrence of `card` from the pile.
    pub fn remove(&mut self, card: Card)
        ensures final(self)@ == old(self)@.filter(other_than(card)),
    {
        let ghost pred: spec_fn(Card) -> bool = other_than(card);
        let mut kept: Vec<Card> = Vec::new();
        let mut i: usize = 0;
        while i < self.cards.len()
            invariant
                i <= self@.len(),
                self@ == old(self)@,
                kept@ == self@.take(i as int).filter(pred),
                pred == other_than(card),
            decreases self@.len() - i,
        {
            let c = self.cards[i];
            proof {
                assert(self@.take(i + 1) =~= self@.take(i as int).push(c));
                self@.take(i as int).lemma_filter_push(c, pred);
            }
            if c != card {
                kept.push(c);
            }
            i = i + 1;
        }
        assert(self@.take(self@.len() as int) =~= self@);
        self.cards = kept;
    }

    /// Removes every occurrence of each of `cards` from the pile.
    pub fn remove_all(&mut self, cards: &[Card])
        ensures final(self)@ == old(self)@.filter(|c: Card| not_in(cards@, c)),
    {
        let ghost pred: spec_fn(Card) -> bool = |x: Card| not_in(cards@, x);
        let mut kept: Vec<Card> = Vec::new();
        let mut i: usize = 0;
        while i < self.cards.len()
            invariant
                i <= self@.len(),
                self@ == old(self)@,
                kept@ == self@.take(i as int).filter(pred),
                pred == (|x: Card| not_in(cards@, x)),
            decreases self@.len() - i,
        {
            let c = self.cards[i];
            proof {
                assert(self@.take(i + 1) =~= self@.take(i as int).push(c));
                self@.take(i as int).lemma_filter_push(c, pred);
            }
            if !slice_contains(cards, c) {
                kept.push(c);
            }
            i = i + 1;
        }
        assert(self@.take(self@.len() as int) =~= self@);
        self.cards = kept;
    }
}

impl Default for Pile<HandType> {
    fn default() -> (p: Self)
        ensures p@ == Seq::<Card>::empty(),
    {
        Pile::new()
    }
}

impl Default for Pile<CribType> {
    fn default() -> (p: Self)
        ensures p@ == Seq::<Card>::empty(),
    {
        Pile::new()
    }
}

} // verus!
