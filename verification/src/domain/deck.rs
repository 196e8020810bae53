use vstd::prelude::*;

use crate::domain::cards::{Card, Face, Suit};
use crate::domain::pile::{DeckType, Hand, Pile};
use crate::domain::plays::Hands;
use crate::ids::random_below;

verus! {

broadcast use vstd::seq_lib::group_seq_properties;

/// The number of cards in the standard pack.
pub const STANDARD_DECK_SIZE: usize = 52;

/// The number of cards dealt to each player.
pub const CARDS_DEALT_PER_HAND: usize = 6;

/// The number of cards each player discards to the crib.
pub const CARDS_DISCARDED_TO_CRIB: usize = 2;

/// The number of cards each player keeps after discarding.
pub const CARDS_KEPT_PER_HAND: usize = 4;

/// The deck of cards from which cuts are made and hands dealt.
pub type Deck = Pile<DeckType>;

/// The face of rank `i + 1`, for `i` below 13.
pub open spec fn face_at(i: int) -> Face {
    if i == 0 { Face::Ace }
    else if i == 1 { Face::Two }
    else if i == 2 { Face::Three }
    else if i == 3 { Face::Four }
    else if i == 4 { Face::Five }
    else if i == 5 { Face::Six }
    else if i == 6 { Face::Seven }
    else if i == 7 { Face::Eight }
    else if i == 8 { Face::Nine }
    else if i == 9 { Face::Ten }
    else if i == 10 { Face::Jack }
    else if i == 11 { Face::Queen }
    else { Face::King }
}

/// The suit in position `i` of the pack's order hearts, clubs, diamonds, spades.
pub open spec fn suit_at(i: int) -> Suit {
    if i == 0 { Suit::Hearts }
    else if i == 1 { Suit::Clubs }
    else if i == 2 { Suit::Diamonds }
    else { Suit::Spades }
}

/// The standard 52-card pack in order: each suit in turn, ace to king.
pub open spec fn standard_pack() -> Seq<Card> {
    Seq::new(52, |i: int| Card { face: face_at(i % 13), suit: suit_at(i / 13) })
}

fn face_of(i: usize) -> (f: Face)
    requires i < 13,
    ensures f == face_at(i as int),
{
    if i == 0 { Face::Ace }
    else if i == 1 { Face::Two }
    else if i == 2 { Face::Three }
    else if i == 3 { Face::Four }
    else if i == 4 { Face::Five }
    else if i == 5 { Face::Six }
    else if i == 6 { Face::Seven }
    else if i == 7 { Face::Eight }
    else if i == 8 { Face::Nine }
    else if i == 9 { Face::Ten }
    else if i == 10 { Face::Jack }
    else if i == 11 { Face::Queen }
    else { Face::King }
}

fn suit_of(i: usize) -> (s: Suit)
    requires i < 4,
    ensures s == suit_at(i as int),
{
    if i == 0 { Suit::Hearts }
    else if i == 1 { Suit::Clubs }
    else if i == 2 { Suit::Diamonds }
    else { Suit::Spades }
}

/// Swapping two cards keeps the same cards.
proof fn lemma_swap_keeps_cards(s: Seq<Card>, i: int, j: int)
    requires
        0 <= i < s.len(),
        0 <= j < s.len(),
    ensures
        s.update(i, s[j]).update(j, s[i]).to_multiset() =~= s.to_multiset(),
{
    broadcast use vstd::seq_lib::to_multiset_update;
    broadcast use vstd::multiset::group_multiset_axioms;
    let s1 = s.update(i, s[j]);
    if i == j {
        assert(s.update(i, s[j]).update(j, s[i]) =~= s);
    } else {
        assert(s1[j] == s[j]);
        assert(s1.update(j, s[i]).to_multiset() == s1.to_multiset().insert(s[i]).remove(s[j]));
        assert(s1.to_multiset() == s.to_multiset().insert(s[j]).remove(s[i]));
        assert(s.to_multiset().insert(s[j]).remove(s[i]).insert(s[i]).remove(s[j]) =~= s.to_multiset());
    }
}

/// Distinct positions below 13 have distinct faces.
proof fn lemma_face_at_injective(a: int, b: int)
    requires
        0 <= a < 13,
        0 <= b < 13,
        face_at(a) == face_at(b),
    ensures
        a == b,
{
}

/// Distinct positions below 4 have distinct suits.
proof fn lemma_suit_at_injective(a: int, b: int)
    requires
        0 <= a < 4,
        0 <= b < 4,
        suit_at(a) == suit_at(b),
    ensures
        a == b,
{
}

/// The standard pack holds 52 cards, no card twice.
pub proof fn law_standard_pack_distinct()
    ensures
        standard_pack().len() == STANDARD_DECK_SIZE,
        standard_pack().no_duplicates(),
{
    let p = standard_pack();
    assert forall|i: int, j: int| 0 <= i < p.len() && 0 <= j < p.len() && i != j implies p[i] != p[j] by {
        if p[i] == p[j] {
            lemma_face_at_injective(i % 13, j % 13);
            lemma_suit_at_injective(i / 13, j / 13);
            assert(i == 13 * (i / 13) + i % 13);
            assert(j == 13 * (j / 13) + j % 13);
        }
    }
}

impl Pile<DeckType> {
    /// The standard 52-card pack in order: each suit in turn, ace to king.
    pub fn standard_pack() -> (d: Deck)
        ensures d@ == standard_pack(),
    {
        let mut cards: Vec<Card> = Vec::new();
        let mut s: usize = 0;
        while s < 4
            invariant
                s <= 4,
                cards@.len() == 13 * s,
                forall|k: int| 0 <= k < cards@.len() ==> #[trigger] cards@[k] == standard_pack()[k],
            decreases 4 - s,
        {
            let mut f: usize = 0;
            while f < 13
                invariant
                    s < 4,
                    f <= 13,
                    cards@.len() == 13 * s + f,
                    forall|k: int| 0 <= k < cards@.len() ==> #[trigger] cards@[k] == standard_pack()[k],
                decreases 13 - f,
            {
                proof {
                    let k = 13 * s + f;
                    assert(k % 13 == f as int) by (nonlinear_arith) requires k == 13 * s + f, f < 13;
                    assert(k / 13 == s as int) by (nonlinear_arith) requires k == 13 * s + f, f < 13;
                }
                cards.push(Card { face: face_of(f), suit: suit_of(s) });
                f = f + 1;
            }
            s = s + 1;
        }
        assert(cards@ =~= standard_pack());
        Pile::from_cards(cards)
    }

    /// A freshly shuffled standard pack: some ordering of the 52 cards,
    /// chosen at random.
    pub fn shuffled_pack() -> (d: Deck)
        ensures
            d@.len() == STANDARD_DECK_SIZE,
            d@.to_multiset() == standard_pack().to_multiset(),
    {
        let pack = Self::standard_pack();
        let mut cards = crate::domain::scoring::copy_cards(pack.as_slice());
        let n = cards.len();
        let mut i: usize = n;
        while i > 1
            invariant
                i <= n,
                n == 52,
                cards@.len() == n,
                cards@.to_multiset() == standard_pack().to_multiset(),
            decreases i,
        {
            let j = random_below(i);
            let k = i - 1;
            let a = cards[k];
            let b = cards[j];
            proof {
                lemma_swap_keeps_cards(cards@, k as int, j as int);
            }
            cards.set(k, b);
            cards.set(j, a);
            i = i - 1;
        }
        Pile::from_cards(cards)
    }

    /// Cuts the deck: one of its cards, chosen at random.
    pub fn cut(&self) -> (c: Card)
        requires
            self@.len() > 0,
        ensures
            self@.contains(c),
    {
        let i = random_below(self.len());
        let c = self.as_slice()[i];
        assert(self@[i as int] == c);
        c
    }

    /// The card that a cut with the random number `seed` takes: the card at
    /// position `seed` modulo the size of the deck.
    pub open spec fn spec_cut_at(self, seed: u128) -> Card {
        self@[(seed % (self@.len() as u128)) as int]
    }

    /// Cuts the deck at the position that `seed` names: `seed` modulo the
    /// size of the deck.
    pub fn cut_at(&self, seed: u128) -> (c: Card)
        requires
            self@.len() > 0,
        ensures
            c == self.spec_cut_at(seed),
            self@.contains(c),
    {
        let n = self.len() as u128;
        let i = (seed % n) as usize;
        self.as_slice()[i]
    }

    /// Deals six cards to each player from the top of the deck: the first six
    /// to the host, the next six to the guest. The dealt cards leave the deck.
    pub fn deal(&mut self) -> (hands: Hands)
        requires
            old(self)@.len() >= 2 * CARDS_DEALT_PER_HAND,
        ensures
            hands[0]@ == old(self)@.subrange(0, 6),
            hands[1]@ == old(self)@.subrange(6, 12),
            final(self)@ == old(self)@.skip(12),
    {
        let cards = self.as_slice();
        let (first, rest) = cards.split_at(6);
        let (second, rest) = rest.split_at(6);
        let h0 = Hand::from_slice(first);
        let h1 = Hand::from_slice(second);
        let remaining = Pile::from_slice(rest);
        assert(h0@ =~= old(self)@.subrange(0, 6));
        assert(h1@ =~= old(self)@.subrange(6, 12));
        assert(remaining@ =~= old(self)@.skip(12));
        *self = remaining;
        [h0, h1]
    }
}

impl Default for Pile<DeckType> {
    /// The standard pack in order.
    fn default() -> (d: Deck)
        ensures d@ == standard_pack(),
    {
        Pile::standard_pack()
    }
}

} // verus!
