use vstd::prelude::*;
use vstd::string::*;

use crate::domain::cards::Card;
use crate::domain::deck::{standard_pack, Deck};
use crate::domain::pile::{not_in, other_than, pile_text, Crib, Hand, Pile};
use crate::domain::players::{roles_from_cuts, Dealer, Pending, Player, Pone, Roles, PLAYER0, PLAYER1};
use crate::domain::plays::{GoStatus, Hands, PlayState, PlayStateView};
use crate::domain::scoreboard::{HasScoreboard, Scoreboard, ScoreboardView};
use crate::domain::scoring::{HasPegging, Pegging, PeggingView};

verus! {

broadcast use vstd::seq_lib::group_seq_properties;

/// The two cards cut by the players to decide who deals first, host's then
/// guest's; `None` while that player has not cut.
pub type CutsForDeal = [Option<Card>; 2];

/// The card cut after the discards: the starter.
pub type StarterCut = Card;

/// The cards of both hands, host's then guest's.
pub open spec fn hands_view(hands: Hands) -> (Seq<Card>, Seq<Card>) {
    (hands@[0]@, hands@[1]@)
}

// ---------------------------------------------------------------------------
// Views of the states.
// ---------------------------------------------------------------------------

/// The mathematical value of a `Starting` state.
pub struct StartingView {
    pub cuts: (Option<Card>, Option<Card>),
    pub deck: Seq<Card>,
    pub pending: Pending,
}

/// The mathematical value of a `Discarding` state.
pub struct DiscardingView {
    pub scoreboard: ScoreboardView,
    pub roles: Roles,
    pub hands: (Seq<Card>, Seq<Card>),
    pub crib: Seq<Card>,
    pub deck: Seq<Card>,
    pub pending: Pending,
}

/// The mathematical value of a `Playing` state.
pub struct PlayingView {
    pub scoreboard: ScoreboardView,
    pub roles: Roles,
    pub hands: (Seq<Card>, Seq<Card>),
    pub play_state: PlayStateView,
    pub crib: Seq<Card>,
    pub starter_cut: Card,
    pub pending: Pending,
}

/// The mathematical value of a scoring state.
pub struct ScoringView {
    pub scoreboard: ScoreboardView,
    pub roles: Roles,
    pub hands: (Seq<Card>, Seq<Card>),
    pub crib: Seq<Card>,
    pub starter_cut: Card,
    pub pegging: PeggingView,
    pub pending: Pending,
}

/// The mathematical value of a `Finished` state.
pub struct FinishedView {
    pub winner: Player,
    pub scoreboard: ScoreboardView,
    pub roles: Roles,
    pub hands: (Seq<Card>, Seq<Card>),
    pub crib: Seq<Card>,
    pub starter_cut: Card,
}

/// The mathematical value of a `State`.
pub enum StateView {
    Starting(StartingView),
    Discarding(DiscardingView),
    Playing(PlayingView),
    ScoringPone(ScoringView),
    ScoringDealer(ScoringView),
    ScoringCrib(ScoringView),
    Finished(FinishedView),
}

/// The finished game, with the board's winner and the state's cards.
pub open spec fn finished_view(
    winner: Player,
    scoreboard: ScoreboardView,
    roles: Roles,
    hands: (Seq<Card>, Seq<Card>),
    crib: Seq<Card>,
    starter_cut: Card,
) -> StateView {
    StateView::Finished(FinishedView { winner, scoreboard, roles, hands, crib, starter_cut })
}

impl StartingView {
    /// The state in which a game starts: no cuts, the standard pack, and both
    /// players awaited.
    pub open spec fn initial() -> StartingView {
        StartingView { cuts: (None, None), deck: standard_pack(), pending: Pending::spec_new() }
    }

    /// The player has cut `cut` for deal; it leaves the deck.
    pub open spec fn cut_made(self, player: Player, cut: Card) -> StartingView {
        StartingView { cuts: player.put(self.cuts, Some(cut)), deck: self.deck.filter(other_than(cut)), ..self }
    }

    /// The player has acknowledged the cuts.
    pub open spec fn acknowledged(self, player: Player) -> StartingView {
        StartingView { pending: self.pending.spec_acknowledged(player), ..self }
    }
}

impl DiscardingView {
    /// A round about to be dealt: the given board and roles, empty hands and
    /// crib, the standard pack, and both players awaited.
    pub open spec fn new_round(scoreboard: ScoreboardView, roles: Roles) -> DiscardingView {
        DiscardingView {
            scoreboard,
            roles,
            hands: (Seq::empty(), Seq::empty()),
            crib: Seq::empty(),
            deck: standard_pack(),
            pending: Pending::spec_new(),
        }
    }

    /// The player has been dealt `hand`; its cards leave the deck.
    pub open spec fn dealt(self, player: Player, hand: Seq<Card>) -> DiscardingView {
        DiscardingView {
            hands: player.put(self.hands, hand),
            deck: self.deck.filter(|c: Card| not_in(hand, c)),
            ..self
        }
    }

    /// The player has laid `cards` away to the crib.
    pub open spec fn discarded(self, player: Player, cards: Seq<Card>) -> DiscardingView {
        DiscardingView {
            hands: player.put(self.hands, player.pick(self.hands).filter(|c: Card| not_in(cards, c))),
            crib: self.crib + cards,
            pending: self.pending.spec_acknowledged(player),
            ..self
        }
    }

    /// The starter has been turned and `pegging` (his heels) pegged: the play
    /// begins with the pone to lead, unless the pegging won the game.
    pub open spec fn starter_selected(self, cut: Card, pegging: PeggingView) -> StateView {
        let scoreboard = self.scoreboard.pegged(pegging);
        let play_state = PlayStateView {
            next_to_play: self.roles.spec_dealer().spec_opponent(),
            pending: self.hands,
            go_status: GoStatus::NotCalled,
            current: Seq::empty(),
            previous: Seq::empty(),
        };
        match scoreboard.winner() {
            Some(w) => finished_view(w, scoreboard, self.roles, self.hands, self.crib, cut),
            None => StateView::Playing(PlayingView {
                scoreboard,
                roles: self.roles,
                hands: self.hands,
                play_state,
                crib: self.crib,
                starter_cut: cut,
                pending: Pending::spec_new(),
            }),
        }
    }
}

impl PlayingView {
    /// The playing state, or the finished game when the board has a winner.
    pub open spec fn or_finished(self) -> StateView {
        match self.scoreboard.winner() {
            Some(w) => finished_view(w, self.scoreboard, self.roles, self.hands, self.crib, self.starter_cut),
            None => StateView::Playing(self),
        }
    }

    /// The next player has laid `card` and `pegging` was pegged.
    pub open spec fn card_played(self, card: Card, pegging: PeggingView) -> StateView {
        let player = self.play_state.next_to_play;
        PlayingView {
            hands: player.put(self.hands, player.pick(self.hands).filter(other_than(card))),
            play_state: self.play_state.after_play(card),
            scoreboard: self.scoreboard.pegged(pegging),
            ..self
        }.or_finished()
    }

    /// The next player has called go and `pegging` was pegged.
    pub open spec fn go_called(self, pegging: PeggingView) -> StateView {
        PlayingView {
            play_state: self.play_state.after_go(),
            scoreboard: self.scoreboard.pegged(pegging),
            ..self
        }.or_finished()
    }

    /// The player has acknowledged the end of the play; once both have, the
    /// pone's hand (`pegging`) is pegged and its scoring shown.
    pub open spec fn pone_scored(self, player: Player, pegging: PeggingView) -> StateView {
        let pending = self.pending.spec_acknowledged(player);
        if !self.pending.spec_waiting_on(player.spec_opponent()) {
            ScoringView {
                scoreboard: self.scoreboard.pegged(pegging),
                roles: self.roles,
                hands: (self.play_state.regathered(PLAYER0), self.play_state.regathered(PLAYER1)),
                crib: self.crib,
                starter_cut: self.starter_cut,
                pegging,
                pending: Pending::spec_new(),
            }.pone_or_finished()
        } else {
            StateView::Playing(PlayingView { pending, ..self })
        }
    }
}

impl ScoringView {
    /// The board has a winner: the finished game.
    pub open spec fn finished(self, winner: Player) -> StateView {
        finished_view(winner, self.scoreboard, self.roles, self.hands, self.crib, self.starter_cut)
    }

    /// The pone's scoring, or the finished game when the board has a winner.
    pub open spec fn pone_or_finished(self) -> StateView {
        match self.scoreboard.winner() {
            Some(w) => self.finished(w),
            None => StateView::ScoringPone(self),
        }
    }

    /// The dealer's scoring, or the finished game when the board has a winner.
    pub open spec fn dealer_or_finished(self) -> StateView {
        match self.scoreboard.winner() {
            Some(w) => self.finished(w),
            None => StateView::ScoringDealer(self),
        }
    }

    /// The crib's scoring, or the finished game when the board has a winner.
    pub open spec fn crib_or_finished(self) -> StateView {
        match self.scoreboard.winner() {
            Some(w) => self.finished(w),
            None => StateView::ScoringCrib(self),
        }
    }

    /// The player has acknowledged the pone's score; once both have, the
    /// dealer's hand (`pegging`) is pegged and its scoring shown.
    pub open spec fn dealer_scored(self, player: Player, pegging: PeggingView) -> StateView {
        if !self.pending.spec_waiting_on(player.spec_opponent()) {
            ScoringView {
                scoreboard: self.scoreboard.pegged(pegging),
                pegging,
                pending: Pending::spec_new(),
                ..self
            }.dealer_or_finished()
        } else {
            StateView::ScoringPone(ScoringView { pending: self.pending.spec_acknowledged(player), ..self })
        }
    }

    /// The player has acknowledged the dealer's score; once both have, the
    /// crib (`pegging`) is pegged and its scoring shown.
    pub open spec fn crib_scored(self, player: Player, pegging: PeggingView) -> StateView {
        if !self.pending.spec_waiting_on(player.spec_opponent()) {
            ScoringView {
                scoreboard: self.scoreboard.pegged(pegging),
                pegging,
                pending: Pending::spec_new(),
                ..self
            }.crib_or_finished()
        } else {
            StateView::ScoringDealer(ScoringView { pending: self.pending.spec_acknowledged(player), ..self })
        }
    }

    /// The player has acknowledged the crib's score; once both have, the next
    /// round begins with the roles swapped.
    pub open spec fn next_round_started(self, player: Player) -> StateView {
        if !self.pending.spec_waiting_on(player.spec_opponent()) {
            StateView::Discarding(DiscardingView::new_round(
                self.scoreboard,
                Roles::spec_new(self.roles.spec_dealer().spec_opponent()),
            ))
        } else {
            StateView::ScoringCrib(ScoringView { pending: self.pending.spec_acknowledged(player), ..self })
        }
    }
}

// ---------------------------------------------------------------------------
// The states as text.
// ---------------------------------------------------------------------------

/// The text of a cut for deal: the card, or `--` while the player has not cut.
pub open spec fn cut_text(cut: Option<Card>) -> Seq<char> {
    match cut {
        Some(c) => c.spec_text(),
        None => "--"@,
    }
}

/// The text of both hands, host's first, e.g. `Hand(AH, 2H), Hand(AC, 2C)`.
pub open spec fn hands_text(hands: (Seq<Card>, Seq<Card>)) -> Seq<char> {
    pile_text("Hand"@, hands.0) + ", "@ + pile_text("Hand"@, hands.1)
}

impl StartingView {
    /// The state's text: the cuts, the deck and who is awaited, a part on
    /// each line.
    pub open spec fn text(self) -> Seq<char> {
        "Starting(\n    cuts: "@ + cut_text(self.cuts.0) + ", "@ + cut_text(self.cuts.1)
            + "\n    deck: "@ + pile_text("Deck"@, self.deck)
            + "\n    pending: "@ + self.pending.spec_text()
            + "\n)"@
    }
}

impl DiscardingView {
    /// The state's text: board, roles, hands, crib, deck and who is awaited,
    /// a part on each line.
    pub open spec fn text(self) -> Seq<char> {
        "Discarding(\n    scoreboard: "@ + self.scoreboard.text()
            + "\n    roles: "@ + self.roles.spec_text()
            + "\n    hands: "@ + hands_text(self.hands)
            + "\n    crib: "@ + pile_text("Crib"@, self.crib)
            + "\n    deck: "@ + pile_text("Deck"@, self.deck)
            + "\n    pending: "@ + self.pending.spec_text()
            + "\n)"@
    }
}

impl PlayingView {
    /// The state's text: board, roles, hands, the play, the starter, crib and
    /// who is awaited, a part on each line.
    pub open spec fn text(self) -> Seq<char> {
        "Playing(\n    scoreboard: "@ + self.scoreboard.text()
            + ",\n    roles: "@ + self.roles.spec_text()
            + ",\n    hands: "@ + hands_text(self.hands)
            + ",\n    play_state: "@ + self.play_state.text()
            + ",\n    cut: "@ + self.starter_cut.spec_text()
            + ",\n    crib: "@ + pile_text("Crib"@, self.crib)
            + ",\n    pending: "@ + self.pending.spec_text()
            + "\n)"@
    }
}

impl ScoringView {
    /// The state's text, for the scoring of `name` (`Pone`, `Dealer` or
    /// `Crib`): board, roles, hands, the starter, crib, the pegging shown and
    /// who is awaited, a part on each line.
    pub open spec fn text(self, name: Seq<char>) -> Seq<char> {
        "Scoring"@ + name + "(\n    scoreboard: "@ + self.scoreboard.text()
            + ",\n    roles: "@ + self.roles.spec_text()
            + ",\n    hands: "@ + hands_text(self.hands)
            + ",\n    cut: "@ + self.starter_cut.spec_text()
            + ",\n    crib: "@ + pile_text("Crib"@, self.crib)
            + ",\n    pegging: "@ + self.pegging.text()
            + ",\n    pending: "@ + self.pending.spec_text()
            + "\n)"@
    }
}

impl FinishedView {
    /// The state's text: winner, board, roles, hands, crib and the starter,
    /// a part on each line.
    pub open spec fn text(self) -> Seq<char> {
        "Finished(\n    winner: "@ + self.winner.spec_text()
            + ",\n    scoreboard: "@ + self.scoreboard.text()
            + ",\n    roles: "@ + self.roles.spec_text()
            + ",\n    hands: "@ + hands_text(self.hands)
            + ",\n    crib: "@ + pile_text("Crib"@, self.crib)
            + ",\n    cut: "@ + self.starter_cut.spec_text()
            + "\n)"@
    }
}

/// Writes both hands as text, host's first.
fn hands_to_string(hands: &Hands) -> (s: String)
    ensures s@ == hands_text(hands_view(*hands)),
{
    let mut s = hands[0].to_string();
    s.append(", ");
    s.append(hands[1].to_string().as_str());
    proof {
        reveal_strlit(", ");
    }
    s
}

/// Writes a cut for deal as text: the card, or `--` while not cut.
fn cut_to_string(cut: Option<Card>) -> (s: String)
    ensures s@ == cut_text(cut),
{
    match cut {
        Some(c) => c.to_string(),
        None => {
            proof {
                reveal_strlit("--");
            }
            String::from_str("--")
        },
    }
}

// ---------------------------------------------------------------------------
// The states.
// ---------------------------------------------------------------------------

/// The game is being created: players are joining and cutting for the first
/// dealer. `cuts_for_deal` entries are `None` until the player has cut;
/// `pending` reflects the players' acknowledgements of the cuts.
#[derive(Debug, PartialEq, Eq)]
pub struct Starting {
    cuts_for_deal: CutsForDeal,
    deck: Deck,
    pending: Pending,
}

impl View for Starting {
    type V = StartingView;

    closed spec fn view(&self) -> StartingView {
        StartingView {
            cuts: (self.cuts_for_deal@[0], self.cuts_for_deal@[1]),
            deck: self.deck@,
            pending: self.pending,
        }
    }
}

impl Starting {
    /// Writes the state as text: the cuts, the deck and who is awaited.
    pub fn to_string(&self) -> (s: String)
        ensures s@ == self@.text(),
    {
        let mut s = String::from_str("Starting(\n    cuts: ");
        s.append(cut_to_string(self.cuts_for_deal[0]).as_str());
        s.append(", ");
        s.append(cut_to_string(self.cuts_for_deal[1]).as_str());
        s.append("\n    deck: ");
        s.append(self.deck.to_string().as_str());
        s.append("\n    pending: ");
        s.append(self.pending.to_string().as_str());
        s.append("\n)");
        proof {
            reveal_strlit("Starting(\n    cuts: ");
            reveal_strlit(", ");
            reveal_strlit("\n    deck: ");
            reveal_strlit("\n    pending: ");
            reveal_strlit("\n)");
            reveal_strlit("Deck");
        }
        s
    }

    /// Creates a starting state with the given cuts, deck and pending
    /// acknowledgements.
    pub fn new(cuts_for_deal: CutsForDeal, deck: Deck, pending: Pending) -> (s: Starting)
        ensures
            s@ == (StartingView {
                cuts: (cuts_for_deal@[0], cuts_for_deal@[1]),
                deck: deck@,
                pending,
            }),
    {
        Starting { cuts_for_deal, deck, pending }
    }

    /// The state in which a game starts: no cuts, the standard pack, both
    /// players awaited.
    pub fn initial() -> (s: Starting)
        ensures s@ == StartingView::initial(),
    {
        Starting { cuts_for_deal: [None, None], deck: Deck::standard_pack(), pending: Pending::new() }
    }

    /// Returns a copy of the state.
    pub fn duplicate(&self) -> (s: Starting)
        ensures s@ == self@,
    {
        Starting {
            cuts_for_deal: [self.cuts_for_deal[0], self.cuts_for_deal[1]],
            deck: self.deck.duplicate(),
            pending: self.pending,
        }
    }

    /// Both cuts for deal, host's then guest's.
    pub fn cuts_for_deal(&self) -> (c: &CutsForDeal)
        ensures (c@[0], c@[1]) == self@.cuts,
    {
        &self.cuts_for_deal
    }

    /// The card cut by the given player, if any.
    pub fn cut_for_deal(&self, player: Player) -> (c: Option<Card>)
        ensures c == player.pick(self@.cuts),
    {
        self.cuts_for_deal[player.index()]
    }

    /// The card cut by the given player, if any.
    pub fn cut(&self, player: Player) -> (c: Option<Card>)
        ensures c == player.pick(self@.cuts),
    {
        self.cuts_for_deal[player.index()]
    }

    /// Takes the state apart: the cuts, the deck and the pending
    /// acknowledgements.
    pub fn into_parts(self) -> (parts: (CutsForDeal, Deck, Pending))
        ensures
            (parts.0@[0], parts.0@[1]) == self@.cuts,
            parts.1@ == self@.deck,
            parts.2 == self@.pending,
    {
        (self.cuts_for_deal, self.deck, self.pending)
    }

    /// The deck.
    pub fn deck(&self) -> (d: &Deck)
        ensures d@ == self@.deck,
    {
        &self.deck
    }

    /// The pending acknowledgements.
    pub fn pending(&self) -> (p: Pending)
        ensures p == self@.pending,
    {
        self.pending
    }

    /// The roles decided by the cuts: see `Roles::from_cuts`.
    pub fn roles(&self) -> (r: Option<Roles>)
        ensures
            r == roles_from_cuts(self@.cuts),
    {
        Roles::from_cuts(&self.cuts_for_deal)
    }

    /// Records the player's cut; the card leaves the deck.
    pub fn set_cut(&mut self, player: Player, cut: Card)
        ensures final(self)@ == old(self)@.cut_made(player, cut),
    {
        self.cuts_for_deal[player.index()] = Some(cut);
        self.deck.remove(cut);
        assert(final(self)@.cuts == old(self)@.cut_made(player, cut).cuts);
    }

    /// Records the player's acknowledgement of the cuts.
    pub fn set_acknowledged(&mut self, player: Player)
        ensures final(self)@ == old(self)@.acknowledged(player),
    {
        let _ = self.pending.acknowledge(player);
    }
}

impl Default for Starting {
    fn default() -> (s: Starting)
        ensures s@ == StartingView::initial(),
    {
        Starting::initial()
    }
}

/// Players discard two cards each to form the crib. This phase follows the
/// decision of the roles (or a new round) and the deal.
#[derive(Debug, PartialEq, Eq)]
pub struct Discarding {
    scoreboard: Scoreboard,
    roles: Roles,
    hands: Hands,
    crib: Crib,
    deck: Deck,
    pending: Pending,
}

impl View for Discarding {
    type V = DiscardingView;

    closed spec fn view(&self) -> DiscardingView {
        DiscardingView {
            scoreboard: self.scoreboard@,
            roles: self.roles,
            hands: hands_view(self.hands),
            crib: self.crib@,
            deck: self.deck@,
            pending: self.pending,
        }
    }
}

impl Discarding {
    /// Writes the state as text: board, roles, hands, crib, deck and who
    /// is awaited.
    pub fn to_string(&self) -> (s: String)
        ensures s@ == self@.text(),
    {
        let mut s = String::from_str("Discarding(\n    scoreboard: ");
        s.append(self.scoreboard.to_string().as_str());
        s.append("\n    roles: ");
        s.append(self.roles.to_string().as_str());
        s.append("\n    hands: ");
        s.append(hands_to_string(&self.hands).as_str());
        s.append("\n    crib: ");
        s.append(self.crib.to_string().as_str());
        s.append("\n    deck: ");
        s.append(self.deck.to_string().as_str());
        s.append("\n    pending: ");
        s.append(self.pending.to_string().as_str());
        s.append("\n)");
        proof {
            reveal_strlit("Discarding(\n    scoreboard: ");
            reveal_strlit("\n    roles: ");
            reveal_strlit("\n    hands: ");
            reveal_strlit("\n    crib: ");
            reveal_strlit("\n    deck: ");
            reveal_strlit("\n    pending: ");
            reveal_strlit("\n)");
            reveal_strlit("Deck");
            reveal_strlit("Crib");
        }
        s
    }

    /// Creates a discarding state from its parts.
    pub fn new(scoreboard: Scoreboard, roles: Roles, hands: Hands, crib: Crib, deck: Deck, pending: Pending) -> (s: Discarding)
        ensures
            s@ == (DiscardingView {
                scoreboard: scoreboard@,
                roles,
                hands: hands_view(hands),
                crib: crib@,
                deck: deck@,
                pending,
            }),
    {
        Discarding { scoreboard, roles, hands, crib, deck, pending }
    }

    /// A round about to be dealt: the given board and roles, empty hands and
    /// crib, the standard pack, and both players awaited.
    pub fn new_round(scoreboard: Scoreboard, roles: Roles) -> (s: Discarding)
        ensures s@ == DiscardingView::new_round(scoreboard@, roles),
    {
        let s = Discarding {
            scoreboard,
            roles,
            hands: [Hand::new(), Hand::new()],
            crib: Crib::new(),
            deck: Deck::standard_pack(),
            pending: Pending::new(),
        };
        assert(s@.hands == (Seq::<Card>::empty(), Seq::<Card>::empty()));
        s
    }

    /// The scoreboard.
    pub fn scoreboard(&self) -> (s: &Scoreboard)
        ensures s@ == self@.scoreboard,
    {
        &self.scoreboard
    }

    /// The roles.
    pub fn roles(&self) -> (r: Roles)
        ensures r == self@.roles,
    {
        self.roles
    }

    /// The dealer.
    pub fn dealer(&self) -> (d: Dealer)
        ensures d == Dealer(self@.roles.spec_dealer()),
    {
        self.roles.dealer()
    }

    /// The pone.
    pub fn pone(&self) -> (p: Pone)
        ensures p == Pone(self@.roles.spec_dealer().spec_opponent()),
    {
        self.roles.pone()
    }

    /// Both hands.
    pub fn hands(&self) -> (h: &Hands)
        ensures hands_view(*h) == self@.hands,
    {
        &self.hands
    }

    /// The player's hand.
    pub fn hand(&self, player: Player) -> (h: &Hand)
        ensures h@ == player.pick(self@.hands),
    {
        &self.hands[player.index()]
    }

    /// The crib.
    pub fn crib(&self) -> (c: &Crib)
        ensures c@ == self@.crib,
    {
        &self.crib
    }

    /// The deck.
    pub fn deck(&self) -> (d: &Deck)
        ensures d@ == self@.deck,
    {
        &self.deck
    }

    /// The pending discards.
    pub fn pending(&self) -> (p: Pending)
        ensures p == self@.pending,
    {
        self.pending
    }

    /// Gives the player `hand`; its cards leave the deck.
    pub fn deal_hand(&mut self, player: Player, hand: &Hand)
        ensures final(self)@ == old(self)@.dealt(player, hand@),
    {
        self.hands[player.index()] = hand.duplicate();
        self.deck.remove_all(hand.as_slice());
        assert(final(self)@.hands == old(self)@.dealt(player, hand@).hands);
        assert(final(self)@.deck =~= old(self)@.dealt(player, hand@).deck);
    }

    /// Moves the player's discards from their hand to the crib, and records
    /// that the player has discarded.
    pub fn discard_cards_to_crib(&mut self, player: Player, discards: &[Card])
        ensures final(self)@ == old(self)@.discarded(player, discards@),
    {
        let i = player.index();
        let mut hand = self.hands[i].duplicate();
        hand.remove_all(discards);
        self.hands[i] = hand;
        self.crib.add_all(discards);
        let _ = self.pending.acknowledge(player);
        assert(final(self)@.hands == old(self)@.discarded(player, discards@).hands);
    }

    /// The starter has been turned and `pegging` (his heels) is pegged: the
    /// play begins with the pone to lead, unless the game is won.
    pub fn select_starter(self, cut: Card, pegging: &Pegging) -> (s: State)
        requires
            self@.scoreboard.peg_fits(pegging@),
        ensures
            s@ == self@.starter_selected(cut, pegging@),
    {
        let mut this = self;
        let _ = this.scoreboard.peg(pegging);
        let pone = this.roles.pone().player();
        let play_state = PlayState::new(pone)
            .with_pending_plays(PLAYER0, this.hands[0].as_slice())
            .with_pending_plays(PLAYER1, this.hands[1].as_slice());
        let playing = Playing {
            scoreboard: this.scoreboard,
            roles: this.roles,
            hands: this.hands,
            play_state,
            crib: this.crib,
            starter_cut: cut,
            pending: Pending::new(),
        };
        assert(playing@.play_state.pending == playing@.hands);
        playing.wrap_or_finished()
    }
}

/// Players alternately lay cards and peg (the play).
#[derive(Debug, PartialEq, Eq)]
pub struct Playing {
    scoreboard: Scoreboard,
    roles: Roles,
    hands: Hands,
    play_state: PlayState,
    crib: Crib,
    starter_cut: StarterCut,
    pending: Pending,
}

impl View for Playing {
    type V = PlayingView;

    closed spec fn view(&self) -> PlayingView {
        PlayingView {
            scoreboard: self.scoreboard@,
            roles: self.roles,
            hands: hands_view(self.hands),
            play_state: self.play_state@,
            crib: self.crib@,
            starter_cut: self.starter_cut,
            pending: self.pending,
        }
    }
}

impl Playing {
    /// Writes the state as text: board, roles, hands, the play, the starter,
    /// crib and who is awaited.
    pub fn to_string(&self) -> (s: String)
        ensures s@ == self@.text(),
    {
        let mut s = String::from_str("Playing(\n    scoreboard: ");
        s.append(self.scoreboard.to_string().as_str());
        s.append(",\n    roles: ");
        s.append(self.roles.to_string().as_str());
        s.append(",\n    hands: ");
        s.append(hands_to_string(&self.hands).as_str());
        s.append(",\n    play_state: ");
        s.append(self.play_state.to_string().as_str());
        s.append(",\n    cut: ");
        s.append(self.starter_cut.to_string().as_str());
        s.append(",\n    crib: ");
        s.append(self.crib.to_string().as_str());
        s.append(",\n    pending: ");
        s.append(self.pending.to_string().as_str());
        s.append("\n)");
        proof {
            reveal_strlit("Playing(\n    scoreboard: ");
            reveal_strlit(",\n    roles: ");
            reveal_strlit(",\n    hands: ");
            reveal_strlit(",\n    play_state: ");
            reveal_strlit(",\n    cut: ");
            reveal_strlit(",\n    crib: ");
            reveal_strlit(",\n    pending: ");
            reveal_strlit("\n)");
            reveal_strlit("Crib");
        }
        s
    }

    /// Creates a playing state from its parts.
    pub fn new(
        scoreboard: Scoreboard,
        roles: Roles,
        hands: Hands,
        play_state: PlayState,
        crib: Crib,
        starter_cut: StarterCut,
        pending: Pending,
    ) -> (s: Playing)
        ensures
            s@ == (PlayingView {
                scoreboard: scoreboard@,
                roles,
                hands: hands_view(hands),
                play_state: play_state@,
                crib: crib@,
                starter_cut,
                pending,
            }),
    {
        Playing { scoreboard, roles, hands, play_state, crib, starter_cut, pending }
    }

    /// The scoreboard.
    pub fn scoreboard(&self) -> (s: &Scoreboard)
        ensures s@ == self@.scoreboard,
    {
        &self.scoreboard
    }

    /// The roles.
    pub fn roles(&self) -> (r: Roles)
        ensures r == self@.roles,
    {
        self.roles
    }

    /// The dealer.
    pub fn dealer(&self) -> (d: Dealer)
        ensures d == Dealer(self@.roles.spec_dealer()),
    {
        self.roles.dealer()
    }

    /// The pone.
    pub fn pone(&self) -> (p: Pone)
        ensures p == Pone(self@.roles.spec_dealer().spec_opponent()),
    {
        self.roles.pone()
    }

    /// Both hands, as they are during the play.
    pub fn hands(&self) -> (h: &Hands)
        ensures hands_view(*h) == self@.hands,
    {
        &self.hands
    }

    /// The player's hand, as it is during the play.
    pub fn hand(&self, player: Player) -> (h: &Hand)
        ensures h@ == player.pick(self@.hands),
    {
        &self.hands[player.index()]
    }

    /// The state of the play.
    pub fn play_state(&self) -> (p: &PlayState)
        ensures p@ == self@.play_state,
    {
        &self.play_state
    }

    /// The crib.
    pub fn crib(&self) -> (c: &Crib)
        ensures c@ == self@.crib,
    {
        &self.crib
    }

    /// The starter.
    pub fn starter_cut(&self) -> (c: Card)
        ensures c == self@.starter_cut,
    {
        self.starter_cut
    }

    /// The pending acknowledgements of the end of the play.
    pub fn pending(&self) -> (p: Pending)
        ensures p == self@.pending,
    {
        self.pending
    }

    /// The next player lays `card`, whatever card it is: it leaves their hand
    /// and joins the play. The new running total must fit the machine's
    /// integers.
    pub fn play_card(&mut self, card: Card)
        requires
            old(self)@.play_state.running_total() + card.spec_value() <= usize::MAX,
        ensures
            final(self)@ == (PlayingView {
                hands: old(self)@.play_state.next_to_play.put(
                    old(self)@.hands,
                    old(self)@.play_state.next_to_play.pick(old(self)@.hands).filter(other_than(card)),
                ),
                play_state: old(self)@.play_state.after_play(card),
                ..old(self)@
            }),
    {
        let player = self.play_state.next_to_play();
        let i = player.index();
        let mut hand = self.hands[i].duplicate();
        hand.remove(card);
        assert(hand@ == player.pick(old(self)@.hands).filter(other_than(card)));
        self.hands[i] = hand;
        let _ = self.play_state.play(card);
        assert(self@.hands == old(self)@.play_state.next_to_play.put(
            old(self)@.hands,
            old(self)@.play_state.next_to_play.pick(old(self)@.hands).filter(other_than(card)),
        ));
    }

    /// The next player calls go.
    pub fn go(&mut self)
        ensures final(self)@ == (PlayingView { play_state: old(self)@.play_state.after_go(), ..old(self)@ }),
    {
        let _ = self.play_state.go();
    }

    /// The playing state, or the finished game when the board has a winner.
    pub fn wrap_or_finished(self) -> (s: State)
        ensures s@ == self@.or_finished(),
    {
        match self.scoreboard.winner() {
            Some(winner) => State::Finished(Finished {
                winner,
                scoreboard: self.scoreboard,
                roles: self.roles,
                hands: self.hands,
                crib: self.crib,
                starter_cut: self.starter_cut,
            }),
            None => State::Playing(self),
        }
    }

    /// The next player has laid `card` and `pegging` is pegged. The new
    /// running total and the pegged score must fit the machine's integers.
    pub fn card_played(self, card: Card, pegging: &Pegging) -> (s: State)
        requires
            self@.play_state.running_total() + card.spec_value() <= usize::MAX,
            self@.scoreboard.peg_fits(pegging@),
        ensures
            s@ == self@.card_played(card, pegging@),
    {
        let mut this = self;
        this.play_card(card);
        let _ = this.scoreboard.peg(pegging);
        this.wrap_or_finished()
    }

    /// The next player has called go and `pegging` is pegged.
    pub fn go_called(self, pegging: &Pegging) -> (s: State)
        requires
            self@.scoreboard.peg_fits(pegging@),
        ensures
            s@ == self@.go_called(pegging@),
    {
        let mut this = self;
        this.go();
        let _ = this.scoreboard.peg(pegging);
        this.wrap_or_finished()
    }

    /// The player acknowledges the end of the play; once both have, the
    /// pone's hand (`pegging`) is pegged and its scoring shown.
    pub fn pone_scored(self, player: Player, pegging: &Pegging) -> (s: State)
        requires
            !self@.pending.spec_waiting_on(player.spec_opponent()) ==> self@.scoreboard.peg_fits(pegging@),
        ensures
            s@ == self@.pone_scored(player, pegging@),
    {
        let mut this = self;
        let proceed = this.pending.acknowledge(player);
        if proceed {
            let _ = this.scoreboard.peg(pegging);
            let hands = this.play_state.regather_hands();
            let scoring = Scoring {
                scoreboard: this.scoreboard,
                roles: this.roles,
                hands,
                crib: this.crib,
                starter_cut: this.starter_cut,
                pegging: pegging.duplicate(),
                pending: Pending::new(),
                kind: ScoringPoneType,
            };
            scoring.pone_or_finished()
        } else {
            State::Playing(this)
        }
    }
}

/// The kinds of scoring state: each marker type names one.
pub trait ScoringKind: Sized {
    /// The marker value of this kind of scoring state.
    fn kind() -> Self;

    /// What is counted in this kind of scoring state: `Pone`, `Dealer` or
    /// `Crib`.
    spec fn spec_name() -> Seq<char>;

    /// Returns what is counted in this kind of scoring state.
    fn name() -> (n: &'static str)
        ensures n@ == Self::spec_name();
}

/// Marker type of the pone's scoring.
#[derive(Clone, Copy, Debug, PartialEq, Eq)]
pub struct ScoringPoneType;

/// Marker type of the dealer's scoring.
#[derive(Clone, Copy, Debug, PartialEq, Eq)]
pub struct ScoringDealerType;

/// Marker type of the crib's scoring.
#[derive(Clone, Copy, Debug, PartialEq, Eq)]
pub struct ScoringCribType;

impl ScoringKind for ScoringPoneType {
    fn kind() -> Self {
        ScoringPoneType
    }

    open spec fn spec_name() -> Seq<char> {
        "Pone"@
    }

    fn name() -> (n: &'static str) {
        proof {
            reveal_strlit("Pone");
        }
        "Pone"
    }
}

impl ScoringKind for ScoringDealerType {
    fn kind() -> Self {
        ScoringDealerType
    }

    open spec fn spec_name() -> Seq<char> {
        "Dealer"@
    }

    fn name() -> (n: &'static str) {
        proof {
            reveal_strlit("Dealer");
        }
        "Dealer"
    }
}

impl ScoringKind for ScoringCribType {
    fn kind() -> Self {
        ScoringCribType
    }

    open spec fn spec_name() -> Seq<char> {
        "Crib"@
    }

    fn name() -> (n: &'static str) {
        proof {
            reveal_strlit("Crib");
        }
        "Crib"
    }
}

/// A hand or the crib has been counted: its pegging is shown, awaiting both
/// players' acknowledgement.
#[derive(Debug, PartialEq, Eq)]
pub struct Scoring<T> {
    scoreboard: Scoreboard,
    roles: Roles,
    hands: Hands,
    crib: Crib,
    starter_cut: StarterCut,
    pegging: Pegging,
    pending: Pending,
    kind: T,
}

/// The pone's hand has been counted.
pub type ScoringPone = Scoring<ScoringPoneType>;

/// The dealer's hand has been counted.
pub type ScoringDealer = Scoring<ScoringDealerType>;

/// The crib has been counted.
pub type ScoringCrib = Scoring<ScoringCribType>;

impl<T> View for Scoring<T> {
    type V = ScoringView;

    closed spec fn view(&self) -> ScoringView {
        ScoringView {
            scoreboard: self.scoreboard@,
            roles: self.roles,
            hands: hands_view(self.hands),
            crib: self.crib@,
            starter_cut: self.starter_cut,
            pegging: self.pegging@,
            pending: self.pending,
        }
    }
}

impl<T: ScoringKind> Scoring<T> {
    /// Writes the state as text: board, roles, hands, the starter, crib, the
    /// pegging shown and who is awaited.
    pub fn to_string(&self) -> (s: String)
        ensures s@ == self@.text(T::spec_name()),
    {
        let mut s = String::from_str("Scoring");
        s.append(T::name());
        s.append("(\n    scoreboard: ");
        s.append(self.scoreboard.to_string().as_str());
        s.append(",\n    roles: ");
        s.append(self.roles.to_string().as_str());
        s.append(",\n    hands: ");
        s.append(hands_to_string(&self.hands).as_str());
        s.append(",\n    cut: ");
        s.append(self.starter_cut.to_string().as_str());
        s.append(",\n    crib: ");
        s.append(self.crib.to_string().as_str());
        s.append(",\n    pegging: ");
        s.append(self.pegging.to_string().as_str());
        s.append(",\n    pending: ");
        s.append(self.pending.to_string().as_str());
        s.append("\n)");
        proof {
            reveal_strlit("Scoring");
            reveal_strlit("(\n    scoreboard: ");
            reveal_strlit(",\n    roles: ");
            reveal_strlit(",\n    hands: ");
            reveal_strlit(",\n    cut: ");
            reveal_strlit(",\n    crib: ");
            reveal_strlit(",\n    pegging: ");
            reveal_strlit(",\n    pending: ");
            reveal_strlit("\n)");
            reveal_strlit("Crib");
        }
        s
    }

    /// Creates a scoring state from its parts.
    pub fn new(
        scoreboard: Scoreboard,
        roles: Roles,
        hands: Hands,
        crib: Crib,
        starter_cut: StarterCut,
        pegging: Pegging,
        pending: Pending,
    ) -> (s: Scoring<T>)
        ensures
            s@ == (ScoringView {
                scoreboard: scoreboard@,
                roles,
                hands: hands_view(hands),
                crib: crib@,
                starter_cut,
                pegging: pegging@,
                pending,
            }),
    {
        Scoring { scoreboard, roles, hands, crib, starter_cut, pegging, pending, kind: T::kind() }
    }
}

impl<T> Scoring<T> {
    /// The pegging shown: the count just made.
    pub fn pegging(&self) -> (p: &Pegging)
        ensures p@ == self@.pegging,
    {
        &self.pegging
    }

    /// The scoreboard.
    pub fn scoreboard(&self) -> (s: &Scoreboard)
        ensures s@ == self@.scoreboard,
    {
        &self.scoreboard
    }

    /// The roles.
    pub fn roles(&self) -> (r: Roles)
        ensures r == self@.roles,
    {
        self.roles
    }

    /// The dealer.
    pub fn dealer(&self) -> (d: Dealer)
        ensures d == Dealer(self@.roles.spec_dealer()),
    {
        self.roles.dealer()
    }

    /// The pone.
    pub fn pone(&self) -> (p: Pone)
        ensures p == Pone(self@.roles.spec_dealer().spec_opponent()),
    {
        self.roles.pone()
    }

    /// Both hands.
    pub fn hands(&self) -> (h: &Hands)
        ensures hands_view(*h) == self@.hands,
    {
        &self.hands
    }

    /// The player's hand.
    pub fn hand(&self, player: Player) -> (h: &Hand)
        ensures h@ == player.pick(self@.hands),
    {
        &self.hands[player.index()]
    }

    /// The crib.
    pub fn crib(&self) -> (c: &Crib)
        ensures c@ == self@.crib,
    {
        &self.crib
    }

    /// The starter.
    pub fn starter_cut(&self) -> (c: Card)
        ensures c == self@.starter_cut,
    {
        self.starter_cut
    }

    /// The pending acknowledgements.
    pub fn pending(&self) -> (p: Pending)
        ensures p == self@.pending,
    {
        self.pending
    }

    fn finish(self, winner: Player) -> (s: State)
        ensures s@ == self@.finished(winner),
    {
        State::Finished(Finished {
            winner,
            scoreboard: self.scoreboard,
            roles: self.roles,
            hands: self.hands,
            crib: self.crib,
            starter_cut: self.starter_cut,
        })
    }

    /// Moves the parts into a scoring state of another kind.
    fn into_kind<U: ScoringKind>(self, pegging: Pegging) -> (s: Scoring<U>)
        ensures s@ == (ScoringView { pegging: pegging@, pending: Pending::spec_new(), ..self@ }),
    {
        Scoring {
            scoreboard: self.scoreboard,
            roles: self.roles,
            hands: self.hands,
            crib: self.crib,
            starter_cut: self.starter_cut,
            pegging,
            pending: Pending::new(),
            kind: U::kind(),
        }
    }
}

impl Scoring<ScoringPoneType> {
    /// The pone's scoring, or the finished game when the board has a winner.
    pub fn pone_or_finished(self) -> (s: State)
        ensures s@ == self@.pone_or_finished(),
    {
        match self.scoreboard.winner() {
            Some(w) => self.finish(w),
            None => State::ScoringPone(self),
        }
    }

    /// The player acknowledges the pone's score; once both have, the dealer's
    /// hand (`pegging`) is pegged and its scoring shown.
    pub fn dealer_scored(self, player: Player, pegging: &Pegging) -> (s: State)
        requires
            !self@.pending.spec_waiting_on(player.spec_opponent()) ==> self@.scoreboard.peg_fits(pegging@),
        ensures
            s@ == self@.dealer_scored(player, pegging@),
    {
        let mut this = self;
        let proceed = this.pending.acknowledge(player);
        if proceed {
            let _ = this.scoreboard.peg(pegging);
            let next: Scoring<ScoringDealerType> = this.into_kind(pegging.duplicate());
            next.dealer_or_finished()
        } else {
            State::ScoringPone(this)
        }
    }
}

impl Scoring<ScoringDealerType> {
    /// The dealer's scoring, or the finished game when the board has a winner.
    pub fn dealer_or_finished(self) -> (s: State)
        ensures s@ == self@.dealer_or_finished(),
    {
        match self.scoreboard.winner() {
            Some(w) => self.finish(w),
            None => State::ScoringDealer(self),
        }
    }

    /// The player acknowledges the dealer's score; once both have, the crib
    /// (`pegging`) is pegged and its scoring shown.
    pub fn crib_scored(self, player: Player, pegging: &Pegging) -> (s: State)
        requires
            !self@.pending.spec_waiting_on(player.spec_opponent()) ==> self@.scoreboard.peg_fits(pegging@),
        ensures
            s@ == self@.crib_scored(player, pegging@),
    {
        let mut this = self;
        let proceed = this.pending.acknowledge(player);
        if proceed {
            let _ = this.scoreboard.peg(pegging);
            let next: Scoring<ScoringCribType> = this.into_kind(pegging.duplicate());
            next.crib_or_finished()
        } else {
            State::ScoringDealer(this)
        }
    }
}

impl Scoring<ScoringCribType> {
    /// The crib's scoring, or the finished game when the board has a winner.
    pub fn crib_or_finished(self) -> (s: State)
        ensures s@ == self@.crib_or_finished(),
    {
        match self.scoreboard.winner() {
            Some(w) => self.finish(w),
            None => State::ScoringCrib(self),
        }
    }

    /// The player acknowledges the crib's score; once both have, the next
    /// round begins with the roles swapped.
    pub fn next_round_started(self, player: Player) -> (s: State)
        ensures s@ == self@.next_round_started(player),
    {
        let mut this = self;
        let proceed = this.pending.acknowledge(player);
        if proceed {
            let mut roles = this.roles;
            roles.swap();
            State::Discarding(Discarding::new_round(this.scoreboard, roles))
        } else {
            State::ScoringCrib(this)
        }
    }
}

/// The game is over.
#[derive(Debug, PartialEq, Eq)]
pub struct Finished {
    winner: Player,
    scoreboard: Scoreboard,
    roles: Roles,
    hands: Hands,
    crib: Crib,
    starter_cut: StarterCut,
}

impl View for Finished {
    type V = FinishedView;

    closed spec fn view(&self) -> FinishedView {
        FinishedView {
            winner: self.winner,
            scoreboard: self.scoreboard@,
            roles: self.roles,
            hands: hands_view(self.hands),
            crib: self.crib@,
            starter_cut: self.starter_cut,
        }
    }
}

impl Finished {
    /// Writes the state as text: winner, board, roles, hands, crib and the
    /// starter.
    pub fn to_string(&self) -> (s: String)
        ensures s@ == self@.text(),
    {
        let mut s = String::from_str("Finished(\n    winner: ");
        s.append(self.winner.to_string().as_str());
        s.append(",\n    scoreboard: ");
        s.append(self.scoreboard.to_string().as_str());
        s.append(",\n    roles: ");
        s.append(self.roles.to_string().as_str());
        s.append(",\n    hands: ");
        s.append(hands_to_string(&self.hands).as_str());
        s.append(",\n    crib: ");
        s.append(self.crib.to_string().as_str());
        s.append(",\n    cut: ");
        s.append(self.starter_cut.to_string().as_str());
        s.append("\n)");
        proof {
            reveal_strlit("Finished(\n    winner: ");
            reveal_strlit(",\n    scoreboard: ");
            reveal_strlit(",\n    roles: ");
            reveal_strlit(",\n    hands: ");
            reveal_strlit(",\n    crib: ");
            reveal_strlit(",\n    cut: ");
            reveal_strlit("\n)");
            reveal_strlit("Crib");
        }
        s
    }

    /// Creates a finished state from its parts. The caller is responsible
    /// for their coherence (e.g. that `winner` matches the scoreboard).
    pub fn new(
        winner: Player,
        scoreboard: Scoreboard,
        roles: Roles,
        hands: Hands,
        crib: Crib,
        starter_cut: StarterCut,
    ) -> (s: Finished)
        ensures
            s@ == (FinishedView {
                winner,
                scoreboard: scoreboard@,
                roles,
                hands: hands_view(hands),
                crib: crib@,
                starter_cut,
            }),
    {
        Finished { winner, scoreboard, roles, hands, crib, starter_cut }
    }

    /// The player who won the game.
    pub fn winner(&self) -> (p: Player)
        ensures p == self@.winner,
    {
        self.winner
    }

    /// The final scoreboard.
    pub fn scoreboard(&self) -> (s: &Scoreboard)
        ensures s@ == self@.scoreboard,
    {
        &self.scoreboard
    }

    /// The player's hand at the end.
    pub fn hand(&self, player: Player) -> (h: &Hand)
        ensures h@ == player.pick(self@.hands),
    {
        &self.hands[player.index()]
    }

    /// The crib at the end.
    pub fn crib(&self) -> (c: &Crib)
        ensures c@ == self@.crib,
    {
        &self.crib
    }

    /// The starter.
    pub fn starter_cut(&self) -> (c: Card)
        ensures c == self@.starter_cut,
    {
        self.starter_cut
    }
}

/// The current phase of the game, with the data of that phase.
#[derive(Debug, PartialEq, Eq)]
pub enum State {
    Starting(Starting),
    Discarding(Discarding),
    Playing(Playing),
    ScoringPone(ScoringPone),
    ScoringDealer(ScoringDealer),
    ScoringCrib(ScoringCrib),
    Finished(Finished),
}

impl View for State {
    type V = StateView;

    open spec fn view(&self) -> StateView {
        match self {
            State::Starting(s) => StateView::Starting(s@),
            State::Discarding(s) => StateView::Discarding(s@),
            State::Playing(s) => StateView::Playing(s@),
            State::ScoringPone(s) => StateView::ScoringPone(s@),
            State::ScoringDealer(s) => StateView::ScoringDealer(s@),
            State::ScoringCrib(s) => StateView::ScoringCrib(s@),
            State::Finished(s) => StateView::Finished(s@),
        }
    }
}

impl StateView {
    /// The state, or the finished game when a state of the play or of the
    /// counting has a board with a winner.
    pub open spec fn or_finished(self) -> StateView {
        match self {
            StateView::Playing(s) => s.or_finished(),
            StateView::ScoringPone(s) => s.pone_or_finished(),
            StateView::ScoringDealer(s) => s.dealer_or_finished(),
            StateView::ScoringCrib(s) => s.crib_or_finished(),
            _ => self,
        }
    }

    /// The state's text, as each phase writes it.
    pub open spec fn text(self) -> Seq<char> {
        match self {
            StateView::Starting(s) => s.text(),
            StateView::Discarding(s) => s.text(),
            StateView::Playing(s) => s.text(),
            StateView::ScoringPone(s) => s.text("Pone"@),
            StateView::ScoringDealer(s) => s.text("Dealer"@),
            StateView::ScoringCrib(s) => s.text("Crib"@),
            StateView::Finished(s) => s.text(),
        }
    }

    /// The name of the phase.
    pub open spec fn name(self) -> Seq<char> {
        match self {
            StateView::Starting(_) => "Starting"@,
            StateView::Discarding(_) => "Discarding"@,
            StateView::Playing(_) => "Playing"@,
            StateView::ScoringPone(_) => "ScoringPone"@,
            StateView::ScoringDealer(_) => "ScoringDealer"@,
            StateView::ScoringCrib(_) => "ScoringCrib"@,
            StateView::Finished(_) => "Finished"@,
        }
    }
}

impl State {
    /// The state, or the finished game when a state of the play or of the
    /// counting has a board with a winner.
    pub fn or_finished(self) -> (s: State)
        ensures s@ == self@.or_finished(),
    {
        match self {
            State::Playing(s) => s.wrap_or_finished(),
            State::ScoringPone(s) => s.pone_or_finished(),
            State::ScoringDealer(s) => s.dealer_or_finished(),
            State::ScoringCrib(s) => s.crib_or_finished(),
            other => other,
        }
    }

    /// Writes the state as text, as each phase writes it.
    pub fn to_string(&self) -> (s: String)
        ensures s@ == self@.text(),
    {
        match self {
            State::Starting(s) => s.to_string(),
            State::Discarding(s) => s.to_string(),
            State::Playing(s) => s.to_string(),
            State::ScoringPone(s) => s.to_string(),
            State::ScoringDealer(s) => s.to_string(),
            State::ScoringCrib(s) => s.to_string(),
            State::Finished(s) => s.to_string(),
        }
    }

    /// The name of the phase, e.g. `Playing`.
    pub fn name(&self) -> (n: &'static str)
        ensures n@ == self@.name(),
    {
        match self {
            State::Starting(_) => "Starting",
            State::Discarding(_) => "Discarding",
            State::Playing(_) => "Playing",
            State::ScoringPone(_) => "ScoringPone",
            State::ScoringDealer(_) => "ScoringDealer",
            State::ScoringCrib(_) => "ScoringCrib",
            State::Finished(_) => "Finished",
        }
    }
}

impl Default for State {
    fn default() -> (s: State)
        ensures s@ == StateView::Starting(StartingView::initial()),
    {
        State::Starting(Starting::initial())
    }
}


// ---------------------------------------------------------------------------
// Access to the parts of the states.
// ---------------------------------------------------------------------------

/// Something that holds the roles of a round.
pub trait HasRoles {
    /// The roles.
    fn roles(&self) -> Roles;

    /// The dealer.
    fn dealer(&self) -> Dealer;

    /// The pone.
    fn pone(&self) -> Pone;
}

/// Something that holds both players' hands.
pub trait HasHands {
    /// Both hands.
    fn hands(&self) -> &Hands;

    /// The player's hand.
    fn hand(&self, player: Player) -> &Hand;
}

/// Something that holds the crib.
pub trait HasCrib {
    /// The crib.
    fn crib(&self) -> &Crib;
}

/// Something that holds the starter.
pub trait HasStarterCut {
    /// The starter.
    fn starter_cut(&self) -> StarterCut;
}

/// Something that holds the cuts for deal.
pub trait HasCutsForDeal {
    /// Both cuts for deal.
    fn cuts_for_deal(&self) -> &CutsForDeal;

    /// The card cut by the player, if any.
    fn cut_for_deal(&self, player: Player) -> Option<Card>;
}

/// Something that holds the state of the play.
pub trait HasPlayState {
    /// The state of the play.
    fn play_state(&self) -> &PlayState;
}

impl HasScoreboard for Discarding {
    fn scoreboard(&self) -> (s: &Scoreboard)
        ensures s@ == self@.scoreboard,
    {
        &self.scoreboard
    }
}

impl HasScoreboard for Playing {
    fn scoreboard(&self) -> (s: &Scoreboard)
        ensures s@ == self@.scoreboard,
    {
        &self.scoreboard
    }
}

impl<T> HasScoreboard for Scoring<T> {
    fn scoreboard(&self) -> (s: &Scoreboard)
        ensures s@ == self@.scoreboard,
    {
        &self.scoreboard
    }
}

impl HasScoreboard for Finished {
    fn scoreboard(&self) -> (s: &Scoreboard)
        ensures s@ == self@.scoreboard,
    {
        &self.scoreboard
    }
}

impl HasRoles for Discarding {
    fn roles(&self) -> (r: Roles)
        ensures r == self@.roles,
    {
        self.roles
    }

    fn dealer(&self) -> (d: Dealer)
        ensures d == Dealer(self@.roles.spec_dealer()),
    {
        self.roles.dealer()
    }

    fn pone(&self) -> (p: Pone)
        ensures p == Pone(self@.roles.spec_dealer().spec_opponent()),
    {
        self.roles.pone()
    }
}

impl HasRoles for Playing {
    fn roles(&self) -> (r: Roles)
        ensures r == self@.roles,
    {
        self.roles
    }

    fn dealer(&self) -> (d: Dealer)
        ensures d == Dealer(self@.roles.spec_dealer()),
    {
        self.roles.dealer()
    }

    fn pone(&self) -> (p: Pone)
        ensures p == Pone(self@.roles.spec_dealer().spec_opponent()),
    {
        self.roles.pone()
    }
}

impl<T> HasRoles for Scoring<T> {
    fn roles(&self) -> (r: Roles)
        ensures r == self@.roles,
    {
        self.roles
    }

    fn dealer(&self) -> (d: Dealer)
        ensures d == Dealer(self@.roles.spec_dealer()),
    {
        self.roles.dealer()
    }

    fn pone(&self) -> (p: Pone)
        ensures p == Pone(self@.roles.spec_dealer().spec_opponent()),
    {
        self.roles.pone()
    }
}

impl HasHands for Discarding {
    fn hands(&self) -> (h: &Hands)
        ensures hands_view(*h) == self@.hands,
    {
        &self.hands
    }

    fn hand(&self, player: Player) -> (h: &Hand)
        ensures h@ == player.pick(self@.hands),
    {
        &self.hands[player.index()]
    }
}

impl HasHands for Playing {
    fn hands(&self) -> (h: &Hands)
        ensures hands_view(*h) == self@.hands,
    {
        &self.hands
    }

    fn hand(&self, player: Player) -> (h: &Hand)
        ensures h@ == player.pick(self@.hands),
    {
        &self.hands[player.index()]
    }
}

impl<T> HasHands for Scoring<T> {
    fn hands(&self) -> (h: &Hands)
        ensures hands_view(*h) == self@.hands,
    {
        &self.hands
    }

    fn hand(&self, player: Player) -> (h: &Hand)
        ensures h@ == player.pick(self@.hands),
    {
        &self.hands[player.index()]
    }
}

impl HasHands for Finished {
    fn hands(&self) -> (h: &Hands)
        ensures hands_view(*h) == self@.hands,
    {
        &self.hands
    }

    fn hand(&self, player: Player) -> (h: &Hand)
        ensures h@ == player.pick(self@.hands),
    {
        &self.hands[player.index()]
    }
}

impl HasCrib for Discarding {
    fn crib(&self) -> (c: &Crib)
        ensures c@ == self@.crib,
    {
        &self.crib
    }
}

impl HasCrib for Playing {
    fn crib(&self) -> (c: &Crib)
        ensures c@ == self@.crib,
    {
        &self.crib
    }
}

impl<T> HasCrib for Scoring<T> {
    fn crib(&self) -> (c: &Crib)
        ensures c@ == self@.crib,
    {
        &self.crib
    }
}

impl HasCrib for Finished {
    fn crib(&self) -> (c: &Crib)
        ensures c@ == self@.crib,
    {
        &self.crib
    }
}

impl HasStarterCut for Playing {
    fn starter_cut(&self) -> (c: StarterCut)
        ensures c == self@.starter_cut,
    {
        self.starter_cut
    }
}

impl<T> HasStarterCut for Scoring<T> {
    fn starter_cut(&self) -> (c: StarterCut)
        ensures c == self@.starter_cut,
    {
        self.starter_cut
    }
}

impl HasStarterCut for Finished {
    fn starter_cut(&self) -> (c: StarterCut)
        ensures c == self@.starter_cut,
    {
        self.starter_cut
    }
}

impl HasCutsForDeal for Starting {
    fn cuts_for_deal(&self) -> (c: &CutsForDeal)
        ensures (c@[0], c@[1]) == self@.cuts,
    {
        &self.cuts_for_deal
    }

    fn cut_for_deal(&self, player: Player) -> (c: Option<Card>)
        ensures c == player.pick(self@.cuts),
    {
        self.cuts_for_deal[player.index()]
    }
}

impl HasPlayState for Playing {
    fn play_state(&self) -> (p: &PlayState)
        ensures p@ == self@.play_state,
    {
        &self.play_state
    }
}

impl<T> HasPegging for Scoring<T> {
    fn pegging(&self) -> (p: &Pegging)
        ensures p@ == self@.pegging,
    {
        &self.pegging
    }
}

// ---------------------------------------------------------------------------
// Wrapping a phase's data into the state.
// ---------------------------------------------------------------------------

/// Another name of the state of play: the current phase with its data.
pub type Phase = State;

/// The data of a phase, wrapped into the state of that phase.
pub trait Wrap {
    /// The state of this phase with this data.
    fn wrap(self) -> State;
}

/// The data of a phase of the play or of the counting, wrapped into the
/// state of that phase unless the board has a winner.
pub trait WrapOrFinished {
    /// The state of this phase, or the finished game.
    fn wrap_or_finished(self) -> State;
}

impl Wrap for Starting {
    fn wrap(self) -> (s: State)
        ensures s@ == StateView::Starting(self@),
    {
        State::Starting(self)
    }
}

impl Wrap for Discarding {
    fn wrap(self) -> (s: State)
        ensures s@ == StateView::Discarding(self@),
    {
        State::Discarding(self)
    }
}

impl Wrap for Playing {
    fn wrap(self) -> (s: State)
        ensures s@ == StateView::Playing(self@),
    {
        State::Playing(self)
    }
}

impl Wrap for Scoring<ScoringPoneType> {
    fn wrap(self) -> (s: State)
        ensures s@ == StateView::ScoringPone(self@),
    {
        State::ScoringPone(self)
    }
}

impl Wrap for Scoring<ScoringDealerType> {
    fn wrap(self) -> (s: State)
        ensures s@ == StateView::ScoringDealer(self@),
    {
        State::ScoringDealer(self)
    }
}

impl Wrap for Scoring<ScoringCribType> {
    fn wrap(self) -> (s: State)
        ensures s@ == StateView::ScoringCrib(self@),
    {
        State::ScoringCrib(self)
    }
}

impl Wrap for Finished {
    fn wrap(self) -> (s: State)
        ensures s@ == StateView::Finished(self@),
    {
        State::Finished(self)
    }
}

impl WrapOrFinished for Playing {
    fn wrap_or_finished(self) -> (s: State)
        ensures s@ == self@.or_finished(),
    {
        Playing::wrap_or_finished(self)
    }
}

impl WrapOrFinished for Scoring<ScoringPoneType> {
    fn wrap_or_finished(self) -> (s: State)
        ensures s@ == self@.pone_or_finished(),
    {
        self.pone_or_finished()
    }
}

impl WrapOrFinished for Scoring<ScoringDealerType> {
    fn wrap_or_finished(self) -> (s: State)
        ensures s@ == self@.dealer_or_finished(),
    {
        self.dealer_or_finished()
    }
}

impl WrapOrFinished for Scoring<ScoringCribType> {
    fn wrap_or_finished(self) -> (s: State)
        ensures s@ == self@.crib_or_finished(),
    {
        self.crib_or_finished()
    }
}

} // verus!
