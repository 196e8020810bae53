use vstd::prelude::*;
use vstd::string::*;

use crate::display::{format_vec, joined, texts};

use crate::domain::cards::{cards_text, format_cards, Card, Value};
use crate::domain::pile::{Hand, not_in, other_than};
use crate::domain::players::{Player, PLAYER0, PLAYER1};
use crate::domain::scoring::{ScoreSheet, ScoreItemView, value_sum, play_items, go_items, copy_cards};

verus! {

broadcast use vstd::seq_lib::group_seq_properties;

/// The running total that the play may reach but never exceed.
pub const PLAY_TARGET: usize = 31;

/// Represents the status of a "go" during pegging: whether a go has been
/// called, or play has continued after a go.
#[derive(Clone, Copy, Debug, Default, PartialEq, Eq, Structural)]
pub enum GoStatus {
    #[default]
    NotCalled,
    Called,
    PlayContinued,
}

impl GoStatus {
    /// The status's name, e.g. `NotCalled`.
    pub open spec fn spec_text(self) -> Seq<char> {
        match self {
            GoStatus::NotCalled => "NotCalled"@,
            GoStatus::Called => "Called"@,
            GoStatus::PlayContinued => "PlayContinued"@,
        }
    }

    /// Returns the status's name, e.g. `NotCalled`.
    pub fn as_str(&self) -> (s: &'static str)
        ensures s@ == self.spec_text(),
    {
        proof {
            reveal_strlit("NotCalled");
            reveal_strlit("Called");
            reveal_strlit("PlayContinued");
        }
        match self {
            GoStatus::NotCalled => "NotCalled",
            GoStatus::Called => "Called",
            GoStatus::PlayContinued => "PlayContinued",
        }
    }
}

/// A single play in the pegging phase: a player with the card they played.
#[derive(Clone, Copy, Debug, PartialEq, Eq, Structural)]
pub struct Play {
    pub player: Player,
    pub card: Card,
}

impl Play {
    /// Creates a new `Play` with the given player and card.
    pub fn new(player: Player, card: Card) -> (p: Play)
        ensures p == (Play { player, card }),
    {
        Play { player, card }
    }

    /// Returns the player who made this play.
    pub fn player(&self) -> (p: Player)
        ensures p == self.player,
    {
        self.player
    }

    /// Returns the card played.
    pub fn card(&self) -> (c: Card)
        ensures c == self.card,
    {
        self.card
    }

    /// The play's text, e.g. `(Player(0) -> AH)`.
    pub open spec fn spec_text(self) -> Seq<char> {
        "("@ + self.player.spec_text() + " -> "@ + self.card.spec_text() + ")"@
    }

    /// Writes the play as text, e.g. `(Player(0) -> AH)`.
    pub fn to_string(&self) -> (s: String)
        ensures s@ == self.spec_text(),
    {
        let mut s = String::from_str("(");
        s.append(self.player.to_string().as_str());
        s.append(" -> ");
        s.append(self.card.to_string().as_str());
        s.append(")");
        proof {
            reveal_strlit("(");
            reveal_strlit(" -> ");
            reveal_strlit(")");
        }
        s
    }
}

/// The text of each play.
pub open spec fn play_texts(plays: Seq<Play>) -> Seq<Seq<char>> {
    plays.map_values(|p: Play| p.spec_text())
}

/// Writes plays as text: each play's text, joined with `", "`.
fn format_plays(plays: &[Play]) -> (s: String)
    ensures s@ == joined(play_texts(plays@)),
{
    let mut parts: Vec<String> = Vec::new();
    let mut i: usize = 0;
    while i < plays.len()
        invariant
            i <= plays@.len(),
            texts(parts@) == play_texts(plays@.take(i as int)),
        decreases plays.len() - i,
    {
        let t = plays[i].to_string();
        proof {
            assert(texts(parts@.push(t)) =~= texts(parts@).push(t@));
            assert(play_texts(plays@.take(i + 1)) =~= play_texts(plays@.take(i as int)).push(plays@[i as int].spec_text()));
        }
        parts.push(t);
        i = i + 1;
    }
    assert(plays@.take(plays@.len() as int) =~= plays@);
    format_vec(parts.as_slice())
}

/// Hands of both players, indexed by player.
pub type Hands = [Hand; 2];

/// The cards of the plays, in order of play.
pub open spec fn cards_of(plays: Seq<Play>) -> Seq<Card> {
    plays.map_values(|p: Play| p.card)
}

/// The cards played by `player`, in order of play.
pub open spec fn played_by(plays: Seq<Play>, player: Player) -> Seq<Card>
    decreases plays.len(),
{
    if plays.len() == 0 {
        Seq::empty()
    } else if plays.last().player == player {
        played_by(plays.drop_last(), player).push(plays.last().card)
    } else {
        played_by(plays.drop_last(), player)
    }
}

/// The mathematical value of a `PlayState`.
pub struct PlayStateView {
    pub next_to_play: Player,
    pub pending: (Seq<Card>, Seq<Card>),
    pub go_status: GoStatus,
    pub current: Seq<Play>,
    pub previous: Seq<Play>,
}

impl PlayStateView {
    /// The state's text: who plays next, the go status, the cards each
    /// player has yet to play, and the plays of this series and of the
    /// earlier ones.
    pub open spec fn text(self) -> Seq<char> {
        "Next("@ + self.next_to_play.spec_text()
            + "), GoStatus("@ + self.go_status.spec_text()
            + "), Pending("@ + PLAYER0.spec_text() + " -> "@ + cards_text(self.pending.0)
            + ", "@ + PLAYER1.spec_text() + " -> "@ + cards_text(self.pending.1)
            + "), Current("@ + joined(play_texts(self.current))
            + "), Previous("@ + joined(play_texts(self.previous)) + ")"@
    }

    /// The running total of the current series of plays.
    pub open spec fn running_total(self) -> nat {
        value_sum(cards_of(self.current))
    }

    /// The cards the player has yet to play.
    pub open spec fn pending_of(self, player: Player) -> Seq<Card> {
        player.pick(self.pending)
    }

    /// The player holds a card yet to play, legal or not.
    pub open spec fn has_cards(self, player: Player) -> bool {
        self.pending_of(player).len() > 0
    }

    /// The cards the player may play without carrying the total beyond 31.
    pub open spec fn legal_plays(self, player: Player) -> Seq<Card> {
        self.pending_of(player).filter(|c: Card| self.running_total() + c.spec_value() <= PLAY_TARGET)
    }

    /// The state once the next player has laid `card`: the card leaves their
    /// pending cards and joins the current series.
    pub open spec fn with_card_played(self, card: Card) -> PlayStateView {
        let player = self.next_to_play;
        PlayStateView {
            pending: player.put(self.pending, self.pending_of(player).filter(other_than(card))),
            current: self.current.push(Play { player, card }),
            ..self
        }
    }

    /// Closes the current series: the opponent of the last player leads the
    /// next series if they have cards, else the last player does.
    pub open spec fn start_new_play(self) -> PlayStateView {
        let last = if self.current.len() > 0 { self.current.last().player } else { self.next_to_play };
        let opponent = last.spec_opponent();
        PlayStateView {
            next_to_play: if self.has_cards(opponent) { opponent } else { last },
            previous: self.previous + self.current,
            current: Seq::empty(),
            go_status: GoStatus::NotCalled,
            ..self
        }
    }

    /// The state after the next player lays `card`.
    pub open spec fn after_play(self, card: Card) -> PlayStateView {
        let player = self.next_to_play;
        let opponent = player.spec_opponent();
        let s = self.with_card_played(card);
        if s.running_total() == PLAY_TARGET {
            s.start_new_play()
        } else {
            match self.go_status {
                GoStatus::NotCalled =>
                    if s.has_cards(opponent) {
                        PlayStateView { next_to_play: opponent, ..s }
                    } else {
                        PlayStateView { go_status: GoStatus::Called, ..s }
                    },
                GoStatus::Called => {
                    let t = PlayStateView { go_status: GoStatus::PlayContinued, ..s };
                    if !s.has_cards(player) { t.start_new_play() } else { t }
                },
                GoStatus::PlayContinued =>
                    if !s.has_cards(player) { s.start_new_play() } else { s },
            }
        }
    }

    /// The state after the next player calls go.
    pub open spec fn after_go(self) -> PlayStateView {
        let opponent = self.next_to_play.spec_opponent();
        match self.go_status {
            GoStatus::NotCalled => {
                let s = PlayStateView { go_status: GoStatus::Called, ..self };
                if self.has_cards(opponent) {
                    PlayStateView { next_to_play: opponent, ..s }
                } else {
                    s.start_new_play()
                }
            },
            _ => self.start_new_play(),
        }
    }

    /// Neither player has a card left to play.
    pub open spec fn is_finished(self) -> bool {
        self.pending.0.len() == 0 && self.pending.1.len() == 0
    }

    /// The hands regathered from all the plays of the round.
    pub open spec fn regathered(self, player: Player) -> Seq<Card> {
        played_by(self.previous + self.current, player)
    }
}

/// The state of the play (pegging): whose turn it is, the cards each player
/// has yet to play, the go status, and the current and previous series of plays.
/// The running total of the current series never exceeds 31.
#[derive(Debug, PartialEq, Eq)]
pub struct PlayState {
    next_to_play: Player,
    pending0: Vec<Card>,
    pending1: Vec<Card>,
    go_status: GoStatus,
    current_plays: Vec<Play>,
    previous_plays: Vec<Play>,
}

impl View for PlayState {
    type V = PlayStateView;

    closed spec fn view(&self) -> PlayStateView {
        PlayStateView {
            next_to_play: self.next_to_play,
            pending: (self.pending0@, self.pending1@),
            go_status: self.go_status,
            current: self.current_plays@,
            previous: self.previous_plays@,
        }
    }
}

/// Copies a slice of plays into a new vector.
fn copy_plays(plays: &[Play]) -> (v: Vec<Play>)
    ensures v@ == plays@,
{
    let mut v: Vec<Play> = Vec::new();
    let mut i: usize = 0;
    while i < plays.len()
        invariant
            i <= plays@.len(),
            v@ == plays@.take(i as int),
        decreases plays.len() - i,
    {
        v.push(plays[i]);
        i = i + 1;
    }
    assert(plays@.take(plays@.len() as int) =~= plays@);
    v
}

/// The plays of `first` followed by those of `second`.
fn joined_plays(first: &[Play], second: &[Play]) -> (v: Vec<Play>)
    ensures v@ == first@ + second@,
{
    let mut v = copy_plays(first);
    let mut i: usize = 0;
    while i < second.len()
        invariant
            i <= second@.len(),
            v@ == first@ + second@.take(i as int),
        decreases second@.len() - i,
    {
        v.push(second[i]);
        proof {
            assert(first@ + second@.take(i + 1) =~= (first@ + second@.take(i as int)).push(second@[i as int]));
        }
        i = i + 1;
    }
    assert(second@.take(second@.len() as int) =~= second@);
    v
}

/// Sums the pip values of the cards of the plays, when it is at most `bound`.
fn plays_total(plays: &[Play], bound: usize) -> (r: Option<usize>)
    ensures
        match r {
            Some(t) => t == value_sum(cards_of(plays@)) && t <= bound,
            None => value_sum(cards_of(plays@)) > bound,
        },
{
    let mut total: usize = 0;
    let mut i: usize = 0;
    while i < plays.len()
        invariant
            i <= plays@.len(),
            total == value_sum(cards_of(plays@.take(i as int))),
            total <= bound,
        decreases plays.len() - i,
    {
        proof {
            assert(cards_of(plays@.take(i + 1)).drop_last() =~= cards_of(plays@.take(i as int)));
        }
        let value = plays[i].card.value();
        if value > bound - total {
            proof {
                assert(cards_of(plays@.take(i + 1)) =~= cards_of(plays@).take(i + 1));
                crate::domain::scoring::lemma_value_sum_prefix(cards_of(plays@), i + 1);
            }
            return None;
        }
        total = total + value;
        i = i + 1;
    }
    assert(plays@.take(plays@.len() as int) =~= plays@);
    Some(total)
}

impl PlayState {
    /// Writes the state as text, e.g.
    /// `Next(Player(1)), GoStatus(NotCalled), Pending(Player(0) -> 9S, Player(1) -> 4S), Current((Player(0) -> AH)), Previous()`.
    pub fn to_string(&self) -> (s: String)
        ensures s@ == self@.text(),
    {
        let mut s = String::from_str("Next(");
        s.append(self.next_to_play.to_string().as_str());
        s.append("), GoStatus(");
        s.append(self.go_status.as_str());
        s.append("), Pending(");
        s.append(PLAYER0.to_string().as_str());
        s.append(" -> ");
        s.append(format_cards(self.pending0.as_slice()).as_str());
        s.append(", ");
        s.append(PLAYER1.to_string().as_str());
        s.append(" -> ");
        s.append(format_cards(self.pending1.as_slice()).as_str());
        s.append("), Current(");
        s.append(format_plays(self.current_plays.as_slice()).as_str());
        s.append("), Previous(");
        s.append(format_plays(self.previous_plays.as_slice()).as_str());
        s.append(")");
        proof {
            reveal_strlit("Next(");
            reveal_strlit("), GoStatus(");
            reveal_strlit("), Pending(");
            reveal_strlit(" -> ");
            reveal_strlit(", ");
            reveal_strlit("), Current(");
            reveal_strlit("), Previous(");
            reveal_strlit(")");
        }
        s
    }

    #[verifier::type_invariant]
    spec fn inv(self) -> bool {
        self@.running_total() <= usize::MAX
    }

    /// Creates a play state with no cards pending or played, `next_to_play` to lead.
    pub fn new(next_to_play: Player) -> (s: PlayState)
        ensures
            s@ == (PlayStateView {
                next_to_play,
                pending: (Seq::empty(), Seq::empty()),
                go_status: GoStatus::NotCalled,
                current: Seq::empty(),
                previous: Seq::empty(),
            }),
    {
        let s = PlayState {
            next_to_play,
            pending0: Vec::new(),
            pending1: Vec::new(),
            go_status: GoStatus::NotCalled,
            current_plays: Vec::new(),
            previous_plays: Vec::new(),
        };
        assert(cards_of(s.current_plays@) =~= Seq::<Card>::empty());
        s
    }

    /// Sets the cards the player has yet to play, and returns the state.
    pub fn with_pending_plays(self, player: Player, cards: &[Card]) -> (s: PlayState)
        ensures s@ == (PlayStateView { pending: player.put(self@.pending, cards@), ..self@ }),
    {
        proof {
            use_type_invariant(&self);
        }
        let mut s = self;
        match player {
            Player::First => s.pending0 = copy_cards(cards),
            Player::Second => s.pending1 = copy_cards(cards),
        }
        s
    }

    /// Sets the go status, and returns the state.
    pub fn with_go_status(self, go_status: GoStatus) -> (s: PlayState)
        ensures s@ == (PlayStateView { go_status, ..self@ }),
    {
        proof {
            use_type_invariant(&self);
        }
        let mut s = self;
        s.go_status = go_status;
        s
    }

    /// Sets the previous series of plays, and returns the state.
    pub fn with_previous_plays(self, plays: &[Play]) -> (s: PlayState)
        ensures s@ == (PlayStateView { previous: plays@, ..self@ }),
    {
        proof {
            use_type_invariant(&self);
        }
        let mut s = self;
        s.previous_plays = copy_plays(plays);
        s
    }

    /// Sets the current series of plays, and returns the state; `None` when
    /// their total exceeds the machine's integers.
    pub fn with_current_plays(self, plays: &[Play]) -> (r: Option<PlayState>)
        ensures
            match r {
                Some(s) => s@ == (PlayStateView { current: plays@, ..self@ }),
                None => value_sum(cards_of(plays@)) > usize::MAX,
            },
    {
        match plays_total(plays, usize::MAX) {
            Some(_) => {
                let mut s = self;
                s.current_plays = copy_plays(plays);
                Some(s)
            },
            None => None,
        }
    }

    /// Returns a copy of the play state.
    pub fn duplicate(&self) -> (s: PlayState)
        ensures s@ == self@,
    {
        proof {
            use_type_invariant(self);
        }
        PlayState {
            next_to_play: self.next_to_play,
            pending0: copy_cards(self.pending0.as_slice()),
            pending1: copy_cards(self.pending1.as_slice()),
            go_status: self.go_status,
            current_plays: copy_plays(self.current_plays.as_slice()),
            previous_plays: copy_plays(self.previous_plays.as_slice()),
        }
    }

    /// Returns the player whose turn is next.
    pub fn next_to_play(&self) -> (p: Player)
        ensures p == self@.next_to_play,
    {
        self.next_to_play
    }

    /// Returns the running total of the current series of plays.
    pub fn running_total(&self) -> (t: Value)
        ensures
            t == self@.running_total(),
    {
        proof {
            use_type_invariant(self);
        }
        match plays_total(self.current_plays.as_slice(), usize::MAX) {
            Some(t) => t,
            None => 0,
        }
    }

    /// The cards the player has yet to play.
    pub fn pending_plays(&self, player: Player) -> (v: &Vec<Card>)
        ensures v@ == self@.pending_of(player),
    {
        match player {
            Player::First => &self.pending0,
            Player::Second => &self.pending1,
        }
    }

    /// Returns `true` if the player has any cards left to play, legal or not.
    pub fn has_cards(&self, player: Player) -> (b: bool)
        ensures b == self@.has_cards(player),
    {
        self.pending_plays(player).len() > 0
    }

    /// Returns the cards the player may play without exceeding 31, in order.
    pub fn legal_plays(&self, player: Player) -> (v: Vec<Card>)
        ensures v@ == self@.legal_plays(player),
    {
        let total = self.running_total();
        let pending = self.pending_plays(player);
        let ghost pred: spec_fn(Card) -> bool = |c: Card| self@.running_total() + c.spec_value() <= PLAY_TARGET;
        let mut v: Vec<Card> = Vec::new();
        let mut i: usize = 0;
        while i < pending.len()
            invariant
                i <= pending@.len(),
                total == self@.running_total(),
                pred == (|c: Card| self@.running_total() + c.spec_value() <= PLAY_TARGET),
                v@ == pending@.take(i as int).filter(pred),
            decreases pending@.len() - i,
        {
            let c = pending[i];
            proof {
                assert(pending@.take(i + 1) =~= pending@.take(i as int).push(c));
                pending@.take(i as int).lemma_filter_push(c, pred);
            }
            if total <= PLAY_TARGET && c.value() <= PLAY_TARGET - total {
                v.push(c);
            }
            i = i + 1;
        }
        assert(pending@.take(pending@.len() as int) =~= pending@);
        v
    }

    /// Returns the plays of the current series.
    pub fn current_plays(&self) -> (v: &Vec<Play>)
        ensures v@ == self@.current,
    {
        &self.current_plays
    }

    /// Returns the plays of the previous series of the round.
    pub fn previous_plays(&self) -> (v: &Vec<Play>)
        ensures v@ == self@.previous,
    {
        &self.previous_plays
    }

    /// Returns the current go status.
    pub fn go_status(&self) -> (g: GoStatus)
        ensures g == self@.go_status,
    {
        self.go_status
    }

    /// Removes every copy of `card` from the cards the player has yet to play.
    fn remove_pending(&mut self, player: Player, card: Card)
        ensures
            final(self)@ == (PlayStateView {
                pending: player.put(old(self)@.pending, old(self)@.pending_of(player).filter(other_than(card))),
                ..old(self)@
            }),
    {
        proof {
            use_type_invariant(&*self);
        }
        let pending = self.pending_plays(player);
        let ghost pred: spec_fn(Card) -> bool = other_than(card);
        let mut kept: Vec<Card> = Vec::new();
        let mut i: usize = 0;
        while i < pending.len()
            invariant
                i <= pending@.len(),
                pred == other_than(card),
                kept@ == pending@.take(i as int).filter(pred),
            decreases pending@.len() - i,
        {
            let c = pending[i];
            proof {
                assert(pending@.take(i + 1) =~= pending@.take(i as int).push(c));
                pending@.take(i as int).lemma_filter_push(c, pred);
            }
            if c != card {
                kept.push(c);
            }
            i = i + 1;
        }
        assert(pending@.take(pending@.len() as int) =~= pending@);
        match player {
            Player::First => self.pending0 = kept,
            Player::Second => self.pending1 = kept,
        }
    }

    /// Closes the current series of plays; see `PlayStateView::start_new_play`.
    fn start_new_play(&mut self)
        ensures final(self)@ == old(self)@.start_new_play(),
    {
        proof {
            use_type_invariant(&*self);
        }
        let last_player = if self.current_plays.len() > 0 {
            self.current_plays[self.current_plays.len() - 1].player
        } else {
            self.next_to_play
        };
        let opponent = last_player.opponent();
        let next = if self.has_cards(opponent) { opponent } else { last_player };
        let previous = joined_plays(self.previous_plays.as_slice(), self.current_plays.as_slice());
        assert(cards_of(Seq::<Play>::empty()) =~= Seq::<Card>::empty());
        self.next_to_play = next;
        self.previous_plays = previous;
        self.current_plays = Vec::new();
        self.go_status = GoStatus::NotCalled;
    }

    /// The next player lays `card`, whatever card it is: every copy of it
    /// leaves their cards and the play joins the series. Returns the points
    /// the card scores (see `play_items`) and updates the state as
    /// `PlayStateView::after_play` describes: the turn passes to the opponent
    /// unless they have no cards or have called go, and a series that reaches
    /// 31 or runs out of cards is closed. The new running total must fit the
    /// machine's integers.
    pub fn play(&mut self, card: Card) -> (sheet: ScoreSheet)
        requires
            old(self)@.running_total() + card.spec_value() <= usize::MAX,
        ensures
            sheet@ == play_items(old(self)@.with_card_played(card)),
            final(self)@ == old(self)@.after_play(card),
    {
        proof {
            use_type_invariant(&*self);
        }
        let player = self.next_to_play;
        let opponent = player.opponent();
        self.remove_pending(player, card);
        proof {
            let cur = self@.current.push(Play { player, card });
            assert(cards_of(cur).drop_last() =~= cards_of(self@.current));
            assert(cards_of(cur).last() == card);
        }
        let mut current = copy_plays(self.current_plays.as_slice());
        current.push(Play::new(player, card));
        self.current_plays = current;
        proof {
            let mid = old(self)@.with_card_played(card);
            assert(self@.current =~= mid.current);
            assert(self@.pending == mid.pending);
            assert(self@ == mid);
        }
        let sheet = ScoreSheet::play_card(self);
        let reached_target = self.running_total() == PLAY_TARGET;
        let player_has_cards = self.has_cards(player);
        let opponent_has_cards = self.has_cards(opponent);
        if reached_target {
            self.start_new_play();
        } else {
            match self.go_status {
                GoStatus::NotCalled => {
                    if opponent_has_cards {
                        self.next_to_play = opponent;
                    } else {
                        self.go_status = GoStatus::Called;
                    }
                },
                GoStatus::Called => {
                    self.go_status = GoStatus::PlayContinued;
                    if !player_has_cards {
                        self.start_new_play();
                    }
                },
                GoStatus::PlayContinued => {
                    if !player_has_cards {
                        self.start_new_play();
                    }
                },
            }
        }
        sheet
    }

    /// The next player calls go. Returns the points for the last card (see
    /// `go_items`) and updates the state as `PlayStateView::after_go` describes.
    pub fn go(&mut self) -> (sheet: ScoreSheet)
        ensures
            sheet@ == go_items(old(self)@),
            final(self)@ == old(self)@.after_go(),
    {
        proof {
            use_type_invariant(&*self);
        }
        let sheet = ScoreSheet::go(self);
        let opponent = self.next_to_play.opponent();
        let opponent_has_cards = self.has_cards(opponent);
        match self.go_status {
            GoStatus::NotCalled => {
                self.go_status = GoStatus::Called;
                if opponent_has_cards {
                    self.next_to_play = opponent;
                } else {
                    self.start_new_play();
                }
            },
            _ => {
                self.start_new_play();
            },
        }
        sheet
    }

    /// The cards the player laid in the plays, in order.
    fn played_cards(plays: &Vec<Play>, player: Player) -> (v: Vec<Card>)
        ensures v@ == played_by(plays@, player),
    {
        let mut v: Vec<Card> = Vec::new();
        let mut i: usize = 0;
        while i < plays.len()
            invariant
                i <= plays@.len(),
                v@ == played_by(plays@.take(i as int), player),
            decreases plays.len() - i,
        {
            proof {
                assert(plays@.take(i + 1).drop_last() =~= plays@.take(i as int));
            }
            if plays[i].player == player {
                v.push(plays[i].card);
            }
            i = i + 1;
        }
        assert(plays@.take(plays@.len() as int) =~= plays@);
        v
    }

    /// Ends the play: returns the hands regathered from all the plays of the
    /// round, and clears the current and previous plays.
    pub fn finish_plays(&mut self) -> (hands: Hands)
        ensures
            hands[0]@ == old(self)@.regathered(PLAYER0),
            hands[1]@ == old(self)@.regathered(PLAYER1),
            final(self)@ == (PlayStateView { current: Seq::empty(), previous: Seq::empty(), ..old(self)@ }),
    {
        let hands = self.regather_hands();
        assert(cards_of(Seq::<Play>::empty()) =~= Seq::<Card>::empty());
        self.current_plays = Vec::new();
        self.previous_plays = Vec::new();
        hands
    }

    /// The hands regathered from all the plays of the round.
    pub fn regather_hands(&self) -> (hands: Hands)
        ensures
            hands[0]@ == self@.regathered(PLAYER0),
            hands[1]@ == self@.regathered(PLAYER1),
    {
        let plays = joined_plays(self.previous_plays.as_slice(), self.current_plays.as_slice());
        let h0 = Hand::from_cards(Self::played_cards(&plays, PLAYER0));
        let h1 = Hand::from_cards(Self::played_cards(&plays, PLAYER1));
        [h0, h1]
    }

    /// Returns `true` if neither player has a card left to play.
    pub fn is_finished(&self) -> (b: bool)
        ensures b == self@.is_finished(),
    {
        self.pending0.len() == 0 && self.pending1.len() == 0
    }
}

} // verus!
