use vstd::prelude::*;

use crate::domain::players::{Player, PLAYER0, PLAYER1};
use crate::domain::scoring;
use crate::display::{format_vec, joined, padded, spec_padded, texts};
use crate::domain::scoring::{items_total, PeggingView, Points};
use vstd::string::*;

verus! {

/// The score that wins the game.
pub const WINNING_SCORE: usize = 121;

/// A player's two pegs on the board: the back peg shows the previous score,
/// the front peg the current score.
#[derive(Clone, Copy, Debug, Default, PartialEq, Eq, Structural)]
pub struct Position {
    pub back: Points,
    pub front: Points,
}

/// Two pegs as text: each score right-aligned in three places, back then
/// front, e.g. ` 21 ->  42`.
pub open spec fn pegs_text(back: Points, front: Points) -> Seq<char> {
    spec_padded(back.0 as nat, 3) + " -> "@ + spec_padded(front.0 as nat, 3)
}

/// Writes two pegs as text, e.g. ` 21 ->  42`.
fn write_pegs(back: Points, front: Points) -> (s: String)
    ensures s@ == pegs_text(back, front),
{
    let mut s = padded(back.0, 3);
    s.append(" -> ");
    s.append(padded(front.0, 3).as_str());
    s
}

/// The pegs after scoring `points`: the back peg jumps over the front peg to
/// the new score.
pub open spec fn advance(pos: Position, points: nat) -> Position {
    Position { back: pos.front, front: Points((pos.front.0 + points) as usize) }
}

impl Position {
    /// A position with the front peg at `points` and the back peg at 0.
    pub fn new(points: usize) -> (p: Position)
        ensures p == (Position { back: Points(0), front: Points(points) }),
    {
        Position { back: Points(0), front: Points(points) }
    }

    /// Returns the points in the back position.
    pub fn back(&self) -> (p: Points)
        ensures p == self.back,
    {
        self.back
    }

    /// Returns the points in the front position.
    pub fn front(&self) -> (p: Points)
        ensures p == self.front,
    {
        self.front
    }

    /// Returns the score of the position (the front peg).
    pub fn points(&self) -> (p: Points)
        ensures p == self.front,
    {
        self.front
    }

    /// The position as text, e.g. ` 21 ->  42`.
    pub fn to_string(&self) -> (s: String)
        ensures s@ == pegs_text(self.back, self.front),
    {
        write_pegs(self.back, self.front)
    }
}

impl core::ops::Add<Points> for Position {
    type Output = Position;

    /// The position after scoring `points`: the back peg jumps over the front
    /// peg, which moves on by the points.
    fn add(self, rhs: Points) -> (p: Position) {
        Position { back: self.front, front: Points(self.front.0 + rhs.0) }
    }
}

impl vstd::std_specs::ops::AddSpecImpl<Points> for Position {
    open spec fn obeys_add_spec() -> bool {
        true
    }

    open spec fn add_req(self, rhs: Points) -> bool {
        self.front.0 + rhs.0 <= usize::MAX
    }

    open spec fn add_spec(self, rhs: Points) -> Position {
        advance(self, rhs.0 as nat)
    }
}

impl core::ops::AddAssign<Points> for Position {
    /// Scores `points`: the back peg jumps over the front peg, which moves on
    /// by the points.
    fn add_assign(&mut self, rhs: Points)
        requires
            old(self).front.0 + rhs.0 <= usize::MAX,
        ensures
            *final(self) == advance(*old(self), rhs.0 as nat),
    {
        self.back = self.front;
        self.front = Points(self.front.0 + rhs.0);
    }
}

/// The pair of pegs of a scoreboard `Pegging`: the back peg shows the
/// previous score, the front peg the current score.
#[derive(Clone, Copy, Debug, Default, PartialEq, Eq, Structural)]
pub struct Pegging {
    pub back_peg: Points,
    pub front_peg: Points,
}

impl Pegging {
    /// Pegs with the front at `points` and the back at 0.
    pub fn new(points: usize) -> (p: Pegging)
        ensures p == (Pegging { back_peg: Points(0), front_peg: Points(points) }),
    {
        Pegging { back_peg: Points(0), front_peg: Points(points) }
    }

    /// The back peg.
    pub fn back_peg(&self) -> (p: Points)
        ensures p == self.back_peg,
    {
        self.back_peg
    }

    /// The front peg.
    pub fn front_peg(&self) -> (p: Points)
        ensures p == self.front_peg,
    {
        self.front_peg
    }

    /// The score shown (the front peg).
    pub fn points(&self) -> (p: Points)
        ensures p == self.front_peg,
    {
        self.front_peg
    }

    /// The pegs as text, e.g. ` 21 ->  42`.
    pub fn to_string(&self) -> (s: String)
        ensures s@ == pegs_text(self.back_peg, self.front_peg),
    {
        write_pegs(self.back_peg, self.front_peg)
    }
}

impl core::ops::Add<Points> for Pegging {
    type Output = Pegging;

    /// The pegs after scoring `points`: the back peg jumps over the front
    /// peg, which moves on by the points.
    fn add(self, rhs: Points) -> (p: Pegging) {
        Pegging { back_peg: self.front_peg, front_peg: Points(self.front_peg.0 + rhs.0) }
    }
}

impl vstd::std_specs::ops::AddSpecImpl<Points> for Pegging {
    open spec fn obeys_add_spec() -> bool {
        true
    }

    open spec fn add_req(self, rhs: Points) -> bool {
        self.front_peg.0 + rhs.0 <= usize::MAX
    }

    open spec fn add_spec(self, rhs: Points) -> Pegging {
        Pegging { back_peg: self.front_peg, front_peg: Points((self.front_peg.0 + rhs.0) as usize) }
    }
}

impl core::ops::AddAssign<Points> for Pegging {
    /// Scores `points`: the back peg jumps over the front peg, which moves on
    /// by the points.
    fn add_assign(&mut self, rhs: Points)
        requires
            old(self).front_peg.0 + rhs.0 <= usize::MAX,
        ensures
            final(self).back_peg == old(self).front_peg,
            final(self).front_peg.0 == old(self).front_peg.0 + rhs.0,
    {
        self.back_peg = self.front_peg;
        self.front_peg = Points(self.front_peg.0 + rhs.0);
    }
}

/// The positions of both players, indexed by player.
pub type Positions = [Position; 2];

/// The mathematical value of a `Scoreboard`.
pub struct ScoreboardView {
    pub positions: (Position, Position),
    pub history: Seq<PeggingView>,
}

impl ScoreboardView {
    /// A board with both players at zero and no history.
    pub open spec fn zero() -> ScoreboardView {
        ScoreboardView {
            positions: (Position { back: Points(0), front: Points(0) }, Position { back: Points(0), front: Points(0) }),
            history: Seq::empty(),
        }
    }

    /// The player's position.
    pub open spec fn position(self, player: Player) -> Position {
        player.pick(self.positions)
    }

    /// Pegging fits the board: its total, added to the recipient's score,
    /// stays within the machine's integers.
    pub open spec fn peg_fits(self, pegging: PeggingView) -> bool {
        self.position(pegging.player).front.0 + items_total(pegging.sheet) <= usize::MAX
    }

    /// The board after pegging: a pegging worth points advances the
    /// recipient's pegs and joins the history; one worth nothing changes nothing.
    pub open spec fn pegged(self, pegging: PeggingView) -> ScoreboardView {
        let total = items_total(pegging.sheet);
        if total > 0 {
            ScoreboardView {
                positions: pegging.player.put(self.positions, advance(self.position(pegging.player), total)),
                history: self.history.push(pegging),
            }
        } else {
            self
        }
    }

    /// The board's text: both positions, host's first, e.g.
    /// `Scoreboard(  0 ->   2,  10 ->  12)`.
    pub open spec fn text(self) -> Seq<char> {
        "Scoreboard("@ + joined(seq![
            pegs_text(self.positions.0.back, self.positions.0.front),
            pegs_text(self.positions.1.back, self.positions.1.front),
        ]) + ")"@
    }

    /// The winner, if a player has reached the winning score (the host is
    /// looked at first).
    pub open spec fn winner(self) -> Option<Player> {
        if self.positions.0.front.0 >= WINNING_SCORE {
            Some(PLAYER0)
        } else if self.positions.1.front.0 >= WINNING_SCORE {
            Some(PLAYER1)
        } else {
            None
        }
    }
}

/// Represents the scoreboard: each player's position and the history of peggings.
#[derive(Clone, Debug, Default, PartialEq, Eq)]
pub struct Scoreboard {
    positions: Positions,
    history: Vec<scoring::Pegging>,
}

impl View for Scoreboard {
    type V = ScoreboardView;

    closed spec fn view(&self) -> ScoreboardView {
        ScoreboardView {
            positions: (self.positions@[0], self.positions@[1]),
            history: self.history@.map_values(|p: scoring::Pegging| p@),
        }
    }
}

/// Something that exposes a `Scoreboard`.
pub trait HasScoreboard {
    /// The scoreboard.
    fn scoreboard(&self) -> &Scoreboard;
}

impl Scoreboard {
    /// Creates a scoreboard with the given positions and no history.
    pub fn new(positions: Positions) -> (s: Scoreboard)
        ensures
            s@.positions == (positions@[0], positions@[1]),
            s@.history == Seq::<PeggingView>::empty(),
    {
        let s = Scoreboard { positions, history: Vec::new() };
        assert(s@.history =~= Seq::<PeggingView>::empty());
        s
    }

    /// A scoreboard with both players at zero.
    pub fn zero() -> (s: Scoreboard)
        ensures
            s@ == ScoreboardView::zero(),
    {
        Scoreboard::new([Position::new(0), Position::new(0)])
    }

    /// Returns a copy of the scoreboard.
    pub fn duplicate(&self) -> (s: Scoreboard)
        ensures s@ == self@,
    {
        let mut history: Vec<scoring::Pegging> = Vec::new();
        let mut i: usize = 0;
        while i < self.history.len()
            invariant
                i <= self.history@.len(),
                history@.map_values(|p: scoring::Pegging| p@) == self@.history.take(i as int),
            decreases self.history@.len() - i,
        {
            let p = self.history[i].duplicate();
            proof {
                assert(history@.push(p).map_values(|x: scoring::Pegging| x@) =~= history@.map_values(|x: scoring::Pegging| x@).push(p@));
                assert(self@.history.take(i + 1) =~= self@.history.take(i as int).push(self@.history[i as int]));
            }
            history.push(p);
            i = i + 1;
        }
        assert(self@.history.take(self@.history.len() as int) =~= self@.history);
        let s = Scoreboard { positions: [self.positions[0], self.positions[1]], history };
        assert(s@.history =~= self@.history);
        s
    }

    /// The board as text: both positions, host's first, e.g.
    /// `Scoreboard(  0 ->   2,  10 ->  12)`.
    pub fn to_string(&self) -> (s: String)
        ensures
            s@ == self@.text(),
    {
        let mut parts: Vec<String> = Vec::new();
        parts.push(self.positions[0].to_string());
        parts.push(self.positions[1].to_string());
        let ghost expected = seq![
            pegs_text(self@.positions.0.back, self@.positions.0.front),
            pegs_text(self@.positions.1.back, self@.positions.1.front),
        ];
        assert(texts(parts@) =~= expected);
        let mut s = String::from_str("Scoreboard(");
        s.append(format_vec(parts.as_slice()).as_str());
        s.append(")");
        s
    }

    /// Returns the position of the specified player.
    pub fn position(&self, player: Player) -> (p: Position)
        ensures p == self@.position(player),
    {
        self.positions[player.index()]
    }

    /// The history of peggings that scored points, oldest first.
    pub fn history(&self) -> (h: &Vec<scoring::Pegging>)
        ensures h@.map_values(|p: scoring::Pegging| p@) == self@.history,
    {
        &self.history
    }

    /// The pegging fits the board: the recipient's score plus its points
    /// stays within the machine's integers.
    pub fn fits(&self, pegging: &scoring::Pegging) -> (b: bool)
        ensures b == self@.peg_fits(pegging@),
    {
        let front = self.position(pegging.player()).front.0;
        pegging.score_sheet().points_after(front).is_some()
    }

    /// Updates the scoreboard with the given pegging. Returns the recipient
    /// when they have reached the winning score, otherwise `None`.
    pub fn peg(&mut self, pegging: &scoring::Pegging) -> (winner: Option<Player>)
        requires
            old(self)@.peg_fits(pegging@),
        ensures
            final(self)@ == old(self)@.pegged(pegging@),
            winner == if final(self)@.position(pegging@.player).front.0 >= WINNING_SCORE {
                Some(pegging@.player)
            } else {
                None::<Player>
            },
    {
        let player = pegging.recipient();
        let sheet = pegging.score_sheet();
        let points = sheet.points();
        let i = player.index();
        if points.0 > 0 {
            let pos = self.positions[i] + points;
            self.positions[i] = pos;
            let p = pegging.duplicate();
            proof {
                assert(self.history@.push(p).map_values(|x: scoring::Pegging| x@) =~= self@.history.push(p@));
            }
            self.history.push(p);
            assert(self@.positions == old(self)@.pegged(pegging@).positions);
        }
        if self.positions[i].front.0 >= WINNING_SCORE {
            Some(player)
        } else {
            None
        }
    }

    /// Returns a reference to the most recent pegging, if any scored points.
    pub fn latest_pegging(&self) -> (p: Option<&scoring::Pegging>)
        ensures
            match p {
                Some(q) => self@.history.len() > 0 && q@ == self@.history.last(),
                None => self@.history.len() == 0,
            },
    {
        if self.history.len() == 0 {
            None
        } else {
            Some(&self.history[self.history.len() - 1])
        }
    }

    /// Returns the winner if any player has reached the winning score.
    pub fn winner(&self) -> (w: Option<Player>)
        ensures w == self@.winner(),
    {
        if self.positions[0].front.0 >= WINNING_SCORE {
            Some(PLAYER0)
        } else if self.positions[1].front.0 >= WINNING_SCORE {
            Some(PLAYER1)
        } else {
            None
        }
    }
}

/// Pegging never takes points away: no player's front peg goes back, the
/// recipient's goes forward by the pegging's total, and the other player's
/// position does not move.
pub proof fn law_pegging_never_loses_points(board: ScoreboardView, pegging: PeggingView, player: Player)
    requires
        board.peg_fits(pegging),
    ensures
        board.pegged(pegging).position(player).front.0 >= board.position(player).front.0,
        board.pegged(pegging).position(pegging.player).front.0
            == board.position(pegging.player).front.0 + items_total(pegging.sheet),
        player != pegging.player ==> board.pegged(pegging).position(player) == board.position(player),
{
}

/// A winner has reached the winning score.
pub proof fn law_winner_reached_winning_score(board: ScoreboardView)
    ensures
        board.winner() matches Some(w) ==> board.position(w).front.0 >= WINNING_SCORE,
        board.winner() is None ==> board.positions.0.front.0 < WINNING_SCORE && board.positions.1.front.0 < WINNING_SCORE,
{
}

impl ScoreboardView {
    /// The board after pegging each of the peggings, in order.
    pub open spec fn pegged_all(self, peggings: Seq<PeggingView>) -> ScoreboardView
        decreases peggings.len(),
    {
        if peggings.len() == 0 {
            self
        } else {
            self.pegged(peggings[0]).pegged_all(peggings.drop_first())
        }
    }
}

/// The history keeps every pegging worth points, in order: after pegging
/// `p1, ..., pn`, each worth points, the history is the board's history
/// followed by them, so the latest pegging is `pn` (none, on a new board,
/// when there were none).
pub proof fn law_history_keeps_peggings(board: ScoreboardView, peggings: Seq<PeggingView>)
    requires
        forall|i: int| 0 <= i < peggings.len() ==> items_total(#[trigger] peggings[i].sheet) > 0,
    ensures
        board.pegged_all(peggings).history == board.history + peggings,
        peggings.len() > 0 ==> board.pegged_all(peggings).history.last() == peggings.last(),
        peggings.len() == 0 ==> board.pegged_all(peggings).history == board.history,
    decreases peggings.len(),
{
    if peggings.len() > 0 {
        let rest = peggings.drop_first();
        assert forall|i: int| 0 <= i < rest.len() implies items_total(#[trigger] rest[i].sheet) > 0 by {
            assert(rest[i] == peggings[i + 1]);
        }
        assert(items_total(peggings[0].sheet) > 0);
        law_history_keeps_peggings(board.pegged(peggings[0]), rest);
        assert(board.history.push(peggings[0]) + rest =~= board.history + peggings);
    } else {
        assert(board.history + peggings =~= board.history);
    }
}

} // verus!
