use vstd::prelude::*;
use vstd::string::*;

use crate::display::{format_vec, joined, texts};

verus! {

/// Represents a player in the game: only two players are supported, the
/// host (index 0) and the guest (index 1).
#[derive(Clone, Copy, Debug, PartialEq, Eq, Structural, Hash)]
pub enum Player {
    /// The host, index 0.
    First,
    /// The guest, index 1.
    Second,
}

/// The first player (index 0), the host.
pub const PLAYER0: Player = Player::First;

/// The second player (index 1), the guest.
pub const PLAYER1: Player = Player::Second;

/// The number of players in a game.
pub const PLAYER_COUNT: usize = 2;

/// Returns both players, in index order.
pub fn players() -> (ps: [Player; 2])
    ensures ps@ == seq![PLAYER0, PLAYER1],
{
    let ps = [PLAYER0, PLAYER1];
    assert(ps@ =~= seq![PLAYER0, PLAYER1]);
    ps
}

impl Player {
    /// The player's index: 0 for the host, 1 for the guest.
    pub open spec fn spec_index(self) -> nat {
        match self {
            Player::First => 0,
            Player::Second => 1,
        }
    }

    /// The other player.
    pub open spec fn spec_opponent(self) -> Player {
        match self {
            Player::First => PLAYER1,
            Player::Second => PLAYER0,
        }
    }

    /// Picks, of a pair of values held per player, the one of this player.
    pub open spec fn pick<A>(self, pair: (A, A)) -> A {
        match self {
            Player::First => pair.0,
            Player::Second => pair.1,
        }
    }

    /// Replaces, in a pair of values held per player, the one of this player.
    pub open spec fn put<A>(self, pair: (A, A), a: A) -> (A, A) {
        match self {
            Player::First => (a, pair.1),
            Player::Second => (pair.0, a),
        }
    }

    /// The player's text: `Player(0)` for the host, `Player(1)` for the guest.
    pub open spec fn spec_text(self) -> Seq<char> {
        match self {
            Player::First => "Player(0)"@,
            Player::Second => "Player(1)"@,
        }
    }

    /// Writes the player as text: `Player(0)` for the host, `Player(1)` for
    /// the guest.
    pub fn to_string(&self) -> (s: String)
        ensures s@ == self.spec_text(),
    {
        match self {
            Player::First => String::from_str("Player(0)"),
            Player::Second => String::from_str("Player(1)"),
        }
    }

    /// Returns the opponent of this player.
    pub fn opponent(&self) -> (p: Player)
        ensures p == self.spec_opponent(),
    {
        match self {
            Player::First => PLAYER1,
            Player::Second => PLAYER0,
        }
    }

    /// Returns the player's index: 0 for the host, 1 for the guest.
    pub fn index(&self) -> (i: usize)
        ensures i == self.spec_index(),
    {
        match self {
            Player::First => 0,
            Player::Second => 1,
        }
    }

    /// The player of the given index, if the index names one of the two players.
    pub fn from_index(index: usize) -> (p: Option<Player>)
        ensures
            index == 0 ==> p == Some(PLAYER0),
            index == 1 ==> p == Some(PLAYER1),
            index > 1 ==> p is None,
    {
        if index == 0 {
            Some(PLAYER0)
        } else if index == 1 {
            Some(PLAYER1)
        } else {
            None
        }
    }
}

/// The opponent of the opponent is the player itself.
pub proof fn law_opponent_twice(p: Player)
    ensures
        p.spec_opponent().spec_opponent() == p,
        p.spec_opponent() != p,
{
}

/// Represents the dealer of a round.
#[derive(Clone, Copy, Debug, PartialEq, Eq, Structural)]
pub struct Dealer(pub Player);

/// Represents the pone (non-dealer) of a round.
#[derive(Clone, Copy, Debug, PartialEq, Eq, Structural)]
pub struct Pone(pub Player);

impl Dealer {
    /// The dealer's text, e.g. `Dealer(Player(0))`.
    pub open spec fn spec_text(self) -> Seq<char> {
        "Dealer("@ + self.0.spec_text() + ")"@
    }

    /// Writes the dealer as text, e.g. `Dealer(Player(0))`.
    pub fn to_string(&self) -> (s: String)
        ensures s@ == self.spec_text(),
    {
        let mut s = String::from_str("Dealer(");
        s.append(self.0.to_string().as_str());
        s.append(")");
        proof {
            reveal_strlit("Dealer(");
            reveal_strlit(")");
        }
        s
    }

    /// Returns the player who is the dealer.
    pub fn player(&self) -> (p: Player)
        ensures p == self.0,
    {
        self.0
    }

    /// Returns the opponent of the dealer, wrapped as the `Pone`.
    pub fn opponent(&self) -> (p: Pone)
        ensures p == Pone(self.0.spec_opponent()),
    {
        Pone(self.0.opponent())
    }
}

impl Pone {
    /// The pone's text, e.g. `Pone(Player(1))`.
    pub open spec fn spec_text(self) -> Seq<char> {
        "Pone("@ + self.0.spec_text() + ")"@
    }

    /// Writes the pone as text, e.g. `Pone(Player(1))`.
    pub fn to_string(&self) -> (s: String)
        ensures s@ == self.spec_text(),
    {
        let mut s = String::from_str("Pone(");
        s.append(self.0.to_string().as_str());
        s.append(")");
        proof {
            reveal_strlit("Pone(");
            reveal_strlit(")");
        }
        s
    }

    /// Returns the underlying `Player` representing the pone.
    pub fn player(&self) -> (p: Player)
        ensures p == self.0,
    {
        self.0
    }

    /// Returns the opponent (dealer) of this pone.
    pub fn opponent(&self) -> (d: Dealer)
        ensures d == Dealer(self.0.spec_opponent()),
    {
        Dealer(self.0.opponent())
    }
}

impl From<Player> for Dealer {
    fn from(value: Player) -> (d: Dealer)
        ensures d == Dealer(value),
    {
        Dealer(value)
    }
}

impl vstd::std_specs::convert::FromSpecImpl<Player> for Dealer {
    open spec fn obeys_from_spec() -> bool {
        true
    }

    open spec fn from_spec(v: Player) -> Dealer {
        Dealer(v)
    }
}

impl From<Player> for Pone {
    fn from(value: Player) -> (p: Pone)
        ensures p == Pone(value),
    {
        Pone(value)
    }
}

impl vstd::std_specs::convert::FromSpecImpl<Player> for Pone {
    open spec fn obeys_from_spec() -> bool {
        true
    }

    open spec fn from_spec(v: Player) -> Pone {
        Pone(v)
    }
}

/// The roles of the two players in a round: the dealer and the pone, who are
/// always opponents of each other.
#[derive(Clone, Copy, Debug, PartialEq, Eq)]
pub struct Roles {
    dealer: Dealer,
    pone: Pone,
}

/// The roles that the cuts for deal decide: the player who cut the lower
/// rank deals; none while a cut is missing or when the ranks tie.
pub open spec fn roles_from_cuts(cuts: (Option<crate::domain::cards::Card>, Option<crate::domain::cards::Card>)) -> Option<Roles> {
    match cuts {
        (Some(c0), Some(c1)) =>
            if c0.spec_rank() < c1.spec_rank() {
                Some(Roles::spec_new(PLAYER0))
            } else if c1.spec_rank() < c0.spec_rank() {
                Some(Roles::spec_new(PLAYER1))
            } else {
                None
            },
        _ => None,
    }
}

impl Roles {
    #[verifier::type_invariant]
    spec fn inv(self) -> bool {
        self.pone.0 == self.dealer.0.spec_opponent()
    }

    /// The dealer of the round.
    pub closed spec fn spec_dealer(self) -> Player {
        self.dealer.0
    }

    /// The roles in which `dealer` deals; the pone is the dealer's opponent.
    pub closed spec fn spec_new(dealer: Player) -> Roles {
        Roles { dealer: Dealer(dealer), pone: Pone(dealer.spec_opponent()) }
    }

    /// The roles are those in which their dealer deals.
    pub proof fn lemma_new_dealer(dealer: Player)
        ensures
            #[trigger] Roles::spec_new(dealer).spec_dealer() == dealer,
    {
    }

    /// Creates the roles given the dealer; the pone is the dealer's opponent.
    pub fn new(dealer: Dealer) -> (r: Roles)
        ensures
            r == Roles::spec_new(dealer.0),
            r.spec_dealer() == dealer.0,
    {
        Roles { dealer, pone: dealer.opponent() }
    }

    /// Decides the roles from the two cuts for deal: the player who cut the
    /// lower rank deals. Returns `None` if a cut is missing or the ranks tie.
    pub fn from_cuts(cuts: &[Option<crate::domain::cards::Card>; 2]) -> (r: Option<Roles>)
        ensures
            r == roles_from_cuts((cuts@[0], cuts@[1])),
    {
        match (cuts[0], cuts[1]) {
            (Some(c0), Some(c1)) => {
                let r0 = c0.rank();
                let r1 = c1.rank();
                if r0 < r1 {
                    Some(Roles::new(Dealer(PLAYER0)))
                } else if r1 < r0 {
                    Some(Roles::new(Dealer(PLAYER1)))
                } else {
                    None
                }
            },
            _ => None,
        }
    }

    /// The roles' text: the dealer, then the pone, e.g.
    /// `Dealer(Player(0)), Pone(Player(1))`.
    pub open spec fn spec_text(self) -> Seq<char> {
        Dealer(self.spec_dealer()).spec_text() + ", "@ + Pone(self.spec_dealer().spec_opponent()).spec_text()
    }

    /// Writes the roles as text: the dealer, then the pone.
    pub fn to_string(&self) -> (s: String)
        ensures s@ == self.spec_text(),
    {
        let mut s = self.dealer().to_string();
        s.append(", ");
        s.append(self.pone().to_string().as_str());
        proof {
            reveal_strlit(", ");
        }
        s
    }

    /// Returns the dealer.
    pub fn dealer(&self) -> (d: Dealer)
        ensures
            d == Dealer(self.spec_dealer()),
            *self == Roles::spec_new(self.spec_dealer()),
    {
        proof {
            use_type_invariant(self);
        }
        self.dealer
    }

    /// Returns the pone: always the dealer's opponent.
    pub fn pone(&self) -> (p: Pone)
        ensures p == Pone(self.spec_dealer().spec_opponent()),
    {
        proof {
            use_type_invariant(self);
        }
        self.pone
    }

    /// Swaps the dealer and pone roles in place.
    pub fn swap(&mut self)
        ensures
            *final(self) == Roles::spec_new(old(self).spec_dealer().spec_opponent()),
            final(self).spec_dealer() == old(self).spec_dealer().spec_opponent(),
    {
        proof {
            use_type_invariant(&*self);
        }
        let was_dealer = self.dealer.player();
        let was_pone = self.pone.player();
        *self = Roles { dealer: Dealer(was_pone), pone: Pone(was_dealer) };
    }
}

/// Tracks which players still owe an acknowledgement (or an action) before
/// the game can move on.
#[derive(Clone, Copy, Debug, PartialEq, Eq, Structural)]
pub struct Pending {
    waiting_host: bool,
    waiting_guest: bool,
}

impl Pending {
    /// Whether the given player is still awaited.
    pub closed spec fn spec_waiting_on(self, player: Player) -> bool {
        player.pick((self.waiting_host, self.waiting_guest))
    }

    /// A tracker awaiting both players.
    pub closed spec fn spec_new() -> Pending {
        Pending { waiting_host: true, waiting_guest: true }
    }

    /// The tracker once `player` has acknowledged.
    pub closed spec fn spec_acknowledged(self, player: Player) -> Pending {
        match player {
            Player::First => Pending { waiting_host: false, ..self },
            Player::Second => Pending { waiting_guest: false, ..self },
        }
    }

    /// What the tracker says: a new one awaits everyone, and after a player's
    /// acknowledgement it awaits whoever else it awaited before.
    pub proof fn law_waiting(self)
        ensures
            forall|p: Player| #![trigger Pending::spec_new().spec_waiting_on(p)] Pending::spec_new().spec_waiting_on(p),
            forall|p: Player, q: Player| #[trigger] self.spec_acknowledged(p).spec_waiting_on(q)
                == (q != p && self.spec_waiting_on(q)),
    {
    }

    /// The texts of the players awaited, host first.
    pub open spec fn awaited_texts(self) -> Seq<Seq<char>> {
        (if self.spec_waiting_on(PLAYER0) { seq![PLAYER0.spec_text()] } else { Seq::empty() })
            + (if self.spec_waiting_on(PLAYER1) { seq![PLAYER1.spec_text()] } else { Seq::empty() })
    }

    /// The tracker's text: the players awaited, e.g.
    /// `Pending(Player(0), Player(1))`.
    pub open spec fn spec_text(self) -> Seq<char> {
        "Pending("@ + joined(self.awaited_texts()) + ")"@
    }

    /// Writes the tracker as text: the players awaited, host first.
    pub fn to_string(&self) -> (s: String)
        ensures s@ == self.spec_text(),
    {
        let mut parts: Vec<String> = Vec::new();
        if self.waiting_host {
            parts.push(PLAYER0.to_string());
        }
        if self.waiting_guest {
            parts.push(PLAYER1.to_string());
        }
        assert(texts(parts@) =~= self.awaited_texts());
        let mut s = String::from_str("Pending(");
        s.append(format_vec(parts.as_slice()).as_str());
        s.append(")");
        proof {
            reveal_strlit("Pending(");
            reveal_strlit(")");
        }
        s
    }

    /// A tracker awaiting both players.
    pub fn new() -> (p: Pending)
        ensures
            p == Pending::spec_new(),
            p.spec_waiting_on(PLAYER0),
            p.spec_waiting_on(PLAYER1),
    {
        Pending { waiting_host: true, waiting_guest: true }
    }

    /// Returns `true` if the given player is still awaited.
    pub fn waiting_on(&self, player: Player) -> (b: bool)
        ensures b == self.spec_waiting_on(player),
    {
        match player {
            Player::First => self.waiting_host,
            Player::Second => self.waiting_guest,
        }
    }

    /// Records the player's acknowledgement; returns `true` when no player is
    /// awaited any more, i.e. the game may proceed.
    pub fn acknowledge(&mut self, player: Player) -> (proceed: bool)
        ensures
            *final(self) == old(self).spec_acknowledged(player),
            !final(self).spec_waiting_on(player),
            final(self).spec_waiting_on(player.spec_opponent()) == old(self).spec_waiting_on(player.spec_opponent()),
            proceed == !old(self).spec_waiting_on(player.spec_opponent()),
    {
        match player {
            Player::First => {
                self.waiting_host = false;
                !self.waiting_guest
            },
            Player::Second => {
                self.waiting_guest = false;
                !self.waiting_host
            },
        }
    }
}

impl Default for Pending {
    fn default() -> (p: Pending)
        ensures
            p == Pending::spec_new(),
            p.spec_waiting_on(PLAYER0),
            p.spec_waiting_on(PLAYER1),
    {
        Pending::new()
    }
}

/// Swapping the roles twice gives the roles back: the dealer deals again.
pub proof fn law_swap_twice(dealer: Player)
    ensures
        ({
            let once = Roles::spec_new(Roles::spec_new(dealer).spec_dealer().spec_opponent());
            Roles::spec_new(once.spec_dealer().spec_opponent()) == Roles::spec_new(dealer)
        }),
        Roles::spec_new(Roles::spec_new(dealer).spec_dealer().spec_opponent()).spec_dealer() != dealer,
{
}

/// Acknowledgements: once both players have acknowledged, in either order,
/// nobody is awaited; acknowledging twice is acknowledging once; and the
/// order of two acknowledgements does not matter.
pub proof fn law_acknowledgements(pending: Pending, player: Player)
    ensures
        forall|q: Player| !#[trigger] Pending::spec_new().spec_acknowledged(player).spec_acknowledged(player.spec_opponent()).spec_waiting_on(q),
        pending.spec_acknowledged(player).spec_acknowledged(player) == pending.spec_acknowledged(player),
        pending.spec_acknowledged(player).spec_acknowledged(player.spec_opponent())
            == pending.spec_acknowledged(player.spec_opponent()).spec_acknowledged(player),
{
}

} // verus!
