use vstd::prelude::*;
use vstd::string::*;

use crate::display::{decimal, format_vec, joined, spec_decimal, texts};

use crate::domain::cards::{cards_text, format_cards, Card, Face, Suit};
use crate::domain::players::Player;
use crate::domain::plays::{GoStatus, Play, PlayState, PlayStateView, cards_of, PLAY_TARGET};

verus! {

broadcast use vstd::seq_lib::group_seq_properties;

/// Points for the starter being a jack ("his heels").
pub const SCORE_HIS_HEELS: usize = 2;
/// Points for each combination totalling fifteen.
pub const SCORE_FIFTEEN: usize = 2;
/// Points for bringing the play to exactly thirty-one.
pub const SCORE_THIRTY_ONE: usize = 2;
/// Points for the last card of a series of play that falls short of thirty-one.
pub const SCORE_GO: usize = 1;
/// Points for a pair.
pub const SCORE_PAIR: usize = 2;
/// Points for three of a kind ("pair royal").
pub const SCORE_ROYAL_PAIR: usize = 6;
/// Points for four of a kind ("double pair royal").
pub const SCORE_DOUBLE_ROYAL_PAIR: usize = 12;
/// Points for the jack of the starter's suit in hand or crib ("his nobs").
pub const SCORE_NOBS: usize = 1;
/// The fewest cards that make a run.
pub const MINIMUM_RUN_LENGTH: usize = 3;

/// Represents a point value in the game.
#[derive(Clone, Copy, Debug, Default, PartialEq, Eq, PartialOrd, Ord, Structural, Hash)]
pub struct Points(pub usize);

impl Points {
    /// Returns the numeric value of the points.
    pub fn value(&self) -> (v: usize)
        ensures v == self.0,
    {
        self.0
    }

    /// Returns the points written as a decimal number, e.g. `42`.
    pub fn to_string(&self) -> (s: String)
        ensures s@ == crate::display::spec_decimal(self.0 as nat),
    {
        crate::display::decimal(self.0)
    }
}

impl core::ops::Add for Points {
    type Output = Points;

    /// The sum of two point values; the sum must fit the machine's integers.
    fn add(self, rhs: Points) -> (r: Points) {
        Points(self.0 + rhs.0)
    }
}

impl vstd::std_specs::ops::AddSpecImpl for Points {
    open spec fn obeys_add_spec() -> bool {
        true
    }

    open spec fn add_req(self, rhs: Points) -> bool {
        self.0 + rhs.0 <= usize::MAX
    }

    open spec fn add_spec(self, rhs: Points) -> Points {
        Points((self.0 + rhs.0) as usize)
    }
}

impl core::ops::AddAssign for Points {
    /// Adds `rhs` to the points; the sum must fit the machine's integers.
    fn add_assign(&mut self, rhs: Points)
        requires
            old(self).0 + rhs.0 <= usize::MAX,
        ensures
            final(self).0 == old(self).0 + rhs.0,
    {
        self.0 = self.0 + rhs.0;
    }
}

impl From<usize> for Points {
    fn from(value: usize) -> (p: Points)
        ensures p == Points(value),
    {
        Points(value)
    }
}

impl vstd::std_specs::convert::FromSpecImpl<usize> for Points {
    open spec fn obeys_from_spec() -> bool {
        true
    }

    open spec fn from_spec(v: usize) -> Points {
        Points(v)
    }
}

/// Represents the kind of scoring event that occurred during play or counting.
#[derive(Clone, Copy, Debug, PartialEq, Eq, Structural, Hash)]
pub enum ScoreKind {
    Fifteen,
    Pair,
    Triplet,
    Quadruplet,
    Run,
    Flush,
    LastCard,
    ThirtyOne,
    HisHeels,
    Nobs,
}

impl ScoreKind {
    /// The kind's name, e.g. `Fifteen`.
    pub open spec fn spec_text(self) -> Seq<char> {
        match self {
            ScoreKind::Fifteen => "Fifteen"@,
            ScoreKind::Pair => "Pair"@,
            ScoreKind::Triplet => "Triplet"@,
            ScoreKind::Quadruplet => "Quadruplet"@,
            ScoreKind::Run => "Run"@,
            ScoreKind::Flush => "Flush"@,
            ScoreKind::LastCard => "LastCard"@,
            ScoreKind::ThirtyOne => "ThirtyOne"@,
            ScoreKind::HisHeels => "HisHeels"@,
            ScoreKind::Nobs => "Nobs"@,
        }
    }

    /// Returns the kind's name, e.g. `Fifteen`.
    pub fn as_str(&self) -> (s: &'static str)
        ensures s@ == self.spec_text(),
    {
        proof {
            reveal_strlit("Fifteen");
            reveal_strlit("Pair");
            reveal_strlit("Triplet");
            reveal_strlit("Quadruplet");
            reveal_strlit("Run");
            reveal_strlit("Flush");
            reveal_strlit("LastCard");
            reveal_strlit("ThirtyOne");
            reveal_strlit("HisHeels");
            reveal_strlit("Nobs");
        }
        match self {
            ScoreKind::Fifteen => "Fifteen",
            ScoreKind::Pair => "Pair",
            ScoreKind::Triplet => "Triplet",
            ScoreKind::Quadruplet => "Quadruplet",
            ScoreKind::Run => "Run",
            ScoreKind::Flush => "Flush",
            ScoreKind::LastCard => "LastCard",
            ScoreKind::ThirtyOne => "ThirtyOne",
            ScoreKind::HisHeels => "HisHeels",
            ScoreKind::Nobs => "Nobs",
        }
    }
}

/// The kinds of score named by the rules, as used in game records.
#[derive(Clone, Copy, Debug, PartialEq, Eq, Structural)]
pub enum Kind {
    Fifteen,
    Pair,
    Triplet,
    Quadruplet,
    Run,
    Flush,
    Go,
    ThirtyOne,
    HisHeels,
    Nobs,
}

/// Represents the distinct moments of a round at which points are scored.
#[derive(Clone, Copy, Debug, PartialEq, Eq, Structural)]
pub enum Phase {
    Starter,
    Play,
    PoneHand,
    DealerHand,
    Crib,
}

/// A single scoring event: its kind, the cards that made it, and the points.
#[derive(Clone, Debug, PartialEq, Eq)]
pub struct ScoreItem {
    kind: ScoreKind,
    cards: Vec<Card>,
    points: Points,
}

/// The mathematical value of a `ScoreItem`.
pub struct ScoreItemView {
    pub kind: ScoreKind,
    pub cards: Seq<Card>,
    pub points: Points,
}

/// The score item of the given kind, cards and points.
pub open spec fn item(kind: ScoreKind, cards: Seq<Card>, points: usize) -> ScoreItemView {
    ScoreItemView { kind, cards, points: Points(points) }
}

impl ScoreItemView {
    /// The item's text: kind, cards and points, e.g. `Fifteen: (7H, 8H) -> 2`.
    pub open spec fn text(self) -> Seq<char> {
        self.kind.spec_text() + ": ("@ + cards_text(self.cards) + ") -> "@ + spec_decimal(self.points.0 as nat)
    }
}

/// The text of each item.
pub open spec fn item_texts(items: Seq<ScoreItemView>) -> Seq<Seq<char>> {
    items.map_values(|i: ScoreItemView| i.text())
}

/// A score sheet's text: the items' texts joined with `", "`.
pub open spec fn sheet_text(items: Seq<ScoreItemView>) -> Seq<char> {
    joined(item_texts(items))
}

impl PeggingView {
    /// The pegging's text: the recipient, then the sheet, e.g.
    /// `Player(0) -> Fifteen: (7H, 8H) -> 2`.
    pub open spec fn text(self) -> Seq<char> {
        self.player.spec_text() + " -> "@ + sheet_text(self.sheet)
    }
}

impl View for ScoreItem {
    type V = ScoreItemView;

    closed spec fn view(&self) -> ScoreItemView {
        ScoreItemView { kind: self.kind, cards: self.cards@, points: self.points }
    }
}

impl ScoreItem {
    /// Constructs a new `ScoreItem` with the specified kind, contributing cards,
    /// and points awarded.
    pub fn new(kind: ScoreKind, cards: Vec<Card>, points: Points) -> (s: ScoreItem)
        ensures s@ == (ScoreItemView { kind, cards: cards@, points }),
    {
        ScoreItem { kind, cards, points }
    }

    /// Returns the kind of score this item represents.
    pub fn kind(&self) -> (k: ScoreKind)
        ensures k == self@.kind,
    {
        self.kind
    }

    /// Returns the cards that contributed to this scoring event.
    pub fn cards(&self) -> (c: &Vec<Card>)
        ensures c@ == self@.cards,
    {
        &self.cards
    }

    /// Returns the number of points awarded for this scoring item.
    pub fn points(&self) -> (p: Points)
        ensures p == self@.points,
    {
        self.points
    }

    /// Writes the item as text: kind, cards and points, e.g.
    /// `Fifteen: (7H, 8H) -> 2`.
    pub fn to_string(&self) -> (s: String)
        ensures s@ == self@.text(),
    {
        let mut s = String::from_str(self.kind.as_str());
        s.append(": (");
        s.append(format_cards(self.cards.as_slice()).as_str());
        s.append(") -> ");
        s.append(decimal(self.points.0).as_str());
        proof {
            reveal_strlit(": (");
            reveal_strlit(") -> ");
        }
        s
    }

    /// Returns a copy of the item.
    pub fn duplicate(&self) -> (s: ScoreItem)
        ensures s@ == self@,
    {
        ScoreItem { kind: self.kind, cards: copy_cards(self.cards.as_slice()), points: self.points }
    }
}

/// Copies a slice of cards into a new vector.
pub fn copy_cards(cards: &[Card]) -> (v: Vec<Card>)
    ensures v@ == cards@,
{
    let mut v: Vec<Card> = Vec::new();
    let mut i: usize = 0;
    while i < cards.len()
        invariant
            i <= cards@.len(),
            v@ == cards@.take(i as int),
        decreases cards.len() - i,
    {
        v.push(cards[i]);
        i = i + 1;
    }
    assert(cards@.take(cards@.len() as int) =~= cards@);
    v
}

// ---------------------------------------------------------------------------
// Card arithmetic used by the scoring rules.
// ---------------------------------------------------------------------------

/// The sum of the pip values of the cards.
pub open spec fn value_sum(cards: Seq<Card>) -> nat
    decreases cards.len(),
{
    if cards.len() == 0 {
        0
    } else {
        value_sum(cards.drop_last()) + cards.last().spec_value()
    }
}

/// The sum of a prefix never exceeds the sum of the whole.
pub proof fn lemma_value_sum_prefix(cards: Seq<Card>, i: int)
    requires
        0 <= i <= cards.len(),
    ensures
        value_sum(cards.take(i)) <= value_sum(cards),
    decreases cards.len() - i,
{
    if i < cards.len() {
        lemma_value_sum_prefix(cards, i + 1);
        assert(cards.take(i + 1).drop_last() =~= cards.take(i));
    } else {
        assert(cards.take(i) =~= cards);
    }
}

/// All the ways of choosing `k` of the cards, keeping their order: the
/// combinations in lexicographic order of positions.
pub open spec fn combos(cards: Seq<Card>, k: nat) -> Seq<Seq<Card>>
    decreases cards.len(),
{
    if k == 0 {
        seq![Seq::<Card>::empty()]
    } else if cards.len() < k {
        Seq::empty()
    } else {
        combos(cards.drop_first(), (k - 1) as nat).map_values(|c: Seq<Card>| seq![cards[0]] + c)
            + combos(cards.drop_first(), k)
    }
}

/// Every combination of `k` cards has exactly `k` cards.
pub proof fn lemma_combos_len(cards: Seq<Card>, k: nat)
    ensures
        forall|i: int| 0 <= i < combos(cards, k).len() ==> #[trigger] combos(cards, k)[i].len() == k,
    decreases cards.len(),
{
    if k == 0 {
    } else if cards.len() < k {
    } else {
        lemma_combos_len(cards.drop_first(), (k - 1) as nat);
        lemma_combos_len(cards.drop_first(), k);
        let a = combos(cards.drop_first(), (k - 1) as nat).map_values(|c: Seq<Card>| seq![cards[0]] + c);
        let b = combos(cards.drop_first(), k);
        assert forall|i: int| 0 <= i < combos(cards, k).len() implies #[trigger] combos(cards, k)[i].len() == k by {
            if i < a.len() {
                assert(combos(cards, k)[i] == a[i]);
            } else {
                assert(combos(cards, k)[i] == b[i - a.len()]);
            }
        }
    }
}

/// The combinations of `k` of `cards[start..]`, in lexicographic order.
pub fn combinations(cards: &[Card], start: usize, k: usize) -> (r: Vec<Vec<Card>>)
    requires
        start <= cards@.len(),
    ensures
        r@.len() == combos(cards@.skip(start as int), k as nat).len(),
        forall|i: int| 0 <= i < r@.len() ==> #[trigger] r@[i]@ == combos(cards@.skip(start as int), k as nat)[i],
    decreases cards@.len() - start,
{
    let ghost s = cards@.skip(start as int);
    if k == 0 {
        let mut r: Vec<Vec<Card>> = Vec::new();
        r.push(Vec::new());
        return r;
    }
    if cards.len() - start < k {
        return Vec::new();
    }
    let first = cards[start];
    let ghost tail = cards@.skip(start + 1);
    assert(s.drop_first() =~= tail);
    let with_first = combinations(cards, start + 1, k - 1);
    let without_first = combinations(cards, start + 1, k);
    let ghost a = combos(tail, (k - 1) as nat).map_values(|c: Seq<Card>| seq![s[0]] + c);
    let ghost b = combos(tail, k as nat);
    assert(combos(s, k as nat) == a + b);
    let mut r: Vec<Vec<Card>> = Vec::new();
    let mut i: usize = 0;
    while i < with_first.len()
        invariant
            i <= with_first@.len(),
            with_first@.len() == a.len(),
            forall|j: int| 0 <= j < with_first@.len() ==> #[trigger] with_first@[j]@ == combos(tail, (k - 1) as nat)[j],
            a == combos(tail, (k - 1) as nat).map_values(|c: Seq<Card>| seq![first] + c),
            r@.len() == i,
            forall|j: int| 0 <= j < i ==> #[trigger] r@[j]@ == a[j],
        decreases with_first@.len() - i,
    {
        let mut c: Vec<Card> = Vec::new();
        c.push(first);
        let mut j: usize = 0;
        let src = &with_first[i];
        while j < src.len()
            invariant
                j <= src@.len(),
                c@ == seq![first] + src@.take(j as int),
            decreases src@.len() - j,
        {
            c.push(src[j]);
            proof {
                assert(seq![first] + src@.take(j + 1) =~= (seq![first] + src@.take(j as int)).push(src@[j as int]));
            }
            j = j + 1;
        }
        assert(src@.take(src@.len() as int) =~= src@);
        r.push(c);
        i = i + 1;
    }
    let mut i: usize = 0;
    let ghost base = r@;
    while i < without_first.len()
        invariant
            i <= without_first@.len(),
            without_first@.len() == b.len(),
            forall|j: int| 0 <= j < without_first@.len() ==> #[trigger] without_first@[j]@ == b[j],
            base.len() == a.len(),
            forall|j: int| 0 <= j < a.len() ==> #[trigger] base[j]@ == a[j],
            r@.len() == a.len() + i,
            forall|j: int| 0 <= j < a.len() ==> #[trigger] r@[j] == base[j],
            forall|j: int| a.len() <= j < a.len() + i ==> #[trigger] r@[j]@ == b[j - a.len()],
        decreases without_first@.len() - i,
    {
        let c = copy_cards(without_first[i].as_slice());
        r.push(c);
        i = i + 1;
    }
    r
}


// ---------------------------------------------------------------------------
// The rules for counting a hand or the crib, as sequences of score items.
// ---------------------------------------------------------------------------

/// One `Fifteen` item, worth 2, for each combination whose values total 15.
pub open spec fn fifteen_items(cs: Seq<Seq<Card>>) -> Seq<ScoreItemView>
    decreases cs.len(),
{
    if cs.len() == 0 {
        Seq::empty()
    } else if value_sum(cs.last()) == 15 {
        fifteen_items(cs.drop_last()).push(item(ScoreKind::Fifteen, cs.last(), SCORE_FIFTEEN))
    } else {
        fifteen_items(cs.drop_last())
    }
}

/// The fifteens made of `k` or more of the cards: smaller combinations first,
/// each size in lexicographic order.
pub open spec fn fifteens_from(cards: Seq<Card>, k: nat) -> Seq<ScoreItemView>
    decreases cards.len() + 1 - k,
{
    if k > cards.len() {
        Seq::empty()
    } else {
        fifteen_items(combos(cards, k)) + fifteens_from(cards, k + 1)
    }
}

/// One `Pair` item, worth 2, for each two cards of the same face.
pub open spec fn pair_items(cs: Seq<Seq<Card>>) -> Seq<ScoreItemView>
    decreases cs.len(),
{
    if cs.len() == 0 {
        Seq::empty()
    } else if cs.last().len() == 2 && cs.last()[0].face == cs.last()[1].face {
        pair_items(cs.drop_last()).push(item(ScoreKind::Pair, cs.last(), SCORE_PAIR))
    } else {
        pair_items(cs.drop_last())
    }
}

/// Each card ranks exactly one above the card before it.
pub open spec fn consecutive(cs: Seq<Card>) -> bool {
    forall|i: int| 0 <= i < cs.len() - 1 ==> #[trigger] cs[i + 1].spec_rank() == cs[i].spec_rank() + 1
}

/// One `Run` item, worth its length, for each combination of consecutive ranks.
pub open spec fn run_items(cs: Seq<Seq<Card>>, len: nat) -> Seq<ScoreItemView>
    decreases cs.len(),
{
    if cs.len() == 0 {
        Seq::empty()
    } else if consecutive(cs.last()) {
        run_items(cs.drop_last(), len).push(item(ScoreKind::Run, cs.last(), len as usize))
    } else {
        run_items(cs.drop_last(), len)
    }
}

/// The runs of the longest length, `len` or shorter, for which any run exists
/// among the cards (which are sorted by rank); no runs shorter than three.
pub open spec fn longest_runs(sorted: Seq<Card>, len: nat) -> Seq<ScoreItemView>
    decreases len,
{
    if len < MINIMUM_RUN_LENGTH {
        Seq::empty()
    } else {
        let runs = run_items(combos(sorted, len), len);
        if runs.len() > 0 {
            runs
        } else {
            longest_runs(sorted, (len - 1) as nat)
        }
    }
}

/// Inserts a card into cards sorted by rank, after every card of lower or
/// equal rank (so that equal ranks keep their order).
pub open spec fn insert_by_rank(sorted: Seq<Card>, c: Card) -> Seq<Card>
    decreases sorted.len(),
{
    if sorted.len() == 0 {
        seq![c]
    } else if sorted.last().spec_rank() <= c.spec_rank() {
        sorted.push(c)
    } else {
        insert_by_rank(sorted.drop_last(), c).push(sorted.last())
    }
}

/// The cards sorted by rank, stably: cards of equal rank keep their order.
pub open spec fn sort_by_rank(cards: Seq<Card>) -> Seq<Card>
    decreases cards.len(),
{
    if cards.len() == 0 {
        Seq::empty()
    } else {
        insert_by_rank(sort_by_rank(cards.drop_last()), cards.last())
    }
}

/// All the cards are of one suit.
pub open spec fn same_suit(cs: Seq<Card>) -> bool {
    forall|i: int| 0 <= i < cs.len() ==> #[trigger] cs[i].suit == cs[0].suit
}

/// The flush, if any: all the cards and the starter of one suit score one per
/// card; failing that, the cards alone of one suit score one per card. Either
/// needs at least `min` cards.
pub open spec fn flush_items(cards: Seq<Card>, cut: Card, min: nat) -> Seq<ScoreItemView> {
    let all = cards.push(cut);
    if all.len() >= min && same_suit(all) {
        seq![item(ScoreKind::Flush, all, all.len() as usize)]
    } else if cards.len() >= min && same_suit(cards) {
        seq![item(ScoreKind::Flush, cards, cards.len() as usize)]
    } else {
        Seq::empty()
    }
}

/// His nobs: one point when the cards hold the jack of the starter's suit.
pub open spec fn nobs_items(cards: Seq<Card>, cut: Card) -> Seq<ScoreItemView> {
    if exists|i: int| 0 <= i < cards.len() && #[trigger] cards[i].face == Face::Jack && cards[i].suit == cut.suit {
        seq![item(ScoreKind::Nobs, cards, SCORE_NOBS)]
    } else {
        Seq::empty()
    }
}

/// The count of a hand or crib with the starter: fifteens, pairs, runs, then
/// the flush (which needs `flush_min` cards) and his nobs.
#[verifier::opaque]
pub open spec fn count_items(cards: Seq<Card>, cut: Card, flush_min: nat) -> Seq<ScoreItemView> {
    let all = cards.push(cut);
    fifteens_from(all, 2)
        + pair_items(combos(all, 2))
        + longest_runs(sort_by_rank(all), all.len())
        + flush_items(cards, cut, flush_min)
        + nobs_items(cards, cut)
}

/// The total points of a sequence of score items.
pub open spec fn items_total(items: Seq<ScoreItemView>) -> nat
    decreases items.len(),
{
    if items.len() == 0 {
        0
    } else {
        items_total(items.drop_last()) + items.last().points.0 as nat
    }
}

/// The total of a prefix never exceeds the total of the whole.
pub proof fn lemma_items_total_prefix(items: Seq<ScoreItemView>, i: int)
    requires
        0 <= i <= items.len(),
    ensures
        items_total(items.take(i)) <= items_total(items),
    decreases items.len() - i,
{
    if i < items.len() {
        lemma_items_total_prefix(items, i + 1);
        assert(items.take(i + 1).drop_last() =~= items.take(i));
    } else {
        assert(items.take(i) =~= items);
    }
}

/// The total of two sequences of items placed end to end.
pub proof fn lemma_items_total_add(a: Seq<ScoreItemView>, b: Seq<ScoreItemView>)
    ensures
        items_total(a + b) == items_total(a) + items_total(b),
    decreases b.len(),
{
    if b.len() > 0 {
        lemma_items_total_add(a, b.drop_last());
        assert((a + b).drop_last() =~= a + b.drop_last());
    } else {
        assert(a + b =~= a);
    }
}

/// A record of the scoring events of one count or one play.
#[derive(Clone, Debug, PartialEq, Eq)]
pub struct ScoreSheet {
    items: Vec<ScoreItem>,
}

impl View for ScoreSheet {
    type V = Seq<ScoreItemView>;

    closed spec fn view(&self) -> Seq<ScoreItemView> {
        self.items@.map_values(|i: ScoreItem| i@)
    }
}

/// Returns `true` if the values of the cards total exactly 15.
fn totals_fifteen(cards: &[Card]) -> (b: bool)
    ensures b == (value_sum(cards@) == 15),
{
    let mut sum: usize = 0;
    let mut i: usize = 0;
    while i < cards.len()
        invariant
            i <= cards@.len(),
            sum == value_sum(cards@.take(i as int)),
            sum <= 15,
        decreases cards.len() - i,
    {
        proof {
            assert(cards@.take(i + 1).drop_last() =~= cards@.take(i as int));
        }
        sum = sum + cards[i].value();
        if sum > 15 {
            proof {
                lemma_value_sum_prefix(cards@, i + 1);
            }
            return false;
        }
        i = i + 1;
    }
    assert(cards@.take(cards@.len() as int) =~= cards@);
    sum == 15
}

/// Returns `true` if each card ranks exactly one above the card before it.
fn is_consecutive(cards: &[Card]) -> (b: bool)
    ensures b == consecutive(cards@),
{
    if cards.len() == 0 {
        return true;
    }
    let mut i: usize = 0;
    while i + 1 < cards.len()
        invariant
            i + 1 <= cards@.len(),
            forall|j: int| 0 <= j < i ==> #[trigger] cards@[j + 1].spec_rank() == cards@[j].spec_rank() + 1,
        decreases cards.len() - i,
    {
        if cards[i + 1].rank() != cards[i].rank() + 1 {
            return false;
        }
        i = i + 1;
    }
    true
}

/// Returns `true` if all the cards are of one suit.
fn is_same_suit(cards: &[Card]) -> (b: bool)
    ensures b == same_suit(cards@),
{
    if cards.len() == 0 {
        return true;
    }
    let suit = cards[0].suit;
    let mut i: usize = 0;
    while i < cards.len()
        invariant
            i <= cards@.len(),
            suit == cards@[0].suit,
            forall|j: int| 0 <= j < i ==> #[trigger] cards@[j].suit == suit,
        decreases cards.len() - i,
    {
        if cards[i].suit != suit {
            return false;
        }
        i = i + 1;
    }
    true
}

/// Inserting past a card of higher rank: the card stays after the insertion.
proof fn lemma_insert_step(s: Seq<Card>, j: int, c: Card)
    requires
        0 < j <= s.len(),
        s[j - 1].spec_rank() > c.spec_rank(),
    ensures
        insert_by_rank(s.take(j), c) + s.skip(j) == insert_by_rank(s.take(j - 1), c) + s.skip(j - 1),
{
    let t = s.take(j);
    assert(t.len() > 0);
    assert(t.last() == s[j - 1]);
    assert(t.drop_last() =~= s.take(j - 1));
    assert(insert_by_rank(t, c) == insert_by_rank(s.take(j - 1), c).push(t.last()));
    assert(insert_by_rank(s.take(j - 1), c).push(t.last()) + s.skip(j) =~= insert_by_rank(s.take(j - 1), c) + s.skip(j - 1));
}

/// Inserts `c` into `v`, sorted by rank, after every card of lower or equal rank.
fn insert_sorted(v: &mut Vec<Card>, c: Card)
    ensures final(v)@ == insert_by_rank(old(v)@, c),
{
    let ghost s = v@;
    let mut j: usize = v.len();
    while j > 0 && v[j - 1].rank() > c.rank()
        invariant
            j <= s.len(),
            v@ == s,
            insert_by_rank(s, c) == insert_by_rank(s.take(j as int), c) + s.skip(j as int),
        decreases j,
    {
        proof {
            lemma_insert_step(s, j as int, c);
        }
        j = j - 1;
    }
    proof {
        let t = s.take(j as int);
        assert(insert_by_rank(t, c) =~= t.push(c));
        assert(t.push(c) + s.skip(j as int) =~= s.take(j as int).push(c) + s.skip(j as int));
    }
    v.insert(j, c);
    assert(v@ =~= s.take(j as int).push(c) + s.skip(j as int));
}

/// Sorts the cards by rank, stably.
pub fn sort_cards_by_rank(cards: &[Card]) -> (v: Vec<Card>)
    ensures v@ == sort_by_rank(cards@),
{
    let mut v: Vec<Card> = Vec::new();
    let mut i: usize = 0;
    while i < cards.len()
        invariant
            i <= cards@.len(),
            v@ == sort_by_rank(cards@.take(i as int)),
        decreases cards.len() - i,
    {
        proof {
            assert(cards@.take(i + 1).drop_last() =~= cards@.take(i as int));
        }
        insert_sorted(&mut v, cards[i]);
        i = i + 1;
    }
    assert(cards@.take(cards@.len() as int) =~= cards@);
    v
}

/// The score for the starter: his heels, two points when it is a jack.
pub open spec fn his_heels_items(cut: Card) -> Seq<ScoreItemView> {
    if cut.face == Face::Jack {
        seq![item(ScoreKind::HisHeels, seq![cut], SCORE_HIS_HEELS)]
    } else {
        Seq::empty()
    }
}

impl ScoreSheet {
    /// An empty score sheet.
    pub fn new() -> (s: ScoreSheet)
        ensures s@ == Seq::<ScoreItemView>::empty(),
    {
        let s = ScoreSheet { items: Vec::new() };
        assert(s@ =~= Seq::<ScoreItemView>::empty());
        s
    }

    /// Writes the sheet as text: the items' texts joined with `", "`.
    pub fn to_string(&self) -> (s: String)
        ensures s@ == sheet_text(self@),
    {
        let mut parts: Vec<String> = Vec::new();
        let mut i: usize = 0;
        while i < self.items.len()
            invariant
                i <= self@.len(),
                self@.len() == self.items@.len(),
                texts(parts@) == item_texts(self@.take(i as int)),
            decreases self.items.len() - i,
        {
            let t = self.items[i].to_string();
            proof {
                assert(texts(parts@.push(t)) =~= texts(parts@).push(t@));
                assert(item_texts(self@.take(i + 1)) =~= item_texts(self@.take(i as int)).push(self@[i as int].text()));
            }
            parts.push(t);
            i = i + 1;
        }
        assert(self@.take(self@.len() as int) =~= self@);
        format_vec(parts.as_slice())
    }

    /// The items of the sheet, in order.
    pub fn items(&self) -> (v: &Vec<ScoreItem>)
        ensures v@.map_values(|i: ScoreItem| i@) == self@,
    {
        &self.items
    }

    /// Returns a copy of the sheet.
    pub fn duplicate(&self) -> (s: ScoreSheet)
        ensures s@ == self@,
    {
        let mut items: Vec<ScoreItem> = Vec::new();
        let mut i: usize = 0;
        while i < self.items.len()
            invariant
                i <= self.items@.len(),
                items@.map_values(|x: ScoreItem| x@) == self@.take(i as int),
            decreases self.items@.len() - i,
        {
            let it = self.items[i].duplicate();
            proof {
                assert(items@.push(it).map_values(|x: ScoreItem| x@) =~= items@.map_values(|x: ScoreItem| x@).push(it@));
                assert(self@.take(i + 1) =~= self@.take(i as int).push(self@[i as int]));
            }
            items.push(it);
            i = i + 1;
        }
        assert(self@.take(self@.len() as int) =~= self@);
        ScoreSheet { items }
    }

    fn push_item(&mut self, kind: ScoreKind, cards: Vec<Card>, points: usize)
        ensures final(self)@ == old(self)@.push(item(kind, cards@, points)),
    {
        let it = ScoreItem::new(kind, cards, Points(points));
        proof {
            assert(self.items@.push(it).map_values(|x: ScoreItem| x@) =~= self@.push(it@));
        }
        self.items.push(it);
    }

    /// Adds a scoring event and returns the sheet.
    pub fn add_event(self, kind: ScoreKind, cards: &[Card], points: Points) -> (s: ScoreSheet)
        ensures s@ == self@.push(ScoreItemView { kind, cards: cards@, points }),
    {
        let mut s = self;
        s.push_item(kind, copy_cards(cards), points.0);
        s
    }

    /// Adds a scoring event when `condition` holds, and returns the sheet.
    pub fn add_event_if(self, condition: bool, kind: ScoreKind, cards: &[Card], points: Points) -> (s: ScoreSheet)
        ensures
            s@ == if condition {
                self@.push(ScoreItemView { kind, cards: cards@, points })
            } else {
                self@
            },
    {
        if condition {
            self.add_event(kind, cards, points)
        } else {
            self
        }
    }

    /// The total points of the sheet.
    pub fn points(&self) -> (p: Points)
        requires
            items_total(self@) <= usize::MAX,
        ensures
            p.0 == items_total(self@),
    {
        let mut total: usize = 0;
        let mut i: usize = 0;
        while i < self.items.len()
            invariant
                i <= self.items@.len(),
                self.items@.len() == self@.len(),
                items_total(self@) <= usize::MAX,
                total == items_total(self@.take(i as int)),
            decreases self.items@.len() - i,
        {
            proof {
                assert(self@.take(i + 1).drop_last() =~= self@.take(i as int));
                lemma_items_total_prefix(self@, i + 1);
            }
            total = total + self.items[i].points().0;
            i = i + 1;
        }
        assert(self@.take(self@.len() as int) =~= self@);
        Points(total)
    }

    /// `start` plus the sheet's points, when that stays within the machine's
    /// integers; `None` when it does not.
    pub fn points_after(&self, start: usize) -> (r: Option<usize>)
        ensures
            match r {
                Some(t) => t == start + items_total(self@),
                None => start + items_total(self@) > usize::MAX,
            },
    {
        let mut total: usize = start;
        let mut i: usize = 0;
        while i < self.items.len()
            invariant
                i <= self.items@.len(),
                self.items@.len() == self@.len(),
                total == start + items_total(self@.take(i as int)),
            decreases self.items@.len() - i,
        {
            proof {
                assert(self@.take(i + 1).drop_last() =~= self@.take(i as int));
            }
            let p = self.items[i].points().0;
            if p > usize::MAX - total {
                proof {
                    lemma_items_total_prefix(self@, i + 1);
                }
                return None;
            }
            total = total + p;
            i = i + 1;
        }
        assert(self@.take(self@.len() as int) =~= self@);
        Some(total)
    }

    fn push_fifteens_of_size(&mut self, cards: &[Card], k: usize)
        ensures final(self)@ == old(self)@ + fifteen_items(combos(cards@, k as nat)),
    {
        let cs = combinations(cards, 0, k);
        let ghost spec_cs = combos(cards@, k as nat);
        proof {
            assert(cards@.skip(0) =~= cards@);
        }
        let mut i: usize = 0;
        while i < cs.len()
            invariant
                i <= cs@.len(),
                cs@.len() == spec_cs.len(),
                spec_cs == combos(cards@, k as nat),
                cards@.skip(0) == cards@,
                forall|j: int| 0 <= j < cs@.len() ==> #[trigger] cs@[j]@ == combos(cards@.skip(0), k as nat)[j],
                self@ == old(self)@ + fifteen_items(spec_cs.take(i as int)),
            decreases cs@.len() - i,
        {
            proof {
                assert(spec_cs.take(i + 1).drop_last() =~= spec_cs.take(i as int));
                assert(cs@[i as int]@ == spec_cs[i as int]);
            }
            if totals_fifteen(cs[i].as_slice()) {
                self.push_item(ScoreKind::Fifteen, copy_cards(cs[i].as_slice()), SCORE_FIFTEEN);
            }
            i = i + 1;
        }
        assert(spec_cs.take(spec_cs.len() as int) =~= spec_cs);
    }

    fn push_fifteens(&mut self, cards: &[Card])
        ensures final(self)@ == old(self)@ + fifteens_from(cards@, 2),
    {
        let n = cards.len();
        let mut k: usize = 2;
        while k <= n
            invariant
                n == cards@.len(),
                2 <= k,
                self@ + fifteens_from(cards@, k as nat) == old(self)@ + fifteens_from(cards@, 2),
            decreases n + 1 - k,
        {
            let ghost before = self@;
            self.push_fifteens_of_size(cards, k);
            proof {
                assert(self@ + fifteens_from(cards@, (k + 1) as nat) =~= before + fifteens_from(cards@, k as nat));
            }
            if k == n {
                proof {
                    assert(fifteens_from(cards@, (k + 1) as nat) =~= Seq::<ScoreItemView>::empty());
                }
                assert(self@ =~= old(self)@ + fifteens_from(cards@, 2));
                return;
            }
            k = k + 1;
        }
        proof {
            assert(fifteens_from(cards@, k as nat) =~= Seq::<ScoreItemView>::empty());
        }
        assert(self@ =~= old(self)@ + fifteens_from(cards@, 2));
    }

    fn push_pairs(&mut self, cards: &[Card])
        ensures final(self)@ == old(self)@ + pair_items(combos(cards@, 2)),
    {
        let cs = combinations(cards, 0, 2);
        let ghost spec_cs = combos(cards@, 2);
        proof {
            assert(cards@.skip(0) =~= cards@);
            lemma_combos_len(cards@, 2);
        }
        let ghost before = self@;
        let mut i: usize = 0;
        while i < cs.len()
            invariant
                i <= cs@.len(),
                cs@.len() == spec_cs.len(),
                spec_cs == combos(cards@, 2),
                cards@.skip(0) == cards@,
                forall|j: int| 0 <= j < cs@.len() ==> #[trigger] cs@[j]@ == combos(cards@.skip(0), 2)[j],
                forall|j: int| 0 <= j < spec_cs.len() ==> #[trigger] spec_cs[j].len() == 2,
                self@ == before + pair_items(spec_cs.take(i as int)),
            decreases cs@.len() - i,
        {
            proof {
                assert(spec_cs.take(i + 1).drop_last() =~= spec_cs.take(i as int));
                assert(cs@[i as int]@ == spec_cs[i as int]);
                assert(spec_cs[i as int].len() == 2);
            }
            let pair = &cs[i];
            if pair[0].face == pair[1].face {
                self.push_item(ScoreKind::Pair, copy_cards(pair.as_slice()), SCORE_PAIR);
            }
            i = i + 1;
        }
        assert(spec_cs.take(spec_cs.len() as int) =~= spec_cs);
    }

    /// Appends the runs of length `len` among `sorted`; returns whether any.
    fn push_runs_of_length(&mut self, sorted: &[Card], len: usize) -> (found: bool)
        ensures
            final(self)@ == old(self)@ + run_items(combos(sorted@, len as nat), len as nat),
            found == (run_items(combos(sorted@, len as nat), len as nat).len() > 0),
    {
        let cs = combinations(sorted, 0, len);
        let ghost spec_cs = combos(sorted@, len as nat);
        proof {
            assert(sorted@.skip(0) =~= sorted@);
        }
        let ghost before = self@;
        let mut found = false;
        let mut i: usize = 0;
        while i < cs.len()
            invariant
                i <= cs@.len(),
                cs@.len() == spec_cs.len(),
                spec_cs == combos(sorted@, len as nat),
                sorted@.skip(0) == sorted@,
                forall|j: int| 0 <= j < cs@.len() ==> #[trigger] cs@[j]@ == combos(sorted@.skip(0), len as nat)[j],
                self@ == before + run_items(spec_cs.take(i as int), len as nat),
                found == (run_items(spec_cs.take(i as int), len as nat).len() > 0),
            decreases cs@.len() - i,
        {
            proof {
                assert(spec_cs.take(i + 1).drop_last() =~= spec_cs.take(i as int));
                assert(cs@[i as int]@ == spec_cs[i as int]);
            }
            if is_consecutive(cs[i].as_slice()) {
                self.push_item(ScoreKind::Run, copy_cards(cs[i].as_slice()), len);
                found = true;
            }
            i = i + 1;
        }
        assert(spec_cs.take(spec_cs.len() as int) =~= spec_cs);
        found
    }

    fn push_runs(&mut self, cards: &[Card])
        ensures final(self)@ == old(self)@ + longest_runs(sort_by_rank(cards@), cards@.len()),
    {
        let sorted = sort_cards_by_rank(cards);
        let mut len: usize = cards.len();
        while len >= MINIMUM_RUN_LENGTH
            invariant
                sorted@ == sort_by_rank(cards@),
                len <= cards@.len(),
                self@ == old(self)@,
                longest_runs(sorted@, len as nat) == longest_runs(sorted@, cards@.len()),
            decreases len,
        {
            if self.push_runs_of_length(sorted.as_slice(), len) {
                return;
            }
            proof {
                assert(self@ =~= old(self)@);
            }
            len = len - 1;
        }
        assert(self@ + longest_runs(sorted@, len as nat) =~= self@);
    }

    fn push_flush(&mut self, cards: &[Card], cut: Card, min: usize)
        ensures final(self)@ == old(self)@ + flush_items(cards@, cut, min as nat),
    {
        let mut all = copy_cards(cards);
        all.push(cut);
        if all.len() >= min && is_same_suit(all.as_slice()) {
            let n = all.len();
            self.push_item(ScoreKind::Flush, all, n);
        } else if cards.len() >= min && is_same_suit(cards) {
            self.push_item(ScoreKind::Flush, copy_cards(cards), cards.len());
        }
        assert(self@ =~= old(self)@ + flush_items(cards@, cut, min as nat));
    }

    fn push_nobs(&mut self, cards: &[Card], cut: Card)
        ensures final(self)@ == old(self)@ + nobs_items(cards@, cut),
    {
        let mut i: usize = 0;
        while i < cards.len()
            invariant
                i <= cards@.len(),
                forall|j: int| 0 <= j < i ==> !(#[trigger] cards@[j].face == Face::Jack && cards@[j].suit == cut.suit),
                self@ == old(self)@,
            decreases cards.len() - i,
        {
            if cards[i].is_jack() && cards[i].suit == cut.suit {
                self.push_item(ScoreKind::Nobs, copy_cards(cards), SCORE_NOBS);
                assert(self@ =~= old(self)@ + nobs_items(cards@, cut));
                return;
            }
            i = i + 1;
        }
        assert(self@ =~= old(self)@ + nobs_items(cards@, cut));
    }

    fn count(cards: &[Card], cut: Card, flush_min: usize) -> (s: ScoreSheet)
        ensures s@ == count_items(cards@, cut, flush_min as nat),
    {
        let mut all = copy_cards(cards);
        all.push(cut);
        let mut s = ScoreSheet::new();
        s.push_fifteens(all.as_slice());
        s.push_pairs(all.as_slice());
        s.push_runs(all.as_slice());
        s.push_flush(cards, cut, flush_min);
        s.push_nobs(cards, cut);
        reveal(count_items);
        assert(s@ =~= count_items(cards@, cut, flush_min as nat));
        s
    }

    /// The count of a hand with the starter: fifteens, pairs, runs, a flush of
    /// four or more, and his nobs.
    pub fn hand(hand: &crate::domain::pile::Hand, cut: Card) -> (s: ScoreSheet)
        ensures s@ == count_items(hand@, cut, 4),
    {
        Self::count(hand.as_slice(), cut, 4)
    }

    /// The count of the crib with the starter: as for a hand, except that a
    /// flush counts only when the starter is of the crib's suit too.
    pub fn crib(crib: &crate::domain::pile::Crib, cut: Card) -> (s: ScoreSheet)
        ensures s@ == count_items(crib@, cut, 5),
    {
        Self::count(crib.as_slice(), cut, 5)
    }

    /// The score for the starter: his heels, two points when it is a jack.
    pub fn his_heels(cut: Card) -> (s: ScoreSheet)
        ensures
            s@ == his_heels_items(cut),
    {
        let mut s = ScoreSheet::new();
        if cut.is_jack() {
            let mut cards: Vec<Card> = Vec::new();
            cards.push(cut);
            s.push_item(ScoreKind::HisHeels, cards, SCORE_HIS_HEELS);
        }
        assert(s@ =~= his_heels_items(cut));
        s
    }
}

/// The number of cards at the front of `cs` with the given face.
pub open spec fn leading_face_count(cs: Seq<Card>, face: Face) -> nat
    decreases cs.len(),
{
    if cs.len() == 0 {
        0
    } else if cs[0].face == face {
        1 + leading_face_count(cs.drop_first(), face)
    } else {
        0
    }
}

/// The pair, pair royal or double pair royal made by the latest cards of the
/// series (`latest` lists the series latest first).
pub open spec fn play_pair_items(latest: Seq<Card>) -> Seq<ScoreItemView> {
    if latest.len() == 0 {
        Seq::empty()
    } else {
        let n = leading_face_count(latest, latest[0].face);
        if n == 2 {
            seq![item(ScoreKind::Pair, latest.take(2), SCORE_PAIR)]
        } else if n == 3 {
            seq![item(ScoreKind::Triplet, latest.take(3), SCORE_ROYAL_PAIR)]
        } else if n == 4 {
            seq![item(ScoreKind::Quadruplet, latest.take(4), SCORE_DOUBLE_ROYAL_PAIR)]
        } else {
            Seq::empty()
        }
    }
}

/// The longest run, `len` cards or fewer, formed in any order by the latest
/// cards of the series (`latest` lists the series latest first).
pub open spec fn play_run_items(latest: Seq<Card>, len: nat) -> Seq<ScoreItemView>
    decreases len,
{
    if len < MINIMUM_RUN_LENGTH || len > latest.len() {
        Seq::empty()
    } else {
        let sorted = sort_by_rank(latest.take(len as int));
        if consecutive(sorted) {
            seq![item(ScoreKind::Run, sorted, len as usize)]
        } else {
            play_run_items(latest, (len - 1) as nat)
        }
    }
}

/// The play ends its series with this card (short of 31): the player who laid
/// it has no card left, and the opponent has already called go or has no
/// card left either.
pub open spec fn series_ends(v: PlayStateView) -> bool {
    !v.has_cards(v.next_to_play) && (v.go_status != GoStatus::NotCalled || !v.has_cards(
        v.next_to_play.spec_opponent(),
    ))
}

/// One step of looking for a run among the latest `len` cards.
proof fn lemma_run_items_unfold(latest: Seq<Card>, len: nat)
    ensures
        len < MINIMUM_RUN_LENGTH || len > latest.len() ==> play_run_items(latest, len) == Seq::<ScoreItemView>::empty(),
        MINIMUM_RUN_LENGTH <= len <= latest.len() && consecutive(sort_by_rank(latest.take(len as int))) ==>
            play_run_items(latest, len) == seq![item(ScoreKind::Run, sort_by_rank(latest.take(len as int)), len as usize)],
        MINIMUM_RUN_LENGTH <= len <= latest.len() && !consecutive(sort_by_rank(latest.take(len as int))) ==>
            play_run_items(latest, len) == play_run_items(latest, (len - 1) as nat),
{
}

/// The points for the card just laid, given the state with the card in the
/// current series: fifteen, pairs, a run, then thirty-one or the last card.
#[verifier::opaque]
pub open spec fn play_items(v: PlayStateView) -> Seq<ScoreItemView> {
    let cards = cards_of(v.current);
    let latest = cards.reverse();
    let fifteen = if v.running_total() == 15 {
        seq![item(ScoreKind::Fifteen, cards, SCORE_FIFTEEN)]
    } else {
        Seq::empty()
    };
    let last = if v.running_total() == PLAY_TARGET {
        seq![item(ScoreKind::ThirtyOne, cards, SCORE_THIRTY_ONE)]
    } else if series_ends(v) {
        seq![item(ScoreKind::LastCard, Seq::empty(), SCORE_GO)]
    } else {
        Seq::empty()
    };
    fifteen + play_pair_items(latest) + play_run_items(latest, latest.len()) + last
}

/// The points when the next player calls go: the last card of the series
/// scores one once the opponent has called go too, or has no card left.
pub open spec fn go_items(v: PlayStateView) -> Seq<ScoreItemView> {
    if v.go_status != GoStatus::NotCalled || !v.has_cards(v.next_to_play.spec_opponent()) {
        seq![item(ScoreKind::LastCard, Seq::empty(), SCORE_GO)]
    } else {
        Seq::empty()
    }
}

/// The cards of the plays, latest first.
fn latest_cards(plays: &Vec<Play>) -> (v: Vec<Card>)
    ensures v@ == cards_of(plays@).reverse(),
{
    let mut v: Vec<Card> = Vec::new();
    let mut i: usize = plays.len();
    while i > 0
        invariant
            i <= plays@.len(),
            v@.len() == plays@.len() - i,
            forall|j: int| 0 <= j < v@.len() ==> #[trigger] v@[j] == plays@[plays@.len() - 1 - j].card,
        decreases i,
    {
        i = i - 1;
        v.push(plays[i].card);
    }
    assert(v@ =~= cards_of(plays@).reverse());
    v
}

/// The cards of the plays, in order of play.
fn cards_in_order(plays: &Vec<Play>) -> (v: Vec<Card>)
    ensures v@ == cards_of(plays@),
{
    let mut v: Vec<Card> = Vec::new();
    let mut i: usize = 0;
    while i < plays.len()
        invariant
            i <= plays@.len(),
            v@ == cards_of(plays@.take(i as int)),
        decreases plays.len() - i,
    {
        proof {
            assert(cards_of(plays@.take(i + 1)) =~= cards_of(plays@.take(i as int)).push(plays@[i as int].card));
        }
        v.push(plays[i].card);
        i = i + 1;
    }
    assert(plays@.take(plays@.len() as int) =~= plays@);
    v
}

impl ScoreSheet {
    fn push_play_pairs(&mut self, latest: &Vec<Card>)
        ensures final(self)@ == old(self)@ + play_pair_items(latest@),
    {
        if latest.len() == 0 {
            assert(self@ =~= old(self)@ + play_pair_items(latest@));
            return;
        }
        let face = latest[0].face;
        let mut n: usize = 0;
        while n < latest.len() && latest[n].face == face
            invariant
                n <= latest@.len(),
                face == latest@[0].face,
                forall|j: int| 0 <= j < n ==> #[trigger] latest@[j].face == face,
                leading_face_count(latest@, face) == n + leading_face_count(latest@.skip(n as int), face),
            decreases latest@.len() - n,
        {
            proof {
                assert(latest@.skip(n as int).drop_first() =~= latest@.skip(n + 1));
            }
            n = n + 1;
        }
        proof {
            if n < latest@.len() {
                assert(latest@.skip(n as int)[0] == latest@[n as int]);
            }
        }
        if n == 2 {
            let cards = copy_cards(latest.as_slice().split_at(2).0);
            self.push_item(ScoreKind::Pair, cards, SCORE_PAIR);
        } else if n == 3 {
            let cards = copy_cards(latest.as_slice().split_at(3).0);
            self.push_item(ScoreKind::Triplet, cards, SCORE_ROYAL_PAIR);
        } else if n == 4 {
            let cards = copy_cards(latest.as_slice().split_at(4).0);
            self.push_item(ScoreKind::Quadruplet, cards, SCORE_DOUBLE_ROYAL_PAIR);
        }
        assert(self@ =~= old(self)@ + play_pair_items(latest@));
    }

    #[verifier::spinoff_prover]
    #[verifier::rlimit(30)]
    fn push_play_run(&mut self, latest: &Vec<Card>)
        ensures final(self)@ == old(self)@ + play_run_items(latest@, latest@.len()),
    {
        let mut len: usize = latest.len();
        while len >= MINIMUM_RUN_LENGTH
            invariant
                len <= latest@.len(),
                self@ == old(self)@,
                play_run_items(latest@, len as nat) == play_run_items(latest@, latest@.len()),
            decreases len,
        {
            let first = latest.as_slice().split_at(len).0;
            assert(first@ == latest@.take(len as int));
            let sorted = sort_cards_by_rank(first);
            proof {
                lemma_run_items_unfold(latest@, len as nat);
            }
            if is_consecutive(sorted.as_slice()) {
                self.push_item(ScoreKind::Run, sorted, len);
                assert(self@ =~= old(self)@ + play_run_items(latest@, latest@.len()));
                return;
            }
            len = len - 1;
        }
        proof {
            lemma_run_items_unfold(latest@, len as nat);
        }
        assert(self@ =~= old(self)@ + play_run_items(latest@, latest@.len()));
    }

    /// The points for the card just laid, given the play state with that card
    /// at the end of the current series.
    pub fn play_card(play_state: &PlayState) -> (s: ScoreSheet)
        ensures s@ == play_items(play_state@),
    {
        let plays = play_state.current_plays();
        let cards = cards_in_order(plays);
        let latest = latest_cards(plays);
        let total = play_state.running_total();
        let mut s = ScoreSheet::new();
        if total == 15 {
            s.push_item(ScoreKind::Fifteen, copy_cards(cards.as_slice()), SCORE_FIFTEEN);
        }
        s.push_play_pairs(&latest);
        s.push_play_run(&latest);
        let player = play_state.next_to_play();
        if total == PLAY_TARGET {
            s.push_item(ScoreKind::ThirtyOne, copy_cards(cards.as_slice()), SCORE_THIRTY_ONE);
        } else if !play_state.has_cards(player) && (play_state.go_status() != GoStatus::NotCalled
            || !play_state.has_cards(player.opponent())) {
            s.push_item(ScoreKind::LastCard, Vec::new(), SCORE_GO);
        }
        reveal(play_items);
        assert(s@ =~= play_items(play_state@));
        s
    }

    /// The points when the next player calls go, given the play state before
    /// the call.
    pub fn go(play_state: &PlayState) -> (s: ScoreSheet)
        ensures s@ == go_items(play_state@),
    {
        let mut s = ScoreSheet::new();
        let player = play_state.next_to_play();
        if play_state.go_status() != GoStatus::NotCalled || !play_state.has_cards(player.opponent()) {
            s.push_item(ScoreKind::LastCard, Vec::new(), SCORE_GO);
        }
        assert(s@ =~= go_items(play_state@));
        s
    }
}

/// Points scored by one player: the recipient and the score sheet.
#[derive(Clone, Debug, PartialEq, Eq)]
pub struct Pegging {
    player: Player,
    sheet: ScoreSheet,
}

/// The mathematical value of a scoring `Pegging`.
pub struct PeggingView {
    pub player: Player,
    pub sheet: Seq<ScoreItemView>,
}

impl View for Pegging {
    type V = PeggingView;

    closed spec fn view(&self) -> PeggingView {
        PeggingView { player: self.player, sheet: self.sheet@ }
    }
}

/// Something that carries a pegging.
pub trait HasPegging {
    /// The pegging carried.
    fn pegging(&self) -> &Pegging;
}

impl Pegging {
    /// Creates the pegging of `sheet` to `player`.
    pub fn new(player: Player, sheet: ScoreSheet) -> (p: Pegging)
        ensures p@ == (PeggingView { player, sheet: sheet@ }),
    {
        Pegging { player, sheet }
    }

    /// The player who receives the points.
    pub fn player(&self) -> (p: Player)
        ensures p == self@.player,
    {
        self.player
    }

    /// The player who receives the points.
    pub fn recipient(&self) -> (p: Player)
        ensures p == self@.player,
    {
        self.player
    }

    /// The score sheet of the points.
    pub fn score_sheet(&self) -> (s: &ScoreSheet)
        ensures s@ == self@.sheet,
    {
        &self.sheet
    }

    /// Writes the pegging as text: the recipient, then the sheet.
    pub fn to_string(&self) -> (s: String)
        ensures s@ == self@.text(),
    {
        let mut s = self.player.to_string();
        s.append(" -> ");
        s.append(self.sheet.to_string().as_str());
        proof {
            reveal_strlit(" -> ");
        }
        s
    }

    /// Returns a copy of the pegging.
    pub fn duplicate(&self) -> (p: Pegging)
        ensures p@ == self@,
    {
        Pegging { player: self.player, sheet: self.sheet.duplicate() }
    }
}

impl Default for ScoreSheet {
    fn default() -> (s: ScoreSheet)
        ensures s@ == Seq::<ScoreItemView>::empty(),
    {
        ScoreSheet::new()
    }
}

} // verus!
