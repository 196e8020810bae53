use vstd::prelude::*;

use crate::domain::cards::{Card, Face};
use crate::domain::deck::standard_pack;
use crate::domain::game::{
    all_held, card_at, ChanceView, DomainErrorView, GameCommandView, GameEventView, GameView,
};
use crate::domain::players::{roles_from_cuts, Dealer, Pending, Player, Roles, PLAYER0, PLAYER1};
use crate::domain::pile::{not_in, other_than};
use crate::domain::plays::{cards_of, played_by, GoStatus, Play, PlayStateView, PLAY_TARGET};
use crate::domain::scoreboard::ScoreboardView;
use crate::domain::deck::CARDS_KEPT_PER_HAND;
use crate::domain::scoring::{
    combos, consecutive, count_items, lemma_combos_len, fifteen_items, fifteens_from, flush_items, go_items, his_heels_items, insert_by_rank,
    item, items_total, leading_face_count, lemma_items_total_add, longest_runs, nobs_items, pair_items, play_items, play_pair_items,
    play_run_items, run_items, same_suit, series_ends, sort_by_rank, value_sum, PeggingView, Points, ScoreItemView, ScoreKind,
    MINIMUM_RUN_LENGTH, SCORE_DOUBLE_ROYAL_PAIR, SCORE_FIFTEEN, SCORE_GO, SCORE_PAIR, SCORE_THIRTY_ONE,
};
use crate::domain::state::{DiscardingView, StartingView, StateView};
use crate::ids::{GameId, UserId};

verus! {

broadcast use vstd::seq_lib::group_seq_properties;

// ---------------------------------------------------------------------------
// Bounds on the points of the play.
// ---------------------------------------------------------------------------

/// Every card is worth at least one: the sum of the values is at least the
/// number of cards.
proof fn lemma_value_sum_at_least_len(cards: Seq<Card>)
    ensures
        value_sum(cards) >= cards.len(),
    decreases cards.len(),
{
    if cards.len() > 0 {
        lemma_value_sum_at_least_len(cards.drop_last());
    }
}

/// A run found among the latest `len` cards scores at most `len`.
proof fn lemma_run_items_bounded(latest: Seq<Card>, len: nat)
    requires
        len <= usize::MAX,
    ensures
        items_total(play_run_items(latest, len)) <= len,
    decreases len,
{
    if len < MINIMUM_RUN_LENGTH || len > latest.len() {
    } else {
        let sorted = sort_by_rank(latest.take(len as int));
        if consecutive(sorted) {
            let runs = play_run_items(latest, len);
            assert(runs.drop_last() =~= Seq::<ScoreItemView>::empty());
            assert(items_total(runs.drop_last()) == 0);
            assert(runs.last().points.0 == len);
        } else {
            lemma_run_items_bounded(latest, (len - 1) as nat);
        }
    }
}

/// A card laid in a series that stays within 31 scores at most a fifteen,
/// a double pair royal, a run of every card of the series and thirty-one.
proof fn lemma_play_items_bounded(v: PlayStateView)
    requires
        v.running_total() <= PLAY_TARGET,
    ensures
        items_total(play_items(v)) <= SCORE_FIFTEEN + SCORE_DOUBLE_ROYAL_PAIR + PLAY_TARGET + SCORE_THIRTY_ONE,
{
    reveal(play_items);
    let cards = cards_of(v.current);
    let latest = cards.reverse();
    let fifteen = if v.running_total() == 15 {
        seq![item(ScoreKind::Fifteen, cards, SCORE_FIFTEEN)]
    } else {
        Seq::empty()
    };
    let last = if v.running_total() == PLAY_TARGET {
        seq![item(ScoreKind::ThirtyOne, cards, SCORE_THIRTY_ONE)]
    } else if series_ends(v) {
        seq![item(ScoreKind::LastCard, Seq::empty(), SCORE_GO)]
    } else {
        Seq::empty()
    };
    let pairs = play_pair_items(latest);
    let runs = play_run_items(latest, latest.len());
    lemma_items_total_add(fifteen, pairs);
    lemma_items_total_add(fifteen + pairs, runs);
    lemma_items_total_add(fifteen + pairs + runs, last);
    lemma_value_sum_at_least_len(cards);
    lemma_run_items_bounded(latest, latest.len());
    if fifteen.len() > 0 {
        assert(fifteen.drop_last() =~= Seq::<ScoreItemView>::empty());
        assert(items_total(fifteen.drop_last()) == 0);
    }
    if pairs.len() > 0 {
        assert(pairs.drop_last() =~= Seq::<ScoreItemView>::empty());
        assert(items_total(pairs.drop_last()) == 0);
    }
    if last.len() > 0 {
        assert(last.drop_last() =~= Seq::<ScoreItemView>::empty());
        assert(items_total(last.drop_last()) == 0);
    }
}


// ---------------------------------------------------------------------------
// Bounds on the points of a count.
// ---------------------------------------------------------------------------

/// Two to the power `n`: the number of ways of choosing among `n` cards.
pub open spec fn pow2(n: nat) -> nat
    decreases n,
{
    if n == 0 { 1 } else { 2 * pow2((n - 1) as nat) }
}

/// There are at most `2^n` combinations of `k` of `n` cards.
proof fn lemma_combos_count(cards: Seq<Card>, k: nat)
    ensures
        combos(cards, k).len() <= pow2(cards.len()),
    decreases cards.len(),
{
    if k == 0 {
        lemma_pow2_positive(cards.len());
    } else if cards.len() < k {
    } else {
        lemma_combos_count(cards.drop_first(), (k - 1) as nat);
        lemma_combos_count(cards.drop_first(), k);
    }
}

proof fn lemma_pow2_positive(n: nat)
    ensures
        pow2(n) >= 1,
    decreases n,
{
    if n > 0 {
        lemma_pow2_positive((n - 1) as nat);
    }
}

/// The total of items with one more item.
proof fn lemma_items_total_push(items: Seq<ScoreItemView>, it: ScoreItemView)
    ensures
        items_total(items.push(it)) == items_total(items) + it.points.0,
{
    assert(items.push(it).drop_last() =~= items);
}

/// Fifteens score two each.
proof fn lemma_fifteen_total(cs: Seq<Seq<Card>>)
    ensures
        items_total(fifteen_items(cs)) <= 2 * cs.len(),
    decreases cs.len(),
{
    if cs.len() > 0 {
        lemma_fifteen_total(cs.drop_last());
        if value_sum(cs.last()) == 15 {
            lemma_items_total_push(fifteen_items(cs.drop_last()), item(ScoreKind::Fifteen, cs.last(), SCORE_FIFTEEN));
        }
    }
}

/// Pairs score two each.
proof fn lemma_pair_total(cs: Seq<Seq<Card>>)
    ensures
        items_total(pair_items(cs)) <= 2 * cs.len(),
    decreases cs.len(),
{
    if cs.len() > 0 {
        lemma_pair_total(cs.drop_last());
        if cs.last().len() == 2 && cs.last()[0].face == cs.last()[1].face {
            lemma_items_total_push(pair_items(cs.drop_last()), item(ScoreKind::Pair, cs.last(), SCORE_PAIR));
        }
    }
}

/// Runs of `len` cards score `len` each.
proof fn lemma_run_total(cs: Seq<Seq<Card>>, len: nat)
    requires
        len <= usize::MAX,
    ensures
        items_total(run_items(cs, len)) <= len * cs.len(),
    decreases cs.len(),
{
    if cs.len() > 0 {
        lemma_run_total(cs.drop_last(), len);
        if consecutive(cs.last()) {
            lemma_items_total_push(run_items(cs.drop_last(), len), item(ScoreKind::Run, cs.last(), len as usize));
        }
        assert(len * (cs.len() - 1) + len == len * cs.len()) by (nonlinear_arith);
        assert(len * (cs.len() - 1) <= len * cs.len()) by (nonlinear_arith);
    }
}

/// The fifteens made of `k` or more of `n` cards score at most two for each
/// of the at most `2^n` combinations of each size from `k` to `n`.
proof fn lemma_fifteens_from_total_sizes(cards: Seq<Card>, k: nat)
    requires
        k <= cards.len() + 1,
    ensures
        items_total(fifteens_from(cards, k)) <= 2 * (cards.len() + 1 - k) * pow2(cards.len()),
    decreases cards.len() + 1 - k,
{
    let n = cards.len();
    let b = pow2(n);
    if k <= n {
        let here = fifteen_items(combos(cards, k));
        let rest = fifteens_from(cards, k + 1);
        assert(fifteens_from(cards, k) == here + rest);
        lemma_items_total_add(here, rest);
        lemma_fifteen_total(combos(cards, k));
        lemma_combos_count(cards, k);
        lemma_fifteens_from_total_sizes(cards, k + 1);
        let m: int = n + 1 - k;
        let c = combos(cards, k).len();
        assert(items_total(rest) <= 2 * (m - 1) * b);
        assert(2 * c + 2 * (m - 1) * b <= 2 * m * b) by (nonlinear_arith)
            requires
                c <= b,
                m >= 1,
        ;
    } else {
        assert(fifteens_from(cards, k) == Seq::<ScoreItemView>::empty());
    }
}

/// The longest runs among `n` sorted cards score at most `len` for each of
/// `2^n` combinations.
proof fn lemma_longest_runs_total(sorted: Seq<Card>, len: nat)
    requires
        len <= usize::MAX,
    ensures
        items_total(longest_runs(sorted, len)) <= len * pow2(sorted.len()),
    decreases len,
{
    if len >= MINIMUM_RUN_LENGTH {
        let runs = run_items(combos(sorted, len), len);
        if runs.len() > 0 {
            lemma_run_total(combos(sorted, len), len);
            lemma_combos_count(sorted, len);
            assert(len * combos(sorted, len).len() <= len * pow2(sorted.len())) by (nonlinear_arith)
                requires
                    combos(sorted, len).len() <= pow2(sorted.len()),
            ;
        } else {
            lemma_longest_runs_total(sorted, (len - 1) as nat);
            assert((len - 1) * pow2(sorted.len()) <= len * pow2(sorted.len())) by (nonlinear_arith);
        }
    }
}

/// Inserting a card adds one card.
proof fn lemma_insert_len(sorted: Seq<Card>, c: Card)
    ensures
        insert_by_rank(sorted, c).len() == sorted.len() + 1,
    decreases sorted.len(),
{
    if sorted.len() > 0 && sorted.last().spec_rank() > c.spec_rank() {
        lemma_insert_len(sorted.drop_last(), c);
    }
}

/// Sorting keeps the number of cards.
proof fn lemma_sort_len(cards: Seq<Card>)
    ensures
        sort_by_rank(cards).len() == cards.len(),
    decreases cards.len(),
{
    if cards.len() > 0 {
        lemma_sort_len(cards.drop_last());
        lemma_insert_len(sort_by_rank(cards.drop_last()), cards.last());
    }
}

/// The count of at most four cards with the starter scores at most
/// `3 * 5 * 2^5 + 5 + 1` points.
proof fn lemma_count_bounded(cards: Seq<Card>, cut: Card, flush_min: nat)
    requires
        cards.len() <= CARDS_KEPT_PER_HAND,
    ensures
        items_total(count_items(cards, cut, flush_min)) <= 3 * 5 * pow2(5) + 5 + 1,
{
    reveal(count_items);
    let all = cards.push(cut);
    let n = all.len();
    let fifteens = fifteens_from(all, 2);
    let pairs = pair_items(combos(all, 2));
    let runs = longest_runs(sort_by_rank(all), n);
    let flush = flush_items(cards, cut, flush_min);
    let nobs = nobs_items(cards, cut);
    lemma_items_total_add(fifteens, pairs);
    lemma_items_total_add(fifteens + pairs, runs);
    lemma_items_total_add(fifteens + pairs + runs, flush);
    lemma_items_total_add(fifteens + pairs + runs + flush, nobs);
    lemma_fifteens_from_total_sizes(all, 2);
    lemma_pair_total(combos(all, 2));
    lemma_combos_count(all, 2);
    lemma_sort_len(all);
    lemma_longest_runs_total(sort_by_rank(all), n);
    if flush.len() > 0 {
        assert(flush.drop_last() =~= Seq::<ScoreItemView>::empty());
        assert(items_total(flush.drop_last()) == 0);
    }
    if nobs.len() > 0 {
        assert(nobs.drop_last() =~= Seq::<ScoreItemView>::empty());
        assert(items_total(nobs.drop_last()) == 0);
    }
    let b = pow2(n);
    assert(pow2(5) == 32) by {
        reveal_with_fuel(pow2, 6);
    }
    lemma_pow2_monotone(n, 5);
    assert(items_total(fifteens) <= 2 * (n - 1) * b);
    assert(items_total(pairs) <= 2 * b);
    assert(items_total(runs) <= n * b);
    assert(items_total(flush) <= n);
    assert(items_total(nobs) <= 1);
    assert(2 * (n - 1) * b + 2 * b + n * b <= 3 * 5 * 32) by (nonlinear_arith)
        requires
            1 <= n <= 5,
            b <= 32,
    ;
}

proof fn lemma_pow2_monotone(m: nat, n: nat)
    requires
        m <= n,
    ensures
        pow2(m) <= pow2(n),
    decreases n,
{
    if m < n {
        lemma_pow2_monotone(m, (n - 1) as nat);
        lemma_pow2_positive((n - 1) as nat);
    }
}

// ---------------------------------------------------------------------------
// Laws of the game.
// ---------------------------------------------------------------------------

/// Replaying a history in two parts gives the game that replaying it whole
/// gives, and the whole can be applied exactly when the first part can and
/// the second can after it.
pub proof fn law_replay_in_parts(game: GameView, first: Seq<GameEventView>, rest: Seq<GameEventView>)
    ensures
        game.applied_all(first + rest) == game.applied_all(first).applied_all(rest),
        game.can_apply_all(first + rest) == (game.can_apply_all(first) && game.applied_all(first).can_apply_all(rest)),
    decreases first.len(),
{
    if first.len() == 0 {
        assert(first + rest =~= rest);
    } else {
        assert((first + rest).drop_first() =~= first.drop_first() + rest);
        assert((first + rest)[0] == first[0]);
        law_replay_in_parts(game.applied(first[0]), first.drop_first(), rest);
    }
}

/// A game that has not been created permits nothing but its creation:
/// every other command is refused as not permitted.
pub proof fn law_only_creation_before_created(game: GameView, command: GameCommandView, chance: ChanceView)
    requires
        !game.created(),
        !(command is HostGame),
        !(command is PlayComputer),
    ensures
        game.decide(command, chance) is Err,
        game.decide(command, chance)->Err_0 is NotPermitted,
{
}

/// A game that has been created cannot be created again.
pub proof fn law_no_creation_once_created(game: GameView, command: GameCommandView, chance: ChanceView)
    requires
        game.created(),
        command is HostGame || command is PlayComputer,
    ensures
        game.decide(command, chance) is Err,
        game.decide(command, chance)->Err_0 is NotPermitted,
{
}

/// Applying a history that starts with an event: the event first, then the rest.
proof fn lemma_apply_first(game: GameView, event: GameEventView, rest: Seq<GameEventView>)
    ensures
        game.applied_all(seq![event] + rest) == game.applied(event).applied_all(rest),
        game.can_apply_all(seq![event] + rest) == (game.can_apply(event) && game.applied(event).can_apply_all(rest)),
{
    assert((seq![event] + rest).drop_first() =~= rest);
    assert((seq![event] + rest)[0] == event);
}

/// Applying a history of one event.
proof fn lemma_apply_one(game: GameView, event: GameEventView)
    ensures
        game.applied_all(seq![event]) == game.applied(event),
        game.can_apply_all(seq![event]) == game.can_apply(event),
{
    lemma_apply_first(game, event, Seq::empty());
    assert(seq![event] + Seq::<GameEventView>::empty() =~= seq![event]);
    assert(game.applied(event).applied_all(Seq::empty()) == game.applied(event));
    assert(game.applied(event).can_apply_all(Seq::empty()));
}

/// Hosting and then joining: the host is the first player, the joining user
/// the second, the game carries the drawn name and is starting afresh.
pub proof fn law_host_then_join(game: GameView, host: UserId, guest: UserId, game_id: GameId, chance: ChanceView)
    requires
        !game.created(),
        game.guest is None,
        game_id != GameId(0),
        guest != host,
    ensures
        game.decide(GameCommandView::HostGame { user_id: host, game_id }, chance)
            == Ok::<Seq<GameEventView>, DomainErrorView>(seq![GameEventView::LobbyGameCreated { game_id, host, name: chance.name }]),
        ({
            let hosted = game.applied(GameEventView::LobbyGameCreated { game_id, host, name: chance.name });
            &&& hosted.created()
            &&& hosted.id == game_id
            &&& hosted.name == chance.name
            &&& hosted.state == StateView::Starting(StartingView::initial())
            &&& hosted.decide(GameCommandView::JoinGame { user_id: guest }, chance)
                == Ok::<Seq<GameEventView>, DomainErrorView>(seq![GameEventView::LobbyGameJoined { guest }])
            &&& hosted.applied(GameEventView::LobbyGameJoined { guest }).player_of(host) == Some(PLAYER0)
            &&& hosted.applied(GameEventView::LobbyGameJoined { guest }).player_of(guest) == Some(PLAYER1)
            &&& hosted.applied(GameEventView::LobbyGameJoined { guest }).state == StateView::Starting(StartingView::initial())
        }),
{
}

/// During the play, only the player whose turn it is may lay a card or call
/// go; anyone else is told it is not their turn.
pub proof fn law_turn_order(game: GameView, player: Player, card: Card, chance: ChanceView)
    requires
        game.created(),
        game.state is Playing,
        game.state->Playing_0.play_state.next_to_play != player,
    ensures
        game.decide(GameCommandView::PlayCard { player, card }, chance) == Err::<Seq<GameEventView>, DomainErrorView>(DomainErrorView::NotPlayersTurn(player)),
        game.decide(GameCommandView::Go { player }, chance) == Err::<Seq<GameEventView>, DomainErrorView>(DomainErrorView::NotPlayersTurn(player)),
{
}

/// Once both players have acknowledged cuts of different ranks, the player
/// who cut the lower rank deals: each player holds six cards from the top
/// of the shuffled pack, in a new round on a board at zero. With cuts of the
/// same rank, the players cut again from a fresh pack.
pub proof fn law_start_game_deals(game: GameView, player: Player, chance: ChanceView)
    requires
        game.created(),
        game.state is Starting,
        !game.state->Starting_0.pending.spec_waiting_on(player.spec_opponent()),
        chance.valid(),
    ensures
        game.decide(GameCommandView::StartGame { player }, chance) is Ok,
        game.can_apply_all(game.decide(GameCommandView::StartGame { player }, chance)->Ok_0),
        ({
            let s = game.state->Starting_0;
            let after = game.applied_all(game.decide(GameCommandView::StartGame { player }, chance)->Ok_0);
            match roles_from_cuts(s.cuts) {
                Some(roles) => after.state == StateView::Discarding(
                    DiscardingView::new_round(ScoreboardView::zero(), roles)
                        .dealt(PLAYER0, chance.deck.subrange(0, 6))
                        .dealt(PLAYER1, chance.deck.subrange(6, 12)),
                ),
                None => after.state == StateView::Starting(StartingView::initial()),
            }
        }),
{
    let s = game.state->Starting_0;
    let events = game.decide(GameCommandView::StartGame { player }, chance)->Ok_0;
    let e0 = GameEventView::GameStarted { player };
    let g1 = game.applied(e0);
    match roles_from_cuts(s.cuts) {
        Some(roles) => {
            let e1 = GameEventView::CutForDealDecided { dealer: Dealer(roles.spec_dealer()) };
            let e2 = GameEventView::HandDealt { player: PLAYER0, hand: chance.deck.subrange(0, 6) };
            let e3 = GameEventView::HandDealt { player: PLAYER1, hand: chance.deck.subrange(6, 12) };
            assert(events =~= seq![e0] + (seq![e1] + (seq![e2] + seq![e3])));
            lemma_apply_first(game, e0, seq![e1] + (seq![e2] + seq![e3]));
            lemma_apply_first(g1, e1, seq![e2] + seq![e3]);
            let g2 = g1.applied(e1);
            lemma_apply_first(g2, e2, seq![e3]);
            let g3 = g2.applied(e2);
            lemma_apply_one(g3, e3);
            Roles::lemma_new_dealer(PLAYER0);
            Roles::lemma_new_dealer(PLAYER1);
            assert(Roles::spec_new(roles.spec_dealer()) == roles);
        },
        None => {
            let e1 = GameEventView::CutForDealTied;
            assert(events =~= seq![e0] + seq![e1]);
            lemma_apply_first(game, e0, seq![e1]);
            lemma_apply_one(g1, e1);
        },
    }
}

/// Once both players have acknowledged the crib's count, the next round is
/// dealt with the roles swapped: the pone of this round deals the next, on
/// the same board, with an empty crib and both players to discard.
pub proof fn law_next_round_swaps_dealer(game: GameView, player: Player, chance: ChanceView)
    requires
        game.created(),
        game.state is ScoringCrib,
        !game.state->ScoringCrib_0.pending.spec_waiting_on(player.spec_opponent()),
        chance.valid(),
    ensures
        game.decide(GameCommandView::StartNextRound { player }, chance) is Ok,
        game.can_apply_all(game.decide(GameCommandView::StartNextRound { player }, chance)->Ok_0),
        ({
            let s = game.state->ScoringCrib_0;
            let after = game.applied_all(game.decide(GameCommandView::StartNextRound { player }, chance)->Ok_0);
            &&& after.state is Discarding
            &&& after.state->Discarding_0.roles.spec_dealer() == s.roles.spec_dealer().spec_opponent()
            &&& after.state->Discarding_0.scoreboard == s.scoreboard
            &&& after.state->Discarding_0.hands == (chance.deck.subrange(0, 6), chance.deck.subrange(6, 12))
            &&& after.state->Discarding_0.crib.len() == 0
            &&& after.state->Discarding_0.pending == Pending::spec_new()
        }),
{
    let s = game.state->ScoringCrib_0;
    let events = game.decide(GameCommandView::StartNextRound { player }, chance)->Ok_0;
    let e0 = GameEventView::NextRoundStarted { player };
    let e1 = GameEventView::HandDealt { player: PLAYER0, hand: chance.deck.subrange(0, 6) };
    let e2 = GameEventView::HandDealt { player: PLAYER1, hand: chance.deck.subrange(6, 12) };
    assert(events =~= seq![e0] + (seq![e1] + seq![e2]));
    lemma_apply_first(game, e0, seq![e1] + seq![e2]);
    let g1 = game.applied(e0);
    lemma_apply_first(g1, e1, seq![e2]);
    let g2 = g1.applied(e1);
    lemma_apply_one(g2, e2);
    Roles::lemma_new_dealer(s.roles.spec_dealer().spec_opponent());
}

impl GameView {
    /// The game is under way as a game of its phase should be: the board of
    /// a round has no winner yet, the series of the play stays within 31,
    /// and the hands and crib still to count hold at most four cards.
    pub open spec fn under_way(self) -> bool {
        match self.state {
            StateView::Discarding(d) => d.scoreboard.winner() is None,
            StateView::Playing(p) => {
                &&& p.scoreboard.winner() is None
                &&& p.play_state.running_total() <= PLAY_TARGET
                &&& p.play_state.regathered(p.roles.spec_dealer().spec_opponent()).len() <= CARDS_KEPT_PER_HAND
            },
            StateView::ScoringPone(s) => {
                &&& s.scoreboard.winner() is None
                &&& s.roles.spec_dealer().pick(s.hands).len() <= CARDS_KEPT_PER_HAND
            },
            StateView::ScoringDealer(s) => {
                &&& s.scoreboard.winner() is None
                &&& s.crib.len() <= CARDS_KEPT_PER_HAND
            },
            _ => true,
        }
    }
}

/// The card laid by the next player, one they may lay, keeps the series
/// within 31.
proof fn lemma_legal_play_within_target(ps: PlayStateView, card: Card)
    requires
        ps.legal_plays(ps.next_to_play).contains(card),
    ensures
        ps.with_card_played(card).running_total() == ps.running_total() + card.spec_value(),
        ps.with_card_played(card).running_total() <= PLAY_TARGET,
{
    let pred = |c: Card| ps.running_total() + c.spec_value() <= PLAY_TARGET;
    let legal = ps.pending_of(ps.next_to_play).filter(pred);
    let i = choose|i: int| 0 <= i < legal.len() && legal[i] == card;
    broadcast use vstd::seq_lib::group_filter_ensures;
    assert(pred(legal[i]));
    let cards = cards_of(ps.current);
    let after = cards_of(ps.with_card_played(card).current);
    assert(after =~= cards.push(card));
    assert(after.drop_last() =~= cards);
}

/// A discard's events can be applied to a game under way.
proof fn lemma_discard_applies(game: GameView, player: Player, cards: Seq<Card>, chance: ChanceView)
    requires
        game.under_way(),
        game.decide(GameCommandView::DiscardCards { player, cards }, chance) is Ok,
    ensures
        game.can_apply_all(game.decide(GameCommandView::DiscardCards { player, cards }, chance)->Ok_0),
{
    let events = game.decide(GameCommandView::DiscardCards { player, cards }, chance)->Ok_0;
    let d = game.state->Discarding_0;
    let e0 = GameEventView::CardsDiscarded { player, cards };
    if d.pending.spec_waiting_on(player.spec_opponent()) {
        assert(events =~= seq![e0]);
        lemma_apply_one(game, e0);
    } else {
        let cut = card_at(d.deck, chance.cut_seed);
        let pegging = PeggingView { player: d.roles.spec_dealer(), sheet: his_heels_items(cut) };
        let e1 = GameEventView::StarterSelected { cut, pegging };
        assert(events =~= seq![e0] + seq![e1]);
        lemma_apply_first(game, e0, seq![e1]);
        lemma_apply_one(game.applied(e0), e1);
        if cut.face == Face::Jack {
            assert(his_heels_items(cut).drop_last() =~= Seq::<ScoreItemView>::empty());
            assert(items_total(his_heels_items(cut).drop_last()) == 0);
        }
        assert(items_total(pegging.sheet) <= 2);
    }
}

/// A card's events can be applied to a game under way.
proof fn lemma_play_applies(game: GameView, player: Player, card: Card, chance: ChanceView)
    requires
        game.under_way(),
        game.decide(GameCommandView::PlayCard { player, card }, chance) is Ok,
    ensures
        game.can_apply_all(game.decide(GameCommandView::PlayCard { player, card }, chance)->Ok_0),
{
    let events = game.decide(GameCommandView::PlayCard { player, card }, chance)->Ok_0;
    let ps = game.state->Playing_0.play_state;
    lemma_legal_play_within_target(ps, card);
    lemma_play_items_bounded(ps.with_card_played(card));
    lemma_apply_one(game, events[0]);
    assert(events =~= seq![events[0]]);
}

/// A go's events can be applied to a game under way.
proof fn lemma_go_applies(game: GameView, player: Player, chance: ChanceView)
    requires
        game.under_way(),
        game.decide(GameCommandView::Go { player }, chance) is Ok,
    ensures
        game.can_apply_all(game.decide(GameCommandView::Go { player }, chance)->Ok_0),
{
    let events = game.decide(GameCommandView::Go { player }, chance)->Ok_0;
    let sheet = go_items(game.state->Playing_0.play_state);
    if sheet.len() > 0 {
        assert(sheet.drop_last() =~= Seq::<ScoreItemView>::empty());
        assert(items_total(sheet.drop_last()) == 0);
    }
    lemma_apply_one(game, events[0]);
    assert(events =~= seq![events[0]]);
}

/// A count's events can be applied to a game under way.
proof fn lemma_count_applies(game: GameView, command: GameCommandView, chance: ChanceView)
    requires
        game.under_way(),
        command is ScorePone || command is ScoreDealer || command is ScoreCrib,
        game.decide(command, chance) is Ok,
    ensures
        game.can_apply_all(game.decide(command, chance)->Ok_0),
{
    let events = game.decide(command, chance)->Ok_0;
    match game.state {
        StateView::Playing(p) => {
            lemma_count_bounded(p.play_state.regathered(p.roles.spec_dealer().spec_opponent()), p.starter_cut, 4);
        },
        StateView::ScoringPone(s) => {
            lemma_count_bounded(s.roles.spec_dealer().pick(s.hands), s.starter_cut, 4);
        },
        StateView::ScoringDealer(s) => {
            lemma_count_bounded(s.crib, s.starter_cut, 5);
        },
        _ => {},
    }
    assert(pow2(5) == 32) by {
        reveal_with_fuel(pow2, 6);
    }
    lemma_apply_one(game, events[0]);
    assert(events =~= seq![events[0]]);
}

/// What a command decides, the game can apply: every event of an accepted
/// command, in order, can be applied to a game under way.
pub proof fn law_decided_events_apply(game: GameView, command: GameCommandView, chance: ChanceView)
    requires
        game.under_way(),
        chance.valid(),
    ensures
        game.decide(command, chance) is Ok ==> game.can_apply_all(game.decide(command, chance)->Ok_0),
{
    let decision = game.decide(command, chance);
    if decision is Ok {
        let events = decision->Ok_0;
        match command {
            GameCommandView::StartGame { player } => {
                if game.state->Starting_0.pending.spec_waiting_on(player.spec_opponent()) {
                    lemma_apply_one(game, events[0]);
                    assert(events =~= seq![events[0]]);
                } else {
                    law_start_game_deals(game, player, chance);
                }
            },
            GameCommandView::StartNextRound { player } => {
                if game.state->ScoringCrib_0.pending.spec_waiting_on(player.spec_opponent()) {
                    lemma_apply_one(game, events[0]);
                    assert(events =~= seq![events[0]]);
                } else {
                    law_next_round_swaps_dealer(game, player, chance);
                }
            },
            GameCommandView::DiscardCards { player, cards } => lemma_discard_applies(game, player, cards, chance),
            GameCommandView::PlayCard { player, card } => lemma_play_applies(game, player, card, chance),
            GameCommandView::Go { player } => lemma_go_applies(game, player, chance),
            GameCommandView::ScorePone { .. } => lemma_count_applies(game, command, chance),
            GameCommandView::ScoreDealer { .. } => lemma_count_applies(game, command, chance),
            GameCommandView::ScoreCrib { .. } => lemma_count_applies(game, command, chance),
            _ => {
                lemma_apply_one(game, events[0]);
                assert(events =~= seq![events[0]]);
            },
        }
    }
}

/// Once the game is finished, no command is accepted: every command is
/// refused as not permitted.
pub proof fn law_finished_game_accepts_nothing(game: GameView, command: GameCommandView, chance: ChanceView)
    requires
        game.created(),
        game.guest is Some,
        game.state is Finished,
    ensures
        game.decide(command, chance) is Err,
        game.decide(command, chance)->Err_0 is NotPermitted,
{
}

/// The play ends the moment a player reaches the winning score, whether by
/// pegging in the play, by the starter, or by counting a hand or the crib:
/// the event that pegs the points leaves the game finished, with that
/// player the winner.
pub proof fn law_reaching_the_winning_score_ends_the_game(game: GameView, event: GameEventView)
    requires
        game.can_apply(event),
        ({
            let board = match game.state {
                StateView::Discarding(d) => d.scoreboard,
                StateView::Playing(p) => p.scoreboard,
                StateView::ScoringPone(s) => s.scoreboard,
                StateView::ScoringDealer(s) => s.scoreboard,
                _ => ScoreboardView::zero(),
            };
            &&& board.winner() is None
            &&& match (event, game.state) {
                (GameEventView::StarterSelected { pegging, .. }, StateView::Discarding(_)) =>
                    board.pegged(pegging).winner() is Some,
                (GameEventView::CardPlayed { pegging, .. }, StateView::Playing(_)) =>
                    board.pegged(pegging).winner() is Some,
                (GameEventView::GoCalled { pegging, .. }, StateView::Playing(_)) =>
                    board.pegged(pegging).winner() is Some,
                (GameEventView::PoneScored { player, pegging }, StateView::Playing(p)) =>
                    !p.pending.spec_waiting_on(player.spec_opponent()) && board.pegged(pegging).winner() is Some,
                (GameEventView::DealerScored { player, pegging }, StateView::ScoringPone(s)) =>
                    !s.pending.spec_waiting_on(player.spec_opponent()) && board.pegged(pegging).winner() is Some,
                (GameEventView::CribScored { player, pegging }, StateView::ScoringDealer(s)) =>
                    !s.pending.spec_waiting_on(player.spec_opponent()) && board.pegged(pegging).winner() is Some,
                _ => false,
            }
        }),
    ensures
        game.applied(event).state is Finished,
        game.applied(event).state->Finished_0.scoreboard.winner() == Some(game.applied(event).state->Finished_0.winner),
{
}

/// Writing a card as text and reading the text gives the card back.
pub proof fn law_card_text_round_trip(card: Card)
    ensures
        Card::spec_parse(card.spec_text()) == Some(card),
{
}

/// The plays by a player, with one more play.
proof fn lemma_played_by_push(plays: Seq<Play>, play: Play, player: Player)
    ensures
        played_by(plays.push(play), player) == if play.player == player {
            played_by(plays, player).push(play.card)
        } else {
            played_by(plays, player)
        },
{
    assert(plays.push(play).drop_last() =~= plays);
}

/// Laying a card, any card, moves it from the player's hand to the plays:
/// the card leaves the cards the player has yet to play, and joins the end
/// of the cards the player has laid this round; the opponent's cards do not
/// move.
pub proof fn law_play_moves_the_card(ps: PlayStateView, card: Card, other: Player)
    requires
        other != ps.next_to_play,
    ensures
        !ps.after_play(card).pending_of(ps.next_to_play).contains(card),
        ps.after_play(card).regathered(ps.next_to_play) == ps.regathered(ps.next_to_play).push(card),
        ps.after_play(card).pending_of(other) == ps.pending_of(other),
        ps.after_play(card).regathered(other) == ps.regathered(other),
{
    let player = ps.next_to_play;
    let play = Play { player, card };
    let s = ps.with_card_played(card);
    assert(s.previous + s.current =~= (ps.previous + ps.current).push(play));
    assert(s.start_new_play().previous + s.start_new_play().current =~= s.previous + s.current);
    lemma_played_by_push(ps.previous + ps.current, play, player);
    lemma_played_by_push(ps.previous + ps.current, play, other);
    assert(other == player.spec_opponent());
    let kept = ps.pending_of(player).filter(other_than(card));
    if kept.contains(card) {
        let i = kept.index_of(card);
        broadcast use vstd::seq_lib::group_filter_ensures;
        assert(other_than(card)(kept[i]));
    }
}

/// Calling go moves no card: each player keeps the cards they have yet to
/// play, and the cards they have laid this round.
pub proof fn law_go_moves_no_card(ps: PlayStateView, player: Player)
    ensures
        ps.after_go().pending_of(player) == ps.pending_of(player),
        ps.after_go().regathered(player) == ps.regathered(player),
{
    let s = PlayStateView { go_status: GoStatus::Called, ..ps };
    assert(s.start_new_play().previous + s.start_new_play().current =~= ps.previous + ps.current);
    assert(ps.start_new_play().previous + ps.start_new_play().current =~= ps.previous + ps.current);
}

impl StateView {
    /// The board of the round, in every state from the deal on.
    pub open spec fn board(self) -> Option<ScoreboardView> {
        match self {
            StateView::Starting(_) => None,
            StateView::Discarding(d) => Some(d.scoreboard),
            StateView::Playing(p) => Some(p.scoreboard),
            StateView::ScoringPone(s) => Some(s.scoreboard),
            StateView::ScoringDealer(s) => Some(s.scoreboard),
            StateView::ScoringCrib(s) => Some(s.scoreboard),
            StateView::Finished(f) => Some(f.scoreboard),
        }
    }
}

/// Pegging never moves a front peg backwards.
proof fn lemma_pegged_moves_forward(board: ScoreboardView, pegging: PeggingView, player: Player)
    requires
        board.peg_fits(pegging),
    ensures
        board.pegged(pegging).position(player).front.0 >= board.position(player).front.0,
{
}

/// The back peg never passes the front peg: pegging a board on which a
/// player's back peg is at or behind the front peg keeps it so.
pub proof fn law_back_peg_trails_front(board: ScoreboardView, pegging: PeggingView, player: Player)
    requires
        board.peg_fits(pegging),
        board.position(player).back.0 <= board.position(player).front.0,
    ensures
        board.pegged(pegging).position(player).back.0 <= board.pegged(pegging).position(player).front.0,
{
}

/// Scores never go back: an event applied to a game whose round is under
/// way leaves each player with at least the points they had, whenever the
/// game still has a board afterwards (creating a game anew starts without one).
pub proof fn law_scores_never_go_back(game: GameView, event: GameEventView, player: Player)
    requires
        game.can_apply(event),
        game.state.board() is Some,
        game.applied(event).state.board() is Some,
    ensures
        game.applied(event).state.board()->0.position(player).front.0
            >= game.state.board()->0.position(player).front.0,
{
    let before = game.state.board()->0;
    match (event, game.state) {
        (GameEventView::StarterSelected { pegging, .. }, StateView::Discarding(_)) =>
            lemma_pegged_moves_forward(before, pegging, player),
        (GameEventView::CardPlayed { pegging, .. }, StateView::Playing(_)) =>
            lemma_pegged_moves_forward(before, pegging, player),
        (GameEventView::GoCalled { pegging, .. }, StateView::Playing(_)) =>
            lemma_pegged_moves_forward(before, pegging, player),
        (GameEventView::PoneScored { player: who, pegging }, StateView::Playing(p)) =>
            if !p.pending.spec_waiting_on(who.spec_opponent()) {
                lemma_pegged_moves_forward(before, pegging, player)
            },
        (GameEventView::DealerScored { player: who, pegging }, StateView::ScoringPone(s)) =>
            if !s.pending.spec_waiting_on(who.spec_opponent()) {
                lemma_pegged_moves_forward(before, pegging, player)
            },
        (GameEventView::CribScored { player: who, pegging }, StateView::ScoringDealer(s)) =>
            if !s.pending.spec_waiting_on(who.spec_opponent()) {
                lemma_pegged_moves_forward(before, pegging, player)
            },
        _ => {},
    }
}

// ---------------------------------------------------------------------------
// Sound rounds.
// ---------------------------------------------------------------------------

/// The cards in the crib once the players not awaited have discarded: two each.
pub open spec fn crib_size(pending: Pending) -> nat {
    (if pending.spec_waiting_on(PLAYER0) { 0nat } else { 2nat })
        + (if pending.spec_waiting_on(PLAYER1) { 0nat } else { 2nat })
}

impl GameView {
    /// The round is sound: no board of a round in progress has a winner;
    /// while discarding, the crib holds two cards from each player who has
    /// discarded and such a player keeps at most four; during the play, the
    /// series stays within 31 and each player's cards, laid and yet to lay,
    /// number at most four; while counting, hands and crib hold at most four.
    pub open spec fn in_round(self) -> bool {
        match self.state {
            StateView::Discarding(d) => {
                &&& d.scoreboard.winner() is None
                &&& d.crib.len() == crib_size(d.pending)
                &&& !d.pending.spec_waiting_on(PLAYER0) ==> d.hands.0.len() <= CARDS_KEPT_PER_HAND
                &&& !d.pending.spec_waiting_on(PLAYER1) ==> d.hands.1.len() <= CARDS_KEPT_PER_HAND
            },
            StateView::Playing(p) => {
                &&& p.scoreboard.winner() is None
                &&& p.play_state.running_total() <= PLAY_TARGET
                &&& p.crib.len() <= CARDS_KEPT_PER_HAND
                &&& p.play_state.regathered(PLAYER0).len() + p.play_state.pending_of(PLAYER0).len() <= CARDS_KEPT_PER_HAND
                &&& p.play_state.regathered(PLAYER1).len() + p.play_state.pending_of(PLAYER1).len() <= CARDS_KEPT_PER_HAND
            },
            StateView::ScoringPone(s) => {
                &&& s.scoreboard.winner() is None
                &&& s.hands.0.len() <= CARDS_KEPT_PER_HAND
                &&& s.hands.1.len() <= CARDS_KEPT_PER_HAND
                &&& s.crib.len() <= CARDS_KEPT_PER_HAND
            },
            StateView::ScoringDealer(s) => {
                &&& s.scoreboard.winner() is None
                &&& s.hands.0.len() <= CARDS_KEPT_PER_HAND
                &&& s.hands.1.len() <= CARDS_KEPT_PER_HAND
                &&& s.crib.len() <= CARDS_KEPT_PER_HAND
            },
            StateView::ScoringCrib(s) => s.scoreboard.winner() is None,
            _ => true,
        }
    }
}

/// A sound round is under way.
pub proof fn law_sound_round_is_under_way(game: GameView)
    requires
        game.in_round(),
    ensures
        game.under_way(),
{
    match game.state {
        StateView::Playing(p) => match p.roles.spec_dealer() {
            Player::First => {},
            Player::Second => {},
        },
        StateView::ScoringPone(s) => match s.roles.spec_dealer() {
            Player::First => {},
            Player::Second => {},
        },
        _ => {},
    }
}

/// Leaving out an element that fails the test shortens a sequence.
proof fn lemma_filter_drops_one<A>(s: Seq<A>, p: spec_fn(A) -> bool, i: int)
    requires
        0 <= i < s.len(),
        !p(s[i]),
    ensures
        s.filter(p).len() + 1 <= s.len(),
    decreases s.len(),
{
    let init = s.drop_last();
    assert(init.push(s.last()) =~= s);
    init.lemma_filter_len_push(p, s.last());
    init.lemma_filter_len(p);
    if i < s.len() - 1 {
        assert(init[i] == s[i]);
        lemma_filter_drops_one(init, p, i);
    }
}

/// Leaving out two elements that fail the test shortens a sequence by two.
proof fn lemma_filter_drops_two<A>(s: Seq<A>, p: spec_fn(A) -> bool, i: int, j: int)
    requires
        0 <= i < j < s.len(),
        !p(s[i]),
        !p(s[j]),
    ensures
        s.filter(p).len() + 2 <= s.len(),
    decreases s.len(),
{
    let init = s.drop_last();
    assert(init.push(s.last()) =~= s);
    init.lemma_filter_len_push(p, s.last());
    assert(init[i] == s[i]);
    if j == s.len() - 1 {
        lemma_filter_drops_one(init, p, i);
    } else {
        assert(init[j] == s[j]);
        lemma_filter_drops_two(init, p, i, j);
    }
}

/// Laying away two different cards of a hand of six leaves at most four;
/// the crib gains the two cards, the player is no longer awaited, and the
/// opponent's hand and turn are as they were.
proof fn lemma_discard_of_two(d: DiscardingView, player: Player, cards: Seq<Card>)
    requires
        player.pick(d.hands).len() == 6,
        cards.len() == 2,
        cards.no_duplicates(),
        all_held(player.pick(d.hands), cards),
    ensures
        player.pick(d.discarded(player, cards).hands).len() <= CARDS_KEPT_PER_HAND,
        player.spec_opponent().pick(d.discarded(player, cards).hands) == player.spec_opponent().pick(d.hands),
        d.discarded(player, cards).crib.len() == d.crib.len() + 2,
        !d.discarded(player, cards).pending.spec_waiting_on(player),
        d.discarded(player, cards).pending.spec_waiting_on(player.spec_opponent())
            == d.pending.spec_waiting_on(player.spec_opponent()),
{
    let hand = player.pick(d.hands);
    let keep = |c: Card| not_in(cards, c);
    assert(hand.contains(cards[0]));
    assert(hand.contains(cards[1]));
    let i = hand.index_of(cards[0]);
    let j = hand.index_of(cards[1]);
    assert(cards.contains(cards[0]));
    assert(cards.contains(cards[1]));
    assert(!keep(hand[i]));
    assert(!keep(hand[j]));
    if i < j {
        lemma_filter_drops_two(hand, keep, i, j);
    } else {
        lemma_filter_drops_two(hand, keep, j, i);
    }
    d.pending.law_waiting();
}

/// The total of no cards is nothing, and a round whose plays have not begun
/// has laid no card.
proof fn lemma_play_not_begun(ps: PlayStateView, player: Player)
    requires
        ps.current.len() == 0,
        ps.previous.len() == 0,
    ensures
        ps.running_total() == 0,
        ps.regathered(player).len() == 0,
{
    assert(cards_of(ps.current) =~= Seq::<Card>::empty());
    assert(ps.previous + ps.current =~= Seq::<Play>::empty());
}

/// A discard of two different cards keeps the round sound.
proof fn lemma_discard_keeps_round_sound(game: GameView, player: Player, cards: Seq<Card>, chance: ChanceView)
    requires
        game.in_round(),
        cards.no_duplicates(),
        game.decide(GameCommandView::DiscardCards { player, cards }, chance) is Ok,
    ensures
        game.applied_all(game.decide(GameCommandView::DiscardCards { player, cards }, chance)->Ok_0).in_round(),
{
    let events = game.decide(GameCommandView::DiscardCards { player, cards }, chance)->Ok_0;
    let d = game.state->Discarding_0;
    let after = d.discarded(player, cards);
    let e0 = GameEventView::CardsDiscarded { player, cards };
    lemma_discard_of_two(d, player, cards);
    after.pending.law_waiting();
    if d.pending.spec_waiting_on(player.spec_opponent()) {
        assert(events =~= seq![e0]);
        lemma_apply_one(game, e0);
        match player {
            Player::First => {},
            Player::Second => {},
        }
    } else {
        let cut = card_at(d.deck, chance.cut_seed);
        let pegging = PeggingView { player: d.roles.spec_dealer(), sheet: his_heels_items(cut) };
        let e1 = GameEventView::StarterSelected { cut, pegging };
        assert(events =~= seq![e0] + seq![e1]);
        lemma_apply_first(game, e0, seq![e1]);
        lemma_apply_one(game.applied(e0), e1);
        let ps = PlayStateView {
            next_to_play: d.roles.spec_dealer().spec_opponent(),
            pending: after.hands,
            go_status: GoStatus::NotCalled,
            current: Seq::empty(),
            previous: Seq::empty(),
        };
        lemma_play_not_begun(ps, PLAYER0);
        lemma_play_not_begun(ps, PLAYER1);
        match player {
            Player::First => {},
            Player::Second => {},
        }
    }
}

/// Laying a card keeps the round sound.
proof fn lemma_play_keeps_round_sound(game: GameView, player: Player, card: Card, chance: ChanceView)
    requires
        game.in_round(),
        game.decide(GameCommandView::PlayCard { player, card }, chance) is Ok,
    ensures
        game.applied_all(game.decide(GameCommandView::PlayCard { player, card }, chance)->Ok_0).in_round(),
{
    let events = game.decide(GameCommandView::PlayCard { player, card }, chance)->Ok_0;
    let p = game.state->Playing_0;
    let ps = p.play_state;
    let other = player.spec_opponent();
    lemma_apply_one(game, events[0]);
    assert(events =~= seq![events[0]]);
    lemma_legal_play_within_target(ps, card);
    law_play_moves_the_card(ps, card, other);
    let pending = ps.pending_of(player);
    let legal = |c: Card| ps.running_total() + c.spec_value() <= PLAY_TARGET;
    pending.lemma_filter_contains_rev(legal, card);
    let i = pending.index_of(card);
    lemma_filter_drops_one(pending, other_than(card), i);
    let after = ps.after_play(card);
    assert(after.pending_of(player) == pending.filter(other_than(card)));
    let s = ps.with_card_played(card);
    assert(after.running_total() <= PLAY_TARGET) by {
        if after.current.len() == 0 {
            assert(cards_of(after.current) =~= Seq::<Card>::empty());
        } else {
            assert(after.current == s.current);
        }
    }
    match player {
        Player::First => {},
        Player::Second => {},
    }
}

/// Calling go keeps the round sound.
proof fn lemma_go_keeps_round_sound(game: GameView, player: Player, chance: ChanceView)
    requires
        game.in_round(),
        game.decide(GameCommandView::Go { player }, chance) is Ok,
    ensures
        game.applied_all(game.decide(GameCommandView::Go { player }, chance)->Ok_0).in_round(),
{
    let events = game.decide(GameCommandView::Go { player }, chance)->Ok_0;
    let ps = game.state->Playing_0.play_state;
    lemma_apply_one(game, events[0]);
    assert(events =~= seq![events[0]]);
    law_go_moves_no_card(ps, PLAYER0);
    law_go_moves_no_card(ps, PLAYER1);
    let after = ps.after_go();
    assert(after.running_total() <= PLAY_TARGET) by {
        if after.current.len() == 0 {
            assert(cards_of(after.current) =~= Seq::<Card>::empty());
        } else {
            assert(after.current == ps.current);
        }
    }
}

/// Counting a hand or the crib keeps the round sound.
proof fn lemma_count_keeps_round_sound(game: GameView, command: GameCommandView, chance: ChanceView)
    requires
        game.in_round(),
        command is ScorePone || command is ScoreDealer || command is ScoreCrib,
        game.decide(command, chance) is Ok,
    ensures
        game.applied_all(game.decide(command, chance)->Ok_0).in_round(),
{
    let events = game.decide(command, chance)->Ok_0;
    lemma_apply_one(game, events[0]);
    assert(events =~= seq![events[0]]);
}

/// A sound round stays sound: the events of every command that a game in a
/// sound round accepts, applied in order, leave it in a sound round, so the
/// game stays under way for its next command. A discard must name two
/// different cards: two copies of one card pass the check that both are
/// held and leave five cards in the hand.
pub proof fn law_sound_rounds_stay_sound(game: GameView, command: GameCommandView, chance: ChanceView)
    requires
        game.in_round(),
        chance.valid(),
        command matches GameCommandView::DiscardCards { cards, .. } ==> cards.no_duplicates(),
    ensures
        game.decide(command, chance) is Ok ==> game.applied_all(game.decide(command, chance)->Ok_0).in_round(),
{
    let decision = game.decide(command, chance);
    if decision is Ok {
        let events = decision->Ok_0;
        match command {
            GameCommandView::StartGame { player } => {
                if game.state->Starting_0.pending.spec_waiting_on(player.spec_opponent()) {
                    lemma_apply_one(game, events[0]);
                    assert(events =~= seq![events[0]]);
                } else {
                    law_start_game_deals(game, player, chance);
                    Pending::spec_new().law_waiting();
                }
            },
            GameCommandView::StartNextRound { player } => {
                if game.state->ScoringCrib_0.pending.spec_waiting_on(player.spec_opponent()) {
                    lemma_apply_one(game, events[0]);
                    assert(events =~= seq![events[0]]);
                } else {
                    law_next_round_swaps_dealer(game, player, chance);
                    Pending::spec_new().law_waiting();
                }
            },
            GameCommandView::DiscardCards { player, cards } =>
                lemma_discard_keeps_round_sound(game, player, cards, chance),
            GameCommandView::PlayCard { player, card } => lemma_play_keeps_round_sound(game, player, card, chance),
            GameCommandView::Go { player } => lemma_go_keeps_round_sound(game, player, chance),
            GameCommandView::ScorePone { .. } => lemma_count_keeps_round_sound(game, command, chance),
            GameCommandView::ScoreDealer { .. } => lemma_count_keeps_round_sound(game, command, chance),
            GameCommandView::ScoreCrib { .. } => lemma_count_keeps_round_sound(game, command, chance),
            _ => {
                lemma_apply_one(game, events[0]);
                assert(events =~= seq![events[0]]);
            },
        }
    }
}

// ---------------------------------------------------------------------------
// What the play scores.
// ---------------------------------------------------------------------------

/// The kinds of points the play can score: fifteen, pairs of two, three or
/// four cards, runs, thirty-one and the last card.
pub open spec fn scored_in_play(kind: ScoreKind) -> bool {
    ||| kind == ScoreKind::Fifteen
    ||| kind == ScoreKind::Pair
    ||| kind == ScoreKind::Triplet
    ||| kind == ScoreKind::Quadruplet
    ||| kind == ScoreKind::Run
    ||| kind == ScoreKind::ThirtyOne
    ||| kind == ScoreKind::LastCard
}

/// Every item is of a kind the play can score.
pub open spec fn all_scored_in_play(items: Seq<ScoreItemView>) -> bool {
    forall|i: int| 0 <= i < items.len() ==> scored_in_play(#[trigger] items[i].kind)
}

/// Items of kinds the play can score, put together, are still such items.
proof fn lemma_all_scored_in_play_add(a: Seq<ScoreItemView>, b: Seq<ScoreItemView>)
    requires
        all_scored_in_play(a),
        all_scored_in_play(b),
    ensures
        all_scored_in_play(a + b),
{
    assert forall|i: int| 0 <= i < (a + b).len() implies scored_in_play(#[trigger] (a + b)[i].kind) by {
        if i < a.len() {
            assert((a + b)[i] == a[i]);
        } else {
            assert((a + b)[i] == b[i - a.len()]);
        }
    }
}

/// The runs found among the latest cards of a series are runs.
proof fn lemma_play_runs_are_runs(latest: Seq<Card>, len: nat)
    ensures
        all_scored_in_play(play_run_items(latest, len)),
    decreases len,
{
    if MINIMUM_RUN_LENGTH <= len <= latest.len() && !consecutive(sort_by_rank(latest.take(len as int))) {
        lemma_play_runs_are_runs(latest, (len - 1) as nat);
    }
}

/// A flush cannot happen during the play, and neither can his nobs nor his
/// heels: a card laid scores only fifteen, pairs, runs, thirty-one and the
/// last card, and a go only the last card.
pub proof fn law_no_flush_in_the_play(v: PlayStateView)
    ensures
        all_scored_in_play(play_items(v)),
        forall|i: int| 0 <= i < go_items(v).len() ==> #[trigger] go_items(v)[i].kind == ScoreKind::LastCard,
{
    reveal(play_items);
    let cards = cards_of(v.current);
    let latest = cards.reverse();
    let fifteen = if v.running_total() == 15 {
        seq![item(ScoreKind::Fifteen, cards, SCORE_FIFTEEN)]
    } else {
        Seq::empty()
    };
    let last = if v.running_total() == PLAY_TARGET {
        seq![item(ScoreKind::ThirtyOne, cards, SCORE_THIRTY_ONE)]
    } else if series_ends(v) {
        seq![item(ScoreKind::LastCard, Seq::empty(), SCORE_GO)]
    } else {
        Seq::empty()
    };
    assert(all_scored_in_play(fifteen));
    assert(all_scored_in_play(last));
    assert(all_scored_in_play(play_pair_items(latest)));
    lemma_play_runs_are_runs(latest, latest.len());
    lemma_all_scored_in_play_add(fifteen, play_pair_items(latest));
    lemma_all_scored_in_play_add(fifteen + play_pair_items(latest), play_run_items(latest, latest.len()));
    lemma_all_scored_in_play_add(fifteen + play_pair_items(latest) + play_run_items(latest, latest.len()), last);
}

// ---------------------------------------------------------------------------
// The dealer pegs in every play.
// ---------------------------------------------------------------------------

/// A move of the play: laying a card, or calling go.
pub enum PlayMove {
    Lay(Card),
    Go,
}

impl PlayStateView {
    /// Who pegs a go called now: whoever laid the last card of the series,
    /// or the caller when the series has no card yet.
    pub open spec fn go_recipient(self) -> Player {
        if self.current.len() > 0 {
            self.current.last().player
        } else {
            self.next_to_play
        }
    }

    /// The move is allowed to the next player: a card they may lay, or a go
    /// when they may lay none.
    pub open spec fn allows(self, m: PlayMove) -> bool {
        match m {
            PlayMove::Lay(card) => self.legal_plays(self.next_to_play).contains(card),
            PlayMove::Go => self.legal_plays(self.next_to_play).len() == 0,
        }
    }

    /// The state after the move.
    pub open spec fn after_move(self, m: PlayMove) -> PlayStateView {
        match m {
            PlayMove::Lay(card) => self.after_play(card),
            PlayMove::Go => self.after_go(),
        }
    }

    /// The points that the move pegs for `player`: a card's points go to the
    /// player who laid it, a go's to `go_recipient`.
    pub open spec fn pegged_by_move(self, m: PlayMove, player: Player) -> nat {
        match m {
            PlayMove::Lay(card) =>
                if self.next_to_play == player { items_total(play_items(self.with_card_played(card))) } else { 0 },
            PlayMove::Go => if self.go_recipient() == player { items_total(go_items(self)) } else { 0 },
        }
    }
}

/// The moves, each allowed in turn, play every card: the play is finished
/// after the last of them.
pub open spec fn plays_through(ps: PlayStateView, moves: Seq<PlayMove>) -> bool
    decreases moves.len(),
{
    if moves.len() == 0 {
        ps.is_finished()
    } else {
        ps.allows(moves[0]) && plays_through(ps.after_move(moves[0]), moves.drop_first())
    }
}

/// The points that the moves peg for `player`, in all.
pub open spec fn pegged_through(ps: PlayStateView, moves: Seq<PlayMove>, player: Player) -> nat
    decreases moves.len(),
{
    if moves.len() == 0 {
        0
    } else {
        ps.pegged_by_move(moves[0], player) + pegged_through(ps.after_move(moves[0]), moves.drop_first(), player)
    }
}

/// The play as it begins once the starter is turned: the pone leads, each
/// player holds their hand, and no card has been laid.
pub open spec fn play_start(hands: (Seq<Card>, Seq<Card>), dealer: Player) -> PlayStateView {
    PlayStateView {
        next_to_play: dealer.spec_opponent(),
        pending: hands,
        go_status: GoStatus::NotCalled,
        current: Seq::empty(),
        previous: Seq::empty(),
    }
}

/// Leaving out a card that a sequence without duplicates holds removes
/// exactly that card, and leaves no duplicates.
proof fn lemma_filter_out_one(s: Seq<Card>, card: Card)
    requires
        s.no_duplicates(),
        s.contains(card),
    ensures
        s.filter(other_than(card)).len() + 1 == s.len(),
        s.filter(other_than(card)).no_duplicates(),
    decreases s.len(),
{
    lemma_filter_no_duplicates(s, other_than(card));
    let init = s.drop_last();
    assert(init.push(s.last()) =~= s);
    init.lemma_filter_len_push(other_than(card), s.last());
    assert(init.no_duplicates());
    if s.last() != card {
        let i = s.index_of(card);
        assert(i != s.len() - 1);
        assert(init[i] == card);
        lemma_filter_out_one(init, card);
    } else {
        assert forall|c: Card| init.contains(c) implies #[trigger] other_than(card)(c) by {
            let k = init.index_of(c);
            assert(s[k] == c);
        }
        lemma_filter_keeps_all(init, other_than(card));
    }
}

/// Filtering keeps a sequence free of duplicates.
proof fn lemma_filter_no_duplicates(s: Seq<Card>, p: spec_fn(Card) -> bool)
    requires
        s.no_duplicates(),
    ensures
        s.filter(p).no_duplicates(),
    decreases s.len(),
{
    if s.len() > 0 {
        let init = s.drop_last();
        assert(init.push(s.last()) =~= s);
        init.lemma_filter_push(s.last(), p);
        assert(init.no_duplicates());
        lemma_filter_no_duplicates(init, p);
        if p(s.last()) {
            let f = init.filter(p);
            if f.contains(s.last()) {
                init.lemma_filter_contains_rev(p, s.last());
                let k = init.index_of(s.last());
                assert(s[k] == s[s.len() - 1]);
            }
            assert forall|i: int, j: int| 0 <= i < j < f.push(s.last()).len()
                implies f.push(s.last())[i] != f.push(s.last())[j] by {
                if j == f.len() {
                    assert(f.contains(f[i]));
                }
            }
        }
    }
}

/// A sequence whose every element passes the test is its own filtering.
proof fn lemma_filter_keeps_all(s: Seq<Card>, p: spec_fn(Card) -> bool)
    requires
        forall|c: Card| s.contains(c) ==> #[trigger] p(c),
    ensures
        s.filter(p) == s,
    decreases s.len(),
{
    if s.len() > 0 {
        let init = s.drop_last();
        assert(init.push(s.last()) =~= s);
        init.lemma_filter_push(s.last(), p);
        assert(s.contains(s.last()));
        assert forall|c: Card| init.contains(c) implies #[trigger] p(c) by {
            let k = init.index_of(c);
            assert(s[k] == c);
        }
        lemma_filter_keeps_all(init, p);
    }
}

/// A card that makes thirty-one, or ends the series, pegs at least one for
/// the player who lays it.
proof fn lemma_last_card_pegs(v: PlayStateView)
    requires
        v.running_total() == PLAY_TARGET || series_ends(v),
    ensures
        items_total(play_items(v)) >= 1,
{
    reveal(play_items);
    let cards = cards_of(v.current);
    let latest = cards.reverse();
    let fifteen = if v.running_total() == 15 {
        seq![item(ScoreKind::Fifteen, cards, SCORE_FIFTEEN)]
    } else {
        Seq::empty()
    };
    let last = if v.running_total() == PLAY_TARGET {
        seq![item(ScoreKind::ThirtyOne, cards, SCORE_THIRTY_ONE)]
    } else {
        seq![item(ScoreKind::LastCard, Seq::empty(), SCORE_GO)]
    };
    let head = fifteen + play_pair_items(latest) + play_run_items(latest, latest.len());
    lemma_items_total_add(head, last);
    assert(last.drop_last() =~= Seq::<ScoreItemView>::empty());
    assert(items_total(last) >= 1);
}

/// A go that ends the series pegs one for its recipient.
proof fn lemma_go_pegs(v: PlayStateView)
    requires
        v.go_status != GoStatus::NotCalled || !v.has_cards(v.next_to_play.spec_opponent()),
    ensures
        items_total(go_items(v)) == 1,
{
    let g = go_items(v);
    assert(g == seq![item(ScoreKind::LastCard, Seq::empty(), SCORE_GO)]);
    assert(g.drop_last() =~= Seq::<ScoreItemView>::empty());
    assert(items_total(g.drop_last()) == 0);
    assert(g.last().points.0 == 1);
}

/// The cards `player` has laid in the current series.
spec fn laid_in_series(ps: PlayStateView, player: Player) -> nat {
    played_by(ps.current, player).len()
}

/// The player who led the current series (the next player, before its
/// first card).
spec fn series_leader(ps: PlayStateView) -> Player {
    if ps.current.len() > 0 { ps.current[0].player } else { ps.next_to_play }
}

/// The dealer lays on alone after the pone's go, and laid the last card: the
/// series will end with the dealer's point.
spec fn dealer_runs_on(ps: PlayStateView, dealer: Player) -> bool {
    &&& ps.go_status != GoStatus::NotCalled
    &&& ps.next_to_play == dealer
    &&& ps.current.len() > 0
    &&& ps.current.last().player == dealer
    &&& ps.has_cards(dealer)
}

/// The counts that keep the dealer's point to come: counted from the start
/// of the series, the pone held as many cards as the dealer when the pone
/// led, and fewer when the dealer led; the players alternate, the pone to
/// lay on alone only after the dealer's go.
spec fn counts_favour_dealer(ps: PlayStateView, dealer: Player) -> bool {
    let pone = dealer.spec_opponent();
    let a = ps.pending_of(pone).len();
    let b = ps.pending_of(dealer).len();
    let kp = laid_in_series(ps, pone);
    let kd = laid_in_series(ps, dealer);
    let leader = series_leader(ps);
    let next = ps.next_to_play;
    &&& leader == pone ==> a + kp == b + kd
    &&& leader == dealer ==> a + kp < b + kd
    &&& ps.go_status == GoStatus::NotCalled ==> {
        &&& ps.has_cards(next)
        &&& ps.current.len() > 0 ==> ps.current.last().player != next
        &&& leader == pone ==> (next == pone && kp == kd) || (next == dealer && kp == kd + 1)
        &&& leader == dealer ==> (next == dealer && kd == kp) || (next == pone && kd == kp + 1)
    }
    &&& ps.go_status != GoStatus::NotCalled ==> {
        &&& next == pone
        &&& ps.current.len() > 0
        &&& ps.current.last().player == pone
        &&& leader == pone ==> kp >= kd + 1
        &&& leader == dealer ==> kp >= kd
    }
}

/// The dealer is still due a point in this play.
spec fn dealer_due(ps: PlayStateView, dealer: Player) -> bool {
    &&& dealer_runs_on(ps, dealer) || counts_favour_dealer(ps, dealer)
    &&& ps.pending.0.no_duplicates()
    &&& ps.pending.1.no_duplicates()
}

/// Laying a card the next player may lay: it leaves their cards (one card
/// fewer, still without duplicates) and joins the series, led as before.
proof fn lemma_lay_counts(ps: PlayStateView, card: Card)
    requires
        ps.legal_plays(ps.next_to_play).contains(card),
        ps.pending.0.no_duplicates(),
        ps.pending.1.no_duplicates(),
    ensures
        ({
            let v = ps.with_card_played(card);
            let next = ps.next_to_play;
            let other = next.spec_opponent();
            &&& v.pending_of(next).len() + 1 == ps.pending_of(next).len()
            &&& v.pending_of(other) == ps.pending_of(other)
            &&& v.pending.0.no_duplicates()
            &&& v.pending.1.no_duplicates()
            &&& laid_in_series(v, next) == laid_in_series(ps, next) + 1
            &&& laid_in_series(v, other) == laid_in_series(ps, other)
            &&& series_leader(v) == series_leader(ps)
            &&& v.current.len() > 0
            &&& v.current.last().player == next
            &&& v.next_to_play == next
            &&& v.go_status == ps.go_status
        }),
{
    let next = ps.next_to_play;
    let other = next.spec_opponent();
    let pending = ps.pending_of(next);
    let legal = |c: Card| ps.running_total() + c.spec_value() <= PLAY_TARGET;
    pending.lemma_filter_contains_rev(legal, card);
    lemma_filter_out_one(pending, card);
    let play = Play { player: next, card };
    lemma_played_by_push(ps.current, play, next);
    lemma_played_by_push(ps.current, play, other);
    if ps.current.len() > 0 {
        assert(ps.current.push(play)[0] == ps.current[0]);
    }
    match next {
        Player::First => {},
        Player::Second => {},
    }
}

/// The dealer laying on alone without pegging keeps laying on alone.
proof fn lemma_due_dealer_lays_on(ps: PlayStateView, dealer: Player, card: Card)
    requires
        dealer_due(ps, dealer),
        dealer_runs_on(ps, dealer),
        ps.allows(PlayMove::Lay(card)),
        ps.pegged_by_move(PlayMove::Lay(card), dealer) == 0,
    ensures
        dealer_due(ps.after_move(PlayMove::Lay(card)), dealer),
{
    lemma_lay_counts(ps, card);
    let v = ps.with_card_played(card);
    if v.running_total() == PLAY_TARGET || series_ends(v) {
        lemma_last_card_pegs(v);
    }
}

/// No go is possible without pegging while the dealer lays on alone: the
/// go is the dealer's.
proof fn lemma_due_dealer_goes(ps: PlayStateView, dealer: Player)
    requires
        dealer_runs_on(ps, dealer),
    ensures
        ps.pegged_by_move(PlayMove::Go, dealer) > 0,
{
    lemma_go_pegs(ps);
}

/// A new series: nothing laid in it yet, led by its next player.
proof fn lemma_new_series(x: PlayStateView, player: Player)
    ensures
        x.start_new_play().current.len() == 0,
        laid_in_series(x.start_new_play(), player) == 0,
        series_leader(x.start_new_play()) == x.start_new_play().next_to_play,
        x.start_new_play().pending == x.pending,
        x.start_new_play().go_status == GoStatus::NotCalled,
{
}

/// The leader of a series may always lay a card: nothing laid yet, any card
/// keeps the total within 31.
proof fn lemma_leader_may_lay(ps: PlayStateView)
    requires
        ps.current.len() == 0,
        ps.has_cards(ps.next_to_play),
    ensures
        ps.legal_plays(ps.next_to_play).len() > 0,
{
    let pending = ps.pending_of(ps.next_to_play);
    let legal = |c: Card| ps.running_total() + c.spec_value() <= PLAY_TARGET;
    assert(cards_of(ps.current) =~= Seq::<Card>::empty());
    assert(ps.running_total() == 0);
    assert forall|c: Card| pending.contains(c) implies #[trigger] legal(c) by {
        assert(c.spec_value() <= 10);
    }
    lemma_filter_keeps_all(pending, legal);
}

/// The pone lays a card in turn.
proof fn lemma_due_pone_lays_in_turn(ps: PlayStateView, dealer: Player, card: Card)
    requires
        dealer_due(ps, dealer),
        counts_favour_dealer(ps, dealer),
        ps.go_status == GoStatus::NotCalled,
        ps.next_to_play == dealer.spec_opponent(),
        ps.allows(PlayMove::Lay(card)),
    ensures
        dealer_due(ps.after_move(PlayMove::Lay(card)), dealer),
{
    lemma_lay_counts(ps, card);
    let v = ps.with_card_played(card);
    lemma_new_series(v, dealer);
    lemma_new_series(v, dealer.spec_opponent());
}

/// The dealer lays a card in turn without pegging.
proof fn lemma_due_dealer_lays_in_turn(ps: PlayStateView, dealer: Player, card: Card)
    requires
        dealer_due(ps, dealer),
        counts_favour_dealer(ps, dealer),
        ps.go_status == GoStatus::NotCalled,
        ps.next_to_play == dealer,
        ps.allows(PlayMove::Lay(card)),
        ps.pegged_by_move(PlayMove::Lay(card), dealer) == 0,
    ensures
        dealer_due(ps.after_move(PlayMove::Lay(card)), dealer),
{
    lemma_lay_counts(ps, card);
    let v = ps.with_card_played(card);
    if v.running_total() == PLAY_TARGET || series_ends(v) {
        lemma_last_card_pegs(v);
    }
}

/// The pone calls go in turn without pegging the dealer: the dealer lays on
/// alone.
proof fn lemma_due_pone_goes_in_turn(ps: PlayStateView, dealer: Player)
    requires
        dealer_due(ps, dealer),
        counts_favour_dealer(ps, dealer),
        ps.go_status == GoStatus::NotCalled,
        ps.next_to_play == dealer.spec_opponent(),
        ps.allows(PlayMove::Go),
        ps.pegged_by_move(PlayMove::Go, dealer) == 0,
    ensures
        dealer_due(ps.after_move(PlayMove::Go), dealer),
{
    if ps.current.len() == 0 {
        lemma_leader_may_lay(ps);
    }
    if !ps.has_cards(dealer) {
        lemma_go_pegs(ps);
    }
}

/// The dealer calls go in turn: the pone lays on alone, or a new series
/// begins, led by the dealer.
proof fn lemma_due_dealer_goes_in_turn(ps: PlayStateView, dealer: Player)
    requires
        dealer_due(ps, dealer),
        counts_favour_dealer(ps, dealer),
        ps.go_status == GoStatus::NotCalled,
        ps.next_to_play == dealer,
        ps.allows(PlayMove::Go),
    ensures
        dealer_due(ps.after_move(PlayMove::Go), dealer),
{
    if ps.current.len() == 0 {
        lemma_leader_may_lay(ps);
    }
    let s = PlayStateView { go_status: GoStatus::Called, ..ps };
    lemma_new_series(s, dealer);
    lemma_new_series(s, dealer.spec_opponent());
}

/// The pone lays on alone after the dealer's go.
proof fn lemma_due_pone_lays_on(ps: PlayStateView, dealer: Player, card: Card)
    requires
        dealer_due(ps, dealer),
        counts_favour_dealer(ps, dealer),
        ps.go_status != GoStatus::NotCalled,
        ps.allows(PlayMove::Lay(card)),
    ensures
        dealer_due(ps.after_move(PlayMove::Lay(card)), dealer),
{
    lemma_lay_counts(ps, card);
    let v = ps.with_card_played(card);
    let t = PlayStateView { go_status: GoStatus::PlayContinued, ..v };
    lemma_new_series(v, dealer);
    lemma_new_series(v, dealer.spec_opponent());
    lemma_new_series(t, dealer);
    lemma_new_series(t, dealer.spec_opponent());
}

/// The pone calls go after laying on alone: a new series begins, led by
/// the dealer.
proof fn lemma_due_pone_goes_on(ps: PlayStateView, dealer: Player)
    requires
        dealer_due(ps, dealer),
        counts_favour_dealer(ps, dealer),
        ps.go_status != GoStatus::NotCalled,
        ps.allows(PlayMove::Go),
    ensures
        dealer_due(ps.after_move(PlayMove::Go), dealer),
{
    lemma_new_series(ps, dealer);
    lemma_new_series(ps, dealer.spec_opponent());
}

/// A move that pegs the dealer nothing leaves the dealer still due a point.
proof fn lemma_dealer_due_kept(ps: PlayStateView, dealer: Player, m: PlayMove)
    requires
        dealer_due(ps, dealer),
        ps.allows(m),
        ps.pegged_by_move(m, dealer) == 0,
    ensures
        dealer_due(ps.after_move(m), dealer),
{
    if dealer_runs_on(ps, dealer) {
        match m {
            PlayMove::Lay(card) => lemma_due_dealer_lays_on(ps, dealer, card),
            PlayMove::Go => lemma_due_dealer_goes(ps, dealer),
        }
    } else if ps.go_status != GoStatus::NotCalled {
        match m {
            PlayMove::Lay(card) => lemma_due_pone_lays_on(ps, dealer, card),
            PlayMove::Go => lemma_due_pone_goes_on(ps, dealer),
        }
    } else {
        let pone_next = ps.next_to_play == dealer.spec_opponent();
        assert(pone_next || ps.next_to_play == dealer) by {
            match dealer {
                Player::First => {},
                Player::Second => {},
            }
        }
        match m {
            PlayMove::Lay(card) =>
                if pone_next {
                    lemma_due_pone_lays_in_turn(ps, dealer, card)
                } else {
                    lemma_due_dealer_lays_in_turn(ps, dealer, card)
                },
            PlayMove::Go =>
                if pone_next {
                    lemma_due_pone_goes_in_turn(ps, dealer)
                } else {
                    lemma_due_dealer_goes_in_turn(ps, dealer)
                },
        }
    }
}

/// While the dealer is still due a point, the play is not finished.
proof fn lemma_dealer_due_not_finished(ps: PlayStateView, dealer: Player)
    requires
        dealer_due(ps, dealer),
    ensures
        !ps.is_finished(),
{
    match dealer {
        Player::First => {},
        Player::Second => {},
    }
}

/// From a state where the dealer is still due a point, every way of playing
/// the remaining cards pegs the dealer at least one point.
proof fn lemma_dealer_pegs(ps: PlayStateView, dealer: Player, moves: Seq<PlayMove>)
    requires
        dealer_due(ps, dealer),
        plays_through(ps, moves),
    ensures
        pegged_through(ps, moves, dealer) >= 1,
    decreases moves.len(),
{
    if moves.len() == 0 {
        lemma_dealer_due_not_finished(ps, dealer);
    } else if ps.pegged_by_move(moves[0], dealer) == 0 {
        lemma_dealer_due_kept(ps, dealer, moves[0]);
        lemma_dealer_pegs(ps.after_move(moves[0]), dealer, moves.drop_first());
    }
}

/// The dealer is sure to peg at least one point in every play: however the
/// players lay their hands of equal size (each card one they may lay, a go
/// only when they may lay none), the cards laid and the goes peg the dealer
/// at least one point, for a go or the last card if nothing earlier.
pub proof fn law_dealer_pegs_in_every_play(hands: (Seq<Card>, Seq<Card>), dealer: Player, moves: Seq<PlayMove>)
    requires
        hands.0.len() == hands.1.len(),
        hands.0.len() > 0,
        hands.0.no_duplicates(),
        hands.1.no_duplicates(),
        plays_through(play_start(hands, dealer), moves),
    ensures
        pegged_through(play_start(hands, dealer), moves, dealer) >= 1,
{
    let ps = play_start(hands, dealer);
    lemma_new_series(ps, dealer);
    assert(laid_in_series(ps, dealer) == 0);
    assert(laid_in_series(ps, dealer.spec_opponent()) == 0);
    match dealer {
        Player::First => {},
        Player::Second => {},
    }
    assert(dealer_due(ps, dealer));
    lemma_dealer_pegs(ps, dealer, moves);
}

// ---------------------------------------------------------------------------
// No winner is left unfinished.
// ---------------------------------------------------------------------------

impl GameView {
    /// A board of a round in progress shows a winner, yet the game is not
    /// finished.
    pub open spec fn winner_unfinished(self) -> bool {
        match self.state {
            StateView::Discarding(d) => d.scoreboard.winner() is Some,
            StateView::Playing(p) => p.scoreboard.winner() is Some,
            StateView::ScoringPone(s) => s.scoreboard.winner() is Some,
            StateView::ScoringDealer(s) => s.scoreboard.winner() is Some,
            StateView::ScoringCrib(s) => s.scoreboard.winner() is Some,
            _ => false,
        }
    }
}

/// No winner is left unfinished: whatever event is applied to a game in
/// which no round's board shows a winner, a board that reaches the winning
/// score leaves the game finished.
pub proof fn law_no_winner_left_unfinished(game: GameView, event: GameEventView)
    requires
        !game.winner_unfinished(),
    ensures
        !game.applied(event).winner_unfinished(),
{
    assert(ScoreboardView::zero().winner() is None);
    match event {
        GameEventView::StarterSelected { .. } => {},
        GameEventView::CardPlayed { .. } => {},
        GameEventView::GoCalled { .. } => {},
        GameEventView::PoneScored { .. } => {},
        GameEventView::DealerScored { .. } => {},
        GameEventView::CribScored { .. } => {},
        GameEventView::NextRoundStarted { .. } => {},
        _ => {},
    }
}

/// No winner is left unfinished by a whole history of events.
pub proof fn law_no_winner_left_unfinished_by_history(game: GameView, events: Seq<GameEventView>)
    requires
        !game.winner_unfinished(),
    ensures
        !game.applied_all(events).winner_unfinished(),
    decreases events.len(),
{
    if events.len() > 0 {
        law_no_winner_left_unfinished(game, events[0]);
        law_no_winner_left_unfinished_by_history(game.applied(events[0]), events.drop_first());
    }
}

// ---------------------------------------------------------------------------
// Ranks, pip values, legal plays and the cut for deal.
// ---------------------------------------------------------------------------

/// The ranks and pip values of the faces: the ace ranks one and the king
/// thirteen, in order; an ace counts one, two to ten count their number, and
/// jack, queen and king count ten each.
pub proof fn law_face_ranks_and_values(face: Face)
    ensures
        face.spec_rank() == match face {
            Face::Ace => 1nat,
            Face::Two => 2,
            Face::Three => 3,
            Face::Four => 4,
            Face::Five => 5,
            Face::Six => 6,
            Face::Seven => 7,
            Face::Eight => 8,
            Face::Nine => 9,
            Face::Ten => 10,
            Face::Jack => 11,
            Face::Queen => 12,
            Face::King => 13,
        },
        face.spec_value() == match face {
            Face::Ace => 1nat,
            Face::Two => 2,
            Face::Three => 3,
            Face::Four => 4,
            Face::Five => 5,
            Face::Six => 6,
            Face::Seven => 7,
            Face::Eight => 8,
            Face::Nine => 9,
            Face::Ten => 10,
            Face::Jack => 10,
            Face::Queen => 10,
            Face::King => 10,
        },
{
}

/// The cards a player may lay are their cards that keep the series within
/// 31 by pip value: a card they hold is a legal play exactly when the running
/// total plus its value (ten for every court card) is at most 31.
pub proof fn law_legal_plays_by_pip_value(ps: PlayStateView, player: Player, card: Card)
    ensures
        ps.legal_plays(player).contains(card)
            <==> (ps.pending_of(player).contains(card) && ps.running_total() + card.spec_value() <= PLAY_TARGET),
{
    let pending = ps.pending_of(player);
    let legal = |c: Card| ps.running_total() + c.spec_value() <= PLAY_TARGET;
    if ps.legal_plays(player).contains(card) {
        pending.lemma_filter_contains_rev(legal, card);
        let k = ps.legal_plays(player).index_of(card);
        broadcast use vstd::seq_lib::group_filter_ensures;
        assert(legal(ps.legal_plays(player)[k]));
    }
    if pending.contains(card) && legal(card) {
        let i = pending.index_of(card);
        pending.lemma_filter_contains(legal, i);
    }
}

/// The cut for deal: cards of the same face tie, and the players cut again;
/// otherwise the player who cut the lower rank (ace low, king high) deals.
pub proof fn law_lower_cut_deals(c0: Card, c1: Card)
    ensures
        c0.face == c1.face ==> roles_from_cuts((Some(c0), Some(c1))) is None,
        c0.face != c1.face ==> (roles_from_cuts((Some(c0), Some(c1))) matches Some(r)
            && r.spec_dealer() == (if c0.spec_rank() < c1.spec_rank() { PLAYER0 } else { PLAYER1 })),
{
    Roles::lemma_new_dealer(PLAYER0);
    Roles::lemma_new_dealer(PLAYER1);
    law_face_ranks_and_values(c0.face);
    law_face_ranks_and_values(c1.face);
}

// ---------------------------------------------------------------------------
// The pone leads the play.
// ---------------------------------------------------------------------------

/// Turning the starter begins the play unless his heels win the game: the
/// pone (the dealer's opponent) leads, no card has been laid, no go called,
/// and each player holds their hand; the starter is the card turned.
pub proof fn law_pone_leads_the_play(d: DiscardingView, cut: Card, pegging: PeggingView)
    ensures
        (d.starter_selected(cut, pegging) is Playing) == (d.scoreboard.pegged(pegging).winner() is None),
        d.starter_selected(cut, pegging) matches StateView::Playing(p) ==> {
            &&& p.play_state.next_to_play == d.roles.spec_dealer().spec_opponent()
            &&& p.play_state.next_to_play != p.roles.spec_dealer()
            &&& p.play_state.current.len() == 0
            &&& p.play_state.previous.len() == 0
            &&& p.play_state.go_status == GoStatus::NotCalled
            &&& p.play_state.pending == d.hands
            &&& p.roles == d.roles
            &&& p.starter_cut == cut
        },
{
    match d.roles.spec_dealer() {
        Player::First => {},
        Player::Second => {},
    }
}

/// The last discard starts the play: once the other player has discarded,
/// a discard the game accepts turns the starter and, unless his heels win
/// the game, the pone leads the play with both hands held and no card laid.
pub proof fn law_last_discard_starts_the_play(game: GameView, player: Player, cards: Seq<Card>, chance: ChanceView)
    requires
        game.state is Discarding,
        !game.state->Discarding_0.pending.spec_waiting_on(player.spec_opponent()),
        game.decide(GameCommandView::DiscardCards { player, cards }, chance) is Ok,
    ensures
        ({
            let d = game.state->Discarding_0;
            let after = game.applied_all(game.decide(GameCommandView::DiscardCards { player, cards }, chance)->Ok_0);
            after.state matches StateView::Playing(p) ==> {
                &&& p.play_state.next_to_play == d.roles.spec_dealer().spec_opponent()
                &&& p.play_state.current.len() == 0
                &&& p.play_state.previous.len() == 0
                &&& p.play_state.pending == d.discarded(player, cards).hands
                &&& p.starter_cut == card_at(d.deck, chance.cut_seed)
            }
        }),
{
    let d = game.state->Discarding_0;
    let events = game.decide(GameCommandView::DiscardCards { player, cards }, chance)->Ok_0;
    let e0 = GameEventView::CardsDiscarded { player, cards };
    let cut = card_at(d.deck, chance.cut_seed);
    let pegging = PeggingView { player: d.roles.spec_dealer(), sheet: his_heels_items(cut) };
    let e1 = GameEventView::StarterSelected { cut, pegging };
    assert(events =~= seq![e0] + seq![e1]);
    lemma_apply_first(game, e0, seq![e1]);
    lemma_apply_one(game.applied(e0), e1);
    law_pone_leads_the_play(d.discarded(player, cards), cut, pegging);
}

// ---------------------------------------------------------------------------
// What a count holds, kind by kind.
// ---------------------------------------------------------------------------

/// Keeps the items of one kind.
pub open spec fn of_kind(kind: ScoreKind) -> spec_fn(ScoreItemView) -> bool {
    |i: ScoreItemView| i.kind == kind
}

/// Every item is of the kind.
pub open spec fn all_of_kind(items: Seq<ScoreItemView>, kind: ScoreKind) -> bool {
    forall|j: int| 0 <= j < items.len() ==> #[trigger] items[j].kind == kind
}

/// Items all of one kind are all kept by that kind, and none by another.
proof fn lemma_kind_filter(items: Seq<ScoreItemView>, kind: ScoreKind, other: ScoreKind)
    requires
        all_of_kind(items, kind),
    ensures
        items.filter(of_kind(kind)) == items,
        kind != other ==> items.filter(of_kind(other)).len() == 0,
    decreases items.len(),
{
    if items.len() > 0 {
        let init = items.drop_last();
        assert(init.push(items.last()) =~= items);
        init.lemma_filter_push(items.last(), of_kind(kind));
        init.lemma_filter_push(items.last(), of_kind(other));
        assert(all_of_kind(init, kind)) by {
            assert forall|j: int| 0 <= j < init.len() implies #[trigger] init[j].kind == kind by {
                assert(init[j] == items[j]);
            }
        }
        lemma_kind_filter(init, kind, other);
    } else {
        assert(items.filter(of_kind(kind)) =~= items) by {
            reveal(Seq::filter);
        }
        assert(items.filter(of_kind(other)).len() == 0) by {
            reveal(Seq::filter);
        }
    }
}

/// Items all of one kind, put together, are all of that kind.
proof fn lemma_all_of_kind_add(a: Seq<ScoreItemView>, b: Seq<ScoreItemView>, kind: ScoreKind)
    requires
        all_of_kind(a, kind),
        all_of_kind(b, kind),
    ensures
        all_of_kind(a + b, kind),
{
    assert forall|j: int| 0 <= j < (a + b).len() implies #[trigger] (a + b)[j].kind == kind by {
        if j < a.len() {
            assert((a + b)[j] == a[j]);
        } else {
            assert((a + b)[j] == b[j - a.len()]);
        }
    }
}

/// A sequence with one more item of the kind keeps every item of the kind.
proof fn lemma_all_of_kind_push(a: Seq<ScoreItemView>, x: ScoreItemView, kind: ScoreKind)
    requires
        all_of_kind(a, kind),
        x.kind == kind,
    ensures
        all_of_kind(a.push(x), kind),
{
    assert forall|j: int| 0 <= j < a.push(x).len() implies #[trigger] a.push(x)[j].kind == kind by {
        if j < a.len() {
            assert(a.push(x)[j] == a[j]);
        }
    }
}

proof fn lemma_fifteen_items_kind(cs: Seq<Seq<Card>>)
    ensures
        all_of_kind(fifteen_items(cs), ScoreKind::Fifteen),
    decreases cs.len(),
{
    if cs.len() > 0 {
        lemma_fifteen_items_kind(cs.drop_last());
        if value_sum(cs.last()) == 15 {
            lemma_all_of_kind_push(fifteen_items(cs.drop_last()), item(ScoreKind::Fifteen, cs.last(), SCORE_FIFTEEN), ScoreKind::Fifteen);
        }
    }
}

proof fn lemma_fifteens_from_kind(cards: Seq<Card>, k: nat)
    ensures
        all_of_kind(fifteens_from(cards, k), ScoreKind::Fifteen),
    decreases cards.len() + 1 - k,
{
    if k <= cards.len() {
        lemma_fifteen_items_kind(combos(cards, k));
        lemma_fifteens_from_kind(cards, k + 1);
        lemma_all_of_kind_add(fifteen_items(combos(cards, k)), fifteens_from(cards, k + 1), ScoreKind::Fifteen);
    }
}

proof fn lemma_pair_items_kind(cs: Seq<Seq<Card>>)
    ensures
        all_of_kind(pair_items(cs), ScoreKind::Pair),
    decreases cs.len(),
{
    if cs.len() > 0 {
        lemma_pair_items_kind(cs.drop_last());
        if cs.last().len() == 2 && cs.last()[0].face == cs.last()[1].face {
            lemma_all_of_kind_push(pair_items(cs.drop_last()), item(ScoreKind::Pair, cs.last(), SCORE_PAIR), ScoreKind::Pair);
        }
    }
}

proof fn lemma_run_items_kind(cs: Seq<Seq<Card>>, len: nat)
    ensures
        all_of_kind(run_items(cs, len), ScoreKind::Run),
    decreases cs.len(),
{
    if cs.len() > 0 {
        lemma_run_items_kind(cs.drop_last(), len);
        if consecutive(cs.last()) {
            lemma_all_of_kind_push(run_items(cs.drop_last(), len), item(ScoreKind::Run, cs.last(), len as usize), ScoreKind::Run);
        }
    }
}

proof fn lemma_longest_runs_kind(sorted: Seq<Card>, len: nat)
    ensures
        all_of_kind(longest_runs(sorted, len), ScoreKind::Run),
    decreases len,
{
    if len >= MINIMUM_RUN_LENGTH {
        lemma_run_items_kind(combos(sorted, len), len);
        if run_items(combos(sorted, len), len).len() == 0 {
            lemma_longest_runs_kind(sorted, (len - 1) as nat);
        }
    }
}

/// The flush and his nobs of a count are the count's only items of those
/// kinds: fifteens, pairs and runs make no others.
proof fn lemma_count_by_kind(cards: Seq<Card>, cut: Card, min: nat)
    ensures
        count_items(cards, cut, min).filter(of_kind(ScoreKind::Nobs)) == nobs_items(cards, cut),
        count_items(cards, cut, min).filter(of_kind(ScoreKind::Flush)) == flush_items(cards, cut, min),
{
    reveal(count_items);
    let all = cards.push(cut);
    let f = fifteens_from(all, 2);
    let p = pair_items(combos(all, 2));
    let r = longest_runs(sort_by_rank(all), all.len());
    let fl = flush_items(cards, cut, min);
    let nb = nobs_items(cards, cut);
    lemma_fifteens_from_kind(all, 2);
    lemma_pair_items_kind(combos(all, 2));
    lemma_longest_runs_kind(sort_by_rank(all), all.len());
    assert(all_of_kind(fl, ScoreKind::Flush));
    assert(all_of_kind(nb, ScoreKind::Nobs));
    broadcast use Seq::filter_distributes_over_add;
    lemma_kind_filter(f, ScoreKind::Fifteen, ScoreKind::Nobs);
    lemma_kind_filter(p, ScoreKind::Pair, ScoreKind::Nobs);
    lemma_kind_filter(r, ScoreKind::Run, ScoreKind::Nobs);
    lemma_kind_filter(fl, ScoreKind::Flush, ScoreKind::Nobs);
    lemma_kind_filter(nb, ScoreKind::Nobs, ScoreKind::Flush);
    lemma_kind_filter(f, ScoreKind::Fifteen, ScoreKind::Flush);
    lemma_kind_filter(p, ScoreKind::Pair, ScoreKind::Flush);
    lemma_kind_filter(r, ScoreKind::Run, ScoreKind::Flush);
    lemma_kind_filter(fl, ScoreKind::Flush, ScoreKind::Flush);
    lemma_kind_filter(nb, ScoreKind::Nobs, ScoreKind::Nobs);
    assert(f.filter(of_kind(ScoreKind::Nobs)) =~= Seq::<ScoreItemView>::empty());
    assert(p.filter(of_kind(ScoreKind::Nobs)) =~= Seq::<ScoreItemView>::empty());
    assert(r.filter(of_kind(ScoreKind::Nobs)) =~= Seq::<ScoreItemView>::empty());
    assert(fl.filter(of_kind(ScoreKind::Nobs)) =~= Seq::<ScoreItemView>::empty());
    assert(f.filter(of_kind(ScoreKind::Flush)) =~= Seq::<ScoreItemView>::empty());
    assert(p.filter(of_kind(ScoreKind::Flush)) =~= Seq::<ScoreItemView>::empty());
    assert(r.filter(of_kind(ScoreKind::Flush)) =~= Seq::<ScoreItemView>::empty());
    assert(nb.filter(of_kind(ScoreKind::Flush)) =~= Seq::<ScoreItemView>::empty());
    assert((f + p + r + fl + nb).filter(of_kind(ScoreKind::Nobs)) =~= nb);
    assert((f + p + r + fl + nb).filter(of_kind(ScoreKind::Flush)) =~= fl);
}

/// His nobs does not depend on where the jack sits: a hand or crib that
/// holds the jack of the starter's suit, at any place from the first on,
/// counts exactly one nobs, worth one; without that jack it counts none.
pub proof fn law_nobs_wherever_the_jack(cards: Seq<Card>, cut: Card, flush_min: nat)
    ensures
        forall|i: int| 0 <= i < cards.len() && (#[trigger] cards[i]).face == Face::Jack && cards[i].suit == cut.suit ==> {
            &&& count_items(cards, cut, flush_min).filter(of_kind(ScoreKind::Nobs)).len() == 1
            &&& count_items(cards, cut, flush_min).filter(of_kind(ScoreKind::Nobs))[0].points == Points(1)
        },
        (forall|i: int| 0 <= i < cards.len() ==> !((#[trigger] cards[i]).face == Face::Jack && cards[i].suit == cut.suit))
            ==> count_items(cards, cut, flush_min).filter(of_kind(ScoreKind::Nobs)).len() == 0,
{
    lemma_count_by_kind(cards, cut, flush_min);
}

/// A four-card flush in the crib does not count: the crib's count holds a
/// flush exactly when its four cards are all of the starter's suit, and that
/// flush is worth five, the crib's cards with the starter.
pub proof fn law_crib_flush_needs_starter(crib: Seq<Card>, cut: Card)
    requires
        crib.len() == 4,
    ensures
        count_items(crib, cut, 5).filter(of_kind(ScoreKind::Flush)).len() <= 1,
        (count_items(crib, cut, 5).filter(of_kind(ScoreKind::Flush)).len() == 1)
            == (forall|i: int| 0 <= i < 4 ==> (#[trigger] crib[i]).suit == cut.suit),
        count_items(crib, cut, 5).filter(of_kind(ScoreKind::Flush)).len() == 1 ==> {
            &&& count_items(crib, cut, 5).filter(of_kind(ScoreKind::Flush))[0].points == Points(5)
            &&& count_items(crib, cut, 5).filter(of_kind(ScoreKind::Flush))[0].cards == crib.push(cut)
        },
{
    lemma_count_by_kind(crib, cut, 5);
    let all = crib.push(cut);
    if forall|i: int| 0 <= i < 4 ==> (#[trigger] crib[i]).suit == cut.suit {
        assert forall|i: int| 0 <= i < all.len() implies #[trigger] all[i].suit == all[0].suit by {
            if i < 4 {
                assert(all[i] == crib[i]);
            }
            assert(all[0] == crib[0]);
        }
    }
    if same_suit(all) {
        assert forall|i: int| 0 <= i < 4 implies (#[trigger] crib[i]).suit == cut.suit by {
            assert(all[i] == crib[i]);
            assert(all[4] == cut);
            assert(all[i].suit == all[0].suit);
            assert(all[4].suit == all[0].suit);
        }
    }
}

/// A hand's flush: four cards of one suit count four, five when the starter
/// is of their suit too; a hand not all of one suit counts no flush.
pub proof fn law_hand_flush(hand: Seq<Card>, cut: Card)
    requires
        hand.len() == 4,
    ensures
        count_items(hand, cut, 4).filter(of_kind(ScoreKind::Flush)).len() <= 1,
        (count_items(hand, cut, 4).filter(of_kind(ScoreKind::Flush)).len() == 1)
            == (forall|i: int| 0 <= i < 4 ==> (#[trigger] hand[i]).suit == hand[0].suit),
        count_items(hand, cut, 4).filter(of_kind(ScoreKind::Flush)).len() == 1 ==>
            count_items(hand, cut, 4).filter(of_kind(ScoreKind::Flush))[0].points
                == Points(if cut.suit == hand[0].suit { 5 } else { 4 }),
{
    lemma_count_by_kind(hand, cut, 4);
    let all = hand.push(cut);
    assert(all[0] == hand[0]);
    assert(all[4] == cut);
    if forall|i: int| 0 <= i < 4 ==> (#[trigger] hand[i]).suit == hand[0].suit {
        if cut.suit == hand[0].suit {
            assert forall|i: int| 0 <= i < all.len() implies #[trigger] all[i].suit == all[0].suit by {
                if i < 4 {
                    assert(all[i] == hand[i]);
                }
            }
        }
    }
    if same_suit(all) {
        assert forall|i: int| 0 <= i < 4 implies (#[trigger] hand[i]).suit == hand[0].suit by {
            assert(all[i] == hand[i]);
        }
        assert(all[4].suit == all[0].suit);
    }
}

/// The crib is counted for the dealer by the crib's rules: scoring the crib
/// pegs the dealer, and a flush counts only when the crib's four cards are
/// all of the starter's suit, for five.
pub proof fn law_crib_is_counted_for_the_dealer(game: GameView, player: Player, chance: ChanceView)
    requires
        game.state is ScoringDealer,
        game.state->ScoringDealer_0.crib.len() == 4,
        game.decide(GameCommandView::ScoreCrib { player }, chance) is Ok,
    ensures
        ({
            let s = game.state->ScoringDealer_0;
            let events = game.decide(GameCommandView::ScoreCrib { player }, chance)->Ok_0;
            &&& events.len() == 1
            &&& events[0] matches GameEventView::CribScored { player: who, pegging } && {
                let flush = pegging.sheet.filter(of_kind(ScoreKind::Flush));
                &&& who == player
                &&& pegging.player == s.roles.spec_dealer()
                &&& flush.len() <= 1
                &&& (flush.len() == 1) == (forall|i: int| 0 <= i < 4 ==> (#[trigger] s.crib[i]).suit == s.starter_cut.suit)
                &&& flush.len() == 1 ==> flush[0].points == Points(5)
            }
        }),
{
    let s = game.state->ScoringDealer_0;
    law_crib_flush_needs_starter(s.crib, s.starter_cut);
}

// ---------------------------------------------------------------------------
// Every item of a count is what its kind says.
// ---------------------------------------------------------------------------

/// What an item of a count must be, by kind: a fifteen is cards whose pip
/// values total 15, for two; a pair is two cards of one face, for two; a run
/// is three or more cards, each ranking one above the one before, one point
/// a card; a flush is four or more cards of one suit, one point a card; his
/// nobs holds the jack of the starter's suit, for one.
pub open spec fn sound_item(i: ScoreItemView, cut: Card) -> bool {
    match i.kind {
        ScoreKind::Fifteen => value_sum(i.cards) == 15 && i.points == Points(2),
        ScoreKind::Pair => i.cards.len() == 2 && i.cards[0].face == i.cards[1].face && i.points == Points(2),
        ScoreKind::Run => {
            &&& i.cards.len() >= 3
            &&& forall|k: int| 0 <= k < i.cards.len() - 1 ==> #[trigger] i.cards[k + 1].spec_rank() == i.cards[k].spec_rank() + 1
            &&& i.points.0 == i.cards.len()
        },
        ScoreKind::Flush => {
            &&& i.cards.len() >= 4
            &&& forall|k: int| 0 <= k < i.cards.len() ==> #[trigger] i.cards[k].suit == i.cards[0].suit
            &&& i.points.0 == i.cards.len()
        },
        ScoreKind::Nobs => {
            &&& i.points == Points(1)
            &&& exists|k: int| 0 <= k < i.cards.len() && #[trigger] i.cards[k].face == Face::Jack && i.cards[k].suit == cut.suit
        },
        _ => false,
    }
}

/// Every item is sound.
pub open spec fn all_sound(items: Seq<ScoreItemView>, cut: Card) -> bool {
    forall|j: int| 0 <= j < items.len() ==> sound_item(#[trigger] items[j], cut)
}

proof fn lemma_all_sound_add(a: Seq<ScoreItemView>, b: Seq<ScoreItemView>, cut: Card)
    requires
        all_sound(a, cut),
        all_sound(b, cut),
    ensures
        all_sound(a + b, cut),
{
    assert forall|j: int| 0 <= j < (a + b).len() implies sound_item(#[trigger] (a + b)[j], cut) by {
        if j < a.len() {
            assert((a + b)[j] == a[j]);
        } else {
            assert((a + b)[j] == b[j - a.len()]);
        }
    }
}

proof fn lemma_all_sound_push(a: Seq<ScoreItemView>, x: ScoreItemView, cut: Card)
    requires
        all_sound(a, cut),
        sound_item(x, cut),
    ensures
        all_sound(a.push(x), cut),
{
    assert forall|j: int| 0 <= j < a.push(x).len() implies sound_item(#[trigger] a.push(x)[j], cut) by {
        if j < a.len() {
            assert(a.push(x)[j] == a[j]);
        }
    }
}

proof fn lemma_fifteen_items_sound(cs: Seq<Seq<Card>>, cut: Card)
    ensures
        all_sound(fifteen_items(cs), cut),
    decreases cs.len(),
{
    if cs.len() > 0 {
        lemma_fifteen_items_sound(cs.drop_last(), cut);
        if value_sum(cs.last()) == 15 {
            lemma_all_sound_push(fifteen_items(cs.drop_last()), item(ScoreKind::Fifteen, cs.last(), SCORE_FIFTEEN), cut);
        }
    }
}

proof fn lemma_fifteens_from_sound(cards: Seq<Card>, k: nat, cut: Card)
    ensures
        all_sound(fifteens_from(cards, k), cut),
    decreases cards.len() + 1 - k,
{
    if k <= cards.len() {
        lemma_fifteen_items_sound(combos(cards, k), cut);
        lemma_fifteens_from_sound(cards, k + 1, cut);
        lemma_all_sound_add(fifteen_items(combos(cards, k)), fifteens_from(cards, k + 1), cut);
    }
}

proof fn lemma_pair_items_sound(cs: Seq<Seq<Card>>, cut: Card)
    ensures
        all_sound(pair_items(cs), cut),
    decreases cs.len(),
{
    if cs.len() > 0 {
        lemma_pair_items_sound(cs.drop_last(), cut);
        if cs.last().len() == 2 && cs.last()[0].face == cs.last()[1].face {
            lemma_all_sound_push(pair_items(cs.drop_last()), item(ScoreKind::Pair, cs.last(), SCORE_PAIR), cut);
        }
    }
}

proof fn lemma_run_items_sound(cs: Seq<Seq<Card>>, len: nat, cut: Card)
    requires
        3 <= len <= usize::MAX,
        forall|i: int| 0 <= i < cs.len() ==> #[trigger] cs[i].len() == len,
    ensures
        all_sound(run_items(cs, len), cut),
    decreases cs.len(),
{
    if cs.len() > 0 {
        assert forall|i: int| 0 <= i < cs.drop_last().len() implies #[trigger] cs.drop_last()[i].len() == len by {
            assert(cs.drop_last()[i] == cs[i]);
        }
        lemma_run_items_sound(cs.drop_last(), len, cut);
        if consecutive(cs.last()) {
            let x = item(ScoreKind::Run, cs.last(), len as usize);
            assert(cs.last().len() == len);
            assert forall|k: int| 0 <= k < x.cards.len() - 1 implies #[trigger] x.cards[k + 1].spec_rank() == x.cards[k].spec_rank() + 1 by {
                assert(consecutive(cs.last()));
            }
            lemma_all_sound_push(run_items(cs.drop_last(), len), x, cut);
        }
    }
}

proof fn lemma_longest_runs_sound(sorted: Seq<Card>, len: nat, cut: Card)
    requires
        len <= usize::MAX,
    ensures
        all_sound(longest_runs(sorted, len), cut),
    decreases len,
{
    if len >= MINIMUM_RUN_LENGTH {
        lemma_combos_len(sorted, len);
        lemma_run_items_sound(combos(sorted, len), len, cut);
        if run_items(combos(sorted, len), len).len() == 0 {
            lemma_longest_runs_sound(sorted, (len - 1) as nat, cut);
        }
    }
}

/// Every item of a count is what its kind says: fifteens total 15 by pip
/// value, pairs are two cards of one face, runs are three or more cards in
/// rank order, a flush is four or more cards of one suit, and his nobs holds
/// the jack of the starter's suit; each scores as the rules say. (The cards
/// are held in memory, so their number fits the machine's integers.)
pub proof fn law_count_items_sound(cards: Seq<Card>, cut: Card, flush_min: nat)
    requires
        flush_min >= 4,
        cards.len() < usize::MAX,
    ensures
        all_sound(count_items(cards, cut, flush_min), cut),
{
    reveal(count_items);
    let all = cards.push(cut);
    lemma_fifteens_from_sound(all, 2, cut);
    lemma_pair_items_sound(combos(all, 2), cut);
    lemma_longest_runs_sound(sort_by_rank(all), all.len(), cut);
    let fl = flush_items(cards, cut, flush_min);
    assert(all_sound(fl, cut)) by {
        if fl.len() > 0 {
            assert(fl.len() == 1);
            assert(sound_item(fl[0], cut));
        }
    }
    let nb = nobs_items(cards, cut);
    assert(all_sound(nb, cut)) by {
        if nb.len() > 0 {
            let k = choose|k: int| 0 <= k < cards.len() && #[trigger] cards[k].face == Face::Jack && cards[k].suit == cut.suit;
            assert(nb[0].cards[k] == cards[k]);
            assert(sound_item(nb[0], cut));
        }
    }
    let f = fifteens_from(all, 2);
    let p = pair_items(combos(all, 2));
    let r = longest_runs(sort_by_rank(all), all.len());
    lemma_all_sound_add(f, p, cut);
    lemma_all_sound_add(f + p, r, cut);
    lemma_all_sound_add(f + p + r, fl, cut);
    lemma_all_sound_add(f + p + r + fl, nb, cut);
}

// ---------------------------------------------------------------------------
// Every item a laid card scores is what its kind says.
// ---------------------------------------------------------------------------

/// The cards of the current series, the latest first.
pub open spec fn latest_first(v: PlayStateView) -> Seq<Card> {
    cards_of(v.current).reverse()
}

/// The latest `n` cards of the series share one face, and the card before
/// them (if any) has another: exactly `n` of a kind.
pub open spec fn latest_of_a_kind(v: PlayStateView, n: nat) -> bool {
    let latest = latest_first(v);
    &&& n <= latest.len()
    &&& forall|k: int| 0 <= k < n ==> #[trigger] latest[k].face == latest[0].face
    &&& n < latest.len() ==> latest[n as int].face != latest[0].face
}

/// What an item scored by a laid card must be, given the state with the
/// card in the series: a fifteen or thirty-one at exactly that total, for
/// two; a pair, pair royal or double pair royal when exactly the latest two,
/// three or four cards share a face, for two, six or twelve; a run of three
/// or more cards in rank order, one point a card; the last card, for one,
/// when the player who laid it holds no card and the opponent has called go
/// or holds none, short of 31.
pub open spec fn sound_play_item(i: ScoreItemView, v: PlayStateView) -> bool {
    let opponent = v.next_to_play.spec_opponent();
    match i.kind {
        ScoreKind::Fifteen => v.running_total() == 15 && i.points == Points(2),
        ScoreKind::ThirtyOne => v.running_total() == 31 && i.points == Points(2),
        ScoreKind::Pair => latest_of_a_kind(v, 2) && i.cards.len() == 2 && i.points == Points(2),
        ScoreKind::Triplet => latest_of_a_kind(v, 3) && i.cards.len() == 3 && i.points == Points(6),
        ScoreKind::Quadruplet => latest_of_a_kind(v, 4) && i.cards.len() == 4 && i.points == Points(12),
        ScoreKind::Run => {
            &&& i.cards.len() >= 3
            &&& forall|k: int| 0 <= k < i.cards.len() - 1 ==> #[trigger] i.cards[k + 1].spec_rank() == i.cards[k].spec_rank() + 1
            &&& i.points.0 == i.cards.len()
        },
        ScoreKind::LastCard => {
            &&& v.running_total() != 31
            &&& v.pending_of(v.next_to_play).len() == 0
            &&& (v.go_status != GoStatus::NotCalled || v.pending_of(opponent).len() == 0)
            &&& i.points == Points(1)
        },
        _ => false,
    }
}

/// The leading cards of one face.
proof fn lemma_leading_face_count(cs: Seq<Card>, face: Face)
    ensures
        leading_face_count(cs, face) <= cs.len(),
        forall|k: int| 0 <= k < leading_face_count(cs, face) ==> #[trigger] cs[k].face == face,
        leading_face_count(cs, face) < cs.len() ==> cs[leading_face_count(cs, face) as int].face != face,
    decreases cs.len(),
{
    if cs.len() > 0 && cs[0].face == face {
        lemma_leading_face_count(cs.drop_first(), face);
        assert forall|k: int| 0 <= k < leading_face_count(cs, face) implies #[trigger] cs[k].face == face by {
            if k > 0 {
                assert(cs[k] == cs.drop_first()[k - 1]);
            }
        }
        let n = leading_face_count(cs, face);
        if n < cs.len() {
            assert(cs[n as int] == cs.drop_first()[n - 1]);
        }
    }
}

/// Every item is one a laid card may score.
pub open spec fn all_play_sound(items: Seq<ScoreItemView>, v: PlayStateView) -> bool {
    forall|j: int| 0 <= j < items.len() ==> sound_play_item(#[trigger] items[j], v)
}

proof fn lemma_all_play_sound_add(a: Seq<ScoreItemView>, b: Seq<ScoreItemView>, v: PlayStateView)
    requires
        all_play_sound(a, v),
        all_play_sound(b, v),
    ensures
        all_play_sound(a + b, v),
{
    assert forall|j: int| 0 <= j < (a + b).len() implies sound_play_item(#[trigger] (a + b)[j], v) by {
        if j < a.len() {
            assert((a + b)[j] == a[j]);
        } else {
            assert((a + b)[j] == b[j - a.len()]);
        }
    }
}

/// The runs found among the latest cards are sound.
proof fn lemma_play_run_items_sound(latest: Seq<Card>, len: nat, v: PlayStateView)
    requires
        len <= usize::MAX,
    ensures
        all_play_sound(play_run_items(latest, len), v),
    decreases len,
{
    if MINIMUM_RUN_LENGTH <= len <= latest.len() {
        let sorted = sort_by_rank(latest.take(len as int));
        if consecutive(sorted) {
            lemma_sort_len(latest.take(len as int));
            let x = item(ScoreKind::Run, sorted, len as usize);
            assert(play_run_items(latest, len) == seq![x]);
            assert forall|k: int| 0 <= k < x.cards.len() - 1 implies #[trigger] x.cards[k + 1].spec_rank() == x.cards[k].spec_rank() + 1 by {
                assert(consecutive(sorted));
            }
            assert(sound_play_item(x, v));
            assert(seq![x][0] == x);
        } else {
            assert(play_run_items(latest, len) == play_run_items(latest, (len - 1) as nat));
            lemma_play_run_items_sound(latest, (len - 1) as nat, v);
        }
    } else {
        assert(play_run_items(latest, len).len() == 0);
    }
}

/// The pairs made by the latest cards are sound.
proof fn lemma_play_pairs_sound(v: PlayStateView)
    ensures
        all_play_sound(play_pair_items(latest_first(v)), v),
{
    let latest = latest_first(v);
    if latest.len() > 0 {
        lemma_leading_face_count(latest, latest[0].face);
        let n = leading_face_count(latest, latest[0].face);
        let items = play_pair_items(latest);
        if n == 2 || n == 3 || n == 4 {
            assert(latest_of_a_kind(v, n));
            assert(items.len() == 1);
            assert(sound_play_item(items[0], v));
        } else {
            assert(items.len() == 0);
        }
    }
}

/// The fifteen and the last item of a laid card are sound.
proof fn lemma_play_ends_sound(v: PlayStateView)
    ensures
        all_play_sound(
            if v.running_total() == 15 {
                seq![item(ScoreKind::Fifteen, cards_of(v.current), SCORE_FIFTEEN)]
            } else {
                Seq::empty()
            },
            v,
        ),
        all_play_sound(
            if v.running_total() == PLAY_TARGET {
                seq![item(ScoreKind::ThirtyOne, cards_of(v.current), SCORE_THIRTY_ONE)]
            } else if series_ends(v) {
                seq![item(ScoreKind::LastCard, Seq::empty(), SCORE_GO)]
            } else {
                Seq::empty()
            },
            v,
        ),
{
}

/// Every item that a laid card scores is what its kind says, and a
/// fifteen or thirty-one is scored exactly at that total: given the state with
/// the card at the end of the series (its plays held in memory, so their
/// number fits the machine's integers).
pub proof fn law_play_items_sound(v: PlayStateView)
    requires
        v.current.len() <= usize::MAX,
    ensures
        all_play_sound(play_items(v), v),
        (exists|j: int| 0 <= j < play_items(v).len() && #[trigger] play_items(v)[j].kind == ScoreKind::Fifteen)
            == (v.running_total() == 15),
        (exists|j: int| 0 <= j < play_items(v).len() && #[trigger] play_items(v)[j].kind == ScoreKind::ThirtyOne)
            == (v.running_total() == 31),
{
    reveal(play_items);
    let cards = cards_of(v.current);
    let latest = cards.reverse();
    let fifteen = if v.running_total() == 15 {
        seq![item(ScoreKind::Fifteen, cards, SCORE_FIFTEEN)]
    } else {
        Seq::empty()
    };
    let last = if v.running_total() == PLAY_TARGET {
        seq![item(ScoreKind::ThirtyOne, cards, SCORE_THIRTY_ONE)]
    } else if series_ends(v) {
        seq![item(ScoreKind::LastCard, Seq::empty(), SCORE_GO)]
    } else {
        Seq::empty()
    };
    let pairs = play_pair_items(latest);
    let runs = play_run_items(latest, latest.len());
    assert(latest.len() == v.current.len());
    lemma_play_ends_sound(v);
    lemma_play_pairs_sound(v);
    lemma_play_run_items_sound(latest, latest.len(), v);
    lemma_all_play_sound_add(fifteen, pairs, v);
    lemma_all_play_sound_add(fifteen + pairs, runs, v);
    lemma_all_play_sound_add(fifteen + pairs + runs, last, v);
    let items = fifteen + pairs + runs + last;
    assert(items == play_items(v));
    if v.running_total() == 15 {
        assert(items[0] == fifteen[0]);
    }
    if v.running_total() == 31 {
        assert(items[items.len() - 1] == last[0]);
    }
}

/// His heels: when the last discard turns the starter, the dealer pegs two
/// if the starter is a jack and nothing otherwise.
pub proof fn law_his_heels(game: GameView, player: Player, cards: Seq<Card>, chance: ChanceView)
    requires
        game.state is Discarding,
        !game.state->Discarding_0.pending.spec_waiting_on(player.spec_opponent()),
        game.decide(GameCommandView::DiscardCards { player, cards }, chance) is Ok,
    ensures
        ({
            let d = game.state->Discarding_0;
            let events = game.decide(GameCommandView::DiscardCards { player, cards }, chance)->Ok_0;
            &&& events.len() == 2
            &&& events[1] matches GameEventView::StarterSelected { cut, pegging } && {
                &&& cut == card_at(d.deck, chance.cut_seed)
                &&& pegging.player == d.roles.spec_dealer()
                &&& items_total(pegging.sheet) == if cut.face == Face::Jack { 2nat } else { 0nat }
                &&& forall|j: int| 0 <= j < pegging.sheet.len() ==> #[trigger] pegging.sheet[j].kind == ScoreKind::HisHeels
            }
        }),
{
    let d = game.state->Discarding_0;
    let cut = card_at(d.deck, chance.cut_seed);
    let sheet = his_heels_items(cut);
    if cut.face == Face::Jack {
        assert(sheet.drop_last() =~= Seq::<ScoreItemView>::empty());
        assert(items_total(sheet.drop_last()) == 0);
    }
}

} // verus!
