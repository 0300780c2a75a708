//! The match engine: a single match's state machine over deck, hands,
//! discard piles, turn pointer and phase, with scoring and win determination.

use vstd::multiset::Multiset;
use vstd::prelude::*;

use crate::card::{card_points, Card, Rank, Suit};
use crate::utils::{fresh_id, shuffle_cards};

verus! {

broadcast use vstd::seq_lib::group_to_multiset_ensures;

/// Most seats a match can hold.
pub const MAX_PLAYER: usize = 4;

/// Fewest seats a match can be created with.
pub const MIN_PLAYER: usize = 2;

#[derive(Debug, PartialEq, Eq, Structural)]
pub enum GameError {
    InvalidPlayer,
    InvalidTurn,
    InvalidMove,
    CardNotFound,
}

#[derive(Debug, Clone, Copy, PartialEq, Eq, Structural)]
pub enum GameStatus {
    InProgress,
    Ended,
}

#[derive(Debug, Clone, Copy, PartialEq, Eq, Structural)]
pub enum GamePhase {
    GameEnded,
    P1,
    P2,
}

/// One seated player: a concealed hand and a personal discard pile whose top
/// card is the most recently pushed one.
#[derive(Debug)]
pub struct Player {
    pub id: u64,
    pub hand: Vec<Card>,
    pub bin: Vec<Card>,
}

/// Mathematical model of a player.
#[verifier::ext_equal]
pub ghost struct PlayerView {
    pub id: u64,
    pub hand: Seq<Card>,
    pub bin: Seq<Card>,
}

impl View for Player {
    type V = PlayerView;

    open spec fn view(&self) -> PlayerView {
        PlayerView { id: self.id, hand: self.hand@, bin: self.bin@ }
    }
}

/// What a completed discard or close reports back: whether the match goes
/// on, whose turn comes next, and the winner once the match has ended.
pub struct EndPhaseResponse {
    pub status: Option<GameStatus>,
    pub next_turn: u8,
    pub winner: Option<Player>,
}

/// A single match: the shared draw pile, the seated players in order, the
/// index of the player whose turn it is, and the phase of that turn.
pub struct Game {
    pub id: u64,
    pub players: Vec<Player>,
    pub deck: Vec<Card>,
    pub current_turn: usize,
    pub phase: GamePhase,
}

/// Mathematical model of a match.
#[verifier::ext_equal]
pub ghost struct GameView {
    pub id: u64,
    pub players: Seq<PlayerView>,
    pub deck: Seq<Card>,
    pub current_turn: int,
    pub phase: GamePhase,
}

impl View for Game {
    type V = GameView;

    open spec fn view(&self) -> GameView {
        GameView {
            id: self.id,
            players: self.players@.map_values(|p: Player| p@),
            deck: self.deck@,
            current_turn: self.current_turn as int,
            phase: self.phase,
        }
    }
}

/// Sum of the point values of a sequence of cards.
pub open spec fn total_points(cards: Seq<Card>) -> int
    decreases cards.len(),
{
    if cards.len() == 0 {
        0
    } else {
        total_points(cards.drop_last()) + card_points(cards.last())
    }
}

/// Largest single-card point value in a sequence of cards; 0 when empty.
pub open spec fn max_point(cards: Seq<Card>) -> int
    decreases cards.len(),
{
    if cards.len() == 0 {
        0
    } else {
        let m = max_point(cards.drop_last());
        if card_points(cards.last()) > m {
            card_points(cards.last())
        } else {
            m
        }
    }
}

/// The cards a hand is scored over: its first four cards. A hand holds at
/// least four cards at every point where a score is read off; shorter hands
/// (possible only for the player who just closed) score over what they hold.
pub open spec fn scored_cards(hand: Seq<Card>) -> Seq<Card> {
    if hand.len() <= 4 {
        hand
    } else {
        hand.take(4)
    }
}

/// Score of a hand: twice the largest single-card point value minus the
/// total point value, over the scored cards.
pub open spec fn hand_score(hand: Seq<Card>) -> int {
    2 * max_point(scored_cards(hand)) - total_points(scored_cards(hand))
}

impl GameView {
    /// Structural well-formedness: the turn pointer stays inside the seat
    /// list, the seat list inside its cap, and the deck never exceeds a
    /// full deck.
    pub open spec fn wf(self) -> bool {
        &&& self.players.len() <= MAX_PLAYER
        &&& if self.players.len() == 0 {
            self.current_turn == 0
        } else {
            0 <= self.current_turn < self.players.len()
        }
        &&& self.deck.len() <= 52
    }

    /// The player holding the turn.
    pub open spec fn current(self) -> PlayerView {
        self.players[self.current_turn]
    }

    /// Whether `pid` is the player holding the turn.
    pub open spec fn turn_ok(self, pid: u64) -> bool {
        self.players.len() > 0 && self.current().id == pid
    }

    /// The seat the turn passes to next.
    pub open spec fn advanced_turn(self) -> int {
        (self.current_turn + 1) % (self.players.len() as int)
    }

    /// The same match with one player's entry replaced.
    pub open spec fn with_player(self, i: int, p: PlayerView) -> GameView {
        GameView { players: self.players.update(i, p), ..self }
    }

    /// A draw succeeds when the acting player holds the turn in the draw
    /// phase; with an empty deck it ends the match instead of drawing.
    pub open spec fn draw_enabled(self, pid: u64) -> bool {
        self.turn_ok(pid) && self.phase is P1
    }

    /// Effect of a successful draw: the deck's top card joins the current
    /// player's hand and the turn moves to its discard phase — unless the
    /// deck is empty, in which case the match ends with nothing moved.
    pub open spec fn draw_step(self) -> GameView {
        if self.deck.len() == 0 {
            GameView { phase: GamePhase::GameEnded, ..self }
        } else {
            let p = self.current();
            GameView {
                deck: self.deck.drop_last(),
                phase: GamePhase::P2,
                ..self
            }.with_player(self.current_turn, PlayerView { hand: p.hand.push(self.deck.last()), ..p })
        }
    }

    /// Reclaiming the bin succeeds when the acting player holds the turn in
    /// the draw phase and their own bin is non-empty.
    pub open spec fn take_bin_enabled(self, pid: u64) -> bool {
        self.turn_ok(pid) && self.phase is P1 && self.current().bin.len() > 0
    }

    /// Effect of reclaiming the bin: its top card moves into the owner's
    /// hand and the turn moves to its discard phase.
    pub open spec fn take_bin_step(self) -> GameView {
        let p = self.current();
        GameView { phase: GamePhase::P2, ..self }.with_player(
            self.current_turn,
            PlayerView { hand: p.hand.push(p.bin.last()), bin: p.bin.drop_last(), ..p },
        )
    }

    /// A discard succeeds when the acting player holds the turn in the
    /// discard phase and actually holds the named card.
    pub open spec fn discard_enabled(self, pid: u64, card: Card) -> bool {
        self.turn_ok(pid) && self.phase is P2 && self.current().hand.contains(card)
    }

    /// Effect of a successful discard: the card leaves the acting hand and
    /// the turn advances; with cards still in the deck the discarded card is
    /// dealt straight into the new current player's hand and play returns to
    /// the draw phase, with the deck empty the match ends.
    pub open spec fn discard_step(self, card: Card) -> GameView {
        let p = self.current();
        let removed = self.with_player(
            self.current_turn,
            PlayerView { hand: p.hand.remove_value(card), ..p },
        );
        let nt = self.advanced_turn();
        if self.deck.len() > 0 {
            let q = removed.players[nt];
            GameView { current_turn: nt, phase: GamePhase::P1, ..removed }.with_player(
                nt,
                PlayerView { hand: q.hand.push(card), ..q },
            )
        } else {
            GameView { current_turn: nt, phase: GamePhase::GameEnded, ..removed }
        }
    }

    /// Closing succeeds when the acting player holds the turn in the draw
    /// phase — before drawing — and holds the named card.
    pub open spec fn close_enabled(self, pid: u64, card: Card) -> bool {
        self.turn_ok(pid) && self.phase is P1 && self.current().hand.contains(card)
    }

    /// Effect of closing: the named card leaves the acting hand, the turn
    /// pointer advances once, and the match ends unconditionally.
    pub open spec fn close_step(self, card: Card) -> GameView {
        let p = self.current();
        let removed = self.with_player(
            self.current_turn,
            PlayerView { hand: p.hand.remove_value(card), ..p },
        );
        GameView { current_turn: self.advanced_turn(), phase: GamePhase::GameEnded, ..removed }
    }

    /// The same match with seat `i` gone: later seats shift down one place
    /// and the turn pointer is adjusted so that it keeps naming the seat it
    /// named before, or seat 0 where that seat is gone or was the last.
    pub open spec fn drop_seat(self, i: int) -> GameView {
        let players = self.players.remove(i);
        let ct = if self.current_turn > i {
            self.current_turn - 1
        } else {
            self.current_turn
        };
        let ct2 = if players.len() == 0 || ct >= players.len() {
            0
        } else {
            ct
        };
        GameView { players: players, current_turn: ct2, ..self }
    }

    /// Effect of removing the player at seat `i` from the roster. When that
    /// player holds the turn of a still-running match and has a card to
    /// give, their first hand card is discarded on their behalf first, so
    /// that the turn passes on and the phase stays valid; then the seat is
    /// dropped.
    pub open spec fn remove_player_step(self, i: int) -> GameView {
        if i == self.current_turn && !(self.phase is GameEnded) && self.players[i].hand.len() > 0 {
            GameView { phase: GamePhase::P2, ..self }.discard_step(self.players[i].hand[0]).drop_seat(i)
        } else {
            self.drop_seat(i)
        }
    }
}

/// The seat index of the first player carrying a given id.
pub open spec fn seat_of(players: Seq<PlayerView>, id: u64) -> Option<int>
    decreases players.len(),
{
    if players.len() == 0 {
        None
    } else if players.first().id == id {
        Some(0)
    } else {
        match seat_of(players.drop_first(), id) {
            Some(i) => Some(i + 1),
            None => None,
        }
    }
}

/// `seat_of` names exactly the first seat with the id, and nothing when no
/// seat carries it.
pub proof fn lemma_seat_of(players: Seq<PlayerView>, id: u64)
    ensures
        match seat_of(players, id) {
            Some(i) => 0 <= i < players.len() && players[i].id == id && forall|j: int|
                0 <= j < i ==> (#[trigger] players[j]).id != id,
            None => forall|j: int|
                0 <= j < players.len() ==> (#[trigger] players[j]).id != id,
        },
    decreases players.len(),
{
    if players.len() > 0 && players.first().id != id {
        lemma_seat_of(players.drop_first(), id);
        let sub = players.drop_first();
        assert(forall|j: int| 1 <= j < players.len() ==> players[j] == (#[trigger] sub[j - 1]));
        match seat_of(sub, id) {
            Some(i) => {
                assert(players[i + 1].id == id);
                assert forall|j: int| 0 <= j < i + 1 implies (#[trigger] players[j]).id != id by {
                    if j >= 1 {
                        assert(players[j] == sub[j - 1]);
                    }
                }
            },
            None => {
                assert forall|j: int|
                    0 <= j < players.len() implies (#[trigger] players[j]).id != id by {
                    if j >= 1 {
                        assert(players[j] == sub[j - 1]);
                    }
                }
            },
        }
    }
}

/// Whether, among the first `n` seats, seat `i` holds a strictly greater
/// score than every other one.
pub open spec fn is_unique_top_upto(players: Seq<PlayerView>, n: int, i: int) -> bool {
    &&& 0 <= i < n
    &&& forall|j: int|
        0 <= j < n && j != i ==> hand_score(#[trigger] players[j].hand) < hand_score(
            players[i].hand,
        )
}

/// Whether seat `i` holds a strictly greater score than every other seat.
pub open spec fn is_unique_top(players: Seq<PlayerView>, i: int) -> bool {
    is_unique_top_upto(players, players.len() as int, i)
}

/// The greatest score among a non-empty run of seats.
pub open spec fn best_score(players: Seq<PlayerView>) -> int
    decreases players.len(),
{
    if players.len() <= 1 {
        hand_score(players[0].hand)
    } else {
        let m = best_score(players.drop_last());
        if hand_score(players.last().hand) > m {
            hand_score(players.last().hand)
        } else {
            m
        }
    }
}

/// Every seat scores at most the best score, and some seat attains it.
pub proof fn lemma_best_score(players: Seq<PlayerView>)
    requires
        players.len() > 0,
    ensures
        forall|j: int|
            0 <= j < players.len() ==> hand_score(#[trigger] players[j].hand) <= best_score(
                players,
            ),
        exists|j: int|
            0 <= j < players.len() && hand_score(#[trigger] players[j].hand) == best_score(
                players,
            ),
    decreases players.len(),
{
    if players.len() == 1 {
        assert(hand_score(players[0].hand) == best_score(players));
    } else {
        lemma_best_score(players.drop_last());
        assert(forall|j: int|
            0 <= j < players.len() - 1 ==> players.drop_last()[j] == players[j]);
        if hand_score(players.last().hand) > best_score(players.drop_last()) {
            assert(hand_score(players[players.len() - 1].hand) == best_score(players));
        } else {
            let j = choose|j: int|
                0 <= j < players.len() - 1 && hand_score(#[trigger] players.drop_last()[j].hand)
                    == best_score(players.drop_last());
            assert(hand_score(players[j].hand) == best_score(players));
        }
    }
}

/// The view of an optional player.
pub open spec fn opt_player_view(r: Option<Player>) -> Option<PlayerView> {
    match r {
        Some(p) => Some(p@),
        None => None,
    }
}

/// What a win report may say of a match state: a player is reported exactly
/// when the match has ended and that player alone holds the top score.
pub open spec fn winner_spec_ok(g: GameView, w: Option<PlayerView>) -> bool {
    match w {
        Some(p) => g.phase is GameEnded && exists|i: int|
            #[trigger] is_unique_top(g.players, i) && p == g.players[i],
        None => !(g.phase is GameEnded) || forall|i: int| !is_unique_top(g.players, i),
    }
}

/// The suit at a given position of the unshuffled deck's suit order.
pub open spec fn suit_of_index(i: int) -> Suit {
    if i == 0 {
        Suit::Hearts
    } else if i == 1 {
        Suit::Diamonds
    } else if i == 2 {
        Suit::Clubs
    } else {
        Suit::Spades
    }
}

/// The rank at a given position of the unshuffled deck's rank order.
pub open spec fn rank_of_index(i: int) -> Rank {
    if i == 0 {
        Rank::Ace
    } else if i == 1 {
        Rank::Two
    } else if i == 2 {
        Rank::Three
    } else if i == 3 {
        Rank::Four
    } else if i == 4 {
        Rank::Five
    } else if i == 5 {
        Rank::Six
    } else if i == 6 {
        Rank::Seven
    } else if i == 7 {
        Rank::Eight
    } else if i == 8 {
        Rank::Nine
    } else if i == 9 {
        Rank::Ten
    } else if i == 10 {
        Rank::Jack
    } else if i == 11 {
        Rank::Queen
    } else {
        Rank::King
    }
}

/// All 52 distinct cards, suit by suit and rank by rank.
pub open spec fn full_deck() -> Seq<Card> {
    Seq::new(52, |i: int| Card { suit: suit_of_index(i / 13), rank: rank_of_index(i % 13) })
}

/// Every card held by any seated player, in hand or bin, as a multiset.
pub open spec fn players_cards(players: Seq<PlayerView>) -> Multiset<Card>
    decreases players.len(),
{
    if players.len() == 0 {
        Multiset::empty()
    } else {
        players_cards(players.drop_last()).add(players.last().hand.to_multiset()).add(
            players.last().bin.to_multiset(),
        )
    }
}

impl GameView {
    /// Every card of the match, wherever it lies, as a multiset.
    pub open spec fn cards_in_play(self) -> Multiset<Card> {
        self.deck.to_multiset().add(players_cards(self.players))
    }
}

/// What a freshly created match looks like for a given seating order: four
/// cards dealt to every seat from a full shuffled deck, empty bins, seat 0
/// to act in the draw phase, and every one of the 52 cards accounted for.
pub open spec fn fresh_match_ok(g: GameView, ids: Seq<u64>) -> bool {
    &&& g.wf()
    &&& g.players.len() == ids.len()
    &&& forall|i: int|
        0 <= i < ids.len() ==> {
            &&& (#[trigger] g.players[i]).id == ids[i]
            &&& g.players[i].hand.len() == 4
            &&& g.players[i].bin.len() == 0
        }
    &&& g.deck.len() == 52 - 4 * ids.len()
    &&& g.current_turn == 0
    &&& g.phase is P1
    &&& g.cards_in_play() == full_deck().to_multiset()
}

impl Player {
    /// Score of this player's hand.
    ///
    /// Scores the first four held cards, mirroring the scoring table: with
    /// the invariant hand size of four this is the whole hand.
    pub fn score(&self) -> (r: i16)
        ensures
            r as int == hand_score(self.hand@),
    {
        let scored: usize = if self.hand.len() <= 4 {
            self.hand.len()
        } else {
            4
        };
        let mut sum: u16 = 0;
        let mut max_pt: u16 = 0;
        let mut i: usize = 0;
        proof {
            assert(self.hand@.take(i as int) =~= Seq::<Card>::empty());
        }
        while i < scored
            invariant
                0 <= i <= scored,
                scored == scored_cards(self.hand@).len(),
                scored <= self.hand@.len(),
                sum as int == total_points(self.hand@.take(i as int)),
                max_pt as int == max_point(self.hand@.take(i as int)),
                sum <= 11 * i,
                max_pt <= 11,
            decreases scored - i,
        {
            let pt = self.hand[i].points();
            proof {
                assert(self.hand@.take(i + 1).drop_last() =~= self.hand@.take(i as int));
                assert(self.hand@.take(i + 1).last() == self.hand@[i as int]);
            }
            sum = sum + pt;
            if pt > max_pt {
                max_pt = pt;
            }
            i = i + 1;
        }
        proof {
            assert(self.hand@.take(scored as int) =~= scored_cards(self.hand@));
        }
        (max_pt as i16) * 2 - (sum as i16)
    }
}

/// The suit at a given position of the unshuffled deck's suit order.
fn suit_of(i: usize) -> (s: Suit)
    requires
        i < 4,
    ensures
        s == suit_of_index(i as int),
{
    if i == 0 {
        Suit::Hearts
    } else if i == 1 {
        Suit::Diamonds
    } else if i == 2 {
        Suit::Clubs
    } else {
        Suit::Spades
    }
}

/// The rank at a given position of the unshuffled deck's rank order.
fn rank_of(i: usize) -> (r: Rank)
    requires
        i < 13,
    ensures
        r == rank_of_index(i as int),
{
    if i == 0 {
        Rank::Ace
    } else if i == 1 {
        Rank::Two
    } else if i == 2 {
        Rank::Three
    } else if i == 3 {
        Rank::Four
    } else if i == 4 {
        Rank::Five
    } else if i == 5 {
        Rank::Six
    } else if i == 6 {
        Rank::Seven
    } else if i == 7 {
        Rank::Eight
    } else if i == 8 {
        Rank::Nine
    } else if i == 9 {
        Rank::Ten
    } else if i == 10 {
        Rank::Jack
    } else if i == 11 {
        Rank::Queen
    } else {
        Rank::King
    }
}

/// Move the top card of the deck into a hand.
fn deal_one(deck: &mut Vec<Card>, hand: &mut Vec<Card>)
    requires
        old(deck)@.len() > 0,
    ensures
        final(deck)@ == old(deck)@.drop_last(),
        final(hand)@ == old(hand)@.push(old(deck)@.last()),
        final(deck)@.to_multiset().add(final(hand)@.to_multiset()) == old(deck)@.to_multiset().add(
            old(hand)@.to_multiset(),
        ),
{
    let ghost deck0 = deck@;
    let ghost hand0 = hand@;
    let card = deck.pop().unwrap();
    hand.push(card);
    proof {
        assert(deck0.drop_last() =~= deck0.remove(deck0.len() - 1));
        assert(deck@.to_multiset() =~= deck0.to_multiset().remove(card));
        assert(deck0.to_multiset().count(card) > 0) by {
            assert(deck0.contains(card));
        }
        assert(deck@.to_multiset().add(hand@.to_multiset()) =~= deck0.to_multiset().add(
            hand0.to_multiset(),
        ));
    }
}

impl Game {
    /// Build the unshuffled full deck.
    fn create_deck_ordered() -> (deck: Vec<Card>)
        ensures
            deck@ == full_deck(),
    {
        let mut cards: Vec<Card> = Vec::with_capacity(52);
        let mut si: usize = 0;
        while si < 4
            invariant
                si <= 4,
                cards@.len() == 13 * si,
                cards@ =~= full_deck().take(13 * si),
            decreases 4 - si,
        {
            let mut ri: usize = 0;
            while ri < 13
                invariant
                    si < 4,
                    ri <= 13,
                    cards@.len() == 13 * si + ri,
                    cards@ =~= full_deck().take(13 * si + ri),
                decreases 13 - ri,
            {
                let card = Card { suit: suit_of(si), rank: rank_of(ri) };
                proof {
                    let n = 13 * si + ri;
                    vstd::arithmetic::div_mod::lemma_fundamental_div_mod_converse(
                        n as int,
                        13,
                        si as int,
                        ri as int,
                    );
                    assert(full_deck()[n as int] == card);
                    assert(full_deck().take(n + 1) =~= full_deck().take(n as int).push(
                        full_deck()[n as int],
                    ));
                }
                cards.push(card);
                ri = ri + 1;
            }
            si = si + 1;
        }
        proof {
            assert(full_deck().take(52) =~= full_deck());
        }
        cards
    }

    /// Build a shuffled deck: a random permutation of the 52 distinct cards.
    fn create_deck() -> (deck: Vec<Card>)
        ensures
            deck@.len() == 52,
            deck@.to_multiset() == full_deck().to_multiset(),
    {
        let mut cards = Self::create_deck_ordered();
        shuffle_cards(&mut cards);
        cards
    }

    /// Create a match: shuffle a full deck, deal four cards to each seat in
    /// order, and open play at seat 0 in the draw phase.
    pub fn new(player_ids: Vec<u64>) -> (g: Game)
        requires
            MIN_PLAYER <= player_ids@.len() <= MAX_PLAYER,
        ensures
            fresh_match_ok(g@, player_ids@),
    {
        let mut deck = Self::create_deck();
        let mut players: Vec<Player> = Vec::new();
        let mut pi: usize = 0;
        proof {
            assert(players_cards(players@.map_values(|p: Player| p@)) =~= Multiset::empty());
        }
        while pi < player_ids.len()
            invariant
                pi <= player_ids@.len(),
                MIN_PLAYER <= player_ids@.len() <= MAX_PLAYER,
                players@.len() == pi,
                deck@.len() == 52 - 4 * pi,
                forall|j: int|
                    0 <= j < pi ==> {
                        &&& (#[trigger] players@[j]).id == player_ids@[j]
                        &&& players@[j].hand@.len() == 4
                        &&& players@[j].bin@.len() == 0
                    },
                deck@.to_multiset().add(players_cards(players@.map_values(|p: Player| p@)))
                    == full_deck().to_multiset(),
            decreases player_ids@.len() - pi,
        {
            let ghost deck_before = deck@;
            let mut hand: Vec<Card> = Vec::new();
            let mut k: usize = 0;
            while k < 4
                invariant
                    k <= 4,
                    pi < player_ids@.len() <= MAX_PLAYER,
                    deck@.len() == 52 - 4 * pi - k,
                    hand@.len() == k,
                    deck@.to_multiset().add(hand@.to_multiset()) == deck_before.to_multiset(),
                decreases 4 - k,
            {
                proof {
                    assert(hand@.to_multiset().len() == hand@.len());
                    assert(deck@.to_multiset().len() == deck@.len());
                }
                deal_one(&mut deck, &mut hand);
                k = k + 1;
            }
            let player = Player { id: player_ids[pi], hand, bin: Vec::new() };
            let ghost views_before = players@.map_values(|p: Player| p@);
            players.push(player);
            proof {
                let views = players@.map_values(|p: Player| p@);
                assert(views =~= views_before.push(player@));
                assert(views.drop_last() =~= views_before);
                assert(players_cards(views) =~= players_cards(views_before).add(
                    player@.hand.to_multiset(),
                ).add(player@.bin.to_multiset()));
                assert(player@.bin.to_multiset() =~= Multiset::empty());
                assert(deck@.to_multiset().add(players_cards(views)) =~= full_deck().to_multiset());
            }
            pi = pi + 1;
        }
        let g = Game { id: fresh_id(), players, deck, current_turn: 0, phase: GamePhase::P1 };
        proof {
            assert(g@.players =~= players@.map_values(|p: Player| p@));
        }
        g
    }

    /// Whether `player_id` holds the turn right now.
    fn is_turn_of(&self, player_id: u64) -> (r: bool)
        requires
            self@.wf(),
        ensures
            r == self@.turn_ok(player_id),
    {
        self.players.len() > 0 && self.players[self.current_turn].id == player_id
    }

    /// Draw the top card of the deck into the current player's hand; with
    /// the deck already empty the match ends instead of drawing.
    pub fn draw(&mut self, player_id: u64) -> (r: Result<(), GameError>)
        requires
            old(self)@.wf(),
        ensures
            final(self)@.wf(),
            old(self)@.draw_enabled(player_id) ==> r is Ok && final(self)@ == old(self)@.draw_step(),
            !old(self)@.draw_enabled(player_id) ==> (r matches Err(GameError::InvalidMove)) && final(self)@ == old(self)@,
    {
        if !self.is_turn_of(player_id) || self.phase != GamePhase::P1 {
            return Err(GameError::InvalidMove);
        }

        match self.deck.pop() {
            None => {
                self.phase = GamePhase::GameEnded;
                proof {
                    assert(self@ =~= old(self)@.draw_step());
                }
                Ok(())
            },
            Some(card) => {
                let ct = self.current_turn;
                let mut p = self.players.remove(ct);
                p.hand.push(card);
                self.players.insert(ct, p);
                self.phase = GamePhase::P2;
                proof {
                    assert(self.players@.map_values(|q: Player| q@) =~= old(self)@.players.update(ct as int, p@));
                    assert(self@ =~= old(self)@.draw_step());
                }
                Ok(())
            },
        }
    }

    /// Reclaim the top card of the current player's own bin into their hand.
    pub fn take_bin(&mut self, player_id: u64) -> (r: Result<(), GameError>)
        requires
            old(self)@.wf(),
        ensures
            final(self)@.wf(),
            old(self)@.take_bin_enabled(player_id) ==> r is Ok && final(self)@ == old(self)@.take_bin_step(),
            !old(self)@.take_bin_enabled(player_id) ==> (r matches Err(GameError::InvalidMove)) && final(self)@ == old(self)@,
    {
        if !self.is_turn_of(player_id) || self.phase != GamePhase::P1 {
            return Err(GameError::InvalidMove);
        }

        let ct = self.current_turn;
        let mut p = self.players.remove(ct);
        match p.bin.pop() {
            None => {
                self.players.insert(ct, p);
                proof {
                    assert(self.players@.map_values(|q: Player| q@) =~= old(self)@.players);
                    assert(self@ =~= old(self)@);
                }
                Err(GameError::InvalidMove)
            },
            Some(card) => {
                p.hand.push(card);
                self.players.insert(ct, p);
                self.phase = GamePhase::P2;
                proof {
                    assert(self.players@.map_values(|q: Player| q@) =~= old(self)@.players.update(ct as int, p@));
                    assert(self@ =~= old(self)@.take_bin_step());
                }
                Ok(())
            },
        }
    }

    /// Position of the first occurrence of a card in a hand.
    fn find_card(cards: &Vec<Card>, card: &Card) -> (r: Option<usize>)
        ensures
            match r {
                Some(i) => i < cards@.len() && cards@[i as int] == *card
                    && cards@.index_of_first(*card) == Some(i as int),
                None => cards@.index_of_first(*card) is None && !cards@.contains(*card),
            },
    {
        let mut i: usize = 0;
        while i < cards.len()
            invariant
                i <= cards@.len(),
                forall|j: int| 0 <= j < i ==> cards@[j] != *card,
            decreases cards@.len() - i,
        {
            if cards[i] == *card {
                proof {
                    cards@.index_of_first_ensures(*card);
                }
                return Some(i);
            }
            i = i + 1;
        }
        proof {
            cards@.index_of_first_ensures(*card);
        }
        None
    }

    /// Discard a held card: it leaves the acting hand, the turn advances,
    /// and — while the deck is not yet empty — the discarded card is dealt
    /// into the new current player's hand; with the deck empty the match
    /// ends and the winner is computed.
    pub fn discard(&mut self, player_id: u64, card: Card) -> (r: Result<
        EndPhaseResponse,
        GameError,
    >)
        requires
            old(self)@.wf(),
        ensures
            final(self)@.wf(),
            old(self)@.discard_enabled(player_id, card) ==> match r {
                Ok(resp) => {
                    &&& final(self)@ == old(self)@.discard_step(card)
                    &&& resp.next_turn as int == final(self)@.current_turn
                    &&& (old(self)@.deck.len() > 0 ==> resp.status == Some(GameStatus::InProgress)
                        && resp.winner is None)
                    &&& (old(self)@.deck.len() == 0 ==> resp.status == Some(GameStatus::Ended)
                        && winner_spec_ok(final(self)@, opt_player_view(resp.winner)))
                },
                Err(_) => false,
            },
            !(old(self)@.turn_ok(player_id) && old(self)@.phase is P2) ==> (r matches Err(
                GameError::InvalidMove,
            )) && final(self)@ == old(self)@,
            old(self)@.turn_ok(player_id) && old(self)@.phase is P2 && !old(self)@.current().hand.contains(card) ==> (r matches Err(GameError::CardNotFound)) && final(self)@ == old(self)@,
    {
        if !self.is_turn_of(player_id) || self.phase != GamePhase::P2 {
            return Err(GameError::InvalidMove);
        }

        let ct = self.current_turn;
        let mut p = self.players.remove(ct);
        match Self::find_card(&p.hand, &card) {
            None => {
                self.players.insert(ct, p);
                proof {
                    assert(self.players@.map_values(|q: Player| q@) =~= old(self)@.players);
                    assert(self@ =~= old(self)@);
                }
                Err(GameError::CardNotFound)
            },
            Some(idx) => {
                p.hand.remove(idx);
                self.players.insert(ct, p);
                proof {
                    assert(self.players@.map_values(|q: Player| q@) =~= old(self)@.players.update(ct as int, p@));
                }
                let nt = (ct + 1) % self.players.len();
                self.current_turn = nt;
                if self.deck.len() > 0 {
                    self.phase = GamePhase::P1;
                    let mut q = self.players.remove(nt);
                    q.hand.push(card);
                    self.players.insert(nt, q);
                    proof {
                        assert(self@.players =~= old(self)@.players.update(ct as int, p@).update(
                            nt as int,
                            q@,
                        ));
                        assert(self@ =~= old(self)@.discard_step(card));
                    }
                    Ok(
                        EndPhaseResponse {
                            status: Some(GameStatus::InProgress),
                            next_turn: nt as u8,
                            winner: None,
                        },
                    )
                } else {
                    self.phase = GamePhase::GameEnded;
                    proof {
                        assert(self@ =~= old(self)@.discard_step(card));
                    }
                    let w = self.winner();
                    Ok(
                        EndPhaseResponse {
                            status: Some(GameStatus::Ended),
                            next_turn: nt as u8,
                            winner: w,
                        },
                    )
                }
            },
        }
    }

    /// Close the match: discard a held card before drawing this turn, pass
    /// the turn pointer on once, and end the match unconditionally. No
    /// score threshold gates closing: a player may close at any score.
    pub fn close(&mut self, player_id: u64, card: Card) -> (r: Result<
        EndPhaseResponse,
        GameError,
    >)
        requires
            old(self)@.wf(),
        ensures
            final(self)@.wf(),
            old(self)@.close_enabled(player_id, card) ==> match r {
                Ok(resp) => {
                    &&& final(self)@ == old(self)@.close_step(card)
                    &&& resp.next_turn as int == final(self)@.current_turn
                    &&& resp.status == Some(GameStatus::Ended)
                    &&& winner_spec_ok(final(self)@, opt_player_view(resp.winner))
                },
                Err(_) => false,
            },
            !(old(self)@.turn_ok(player_id) && old(self)@.phase is P1) ==> (r matches Err(
                GameError::InvalidMove,
            )) && final(self)@ == old(self)@,
            old(self)@.turn_ok(player_id) && old(self)@.phase is P1 && !old(self)@.current().hand.contains(card) ==> (r matches Err(GameError::CardNotFound)) && final(self)@ == old(self)@,
    {
        if !self.is_turn_of(player_id) || self.phase != GamePhase::P1 {
            return Err(GameError::InvalidMove);
        }

        let ct = self.current_turn;
        let mut p = self.players.remove(ct);
        match Self::find_card(&p.hand, &card) {
            None => {
                self.players.insert(ct, p);
                proof {
                    assert(self.players@.map_values(|q: Player| q@) =~= old(self)@.players);
                    assert(self@ =~= old(self)@);
                }
                Err(GameError::CardNotFound)
            },
            Some(idx) => {
                p.hand.remove(idx);
                self.players.insert(ct, p);
                let nt = (ct + 1) % self.players.len();
                self.current_turn = nt;
                self.phase = GamePhase::GameEnded;
                proof {
                    assert(self@.players =~= old(self)@.players.update(ct as int, p@));
                    assert(self@ =~= old(self)@.close_step(card));
                }
                let w = self.winner();
                Ok(
                    EndPhaseResponse {
                        status: Some(GameStatus::Ended),
                        next_turn: nt as u8,
                        winner: w,
                    },
                )
            },
        }
    }

    /// Copy a hand or bin card for card.
    fn copy_cards(cards: &Vec<Card>) -> (r: Vec<Card>)
        ensures
            r@ == cards@,
    {
        let mut r: Vec<Card> = Vec::new();
        let mut i: usize = 0;
        while i < cards.len()
            invariant
                i <= cards@.len(),
                r@ =~= cards@.take(i as int),
            decreases cards@.len() - i,
        {
            r.push(cards[i]);
            i = i + 1;
        }
        proof {
            assert(cards@.take(cards@.len() as int) =~= cards@);
        }
        r
    }

    /// Copy of a player's entry.
    fn copy_player(p: &Player) -> (r: Player)
        ensures
            r@ == p@,
    {
        Player { id: p.id, hand: Self::copy_cards(&p.hand), bin: Self::copy_cards(&p.bin) }
    }

    /// The winner of an ended match: the player whose score is strictly
    /// greatest, or nobody when two or more players share the top score.
    /// Before the match has ended there is no winner.
    pub fn winner(&self) -> (r: Option<Player>)
        ensures
            winner_spec_ok(self@, opt_player_view(r)),
            !(self@.phase is GameEnded) ==> r is None,
    {
        if self.phase != GamePhase::GameEnded {
            return None;
        }

        let ghost pvs = self@.players;
        let mut win: Option<Player> = None;
        let mut max_score: i16 = 0;
        let mut i: usize = 0;
        while i < self.players.len()
            invariant
                i <= pvs.len(),
                pvs == self@.players,
                pvs.len() == self.players@.len(),
                i > 0 ==> max_score as int == best_score(pvs.take(i as int)),
                match win {
                    Some(p) => exists|k: int|
                        #[trigger] is_unique_top_upto(pvs, i as int, k) && p@ == pvs[k],
                    None => forall|k: int| !is_unique_top_upto(pvs, i as int, k),
                },
            decreases pvs.len() - i,
        {
            let s = self.players[i].score();
            proof {
                assert(pvs[i as int] == self.players@[i as int]@);
                assert(pvs.take(i + 1).drop_last() =~= pvs.take(i as int));
                assert(pvs.take(i + 1).last() == pvs[i as int]);
                if i > 0 {
                    lemma_best_score(pvs.take(i as int));
                    assert(forall|j: int|
                        0 <= j < i ==> pvs.take(i as int)[j] == pvs[j]);
                }
            }
            if i == 0 || s > max_score {
                win = Some(Self::copy_player(&self.players[i]));
                max_score = s;
                proof {
                    assert(is_unique_top_upto(pvs, i + 1, i as int));
                }
            } else if s == max_score {
                win = None;
                proof {
                    let ghost n = i + 1;
                    assert forall|k: int| !is_unique_top_upto(pvs, n, k) by {
                        if 0 <= k < i {
                            if is_unique_top_upto(pvs, n, k) {
                                assert(hand_score(pvs.take(i as int)[k].hand) <= best_score(
                                    pvs.take(i as int),
                                ));
                                assert(hand_score(pvs[i as int].hand) < hand_score(pvs[k].hand));
                            }
                        }
                        if k == i {
                            let j = choose|j: int|
                                0 <= j < i && hand_score(#[trigger] pvs.take(i as int)[j].hand)
                                    == best_score(pvs.take(i as int));
                            assert(hand_score(pvs[j].hand) == max_score as int);
                        }
                    }
                }
            } else {
                proof {
                    let ghost n = i + 1;
                    match &win {
                        Some(p) => {
                            let k = choose|k: int|
                                #[trigger] is_unique_top_upto(pvs, i as int, k) && p@ == pvs[k];
                            assert(hand_score(pvs[k].hand) == max_score as int) by {
                                let j = choose|j: int|
                                    0 <= j < i && hand_score(#[trigger] pvs.take(i as int)[j].hand)
                                        == best_score(pvs.take(i as int));
                                assert(hand_score(pvs[j].hand) <= hand_score(pvs[k].hand));
                                assert(hand_score(pvs[k].hand) <= best_score(pvs.take(i as int)));
                            }
                            assert(is_unique_top_upto(pvs, n, k));
                        },
                        None => {
                            assert forall|k: int| !is_unique_top_upto(pvs, n, k) by {
                                if 0 <= k < i {
                                    assert(!is_unique_top_upto(pvs, i as int, k));
                                }
                            }
                        },
                    }
                }
            }
            i = i + 1;
        }
        proof {
            assert(pvs.take(pvs.len() as int) =~= pvs);
            match &win {
                Some(p) => {
                    let k = choose|k: int|
                        #[trigger] is_unique_top_upto(pvs, pvs.len() as int, k) && p@ == pvs[k];
                    assert(is_unique_top(pvs, k) && p@ == pvs[k]);
                },
                None => {
                    assert forall|k: int| !is_unique_top(pvs, k) by {
                        assert(!is_unique_top_upto(pvs, pvs.len() as int, k));
                    }
                },
            }
        }
        win
    }

    /// The seat index of a player, scanning from seat 0.
    pub fn player_pos(&self, player_id: u64) -> (r: Option<usize>)
        ensures
            match r {
                Some(i) => i < self@.players.len() && self@.players[i as int].id == player_id
                    && forall|j: int|
                    0 <= j < i ==> (#[trigger] self@.players[j]).id != player_id,
                None => forall|j: int|
                    0 <= j < self@.players.len() ==> (#[trigger] self@.players[j]).id != player_id,
            },
    {
        let mut i: usize = 0;
        while i < self.players.len()
            invariant
                i <= self.players@.len(),
                forall|j: int| 0 <= j < i ==> (#[trigger] self@.players[j]).id != player_id,
            decreases self.players@.len() - i,
        {
            if self.players[i].id == player_id {
                return Some(i);
            }
            i = i + 1;
        }
        None
    }

    /// A copy of the player whose turn it is.
    pub fn current_player(&self) -> (r: Player)
        requires
            self@.wf(),
            self@.players.len() > 0,
        ensures
            r@ == self@.current(),
    {
        Self::copy_player(&self.players[self.current_turn])
    }

    /// The score of the named player's hand, or `InvalidPlayer` for an
    /// unknown id.
    pub fn score(&self, player_id: u64) -> (r: Result<i16, GameError>)
        ensures
            match r {
                Ok(s) => exists|i: int|
                    {
                        &&& 0 <= i < self@.players.len()
                        &&& (#[trigger] self@.players[i]).id == player_id
                        &&& (forall|j: int| 0 <= j < i ==> self@.players[j].id != player_id)
                        &&& s as int == hand_score(self@.players[i].hand)
                    },
                Err(e) => e == GameError::InvalidPlayer && forall|j: int|
                    0 <= j < self@.players.len() ==> (#[trigger] self@.players[j]).id != player_id,
            },
    {
        let index = match self.player_pos(player_id) {
            Some(i) => i,
            None => {
                return Err(GameError::InvalidPlayer);
            },
        };

        Ok(self.players[index].score())
    }

    /// How many cards the deck still holds.
    pub fn card_left(&self) -> (r: u8)
        requires
            self@.wf(),
        ensures
            r as int == self@.deck.len(),
    {
        self.deck.len() as u8
    }

    /// Remove a player from the roster. A player holding the turn of a
    /// still-running match first has their first hand card discarded on
    /// their behalf, so the turn passes on; then their seat is dropped and
    /// the turn pointer adjusted to keep naming a valid seat. Removing an
    /// unknown id changes nothing.
    pub fn remove_player(&mut self, player_id: u64) -> (r: Result<(), GameError>)
        requires
            old(self)@.wf(),
        ensures
            final(self)@.wf(),
            r is Ok,
            (forall|j: int|
                0 <= j < old(self)@.players.len() ==> (#[trigger] old(self)@.players[j]).id
                    != player_id) ==> final(self)@ == old(self)@,
            forall|i: int|
                (0 <= i < old(self)@.players.len() && (#[trigger] old(self)@.players[i]).id
                    == player_id && (forall|j: int|
                    0 <= j < i ==> old(self)@.players[j].id != player_id)) ==> final(self)@ == old(
                    self,
                )@.remove_player_step(i),
    {
        let index = match self.player_pos(player_id) {
            Some(i) => i,
            None => {
                return Ok(());
            },
        };

        let ghost mid = old(self)@;
        if index == self.current_turn && self.phase != GamePhase::GameEnded
            && self.players[index].hand.len() > 0 {
            self.phase = GamePhase::P2;
            proof {
                mid = self@;
            }
            let card = self.players[index].hand[0];
            let res = self.discard(player_id, card);
            proof {
                assert(mid.discard_enabled(player_id, card));
                assert(self@ == mid.discard_step(card));
            }
        }

        let ghost before_drop = self@;
        self.players.remove(index);
        if self.current_turn > index {
            self.current_turn = self.current_turn - 1;
        }
        if self.players.len() == 0 || self.current_turn >= self.players.len() {
            self.current_turn = 0;
        }
        proof {
            assert(self@.players =~= before_drop.players.remove(index as int));
            assert(self@ =~= before_drop.drop_seat(index as int));
        }
        Ok(())
    }
}

/// After a draw and the following discard, the acting player's hand holds
/// four cards again: the turn cycle returns a four-card hand to four cards
/// whenever the match goes on.
pub proof fn lemma_draw_discard_restores_hand(g: GameView, pid: u64, card: Card)
    requires
        g.wf(),
        g.players.len() >= 2,
        g.draw_enabled(pid),
        g.deck.len() > 0,
        g.current().hand.len() == 4,
        g.draw_step().discard_enabled(pid, card),
    ensures
        g.draw_step().discard_step(card).players[g.current_turn].hand.len() == 4,
{
    let g1 = g.draw_step();
    let n = g.players.len() as int;
    let ct = g.current_turn;
    assert(g1.current().hand.len() == 5);
    g1.current().hand.index_of_first_ensures(card);
    let nt = g1.advanced_turn();
    assert(0 <= nt < n);
    assert(nt != ct) by {
        if ct + 1 < n {
            assert((ct + 1) % n == ct + 1) by {
                vstd::arithmetic::div_mod::lemma_small_mod((ct + 1) as nat, n as nat);
            }
        } else {
            assert(n % n == 0) by {
                vstd::arithmetic::div_mod::lemma_mod_self_0(n);
            }
        }
    }
    assert(g1.discard_step(card).players[ct].hand.len() == 4);
}

/// One full round of forced play: the current player draws, and — unless
/// that draw already ended the match — discards one held card, the choice
/// index taken modulo what it validly can be.
pub open spec fn play_round(g: GameView, choice: int) -> GameView {
    let g1 = g.draw_step();
    if g1.phase is GameEnded {
        g1
    } else {
        let h = g1.current().hand;
        let c = if 0 <= choice < h.len() {
            choice
        } else {
            0
        };
        g1.discard_step(h[c])
    }
}

/// Played rounds, one per choice, stopping as soon as the match has ended.
pub open spec fn play_rounds(g: GameView, choices: Seq<int>) -> GameView
    decreases choices.len(),
{
    if choices.len() == 0 || g.phase is GameEnded {
        g
    } else {
        play_rounds(play_round(g, choices.first()), choices.drop_first())
    }
}

/// Drawing and discarding round after round always ends the match within
/// deck-size rounds, whichever cards the players choose to discard: each
/// round consumes one deck card, and the round that empties the deck ends
/// the match.
pub proof fn lemma_match_terminates(g: GameView, choices: Seq<int>)
    requires
        g.wf(),
        g.players.len() >= 1,
        g.phase is P1,
        g.deck.len() >= 1,
        choices.len() == g.deck.len(),
    ensures
        play_rounds(g, choices).phase is GameEnded,
    decreases choices.len(),
{
    let g1 = g.draw_step();
    assert(g1.deck.len() == g.deck.len() - 1);
    assert(g1.players.len() == g.players.len());
    assert(g1.current().hand.len() >= 1);
    let g2 = play_round(g, choices.first());
    if g.deck.len() == 1 {
        assert(g2.phase is GameEnded);
        assert(play_rounds(g2, choices.drop_first()) == g2);
    } else {
        assert(g2 == g1.discard_step(g1.current().hand[if 0 <= choices.first()
            < g1.current().hand.len() {
            choices.first()
        } else {
            0
        }]));
        assert(g2.phase is P1);
        assert(g2.deck.len() == g.deck.len() - 1);
        assert(g2.players.len() == g.players.len());
        assert(g2.wf());
        lemma_match_terminates(g2, choices.drop_first());
    }
}

/// Removing the player who holds the turn of a still-running match advances
/// the turn exactly once — the seat after the leaver's holds the turn
/// afterwards — and leaves the phase either at the start of a turn or at
/// the end of the match, never stuck mid-turn.
pub proof fn lemma_disconnect_turn_holder(g: GameView, i: int)
    requires
        g.wf(),
        g.players.len() >= 2,
        0 <= i < g.players.len(),
        i == g.current_turn,
        !(g.phase is GameEnded),
        g.players[i].hand.len() > 0,
    ensures
        ({
            let g2 = g.remove_player_step(i);
            &&& g2.wf()
            &&& g2.players.len() == g.players.len() - 1
            &&& (g2.phase is P1 || g2.phase is GameEnded)
            &&& g2.players[g2.current_turn].id == g.players[g.advanced_turn()].id
        }),
{
    let n = g.players.len() as int;
    let mid = GameView { phase: GamePhase::P2, ..g };
    let after = mid.discard_step(g.players[i].hand[0]);
    let nt = mid.advanced_turn();
    assert(nt == g.advanced_turn());
    assert(0 <= nt < n);
    assert(if i + 1 < n {
        nt == i + 1
    } else {
        nt == 0
    }) by {
        if i + 1 < n {
            vstd::arithmetic::div_mod::lemma_small_mod((i + 1) as nat, n as nat);
        } else {
            vstd::arithmetic::div_mod::lemma_mod_self_0(n);
        }
    }
    assert(nt != i);
    assert(after.players.len() == n);
    assert(after.current_turn == nt);
    assert(after.players[nt].id == g.players[nt].id);
    let g2 = after.drop_seat(i);
    assert(g2 == g.remove_player_step(i));
    if nt > i {
        assert(g2.current_turn == nt - 1);
        assert(g2.players[nt - 1] == after.players[nt]);
    } else {
        assert(nt == 0 && i == n - 1);
        assert(g2.current_turn == 0);
        assert(g2.players[0] == after.players[0]);
    }
}

} // verus!
