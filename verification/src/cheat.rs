//! The Cheat ruleset. Players add cards to a hidden shared pile in turn,
//! honestly or not; anyone may call the last contribution a cheat, and the
//! pile goes to whoever was wrong.

use crate::card::Card;
use crate::deck::{deal, is_deal, shuffled_deck};
use crate::game_type::{GSADataTaken, GSAResult, Game, HandOut};
use crate::mpmc::BroadcastChannel;
use crate::pile::Pile;
use vstd::arithmetic::div_mod::{
    lemma_add_mod_noop_right, lemma_mod_add_multiples_vanish, lemma_small_mod,
};
use vstd::prelude::*;

verus! {

/// The bit of the first action, adding cards to the pile.
pub const ADD_CARDS: u8 = 0b1000_0000;

/// The bit of the second action, adding cards to the pile while cheating.
pub const CHEAT_ADD_CARDS: u8 = 0b0100_0000;

/// The bit of the third action, calling a cheat.
pub const CALL_CHEAT: u8 = 0b0010_0000;

/// Whose turn it is after the player at `turn` has moved. Without players
/// the turn stays where it is.
pub open spec fn next_turn(turn: nat, players: nat) -> nat {
    if players == 0 {
        turn
    } else {
        (turn + 1) % players
    }
}

/// Whose turn it is after `moves` players have moved in a row.
pub open spec fn turn_after(turn: nat, players: nat, moves: nat) -> nat
    decreases moves,
{
    if moves == 0 {
        turn
    } else {
        next_turn(turn_after(turn, players, (moves - 1) as nat), players)
    }
}

/// Whose turn came before the turn of the player at `turn`, the last seat
/// coming before the first. Without players this is seat 0.
pub open spec fn previous_turn(turn: nat, players: nat) -> nat {
    if players == 0 {
        0
    } else {
        ((turn - 1) % (players as int)) as nat
    }
}

/// Who receives the pile when `caller` calls a cheat: where the last
/// contribution was a cheat, the player who made it, that is the one whose
/// turn came before the present one; otherwise the caller. Without players
/// there is nobody to catch, and the caller receives it.
pub open spec fn receiver_of_pile(turn: nat, players: nat, cheated: bool, caller: usize) -> nat {
    if cheated && players > 0 {
        previous_turn(turn, players)
    } else {
        caller as nat
    }
}

/// The actions that a player may take: none before the game has started;
/// then calling a cheat whenever the pile holds a card, and both ways of
/// adding cards when it is the player's turn.
pub open spec fn legal_mask(started: bool, pile_is_empty: bool, has_turn: bool) -> u8 {
    if !started {
        0
    } else if pile_is_empty {
        if has_turn {
            0b1100_0000
        } else {
            0
        }
    } else {
        if has_turn {
            0b1110_0000
        } else {
            0b0010_0000
        }
    }
}

/// Whether `mask` allows the action with the given bit.
pub open spec fn allows(mask: u8, action: u8) -> bool {
    mask & action != 0
}

/// The state of one game of Cheat.
#[derive(Debug)]
pub struct Cheat {
    client_no_turn: usize,
    num_players: usize,
    game_has_started: bool,
    dealer_pile: Pile,
    last_player_cheated: bool,
}

impl Cheat {
    /// The seat whose turn it is.
    pub closed spec fn turn(&self) -> nat {
        self.client_no_turn as nat
    }

    /// Whether a contribution to the pile has been made as a cheat. Once set
    /// the flag stays: neither an honest contribution nor a call clears it.
    pub closed spec fn cheated(&self) -> bool {
        self.last_player_cheated
    }

    fn advance_turn(&mut self)
        requires
            old(self).wf(),
        ensures
            final(self).wf(),
            final(self).turn() == next_turn(old(self).turn(), old(self).players()),
            final(self).num_players == old(self).num_players,
            final(self).game_has_started == old(self).game_has_started,
            final(self).dealer_pile == old(self).dealer_pile,
            final(self).last_player_cheated == old(self).last_player_cheated,
    {
        if self.num_players > 0 {
            self.client_no_turn = (self.client_no_turn + 1) % self.num_players;
        }
    }
}

impl Default for Cheat {
    fn default() -> (game: Self)
        ensures
            game.wf(),
            !game.started(),
            game.players() == 0,
            game.pile() == Seq::<Card>::empty(),
            game.turn() == 0,
            !game.cheated(),
    {
        Self {
            num_players: 0,
            client_no_turn: 0,
            game_has_started: false,
            dealer_pile: Pile::default(),
            last_player_cheated: false,
        }
    }
}

impl Game for Cheat {
    const MIN_PLAYERS: usize = 3;

    const GSAS: usize = 3;

    const DEALER_PILE_HIDDEN: bool = true;

    type GSA1Params = Pile;

    type GSA2Params = Pile;

    type GSA3Params = ();

    type GSA4Params = ();

    type GSA5Params = ();

    /// The turn points at a seat that is taken, or at seat 0 while none is.
    closed spec fn wf(&self) -> bool {
        if self.num_players == 0 {
            self.client_no_turn == 0
        } else {
            self.client_no_turn < self.num_players
        }
    }

    closed spec fn started(&self) -> bool {
        self.game_has_started
    }

    closed spec fn players(&self) -> nat {
        self.num_players as nat
    }

    closed spec fn pile(&self) -> Seq<Card> {
        self.dealer_pile@
    }

    open spec fn legal_actions(&self, caller_id: usize) -> u8 {
        legal_mask(self.started(), self.pile().len() == 0, caller_id == self.turn())
    }

    proof fn lemma_default_is_fresh(game: Self) {
    }

    fn subscribe(&mut self) -> (id: Option<usize>)
        ensures
            final(self).turn() == old(self).turn(),
            final(self).cheated() == old(self).cheated(),
    {
        if self.game_has_started || self.num_players == usize::MAX {
            None
        } else {
            self.num_players = self.num_players + 1;
            Some(self.num_players - 1)
        }
    }

    /// Cheat starts with three players or more.
    fn start(&mut self, broadcast_channel: &mut BroadcastChannel<HandOut>) -> (rest: Option<Pile>)
        ensures
            rest is Some <==> !old(self).started() && old(self).players() >= 3,
            final(self).turn() == old(self).turn(),
            final(self).cheated() == old(self).cheated(),
    {
        let n_players = self.num_players;
        if n_players >= Self::MIN_PLAYERS && !self.game_has_started {
            self.game_has_started = true;
            let deck = shuffled_deck();
            let ghost cards = deck@;
            let (piles, rest) = deal(deck, n_players);
            let ghost hands = piles;
            let _ = broadcast_channel.send(HandOut { hands: piles, is_start: true });
            let dealt = Some(rest);
            assert(is_deal(cards, hands@, dealt->0@));
            dealt
        } else {
            None
        }
    }

    fn dealer_pile(&self) -> (pile: &Pile) {
        &self.dealer_pile
    }

    fn replace_dealer_pile(&mut self, pile: Pile) -> (before: Pile)
        ensures
            final(self).turn() == old(self).turn(),
            final(self).cheated() == old(self).cheated(),
    {
        let mut pile = pile;
        std::mem::swap(&mut pile, &mut self.dealer_pile);
        pile
    }

    fn has_started(&self) -> (started: bool) {
        self.game_has_started
    }

    fn gsa_names_static() -> (names: &'static [(&'static str, GSADataTaken)])
        ensures
            names@.len() == 3,
            names@[0].0@ == "Add cards to pile"@,
            names@[0].1 == GSADataTaken::TakeCards,
            names@[1].0@ == "Cheat Add cards to pile"@,
            names@[1].1 == GSADataTaken::TakeCards,
            names@[2].0@ == "Call Cheat"@,
            names@[2].1 == GSADataTaken::Nothing,
    {
        &[
            ("Add cards to pile", GSADataTaken::TakeCards),
            ("Cheat Add cards to pile", GSADataTaken::TakeCards),
            ("Call Cheat", GSADataTaken::Nothing),
        ]
    }

    fn last_player_id(&self) -> (id: usize)
        ensures
            id == previous_turn(self.turn(), self.players()),
    {
        if self.num_players == 0 {
            0
        } else if self.client_no_turn == 0 {
            assert((0 - 1) % (self.num_players as int) == self.num_players - 1) by (nonlinear_arith)
                requires
                    self.num_players > 0,
            ;
            self.num_players - 1
        } else {
            assert((self.client_no_turn - 1) % (self.num_players as int) == self.client_no_turn
                - 1) by (nonlinear_arith)
                requires
                    0 < self.client_no_turn < self.num_players,
            ;
            self.client_no_turn - 1
        }
    }

    /// Adds the cards to the bottom of the pile and passes the turn on.
    fn gsa_1(&mut self, caller_id: usize, cards_to_add: Pile) -> (result: GSAResult)
        ensures
            result is Nothing,
            final(self).pile() == old(self).pile() + cards_to_add@,
            final(self).turn() == next_turn(old(self).turn(), old(self).players()),
            final(self).cheated() == old(self).cheated(),
    {
        self.advance_turn();
        self.dealer_pile.append(&cards_to_add);
        GSAResult::Nothing
    }

    /// Adds the cards to the bottom of the pile, passes the turn on and
    /// records that this contribution was a cheat.
    fn gsa_2(&mut self, caller_id: usize, cards_to_add: Pile) -> (result: GSAResult)
        ensures
            result is Nothing,
            final(self).pile() == old(self).pile() + cards_to_add@,
            final(self).turn() == next_turn(old(self).turn(), old(self).players()),
            final(self).cheated(),
    {
        self.advance_turn();
        self.dealer_pile.append(&cards_to_add);
        self.last_player_cheated = true;
        GSAResult::Nothing
    }

    /// Calls a cheat: the whole pile leaves the table and goes to the
    /// player who was wrong. The turn stays, and so does the record of the
    /// cheat.
    fn gsa_3(&mut self, caller_id: usize, params: ()) -> (result: GSAResult)
        ensures
            result is PlayerTakesAllCards,
            result->PlayerTakesAllCards_0@ == old(self).pile(),
            result->PlayerTakesAllCards_1 == receiver_of_pile(
                old(self).turn(),
                old(self).players(),
                old(self).cheated(),
                caller_id,
            ),
            final(self).pile() == Seq::<Card>::empty(),
            final(self).turn() == old(self).turn(),
            final(self).cheated() == old(self).cheated(),
    {
        let pile = self.dealer_pile.take();
        if self.last_player_cheated && self.num_players > 0 {
            GSAResult::PlayerTakesAllCards(pile, self.last_player_id())
        } else {
            GSAResult::PlayerTakesAllCards(pile, caller_id)
        }
    }

    fn gsas_fufilled(&self, caller_id: usize) -> (mask: u8) {
        if self.game_has_started {
            let mut res: u8 = 0;
            if !self.dealer_pile.is_empty() {
                res += CALL_CHEAT;
            }
            if caller_id == self.client_no_turn {
                res += ADD_CARDS + CHEAT_ADD_CARDS;
            }
            res
        } else {
            0
        }
    }
}

/// What Cheat sets for every ruleset's three constants: it takes three
/// players to start, there are three actions, and the shared pile is hidden.
pub proof fn lemma_cheat_constants()
    ensures
        <Cheat as Game>::MIN_PLAYERS == 3,
        <Cheat as Game>::GSAS == 3,
        <Cheat as Game>::DEALER_PILE_HIDDEN,
{
}

proof fn lemma_turn_after(turn: nat, players: nat, moves: nat)
    requires
        players > 0,
        turn < players,
    ensures
        turn_after(turn, players, moves) == (turn + moves) % players,
    decreases moves,
{
    if moves == 0 {
        lemma_small_mod(turn, players);
    } else {
        lemma_turn_after(turn, players, (moves - 1) as nat);
        lemma_add_mod_noop_right(1, turn + moves - 1, players as int);
    }
}

/// The turn goes round: when as many contributions have been made in a row
/// as there are players, whoever made them, the turn is back where it was.
/// `turns` holds the turn before the first contribution and after each.
pub proof fn lemma_turn_comes_round(turns: Seq<nat>, players: nat)
    requires
        players > 0,
        turns.len() == players + 1,
        turns[0] < players,
        forall|i: int| 0 <= i < players ==> turns[i + 1] == next_turn(#[trigger] turns[i], players),
    ensures
        turns[players as int] == turns[0],
{
    assert forall|k: nat| k <= players implies turns[k as int] == turn_after(
        turns[0],
        players,
        k,
    ) by {
        lemma_turns_follow(turns, players, k);
    }
    lemma_turn_after(turns[0], players, players);
    lemma_mod_add_multiples_vanish(turns[0] as int, players as int);
    lemma_small_mod(turns[0], players);
}

proof fn lemma_turns_follow(turns: Seq<nat>, players: nat, k: nat)
    requires
        k <= players,
        turns.len() == players + 1,
        forall|i: int| 0 <= i < players ==> turns[i + 1] == next_turn(#[trigger] turns[i], players),
    ensures
        turns[k as int] == turn_after(turns[0], players, k),
    decreases k,
{
    if k > 0 {
        lemma_turns_follow(turns, players, (k - 1) as nat);
        assert(turns[k - 1 + 1] == next_turn(turns[k - 1], players));
    }
}

/// A cheat that is called goes to the cheater: where the last contribution
/// was a cheat and the turn stands at `turn` after it, the pile goes to the
/// seat before `turn`, the last seat coming before the first, whoever calls.
pub proof fn lemma_caught_cheater_receives_pile(turn: nat, players: nat, caller: usize)
    requires
        players > 0,
        turn < players,
    ensures
        receiver_of_pile(turn, players, true, caller) == (turn - 1) % (players as int),
        receiver_of_pile(turn, players, true, caller) < players,
        turn > 0 ==> receiver_of_pile(turn, players, true, caller) == turn - 1,
        turn == 0 ==> receiver_of_pile(turn, players, true, caller) == players - 1,
{
    let n = players as int;
    if turn == 0 {
        assert((0 - 1) % n == n - 1) by (nonlinear_arith)
            requires
                n > 0,
        ;
    } else {
        lemma_small_mod((turn - 1) as nat, players);
    }
}

/// A false accusation falls back on the accuser: where no contribution was
/// a cheat, the pile goes to the caller, wherever the turn stands.
pub proof fn lemma_false_accuser_receives_pile(turn: nat, players: nat, caller: usize)
    ensures
        receiver_of_pile(turn, players, false, caller) == caller,
{
}

/// What the mask of legal actions says. Before the start it is zero for
/// every player. After the start it allows calling a cheat exactly when the
/// pile holds a card, whoever asks, and it allows each way of adding cards
/// exactly to the player whose turn it is.
pub proof fn lemma_legal_mask_bits(started: bool, pile_is_empty: bool, has_turn: bool)
    ensures
        !started ==> legal_mask(started, pile_is_empty, has_turn) == 0,
        started ==> (allows(legal_mask(started, pile_is_empty, has_turn), CALL_CHEAT)
            <==> !pile_is_empty),
        started ==> (allows(legal_mask(started, pile_is_empty, has_turn), ADD_CARDS) <==> has_turn),
        started ==> (allows(legal_mask(started, pile_is_empty, has_turn), CHEAT_ADD_CARDS)
            <==> has_turn),
{
    assert(0u8 & 0b1000_0000u8 == 0 && 0u8 & 0b0100_0000u8 == 0 && 0u8 & 0b0010_0000u8 == 0)
        by (bit_vector);
    assert(0b1100_0000u8 & 0b1000_0000u8 != 0 && 0b1100_0000u8 & 0b0100_0000u8 != 0
        && 0b1100_0000u8 & 0b0010_0000u8 == 0) by (bit_vector);
    assert(0b1110_0000u8 & 0b1000_0000u8 != 0 && 0b1110_0000u8 & 0b0100_0000u8 != 0
        && 0b1110_0000u8 & 0b0010_0000u8 != 0) by (bit_vector);
    assert(0b0010_0000u8 & 0b1000_0000u8 == 0 && 0b0010_0000u8 & 0b0100_0000u8 == 0
        && 0b0010_0000u8 & 0b0010_0000u8 != 0) by (bit_vector);
}

} // verus!
