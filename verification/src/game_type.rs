//! What every ruleset offers to the server: seats, a start that deals, a
//! shared pile, up to five actions, and a mask of the actions that a player
//! may take now.

use crate::card::Card;
use crate::deck::{is_deal, is_full_deck};
use crate::mpmc::{BroadcastChannel, ChannelView};
use crate::pile::Pile;
use std::fmt::Debug;
use std::ops::Deref;
use vstd::prelude::*;

verus! {

/// What an action does with the cards that the player has picked.
#[derive(Copy, Clone, Debug, PartialEq, Eq)]
pub enum GSADataTaken {
    /// The cards are shown and stay in the hand.
    ShowCards,
    /// The cards are handed over and leave the hand.
    TakeCards,
    /// The action carries no cards.
    Nothing,
}

/// The cards that go with an action.
#[derive(Debug)]
pub enum GSADataData {
    ShowCards(Pile),
    TakeCards(Pile),
    Nothing,
}

impl GSADataData {
    /// The cards that go with the action; none where it carries none.
    pub open spec fn cards(self) -> Seq<Card> {
        match self {
            GSADataData::ShowCards(pile) => pile@,
            GSADataData::TakeCards(pile) => pile@,
            GSADataData::Nothing => Seq::<Card>::empty(),
        }
    }
}

impl Clone for GSADataData {
    fn clone(&self) -> (copy: Self)
        ensures
            copy.cards() == self.cards(),
            copy is ShowCards <==> self is ShowCards,
            copy is TakeCards <==> self is TakeCards,
    {
        match self {
            GSADataData::ShowCards(pile) => GSADataData::ShowCards(pile.clone()),
            GSADataData::TakeCards(pile) => GSADataData::TakeCards(pile.clone()),
            GSADataData::Nothing => GSADataData::Nothing,
        }
    }
}

/// What goes out to every connection when cards change hands: one hand per
/// seat, and whether the hands are the first deal of the game.
#[derive(Debug)]
pub struct HandOut {
    pub hands: Vec<Pile>,
    pub is_start: bool,
}

impl View for HandOut {
    type V = (Seq<Seq<Card>>, bool);

    open spec fn view(&self) -> (Seq<Seq<Card>>, bool) {
        (Seq::new(self.hands@.len(), |i: int| self.hands@[i]@), self.is_start)
    }
}

impl Clone for HandOut {
    fn clone(&self) -> (copy: Self)
        ensures
            copy@ == self@,
    {
        let mut hands: Vec<Pile> = Vec::new();
        let mut i: usize = 0;
        while i < self.hands.len()
            invariant
                i <= self.hands.len(),
                hands@.len() == i,
                forall|j: int| 0 <= j < i ==> (#[trigger] hands@[j])@ == self.hands@[j]@,
            decreases self.hands.len() - i,
        {
            hands.push(self.hands[i].clone());
            i += 1;
        }
        let copy = HandOut { hands, is_start: self.is_start };
        assert(copy@.0 =~= self@.0);
        copy
    }
}

/// Whether `after` is the channel `before` after the first deal of a game
/// with `players` seats has gone out over it, with `rest` left undealt:
/// some full deck was dealt from the top, one hand per seat, and the hands
/// were sent as one message marked as the first deal.
pub open spec fn first_deal(
    before: ChannelView<HandOut>,
    after: ChannelView<HandOut>,
    players: nat,
    rest: Seq<Card>,
) -> bool {
    exists|deck: Seq<Card>, hands: Vec<Pile>|
        {
            &&& is_full_deck(deck)
            &&& hands@.len() == players
            &&& #[trigger] is_deal(deck, hands@, rest)
            &&& before.delivers(HandOut { hands, is_start: true }, after)
        }
}

/// What an action led to.
#[derive(Debug)]
pub enum GSAResult {
    /// The player with the given id receives the whole shared pile.
    PlayerTakesAllCards(Pile, usize),
    /// Nothing that a client has to hear of.
    Nothing,
}

impl Clone for GSAResult {
    fn clone(&self) -> (copy: Self)
        ensures
            copy is Nothing <==> self is Nothing,
            self matches GSAResult::PlayerTakesAllCards(pile, winner) ==> copy
                is PlayerTakesAllCards && copy->PlayerTakesAllCards_0@ == pile@
                && copy->PlayerTakesAllCards_1 == winner,
    {
        match self {
            GSAResult::PlayerTakesAllCards(pile, winner) => GSAResult::PlayerTakesAllCards(
                pile.clone(),
                *winner,
            ),
            GSAResult::Nothing => GSAResult::Nothing,
        }
    }
}

impl Default for GSAResult {
    fn default() -> (result: Self)
        ensures
            result is Nothing,
    {
        Self::Nothing
    }
}

/// A ruleset. The server talks to the game through this interface alone.
pub trait Game: Default + Debug {
    /// The number of players without which the game does not start.
    const MIN_PLAYERS: usize;

    /// The number of actions that the ruleset defines, at most five.
    const GSAS: usize;

    /// Whether clients are told the length of the shared pile only.
    const DEALER_PILE_HIDDEN: bool = false;

    type GSA1Params;

    type GSA2Params;

    type GSA3Params;

    type GSA4Params;

    type GSA5Params;

    /// What the game keeps between calls.
    spec fn wf(&self) -> bool;

    /// Whether the game has started.
    spec fn started(&self) -> bool;

    /// The number of seats taken.
    spec fn players(&self) -> nat;

    /// The shared pile, top first.
    spec fn pile(&self) -> Seq<Card>;

    /// The mask of the actions that the player with this id may take now,
    /// one bit each, the first action in the highest bit.
    spec fn legal_actions(&self, caller_id: usize) -> u8;

    /// A game made by `default` is fresh: not started, no seat taken, an
    /// empty shared pile.
    proof fn lemma_default_is_fresh(game: Self)
        requires
            call_ensures(Self::default, (), game),
        ensures
            game.wf(),
            !game.started(),
            game.players() == 0,
            game.pile() == Seq::<Card>::empty(),
    ;

    /// Seats one more player and returns the id of the seat, which is the
    /// number of seats taken before. There is no seat once the game has
    /// started, nor when the ids have run out; then nothing changes.
    fn subscribe(&mut self) -> (id: Option<usize>)
        requires
            old(self).wf(),
        ensures
            final(self).wf(),
            final(self).started() == old(self).started(),
            final(self).pile() == old(self).pile(),
            id is Some <==> !old(self).started() && old(self).players() < usize::MAX,
            id matches Some(seat) ==> seat == old(self).players() && final(self).players() == seat
                + 1,
            id is None ==> final(self).players() == old(self).players(),
    ;

    /// Starts the game where it has not started and enough players are
    /// seated: a freshly shuffled deck is dealt, the hands are sent over the
    /// channel as one message marked as the first deal, and the undealt rest
    /// is returned. Otherwise nothing is returned and nothing changes.
    fn start(&mut self, broadcast_channel: &mut BroadcastChannel<HandOut>) -> (rest: Option<Pile>)
        requires
            old(self).wf(),
            old(broadcast_channel).wf(),
        ensures
            final(self).wf(),
            final(broadcast_channel).wf(),
            final(self).players() == old(self).players(),
            final(self).pile() == old(self).pile(),
            rest is Some <==> !old(self).started() && old(self).players() >= Self::MIN_PLAYERS,
            rest is Some ==> final(self).started(),
            rest matches Some(left) ==> first_deal(
                old(broadcast_channel)@,
                final(broadcast_channel)@,
                old(self).players(),
                left@,
            ),
            rest is None ==> final(self).started() == old(self).started(),
            rest is None ==> final(broadcast_channel)@ == old(broadcast_channel)@,
    ;

    /// The shared pile.
    fn dealer_pile(&self) -> (pile: &Pile)
        ensures
            pile@ == self.pile(),
    ;

    /// Puts `pile` in the place of the shared pile and returns what was there.
    fn replace_dealer_pile(&mut self, pile: Pile) -> (before: Pile)
        requires
            old(self).wf(),
        ensures
            final(self).wf(),
            before@ == old(self).pile(),
            final(self).pile() == pile@,
            final(self).started() == old(self).started(),
            final(self).players() == old(self).players(),
    ;

    /// Whether clients are told the length of the shared pile only.
    fn hidden_pile_self(&self) -> (hidden: bool)
        ensures
            hidden == Self::DEALER_PILE_HIDDEN,
    {
        Self::DEALER_PILE_HIDDEN
    }

    fn has_started(&self) -> (started: bool)
        ensures
            started == self.started(),
    ;

    /// The name of each action, with what the action does with the picked
    /// cards.
    fn gsa_names(&self) -> (names: &'static [(&'static str, GSADataTaken)])
        ensures
            names@.len() == Self::GSAS,
    {
        Self::gsa_names_static()
    }

    /// The name of each action, with what the action does with the picked
    /// cards.
    fn gsa_names_static() -> (names: &'static [(&'static str, GSADataTaken)])
        ensures
            names@.len() == Self::GSAS,
    ;

    /// The number of actions that the ruleset defines.
    fn gsa_number(&self) -> (number: usize)
        ensures
            number == Self::GSAS,
    {
        Self::GSAS
    }

    /// The id of the player whose turn came before the present one.
    fn last_player_id(&self) -> usize
        requires
            self.wf(),
    ;

    /// The first action. A ruleset that does not define it does nothing.
    fn gsa_1(&mut self, caller_id: usize, params: Self::GSA1Params) -> (result: GSAResult)
        requires
            old(self).wf(),
        ensures
            final(self).wf(),
            final(self).started() == old(self).started(),
            final(self).players() == old(self).players(),
            result matches GSAResult::PlayerTakesAllCards(pile, _) ==> pile@ == old(self).pile()
                && final(self).pile() == Seq::<Card>::empty(),
        default_ensures
            result is Nothing,
            *final(self) == *old(self),
    {
        GSAResult::default()
    }

    /// The second action. A ruleset that does not define it does nothing.
    fn gsa_2(&mut self, caller_id: usize, params: Self::GSA2Params) -> (result: GSAResult)
        requires
            old(self).wf(),
        ensures
            final(self).wf(),
            final(self).started() == old(self).started(),
            final(self).players() == old(self).players(),
            result matches GSAResult::PlayerTakesAllCards(pile, _) ==> pile@ == old(self).pile()
                && final(self).pile() == Seq::<Card>::empty(),
        default_ensures
            result is Nothing,
            *final(self) == *old(self),
    {
        GSAResult::default()
    }

    /// The third action. A ruleset that does not define it does nothing.
    fn gsa_3(&mut self, caller_id: usize, params: Self::GSA3Params) -> (result: GSAResult)
        requires
            old(self).wf(),
        ensures
            final(self).wf(),
            final(self).started() == old(self).started(),
            final(self).players() == old(self).players(),
            result matches GSAResult::PlayerTakesAllCards(pile, _) ==> pile@ == old(self).pile()
                && final(self).pile() == Seq::<Card>::empty(),
        default_ensures
            result is Nothing,
            *final(self) == *old(self),
    {
        GSAResult::default()
    }

    /// The fourth action. A ruleset that does not define it does nothing.
    fn gsa_4(&mut self, caller_id: usize, params: Self::GSA4Params) -> (result: GSAResult)
        requires
            old(self).wf(),
        ensures
            final(self).wf(),
            final(self).started() == old(self).started(),
            final(self).players() == old(self).players(),
            result matches GSAResult::PlayerTakesAllCards(pile, _) ==> pile@ == old(self).pile()
                && final(self).pile() == Seq::<Card>::empty(),
        default_ensures
            result is Nothing,
            *final(self) == *old(self),
    {
        GSAResult::default()
    }

    /// The fifth action. A ruleset that does not define it does nothing.
    fn gsa_5(&mut self, caller_id: usize, params: Self::GSA5Params) -> (result: GSAResult)
        requires
            old(self).wf(),
        ensures
            final(self).wf(),
            final(self).started() == old(self).started(),
            final(self).players() == old(self).players(),
            result matches GSAResult::PlayerTakesAllCards(pile, _) ==> pile@ == old(self).pile()
                && final(self).pile() == Seq::<Card>::empty(),
        default_ensures
            result is Nothing,
            *final(self) == *old(self),
    {
        GSAResult::default()
    }

    /// The mask of the actions that the player with this id may take now.
    /// Before the game has started no action may be taken.
    fn gsas_fufilled(&self, caller_id: usize) -> (mask: u8)
        requires
            self.wf(),
        ensures
            mask == self.legal_actions(caller_id),
            !self.started() ==> mask == 0,
    ;
}

/// A game in play.
#[derive(Debug)]
pub struct GamePlaying<T: Game>(pub T);

impl<T: Game> Default for GamePlaying<T> {
    fn default() -> (playing: Self)
        ensures
            playing.0.wf(),
            !playing.0.started(),
            playing.0.players() == 0,
            playing.0.pile() == Seq::<Card>::empty(),
    {
        let game = T::default();
        proof {
            T::lemma_default_is_fresh(game);
        }
        GamePlaying(game)
    }
}

impl<T: Game> Deref for GamePlaying<T> {
    type Target = T;

    fn deref(&self) -> (game: &T)
        ensures
            *game == self.0,
    {
        &self.0
    }
}

} // verus!
