//! The client's side of a connection: what it learns from each frame of the
//! server, the frames it sends, when it polls, and what a press of an
//! action button does with the cards that are ticked.
//!
//! Nothing here draws a window, reads a socket or looks at a clock. The
//! caller hands in what it has read and measured, and writes out what it
//! gets back.

use crate::card::Card;
use crate::game_type::{GSADataData, GSADataTaken};
use crate::message_parser::{
    cards_of_payload, count_of_payload, decode_cards, decode_count, encode_cards,
    payload_of_cards, DecodeError, MessageToClient, MessageToServer, COUNT_BYTES,
};
use crate::pile::Pile;
use crate::TPS_TIMER;
use vstd::prelude::*;

verus! {

/// What a client has been told of the shared pile: its cards, or no more
/// than how many they are.
#[derive(Debug)]
pub enum DealerView {
    Cards(Pile),
    Count(u64),
}

/// What a client knows of the game.
#[derive(Debug)]
pub struct ClientState {
    /// The cards in the player's hand.
    pub hand: Pile,
    /// The shared pile as far as it was told.
    pub dealer: DealerView,
    pub game_started: bool,
    /// The mask of the actions that the player may take.
    pub gsas_fufilled: u8,
    /// The number of actions that the ruleset defines.
    pub gsas: u64,
}

/// What a client does after a frame of the server.
#[derive(Copy, Clone, Debug, PartialEq, Eq, Structural)]
pub enum Outcome {
    /// It goes on.
    Continue,
    /// The server has ended the connection: it stops.
    ServerEnded,
}

/// The shared pile as a client knows it, as plain values.
pub enum DealerSeen {
    Cards(Seq<Card>),
    Count(u64),
}

/// What a client knows of the game, as plain values.
pub struct ClientView {
    pub hand: Seq<Card>,
    pub dealer: DealerSeen,
    pub game_started: bool,
    pub gsas_fufilled: u8,
    pub gsas: u64,
}

impl View for DealerView {
    type V = DealerSeen;

    open spec fn view(&self) -> DealerSeen {
        match self {
            DealerView::Cards(pile) => DealerSeen::Cards(pile@),
            DealerView::Count(count) => DealerSeen::Count(*count),
        }
    }
}

impl View for ClientState {
    type V = ClientView;

    open spec fn view(&self) -> ClientView {
        ClientView {
            hand: self.hand@,
            dealer: self.dealer@,
            game_started: self.game_started,
            gsas_fufilled: self.gsas_fufilled,
            gsas: self.gsas,
        }
    }
}

impl ClientView {
    /// What a client knows before it has been told anything.
    pub open spec fn fresh() -> ClientView {
        ClientView {
            hand: Seq::empty(),
            dealer: DealerSeen::Cards(Seq::empty()),
            game_started: false,
            gsas_fufilled: 0,
            gsas: 0,
        }
    }

    /// What the client knows after a frame of the server, and what it does
    /// then; or why the frame could not be read.
    ///
    /// An empty frame tells nothing. Cards that are handed over go below the
    /// hand; with the first deal the game has started and the number of
    /// actions is known. A pile or a pile length takes the place of what was
    /// known of the shared pile. The two one-byte answers set the started
    /// flag, which is set by any byte but zero, and the mask of legal
    /// actions.
    pub open spec fn after(self, frame: Seq<u8>) -> Result<(ClientView, Outcome), DecodeError> {
        if frame.len() == 0 {
            Ok((self, Outcome::Continue))
        } else {
            let payload = frame.skip(1);
            match MessageToClient::of_code(frame[0]) {
                None => Err(DecodeError::UnknownKind(frame[0])),
                Some(MessageToClient::ServerEnd) => Ok((self, Outcome::ServerEnded)),
                Some(MessageToClient::GameStarting) => match count_of_payload(payload) {
                    Err(e) => Err(e),
                    Ok(actions) => match cards_of_payload(payload.skip(COUNT_BYTES as int)) {
                        Err(e) => Err(e),
                        Ok(cards) => Ok(
                            (
                                ClientView {
                                    hand: self.hand + cards,
                                    game_started: true,
                                    gsas: actions,
                                    ..self
                                },
                                Outcome::Continue,
                            ),
                        ),
                    },
                },
                Some(MessageToClient::SendingCardsToHand) => match cards_of_payload(payload) {
                    Err(e) => Err(e),
                    Ok(cards) => Ok(
                        (ClientView { hand: self.hand + cards, ..self }, Outcome::Continue),
                    ),
                },
                Some(MessageToClient::CurrentPileFollows) => match cards_of_payload(payload) {
                    Err(e) => Err(e),
                    Ok(cards) => Ok(
                        (
                            ClientView { dealer: DealerSeen::Cards(cards), ..self },
                            Outcome::Continue,
                        ),
                    ),
                },
                Some(MessageToClient::PileLengthFollows) => match count_of_payload(payload) {
                    Err(e) => Err(e),
                    Ok(count) => Ok(
                        (
                            ClientView { dealer: DealerSeen::Count(count), ..self },
                            Outcome::Continue,
                        ),
                    ),
                },
                Some(MessageToClient::GameHasStartedState) => if payload.len() == 0 {
                    Err(DecodeError::Truncated)
                } else {
                    Ok((ClientView { game_started: payload[0] != 0, ..self }, Outcome::Continue))
                },
                Some(MessageToClient::GsaConditionsFufilled) => if payload.len() == 0 {
                    Err(DecodeError::Truncated)
                } else {
                    Ok((ClientView { gsas_fufilled: payload[0], ..self }, Outcome::Continue))
                },
            }
        }
    }
}

impl Default for ClientState {
    fn default() -> (state: Self)
        ensures
            state@ == ClientView::fresh(),
    {
        ClientState {
            hand: Pile::default(),
            dealer: DealerView::Cards(Pile::default()),
            game_started: false,
            gsas_fufilled: 0,
            gsas: 0,
        }
    }
}

impl ClientState {
    /// Takes in one frame of the server. A frame that cannot be read is an
    /// error and changes nothing.
    pub fn handle(&mut self, frame: &[u8]) -> (outcome: Result<Outcome, DecodeError>)
        ensures
            old(self)@.after(frame@) matches Ok(next) ==> outcome == Ok::<Outcome, DecodeError>(
                next.1,
            ) && final(self)@ == next.0,
            old(self)@.after(frame@) matches Err(e) ==> outcome == Err::<Outcome, DecodeError>(e)
                && final(self)@ == old(self)@,
    {
        if frame.len() == 0 {
            return Ok(Outcome::Continue);
        }
        let kind = match MessageToClient::try_from(frame[0]) {
            Ok(kind) => kind,
            Err(byte) => {
                return Err(DecodeError::UnknownKind(byte));
            },
        };
        let payload = vstd::slice::slice_subrange(frame, 1, frame.len());
        assert(payload@ =~= frame@.skip(1));
        match kind {
            MessageToClient::ServerEnd => Ok(Outcome::ServerEnded),
            MessageToClient::GameStarting => {
                let actions = match decode_count(payload) {
                    Ok(actions) => actions,
                    Err(e) => {
                        return Err(e);
                    },
                };
                let text = vstd::slice::slice_subrange(payload, COUNT_BYTES, payload.len());
                assert(text@ =~= payload@.skip(COUNT_BYTES as int));
                let cards = match decode_cards(text) {
                    Ok(cards) => cards,
                    Err(e) => {
                        return Err(e);
                    },
                };
                self.gsas = actions;
                self.game_started = true;
                self.hand.append(&cards);
                Ok(Outcome::Continue)
            },
            MessageToClient::SendingCardsToHand => {
                let cards = match decode_cards(payload) {
                    Ok(cards) => cards,
                    Err(e) => {
                        return Err(e);
                    },
                };
                self.hand.append(&cards);
                Ok(Outcome::Continue)
            },
            MessageToClient::CurrentPileFollows => {
                let cards = match decode_cards(payload) {
                    Ok(cards) => cards,
                    Err(e) => {
                        return Err(e);
                    },
                };
                self.dealer = DealerView::Cards(cards);
                Ok(Outcome::Continue)
            },
            MessageToClient::PileLengthFollows => {
                let count = match decode_count(payload) {
                    Ok(count) => count,
                    Err(e) => {
                        return Err(e);
                    },
                };
                self.dealer = DealerView::Count(count);
                Ok(Outcome::Continue)
            },
            MessageToClient::GameHasStartedState => {
                if payload.len() == 0 {
                    return Err(DecodeError::Truncated);
                }
                self.game_started = payload[0] != 0;
                Ok(Outcome::Continue)
            },
            MessageToClient::GsaConditionsFufilled => {
                if payload.len() == 0 {
                    return Err(DecodeError::Truncated);
                }
                self.gsas_fufilled = payload[0];
                Ok(Outcome::Continue)
            },
        }
    }
}

/// What the window asks the connection to send.
#[non_exhaustive]
#[derive(Debug)]
pub enum MessageToProcessingThread {
    /// The player wants the game to start.
    Start,
    GSA1(GSADataData),
    GSA2(GSADataData),
    GSA3(GSADataData),
    GSA4(GSADataData),
    GSA5(GSADataData),
}

impl MessageToProcessingThread {
    /// The kind of the frame that carries this request.
    pub open spec fn kind(self) -> MessageToServer {
        match self {
            MessageToProcessingThread::Start => MessageToServer::ReadyToPlay,
            MessageToProcessingThread::GSA1(_) => MessageToServer::GameAction1,
            MessageToProcessingThread::GSA2(_) => MessageToServer::GameAction2,
            MessageToProcessingThread::GSA3(_) => MessageToServer::GameAction3,
            MessageToProcessingThread::GSA4(_) => MessageToServer::GameAction4,
            MessageToProcessingThread::GSA5(_) => MessageToServer::GameAction5,
        }
    }

    /// The payload of the frame that carries this request: the cards of an
    /// action as pile text, and nothing where it has no cards.
    pub open spec fn payload(self) -> Seq<u8> {
        match self {
            MessageToProcessingThread::Start => Seq::<u8>::empty(),
            MessageToProcessingThread::GSA1(data) => data_payload(data),
            MessageToProcessingThread::GSA2(data) => data_payload(data),
            MessageToProcessingThread::GSA3(data) => data_payload(data),
            MessageToProcessingThread::GSA4(data) => data_payload(data),
            MessageToProcessingThread::GSA5(data) => data_payload(data),
        }
    }
}

/// The payload that goes with the cards of an action.
pub open spec fn data_payload(data: GSADataData) -> Seq<u8> {
    match data {
        GSADataData::ShowCards(pile) => payload_of_cards(pile@),
        GSADataData::TakeCards(pile) => payload_of_cards(pile@),
        GSADataData::Nothing => Seq::<u8>::empty(),
    }
}

/// The frame that asks the server for something that needs no payload.
pub open spec fn plain_frame(kind: MessageToServer) -> Seq<u8> {
    seq![kind.code()]
}

fn push_data(frame: &mut Vec<u8>, data: &GSADataData)
    ensures
        final(frame)@ == old(frame)@ + data_payload(*data),
{
    match data {
        GSADataData::ShowCards(pile) => {
            let mut payload = encode_cards(pile);
            frame.append(&mut payload);
        },
        GSADataData::TakeCards(pile) => {
            let mut payload = encode_cards(pile);
            frame.append(&mut payload);
        },
        GSADataData::Nothing => {
            assert(frame@ =~= old(frame)@ + Seq::<u8>::empty());
        },
    }
}

/// Makes the frame that carries a request of the window to the server.
pub fn encode_request(message: &MessageToProcessingThread) -> (frame: Vec<u8>)
    ensures
        frame@ == plain_frame(message.kind()) + message.payload(),
{
    let mut frame: Vec<u8> = Vec::new();
    match message {
        MessageToProcessingThread::Start => {
            frame.push(MessageToServer::ReadyToPlay.to_byte());
            assert(frame@ =~= plain_frame(message.kind()) + message.payload());
        },
        MessageToProcessingThread::GSA1(data) => {
            frame.push(MessageToServer::GameAction1.to_byte());
            push_data(&mut frame, data);
        },
        MessageToProcessingThread::GSA2(data) => {
            frame.push(MessageToServer::GameAction2.to_byte());
            push_data(&mut frame, data);
        },
        MessageToProcessingThread::GSA3(data) => {
            frame.push(MessageToServer::GameAction3.to_byte());
            push_data(&mut frame, data);
        },
        MessageToProcessingThread::GSA4(data) => {
            frame.push(MessageToServer::GameAction4.to_byte());
            push_data(&mut frame, data);
        },
        MessageToProcessingThread::GSA5(data) => {
            frame.push(MessageToServer::GameAction5.to_byte());
            push_data(&mut frame, data);
        },
    }
    frame
}

/// What a client sends of its own accord at one moment.
#[derive(Debug)]
pub struct Poll {
    /// The frames to send, in order.
    pub frames: Vec<Vec<u8>>,
    /// Whether the wait for the next poll of the pile begins anew.
    pub pile_polled: bool,
    /// Whether the wait for the next poll of the legal actions begins anew.
    pub actions_polled: bool,
}

/// The time between two polls of the legal actions, in milliseconds.
pub const GSA_TIMER: u64 = 2 * TPS_TIMER;

/// The frames that a client sends of its own accord when `since_pile`
/// milliseconds have passed since it last polled the pile and
/// `since_actions` since it last polled the legal actions. Once the pile's
/// interval is over it asks for the pile, and while it does not know of
/// the start also whether the game has started. Once the interval of the
/// actions is over it asks for the legal actions.
pub open spec fn poll_frames(since_pile: u64, since_actions: u64, game_started: bool) -> Seq<
    Seq<u8>,
> {
    let pile = if since_pile >= TPS_TIMER {
        if game_started {
            seq![plain_frame(MessageToServer::SendCurrentPilePlease)]
        } else {
            seq![
                plain_frame(MessageToServer::SendCurrentPilePlease),
                plain_frame(MessageToServer::HasGameStarted),
            ]
        }
    } else {
        Seq::<Seq<u8>>::empty()
    };
    let actions = if since_actions >= GSA_TIMER {
        seq![plain_frame(MessageToServer::GsasFufilled)]
    } else {
        Seq::<Seq<u8>>::empty()
    };
    pile + actions
}

fn encode_plain(kind: MessageToServer) -> (frame: Vec<u8>)
    ensures
        frame@ == plain_frame(kind),
{
    let mut frame: Vec<u8> = Vec::new();
    frame.push(kind.to_byte());
    frame
}

/// Decides what a client sends of its own accord, from the time that has
/// passed since each of its two polls.
pub fn poll(since_pile: u64, since_actions: u64, game_started: bool) -> (due: Poll)
    ensures
        due.pile_polled == (since_pile >= TPS_TIMER),
        due.actions_polled == (since_actions >= GSA_TIMER),
        crate::server::frames_view(due.frames@) == poll_frames(
            since_pile,
            since_actions,
            game_started,
        ),
{
    let mut frames: Vec<Vec<u8>> = Vec::new();
    let pile_polled = since_pile >= TPS_TIMER;
    let actions_polled = since_actions >= GSA_TIMER;
    if pile_polled {
        frames.push(encode_plain(MessageToServer::SendCurrentPilePlease));
        if !game_started {
            frames.push(encode_plain(MessageToServer::HasGameStarted));
        }
    }
    if actions_polled {
        frames.push(encode_plain(MessageToServer::GsasFufilled));
    }
    assert(crate::server::frames_view(frames@) =~= poll_frames(
        since_pile,
        since_actions,
        game_started,
    ));
    Poll { frames, pile_polled, actions_polled }
}

/// The bit that stands for an action in the mask of legal actions: the
/// highest bit for the first action, the next for the second, and so on
/// for the five actions; no bit for any other.
pub open spec fn action_bit(index: usize) -> u8 {
    if index == 0 {
        0b1000_0000
    } else if index == 1 {
        0b0100_0000
    } else if index == 2 {
        0b0010_0000
    } else if index == 3 {
        0b0001_0000
    } else if index == 4 {
        0b0000_1000
    } else {
        0
    }
}

/// Whether the button of the action with this index, counted from zero, is
/// shown: the mask has the action's bit.
pub fn action_enabled(mask: u8, index: usize) -> (enabled: bool)
    ensures
        enabled == (mask & action_bit(index) != 0),
{
    let bit: u8 = match index {
        0 => 0b1000_0000,
        1 => 0b0100_0000,
        2 => 0b0010_0000,
        3 => 0b0001_0000,
        4 => 0b0000_1000,
        _ => 0,
    };
    mask & bit != 0
}

/// The cards of `hand` whose tick is `wanted`, in order. A card without a
/// tick counts as not ticked.
pub open spec fn ticked(hand: Seq<Card>, checked: Seq<bool>, wanted: bool) -> Seq<Card>
    decreases hand.len(),
{
    if hand.len() == 0 {
        Seq::<Card>::empty()
    } else {
        let last = hand.len() - 1;
        let earlier = ticked(hand.drop_last(), checked, wanted);
        if (last < checked.len() && checked[last]) == wanted {
            earlier.push(hand.last())
        } else {
            earlier
        }
    }
}

/// Parts a hand into the cards that are ticked and those that are not.
pub fn split_ticked(hand: &Vec<Card>, checked: &Vec<bool>) -> (parts: (Pile, Pile))
    ensures
        parts.0@ == ticked(hand@, checked@, true),
        parts.1@ == ticked(hand@, checked@, false),
{
    let mut picked = Pile::default();
    let mut kept = Pile::default();
    let mut i: usize = 0;
    while i < hand.len()
        invariant
            i <= hand.len(),
            picked@ == ticked(hand@.take(i as int), checked@, true),
            kept@ == ticked(hand@.take(i as int), checked@, false),
        decreases hand.len() - i,
    {
        assert(hand@.take(i + 1).drop_last() =~= hand@.take(i as int));
        if i < checked.len() && checked[i] {
            picked.push(hand[i]);
        } else {
            kept.push(hand[i]);
        }
        i += 1;
    }
    assert(hand@.take(hand.len() as int) =~= hand@);
    (picked, kept)
}

/// Keeps the ticks in step with the hand: when the hand is no longer the
/// one that the ticks were made for, every tick is cleared and the hand is
/// remembered.
pub fn sync_ticks(checked: &mut Vec<bool>, old_cards: &mut Vec<Card>, hand: &Vec<Card>)
    ensures
        final(old_cards)@ == hand@,
        hand@ == old(old_cards)@ ==> final(checked)@ == old(checked)@,
        hand@ != old(old_cards)@ ==> final(checked)@ == Seq::new(hand@.len(), |i: int| false),
{
    if !same_cards(hand, old_cards) {
        let mut fresh: Vec<bool> = Vec::new();
        let mut copy: Vec<Card> = Vec::new();
        let mut i: usize = 0;
        while i < hand.len()
            invariant
                i <= hand.len(),
                fresh@ == Seq::new(i as nat, |k: int| false),
                copy@ == hand@.take(i as int),
            decreases hand.len() - i,
        {
            fresh.push(false);
            copy.push(hand[i]);
            assert(fresh@ =~= Seq::new((i + 1) as nat, |k: int| false));
            i += 1;
        }
        assert(hand@.take(hand.len() as int) =~= hand@);
        *checked = fresh;
        *old_cards = copy;
    }
}

fn same_cards(a: &Vec<Card>, b: &Vec<Card>) -> (same: bool)
    ensures
        same == (a@ == b@),
{
    if a.len() != b.len() {
        return false;
    }
    let mut i: usize = 0;
    while i < a.len()
        invariant
            i <= a.len(),
            a.len() == b.len(),
            a@.take(i as int) == b@.take(i as int),
        decreases a.len() - i,
    {
        if a[i] != b[i] {
            return false;
        }
        assert(a@.take(i + 1) =~= a@.take(i as int).push(a@[i as int]));
        assert(b@.take(i + 1) =~= b@.take(i as int).push(b@[i as int]));
        i += 1;
    }
    assert(a@.take(a.len() as int) =~= a@);
    assert(b@.take(b.len() as int) =~= b@);
    true
}

/// What a press of an action button sends. The ticked cards go along with
/// an action that shows or takes cards, marked as shown either way, since
/// the wire does not tell the two apart; an action without cards carries
/// none. There is no message for an index beyond the five actions.
pub open spec fn pressed(index: usize, taken: GSADataTaken, picked: Seq<Card>) -> Option<
    (MessageToServer, Seq<Card>),
> {
    let cards = match taken {
        GSADataTaken::Nothing => Seq::<Card>::empty(),
        _ => picked,
    };
    if index == 0 {
        Some((MessageToServer::GameAction1, cards))
    } else if index == 1 {
        Some((MessageToServer::GameAction2, cards))
    } else if index == 2 {
        Some((MessageToServer::GameAction3, cards))
    } else if index == 3 {
        Some((MessageToServer::GameAction4, cards))
    } else if index == 4 {
        Some((MessageToServer::GameAction5, cards))
    } else {
        None
    }
}

/// Carries out a press of the button of the action with this index, counted
/// from zero: makes the message for the connection out of the ticked cards,
/// and where the action takes cards, leaves only the cards that are not
/// ticked in the hand.
pub fn press_action(index: usize, taken: GSADataTaken, hand: &mut Pile, checked: &Vec<bool>) -> (message:
    Option<MessageToProcessingThread>)
    ensures
        message is Some <==> index < 5,
        message matches Some(m) ==> pressed(index, taken, ticked(old(hand)@, checked@, true))
            == Some((m.kind(), sent_cards(m))),
        message matches Some(m) ==> (sent_data(m) is ShowCards <==> !(taken is Nothing)),
        message matches Some(m) ==> !(sent_data(m) is TakeCards),
        final(hand)@ == (if index < 5 && taken is TakeCards {
            ticked(old(hand)@, checked@, false)
        } else {
            old(hand)@
        }),
{
    if index >= 5 {
        return None;
    }
    let (picked, kept) = split_ticked(hand.cards(), checked);
    let data = match taken {
        GSADataTaken::ShowCards => GSADataData::ShowCards(picked),
        GSADataTaken::TakeCards => {
            *hand = kept;
            GSADataData::ShowCards(picked)
        },
        GSADataTaken::Nothing => GSADataData::Nothing,
    };
    let message = if index == 0 {
        MessageToProcessingThread::GSA1(data)
    } else if index == 1 {
        MessageToProcessingThread::GSA2(data)
    } else if index == 2 {
        MessageToProcessingThread::GSA3(data)
    } else if index == 3 {
        MessageToProcessingThread::GSA4(data)
    } else {
        MessageToProcessingThread::GSA5(data)
    };
    Some(message)
}

/// The cards that go with a request of the window.
pub open spec fn sent_cards(message: MessageToProcessingThread) -> Seq<Card> {
    sent_data(message).cards()
}

/// What goes with a request of the window.
pub open spec fn sent_data(message: MessageToProcessingThread) -> GSADataData {
    match message {
        MessageToProcessingThread::Start => GSADataData::Nothing,
        MessageToProcessingThread::GSA1(data) => data,
        MessageToProcessingThread::GSA2(data) => data,
        MessageToProcessingThread::GSA3(data) => data,
        MessageToProcessingThread::GSA4(data) => data,
        MessageToProcessingThread::GSA5(data) => data,
    }
}

/// Whether cards can be ticked: only while some action is legal.
pub fn can_tick(mask: u8) -> (allowed: bool)
    ensures
        allowed == (mask != 0),
{
    mask != 0
}

/// Whether the window offers the button of the action with this index,
/// counted from zero: some action is legal, the index is below the number
/// of actions that the server told and below the number of actions that
/// have a name, and the mask has the action's bit.
pub open spec fn action_offered(mask: u8, total: u64, names: usize, index: usize) -> bool {
    mask != 0 && index < total && index < names && mask & action_bit(index) != 0
}

/// The buttons that the window offers.
#[derive(Debug)]
pub struct Buttons {
    /// Whether the button that starts the game is offered.
    pub start: bool,
    /// The indices of the actions whose buttons are offered, lowest first.
    pub actions: Vec<usize>,
}

/// Decides which buttons the window offers: the start button until the
/// game has started, and the button of every action that `action_offered`
/// admits, where `total` is the number of actions that the server told and
/// `names` the number of actions that have a name.
pub fn offered_buttons(game_started: bool, mask: u8, total: u64, names: usize) -> (buttons: Buttons)
    ensures
        buttons.start == !game_started,
        forall|k: int|
            0 <= k < buttons.actions@.len() ==> action_offered(
                mask,
                total,
                names,
                #[trigger] buttons.actions@[k],
            ),
        forall|index: usize| #[trigger]
            action_offered(mask, total, names, index) ==> buttons.actions@.contains(index),
        forall|a: int, b: int|
            0 <= a < b < buttons.actions@.len() ==> buttons.actions@[a] < buttons.actions@[b],
{
    let mut actions: Vec<usize> = Vec::new();
    let mut i: usize = 0;
    while i < 5 && i < names && (i as u64) < total
        invariant
            i <= 5,
            forall|k: int|
                0 <= k < actions@.len() ==> (#[trigger] actions@[k]) < i && action_offered(
                    mask,
                    total,
                    names,
                    actions@[k],
                ),
            forall|index: usize|
                index < i && #[trigger] action_offered(mask, total, names, index)
                    ==> actions@.contains(index),
            forall|a: int, b: int| 0 <= a < b < actions@.len() ==> actions@[a] < actions@[b],
        decreases 5 - i,
    {
        if can_tick(mask) && action_enabled(mask, i) {
            let ghost before = actions@;
            actions.push(i);
            assert forall|index: usize|
                index < i + 1 && #[trigger] action_offered(
                    mask,
                    total,
                    names,
                    index,
                ) implies actions@.contains(index) by {
                if index < i {
                    assert(before.contains(index));
                    let k = choose|k: int| 0 <= k < before.len() && before[k] == index;
                    assert(actions@[k] == index);
                } else {
                    assert(actions@[actions@.len() - 1] == index);
                }
            }
        }
        i += 1;
    }
    assert forall|index: usize| #[trigger]
        action_offered(mask, total, names, index) implies actions@.contains(index) by {
        assert(mask & 0 == 0) by (bit_vector);
    }
    Buttons { start: !game_started, actions }
}

/// A client reads the shared pile, or its length, out of the frame that the
/// server makes of it.
pub proof fn lemma_client_reads_pile_state(state: ClientView, pile: Seq<Card>, hidden: bool)
    requires
        pile.len() <= u64::MAX,
    ensures
        state.after(crate::server::pile_state_frame(pile, hidden)) == Ok::<
            (ClientView, Outcome),
            DecodeError,
        >(
            (
                ClientView {
                    dealer: if hidden {
                        DealerSeen::Count(pile.len() as u64)
                    } else {
                        DealerSeen::Cards(pile)
                    },
                    ..state
                },
                Outcome::Continue,
            ),
        ),
{
    let frame = crate::server::pile_state_frame(pile, hidden);
    if hidden {
        let count = pile.len() as u64;
        crate::message_parser::lemma_count_round_trip(count, Seq::<u8>::empty());
        assert(frame.skip(1) =~= crate::message_parser::payload_of_count(count) + Seq::<
            u8,
        >::empty());
    } else {
        crate::message_parser::lemma_payload_round_trip(pile);
        assert(frame.skip(1) =~= payload_of_cards(pile));
    }
}

/// A client reads the started flag out of the frame that the server makes
/// of it.
pub proof fn lemma_client_reads_started(state: ClientView, started: bool)
    ensures
        state.after(crate::server::started_frame(started)) == Ok::<
            (ClientView, Outcome),
            DecodeError,
        >((ClientView { game_started: started, ..state }, Outcome::Continue)),
{
}

/// A client reads the mask of legal actions out of the frame that the
/// server makes of it.
pub proof fn lemma_client_reads_mask(state: ClientView, mask: u8)
    ensures
        state.after(crate::server::mask_frame(mask)) == Ok::<(ClientView, Outcome), DecodeError>(
            (ClientView { gsas_fufilled: mask, ..state }, Outcome::Continue),
        ),
{
}

/// A client reads the cards that it is handed out of the frame that the
/// server makes of them, and with the first deal the number of actions.
pub proof fn lemma_client_reads_hand(
    state: ClientView,
    hand: Seq<Card>,
    is_start: bool,
    actions: usize,
)
    ensures
        state.after(crate::server::hand_frame(hand, is_start, actions)) == Ok::<
            (ClientView, Outcome),
            DecodeError,
        >(
            (
                if is_start {
                    ClientView {
                        hand: state.hand + hand,
                        game_started: true,
                        gsas: actions as u64,
                        ..state
                    }
                } else {
                    ClientView { hand: state.hand + hand, ..state }
                },
                Outcome::Continue,
            ),
        ),
{
    let frame = crate::server::hand_frame(hand, is_start, actions);
    crate::message_parser::lemma_payload_round_trip(hand);
    if is_start {
        let text = payload_of_cards(hand);
        crate::message_parser::lemma_count_round_trip(actions as u64, text);
        assert(frame.skip(1) =~= crate::message_parser::payload_of_count(actions as u64) + text);
        assert(frame.skip(1).skip(COUNT_BYTES as int) =~= text);
    } else {
        assert(frame.skip(1) =~= payload_of_cards(hand));
    }
}

/// A client stops at the frame that ends the connection.
pub proof fn lemma_client_reads_end(state: ClientView)
    ensures
        state.after(crate::server::end_frame()) == Ok::<(ClientView, Outcome), DecodeError>(
            (state, Outcome::ServerEnded),
        ),
{
}

/// What the server is to read out of the frame of a request of the window.
pub open spec fn request_sent(message: MessageToProcessingThread) -> crate::server::RequestView {
    match message {
        MessageToProcessingThread::Start => crate::server::RequestView::ReadyToPlay,
        MessageToProcessingThread::GSA1(data) => crate::server::RequestView::GameAction1(
            data.cards(),
        ),
        MessageToProcessingThread::GSA2(data) => crate::server::RequestView::GameAction2(
            data.cards(),
        ),
        MessageToProcessingThread::GSA3(_) => crate::server::RequestView::GameAction3,
        MessageToProcessingThread::GSA4(_) => crate::server::RequestView::GameAction4,
        MessageToProcessingThread::GSA5(_) => crate::server::RequestView::GameAction5,
    }
}

/// The server reads a request of a client out of the frame that the client
/// makes of it: the kind, and the cards where the request brings any.
pub proof fn lemma_server_reads_request(message: MessageToProcessingThread)
    ensures
        crate::server::request_of(plain_frame(message.kind()) + message.payload()) == Ok::<
            crate::server::RequestView,
            DecodeError,
        >(request_sent(message)),
{
    let frame = plain_frame(message.kind()) + message.payload();
    assert(frame.skip(1) =~= message.payload());
    crate::message_parser::lemma_payload_round_trip(sent_cards(message));
    assert(payload_of_cards(Seq::<Card>::empty()) =~= Seq::<u8>::empty()) by {
        assert(crate::pile::text_of(Seq::<Card>::empty()) =~= Seq::<char>::empty());
        reveal_with_fuel(vstd::utf8::encode_utf8, 2);
    }
}

} // verus!
