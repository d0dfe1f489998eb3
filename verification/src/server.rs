//! The server's side of a connection: what it answers to each message of a
//! client, and what it forwards to the client from the two channels.
//!
//! Nothing here reads or writes a socket. The caller hands in each frame it
//! has read and writes out the frames it gets back.

use crate::card::Card;
use crate::game_type::{first_deal, GSAResult, Game, GamePlaying, HandOut};
use crate::message_parser::{
    cards_of_payload, decode_cards, encode_cards, encode_count, payload_of_cards,
    payload_of_count, DecodeError, MessageToClient, MessageToServer,
};
use crate::mpmc::{BroadcastChannel, ChannelView};
use crate::pile::Pile;
use vstd::prelude::*;

verus! {

/// What the server tells every connection over the general channel.
#[derive(Debug, Copy, Clone, PartialEq, Eq)]
pub enum ServerMessage {
    /// The shared pile has changed and is to be sent to the client.
    UpdateDealerPile,
}

/// The frame that tells a client the shared pile: in full, or its length
/// alone where the ruleset hides the pile.
pub open spec fn pile_state_frame(pile: Seq<Card>, hidden: bool) -> Seq<u8> {
    if hidden {
        seq![MessageToClient::PileLengthFollows.code()] + payload_of_count(pile.len() as u64)
    } else {
        seq![MessageToClient::CurrentPileFollows.code()] + payload_of_cards(pile)
    }
}

/// The frame that tells a client whether the game has started.
pub open spec fn started_frame(started: bool) -> Seq<u8> {
    seq![MessageToClient::GameHasStartedState.code(), if started { 1u8 } else { 0u8 }]
}

/// The frame that tells a client which actions it may take.
pub open spec fn mask_frame(mask: u8) -> Seq<u8> {
    seq![MessageToClient::GsaConditionsFufilled.code(), mask]
}

/// The frame that hands cards to a client: with the first deal it also
/// tells the number of actions and that the game starts.
pub open spec fn hand_frame(hand: Seq<Card>, is_start: bool, actions: usize) -> Seq<u8> {
    if is_start {
        seq![MessageToClient::GameStarting.code()] + payload_of_count(actions as u64)
            + payload_of_cards(hand)
    } else {
        seq![MessageToClient::SendingCardsToHand.code()] + payload_of_cards(hand)
    }
}

/// The frame that ends a connection.
pub open spec fn end_frame() -> Seq<u8> {
    seq![MessageToClient::ServerEnd.code()]
}

pub fn encode_pile_state(pile: &Pile, hidden: bool) -> (frame: Vec<u8>)
    ensures
        frame@ == pile_state_frame(pile@, hidden),
{
    let mut frame: Vec<u8> = Vec::new();
    if hidden {
        frame.push(MessageToClient::PileLengthFollows.to_byte());
        let mut payload = encode_count(pile.len() as u64);
        frame.append(&mut payload);
    } else {
        frame.push(MessageToClient::CurrentPileFollows.to_byte());
        let mut payload = encode_cards(pile);
        frame.append(&mut payload);
    }
    frame
}

pub fn encode_started(started: bool) -> (frame: Vec<u8>)
    ensures
        frame@ == started_frame(started),
{
    let mut frame: Vec<u8> = Vec::new();
    frame.push(MessageToClient::GameHasStartedState.to_byte());
    frame.push(if started { 1 } else { 0 });
    assert(frame@ =~= started_frame(started));
    frame
}

pub fn encode_mask(mask: u8) -> (frame: Vec<u8>)
    ensures
        frame@ == mask_frame(mask),
{
    let mut frame: Vec<u8> = Vec::new();
    frame.push(MessageToClient::GsaConditionsFufilled.to_byte());
    frame.push(mask);
    assert(frame@ =~= mask_frame(mask));
    frame
}

pub fn encode_hand(hand: &Pile, is_start: bool, actions: usize) -> (frame: Vec<u8>)
    ensures
        frame@ == hand_frame(hand@, is_start, actions),
{
    let mut frame: Vec<u8> = Vec::new();
    if is_start {
        frame.push(MessageToClient::GameStarting.to_byte());
        let mut count = encode_count(actions as u64);
        frame.append(&mut count);
    } else {
        frame.push(MessageToClient::SendingCardsToHand.to_byte());
    }
    let mut payload = encode_cards(hand);
    frame.append(&mut payload);
    frame
}

pub fn encode_end() -> (frame: Vec<u8>)
    ensures
        frame@ == end_frame(),
{
    let mut frame: Vec<u8> = Vec::new();
    frame.push(MessageToClient::ServerEnd.to_byte());
    frame
}

/// Whether `hands` gives the whole of `pile` to the seat `winner` and
/// nothing to any other seat, with a place for every subscriber and for the
/// winner.
pub open spec fn is_fan_out(hands: Seq<Pile>, pile: Seq<Card>, winner: usize, subscribers: nat) -> bool {
    &&& hands.len() == if winner < subscribers {
        subscribers
    } else {
        (winner + 1) as nat
    }
    &&& forall|i: int|
        0 <= i < hands.len() ==> (#[trigger] hands[i])@ == if i == winner {
            pile
        } else {
            Seq::<Card>::empty()
        }
}

/// Lays a pile out for the channel: one hand per seat, all of them empty
/// but the winner's, which is the pile.
pub fn fan_out(pile: Pile, winner: usize, subscribers: usize) -> (hands: Vec<Pile>)
    requires
        winner < usize::MAX,
    ensures
        is_fan_out(hands@, pile@, winner, subscribers as nat),
{
    let seats = if winner < subscribers {
        subscribers
    } else {
        winner + 1
    };
    let mut hands: Vec<Pile> = Vec::new();
    let mut i: usize = 0;
    while i < seats
        invariant
            i <= seats,
            hands@.len() == i,
            forall|j: int| 0 <= j < i ==> (#[trigger] hands@[j])@ == Seq::<Card>::empty(),
        decreases seats - i,
    {
        hands.push(Pile::default());
        i += 1;
    }
    let ghost cards = pile@;
    hands.set(winner, pile);
    hands
}

/// The hand that a vector of hands holds for a seat: none for a connection
/// without a seat, and none for a seat beyond the vector.
pub open spec fn hand_of(hands: Seq<Pile>, seat: Option<usize>) -> Seq<Card> {
    match seat {
        Some(id) => if id < hands.len() {
            hands[id as int]@
        } else {
            Seq::<Card>::empty()
        },
        None => Seq::<Card>::empty(),
    }
}

pub fn take_hand(hands: &Vec<Pile>, seat: Option<usize>) -> (hand: Pile)
    ensures
        hand@ == hand_of(hands@, seat),
{
    match seat {
        Some(id) => if id < hands.len() {
            hands[id].clone()
        } else {
            Pile::default()
        },
        None => Pile::default(),
    }
}

/// What a connection holds of the server: its id on each of the two
/// channels, and its seat in the game where it has one. The three numbers
/// are counted apart and say nothing of each other.
#[derive(Debug)]
pub struct ConnectionSession {
    /// The id on the general channel.
    pub general_bc_id: usize,
    /// The id on the channel that hands out cards.
    pub game_bc_id: usize,
    /// The seat in the game. A connection that came after the start has
    /// none: it may watch, and takes no action.
    pub game_id: Option<usize>,
}

/// What the server answers to a frame.
#[derive(Debug)]
pub enum Reply {
    /// Nothing is written.
    Nothing,
    /// This frame is written to the client.
    Send(Vec<u8>),
    /// The client has left: the connection is closed.
    Closed,
}

/// The game and the two channels that all connections share.
pub struct Server<G: Game> {
    pub game: GamePlaying<G>,
    /// Messages for every connection alike.
    pub general_bc: BroadcastChannel<ServerMessage>,
    /// Hands of cards, one per seat, and whether they are the first deal.
    pub game_bc: BroadcastChannel<HandOut>,
}

/// Whether `after` is the channel `before` after what an action led to has
/// gone out over it. A pile that a player receives goes out laid out for
/// that player's seat, as one message that is not the first deal. Nothing
/// goes out where the action led to nothing, nor where the seat is beyond
/// what can be laid out.
pub open spec fn routed(
    before: ChannelView<HandOut>,
    result: GSAResult,
    after: ChannelView<HandOut>,
) -> bool {
    match result {
        GSAResult::PlayerTakesAllCards(pile, winner) => if winner < usize::MAX {
            exists|hands: Vec<Pile>|
                {
                    &&& #[trigger] is_fan_out(hands@, pile@, winner, before.count())
                    &&& before.delivers(HandOut { hands, is_start: false }, after)
                }
        } else {
            after == before
        },
        GSAResult::Nothing => after == before,
    }
}

/// What a frame of a client asks for.
#[derive(Debug)]
pub enum Request {
    /// Nothing: the frame is empty or a keep-alive.
    Nothing,
    /// The client leaves.
    Disconnect,
    /// The shared pile, or its length.
    SendCurrentPilePlease,
    /// That the game starts.
    ReadyToPlay,
    /// Whether the game has started.
    HasGameStarted,
    /// The mask of legal actions.
    GsasFufilled,
    /// The first action, with these cards.
    GameAction1(Pile),
    /// The second action, with these cards.
    GameAction2(Pile),
    GameAction3,
    GameAction4,
    GameAction5,
}

/// What a frame of a client asks for, as plain values.
pub enum RequestView {
    Nothing,
    Disconnect,
    SendCurrentPilePlease,
    ReadyToPlay,
    HasGameStarted,
    GsasFufilled,
    GameAction1(Seq<Card>),
    GameAction2(Seq<Card>),
    GameAction3,
    GameAction4,
    GameAction5,
}

impl View for Request {
    type V = RequestView;

    open spec fn view(&self) -> RequestView {
        match self {
            Request::Nothing => RequestView::Nothing,
            Request::Disconnect => RequestView::Disconnect,
            Request::SendCurrentPilePlease => RequestView::SendCurrentPilePlease,
            Request::ReadyToPlay => RequestView::ReadyToPlay,
            Request::HasGameStarted => RequestView::HasGameStarted,
            Request::GsasFufilled => RequestView::GsasFufilled,
            Request::GameAction1(cards) => RequestView::GameAction1(cards@),
            Request::GameAction2(cards) => RequestView::GameAction2(cards@),
            Request::GameAction3 => RequestView::GameAction3,
            Request::GameAction4 => RequestView::GameAction4,
            Request::GameAction5 => RequestView::GameAction5,
        }
    }
}

impl RequestView {
    /// Whether the request is one of the five actions.
    pub open spec fn is_action(self) -> bool {
        ||| self is GameAction1
        ||| self is GameAction2
        ||| self is GameAction3
        ||| self is GameAction4
        ||| self is GameAction5
    }
}

/// What a frame asks for. The first byte is the kind and the rest the
/// payload. An empty frame asks for nothing. The first two actions bring
/// cards as pile text, which is read strictly; every other kind goes
/// without a payload, and what comes after its kind byte is passed over.
pub open spec fn request_of(frame: Seq<u8>) -> Result<RequestView, DecodeError> {
    if frame.len() == 0 {
        Ok(RequestView::Nothing)
    } else {
        match MessageToServer::of_code(frame[0]) {
            None => Err(DecodeError::UnknownKind(frame[0])),
            Some(MessageToServer::Tick) => Ok(RequestView::Nothing),
            Some(MessageToServer::Disconnect) => Ok(RequestView::Disconnect),
            Some(MessageToServer::SendCurrentPilePlease) => Ok(RequestView::SendCurrentPilePlease),
            Some(MessageToServer::ReadyToPlay) => Ok(RequestView::ReadyToPlay),
            Some(MessageToServer::HasGameStarted) => Ok(RequestView::HasGameStarted),
            Some(MessageToServer::GsasFufilled) => Ok(RequestView::GsasFufilled),
            Some(MessageToServer::GameAction1) => match cards_of_payload(frame.skip(1)) {
                Ok(cards) => Ok(RequestView::GameAction1(cards)),
                Err(e) => Err(e),
            },
            Some(MessageToServer::GameAction2) => match cards_of_payload(frame.skip(1)) {
                Ok(cards) => Ok(RequestView::GameAction2(cards)),
                Err(e) => Err(e),
            },
            Some(MessageToServer::GameAction3) => Ok(RequestView::GameAction3),
            Some(MessageToServer::GameAction4) => Ok(RequestView::GameAction4),
            Some(MessageToServer::GameAction5) => Ok(RequestView::GameAction5),
        }
    }
}

/// Reads what a frame of a client asks for.
pub fn decode_request(frame: &[u8]) -> (request: Result<Request, DecodeError>)
    ensures
        request matches Ok(r) ==> request_of(frame@) == Ok::<RequestView, DecodeError>(r@),
        request matches Err(e) ==> request_of(frame@) == Err::<RequestView, DecodeError>(e),
{
    if frame.len() == 0 {
        return Ok(Request::Nothing);
    }
    let kind = match MessageToServer::try_from(frame[0]) {
        Ok(kind) => kind,
        Err(byte) => {
            return Err(DecodeError::UnknownKind(byte));
        },
    };
    let payload = vstd::slice::slice_subrange(frame, 1, frame.len());
    assert(payload@ =~= frame@.skip(1));
    match kind {
        MessageToServer::Tick => Ok(Request::Nothing),
        MessageToServer::Disconnect => Ok(Request::Disconnect),
        MessageToServer::SendCurrentPilePlease => Ok(Request::SendCurrentPilePlease),
        MessageToServer::ReadyToPlay => Ok(Request::ReadyToPlay),
        MessageToServer::HasGameStarted => Ok(Request::HasGameStarted),
        MessageToServer::GsasFufilled => Ok(Request::GsasFufilled),
        MessageToServer::GameAction1 => match decode_cards(payload) {
            Ok(cards) => Ok(Request::GameAction1(cards)),
            Err(e) => Err(e),
        },
        MessageToServer::GameAction2 => match decode_cards(payload) {
            Ok(cards) => Ok(Request::GameAction2(cards)),
            Err(e) => Err(e),
        },
        MessageToServer::GameAction3 => Ok(Request::GameAction3),
        MessageToServer::GameAction4 => Ok(Request::GameAction4),
        MessageToServer::GameAction5 => Ok(Request::GameAction5),
    }
}

impl<G: Game> Server<G> {
    pub open spec fn wf(&self) -> bool {
        &&& self.game.0.wf()
        &&& self.general_bc.wf()
        &&& self.game_bc.wf()
    }

    /// Whether `after` is this server with nothing changed.
    pub open spec fn same_as(&self, after: &Self) -> bool {
        &&& after.game == self.game
        &&& after.general_bc@ == self.general_bc@
        &&& after.game_bc@ == self.game_bc@
    }

    /// Whether `after` is this server after a frame that asked to start the
    /// game. Where the game had not started and enough players were seated,
    /// it has started now, the hands of a fresh deal went out over the
    /// channel, and the undealt rest is the shared pile. Otherwise nothing
    /// has changed in the game and on the channel.
    pub open spec fn started_by(&self, after: &Self) -> bool {
        &&& after.general_bc@ == self.general_bc@
        &&& after.game.0.players() == self.game.0.players()
        &&& if !self.game.0.started() && self.game.0.players() >= G::MIN_PLAYERS {
            &&& after.game.0.started()
            &&& first_deal(
                self.game_bc@,
                after.game_bc@,
                self.game.0.players(),
                after.game.0.pile(),
            )
        } else {
            &&& after.game.0.started() == self.game.0.started()
            &&& after.game.0.pile() == self.game.0.pile()
            &&& after.game_bc@ == self.game_bc@
        }
    }

    /// A server with a fresh game and nobody connected.
    pub fn new() -> (server: Self)
        ensures
            server.wf(),
            !server.game.0.started(),
            server.game.0.players() == 0,
            server.game.0.pile() == Seq::<Card>::empty(),
            server.general_bc@ == crate::mpmc::ChannelView::<ServerMessage>::fresh(),
            server.game_bc@ == crate::mpmc::ChannelView::<HandOut>::fresh(),
    {
        Server {
            game: GamePlaying::default(),
            general_bc: BroadcastChannel::new(),
            game_bc: BroadcastChannel::new(),
        }
    }

    /// Admits a connection: it subscribes to both channels and asks the game
    /// for a seat. Where the game gives none, the connection may watch.
    pub fn connect(&mut self) -> (session: ConnectionSession)
        requires
            old(self).wf(),
        ensures
            final(self).wf(),
            session.general_bc_id == old(self).general_bc@.next_id(),
            session.game_bc_id == old(self).game_bc@.next_id(),
            final(self).general_bc@ == old(self).general_bc@.after_subscribe(),
            final(self).game_bc@ == old(self).game_bc@.after_subscribe(),
            final(self).game.0.started() == old(self).game.0.started(),
            final(self).game.0.pile() == old(self).game.0.pile(),
            session.game_id is Some <==> !old(self).game.0.started() && old(self).game.0.players()
                < usize::MAX,
            session.game_id matches Some(seat) ==> seat == old(self).game.0.players(),
            session.game_id matches Some(seat) ==> final(self).game.0.players() == seat + 1,
            session.game_id is None ==> final(self).game.0.players() == old(self).game.0.players(),
    {
        let general_bc_id = self.general_bc.subscribe();
        let game_bc_id = self.game_bc.subscribe();
        let game_id = self.game.0.subscribe();
        ConnectionSession { general_bc_id, game_bc_id, game_id }
    }

    /// Lets a connection go: its two subscriptions end. What it has done in
    /// the game stays done, and its seat stays taken.
    pub fn disconnect(&mut self, session: &ConnectionSession)
        requires
            old(self).wf(),
        ensures
            final(self).wf(),
            final(self).game == old(self).game,
            final(self).general_bc@ == old(self).general_bc@.after_unsubscribe(
                session.general_bc_id,
            ),
            final(self).game_bc@ == old(self).game_bc@.after_unsubscribe(session.game_bc_id),
    {
        self.general_bc.unsubscribe(session.general_bc_id);
        self.game_bc.unsubscribe(session.game_bc_id);
    }

    /// Sends what an action led to over the channel: a pile that a player
    /// receives goes out laid out for that player's seat.
    pub fn route(&mut self, result: GSAResult)
        requires
            old(self).wf(),
        ensures
            final(self).wf(),
            final(self).game == old(self).game,
            final(self).general_bc@ == old(self).general_bc@,
            routed(old(self).game_bc@, result, final(self).game_bc@),
    {
        match result {
            GSAResult::PlayerTakesAllCards(pile, winner) => {
                if winner < usize::MAX {
                    let ghost cards = pile@;
                    let hands = fan_out(pile, winner, self.game_bc.num_subscribed());
                    let ghost laid_out = hands;
                    let _ = self.game_bc.send(HandOut { hands, is_start: false });
                    assert(is_fan_out(laid_out@, cards, winner, old(self).game_bc@.count()));
                }
            },
            GSAResult::Nothing => {},
        }
    }
}

/// The frames that a run of general messages makes for a client: for each
/// message the shared pile as the ruleset lets it be seen.
pub open spec fn general_frames(messages: Seq<ServerMessage>, pile: Seq<Card>, hidden: bool) -> Seq<
    Seq<u8>,
> {
    Seq::new(messages.len(), |i: int| pile_state_frame(pile, hidden))
}

/// The frames that a run of hand-outs makes for a client: of each the hand
/// laid out for the client's seat.
pub open spec fn hand_frames(messages: Seq<HandOut>, seat: Option<usize>, actions: usize) -> Seq<
    Seq<u8>,
> {
    Seq::new(
        messages.len(),
        |i: int| hand_frame(hand_of(messages[i].hands@, seat), messages[i].is_start, actions),
    )
}

/// The frames as plain sequences.
pub open spec fn frames_view(frames: Seq<Vec<u8>>) -> Seq<Seq<u8>> {
    Seq::new(frames.len(), |i: int| frames[i]@)
}

impl<G: Game> Server<G> {
    /// Empties the two queues of a connection and makes the frames that
    /// forward what was in them: first the general messages, then the
    /// hand-outs, each in the order in which it was sent. Of a hand-out the
    /// client gets the hand of its own seat. A connection without a seat,
    /// and one whose seat the hand-out does not reach, gets an empty hand.
    pub fn drain(&mut self, session: &ConnectionSession) -> (frames: Vec<Vec<u8>>)
        requires
            old(self).wf(),
        ensures
            final(self).wf(),
            final(self).game == old(self).game,
            final(self).general_bc@ == old(self).general_bc@.after_receive(session.general_bc_id),
            final(self).game_bc@ == old(self).game_bc@.after_receive(session.game_bc_id),
            frames_view(frames@) == general_frames(
                old(self).general_bc@.queue(session.general_bc_id),
                old(self).game.0.pile(),
                G::DEALER_PILE_HIDDEN,
            ) + hand_frames(
                old(self).game_bc@.queue(session.game_bc_id),
                session.game_id,
                G::GSAS,
            ),
    {
        let hidden = self.game.0.hidden_pile_self();
        let actions = self.game.0.gsa_number();
        let general = self.general_bc.receive(session.general_bc_id);
        let hand_outs = self.game_bc.receive(session.game_bc_id);
        let ghost first = general_frames(general@, self.game.0.pile(), hidden);
        let ghost second = hand_frames(hand_outs@, session.game_id, actions);
        let mut frames: Vec<Vec<u8>> = Vec::new();
        let mut i: usize = 0;
        while i < general.len()
            invariant
                i <= general.len(),
                first == general_frames(general@, self.game.0.pile(), hidden),
                frames_view(frames@) == first.take(i as int),
            decreases general.len() - i,
        {
            let frame = match general[i] {
                ServerMessage::UpdateDealerPile => encode_pile_state(
                    self.game.0.dealer_pile(),
                    hidden,
                ),
            };
            let ghost sofar = frames@;
            frames.push(frame);
            assert(frames_view(frames@) =~= frames_view(sofar).push(frame@));
            assert(first.take(i + 1) =~= first.take(i as int).push(first[i as int]));
            i += 1;
        }
        assert(first.take(general.len() as int) =~= first);
        let mut j: usize = 0;
        while j < hand_outs.len()
            invariant
                j <= hand_outs.len(),
                second == hand_frames(hand_outs@, session.game_id, actions),
                frames_view(frames@) == first + second.take(j as int),
            decreases hand_outs.len() - j,
        {
            let hand = take_hand(&hand_outs[j].hands, session.game_id);
            let frame = encode_hand(&hand, hand_outs[j].is_start, actions);
            let ghost sofar = frames@;
            frames.push(frame);
            assert(frames_view(frames@) =~= frames_view(sofar).push(frame@));
            assert(second.take(j + 1) =~= second.take(j as int).push(second[j as int]));
            assert(first + second.take(j + 1) =~= (first + second.take(j as int)).push(
                second[j as int],
            ));
            j += 1;
        }
        assert(second.take(hand_outs.len() as int) =~= second);
        frames
    }
}

impl<
    G: Game<GSA1Params = Pile, GSA2Params = Pile, GSA3Params = (), GSA4Params = (), GSA5Params = ()>,
> Server<G> {
    /// Whether `after` is this server after what an action led to has gone
    /// out: over the channel of hands as `routed` says, and nothing over
    /// the general channel.
    pub open spec fn sent_out(&self, result: GSAResult, after: &Self) -> bool {
        &&& after.general_bc@ == self.general_bc@
        &&& routed(self.game_bc@, result, after.game_bc@)
    }

    /// Whether `reply` and `after` are what this server answers to a request
    /// of a connection and what it is afterwards.
    ///
    /// A question about the pile, the start or the legal actions is
    /// answered with one frame and changes nothing; a connection without a
    /// seat has no legal action. A client that leaves loses its two
    /// subscriptions. A request to start starts the game where it can. A
    /// connection without a seat takes no action; what an action from a
    /// seat does is the ruleset's, and the contract of `perform` says it
    /// through the contract of the ruleset's own handler.
    pub open spec fn performed(
        &self,
        session: &ConnectionSession,
        request: RequestView,
        after: &Self,
        reply: Reply,
    ) -> bool {
        match request {
            RequestView::Nothing => reply is Nothing && self.same_as(after),
            RequestView::Disconnect => {
                &&& reply is Closed
                &&& after.game == self.game
                &&& after.general_bc@ == self.general_bc@.after_unsubscribe(session.general_bc_id)
                &&& after.game_bc@ == self.game_bc@.after_unsubscribe(session.game_bc_id)
            },
            RequestView::SendCurrentPilePlease => {
                &&& reply matches Reply::Send(answer)
                &&& answer@ == pile_state_frame(self.game.0.pile(), G::DEALER_PILE_HIDDEN)
                &&& self.same_as(after)
            },
            RequestView::HasGameStarted => {
                &&& reply matches Reply::Send(answer)
                &&& answer@ == started_frame(self.game.0.started())
                &&& self.same_as(after)
            },
            RequestView::GsasFufilled => {
                &&& reply matches Reply::Send(answer)
                &&& answer@ == mask_frame(
                    match session.game_id {
                        Some(seat) => self.game.0.legal_actions(seat),
                        None => 0u8,
                    },
                )
                &&& self.same_as(after)
            },
            RequestView::ReadyToPlay => reply is Nothing && self.started_by(after),
            _ => reply is Nothing && (session.game_id is None ==> self.same_as(after)),
        }
    }

    /// Carries out what a connection asks for. An action from a seat goes
    /// through the ruleset's handler of that action, with the seat and the
    /// cards of the request: the game before and after, and what the
    /// handler returned, are as the handler's own contract says, and what
    /// it returned has gone out over the channel.
    pub fn perform(&mut self, session: &ConnectionSession, request: Request) -> (reply: Reply)
        requires
            old(self).wf(),
        ensures
            final(self).wf(),
            old(self).performed(session, request@, final(self), reply),
            request@ is GameAction1 && session.game_id is Some ==> (exists|
                game: &mut G,
                pile: Pile,
                result: GSAResult,
            |
                *game == old(self).game.0 && *final(game) == final(self).game.0 && pile@
                    == request@->GameAction1_0 && #[trigger] call_ensures(
                    G::gsa_1,
                    (game, session.game_id->0, pile),
                    result,
                ) && old(self).sent_out(result, final(self))),
            request@ is GameAction2 && session.game_id is Some ==> (exists|
                game: &mut G,
                pile: Pile,
                result: GSAResult,
            |
                *game == old(self).game.0 && *final(game) == final(self).game.0 && pile@
                    == request@->GameAction2_0 && #[trigger] call_ensures(
                    G::gsa_2,
                    (game, session.game_id->0, pile),
                    result,
                ) && old(self).sent_out(result, final(self))),
            request@ is GameAction3 && session.game_id is Some ==> (exists|
                game: &mut G,
                result: GSAResult,
            |
                *game == old(self).game.0 && *final(game) == final(self).game.0
                    && #[trigger] call_ensures(G::gsa_3, (game, session.game_id->0, ()), result)
                    && old(self).sent_out(result, final(self))),
            request@ is GameAction4 && session.game_id is Some ==> (exists|
                game: &mut G,
                result: GSAResult,
            |
                *game == old(self).game.0 && *final(game) == final(self).game.0
                    && #[trigger] call_ensures(G::gsa_4, (game, session.game_id->0, ()), result)
                    && old(self).sent_out(result, final(self))),
            request@ is GameAction5 && session.game_id is Some ==> (exists|
                game: &mut G,
                result: GSAResult,
            |
                *game == old(self).game.0 && *final(game) == final(self).game.0
                    && #[trigger] call_ensures(G::gsa_5, (game, session.game_id->0, ()), result)
                    && old(self).sent_out(result, final(self))),
    {
        match request {
            Request::Nothing => Reply::Nothing,
            Request::Disconnect => {
                self.disconnect(session);
                Reply::Closed
            },
            Request::SendCurrentPilePlease => {
                let hidden = self.game.0.hidden_pile_self();
                Reply::Send(encode_pile_state(self.game.0.dealer_pile(), hidden))
            },
            Request::HasGameStarted => Reply::Send(encode_started(self.game.0.has_started())),
            Request::GsasFufilled => {
                let mask = match session.game_id {
                    Some(seat) => self.game.0.gsas_fufilled(seat),
                    None => 0,
                };
                Reply::Send(encode_mask(mask))
            },
            Request::ReadyToPlay => {
                match self.game.0.start(&mut self.game_bc) {
                    Some(new_pile) => {
                        let ghost rest = new_pile@;
                        let _ = self.game.0.replace_dealer_pile(new_pile);
                        assert(self.game.0.pile() == rest);
                    },
                    None => {},
                }
                Reply::Nothing
            },
            Request::GameAction1(cards) => {
                match session.game_id {
                    Some(seat) => {
                        let result = self.game.0.gsa_1(seat, cards);
                        self.route(result);
                    },
                    None => {},
                }
                Reply::Nothing
            },
            Request::GameAction2(cards) => {
                match session.game_id {
                    Some(seat) => {
                        let result = self.game.0.gsa_2(seat, cards);
                        self.route(result);
                    },
                    None => {},
                }
                Reply::Nothing
            },
            Request::GameAction3 => {
                match session.game_id {
                    Some(seat) => {
                        let result = self.game.0.gsa_3(seat, ());
                        self.route(result);
                    },
                    None => {},
                }
                Reply::Nothing
            },
            Request::GameAction4 => {
                match session.game_id {
                    Some(seat) => {
                        let result = self.game.0.gsa_4(seat, ());
                        self.route(result);
                    },
                    None => {},
                }
                Reply::Nothing
            },
            Request::GameAction5 => {
                match session.game_id {
                    Some(seat) => {
                        let result = self.game.0.gsa_5(seat, ());
                        self.route(result);
                    },
                    None => {},
                }
                Reply::Nothing
            },
        }
    }

    /// Answers one frame of a client: reads what it asks for and carries it
    /// out. A frame that cannot be read is an error and changes nothing. An
    /// action from a seat goes through the ruleset's handler of that action,
    /// with the seat and the cards that the frame brought, and what the
    /// handler led to goes out over the channel.
    pub fn handle(&mut self, session: &ConnectionSession, frame: &[u8]) -> (reply: Result<
        Reply,
        DecodeError,
    >)
        requires
            old(self).wf(),
        ensures
            final(self).wf(),
            request_of(frame@) matches Err(e) ==> reply == Err::<Reply, DecodeError>(e)
                && old(self).same_as(final(self)),
            request_of(frame@) matches Ok(request) ==> reply is Ok,
            request_of(frame@) matches Ok(request) ==> old(self).performed(
                session,
                request,
                final(self),
                reply->Ok_0,
            ),
            request_of(frame@) matches Ok(request) ==> request is GameAction1 && session.game_id
                is Some ==> (exists|game: &mut G, pile: Pile, result: GSAResult|
                *game == old(self).game.0 && *final(game) == final(self).game.0 && pile@
                    == request->GameAction1_0 && #[trigger] call_ensures(
                    G::gsa_1,
                    (game, session.game_id->0, pile),
                    result,
                ) && old(self).sent_out(result, final(self))),
            request_of(frame@) matches Ok(request) ==> request is GameAction2 && session.game_id
                is Some ==> (exists|game: &mut G, pile: Pile, result: GSAResult|
                *game == old(self).game.0 && *final(game) == final(self).game.0 && pile@
                    == request->GameAction2_0 && #[trigger] call_ensures(
                    G::gsa_2,
                    (game, session.game_id->0, pile),
                    result,
                ) && old(self).sent_out(result, final(self))),
            request_of(frame@) matches Ok(request) ==> request is GameAction3 && session.game_id
                is Some ==> (exists|game: &mut G, result: GSAResult|
                *game == old(self).game.0 && *final(game) == final(self).game.0
                    && #[trigger] call_ensures(G::gsa_3, (game, session.game_id->0, ()), result)
                    && old(self).sent_out(result, final(self))),
            request_of(frame@) matches Ok(request) ==> request is GameAction4 && session.game_id
                is Some ==> (exists|game: &mut G, result: GSAResult|
                *game == old(self).game.0 && *final(game) == final(self).game.0
                    && #[trigger] call_ensures(G::gsa_4, (game, session.game_id->0, ()), result)
                    && old(self).sent_out(result, final(self))),
            request_of(frame@) matches Ok(request) ==> request is GameAction5 && session.game_id
                is Some ==> (exists|game: &mut G, result: GSAResult|
                *game == old(self).game.0 && *final(game) == final(self).game.0
                    && #[trigger] call_ensures(G::gsa_5, (game, session.game_id->0, ()), result)
                    && old(self).sent_out(result, final(self))),
    {
        match decode_request(frame) {
            Ok(request) => Ok(self.perform(session, request)),
            Err(e) => Err(e),
        }
    }
}

} // verus!
