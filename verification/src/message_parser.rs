//! The kinds of message on the wire, and the pieces of payload that both
//! sides read and write. A message is one kind byte followed by its payload.

use crate::card::Card;
use crate::pile::{decode_pile, pile_of, text_of, Pile};
use vstd::bytes::{spec_u64_from_le_bytes, spec_u64_to_le_bytes, u64_from_le_bytes, u64_to_le_bytes};
use vstd::prelude::*;
use vstd::std_specs::convert::TryFromSpecImpl;
use vstd::string::*;
use vstd::utf8::{decode_utf8, encode_utf8, valid_utf8};

verus! {

/// What the server tells a client.
#[derive(Copy, Clone, Eq, PartialEq, Debug, Structural)]
#[non_exhaustive]
pub enum MessageToClient {
    /// No payload. The connection ends.
    ServerEnd,
    /// Payload: the number of actions, then the client's hand as pile text.
    /// The game starts.
    GameStarting,
    /// Payload: pile text. The cards join the client's hand.
    SendingCardsToHand,
    /// Payload: one byte, zero or one. Whether the game has started.
    GameHasStartedState,
    /// Payload: pile text. The shared pile.
    CurrentPileFollows,
    /// Payload: a number. The length of the shared pile.
    PileLengthFollows,
    /// Payload: one byte. The mask of the actions that the client may take.
    GsaConditionsFufilled,
}

/// What a client tells the server.
#[derive(Copy, Clone, Eq, PartialEq, Debug, Structural)]
#[non_exhaustive]
pub enum MessageToServer {
    /// No payload. Keeps the connection moving.
    Tick,
    /// No payload. The client leaves.
    Disconnect,
    /// No payload. Asks for the shared pile, or for its length.
    SendCurrentPilePlease,
    /// No payload. Asks to start the game.
    ReadyToPlay,
    /// No payload. Asks whether the game has started.
    HasGameStarted,
    /// No payload. Asks for the mask of legal actions.
    GsasFufilled,
    /// Payload as the ruleset asks for the first action.
    GameAction1,
    /// Payload as the ruleset asks for the second action.
    GameAction2,
    /// Payload as the ruleset asks for the third action.
    GameAction3,
    /// Payload as the ruleset asks for the fourth action.
    GameAction4,
    /// Payload as the ruleset asks for the fifth action.
    GameAction5,
}

impl MessageToClient {
    /// The kind byte of this message.
    pub open spec fn code(self) -> u8 {
        match self {
            MessageToClient::ServerEnd => 0,
            MessageToClient::GameStarting => 10,
            MessageToClient::SendingCardsToHand => 11,
            MessageToClient::GameHasStartedState => 12,
            MessageToClient::CurrentPileFollows => 20,
            MessageToClient::PileLengthFollows => 21,
            MessageToClient::GsaConditionsFufilled => 30,
        }
    }

    /// The message of a given kind byte.
    pub open spec fn of_code(byte: u8) -> Option<Self> {
        if byte == 0 {
            Some(MessageToClient::ServerEnd)
        } else if byte == 10 {
            Some(MessageToClient::GameStarting)
        } else if byte == 11 {
            Some(MessageToClient::SendingCardsToHand)
        } else if byte == 12 {
            Some(MessageToClient::GameHasStartedState)
        } else if byte == 20 {
            Some(MessageToClient::CurrentPileFollows)
        } else if byte == 21 {
            Some(MessageToClient::PileLengthFollows)
        } else if byte == 30 {
            Some(MessageToClient::GsaConditionsFufilled)
        } else {
            None
        }
    }

    pub fn to_byte(self) -> (byte: u8)
        ensures
            byte == self.code(),
    {
        match self {
            MessageToClient::ServerEnd => 0,
            MessageToClient::GameStarting => 10,
            MessageToClient::SendingCardsToHand => 11,
            MessageToClient::GameHasStartedState => 12,
            MessageToClient::CurrentPileFollows => 20,
            MessageToClient::PileLengthFollows => 21,
            MessageToClient::GsaConditionsFufilled => 30,
        }
    }
}

impl TryFrom<u8> for MessageToClient {
    type Error = u8;

    /// The message of the given kind byte, or the byte back where it names
    /// no message.
    fn try_from(byte: u8) -> (message: Result<Self, u8>) {
        match byte {
            0 => Ok(MessageToClient::ServerEnd),
            10 => Ok(MessageToClient::GameStarting),
            11 => Ok(MessageToClient::SendingCardsToHand),
            12 => Ok(MessageToClient::GameHasStartedState),
            20 => Ok(MessageToClient::CurrentPileFollows),
            21 => Ok(MessageToClient::PileLengthFollows),
            30 => Ok(MessageToClient::GsaConditionsFufilled),
            _ => Err(byte),
        }
    }
}

impl TryFromSpecImpl<u8> for MessageToClient {
    open spec fn obeys_try_from_spec() -> bool {
        true
    }

    open spec fn try_from_spec(byte: u8) -> Result<Self, u8> {
        match MessageToClient::of_code(byte) {
            Some(message) => Ok(message),
            None => Err(byte),
        }
    }
}

impl MessageToServer {
    /// The kind byte of this message.
    pub open spec fn code(self) -> u8 {
        match self {
            MessageToServer::Tick => 0,
            MessageToServer::Disconnect => 1,
            MessageToServer::SendCurrentPilePlease => 2,
            MessageToServer::ReadyToPlay => 3,
            MessageToServer::HasGameStarted => 4,
            MessageToServer::GsasFufilled => 5,
            MessageToServer::GameAction1 => 20,
            MessageToServer::GameAction2 => 21,
            MessageToServer::GameAction3 => 22,
            MessageToServer::GameAction4 => 23,
            MessageToServer::GameAction5 => 24,
        }
    }

    /// The message of a given kind byte.
    pub open spec fn of_code(byte: u8) -> Option<Self> {
        if byte == 0 {
            Some(MessageToServer::Tick)
        } else if byte == 1 {
            Some(MessageToServer::Disconnect)
        } else if byte == 2 {
            Some(MessageToServer::SendCurrentPilePlease)
        } else if byte == 3 {
            Some(MessageToServer::ReadyToPlay)
        } else if byte == 4 {
            Some(MessageToServer::HasGameStarted)
        } else if byte == 5 {
            Some(MessageToServer::GsasFufilled)
        } else if byte == 20 {
            Some(MessageToServer::GameAction1)
        } else if byte == 21 {
            Some(MessageToServer::GameAction2)
        } else if byte == 22 {
            Some(MessageToServer::GameAction3)
        } else if byte == 23 {
            Some(MessageToServer::GameAction4)
        } else if byte == 24 {
            Some(MessageToServer::GameAction5)
        } else {
            None
        }
    }

    pub fn to_byte(self) -> (byte: u8)
        ensures
            byte == self.code(),
    {
        match self {
            MessageToServer::Tick => 0,
            MessageToServer::Disconnect => 1,
            MessageToServer::SendCurrentPilePlease => 2,
            MessageToServer::ReadyToPlay => 3,
            MessageToServer::HasGameStarted => 4,
            MessageToServer::GsasFufilled => 5,
            MessageToServer::GameAction1 => 20,
            MessageToServer::GameAction2 => 21,
            MessageToServer::GameAction3 => 22,
            MessageToServer::GameAction4 => 23,
            MessageToServer::GameAction5 => 24,
        }
    }
}

impl TryFrom<u8> for MessageToServer {
    type Error = u8;

    /// The message of the given kind byte, or the byte back where it names
    /// no message.
    fn try_from(byte: u8) -> (message: Result<Self, u8>) {
        match byte {
            0 => Ok(MessageToServer::Tick),
            1 => Ok(MessageToServer::Disconnect),
            2 => Ok(MessageToServer::SendCurrentPilePlease),
            3 => Ok(MessageToServer::ReadyToPlay),
            4 => Ok(MessageToServer::HasGameStarted),
            5 => Ok(MessageToServer::GsasFufilled),
            20 => Ok(MessageToServer::GameAction1),
            21 => Ok(MessageToServer::GameAction2),
            22 => Ok(MessageToServer::GameAction3),
            23 => Ok(MessageToServer::GameAction4),
            24 => Ok(MessageToServer::GameAction5),
            _ => Err(byte),
        }
    }
}

impl TryFromSpecImpl<u8> for MessageToServer {
    open spec fn obeys_try_from_spec() -> bool {
        true
    }

    open spec fn try_from_spec(byte: u8) -> Result<Self, u8> {
        match MessageToServer::of_code(byte) {
            Some(message) => Ok(message),
            None => Err(byte),
        }
    }
}

/// Every message to a client is read back from its own kind byte.
pub proof fn lemma_client_code_round_trip(message: MessageToClient)
    ensures
        MessageToClient::of_code(message.code()) == Some(message),
{
}

/// Every message to the server is read back from its own kind byte.
pub proof fn lemma_server_code_round_trip(message: MessageToServer)
    ensures
        MessageToServer::of_code(message.code()) == Some(message),
{
}

/// Why a message could not be read. Each of these ends the connection that
/// the message came over, and no other.
#[derive(Copy, Clone, Eq, PartialEq, Debug, Structural)]
pub enum DecodeError {
    /// The kind byte names no message.
    UnknownKind(u8),
    /// The payload is shorter than its kind asks for.
    Truncated,
    /// The payload should be text and is no UTF-8.
    NotText,
    /// A piece of the pile text is no card token.
    BadCardToken,
}

/// The number of bytes that a count takes on the wire.
pub const COUNT_BYTES: usize = 8;

/// `std::str::from_utf8`: the text that the bytes encode, where they are
/// well-formed UTF-8, and nothing where they are not.
#[verifier::external_body]
fn text_of_utf8(bytes: &[u8]) -> (text: Option<&str>)
    ensures
        text is Some <==> valid_utf8(bytes@),
        text matches Some(t) ==> t@ == decode_utf8(bytes@),
{
    std::str::from_utf8(bytes).ok()
}

/// The pile that a payload of pile text encodes.
pub open spec fn cards_of_payload(payload: Seq<u8>) -> Result<Seq<Card>, DecodeError> {
    if !valid_utf8(payload) {
        Err(DecodeError::NotText)
    } else {
        match pile_of(decode_utf8(payload)) {
            Some(cards) => Ok(cards),
            None => Err(DecodeError::BadCardToken),
        }
    }
}

/// The payload that encodes a pile: its text as UTF-8.
pub open spec fn payload_of_cards(cards: Seq<Card>) -> Seq<u8> {
    encode_utf8(text_of(cards))
}

/// Reads a payload of pile text.
pub fn decode_cards(payload: &[u8]) -> (pile: Result<Pile, DecodeError>)
    ensures
        pile matches Ok(p) ==> cards_of_payload(payload@) == Ok::<Seq<Card>, DecodeError>(p@),
        pile matches Err(e) ==> cards_of_payload(payload@) == Err::<Seq<Card>, DecodeError>(e),
{
    match text_of_utf8(payload) {
        None => Err(DecodeError::NotText),
        Some(text) => match decode_pile(text) {
            Some(pile) => Ok(pile),
            None => Err(DecodeError::BadCardToken),
        },
    }
}

/// Writes a pile as a payload of pile text.
pub fn encode_cards(pile: &Pile) -> (payload: Vec<u8>)
    ensures
        payload@ == payload_of_cards(pile@),
{
    let text = pile.to_string();
    text.as_str().as_bytes_vec()
}

/// A pile is read back from its own payload.
pub proof fn lemma_payload_round_trip(cards: Seq<Card>)
    ensures
        cards_of_payload(payload_of_cards(cards)) == Ok::<Seq<Card>, DecodeError>(cards),
{
    let text = text_of(cards);
    vstd::utf8::encode_utf8_valid_utf8(text);
    vstd::utf8::encode_utf8_decode_utf8(text);
    crate::pile::lemma_pile_text_round_trip(cards);
}

/// The payload that encodes a count: eight bytes, the lowest first.
pub open spec fn payload_of_count(count: u64) -> Seq<u8> {
    spec_u64_to_le_bytes(count)
}

/// The count that the first eight bytes of a payload encode.
pub open spec fn count_of_payload(payload: Seq<u8>) -> Result<u64, DecodeError> {
    if payload.len() < COUNT_BYTES {
        Err(DecodeError::Truncated)
    } else {
        Ok(spec_u64_from_le_bytes(payload.take(COUNT_BYTES as int)))
    }
}

/// Writes a count as a payload.
pub fn encode_count(count: u64) -> (payload: Vec<u8>)
    ensures
        payload@ == payload_of_count(count),
        payload@.len() == COUNT_BYTES,
{
    u64_to_le_bytes(count)
}

/// Reads the count at the start of a payload.
pub fn decode_count(payload: &[u8]) -> (count: Result<u64, DecodeError>)
    ensures
        count == count_of_payload(payload@),
{
    if payload.len() < COUNT_BYTES {
        return Err(DecodeError::Truncated);
    }
    let head = vstd::slice::slice_subrange(payload, 0, COUNT_BYTES);
    assert(head@ =~= payload@.take(COUNT_BYTES as int));
    Ok(u64_from_le_bytes(head))
}

/// A count is read back from its own payload, whatever follows it.
pub proof fn lemma_count_round_trip(count: u64, rest: Seq<u8>)
    ensures
        count_of_payload(payload_of_count(count) + rest) == Ok::<u64, DecodeError>(count),
        payload_of_count(count).len() == COUNT_BYTES,
{
    vstd::bytes::lemma_auto_spec_u64_to_from_le_bytes();
    let bytes = payload_of_count(count);
    assert((bytes + rest).take(COUNT_BYTES as int) =~= bytes);
}

} // verus!
