//! A turn-based card-game server core: cards and piles with their wire text,
//! a fan-out channel, the rule-engine interface with the Cheat ruleset, and
//! the per-connection protocol handlers.

pub mod card;
pub mod cheat;
pub mod client;
pub mod deck;
pub mod game_type;
pub mod message_parser;
pub mod mpmc;
pub mod pile;
pub mod server;

pub use crate::card::{format_card, parse_card};
pub use crate::message_parser::{MessageToClient, MessageToServer};
pub use crate::pile::{format_pile, parse_pile};

use vstd::prelude::*;
use vstd::string::*;

verus! {

/// The port that the server listens on.
pub const PORT: u16 = 6464;

/// Whether the server is looked for on this machine.
pub const LOCAL_SERVER: bool = false;

/// The time between two polls of a client, in milliseconds.
pub const TPS_TIMER: u64 = 500;

/// The character of a decimal digit.
pub open spec fn digit_char(digit: nat) -> char {
    if digit == 0 {
        '0'
    } else if digit == 1 {
        '1'
    } else if digit == 2 {
        '2'
    } else if digit == 3 {
        '3'
    } else if digit == 4 {
        '4'
    } else if digit == 5 {
        '5'
    } else if digit == 6 {
        '6'
    } else if digit == 7 {
        '7'
    } else if digit == 8 {
        '8'
    } else {
        '9'
    }
}

/// A number written in decimal digits, without leading zeros.
pub open spec fn decimal(n: nat) -> Seq<char>
    decreases n,
{
    if n < 10 {
        seq![digit_char(n)]
    } else {
        decimal(n / 10).push(digit_char(n % 10))
    }
}

/// The host that the server is looked for on, with the colon that goes
/// before the port.
pub open spec fn host_prefix(local: bool) -> Seq<char> {
    if local {
        "127.0.0.1:"@
    } else {
        "139.162.229.144:"@
    }
}

fn digit_str(digit: u16) -> (text: &'static str)
    requires
        digit < 10,
    ensures
        text@ == seq![digit_char(digit as nat)],
{
    proof {
        reveal_strlit("0");
        reveal_strlit("1");
        reveal_strlit("2");
        reveal_strlit("3");
        reveal_strlit("4");
        reveal_strlit("5");
        reveal_strlit("6");
        reveal_strlit("7");
        reveal_strlit("8");
        reveal_strlit("9");
    }
    let text = match digit {
        0 => "0",
        1 => "1",
        2 => "2",
        3 => "3",
        4 => "4",
        5 => "5",
        6 => "6",
        7 => "7",
        8 => "8",
        _ => "9",
    };
    assert(text@ =~= seq![digit_char(digit as nat)]);
    text
}

/// Writes a number in decimal digits at the end of a text.
fn push_decimal(text: &mut String, n: u16)
    ensures
        final(text)@ == old(text)@ + decimal(n as nat),
    decreases n,
{
    if n >= 10 {
        push_decimal(text, n / 10);
    }
    text.append(digit_str(n % 10));
    assert(text@ =~= old(text)@ + decimal(n as nat));
}

/// The address of the server: host, colon, port.
pub fn get_ip() -> (address: String)
    ensures
        address@ == host_prefix(LOCAL_SERVER) + decimal(PORT as nat),
{
    let mut address = if LOCAL_SERVER {
        String::from_str("127.0.0.1:")
    } else {
        String::from_str("139.162.229.144:")
    };
    push_decimal(&mut address, PORT);
    address
}

} // verus!
