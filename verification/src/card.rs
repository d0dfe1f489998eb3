//! Cards of the French deck and their two-character wire tokens.

use vstd::prelude::*;
use vstd::string::*;

verus! {

/// The thirteen ranks, lowest first.
#[derive(Clone, Copy, Debug, PartialEq, Eq, Hash, Structural)]
pub enum Rank {
    Two,
    Three,
    Four,
    Five,
    Six,
    Seven,
    Eight,
    Nine,
    Ten,
    Jack,
    Queen,
    King,
    Ace,
}

/// The four suits, highest first.
#[derive(Clone, Copy, Debug, PartialEq, Eq, Hash, Structural)]
pub enum Suit {
    Spades,
    Hearts,
    Diamonds,
    Clubs,
}

/// A playing card.
#[derive(Clone, Copy, Debug, PartialEq, Eq, Hash, Structural)]
pub struct Card {
    pub rank: Rank,
    pub suit: Suit,
}

impl Rank {
    /// The character that stands for this rank in a token.
    pub open spec fn token(self) -> char {
        match self {
            Rank::Two => '2',
            Rank::Three => '3',
            Rank::Four => '4',
            Rank::Five => '5',
            Rank::Six => '6',
            Rank::Seven => '7',
            Rank::Eight => '8',
            Rank::Nine => '9',
            Rank::Ten => 'T',
            Rank::Jack => 'J',
            Rank::Queen => 'Q',
            Rank::King => 'K',
            Rank::Ace => 'A',
        }
    }

    /// The rank that a token character stands for; any character that names
    /// no other rank reads as an ace.
    pub open spec fn of_token(c: char) -> Rank {
        if c == '2' {
            Rank::Two
        } else if c == '3' {
            Rank::Three
        } else if c == '4' {
            Rank::Four
        } else if c == '5' {
            Rank::Five
        } else if c == '6' {
            Rank::Six
        } else if c == '7' {
            Rank::Seven
        } else if c == '8' {
            Rank::Eight
        } else if c == '9' {
            Rank::Nine
        } else if c == 'T' {
            Rank::Ten
        } else if c == 'J' {
            Rank::Jack
        } else if c == 'Q' {
            Rank::Queen
        } else if c == 'K' {
            Rank::King
        } else {
            Rank::Ace
        }
    }

    /// Reads a rank off its token character.
    pub fn from_char(c: char) -> (rank: Rank)
        ensures
            rank == Rank::of_token(c),
    {
        match c {
            '2' => Rank::Two,
            '3' => Rank::Three,
            '4' => Rank::Four,
            '5' => Rank::Five,
            '6' => Rank::Six,
            '7' => Rank::Seven,
            '8' => Rank::Eight,
            '9' => Rank::Nine,
            'T' => Rank::Ten,
            'J' => Rank::Jack,
            'Q' => Rank::Queen,
            'K' => Rank::King,
            _ => Rank::Ace,
        }
    }
}


impl Suit {
    /// The character that stands for this suit in a token.
    pub open spec fn token(self) -> char {
        match self {
            Suit::Spades => 'S',
            Suit::Hearts => 'H',
            Suit::Diamonds => 'D',
            Suit::Clubs => 'C',
        }
    }

    /// The suit that a token character stands for; any character that names
    /// no other suit reads as diamonds.
    pub open spec fn of_token(c: char) -> Suit {
        if c == 'S' {
            Suit::Spades
        } else if c == 'C' {
            Suit::Clubs
        } else if c == 'H' {
            Suit::Hearts
        } else {
            Suit::Diamonds
        }
    }

    /// Reads a suit off its token character.
    pub fn from_char(c: char) -> (suit: Suit)
        ensures
            suit == Suit::of_token(c),
    {
        match c {
            'S' => Suit::Spades,
            'C' => Suit::Clubs,
            'H' => Suit::Hearts,
            _ => Suit::Diamonds,
        }
    }
}

impl Card {
    /// The two-character token of this card: rank, then suit.
    pub open spec fn token(self) -> Seq<char> {
        seq![self.rank.token(), self.suit.token()]
    }

    /// The card that a token stands for. A token is exactly two characters.
    pub open spec fn of_token(token: Seq<char>) -> Option<Card> {
        if token.len() == 2 {
            Some(Card { rank: Rank::of_token(token[0]), suit: Suit::of_token(token[1]) })
        } else {
            None
        }
    }
}

/// Reads one card token. A text of exactly two characters is a card: the
/// first character gives the rank, the second the suit, each with its
/// default where the character names none. Any other text is no card.
pub fn parse_card(card: &str) -> (parsed: Option<Card>)
    ensures
        parsed == Card::of_token(card@),
{
    if card.unicode_len() == 2 {
        let rank = Rank::from_char(card.get_char(0));
        let suit = Suit::from_char(card.get_char(1));
        Some(Card { rank, suit })
    } else {
        None
    }
}

impl Rank {
    /// The name of this rank as it is shown to a player.
    pub open spec fn name(self) -> Seq<char> {
        match self {
            Rank::Two => "2"@,
            Rank::Three => "3"@,
            Rank::Four => "4"@,
            Rank::Five => "5"@,
            Rank::Six => "6"@,
            Rank::Seven => "7"@,
            Rank::Eight => "8"@,
            Rank::Nine => "9"@,
            Rank::Ten => "10"@,
            Rank::Jack => "Jack"@,
            Rank::Queen => "Queen"@,
            Rank::King => "King"@,
            Rank::Ace => "Ace"@,
        }
    }

    /// The name of this rank as it is shown to a player.
    pub fn long_name(self) -> (name: &'static str)
        ensures
            name@ == self.name(),
    {
        match self {
            Rank::Two => "2",
            Rank::Three => "3",
            Rank::Four => "4",
            Rank::Five => "5",
            Rank::Six => "6",
            Rank::Seven => "7",
            Rank::Eight => "8",
            Rank::Nine => "9",
            Rank::Ten => "10",
            Rank::Jack => "Jack",
            Rank::Queen => "Queen",
            Rank::King => "King",
            Rank::Ace => "Ace",
        }
    }
}

impl Suit {
    /// The name of this suit as it is shown to a player.
    pub open spec fn name(self) -> Seq<char> {
        match self {
            Suit::Spades => "Spades"@,
            Suit::Hearts => "Hearts"@,
            Suit::Diamonds => "Diamonds"@,
            Suit::Clubs => "Clubs"@,
        }
    }

    /// The name of this suit as it is shown to a player.
    pub fn long_name(self) -> (name: &'static str)
        ensures
            name@ == self.name(),
    {
        match self {
            Suit::Spades => "Spades",
            Suit::Hearts => "Hearts",
            Suit::Diamonds => "Diamonds",
            Suit::Clubs => "Clubs",
        }
    }
}

impl Rank {
    /// The token character of this rank as a text of its own.
    pub fn token_str(self) -> (text: &'static str)
        ensures
            text@ == seq![self.token()],
    {
        proof {
            reveal_strlit("2");
            reveal_strlit("3");
            reveal_strlit("4");
            reveal_strlit("5");
            reveal_strlit("6");
            reveal_strlit("7");
            reveal_strlit("8");
            reveal_strlit("9");
            reveal_strlit("T");
            reveal_strlit("J");
            reveal_strlit("Q");
            reveal_strlit("K");
            reveal_strlit("A");
        }
        let text = match self {
            Rank::Two => "2",
            Rank::Three => "3",
            Rank::Four => "4",
            Rank::Five => "5",
            Rank::Six => "6",
            Rank::Seven => "7",
            Rank::Eight => "8",
            Rank::Nine => "9",
            Rank::Ten => "T",
            Rank::Jack => "J",
            Rank::Queen => "Q",
            Rank::King => "K",
            Rank::Ace => "A",
        };
        assert(text@ =~= seq![self.token()]);
        text
    }
}

impl Suit {
    /// The token character of this suit as a text of its own.
    pub fn token_str(self) -> (text: &'static str)
        ensures
            text@ == seq![self.token()],
    {
        proof {
            reveal_strlit("S");
            reveal_strlit("H");
            reveal_strlit("D");
            reveal_strlit("C");
        }
        let text = match self {
            Suit::Spades => "S",
            Suit::Hearts => "H",
            Suit::Diamonds => "D",
            Suit::Clubs => "C",
        };
        assert(text@ =~= seq![self.token()]);
        text
    }
}

impl Card {
    /// The card as it is shown to a player, such as `Queen of Hearts`.
    pub open spec fn name(self) -> Seq<char> {
        self.rank.name() + " of "@ + self.suit.name()
    }
}

/// Spells a card out for display: the rank's name, ` of `, the suit's name.
pub fn format_card(card: &Card) -> (text: String)
    ensures
        text@ == card.name(),
{
    let mut text = String::from_str(card.rank.long_name());
    text.append(" of ");
    text.append(card.suit.long_name());
    text
}

/// Every card is read back from its own token.
pub proof fn lemma_card_token_round_trip(card: Card)
    ensures
        Card::of_token(card.token()) == Some(card),
{
}

} // verus!
