//! Piles of cards and their wire text: tokens separated by single spaces.

use crate::card::{format_card, Card, Rank, Suit};
use vstd::prelude::*;
use vstd::string::*;

verus! {

/// An ordered run of cards; the first card is the top of the pile.
#[derive(Debug, PartialEq, Eq)]
pub struct Pile {
    cards: Vec<Card>,
}

impl View for Pile {
    type V = Seq<Card>;

    closed spec fn view(&self) -> Seq<Card> {
        self.cards@
    }
}

impl Default for Pile {
    fn default() -> (pile: Pile)
        ensures
            pile@ == Seq::<Card>::empty(),
    {
        Pile { cards: Vec::new() }
    }
}

impl Clone for Pile {
    fn clone(&self) -> (copy: Pile)
        ensures
            copy@ == self@,
    {
        let mut cards: Vec<Card> = Vec::new();
        let mut i: usize = 0;
        while i < self.cards.len()
            invariant
                i <= self.cards.len(),
                cards@ == self.cards@.take(i as int),
            decreases self.cards.len() - i,
        {
            cards.push(self.cards[i]);
            i += 1;
        }
        Pile { cards }
    }
}

impl Pile {
    /// The pile that holds the given cards in the given order.
    pub fn from_vector(v: Vec<Card>) -> (pile: Pile)
        ensures
            pile@ == v@,
    {
        Pile { cards: v }
    }

    /// The cards of the pile, top first.
    pub fn cards(&self) -> (cards: &Vec<Card>)
        ensures
            cards@ == self@,
    {
        &self.cards
    }

    pub fn len(&self) -> (n: usize)
        ensures
            n == self@.len(),
    {
        self.cards.len()
    }

    pub fn is_empty(&self) -> (empty: bool)
        ensures
            empty == (self@.len() == 0),
    {
        self.cards.len() == 0
    }

    /// Puts one card at the bottom of the pile.
    pub fn push(&mut self, elem: Card)
        ensures
            final(self)@ == old(self)@.push(elem),
    {
        self.cards.push(elem);
    }

    /// Puts a copy of every card of `other`, in order, below the cards of
    /// this pile.
    pub fn append(&mut self, other: &Pile)
        ensures
            final(self)@ == old(self)@ + other@,
    {
        let mut i: usize = 0;
        while i < other.cards.len()
            invariant
                i <= other.cards.len(),
                self.cards@ == old(self).cards@ + other.cards@.take(i as int),
            decreases other.cards.len() - i,
        {
            self.cards.push(other.cards[i]);
            i += 1;
        }
    }

    /// Takes the top `x` cards off the pile, in order. Nothing is drawn, and
    /// the pile stays as it is, where `x` is zero or more than the pile holds.
    pub fn draw(&mut self, x: usize) -> (drawn: Option<Pile>)
        ensures
            drawn is Some <==> 1 <= x <= old(self)@.len(),
            drawn matches Some(top) ==> top@ == old(self)@.take(x as int),
            drawn is Some ==> final(self)@ == old(self)@.skip(x as int),
            drawn is None ==> final(self)@ == old(self)@,
    {
        if x > self.cards.len() || x < 1 {
            None
        } else {
            let mut rest = self.cards.split_off(x);
            std::mem::swap(&mut rest, &mut self.cards);
            Some(Pile { cards: rest })
        }
    }

    /// Empties the pile and hands its cards out.
    pub fn take(&mut self) -> (all: Pile)
        ensures
            all@ == old(self)@,
            final(self)@ == Seq::<Card>::empty(),
    {
        let mut cards: Vec<Card> = Vec::new();
        std::mem::swap(&mut cards, &mut self.cards);
        Pile { cards }
    }
}


/// The length of the first token of a text: the characters before its first
/// space, or all of them where it holds no space.
pub open spec fn token_len(text: Seq<char>) -> nat
    decreases text.len(),
{
    if text.len() == 0 || text[0] == ' ' {
        0
    } else {
        1 + token_len(text.drop_first())
    }
}

/// The cards that a text holds. The text is cut at every space; each piece
/// that is a card token gives its card, in order, and each other piece gives
/// nothing.
pub open spec fn cards_of(text: Seq<char>) -> Seq<Card>
    decreases text.len(),
{
    let k = token_len(text) as int;
    let head = match Card::of_token(text.take(k)) {
        Some(card) => seq![card],
        None => Seq::<Card>::empty(),
    };
    if k < text.len() {
        head + cards_of(text.skip(k + 1))
    } else {
        head
    }
}

/// Whether every piece of a text, cut at every space, is a card token.
pub open spec fn all_tokens(text: Seq<char>) -> bool
    decreases text.len(),
{
    let k = token_len(text) as int;
    &&& Card::of_token(text.take(k)) is Some
    &&& k < text.len() ==> all_tokens(text.skip(k + 1))
}

/// The pile that a text encodes: the empty text encodes the empty pile, and
/// a text of card tokens separated by single spaces encodes their cards.
/// No other text encodes a pile.
pub open spec fn pile_of(text: Seq<char>) -> Option<Seq<Card>> {
    if text.len() == 0 {
        Some(Seq::<Card>::empty())
    } else if all_tokens(text) {
        Some(cards_of(text))
    } else {
        None
    }
}

/// The text that encodes a pile: the tokens of its cards, top first, with one
/// space between neighbours.
pub open spec fn text_of(cards: Seq<Card>) -> Seq<char>
    decreases cards.len(),
{
    if cards.len() == 0 {
        Seq::<char>::empty()
    } else if cards.len() == 1 {
        cards[0].token()
    } else {
        cards[0].token() + seq![' '] + text_of(cards.drop_first())
    }
}

proof fn lemma_token_len_found(text: Seq<char>, m: int)
    requires
        0 <= m <= text.len(),
        forall|j: int| 0 <= j < m ==> text[j] != ' ',
        m < text.len() ==> text[m] == ' ',
    ensures
        token_len(text) == m,
    decreases m,
{
    if m > 0 {
        lemma_token_len_found(text.drop_first(), m - 1);
    }
}

/// Cuts the characters at every space and reads each piece as a card token.
/// Returns the cards read and whether every piece was a token.
fn scan(chars: &Vec<char>) -> (out: (Vec<Card>, bool))
    ensures
        out.0@ == cards_of(chars@),
        out.1 == all_tokens(chars@),
{
    let n = chars.len();
    let mut cards: Vec<Card> = Vec::new();
    let mut clean = true;
    let mut start: usize = 0;
    assert(chars@.skip(0) =~= chars@);
    loop
        invariant
            n == chars.len(),
            start <= n,
            cards_of(chars@) == cards@ + cards_of(chars@.skip(start as int)),
            all_tokens(chars@) == (clean && all_tokens(chars@.skip(start as int))),
        decreases n - start,
    {
        let mut end = start;
        while end < n && chars[end] != ' '
            invariant
                n == chars.len(),
                start <= end <= n,
                forall|j: int| start <= j < end ==> chars@[j] != ' ',
            decreases n - end,
        {
            end += 1;
        }
        let ghost rest = chars@.skip(start as int);
        proof {
            lemma_token_len_found(rest, end - start);
            if end < n {
                assert(rest.skip(end - start + 1) =~= chars@.skip(end + 1));
            }
        }
        if end - start == 2 {
            let rank = Rank::from_char(chars[start]);
            let suit = Suit::from_char(chars[start + 1]);
            cards.push(Card { rank, suit });
        } else {
            clean = false;
        }
        if end == n {
            return (cards, clean);
        }
        start = end + 1;
    }
}

proof fn lemma_text_of_push(cards: Seq<Card>, card: Card)
    ensures
        text_of(cards.push(card)) == (if cards.len() == 0 {
            card.token()
        } else {
            text_of(cards) + seq![' '] + card.token()
        }),
    decreases cards.len(),
{
    let more = cards.push(card);
    if cards.len() == 0 {
    } else if cards.len() == 1 {
        assert(more.drop_first() =~= seq![card]);
        assert(text_of(more.drop_first()) == card.token());
    } else {
        lemma_text_of_push(cards.drop_first(), card);
        assert(more.drop_first() =~= cards.drop_first().push(card));
        assert(text_of(more) =~= text_of(cards) + seq![' '] + card.token());
    }
}

/// A pile is read back from its own text: encoding a pile and decoding the
/// text gives the same cards in the same order. This holds of every pile,
/// the empty one too, and of both ways of reading a text.
pub proof fn lemma_pile_text_round_trip(cards: Seq<Card>)
    ensures
        pile_of(text_of(cards)) == Some(cards),
        cards_of(text_of(cards)) == cards,
    decreases cards.len(),
{
    let text = text_of(cards);
    if cards.len() == 0 {
        assert(text.take(0).len() == 0);
        assert(cards_of(text) =~= cards);
    } else {
        let first = cards[0];
        assert(first.rank.token() != ' ' && first.suit.token() != ' ');
        crate::card::lemma_card_token_round_trip(first);
        if cards.len() == 1 {
            lemma_token_len_found(text, 2);
            assert(text.take(2) =~= first.token());
            assert(cards_of(text) =~= cards);
        } else {
            let rest = cards.drop_first();
            lemma_pile_text_round_trip(rest);
            lemma_token_len_found(text, 2);
            assert(text.take(2) =~= first.token());
            assert(text.skip(3) =~= text_of(rest));
            assert(text_of(rest).len() > 0) by {
                if rest.len() > 1 {
                }
            }
            assert(cards_of(text) =~= cards);
        }
    }
}

impl Pile {
    /// The wire text of the pile.
    pub fn to_string(&self) -> (text: String)
        ensures
            text@ == text_of(self@),
    {
        let mut text = String::new();
        let mut i: usize = 0;
        while i < self.cards.len()
            invariant
                i <= self.cards.len(),
                text@ == text_of(self.cards@.take(i as int)),
            decreases self.cards.len() - i,
        {
            let card = self.cards[i];
            proof {
                reveal_strlit(" ");
                lemma_text_of_push(self.cards@.take(i as int), card);
                assert(self.cards@.take(i + 1) =~= self.cards@.take(i as int).push(card));
            }
            if i > 0 {
                text.append(" ");
            }
            text.append(card.rank.token_str());
            text.append(card.suit.token_str());
            assert(text@ =~= text_of(self.cards@.take(i + 1)));
            i += 1;
        }
        assert(self.cards@.take(self.cards.len() as int) =~= self.cards@);
        text
    }
}

/// Reads the cards out of a text, leniently: the text is cut at every space,
/// and a piece that is no card token is passed over.
pub fn parse_pile(input: &str) -> (cards: Vec<Card>)
    ensures
        cards@ == cards_of(input@),
{
    let chars = chars_of(input);
    scan(&chars).0
}

/// Decodes the wire text of a pile, strictly: apart from the empty text,
/// every piece between spaces must be a card token.
pub fn decode_pile(input: &str) -> (pile: Option<Pile>)
    ensures
        pile is Some <==> pile_of(input@) is Some,
        pile matches Some(p) ==> Some(p@) == pile_of(input@),
{
    let chars = chars_of(input);
    if chars.len() == 0 {
        return Some(Pile { cards: Vec::new() });
    }
    let (cards, clean) = scan(&chars);
    if clean {
        Some(Pile { cards })
    } else {
        None
    }
}

/// Spells out every card of a pile for display, one line each.
pub fn format_pile(p: Pile) -> (lines: Vec<String>)
    ensures
        lines@.len() == p@.len(),
        forall|i: int| 0 <= i < p@.len() ==> (#[trigger] lines@[i])@ == p@[i].name() + "\n"@,
{
    let mut lines: Vec<String> = Vec::new();
    let mut i: usize = 0;
    while i < p.cards.len()
        invariant
            i <= p.cards.len(),
            lines@.len() == i,
            forall|j: int| 0 <= j < i ==> (#[trigger] lines@[j])@ == p.cards@[j].name() + "\n"@,
        decreases p.cards.len() - i,
    {
        let mut line = format_card(&p.cards[i]);
        line.append("\n");
        lines.push(line);
        i += 1;
    }
    lines
}

/// The characters of a text, one by one.
fn chars_of(text: &str) -> (chars: Vec<char>)
    ensures
        chars@ == text@,
{
    let mut chars: Vec<char> = Vec::new();
    for c in iter: text.chars()
        invariant
            iter.seq() == text@,
            chars@ == iter.seq().take(iter.index() as int),
    {
        chars.push(c);
    }
    chars
}

} // verus!
