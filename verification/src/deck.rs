//! The 52-card deck: where it comes from, and how it is dealt.
//!
//! The deck and its shuffle are `cardpack`'s. A card crosses over as two
//! numbers, the weight of its rank and the weight of its suit: a suit weighs
//! 4, 3, 2 or 1 for spades, hearts, diamonds, clubs, and a rank weighs 12 for
//! the ace down to 0 for the two.

use crate::card::{Card, Rank, Suit};
use crate::pile::Pile;
use vstd::prelude::*;

verus! {

/// The number of cards in the deck.
pub const DECK_SIZE: usize = 52;

/// The card that stays out of every deal, so that the undealt rest is never
/// empty.
pub const RESERVED: usize = 1;

/// The weights of the 52 cards of the French deck: spades, hearts,
/// diamonds, clubs, each from the ace down to the two.
pub open spec fn french_weights() -> Seq<(u32, u32)> {
    Seq::new(52, |i: int| ((12 - i % 13) as u32, (4 - i / 13) as u32))
}

/// `cardpack::Pack::french_deck`, then `cardpack::Pile::shuffle` on its
/// cards: the 52 cards of the French deck in an order drawn at random, read
/// off card by card as the weight of the rank and the weight of the suit.
/// Which order comes is open; the cards are those of the deck, each once.
#[verifier::external_body]
fn shuffled_weights() -> (list: Vec<(u32, u32)>)
    ensures
        list@.to_multiset() == french_weights().to_multiset(),
{
    let mixed = cardpack::Pack::french_deck().cards().shuffle();
    mixed.cards().iter().map(|card| (card.rank.weight, card.suit.weight)).collect()
}

/// The rank of a given weight.
pub open spec fn rank_of_weight(weight: u32) -> Option<Rank> {
    if weight == 0 {
        Some(Rank::Two)
    } else if weight == 1 {
        Some(Rank::Three)
    } else if weight == 2 {
        Some(Rank::Four)
    } else if weight == 3 {
        Some(Rank::Five)
    } else if weight == 4 {
        Some(Rank::Six)
    } else if weight == 5 {
        Some(Rank::Seven)
    } else if weight == 6 {
        Some(Rank::Eight)
    } else if weight == 7 {
        Some(Rank::Nine)
    } else if weight == 8 {
        Some(Rank::Ten)
    } else if weight == 9 {
        Some(Rank::Jack)
    } else if weight == 10 {
        Some(Rank::Queen)
    } else if weight == 11 {
        Some(Rank::King)
    } else if weight == 12 {
        Some(Rank::Ace)
    } else {
        None
    }
}

/// The suit of a given weight.
pub open spec fn suit_of_weight(weight: u32) -> Option<Suit> {
    if weight == 4 {
        Some(Suit::Spades)
    } else if weight == 3 {
        Some(Suit::Hearts)
    } else if weight == 2 {
        Some(Suit::Diamonds)
    } else if weight == 1 {
        Some(Suit::Clubs)
    } else {
        None
    }
}

/// The card of a given pair of weights, rank first.
pub open spec fn card_of_weights(pair: (u32, u32)) -> Option<Card> {
    match (rank_of_weight(pair.0), suit_of_weight(pair.1)) {
        (Some(rank), Some(suit)) => Some(Card { rank, suit }),
        _ => None,
    }
}

/// The 52 cards of the deck in their factory order: spades, hearts,
/// diamonds, clubs, each from the ace down to the two.
pub open spec fn standard_deck() -> Seq<Card> {
    french_weights().map_values(|pair: (u32, u32)| card_of_weights(pair).unwrap())
}

/// Whether these cards are the whole deck, each card once, in any order.
pub open spec fn is_full_deck(cards: Seq<Card>) -> bool {
    cards.to_multiset() == standard_deck().to_multiset()
}

fn rank_from_weight(weight: u32) -> (rank: Option<Rank>)
    ensures
        rank == rank_of_weight(weight),
{
    match weight {
        0 => Some(Rank::Two),
        1 => Some(Rank::Three),
        2 => Some(Rank::Four),
        3 => Some(Rank::Five),
        4 => Some(Rank::Six),
        5 => Some(Rank::Seven),
        6 => Some(Rank::Eight),
        7 => Some(Rank::Nine),
        8 => Some(Rank::Ten),
        9 => Some(Rank::Jack),
        10 => Some(Rank::Queen),
        11 => Some(Rank::King),
        12 => Some(Rank::Ace),
        _ => None,
    }
}

fn suit_from_weight(weight: u32) -> (suit: Option<Suit>)
    ensures
        suit == suit_of_weight(weight),
{
    match weight {
        4 => Some(Suit::Spades),
        3 => Some(Suit::Hearts),
        2 => Some(Suit::Diamonds),
        1 => Some(Suit::Clubs),
        _ => None,
    }
}

/// The card with the given weights, where there is one.
pub fn card_from_weights(rank_weight: u32, suit_weight: u32) -> (card: Option<Card>)
    ensures
        card == card_of_weights((rank_weight, suit_weight)),
{
    match (rank_from_weight(rank_weight), suit_from_weight(suit_weight)) {
        (Some(rank), Some(suit)) => Some(Card { rank, suit }),
        _ => None,
    }
}

/// Two sequences with the same members, counted, still have the same
/// members after one function is applied to every member of both.
proof fn lemma_map_keeps_members<A, B>(a: Seq<A>, b: Seq<A>, f: spec_fn(A) -> B)
    requires
        a.to_multiset() == b.to_multiset(),
    ensures
        a.map_values(f).to_multiset() == b.map_values(f).to_multiset(),
    decreases a.len(),
{
    vstd::seq_lib::to_multiset_len(a);
    vstd::seq_lib::to_multiset_len(b);
    if a.len() == 0 {
        assert(a.map_values(f) =~= b.map_values(f));
    } else {
        let x = a.last();
        let shorter = a.drop_last();
        assert(a =~= shorter.push(x));
        assert(a.contains(x));
        vstd::seq_lib::to_multiset_contains(a, x);
        vstd::seq_lib::to_multiset_contains(b, x);
        let j = choose|j: int| 0 <= j < b.len() && b[j] == x;
        let without = b.remove(j);
        vstd::seq_lib::to_multiset_build(shorter, x);
        vstd::seq_lib::to_multiset_remove(b, j);
        assert(shorter.to_multiset() =~= a.to_multiset().remove(x));
        lemma_map_keeps_members(shorter, without, f);
        let mapped = b.map_values(f);
        assert(a.map_values(f) =~= shorter.map_values(f).push(f(x)));
        assert(mapped.remove(j) =~= without.map_values(f));
        vstd::seq_lib::to_multiset_build(shorter.map_values(f), f(x));
        vstd::seq_lib::to_multiset_remove(mapped, j);
        assert(mapped.contains(mapped[j]));
        vstd::seq_lib::to_multiset_contains(mapped, f(x));
        assert(mapped.to_multiset() =~= without.map_values(f).to_multiset().insert(f(x)));
    }
}

/// Every member of a shuffled French deck is a pair of weights of a card.
proof fn lemma_shuffled_weights_are_cards(list: Seq<(u32, u32)>, i: int)
    requires
        list.to_multiset() == french_weights().to_multiset(),
        0 <= i < list.len(),
    ensures
        card_of_weights(list[i]) is Some,
{
    assert(list.contains(list[i]));
    vstd::seq_lib::to_multiset_contains(list, list[i]);
    vstd::seq_lib::to_multiset_contains(french_weights(), list[i]);
    let j = choose|j: int| 0 <= j < french_weights().len() && french_weights()[j] == list[i];
    assert(0 <= j < 52);
}

/// A full deck in an order drawn at random. Which order comes is open; every
/// card of the deck is in it exactly once.
pub fn shuffled_deck() -> (deck: Pile)
    ensures
        is_full_deck(deck@),
        deck@.len() == DECK_SIZE,
{
    let list = shuffled_weights();
    let ghost to_card = |pair: (u32, u32)| card_of_weights(pair).unwrap();
    let mut cards: Vec<Card> = Vec::new();
    let mut i: usize = 0;
    while i < list.len()
        invariant
            i <= list.len(),
            list@.to_multiset() == french_weights().to_multiset(),
            forall|pair: (u32, u32)| #[trigger] to_card(pair) == card_of_weights(pair).unwrap(),
            cards@ == list@.take(i as int).map_values(to_card),
        decreases list.len() - i,
    {
        proof {
            lemma_shuffled_weights_are_cards(list@, i as int);
        }
        let pair = list[i];
        assert(pair == (pair.0, pair.1));
        match card_from_weights(pair.0, pair.1) {
            Some(card) => {
                cards.push(card);
            },
            None => {
                unreached::<()>();
            },
        }
        assert(cards@ =~= list@.take(i + 1).map_values(to_card));
        i += 1;
    }
    proof {
        assert(list@.take(list.len() as int) =~= list@);
        lemma_map_keeps_members(list@, french_weights(), to_card);
        vstd::seq_lib::to_multiset_len(list@);
        vstd::seq_lib::to_multiset_len(french_weights());
    }
    Pile::from_vector(cards)
}


/// How many cards each player is dealt: the deck without its reserved card,
/// shared out evenly, rounded down.
pub open spec fn cards_per_player(players: nat) -> nat {
    if players == 0 {
        0
    } else {
        ((DECK_SIZE - RESERVED) / (players as int)) as nat
    }
}

/// Whether `hands` and `rest` are `deck` dealt to as many players as there
/// are hands: every hand the next `cards_per_player` cards from the top of
/// the deck, and the rest what is left below them.
pub open spec fn is_deal(deck: Seq<Card>, hands: Seq<Pile>, rest: Seq<Card>) -> bool {
    let share = cards_per_player(hands.len()) as int;
    &&& forall|i: int|
        0 <= i < hands.len() ==> (#[trigger] hands[i])@ == deck.subrange(
            i * share,
            (i + 1) * share,
        )
    &&& rest == deck.skip(hands.len() * share)
}

/// A deal never uses up the deck: however many players there are, at least
/// the reserved card is left.
pub proof fn lemma_deal_leaves_cards(players: nat)
    ensures
        players * cards_per_player(players) + RESERVED <= DECK_SIZE,
{
    let n = players as int;
    if n > 0 {
        assert(n * (51int / n) <= 51) by (nonlinear_arith)
            requires
                n > 0,
        ;
    }
}

/// The number of cards dealt to each of `players` players.
pub fn share_of(players: usize) -> (share: usize)
    ensures
        share == cards_per_player(players as nat),
{
    if players == 0 {
        return 0;
    }
    let spare = DECK_SIZE - RESERVED;
    assert(spare as int % players as int <= spare) by (nonlinear_arith)
        requires
            players > 0,
    ;
    assert((spare - (spare as int % players as int)) / (players as int) == spare as int / (
    players as int)) by (nonlinear_arith)
        requires
            players > 0,
            spare == 51,
    ;
    (spare - (spare % players)) / players
}

/// Deals a full deck to `players` players from the top, hand by hand, and
/// returns the hands with what is left of the deck.
pub fn deal(deck: Pile, players: usize) -> (dealt: (Vec<Pile>, Pile))
    requires
        deck@.len() == DECK_SIZE,
    ensures
        dealt.0@.len() == players,
        is_deal(deck@, dealt.0@, dealt.1@),
        dealt.1@.len() >= RESERVED,
{
    let share = share_of(players);
    let ghost whole = deck@;
    let mut deck = deck;
    let mut hands: Vec<Pile> = Vec::new();
    let mut i: usize = 0;
    proof {
        lemma_deal_leaves_cards(players as nat);
        assert(whole.skip(0) =~= whole);
    }
    while i < players
        invariant
            i <= players,
            whole.len() == DECK_SIZE,
            share == cards_per_player(players as nat),
            players * share + RESERVED <= DECK_SIZE,
            hands@.len() == i,
            deck@ == whole.skip(i * share),
            forall|j: int|
                0 <= j < i ==> (#[trigger] hands@[j])@ == whole.subrange(j * share, (j + 1) * share),
        decreases players - i,
    {
        proof {
            assert((i + 1) * share <= players * share) by (nonlinear_arith)
                requires
                    i < players,
                    share >= 0,
            ;
            assert((i + 1) * share == i * share + share) by (nonlinear_arith);
        }
        let hand = if share == 0 {
            Pile::default()
        } else {
            match deck.draw(share) {
                Some(top) => top,
                None => unreached(),
            }
        };
        proof {
            assert(hand@ =~= whole.subrange(i * share, (i + 1) * share));
            assert(deck@ =~= whole.skip((i + 1) * share));
        }
        hands.push(hand);
        i += 1;
    }
    (hands, deck)
}

} // verus!
