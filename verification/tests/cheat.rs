use digital_cards::card::{Card, Rank, Suit};
use digital_cards::cheat::{Cheat, ADD_CARDS, CALL_CHEAT, CHEAT_ADD_CARDS};
use digital_cards::deck::{card_from_weights, deal, share_of, shuffled_deck, DECK_SIZE, RESERVED};
use digital_cards::game_type::{GSADataTaken, GSAResult, Game, GamePlaying, HandOut};
use digital_cards::mpmc::BroadcastChannel;
use digital_cards::parse_card;
use digital_cards::pile::Pile;
use std::collections::HashSet;

fn factory_deck() -> Pile {
    let mut cards = Vec::new();
    for suit in [Suit::Spades, Suit::Hearts, Suit::Diamonds, Suit::Clubs] {
        for rank in [
            Rank::Ace,
            Rank::King,
            Rank::Queen,
            Rank::Jack,
            Rank::Ten,
            Rank::Nine,
            Rank::Eight,
            Rank::Seven,
            Rank::Six,
            Rank::Five,
            Rank::Four,
            Rank::Three,
            Rank::Two,
        ] {
            cards.push(Card { rank, suit });
        }
    }
    Pile::from_vector(cards)
}

fn pile(tokens: &[&str]) -> Pile {
    Pile::from_vector(tokens.iter().map(|token| parse_card(token).unwrap()).collect())
}

fn seated(players: usize) -> Cheat {
    let mut game = Cheat::default();
    for seat in 0..players {
        assert_eq!(game.subscribe(), Some(seat));
    }
    game
}

fn started(players: usize) -> Cheat {
    let mut game = seated(players);
    let mut channel = BroadcastChannel::new();
    assert!(game.start(&mut channel).is_some());
    game
}

fn turn_of(game: &Cheat, players: usize) -> usize {
    let holders: Vec<usize> =
        (0..players).filter(|seat| game.gsas_fufilled(*seat) & ADD_CARDS != 0).collect();
    assert_eq!(holders.len(), 1);
    holders[0]
}

#[test]
fn weights_name_cards() {
    assert_eq!(card_from_weights(12, 4), Some(Card { rank: Rank::Ace, suit: Suit::Spades }));
    assert_eq!(card_from_weights(0, 1), Some(Card { rank: Rank::Two, suit: Suit::Clubs }));
    assert_eq!(card_from_weights(8, 3), Some(Card { rank: Rank::Ten, suit: Suit::Hearts }));
    assert_eq!(card_from_weights(11, 2), Some(Card { rank: Rank::King, suit: Suit::Diamonds }));
    assert_eq!(card_from_weights(13, 4), None);
    assert_eq!(card_from_weights(12, 0), None);
    assert_eq!(card_from_weights(12, 5), None);
}

#[test]
fn a_shuffled_deck_holds_every_card_once() {
    let deck = shuffled_deck();
    assert_eq!(deck.len(), 52);
    let distinct: HashSet<Card> = deck.cards().iter().copied().collect();
    assert_eq!(distinct.len(), 52);
    let expected: HashSet<Card> = factory_deck().cards().iter().copied().collect();
    assert_eq!(distinct, expected);
}

#[test]
fn a_shuffled_deck_is_shuffled() {
    let first = shuffled_deck();
    let second = shuffled_deck();
    assert_ne!(first, factory_deck());
    assert_ne!(first, second);
}

#[test]
fn shares_round_down_with_one_card_held_back() {
    assert_eq!(DECK_SIZE, 52);
    assert_eq!(RESERVED, 1);
    assert_eq!(share_of(1), 51);
    assert_eq!(share_of(2), 25);
    assert_eq!(share_of(3), 17);
    assert_eq!(share_of(4), 12);
    assert_eq!(share_of(5), 10);
    assert_eq!(share_of(6), 8);
    assert_eq!(share_of(7), 7);
    assert_eq!(share_of(51), 1);
    assert_eq!(share_of(52), 0);
    assert_eq!(share_of(1000), 0);
}

#[test]
fn dealing_hands_out_the_top_of_the_deck_in_order() {
    for (players, share, left) in [(3, 17, 1), (4, 12, 4), (5, 10, 2), (6, 8, 4), (7, 7, 3)] {
        let deck = factory_deck();
        let (hands, rest) = deal(factory_deck(), players);
        assert_eq!(hands.len(), players);
        for (seat, hand) in hands.iter().enumerate() {
            assert_eq!(hand.len(), share);
            assert_eq!(hand.cards()[..], deck.cards()[seat * share..(seat + 1) * share]);
        }
        assert_eq!(rest.len(), left);
        assert_eq!(rest.cards()[..], deck.cards()[players * share..]);
    }
}

#[test]
fn dealing_to_a_crowd_gives_empty_hands() {
    let (hands, rest) = deal(factory_deck(), 60);
    assert_eq!(hands.len(), 60);
    assert!(hands.iter().all(|hand| hand.is_empty()));
    assert_eq!(rest, factory_deck());
}

#[test]
fn the_ruleset_says_what_it_is() {
    assert_eq!(Cheat::MIN_PLAYERS, 3);
    assert_eq!(Cheat::GSAS, 3);
    assert!(Cheat::DEALER_PILE_HIDDEN);
    let game = Cheat::default();
    assert!(game.hidden_pile_self());
    assert_eq!(game.gsa_number(), 3);
    let names = game.gsa_names();
    assert_eq!(names.len(), 3);
    assert_eq!(names[0], ("Add cards to pile", GSADataTaken::TakeCards));
    assert_eq!(names[1], ("Cheat Add cards to pile", GSADataTaken::TakeCards));
    assert_eq!(names[2], ("Call Cheat", GSADataTaken::Nothing));
    assert_eq!(Cheat::gsa_names_static(), names);
}

#[test]
fn seats_count_up_until_the_start() {
    let mut game = Cheat::default();
    assert!(!game.has_started());
    assert_eq!(game.subscribe(), Some(0));
    assert_eq!(game.subscribe(), Some(1));
    assert_eq!(game.subscribe(), Some(2));
    let mut channel = BroadcastChannel::new();
    assert!(game.start(&mut channel).is_some());
    assert!(game.has_started());
    assert_eq!(game.subscribe(), None);
    assert_eq!(game.subscribe(), None);
}

#[test]
fn the_game_does_not_start_short_of_players() {
    for players in 0..3 {
        let mut game = seated(players);
        let mut channel: BroadcastChannel<HandOut> = BroadcastChannel::new();
        let watcher = channel.subscribe();
        assert!(game.start(&mut channel).is_none());
        assert!(!game.has_started());
        assert!(channel.receive(watcher).is_empty());
        assert_eq!(game.subscribe(), Some(players));
    }
}

#[test]
fn the_game_starts_once() {
    let mut game = seated(3);
    let mut channel: BroadcastChannel<HandOut> = BroadcastChannel::new();
    let watcher = channel.subscribe();
    assert!(game.start(&mut channel).is_some());
    assert_eq!(channel.receive(watcher).len(), 1);
    assert!(game.start(&mut channel).is_none());
    assert!(channel.receive(watcher).is_empty());
    assert!(game.has_started());
}

#[test]
fn starting_deals_a_whole_deck() {
    for (players, share, left) in [(3, 17, 1), (4, 12, 4), (5, 10, 2), (6, 8, 4), (7, 7, 3)] {
        let mut game = seated(players);
        let mut channel: BroadcastChannel<HandOut> = BroadcastChannel::new();
        let watcher = channel.subscribe();
        let rest = game.start(&mut channel).unwrap();
        assert_eq!(rest.len(), left);
        let mut messages = channel.receive(watcher);
        assert_eq!(messages.len(), 1);
        let message = messages.remove(0);
        assert!(message.is_start);
        assert_eq!(message.hands.len(), players);
        let mut seen: HashSet<Card> = rest.cards().iter().copied().collect();
        for hand in &message.hands {
            assert_eq!(hand.len(), share);
            seen.extend(hand.cards().iter().copied());
        }
        assert_eq!(seen.len(), 52);
        assert!(game.dealer_pile().is_empty());
    }
}

#[test]
fn the_shared_pile_can_be_replaced() {
    let mut game = seated(3);
    assert!(game.dealer_pile().is_empty());
    let before = game.replace_dealer_pile(pile(&["AS", "KH"]));
    assert!(before.is_empty());
    assert_eq!(game.dealer_pile(), &pile(&["AS", "KH"]));
    let before = game.replace_dealer_pile(Pile::default());
    assert_eq!(before, pile(&["AS", "KH"]));
}

#[test]
fn adding_cards_passes_the_turn_on() {
    let mut game = started(3);
    assert_eq!(turn_of(&game, 3), 0);
    assert!(matches!(game.gsa_1(0, pile(&["AS"])), GSAResult::Nothing));
    assert_eq!(turn_of(&game, 3), 1);
    assert!(matches!(game.gsa_2(1, pile(&["KH", "QD"])), GSAResult::Nothing));
    assert_eq!(turn_of(&game, 3), 2);
    assert_eq!(game.dealer_pile(), &pile(&["AS", "KH", "QD"]));
    assert!(matches!(game.gsa_1(2, Pile::default()), GSAResult::Nothing));
    assert_eq!(turn_of(&game, 3), 0);
}

#[test]
fn the_turn_comes_round_whoever_moves() {
    for players in 3..8 {
        let mut game = started(players);
        let _ = game.gsa_1(0, pile(&["AS"]));
        let start = turn_of(&game, players);
        assert_eq!(start, 1);
        for step in 0..players {
            let _ = game.gsa_1(step % 2, pile(&["2C"]));
        }
        assert_eq!(turn_of(&game, players), start);
    }
}

#[test]
fn a_called_cheat_goes_to_the_player_before_the_turn() {
    let mut game = started(4);
    let _ = game.gsa_1(0, pile(&["AS"]));
    let _ = game.gsa_2(1, pile(&["KH"]));
    assert_eq!(turn_of(&game, 4), 2);
    assert_eq!(game.last_player_id(), 1);
    match game.gsa_3(3, ()) {
        GSAResult::PlayerTakesAllCards(taken, winner) => {
            assert_eq!(winner, 1);
            assert_eq!(taken, pile(&["AS", "KH"]));
        },
        GSAResult::Nothing => panic!("the pile goes to somebody"),
    }
    assert!(game.dealer_pile().is_empty());
    assert_eq!(turn_of(&game, 4), 2);
}

#[test]
fn the_last_seat_comes_before_the_first() {
    let mut game = started(3);
    let _ = game.gsa_1(0, pile(&["AS"]));
    let _ = game.gsa_1(1, pile(&["2C"]));
    let _ = game.gsa_2(2, pile(&["KH"]));
    assert_eq!(turn_of(&game, 3), 0);
    assert_eq!(game.last_player_id(), 2);
    match game.gsa_3(1, ()) {
        GSAResult::PlayerTakesAllCards(taken, winner) => {
            assert_eq!(winner, 2);
            assert_eq!(taken.len(), 3);
        },
        GSAResult::Nothing => panic!("the pile goes to somebody"),
    }
}

#[test]
fn a_false_accusation_falls_on_the_caller() {
    for caller in 0..3 {
        let mut game = started(3);
        let _ = game.gsa_1(0, pile(&["AS"]));
        let _ = game.gsa_1(1, pile(&["KH"]));
        match game.gsa_3(caller, ()) {
            GSAResult::PlayerTakesAllCards(taken, winner) => {
                assert_eq!(winner, caller);
                assert_eq!(taken, pile(&["AS", "KH"]));
            },
            GSAResult::Nothing => panic!("the pile goes to somebody"),
        }
        assert!(game.dealer_pile().is_empty());
        assert_eq!(turn_of(&game, 3), 2);
    }
}

#[test]
fn the_record_of_a_cheat_stays() {
    let mut game = started(3);
    let _ = game.gsa_2(0, pile(&["AS"]));
    let _ = game.gsa_1(1, pile(&["KH"]));
    match game.gsa_3(0, ()) {
        GSAResult::PlayerTakesAllCards(_, winner) => assert_eq!(winner, 1),
        GSAResult::Nothing => panic!("the pile goes to somebody"),
    }
    let _ = game.gsa_1(2, pile(&["2C"]));
    match game.gsa_3(1, ()) {
        GSAResult::PlayerTakesAllCards(taken, winner) => {
            assert_eq!(winner, 2);
            assert_eq!(taken, pile(&["2C"]));
        },
        GSAResult::Nothing => panic!("the pile goes to somebody"),
    }
}

#[test]
fn no_action_is_legal_before_the_start() {
    let mut game = seated(3);
    let _ = game.replace_dealer_pile(pile(&["AS"]));
    for seat in 0..5 {
        assert_eq!(game.gsas_fufilled(seat), 0);
    }
}

#[test]
fn the_mask_tells_turn_and_pile() {
    assert_eq!(ADD_CARDS, 0b1000_0000);
    assert_eq!(CHEAT_ADD_CARDS, 0b0100_0000);
    assert_eq!(CALL_CHEAT, 0b0010_0000);
    let mut game = started(3);
    assert_eq!(game.gsas_fufilled(0), 0b1100_0000);
    assert_eq!(game.gsas_fufilled(1), 0);
    assert_eq!(game.gsas_fufilled(2), 0);
    let _ = game.gsa_1(0, pile(&["AS"]));
    assert_eq!(game.gsas_fufilled(0), 0b0010_0000);
    assert_eq!(game.gsas_fufilled(1), 0b1110_0000);
    assert_eq!(game.gsas_fufilled(2), 0b0010_0000);
    assert_eq!(game.gsas_fufilled(99), 0b0010_0000);
    let _ = game.gsa_3(2, ());
    assert_eq!(game.gsas_fufilled(1), 0b1100_0000);
    assert_eq!(game.gsas_fufilled(2), 0);
}

#[test]
fn actions_without_players_leave_the_turn() {
    let mut game = Cheat::default();
    assert!(matches!(game.gsa_1(0, pile(&["AS"])), GSAResult::Nothing));
    assert!(matches!(game.gsa_2(0, pile(&["KH"])), GSAResult::Nothing));
    assert_eq!(game.last_player_id(), 0);
    match game.gsa_3(5, ()) {
        GSAResult::PlayerTakesAllCards(taken, winner) => {
            assert_eq!(winner, 5);
            assert_eq!(taken, pile(&["AS", "KH"]));
        },
        GSAResult::Nothing => panic!("the pile goes to somebody"),
    }
    assert_eq!(game.subscribe(), Some(0));
}

#[test]
fn actions_that_a_ruleset_leaves_out_do_nothing() {
    let mut game = started(3);
    let _ = game.replace_dealer_pile(pile(&["AS"]));
    assert!(matches!(game.gsa_4(0, ()), GSAResult::Nothing));
    assert!(matches!(game.gsa_5(1, ()), GSAResult::Nothing));
    assert_eq!(game.dealer_pile(), &pile(&["AS"]));
    assert_eq!(turn_of(&game, 3), 0);
    assert!(matches!(GSAResult::default(), GSAResult::Nothing));
}

#[test]
fn a_game_in_play_gives_way_to_its_game() {
    let playing: GamePlaying<Cheat> = GamePlaying::default();
    assert!(!playing.has_started());
    assert_eq!(playing.gsa_number(), 3);
    assert!(playing.0.dealer_pile().is_empty());
}
