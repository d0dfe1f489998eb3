use cardpack::{Named, Pack};
use digital_cards::card::{Card, Rank, Suit};
use digital_cards::pile::{decode_pile, Pile};
use digital_cards::{format_pile, parse_card, parse_pile};

fn card(token: &str) -> Card {
    parse_card(token).unwrap()
}

fn pile(tokens: &[&str]) -> Pile {
    Pile::from_vector(tokens.iter().map(|token| card(token)).collect())
}

fn rank_of(name: &str) -> Rank {
    match name {
        "two" => Rank::Two,
        "three" => Rank::Three,
        "four" => Rank::Four,
        "five" => Rank::Five,
        "six" => Rank::Six,
        "seven" => Rank::Seven,
        "eight" => Rank::Eight,
        "nine" => Rank::Nine,
        "ten" => Rank::Ten,
        "jack" => Rank::Jack,
        "queen" => Rank::Queen,
        "king" => Rank::King,
        "ace" => Rank::Ace,
        other => panic!("no rank of the French deck: {}", other),
    }
}

fn suit_of(name: &str) -> Suit {
    match name {
        "spades" => Suit::Spades,
        "hearts" => Suit::Hearts,
        "diamonds" => Suit::Diamonds,
        "clubs" => Suit::Clubs,
        other => panic!("no suit of the French deck: {}", other),
    }
}

fn same_cards(pile: &cardpack::Pile) -> Vec<Card> {
    pile.cards()
        .iter()
        .map(|card| Card {
            rank: rank_of(card.rank.name.name()),
            suit: suit_of(card.suit.name.name()),
        })
        .collect()
}

#[test]
fn check_pile_parser() {
    let pile = Pack::french_deck().cards().shuffle();
    let parsed_pile = parse_pile(&format!("{}", pile));

    assert_eq!(&same_cards(&pile), &parsed_pile);
}

#[test]
fn pile_text_is_what_cardpack_writes() {
    let theirs = Pack::french_deck().cards().shuffle();
    let ours = Pile::from_vector(same_cards(&theirs));
    assert_eq!(ours.to_string(), format!("{}", theirs));
    assert_eq!(Pile::default().to_string(), format!("{}", cardpack::Pile::default()));
}

#[test]
fn pile_text_is_tokens_between_single_spaces() {
    assert_eq!(pile(&["AS", "TH", "2C"]).to_string(), "AS TH 2C");
    assert_eq!(pile(&["KD"]).to_string(), "KD");
    assert_eq!(Pile::default().to_string(), "");
}

#[test]
fn a_pile_is_read_back_from_its_text() {
    for tokens in [vec![], vec!["QS"], vec!["AS", "AS"], vec!["2C", "3D", "4H", "5S", "TC", "JD"]] {
        let before = pile(&tokens);
        let text = before.to_string();
        assert_eq!(decode_pile(&text), Some(pile(&tokens)));
        assert_eq!(&parse_pile(&text), before.cards());
    }
    let whole = Pile::from_vector(same_cards(&Pack::french_deck().cards().shuffle()));
    assert_eq!(decode_pile(&whole.to_string()).unwrap().cards(), whole.cards());
}

#[test]
fn the_empty_text_is_the_empty_pile() {
    assert_eq!(parse_pile(""), Vec::<Card>::new());
    assert_eq!(decode_pile(""), Some(Pile::default()));
}

#[test]
fn the_lenient_reading_passes_over_what_is_no_token() {
    assert_eq!(parse_pile("AS  KH x 2C"), vec![card("AS"), card("KH"), card("2C")]);
    assert_eq!(parse_pile(" AS"), vec![card("AS")]);
    assert_eq!(parse_pile("AS "), vec![card("AS")]);
    assert_eq!(parse_pile("ASKH"), Vec::<Card>::new());
    assert_eq!(parse_pile("   "), Vec::<Card>::new());
}

#[test]
fn the_strict_reading_refuses_what_is_no_token() {
    assert_eq!(decode_pile("AS KH"), Some(pile(&["AS", "KH"])));
    assert_eq!(decode_pile("AS  KH"), None);
    assert_eq!(decode_pile("AS KH "), None);
    assert_eq!(decode_pile(" AS"), None);
    assert_eq!(decode_pile("A"), None);
    assert_eq!(decode_pile("AS KHX"), None);
    assert_eq!(decode_pile(" "), None);
}

#[test]
fn appending_puts_cards_below() {
    let mut target = pile(&["AS", "2C"]);
    let other = pile(&["KH", "QD"]);
    target.append(&other);
    assert_eq!(target, pile(&["AS", "2C", "KH", "QD"]));
    assert_eq!(other, pile(&["KH", "QD"]));
    target.append(&Pile::default());
    assert_eq!(target.len(), 4);
    target.push(card("3S"));
    assert_eq!(target, pile(&["AS", "2C", "KH", "QD", "3S"]));
}

#[test]
fn drawing_takes_from_the_top() {
    let mut source = pile(&["AS", "2C", "KH", "QD"]);
    let drawn = source.draw(3).unwrap();
    assert_eq!(drawn, pile(&["AS", "2C", "KH"]));
    assert_eq!(source, pile(&["QD"]));
    assert_eq!(source.draw(1), Some(pile(&["QD"])));
    assert!(source.is_empty());
}

#[test]
fn drawing_nothing_or_too_much_draws_nothing() {
    let mut source = pile(&["AS", "2C"]);
    assert_eq!(source.draw(0), None);
    assert_eq!(source.draw(3), None);
    assert_eq!(source, pile(&["AS", "2C"]));
    let mut empty = Pile::default();
    assert_eq!(empty.draw(1), None);
    assert_eq!(empty.draw(0), None);
}

#[test]
fn drawing_is_what_cardpack_draws() {
    let mut theirs = Pack::french_deck().cards().shuffle();
    let mut ours = Pile::from_vector(same_cards(&theirs));
    let their_hand = theirs.draw(17).unwrap();
    let our_hand = ours.draw(17).unwrap();
    assert_eq!(our_hand.cards(), &same_cards(&their_hand));
    assert_eq!(ours.cards(), &same_cards(&theirs));
    assert_eq!(theirs.draw(0).is_none(), ours.draw(0).is_none());
    assert_eq!(theirs.draw(36).is_none(), ours.draw(36).is_none());
}

#[test]
fn taking_empties_the_pile() {
    let mut source = pile(&["AS", "2C"]);
    let all = source.take();
    assert_eq!(all, pile(&["AS", "2C"]));
    assert!(source.is_empty());
    assert_eq!(source.len(), 0);
    assert_eq!(source.take(), Pile::default());
}

#[test]
fn a_copy_holds_the_same_cards() {
    let source = pile(&["AS", "2C", "AS"]);
    assert_eq!(source.clone(), source);
    assert_eq!(Pile::default().clone(), Pile::default());
}

#[test]
fn piles_are_spelled_out_line_by_line() {
    assert_eq!(
        format_pile(pile(&["AS", "TH", "2C"])),
        vec!["Ace of Spades\n", "10 of Hearts\n", "2 of Clubs\n"]
    );
    assert_eq!(format_pile(Pile::default()), Vec::<String>::new());
}
