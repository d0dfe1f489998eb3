use digital_cards::card::Card;
use digital_cards::cheat::Cheat;
use digital_cards::client::{
    action_enabled, can_tick, encode_request, offered_buttons, poll, press_action, split_ticked,
    sync_ticks, ClientState, DealerView, MessageToProcessingThread, Outcome,
};
use digital_cards::game_type::{GSADataData, GSADataTaken, GSAResult, Game, HandOut};
use digital_cards::message_parser::{
    decode_cards, decode_count, encode_cards, encode_count, DecodeError,
};
use digital_cards::parse_card;
use digital_cards::pile::Pile;
use digital_cards::server::{
    decode_request, encode_end, encode_hand, encode_mask, encode_pile_state, encode_started,
    fan_out, take_hand, ConnectionSession, Reply, Request, Server, ServerMessage,
};
use digital_cards::{MessageToClient, MessageToServer, TPS_TIMER};

fn pile(tokens: &[&str]) -> Pile {
    Pile::from_vector(tokens.iter().map(|token| parse_card(token).unwrap()).collect())
}

fn cards(tokens: &[&str]) -> Vec<Card> {
    tokens.iter().map(|token| parse_card(token).unwrap()).collect()
}

fn frame(kind: u8, payload: &[u8]) -> Vec<u8> {
    let mut bytes = vec![kind];
    bytes.extend_from_slice(payload);
    bytes
}

fn sent(reply: Result<Reply, DecodeError>) -> Vec<u8> {
    match reply {
        Ok(Reply::Send(bytes)) => bytes,
        other => panic!("a frame was to be sent, not {:?}", other),
    }
}

fn table(connections: usize) -> (Server<Cheat>, Vec<ConnectionSession>) {
    let mut server = Server::new();
    let sessions = (0..connections).map(|_| server.connect()).collect();
    (server, sessions)
}

fn running(connections: usize) -> (Server<Cheat>, Vec<ConnectionSession>) {
    let (mut server, sessions) = table(connections);
    assert!(matches!(server.handle(&sessions[0], &[3]), Ok(Reply::Nothing)));
    for session in &sessions {
        let _ = server.drain(session);
    }
    (server, sessions)
}

#[test]
fn kind_bytes_are_as_on_the_wire() {
    let to_client = [
        (MessageToClient::ServerEnd, 0),
        (MessageToClient::GameStarting, 10),
        (MessageToClient::SendingCardsToHand, 11),
        (MessageToClient::GameHasStartedState, 12),
        (MessageToClient::CurrentPileFollows, 20),
        (MessageToClient::PileLengthFollows, 21),
        (MessageToClient::GsaConditionsFufilled, 30),
    ];
    for (message, byte) in to_client {
        assert_eq!(message.to_byte(), byte);
        assert_eq!(MessageToClient::try_from(byte), Ok(message));
    }
    let to_server = [
        (MessageToServer::Tick, 0),
        (MessageToServer::Disconnect, 1),
        (MessageToServer::SendCurrentPilePlease, 2),
        (MessageToServer::ReadyToPlay, 3),
        (MessageToServer::HasGameStarted, 4),
        (MessageToServer::GsasFufilled, 5),
        (MessageToServer::GameAction1, 20),
        (MessageToServer::GameAction2, 21),
        (MessageToServer::GameAction3, 22),
        (MessageToServer::GameAction4, 23),
        (MessageToServer::GameAction5, 24),
    ];
    for (message, byte) in to_server {
        assert_eq!(message.to_byte(), byte);
        assert_eq!(MessageToServer::try_from(byte), Ok(message));
    }
}

#[test]
fn other_bytes_name_no_kind() {
    for byte in 0..=255u8 {
        let known_to_client = [0, 10, 11, 12, 20, 21, 30].contains(&byte);
        let known_to_server = [0, 1, 2, 3, 4, 5, 20, 21, 22, 23, 24].contains(&byte);
        assert_eq!(MessageToClient::try_from(byte).is_ok(), known_to_client);
        assert_eq!(MessageToServer::try_from(byte).is_ok(), known_to_server);
        if !known_to_client {
            assert_eq!(MessageToClient::try_from(byte), Err(byte));
        }
        if !known_to_server {
            assert_eq!(MessageToServer::try_from(byte), Err(byte));
        }
    }
}

#[test]
fn cards_travel_as_text() {
    assert_eq!(encode_cards(&pile(&["AS", "TH"])), b"AS TH".to_vec());
    assert_eq!(encode_cards(&Pile::default()), Vec::<u8>::new());
    assert_eq!(decode_cards(b"AS TH"), Ok(pile(&["AS", "TH"])));
    assert_eq!(decode_cards(b""), Ok(Pile::default()));
    let whole = pile(&["2C", "3D", "4H", "5S", "KC"]);
    assert_eq!(decode_cards(&encode_cards(&whole)), Ok(whole));
}

#[test]
fn bad_card_payloads_are_errors() {
    assert_eq!(decode_cards(b"AS  TH"), Err(DecodeError::BadCardToken));
    assert_eq!(decode_cards(b"A"), Err(DecodeError::BadCardToken));
    assert_eq!(decode_cards(b"AS TH "), Err(DecodeError::BadCardToken));
    assert_eq!(decode_cards(&[0xff, 0xfe]), Err(DecodeError::NotText));
    assert_eq!(decode_cards(&[b'A', 0xc3]), Err(DecodeError::NotText));
    assert_eq!(decode_cards("é♠".as_bytes()), Ok(pile(&["AD"])));
}

#[test]
fn counts_travel_as_eight_bytes_lowest_first() {
    assert_eq!(encode_count(0), vec![0; 8]);
    assert_eq!(encode_count(3), vec![3, 0, 0, 0, 0, 0, 0, 0]);
    assert_eq!(encode_count(0x0102), vec![2, 1, 0, 0, 0, 0, 0, 0]);
    assert_eq!(decode_count(&[3, 0, 0, 0, 0, 0, 0, 0]), Ok(3));
    assert_eq!(decode_count(&[2, 1, 0, 0, 0, 0, 0, 0, 9, 9]), Ok(0x0102));
    assert_eq!(decode_count(&encode_count(u64::MAX)), Ok(u64::MAX));
    assert_eq!(decode_count(&[1, 2, 3]), Err(DecodeError::Truncated));
    assert_eq!(decode_count(&[]), Err(DecodeError::Truncated));
}

#[test]
fn frames_of_the_server_are_kind_then_payload() {
    assert_eq!(encode_pile_state(&pile(&["AS", "KH"]), false), frame(20, b"AS KH"));
    assert_eq!(encode_pile_state(&pile(&["AS", "KH"]), true), frame(21, &[2, 0, 0, 0, 0, 0, 0, 0]));
    assert_eq!(encode_pile_state(&Pile::default(), false), vec![20]);
    assert_eq!(encode_started(true), vec![12, 1]);
    assert_eq!(encode_started(false), vec![12, 0]);
    assert_eq!(encode_mask(0b1110_0000), vec![30, 0b1110_0000]);
    assert_eq!(encode_hand(&pile(&["2C"]), false, 3), frame(11, b"2C"));
    let mut first = vec![10, 3, 0, 0, 0, 0, 0, 0, 0];
    first.extend_from_slice(b"2C 3D");
    assert_eq!(encode_hand(&pile(&["2C", "3D"]), true, 3), first);
    assert_eq!(encode_end(), vec![0]);
}

#[test]
fn a_pile_is_laid_out_for_its_winner() {
    let hands = fan_out(pile(&["AS", "KH"]), 1, 3);
    assert_eq!(hands, vec![Pile::default(), pile(&["AS", "KH"]), Pile::default()]);
    let hands = fan_out(pile(&["AS"]), 4, 2);
    assert_eq!(hands.len(), 5);
    assert_eq!(hands[4], pile(&["AS"]));
    assert!(hands[..4].iter().all(|hand| hand.is_empty()));
    let hands = fan_out(Pile::default(), 0, 0);
    assert_eq!(hands, vec![Pile::default()]);
}

#[test]
fn a_seat_takes_its_own_hand() {
    let hands = vec![pile(&["AS"]), pile(&["KH", "QD"])];
    assert_eq!(take_hand(&hands, Some(1)), pile(&["KH", "QD"]));
    assert_eq!(take_hand(&hands, Some(0)), pile(&["AS"]));
    assert_eq!(take_hand(&hands, Some(2)), Pile::default());
    assert_eq!(take_hand(&hands, None), Pile::default());
}

#[test]
fn frames_say_what_is_asked() {
    assert!(matches!(decode_request(&[]), Ok(Request::Nothing)));
    assert!(matches!(decode_request(&[0]), Ok(Request::Nothing)));
    assert!(matches!(decode_request(&[0, 9, 9]), Ok(Request::Nothing)));
    assert!(matches!(decode_request(&[1]), Ok(Request::Disconnect)));
    assert!(matches!(decode_request(&[2]), Ok(Request::SendCurrentPilePlease)));
    assert!(matches!(decode_request(&[3]), Ok(Request::ReadyToPlay)));
    assert!(matches!(decode_request(&[4]), Ok(Request::HasGameStarted)));
    assert!(matches!(decode_request(&[5]), Ok(Request::GsasFufilled)));
    match decode_request(&frame(20, b"AS KH")) {
        Ok(Request::GameAction1(brought)) => assert_eq!(brought, pile(&["AS", "KH"])),
        other => panic!("the first action was asked for, not {:?}", other),
    }
    match decode_request(&frame(21, b"2C")) {
        Ok(Request::GameAction2(brought)) => assert_eq!(brought, pile(&["2C"])),
        other => panic!("the second action was asked for, not {:?}", other),
    }
    match decode_request(&[20]) {
        Ok(Request::GameAction1(brought)) => assert!(brought.is_empty()),
        other => panic!("the first action was asked for, not {:?}", other),
    }
    assert!(matches!(decode_request(&[22]), Ok(Request::GameAction3)));
    assert!(matches!(decode_request(&frame(22, b"A  x")), Ok(Request::GameAction3)));
    assert!(matches!(decode_request(&[23]), Ok(Request::GameAction4)));
    assert!(matches!(decode_request(&[24, 0xff]), Ok(Request::GameAction5)));
}

#[test]
fn frames_that_cannot_be_read_ask_for_nothing() {
    assert!(matches!(decode_request(&[6]), Err(DecodeError::UnknownKind(6))));
    assert!(matches!(decode_request(&[25]), Err(DecodeError::UnknownKind(25))));
    assert!(matches!(decode_request(&frame(20, b"AS  KH")), Err(DecodeError::BadCardToken)));
    assert!(matches!(decode_request(&frame(21, b"ASK")), Err(DecodeError::BadCardToken)));
    assert!(matches!(decode_request(&frame(21, &[0xc0])), Err(DecodeError::NotText)));
}

#[test]
fn requests_are_carried_out() {
    let (mut server, sessions) = running(3);
    let _ = server.game.0.replace_dealer_pile(Pile::default());
    assert!(matches!(server.perform(&sessions[0], Request::Nothing), Reply::Nothing));
    match server.perform(&sessions[0], Request::HasGameStarted) {
        Reply::Send(answer) => assert_eq!(answer, vec![12, 1]),
        other => panic!("a frame was to be sent, not {:?}", other),
    }
    assert!(matches!(
        server.perform(&sessions[0], Request::GameAction2(pile(&["AS"]))),
        Reply::Nothing
    ));
    match server.perform(&sessions[1], Request::SendCurrentPilePlease) {
        Reply::Send(answer) => assert_eq!(answer, frame(21, &[1, 0, 0, 0, 0, 0, 0, 0])),
        other => panic!("a frame was to be sent, not {:?}", other),
    }
    match server.perform(&sessions[1], Request::GsasFufilled) {
        Reply::Send(answer) => assert_eq!(answer, vec![30, 0b1110_0000]),
        other => panic!("a frame was to be sent, not {:?}", other),
    }
    assert!(matches!(server.perform(&sessions[2], Request::GameAction3), Reply::Nothing));
    assert_eq!(server.drain(&sessions[0]), vec![frame(11, b"AS")]);
    assert!(matches!(server.perform(&sessions[2], Request::Disconnect), Reply::Closed));
    assert_eq!(server.game_bc.num_subscribed(), 2);
    assert!(matches!(server.perform(&sessions[0], Request::ReadyToPlay), Reply::Nothing));
}

#[test]
fn connections_get_ids_and_seats() {
    let (mut server, sessions) = table(3);
    for (i, session) in sessions.iter().enumerate() {
        assert_eq!(session.general_bc_id, i);
        assert_eq!(session.game_bc_id, i);
        assert_eq!(session.game_id, Some(i));
    }
    assert!(matches!(server.handle(&sessions[0], &[3]), Ok(Reply::Nothing)));
    let late = server.connect();
    assert_eq!(late.general_bc_id, 3);
    assert_eq!(late.game_bc_id, 3);
    assert_eq!(late.game_id, None);
}

#[test]
fn empty_frames_and_ticks_ask_for_nothing() {
    let (mut server, sessions) = table(3);
    assert!(matches!(server.handle(&sessions[0], &[]), Ok(Reply::Nothing)));
    assert!(matches!(server.handle(&sessions[0], &[0]), Ok(Reply::Nothing)));
    assert!(matches!(server.handle(&sessions[0], &[0, 1, 2]), Ok(Reply::Nothing)));
    assert!(server.drain(&sessions[0]).is_empty());
}

#[test]
fn unknown_kinds_are_errors() {
    let (mut server, sessions) = table(3);
    assert!(matches!(server.handle(&sessions[0], &[6]), Err(DecodeError::UnknownKind(6))));
    assert!(matches!(server.handle(&sessions[0], &[255, 1]), Err(DecodeError::UnknownKind(255))));
    assert!(matches!(server.handle(&sessions[0], &[19]), Err(DecodeError::UnknownKind(19))));
    assert_eq!(sent(server.handle(&sessions[0], &[4])), vec![12, 0]);
}

#[test]
fn the_start_state_is_told() {
    let (mut server, sessions) = table(3);
    assert_eq!(sent(server.handle(&sessions[1], &[4])), vec![12, 0]);
    assert!(matches!(server.handle(&sessions[1], &[3]), Ok(Reply::Nothing)));
    assert_eq!(sent(server.handle(&sessions[1], &[4])), vec![12, 1]);
}

#[test]
fn a_start_short_of_players_changes_nothing() {
    let (mut server, sessions) = table(2);
    assert!(matches!(server.handle(&sessions[0], &[3]), Ok(Reply::Nothing)));
    assert_eq!(sent(server.handle(&sessions[0], &[4])), vec![12, 0]);
    assert!(server.drain(&sessions[0]).is_empty());
    assert!(server.drain(&sessions[1]).is_empty());
}

#[test]
fn the_start_deals_to_every_seat() {
    let (mut server, sessions) = table(3);
    assert!(matches!(server.handle(&sessions[2], &[3]), Ok(Reply::Nothing)));
    let mut dealt = Vec::new();
    for session in &sessions {
        let frames = server.drain(session);
        assert_eq!(frames.len(), 1);
        assert_eq!(frames[0][..9], [10, 3, 0, 0, 0, 0, 0, 0, 0]);
        let hand = decode_cards(&frames[0][9..]).unwrap();
        assert_eq!(hand.len(), 17);
        dealt.extend(hand.cards().iter().copied());
        assert!(server.drain(session).is_empty());
    }
    dealt.extend(server.game.0.dealer_pile().cards().iter().copied());
    assert_eq!(dealt.len(), 52);
    dealt.sort_by_key(|card| card.token_key());
    dealt.dedup();
    assert_eq!(dealt.len(), 52);
    assert_eq!(sent(server.handle(&sessions[0], &[2])), frame(21, &[1, 0, 0, 0, 0, 0, 0, 0]));
}

trait TokenKey {
    fn token_key(&self) -> (&'static str, &'static str);
}

impl TokenKey for Card {
    fn token_key(&self) -> (&'static str, &'static str) {
        (self.rank.token_str(), self.suit.token_str())
    }
}

#[test]
fn the_hidden_pile_is_told_by_length() {
    let (mut server, sessions) = running(3);
    assert_eq!(sent(server.handle(&sessions[0], &[2])), frame(21, &[1, 0, 0, 0, 0, 0, 0, 0]));
    assert!(matches!(server.handle(&sessions[0], &frame(20, b"AS KH")), Ok(Reply::Nothing)));
    assert_eq!(sent(server.handle(&sessions[1], &[2])), frame(21, &[3, 0, 0, 0, 0, 0, 0, 0]));
}

#[test]
fn the_mask_is_told_per_seat() {
    let (mut server, sessions) = table(3);
    assert_eq!(sent(server.handle(&sessions[0], &[5])), vec![30, 0]);
    assert!(matches!(server.handle(&sessions[0], &[3]), Ok(Reply::Nothing)));
    let watcher = server.connect();
    assert_eq!(sent(server.handle(&sessions[0], &[5])), vec![30, 0b1110_0000]);
    assert_eq!(sent(server.handle(&sessions[1], &[5])), vec![30, 0b0010_0000]);
    assert_eq!(sent(server.handle(&watcher, &[5])), vec![30, 0]);
}

#[test]
fn actions_go_to_the_game() {
    let (mut server, sessions) = running(3);
    let _ = server.game.0.replace_dealer_pile(Pile::default());
    assert!(matches!(server.handle(&sessions[0], &frame(20, b"AS KH")), Ok(Reply::Nothing)));
    assert_eq!(server.game.0.dealer_pile(), &pile(&["AS", "KH"]));
    assert_eq!(sent(server.handle(&sessions[1], &[5])), vec![30, 0b1110_0000]);
    assert!(matches!(server.handle(&sessions[1], &frame(21, b"2C")), Ok(Reply::Nothing)));
    assert_eq!(server.game.0.dealer_pile(), &pile(&["AS", "KH", "2C"]));
    assert_eq!(sent(server.handle(&sessions[2], &[5])), vec![30, 0b1110_0000]);
    for session in &sessions {
        assert!(server.drain(session).is_empty());
    }
}

#[test]
fn a_called_cheat_hands_the_pile_to_the_cheater() {
    let (mut server, sessions) = running(3);
    let _ = server.game.0.replace_dealer_pile(Pile::default());
    assert!(matches!(server.handle(&sessions[0], &frame(21, b"AS KH")), Ok(Reply::Nothing)));
    assert!(matches!(server.handle(&sessions[2], &[22]), Ok(Reply::Nothing)));
    assert!(server.game.0.dealer_pile().is_empty());
    assert_eq!(server.drain(&sessions[0]), vec![frame(11, b"AS KH")]);
    assert_eq!(server.drain(&sessions[1]), vec![vec![11]]);
    assert_eq!(server.drain(&sessions[2]), vec![vec![11]]);
}

#[test]
fn a_false_accusation_hands_the_pile_to_the_caller() {
    let (mut server, sessions) = running(3);
    let _ = server.game.0.replace_dealer_pile(Pile::default());
    assert!(matches!(server.handle(&sessions[0], &frame(20, b"AS")), Ok(Reply::Nothing)));
    assert!(matches!(server.handle(&sessions[2], &[22, 7, 7]), Ok(Reply::Nothing)));
    assert_eq!(server.drain(&sessions[0]), vec![vec![11]]);
    assert_eq!(server.drain(&sessions[1]), vec![vec![11]]);
    assert_eq!(server.drain(&sessions[2]), vec![frame(11, b"AS")]);
}

#[test]
fn actions_that_the_ruleset_leaves_out_do_nothing() {
    let (mut server, sessions) = running(3);
    assert!(matches!(server.handle(&sessions[0], &[23]), Ok(Reply::Nothing)));
    assert!(matches!(server.handle(&sessions[0], &[24]), Ok(Reply::Nothing)));
    assert_eq!(server.game.0.dealer_pile().len(), 1);
    assert!(server.drain(&sessions[0]).is_empty());
}

#[test]
fn bad_cards_are_errors_and_change_nothing() {
    let (mut server, sessions) = running(3);
    let before = server.game.0.dealer_pile().clone();
    assert!(matches!(
        server.handle(&sessions[0], &frame(20, b"AS  KH")),
        Err(DecodeError::BadCardToken)
    ));
    assert!(matches!(
        server.handle(&sessions[0], &frame(21, b"A")),
        Err(DecodeError::BadCardToken)
    ));
    assert!(matches!(
        server.handle(&sessions[0], &frame(20, &[0xff])),
        Err(DecodeError::NotText)
    ));
    assert_eq!(server.game.0.dealer_pile(), &before);
    assert_eq!(sent(server.handle(&sessions[0], &[5])), vec![30, 0b1110_0000]);
}

#[test]
fn a_watcher_takes_no_action() {
    let (mut server, sessions) = running(3);
    let watcher = server.connect();
    assert_eq!(watcher.game_id, None);
    assert!(matches!(server.handle(&watcher, &frame(20, b"AS KH")), Ok(Reply::Nothing)));
    assert!(matches!(server.handle(&watcher, &[22]), Ok(Reply::Nothing)));
    assert_eq!(server.game.0.dealer_pile().len(), 1);
    assert_eq!(sent(server.handle(&sessions[0], &[5])), vec![30, 0b1110_0000]);
    assert!(matches!(
        server.handle(&watcher, &frame(20, b"AS  KH")),
        Err(DecodeError::BadCardToken)
    ));
}

#[test]
fn a_watcher_is_handed_empty_hands() {
    let (mut server, sessions) = table(3);
    assert!(matches!(server.handle(&sessions[0], &[3]), Ok(Reply::Nothing)));
    let watcher = server.connect();
    assert!(server.drain(&watcher).is_empty());
    assert!(matches!(server.handle(&sessions[1], &[22]), Ok(Reply::Nothing)));
    assert_eq!(server.drain(&watcher), vec![vec![11]]);
}

#[test]
fn a_disconnect_ends_the_subscriptions() {
    let (mut server, sessions) = running(3);
    assert!(matches!(server.handle(&sessions[1], &[1]), Ok(Reply::Closed)));
    assert_eq!(server.general_bc.num_subscribed(), 2);
    assert_eq!(server.game_bc.num_subscribed(), 2);
    assert!(matches!(server.handle(&sessions[0], &[22]), Ok(Reply::Nothing)));
    assert!(server.drain(&sessions[1]).is_empty());
    assert_eq!(server.drain(&sessions[0]).len(), 1);
    server.disconnect(&sessions[0]);
    server.disconnect(&sessions[0]);
    assert_eq!(server.game_bc.num_subscribed(), 1);
}

#[test]
fn routing_lays_a_pile_out_for_the_channel() {
    let (mut server, sessions) = running(3);
    server.route(GSAResult::Nothing);
    assert!(server.drain(&sessions[0]).is_empty());
    server.route(GSAResult::PlayerTakesAllCards(pile(&["AS"]), 2));
    assert_eq!(server.drain(&sessions[2]), vec![frame(11, b"AS")]);
    assert_eq!(server.drain(&sessions[0]), vec![vec![11]]);
    server.route(GSAResult::PlayerTakesAllCards(pile(&["AS"]), usize::MAX));
    assert!(server.drain(&sessions[1]).len() == 1);
    assert!(server.drain(&sessions[0]).is_empty());
}

#[test]
fn general_messages_tell_the_pile_as_far_as_it_may_be_seen() {
    let (mut server, sessions) = running(3);
    server.general_bc.send(ServerMessage::UpdateDealerPile).unwrap();
    server.general_bc.send(ServerMessage::UpdateDealerPile).unwrap();
    server.game_bc.send(HandOut { hands: vec![pile(&["2C"])], is_start: false }).unwrap();
    let length = frame(21, &[1, 0, 0, 0, 0, 0, 0, 0]);
    assert_eq!(server.drain(&sessions[0]), vec![length.clone(), length.clone(), frame(11, b"2C")]);
    assert_eq!(server.drain(&sessions[1]), vec![length.clone(), length, vec![11]]);
    assert!(server.drain(&sessions[0]).is_empty());
}

#[test]
fn a_client_starts_knowing_nothing() {
    let state = ClientState::default();
    assert!(state.hand.is_empty());
    assert!(matches!(state.dealer, DealerView::Cards(ref seen) if seen.is_empty()));
    assert!(!state.game_started);
    assert_eq!(state.gsas_fufilled, 0);
    assert_eq!(state.gsas, 0);
}

#[test]
fn a_client_takes_in_what_the_server_tells() {
    let mut state = ClientState::default();
    assert_eq!(state.handle(&[]), Ok(Outcome::Continue));
    assert_eq!(state.handle(&encode_started(true)), Ok(Outcome::Continue));
    assert!(state.game_started);
    assert_eq!(state.handle(&[12, 0]), Ok(Outcome::Continue));
    assert!(!state.game_started);
    assert_eq!(state.handle(&[12, 7]), Ok(Outcome::Continue));
    assert!(state.game_started);
    assert_eq!(state.handle(&encode_mask(0b1100_0000)), Ok(Outcome::Continue));
    assert_eq!(state.gsas_fufilled, 0b1100_0000);
    assert_eq!(state.handle(&encode_pile_state(&pile(&["AS", "KH"]), false)), Ok(Outcome::Continue));
    assert!(matches!(state.dealer, DealerView::Cards(ref seen) if seen == &pile(&["AS", "KH"])));
    assert_eq!(state.handle(&encode_pile_state(&pile(&["AS", "KH"]), true)), Ok(Outcome::Continue));
    assert!(matches!(state.dealer, DealerView::Count(2)));
    assert_eq!(state.handle(&encode_end()), Ok(Outcome::ServerEnded));
}

#[test]
fn a_client_gathers_the_cards_it_is_handed() {
    let mut state = ClientState::default();
    state.game_started = false;
    assert_eq!(state.handle(&encode_hand(&pile(&["2C", "3D"]), true, 3)), Ok(Outcome::Continue));
    assert!(state.game_started);
    assert_eq!(state.gsas, 3);
    assert_eq!(state.hand, pile(&["2C", "3D"]));
    assert_eq!(state.handle(&encode_hand(&pile(&["AS"]), false, 3)), Ok(Outcome::Continue));
    assert_eq!(state.hand, pile(&["2C", "3D", "AS"]));
    assert_eq!(state.handle(&[11]), Ok(Outcome::Continue));
    assert_eq!(state.hand.len(), 3);
}

#[test]
fn a_client_refuses_what_it_cannot_read() {
    let mut state = ClientState::default();
    assert_eq!(state.handle(&[1]), Err(DecodeError::UnknownKind(1)));
    assert_eq!(state.handle(&[12]), Err(DecodeError::Truncated));
    assert_eq!(state.handle(&[30]), Err(DecodeError::Truncated));
    assert_eq!(state.handle(&[21, 1, 2]), Err(DecodeError::Truncated));
    assert_eq!(state.handle(&[10, 1, 2]), Err(DecodeError::Truncated));
    assert_eq!(state.handle(&frame(11, b"AS  KH")), Err(DecodeError::BadCardToken));
    assert_eq!(state.handle(&frame(20, &[0xff])), Err(DecodeError::NotText));
    let mut bad_start = vec![10, 3, 0, 0, 0, 0, 0, 0, 0];
    bad_start.extend_from_slice(b"A");
    assert_eq!(state.handle(&bad_start), Err(DecodeError::BadCardToken));
    assert!(state.hand.is_empty());
    assert!(!state.game_started);
    assert_eq!(state.gsas, 0);
}

#[test]
fn requests_are_kind_then_cards() {
    assert_eq!(encode_request(&MessageToProcessingThread::Start), vec![3]);
    assert_eq!(
        encode_request(&MessageToProcessingThread::GSA1(GSADataData::ShowCards(pile(&["AS"])))),
        frame(20, b"AS")
    );
    assert_eq!(
        encode_request(&MessageToProcessingThread::GSA2(GSADataData::TakeCards(pile(&[
            "AS", "KH"
        ])))),
        frame(21, b"AS KH")
    );
    assert_eq!(encode_request(&MessageToProcessingThread::GSA3(GSADataData::Nothing)), vec![22]);
    assert_eq!(encode_request(&MessageToProcessingThread::GSA4(GSADataData::Nothing)), vec![23]);
    assert_eq!(
        encode_request(&MessageToProcessingThread::GSA5(GSADataData::ShowCards(Pile::default()))),
        vec![24]
    );
}

#[test]
fn the_server_reads_what_a_client_asks() {
    let (mut server, sessions) = running(3);
    let _ = server.game.0.replace_dealer_pile(Pile::default());
    let request = MessageToProcessingThread::GSA2(GSADataData::ShowCards(pile(&["AS", "KH"])));
    assert!(matches!(server.handle(&sessions[0], &encode_request(&request)), Ok(Reply::Nothing)));
    assert_eq!(server.game.0.dealer_pile(), &pile(&["AS", "KH"]));
    let call = MessageToProcessingThread::GSA3(GSADataData::Nothing);
    assert!(matches!(server.handle(&sessions[1], &encode_request(&call)), Ok(Reply::Nothing)));
    let mut client = ClientState::default();
    for bytes in server.drain(&sessions[0]) {
        assert_eq!(client.handle(&bytes), Ok(Outcome::Continue));
    }
    assert_eq!(client.hand, pile(&["AS", "KH"]));
}

#[test]
fn polls_come_when_their_time_is_up() {
    assert_eq!(TPS_TIMER, 500);
    let idle = poll(499, 999, false);
    assert!(idle.frames.is_empty());
    assert!(!idle.pile_polled);
    assert!(!idle.actions_polled);
    let pile_only = poll(500, 999, false);
    assert_eq!(pile_only.frames, vec![vec![2], vec![4]]);
    assert!(pile_only.pile_polled);
    assert!(!pile_only.actions_polled);
    let running = poll(500, 0, true);
    assert_eq!(running.frames, vec![vec![2]]);
    let actions_only = poll(0, 1000, true);
    assert_eq!(actions_only.frames, vec![vec![5]]);
    assert!(!actions_only.pile_polled);
    assert!(actions_only.actions_polled);
    let both = poll(u64::MAX, u64::MAX, false);
    assert_eq!(both.frames, vec![vec![2], vec![4], vec![5]]);
    assert!(both.pile_polled && both.actions_polled);
}

#[test]
fn buttons_follow_the_mask() {
    assert!(action_enabled(0b1000_0000, 0));
    assert!(action_enabled(0b0100_0000, 1));
    assert!(action_enabled(0b0010_0000, 2));
    assert!(action_enabled(0b0001_0000, 3));
    assert!(action_enabled(0b0000_1000, 4));
    assert!(!action_enabled(0b0111_1111, 0));
    assert!(!action_enabled(0b1100_0000, 2));
    assert!(!action_enabled(0b1111_1111, 5));
    assert!(action_enabled(0b1110_0000, 0));
    assert!(action_enabled(0b1110_0000, 1));
    assert!(action_enabled(0b1110_0000, 2));
    assert!(!action_enabled(0, 0));
    assert!(can_tick(0b0010_0000));
    assert!(!can_tick(0));
}

#[test]
fn buttons_are_offered_as_mask_count_and_names_allow() {
    let fresh = offered_buttons(false, 0, 0, 3);
    assert!(fresh.start);
    assert!(fresh.actions.is_empty());
    let turn = offered_buttons(true, 0b1110_0000, 3, 3);
    assert!(!turn.start);
    assert_eq!(turn.actions, vec![0, 1, 2]);
    assert_eq!(offered_buttons(true, 0b0010_0000, 3, 3).actions, vec![2]);
    assert_eq!(offered_buttons(true, 0b1100_0000, 3, 3).actions, vec![0, 1]);
    assert_eq!(offered_buttons(true, 0b1110_0000, 2, 3).actions, vec![0, 1]);
    assert_eq!(offered_buttons(true, 0b1110_0000, 0, 3).actions, Vec::<usize>::new());
    assert_eq!(offered_buttons(true, 0b1111_1111, 5, 3).actions, vec![0, 1, 2]);
    assert_eq!(offered_buttons(true, 0b1111_1111, u64::MAX, 9).actions, vec![0, 1, 2, 3, 4]);
    assert_eq!(offered_buttons(true, 0b1010_1000, 9, 9).actions, vec![0, 2, 4]);
    assert_eq!(offered_buttons(true, 0b0000_0111, 9, 9).actions, Vec::<usize>::new());
    assert_eq!(offered_buttons(false, 0b1110_0000, 3, 0).actions, Vec::<usize>::new());
    assert!(offered_buttons(false, 0b1110_0000, 3, 3).start);
}

#[test]
fn ticked_cards_are_parted_from_the_rest() {
    let hand = cards(&["AS", "KH", "2C", "3D"]);
    let (picked, kept) = split_ticked(&hand, &vec![true, false, true, false]);
    assert_eq!(picked, pile(&["AS", "2C"]));
    assert_eq!(kept, pile(&["KH", "3D"]));
    let (picked, kept) = split_ticked(&hand, &vec![false, true]);
    assert_eq!(picked, pile(&["KH"]));
    assert_eq!(kept, pile(&["AS", "2C", "3D"]));
    let (picked, kept) = split_ticked(&hand, &vec![true; 9]);
    assert_eq!(picked, pile(&["AS", "KH", "2C", "3D"]));
    assert!(kept.is_empty());
}

#[test]
fn ticks_are_cleared_when_the_hand_changes() {
    let mut checked = vec![true, false];
    let mut old_cards = cards(&["AS", "KH"]);
    sync_ticks(&mut checked, &mut old_cards, &cards(&["AS", "KH"]));
    assert_eq!(checked, vec![true, false]);
    sync_ticks(&mut checked, &mut old_cards, &cards(&["AS", "KH", "2C"]));
    assert_eq!(checked, vec![false, false, false]);
    assert_eq!(old_cards, cards(&["AS", "KH", "2C"]));
    checked[1] = true;
    sync_ticks(&mut checked, &mut old_cards, &cards(&["AS", "2C", "KH"]));
    assert_eq!(checked, vec![false, false, false]);
    sync_ticks(&mut checked, &mut old_cards, &cards(&[]));
    assert_eq!(checked, Vec::<bool>::new());
    assert_eq!(old_cards, Vec::<Card>::new());
}

#[test]
fn a_press_sends_the_ticked_cards() {
    let ticks = vec![true, false, true];
    let mut hand = pile(&["AS", "KH", "2C"]);
    match press_action(0, GSADataTaken::TakeCards, &mut hand, &ticks) {
        Some(MessageToProcessingThread::GSA1(GSADataData::ShowCards(sent_pile))) => {
            assert_eq!(sent_pile, pile(&["AS", "2C"]))
        },
        other => panic!("the first action was pressed, not {:?}", other),
    }
    assert_eq!(hand, pile(&["KH"]));

    let mut hand = pile(&["AS", "KH", "2C"]);
    match press_action(1, GSADataTaken::ShowCards, &mut hand, &ticks) {
        Some(MessageToProcessingThread::GSA2(GSADataData::ShowCards(sent_pile))) => {
            assert_eq!(sent_pile, pile(&["AS", "2C"]))
        },
        other => panic!("the second action was pressed, not {:?}", other),
    }
    assert_eq!(hand, pile(&["AS", "KH", "2C"]));

    assert!(matches!(
        press_action(2, GSADataTaken::Nothing, &mut hand, &ticks),
        Some(MessageToProcessingThread::GSA3(GSADataData::Nothing))
    ));
    assert!(matches!(
        press_action(3, GSADataTaken::Nothing, &mut hand, &ticks),
        Some(MessageToProcessingThread::GSA4(GSADataData::Nothing))
    ));
    assert!(matches!(
        press_action(4, GSADataTaken::Nothing, &mut hand, &ticks),
        Some(MessageToProcessingThread::GSA5(GSADataData::Nothing))
    ));
    assert_eq!(hand, pile(&["AS", "KH", "2C"]));
    assert!(press_action(5, GSADataTaken::TakeCards, &mut hand, &ticks).is_none());
    assert_eq!(hand, pile(&["AS", "KH", "2C"]));
}
