use lynx::load::{
    build_message, classify_login, client_batches, keep_sending, message_type_for_roll, str_err,
    Client, LoginResult,
    MessageType, Stats, TrafficMix,
};
use lynx::{Message, Response};
use std::sync::atomic::Ordering;

fn mix() -> TrafficMix {
    TrafficMix {
        room_msg_pct: 70,
        dm_pct: 15,
        list_pct: 10,
        join_pct: 5,
    }
}

#[test]
fn rolls_map_to_the_traffic_mix() {
    let m = mix();
    assert_eq!(message_type_for_roll(0, &m), MessageType::RoomMessage);
    assert_eq!(message_type_for_roll(69, &m), MessageType::RoomMessage);
    assert_eq!(message_type_for_roll(70, &m), MessageType::DirectMessage);
    assert_eq!(message_type_for_roll(84, &m), MessageType::DirectMessage);
    assert_eq!(message_type_for_roll(85, &m), MessageType::ListUsers);
    assert_eq!(message_type_for_roll(94, &m), MessageType::ListUsers);
    assert_eq!(message_type_for_roll(95, &m), MessageType::JoinRoom);
    assert_eq!(message_type_for_roll(99, &m), MessageType::JoinRoom);
}

#[test]
fn client_names_and_rooms() {
    let c = Client::new(7, "ab12cd", 3, mix());
    assert_eq!(c.username, "user_ab12cd_7");
    assert_eq!(c.room, "room_1");
    assert_eq!(c.id, 7);
}

#[test]
fn built_messages() {
    let to = "user_fake_3".to_string();
    assert!(matches!(
        build_message(MessageType::RoomMessage, 42, &to, 0),
        Message::SendRoomMessage { text } if text == "msg_42"
    ));
    assert!(matches!(
        build_message(MessageType::DirectMessage, 7, &to, 0),
        Message::SendPrivateMessage { to, text } if to == "user_fake_3" && text == "dm_7"
    ));
    assert!(matches!(
        build_message(MessageType::ListUsers, 7, &to, 0),
        Message::ListUsers
    ));
    assert!(matches!(
        build_message(MessageType::JoinRoom, 7, &to, 9),
        Message::JoinRoom { room_name } if room_name == "room_9"
    ));
}

#[test]
fn generated_messages_stay_in_the_model() {
    let users: Vec<String> = (0..100).map(|i| format!("user_fake_{}", i)).collect();
    let mut c = Client::new(3, "s", 4, mix());
    for _ in 0..500 {
        match c.generate_message(&users) {
            Message::SendRoomMessage { text } => assert!(text.starts_with("msg_")),
            Message::SendPrivateMessage { to, text } => {
                assert!(users.contains(&to));
                assert!(text.starts_with("dm_"));
            }
            Message::ListUsers => {}
            Message::JoinRoom { room_name } => {
                assert!(["room_0", "room_1", "room_2", "room_3"].contains(&room_name.as_str()));
                assert_eq!(c.room, room_name);
            }
            other => panic!("unexpected message {:?}", other),
        }
    }
}

#[test]
fn direct_message_to_self_without_users() {
    let only_dm = TrafficMix {
        room_msg_pct: 0,
        dm_pct: 100,
        list_pct: 0,
        join_pct: 0,
    };
    let mut c = Client::new(1, "s", 1, only_dm);
    match c.generate_message(&Vec::new()) {
        Message::SendPrivateMessage { to, .. } => assert_eq!(to, "user_s_1"),
        other => panic!("unexpected message {:?}", other),
    }
}

#[test]
fn login_results() {
    let ok = Response::Success {
        message: "welcome".to_string(),
    };
    let err = Response::Error {
        message: "username already taken".to_string(),
    };
    let other = Response::UserList { users: vec![] };
    assert!(matches!(classify_login(&ok), LoginResult::Connected));
    assert!(matches!(classify_login(&err), LoginResult::Rejected(m) if m == "username already taken"));
    assert!(matches!(classify_login(&other), LoginResult::Unexpected));
}

#[test]
fn str_err_keeps_values_and_messages() {
    let ok: Result<u32, String> = Ok(5);
    assert_eq!(str_err(ok).unwrap(), 5);
    let err: Result<u32, String> = Err("boom".to_string());
    assert_eq!(str_err(err).unwrap_err().to_string(), "boom");
}

#[test]
fn stats_start_at_zero() {
    let s = Stats::new();
    assert_eq!(s.connected.load(Ordering::Relaxed), 0);
    assert_eq!(s.connect_failed.load(Ordering::Relaxed), 0);
    assert_eq!(s.messages_sent.load(Ordering::Relaxed), 0);
    assert_eq!(s.messages_received.load(Ordering::Relaxed), 0);
    assert_eq!(s.errors.load(Ordering::Relaxed), 0);
}

#[test]
fn percentages_not_summing_to_100_are_used_in_proportion() {
    let m = TrafficMix {
        room_msg_pct: 50,
        dm_pct: 0,
        list_pct: 0,
        join_pct: 10,
    };
    let mut room = 0;
    let mut join = 0;
    for roll in 0..100u8 {
        match message_type_for_roll(roll, &m) {
            MessageType::RoomMessage => room += 1,
            MessageType::JoinRoom => join += 1,
            other => panic!("unexpected kind {:?}", other),
        }
    }
    // 50/60 and 10/60 of the 100 rolls
    assert_eq!(room, 84);
    assert_eq!(join, 16);
}

#[test]
fn sending_stops_at_the_count_or_the_time_limit() {
    assert!(keep_sending(0, 10, 0, 0));
    assert!(keep_sending(9, 10, u128::MAX, 0));
    assert!(!keep_sending(10, 10, 0, 0));
    assert!(keep_sending(3, 10, 2_000_000_000, 2));
    assert!(!keep_sending(3, 10, 2_000_000_001, 2));
}

#[test]
fn clients_start_in_batches() {
    assert_eq!(client_batches(120, 50), vec![(0, 50), (50, 100), (100, 120)]);
    assert_eq!(client_batches(100, 50), vec![(0, 50), (50, 100)]);
    assert_eq!(client_batches(0, 50), vec![]);
    assert_eq!(client_batches(3, 1), vec![(0, 1), (1, 2), (2, 3)]);
}
