use lynx::protocol::{
    decode_message_payload, decode_response_payload, encode_message_payload,
    drain_consumed, encode_response_payload, MAX_MESSAGE_SIZE,
};
use lynx::{
    decode_frame, decode_response, encode_frame, encode_response, try_extract_frame,
    try_extract_response, Message, Response,
};

#[test]
fn test_encode_decode_roundtrip() {
    let original = Message::Connect {
        username: "Rauf".to_string(),
    };
    let frame = encode_frame(&original).expect("encode failed");
    let decoded = decode_frame(&frame).expect("decode failed");
    assert!(matches!(decoded, Message::Connect { username } if username == "Rauf"));
}

#[test]
fn test_decode_insufficient_bytes() {
    let bytes = vec![0, 0];
    let result = decode_frame(&bytes);
    assert!(result.is_err());
}

#[test]
fn test_response_encode_decode_roundtrip() {
    let original = Response::Success {
        message: "connected".to_string(),
    };
    let frame = encode_response(&original).expect("encode failed");
    let decoded = decode_response(&frame).expect("decode failed");
    assert!(matches!(decoded, Response::Success { message } if message == "connected"));
}

#[test]
fn test_decode_incomplete_message() {
    let mut bytes = vec![0, 0, 0, 100];
    bytes.extend_from_slice(&[1, 2, 3, 4, 5, 6]);
    let result = decode_frame(&bytes);
    assert!(result.is_err());
}

#[test]
fn test_try_extract_frame_incomplete_length() {
    let bytes = vec![0, 0];
    let result = try_extract_frame(&bytes);
    assert!(matches!(result, Ok(None)));
}

#[test]
fn test_try_extract_frame_incomplete_payload() {
    let mut bytes = vec![0, 0, 0, 100];
    bytes.extend_from_slice(&[1, 2, 3, 4, 5, 6]);
    let result = try_extract_frame(&bytes);
    assert!(matches!(result, Ok(None)));
}

#[test]
fn test_try_extract_frame_complete() {
    let msg = Message::Connect {
        username: "test".to_string(),
    };
    let frame = encode_frame(&msg).unwrap();
    let result = try_extract_frame(&frame).unwrap();
    assert!(result.is_some());
    let (decoded, consumed) = result.unwrap();
    assert_eq!(consumed, frame.len());
    assert!(matches!(decoded, Message::Connect { username } if username == "test"));
}

#[test]
fn test_try_extract_frame_with_extra_bytes() {
    let msg = Message::ListUsers;
    let mut bytes = encode_frame(&msg).unwrap();
    let first_frame_len = bytes.len();
    bytes.extend_from_slice(&[0, 0, 0, 50, 1, 2, 3]);
    let result = try_extract_frame(&bytes).unwrap();
    assert!(result.is_some());
    let (decoded, consumed) = result.unwrap();
    assert_eq!(consumed, first_frame_len);
    assert!(matches!(decoded, Message::ListUsers));
}

#[test]
fn test_try_extract_frame_multiple_messages() {
    let msg1 = Message::Connect {
        username: "alice".to_string(),
    };
    let msg2 = Message::ListUsers;
    let mut bytes = encode_frame(&msg1).unwrap();
    let frame1_len = bytes.len();
    bytes.extend(encode_frame(&msg2).unwrap());
    let (decoded1, consumed1) = try_extract_frame(&bytes).unwrap().unwrap();
    assert_eq!(consumed1, frame1_len);
    assert!(matches!(decoded1, Message::Connect { username } if username == "alice"));
    let (decoded2, _consumed2) = try_extract_frame(&bytes[consumed1..]).unwrap().unwrap();
    assert!(matches!(decoded2, Message::ListUsers));
}

#[test]
fn test_try_extract_frame_rejects_huge_message() {
    let bytes = vec![0, 32, 0, 0];
    let result = try_extract_frame(&bytes);
    assert!(result.is_err());
    assert!(result.unwrap_err().contains("too large"));
}

#[test]
fn test_try_extract_response_complete() {
    let resp = Response::Success {
        message: "ok".to_string(),
    };
    let frame = encode_response(&resp).unwrap();
    let result = try_extract_response(&frame).unwrap();
    assert!(result.is_some());
    let (decoded, consumed) = result.unwrap();
    assert_eq!(consumed, frame.len());
    assert!(matches!(decoded, Response::Success { message } if message == "ok"));
}

#[test]
fn test_try_extract_response_incomplete() {
    let bytes = vec![0, 0, 0, 50];
    let result = try_extract_response(&bytes);
    assert!(matches!(result, Ok(None)));
}

// -- exact bytes --

#[test]
fn frame_of_list_users_is_header_and_variant_index() {
    let frame = encode_frame(&Message::ListUsers).unwrap();
    assert_eq!(frame, vec![0, 0, 0, 4, 4, 0, 0, 0]);
}

#[test]
fn connect_payload_matches_bincode_of_index_and_string() {
    let msg = Message::Connect {
        username: "alice".to_string(),
    };
    let ours = encode_message_payload(&msg).unwrap();
    let theirs = bincode::serialize(&(0u32, "alice".to_string())).unwrap();
    assert_eq!(ours, theirs);
    assert_eq!(
        ours,
        vec![0, 0, 0, 0, 5, 0, 0, 0, 0, 0, 0, 0, b'a', b'l', b'i', b'c', b'e']
    );
}

#[test]
fn private_message_payload_matches_bincode() {
    let msg = Message::SendPrivateMessage {
        to: "bob".to_string(),
        text: "héllo".to_string(),
    };
    let ours = encode_message_payload(&msg).unwrap();
    let theirs = bincode::serialize(&(3u32, "bob".to_string(), "héllo".to_string())).unwrap();
    assert_eq!(ours, theirs);
}

#[test]
fn response_payloads_match_bincode() {
    let users = vec!["a".to_string(), "bc".to_string()];
    let ours = encode_response_payload(&Response::UserList {
        users: users.clone(),
    })
    .unwrap();
    assert_eq!(ours, bincode::serialize(&(2u32, users)).unwrap());

    let dm = Response::IncomingMessage {
        from: "alice".to_string(),
        text: "hi".to_string(),
        room: None,
    };
    let ours = encode_response_payload(&dm).unwrap();
    let theirs =
        bincode::serialize(&(3u32, "alice".to_string(), "hi".to_string(), None::<String>)).unwrap();
    assert_eq!(ours, theirs);

    let room = Response::IncomingMessage {
        from: "alice".to_string(),
        text: "hi".to_string(),
        room: Some("dev".to_string()),
    };
    let ours = encode_response_payload(&room).unwrap();
    let theirs = bincode::serialize(&(
        3u32,
        "alice".to_string(),
        "hi".to_string(),
        Some("dev".to_string()),
    ))
    .unwrap();
    assert_eq!(ours, theirs);

    let note = Response::SystemNotification {
        text: "bye".to_string(),
    };
    let ours = encode_response_payload(&note).unwrap();
    assert_eq!(ours, bincode::serialize(&(4u32, "bye".to_string())).unwrap());
}

// -- round trips of every variant --

fn all_messages() -> Vec<Message> {
    vec![
        Message::Connect {
            username: "alice".to_string(),
        },
        Message::SendRoomMessage {
            text: "hello everyone".to_string(),
        },
        Message::JoinRoom {
            room_name: "dev".to_string(),
        },
        Message::SendPrivateMessage {
            to: "bob".to_string(),
            text: "secret ✓".to_string(),
        },
        Message::ListUsers,
        Message::Disconnect,
    ]
}

#[test]
fn every_message_roundtrips_with_trailing_bytes() {
    for msg in all_messages() {
        let mut frame = encode_frame(&msg).unwrap();
        let len = frame.len();
        frame.extend_from_slice(&[9, 9, 9]);
        let (decoded, consumed) = try_extract_frame(&frame).unwrap().unwrap();
        assert_eq!(consumed, len);
        assert_eq!(format!("{:?}", decoded), format!("{:?}", msg));
        let decoded = decode_frame(&frame).unwrap();
        assert_eq!(format!("{:?}", decoded), format!("{:?}", msg));
    }
}

#[test]
fn every_response_roundtrips() {
    let responses = vec![
        Response::Success {
            message: "welcome".to_string(),
        },
        Response::Error {
            message: "no".to_string(),
        },
        Response::UserList {
            users: vec!["alice".to_string(), "bob".to_string()],
        },
        Response::UserList { users: vec![] },
        Response::IncomingMessage {
            from: "alice".to_string(),
            text: "hi".to_string(),
            room: Some("general".to_string()),
        },
        Response::IncomingMessage {
            from: "alice".to_string(),
            text: "psst".to_string(),
            room: None,
        },
        Response::SystemNotification {
            text: "shutting down".to_string(),
        },
    ];
    for resp in responses {
        let frame = encode_response(&resp).unwrap();
        let (decoded, consumed) = try_extract_response(&frame).unwrap().unwrap();
        assert_eq!(consumed, frame.len());
        assert_eq!(format!("{:?}", decoded), format!("{:?}", resp));
        let decoded = decode_response(&frame).unwrap();
        assert_eq!(format!("{:?}", decoded), format!("{:?}", resp));
    }
}

// -- error texts --

#[test]
fn decode_error_texts() {
    assert_eq!(
        decode_frame(&[0, 0, 1]).unwrap_err(),
        "not enough bytes for length"
    );
    assert_eq!(decode_frame(&[0, 0, 0, 9, 1]).unwrap_err(), "incomplete message");
    assert_eq!(
        decode_response(&[0, 0, 0, 9, 1]).unwrap_err(),
        "incomplete response"
    );
    assert_eq!(
        decode_response(&[1]).unwrap_err(),
        "not enough bytes for length"
    );
}

#[test]
fn unknown_variant_is_a_deserialization_error() {
    let bytes = vec![0, 0, 0, 4, 6, 0, 0, 0];
    assert_eq!(
        decode_frame(&bytes).unwrap_err(),
        "deserialization failed: invalid value: integer `6`, expected variant index 0 <= i < 6"
    );
    let bytes = vec![0, 0, 0, 4, 5, 0, 0, 0];
    assert_eq!(
        decode_response(&bytes).unwrap_err(),
        "deserialization failed: invalid value: integer `5`, expected variant index 0 <= i < 5"
    );
    assert_eq!(
        decode_message_payload(&[7, 0, 0, 0]).unwrap_err(),
        "invalid value: integer `7`, expected variant index 0 <= i < 6"
    );
}

#[test]
fn truncated_payload_is_a_deserialization_error() {
    // Connect whose string claims 5 bytes but carries 2.
    let bytes = vec![0, 0, 0, 14, 0, 0, 0, 0, 5, 0, 0, 0, 0, 0, 0, 0, b'a', b'b'];
    let err = try_extract_frame(&bytes).unwrap_err();
    assert!(err.starts_with("deserialization failed: "));
    // invalid UTF-8
    let bytes = vec![1, 0, 0, 0, 1, 0, 0, 0, 0, 0, 0, 0, 0xff];
    assert!(decode_message_payload(&bytes).is_err());
    // bad option tag
    let mut p = bincode::serialize(&(3u32, "a".to_string(), "b".to_string())).unwrap();
    p.push(2);
    assert!(decode_response_payload(&p).is_err());
}

#[test]
fn too_large_text_names_the_length() {
    let bytes = vec![0, 0x10, 0, 1];
    assert_eq!(
        try_extract_frame(&bytes).unwrap_err(),
        "message too large: 1048577 bytes"
    );
    assert_eq!(
        try_extract_response(&bytes).unwrap_err(),
        "response too large: 1048577 bytes"
    );
    // exactly at the limit: waits for the bytes
    let at_limit = (MAX_MESSAGE_SIZE as u32).to_be_bytes();
    assert!(matches!(try_extract_frame(&at_limit), Ok(None)));
}

#[test]
fn decoding_ignores_bytes_past_the_payload() {
    let mut payload = encode_message_payload(&Message::Disconnect).unwrap();
    payload.extend_from_slice(&[1, 2, 3]);
    let m = decode_message_payload(&payload).unwrap();
    assert!(matches!(m, Message::Disconnect));
}

#[test]
fn every_prefix_of_a_frame_waits_and_the_whole_frame_is_taken() {
    for msg in all_messages() {
        let frame = encode_frame(&msg).unwrap();
        for k in 0..frame.len() {
            assert!(matches!(try_extract_frame(&frame[..k]), Ok(None)), "prefix {k} of {msg:?}");
        }
        let mut buf = frame.clone();
        buf.extend_from_slice(&[7, 7, 7]);
        match try_extract_frame(&buf) {
            Ok(Some((m, consumed))) => {
                assert_eq!(consumed, frame.len());
                assert_eq!(format!("{m:?}"), format!("{msg:?}"));
            }
            other => panic!("expected a message, got {other:?}"),
        }
    }
}

#[test]
fn every_prefix_of_a_response_frame_waits() {
    let resp = Response::IncomingMessage {
        from: "alice".to_string(),
        text: "hi".to_string(),
        room: Some("general".to_string()),
    };
    let frame = encode_response(&resp).unwrap();
    for k in 0..frame.len() {
        assert!(matches!(try_extract_response(&frame[..k]), Ok(None)));
    }
    match try_extract_response(&frame) {
        Ok(Some((r, consumed))) => {
            assert_eq!(consumed, frame.len());
            assert_eq!(format!("{r:?}"), format!("{resp:?}"));
        }
        other => panic!("expected a response, got {other:?}"),
    }
}

#[test]
fn deserialization_error_text_is_bincodes_for_the_failed_read() {
    // Connect whose string claims 5 bytes but carries 2
    let payload = vec![0, 0, 0, 0, 5, 0, 0, 0, 0, 0, 0, 0, b'a', b'b'];
    let bincode_text = bincode::deserialize::<String>(&payload[4..])
        .unwrap_err()
        .to_string();
    assert_eq!(decode_message_payload(&payload).unwrap_err(), bincode_text);
    let mut frame = vec![0, 0, 0, payload.len() as u8];
    frame.extend_from_slice(&payload);
    assert_eq!(
        decode_frame(&frame).unwrap_err(),
        format!("deserialization failed: {}", bincode_text)
    );
    assert_eq!(
        try_extract_frame(&frame).unwrap_err(),
        format!("deserialization failed: {}", bincode_text)
    );
    // an incoming message whose room tag is neither 0 nor 1
    let mut p = bincode::serialize(&(3u32, "a".to_string(), "b".to_string())).unwrap();
    p.push(2);
    let bincode_text = bincode::deserialize::<Option<String>>(&[2])
        .unwrap_err()
        .to_string();
    assert_eq!(decode_response_payload(&p).unwrap_err(), bincode_text);
    // a payload too short for the variant index
    let bincode_text = bincode::deserialize::<u32>(&[1, 0]).unwrap_err().to_string();
    assert_eq!(decode_response_payload(&[1, 0]).unwrap_err(), bincode_text);
}

#[test]
fn draining_an_extracted_frame_keeps_the_next_one() {
    let first = encode_frame(&Message::ListUsers).unwrap();
    let second = encode_frame(&Message::Disconnect).unwrap();
    let mut acc = first.clone();
    acc.extend_from_slice(&second);
    let (_, consumed) = try_extract_frame(&acc).unwrap().unwrap();
    drain_consumed(&mut acc, consumed);
    assert_eq!(acc, second);
    let (m, consumed) = try_extract_frame(&acc).unwrap().unwrap();
    assert!(matches!(m, Message::Disconnect));
    drain_consumed(&mut acc, consumed);
    assert!(acc.is_empty());
}
