//! The wire protocol between chat clients and the server.
//!
//! Messages are length-prefixed binary frames:
//!
//! ```text
//! +----------------------------------+
//! | length (4 bytes, big-endian u32) |
//! +----------------------------------+
//! | payload (bincode-serialized)     |
//! +----------------------------------+
//! ```
//!
//! The payload of a value is its variant index as a little-endian `u32`
//! followed by its fields in declaration order, each as bincode encodes it
//! (see `crate::wire`).

use crate::codec::{
    bincode_deserialize_opt_string, bincode_deserialize_string, bincode_deserialize_strings,
    bincode_deserialize_u32, bincode_error_text, bincode_serialize_opt_string, opt_str_read_error,
    str_read_error, strs_read_error, u32_read_error,
    bincode_serialize_string, bincode_serialize_strings, bincode_serialize_u32, opt_str_view,
};
use crate::text::{decimal, u64_to_decimal};
use crate::wire::{
    lemma_read_opt_str_consumed, lemma_read_strs_consumed, lemma_read_u32_consumed,
    lemma_le_bytes_len, lemma_be_u32_roundtrip, lemma_read_opt_str_roundtrip, lemma_read_str_roundtrip,
    lemma_read_strs_roundtrip, lemma_read_u32_roundtrip, bincode_str_items, be_u32_bytes, be_u32_value, bincode_opt_str, bincode_str, bincode_strs, bincode_u32, lemma_read_str_consumed,
    read_opt_str, read_str, read_strs, read_u32, str_views,
};
use vstd::prelude::*;
use vstd::slice::slice_subrange;
use vstd::string::*;
use vstd::utf8::*;

verus! {

broadcast use {vstd::utf8::encode_utf8_valid_utf8, vstd::utf8::encode_utf8_decode_utf8};

/// Messages sent from client to server.
///
/// Each variant represents a distinct action a client can perform.
/// The server responds with a [`Response`] after processing.
#[derive(Debug, Clone)]
pub enum Message {
    /// Register with the server using a username.
    ///
    /// Must be the first message sent. Username must be unique.
    Connect { username: String },
    /// Send a message to the client's current room.
    SendRoomMessage { text: String },
    /// Join a chat room. The default room is "general".
    JoinRoom { room_name: String },
    /// Send a private message to another user.
    SendPrivateMessage { to: String, text: String },
    /// Request the list of all online users.
    ListUsers,
    /// Gracefully disconnect from the server.
    Disconnect,
}

/// Responses sent from server to client.
#[derive(Debug, Clone)]
pub enum Response {
    /// Operation completed successfully.
    Success { message: String },
    /// Operation failed with an error message.
    Error { message: String },
    /// List of currently online usernames.
    UserList { users: Vec<String> },
    /// Incoming chat message from another user: `room` is `Some(name)` for a
    /// room message and `None` for a private one.
    IncomingMessage { from: String, text: String, room: Option<String> },
    /// System notification (e.g., shutdown warning).
    SystemNotification { text: String },
}

/// The mathematical value of a [`Message`].
pub enum MessageView {
    Connect { username: Seq<char> },
    SendRoomMessage { text: Seq<char> },
    JoinRoom { room_name: Seq<char> },
    SendPrivateMessage { to: Seq<char>, text: Seq<char> },
    ListUsers,
    Disconnect,
}

/// The mathematical value of a [`Response`].
pub enum ResponseView {
    Success { message: Seq<char> },
    Error { message: Seq<char> },
    UserList { users: Seq<Seq<char>> },
    IncomingMessage { from: Seq<char>, text: Seq<char>, room: Option<Seq<char>> },
    SystemNotification { text: Seq<char> },
}

impl View for Message {
    type V = MessageView;

    open spec fn view(&self) -> MessageView {
        match self {
            Message::Connect { username } => MessageView::Connect { username: username@ },
            Message::SendRoomMessage { text } => MessageView::SendRoomMessage { text: text@ },
            Message::JoinRoom { room_name } => MessageView::JoinRoom { room_name: room_name@ },
            Message::SendPrivateMessage { to, text } => MessageView::SendPrivateMessage {
                to: to@,
                text: text@,
            },
            Message::ListUsers => MessageView::ListUsers,
            Message::Disconnect => MessageView::Disconnect,
        }
    }
}

impl View for Response {
    type V = ResponseView;

    open spec fn view(&self) -> ResponseView {
        match self {
            Response::Success { message } => ResponseView::Success { message: message@ },
            Response::Error { message } => ResponseView::Error { message: message@ },
            Response::UserList { users } => ResponseView::UserList { users: str_views(users@) },
            Response::IncomingMessage { from, text, room } => ResponseView::IncomingMessage {
                from: from@,
                text: text@,
                room: opt_str_view(*room),
            },
            Response::SystemNotification { text } => ResponseView::SystemNotification {
                text: text@,
            },
        }
    }
}

/// Maximum allowed payload size (1 MB); longer frames are rejected to
/// prevent memory exhaustion.
pub const MAX_MESSAGE_SIZE: usize = 1048576;

// ---------------------------------------------------------------------------
// Payloads.
/// The payload of a message.
pub open spec fn message_payload(m: MessageView) -> Seq<u8> {
    match m {
        MessageView::Connect { username } => bincode_u32(0) + bincode_str(username),
        MessageView::SendRoomMessage { text } => bincode_u32(1) + bincode_str(text),
        MessageView::JoinRoom { room_name } => bincode_u32(2) + bincode_str(room_name),
        MessageView::SendPrivateMessage { to, text } => bincode_u32(3) + bincode_str(to)
            + bincode_str(text),
        MessageView::ListUsers => bincode_u32(4),
        MessageView::Disconnect => bincode_u32(5),
    }
}

/// The payload of a response.
pub open spec fn response_payload(r: ResponseView) -> Seq<u8> {
    match r {
        ResponseView::Success { message } => bincode_u32(0) + bincode_str(message),
        ResponseView::Error { message } => bincode_u32(1) + bincode_str(message),
        ResponseView::UserList { users } => bincode_u32(2) + bincode_strs(users),
        ResponseView::IncomingMessage { from, text, room } => bincode_u32(3) + bincode_str(from)
            + bincode_str(text) + bincode_opt_str(room),
        ResponseView::SystemNotification { text } => bincode_u32(4) + bincode_str(text),
    }
}

/// The message that a payload decodes to, if any (bytes after it are ignored).
pub open spec fn parse_message(b: Seq<u8>) -> Option<MessageView> {
    match read_u32(b) {
        None => None,
        Some((tag, _)) => {
            let r = b.skip(4);
            if tag == 0 {
                match read_str(r) {
                    Some((s, _)) => Some(MessageView::Connect { username: s }),
                    None => None,
                }
            } else if tag == 1 {
                match read_str(r) {
                    Some((s, _)) => Some(MessageView::SendRoomMessage { text: s }),
                    None => None,
                }
            } else if tag == 2 {
                match read_str(r) {
                    Some((s, _)) => Some(MessageView::JoinRoom { room_name: s }),
                    None => None,
                }
            } else if tag == 3 {
                match read_str(r) {
                    Some((to, c)) => match read_str(r.skip(c as int)) {
                        Some((t, _)) => Some(MessageView::SendPrivateMessage { to, text: t }),
                        None => None,
                    },
                    None => None,
                }
            } else if tag == 4 {
                Some(MessageView::ListUsers)
            } else if tag == 5 {
                Some(MessageView::Disconnect)
            } else {
                None
            }
        },
    }
}

/// The response that a payload decodes to, if any (bytes after it are ignored).
pub open spec fn parse_response(b: Seq<u8>) -> Option<ResponseView> {
    match read_u32(b) {
        None => None,
        Some((tag, _)) => {
            let r = b.skip(4);
            if tag == 0 {
                match read_str(r) {
                    Some((s, _)) => Some(ResponseView::Success { message: s }),
                    None => None,
                }
            } else if tag == 1 {
                match read_str(r) {
                    Some((s, _)) => Some(ResponseView::Error { message: s }),
                    None => None,
                }
            } else if tag == 2 {
                match read_strs(r) {
                    Some((v, _)) => Some(ResponseView::UserList { users: v }),
                    None => None,
                }
            } else if tag == 3 {
                match read_str(r) {
                    Some((f, c1)) => match read_str(r.skip(c1 as int)) {
                        Some((t, c2)) => match read_opt_str(r.skip((c1 + c2) as int)) {
                            Some((o, _)) => Some(
                                ResponseView::IncomingMessage { from: f, text: t, room: o },
                            ),
                            None => None,
                        },
                        None => None,
                    },
                    None => None,
                }
            } else if tag == 4 {
                match read_str(r) {
                    Some((s, _)) => Some(ResponseView::SystemNotification { text: s }),
                    None => None,
                }
            } else {
                None
            }
        },
    }
}

/// The error text for a payload that does not decode to a message: bincode's
/// text for the read that failed, or serde's for an unknown variant index.
pub open spec fn message_error(p: Seq<u8>) -> Seq<char> {
    match read_u32(p) {
        None => u32_read_error(p),
        Some((tag, _)) => {
            let r = p.skip(4);
            if tag <= 2 {
                str_read_error(r)
            } else if tag == 3 {
                match read_str(r) {
                    Some((_, c)) => str_read_error(r.skip(c as int)),
                    None => str_read_error(r),
                }
            } else if tag <= 5 {
                Seq::empty()
            } else {
                invalid_variant_text(tag, "6"@)
            }
        },
    }
}

/// The error text for a payload that does not decode to a response: bincode's
/// text for the read that failed, or serde's for an unknown variant index.
pub open spec fn response_error(p: Seq<u8>) -> Seq<char> {
    match read_u32(p) {
        None => u32_read_error(p),
        Some((tag, _)) => {
            let r = p.skip(4);
            if tag <= 1 || tag == 4 {
                str_read_error(r)
            } else if tag == 2 {
                strs_read_error(r)
            } else if tag == 3 {
                match read_str(r) {
                    Some((_, c1)) => match read_str(r.skip(c1 as int)) {
                        Some((_, c2)) => opt_str_read_error(r.skip((c1 + c2) as int)),
                        None => str_read_error(r.skip(c1 as int)),
                    },
                    None => str_read_error(r),
                }
            } else {
                invalid_variant_text(tag, "5"@)
            }
        },
    }
}

/// serde's error text for a variant index outside `0 <= i < bound`.
pub open spec fn invalid_variant_text(tag: u32, bound: Seq<char>) -> Seq<char> {
    "invalid value: integer `"@ + decimal(tag as nat) + "`, expected variant index 0 <= i < "@
        + bound
}

fn append_encoded(out: &mut Vec<u8>, part: Result<Vec<u8>, Box<bincode::ErrorKind>>) -> (res:
    Result<(), String>)
    ensures
        part is Ok ==> res is Ok,
        part matches Ok(p) ==> final(out)@ == old(out)@ + p@,
{
    match part {
        Ok(mut p) => {
            out.append(&mut p);
            Ok(())
        },
        Err(e) => {
            let mut msg = String::from_str("serialization failed: ");
            msg.append(bincode_error_text(&e).as_str());
            Err(msg)
        },
    }
}

/// Encodes a message into its payload.
pub fn encode_message_payload(msg: &Message) -> (res: Result<Vec<u8>, String>)
    ensures
        res is Ok,
        res matches Ok(b) ==> b@ == message_payload(msg@),
{
    let mut out: Vec<u8> = Vec::new();
    let tag: u32 = match msg {
        Message::Connect { .. } => 0,
        Message::SendRoomMessage { .. } => 1,
        Message::JoinRoom { .. } => 2,
        Message::SendPrivateMessage { .. } => 3,
        Message::ListUsers => 4,
        Message::Disconnect => 5,
    };
    let r = append_encoded(&mut out, bincode_serialize_u32(tag));
    if let Err(e) = r {
        return Err(e);
    }
    match msg {
        Message::Connect { username } => {
            let r = append_encoded(&mut out, bincode_serialize_string(username));
            if let Err(e) = r {
                return Err(e);
            }
        },
        Message::SendRoomMessage { text } => {
            let r = append_encoded(&mut out, bincode_serialize_string(text));
            if let Err(e) = r {
                return Err(e);
            }
        },
        Message::JoinRoom { room_name } => {
            let r = append_encoded(&mut out, bincode_serialize_string(room_name));
            if let Err(e) = r {
                return Err(e);
            }
        },
        Message::SendPrivateMessage { to, text } => {
            let r = append_encoded(&mut out, bincode_serialize_string(to));
            if let Err(e) = r {
                return Err(e);
            }
            let r = append_encoded(&mut out, bincode_serialize_string(text));
            if let Err(e) = r {
                return Err(e);
            }
        },
        Message::ListUsers => {},
        Message::Disconnect => {},
    }
    Ok(out)
}

/// Encodes a response into its payload.
pub fn encode_response_payload(resp: &Response) -> (res: Result<Vec<u8>, String>)
    ensures
        res is Ok,
        res matches Ok(b) ==> b@ == response_payload(resp@),
{
    let mut out: Vec<u8> = Vec::new();
    let tag: u32 = match resp {
        Response::Success { .. } => 0,
        Response::Error { .. } => 1,
        Response::UserList { .. } => 2,
        Response::IncomingMessage { .. } => 3,
        Response::SystemNotification { .. } => 4,
    };
    let r = append_encoded(&mut out, bincode_serialize_u32(tag));
    if let Err(e) = r {
        return Err(e);
    }
    match resp {
        Response::Success { message } => {
            let r = append_encoded(&mut out, bincode_serialize_string(message));
            if let Err(e) = r {
                return Err(e);
            }
        },
        Response::Error { message } => {
            let r = append_encoded(&mut out, bincode_serialize_string(message));
            if let Err(e) = r {
                return Err(e);
            }
        },
        Response::UserList { users } => {
            let r = append_encoded(&mut out, bincode_serialize_strings(users));
            if let Err(e) = r {
                return Err(e);
            }
        },
        Response::IncomingMessage { from, text, room } => {
            let r = append_encoded(&mut out, bincode_serialize_string(from));
            if let Err(e) = r {
                return Err(e);
            }
            let r = append_encoded(&mut out, bincode_serialize_string(text));
            if let Err(e) = r {
                return Err(e);
            }
            let r = append_encoded(&mut out, bincode_serialize_opt_string(room));
            if let Err(e) = r {
                return Err(e);
            }
        },
        Response::SystemNotification { text } => {
            let r = append_encoded(&mut out, bincode_serialize_string(text));
            if let Err(e) = r {
                return Err(e);
            }
        },
    }
    Ok(out)
}

/// Reads a string from the front of `b` and says how many bytes it took.
fn take_string(b: &[u8]) -> (res: Result<(String, usize), String>)
    ensures
        res is Ok <==> read_str(b@) is Some,
        res matches Ok((s, c)) ==> s@ == read_str(b@).unwrap().0 && c == read_str(b@).unwrap().1,
        res matches Err(e) ==> e@ == str_read_error(b@),
{
    match bincode_deserialize_string(b) {
        Ok(s) => {
            proof {
                lemma_read_str_consumed(b@);
                vstd::utf8::decode_utf8_encode_utf8(b@.subrange(8, read_str(b@).unwrap().1 as int));
            }
            let ghost c = read_str(b@).unwrap().1;
            let bl = b.len();
            assert(c <= b@.len() == bl);
            assert(encode_utf8(s@).len() + 8 == c);
            let n = s.as_str().len();
            assert(n == encode_utf8(s@).len());
            Ok((s, 8 + n))
        },
        Err(e) => Err(e),
    }
}

/// serde's error for a variant index that the enum does not have.
fn invalid_variant(tag: u32, bound: &str) -> (e: String)
    ensures
        e@ == invalid_variant_text(tag, bound@),
{
    let mut e = String::from_str("invalid value: integer `");
    let digits = u64_to_decimal(tag as u64);
    e.append(digits.as_str());
    e.append("`, expected variant index 0 <= i < ");
    e.append(bound);
    e
}

/// Decodes a payload into a message.  The error is bincode's text for the
/// failed read, or serde's text for an unknown variant index.
pub fn decode_message_payload(p: &[u8]) -> (res: Result<Message, String>)
    ensures
        res is Ok <==> parse_message(p@) is Some,
        res matches Ok(m) ==> m@ == parse_message(p@).unwrap(),
        read_u32(p@) is Some && read_u32(p@).unwrap().0 >= 6 ==> (res matches Err(e) && e@
            == invalid_variant_text(read_u32(p@).unwrap().0, "6"@)),
        res matches Err(e) ==> e@ == message_error(p@),
{
    let tag = match bincode_deserialize_u32(p) {
        Ok(t) => t,
        Err(e) => {
            return Err(e);
        },
    };
    let r = slice_subrange(p, 4, p.len());
    assert(r@ == p@.skip(4));
    if tag == 0 {
        match take_string(r) {
            Ok((s, _)) => Ok(Message::Connect { username: s }),
            Err(e) => Err(e),
        }
    } else if tag == 1 {
        match take_string(r) {
            Ok((s, _)) => Ok(Message::SendRoomMessage { text: s }),
            Err(e) => Err(e),
        }
    } else if tag == 2 {
        match take_string(r) {
            Ok((s, _)) => Ok(Message::JoinRoom { room_name: s }),
            Err(e) => Err(e),
        }
    } else if tag == 3 {
        match take_string(r) {
            Ok((to, c)) => {
                let r2 = slice_subrange(r, c, r.len());
                assert(r2@ == r@.skip(c as int));
                match take_string(r2) {
                    Ok((t, _)) => Ok(Message::SendPrivateMessage { to, text: t }),
                    Err(e) => Err(e),
                }
            },
            Err(e) => Err(e),
        }
    } else if tag == 4 {
        Ok(Message::ListUsers)
    } else if tag == 5 {
        Ok(Message::Disconnect)
    } else {
        Err(invalid_variant(tag, "6"))
    }
}

/// Decodes a payload into a response.  The error is bincode's text for the
/// failed read, or serde's text for an unknown variant index.
pub fn decode_response_payload(p: &[u8]) -> (res: Result<Response, String>)
    ensures
        res is Ok <==> parse_response(p@) is Some,
        res matches Ok(r) ==> r@ == parse_response(p@).unwrap(),
        read_u32(p@) is Some && read_u32(p@).unwrap().0 >= 5 ==> (res matches Err(e) && e@
            == invalid_variant_text(read_u32(p@).unwrap().0, "5"@)),
        res matches Err(e) ==> e@ == response_error(p@),
{
    let tag = match bincode_deserialize_u32(p) {
        Ok(t) => t,
        Err(e) => {
            return Err(e);
        },
    };
    let r = slice_subrange(p, 4, p.len());
    assert(r@ == p@.skip(4));
    if tag == 0 {
        match take_string(r) {
            Ok((s, _)) => Ok(Response::Success { message: s }),
            Err(e) => Err(e),
        }
    } else if tag == 1 {
        match take_string(r) {
            Ok((s, _)) => Ok(Response::Error { message: s }),
            Err(e) => Err(e),
        }
    } else if tag == 2 {
        match bincode_deserialize_strings(r) {
            Ok(v) => Ok(Response::UserList { users: v }),
            Err(e) => Err(e),
        }
    } else if tag == 3 {
        match take_string(r) {
            Ok((f, c1)) => {
                let r2 = slice_subrange(r, c1, r.len());
                assert(r2@ == r@.skip(c1 as int));
                match take_string(r2) {
                    Ok((t, c2)) => {
                        let r3 = slice_subrange(r2, c2, r2.len());
                        assert(r3@ =~= r@.skip((c1 + c2) as int));
                        match bincode_deserialize_opt_string(r3) {
                            Ok(o) => Ok(Response::IncomingMessage { from: f, text: t, room: o }),
                            Err(e) => Err(e),
                        }
                    },
                    Err(e) => Err(e),
                }
            },
            Err(e) => Err(e),
        }
    } else if tag == 4 {
        match take_string(r) {
            Ok((s, _)) => Ok(Response::SystemNotification { text: s }),
            Err(e) => Err(e),
        }
    } else {
        Err(invalid_variant(tag, "5"))
    }
}

// ---------------------------------------------------------------------------
// Frames.
/// A frame: the payload's length as a big-endian `u32` (truncated to 32 bits,
/// as a `u32` cast truncates), then the payload.
pub open spec fn frame_of(payload: Seq<u8>) -> Seq<u8> {
    be_u32_bytes((payload.len() % 0x1_0000_0000) as u32) + payload
}

/// The frame of a message.
pub open spec fn message_frame(m: MessageView) -> Seq<u8> {
    frame_of(message_payload(m))
}

/// The frame of a response.
pub open spec fn response_frame(r: ResponseView) -> Seq<u8> {
    frame_of(response_payload(r))
}

/// The payload length that the first four bytes of `b` announce.
pub open spec fn announced_len(b: Seq<u8>) -> nat
    recommends
        b.len() >= 4,
{
    be_u32_value(b)
}

/// The payload of the frame at the front of `b`.
pub open spec fn frame_body(b: Seq<u8>) -> Seq<u8>
    recommends
        b.len() >= 4 + announced_len(b),
{
    b.subrange(4, 4 + announced_len(b) as int)
}

/// Whether `b` holds a whole frame: a header and all the bytes it announces.
pub open spec fn holds_frame(b: Seq<u8>) -> bool {
    b.len() >= 4 && b.len() >= 4 + announced_len(b)
}

/// Whether an error text is a deserialization error: "deserialization
/// failed: " followed by bincode's or serde's text.
pub open spec fn is_deserialization_error(e: Seq<char>) -> bool {
    let prefix = "deserialization failed: "@;
    e.len() >= prefix.len() && e.take(prefix.len() as int) == prefix
}

fn frame_payload(payload: Vec<u8>) -> (frame: Vec<u8>)
    ensures
        frame@ == frame_of(payload@),
{
    let len: u64 = payload.len() as u64;
    let h: u32 = (len % 0x1_0000_0000) as u32;
    let mut frame: Vec<u8> = Vec::new();
    frame.push((h / 0x100_0000) as u8);
    frame.push(((h / 0x1_0000) % 0x100) as u8);
    frame.push(((h / 0x100) % 0x100) as u8);
    frame.push((h % 0x100) as u8);
    let mut p = payload;
    frame.append(&mut p);
    assert(frame@ =~= frame_of(payload@));
    frame
}

/// The length announced by the four header bytes at the front of `b`.
fn read_header(b: &[u8]) -> (n: usize)
    requires
        b@.len() >= 4,
    ensures
        n == announced_len(b@),
{
    let n: u32 = (b[0] as u32) * 0x100_0000 + (b[1] as u32) * 0x1_0000 + (b[2] as u32) * 0x100
        + (b[3] as u32);
    n as usize
}

fn deserialization_error(detail: String) -> (e: String)
    ensures
        e@ == "deserialization failed: "@ + detail@,
        is_deserialization_error(e@),
{
    let mut e = String::from_str("deserialization failed: ");
    e.append(detail.as_str());
    assert(e@.take("deserialization failed: "@.len() as int) =~= "deserialization failed: "@);
    e
}

/// Encodes a [`Message`] into a length-prefixed binary frame:
/// `[4-byte big-endian length][bincode payload]`.
pub fn encode_frame(msg: &Message) -> (res: Result<Vec<u8>, String>)
    ensures
        res is Ok,
        res matches Ok(f) ==> f@ == message_frame(msg@),
{
    match encode_message_payload(msg) {
        Ok(p) => Ok(frame_payload(p)),
        Err(e) => Err(e),
    }
}

/// Encodes a [`Response`] into a length-prefixed binary frame.
pub fn encode_response(resp: &Response) -> (res: Result<Vec<u8>, String>)
    ensures
        res is Ok,
        res matches Ok(f) ==> f@ == response_frame(resp@),
{
    match encode_response_payload(resp) {
        Ok(p) => Ok(frame_payload(p)),
        Err(e) => Err(e),
    }
}

/// Decodes a length-prefixed binary frame into a [`Message`].
///
/// Errors: "not enough bytes for length" (fewer than 4 bytes), "incomplete
/// message" (the header announces more bytes than there are), or
/// "deserialization failed: ..." (the payload is not a valid `Message`).
pub fn decode_frame(bytes: &[u8]) -> (res: Result<Message, String>)
    ensures
        bytes@.len() < 4 ==> (res matches Err(e) && e@ == "not enough bytes for length"@),
        bytes@.len() >= 4 && !holds_frame(bytes@) ==> (res matches Err(e) && e@
            == "incomplete message"@),
        res is Ok <==> holds_frame(bytes@) && parse_message(frame_body(bytes@)) is Some,
        res matches Ok(m) ==> m@ == parse_message(frame_body(bytes@)).unwrap(),
        holds_frame(bytes@) ==> (res matches Err(e) ==> is_deserialization_error(e@)),
        holds_frame(bytes@) && read_u32(frame_body(bytes@)) is Some && read_u32(
            frame_body(bytes@),
        ).unwrap().0 >= 6 ==> (res matches Err(e) && e@ == "deserialization failed: "@
            + invalid_variant_text(read_u32(frame_body(bytes@)).unwrap().0, "6"@)),
        holds_frame(bytes@) ==> (res matches Err(e) ==> e@ == "deserialization failed: "@
            + message_error(frame_body(bytes@))),
{
    if bytes.len() < 4 {
        return Err(String::from_str("not enough bytes for length"));
    }
    let length = read_header(bytes);
    if bytes.len() - 4 < length {
        return Err(String::from_str("incomplete message"));
    }
    let payload = slice_subrange(bytes, 4, 4 + length);
    match decode_message_payload(payload) {
        Ok(m) => Ok(m),
        Err(e) => Err(deserialization_error(e)),
    }
}

/// Decodes a length-prefixed binary frame into a [`Response`].
///
/// Errors: "not enough bytes for length", "incomplete response", or
/// "deserialization failed: ...".
pub fn decode_response(bytes: &[u8]) -> (res: Result<Response, String>)
    ensures
        bytes@.len() < 4 ==> (res matches Err(e) && e@ == "not enough bytes for length"@),
        bytes@.len() >= 4 && !holds_frame(bytes@) ==> (res matches Err(e) && e@
            == "incomplete response"@),
        res is Ok <==> holds_frame(bytes@) && parse_response(frame_body(bytes@)) is Some,
        res matches Ok(r) ==> r@ == parse_response(frame_body(bytes@)).unwrap(),
        holds_frame(bytes@) ==> (res matches Err(e) ==> is_deserialization_error(e@)),
        holds_frame(bytes@) && read_u32(frame_body(bytes@)) is Some && read_u32(
            frame_body(bytes@),
        ).unwrap().0 >= 5 ==> (res matches Err(e) && e@ == "deserialization failed: "@
            + invalid_variant_text(read_u32(frame_body(bytes@)).unwrap().0, "5"@)),
        holds_frame(bytes@) ==> (res matches Err(e) ==> e@ == "deserialization failed: "@
            + response_error(frame_body(bytes@))),
{
    if bytes.len() < 4 {
        return Err(String::from_str("not enough bytes for length"));
    }
    let length = read_header(bytes);
    if bytes.len() - 4 < length {
        return Err(String::from_str("incomplete response"));
    }
    let payload = slice_subrange(bytes, 4, 4 + length);
    match decode_response_payload(payload) {
        Ok(r) => Ok(r),
        Err(e) => Err(deserialization_error(e)),
    }
}

/// The error text for a frame whose header announces more than
/// [`MAX_MESSAGE_SIZE`] bytes.
pub open spec fn too_large_text(kind: Seq<char>, n: nat) -> Seq<char> {
    kind + " too large: "@ + decimal(n) + " bytes"@
}

fn too_large(kind: &str, n: usize) -> (e: String)
    ensures
        e@ == too_large_text(kind@, n as nat),
{
    let mut e = String::from_str(kind);
    e.append(" too large: ");
    let digits = u64_to_decimal(n as u64);
    e.append(digits.as_str());
    e.append(" bytes");
    e
}

/// Attempts to extract a complete [`Message`] from an accumulator buffer
/// (partial reads and several frames in one buffer are allowed).
///
/// - `Ok(None)`: not enough bytes yet, keep reading;
/// - `Ok(Some((message, consumed)))`: a message, drain `consumed` bytes;
/// - `Err(..)`: malformed data ("message too large: N bytes" when the header
///   announces more than [`MAX_MESSAGE_SIZE`] bytes, or a deserialization
///   error); the connection should be closed.
pub fn try_extract_frame(bytes: &[u8]) -> (res: Result<Option<(Message, usize)>, String>)
    ensures
        bytes@.len() < 4 ==> res matches Ok(None),
        bytes@.len() >= 4 && announced_len(bytes@) > MAX_MESSAGE_SIZE ==> (res matches Err(e)
            && e@ == too_large_text("message"@, announced_len(bytes@))),
        bytes@.len() >= 4 && announced_len(bytes@) <= MAX_MESSAGE_SIZE && !holds_frame(bytes@)
            ==> res matches Ok(None),
        res matches Ok(Some((m, c))) <==> announced_len(bytes@) <= MAX_MESSAGE_SIZE && holds_frame(
            bytes@,
        ) && parse_message(frame_body(bytes@)) is Some,
        res matches Ok(Some((m, c))) ==> m@ == parse_message(frame_body(bytes@)).unwrap() && c == 4
            + announced_len(bytes@),
        announced_len(bytes@) <= MAX_MESSAGE_SIZE && holds_frame(bytes@) && parse_message(
            frame_body(bytes@),
        ) is None ==> res is Err,
        announced_len(bytes@) <= MAX_MESSAGE_SIZE && holds_frame(bytes@) ==> (res matches Err(e)
            ==> is_deserialization_error(e@)),
        announced_len(bytes@) <= MAX_MESSAGE_SIZE && holds_frame(bytes@) && read_u32(frame_body(bytes@)) is Some && read_u32(
            frame_body(bytes@),
        ).unwrap().0 >= 6 ==> (res matches Err(e) && e@ == "deserialization failed: "@
            + invalid_variant_text(read_u32(frame_body(bytes@)).unwrap().0, "6"@)),
        announced_len(bytes@) <= MAX_MESSAGE_SIZE && holds_frame(bytes@) ==> (res matches Err(e) ==> e@ == "deserialization failed: "@
            + message_error(frame_body(bytes@))),
{
    if bytes.len() < 4 {
        return Ok(None);
    }
    let length = read_header(bytes);
    if length > MAX_MESSAGE_SIZE {
        return Err(too_large("message", length));
    }
    let total_frame_size = 4 + length;
    if bytes.len() < total_frame_size {
        return Ok(None);
    }
    let payload = slice_subrange(bytes, 4, total_frame_size);
    match decode_message_payload(payload) {
        Ok(m) => Ok(Some((m, total_frame_size))),
        Err(e) => Err(deserialization_error(e)),
    }
}

/// Drops the `consumed` bytes of an extracted frame from the front of an
/// accumulator buffer, keeping the bytes that follow it.
pub fn drain_consumed(accumulator: &mut Vec<u8>, consumed: usize)
    requires
        consumed <= old(accumulator)@.len(),
    ensures
        final(accumulator)@ == old(accumulator)@.skip(consumed as int),
{
    let rest = accumulator.split_off(consumed);
    *accumulator = rest;
}

/// Attempts to extract a complete [`Response`] from an accumulator buffer:
/// the client-side counterpart of [`try_extract_frame`].
pub fn try_extract_response(bytes: &[u8]) -> (res: Result<Option<(Response, usize)>, String>)
    ensures
        bytes@.len() < 4 ==> res matches Ok(None),
        bytes@.len() >= 4 && announced_len(bytes@) > MAX_MESSAGE_SIZE ==> (res matches Err(e)
            && e@ == too_large_text("response"@, announced_len(bytes@))),
        bytes@.len() >= 4 && announced_len(bytes@) <= MAX_MESSAGE_SIZE && !holds_frame(bytes@)
            ==> res matches Ok(None),
        res matches Ok(Some((r, c))) <==> announced_len(bytes@) <= MAX_MESSAGE_SIZE && holds_frame(
            bytes@,
        ) && parse_response(frame_body(bytes@)) is Some,
        res matches Ok(Some((r, c))) ==> r@ == parse_response(frame_body(bytes@)).unwrap() && c
            == 4 + announced_len(bytes@),
        announced_len(bytes@) <= MAX_MESSAGE_SIZE && holds_frame(bytes@) && parse_response(
            frame_body(bytes@),
        ) is None ==> res is Err,
        announced_len(bytes@) <= MAX_MESSAGE_SIZE && holds_frame(bytes@) ==> (res matches Err(e)
            ==> is_deserialization_error(e@)),
        announced_len(bytes@) <= MAX_MESSAGE_SIZE && holds_frame(bytes@) && read_u32(frame_body(bytes@)) is Some && read_u32(
            frame_body(bytes@),
        ).unwrap().0 >= 5 ==> (res matches Err(e) && e@ == "deserialization failed: "@
            + invalid_variant_text(read_u32(frame_body(bytes@)).unwrap().0, "5"@)),
        announced_len(bytes@) <= MAX_MESSAGE_SIZE && holds_frame(bytes@) ==> (res matches Err(e) ==> e@ == "deserialization failed: "@
            + response_error(frame_body(bytes@))),
{
    if bytes.len() < 4 {
        return Ok(None);
    }
    let length = read_header(bytes);
    if length > MAX_MESSAGE_SIZE {
        return Err(too_large("response", length));
    }
    let total_frame_size = 4 + length;
    if bytes.len() < total_frame_size {
        return Ok(None);
    }
    let payload = slice_subrange(bytes, 4, total_frame_size);
    match decode_response_payload(payload) {
        Ok(r) => Ok(Some((r, total_frame_size))),
        Err(e) => Err(deserialization_error(e)),
    }
}

// ---------------------------------------------------------------------------
// Round trips.
proof fn lemma_frame_header(p: Seq<u8>, rest: Seq<u8>)
    requires
        p.len() < 0x1_0000_0000,
    ensures
        holds_frame(frame_of(p) + rest),
        announced_len(frame_of(p) + rest) == p.len(),
        frame_of(p).len() == 4 + p.len(),
        frame_body(frame_of(p) + rest) == p,
{
    let h = be_u32_bytes(p.len() as u32);
    lemma_be_u32_roundtrip(p.len() as u32);
    let b = frame_of(p) + rest;
    assert(b[0] == h[0] && b[1] == h[1] && b[2] == h[2] && b[3] == h[3]);
    assert(be_u32_value(b) == be_u32_value(h));
    assert(frame_body(b) =~= p);
}

proof fn lemma_str_fits(s: Seq<char>, whole: Seq<u8>)
    requires
        bincode_str(s).len() <= whole.len(),
        whole.len() < 0x1_0000_0000,
    ensures
        encode_utf8(s).len() <= usize::MAX,
{
}

proof fn lemma_str_items_fit(v: Seq<Seq<char>>)
    ensures
        bincode_str_items(v).len() >= 8 * v.len(),
        forall|i: int|
            0 <= i < v.len() ==> encode_utf8(#[trigger] v[i]).len() <= bincode_str_items(v).len(),
    decreases v.len(),
{
    if v.len() > 0 {
        lemma_str_items_fit(v.drop_first());
        lemma_le_bytes_len(encode_utf8(v[0]).len(), 8);
        assert forall|i: int| 0 <= i < v.len() implies encode_utf8(#[trigger] v[i]).len()
            <= bincode_str_items(v).len() by {
            if i > 0 {
                assert(v[i] == v.drop_first()[i - 1]);
            }
        }
    }
}

/// A variant index followed by one string reads back as that index and
/// string.
proof fn lemma_tag_str_roundtrip(tag: u32, s: Seq<char>, rest: Seq<u8>)
    requires
        encode_utf8(s).len() <= usize::MAX,
    ensures
        read_u32(bincode_u32(tag) + bincode_str(s) + rest) == Some((tag, 4nat)),
        (bincode_u32(tag) + bincode_str(s) + rest).skip(4) == bincode_str(s) + rest,
        read_str(bincode_str(s) + rest) == Some((s, bincode_str(s).len())),
{
    lemma_read_u32_roundtrip(tag, bincode_str(s) + rest);
    assert(bincode_u32(tag) + bincode_str(s) + rest =~= bincode_u32(tag) + (bincode_str(s)
        + rest));
    assert((bincode_u32(tag) + bincode_str(s) + rest).skip(4) =~= bincode_str(s) + rest);
    lemma_read_str_roundtrip(s, rest);
}

/// Wire compatibility of messages: a message's payload is bincode's encoding
/// of the enum, whose variant index is the variant's place in the
/// declaration of `Message` (`Connect` 0, `SendRoomMessage` 1, `JoinRoom` 2,
/// `SendPrivateMessage` 3, `ListUsers` 4, `Disconnect` 5) followed by its
/// fields; and bytes written that way by any bincode peer decode to that
/// variant, whatever follows them.
pub proof fn law_message_variants_are_numbered_in_declaration_order(
    t: Seq<char>,
    u: Seq<char>,
    rest: Seq<u8>,
)
    requires
        encode_utf8(t).len() <= usize::MAX,
        encode_utf8(u).len() <= usize::MAX,
    ensures
        message_payload(MessageView::Connect { username: t }) == bincode_u32(0) + bincode_str(t),
        message_payload(MessageView::SendRoomMessage { text: t }) == bincode_u32(1) + bincode_str(t),
        message_payload(MessageView::JoinRoom { room_name: t }) == bincode_u32(2) + bincode_str(t),
        message_payload(MessageView::SendPrivateMessage { to: t, text: u }) == bincode_u32(3)
            + bincode_str(t) + bincode_str(u),
        message_payload(MessageView::ListUsers) == bincode_u32(4),
        message_payload(MessageView::Disconnect) == bincode_u32(5),
        parse_message(bincode_u32(0) + bincode_str(t) + rest) == Some(
            MessageView::Connect { username: t },
        ),
        parse_message(bincode_u32(1) + bincode_str(t) + rest) == Some(
            MessageView::SendRoomMessage { text: t },
        ),
        parse_message(bincode_u32(2) + bincode_str(t) + rest) == Some(
            MessageView::JoinRoom { room_name: t },
        ),
        parse_message(bincode_u32(3) + bincode_str(t) + bincode_str(u) + rest) == Some(
            MessageView::SendPrivateMessage { to: t, text: u },
        ),
        parse_message(bincode_u32(4) + rest) == Some(MessageView::ListUsers),
        parse_message(bincode_u32(5) + rest) == Some(MessageView::Disconnect),
{
    lemma_tag_str_roundtrip(0, t, rest);
    lemma_tag_str_roundtrip(1, t, rest);
    lemma_tag_str_roundtrip(2, t, rest);
    let tail = bincode_str(u) + rest;
    lemma_tag_str_roundtrip(3, t, tail);
    let b = bincode_u32(3) + bincode_str(t) + bincode_str(u) + rest;
    assert(b =~= bincode_u32(3) + bincode_str(t) + tail);
    assert(b.skip(4) =~= bincode_str(t) + tail);
    assert(b.skip(4).skip(bincode_str(t).len() as int) =~= tail);
    lemma_read_str_roundtrip(u, rest);
    lemma_read_u32_roundtrip(4, rest);
    lemma_read_u32_roundtrip(5, rest);
}

/// Wire compatibility of responses: a response's payload is bincode's
/// encoding of the enum, whose variant index is the variant's place in the
/// declaration of `Response` (`Success` 0, `Error` 1, `UserList` 2,
/// `IncomingMessage` 3, `SystemNotification` 4) followed by its fields; and
/// bytes written that way by any bincode peer decode to that variant,
/// whatever follows them.
pub proof fn law_response_variants_are_numbered_in_declaration_order(
    t: Seq<char>,
    u: Seq<char>,
    users: Seq<Seq<char>>,
    room: Option<Seq<char>>,
    rest: Seq<u8>,
)
    requires
        encode_utf8(t).len() <= usize::MAX,
        bincode_u32(2).len() + bincode_strs(users).len() < 0x1_0000_0000,
        bincode_u32(3).len() + bincode_str(t).len() + bincode_str(u).len() + bincode_opt_str(
            room,
        ).len() < 0x1_0000_0000,
    ensures
        response_payload(ResponseView::Success { message: t }) == bincode_u32(0) + bincode_str(t),
        response_payload(ResponseView::Error { message: t }) == bincode_u32(1) + bincode_str(t),
        response_payload(ResponseView::UserList { users }) == bincode_u32(2) + bincode_strs(users),
        response_payload(ResponseView::IncomingMessage { from: t, text: u, room }) == bincode_u32(3)
            + bincode_str(t) + bincode_str(u) + bincode_opt_str(room),
        response_payload(ResponseView::SystemNotification { text: t }) == bincode_u32(4)
            + bincode_str(t),
        parse_response(bincode_u32(0) + bincode_str(t) + rest) == Some(
            ResponseView::Success { message: t },
        ),
        parse_response(bincode_u32(1) + bincode_str(t) + rest) == Some(
            ResponseView::Error { message: t },
        ),
        parse_response(bincode_u32(2) + bincode_strs(users) + rest) == Some(
            ResponseView::UserList { users },
        ),
        parse_response(bincode_u32(3) + bincode_str(t) + bincode_str(u) + bincode_opt_str(room)
            + rest) == Some(ResponseView::IncomingMessage { from: t, text: u, room }),
        parse_response(bincode_u32(4) + bincode_str(t) + rest) == Some(
            ResponseView::SystemNotification { text: t },
        ),
{
    lemma_tag_str_roundtrip(0, t, rest);
    lemma_tag_str_roundtrip(1, t, rest);
    lemma_tag_str_roundtrip(4, t, rest);
    let ul = ResponseView::UserList { users };
    lemma_read_u32_roundtrip(2, seq![]);
    lemma_response_payload_roundtrip(ul, rest);
    let im = ResponseView::IncomingMessage { from: t, text: u, room };
    lemma_read_u32_roundtrip(3, seq![]);
    lemma_response_payload_roundtrip(im, rest);
}

/// A message's payload decodes to that message, whatever bytes follow it.
pub proof fn lemma_message_payload_roundtrip(m: MessageView, rest: Seq<u8>)
    requires
        message_payload(m).len() < 0x1_0000_0000,
    ensures
        parse_message(message_payload(m) + rest) == Some(m),
{
    let p = message_payload(m);
    match m {
        MessageView::Connect { username: s } => {
            lemma_str_fits(s, p);
            lemma_tag_str_roundtrip(0, s, rest);
        },
        MessageView::SendRoomMessage { text: s } => {
            lemma_str_fits(s, p);
            lemma_tag_str_roundtrip(1, s, rest);
        },
        MessageView::JoinRoom { room_name: s } => {
            lemma_str_fits(s, p);
            lemma_tag_str_roundtrip(2, s, rest);
        },
        MessageView::SendPrivateMessage { to, text } => {
            lemma_str_fits(to, p);
            lemma_str_fits(text, p);
            let tail = bincode_str(text) + rest;
            lemma_tag_str_roundtrip(3, to, tail);
            assert(p + rest =~= bincode_u32(3) + bincode_str(to) + tail);
            let r = (p + rest).skip(4);
            assert(r =~= bincode_str(to) + tail);
            assert(r.skip(bincode_str(to).len() as int) =~= tail);
            lemma_read_str_roundtrip(text, rest);
        },
        MessageView::ListUsers => {
            lemma_read_u32_roundtrip(4, rest);
        },
        MessageView::Disconnect => {
            lemma_read_u32_roundtrip(5, rest);
        },
    }
}

proof fn lemma_user_list_roundtrip(users: Seq<Seq<char>>, rest: Seq<u8>)
    requires
        response_payload(ResponseView::UserList { users }).len() < 0x1_0000_0000,
    ensures
        parse_response(response_payload(ResponseView::UserList { users }) + rest) == Some(
            ResponseView::UserList { users },
        ),
{
    let p = response_payload(ResponseView::UserList { users });
    lemma_str_items_fit(users);
    lemma_le_bytes_len(users.len(), 8);
    lemma_read_u32_roundtrip(2, bincode_strs(users) + rest);
    assert(p + rest =~= bincode_u32(2) + (bincode_strs(users) + rest));
    assert((p + rest).skip(4) =~= bincode_strs(users) + rest);
    lemma_read_strs_roundtrip(users, rest);
}

proof fn lemma_incoming_roundtrip(
    from: Seq<char>,
    text: Seq<char>,
    room: Option<Seq<char>>,
    rest: Seq<u8>,
)
    requires
        response_payload(ResponseView::IncomingMessage { from, text, room }).len()
            < 0x1_0000_0000,
    ensures
        parse_response(response_payload(ResponseView::IncomingMessage { from, text, room }) + rest)
            == Some(ResponseView::IncomingMessage { from, text, room }),
{
    let p = response_payload(ResponseView::IncomingMessage { from, text, room });
    lemma_str_fits(from, p);
    lemma_str_fits(text, p);
    let o = bincode_opt_str(room);
    match room {
        Some(s) => {
            assert(o == seq![1u8] + bincode_str(s));
            lemma_str_fits(s, p);
        },
        None => {},
    }
    let tail = bincode_str(text) + (o + rest);
    lemma_tag_str_roundtrip(3, from, tail);
    assert(p + rest =~= bincode_u32(3) + bincode_str(from) + tail);
    let b = (p + rest).skip(4);
    assert(b =~= bincode_str(from) + tail);
    let c1 = bincode_str(from).len();
    assert(b.skip(c1 as int) =~= tail);
    lemma_read_str_roundtrip(text, o + rest);
    let c2 = bincode_str(text).len();
    assert(b.skip((c1 + c2) as int) =~= o + rest);
    lemma_read_opt_str_roundtrip(room, rest);
}

/// A response's payload decodes to that response, whatever bytes follow it.
pub proof fn lemma_response_payload_roundtrip(r: ResponseView, rest: Seq<u8>)
    requires
        response_payload(r).len() < 0x1_0000_0000,
    ensures
        parse_response(response_payload(r) + rest) == Some(r),
{
    let p = response_payload(r);
    match r {
        ResponseView::Success { message: s } => {
            lemma_str_fits(s, p);
            lemma_tag_str_roundtrip(0, s, rest);
        },
        ResponseView::Error { message: s } => {
            lemma_str_fits(s, p);
            lemma_tag_str_roundtrip(1, s, rest);
        },
        ResponseView::SystemNotification { text: s } => {
            lemma_str_fits(s, p);
            lemma_tag_str_roundtrip(4, s, rest);
        },
        ResponseView::UserList { users } => {
            lemma_user_list_roundtrip(users, rest);
        },
        ResponseView::IncomingMessage { from, text, room } => {
            lemma_incoming_roundtrip(from, text, room, rest);
        },
    }
}

/// Decoding a frame gives back the message that was encoded into it, whatever
/// bytes follow the frame, for every message whose payload's length fits the
/// 32-bit header.
pub proof fn law_decode_frame_inverts_encode_frame(m: MessageView, rest: Seq<u8>)
    requires
        message_payload(m).len() < 0x1_0000_0000,
    ensures
        holds_frame(message_frame(m) + rest),
        4 + announced_len(message_frame(m) + rest) == message_frame(m).len(),
        parse_message(frame_body(message_frame(m) + rest)) == Some(m),
{
    lemma_frame_header(message_payload(m), rest);
    lemma_message_payload_roundtrip(m, seq![]);
    assert(message_payload(m) + seq![] =~= message_payload(m));
}

/// Decoding a response frame gives back the response that was encoded into
/// it, whatever bytes follow the frame.
pub proof fn law_decode_response_inverts_encode_response(r: ResponseView, rest: Seq<u8>)
    requires
        response_payload(r).len() < 0x1_0000_0000,
    ensures
        holds_frame(response_frame(r) + rest),
        4 + announced_len(response_frame(r) + rest) == response_frame(r).len(),
        parse_response(frame_body(response_frame(r) + rest)) == Some(r),
{
    lemma_frame_header(response_payload(r), rest);
    lemma_response_payload_roundtrip(r, seq![]);
    assert(response_payload(r) + seq![] =~= response_payload(r));
}

proof fn lemma_frame_prefix(p: Seq<u8>, k: nat)
    requires
        p.len() < 0x1_0000_0000,
        4 <= k < frame_of(p).len(),
    ensures
        announced_len(frame_of(p).take(k as int)) == p.len(),
        !holds_frame(frame_of(p).take(k as int)),
{
    lemma_frame_header(p, seq![]);
    let f = frame_of(p);
    let b = f.take(k as int);
    assert(f + seq![] =~= f);
    assert(b[0] == f[0] && b[1] == f[1] && b[2] == f[2] && b[3] == f[3]);
    assert(be_u32_value(b) == be_u32_value(f));
}

/// Accumulator law: bytes that stop short of a whole message frame hold no
/// message yet (the reader waits for more, unless fewer than four bytes are
/// there, which it waits for too), and a whole frame, followed by anything,
/// holds exactly its message within the size limit and is consumed exactly.
pub proof fn law_message_frames_are_extracted_whole(m: MessageView, k: nat, rest: Seq<u8>)
    requires
        message_payload(m).len() <= MAX_MESSAGE_SIZE,
        k < message_frame(m).len(),
    ensures
        k >= 4 ==> announced_len(message_frame(m).take(k as int)) <= MAX_MESSAGE_SIZE
            && !holds_frame(message_frame(m).take(k as int)),
        announced_len(message_frame(m) + rest) <= MAX_MESSAGE_SIZE,
        holds_frame(message_frame(m) + rest),
        parse_message(frame_body(message_frame(m) + rest)) == Some(m),
        4 + announced_len(message_frame(m) + rest) == message_frame(m).len(),
{
    law_decode_frame_inverts_encode_frame(m, rest);
    if k >= 4 {
        lemma_frame_prefix(message_payload(m), k);
    }
}

/// Accumulator law for responses (see
/// [`law_message_frames_are_extracted_whole`]).
pub proof fn law_response_frames_are_extracted_whole(r: ResponseView, k: nat, rest: Seq<u8>)
    requires
        response_payload(r).len() <= MAX_MESSAGE_SIZE,
        k < response_frame(r).len(),
    ensures
        k >= 4 ==> announced_len(response_frame(r).take(k as int)) <= MAX_MESSAGE_SIZE
            && !holds_frame(response_frame(r).take(k as int)),
        announced_len(response_frame(r) + rest) <= MAX_MESSAGE_SIZE,
        holds_frame(response_frame(r) + rest),
        parse_response(frame_body(response_frame(r) + rest)) == Some(r),
        4 + announced_len(response_frame(r) + rest) == response_frame(r).len(),
{
    law_decode_response_inverts_encode_response(r, rest);
    if k >= 4 {
        lemma_frame_prefix(response_payload(r), k);
    }
}

/// Encoding is the only way to write a message: every payload that decodes
/// to a message starts with exactly that message's encoding (what follows
/// is ignored by decoding).
#[verifier::spinoff_prover]
pub proof fn law_decoded_message_reencodes_to_payload(p: Seq<u8>)
    requires
        parse_message(p) is Some,
    ensures
        message_payload(parse_message(p).unwrap()).len() <= p.len(),
        p.take(message_payload(parse_message(p).unwrap()).len() as int) == message_payload(
            parse_message(p).unwrap(),
        ),
{
    lemma_read_u32_consumed(p);
    let tag = read_u32(p).unwrap().0;
    let r = p.skip(4);
    let m = parse_message(p).unwrap();
    if tag <= 2 {
        lemma_read_str_consumed(r);
        let (s, c) = read_str(r).unwrap();
        assert(p.take(4 + c as int) =~= p.take(4) + r.take(c as int));
    } else if tag == 3 {
        lemma_read_str_consumed(r);
        let (to, c1) = read_str(r).unwrap();
        lemma_read_str_consumed(r.skip(c1 as int));
        let (t, c2) = read_str(r.skip(c1 as int)).unwrap();
        assert(p.take((4 + c1 + c2) as int) =~= p.take(4) + r.take(c1 as int) + r.skip(c1 as int).take(
            c2 as int,
        ));
    }
}

/// Every payload that decodes to a response starts with exactly that
/// response's encoding.
#[verifier::spinoff_prover]
#[verifier::rlimit(40)]
pub proof fn law_decoded_response_reencodes_to_payload(p: Seq<u8>)
    requires
        parse_response(p) is Some,
    ensures
        response_payload(parse_response(p).unwrap()).len() <= p.len(),
        p.take(response_payload(parse_response(p).unwrap()).len() as int) == response_payload(
            parse_response(p).unwrap(),
        ),
{
    lemma_read_u32_consumed(p);
    let tag = read_u32(p).unwrap().0;
    let r = p.skip(4);
    if tag <= 1 || tag == 4 {
        lemma_read_str_consumed(r);
        let (s, c) = read_str(r).unwrap();
        assert(p.take(4 + c as int) =~= p.take(4) + r.take(c as int));
    } else if tag == 2 {
        lemma_read_strs_consumed(r);
        let (v, c) = read_strs(r).unwrap();
        assert(p.take(4 + c as int) =~= p.take(4) + r.take(c as int));
    } else if tag == 3 {
        lemma_read_str_consumed(r);
        let (f, c1) = read_str(r).unwrap();
        let r2 = r.skip(c1 as int);
        lemma_read_str_consumed(r2);
        let (t, c2) = read_str(r2).unwrap();
        let r3 = r.skip((c1 + c2) as int);
        lemma_read_opt_str_consumed(r3);
        let (o, c3) = read_opt_str(r3).unwrap();
        assert(r2.skip(c2 as int) =~= r3);
        assert(p.take((4 + c1 + c2 + c3) as int) =~= p.take(4) + r.take(c1 as int) + r2.take(c2 as int)
            + r3.take(c3 as int));
    }
}

} // verus!
