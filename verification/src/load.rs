//! The traffic model of the load tester: how each simulated client is named,
//! which room it starts in, and which message it sends next.

use crate::protocol::{Message, MessageView, Response, ResponseView};
use crate::text::{decimal, u64_to_decimal};
use crate::draw::{draw_below, Drawn};
use crate::wire::str_views;
use rand::rngs::SmallRng;
use std::sync::atomic::AtomicU64;
use vstd::prelude::*;
use vstd::string::*;

verus! {

#[verifier::external_type_specification]
#[verifier::external_body]
pub struct ExSmallRng(SmallRng);

#[verifier::external_type_specification]
#[verifier::external_body]
pub struct ExAnyhowError(anyhow::Error);

/// The text an `anyhow` error displays.
pub uninterp spec fn anyhow_text(e: anyhow::Error) -> Seq<char>;

/// `anyhow::Error::msg`: an error whose message is `message`; anyhow's source
/// wraps it so that the error displays exactly `message`.
#[verifier::external_body]
fn anyhow_error(message: String) -> (e: anyhow::Error)
    ensures
        anyhow_text(e) == message@,
{
    anyhow::Error::msg(message)
}

/// Converts a `String` error into an `anyhow` error, keeping the value and
/// the error's text.
pub fn str_err<T>(r: Result<T, String>) -> (res: Result<T, anyhow::Error>)
    ensures
        r is Ok <==> res is Ok,
        r matches Ok(v) ==> res matches Ok(w) && w == v,
        r matches Err(s) ==> res matches Err(e) && anyhow_text(e) == s@,
{
    match r {
        Ok(v) => Ok(v),
        Err(s) => Err(anyhow_error(s)),
    }
}

/// Counters shared by the simulated clients.
pub struct Stats {
    pub connected: AtomicU64,
    pub connect_failed: AtomicU64,
    pub messages_sent: AtomicU64,
    pub messages_received: AtomicU64,
    pub errors: AtomicU64,
}

impl Stats {
    /// All counters at zero.
    pub fn new() -> Stats {
        Stats {
            connected: AtomicU64::new(0),
            connect_failed: AtomicU64::new(0),
            messages_sent: AtomicU64::new(0),
            messages_received: AtomicU64::new(0),
            errors: AtomicU64::new(0),
        }
    }
}

/// The kinds of message a simulated client sends.
#[derive(Debug, Clone, Copy, PartialEq, Eq, Structural)]
pub enum MessageType {
    RoomMessage,
    DirectMessage,
    ListUsers,
    JoinRoom,
}

/// The traffic mix, in percent of messages.
#[derive(Debug, Clone, Copy, PartialEq, Eq, Structural)]
pub struct TrafficMix {
    pub room_msg_pct: u8,
    pub dm_pct: u8,
    pub list_pct: u8,
    pub join_pct: u8,
}

/// The sum of the four percentages.
pub open spec fn mix_total(mix: TrafficMix) -> nat {
    (mix.room_msg_pct + mix.dm_pct + mix.list_pct + mix.join_pct) as nat
}

/// The kind of message for a roll of the dice below 100.  The percentages are
/// used in proportion to their sum (which need not be 100): the roll, scaled
/// by that sum, falls in the room band, then the direct-message band, then
/// the list band, each as wide as its percentage times 100, and otherwise the
/// client joins a room.  When the percentages sum to 100, the first
/// `room_msg_pct` rolls send room messages, the next `dm_pct` direct
/// messages, the next `list_pct` list the users, and the last `join_pct` join
/// a room.
pub open spec fn kind_for_roll(roll: nat, mix: TrafficMix) -> MessageType {
    let scaled = roll * mix_total(mix);
    if scaled < mix.room_msg_pct * 100 {
        MessageType::RoomMessage
    } else if scaled < (mix.room_msg_pct + mix.dm_pct) * 100 {
        MessageType::DirectMessage
    } else if scaled < (mix.room_msg_pct + mix.dm_pct + mix.list_pct) * 100 {
        MessageType::ListUsers
    } else {
        MessageType::JoinRoom
    }
}

/// The kind of message for a roll of the dice (see `kind_for_roll`).
pub fn message_type_for_roll(roll: u8, mix: &TrafficMix) -> (t: MessageType)
    ensures
        t == kind_for_roll(roll as nat, *mix),
{
    let total: u32 = mix.room_msg_pct as u32 + mix.dm_pct as u32 + mix.list_pct as u32
        + mix.join_pct as u32;
    let r: u32 = roll as u32;
    assert(r * total <= 255 * 1020) by (nonlinear_arith)
        requires
            r <= 255,
            total <= 1020,
    ;
    let scaled: u32 = r * total;
    let room_end: u32 = mix.room_msg_pct as u32 * 100;
    let dm_end: u32 = (mix.room_msg_pct as u32 + mix.dm_pct as u32) * 100;
    let list_end: u32 = (mix.room_msg_pct as u32 + mix.dm_pct as u32 + mix.list_pct as u32) * 100;
    if scaled < room_end {
        MessageType::RoomMessage
    } else if scaled < dm_end {
        MessageType::DirectMessage
    } else if scaled < list_end {
        MessageType::ListUsers
    } else {
        MessageType::JoinRoom
    }
}

/// When the percentages sum to 100 they are used as they stand: the first
/// `room_msg_pct` of the 100 rolls send room messages, the next `dm_pct`
/// direct messages, the next `list_pct` list the users, and the rest join a
/// room.
pub proof fn law_percentages_of_100_are_cutoffs(roll: nat, mix: TrafficMix)
    requires
        mix_total(mix) == 100,
    ensures
        kind_for_roll(roll, mix) == if roll < mix.room_msg_pct {
            MessageType::RoomMessage
        } else if roll < mix.room_msg_pct + mix.dm_pct {
            MessageType::DirectMessage
        } else if roll < mix.room_msg_pct + mix.dm_pct + mix.list_pct {
            MessageType::ListUsers
        } else {
            MessageType::JoinRoom
        },
{
}

/// `"prefix" + decimal(n)`.
fn numbered(prefix: &str, n: u64) -> (s: String)
    ensures
        s@ == prefix@ + decimal(n as nat),
{
    let mut s = String::from_str(prefix);
    let digits = u64_to_decimal(n);
    s.append(digits.as_str());
    s
}

/// The name of room `n`.
pub open spec fn room_name(n: nat) -> Seq<char> {
    "room_"@ + decimal(n)
}

/// The username of client `id` in session `session`.
pub open spec fn client_username(session: Seq<char>, id: nat) -> Seq<char> {
    "user_"@ + session + "_"@ + decimal(id)
}

/// The message a simulated client sends, given the random values drawn for
/// it: `nonce` numbers chat texts, `to` is the recipient of a direct message
/// and `room` the index of the room to join.
pub open spec fn message_for(kind: MessageType, nonce: u32, to: Seq<char>, room: nat) -> MessageView {
    match kind {
        MessageType::RoomMessage => MessageView::SendRoomMessage {
            text: "msg_"@ + decimal(nonce as nat),
        },
        MessageType::DirectMessage => MessageView::SendPrivateMessage {
            to,
            text: "dm_"@ + decimal(nonce as nat),
        },
        MessageType::ListUsers => MessageView::ListUsers,
        MessageType::JoinRoom => MessageView::JoinRoom { room_name: room_name(room) },
    }
}

/// Builds the message of `kind` from the random values drawn for it.
pub fn build_message(kind: MessageType, nonce: u32, to: &String, room: u32) -> (m: Message)
    ensures
        m@ == message_for(kind, nonce, to@, room as nat),
{
    match kind {
        MessageType::RoomMessage => Message::SendRoomMessage { text: numbered("msg_", nonce as u64) },
        MessageType::DirectMessage => Message::SendPrivateMessage {
            to: to.clone(),
            text: numbered("dm_", nonce as u64),
        },
        MessageType::ListUsers => Message::ListUsers,
        MessageType::JoinRoom => Message::JoinRoom { room_name: numbered("room_", room as u64) },
    }
}

/// `SmallRng::seed_from_u64`: a generator seeded with `seed`.  Nothing is
/// stated of its state, which is opaque.
#[verifier::external_body]
fn seeded_rng(seed: u64) -> SmallRng {
    <SmallRng as rand::SeedableRng>::seed_from_u64(seed)
}

/// `Rng::gen::<u32>()`: any `u32`.
#[verifier::external_body]
fn draw_u32(rng: &mut SmallRng) -> u32 {
    rand::Rng::gen::<u32>(rng)
}

/// `m` is the message for the drawn values: a roll below 100, a room below
/// `rooms`, and a recipient among `users` (the client itself when there are
/// none).
pub open spec fn drawn_message(
    m: MessageView,
    mix: TrafficMix,
    rooms: u32,
    me: Seq<char>,
    users: Seq<Seq<char>>,
    roll: nat,
    nonce: u32,
    to: Seq<char>,
    room: nat,
) -> bool {
    &&& roll < 100
    &&& room < rooms
    &&& (users.len() == 0 ==> to == me)
    &&& (users.len() > 0 ==> users.contains(to))
    &&& m == message_for(kind_for_roll(roll, mix), nonce, to, room)
}

/// A simulated client.
pub struct Client {
    pub id: u32,
    pub username: String,
    pub room: String,
    pub rooms: u32,
    pub mix: TrafficMix,
    pub rng: SmallRng,
}

impl Client {
    /// Client `id` of session `session_id`: named `user_<session>_<id>`,
    /// starting in room `id % rooms`, with its generator seeded by its id.
    pub fn new(id: u32, session_id: &str, rooms: u32, mix: TrafficMix) -> (c: Client)
        requires
            rooms > 0,
        ensures
            c.id == id,
            c.username@ == client_username(session_id@, id as nat),
            c.room@ == room_name((id % rooms) as nat),
            c.rooms == rooms,
            c.mix == mix,
    {
        let mut username = String::from_str("user_");
        username.append(session_id);
        username.append("_");
        let digits = u64_to_decimal(id as u64);
        username.append(digits.as_str());
        let room = numbered("room_", (id % rooms) as u64);
        Client { id, username, room, rooms, mix, rng: seeded_rng(id as u64) }
    }

    /// Draws the kind of the next message: a roll drawn from the client's
    /// generator below 100, mapped by the traffic mix.  The roll is handed
    /// back with the kind.
    pub fn pick_message_type(&mut self) -> (res: (MessageType, Drawn))
        ensures
            res.1.bound() == 100,
            res.1.value() < 100,
            res.0 == kind_for_roll(res.1.value() as nat, old(self).mix),
            final(self).mix == old(self).mix,
            final(self).id == old(self).id,
            final(self).username == old(self).username,
            final(self).room == old(self).room,
            final(self).rooms == old(self).rooms,
    {
        let drawn = draw_below(&mut self.rng, 100);
        let roll = drawn.get() as u8;
        (message_type_for_roll(roll, &self.mix), drawn)
    }

    /// Draws the next message: its kind, then the random values it needs.  A
    /// direct message goes to one of `all_users` (to the client itself when
    /// that list is empty); joining a room moves the client to it.
    pub fn generate_message(&mut self, all_users: &Vec<String>) -> (m: Message)
        requires
            old(self).rooms > 0,
        ensures
            exists|roll: nat, nonce: u32, to: Seq<char>, room: nat|
                #[trigger] drawn_message(
                    m@,
                    old(self).mix,
                    old(self).rooms,
                    old(self).username@,
                    str_views(all_users@),
                    roll,
                    nonce,
                    to,
                    room,
                ),
            m@ matches MessageView::JoinRoom { room_name } ==> final(self).room@ == room_name,
            !(m@ is JoinRoom) ==> final(self).room == old(self).room,
            final(self).id == old(self).id,
            final(self).mix == old(self).mix,
            final(self).rooms == old(self).rooms,
            final(self).username == old(self).username,
    {
        let ghost mix = self.mix;
        let ghost users = str_views(all_users@);
        let (kind, drawn) = self.pick_message_type();
        let ghost roll = drawn.value() as nat;
        let ghost any_user = if users.len() == 0 {
            self.username@
        } else {
            users[0]
        };
        match kind {
            MessageType::RoomMessage => {
                let nonce = draw_u32(&mut self.rng);
                let m = build_message(kind, nonce, &self.username, 0);
                assert(drawn_message(m@, mix, self.rooms, self.username@, users, roll, nonce, any_user, 0));
                m
            },
            MessageType::DirectMessage => {
                let to = if all_users.len() == 0 {
                    self.username.clone()
                } else {
                    let idx = draw_below(&mut self.rng, all_users.len()).get();
                    assert(users[idx as int] == all_users@[idx as int]@);
                    all_users[idx].clone()
                };
                let nonce = draw_u32(&mut self.rng);
                let m = build_message(kind, nonce, &to, 0);
                assert(drawn_message(m@, mix, self.rooms, self.username@, users, roll, nonce, to@, 0));
                m
            },
            MessageType::ListUsers => {
                let m = build_message(kind, 0, &self.username, 0);
                assert(drawn_message(m@, mix, self.rooms, self.username@, users, roll, 0, any_user, 0));
                m
            },
            MessageType::JoinRoom => {
                let r = draw_below(&mut self.rng, self.rooms as usize).get() as u32;
                let m = build_message(kind, 0, &self.username, r);
                assert(drawn_message(m@, mix, self.rooms, self.username@, users, roll, 0, any_user, r as nat));
                if let Message::JoinRoom { room_name } = &m {
                    self.room = room_name.clone();
                }
                m
            },
        }
    }
}

/// Whether a client sends its next message: it has sent fewer than
/// `messages`, and either the run has no time limit (`duration_secs == 0`)
/// or the time since it started sending, in nanoseconds, has not passed the
/// limit.
pub fn keep_sending(sent: u32, messages: u32, elapsed_ns: u128, duration_secs: u64) -> (b: bool)
    ensures
        b == (sent < messages && (duration_secs == 0 || elapsed_ns <= duration_secs as int
            * 1_000_000_000)),
{
    if sent >= messages {
        return false;
    }
    if duration_secs == 0 {
        return true;
    }
    let limit: u128 = duration_secs as u128 * 1_000_000_000;
    elapsed_ns <= limit
}

/// Whether each batch of `size` clients, counted from 0 while fewer than
/// `clients` have been started, ends within `u32` (the schedule's ends are
/// computed as `u32`s).
pub open spec fn batches_fit(clients: u32, size: u32) -> bool {
    forall|k: nat| #[trigger] (k * size) < clients ==> k * size + size <= u32::MAX
}

/// Batch `i` of the schedule: the client ids from `i * size` up to, not
/// including, `i * size + size` or `clients`, whichever is smaller.
pub open spec fn batch(i: nat, size: u32, clients: u32) -> (u32, u32) {
    let start = i * size;
    let end = if start + size < clients {
        start + size
    } else {
        clients as int
    };
    (start as u32, end as u32)
}

/// The schedule in which the load tester starts its clients: batches of
/// `size` ids, in order, from 0 until all `clients` ids are covered.
pub fn client_batches(clients: u32, size: u32) -> (bs: Vec<(u32, u32)>)
    requires
        size > 0,
        batches_fit(clients, size),
    ensures
        bs@.len() * size >= clients,
        bs@.len() == 0 || (bs@.len() - 1) * size < clients,
        forall|i: int| 0 <= i < bs@.len() ==> #[trigger] bs@[i] == batch(i as nat, size, clients),
{
    let mut bs: Vec<(u32, u32)> = Vec::new();
    let mut start: u32 = 0;
    let ghost mut i: nat = 0;
    while start < clients
        invariant
            size > 0,
            batches_fit(clients, size),
            start == i * size,
            bs@.len() == i,
            i == 0 || (i - 1) * size < clients,
            forall|j: int| 0 <= j < bs@.len() ==> #[trigger] bs@[j] == batch(j as nat, size, clients),
        decreases clients as int + size as int - start as int,
    {
        assert(i * size + size <= u32::MAX);
        let end: u32 = if start + size < clients {
            start + size
        } else {
            clients
        };
        bs.push((start, end));
        proof {
            assert((i + 1) * size == i * size + size) by (nonlinear_arith);
            i = i + 1;
        }
        start = start + size;
    }
    bs
}

/// How a login attempt ended.
#[derive(Debug, Clone)]
pub enum LoginResult {
    /// The server accepted the username.
    Connected,
    /// The server refused it, with this reason.
    Rejected(String),
    /// The server answered with something other than a success or an error.
    Unexpected,
}

/// What the server's first response to `Connect` means.
pub fn classify_login(resp: &Response) -> (r: LoginResult)
    ensures
        resp@ is Success ==> r is Connected,
        resp@ matches ResponseView::Error { message } ==> (r matches LoginResult::Rejected(m)
            && m@ == message),
        !(resp@ is Success) && !(resp@ is Error) ==> r is Unexpected,
{
    match resp {
        Response::Success { .. } => LoginResult::Connected,
        Response::Error { message } => LoginResult::Rejected(message.clone()),
        _ => LoginResult::Unexpected,
    }
}

} // verus!
