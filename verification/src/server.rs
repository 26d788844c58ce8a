//! The server's message-handling rules: what each client message does to the
//! registry of connected users, what is sent back to the client, and what is
//! offered to other clients' channels.
//!
//! Each message is handled as one step on the registry.  The reply to the
//! sending client is handed back in the [`Step`] for the caller to send (and
//! wait for); messages to other clients are offered to their channels without
//! waiting, and a client whose channel refuses `slow_client_threshold`
//! messages is removed from the registry.

use crate::clients::{channel_clone, channel_id, channel_try_send, ClientInfo, Clients, Offered};
use crate::codec::opt_str_view;
use crate::metrics::readiness;
use crate::protocol::{Message, MessageView, Response, ResponseView};
use crate::rate_limiter::{after_acquire, acquires, burst_u32, BucketState, RefillRate, TokenBucket};
use crate::wire::str_views;
use tokio::sync::mpsc::Sender;
use vstd::prelude::*;
use vstd::string::*;

verus! {

broadcast use vstd::seq_lib::lemma_seq_contains_after_push;

/// What handling a message came to (the kinds the server counts).
#[derive(Debug, Clone, Copy, PartialEq, Eq, Structural)]
pub enum Outcome {
    /// The client registered its username.
    Registered,
    /// A second `Connect` on a connection that already has a username.
    AlreadyAuthenticated,
    /// The username belongs to another client.
    UsernameTaken,
    /// The client has not registered a username.
    NotRegistered,
    /// The client's rate limiter refused the message.
    RateLimited,
    /// A room message was offered to the room's members.
    RoomMessage,
    /// A private message was offered to its recipient.
    PrivateMessage,
    /// The recipient of a private message is not registered.
    RecipientNotFound,
    /// The list of users was sent.
    UserList,
    /// The client moved to another room.
    JoinedRoom,
    /// The client disconnected.
    Disconnected,
}

/// The result of handling one message.
pub struct Step {
    /// The response to send back to the client, if any.
    pub reply: Option<Response>,
    /// Whether a failure to send the reply ends the connection (it does for
    /// every reply but the farewell to `Disconnect`).
    pub reply_required: bool,
    /// What handling the message came to.
    pub outcome: Outcome,
    /// The users a chat message was offered to, in the order offered.
    pub offered_to: Vec<String>,
    /// The users whose channel refused the message.
    pub dropped_for: Vec<String>,
    /// The users removed from the registry for being slow.
    pub slow_disconnected: Vec<String>,
    /// The receipt of each offer, in the order of `offered_to`.
    pub offers: Vec<Offered>,
}

/// The mathematical value of an offer's receipt.
pub struct OfferView {
    pub sender: Sender<Response>,
    pub message: ResponseView,
    pub accepted: bool,
}

/// The view of a receipt.
pub open spec fn offer_view(o: Offered) -> OfferView {
    OfferView { sender: o.sender(), message: o.message(), accepted: o.accepted() }
}

/// The mathematical value of a [`Step`].
pub struct StepView {
    pub reply: Option<ResponseView>,
    pub reply_required: bool,
    pub outcome: Outcome,
    pub offered_to: Seq<Seq<char>>,
    pub dropped_for: Seq<Seq<char>>,
    pub slow_disconnected: Seq<Seq<char>>,
    pub offers: Seq<OfferView>,
}

impl View for Step {
    type V = StepView;

    open spec fn view(&self) -> StepView {
        StepView {
            reply: match self.reply {
                Some(r) => Some(r@),
                None => None,
            },
            reply_required: self.reply_required,
            outcome: self.outcome,
            offered_to: str_views(self.offered_to@),
            dropped_for: str_views(self.dropped_for@),
            slow_disconnected: str_views(self.slow_disconnected@),
            offers: self.offers@.map_values(|o: Offered| offer_view(o)),
        }
    }
}

/// The registry as a map from username to user state.
pub type Table = Map<Seq<char>, ClientInfo>;

/// A step that only replies, with nothing offered to anyone.
pub open spec fn reply_only(reply: ResponseView, required: bool, outcome: Outcome) -> StepView {
    StepView {
        reply: Some(reply),
        reply_required: required,
        outcome,
        offered_to: seq![],
        dropped_for: seq![],
        slow_disconnected: seq![],
        offers: seq![],
    }
}

/// An error reply.
pub open spec fn error_step(text: Seq<char>, outcome: Outcome) -> StepView {
    reply_only(ResponseView::Error { message: text }, true, outcome)
}

/// A success reply.
pub open spec fn success_step(text: Seq<char>, outcome: Outcome) -> StepView {
    reply_only(ResponseView::Success { message: text }, true, outcome)
}

/// The reply to a client that has not registered a username.
pub open spec fn not_registered_step() -> StepView {
    error_step("you must connect with a username first"@, Outcome::NotRegistered)
}

/// The state of a fresh rate limiter.
pub open spec fn fresh_bucket(rate: RefillRate, burst: usize, now: nat) -> BucketState {
    BucketState { tokens: burst_u32(burst), last_refill_ms: now, rate, burst: burst_u32(burst) }
}

/// `c` is `base` with the given rate-limiter state and refusal count.
pub open spec fn entry_is(c: ClientInfo, base: ClientInfo, limiter: BucketState, dropped: usize) -> bool {
    &&& c.sender == base.sender
    &&& c.room == base.room
    &&& c.rate_limiter@ == limiter
    &&& c.dropped_count == dropped
}

/// A refusal count one higher (wrapping, as an atomic counter does).
pub open spec fn wrap_inc(c: usize) -> usize {
    if c == usize::MAX {
        0
    } else {
        (c + 1) as usize
    }
}

/// What `Connect { username: name }` does.
pub open spec fn connect_effect(
    name: Seq<char>,
    t0: Table,
    t1: Table,
    u0: Option<Seq<char>>,
    u1: Option<Seq<char>>,
    s: StepView,
    rate: RefillRate,
    burst: usize,
    now: nat,
    tx: Sender<Response>,
) -> bool {
    if u0 is Some {
        t1 == t0 && u1 == u0 && s == error_step(
            "already connected with a username"@,
            Outcome::AlreadyAuthenticated,
        )
    } else if t0.dom().contains(name) {
        t1 == t0 && u1 == u0 && s == error_step("username already taken"@, Outcome::UsernameTaken)
    } else {
        &&& u1 == Some(name)
        &&& t1 == t0.insert(name, t1[name])
        &&& t1[name].room@ == "general"@
        &&& t1[name].dropped_count == 0
        &&& t1[name].rate_limiter@ == fresh_bucket(rate, burst, now)
        &&& channel_id(t1[name].sender) == channel_id(tx)
        &&& s == success_step("welcome, "@ + name + "!"@, Outcome::Registered)
    }
}

/// What `ListUsers` does.
pub open spec fn list_users_effect(
    t0: Table,
    t1: Table,
    u0: Option<Seq<char>>,
    u1: Option<Seq<char>>,
    s: StepView,
) -> bool {
    &&& t1 == t0
    &&& u1 == u0
    &&& if u0 is Some {
        &&& s.reply matches Some(ResponseView::UserList { users }) && {
            &&& forall|i: int, j: int| 0 <= i < j < users.len() ==> users[i] != users[j]
            &&& forall|k: Seq<char>| #[trigger] users.contains(k) <==> t0.dom().contains(k)
        }
        &&& s.reply_required
        &&& s.outcome == Outcome::UserList
        &&& s.offered_to == Seq::<Seq<char>>::empty()
        &&& s.dropped_for == Seq::<Seq<char>>::empty()
        &&& s.slow_disconnected == Seq::<Seq<char>>::empty()
        &&& s.offers == Seq::<OfferView>::empty()
    } else {
        s == not_registered_step()
    }
}

/// What `JoinRoom { room_name: room }` does.
pub open spec fn join_room_effect(
    room: Seq<char>,
    t0: Table,
    t1: Table,
    u0: Option<Seq<char>>,
    u1: Option<Seq<char>>,
    s: StepView,
) -> bool {
    &&& u1 == u0
    &&& match u0 {
        Some(n) => {
            &&& if t0.dom().contains(n) {
                &&& t1 == t0.insert(n, t1[n])
                &&& t1[n].room@ == room
                &&& t1[n].sender == t0[n].sender
                &&& t1[n].dropped_count == t0[n].dropped_count
                &&& t1[n].rate_limiter == t0[n].rate_limiter
            } else {
                t1 == t0
            }
            &&& s == success_step("joined room: "@ + room, Outcome::JoinedRoom)
        },
        None => t1 == t0 && s == not_registered_step(),
    }
}

/// What `Disconnect` does.
pub open spec fn disconnect_effect(
    t0: Table,
    t1: Table,
    u0: Option<Seq<char>>,
    u1: Option<Seq<char>>,
    s: StepView,
) -> bool {
    &&& u1 is None
    &&& match u0 {
        Some(n) => t1 == t0.remove(n),
        None => t1 == t0,
    }
    &&& s == reply_only(ResponseView::Success { message: "goodbye"@ }, false, Outcome::Disconnected)
}

fn error_reply(text: &str, outcome: Outcome) -> (s: Step)
    ensures
        s@ == error_step(text@, outcome),
{
    let s = Step {
        reply: Some(Response::Error { message: String::from_str(text) }),
        reply_required: true,
        outcome,
        offered_to: Vec::new(),
        dropped_for: Vec::new(),
        slow_disconnected: Vec::new(),
        offers: Vec::new(),
    };
    assert(s@.offered_to =~= Seq::<Seq<char>>::empty());
    assert(s@.dropped_for =~= Seq::<Seq<char>>::empty());
    assert(s@.slow_disconnected =~= Seq::<Seq<char>>::empty());
    assert(s@.offers =~= Seq::<OfferView>::empty());
    s
}

fn success_reply(message: String, required: bool, outcome: Outcome) -> (s: Step)
    ensures
        s@ == reply_only(ResponseView::Success { message: message@ }, required, outcome),
{
    let s = Step {
        reply: Some(Response::Success { message }),
        reply_required: required,
        outcome,
        offered_to: Vec::new(),
        dropped_for: Vec::new(),
        slow_disconnected: Vec::new(),
        offers: Vec::new(),
    };
    assert(s@.offered_to =~= Seq::<Seq<char>>::empty());
    assert(s@.dropped_for =~= Seq::<Seq<char>>::empty());
    assert(s@.slow_disconnected =~= Seq::<Seq<char>>::empty());
    assert(s@.offers =~= Seq::<OfferView>::empty());
    s
}

fn not_registered() -> (s: Step)
    ensures
        s@ == not_registered_step(),
{
    error_reply("you must connect with a username first", Outcome::NotRegistered)
}

/// `Connect { username }`: registers the username, in the room "general",
/// unless the connection already has one or another client holds it.
fn handle_connect(
    username: &String,
    current_username: &mut Option<String>,
    clients: &mut Clients,
    tx: &Sender<Response>,
    rate_limit_per_second: RefillRate,
    rate_limit_burst: usize,
    now_ms: u64,
) -> (s: Step)
    ensures
        connect_effect(
            username@,
            old(clients)@,
            final(clients)@,
            opt_str_view(*old(current_username)),
            opt_str_view(*final(current_username)),
            s@,
            rate_limit_per_second,
            rate_limit_burst,
            now_ms as nat,
            *tx,
        ),
{
    if current_username.is_some() {
        error_reply("already connected with a username", Outcome::AlreadyAuthenticated)
    } else if clients.contains(username) {
        error_reply("username already taken", Outcome::UsernameTaken)
    } else {
        let info = ClientInfo {
            sender: channel_clone(tx),
            room: String::from_str("general"),
            dropped_count: 0,
            rate_limiter: TokenBucket::new_at(rate_limit_per_second, rate_limit_burst, now_ms),
        };
        clients.insert(username.clone(), info);
        *current_username = Some(username.clone());
        let mut message = String::from_str("welcome, ");
        message.append(username.as_str());
        message.append("!");
        assert(final(clients)@ =~= old(clients)@.insert(username@, final(clients)@[username@]));
        success_reply(message, true, Outcome::Registered)
    }
}

/// `ListUsers`: the usernames of every registered client.
fn handle_list_users(current_username: &Option<String>, clients: &Clients) -> (s: Step)
    ensures
        list_users_effect(
            clients@,
            clients@,
            opt_str_view(*current_username),
            opt_str_view(*current_username),
            s@,
        ),
{
    if current_username.is_some() {
        let users = clients.usernames();
        let s = Step {
            reply: Some(Response::UserList { users }),
            reply_required: true,
            outcome: Outcome::UserList,
            offered_to: Vec::new(),
            dropped_for: Vec::new(),
            slow_disconnected: Vec::new(),
            offers: Vec::new(),
        };
        assert(s@.offered_to =~= Seq::<Seq<char>>::empty());
        assert(s@.dropped_for =~= Seq::<Seq<char>>::empty());
        assert(s@.slow_disconnected =~= Seq::<Seq<char>>::empty());
        assert(s@.offers =~= Seq::<OfferView>::empty());
        let ghost vs = str_views(users@);
        assert forall|k: Seq<char>| #[trigger] vs.contains(k) <==> clients@.dom().contains(k) by {
            if clients@.dom().contains(k) {
                let i = choose|i: int| 0 <= i < users@.len() && #[trigger] users@[i]@ == k;
                assert(vs[i] == k);
            }
            if vs.contains(k) {
                let i = choose|i: int| 0 <= i < vs.len() && vs[i] == k;
                assert(users@[i]@ == k);
            }
        }
        s
    } else {
        not_registered()
    }
}

/// `JoinRoom { room_name }`: moves the client to that room.
fn handle_join_room(
    room_name: &String,
    current_username: &Option<String>,
    clients: &mut Clients,
) -> (s: Step)
    ensures
        join_room_effect(
            room_name@,
            old(clients)@,
            final(clients)@,
            opt_str_view(*current_username),
            opt_str_view(*current_username),
            s@,
        ),
{
    match current_username {
        Some(username) => {
            match clients.remove(username) {
                Some(info) => {
                    let moved = ClientInfo { room: room_name.clone(), ..info };
                    clients.insert(username.clone(), moved);
                    assert(final(clients)@ =~= old(clients)@.insert(
                        username@,
                        final(clients)@[username@],
                    ));
                },
                None => {
                    assert(final(clients)@ =~= old(clients)@);
                },
            }
            let mut message = String::from_str("joined room: ");
            message.append(room_name.as_str());
            success_reply(message, true, Outcome::JoinedRoom)
        },
        None => not_registered(),
    }
}

/// `Disconnect`: the client leaves the registry and is bid goodbye.
fn handle_disconnect(current_username: &mut Option<String>, clients: &mut Clients) -> (s: Step)
    ensures
        disconnect_effect(
            old(clients)@,
            final(clients)@,
            opt_str_view(*old(current_username)),
            opt_str_view(*final(current_username)),
            s@,
        ),
{
    if let Some(username) = current_username.take() {
        let _ = clients.remove(&username);
    }
    success_reply(String::from_str("goodbye"), false, Outcome::Disconnected)
}

// ---------------------------------------------------------------------------
// Chat messages: rate limiting and delivery.
/// `t1` is `t0` after charging `n`'s rate limiter at `now` (when `n` is
/// registered; otherwise nothing changes).
pub open spec fn charged_effect(t0: Table, t1: Table, n: Seq<char>, now: nat) -> bool {
    if t0.dom().contains(n) {
        &&& t1 == t0.insert(n, t1[n])
        &&& entry_is(
            t1[n],
            t0[n],
            after_acquire(t0[n].rate_limiter@, now),
            t0[n].dropped_count,
        )
    } else {
        t1 == t0
    }
}

/// Whether `n`'s rate limiter refuses a message at `now` (a user who is not
/// in the registry is not limited).
pub open spec fn rate_limited(t0: Table, n: Seq<char>, now: nat) -> bool {
    t0.dom().contains(n) && !acquires(t0[n].rate_limiter@, now)
}

/// A chat message as its recipients get it.
pub open spec fn incoming(from: Seq<char>, text: Seq<char>, room: Option<Seq<char>>) -> ResponseView {
    ResponseView::IncomingMessage { from, text, room }
}

/// Each user in `s.offered_to` was handed `msg` on the sender handle that
/// `t0` holds for it, one receipt per user in order, and the users whose
/// channel refused it are exactly those in `s.dropped_for`.
pub open spec fn offers_match(t0: Table, s: StepView, msg: ResponseView) -> bool {
    &&& s.offers.len() == s.offered_to.len()
    &&& forall|i: int|
        0 <= i < s.offers.len() ==> {
            &&& #[trigger] s.offers[i].sender == t0[s.offered_to[i]].sender
            &&& s.offers[i].message == msg
            &&& (s.offers[i].accepted <==> !s.dropped_for.contains(s.offered_to[i]))
        }
}

/// `t1` is `t0` after charging `n`'s rate limiter at `now`, counting one
/// more refusal for each user in `s.dropped_for`, and removing the users in
/// `s.slow_disconnected`, which are exactly those whose count reached
/// `threshold`; each offered user was handed `msg` (see `offers_match`).
pub open spec fn delivery_effect(
    t0: Table,
    t1: Table,
    n: Seq<char>,
    now: nat,
    s: StepView,
    threshold: usize,
    msg: ResponseView,
) -> bool {
    &&& offers_match(t0, s, msg)
    &&& forall|k: Seq<char>|
        #[trigger] t1.dom().contains(k) <==> t0.dom().contains(k)
            && !s.slow_disconnected.contains(k)
    &&& forall|k: Seq<char>|
        #[trigger] t1.dom().contains(k) ==> {
            &&& entry_is(
                t1[k],
                t0[k],
                if k == n {
                    after_acquire(t0[k].rate_limiter@, now)
                } else {
                    t0[k].rate_limiter@
                },
                if s.dropped_for.contains(k) {
                    wrap_inc(t0[k].dropped_count)
                } else {
                    t0[k].dropped_count
                },
            )
            &&& (k != n && !s.dropped_for.contains(k) ==> t1[k] == t0[k])
        }
    &&& forall|i: int, j: int|
        0 <= i < j < s.offered_to.len() ==> s.offered_to[i] != s.offered_to[j]
    &&& forall|k: Seq<char>| #[trigger] s.dropped_for.contains(k) ==> s.offered_to.contains(k)
    &&& forall|k: Seq<char>|
        #[trigger] s.slow_disconnected.contains(k) <==> s.dropped_for.contains(k) && wrap_inc(
            t0[k].dropped_count,
        ) >= threshold
}

/// `t1` is `t0` after counting one more refusal for each user in
/// `s.dropped_for` and removing the users in `s.slow_disconnected`, which are
/// exactly those whose count reached `threshold`; the users offered the
/// message are distinct, include every user that refused it, and were each
/// handed `msg` (see `offers_match`).
pub open spec fn offered_effect(t0: Table, t1: Table, s: StepView, threshold: usize, msg: ResponseView) -> bool {
    &&& offers_match(t0, s, msg)
    &&& forall|k: Seq<char>|
        #[trigger] t1.dom().contains(k) <==> t0.dom().contains(k)
            && !s.slow_disconnected.contains(k)
    &&& forall|k: Seq<char>|
        #[trigger] t1.dom().contains(k) ==> if s.dropped_for.contains(k) {
            entry_is(t1[k], t0[k], t0[k].rate_limiter@, wrap_inc(t0[k].dropped_count))
        } else {
            t1[k] == t0[k]
        }
    &&& forall|i: int, j: int|
        0 <= i < j < s.offered_to.len() ==> s.offered_to[i] != s.offered_to[j]
    &&& forall|k: Seq<char>| #[trigger] s.dropped_for.contains(k) ==> s.offered_to.contains(k)
    &&& forall|k: Seq<char>|
        #[trigger] s.slow_disconnected.contains(k) <==> s.dropped_for.contains(k) && wrap_inc(
            t0[k].dropped_count,
        ) >= threshold
}

/// The room that `n`'s room messages go to.
pub open spec fn room_of(t0: Table, n: Seq<char>) -> Seq<char> {
    if t0.dom().contains(n) {
        t0[n].room@
    } else {
        "general"@
    }
}

/// What `SendRoomMessage { text }` does: the message is offered to every
/// user in the sender's room, the sender included, as
/// `IncomingMessage { from: sender, text, room: Some(room) }`.
pub open spec fn room_message_effect(
    text: Seq<char>,
    t0: Table,
    t1: Table,
    u0: Option<Seq<char>>,
    u1: Option<Seq<char>>,
    s: StepView,
    now: nat,
    threshold: usize,
) -> bool {
    &&& u1 == u0
    &&& match u0 {
        None => t1 == t0 && s == not_registered_step(),
        Some(n) => if rate_limited(t0, n, now) {
            charged_effect(t0, t1, n, now) && s == error_step(
                "rate limited, slow down"@,
                Outcome::RateLimited,
            )
        } else {
            &&& s.reply is None
            &&& s.outcome == Outcome::RoomMessage
            &&& forall|k: Seq<char>|
                #[trigger] s.offered_to.contains(k) <==> t0.dom().contains(k) && t0[k].room@
                    == room_of(t0, n)
            &&& delivery_effect(t0, t1, n, now, s, threshold, incoming(n, text, Some(room_of(t0, n))))
        },
    }
}

/// What `SendPrivateMessage { to, text }` does: the message is offered to
/// the recipient only, as `IncomingMessage { from: sender, text, room: None }`.
pub open spec fn private_message_effect(
    to: Seq<char>,
    text: Seq<char>,
    t0: Table,
    t1: Table,
    u0: Option<Seq<char>>,
    u1: Option<Seq<char>>,
    s: StepView,
    now: nat,
    threshold: usize,
) -> bool {
    &&& u1 == u0
    &&& match u0 {
        None => t1 == t0 && s == not_registered_step(),
        Some(n) => if rate_limited(t0, n, now) {
            charged_effect(t0, t1, n, now) && s == error_step(
                "rate limited, slow down"@,
                Outcome::RateLimited,
            )
        } else if t0.dom().contains(to) {
            &&& s.reply is None
            &&& s.outcome == Outcome::PrivateMessage
            &&& s.offered_to == seq![to]
            &&& delivery_effect(t0, t1, n, now, s, threshold, incoming(n, text, None))
        } else {
            charged_effect(t0, t1, n, now) && s == error_step(
                "recipient not found"@,
                Outcome::RecipientNotFound,
            )
        },
    }
}

proof fn lemma_views_push(v: Seq<String>, x: String)
    ensures
        str_views(v.push(x)) == str_views(v).push(x@),
{
    v.lemma_push_map_commute(|s: String| s@, x);
}

/// Charges `name`'s rate limiter at `now_ms`: `false` when it refuses the
/// message.  A user who is not in the registry is not limited.
fn charge(clients: &mut Clients, name: &String, now_ms: u64) -> (allowed: bool)
    ensures
        charged_effect(old(clients)@, final(clients)@, name@, now_ms as nat),
        allowed == !rate_limited(old(clients)@, name@, now_ms as nat),
{
    match clients.remove(name) {
        Some(info) => {
            let mut info = info;
            let allowed = info.rate_limiter.try_acquire_at(now_ms);
            clients.insert(name.clone(), info);
            assert(final(clients)@ =~= old(clients)@.insert(name@, final(clients)@[name@]));
            allowed
        },
        None => {
            assert(final(clients)@ =~= old(clients)@);
            true
        },
    }
}

/// What the channel's answer to an offer does to the recipient's state: a
/// refused message counts one more refusal (wrapping, as an atomic counter
/// does) and says whether the count has now reached `threshold`; an accepted
/// one changes nothing.  The first result is whether the message was refused.
fn count_outcome(info: &mut ClientInfo, accepted: bool, threshold: usize) -> (res: (bool, bool))
    ensures
        final(info).sender == old(info).sender,
        final(info).room == old(info).room,
        final(info).rate_limiter == old(info).rate_limiter,
        res.0 == !accepted,
        accepted ==> final(info).dropped_count == old(info).dropped_count && !res.1,
        !accepted ==> final(info).dropped_count == wrap_inc(old(info).dropped_count) && res.1 == (
        wrap_inc(old(info).dropped_count) >= threshold),
{
    if accepted {
        (false, false)
    } else {
        let count = info.dropped_count.wrapping_add(1);
        info.dropped_count = count;
        (true, count >= threshold)
    }
}

/// Offers a message to one user's channel; on refusal counts it, and says
/// whether the user has now reached the threshold.  The receipt records the
/// handle and message that were handed over and the channel's answer; the
/// first result is whether the channel refused the message.
fn offer(info: &mut ClientInfo, msg: Response, threshold: usize) -> (res: (bool, bool, Offered))
    ensures
        final(info).sender == old(info).sender,
        final(info).room == old(info).room,
        final(info).rate_limiter == old(info).rate_limiter,
        res.2.sender() == old(info).sender,
        res.2.message() == msg@,
        res.0 == !res.2.accepted(),
        !res.0 ==> final(info).dropped_count == old(info).dropped_count && !res.1,
        res.0 ==> final(info).dropped_count == wrap_inc(old(info).dropped_count) && res.1 == (
        wrap_inc(old(info).dropped_count) >= threshold),
{
    let receipt = channel_try_send(&info.sender, msg);
    let accepted = receipt.was_accepted();
    let (refused, reached) = count_outcome(info, accepted, threshold);
    (refused, reached, receipt)
}

/// Removes every user in `names` from the registry.
fn remove_all(clients: &mut Clients, names: &Vec<String>)
    ensures
        forall|k: Seq<char>|
            #[trigger] final(clients)@.dom().contains(k) <==> old(clients)@.dom().contains(k)
                && !str_views(names@).contains(k),
        forall|k: Seq<char>|
            #[trigger] final(clients)@.dom().contains(k) ==> final(clients)@[k] == old(clients)@[k],
{
    let mut j: usize = 0;
    while j < names.len()
        invariant
            j <= names@.len(),
            forall|k: Seq<char>|
                #[trigger] clients@.dom().contains(k) <==> old(clients)@.dom().contains(k)
                    && !str_views(names@.take(j as int)).contains(k),
            forall|k: Seq<char>|
                #[trigger] clients@.dom().contains(k) ==> clients@[k] == old(clients)@[k],
        decreases names@.len() - j,
    {
        let _ = clients.remove(&names[j]);
        proof {
            assert(names@.take(j + 1) =~= names@.take(j as int).push(names@[j as int]));
            lemma_views_push(names@.take(j as int), names@[j as int]);
        }
        j = j + 1;
    }
    assert(names@.take(names@.len() as int) =~= names@);
}

/// Offers `IncomingMessage { from, text, room: Some(room) }` to every user
/// in `room`, then removes those whose channel has now refused
/// `threshold` messages.
fn offer_to_room(
    clients: &mut Clients,
    from: &String,
    text: &String,
    room: &String,
    threshold: usize,
) -> (res: (Vec<String>, Vec<String>, Vec<String>, Vec<Offered>))
    ensures
        ({
            let (offered, dropped, slow, offers) = res;
            let t0 = old(clients)@;
            let t1 = final(clients)@;
            let s = StepView {
                reply: None,
                reply_required: true,
                outcome: Outcome::RoomMessage,
                offered_to: str_views(offered@),
                dropped_for: str_views(dropped@),
                slow_disconnected: str_views(slow@),
                offers: offers@.map_values(|o: Offered| offer_view(o)),
            };
            &&& forall|k: Seq<char>|
                #[trigger] s.offered_to.contains(k) <==> t0.dom().contains(k) && t0[k].room@
                    == room@
            &&& offered_effect(t0, t1, s, threshold, incoming(from@, text@, Some(room@)))
        }),
{
    let ghost t0 = clients@;
    let ghost mv = incoming(from@, text@, Some(room@));
    let keys = clients.usernames();
    let mut offered: Vec<String> = Vec::new();
    let mut dropped: Vec<String> = Vec::new();
    let mut slow: Vec<String> = Vec::new();
    let mut offers: Vec<Offered> = Vec::new();
    let mut i: usize = 0;
    while i < keys.len()
        invariant
            mv == incoming(from@, text@, Some(room@)),
            offers@.len() == offered@.len(),
            forall|a: int|
                0 <= a < offers@.len() ==> {
                    &&& #[trigger] offers@[a].sender() == t0[offered@[a]@].sender
                    &&& offers@[a].message() == mv
                    &&& (offers@[a].accepted() <==> !str_views(dropped@).contains(offered@[a]@))
                },
            i <= keys@.len(),
            forall|a: int, b: int| 0 <= a < b < keys@.len() ==> keys@[a]@ != keys@[b]@,
            forall|a: int| 0 <= a < keys@.len() ==> t0.dom().contains(#[trigger] keys@[a]@),
            forall|k: Seq<char>|
                t0.dom().contains(k) ==> exists|a: int| 0 <= a < keys@.len() && #[trigger] keys@[a]@ == k,
            clients@.dom() == t0.dom(),
            forall|k: Seq<char>|
                #[trigger] t0.dom().contains(k) ==> if str_views(dropped@).contains(k) {
                    entry_is(
                        clients@[k],
                        t0[k],
                        t0[k].rate_limiter@,
                        wrap_inc(t0[k].dropped_count),
                    )
                } else {
                    clients@[k] == t0[k]
                },
            forall|k: Seq<char>|
                #[trigger] str_views(offered@).contains(k) <==> (exists|a: int|
                    0 <= a < i && #[trigger] keys@[a]@ == k) && t0[k].room@ == room@,
            forall|a: int, b: int|
                0 <= a < b < offered@.len() ==> offered@[a]@ != offered@[b]@,
            forall|a: int|
                #![trigger offered@[a]]
                0 <= a < offered@.len() ==> exists|b: int|
                    0 <= b < i && #[trigger] keys@[b]@ == offered@[a]@,
            forall|k: Seq<char>|
                #[trigger] str_views(dropped@).contains(k) ==> str_views(offered@).contains(k),
            forall|k: Seq<char>|
                #[trigger] str_views(slow@).contains(k) <==> str_views(dropped@).contains(k)
                    && wrap_inc(t0[k].dropped_count) >= threshold,
        decreases keys@.len() - i,
    {
        let key = &keys[i];
        let ghost k = key@;
        let ghost before = clients@;
        let ghost o0 = str_views(offered@);
        let ghost d0 = str_views(dropped@);
        let ghost s0 = str_views(slow@);
        let ghost off0 = offers@;
        let ghost offd0 = offered@;
        proof {
            assert(t0.dom().contains(k));
            if o0.contains(k) {
                let a = choose|a: int| 0 <= a < o0.len() && o0[a] == k;
                assert(offered@[a]@ == k);
                let b = choose|b: int| 0 <= b < i && #[trigger] keys@[b]@ == offered@[a]@;
                assert(keys@[b]@ == keys@[i as int]@);
            }
            assert(!o0.contains(k));
            assert(!d0.contains(k));
            assert(before[k] == t0[k]);
        }
        let removed = clients.remove(key);
        let mut info = removed.unwrap();
        let in_room = info.room == *room;
        let mut refused = false;
        let mut reached = false;
        if in_room {
            let msg = Response::IncomingMessage {
                from: from.clone(),
                text: text.clone(),
                room: Some(room.clone()),
            };
            assert(msg@ == mv);
            proof {
                lemma_views_push(offered@, *key);
            }
            offered.push(key.clone());
            let (r1, r2, receipt) = offer(&mut info, msg, threshold);
            offers.push(receipt);
            refused = r1;
            reached = r2;
            assert(offers@.last().sender() == t0[k].sender && offers@.last().message() == mv
                && offers@.last().accepted() == !refused);
            if refused {
                proof {
                    lemma_views_push(dropped@, *key);
                }
                dropped.push(key.clone());
                if reached {
                    proof {
                        lemma_views_push(slow@, *key);
                    }
                    slow.push(key.clone());
                }
            }
        }
        clients.insert(key.clone(), info);
        proof {
            let o1 = str_views(offered@);
            let d1 = str_views(dropped@);
            let s1 = str_views(slow@);
            assert(o1 == if in_room { o0.push(k) } else { o0 });
            assert(d1 == if refused { d0.push(k) } else { d0 });
            assert(s1 == if reached { s0.push(k) } else { s0 });
            assert forall|a: int| 0 <= a < offers@.len() implies {
                &&& #[trigger] offers@[a].sender() == t0[offered@[a]@].sender
                &&& offers@[a].message() == mv
                &&& (offers@[a].accepted() <==> !d1.contains(offered@[a]@))
            } by {
                if in_room {
                    assert(offers@.len() == off0.len() + 1);
                    assert(offered@.len() == offd0.len() + 1);
                } else {
                    assert(offers@ == off0);
                    assert(offered@ == offd0);
                }
                if a < off0.len() {
                    assert(offers@[a] == off0[a]);
                    assert(offered@[a] == offd0[a]);
                    assert(off0[a].sender() == t0[offd0[a]@].sender);
                    assert(o0[a] == offd0[a]@);
                    assert(offd0[a]@ != k);
                    assert(d1.contains(offd0[a]@) == d0.contains(offd0[a]@));
                } else {
                    assert(in_room);
                    assert(offered@[a] == *key);
                    assert(offers@[a] == offers@.last());
                    assert(d1.contains(k) == refused);
                }
            }
            assert(clients@ =~= before.insert(k, clients@[k]));
            assert(clients@.dom() =~= t0.dom());
            assert(in_room == (t0[k].room@ == room@));
            assert forall|k2: Seq<char>| #[trigger] t0.dom().contains(k2) implies if d1.contains(
                k2,
            ) {
                entry_is(clients@[k2], t0[k2], t0[k2].rate_limiter@, wrap_inc(t0[k2].dropped_count))
            } else {
                clients@[k2] == t0[k2]
            } by {
                if k2 != k {
                    assert(d1.contains(k2) == d0.contains(k2));
                }
            }
            assert forall|k2: Seq<char>|
                #[trigger] o1.contains(k2) <==> (exists|a: int|
                    0 <= a < i + 1 && #[trigger] keys@[a]@ == k2) && t0[k2].room@ == room@ by {
                if k2 == k {
                    assert(keys@[i as int]@ == k2);
                } else {
                    assert(o1.contains(k2) == o0.contains(k2));
                    if exists|a: int| 0 <= a < i + 1 && #[trigger] keys@[a]@ == k2 {
                        let a = choose|a: int| 0 <= a < i + 1 && #[trigger] keys@[a]@ == k2;
                        assert(a < i);
                    }
                }
            }
            assert forall|a: int, b: int| 0 <= a < b < offered@.len() implies offered@[a]@
                != offered@[b]@ by {
                if in_room && b == offered@.len() - 1 {
                    assert(o0.contains(offered@[a]@)) by {
                        assert(o0[a] == offered@[a]@);
                    }
                }
            }
            assert forall|a: int|
                #![trigger offered@[a]]
                0 <= a < offered@.len() implies exists|b: int|
                    0 <= b < i + 1 && #[trigger] keys@[b]@ == offered@[a]@ by {
                if in_room && a == offered@.len() - 1 {
                    assert(keys@[i as int]@ == offered@[a]@);
                } else {
                    let b = choose|b: int| 0 <= b < i && #[trigger] keys@[b]@ == offered@[a]@;
                    assert(0 <= b < i + 1 && keys@[b]@ == offered@[a]@);
                }
            }
            assert forall|k2: Seq<char>| #[trigger] d1.contains(k2) implies o1.contains(k2) by {
                if k2 != k {
                    assert(d0.contains(k2));
                }
            }
            assert forall|k2: Seq<char>|
                #[trigger] s1.contains(k2) <==> d1.contains(k2) && wrap_inc(t0[k2].dropped_count)
                    >= threshold by {
                if k2 != k {
                    assert(s1.contains(k2) == s0.contains(k2));
                    assert(d1.contains(k2) == d0.contains(k2));
                }
            }
        }
        i = i + 1;
    }
    let ghost t_mid = clients@;
    remove_all(clients, &slow);
    proof {
        let o = str_views(offered@);
        assert forall|k: Seq<char>| #[trigger] o.contains(k) <==> t0.dom().contains(k) && t0[k].room@
            == room@ by {
            if t0.dom().contains(k) {
                let a = choose|a: int| 0 <= a < keys@.len() && #[trigger] keys@[a]@ == k;
            }
        }
        let ov = offers@.map_values(|o: Offered| offer_view(o));
        let d = str_views(dropped@);
        assert forall|a: int| 0 <= a < ov.len() implies {
            &&& #[trigger] ov[a].sender == t0[o[a]].sender
            &&& ov[a].message == mv
            &&& (ov[a].accepted <==> !d.contains(o[a]))
        } by {
            assert(ov[a] == offer_view(offers@[a]));
            assert(o[a] == offered@[a]@);
        }
    }
    (offered, dropped, slow, offers)
}

/// `SendRoomMessage { text }`: offered to every member of the sender's room.
fn handle_room_message(
    text: &String,
    current_username: &Option<String>,
    clients: &mut Clients,
    slow_client_threshold: usize,
    now_ms: u64,
) -> (s: Step)
    ensures
        room_message_effect(
            text@,
            old(clients)@,
            final(clients)@,
            opt_str_view(*current_username),
            opt_str_view(*current_username),
            s@,
            now_ms as nat,
            slow_client_threshold,
        ),
{
    match current_username {
        None => not_registered(),
        Some(name) => {
            let ghost t0 = clients@;
            if !charge(clients, name, now_ms) {
                return error_reply("rate limited, slow down", Outcome::RateLimited);
            }
            let ghost t_mid = clients@;
            let room = match clients.remove(name) {
                Some(info) => {
                    let r = info.room.clone();
                    clients.insert(name.clone(), info);
                    r
                },
                None => String::from_str("general"),
            };
            proof {
                assert(clients@ =~= t_mid);
                assert(room@ == room_of(t0, name@));
            }
            let (offered, dropped, slow, offers) = offer_to_room(
                clients,
                name,
                text,
                &room,
                slow_client_threshold,
            );
            let s = Step {
                reply: None,
                reply_required: true,
                outcome: Outcome::RoomMessage,
                offered_to: offered,
                dropped_for: dropped,
                slow_disconnected: slow,
                offers,
            };
            proof {
                let t1 = clients@;
                let mv = incoming(name@, text@, Some(room_of(t0, name@)));
                assert(offers_match(t_mid, s@, mv));
                assert forall|i: int| 0 <= i < s@.offers.len() implies {
                    &&& #[trigger] s@.offers[i].sender == t0[s@.offered_to[i]].sender
                    &&& s@.offers[i].message == mv
                    &&& (s@.offers[i].accepted <==> !s@.dropped_for.contains(s@.offered_to[i]))
                } by {
                    assert(s@.offers[i].sender == t_mid[s@.offered_to[i]].sender);
                    assert(s@.offered_to.contains(s@.offered_to[i]));
                }
                assert(offers_match(t0, s@, mv));
                assert forall|k: Seq<char>|
                    #[trigger] s@.offered_to.contains(k) <==> t0.dom().contains(k) && t0[k].room@
                        == room_of(t0, name@) by {
                    if t0.dom().contains(k) {
                        assert(t_mid[k].room == t0[k].room);
                    }
                }
                assert forall|k: Seq<char>| #[trigger] t1.dom().contains(k) implies t0.dom().contains(
                    k,
                ) && t_mid[k].dropped_count == t0[k].dropped_count by {}
            }
            s
        },
    }
}

/// `SendPrivateMessage { to, text }`: offered to the recipient only.
fn handle_private_message(
    to: &String,
    text: &String,
    current_username: &Option<String>,
    clients: &mut Clients,
    slow_client_threshold: usize,
    now_ms: u64,
) -> (s: Step)
    ensures
        private_message_effect(
            to@,
            text@,
            old(clients)@,
            final(clients)@,
            opt_str_view(*current_username),
            opt_str_view(*current_username),
            s@,
            now_ms as nat,
            slow_client_threshold,
        ),
{
    match current_username {
        None => not_registered(),
        Some(name) => {
            let ghost t0 = clients@;
            if !charge(clients, name, now_ms) {
                return error_reply("rate limited, slow down", Outcome::RateLimited);
            }
            let ghost t_mid = clients@;
            match clients.remove(to) {
                Some(info) => {
                    let mut info = info;
                    let msg = Response::IncomingMessage {
                        from: name.clone(),
                        text: text.clone(),
                        room: None,
                    };
                    let (refused, reached, receipt) = offer(&mut info, msg, slow_client_threshold);
                    let mut offers: Vec<Offered> = Vec::new();
                    offers.push(receipt);
                    let mut offered: Vec<String> = Vec::new();
                    let mut dropped: Vec<String> = Vec::new();
                    let mut slow: Vec<String> = Vec::new();
                    offered.push(to.clone());
                    if refused {
                        dropped.push(to.clone());
                    }
                    if reached {
                        slow.push(to.clone());
                    } else {
                        clients.insert(to.clone(), info);
                    }
                    let s = Step {
                        reply: None,
                        reply_required: true,
                        outcome: Outcome::PrivateMessage,
                        offered_to: offered,
                        dropped_for: dropped,
                        slow_disconnected: slow,
                        offers,
                    };
                    proof {
                        let t1 = clients@;
                        assert(s@.offered_to =~= seq![to@]);
                        assert(s@.dropped_for =~= if refused {
                            seq![to@]
                        } else {
                            Seq::<Seq<char>>::empty()
                        });
                        assert(s@.slow_disconnected =~= if reached {
                            seq![to@]
                        } else {
                            Seq::<Seq<char>>::empty()
                        });
                        assert(t_mid.dom() == t0.dom());
                        assert forall|k: Seq<char>|
                            #[trigger] t1.dom().contains(k) <==> t0.dom().contains(k)
                                && !s@.slow_disconnected.contains(k) by {}
                    }
                    s
                },
                None => {
                    assert(clients@ =~= t_mid);
                    error_reply("recipient not found", Outcome::RecipientNotFound)
                },
            }
        },
    }
}

/// Handles one client message: updates the registry and the connection's
/// username, offers chat messages to other clients' channels, and hands
/// back the reply for the client (see the `*_effect` specifications).
///
/// * `current_username` - the username this connection registered, if any
/// * `tx` - this connection's response channel
/// * `now_ms` - the time, for the rate limiters
pub fn process_message(
    message: &Message,
    current_username: &mut Option<String>,
    clients: &mut Clients,
    tx: &Sender<Response>,
    slow_client_threshold: usize,
    rate_limit_per_second: RefillRate,
    rate_limit_burst: usize,
    now_ms: u64,
) -> (step: Step)
    ensures
        ({
            let t0 = old(clients)@;
            let t1 = final(clients)@;
            let u0 = opt_str_view(*old(current_username));
            let u1 = opt_str_view(*final(current_username));
            match message@ {
                MessageView::Connect { username } => connect_effect(
                    username,
                    t0,
                    t1,
                    u0,
                    u1,
                    step@,
                    rate_limit_per_second,
                    rate_limit_burst,
                    now_ms as nat,
                    *tx,
                ),
                MessageView::SendRoomMessage { text } => room_message_effect(
                    text,
                    t0,
                    t1,
                    u0,
                    u1,
                    step@,
                    now_ms as nat,
                    slow_client_threshold,
                ),
                MessageView::ListUsers => list_users_effect(t0, t1, u0, u1, step@),
                MessageView::SendPrivateMessage { to, text } => private_message_effect(
                    to,
                    text,
                    t0,
                    t1,
                    u0,
                    u1,
                    step@,
                    now_ms as nat,
                    slow_client_threshold,
                ),
                MessageView::JoinRoom { room_name } => join_room_effect(
                    room_name,
                    t0,
                    t1,
                    u0,
                    u1,
                    step@,
                ),
                MessageView::Disconnect => disconnect_effect(t0, t1, u0, u1, step@),
            }
        }),
{
    match message {
        Message::Connect { username } => handle_connect(
            username,
            current_username,
            clients,
            tx,
            rate_limit_per_second,
            rate_limit_burst,
            now_ms,
        ),
        Message::SendRoomMessage { text } => handle_room_message(
            text,
            current_username,
            clients,
            slow_client_threshold,
            now_ms,
        ),
        Message::ListUsers => handle_list_users(current_username, clients),
        Message::SendPrivateMessage { to, text } => handle_private_message(
            to,
            text,
            current_username,
            clients,
            slow_client_threshold,
            now_ms,
        ),
        Message::JoinRoom { room_name } => handle_join_room(room_name, current_username, clients),
        Message::Disconnect => handle_disconnect(current_username, clients),
    }
}

/// When a connection ends, however it ends, its username leaves the
/// registry.
pub fn end_session(current_username: Option<String>, clients: &mut Clients)
    ensures
        final(clients)@ == match current_username {
            Some(name) => old(clients)@.remove(name@),
            None => old(clients)@,
        },
{
    if let Some(username) = current_username {
        let _ = clients.remove(&username);
    }
}

/// The answer to a connection refused at capacity.
pub open spec fn capacity_refusal() -> ResponseView {
    ResponseView::Error { message: "server at capacity, try again later"@ }
}

/// Whether a new connection is accepted: only while fewer than
/// `max_connections` are active.  A refused connection is answered with
/// the error in `Err`, and then closed.
pub fn admit_connection(active_connections: usize, max_connections: usize) -> (res: Result<(), Response>)
    ensures
        res is Ok <==> active_connections < max_connections,
        res matches Err(r) ==> r@ == capacity_refusal(),
{
    if active_connections < max_connections {
        Ok(())
    } else {
        Err(Response::Error { message: String::from_str("server at capacity, try again later") })
    }
}

// ---------------------------------------------------------------------------
// Laws across messages.
/// A user who has just registered is in the list of users that any
/// registered client asks for next.
pub proof fn law_registered_user_is_listed(
    name: Seq<char>,
    t0: Table,
    t1: Table,
    t2: Table,
    u1: Option<Seq<char>>,
    v0: Option<Seq<char>>,
    v1: Option<Seq<char>>,
    s1: StepView,
    s2: StepView,
    rate: RefillRate,
    burst: usize,
    now: nat,
    tx: Sender<Response>,
)
    requires
        connect_effect(name, t0, t1, None, u1, s1, rate, burst, now, tx),
        s1.outcome == Outcome::Registered,
        v0 is Some,
        list_users_effect(t1, t2, v0, v1, s2),
    ensures
        s2.reply matches Some(ResponseView::UserList { users }) && users.contains(name),
{
    assert(t1.dom().contains(name));
}

/// A username is free again once its holder disconnects: the next
/// `Connect` with it, from a connection without a username, registers.
pub proof fn law_disconnect_frees_username(
    name: Seq<char>,
    t1: Table,
    t2: Table,
    t3: Table,
    u1: Option<Seq<char>>,
    u2: Option<Seq<char>>,
    u3: Option<Seq<char>>,
    s2: StepView,
    s3: StepView,
    rate: RefillRate,
    burst: usize,
    now: nat,
    tx: Sender<Response>,
)
    requires
        u1 == Some(name),
        disconnect_effect(t1, t2, u1, u2, s2),
        connect_effect(name, t2, t3, None, u3, s3, rate, burst, now, tx),
    ensures
        !t2.dom().contains(name),
        s3.outcome == Outcome::Registered,
        t3.dom().contains(name),
{
}

/// A taken username stays with its holder: a `Connect` with it from another
/// connection changes nothing and is told the name is taken.
pub proof fn law_taken_username_is_refused(
    name: Seq<char>,
    t0: Table,
    t1: Table,
    u1: Option<Seq<char>>,
    s: StepView,
    rate: RefillRate,
    burst: usize,
    now: nat,
    tx: Sender<Response>,
)
    requires
        t0.dom().contains(name),
        connect_effect(name, t0, t1, None, u1, s, rate, burst, now, tx),
    ensures
        t1 == t0,
        u1 is None,
        s.reply == Some(ResponseView::Error { message: "username already taken"@ }),
{
}

/// Room isolation: a room message is offered to every member of the sender's
/// room, the sender included, and to no one else; each member is handed
/// `IncomingMessage { from: sender, text, room: Some(room) }` on its own
/// channel, and counts a refusal exactly when that channel refused it.
pub proof fn law_room_message_reaches_exactly_the_room(
    n: Seq<char>,
    text: Seq<char>,
    t0: Table,
    t1: Table,
    s: StepView,
    now: nat,
    threshold: usize,
    k: Seq<char>,
    i: int,
)
    requires
        t0.dom().contains(n),
        !rate_limited(t0, n, now),
        room_message_effect(text, t0, t1, Some(n), Some(n), s, now, threshold),
        0 <= i < s.offered_to.len(),
    ensures
        s.offered_to.contains(n),
        s.offered_to.contains(k) <==> t0.dom().contains(k) && t0[k].room@ == t0[n].room@,
        s.offers[i].sender == t0[s.offered_to[i]].sender,
        s.offers[i].message == incoming(n, text, Some(t0[n].room@)),
        s.offers[i].accepted <==> !s.dropped_for.contains(s.offered_to[i]),
{
    assert(s.offers[i].sender == t0[s.offered_to[i]].sender);
}

/// A private message is handed to the recipient's channel only, as
/// `IncomingMessage { from: sender, text, room: None }`, and the recipient
/// counts a refusal exactly when its channel refused it.
pub proof fn law_private_message_reaches_the_recipient(
    n: Seq<char>,
    to: Seq<char>,
    text: Seq<char>,
    t0: Table,
    t1: Table,
    s: StepView,
    now: nat,
    threshold: usize,
)
    requires
        t0.dom().contains(to),
        !rate_limited(t0, n, now),
        private_message_effect(to, text, t0, t1, Some(n), Some(n), s, now, threshold),
    ensures
        s.offered_to == seq![to],
        s.offers.len() == 1,
        s.offers[0].sender == t0[to].sender,
        s.offers[0].message == incoming(n, text, None),
        s.offers[0].accepted <==> !s.dropped_for.contains(to),
{
    assert(s.offers[0].sender == t0[s.offered_to[0]].sender);
}

/// A slow client leaves the registry exactly when its channel's refusals
/// reach the threshold; every other user stays.
pub proof fn law_slow_clients_are_removed(
    t0: Table,
    t1: Table,
    n: Seq<char>,
    now: nat,
    s: StepView,
    threshold: usize,
    k: Seq<char>,
    msg: ResponseView,
)
    requires
        delivery_effect(t0, t1, n, now, s, threshold, msg),
        t0.dom().contains(k),
    ensures
        !t1.dom().contains(k) <==> s.dropped_for.contains(k) && wrap_inc(t0[k].dropped_count)
            >= threshold,
{
}

/// A client that joins a room hears that room: its next room message is
/// offered to exactly the members of the room it joined, itself included.
pub proof fn law_joined_room_receives_room_messages(
    n: Seq<char>,
    room: Seq<char>,
    t0: Table,
    t1: Table,
    t2: Table,
    s1: StepView,
    s2: StepView,
    now: nat,
    threshold: usize,
    k: Seq<char>,
    text: Seq<char>,
)
    requires
        t0.dom().contains(n),
        join_room_effect(room, t0, t1, Some(n), Some(n), s1),
        !rate_limited(t1, n, now),
        room_message_effect(text, t1, t2, Some(n), Some(n), s2, now, threshold),
    ensures
        s2.offered_to.contains(n),
        s2.offered_to.contains(k) <==> t1.dom().contains(k) && t1[k].room@ == room,
{
}

/// A message that the sender's rate limiter refuses reaches no one: the
/// sender is told to slow down, and every user stays registered.
pub proof fn law_rate_limited_message_reaches_no_one(
    message: MessageView,
    n: Seq<char>,
    t0: Table,
    t1: Table,
    s: StepView,
    now: nat,
    threshold: usize,
)
    requires
        rate_limited(t0, n, now),
        message matches MessageView::SendRoomMessage { text } ==> room_message_effect(
            text,
            t0,
            t1,
            Some(n),
            Some(n),
            s,
            now,
            threshold,
        ),
        message matches MessageView::SendPrivateMessage { to, text } ==> private_message_effect(
            to,
            text,
            t0,
            t1,
            Some(n),
            Some(n),
            s,
            now,
            threshold,
        ),
        message is SendRoomMessage || message is SendPrivateMessage,
    ensures
        s.reply == Some(ResponseView::Error { message: "rate limited, slow down"@ }),
        s.offered_to.len() == 0,
        s.slow_disconnected.len() == 0,
        t1.dom() == t0.dom(),
{
    assert(t1.dom() =~= t0.dom());
}

/// The readiness probe and the admission rule agree: while the server is
/// accepting, it reports ready exactly when a new connection would be
/// admitted, and it reports not ready once it stops accepting.
pub proof fn law_ready_exactly_when_admitting(active: usize, max: usize)
    ensures
        readiness(true, active, max).0 == 200 <==> active < max,
        readiness(false, active, max).0 == 503,
{
}

} // verus!
