//! The registry of connected users, a `dashmap::DashMap` from username to
//! the user's state, and the per-client channel (a `tokio` bounded `mpsc`
//! sender) that responses are queued on.

use crate::protocol::{Response, ResponseView};
use crate::rate_limiter::TokenBucket;
use dashmap::DashMap;
use tokio::sync::mpsc::Sender;
use vstd::prelude::*;

verus! {

#[verifier::external_type_specification]
#[verifier::external_body]
#[verifier::reject_recursive_types(K)]
#[verifier::reject_recursive_types(V)]
#[verifier::reject_recursive_types(S)]
pub struct ExDashMap<K, V, S>(DashMap<K, V, S>);

#[verifier::external_type_specification]
#[verifier::external_body]
#[verifier::reject_recursive_types(T)]
pub struct ExSender<T>(Sender<T>);

/// Per-client state stored in the registry.
pub struct ClientInfo {
    /// The client's response channel.
    pub sender: Sender<Response>,
    /// The room the client is in.
    pub room: String,
    /// How many messages the client's full channel has refused.
    pub dropped_count: usize,
    /// The client's rate limiter.
    pub rate_limiter: TokenBucket,
}

/// What the registry holds: for each username, the user's state.
pub uninterp spec fn client_table(m: DashMap<String, ClientInfo>) -> Map<
    Seq<char>,
    ClientInfo,
>;

/// `DashMap::new`: an empty map.
#[verifier::external_body]
fn table_new() -> (fresh: DashMap<String, ClientInfo>)
    ensures
        client_table(fresh).dom() == Set::<Seq<char>>::empty(),
{
    DashMap::new()
}

/// `DashMap::contains_key`: whether the map has an entry under `k`.
#[verifier::external_body]
fn table_contains(m: &DashMap<String, ClientInfo>, k: &String) -> (b: bool)
    ensures
        b == client_table(*m).dom().contains(k@),
{
    m.contains_key(k)
}

/// `DashMap::insert`: the entry under `k` becomes `v`, replacing any other.
#[verifier::external_body]
fn table_insert(m: &mut DashMap<String, ClientInfo>, k: String, v: ClientInfo)
    ensures
        client_table(*final(m)) == client_table(*old(m)).insert(k@, v),
{
    m.insert(k, v);
}

/// `DashMap::remove`: the entry under `k` leaves the map and is handed back.
#[verifier::external_body]
fn table_remove(m: &mut DashMap<String, ClientInfo>, k: &String) -> (v: Option<
    ClientInfo,
>)
    ensures
        client_table(*final(m)) == client_table(*old(m)).remove(k@),
        client_table(*old(m)).dom().contains(k@) ==> v == Some(client_table(*old(m))[k@]),
        !client_table(*old(m)).dom().contains(k@) ==> v is None,
{
    m.remove(k).map(|(_, v)| v)
}

/// `DashMap::iter`, each key cloned: every username once, in the map's own
/// (unspecified) order.
#[verifier::external_body]
fn table_keys(m: &DashMap<String, ClientInfo>) -> (ks: Vec<String>)
    ensures
        forall|i: int, j: int| 0 <= i < j < ks@.len() ==> ks@[i]@ != ks@[j]@,
        forall|i: int| 0 <= i < ks@.len() ==> client_table(*m).dom().contains(#[trigger] ks@[i]@),
        forall|k: Seq<char>|
            client_table(*m).dom().contains(k) ==> exists|i: int|
                0 <= i < ks@.len() && #[trigger] ks@[i]@ == k,
{
    m.iter().map(|e| e.key().clone()).collect()
}

/// The channel that a sender handle feeds.
pub uninterp spec fn channel_id(s: Sender<Response>) -> int;

/// A receipt for one offer of a message to a channel: the sender handle it
/// was handed to, the message, and whether the channel took it.  Only
/// [`channel_try_send`] makes one.
pub struct Offered {
    sender: Ghost<Sender<Response>>,
    message: Ghost<ResponseView>,
    accepted: bool,
}

impl Offered {
    /// The sender handle the message was handed to.
    pub closed spec fn sender(self) -> Sender<Response> {
        self.sender@
    }

    /// The message that was handed over.
    pub closed spec fn message(self) -> ResponseView {
        self.message@
    }

    /// Whether the channel took the message.
    pub closed spec fn accepted(self) -> bool {
        self.accepted
    }

    /// Whether the channel took the message.
    pub fn was_accepted(&self) -> (b: bool)
        ensures
            b == self.accepted(),
    {
        self.accepted
    }
}

/// `Sender::try_send`: hands `msg` to the channel that `sender` feeds, and
/// records that handle, that message and whether the channel took it
/// (`Ok`); it refuses it when full or closed.  Which of the two happens is
/// not stated: it depends on how much the client has read.
#[verifier::external_body]
pub(crate) fn channel_try_send(sender: &Sender<Response>, msg: Response) -> (o: Offered)
    ensures
        o.sender() == *sender,
        o.message() == msg@,
{
    let given = Ghost(*sender);
    let message = Ghost(msg@);
    Offered { sender: given, message, accepted: sender.try_send(msg).is_ok() }
}

/// `Sender::clone`: another handle on the same channel.
#[verifier::external_body]
pub(crate) fn channel_clone(sender: &Sender<Response>) -> (c: Sender<Response>)
    ensures
        channel_id(c) == channel_id(*sender),
{
    sender.clone()
}

/// The registry of connected users, keyed by username.
pub struct Clients {
    map: DashMap<String, ClientInfo>,
}

impl View for Clients {
    type V = Map<Seq<char>, ClientInfo>;

    closed spec fn view(&self) -> Map<Seq<char>, ClientInfo> {
        client_table(self.map)
    }
}

impl Clients {
    /// An empty registry.
    pub fn new() -> (c: Clients)
        ensures
            c@ == Map::<Seq<char>, ClientInfo>::empty(),
    {
        let c = Clients { map: table_new() };
        assert(c@ =~= Map::<Seq<char>, ClientInfo>::empty());
        c
    }

    /// Whether a user is registered under `name`.
    pub fn contains(&self, name: &String) -> (b: bool)
        ensures
            b == self@.dom().contains(name@),
    {
        table_contains(&self.map, name)
    }

    /// Registers `info` under `name`, replacing any entry there.
    pub fn insert(&mut self, name: String, info: ClientInfo)
        ensures
            final(self)@ == old(self)@.insert(name@, info),
    {
        table_insert(&mut self.map, name, info)
    }

    /// Removes the entry under `name` and hands it back.
    pub fn remove(&mut self, name: &String) -> (info: Option<ClientInfo>)
        ensures
            final(self)@ == old(self)@.remove(name@),
            old(self)@.dom().contains(name@) ==> info == Some(old(self)@[name@]),
            !old(self)@.dom().contains(name@) ==> info is None,
    {
        table_remove(&mut self.map, name)
    }

    /// Every registered username once, in no particular order.
    pub fn usernames(&self) -> (names: Vec<String>)
        ensures
            forall|i: int, j: int| 0 <= i < j < names@.len() ==> names@[i]@ != names@[j]@,
            forall|i: int| 0 <= i < names@.len() ==> self@.dom().contains(#[trigger] names@[i]@),
            forall|k: Seq<char>|
                self@.dom().contains(k) ==> exists|i: int|
                    0 <= i < names@.len() && #[trigger] names@[i]@ == k,
    {
        table_keys(&self.map)
    }
}

} // verus!
