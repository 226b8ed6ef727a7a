//! A client connected over a WebSocket: who it is, from which platform, and
//! the channel on which the server tells it to close.

use vstd::prelude::*;
use tokio::sync::mpsc::{Receiver, Sender};

verus! {

/// The room for messages in a client's channel.
pub const CLIENT_CHANNEL_CAPACITY: usize = 100;

/// What the server tells a client.
#[derive(Debug)]
pub enum ClientMessage {
    /// Close the connection, giving this reason.
    Close(String),
}

/// The sending end of a `tokio::sync::mpsc` channel.
#[verifier::external_type_specification]
#[verifier::external_body]
#[verifier::reject_recursive_types(T)]
pub struct ExSender<T>(Sender<T>);

/// The receiving end of a `tokio::sync::mpsc` channel.
#[verifier::external_type_specification]
#[verifier::external_body]
#[verifier::reject_recursive_types(T)]
pub struct ExReceiver<T>(Receiver<T>);

/// The number of messages that the channel of `sender` has room for, as
/// `Sender::max_capacity` reports it: the bound it was opened with.
pub uninterp spec fn channel_capacity(sender: Sender<ClientMessage>) -> nat;

/// Opens a channel with `tokio::sync::mpsc::channel` with room for
/// `capacity` messages. Claimed: the sending end has room for `capacity`
/// messages. `tokio` panics when the room is 0 or more than
/// `usize::MAX >> 3`, that is `usize::MAX / 8` (the most permits that its
/// semaphore takes), which the `requires` rules out. That the two ends
/// belong to one channel is not stated.
#[verifier::external_body]
fn open_channel(capacity: usize) -> (r: (Sender<ClientMessage>, Receiver<ClientMessage>))
    requires
        0 < capacity <= usize::MAX / 8,
    ensures
        channel_capacity(r.0) == capacity,
{
    tokio::sync::mpsc::channel(capacity)
}

/// Another handle on the channel of `s`, from `Sender::clone`. Claimed: it
/// has the room of that channel (the clone shares the channel, whose bound
/// `Sender::max_capacity` reads). That it is the same channel is not stated.
#[verifier::external_body]
fn clone_sender(s: &Sender<ClientMessage>) -> (r: Sender<ClientMessage>)
    ensures
        channel_capacity(r) == channel_capacity(*s),
{
    s.clone()
}

/// The identity of a client: its platform, a colon, its id.
pub open spec fn ident_spec(platform: Seq<char>, id: Seq<char>) -> Seq<char> {
    platform + ":"@ + id
}

/// A connected client.
pub struct Client {
    id: String,
    platform: String,
    pub sender: Sender<ClientMessage>,
}

impl Client {
    /// The id of the client's user.
    pub closed spec fn spec_id(&self) -> Seq<char> {
        self.id@
    }

    /// The client's platform.
    pub closed spec fn spec_platform(&self) -> Seq<char> {
        self.platform@
    }

    /// The room in the client's channel.
    pub closed spec fn spec_capacity(&self) -> nat {
        channel_capacity(self.sender)
    }

    /// A client of user `id` on `platform`, and the end of its channel on
    /// which it receives the server's messages.
    pub fn new(id: &str, platform: &str) -> (r: (Client, Receiver<ClientMessage>))
        ensures
            r.0.spec_id() == id@,
            r.0.spec_platform() == platform@,
            r.0.spec_capacity() == CLIENT_CHANNEL_CAPACITY,
    {
        let (sender, receiver) = open_channel(CLIENT_CHANNEL_CAPACITY);
        (Client { id: String::from_str(id), platform: String::from_str(platform), sender }, receiver)
    }

    /// The identity of the client: `<platform>:<id>`.
    pub fn ident(&self) -> (r: String)
        ensures
            r@ == ident_spec(self.spec_platform(), self.spec_id()),
    {
        let mut s = self.platform.clone();
        s.append(":");
        s.append(self.id.as_str());
        s
    }

    /// Another handle on the same client.
    pub fn duplicate(&self) -> (r: Client)
        ensures
            r.spec_id() == self.spec_id(),
            r.spec_platform() == self.spec_platform(),
            r.spec_capacity() == self.spec_capacity(),
    {
        Client { id: self.id.clone(), platform: self.platform.clone(), sender: clone_sender(&self.sender) }
    }
}

/// The identity of a client holds its platform and its whole id: the
/// platform, then `:`, then the id; so on one platform two clients with
/// different ids have different identities.
pub proof fn lemma_ident_holds_platform_and_id(platform: Seq<char>, id: Seq<char>, other: Seq<char>)
    ensures
        ident_spec(platform, id).len() == platform.len() + 1 + id.len(),
        ident_spec(platform, id).take(platform.len() as int) == platform,
        ident_spec(platform, id)[platform.len() as int] == ':',
        ident_spec(platform, id).skip(platform.len() as int + 1) == id,
        ident_spec(platform, id) == ident_spec(platform, other) ==> id == other,
{
    reveal_strlit(":");
    let s = ident_spec(platform, id);
    assert(s.take(platform.len() as int) =~= platform);
    assert(s.skip(platform.len() as int + 1) =~= id);
    assert(ident_spec(platform, other).skip(platform.len() as int + 1) =~= other);
}

} // verus!

