//! The clients that are connected to this server, by identity.

use vstd::prelude::*;
use vstd::hash_map::StringHashMap;
use crate::client::{ident_spec, Client, ClientMessage};
use crate::result::AppResult;

verus! {

/// The connected clients.
pub struct AppState {
    clients: StringHashMap<Client>,
}

/// The platform, the user id and the room in the channel of each connected
/// client, by identity.
pub open spec fn client_table(m: Map<Seq<char>, Client>) -> Map<Seq<char>, (Seq<char>, Seq<char>, nat)> {
    m.map_values(|c: Client| (c.spec_platform(), c.spec_id(), c.spec_capacity()))
}

impl View for AppState {
    type V = Map<Seq<char>, (Seq<char>, Seq<char>, nat)>;

    closed spec fn view(&self) -> Map<Seq<char>, (Seq<char>, Seq<char>, nat)> {
        client_table(self.clients@)
    }
}

impl AppState {
    /// No client is connected.
    pub fn new() -> (r: AppState)
        ensures
            r@ == Map::<Seq<char>, (Seq<char>, Seq<char>, nat)>::empty(),
    {
        let r = AppState { clients: StringHashMap::new() };
        assert(r@ =~= Map::<Seq<char>, (Seq<char>, Seq<char>, nat)>::empty());
        r
    }

    /// Records `client` as connected under its identity, in place of any
    /// client that had the same identity.
    pub fn add_client_sender(&mut self, client: &Client)
        ensures
            final(self)@ == old(self)@.insert(
                ident_spec(client.spec_platform(), client.spec_id()),
                (client.spec_platform(), client.spec_id(), client.spec_capacity()),
            ),
    {
        let key = client.ident();
        let stored = client.duplicate();
        self.clients.insert(key, stored);
        assert(self@ =~= old(self)@.insert(
            ident_spec(client.spec_platform(), client.spec_id()),
            (client.spec_platform(), client.spec_id(), client.spec_capacity()),
        ));
    }

    /// Records that `client` is gone.
    pub fn del_client_sender(&mut self, client: &Client)
        ensures
            final(self)@ == old(self)@.remove(ident_spec(client.spec_platform(), client.spec_id())),
    {
        let key = client.ident();
        self.clients.remove(key.as_str());
        assert(self@ =~= old(self)@.remove(ident_spec(client.spec_platform(), client.spec_id())));
    }

    /// Whether a client with identity `ident` is connected.
    pub fn is_connected(&self, ident: &str) -> (r: bool)
        ensures
            r == self@.contains_key(ident@),
    {
        self.clients.contains_key(ident)
    }

    /// The number of connected clients.
    pub fn len(&self) -> (n: usize)
        ensures
            n == self@.len(),
    {
        proof {
            assert(self@.dom() =~= self.clients@.dom());
        }
        self.clients.len()
    }

    /// Sends `message` to the client of user `id`. Delivery is not done yet:
    /// the call always succeeds and changes nothing.
    pub fn send_message(&self, id: &String, message: &ClientMessage) -> (r: AppResult<()>)
        ensures
            r is Ok,
    {
        Ok(())
    }
}

/// A client that connects and then leaves: while it is connected it is
/// found under its identity with its platform, id and channel room; after it
/// leaves it is not, and if no client had its identity before, the
/// connected clients are as they were.
pub proof fn lemma_connect_then_leave(
    clients: Map<Seq<char>, (Seq<char>, Seq<char>, nat)>,
    platform: Seq<char>,
    id: Seq<char>,
    capacity: nat,
)
    ensures
        ({
            let k = ident_spec(platform, id);
            let connected = clients.insert(k, (platform, id, capacity));
            &&& connected.contains_key(k)
            &&& connected[k] == (platform, id, capacity)
            &&& !connected.remove(k).contains_key(k)
            &&& !clients.contains_key(k) ==> connected.remove(k) == clients
        }),
{
    let k = ident_spec(platform, id);
    if !clients.contains_key(k) {
        assert(clients.insert(k, (platform, id, capacity)).remove(k) =~= clients);
    }
}

} // verus!

