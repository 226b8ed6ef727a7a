//! The registry of running servers that each server keeps from etcd: every
//! server puts its own address under a key of its own, and watches the keys
//! of the others.

use vstd::prelude::*;
use crate::config::Config;
use crate::decimal::{decimal, lemma_parse_format_roundtrip, parse_i64_spec, write_i64, IntErrorKind};
use crate::result::AppError;
use crate::text::{contains_string, views};

verus! {

/// The name of a server: its key in etcd.
pub type ServerName = String;
/// The address of a server.
pub type ServerUri = String;

/// The prefix of the keys under which servers register.
pub const PREFIX: &'static str = "/server/";
/// The time to live of the lease that keeps a server's key, in seconds.
pub const LEASE_TTL_SECS: i64 = 18;
/// The interval between two renewals of the lease, in seconds.
pub const LEASE_KEEP_ALIVE_SECS: u64 = 1;
/// The pause before a failed session with etcd is started again, in seconds.
pub const RETRY_DELAY_SECS: u64 = 3;

/// The map that a list of entries stands for: each key to its value, a
/// later entry for a key replacing an earlier one.
pub open spec fn entry_map(s: Seq<(String, String)>) -> Map<Seq<char>, Seq<char>>
    decreases s.len(),
{
    if s.len() == 0 {
        Map::empty()
    } else {
        entry_map(s.drop_last()).insert(s.last().0@, s.last().1@)
    }
}

/// No two entries have the same key.
pub open spec fn keys_unique(s: Seq<(String, String)>) -> bool {
    forall|i: int, j: int| 0 <= i < j < s.len() ==> (#[trigger] s[i]).0@ != (#[trigger] s[j]).0@
}

proof fn lemma_entry_map(s: Seq<(String, String)>)
    requires
        keys_unique(s),
    ensures
        forall|k: Seq<char>| entry_map(s).contains_key(k) <==> exists|i: int| 0 <= i < s.len() && (#[trigger] s[i]).0@ == k,
        forall|i: int| 0 <= i < s.len() ==> entry_map(s)[(#[trigger] s[i]).0@] == s[i].1@,
    decreases s.len(),
{
    if s.len() > 0 {
        let p = s.drop_last();
        assert(keys_unique(p)) by {
            assert forall|i: int, j: int| 0 <= i < j < p.len() implies (#[trigger] p[i]).0@ != (#[trigger] p[j]).0@ by {
                assert(p[i] == s[i] && p[j] == s[j]);
            }
        }
        lemma_entry_map(p);
        assert(entry_map(s) == entry_map(p).insert(s.last().0@, s.last().1@));
        assert forall|k: Seq<char>| entry_map(s).contains_key(k) <==> exists|i: int| 0 <= i < s.len() && (#[trigger] s[i]).0@ == k by {
            if entry_map(s).contains_key(k) {
                if k == s.last().0@ {
                    assert(s[s.len() - 1].0@ == k);
                } else {
                    assert(entry_map(p).contains_key(k));
                    let i = choose|i: int| 0 <= i < p.len() && (#[trigger] p[i]).0@ == k;
                    assert(s[i] == p[i]);
                }
            }
            if exists|i: int| 0 <= i < s.len() && (#[trigger] s[i]).0@ == k {
                let i = choose|i: int| 0 <= i < s.len() && (#[trigger] s[i]).0@ == k;
                if i < s.len() - 1 {
                    assert(p[i] == s[i]);
                    assert(entry_map(p).contains_key(k));
                }
            }
        }
        assert forall|i: int| 0 <= i < s.len() implies entry_map(s)[(#[trigger] s[i]).0@] == s[i].1@ by {
            if i < s.len() - 1 {
                assert(p[i] == s[i]);
                assert(s[i].0@ != s[s.len() - 1].0@);
            }
        }
    }
}

/// The position of the entry for `name`, if there is one.
fn find_entry(entries: &Vec<(ServerName, ServerUri)>, name: &String) -> (r: Option<usize>)
    requires
        keys_unique(entries@),
    ensures
        match r {
            Some(i) => i < entries@.len() && entries@[i as int].0@ == name@,
            None => !entry_map(entries@).contains_key(name@),
        },
{
    proof {
        lemma_entry_map(entries@);
    }
    let mut i: usize = 0;
    while i < entries.len()
        invariant
            i <= entries@.len(),
            forall|j: int| 0 <= j < i ==> (#[trigger] entries@[j]).0@ != name@,
        decreases entries@.len() - i,
    {
        if entries[i].0 == *name {
            return Some(i);
        }
        i = i + 1;
    }
    None
}

/// Sets the entry for `name` to `uri`: in place where there is one, else
/// at the end.
fn insert_entry(entries: &mut Vec<(ServerName, ServerUri)>, name: String, uri: String)
    requires
        keys_unique(old(entries)@),
    ensures
        keys_unique(final(entries)@),
        entry_map(final(entries)@) == entry_map(old(entries)@).insert(name@, uri@),
{
    let ghost old_entries = entries@;
    proof {
        lemma_entry_map(old_entries);
    }
    match find_entry(entries, &name) {
        Some(i) => {
            let ghost (k, v) = (name@, uri@);
            entries.set(i, (name, uri));
            let ghost s = entries@;
            assert(keys_unique(s)) by {
                assert forall|a: int, b: int| 0 <= a < b < s.len() implies (#[trigger] s[a]).0@ != (#[trigger] s[b]).0@ by {
                    assert(s[a].0@ == old_entries[a].0@);
                    assert(s[b].0@ == old_entries[b].0@);
                }
            }
            proof {
                lemma_entry_map(s);
                assert forall|x: Seq<char>| entry_map(s).contains_key(x) <==> entry_map(old_entries).insert(k, v).contains_key(x) by {
                    if exists|j: int| 0 <= j < s.len() && (#[trigger] s[j]).0@ == x {
                        let j = choose|j: int| 0 <= j < s.len() && (#[trigger] s[j]).0@ == x;
                        assert(old_entries[j].0@ == x);
                    }
                    if exists|j: int| 0 <= j < old_entries.len() && (#[trigger] old_entries[j]).0@ == x {
                        let j = choose|j: int| 0 <= j < old_entries.len() && (#[trigger] old_entries[j]).0@ == x;
                        assert(s[j].0@ == x);
                    }
                    if x == k {
                        assert(s[i as int].0@ == x);
                    }
                }
                assert forall|x: Seq<char>| #[trigger] entry_map(s).contains_key(x) implies entry_map(s)[x] == entry_map(old_entries).insert(k, v)[x] by {
                    let j = choose|j: int| 0 <= j < s.len() && (#[trigger] s[j]).0@ == x;
                    if j != i {
                        assert(s[j] == old_entries[j]);
                    }
                }
                assert(entry_map(s) =~= entry_map(old_entries).insert(k, v));
            }
        },
        None => {
            entries.push((name, uri));
            let ghost s = entries@;
            assert(s.drop_last() =~= old_entries);
            assert(keys_unique(s)) by {
                assert forall|a: int, b: int| 0 <= a < b < s.len() implies (#[trigger] s[a]).0@ != (#[trigger] s[b]).0@ by {
                    if b == s.len() - 1 {
                        assert(s[a] == old_entries[a]);
                    } else {
                        assert(s[a] == old_entries[a] && s[b] == old_entries[b]);
                    }
                }
            }
        },
    }
}

/// Takes out the entry for `name`, if there is one.
fn remove_entry(entries: &mut Vec<(ServerName, ServerUri)>, name: &String)
    requires
        keys_unique(old(entries)@),
    ensures
        keys_unique(final(entries)@),
        entry_map(final(entries)@) == entry_map(old(entries)@).remove(name@),
{
    let ghost old_entries = entries@;
    proof {
        lemma_entry_map(old_entries);
    }
    match find_entry(entries, name) {
        Some(i) => {
            let _ = entries.remove(i);
            let ghost s = entries@;
            assert(s =~= old_entries.remove(i as int));
            assert forall|j: int| 0 <= j < s.len() implies #[trigger] s[j] == (if j < i { old_entries[j] } else { old_entries[j + 1] }) by {}
            assert(keys_unique(s)) by {
                assert forall|a: int, b: int| 0 <= a < b < s.len() implies (#[trigger] s[a]).0@ != (#[trigger] s[b]).0@ by {
                    let a0 = if a < i { a } else { a + 1 };
                    let b0 = if b < i { b } else { b + 1 };
                    assert(s[a] == old_entries[a0]);
                    assert(s[b] == old_entries[b0]);
                }
            }
            proof {
                lemma_entry_map(s);
                let m = entry_map(old_entries).remove(name@);
                assert forall|x: Seq<char>| entry_map(s).contains_key(x) <==> m.contains_key(x) by {
                    if exists|j: int| 0 <= j < s.len() && (#[trigger] s[j]).0@ == x {
                        let j = choose|j: int| 0 <= j < s.len() && (#[trigger] s[j]).0@ == x;
                        let j0 = if j < i { j } else { j + 1 };
                        assert(old_entries[j0].0@ == x);
                        assert(x != name@);
                    }
                    if m.contains_key(x) {
                        let j = choose|j: int| 0 <= j < old_entries.len() && (#[trigger] old_entries[j]).0@ == x;
                        assert(j != i);
                        if j < i {
                            assert(s[j].0@ == x);
                        } else {
                            assert(s[j - 1].0@ == x);
                        }
                    }
                }
                assert forall|x: Seq<char>| #[trigger] entry_map(s).contains_key(x) implies entry_map(s)[x] == m[x] by {
                    let j = choose|j: int| 0 <= j < s.len() && (#[trigger] s[j]).0@ == x;
                    let j0 = if j < i { j } else { j + 1 };
                    assert(s[j] == old_entries[j0]);
                }
                assert(entry_map(s) =~= m);
            }
        },
        None => {
            assert(entry_map(old_entries).remove(name@) =~= entry_map(old_entries));
        },
    }
}

/// The servers that are known, by name.
pub struct ServerRegistry {
    entries: Vec<(ServerName, ServerUri)>,
}

impl View for ServerRegistry {
    type V = Map<Seq<char>, Seq<char>>;

    closed spec fn view(&self) -> Map<Seq<char>, Seq<char>> {
        entry_map(self.entries@)
    }
}

impl ServerRegistry {
    /// The registry's invariant: one entry per name. Every registry keeps it,
    /// so no method asks for it.
    #[verifier::type_invariant]
    spec fn inv(&self) -> bool {
        keys_unique(self.entries@)
    }

    /// An empty registry.
    pub fn new() -> (r: ServerRegistry)
        ensures
            r@ == Map::<Seq<char>, Seq<char>>::empty(),
    {
        ServerRegistry { entries: Vec::new() }
    }

    /// The number of servers.
    pub fn len(&self) -> (n: usize)
        ensures
            self@.dom().finite(),
            n == self@.len(),
    {
        proof {
            use_type_invariant(self);
            self.lemma_len();
        }
        self.entries.len()
    }

    proof fn lemma_len(&self)
        requires
            keys_unique(self.entries@),
        ensures
            self@.len() == self.entries@.len(),
            self@.dom().finite(),
    {
        lemma_entry_map_len(self.entries@);
    }

    /// The address of the server `name`, if it is known.
    pub fn get(&self, name: &String) -> (r: Option<String>)
        ensures
            r is Some <==> self@.contains_key(name@),
            r matches Some(v) ==> v@ == self@[name@],
    {
        proof {
            use_type_invariant(self);
            lemma_entry_map(self.entries@);
        }
        match find_entry(&self.entries, name) {
            Some(i) => Some(self.entries[i].1.clone()),
            None => None,
        }
    }

    /// Records that server `name` has address `uri`, replacing what was
    /// known of it.
    pub fn insert(&mut self, name: String, uri: String)
        ensures
            final(self)@ == old(self)@.insert(name@, uri@),
    {
        proof {
            use_type_invariant(&*self);
        }
        let mut entries: Vec<(ServerName, ServerUri)> = Vec::new();
        std::mem::swap(&mut entries, &mut self.entries);
        insert_entry(&mut entries, name, uri);
        self.entries = entries;
    }

    /// Forgets server `name`.
    pub fn remove(&mut self, name: &String)
        ensures
            final(self)@ == old(self)@.remove(name@),
    {
        proof {
            use_type_invariant(&*self);
        }
        let mut entries: Vec<(ServerName, ServerUri)> = Vec::new();
        std::mem::swap(&mut entries, &mut self.entries);
        remove_entry(&mut entries, name);
        self.entries = entries;
    }

    /// The addresses of the known servers, each address once (several
    /// servers may share one).
    pub fn servers(&self) -> (r: Vec<String>)
        ensures
            views(r@).no_duplicates(),
            forall|u: Seq<char>| views(r@).contains(u) <==> self@.values().contains(u),
            self@.dom().finite(),
            r@.len() <= self@.len(),
    {
        proof {
            use_type_invariant(self);
            lemma_entry_map(self.entries@);
            self.lemma_len();
        }
        let mut out: Vec<String> = Vec::new();
        let mut i: usize = 0;
        while i < self.entries.len()
            invariant
                i <= self.entries@.len(),
                out@.len() <= i,
                views(out@).no_duplicates(),
                forall|u: Seq<char>| views(out@).contains(u) <==> exists|j: int| 0 <= j < i && (#[trigger] self.entries@[j]).1@ == u,
            decreases self.entries@.len() - i,
        {
            let uri = &self.entries[i].1;
            let ghost before = views(out@);
            if !contains_string(&out, uri) {
                out.push(uri.clone());
                assert(views(out@) =~= before.push(uri@));
            }
            assert forall|u: Seq<char>| views(out@).contains(u) <==> exists|j: int| 0 <= j < i + 1 && (#[trigger] self.entries@[j]).1@ == u by {
                if views(out@).contains(u) && u != uri@ {
                    let k = choose|k: int| 0 <= k < views(out@).len() && views(out@)[k] == u;
                    assert(before.contains(u)) by {
                        assert(before[k] == u);
                    }
                }
                if exists|j: int| 0 <= j < i + 1 && (#[trigger] self.entries@[j]).1@ == u {
                    if u != uri@ {
                        let j = choose|j: int| 0 <= j < i + 1 && (#[trigger] self.entries@[j]).1@ == u;
                        assert(j < i);
                        assert(before.contains(u));
                        let k = choose|k: int| 0 <= k < before.len() && before[k] == u;
                        assert(views(out@)[k] == u);
                    } else {
                        if before.contains(u) {
                            let k = choose|k: int| 0 <= k < before.len() && before[k] == u;
                            assert(views(out@)[k] == u);
                        } else {
                            assert(views(out@)[views(out@).len() - 1] == u);
                        }
                    }
                }
            }
            i = i + 1;
        }
        proof {
            assert forall|u: Seq<char>| views(out@).contains(u) <==> self@.values().contains(u) by {
                if views(out@).contains(u) {
                    let j = choose|j: int| 0 <= j < self.entries@.len() && (#[trigger] self.entries@[j]).1@ == u;
                    assert(self@.contains_key(self.entries@[j].0@));
                    assert(self@[self.entries@[j].0@] == u);
                }
                if self@.values().contains(u) {
                    let k = choose|k: Seq<char>| self@.contains_key(k) && self@[k] == u;
                    let j = choose|j: int| 0 <= j < self.entries@.len() && (#[trigger] self.entries@[j]).0@ == k;
                    assert(self.entries@[j].1@ == u);
                }
            }
        }
        out
    }

    /// Forgets every server.
    pub fn clear(&mut self)
        ensures
            final(self)@ == Map::<Seq<char>, Seq<char>>::empty(),
    {
        self.entries = Vec::new();
    }
}

/// A change to the servers that etcd reports.
#[derive(Debug)]
pub enum WatchEvent {
    /// Server `key` now has address `value`.
    Put { key: String, value: String },
    /// Server `key` is gone.
    Delete { key: String },
}

/// What the registry is after each of `entries` is recorded in turn.
pub open spec fn load_spec(m: Map<Seq<char>, Seq<char>>, entries: Seq<(String, String)>) -> Map<Seq<char>, Seq<char>>
    decreases entries.len(),
{
    if entries.len() == 0 {
        m
    } else {
        load_spec(m, entries.drop_last()).insert(entries.last().0@, entries.last().1@)
    }
}

/// The key under which the server with id `id` registers.
pub open spec fn server_key(id: int) -> Seq<char> {
    PREFIX@ + decimal(id)
}

/// The address under which a server is reached: `http://<ip>:<port>`.
pub open spec fn server_uri(local_ip: Seq<char>, port: int) -> Seq<char> {
    "http://"@ + local_ip + ":"@ + decimal(port)
}

/// The shape of the id that a fresh snowflake bucket for machine 1 and node 1
/// hands out first: the clock in milliseconds shifted above the low 22 bits,
/// which hold machine 1 (bits 17 to 21), node 1 (bits 12 to 16) and the
/// sequence number 4091 (bits 0 to 11), the last of the 4091 ids that the
/// bucket makes at once and the one that it gives first.
pub open spec fn is_fresh_server_id(id: i64) -> bool {
    id & 0x3f_ffff == 0x2_1ffb
}

/// A fresh id for this server, from `snowflake::SnowflakeIdBucket::new(1, 1).get_id()`.
/// Claimed: the low 22 bits hold machine 1, node 1 and sequence 4091, as
/// `SnowflakeIdGenerator::lazy_generate` composes them and `get_id` pops the
/// last of the 4091 ids that it generates. The bits above come from the clock
/// and nothing is claimed of them.
#[verifier::external_body]
fn generate_server_id() -> (id: i64)
    ensures
        is_fresh_server_id(id),
{
    snowflake::SnowflakeIdBucket::new(1, 1).get_id()
}

/// One server's view of etcd: its own id and the servers that it knows.
pub struct Etcd {
    id: i64,
    servers: ServerRegistry,
}

impl Etcd {
    /// The id of this server.
    pub closed spec fn spec_id(&self) -> i64 {
        self.id
    }

    /// The servers that are known: name to address.
    pub closed spec fn known(&self) -> Map<Seq<char>, Seq<char>> {
        self.servers@
    }

    /// A server with a fresh snowflake id that knows no server yet.
    pub fn new() -> (r: Etcd)
        ensures
            is_fresh_server_id(r.spec_id()),
            r.known() == Map::<Seq<char>, Seq<char>>::empty(),
    {
        Etcd { id: generate_server_id(), servers: ServerRegistry::new() }
    }

    /// The id of this server.
    pub fn id(&self) -> (r: i64)
        ensures
            r == self.spec_id(),
    {
        self.id
    }

    /// The key under which this server registers: the prefix and its id.
    pub fn get_name(&self) -> (r: String)
        ensures
            r@ == server_key(self.spec_id() as int),
    {
        let mut name = String::from_str(PREFIX);
        write_i64(&mut name, self.id);
        name
    }

    /// The key and the address under which this server registers.
    pub fn registration(&self, config: &Config) -> (r: (String, String))
        ensures
            r.0@ == server_key(self.spec_id() as int),
            r.1@ == server_uri(config.local_ip@, config.local_ws_server_port as int),
    {
        let mut uri = String::from_str("http://");
        uri.append(config.local_ip.as_str());
        uri.append(":");
        write_i64(&mut uri, config.local_ws_server_port);
        (self.get_name(), uri)
    }

    /// The addresses of the known servers, each once.
    pub fn get_servers(&self) -> (r: Vec<String>)
        ensures
            views(r@).no_duplicates(),
            forall|u: Seq<char>| views(r@).contains(u) <==> self.known().values().contains(u),
            self.known().dom().finite(),
            r@.len() <= self.known().len(),
    {
        self.servers.servers()
    }

    /// The address of server `name`, if it is known.
    pub fn get(&self, name: &String) -> (r: Option<String>)
        ensures
            r is Some <==> self.known().contains_key(name@),
            r matches Some(v) ==> v@ == self.known()[name@],
    {
        self.servers.get(name)
    }

    /// The number of known servers.
    pub fn len(&self) -> (n: usize)
        ensures
            self.known().dom().finite(),
            n == self.known().len(),
    {
        self.servers.len()
    }

    /// Records a change that etcd reports.
    pub fn apply(&mut self, event: WatchEvent)
        ensures
            final(self).spec_id() == old(self).spec_id(),
            match event {
                WatchEvent::Put { key, value } => final(self).known() == old(self).known().insert(key@, value@),
                WatchEvent::Delete { key } => final(self).known() == old(self).known().remove(key@),
            },
    {
        match event {
            WatchEvent::Put { key, value } => self.servers.insert(key, value),
            WatchEvent::Delete { key } => self.servers.remove(&key),
        }
    }

    /// Records the servers that etcd lists, in order.
    pub fn load(&mut self, entries: Vec<(String, String)>)
        ensures
            final(self).spec_id() == old(self).spec_id(),
            final(self).known() == load_spec(old(self).known(), entries@),
    {
        let ghost start = self.servers@;
        let ghost all = entries@;
        let mut i: usize = 0;
        let n = entries.len();
        while i < n
            invariant
                n == all.len(),
                entries@ == all,
                i <= n,
                self.id == old(self).id,
                self.servers@ == load_spec(start, all.take(i as int)),
            decreases n - i,
        {
            let ghost prefix = all.take(i as int);
            let k = entries[i].0.clone();
            let v = entries[i].1.clone();
            assert(all.take(i + 1).drop_last() =~= prefix);
            assert(all.take(i + 1).last() == all[i as int]);
            self.servers.insert(k, v);
            i = i + 1;
        }
        assert(all.take(n as int) =~= all);
    }

    /// Ends a session with etcd: after a failed one the known servers are
    /// forgotten, after one that ended without error they stay.
    pub fn end_session(&mut self, outcome: &Result<(), AppError>)
        ensures
            final(self).spec_id() == old(self).spec_id(),
            outcome is Err ==> final(self).known() == Map::<Seq<char>, Seq<char>>::empty(),
            outcome is Ok ==> final(self).known() == old(self).known(),
    {
        if outcome.is_err() {
            self.servers.clear();
        }
    }
}

proof fn lemma_entry_map_len(s: Seq<(String, String)>)
    requires
        keys_unique(s),
    ensures
        entry_map(s).dom().finite(),
        entry_map(s).len() == s.len(),
    decreases s.len(),
{
    if s.len() > 0 {
        let p = s.drop_last();
        assert(keys_unique(p)) by {
            assert forall|i: int, j: int| 0 <= i < j < p.len() implies (#[trigger] p[i]).0@ != (#[trigger] p[j]).0@ by {
                assert(p[i] == s[i] && p[j] == s[j]);
            }
        }
        lemma_entry_map_len(p);
        lemma_entry_map(p);
        assert(!entry_map(p).contains_key(s.last().0@)) by {
            if entry_map(p).contains_key(s.last().0@) {
                let i = choose|i: int| 0 <= i < p.len() && (#[trigger] p[i]).0@ == s.last().0@;
                assert(p[i] == s[i]);
            }
        }
    }
}

/// Each server registers under a key of its own: servers with different
/// ids have different keys, and every key starts with the prefix that the
/// servers watch.
pub proof fn lemma_server_key_unique(a: i64, b: i64)
    ensures
        server_key(a as int) == server_key(b as int) ==> a == b,
        server_key(a as int).take(PREFIX@.len() as int) == PREFIX@,
{
    if server_key(a as int) == server_key(b as int) {
        assert(decimal(a as int) =~= server_key(a as int).skip(PREFIX@.len() as int));
        assert(decimal(b as int) =~= server_key(b as int).skip(PREFIX@.len() as int));
        crate::decimal::lemma_decimal_injective(a, b);
    }
    assert(server_key(a as int).take(PREFIX@.len() as int) =~= PREFIX@);
}

/// What a change does to the known servers, as `Etcd::apply` states it: a
/// read after a put gives the address that was put; a read after a delete
/// finds nothing; neither touches another server; putting the same address
/// twice is putting it once; a put followed by a delete of a server that
/// was not known leaves the servers as they were.
pub proof fn lemma_registry_read_after_write(
    known: Map<Seq<char>, Seq<char>>,
    name: Seq<char>,
    uri: Seq<char>,
    other: Seq<char>,
)
    requires
        other != name,
    ensures
        known.insert(name, uri).contains_key(name) && known.insert(name, uri)[name] == uri,
        !known.remove(name).contains_key(name),
        known.insert(name, uri).contains_key(other) == known.contains_key(other),
        known.insert(name, uri)[other] == known[other],
        known.remove(name).contains_key(other) == known.contains_key(other),
        known.remove(name)[other] == known[other],
        known.insert(name, uri).insert(name, uri) == known.insert(name, uri),
        !known.contains_key(name) ==> known.insert(name, uri).remove(name) == known,
{
    assert(known.insert(name, uri).insert(name, uri) =~= known.insert(name, uri));
    if !known.contains_key(name) {
        assert(known.insert(name, uri).remove(name) =~= known);
    }
}

/// Some entry of `s` is for server `x`.
pub open spec fn lists_key(s: Seq<(String, String)>, x: Seq<char>) -> bool {
    exists|i: int| 0 <= i < s.len() && (#[trigger] s[i]).0@ == x
}

/// Loading a listing records its entries one after another: an empty
/// listing changes nothing, a listing with one entry more is the shorter
/// listing and then that entry recorded, so one entry `(k, v)` is recorded as
/// `m.insert(k, v)`; every listed server is known afterwards, and a server
/// that is not listed keeps what was known of it.
pub proof fn lemma_load_records_each_entry(
    m: Map<Seq<char>, Seq<char>>,
    s: Seq<(String, String)>,
    k: String,
    v: String,
)
    ensures
        load_spec(m, Seq::<(String, String)>::empty()) == m,
        load_spec(m, s.push((k, v))) == load_spec(m, s).insert(k@, v@),
        load_spec(m, seq![(k, v)]) == m.insert(k@, v@),
        forall|i: int| 0 <= i < s.len() ==> load_spec(m, s).contains_key((#[trigger] s[i]).0@),
        forall|x: Seq<char>| #![trigger load_spec(m, s).contains_key(x)]
            !lists_key(s, x) ==> (load_spec(m, s).contains_key(x) == m.contains_key(x)
                && (m.contains_key(x) ==> load_spec(m, s)[x] == m[x])),
{
    assert(s.push((k, v)).drop_last() =~= s);
    assert(seq![(k, v)].drop_last() =~= Seq::<(String, String)>::empty());
    assert(load_spec(m, Seq::<(String, String)>::empty()) == m);
    assert(seq![(k, v)].last() == (k, v));
    lemma_load_keys(m, s);
}

proof fn lemma_load_keys(m: Map<Seq<char>, Seq<char>>, s: Seq<(String, String)>)
    ensures
        forall|i: int| 0 <= i < s.len() ==> load_spec(m, s).contains_key((#[trigger] s[i]).0@),
        forall|x: Seq<char>| #![trigger load_spec(m, s).contains_key(x)]
            !lists_key(s, x) ==> (load_spec(m, s).contains_key(x) == m.contains_key(x)
                && (m.contains_key(x) ==> load_spec(m, s)[x] == m[x])),
    decreases s.len(),
{
    if s.len() > 0 {
        let p = s.drop_last();
        lemma_load_keys(m, p);
        assert forall|i: int| 0 <= i < s.len() implies load_spec(m, s).contains_key((#[trigger] s[i]).0@) by {
            if i < s.len() - 1 {
                assert(s[i] == p[i]);
            }
        }
        assert forall|x: Seq<char>| #![trigger load_spec(m, s).contains_key(x)]
            !lists_key(s, x) implies (load_spec(m, s).contains_key(x) == m.contains_key(x)
                && (m.contains_key(x) ==> load_spec(m, s)[x] == m[x])) by {
            if lists_key(p, x) {
                let i = choose|i: int| 0 <= i < p.len() && (#[trigger] p[i]).0@ == x;
                assert(s[i] == p[i]);
            }
            if s.last().0@ == x {
                assert(s[s.len() - 1].0@ == x);
            }
            assert(load_spec(m, p).contains_key(x) == m.contains_key(x));
            assert(load_spec(m, s) == load_spec(m, p).insert(s.last().0@, s.last().1@));
        }
    }
}

/// The address under which a server registers gives back its settings:
/// it is `http://`, the local address and `:`, followed by a text that reads
/// as exactly the configured port, for every port.
pub proof fn lemma_server_uri_gives_port(local_ip: Seq<char>, port: i64)
    ensures
        ({
            let head = "http://"@ + local_ip + ":"@;
            &&& server_uri(local_ip, port as int).take(head.len() as int) == head
            &&& parse_i64_spec(server_uri(local_ip, port as int).skip(head.len() as int)) == Ok::<int, IntErrorKind>(port as int)
        }),
{
    let head = "http://"@ + local_ip + ":"@;
    assert(server_uri(local_ip, port as int).take(head.len() as int) =~= head);
    assert(server_uri(local_ip, port as int).skip(head.len() as int) =~= decimal(port as int));
    lemma_parse_format_roundtrip(port);
}

/// The key under which a server registers gives back its id: the prefix,
/// followed by a text that reads as exactly the id.
pub proof fn lemma_server_key_gives_id(id: i64)
    ensures
        server_key(id as int).take(PREFIX@.len() as int) == PREFIX@,
        parse_i64_spec(server_key(id as int).skip(PREFIX@.len() as int)) == Ok::<int, IntErrorKind>(id as int),
{
    assert(server_key(id as int).take(PREFIX@.len() as int) =~= PREFIX@);
    assert(server_key(id as int).skip(PREFIX@.len() as int) =~= decimal(id as int));
    lemma_parse_format_roundtrip(id);
}

} // verus!

