use big_totoro::client::{Client, ClientMessage, CLIENT_CHANNEL_CAPACITY};
use big_totoro::config::Config;
use big_totoro::decimal::parse_i64;
use big_totoro::etcd::{Etcd, ServerRegistry, WatchEvent, PREFIX, LEASE_TTL_SECS, RETRY_DELAY_SECS, LEASE_KEEP_ALIVE_SECS};
use big_totoro::result::AppError;
use big_totoro::state::AppState;

fn s(x: &str) -> String {
    x.to_string()
}

#[test]
fn registry_put_get_remove() {
    let mut r = ServerRegistry::new();
    assert_eq!(r.len(), 0);
    r.insert(s("/server/1"), s("http://a:1"));
    r.insert(s("/server/2"), s("http://b:2"));
    assert_eq!(r.get(&s("/server/1")), Some(s("http://a:1")));
    r.insert(s("/server/1"), s("http://c:3"));
    assert_eq!(r.get(&s("/server/1")), Some(s("http://c:3")));
    assert_eq!(r.len(), 2);
    r.remove(&s("/server/1"));
    assert_eq!(r.get(&s("/server/1")), None);
    assert_eq!(r.get(&s("/server/2")), Some(s("http://b:2")));
    r.remove(&s("/server/9"));
    assert_eq!(r.len(), 1);
    r.clear();
    assert_eq!(r.len(), 0);
}

#[test]
fn servers_lists_each_address_once() {
    let mut r = ServerRegistry::new();
    r.insert(s("k1"), s("http://x:1"));
    r.insert(s("k2"), s("http://x:1"));
    r.insert(s("k3"), s("http://y:2"));
    let mut got = r.servers();
    assert!(got.len() <= r.len());
    got.sort();
    assert_eq!(got, vec![s("http://x:1"), s("http://y:2")]);
    assert!(ServerRegistry::new().servers().is_empty());
}

#[test]
fn etcd_events_and_sessions() {
    let mut e = Etcd::new();
    e.load(vec![(s("/server/1"), s("http://a:1")), (s("/server/2"), s("http://b:2")), (s("/server/1"), s("http://c:3"))]);
    assert_eq!(e.len(), 2);
    assert_eq!(e.get(&s("/server/1")), Some(s("http://c:3")));
    e.apply(WatchEvent::Put { key: s("/server/3"), value: s("http://d:4") });
    e.apply(WatchEvent::Delete { key: s("/server/2") });
    assert_eq!(e.get(&s("/server/2")), None);
    let mut servers = e.get_servers();
    servers.sort();
    assert_eq!(servers, vec![s("http://c:3"), s("http://d:4")]);
    e.end_session(&Ok(()));
    assert_eq!(e.len(), 2);
    e.end_session(&Err(AppError::Anyhow(s("lost"))));
    assert_eq!(e.len(), 0);
}

#[test]
fn etcd_name_and_registration() {
    let e = Etcd::new();
    assert_eq!(e.id() & 0x3f_ffff, 0x2_1ffb);
    let name = e.get_name();
    assert!(name.starts_with(PREFIX));
    assert_eq!(parse_i64(&name[PREFIX.len()..]), Ok(e.id()));
    assert_eq!(name, format!("/server/{}", e.id()));
    let config = Config::from_sources(Ok(s("10.1.2.3")), Ok(s("9001")), Ok(s("k")), Ok(s("1")), Ok(s("web")), Ok(s("e"))).unwrap();
    let (key, value) = e.registration(&config);
    assert_eq!(key, name);
    assert_eq!(value, "http://10.1.2.3:9001");
    assert_eq!((LEASE_TTL_SECS, LEASE_KEEP_ALIVE_SECS, RETRY_DELAY_SECS), (18, 1, 3));
}

#[test]
fn client_ident_and_channel() {
    let (client, mut receiver) = Client::new("u7", "web");
    assert_eq!(client.ident(), "web:u7");
    client.sender.try_send(ClientMessage::Close(s("bye"))).unwrap();
    match receiver.try_recv().unwrap() {
        ClientMessage::Close(m) => assert_eq!(m, "bye"),
    }
    assert_eq!(CLIENT_CHANNEL_CAPACITY, 100);
    assert_eq!(client.sender.max_capacity(), 100);
    let copy = client.duplicate();
    assert_eq!(copy.ident(), "web:u7");
    assert_eq!(copy.sender.max_capacity(), 100);
}

#[test]
fn state_add_and_delete_clients() {
    let mut state = AppState::new();
    let (a, _ra) = Client::new("1", "web");
    let (b, _rb) = Client::new("1", "ios");
    state.add_client_sender(&a);
    state.add_client_sender(&b);
    state.add_client_sender(&a);
    assert_eq!(state.len(), 2);
    assert!(state.is_connected("web:1"));
    assert!(state.is_connected("ios:1"));
    state.del_client_sender(&a);
    assert!(!state.is_connected("web:1"));
    assert_eq!(state.len(), 1);
    assert!(state.send_message(&s("1"), &ClientMessage::Close(s("x"))).is_ok());
}
