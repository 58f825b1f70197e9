use fourth::config::{BaseConfig, Config, CustomUpstream, ServerConfig, Upstream};
use fourth::names::NameMap;
use fourth::servers::protocol::{
    relay_plan, CopyEnd, RelayPlan, RelayState, RelayStep, Side, PEEK_LEN,
};
use fourth::servers::{
    ListenAddr, ListenerEnd, Proxy, RunStep, Server, Supervisor, Transport,
};
use std::sync::Arc;

fn v4(a: u8, b: u8, c: u8, d: u8, port: u16) -> ListenAddr {
    ListenAddr::V4 { ip: u32::from_be_bytes([a, b, c, d]), port }
}

fn names(pairs: &[(&str, &str)]) -> NameMap<String> {
    let mut map = NameMap::new();
    for (key, value) in pairs {
        map.insert(key.to_string(), value.to_string());
    }
    map
}

fn custom(name: &str, addr: &str, protocol: &str) -> Upstream {
    Upstream::Custom(CustomUpstream {
        name: name.to_string(),
        addr: addr.to_string(),
        protocol: protocol.to_string(),
    })
}

fn table() -> NameMap<Upstream> {
    let mut map = NameMap::new();
    map.insert("U1".to_string(), custom("U1", "10.0.0.1:1", "tcp"));
    map.insert("U2".to_string(), custom("U2", "10.0.0.2:2", "tcp"));
    map.insert("U".to_string(), custom("U", "10.0.0.3:3", "tcp"));
    map.insert("ban".to_string(), Upstream::Ban);
    map.insert("echo".to_string(), Upstream::Echo);
    map
}

fn proxy(tls: bool, sni: Option<&[(&str, &str)]>, default: &str) -> Proxy {
    Proxy {
        name: "test".to_string(),
        listen: v4(127, 0, 0, 1, 4000),
        protocol: "tcp".to_string(),
        tls,
        sni: sni.map(names),
        default: default.to_string(),
        upstream: table(),
    }
}

fn announced(list: &[&str]) -> Vec<String> {
    list.iter().map(|s| s.to_string()).collect()
}

fn extension_block(list: &[&str]) -> Vec<u8> {
    let mut entries = Vec::new();
    for name in list {
        entries.push(0u8);
        entries.extend_from_slice(&(name.len() as u16).to_be_bytes());
        entries.extend_from_slice(name.as_bytes());
    }
    let mut block = vec![0u8, 0u8];
    block.extend_from_slice(&((entries.len() + 2) as u16).to_be_bytes());
    block.extend_from_slice(&(entries.len() as u16).to_be_bytes());
    block.extend_from_slice(&entries);
    block
}

fn client_hello(list: &[&str]) -> Vec<u8> {
    let extensions = extension_block(list);
    let mut hello = vec![0x03, 0x03];
    hello.extend_from_slice(&[0u8; 32]);
    hello.push(0);
    hello.extend_from_slice(&[0x00, 0x02, 0x13, 0x01]);
    hello.extend_from_slice(&[0x01, 0x00]);
    hello.extend_from_slice(&(extensions.len() as u16).to_be_bytes());
    hello.extend_from_slice(&extensions);
    let mut message = vec![0x01, 0x00];
    message.extend_from_slice(&(hello.len() as u16).to_be_bytes());
    message.extend_from_slice(&hello);
    let mut record = vec![0x16, 0x03, 0x01];
    record.extend_from_slice(&(message.len() as u16).to_be_bytes());
    record.extend_from_slice(&message);
    record
}

#[test]
fn first_announced_name_in_the_map_decides() {
    let map: &[(&str, &str)] = &[("a", "U1"), ("b", "U2")];
    let listener = proxy(true, Some(map), "ban");
    assert_eq!(listener.select(&announced(&["a", "b"])), "U1");
    assert_eq!(listener.select(&announced(&["b", "a"])), "U2");
    assert_eq!(listener.select(&announced(&["x", "b", "a"])), "U2");
    assert_eq!(listener.select(&announced(&["x", "y"])), "ban");
}

#[test]
fn routing_follows_the_order_in_the_client_hello() {
    let map: &[(&str, &str)] = &[("a", "U1"), ("b", "U2")];
    let listener = proxy(true, Some(map), "ban");
    assert_eq!(listener.route(&client_hello(&["a", "b"])), "U1");
    assert_eq!(listener.route(&client_hello(&["b", "a"])), "U2");
}

#[test]
fn empty_or_unparseable_handshake_routes_to_default() {
    let map: &[(&str, &str)] = &[("a", "U1"), ("b", "U2")];
    let listener = proxy(true, Some(map), "echo");
    assert_eq!(listener.select(&Vec::new()), "echo");
    assert_eq!(listener.route(&[]), "echo");
    assert_eq!(listener.route(&[0u8; 1024]), "echo");
    assert_eq!(listener.route(b"hello there"), "echo");
    assert_eq!(listener.route(&client_hello(&[])), "echo");
}

#[test]
fn tls_listener_without_map_routes_to_default() {
    let listener = proxy(true, None, "U");
    assert_eq!(listener.route(&client_hello(&["a"])), "U");
    assert_eq!(listener.select(&announced(&["a"])), "U");
}

#[test]
fn plain_listener_always_routes_to_default() {
    let map: &[(&str, &str)] = &[("a", "U1"), ("b", "U2")];
    let listener = proxy(false, Some(map), "echo");
    assert!(!listener.needs_peek());
    assert_eq!(listener.route(&client_hello(&["a", "b"])), "echo");
    assert_eq!(listener.route(&[]), "echo");
    assert_eq!(listener.select(&announced(&["a"])), "echo");
    assert!(proxy(true, None, "ban").needs_peek());
}

#[test]
fn crafted_client_hello_is_routed_by_its_server_name() {
    let map: &[(&str, &str)] = &[("www.lirui.tech", "U")];
    let listener = proxy(true, Some(map), "ban");
    let mut peeked = client_hello(&["www.lirui.tech"]);
    peeked.resize(PEEK_LEN, 0);
    let name = listener.route(&peeked);
    assert_eq!(name, "U");
    match listener.resolve(&name) {
        Upstream::Custom(custom) => assert_eq!(custom.addr, "10.0.0.3:3"),
        other => panic!("unexpected upstream {:?}", other),
    }
}

#[test]
fn resolve_falls_back_to_default_then_to_ban() {
    let listener = proxy(false, None, "echo");
    assert!(matches!(listener.resolve("ban"), Upstream::Ban));
    assert!(matches!(listener.resolve("missing"), Upstream::Echo));
    let lost = proxy(false, None, "alsomissing");
    assert!(matches!(lost.resolve("missing"), Upstream::Ban));
    assert!(matches!(lost.resolve("echo"), Upstream::Echo));
}

#[test]
fn ban_is_shut_echo_echoed_and_tcp_forwarded() {
    assert!(matches!(relay_plan(&Upstream::Ban), RelayPlan::Shutdown));
    assert!(matches!(relay_plan(&Upstream::Echo), RelayPlan::Echo));
    match relay_plan(&custom("web", "127.0.0.1:8080", "tcp")) {
        RelayPlan::Forward(addr) => assert_eq!(addr, "127.0.0.1:8080"),
        other => panic!("unexpected plan {:?}", other),
    }
    assert!(matches!(relay_plan(&custom("web", "127.0.0.1:8080", "udp")), RelayPlan::Unsupported));
}

#[test]
fn protocol_names_stand_for_transports() {
    let mut listener = proxy(false, None, "ban");
    assert_eq!(listener.transport(), Some(Transport::Tcp));
    listener.protocol = "kcp".to_string();
    assert_eq!(listener.transport(), Some(Transport::Kcp));
    listener.protocol = "udp".to_string();
    assert_eq!(listener.transport(), None);
    listener.protocol = "TCP".to_string();
    assert_eq!(listener.transport(), None);
}

fn server(listen: &[&str], protocol: Option<&str>, tls: Option<bool>, default: Option<&str>) -> ServerConfig {
    ServerConfig {
        listen: listen.iter().map(|s| s.to_string()).collect(),
        protocol: protocol.map(|s| s.to_string()),
        tls,
        sni: None,
        default: default.map(|s| s.to_string()),
    }
}

fn loaded() -> Config {
    let mut servers = NameMap::new();
    servers.insert(
        "first".to_string(),
        server(&["127.0.0.1:1000", "not an address", "127.0.0.1:1001"], None, None, None),
    );
    let mut with_sni = server(&["[::1]:2000"], Some("kcp"), Some(true), Some("web"));
    with_sni.sni = Some(names(&[("a.example.org", "web")]));
    servers.insert("second".to_string(), with_sni);
    servers.insert("third".to_string(), server(&[], None, None, None));
    Config::new(BaseConfig {
        version: 1,
        log: None,
        servers,
        upstream: names(&[("web", "tcp://127.0.0.1:8080")]),
    })
    .unwrap()
}

fn addresses() -> NameMap<ListenAddr> {
    let mut map = NameMap::new();
    map.insert("127.0.0.1:1000".to_string(), v4(127, 0, 0, 1, 1000));
    map.insert("127.0.0.1:1001".to_string(), v4(127, 0, 0, 1, 1001));
    map.insert(
        "[::1]:2000".to_string(),
        ListenAddr::V6 { ip: 1, port: 2000, flowinfo: 0, scope_id: 0 },
    );
    map
}

#[test]
fn one_listener_for_every_address_that_resolves() {
    let server = Server::new(loaded().base, &addresses());
    let proxies: &Vec<Arc<Proxy>> = &server.proxies;
    assert_eq!(proxies.len(), 3);
    assert_eq!(proxies[0].name, "first");
    assert_eq!(proxies[0].listen, v4(127, 0, 0, 1, 1000));
    assert_eq!(proxies[0].protocol, "tcp");
    assert!(!proxies[0].tls);
    assert!(proxies[0].sni.is_none());
    assert_eq!(proxies[0].default, "ban");
    assert_eq!(proxies[0].upstream.len(), 3);
    assert_eq!(proxies[1].name, "first");
    assert_eq!(proxies[1].listen, v4(127, 0, 0, 1, 1001));
    assert_eq!(proxies[2].name, "second");
    assert_eq!(proxies[2].listen, ListenAddr::V6 { ip: 1, port: 2000, flowinfo: 0, scope_id: 0 });
    assert_eq!(proxies[2].protocol, "kcp");
    assert!(proxies[2].tls);
    assert_eq!(proxies[2].default, "web");
    let sni = proxies[2].sni.as_ref().unwrap();
    assert_eq!(sni.get("a.example.org"), Some(&"web".to_string()));
    assert!(matches!(proxies[2].upstream.get("web"), Some(Upstream::Custom(_))));
    assert_eq!(server.config.servers.len(), 3);
}

#[test]
fn no_listener_without_addresses() {
    let server = Server::new(loaded().base, &NameMap::new());
    assert!(server.proxies.is_empty());
    assert_eq!(server.config.upstream.len(), 3);
}

#[test]
fn clean_end_of_one_direction_half_closes_the_other_side() {
    let mut relay = RelayState::forward();
    assert!(!relay.is_over());
    assert_eq!(relay.copy_ended(Side::Inbound, CopyEnd::Eof), RelayStep::HalfClose(Side::Outbound));
    assert!(!relay.is_over());
    assert!(relay.from_outbound);
    assert_eq!(relay.copy_ended(Side::Inbound, CopyEnd::Eof), RelayStep::Nothing);
    assert_eq!(relay.copy_ended(Side::Outbound, CopyEnd::Eof), RelayStep::Finish(Side::Inbound));
    assert!(relay.is_over());

    let mut relay = RelayState::forward();
    assert_eq!(relay.copy_ended(Side::Outbound, CopyEnd::Eof), RelayStep::HalfClose(Side::Inbound));
    assert_eq!(relay.copy_ended(Side::Inbound, CopyEnd::Eof), RelayStep::Finish(Side::Outbound));
    assert!(relay.is_over());
}

#[test]
fn failure_in_one_direction_ends_the_relay() {
    let mut relay = RelayState::forward();
    assert_eq!(relay.copy_ended(Side::Outbound, CopyEnd::Failed), RelayStep::Abort);
    assert!(relay.is_over());
    assert_eq!(relay.copy_ended(Side::Inbound, CopyEnd::Eof), RelayStep::Nothing);

    let mut relay = RelayState::forward();
    assert_eq!(relay.copy_ended(Side::Inbound, CopyEnd::Eof), RelayStep::HalfClose(Side::Outbound));
    assert_eq!(relay.copy_ended(Side::Outbound, CopyEnd::Failed), RelayStep::Abort);
    assert!(relay.is_over());
}

#[test]
fn echo_relay_ends_with_the_client() {
    let mut relay = RelayState::echo();
    assert_eq!(relay.copy_ended(Side::Outbound, CopyEnd::Eof), RelayStep::Nothing);
    assert_eq!(relay.copy_ended(Side::Inbound, CopyEnd::Eof), RelayStep::Finish(Side::Inbound));
    assert!(relay.is_over());
    let mut relay = RelayState::echo();
    assert_eq!(relay.copy_ended(Side::Inbound, CopyEnd::Failed), RelayStep::Abort);
    assert!(relay.is_over());
}

#[test]
fn cloned_listener_routes_alike() {
    let map: &[(&str, &str)] = &[("a", "U1")];
    let listener = proxy(true, Some(map), "echo");
    let copy = listener.clone();
    assert_eq!(copy.name, "test");
    assert_eq!(copy.listen, v4(127, 0, 0, 1, 4000));
    assert_eq!(copy.select(&announced(&["a"])), "U1");
    assert_eq!(copy.select(&announced(&["z"])), "echo");
    assert_eq!(copy.upstream.len(), 5);
}

#[test]
fn run_ends_well_once_every_listener_has_stopped() {
    let mut run = Supervisor::new(3);
    assert_eq!(run.step(), RunStep::Wait);
    assert_eq!(run.listener_ended(ListenerEnd::Stopped), RunStep::Wait);
    assert_eq!(run.listener_ended(ListenerEnd::Stopped), RunStep::Wait);
    assert_eq!(run.listener_ended(ListenerEnd::Stopped), RunStep::Done);
    assert_eq!(run.listener_ended(ListenerEnd::Failed), RunStep::Done);
    assert_eq!(run, Supervisor { running: 0, failed: false });
    assert_eq!(Supervisor::new(0).step(), RunStep::Done);
}

#[test]
fn run_fails_as_soon_as_a_listener_fails() {
    let mut run = Supervisor::new(3);
    assert_eq!(run.listener_ended(ListenerEnd::Stopped), RunStep::Wait);
    assert_eq!(run.listener_ended(ListenerEnd::Failed), RunStep::Fail);
    assert_eq!(run, Supervisor { running: 0, failed: true });
    assert_eq!(run.listener_ended(ListenerEnd::Stopped), RunStep::Fail);
    assert_eq!(run.step(), RunStep::Fail);

    let mut first = Supervisor::new(1);
    assert_eq!(first.listener_ended(ListenerEnd::Failed), RunStep::Fail);
}
