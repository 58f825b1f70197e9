//! Listeners: what each one is bound to and how it routes a connection.

pub mod protocol;

use crate::config::laws::lemma_loaded_config_is_sound;
use crate::config::rules::{load_outcome, references_known, sni_targets};
use crate::config::{BaseConfigView, ParsedConfig, ServerConfigView, Upstream, UpstreamView};
use crate::names::{has_key, lookup, Entries, NameMap};
use crate::text::same_text;
use std::sync::Arc;
use vstd::prelude::*;

verus! {

/// An IP address and port to listen on, as plain numbers: the address in
/// network order, its first byte the most significant.
#[derive(Debug, Clone, Copy, PartialEq, Eq)]
#[allow(inconsistent_fields)]
pub enum ListenAddr {
    V4 { ip: u32, port: u16 },
    V6 { ip: u128, port: u16, flowinfo: u32, scope_id: u32 },
}

impl View for ListenAddr {
    type V = ListenAddr;

    open spec fn view(&self) -> ListenAddr {
        *self
    }
}

/// One listener: where it listens, how, and where its connections go.
#[derive(Debug)]
pub struct Proxy {
    pub name: String,
    pub listen: ListenAddr,
    pub protocol: String,
    pub tls: bool,
    pub sni: Option<NameMap<String>>,
    pub default: String,
    pub upstream: NameMap<Upstream>,
}

/// What a [`Proxy`] stands for.
pub struct ProxyView {
    pub name: Seq<char>,
    pub listen: ListenAddr,
    pub protocol: Seq<char>,
    pub tls: bool,
    pub sni: Option<Entries<Seq<char>>>,
    pub default: Seq<char>,
    pub upstream: Entries<UpstreamView>,
}

impl View for Proxy {
    type V = ProxyView;

    open spec fn view(&self) -> ProxyView {
        ProxyView {
            name: self.name@,
            listen: self.listen,
            protocol: self.protocol@,
            tls: self.tls,
            sni: crate::names::viewed(self.sni),
            default: self.default@,
            upstream: self.upstream@,
        }
    }
}

impl DeepView for Proxy {
    type V = ProxyView;

    open spec fn deep_view(&self) -> ProxyView {
        self@
    }
}

/// The listeners of a configuration, and the configuration itself.
#[derive(Debug)]
pub struct Server {
    pub proxies: Vec<Arc<Proxy>>,
    pub config: ParsedConfig,
}

/// The text that an absent option stands for.
pub open spec fn text_or(value: Option<Seq<char>>, fallback: Seq<char>) -> Seq<char> {
    match value {
        Some(text) => text,
        None => fallback,
    }
}

/// The listener that server `name` runs on the address `listen`: its
/// protocol is `tcp`, its TLS flag off and its default upstream `ban`
/// unless the server says otherwise.
pub open spec fn proxy_for(
    name: Seq<char>,
    server: ServerConfigView,
    listen: ListenAddr,
    upstream: Entries<UpstreamView>,
) -> ProxyView {
    ProxyView {
        name,
        listen,
        protocol: text_or(server.protocol, "tcp"@),
        tls: match server.tls {
            Some(tls) => tls,
            None => false,
        },
        sni: server.sni,
        default: text_or(server.default, "ban"@),
        upstream,
    }
}

/// The listeners of one server for the first `n` of its listen addresses:
/// one for each address that `addresses` resolves, in order.
pub open spec fn server_proxies(
    name: Seq<char>,
    server: ServerConfigView,
    n: int,
    addresses: Entries<ListenAddr>,
    upstream: Entries<UpstreamView>,
) -> Seq<ProxyView>
    decreases n,
{
    if n <= 0 {
        Seq::empty()
    } else {
        let earlier = server_proxies(name, server, n - 1, addresses, upstream);
        match lookup(addresses, server.listen[n - 1]) {
            Some(listen) => earlier.push(proxy_for(name, server, listen, upstream)),
            None => earlier,
        }
    }
}

/// The listeners of all `servers`, server by server.
pub open spec fn all_proxies(
    servers: Entries<ServerConfigView>,
    addresses: Entries<ListenAddr>,
    upstream: Entries<UpstreamView>,
) -> Seq<ProxyView>
    decreases servers.len(),
{
    if servers.len() == 0 {
        Seq::empty()
    } else {
        all_proxies(servers.drop_last(), addresses, upstream) + server_proxies(
            servers.last().0,
            servers.last().1,
            servers.last().1.listen.len() as int,
            addresses,
            upstream,
        )
    }
}

fn copy_names(map: &Option<NameMap<String>>) -> (copy: Option<NameMap<String>>)
    ensures
        crate::names::viewed(copy) == crate::names::viewed(*map),
{
    match map {
        Some(map) => {
            let copy = map.clone();
            Some(copy)
        },
        None => None,
    }
}

fn copy_upstreams(map: &NameMap<Upstream>) -> (copy: NameMap<Upstream>)
    ensures
        copy@ == map@,
{
    let copy = map.clone();
    copy
}

impl Clone for Proxy {
    fn clone(&self) -> (copy: Self)
        ensures
            copy@ == self@,
    {
        Proxy {
            name: self.name.clone(),
            listen: self.listen,
            protocol: self.protocol.clone(),
            tls: self.tls,
            sni: copy_names(&self.sni),
            default: self.default.clone(),
            upstream: copy_upstreams(&self.upstream),
        }
    }
}

fn text_or_else(value: &Option<String>, fallback: &str) -> (text: String)
    ensures
        text@ == text_or(value.deep_view(), fallback@),
{
    match value {
        Some(text) => text.clone(),
        None => fallback.to_owned(),
    }
}

impl Server {
    /// Lays out the listeners of `config`: one for every listen address
    /// of every server, in order. `addresses` gives for a listen address
    /// as written the IP address and port it denotes; an address that it
    /// does not hold is no socket address, and gets no listener.
    pub fn new(config: ParsedConfig, addresses: &NameMap<ListenAddr>) -> (server: Server)
        ensures
            server.config == config,
            server.proxies.deep_view() == all_proxies(
                config@.servers,
                addresses@,
                config@.upstream,
            ),
    {
        let mut proxies: Vec<Arc<Proxy>> = Vec::new();
        let ghost servers = config@.servers;
        let ghost upstream = config@.upstream;
        let count = config.servers.len();
        let mut s: usize = 0;
        while s < count
            invariant
                s <= count,
                count == servers.len(),
                servers == config@.servers,
                upstream == config@.upstream,
                proxies.deep_view() == all_proxies(servers.take(s as int), addresses@, upstream),
            decreases count - s,
        {
            let name = config.servers.key(s);
            let server = config.servers.value(s);
            let ghost done = proxies.deep_view();
            let ghost sv = server@;
            proof {
                assert(servers.take(s + 1).drop_last() =~= servers.take(s as int));
            }
            let mut l: usize = 0;
            while l < server.listen.len()
                invariant
                    l <= server.listen.len(),
                    sv == server@,
                    upstream == config@.upstream,
                    proxies.deep_view() == done + server_proxies(
                        name@,
                        sv,
                        l as int,
                        addresses@,
                        upstream,
                    ),
                decreases server.listen.len() - l,
            {
                let ghost earlier = proxies.deep_view();
                match addresses.get(server.listen[l].as_str()) {
                    Some(listen) => {
                        let proxy = Proxy {
                            name: name.clone(),
                            listen: *listen,
                            protocol: text_or_else(&server.protocol, "tcp"),
                            tls: match server.tls {
                                Some(tls) => tls,
                                None => false,
                            },
                            sni: copy_names(&server.sni),
                            default: text_or_else(&server.default, "ban"),
                            upstream: copy_upstreams(&config.upstream),
                        };
                        proxies.push(Arc::new(proxy));
                        assert(proxies.deep_view() =~= earlier.push(
                            proxy_for(name@, sv, *listen, upstream),
                        ));
                    },
                    None => {},
                }
                l += 1;
            }
            s += 1;
        }
        assert(servers.take(s as int) =~= servers);
        Server { proxies, config }
    }
}

/// Every listener of a server is that server's listener on some address.
proof fn lemma_server_proxy_origin(
    name: Seq<char>,
    server: ServerConfigView,
    n: int,
    addresses: Entries<ListenAddr>,
    upstream: Entries<UpstreamView>,
    i: int,
)
    requires
        0 <= i < server_proxies(name, server, n, addresses, upstream).len(),
    ensures
        exists|listen: ListenAddr|
            server_proxies(name, server, n, addresses, upstream)[i] == #[trigger] proxy_for(
                name,
                server,
                listen,
                upstream,
            ),
    decreases n,
{
    if n > 0 {
        let earlier = server_proxies(name, server, n - 1, addresses, upstream);
        if i < earlier.len() {
            lemma_server_proxy_origin(name, server, n - 1, addresses, upstream, i);
        }
    }
}

/// Every listener is the listener of one of the servers, on some address.
pub proof fn lemma_proxy_origin(
    servers: Entries<ServerConfigView>,
    addresses: Entries<ListenAddr>,
    upstream: Entries<UpstreamView>,
    i: int,
)
    requires
        0 <= i < all_proxies(servers, addresses, upstream).len(),
    ensures
        exists|s: int, listen: ListenAddr|
            0 <= s < servers.len() && all_proxies(servers, addresses, upstream)[i]
                == #[trigger] proxy_for(servers[s].0, servers[s].1, listen, upstream),
    decreases servers.len(),
{
    if servers.len() > 0 {
        let front = servers.drop_last();
        let earlier = all_proxies(front, addresses, upstream);
        let last = servers.last();
        if i < earlier.len() {
            lemma_proxy_origin(front, addresses, upstream, i);
            let (s, listen) = choose|s: int, listen: ListenAddr|
                0 <= s < front.len() && earlier[i] == #[trigger] proxy_for(
                    front[s].0,
                    front[s].1,
                    listen,
                    upstream,
                );
            assert(front[s] == servers[s]);
            assert(all_proxies(servers, addresses, upstream)[i] == proxy_for(
                servers[s].0,
                servers[s].1,
                listen,
                upstream,
            ));
        } else {
            let n = last.1.listen.len() as int;
            lemma_server_proxy_origin(last.0, last.1, n, addresses, upstream, i - earlier.len());
            let listen = choose|listen: ListenAddr|
                server_proxies(last.0, last.1, n, addresses, upstream)[i - earlier.len()]
                    == #[trigger] proxy_for(last.0, last.1, listen, upstream);
            let s = servers.len() - 1;
            assert(all_proxies(servers, addresses, upstream)[i] == proxy_for(
                servers[s].0,
                servers[s].1,
                listen,
                upstream,
            ));
        }
    }
}

/// Every upstream that `proxy` can select exists in its table: its
/// default, and every target of its SNI map.
pub open spec fn selections_known(proxy: ProxyView) -> bool {
    &&& has_key(proxy.upstream, proxy.default)
    &&& proxy.sni matches Some(map) ==> forall|k: int|
        0 <= k < map.len() ==> has_key(proxy.upstream, (#[trigger] map[k]).1)
}

/// The listeners of a loaded configuration never select an upstream that
/// their table lacks: whatever name routing chooses resolves to the
/// upstream of that name, without falling back.
pub proof fn lemma_loaded_listeners_resolve(
    base: BaseConfigView,
    addresses: Entries<ListenAddr>,
    i: int,
)
    requires
        load_outcome(base) is Ok,
        0 <= i < all_proxies(
            load_outcome(base)->Ok_0.servers,
            addresses,
            load_outcome(base)->Ok_0.upstream,
        ).len(),
    ensures
        selections_known(
            all_proxies(
                load_outcome(base)->Ok_0.servers,
                addresses,
                load_outcome(base)->Ok_0.upstream,
            )[i],
        ),
{
    let loaded = load_outcome(base)->Ok_0;
    let proxies = all_proxies(loaded.servers, addresses, loaded.upstream);
    lemma_loaded_config_is_sound(base);
    lemma_proxy_origin(loaded.servers, addresses, loaded.upstream, i);
    let (s, listen) = choose|s: int, listen: ListenAddr|
        0 <= s < loaded.servers.len() && proxies[i] == #[trigger] proxy_for(
            loaded.servers[s].0,
            loaded.servers[s].1,
            listen,
            loaded.upstream,
        );
    let server = loaded.servers[s].1;
    assert(references_known(server, loaded.upstream));
    assert(has_key(loaded.upstream, "ban"@));
    match server.sni {
        Some(map) => {
            assert forall|k: int| 0 <= k < map.len() implies has_key(
                loaded.upstream,
                (#[trigger] map[k]).1,
            ) by {
                assert(sni_targets(server)[k] == map[k].1);
            }
        },
        None => {},
    }
}

/// How a listener takes its connections in.
#[derive(Debug, Clone, Copy, PartialEq, Eq)]
pub enum Transport {
    Tcp,
    Kcp,
}

/// The transport that a protocol name stands for, if any.
pub open spec fn transport_of(protocol: Seq<char>) -> Option<Transport> {
    if protocol == "tcp"@ {
        Some(Transport::Tcp)
    } else if protocol == "kcp"@ {
        Some(Transport::Kcp)
    } else {
        None
    }
}

impl Proxy {
    /// The transport to start this listener on; `None` for a protocol
    /// that is neither `tcp` nor `kcp`, on which nothing is started.
    pub fn transport(&self) -> (transport: Option<Transport>)
        ensures
            transport == transport_of(self@.protocol),
    {
        if same_text(self.protocol.as_str(), "tcp") {
            Some(Transport::Tcp)
        } else if same_text(self.protocol.as_str(), "kcp") {
            Some(Transport::Kcp)
        } else {
            None
        }
    }
}

/// How the task of one listener came to its end.
#[derive(Debug, Clone, Copy, PartialEq, Eq, Structural)]
pub enum ListenerEnd {
    /// It ended without an error: nothing was started for its protocol.
    Stopped,
    /// It could not bind, its accept loop failed, or the task died.
    Failed,
}

/// What the supervisor does when the task of a listener has ended.
#[derive(Debug, Clone, Copy, PartialEq, Eq, Structural)]
pub enum RunStep {
    /// Go on waiting for the other listeners.
    Wait,
    /// Every listener has ended without an error: the run ends well.
    Done,
    /// A listener has failed: stop the others, and end the run with an
    /// error.
    Fail,
}

/// The state of a run: how many listeners have yet to end, and whether
/// one of them has failed.
#[derive(Debug, Clone, Copy, PartialEq, Eq, Structural)]
pub struct Supervisor {
    /// The listeners whose tasks have not ended.
    pub running: usize,
    /// A listener has failed.
    pub failed: bool,
}

impl Supervisor {
    /// What the run has come to: an error once a listener has failed,
    /// a good end once all have ended without one.
    pub open spec fn verdict(self) -> RunStep {
        if self.failed {
            RunStep::Fail
        } else if self.running == 0 {
            RunStep::Done
        } else {
            RunStep::Wait
        }
    }

    /// The state once a listener has ended with `end`. A failure ends
    /// the run: nothing is left running. An end without error leaves
    /// one listener less. A run that is over stays as it is.
    pub open spec fn after(self, end: ListenerEnd) -> Supervisor {
        if self.failed || self.running == 0 {
            self
        } else {
            match end {
                ListenerEnd::Failed => Supervisor { running: 0, failed: true },
                ListenerEnd::Stopped => Supervisor {
                    running: (self.running - 1) as usize,
                    failed: false,
                },
            }
        }
    }

    /// The state once listeners have ended with `ends`, in that order.
    pub open spec fn after_all(self, ends: Seq<ListenerEnd>) -> Supervisor
        decreases ends.len(),
    {
        if ends.len() == 0 {
            self
        } else {
            self.after(ends[0]).after_all(ends.drop_first())
        }
    }

    /// The start of a run of `count` listeners.
    pub fn new(count: usize) -> (state: Supervisor)
        ensures
            state == (Supervisor { running: count, failed: false }),
    {
        Supervisor { running: count, failed: false }
    }

    /// What the run has come to so far.
    pub fn step(&self) -> (step: RunStep)
        ensures
            step == self.verdict(),
    {
        if self.failed {
            RunStep::Fail
        } else if self.running == 0 {
            RunStep::Done
        } else {
            RunStep::Wait
        }
    }

    /// Notes that the task of a listener has ended, and says what to do.
    pub fn listener_ended(&mut self, end: ListenerEnd) -> (step: RunStep)
        ensures
            *final(self) == old(self).after(end),
            step == old(self).after(end).verdict(),
    {
        if !self.failed && self.running > 0 {
            match end {
                ListenerEnd::Failed => {
                    self.running = 0;
                    self.failed = true;
                },
                ListenerEnd::Stopped => {
                    self.running = self.running - 1;
                },
            }
        }
        self.step()
    }
}

/// A run in which a listener fails ends with an error, whatever the
/// listeners before it and after it do.
pub proof fn lemma_failure_fails_run(count: usize, ends: Seq<ListenerEnd>, i: int)
    requires
        0 <= i < ends.len(),
        i < count,
        ends[i] == ListenerEnd::Failed,
    ensures
        (Supervisor { running: count, failed: false }).after_all(ends).verdict() == RunStep::Fail,
    decreases ends.len(),
{
    let start = Supervisor { running: count, failed: false };
    let next = start.after(ends[0]);
    if next.failed {
        lemma_failed_stays_failed(next, ends.drop_first());
    } else {
        lemma_failure_fails_run(next.running, ends.drop_first(), i - 1);
    }
}

/// A run that has failed stays failed.
proof fn lemma_failed_stays_failed(state: Supervisor, ends: Seq<ListenerEnd>)
    requires
        state.failed,
    ensures
        state.after_all(ends) == state,
    decreases ends.len(),
{
    if ends.len() > 0 {
        lemma_failed_stays_failed(state, ends.drop_first());
    }
}

/// A run whose listeners all end without an error waits until the last
/// of them has ended, and then ends well.
pub proof fn lemma_clean_run(count: usize, ends: Seq<ListenerEnd>)
    requires
        forall|i: int| 0 <= i < ends.len() ==> ends[i] == ListenerEnd::Stopped,
    ensures
        (Supervisor { running: count, failed: false }).after_all(ends).verdict() == (if ends.len()
            >= count {
            RunStep::Done
        } else {
            RunStep::Wait
        }),
    decreases ends.len(),
{
    if ends.len() > 0 && count > 0 {
        let rest = ends.drop_first();
        assert forall|i: int| 0 <= i < rest.len() implies rest[i] == ListenerEnd::Stopped by {
            assert(rest[i] == ends[i + 1]);
        }
        lemma_clean_run((count - 1) as usize, rest);
    } else if ends.len() > 0 {
        lemma_done_stays_done(Supervisor { running: 0, failed: false }, ends.drop_first());
    }
}

/// A run that has ended well stays so.
proof fn lemma_done_stays_done(state: Supervisor, ends: Seq<ListenerEnd>)
    requires
        state.running == 0,
        !state.failed,
    ensures
        state.after_all(ends) == state,
    decreases ends.len(),
{
    if ends.len() > 0 {
        lemma_done_stays_done(state, ends.drop_first());
    }
}

} // verus!
