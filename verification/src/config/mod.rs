//! The proxy's configuration: the shape a configuration file is read into,
//! the rules that turn it into a checked configuration, and the reasons a
//! configuration is refused.

pub mod laws;
pub mod rules;

use crate::config::rules::{
    custom_upstreams, listens, load_outcome, log_level_of, referenced, refers_to, repeated_listen,
    server_violation, sni_targets, unknown_name, unsupported_version, unused_among, upstream_from,
    violation, violation_among,
};
use crate::names::{viewed, Entries, NameMap};
use crate::text::{affix, decimal_text, join, same_text};
use vstd::prelude::*;

verus! {

/// An upstream given by the user: where to connect, and over what.
#[derive(Debug)]
pub struct CustomUpstream {
    pub name: String,
    pub addr: String,
    pub protocol: String,
}

/// What a [`CustomUpstream`] stands for.
pub struct CustomUpstreamView {
    pub name: Seq<char>,
    pub addr: Seq<char>,
    pub protocol: Seq<char>,
}

impl View for CustomUpstream {
    type V = CustomUpstreamView;

    open spec fn view(&self) -> CustomUpstreamView {
        CustomUpstreamView { name: self.name@, addr: self.addr@, protocol: self.protocol@ }
    }
}

impl Clone for CustomUpstream {
    fn clone(&self) -> (copy: Self)
        ensures
            copy@ == self@,
    {
        CustomUpstream {
            name: self.name.clone(),
            addr: self.addr.clone(),
            protocol: self.protocol.clone(),
        }
    }
}

/// Where a connection is sent: dropped, looped back, or forwarded.
#[derive(Debug)]
pub enum Upstream {
    Ban,
    Echo,
    Custom(CustomUpstream),
}

/// What an [`Upstream`] stands for.
pub enum UpstreamView {
    Ban,
    Echo,
    Custom(CustomUpstreamView),
}

impl View for Upstream {
    type V = UpstreamView;

    open spec fn view(&self) -> UpstreamView {
        match self {
            Upstream::Ban => UpstreamView::Ban,
            Upstream::Echo => UpstreamView::Echo,
            Upstream::Custom(custom) => UpstreamView::Custom(custom@),
        }
    }
}

impl Clone for Upstream {
    fn clone(&self) -> (copy: Self)
        ensures
            copy@ == self@,
    {
        match self {
            Upstream::Ban => Upstream::Ban,
            Upstream::Echo => Upstream::Echo,
            Upstream::Custom(custom) => Upstream::Custom(custom.clone()),
        }
    }
}

/// One `servers` entry as written by the user.
#[derive(Debug)]
pub struct ServerConfig {
    pub listen: Vec<String>,
    pub protocol: Option<String>,
    pub tls: Option<bool>,
    pub sni: Option<NameMap<String>>,
    pub default: Option<String>,
}

/// What a [`ServerConfig`] stands for.
pub struct ServerConfigView {
    pub listen: Seq<Seq<char>>,
    pub protocol: Option<Seq<char>>,
    pub tls: Option<bool>,
    pub sni: Option<Entries<Seq<char>>>,
    pub default: Option<Seq<char>>,
}

impl View for ServerConfig {
    type V = ServerConfigView;

    open spec fn view(&self) -> ServerConfigView {
        ServerConfigView {
            listen: self.listen.deep_view(),
            protocol: self.protocol.deep_view(),
            tls: self.tls,
            sni: viewed(self.sni),
            default: self.default.deep_view(),
        }
    }
}

fn clone_texts(texts: &Vec<String>) -> (copy: Vec<String>)
    ensures
        copy.deep_view() == texts.deep_view(),
{
    let copy = texts.clone();
    copy
}

fn clone_text(text: &Option<String>) -> (copy: Option<String>)
    ensures
        copy.deep_view() == text.deep_view(),
{
    match text {
        Some(text) => Some(text.clone()),
        None => None,
    }
}

fn clone_names(map: &Option<NameMap<String>>) -> (copy: Option<NameMap<String>>)
    ensures
        viewed(copy) == viewed(*map),
{
    match map {
        Some(map) => {
            let copy = map.clone();
            Some(copy)
        },
        None => None,
    }
}

fn clone_servers(map: &NameMap<ServerConfig>) -> (copy: NameMap<ServerConfig>)
    ensures
        copy@ == map@,
{
    let copy = map.clone();
    copy
}

fn clone_upstreams(map: &NameMap<Upstream>) -> (copy: NameMap<Upstream>)
    ensures
        copy@ == map@,
{
    let copy = map.clone();
    copy
}

impl Clone for ServerConfig {
    fn clone(&self) -> (copy: Self)
        ensures
            copy@ == self@,
    {
        ServerConfig {
            listen: clone_texts(&self.listen),
            protocol: clone_text(&self.protocol),
            tls: self.tls,
            sni: clone_names(&self.sni),
            default: clone_text(&self.default),
        }
    }
}

impl Default for ServerConfig {
    /// A server without listen addresses that leaves everything else to
    /// the defaults.
    fn default() -> (server: Self)
        ensures
            server@ == (ServerConfigView {
                listen: Seq::empty(),
                protocol: None,
                tls: None,
                sni: None,
                default: None,
            }),
    {
        let server = ServerConfig {
            listen: Vec::new(),
            protocol: None,
            tls: None,
            sni: None,
            default: None,
        };
        assert(server.listen.deep_view() =~= Seq::empty());
        server
    }
}

/// A configuration as read, before its upstream URLs are looked at.
#[derive(Debug)]
pub struct BaseConfig {
    pub version: i32,
    pub log: Option<String>,
    pub servers: NameMap<ServerConfig>,
    pub upstream: NameMap<String>,
}

/// What a [`BaseConfig`] stands for.
pub struct BaseConfigView {
    pub version: i32,
    pub log: Option<Seq<char>>,
    pub servers: Entries<ServerConfigView>,
    pub upstream: Entries<Seq<char>>,
}

impl View for BaseConfig {
    type V = BaseConfigView;

    open spec fn view(&self) -> BaseConfigView {
        BaseConfigView {
            version: self.version,
            log: self.log.deep_view(),
            servers: self.servers@,
            upstream: self.upstream@,
        }
    }
}

impl Clone for BaseConfig {
    fn clone(&self) -> (copy: Self)
        ensures
            copy@ == self@,
    {
        let upstream = self.upstream.clone();
        assert(upstream@ =~= self.upstream@);
        BaseConfig {
            version: self.version,
            log: clone_text(&self.log),
            servers: clone_servers(&self.servers),
            upstream,
        }
    }
}

impl Default for BaseConfig {
    /// An empty configuration of version `0`.
    fn default() -> (base: Self)
        ensures
            base@ == (BaseConfigView {
                version: 0,
                log: None,
                servers: Seq::empty(),
                upstream: Seq::empty(),
            }),
    {
        BaseConfig { version: 0, log: None, servers: NameMap::new(), upstream: NameMap::new() }
    }
}

/// A configuration whose upstreams have been parsed.
#[derive(Debug)]
pub struct ParsedConfig {
    pub version: i32,
    pub log: Option<String>,
    pub servers: NameMap<ServerConfig>,
    pub upstream: NameMap<Upstream>,
}

/// What a [`ParsedConfig`] stands for.
pub struct ParsedConfigView {
    pub version: i32,
    pub log: Option<Seq<char>>,
    pub servers: Entries<ServerConfigView>,
    pub upstream: Entries<UpstreamView>,
}

impl View for ParsedConfig {
    type V = ParsedConfigView;

    open spec fn view(&self) -> ParsedConfigView {
        ParsedConfigView {
            version: self.version,
            log: self.log.deep_view(),
            servers: self.servers@,
            upstream: self.upstream@,
        }
    }
}

impl Clone for ParsedConfig {
    fn clone(&self) -> (copy: Self)
        ensures
            copy@ == self@,
    {
        ParsedConfig {
            version: self.version,
            log: clone_text(&self.log),
            servers: clone_servers(&self.servers),
            upstream: clone_upstreams(&self.upstream),
        }
    }
}

impl Default for ParsedConfig {
    /// An empty configuration of version `0`.
    fn default() -> (parsed: Self)
        ensures
            parsed@ == (ParsedConfigView {
                version: 0,
                log: None,
                servers: Seq::empty(),
                upstream: Seq::empty(),
            }),
    {
        ParsedConfig { version: 0, log: None, servers: NameMap::new(), upstream: NameMap::new() }
    }
}

/// A configuration that passed every check.
#[derive(Debug)]
pub struct Config {
    pub base: ParsedConfig,
}

impl View for Config {
    type V = ParsedConfigView;

    open spec fn view(&self) -> ParsedConfigView {
        self.base@
    }
}

impl Clone for Config {
    fn clone(&self) -> (copy: Self)
        ensures
            copy@ == self@,
    {
        Config { base: self.base.clone() }
    }
}

/// Why a configuration could not be loaded.
#[derive(Debug)]
pub enum ConfigError {
    IO(std::io::Error),
    Yaml(serde_yaml::Error),
    Custom(String),
}

/// `std::io::Error`, carried through as an opaque value.
#[verifier::external_type_specification]
#[verifier::external_body]
pub struct ExIoError(std::io::Error);

/// `serde_yaml::Error`, carried through as an opaque value.
#[verifier::external_type_specification]
#[verifier::external_body]
pub struct ExYamlError(serde_yaml::Error);

impl From<std::io::Error> for ConfigError {
    fn from(err: std::io::Error) -> (error: ConfigError) {
        ConfigError::IO(err)
    }
}

impl vstd::std_specs::convert::FromSpecImpl<std::io::Error> for ConfigError {
    open spec fn obeys_from_spec() -> bool {
        true
    }

    open spec fn from_spec(err: std::io::Error) -> ConfigError {
        ConfigError::IO(err)
    }
}

impl From<serde_yaml::Error> for ConfigError {
    fn from(err: serde_yaml::Error) -> (error: ConfigError) {
        ConfigError::Yaml(err)
    }
}

impl vstd::std_specs::convert::FromSpecImpl<serde_yaml::Error> for ConfigError {
    open spec fn obeys_from_spec() -> bool {
        true
    }

    open spec fn from_spec(err: serde_yaml::Error) -> ConfigError {
        ConfigError::Yaml(err)
    }
}

/// The parts of a URL that the configuration reads.
#[derive(Debug)]
pub struct UrlParts {
    pub scheme: String,
    pub host: Option<String>,
    pub port: Option<u16>,
}

/// What a [`UrlParts`] stands for.
pub struct UrlPartsView {
    pub scheme: Seq<char>,
    pub host: Option<Seq<char>>,
    pub port: Option<u16>,
}

impl View for UrlParts {
    type V = UrlPartsView;

    open spec fn view(&self) -> UrlPartsView {
        UrlPartsView { scheme: self.scheme@, host: self.host.deep_view(), port: self.port }
    }
}

/// What `url::Url::parse` makes of `text`: nothing where it refuses the
/// text, otherwise the URL's scheme, its host where it has one, and its
/// port or else the default port of its scheme where either is known.
pub uninterp spec fn url_parts(text: Seq<char>) -> Option<UrlPartsView>;

/// Calls `url::Url::parse` and reads the result with `Url::scheme`,
/// `Url::host_str` and `Url::port_or_known_default`. The contract only
/// gives the outcome its name, [`url_parts`]: the same text always parses
/// the same way.
#[verifier::external_body]
fn parse_url(text: &str) -> (parts: Option<UrlParts>)
    ensures
        match parts {
            Some(p) => url_parts(text@) == Some(p@),
            None => url_parts(text@) is None,
        },
{
    match url::Url::parse(text) {
        Ok(url) => Some(
            UrlParts {
                scheme: url.scheme().to_string(),
                host: url.host_str().map(|host| host.to_string()),
                port: url.port_or_known_default(),
            },
        ),
        Err(_) => None,
    }
}

/// `outcome` is the exec form of `expected`: the same value, or an error
/// that carries the same reason.
pub open spec fn reports<T: View>(outcome: Result<T, ConfigError>, expected: Result<
    T::V,
    Seq<char>,
>) -> bool {
    match expected {
        Ok(value) => outcome matches Ok(v) && v@ == value,
        Err(reason) => outcome matches Err(ConfigError::Custom(text)) && text@ == reason,
    }
}

/// Turns one upstream declaration into an [`Upstream`], given what its URL
/// parsed to.
pub fn upstream_from_parts(name: &str, url: &str, parts: Option<UrlParts>) -> (outcome: Result<
    Upstream,
    ConfigError,
>)
    ensures
        reports(outcome, upstream_from(name@, url@, viewed(parts))),
{
    match parts {
        None => Err(ConfigError::Custom(affix("Invalid upstream url ", url))),
        Some(parts) => {
            let UrlParts { scheme, host, port } = parts;
            match (host, port) {
                (Some(host), Some(port)) => {
                    if same_text(scheme.as_str(), "tcp") {
                        let number = decimal_text(port);
                        let addr = join(host.as_str(), ":", number.as_str());
                        Ok(
                            Upstream::Custom(
                                CustomUpstream { name: name.to_owned(), addr, protocol: scheme },
                            ),
                        )
                    } else {
                        Err(ConfigError::Custom(affix("Invalid upstream scheme ", url)))
                    }
                },
                _ => Err(ConfigError::Custom(affix("Invalid upstream url ", url))),
            }
        },
    }
}

fn listed(seen: &Vec<String>, address: &String) -> (found: bool)
    ensures
        found == seen.deep_view().contains(address@),
{
    let mut i: usize = 0;
    while i < seen.len()
        invariant
            i <= seen.len(),
            forall|j: int| 0 <= j < i ==> seen.deep_view()[j] != address@,
        decreases seen.len() - i,
    {
        if seen[i] == *address {
            assert(seen.deep_view()[i as int] == address@);
            return true;
        }
        i += 1;
    }
    false
}

/// Checks `config`: no listen address may occur twice, and every upstream
/// that a server names, in its SNI map or as its default, must exist. The
/// first fault found, server by server, is the one reported.
pub fn verify_config(config: ParsedConfig) -> (checked: Result<ParsedConfig, ConfigError>)
    ensures
        match violation(config@) {
            None => checked == Ok::<ParsedConfig, ConfigError>(config),
            Some(reason) => checked matches Err(ConfigError::Custom(text)) && text@ == reason,
        },
{
    let ghost servers = config.servers@;
    let ghost upstream = config.upstream@;
    let mut seen: Vec<String> = Vec::new();
    let count = config.servers.len();
    let mut s: usize = 0;
    while s < count
        invariant
            s <= count,
            count == servers.len(),
            servers == config.servers@,
            upstream == config.upstream@,
            violation_among(servers.take(s as int), upstream) is None,
            seen.deep_view() == listens(servers.take(s as int)),
        decreases count - s,
    {
        let server = config.servers.value(s);
        let ghost before = listens(servers.take(s as int));
        let ghost sv = server@;
        proof {
            assert(servers.take(s + 1).drop_last() =~= servers.take(s as int));
        }
        let mut l: usize = 0;
        while l < server.listen.len()
            invariant
                l <= server.listen.len(),
                sv == server@,
                servers == config.servers@,
                upstream == config.upstream@,
                s < servers.len(),
                violation_among(servers.take(s + 1), upstream) == server_violation(
                    before,
                    sv,
                    upstream,
                ),
                repeated_listen(before, sv.listen.take(l as int)) is None,
                seen.deep_view() == before + sv.listen.take(l as int),
            decreases server.listen.len() - l,
        {
            let address = &server.listen[l];
            proof {
                assert(sv.listen.take(l + 1).drop_last() =~= sv.listen.take(l as int));
            }
            if listed(&seen, address) {
                proof {
                    lemma_repeated_prefix(before, sv.listen, l + 1);
                    lemma_violation_prefix(servers, upstream, s + 1);
                }
                return Err(ConfigError::Custom(affix("Duplicate listen address ", address)));
            }
            let ghost earlier = seen.deep_view();
            let copy = address.clone();
            seen.push(copy);
            l += 1;
            proof {
                assert(seen.deep_view() =~= earlier.push(address@));
            }
        }
        proof {
            assert(sv.listen.take(l as int) =~= sv.listen);
        }
        match &server.sni {
            Some(map) => {
                let targets = map.len();
                let mut k: usize = 0;
                while k < targets
                    invariant
                        k <= targets,
                        targets == map@.len(),
                        sv.sni == Some(map@),
                        servers == config.servers@,
                        upstream == config.upstream@,
                        s < servers.len(),
                        violation_among(servers.take(s + 1), upstream) == server_violation(
                            before,
                            sv,
                            upstream,
                        ),
                        repeated_listen(before, sv.listen) is None,
                        unknown_name(sni_targets(sv).take(k as int), upstream) is None,
                    decreases targets - k,
                {
                    let name = map.value(k);
                    proof {
                        assert(sni_targets(sv).take(k + 1).drop_last() =~= sni_targets(sv).take(
                            k as int,
                        ));
                    }
                    if !config.upstream.contains_key(name) {
                        proof {
                            lemma_unknown_prefix(sni_targets(sv), upstream, k + 1);
                            lemma_violation_prefix(servers, upstream, s + 1);
                        }
                        return Err(
                            ConfigError::Custom(join("Upstream ", name, " not found")),
                        );
                    }
                    k += 1;
                }
                proof {
                    assert(sni_targets(sv).take(k as int) =~= sni_targets(sv));
                }
            },
            None => {},
        }
        match &server.default {
            Some(name) => {
                if !config.upstream.contains_key(name) {
                    proof {
                        lemma_violation_prefix(servers, upstream, s + 1);
                    }
                    return Err(ConfigError::Custom(join("Upstream ", name, " not found")));
                }
            },
            None => {},
        }
        s += 1;
    }
    assert(servers.take(s as int) =~= servers);
    Ok(config)
}

/// Builds the upstream table from the declarations `name: url`, in their
/// order; the first bad URL ends it.
fn parse_upstreams(declared: &NameMap<String>) -> (outcome: Result<NameMap<Upstream>, ConfigError>)
    ensures
        reports(outcome, custom_upstreams(declared@)),
{
    let mut table: NameMap<Upstream> = NameMap::new();
    let count = declared.len();
    let mut i: usize = 0;
    while i < count
        invariant
            i <= count,
            count == declared@.len(),
            custom_upstreams(declared@.take(i as int)) == Ok::<Entries<UpstreamView>, Seq<char>>(
                table@,
            ),
        decreases count - i,
    {
        let name = declared.key(i);
        let url = declared.value(i);
        proof {
            assert(declared@.take(i + 1).drop_last() =~= declared@.take(i as int));
        }
        let parts = parse_url(url);
        match upstream_from_parts(name, url, parts) {
            Err(error) => {
                proof {
                    lemma_upstreams_prefix(declared@, i + 1);
                }
                return Err(error);
            },
            Ok(upstream) => {
                table.insert(name.clone(), upstream);
            },
        }
        i += 1;
    }
    assert(declared@.take(i as int) =~= declared@);
    Ok(table)
}

/// A bad declaration among the first `n` is the one that ends the whole.
proof fn lemma_upstreams_prefix(declared: Entries<Seq<char>>, n: int)
    requires
        0 <= n <= declared.len(),
        custom_upstreams(declared.take(n)) is Err,
    ensures
        custom_upstreams(declared) == custom_upstreams(declared.take(n)),
    decreases declared.len() - n,
{
    if n < declared.len() {
        assert(declared.take(n + 1).drop_last() =~= declared.take(n));
        lemma_upstreams_prefix(declared, n + 1);
    } else {
        assert(declared.take(n) =~= declared);
    }
}

/// Turns a configuration as read into a checked one: the version must be
/// `1`, every upstream URL must have a host, a port and the scheme `tcp`,
/// `ban` and `echo` join the table, and the result must pass
/// [`verify_config`].
pub fn load_config(base: BaseConfig) -> (outcome: Result<ParsedConfig, ConfigError>)
    ensures
        reports(outcome, load_outcome(base@)),
{
    match base.check_version() {
        Ok(()) => {},
        Err(error) => {
            return Err(error);
        },
    }
    let mut upstream = match parse_upstreams(&base.upstream) {
        Ok(table) => table,
        Err(error) => {
            return Err(error);
        },
    };
    upstream.insert("ban".to_owned(), Upstream::Ban);
    upstream.insert("echo".to_owned(), Upstream::Echo);
    let parsed = ParsedConfig {
        version: base.version,
        log: base.log,
        servers: base.servers,
        upstream,
    };
    verify_config(parsed)
}

impl Config {
    /// Loads and checks a configuration.
    pub fn new(base: BaseConfig) -> (outcome: Result<Config, ConfigError>)
        ensures
            reports(outcome, load_outcome(base@)),
    {
        match load_config(base) {
            Ok(base) => Ok(Config { base }),
            Err(error) => Err(error),
        }
    }
}

impl BaseConfig {
    /// Refuses a configuration of another version than `1`. This is the
    /// first check of loading: what follows it, the log too, is only
    /// started on a configuration that passes.
    pub fn check_version(&self) -> (outcome: Result<(), ConfigError>)
        ensures
            self@.version == 1 ==> outcome is Ok,
            self@.version != 1 ==> (outcome matches Err(ConfigError::Custom(text)) && text@
                == unsupported_version()),
            outcome is Err ==> load_outcome(self@) == Err::<ParsedConfigView, Seq<char>>(
                unsupported_version(),
            ),
    {
        if self.version != 1 {
            Err(ConfigError::Custom("Unsupported config version".to_owned()))
        } else {
            Ok(())
        }
    }

    /// The level to start the log at, or `None` where logging is off.
    pub fn log_level(&self) -> (level: Option<String>)
        ensures
            viewed(level) == log_level_of(self@.log),
    {
        match &self.log {
            None => Some("info".to_owned()),
            Some(level) => {
                if same_text(level, "disable") {
                    None
                } else {
                    Some(level.clone())
                }
            },
        }
    }
}

/// A repetition found in the first `n` addresses is the one found in all.
proof fn lemma_repeated_prefix(seen: Seq<Seq<char>>, listen: Seq<Seq<char>>, n: int)
    requires
        0 <= n <= listen.len(),
        repeated_listen(seen, listen.take(n)) is Some,
    ensures
        repeated_listen(seen, listen) == repeated_listen(seen, listen.take(n)),
    decreases listen.len() - n,
{
    if n < listen.len() {
        assert(listen.take(n + 1).drop_last() =~= listen.take(n));
        lemma_repeated_prefix(seen, listen, n + 1);
    } else {
        assert(listen.take(n) =~= listen);
    }
}

/// An unknown name found among the first `n` names is the one found in all.
proof fn lemma_unknown_prefix(names: Seq<Seq<char>>, upstream: Entries<UpstreamView>, n: int)
    requires
        0 <= n <= names.len(),
        unknown_name(names.take(n), upstream) is Some,
    ensures
        unknown_name(names, upstream) == unknown_name(names.take(n), upstream),
    decreases names.len() - n,
{
    if n < names.len() {
        assert(names.take(n + 1).drop_last() =~= names.take(n));
        lemma_unknown_prefix(names, upstream, n + 1);
    } else {
        assert(names.take(n) =~= names);
    }
}

/// A fault found among the first `n` servers is the one found among all.
proof fn lemma_violation_prefix(
    servers: Entries<ServerConfigView>,
    upstream: Entries<UpstreamView>,
    n: int,
)
    requires
        0 <= n <= servers.len(),
        violation_among(servers.take(n), upstream) is Some,
    ensures
        violation_among(servers, upstream) == violation_among(servers.take(n), upstream),
    decreases servers.len() - n,
{
    if n < servers.len() {
        assert(servers.take(n + 1).drop_last() =~= servers.take(n));
        lemma_violation_prefix(servers, upstream, n + 1);
    } else {
        assert(servers.take(n) =~= servers);
    }
}

fn server_refers_to(server: &ServerConfig, name: &String) -> (found: bool)
    ensures
        found == refers_to(server@, name@),
{
    match &server.default {
        Some(default) => {
            if *default == *name {
                return true;
            }
        },
        None => {},
    }
    match &server.sni {
        Some(map) => {
            let targets = map.len();
            let mut k: usize = 0;
            while k < targets
                invariant
                    k <= targets,
                    targets == map@.len(),
                    server@.sni == Some(map@),
                    forall|j: int| 0 <= j < k ==> sni_targets(server@)[j] != name@,
                decreases targets - k,
            {
                if *map.value(k) == *name {
                    assert(sni_targets(server@)[k as int] == name@);
                    return true;
                }
                k += 1;
            }
            false
        },
        None => false,
    }
}

fn is_referenced(servers: &NameMap<ServerConfig>, name: &String) -> (found: bool)
    ensures
        found == referenced(servers@, name@),
{
    let count = servers.len();
    let mut s: usize = 0;
    while s < count
        invariant
            s <= count,
            count == servers@.len(),
            forall|j: int| 0 <= j < s ==> !refers_to((#[trigger] servers@[j]).1, name@),
        decreases count - s,
    {
        if server_refers_to(servers.value(s), name) {
            return true;
        }
        s += 1;
    }
    false
}

/// The upstreams that no server names, in the order of the table: they
/// are worth a warning, and no reason to refuse the configuration.
pub fn unused_upstreams(config: &ParsedConfig) -> (unused: Vec<String>)
    ensures
        unused.deep_view() == unused_among(config@.upstream, config@.servers),
{
    let ghost upstream = config@.upstream;
    let mut unused: Vec<String> = Vec::new();
    let count = config.upstream.len();
    let mut i: usize = 0;
    while i < count
        invariant
            i <= count,
            count == upstream.len(),
            upstream == config@.upstream,
            unused.deep_view() == unused_among(upstream.take(i as int), config@.servers),
        decreases count - i,
    {
        let name = config.upstream.key(i);
        let ghost earlier = unused.deep_view();
        proof {
            assert(upstream.take(i + 1).drop_last() =~= upstream.take(i as int));
        }
        if !is_referenced(&config.servers, name) {
            unused.push(name.clone());
        }
        i += 1;
    }
    assert(upstream.take(i as int) =~= upstream);
    unused
}

} // verus!
