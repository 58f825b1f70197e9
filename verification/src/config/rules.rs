//! What loading and checking a configuration gives, stated over its
//! model.

use crate::config::{
    url_parts, BaseConfigView, CustomUpstreamView, ParsedConfigView, ServerConfigView,
    UpstreamView, UrlPartsView,
};
use crate::names::{has_key, put, Entries};
use crate::text::decimal;
use vstd::prelude::*;

verus! {

/// The reason given for a configuration of another version.
pub open spec fn unsupported_version() -> Seq<char> {
    "Unsupported config version"@
}

/// The reason given for an upstream URL without a host or port, or one
/// that is no URL.
pub open spec fn invalid_url(url: Seq<char>) -> Seq<char> {
    "Invalid upstream url "@ + url
}

/// The reason given for an upstream URL whose scheme is not `tcp`.
pub open spec fn invalid_scheme(url: Seq<char>) -> Seq<char> {
    "Invalid upstream scheme "@ + url
}

/// The reason given for a listen address that occurs twice.
pub open spec fn duplicate_listen(address: Seq<char>) -> Seq<char> {
    "Duplicate listen address "@ + address
}

/// The reason given for a reference to an upstream that does not exist.
pub open spec fn upstream_not_found(name: Seq<char>) -> Seq<char> {
    "Upstream "@ + name + " not found"@
}

/// The upstream that a declaration `name: url` stands for, given what the
/// URL parsed to, or the reason it is refused.
pub open spec fn upstream_from(name: Seq<char>, url: Seq<char>, parts: Option<UrlPartsView>)
    -> Result<UpstreamView, Seq<char>> {
    match parts {
        None => Err(invalid_url(url)),
        Some(parts) => match (parts.host, parts.port) {
            (Some(host), Some(port)) => if parts.scheme == "tcp"@ {
                Ok(
                    UpstreamView::Custom(
                        CustomUpstreamView {
                            name,
                            addr: host + ":"@ + decimal(port as nat),
                            protocol: parts.scheme,
                        },
                    ),
                )
            } else {
                Err(invalid_scheme(url))
            },
            _ => Err(invalid_url(url)),
        },
    }
}

/// The table that the declarations stand for, in their order, or the
/// reason the first bad one is refused.
pub open spec fn custom_upstreams(declared: Entries<Seq<char>>) -> Result<
    Entries<UpstreamView>,
    Seq<char>,
>
    decreases declared.len(),
{
    if declared.len() == 0 {
        Ok(Seq::empty())
    } else {
        match custom_upstreams(declared.drop_last()) {
            Err(reason) => Err(reason),
            Ok(table) => match upstream_from(
                declared.last().0,
                declared.last().1,
                url_parts(declared.last().1),
            ) {
                Err(reason) => Err(reason),
                Ok(upstream) => Ok(put(table, declared.last().0, upstream)),
            },
        }
    }
}

/// `table` with the two built-in upstreams, which take the place of any
/// declared under their names.
pub open spec fn with_builtins(table: Entries<UpstreamView>) -> Entries<UpstreamView> {
    put(put(table, "ban"@, UpstreamView::Ban), "echo"@, UpstreamView::Echo)
}

/// Every listen address of `servers`, in order.
pub open spec fn listens(servers: Entries<ServerConfigView>) -> Seq<Seq<char>>
    decreases servers.len(),
{
    if servers.len() == 0 {
        Seq::empty()
    } else {
        listens(servers.drop_last()) + servers.last().1.listen
    }
}

/// The first address of `listen` that already occurs in `seen` or earlier
/// in `listen`.
pub open spec fn repeated_listen(seen: Seq<Seq<char>>, listen: Seq<Seq<char>>) -> Option<
    Seq<char>,
>
    decreases listen.len(),
{
    if listen.len() == 0 {
        None
    } else {
        match repeated_listen(seen, listen.drop_last()) {
            Some(address) => Some(address),
            None => if (seen + listen.drop_last()).contains(listen.last()) {
                Some(listen.last())
            } else {
                None
            },
        }
    }
}

/// The upstream names that the SNI map of `server` routes to, in order.
pub open spec fn sni_targets(server: ServerConfigView) -> Seq<Seq<char>> {
    match server.sni {
        Some(map) => Seq::new(map.len(), |k: int| map[k].1),
        None => Seq::empty(),
    }
}

/// The first of `names` that is no key of `upstream`.
pub open spec fn unknown_name(names: Seq<Seq<char>>, upstream: Entries<UpstreamView>) -> Option<
    Seq<char>,
>
    decreases names.len(),
{
    if names.len() == 0 {
        None
    } else {
        match unknown_name(names.drop_last(), upstream) {
            Some(name) => Some(name),
            None => if has_key(upstream, names.last()) {
                None
            } else {
                Some(names.last())
            },
        }
    }
}

/// The first upstream name that `server` refers to and `upstream` lacks:
/// its SNI targets come first, then its default.
pub open spec fn unknown_reference(server: ServerConfigView, upstream: Entries<UpstreamView>)
    -> Option<Seq<char>> {
    match unknown_name(sni_targets(server), upstream) {
        Some(name) => Some(name),
        None => match server.default {
            Some(name) => if has_key(upstream, name) {
                None
            } else {
                Some(name)
            },
            None => None,
        },
    }
}

/// What is wrong with `server`, if anything, when the addresses in `seen`
/// are already taken: a repeated listen address comes before an unknown
/// upstream.
pub open spec fn server_violation(
    seen: Seq<Seq<char>>,
    server: ServerConfigView,
    upstream: Entries<UpstreamView>,
) -> Option<Seq<char>> {
    match repeated_listen(seen, server.listen) {
        Some(address) => Some(duplicate_listen(address)),
        None => match unknown_reference(server, upstream) {
            Some(name) => Some(upstream_not_found(name)),
            None => None,
        },
    }
}

/// What is wrong with the first of `servers` that has anything wrong.
pub open spec fn violation_among(
    servers: Entries<ServerConfigView>,
    upstream: Entries<UpstreamView>,
) -> Option<Seq<char>>
    decreases servers.len(),
{
    if servers.len() == 0 {
        None
    } else {
        match violation_among(servers.drop_last(), upstream) {
            Some(reason) => Some(reason),
            None => server_violation(listens(servers.drop_last()), servers.last().1, upstream),
        }
    }
}

/// The reason `config` is refused, if it is.
pub open spec fn violation(config: ParsedConfigView) -> Option<Seq<char>> {
    violation_among(config.servers, config.upstream)
}

/// What loading `base` gives: the checked configuration, or the reason it
/// is refused.
pub open spec fn load_outcome(base: BaseConfigView) -> Result<ParsedConfigView, Seq<char>> {
    if base.version != 1 {
        Err(unsupported_version())
    } else {
        match custom_upstreams(base.upstream) {
            Err(reason) => Err(reason),
            Ok(table) => {
                let parsed = ParsedConfigView {
                    version: base.version,
                    log: base.log,
                    servers: base.servers,
                    upstream: with_builtins(table),
                };
                match violation(parsed) {
                    Some(reason) => Err(reason),
                    None => Ok(parsed),
                }
            },
        }
    }
}

/// The log level that `log` asks for: `info` where none is given, and
/// none at all for `disable`.
pub open spec fn log_level_of(log: Option<Seq<char>>) -> Option<Seq<char>> {
    match log {
        None => Some("info"@),
        Some(level) => if level == "disable"@ {
            None
        } else {
            Some(level)
        },
    }
}

/// `server` names the upstream `name`, in its SNI map or as its default.
pub open spec fn refers_to(server: ServerConfigView, name: Seq<char>) -> bool {
    sni_targets(server).contains(name) || server.default == Some(name)
}

/// One of `servers` names the upstream `name`.
pub open spec fn referenced(servers: Entries<ServerConfigView>, name: Seq<char>) -> bool {
    exists|s: int| 0 <= s < servers.len() && refers_to((#[trigger] servers[s]).1, name)
}

/// The names in `upstream` that none of `servers` names, in order.
pub open spec fn unused_among(
    upstream: Entries<UpstreamView>,
    servers: Entries<ServerConfigView>,
) -> Seq<Seq<char>>
    decreases upstream.len(),
{
    if upstream.len() == 0 {
        Seq::empty()
    } else if referenced(servers, upstream.last().0) {
        unused_among(upstream.drop_last(), servers)
    } else {
        unused_among(upstream.drop_last(), servers).push(upstream.last().0)
    }
}

/// Every upstream that `server` names exists in `upstream`.
pub open spec fn references_known(server: ServerConfigView, upstream: Entries<UpstreamView>)
    -> bool {
    &&& forall|k: int|
        0 <= k < sni_targets(server).len() ==> has_key(upstream, #[trigger] sni_targets(server)[k])
    &&& server.default matches Some(name) ==> has_key(upstream, name)
}

/// What [`verify_config`] asks of a configuration: all listen addresses
/// differ, and all upstreams named by servers exist.
pub open spec fn admissible(config: ParsedConfigView) -> bool {
    &&& listens(config.servers).no_duplicates()
    &&& forall|s: int|
        0 <= s < config.servers.len() ==> references_known(
            (#[trigger] config.servers[s]).1,
            config.upstream,
        )
}

/// The position among all listen addresses of address `l` of server `s`.
pub open spec fn listen_position(servers: Entries<ServerConfigView>, s: int, l: int) -> int {
    listens(servers.take(s)).len() + l
}

/// An upstream as the loader leaves it in a table: built in, or custom
/// and spoken to over `tcp`.
pub open spec fn usable(upstream: UpstreamView) -> bool {
    upstream matches UpstreamView::Custom(custom) ==> custom.protocol == "tcp"@
}

/// Every upstream in `table` is usable.
pub open spec fn all_usable(table: Entries<UpstreamView>) -> bool {
    forall|i: int| 0 <= i < table.len() ==> usable((#[trigger] table[i]).1)
}

} // verus!
