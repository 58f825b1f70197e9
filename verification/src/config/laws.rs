//! What holds of every configuration that is loaded, and of every one
//! that is refused.

use crate::config::rules::{
    admissible, all_usable, custom_upstreams, listen_position, listens, load_outcome,
    references_known, repeated_listen, sni_targets, unknown_name, upstream_from, usable, violation,
    violation_among, with_builtins,
};
use crate::config::{url_parts, BaseConfigView, ParsedConfigView, ServerConfigView, UpstreamView};
use crate::names::{distinct_keys, has_key, lemma_put, lookup, put, Entries};
use vstd::prelude::*;

verus! {

/// No address is found repeated exactly when all addresses, the taken
/// ones with the new ones, differ.
proof fn lemma_repeated_none(seen: Seq<Seq<char>>, listen: Seq<Seq<char>>)
    requires
        seen.no_duplicates(),
    ensures
        repeated_listen(seen, listen) is None <==> (seen + listen).no_duplicates(),
    decreases listen.len(),
{
    if listen.len() == 0 {
    } else {
        let front = listen.drop_last();
        lemma_repeated_none(seen, front);
        let whole = seen + listen;
        let part = seen + front;
        assert(whole =~= part.push(listen.last()));
        if repeated_listen(seen, listen) is None {
            assert forall|i: int, j: int|
                0 <= i < whole.len() && 0 <= j < whole.len() && i != j implies whole[i]
                != whole[j] by {
                if i < part.len() && j < part.len() {
                } else if i < part.len() {
                } else {
                }
            }
        }
        if whole.no_duplicates() {
            assert forall|i: int, j: int|
                0 <= i < part.len() && 0 <= j < part.len() && i != j implies part[i]
                != part[j] by {
                assert(whole[i] != whole[j]);
            }
            if part.contains(listen.last()) {
                let i = choose|i: int| 0 <= i < part.len() && part[i] == listen.last();
                assert(whole[i] == whole[part.len() as int]);
            }
        }
    }
}

/// No name is found unknown exactly when every name is a key.
proof fn lemma_unknown_none(names: Seq<Seq<char>>, upstream: Entries<UpstreamView>)
    ensures
        unknown_name(names, upstream) is None <==> forall|k: int|
            0 <= k < names.len() ==> has_key(upstream, #[trigger] names[k]),
    decreases names.len(),
{
    if names.len() > 0 {
        let front = names.drop_last();
        lemma_unknown_none(front, upstream);
        if unknown_name(names, upstream) is None {
            assert forall|k: int| 0 <= k < names.len() implies has_key(
                upstream,
                #[trigger] names[k],
            ) by {
                if k < front.len() {
                    assert(front[k] == names[k]);
                }
            }
        }
        if forall|k: int| 0 <= k < names.len() ==> has_key(upstream, #[trigger] names[k]) {
            assert forall|k: int| 0 <= k < front.len() implies has_key(
                upstream,
                #[trigger] front[k],
            ) by {
            }
        }
    }
}

/// Where all of `a` followed by `b` differ, all of `a` differ.
proof fn lemma_prefix_distinct(a: Seq<Seq<char>>, b: Seq<Seq<char>>)
    requires
        (a + b).no_duplicates(),
    ensures
        a.no_duplicates(),
{
    assert forall|i: int, j: int| 0 <= i < a.len() && 0 <= j < a.len() && i != j implies a[i]
        != a[j] by {
        assert((a + b)[i] != (a + b)[j]);
    }
}

/// No server is found at fault exactly when the configuration is
/// admissible.
proof fn lemma_violation_none(servers: Entries<ServerConfigView>, upstream: Entries<UpstreamView>)
    ensures
        violation_among(servers, upstream) is None <==> admissible(
            ParsedConfigView { version: 1, log: None, servers, upstream },
        ),
    decreases servers.len(),
{
    let whole = ParsedConfigView { version: 1, log: None, servers, upstream };
    if servers.len() > 0 {
        let front = servers.drop_last();
        let part = ParsedConfigView { version: 1, log: None, servers: front, upstream };
        let last = servers.last().1;
        lemma_violation_none(front, upstream);
        lemma_unknown_none(sni_targets(last), upstream);
        if violation_among(servers, upstream) is None {
            lemma_repeated_none(listens(front), last.listen);
            assert forall|s: int| 0 <= s < servers.len() implies references_known(
                (#[trigger] servers[s]).1,
                upstream,
            ) by {
                if s < front.len() {
                    assert(front[s] == servers[s]);
                }
            }
        }
        if admissible(whole) {
            lemma_prefix_distinct(listens(front), last.listen);
            lemma_repeated_none(listens(front), last.listen);
            assert forall|s: int| 0 <= s < front.len() implies references_known(
                (#[trigger] front[s]).1,
                upstream,
            ) by {
            }
        }
    }
}

/// [`verify_config`] accepts exactly the admissible configurations.
pub proof fn lemma_violation_iff_inadmissible(config: ParsedConfigView)
    ensures
        violation(config) is None <==> admissible(config),
{
    lemma_violation_none(config.servers, config.upstream);
}

/// Address `l` of server `s` stands at its position among all listen
/// addresses, before every address of a later server.
proof fn lemma_listen_position(servers: Entries<ServerConfigView>, s: int, l: int)
    requires
        0 <= s < servers.len(),
        0 <= l < servers[s].1.listen.len(),
    ensures
        0 <= listen_position(servers, s, l) < listens(servers).len(),
        listens(servers)[listen_position(servers, s, l)] == servers[s].1.listen[l],
        forall|s2: int, l2: int|
            s < s2 < servers.len() && 0 <= l2 < servers[s2].1.listen.len() ==> listen_position(
                servers,
                s,
                l,
            ) < #[trigger] listen_position(servers, s2, l2),
    decreases servers.len(),
{
    let front = servers.drop_last();
    if s == servers.len() - 1 {
    } else {
        lemma_listen_position(front, s, l);
        assert(front.take(s) =~= servers.take(s));
        assert forall|s2: int, l2: int|
            s < s2 < servers.len() && 0 <= l2 < servers[s2].1.listen.len() implies listen_position(
                servers,
                s,
                l,
            ) < #[trigger] listen_position(servers, s2, l2) by {
            if s2 < front.len() {
                assert(front.take(s2) =~= servers.take(s2));
                assert(listen_position(front, s2, l2) == listen_position(servers, s2, l2));
            } else {
            }
        }
    }
}

/// A configuration that declares one listen address in two places is not
/// loaded, whatever else it holds.
pub proof fn lemma_duplicate_listen_rejected(base: BaseConfigView, s1: int, l1: int, s2: int, l2: int)
    requires
        0 <= s1 < base.servers.len(),
        0 <= s2 < base.servers.len(),
        0 <= l1 < base.servers[s1].1.listen.len(),
        0 <= l2 < base.servers[s2].1.listen.len(),
        s1 != s2 || l1 != l2,
        base.servers[s1].1.listen[l1] == base.servers[s2].1.listen[l2],
    ensures
        load_outcome(base) is Err,
{
    let servers = base.servers;
    lemma_listen_position(servers, s1, l1);
    lemma_listen_position(servers, s2, l2);
    let p1 = listen_position(servers, s1, l1);
    let p2 = listen_position(servers, s2, l2);
    if base.version == 1 && custom_upstreams(base.upstream) is Ok {
        let upstream = with_builtins(custom_upstreams(base.upstream)->Ok_0);
        lemma_violation_none(servers, upstream);
    }
}

/// A configuration in which a server names an upstream, in its SNI map or
/// as its default, that is neither declared nor built in is not loaded.
pub proof fn lemma_unknown_upstream_rejected(base: BaseConfigView, s: int, name: Seq<char>)
    requires
        0 <= s < base.servers.len(),
        base.servers[s].1.default == Some(name) || sni_targets(base.servers[s].1).contains(name),
        !has_key(base.upstream, name),
        name != "ban"@,
        name != "echo"@,
    ensures
        load_outcome(base) is Err,
{
    if base.version == 1 && custom_upstreams(base.upstream) is Ok {
        let table = custom_upstreams(base.upstream)->Ok_0;
        let upstream = with_builtins(table);
        lemma_custom_keys(base.upstream, name);
        lemma_violation_none(base.servers, upstream);
    }
}

/// Storing a usable upstream in a table of usable upstreams leaves all
/// of them usable.
proof fn lemma_put_usable(table: Entries<UpstreamView>, name: Seq<char>, upstream: UpstreamView)
    requires
        all_usable(table),
        usable(upstream),
    ensures
        all_usable(put(table, name, upstream)),
{
    let after = put(table, name, upstream);
    assert forall|i: int| 0 <= i < after.len() implies usable((#[trigger] after[i]).1) by {
        if i < table.len() && after[i] != (name, upstream) {
        }
    }
}

/// The table built from declarations has no name twice and holds only
/// usable upstreams.
proof fn lemma_custom_table(declared: Entries<Seq<char>>)
    requires
        custom_upstreams(declared) is Ok,
    ensures
        distinct_keys(custom_upstreams(declared)->Ok_0),
        all_usable(custom_upstreams(declared)->Ok_0),
    decreases declared.len(),
{
    if declared.len() > 0 {
        let front = declared.drop_last();
        lemma_custom_table(front);
        let table = custom_upstreams(front)->Ok_0;
        let last = declared.last();
        let upstream = upstream_from(last.0, last.1, url_parts(last.1))->Ok_0;
        lemma_put(table, last.0, upstream);
        lemma_put_usable(table, last.0, upstream);
    }
}

/// What holds of every configuration that was loaded: it passes the
/// checks of [`verify_config`], its table has no name twice, holds `ban`
/// and `echo` as the built-in upstreams, and holds beside them only
/// upstreams that are spoken to over `tcp`.
pub proof fn lemma_loaded_config_is_sound(base: BaseConfigView)
    requires
        load_outcome(base) is Ok,
    ensures
        admissible(load_outcome(base)->Ok_0),
        distinct_keys(load_outcome(base)->Ok_0.upstream),
        crate::names::lookup(load_outcome(base)->Ok_0.upstream, "ban"@) == Some(UpstreamView::Ban),
        crate::names::lookup(load_outcome(base)->Ok_0.upstream, "echo"@) == Some(
            UpstreamView::Echo,
        ),
        all_usable(load_outcome(base)->Ok_0.upstream),
        load_outcome(base)->Ok_0.version == 1,
        load_outcome(base)->Ok_0.servers == base.servers,
        load_outcome(base)->Ok_0.log == base.log,
{
    let loaded = load_outcome(base)->Ok_0;
    let table = custom_upstreams(base.upstream)->Ok_0;
    lemma_custom_table(base.upstream);
    let mid = put(table, "ban"@, UpstreamView::Ban);
    lemma_put(table, "ban"@, UpstreamView::Ban);
    lemma_put_usable(table, "ban"@, UpstreamView::Ban);
    lemma_put(mid, "echo"@, UpstreamView::Echo);
    lemma_put_usable(mid, "echo"@, UpstreamView::Echo);
    assert("ban"@ != "echo"@) by {
        reveal_strlit("ban");
        reveal_strlit("echo");
        assert("ban"@.len() != "echo"@.len());
    }
    lemma_violation_none(loaded.servers, loaded.upstream);
}

/// The table built from declarations has no key that was not declared.
proof fn lemma_custom_keys(declared: Entries<Seq<char>>, name: Seq<char>)
    requires
        custom_upstreams(declared) is Ok,
        !has_key(declared, name),
    ensures
        !has_key(custom_upstreams(declared)->Ok_0, name),
    decreases declared.len(),
{
    if declared.len() > 0 {
        let front = declared.drop_last();
        if has_key(front, name) {
            let i = choose|i: int| 0 <= i < front.len() && #[trigger] front[i].0 == name;
        }
        lemma_custom_keys(front, name);
        let table = custom_upstreams(front)->Ok_0;
        let after = custom_upstreams(declared)->Ok_0;
        if has_key(after, name) {
            let i = choose|i: int| 0 <= i < after.len() && #[trigger] after[i].0 == name;
        }
    } else {
    }
}

} // verus!
