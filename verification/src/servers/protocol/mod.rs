//! What is done with an accepted connection: which upstream it is routed
//! to, and how bytes are relayed once that is known.

pub mod tls;

use crate::config::{Upstream, UpstreamView};
use crate::names::{has_key, lookup, Entries};
use crate::servers::protocol::tls::{get_sni, sni_names};
use crate::servers::{selections_known, Proxy, ProxyView};
use crate::text::same_text;
use vstd::prelude::*;

verus! {

/// How many bytes of a new connection a TLS listener looks at, without
/// consuming them, to find the server name.
pub const PEEK_LEN: usize = 1024;

/// The target of the first of `names` that is a key of `map`.
pub open spec fn first_match(names: Seq<Seq<char>>, map: Entries<Seq<char>>) -> Option<Seq<char>>
    decreases names.len(),
{
    if names.len() == 0 {
        None
    } else {
        match lookup(map, names[0]) {
            Some(target) => Some(target),
            None => first_match(names.drop_first(), map),
        }
    }
}

/// The upstream name chosen for a connection that announced `names`: on
/// a TLS listener with an SNI map, the target of the first announced
/// name that the map holds; in every other case the default.
pub open spec fn selected(proxy: ProxyView, names: Seq<Seq<char>>) -> Seq<char> {
    if !proxy.tls {
        proxy.default
    } else {
        match proxy.sni {
            None => proxy.default,
            Some(map) => match first_match(names, map) {
                Some(target) => target,
                None => proxy.default,
            },
        }
    }
}

/// The upstream name chosen for a connection whose first bytes are
/// `peeked`.
pub open spec fn routed(proxy: ProxyView, peeked: Seq<u8>) -> Seq<char> {
    selected(proxy, sni_names(peeked))
}

/// The upstream that `name` resolves to: the table's entry for it, else
/// the entry of the default, else `Ban`.
pub open spec fn resolved(proxy: ProxyView, name: Seq<char>) -> UpstreamView {
    match lookup(proxy.upstream, name) {
        Some(upstream) => upstream,
        None => match lookup(proxy.upstream, proxy.default) {
            Some(upstream) => upstream,
            None => UpstreamView::Ban,
        },
    }
}

impl Proxy {
    /// Whether routing needs the first bytes of the connection.
    pub fn needs_peek(&self) -> (needed: bool)
        ensures
            needed == self@.tls,
    {
        self.tls
    }

    /// Chooses the upstream name for a connection that announced the
    /// server names `names`, in that order.
    pub fn select(&self, names: &Vec<String>) -> (name: String)
        ensures
            name@ == selected(self@, names.deep_view()),
    {
        if !self.tls {
            return self.default.clone();
        }
        match &self.sni {
            None => self.default.clone(),
            Some(map) => {
                let ghost all = names.deep_view();
                let mut i: usize = 0;
                assert(all.skip(0) =~= all);
                while i < names.len()
                    invariant
                        i <= names.len(),
                        all == names.deep_view(),
                        self@.tls,
                        self@.sni == Some(map@),
                        first_match(all, map@) == first_match(all.skip(i as int), map@),
                    decreases names.len() - i,
                {
                    proof {
                        assert(all.skip(i as int).drop_first() =~= all.skip(i + 1));
                    }
                    match map.get(names[i].as_str()) {
                        Some(target) => {
                            return target.clone();
                        },
                        None => {},
                    }
                    i += 1;
                }
                self.default.clone()
            },
        }
    }

    /// Chooses the upstream name for a connection whose first bytes are
    /// `peeked`. A listener without TLS never looks at them.
    pub fn route(&self, peeked: &[u8]) -> (name: String)
        ensures
            name@ == routed(self@, peeked@),
            !self@.tls ==> name@ == self@.default,
    {
        if !self.tls {
            return self.default.clone();
        }
        let names = get_sni(peeked);
        self.select(&names)
    }

    /// Looks `name` up in the upstream table; a name that is missing
    /// falls back to the default, and a missing default to `Ban`.
    pub fn resolve(&self, name: &str) -> (upstream: Upstream)
        ensures
            upstream@ == resolved(self@, name@),
    {
        match self.upstream.get(name) {
            Some(upstream) => upstream.clone(),
            None => match self.upstream.get(self.default.as_str()) {
                Some(upstream) => upstream.clone(),
                None => Upstream::Ban,
            },
        }
    }
}

/// A listener without TLS routes every connection to its default,
/// whatever the connection sends.
pub proof fn lemma_plain_listener_routes_to_default(proxy: ProxyView, peeked: Seq<u8>)
    requires
        !proxy.tls,
    ensures
        routed(proxy, peeked) == proxy.default,
{
}

/// A connection that announces no server name is routed to the default:
/// so is one whose first bytes are no whole TLS record, or a record that
/// does not parse.
pub proof fn lemma_no_name_routes_to_default(proxy: ProxyView)
    ensures
        selected(proxy, Seq::empty()) == proxy.default,
        forall|peeked: Seq<u8>|
            sni_names(peeked).len() == 0 ==> #[trigger] routed(proxy, peeked) == proxy.default,
        forall|peeked: Seq<u8>|
            tls::raw_record(peeked) is None ==> #[trigger] routed(proxy, peeked) == proxy.default,
{
    assert forall|peeked: Seq<u8>| sni_names(peeked).len() == 0 implies #[trigger] routed(
        proxy,
        peeked,
    ) == proxy.default by {
    }
}

/// Among the announced names, the first one that the SNI map holds
/// decides, whatever follows it.
pub proof fn lemma_first_known_name_decides(proxy: ProxyView, names: Seq<Seq<char>>, i: int)
    requires
        proxy.tls,
        proxy.sni is Some,
        0 <= i < names.len(),
        has_key(proxy.sni->0, names[i]),
        forall|j: int| 0 <= j < i ==> !has_key(proxy.sni->0, #[trigger] names[j]),
    ensures
        Some(selected(proxy, names)) == lookup(proxy.sni->0, names[i]),
    decreases i,
{
    let map = proxy.sni->0;
    if i > 0 {
        let rest = names.drop_first();
        assert forall|j: int| 0 <= j < i - 1 implies !has_key(map, #[trigger] rest[j]) by {
        }
        lemma_first_known_name_decides(proxy, rest, i - 1);
    }
}

/// What the first matching name selects is a target of the map.
proof fn lemma_first_match_is_target(names: Seq<Seq<char>>, map: Entries<Seq<char>>)
    requires
        first_match(names, map) is Some,
    ensures
        exists|k: int| 0 <= k < map.len() && (#[trigger] map[k]).1 == first_match(names, map)->0,
    decreases names.len(),
{
    if names.len() > 0 {
        if has_key(map, names[0]) {
            let k = crate::names::position(map, names[0]);
            assert(map[k].1 == first_match(names, map)->0);
        } else {
            lemma_first_match_is_target(names.drop_first(), map);
        }
    }
}

/// On a listener whose selections all exist in its table, the name that
/// routing chooses always has an upstream: resolving it never falls
/// back.
pub proof fn lemma_selected_is_known(proxy: ProxyView, names: Seq<Seq<char>>)
    requires
        selections_known(proxy),
    ensures
        has_key(proxy.upstream, selected(proxy, names)),
        Some(resolved(proxy, selected(proxy, names))) == lookup(
            proxy.upstream,
            selected(proxy, names),
        ),
{
    if proxy.tls && proxy.sni is Some && first_match(names, proxy.sni->0) is Some {
        lemma_first_match_is_target(names, proxy.sni->0);
    }
}

/// What the relay does with a connection.
#[derive(Debug)]
pub enum RelayPlan {
    /// Shut the inbound stream's write side and return.
    Shutdown,
    /// Copy what the inbound stream sends back to it.
    Echo,
    /// Connect to the address and copy in both directions.
    Forward(String),
    /// The upstream asks for a protocol that cannot be spoken: close.
    Unsupported,
}

/// What a [`RelayPlan`] stands for.
pub enum RelayPlanView {
    Shutdown,
    Echo,
    Forward(Seq<char>),
    Unsupported,
}

impl View for RelayPlan {
    type V = RelayPlanView;

    open spec fn view(&self) -> RelayPlanView {
        match self {
            RelayPlan::Shutdown => RelayPlanView::Shutdown,
            RelayPlan::Echo => RelayPlanView::Echo,
            RelayPlan::Forward(addr) => RelayPlanView::Forward(addr@),
            RelayPlan::Unsupported => RelayPlanView::Unsupported,
        }
    }
}

/// The plan for an upstream: `Ban` is shut, `Echo` echoed, and a custom
/// upstream forwarded to where it speaks `tcp`.
pub open spec fn plan_for(upstream: UpstreamView) -> RelayPlanView {
    match upstream {
        UpstreamView::Ban => RelayPlanView::Shutdown,
        UpstreamView::Echo => RelayPlanView::Echo,
        UpstreamView::Custom(custom) => if custom.protocol == "tcp"@ {
            RelayPlanView::Forward(custom.addr)
        } else {
            RelayPlanView::Unsupported
        },
    }
}

/// Decides what the relay does with a connection routed to `upstream`.
pub fn relay_plan(upstream: &Upstream) -> (plan: RelayPlan)
    ensures
        plan@ == plan_for(upstream@),
{
    match upstream {
        Upstream::Ban => RelayPlan::Shutdown,
        Upstream::Echo => RelayPlan::Echo,
        Upstream::Custom(custom) => {
            if same_text(custom.protocol.as_str(), "tcp") {
                RelayPlan::Forward(custom.addr.clone())
            } else {
                RelayPlan::Unsupported
            }
        },
    }
}

/// An end of a relay: the accepted connection, or the connection to the
/// upstream.
#[derive(Debug, Clone, Copy, PartialEq, Eq, Structural)]
pub enum Side {
    Inbound,
    Outbound,
}

/// How the copying out of one side ended.
#[derive(Debug, Clone, Copy, PartialEq, Eq, Structural)]
pub enum CopyEnd {
    /// The side has nothing more to send.
    Eof,
    /// Reading or writing failed.
    Failed,
}

/// What the relay does when the copying out of one side ends.
#[derive(Debug, Clone, Copy, PartialEq, Eq, Structural)]
pub enum RelayStep {
    /// Nothing: no copying out of that side was under way.
    Nothing,
    /// Shut the write half of this side; the other copy goes on.
    HalfClose(Side),
    /// Shut the write half of this side, and end: nothing is left to
    /// copy.
    Finish(Side),
    /// Cancel the other copy and end at once.
    Abort,
}

/// Which copies of a relay are under way. A forwarding relay copies out
/// of both sides, each into the other; an echoing relay copies out of
/// the inbound side only, back into it.
#[derive(Debug, Clone, Copy, PartialEq, Eq, Structural)]
pub struct RelayState {
    /// Bytes out of the inbound side go back into it.
    pub echo: bool,
    /// The copy out of the inbound side is under way.
    pub from_inbound: bool,
    /// The copy out of the outbound side is under way.
    pub from_outbound: bool,
}

impl RelayState {
    /// Whether the copy out of `side` is under way.
    pub open spec fn copying_from(self, side: Side) -> bool {
        match side {
            Side::Inbound => self.from_inbound,
            Side::Outbound => self.from_outbound,
        }
    }

    /// The side that bytes out of `source` are written to.
    pub open spec fn destination(self, source: Side) -> Side {
        match source {
            Side::Inbound => if self.echo {
                Side::Inbound
            } else {
                Side::Outbound
            },
            Side::Outbound => Side::Inbound,
        }
    }

    /// The state once the copy out of `source` has ended with `end`: a
    /// clean end stops that copy alone, a failure stops both.
    pub open spec fn after(self, source: Side, end: CopyEnd) -> RelayState {
        if !self.copying_from(source) {
            self
        } else {
            match end {
                CopyEnd::Failed => RelayState { from_inbound: false, from_outbound: false, ..self },
                CopyEnd::Eof => match source {
                    Side::Inbound => RelayState { from_inbound: false, ..self },
                    Side::Outbound => RelayState { from_outbound: false, ..self },
                },
            }
        }
    }

    /// What is done when the copy out of `source` ends with `end`. A
    /// clean end shuts the write half of the side that was written to
    /// and leaves the other copy alone; the relay ends with the last
    /// copy. A failure ends the relay at once.
    pub open spec fn step(self, source: Side, end: CopyEnd) -> RelayStep {
        if !self.copying_from(source) {
            RelayStep::Nothing
        } else {
            match end {
                CopyEnd::Failed => RelayStep::Abort,
                CopyEnd::Eof => if self.after(source, end).from_inbound || self.after(
                    source,
                    end,
                ).from_outbound {
                    RelayStep::HalfClose(self.destination(source))
                } else {
                    RelayStep::Finish(self.destination(source))
                },
            }
        }
    }

    /// A relay that copies in both directions.
    pub fn forward() -> (state: RelayState)
        ensures
            state == (RelayState { echo: false, from_inbound: true, from_outbound: true }),
    {
        RelayState { echo: false, from_inbound: true, from_outbound: true }
    }

    /// A relay that sends back what it receives.
    pub fn echo() -> (state: RelayState)
        ensures
            state == (RelayState { echo: true, from_inbound: true, from_outbound: false }),
    {
        RelayState { echo: true, from_inbound: true, from_outbound: false }
    }

    /// Whether nothing is left to copy.
    pub fn is_over(&self) -> (over: bool)
        ensures
            over == (!self.from_inbound && !self.from_outbound),
    {
        !self.from_inbound && !self.from_outbound
    }

    /// Notes that the copy out of `source` ended, and says what to do.
    pub fn copy_ended(&mut self, source: Side, end: CopyEnd) -> (step: RelayStep)
        ensures
            step == old(self).step(source, end),
            *final(self) == old(self).after(source, end),
    {
        let copying = match source {
            Side::Inbound => self.from_inbound,
            Side::Outbound => self.from_outbound,
        };
        if !copying {
            return RelayStep::Nothing;
        }
        let destination = match source {
            Side::Inbound => if self.echo {
                Side::Inbound
            } else {
                Side::Outbound
            },
            Side::Outbound => Side::Inbound,
        };
        match end {
            CopyEnd::Failed => {
                self.from_inbound = false;
                self.from_outbound = false;
                RelayStep::Abort
            },
            CopyEnd::Eof => {
                match source {
                    Side::Inbound => {
                        self.from_inbound = false;
                    },
                    Side::Outbound => {
                        self.from_outbound = false;
                    },
                }
                if self.from_inbound || self.from_outbound {
                    RelayStep::HalfClose(destination)
                } else {
                    RelayStep::Finish(destination)
                }
            },
        }
    }
}

/// A clean end of one direction of a forwarding relay shuts the write
/// half of the other side and leaves the opposite direction under way.
pub proof fn lemma_half_close(state: RelayState, source: Side)
    requires
        !state.echo,
        state.from_inbound,
        state.from_outbound,
    ensures
        state.step(source, CopyEnd::Eof) == RelayStep::HalfClose(state.destination(source)),
        state.destination(source) != source,
        state.after(source, CopyEnd::Eof).copying_from(state.destination(source)),
        !state.after(source, CopyEnd::Eof).copying_from(source),
{
}

/// A failure in a direction that is under way ends the whole relay,
/// whatever the other direction was doing.
pub proof fn lemma_failure_ends_relay(state: RelayState, source: Side)
    requires
        state.copying_from(source),
    ensures
        state.step(source, CopyEnd::Failed) == RelayStep::Abort,
        !state.after(source, CopyEnd::Failed).from_inbound,
        !state.after(source, CopyEnd::Failed).from_outbound,
{
}

/// An echoing relay ends with the client's end of stream, and shuts the
/// write half of the client's own connection.
pub proof fn lemma_echo_ends_with_client()
    ensures
        (RelayState { echo: true, from_inbound: true, from_outbound: false }).step(
            Side::Inbound,
            CopyEnd::Eof,
        ) == RelayStep::Finish(Side::Inbound),
{
}

} // verus!
