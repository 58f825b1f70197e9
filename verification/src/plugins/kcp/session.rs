//! The sessions of one listener, by conversation number.

use std::collections::HashMap;
use vstd::prelude::*;
use vstd::set_lib::range_set_properties;
use vstd::std_specs::hash::group_hash_axioms;

verus! {

broadcast use group_hash_axioms;

/// The conversation number that stands for "none yet": a client sends it
/// to ask the listener for one.
pub const UNASSIGNED: u32 = 0;

/// The number tried after `conv`: the next one, and `1` after the last.
pub open spec fn successor(conv: u32) -> u32 {
    if conv == u32::MAX {
        1
    } else {
        (conv + 1) as u32
    }
}

/// `x` is one of the numbers tried before `conv` when trying starts at
/// `start`: those from `start` up to `conv`, going round past the last
/// number to `1` where `conv` lies before `start`.
pub open spec fn tried_before(start: u32, conv: u32, x: u32) -> bool {
    if start <= conv {
        start <= x < conv
    } else {
        x >= start || 1 <= x < conv
    }
}

/// `conv` is the number to hand out when `used` are taken and trying
/// starts at `start`: it is not `0`, it is free, and every number tried
/// before it is taken.
pub open spec fn fresh(used: Set<u32>, start: u32, conv: u32) -> bool {
    &&& conv != UNASSIGNED
    &&& !used.contains(conv)
    &&& forall|x: u32|
        #![trigger tried_before(start, conv, x)]
        #![trigger used.contains(x)]
        tried_before(start, conv, x) ==> used.contains(x)
}

/// What a [`KcpSessionManager`] stands for.
pub struct SessionsView<S> {
    /// The live sessions.
    pub sessions: Map<u32, S>,
    /// Where the search for the next free number starts.
    pub next_conv: u32,
}

/// The sessions of one listener. No session is kept under `0`, and no
/// two under one number.
pub struct KcpSessionManager<S> {
    sessions: HashMap<u32, S>,
    next_conv: u32,
}

impl<S> View for KcpSessionManager<S> {
    type V = SessionsView<S>;

    closed spec fn view(&self) -> SessionsView<S> {
        SessionsView { sessions: self.sessions@, next_conv: self.next_conv }
    }
}

/// Some number other than `0` is free when fewer than all are taken.
pub proof fn lemma_free_conv_exists(used: Set<u32>)
    requires
        used.finite(),
        !used.contains(UNASSIGNED),
        used.len() < u32::MAX,
    ensures
        exists|conv: u32| conv != UNASSIGNED && !used.contains(conv),
{
    if forall|conv: u32| conv != UNASSIGNED ==> used.contains(conv) {
        let all = Set::<u32>::range(1u32, u32::MAX).insert(u32::MAX);
        range_set_properties::<u32>(1u32, u32::MAX);
        vstd::set_lib::lemma_len_subset(all, used);
    }
}

impl<S> KcpSessionManager<S> {
    #[verifier::type_invariant]
    spec fn well_formed(&self) -> bool {
        &&& !self.sessions@.contains_key(UNASSIGNED)
        &&& self.next_conv != UNASSIGNED
        &&& self.sessions@.dom().finite()
    }

    /// The conversation numbers in use.
    pub open spec fn used(&self) -> Set<u32> {
        self@.sessions.dom()
    }

    /// A manager without sessions; the first number it hands out is `1`.
    pub fn new() -> (manager: Self)
        ensures
            manager@.sessions == Map::<u32, S>::empty(),
            manager@.next_conv == 1,
    {
        KcpSessionManager { sessions: HashMap::new(), next_conv: 1 }
    }

    /// The number of live sessions.
    pub fn len(&self) -> (n: usize)
        ensures
            n == self.used().len(),
            self.used().finite(),
            !self.used().contains(UNASSIGNED),
            self@.next_conv != UNASSIGNED,
    {
        proof {
            use_type_invariant(self);
        }
        self.sessions.len()
    }

    /// Whether every number is taken, so that none can be handed out.
    pub fn is_full(&self) -> (full: bool)
        ensures
            full == (self.used().len() >= u32::MAX),
            !full ==> exists|conv: u32| conv != UNASSIGNED && !self.used().contains(conv),
    {
        proof {
            use_type_invariant(self);
        }
        let full = self.sessions.len() >= 0xffff_ffff;
        proof {
            if !full {
                lemma_free_conv_exists(self.used());
            }
        }
        full
    }

    /// Hands out a conversation number that no live session has: the
    /// first free one from where the last search ended, going round to
    /// `1` after the last number and never giving `0`. The next search
    /// starts behind it.
    pub fn alloc_conv(&mut self) -> (conv: u32)
        requires
            old(self).used().len() < u32::MAX,
        ensures
            fresh(old(self).used(), old(self)@.next_conv, conv),
            final(self)@.sessions == old(self)@.sessions,
            final(self)@.next_conv == successor(conv),
    {
        proof {
            use_type_invariant(&*self);
            lemma_free_conv_exists(self.used());
        }
        let ghost used = self.used();
        let ghost free = choose|conv: u32| conv != UNASSIGNED && !used.contains(conv);
        let start = self.next_conv;
        let mut conv = start;
        while self.sessions.contains_key(&conv)
            invariant
                conv != UNASSIGNED,
                start != UNASSIGNED,
                free != UNASSIGNED,
                !used.contains(free),
                used == self.sessions@.dom(),
                self.sessions@ == old(self).sessions@,
                forall|x: u32|
                    #![trigger tried_before(start, conv, x)]
                    #![trigger used.contains(x)]
                    tried_before(start, conv, x) ==> used.contains(x),
            decreases
                    (if conv <= free {
                        free - conv
                    } else {
                        free + u32::MAX - conv
                    }),
        {
            conv = if conv == u32::MAX {
                1
            } else {
                conv + 1
            };
        }
        self.next_conv = if conv == u32::MAX {
            1
        } else {
            conv + 1
        };
        conv
    }

    /// Keeps `session` under `conv`. It is handed back, and nothing
    /// changes, where `conv` is `0` or already has a session.
    pub fn insert(&mut self, conv: u32, session: S) -> (refused: Option<S>)
        ensures
            final(self)@.next_conv == old(self)@.next_conv,
            conv == UNASSIGNED || old(self).used().contains(conv) ==> refused == Some(session)
                && final(self)@ == old(self)@,
            conv != UNASSIGNED && !old(self).used().contains(conv) ==> refused is None
                && final(self)@.sessions == old(self)@.sessions.insert(conv, session),
    {
        proof {
            use_type_invariant(&*self);
        }
        if conv == UNASSIGNED || self.sessions.contains_key(&conv) {
            return Some(session);
        }
        let mut sessions = HashMap::new();
        std::mem::swap(&mut sessions, &mut self.sessions);
        sessions.insert(conv, session);
        self.sessions = sessions;
        None
    }

    /// Forgets the session under `conv` and hands it out, if there is
    /// one.
    pub fn close_conv(&mut self, conv: u32) -> (closed: Option<S>)
        ensures
            final(self)@.next_conv == old(self)@.next_conv,
            final(self)@.sessions == old(self)@.sessions.remove(conv),
            closed == (if old(self).used().contains(conv) {
                Some(old(self)@.sessions[conv])
            } else {
                None
            }),
    {
        proof {
            use_type_invariant(&*self);
        }
        let mut sessions = HashMap::new();
        std::mem::swap(&mut sessions, &mut self.sessions);
        let closed = sessions.remove(&conv);
        self.sessions = sessions;
        closed
    }

    /// Whether a session lives under `conv`.
    pub fn contains(&self, conv: u32) -> (found: bool)
        ensures
            found == self.used().contains(conv),
    {
        self.sessions.contains_key(&conv)
    }

    /// The session that lives under `conv`.
    pub fn get(&self, conv: u32) -> (session: Option<&S>)
        ensures
            session == (if self.used().contains(conv) {
                Some(&self@.sessions[conv])
            } else {
                None
            }),
    {
        self.sessions.get(&conv)
    }
}

/// The numbers `issued` were handed out one after another, each to a
/// session that was then kept: the first is [`fresh`] for `used` and
/// `start`, the next for what is then in use, and so on.
pub open spec fn issued_in_turn(used: Set<u32>, start: u32, issued: Seq<u32>) -> bool
    decreases issued.len(),
{
    issued.len() == 0 || (fresh(used, start, issued[0]) && issued_in_turn(
        used.insert(issued[0]),
        successor(issued[0]),
        issued.drop_first(),
    ))
}

/// Conversation numbers handed out to a run of new peers are never `0`,
/// never one that was in use, and never the same twice.
pub proof fn lemma_issued_convs_differ(used: Set<u32>, start: u32, issued: Seq<u32>)
    requires
        issued_in_turn(used, start, issued),
    ensures
        forall|i: int| 0 <= i < issued.len() ==> issued[i] != UNASSIGNED,
        forall|i: int| 0 <= i < issued.len() ==> !used.contains(issued[i]),
        forall|i: int, j: int| 0 <= i < j < issued.len() ==> issued[i] != issued[j],
    decreases issued.len(),
{
    if issued.len() > 0 {
        let rest = issued.drop_first();
        lemma_issued_convs_differ(used.insert(issued[0]), successor(issued[0]), rest);
        assert forall|i: int| 0 <= i < issued.len() implies issued[i] != UNASSIGNED
            && !used.contains(issued[i]) by {
            if i > 0 {
                assert(rest[i - 1] == issued[i]);
            }
        }
        assert forall|i: int, j: int| 0 <= i < j < issued.len() implies issued[i]
            != issued[j] by {
            assert(rest[j - 1] == issued[j]);
            if i > 0 {
                assert(rest[i - 1] == issued[i]);
            }
        }
    }
}

/// Only one number can be the fresh one.
pub proof fn lemma_fresh_is_unique(used: Set<u32>, start: u32, a: u32, b: u32)
    requires
        start != UNASSIGNED,
        fresh(used, start, a),
        fresh(used, start, b),
    ensures
        a == b,
{
    if a != b {
    }
}

/// As long as every number in use lies below the start of the search,
/// the number handed out is that start: the numbers count up, whichever
/// sessions have been closed in between.
pub proof fn lemma_counter_counts_up(used: Set<u32>, start: u32, conv: u32)
    requires
        start != UNASSIGNED,
        forall|x: u32| used.contains(x) ==> x < start,
        fresh(used, start, conv),
    ensures
        conv == start,
{
    if conv != start {
        assert(tried_before(start, conv, start));
    }
}

/// What happens at a listener whose peers all ask it for a number.
pub enum PeerEvent {
    /// A new peer arrives and is handed a number; its session is kept,
    /// or dropped again where it could not be published.
    Arrives { kept: bool },
    /// The session under this number ends.
    Leaves(u32),
}

/// The number handed out when `used` are taken and trying starts at
/// `start`.
pub open spec fn issue(used: Set<u32>, start: u32) -> u32 {
    choose|conv: u32| fresh(used, start, conv)
}

/// The numbers handed out, in order, over a run of events.
pub open spec fn issued_over(used: Set<u32>, start: u32, events: Seq<PeerEvent>) -> Seq<u32>
    decreases events.len(),
{
    if events.len() == 0 {
        Seq::empty()
    } else {
        match events[0] {
            PeerEvent::Arrives { kept } => {
                let conv = issue(used, start);
                seq![conv] + issued_over(
                    if kept {
                        used.insert(conv)
                    } else {
                        used
                    },
                    successor(conv),
                    events.drop_first(),
                )
            },
            PeerEvent::Leaves(conv) => issued_over(used.remove(conv), start, events.drop_first()),
        }
    }
}

/// While every number in use lies below the start of the search and
/// the numbers do not run out, the numbers handed out count up from that
/// start.
proof fn lemma_counting(used: Set<u32>, start: u32, events: Seq<PeerEvent>)
    requires
        start != UNASSIGNED,
        forall|x: u32| used.contains(x) ==> x < start,
        start + events.len() <= u32::MAX,
    ensures
        issued_over(used, start, events).len() <= events.len(),
        forall|k: int|
            0 <= k < issued_over(used, start, events).len() ==> issued_over(used, start, events)[k]
                == start + k,
    decreases events.len(),
{
    if events.len() > 0 {
        let rest = events.drop_first();
        match events[0] {
            PeerEvent::Arrives { kept } => {
                assert(fresh(used, start, start));
                let conv = issue(used, start);
                lemma_fresh_is_unique(used, start, conv, start);
                let after = if kept {
                    used.insert(conv)
                } else {
                    used
                };
                lemma_counting(after, successor(conv), rest);
                let tail = issued_over(after, successor(conv), rest);
                let all = issued_over(used, start, events);
                assert forall|k: int| 0 <= k < all.len() implies all[k] == start + k by {
                    if k > 0 {
                    }
                }
            },
            PeerEvent::Leaves(conv) => {
                lemma_counting(used.remove(conv), start, rest);
            },
        }
    }
}

/// A new listener hands out `1`, `2`, `3` and so on to the peers that ask
/// it for a number, whichever sessions are dropped or end in between:
/// over fewer events than there are numbers, no number is handed out
/// twice, and none is `0`.
pub proof fn lemma_new_listener_counts_up(events: Seq<PeerEvent>)
    requires
        events.len() < u32::MAX,
    ensures
        forall|k: int|
            0 <= k < issued_over(Set::empty(), 1, events).len() ==> issued_over(
                Set::empty(),
                1,
                events,
            )[k] == k + 1,
        issued_over(Set::empty(), 1, events).no_duplicates(),
        !issued_over(Set::empty(), 1, events).contains(UNASSIGNED),
{
    lemma_counting(Set::empty(), 1, events);
}

} // verus!
