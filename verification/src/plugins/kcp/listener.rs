//! What a KCP listener does with each datagram that arrives on its
//! socket.

use crate::plugins::kcp::packet::{conv_of, packet_conv, stamp_conv, with_conv, HEADER_LEN};
use crate::plugins::kcp::session::{fresh, successor, KcpSessionManager, UNASSIGNED};
use vstd::prelude::*;

verus! {

/// How many accepted streams may wait to be taken before new sessions
/// are dropped.
pub const ACCEPT_BACKLOG: usize = 1024;

/// How many close notices may wait to be handled.
pub const CLOSE_BACKLOG: usize = 64;

/// The size of the buffer that datagrams are received into.
pub const PACKET_BUFFER_LEN: usize = 65536;

/// How long the listener rests after a failed receive, in seconds.
pub const RECEIVE_RETRY_SECS: u64 = 1;

/// What to do with a datagram.
#[derive(Debug, Clone, Copy, PartialEq, Eq, Structural)]
pub enum Admission {
    /// Drop it.
    Ignore,
    /// Feed it to the session that lives under this number.
    Existing(u32),
    /// Open a session under this number, publish it, then feed it the
    /// datagram.
    Fresh(u32),
}

/// The verdict on a datagram, with the datagram as it is handed on and
/// the place where the next search for a free number starts. One too
/// short for a KCP header is dropped. One that carries a conversation
/// number goes to the session under that number, or opens one. One that
/// carries `0` asks for a number: it gets the [`fresh`] one, written into
/// it, unless every number is taken, in which case it is dropped.
pub open spec fn dispatched(
    used: Set<u32>,
    next_conv: u32,
    packet: Seq<u8>,
    verdict: Admission,
    handed_on: Seq<u8>,
    next_after: u32,
) -> bool {
    if packet.len() < HEADER_LEN {
        verdict == Admission::Ignore && handed_on == packet && next_after == next_conv
    } else if conv_of(packet) != UNASSIGNED {
        &&& verdict == (if used.contains(conv_of(packet)) {
            Admission::Existing(conv_of(packet))
        } else {
            Admission::Fresh(conv_of(packet))
        })
        &&& handed_on == packet
        &&& next_after == next_conv
    } else if used.len() >= u32::MAX {
        verdict == Admission::Ignore && handed_on == packet && next_after == next_conv
    } else {
        &&& verdict matches Admission::Fresh(conv)
        &&& fresh(used, next_conv, conv)
        &&& handed_on == with_conv(packet, conv)
        &&& next_after == successor(conv)
    }
}

/// Decides what to do with a datagram, and writes a fresh conversation
/// number into one that asks for it. The sessions themselves stay as
/// they are: the caller opens the session that [`Admission::Fresh`] asks
/// for and hands it to [`settle`].
pub fn dispatch<S>(sessions: &mut KcpSessionManager<S>, packet: &mut [u8]) -> (verdict: Admission)
    ensures
        final(sessions)@.sessions == old(sessions)@.sessions,
        dispatched(
            old(sessions).used(),
            old(sessions)@.next_conv,
            old(packet)@,
            verdict,
            final(packet)@,
            final(sessions)@.next_conv,
        ),
        verdict matches Admission::Fresh(conv) ==> conv != UNASSIGNED && !old(
            sessions,
        ).used().contains(conv),
        verdict matches Admission::Existing(conv) ==> old(sessions).used().contains(conv),
{
    match packet_conv(packet) {
        None => Admission::Ignore,
        Some(conv) => {
            if conv != UNASSIGNED {
                if sessions.contains(conv) {
                    Admission::Existing(conv)
                } else {
                    Admission::Fresh(conv)
                }
            } else if sessions.is_full() {
                Admission::Ignore
            } else {
                let conv = sessions.alloc_conv();
                stamp_conv(packet, conv);
                Admission::Fresh(conv)
            }
        },
    }
}

/// Settles a session that was opened for [`Admission::Fresh`]: it is
/// kept where it could be published on the accept queue, and dropped
/// where it could not. Says whether it was kept, that is, whether the
/// datagram is to be fed to it.
pub fn settle<S>(sessions: &mut KcpSessionManager<S>, conv: u32, session: S, published: bool) -> (kept:
    bool)
    ensures
        final(sessions)@.next_conv == old(sessions)@.next_conv,
        kept == (published && conv != UNASSIGNED && !old(sessions).used().contains(conv)),
        final(sessions)@.sessions == (if kept {
            old(sessions)@.sessions.insert(conv, session)
        } else {
            old(sessions)@.sessions
        }),
{
    if !published {
        return false;
    }
    sessions.insert(conv, session).is_none()
}

} // verus!
