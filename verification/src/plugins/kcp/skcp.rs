//! The rules of one KCP session: when it may send, what it hands to a
//! reader, whom it wakes, and what becomes of a datagram it writes.

use vstd::prelude::*;

verus! {

/// What the transport reports of itself at one moment.
#[derive(Debug, Clone, Copy)]
pub struct TransportStatus {
    /// Segments sent or queued and not yet acknowledged.
    pub wait_snd: usize,
    /// The send window, in segments.
    pub snd_wnd: u16,
    /// Whether the peer has yet to assign the conversation number.
    pub waiting_conv: bool,
    /// The most bytes one segment carries.
    pub mss: usize,
    /// The size of the next whole message, where one has arrived.
    pub peek_size: Option<usize>,
}

impl TransportStatus {
    /// The send window has room and the conversation number is known.
    pub open spec fn has_room(&self) -> bool {
        self.wait_snd < self.snd_wnd && !self.waiting_conv
    }

    /// A whole message waits to be read.
    pub open spec fn has_message(&self) -> bool {
        self.peek_size matches Some(n) && n > 0
    }

    /// Whether nothing waits to be acknowledged, so that a closed
    /// session can be let go.
    pub fn can_close(&self) -> (idle: bool)
        ensures
            idle == (self.wait_snd == 0),
    {
        self.wait_snd == 0
    }
}

/// What a [`KcpSocket`] stands for.
pub struct SocketView<W> {
    /// Flush after every send.
    pub flush_write: bool,
    /// Flush acknowledgements after every input.
    pub flush_ack_input: bool,
    /// Something has been sent.
    pub sent_first: bool,
    /// The writer that waits for room.
    pub pending_sender: Option<W>,
    /// The reader that waits for a message.
    pub pending_receiver: Option<W>,
    /// The session is closed.
    pub closed: bool,
}

/// The state of one session beside its transport: its settings, whether
/// it has sent and is closed, and at most one waiting writer and one
/// waiting reader, each known by a waker of type `W`.
#[derive(Debug)]
pub struct KcpSocket<W> {
    flush_write: bool,
    flush_ack_input: bool,
    sent_first: bool,
    pending_sender: Option<W>,
    pending_receiver: Option<W>,
    closed: bool,
}

impl<W> View for KcpSocket<W> {
    type V = SocketView<W>;

    closed spec fn view(&self) -> SocketView<W> {
        SocketView {
            flush_write: self.flush_write,
            flush_ack_input: self.flush_ack_input,
            sent_first: self.sent_first,
            pending_sender: self.pending_sender,
            pending_receiver: self.pending_receiver,
            closed: self.closed,
        }
    }
}

/// What a writer is told.
#[derive(Debug, Clone, Copy, PartialEq, Eq, Structural)]
pub enum SendStep {
    /// The session is closed: report zero bytes written.
    Closed,
    /// No room: the writer's waker is kept, and it waits.
    Blocked,
    /// Hand this many bytes, from the front of the buffer, to the
    /// transport.
    Send(usize),
}

/// A writer has to wait: something was sent before, and the window is
/// full or the conversation number is still unknown.
pub open spec fn must_wait<W>(socket: SocketView<W>, status: TransportStatus) -> bool {
    socket.sent_first && !status.has_room()
}

/// How much of a buffer of `len` bytes is sent: all of it, but no more
/// than one segment in the first send of a session that has yet to learn
/// its conversation number.
pub open spec fn send_len<W>(socket: SocketView<W>, status: TransportStatus, len: usize) -> usize {
    if !socket.sent_first && status.waiting_conv && len > status.mss {
        status.mss
    } else {
        len
    }
}

/// What a writer of `len` bytes is told: nothing is taken on a closed
/// session, a writer that has to wait is blocked, and otherwise the bytes
/// go to the transport.
pub open spec fn send_step<W>(socket: SocketView<W>, status: TransportStatus, len: usize)
    -> SendStep {
    if socket.closed {
        SendStep::Closed
    } else if must_wait(socket, status) {
        SendStep::Blocked
    } else {
        SendStep::Send(send_len(socket, status, len))
    }
}

/// The session after a write was decided on: a blocked writer's waker
/// takes the sender's slot, and nothing else changes.
pub open spec fn after_poll_send<W>(socket: SocketView<W>, status: TransportStatus, waker: W)
    -> SocketView<W> {
    if !socket.closed && must_wait(socket, status) {
        SocketView { pending_sender: Some(waker), ..socket }
    } else {
        socket
    }
}

/// What a reader's attempt on the transport came to.
#[derive(Debug, Clone, Copy, PartialEq, Eq, Structural)]
pub enum RecvOutcome {
    /// A message of this many bytes was copied out.
    Received(usize),
    /// No whole message has arrived.
    QueueEmpty,
    /// The transport failed.
    Failed,
}

/// What a reader is told.
#[derive(Debug, Clone, Copy, PartialEq, Eq, Structural)]
pub enum RecvStep {
    /// This many bytes were read.
    Ready(usize),
    /// Nothing to read: the reader's waker is kept, and it waits.
    Blocked,
    /// Report the transport's error.
    Failed,
}

/// What a reader is told: zero bytes on a closed session, whatever the
/// transport made of the read; on an open one, what the transport read,
/// or to wait where it had nothing.
pub open spec fn recv_step<W>(socket: SocketView<W>, outcome: RecvOutcome) -> RecvStep {
    if socket.closed {
        RecvStep::Ready(0)
    } else {
        match outcome {
            RecvOutcome::Received(n) => RecvStep::Ready(n),
            RecvOutcome::QueueEmpty => RecvStep::Blocked,
            RecvOutcome::Failed => RecvStep::Failed,
        }
    }
}

/// The session after a read was decided on: a blocked reader's waker
/// takes the receiver's slot, and nothing else changes.
pub open spec fn after_poll_recv<W>(socket: SocketView<W>, outcome: RecvOutcome, waker: W)
    -> SocketView<W> {
    if !socket.closed && outcome == RecvOutcome::QueueEmpty {
        SocketView { pending_receiver: Some(waker), ..socket }
    } else {
        socket
    }
}

/// The session after it was closed: closed, with nobody waiting.
pub open spec fn after_close<W>(socket: SocketView<W>) -> SocketView<W> {
    SocketView { closed: true, pending_sender: None, pending_receiver: None, ..socket }
}

/// What feeding a datagram to the transport came to.
#[derive(Debug, Clone, Copy, PartialEq, Eq, Structural)]
pub enum InputOutcome {
    /// The transport took it.
    Accepted,
    /// It belongs to another conversation.
    ConvMismatch,
    /// The transport refused it for another reason.
    Failed,
}

/// What follows on feeding a datagram.
#[derive(Debug, Clone, Copy, PartialEq, Eq, Structural)]
pub enum InputStep {
    /// Nothing: the datagram was not for this session.
    Ignored,
    /// Report the transport's error: it ends the session.
    Failed,
    /// Note the activity, flush acknowledgements where `flush_ack` says
    /// so, then wake whoever can go on.
    Accepted { flush_ack: bool },
}

/// The wakers to wake.
#[derive(Debug)]
pub struct Wakeups<W> {
    pub sender: Option<W>,
    pub receiver: Option<W>,
}

impl<W> Wakeups<W> {
    /// Whether anyone is woken.
    pub fn woke(&self) -> (any: bool)
        ensures
            any == (self.sender is Some || self.receiver is Some),
    {
        self.sender.is_some() || self.receiver.is_some()
    }
}

impl<W> KcpSocket<W> {
    /// The state of a new session: nothing sent, nobody waiting, open.
    pub fn new(flush_write: bool, flush_ack_input: bool) -> (socket: Self)
        ensures
            socket@ == (SocketView::<W> {
                flush_write,
                flush_ack_input,
                sent_first: false,
                pending_sender: None,
                pending_receiver: None,
                closed: false,
            }),
    {
        KcpSocket {
            flush_write,
            flush_ack_input,
            sent_first: false,
            pending_sender: None,
            pending_receiver: None,
            closed: false,
        }
    }

    /// Whether the session is closed.
    pub fn is_closed(&self) -> (closed: bool)
        ensures
            closed == self@.closed,
    {
        self.closed
    }

    /// Whether the session can be let go: it is closed, and nothing
    /// waits to be acknowledged.
    pub fn is_finished(&self, status: &TransportStatus) -> (finished: bool)
        ensures
            finished == (self@.closed && status.wait_snd == 0),
    {
        self.closed && status.can_close()
    }

    /// Decides on a write of `len` bytes. A closed session takes
    /// nothing. A writer that has to wait leaves `waker` in the sender's
    /// slot, in place of any waker that was there. Otherwise the bytes
    /// go to the transport, and `waker` is dropped.
    pub fn poll_send(&mut self, status: &TransportStatus, len: usize, waker: W) -> (step: SendStep)
        ensures
            step == send_step(old(self)@, *status, len),
            final(self)@ == after_poll_send(old(self)@, *status, waker),
    {
        if self.closed {
            return SendStep::Closed;
        }
        if self.sent_first && (status.wait_snd >= status.snd_wnd as usize || status.waiting_conv) {
            self.pending_sender = Some(waker);
            return SendStep::Blocked;
        }
        if !self.sent_first && status.waiting_conv && len > status.mss {
            SendStep::Send(status.mss)
        } else {
            SendStep::Send(len)
        }
    }

    /// Notes that the transport took a write, and says whether to flush
    /// it at once.
    pub fn sent(&mut self) -> (flush: bool)
        ensures
            flush == old(self)@.flush_write,
            final(self)@ == (SocketView { sent_first: true, ..old(self)@ }),
    {
        self.sent_first = true;
        self.flush_write
    }

    /// What a read gives without asking the transport: zero bytes on a
    /// closed session, and no answer on an open one.
    pub fn try_recv(&self) -> (answer: Option<usize>)
        ensures
            answer == (if self@.closed {
                Some(0usize)
            } else {
                None
            }),
    {
        if self.closed {
            Some(0)
        } else {
            None
        }
    }

    /// Decides on a read, given what the transport made of it. A closed
    /// session gives zero bytes whatever the transport made of it, and
    /// keeps no waker. On an open session a reader that found nothing
    /// leaves `waker` in the receiver's slot, in place of any waker that
    /// was there; otherwise `waker` is dropped.
    pub fn poll_recv(&mut self, outcome: RecvOutcome, waker: W) -> (step: RecvStep)
        ensures
            step == recv_step(old(self)@, outcome),
            final(self)@ == after_poll_recv(old(self)@, outcome, waker),
    {
        if self.closed {
            return RecvStep::Ready(0);
        }
        match outcome {
            RecvOutcome::Received(n) => RecvStep::Ready(n),
            RecvOutcome::QueueEmpty => {
                self.pending_receiver = Some(waker);
                RecvStep::Blocked
            },
            RecvOutcome::Failed => RecvStep::Failed,
        }
    }

    /// Decides what follows on feeding a datagram to the transport.
    pub fn input(&self, outcome: InputOutcome) -> (step: InputStep)
        ensures
            step == (match outcome {
                InputOutcome::Accepted => InputStep::Accepted {
                    flush_ack: self@.flush_ack_input,
                },
                InputOutcome::ConvMismatch => InputStep::Ignored,
                InputOutcome::Failed => InputStep::Failed,
            }),
    {
        match outcome {
            InputOutcome::Accepted => InputStep::Accepted { flush_ack: self.flush_ack_input },
            InputOutcome::ConvMismatch => InputStep::Ignored,
            InputOutcome::Failed => InputStep::Failed,
        }
    }

    /// Takes out the wakers of those who can go on: the waiting writer
    /// where the transport has room, the waiting reader where a message
    /// waits. A slot whose waker is taken is empty afterwards; the other
    /// keeps what it holds.
    pub fn try_wake_pending_waker(&mut self, status: &TransportStatus) -> (wakeups: Wakeups<W>)
        ensures
            wakeups.sender == (if status.has_room() {
                old(self)@.pending_sender
            } else {
                None
            }),
            wakeups.receiver == (if status.has_message() {
                old(self)@.pending_receiver
            } else {
                None
            }),
            final(self)@ == (SocketView {
                pending_sender: if status.has_room() {
                    None
                } else {
                    old(self)@.pending_sender
                },
                pending_receiver: if status.has_message() {
                    None
                } else {
                    old(self)@.pending_receiver
                },
                ..old(self)@
            }),
    {
        let sender = if status.wait_snd < status.snd_wnd as usize && !status.waiting_conv {
            self.pending_sender.take()
        } else {
            None
        };
        let readable = match status.peek_size {
            Some(n) => n > 0,
            None => false,
        };
        let receiver = if readable {
            self.pending_receiver.take()
        } else {
            None
        };
        Wakeups { sender, receiver }
    }

    /// Closes the session and takes out both waiting wakers, to be
    /// woken: whoever waits then finds the session closed.
    pub fn close(&mut self) -> (wakeups: Wakeups<W>)
        ensures
            wakeups.sender == old(self)@.pending_sender,
            wakeups.receiver == old(self)@.pending_receiver,
            final(self)@ == after_close(old(self)@),
    {
        self.closed = true;
        let sender = self.pending_sender.take();
        let receiver = self.pending_receiver.take();
        Wakeups { sender, receiver }
    }
}

/// A closed session is silent: a write is told that the session is
/// closed and a read gets zero bytes, whatever the transport reports and
/// whatever the read came to; neither keeps a waker or changes the
/// session in any way. Closing it again changes nothing, and finds
/// nobody to wake.
pub proof fn lemma_closed_session_is_silent<W>(
    socket: SocketView<W>,
    status: TransportStatus,
    len: usize,
    outcome: RecvOutcome,
    waker: W,
)
    ensures
        send_step(after_close(socket), status, len) == SendStep::Closed,
        after_poll_send(after_close(socket), status, waker) == after_close(socket),
        recv_step(after_close(socket), outcome) == RecvStep::Ready(0),
        after_poll_recv(after_close(socket), outcome, waker) == after_close(socket),
        after_close(after_close(socket)) == after_close(socket),
        after_close(socket).pending_sender is None,
        after_close(socket).pending_receiver is None,
{
}

/// Once closed, a session stays closed through every write and read
/// that is decided on.
pub proof fn lemma_closed_stays_closed<W>(
    socket: SocketView<W>,
    status: TransportStatus,
    outcome: RecvOutcome,
    waker: W,
)
    requires
        socket.closed,
    ensures
        after_poll_send(socket, status, waker) == socket,
        after_poll_recv(socket, outcome, waker) == socket,
        after_close(socket).closed,
{
}

/// Whether a session created under `conv` has to ask its peer for a
/// conversation number: it has, when it was given none.
pub fn asks_for_conv(conv: u32) -> (asks: bool)
    ensures
        asks == (conv == 0),
{
    conv == 0
}

/// What became of a datagram handed to the socket.
#[derive(Debug, Clone, Copy, PartialEq, Eq, Structural)]
pub enum SendOutcome {
    /// The socket took this many bytes.
    Sent(usize),
    /// The socket's buffer is full for the moment.
    WouldBlock,
    /// The socket failed.
    Failed,
}

/// What the transport is told about a datagram it wrote.
#[derive(Debug, Clone, Copy, PartialEq, Eq, Structural)]
pub enum WriteVerdict {
    /// This many bytes are written.
    Written(usize),
    /// Put the datagram on the deferred queue, and count all of it as
    /// written: if it is lost after all, the transport sends again.
    Deferred(usize),
    /// Report the socket's error.
    Failed,
}

/// Decides what the transport is told about a datagram of `len` bytes.
pub fn write_verdict(outcome: SendOutcome, len: usize) -> (verdict: WriteVerdict)
    ensures
        verdict == (match outcome {
            SendOutcome::Sent(n) => WriteVerdict::Written(n),
            SendOutcome::WouldBlock => WriteVerdict::Deferred(len),
            SendOutcome::Failed => WriteVerdict::Failed,
        }),
{
    match outcome {
        SendOutcome::Sent(n) => WriteVerdict::Written(n),
        SendOutcome::WouldBlock => WriteVerdict::Deferred(len),
        SendOutcome::Failed => WriteVerdict::Failed,
    }
}

} // verus!
