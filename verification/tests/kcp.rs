use fourth::plugins::kcp::listener::{
    dispatch, settle, Admission, ACCEPT_BACKLOG, PACKET_BUFFER_LEN,
};
use fourth::plugins::kcp::packet::{packet_conv, stamp_conv, HEADER_LEN};
use fourth::plugins::kcp::session::KcpSessionManager;
use fourth::plugins::kcp::skcp::{
    asks_for_conv, write_verdict, InputOutcome, InputStep, KcpSocket, RecvOutcome, RecvStep, SendOutcome,
    SendStep, TransportStatus, WriteVerdict,
};

fn datagram(conv: u32) -> Vec<u8> {
    let mut packet = vec![0xabu8; 30];
    packet[..4].copy_from_slice(&conv.to_le_bytes());
    packet
}

#[test]
fn conv_is_read_little_endian_from_the_front() {
    let mut packet = vec![0u8; HEADER_LEN];
    packet[0] = 0x78;
    packet[1] = 0x56;
    packet[2] = 0x34;
    packet[3] = 0x12;
    assert_eq!(packet_conv(&packet), Some(0x1234_5678));
    assert_eq!(packet_conv(&datagram(1)), Some(1));
    assert_eq!(packet_conv(&datagram(u32::MAX)), Some(u32::MAX));
}

#[test]
fn short_datagrams_have_no_conv() {
    assert_eq!(packet_conv(&[]), None);
    assert_eq!(packet_conv(&[1, 0, 0, 0]), None);
    assert_eq!(packet_conv(&vec![1u8; HEADER_LEN - 1]), None);
}

#[test]
fn stamp_conv_rewrites_only_the_first_four_bytes() {
    let mut packet = datagram(0);
    assert!(stamp_conv(&mut packet, 0x0a0b_0c0d));
    assert_eq!(&packet[..4], &[0x0d, 0x0c, 0x0b, 0x0a]);
    assert!(packet[4..].iter().all(|b| *b == 0xab));
    assert_eq!(packet_conv(&packet), Some(0x0a0b_0c0d));
    let mut short = vec![9u8; 10];
    assert!(!stamp_conv(&mut short, 5));
    assert_eq!(short, vec![9u8; 10]);
}

#[test]
fn numbers_are_handed_out_from_one_upwards() {
    let mut sessions: KcpSessionManager<&str> = KcpSessionManager::new();
    assert_eq!(sessions.len(), 0);
    assert!(!sessions.is_full());
    assert_eq!(sessions.alloc_conv(), 1);
    assert_eq!(sessions.alloc_conv(), 2);
    assert_eq!(sessions.alloc_conv(), 3);
}

#[test]
fn numbers_in_use_are_skipped() {
    let mut sessions = KcpSessionManager::new();
    assert_eq!(sessions.insert(1, "a"), None);
    assert_eq!(sessions.insert(2, "b"), None);
    assert_eq!(sessions.insert(4, "c"), None);
    assert_eq!(sessions.alloc_conv(), 3);
    assert_eq!(sessions.alloc_conv(), 5);
}

#[test]
fn issued_numbers_are_distinct_and_never_zero() {
    let mut sessions = KcpSessionManager::new();
    sessions.insert(3, 0usize);
    sessions.insert(10, 0usize);
    let mut issued = Vec::new();
    for round in 0..200usize {
        let conv = sessions.alloc_conv();
        assert_ne!(conv, 0);
        assert!(!sessions.contains(conv));
        assert!(!issued.contains(&conv));
        issued.push(conv);
        assert_eq!(sessions.insert(conv, round), None);
    }
    assert_eq!(sessions.len(), 202);
}

#[test]
fn zero_is_never_stored_and_a_number_holds_one_session() {
    let mut sessions = KcpSessionManager::new();
    assert_eq!(sessions.insert(0, "zero"), Some("zero"));
    assert_eq!(sessions.len(), 0);
    assert_eq!(sessions.insert(7, "first"), None);
    assert_eq!(sessions.insert(7, "second"), Some("second"));
    assert_eq!(sessions.get(7), Some(&"first"));
    assert_eq!(sessions.len(), 1);
}

#[test]
fn close_conv_removes_the_session() {
    let mut sessions = KcpSessionManager::new();
    sessions.insert(7, "x");
    assert!(sessions.contains(7));
    assert_eq!(sessions.close_conv(7), Some("x"));
    assert!(!sessions.contains(7));
    assert_eq!(sessions.get(7), None);
    assert_eq!(sessions.close_conv(7), None);
    assert_eq!(sessions.len(), 0);
}

#[test]
fn datagram_without_conv_gets_a_fresh_one_written_in() {
    let mut sessions: KcpSessionManager<u8> = KcpSessionManager::new();
    let mut packet = datagram(0);
    assert_eq!(dispatch(&mut sessions, &mut packet), Admission::Fresh(1));
    assert_eq!(packet_conv(&packet), Some(1));
    assert!(packet[4..].iter().all(|b| *b == 0xab));
    assert!(!sessions.contains(1));
    assert!(settle(&mut sessions, 1, 0, true));
    let mut packet = datagram(0);
    assert_eq!(dispatch(&mut sessions, &mut packet), Admission::Fresh(2));
    assert_eq!(packet_conv(&packet), Some(2));
}

#[test]
fn datagram_with_conv_goes_to_its_session_or_opens_one() {
    let mut sessions: KcpSessionManager<u8> = KcpSessionManager::new();
    let mut packet = datagram(77);
    assert_eq!(dispatch(&mut sessions, &mut packet), Admission::Fresh(77));
    assert_eq!(packet, datagram(77));
    assert!(settle(&mut sessions, 77, 5, true));
    assert_eq!(dispatch(&mut sessions, &mut packet), Admission::Existing(77));
    assert_eq!(packet, datagram(77));
    assert_eq!(sessions.get(77), Some(&5));
}

#[test]
fn short_datagram_is_ignored() {
    let mut sessions: KcpSessionManager<u8> = KcpSessionManager::new();
    let mut packet = vec![0u8; 23];
    assert_eq!(dispatch(&mut sessions, &mut packet), Admission::Ignore);
    assert_eq!(packet, vec![0u8; 23]);
    assert_eq!(sessions.alloc_conv(), 1);
}

#[test]
fn session_that_cannot_be_published_is_dropped() {
    let mut sessions: KcpSessionManager<u8> = KcpSessionManager::new();
    assert!(!settle(&mut sessions, 9, 1, false));
    assert!(!sessions.contains(9));
    assert!(settle(&mut sessions, 9, 2, true));
    assert!(!settle(&mut sessions, 9, 3, true));
    assert_eq!(sessions.get(9), Some(&2));
    assert!(!settle(&mut sessions, 0, 4, true));
    assert_eq!(sessions.len(), 1);
}

#[test]
fn listener_limits() {
    assert_eq!(ACCEPT_BACKLOG, 1024);
    assert_eq!(PACKET_BUFFER_LEN, 65536);
}

fn status(wait_snd: usize, snd_wnd: u16, waiting_conv: bool, peek_size: Option<usize>) -> TransportStatus {
    TransportStatus { wait_snd, snd_wnd, waiting_conv, mss: 1376, peek_size }
}

#[test]
fn closed_session_sends_and_receives_nothing() {
    let mut socket: KcpSocket<u8> = KcpSocket::new(false, false);
    assert!(!socket.is_closed());
    assert_eq!(socket.try_recv(), None);
    let woken = socket.close();
    assert!(!woken.woke());
    assert!(socket.is_closed());
    assert_eq!(socket.poll_send(&status(0, 32, false, None), 10, 1), SendStep::Closed);
    assert_eq!(socket.try_recv(), Some(0));
}

#[test]
fn first_send_goes_through_and_is_cut_to_one_segment_while_waiting_for_conv() {
    let mut socket: KcpSocket<u8> = KcpSocket::new(true, false);
    assert_eq!(socket.poll_send(&status(0, 32, true, None), 5000, 1), SendStep::Send(1376));
    assert_eq!(socket.poll_send(&status(0, 32, true, None), 1376, 1), SendStep::Send(1376));
    assert_eq!(socket.poll_send(&status(0, 32, true, None), 100, 1), SendStep::Send(100));
    assert_eq!(socket.poll_send(&status(0, 32, false, None), 5000, 1), SendStep::Send(5000));
    assert_eq!(socket.poll_send(&status(40, 32, false, None), 5000, 1), SendStep::Send(5000));
}

#[test]
fn later_sends_wait_for_room_and_for_the_conv() {
    let mut socket: KcpSocket<u8> = KcpSocket::new(true, false);
    assert!(socket.sent());
    assert_eq!(socket.poll_send(&status(31, 32, false, None), 5000, 1), SendStep::Send(5000));
    assert_eq!(socket.poll_send(&status(32, 32, false, None), 10, 1), SendStep::Blocked);
    assert_eq!(socket.poll_send(&status(0, 32, true, None), 10, 2), SendStep::Blocked);
    let woken = socket.try_wake_pending_waker(&status(32, 32, false, None));
    assert!(!woken.woke());
    let woken = socket.try_wake_pending_waker(&status(0, 32, true, None));
    assert!(!woken.woke());
    let woken = socket.try_wake_pending_waker(&status(31, 32, false, None));
    assert!(woken.woke());
    assert_eq!(woken.sender, Some(2));
    assert_eq!(woken.receiver, None);
    let again = socket.try_wake_pending_waker(&status(0, 32, false, None));
    assert!(!again.woke());
}

#[test]
fn sent_reports_the_flush_setting() {
    let mut eager: KcpSocket<u8> = KcpSocket::new(true, false);
    assert!(eager.sent());
    let mut lazy: KcpSocket<u8> = KcpSocket::new(false, true);
    assert!(!lazy.sent());
}

#[test]
fn reader_waits_on_an_empty_queue_and_is_woken_by_a_message() {
    let mut socket: KcpSocket<u8> = KcpSocket::new(false, false);
    assert_eq!(socket.poll_recv(RecvOutcome::Received(12), 1), RecvStep::Ready(12));
    assert_eq!(socket.poll_recv(RecvOutcome::Failed, 1), RecvStep::Failed);
    assert!(!socket.try_wake_pending_waker(&status(0, 32, false, Some(5))).woke());
    assert_eq!(socket.poll_recv(RecvOutcome::QueueEmpty, 3), RecvStep::Blocked);
    assert_eq!(socket.poll_recv(RecvOutcome::QueueEmpty, 4), RecvStep::Blocked);
    assert!(!socket.try_wake_pending_waker(&status(40, 32, false, None)).woke());
    assert!(!socket.try_wake_pending_waker(&status(40, 32, false, Some(0))).woke());
    let woken = socket.try_wake_pending_waker(&status(40, 32, false, Some(5)));
    assert_eq!(woken.receiver, Some(4));
    assert_eq!(woken.sender, None);
    assert!(!socket.try_wake_pending_waker(&status(40, 32, false, Some(5))).woke());
}

#[test]
fn close_wakes_both_waiters() {
    let mut socket: KcpSocket<u8> = KcpSocket::new(false, false);
    socket.sent();
    assert_eq!(socket.poll_send(&status(32, 32, false, None), 10, 1), SendStep::Blocked);
    assert_eq!(socket.poll_recv(RecvOutcome::QueueEmpty, 2), RecvStep::Blocked);
    let woken = socket.close();
    assert_eq!(woken.sender, Some(1));
    assert_eq!(woken.receiver, Some(2));
    assert!(socket.is_closed());
    assert!(!socket.close().woke());
}

#[test]
fn input_outcomes() {
    let plain: KcpSocket<u8> = KcpSocket::new(false, false);
    let flushing: KcpSocket<u8> = KcpSocket::new(false, true);
    assert_eq!(plain.input(InputOutcome::Accepted), InputStep::Accepted { flush_ack: false });
    assert_eq!(flushing.input(InputOutcome::Accepted), InputStep::Accepted { flush_ack: true });
    assert_eq!(plain.input(InputOutcome::ConvMismatch), InputStep::Ignored);
    assert_eq!(flushing.input(InputOutcome::Failed), InputStep::Failed);
}

#[test]
fn blocked_datagram_is_deferred_and_counted_whole() {
    assert_eq!(write_verdict(SendOutcome::Sent(100), 120), WriteVerdict::Written(100));
    assert_eq!(write_verdict(SendOutcome::WouldBlock, 120), WriteVerdict::Deferred(120));
    assert_eq!(write_verdict(SendOutcome::Failed, 120), WriteVerdict::Failed);
}

#[test]
fn session_can_be_let_go_once_nothing_waits() {
    assert!(status(0, 32, false, None).can_close());
    assert!(!status(1, 32, false, None).can_close());
}

#[test]
fn closed_session_is_finished_once_everything_is_acknowledged() {
    let mut socket: KcpSocket<u8> = KcpSocket::new(false, false);
    assert!(!socket.is_finished(&status(0, 32, false, None)));
    socket.close();
    assert!(!socket.is_finished(&status(3, 32, false, None)));
    assert!(socket.is_finished(&status(0, 32, false, None)));
}

#[test]
fn only_a_session_without_conv_asks_for_one() {
    assert!(asks_for_conv(0));
    assert!(!asks_for_conv(1));
    assert!(!asks_for_conv(u32::MAX));
}

#[test]
fn closed_session_reads_zero_whatever_the_transport_made_of_it() {
    let mut socket: KcpSocket<u8> = KcpSocket::new(false, false);
    socket.sent();
    assert_eq!(socket.poll_send(&status(32, 32, false, None), 10, 1), SendStep::Blocked);
    assert_eq!(socket.poll_recv(RecvOutcome::QueueEmpty, 2), RecvStep::Blocked);
    let woken = socket.close();
    assert_eq!(woken.sender, Some(1));
    assert_eq!(woken.receiver, Some(2));

    assert_eq!(socket.poll_recv(RecvOutcome::QueueEmpty, 7), RecvStep::Ready(0));
    assert_eq!(socket.poll_recv(RecvOutcome::Received(12), 8), RecvStep::Ready(0));
    assert_eq!(socket.poll_recv(RecvOutcome::Failed, 9), RecvStep::Ready(0));
    assert_eq!(socket.try_recv(), Some(0));
    assert_eq!(socket.poll_send(&status(32, 32, false, None), 10, 3), SendStep::Closed);
    assert_eq!(socket.poll_send(&status(0, 32, false, None), 10, 4), SendStep::Closed);

    // Nothing was registered by any of these, and closing again wakes nobody.
    assert!(!socket.try_wake_pending_waker(&status(0, 32, false, Some(5))).woke());
    let again = socket.close();
    assert_eq!(again.sender, None);
    assert_eq!(again.receiver, None);
    assert!(socket.is_closed());
}

#[test]
fn close_without_waiters_wakes_nobody() {
    let mut socket: KcpSocket<u8> = KcpSocket::new(true, true);
    let woken = socket.close();
    assert!(!woken.woke());
    assert_eq!(socket.poll_recv(RecvOutcome::QueueEmpty, 1), RecvStep::Ready(0));
    assert!(!socket.close().woke());
}
