//! Request/reply correlation on the connection core.

use x11rb::connection::{Connection, VoidStatus};
use x11rb::errors::ConnectionError;
use x11rb::fdqueue::RawFdContainer;

fn error_packet(wire_seq: u16) -> Vec<u8> {
    let mut p = vec![0u8; 32];
    p[0] = 0;
    p[1] = 9;
    p[2] = (wire_seq % 256) as u8;
    p[3] = (wire_seq / 256) as u8;
    p
}

fn reply_packet(wire_seq: u16, extra_units: u32) -> Vec<u8> {
    let mut p = vec![0u8; 32 + 4 * extra_units as usize];
    p[0] = 1;
    p[2] = (wire_seq % 256) as u8;
    p[3] = (wire_seq / 256) as u8;
    p[4] = (extra_units & 0xff) as u8;
    p[5] = ((extra_units >> 8) & 0xff) as u8;
    p
}

fn event_packet(code: u8) -> Vec<u8> {
    let mut p = vec![0u8; 32];
    p[0] = code;
    p
}

fn no_fds() -> Vec<RawFdContainer> {
    Vec::new()
}

#[test]
fn sequence_numbers_count_up_from_one() {
    let mut conn = Connection::new();
    let bytes = vec![0u8; 4];
    let c1 = conn.send_request_with_reply(&bytes, &no_fds()).unwrap();
    let c2 = conn.send_request_with_reply(&bytes, &no_fds()).unwrap();
    let c3 = conn.send_request_without_reply(&bytes, &no_fds()).unwrap();
    assert_eq!(c1.sequence, 1);
    assert_eq!(c2.sequence, 2);
    assert_eq!(c3.sequence, 3);
    assert_eq!(conn.outgoing.len(), 12);
}

#[test]
fn void_error_then_reply() {
    // Request 1 defines no reply, request 2 does; the server answers
    // Error(1) then Reply(2).  Waiting on 2 yields the reply, and the
    // error at 1 is recorded as the connection's last error without
    // blocking 2.
    let mut conn = Connection::new();
    let bytes = vec![0u8; 4];
    let void_cookie = conn.send_request_without_reply(&bytes, &no_fds()).unwrap();
    let reply_cookie = conn.send_request_with_reply(&bytes, &no_fds()).unwrap();
    assert_eq!(void_cookie.sequence, 1);
    assert_eq!(reply_cookie.sequence, 2);

    let mut stream = error_packet(1);
    stream.extend_from_slice(&reply_packet(2, 0));
    let mut discarded = Vec::new();
    conn.feed(&stream, &no_fds(), &mut discarded).unwrap();

    let got = conn.poll_for_reply(reply_cookie).expect("reply must be resolved");
    assert_eq!(got[0], 1);
    assert_eq!(got.len(), 32);

    // The error is recorded as the connection's last error...
    assert_eq!(conn.last_error, Some((1, error_packet(1))));
    // ...and delivered to the void cookie's sequence, claimed exactly once.
    match conn.check_void_request(void_cookie) {
        VoidStatus::ProtocolError { packet } => {
            assert_eq!(packet, error_packet(1));
        }
        other => panic!("expected the recorded error, got {:?}", other),
    }
    match conn.check_void_request(void_cookie) {
        VoidStatus::Completed => {}
        other => panic!("expected completed after the claim, got {:?}", other),
    }
    assert!(discarded.is_empty());
}

#[test]
fn replies_resolve_in_send_order() {
    let mut conn = Connection::new();
    let bytes = vec![0u8; 4];
    let c1 = conn.send_request_with_reply(&bytes, &no_fds()).unwrap();
    let c2 = conn.send_request_with_reply(&bytes, &no_fds()).unwrap();
    let c3 = conn.send_request_with_reply(&bytes, &no_fds()).unwrap();

    let mut stream = reply_packet(1, 0);
    stream.extend_from_slice(&reply_packet(2, 1));
    stream.extend_from_slice(&reply_packet(3, 0));
    let mut discarded = Vec::new();
    conn.feed(&stream, &no_fds(), &mut discarded).unwrap();

    assert!(conn.poll_for_reply(c1).is_some());
    let r2 = conn.poll_for_reply(c2).unwrap();
    assert_eq!(r2.len(), 36);
    assert!(conn.poll_for_reply(c3).is_some());
    assert!(conn.poll_for_reply(c1).is_none());
    assert_eq!(conn.last_read_sequence, 3);
}

#[test]
fn events_are_queued_not_delivered_to_cookies() {
    let mut conn = Connection::new();
    let bytes = vec![0u8; 4];
    let c1 = conn.send_request_with_reply(&bytes, &no_fds()).unwrap();
    let mut stream = event_packet(5);
    stream.extend_from_slice(&reply_packet(1, 0));
    stream.extend_from_slice(&event_packet(6));
    let mut discarded = Vec::new();
    conn.feed(&stream, &no_fds(), &mut discarded).unwrap();
    assert!(conn.poll_for_reply(c1).is_some());
    assert_eq!(conn.poll_for_event().unwrap()[0], 5);
    assert_eq!(conn.poll_for_event().unwrap()[0], 6);
    assert!(conn.poll_for_event().is_none());
}

#[test]
fn generic_event_advances_the_anchor() {
    let mut conn = Connection::new();
    let bytes = vec![0u8; 4];
    let void_cookie = conn.send_request_without_reply(&bytes, &no_fds()).unwrap();
    // A generic event framed like a reply, echoing sequence 1.
    let mut g = vec![0u8; 36];
    g[0] = 35;
    g[2] = 1;
    g[4] = 1;
    let mut discarded = Vec::new();
    conn.feed(&g, &no_fds(), &mut discarded).unwrap();
    assert_eq!(conn.last_read_sequence, 1);
    assert_eq!(conn.poll_for_event().unwrap().len(), 36);
    // The anchor reached 1 but did not pass it; the void request is still
    // pending.
    match conn.check_void_request(void_cookie) {
        VoidStatus::Pending => {}
        other => panic!("expected pending, got {:?}", other),
    }
}

#[test]
fn void_request_completed_once_anchor_passes_it() {
    let mut conn = Connection::new();
    let bytes = vec![0u8; 4];
    let void_cookie = conn.send_request_without_reply(&bytes, &no_fds()).unwrap();
    let reply_cookie = conn.send_request_with_reply(&bytes, &no_fds()).unwrap();
    let mut discarded = Vec::new();
    conn.feed(&reply_packet(2, 0), &no_fds(), &mut discarded).unwrap();
    match conn.check_void_request(void_cookie) {
        VoidStatus::Completed => {}
        other => panic!("expected completed, got {:?}", other),
    }
    assert!(conn.poll_for_reply(reply_cookie).is_some());
}

#[test]
fn unissued_sequence_is_a_fatal_framing_error() {
    let mut conn = Connection::new();
    let bytes = vec![0u8; 4];
    let _ = conn.send_request_with_reply(&bytes, &no_fds()).unwrap();
    // Wire sequence 2 resolves to logical 2, which was never issued.
    let mut discarded = Vec::new();
    let r = conn.feed(&reply_packet(2, 0), &no_fds(), &mut discarded);
    assert_eq!(r, Err(ConnectionError::MalformedPacket));
    assert!(conn.closed);
    let again = conn.feed(&reply_packet(1, 0), &no_fds(), &mut discarded);
    assert_eq!(again, Err(ConnectionError::ConnectionClosed));
}

#[test]
fn shutdown_poisons_the_connection() {
    let mut conn = Connection::new();
    conn.shutdown();
    let bytes = vec![0u8; 4];
    assert_eq!(
        conn.send_request_with_reply(&bytes, &no_fds()),
        Err(ConnectionError::ConnectionClosed)
    );
    let mut discarded = Vec::new();
    assert_eq!(
        conn.feed(&Vec::new(), &no_fds(), &mut discarded),
        Err(ConnectionError::ConnectionClosed)
    );
}

#[test]
fn outstanding_requests_are_capped() {
    let mut conn = Connection::new();
    let bytes = vec![0u8; 4];
    let mut sent = 0u64;
    loop {
        match conn.send_request_with_reply(&bytes, &no_fds()) {
            Ok(_) => sent += 1,
            Err(e) => {
                assert_eq!(e, ConnectionError::TooManyOutstanding);
                break;
            }
        }
        assert!(sent <= 0x4000);
    }
    assert_eq!(sent, 0x4000);
}

#[test]
fn wire_sequence_resolution_wraps_upward() {
    // The smallest logical value at or above the anchor whose low 16 bits
    // match is chosen.
    assert_eq!(x11rb::connection::resolve_sequence(0, 7), 7);
    assert_eq!(x11rb::connection::resolve_sequence(65534, 2), 65538);
    assert_eq!(x11rb::connection::resolve_sequence(65538, 2), 65538);
    assert_eq!(x11rb::connection::resolve_sequence(131070, 2), 131074);
    assert_eq!(x11rb::connection::resolve_sequence(131074, 4), 131076);
}

#[test]
fn reply_with_fds_hands_descriptors_over_in_order() {
    let mut conn = Connection::new();
    let bytes = vec![0u8; 4];
    let cookie = conn.send_request_with_reply_with_fds(&bytes, &no_fds()).unwrap();
    let mut reply = reply_packet(1, 0);
    reply[1] = 2; // the reply declares two descriptors
    let fds = vec![RawFdContainer(10), RawFdContainer(11), RawFdContainer(12)];
    let mut discarded = Vec::new();
    conn.feed(&reply, &fds, &mut discarded).unwrap();
    let (packet, taken) = conn.poll_for_reply_with_fds(cookie).unwrap().unwrap();
    assert_eq!(packet[0], 1);
    assert_eq!(taken, vec![RawFdContainer(10), RawFdContainer(11)]);
    assert_eq!(conn.fd_queue.len(), 1);
}

#[test]
fn reply_declaring_more_fds_than_arrived_is_malformed() {
    let mut conn = Connection::new();
    let bytes = vec![0u8; 4];
    let cookie = conn.send_request_with_reply_with_fds(&bytes, &no_fds()).unwrap();
    let mut reply = reply_packet(1, 0);
    reply[1] = 3;
    let fds = vec![RawFdContainer(10)];
    let mut discarded = Vec::new();
    conn.feed(&reply, &fds, &mut discarded).unwrap();
    // It fails at once rather than waiting for more descriptors.
    let r = conn.poll_for_reply_with_fds(cookie);
    assert_eq!(r, Err(ConnectionError::MalformedPacket));
    assert!(conn.closed);
}

#[test]
fn discarded_cookie_still_drains_descriptors() {
    // Abandoning a cookie does not desynchronize later descriptor
    // consumers: the abandoned reply's declared descriptors are drained
    // when it arrives, and handed back for closing.
    let mut conn = Connection::new();
    let bytes = vec![0u8; 4];
    let abandoned = conn.send_request_with_reply_with_fds(&bytes, &no_fds()).unwrap();
    let kept = conn.send_request_with_reply_with_fds(&bytes, &no_fds()).unwrap();
    let mut discarded = Vec::new();
    conn.discard_reply(abandoned.sequence, &mut discarded);

    let mut reply1 = reply_packet(1, 0);
    reply1[1] = 2;
    let mut reply2 = reply_packet(2, 0);
    reply2[1] = 1;
    let mut stream = reply1;
    stream.extend_from_slice(&reply2);
    let fds = vec![RawFdContainer(20), RawFdContainer(21), RawFdContainer(22)];
    conn.feed(&stream, &fds, &mut discarded).unwrap();

    // The abandoned reply's two descriptors were drained for closing.
    assert_eq!(discarded, vec![RawFdContainer(20), RawFdContainer(21)]);
    // The kept reply gets exactly the next descriptor.
    let (_, taken) = conn.poll_for_reply_with_fds(kept).unwrap().unwrap();
    assert_eq!(taken, vec![RawFdContainer(22)]);
    assert_eq!(conn.fd_queue.len(), 0);
}

#[test]
fn discarding_an_already_resolved_reply_drains_now() {
    let mut conn = Connection::new();
    let bytes = vec![0u8; 4];
    let cookie = conn.send_request_with_reply_with_fds(&bytes, &no_fds()).unwrap();
    let mut reply = reply_packet(1, 0);
    reply[1] = 1;
    let fds = vec![RawFdContainer(30), RawFdContainer(31)];
    let mut discarded = Vec::new();
    conn.feed(&reply, &fds, &mut discarded).unwrap();
    conn.discard_reply(cookie.sequence, &mut discarded);
    assert_eq!(discarded, vec![RawFdContainer(30)]);
    assert!(conn.poll_for_reply(cookie).is_none());
    assert_eq!(conn.fd_queue.len(), 1);
}

#[test]
fn feed_chunking_does_not_change_routing() {
    // The same byte stream, split into reads differently, routes to the
    // same replies, events, and anchor.
    let mut stream = reply_packet(1, 1);
    stream.extend_from_slice(&event_packet(5));
    stream.extend_from_slice(&error_packet(2));
    let mut ends = Vec::new();
    for sizes in [vec![stream.len()], vec![10, 30, 10, 50], vec![1; 100]] {
        assert_eq!(sizes.iter().sum::<usize>(), stream.len());
        let mut conn = Connection::new();
        let bytes = vec![0u8; 4];
        let c1 = conn.send_request_with_reply(&bytes, &no_fds()).unwrap();
        let c2 = conn.send_request_with_reply(&bytes, &no_fds()).unwrap();
        let mut discarded = Vec::new();
        let mut offset = 0;
        for size in sizes {
            let chunk: Vec<u8> = stream[offset..offset + size].to_vec();
            offset += size;
            conn.feed(&chunk, &no_fds(), &mut discarded).unwrap();
        }
        let r1 = conn.poll_for_reply(c1).unwrap();
        let r2 = conn.poll_for_reply(c2).unwrap();
        let ev = conn.poll_for_event().unwrap();
        ends.push((r1, r2, ev, conn.last_read_sequence));
    }
    assert_eq!(ends[0], ends[1]);
    assert_eq!(ends[0], ends[2]);
}

#[test]
fn void_error_survives_later_errors() {
    // A later error overwriting the last-error slot cannot hide an
    // earlier void request's error: each is stored under its sequence.
    let mut conn = Connection::new();
    let bytes = vec![0u8; 4];
    let v1 = conn.send_request_without_reply(&bytes, &no_fds()).unwrap();
    let v2 = conn.send_request_without_reply(&bytes, &no_fds()).unwrap();
    let mut stream = error_packet(1);
    stream.extend_from_slice(&error_packet(2));
    let mut discarded = Vec::new();
    conn.feed(&stream, &no_fds(), &mut discarded).unwrap();
    // The slot holds only the most recent error...
    assert_eq!(conn.last_error, Some((2, error_packet(2))));
    // ...but both void requests still find their own.
    match conn.check_void_request(v1) {
        VoidStatus::ProtocolError { packet } => assert_eq!(packet, error_packet(1)),
        other => panic!("expected the first error, got {:?}", other),
    }
    match conn.check_void_request(v2) {
        VoidStatus::ProtocolError { packet } => assert_eq!(packet, error_packet(2)),
        other => panic!("expected the second error, got {:?}", other),
    }
}

#[test]
fn feed_failure_keeps_earlier_routing() {
    // When a packet bears a sequence never issued, the packets before it
    // were already routed and stay claimable.
    let mut conn = Connection::new();
    let bytes = vec![0u8; 4];
    let c1 = conn.send_request_with_reply(&bytes, &no_fds()).unwrap();
    let mut stream = reply_packet(1, 0);
    stream.extend_from_slice(&reply_packet(2, 0));
    let mut discarded = Vec::new();
    let r = conn.feed(&stream, &no_fds(), &mut discarded);
    assert_eq!(r, Err(ConnectionError::MalformedPacket));
    assert!(conn.closed);
    assert!(discarded.is_empty());
    let got = conn.poll_for_reply(c1).expect("the first reply was routed");
    assert_eq!(got, reply_packet(1, 0));
}
