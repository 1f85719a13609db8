//! Extension discovery: one request per distinct name, memoized forever.

use x11rb::connection::{Connection, ExtensionLookup};
use x11rb::errors::ConnectionError;
use x11rb::extension::{parse_query_extension_reply, ExtensionInfo};
use x11rb::fdqueue::RawFdContainer;

fn no_fds() -> Vec<RawFdContainer> {
    Vec::new()
}

/// A discovery reply for the given wire sequence.
fn query_extension_reply(wire_seq: u16, info: Option<ExtensionInfo>) -> Vec<u8> {
    let mut p = vec![0u8; 32];
    p[0] = 1;
    p[2] = (wire_seq % 256) as u8;
    p[3] = (wire_seq / 256) as u8;
    if let Some(info) = info {
        p[8] = 1;
        p[9] = info.major_opcode;
        p[10] = info.first_event;
        p[11] = info.first_error;
    }
    p
}

#[test]
fn discovery_is_sent_exactly_once_per_name() {
    let mut conn = Connection::new();
    let name = b"DRI3".to_vec();
    let first = conn.extension_information(&name).unwrap();
    let cookie = match first {
        ExtensionLookup::InFlight { cookie } => cookie,
        other => panic!("expected an in-flight query, got {:?}", other),
    };
    assert_eq!(cookie.sequence, 1);
    let sent_len = conn.outgoing.len();
    assert!(sent_len > 0);

    // Asking again re-answers in flight without sending a second request.
    let second = conn.extension_information(&name).unwrap();
    match second {
        ExtensionLookup::InFlight { cookie: c2 } => assert_eq!(c2, cookie),
        other => panic!("expected the same in-flight query, got {:?}", other),
    }
    assert_eq!(conn.outgoing.len(), sent_len);
}

#[test]
fn discovery_request_bytes() {
    let mut conn = Connection::new();
    let name = b"GE".to_vec();
    conn.extension_information(&name).unwrap();
    // Major opcode 98, unused byte, length 3 (12 bytes), name length 2,
    // two bytes of padding, the name, padding to 4 bytes.
    assert_eq!(
        conn.outgoing,
        vec![98, 0, 3, 0, 2, 0, 0, 0, b'G', b'E', 0, 0]
    );
}

#[test]
fn discovery_reply_resolves_to_present() {
    let mut conn = Connection::new();
    let name = b"DRI3".to_vec();
    let cookie = match conn.extension_information(&name).unwrap() {
        ExtensionLookup::InFlight { cookie } => cookie,
        other => panic!("unexpected {:?}", other),
    };
    let info = ExtensionInfo { major_opcode: 130, first_event: 80, first_error: 150 };
    let reply = query_extension_reply(1, Some(info));
    let mut discarded = Vec::new();
    conn.feed(&reply, &no_fds(), &mut discarded).unwrap();
    let packet = conn.poll_for_reply(cookie).unwrap();
    let parsed = parse_query_extension_reply(&packet).unwrap();
    assert_eq!(parsed, Some(info));
    conn.record_extension(&name, parsed);
    match conn.extension_information(&name).unwrap() {
        ExtensionLookup::Known { info: got } => assert_eq!(got, Some(info)),
        other => panic!("expected a cached answer, got {:?}", other),
    }
}

#[test]
fn absent_extension_is_memoized_and_short_circuits() {
    let mut conn = Connection::new();
    let name = x11rb::dri3::extension_name();
    let cookie = match conn.extension_information(&name).unwrap() {
        ExtensionLookup::InFlight { cookie } => cookie,
        other => panic!("unexpected {:?}", other),
    };
    let reply = query_extension_reply(1, None);
    let mut discarded = Vec::new();
    conn.feed(&reply, &no_fds(), &mut discarded).unwrap();
    let packet = conn.poll_for_reply(cookie).unwrap();
    let parsed = parse_query_extension_reply(&packet).unwrap();
    assert_eq!(parsed, None);
    conn.record_extension(&name, parsed);

    // A request of the absent extension fails before anything is sent.
    let sent_len = conn.outgoing.len();
    let r = x11rb::dri3::query_version(&mut conn, 1, 2);
    assert_eq!(r, Err(ConnectionError::UnsupportedExtension));
    assert_eq!(conn.outgoing.len(), sent_len);
}

#[test]
fn request_while_discovery_in_flight_fails_in_flight() {
    let mut conn = Connection::new();
    let r = x11rb::dri3::query_version(&mut conn, 1, 2);
    // The first call itself queues the discovery request.
    assert_eq!(r, Err(ConnectionError::ExtensionQueryInFlight));
    let sent_len = conn.outgoing.len();
    assert!(sent_len > 0);
    let again = x11rb::dri3::query_version(&mut conn, 1, 2);
    assert_eq!(again, Err(ConnectionError::ExtensionQueryInFlight));
    assert_eq!(conn.outgoing.len(), sent_len);
}

#[test]
fn parse_query_extension_reply_errors() {
    let short = vec![1u8; 16];
    assert_eq!(
        parse_query_extension_reply(&short),
        Err(x11rb::errors::ParseError::InsufficientData)
    );
    let mut not_reply = vec![0u8; 32];
    not_reply[0] = 0;
    assert_eq!(
        parse_query_extension_reply(&not_reply),
        Err(x11rb::errors::ParseError::InvalidValue)
    );
}

#[test]
fn reverse_lookup_finds_the_owning_extension() {
    let mut conn = Connection::new();
    let a = ExtensionInfo { major_opcode: 130, first_event: 64, first_error: 140 };
    let b = ExtensionInfo { major_opcode: 131, first_event: 80, first_error: 150 };
    for (name, info) in [(b"A".to_vec(), a), (b"B".to_vec(), b)] {
        match conn.extension_information(&name).unwrap() {
            ExtensionLookup::InFlight { .. } => {}
            other => panic!("unexpected {:?}", other),
        }
        conn.record_extension(&name, Some(info));
    }
    // An event code in [80, ...) belongs to the extension based at 80.
    assert_eq!(conn.extensions.find_by_event_code(85), Some(b));
    // One in [64, 80) belongs to the one based at 64.
    assert_eq!(conn.extensions.find_by_event_code(70), Some(a));
    // One below every base belongs to no extension.
    assert_eq!(conn.extensions.find_by_event_code(10), None);
    assert_eq!(conn.extensions.find_by_error_code(145), Some(a));
    assert_eq!(conn.extensions.find_by_error_code(151), Some(b));
    assert_eq!(conn.extensions.find_by_error_code(100), None);
}
