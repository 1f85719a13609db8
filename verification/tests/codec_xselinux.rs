//! Exact wire bytes of the security-context extension's codecs.

use x11rb::connection::Connection;
use x11rb::errors::ParseError;
use x11rb::extension::ExtensionInfo;
use x11rb::xselinux::{
    extension_name, get_client_context, get_property_context, get_window_context, list_properties,
    list_selections, set_device_context, set_device_create_context, GetClientContextReply,
    GetDeviceContextReply, GetDeviceCreateContextRequest, GetWindowContextRequest, ListItem,
    ListPropertiesReply, ListSelectionsReply, QueryVersionReply, QueryVersionRequest,
    SetDeviceContextRequest, SetDeviceCreateContextRequest,
};

/// A connection whose cache already knows this extension under opcode 131.
fn selinux_connected() -> Connection {
    let mut conn = Connection::new();
    let name = extension_name();
    conn.extension_information(&name).unwrap();
    conn.record_extension(
        &name,
        Some(ExtensionInfo { major_opcode: 131, first_event: 0, first_error: 0 }),
    );
    conn
}

#[test]
fn selinux_query_version_request_bytes() {
    let req = QueryVersionRequest { client_major: 1, client_minor: 0 };
    assert_eq!(req.serialize(131), vec![131, 0, 2, 0, 1, 0, 0, 0]);
    assert_eq!(QueryVersionRequest::opcode(), 0);
}

#[test]
fn selinux_query_version_reply_fields() {
    let mut b = vec![0u8; 32];
    b[0] = 1;
    b[2] = 5;
    b[8] = 1; // server major
    b[10] = 1; // server minor
    let (reply, used) = QueryVersionReply::try_parse(&b).unwrap();
    assert_eq!(used, 12);
    assert_eq!(reply.sequence, 5);
    assert_eq!(reply.server_major, 1);
    assert_eq!(reply.server_minor, 1);
    let short = vec![0u8; 8];
    assert_eq!(QueryVersionReply::try_parse(&short), Err(ParseError::ParseError));
}

#[test]
fn set_device_create_context_pads_the_context() {
    let req = SetDeviceCreateContextRequest { context: b"abc".to_vec() };
    // 8 fixed bytes + 3 context bytes + 1 padding byte = 12 bytes.
    assert_eq!(
        req.serialize(131),
        vec![131, 1, 3, 0, 3, 0, 0, 0, b'a', b'b', b'c', 0]
    );
    let mut conn = selinux_connected();
    let before = conn.outgoing.len();
    set_device_create_context(&mut conn, &b"abc".to_vec()).unwrap();
    assert_eq!(
        conn.outgoing[before..].to_vec(),
        vec![131, 1, 3, 0, 3, 0, 0, 0, b'a', b'b', b'c', 0]
    );
}

#[test]
fn set_device_context_carries_device_and_context() {
    let req = SetDeviceContextRequest { device: 0x20, context: b"sysadm_u".to_vec() };
    // 12 fixed bytes + 8 context bytes, already aligned.
    let bytes = req.serialize(131);
    assert_eq!(bytes.len(), 20);
    assert_eq!(bytes[..12].to_vec(), vec![131, 3, 5, 0, 0x20, 0, 0, 0, 8, 0, 0, 0]);
    assert_eq!(&bytes[12..], b"sysadm_u");
    let mut conn = selinux_connected();
    let before = conn.outgoing.len();
    set_device_context(&mut conn, 0x20, &b"sysadm_u".to_vec()).unwrap();
    assert_eq!(conn.outgoing[before..].to_vec(), bytes);
}

#[test]
fn no_argument_get_requests_are_one_unit() {
    let req = GetDeviceCreateContextRequest {};
    assert_eq!(req.serialize(131), vec![131, 2, 1, 0]);
    assert_eq!(GetDeviceCreateContextRequest::opcode(), 2);
}

#[test]
fn get_window_context_request_bytes() {
    let req = GetWindowContextRequest { window: 0x600001 };
    assert_eq!(req.serialize(131), vec![131, 7, 2, 0, 1, 0, 0x60, 0]);
    let mut conn = selinux_connected();
    let before = conn.outgoing.len();
    get_window_context(&mut conn, 0x600001).unwrap();
    assert_eq!(conn.outgoing[before..].to_vec(), vec![131, 7, 2, 0, 1, 0, 0x60, 0]);
}

#[test]
fn get_property_context_request_bytes() {
    let mut conn = selinux_connected();
    let before = conn.outgoing.len();
    get_property_context(&mut conn, 0x600001, 39).unwrap();
    assert_eq!(
        conn.outgoing[before..].to_vec(),
        vec![131, 12, 3, 0, 1, 0, 0x60, 0, 39, 0, 0, 0]
    );
}

#[test]
fn get_client_context_request_bytes() {
    let mut conn = selinux_connected();
    let before = conn.outgoing.len();
    get_client_context(&mut conn, 0x2200000).unwrap();
    assert_eq!(
        conn.outgoing[before..].to_vec(),
        vec![131, 22, 2, 0, 0, 0, 0x20, 0x02]
    );
}

/// A context-carrying reply holding the given context bytes.
fn context_reply(wire_seq: u16, context: &[u8]) -> Vec<u8> {
    let mut b = vec![0u8; 32 + context.len()];
    b[0] = 1;
    b[2] = (wire_seq % 256) as u8;
    b[3] = (wire_seq / 256) as u8;
    b[8] = context.len() as u8;
    b[32..].copy_from_slice(context);
    b
}

#[test]
fn context_replies_carry_their_context() {
    let b = context_reply(4, b"user_u:object_r:default_t");
    let (reply, used) = GetDeviceContextReply::try_parse(&b).unwrap();
    assert_eq!(used, 32 + 25);
    assert_eq!(reply.sequence, 4);
    assert_eq!(reply.context, b"user_u:object_r:default_t".to_vec());
    assert_eq!(reply.context_len(), 25);

    let (reply2, _) = GetClientContextReply::try_parse(&b).unwrap();
    assert_eq!(reply2.context, reply.context);

    // A reply shorter than its declared context does not parse.
    let truncated = b[..40].to_vec();
    assert_eq!(
        GetDeviceContextReply::try_parse(&truncated),
        Err(ParseError::ParseError)
    );
}

#[test]
fn list_item_roundtrip() {
    let item = ListItem {
        name: 39,
        object_context: b"obj".to_vec(),
        data_context: b"data!".to_vec(),
    };
    let bytes = item.serialize();
    // 12 fixed bytes, "obj" padded to 4, "data!" padded to 8.
    assert_eq!(bytes.len(), 24);
    assert_eq!(bytes[..12].to_vec(), vec![39, 0, 0, 0, 3, 0, 0, 0, 5, 0, 0, 0]);
    assert_eq!(&bytes[12..16], b"obj\0");
    assert_eq!(&bytes[16..21], b"data!");
    assert_eq!(&bytes[21..], &[0, 0, 0]);
    let (parsed, used) = ListItem::try_parse(&bytes).unwrap();
    assert_eq!(used, 24);
    assert_eq!(parsed, item);
    assert_eq!(item.object_context_len(), 3);
    assert_eq!(item.data_context_len(), 5);
}

#[test]
fn list_properties_reply_parses_consecutive_items() {
    let item1 = ListItem {
        name: 1,
        object_context: b"a".to_vec(),
        data_context: b"bb".to_vec(),
    };
    let item2 = ListItem {
        name: 2,
        object_context: b"".to_vec(),
        data_context: b"cccc".to_vec(),
    };
    let mut b = vec![0u8; 32];
    b[0] = 1;
    b[8] = 2; // properties_len
    let mut items = item1.serialize();
    item2.serialize_into(&mut items);
    b.extend_from_slice(&items);
    let (reply, used) = ListPropertiesReply::try_parse(&b).unwrap();
    assert_eq!(used, b.len());
    assert_eq!(reply.properties, vec![item1, item2]);
    assert_eq!(reply.properties_len(), 2);
    let mut conn = selinux_connected();
    let before = conn.outgoing.len();
    list_properties(&mut conn, 0x600001).unwrap();
    assert_eq!(
        conn.outgoing[before..].to_vec(),
        vec![131, 14, 2, 0, 1, 0, 0x60, 0]
    );
}

#[test]
fn list_selections_reply_parses_items() {
    let item = ListItem {
        name: 31,
        object_context: b"sel".to_vec(),
        data_context: b"seldata".to_vec(),
    };
    let mut b = vec![0u8; 32];
    b[0] = 1;
    b[8] = 1;
    b.extend_from_slice(&item.serialize());
    let (reply, used) = ListSelectionsReply::try_parse(&b).unwrap();
    assert_eq!(used, b.len());
    assert_eq!(reply.selections, vec![item]);
    assert_eq!(reply.selections_len(), 1);
    // A declared item that runs past the buffer does not parse.
    let mut short = b.clone();
    short.truncate(40);
    assert!(ListSelectionsReply::try_parse(&short).is_err());
    let mut conn = selinux_connected();
    let before = conn.outgoing.len();
    list_selections(&mut conn).unwrap();
    assert_eq!(conn.outgoing[before..].to_vec(), vec![131, 21, 1, 0]);
}
