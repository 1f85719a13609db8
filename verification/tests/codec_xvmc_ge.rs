//! Exact wire bytes of the motion-compensation and generic-event codecs.

use x11rb::connection::Connection;
use x11rb::errors::ParseError;
use x11rb::extension::ExtensionInfo;
use x11rb::wire::RequestHeader;

/// A connection whose cache already knows the named extension under the
/// given opcode.
fn with_extension(name: Vec<u8>, major_opcode: u8) -> Connection {
    let mut conn = Connection::new();
    conn.extension_information(&name).unwrap();
    conn.record_extension(
        &name,
        Some(ExtensionInfo { major_opcode, first_event: 0, first_error: 0 }),
    );
    conn
}

#[test]
fn xvmc_query_version_request_bytes() {
    let mut conn = with_extension(x11rb::xvmc::extension_name(), 140);
    let before = conn.outgoing.len();
    x11rb::xvmc::query_version(&mut conn).unwrap();
    assert_eq!(conn.outgoing[before..].to_vec(), vec![140, 0, 1, 0]);
}

#[test]
fn xvmc_query_version_reply_fields() {
    let mut b = vec![0u8; 32];
    b[0] = 1;
    b[8] = 1; // major
    b[12] = 1; // minor
    let (reply, used) = x11rb::xvmc::QueryVersionReply::try_parse(&b).unwrap();
    assert_eq!(used, 16);
    assert_eq!(reply.major, 1);
    assert_eq!(reply.minor, 1);
}

#[test]
fn xvmc_list_surface_types_request_bytes() {
    let mut conn = with_extension(x11rb::xvmc::extension_name(), 140);
    let before = conn.outgoing.len();
    x11rb::xvmc::list_surface_types(&mut conn, 0x5000).unwrap();
    assert_eq!(
        conn.outgoing[before..].to_vec(),
        vec![140, 1, 2, 0, 0, 0x50, 0, 0]
    );
}

#[test]
fn xvmc_create_context_request_bytes() {
    let mut conn = with_extension(x11rb::xvmc::extension_name(), 140);
    let before = conn.outgoing.len();
    x11rb::xvmc::create_context(&mut conn, 1, 2, 3, 720, 576, 9).unwrap();
    assert_eq!(
        conn.outgoing[before..].to_vec(),
        vec![
            140, 2, 6, 0, 1, 0, 0, 0, 2, 0, 0, 0, 3, 0, 0, 0, 208, 2, 64, 2, 9, 0, 0, 0,
        ]
    );
}

#[test]
fn xvmc_destroy_requests_bytes() {
    let mut conn = with_extension(x11rb::xvmc::extension_name(), 140);
    let before = conn.outgoing.len();
    x11rb::xvmc::destroy_context(&mut conn, 7).unwrap();
    x11rb::xvmc::destroy_surface(&mut conn, 8).unwrap();
    x11rb::xvmc::destroy_subpicture(&mut conn, 9).unwrap();
    assert_eq!(
        conn.outgoing[before..].to_vec(),
        vec![
            140, 3, 2, 0, 7, 0, 0, 0, 140, 5, 2, 0, 8, 0, 0, 0, 140, 7, 2, 0, 9, 0, 0, 0,
        ]
    );
}

#[test]
fn xvmc_create_surface_and_subpicture_bytes() {
    let mut conn = with_extension(x11rb::xvmc::extension_name(), 140);
    let before = conn.outgoing.len();
    x11rb::xvmc::create_surface(&mut conn, 5, 6).unwrap();
    x11rb::xvmc::create_subpicture(&mut conn, 10, 11, 12, 32, 16).unwrap();
    assert_eq!(
        conn.outgoing[before..].to_vec(),
        vec![
            140, 4, 3, 0, 5, 0, 0, 0, 6, 0, 0, 0, 140, 6, 5, 0, 10, 0, 0, 0, 11, 0, 0, 0, 12, 0,
            0, 0, 32, 0, 16, 0,
        ]
    );
}

#[test]
fn xvmc_list_subpicture_types_request_bytes() {
    let mut conn = with_extension(x11rb::xvmc::extension_name(), 140);
    let before = conn.outgoing.len();
    x11rb::xvmc::list_subpicture_types(&mut conn, 3, 4).unwrap();
    assert_eq!(
        conn.outgoing[before..].to_vec(),
        vec![140, 8, 3, 0, 3, 0, 0, 0, 4, 0, 0, 0]
    );
}

#[test]
fn surface_info_roundtrip() {
    let info = x11rb::xvmc::SurfaceInfo {
        id: 0x10,
        chroma_format: 2,
        pad0: 0,
        max_width: 1920,
        max_height: 1080,
        subpicture_max_width: 640,
        subpicture_max_height: 480,
        mc_type: 3,
        flags: 1,
    };
    let bytes = info.serialize();
    assert_eq!(bytes.len(), 24);
    assert_eq!(bytes[0], 0x10);
    assert_eq!(bytes[8], 128); // 1920 low byte
    assert_eq!(bytes[9], 7);
    let (parsed, used) = x11rb::xvmc::SurfaceInfo::try_parse(&bytes).unwrap();
    assert_eq!(used, 24);
    assert_eq!(parsed, info);
}

#[test]
fn xvmc_list_surface_types_reply_items() {
    let a = x11rb::xvmc::SurfaceInfo {
        id: 1,
        chroma_format: 1,
        pad0: 0,
        max_width: 64,
        max_height: 64,
        subpicture_max_width: 0,
        subpicture_max_height: 0,
        mc_type: 1,
        flags: 0,
    };
    let b2 = x11rb::xvmc::SurfaceInfo { id: 2, max_width: 128, ..a };
    let mut b = vec![0u8; 32];
    b[0] = 1;
    b[8] = 2; // count
    b.extend_from_slice(&a.serialize());
    b.extend_from_slice(&b2.serialize());
    let (reply, used) = x11rb::xvmc::ListSurfaceTypesReply::try_parse(&b).unwrap();
    assert_eq!(used, 80);
    assert_eq!(reply.surfaces, vec![a, b2]);
}

#[test]
fn xvmc_create_context_reply_reads_private_words() {
    // The private words sit past a 36-byte prefix, as many as the length
    // field declares.
    let mut b = vec![0u8; 44];
    b[0] = 1;
    b[4] = 2; // length: two private words
    b[8] = 208;
    b[9] = 2; // width_actual 720
    b[10] = 64;
    b[11] = 2; // height_actual 576
    b[12] = 5; // flags_return
    b[36] = 0xDE;
    b[40] = 0xAD;
    let (reply, used) = x11rb::xvmc::CreateContextReply::try_parse(&b).unwrap();
    assert_eq!(used, 44);
    assert_eq!(reply.width_actual, 720);
    assert_eq!(reply.height_actual, 576);
    assert_eq!(reply.flags_return, 5);
    assert_eq!(reply.priv_data, vec![0xDE, 0xAD]);
    assert!(x11rb::xvmc::CreateContextReply::try_parse(&b[..40].to_vec()).is_err());
}

#[test]
fn xvmc_create_surface_reply_reads_private_words() {
    let mut b = vec![0u8; 36];
    b[0] = 1;
    b[4] = 1;
    b[32] = 7;
    let (reply, used) = x11rb::xvmc::CreateSurfaceReply::try_parse(&b).unwrap();
    assert_eq!(used, 36);
    assert_eq!(reply.priv_data, vec![7]);
}

#[test]
fn xvmc_create_subpicture_reply_fields() {
    let mut b = vec![0u8; 36];
    b[0] = 1;
    b[4] = 1; // one private word
    b[8] = 32; // width_actual
    b[10] = 16; // height_actual
    b[12] = 4; // num_palette_entries
    b[14] = 3; // entry_bytes
    b[16] = b'Y';
    b[17] = b'U';
    b[18] = b'V';
    b[19] = 0;
    b[32] = 9;
    let (reply, used) = x11rb::xvmc::CreateSubpictureReply::try_parse(&b).unwrap();
    assert_eq!(used, 36);
    assert_eq!(reply.width_actual, 32);
    assert_eq!(reply.height_actual, 16);
    assert_eq!(reply.num_palette_entries, 4);
    assert_eq!(reply.entry_bytes, 3);
    assert_eq!(reply.component_order, [b'Y', b'U', b'V', 0]);
    assert_eq!(reply.priv_data, vec![9]);
}

#[test]
fn ge_query_version_request_bytes() {
    let req = x11rb::ge::QueryVersionRequest {
        client_major_version: 1,
        client_minor_version: 0,
    };
    assert_eq!(req.serialize_impl(135), vec![135, 0, 2, 0, 1, 0, 0, 0]);
    let mut conn = with_extension(x11rb::ge::extension_name(), 135);
    let before = conn.outgoing.len();
    x11rb::ge::query_version(&mut conn, 1, 0).unwrap();
    assert_eq!(conn.outgoing[before..].to_vec(), vec![135, 0, 2, 0, 1, 0, 0, 0]);
}

#[test]
fn ge_try_parse_request_checks_the_minor_opcode() {
    let header = RequestHeader { major_opcode: 135, minor_opcode: 0, remaining_length: 1 };
    let body = vec![2, 0, 1, 0];
    let req = x11rb::ge::QueryVersionRequest::try_parse_request(header, &body).unwrap();
    assert_eq!(req.client_major_version, 2);
    assert_eq!(req.client_minor_version, 1);
    let wrong = RequestHeader { minor_opcode: 9, ..header };
    assert_eq!(
        x11rb::ge::QueryVersionRequest::try_parse_request(wrong, &body),
        Err(ParseError::InvalidValue)
    );
    let short = vec![2, 0];
    assert_eq!(
        x11rb::ge::QueryVersionRequest::try_parse_request(header, &short),
        Err(ParseError::InsufficientData)
    );
}

#[test]
fn ge_query_version_reply_validates_and_consumes_whole_length() {
    let mut b = vec![0u8; 36];
    b[0] = 1;
    b[2] = 2; // sequence
    b[4] = 1; // one extra unit
    b[8] = 1; // major
    b[10] = 0; // minor
    let (reply, used) = x11rb::ge::QueryVersionReply::try_parse(&b).unwrap();
    assert_eq!(used, 36);
    assert_eq!(reply.sequence, 2);
    assert_eq!(reply.major_version, 1);
    assert_eq!(reply.minor_version, 0);

    let mut not_reply = b.clone();
    not_reply[0] = 0;
    assert_eq!(
        x11rb::ge::QueryVersionReply::try_parse(&not_reply),
        Err(ParseError::InvalidValue)
    );
    let short = b[..34].to_vec();
    assert_eq!(
        x11rb::ge::QueryVersionReply::try_parse(&short),
        Err(ParseError::InsufficientData)
    );
}

#[test]
fn ge_major_opcode_answers_from_the_cache() {
    let mut conn = with_extension(x11rb::ge::extension_name(), 135);
    assert_eq!(x11rb::ge::major_opcode(&mut conn), Ok(135));
}
