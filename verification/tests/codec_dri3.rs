//! Exact wire bytes of the direct-rendering extension's codecs.

use x11rb::connection::Connection;
use x11rb::dri3::{
    buffer_from_pixmap, extension_name, fence_from_fd, open, pixmap_from_buffer,
    pixmap_from_buffers, query_version, BufferFromPixmapReply, BuffersFromPixmapReply,
    FDFromFenceReply, FenceFromFDRequest, GetSupportedModifiersReply, GetSupportedModifiersRequest,
    OpenReply, PixmapFromBufferRequest, PixmapFromBuffersRequest, QueryVersionReply,
    QueryVersionRequest,
};
use x11rb::errors::ParseError;
use x11rb::extension::ExtensionInfo;
use x11rb::fdqueue::RawFdContainer;

/// A connection whose cache already knows this extension under opcode 130.
fn connected() -> Connection {
    let mut conn = Connection::new();
    let name = extension_name();
    conn.extension_information(&name).unwrap();
    conn.record_extension(
        &name,
        Some(ExtensionInfo { major_opcode: 130, first_event: 0, first_error: 0 }),
    );
    conn
}

#[test]
fn query_version_request_bytes() {
    let req = QueryVersionRequest { major_version: 1, minor_version: 2 };
    assert_eq!(
        req.serialize(130),
        vec![130, 0, 3, 0, 1, 0, 0, 0, 2, 0, 0, 0]
    );
    assert_eq!(QueryVersionRequest::opcode(), 0);
}

#[test]
fn query_version_goes_out_under_a_fresh_sequence() {
    let mut conn = connected();
    let before = conn.outgoing.len();
    let cookie = query_version(&mut conn, 1, 2).unwrap();
    // The discovery request took sequence 1.
    assert_eq!(cookie.sequence, 2);
    assert_eq!(
        conn.outgoing[before..].to_vec(),
        vec![130, 0, 3, 0, 1, 0, 0, 0, 2, 0, 0, 0]
    );
}

#[test]
fn query_version_reply_parses_exactly() {
    let mut b = vec![0u8; 32];
    b[0] = 1;
    b[2] = 3; // sequence
    b[8] = 1; // major
    b[12] = 3; // minor
    let (reply, used) = QueryVersionReply::try_parse(&b).unwrap();
    assert_eq!(used, 16);
    assert_eq!(reply.response_type, 1);
    assert_eq!(reply.sequence, 3);
    assert_eq!(reply.major_version, 1);
    assert_eq!(reply.minor_version, 3);
    let short = vec![0u8; 10];
    assert_eq!(QueryVersionReply::try_parse(&short), Err(ParseError::ParseError));
}

#[test]
fn open_request_bytes() {
    let mut conn = connected();
    let before = conn.outgoing.len();
    open(&mut conn, 0x01020304, 7).unwrap();
    assert_eq!(
        conn.outgoing[before..].to_vec(),
        vec![130, 1, 3, 0, 4, 3, 2, 1, 7, 0, 0, 0]
    );
}

#[test]
fn open_reply_takes_its_descriptor() {
    let mut b = vec![0u8; 32];
    b[0] = 1;
    b[1] = 1;
    let mut fds = vec![RawFdContainer(42), RawFdContainer(43)];
    let (reply, used) = OpenReply::try_parse_fd(&b, &mut fds).unwrap();
    assert_eq!(used, 32);
    assert_eq!(reply.nfd, 1);
    assert_eq!(reply.device_fd, RawFdContainer(42));
    assert_eq!(fds, vec![RawFdContainer(43)]);
}

#[test]
fn open_reply_without_descriptor_fails() {
    let b = vec![1u8; 32];
    let mut fds = Vec::new();
    assert_eq!(OpenReply::try_parse_fd(&b, &mut fds), Err(ParseError::ParseError));
}

#[test]
fn pixmap_from_buffer_request_bytes() {
    let req = PixmapFromBufferRequest {
        pixmap: 1,
        drawable: 2,
        size: 0x1000,
        width: 640,
        height: 480,
        stride: 2560,
        depth: 24,
        bpp: 32,
        pixmap_fd: RawFdContainer(5),
    };
    let (bytes, fds) = req.serialize(130);
    assert_eq!(
        bytes,
        vec![
            130, 2, 6, 0, 1, 0, 0, 0, 2, 0, 0, 0, 0, 16, 0, 0, 128, 2, 224, 1, 0, 10, 24, 32,
        ]
    );
    assert_eq!(fds, vec![RawFdContainer(5)]);
    let mut conn = connected();
    let before = conn.outgoing.len();
    pixmap_from_buffer(&mut conn, 1, 2, 0x1000, 640, 480, 2560, 24, 32, RawFdContainer(5)).unwrap();
    assert_eq!(conn.outgoing[before..].to_vec(), bytes);
    assert_eq!(conn.outgoing_fds, vec![RawFdContainer(5)]);
}

#[test]
fn buffer_from_pixmap_reply_fields() {
    let mut b = vec![0u8; 32];
    b[0] = 1;
    b[1] = 1;
    b[8] = 0x10; // size
    b[12] = 128; // width low byte
    b[14] = 224;
    b[15] = 1; // height 480
    b[16] = 0;
    b[17] = 10; // stride 2560
    b[18] = 24;
    b[19] = 32;
    let mut fds = vec![RawFdContainer(9)];
    let (reply, used) = BufferFromPixmapReply::try_parse_fd(&b, &mut fds).unwrap();
    assert_eq!(used, 32);
    assert_eq!(reply.size, 0x10);
    assert_eq!(reply.width, 128);
    assert_eq!(reply.height, 480);
    assert_eq!(reply.stride, 2560);
    assert_eq!(reply.depth, 24);
    assert_eq!(reply.bpp, 32);
    assert_eq!(reply.pixmap_fd, RawFdContainer(9));
    assert!(fds.is_empty());
    let mut conn = connected();
    let before = conn.outgoing.len();
    buffer_from_pixmap(&mut conn, 0xAABBCCDD).unwrap();
    assert_eq!(
        conn.outgoing[before..].to_vec(),
        vec![130, 3, 2, 0, 0xDD, 0xCC, 0xBB, 0xAA]
    );
}

#[test]
fn fence_from_fd_request_bytes() {
    let req = FenceFromFDRequest {
        drawable: 3,
        fence: 4,
        initially_triggered: true,
        fence_fd: RawFdContainer(6),
    };
    let (bytes, fds) = req.serialize(130);
    assert_eq!(
        bytes,
        vec![130, 4, 4, 0, 3, 0, 0, 0, 4, 0, 0, 0, 1, 0, 0, 0]
    );
    assert_eq!(fds, vec![RawFdContainer(6)]);
    let untriggered = FenceFromFDRequest { initially_triggered: false, ..req };
    let (bytes2, _) = untriggered.serialize(130);
    assert_eq!(bytes2[12], 0);
    let mut conn = connected();
    let before = conn.outgoing.len();
    fence_from_fd(&mut conn, 3, 4, true, RawFdContainer(6)).unwrap();
    assert_eq!(conn.outgoing[before..].to_vec(), bytes);
}

#[test]
fn fd_from_fence_reply_takes_its_descriptor() {
    let mut b = vec![0u8; 32];
    b[0] = 1;
    b[1] = 1;
    let mut fds = vec![RawFdContainer(77)];
    let (reply, used) = FDFromFenceReply::try_parse_fd(&b, &mut fds).unwrap();
    assert_eq!(used, 32);
    assert_eq!(reply.fence_fd, RawFdContainer(77));
    assert!(fds.is_empty());
}

#[test]
fn get_supported_modifiers_roundtrip() {
    let req = GetSupportedModifiersRequest { window: 0x100, depth: 24, bpp: 32 };
    assert_eq!(
        req.serialize(130),
        vec![130, 6, 3, 0, 0, 1, 0, 0, 24, 32, 0, 0]
    );
    // A reply declaring one window modifier and two screen modifiers.
    let mut b = vec![0u8; 32 + 24];
    b[0] = 1;
    b[8] = 1; // num_window_modifiers
    b[12] = 2; // num_screen_modifiers
    b[32] = 0xAA;
    b[40] = 0xBB;
    b[48] = 0xCC;
    b[55] = 0x01;
    let (reply, used) = GetSupportedModifiersReply::try_parse(&b).unwrap();
    assert_eq!(used, 56);
    assert_eq!(reply.window_modifiers, vec![0xAA]);
    assert_eq!(reply.screen_modifiers, vec![0xBB, 0x0100_0000_0000_00CC]);
    assert_eq!(reply.num_window_modifiers(), 1);
    assert_eq!(reply.num_screen_modifiers(), 2);
    // Truncated below its declared lists it does not parse.
    let short = b[..40].to_vec();
    assert!(GetSupportedModifiersReply::try_parse(&short).is_err());
}

#[test]
fn pixmap_from_buffers_request_bytes() {
    let req = PixmapFromBuffersRequest {
        pixmap: 1,
        window: 2,
        width: 16,
        height: 16,
        stride0: 64,
        offset0: 0,
        stride1: 0,
        offset1: 0,
        stride2: 0,
        offset2: 0,
        stride3: 0,
        offset3: 0,
        depth: 24,
        bpp: 32,
        modifier: 0x0102030405060708,
        buffers: vec![RawFdContainer(3), RawFdContainer(4)],
    };
    let (bytes, fds) = req.serialize(130);
    assert_eq!(bytes.len(), 64);
    assert_eq!(bytes[0], 130);
    assert_eq!(bytes[1], 7);
    assert_eq!(bytes[2], 16); // 64 bytes = 16 units
    assert_eq!(bytes[12], 2); // buffer count
    assert_eq!(bytes[16], 16); // width
    assert_eq!(bytes[20], 64); // stride0
    assert_eq!(bytes[52], 24);
    assert_eq!(bytes[53], 32);
    assert_eq!(
        bytes[56..64].to_vec(),
        vec![8, 7, 6, 5, 4, 3, 2, 1]
    );
    assert_eq!(fds, vec![RawFdContainer(3), RawFdContainer(4)]);
    let mut conn = connected();
    let before = conn.outgoing.len();
    pixmap_from_buffers(
        &mut conn,
        1,
        2,
        16,
        16,
        64,
        0,
        0,
        0,
        0,
        0,
        0,
        0,
        24,
        32,
        0x0102030405060708,
        vec![RawFdContainer(3), RawFdContainer(4)],
    )
    .unwrap();
    assert_eq!(conn.outgoing[before..].to_vec(), bytes);
    assert_eq!(conn.outgoing_fds, fds);
}

#[test]
fn buffers_from_pixmap_reply_roundtrip() {
    // Two planes: 32 header bytes + 8 stride bytes + 8 offset bytes.
    let mut b = vec![0u8; 48];
    b[0] = 1;
    b[1] = 2; // nfd
    b[8] = 32; // width
    b[10] = 16; // height
    b[16] = 0x11; // modifier low byte
    b[24] = 24; // depth
    b[25] = 32; // bpp
    b[32] = 64; // stride of plane 0
    b[36] = 65; // stride of plane 1
    b[40] = 1; // offset of plane 0
    b[44] = 2; // offset of plane 1
    let mut fds = vec![RawFdContainer(8), RawFdContainer(9), RawFdContainer(10)];
    let (reply, used) = BuffersFromPixmapReply::try_parse_fd(&b, &mut fds).unwrap();
    assert_eq!(used, 48);
    assert_eq!(reply.width, 32);
    assert_eq!(reply.height, 16);
    assert_eq!(reply.modifier, 0x11);
    assert_eq!(reply.strides, vec![64, 65]);
    assert_eq!(reply.offsets, vec![1, 2]);
    assert_eq!(reply.buffers, vec![RawFdContainer(8), RawFdContainer(9)]);
    assert_eq!(fds, vec![RawFdContainer(10)]);
    assert_eq!(reply.nfd(), 2);
}

#[test]
fn buffers_from_pixmap_reply_needs_all_declared_fds() {
    let mut b = vec![0u8; 48];
    b[0] = 1;
    b[1] = 2;
    let mut fds = vec![RawFdContainer(8)];
    assert!(BuffersFromPixmapReply::try_parse_fd(&b, &mut fds).is_err());
    assert_eq!(fds, vec![RawFdContainer(8)]);
}
