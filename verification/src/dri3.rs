//! Byte-level bindings to the direct-rendering extension: requests that
//! trade pixmaps, buffers and synchronization fences by file descriptor.
//!
//! Each request type carries its exact wire bytes in its contract; the
//! send functions queue those bytes on the connection under a fresh
//! sequence number once the extension's major opcode is known.

use vstd::prelude::*;
use crate::connection::{Connection, Cookie, VoidCookie, spec_outcome, spec_sent_via_extension};
use crate::errors::{ConnectionError, ParseError};
use crate::fdqueue::RawFdContainer;
use crate::wire::{
    build_request, le16_at, le32_at, le64_at, push_u16, push_u32, push_u64, read_u16, read_u32,
    spec_u64_list, parse_u64_list, u16_le_bytes, u32_le_bytes, u64_le_bytes, spec_request,
};
use crate::xproto;

verus! {

/// The name this extension is discovered under.
pub open spec fn spec_extension_name() -> Seq<u8> {
    seq![68u8, 82u8, 73u8, 51u8]
}

/// The name this extension is discovered under, as bytes.
pub fn extension_name() -> (r: Vec<u8>)
    ensures r@ == spec_extension_name(),
{
    let mut r: Vec<u8> = Vec::new();
    r.push(68);
    r.push(82);
    r.push(73);
    r.push(51);
    assert(r@ =~= spec_extension_name());
    r
}

/// Asks which protocol version the server offers.
#[derive(Debug, Clone, Copy, PartialEq, Eq, Structural)]
pub struct QueryVersionRequest {
    pub major_version: u32,
    pub minor_version: u32,
}

impl QueryVersionRequest {
    /// Opcode for the QueryVersion request
    pub fn opcode() -> (r: u8)
        ensures r == 0,
    {
        0
    }

    /// The request's exact wire bytes under the extension's major opcode.
    pub open spec fn spec_serialize(self, major_opcode: u8) -> Seq<u8> {
        spec_request(
            major_opcode,
            0,
            u32_le_bytes(self.major_version) + u32_le_bytes(self.minor_version),
            Seq::empty(),
        )
    }

    /// Serialize this request into bytes for the wire.
    pub fn serialize(&self, major_opcode: u8) -> (r: Vec<u8>)
        ensures r@ == self.spec_serialize(major_opcode),
    {
        let mut body: Vec<u8> = Vec::new();
        push_u32(&mut body, self.major_version);
        push_u32(&mut body, self.minor_version);
        assert(body@ =~= u32_le_bytes(self.major_version) + u32_le_bytes(self.minor_version));
        let payload: Vec<u8> = Vec::new();
        assert(payload@ =~= Seq::<u8>::empty());
        build_request(major_opcode, 0, &body, &payload)
    }
}

/// Queue a QueryVersion request.
pub fn query_version(conn: &mut Connection, major_version: u32, minor_version: u32)
    -> (r: Result<Cookie, ConnectionError>)
    requires old(conn).wf(),
    ensures
        final(conn).wf(),
        r matches Ok(c) ==> c.sequence == old(conn).next_sequence,
        spec_sent_via_extension(
            *old(conn),
            *final(conn),
            spec_extension_name(),
            (|op: u8| (QueryVersionRequest { major_version, minor_version }).spec_serialize(op)),
            Seq::empty(),
            true,
            false,
            spec_outcome(r, old(conn).next_sequence as int),
        ),
{
    let name = extension_name();
    let major_opcode = match conn.extension_opcode(&name) {
        Ok(op) => op,
        Err(e) => {
            return Err(e);
        },
    };
    let request = QueryVersionRequest { major_version, minor_version };
    let bytes = request.serialize(major_opcode);
    let fds: Vec<RawFdContainer> = Vec::new();
    assert(fds@ =~= Seq::<RawFdContainer>::empty());
    match conn.send_request_with_reply(&bytes, &fds) {
        Ok(c) => Ok(c),
        Err(e) => Err(e),
    }
}

/// What the server answered to QueryVersion.
#[derive(Debug, Clone, Copy, PartialEq, Eq, Structural)]
pub struct QueryVersionReply {
    pub response_type: u8,
    pub sequence: u16,
    pub length: u32,
    pub major_version: u32,
    pub minor_version: u32,
}

impl QueryVersionReply {
    /// Decode the reply's fixed fields; the count returned is how many
    /// bytes were consumed.
    pub fn try_parse(bytes: &Vec<u8>) -> (r: Result<(QueryVersionReply, usize), ParseError>)
        ensures
            bytes@.len() >= 16 ==> r == Ok::<(QueryVersionReply, usize), ParseError>(((QueryVersionReply {
                response_type: bytes@[0],
                sequence: le16_at(bytes@, 2),
                length: le32_at(bytes@, 4),
                major_version: le32_at(bytes@, 8),
                minor_version: le32_at(bytes@, 12),
            }), 16)),
            bytes@.len() < 16 ==> r == Err::<(QueryVersionReply, usize), ParseError>(ParseError::ParseError),
    {
        if bytes.len() < 16 {
            return Err(ParseError::ParseError);
        }
        Ok((QueryVersionReply {
            response_type: bytes[0],
            sequence: read_u16(bytes, 2),
            length: read_u32(bytes, 4),
            major_version: read_u32(bytes, 8),
            minor_version: read_u32(bytes, 12),
        }, 16))
    }
}

/// Opens the rendering device behind a drawable; the reply hands its file
/// descriptor out.
#[derive(Debug, Clone, Copy, PartialEq, Eq, Structural)]
pub struct OpenRequest {
    pub drawable: xproto::Drawable,
    pub provider: u32,
}

impl OpenRequest {
    /// Opcode for the Open request
    pub fn opcode() -> (r: u8)
        ensures r == 1,
    {
        1
    }

    /// The request's exact wire bytes under the extension's major opcode.
    pub open spec fn spec_serialize(self, major_opcode: u8) -> Seq<u8> {
        spec_request(
            major_opcode,
            1,
            u32_le_bytes(self.drawable) + u32_le_bytes(self.provider),
            Seq::empty(),
        )
    }

    /// Serialize this request into bytes for the wire.
    pub fn serialize(&self, major_opcode: u8) -> (r: Vec<u8>)
        ensures r@ == self.spec_serialize(major_opcode),
    {
        let mut body: Vec<u8> = Vec::new();
        push_u32(&mut body, self.drawable);
        push_u32(&mut body, self.provider);
        assert(body@ =~= u32_le_bytes(self.drawable) + u32_le_bytes(self.provider));
        let payload: Vec<u8> = Vec::new();
        assert(payload@ =~= Seq::<u8>::empty());
        build_request(major_opcode, 1, &body, &payload)
    }
}

/// Queue an Open request; its reply bears one descriptor.
pub fn open(conn: &mut Connection, drawable: xproto::Drawable, provider: u32)
    -> (r: Result<Cookie, ConnectionError>)
    requires old(conn).wf(),
    ensures
        final(conn).wf(),
        r matches Ok(c) ==> c.sequence == old(conn).next_sequence,
        spec_sent_via_extension(
            *old(conn),
            *final(conn),
            spec_extension_name(),
            (|op: u8| (OpenRequest { drawable, provider }).spec_serialize(op)),
            Seq::empty(),
            true,
            true,
            spec_outcome(r, old(conn).next_sequence as int),
        ),
{
    let name = extension_name();
    let major_opcode = match conn.extension_opcode(&name) {
        Ok(op) => op,
        Err(e) => {
            return Err(e);
        },
    };
    let request = OpenRequest { drawable, provider };
    let bytes = request.serialize(major_opcode);
    let fds: Vec<RawFdContainer> = Vec::new();
    assert(fds@ =~= Seq::<RawFdContainer>::empty());
    match conn.send_request_with_reply_with_fds(&bytes, &fds) {
        Ok(c) => Ok(c),
        Err(e) => Err(e),
    }
}

/// What the server answered to Open: the device's file descriptor.
#[derive(Debug, Clone, Copy, PartialEq, Eq, Structural)]
pub struct OpenReply {
    pub response_type: u8,
    pub nfd: u8,
    pub sequence: u16,
    pub length: u32,
    pub device_fd: RawFdContainer,
}

impl OpenReply {
    /// Decode the reply, taking its descriptor from the front of `fds`.
    pub fn try_parse_fd(bytes: &Vec<u8>, fds: &mut Vec<RawFdContainer>)
        -> (r: Result<(OpenReply, usize), ParseError>)
        ensures
            bytes@.len() < 8 ==> r is Err && final(fds)@ == old(fds)@,
            bytes@.len() >= 8 && old(fds)@.len() == 0 ==> r is Err && final(fds)@ == old(fds)@,
            bytes@.len() >= 8 && old(fds)@.len() >= 1 ==> {
                &&& final(fds)@ == old(fds)@.skip(1)
                &&& if bytes@.len() >= 32 {
                    r == Ok::<(OpenReply, usize), ParseError>(((OpenReply {
                        response_type: bytes@[0],
                        nfd: bytes@[1],
                        sequence: le16_at(bytes@, 2),
                        length: le32_at(bytes@, 4),
                        device_fd: old(fds)@[0],
                    }), 32))
                } else {
                    r is Err
                }
            },
    {
        if bytes.len() < 8 {
            return Err(ParseError::ParseError);
        }
        if fds.len() == 0 {
            return Err(ParseError::ParseError);
        }
        let device_fd = fds.remove(0);
        if bytes.len() < 32 {
            return Err(ParseError::ParseError);
        }
        Ok((OpenReply {
            response_type: bytes[0],
            nfd: bytes[1],
            sequence: read_u16(bytes, 2),
            length: read_u32(bytes, 4),
            device_fd,
        }, 32))
    }
}

/// Turns a memory buffer, handed over by descriptor, into a pixmap.
#[derive(Debug, Clone, Copy, PartialEq, Eq, Structural)]
pub struct PixmapFromBufferRequest {
    pub pixmap: xproto::Pixmap,
    pub drawable: xproto::Drawable,
    pub size: u32,
    pub width: u16,
    pub height: u16,
    pub stride: u16,
    pub depth: u8,
    pub bpp: u8,
    pub pixmap_fd: RawFdContainer,
}

impl PixmapFromBufferRequest {
    /// Opcode for the PixmapFromBuffer request
    pub fn opcode() -> (r: u8)
        ensures r == 2,
    {
        2
    }

    /// The request's exact wire bytes under the extension's major opcode.
    pub open spec fn spec_serialize(self, major_opcode: u8) -> Seq<u8> {
        spec_request(
            major_opcode,
            2,
            u32_le_bytes(self.pixmap) + u32_le_bytes(self.drawable) + u32_le_bytes(self.size)
                + u16_le_bytes(self.width) + u16_le_bytes(self.height) + u16_le_bytes(self.stride)
                + seq![self.depth, self.bpp],
            Seq::empty(),
        )
    }

    /// Serialize this request; the buffer's descriptor travels with it.
    pub fn serialize(&self, major_opcode: u8) -> (r: (Vec<u8>, Vec<RawFdContainer>))
        ensures
            r.0@ == self.spec_serialize(major_opcode),
            r.1@ == seq![self.pixmap_fd],
    {
        let mut body: Vec<u8> = Vec::new();
        push_u32(&mut body, self.pixmap);
        push_u32(&mut body, self.drawable);
        push_u32(&mut body, self.size);
        push_u16(&mut body, self.width);
        push_u16(&mut body, self.height);
        push_u16(&mut body, self.stride);
        body.push(self.depth);
        body.push(self.bpp);
        assert(body@ =~= u32_le_bytes(self.pixmap) + u32_le_bytes(self.drawable)
            + u32_le_bytes(self.size) + u16_le_bytes(self.width) + u16_le_bytes(self.height)
            + u16_le_bytes(self.stride) + seq![self.depth, self.bpp]);
        let payload: Vec<u8> = Vec::new();
        assert(payload@ =~= Seq::<u8>::empty());
        let bytes = build_request(major_opcode, 2, &body, &payload);
        let mut fds: Vec<RawFdContainer> = Vec::new();
        fds.push(self.pixmap_fd);
        assert(fds@ =~= seq![self.pixmap_fd]);
        (bytes, fds)
    }
}

/// Queue a PixmapFromBuffer request; it defines no reply.
pub fn pixmap_from_buffer(conn: &mut Connection, pixmap: xproto::Pixmap, drawable: xproto::Drawable,
    size: u32, width: u16, height: u16, stride: u16, depth: u8, bpp: u8, pixmap_fd: RawFdContainer)
    -> (r: Result<VoidCookie, ConnectionError>)
    requires old(conn).wf(),
    ensures
        final(conn).wf(),
        r matches Ok(c) ==> c.sequence == old(conn).next_sequence,
        spec_sent_via_extension(
            *old(conn),
            *final(conn),
            spec_extension_name(),
            (|op: u8| (PixmapFromBufferRequest {
                pixmap, drawable, size, width, height, stride, depth, bpp, pixmap_fd,
            }).spec_serialize(op)),
            seq![pixmap_fd],
            false,
            false,
            spec_outcome(r, old(conn).next_sequence as int),
        ),
{
    let name = extension_name();
    let major_opcode = match conn.extension_opcode(&name) {
        Ok(op) => op,
        Err(e) => {
            return Err(e);
        },
    };
    let request = PixmapFromBufferRequest {
        pixmap, drawable, size, width, height, stride, depth, bpp, pixmap_fd,
    };
    let (bytes, fds) = request.serialize(major_opcode);
    match conn.send_request_without_reply(&bytes, &fds) {
        Ok(c) => Ok(c),
        Err(e) => Err(e),
    }
}

/// Asks for a buffer descriptor standing for a pixmap's memory.
#[derive(Debug, Clone, Copy, PartialEq, Eq, Structural)]
pub struct BufferFromPixmapRequest {
    pub pixmap: xproto::Pixmap,
}

impl BufferFromPixmapRequest {
    /// Opcode for the BufferFromPixmap request
    pub fn opcode() -> (r: u8)
        ensures r == 3,
    {
        3
    }

    /// The request's exact wire bytes under the extension's major opcode.
    pub open spec fn spec_serialize(self, major_opcode: u8) -> Seq<u8> {
        spec_request(major_opcode, 3, u32_le_bytes(self.pixmap), Seq::empty())
    }

    /// Serialize this request into bytes for the wire.
    pub fn serialize(&self, major_opcode: u8) -> (r: Vec<u8>)
        ensures r@ == self.spec_serialize(major_opcode),
    {
        let mut body: Vec<u8> = Vec::new();
        push_u32(&mut body, self.pixmap);
        assert(body@ =~= u32_le_bytes(self.pixmap));
        let payload: Vec<u8> = Vec::new();
        assert(payload@ =~= Seq::<u8>::empty());
        build_request(major_opcode, 3, &body, &payload)
    }
}

/// Queue a BufferFromPixmap request; its reply bears one descriptor.
pub fn buffer_from_pixmap(conn: &mut Connection, pixmap: xproto::Pixmap)
    -> (r: Result<Cookie, ConnectionError>)
    requires old(conn).wf(),
    ensures
        final(conn).wf(),
        r matches Ok(c) ==> c.sequence == old(conn).next_sequence,
        spec_sent_via_extension(
            *old(conn),
            *final(conn),
            spec_extension_name(),
            (|op: u8| (BufferFromPixmapRequest { pixmap }).spec_serialize(op)),
            Seq::empty(),
            true,
            true,
            spec_outcome(r, old(conn).next_sequence as int),
        ),
{
    let name = extension_name();
    let major_opcode = match conn.extension_opcode(&name) {
        Ok(op) => op,
        Err(e) => {
            return Err(e);
        },
    };
    let request = BufferFromPixmapRequest { pixmap };
    let bytes = request.serialize(major_opcode);
    let fds: Vec<RawFdContainer> = Vec::new();
    assert(fds@ =~= Seq::<RawFdContainer>::empty());
    match conn.send_request_with_reply_with_fds(&bytes, &fds) {
        Ok(c) => Ok(c),
        Err(e) => Err(e),
    }
}

/// What the server answered to BufferFromPixmap.
#[derive(Debug, Clone, Copy, PartialEq, Eq, Structural)]
pub struct BufferFromPixmapReply {
    pub response_type: u8,
    pub nfd: u8,
    pub sequence: u16,
    pub length: u32,
    pub size: u32,
    pub width: u16,
    pub height: u16,
    pub stride: u16,
    pub depth: u8,
    pub bpp: u8,
    pub pixmap_fd: RawFdContainer,
}

impl BufferFromPixmapReply {
    /// Decode the reply, taking its descriptor from the front of `fds`.
    pub fn try_parse_fd(bytes: &Vec<u8>, fds: &mut Vec<RawFdContainer>)
        -> (r: Result<(BufferFromPixmapReply, usize), ParseError>)
        ensures
            bytes@.len() < 20 ==> r is Err && final(fds)@ == old(fds)@,
            bytes@.len() >= 20 && old(fds)@.len() == 0 ==> r is Err && final(fds)@ == old(fds)@,
            bytes@.len() >= 20 && old(fds)@.len() >= 1 ==> {
                &&& final(fds)@ == old(fds)@.skip(1)
                &&& if bytes@.len() >= 32 {
                    r == Ok::<(BufferFromPixmapReply, usize), ParseError>(((BufferFromPixmapReply {
                        response_type: bytes@[0],
                        nfd: bytes@[1],
                        sequence: le16_at(bytes@, 2),
                        length: le32_at(bytes@, 4),
                        size: le32_at(bytes@, 8),
                        width: le16_at(bytes@, 12),
                        height: le16_at(bytes@, 14),
                        stride: le16_at(bytes@, 16),
                        depth: bytes@[18],
                        bpp: bytes@[19],
                        pixmap_fd: old(fds)@[0],
                    }), 32))
                } else {
                    r is Err
                }
            },
    {
        if bytes.len() < 20 {
            return Err(ParseError::ParseError);
        }
        if fds.len() == 0 {
            return Err(ParseError::ParseError);
        }
        let pixmap_fd = fds.remove(0);
        if bytes.len() < 32 {
            return Err(ParseError::ParseError);
        }
        Ok((BufferFromPixmapReply {
            response_type: bytes[0],
            nfd: bytes[1],
            sequence: read_u16(bytes, 2),
            length: read_u32(bytes, 4),
            size: read_u32(bytes, 8),
            width: read_u16(bytes, 12),
            height: read_u16(bytes, 14),
            stride: read_u16(bytes, 16),
            depth: bytes[18],
            bpp: bytes[19],
            pixmap_fd,
        }, 32))
    }
}

/// Imports a synchronization fence by descriptor.
#[derive(Debug, Clone, Copy, PartialEq, Eq, Structural)]
pub struct FenceFromFDRequest {
    pub drawable: xproto::Drawable,
    pub fence: u32,
    pub initially_triggered: bool,
    pub fence_fd: RawFdContainer,
}

impl FenceFromFDRequest {
    /// Opcode for the FenceFromFD request
    pub fn opcode() -> (r: u8)
        ensures r == 4,
    {
        4
    }

    /// The request's exact wire bytes under the extension's major opcode.
    pub open spec fn spec_serialize(self, major_opcode: u8) -> Seq<u8> {
        spec_request(
            major_opcode,
            4,
            u32_le_bytes(self.drawable) + u32_le_bytes(self.fence)
                + seq![if self.initially_triggered { 1u8 } else { 0u8 }, 0u8, 0u8, 0u8],
            Seq::empty(),
        )
    }

    /// Serialize this request; the fence's descriptor travels with it.
    pub fn serialize(&self, major_opcode: u8) -> (r: (Vec<u8>, Vec<RawFdContainer>))
        ensures
            r.0@ == self.spec_serialize(major_opcode),
            r.1@ == seq![self.fence_fd],
    {
        let mut body: Vec<u8> = Vec::new();
        push_u32(&mut body, self.drawable);
        push_u32(&mut body, self.fence);
        if self.initially_triggered {
            body.push(1);
        } else {
            body.push(0);
        }
        body.push(0);
        body.push(0);
        body.push(0);
        assert(body@ =~= u32_le_bytes(self.drawable) + u32_le_bytes(self.fence)
            + seq![if self.initially_triggered { 1u8 } else { 0u8 }, 0u8, 0u8, 0u8]);
        let payload: Vec<u8> = Vec::new();
        assert(payload@ =~= Seq::<u8>::empty());
        let bytes = build_request(major_opcode, 4, &body, &payload);
        let mut fds: Vec<RawFdContainer> = Vec::new();
        fds.push(self.fence_fd);
        assert(fds@ =~= seq![self.fence_fd]);
        (bytes, fds)
    }
}

/// Queue a FenceFromFD request; it defines no reply.
pub fn fence_from_fd(conn: &mut Connection, drawable: xproto::Drawable, fence: u32,
    initially_triggered: bool, fence_fd: RawFdContainer)
    -> (r: Result<VoidCookie, ConnectionError>)
    requires old(conn).wf(),
    ensures
        final(conn).wf(),
        r matches Ok(c) ==> c.sequence == old(conn).next_sequence,
        spec_sent_via_extension(
            *old(conn),
            *final(conn),
            spec_extension_name(),
            (|op: u8| (FenceFromFDRequest { drawable, fence, initially_triggered, fence_fd })
                .spec_serialize(op)),
            seq![fence_fd],
            false,
            false,
            spec_outcome(r, old(conn).next_sequence as int),
        ),
{
    let name = extension_name();
    let major_opcode = match conn.extension_opcode(&name) {
        Ok(op) => op,
        Err(e) => {
            return Err(e);
        },
    };
    let request = FenceFromFDRequest { drawable, fence, initially_triggered, fence_fd };
    let (bytes, fds) = request.serialize(major_opcode);
    match conn.send_request_without_reply(&bytes, &fds) {
        Ok(c) => Ok(c),
        Err(e) => Err(e),
    }
}

/// Exports a synchronization fence as a descriptor.
#[derive(Debug, Clone, Copy, PartialEq, Eq, Structural)]
pub struct FDFromFenceRequest {
    pub drawable: xproto::Drawable,
    pub fence: u32,
}

impl FDFromFenceRequest {
    /// Opcode for the FDFromFence request
    pub fn opcode() -> (r: u8)
        ensures r == 5,
    {
        5
    }

    /// The request's exact wire bytes under the extension's major opcode.
    pub open spec fn spec_serialize(self, major_opcode: u8) -> Seq<u8> {
        spec_request(
            major_opcode,
            5,
            u32_le_bytes(self.drawable) + u32_le_bytes(self.fence),
            Seq::empty(),
        )
    }

    /// Serialize this request into bytes for the wire.
    pub fn serialize(&self, major_opcode: u8) -> (r: Vec<u8>)
        ensures r@ == self.spec_serialize(major_opcode),
    {
        let mut body: Vec<u8> = Vec::new();
        push_u32(&mut body, self.drawable);
        push_u32(&mut body, self.fence);
        assert(body@ =~= u32_le_bytes(self.drawable) + u32_le_bytes(self.fence));
        let payload: Vec<u8> = Vec::new();
        assert(payload@ =~= Seq::<u8>::empty());
        build_request(major_opcode, 5, &body, &payload)
    }
}

/// Queue an FDFromFence request; its reply bears one descriptor.
pub fn fd_from_fence(conn: &mut Connection, drawable: xproto::Drawable, fence: u32)
    -> (r: Result<Cookie, ConnectionError>)
    requires old(conn).wf(),
    ensures
        final(conn).wf(),
        r matches Ok(c) ==> c.sequence == old(conn).next_sequence,
        spec_sent_via_extension(
            *old(conn),
            *final(conn),
            spec_extension_name(),
            (|op: u8| (FDFromFenceRequest { drawable, fence }).spec_serialize(op)),
            Seq::empty(),
            true,
            true,
            spec_outcome(r, old(conn).next_sequence as int),
        ),
{
    let name = extension_name();
    let major_opcode = match conn.extension_opcode(&name) {
        Ok(op) => op,
        Err(e) => {
            return Err(e);
        },
    };
    let request = FDFromFenceRequest { drawable, fence };
    let bytes = request.serialize(major_opcode);
    let fds: Vec<RawFdContainer> = Vec::new();
    assert(fds@ =~= Seq::<RawFdContainer>::empty());
    match conn.send_request_with_reply_with_fds(&bytes, &fds) {
        Ok(c) => Ok(c),
        Err(e) => Err(e),
    }
}

/// What the server answered to FDFromFence: the fence's descriptor.
#[derive(Debug, Clone, Copy, PartialEq, Eq, Structural)]
pub struct FDFromFenceReply {
    pub response_type: u8,
    pub nfd: u8,
    pub sequence: u16,
    pub length: u32,
    pub fence_fd: RawFdContainer,
}

impl FDFromFenceReply {
    /// Decode the reply, taking its descriptor from the front of `fds`.
    pub fn try_parse_fd(bytes: &Vec<u8>, fds: &mut Vec<RawFdContainer>)
        -> (r: Result<(FDFromFenceReply, usize), ParseError>)
        ensures
            bytes@.len() < 8 ==> r is Err && final(fds)@ == old(fds)@,
            bytes@.len() >= 8 && old(fds)@.len() == 0 ==> r is Err && final(fds)@ == old(fds)@,
            bytes@.len() >= 8 && old(fds)@.len() >= 1 ==> {
                &&& final(fds)@ == old(fds)@.skip(1)
                &&& if bytes@.len() >= 32 {
                    r == Ok::<(FDFromFenceReply, usize), ParseError>(((FDFromFenceReply {
                        response_type: bytes@[0],
                        nfd: bytes@[1],
                        sequence: le16_at(bytes@, 2),
                        length: le32_at(bytes@, 4),
                        fence_fd: old(fds)@[0],
                    }), 32))
                } else {
                    r is Err
                }
            },
    {
        if bytes.len() < 8 {
            return Err(ParseError::ParseError);
        }
        if fds.len() == 0 {
            return Err(ParseError::ParseError);
        }
        let fence_fd = fds.remove(0);
        if bytes.len() < 32 {
            return Err(ParseError::ParseError);
        }
        Ok((FDFromFenceReply {
            response_type: bytes[0],
            nfd: bytes[1],
            sequence: read_u16(bytes, 2),
            length: read_u32(bytes, 4),
            fence_fd,
        }, 32))
    }
}

/// Asks which buffer format modifiers the server supports for a window.
#[derive(Debug, Clone, Copy, PartialEq, Eq, Structural)]
pub struct GetSupportedModifiersRequest {
    pub window: u32,
    pub depth: u8,
    pub bpp: u8,
}

impl GetSupportedModifiersRequest {
    /// Opcode for the GetSupportedModifiers request
    pub fn opcode() -> (r: u8)
        ensures r == 6,
    {
        6
    }

    /// The request's exact wire bytes under the extension's major opcode.
    pub open spec fn spec_serialize(self, major_opcode: u8) -> Seq<u8> {
        spec_request(
            major_opcode,
            6,
            u32_le_bytes(self.window) + seq![self.depth, self.bpp, 0u8, 0u8],
            Seq::empty(),
        )
    }

    /// Serialize this request into bytes for the wire.
    pub fn serialize(&self, major_opcode: u8) -> (r: Vec<u8>)
        ensures r@ == self.spec_serialize(major_opcode),
    {
        let mut body: Vec<u8> = Vec::new();
        push_u32(&mut body, self.window);
        body.push(self.depth);
        body.push(self.bpp);
        body.push(0);
        body.push(0);
        assert(body@ =~= u32_le_bytes(self.window) + seq![self.depth, self.bpp, 0u8, 0u8]);
        let payload: Vec<u8> = Vec::new();
        assert(payload@ =~= Seq::<u8>::empty());
        build_request(major_opcode, 6, &body, &payload)
    }
}

/// Queue a GetSupportedModifiers request.
pub fn get_supported_modifiers(conn: &mut Connection, window: u32, depth: u8, bpp: u8)
    -> (r: Result<Cookie, ConnectionError>)
    requires old(conn).wf(),
    ensures
        final(conn).wf(),
        r matches Ok(c) ==> c.sequence == old(conn).next_sequence,
        spec_sent_via_extension(
            *old(conn),
            *final(conn),
            spec_extension_name(),
            (|op: u8| (GetSupportedModifiersRequest { window, depth, bpp }).spec_serialize(op)),
            Seq::empty(),
            true,
            false,
            spec_outcome(r, old(conn).next_sequence as int),
        ),
{
    let name = extension_name();
    let major_opcode = match conn.extension_opcode(&name) {
        Ok(op) => op,
        Err(e) => {
            return Err(e);
        },
    };
    let request = GetSupportedModifiersRequest { window, depth, bpp };
    let bytes = request.serialize(major_opcode);
    let fds: Vec<RawFdContainer> = Vec::new();
    assert(fds@ =~= Seq::<RawFdContainer>::empty());
    match conn.send_request_with_reply(&bytes, &fds) {
        Ok(c) => Ok(c),
        Err(e) => Err(e),
    }
}

/// What the server answered to GetSupportedModifiers.
#[derive(Debug, Clone, PartialEq, Eq)]
pub struct GetSupportedModifiersReply {
    pub response_type: u8,
    pub sequence: u16,
    pub length: u32,
    pub window_modifiers: Vec<u64>,
    pub screen_modifiers: Vec<u64>,
}

impl GetSupportedModifiersReply {
    /// Decode the reply: its fixed fields, then the two modifier lists the
    /// counts at offsets 8 and 12 declare.
    pub fn try_parse(bytes: &Vec<u8>) -> (r: Result<(GetSupportedModifiersReply, usize), ParseError>)
        ensures
            ({
                let b = bytes@;
                if b.len() >= 32 {
                    let nw = le32_at(b, 8) as int;
                    let ns = le32_at(b, 12) as int;
                    if b.len() >= 32 + 8 * nw + 8 * ns {
                        match r {
                            Ok((reply, used)) => {
                                &&& reply.response_type == b[0]
                                &&& reply.sequence == le16_at(b, 2)
                                &&& reply.length == le32_at(b, 4)
                                &&& reply.window_modifiers@ == spec_u64_list(b, 32, nw as nat)
                                &&& reply.screen_modifiers@
                                    == spec_u64_list(b, 32 + 8 * nw, ns as nat)
                                &&& used == 32 + 8 * nw + 8 * ns
                            },
                            Err(_) => false,
                        }
                    } else {
                        r is Err
                    }
                } else {
                    r is Err
                }
            }),
    {
        if bytes.len() < 32 {
            return Err(ParseError::ParseError);
        }
        let nw = read_u32(bytes, 8);
        let ns = read_u32(bytes, 12);
        let need: u64 = 32 + 8 * (nw as u64) + 8 * (ns as u64);
        if (bytes.len() as u64) < need {
            return Err(ParseError::ParseError);
        }
        let window_modifiers = parse_u64_list(bytes, 32, nw as usize);
        let screen_modifiers = parse_u64_list(bytes, 32 + 8 * (nw as usize), ns as usize);
        Ok((GetSupportedModifiersReply {
            response_type: bytes[0],
            sequence: read_u16(bytes, 2),
            length: read_u32(bytes, 4),
            window_modifiers,
            screen_modifiers,
        }, need as usize))
    }

    /// The count the `num_window_modifiers` length field carries: computed
    /// back from the list.
    pub fn num_window_modifiers(&self) -> (r: u32)
        requires self.window_modifiers@.len() <= 0xFFFF_FFFF,
        ensures r == self.window_modifiers@.len(),
    {
        self.window_modifiers.len() as u32
    }

    /// The count the `num_screen_modifiers` length field carries: computed
    /// back from the list.
    pub fn num_screen_modifiers(&self) -> (r: u32)
        requires self.screen_modifiers@.len() <= 0xFFFF_FFFF,
        ensures r == self.screen_modifiers@.len(),
    {
        self.screen_modifiers.len() as u32
    }
}

/// Turns up to four memory planes, each handed over by descriptor, into
/// one pixmap with an explicit format modifier.
#[derive(Debug, Clone, PartialEq, Eq)]
pub struct PixmapFromBuffersRequest {
    pub pixmap: xproto::Pixmap,
    pub window: xproto::Window,
    pub width: u16,
    pub height: u16,
    pub stride0: u32,
    pub offset0: u32,
    pub stride1: u32,
    pub offset1: u32,
    pub stride2: u32,
    pub offset2: u32,
    pub stride3: u32,
    pub offset3: u32,
    pub depth: u8,
    pub bpp: u8,
    pub modifier: u64,
    pub buffers: Vec<RawFdContainer>,
}

impl PixmapFromBuffersRequest {
    /// Opcode for the PixmapFromBuffers request
    pub fn opcode() -> (r: u8)
        ensures r == 7,
    {
        7
    }

    /// The request's exact wire bytes under the extension's major opcode:
    /// the planes travel as descriptors, only their count is in the bytes.
    pub open spec fn spec_serialize(self, major_opcode: u8) -> Seq<u8> {
        spec_request(
            major_opcode,
            7,
            u32_le_bytes(self.pixmap) + u32_le_bytes(self.window)
                + seq![self.buffers@.len() as u8, 0u8, 0u8, 0u8]
                + u16_le_bytes(self.width) + u16_le_bytes(self.height)
                + u32_le_bytes(self.stride0) + u32_le_bytes(self.offset0)
                + u32_le_bytes(self.stride1) + u32_le_bytes(self.offset1)
                + u32_le_bytes(self.stride2) + u32_le_bytes(self.offset2)
                + u32_le_bytes(self.stride3) + u32_le_bytes(self.offset3)
                + seq![self.depth, self.bpp, 0u8, 0u8]
                + u64_le_bytes(self.modifier),
            Seq::empty(),
        )
    }

    /// Serialize this request; the plane descriptors travel with it.
    #[verifier::rlimit(60)]
    pub fn serialize(&self, major_opcode: u8) -> (r: (Vec<u8>, Vec<RawFdContainer>))
        requires self.buffers@.len() <= 255,
        ensures
            r.0@ == self.spec_serialize(major_opcode),
            r.1@ == self.buffers@,
    {
        let num_buffers: u8 = self.buffers.len() as u8;
        let mut body: Vec<u8> = Vec::new();
        push_u32(&mut body, self.pixmap);
        push_u32(&mut body, self.window);
        body.push(num_buffers);
        body.push(0);
        body.push(0);
        body.push(0);
        push_u16(&mut body, self.width);
        push_u16(&mut body, self.height);
        push_u32(&mut body, self.stride0);
        push_u32(&mut body, self.offset0);
        push_u32(&mut body, self.stride1);
        push_u32(&mut body, self.offset1);
        push_u32(&mut body, self.stride2);
        push_u32(&mut body, self.offset2);
        push_u32(&mut body, self.stride3);
        push_u32(&mut body, self.offset3);
        body.push(self.depth);
        body.push(self.bpp);
        body.push(0);
        body.push(0);
        push_u64(&mut body, self.modifier);
        assert(body@ =~= u32_le_bytes(self.pixmap) + u32_le_bytes(self.window)
            + seq![self.buffers@.len() as u8, 0u8, 0u8, 0u8]
            + u16_le_bytes(self.width) + u16_le_bytes(self.height)
            + u32_le_bytes(self.stride0) + u32_le_bytes(self.offset0)
            + u32_le_bytes(self.stride1) + u32_le_bytes(self.offset1)
            + u32_le_bytes(self.stride2) + u32_le_bytes(self.offset2)
            + u32_le_bytes(self.stride3) + u32_le_bytes(self.offset3)
            + seq![self.depth, self.bpp, 0u8, 0u8]
            + u64_le_bytes(self.modifier));
        let payload: Vec<u8> = Vec::new();
        assert(payload@ =~= Seq::<u8>::empty());
        let bytes = build_request(major_opcode, 7, &body, &payload);
        let mut fds: Vec<RawFdContainer> = Vec::new();
        crate::fdqueue::append_fds(&mut fds, &self.buffers);
        assert(fds@ =~= self.buffers@);
        (bytes, fds)
    }
}

/// Queue a PixmapFromBuffers request; it defines no reply.
pub fn pixmap_from_buffers(conn: &mut Connection, pixmap: xproto::Pixmap, window: xproto::Window,
    width: u16, height: u16, stride0: u32, offset0: u32, stride1: u32, offset1: u32, stride2: u32,
    offset2: u32, stride3: u32, offset3: u32, depth: u8, bpp: u8, modifier: u64,
    buffers: Vec<RawFdContainer>)
    -> (r: Result<VoidCookie, ConnectionError>)
    requires
        old(conn).wf(),
        buffers@.len() <= 255,
    ensures
        final(conn).wf(),
        r matches Ok(c) ==> c.sequence == old(conn).next_sequence,
        spec_sent_via_extension(
            *old(conn),
            *final(conn),
            spec_extension_name(),
            (|op: u8| (PixmapFromBuffersRequest {
                pixmap, window, width, height, stride0, offset0, stride1, offset1, stride2,
                offset2, stride3, offset3, depth, bpp, modifier, buffers,
            }).spec_serialize(op)),
            buffers@,
            false,
            false,
            spec_outcome(r, old(conn).next_sequence as int),
        ),
{
    let name = extension_name();
    let major_opcode = match conn.extension_opcode(&name) {
        Ok(op) => op,
        Err(e) => {
            return Err(e);
        },
    };
    let request = PixmapFromBuffersRequest {
        pixmap, window, width, height, stride0, offset0, stride1, offset1, stride2, offset2,
        stride3, offset3, depth, bpp, modifier, buffers,
    };
    let (bytes, fds) = request.serialize(major_opcode);
    match conn.send_request_without_reply(&bytes, &fds) {
        Ok(c) => Ok(c),
        Err(e) => Err(e),
    }
}

/// Asks for the plane descriptors and layout of a pixmap's memory.
#[derive(Debug, Clone, Copy, PartialEq, Eq, Structural)]
pub struct BuffersFromPixmapRequest {
    pub pixmap: xproto::Pixmap,
}

impl BuffersFromPixmapRequest {
    /// Opcode for the BuffersFromPixmap request
    pub fn opcode() -> (r: u8)
        ensures r == 8,
    {
        8
    }

    /// The request's exact wire bytes under the extension's major opcode.
    pub open spec fn spec_serialize(self, major_opcode: u8) -> Seq<u8> {
        spec_request(major_opcode, 8, u32_le_bytes(self.pixmap), Seq::empty())
    }

    /// Serialize this request into bytes for the wire.
    pub fn serialize(&self, major_opcode: u8) -> (r: Vec<u8>)
        ensures r@ == self.spec_serialize(major_opcode),
    {
        let mut body: Vec<u8> = Vec::new();
        push_u32(&mut body, self.pixmap);
        assert(body@ =~= u32_le_bytes(self.pixmap));
        let payload: Vec<u8> = Vec::new();
        assert(payload@ =~= Seq::<u8>::empty());
        build_request(major_opcode, 8, &body, &payload)
    }
}

/// Queue a BuffersFromPixmap request; its reply bears descriptors.
pub fn buffers_from_pixmap(conn: &mut Connection, pixmap: xproto::Pixmap)
    -> (r: Result<Cookie, ConnectionError>)
    requires old(conn).wf(),
    ensures
        final(conn).wf(),
        r matches Ok(c) ==> c.sequence == old(conn).next_sequence,
        spec_sent_via_extension(
            *old(conn),
            *final(conn),
            spec_extension_name(),
            (|op: u8| (BuffersFromPixmapRequest { pixmap }).spec_serialize(op)),
            Seq::empty(),
            true,
            true,
            spec_outcome(r, old(conn).next_sequence as int),
        ),
{
    let name = extension_name();
    let major_opcode = match conn.extension_opcode(&name) {
        Ok(op) => op,
        Err(e) => {
            return Err(e);
        },
    };
    let request = BuffersFromPixmapRequest { pixmap };
    let bytes = request.serialize(major_opcode);
    let fds: Vec<RawFdContainer> = Vec::new();
    assert(fds@ =~= Seq::<RawFdContainer>::empty());
    match conn.send_request_with_reply_with_fds(&bytes, &fds) {
        Ok(c) => Ok(c),
        Err(e) => Err(e),
    }
}

/// What the server answered to BuffersFromPixmap: one descriptor per
/// plane, with each plane's stride and offset.
#[derive(Debug, Clone, PartialEq, Eq)]
pub struct BuffersFromPixmapReply {
    pub response_type: u8,
    pub sequence: u16,
    pub length: u32,
    pub width: u16,
    pub height: u16,
    pub modifier: u64,
    pub depth: u8,
    pub bpp: u8,
    pub strides: Vec<u32>,
    pub offsets: Vec<u32>,
    pub buffers: Vec<RawFdContainer>,
}

impl BuffersFromPixmapReply {
    /// Decode the reply: fixed fields, the per-plane stride and offset
    /// lists the count at offset 1 declares, and that many descriptors
    /// from the front of `fds`, in order.
    pub fn try_parse_fd(bytes: &Vec<u8>, fds: &mut Vec<RawFdContainer>)
        -> (r: Result<(BuffersFromPixmapReply, usize), ParseError>)
        ensures
            ({
                let b = bytes@;
                if b.len() >= 32 {
                    let nfd = b[1] as int;
                    if b.len() >= 32 + 8 * nfd {
                        if old(fds)@.len() >= nfd {
                            match r {
                                Ok((reply, used)) => {
                                    &&& reply.response_type == b[0]
                                    &&& reply.sequence == le16_at(b, 2)
                                    &&& reply.length == le32_at(b, 4)
                                    &&& reply.width == le16_at(b, 8)
                                    &&& reply.height == le16_at(b, 10)
                                    &&& reply.modifier == le64_at(b, 16)
                                    &&& reply.depth == b[24]
                                    &&& reply.bpp == b[25]
                                    &&& reply.strides@ == crate::wire::spec_u32_list(b, 32, nfd as nat)
                                    &&& reply.offsets@
                                        == crate::wire::spec_u32_list(b, 32 + 4 * nfd, nfd as nat)
                                    &&& reply.buffers@ == old(fds)@.take(nfd)
                                    &&& final(fds)@ == old(fds)@.skip(nfd)
                                    &&& used == 32 + 8 * nfd
                                },
                                Err(_) => false,
                            }
                        } else {
                            r is Err && final(fds)@ == old(fds)@
                        }
                    } else {
                        r is Err && final(fds)@ == old(fds)@
                    }
                } else {
                    r is Err && final(fds)@ == old(fds)@
                }
            }),
    {
        if bytes.len() < 32 {
            return Err(ParseError::ParseError);
        }
        let nfd: usize = bytes[1] as usize;
        let need: u64 = 32 + 8 * (nfd as u64);
        if (bytes.len() as u64) < need {
            return Err(ParseError::ParseError);
        }
        if fds.len() < nfd {
            return Err(ParseError::ParseError);
        }
        let strides = crate::wire::parse_u32_list(bytes, 32, nfd);
        let offsets = crate::wire::parse_u32_list(bytes, 32 + 4 * nfd, nfd);
        let mut buffers: Vec<RawFdContainer> = Vec::new();
        let mut j: usize = 0;
        while j < nfd
            invariant
                j <= nfd,
                nfd <= old(fds)@.len(),
                buffers@ == old(fds)@.subrange(0, j as int),
                fds@ == old(fds)@.skip(j as int),
            decreases nfd - j,
        {
            let fd = fds.remove(0);
            buffers.push(fd);
            j = j + 1;
            assert(buffers@ =~= old(fds)@.subrange(0, j as int));
            assert(fds@ =~= old(fds)@.skip(j as int));
        }
        assert(buffers@ =~= old(fds)@.take(nfd as int));
        Ok((BuffersFromPixmapReply {
            response_type: bytes[0],
            sequence: read_u16(bytes, 2),
            length: read_u32(bytes, 4),
            width: read_u16(bytes, 8),
            height: read_u16(bytes, 10),
            modifier: crate::wire::read_u64(bytes, 16),
            depth: bytes[24],
            bpp: bytes[25],
            strides,
            offsets,
            buffers,
        }, need as usize))
    }

    /// The count the `nfd` length field carries: computed back from the
    /// stride list.
    pub fn nfd(&self) -> (r: u8)
        requires self.strides@.len() <= 255,
        ensures r == self.strides@.len(),
    {
        self.strides.len() as u8
    }
}

} // verus!
