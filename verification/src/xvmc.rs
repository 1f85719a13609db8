//! Byte-level bindings to the motion-compensation video extension:
//! contexts, surfaces and subpictures for hardware-assisted decoding.
//!
//! Each send function carries its request's exact wire bytes in its
//! contract and queues them on the connection under a fresh sequence
//! number once the extension's major opcode is known.

use vstd::prelude::*;
use crate::connection::{Connection, Cookie, VoidCookie, spec_outcome, spec_sent_via_extension};
use crate::errors::{ConnectionError, ParseError};
use crate::fdqueue::RawFdContainer;
use crate::wire::{
    build_request, le16_at, le32_at, push_u16, push_u32, read_u16, read_u32,
    u16_le_bytes, u32_le_bytes, spec_request, spec_u32_list, parse_u32_list,
};

verus! {

/// A motion-compensation context id.
pub type CONTEXT = u32;

/// A surface id.
pub type SURFACE = u32;

/// A subpicture id.
pub type SUBPICTURE = u32;

/// Opcode for the QueryVersion request
pub const QUERY_VERSION_REQUEST: u8 = 0;

/// Opcode for the ListSurfaceTypes request
pub const LIST_SURFACE_TYPES_REQUEST: u8 = 1;

/// Opcode for the CreateContext request
pub const CREATE_CONTEXT_REQUEST: u8 = 2;

/// Opcode for the DestroyContext request
pub const DESTROY_CONTEXT_REQUEST: u8 = 3;

/// Opcode for the CreateSurface request
pub const CREATE_SURFACE_REQUEST: u8 = 4;

/// Opcode for the DestroySurface request
pub const DESTROY_SURFACE_REQUEST: u8 = 5;

/// Opcode for the CreateSubpicture request
pub const CREATE_SUBPICTURE_REQUEST: u8 = 6;

/// Opcode for the DestroySubpicture request
pub const DESTROY_SUBPICTURE_REQUEST: u8 = 7;

/// Opcode for the ListSubpictureTypes request
pub const LIST_SUBPICTURE_TYPES_REQUEST: u8 = 8;

/// The name this extension is discovered under.
pub open spec fn spec_extension_name() -> Seq<u8> {
    seq![
        88u8, 86u8, 105u8, 100u8, 101u8, 111u8, 45u8, 77u8, 111u8, 116u8, 105u8, 111u8, 110u8,
        67u8, 111u8, 109u8, 112u8, 101u8, 110u8, 115u8, 97u8, 116u8, 105u8, 111u8, 110u8,
    ]
}

/// The name this extension is discovered under, as bytes.
pub fn extension_name() -> (r: Vec<u8>)
    ensures r@ == spec_extension_name(),
{
    let mut r: Vec<u8> = Vec::new();
    r.push(88);
    r.push(86);
    r.push(105);
    r.push(100);
    r.push(101);
    r.push(111);
    r.push(45);
    r.push(77);
    r.push(111);
    r.push(116);
    r.push(105);
    r.push(111);
    r.push(110);
    r.push(67);
    r.push(111);
    r.push(109);
    r.push(112);
    r.push(101);
    r.push(110);
    r.push(115);
    r.push(97);
    r.push(116);
    r.push(105);
    r.push(111);
    r.push(110);
    assert(r@ =~= spec_extension_name());
    r
}

/// One surface type a port offers: its id, chroma format, size limits and
/// acceleration flags.
#[derive(Debug, Clone, Copy, PartialEq, Eq, Structural)]
pub struct SurfaceInfo {
    pub id: SURFACE,
    pub chroma_format: u16,
    pub pad0: u16,
    pub max_width: u16,
    pub max_height: u16,
    pub subpicture_max_width: u16,
    pub subpicture_max_height: u16,
    pub mc_type: u32,
    pub flags: u32,
}

/// The surface record stored at byte offset `pos`.
pub open spec fn spec_surface_info_at(s: Seq<u8>, pos: int) -> SurfaceInfo {
    SurfaceInfo {
        id: le32_at(s, pos),
        chroma_format: le16_at(s, pos + 4),
        pad0: le16_at(s, pos + 6),
        max_width: le16_at(s, pos + 8),
        max_height: le16_at(s, pos + 10),
        subpicture_max_width: le16_at(s, pos + 12),
        subpicture_max_height: le16_at(s, pos + 14),
        mc_type: le32_at(s, pos + 16),
        flags: le32_at(s, pos + 20),
    }
}

/// The `n` surface records stored from byte offset `pos`, 24 bytes each.
pub open spec fn spec_surface_info_list(s: Seq<u8>, pos: int, n: nat) -> Seq<SurfaceInfo> {
    Seq::new(n, |i: int| spec_surface_info_at(s, pos + 24 * i))
}

impl SurfaceInfo {
    /// Decode one surface record from the start of `bytes`; the count
    /// returned is how many bytes were consumed.
    pub fn try_parse(bytes: &Vec<u8>) -> (r: Result<(SurfaceInfo, usize), ParseError>)
        ensures
            bytes@.len() >= 24 ==> r == Ok::<(SurfaceInfo, usize), ParseError>((
                (spec_surface_info_at(bytes@, 0)),
                24,
            )),
            bytes@.len() < 24 ==> r == Err::<(SurfaceInfo, usize), ParseError>(ParseError::ParseError),
    {
        Self::try_parse_at(bytes, 0)
    }

    /// Decode the surface record at byte offset `pos`.
    pub fn try_parse_at(bytes: &Vec<u8>, pos: usize) -> (r: Result<(SurfaceInfo, usize), ParseError>)
        requires pos <= bytes@.len(),
        ensures
            pos + 24 <= bytes@.len() ==> r == Ok::<(SurfaceInfo, usize), ParseError>((
                (spec_surface_info_at(bytes@, pos as int)),
                (pos + 24) as usize,
            )),
            pos + 24 > bytes@.len() ==> r == Err::<(SurfaceInfo, usize), ParseError>(ParseError::ParseError),
    {
        let len: usize = bytes.len();
        if len - pos < 24 {
            return Err(ParseError::ParseError);
        }
        Ok((SurfaceInfo {
            id: read_u32(bytes, pos),
            chroma_format: read_u16(bytes, pos + 4),
            pad0: read_u16(bytes, pos + 6),
            max_width: read_u16(bytes, pos + 8),
            max_height: read_u16(bytes, pos + 10),
            subpicture_max_width: read_u16(bytes, pos + 12),
            subpicture_max_height: read_u16(bytes, pos + 14),
            mc_type: read_u32(bytes, pos + 16),
            flags: read_u32(bytes, pos + 20),
        }, pos + 24))
    }

    /// This record's exact wire bytes.
    pub open spec fn spec_serialize(self) -> Seq<u8> {
        u32_le_bytes(self.id) + u16_le_bytes(self.chroma_format) + u16_le_bytes(self.pad0)
            + u16_le_bytes(self.max_width) + u16_le_bytes(self.max_height)
            + u16_le_bytes(self.subpicture_max_width) + u16_le_bytes(self.subpicture_max_height)
            + u32_le_bytes(self.mc_type) + u32_le_bytes(self.flags)
    }

    /// Serialize this record into its 24 wire bytes.
    pub fn serialize(&self) -> (r: Vec<u8>)
        ensures r@ == self.spec_serialize(),
    {
        let mut r: Vec<u8> = Vec::new();
        self.serialize_into(&mut r);
        assert(r@ =~= self.spec_serialize());
        r
    }

    /// Append this record's wire bytes to `bytes`.
    pub fn serialize_into(&self, bytes: &mut Vec<u8>)
        ensures final(bytes)@ == old(bytes)@ + self.spec_serialize(),
    {
        push_u32(bytes, self.id);
        push_u16(bytes, self.chroma_format);
        push_u16(bytes, self.pad0);
        push_u16(bytes, self.max_width);
        push_u16(bytes, self.max_height);
        push_u16(bytes, self.subpicture_max_width);
        push_u16(bytes, self.subpicture_max_height);
        push_u32(bytes, self.mc_type);
        push_u32(bytes, self.flags);
        assert(bytes@ =~= old(bytes)@ + self.spec_serialize());
    }
}

/// Wire bytes of a QueryVersion request.
pub open spec fn spec_query_version_request(major_opcode: u8) -> Seq<u8> {
    spec_request(major_opcode, QUERY_VERSION_REQUEST, Seq::empty(), Seq::empty())
}

/// Queue a QueryVersion request.
pub fn query_version(conn: &mut Connection) -> (r: Result<Cookie, ConnectionError>)
    requires old(conn).wf(),
    ensures
        final(conn).wf(),
        r matches Ok(c) ==> c.sequence == old(conn).next_sequence,
        spec_sent_via_extension(
            *old(conn),
            *final(conn),
            spec_extension_name(),
            (|op: u8| spec_query_version_request(op)),
            Seq::empty(),
            true,
            false,
            spec_outcome(r, old(conn).next_sequence as int),
        ),
{
    let name = extension_name();
    let major_opcode = match conn.extension_opcode(&name) {
        Ok(op) => op,
        Err(e) => {
            return Err(e);
        },
    };
    let body: Vec<u8> = Vec::new();
    assert(body@ =~= Seq::<u8>::empty());
    let payload: Vec<u8> = Vec::new();
    let bytes = build_request(major_opcode, QUERY_VERSION_REQUEST, &body, &payload);
    let fds: Vec<RawFdContainer> = Vec::new();
    assert(fds@ =~= Seq::<RawFdContainer>::empty());
    match conn.send_request_with_reply(&bytes, &fds) {
        Ok(c) => Ok(c),
        Err(e) => Err(e),
    }
}

/// What the server answered to QueryVersion.
#[derive(Debug, Clone, Copy, PartialEq, Eq, Structural)]
pub struct QueryVersionReply {
    pub response_type: u8,
    pub sequence: u16,
    pub length: u32,
    pub major: u32,
    pub minor: u32,
}

impl QueryVersionReply {
    /// Decode the reply's fixed fields; the count returned is how many
    /// bytes were consumed.
    pub fn try_parse(bytes: &Vec<u8>) -> (r: Result<(QueryVersionReply, usize), ParseError>)
        ensures
            bytes@.len() >= 16 ==> r == Ok::<(QueryVersionReply, usize), ParseError>(((QueryVersionReply {
                response_type: bytes@[0],
                sequence: le16_at(bytes@, 2),
                length: le32_at(bytes@, 4),
                major: le32_at(bytes@, 8),
                minor: le32_at(bytes@, 12),
            }), 16)),
            bytes@.len() < 16 ==> r == Err::<(QueryVersionReply, usize), ParseError>(ParseError::ParseError),
    {
        if bytes.len() < 16 {
            return Err(ParseError::ParseError);
        }
        Ok((QueryVersionReply {
            response_type: bytes[0],
            sequence: read_u16(bytes, 2),
            length: read_u32(bytes, 4),
            major: read_u32(bytes, 8),
            minor: read_u32(bytes, 12),
        }, 16))
    }
}

/// Wire bytes of a ListSurfaceTypes request.
pub open spec fn spec_list_surface_types_request(major_opcode: u8, port_id: u32) -> Seq<u8> {
    spec_request(major_opcode, LIST_SURFACE_TYPES_REQUEST, u32_le_bytes(port_id), Seq::empty())
}

/// Queue a ListSurfaceTypes request for a video port.
pub fn list_surface_types(conn: &mut Connection, port_id: u32) -> (r: Result<Cookie, ConnectionError>)
    requires old(conn).wf(),
    ensures
        final(conn).wf(),
        r matches Ok(c) ==> c.sequence == old(conn).next_sequence,
        spec_sent_via_extension(
            *old(conn),
            *final(conn),
            spec_extension_name(),
            (|op: u8| spec_list_surface_types_request(op, port_id)),
            Seq::empty(),
            true,
            false,
            spec_outcome(r, old(conn).next_sequence as int),
        ),
{
    let name = extension_name();
    let major_opcode = match conn.extension_opcode(&name) {
        Ok(op) => op,
        Err(e) => {
            return Err(e);
        },
    };
    let mut body: Vec<u8> = Vec::new();
    push_u32(&mut body, port_id);
    assert(body@ =~= u32_le_bytes(port_id));
    let payload: Vec<u8> = Vec::new();
    let bytes = build_request(major_opcode, LIST_SURFACE_TYPES_REQUEST, &body, &payload);
    let fds: Vec<RawFdContainer> = Vec::new();
    assert(fds@ =~= Seq::<RawFdContainer>::empty());
    match conn.send_request_with_reply(&bytes, &fds) {
        Ok(c) => Ok(c),
        Err(e) => Err(e),
    }
}

/// The surface types a port offers.
#[derive(Debug, Clone, PartialEq, Eq)]
pub struct ListSurfaceTypesReply {
    pub response_type: u8,
    pub sequence: u16,
    pub length: u32,
    pub surfaces: Vec<SurfaceInfo>,
}

impl ListSurfaceTypesReply {
    /// Decode the reply: the fixed fields, then the surface records the
    /// count at offset 8 declares.
    pub fn try_parse(bytes: &Vec<u8>) -> (r: Result<(ListSurfaceTypesReply, usize), ParseError>)
        ensures
            ({
                let b = bytes@;
                if b.len() >= 32 && b.len() >= 32 + 24 * (le32_at(b, 8) as int) {
                    match r {
                        Ok((reply, used)) => {
                            &&& reply.response_type == b[0]
                            &&& reply.sequence == le16_at(b, 2)
                            &&& reply.length == le32_at(b, 4)
                            &&& reply.surfaces@
                                == spec_surface_info_list(b, 32, le32_at(b, 8) as nat)
                            &&& used == 32 + 24 * (le32_at(b, 8) as int)
                        },
                        Err(_) => false,
                    }
                } else {
                    r is Err
                }
            }),
    {
        if bytes.len() < 32 {
            return Err(ParseError::ParseError);
        }
        let num = read_u32(bytes, 8);
        let need: u64 = 32 + 24 * (num as u64);
        if (bytes.len() as u64) < need {
            return Err(ParseError::ParseError);
        }
        let n: usize = num as usize;
        let len: usize = bytes.len();
        let mut surfaces: Vec<SurfaceInfo> = Vec::new();
        let mut j: usize = 0;
        while j < n
            invariant
                len == bytes@.len(),
                32 + 24 * n <= bytes@.len(),
                j <= n,
                surfaces@ == spec_surface_info_list(bytes@, 32, j as nat),
            decreases n - j,
        {
            match SurfaceInfo::try_parse_at(bytes, 32 + 24 * j) {
                Ok((info, _)) => {
                    surfaces.push(info);
                },
                Err(_) => {
                    assert(false);
                },
            }
            j = j + 1;
            assert(surfaces@ =~= spec_surface_info_list(bytes@, 32, j as nat));
        }
        Ok((ListSurfaceTypesReply {
            response_type: bytes[0],
            sequence: read_u16(bytes, 2),
            length: read_u32(bytes, 4),
            surfaces,
        }, need as usize))
    }
}

/// Wire bytes of a CreateContext request.
pub open spec fn spec_create_context_request(major_opcode: u8, context_id: CONTEXT, port_id: u32,
    surface_id: SURFACE, width: u16, height: u16, flags: u32) -> Seq<u8> {
    spec_request(
        major_opcode,
        CREATE_CONTEXT_REQUEST,
        u32_le_bytes(context_id) + u32_le_bytes(port_id) + u32_le_bytes(surface_id)
            + u16_le_bytes(width) + u16_le_bytes(height) + u32_le_bytes(flags),
        Seq::empty(),
    )
}

/// Queue a CreateContext request.
pub fn create_context(conn: &mut Connection, context_id: CONTEXT, port_id: u32,
    surface_id: SURFACE, width: u16, height: u16, flags: u32)
    -> (r: Result<Cookie, ConnectionError>)
    requires old(conn).wf(),
    ensures
        final(conn).wf(),
        r matches Ok(c) ==> c.sequence == old(conn).next_sequence,
        spec_sent_via_extension(
            *old(conn),
            *final(conn),
            spec_extension_name(),
            (|op: u8| spec_create_context_request(op, context_id, port_id, surface_id, width,
                height, flags)),
            Seq::empty(),
            true,
            false,
            spec_outcome(r, old(conn).next_sequence as int),
        ),
{
    let name = extension_name();
    let major_opcode = match conn.extension_opcode(&name) {
        Ok(op) => op,
        Err(e) => {
            return Err(e);
        },
    };
    let mut body: Vec<u8> = Vec::new();
    push_u32(&mut body, context_id);
    push_u32(&mut body, port_id);
    push_u32(&mut body, surface_id);
    push_u16(&mut body, width);
    push_u16(&mut body, height);
    push_u32(&mut body, flags);
    assert(body@ =~= u32_le_bytes(context_id) + u32_le_bytes(port_id) + u32_le_bytes(surface_id)
        + u16_le_bytes(width) + u16_le_bytes(height) + u32_le_bytes(flags));
    let payload: Vec<u8> = Vec::new();
    let bytes = build_request(major_opcode, CREATE_CONTEXT_REQUEST, &body, &payload);
    let fds: Vec<RawFdContainer> = Vec::new();
    assert(fds@ =~= Seq::<RawFdContainer>::empty());
    match conn.send_request_with_reply(&bytes, &fds) {
        Ok(c) => Ok(c),
        Err(e) => Err(e),
    }
}

/// What the server answered to CreateContext: the size and flags granted,
/// and the driver's private setup words.
#[derive(Debug, Clone, PartialEq, Eq)]
pub struct CreateContextReply {
    pub response_type: u8,
    pub sequence: u16,
    pub width_actual: u16,
    pub height_actual: u16,
    pub flags_return: u32,
    pub priv_data: Vec<u32>,
}

impl CreateContextReply {
    /// Decode the reply: the fixed fields, then as many private words as
    /// the length field at offset 4 declares.
    pub fn try_parse(bytes: &Vec<u8>) -> (r: Result<(CreateContextReply, usize), ParseError>)
        ensures
            ({
                let b = bytes@;
                if b.len() >= 36 && b.len() >= 36 + 4 * (le32_at(b, 4) as int) {
                    match r {
                        Ok((reply, used)) => {
                            &&& reply.response_type == b[0]
                            &&& reply.sequence == le16_at(b, 2)
                            &&& reply.width_actual == le16_at(b, 8)
                            &&& reply.height_actual == le16_at(b, 10)
                            &&& reply.flags_return == le32_at(b, 12)
                            &&& reply.priv_data@ == spec_u32_list(b, 36, le32_at(b, 4) as nat)
                            &&& used == 36 + 4 * (le32_at(b, 4) as int)
                        },
                        Err(_) => false,
                    }
                } else {
                    r is Err
                }
            }),
    {
        if bytes.len() < 36 {
            return Err(ParseError::ParseError);
        }
        let length = read_u32(bytes, 4);
        let need: u64 = 36 + 4 * (length as u64);
        if (bytes.len() as u64) < need {
            return Err(ParseError::ParseError);
        }
        let priv_data = parse_u32_list(bytes, 36, length as usize);
        Ok((CreateContextReply {
            response_type: bytes[0],
            sequence: read_u16(bytes, 2),
            width_actual: read_u16(bytes, 8),
            height_actual: read_u16(bytes, 10),
            flags_return: read_u32(bytes, 12),
            priv_data,
        }, need as usize))
    }
}

/// Wire bytes of a DestroyContext request.
pub open spec fn spec_destroy_context_request(major_opcode: u8, context_id: CONTEXT) -> Seq<u8> {
    spec_request(major_opcode, DESTROY_CONTEXT_REQUEST, u32_le_bytes(context_id), Seq::empty())
}

/// Queue a DestroyContext request; it defines no reply.
pub fn destroy_context(conn: &mut Connection, context_id: CONTEXT)
    -> (r: Result<VoidCookie, ConnectionError>)
    requires old(conn).wf(),
    ensures
        final(conn).wf(),
        r matches Ok(c) ==> c.sequence == old(conn).next_sequence,
        spec_sent_via_extension(
            *old(conn),
            *final(conn),
            spec_extension_name(),
            (|op: u8| spec_destroy_context_request(op, context_id)),
            Seq::empty(),
            false,
            false,
            spec_outcome(r, old(conn).next_sequence as int),
        ),
{
    let name = extension_name();
    let major_opcode = match conn.extension_opcode(&name) {
        Ok(op) => op,
        Err(e) => {
            return Err(e);
        },
    };
    let mut body: Vec<u8> = Vec::new();
    push_u32(&mut body, context_id);
    assert(body@ =~= u32_le_bytes(context_id));
    let payload: Vec<u8> = Vec::new();
    let bytes = build_request(major_opcode, DESTROY_CONTEXT_REQUEST, &body, &payload);
    let fds: Vec<RawFdContainer> = Vec::new();
    assert(fds@ =~= Seq::<RawFdContainer>::empty());
    match conn.send_request_without_reply(&bytes, &fds) {
        Ok(c) => Ok(c),
        Err(e) => Err(e),
    }
}

/// Wire bytes of a CreateSurface request.
pub open spec fn spec_create_surface_request(major_opcode: u8, surface_id: SURFACE,
    context_id: CONTEXT) -> Seq<u8> {
    spec_request(
        major_opcode,
        CREATE_SURFACE_REQUEST,
        u32_le_bytes(surface_id) + u32_le_bytes(context_id),
        Seq::empty(),
    )
}

/// Queue a CreateSurface request.
pub fn create_surface(conn: &mut Connection, surface_id: SURFACE, context_id: CONTEXT)
    -> (r: Result<Cookie, ConnectionError>)
    requires old(conn).wf(),
    ensures
        final(conn).wf(),
        r matches Ok(c) ==> c.sequence == old(conn).next_sequence,
        spec_sent_via_extension(
            *old(conn),
            *final(conn),
            spec_extension_name(),
            (|op: u8| spec_create_surface_request(op, surface_id, context_id)),
            Seq::empty(),
            true,
            false,
            spec_outcome(r, old(conn).next_sequence as int),
        ),
{
    let name = extension_name();
    let major_opcode = match conn.extension_opcode(&name) {
        Ok(op) => op,
        Err(e) => {
            return Err(e);
        },
    };
    let mut body: Vec<u8> = Vec::new();
    push_u32(&mut body, surface_id);
    push_u32(&mut body, context_id);
    assert(body@ =~= u32_le_bytes(surface_id) + u32_le_bytes(context_id));
    let payload: Vec<u8> = Vec::new();
    let bytes = build_request(major_opcode, CREATE_SURFACE_REQUEST, &body, &payload);
    let fds: Vec<RawFdContainer> = Vec::new();
    assert(fds@ =~= Seq::<RawFdContainer>::empty());
    match conn.send_request_with_reply(&bytes, &fds) {
        Ok(c) => Ok(c),
        Err(e) => Err(e),
    }
}

/// What the server answered to CreateSurface: the driver's private setup
/// words.
#[derive(Debug, Clone, PartialEq, Eq)]
pub struct CreateSurfaceReply {
    pub response_type: u8,
    pub sequence: u16,
    pub priv_data: Vec<u32>,
}

impl CreateSurfaceReply {
    /// Decode the reply: the fixed fields, then as many private words as
    /// the length field at offset 4 declares.
    pub fn try_parse(bytes: &Vec<u8>) -> (r: Result<(CreateSurfaceReply, usize), ParseError>)
        ensures
            ({
                let b = bytes@;
                if b.len() >= 32 && b.len() >= 32 + 4 * (le32_at(b, 4) as int) {
                    match r {
                        Ok((reply, used)) => {
                            &&& reply.response_type == b[0]
                            &&& reply.sequence == le16_at(b, 2)
                            &&& reply.priv_data@ == spec_u32_list(b, 32, le32_at(b, 4) as nat)
                            &&& used == 32 + 4 * (le32_at(b, 4) as int)
                        },
                        Err(_) => false,
                    }
                } else {
                    r is Err
                }
            }),
    {
        if bytes.len() < 32 {
            return Err(ParseError::ParseError);
        }
        let length = read_u32(bytes, 4);
        let need: u64 = 32 + 4 * (length as u64);
        if (bytes.len() as u64) < need {
            return Err(ParseError::ParseError);
        }
        let priv_data = parse_u32_list(bytes, 32, length as usize);
        Ok((CreateSurfaceReply {
            response_type: bytes[0],
            sequence: read_u16(bytes, 2),
            priv_data,
        }, need as usize))
    }
}

/// Wire bytes of a DestroySurface request.
pub open spec fn spec_destroy_surface_request(major_opcode: u8, surface_id: SURFACE) -> Seq<u8> {
    spec_request(major_opcode, DESTROY_SURFACE_REQUEST, u32_le_bytes(surface_id), Seq::empty())
}

/// Queue a DestroySurface request; it defines no reply.
pub fn destroy_surface(conn: &mut Connection, surface_id: SURFACE)
    -> (r: Result<VoidCookie, ConnectionError>)
    requires old(conn).wf(),
    ensures
        final(conn).wf(),
        r matches Ok(c) ==> c.sequence == old(conn).next_sequence,
        spec_sent_via_extension(
            *old(conn),
            *final(conn),
            spec_extension_name(),
            (|op: u8| spec_destroy_surface_request(op, surface_id)),
            Seq::empty(),
            false,
            false,
            spec_outcome(r, old(conn).next_sequence as int),
        ),
{
    let name = extension_name();
    let major_opcode = match conn.extension_opcode(&name) {
        Ok(op) => op,
        Err(e) => {
            return Err(e);
        },
    };
    let mut body: Vec<u8> = Vec::new();
    push_u32(&mut body, surface_id);
    assert(body@ =~= u32_le_bytes(surface_id));
    let payload: Vec<u8> = Vec::new();
    let bytes = build_request(major_opcode, DESTROY_SURFACE_REQUEST, &body, &payload);
    let fds: Vec<RawFdContainer> = Vec::new();
    assert(fds@ =~= Seq::<RawFdContainer>::empty());
    match conn.send_request_without_reply(&bytes, &fds) {
        Ok(c) => Ok(c),
        Err(e) => Err(e),
    }
}

/// Wire bytes of a CreateSubpicture request.
pub open spec fn spec_create_subpicture_request(major_opcode: u8, subpicture_id: SUBPICTURE,
    context: CONTEXT, xvimage_id: u32, width: u16, height: u16) -> Seq<u8> {
    spec_request(
        major_opcode,
        CREATE_SUBPICTURE_REQUEST,
        u32_le_bytes(subpicture_id) + u32_le_bytes(context) + u32_le_bytes(xvimage_id)
            + u16_le_bytes(width) + u16_le_bytes(height),
        Seq::empty(),
    )
}

/// Queue a CreateSubpicture request.
pub fn create_subpicture(conn: &mut Connection, subpicture_id: SUBPICTURE, context: CONTEXT,
    xvimage_id: u32, width: u16, height: u16)
    -> (r: Result<Cookie, ConnectionError>)
    requires old(conn).wf(),
    ensures
        final(conn).wf(),
        r matches Ok(c) ==> c.sequence == old(conn).next_sequence,
        spec_sent_via_extension(
            *old(conn),
            *final(conn),
            spec_extension_name(),
            (|op: u8| spec_create_subpicture_request(op, subpicture_id, context, xvimage_id,
                width, height)),
            Seq::empty(),
            true,
            false,
            spec_outcome(r, old(conn).next_sequence as int),
        ),
{
    let name = extension_name();
    let major_opcode = match conn.extension_opcode(&name) {
        Ok(op) => op,
        Err(e) => {
            return Err(e);
        },
    };
    let mut body: Vec<u8> = Vec::new();
    push_u32(&mut body, subpicture_id);
    push_u32(&mut body, context);
    push_u32(&mut body, xvimage_id);
    push_u16(&mut body, width);
    push_u16(&mut body, height);
    assert(body@ =~= u32_le_bytes(subpicture_id) + u32_le_bytes(context)
        + u32_le_bytes(xvimage_id) + u16_le_bytes(width) + u16_le_bytes(height));
    let payload: Vec<u8> = Vec::new();
    let bytes = build_request(major_opcode, CREATE_SUBPICTURE_REQUEST, &body, &payload);
    let fds: Vec<RawFdContainer> = Vec::new();
    assert(fds@ =~= Seq::<RawFdContainer>::empty());
    match conn.send_request_with_reply(&bytes, &fds) {
        Ok(c) => Ok(c),
        Err(e) => Err(e),
    }
}

/// What the server answered to CreateSubpicture: the size granted, the
/// palette shape, the component order, and the driver's private words.
#[derive(Debug, Clone, PartialEq, Eq)]
pub struct CreateSubpictureReply {
    pub response_type: u8,
    pub sequence: u16,
    pub width_actual: u16,
    pub height_actual: u16,
    pub num_palette_entries: u16,
    pub entry_bytes: u16,
    pub component_order: [u8; 4],
    pub priv_data: Vec<u32>,
}

impl CreateSubpictureReply {
    /// Decode the reply: the fixed fields, then as many private words as
    /// the length field at offset 4 declares.
    pub fn try_parse(bytes: &Vec<u8>) -> (r: Result<(CreateSubpictureReply, usize), ParseError>)
        ensures
            ({
                let b = bytes@;
                if b.len() >= 32 && b.len() >= 32 + 4 * (le32_at(b, 4) as int) {
                    match r {
                        Ok((reply, used)) => {
                            &&& reply.response_type == b[0]
                            &&& reply.sequence == le16_at(b, 2)
                            &&& reply.width_actual == le16_at(b, 8)
                            &&& reply.height_actual == le16_at(b, 10)
                            &&& reply.num_palette_entries == le16_at(b, 12)
                            &&& reply.entry_bytes == le16_at(b, 14)
                            &&& reply.component_order@ == seq![b[16], b[17], b[18], b[19]]
                            &&& reply.priv_data@ == spec_u32_list(b, 32, le32_at(b, 4) as nat)
                            &&& used == 32 + 4 * (le32_at(b, 4) as int)
                        },
                        Err(_) => false,
                    }
                } else {
                    r is Err
                }
            }),
    {
        if bytes.len() < 32 {
            return Err(ParseError::ParseError);
        }
        let length = read_u32(bytes, 4);
        let need: u64 = 32 + 4 * (length as u64);
        if (bytes.len() as u64) < need {
            return Err(ParseError::ParseError);
        }
        let priv_data = parse_u32_list(bytes, 32, length as usize);
        let component_order: [u8; 4] = [bytes[16], bytes[17], bytes[18], bytes[19]];
        assert(component_order@ =~= seq![bytes@[16], bytes@[17], bytes@[18], bytes@[19]]);
        Ok((CreateSubpictureReply {
            response_type: bytes[0],
            sequence: read_u16(bytes, 2),
            width_actual: read_u16(bytes, 8),
            height_actual: read_u16(bytes, 10),
            num_palette_entries: read_u16(bytes, 12),
            entry_bytes: read_u16(bytes, 14),
            component_order,
            priv_data,
        }, need as usize))
    }
}

/// Wire bytes of a DestroySubpicture request.
pub open spec fn spec_destroy_subpicture_request(major_opcode: u8, subpicture_id: SUBPICTURE) -> Seq<u8> {
    spec_request(major_opcode, DESTROY_SUBPICTURE_REQUEST, u32_le_bytes(subpicture_id), Seq::empty())
}

/// Queue a DestroySubpicture request; it defines no reply.
pub fn destroy_subpicture(conn: &mut Connection, subpicture_id: SUBPICTURE)
    -> (r: Result<VoidCookie, ConnectionError>)
    requires old(conn).wf(),
    ensures
        final(conn).wf(),
        r matches Ok(c) ==> c.sequence == old(conn).next_sequence,
        spec_sent_via_extension(
            *old(conn),
            *final(conn),
            spec_extension_name(),
            (|op: u8| spec_destroy_subpicture_request(op, subpicture_id)),
            Seq::empty(),
            false,
            false,
            spec_outcome(r, old(conn).next_sequence as int),
        ),
{
    let name = extension_name();
    let major_opcode = match conn.extension_opcode(&name) {
        Ok(op) => op,
        Err(e) => {
            return Err(e);
        },
    };
    let mut body: Vec<u8> = Vec::new();
    push_u32(&mut body, subpicture_id);
    assert(body@ =~= u32_le_bytes(subpicture_id));
    let payload: Vec<u8> = Vec::new();
    let bytes = build_request(major_opcode, DESTROY_SUBPICTURE_REQUEST, &body, &payload);
    let fds: Vec<RawFdContainer> = Vec::new();
    assert(fds@ =~= Seq::<RawFdContainer>::empty());
    match conn.send_request_without_reply(&bytes, &fds) {
        Ok(c) => Ok(c),
        Err(e) => Err(e),
    }
}

/// Wire bytes of a ListSubpictureTypes request.
pub open spec fn spec_list_subpicture_types_request(major_opcode: u8, port_id: u32,
    surface_id: SURFACE) -> Seq<u8> {
    spec_request(
        major_opcode,
        LIST_SUBPICTURE_TYPES_REQUEST,
        u32_le_bytes(port_id) + u32_le_bytes(surface_id),
        Seq::empty(),
    )
}

/// Queue a ListSubpictureTypes request.  Its reply lists image formats of
/// the video schema family, which an outside decoder interprets.
pub fn list_subpicture_types(conn: &mut Connection, port_id: u32, surface_id: SURFACE)
    -> (r: Result<Cookie, ConnectionError>)
    requires old(conn).wf(),
    ensures
        final(conn).wf(),
        r matches Ok(c) ==> c.sequence == old(conn).next_sequence,
        spec_sent_via_extension(
            *old(conn),
            *final(conn),
            spec_extension_name(),
            (|op: u8| spec_list_subpicture_types_request(op, port_id, surface_id)),
            Seq::empty(),
            true,
            false,
            spec_outcome(r, old(conn).next_sequence as int),
        ),
{
    let name = extension_name();
    let major_opcode = match conn.extension_opcode(&name) {
        Ok(op) => op,
        Err(e) => {
            return Err(e);
        },
    };
    let mut body: Vec<u8> = Vec::new();
    push_u32(&mut body, port_id);
    push_u32(&mut body, surface_id);
    assert(body@ =~= u32_le_bytes(port_id) + u32_le_bytes(surface_id));
    let payload: Vec<u8> = Vec::new();
    let bytes = build_request(major_opcode, LIST_SUBPICTURE_TYPES_REQUEST, &body, &payload);
    let fds: Vec<RawFdContainer> = Vec::new();
    assert(fds@ =~= Seq::<RawFdContainer>::empty());
    match conn.send_request_with_reply(&bytes, &fds) {
        Ok(c) => Ok(c),
        Err(e) => Err(e),
    }
}

} // verus!
