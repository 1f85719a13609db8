//! Byte-level bindings to the security-context extension: requests that
//! read and set the mandatory-access-control labels of devices, windows,
//! properties and selections.
//!
//! Each request type carries its exact wire bytes in its contract; the
//! send functions queue those bytes on the connection under a fresh
//! sequence number once the extension's major opcode is known.

use vstd::prelude::*;
use crate::connection::{Connection, Cookie, VoidCookie, spec_outcome, spec_sent_via_extension};
use crate::errors::{ConnectionError, ParseError};
use crate::fdqueue::RawFdContainer;
use crate::wire::{
    build_request, copy_range, le16_at, le32_at, pad4, push_u32, read_u16, read_u32,
    u32_le_bytes, spec_request, zeros,
};
use crate::xproto;

verus! {

/// The name this extension is discovered under.
pub open spec fn spec_extension_name() -> Seq<u8> {
    seq![83u8, 69u8, 76u8, 105u8, 110u8, 117u8, 120u8]
}

/// The name this extension is discovered under, as bytes.
pub fn extension_name() -> (r: Vec<u8>)
    ensures r@ == spec_extension_name(),
{
    let mut r: Vec<u8> = Vec::new();
    r.push(83);
    r.push(69);
    r.push(76);
    r.push(105);
    r.push(110);
    r.push(117);
    r.push(120);
    assert(r@ =~= spec_extension_name());
    r
}

/// Layout shared by every context-carrying reply: the fixed fields, then
/// the context bytes whose count stands at offset 8.
fn parse_context_reply(bytes: &Vec<u8>) -> (r: Result<(u8, u16, u32, Vec<u8>, usize), ParseError>)
    ensures
        ({
            let b = bytes@;
            if b.len() >= 32 && b.len() >= 32 + le32_at(b, 8) {
                match r {
                    Ok((rt, seq, len, ctx, used)) => {
                        &&& rt == b[0]
                        &&& seq == le16_at(b, 2)
                        &&& len == le32_at(b, 4)
                        &&& ctx@ == b.subrange(32, 32 + le32_at(b, 8))
                        &&& used == 32 + le32_at(b, 8)
                    },
                    Err(_) => false,
                }
            } else {
                r == Err::<(u8, u16, u32, Vec<u8>, usize), ParseError>(ParseError::ParseError)
            }
        }),
{
    if bytes.len() < 32 {
        return Err(ParseError::ParseError);
    }
    let context_len = read_u32(bytes, 8);
    let need: u64 = 32 + context_len as u64;
    if (bytes.len() as u64) < need {
        return Err(ParseError::ParseError);
    }
    let context = copy_range(bytes, 32, context_len as usize);
    Ok((bytes[0], read_u16(bytes, 2), read_u32(bytes, 4), context, need as usize))
}

/// Asks which protocol version the server offers.
#[derive(Debug, Clone, Copy, PartialEq, Eq, Structural)]
pub struct QueryVersionRequest {
    pub client_major: u8,
    pub client_minor: u8,
}

impl QueryVersionRequest {
    /// Opcode for this request
    pub fn opcode() -> (r: u8)
        ensures r == 0,
    {
        0
    }

    /// The request's exact wire bytes under the extension's major opcode.
    pub open spec fn spec_serialize(self, major_opcode: u8) -> Seq<u8> {
        spec_request(major_opcode, 0, seq![self.client_major, self.client_minor, 0u8, 0u8], Seq::empty())
    }

    /// Serialize this request into bytes for the wire.
    pub fn serialize(&self, major_opcode: u8) -> (r: Vec<u8>)
        ensures r@ == self.spec_serialize(major_opcode),
    {
        let mut body: Vec<u8> = Vec::new();
        body.push(self.client_major);
        body.push(self.client_minor);
        body.push(0);
        body.push(0);
        assert(body@ =~= seq![self.client_major, self.client_minor, 0u8, 0u8]);
        let payload: Vec<u8> = Vec::new();
        assert(payload@ =~= Seq::<u8>::empty());
        build_request(major_opcode, 0, &body, &payload)
    }
}

/// Queue a QueryVersion request.
pub fn query_version(conn: &mut Connection, client_major: u8, client_minor: u8)
    -> (r: Result<Cookie, ConnectionError>)
    requires
        old(conn).wf(),
    ensures
        final(conn).wf(),
        r matches Ok(c) ==> c.sequence == old(conn).next_sequence,
        spec_sent_via_extension(
            *old(conn),
            *final(conn),
            spec_extension_name(),
            (|op: u8| (QueryVersionRequest { client_major, client_minor }).spec_serialize(op)),
            Seq::empty(),
            true,
            false,
            spec_outcome(r, old(conn).next_sequence as int),
        ),
{
    let name = extension_name();
    let major_opcode = match conn.extension_opcode(&name) {
        Ok(op) => op,
        Err(e) => {
            return Err(e);
        },
    };
    let request = QueryVersionRequest { client_major, client_minor };
    let bytes = request.serialize(major_opcode);
    let fds: Vec<RawFdContainer> = Vec::new();
    assert(fds@ =~= Seq::<RawFdContainer>::empty());
    match conn.send_request_with_reply(&bytes, &fds) {
        Ok(c) => Ok(c),
        Err(e) => Err(e),
    }
}

/// What the server answered to QueryVersion.
#[derive(Debug, Clone, Copy, PartialEq, Eq, Structural)]
pub struct QueryVersionReply {
    pub response_type: u8,
    pub sequence: u16,
    pub length: u32,
    pub server_major: u16,
    pub server_minor: u16,
}

impl QueryVersionReply {
    /// Decode the reply's fixed fields; the count returned is how many
    /// bytes were consumed.
    pub fn try_parse(bytes: &Vec<u8>) -> (r: Result<(QueryVersionReply, usize), ParseError>)
        ensures
            bytes@.len() >= 12 ==> r == Ok::<(QueryVersionReply, usize), ParseError>(((QueryVersionReply {
                response_type: bytes@[0],
                sequence: le16_at(bytes@, 2),
                length: le32_at(bytes@, 4),
                server_major: le16_at(bytes@, 8),
                server_minor: le16_at(bytes@, 10),
            }), 12)),
            bytes@.len() < 12 ==> r == Err::<(QueryVersionReply, usize), ParseError>(ParseError::ParseError),
    {
        if bytes.len() < 12 {
            return Err(ParseError::ParseError);
        }
        Ok((QueryVersionReply {
            response_type: bytes[0],
            sequence: read_u16(bytes, 2),
            length: read_u32(bytes, 4),
            server_major: read_u16(bytes, 8),
            server_minor: read_u16(bytes, 10),
        }, 12))
    }
}

/// Sets the context new devices are labelled with.
#[derive(Debug, Clone, PartialEq, Eq)]
pub struct SetDeviceCreateContextRequest {
    pub context: Vec<u8>,
}

impl SetDeviceCreateContextRequest {
    /// Opcode for this request
    pub fn opcode() -> (r: u8)
        ensures r == 1,
    {
        1
    }

    /// The request's exact wire bytes under the extension's major opcode:
    /// the context bytes follow the fixed fields, padded to 4 bytes.
    pub open spec fn spec_serialize(self, major_opcode: u8) -> Seq<u8> {
        spec_request(major_opcode, 1, u32_le_bytes(self.context@.len() as u32), self.context@)
    }

    /// Serialize this request into bytes for the wire.
    pub fn serialize(&self, major_opcode: u8) -> (r: Vec<u8>)
        requires
            self.context@.len() <= 0xFFFF_FFFF,
            self.context@.len() + 16 <= usize::MAX,
        ensures r@ == self.spec_serialize(major_opcode),
    {
        let mut body: Vec<u8> = Vec::new();
        push_u32(&mut body, self.context.len() as u32);
        assert(body@ =~= u32_le_bytes(self.context@.len() as u32));
        build_request(major_opcode, 1, &body, &self.context)
    }
}

/// Queue a SetDeviceCreateContext request; it defines no reply.
pub fn set_device_create_context(conn: &mut Connection, context: &Vec<u8>)
    -> (r: Result<VoidCookie, ConnectionError>)
    requires
        old(conn).wf(),
        context@.len() <= 0xFFFF_FFFF,
        context@.len() + 16 <= usize::MAX,
    ensures
        final(conn).wf(),
        r matches Ok(c) ==> c.sequence == old(conn).next_sequence,
        spec_sent_via_extension(
            *old(conn),
            *final(conn),
            spec_extension_name(),
            (|op: u8| (SetDeviceCreateContextRequest { context: *context }).spec_serialize(op)),
            Seq::empty(),
            false,
            false,
            spec_outcome(r, old(conn).next_sequence as int),
        ),
{
    let name = extension_name();
    let major_opcode = match conn.extension_opcode(&name) {
        Ok(op) => op,
        Err(e) => {
            return Err(e);
        },
    };
    let context_copy = copy_range(context, 0, context.len());
    assert(context_copy@ =~= context@);
    let request = SetDeviceCreateContextRequest { context: context_copy };
    let bytes = request.serialize(major_opcode);
    let fds: Vec<RawFdContainer> = Vec::new();
    assert(fds@ =~= Seq::<RawFdContainer>::empty());
    match conn.send_request_without_reply(&bytes, &fds) {
        Ok(c) => Ok(c),
        Err(e) => Err(e),
    }
}

/// Sets the context new windows are labelled with.
#[derive(Debug, Clone, PartialEq, Eq)]
pub struct SetWindowCreateContextRequest {
    pub context: Vec<u8>,
}

impl SetWindowCreateContextRequest {
    /// Opcode for this request
    pub fn opcode() -> (r: u8)
        ensures r == 5,
    {
        5
    }

    /// The request's exact wire bytes under the extension's major opcode:
    /// the context bytes follow the fixed fields, padded to 4 bytes.
    pub open spec fn spec_serialize(self, major_opcode: u8) -> Seq<u8> {
        spec_request(major_opcode, 5, u32_le_bytes(self.context@.len() as u32), self.context@)
    }

    /// Serialize this request into bytes for the wire.
    pub fn serialize(&self, major_opcode: u8) -> (r: Vec<u8>)
        requires
            self.context@.len() <= 0xFFFF_FFFF,
            self.context@.len() + 16 <= usize::MAX,
        ensures r@ == self.spec_serialize(major_opcode),
    {
        let mut body: Vec<u8> = Vec::new();
        push_u32(&mut body, self.context.len() as u32);
        assert(body@ =~= u32_le_bytes(self.context@.len() as u32));
        build_request(major_opcode, 5, &body, &self.context)
    }
}

/// Queue a SetWindowCreateContext request; it defines no reply.
pub fn set_window_create_context(conn: &mut Connection, context: &Vec<u8>)
    -> (r: Result<VoidCookie, ConnectionError>)
    requires
        old(conn).wf(),
        context@.len() <= 0xFFFF_FFFF,
        context@.len() + 16 <= usize::MAX,
    ensures
        final(conn).wf(),
        r matches Ok(c) ==> c.sequence == old(conn).next_sequence,
        spec_sent_via_extension(
            *old(conn),
            *final(conn),
            spec_extension_name(),
            (|op: u8| (SetWindowCreateContextRequest { context: *context }).spec_serialize(op)),
            Seq::empty(),
            false,
            false,
            spec_outcome(r, old(conn).next_sequence as int),
        ),
{
    let name = extension_name();
    let major_opcode = match conn.extension_opcode(&name) {
        Ok(op) => op,
        Err(e) => {
            return Err(e);
        },
    };
    let context_copy = copy_range(context, 0, context.len());
    assert(context_copy@ =~= context@);
    let request = SetWindowCreateContextRequest { context: context_copy };
    let bytes = request.serialize(major_opcode);
    let fds: Vec<RawFdContainer> = Vec::new();
    assert(fds@ =~= Seq::<RawFdContainer>::empty());
    match conn.send_request_without_reply(&bytes, &fds) {
        Ok(c) => Ok(c),
        Err(e) => Err(e),
    }
}

/// Sets the context new properties are labelled with.
#[derive(Debug, Clone, PartialEq, Eq)]
pub struct SetPropertyCreateContextRequest {
    pub context: Vec<u8>,
}

impl SetPropertyCreateContextRequest {
    /// Opcode for this request
    pub fn opcode() -> (r: u8)
        ensures r == 8,
    {
        8
    }

    /// The request's exact wire bytes under the extension's major opcode:
    /// the context bytes follow the fixed fields, padded to 4 bytes.
    pub open spec fn spec_serialize(self, major_opcode: u8) -> Seq<u8> {
        spec_request(major_opcode, 8, u32_le_bytes(self.context@.len() as u32), self.context@)
    }

    /// Serialize this request into bytes for the wire.
    pub fn serialize(&self, major_opcode: u8) -> (r: Vec<u8>)
        requires
            self.context@.len() <= 0xFFFF_FFFF,
            self.context@.len() + 16 <= usize::MAX,
        ensures r@ == self.spec_serialize(major_opcode),
    {
        let mut body: Vec<u8> = Vec::new();
        push_u32(&mut body, self.context.len() as u32);
        assert(body@ =~= u32_le_bytes(self.context@.len() as u32));
        build_request(major_opcode, 8, &body, &self.context)
    }
}

/// Queue a SetPropertyCreateContext request; it defines no reply.
pub fn set_property_create_context(conn: &mut Connection, context: &Vec<u8>)
    -> (r: Result<VoidCookie, ConnectionError>)
    requires
        old(conn).wf(),
        context@.len() <= 0xFFFF_FFFF,
        context@.len() + 16 <= usize::MAX,
    ensures
        final(conn).wf(),
        r matches Ok(c) ==> c.sequence == old(conn).next_sequence,
        spec_sent_via_extension(
            *old(conn),
            *final(conn),
            spec_extension_name(),
            (|op: u8| (SetPropertyCreateContextRequest { context: *context }).spec_serialize(op)),
            Seq::empty(),
            false,
            false,
            spec_outcome(r, old(conn).next_sequence as int),
        ),
{
    let name = extension_name();
    let major_opcode = match conn.extension_opcode(&name) {
        Ok(op) => op,
        Err(e) => {
            return Err(e);
        },
    };
    let context_copy = copy_range(context, 0, context.len());
    assert(context_copy@ =~= context@);
    let request = SetPropertyCreateContextRequest { context: context_copy };
    let bytes = request.serialize(major_opcode);
    let fds: Vec<RawFdContainer> = Vec::new();
    assert(fds@ =~= Seq::<RawFdContainer>::empty());
    match conn.send_request_without_reply(&bytes, &fds) {
        Ok(c) => Ok(c),
        Err(e) => Err(e),
    }
}

/// Sets the context used when reading properties.
#[derive(Debug, Clone, PartialEq, Eq)]
pub struct SetPropertyUseContextRequest {
    pub context: Vec<u8>,
}

impl SetPropertyUseContextRequest {
    /// Opcode for this request
    pub fn opcode() -> (r: u8)
        ensures r == 10,
    {
        10
    }

    /// The request's exact wire bytes under the extension's major opcode:
    /// the context bytes follow the fixed fields, padded to 4 bytes.
    pub open spec fn spec_serialize(self, major_opcode: u8) -> Seq<u8> {
        spec_request(major_opcode, 10, u32_le_bytes(self.context@.len() as u32), self.context@)
    }

    /// Serialize this request into bytes for the wire.
    pub fn serialize(&self, major_opcode: u8) -> (r: Vec<u8>)
        requires
            self.context@.len() <= 0xFFFF_FFFF,
            self.context@.len() + 16 <= usize::MAX,
        ensures r@ == self.spec_serialize(major_opcode),
    {
        let mut body: Vec<u8> = Vec::new();
        push_u32(&mut body, self.context.len() as u32);
        assert(body@ =~= u32_le_bytes(self.context@.len() as u32));
        build_request(major_opcode, 10, &body, &self.context)
    }
}

/// Queue a SetPropertyUseContext request; it defines no reply.
pub fn set_property_use_context(conn: &mut Connection, context: &Vec<u8>)
    -> (r: Result<VoidCookie, ConnectionError>)
    requires
        old(conn).wf(),
        context@.len() <= 0xFFFF_FFFF,
        context@.len() + 16 <= usize::MAX,
    ensures
        final(conn).wf(),
        r matches Ok(c) ==> c.sequence == old(conn).next_sequence,
        spec_sent_via_extension(
            *old(conn),
            *final(conn),
            spec_extension_name(),
            (|op: u8| (SetPropertyUseContextRequest { context: *context }).spec_serialize(op)),
            Seq::empty(),
            false,
            false,
            spec_outcome(r, old(conn).next_sequence as int),
        ),
{
    let name = extension_name();
    let major_opcode = match conn.extension_opcode(&name) {
        Ok(op) => op,
        Err(e) => {
            return Err(e);
        },
    };
    let context_copy = copy_range(context, 0, context.len());
    assert(context_copy@ =~= context@);
    let request = SetPropertyUseContextRequest { context: context_copy };
    let bytes = request.serialize(major_opcode);
    let fds: Vec<RawFdContainer> = Vec::new();
    assert(fds@ =~= Seq::<RawFdContainer>::empty());
    match conn.send_request_without_reply(&bytes, &fds) {
        Ok(c) => Ok(c),
        Err(e) => Err(e),
    }
}

/// Sets the context new selections are labelled with.
#[derive(Debug, Clone, PartialEq, Eq)]
pub struct SetSelectionCreateContextRequest {
    pub context: Vec<u8>,
}

impl SetSelectionCreateContextRequest {
    /// Opcode for this request
    pub fn opcode() -> (r: u8)
        ensures r == 15,
    {
        15
    }

    /// The request's exact wire bytes under the extension's major opcode:
    /// the context bytes follow the fixed fields, padded to 4 bytes.
    pub open spec fn spec_serialize(self, major_opcode: u8) -> Seq<u8> {
        spec_request(major_opcode, 15, u32_le_bytes(self.context@.len() as u32), self.context@)
    }

    /// Serialize this request into bytes for the wire.
    pub fn serialize(&self, major_opcode: u8) -> (r: Vec<u8>)
        requires
            self.context@.len() <= 0xFFFF_FFFF,
            self.context@.len() + 16 <= usize::MAX,
        ensures r@ == self.spec_serialize(major_opcode),
    {
        let mut body: Vec<u8> = Vec::new();
        push_u32(&mut body, self.context.len() as u32);
        assert(body@ =~= u32_le_bytes(self.context@.len() as u32));
        build_request(major_opcode, 15, &body, &self.context)
    }
}

/// Queue a SetSelectionCreateContext request; it defines no reply.
pub fn set_selection_create_context(conn: &mut Connection, context: &Vec<u8>)
    -> (r: Result<VoidCookie, ConnectionError>)
    requires
        old(conn).wf(),
        context@.len() <= 0xFFFF_FFFF,
        context@.len() + 16 <= usize::MAX,
    ensures
        final(conn).wf(),
        r matches Ok(c) ==> c.sequence == old(conn).next_sequence,
        spec_sent_via_extension(
            *old(conn),
            *final(conn),
            spec_extension_name(),
            (|op: u8| (SetSelectionCreateContextRequest { context: *context }).spec_serialize(op)),
            Seq::empty(),
            false,
            false,
            spec_outcome(r, old(conn).next_sequence as int),
        ),
{
    let name = extension_name();
    let major_opcode = match conn.extension_opcode(&name) {
        Ok(op) => op,
        Err(e) => {
            return Err(e);
        },
    };
    let context_copy = copy_range(context, 0, context.len());
    assert(context_copy@ =~= context@);
    let request = SetSelectionCreateContextRequest { context: context_copy };
    let bytes = request.serialize(major_opcode);
    let fds: Vec<RawFdContainer> = Vec::new();
    assert(fds@ =~= Seq::<RawFdContainer>::empty());
    match conn.send_request_without_reply(&bytes, &fds) {
        Ok(c) => Ok(c),
        Err(e) => Err(e),
    }
}

/// Sets the context used when reading selections.
#[derive(Debug, Clone, PartialEq, Eq)]
pub struct SetSelectionUseContextRequest {
    pub context: Vec<u8>,
}

impl SetSelectionUseContextRequest {
    /// Opcode for this request
    pub fn opcode() -> (r: u8)
        ensures r == 17,
    {
        17
    }

    /// The request's exact wire bytes under the extension's major opcode:
    /// the context bytes follow the fixed fields, padded to 4 bytes.
    pub open spec fn spec_serialize(self, major_opcode: u8) -> Seq<u8> {
        spec_request(major_opcode, 17, u32_le_bytes(self.context@.len() as u32), self.context@)
    }

    /// Serialize this request into bytes for the wire.
    pub fn serialize(&self, major_opcode: u8) -> (r: Vec<u8>)
        requires
            self.context@.len() <= 0xFFFF_FFFF,
            self.context@.len() + 16 <= usize::MAX,
        ensures r@ == self.spec_serialize(major_opcode),
    {
        let mut body: Vec<u8> = Vec::new();
        push_u32(&mut body, self.context.len() as u32);
        assert(body@ =~= u32_le_bytes(self.context@.len() as u32));
        build_request(major_opcode, 17, &body, &self.context)
    }
}

/// Queue a SetSelectionUseContext request; it defines no reply.
pub fn set_selection_use_context(conn: &mut Connection, context: &Vec<u8>)
    -> (r: Result<VoidCookie, ConnectionError>)
    requires
        old(conn).wf(),
        context@.len() <= 0xFFFF_FFFF,
        context@.len() + 16 <= usize::MAX,
    ensures
        final(conn).wf(),
        r matches Ok(c) ==> c.sequence == old(conn).next_sequence,
        spec_sent_via_extension(
            *old(conn),
            *final(conn),
            spec_extension_name(),
            (|op: u8| (SetSelectionUseContextRequest { context: *context }).spec_serialize(op)),
            Seq::empty(),
            false,
            false,
            spec_outcome(r, old(conn).next_sequence as int),
        ),
{
    let name = extension_name();
    let major_opcode = match conn.extension_opcode(&name) {
        Ok(op) => op,
        Err(e) => {
            return Err(e);
        },
    };
    let context_copy = copy_range(context, 0, context.len());
    assert(context_copy@ =~= context@);
    let request = SetSelectionUseContextRequest { context: context_copy };
    let bytes = request.serialize(major_opcode);
    let fds: Vec<RawFdContainer> = Vec::new();
    assert(fds@ =~= Seq::<RawFdContainer>::empty());
    match conn.send_request_without_reply(&bytes, &fds) {
        Ok(c) => Ok(c),
        Err(e) => Err(e),
    }
}

/// Sets one device's context.
#[derive(Debug, Clone, PartialEq, Eq)]
pub struct SetDeviceContextRequest {
    pub device: u32,
    pub context: Vec<u8>,
}

impl SetDeviceContextRequest {
    /// Opcode for this request
    pub fn opcode() -> (r: u8)
        ensures r == 3,
    {
        3
    }

    /// The request's exact wire bytes under the extension's major opcode:
    /// the context bytes follow the fixed fields, padded to 4 bytes.
    pub open spec fn spec_serialize(self, major_opcode: u8) -> Seq<u8> {
        spec_request(major_opcode, 3, u32_le_bytes(self.device) + u32_le_bytes(self.context@.len() as u32), self.context@)
    }

    /// Serialize this request into bytes for the wire.
    pub fn serialize(&self, major_opcode: u8) -> (r: Vec<u8>)
        requires
            self.context@.len() <= 0xFFFF_FFFF,
            self.context@.len() + 16 <= usize::MAX,
        ensures r@ == self.spec_serialize(major_opcode),
    {
        let mut body: Vec<u8> = Vec::new();
        push_u32(&mut body, self.device);
        push_u32(&mut body, self.context.len() as u32);
        assert(body@ =~= u32_le_bytes(self.device) + u32_le_bytes(self.context@.len() as u32));
        build_request(major_opcode, 3, &body, &self.context)
    }
}

/// Queue a SetDeviceContext request; it defines no reply.
pub fn set_device_context(conn: &mut Connection, device: u32, context: &Vec<u8>)
    -> (r: Result<VoidCookie, ConnectionError>)
    requires
        old(conn).wf(),
        context@.len() <= 0xFFFF_FFFF,
        context@.len() + 16 <= usize::MAX,
    ensures
        final(conn).wf(),
        r matches Ok(c) ==> c.sequence == old(conn).next_sequence,
        spec_sent_via_extension(
            *old(conn),
            *final(conn),
            spec_extension_name(),
            (|op: u8| (SetDeviceContextRequest { device, context: *context }).spec_serialize(op)),
            Seq::empty(),
            false,
            false,
            spec_outcome(r, old(conn).next_sequence as int),
        ),
{
    let name = extension_name();
    let major_opcode = match conn.extension_opcode(&name) {
        Ok(op) => op,
        Err(e) => {
            return Err(e);
        },
    };
    let context_copy = copy_range(context, 0, context.len());
    assert(context_copy@ =~= context@);
    let request = SetDeviceContextRequest { device, context: context_copy };
    let bytes = request.serialize(major_opcode);
    let fds: Vec<RawFdContainer> = Vec::new();
    assert(fds@ =~= Seq::<RawFdContainer>::empty());
    match conn.send_request_without_reply(&bytes, &fds) {
        Ok(c) => Ok(c),
        Err(e) => Err(e),
    }
}

/// Asks for the context new devices are labelled with.
#[derive(Debug, Clone, Copy, PartialEq, Eq, Structural)]
pub struct GetDeviceCreateContextRequest {}

impl GetDeviceCreateContextRequest {
    /// Opcode for this request
    pub fn opcode() -> (r: u8)
        ensures r == 2,
    {
        2
    }

    /// The request's exact wire bytes under the extension's major opcode.
    pub open spec fn spec_serialize(self, major_opcode: u8) -> Seq<u8> {
        spec_request(major_opcode, 2, Seq::empty(), Seq::empty())
    }

    /// Serialize this request into bytes for the wire.
    pub fn serialize(&self, major_opcode: u8) -> (r: Vec<u8>)
        ensures r@ == self.spec_serialize(major_opcode),
    {
        let body: Vec<u8> = Vec::new();
        assert(body@ =~= Seq::<u8>::empty());
        let payload: Vec<u8> = Vec::new();
        build_request(major_opcode, 2, &body, &payload)
    }
}

/// Queue a GetDeviceCreateContext request.
pub fn get_device_create_context(conn: &mut Connection)
    -> (r: Result<Cookie, ConnectionError>)
    requires old(conn).wf(),
    ensures
        final(conn).wf(),
        r matches Ok(c) ==> c.sequence == old(conn).next_sequence,
        spec_sent_via_extension(
            *old(conn),
            *final(conn),
            spec_extension_name(),
            (|op: u8| (GetDeviceCreateContextRequest {  }).spec_serialize(op)),
            Seq::empty(),
            true,
            false,
            spec_outcome(r, old(conn).next_sequence as int),
        ),
{
    let name = extension_name();
    let major_opcode = match conn.extension_opcode(&name) {
        Ok(op) => op,
        Err(e) => {
            return Err(e);
        },
    };
    let request = GetDeviceCreateContextRequest {  };
    let bytes = request.serialize(major_opcode);
    let fds: Vec<RawFdContainer> = Vec::new();
    assert(fds@ =~= Seq::<RawFdContainer>::empty());
    match conn.send_request_with_reply(&bytes, &fds) {
        Ok(c) => Ok(c),
        Err(e) => Err(e),
    }
}

/// Asks for the context new windows are labelled with.
#[derive(Debug, Clone, Copy, PartialEq, Eq, Structural)]
pub struct GetWindowCreateContextRequest {}

impl GetWindowCreateContextRequest {
    /// Opcode for this request
    pub fn opcode() -> (r: u8)
        ensures r == 6,
    {
        6
    }

    /// The request's exact wire bytes under the extension's major opcode.
    pub open spec fn spec_serialize(self, major_opcode: u8) -> Seq<u8> {
        spec_request(major_opcode, 6, Seq::empty(), Seq::empty())
    }

    /// Serialize this request into bytes for the wire.
    pub fn serialize(&self, major_opcode: u8) -> (r: Vec<u8>)
        ensures r@ == self.spec_serialize(major_opcode),
    {
        let body: Vec<u8> = Vec::new();
        assert(body@ =~= Seq::<u8>::empty());
        let payload: Vec<u8> = Vec::new();
        build_request(major_opcode, 6, &body, &payload)
    }
}

/// Queue a GetWindowCreateContext request.
pub fn get_window_create_context(conn: &mut Connection)
    -> (r: Result<Cookie, ConnectionError>)
    requires old(conn).wf(),
    ensures
        final(conn).wf(),
        r matches Ok(c) ==> c.sequence == old(conn).next_sequence,
        spec_sent_via_extension(
            *old(conn),
            *final(conn),
            spec_extension_name(),
            (|op: u8| (GetWindowCreateContextRequest {  }).spec_serialize(op)),
            Seq::empty(),
            true,
            false,
            spec_outcome(r, old(conn).next_sequence as int),
        ),
{
    let name = extension_name();
    let major_opcode = match conn.extension_opcode(&name) {
        Ok(op) => op,
        Err(e) => {
            return Err(e);
        },
    };
    let request = GetWindowCreateContextRequest {  };
    let bytes = request.serialize(major_opcode);
    let fds: Vec<RawFdContainer> = Vec::new();
    assert(fds@ =~= Seq::<RawFdContainer>::empty());
    match conn.send_request_with_reply(&bytes, &fds) {
        Ok(c) => Ok(c),
        Err(e) => Err(e),
    }
}

/// Asks for the context new properties are labelled with.
#[derive(Debug, Clone, Copy, PartialEq, Eq, Structural)]
pub struct GetPropertyCreateContextRequest {}

impl GetPropertyCreateContextRequest {
    /// Opcode for this request
    pub fn opcode() -> (r: u8)
        ensures r == 9,
    {
        9
    }

    /// The request's exact wire bytes under the extension's major opcode.
    pub open spec fn spec_serialize(self, major_opcode: u8) -> Seq<u8> {
        spec_request(major_opcode, 9, Seq::empty(), Seq::empty())
    }

    /// Serialize this request into bytes for the wire.
    pub fn serialize(&self, major_opcode: u8) -> (r: Vec<u8>)
        ensures r@ == self.spec_serialize(major_opcode),
    {
        let body: Vec<u8> = Vec::new();
        assert(body@ =~= Seq::<u8>::empty());
        let payload: Vec<u8> = Vec::new();
        build_request(major_opcode, 9, &body, &payload)
    }
}

/// Queue a GetPropertyCreateContext request.
pub fn get_property_create_context(conn: &mut Connection)
    -> (r: Result<Cookie, ConnectionError>)
    requires old(conn).wf(),
    ensures
        final(conn).wf(),
        r matches Ok(c) ==> c.sequence == old(conn).next_sequence,
        spec_sent_via_extension(
            *old(conn),
            *final(conn),
            spec_extension_name(),
            (|op: u8| (GetPropertyCreateContextRequest {  }).spec_serialize(op)),
            Seq::empty(),
            true,
            false,
            spec_outcome(r, old(conn).next_sequence as int),
        ),
{
    let name = extension_name();
    let major_opcode = match conn.extension_opcode(&name) {
        Ok(op) => op,
        Err(e) => {
            return Err(e);
        },
    };
    let request = GetPropertyCreateContextRequest {  };
    let bytes = request.serialize(major_opcode);
    let fds: Vec<RawFdContainer> = Vec::new();
    assert(fds@ =~= Seq::<RawFdContainer>::empty());
    match conn.send_request_with_reply(&bytes, &fds) {
        Ok(c) => Ok(c),
        Err(e) => Err(e),
    }
}

/// Asks for the context used when reading properties.
#[derive(Debug, Clone, Copy, PartialEq, Eq, Structural)]
pub struct GetPropertyUseContextRequest {}

impl GetPropertyUseContextRequest {
    /// Opcode for this request
    pub fn opcode() -> (r: u8)
        ensures r == 11,
    {
        11
    }

    /// The request's exact wire bytes under the extension's major opcode.
    pub open spec fn spec_serialize(self, major_opcode: u8) -> Seq<u8> {
        spec_request(major_opcode, 11, Seq::empty(), Seq::empty())
    }

    /// Serialize this request into bytes for the wire.
    pub fn serialize(&self, major_opcode: u8) -> (r: Vec<u8>)
        ensures r@ == self.spec_serialize(major_opcode),
    {
        let body: Vec<u8> = Vec::new();
        assert(body@ =~= Seq::<u8>::empty());
        let payload: Vec<u8> = Vec::new();
        build_request(major_opcode, 11, &body, &payload)
    }
}

/// Queue a GetPropertyUseContext request.
pub fn get_property_use_context(conn: &mut Connection)
    -> (r: Result<Cookie, ConnectionError>)
    requires old(conn).wf(),
    ensures
        final(conn).wf(),
        r matches Ok(c) ==> c.sequence == old(conn).next_sequence,
        spec_sent_via_extension(
            *old(conn),
            *final(conn),
            spec_extension_name(),
            (|op: u8| (GetPropertyUseContextRequest {  }).spec_serialize(op)),
            Seq::empty(),
            true,
            false,
            spec_outcome(r, old(conn).next_sequence as int),
        ),
{
    let name = extension_name();
    let major_opcode = match conn.extension_opcode(&name) {
        Ok(op) => op,
        Err(e) => {
            return Err(e);
        },
    };
    let request = GetPropertyUseContextRequest {  };
    let bytes = request.serialize(major_opcode);
    let fds: Vec<RawFdContainer> = Vec::new();
    assert(fds@ =~= Seq::<RawFdContainer>::empty());
    match conn.send_request_with_reply(&bytes, &fds) {
        Ok(c) => Ok(c),
        Err(e) => Err(e),
    }
}

/// Asks for the context new selections are labelled with.
#[derive(Debug, Clone, Copy, PartialEq, Eq, Structural)]
pub struct GetSelectionCreateContextRequest {}

impl GetSelectionCreateContextRequest {
    /// Opcode for this request
    pub fn opcode() -> (r: u8)
        ensures r == 16,
    {
        16
    }

    /// The request's exact wire bytes under the extension's major opcode.
    pub open spec fn spec_serialize(self, major_opcode: u8) -> Seq<u8> {
        spec_request(major_opcode, 16, Seq::empty(), Seq::empty())
    }

    /// Serialize this request into bytes for the wire.
    pub fn serialize(&self, major_opcode: u8) -> (r: Vec<u8>)
        ensures r@ == self.spec_serialize(major_opcode),
    {
        let body: Vec<u8> = Vec::new();
        assert(body@ =~= Seq::<u8>::empty());
        let payload: Vec<u8> = Vec::new();
        build_request(major_opcode, 16, &body, &payload)
    }
}

/// Queue a GetSelectionCreateContext request.
pub fn get_selection_create_context(conn: &mut Connection)
    -> (r: Result<Cookie, ConnectionError>)
    requires old(conn).wf(),
    ensures
        final(conn).wf(),
        r matches Ok(c) ==> c.sequence == old(conn).next_sequence,
        spec_sent_via_extension(
            *old(conn),
            *final(conn),
            spec_extension_name(),
            (|op: u8| (GetSelectionCreateContextRequest {  }).spec_serialize(op)),
            Seq::empty(),
            true,
            false,
            spec_outcome(r, old(conn).next_sequence as int),
        ),
{
    let name = extension_name();
    let major_opcode = match conn.extension_opcode(&name) {
        Ok(op) => op,
        Err(e) => {
            return Err(e);
        },
    };
    let request = GetSelectionCreateContextRequest {  };
    let bytes = request.serialize(major_opcode);
    let fds: Vec<RawFdContainer> = Vec::new();
    assert(fds@ =~= Seq::<RawFdContainer>::empty());
    match conn.send_request_with_reply(&bytes, &fds) {
        Ok(c) => Ok(c),
        Err(e) => Err(e),
    }
}

/// Asks for the context used when reading selections.
#[derive(Debug, Clone, Copy, PartialEq, Eq, Structural)]
pub struct GetSelectionUseContextRequest {}

impl GetSelectionUseContextRequest {
    /// Opcode for this request
    pub fn opcode() -> (r: u8)
        ensures r == 18,
    {
        18
    }

    /// The request's exact wire bytes under the extension's major opcode.
    pub open spec fn spec_serialize(self, major_opcode: u8) -> Seq<u8> {
        spec_request(major_opcode, 18, Seq::empty(), Seq::empty())
    }

    /// Serialize this request into bytes for the wire.
    pub fn serialize(&self, major_opcode: u8) -> (r: Vec<u8>)
        ensures r@ == self.spec_serialize(major_opcode),
    {
        let body: Vec<u8> = Vec::new();
        assert(body@ =~= Seq::<u8>::empty());
        let payload: Vec<u8> = Vec::new();
        build_request(major_opcode, 18, &body, &payload)
    }
}

/// Queue a GetSelectionUseContext request.
pub fn get_selection_use_context(conn: &mut Connection)
    -> (r: Result<Cookie, ConnectionError>)
    requires old(conn).wf(),
    ensures
        final(conn).wf(),
        r matches Ok(c) ==> c.sequence == old(conn).next_sequence,
        spec_sent_via_extension(
            *old(conn),
            *final(conn),
            spec_extension_name(),
            (|op: u8| (GetSelectionUseContextRequest {  }).spec_serialize(op)),
            Seq::empty(),
            true,
            false,
            spec_outcome(r, old(conn).next_sequence as int),
        ),
{
    let name = extension_name();
    let major_opcode = match conn.extension_opcode(&name) {
        Ok(op) => op,
        Err(e) => {
            return Err(e);
        },
    };
    let request = GetSelectionUseContextRequest {  };
    let bytes = request.serialize(major_opcode);
    let fds: Vec<RawFdContainer> = Vec::new();
    assert(fds@ =~= Seq::<RawFdContainer>::empty());
    match conn.send_request_with_reply(&bytes, &fds) {
        Ok(c) => Ok(c),
        Err(e) => Err(e),
    }
}

/// Asks for every selection with its contexts.
#[derive(Debug, Clone, Copy, PartialEq, Eq, Structural)]
pub struct ListSelectionsRequest {}

impl ListSelectionsRequest {
    /// Opcode for this request
    pub fn opcode() -> (r: u8)
        ensures r == 21,
    {
        21
    }

    /// The request's exact wire bytes under the extension's major opcode.
    pub open spec fn spec_serialize(self, major_opcode: u8) -> Seq<u8> {
        spec_request(major_opcode, 21, Seq::empty(), Seq::empty())
    }

    /// Serialize this request into bytes for the wire.
    pub fn serialize(&self, major_opcode: u8) -> (r: Vec<u8>)
        ensures r@ == self.spec_serialize(major_opcode),
    {
        let body: Vec<u8> = Vec::new();
        assert(body@ =~= Seq::<u8>::empty());
        let payload: Vec<u8> = Vec::new();
        build_request(major_opcode, 21, &body, &payload)
    }
}

/// Queue a ListSelections request.
pub fn list_selections(conn: &mut Connection)
    -> (r: Result<Cookie, ConnectionError>)
    requires old(conn).wf(),
    ensures
        final(conn).wf(),
        r matches Ok(c) ==> c.sequence == old(conn).next_sequence,
        spec_sent_via_extension(
            *old(conn),
            *final(conn),
            spec_extension_name(),
            (|op: u8| (ListSelectionsRequest {  }).spec_serialize(op)),
            Seq::empty(),
            true,
            false,
            spec_outcome(r, old(conn).next_sequence as int),
        ),
{
    let name = extension_name();
    let major_opcode = match conn.extension_opcode(&name) {
        Ok(op) => op,
        Err(e) => {
            return Err(e);
        },
    };
    let request = ListSelectionsRequest {  };
    let bytes = request.serialize(major_opcode);
    let fds: Vec<RawFdContainer> = Vec::new();
    assert(fds@ =~= Seq::<RawFdContainer>::empty());
    match conn.send_request_with_reply(&bytes, &fds) {
        Ok(c) => Ok(c),
        Err(e) => Err(e),
    }
}

/// Asks for one device's context.
#[derive(Debug, Clone, Copy, PartialEq, Eq, Structural)]
pub struct GetDeviceContextRequest {
    pub device: u32,
}

impl GetDeviceContextRequest {
    /// Opcode for this request
    pub fn opcode() -> (r: u8)
        ensures r == 4,
    {
        4
    }

    /// The request's exact wire bytes under the extension's major opcode.
    pub open spec fn spec_serialize(self, major_opcode: u8) -> Seq<u8> {
        spec_request(major_opcode, 4, u32_le_bytes(self.device), Seq::empty())
    }

    /// Serialize this request into bytes for the wire.
    pub fn serialize(&self, major_opcode: u8) -> (r: Vec<u8>)
        ensures r@ == self.spec_serialize(major_opcode),
    {
        let mut body: Vec<u8> = Vec::new();
        push_u32(&mut body, self.device);
        assert(body@ =~= u32_le_bytes(self.device));
        let payload: Vec<u8> = Vec::new();
        assert(payload@ =~= Seq::<u8>::empty());
        build_request(major_opcode, 4, &body, &payload)
    }
}

/// Queue a GetDeviceContext request.
pub fn get_device_context(conn: &mut Connection, device: u32)
    -> (r: Result<Cookie, ConnectionError>)
    requires
        old(conn).wf(),
    ensures
        final(conn).wf(),
        r matches Ok(c) ==> c.sequence == old(conn).next_sequence,
        spec_sent_via_extension(
            *old(conn),
            *final(conn),
            spec_extension_name(),
            (|op: u8| (GetDeviceContextRequest { device }).spec_serialize(op)),
            Seq::empty(),
            true,
            false,
            spec_outcome(r, old(conn).next_sequence as int),
        ),
{
    let name = extension_name();
    let major_opcode = match conn.extension_opcode(&name) {
        Ok(op) => op,
        Err(e) => {
            return Err(e);
        },
    };
    let request = GetDeviceContextRequest { device };
    let bytes = request.serialize(major_opcode);
    let fds: Vec<RawFdContainer> = Vec::new();
    assert(fds@ =~= Seq::<RawFdContainer>::empty());
    match conn.send_request_with_reply(&bytes, &fds) {
        Ok(c) => Ok(c),
        Err(e) => Err(e),
    }
}

/// Asks for one window's context.
#[derive(Debug, Clone, Copy, PartialEq, Eq, Structural)]
pub struct GetWindowContextRequest {
    pub window: xproto::Window,
}

impl GetWindowContextRequest {
    /// Opcode for this request
    pub fn opcode() -> (r: u8)
        ensures r == 7,
    {
        7
    }

    /// The request's exact wire bytes under the extension's major opcode.
    pub open spec fn spec_serialize(self, major_opcode: u8) -> Seq<u8> {
        spec_request(major_opcode, 7, u32_le_bytes(self.window), Seq::empty())
    }

    /// Serialize this request into bytes for the wire.
    pub fn serialize(&self, major_opcode: u8) -> (r: Vec<u8>)
        ensures r@ == self.spec_serialize(major_opcode),
    {
        let mut body: Vec<u8> = Vec::new();
        push_u32(&mut body, self.window);
        assert(body@ =~= u32_le_bytes(self.window));
        let payload: Vec<u8> = Vec::new();
        assert(payload@ =~= Seq::<u8>::empty());
        build_request(major_opcode, 7, &body, &payload)
    }
}

/// Queue a GetWindowContext request.
pub fn get_window_context(conn: &mut Connection, window: xproto::Window)
    -> (r: Result<Cookie, ConnectionError>)
    requires
        old(conn).wf(),
    ensures
        final(conn).wf(),
        r matches Ok(c) ==> c.sequence == old(conn).next_sequence,
        spec_sent_via_extension(
            *old(conn),
            *final(conn),
            spec_extension_name(),
            (|op: u8| (GetWindowContextRequest { window }).spec_serialize(op)),
            Seq::empty(),
            true,
            false,
            spec_outcome(r, old(conn).next_sequence as int),
        ),
{
    let name = extension_name();
    let major_opcode = match conn.extension_opcode(&name) {
        Ok(op) => op,
        Err(e) => {
            return Err(e);
        },
    };
    let request = GetWindowContextRequest { window };
    let bytes = request.serialize(major_opcode);
    let fds: Vec<RawFdContainer> = Vec::new();
    assert(fds@ =~= Seq::<RawFdContainer>::empty());
    match conn.send_request_with_reply(&bytes, &fds) {
        Ok(c) => Ok(c),
        Err(e) => Err(e),
    }
}

/// Asks for every property of a window with its contexts.
#[derive(Debug, Clone, Copy, PartialEq, Eq, Structural)]
pub struct ListPropertiesRequest {
    pub window: xproto::Window,
}

impl ListPropertiesRequest {
    /// Opcode for this request
    pub fn opcode() -> (r: u8)
        ensures r == 14,
    {
        14
    }

    /// The request's exact wire bytes under the extension's major opcode.
    pub open spec fn spec_serialize(self, major_opcode: u8) -> Seq<u8> {
        spec_request(major_opcode, 14, u32_le_bytes(self.window), Seq::empty())
    }

    /// Serialize this request into bytes for the wire.
    pub fn serialize(&self, major_opcode: u8) -> (r: Vec<u8>)
        ensures r@ == self.spec_serialize(major_opcode),
    {
        let mut body: Vec<u8> = Vec::new();
        push_u32(&mut body, self.window);
        assert(body@ =~= u32_le_bytes(self.window));
        let payload: Vec<u8> = Vec::new();
        assert(payload@ =~= Seq::<u8>::empty());
        build_request(major_opcode, 14, &body, &payload)
    }
}

/// Queue a ListProperties request.
pub fn list_properties(conn: &mut Connection, window: xproto::Window)
    -> (r: Result<Cookie, ConnectionError>)
    requires
        old(conn).wf(),
    ensures
        final(conn).wf(),
        r matches Ok(c) ==> c.sequence == old(conn).next_sequence,
        spec_sent_via_extension(
            *old(conn),
            *final(conn),
            spec_extension_name(),
            (|op: u8| (ListPropertiesRequest { window }).spec_serialize(op)),
            Seq::empty(),
            true,
            false,
            spec_outcome(r, old(conn).next_sequence as int),
        ),
{
    let name = extension_name();
    let major_opcode = match conn.extension_opcode(&name) {
        Ok(op) => op,
        Err(e) => {
            return Err(e);
        },
    };
    let request = ListPropertiesRequest { window };
    let bytes = request.serialize(major_opcode);
    let fds: Vec<RawFdContainer> = Vec::new();
    assert(fds@ =~= Seq::<RawFdContainer>::empty());
    match conn.send_request_with_reply(&bytes, &fds) {
        Ok(c) => Ok(c),
        Err(e) => Err(e),
    }
}

/// Asks for one selection's context.
#[derive(Debug, Clone, Copy, PartialEq, Eq, Structural)]
pub struct GetSelectionContextRequest {
    pub selection: xproto::Atom,
}

impl GetSelectionContextRequest {
    /// Opcode for this request
    pub fn opcode() -> (r: u8)
        ensures r == 19,
    {
        19
    }

    /// The request's exact wire bytes under the extension's major opcode.
    pub open spec fn spec_serialize(self, major_opcode: u8) -> Seq<u8> {
        spec_request(major_opcode, 19, u32_le_bytes(self.selection), Seq::empty())
    }

    /// Serialize this request into bytes for the wire.
    pub fn serialize(&self, major_opcode: u8) -> (r: Vec<u8>)
        ensures r@ == self.spec_serialize(major_opcode),
    {
        let mut body: Vec<u8> = Vec::new();
        push_u32(&mut body, self.selection);
        assert(body@ =~= u32_le_bytes(self.selection));
        let payload: Vec<u8> = Vec::new();
        assert(payload@ =~= Seq::<u8>::empty());
        build_request(major_opcode, 19, &body, &payload)
    }
}

/// Queue a GetSelectionContext request.
pub fn get_selection_context(conn: &mut Connection, selection: xproto::Atom)
    -> (r: Result<Cookie, ConnectionError>)
    requires
        old(conn).wf(),
    ensures
        final(conn).wf(),
        r matches Ok(c) ==> c.sequence == old(conn).next_sequence,
        spec_sent_via_extension(
            *old(conn),
            *final(conn),
            spec_extension_name(),
            (|op: u8| (GetSelectionContextRequest { selection }).spec_serialize(op)),
            Seq::empty(),
            true,
            false,
            spec_outcome(r, old(conn).next_sequence as int),
        ),
{
    let name = extension_name();
    let major_opcode = match conn.extension_opcode(&name) {
        Ok(op) => op,
        Err(e) => {
            return Err(e);
        },
    };
    let request = GetSelectionContextRequest { selection };
    let bytes = request.serialize(major_opcode);
    let fds: Vec<RawFdContainer> = Vec::new();
    assert(fds@ =~= Seq::<RawFdContainer>::empty());
    match conn.send_request_with_reply(&bytes, &fds) {
        Ok(c) => Ok(c),
        Err(e) => Err(e),
    }
}

/// Asks for the context of one selection's data.
#[derive(Debug, Clone, Copy, PartialEq, Eq, Structural)]
pub struct GetSelectionDataContextRequest {
    pub selection: xproto::Atom,
}

impl GetSelectionDataContextRequest {
    /// Opcode for this request
    pub fn opcode() -> (r: u8)
        ensures r == 20,
    {
        20
    }

    /// The request's exact wire bytes under the extension's major opcode.
    pub open spec fn spec_serialize(self, major_opcode: u8) -> Seq<u8> {
        spec_request(major_opcode, 20, u32_le_bytes(self.selection), Seq::empty())
    }

    /// Serialize this request into bytes for the wire.
    pub fn serialize(&self, major_opcode: u8) -> (r: Vec<u8>)
        ensures r@ == self.spec_serialize(major_opcode),
    {
        let mut body: Vec<u8> = Vec::new();
        push_u32(&mut body, self.selection);
        assert(body@ =~= u32_le_bytes(self.selection));
        let payload: Vec<u8> = Vec::new();
        assert(payload@ =~= Seq::<u8>::empty());
        build_request(major_opcode, 20, &body, &payload)
    }
}

/// Queue a GetSelectionDataContext request.
pub fn get_selection_data_context(conn: &mut Connection, selection: xproto::Atom)
    -> (r: Result<Cookie, ConnectionError>)
    requires
        old(conn).wf(),
    ensures
        final(conn).wf(),
        r matches Ok(c) ==> c.sequence == old(conn).next_sequence,
        spec_sent_via_extension(
            *old(conn),
            *final(conn),
            spec_extension_name(),
            (|op: u8| (GetSelectionDataContextRequest { selection }).spec_serialize(op)),
            Seq::empty(),
            true,
            false,
            spec_outcome(r, old(conn).next_sequence as int),
        ),
{
    let name = extension_name();
    let major_opcode = match conn.extension_opcode(&name) {
        Ok(op) => op,
        Err(e) => {
            return Err(e);
        },
    };
    let request = GetSelectionDataContextRequest { selection };
    let bytes = request.serialize(major_opcode);
    let fds: Vec<RawFdContainer> = Vec::new();
    assert(fds@ =~= Seq::<RawFdContainer>::empty());
    match conn.send_request_with_reply(&bytes, &fds) {
        Ok(c) => Ok(c),
        Err(e) => Err(e),
    }
}

/// Asks for the context of the client owning a resource.
#[derive(Debug, Clone, Copy, PartialEq, Eq, Structural)]
pub struct GetClientContextRequest {
    pub resource: u32,
}

impl GetClientContextRequest {
    /// Opcode for this request
    pub fn opcode() -> (r: u8)
        ensures r == 22,
    {
        22
    }

    /// The request's exact wire bytes under the extension's major opcode.
    pub open spec fn spec_serialize(self, major_opcode: u8) -> Seq<u8> {
        spec_request(major_opcode, 22, u32_le_bytes(self.resource), Seq::empty())
    }

    /// Serialize this request into bytes for the wire.
    pub fn serialize(&self, major_opcode: u8) -> (r: Vec<u8>)
        ensures r@ == self.spec_serialize(major_opcode),
    {
        let mut body: Vec<u8> = Vec::new();
        push_u32(&mut body, self.resource);
        assert(body@ =~= u32_le_bytes(self.resource));
        let payload: Vec<u8> = Vec::new();
        assert(payload@ =~= Seq::<u8>::empty());
        build_request(major_opcode, 22, &body, &payload)
    }
}

/// Queue a GetClientContext request.
pub fn get_client_context(conn: &mut Connection, resource: u32)
    -> (r: Result<Cookie, ConnectionError>)
    requires
        old(conn).wf(),
    ensures
        final(conn).wf(),
        r matches Ok(c) ==> c.sequence == old(conn).next_sequence,
        spec_sent_via_extension(
            *old(conn),
            *final(conn),
            spec_extension_name(),
            (|op: u8| (GetClientContextRequest { resource }).spec_serialize(op)),
            Seq::empty(),
            true,
            false,
            spec_outcome(r, old(conn).next_sequence as int),
        ),
{
    let name = extension_name();
    let major_opcode = match conn.extension_opcode(&name) {
        Ok(op) => op,
        Err(e) => {
            return Err(e);
        },
    };
    let request = GetClientContextRequest { resource };
    let bytes = request.serialize(major_opcode);
    let fds: Vec<RawFdContainer> = Vec::new();
    assert(fds@ =~= Seq::<RawFdContainer>::empty());
    match conn.send_request_with_reply(&bytes, &fds) {
        Ok(c) => Ok(c),
        Err(e) => Err(e),
    }
}

/// Asks for one window property's context.
#[derive(Debug, Clone, Copy, PartialEq, Eq, Structural)]
pub struct GetPropertyContextRequest {
    pub window: xproto::Window,
    pub property: xproto::Atom,
}

impl GetPropertyContextRequest {
    /// Opcode for this request
    pub fn opcode() -> (r: u8)
        ensures r == 12,
    {
        12
    }

    /// The request's exact wire bytes under the extension's major opcode.
    pub open spec fn spec_serialize(self, major_opcode: u8) -> Seq<u8> {
        spec_request(major_opcode, 12, u32_le_bytes(self.window) + u32_le_bytes(self.property), Seq::empty())
    }

    /// Serialize this request into bytes for the wire.
    pub fn serialize(&self, major_opcode: u8) -> (r: Vec<u8>)
        ensures r@ == self.spec_serialize(major_opcode),
    {
        let mut body: Vec<u8> = Vec::new();
        push_u32(&mut body, self.window);
        push_u32(&mut body, self.property);
        assert(body@ =~= u32_le_bytes(self.window) + u32_le_bytes(self.property));
        let payload: Vec<u8> = Vec::new();
        assert(payload@ =~= Seq::<u8>::empty());
        build_request(major_opcode, 12, &body, &payload)
    }
}

/// Queue a GetPropertyContext request.
pub fn get_property_context(conn: &mut Connection, window: xproto::Window, property: xproto::Atom)
    -> (r: Result<Cookie, ConnectionError>)
    requires
        old(conn).wf(),
    ensures
        final(conn).wf(),
        r matches Ok(c) ==> c.sequence == old(conn).next_sequence,
        spec_sent_via_extension(
            *old(conn),
            *final(conn),
            spec_extension_name(),
            (|op: u8| (GetPropertyContextRequest { window, property }).spec_serialize(op)),
            Seq::empty(),
            true,
            false,
            spec_outcome(r, old(conn).next_sequence as int),
        ),
{
    let name = extension_name();
    let major_opcode = match conn.extension_opcode(&name) {
        Ok(op) => op,
        Err(e) => {
            return Err(e);
        },
    };
    let request = GetPropertyContextRequest { window, property };
    let bytes = request.serialize(major_opcode);
    let fds: Vec<RawFdContainer> = Vec::new();
    assert(fds@ =~= Seq::<RawFdContainer>::empty());
    match conn.send_request_with_reply(&bytes, &fds) {
        Ok(c) => Ok(c),
        Err(e) => Err(e),
    }
}

/// Asks for the context of one property's data.
#[derive(Debug, Clone, Copy, PartialEq, Eq, Structural)]
pub struct GetPropertyDataContextRequest {
    pub window: xproto::Window,
    pub property: xproto::Atom,
}

impl GetPropertyDataContextRequest {
    /// Opcode for this request
    pub fn opcode() -> (r: u8)
        ensures r == 13,
    {
        13
    }

    /// The request's exact wire bytes under the extension's major opcode.
    pub open spec fn spec_serialize(self, major_opcode: u8) -> Seq<u8> {
        spec_request(major_opcode, 13, u32_le_bytes(self.window) + u32_le_bytes(self.property), Seq::empty())
    }

    /// Serialize this request into bytes for the wire.
    pub fn serialize(&self, major_opcode: u8) -> (r: Vec<u8>)
        ensures r@ == self.spec_serialize(major_opcode),
    {
        let mut body: Vec<u8> = Vec::new();
        push_u32(&mut body, self.window);
        push_u32(&mut body, self.property);
        assert(body@ =~= u32_le_bytes(self.window) + u32_le_bytes(self.property));
        let payload: Vec<u8> = Vec::new();
        assert(payload@ =~= Seq::<u8>::empty());
        build_request(major_opcode, 13, &body, &payload)
    }
}

/// Queue a GetPropertyDataContext request.
pub fn get_property_data_context(conn: &mut Connection, window: xproto::Window, property: xproto::Atom)
    -> (r: Result<Cookie, ConnectionError>)
    requires
        old(conn).wf(),
    ensures
        final(conn).wf(),
        r matches Ok(c) ==> c.sequence == old(conn).next_sequence,
        spec_sent_via_extension(
            *old(conn),
            *final(conn),
            spec_extension_name(),
            (|op: u8| (GetPropertyDataContextRequest { window, property }).spec_serialize(op)),
            Seq::empty(),
            true,
            false,
            spec_outcome(r, old(conn).next_sequence as int),
        ),
{
    let name = extension_name();
    let major_opcode = match conn.extension_opcode(&name) {
        Ok(op) => op,
        Err(e) => {
            return Err(e);
        },
    };
    let request = GetPropertyDataContextRequest { window, property };
    let bytes = request.serialize(major_opcode);
    let fds: Vec<RawFdContainer> = Vec::new();
    assert(fds@ =~= Seq::<RawFdContainer>::empty());
    match conn.send_request_with_reply(&bytes, &fds) {
        Ok(c) => Ok(c),
        Err(e) => Err(e),
    }
}

/// The context new devices are labelled with.
#[derive(Debug, Clone, PartialEq, Eq)]
pub struct GetDeviceCreateContextReply {
    pub response_type: u8,
    pub sequence: u16,
    pub length: u32,
    pub context: Vec<u8>,
}

impl GetDeviceCreateContextReply {
    /// Decode the reply: the fixed fields, then the context bytes whose
    /// count stands at offset 8; the count returned is how many bytes
    /// were consumed.
    pub fn try_parse(bytes: &Vec<u8>) -> (r: Result<(GetDeviceCreateContextReply, usize), ParseError>)
        ensures
            ({
                let b = bytes@;
                if b.len() >= 32 && b.len() >= 32 + le32_at(b, 8) {
                    match r {
                        Ok((reply, used)) => {
                            &&& reply.response_type == b[0]
                            &&& reply.sequence == le16_at(b, 2)
                            &&& reply.length == le32_at(b, 4)
                            &&& reply.context@ == b.subrange(32, 32 + le32_at(b, 8))
                            &&& used == 32 + le32_at(b, 8)
                        },
                        Err(_) => false,
                    }
                } else {
                    r == Err::<(GetDeviceCreateContextReply, usize), ParseError>(ParseError::ParseError)
                }
            }),
    {
        match parse_context_reply(bytes) {
            Ok((response_type, sequence, length, context, used)) => Ok((GetDeviceCreateContextReply {
                response_type,
                sequence,
                length,
                context,
            }, used)),
            Err(e) => Err(e),
        }
    }

    /// The count the `context_len` length field carries: computed back
    /// from the context itself.
    pub fn context_len(&self) -> (r: u32)
        requires self.context@.len() <= 0xFFFF_FFFF,
        ensures r == self.context@.len(),
    {
        self.context.len() as u32
    }
}

/// One device's context.
#[derive(Debug, Clone, PartialEq, Eq)]
pub struct GetDeviceContextReply {
    pub response_type: u8,
    pub sequence: u16,
    pub length: u32,
    pub context: Vec<u8>,
}

impl GetDeviceContextReply {
    /// Decode the reply: the fixed fields, then the context bytes whose
    /// count stands at offset 8; the count returned is how many bytes
    /// were consumed.
    pub fn try_parse(bytes: &Vec<u8>) -> (r: Result<(GetDeviceContextReply, usize), ParseError>)
        ensures
            ({
                let b = bytes@;
                if b.len() >= 32 && b.len() >= 32 + le32_at(b, 8) {
                    match r {
                        Ok((reply, used)) => {
                            &&& reply.response_type == b[0]
                            &&& reply.sequence == le16_at(b, 2)
                            &&& reply.length == le32_at(b, 4)
                            &&& reply.context@ == b.subrange(32, 32 + le32_at(b, 8))
                            &&& used == 32 + le32_at(b, 8)
                        },
                        Err(_) => false,
                    }
                } else {
                    r == Err::<(GetDeviceContextReply, usize), ParseError>(ParseError::ParseError)
                }
            }),
    {
        match parse_context_reply(bytes) {
            Ok((response_type, sequence, length, context, used)) => Ok((GetDeviceContextReply {
                response_type,
                sequence,
                length,
                context,
            }, used)),
            Err(e) => Err(e),
        }
    }

    /// The count the `context_len` length field carries: computed back
    /// from the context itself.
    pub fn context_len(&self) -> (r: u32)
        requires self.context@.len() <= 0xFFFF_FFFF,
        ensures r == self.context@.len(),
    {
        self.context.len() as u32
    }
}

/// The context new windows are labelled with.
#[derive(Debug, Clone, PartialEq, Eq)]
pub struct GetWindowCreateContextReply {
    pub response_type: u8,
    pub sequence: u16,
    pub length: u32,
    pub context: Vec<u8>,
}

impl GetWindowCreateContextReply {
    /// Decode the reply: the fixed fields, then the context bytes whose
    /// count stands at offset 8; the count returned is how many bytes
    /// were consumed.
    pub fn try_parse(bytes: &Vec<u8>) -> (r: Result<(GetWindowCreateContextReply, usize), ParseError>)
        ensures
            ({
                let b = bytes@;
                if b.len() >= 32 && b.len() >= 32 + le32_at(b, 8) {
                    match r {
                        Ok((reply, used)) => {
                            &&& reply.response_type == b[0]
                            &&& reply.sequence == le16_at(b, 2)
                            &&& reply.length == le32_at(b, 4)
                            &&& reply.context@ == b.subrange(32, 32 + le32_at(b, 8))
                            &&& used == 32 + le32_at(b, 8)
                        },
                        Err(_) => false,
                    }
                } else {
                    r == Err::<(GetWindowCreateContextReply, usize), ParseError>(ParseError::ParseError)
                }
            }),
    {
        match parse_context_reply(bytes) {
            Ok((response_type, sequence, length, context, used)) => Ok((GetWindowCreateContextReply {
                response_type,
                sequence,
                length,
                context,
            }, used)),
            Err(e) => Err(e),
        }
    }

    /// The count the `context_len` length field carries: computed back
    /// from the context itself.
    pub fn context_len(&self) -> (r: u32)
        requires self.context@.len() <= 0xFFFF_FFFF,
        ensures r == self.context@.len(),
    {
        self.context.len() as u32
    }
}

/// One window's context.
#[derive(Debug, Clone, PartialEq, Eq)]
pub struct GetWindowContextReply {
    pub response_type: u8,
    pub sequence: u16,
    pub length: u32,
    pub context: Vec<u8>,
}

impl GetWindowContextReply {
    /// Decode the reply: the fixed fields, then the context bytes whose
    /// count stands at offset 8; the count returned is how many bytes
    /// were consumed.
    pub fn try_parse(bytes: &Vec<u8>) -> (r: Result<(GetWindowContextReply, usize), ParseError>)
        ensures
            ({
                let b = bytes@;
                if b.len() >= 32 && b.len() >= 32 + le32_at(b, 8) {
                    match r {
                        Ok((reply, used)) => {
                            &&& reply.response_type == b[0]
                            &&& reply.sequence == le16_at(b, 2)
                            &&& reply.length == le32_at(b, 4)
                            &&& reply.context@ == b.subrange(32, 32 + le32_at(b, 8))
                            &&& used == 32 + le32_at(b, 8)
                        },
                        Err(_) => false,
                    }
                } else {
                    r == Err::<(GetWindowContextReply, usize), ParseError>(ParseError::ParseError)
                }
            }),
    {
        match parse_context_reply(bytes) {
            Ok((response_type, sequence, length, context, used)) => Ok((GetWindowContextReply {
                response_type,
                sequence,
                length,
                context,
            }, used)),
            Err(e) => Err(e),
        }
    }

    /// The count the `context_len` length field carries: computed back
    /// from the context itself.
    pub fn context_len(&self) -> (r: u32)
        requires self.context@.len() <= 0xFFFF_FFFF,
        ensures r == self.context@.len(),
    {
        self.context.len() as u32
    }
}

/// The context new properties are labelled with.
#[derive(Debug, Clone, PartialEq, Eq)]
pub struct GetPropertyCreateContextReply {
    pub response_type: u8,
    pub sequence: u16,
    pub length: u32,
    pub context: Vec<u8>,
}

impl GetPropertyCreateContextReply {
    /// Decode the reply: the fixed fields, then the context bytes whose
    /// count stands at offset 8; the count returned is how many bytes
    /// were consumed.
    pub fn try_parse(bytes: &Vec<u8>) -> (r: Result<(GetPropertyCreateContextReply, usize), ParseError>)
        ensures
            ({
                let b = bytes@;
                if b.len() >= 32 && b.len() >= 32 + le32_at(b, 8) {
                    match r {
                        Ok((reply, used)) => {
                            &&& reply.response_type == b[0]
                            &&& reply.sequence == le16_at(b, 2)
                            &&& reply.length == le32_at(b, 4)
                            &&& reply.context@ == b.subrange(32, 32 + le32_at(b, 8))
                            &&& used == 32 + le32_at(b, 8)
                        },
                        Err(_) => false,
                    }
                } else {
                    r == Err::<(GetPropertyCreateContextReply, usize), ParseError>(ParseError::ParseError)
                }
            }),
    {
        match parse_context_reply(bytes) {
            Ok((response_type, sequence, length, context, used)) => Ok((GetPropertyCreateContextReply {
                response_type,
                sequence,
                length,
                context,
            }, used)),
            Err(e) => Err(e),
        }
    }

    /// The count the `context_len` length field carries: computed back
    /// from the context itself.
    pub fn context_len(&self) -> (r: u32)
        requires self.context@.len() <= 0xFFFF_FFFF,
        ensures r == self.context@.len(),
    {
        self.context.len() as u32
    }
}

/// The context used when reading properties.
#[derive(Debug, Clone, PartialEq, Eq)]
pub struct GetPropertyUseContextReply {
    pub response_type: u8,
    pub sequence: u16,
    pub length: u32,
    pub context: Vec<u8>,
}

impl GetPropertyUseContextReply {
    /// Decode the reply: the fixed fields, then the context bytes whose
    /// count stands at offset 8; the count returned is how many bytes
    /// were consumed.
    pub fn try_parse(bytes: &Vec<u8>) -> (r: Result<(GetPropertyUseContextReply, usize), ParseError>)
        ensures
            ({
                let b = bytes@;
                if b.len() >= 32 && b.len() >= 32 + le32_at(b, 8) {
                    match r {
                        Ok((reply, used)) => {
                            &&& reply.response_type == b[0]
                            &&& reply.sequence == le16_at(b, 2)
                            &&& reply.length == le32_at(b, 4)
                            &&& reply.context@ == b.subrange(32, 32 + le32_at(b, 8))
                            &&& used == 32 + le32_at(b, 8)
                        },
                        Err(_) => false,
                    }
                } else {
                    r == Err::<(GetPropertyUseContextReply, usize), ParseError>(ParseError::ParseError)
                }
            }),
    {
        match parse_context_reply(bytes) {
            Ok((response_type, sequence, length, context, used)) => Ok((GetPropertyUseContextReply {
                response_type,
                sequence,
                length,
                context,
            }, used)),
            Err(e) => Err(e),
        }
    }

    /// The count the `context_len` length field carries: computed back
    /// from the context itself.
    pub fn context_len(&self) -> (r: u32)
        requires self.context@.len() <= 0xFFFF_FFFF,
        ensures r == self.context@.len(),
    {
        self.context.len() as u32
    }
}

/// One window property's context.
#[derive(Debug, Clone, PartialEq, Eq)]
pub struct GetPropertyContextReply {
    pub response_type: u8,
    pub sequence: u16,
    pub length: u32,
    pub context: Vec<u8>,
}

impl GetPropertyContextReply {
    /// Decode the reply: the fixed fields, then the context bytes whose
    /// count stands at offset 8; the count returned is how many bytes
    /// were consumed.
    pub fn try_parse(bytes: &Vec<u8>) -> (r: Result<(GetPropertyContextReply, usize), ParseError>)
        ensures
            ({
                let b = bytes@;
                if b.len() >= 32 && b.len() >= 32 + le32_at(b, 8) {
                    match r {
                        Ok((reply, used)) => {
                            &&& reply.response_type == b[0]
                            &&& reply.sequence == le16_at(b, 2)
                            &&& reply.length == le32_at(b, 4)
                            &&& reply.context@ == b.subrange(32, 32 + le32_at(b, 8))
                            &&& used == 32 + le32_at(b, 8)
                        },
                        Err(_) => false,
                    }
                } else {
                    r == Err::<(GetPropertyContextReply, usize), ParseError>(ParseError::ParseError)
                }
            }),
    {
        match parse_context_reply(bytes) {
            Ok((response_type, sequence, length, context, used)) => Ok((GetPropertyContextReply {
                response_type,
                sequence,
                length,
                context,
            }, used)),
            Err(e) => Err(e),
        }
    }

    /// The count the `context_len` length field carries: computed back
    /// from the context itself.
    pub fn context_len(&self) -> (r: u32)
        requires self.context@.len() <= 0xFFFF_FFFF,
        ensures r == self.context@.len(),
    {
        self.context.len() as u32
    }
}

/// The context of one property's data.
#[derive(Debug, Clone, PartialEq, Eq)]
pub struct GetPropertyDataContextReply {
    pub response_type: u8,
    pub sequence: u16,
    pub length: u32,
    pub context: Vec<u8>,
}

impl GetPropertyDataContextReply {
    /// Decode the reply: the fixed fields, then the context bytes whose
    /// count stands at offset 8; the count returned is how many bytes
    /// were consumed.
    pub fn try_parse(bytes: &Vec<u8>) -> (r: Result<(GetPropertyDataContextReply, usize), ParseError>)
        ensures
            ({
                let b = bytes@;
                if b.len() >= 32 && b.len() >= 32 + le32_at(b, 8) {
                    match r {
                        Ok((reply, used)) => {
                            &&& reply.response_type == b[0]
                            &&& reply.sequence == le16_at(b, 2)
                            &&& reply.length == le32_at(b, 4)
                            &&& reply.context@ == b.subrange(32, 32 + le32_at(b, 8))
                            &&& used == 32 + le32_at(b, 8)
                        },
                        Err(_) => false,
                    }
                } else {
                    r == Err::<(GetPropertyDataContextReply, usize), ParseError>(ParseError::ParseError)
                }
            }),
    {
        match parse_context_reply(bytes) {
            Ok((response_type, sequence, length, context, used)) => Ok((GetPropertyDataContextReply {
                response_type,
                sequence,
                length,
                context,
            }, used)),
            Err(e) => Err(e),
        }
    }

    /// The count the `context_len` length field carries: computed back
    /// from the context itself.
    pub fn context_len(&self) -> (r: u32)
        requires self.context@.len() <= 0xFFFF_FFFF,
        ensures r == self.context@.len(),
    {
        self.context.len() as u32
    }
}

/// The context new selections are labelled with.
#[derive(Debug, Clone, PartialEq, Eq)]
pub struct GetSelectionCreateContextReply {
    pub response_type: u8,
    pub sequence: u16,
    pub length: u32,
    pub context: Vec<u8>,
}

impl GetSelectionCreateContextReply {
    /// Decode the reply: the fixed fields, then the context bytes whose
    /// count stands at offset 8; the count returned is how many bytes
    /// were consumed.
    pub fn try_parse(bytes: &Vec<u8>) -> (r: Result<(GetSelectionCreateContextReply, usize), ParseError>)
        ensures
            ({
                let b = bytes@;
                if b.len() >= 32 && b.len() >= 32 + le32_at(b, 8) {
                    match r {
                        Ok((reply, used)) => {
                            &&& reply.response_type == b[0]
                            &&& reply.sequence == le16_at(b, 2)
                            &&& reply.length == le32_at(b, 4)
                            &&& reply.context@ == b.subrange(32, 32 + le32_at(b, 8))
                            &&& used == 32 + le32_at(b, 8)
                        },
                        Err(_) => false,
                    }
                } else {
                    r == Err::<(GetSelectionCreateContextReply, usize), ParseError>(ParseError::ParseError)
                }
            }),
    {
        match parse_context_reply(bytes) {
            Ok((response_type, sequence, length, context, used)) => Ok((GetSelectionCreateContextReply {
                response_type,
                sequence,
                length,
                context,
            }, used)),
            Err(e) => Err(e),
        }
    }

    /// The count the `context_len` length field carries: computed back
    /// from the context itself.
    pub fn context_len(&self) -> (r: u32)
        requires self.context@.len() <= 0xFFFF_FFFF,
        ensures r == self.context@.len(),
    {
        self.context.len() as u32
    }
}

/// The context used when reading selections.
#[derive(Debug, Clone, PartialEq, Eq)]
pub struct GetSelectionUseContextReply {
    pub response_type: u8,
    pub sequence: u16,
    pub length: u32,
    pub context: Vec<u8>,
}

impl GetSelectionUseContextReply {
    /// Decode the reply: the fixed fields, then the context bytes whose
    /// count stands at offset 8; the count returned is how many bytes
    /// were consumed.
    pub fn try_parse(bytes: &Vec<u8>) -> (r: Result<(GetSelectionUseContextReply, usize), ParseError>)
        ensures
            ({
                let b = bytes@;
                if b.len() >= 32 && b.len() >= 32 + le32_at(b, 8) {
                    match r {
                        Ok((reply, used)) => {
                            &&& reply.response_type == b[0]
                            &&& reply.sequence == le16_at(b, 2)
                            &&& reply.length == le32_at(b, 4)
                            &&& reply.context@ == b.subrange(32, 32 + le32_at(b, 8))
                            &&& used == 32 + le32_at(b, 8)
                        },
                        Err(_) => false,
                    }
                } else {
                    r == Err::<(GetSelectionUseContextReply, usize), ParseError>(ParseError::ParseError)
                }
            }),
    {
        match parse_context_reply(bytes) {
            Ok((response_type, sequence, length, context, used)) => Ok((GetSelectionUseContextReply {
                response_type,
                sequence,
                length,
                context,
            }, used)),
            Err(e) => Err(e),
        }
    }

    /// The count the `context_len` length field carries: computed back
    /// from the context itself.
    pub fn context_len(&self) -> (r: u32)
        requires self.context@.len() <= 0xFFFF_FFFF,
        ensures r == self.context@.len(),
    {
        self.context.len() as u32
    }
}

/// One selection's context.
#[derive(Debug, Clone, PartialEq, Eq)]
pub struct GetSelectionContextReply {
    pub response_type: u8,
    pub sequence: u16,
    pub length: u32,
    pub context: Vec<u8>,
}

impl GetSelectionContextReply {
    /// Decode the reply: the fixed fields, then the context bytes whose
    /// count stands at offset 8; the count returned is how many bytes
    /// were consumed.
    pub fn try_parse(bytes: &Vec<u8>) -> (r: Result<(GetSelectionContextReply, usize), ParseError>)
        ensures
            ({
                let b = bytes@;
                if b.len() >= 32 && b.len() >= 32 + le32_at(b, 8) {
                    match r {
                        Ok((reply, used)) => {
                            &&& reply.response_type == b[0]
                            &&& reply.sequence == le16_at(b, 2)
                            &&& reply.length == le32_at(b, 4)
                            &&& reply.context@ == b.subrange(32, 32 + le32_at(b, 8))
                            &&& used == 32 + le32_at(b, 8)
                        },
                        Err(_) => false,
                    }
                } else {
                    r == Err::<(GetSelectionContextReply, usize), ParseError>(ParseError::ParseError)
                }
            }),
    {
        match parse_context_reply(bytes) {
            Ok((response_type, sequence, length, context, used)) => Ok((GetSelectionContextReply {
                response_type,
                sequence,
                length,
                context,
            }, used)),
            Err(e) => Err(e),
        }
    }

    /// The count the `context_len` length field carries: computed back
    /// from the context itself.
    pub fn context_len(&self) -> (r: u32)
        requires self.context@.len() <= 0xFFFF_FFFF,
        ensures r == self.context@.len(),
    {
        self.context.len() as u32
    }
}

/// The context of one selection's data.
#[derive(Debug, Clone, PartialEq, Eq)]
pub struct GetSelectionDataContextReply {
    pub response_type: u8,
    pub sequence: u16,
    pub length: u32,
    pub context: Vec<u8>,
}

impl GetSelectionDataContextReply {
    /// Decode the reply: the fixed fields, then the context bytes whose
    /// count stands at offset 8; the count returned is how many bytes
    /// were consumed.
    pub fn try_parse(bytes: &Vec<u8>) -> (r: Result<(GetSelectionDataContextReply, usize), ParseError>)
        ensures
            ({
                let b = bytes@;
                if b.len() >= 32 && b.len() >= 32 + le32_at(b, 8) {
                    match r {
                        Ok((reply, used)) => {
                            &&& reply.response_type == b[0]
                            &&& reply.sequence == le16_at(b, 2)
                            &&& reply.length == le32_at(b, 4)
                            &&& reply.context@ == b.subrange(32, 32 + le32_at(b, 8))
                            &&& used == 32 + le32_at(b, 8)
                        },
                        Err(_) => false,
                    }
                } else {
                    r == Err::<(GetSelectionDataContextReply, usize), ParseError>(ParseError::ParseError)
                }
            }),
    {
        match parse_context_reply(bytes) {
            Ok((response_type, sequence, length, context, used)) => Ok((GetSelectionDataContextReply {
                response_type,
                sequence,
                length,
                context,
            }, used)),
            Err(e) => Err(e),
        }
    }

    /// The count the `context_len` length field carries: computed back
    /// from the context itself.
    pub fn context_len(&self) -> (r: u32)
        requires self.context@.len() <= 0xFFFF_FFFF,
        ensures r == self.context@.len(),
    {
        self.context.len() as u32
    }
}

/// The context of the client owning a resource.
#[derive(Debug, Clone, PartialEq, Eq)]
pub struct GetClientContextReply {
    pub response_type: u8,
    pub sequence: u16,
    pub length: u32,
    pub context: Vec<u8>,
}

impl GetClientContextReply {
    /// Decode the reply: the fixed fields, then the context bytes whose
    /// count stands at offset 8; the count returned is how many bytes
    /// were consumed.
    pub fn try_parse(bytes: &Vec<u8>) -> (r: Result<(GetClientContextReply, usize), ParseError>)
        ensures
            ({
                let b = bytes@;
                if b.len() >= 32 && b.len() >= 32 + le32_at(b, 8) {
                    match r {
                        Ok((reply, used)) => {
                            &&& reply.response_type == b[0]
                            &&& reply.sequence == le16_at(b, 2)
                            &&& reply.length == le32_at(b, 4)
                            &&& reply.context@ == b.subrange(32, 32 + le32_at(b, 8))
                            &&& used == 32 + le32_at(b, 8)
                        },
                        Err(_) => false,
                    }
                } else {
                    r == Err::<(GetClientContextReply, usize), ParseError>(ParseError::ParseError)
                }
            }),
    {
        match parse_context_reply(bytes) {
            Ok((response_type, sequence, length, context, used)) => Ok((GetClientContextReply {
                response_type,
                sequence,
                length,
                context,
            }, used)),
            Err(e) => Err(e),
        }
    }

    /// The count the `context_len` length field carries: computed back
    /// from the context itself.
    pub fn context_len(&self) -> (r: u32)
        requires self.context@.len() <= 0xFFFF_FFFF,
        ensures r == self.context@.len(),
    {
        self.context.len() as u32
    }
}

/// One labelled object in a listing: an atom naming it, with the contexts
/// of the object and of its data.
#[derive(Debug, Clone, PartialEq, Eq)]
pub struct ListItem {
    pub name: xproto::Atom,
    pub object_context: Vec<u8>,
    pub data_context: Vec<u8>,
}

/// Length of the object context of the item at `pos`.
pub open spec fn spec_item_ocl(s: Seq<u8>, pos: int) -> int {
    le32_at(s, pos + 4) as int
}

/// Length of the data context of the item at `pos`.
pub open spec fn spec_item_dcl(s: Seq<u8>, pos: int) -> int {
    le32_at(s, pos + 8) as int
}

/// Where the data context of the item at `pos` starts: after the object
/// context and padding to a 4-byte boundary, counted from the item's
/// start.
pub open spec fn spec_item_data_start(s: Seq<u8>, pos: int) -> int {
    let a = 12 + spec_item_ocl(s, pos);
    pos + a + pad4(a as nat)
}

/// Where the item at `pos` ends: after the data context and its padding.
pub open spec fn spec_item_end(s: Seq<u8>, pos: int) -> int {
    let b = spec_item_data_start(s, pos) - pos + spec_item_dcl(s, pos);
    pos + b + pad4(b as nat)
}

/// Whether a complete item lies at `pos`.
pub open spec fn spec_item_ok(s: Seq<u8>, pos: int) -> bool {
    pos + 12 <= s.len() && spec_item_end(s, pos) <= s.len()
}

/// Whether `item` holds exactly the fields of the item at `pos`.
pub open spec fn spec_item_matches(s: Seq<u8>, pos: int, item: ListItem) -> bool {
    &&& item.name == le32_at(s, pos)
    &&& item.object_context@ == s.subrange(pos + 12, pos + 12 + spec_item_ocl(s, pos))
    &&& item.data_context@ == s.subrange(
        spec_item_data_start(s, pos),
        spec_item_data_start(s, pos) + spec_item_dcl(s, pos),
    )
}

impl ListItem {
    /// Decode the item at byte offset `pos`; the offset returned is where
    /// the next item starts.
    pub fn try_parse_at(bytes: &Vec<u8>, pos: usize) -> (r: Result<(ListItem, usize), ParseError>)
        requires pos <= bytes@.len(),
        ensures
            spec_item_ok(bytes@, pos as int) ==> (match r {
                Ok((item, end)) => {
                    &&& spec_item_matches(bytes@, pos as int, item)
                    &&& end == spec_item_end(bytes@, pos as int)
                },
                Err(_) => false,
            }),
            !spec_item_ok(bytes@, pos as int) ==> r == Err::<(ListItem, usize), ParseError>(ParseError::ParseError),
    {
        let len: usize = bytes.len();
        if len - pos < 12 {
            return Err(ParseError::ParseError);
        }
        let name = read_u32(bytes, pos);
        let ocl = read_u32(bytes, pos + 4);
        let dcl = read_u32(bytes, pos + 8);
        let a: u64 = 12 + ocl as u64;
        let a2: u64 = a + (4 - a % 4) % 4;
        let b: u64 = a2 + dcl as u64;
        let end_rel: u64 = b + (4 - b % 4) % 4;
        if ((len - pos) as u64) < end_rel {
            assert(spec_item_end(bytes@, pos as int) > bytes@.len());
            return Err(ParseError::ParseError);
        }
        assert(a2 == 12 + spec_item_ocl(bytes@, pos as int)
            + pad4((12 + spec_item_ocl(bytes@, pos as int)) as nat));
        assert(pos + end_rel == spec_item_end(bytes@, pos as int));
        let object_context = copy_range(bytes, pos + 12, ocl as usize);
        let data_start: usize = pos + a2 as usize;
        let data_context = copy_range(bytes, data_start, dcl as usize);
        Ok((ListItem { name, object_context, data_context }, pos + end_rel as usize))
    }

    /// Decode one item from the start of `bytes`; the count returned is
    /// how many bytes were consumed.
    pub fn try_parse(bytes: &Vec<u8>) -> (r: Result<(ListItem, usize), ParseError>)
        ensures
            spec_item_ok(bytes@, 0) ==> (match r {
                Ok((item, used)) => {
                    &&& spec_item_matches(bytes@, 0, item)
                    &&& used == spec_item_end(bytes@, 0)
                },
                Err(_) => false,
            }),
            !spec_item_ok(bytes@, 0) ==> r == Err::<(ListItem, usize), ParseError>(ParseError::ParseError),
    {
        Self::try_parse_at(bytes, 0)
    }

    /// The bytes this item appends to an output buffer: its fixed fields,
    /// then each context padded to a 4-byte boundary of the buffer.
    pub open spec fn spec_serialize_onto(self, out: Seq<u8>) -> Seq<u8> {
        let o1 = out + u32_le_bytes(self.name)
            + u32_le_bytes(self.object_context@.len() as u32)
            + u32_le_bytes(self.data_context@.len() as u32)
            + self.object_context@;
        let o2 = o1 + zeros(pad4(o1.len()));
        let o3 = o2 + self.data_context@;
        o3 + zeros(pad4(o3.len()))
    }

    /// Append this item's wire bytes to `bytes`.
    pub fn serialize_into(&self, bytes: &mut Vec<u8>)
        requires
            self.object_context@.len() <= 0xFFFF_FFFF,
            self.data_context@.len() <= 0xFFFF_FFFF,
            old(bytes)@.len() + self.object_context@.len() + self.data_context@.len() + 20
                <= usize::MAX,
        ensures final(bytes)@ == self.spec_serialize_onto(old(bytes)@),
    {
        push_u32(bytes, self.name);
        push_u32(bytes, self.object_context.len() as u32);
        push_u32(bytes, self.data_context.len() as u32);
        crate::wire::append_bytes(bytes, &self.object_context);
        let pad_a: usize = (4 - bytes.len() % 4) % 4;
        crate::wire::push_zeros(bytes, pad_a);
        crate::wire::append_bytes(bytes, &self.data_context);
        let pad_b: usize = (4 - bytes.len() % 4) % 4;
        crate::wire::push_zeros(bytes, pad_b);
        assert(bytes@ =~= self.spec_serialize_onto(old(bytes)@));
    }

    /// This item's wire bytes on their own.
    pub fn serialize(&self) -> (r: Vec<u8>)
        requires
            self.object_context@.len() <= 0xFFFF_FFFF,
            self.data_context@.len() <= 0xFFFF_FFFF,
            self.object_context@.len() + self.data_context@.len() + 20 <= usize::MAX,
        ensures r@ == self.spec_serialize_onto(Seq::empty()),
    {
        let mut r: Vec<u8> = Vec::new();
        assert(r@ =~= Seq::<u8>::empty());
        self.serialize_into(&mut r);
        r
    }

    /// The count the `object_context_len` length field carries: computed
    /// back from the context itself.
    pub fn object_context_len(&self) -> (r: u32)
        requires self.object_context@.len() <= 0xFFFF_FFFF,
        ensures r == self.object_context@.len(),
    {
        self.object_context.len() as u32
    }

    /// The count the `data_context_len` length field carries: computed
    /// back from the context itself.
    pub fn data_context_len(&self) -> (r: u32)
        requires self.data_context@.len() <= 0xFFFF_FFFF,
        ensures r == self.data_context@.len(),
    {
        self.data_context.len() as u32
    }
}

/// Where the `i`-th of the items starting at `pos` begins.
pub open spec fn spec_item_offset(s: Seq<u8>, pos: int, i: nat) -> int
    decreases i,
{
    if i == 0 {
        pos
    } else {
        spec_item_offset(s, spec_item_end(s, pos), (i - 1) as nat)
    }
}

/// Where `n` items starting at `pos` end, if all of them lie complete in
/// `s`.
pub open spec fn spec_items_end(s: Seq<u8>, pos: int, n: nat) -> Option<int>
    decreases n,
{
    if n == 0 {
        Some(pos)
    } else if spec_item_ok(s, pos) {
        spec_items_end(s, spec_item_end(s, pos), (n - 1) as nat)
    } else {
        None
    }
}

/// Stepping the item offset once more ends the previously last item.
proof fn lemma_item_offset_step(s: Seq<u8>, pos: int, i: nat)
    ensures spec_item_offset(s, pos, (i + 1) as nat)
        == spec_item_end(s, spec_item_offset(s, pos, i)),
    decreases i,
{
    let j = (i + 1) as nat;
    assert(spec_item_offset(s, pos, j)
        == spec_item_offset(s, spec_item_end(s, pos), (j - 1) as nat));
    assert((j - 1) as nat == i);
    if i == 0 {
        assert(spec_item_offset(s, spec_item_end(s, pos), 0) == spec_item_end(s, pos));
        assert(spec_item_offset(s, pos, 0) == pos);
    } else {
        lemma_item_offset_step(s, spec_item_end(s, pos), (i - 1) as nat);
        assert(spec_item_offset(s, pos, i)
            == spec_item_offset(s, spec_item_end(s, pos), (i - 1) as nat));
    }
}

/// Decode `n` consecutive items starting at byte offset `pos`.
fn parse_list_items(bytes: &Vec<u8>, pos: usize, n: usize)
    -> (r: Result<(Vec<ListItem>, usize), ParseError>)
    requires pos <= bytes@.len(),
    ensures
        ({
            let b = bytes@;
            match spec_items_end(b, pos as int, n as nat) {
                Some(end) => match r {
                    Ok((items, used)) => {
                        &&& items@.len() == n
                        &&& used == end
                        &&& forall|i: int| 0 <= i < n ==> spec_item_matches(
                            b,
                            spec_item_offset(b, pos as int, i as nat),
                            #[trigger] items@[i],
                        )
                    },
                    Err(_) => false,
                },
                None => r == Err::<(Vec<ListItem>, usize), ParseError>(ParseError::ParseError),
            }
        }),
{
    let mut items: Vec<ListItem> = Vec::new();
    let mut cur: usize = pos;
    let mut i: usize = 0;
    while i < n
        invariant
            pos <= bytes@.len(),
            cur <= bytes@.len(),
            i <= n,
            items@.len() == i,
            cur as int == spec_item_offset(bytes@, pos as int, i as nat),
            spec_items_end(bytes@, pos as int, n as nat)
                == spec_items_end(bytes@, cur as int, (n - i) as nat),
            forall|j: int| 0 <= j < i ==> spec_item_matches(
                bytes@,
                spec_item_offset(bytes@, pos as int, j as nat),
                #[trigger] items@[j],
            ),
        decreases n - i,
    {
        match ListItem::try_parse_at(bytes, cur) {
            Ok((item, end)) => {
                proof {
                    lemma_item_offset_step(bytes@, pos as int, i as nat);
                }
                items.push(item);
                cur = end;
                i = i + 1;
            },
            Err(_) => {
                return Err(ParseError::ParseError);
            },
        }
    }
    Ok((items, cur))
}

/// Every property of a window, with its contexts.
#[derive(Debug, Clone, PartialEq, Eq)]
pub struct ListPropertiesReply {
    pub response_type: u8,
    pub sequence: u16,
    pub length: u32,
    pub properties: Vec<ListItem>,
}

impl ListPropertiesReply {
    /// Decode the reply: the fixed fields, then the items the count at
    /// offset 8 declares, each at the offset the one before it ends.
    pub fn try_parse(bytes: &Vec<u8>) -> (r: Result<(ListPropertiesReply, usize), ParseError>)
        ensures
            ({
                let b = bytes@;
                if b.len() >= 32 {
                    match spec_items_end(b, 32, le32_at(b, 8) as nat) {
                        Some(end) => match r {
                            Ok((reply, used)) => {
                                &&& reply.response_type == b[0]
                                &&& reply.sequence == le16_at(b, 2)
                                &&& reply.length == le32_at(b, 4)
                                &&& reply.properties@.len() == le32_at(b, 8)
                                &&& used == end
                                &&& forall|i: int| 0 <= i < le32_at(b, 8) ==> spec_item_matches(
                                    b,
                                    spec_item_offset(b, 32, i as nat),
                                    #[trigger] reply.properties@[i],
                                )
                            },
                            Err(_) => false,
                        },
                        None => r is Err,
                    }
                } else {
                    r is Err
                }
            }),
    {
        if bytes.len() < 32 {
            return Err(ParseError::ParseError);
        }
        let n = read_u32(bytes, 8);
        match parse_list_items(bytes, 32, n as usize) {
            Ok((properties, used)) => Ok((ListPropertiesReply {
                response_type: bytes[0],
                sequence: read_u16(bytes, 2),
                length: read_u32(bytes, 4),
                properties,
            }, used)),
            Err(e) => Err(e),
        }
    }

    /// The count the `properties_len` length field carries: computed back
    /// from the list itself.
    pub fn properties_len(&self) -> (r: u32)
        requires self.properties@.len() <= 0xFFFF_FFFF,
        ensures r == self.properties@.len(),
    {
        self.properties.len() as u32
    }
}

/// Every selection, with its contexts.
#[derive(Debug, Clone, PartialEq, Eq)]
pub struct ListSelectionsReply {
    pub response_type: u8,
    pub sequence: u16,
    pub length: u32,
    pub selections: Vec<ListItem>,
}

impl ListSelectionsReply {
    /// Decode the reply: the fixed fields, then the items the count at
    /// offset 8 declares, each at the offset the one before it ends.
    pub fn try_parse(bytes: &Vec<u8>) -> (r: Result<(ListSelectionsReply, usize), ParseError>)
        ensures
            ({
                let b = bytes@;
                if b.len() >= 32 {
                    match spec_items_end(b, 32, le32_at(b, 8) as nat) {
                        Some(end) => match r {
                            Ok((reply, used)) => {
                                &&& reply.response_type == b[0]
                                &&& reply.sequence == le16_at(b, 2)
                                &&& reply.length == le32_at(b, 4)
                                &&& reply.selections@.len() == le32_at(b, 8)
                                &&& used == end
                                &&& forall|i: int| 0 <= i < le32_at(b, 8) ==> spec_item_matches(
                                    b,
                                    spec_item_offset(b, 32, i as nat),
                                    #[trigger] reply.selections@[i],
                                )
                            },
                            Err(_) => false,
                        },
                        None => r is Err,
                    }
                } else {
                    r is Err
                }
            }),
    {
        if bytes.len() < 32 {
            return Err(ParseError::ParseError);
        }
        let n = read_u32(bytes, 8);
        match parse_list_items(bytes, 32, n as usize) {
            Ok((selections, used)) => Ok((ListSelectionsReply {
                response_type: bytes[0],
                sequence: read_u16(bytes, 2),
                length: read_u32(bytes, 4),
                selections,
            }, used)),
            Err(e) => Err(e),
        }
    }

    /// The count the `selections_len` length field carries: computed back
    /// from the list itself.
    pub fn selections_len(&self) -> (r: u32)
        requires self.selections@.len() <= 0xFFFF_FFFF,
        ensures r == self.selections@.len(),
    {
        self.selections.len() as u32
    }
}

} // verus!
