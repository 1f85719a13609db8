//! Byte-level bindings to the generic-event extension, which frames
//! variable-length events the same way replies are framed.

use vstd::prelude::*;
use crate::connection::{Connection, Cookie, spec_outcome, spec_sent_via_extension};
use crate::errors::{ConnectionError, ParseError};
use crate::fdqueue::RawFdContainer;
use crate::wire::{
    build_request, le16_at, le32_at, push_u16, read_u16, read_u32, u16_le_bytes, spec_request,
    RequestHeader,
};

verus! {

/// Opcode for the QueryVersion request
pub const QUERY_VERSION_REQUEST: u8 = 0;

/// The name this extension is discovered under.
pub open spec fn spec_extension_name() -> Seq<u8> {
    seq![
        71u8, 101u8, 110u8, 101u8, 114u8, 105u8, 99u8, 32u8, 69u8, 118u8, 101u8, 110u8, 116u8,
        32u8, 69u8, 120u8, 116u8, 101u8, 110u8, 115u8, 105u8, 111u8, 110u8,
    ]
}

/// The name this extension is discovered under, as bytes.
pub fn extension_name() -> (r: Vec<u8>)
    ensures r@ == spec_extension_name(),
{
    let mut r: Vec<u8> = Vec::new();
    r.push(71);
    r.push(101);
    r.push(110);
    r.push(101);
    r.push(114);
    r.push(105);
    r.push(99);
    r.push(32);
    r.push(69);
    r.push(118);
    r.push(101);
    r.push(110);
    r.push(116);
    r.push(32);
    r.push(69);
    r.push(120);
    r.push(116);
    r.push(101);
    r.push(110);
    r.push(115);
    r.push(105);
    r.push(111);
    r.push(110);
    assert(r@ =~= spec_extension_name());
    r
}

/// The major opcode this extension's requests go out under.
///
/// Answers from the cache; the first ask also queues the discovery
/// request and fails in flight, as [`Connection::extension_opcode`] says
/// of this extension's name.
pub fn major_opcode(conn: &mut Connection) -> (r: Result<u8, ConnectionError>)
    requires old(conn).wf(),
    ensures
        final(conn).wf(),
        ({
            let entries = old(conn).extensions.entries@;
            if crate::extension::spec_has_name(entries, spec_extension_name()) {
                &&& *final(conn) == *old(conn)
                &&& exists|i: int| 0 <= i < entries.len()
                    && (#[trigger] entries[i]).name@ == spec_extension_name()
                    && r == (match entries[i].state {
                        crate::extension::ExtensionState::Present { info } =>
                            Ok::<u8, ConnectionError>(info.major_opcode),
                        crate::extension::ExtensionState::Absent =>
                            Err::<u8, ConnectionError>(ConnectionError::UnsupportedExtension),
                        crate::extension::ExtensionState::Pending { .. } =>
                            Err::<u8, ConnectionError>(ConnectionError::ExtensionQueryInFlight),
                    })
            } else if !old(conn).spec_can_send() {
                &&& r == Err::<u8, ConnectionError>(old(conn).spec_send_error())
                &&& *final(conn) == *old(conn)
            } else {
                &&& r == Err::<u8, ConnectionError>(ConnectionError::ExtensionQueryInFlight)
                &&& Connection::spec_discovery_sent(*old(conn), *final(conn), spec_extension_name())
            }
        }),
{
    let name = extension_name();
    conn.extension_opcode(&name)
}

/// Asks which protocol version the server offers.
#[derive(Debug, Clone, Copy, PartialEq, Eq, Structural)]
pub struct QueryVersionRequest {
    pub client_major_version: u16,
    pub client_minor_version: u16,
}

impl QueryVersionRequest {
    /// The request's exact wire bytes under the extension's major opcode.
    pub open spec fn spec_serialize(self, major_opcode: u8) -> Seq<u8> {
        spec_request(
            major_opcode,
            QUERY_VERSION_REQUEST,
            u16_le_bytes(self.client_major_version) + u16_le_bytes(self.client_minor_version),
            Seq::empty(),
        )
    }

    /// Serialize this request into bytes for the given major opcode.
    pub fn serialize_impl(&self, major_opcode: u8) -> (r: Vec<u8>)
        ensures r@ == self.spec_serialize(major_opcode),
    {
        let mut body: Vec<u8> = Vec::new();
        push_u16(&mut body, self.client_major_version);
        push_u16(&mut body, self.client_minor_version);
        assert(body@ =~= u16_le_bytes(self.client_major_version)
            + u16_le_bytes(self.client_minor_version));
        let payload: Vec<u8> = Vec::new();
        assert(payload@ =~= Seq::<u8>::empty());
        build_request(major_opcode, QUERY_VERSION_REQUEST, &body, &payload)
    }

    /// Queue this request on the connection.
    pub fn send(&self, conn: &mut Connection) -> (r: Result<Cookie, ConnectionError>)
        requires old(conn).wf(),
        ensures
            final(conn).wf(),
            r matches Ok(c) ==> c.sequence == old(conn).next_sequence,
            spec_sent_via_extension(
                *old(conn),
                *final(conn),
                spec_extension_name(),
                (|op: u8| self.spec_serialize(op)),
                Seq::empty(),
                true,
                false,
                spec_outcome(r, old(conn).next_sequence as int),
            ),
    {
        let name = extension_name();
        let major_opcode = match conn.extension_opcode(&name) {
            Ok(op) => op,
            Err(e) => {
                return Err(e);
            },
        };
        let bytes = self.serialize_impl(major_opcode);
        let fds: Vec<RawFdContainer> = Vec::new();
        assert(fds@ =~= Seq::<RawFdContainer>::empty());
        match conn.send_request_with_reply(&bytes, &fds) {
            Ok(c) => Ok(c),
            Err(e) => Err(e),
        }
    }

    /// Parse this request back out of its header and body, as a server
    /// side would receive it.
    pub fn try_parse_request(header: RequestHeader, value: &Vec<u8>)
        -> (r: Result<QueryVersionRequest, ParseError>)
        ensures
            header.minor_opcode != QUERY_VERSION_REQUEST
                ==> r == Err::<QueryVersionRequest, ParseError>(ParseError::InvalidValue),
            header.minor_opcode == QUERY_VERSION_REQUEST && value@.len() < 4
                ==> r == Err::<QueryVersionRequest, ParseError>(ParseError::InsufficientData),
            header.minor_opcode == QUERY_VERSION_REQUEST && value@.len() >= 4
                ==> r == Ok::<QueryVersionRequest, ParseError>((QueryVersionRequest {
                    client_major_version: le16_at(value@, 0),
                    client_minor_version: le16_at(value@, 2),
                })),
    {
        if header.minor_opcode != QUERY_VERSION_REQUEST {
            return Err(ParseError::InvalidValue);
        }
        if value.len() < 4 {
            return Err(ParseError::InsufficientData);
        }
        Ok(QueryVersionRequest {
            client_major_version: read_u16(value, 0),
            client_minor_version: read_u16(value, 2),
        })
    }
}

/// Queue a QueryVersion request.
pub fn query_version(conn: &mut Connection, client_major_version: u16, client_minor_version: u16)
    -> (r: Result<Cookie, ConnectionError>)
    requires old(conn).wf(),
    ensures
        final(conn).wf(),
        r matches Ok(c) ==> c.sequence == old(conn).next_sequence,
        spec_sent_via_extension(
            *old(conn),
            *final(conn),
            spec_extension_name(),
            (|op: u8| (QueryVersionRequest { client_major_version, client_minor_version })
                .spec_serialize(op)),
            Seq::empty(),
            true,
            false,
            spec_outcome(r, old(conn).next_sequence as int),
        ),
{
    let request = QueryVersionRequest { client_major_version, client_minor_version };
    request.send(conn)
}

/// What the server answered to QueryVersion.
#[derive(Debug, Clone, Copy, PartialEq, Eq, Structural)]
pub struct QueryVersionReply {
    pub sequence: u16,
    pub length: u32,
    pub major_version: u16,
    pub minor_version: u16,
}

impl QueryVersionReply {
    /// Decode the reply: its fixed fields must carry the reply marker, and
    /// the whole declared length must have arrived; the count returned —
    /// the full declared length — is how many bytes were consumed.
    pub fn try_parse(bytes: &Vec<u8>) -> (r: Result<(QueryVersionReply, usize), ParseError>)
        ensures
            ({
                let b = bytes@;
                if b.len() < 32 {
                    r == Err::<(QueryVersionReply, usize), ParseError>(ParseError::InsufficientData)
                } else if b[0] != 1 {
                    r == Err::<(QueryVersionReply, usize), ParseError>(ParseError::InvalidValue)
                } else if b.len() < 32 + 4 * (le32_at(b, 4) as int) {
                    r == Err::<(QueryVersionReply, usize), ParseError>(ParseError::InsufficientData)
                } else {
                    r == Ok::<(QueryVersionReply, usize), ParseError>(((QueryVersionReply {
                        sequence: le16_at(b, 2),
                        length: le32_at(b, 4),
                        major_version: le16_at(b, 8),
                        minor_version: le16_at(b, 10),
                    }), (32 + 4 * (le32_at(b, 4) as int)) as usize))
                }
            }),
    {
        if bytes.len() < 32 {
            return Err(ParseError::InsufficientData);
        }
        if bytes[0] != 1 {
            return Err(ParseError::InvalidValue);
        }
        let length = read_u32(bytes, 4);
        let total: u64 = 32 + 4 * (length as u64);
        if (bytes.len() as u64) < total {
            return Err(ParseError::InsufficientData);
        }
        Ok((QueryVersionReply {
            sequence: read_u16(bytes, 2),
            length,
            major_version: read_u16(bytes, 8),
            minor_version: read_u16(bytes, 10),
        }, total as usize))
    }
}

} // verus!
