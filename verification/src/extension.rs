//! Extension information cache: maps an extension's name to its major
//! opcode and its first event and error codes, resolved through exactly one
//! discovery request per distinct name and immutable once resolved.

use vstd::prelude::*;
use crate::errors::ParseError;
use crate::packet::RESPONSE_TYPE_REPLY;
use crate::wire::{build_request, push_u16, spec_request, u16_le_bytes};

verus! {

/// Major opcode of the core request that resolves an extension name.
pub const QUERY_EXTENSION_OPCODE: u8 = 98;

/// What the server reports for one extension: where its requests, events
/// and errors live in the protocol's numbering.
#[derive(Debug, Clone, Copy, PartialEq, Eq, Structural)]
pub struct ExtensionInfo {
    pub major_opcode: u8,
    pub first_event: u8,
    pub first_error: u8,
}

/// What the cache knows about one name.
#[derive(Debug, Clone, Copy, PartialEq, Eq, Structural)]
pub enum ExtensionState {
    /// The discovery request was sent under this sequence number and its
    /// reply has not arrived yet.
    Pending { sequence: u64 },
    /// The server offers the extension.
    Present { info: ExtensionInfo },
    /// The server does not offer the extension.
    Absent,
}

/// One cached name with what is known about it.
#[derive(Debug)]
pub struct ExtensionEntry {
    pub name: Vec<u8>,
    pub state: ExtensionState,
}

/// Append-only cache of extension information, one entry per distinct
/// name.
#[derive(Debug)]
pub struct ExtensionCache {
    pub entries: Vec<ExtensionEntry>,
}

/// Whether some entry carries this name.
pub open spec fn spec_has_name(s: Seq<ExtensionEntry>, name: Seq<u8>) -> bool {
    exists|i: int| 0 <= i < s.len() && s[i].name@ == name
}

impl ExtensionCache {
    /// The cache's invariant: no name occurs twice.
    pub open spec fn wf(&self) -> bool {
        forall|i: int, j: int|
            0 <= i < j < self.entries@.len() ==> self.entries@[i].name@ != self.entries@[j].name@
    }

    /// An empty cache.
    pub fn new() -> (r: ExtensionCache)
        ensures
            r.wf(),
            r.entries@.len() == 0,
    {
        ExtensionCache { entries: Vec::new() }
    }

    /// The index of the entry carrying `name`, if any.
    pub fn find(&self, name: &Vec<u8>) -> (r: Option<usize>)
        ensures
            match r {
                Some(i) => i < self.entries@.len() && self.entries@[i as int].name@ == name@,
                None => !spec_has_name(self.entries@, name@),
            },
    {
        let mut i: usize = 0;
        while i < self.entries.len()
            invariant
                i <= self.entries@.len(),
                forall|j: int| 0 <= j < i ==> self.entries@[j].name@ != name@,
            decreases self.entries@.len() - i,
        {
            if crate::wire::bytes_eq(&self.entries[i].name, name) {
                return Some(i);
            }
            i = i + 1;
        }
        None
    }

    /// What is known about `name`, if anything.
    pub fn lookup(&self, name: &Vec<u8>) -> (r: Option<ExtensionState>)
        ensures
            match r {
                Some(state) => exists|i: int|
                    0 <= i < self.entries@.len() && self.entries@[i].name@ == name@
                        && self.entries@[i].state == state,
                None => !spec_has_name(self.entries@, name@),
            },
    {
        match self.find(name) {
            Some(i) => Some(self.entries[i].state),
            None => None,
        }
    }

    /// Note that the discovery request for `name` went out under
    /// `sequence`.  A name is entered exactly once, so exactly one
    /// discovery request is ever sent for it.
    pub fn begin_query(&mut self, name: &Vec<u8>, sequence: u64)
        requires
            old(self).wf(),
            !spec_has_name(old(self).entries@, name@),
        ensures
            final(self).wf(),
            final(self).entries@.len() == old(self).entries@.len() + 1,
            final(self).entries@.last().name@ == name@,
            final(self).entries@.last().state == (ExtensionState::Pending { sequence }),
            final(self).entries@.drop_last() == old(self).entries@,
    {
        let entry = ExtensionEntry { name: crate::wire::copy_range(name, 0, name.len()), state: ExtensionState::Pending { sequence } };
        assert(entry.name@ =~= name@);
        self.entries.push(entry);
        assert(final(self).entries@.drop_last() =~= old(self).entries@);
    }

    /// Record the discovery reply for `name`: present with its opcodes, or
    /// absent.  The entry becomes immutable from here on.
    pub fn record(&mut self, name: &Vec<u8>, result: Option<ExtensionInfo>)
        requires
            old(self).wf(),
        ensures
            final(self).wf(),
            final(self).entries@.len() == old(self).entries@.len(),
            forall|i: int| 0 <= i < old(self).entries@.len() ==> {
                &&& final(self).entries@[i].name@ == old(self).entries@[i].name@
                &&& (old(self).entries@[i].name@ != name@
                    ==> final(self).entries@[i] == old(self).entries@[i])
                &&& (old(self).entries@[i].name@ == name@
                    ==> final(self).entries@[i].state == match result {
                        Some(info) => ExtensionState::Present { info },
                        None => ExtensionState::Absent,
                    })
            },
    {
        let found = self.find(name);
        match found {
            Some(i) => {
                let state = match result {
                    Some(info) => ExtensionState::Present { info },
                    None => ExtensionState::Absent,
                };
                let entry_name = crate::wire::copy_range(&self.entries[i].name, 0, self.entries[i].name.len());
                assert(entry_name@ =~= old(self).entries@[i as int].name@);
                self.entries.set(i, ExtensionEntry { name: entry_name, state });
            },
            None => {},
        }
    }

    /// The extension owning an event code: the one whose first event code
    /// is the greatest at or below `code`, among those the server offers.
    pub fn find_by_event_code(&self, code: u8) -> (r: Option<ExtensionInfo>)
        ensures
            match r {
                Some(info) => {
                    &&& exists|i: int| 0 <= i < self.entries@.len()
                        && self.entries@[i].state == (ExtensionState::Present { info })
                    &&& info.first_event <= code
                    &&& forall|i: int, other: ExtensionInfo|
                        0 <= i < self.entries@.len()
                            && self.entries@[i].state == (ExtensionState::Present { info: other })
                            && other.first_event <= code
                            ==> other.first_event <= info.first_event
                },
                None => forall|i: int, other: ExtensionInfo|
                    0 <= i < self.entries@.len()
                        && self.entries@[i].state == (ExtensionState::Present { info: other })
                        ==> other.first_event > code,
            },
    {
        let mut best: Option<ExtensionInfo> = None;
        let mut i: usize = 0;
        while i < self.entries.len()
            invariant
                i <= self.entries@.len(),
                match best {
                    Some(info) => {
                        &&& exists|j: int| 0 <= j < i
                            && self.entries@[j].state == (ExtensionState::Present { info })
                        &&& info.first_event <= code
                        &&& forall|j: int, other: ExtensionInfo|
                            0 <= j < i
                                && self.entries@[j].state == (ExtensionState::Present { info: other })
                                && other.first_event <= code
                                ==> other.first_event <= info.first_event
                    },
                    None => forall|j: int, other: ExtensionInfo|
                        0 <= j < i
                            && self.entries@[j].state == (ExtensionState::Present { info: other })
                            ==> other.first_event > code,
                },
            decreases self.entries@.len() - i,
        {
            match self.entries[i].state {
                ExtensionState::Present { info } => {
                    if info.first_event <= code {
                        match best {
                            Some(b) => {
                                if b.first_event < info.first_event {
                                    best = Some(info);
                                }
                            },
                            None => {
                                best = Some(info);
                            },
                        }
                    }
                },
                _ => {},
            }
            i = i + 1;
        }
        best
    }

    /// The extension owning an error code: the one whose first error code
    /// is the greatest at or below `code`, among those the server offers.
    pub fn find_by_error_code(&self, code: u8) -> (r: Option<ExtensionInfo>)
        ensures
            match r {
                Some(info) => {
                    &&& exists|i: int| 0 <= i < self.entries@.len()
                        && self.entries@[i].state == (ExtensionState::Present { info })
                    &&& info.first_error <= code
                    &&& forall|i: int, other: ExtensionInfo|
                        0 <= i < self.entries@.len()
                            && self.entries@[i].state == (ExtensionState::Present { info: other })
                            && other.first_error <= code
                            ==> other.first_error <= info.first_error
                },
                None => forall|i: int, other: ExtensionInfo|
                    0 <= i < self.entries@.len()
                        && self.entries@[i].state == (ExtensionState::Present { info: other })
                        ==> other.first_error > code,
            },
    {
        let mut best: Option<ExtensionInfo> = None;
        let mut i: usize = 0;
        while i < self.entries.len()
            invariant
                i <= self.entries@.len(),
                match best {
                    Some(info) => {
                        &&& exists|j: int| 0 <= j < i
                            && self.entries@[j].state == (ExtensionState::Present { info })
                        &&& info.first_error <= code
                        &&& forall|j: int, other: ExtensionInfo|
                            0 <= j < i
                                && self.entries@[j].state == (ExtensionState::Present { info: other })
                                && other.first_error <= code
                                ==> other.first_error <= info.first_error
                    },
                    None => forall|j: int, other: ExtensionInfo|
                        0 <= j < i
                            && self.entries@[j].state == (ExtensionState::Present { info: other })
                            ==> other.first_error > code,
                },
            decreases self.entries@.len() - i,
        {
            match self.entries[i].state {
                ExtensionState::Present { info } => {
                    if info.first_error <= code {
                        match best {
                            Some(b) => {
                                if b.first_error < info.first_error {
                                    best = Some(info);
                                }
                            },
                            None => {
                                best = Some(info);
                            },
                        }
                    }
                },
                _ => {},
            }
            i = i + 1;
        }
        best
    }
}

/// Wire form of the discovery request for `name`: the core request naming
/// the extension, its name padded to a 4-byte boundary.
pub open spec fn spec_query_extension_request(name: Seq<u8>) -> Seq<u8> {
    spec_request(
        QUERY_EXTENSION_OPCODE,
        0,
        u16_le_bytes(name.len() as u16) + seq![0u8, 0u8],
        name,
    )
}

/// Encode the discovery request for `name`.
pub fn encode_query_extension(name: &Vec<u8>) -> (r: Vec<u8>)
    requires name@.len() <= 0xFFFF,
    ensures r@ == spec_query_extension_request(name@),
{
    let mut body: Vec<u8> = Vec::new();
    push_u16(&mut body, name.len() as u16);
    body.push(0);
    body.push(0);
    assert(body@ =~= u16_le_bytes(name@.len() as u16) + seq![0u8, 0u8]);
    build_request(QUERY_EXTENSION_OPCODE, 0, &body, name)
}

/// What a discovery reply reports, per its fixed fields: whether the
/// extension is present and, when it is, its three opcodes.
pub open spec fn spec_query_extension_result(p: Seq<u8>) -> Option<ExtensionInfo> {
    if p[8] != 0 {
        Some(ExtensionInfo { major_opcode: p[9], first_event: p[10], first_error: p[11] })
    } else {
        None
    }
}

/// Decode a discovery reply.
pub fn parse_query_extension_reply(packet: &Vec<u8>) -> (r: Result<Option<ExtensionInfo>, ParseError>)
    ensures
        packet@.len() < 32 ==> r == Err::<Option<ExtensionInfo>, ParseError>(ParseError::InsufficientData),
        packet@.len() >= 32 && packet@[0] != 1 ==> r == Err::<Option<ExtensionInfo>, ParseError>(ParseError::InvalidValue),
        packet@.len() >= 32 && packet@[0] == 1 ==> r == Ok::<Option<ExtensionInfo>, ParseError>(spec_query_extension_result(packet@)),
{
    if packet.len() < 32 {
        return Err(ParseError::InsufficientData);
    }
    if packet[0] != RESPONSE_TYPE_REPLY {
        return Err(ParseError::InvalidValue);
    }
    if packet[8] != 0 {
        Ok(Some(ExtensionInfo {
            major_opcode: packet[9],
            first_event: packet[10],
            first_error: packet[11],
        }))
    } else {
        Ok(None)
    }
}

} // verus!
