//! The connection core: issues sequence numbers in send order, frames
//! incoming bytes into packets, classifies each packet as reply, error or
//! event, and routes it to the waiting cookie, the last-error slot or the
//! event queue.
//!
//! The connection never touches a socket.  The caller writes out the bytes
//! and descriptors gathered in `outgoing` and `outgoing_fds`, and hands
//! whatever it read to [`Connection::feed`].  A blocking wait on a cookie
//! is a caller's loop: feed what the socket yields, then poll the cookie.

use vstd::prelude::*;
use crate::errors::ConnectionError;
use crate::extension::{ExtensionCache, ExtensionInfo, ExtensionState, encode_query_extension, spec_has_name, spec_query_extension_request};
use crate::fdqueue::{FdQueue, RawFdContainer};
use crate::packet::{PacketReader, spec_packet_well_formed, spec_wire_sequence, RESPONSE_TYPE_ERROR, RESPONSE_TYPE_REPLY, GE_GENERIC_EVENT};

verus! {

/// Largest allowed count of requests sent but not yet reached by the
/// anchor.  Held well below 65536 so a 16-bit wire value always resolves
/// to the one outstanding sequence it can mean.
pub const MAX_OUTSTANDING: u64 = 0x4000;

/// Upper bound on issued sequence numbers, leaving resolution arithmetic
/// room above every anchor.
pub const SEQUENCE_LIMIT: u64 = 0xFFFF_FFFF_FFFF_0000;

/// Handle for the eventual reply or error of one request.
#[derive(Debug, Clone, Copy, PartialEq, Eq, Structural)]
pub struct Cookie {
    pub sequence: u64,
}

/// Handle for a request that defines no reply.
#[derive(Debug, Clone, Copy, PartialEq, Eq, Structural)]
pub struct VoidCookie {
    pub sequence: u64,
}

/// Bookkeeping for one request sent and not yet resolved.
#[derive(Debug, Clone, Copy, PartialEq, Eq, Structural)]
pub struct PendingRequest {
    /// Logical sequence number issued at send time.
    pub sequence: u64,
    /// Whether the request defines a reply.
    pub expects_reply: bool,
    /// Whether the reply hands descriptors out.
    pub bears_fds: bool,
    /// Whether the caller discarded the cookie before resolution.
    pub abandoned: bool,
}

/// A resolved reply or error waiting for its cookie to claim it.
#[derive(Debug)]
pub struct ReplyEntry {
    pub sequence: u64,
    pub bears_fds: bool,
    pub packet: Vec<u8>,
}

/// How many descriptors a stored reply declares: the count at byte 1 of a
/// descriptor-bearing reply, none otherwise.
pub open spec fn spec_reply_declared_fds(entry: ReplyEntry) -> int {
    if entry.bears_fds && entry.packet@[0] == 1 {
        entry.packet@[1] as int
    } else {
        0
    }
}

/// Outcome of checking a request that defines no reply.
#[derive(Debug)]
pub enum VoidStatus {
    /// A later numbered packet proved the server moved past the request
    /// with no error at its sequence.
    Completed,
    /// The server reported this error for the request.
    ProtocolError { packet: Vec<u8> },
    /// Nothing at or past the request's sequence has arrived yet.
    Pending,
}

/// Outcome of asking for extension information.
#[derive(Debug, Clone, Copy, PartialEq, Eq, Structural)]
pub enum ExtensionLookup {
    /// The cache already knows the answer.
    Known { info: Option<ExtensionInfo> },
    /// A discovery request is in flight under this cookie: pump the
    /// connection until it resolves, record the result, and retry.
    InFlight { cookie: Cookie },
}

/// The logical sequence number a 16-bit wire value stands for: the
/// smallest value at or above the anchor whose low 16 bits match.
pub open spec fn spec_resolve_sequence(anchor: int, wire: u16) -> int {
    let cand = anchor - anchor % 0x10000 + wire;
    if cand >= anchor {
        cand
    } else {
        cand + 0x10000
    }
}

/// Resolution picks exactly the smallest matching value at or above the
/// anchor, and stays within one 16-bit turn of it.
pub proof fn lemma_resolution_exact(anchor: int, wire: u16)
    requires anchor >= 0,
    ensures
        anchor <= spec_resolve_sequence(anchor, wire),
        spec_resolve_sequence(anchor, wire) < anchor + 0x10000,
        spec_resolve_sequence(anchor, wire) % 0x10000 == wire as int,
        forall|s: int| anchor <= s < spec_resolve_sequence(anchor, wire)
            ==> #[trigger] (s % 0x10000) != wire as int,
{
    let r = spec_resolve_sequence(anchor, wire);
    assert(r % 0x10000 == wire as int) by (nonlinear_arith)
        requires anchor >= 0, r == spec_resolve_sequence(anchor, wire),
    {
    }
    assert forall|s: int| anchor <= s < r implies #[trigger] (s % 0x10000) != wire as int by {
        assert(s % 0x10000 != wire as int) by (nonlinear_arith)
            requires anchor >= 0, r == spec_resolve_sequence(anchor, wire), anchor <= s < r,
        {
        }
    }
}

/// The logical sequence numbers attributed to a run of numbered packets,
/// each one resolved against the anchor the previous packet advanced.
pub open spec fn spec_observed_sequences(anchor: int, wires: Seq<u16>) -> Seq<int>
    decreases wires.len(),
{
    if wires.len() == 0 {
        Seq::empty()
    } else {
        let s = spec_resolve_sequence(anchor, wires[0]);
        seq![s] + spec_observed_sequences(s, wires.skip(1))
    }
}

/// Replies and errors surface in non-decreasing logical sequence order:
/// over any run of numbered packets, the sequence attributed to a later
/// packet is never below that of an earlier one, and never below the
/// starting anchor.  Requests take strictly increasing sequence numbers in
/// send order, so this order is send order.
pub proof fn lemma_observed_non_decreasing(anchor: int, wires: Seq<u16>)
    requires anchor >= 0,
    ensures
        spec_observed_sequences(anchor, wires).len() == wires.len(),
        forall|i: int, j: int| 0 <= i <= j < wires.len()
            ==> #[trigger] spec_observed_sequences(anchor, wires)[i]
                <= #[trigger] spec_observed_sequences(anchor, wires)[j],
        forall|i: int| 0 <= i < wires.len()
            ==> anchor <= #[trigger] spec_observed_sequences(anchor, wires)[i],
    decreases wires.len(),
{
    if wires.len() > 0 {
        let s = spec_resolve_sequence(anchor, wires[0]);
        lemma_resolution_exact(anchor, wires[0]);
        lemma_observed_non_decreasing(s, wires.skip(1));
        let obs = spec_observed_sequences(anchor, wires);
        let tail = spec_observed_sequences(s, wires.skip(1));
        assert(obs == seq![s] + tail);
        assert(obs.len() == wires.len());
        assert(obs[0] == s);
        assert forall|i: int| 0 <= i < obs.len() implies anchor <= #[trigger] obs[i] by {
            if i > 0 {
                assert(obs[i] == tail[i - 1]);
            }
        }
        assert forall|i: int, j: int| 0 <= i <= j < obs.len() implies
            #[trigger] obs[i] <= #[trigger] obs[j] by {
            if i == 0 {
                if j > 0 {
                    assert(obs[j] == tail[j - 1]);
                }
            } else {
                assert(obs[i] == tail[i - 1]);
                assert(obs[j] == tail[j - 1]);
            }
        }
    }
}

/// Resolve a wire value against the anchor.
pub fn resolve_sequence(anchor: u64, wire: u16) -> (r: u64)
    requires anchor <= SEQUENCE_LIMIT,
    ensures r == spec_resolve_sequence(anchor as int, wire),
{
    let base = anchor - anchor % 0x10000;
    let cand = base + wire as u64;
    if cand >= anchor {
        cand
    } else {
        cand + 0x10000
    }
}

/// Whether a packet carries a sequence number: replies, errors and generic
/// events do; other events do not.
pub open spec fn spec_is_numbered(p: Seq<u8>) -> bool {
    p[0] == 0 || p[0] == 1 || (p[0] & 0x7f) == 35
}

/// One connection's transport state, exclusively owned by its user.
#[derive(Debug)]
pub struct Connection {
    /// Sequence number the next request will take; starts at 1.
    pub next_sequence: u64,
    /// Anchor: the logical sequence of the last numbered packet read.
    pub last_read_sequence: u64,
    /// Request bytes not yet written to the socket by the caller.
    pub outgoing: Vec<u8>,
    /// Descriptors to transmit with the bytes in `outgoing`.
    pub outgoing_fds: Vec<RawFdContainer>,
    /// Reassembly state for the packet currently arriving.
    pub reader: PacketReader,
    /// Descriptors received and not yet consumed.
    pub fd_queue: FdQueue,
    /// Events waiting to be taken, oldest first.
    pub events: Vec<Vec<u8>>,
    /// Resolved replies and errors waiting for their cookies.
    pub replies: Vec<ReplyEntry>,
    /// Requests sent and not yet resolved, in send order.
    pub pending: Vec<PendingRequest>,
    /// The most recent error that no reply-expecting cookie claimed, with
    /// its logical sequence.
    pub last_error: Option<(u64, Vec<u8>)>,
    /// Extension information resolved so far.
    pub extensions: ExtensionCache,
    /// Whether the connection is poisoned: peer shutdown, or a fatal
    /// framing violation.
    pub closed: bool,
}

impl Connection {
    /// The connection's invariant.
    pub open spec fn wf(&self) -> bool {
        &&& 1 <= self.next_sequence <= SEQUENCE_LIMIT
        &&& self.last_read_sequence < self.next_sequence
        &&& self.reader.wf()
        &&& self.extensions.wf()
        &&& forall|i: int| 0 <= i < self.pending@.len()
            ==> #[trigger] self.pending@[i].sequence < self.next_sequence
        &&& forall|i: int, j: int| 0 <= i < j < self.pending@.len()
            ==> self.pending@[i].sequence < self.pending@[j].sequence
        &&& forall|i: int| 0 <= i < self.replies@.len()
            ==> spec_packet_well_formed(#[trigger] self.replies@[i].packet@)
    }

    /// A fresh connection with nothing sent or received.
    pub fn new() -> (r: Connection)
        ensures
            r.wf(),
            r.next_sequence == 1,
            r.last_read_sequence == 0,
            r.outgoing@ == Seq::<u8>::empty(),
            r.outgoing_fds@ == Seq::<RawFdContainer>::empty(),
            r.fd_queue.contents() == Seq::<RawFdContainer>::empty(),
            r.events@ == Seq::<Vec<u8>>::empty(),
            r.replies@ == Seq::<ReplyEntry>::empty(),
            r.pending@ == Seq::<PendingRequest>::empty(),
            r.last_error is None,
            r.extensions.entries@ == Seq::<crate::extension::ExtensionEntry>::empty(),
            !r.closed,
            r.reader.absorbed() == Seq::<u8>::empty(),
    {
        let r = Connection {
            next_sequence: 1,
            last_read_sequence: 0,
            outgoing: Vec::new(),
            outgoing_fds: Vec::new(),
            reader: PacketReader::new(),
            fd_queue: FdQueue::new(),
            events: Vec::new(),
            replies: Vec::new(),
            pending: Vec::new(),
            last_error: None,
            extensions: ExtensionCache::new(),
            closed: false,
        };
        assert(r.outgoing@ =~= Seq::<u8>::empty());
        assert(r.outgoing_fds@ =~= Seq::<RawFdContainer>::empty());
        assert(r.events@ =~= Seq::<Vec<u8>>::empty());
        assert(r.replies@ =~= Seq::<ReplyEntry>::empty());
        assert(r.pending@ =~= Seq::<PendingRequest>::empty());
        assert(r.extensions.entries@ =~= Seq::<crate::extension::ExtensionEntry>::empty());
        r
    }

    /// Whether another request may be issued now.
    pub open spec fn spec_can_send(&self) -> bool {
        &&& !self.closed
        &&& self.next_sequence < SEQUENCE_LIMIT
        &&& self.next_sequence - 1 - self.last_read_sequence < MAX_OUTSTANDING
    }

    /// Why a request cannot be issued now, when it cannot.
    pub open spec fn spec_send_error(&self) -> ConnectionError {
        if self.closed {
            ConnectionError::ConnectionClosed
        } else {
            ConnectionError::TooManyOutstanding
        }
    }

    /// Everything a successful send does: the request bytes and
    /// descriptors are appended for the caller to write out, one pending
    /// entry records the new sequence number, and the counter advances.
    pub open spec fn spec_sent(
        old_self: Connection,
        new_self: Connection,
        bytes: Seq<u8>,
        fds: Seq<RawFdContainer>,
        expects_reply: bool,
        bears_fds: bool,
    ) -> bool {
        &&& new_self.next_sequence == old_self.next_sequence + 1
        &&& new_self.outgoing@ == old_self.outgoing@ + bytes
        &&& new_self.outgoing_fds@ == old_self.outgoing_fds@ + fds
        &&& new_self.pending@ == old_self.pending@.push(PendingRequest {
            sequence: old_self.next_sequence,
            expects_reply,
            bears_fds,
            abandoned: false,
        })
        &&& new_self.last_read_sequence == old_self.last_read_sequence
        &&& new_self.reader == old_self.reader
        &&& new_self.fd_queue == old_self.fd_queue
        &&& new_self.events == old_self.events
        &&& new_self.replies == old_self.replies
        &&& new_self.last_error == old_self.last_error
        &&& new_self.extensions == old_self.extensions
        &&& new_self.closed == old_self.closed
    }

    /// Queue a request whose reply is awaited under the returned cookie.
    pub fn send_request_with_reply(&mut self, bytes: &Vec<u8>, fds: &Vec<RawFdContainer>)
        -> (r: Result<Cookie, ConnectionError>)
        requires old(self).wf(),
        ensures
            final(self).wf(),
            old(self).spec_can_send() ==> {
                &&& r == Ok::<Cookie, ConnectionError>(Cookie { sequence: old(self).next_sequence })
                &&& Self::spec_sent(*old(self), *final(self), bytes@, fds@, true, false)
            },
            !old(self).spec_can_send() ==> {
                &&& r == Err::<Cookie, ConnectionError>(old(self).spec_send_error())
                &&& *final(self) == *old(self)
            },
    {
        match self.enqueue_request(bytes, fds, true, false) {
            Ok(sequence) => Ok(Cookie { sequence }),
            Err(e) => Err(e),
        }
    }

    /// Queue a request whose reply hands descriptors out.
    pub fn send_request_with_reply_with_fds(&mut self, bytes: &Vec<u8>, fds: &Vec<RawFdContainer>)
        -> (r: Result<Cookie, ConnectionError>)
        requires old(self).wf(),
        ensures
            final(self).wf(),
            old(self).spec_can_send() ==> {
                &&& r == Ok::<Cookie, ConnectionError>(Cookie { sequence: old(self).next_sequence })
                &&& Self::spec_sent(*old(self), *final(self), bytes@, fds@, true, true)
            },
            !old(self).spec_can_send() ==> {
                &&& r == Err::<Cookie, ConnectionError>(old(self).spec_send_error())
                &&& *final(self) == *old(self)
            },
    {
        match self.enqueue_request(bytes, fds, true, true) {
            Ok(sequence) => Ok(Cookie { sequence }),
            Err(e) => Err(e),
        }
    }

    /// Queue a request that defines no reply.
    pub fn send_request_without_reply(&mut self, bytes: &Vec<u8>, fds: &Vec<RawFdContainer>)
        -> (r: Result<VoidCookie, ConnectionError>)
        requires old(self).wf(),
        ensures
            final(self).wf(),
            old(self).spec_can_send() ==> {
                &&& r == Ok::<VoidCookie, ConnectionError>(VoidCookie { sequence: old(self).next_sequence })
                &&& Self::spec_sent(*old(self), *final(self), bytes@, fds@, false, false)
            },
            !old(self).spec_can_send() ==> {
                &&& r == Err::<VoidCookie, ConnectionError>(old(self).spec_send_error())
                &&& *final(self) == *old(self)
            },
    {
        match self.enqueue_request(bytes, fds, false, false) {
            Ok(sequence) => Ok(VoidCookie { sequence }),
            Err(e) => Err(e),
        }
    }

    /// Shared send path: append the bytes and descriptors, record the
    /// pending request, hand back its sequence number.
    fn enqueue_request(
        &mut self,
        bytes: &Vec<u8>,
        fds: &Vec<RawFdContainer>,
        expects_reply: bool,
        bears_fds: bool,
    ) -> (r: Result<u64, ConnectionError>)
        requires old(self).wf(),
        ensures
            final(self).wf(),
            old(self).spec_can_send() ==> {
                &&& r == Ok::<u64, ConnectionError>(old(self).next_sequence)
                &&& Self::spec_sent(*old(self), *final(self), bytes@, fds@, expects_reply, bears_fds)
            },
            !old(self).spec_can_send() ==> {
                &&& r == Err::<u64, ConnectionError>(old(self).spec_send_error())
                &&& *final(self) == *old(self)
            },
    {
        if self.closed {
            return Err(ConnectionError::ConnectionClosed);
        }
        if self.next_sequence >= SEQUENCE_LIMIT
            || self.next_sequence - 1 - self.last_read_sequence >= MAX_OUTSTANDING {
            return Err(ConnectionError::TooManyOutstanding);
        }
        let sequence = self.next_sequence;
        self.next_sequence = self.next_sequence + 1;
        crate::wire::append_bytes(&mut self.outgoing, bytes);
        crate::fdqueue::append_fds(&mut self.outgoing_fds, fds);
        self.pending.push(PendingRequest { sequence, expects_reply, bears_fds, abandoned: false });
        Ok(sequence)
    }

    /// Note that the peer shut the stream down.  The connection is
    /// poisoned: nothing further can be sent or received through it.
    pub fn shutdown(&mut self)
        requires old(self).wf(),
        ensures
            final(self).wf(),
            final(self).closed,
            *final(self) == (Connection { closed: true, ..*old(self) }),
    {
        self.closed = true;
    }

    /// The index of the unresolved request with this sequence, if any.
    fn find_pending(&self, sequence: u64) -> (r: Option<usize>)
        ensures
            match r {
                Some(i) => i < self.pending@.len() && self.pending@[i as int].sequence == sequence,
                None => forall|i: int| 0 <= i < self.pending@.len()
                    ==> #[trigger] self.pending@[i].sequence != sequence,
            },
    {
        let mut i: usize = 0;
        while i < self.pending.len()
            invariant
                i <= self.pending@.len(),
                forall|j: int| 0 <= j < i ==> #[trigger] self.pending@[j].sequence != sequence,
            decreases self.pending@.len() - i,
        {
            if self.pending[i].sequence == sequence {
                return Some(i);
            }
            i = i + 1;
        }
        None
    }

    /// Route one complete packet.
    ///
    /// A reply or error is attributed the smallest logical sequence at or
    /// above the anchor matching its 16-bit wire value, and the anchor
    /// advances to it.  An error goes to the reply-expecting cookie of its
    /// sequence if one is pending, else to the last-error slot.  A reply
    /// goes to its cookie; a reply whose cookie was discarded has its
    /// declared descriptors drained into `discarded` for the caller to
    /// close.  Events, generic or not, join the event queue.  A numbered
    /// packet bearing a sequence that was never issued is a fatal framing
    /// violation.
    pub fn process_packet(&mut self, packet: Vec<u8>, discarded: &mut Vec<RawFdContainer>)
        -> (r: Result<(), ConnectionError>)
        requires
            old(self).wf(),
            spec_packet_well_formed(packet@),
        ensures
            final(self).wf(),
            final(discarded)@ == old(discarded)@ + spec_drained(*old(self), packet@),
            spec_process(*old(self), *final(self), packet@, r),
    {
        let response_type = packet[0];
        let numbered = response_type == RESPONSE_TYPE_ERROR
            || response_type == RESPONSE_TYPE_REPLY
            || (response_type & 0x7f) == GE_GENERIC_EVENT;
        if !numbered {
            self.events.push(packet);
            proof {
                assert(self.events@.drop_last() =~= old(self).events@);
                assert(old(discarded)@ + spec_drained(*old(self), packet@) =~= old(discarded)@);
            }
            return Ok(());
        }
        let wire = crate::wire::read_u16(&packet, 2);
        let s = resolve_sequence(self.last_read_sequence, wire);
        if s >= self.next_sequence {
            self.closed = true;
            return Err(ConnectionError::MalformedPacket);
        }
        self.last_read_sequence = s;
        if response_type == RESPONSE_TYPE_ERROR {
            let found = self.find_pending(s);
            proof {
                lemma_pending_index_agrees(self.pending@, s, found);
            }
            match found {
                Some(i) => {
                    let entry = self.pending[i];
                    let _ = self.pending.remove(i);
                    proof {
                        lemma_remove_keeps_order(old(self).pending@, i as int, self.next_sequence);
                    }
                    if entry.abandoned {
                        self.last_error = Some((s, packet));
                    } else if entry.expects_reply {
                        self.replies.push(ReplyEntry {
                            sequence: s,
                            bears_fds: entry.bears_fds,
                            packet,
                        });
                        assert(self.replies@.drop_last() =~= old(self).replies@);
                    } else {
                        let recorded = crate::wire::copy_range(&packet, 0, packet.len());
                        assert(recorded@ =~= packet@);
                        self.replies.push(ReplyEntry {
                            sequence: s,
                            bears_fds: false,
                            packet,
                        });
                        assert(self.replies@.drop_last() =~= old(self).replies@);
                        self.last_error = Some((s, recorded));
                    }
                },
                None => {
                    self.last_error = Some((s, packet));
                },
            }
            Ok(())
        } else if response_type == RESPONSE_TYPE_REPLY {
            let found = self.find_pending(s);
            proof {
                lemma_pending_index_agrees(self.pending@, s, found);
            }
            match found {
                Some(i) => {
                    let entry = self.pending[i];
                    let _ = self.pending.remove(i);
                    proof {
                        lemma_remove_keeps_order(old(self).pending@, i as int, self.next_sequence);
                    }
                    if !entry.abandoned {
                        self.replies.push(ReplyEntry {
                            sequence: s,
                            bears_fds: entry.bears_fds,
                            packet,
                        });
                        assert(self.replies@.drop_last() =~= old(self).replies@);
                    } else {
                        let declared: usize = if entry.bears_fds {
                            packet[1] as usize
                        } else {
                            0
                        };
                        let available = self.fd_queue.len();
                        let k = if declared <= available {
                            declared
                        } else {
                            available
                        };
                        match self.fd_queue.take(k) {
                            Ok(taken) => {
                                crate::fdqueue::append_fds(discarded, &taken);
                            },
                            Err(_) => {},
                        }
                    }
                },
                None => {},
            }
            Ok(())
        } else {
            self.events.push(packet);
            proof {
                assert(self.events@.drop_last() =~= old(self).events@);
                assert(old(discarded)@ + spec_drained(*old(self), packet@) =~= old(discarded)@);
            }
            Ok(())
        }
    }
}

impl Connection {
    /// Absorb one read's worth of bytes and descriptors: the descriptors
    /// join the queue in arrival order, then exactly the packets the bytes
    /// complete are routed, in order, each as [`spec_process`] says —
    /// descriptors of replies whose cookies were discarded land in
    /// `discarded` for the caller to close.  Bytes short of a packet stay
    /// gathered for the next read.
    ///
    /// The call succeeds exactly when every completed packet routes: that
    /// is, when no numbered packet resolves to a sequence never issued
    /// ([`spec_routing_ok`]).  On failure the packets before the offending
    /// one were routed, the offending one poisoned the connection, and the
    /// bytes after it were not consumed.
    pub fn feed(&mut self, chunk: &Vec<u8>, fds: &Vec<RawFdContainer>, discarded: &mut Vec<RawFdContainer>)
        -> (r: Result<(), ConnectionError>)
        requires old(self).wf(),
        ensures
            final(self).wf(),
            old(self).closed ==> {
                &&& r == Err::<(), ConnectionError>(ConnectionError::ConnectionClosed)
                &&& *final(self) == *old(self)
                &&& *final(discarded) == *old(discarded)
            },
            !old(self).closed ==> {
                &&& final(self).next_sequence == old(self).next_sequence
                &&& final(self).outgoing == old(self).outgoing
                &&& final(self).outgoing_fds == old(self).outgoing_fds
                &&& final(self).extensions == old(self).extensions
                &&& final(self).last_read_sequence >= old(self).last_read_sequence
                &&& old(self).events@.is_prefix_of(final(self).events@)
                &&& (r is Ok <==> spec_routing_ok(
                    old(self).last_read_sequence as int,
                    old(self).next_sequence as int,
                    crate::packet::spec_split_packets(old(self).reader.absorbed(), chunk@).0,
                ))
            },
            !old(self).closed && r is Ok ==> ({
                let split = crate::packet::spec_split_packets(old(self).reader.absorbed(), chunk@);
                &&& final(self).closed == old(self).closed
                &&& final(self).reader.absorbed() == split.1
                &&& spec_fed(
                    *old(self),
                    *final(self),
                    fds@,
                    split.0,
                    old(discarded)@,
                    final(discarded)@,
                )
            }),
            !old(self).closed && r is Err ==> ({
                let split = crate::packet::spec_split_packets(old(self).reader.absorbed(), chunk@);
                &&& r == Err::<(), ConnectionError>(ConnectionError::MalformedPacket)
                &&& final(self).closed
                &&& final(self).reader.absorbed() == Seq::<u8>::empty()
                &&& exists|k: int| #[trigger] spec_fed_failed(
                    *old(self),
                    *final(self),
                    fds@,
                    split.0,
                    k,
                    old(discarded)@,
                    final(discarded)@,
                )
            }),
    {
        if self.closed {
            return Err(ConnectionError::ConnectionClosed);
        }
        self.fd_queue.enqueue(fds);
        let ghost started = *self;
        let ghost d0 = discarded@;
        let ghost acc0 = self.reader.absorbed();
        let ghost a0: int = self.last_read_sequence as int;
        let ghost n0: int = self.next_sequence as int;
        let ghost mut processed: Seq<Seq<u8>> = Seq::empty();
        proof {
            assert((Connection { reader: started.reader, ..*self }) == started);
            assert(chunk@.skip(0) =~= chunk@);
            assert(Seq::<Seq<u8>>::empty() + crate::packet::spec_split_packets(acc0, chunk@).0
                =~= crate::packet::spec_split_packets(acc0, chunk@).0);
        }
        let chunk_len: usize = chunk.len();
        let mut start: usize = 0;
        loop
            invariant
                self.wf(),
                start <= chunk_len,
                chunk_len == chunk@.len(),
                !old(self).closed,
                !self.closed,
                d0 == old(discarded)@,
                acc0 == old(self).reader.absorbed(),
                a0 == old(self).last_read_sequence as int,
                n0 == old(self).next_sequence as int,
                started.fd_queue.contents() == old(self).fd_queue.contents() + fds@,
                started == (Connection {
                    fd_queue: started.fd_queue,
                    reader: started.reader,
                    ..*old(self)
                }),
                started.reader == old(self).reader,
                self.next_sequence == old(self).next_sequence,
                self.outgoing == old(self).outgoing,
                self.outgoing_fds == old(self).outgoing_fds,
                self.extensions == old(self).extensions,
                self.last_read_sequence >= old(self).last_read_sequence,
                old(self).events@.is_prefix_of(self.events@),
                processed.len() <= crate::packet::spec_split_packets(acc0, chunk@).0.len(),
                crate::packet::spec_split_packets(acc0, chunk@).0 == processed
                    + crate::packet::spec_split_packets(
                        self.reader.absorbed(),
                        chunk@.skip(start as int),
                    ).0,
                crate::packet::spec_split_packets(acc0, chunk@).1
                    == crate::packet::spec_split_packets(
                        self.reader.absorbed(),
                        chunk@.skip(start as int),
                    ).1,
                spec_routing_ok(a0, n0, crate::packet::spec_split_packets(acc0, chunk@).0)
                    == spec_routing_ok(
                        self.last_read_sequence as int,
                        n0,
                        crate::packet::spec_split_packets(
                            self.reader.absorbed(),
                            chunk@.skip(start as int),
                        ).0,
                    ),
                spec_process_all(
                    started,
                    (Connection { reader: started.reader, ..*self }),
                    processed,
                    d0,
                    discarded@,
                ),
            decreases chunk_len - start,
        {
            let ghost acc_cur = self.reader.absorbed();
            let ghost rem = chunk@.skip(start as int);
            let ghost lr_before: int = self.last_read_sequence as int;
            proof {
                crate::packet::lemma_absorb_properties(acc_cur, rem);
            }
            let (used, maybe_packet) = self.reader.try_read_packet(chunk, start);
            start = start + used;
            match maybe_packet {
                None => {
                    proof {
                        assert(crate::packet::spec_split_packets(acc_cur, rem).0
                            =~= Seq::<Seq<u8>>::empty());
                        assert(crate::packet::spec_split_packets(acc0, chunk@).0
                            =~= processed);
                        assert(spec_routing_ok(
                            lr_before,
                            n0,
                            crate::packet::spec_split_packets(acc_cur, rem).0,
                        ));
                        assert(started.fd_queue.contents()
                            == old(self).fd_queue.contents() + fds@);
                        assert(spec_fed(*old(self), *self, fds@,
                            crate::packet::spec_split_packets(acc0, chunk@).0, d0, discarded@));
                    }
                    return Ok(());
                },
                Some(packet) => {
                    let ghost p = packet@;
                    let ghost pre_state = *self;
                    let ghost disc_before = discarded@;
                    let ghost norm_pre = Connection { reader: started.reader, ..pre_state };
                    let ghost cont = crate::packet::spec_split_packets(
                        Seq::<u8>::empty(),
                        rem.skip(used as int),
                    );
                    proof {
                        assert(1 <= used <= rem.len());
                        assert(crate::packet::spec_split_packets(acc_cur, rem).0
                            =~= seq![p] + cont.0);
                        assert((seq![p] + cont.0)[0] == p);
                        assert((seq![p] + cont.0).skip(1) =~= cont.0);
                        assert(chunk@.skip(start as int) =~= rem.skip(used as int));
                        assert(self.reader.absorbed() =~= Seq::<u8>::empty());
                    }
                    match self.process_packet(packet, discarded) {
                        Ok(()) => {
                            proof {
                                // The step routed with a resolved sequence
                                // below the issued ones, advancing exactly
                                // as the routing recursion does.
                                assert(spec_routing_ok(lr_before, n0, seq![p] + cont.0)
                                    == spec_routing_ok(
                                        self.last_read_sequence as int,
                                        n0,
                                        cont.0,
                                    ));
                                assert(processed.push(p) + cont.0
                                    =~= processed + (seq![p] + cont.0));
                                lemma_process_reader_irrelevant(
                                    pre_state,
                                    *self,
                                    p,
                                    Ok(()),
                                    started.reader,
                                );
                                assert(spec_drained(norm_pre, p) == spec_drained(pre_state, p));
                                lemma_process_all_snoc(
                                    started,
                                    norm_pre,
                                    (Connection { reader: started.reader, ..*self }),
                                    processed,
                                    p,
                                    d0,
                                    disc_before,
                                    discarded@,
                                );
                                processed = processed.push(p);
                            }
                        },
                        Err(e) => {
                            proof {
                                // Only an unissued sequence fails, and the
                                // routing recursion fails on it too.
                                assert(e == ConnectionError::MalformedPacket);
                                assert(!spec_routing_ok(lr_before, n0, seq![p] + cont.0));
                                let full = crate::packet::spec_split_packets(acc0, chunk@).0;
                                let k: int = processed.len() as int;
                                assert(full =~= processed + (seq![p] + cont.0));
                                assert(full.take(k) =~= processed);
                                assert(full[k] == p);
                                lemma_process_reader_irrelevant(
                                    pre_state,
                                    *self,
                                    p,
                                    Err(ConnectionError::MalformedPacket),
                                    started.reader,
                                );
                                assert(norm_pre == (Connection {
                                    reader: started.reader,
                                    closed: false,
                                    ..*self
                                }));
                                assert(discarded@ =~= disc_before + spec_drained(pre_state, p));
                                assert(discarded@ =~= disc_before);
                                assert(started.fd_queue.contents()
                                    == old(self).fd_queue.contents() + fds@);
                                assert(spec_fed_failed(*old(self), *self, fds@, full, k, d0,
                                    discarded@));
                            }
                            return Err(e);
                        },
                    }
                },
            }
        }
    }


    /// Claim the resolved reply or error for this cookie's sequence, if it
    /// has arrived.  Byte 0 of the returned packet tells a reply (1) from
    /// a server error (0), which is how a blocking wait yields exactly one
    /// of the two.
    pub fn poll_for_reply(&mut self, cookie: Cookie) -> (r: Option<Vec<u8>>)
        requires old(self).wf(),
        ensures
            final(self).wf(),
            ({
                let replies = old(self).replies@;
                if exists|i: int| 0 <= i < replies.len()
                    && (#[trigger] replies[i]).sequence == cookie.sequence {
                    exists|i: int| {
                        &&& 0 <= i < replies.len()
                        &&& (#[trigger] replies[i]).sequence == cookie.sequence
                        &&& forall|j: int| 0 <= j < i
                            ==> (#[trigger] replies[j]).sequence != cookie.sequence
                        &&& r matches Some(p) && p@ == replies[i].packet@
                            && spec_packet_well_formed(p@)
                        &&& final(self).replies@ == replies.remove(i)
                        &&& *final(self) == (Connection {
                            replies: final(self).replies,
                            ..*old(self)
                        })
                    }
                } else {
                    r is None && *final(self) == *old(self)
                }
            }),
    {
        let mut i: usize = 0;
        while i < self.replies.len()
            invariant
                old(self).wf(),
                self == old(self),
                i <= self.replies@.len(),
                forall|j: int| 0 <= j < i
                    ==> (#[trigger] self.replies@[j]).sequence != cookie.sequence,
            decreases self.replies@.len() - i,
        {
            if self.replies[i].sequence == cookie.sequence {
                let entry = self.replies.remove(i);
                proof {
                    lemma_replies_remove_wf(old(self).replies@, i as int);
                    let ii = i as int;
                    assert(0 <= ii < old(self).replies@.len()
                        && old(self).replies@[ii].sequence == cookie.sequence
                        && entry.packet@ == old(self).replies@[ii].packet@
                        && self.replies@ == old(self).replies@.remove(ii));
                }
                return Some(entry.packet);
            }
            i = i + 1;
        }
        None
    }

    /// Claim the resolved reply or error for this cookie together with the
    /// descriptors its reply declares.
    ///
    /// A reply that declares more descriptors than have arrived is a
    /// malformed reply: the connection is poisoned and the error returned
    /// at once — it never waits for more descriptors.
    pub fn poll_for_reply_with_fds(&mut self, cookie: Cookie)
        -> (r: Result<Option<(Vec<u8>, Vec<RawFdContainer>)>, ConnectionError>)
        requires old(self).wf(),
        ensures
            final(self).wf(),
            ({
                let replies = old(self).replies@;
                if exists|i: int| 0 <= i < replies.len()
                    && (#[trigger] replies[i]).sequence == cookie.sequence {
                    exists|i: int| {
                        &&& 0 <= i < replies.len()
                        &&& (#[trigger] replies[i]).sequence == cookie.sequence
                        &&& forall|j: int| 0 <= j < i
                            ==> (#[trigger] replies[j]).sequence != cookie.sequence
                        &&& final(self).replies@ == replies.remove(i)
                        &&& if spec_reply_declared_fds(replies[i])
                                <= old(self).fd_queue.contents().len() {
                            &&& r matches Ok(Some((p, taken)))
                                && p@ == replies[i].packet@
                                && spec_packet_well_formed(p@)
                                && taken@ == old(self).fd_queue.contents().take(
                                    spec_reply_declared_fds(replies[i]),
                                )
                            &&& final(self).fd_queue.contents()
                                == old(self).fd_queue.contents().skip(
                                    spec_reply_declared_fds(replies[i]),
                                )
                            &&& *final(self) == (Connection {
                                replies: final(self).replies,
                                fd_queue: final(self).fd_queue,
                                ..*old(self)
                            })
                        } else {
                            // More descriptors declared than arrived:
                            // malformed, fatal, failed at once.
                            &&& r == Err::<Option<(Vec<u8>, Vec<RawFdContainer>)>, ConnectionError>(
                                ConnectionError::MalformedPacket,
                            )
                            &&& *final(self) == (Connection {
                                replies: final(self).replies,
                                closed: true,
                                ..*old(self)
                            })
                        }
                    }
                } else {
                    &&& r == Ok::<Option<(Vec<u8>, Vec<RawFdContainer>)>, ConnectionError>(None)
                    &&& *final(self) == *old(self)
                }
            }),
    {
        let mut i: usize = 0;
        while i < self.replies.len()
            invariant
                old(self).wf(),
                self == old(self),
                i <= self.replies@.len(),
                forall|j: int| 0 <= j < i
                    ==> (#[trigger] self.replies@[j]).sequence != cookie.sequence,
            decreases self.replies@.len() - i,
        {
            if self.replies[i].sequence == cookie.sequence {
                let ghost ii = i as int;
                let entry = self.replies.remove(i);
                proof {
                    lemma_replies_remove_wf(old(self).replies@, ii);
                    assert(entry == old(self).replies@[ii]);
                    assert(spec_packet_well_formed(old(self).replies@[ii].packet@));
                    assert(entry.packet@.len() >= 32);
                }
                let declared: usize = if entry.bears_fds && entry.packet[0] == RESPONSE_TYPE_REPLY {
                    entry.packet[1] as usize
                } else {
                    0
                };
                if declared > self.fd_queue.len() {
                    self.closed = true;
                    return Err(ConnectionError::MalformedPacket);
                }
                match self.fd_queue.take(declared) {
                    Ok(taken) => {
                        proof {
                            assert(0 <= ii < old(self).replies@.len()
                                && old(self).replies@[ii].sequence == cookie.sequence
                                && entry.packet@ == old(self).replies@[ii].packet@
                                && self.replies@ == old(self).replies@.remove(ii));
                        }
                        return Ok(Some((entry.packet, taken)));
                    },
                    Err(_) => {
                        self.closed = true;
                        return Err(ConnectionError::MalformedPacket);
                    },
                }
            }
            i = i + 1;
        }
        Ok(None)
    }

    /// The oldest queued event, if any.
    pub fn poll_for_event(&mut self) -> (r: Option<Vec<u8>>)
        requires old(self).wf(),
        ensures
            final(self).wf(),
            old(self).events@.len() == 0 ==> r is None && *final(self) == *old(self),
            old(self).events@.len() > 0 ==> {
                &&& r matches Some(p) && p@ == old(self).events@[0]@
                &&& final(self).events@ == old(self).events@.skip(1)
                &&& *final(self) == (Connection { events: final(self).events, ..*old(self) })
            },
    {
        if self.events.len() == 0 {
            return None;
        }
        let p = self.events.remove(0);
        assert(self.events@ =~= old(self).events@.skip(1));
        Some(p)
    }

    /// Check a request that defines no reply.
    ///
    /// The server's error for it, if any, was stored under its sequence
    /// and is claimed here exactly once — a later error at another
    /// sequence cannot hide it.  With no error stored, the request
    /// completed once a later numbered packet shows the server advanced
    /// past its sequence.
    pub fn check_void_request(&mut self, cookie: VoidCookie) -> (r: VoidStatus)
        requires old(self).wf(),
        ensures
            final(self).wf(),
            ({
                let replies = old(self).replies@;
                if exists|i: int| 0 <= i < replies.len()
                    && (#[trigger] replies[i]).sequence == cookie.sequence {
                    exists|i: int| {
                        &&& 0 <= i < replies.len()
                        &&& (#[trigger] replies[i]).sequence == cookie.sequence
                        &&& forall|j: int| 0 <= j < i
                            ==> (#[trigger] replies[j]).sequence != cookie.sequence
                        &&& r matches VoidStatus::ProtocolError { packet }
                            && packet@ == replies[i].packet@
                        &&& final(self).replies@ == replies.remove(i)
                        &&& *final(self) == (Connection {
                            replies: final(self).replies,
                            ..*old(self)
                        })
                    }
                } else {
                    &&& *final(self) == *old(self)
                    &&& match r {
                        VoidStatus::Completed => old(self).last_read_sequence > cookie.sequence,
                        VoidStatus::Pending => old(self).last_read_sequence <= cookie.sequence,
                        VoidStatus::ProtocolError { .. } => false,
                    }
                }
            }),
    {
        let mut i: usize = 0;
        while i < self.replies.len()
            invariant
                old(self).wf(),
                self == old(self),
                i <= self.replies@.len(),
                forall|j: int| 0 <= j < i
                    ==> (#[trigger] self.replies@[j]).sequence != cookie.sequence,
            decreases self.replies@.len() - i,
        {
            if self.replies[i].sequence == cookie.sequence {
                let ghost ii = i as int;
                let entry = self.replies.remove(i);
                proof {
                    lemma_replies_remove_wf(old(self).replies@, ii);
                    assert(entry == old(self).replies@[ii]);
                    assert(self.replies@ == old(self).replies@.remove(ii));
                }
                return VoidStatus::ProtocolError { packet: entry.packet };
            }
            i = i + 1;
        }
        if self.last_read_sequence > cookie.sequence {
            VoidStatus::Completed
        } else {
            VoidStatus::Pending
        }
    }

    /// Give up on a cookie.
    ///
    /// Protocol state stays sound: if the request is still unresolved its
    /// entry is marked abandoned, so the descriptors of its eventual reply
    /// are drained when it arrives; if its reply already arrived, it is
    /// dropped now and its declared descriptors drained into `discarded`
    /// for the caller to close.
    pub fn discard_reply(&mut self, sequence: u64, discarded: &mut Vec<RawFdContainer>)
        requires old(self).wf(),
        ensures
            final(self).wf(),
            match spec_pending_index(old(self).pending@, sequence as int) {
                Some(i) => {
                    &&& final(self).pending@ == old(self).pending@.update(i, (PendingRequest {
                        abandoned: true,
                        ..old(self).pending@[i]
                    }))
                    &&& *final(self) == (Connection { pending: final(self).pending, ..*old(self) })
                    &&& *final(discarded) == *old(discarded)
                },
                None => {
                    &&& final(self).pending == old(self).pending
                    &&& if exists|i: int| 0 <= i < old(self).replies@.len()
                            && (#[trigger] old(self).replies@[i]).sequence == sequence {
                        exists|i: int| {
                            &&& 0 <= i < old(self).replies@.len()
                            &&& (#[trigger] old(self).replies@[i]).sequence == sequence
                            &&& forall|j: int| 0 <= j < i
                                ==> (#[trigger] old(self).replies@[j]).sequence != sequence
                            &&& final(self).replies@ == old(self).replies@.remove(i)
                            &&& {
                                let p = old(self).replies@[i].packet@;
                                let declared = if old(self).replies@[i].bears_fds && p[0] == 1 {
                                    p[1] as int
                                } else {
                                    0
                                };
                                let k = if declared <= old(self).fd_queue.contents().len() {
                                    declared
                                } else {
                                    old(self).fd_queue.contents().len() as int
                                };
                                &&& final(self).fd_queue.contents()
                                    == old(self).fd_queue.contents().skip(k)
                                &&& final(discarded)@ == old(discarded)@
                                    + old(self).fd_queue.contents().take(k)
                            }
                        }
                    } else {
                        &&& *final(self) == *old(self)
                        &&& *final(discarded) == *old(discarded)
                    }
                },
            },
    {
        let found = self.find_pending(sequence);
        proof {
            lemma_pending_index_agrees(self.pending@, sequence, found);
        }
        match found {
            Some(i) => {
                let entry = self.pending[i];
                self.pending[i] = PendingRequest {
                    sequence: entry.sequence,
                    expects_reply: entry.expects_reply,
                    bears_fds: entry.bears_fds,
                    abandoned: true,
                };
                proof {
                    lemma_update_keeps_order(old(self).pending@, i as int, self.next_sequence);
                    assert(self.pending@ == old(self).pending@.update(i as int, (PendingRequest {
                        abandoned: true,
                        ..old(self).pending@[i as int]
                    })));
                }
            },
            None => {
                let mut i: usize = 0;
                while i < self.replies.len()
                    invariant
                        old(self).wf(),
                        *discarded == *old(discarded),
                        found is None,
                        spec_pending_index(old(self).pending@, sequence as int) is None,
                        self == old(self),
                        i <= self.replies@.len(),
                        forall|j: int| 0 <= j < i
                            ==> (#[trigger] self.replies@[j]).sequence != sequence,
                    decreases self.replies@.len() - i,
                {
                    if self.replies[i].sequence == sequence {
                        let ghost ii = i as int;
                        let entry = self.replies.remove(i);
                        proof {
                            lemma_replies_remove_wf(old(self).replies@, ii);
                            assert(entry == old(self).replies@[ii]);
                            assert(spec_packet_well_formed(old(self).replies@[ii].packet@));
                            assert(entry.packet@.len() >= 32);
                        }
                        let declared: usize = if entry.bears_fds
                            && entry.packet[0] == RESPONSE_TYPE_REPLY {
                            entry.packet[1] as usize
                        } else {
                            0
                        };
                        let available = self.fd_queue.len();
                        let k = if declared <= available {
                            declared
                        } else {
                            available
                        };
                        match self.fd_queue.take(k) {
                            Ok(taken) => {
                                crate::fdqueue::append_fds(discarded, &taken);
                                proof {
                                    let p = old(self).replies@[ii].packet@;
                                    let declared_spec: int = if old(self).replies@[ii].bears_fds
                                        && p[0] == 1 {
                                        p[1] as int
                                    } else {
                                        0
                                    };
                                    let kk: int = if declared_spec
                                        <= old(self).fd_queue.contents().len() {
                                        declared_spec
                                    } else {
                                        old(self).fd_queue.contents().len() as int
                                    };
                                    assert(k as int == kk);
                                    assert(self.fd_queue.contents()
                                        == old(self).fd_queue.contents().skip(kk));
                                    assert(discarded@ == old(discarded)@
                                        + old(self).fd_queue.contents().take(kk));
                                    assert(0 <= ii < old(self).replies@.len()
                                        && old(self).replies@[ii].sequence == sequence
                                        && self.replies@ == old(self).replies@.remove(ii));
                                }
                            },
                            Err(_) => {},
                        }
                        return;
                    }
                    i = i + 1;
                }
            },
        }
    }

    /// Everything the first ask for an unknown name does: exactly one
    /// discovery request is queued under the next sequence number, and the
    /// cache notes it as in flight.
    pub open spec fn spec_discovery_sent(
        old_self: Connection,
        new_self: Connection,
        name: Seq<u8>,
    ) -> bool {
        &&& new_self.next_sequence == old_self.next_sequence + 1
        &&& new_self.outgoing@ == old_self.outgoing@ + spec_query_extension_request(name)
        &&& new_self.outgoing_fds@ == old_self.outgoing_fds@
        &&& new_self.pending@ == old_self.pending@.push(PendingRequest {
            sequence: old_self.next_sequence,
            expects_reply: true,
            bears_fds: false,
            abandoned: false,
        })
        &&& new_self.extensions.entries@.len() == old_self.extensions.entries@.len() + 1
        &&& new_self.extensions.entries@.drop_last() == old_self.extensions.entries@
        &&& new_self.extensions.entries@.last().name@ == name
        &&& new_self.extensions.entries@.last().state
            == (ExtensionState::Pending { sequence: old_self.next_sequence })
        &&& new_self.events == old_self.events
        &&& new_self.replies == old_self.replies
        &&& new_self.last_error == old_self.last_error
        &&& new_self.fd_queue == old_self.fd_queue
        &&& new_self.reader == old_self.reader
        &&& new_self.last_read_sequence == old_self.last_read_sequence
        &&& new_self.closed == old_self.closed
    }

    /// Resolve an extension name to what is known about it.
    ///
    /// The first ask for a name queues exactly one discovery request and
    /// answers in flight; every later ask for the same name answers from
    /// the cache — in flight until the caller records the reply, then
    /// present or absent for the connection's lifetime.
    pub fn extension_information(&mut self, name: &Vec<u8>) -> (r: Result<ExtensionLookup, ConnectionError>)
        requires
            old(self).wf(),
            name@.len() <= 0xFFFF,
        ensures
            final(self).wf(),
            ({
                let entries = old(self).extensions.entries@;
                if spec_has_name(entries, name@) {
                    &&& *final(self) == *old(self)
                    &&& exists|i: int| 0 <= i < entries.len()
                        && (#[trigger] entries[i]).name@ == name@
                        && r == Ok::<ExtensionLookup, ConnectionError>(match entries[i].state {
                            ExtensionState::Present { info } => ExtensionLookup::Known { info: Some(info) },
                            ExtensionState::Absent => ExtensionLookup::Known { info: None },
                            ExtensionState::Pending { sequence } => ExtensionLookup::InFlight {
                                cookie: Cookie { sequence },
                            },
                        })
                } else if !old(self).spec_can_send() {
                    &&& r == Err::<ExtensionLookup, ConnectionError>(old(self).spec_send_error())
                    &&& *final(self) == *old(self)
                } else {
                    &&& r == Ok::<ExtensionLookup, ConnectionError>(ExtensionLookup::InFlight {
                        cookie: Cookie { sequence: old(self).next_sequence },
                    })
                    &&& Self::spec_discovery_sent(*old(self), *final(self), name@)
                }
            }),
    {
        let found = self.extensions.find(name);
        match found {
            Some(i) => {
                let state = self.extensions.entries[i].state;
                proof {
                    let ii = i as int;
                    assert(0 <= ii < old(self).extensions.entries@.len()
                        && old(self).extensions.entries@[ii].name@ == name@);
                }
                match state {
                    ExtensionState::Present { info } => Ok(ExtensionLookup::Known { info: Some(info) }),
                    ExtensionState::Absent => Ok(ExtensionLookup::Known { info: None }),
                    ExtensionState::Pending { sequence } => Ok(ExtensionLookup::InFlight {
                        cookie: Cookie { sequence },
                    }),
                }
            },
            None => {
                if self.closed {
                    return Err(ConnectionError::ConnectionClosed);
                }
                if self.next_sequence >= SEQUENCE_LIMIT
                    || self.next_sequence - 1 - self.last_read_sequence >= MAX_OUTSTANDING {
                    return Err(ConnectionError::TooManyOutstanding);
                }
                let bytes = encode_query_extension(name);
                let empty_fds: Vec<RawFdContainer> = Vec::new();
                match self.enqueue_request(&bytes, &empty_fds, true, false) {
                    Ok(sequence) => {
                        proof {
                            assert(self.outgoing_fds@ =~= old(self).outgoing_fds@);
                        }
                        self.extensions.begin_query(name, sequence);
                        Ok(ExtensionLookup::InFlight { cookie: Cookie { sequence } })
                    },
                    Err(e) => {
                        Err(e)
                    },
                }
            },
        }
    }

    /// Record the parsed discovery reply for `name`; the cache entry is
    /// immutable from here on.
    pub fn record_extension(&mut self, name: &Vec<u8>, result: Option<ExtensionInfo>)
        requires old(self).wf(),
        ensures
            final(self).wf(),
            *final(self) == (Connection { extensions: final(self).extensions, ..*old(self) }),
            final(self).extensions.entries@.len() == old(self).extensions.entries@.len(),
            forall|i: int| 0 <= i < old(self).extensions.entries@.len() ==> {
                &&& (#[trigger] final(self).extensions.entries@[i]).name@
                    == old(self).extensions.entries@[i].name@
                &&& (old(self).extensions.entries@[i].name@ != name@
                    ==> final(self).extensions.entries@[i] == old(self).extensions.entries@[i])
                &&& (old(self).extensions.entries@[i].name@ == name@
                    ==> final(self).extensions.entries@[i].state == match result {
                        Some(info) => ExtensionState::Present { info },
                        None => ExtensionState::Absent,
                    })
            },
    {
        self.extensions.record(name, result);
    }

    /// The major opcode to put in requests of the named extension.
    ///
    /// Answers from the cache; the first ask for an unknown name also
    /// queues its discovery request.  Fails with `UnsupportedExtension`
    /// where the server lacks the extension and `ExtensionQueryInFlight`
    /// while discovery is still under way.
    pub fn extension_opcode(&mut self, name: &Vec<u8>) -> (r: Result<u8, ConnectionError>)
        requires
            old(self).wf(),
            name@.len() <= 0xFFFF,
        ensures
            final(self).wf(),
            ({
                let entries = old(self).extensions.entries@;
                if spec_has_name(entries, name@) {
                    &&& *final(self) == *old(self)
                    &&& exists|i: int| 0 <= i < entries.len()
                        && (#[trigger] entries[i]).name@ == name@
                        && r == (match entries[i].state {
                            ExtensionState::Present { info } => Ok::<u8, ConnectionError>(info.major_opcode),
                            ExtensionState::Absent => Err::<u8, ConnectionError>(ConnectionError::UnsupportedExtension),
                            ExtensionState::Pending { .. } => Err::<u8, ConnectionError>(ConnectionError::ExtensionQueryInFlight),
                        })
                } else if !old(self).spec_can_send() {
                    &&& r == Err::<u8, ConnectionError>(old(self).spec_send_error())
                    &&& *final(self) == *old(self)
                } else {
                    &&& r == Err::<u8, ConnectionError>(ConnectionError::ExtensionQueryInFlight)
                    &&& Self::spec_discovery_sent(*old(self), *final(self), name@)
                }
            }),
    {
        match self.extension_information(name) {
            Ok(ExtensionLookup::Known { info }) => {
                match info {
                    Some(info) => Ok(info.major_opcode),
                    None => Err(ConnectionError::UnsupportedExtension),
                }
            },
            Ok(ExtensionLookup::InFlight { .. }) => Err(ConnectionError::ExtensionQueryInFlight),
            Err(e) => Err(e),
        }
    }
}

/// Everything that queueing one request of a named extension can do,
/// depending on what the cache knows of the name: with the extension
/// present the request goes out under the next sequence number (or the
/// send is refused), with it absent the call fails unsupported, and with
/// discovery unresolved — or not yet begun, in which case exactly one
/// discovery request is queued — it fails in flight.  `bytes_of` gives the
/// request's wire bytes for a major opcode; `outcome` is the sequence
/// number taken, or the error.
pub open spec fn spec_sent_via_extension(
    old_conn: Connection,
    new_conn: Connection,
    name: Seq<u8>,
    bytes_of: spec_fn(u8) -> Seq<u8>,
    fds: Seq<RawFdContainer>,
    expects_reply: bool,
    bears_fds: bool,
    outcome: Result<u64, ConnectionError>,
) -> bool {
    let entries = old_conn.extensions.entries@;
    if spec_has_name(entries, name) {
        exists|i: int| 0 <= i < entries.len() && (#[trigger] entries[i]).name@ == name
            && (match entries[i].state {
                ExtensionState::Present { info } => {
                    if old_conn.spec_can_send() {
                        &&& outcome == Ok::<u64, ConnectionError>(old_conn.next_sequence)
                        &&& Connection::spec_sent(old_conn, new_conn, bytes_of(info.major_opcode),
                            fds, expects_reply, bears_fds)
                    } else {
                        &&& outcome == Err::<u64, ConnectionError>(old_conn.spec_send_error())
                        &&& new_conn == old_conn
                    }
                },
                ExtensionState::Absent => {
                    &&& outcome == Err::<u64, ConnectionError>(ConnectionError::UnsupportedExtension)
                    &&& new_conn == old_conn
                },
                ExtensionState::Pending { .. } => {
                    &&& outcome == Err::<u64, ConnectionError>(ConnectionError::ExtensionQueryInFlight)
                    &&& new_conn == old_conn
                },
            })
    } else if !old_conn.spec_can_send() {
        &&& outcome == Err::<u64, ConnectionError>(old_conn.spec_send_error())
        &&& new_conn == old_conn
    } else {
        &&& outcome == Err::<u64, ConnectionError>(ConnectionError::ExtensionQueryInFlight)
        &&& Connection::spec_discovery_sent(old_conn, new_conn, name)
    }
}

/// The sequence part of a cookie-bearing outcome.
pub open spec fn spec_outcome<C>(r: Result<C, ConnectionError>, sequence: int) -> Result<u64, ConnectionError> {
    match r {
        Ok(_) => Ok(sequence as u64),
        Err(e) => Err(e),
    }
}

/// Removing an entry keeps every stored reply well formed.
proof fn lemma_replies_remove_wf(s: Seq<ReplyEntry>, i: int)
    requires
        0 <= i < s.len(),
        forall|j: int| 0 <= j < s.len() ==> spec_packet_well_formed(#[trigger] s[j].packet@),
    ensures
        forall|j: int| 0 <= j < s.remove(i).len()
            ==> spec_packet_well_formed(#[trigger] s.remove(i)[j].packet@),
{
    let t = s.remove(i);
    assert forall|j: int| 0 <= j < t.len()
        implies spec_packet_well_formed(#[trigger] t[j].packet@) by {
        if j < i {
            assert(t[j] == s[j]);
        } else {
            assert(t[j] == s[j + 1]);
        }
    }
}


/// Marking one entry abandoned keeps the pending list strictly ordered and
/// bounded: the sequence numbers do not move.
proof fn lemma_update_keeps_order(s: Seq<PendingRequest>, i: int, bound: u64)
    requires
        0 <= i < s.len(),
        forall|a: int, b: int| 0 <= a < b < s.len() ==> s[a].sequence < s[b].sequence,
        forall|a: int| 0 <= a < s.len() ==> #[trigger] s[a].sequence < bound,
    ensures
        ({
            let t = s.update(i, PendingRequest { abandoned: true, ..s[i] });
            &&& forall|a: int, b: int| 0 <= a < b < t.len() ==> t[a].sequence < t[b].sequence
            &&& forall|a: int| 0 <= a < t.len() ==> #[trigger] t[a].sequence < bound
        }),
{
}



/// The descriptors that routing `p` hands back for closing: the declared
/// count of an abandoned cookie's reply, as far as they have arrived;
/// nothing otherwise.
pub open spec fn spec_drained(pre: Connection, p: Seq<u8>) -> Seq<RawFdContainer> {
    let s = spec_resolve_sequence(pre.last_read_sequence as int, spec_wire_sequence(p));
    if !spec_is_numbered(p) || s >= pre.next_sequence || p[0] != 1 {
        Seq::empty()
    } else {
        match spec_pending_index(pre.pending@, s) {
            Some(i) => {
                if pre.pending@[i].abandoned {
                    let declared = if pre.pending@[i].bears_fds {
                        p[1] as int
                    } else {
                        0
                    };
                    let k = if declared <= pre.fd_queue.contents().len() {
                        declared
                    } else {
                        pre.fd_queue.contents().len() as int
                    };
                    pre.fd_queue.contents().take(k)
                } else {
                    Seq::empty()
                }
            },
            None => Seq::empty(),
        }
    }
}

/// Exactly what routing one complete packet does to the connection.
///
/// A reply or error is attributed the smallest logical sequence at or
/// above the anchor matching its 16-bit wire value, and the anchor
/// advances to it.  An error goes to the reply-expecting cookie of its
/// sequence if one is pending, else to the last-error slot.  A reply goes
/// to its cookie; one whose cookie was discarded has its declared
/// descriptors drained (see [`spec_drained`]).  Events, generic or not,
/// join the event queue.  A numbered packet bearing a sequence that was
/// never issued is a fatal framing violation.
pub open spec fn spec_process(
    pre: Connection,
    post: Connection,
    p: Seq<u8>,
    r: Result<(), ConnectionError>,
) -> bool {
    let s = spec_resolve_sequence(pre.last_read_sequence as int, spec_wire_sequence(p));
    if !spec_is_numbered(p) {
        // A plain event: queued, nothing else moves.
        &&& r is Ok
        &&& post == (Connection { events: post.events, ..pre })
        &&& post.events@.len() == pre.events@.len() + 1
        &&& post.events@.drop_last() == pre.events@
        &&& post.events@.last()@ == p
    } else if s >= pre.next_sequence {
        // The server echoed a sequence never issued: fatal.
        &&& r == Err::<(), ConnectionError>(ConnectionError::MalformedPacket)
        &&& post == (Connection { closed: true, ..pre })
    } else {
        &&& post.last_read_sequence == s
        &&& post.next_sequence == pre.next_sequence
        &&& post.outgoing == pre.outgoing
        &&& post.outgoing_fds == pre.outgoing_fds
        &&& post.reader == pre.reader
        &&& post.extensions == pre.extensions
        &&& post.closed == pre.closed
        &&& r is Ok
        &&& if p[0] == 0 {
            // An error packet.
            &&& post.events == pre.events
            &&& post.fd_queue == pre.fd_queue
            &&& match spec_pending_index(pre.pending@, s) {
                Some(i) => {
                    &&& post.pending@ == pre.pending@.remove(i)
                    &&& if pre.pending@[i].abandoned {
                        // Nobody will claim it; the last-error slot records it.
                        &&& post.replies == pre.replies
                        &&& post.last_error matches Some((es, ep)) && es == s && ep@ == p
                    } else {
                        // Delivered under its sequence; for a request
                        // without a reply it is also recorded as the
                        // connection's last error.
                        &&& post.replies@.len() == pre.replies@.len() + 1
                        &&& post.replies@.drop_last() == pre.replies@
                        &&& post.replies@.last().sequence == s
                        &&& post.replies@.last().bears_fds
                            == (pre.pending@[i].expects_reply && pre.pending@[i].bears_fds)
                        &&& post.replies@.last().packet@ == p
                        &&& if pre.pending@[i].expects_reply {
                            post.last_error == pre.last_error
                        } else {
                            post.last_error matches Some((es, ep)) && es == s && ep@ == p
                        }
                    }
                },
                None => {
                    &&& post.pending == pre.pending
                    &&& post.replies == pre.replies
                    &&& post.last_error matches Some((es, ep)) && es == s && ep@ == p
                },
            }
        } else if p[0] == 1 {
            // A reply packet.
            &&& post.events == pre.events
            &&& post.last_error == pre.last_error
            &&& match spec_pending_index(pre.pending@, s) {
                Some(i) => {
                    &&& post.pending@ == pre.pending@.remove(i)
                    &&& if !pre.pending@[i].abandoned {
                        &&& post.replies@.len() == pre.replies@.len() + 1
                        &&& post.replies@.drop_last() == pre.replies@
                        &&& post.replies@.last().sequence == s
                        &&& post.replies@.last().bears_fds == pre.pending@[i].bears_fds
                        &&& post.replies@.last().packet@ == p
                        &&& post.fd_queue == pre.fd_queue
                    } else {
                        // Abandoned: its descriptors are drained.
                        &&& post.replies == pre.replies
                        &&& post.fd_queue.contents() == pre.fd_queue.contents().skip(
                            spec_drained(pre, p).len() as int,
                        )
                    }
                },
                None => {
                    // No record of the request: drop the packet.
                    &&& post.pending == pre.pending
                    &&& post.replies == pre.replies
                    &&& post.fd_queue == pre.fd_queue
                },
            }
        } else {
            // A generic event: numbered, but still an event.
            &&& post.events@.len() == pre.events@.len() + 1
            &&& post.events@.drop_last() == pre.events@
            &&& post.events@.last()@ == p
            &&& post.replies == pre.replies
            &&& post.pending == pre.pending
            &&& post.fd_queue == pre.fd_queue
            &&& post.last_error == pre.last_error
        }
    }
}

/// Whether routing a run of completed packets succeeds: each numbered one
/// resolves, against the anchor its predecessors advanced, to a sequence
/// below the issued ones.
pub open spec fn spec_routing_ok(anchor: int, next_sequence: int, packets: Seq<Seq<u8>>) -> bool
    decreases packets.len(),
{
    if packets.len() == 0 {
        true
    } else {
        let p = packets[0];
        if !spec_is_numbered(p) {
            spec_routing_ok(anchor, next_sequence, packets.skip(1))
        } else {
            let s = spec_resolve_sequence(anchor, spec_wire_sequence(p));
            s < next_sequence && spec_routing_ok(s, next_sequence, packets.skip(1))
        }
    }
}

/// Whether one feed call turned `pre` into `post`: from the state whose
/// descriptor queue took the read's descriptors, the run routed every
/// packet of `packets`, appending exactly the drained descriptors —
/// everything but the reassembly state, which feed constrains separately.
pub open spec fn spec_fed(
    pre: Connection,
    post: Connection,
    fds: Seq<RawFdContainer>,
    packets: Seq<Seq<u8>>,
    disc_pre: Seq<RawFdContainer>,
    disc_post: Seq<RawFdContainer>,
) -> bool {
    exists|started: Connection| {
        &&& #[trigger] started.fd_queue.contents() == pre.fd_queue.contents() + fds
        &&& started == (Connection {
            fd_queue: started.fd_queue,
            reader: started.reader,
            ..pre
        })
        &&& spec_process_all(
            started,
            (Connection { reader: started.reader, ..post }),
            packets,
            disc_pre,
            disc_post,
        )
    }
}

/// Whether one feed call failed on packet `k`: the packets before it were
/// routed, packet `k` bore a sequence never issued and poisoned the
/// connection, and the rest of the read was left unconsumed.
pub open spec fn spec_fed_failed(
    pre: Connection,
    post: Connection,
    fds: Seq<RawFdContainer>,
    packets: Seq<Seq<u8>>,
    k: int,
    disc_pre: Seq<RawFdContainer>,
    disc_post: Seq<RawFdContainer>,
) -> bool {
    &&& 0 <= k < packets.len()
    &&& exists|started: Connection| {
        &&& #[trigger] started.fd_queue.contents() == pre.fd_queue.contents() + fds
        &&& started == (Connection {
            fd_queue: started.fd_queue,
            reader: started.reader,
            ..pre
        })
        &&& spec_process_all(
            started,
            (Connection { reader: started.reader, closed: false, ..post }),
            packets.take(k),
            disc_pre,
            disc_post,
        )
        &&& spec_process(
            (Connection { reader: started.reader, closed: false, ..post }),
            (Connection { reader: started.reader, ..post }),
            packets[k],
            Err(ConnectionError::MalformedPacket),
        )
    }
}

/// A run of packets routed one after the other: each step routes the next
/// packet successfully and appends exactly its drained descriptors.
pub open spec fn spec_process_all(
    pre: Connection,
    post: Connection,
    packets: Seq<Seq<u8>>,
    disc_pre: Seq<RawFdContainer>,
    disc_post: Seq<RawFdContainer>,
) -> bool
    decreases packets.len(),
{
    if packets.len() == 0 {
        post == pre && disc_post == disc_pre
    } else {
        exists|mid: Connection| {
            &&& #[trigger] spec_process(pre, mid, packets[0], Ok(()))
            &&& spec_process_all(
                mid,
                post,
                packets.skip(1),
                disc_pre + spec_drained(pre, packets[0]),
                disc_post,
            )
        }
    }
}

/// A run extends by one more routed packet at its end.
pub proof fn lemma_process_all_snoc(
    pre: Connection,
    mid: Connection,
    post: Connection,
    packets: Seq<Seq<u8>>,
    p: Seq<u8>,
    disc_pre: Seq<RawFdContainer>,
    disc_mid: Seq<RawFdContainer>,
    disc_post: Seq<RawFdContainer>,
)
    requires
        spec_process_all(pre, mid, packets, disc_pre, disc_mid),
        spec_process(mid, post, p, Ok(())),
        disc_post == disc_mid + spec_drained(mid, p),
    ensures spec_process_all(pre, post, packets.push(p), disc_pre, disc_post),
    decreases packets.len(),
{
    if packets.len() == 0 {
        assert(mid == pre && disc_mid == disc_pre);
        assert(packets.push(p)[0] == p);
        assert(packets.push(p).skip(1) =~= Seq::<Seq<u8>>::empty());
        assert(spec_process(pre, post, p, Ok(())));
        assert(spec_process_all(
            post,
            post,
            packets.push(p).skip(1),
            disc_pre + spec_drained(pre, p),
            disc_post,
        ));
    } else {
        let mid1 = choose|m: Connection| {
            &&& #[trigger] spec_process(pre, m, packets[0], Ok(()))
            &&& spec_process_all(
                m,
                mid,
                packets.skip(1),
                disc_pre + spec_drained(pre, packets[0]),
                disc_mid,
            )
        };
        lemma_process_all_snoc(
            mid1,
            mid,
            post,
            packets.skip(1),
            p,
            disc_pre + spec_drained(pre, packets[0]),
            disc_mid,
            disc_post,
        );
        assert(packets.push(p)[0] == packets[0]);
        assert(packets.push(p).skip(1) =~= packets.skip(1).push(p));
        assert(spec_process(pre, mid1, packets.push(p)[0], Ok(())));
        assert(spec_process_all(
            mid1,
            post,
            packets.push(p).skip(1),
            disc_pre + spec_drained(pre, packets.push(p)[0]),
            disc_post,
        ));
    }
}

/// Routing ignores the reassembly state: the same step holds with both
/// sides' readers replaced by any common value.
pub proof fn lemma_process_reader_irrelevant(
    pre: Connection,
    post: Connection,
    p: Seq<u8>,
    r: Result<(), ConnectionError>,
    rd: PacketReader,
)
    requires spec_process(pre, post, p, r),
    ensures spec_process(
        (Connection { reader: rd, ..pre }),
        (Connection { reader: rd, ..post }),
        p,
        r,
    ),
{
    let pre2 = Connection { reader: rd, ..pre };
    let post2 = Connection { reader: rd, ..post };
    let s = spec_resolve_sequence(pre.last_read_sequence as int, spec_wire_sequence(p));
    if !spec_is_numbered(p) {
        assert(post == (Connection { events: post.events, ..pre }));
        assert(post2 == (Connection { events: post2.events, ..pre2 }));
    } else if s >= pre.next_sequence {
        assert(post2 == (Connection { closed: true, ..pre2 }));
    } else {
        assert(spec_drained(pre2, p) == spec_drained(pre, p));
    }
}

/// The position of the unresolved request carrying `sequence`, if any.
pub open spec fn spec_pending_index(s: Seq<PendingRequest>, sequence: int) -> Option<int> {
    if exists|i: int| 0 <= i < s.len() && s[i].sequence == sequence {
        Some(choose|i: int| 0 <= i < s.len() && s[i].sequence == sequence)
    } else {
        None
    }
}

/// The exec search and the spec index agree: sequences are unique in a
/// well-ordered pending list, so there is only one index to find.
proof fn lemma_pending_index_agrees(s: Seq<PendingRequest>, sequence: u64, found: Option<usize>)
    requires
        forall|i: int, j: int| 0 <= i < j < s.len() ==> s[i].sequence < s[j].sequence,
        match found {
            Some(i) => i < s.len() && s[i as int].sequence == sequence,
            None => forall|i: int| 0 <= i < s.len() ==> #[trigger] s[i].sequence != sequence,
        },
    ensures
        match found {
            Some(i) => spec_pending_index(s, sequence as int) == Some(i as int),
            None => spec_pending_index(s, sequence as int) is None,
        },
{
    match found {
        Some(i) => {
            let j = choose|j: int| 0 <= j < s.len() && s[j].sequence == sequence;
            if j < i as int {
                assert(s[j].sequence < s[i as int].sequence);
            }
            if j > i as int {
                assert(s[i as int].sequence < s[j].sequence);
            }
        },
        None => {},
    }
}

/// Removing one entry keeps the pending list strictly ordered and bounded.
proof fn lemma_remove_keeps_order(s: Seq<PendingRequest>, i: int, bound: u64)
    requires
        0 <= i < s.len(),
        forall|a: int, b: int| 0 <= a < b < s.len() ==> s[a].sequence < s[b].sequence,
        forall|a: int| 0 <= a < s.len() ==> #[trigger] s[a].sequence < bound,
    ensures
        forall|a: int, b: int| 0 <= a < b < s.remove(i).len()
            ==> s.remove(i)[a].sequence < s.remove(i)[b].sequence,
        forall|a: int| 0 <= a < s.remove(i).len() ==> #[trigger] s.remove(i)[a].sequence < bound,
{
    let t = s.remove(i);
    assert forall|a: int, b: int| 0 <= a < b < t.len() implies t[a].sequence < t[b].sequence by {
        let a0 = if a < i { a } else { a + 1 };
        let b0 = if b < i { b } else { b + 1 };
        assert(t[a] == s[a0]);
        assert(t[b] == s[b0]);
    }
    assert forall|a: int| 0 <= a < t.len() implies #[trigger] t[a].sequence < bound by {
        let a0 = if a < i { a } else { a + 1 };
        assert(t[a] == s[a0]);
    }
}

} // verus!
