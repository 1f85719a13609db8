//! Packet framing: turning an arbitrarily fragmented byte stream into
//! discrete, complete protocol packets.
//!
//! Every server message starts with a 32-byte header.  Byte 0 tells the
//! message apart: a reply or a generic event carries, at offset 4, a 32-bit
//! count of trailing 4-byte units; every other message is exactly the
//! header.  The reader absorbs whatever bytes each read call produced and
//! hands out a packet only once all of its declared bytes have arrived, so
//! the caller never sees a torn or short packet.

use vstd::prelude::*;
use crate::wire::{le16_at, le32_at, read_u32, push_zeros};

verus! {

/// Minimal length of a packet: the fixed header.
pub const MINIMAL_PACKET_LENGTH: usize = 32;

/// First header byte of a server-reported error.
pub const RESPONSE_TYPE_ERROR: u8 = 0;

/// First header byte of a reply.
pub const RESPONSE_TYPE_REPLY: u8 = 1;

/// First header byte (with the sent-event bit masked off) of a generic
/// event, the one event kind framed like a reply.
pub const GE_GENERIC_EVENT: u8 = 35;

/// Whether a packet whose first header byte is `response_type` declares a
/// variable-length tail at offset 4.
pub open spec fn spec_has_extra(response_type: u8) -> bool {
    response_type == RESPONSE_TYPE_REPLY || (response_type & 0x7f) == GE_GENERIC_EVENT
}

/// Bytes beyond the 32-byte header, as the header declares them.
pub open spec fn spec_extra_length(h: Seq<u8>) -> nat
    recommends h.len() >= 8,
{
    if spec_has_extra(h[0]) {
        (4 * le32_at(h, 4)) as nat
    } else {
        0
    }
}

/// Full length of the packet whose first bytes are `acc`: the header length
/// until the header is complete, afterwards header plus declared tail.
pub open spec fn spec_target_len(acc: Seq<u8>) -> nat {
    if acc.len() < 32 {
        32
    } else {
        32 + spec_extra_length(acc)
    }
}

/// A complete packet: at least a header, and exactly as long as that header
/// declares.
pub open spec fn spec_packet_well_formed(p: Seq<u8>) -> bool {
    p.len() >= 32 && p.len() == spec_target_len(p)
}

/// The 16-bit sequence number a reply, error, or generic event echoes at
/// offset 2.
pub open spec fn spec_wire_sequence(p: Seq<u8>) -> u16
    recommends p.len() >= 4,
{
    le16_at(p, 2)
}

/// Outcome of absorbing one read's worth of bytes.
pub enum Absorb {
    /// No packet is complete yet; `acc` is everything gathered so far.
    NeedMore { acc: Seq<u8> },
    /// `packet` is complete after taking `used` bytes; the rest of the read
    /// belongs to the next packet.
    Done { packet: Seq<u8>, used: nat },
}

/// How the reader extends the bytes `acc` gathered so far with a fresh
/// `chunk`, stopping at the first complete packet.
pub open spec fn spec_absorb(acc: Seq<u8>, chunk: Seq<u8>) -> Absorb
    decreases chunk.len(),
{
    if acc.len() >= spec_target_len(acc) {
        Absorb::Done { packet: acc, used: 0 }
    } else {
        let need = spec_target_len(acc) - acc.len();
        if chunk.len() < need {
            Absorb::NeedMore { acc: acc + chunk }
        } else {
            let gathered = acc + chunk.take(need);
            if gathered.len() >= spec_target_len(gathered) {
                Absorb::Done { packet: gathered, used: need as nat }
            } else {
                match spec_absorb(gathered, chunk.skip(need)) {
                    Absorb::NeedMore { acc: rest } => Absorb::NeedMore { acc: rest },
                    Absorb::Done { packet, used } => Absorb::Done {
                        packet,
                        used: (need + used) as nat,
                    },
                }
            }
        }
    }
}

/// The packets completed by absorbing `chunk` after `acc`, paired with
/// the bytes left gathered toward the next packet.
pub open spec fn spec_split_packets(acc: Seq<u8>, chunk: Seq<u8>) -> (Seq<Seq<u8>>, Seq<u8>)
    decreases chunk.len(),
{
    match spec_absorb(acc, chunk) {
        Absorb::NeedMore { acc: rest } => (Seq::empty(), rest),
        Absorb::Done { packet, used } => {
            if 1 <= used <= chunk.len() {
                let cont = spec_split_packets(Seq::empty(), chunk.skip(used as int));
                (seq![packet] + cont.0, cont.1)
            } else {
                (seq![packet], Seq::empty())
            }
        },
    }
}

/// Extending bytes past a complete header never changes the declared packet
/// length: it depends on the header alone.
pub proof fn lemma_target_stable(acc: Seq<u8>, ext: Seq<u8>)
    requires acc.len() >= 32,
    ensures spec_target_len(acc + ext) == spec_target_len(acc),
{
    assert((acc + ext)[0] == acc[0]);
    assert((acc + ext)[4] == acc[4]);
    assert((acc + ext)[5] == acc[5]);
    assert((acc + ext)[6] == acc[6]);
    assert((acc + ext)[7] == acc[7]);
}

/// What absorption guarantees: when no packet completes, every byte was
/// kept in order; when one completes, it is exactly the gathered bytes up
/// to its declared length, and well formed.
pub proof fn lemma_absorb_properties(acc: Seq<u8>, chunk: Seq<u8>)
    requires acc.len() <= spec_target_len(acc),
    ensures match spec_absorb(acc, chunk) {
        Absorb::NeedMore { acc: rest } => {
            &&& rest == acc + chunk
            &&& rest.len() < spec_target_len(rest)
        },
        Absorb::Done { packet, used } => {
            &&& used <= chunk.len()
            &&& packet == acc + chunk.take(used as int)
            &&& spec_packet_well_formed(packet)
            &&& (acc.len() < spec_target_len(acc) ==> used >= 1)
        },
    },
    decreases chunk.len(),
{
    if acc.len() >= spec_target_len(acc) {
        assert(acc + chunk.take(0) =~= acc);
    } else {
        let need = spec_target_len(acc) - acc.len();
        if chunk.len() < need {
        } else {
            let gathered = acc + chunk.take(need);
            if gathered.len() >= spec_target_len(gathered) {
                assert(gathered.len() == spec_target_len(acc));
                if acc.len() >= 32 {
                    lemma_target_stable(acc, chunk.take(need));
                }
                assert(gathered.len() <= spec_target_len(gathered));
                assert(spec_packet_well_formed(gathered));
            } else {
                assert(gathered.len() == spec_target_len(acc));
                lemma_absorb_properties(gathered, chunk.skip(need));
                match spec_absorb(gathered, chunk.skip(need)) {
                    Absorb::NeedMore { acc: rest } => {
                        assert(gathered + chunk.skip(need) =~= acc + chunk);
                    },
                    Absorb::Done { packet, used } => {
                        assert(gathered + chunk.skip(need).take(used as int)
                            =~= acc + chunk.take(need + used));
                    },
                }
            }
        }
    }
}

/// Reassembly does not depend on how the stream is cut into reads: if the
/// bytes of `c1` complete no packet, absorbing `c1` and then `c2` gathers
/// the same bytes and completes the same packet as absorbing `c1 + c2` in
/// one piece.  Splitting a stream byte by byte is this law applied at every
/// boundary.
pub proof fn lemma_absorb_chunk_independent(acc: Seq<u8>, c1: Seq<u8>, c2: Seq<u8>)
    requires
        acc.len() <= spec_target_len(acc),
        spec_absorb(acc, c1) matches Absorb::NeedMore { .. },
    ensures match (spec_absorb(acc, c1), spec_absorb(acc, c1 + c2)) {
        (Absorb::NeedMore { acc: a1 }, r) => match (spec_absorb(a1, c2), r) {
            (Absorb::NeedMore { acc: x }, Absorb::NeedMore { acc: y }) => x == y,
            (Absorb::Done { packet: p1, used: u1 }, Absorb::Done { packet: p2, used: u2 }) => {
                p1 == p2 && u2 == c1.len() + u1
            },
            _ => false,
        },
        _ => false,
    },
    decreases c1.len(),
{
    lemma_absorb_properties(acc, c1);
    let a1 = spec_absorb(acc, c1)->NeedMore_acc;
    assert(a1 == acc + c1);
    let need = spec_target_len(acc) - acc.len();
    if c1.len() < need {
        // `c1` did not even cover the current goal; both runs agree on the
        // remaining need.
        if acc.len() >= 32 {
            lemma_target_stable(acc, c1);
        }
        assert(spec_target_len(a1) == spec_target_len(acc));
        let need2 = spec_target_len(a1) - a1.len();
        assert(need2 == need - c1.len());
        if (c1 + c2).len() < need {
            assert(c2.len() < need2);
            assert(acc + (c1 + c2) =~= a1 + c2);
        } else {
            assert(c2.len() >= need2);
            let g_join = acc + (c1 + c2).take(need);
            let g_split = a1 + c2.take(need2);
            assert(g_join =~= g_split);
            if g_join.len() >= spec_target_len(g_join) {
            } else {
                assert((c1 + c2).skip(need) =~= c2.skip(need2));
            }
        }
    } else {
        // `c1` completed the header; recurse on its remainder.
        let gathered = acc + c1.take(need);
        assert(gathered.len() == spec_target_len(acc));
        if gathered.len() >= spec_target_len(gathered) {
            // would have been Done, contradicting NeedMore
            assert(false);
        }
        lemma_absorb_chunk_independent(gathered, c1.skip(need), c2);
        assert(acc + (c1 + c2).take(need) =~= gathered);
        assert((c1 + c2).len() >= need);
        assert((c1 + c2).skip(need) =~= c1.skip(need) + c2);
        assert(c1.skip(need) + c2 =~= (c1 + c2).skip(need));
        assert(spec_absorb(gathered, c1.skip(need)) == spec_absorb(acc, c1)
            || spec_absorb(acc, c1) matches Absorb::NeedMore { .. });
    }
}

/// Length in bytes of a packet's variable tail, read from its header.
///
/// The count travels as 4-byte units; the result is returned as `u64` so
/// the largest declarable tail is representable on every platform.
pub fn extra_length(buffer: &Vec<u8>) -> (r: u64)
    requires buffer@.len() >= 32,
    ensures r == spec_extra_length(buffer@),
{
    let n: usize = buffer.len();
    let response_type = buffer[0];
    if response_type == RESPONSE_TYPE_REPLY || (response_type & 0x7f) == GE_GENERIC_EVENT {
        let length_field = read_u32(buffer, 4);
        4 * (length_field as u64)
    } else {
        0
    }
}

/// Reassembles packets from a stream of reads.
///
/// `buf` is sized to the packet being gathered — the 32-byte header until
/// the header is complete, then its declared total — and `filled` counts
/// how many of those bytes have arrived.
#[derive(Debug)]
pub struct PacketReader {
    pub buf: Vec<u8>,
    pub filled: usize,
}

impl PacketReader {
    /// The bytes gathered so far toward the packet being assembled.
    pub open spec fn absorbed(&self) -> Seq<u8> {
        self.buf@.take(self.filled as int)
    }

    /// The reader's invariant: the buffer is exactly as large as the packet
    /// being gathered, and that packet is not yet complete.
    pub open spec fn wf(&self) -> bool {
        &&& self.filled < self.buf@.len()
        &&& self.buf@.len() == spec_target_len(self.absorbed())
    }

    /// A reader with nothing gathered: a zeroed header-sized buffer.
    pub fn new() -> (r: PacketReader)
        ensures
            r.wf(),
            r.absorbed() == Seq::<u8>::empty(),
            r.buf@ == crate::wire::zeros(32),
            r.filled == 0,
    {
        let r = PacketReader { buf: fresh_header_buffer(), filled: 0 };
        assert(r.absorbed() =~= Seq::<u8>::empty());
        r
    }

    /// Copy bytes of `input` (from `from`) into the buffer until the buffer
    /// is full or the input is exhausted.
    fn fill_some(&mut self, input: &Vec<u8>, from: usize) -> (n: usize)
        requires
            old(self).filled <= old(self).buf@.len(),
            from <= input@.len(),
        ensures
            n == if old(self).buf@.len() - old(self).filled <= input@.len() - from {
                old(self).buf@.len() - old(self).filled
            } else {
                input@.len() - from
            },
            final(self).buf@.len() == old(self).buf@.len(),
            final(self).filled == old(self).filled + n,
            final(self).buf@ == old(self).buf@.take(old(self).filled as int)
                + input@.subrange(from as int, from as int + n as int)
                + old(self).buf@.skip(old(self).filled as int + n as int),
    {
        let buf_len: usize = self.buf.len();
        let input_len: usize = input.len();
        let mut j: usize = 0;
        let want: usize = if buf_len - self.filled <= input_len - from {
            buf_len - self.filled
        } else {
            input_len - from
        };
        while j < want
            invariant
                want <= buf_len - old(self).filled,
                input_len == input@.len(),
                from + want <= input@.len(),
                buf_len == self.buf@.len(),
                buf_len == old(self).buf@.len(),
                j <= want,
                self.filled == old(self).filled + j,
                self.buf@ == old(self).buf@.take(old(self).filled as int)
                    + input@.subrange(from as int, from as int + j as int)
                    + old(self).buf@.skip(old(self).filled as int + j as int),
            decreases want - j,
        {
            self.buf[self.filled] = input[from + j];
            self.filled = self.filled + 1;
            j = j + 1;
            assert(self.buf@ =~= old(self).buf@.take(old(self).filled as int)
                + input@.subrange(from as int, from as int + j as int)
                + old(self).buf@.skip(old(self).filled as int + j as int));
        }
        want
    }

    /// Absorb one read's worth of bytes, starting at `start` in `input`.
    ///
    /// Returns how many bytes were taken and, once all the declared bytes
    /// of a packet have arrived, the complete packet; the reader then
    /// resets for the next one.  Bytes past a completed packet are left for
    /// the following call.  A call that returns no packet has taken the
    /// whole input.
    pub fn try_read_packet(&mut self, input: &Vec<u8>, start: usize) -> (r: (usize, Option<Vec<u8>>))
        requires
            old(self).wf(),
            start <= input@.len(),
        ensures
            final(self).wf(),
            start + r.0 <= input@.len(),
            match spec_absorb(old(self).absorbed(), input@.skip(start as int)) {
                Absorb::NeedMore { acc } => {
                    &&& r.1 is None
                    &&& r.0 == input@.len() - start
                    &&& final(self).absorbed() == acc
                },
                Absorb::Done { packet, used } => {
                    &&& r.1 matches Some(p) && p@ == packet
                    &&& r.0 == used
                    &&& final(self).absorbed() == Seq::<u8>::empty()
                    &&& spec_packet_well_formed(packet)
                },
            },
    {
        let ghost acc0 = self.absorbed();
        let ghost chunk = input@.skip(start as int);
        proof {
            lemma_absorb_properties(acc0, chunk);
        }
        let input_len: usize = input.len();
        let mut consumed: usize = self.fill_some(input, start);
        assert(self.absorbed() =~= acc0 + chunk.take(consumed as int));

        if self.filled == self.buf.len() {
            let ghost need1 = self.buf@.len() - acc0.len();
            assert(consumed == need1);
            let ghost acc2 = acc0 + chunk.take(need1 as int);
            if self.buf.len() == MINIMAL_PACKET_LENGTH {
                // The header just completed: learn the declared total.
                assert(self.absorbed() =~= self.buf@);
                let extra: u64 = extra_length(&self.buf);
                if extra > 0 {
                    let ghost pre_grow = self.buf@;
                    let target: u64 = 32 + extra;
                    while (self.buf.len() as u64) < target
                        invariant
                            self.filled == 32,
                            32 <= self.buf@.len(),
                            self.buf@.len() <= target,
                            self.buf@.take(32) == pre_grow,
                            target == 32 + extra,
                        decreases target - self.buf@.len(),
                    {
                        self.buf.push(0u8);
                        assert(self.buf@.take(32) =~= pre_grow);
                    }
                    assert(self.absorbed() =~= acc2);
                    assert(self.buf@.len() == spec_target_len(acc2));
                    let n2 = self.fill_some(input, start + consumed);
                    consumed = consumed + n2;
                    proof {
                        lemma_absorb_properties(acc2, chunk.skip(need1 as int));
                        assert(chunk.skip(need1 as int).len() == input@.len() - start - need1);
                    }
                    assert(self.absorbed() =~= acc2 + chunk.skip(need1 as int).take(n2 as int));
                }
            } else {
                proof {
                    lemma_target_stable(acc0, chunk.take(need1 as int));
                }
            }
        }

        if self.filled == self.buf.len() {
            // Every declared byte has arrived: hand the packet out and
            // reset for the next one.
            assert(self.absorbed() =~= self.buf@);
            let mut packet: Vec<u8> = fresh_header_buffer();
            core::mem::swap(&mut packet, &mut self.buf);
            self.filled = 0;
            assert(self.absorbed() =~= Seq::<u8>::empty());
            (consumed, Some(packet))
        } else {
            assert(self.absorbed().len() < spec_target_len(self.absorbed()));
            (consumed, None)
        }
    }
}

/// A fresh zeroed buffer of the minimal packet length.
fn fresh_header_buffer() -> (r: Vec<u8>)
    ensures r@ == crate::wire::zeros(32),
{
    let mut r: Vec<u8> = Vec::new();
    push_zeros(&mut r, 32);
    assert(r@ =~= crate::wire::zeros(32));
    r
}

} // verus!
