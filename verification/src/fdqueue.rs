//! The descriptor side channel: file descriptors that arrive alongside the
//! byte stream, kept strictly in arrival order and consumed from the front.

use vstd::prelude::*;
use crate::errors::ParseError;

verus! {

/// An owned file descriptor by its raw number.  The holder is responsible
/// for closing it exactly once; a descriptor left over when its packet is
/// discarded is handed back to the caller for closing.
#[derive(Debug, Clone, Copy, PartialEq, Eq, Structural)]
pub struct RawFdContainer(pub i32);

/// Ordered queue of received descriptors.
///
/// Descriptors are appended as reads deliver them and removed from the
/// front in the exact count a decoder declares, so each one transfers to
/// exactly the consumer whose byte position it belongs to.
#[derive(Debug)]
pub struct FdQueue {
    pub fds: Vec<RawFdContainer>,
}

impl FdQueue {
    /// The queued descriptors, oldest first.
    pub open spec fn contents(&self) -> Seq<RawFdContainer> {
        self.fds@
    }

    /// An empty queue.
    pub fn new() -> (r: FdQueue)
        ensures r.contents() == Seq::<RawFdContainer>::empty(),
    {
        let r = FdQueue { fds: Vec::new() };
        assert(r.contents() =~= Seq::<RawFdContainer>::empty());
        r
    }

    /// How many descriptors are queued.
    pub fn len(&self) -> (r: usize)
        ensures r == self.contents().len(),
    {
        self.fds.len()
    }

    /// Append descriptors in the order they arrived.
    pub fn enqueue(&mut self, incoming: &Vec<RawFdContainer>)
        ensures final(self).contents() == old(self).contents() + incoming@,
    {
        let mut j: usize = 0;
        while j < incoming.len()
            invariant
                j <= incoming@.len(),
                self.fds@ == old(self).fds@ + incoming@.subrange(0, j as int),
            decreases incoming@.len() - j,
        {
            self.fds.push(incoming[j]);
            j = j + 1;
            assert(self.fds@ =~= old(self).fds@ + incoming@.subrange(0, j as int));
        }
        assert(incoming@.subrange(0, incoming@.len() as int) =~= incoming@);
    }

    /// Remove exactly the first `k` descriptors, in order.
    ///
    /// When fewer than `k` are available this fails at once — it never
    /// waits for more — and leaves the queue untouched.
    pub fn take(&mut self, k: usize) -> (r: Result<Vec<RawFdContainer>, ParseError>)
        ensures
            k <= old(self).contents().len() ==> {
                &&& r matches Ok(taken) && taken@ == old(self).contents().take(k as int)
                &&& final(self).contents() == old(self).contents().skip(k as int)
            },
            k > old(self).contents().len() ==> {
                &&& r is Err
                &&& final(self).contents() == old(self).contents()
            },
    {
        if k > self.fds.len() {
            return Err(ParseError::ParseError);
        }
        let mut taken: Vec<RawFdContainer> = Vec::new();
        let mut j: usize = 0;
        while j < k
            invariant
                k <= old(self).fds@.len(),
                j <= k,
                taken@ == old(self).fds@.subrange(0, j as int),
                self.fds@ == old(self).fds@.skip(j as int),
            decreases k - j,
        {
            let fd = self.fds.remove(0);
            taken.push(fd);
            j = j + 1;
            assert(taken@ =~= old(self).fds@.subrange(0, j as int));
            assert(self.fds@ =~= old(self).fds@.skip(j as int));
        }
        assert(taken@ =~= old(self).contents().take(k as int));
        Ok(taken)
    }
}

/// Append descriptors to a caller-held list, keeping their order.
pub fn append_fds(out: &mut Vec<RawFdContainer>, src: &Vec<RawFdContainer>)
    ensures final(out)@ == old(out)@ + src@,
{
    let mut j: usize = 0;
    while j < src.len()
        invariant
            j <= src@.len(),
            out@ == old(out)@ + src@.subrange(0, j as int),
        decreases src@.len() - j,
    {
        out.push(src[j]);
        j = j + 1;
        assert(out@ =~= old(out)@ + src@.subrange(0, j as int));
    }
    assert(src@.subrange(0, src@.len() as int) =~= src@);
}

/// Grouping arrivals into reads does not matter: delivering two groups one
/// after the other leaves the queue exactly as delivering their
/// concatenation in a single read, so what a consumer takes is unaffected
/// by how many reads were needed.
pub proof fn lemma_fd_arrival_grouping(
    q: Seq<RawFdContainer>,
    a: Seq<RawFdContainer>,
    b: Seq<RawFdContainer>,
)
    ensures (q + a) + b == q + (a + b),
{
    assert((q + a) + b =~= q + (a + b));
}

} // verus!
