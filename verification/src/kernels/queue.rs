//! The command buffers of a device: the one that is open and those that run.

use vstd::prelude::*;

verus! {

/// The command buffers of a device, each known by a handle.
#[derive(Debug)]
pub struct MetalContext<C> {
    /// The command buffer that takes dispatches.
    pub pending: Option<C>,
    /// Committed command buffers that nobody has waited for yet, oldest first.
    pub inflight: Vec<C>,
}

/// How many of the first command buffers are completed.
pub open spec fn completed_front(completed: Seq<bool>) -> nat
    decreases completed.len(),
{
    if completed.len() == 0 || !completed[0] {
        0
    } else {
        1 + completed_front(completed.skip(1))
    }
}

impl<C> MetalContext<C> {
    /// All work of the device in the order in which it was opened.
    pub open spec fn work(self) -> Seq<C> {
        match self.pending {
            Some(c) => self.inflight@.push(c),
            None => self.inflight@,
        }
    }

    /// A device without work.
    pub fn new() -> (r: MetalContext<C>)
        ensures
            r.work().len() == 0,
            r.pending is None,
            r.inflight@.len() == 0,
    {
        MetalContext { pending: None, inflight: Vec::new() }
    }

    /// Whether a command buffer is open or in flight.
    pub fn has_gpu_work(&self) -> (r: bool)
        ensures
            r == (self.work().len() > 0),
    {
        self.pending.is_some() || self.inflight.len() > 0
    }

    /// Whether a command buffer has to be opened before a dispatch is encoded.
    pub fn needs_pending(&self) -> (r: bool)
        ensures
            r == (self.pending is None),
    {
        self.pending.is_none()
    }

    /// A command buffer was opened.
    pub fn ensure_pending(&mut self, c: C)
        requires
            old(self).pending is None,
        ensures
            final(self).pending == Some(c),
            final(self).inflight@ == old(self).inflight@,
            final(self).work() == old(self).work().push(c),
    {
        self.pending = Some(c);
    }

    /// The open command buffer was committed and runs on without being waited for. Without an open
    /// command buffer nothing happens.
    pub fn flush_async(&mut self)
        ensures
            final(self).pending is None,
            final(self).inflight@ == old(self).work(),
            final(self).work() == old(self).work(),
    {
        let mut open: Option<C> = None;
        core::mem::swap(&mut self.pending, &mut open);
        if let Some(c) = open {
            self.inflight.push(c);
        }
    }

    /// Takes out the oldest command buffers in flight so that at most `max_inflight` are left. They
    /// come back oldest first and have to be waited for.
    pub fn wait_inflight_at_most(&mut self, max_inflight: usize) -> (r: Vec<C>)
        ensures
            r@ + final(self).inflight@ == old(self).inflight@,
            final(self).inflight@.len() == (if old(self).inflight@.len() > max_inflight {
                max_inflight as nat
            } else {
                old(self).inflight@.len()
            }),
            final(self).pending == old(self).pending,
    {
        let mut r: Vec<C> = Vec::new();
        proof {
            assert(r@ + self.inflight@ =~= self.inflight@);
        }
        while self.inflight.len() > max_inflight
            invariant
                r@ + self.inflight@ == old(self).inflight@,
                old(self).inflight@.len() <= max_inflight ==> r@.len() == 0,
                old(self).inflight@.len() > max_inflight ==> self.inflight@.len() >= max_inflight,
                self.pending == old(self).pending,
            decreases self.inflight@.len(),
        {
            let ghost before = r@ + self.inflight@;
            let c = self.inflight.remove(0);
            r.push(c);
            proof {
                assert(r@ + self.inflight@ =~= before);
            }
        }
        r
    }

    /// Takes out the command buffers at the front that are completed already. `completed` says of
    /// each command buffer in flight, oldest first, whether it is.
    pub fn reap_completed(&mut self, completed: &Vec<bool>) -> (r: usize)
        requires
            completed@.len() == old(self).inflight@.len(),
        ensures
            r == completed_front(completed@),
            r <= old(self).inflight@.len(),
            final(self).inflight@ == old(self).inflight@.skip(r as int),
            final(self).pending == old(self).pending,
    {
        let mut n: usize = 0;
        proof {
            assert(self.inflight@ =~= self.inflight@.skip(0));
            assert(completed@ =~= completed@.skip(0));
        }
        while n < completed.len() && completed[n]
            invariant
                n <= completed@.len(),
                completed@.len() == old(self).inflight@.len(),
                self.inflight@ == old(self).inflight@.skip(n as int),
                self.pending == old(self).pending,
                completed_front(completed@) == n + completed_front(completed@.skip(n as int)),
            decreases completed@.len() - n,
        {
            proof {
                assert(completed@.skip(n as int).skip(1) =~= completed@.skip(n + 1));
                assert(self.inflight@.remove(0) =~= old(self).inflight@.skip(n + 1));
            }
            self.inflight.remove(0);
            n = n + 1;
        }
        n
    }

    /// Whether the encoder of the open command buffer has to be replaced, so that later dispatches
    /// wait for earlier ones.
    pub fn encoder_barrier(&self) -> (r: bool)
        ensures
            r == (self.pending is Some),
    {
        self.pending.is_some()
    }

    /// The open command buffer was committed, and all work is waited for: everything in flight
    /// comes back, oldest first, and nothing is left. As command buffers complete in order, the
    /// last one is enough to wait for.
    pub fn synchronize(&mut self) -> (r: Vec<C>)
        ensures
            r@ == old(self).work(),
            final(self).work().len() == 0,
            final(self).pending is None,
            final(self).inflight@.len() == 0,
    {
        self.flush_async();
        let mut all: Vec<C> = Vec::new();
        core::mem::swap(&mut self.inflight, &mut all);
        all
    }
}

/// With two buffers written in turn, waiting until one command buffer is left before each write
/// means that the write before last is no longer read: of the work opened so far only the newest
/// command buffer is unfinished.
pub proof fn lemma_two_buffers<C>(before: MetalContext<C>, done: Seq<C>, after: MetalContext<C>)
    requires
        before.pending is None,
        before.inflight@.len() > 0,
        done + after.inflight@ == before.inflight@,
        after.inflight@.len() == 1,
        after.pending == before.pending,
    ensures
        after.work() == seq![before.work().last()],
        done == before.work().drop_last(),
{
    assert(after.inflight@[0] == (done + after.inflight@).last());
    assert(after.work() =~= seq![before.work().last()]);
    assert(done =~= before.work().drop_last());
}

} // verus!
