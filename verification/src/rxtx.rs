//! Sources and sinks of buffer batches: a uniform pair of capabilities
//! for whatever produces or consumes packets, with stock implementations
//! over an in-memory vector and over any closure that yields a batch.
//! Both are best-effort and non-blocking: a source may hand back an empty
//! batch, and a sink takes ownership of whatever it is given.

use vstd::prelude::*;
use crate::mbuf::Mbuf;

verus! {

/// A source of buffer batches.
pub trait PacketRx: Sized {
    /// When the source may be polled.
    spec fn rx_wf(&self) -> bool;

    /// What one poll guarantees: how the batch and the source after the
    /// poll relate to the source before it.
    spec fn rx_post(pre: Self, post: Self, r: Vec<Mbuf>) -> bool;

    /// Returns the next batch of buffers; may be empty.
    fn receive(&mut self) -> (r: Vec<Mbuf>)
        requires
            old(self).rx_wf(),
        ensures
            final(self).rx_wf(),
            Self::rx_post(*old(self), *final(self), r),
    ;
}

/// A sink of buffer batches.
pub trait PacketTx: Sized {
    /// When the sink may be offered a batch.
    spec fn tx_wf(&self) -> bool;

    /// What handing over one batch guarantees.
    spec fn tx_post(pre: Self, post: Self, packets: Seq<Mbuf>) -> bool;

    /// Consumes a batch of buffers; on back-pressure an implementation
    /// may drop rather than block.
    fn transmit(&mut self, packets: Vec<Mbuf>)
        requires
            old(self).tx_wf(),
        ensures
            final(self).tx_wf(),
            Self::tx_post(*old(self), *final(self), packets@),
    ;
}

impl PacketRx for Vec<Mbuf> {
    /// An in-memory source can always be polled.
    open spec fn rx_wf(&self) -> bool {
        true
    }

    /// One poll drains the whole queue, in order.
    open spec fn rx_post(pre: Self, post: Self, r: Vec<Mbuf>) -> bool {
        r@ == pre@ && post@.len() == 0
    }

    /// Hands out every queued buffer, leaving the queue empty.
    fn receive(&mut self) -> (r: Vec<Mbuf>)
        ensures
            final(self).rx_wf(),
            Self::rx_post(*old(self), *final(self), r),
    {
        let mut out: Vec<Mbuf> = Vec::new();
        core::mem::swap(self, &mut out);
        out
    }
}

impl PacketTx for Vec<Mbuf> {
    /// An in-memory sink can always be offered a batch.
    open spec fn tx_wf(&self) -> bool {
        true
    }

    /// The batch is queued after what is already there, in order.
    open spec fn tx_post(pre: Self, post: Self, packets: Seq<Mbuf>) -> bool {
        post@ == pre@ + packets
    }

    /// Queues the batch at the tail.
    fn transmit(&mut self, packets: Vec<Mbuf>)
        ensures
            final(self).tx_wf(),
            Self::tx_post(*old(self), *final(self), packets@),
    {
        let mut incoming = packets;
        self.append(&mut incoming);
    }
}

/// A source that adapts any closure producing a batch of buffers.
pub struct PollRx<F> where F: Fn() -> Vec<Mbuf> {
    f: F,
}

impl<F> PollRx<F> where F: Fn() -> Vec<Mbuf> {
    /// Wraps a closure as a source. The closure must be callable without
    /// further preconditions, so that it can be polled again and again.
    pub fn new(f: F) -> (r: PollRx<F>)
        requires
            f.requires(()),
        ensures
            r.rx_wf(),
    {
        PollRx { f }
    }
}

impl<F> PacketRx for PollRx<F> where F: Fn() -> Vec<Mbuf> {
    /// The wrapped closure is callable.
    closed spec fn rx_wf(&self) -> bool {
        self.f.requires(())
    }

    /// The batch is whatever the closure promises of its result; the
    /// source itself does not change.
    closed spec fn rx_post(pre: Self, post: Self, r: Vec<Mbuf>) -> bool {
        pre.f.ensures((), r) && post == pre
    }

    /// Polls the closure once.
    fn receive(&mut self) -> (r: Vec<Mbuf>)
        ensures
            final(self).rx_wf(),
            Self::rx_post(*old(self), *final(self), r),
    {
        (self.f)()
    }
}

} // verus!
