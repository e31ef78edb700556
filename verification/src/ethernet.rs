//! The Ethernet II layer: the outermost view over a buffer, with
//! destination and source hardware addresses and an ethertype that names
//! the enclosed layer.

use vstd::prelude::*;
use crate::errors::PacketError;
use crate::mac::MacAddr;
use crate::mbuf::{be16, BufferError, Mbuf};

verus! {

broadcast use crate::mbuf::lemma_wf_bounds;

/// Bytes of an Ethernet II header: two addresses and the ethertype.
pub const ETHERNET_HEADER_LEN: usize = 14;

/// Ethertype of an enclosed IPv4 layer.
pub const ETHER_TYPE_IPV4: u16 = 0x0800;

/// Ethertype of an enclosed IPv6 layer.
pub const ETHER_TYPE_IPV6: u16 = 0x86DD;

/// Ethertype of a VLAN tag; preserved but not inspected here.
pub const ETHER_TYPE_VLAN: u16 = 0x8100;

/// An Ethernet frame fits in the live data from `offset` 0: the 14-byte
/// header is present; the body runs to the end of the buffer.
pub open spec fn ethernet_hdr_wf(d: Seq<u8>) -> bool {
    d.len() >= 14
}

/// An Ethernet frame: a typed view over a whole buffer, with the header at
/// offset 0 and the body running to the end of the live data.
#[derive(Debug)]
pub struct Ethernet {
    mbuf: Mbuf,
}

impl View for Ethernet {
    type V = Seq<u8>;

    /// The live data of the underlying buffer.
    closed spec fn view(&self) -> Seq<u8> {
        self.mbuf@
    }
}

impl Ethernet {
    /// The underlying buffer's bookkeeping is consistent.
    pub closed spec fn buf_wf(&self) -> bool {
        self.mbuf.wf()
    }

    /// Tailroom of the underlying buffer.
    pub closed spec fn spec_tailroom(&self) -> int {
        self.mbuf.spec_tailroom()
    }

    /// Headroom of the underlying buffer.
    pub closed spec fn spec_headroom(&self) -> int {
        self.mbuf.spec_headroom()
    }

    /// A well-formed frame view: a consistent buffer whose live data holds
    /// at least the Ethernet header.
    pub open spec fn wf(&self) -> bool {
        &&& self.buf_wf()
        &&& ethernet_hdr_wf(self@)
    }

    /// Wraps a buffer known to hold an Ethernet header.
    pub(crate) fn attach(mbuf: Mbuf) -> (r: Ethernet)
        requires
            mbuf.wf(),
            ethernet_hdr_wf(mbuf@),
        ensures
            r.wf(),
            r@ == mbuf@,
            r.spec_tailroom() == mbuf.spec_tailroom(),
            r.spec_headroom() == mbuf.spec_headroom(),
    {
        Ethernet { mbuf }
    }

    /// Validates the buffer's live data as an Ethernet frame. Succeeds
    /// exactly when the 14-byte header is present; the buffer is never
    /// changed.
    pub fn parse(mbuf: Mbuf) -> (r: Result<Ethernet, PacketError>)
        requires
            mbuf.wf(),
        ensures
            r is Ok <==> ethernet_hdr_wf(mbuf@),
            r is Ok ==> {
                &&& r->Ok_0.wf()
                &&& r->Ok_0@ == mbuf@
                &&& r->Ok_0.spec_tailroom() == mbuf.spec_tailroom()
                &&& r->Ok_0.spec_headroom() == mbuf.spec_headroom()
            },
            r is Err ==> r->Err_0 is Buffer,
    {
        if mbuf.data_len() < ETHERNET_HEADER_LEN {
            if mbuf.data_len() == 0 {
                return Err(PacketError::Buffer(BufferError::BadOffset(0, 0)));
            }
            let rem = mbuf.data_len();
            return Err(PacketError::Buffer(BufferError::OutOfBuffer(ETHERNET_HEADER_LEN, rem)));
        }
        Ok(Ethernet { mbuf })
    }

    /// Prepends a default Ethernet header — zero addresses, zero ethertype
    /// — to the buffer's live data. Succeeds exactly when the header fits
    /// the spare tailroom.
    pub fn push(mbuf: Mbuf) -> (r: Result<Ethernet, PacketError>)
        requires
            mbuf.wf(),
        ensures
            r is Ok <==> ETHERNET_HEADER_LEN < mbuf.spec_tailroom(),
            r is Ok ==> {
                &&& r->Ok_0.wf()
                &&& r->Ok_0@.len() == mbuf@.len() + 14
                &&& r->Ok_0@.subrange(0, 14) =~= Seq::new(14, |i: int| 0u8)
                &&& r->Ok_0@.subrange(14, r->Ok_0@.len() as int) == mbuf@
                &&& r->Ok_0.spec_tailroom() == mbuf.spec_tailroom() - 14
                &&& r->Ok_0.spec_headroom() == mbuf.spec_headroom()
            },
            r is Err ==> r->Err_0 is Buffer,
    {
        let ghost orig = mbuf@;
        let ghost orig_tail = mbuf.spec_tailroom();
        let ghost orig_head = mbuf.spec_headroom();
        let mut m = mbuf;
        match m.extend(0, ETHERNET_HEADER_LEN) {
            Ok(_) => {},
            Err(e) => {
                return Err(PacketError::Buffer(e));
            },
        }
        proof {
            assert(m@.subrange(14, m@.len() as int) == orig.subrange(0, orig.len() as int));
            assert(orig.subrange(0, orig.len() as int) =~= orig);
        }
        let mut j: usize = 0;
        while j < ETHERNET_HEADER_LEN
            invariant
                j <= 14,
                m.wf(),
                m@.len() >= 14,
                m@.len() == orig.len() + 14,
                m@.subrange(14, m@.len() as int) == orig,
                forall|k: int| 0 <= k < j ==> m@[k] == 0u8,
                m.spec_tailroom() == orig_tail - 14,
                m.spec_headroom() == orig_head,
            decreases 14 - j,
        {
            let ghost pre = m@;
            m.write_u8(j, 0);
            proof {
                assert(m@.subrange(14, m@.len() as int) =~= pre.subrange(14, pre.len() as int));
            }
            j = j + 1;
        }
        Ok(Ethernet { mbuf: m })
    }

    /// Removes the Ethernet header, returning the raw buffer whose live
    /// data is the frame's former body.
    pub fn remove(self) -> (r: Result<Mbuf, PacketError>)
        requires
            self.wf(),
        ensures
            r is Ok,
            r->Ok_0.wf(),
            r->Ok_0@ == self@.subrange(14, self@.len() as int),
            r->Ok_0.spec_tailroom() == self.spec_tailroom() + 14,
            r->Ok_0.spec_headroom() == self.spec_headroom(),
    {
        let ghost orig = self@;
        let mut m = self.mbuf;
        let res = m.shrink(0, ETHERNET_HEADER_LEN);
        proof {
            assert(res is Ok);
            assert(m@ =~= orig.subrange(14, orig.len() as int));
        }
        Ok(m)
    }

    /// Returns the underlying buffer without further change.
    pub fn deparse(self) -> (r: Mbuf)
        ensures
            r@ == self@,
            self.buf_wf() ==> r.wf(),
            r.spec_tailroom() == self.spec_tailroom(),
            r.spec_headroom() == self.spec_headroom(),
    {
        self.mbuf
    }

    /// Returns the raw buffer; for the outermost layer this is `deparse`.
    pub fn reset(self) -> (r: Mbuf)
        ensures
            r@ == self@,
            self.buf_wf() ==> r.wf(),
            r.spec_tailroom() == self.spec_tailroom(),
            r.spec_headroom() == self.spec_headroom(),
    {
        self.mbuf
    }

    /// Byte position of the Ethernet header: the frame is outermost.
    pub fn offset(&self) -> (r: usize)
        ensures
            r == 0,
    {
        0
    }

    /// Bytes of the Ethernet header.
    pub fn header_len(&self) -> (r: usize)
        ensures
            r == 14,
    {
        ETHERNET_HEADER_LEN
    }

    /// Bytes from the header to the end of the frame's body: an Ethernet
    /// frame runs to the end of the buffer.
    pub fn len(&self) -> (r: usize)
        requires
            self.wf(),
        ensures
            r == self@.len(),
    {
        self.mbuf.data_len()
    }

    /// Byte position of the frame's body.
    pub fn payload_offset(&self) -> (r: usize)
        ensures
            r == 14,
    {
        ETHERNET_HEADER_LEN
    }

    /// Bytes of the frame's body.
    pub fn payload_len(&self) -> (r: usize)
        requires
            self.wf(),
        ensures
            r == self@.len() - 14,
    {
        self.mbuf.data_len() - ETHERNET_HEADER_LEN
    }

    /// The destination hardware address.
    pub fn dst(&self) -> (r: MacAddr)
        requires
            self.wf(),
        ensures
            r@ == self@.subrange(0, 6),
    {
        MacAddr::read(&self.mbuf, 0)
    }

    /// Sets the destination hardware address.
    pub fn set_dst(&mut self, dst: MacAddr)
        requires
            old(self).wf(),
        ensures
            final(self).wf(),
            final(self)@.len() == old(self)@.len(),
            final(self)@.subrange(0, 6) == dst@,
            forall|k: int|
                6 <= k < old(self)@.len() ==> final(self)@[k] == old(self)@[k],
            final(self).spec_tailroom() == old(self).spec_tailroom(),
            final(self).spec_headroom() == old(self).spec_headroom(),
    {
        dst.write(&mut self.mbuf, 0);
    }

    /// The source hardware address.
    pub fn src(&self) -> (r: MacAddr)
        requires
            self.wf(),
        ensures
            r@ == self@.subrange(6, 12),
    {
        MacAddr::read(&self.mbuf, 6)
    }

    /// Sets the source hardware address.
    pub fn set_src(&mut self, src: MacAddr)
        requires
            old(self).wf(),
        ensures
            final(self).wf(),
            final(self)@.len() == old(self)@.len(),
            final(self)@.subrange(6, 12) == src@,
            forall|k: int|
                0 <= k < old(self)@.len() && !(6 <= k < 12) ==> final(self)@[k] == old(self)@[k],
            final(self).spec_tailroom() == old(self).spec_tailroom(),
            final(self).spec_headroom() == old(self).spec_headroom(),
    {
        src.write(&mut self.mbuf, 6);
    }

    /// The ethertype naming the enclosed layer.
    pub fn ether_type(&self) -> (r: u16)
        requires
            self.wf(),
        ensures
            r as int == be16(self@, 12),
    {
        self.mbuf.read_u16(12)
    }

    /// Sets the ethertype naming the enclosed layer.
    pub fn set_ether_type(&mut self, v: u16)
        requires
            old(self).wf(),
        ensures
            final(self).wf(),
            final(self)@.len() == old(self)@.len(),
            be16(final(self)@, 12) == v,
            forall|k: int|
                0 <= k < old(self)@.len() && !(12 <= k < 14) ==> final(self)@[k] == old(
                    self,
                )@[k],
            final(self).spec_tailroom() == old(self).spec_tailroom(),
            final(self).spec_headroom() == old(self).spec_headroom(),
    {
        self.mbuf.write_u16(12, v);
    }

    /// Recomputes the lengths and checksums this layer owns: an Ethernet
    /// header carries neither, so the frame is left unchanged.
    pub fn cascade(&mut self)
        requires
            old(self).wf(),
        ensures
            *final(self) == *old(self),
    {
    }
}

} // verus!
