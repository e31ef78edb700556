//! The message-buffer primitive: a safe, typed view over one linear byte
//! segment, supporting in-place insertion, truncation, and reads and writes
//! at arbitrary offsets measured from the start of the live data.

use vstd::prelude::*;

verus! {

/// Spare bytes kept ahead of the live data in a freshly allocated buffer,
/// mirroring the headroom network drivers reserve for prepended headers.
pub const MBUF_HEADROOM: usize = 128;

/// Bytes available for live data in a freshly allocated buffer.
pub const MBUF_DATAROOM: usize = 2048;

/// Byte-size reflection for fixed-layout header records. The size is used
/// for bound checks when reading and writing packet headers.
pub trait SizeOf {
    /// The byte size of the record, as a mathematical value.
    spec fn spec_size_of() -> usize;

    /// Returns the size of the record in bytes.
    fn size_of() -> (n: usize)
        ensures
            n == Self::spec_size_of(),
    ;
}

/// Error indicating buffer access failures.
#[derive(Clone, Copy, Debug, PartialEq, Eq, Structural)]
pub enum BufferError {
    /// The offset exceeds the buffer length; carries the offset and the
    /// buffer length.
    BadOffset(usize, usize),
    /// The buffer is not resized.
    NotResized,
    /// The requested size exceeds the remaining buffer length; carries the
    /// needed and the remaining byte counts.
    OutOfBuffer(usize, usize),
}

/// A message buffer that carries one network packet in a single linear
/// segment.
///
/// The segment is a fixed-size byte region; `data_off` and `data_len`
/// delimit the live data within it. Headroom is the space before the live
/// data, tailroom the space after it. The buffer owns its segment, so drop
/// releases the storage and clone copies it; multi-segment buffers are not
/// supported.
#[derive(Clone, Debug)]
pub struct Mbuf {
    buf: Vec<u8>,
    data_off: usize,
    data_len: usize,
}

impl View for Mbuf {
    type V = Seq<u8>;

    /// The live data carried by the buffer.
    closed spec fn view(&self) -> Seq<u8> {
        self.buf@.subrange(self.data_off as int, self.data_off + self.data_len)
    }
}

/// The live data with the bytes in `[offset, offset + len)` removed and the
/// tail shifted up: the result of a successful `shrink`.
pub open spec fn spec_shrink(d: Seq<u8>, offset: int, len: int) -> Seq<u8>
    recommends
        0 <= offset,
        0 <= len,
        offset + len <= d.len(),
{
    d.subrange(0, offset) + d.subrange(offset + len, d.len() as int)
}

/// Relates the live data before and after a successful `extend` at
/// `offset` by `len` bytes: the prefix is unchanged, the old bytes from
/// `offset` on reappear shifted down by `len`, and the opened gap keeps
/// the old bytes wherever it overlaps the old live data.
pub open spec fn spec_extended(pre: Seq<u8>, post: Seq<u8>, offset: int, len: int) -> bool {
    &&& post.len() == pre.len() + len
    &&& post.subrange(0, offset) == pre.subrange(0, offset)
    &&& post.subrange(offset + len, post.len() as int) == pre.subrange(offset, pre.len() as int)
    &&& forall|i: int|
        offset <= i < offset + len && i < pre.len() ==> post[i] == pre[i]
}

impl Mbuf {
    /// The buffer's bookkeeping is consistent: the live data lies within
    /// the segment, and the segment is small enough that every offset
    /// arithmetic below stays far from overflow.
    pub closed spec fn wf(&self) -> bool {
        &&& self.data_off + self.data_len <= self.buf@.len()
        &&& self.buf@.len() <= 0xffff
    }

    /// Bytes left in the segment after the live data.
    pub closed spec fn spec_tailroom(&self) -> int {
        self.buf@.len() - self.data_off - self.data_len
    }

    /// Bytes in the segment before the live data.
    pub closed spec fn spec_headroom(&self) -> int {
        self.data_off as int
    }

    /// Creates a new, empty message buffer.
    ///
    /// The buffer owns a fresh segment with the default dataroom and
    /// headroom. In this model the storage comes from the process heap
    /// rather than a driver pool, so allocation always succeeds; the
    /// `Result` keeps the shape of an allocating call.
    pub fn new() -> (r: Result<Mbuf, BufferError>)
        ensures
            r is Ok,
            r->Ok_0.wf(),
            r->Ok_0@ =~= Seq::<u8>::empty(),
            r->Ok_0.spec_tailroom() == MBUF_DATAROOM as int,
            r->Ok_0.spec_headroom() == MBUF_HEADROOM as int,
    {
        let buf: Vec<u8> = vec![0u8; MBUF_HEADROOM + MBUF_DATAROOM];
        let m = Mbuf { buf, data_off: MBUF_HEADROOM, data_len: 0 };
        Ok(m)
    }

    /// Creates a new message buffer holding a copy of the given bytes.
    ///
    /// Like the allocation it wraps, this fails for an empty slice and for
    /// data that does not leave the fresh buffer with spare tailroom.
    pub fn from_bytes(data: &[u8]) -> (r: Result<Mbuf, BufferError>)
        ensures
            r is Ok <==> 0 < data@.len() < MBUF_DATAROOM,
            r is Ok ==> {
                &&& r->Ok_0.wf()
                &&& r->Ok_0@ == data@
                &&& r->Ok_0.spec_tailroom() == MBUF_DATAROOM - data@.len()
                &&& r->Ok_0.spec_headroom() == MBUF_HEADROOM as int
            },
            r is Err ==> r->Err_0 == BufferError::NotResized,
    {
        let mut mbuf = Mbuf::new()?;
        mbuf.extend(0, data.len())?;
        mbuf.write_data_slice(0, data)?;
        Ok(mbuf)
    }

    /// Returns the amount of live data stored in the buffer.
    pub fn data_len(&self) -> (n: usize)
        requires
            self.wf(),
        ensures
            n == self@.len(),
    {
        self.data_len
    }

    /// Returns the amount of bytes left in the segment after the live data.
    pub fn tailroom(&self) -> (n: usize)
        requires
            self.wf(),
        ensures
            n == self.spec_tailroom(),
    {
        self.buf.len() - self.data_off - self.data_len
    }

    /// Extends the live data at `offset` by `len` bytes.
    ///
    /// If the offset is not at the end of the data, the data from the
    /// offset on is shifted down to make room; the opened gap keeps the
    /// bytes that were there. Fails, leaving the buffer untouched, when
    /// `len` is zero, the offset lies past the data, or `len` does not
    /// leave spare tailroom.
    pub fn extend(&mut self, offset: usize, len: usize) -> (r: Result<(), BufferError>)
        requires
            old(self).wf(),
        ensures
            final(self).wf(),
            r is Ok <==> 0 < len && offset <= old(self)@.len() && len < old(self).spec_tailroom(),
            r is Err ==> *final(self) == *old(self) && r->Err_0 == BufferError::NotResized,
            r is Ok ==> spec_extended(old(self)@, final(self)@, offset as int, len as int),
            r is Ok ==> final(self).spec_tailroom() == old(self).spec_tailroom() - len,
            final(self).spec_headroom() == old(self).spec_headroom(),
    {
        if len == 0 || offset > self.data_len || len >= self.tailroom() {
            return Err(BufferError::NotResized);
        }

        // shift the data at the offset down to make room, copying from the
        // tail so that each byte is read before it is overwritten
        let g = self.data_off;
        let mut j: usize = self.data_len;
        while j > offset
            invariant
                offset <= j <= self.data_len,
                self.data_off == old(self).data_off,
                self.data_len == old(self).data_len,
                g == self.data_off,
                self.buf@.len() == old(self).buf@.len(),
                old(self).wf(),
                g + self.data_len + len <= self.buf@.len(),
                forall|k: int| 0 <= k < g + j + len ==> self.buf@[k] == old(self).buf@[k],
                forall|k: int|
                    g + j + len <= k < g + self.data_len + len ==> self.buf@[k] == old(
                        self,
                    ).buf@[k - len],
                forall|k: int|
                    g + self.data_len + len <= k < self.buf@.len() ==> self.buf@[k] == old(
                        self,
                    ).buf@[k],
            decreases j,
        {
            j = j - 1;
            let b = self.buf[g + j];
            self.buf[g + j + len] = b;
        }
        self.data_len = self.data_len + len;

        proof {
            let pre = old(self)@;
            let post = self@;
            let o = offset as int;
            let l = len as int;
            assert(post.subrange(0, o) =~= pre.subrange(0, o));
            assert(post.subrange(o + l, post.len() as int) =~= pre.subrange(o, pre.len() as int));
        }
        Ok(())
    }

    /// Shrinks the live data at `offset` by `len` bytes.
    ///
    /// The data after the removed range is shifted up. Fails, leaving the
    /// buffer untouched, when `len` is zero or the range does not lie
    /// within the data.
    pub fn shrink(&mut self, offset: usize, len: usize) -> (r: Result<(), BufferError>)
        requires
            old(self).wf(),
        ensures
            final(self).wf(),
            r is Ok <==> 0 < len && offset + len <= old(self)@.len(),
            r is Err ==> *final(self) == *old(self) && r->Err_0 == BufferError::NotResized,
            r is Ok ==> final(self)@ == spec_shrink(old(self)@, offset as int, len as int),
            r is Ok ==> final(self).spec_tailroom() == old(self).spec_tailroom() + len,
            final(self).spec_headroom() == old(self).spec_headroom(),
    {
        if len == 0 || len > self.data_len || offset > self.data_len - len {
            return Err(BufferError::NotResized);
        }

        // shift the data after the removed range up to fill the room
        let g = self.data_off;
        let keep = self.data_len - len;
        let mut j: usize = offset;
        while j < keep
            invariant
                offset <= j <= keep,
                keep == self.data_len - len,
                offset + len <= self.data_len,
                self.data_off == old(self).data_off,
                self.data_len == old(self).data_len,
                g == self.data_off,
                self.buf@.len() == old(self).buf@.len(),
                old(self).wf(),
                forall|k: int| 0 <= k < g + offset ==> self.buf@[k] == old(self).buf@[k],
                forall|k: int|
                    g + offset <= k < g + j ==> self.buf@[k] == old(self).buf@[k + len],
                forall|k: int| g + j <= k < self.buf@.len() ==> self.buf@[k] == old(self).buf@[k],
            decreases keep - j,
        {
            let b = self.buf[g + j + len];
            self.buf[g + j] = b;
            j = j + 1;
        }
        self.data_len = keep;

        proof {
            assert(self@ =~= spec_shrink(old(self)@, offset as int, len as int));
        }
        Ok(())
    }

    /// Resizes the live data at `offset` by a signed amount: a negative
    /// `len` shrinks, a positive one extends. On success the data length
    /// changes by exactly `len` and the bytes before `offset` are
    /// unchanged.
    pub fn resize(&mut self, offset: usize, len: isize) -> (r: Result<(), BufferError>)
        requires
            old(self).wf(),
        ensures
            final(self).wf(),
            r is Err ==> *final(self) == *old(self) && r->Err_0 == BufferError::NotResized,
            r is Ok ==> final(self)@.len() == old(self)@.len() + len,
            r is Ok ==> final(self)@.subrange(0, offset as int) == old(self)@.subrange(
                0,
                offset as int,
            ),
            len < 0 ==> (r is Ok <==> offset + (-(len as int)) <= old(self)@.len()),
            len < 0 ==> (r is Ok ==> final(self)@ == spec_shrink(
                old(self)@,
                offset as int,
                -(len as int),
            )),
            len >= 0 ==> (r is Ok <==> 0 < len && offset <= old(self)@.len() && len < old(
                self,
            ).spec_tailroom()),
            len >= 0 ==> (r is Ok ==> spec_extended(
                old(self)@,
                final(self)@,
                offset as int,
                len as int,
            )),
            r is Ok ==> final(self).spec_tailroom() == old(self).spec_tailroom() - len,
            final(self).spec_headroom() == old(self).spec_headroom(),
    {
        if len < 0 {
            // magnitude of `len`, computed without overflowing `isize`
            let mag: usize = ((-(len + 1)) as usize) + 1;
            let r = self.shrink(offset, mag);
            proof {
                if r is Ok {
                    assert(final(self)@.subrange(0, offset as int) =~= old(self)@.subrange(
                        0,
                        offset as int,
                    ));
                }
            }
            r
        } else {
            self.extend(offset, len as usize)
        }
    }

    /// Truncates the live data to `to_len` bytes. Succeeds only when
    /// `to_len` is strictly less than the current data length.
    pub fn truncate(&mut self, to_len: usize) -> (r: Result<(), BufferError>)
        requires
            old(self).wf(),
        ensures
            final(self).wf(),
            r is Ok <==> to_len < old(self)@.len(),
            r is Err ==> *final(self) == *old(self) && r->Err_0 == BufferError::NotResized,
            r is Ok ==> final(self)@ == old(self)@.subrange(0, to_len as int),
            r is Ok ==> final(self).spec_tailroom() == old(self).spec_tailroom() + (old(
                self,
            )@.len() - to_len),
            final(self).spec_headroom() == old(self).spec_headroom(),
    {
        if to_len >= self.data_len {
            return Err(BufferError::NotResized);
        }
        self.data_len = to_len;
        proof {
            assert(self@ =~= old(self)@.subrange(0, to_len as int));
        }
        Ok(())
    }

    /// Reads `count` bytes at `offset` and returns them as a fresh vector.
    pub fn read_data_slice(&self, offset: usize, count: usize) -> (r: Result<
        Vec<u8>,
        BufferError,
    >)
        requires
            self.wf(),
        ensures
            r is Ok <==> offset < self@.len() && offset + count <= self@.len(),
            r is Ok ==> r->Ok_0@ == self@.subrange(offset as int, offset + count),
            offset >= self@.len() ==> r->Err_0 == BufferError::BadOffset(
                offset,
                self@.len() as usize,
            ),
            r is Err && offset < self@.len() ==> r->Err_0 == BufferError::OutOfBuffer(
                count,
                (self@.len() - offset) as usize,
            ),
    {
        if offset >= self.data_len {
            return Err(BufferError::BadOffset(offset, self.data_len));
        }
        if count > self.data_len - offset {
            return Err(BufferError::OutOfBuffer(count, self.data_len - offset));
        }
        let mut out: Vec<u8> = Vec::new();
        let mut j: usize = 0;
        while j < count
            invariant
                j <= count,
                offset + count <= self.data_len,
                self.wf(),
                out@.len() == j,
                forall|k: int| 0 <= k < j ==> out@[k] == self@[offset + k],
            decreases count - j,
        {
            let b = self.buf[self.data_off + offset + j];
            out.push(b);
            j = j + 1;
        }
        proof {
            assert(out@ =~= self@.subrange(offset as int, offset + count));
        }
        Ok(out)
    }

    /// Writes the given bytes into the live data at `offset`. The range
    /// must already exist: callers extend the buffer first.
    pub fn write_data_slice(&mut self, offset: usize, slice: &[u8]) -> (r: Result<
        (),
        BufferError,
    >)
        requires
            old(self).wf(),
        ensures
            final(self).wf(),
            r is Ok <==> offset + slice@.len() <= old(self)@.len(),
            r is Err ==> *final(self) == *old(self) && r->Err_0 == BufferError::OutOfBuffer(
                slice@.len() as usize,
                if offset <= old(self)@.len() {
                    (old(self)@.len() - offset) as usize
                } else {
                    0
                },
            ),
            r is Ok ==> final(self)@ == old(self)@.subrange(0, offset as int) + slice@ + old(
                self,
            )@.subrange(offset + slice@.len(), old(self)@.len() as int),
            final(self).spec_tailroom() == old(self).spec_tailroom(),
            final(self).spec_headroom() == old(self).spec_headroom(),
    {
        let count = slice.len();
        if count > self.data_len || offset > self.data_len - count {
            let rem: usize = if offset <= self.data_len {
                self.data_len - offset
            } else {
                0
            };
            return Err(BufferError::OutOfBuffer(count, rem));
        }
        let g = self.data_off;
        let mut j: usize = 0;
        while j < count
            invariant
                j <= count,
                offset + count <= self.data_len,
                self.data_off == old(self).data_off,
                self.data_len == old(self).data_len,
                g == self.data_off,
                self.buf@.len() == old(self).buf@.len(),
                old(self).wf(),
                count == slice@.len(),
                forall|k: int| 0 <= k < g + offset ==> self.buf@[k] == old(self).buf@[k],
                forall|k: int|
                    g + offset <= k < g + offset + j ==> self.buf@[k] == slice@[k - g - offset],
                forall|k: int|
                    g + offset + j <= k < self.buf@.len() ==> self.buf@[k] == old(self).buf@[k],
            decreases count - j,
        {
            let b = slice[j];
            self.buf[g + offset + j] = b;
            j = j + 1;
        }
        proof {
            assert(self@ =~= old(self)@.subrange(0, offset as int) + slice@ + old(
                self,
            )@.subrange(offset + slice@.len(), old(self)@.len() as int));
        }
        Ok(())
    }

    /// Reads the byte at `offset` within the live data.
    pub fn read_u8(&self, offset: usize) -> (b: u8)
        requires
            self.wf(),
            offset < self@.len(),
        ensures
            b == self@[offset as int],
    {
        self.buf[self.data_off + offset]
    }

    /// Writes one byte at `offset` within the live data.
    pub fn write_u8(&mut self, offset: usize, v: u8)
        requires
            old(self).wf(),
            offset < old(self)@.len(),
        ensures
            final(self).wf(),
            final(self)@ == old(self)@.update(offset as int, v),
            final(self).spec_tailroom() == old(self).spec_tailroom(),
            final(self).spec_headroom() == old(self).spec_headroom(),
    {
        self.buf[self.data_off + offset] = v;
        proof {
            assert(self@ =~= old(self)@.update(offset as int, v));
        }
    }

    /// Reads the big-endian 16-bit word at `offset` within the live data.
    pub fn read_u16(&self, offset: usize) -> (v: u16)
        requires
            self.wf(),
            offset + 2 <= self@.len(),
        ensures
            v as int == be16(self@, offset as int),
    {
        let hi = self.buf[self.data_off + offset];
        let lo = self.buf[self.data_off + offset + 1];
        (hi as u16) * 256 + (lo as u16)
    }

    /// Writes a 16-bit word big-endian at `offset` within the live data.
    pub fn write_u16(&mut self, offset: usize, v: u16)
        requires
            old(self).wf(),
            offset + 2 <= old(self)@.len(),
        ensures
            final(self).wf(),
            final(self)@ == put16(old(self)@, offset as int, v as int),
            be16(final(self)@, offset as int) == v,
            final(self).spec_tailroom() == old(self).spec_tailroom(),
            final(self).spec_headroom() == old(self).spec_headroom(),
    {
        self.write_u8(offset, (v / 256) as u8);
        self.write_u8(offset + 1, (v % 256) as u8);
    }

    /// Reads the big-endian 32-bit word at `offset` within the live data.
    pub fn read_u32(&self, offset: usize) -> (v: u32)
        requires
            self.wf(),
            offset + 4 <= self@.len(),
        ensures
            v as int == be32(self@, offset as int),
    {
        let b0 = self.buf[self.data_off + offset];
        let b1 = self.buf[self.data_off + offset + 1];
        let b2 = self.buf[self.data_off + offset + 2];
        let b3 = self.buf[self.data_off + offset + 3];
        (b0 as u32) * 0x1000000 + (b1 as u32) * 0x10000 + (b2 as u32) * 0x100 + (b3 as u32)
    }

    /// Writes a 32-bit word big-endian at `offset` within the live data.
    pub fn write_u32(&mut self, offset: usize, v: u32)
        requires
            old(self).wf(),
            offset + 4 <= old(self)@.len(),
        ensures
            final(self).wf(),
            final(self)@.len() == old(self)@.len(),
            be32(final(self)@, offset as int) == v,
            forall|k: int|
                0 <= k < old(self)@.len() && !(offset <= k < offset + 4) ==> final(self)@[k]
                    == old(self)@[k],
            final(self).spec_tailroom() == old(self).spec_tailroom(),
            final(self).spec_headroom() == old(self).spec_headroom(),
    {
        self.write_u8(offset, (v / 0x1000000) as u8);
        self.write_u8(offset + 1, ((v / 0x10000) % 256) as u8);
        self.write_u8(offset + 2, ((v / 0x100) % 256) as u8);
        self.write_u8(offset + 3, (v % 256) as u8);
    }

    /// Allocates a vector of `len` fresh, empty message buffers.
    pub fn alloc_bulk(len: usize) -> (r: Result<Vec<Mbuf>, BufferError>)
        ensures
            r is Ok,
            r->Ok_0@.len() == len,
            forall|i: int|
                0 <= i < len ==> {
                    &&& (#[trigger] r->Ok_0@[i]).wf()
                    &&& r->Ok_0@[i]@ =~= Seq::<u8>::empty()
                    &&& r->Ok_0@[i].spec_tailroom() == MBUF_DATAROOM as int
                },
    {
        let mut out: Vec<Mbuf> = Vec::new();
        let mut j: usize = 0;
        while j < len
            invariant
                j <= len,
                out@.len() == j,
                forall|i: int|
                    0 <= i < j ==> {
                        &&& (#[trigger] out@[i]).wf()
                        &&& out@[i]@ =~= Seq::<u8>::empty()
                        &&& out@[i].spec_tailroom() == MBUF_DATAROOM as int
                    },
            decreases len - j,
        {
            match Mbuf::new() {
                Ok(m) => out.push(m),
                Err(_) => {
                    return Err(BufferError::NotResized);
                },
            }
            j = j + 1;
        }
        Ok(out)
    }
}

/// The big-endian 16-bit word formed by the two bytes at `i` in `d`.
pub open spec fn be16(d: Seq<u8>, i: int) -> int
    recommends
        0 <= i,
        i + 2 <= d.len(),
{
    256 * (d[i] as int) + (d[i + 1] as int)
}

/// `d` with the two bytes at `i` replaced by the big-endian form of `v`.
pub open spec fn put16(d: Seq<u8>, i: int, v: int) -> Seq<u8>
    recommends
        0 <= i,
        i + 2 <= d.len(),
        0 <= v < 0x10000,
{
    d.update(i, (v / 256) as u8).update(i + 1, (v % 256) as u8)
}

/// The big-endian 32-bit word formed by the four bytes at `i` in `d`.
pub open spec fn be32(d: Seq<u8>, i: int) -> int
    recommends
        0 <= i,
        i + 4 <= d.len(),
{
    0x1000000 * (d[i] as int) + 0x10000 * (d[i + 1] as int) + 0x100 * (d[i + 2] as int) + (d[i
        + 3] as int)
}

/// A well-formed buffer is small: its live data, headroom and tailroom all
/// fit comfortably below every offset computation's overflow bound.
pub broadcast proof fn lemma_wf_bounds(m: Mbuf)
    requires
        #[trigger] m.wf(),
    ensures
        m@.len() <= 0xffff,
        0 <= m.spec_tailroom() <= 0xffff,
        0 <= m.spec_headroom() <= 0xffff,
        m@.len() + m.spec_tailroom() + m.spec_headroom() <= 0xffff,
{
}

/// Extending a buffer at `offset` by `len` bytes and then shrinking it at
/// the same offset by the same amount restores the live data byte for
/// byte, whatever bytes the extension left in the opened gap.
pub proof fn lemma_extend_then_shrink(pre: Seq<u8>, mid: Seq<u8>, offset: int, len: int)
    requires
        0 <= offset <= pre.len(),
        0 < len,
        spec_extended(pre, mid, offset, len),
    ensures
        spec_shrink(mid, offset, len) == pre,
{
    assert(spec_shrink(mid, offset, len) =~= pre);
}

} // verus!
