//! Primitives for reading fixed-size little-endian records out of a byte
//! buffer: positioned single reads and a sequential cursor.
//!
//! Every reader is bounds-checked against the buffer; the cursor reports a
//! short read by returning `None` and leaving its position unchanged.

use vstd::prelude::*;

verus! {

use vstd::bytes::{spec_u16_from_le_bytes, spec_u32_from_le_bytes, spec_u64_from_le_bytes};
use vstd::bytes::{u16_from_le_bytes, u32_from_le_bytes, u64_from_le_bytes};
use vstd::slice::slice_subrange;

/// Reads the little-endian `u16` stored at `pos`.
pub fn read_u16_at(data: &[u8], pos: usize) -> (r: u16)
    requires
        pos + 2 <= data@.len(),
    ensures
        r == spec_u16_from_le_bytes(data@.subrange(pos as int, pos + 2)),
{
    let len = data.len();
    proof {
        assert(pos + 2 <= len);
    }
    u16_from_le_bytes(slice_subrange(data, pos, pos + 2))
}

/// Reads the little-endian `u32` stored at `pos`.
pub fn read_u32_at(data: &[u8], pos: usize) -> (r: u32)
    requires
        pos + 4 <= data@.len(),
    ensures
        r == spec_u32_from_le_bytes(data@.subrange(pos as int, pos + 4)),
{
    let len = data.len();
    proof {
        assert(pos + 4 <= len);
    }
    u32_from_le_bytes(slice_subrange(data, pos, pos + 4))
}

/// Reads the little-endian `u64` stored at `pos`.
pub fn read_u64_at(data: &[u8], pos: usize) -> (r: u64)
    requires
        pos + 8 <= data@.len(),
    ensures
        r == spec_u64_from_le_bytes(data@.subrange(pos as int, pos + 8)),
{
    let len = data.len();
    proof {
        assert(pos + 8 <= len);
    }
    u64_from_le_bytes(slice_subrange(data, pos, pos + 8))
}

/// A sequential cursor over a byte buffer. Reads advance the position; a
/// read past the end fails without moving it.
pub struct Stream<'a> {
    data: &'a [u8],
    pos: usize,
}

impl<'a> Stream<'a> {
    /// The underlying bytes.
    pub closed spec fn bytes(&self) -> Seq<u8> {
        self.data@
    }

    /// The current read position.
    pub closed spec fn pos(&self) -> int {
        self.pos as int
    }

    /// The position never runs past the end of the buffer.
    pub open spec fn wf(&self) -> bool {
        0 <= self.pos() <= self.bytes().len()
    }

    /// A cursor placed at `pos` inside `data`.
    pub fn new(data: &'a [u8], pos: usize) -> (r: Stream<'a>)
        requires
            pos <= data@.len(),
        ensures
            r.wf(),
            r.bytes() == data@,
            r.pos() == pos,
    {
        Stream { data, pos }
    }

    /// The current position, as a value.
    pub fn position(&self) -> (r: usize)
        ensures
            r == self.pos(),
    {
        self.pos
    }

    /// Reads one byte.
    pub fn read_u8(&mut self) -> (r: Option<u8>)
        requires
            old(self).wf(),
        ensures
            final(self).wf(),
            final(self).bytes() == old(self).bytes(),
            old(self).pos() + 1 <= final(self).bytes().len() ==> final(self).pos() == old(self).pos() + 1
                && r == Some(final(self).bytes()[old(self).pos()]),
            old(self).pos() + 1 > final(self).bytes().len() ==> r is None && final(self).pos() == old(
                self,
            ).pos(),
    {
        if self.data.len() - self.pos >= 1 {
            let b = self.data[self.pos];
            self.pos = self.pos + 1;
            Some(b)
        } else {
            None
        }
    }

    /// Reads a little-endian `u16`.
    pub fn read_u16(&mut self) -> (r: Option<u16>)
        requires
            old(self).wf(),
        ensures
            final(self).wf(),
            final(self).bytes() == old(self).bytes(),
            old(self).pos() + 2 <= final(self).bytes().len() ==> final(self).pos() == old(self).pos() + 2
                && r == Some(
                spec_u16_from_le_bytes(
                    final(self).bytes().subrange(old(self).pos(), old(self).pos() + 2),
                ),
            ),
            old(self).pos() + 2 > final(self).bytes().len() ==> r is None && final(self).pos() == old(
                self,
            ).pos(),
    {
        if self.data.len() - self.pos >= 2 {
            let v = read_u16_at(self.data, self.pos);
            self.pos = self.pos + 2;
            Some(v)
        } else {
            None
        }
    }

    /// Reads a little-endian `u32`.
    pub fn read_u32(&mut self) -> (r: Option<u32>)
        requires
            old(self).wf(),
        ensures
            final(self).wf(),
            final(self).bytes() == old(self).bytes(),
            old(self).pos() + 4 <= final(self).bytes().len() ==> final(self).pos() == old(self).pos() + 4
                && r == Some(
                spec_u32_from_le_bytes(
                    final(self).bytes().subrange(old(self).pos(), old(self).pos() + 4),
                ),
            ),
            old(self).pos() + 4 > final(self).bytes().len() ==> r is None && final(self).pos() == old(
                self,
            ).pos(),
    {
        if self.data.len() - self.pos >= 4 {
            let v = read_u32_at(self.data, self.pos);
            self.pos = self.pos + 4;
            Some(v)
        } else {
            None
        }
    }

    /// Reads a little-endian `u64`.
    pub fn read_u64(&mut self) -> (r: Option<u64>)
        requires
            old(self).wf(),
        ensures
            final(self).wf(),
            final(self).bytes() == old(self).bytes(),
            old(self).pos() + 8 <= final(self).bytes().len() ==> final(self).pos() == old(self).pos() + 8
                && r == Some(
                spec_u64_from_le_bytes(
                    final(self).bytes().subrange(old(self).pos(), old(self).pos() + 8),
                ),
            ),
            old(self).pos() + 8 > final(self).bytes().len() ==> r is None && final(self).pos() == old(
                self,
            ).pos(),
    {
        if self.data.len() - self.pos >= 8 {
            let v = read_u64_at(self.data, self.pos);
            self.pos = self.pos + 8;
            Some(v)
        } else {
            None
        }
    }
}

} // verus!
