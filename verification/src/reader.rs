//! A cursor over an in-memory byte buffer with big-endian fixed-width reads.
//!
//! Every read either yields the value the specification functions below
//! describe and advances the cursor, or yields nothing because the buffer is
//! exhausted and leaves the cursor where it was.

use vstd::prelude::*;
use vstd::slice::{slice_index_get, slice_subrange};

verus! {

/// One byte at `pos`, and the position after it.
pub open spec fn spec_read_u8(s: Seq<u8>, pos: int) -> Option<(u8, int)> {
    if 0 <= pos && pos + 1 <= s.len() {
        Some((s[pos], pos + 1))
    } else {
        None
    }
}

/// Two bytes at `pos` as a big-endian unsigned integer, and the position after them.
pub open spec fn spec_read_u16(s: Seq<u8>, pos: int) -> Option<(u16, int)> {
    if 0 <= pos && pos + 2 <= s.len() {
        Some((((s[pos] as int) * 0x100 + (s[pos + 1] as int)) as u16, pos + 2))
    } else {
        None
    }
}

/// Four bytes at `pos` as a big-endian unsigned integer, and the position after them.
pub open spec fn spec_read_u32(s: Seq<u8>, pos: int) -> Option<(u32, int)> {
    if 0 <= pos && pos + 4 <= s.len() {
        Some(
            (
                ((s[pos] as int) * 0x1000000 + (s[pos + 1] as int) * 0x10000 + (s[pos + 2] as int)
                    * 0x100 + (s[pos + 3] as int)) as u32,
                pos + 4,
            ),
        )
    } else {
        None
    }
}

/// Eight bytes at `pos` as a big-endian unsigned integer, and the position after them.
pub open spec fn spec_read_u64(s: Seq<u8>, pos: int) -> Option<(u64, int)> {
    if 0 <= pos && pos + 8 <= s.len() {
        Some(
            (
                ((s[pos] as int) * 0x100000000000000 + (s[pos + 1] as int) * 0x1000000000000 + (
                s[pos + 2] as int) * 0x10000000000 + (s[pos + 3] as int) * 0x100000000 + (s[pos
                    + 4] as int) * 0x1000000 + (s[pos + 5] as int) * 0x10000 + (s[pos + 6] as int)
                    * 0x100 + (s[pos + 7] as int)) as u64,
                pos + 8,
            ),
        )
    } else {
        None
    }
}

/// The `n` raw bytes starting at `pos`, and the position after them.
pub open spec fn spec_read_bytes(s: Seq<u8>, pos: int, n: int) -> Option<(Seq<u8>, int)> {
    if 0 <= pos && 0 <= n && pos + n <= s.len() {
        Some((s.subrange(pos, pos + n), pos + n))
    } else {
        None
    }
}

/// The position after skipping `n` bytes from `pos`.
pub open spec fn spec_skip(s: Seq<u8>, pos: int, n: int) -> Option<int> {
    if 0 <= pos && 0 <= n && pos + n <= s.len() {
        Some(pos + n)
    } else {
        None
    }
}

/// A read that succeeds on a prefix of a buffer reads the same value, and
/// lands on the same position, as the same read on the whole buffer.
pub proof fn lemma_read_u8_prefix(s: Seq<u8>, k: int, pos: int)
    requires
        0 <= k <= s.len(),
    ensures
        spec_read_u8(s.subrange(0, k), pos) is Some ==> spec_read_u8(s.subrange(0, k), pos)
            == spec_read_u8(s, pos),
{
}

/// A read that succeeds on a prefix of a buffer reads the same value, and
/// lands on the same position, as the same read on the whole buffer.
pub proof fn lemma_read_u16_prefix(s: Seq<u8>, k: int, pos: int)
    requires
        0 <= k <= s.len(),
    ensures
        spec_read_u16(s.subrange(0, k), pos) is Some ==> spec_read_u16(s.subrange(0, k), pos)
            == spec_read_u16(s, pos),
{
}

/// A read that succeeds on a prefix of a buffer reads the same value, and
/// lands on the same position, as the same read on the whole buffer.
pub proof fn lemma_read_u32_prefix(s: Seq<u8>, k: int, pos: int)
    requires
        0 <= k <= s.len(),
    ensures
        spec_read_u32(s.subrange(0, k), pos) is Some ==> spec_read_u32(s.subrange(0, k), pos)
            == spec_read_u32(s, pos),
{
}

/// A read that succeeds on a prefix of a buffer reads the same value, and
/// lands on the same position, as the same read on the whole buffer.
pub proof fn lemma_read_u64_prefix(s: Seq<u8>, k: int, pos: int)
    requires
        0 <= k <= s.len(),
    ensures
        spec_read_u64(s.subrange(0, k), pos) is Some ==> spec_read_u64(s.subrange(0, k), pos)
            == spec_read_u64(s, pos),
{
}

/// A raw-byte read that succeeds on a prefix of a buffer reads the same
/// bytes, and lands on the same position, as the same read on the whole
/// buffer.
pub proof fn lemma_read_bytes_prefix(s: Seq<u8>, k: int, pos: int, n: int)
    requires
        0 <= k <= s.len(),
    ensures
        spec_read_bytes(s.subrange(0, k), pos, n) is Some ==> spec_read_bytes(
            s.subrange(0, k),
            pos,
            n,
        ) == spec_read_bytes(s, pos, n),
{
    let p = s.subrange(0, k);
    if spec_read_bytes(p, pos, n) is Some {
        assert(p.subrange(pos, pos + n) =~= s.subrange(pos, pos + n));
    }
}

/// A skip that succeeds on a prefix of a buffer lands on the same position as
/// the same skip on the whole buffer.
pub proof fn lemma_skip_prefix(s: Seq<u8>, k: int, pos: int, n: int)
    requires
        0 <= k <= s.len(),
    ensures
        spec_skip(s.subrange(0, k), pos, n) is Some ==> spec_skip(s.subrange(0, k), pos, n)
            == spec_skip(s, pos, n),
{
}

/// A position within a borrowed byte buffer.
pub struct Reader<'a> {
    pub bytes: &'a [u8],
    pub pos: usize,
}

impl<'a> Reader<'a> {
    /// The cursor never stands past the end of the buffer.
    pub open spec fn wf(&self) -> bool {
        self.pos <= self.bytes@.len()
    }

    pub fn new(bytes: &'a [u8]) -> (r: Reader<'a>)
        ensures
            r.wf(),
            r.bytes@ == bytes@,
            r.pos == 0,
    {
        Reader { bytes, pos: 0 }
    }

    pub fn read_u8(&mut self) -> (r: Option<u8>)
        requires
            old(self).wf(),
        ensures
            final(self).wf(),
            final(self).bytes@ == old(self).bytes@,
            match spec_read_u8(old(self).bytes@, old(self).pos as int) {
                Some(vp) => r == Some(vp.0) && final(self).pos as int == vp.1,
                None => r is None && final(self).pos == old(self).pos,
            },
    {
        if self.bytes.len() - self.pos >= 1 {
            let b = *slice_index_get(self.bytes, self.pos);
            self.pos = self.pos + 1;
            Some(b)
        } else {
            None
        }
    }

    pub fn read_u16(&mut self) -> (r: Option<u16>)
        requires
            old(self).wf(),
        ensures
            final(self).wf(),
            final(self).bytes@ == old(self).bytes@,
            match spec_read_u16(old(self).bytes@, old(self).pos as int) {
                Some(vp) => r == Some(vp.0) && final(self).pos as int == vp.1,
                None => r is None && final(self).pos == old(self).pos,
            },
    {
        if self.bytes.len() - self.pos >= 2 {
            let b0 = *slice_index_get(self.bytes, self.pos);
            let b1 = *slice_index_get(self.bytes, self.pos + 1);
            self.pos = self.pos + 2;
            Some((b0 as u16) * 0x100 + (b1 as u16))
        } else {
            None
        }
    }

    pub fn read_u32(&mut self) -> (r: Option<u32>)
        requires
            old(self).wf(),
        ensures
            final(self).wf(),
            final(self).bytes@ == old(self).bytes@,
            match spec_read_u32(old(self).bytes@, old(self).pos as int) {
                Some(vp) => r == Some(vp.0) && final(self).pos as int == vp.1,
                None => r is None && final(self).pos == old(self).pos,
            },
    {
        if self.bytes.len() - self.pos >= 4 {
            let b0 = *slice_index_get(self.bytes, self.pos);
            let b1 = *slice_index_get(self.bytes, self.pos + 1);
            let b2 = *slice_index_get(self.bytes, self.pos + 2);
            let b3 = *slice_index_get(self.bytes, self.pos + 3);
            self.pos = self.pos + 4;
            Some((b0 as u32) * 0x1000000 + (b1 as u32) * 0x10000 + (b2 as u32) * 0x100 + (
            b3 as u32))
        } else {
            None
        }
    }

    pub fn read_u64(&mut self) -> (r: Option<u64>)
        requires
            old(self).wf(),
        ensures
            final(self).wf(),
            final(self).bytes@ == old(self).bytes@,
            match spec_read_u64(old(self).bytes@, old(self).pos as int) {
                Some(vp) => r == Some(vp.0) && final(self).pos as int == vp.1,
                None => r is None && final(self).pos == old(self).pos,
            },
    {
        if self.bytes.len() - self.pos >= 8 {
            let b0 = *slice_index_get(self.bytes, self.pos);
            let b1 = *slice_index_get(self.bytes, self.pos + 1);
            let b2 = *slice_index_get(self.bytes, self.pos + 2);
            let b3 = *slice_index_get(self.bytes, self.pos + 3);
            let b4 = *slice_index_get(self.bytes, self.pos + 4);
            let b5 = *slice_index_get(self.bytes, self.pos + 5);
            let b6 = *slice_index_get(self.bytes, self.pos + 6);
            let b7 = *slice_index_get(self.bytes, self.pos + 7);
            self.pos = self.pos + 8;
            Some((b0 as u64) * 0x100000000000000 + (b1 as u64) * 0x1000000000000 + (b2 as u64)
                * 0x10000000000 + (b3 as u64) * 0x100000000 + (b4 as u64) * 0x1000000 + (b5 as u64)
                * 0x10000 + (b6 as u64) * 0x100 + (b7 as u64))
        } else {
            None
        }
    }

    pub fn read_bytes(&mut self, n: usize) -> (r: Option<&'a [u8]>)
        requires
            old(self).wf(),
        ensures
            final(self).wf(),
            final(self).bytes@ == old(self).bytes@,
            match spec_read_bytes(old(self).bytes@, old(self).pos as int, n as int) {
                Some(vp) => r matches Some(b) && b@ == vp.0 && final(self).pos as int == vp.1,
                None => r is None && final(self).pos == old(self).pos,
            },
    {
        if self.bytes.len() - self.pos >= n {
            let b = slice_subrange(self.bytes, self.pos, self.pos + n);
            self.pos = self.pos + n;
            Some(b)
        } else {
            None
        }
    }

    pub fn skip(&mut self, n: usize) -> (r: bool)
        requires
            old(self).wf(),
        ensures
            final(self).wf(),
            final(self).bytes@ == old(self).bytes@,
            match spec_skip(old(self).bytes@, old(self).pos as int, n as int) {
                Some(p) => r && final(self).pos as int == p,
                None => !r && final(self).pos == old(self).pos,
            },
    {
        if self.bytes.len() - self.pos >= n {
            self.pos = self.pos + n;
            true
        } else {
            false
        }
    }
}

} // verus!
