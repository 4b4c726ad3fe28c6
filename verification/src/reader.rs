//! Little endian reader over an SPB byte stream.

use vstd::prelude::*;

use crate::error::{Error, ErrorView};

verus! {

/// Unsigned little endian value of the two bytes at `p`.
pub open spec fn u16_at(d: Seq<u8>, p: int) -> int {
    d[p] as int + 256 * (d[p + 1] as int)
}

/// Unsigned little endian value of the four bytes at `p`.
pub open spec fn u32_at(d: Seq<u8>, p: int) -> int {
    u16_at(d, p) + 65536 * u16_at(d, p + 2)
}

/// Two's complement little endian value of the four bytes at `p`.
pub open spec fn i32_at(d: Seq<u8>, p: int) -> int {
    let u = u32_at(d, p);
    if u >= 0x8000_0000 {
        u - 0x1_0000_0000
    } else {
        u
    }
}

/// Unsigned little endian value of the eight bytes at `p`.
pub open spec fn u64_at(d: Seq<u8>, p: int) -> int {
    u32_at(d, p) + 0x1_0000_0000 * u32_at(d, p + 4)
}

/// Two's complement little endian value of the eight bytes at `p`.
pub open spec fn i64_at(d: Seq<u8>, p: int) -> int {
    let u = u64_at(d, p);
    if u >= 0x8000_0000_0000_0000 {
        u - 0x1_0000_0000_0000_0000
    } else {
        u
    }
}

/// Message of the error raised when a read runs past the end of the data.
pub open spec fn eof_message() -> Seq<char> {
    "unexpected end of SPB data"@
}

/// The error raised when a read runs past the end of the data.
pub fn eof_error() -> (e: Error)
    ensures
        e@ == ErrorView::Format(eof_message()),
{
    Error::Format(String::from_str("unexpected end of SPB data"))
}

/// A cursor over a byte slice that reads little endian values.
pub struct Reader<'a> {
    pub data: &'a [u8],
    pub pos: usize,
}

impl<'a> Reader<'a> {
    /// Whether `n` bytes are available from the current position.
    pub open spec fn has(&self, n: int) -> bool {
        self.pos + n <= self.data@.len()
    }

    /// A reader at the start of `data`.
    pub fn new(data: &'a [u8]) -> (r: Reader<'a>)
        ensures
            r.data@ == data@,
            r.pos == 0,
    {
        Reader { data, pos: 0 }
    }

    /// Current byte offset.
    pub fn position(&self) -> (p: usize)
        ensures
            p == self.pos,
    {
        self.pos
    }

    pub fn u8(&mut self) -> (r: Result<u8, Error>)
        requires
            old(self).pos <= old(self).data@.len(),
        ensures
            final(self).data@ == old(self).data@,
            final(self).pos <= final(self).data@.len(),
            final(self).pos >= old(self).pos,
            old(self).has(1) ==> r == Ok::<u8, Error>(old(self).data@[old(self).pos as int])
                && final(self).pos == old(self).pos + 1,
            !old(self).has(1) ==> r is Err && r->Err_0@ == ErrorView::Format(eof_message()),
    {
        if self.data.len() - self.pos < 1 {
            return Err(eof_error());
        }
        let b = self.data[self.pos];
        self.pos = self.pos + 1;
        Ok(b)
    }

    pub fn u16(&mut self) -> (r: Result<u16, Error>)
        requires
            old(self).pos <= old(self).data@.len(),
        ensures
            final(self).data@ == old(self).data@,
            final(self).pos <= final(self).data@.len(),
            final(self).pos >= old(self).pos,
            old(self).has(2) ==> r is Ok && r->Ok_0 == u16_at(old(self).data@, old(self).pos as int)
                && final(self).pos == old(self).pos + 2,
            !old(self).has(2) ==> r is Err && r->Err_0@ == ErrorView::Format(eof_message()),
    {
        if self.data.len() - self.pos < 2 {
            return Err(eof_error());
        }
        let p = self.pos;
        let v: u16 = self.data[p] as u16 + (self.data[p + 1] as u16) * 256;
        self.pos = p + 2;
        Ok(v)
    }

    pub fn u32(&mut self) -> (r: Result<u32, Error>)
        requires
            old(self).pos <= old(self).data@.len(),
        ensures
            final(self).data@ == old(self).data@,
            final(self).pos <= final(self).data@.len(),
            final(self).pos >= old(self).pos,
            old(self).has(4) ==> r is Ok && r->Ok_0 == u32_at(old(self).data@, old(self).pos as int)
                && final(self).pos == old(self).pos + 4,
            !old(self).has(4) ==> r is Err && r->Err_0@ == ErrorView::Format(eof_message()),
    {
        if self.data.len() - self.pos < 4 {
            return Err(eof_error());
        }
        let p = self.pos;
        let v: u32 = self.data[p] as u32 + (self.data[p + 1] as u32) * 256 + (self.data[p + 2] as u32)
            * 65536 + (self.data[p + 3] as u32) * 16777216;
        self.pos = p + 4;
        Ok(v)
    }

    pub fn i32(&mut self) -> (r: Result<i32, Error>)
        requires
            old(self).pos <= old(self).data@.len(),
        ensures
            final(self).data@ == old(self).data@,
            final(self).pos <= final(self).data@.len(),
            final(self).pos >= old(self).pos,
            old(self).has(4) ==> r is Ok && r->Ok_0 == i32_at(old(self).data@, old(self).pos as int)
                && final(self).pos == old(self).pos + 4,
            !old(self).has(4) ==> r is Err && r->Err_0@ == ErrorView::Format(eof_message()),
    {
        let u = self.u32()?;
        if u >= 0x8000_0000 {
            Ok(((u - 0x8000_0000) as i32) + i32::MIN)
        } else {
            Ok(u as i32)
        }
    }

    pub fn u64(&mut self) -> (r: Result<u64, Error>)
        requires
            old(self).pos <= old(self).data@.len(),
        ensures
            final(self).data@ == old(self).data@,
            final(self).pos <= final(self).data@.len(),
            final(self).pos >= old(self).pos,
            old(self).has(8) ==> r is Ok && r->Ok_0 == u64_at(old(self).data@, old(self).pos as int)
                && final(self).pos == old(self).pos + 8,
            !old(self).has(8) ==> r is Err && r->Err_0@ == ErrorView::Format(eof_message()),
    {
        if self.data.len() - self.pos < 8 {
            return Err(eof_error());
        }
        let lo = self.u32()?;
        let hi = self.u32()?;
        Ok(lo as u64 + (hi as u64) * 0x1_0000_0000)
    }

    pub fn i64(&mut self) -> (r: Result<i64, Error>)
        requires
            old(self).pos <= old(self).data@.len(),
        ensures
            final(self).data@ == old(self).data@,
            final(self).pos <= final(self).data@.len(),
            final(self).pos >= old(self).pos,
            old(self).has(8) ==> r is Ok && r->Ok_0 == i64_at(old(self).data@, old(self).pos as int)
                && final(self).pos == old(self).pos + 8,
            !old(self).has(8) ==> r is Err && r->Err_0@ == ErrorView::Format(eof_message()),
    {
        let u = self.u64()?;
        if u >= 0x8000_0000_0000_0000 {
            Ok(((u - 0x8000_0000_0000_0000) as i64) + i64::MIN)
        } else {
            Ok(u as i64)
        }
    }

    /// Read a 16 byte GUID.
    pub fn guid(&mut self) -> (r: Result<[u8; 16], Error>)
        requires
            old(self).pos <= old(self).data@.len(),
        ensures
            final(self).data@ == old(self).data@,
            final(self).pos <= final(self).data@.len(),
            final(self).pos >= old(self).pos,
            old(self).has(16) ==> r is Ok && r->Ok_0@ == old(self).data@.subrange(
                old(self).pos as int,
                old(self).pos + 16,
            ) && final(self).pos == old(self).pos + 16,
            !old(self).has(16) ==> r is Err && r->Err_0@ == ErrorView::Format(eof_message()),
    {
        if self.data.len() - self.pos < 16 {
            return Err(eof_error());
        }
        let p = self.pos;
        let mut g = [0u8; 16];
        let mut i: usize = 0;
        while i < 16
            invariant
                i <= 16,
                p + 16 <= self.data.len(),
                forall|k: int| 0 <= k < i ==> g@[k] == self.data@[p + k],
            decreases 16 - i,
        {
            g[i] = self.data[p + i];
            i = i + 1;
        }
        self.pos = p + 16;
        assert(g@ =~= self.data@.subrange(p as int, p + 16));
        Ok(g)
    }

    /// Read `len` raw bytes.
    pub fn bytes(&mut self, len: usize) -> (r: Result<&'a [u8], Error>)
        requires
            old(self).pos <= old(self).data@.len(),
        ensures
            final(self).data@ == old(self).data@,
            final(self).pos <= final(self).data@.len(),
            final(self).pos >= old(self).pos,
            old(self).has(len as int) ==> r is Ok && r->Ok_0@ == old(self).data@.subrange(
                old(self).pos as int,
                old(self).pos + len,
            ) && final(self).pos == old(self).pos + len,
            !old(self).has(len as int) ==> r is Err && r->Err_0@ == ErrorView::Format(
                eof_message(),
            ),
    {
        if self.data.len() - self.pos < len {
            return Err(eof_error());
        }
        let p = self.pos;
        let out = vstd::slice::slice_subrange(self.data, p, p + len);
        self.pos = p + len;
        Ok(out)
    }
}

} // verus!
