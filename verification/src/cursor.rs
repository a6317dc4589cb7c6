use crate::error::CustomError;
use vstd::prelude::*;
use vstd::slice::slice_subrange;

verus! {

/// The unsigned value of the two bytes of `s` that start at `i`, most significant first.
pub open spec fn be_u16_at(s: Seq<u8>, i: int) -> int {
    s[i] * 0x100 + s[i + 1]
}

/// The unsigned value of the four bytes of `s` that start at `i`, most significant first.
pub open spec fn be_u32_at(s: Seq<u8>, i: int) -> int {
    s[i] * 0x100_0000 + s[i + 1] * 0x1_0000 + s[i + 2] * 0x100 + s[i + 3]
}

/// The unsigned value of the eight bytes of `s` that start at `i`, most significant first.
pub open spec fn be_u64_at(s: Seq<u8>, i: int) -> int {
    be_u32_at(s, i) * 0x1_0000_0000 + be_u32_at(s, i + 4)
}

/// The four bytes of `s` that start at `i`, read as a two's-complement number.
pub open spec fn be_i32_at(s: Seq<u8>, i: int) -> int {
    if be_u32_at(s, i) < 0x8000_0000 {
        be_u32_at(s, i)
    } else {
        be_u32_at(s, i) - 0x1_0000_0000
    }
}

/// The error of a read that starts at `pos` and runs past the end.
pub open spec fn truncated_at(pos: int) -> CustomError {
    CustomError::Truncated { offset: pos as usize }
}

/// A forward-only reader over a byte buffer: the buffer never changes, the
/// position only grows, and no read looks past the end.
pub struct ByteCursor<'a> {
    data: &'a [u8],
    pos: usize,
}

impl<'a> ByteCursor<'a> {
    /// The whole buffer, read and unread.
    pub closed spec fn bytes(&self) -> Seq<u8> {
        self.data@
    }

    /// How many bytes have been consumed.
    pub closed spec fn position(&self) -> int {
        self.pos as int
    }

    /// The position lies within the buffer.
    pub open spec fn wf(&self) -> bool {
        0 <= self.position() <= self.bytes().len() <= usize::MAX
    }

    /// The bytes not yet consumed.
    pub open spec fn remaining(&self) -> Seq<u8> {
        self.bytes().subrange(self.position(), self.bytes().len() as int)
    }

    /// At least `n` bytes are left to read.
    pub open spec fn can_read(&self, n: int) -> bool {
        self.position() + n <= self.bytes().len()
    }

    /// This cursor is `before` moved forward to `pos`, over the same buffer.
    pub open spec fn advanced_to(&self, before: Self, pos: int) -> bool {
        &&& self.wf()
        &&& self.bytes() == before.bytes()
        &&& before.position() <= pos
        &&& self.position() == pos
    }

    /// This cursor is `before` moved forward to the field that `e` points at.
    pub open spec fn stopped_at(&self, before: Self, e: CustomError) -> bool {
        &&& e.spec_offset() is Some
        &&& self.advanced_to(before, e.spec_offset().unwrap() as int)
    }

    /// This cursor and `r` are what a decode that started at `before` leaves
    /// behind when it was to give `expected`: the value, with the cursor at its
    /// end; or the error, with the cursor at the field it points at.
    pub open spec fn yields<T>(
        &self,
        before: Self,
        r: Result<T, CustomError>,
        expected: Result<(T, int), CustomError>,
    ) -> bool {
        match expected {
            Ok((v, end)) => r == Ok::<T, CustomError>(v) && self.advanced_to(before, end),
            Err(e) => r == Err::<T, CustomError>(e) && self.stopped_at(before, e),
        }
    }

    /// A cursor at the start of `data`.
    pub fn new(data: &'a [u8]) -> (cur: Self)
        ensures
            cur.wf(),
            cur.bytes() == data@,
            cur.position() == 0,
    {
        assert(data@.len() == data.len());
        ByteCursor { data, pos: 0 }
    }

    /// The number of bytes consumed so far.
    pub fn offset(&self) -> (n: usize)
        requires
            self.wf(),
        ensures
            n == self.position(),
    {
        self.pos
    }

    /// The unconsumed bytes, as a slice of the buffer.
    pub fn rest(&self) -> (out: &'a [u8])
        requires
            self.wf(),
        ensures
            out@ == self.remaining(),
    {
        slice_subrange(self.data, self.pos, self.data.len())
    }

    /// The next `n` bytes, without consuming them.
    pub fn peek_exact(&self, n: usize) -> (r: Result<&'a [u8], CustomError>)
        requires
            self.wf(),
        ensures
            self.can_read(n as int) ==> r is Ok && r.unwrap()@ == self.bytes().subrange(
                self.position(),
                self.position() + n,
            ),
            !self.can_read(n as int) ==> r == Err::<&[u8], CustomError>(
                truncated_at(self.position()),
            ),
    {
        if n <= self.data.len() - self.pos {
            Ok(slice_subrange(self.data, self.pos, self.pos + n))
        } else {
            Err(CustomError::Truncated { offset: self.pos })
        }
    }

    /// The next `n` bytes, consumed. When fewer remain the cursor stays where it is.
    pub fn take_exact(&mut self, n: usize) -> (r: Result<&'a [u8], CustomError>)
        requires
            old(self).wf(),
        ensures
            old(self).can_read(n as int) ==> r is Ok && r.unwrap()@ == old(self).bytes().subrange(
                old(self).position(),
                old(self).position() + n,
            ) && final(self).advanced_to(*old(self), old(self).position() + n),
            !old(self).can_read(n as int) ==> r == Err::<&[u8], CustomError>(
                truncated_at(old(self).position()),
            ) && final(self).stopped_at(*old(self), truncated_at(old(self).position())),
    {
        if n <= self.data.len() - self.pos {
            let out = slice_subrange(self.data, self.pos, self.pos + n);
            self.pos = self.pos + n;
            Ok(out)
        } else {
            Err(CustomError::Truncated { offset: self.pos })
        }
    }

    /// The next byte, consumed.
    pub fn be_u8(&mut self) -> (r: Result<u8, CustomError>)
        requires
            old(self).wf(),
        ensures
            old(self).can_read(1) ==> r == Ok::<u8, CustomError>(
                old(self).bytes()[old(self).position()],
            ) && final(self).advanced_to(*old(self), old(self).position() + 1),
            !old(self).can_read(1) ==> r == Err::<u8, CustomError>(
                truncated_at(old(self).position()),
            ) && final(self).stopped_at(*old(self), truncated_at(old(self).position())),
    {
        let b = self.take_exact(1)?;
        Ok(b[0])
    }

    /// The next two bytes as a big-endian unsigned number, consumed.
    pub fn be_u16(&mut self) -> (r: Result<u16, CustomError>)
        requires
            old(self).wf(),
        ensures
            old(self).can_read(2) ==> r == Ok::<u16, CustomError>(
                be_u16_at(old(self).bytes(), old(self).position()) as u16,
            ) && final(self).advanced_to(*old(self), old(self).position() + 2),
            !old(self).can_read(2) ==> r == Err::<u16, CustomError>(
                truncated_at(old(self).position()),
            ) && final(self).stopped_at(*old(self), truncated_at(old(self).position())),
    {
        let b = self.take_exact(2)?;
        Ok((b[0] as u16) * 0x100 + (b[1] as u16))
    }

    /// The next four bytes as a big-endian unsigned number, consumed.
    pub fn be_u32(&mut self) -> (r: Result<u32, CustomError>)
        requires
            old(self).wf(),
        ensures
            old(self).can_read(4) ==> r == Ok::<u32, CustomError>(
                be_u32_at(old(self).bytes(), old(self).position()) as u32,
            ) && final(self).advanced_to(*old(self), old(self).position() + 4),
            !old(self).can_read(4) ==> r == Err::<u32, CustomError>(
                truncated_at(old(self).position()),
            ) && final(self).stopped_at(*old(self), truncated_at(old(self).position())),
    {
        let b = self.take_exact(4)?;
        Ok(
            (b[0] as u32) * 0x100_0000 + (b[1] as u32) * 0x1_0000 + (b[2] as u32) * 0x100
                + (b[3] as u32),
        )
    }

    /// The next eight bytes as a big-endian unsigned number, consumed.
    pub fn be_u64(&mut self) -> (r: Result<u64, CustomError>)
        requires
            old(self).wf(),
        ensures
            old(self).can_read(8) ==> r == Ok::<u64, CustomError>(
                be_u64_at(old(self).bytes(), old(self).position()) as u64,
            ) && final(self).advanced_to(*old(self), old(self).position() + 8),
            !old(self).can_read(8) ==> r == Err::<u64, CustomError>(
                truncated_at(old(self).position()),
            ) && final(self).stopped_at(*old(self), truncated_at(old(self).position())),
    {
        let b = self.take_exact(8)?;
        let high: u64 = (b[0] as u64) * 0x100_0000 + (b[1] as u64) * 0x1_0000 + (b[2] as u64)
            * 0x100 + (b[3] as u64);
        let low: u64 = (b[4] as u64) * 0x100_0000 + (b[5] as u64) * 0x1_0000 + (b[6] as u64)
            * 0x100 + (b[7] as u64);
        Ok(high * 0x1_0000_0000 + low)
    }

    /// The next four bytes as a big-endian two's-complement number, consumed.
    pub fn be_i32(&mut self) -> (r: Result<i32, CustomError>)
        requires
            old(self).wf(),
        ensures
            old(self).can_read(4) ==> r == Ok::<i32, CustomError>(
                be_i32_at(old(self).bytes(), old(self).position()) as i32,
            ) && final(self).advanced_to(*old(self), old(self).position() + 4),
            !old(self).can_read(4) ==> r == Err::<i32, CustomError>(
                truncated_at(old(self).position()),
            ) && final(self).stopped_at(*old(self), truncated_at(old(self).position())),
    {
        let raw: u32 = self.be_u32()?;
        if raw < 0x8000_0000 {
            Ok(raw as i32)
        } else {
            Ok((raw - 0x8000_0000) as i32 + i32::MIN)
        }
    }
}

} // verus!
