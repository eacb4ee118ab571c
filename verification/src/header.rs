//! Typed views over the 96-byte page header: a read-only view holding a
//! copy of the header bytes, and a mutable view that owns a header image
//! and hands it back when the edits are done.
//!
//! All fields are little-endian at fixed offsets: `slot_count` at 0,
//! `free_start` at 2, `free_end` at 4, `free_space` at 6, `can_compact` at
//! 8, `page_number` at 10, `page_type` at 14, `left_page` at 16,
//! `right_page` at 20 and `last_lsn` at 26.

use vstd::prelude::*;
use crate::errors::HeaderError;
use crate::page::get_u16;
use crate::page::get_u32;
use crate::page::get_u64;
use crate::page::put_u16;
use crate::page::put_u32;
use crate::page::put_u64;
use crate::layout::u16_at;
use crate::layout::u32_at;
use crate::layout::u64_at;
use crate::page_type::PageType;

verus! {

/// A read-only view of a page header, holding a copy of its 96 bytes.
#[derive(Debug)]
pub struct HeaderRef {
    bytes: Vec<u8>,
}

impl HeaderRef {
    /// The header bytes.
    pub closed spec fn view_bytes(&self) -> Seq<u8> {
        self.bytes@
    }

    /// The view always holds exactly one header.
    pub open spec fn wf(&self) -> bool {
        self.view_bytes().len() == 96
    }

    /// Creates a header view from a byte slice of exactly the header size,
    /// copying the bytes; fails with `HeaderSliceSizeMismatch` otherwise.
    pub fn new(bytes: &Vec<u8>) -> (r: Result<HeaderRef, HeaderError>)
        ensures
            match r {
                Ok(h) => bytes@.len() == 96 && h.wf() && h.view_bytes() == bytes@,
                Err(e) => bytes@.len() != 96 && e == (HeaderError::HeaderSliceSizeMismatch {
                    actual: bytes@.len() as usize,
                }),
            },
    {
        if bytes.len() != 96 {
            return Err(HeaderError::HeaderSliceSizeMismatch { actual: bytes.len() });
        }
        let mut copy: Vec<u8> = Vec::new();
        let mut i: usize = 0;
        while i < 96
            invariant
                i <= 96,
                bytes@.len() == 96,
                copy@ =~= bytes@.take(i as int),
            decreases 96 - i,
        {
            copy.push(bytes[i]);
            i = i + 1;
        }
        proof {
            assert(copy@ =~= bytes@);
        }
        Ok(HeaderRef { bytes: copy })
    }

    /// Returns the `slot_count` field.
    pub fn get_slot_count(&self) -> (r: u16)
        requires
            self.wf(),
        ensures
            r as int == u16_at(self.view_bytes(), 0),
    {
        get_u16(&self.bytes, 0)
    }

    /// Returns the `free_start` field.
    pub fn get_free_start(&self) -> (r: u16)
        requires
            self.wf(),
        ensures
            r as int == u16_at(self.view_bytes(), 2),
    {
        get_u16(&self.bytes, 2)
    }

    /// Returns the `free_end` field.
    pub fn get_free_end(&self) -> (r: u16)
        requires
            self.wf(),
        ensures
            r as int == u16_at(self.view_bytes(), 4),
    {
        get_u16(&self.bytes, 4)
    }

    /// Returns the `free_space` field.
    pub fn get_free_space(&self) -> (r: u16)
        requires
            self.wf(),
        ensures
            r as int == u16_at(self.view_bytes(), 6),
    {
        get_u16(&self.bytes, 6)
    }

    /// Returns the `can_compact` field.
    pub fn get_can_compact(&self) -> (r: u16)
        requires
            self.wf(),
        ensures
            r as int == u16_at(self.view_bytes(), 8),
    {
        get_u16(&self.bytes, 8)
    }

    /// Returns the `page_number` field.
    pub fn get_page_number(&self) -> (r: u32)
        requires
            self.wf(),
        ensures
            r as int == u32_at(self.view_bytes(), 10),
    {
        get_u32(&self.bytes, 10)
    }

    /// Returns the `page_type` field.
    pub fn get_page_type(&self) -> (r: u16)
        requires
            self.wf(),
        ensures
            r as int == u16_at(self.view_bytes(), 14),
    {
        get_u16(&self.bytes, 14)
    }

    /// Returns the `left_page` field.
    pub fn get_left_page(&self) -> (r: u32)
        requires
            self.wf(),
        ensures
            r as int == u32_at(self.view_bytes(), 16),
    {
        get_u32(&self.bytes, 16)
    }

    /// Returns the `right_page` field.
    pub fn get_right_page(&self) -> (r: u32)
        requires
            self.wf(),
        ensures
            r as int == u32_at(self.view_bytes(), 20),
    {
        get_u32(&self.bytes, 20)
    }

    /// Returns the `last_lsn` field.
    pub fn get_last_lsn(&self) -> (r: u64)
        requires
            self.wf(),
        ensures
            r as int == u64_at(self.view_bytes(), 26),
    {
        get_u64(&self.bytes, 26)
    }

    /// Whether a row of `row_size` bytes needs a compaction before it fits
    /// in the contiguous free area, together with a slot entry.
    ///
    /// Fails with `OffsetArithmetic` when `free_end` lies before
    /// `free_start`.
    pub fn needs_compaction(&self, row_size: usize) -> (r: Result<bool, HeaderError>)
        requires
            self.wf(),
        ensures
            match r {
                Ok(b) => u16_at(self.view_bytes(), 4) >= u16_at(self.view_bytes(), 2) && (b <==> u16_at(
                    self.view_bytes(),
                    4,
                ) - u16_at(self.view_bytes(), 2) < row_size + 4),
                Err(e) => u16_at(self.view_bytes(), 4) < u16_at(self.view_bytes(), 2) && e
                    == HeaderError::OffsetArithmetic,
            },
    {
        let fs = get_u16(&self.bytes, 2);
        let fe = get_u16(&self.bytes, 4);
        if fe < fs {
            return Err(HeaderError::OffsetArithmetic);
        }
        // The gap is at most 16 bits wide, so any larger row needs the
        // compaction regardless of the exact size.
        if row_size > 65535 {
            return Ok(true);
        }
        Ok(((fe - fs) as usize) < row_size + 4)
    }
}

/// A mutable view of a page header: it owns a 96-byte header image and
/// hands it back through `into_bytes` when the edits are done.
#[derive(Debug)]
pub struct HeaderMut {
    bytes: Vec<u8>,
}

impl HeaderMut {
    /// The header bytes.
    pub closed spec fn view_bytes(&self) -> Seq<u8> {
        self.bytes@
    }

    /// The view always holds exactly one header.
    pub open spec fn wf(&self) -> bool {
        self.view_bytes().len() == 96
    }

    /// Creates a mutable header view over a byte buffer of exactly the
    /// header size, taking ownership; fails with `HeaderSliceSizeMismatch`
    /// otherwise, returning nothing.
    pub fn new(bytes: Vec<u8>) -> (r: Result<HeaderMut, HeaderError>)
        ensures
            match r {
                Ok(h) => bytes@.len() == 96 && h.wf() && h.view_bytes() == bytes@,
                Err(e) => bytes@.len() != 96 && e == (HeaderError::HeaderSliceSizeMismatch {
                    actual: bytes@.len() as usize,
                }),
            },
    {
        if bytes.len() != 96 {
            return Err(HeaderError::HeaderSliceSizeMismatch { actual: bytes.len() });
        }
        Ok(HeaderMut { bytes })
    }

    /// Hands the edited header image back.
    pub fn into_bytes(self) -> (r: Vec<u8>)
        ensures
            r@ == self.view_bytes(),
    {
        self.bytes
    }

    /// Returns the `slot_count` field.
    pub fn get_slot_count(&self) -> (r: u16)
        requires
            self.wf(),
        ensures
            r as int == u16_at(self.view_bytes(), 0),
    {
        get_u16(&self.bytes, 0)
    }

    /// Returns the `free_start` field.
    pub fn get_free_start(&self) -> (r: u16)
        requires
            self.wf(),
        ensures
            r as int == u16_at(self.view_bytes(), 2),
    {
        get_u16(&self.bytes, 2)
    }

    /// Returns the `free_end` field.
    pub fn get_free_end(&self) -> (r: u16)
        requires
            self.wf(),
        ensures
            r as int == u16_at(self.view_bytes(), 4),
    {
        get_u16(&self.bytes, 4)
    }

    /// Returns the `free_space` field.
    pub fn get_free_space(&self) -> (r: u16)
        requires
            self.wf(),
        ensures
            r as int == u16_at(self.view_bytes(), 6),
    {
        get_u16(&self.bytes, 6)
    }

    /// Returns the `can_compact` field.
    pub fn get_can_compact(&self) -> (r: u16)
        requires
            self.wf(),
        ensures
            r as int == u16_at(self.view_bytes(), 8),
    {
        get_u16(&self.bytes, 8)
    }

    /// Returns the `page_number` field.
    pub fn get_page_number(&self) -> (r: u32)
        requires
            self.wf(),
        ensures
            r as int == u32_at(self.view_bytes(), 10),
    {
        get_u32(&self.bytes, 10)
    }

    /// Returns the `page_type` field.
    pub fn get_page_type(&self) -> (r: u16)
        requires
            self.wf(),
        ensures
            r as int == u16_at(self.view_bytes(), 14),
    {
        get_u16(&self.bytes, 14)
    }

    /// Returns the `left_page` field.
    pub fn get_left_page(&self) -> (r: u32)
        requires
            self.wf(),
        ensures
            r as int == u32_at(self.view_bytes(), 16),
    {
        get_u32(&self.bytes, 16)
    }

    /// Returns the `right_page` field.
    pub fn get_right_page(&self) -> (r: u32)
        requires
            self.wf(),
        ensures
            r as int == u32_at(self.view_bytes(), 20),
    {
        get_u32(&self.bytes, 20)
    }

    /// Returns the `last_lsn` field.
    pub fn get_last_lsn(&self) -> (r: u64)
        requires
            self.wf(),
        ensures
            r as int == u64_at(self.view_bytes(), 26),
    {
        get_u64(&self.bytes, 26)
    }

    /// Sets the `slot_count` field.
    pub fn set_slot_count(&mut self, val: u16)
        requires
            old(self).wf(),
        ensures
            final(self).wf(),
            u16_at(final(self).view_bytes(), 0) == val as int,
            forall|b: int|
                0 <= b < 96 && !(0 <= b < 2) ==> final(self).view_bytes()[b]
                    == old(self).view_bytes()[b],
    {
        put_u16(&mut self.bytes, 0, val);
    }

    /// Sets the `free_start` field.
    pub fn set_free_start(&mut self, val: u16)
        requires
            old(self).wf(),
        ensures
            final(self).wf(),
            u16_at(final(self).view_bytes(), 2) == val as int,
            forall|b: int|
                0 <= b < 96 && !(2 <= b < 4) ==> final(self).view_bytes()[b]
                    == old(self).view_bytes()[b],
    {
        put_u16(&mut self.bytes, 2, val);
    }

    /// Sets the `free_end` field.
    pub fn set_free_end(&mut self, val: u16)
        requires
            old(self).wf(),
        ensures
            final(self).wf(),
            u16_at(final(self).view_bytes(), 4) == val as int,
            forall|b: int|
                0 <= b < 96 && !(4 <= b < 6) ==> final(self).view_bytes()[b]
                    == old(self).view_bytes()[b],
    {
        put_u16(&mut self.bytes, 4, val);
    }

    /// Sets the `free_space` field.
    pub fn set_free_space(&mut self, val: u16)
        requires
            old(self).wf(),
        ensures
            final(self).wf(),
            u16_at(final(self).view_bytes(), 6) == val as int,
            forall|b: int|
                0 <= b < 96 && !(6 <= b < 8) ==> final(self).view_bytes()[b]
                    == old(self).view_bytes()[b],
    {
        put_u16(&mut self.bytes, 6, val);
    }

    /// Sets the `can_compact` field.
    pub fn set_can_compact(&mut self, val: u16)
        requires
            old(self).wf(),
        ensures
            final(self).wf(),
            u16_at(final(self).view_bytes(), 8) == val as int,
            forall|b: int|
                0 <= b < 96 && !(8 <= b < 10) ==> final(self).view_bytes()[b]
                    == old(self).view_bytes()[b],
    {
        put_u16(&mut self.bytes, 8, val);
    }

    /// Sets the `page_number` field.
    pub fn set_page_number(&mut self, val: u32)
        requires
            old(self).wf(),
        ensures
            final(self).wf(),
            u32_at(final(self).view_bytes(), 10) == val as int,
            forall|b: int|
                0 <= b < 96 && !(10 <= b < 14) ==> final(self).view_bytes()[b]
                    == old(self).view_bytes()[b],
    {
        put_u32(&mut self.bytes, 10, val);
    }

    /// Sets the `page_type` field.
    pub fn set_page_type(&mut self, val: u16)
        requires
            old(self).wf(),
        ensures
            final(self).wf(),
            u16_at(final(self).view_bytes(), 14) == val as int,
            forall|b: int|
                0 <= b < 96 && !(14 <= b < 16) ==> final(self).view_bytes()[b]
                    == old(self).view_bytes()[b],
    {
        put_u16(&mut self.bytes, 14, val);
    }

    /// Sets the `left_page` field.
    pub fn set_left_page(&mut self, val: u32)
        requires
            old(self).wf(),
        ensures
            final(self).wf(),
            u32_at(final(self).view_bytes(), 16) == val as int,
            forall|b: int|
                0 <= b < 96 && !(16 <= b < 20) ==> final(self).view_bytes()[b]
                    == old(self).view_bytes()[b],
    {
        put_u32(&mut self.bytes, 16, val);
    }

    /// Sets the `right_page` field.
    pub fn set_right_page(&mut self, val: u32)
        requires
            old(self).wf(),
        ensures
            final(self).wf(),
            u32_at(final(self).view_bytes(), 20) == val as int,
            forall|b: int|
                0 <= b < 96 && !(20 <= b < 24) ==> final(self).view_bytes()[b]
                    == old(self).view_bytes()[b],
    {
        put_u32(&mut self.bytes, 20, val);
    }

    /// Sets the `last_lsn` field.
    pub fn set_last_lsn(&mut self, val: u64)
        requires
            old(self).wf(),
        ensures
            final(self).wf(),
            u64_at(final(self).view_bytes(), 26) == val as int,
            forall|b: int|
                0 <= b < 96 && !(26 <= b < 34) ==> final(self).view_bytes()[b]
                    == old(self).view_bytes()[b],
    {
        put_u64(&mut self.bytes, 26, val);
    }

    /// Initializes the header with the values of a new empty page: an
    /// empty slot array, the whole non-header area free, and the given
    /// page number and type.
    pub fn default_header(&mut self, page_number: u32, page_type: PageType)
        requires
            old(self).wf(),
        ensures
            final(self).wf(),
            u16_at(final(self).view_bytes(), 2) == 96,
            u16_at(final(self).view_bytes(), 4) == 4095,
            u16_at(final(self).view_bytes(), 6) == 4000,
            u32_at(final(self).view_bytes(), 10) == page_number as int,
            u16_at(final(self).view_bytes(), 14) == page_type.code() as int,
            u16_at(final(self).view_bytes(), 0) == u16_at(old(self).view_bytes(), 0),
            u16_at(final(self).view_bytes(), 8) == u16_at(old(self).view_bytes(), 8),
            u32_at(final(self).view_bytes(), 16) == u32_at(old(self).view_bytes(), 16),
            u32_at(final(self).view_bytes(), 20) == u32_at(old(self).view_bytes(), 20),
            u64_at(final(self).view_bytes(), 26) == u64_at(old(self).view_bytes(), 26),
            forall|b: int|
                0 <= b < 96 && !(2 <= b < 8) && !(10 <= b < 16) ==> final(self).view_bytes()[b]
                    == old(self).view_bytes()[b],
    {
        self.set_page_number(page_number);
        self.set_free_start(96);
        self.set_free_end(4095);
        self.set_free_space(4000);
        self.set_page_type(page_type.as_u16());
    }
}

} // verus!
