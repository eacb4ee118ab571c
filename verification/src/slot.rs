//! Typed views over a single 4-byte slot: `(offset: u16, length: u16)`,
//! both little-endian. A slot whose offset and length are both zero is
//! invalid (free for reuse).

use vstd::prelude::*;
use crate::errors::SlotError;
use crate::page::get_u16;
use crate::page::put_u16;
use crate::layout::u16_at;

verus! {

/// A read-only view of one slot, holding a copy of its 4 bytes.
#[derive(Debug)]
pub struct SlotRef {
    slot_index: u32,
    bytes: Vec<u8>,
}

impl SlotRef {
    /// The slot bytes.
    pub closed spec fn view_bytes(&self) -> Seq<u8> {
        self.bytes@
    }

    /// The logical index the view was created for.
    pub closed spec fn index_spec(&self) -> u32 {
        self.slot_index
    }

    /// The view always holds exactly one slot.
    pub open spec fn wf(&self) -> bool {
        self.view_bytes().len() == 4
    }

    /// Creates a slot view from a byte slice of exactly the slot size,
    /// copying the bytes; fails with `SlotSizeMismatch` otherwise.
    pub fn from_raw(slot_index: u32, bytes: &Vec<u8>) -> (r: Result<SlotRef, SlotError>)
        ensures
            match r {
                Ok(s) => bytes@.len() == 4 && s.wf() && s.view_bytes() == bytes@ && s.index_spec()
                    == slot_index,
                Err(e) => bytes@.len() != 4 && e == (SlotError::SlotSizeMismatch {
                    expected_size: 4,
                    actual_size: bytes@.len() as usize,
                }),
            },
    {
        if bytes.len() != 4 {
            return Err(SlotError::SlotSizeMismatch { expected_size: 4, actual_size: bytes.len() });
        }
        let mut copy: Vec<u8> = Vec::new();
        let mut i: usize = 0;
        while i < 4
            invariant
                i <= 4,
                bytes@.len() == 4,
                copy@ =~= bytes@.take(i as int),
            decreases 4 - i,
        {
            copy.push(bytes[i]);
            i = i + 1;
        }
        proof {
            assert(copy@ =~= bytes@);
        }
        Ok(SlotRef { slot_index, bytes: copy })
    }

    /// Returns the logical slot index.
    pub fn slot_index(&self) -> (r: u32)
        ensures
            r == self.index_spec(),
    {
        self.slot_index
    }

    /// Reads the offset.
    pub fn offset(&self) -> (r: u16)
        requires
            self.wf(),
        ensures
            r as int == u16_at(self.view_bytes(), 0),
    {
        get_u16(&self.bytes, 0)
    }

    /// Reads the length.
    pub fn length(&self) -> (r: u16)
        requires
            self.wf(),
        ensures
            r as int == u16_at(self.view_bytes(), 2),
    {
        get_u16(&self.bytes, 2)
    }
}

/// A mutable view of one slot: it owns a 4-byte slot image and hands it
/// back through `into_bytes` when the edits are done.
#[derive(Debug)]
pub struct SlotMut {
    slot_index: u32,
    bytes: Vec<u8>,
}

impl SlotMut {
    /// The slot bytes.
    pub closed spec fn view_bytes(&self) -> Seq<u8> {
        self.bytes@
    }

    /// The logical index the view was created for.
    pub closed spec fn index_spec(&self) -> u32 {
        self.slot_index
    }

    /// The view always holds exactly one slot.
    pub open spec fn wf(&self) -> bool {
        self.view_bytes().len() == 4
    }

    /// Creates a mutable slot view over a byte buffer of exactly the slot
    /// size, taking ownership; fails with `SlotSizeMismatch` otherwise.
    pub fn from_raw(slot_index: u32, bytes: Vec<u8>) -> (r: Result<SlotMut, SlotError>)
        ensures
            match r {
                Ok(s) => bytes@.len() == 4 && s.wf() && s.view_bytes() == bytes@ && s.index_spec()
                    == slot_index,
                Err(e) => bytes@.len() != 4 && e == (SlotError::SlotSizeMismatch {
                    expected_size: 4,
                    actual_size: bytes@.len() as usize,
                }),
            },
    {
        if bytes.len() != 4 {
            return Err(SlotError::SlotSizeMismatch { expected_size: 4, actual_size: bytes.len() });
        }
        Ok(SlotMut { slot_index, bytes })
    }

    /// Hands the edited slot image back.
    pub fn into_bytes(self) -> (r: Vec<u8>)
        ensures
            r@ == self.view_bytes(),
    {
        self.bytes
    }

    /// Returns the logical slot index.
    pub fn slot_index(&self) -> (r: u32)
        ensures
            r == self.index_spec(),
    {
        self.slot_index
    }

    /// Reads the offset.
    pub fn offset(&self) -> (r: u16)
        requires
            self.wf(),
        ensures
            r as int == u16_at(self.view_bytes(), 0),
    {
        get_u16(&self.bytes, 0)
    }

    /// Reads the length.
    pub fn length(&self) -> (r: u16)
        requires
            self.wf(),
        ensures
            r as int == u16_at(self.view_bytes(), 2),
    {
        get_u16(&self.bytes, 2)
    }

    /// Writes the offset.
    pub fn set_offset(&mut self, offset: u16)
        requires
            old(self).wf(),
        ensures
            final(self).wf(),
            final(self).index_spec() == old(self).index_spec(),
            u16_at(final(self).view_bytes(), 0) == offset as int,
            u16_at(final(self).view_bytes(), 2) == u16_at(old(self).view_bytes(), 2),
    {
        put_u16(&mut self.bytes, 0, offset);
    }

    /// Writes the length.
    pub fn set_length(&mut self, length: u16)
        requires
            old(self).wf(),
        ensures
            final(self).wf(),
            final(self).index_spec() == old(self).index_spec(),
            u16_at(final(self).view_bytes(), 2) == length as int,
            u16_at(final(self).view_bytes(), 0) == u16_at(old(self).view_bytes(), 0),
    {
        put_u16(&mut self.bytes, 2, length);
    }
}

} // verus!
