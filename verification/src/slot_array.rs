//! Typed views over the slot-array region of a page: a compact sequence of
//! 4-byte slots addressed by logical index, growing inward from the end of
//! the page. Logical slot index 0 is the last 4-byte chunk of the region,
//! and indices increase leftward, so appending a slot never moves an
//! existing entry.

use vstd::prelude::*;
use crate::errors::SlotError;
use crate::page::get_u16;
use crate::page::put_u16;
use crate::layout::u16_at;
use crate::slot::SlotRef;
use crate::slot::SlotMut;

verus! {

/// The byte position of logical slot `i` inside a region of `n` bytes.
pub open spec fn region_slot_pos(n: int, i: int) -> int {
    n - 4 * (i + 1)
}

/// A read-only view of a slot array, holding a copy of the region's bytes.
#[derive(Debug)]
pub struct SlotArrayRef {
    bytes: Vec<u8>,
    slot_count: u16,
}

impl SlotArrayRef {
    /// The region bytes.
    pub closed spec fn view_bytes(&self) -> Seq<u8> {
        self.bytes@
    }

    /// The number of slots in the region.
    pub closed spec fn count_spec(&self) -> u16 {
        self.slot_count
    }

    /// The region holds exactly its slots.
    pub open spec fn wf(&self) -> bool {
        self.view_bytes().len() == 4 * self.count_spec()
    }

    /// Creates a view over a slot-array region, copying the bytes; fails
    /// with `SlotRegionSizeMismatch` when the region's size does not match
    /// the slot count.
    pub fn new(bytes: &Vec<u8>, slot_count: u16) -> (r: Result<SlotArrayRef, SlotError>)
        ensures
            match r {
                Ok(a) => bytes@.len() == 4 * slot_count as int && a.wf() && a.view_bytes() == bytes@
                    && a.count_spec() == slot_count,
                Err(e) => bytes@.len() != 4 * slot_count as int && e == (SlotError::SlotRegionSizeMismatch {
                    expected_size: ((4 * slot_count as int) as usize),
                    actual_size: bytes@.len() as usize,
                }),
            },
    {
        let expected_len: usize = slot_count as usize * 4;
        if bytes.len() != expected_len {
            return Err(
                SlotError::SlotRegionSizeMismatch {
                    expected_size: expected_len,
                    actual_size: bytes.len(),
                },
            );
        }
        let mut copy: Vec<u8> = Vec::new();
        let mut i: usize = 0;
        let n = bytes.len();
        while i < n
            invariant
                i <= n,
                n == bytes@.len(),
                copy@ =~= bytes@.take(i as int),
            decreases n - i,
        {
            copy.push(bytes[i]);
            i = i + 1;
        }
        proof {
            assert(copy@ =~= bytes@);
        }
        Ok(SlotArrayRef { bytes: copy, slot_count })
    }

    /// Returns a view of the slot at the given logical index; fails with
    /// `InvalidSlot` when the index is out of bounds.
    pub fn slot_ref(&self, slot_index: u32) -> (r: Result<SlotRef, SlotError>)
        requires
            self.wf(),
        ensures
            match r {
                Ok(s) => slot_index < self.count_spec() && s.wf() && s.index_spec() == slot_index
                    && u16_at(s.view_bytes(), 0) == u16_at(
                    self.view_bytes(),
                    region_slot_pos(self.view_bytes().len() as int, slot_index as int),
                ) && u16_at(s.view_bytes(), 2) == u16_at(
                    self.view_bytes(),
                    region_slot_pos(self.view_bytes().len() as int, slot_index as int) + 2,
                ),
                Err(e) => slot_index >= self.count_spec() && e == (SlotError::InvalidSlot {
                    slot_index: slot_index as usize,
                }),
            },
    {
        if slot_index >= self.slot_count as u32 {
            return Err(SlotError::InvalidSlot { slot_index: slot_index as usize });
        }
        proof {
            assert(4 * (slot_index as int + 1) <= self.view_bytes().len());
        }
        let start = self.bytes.len() - 4 * (slot_index as usize + 1);
        let mut chunk: Vec<u8> = Vec::new();
        let mut i: usize = 0;
        while i < 4
            invariant
                i <= 4,
                start + 4 <= self.bytes.len(),
                chunk@ =~= self.bytes@.subrange(start as int, start + i),
            decreases 4 - i,
        {
            chunk.push(self.bytes[start + i]);
            i = i + 1;
        }
        match SlotRef::from_raw(slot_index, &chunk) {
            Ok(s) => {
                proof {
                    assert(chunk@[0] == self.view_bytes()[start as int]);
                    assert(chunk@[1] == self.view_bytes()[start + 1]);
                    assert(chunk@[2] == self.view_bytes()[start + 2]);
                    assert(chunk@[3] == self.view_bytes()[start + 3]);
                }
                Ok(s)
            },
            Err(e) => Err(e),
        }
    }
}

/// A mutable view of a slot array: it owns a copy of the region's bytes
/// and hands the edited region back through `into_bytes`.
#[derive(Debug)]
pub struct SlotArrayMut {
    bytes: Vec<u8>,
    slot_count: u16,
}

impl SlotArrayMut {
    /// The region bytes.
    pub closed spec fn view_bytes(&self) -> Seq<u8> {
        self.bytes@
    }

    /// The number of slots in the region.
    pub closed spec fn count_spec(&self) -> u16 {
        self.slot_count
    }

    /// The region holds exactly its slots.
    pub open spec fn wf(&self) -> bool {
        self.view_bytes().len() == 4 * self.count_spec()
    }

    /// Creates a mutable view over a slot-array region, taking ownership;
    /// fails with `SlotRegionSizeMismatch` when the region's size does not
    /// match the slot count.
    pub fn new(bytes: Vec<u8>, slot_count: u16) -> (r: Result<SlotArrayMut, SlotError>)
        ensures
            match r {
                Ok(a) => bytes@.len() == 4 * slot_count as int && a.wf() && a.view_bytes() == bytes@
                    && a.count_spec() == slot_count,
                Err(e) => bytes@.len() != 4 * slot_count as int && e == (SlotError::SlotRegionSizeMismatch {
                    expected_size: ((4 * slot_count as int) as usize),
                    actual_size: bytes@.len() as usize,
                }),
            },
    {
        let expected_len: usize = slot_count as usize * 4;
        if bytes.len() != expected_len {
            return Err(
                SlotError::SlotRegionSizeMismatch {
                    expected_size: expected_len,
                    actual_size: bytes.len(),
                },
            );
        }
        Ok(SlotArrayMut { bytes, slot_count })
    }

    /// Hands the edited region back.
    pub fn into_bytes(self) -> (r: Vec<u8>)
        ensures
            r@ == self.view_bytes(),
    {
        self.bytes
    }

    /// Returns a read view of the slot at the given logical index; fails
    /// with `InvalidSlot` when the index is out of bounds.
    pub fn slot_ref(&self, slot_index: u32) -> (r: Result<SlotRef, SlotError>)
        requires
            self.wf(),
        ensures
            match r {
                Ok(s) => slot_index < self.count_spec() && s.wf() && s.index_spec() == slot_index
                    && u16_at(s.view_bytes(), 0) == u16_at(
                    self.view_bytes(),
                    region_slot_pos(self.view_bytes().len() as int, slot_index as int),
                ) && u16_at(s.view_bytes(), 2) == u16_at(
                    self.view_bytes(),
                    region_slot_pos(self.view_bytes().len() as int, slot_index as int) + 2,
                ),
                Err(e) => slot_index >= self.count_spec() && e == (SlotError::InvalidSlot {
                    slot_index: slot_index as usize,
                }),
            },
    {
        if slot_index >= self.slot_count as u32 {
            return Err(SlotError::InvalidSlot { slot_index: slot_index as usize });
        }
        proof {
            assert(4 * (slot_index as int + 1) <= self.view_bytes().len());
        }
        let start = self.bytes.len() - 4 * (slot_index as usize + 1);
        let mut chunk: Vec<u8> = Vec::new();
        let mut i: usize = 0;
        while i < 4
            invariant
                i <= 4,
                start + 4 <= self.bytes.len(),
                chunk@ =~= self.bytes@.subrange(start as int, start + i),
            decreases 4 - i,
        {
            chunk.push(self.bytes[start + i]);
            i = i + 1;
        }
        match SlotRef::from_raw(slot_index, &chunk) {
            Ok(s) => {
                proof {
                    assert(chunk@[0] == self.view_bytes()[start as int]);
                    assert(chunk@[1] == self.view_bytes()[start + 1]);
                    assert(chunk@[2] == self.view_bytes()[start + 2]);
                    assert(chunk@[3] == self.view_bytes()[start + 3]);
                }
                Ok(s)
            },
            Err(e) => Err(e),
        }
    }

    /// Returns a mutable view holding a copy of the slot at the given
    /// logical index; fails with `InvalidSlot` when the index is out of
    /// bounds. Edits are written back through `set_slot`.
    pub fn slot_mut(&mut self, slot_index: u32) -> (r: Result<SlotMut, SlotError>)
        requires
            old(self).wf(),
        ensures
            *final(self) == *old(self),
            match r {
                Ok(s) => slot_index < old(self).count_spec() && s.wf() && s.index_spec()
                    == slot_index && u16_at(s.view_bytes(), 0) == u16_at(
                    old(self).view_bytes(),
                    region_slot_pos(old(self).view_bytes().len() as int, slot_index as int),
                ) && u16_at(s.view_bytes(), 2) == u16_at(
                    old(self).view_bytes(),
                    region_slot_pos(old(self).view_bytes().len() as int, slot_index as int) + 2,
                ),
                Err(e) => slot_index >= old(self).count_spec() && e == (SlotError::InvalidSlot {
                    slot_index: slot_index as usize,
                }),
            },
    {
        if slot_index >= self.slot_count as u32 {
            return Err(SlotError::InvalidSlot { slot_index: slot_index as usize });
        }
        proof {
            assert(4 * (slot_index as int + 1) <= self.view_bytes().len());
        }
        let start = self.bytes.len() - 4 * (slot_index as usize + 1);
        let mut chunk: Vec<u8> = Vec::new();
        let mut i: usize = 0;
        while i < 4
            invariant
                i <= 4,
                start + 4 <= self.bytes.len(),
                self.bytes@ == old(self).view_bytes(),
                self.slot_count == old(self).count_spec(),
                chunk@ =~= self.bytes@.subrange(start as int, start + i),
            decreases 4 - i,
        {
            chunk.push(self.bytes[start + i]);
            i = i + 1;
        }
        proof {
            assert(chunk@[0] == self.view_bytes()[start as int]);
            assert(chunk@[1] == self.view_bytes()[start + 1]);
            assert(chunk@[2] == self.view_bytes()[start + 2]);
            assert(chunk@[3] == self.view_bytes()[start + 3]);
        }
        match SlotMut::from_raw(slot_index, chunk) {
            Ok(s) => Ok(s),
            Err(e) => Err(e),
        }
    }

    /// Writes the offset and length of the slot at the given logical
    /// index; fails with `InvalidSlot` when the index is out of bounds.
    pub fn set_slot(&mut self, slot_index: u32, slot_offset: u16, slot_length: u16) -> (r: Result<
        (),
        SlotError,
    >)
        requires
            old(self).wf(),
        ensures
            final(self).wf(),
            final(self).count_spec() == old(self).count_spec(),
            match r {
                Ok(u) => slot_index < old(self).count_spec() && u16_at(
                    final(self).view_bytes(),
                    region_slot_pos(old(self).view_bytes().len() as int, slot_index as int),
                ) == slot_offset as int && u16_at(
                    final(self).view_bytes(),
                    region_slot_pos(old(self).view_bytes().len() as int, slot_index as int) + 2,
                ) == slot_length as int && forall|b: int|
                    0 <= b < old(self).view_bytes().len() && !(region_slot_pos(
                        old(self).view_bytes().len() as int,
                        slot_index as int,
                    ) <= b < region_slot_pos(
                        old(self).view_bytes().len() as int,
                        slot_index as int,
                    ) + 4) ==> final(self).view_bytes()[b] == old(self).view_bytes()[b],
                Err(e) => slot_index >= old(self).count_spec() && final(self).view_bytes() == old(
                    self,
                ).view_bytes() && e == (SlotError::InvalidSlot { slot_index: slot_index as usize }),
            },
    {
        if slot_index >= self.slot_count as u32 {
            return Err(SlotError::InvalidSlot { slot_index: slot_index as usize });
        }
        proof {
            assert(4 * (slot_index as int + 1) <= self.view_bytes().len());
        }
        let start = self.bytes.len() - 4 * (slot_index as usize + 1);
        put_u16(&mut self.bytes, start + 2, slot_length);
        put_u16(&mut self.bytes, start, slot_offset);
        Ok(())
    }
}

} // verus!
