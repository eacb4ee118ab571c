//! The slotted page: a `PageId` plus a fixed 4096-byte array, with tuple
//! insertion, deletion, update and compaction as offset arithmetic over that
//! array.
//!
//! Layout: a 96-byte header, the tuple region growing upward, a contiguous
//! free area, and the reverse-indexed slot array growing downward from the
//! end of the page. Adding a slot never moves existing slots, and compaction
//! only rewrites the tuple region, so logical slot indices stay stable.

use vstd::prelude::*;

verus! {

use vstd::arithmetic::div_mod::lemma_fundamental_div_mod;
use crate::errors::PageError;
use crate::errors::PageOpError;
use crate::errors::PageResult;
use crate::errors::ReadRowError;
use crate::errors::InsertError;
use crate::errors::DeleteError;
use crate::errors::UpdateError;
use crate::errors::SlotError;
use crate::layout::u16_at;
use crate::layout::u32_at;
use crate::layout::upd16;
use crate::layout::slot_count_of;
use crate::layout::free_start_of;
use crate::layout::free_end_of;
use crate::layout::free_space_of;
use crate::layout::can_compact_of;
use crate::layout::slot_off;
use crate::layout::slot_len;
use crate::layout::slot_valid;
use crate::layout::row_of;
use crate::layout::slot_region_ok;
use crate::layout::region_actual;
use crate::layout::region_actual_size;
use crate::layout::init_page_bytes;
use crate::layout::lemma_wf_page_compact_pre;
use crate::page_id::PageId;
use crate::page_type::PageType;
use crate::plan::InsertionOffset;
use crate::plan::InsertionSlot;
use crate::plan::InsertionPlan;
use crate::plan::slot_choice;
use crate::plan::offset_choice;
use crate::plan::fast_path_fits;
use crate::plan::distinct_starts;
use crate::plan::ext_is;
use crate::plan::ext_before;
use crate::plan::ext_end;
use crate::plan::is_succ;
use crate::plan::window_fit;
use crate::plan::first_fit;
use crate::plan::is_last_ext;
use crate::plan::has_invalid_slot;
use crate::plan::required_space;
use crate::plan::plan_new_slot;
use crate::plan::plan_slot_index;
use crate::plan::insert_pre;
use crate::plan::compact_pre;
use crate::plan::exact_insert_applied;
use crate::plan::compact_applied;
use crate::plan::delete_applied;
use crate::plan::grow_applied;
use crate::plan::shrink_applied;
use crate::plan::overwrite_applied;
use crate::plan::delete_tail_clause;
use crate::plan::delete_hole_clause;
use crate::plan::is_strictly_last;
use crate::plan::lemma_delete_preserves_wf;
use crate::plan::lemma_compact_preserves_wf;
use crate::plan::lemma_delete_compact_pre;
use crate::plan::grow_after_compact_applied;
use crate::layout::wf_page;

/// Reads the 16-bit little-endian value at byte offset `off`.
pub(crate) fn get_u16(d: &Vec<u8>, off: usize) -> (r: u16)
    requires
        off + 2 <= d.len(),
    ensures
        r as int == u16_at(d@, off as int),
{
    let lo = d[off];
    let hi = d[off + 1];
    (lo as u16) + (hi as u16) * 256
}

/// Writes the 16-bit little-endian value `v` at byte offset `off`.
pub(crate) fn put_u16(d: &mut Vec<u8>, off: usize, v: u16)
    requires
        off + 2 <= old(d).len(),
    ensures
        final(d)@ == upd16(old(d)@, off as int, v as int),
        final(d)@.len() == old(d)@.len(),
        u16_at(final(d)@, off as int) == v as int,
        forall|b: int|
            0 <= b < old(d)@.len() && b != off && b != off + 1 ==> final(d)@[b] == old(d)@[b],
{
    proof {
        lemma_fundamental_div_mod(v as int, 256);
    }
    d[off] = (v % 256) as u8;
    d[off + 1] = (v / 256) as u8;
}

/// Reads the 32-bit little-endian value at byte offset `off`.
pub(crate) fn get_u32(d: &Vec<u8>, off: usize) -> (r: u32)
    requires
        off + 4 <= d.len(),
    ensures
        r as int == u32_at(d@, off as int),
{
    let b0 = d[off];
    let b1 = d[off + 1];
    let b2 = d[off + 2];
    let b3 = d[off + 3];
    (b0 as u32) + (b1 as u32) * 256 + (b2 as u32) * 65536 + (b3 as u32) * 16777216
}

/// Writes the 32-bit little-endian value `v` at byte offset `off`.
pub(crate) fn put_u32(d: &mut Vec<u8>, off: usize, v: u32)
    requires
        off + 4 <= old(d).len(),
    ensures
        final(d)@.len() == old(d)@.len(),
        u32_at(final(d)@, off as int) == v as int,
        final(d)@[off as int] == ((v as int) % 256) as u8,
        final(d)@[off + 1] == (((v as int) / 256) % 256) as u8,
        final(d)@[off + 2] == (((v as int) / 65536) % 256) as u8,
        final(d)@[off + 3] == ((v as int) / 16777216) as u8,
        forall|b: int|
            0 <= b < old(d)@.len() && !(off <= b < off + 4) ==> final(d)@[b] == old(d)@[b],
{
    proof {
        lemma_fundamental_div_mod(v as int, 256);
        lemma_fundamental_div_mod((v as int) / 256, 256);
        lemma_fundamental_div_mod((v as int) / 65536, 256);
        vstd::arithmetic::div_mod::lemma_div_denominator(v as int, 256, 256);
        vstd::arithmetic::div_mod::lemma_div_denominator(v as int, 65536, 256);
    }
    d[off] = (v % 256) as u8;
    d[off + 1] = ((v / 256) % 256) as u8;
    d[off + 2] = ((v / 65536) % 256) as u8;
    d[off + 3] = (v / 16777216) as u8;
}

/// Computes the sum of the lengths of the valid slots below `i`, reading
/// the slot array of `data`; `d` is a snapshot whose slots have the same
/// validity and lengths, and the sum is stated against it.
fn prefix_sum_exec(data: &Vec<u8>, i: usize, d: Ghost<Seq<u8>>) -> (r: usize)
    requires
        data@.len() == 4096,
        4 * i <= 4095,
        forall|j: int|
            0 <= j < i ==> (#[trigger] slot_valid(data@, j) <==> slot_valid(d@, j)) && slot_len(
                data@,
                j,
            ) == slot_len(d@, j),
        crate::layout::valid_len_sum(d@, i as int) <= 4096,
    ensures
        r as int == crate::layout::valid_len_sum(d@, i as int),
{
    proof {
        crate::layout::lemma_sum_nonneg(d@, i as int);
    }
    let mut acc: usize = 0;
    let mut j: usize = 0;
    while j < i
        invariant
            data@.len() == 4096,
            4 * i <= 4095,
            j <= i,
            forall|c: int|
                0 <= c < i ==> (#[trigger] slot_valid(data@, c) <==> slot_valid(d@, c)) && slot_len(
                    data@,
                    c,
                ) == slot_len(d@, c),
            acc as int == crate::layout::valid_len_sum(d@, j as int),
            crate::layout::valid_len_sum(d@, i as int) <= 4096,
        decreases i - j,
    {
        proof {
            crate::layout::lemma_sum_monotonic(d@, j + 1, i as int);
            crate::layout::lemma_sum_nonneg(d@, j as int);
            assert(slot_valid(data@, j as int) <==> slot_valid(d@, j as int));
            assert(slot_len(data@, j as int) == slot_len(d@, j as int));
        }
        let pos = 4096 - 4 * (j + 1);
        let off = get_u16(data, pos);
        let len = get_u16(data, pos + 2);
        if !(off == 0 && len == 0) {
            proof {
                assert(slot_valid(data@, j as int));
            }
            acc = acc + len as usize;
        } else {
            proof {
                assert(!slot_valid(data@, j as int));
            }
        }
        j = j + 1;
    }
    acc
}

/// Reads the 64-bit little-endian value at byte offset `off`.
pub(crate) fn get_u64(d: &Vec<u8>, off: usize) -> (r: u64)
    requires
        off + 8 <= d.len(),
    ensures
        r as int == crate::layout::u64_at(d@, off as int),
{
    let b0 = d[off];
    let b1 = d[off + 1];
    let b2 = d[off + 2];
    let b3 = d[off + 3];
    let b4 = d[off + 4];
    let b5 = d[off + 5];
    let b6 = d[off + 6];
    let b7 = d[off + 7];
    let r = (b0 as u64) + (b1 as u64) * 256 + (b2 as u64) * 65536 + (b3 as u64) * 16777216 + (
    b4 as u64) * 4294967296 + (b5 as u64) * 1099511627776 + (b6 as u64) * 281474976710656 + (
    b7 as u64) * 72057594037927936;
    proof {
        assert(d@.subrange(off as int, off + 8)[0] == b0);
        assert(d@.subrange(off as int, off + 8)[1] == b1);
        assert(d@.subrange(off as int, off + 8)[2] == b2);
        assert(d@.subrange(off as int, off + 8)[3] == b3);
        assert(d@.subrange(off as int, off + 8)[4] == b4);
        assert(d@.subrange(off as int, off + 8)[5] == b5);
        assert(d@.subrange(off as int, off + 8)[6] == b6);
        assert(d@.subrange(off as int, off + 8)[7] == b7);
    }
    r
}

/// Writes the 64-bit little-endian value `v` at byte offset `off`.
pub(crate) fn put_u64(d: &mut Vec<u8>, off: usize, v: u64)
    requires
        off + 8 <= old(d).len(),
    ensures
        final(d)@.len() == old(d)@.len(),
        crate::layout::u64_at(final(d)@, off as int) == v as int,
        forall|b: int|
            0 <= b < old(d)@.len() && !(off <= b < off + 8) ==> final(d)@[b] == old(d)@[b],
{
    proof {
        lemma_fundamental_div_mod(v as int, 256);
        lemma_fundamental_div_mod((v as int) / 256, 256);
        lemma_fundamental_div_mod((v as int) / 65536, 256);
        lemma_fundamental_div_mod((v as int) / 16777216, 256);
        lemma_fundamental_div_mod((v as int) / 4294967296, 256);
        lemma_fundamental_div_mod((v as int) / 1099511627776, 256);
        lemma_fundamental_div_mod((v as int) / 281474976710656, 256);
        vstd::arithmetic::div_mod::lemma_div_denominator(v as int, 256, 256);
        vstd::arithmetic::div_mod::lemma_div_denominator(v as int, 65536, 256);
        vstd::arithmetic::div_mod::lemma_div_denominator(v as int, 16777216, 256);
        vstd::arithmetic::div_mod::lemma_div_denominator(v as int, 4294967296, 256);
        vstd::arithmetic::div_mod::lemma_div_denominator(v as int, 1099511627776, 256);
        vstd::arithmetic::div_mod::lemma_div_denominator(v as int, 281474976710656, 256);
    }
    d[off] = (v % 256) as u8;
    d[off + 1] = ((v / 256) % 256) as u8;
    d[off + 2] = ((v / 65536) % 256) as u8;
    d[off + 3] = ((v / 16777216) % 256) as u8;
    d[off + 4] = ((v / 4294967296) % 256) as u8;
    d[off + 5] = ((v / 1099511627776) % 256) as u8;
    d[off + 6] = ((v / 281474976710656) % 256) as u8;
    d[off + 7] = (v / 72057594037927936) as u8;
    proof {
        assert(d@.subrange(off as int, off + 8) =~= seq![
            ((v as int) % 256) as u8,
            (((v as int) / 256) % 256) as u8,
            (((v as int) / 65536) % 256) as u8,
            (((v as int) / 16777216) % 256) as u8,
            (((v as int) / 4294967296) % 256) as u8,
            (((v as int) / 1099511627776) % 256) as u8,
            (((v as int) / 281474976710656) % 256) as u8,
            ((v as int) / 72057594037927936) as u8,
        ]);
    }
}

/// During compaction, the slots below `k` have been redirected to the
/// packed positions while the rest still hold their original offsets;
/// lengths are untouched.
spec fn slots_redirected(d: Seq<u8>, cur: Seq<u8>, sc: int, k: int) -> bool {
    forall|j: int|
        0 <= j < sc ==> #[trigger] slot_len(cur, j) == slot_len(d, j) && slot_off(cur, j) == (if j
            < k && slot_valid(d, j) {
            96 + crate::layout::valid_len_sum(d, j)
        } else {
            slot_off(d, j)
        })
}

/// Wrapper around a fixed-size byte array representing a page.
pub struct Page {
    /// Unique identifier of the page.
    page_id: PageId,
    /// The `PAGE_SIZE` bytes of the page, owned by this struct.
    data: Vec<u8>,
}

impl Page {
    /// The page's byte content, as a mathematical sequence.
    pub closed spec fn bytes(&self) -> Seq<u8> {
        self.data@
    }

    /// The page's identifier.
    pub closed spec fn id(&self) -> PageId {
        self.page_id
    }

    /// The byte array has exactly the page size.
    pub open spec fn wf(&self) -> bool {
        self.bytes().len() == 4096
    }

    /// Creates a new page with all bytes initialized to zero.
    pub fn new_zeroed(page_id: PageId) -> (r: Page)
        ensures
            r.wf(),
            r.id() == page_id,
            forall|i: int| 0 <= i < 4096 ==> r.bytes()[i] == 0u8,
    {
        Page { page_id, data: vec![0u8; 4096] }
    }

    /// Creates a new page from an existing byte array.
    pub fn new_from_bytes(bytes: Vec<u8>, page_id: PageId) -> (r: Page)
        requires
            bytes@.len() == 4096,
        ensures
            r.wf(),
            r.id() == page_id,
            r.bytes() == bytes@,
    {
        Page { page_id, data: bytes }
    }

    /// Creates a new empty page with the given page id and page type: a
    /// zeroed byte array whose header is set up for an empty page.
    pub fn new_empty(page_id: PageId, page_type: PageType) -> (r: Result<Page, PageError>)
        ensures
            match r {
                Ok(p) => p.wf() && p.id() == page_id && p.bytes() == init_page_bytes(
                    page_id.page_number,
                    page_type.code(),
                ),
                Err(e) => false,
            },
    {
        let mut page = Page::new_zeroed(page_id);
        match page.initialize(page_id, page_type) {
            Ok(u) => Ok(page),
            Err(e) => Err(e),
        }
    }

    /// Returns the unique identifier of the page.
    pub fn page_id(&self) -> (r: PageId)
        ensures
            r == self.id(),
    {
        self.page_id
    }

    /// Sets the `PageId` field of the page.
    pub fn set_page_id(&mut self, page_id: PageId)
        ensures
            final(self).id() == page_id,
            final(self).bytes() == old(self).bytes(),
    {
        self.page_id = page_id;
    }

    /// Returns an immutable reference to the underlying bytes of the page.
    pub fn data(&self) -> (r: &Vec<u8>)
        ensures
            r@ == self.bytes(),
    {
        &self.data
    }

    /// Returns a mutable reference to the underlying bytes of the page.
    pub fn data_mut(&mut self) -> (r: &mut Vec<u8>)
        ensures
            (*r)@ == old(self).bytes(),
            final(self).bytes() == final(r)@,
            final(self).id() == old(self).id(),
    {
        &mut self.data
    }

    /// Initializes the page for the given `PageId` and `PageType`: the byte
    /// array is zeroed, then the header is set up for an empty page. The
    /// result depends only on the arguments, so initializing twice equals
    /// initializing once. The page's own id field is left as it was.
    pub fn initialize(&mut self, page_id: PageId, page_type: PageType) -> (r: PageResult<()>)
        ensures
            r is Ok,
            final(self).wf(),
            final(self).bytes() == init_page_bytes(page_id.page_number, page_type.code()),
            final(self).id() == old(self).id(),
    {
        self.data = vec![0u8; 4096];
        put_u16(&mut self.data, 2, 96);
        put_u16(&mut self.data, 4, 4095);
        put_u16(&mut self.data, 6, 4000);
        put_u32(&mut self.data, 10, page_id.page_number);
        put_u16(&mut self.data, 14, page_type.as_u16());
        proof {
            lemma_fundamental_div_mod(page_type.code() as int, 256);
            assert(self.data@ =~= init_page_bytes(page_id.page_number, page_type.code()));
        }
        Ok(())
    }

    /// Retrieves a row from the page by its slot index, as a copy of its
    /// bytes.
    ///
    /// Fails with `SlotRegionSizeMismatch` when the header's slot count and
    /// free-end pointer disagree, with `InvalidSlot` when the index is out
    /// of range or the slot is invalid, and with a byte-range error when a
    /// slot points past the end of the page.
    pub fn row(&self, slot_index: u32) -> (r: PageResult<Vec<u8>>)
        requires
            self.wf(),
        ensures
            ({
                let d = self.bytes();
                match r {
                    Ok(bytes) => slot_region_ok(d) && (slot_index as int) < slot_count_of(d)
                        && slot_valid(d, slot_index as int) && bytes@ == row_of(
                        d,
                        slot_index as int,
                    ),
                    Err(e) => e.page_id == self.id() && if !slot_region_ok(d) {
                        e.source == PageOpError::ReadRow(
                            ReadRowError::SlotError(
                                SlotError::SlotRegionSizeMismatch {
                                    expected_size: (4 * slot_count_of(d)) as usize,
                                    actual_size: region_actual_size(d) as usize,
                                },
                            ),
                        )
                    } else if slot_index as int >= slot_count_of(d) || !slot_valid(
                        d,
                        slot_index as int,
                    ) {
                        e.source == PageOpError::ReadRow(
                            ReadRowError::SlotError(
                                SlotError::InvalidSlot { slot_index: slot_index as usize },
                            ),
                        )
                    } else {
                        slot_off(d, slot_index as int) + slot_len(d, slot_index as int) > 4096
                            && e.source == PageOpError::ReadRow(
                            ReadRowError::SlotError(
                                SlotError::BinaryError(
                                    crate::le::BinaryError::BytesSliceSizeMismatch {
                                        expected: slot_len(d, slot_index as int) as usize,
                                        from_offset: slot_off(d, slot_index as int) as usize,
                                    },
                                ),
                            ),
                        )
                    },
                }
            }),
    {
        let sc = get_u16(&self.data, 0) as usize;
        let fe = get_u16(&self.data, 4) as usize;
        let region_len: usize = if fe < 4096 {
            4096 - (fe + 1)
        } else {
            0
        };
        if fe >= 4096 || region_len != 4 * sc {
            return Err(
                PageError {
                    page_id: self.page_id,
                    source: PageOpError::ReadRow(
                        ReadRowError::SlotError(
                            SlotError::SlotRegionSizeMismatch {
                                expected_size: 4 * sc,
                                actual_size: region_len,
                            },
                        ),
                    ),
                },
            );
        }
        if slot_index as usize >= sc {
            return Err(
                PageError {
                    page_id: self.page_id,
                    source: PageOpError::ReadRow(
                        ReadRowError::SlotError(
                            SlotError::InvalidSlot { slot_index: slot_index as usize },
                        ),
                    ),
                },
            );
        }
        let pos = 4096 - 4 * (slot_index as usize + 1);
        let off = get_u16(&self.data, pos) as usize;
        let len = get_u16(&self.data, pos + 2) as usize;
        if off == 0 && len == 0 {
            return Err(
                PageError {
                    page_id: self.page_id,
                    source: PageOpError::ReadRow(
                        ReadRowError::SlotError(
                            SlotError::InvalidSlot { slot_index: slot_index as usize },
                        ),
                    ),
                },
            );
        }
        if off + len > 4096 {
            // A slot pointing past the page is corruption; surface it as
            // the byte-range error instead of reading out of bounds.
            return Err(
                PageError {
                    page_id: self.page_id,
                    source: PageOpError::ReadRow(
                        ReadRowError::SlotError(
                            SlotError::BinaryError(
                                crate::le::BinaryError::BytesSliceSizeMismatch {
                                    expected: len,
                                    from_offset: off,
                                },
                            ),
                        ),
                    ),
                },
            );
        }
        let mut out: Vec<u8> = Vec::new();
        let mut k: usize = 0;
        while k < len
            invariant
                k <= len,
                off + len <= self.data.len(),
                out@ =~= self.data@.subrange(off as int, off + k),
            decreases len - k,
        {
            out.push(self.data[off + k]);
            k = k + 1;
        }
        Ok(out)
    }

    /// The spec-level view of an optional ignored slot index.
    pub open spec fn ig_of(o: Option<usize>) -> Option<int> {
        match o {
            Some(u) => Some(u as int),
            None => None,
        }
    }

    /// Chooses the slot for an insertion: the first invalid slot is reused,
    /// and a new slot is appended when every slot is valid.
    ///
    /// Fails with `SlotRegionSizeMismatch` when the header's slot count and
    /// free-end pointer disagree.
    pub fn get_insertion_slot(&self) -> (r: Result<InsertionSlot, InsertError>)
        requires
            self.wf(),
        ensures
            ({
                let d = self.bytes();
                match r {
                    Ok(s) => slot_region_ok(d) && slot_choice(d, s),
                    Err(e) => !slot_region_ok(d) && e == InsertError::SlotError(
                        SlotError::SlotRegionSizeMismatch {
                            expected_size: (4 * slot_count_of(d)) as usize,
                            actual_size: region_actual_size(d) as usize,
                        },
                    ),
                }
            }),
    {
        let sc = get_u16(&self.data, 0) as usize;
        let fe = get_u16(&self.data, 4) as usize;
        let region_len: usize = if fe < 4096 {
            4096 - (fe + 1)
        } else {
            0
        };
        if fe >= 4096 || region_len != 4 * sc {
            return Err(
                InsertError::SlotError(
                    SlotError::SlotRegionSizeMismatch {
                        expected_size: 4 * sc,
                        actual_size: region_len,
                    },
                ),
            );
        }
        let mut i: usize = 0;
        while i < sc
            invariant
                self.wf(),
                i <= sc,
                sc == slot_count_of(self.bytes()),
                slot_region_ok(self.bytes()),
                4 * sc <= 4095,
                forall|j: int| 0 <= j < i ==> slot_valid(self.bytes(), j),
            decreases sc - i,
        {
            let pos = 4096 - 4 * (i + 1);
            let off = get_u16(&self.data, pos);
            let len = get_u16(&self.data, pos + 2);
            if off == 0 && len == 0 {
                return Ok(InsertionSlot::Reuse(i));
            }
            i = i + 1;
        }
        Ok(InsertionSlot::New)
    }

    /// Finds where a row of `row_len` bytes can be placed: the contiguous
    /// free area if it is large enough, otherwise the first gap between
    /// rows (ordered by offset, ties by slot index) that fits, otherwise
    /// the tail gap after the physically last row, otherwise after a
    /// compaction. When
    /// `ignore_slot` names a slot, that slot's length is treated as zero,
    /// so its own bytes count as free; updates use this when relocating a
    /// row.
    ///
    /// Fails with `SlotRegionSizeMismatch` when the header's slot count and
    /// free-end pointer disagree.
    pub fn find_insertion_offset(&self, row_len: usize, ignore_slot: Option<usize>) -> (r: Result<
        InsertionOffset,
        InsertError,
    >)
        requires
            self.wf(),
        ensures
            ({
                let d = self.bytes();
                let ig = Self::ig_of(ignore_slot);
                match r {
                    Ok(ofs) => {
                        &&& slot_region_ok(d)
                        &&& offset_choice(d, ig, row_len as int, ofs)
                        &&& (fast_path_fits(d, row_len as int) ==> ofs == InsertionOffset::Exact(
                            free_start_of(d) as usize,
                        ))
                        &&& (!fast_path_fits(d, row_len as int) && !(exists|c: int| ext_is(d, c))
                            ==> ofs == InsertionOffset::AfterCompactionFreeStart)
                        &&& match ofs {
                            InsertionOffset::Exact(pos) => (pos == free_start_of(d)
                                && fast_path_fits(d, row_len as int)) || (exists|a: int, b: int|
                                window_fit(d, ig, row_len as int, a, b) && pos == ext_end(d, ig, a))
                                || (exists|l: int|
                                is_last_ext(d, l) && free_end_of(d) >= ext_end(d, ig, l)
                                    && free_end_of(d) - ext_end(d, ig, l) >= row_len as int && pos
                                    == ext_end(d, ig, l)),
                            InsertionOffset::AfterCompactionFreeStart => true,
                        }
                    },
                    Err(e) => !slot_region_ok(d) && e == InsertError::SlotError(
                        SlotError::SlotRegionSizeMismatch {
                            expected_size: (4 * slot_count_of(d)) as usize,
                            actual_size: region_actual_size(d) as usize,
                        },
                    ),
                }
            }),
    {
        let ghost d = self.bytes();
        let ghost ig = Self::ig_of(ignore_slot);
        let ghost len_g = row_len as int;
        let sc = get_u16(&self.data, 0) as usize;
        let fs = get_u16(&self.data, 2) as usize;
        let fe = get_u16(&self.data, 4) as usize;
        let region_len: usize = if fe < 4096 {
            4096 - (fe + 1)
        } else {
            0
        };
        if fe >= 4096 || region_len != 4 * sc {
            return Err(
                InsertError::SlotError(
                    SlotError::SlotRegionSizeMismatch {
                        expected_size: 4 * sc,
                        actual_size: region_len,
                    },
                ),
            );
        }
        // Fast path: the row fits in the contiguous free area.
        if (if fe >= fs {
            fe - fs
        } else {
            0
        }) >= row_len {
            return Ok(InsertionOffset::Exact(fs));
        }
        let mut found_any = false;
        let mut last_start: usize = 0;
        let mut last_end: usize = 0;
        let ghost mut last_g: int = 0;
        let mut best_set = false;
        let mut best_start: usize = 0;
        let mut best_pos: usize = 0;
        let ghost mut best_a: int = 0;
        let ghost mut best_b: int = 0;
        let mut i: usize = 0;
        while i < sc
            invariant
                self.wf(),
                d == self.bytes(),
                ig == Self::ig_of(ignore_slot),
                len_g == row_len as int,
                i <= sc,
                sc == slot_count_of(d),
                slot_region_ok(d),
                4 * sc <= 4095,
                found_any <==> exists|c: int| 0 <= c < i && ext_is(d, c),
                found_any ==> 0 <= last_g < i && ext_is(d, last_g) && slot_off(d, last_g)
                    == last_start && ext_end(d, ig, last_g) == last_end,
                found_any ==> forall|c: int|
                    0 <= c < i && #[trigger] ext_is(d, c) && c != last_g ==> ext_before(
                        d,
                        c,
                        last_g,
                    ),
                best_set ==> 0 <= best_a < i && window_fit(d, ig, len_g, best_a, best_b)
                    && slot_off(d, best_a) == best_start && ext_end(d, ig, best_a) == best_pos,
                best_set ==> forall|a2: int, b2: int|
                    0 <= a2 < i && #[trigger] window_fit(d, ig, len_g, a2, b2) ==> a2 == best_a
                        || ext_before(d, best_a, a2),
                !best_set ==> forall|a2: int, b2: int|
                    0 <= a2 < i ==> !(#[trigger] window_fit(d, ig, len_g, a2, b2)),
            decreases sc - i,
        {
            let pos = 4096 - 4 * (i + 1);
            let off_i = get_u16(&self.data, pos) as usize;
            let len_i = get_u16(&self.data, pos + 2) as usize;
            if !(off_i == 0 && len_i == 0) {
                let is_ig = match ignore_slot {
                    Some(g) => g == i,
                    None => false,
                };
                let end_i = if is_ig {
                    off_i
                } else {
                    off_i + len_i
                };
                proof {
                    assert(ext_is(d, i as int));
                    assert(ext_end(d, ig, i as int) == end_i as int);
                }
                if !found_any || off_i >= last_start {
                    last_start = off_i;
                    last_end = end_i;
                    proof {
                        last_g = i as int;
                    }
                }
                found_any = true;
                // Look for this extent's successor: the next extent in the
                // search order.
                let mut succ_set = false;
                let mut succ_start: usize = 0;
                let mut succ_idx: usize = 0;
                let ghost mut succ_g: int = 0;
                let mut j: usize = 0;
                while j < sc
                    invariant
                        self.wf(),
                        d == self.bytes(),
                        j <= sc,
                        sc == slot_count_of(d),
                        4 * sc <= 4095,
                        i < sc,
                        ext_is(d, i as int),
                        off_i as int == slot_off(d, i as int),
                        succ_set ==> ext_is(d, succ_g) && slot_off(d, succ_g) == succ_start
                            && succ_g == succ_idx && succ_idx < j && ext_before(
                            d,
                            i as int,
                            succ_g,
                        ),
                        succ_set ==> forall|c: int|
                            0 <= c < j && #[trigger] ext_is(d, c) && c != succ_g && ext_before(
                                d,
                                i as int,
                                c,
                            ) ==> ext_before(d, succ_g, c),
                        !succ_set ==> forall|c: int|
                            0 <= c < j && #[trigger] ext_is(d, c) && c != i ==> ext_before(
                                d,
                                c,
                                i as int,
                            ),
                    decreases sc - j,
                {
                    let posj = 4096 - 4 * (j + 1);
                    let off_j = get_u16(&self.data, posj) as usize;
                    let len_j = get_u16(&self.data, posj + 2) as usize;
                    if !(off_j == 0 && len_j == 0) && (off_j > off_i || (off_j == off_i && j > i))
                        && (!succ_set || off_j < succ_start) {
                        succ_start = off_j;
                        succ_idx = j;
                        succ_set = true;
                        proof {
                            succ_g = j as int;
                        }
                    }
                    j = j + 1;
                }
                proof {
                    if succ_set {
                        assert(is_succ(d, i as int, succ_g)) by {
                            assert forall|c: int|
                                #[trigger] ext_is(d, c) && c != i as int && c != succ_g implies
                                ext_before(d, c, i as int) || ext_before(d, succ_g, c) by {
                                if ext_before(d, i as int, c) {
                                    assert(ext_before(d, succ_g, c));
                                }
                            }
                        }
                        // The successor in the search order is unique.
                        assert forall|b2: int| is_succ(d, i as int, b2) implies b2 == succ_g by {
                            if b2 != succ_g {
                                assert(ext_before(d, succ_g, i as int) || ext_before(
                                    d,
                                    b2,
                                    succ_g,
                                ));
                                assert(ext_before(d, b2, i as int) || ext_before(d, succ_g, b2));
                            }
                        }
                    }
                }
                if succ_set && succ_start >= end_i && succ_start - end_i >= row_len {
                    proof {
                        assert(window_fit(d, ig, len_g, i as int, succ_g));
                    }
                    if !best_set || off_i < best_start {
                        best_set = true;
                        best_start = off_i;
                        best_pos = end_i;
                        proof {
                            best_a = i as int;
                            best_b = succ_g;
                        }
                    }
                } else {
                    // No gap follows this extent: either nothing comes
                    // after it in the search order, or what does leaves too
                    // little room.
                    proof {
                        assert forall|b2: int| !window_fit(d, ig, len_g, i as int, b2) by {
                            if is_succ(d, i as int, b2) {
                                assert(succ_set) by {
                                    if !succ_set {
                                        assert(ext_is(d, b2) && ext_before(d, i as int, b2));
                                        assert(b2 != i as int);
                                        assert(ext_before(d, b2, i as int));
                                    }
                                }
                                assert(b2 == succ_g);
                            }
                        }
                    }
                }
            }
            i = i + 1;
        }
        if !found_any {
            return Ok(InsertionOffset::AfterCompactionFreeStart);
        }
        if best_set {
            proof {
                assert(first_fit(d, ig, len_g, best_a, best_b));
            }
            return Ok(InsertionOffset::Exact(best_pos));
        }
        if fe >= last_end && fe - last_end >= row_len {
            proof {
                assert(is_last_ext(d, last_g));
            }
            return Ok(InsertionOffset::Exact(last_end));
        }
        proof {
            assert(is_last_ext(d, last_g));
            assert forall|l: int| is_last_ext(d, l) implies l == last_g by {
                if l != last_g {
                    assert(ext_before(d, l, last_g));
                    assert(ext_before(d, last_g, l));
                }
            }
        }
        Ok(InsertionOffset::AfterCompactionFreeStart)
    }

    /// Plans the insertion of a row into the page: which slot to use and
    /// where the bytes go. Does not mutate.
    ///
    /// Fails with `NotEnoughSpace` when the free space cannot hold the row
    /// plus a new slot entry if one is needed, and with
    /// `SlotRegionSizeMismatch` when the header is inconsistent. The error
    /// is annotated with the page's id.
    pub fn plan_insert(&self, row_len: usize) -> (r: PageResult<InsertionPlan>)
        requires
            self.wf(),
        ensures
            ({
                let d = self.bytes();
                match r {
                    Ok(plan) => {
                        &&& slot_region_ok(d)
                        &&& free_space_of(d) >= required_space(d, row_len as int)
                        &&& slot_choice(d, plan.slot)
                        &&& offset_choice(d, None, row_len as int, plan.offset)
                        &&& (fast_path_fits(d, row_len as int) ==> plan.offset
                            == InsertionOffset::Exact(free_start_of(d) as usize))
                        &&& match plan.offset {
                            InsertionOffset::Exact(pos) => (pos == free_start_of(d)
                                && fast_path_fits(d, row_len as int)) || (exists|a: int, b: int|
                                window_fit(d, None, row_len as int, a, b) && pos == ext_end(
                                    d,
                                    None,
                                    a,
                                )) || (exists|l: int|
                                is_last_ext(d, l) && free_end_of(d) >= ext_end(d, None, l)
                                    && free_end_of(d) - ext_end(d, None, l) >= row_len as int && pos
                                    == ext_end(d, None, l)),
                            InsertionOffset::AfterCompactionFreeStart => true,
                        }
                    },
                    Err(e) => e.page_id == self.id() && if !slot_region_ok(d) {
                        e.source == PageOpError::Insert(
                            InsertError::SlotError(
                                SlotError::SlotRegionSizeMismatch {
                                    expected_size: (4 * slot_count_of(d)) as usize,
                                    actual_size: region_actual_size(d) as usize,
                                },
                            ),
                        )
                    } else {
                        free_space_of(d) < required_space(d, row_len as int) && e.source
                            == PageOpError::Insert(
                            InsertError::NotEnoughSpace {
                                row_len: row_len,
                                page_free_space: free_space_of(d) as usize,
                            },
                        )
                    },
                }
            }),
    {
        let slot = match self.get_insertion_slot() {
            Ok(s) => s,
            Err(e) => {
                return Err(PageError { page_id: self.page_id, source: PageOpError::Insert(e) });
            },
        };
        let fsp = get_u16(&self.data, 6) as usize;
        let needs_new_slot = match slot {
            InsertionSlot::New => true,
            InsertionSlot::Reuse(u) => false,
        };
        proof {
            if has_invalid_slot(self.bytes()) {
                assert(!needs_new_slot);
            } else {
                assert(needs_new_slot) by {
                    if slot is Reuse {
                        assert(has_invalid_slot(self.bytes()));
                    }
                }
            }
        }
        if row_len > 65535 {
            return Err(
                PageError {
                    page_id: self.page_id,
                    source: PageOpError::Insert(
                        InsertError::NotEnoughSpace { row_len, page_free_space: fsp },
                    ),
                },
            );
        }
        let required_total = row_len + if needs_new_slot {
            4
        } else {
            0
        };
        if fsp < required_total {
            return Err(
                PageError {
                    page_id: self.page_id,
                    source: PageOpError::Insert(
                        InsertError::NotEnoughSpace { row_len, page_free_space: fsp },
                    ),
                },
            );
        }
        let offset = match self.find_insertion_offset(row_len, None) {
            Ok(o) => o,
            Err(e) => {
                return Err(PageError { page_id: self.page_id, source: PageOpError::Insert(e) });
            },
        };
        Ok(InsertionPlan { slot, offset })
    }

    /// Rewrites the tuple region without holes: each valid row is moved, in
    /// slot-index order, to the first free byte after the rows before it;
    /// the slots are redirected, `free_start` retreats to the end of the
    /// rewritten rows, and the compactable mark is cleared. Row contents
    /// and slot indices are preserved.
    #[verifier::rlimit(60)]
    pub fn compact(&mut self) -> (r: PageResult<()>)
        requires
            old(self).wf(),
            compact_pre(old(self).bytes()),
        ensures
            r is Ok,
            final(self).wf(),
            final(self).id() == old(self).id(),
            compact_applied(old(self).bytes(), final(self).bytes()),
    {
        let ghost d = self.bytes();
        let sc = get_u16(&self.data, 0) as usize;
        proof {
            assert(96 <= free_end_of(d) + 1) by {
                crate::layout::lemma_sum_nonneg(d, sc as int);
            }
        }
        // Gather the valid rows, in slot-index order, into a scratch buffer.
        let mut scratch: Vec<u8> = Vec::new();
        let mut i: usize = 0;
        while i < sc
            invariant
                self.wf(),
                self.id() == old(self).id(),
                d == self.bytes(),
                compact_pre(d),
                i <= sc,
                sc == slot_count_of(d),
                4 * sc <= 4000,
                scratch@.len() == crate::layout::valid_len_sum(d, i as int),
                forall|j: int|
                    0 <= j < i && slot_valid(d, j) ==> #[trigger] scratch@.subrange(
                        crate::layout::valid_len_sum(d, j),
                        crate::layout::valid_len_sum(d, j) + slot_len(d, j),
                    ) == row_of(d, j),
            decreases sc - i,
        {
            proof {
                crate::layout::lemma_sum_nonneg(d, i as int);
            }
            let pos = 4096 - 4 * (i + 1);
            let off = get_u16(&self.data, pos) as usize;
            let len = get_u16(&self.data, pos + 2) as usize;
            if !(off == 0 && len == 0) {
                proof {
                    assert(slot_valid(d, i as int));
                    assert(slot_off(d, i as int) + slot_len(d, i as int) <= 4096);
                    assert(scratch@ =~= scratch@ + d.subrange(off as int, off as int));
                }
                let ghost scratch0 = scratch@;
                let mut k: usize = 0;
                while k < len
                    invariant
                        self.wf(),
                        d == self.bytes(),
                        k <= len,
                        off + len <= 4096,
                        off as int == slot_off(d, i as int),
                        len as int == slot_len(d, i as int),
                        scratch@ == scratch0 + d.subrange(off as int, off + k),
                    decreases len - k,
                {
                    scratch.push(self.data[off + k]);
                    proof {
                        assert(scratch@ =~= scratch0 + d.subrange(off as int, off + k + 1));
                    }
                    k = k + 1;
                }
                proof {
                    assert(scratch@.subrange(
                        crate::layout::valid_len_sum(d, i as int),
                        crate::layout::valid_len_sum(d, i as int) + slot_len(d, i as int),
                    ) =~= row_of(d, i as int));
                    assert forall|j: int|
                        0 <= j < i + 1 && slot_valid(d, j) implies #[trigger] scratch@.subrange(
                        crate::layout::valid_len_sum(d, j),
                        crate::layout::valid_len_sum(d, j) + slot_len(d, j),
                    ) == row_of(d, j) by {
                        if j < i {
                            crate::layout::lemma_sum_nonneg(d, j);
                            crate::layout::lemma_sum_monotonic(d, j + 1, i as int);
                            assert(scratch0.subrange(
                                crate::layout::valid_len_sum(d, j),
                                crate::layout::valid_len_sum(d, j) + slot_len(d, j),
                            ) == row_of(d, j));
                            assert(scratch@.subrange(
                                crate::layout::valid_len_sum(d, j),
                                crate::layout::valid_len_sum(d, j) + slot_len(d, j),
                            ) =~= scratch0.subrange(
                                crate::layout::valid_len_sum(d, j),
                                crate::layout::valid_len_sum(d, j) + slot_len(d, j),
                            ));
                        }
                    }
                }
            } else {
                proof {
                    assert(!slot_valid(d, i as int));
                }
            }
            i = i + 1;
        }
        let packed = scratch.len();
        proof {
            assert(packed <= free_end_of(d) + 1 - 96);
        }
        // Redirect each valid slot to its row's new position.
        let mut i2: usize = 0;
        while i2 < sc
            invariant
                self.wf(),
                self.id() == old(self).id(),
                d.len() == 4096,
                compact_pre(d),
                i2 <= sc,
                sc == slot_count_of(d),
                4 * sc <= 4000,
                packed == crate::layout::valid_len_sum(d, sc as int),
                packed <= free_end_of(d) + 1 - 96,
                slots_redirected(d, self.bytes(), sc as int, i2 as int),
                forall|b: int|
                    0 <= b < 4096 && !(4096 - 4 * i2 <= b < 4096) ==> #[trigger] self.bytes()[b]
                        == d[b],
            decreases sc - i2,
        {
            proof {
                crate::layout::lemma_sum_nonneg(d, i2 as int);
                crate::layout::lemma_sum_monotonic(d, i2 as int, sc as int);
                assert(slot_off(self.bytes(), i2 as int) == slot_off(d, i2 as int));
                assert(slot_len(self.bytes(), i2 as int) == slot_len(d, i2 as int));
            }
            let ghost pre = self.bytes();
            let ghost target = i2 + 1;
            let pos = 4096 - 4 * (i2 + 1);
            let off = get_u16(&self.data, pos);
            let len = get_u16(&self.data, pos + 2);
            if !(off == 0 && len == 0) {
                proof {
                    assert(slot_valid(d, i2 as int));
                    assert forall|j: int|
                        0 <= j < i2 implies (#[trigger] slot_valid(self.bytes(), j) <==> slot_valid(
                        d,
                        j,
                    )) && slot_len(self.bytes(), j) == slot_len(d, j) by {
                        assert(slot_len(self.bytes(), j) == slot_len(d, j));
                        if slot_valid(d, j) {
                            crate::layout::lemma_sum_nonneg(d, j);
                            assert(slot_off(self.bytes(), j) == 96 + crate::layout::valid_len_sum(
                                d,
                                j,
                            ));
                        } else {
                            assert(slot_off(self.bytes(), j) == slot_off(d, j));
                        }
                    }
                }
                let new_off = 96 + prefix_sum_exec(&self.data, i2, Ghost(d));
                put_u16(&mut self.data, pos, new_off as u16);
                proof {
                    assert(slots_redirected(d, self.bytes(), sc as int, target)) by {
                        assert forall|j: int|
                            0 <= j < sc implies #[trigger] slot_len(self.bytes(), j) == slot_len(
                            d,
                            j,
                        ) && slot_off(self.bytes(), j) == (if j < target && slot_valid(d, j) {
                            96 + crate::layout::valid_len_sum(d, j)
                        } else {
                            slot_off(d, j)
                        }) by {
                            if j < i2 {
                                assert(crate::layout::slot_pos(j) >= pos + 4);
                                assert(slot_off(self.bytes(), j) == slot_off(pre, j));
                                assert(slot_len(self.bytes(), j) == slot_len(pre, j));
                            } else if j == i2 {
                                assert(slot_off(self.bytes(), j) == new_off as int);
                                assert(slot_len(self.bytes(), j) == slot_len(pre, j));
                            } else {
                                assert(crate::layout::slot_pos(j) + 4 <= pos as int);
                                assert(slot_off(self.bytes(), j) == slot_off(pre, j));
                                assert(slot_len(self.bytes(), j) == slot_len(pre, j));
                            }
                        }
                    }
                }
            } else {
                proof {
                    assert(!slot_valid(d, i2 as int));
                    assert(slots_redirected(d, self.bytes(), sc as int, target)) by {
                        assert forall|j: int|
                            0 <= j < sc implies #[trigger] slot_len(self.bytes(), j) == slot_len(
                            d,
                            j,
                        ) && slot_off(self.bytes(), j) == (if j < target && slot_valid(d, j) {
                            96 + crate::layout::valid_len_sum(d, j)
                        } else {
                            slot_off(d, j)
                        }) by {
                            assert(slot_len(self.bytes(), j) == slot_len(d, j));
                            if j < target && slot_valid(d, j) {
                                assert(j != i2);
                                assert(slot_off(self.bytes(), j) == 96
                                    + crate::layout::valid_len_sum(d, j));
                            } else {
                                assert(slot_off(self.bytes(), j) == slot_off(d, j));
                            }
                        }
                    }
                }
            }
            i2 = i2 + 1;
        }
        // Copy the packed rows back over the tuple region.
        let mut k2: usize = 0;
        let ghost dm = self.bytes();
        while k2 < packed
            invariant
                self.wf(),
                self.id() == old(self).id(),
                k2 <= packed,
                96 + packed <= 4096,
                scratch@.len() == packed,
                dm.len() == 4096,
                self.bytes().len() == 4096,
                forall|b: int|
                    0 <= b < 4096 && !(96 <= b < 96 + k2) ==> #[trigger] self.bytes()[b] == dm[b],
                forall|b: int|
                    96 <= b < 96 + k2 ==> #[trigger] self.bytes()[b] == scratch@[b - 96],
            decreases packed - k2,
        {
            self.data[96 + k2] = scratch[k2];
            k2 = k2 + 1;
        }
        let ghost d3 = self.bytes();
        // Free space now starts right after the packed rows; the page holds
        // no holes any more.
        put_u16(&mut self.data, 2, (96 + packed) as u16);
        put_u16(&mut self.data, 8, 0);
        proof {
            let df = self.bytes();
            assert(free_end_of(d) + 1 <= 4096 - 4 * sc);
            assert forall|b: int|
                96 <= b < 4096 && !(96 <= b < 96 + packed) && !(4096 - 4 * sc <= b < 4096) implies
                #[trigger] df[b] == d[b] by {
                assert(df[b] == d3[b]);
                assert(d3[b] == dm[b]);
                assert(dm[b] == d[b]);
            }
            assert forall|b: int| 0 <= b < 96 && !(2 <= b < 4) && !(8 <= b < 10) implies
                #[trigger] df[b] == d[b] by {
                assert(df[b] == d3[b]);
                assert(d3[b] == dm[b]);
                assert(dm[b] == d[b]);
            }
            assert forall|j: int| 0 <= j < sc implies #[trigger] slot_off(df, j) == slot_off(
                dm,
                j,
            ) && slot_len(df, j) == slot_len(dm, j) by {
                assert(crate::layout::slot_pos(j) >= free_end_of(d) + 1 >= 96 + packed);
            }
            assert forall|i: int| 0 <= i < sc && slot_valid(d, i) implies #[trigger] df.subrange(
                96 + crate::layout::valid_len_sum(d, i),
                96 + crate::layout::valid_len_sum(d, i) + slot_len(d, i),
            ) == row_of(d, i) by {
                crate::layout::lemma_sum_nonneg(d, i);
                crate::layout::lemma_sum_monotonic(d, i + 1, sc as int);
                let s0 = crate::layout::valid_len_sum(d, i);
                assert(crate::layout::valid_len_sum(d, i + 1) == s0 + slot_len(d, i));
                assert forall|b: int| 96 + s0 <= b < 96 + s0 + slot_len(d, i) implies #[trigger] df[b]
                    == scratch@[b - 96] by {
                    assert(df[b] == d3[b]);
                    assert(d3[b] == scratch@[b - 96]);
                }
                assert(scratch@.subrange(s0, s0 + slot_len(d, i)) == row_of(d, i));
                assert(df.subrange(96 + s0, 96 + s0 + slot_len(d, i)) =~= scratch@.subrange(
                    s0,
                    s0 + slot_len(d, i),
                ));
            }
            assert(compact_applied(d, df));
        }
        Ok(())
    }

    /// Inserts a row into a heap page by applying an insertion plan: the
    /// page is compacted first if the plan asks for it, the row bytes are
    /// written at the planned position (or at `free_start` after
    /// compaction), the target slot points at them, and the header fields
    /// are settled: `free_start` advances only for an append at
    /// `free_start`, and `free_space` shrinks by the row plus a new slot
    /// entry if one was appended.
    pub fn insert_heap(&mut self, plan: InsertionPlan, row: Vec<u8>) -> (r: PageResult<()>)
        requires
            old(self).wf(),
            insert_pre(old(self).bytes(), plan, row@.len() as int),
        ensures
            r is Ok,
            final(self).wf(),
            final(self).id() == old(self).id(),
            match plan.offset {
                InsertionOffset::Exact(pos) => exact_insert_applied(
                    old(self).bytes(),
                    final(self).bytes(),
                    plan_slot_index(old(self).bytes(), plan),
                    plan_new_slot(plan),
                    pos as int,
                    row@,
                ),
                InsertionOffset::AfterCompactionFreeStart => exists|mid: Seq<u8>|
                    compact_applied(old(self).bytes(), mid) && exact_insert_applied(
                        mid,
                        final(self).bytes(),
                        plan_slot_index(old(self).bytes(), plan),
                        plan_new_slot(plan),
                        free_start_of(mid),
                        row@,
                    ),
            },
    {
        let ghost d0 = self.bytes();
        let is_compaction = match plan.offset {
            InsertionOffset::AfterCompactionFreeStart => true,
            InsertionOffset::Exact(p) => false,
        };
        if is_compaction {
            proof {
                lemma_wf_page_compact_pre(d0);
            }
            match self.compact() {
                Ok(u) => (),
                Err(e) => (),
            }
        }
        let ghost mid = self.bytes();
        proof {
            if is_compaction {
                assert(compact_applied(d0, mid));
                assert(free_space_of(mid) == free_space_of(d0));
                assert(slot_count_of(mid) == slot_count_of(d0));
                assert(free_end_of(mid) == free_end_of(d0));
                crate::layout::lemma_sum_nonneg(d0, slot_count_of(d0));
                assert(free_start_of(mid) + row@.len() <= 4096);
            }
        }
        let len = row.len();
        let start_offset = match plan.offset {
            InsertionOffset::Exact(p) => p,
            InsertionOffset::AfterCompactionFreeStart => get_u16(&self.data, 2) as usize,
        };
        let old_sc = get_u16(&self.data, 0);
        let (idx, newslot): (usize, bool) = match plan.slot {
            InsertionSlot::Reuse(i) => (i, false),
            InsertionSlot::New => (old_sc as usize, true),
        };
        if newslot {
            put_u16(&mut self.data, 0, old_sc + 1);
            let fe = get_u16(&self.data, 4);
            put_u16(&mut self.data, 4, fe - 4);
        }
        let fs = get_u16(&self.data, 2);
        let at_free_start = start_offset == fs as usize;
        if at_free_start {
            put_u16(&mut self.data, 2, fs + len as u16);
        }
        let fsp = get_u16(&self.data, 6);
        put_u16(
            &mut self.data,
            6,
            fsp - len as u16 - if newslot {
                4
            } else {
                0
            },
        );
        let ghost h = self.bytes();
        // Write the row bytes.
        let mut k: usize = 0;
        while k < len
            invariant
                self.wf(),
                self.id() == old(self).id(),
                k <= len,
                len == row@.len(),
                start_offset + len <= 4096,
                h.len() == 4096,
                forall|b: int|
                    0 <= b < 4096 && !(start_offset <= b < start_offset + k)
                        ==> #[trigger] self.bytes()[b] == h[b],
                forall|b: int|
                    start_offset <= b < start_offset + k ==> #[trigger] self.bytes()[b] == row@[b
                        - start_offset],
            decreases len - k,
        {
            self.data[start_offset + k] = row[k];
            k = k + 1;
        }
        // Write the slot entry last; where the row was planned over the
        // entry's own bytes, the entry wins.
        let pos = 4096 - 4 * (idx + 1);
        put_u16(&mut self.data, pos, start_offset as u16);
        put_u16(&mut self.data, pos + 2, len as u16);
        proof {
            let df = self.bytes();
            let gidx = plan_slot_index(d0, plan);
            assert(gidx == idx as int);
            assert(crate::layout::slot_pos(gidx) == pos as int);
            assert(slot_off(df, gidx) == start_offset as int);
            assert(slot_len(df, gidx) == len as int);
            assert forall|b: int|
                8 <= b < 4096 && !(start_offset <= b < start_offset + len) && !(pos <= b < pos + 4)
                    implies #[trigger] df[b] == mid[b] by {
                assert(df[b] == h[b]);
            }
            assert forall|kk: int|
                0 <= kk < len && !(pos <= start_offset + kk < pos + 4) implies #[trigger] df[
                start_offset + kk] == row@[kk] by {
                assert(self.bytes()[start_offset + kk] == row@[kk] || df[start_offset + kk]
                    == row@[kk]);
            }
            assert(slot_count_of(df) == slot_count_of(mid) + if plan_new_slot(plan) {
                1int
            } else {
                0int
            });
            assert(free_end_of(df) == free_end_of(mid) - if plan_new_slot(plan) {
                4int
            } else {
                0int
            });
            assert(free_start_of(df) == if start_offset as int == free_start_of(mid) {
                free_start_of(mid) + len
            } else {
                free_start_of(mid)
            });
            assert(free_space_of(df) == free_space_of(mid) - len - if plan_new_slot(plan) {
                4int
            } else {
                0int
            });
            assert(exact_insert_applied(mid, df, gidx, plan_new_slot(plan), start_offset as int, row@));
        }
        Ok(())
    }

    /// Deletes the row at `slot_index`: the slot is invalidated, its length
    /// returns to the free space, and either `free_start` retreats (when
    /// the deleted row was the physically last one) or the page is marked
    /// compactable. With `compact_requested`, the page is compacted
    /// afterwards. A well-formed page stays well formed.
    ///
    /// Fails with `InvalidSlot` when the index is out of range or the slot
    /// is already invalid, and with `SlotRegionSizeMismatch` when the
    /// header is inconsistent.
    #[verifier::rlimit(90)]
    pub fn delete_row(&mut self, slot_index: usize, compact_requested: bool) -> (r: PageResult<()>)
        requires
            old(self).wf(),
            (slot_region_ok(old(self).bytes()) && (slot_index as int) < slot_count_of(
                old(self).bytes(),
            ) && slot_valid(old(self).bytes(), slot_index as int)) ==> wf_page(old(self).bytes()),
        ensures
            final(self).wf(),
            final(self).id() == old(self).id(),
            ({
                let d = old(self).bytes();
                match r {
                    Ok(u) => {
                        &&& slot_region_ok(d)
                        &&& (slot_index as int) < slot_count_of(d)
                        &&& slot_valid(d, slot_index as int)
                        &&& exists|m1: Seq<u8>|
                            #[trigger] delete_applied(d, m1, slot_index as int) && (if
                            compact_requested {
                                compact_applied(m1, final(self).bytes())
                            } else {
                                final(self).bytes() == m1
                            })
                        &&& (distinct_starts(d) ==> wf_page(final(self).bytes()))
                    },
                    Err(e) => {
                        &&& final(self).bytes() == d
                        &&& e.page_id == old(self).id()
                        &&& if !slot_region_ok(d) {
                            e.source == PageOpError::DeleteRow(
                                DeleteError::SlotError(
                                    SlotError::SlotRegionSizeMismatch {
                                        expected_size: (4 * slot_count_of(d)) as usize,
                                        actual_size: region_actual_size(d) as usize,
                                    },
                                ),
                            )
                        } else {
                            ((slot_index as int) >= slot_count_of(d) || !slot_valid(
                                d,
                                slot_index as int,
                            )) && e.source == PageOpError::DeleteRow(
                                DeleteError::SlotError(SlotError::InvalidSlot { slot_index }),
                            )
                        }
                    },
                }
            }),
    {
        let ghost d = self.bytes();
        let sc = get_u16(&self.data, 0) as usize;
        let fe = get_u16(&self.data, 4) as usize;
        let region_len: usize = if fe < 4096 {
            4096 - (fe + 1)
        } else {
            0
        };
        if fe >= 4096 || region_len != 4 * sc {
            return Err(
                PageError {
                    page_id: self.page_id,
                    source: PageOpError::DeleteRow(
                        DeleteError::SlotError(
                            SlotError::SlotRegionSizeMismatch {
                                expected_size: 4 * sc,
                                actual_size: region_len,
                            },
                        ),
                    ),
                },
            );
        }
        if slot_index >= sc {
            return Err(
                PageError {
                    page_id: self.page_id,
                    source: PageOpError::DeleteRow(
                        DeleteError::SlotError(SlotError::InvalidSlot { slot_index }),
                    ),
                },
            );
        }
        let kpos = 4096 - 4 * (slot_index + 1);
        let k_off = get_u16(&self.data, kpos) as usize;
        let k_len = get_u16(&self.data, kpos + 2) as usize;
        if k_off == 0 && k_len == 0 {
            return Err(
                PageError {
                    page_id: self.page_id,
                    source: PageOpError::DeleteRow(
                        DeleteError::SlotError(SlotError::InvalidSlot { slot_index }),
                    ),
                },
            );
        }
        proof {
            assert(slot_valid(d, slot_index as int));
            assert(wf_page(d));
            crate::layout::lemma_sum_nonneg(d, slot_index as int);
            crate::layout::lemma_sum_monotonic(d, slot_index as int + 1, sc as int);
            assert(crate::layout::valid_len_sum(d, slot_index as int + 1)
                == crate::layout::valid_len_sum(d, slot_index as int) + slot_len(
                d,
                slot_index as int,
            ));
            assert(free_space_of(d) + slot_len(d, slot_index as int) <= 4000);
        }
        // Find the physically last row and the one just before it, to know
        // whether free_start may retreat and where to.
        let mut m_set = false;
        let mut m_idx: usize = 0;
        let mut m_start: usize = 0;
        let mut m_end: usize = 0;
        let mut sec_set = false;
        let mut sec_start: usize = 0;
        let mut sec_end: usize = 0;
        let ghost mut sec_g: int = 0;
        let mut i: usize = 0;
        while i < sc
            invariant
                self.wf(),
                d == self.bytes(),
                i <= sc,
                sc == slot_count_of(d),
                4 * sc <= 4095,
                m_set <==> exists|c: int| 0 <= c < i && ext_is(d, c),
                m_set ==> m_idx < i && ext_is(d, m_idx as int) && slot_off(d, m_idx as int)
                    == m_start && slot_off(d, m_idx as int) + slot_len(d, m_idx as int) == m_end,
                m_set ==> forall|c: int|
                    0 <= c < i && ext_is(d, c) ==> #[trigger] slot_off(d, c) <= m_start,
                m_set ==> forall|c: int|
                    0 <= c < i && #[trigger] ext_is(d, c) && c != m_idx as int ==> ext_before(
                        d,
                        c,
                        m_idx as int,
                    ),
                sec_set ==> m_set && ext_is(d, sec_g) && sec_g != m_idx && slot_off(d, sec_g)
                    == sec_start && slot_off(d, sec_g) + slot_len(d, sec_g) == sec_end,
                sec_set ==> forall|c: int|
                    0 <= c < i && ext_is(d, c) && c != m_idx ==> #[trigger] slot_off(d, c)
                        <= sec_start,
                !sec_set ==> forall|c: int|
                    0 <= c < i && ext_is(d, c) ==> c == m_idx,
            decreases sc - i,
        {
            let pos = 4096 - 4 * (i + 1);
            let off = get_u16(&self.data, pos) as usize;
            let len = get_u16(&self.data, pos + 2) as usize;
            if !(off == 0 && len == 0) {
                proof {
                    assert(ext_is(d, i as int));
                }
                if !m_set || off >= m_start {
                    if m_set {
                        sec_start = m_start;
                        sec_end = m_end;
                        sec_set = true;
                        proof {
                            sec_g = m_idx as int;
                        }
                    }
                    m_start = off;
                    m_end = off + len;
                    m_idx = i;
                    m_set = true;
                } else {
                    if !sec_set || off > sec_start {
                        sec_start = off;
                        sec_end = off + len;
                        sec_set = true;
                        proof {
                            sec_g = i as int;
                        }
                    }
                }
            }
            i = i + 1;
        }
        let is_tail = m_set && m_idx == slot_index;
        // Invalidate the slot and return its bytes to the free space.
        put_u16(&mut self.data, kpos, 0);
        put_u16(&mut self.data, kpos + 2, 0);
        let fsp = get_u16(&self.data, 6);
        put_u16(&mut self.data, 6, fsp + k_len as u16);
        if is_tail {
            let new_fs: usize = if sec_set {
                sec_end
            } else {
                96
            };
            put_u16(&mut self.data, 2, new_fs as u16);
        } else {
            put_u16(&mut self.data, 8, 1);
        }
        let ghost m1 = self.bytes();
        proof {
            assert(slot_off(m1, slot_index as int) == 0 && slot_len(m1, slot_index as int) == 0)
                by {
                assert(crate::le::u16_of(0u8, 0u8) == 0);
            }
            if is_tail {
                if sec_set {
                    assert(sec_end <= 65535) by {
                        assert(slot_off(d, sec_g) + slot_len(d, sec_g) <= free_start_of(d));
                    }
                    assert(delete_tail_clause(d, m1, slot_index as int)) by {
                        assert(sec_g != slot_index as int && ext_is(d, sec_g) && (forall|c: int|
                            c != slot_index as int && ext_is(d, c) ==> #[trigger] slot_off(d, c)
                                <= slot_off(d, sec_g)) && free_start_of(m1) == slot_off(d, sec_g)
                            + slot_len(d, sec_g));
                    }
                } else {
                    assert(delete_tail_clause(d, m1, slot_index as int)) by {
                        assert(forall|j: int| j != slot_index as int ==> !ext_is(d, j));
                    }
                }
                assert(is_last_ext(d, slot_index as int));
            } else {
                assert(delete_hole_clause(d, m1));
                if m_set {
                    assert(!is_strictly_last(d, slot_index as int)) by {
                        assert(slot_off(d, m_idx as int) >= slot_off(d, slot_index as int));
                    }
                } else {
                    assert(ext_is(d, slot_index as int));
                }
            }
            assert(delete_applied(d, m1, slot_index as int));
            if distinct_starts(d) {
                lemma_delete_preserves_wf(d, m1, slot_index as int);
            }
        }
        if compact_requested {
            proof {
                if distinct_starts(d) {
                    lemma_wf_page_compact_pre(m1);
                } else {
                    lemma_delete_compact_pre(d, m1, slot_index as int);
                }
            }
            match self.compact() {
                Ok(u) => (),
                Err(e) => (),
            }
            proof {
                if distinct_starts(d) {
                    lemma_compact_preserves_wf(m1, self.bytes());
                }
            }
        }
        Ok(())
    }

    /// Updates the row at `slot_index` with new content. Same-size content
    /// overwrites in place; smaller content overwrites the front of the old
    /// row and returns the tail to the free space; larger content is
    /// relocated to wherever the offset search (ignoring the old row's own
    /// bytes) finds room, deleting the old row and compacting first when no
    /// contiguous gap fits.
    ///
    /// Fails with `InvalidSlot` when the index is out of range or the slot
    /// is invalid, with `NotEnoughSpace` when the new content exceeds the
    /// free space plus the old row's bytes, and with
    /// `SlotRegionSizeMismatch` when the header is inconsistent.
    #[verifier::rlimit(90)]
    pub fn update_row(&mut self, slot_index: usize, row: Vec<u8>) -> (r: PageResult<()>)
        requires
            old(self).wf(),
            (slot_region_ok(old(self).bytes()) && (slot_index as int) < slot_count_of(
                old(self).bytes(),
            ) && slot_valid(old(self).bytes(), slot_index as int)) ==> wf_page(old(self).bytes()),
        ensures
            final(self).wf(),
            final(self).id() == old(self).id(),
            ({
                let d = old(self).bytes();
                let k = slot_index as int;
                let len = row@.len() as int;
                match r {
                    Ok(u) => {
                        &&& slot_region_ok(d)
                        &&& k < slot_count_of(d)
                        &&& slot_valid(d, k)
                        &&& len <= free_space_of(d) + slot_len(d, k)
                        &&& (len < slot_len(d, k) ==> shrink_applied(
                            d,
                            final(self).bytes(),
                            k,
                            row@,
                        ))
                        &&& (len == slot_len(d, k) ==> overwrite_applied(
                            d,
                            final(self).bytes(),
                            k,
                            row@,
                        ))
                        &&& (len > slot_len(d, k) ==> ((exists|pos: int|
                            #[trigger] grow_applied(d, final(self).bytes(), k, pos, row@)
                                && offset_choice(
                                d,
                                Some(k),
                                len,
                                InsertionOffset::Exact(pos as usize),
                            )) || (offset_choice(
                            d,
                            Some(k),
                            len,
                            InsertionOffset::AfterCompactionFreeStart,
                        ) && exists|m1: Seq<u8>, m2: Seq<u8>|
                            #[trigger] delete_applied(d, m1, k) && #[trigger] compact_applied(
                                m1,
                                m2,
                            ) && grow_after_compact_applied(d, m2, final(self).bytes(), k, row@))))
                    },
                    Err(e) => {
                        &&& final(self).bytes() == d
                        &&& e.page_id == old(self).id()
                        &&& if !slot_region_ok(d) {
                            e.source == PageOpError::UpdateRow(
                                UpdateError::SlotError(
                                    SlotError::SlotRegionSizeMismatch {
                                        expected_size: (4 * slot_count_of(d)) as usize,
                                        actual_size: region_actual_size(d) as usize,
                                    },
                                ),
                            )
                        } else if k >= slot_count_of(d) || !slot_valid(d, k) {
                            e.source == PageOpError::UpdateRow(
                                UpdateError::SlotError(SlotError::InvalidSlot { slot_index }),
                            )
                        } else {
                            len > free_space_of(d) + slot_len(d, k) && e.source
                                == PageOpError::UpdateRow(
                                UpdateError::NotEnoughSpace {
                                    row_len: row@.len() as usize,
                                    page_free_space: (free_space_of(d) + slot_len(d, k)) as usize,
                                },
                            )
                        }
                    },
                }
            }),
    {
        let ghost d = self.bytes();
        let ghost k = slot_index as int;
        let sc = get_u16(&self.data, 0) as usize;
        let fe = get_u16(&self.data, 4) as usize;
        let region_len: usize = if fe < 4096 {
            4096 - (fe + 1)
        } else {
            0
        };
        if fe >= 4096 || region_len != 4 * sc {
            return Err(
                PageError {
                    page_id: self.page_id,
                    source: PageOpError::UpdateRow(
                        UpdateError::SlotError(
                            SlotError::SlotRegionSizeMismatch {
                                expected_size: 4 * sc,
                                actual_size: region_len,
                            },
                        ),
                    ),
                },
            );
        }
        if slot_index >= sc {
            return Err(
                PageError {
                    page_id: self.page_id,
                    source: PageOpError::UpdateRow(
                        UpdateError::SlotError(SlotError::InvalidSlot { slot_index }),
                    ),
                },
            );
        }
        let kpos = 4096 - 4 * (slot_index + 1);
        let old_off = get_u16(&self.data, kpos) as usize;
        let old_len = get_u16(&self.data, kpos + 2) as usize;
        if old_off == 0 && old_len == 0 {
            return Err(
                PageError {
                    page_id: self.page_id,
                    source: PageOpError::UpdateRow(
                        UpdateError::SlotError(SlotError::InvalidSlot { slot_index }),
                    ),
                },
            );
        }
        let fsp = get_u16(&self.data, 6) as usize;
        let available = fsp + old_len;
        if row.len() > available {
            return Err(
                PageError {
                    page_id: self.page_id,
                    source: PageOpError::UpdateRow(
                        UpdateError::NotEnoughSpace {
                            row_len: row.len(),
                            page_free_space: available,
                        },
                    ),
                },
            );
        }
        proof {
            assert(slot_valid(d, k));
            assert(wf_page(d));
            crate::layout::lemma_sum_nonneg(d, k);
            crate::layout::lemma_sum_monotonic(d, k + 1, sc as int);
            assert(crate::layout::valid_len_sum(d, k + 1) == crate::layout::valid_len_sum(d, k)
                + slot_len(d, k));
            assert(available <= 4000);
        }
        let len = row.len();
        proof {
            assert(96 <= slot_off(d, k) && slot_off(d, k) + slot_len(d, k) <= free_start_of(d));
            assert(free_start_of(d) <= free_end_of(d) + 1);
        }
        if len < old_len {
            // Shrink: overwrite the front of the old row in place.
            let ghost h = self.bytes();
            let mut w: usize = 0;
            while w < len
                invariant
                    self.wf(),
                    self.id() == old(self).id(),
                    w <= len,
                    len == row@.len(),
                    old_off + len <= 4096,
                    h.len() == 4096,
                    forall|b: int|
                        0 <= b < 4096 && !(old_off <= b < old_off + w)
                            ==> #[trigger] self.bytes()[b] == h[b],
                    forall|b: int|
                        old_off <= b < old_off + w ==> #[trigger] self.bytes()[b] == row@[b
                            - old_off],
                decreases len - w,
            {
                self.data[old_off + w] = row[w];
                w = w + 1;
            }
            put_u16(&mut self.data, kpos + 2, len as u16);
            put_u16(&mut self.data, 6, (fsp + old_len - len) as u16);
            proof {
                assert(shrink_applied(d, self.bytes(), k, row@)) by {
                    assert(self.bytes().subrange(old_off as int, old_off + len) =~= row@);
                }
            }
            Ok(())
        } else if len == old_len {
            // Same size: overwrite in place, header untouched.
            let ghost h = self.bytes();
            let mut w: usize = 0;
            while w < len
                invariant
                    self.wf(),
                    self.id() == old(self).id(),
                    w <= len,
                    len == row@.len(),
                    old_off + len <= 4096,
                    h.len() == 4096,
                    forall|b: int|
                        0 <= b < 4096 && !(old_off <= b < old_off + w)
                            ==> #[trigger] self.bytes()[b] == h[b],
                    forall|b: int|
                        old_off <= b < old_off + w ==> #[trigger] self.bytes()[b] == row@[b
                            - old_off],
                decreases len - w,
            {
                self.data[old_off + w] = row[w];
                w = w + 1;
            }
            proof {
                assert(overwrite_applied(d, self.bytes(), k, row@)) by {
                    assert(self.bytes().subrange(old_off as int, old_off + len) =~= row@);
                }
            }
            Ok(())
        } else {
            // Grow: probe for a relocation, treating the old row's own
            // bytes as free.
            let ofs = match self.find_insertion_offset(len, Some(slot_index)) {
                Ok(o) => o,
                Err(e) => {
                    return Err(
                        PageError {
                            page_id: self.page_id,
                            source: PageOpError::UpdateRow(UpdateError::InsertError(e)),
                        },
                    );
                },
            };
            match ofs {
                InsertionOffset::Exact(pos) => {
                    proof {
                        assert(pos + len <= 4096) by {
                            if exists|a: int, b: int|
                                window_fit(d, Self::ig_of(Some(slot_index)), len as int, a, b)
                                    && pos as int == ext_end(
                                    d,
                                    Self::ig_of(Some(slot_index)),
                                    a,
                                ) {
                                let (a, b) = choose|a: int, b: int|
                                    window_fit(d, Self::ig_of(Some(slot_index)), len as int, a, b)
                                        && pos as int == ext_end(d, Self::ig_of(Some(slot_index)), a);
                                assert(slot_off(d, b) + slot_len(d, b) <= free_start_of(d));
                            }
                        }
                    }
                    let ghost h = self.bytes();
                    let mut w: usize = 0;
                    while w < len
                        invariant
                            self.wf(),
                            self.id() == old(self).id(),
                            w <= len,
                            len == row@.len(),
                            pos + len <= 4096,
                            h.len() == 4096,
                            forall|b: int|
                                0 <= b < 4096 && !(pos <= b < pos + w)
                                    ==> #[trigger] self.bytes()[b] == h[b],
                            forall|b: int|
                                pos <= b < pos + w ==> #[trigger] self.bytes()[b] == row@[b - pos],
                        decreases len - w,
                    {
                        self.data[pos + w] = row[w];
                        w = w + 1;
                    }
                    put_u16(&mut self.data, kpos, pos as u16);
                    put_u16(&mut self.data, kpos + 2, len as u16);
                    put_u16(&mut self.data, 6, (fsp + old_len - len) as u16);
                    let fs = get_u16(&self.data, 2);
                    if pos == fs as usize {
                        put_u16(&mut self.data, 2, (pos + len) as u16);
                    }
                    proof {
                        assert(grow_applied(d, self.bytes(), k, pos as int, row@)) by {
                            assert(self.bytes().subrange(pos as int, pos + len) =~= row@);
                        }
                    }
                    Ok(())
                },
                InsertionOffset::AfterCompactionFreeStart => {
                    // Delete the old row with compaction, then place the new
                    // content at the fresh free start.
                    match self.delete_row(slot_index, true) {
                        Ok(u) => (),
                        Err(e) => {
                            return Err(
                                PageError {
                                    page_id: self.page_id,
                                    source: PageOpError::UpdateRow(
                                        UpdateError::SlotError(
                                            SlotError::InvalidSlot { slot_index },
                                        ),
                                    ),
                                },
                            );
                        },
                    }
                    let ghost m2 = self.bytes();
                    let ghost m1 = choose|m1: Seq<u8>|
                        #[trigger] delete_applied(d, m1, k) && compact_applied(m1, m2);
                    proof {
                        crate::layout::lemma_sum_change_one(d, m1, sc as int, k);
                        crate::layout::lemma_sum_nonneg(d, sc as int);
                        assert(free_start_of(m2) == 96 + crate::layout::valid_len_sum(
                            m1,
                            sc as int,
                        ));
                        assert(free_start_of(m2) + len <= 4096);
                        assert(4096 - 4 * sc >= free_end_of(d) + 1);
                    }
                    let fs2 = get_u16(&self.data, 2) as usize;
                    let ghost h = self.bytes();
                    let mut w: usize = 0;
                    while w < len
                        invariant
                            self.wf(),
                            self.id() == old(self).id(),
                            w <= len,
                            len == row@.len(),
                            fs2 + len <= 4096,
                            h.len() == 4096,
                            forall|b: int|
                                0 <= b < 4096 && !(fs2 <= b < fs2 + w)
                                    ==> #[trigger] self.bytes()[b] == h[b],
                            forall|b: int|
                                fs2 <= b < fs2 + w ==> #[trigger] self.bytes()[b] == row@[b - fs2],
                        decreases len - w,
                    {
                        self.data[fs2 + w] = row[w];
                        w = w + 1;
                    }
                    put_u16(&mut self.data, kpos, fs2 as u16);
                    put_u16(&mut self.data, kpos + 2, len as u16);
                    put_u16(&mut self.data, 6, (fsp + old_len - len) as u16);
                    put_u16(&mut self.data, 2, (fs2 + len) as u16);
                    proof {
                        assert(grow_after_compact_applied(d, m2, self.bytes(), k, row@)) by {
                            assert(self.bytes().subrange(fs2 as int, fs2 + len) =~= row@);
                        }
                    }
                    Ok(())
                },
            }
        }
    }

    /// Determines whether a row of the requested size fits on the page
    /// together with a slot entry, going by the free-space account alone.
    /// Does not consider fragmentation: the row might still need a
    /// compaction first.
    pub fn row_size_fits(&self, row_size: usize) -> (r: bool)
        requires
            self.wf(),
            row_size + 4 <= usize::MAX,
        ensures
            r <==> free_space_of(self.bytes()) >= row_size + 4,
    {
        let fsp = get_u16(&self.data, 6) as usize;
        fsp >= row_size + 4
    }

    /// Returns a read view over the page's slot-array region.
    ///
    /// Fails with `SlotRegionSizeMismatch` when the header's slot count
    /// and free-end pointer disagree on the region's size.
    pub fn slot_array_ref(&self) -> (r: Result<crate::slot_array::SlotArrayRef, SlotError>)
        requires
            self.wf(),
        ensures
            ({
                let d = self.bytes();
                match r {
                    Ok(a) => slot_region_ok(d) && a.wf() && a.count_spec() as int == slot_count_of(
                        d,
                    ) && a.view_bytes() == d.subrange(free_end_of(d) + 1, 4096),
                    Err(e) => !slot_region_ok(d) && e == (SlotError::SlotRegionSizeMismatch {
                        expected_size: (4 * slot_count_of(d)) as usize,
                        actual_size: region_actual_size(d) as usize,
                    }),
                }
            }),
    {
        let sc = get_u16(&self.data, 0);
        let fe = get_u16(&self.data, 4) as usize;
        let region_len: usize = if fe < 4096 {
            4096 - (fe + 1)
        } else {
            0
        };
        if fe >= 4096 || region_len != 4 * (sc as usize) {
            return Err(
                SlotError::SlotRegionSizeMismatch {
                    expected_size: 4 * sc as usize,
                    actual_size: region_len,
                },
            );
        }
        let mut region: Vec<u8> = Vec::new();
        let mut i: usize = fe + 1;
        while i < 4096
            invariant
                fe + 1 <= i <= 4096,
                self.wf(),
                region@ =~= self.bytes().subrange(fe + 1, i as int),
            decreases 4096 - i,
        {
            region.push(self.data[i]);
            i = i + 1;
        }
        match crate::slot_array::SlotArrayRef::new(&region, sc) {
            Ok(a) => Ok(a),
            Err(e) => Err(e),
        }
    }

    /// Returns a mutable view holding a copy of the page's slot-array
    /// region; edits are written back with `write_slot_array`.
    ///
    /// Fails with `SlotRegionSizeMismatch` when the header's slot count
    /// and free-end pointer disagree on the region's size.
    pub fn slot_array_mut(&mut self) -> (r: Result<crate::slot_array::SlotArrayMut, SlotError>)
        requires
            old(self).wf(),
        ensures
            *final(self) == *old(self),
            ({
                let d = old(self).bytes();
                match r {
                    Ok(a) => slot_region_ok(d) && a.wf() && a.count_spec() as int == slot_count_of(
                        d,
                    ) && a.view_bytes() == d.subrange(free_end_of(d) + 1, 4096),
                    Err(e) => !slot_region_ok(d) && e == (SlotError::SlotRegionSizeMismatch {
                        expected_size: (4 * slot_count_of(d)) as usize,
                        actual_size: region_actual_size(d) as usize,
                    }),
                }
            }),
    {
        let sc = get_u16(&self.data, 0);
        let fe = get_u16(&self.data, 4) as usize;
        let region_len: usize = if fe < 4096 {
            4096 - (fe + 1)
        } else {
            0
        };
        if fe >= 4096 || region_len != 4 * (sc as usize) {
            return Err(
                SlotError::SlotRegionSizeMismatch {
                    expected_size: 4 * sc as usize,
                    actual_size: region_len,
                },
            );
        }
        let mut region: Vec<u8> = Vec::new();
        let mut i: usize = fe + 1;
        while i < 4096
            invariant
                fe + 1 <= i <= 4096,
                self.wf(),
                self == old(self),
                region@ =~= self.bytes().subrange(fe + 1, i as int),
            decreases 4096 - i,
        {
            region.push(self.data[i]);
            i = i + 1;
        }
        match crate::slot_array::SlotArrayMut::new(region, sc) {
            Ok(a) => Ok(a),
            Err(e) => Err(e),
        }
    }

    /// Writes an edited slot-array region back over the page's slot-array
    /// bytes.
    pub fn write_slot_array(&mut self, region: crate::slot_array::SlotArrayMut)
        requires
            old(self).wf(),
            free_end_of(old(self).bytes()) < 4096,
            region.view_bytes().len() == 4096 - (free_end_of(old(self).bytes()) + 1),
        ensures
            final(self).wf(),
            final(self).id() == old(self).id(),
            final(self).bytes().subrange(free_end_of(old(self).bytes()) + 1, 4096)
                == region.view_bytes(),
            forall|b: int|
                0 <= b < free_end_of(old(self).bytes()) + 1 ==> final(self).bytes()[b]
                    == old(self).bytes()[b],
    {
        let fe = get_u16(&self.data, 4) as usize;
        let bytes = region.into_bytes();
        let n = bytes.len();
        let mut i: usize = 0;
        while i < n
            invariant
                i <= n,
                self.wf(),
                self.id() == old(self).id(),
                fe + 1 + n == 4096,
                fe + 1 == free_end_of(old(self).bytes()) + 1,
                n == bytes@.len(),
                forall|b: int|
                    0 <= b < 4096 && !(fe + 1 <= b < fe + 1 + i) ==> #[trigger] self.bytes()[b]
                        == old(self).bytes()[b],
                forall|b: int|
                    fe + 1 <= b < fe + 1 + i ==> #[trigger] self.bytes()[b] == bytes@[b - fe - 1],
            decreases n - i,
        {
            self.data[fe + 1 + i] = bytes[i];
            i = i + 1;
        }
        proof {
            assert(self.bytes().subrange(free_end_of(old(self).bytes()) + 1, 4096)
                =~= bytes@);
        }
    }
}

} // verus!
