//! Insertion plans for unsorted heap pages, and the specification of how a
//! plan is chosen and applied.
//!
//! The offset search treats the page's valid rows as extents `(start, end)`
//! ordered by start offset. An optional "ignore this slot" parameter lets an
//! update probe for a relocation of a slot while treating that slot's length
//! as zero, so its own bytes count as free.

use vstd::prelude::*;

verus! {

use crate::layout::slot_count_of;
use crate::layout::free_start_of;
use crate::layout::free_end_of;
use crate::layout::free_space_of;
use crate::layout::can_compact_of;
use crate::layout::slot_off;
use crate::layout::slot_len;
use crate::layout::slot_valid;
use crate::layout::slot_pos;
use crate::layout::wf_page;

/// The offset at which a new record should be inserted in a heap page.
#[derive(Debug, Clone, Copy, PartialEq, Eq, Structural)]
pub enum InsertionOffset {
    /// The record should be inserted at the start of free space after
    /// compacting the page.
    AfterCompactionFreeStart,
    /// The record should be inserted at an exact offset.
    Exact(usize),
}

/// Whether a new slot should be created for a record, or an existing invalid
/// slot reused.
#[derive(Debug, Clone, Copy, PartialEq, Eq, Structural)]
pub enum InsertionSlot {
    /// A new slot should be appended for the record.
    New,
    /// The existing slot with this index can be reused.
    Reuse(usize),
}

/// A plan for inserting a new record into an unsorted heap page.
#[derive(Debug, Clone, Copy, PartialEq, Eq, Structural)]
pub struct InsertionPlan {
    /// The slot to use.
    pub slot: InsertionSlot,
    /// Where the record's bytes go.
    pub offset: InsertionOffset,
}

/// Slot `i` is an extent of the offset search: a valid slot of the page.
pub open spec fn ext_is(d: Seq<u8>, i: int) -> bool {
    0 <= i < slot_count_of(d) && slot_valid(d, i)
}

/// End of extent `i`; the ignored slot's length counts as zero.
pub open spec fn ext_end(d: Seq<u8>, ig: Option<int>, i: int) -> int {
    if ig == Some(i) {
        slot_off(d, i)
    } else {
        slot_off(d, i) + slot_len(d, i)
    }
}

/// Extent `a` comes before extent `b` in the search order: by start
/// offset, with ties broken by slot index, as a stable sort by offset
/// orders them. The order is total and strict over distinct extents.
pub open spec fn ext_before(d: Seq<u8>, a: int, b: int) -> bool {
    slot_off(d, a) < slot_off(d, b) || (slot_off(d, a) == slot_off(d, b) && a < b)
}

/// Extent `b` directly follows extent `a` in the search order.
pub open spec fn is_succ(d: Seq<u8>, a: int, b: int) -> bool {
    &&& ext_is(d, a)
    &&& ext_is(d, b)
    &&& ext_before(d, a, b)
    &&& forall|c: int|
        #[trigger] ext_is(d, c) && c != a && c != b ==> ext_before(d, c, a) || ext_before(d, b, c)
}

/// The gap between consecutive extents `a` and `b` holds `len` bytes.
pub open spec fn window_fit(d: Seq<u8>, ig: Option<int>, len: int, a: int, b: int) -> bool {
    &&& is_succ(d, a, b)
    &&& slot_off(d, b) >= ext_end(d, ig, a)
    &&& slot_off(d, b) - ext_end(d, ig, a) >= len
}

/// `(a, b)` is the earliest fitting gap in the search order.
pub open spec fn first_fit(d: Seq<u8>, ig: Option<int>, len: int, a: int, b: int) -> bool {
    &&& window_fit(d, ig, len, a, b)
    &&& forall|a2: int, b2: int|
        #[trigger] window_fit(d, ig, len, a2, b2) ==> a2 == a || ext_before(d, a, a2)
}

/// Extent `l` is the last one in the search order; it has the greatest
/// start offset, and among extents sharing it the greatest index.
pub open spec fn is_last_ext(d: Seq<u8>, l: int) -> bool {
    &&& ext_is(d, l)
    &&& forall|c: int| #[trigger] ext_is(d, c) && c != l ==> ext_before(d, c, l)
}

/// No two extents share a start offset. Holds on every page whose valid
/// rows are pairwise disjoint and non-empty.
pub open spec fn distinct_starts(d: Seq<u8>) -> bool {
    forall|i: int, j: int|
        ext_is(d, i) && ext_is(d, j) && i != j ==> #[trigger] slot_off(d, i) != #[trigger] slot_off(
            d,
            j,
        )
}

/// The contiguous free area holds `len` bytes (with saturating subtraction,
/// as the search computes it).
pub open spec fn fast_path_fits(d: Seq<u8>, len: int) -> bool {
    (if free_end_of(d) >= free_start_of(d) {
        free_end_of(d) - free_start_of(d)
    } else {
        0
    }) >= len
}

/// The offset the search chooses for a row of length `len`:
/// the contiguous free area if it is large enough; otherwise the first gap
/// between consecutive extents (in the stable offset-then-index order)
/// that fits; otherwise the tail gap between the last extent and
/// `free_end`; otherwise insertion after compaction. A page without any
/// valid row also compacts first.
pub open spec fn offset_choice(d: Seq<u8>, ig: Option<int>, len: int, r: InsertionOffset) -> bool {
    if fast_path_fits(d, len) {
        r == InsertionOffset::Exact(free_start_of(d) as usize)
    } else if !(exists|i: int| ext_is(d, i)) {
        r == InsertionOffset::AfterCompactionFreeStart
    } else if exists|a: int, b: int| first_fit(d, ig, len, a, b) {
        exists|a: int, b: int|
            first_fit(d, ig, len, a, b) && r == InsertionOffset::Exact(ext_end(d, ig, a) as usize)
    } else if exists|l: int|
        is_last_ext(d, l) && free_end_of(d) >= ext_end(d, ig, l) && free_end_of(d) - ext_end(
            d,
            ig,
            l,
        ) >= len {
        exists|l: int| is_last_ext(d, l) && r == InsertionOffset::Exact(ext_end(d, ig, l) as usize)
    } else {
        r == InsertionOffset::AfterCompactionFreeStart
    }
}

/// The slot choice: the first invalid slot is reused; a new slot is
/// appended when every slot is valid.
pub open spec fn slot_choice(d: Seq<u8>, s: InsertionSlot) -> bool {
    match s {
        InsertionSlot::Reuse(i) => i < slot_count_of(d) && !slot_valid(d, i as int) && forall|
            j: int,
        | 0 <= j < i ==> slot_valid(d, j),
        InsertionSlot::New => forall|j: int| 0 <= j < slot_count_of(d) ==> slot_valid(d, j),
    }
}

/// The slot index a plan writes to.
pub open spec fn plan_slot_index(d: Seq<u8>, plan: InsertionPlan) -> int {
    match plan.slot {
        InsertionSlot::Reuse(i) => i as int,
        InsertionSlot::New => slot_count_of(d),
    }
}

/// Whether the plan appends a new slot.
pub open spec fn plan_new_slot(plan: InsertionPlan) -> bool {
    plan.slot is New
}

/// What `insert_heap` requires of a page and a plan so that applying the
/// plan stays within the byte array and within the 16-bit header fields.
pub open spec fn insert_pre(d: Seq<u8>, plan: InsertionPlan, len: int) -> bool {
    &&& crate::layout::slot_region_ok(d)
    &&& free_end_of(d) < 4096
    &&& len <= u16::MAX as int
    &&& free_space_of(d) >= len + if plan_new_slot(plan) {
        4int
    } else {
        0int
    }
    &&& (plan_new_slot(plan) ==> free_end_of(d) >= 4)
    &&& (match plan.slot {
        InsertionSlot::Reuse(i) => i < slot_count_of(d),
        InsertionSlot::New => true,
    })
    &&& 4 * (plan_slot_index(d, plan) + 1) <= 4000
    &&& (match plan.offset {
        InsertionOffset::Exact(pos) => 96 <= pos && pos + len <= 4096 && pos <= u16::MAX as int
            && free_start_of(d) + len <= u16::MAX as int,
        InsertionOffset::AfterCompactionFreeStart => wf_page(d),
    })
}

/// How applying a plan with an exact position `pos` changes the bytes:
/// the row bytes land at `pos` (a colliding slot entry wins), the target
/// slot entry points at them, the header advances `free_start` only for an
/// append at `free_start`, and every other byte is unchanged.
pub open spec fn exact_insert_applied(
    d: Seq<u8>,
    d2: Seq<u8>,
    idx: int,
    newslot: bool,
    pos: int,
    row: Seq<u8>,
) -> bool {
    let len = row.len() as int;
    &&& d2.len() == d.len()
    &&& slot_count_of(d2) == slot_count_of(d) + if newslot {
        1int
    } else {
        0int
    }
    &&& free_end_of(d2) == free_end_of(d) - if newslot {
        4int
    } else {
        0int
    }
    &&& free_start_of(d2) == if pos == free_start_of(d) {
        free_start_of(d) + len
    } else {
        free_start_of(d)
    }
    &&& free_space_of(d2) == free_space_of(d) - len - if newslot {
        4int
    } else {
        0int
    }
    &&& slot_off(d2, idx) == pos
    &&& slot_len(d2, idx) == len
    &&& forall|k: int|
        0 <= k < len && !(slot_pos(idx) <= pos + k < slot_pos(idx) + 4) ==> #[trigger] d2[pos + k]
            == row[k]
    &&& forall|b: int|
        8 <= b < 4096 && !(pos <= b < pos + len) && !(slot_pos(idx) <= b < slot_pos(idx) + 4)
            ==> #[trigger] d2[b] == d[b]
}

/// Extent `k` starts strictly after every other extent.
pub open spec fn is_strictly_last(d: Seq<u8>, k: int) -> bool {
    &&& ext_is(d, k)
    &&& forall|c: int|
        ext_is(d, c) && c != k ==> #[trigger] slot_off(d, c) < slot_off(d, k)
}

/// After a deletion of the physically last row, `free_start` retreats to
/// the end of the remaining rows (the end of the one with the greatest
/// offset), or to the end of the header if none remains; the compactable
/// mark is untouched.
pub open spec fn delete_tail_clause(d: Seq<u8>, d2: Seq<u8>, k: int) -> bool {
    &&& (if exists|j: int| j != k && ext_is(d, j) {
        exists|j: int|
            j != k && ext_is(d, j) && (forall|c: int|
                c != k && ext_is(d, c) ==> #[trigger] slot_off(d, c) <= slot_off(d, j))
                && free_start_of(d2) == slot_off(d, j) + slot_len(d, j)
    } else {
        free_start_of(d2) == 96
    })
    &&& can_compact_of(d2) == can_compact_of(d)
}

/// After a deletion that leaves a hole, `free_start` stays and the page is
/// marked compactable.
pub open spec fn delete_hole_clause(d: Seq<u8>, d2: Seq<u8>) -> bool {
    &&& free_start_of(d2) == free_start_of(d)
    &&& can_compact_of(d2) == 1
}

/// How `delete_row` (before any requested compaction) changes the bytes:
/// slot `k` is invalidated, its length returns to the free space, and
/// `free_start` retreats exactly when the deleted row was the physically
/// last one. When the deleted row ties for the last position with an empty
/// row, either outcome is possible; every other byte is unchanged.
pub open spec fn delete_applied(d: Seq<u8>, d2: Seq<u8>, k: int) -> bool {
    &&& d2.len() == d.len()
    &&& slot_off(d2, k) == 0
    &&& slot_len(d2, k) == 0
    &&& free_space_of(d2) == free_space_of(d) + slot_len(d, k)
    &&& (is_strictly_last(d, k) ==> delete_tail_clause(d, d2, k))
    &&& (!is_last_ext(d, k) ==> delete_hole_clause(d, d2))
    &&& (delete_tail_clause(d, d2, k) || delete_hole_clause(d, d2))
    &&& slot_count_of(d2) == slot_count_of(d)
    &&& free_end_of(d2) == free_end_of(d)
    &&& forall|b: int|
        0 <= b < 4096 && !(slot_pos(k) <= b < slot_pos(k) + 4) && !(2 <= b < 4) && !(6 <= b < 10)
            ==> #[trigger] d2[b] == d[b]
}

/// How `compact` changes the bytes: valid rows are rewritten contiguously
/// from the end of the header in slot-index order, each slot's offset is
/// redirected, `free_start` retreats to the end of the rewritten rows, and
/// the compactable mark is cleared. Slot count, `free_end`, `free_space`
/// and all remaining bytes stay as they were.
pub open spec fn compact_applied(d: Seq<u8>, d2: Seq<u8>) -> bool {
    let sc = slot_count_of(d);
    let packed = 96 + crate::layout::valid_len_sum(d, sc);
    &&& d2.len() == d.len()
    &&& slot_count_of(d2) == sc
    &&& free_end_of(d2) == free_end_of(d)
    &&& free_space_of(d2) == free_space_of(d)
    &&& free_start_of(d2) == packed
    &&& can_compact_of(d2) == 0
    &&& forall|i: int|
        0 <= i < sc && slot_valid(d, i) ==> #[trigger] slot_off(d2, i) == 96
            + crate::layout::valid_len_sum(d, i) && slot_len(d2, i) == slot_len(d, i)
    &&& forall|i: int|
        0 <= i < sc && slot_valid(d, i) ==> #[trigger] d2.subrange(
            96 + crate::layout::valid_len_sum(d, i),
            96 + crate::layout::valid_len_sum(d, i) + slot_len(d, i),
        ) == crate::layout::row_of(d, i)
    &&& forall|i: int|
        0 <= i < sc && !slot_valid(d, i) ==> #[trigger] slot_off(d2, i) == slot_off(d, i)
            && slot_len(d2, i) == slot_len(d, i)
    &&& forall|b: int|
        0 <= b < 4096 && !(2 <= b < 4) && !(8 <= b < 10) && !(96 <= b < packed) && !(4096 - 4
            * sc <= b < 4096) ==> #[trigger] d2[b] == d[b]
}

/// What `compact` requires so that every byte it moves stays inside the
/// page: a consistent slot region, rows inside the byte array, and rows
/// that fit between the header and the slot array.
pub open spec fn compact_pre(d: Seq<u8>) -> bool {
    &&& d.len() == 4096
    &&& crate::layout::slot_region_ok(d)
    &&& free_end_of(d) < 4096
    &&& forall|i: int|
        0 <= i < slot_count_of(d) && slot_valid(d, i) ==> slot_off(d, i) + #[trigger] slot_len(
            d,
            i,
        ) <= 4096
    &&& crate::layout::valid_len_sum(d, slot_count_of(d)) <= free_end_of(d) + 1 - 96
}

/// A page has an invalid slot available for reuse.
pub open spec fn has_invalid_slot(d: Seq<u8>) -> bool {
    exists|i: int| 0 <= i < slot_count_of(d) && !slot_valid(d, i)
}

/// Bytes an insertion needs: the row, plus a slot entry when no invalid
/// slot can be reused.
pub open spec fn required_space(d: Seq<u8>, len: int) -> int {
    len + if has_invalid_slot(d) {
        0int
    } else {
        4int
    }
}

/// How a growing update with an exact position changes the bytes: the new
/// row bytes land at `pos`, slot `k` points at them, `free_start` advances
/// only for an append at `free_start`, and the row's length change is
/// settled against the free space.
pub open spec fn grow_applied(d: Seq<u8>, d2: Seq<u8>, k: int, pos: int, row: Seq<u8>) -> bool {
    let len = row.len() as int;
    &&& d2.len() == d.len()
    &&& slot_count_of(d2) == slot_count_of(d)
    &&& free_end_of(d2) == free_end_of(d)
    &&& free_start_of(d2) == if pos == free_start_of(d) {
        pos + len
    } else {
        free_start_of(d)
    }
    &&& free_space_of(d2) == free_space_of(d) + slot_len(d, k) - len
    &&& slot_off(d2, k) == pos
    &&& slot_len(d2, k) == len
    &&& d2.subrange(pos, pos + len) == row
    &&& forall|b: int|
        8 <= b < 4096 && !(pos <= b < pos + len) && !(slot_pos(k) <= b < slot_pos(k) + 4)
            ==> #[trigger] d2[b] == d[b]
    &&& can_compact_of(d2) == can_compact_of(d)
}

/// How a shrinking update changes the bytes: the new row overwrites the
/// start of the old one in place, the slot's length shrinks, and the freed
/// tail returns to the free space. The rest of the old row's bytes stay.
pub open spec fn shrink_applied(d: Seq<u8>, d2: Seq<u8>, k: int, row: Seq<u8>) -> bool {
    let len = row.len() as int;
    let pos = slot_off(d, k);
    &&& d2.len() == d.len()
    &&& slot_count_of(d2) == slot_count_of(d)
    &&& free_end_of(d2) == free_end_of(d)
    &&& free_start_of(d2) == free_start_of(d)
    &&& can_compact_of(d2) == can_compact_of(d)
    &&& free_space_of(d2) == free_space_of(d) + slot_len(d, k) - len
    &&& slot_off(d2, k) == pos
    &&& slot_len(d2, k) == len
    &&& d2.subrange(pos, pos + len) == row
    &&& forall|b: int|
        8 <= b < 4096 && !(pos <= b < pos + len) && !(slot_pos(k) <= b < slot_pos(k) + 4)
            ==> #[trigger] d2[b] == d[b]
}

/// How a growing update that required compaction settles, relative to the
/// compacted page `m2`: the new row lands at `m2`'s `free_start`, slot `k`
/// points at it, `free_start` advances past it, and the row's length change
/// is settled against the original page's free space.
pub open spec fn grow_after_compact_applied(
    d: Seq<u8>,
    m2: Seq<u8>,
    df: Seq<u8>,
    k: int,
    row: Seq<u8>,
) -> bool {
    let len = row.len() as int;
    let pos = free_start_of(m2);
    &&& df.len() == 4096
    &&& slot_count_of(df) == slot_count_of(m2)
    &&& free_end_of(df) == free_end_of(m2)
    &&& can_compact_of(df) == can_compact_of(m2)
    &&& free_start_of(df) == pos + len
    &&& free_space_of(df) == free_space_of(d) + slot_len(d, k) - len
    &&& slot_off(df, k) == pos
    &&& slot_len(df, k) == len
    &&& df.subrange(pos, pos + len) == row
    &&& forall|b: int|
        10 <= b < 4096 && !(pos <= b < pos + len) && !(slot_pos(k) <= b < slot_pos(k) + 4)
            ==> #[trigger] df[b] == m2[b]
}

/// How a same-size update changes the bytes: the new row overwrites the old
/// one in place and nothing else moves.
pub open spec fn overwrite_applied(d: Seq<u8>, d2: Seq<u8>, k: int, row: Seq<u8>) -> bool {
    let len = row.len() as int;
    let pos = slot_off(d, k);
    &&& d2.len() == d.len()
    &&& d2.subrange(pos, pos + len) == row
    &&& forall|b: int| 0 <= b < 4096 && !(pos <= b < pos + len) ==> #[trigger] d2[b] == d[b]
}

/// Deleting a valid row preserves well-formedness: the geometry is
/// untouched, the remaining rows stay disjoint below the (possibly
/// retreated) `free_start`, and the freed length returns to the free-space
/// account.
pub proof fn lemma_delete_preserves_wf(d: Seq<u8>, d2: Seq<u8>, k: int)
    requires
        wf_page(d),
        distinct_starts(d),
        0 <= k < slot_count_of(d),
        slot_valid(d, k),
        delete_applied(d, d2, k),
    ensures
        wf_page(d2),
{
    let sc = slot_count_of(d);
    assert(4 * sc <= 4000);
    assert forall|j: int| 0 <= j < sc && j != k implies #[trigger] slot_off(d2, j) == slot_off(
        d,
        j,
    ) && slot_len(d2, j) == slot_len(d, j) by {
        assert(crate::layout::slot_pos(j) >= 96);
        assert(crate::layout::slot_pos(k) >= 96);
        if j < k {
            assert(crate::layout::slot_pos(j) >= crate::layout::slot_pos(k) + 4);
        } else {
            assert(crate::layout::slot_pos(j) + 4 <= crate::layout::slot_pos(k));
        }
    }
    crate::layout::lemma_sum_change_one(d, d2, sc, k);
    if delete_tail_clause(d, d2, k) {
        if exists|j: int| j != k && ext_is(d, j) {
            let j0 = choose|j0: int|
                j0 != k && ext_is(d, j0) && (forall|c: int|
                    c != k && ext_is(d, c) ==> #[trigger] slot_off(d, c) <= slot_off(d, j0))
                    && free_start_of(d2) == slot_off(d, j0) + slot_len(d, j0);
            assert(96 <= free_start_of(d2));
            assert(free_start_of(d2) <= free_start_of(d));
            assert forall|i: int| 0 <= i < sc && slot_valid(d2, i) implies 96 <= #[trigger] slot_off(
                d2,
                i,
            ) && slot_off(d2, i) + slot_len(d2, i) <= free_start_of(d2) by {
                assert(i != k);
                assert(ext_is(d, i));
                if i != j0 {
                    assert(slot_off(d, i) <= slot_off(d, j0));
                    assert(slot_off(d, i) != slot_off(d, j0));
                    assert(slot_off(d, i) + slot_len(d, i) <= slot_off(d, j0) || slot_off(d, j0)
                        + slot_len(d, j0) <= slot_off(d, i));
                }
            }
        } else {
            assert(free_start_of(d2) == 96);
            assert forall|i: int| 0 <= i < sc && slot_valid(d2, i) implies 96 <= #[trigger] slot_off(
                d2,
                i,
            ) && slot_off(d2, i) + slot_len(d2, i) <= free_start_of(d2) by {
                assert(i != k);
                assert(ext_is(d, i));
            }
        }
    } else {
        assert(delete_hole_clause(d, d2));
        assert(free_start_of(d2) == free_start_of(d));
    }
}

/// Compaction preserves well-formedness: the repacked rows lie contiguously
/// and disjointly between the header and the retreated `free_start`, and
/// nothing in the accounting changes.
pub proof fn lemma_compact_preserves_wf(d: Seq<u8>, d2: Seq<u8>)
    requires
        wf_page(d),
        compact_applied(d, d2),
    ensures
        wf_page(d2),
{
    let sc = slot_count_of(d);
    crate::layout::lemma_wf_page_compact_pre(d);
    crate::layout::lemma_sum_nonneg(d, sc);
    assert(free_start_of(d2) <= free_start_of(d));
    assert forall|i: int| 0 <= i < sc && slot_valid(d2, i) implies 96 <= #[trigger] slot_off(
        d2,
        i,
    ) && slot_off(d2, i) + slot_len(d2, i) <= free_start_of(d2) by {
        assert(slot_valid(d, i));
        crate::layout::lemma_sum_nonneg(d, i);
        assert(crate::layout::valid_len_sum(d, i + 1) == crate::layout::valid_len_sum(d, i)
            + slot_len(d, i));
        crate::layout::lemma_sum_monotonic(d, i + 1, sc);
    }
    assert forall|i: int, j: int|
        0 <= i < sc && 0 <= j < sc && i != j && slot_valid(d2, i) && slot_valid(d2, j) implies
        #[trigger] slot_off(d2, i) + slot_len(d2, i) <= #[trigger] slot_off(d2, j) || slot_off(
        d2,
        j,
    ) + slot_len(d2, j) <= slot_off(d2, i) by {
        assert(slot_valid(d, i) && slot_valid(d, j));
        if i < j {
            assert(crate::layout::valid_len_sum(d, i + 1) == crate::layout::valid_len_sum(d, i)
                + slot_len(d, i));
            crate::layout::lemma_sum_monotonic(d, i + 1, j);
        } else {
            assert(crate::layout::valid_len_sum(d, j + 1) == crate::layout::valid_len_sum(d, j)
                + slot_len(d, j));
            crate::layout::lemma_sum_monotonic(d, j + 1, i);
        }
    }
    assert forall|i: int|
        0 <= i < sc implies ((#[trigger] slot_valid(d2, i) <==> slot_valid(d, i)) && slot_len(
        d2,
        i,
    ) == slot_len(d, i)) by {
        if slot_valid(d, i) {
            crate::layout::lemma_sum_nonneg(d, i);
            assert(slot_off(d2, i) == 96 + crate::layout::valid_len_sum(d, i));
            assert(slot_len(d2, i) == slot_len(d, i));
        } else {
            assert(slot_off(d2, i) == slot_off(d, i));
            assert(slot_len(d2, i) == slot_len(d, i));
        }
    }
    crate::layout::lemma_sum_same_lengths(d2, d, sc);
}

/// After invalidating a slot of a well-formed page, compaction's
/// requirements still hold: the remaining rows are untouched and their
/// total length only shrank.
pub proof fn lemma_delete_compact_pre(d: Seq<u8>, d2: Seq<u8>, k: int)
    requires
        wf_page(d),
        0 <= k < slot_count_of(d),
        slot_valid(d, k),
        delete_applied(d, d2, k),
    ensures
        compact_pre(d2),
{
    let sc = slot_count_of(d);
    assert(4 * sc <= 4000);
    assert forall|j: int| 0 <= j < sc && j != k implies #[trigger] slot_off(d2, j) == slot_off(
        d,
        j,
    ) && slot_len(d2, j) == slot_len(d, j) by {
        assert(crate::layout::slot_pos(j) >= 96);
        assert(crate::layout::slot_pos(k) >= 96);
        if j < k {
            assert(crate::layout::slot_pos(j) >= crate::layout::slot_pos(k) + 4);
        } else {
            assert(crate::layout::slot_pos(j) + 4 <= crate::layout::slot_pos(k));
        }
    }
    crate::layout::lemma_sum_change_one(d, d2, sc, k);
    crate::layout::lemma_wf_page_compact_pre(d);
}

/// Round trip: after applying an insertion at `pos`, the target slot's row
/// reads back exactly the bytes inserted, provided the row was not planned
/// over its own slot entry (inside the tuple area this always holds).
pub proof fn lemma_insert_round_trip(
    d: Seq<u8>,
    d2: Seq<u8>,
    idx: int,
    newslot: bool,
    pos: int,
    row: Seq<u8>,
)
    requires
        exact_insert_applied(d, d2, idx, newslot, pos, row),
        0 <= pos,
        pos + row.len() <= d2.len(),
        pos + row.len() <= slot_pos(idx) || slot_pos(idx) + 4 <= pos,
    ensures
        crate::layout::row_of(d2, idx) == row,
{
    assert(crate::layout::row_of(d2, idx).len() == row.len());
    assert forall|k2: int| 0 <= k2 < row.len() implies #[trigger] crate::layout::row_of(d2, idx)[k2]
        == row[k2] by {
        assert(!(slot_pos(idx) <= pos + k2 < slot_pos(idx) + 4));
        assert(d2[pos + k2] == row[k2]);
        assert(crate::layout::row_of(d2, idx)[k2] == d2[pos + k2]);
    }
    assert(crate::layout::row_of(d2, idx) =~= row);
}

/// Compaction equivalence: every valid slot reads back the same bytes
/// after `compact` as before, and no slot changes validity.
pub proof fn lemma_compact_preserves_rows(d: Seq<u8>, d2: Seq<u8>, i: int)
    requires
        compact_applied(d, d2),
        0 <= i < slot_count_of(d),
    ensures
        slot_valid(d2, i) <==> slot_valid(d, i),
        slot_valid(d, i) ==> crate::layout::row_of(d2, i) == crate::layout::row_of(d, i),
{
    if slot_valid(d, i) {
        crate::layout::lemma_sum_nonneg(d, i);
        assert(slot_off(d2, i) == 96 + crate::layout::valid_len_sum(d, i));
        assert(crate::layout::row_of(d2, i) =~= d2.subrange(
            96 + crate::layout::valid_len_sum(d, i),
            96 + crate::layout::valid_len_sum(d, i) + slot_len(d, i),
        ));
    } else {
        assert(slot_off(d2, i) == slot_off(d, i));
        assert(slot_len(d2, i) == slot_len(d, i));
    }
}

/// An exact placement keeps the page geometry intact: an append at
/// `free_start` still ends before the (possibly grown) slot array, and a
/// placement inside a gap ends before `free_start`. The offset search can
/// violate this in two corners: a tail-gap placement may cross
/// `free_start` after a shrinking update left `free_start` beyond the last
/// row, and a barely-fitting append may run into a freshly appended slot
/// entry.
pub open spec fn placement_safe(d: Seq<u8>, plan: InsertionPlan, len: int) -> bool {
    match plan.offset {
        InsertionOffset::AfterCompactionFreeStart => true,
        InsertionOffset::Exact(pos) => {
            let fe2 = free_end_of(d) - if plan_new_slot(plan) {
                4int
            } else {
                0int
            };
            if pos == free_start_of(d) {
                free_start_of(d) + len <= fe2 + 1
            } else {
                pos + len <= free_start_of(d) && free_start_of(d) <= fe2 + 1
            }
        },
    }
}

/// The target slot of a plan is usable: an appended slot has the next
/// index, a reused slot is invalid.
pub open spec fn plan_slot_usable(d: Seq<u8>, plan: InsertionPlan) -> bool {
    match plan.slot {
        InsertionSlot::Reuse(i) => i < slot_count_of(d) && !slot_valid(d, i as int),
        InsertionSlot::New => true,
    }
}

/// Appending a row at `free_start` preserves well-formedness, provided the
/// row and a possibly appended slot entry fit in the contiguous free area.
proof fn lemma_insert_at_free_start_wf(
    d: Seq<u8>,
    d2: Seq<u8>,
    plan: InsertionPlan,
    row: Seq<u8>,
)
    requires
        wf_page(d),
        plan_slot_usable(d, plan),
        insert_pre(d, plan, row.len() as int),
        free_start_of(d) + row.len() <= free_end_of(d) - (if plan_new_slot(plan) {
            4int
        } else {
            0int
        }) + 1,
        exact_insert_applied(
            d,
            d2,
            plan_slot_index(d, plan),
            plan_new_slot(plan),
            free_start_of(d),
            row,
        ),
    ensures
        wf_page(d2),
{
    let idx = plan_slot_index(d, plan);
    let newslot = plan_new_slot(plan);
    let len = row.len() as int;
    let pos = free_start_of(d);
    lemma_exact_insert_frame(d, d2, plan, pos, row);
    assert(free_start_of(d2) <= free_end_of(d2) + 1);
    assert(slot_valid(d2, idx));
    assert forall|i: int|
        0 <= i < slot_count_of(d2) && slot_valid(d2, i) implies 96 <= #[trigger] slot_off(d2, i)
        && slot_off(d2, i) + slot_len(d2, i) <= free_start_of(d2) by {
        if i != idx {
            assert(slot_off(d, i) + slot_len(d, i) <= free_start_of(d));
        }
    }
    assert forall|i: int, j: int|
        0 <= i < slot_count_of(d2) && 0 <= j < slot_count_of(d2) && i != j && slot_valid(d2, i)
            && slot_valid(d2, j) implies #[trigger] slot_off(d2, i) + slot_len(d2, i)
        <= #[trigger] slot_off(d2, j) || slot_off(d2, j) + slot_len(d2, j) <= slot_off(d2, i) by {
        if i != idx && j != idx {
        } else if i == idx {
            assert(slot_off(d, j) + slot_len(d, j) <= pos);
        } else {
            assert(slot_off(d, i) + slot_len(d, i) <= pos);
        }
    }
    lemma_insert_accounting(d, d2, plan, row);
}

/// The slot entries other than the target and the valid/invalid status of
/// every other slot survive an exact insertion, and the new slot count
/// stays within the page.
proof fn lemma_exact_insert_frame(d: Seq<u8>, d2: Seq<u8>, plan: InsertionPlan, pos: int, row: Seq<u8>)
    requires
        wf_page(d),
        plan_slot_usable(d, plan),
        insert_pre(d, plan, row.len() as int),
        96 <= pos,
        pos + row.len() <= free_end_of(d) - (if plan_new_slot(plan) {
            4int
        } else {
            0int
        }) + 1,
        exact_insert_applied(d, d2, plan_slot_index(d, plan), plan_new_slot(plan), pos, row),
    ensures
        4 * slot_count_of(d2) <= 4000,
        crate::layout::slot_region_ok(d2),
        96 <= free_start_of(d2),
        slot_valid(d2, plan_slot_index(d, plan)),
        slot_off(d2, plan_slot_index(d, plan)) == pos,
        slot_len(d2, plan_slot_index(d, plan)) == row.len(),
        forall|i: int|
            0 <= i < slot_count_of(d2) && i != plan_slot_index(d, plan) ==> #[trigger] slot_off(
                d2,
                i,
            ) == slot_off(d, i) && slot_len(d2, i) == slot_len(d, i),
{
    let idx = plan_slot_index(d, plan);
    let newslot = plan_new_slot(plan);
    let len = row.len() as int;
    let fe2 = free_end_of(d) - if newslot {
        4int
    } else {
        0int
    };
    assert(4 * slot_count_of(d) <= 4000);
    assert forall|i: int|
        0 <= i < slot_count_of(d2) && i != idx implies #[trigger] slot_off(d2, i) == slot_off(
        d,
        i,
    ) && slot_len(d2, i) == slot_len(d, i) by {
        assert(crate::layout::slot_pos(i) >= 4096 - 4 * slot_count_of(d2));
        assert(4096 - 4 * slot_count_of(d2) == fe2 + 1);
        if i < idx {
            assert(crate::layout::slot_pos(i) >= crate::layout::slot_pos(idx) + 4);
        } else {
            assert(crate::layout::slot_pos(i) + 4 <= crate::layout::slot_pos(idx));
        }
        assert(d2[crate::layout::slot_pos(i)] == d[crate::layout::slot_pos(i)]);
        assert(d2[crate::layout::slot_pos(i) + 1] == d[crate::layout::slot_pos(i) + 1]);
        assert(d2[crate::layout::slot_pos(i) + 2] == d[crate::layout::slot_pos(i) + 2]);
        assert(d2[crate::layout::slot_pos(i) + 3] == d[crate::layout::slot_pos(i) + 3]);
    }
}

/// The free-space account survives an exact insertion: the row's length
/// and a possibly appended slot entry move from the free space to the used
/// side.
proof fn lemma_insert_accounting(d: Seq<u8>, d2: Seq<u8>, plan: InsertionPlan, row: Seq<u8>)
    requires
        wf_page(d),
        plan_slot_usable(d, plan),
        insert_pre(d, plan, row.len() as int),
        slot_valid(d2, plan_slot_index(d, plan)),
        slot_len(d2, plan_slot_index(d, plan)) == row.len(),
        slot_count_of(d2) == slot_count_of(d) + if plan_new_slot(plan) {
            1int
        } else {
            0int
        },
        free_space_of(d2) == free_space_of(d) - row.len() - if plan_new_slot(plan) {
            4int
        } else {
            0int
        },
        forall|i: int|
            0 <= i < slot_count_of(d2) && i != plan_slot_index(d, plan) ==> #[trigger] slot_off(
                d2,
                i,
            ) == slot_off(d, i) && slot_len(d2, i) == slot_len(d, i),
    ensures
        crate::layout::accounting_ok(d2),
{
    let idx = plan_slot_index(d, plan);
    let sc = slot_count_of(d);
    let len = row.len() as int;
    if plan_new_slot(plan) {
        crate::layout::lemma_sum_congruence(d2, d, sc);
        assert(crate::layout::valid_len_sum(d2, sc + 1) == crate::layout::valid_len_sum(d2, sc)
            + len);
    } else {
        crate::layout::lemma_sum_change_one(d, d2, sc, idx);
    }
}

/// Applying an insertion plan whose offset the search chose preserves
/// well-formedness, provided no two rows share a start offset and the
/// placement stays within the free area. The hypotheses are exactly what
/// `plan_insert` ensures of its result on a well-formed page, plus the
/// placement-safety condition; a tail-gap placement crossing `free_start`
/// or an append squeezed against a fresh slot entry falls outside it.
pub proof fn lemma_insert_heap_preserves_wf(
    d: Seq<u8>,
    d2: Seq<u8>,
    plan: InsertionPlan,
    row: Seq<u8>,
)
    requires
        wf_page(d),
        distinct_starts(d),
        plan_slot_usable(d, plan),
        insert_pre(d, plan, row.len() as int),
        placement_safe(d, plan, row.len() as int),
        match plan.offset {
            InsertionOffset::Exact(pos) => ((pos == free_start_of(d) && fast_path_fits(
                d,
                row.len() as int,
            )) || (exists|a: int, b: int|
                window_fit(d, None, row.len() as int, a, b) && pos == ext_end(d, None, a)) || (
            exists|l: int|
                is_last_ext(d, l) && free_end_of(d) >= ext_end(d, None, l) && free_end_of(d)
                    - ext_end(d, None, l) >= row.len() as int && pos == ext_end(d, None, l)))
                && exact_insert_applied(
                d,
                d2,
                plan_slot_index(d, plan),
                plan_new_slot(plan),
                pos as int,
                row,
            ),
            InsertionOffset::AfterCompactionFreeStart => exists|mid: Seq<u8>|
                compact_applied(d, mid) && exact_insert_applied(
                    mid,
                    d2,
                    plan_slot_index(d, plan),
                    plan_new_slot(plan),
                    free_start_of(mid),
                    row,
                ),
        },
    ensures
        wf_page(d2),
{
    let idx = plan_slot_index(d, plan);
    let newslot = plan_new_slot(plan);
    let len = row.len() as int;
    match plan.offset {
        InsertionOffset::Exact(pos_u) => {
            let pos = pos_u as int;
            if pos == free_start_of(d) {
                lemma_insert_at_free_start_wf(d, d2, plan, row);
            } else {
                assert(pos + len <= free_start_of(d));
                assert(free_start_of(d) <= free_end_of(d) - (if newslot {
                    4int
                } else {
                    0int
                }) + 1);
                lemma_exact_insert_frame(d, d2, plan, pos, row);
                assert(free_start_of(d2) == free_start_of(d));
                assert(free_start_of(d2) <= free_end_of(d2) + 1);
                // The chosen position is the end of some extent whose
                // successor (or the free area) leaves `len` bytes of room,
                // so the new row lies beside every old one.
                assert forall|j: int|
                    0 <= j < slot_count_of(d) && slot_valid(d, j) implies #[trigger] slot_off(
                    d,
                    j,
                ) + slot_len(d, j) <= pos || pos + len <= slot_off(d, j) by {
                    if exists|a: int, b: int|
                        window_fit(d, None, len, a, b) && pos == ext_end(d, None, a) {
                        let (a, b) = choose|a: int, b: int|
                            window_fit(d, None, len, a, b) && pos == ext_end(d, None, a);
                        assert(ext_is(d, j));
                        assert(slot_off(d, j) <= slot_off(d, a) || slot_off(d, j) >= slot_off(
                            d,
                            b,
                        ));
                        if j == a {
                        } else if slot_off(d, j) <= slot_off(d, a) {
                            assert(slot_off(d, j) != slot_off(d, a));
                            assert(slot_off(d, j) + slot_len(d, j) <= slot_off(d, a) || slot_off(
                                d,
                                a,
                            ) + slot_len(d, a) <= slot_off(d, j));
                        } else {
                            assert(slot_off(d, j) >= ext_end(d, None, a) + len);
                        }
                    } else {
                        let l = choose|l: int|
                            is_last_ext(d, l) && free_end_of(d) >= ext_end(d, None, l)
                                && free_end_of(d) - ext_end(d, None, l) >= len && pos == ext_end(
                                d,
                                None,
                                l,
                            );
                        assert(ext_is(d, j));
                        assert(slot_off(d, j) <= slot_off(d, l));
                        if j != l {
                            assert(slot_off(d, j) != slot_off(d, l));
                            assert(slot_off(d, j) + slot_len(d, j) <= slot_off(d, l) || slot_off(
                                d,
                                l,
                            ) + slot_len(d, l) <= slot_off(d, j));
                        }
                    }
                }
                assert forall|i: int|
                    0 <= i < slot_count_of(d2) && slot_valid(d2, i) implies 96 <= #[trigger] slot_off(
                    d2,
                    i,
                ) && slot_off(d2, i) + slot_len(d2, i) <= free_start_of(d2) by {
                    if i != idx {
                        assert(slot_off(d, i) + slot_len(d, i) <= free_start_of(d));
                    }
                }
                assert forall|i: int, j: int|
                    0 <= i < slot_count_of(d2) && 0 <= j < slot_count_of(d2) && i != j && slot_valid(
                        d2,
                        i,
                    ) && slot_valid(d2, j) implies #[trigger] slot_off(d2, i) + slot_len(d2, i)
                    <= #[trigger] slot_off(d2, j) || slot_off(d2, j) + slot_len(d2, j) <= slot_off(
                    d2,
                    i,
                ) by {
                    if i == idx && j != idx {
                        assert(slot_valid(d, j));
                    } else if j == idx && i != idx {
                        assert(slot_valid(d, i));
                    }
                }
                lemma_insert_accounting(d, d2, plan, row);
            }
        },
        InsertionOffset::AfterCompactionFreeStart => {
            let mid = choose|mid: Seq<u8>|
                compact_applied(d, mid) && exact_insert_applied(
                    mid,
                    d2,
                    idx,
                    newslot,
                    free_start_of(mid),
                    row,
                );
            lemma_compact_preserves_wf(d, mid);
            let plan2 = InsertionPlan {
                slot: plan.slot,
                offset: InsertionOffset::Exact(free_start_of(mid) as usize),
            };
            assert(plan_slot_index(mid, plan2) == idx);
            assert(plan_new_slot(plan2) == newslot);
            // Capacity carries over: compaction leaves the free-space
            // account alone, and the whole free area is contiguous again.
            crate::layout::lemma_sum_nonneg(d, slot_count_of(d));
            assert(free_start_of(mid) == 96 + crate::layout::valid_len_sum(d, slot_count_of(d)));
            assert(free_space_of(mid) == 4000 - 4 * slot_count_of(mid)
                - crate::layout::valid_len_sum(mid, slot_count_of(mid)));
            assert(free_start_of(mid) + len <= free_end_of(mid) - (if newslot {
                4int
            } else {
                0int
            }) + 1);
            if plan.slot is Reuse {
                let i = plan_slot_index(d, plan);
                assert(0 <= i < slot_count_of(d));
                assert(!slot_valid(d, i));
                assert(slot_off(mid, i) == slot_off(d, i));
                assert(slot_len(mid, i) == slot_len(d, i));
                assert(!slot_valid(mid, i));
            }
            assert(plan_slot_usable(mid, plan2));
            assert(insert_pre(mid, plan2, len)) by {
                assert(free_start_of(mid) + len <= 4096);
                assert(96 <= free_start_of(mid));
            }
            lemma_insert_at_free_start_wf(mid, d2, plan2, row);
        },
    }
}

/// A same-size update preserves well-formedness: only bytes inside one
/// valid row change.
pub proof fn lemma_overwrite_preserves_wf(d: Seq<u8>, d2: Seq<u8>, k: int, row: Seq<u8>)
    requires
        wf_page(d),
        0 <= k < slot_count_of(d),
        slot_valid(d, k),
        row.len() == slot_len(d, k),
        overwrite_applied(d, d2, k, row),
    ensures
        wf_page(d2),
{
    let sc = slot_count_of(d);
    let pos = slot_off(d, k);
    let len = row.len() as int;
    assert(4 * sc <= 4000);
    assert(pos + len <= free_start_of(d));
    assert forall|i: int| 0 <= i < sc implies #[trigger] slot_off(d2, i) == slot_off(d, i)
        && slot_len(d2, i) == slot_len(d, i) by {
        assert(crate::layout::slot_pos(i) >= 4096 - 4 * sc);
        assert(4096 - 4 * sc == free_end_of(d) + 1);
        assert(d2[crate::layout::slot_pos(i)] == d[crate::layout::slot_pos(i)]);
        assert(d2[crate::layout::slot_pos(i) + 1] == d[crate::layout::slot_pos(i) + 1]);
        assert(d2[crate::layout::slot_pos(i) + 2] == d[crate::layout::slot_pos(i) + 2]);
        assert(d2[crate::layout::slot_pos(i) + 3] == d[crate::layout::slot_pos(i) + 3]);
    }
    assert(slot_count_of(d2) == sc);
    assert(free_start_of(d2) == free_start_of(d));
    assert(free_end_of(d2) == free_end_of(d));
    assert(free_space_of(d2) == free_space_of(d));
    crate::layout::lemma_sum_congruence(d2, d, sc);
}

/// A shrinking update preserves well-formedness: the row's interval only
/// shrinks, and the freed length moves to the free-space account.
pub proof fn lemma_shrink_preserves_wf(d: Seq<u8>, d2: Seq<u8>, k: int, row: Seq<u8>)
    requires
        wf_page(d),
        0 <= k < slot_count_of(d),
        slot_valid(d, k),
        row.len() < slot_len(d, k),
        free_space_of(d) + slot_len(d, k) - row.len() <= u16::MAX as int,
        shrink_applied(d, d2, k, row),
    ensures
        wf_page(d2),
{
    let sc = slot_count_of(d);
    let pos = slot_off(d, k);
    let len = row.len() as int;
    assert(4 * sc <= 4000);
    assert(pos + slot_len(d, k) <= free_start_of(d));
    assert forall|i: int| 0 <= i < sc && i != k implies #[trigger] slot_off(d2, i) == slot_off(
        d,
        i,
    ) && slot_len(d2, i) == slot_len(d, i) by {
        assert(crate::layout::slot_pos(i) >= 4096 - 4 * sc);
        assert(4096 - 4 * sc == free_end_of(d) + 1);
        if i < k {
            assert(crate::layout::slot_pos(i) >= crate::layout::slot_pos(k) + 4);
        } else {
            assert(crate::layout::slot_pos(i) + 4 <= crate::layout::slot_pos(k));
        }
        assert(d2[crate::layout::slot_pos(i)] == d[crate::layout::slot_pos(i)]);
        assert(d2[crate::layout::slot_pos(i) + 1] == d[crate::layout::slot_pos(i) + 1]);
        assert(d2[crate::layout::slot_pos(i) + 2] == d[crate::layout::slot_pos(i) + 2]);
        assert(d2[crate::layout::slot_pos(i) + 3] == d[crate::layout::slot_pos(i) + 3]);
    }
    assert(slot_valid(d2, k));
    crate::layout::lemma_sum_change_one(d, d2, sc, k);
}

/// A growing update relocated by the offset search preserves
/// well-formedness, under the same qualification as an insertion: no two
/// rows share a start offset, and the placement stays within the free
/// area (`pos + len` at or before `free_start`, or an append at
/// `free_start` that ends before the slot array).
pub proof fn lemma_grow_preserves_wf(d: Seq<u8>, d2: Seq<u8>, k: int, pos: int, row: Seq<u8>)
    requires
        wf_page(d),
        distinct_starts(d),
        0 <= k < slot_count_of(d),
        slot_valid(d, k),
        row.len() > slot_len(d, k),
        row.len() <= free_space_of(d) + slot_len(d, k),
        (pos == free_start_of(d) && fast_path_fits(d, row.len() as int)) || (exists|a: int, b: int|
            window_fit(d, Some(k), row.len() as int, a, b) && pos == ext_end(d, Some(k), a)) || (
        exists|l: int|
            is_last_ext(d, l) && free_end_of(d) >= ext_end(d, Some(k), l) && free_end_of(d)
                - ext_end(d, Some(k), l) >= row.len() as int && pos == ext_end(d, Some(k), l)),
        pos == free_start_of(d) || pos + row.len() <= free_start_of(d),
        grow_applied(d, d2, k, pos, row),
    ensures
        wf_page(d2),
{
    let sc = slot_count_of(d);
    let len = row.len() as int;
    let ig = Some(k);
    assert(4 * sc <= 4000);
    assert forall|i: int| 0 <= i < sc && i != k implies #[trigger] slot_off(d2, i) == slot_off(
        d,
        i,
    ) && slot_len(d2, i) == slot_len(d, i) by {
        assert(crate::layout::slot_pos(i) >= 4096 - 4 * sc);
        assert(4096 - 4 * sc == free_end_of(d) + 1);
        assert(pos + len <= free_end_of(d) + 1) by {
            if pos == free_start_of(d) && fast_path_fits(d, len) {
            } else if pos + len <= free_start_of(d) {
            }
        }
        if i < k {
            assert(crate::layout::slot_pos(i) >= crate::layout::slot_pos(k) + 4);
        } else {
            assert(crate::layout::slot_pos(i) + 4 <= crate::layout::slot_pos(k));
        }
        assert(d2[crate::layout::slot_pos(i)] == d[crate::layout::slot_pos(i)]);
        assert(d2[crate::layout::slot_pos(i) + 1] == d[crate::layout::slot_pos(i) + 1]);
        assert(d2[crate::layout::slot_pos(i) + 2] == d[crate::layout::slot_pos(i) + 2]);
        assert(d2[crate::layout::slot_pos(i) + 3] == d[crate::layout::slot_pos(i) + 3]);
    }
    // The new interval for slot k lies beside every other row.
    assert forall|j: int|
        0 <= j < sc && j != k && slot_valid(d, j) implies #[trigger] slot_off(d, j) + slot_len(
        d,
        j,
    ) <= pos || pos + len <= slot_off(d, j) by {
        if pos == free_start_of(d) && fast_path_fits(d, len) {
            assert(slot_off(d, j) + slot_len(d, j) <= free_start_of(d));
        } else if exists|a: int, b: int|
            window_fit(d, ig, len, a, b) && pos == ext_end(d, ig, a) {
            let (a, b) = choose|a: int, b: int|
                window_fit(d, ig, len, a, b) && pos == ext_end(d, ig, a);
            assert(ext_is(d, j));
            assert(slot_off(d, j) <= slot_off(d, a) || slot_off(d, j) >= slot_off(d, b));
            if j == a {
                assert(ext_end(d, ig, a) >= slot_off(d, a) + if a == k {
                    0int
                } else {
                    slot_len(d, a)
                });
            } else if slot_off(d, j) <= slot_off(d, a) {
                assert(slot_off(d, j) != slot_off(d, a));
                assert(slot_off(d, j) + slot_len(d, j) <= slot_off(d, a) || slot_off(d, a)
                    + slot_len(d, a) <= slot_off(d, j));
                assert(ext_end(d, ig, a) >= slot_off(d, a));
            } else {
                assert(slot_off(d, j) >= ext_end(d, ig, a) + len);
            }
        } else {
            let l = choose|l: int|
                is_last_ext(d, l) && free_end_of(d) >= ext_end(d, ig, l) && free_end_of(d)
                    - ext_end(d, ig, l) >= len && pos == ext_end(d, ig, l);
            assert(ext_is(d, j));
            assert(slot_off(d, j) <= slot_off(d, l));
            if j != l {
                assert(slot_off(d, j) != slot_off(d, l));
                assert(slot_off(d, j) + slot_len(d, j) <= slot_off(d, l) || slot_off(d, l)
                    + slot_len(d, l) <= slot_off(d, j));
                assert(ext_end(d, ig, l) >= slot_off(d, l));
            }
        }
    }
    assert(slot_valid(d2, k)) by {
        assert(96 <= pos);
    }
    assert forall|i: int|
        0 <= i < sc && slot_valid(d2, i) implies 96 <= #[trigger] slot_off(d2, i) && slot_off(
        d2,
        i,
    ) + slot_len(d2, i) <= free_start_of(d2) by {
        if i != k {
            assert(slot_off(d, i) + slot_len(d, i) <= free_start_of(d));
        }
    }
    assert forall|i: int, j: int|
        0 <= i < sc && 0 <= j < sc && i != j && slot_valid(d2, i) && slot_valid(d2, j) implies
        #[trigger] slot_off(d2, i) + slot_len(d2, i) <= #[trigger] slot_off(d2, j) || slot_off(
        d2,
        j,
    ) + slot_len(d2, j) <= slot_off(d2, i) by {
        if i == k && j != k {
            assert(slot_valid(d, j));
        } else if j == k && i != k {
            assert(slot_valid(d, i));
        }
    }
    crate::layout::lemma_sum_change_one(d, d2, sc, k);
}

/// A growing update that compacts first preserves well-formedness: it is
/// the deletion of the old row, a compaction, and an append at the fresh
/// `free_start`.
pub proof fn lemma_grow_after_compact_preserves_wf(
    d: Seq<u8>,
    m1: Seq<u8>,
    m2: Seq<u8>,
    d2: Seq<u8>,
    k: int,
    row: Seq<u8>,
)
    requires
        wf_page(d),
        distinct_starts(d),
        0 <= k < slot_count_of(d),
        slot_valid(d, k),
        row.len() > slot_len(d, k),
        row.len() <= free_space_of(d) + slot_len(d, k),
        delete_applied(d, m1, k),
        compact_applied(m1, m2),
        grow_after_compact_applied(d, m2, d2, k, row),
    ensures
        wf_page(d2),
{
    let sc = slot_count_of(d);
    let len = row.len() as int;
    let pos = free_start_of(m2);
    lemma_delete_preserves_wf(d, m1, k);
    lemma_compact_preserves_wf(m1, m2);
    crate::layout::lemma_sum_change_one(d, m1, sc, k);
    crate::layout::lemma_sum_nonneg(d, sc);
    assert(free_space_of(m2) == free_space_of(d) + slot_len(d, k));
    assert(free_start_of(m2) == 96 + crate::layout::valid_len_sum(m1, sc));
    assert(pos + len <= free_end_of(m2) + 1);
    assert(!slot_valid(m2, k)) by {
        assert(!slot_valid(m1, k));
        assert(slot_off(m2, k) == slot_off(m1, k) && slot_len(m2, k) == slot_len(m1, k));
    }
    assert(4 * sc <= 4000);
    assert forall|i: int| 0 <= i < sc && i != k implies #[trigger] slot_off(d2, i) == slot_off(
        m2,
        i,
    ) && slot_len(d2, i) == slot_len(m2, i) by {
        assert(crate::layout::slot_pos(i) >= 4096 - 4 * sc);
        assert(4096 - 4 * sc == free_end_of(m2) + 1);
        if i < k {
            assert(crate::layout::slot_pos(i) >= crate::layout::slot_pos(k) + 4);
        } else {
            assert(crate::layout::slot_pos(i) + 4 <= crate::layout::slot_pos(k));
        }
        assert(d2[crate::layout::slot_pos(i)] == m2[crate::layout::slot_pos(i)]);
        assert(d2[crate::layout::slot_pos(i) + 1] == m2[crate::layout::slot_pos(i) + 1]);
        assert(d2[crate::layout::slot_pos(i) + 2] == m2[crate::layout::slot_pos(i) + 2]);
        assert(d2[crate::layout::slot_pos(i) + 3] == m2[crate::layout::slot_pos(i) + 3]);
    }
    assert(slot_valid(d2, k)) by {
        assert(96 <= pos);
    }
    assert forall|i: int|
        0 <= i < sc && slot_valid(d2, i) implies 96 <= #[trigger] slot_off(d2, i) && slot_off(
        d2,
        i,
    ) + slot_len(d2, i) <= free_start_of(d2) by {
        if i != k {
            assert(slot_off(m2, i) + slot_len(m2, i) <= free_start_of(m2));
        }
    }
    assert forall|i: int, j: int|
        0 <= i < sc && 0 <= j < sc && i != j && slot_valid(d2, i) && slot_valid(d2, j) implies
        #[trigger] slot_off(d2, i) + slot_len(d2, i) <= #[trigger] slot_off(d2, j) || slot_off(
        d2,
        j,
    ) + slot_len(d2, j) <= slot_off(d2, i) by {
        if i == k && j != k {
            assert(slot_valid(m2, j));
            assert(slot_off(m2, j) + slot_len(m2, j) <= pos);
        } else if j == k && i != k {
            assert(slot_valid(m2, i));
            assert(slot_off(m2, i) + slot_len(m2, i) <= pos);
        }
    }
    crate::layout::lemma_sum_change_one(m2, d2, sc, k);
    assert forall|i: int|
        0 <= i < sc implies ((#[trigger] slot_valid(m2, i) <==> slot_valid(m1, i)) && slot_len(
        m2,
        i,
    ) == slot_len(m1, i)) by {
        if slot_valid(m1, i) {
            crate::layout::lemma_sum_nonneg(m1, i);
            assert(slot_off(m2, i) == 96 + crate::layout::valid_len_sum(m1, i));
            assert(slot_len(m2, i) == slot_len(m1, i));
        } else {
            assert(slot_off(m2, i) == slot_off(m1, i));
            assert(slot_len(m2, i) == slot_len(m1, i));
        }
    }
    crate::layout::lemma_sum_same_lengths(m2, m1, sc);
}

} // verus!
