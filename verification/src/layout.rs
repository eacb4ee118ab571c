//! The mathematical model of the slotted-page byte format.
//!
//! A page is a 4096-byte sequence: a 96-byte header, a tuple region growing
//! upward, a contiguous free area, and a reverse-indexed slot array growing
//! downward from the end of the page. Every specification of a page
//! operation is stated over these functions.

use vstd::prelude::*;

verus! {

use crate::le::u16_of;
use crate::le::u32_of;

/// The integer stored little-endian at bytes `off`, `off + 1`.
pub open spec fn u16_at(d: Seq<u8>, off: int) -> int {
    u16_of(d[off], d[off + 1])
}

/// The integer stored little-endian at bytes `off .. off + 4`.
pub open spec fn u32_at(d: Seq<u8>, off: int) -> int {
    u32_of(d[off], d[off + 1], d[off + 2], d[off + 3])
}

/// The integer stored little-endian at bytes `off .. off + 8`.
pub open spec fn u64_at(d: Seq<u8>, off: int) -> int {
    crate::le::u64_of(d.subrange(off, off + 8))
}

/// The sequence with a 16-bit little-endian value written at `off`.
pub open spec fn upd16(d: Seq<u8>, off: int, v: int) -> Seq<u8> {
    d.update(off, (v % 256) as u8).update(off + 1, (v / 256) as u8)
}

/// Number of entries in the slot array, from header offset 0.
pub open spec fn slot_count_of(d: Seq<u8>) -> int {
    u16_at(d, 0)
}

/// Offset of the first free byte of the tuple region, from header offset 2.
pub open spec fn free_start_of(d: Seq<u8>) -> int {
    u16_at(d, 2)
}

/// Offset of the last free byte before the slot array, from header offset 4.
pub open spec fn free_end_of(d: Seq<u8>) -> int {
    u16_at(d, 4)
}

/// Total free bytes including fragmentation, from header offset 6.
pub open spec fn free_space_of(d: Seq<u8>) -> int {
    u16_at(d, 6)
}

/// Whether fragmentation exists (0 or 1), from header offset 8.
pub open spec fn can_compact_of(d: Seq<u8>) -> int {
    u16_at(d, 8)
}

/// Logical page number, from header offset 10.
pub open spec fn page_number_of(d: Seq<u8>) -> int {
    u32_at(d, 10)
}

/// Page type code, from header offset 14.
pub open spec fn page_type_of(d: Seq<u8>) -> int {
    u16_at(d, 14)
}

/// First byte of the physical slot entry with logical index `i`.
///
/// Logical indices count from the end of the page: appending a slot never
/// moves an existing entry.
pub open spec fn slot_pos(i: int) -> int {
    4096 - 4 * (i + 1)
}

/// Tuple offset stored in slot `i`.
pub open spec fn slot_off(d: Seq<u8>, i: int) -> int {
    u16_at(d, slot_pos(i))
}

/// Tuple length stored in slot `i`.
pub open spec fn slot_len(d: Seq<u8>, i: int) -> int {
    u16_at(d, slot_pos(i) + 2)
}

/// A slot is valid unless offset and length are both zero.
pub open spec fn slot_valid(d: Seq<u8>, i: int) -> bool {
    !(slot_off(d, i) == 0 && slot_len(d, i) == 0)
}

/// The bytes of the row that slot `i` points to.
pub open spec fn row_of(d: Seq<u8>, i: int) -> Seq<u8> {
    d.subrange(slot_off(d, i), slot_off(d, i) + slot_len(d, i))
}

/// Number of bytes between the end of the free area and the end of the page.
pub open spec fn region_actual(d: Seq<u8>) -> int {
    4096 - free_end_of(d) - 1
}

/// The header's slot count and free-end pointer agree on the size of the
/// slot array.
pub open spec fn slot_region_ok(d: Seq<u8>) -> bool {
    region_actual(d) == 4 * slot_count_of(d)
}

/// The slot-array region's size as an error reports it: a free-end pointer
/// past the page reports an empty region.
pub open spec fn region_actual_size(d: Seq<u8>) -> int {
    if free_end_of(d) < 4096 {
        region_actual(d)
    } else {
        0
    }
}

/// Sum of the lengths of the valid slots with index below `n`.
pub open spec fn valid_len_sum(d: Seq<u8>, n: int) -> int
    decreases n,
{
    if n <= 0 {
        0
    } else {
        valid_len_sum(d, n - 1) + if slot_valid(d, n - 1) {
            slot_len(d, n - 1)
        } else {
            0
        }
    }
}

/// Every valid slot's byte range lies between the header and `free_start`.
pub open spec fn slots_in_bounds(d: Seq<u8>) -> bool {
    forall|i: int|
        0 <= i < slot_count_of(d) && slot_valid(d, i) ==> 96 <= #[trigger] slot_off(d, i)
            && slot_off(d, i) + slot_len(d, i) <= free_start_of(d)
}

/// Valid slots' byte ranges are pairwise disjoint.
pub open spec fn slots_disjoint(d: Seq<u8>) -> bool {
    forall|i: int, j: int|
        0 <= i < slot_count_of(d) && 0 <= j < slot_count_of(d) && i != j && slot_valid(d, i)
            && slot_valid(d, j) ==> #[trigger] slot_off(d, i) + slot_len(d, i)
            <= #[trigger] slot_off(d, j) || slot_off(d, j) + slot_len(d, j) <= slot_off(d, i)
}

/// The free-space field accounts for all bytes outside the header, the valid
/// rows and the slot array.
pub open spec fn accounting_ok(d: Seq<u8>) -> bool {
    free_space_of(d) == 4000 - 4 * slot_count_of(d) - valid_len_sum(d, slot_count_of(d))
}

/// Well-formedness of a heap page: the region geometry, the placement of
/// every valid row, their pairwise disjointness, and the free-space
/// accounting.
pub open spec fn wf_page(d: Seq<u8>) -> bool {
    &&& d.len() == 4096
    &&& slot_region_ok(d)
    &&& 96 <= free_start_of(d)
    &&& free_start_of(d) <= free_end_of(d) + 1
    &&& slots_in_bounds(d)
    &&& slots_disjoint(d)
    &&& accounting_ok(d)
}

/// The byte image of a freshly initialized page: all zero except the header
/// fields `free_start = 96`, `free_end = 4095`, `free_space = 4000`, the
/// page number and the page type.
pub open spec fn init_page_bytes(page_number: u32, page_type: u16) -> Seq<u8> {
    Seq::new(
        4096,
        |i: int|
            {
                if i == 2 {
                    96u8
                } else if i == 4 {
                    255u8
                } else if i == 5 {
                    15u8
                } else if i == 6 {
                    160u8
                } else if i == 7 {
                    15u8
                } else if i == 10 {
                    ((page_number as int) % 256) as u8
                } else if i == 11 {
                    (((page_number as int) / 256) % 256) as u8
                } else if i == 12 {
                    (((page_number as int) / 65536) % 256) as u8
                } else if i == 13 {
                    ((page_number as int) / 16777216) as u8
                } else if i == 14 {
                    ((page_type as int) % 256) as u8
                } else if i == 15 {
                    ((page_type as int) / 256) as u8
                } else {
                    0u8
                }
            },
    )
}

/// A freshly initialized page is well formed, with an empty slot array and
/// the whole non-header area free.
pub proof fn lemma_init_page_wf(page_number: u32, page_type: u16)
    ensures
        wf_page(init_page_bytes(page_number, page_type)),
        slot_count_of(init_page_bytes(page_number, page_type)) == 0,
        free_start_of(init_page_bytes(page_number, page_type)) == 96,
        free_end_of(init_page_bytes(page_number, page_type)) == 4095,
        free_space_of(init_page_bytes(page_number, page_type)) == 4000,
        can_compact_of(init_page_bytes(page_number, page_type)) == 0,
        page_number_of(init_page_bytes(page_number, page_type)) == page_number as int,
        page_type_of(init_page_bytes(page_number, page_type)) == page_type as int,
{
    let d = init_page_bytes(page_number, page_type);
    vstd::arithmetic::div_mod::lemma_fundamental_div_mod(page_number as int, 256);
    vstd::arithmetic::div_mod::lemma_fundamental_div_mod((page_number as int) / 256, 256);
    vstd::arithmetic::div_mod::lemma_fundamental_div_mod((page_number as int) / 65536, 256);
    vstd::arithmetic::div_mod::lemma_div_denominator(page_number as int, 256, 256);
    vstd::arithmetic::div_mod::lemma_div_denominator(page_number as int, 65536, 256);
    vstd::arithmetic::div_mod::lemma_fundamental_div_mod(page_type as int, 256);
    assert(slot_count_of(d) == 0);
    assert(free_start_of(d) == 96);
    assert(free_end_of(d) == 4095);
    assert(free_space_of(d) == 160 + 256 * 15);
}

/// Two pages whose slot entries below `n` agree have the same valid-length
/// sum over those entries.
pub proof fn lemma_sum_congruence(d1: Seq<u8>, d2: Seq<u8>, n: int)
    requires
        forall|i: int|
            0 <= i < n ==> #[trigger] slot_off(d1, i) == slot_off(d2, i) && slot_len(d1, i)
                == slot_len(d2, i),
    ensures
        valid_len_sum(d1, n) == valid_len_sum(d2, n),
    decreases n,
{
    if n > 0 {
        lemma_sum_congruence(d1, d2, n - 1);
        assert(slot_off(d1, n - 1) == slot_off(d2, n - 1));
        assert(slot_len(d1, n - 1) == slot_len(d2, n - 1));
    }
}

/// Changing only slot `k` changes the valid-length sum by the difference of
/// that slot's contribution.
pub proof fn lemma_sum_change_one(d1: Seq<u8>, d2: Seq<u8>, n: int, k: int)
    requires
        0 <= k < n,
        forall|i: int|
            0 <= i < n && i != k ==> #[trigger] slot_off(d1, i) == slot_off(d2, i) && slot_len(
                d1,
                i,
            ) == slot_len(d2, i),
    ensures
        valid_len_sum(d2, n) == valid_len_sum(d1, n) - (if slot_valid(d1, k) {
            slot_len(d1, k)
        } else {
            0
        }) + (if slot_valid(d2, k) {
            slot_len(d2, k)
        } else {
            0
        }),
    decreases n,
{
    if n - 1 == k {
        lemma_sum_congruence(d1, d2, n - 1);
    } else {
        assert forall|i: int| 0 <= i < n - 1 && i != k implies #[trigger] slot_off(d1, i)
            == slot_off(d2, i) && slot_len(d1, i) == slot_len(d2, i) by {
            assert(0 <= i < n && i != k);
            assert(slot_off(d1, i) == slot_off(d2, i) && slot_len(d1, i) == slot_len(d2, i));
        }
        lemma_sum_change_one(d1, d2, n - 1, k);
        let m = n - 1;
        assert(0 <= m < n && m != k);
        assert(slot_off(d1, m) == slot_off(d2, m) && slot_len(d1, m) == slot_len(d2, m));
    }
}

/// The valid-length sum grows with the number of slots counted.
pub proof fn lemma_sum_monotonic(d: Seq<u8>, m: int, n: int)
    requires
        m <= n,
    ensures
        valid_len_sum(d, m) <= valid_len_sum(d, n),
    decreases n - m,
{
    if m < n {
        lemma_sum_monotonic(d, m, n - 1);
    }
}

/// Two pages whose slots below `n` agree in validity and length have the
/// same valid-length sum over those entries, wherever the rows sit.
pub proof fn lemma_sum_same_lengths(d1: Seq<u8>, d2: Seq<u8>, n: int)
    requires
        forall|i: int|
            0 <= i < n ==> ((#[trigger] slot_valid(d1, i) <==> slot_valid(d2, i)) && slot_len(
                d1,
                i,
            ) == slot_len(d2, i)),
    ensures
        valid_len_sum(d1, n) == valid_len_sum(d2, n),
    decreases n,
{
    if n > 0 {
        lemma_sum_same_lengths(d1, d2, n - 1);
        assert(slot_valid(d1, n - 1) <==> slot_valid(d2, n - 1));
        assert(slot_len(d1, n - 1) == slot_len(d2, n - 1));
    }
}

/// The valid-length sum is non-negative.
pub proof fn lemma_sum_nonneg(d: Seq<u8>, n: int)
    ensures
        valid_len_sum(d, n) >= 0,
    decreases n,
{
    if n > 0 {
        lemma_sum_nonneg(d, n - 1);
    }
}

/// The valid-length sum is zero when every valid slot has length zero.
proof fn lemma_sum_zero(d: Seq<u8>, n: int)
    requires
        forall|i: int| 0 <= i < n && slot_valid(d, i) ==> #[trigger] slot_len(d, i) == 0,
    ensures
        valid_len_sum(d, n) == 0,
    decreases n,
{
    if n > 0 {
        lemma_sum_zero(d, n - 1);
    }
}

/// Pairwise-disjoint rows that all lie inside `[96, bound)` have lengths
/// summing to at most `bound - 96`.
pub proof fn lemma_sum_bounded(d: Seq<u8>, n: int, bound: int)
    requires
        d.len() == 4096,
        0 <= n,
        4 * n <= 4000,
        96 <= bound,
        forall|i: int|
            0 <= i < n && slot_valid(d, i) && slot_len(d, i) > 0 ==> 96 <= #[trigger] slot_off(
                d,
                i,
            ) && slot_off(d, i) + slot_len(d, i) <= bound,
        forall|i: int, j: int|
            0 <= i < n && 0 <= j < n && i != j && slot_valid(d, i) && slot_valid(d, j)
                ==> #[trigger] slot_off(d, i) + slot_len(d, i) <= #[trigger] slot_off(d, j)
                || slot_off(d, j) + slot_len(d, j) <= slot_off(d, i),
    ensures
        0 <= valid_len_sum(d, n) <= bound - 96,
    decreases bound,
{
    lemma_sum_nonneg(d, n);
    if exists|j: int|
        0 <= j < n && slot_valid(d, j) && slot_len(d, j) > 0 && slot_off(d, j) + slot_len(d, j)
            == bound {
        let j = choose|j: int|
            0 <= j < n && slot_valid(d, j) && slot_len(d, j) > 0 && slot_off(d, j) + slot_len(d, j)
                == bound;
        // Zero out slot j in a ghost copy; every other row must end at or
        // before its offset, since rows are disjoint and none may end past
        // `bound`.
        let d2 = upd16(upd16(d, slot_pos(j), 0), slot_pos(j) + 2, 0);
        assert forall|i: int| 0 <= i < n && i != j implies #[trigger] slot_off(d2, i) == slot_off(
            d,
            i,
        ) && slot_len(d2, i) == slot_len(d, i) by {
            assert(slot_pos(i) != slot_pos(j) && slot_pos(i) != slot_pos(j) + 1 && slot_pos(i)
                != slot_pos(j) + 2 && slot_pos(i) != slot_pos(j) + 3);
            assert(slot_pos(i) + 2 != slot_pos(j) && slot_pos(i) + 2 != slot_pos(j) + 1 && slot_pos(
                i,
            ) + 2 != slot_pos(j) + 3);
        }
        assert(slot_off(d2, j) == 0 && slot_len(d2, j) == 0) by {
            assert(u16_of(0u8, 0u8) == 0);
        }
        assert(!slot_valid(d2, j));
        lemma_sum_change_one(d, d2, n, j);
        assert forall|i: int|
            0 <= i < n && slot_valid(d2, i) && slot_len(d2, i) > 0 implies 96
            <= #[trigger] slot_off(d2, i) && slot_off(d2, i) + slot_len(d2, i) <= slot_off(d, j) by {
            assert(i != j);
            assert(slot_off(d, i) + slot_len(d, i) <= slot_off(d, j) || slot_off(d, j) + slot_len(
                d,
                j,
            ) <= slot_off(d, i));
        }
        lemma_sum_bounded(d2, n, slot_off(d, j));
        assert(valid_len_sum(d, n) == valid_len_sum(d2, n) + slot_len(d, j));
    } else if exists|j: int| 0 <= j < n && slot_valid(d, j) && slot_len(d, j) > 0 {
        // No row ends exactly at `bound`, so every nonempty row already
        // fits below `bound - 1`.
        lemma_sum_bounded(d, n, bound - 1);
    } else {
        lemma_sum_zero(d, n);
    }
}

/// A well-formed page satisfies everything compaction needs: the rows lie
/// disjointly between the header and the slot array.
pub proof fn lemma_wf_page_compact_pre(d: Seq<u8>)
    requires
        wf_page(d),
    ensures
        crate::plan::compact_pre(d),
        valid_len_sum(d, slot_count_of(d)) <= free_start_of(d) - 96,
{
    lemma_sum_bounded(d, slot_count_of(d), free_start_of(d));
}

} // verus!
