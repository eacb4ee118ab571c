use trdb::errors::InsertError;
use trdb::errors::PageOpError;
use trdb::page::Page;
use trdb::page_id::PageId;
use trdb::page_type::PageType;
use trdb::plan::InsertionOffset;
use trdb::plan::InsertionSlot;
use trdb::PAGE_SIZE;
use trdb::SLOT_SIZE;

fn put16(page: &mut Page, off: usize, v: u16) {
    let d = page.data_mut();
    d[off] = (v & 0xff) as u8;
    d[off + 1] = (v >> 8) as u8;
}

fn set_slot(page: &mut Page, idx: usize, off: u16, len: u16) {
    let pos = PAGE_SIZE - SLOT_SIZE * (idx + 1);
    put16(page, pos, off);
    put16(page, pos + 2, len);
}

#[test]
fn get_insertion_slot_no_slots_returns_new() {
    let page = Page::new_empty(PageId::new(1, 0), PageType::Unsorted).unwrap();
    assert!(matches!(
        page.get_insertion_slot().unwrap(),
        InsertionSlot::New
    ));
}

#[test]
fn get_insertion_slot_all_slots_valid_returns_new() {
    let mut page = Page::new_empty(PageId::new(1, 0), PageType::Unsorted).unwrap();
    let slot_count: u16 = 2;
    put16(&mut page, 0, slot_count);
    let new_free_end = (PAGE_SIZE - 1 - (slot_count as usize * SLOT_SIZE)) as u16;
    put16(&mut page, 4, new_free_end);

    set_slot(&mut page, 0, 96, 10);
    set_slot(&mut page, 1, 106, 20);

    assert!(matches!(
        page.get_insertion_slot().unwrap(),
        InsertionSlot::New
    ));
}

#[test]
fn get_insertion_slot_reuses_first_invalid_slot() {
    let mut page = Page::new_empty(PageId::new(1, 0), PageType::Unsorted).unwrap();
    let slot_count: u16 = 3;
    put16(&mut page, 0, slot_count);
    let new_free_end = (PAGE_SIZE - 1 - (slot_count as usize * SLOT_SIZE)) as u16;
    put16(&mut page, 4, new_free_end);

    // Leave slot 0 zeroed (invalid); slots 1 and 2 valid.
    set_slot(&mut page, 1, 96, 10);
    set_slot(&mut page, 2, 106, 20);

    assert!(matches!(
        page.get_insertion_slot().unwrap(),
        InsertionSlot::Reuse(0)
    ));
}

#[test]
fn get_insertion_slot_reuses_middle_invalid_slot() {
    let mut page = Page::new_empty(PageId::new(1, 0), PageType::Unsorted).unwrap();
    let slot_count: u16 = 3;
    put16(&mut page, 0, slot_count);
    let new_free_end = (PAGE_SIZE - 1 - (slot_count as usize * SLOT_SIZE)) as u16;
    put16(&mut page, 4, new_free_end);

    set_slot(&mut page, 0, 96, 8);
    // slot 1 left zeroed
    set_slot(&mut page, 2, 104, 16);

    assert!(matches!(
        page.get_insertion_slot().unwrap(),
        InsertionSlot::Reuse(1)
    ));
}

#[test]
fn find_insertion_offset_fast_path_returns_free_start() {
    let mut page = Page::new_empty(PageId::new(1, 0), PageType::Unsorted).unwrap();
    put16(&mut page, 2, 100); // free_start
    put16(&mut page, 4, (PAGE_SIZE - 1) as u16); // free_end

    let res = page.find_insertion_offset(50, None).unwrap();
    assert!(matches!(res, InsertionOffset::Exact(100)));
}

#[test]
fn find_insertion_offset_no_valid_rows_requires_compaction() {
    let mut page = Page::new_empty(PageId::new(1, 0), PageType::Unsorted).unwrap();
    let slot_count: u16 = 1;
    put16(&mut page, 0, slot_count);
    let new_free_end = (PAGE_SIZE - 1 - (slot_count as usize * SLOT_SIZE)) as u16;
    put16(&mut page, 4, new_free_end);
    put16(&mut page, 2, new_free_end - 10);

    let res = page.find_insertion_offset(50, None).unwrap();
    assert!(matches!(res, InsertionOffset::AfterCompactionFreeStart));
}

#[test]
fn find_insertion_offset_finds_gap_between_rows() {
    let mut page = Page::new_empty(PageId::new(1, 0), PageType::Unsorted).unwrap();
    let slot_count: u16 = 2;
    put16(&mut page, 0, slot_count);
    let new_free_end = (PAGE_SIZE - 1 - (slot_count as usize * SLOT_SIZE)) as u16;
    put16(&mut page, 4, new_free_end);
    put16(&mut page, 2, new_free_end - 5);

    set_slot(&mut page, 0, 96, 10); // ends at 106
    set_slot(&mut page, 1, 126, 10); // starts after a 20-byte gap

    let res = page.find_insertion_offset(15, None).unwrap();
    assert!(matches!(res, InsertionOffset::Exact(106)));
}

#[test]
fn find_insertion_offset_finds_tail_gap_after_last_row() {
    let mut page = Page::new_empty(PageId::new(1, 0), PageType::Unsorted).unwrap();
    let slot_count: u16 = 1;
    put16(&mut page, 0, slot_count);
    let new_free_end = (PAGE_SIZE - 1 - (slot_count as usize * SLOT_SIZE)) as u16;
    put16(&mut page, 4, new_free_end);
    put16(&mut page, 2, new_free_end - 5);

    set_slot(&mut page, 0, 96, 8); // ends at 104

    let res = page.find_insertion_offset(10, None).unwrap();
    assert!(matches!(res, InsertionOffset::Exact(104)));
}

#[test]
fn find_insertion_offset_no_contiguous_placement_requires_compaction() {
    let mut page = Page::new_empty(PageId::new(1, 0), PageType::Unsorted).unwrap();
    let slot_count: u16 = 2;
    put16(&mut page, 0, slot_count);
    let new_free_end = (PAGE_SIZE - 1 - (slot_count as usize * SLOT_SIZE)) as u16;
    put16(&mut page, 4, new_free_end);
    put16(&mut page, 2, new_free_end - 5);

    // Two adjacent rows that end exactly at free_end.
    set_slot(&mut page, 0, new_free_end - 40, 20);
    set_slot(&mut page, 1, new_free_end - 20, 20);

    let res = page.find_insertion_offset(10, None).unwrap();
    assert!(matches!(res, InsertionOffset::AfterCompactionFreeStart));
}

#[test]
fn plan_insert_new_slot_fast_path() {
    let mut page = Page::new_empty(PageId::new(1, 0), PageType::Unsorted).unwrap();
    put16(&mut page, 2, 100);
    put16(&mut page, 4, (PAGE_SIZE - 1) as u16);
    put16(&mut page, 6, 4000);

    let plan = page.plan_insert(50).unwrap();
    assert!(matches!(plan.slot, InsertionSlot::New));
    assert!(matches!(plan.offset, InsertionOffset::Exact(100)));
}

#[test]
fn plan_insert_reuse_slot() {
    let mut page = Page::new_empty(PageId::new(1, 0), PageType::Unsorted).unwrap();
    let slot_count: u16 = 1;
    put16(&mut page, 0, slot_count);
    let new_free_end = (PAGE_SIZE - 1 - (slot_count as usize * SLOT_SIZE)) as u16;
    put16(&mut page, 4, new_free_end);
    put16(&mut page, 2, new_free_end - 100);
    put16(&mut page, 6, 200);

    // slot 0 left zeroed (invalid) so it should be reused
    let plan = page.plan_insert(10).unwrap();
    assert!(matches!(plan.slot, InsertionSlot::Reuse(0)));
}

#[test]
fn plan_insert_not_enough_space_error() {
    let mut page = Page::new_empty(PageId::new(1, 0), PageType::Unsorted).unwrap();
    put16(&mut page, 2, 100);
    put16(&mut page, 4, (PAGE_SIZE - 1) as u16);
    put16(&mut page, 6, 10);

    let res = page.plan_insert(50);

    assert!(matches!(res,
        Err(e) if e.page_id == PageId::new(1, 0)
            && matches!(
                e.source,
                PageOpError::Insert(InsertError::NotEnoughSpace {
                row_len,
                page_free_space,
            }) if row_len == 50 && page_free_space == 10)
    ))
}

#[test]
fn plan_insert_no_available_space() {
    let mut page = Page::new_empty(PageId::new(1, 0), PageType::Unsorted).unwrap();

    put16(&mut page, 6, 50);

    let plan_result = page.plan_insert(100);

    assert!(plan_result.is_err());
    assert!(matches!(
        plan_result,
        Err(trdb::errors::PageError {
            page_id: PageId {
                file_id: 1,
                page_number: 0
            },
            source: PageOpError::Insert(InsertError::NotEnoughSpace {
                page_free_space: 50,
                row_len: 100
            })
        })
    ))
}

#[test]
fn plan_insert_between_two_rows() {
    let mut page = Page::new_empty(PageId::new(1, 0), PageType::Unsorted).unwrap();

    // Two rows: 96..596 and 1000..3980, leaving a gap of 404 bytes between
    // them and around 100 contiguous free bytes at the tail.
    put16(&mut page, 6, (PAGE_SIZE - 500 - 2980) as u16);
    put16(&mut page, 2, 3980);
    put16(&mut page, 4, (PAGE_SIZE - 1 - 2 * SLOT_SIZE) as u16);
    put16(&mut page, 0, 2);

    set_slot(&mut page, 0, 96, 500);
    set_slot(&mut page, 1, 1000, 2980);

    let plan = page.plan_insert(400).unwrap();

    assert!(matches!(plan.slot, InsertionSlot::New));
    assert!(matches!(plan.offset, InsertionOffset::Exact(596)));
}

#[test]
fn plan_insert_reuse_empty_slot() {
    let mut page = Page::new_empty(PageId::new(1, 0), PageType::Unsorted).unwrap();

    put16(&mut page, 0, 3);
    put16(&mut page, 4, (4096 - 1 - 3 * SLOT_SIZE) as u16);
    put16(&mut page, 2, 1000);

    // Only the first and the third slot are used.
    set_slot(&mut page, 0, 96, 196);
    set_slot(&mut page, 2, 500, 500);

    let plan = page.plan_insert(400).unwrap();

    assert!(matches!(plan.slot, InsertionSlot::Reuse(1)));
}

#[test]
fn plan_insert_reuse_first_slot_and_place_between_two_rows() {
    let mut page = Page::new_empty(PageId::new(1, 0), PageType::Unsorted).unwrap();

    // Three rows over four slots; slot 0 is free for reuse. A 60-byte row
    // fits in the 99-byte gap between the second and third row at 3900.
    put16(&mut page, 6, (PAGE_SIZE - 100 - 3700 - 51) as u16);
    put16(&mut page, 2, 4050);
    put16(&mut page, 4, 4079);
    put16(&mut page, 0, 4);
    set_slot(&mut page, 1, 96, 100);
    set_slot(&mut page, 2, 200, 3700);
    set_slot(&mut page, 3, 3999, 51);

    let plan = page.plan_insert(60).unwrap();

    assert!(matches!(plan.slot, InsertionSlot::Reuse(0)));
    assert!(matches!(plan.offset, InsertionOffset::Exact(3900)));
}

#[test]
fn plan_insert_reuse_second_slot_and_place_between_two_rows() {
    let mut page = Page::new_empty(PageId::new(1, 0), PageType::Unsorted).unwrap();

    put16(&mut page, 6, (PAGE_SIZE - 100 - 3700 - 51) as u16);
    put16(&mut page, 2, 4050);
    put16(&mut page, 4, 4079);
    put16(&mut page, 0, 4);
    set_slot(&mut page, 0, 96, 100);
    set_slot(&mut page, 2, 200, 3700);
    set_slot(&mut page, 3, 3999, 51);

    let plan = page.plan_insert(60).unwrap();

    assert!(matches!(plan.slot, InsertionSlot::Reuse(1)));
    assert!(matches!(plan.offset, InsertionOffset::Exact(3900)));
}

#[test]
fn plan_insert_will_require_compaction() {
    let mut page = Page::new_empty(PageId::new(1, 0), PageType::Unsorted).unwrap();

    // 210 free bytes in total, but no contiguous run of 200.
    put16(&mut page, 6, 210);
    put16(&mut page, 4, 4087);
    put16(&mut page, 2, 4050);
    put16(&mut page, 0, 2);
    set_slot(&mut page, 0, 96, 904);
    set_slot(&mut page, 1, 1073, 2977);

    let plan = page.plan_insert(200).unwrap();

    assert!(matches!(plan.slot, InsertionSlot::New));
    assert!(matches!(
        plan.offset,
        InsertionOffset::AfterCompactionFreeStart
    ));
}
