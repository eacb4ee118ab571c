use trdb::page::Page;
use trdb::page_id::PageId;
use trdb::page_type::PageType;
use trdb::plan::InsertionOffset;
use trdb::plan::InsertionPlan;
use trdb::plan::InsertionSlot;
use trdb::HEADER_SIZE;
use trdb::PAGE_SIZE;
use trdb::SLOT_SIZE;

fn put16(page: &mut Page, off: usize, v: u16) {
    let d = page.data_mut();
    d[off] = (v & 0xff) as u8;
    d[off + 1] = (v >> 8) as u8;
}

fn get16(page: &Page, off: usize) -> u16 {
    let d = page.data();
    d[off] as u16 | ((d[off + 1] as u16) << 8)
}

fn set_slot(page: &mut Page, idx: usize, off: u16, len: u16) {
    let pos = PAGE_SIZE - SLOT_SIZE * (idx + 1);
    put16(page, pos, off);
    put16(page, pos + 2, len);
}

fn slot_of(page: &Page, idx: usize) -> (u16, u16) {
    let pos = PAGE_SIZE - SLOT_SIZE * (idx + 1);
    (get16(page, pos), get16(page, pos + 2))
}

#[test]
fn insert_row_new_slot_at_free_start_updates_header_and_slot() {
    let mut page = Page::new_empty(PageId::new(1, 0), PageType::Unsorted).unwrap();

    let old_slot_count = get16(&page, 0) as usize;
    assert_eq!(old_slot_count, 0);

    let old_free_start = get16(&page, 2) as usize;
    let old_free_end = get16(&page, 4) as usize;
    let old_free_space = get16(&page, 6) as usize;

    let bytes = vec![1u8; 10];
    let plan = InsertionPlan {
        slot: InsertionSlot::New,
        offset: InsertionOffset::Exact(old_free_start),
    };

    page.insert_heap(plan, bytes.clone()).unwrap();

    assert_eq!(get16(&page, 0), 1);
    assert_eq!(get16(&page, 4) as usize, old_free_end - SLOT_SIZE);
    assert_eq!(get16(&page, 2) as usize, old_free_start + bytes.len());
    let expected_free_space = old_free_space - bytes.len() - SLOT_SIZE;
    assert_eq!(get16(&page, 6) as usize, expected_free_space);

    let (off, len) = slot_of(&page, 0);
    assert_eq!(off as usize, old_free_start);
    assert_eq!(len as usize, bytes.len());
    assert_eq!(
        &page.data()[old_free_start..old_free_start + bytes.len()],
        bytes.as_slice()
    );
}

#[test]
fn insert_row_reuse_slot_into_gap_does_not_move_free_start_and_decreases_only_row_space() {
    let mut page = Page::new_empty(PageId::new(1, 0), PageType::Unsorted).unwrap();

    let slot_count: u16 = 3;
    put16(&mut page, 0, slot_count);
    let new_free_end = (PAGE_SIZE - 1 - (slot_count as usize * SLOT_SIZE)) as u16;
    put16(&mut page, 4, new_free_end);

    // Two valid rows with a gap between them; slot 1 left zeroed.
    let a_start = HEADER_SIZE as u16;
    let a_len = 8u16;
    let b_start = (HEADER_SIZE + 30) as u16;
    let b_len = 12u16;

    set_slot(&mut page, 0, a_start, a_len);
    set_slot(&mut page, 2, b_start, b_len);

    let old_free_start = get16(&page, 2) as usize;
    let old_free_space = get16(&page, 6) as usize;

    let insert_offset = (a_start + a_len) as usize;
    let bytes = vec![9u8; 5];
    let plan = InsertionPlan {
        slot: InsertionSlot::Reuse(1),
        offset: InsertionOffset::Exact(insert_offset),
    };

    page.insert_heap(plan, bytes.clone()).unwrap();

    assert_eq!(get16(&page, 0), slot_count);
    assert_eq!(get16(&page, 2) as usize, old_free_start);
    assert_eq!(get16(&page, 6) as usize, old_free_space - bytes.len());

    let (off, len) = slot_of(&page, 1);
    assert_eq!(off as usize, insert_offset);
    assert_eq!(len as usize, bytes.len());
    assert_eq!(
        &page.data()[insert_offset..insert_offset + bytes.len()],
        bytes.as_slice()
    );
}

#[test]
fn insert_row_reuse_at_free_start_advances_free_start_and_does_not_change_slot_count() {
    let mut page = Page::new_empty(PageId::new(1, 0), PageType::Unsorted).unwrap();

    let slot_count: u16 = 1;
    put16(&mut page, 0, slot_count);
    let new_free_end = (PAGE_SIZE - 1 - (slot_count as usize * SLOT_SIZE)) as u16;
    put16(&mut page, 4, new_free_end);

    let old_free_start = get16(&page, 2) as usize;
    let old_free_space = get16(&page, 6) as usize;

    let bytes = vec![7u8; 6];
    let plan = InsertionPlan {
        slot: InsertionSlot::Reuse(0),
        offset: InsertionOffset::Exact(old_free_start),
    };

    page.insert_heap(plan, bytes.clone()).unwrap();

    assert_eq!(get16(&page, 0), slot_count);
    assert_eq!(get16(&page, 2) as usize, old_free_start + bytes.len());
    assert_eq!(get16(&page, 4), new_free_end);
    assert_eq!(get16(&page, 6) as usize, old_free_space - bytes.len());

    let (off, len) = slot_of(&page, 0);
    assert_eq!(off as usize, old_free_start);
    assert_eq!(len as usize, bytes.len());
    assert_eq!(
        &page.data()[old_free_start..old_free_start + bytes.len()],
        bytes.as_slice()
    );
}

#[test]
fn insert_row_new_slot_into_gap_appends_slot_and_updates_free_end_and_space() {
    let mut page = Page::new_empty(PageId::new(1, 0), PageType::Unsorted).unwrap();

    let slot_count: u16 = 2;
    put16(&mut page, 0, slot_count);
    let new_free_end = (PAGE_SIZE - 1 - (slot_count as usize * SLOT_SIZE)) as u16;
    put16(&mut page, 4, new_free_end);

    let a_start = HEADER_SIZE as u16;
    let a_len = 8u16;
    let b_start = (HEADER_SIZE + 24) as u16; // a gap of 16 bytes
    let b_len = 6u16;

    set_slot(&mut page, 0, a_start, a_len);
    set_slot(&mut page, 1, b_start, b_len);

    let insert_offset = (a_start + a_len) as usize;
    let bytes = vec![3u8; 10];

    let old_slot_count = get16(&page, 0) as usize;
    let old_free_start = get16(&page, 2) as usize;
    let old_free_end = get16(&page, 4) as usize;
    let old_free_space = get16(&page, 6) as usize;

    let plan = InsertionPlan {
        slot: InsertionSlot::New,
        offset: InsertionOffset::Exact(insert_offset),
    };
    page.insert_heap(plan, bytes.clone()).unwrap();

    assert_eq!(get16(&page, 0) as usize, old_slot_count + 1);
    assert_eq!(get16(&page, 4) as usize, old_free_end - SLOT_SIZE);
    assert_eq!(get16(&page, 2) as usize, old_free_start);
    assert_eq!(
        get16(&page, 6) as usize,
        old_free_space - bytes.len() - SLOT_SIZE
    );

    let (off, len) = slot_of(&page, old_slot_count);
    assert_eq!(off as usize, insert_offset);
    assert_eq!(len as usize, bytes.len());
    assert_eq!(
        &page.data()[insert_offset..insert_offset + bytes.len()],
        bytes.as_slice()
    );
}

#[test]
fn insert_row_new_slot_compaction_requested() {
    let mut page = Page::new_empty(PageId::new(1, 0), PageType::Unsorted).unwrap();

    put16(&mut page, 0, 2);
    put16(&mut page, 2, 4050);
    put16(&mut page, 4, 4087);

    // Two rows with a hole between them: 96..4000 and 4010..4050.
    set_slot(&mut page, 0, 96, 3904);
    set_slot(&mut page, 1, 4010, 40);

    page.data_mut()[96..4000].copy_from_slice(vec![1u8; 3904].as_slice());
    page.data_mut()[4010..4050].copy_from_slice(vec![2u8; 40].as_slice());

    let insertion_plan = InsertionPlan {
        slot: InsertionSlot::New,
        offset: InsertionOffset::AfterCompactionFreeStart,
    };

    let row = vec![3u8; 40];

    page.insert_heap(insertion_plan, row).unwrap();

    assert_eq!(get16(&page, 2) as usize, 4080);
    assert_eq!(get16(&page, 4) as usize, 4083);
    assert_eq!(get16(&page, 0) as usize, 3);

    let (off2, len2) = slot_of(&page, 2);
    assert_eq!(off2 as usize, 4040);
    assert_eq!(len2 as usize, 40);

    let (off0, len0) = slot_of(&page, 0);
    assert_eq!(off0 as usize, 96);
    assert_eq!(len0 as usize, 3904);
    let (off1, len1) = slot_of(&page, 1);
    assert_eq!(off1 as usize, 4000);
    assert_eq!(len1 as usize, 40);

    assert_eq!(page.data()[96..4000], vec![1u8; 3904]);
    assert_eq!(page.data()[4000..4040], vec![2u8; 40]);
    assert_eq!(page.data()[4040..4080], vec![3u8; 40]);
}
