use trdb::page::Page;
use trdb::page_id::PageId;
use trdb::page_type::PageType;
use trdb::HEADER_SIZE;
use trdb::PAGE_SIZE;
use trdb::SLOT_SIZE;

fn put16(page: &mut Page, off: usize, v: u16) {
    let d = page.data_mut();
    d[off] = (v & 0xff) as u8;
    d[off + 1] = (v >> 8) as u8;
}

fn get16(page: &Page, off: usize) -> u16 {
    let d = page.data();
    d[off] as u16 | ((d[off + 1] as u16) << 8)
}

fn set_slot(page: &mut Page, idx: usize, off: u16, len: u16) {
    let pos = PAGE_SIZE - SLOT_SIZE * (idx + 1);
    put16(page, pos, off);
    put16(page, pos + 2, len);
}

fn slot_of(page: &Page, idx: usize) -> (u16, u16) {
    let pos = PAGE_SIZE - SLOT_SIZE * (idx + 1);
    (get16(page, pos), get16(page, pos + 2))
}

#[test]
fn compact_with_no_slots_sets_free_end_to_header_size() {
    let mut page = Page::new_empty(PageId::new(1, 0), PageType::Unsorted).unwrap();
    put16(&mut page, 0, 0);

    page.compact().unwrap();

    assert_eq!(get16(&page, 2) as usize, HEADER_SIZE);
}

#[test]
fn compact_with_all_slots_invalid_sets_free_end_to_header_size_and_leaves_slots_zero() {
    let mut page = Page::new_empty(PageId::new(1, 0), PageType::Unsorted).unwrap();
    let slot_count: u16 = 2;
    put16(&mut page, 0, slot_count);
    let old_free_end = (PAGE_SIZE - 1 - (slot_count as usize * SLOT_SIZE)) as u16;
    put16(&mut page, 4, old_free_end);

    let slot_region_start = old_free_end as usize + 1;

    page.compact().unwrap();

    assert_eq!(get16(&page, 2) as usize, HEADER_SIZE);

    let slot_region = page.data()[slot_region_start..PAGE_SIZE].to_vec();
    assert_eq!(slot_region, vec![0u8; slot_count as usize * SLOT_SIZE]);
}

#[test]
fn compact_moves_valid_rows_in_slot_index_order_and_updates_slots() {
    let mut page = Page::new_empty(PageId::new(1, 0), PageType::Unsorted).unwrap();
    // Three slots; slots 0 and 2 are valid, slot 1 invalid.
    let slot_count: u16 = 3;
    put16(&mut page, 0, slot_count);
    let old_free_end = (PAGE_SIZE - 1 - (slot_count as usize * SLOT_SIZE)) as u16;
    put16(&mut page, 4, old_free_end);

    let a_offset = (HEADER_SIZE + 10) as u16;
    let a_len = 5u16;
    let b_offset = (HEADER_SIZE + 100) as u16; // for slot 2
    let b_len = 3u16;

    for i in 0..a_len as usize {
        page.data_mut()[a_offset as usize + i] = 0xAAu8.wrapping_add(i as u8);
    }
    for i in 0..b_len as usize {
        page.data_mut()[b_offset as usize + i] = 0xC0u8.wrapping_add(i as u8);
    }

    set_slot(&mut page, 0, a_offset, a_len);
    // slot 1 left zeroed
    set_slot(&mut page, 2, b_offset, b_len);

    page.compact().unwrap();

    let expected_first = HEADER_SIZE;
    let expected_second = HEADER_SIZE + a_len as usize;

    let (off0, len0) = slot_of(&page, 0);
    assert_eq!(off0 as usize, expected_first);
    assert_eq!(len0, a_len);
    let (off1, len1) = slot_of(&page, 1);
    assert_eq!(off1, 0);
    assert_eq!(len1, 0);
    let (off2, len2) = slot_of(&page, 2);
    assert_eq!(off2 as usize, expected_second);
    assert_eq!(len2, b_len);

    for i in 0..a_len as usize {
        assert_eq!(page.data()[expected_first + i], 0xAAu8.wrapping_add(i as u8));
    }
    for i in 0..b_len as usize {
        assert_eq!(
            page.data()[expected_second + i],
            0xC0u8.wrapping_add(i as u8)
        );
    }

    let total = a_len as usize + b_len as usize;
    assert_eq!(get16(&page, 2) as usize, HEADER_SIZE + total);
}
