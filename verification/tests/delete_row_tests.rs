use trdb::errors::DeleteError;
use trdb::errors::PageOpError;
use trdb::errors::SlotError;
use trdb::page::Page;
use trdb::page_id::PageId;
use trdb::page_type::PageType;
use trdb::HEADER_SIZE;
use trdb::PAGE_SIZE;
use trdb::SLOT_SIZE;

fn put16(page: &mut Page, off: usize, v: u16) {
    let d = page.data_mut();
    d[off] = (v & 0xff) as u8;
    d[off + 1] = (v >> 8) as u8;
}

fn get16(page: &Page, off: usize) -> u16 {
    let d = page.data();
    d[off] as u16 | ((d[off + 1] as u16) << 8)
}

fn set_slot(page: &mut Page, idx: usize, off: u16, len: u16) {
    let pos = PAGE_SIZE - SLOT_SIZE * (idx + 1);
    put16(page, pos, off);
    put16(page, pos + 2, len);
}

fn slot_of(page: &Page, idx: usize) -> (u16, u16) {
    let pos = PAGE_SIZE - SLOT_SIZE * (idx + 1);
    (get16(page, pos), get16(page, pos + 2))
}

/// Stages rows on a fresh heap page: each row holds its slot index plus one
/// as a repeated byte value, and the header is set up consistently.
fn stage_rows(slots: &[(usize, usize)]) -> Page {
    let mut page = Page::new_empty(PageId::new(1, 1), PageType::Unsorted).unwrap();
    let n = slots.len();
    put16(&mut page, 0, n as u16);
    put16(&mut page, 4, (PAGE_SIZE - 1 - SLOT_SIZE * n) as u16);
    for (i, &(off, len)) in slots.iter().enumerate() {
        set_slot(&mut page, i, off as u16, len as u16);
        if off != 0 && len != 0 {
            let value = (i + 1) as u8;
            for b in 0..len {
                page.data_mut()[off + b] = value;
            }
        }
    }
    let max = slots.iter().max_by_key(|s| s.0).unwrap();
    put16(&mut page, 2, (max.0 + max.1) as u16);
    let total: usize = slots.iter().map(|s| s.1).sum();
    put16(
        &mut page,
        6,
        (PAGE_SIZE - HEADER_SIZE - total - SLOT_SIZE * n) as u16,
    );
    page
}

fn assert_row_values(page: &Page, offset: usize, length: usize, value: u8) {
    assert_eq!(
        vec![value; length].as_slice(),
        &page.data()[offset..offset + length]
    );
}

fn assert_slot(page: &Page, slot_index: usize, offset: usize, length: usize) {
    let (off, len) = slot_of(page, slot_index);
    assert_eq!(off as usize, offset);
    assert_eq!(len as usize, length);
}

#[test]
fn delete_row_without_compaction() {
    let mut page = stage_rows(&[(96, 100), (196, 100)]);

    page.delete_row(0, false).unwrap();

    assert_row_values(&page, 96, 100, 1);
    assert_row_values(&page, 196, 100, 2);
    assert_slot(&page, 0, 0, 0);
    assert_slot(&page, 1, 196, 100);
}

#[test]
fn delete_row_with_compaction() {
    let mut page = stage_rows(&[(96, 100), (196, 50)]);

    page.delete_row(0, true).unwrap();

    assert_row_values(&page, 96, 50, 2);
    assert_slot(&page, 0, 0, 0);
    assert_slot(&page, 1, 96, 50);
}

#[test]
fn delete_row_invalid_slot_returns_error() {
    let mut page = stage_rows(&[(96, 100), (196, 50)]);

    let result = page.delete_row(2, false).unwrap_err();

    assert!(matches!(
        result.source,
        PageOpError::DeleteRow(DeleteError::SlotError(SlotError::InvalidSlot {
            slot_index: 2
        }))
    ));
}

#[test]
fn delete_last_row_shifts_free_start() {
    let mut page = stage_rows(&[(96, 100), (196, 50)]);

    page.delete_row(1, false).unwrap();

    assert_eq!(get16(&page, 2), 196);
}

#[test]
fn delete_last_row_shifts_free_end_when_rows_out_of_order() {
    let mut page = stage_rows(&[(96, 100), (296, 100), (196, 100)]);

    page.delete_row(1, false).unwrap();

    assert_eq!(get16(&page, 2), 296);
}

#[test]
fn delete_last_row_shifts_free_end_when_empty_slots_in_the_middle_of_the_array() {
    let mut page = stage_rows(&[(96, 100), (0, 0), (196, 100)]);

    page.delete_row(2, false).unwrap();

    assert_eq!(get16(&page, 2), 196);
}

#[test]
fn delete_single_row_on_page() {
    let mut page = stage_rows(&[(96, 100)]);

    page.delete_row(0, false).unwrap();

    assert_eq!(get16(&page, 2), 96);
}

#[test]
fn delete_when_only_invalid_slots_returns_error() {
    let mut page = stage_rows(&[(96, 100), (196, 100)]);
    page.delete_row(0, false).unwrap();
    page.delete_row(1, false).unwrap();

    let err = page.delete_row(0, false).unwrap_err();

    assert!(matches!(
        err.source,
        PageOpError::DeleteRow(DeleteError::SlotError(SlotError::InvalidSlot {
            slot_index: 0
        }))
    ));

    assert_eq!(get16(&page, 2), 96);
}
