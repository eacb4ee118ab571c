use trdb::errors::PageError;
use trdb::errors::PageOpError;
use trdb::errors::ReadRowError;
use trdb::errors::SlotError;
use trdb::header::HeaderRef;
use trdb::page::Page;
use trdb::page_id::PageId;
use trdb::page_type::PageType;
use trdb::plan::InsertionOffset;
use trdb::plan::InsertionSlot;
use trdb::PAGE_SIZE;

fn put16(page: &mut Page, off: usize, v: u16) {
    let d = page.data_mut();
    d[off] = (v & 0xff) as u8;
    d[off + 1] = (v >> 8) as u8;
}

#[test]
fn page_test_new_empty_page() {
    let page_id = PageId::new(1, 0);
    let page = Page::new_empty(page_id, PageType::Unsorted).unwrap();

    assert_eq!(page.page_id(), page_id);

    let header = HeaderRef::new(&page.data()[..96].to_vec()).unwrap();
    assert_eq!(header.get_page_number(), 0);
    assert_eq!(header.get_page_type(), PageType::Unsorted.as_u16());
}

#[test]
fn ctors_test_new_empty_page() {
    let page_id = PageId::new(1, 0);
    let page = Page::new_empty(page_id, PageType::Unsorted).unwrap();

    assert_eq!(page.page_id(), page_id);

    let header = HeaderRef::new(&page.data()[..96].to_vec()).unwrap();
    assert_eq!(header.get_page_number(), 0);
    assert_eq!(header.get_free_start(), 96);
    assert_eq!(header.get_free_end(), 4095);
    assert_eq!(header.get_free_space(), 4000);
    assert_eq!(header.get_page_type(), PageType::Unsorted.as_u16());
}

#[test]
fn page_test_new_from_bytes() {
    let page_id = PageId::new(1, 1);
    let bytes = vec![5u8; PAGE_SIZE];
    let page = Page::new_from_bytes(bytes, page_id);

    assert_eq!(page.page_id(), page_id);
    assert_eq!(page.data()[..], vec![5u8; PAGE_SIZE][..]);
}

#[test]
fn ctors_test_new_from_bytes() {
    let page_id = PageId::new(7, 3);
    let bytes = vec![9u8; PAGE_SIZE];
    let page = Page::new_from_bytes(bytes, page_id);

    assert_eq!(page.page_id(), page_id);
    assert_eq!(page.data()[..], vec![9u8; PAGE_SIZE][..]);
}

#[test]
fn page_test_get_page_id() {
    let page_id = PageId::new(2, 5);
    let page = Page::new_empty(page_id, PageType::IndexLeaf).unwrap();

    assert_eq!(page.page_id(), page_id);
}

#[test]
fn accessors_test_get_page_id() {
    let page_id = PageId::new(2, 5);
    let mut page = Page::new_empty(page_id, PageType::IndexLeaf).unwrap();

    assert_eq!(page.page_id(), page_id);

    let other = PageId::new(9, 9);
    page.set_page_id(other);
    assert_eq!(page.page_id(), other);
}

// region Row fits

#[test]
fn private_row_fits_enough_space() {
    let page = Page::new_empty(PageId::new(1, 0), PageType::Unsorted).unwrap();
    assert!(page.row_size_fits(100));
}

#[test]
fn private_row_fits_at_limit() {
    let page = Page::new_empty(PageId::new(1, 0), PageType::Unsorted).unwrap();
    assert!(page.row_size_fits(3996));
}

#[test]
fn private_row_fits_slot_would_not_fit() {
    let page = Page::new_empty(PageId::new(1, 0), PageType::Unsorted).unwrap();
    assert!(!page.row_size_fits(3998));
}

#[test]
fn private_row_fits_would_not_fit_at_all() {
    let page = Page::new_empty(PageId::new(1, 0), PageType::Unsorted).unwrap();
    assert!(!page.row_size_fits(4000));
}

#[test]
fn page_row_fits_enough_space() {
    let page = Page::new_empty(PageId::new(1, 0), PageType::Unsorted).unwrap();
    assert!(page.row_size_fits(100));
}

#[test]
fn page_row_fits_at_limit() {
    let page = Page::new_empty(PageId::new(1, 0), PageType::Unsorted).unwrap();
    assert!(page.row_size_fits(3996));
}

#[test]
fn page_row_fits_slot_would_not_fit() {
    let page = Page::new_empty(PageId::new(1, 0), PageType::Unsorted).unwrap();
    assert!(!page.row_size_fits(3998));
}

#[test]
fn page_row_fits_would_not_fit_at_all() {
    let page = Page::new_empty(PageId::new(1, 0), PageType::Unsorted).unwrap();
    assert!(!page.row_size_fits(4000));
}

#[test]
fn internal_row_fits_enough_space() {
    let page = Page::new_empty(PageId::new(1, 0), PageType::Unsorted).unwrap();
    assert!(page.row_size_fits(100));
}

#[test]
fn internal_row_fits_at_limit() {
    let page = Page::new_empty(PageId::new(1, 0), PageType::Unsorted).unwrap();
    assert!(page.row_size_fits(3996));
}

#[test]
fn internal_row_fits_slot_would_not_fit() {
    let page = Page::new_empty(PageId::new(1, 0), PageType::Unsorted).unwrap();
    assert!(!page.row_size_fits(3998));
}

#[test]
fn internal_row_fits_would_not_fit_at_all() {
    let page = Page::new_empty(PageId::new(1, 0), PageType::Unsorted).unwrap();
    assert!(!page.row_size_fits(4000));
}

// endregion

// region Slot array region consistency

#[test]
fn private_slot_array_corrupted_header_returns_error() {
    let mut page = Page::new_empty(PageId::new(1, 0), PageType::Unsorted).unwrap();
    put16(&mut page, 4, 4090); // free_end
    put16(&mut page, 0, 10); // slot_count

    let result = page.slot_array_ref();
    assert!(matches!(
        result,
        Err(SlotError::SlotRegionSizeMismatch {
            expected_size: 40,
            actual_size: 5
        })
    ))
}

#[test]
fn page_slot_array_corrupted_header_returns_error() {
    let mut page = Page::new_empty(PageId::new(1, 0), PageType::Unsorted).unwrap();
    put16(&mut page, 4, 4090);
    put16(&mut page, 0, 10);

    let result = page.slot_array_ref();
    assert!(matches!(
        result,
        Err(SlotError::SlotRegionSizeMismatch {
            expected_size: 40,
            actual_size: 5
        })
    ))
}

#[test]
fn internal_slot_array_corrupted_header_returns_error() {
    let mut page = Page::new_empty(PageId::new(1, 0), PageType::Unsorted).unwrap();
    put16(&mut page, 4, 4090);
    put16(&mut page, 0, 10);

    let result = page.slot_array_mut();
    assert!(matches!(
        result,
        Err(SlotError::SlotRegionSizeMismatch {
            expected_size: 40,
            actual_size: 5
        })
    ))
}

// endregion

// region Read row

#[test]
fn page_read_row_out_of_bounds() {
    let mut page = Page::new_empty(PageId::new(1, 0), PageType::Unsorted).unwrap();
    put16(&mut page, 0, 2); // slot_count
    put16(&mut page, 4, 4088); // free_end

    let result = page.row(3);
    assert!(matches!(
        result,
        Err(PageError {
            page_id: PageId {
                file_id: 1,
                page_number: 0
            },
            source: PageOpError::ReadRow(ReadRowError::SlotError(
                SlotError::SlotRegionSizeMismatch {
                    expected_size: 8,
                    actual_size: 7
                }
            ))
        })
    ));
}

#[test]
fn read_row_read_row_out_of_bounds() {
    let mut page = Page::new_empty(PageId::new(1, 0), PageType::Unsorted).unwrap();
    put16(&mut page, 0, 2);
    put16(&mut page, 4, 4088);

    let result = page.row(3);
    assert!(matches!(
        result,
        Err(e) if e.page_id == PageId::new(1, 0)
            && matches!(
                e.source,
                PageOpError::ReadRow(ReadRowError::SlotError(
                    SlotError::SlotRegionSizeMismatch {
                        expected_size: 8,
                        actual_size: 7
                    }
                ))
            )
    ));
}

#[test]
fn page_read_row_valid_slot_index() {
    let mut page_bytes = vec![0u8; PAGE_SIZE];

    // Place a fake 10-byte row at offset 96 (the first row).
    page_bytes[96..106].copy_from_slice([5u8; 10].as_ref());

    // Register a slot for this row in the slot array.
    page_bytes[PAGE_SIZE - 4..PAGE_SIZE].copy_from_slice(&[96, 0, 10, 0]);

    let mut page = Page::new_from_bytes(page_bytes, PageId::new(1, 0));
    put16(&mut page, 4, 4091); // free_end
    put16(&mut page, 0, 1); // slot_count

    let row = page.row(0).unwrap();
    assert_eq!(vec![5u8; 10], row);
}

#[test]
fn read_row_read_row_valid_slot_index() {
    let mut page_bytes = vec![0u8; PAGE_SIZE];

    page_bytes[96..106].copy_from_slice([5u8; 10].as_ref());
    page_bytes[PAGE_SIZE - 4..PAGE_SIZE].copy_from_slice(&[96, 0, 10, 0]);

    let mut page = Page::new_from_bytes(page_bytes, PageId::new(1, 0));
    put16(&mut page, 4, 4091);
    put16(&mut page, 0, 1);

    let row_once = page.row(0).unwrap();
    let row_again = page.row(0).unwrap();

    assert_eq!(vec![5u8; 10], row_once);
    assert_eq!(vec![5u8; 10], row_again);
}

// endregion

// region Plan and insert

#[test]
fn page_plan_insert_empty_page() {
    let page = Page::new_empty(PageId::new(1, 0), PageType::Unsorted).unwrap();
    let row_size = 100usize;

    let plan = page.plan_insert(row_size).unwrap();

    assert!(matches!(plan.slot, InsertionSlot::New));
    assert!(matches!(plan.offset, InsertionOffset::Exact(96)));
}

#[test]
fn insert_heap_plan_insert_empty_page() {
    let page = Page::new_empty(PageId::new(1, 0), PageType::Unsorted).unwrap();

    let plan = page.plan_insert(100).unwrap();

    assert!(matches!(plan.slot, InsertionSlot::New));
    assert!(matches!(plan.offset, InsertionOffset::Exact(96)));
}

#[test]
fn page_insert_empty_page() {
    let mut page = Page::new_empty(PageId::new(1, 0), PageType::Unsorted).unwrap();
    let row = vec![5u8; 100];

    let plan = page.plan_insert(row.len()).unwrap();

    let insert_result = page.insert_heap(plan, row);

    assert!(insert_result.is_ok());
}

#[test]
fn insert_heap_insert_empty_page() {
    let mut page = Page::new_empty(PageId::new(1, 0), PageType::Unsorted).unwrap();
    let row = vec![5u8; 100];

    let plan = page.plan_insert(row.len()).unwrap();

    assert!(page.insert_heap(plan, row).is_ok());
}

#[test]
fn page_insert_fifth_row() {
    let mut page = Page::new_empty(PageId::new(1, 0), PageType::Unsorted).unwrap();
    let p1 = page.plan_insert(100).unwrap();
    page.insert_heap(p1, vec![1u8; 100]).unwrap();
    let p2 = page.plan_insert(200).unwrap();
    page.insert_heap(p2, vec![2u8; 200]).unwrap();
    let p3 = page.plan_insert(300).unwrap();
    page.insert_heap(p3, vec![3u8; 300]).unwrap();
    let p4 = page.plan_insert(400).unwrap();
    page.insert_heap(p4, vec![4u8; 400]).unwrap();

    let plan = page.plan_insert(500).unwrap();

    assert!(matches!(plan.slot, InsertionSlot::New));
    assert!(matches!(plan.offset, InsertionOffset::Exact(1096)));
}

#[test]
fn insert_heap_insert_fifth_row() {
    let mut page = Page::new_empty(PageId::new(1, 0), PageType::Unsorted).unwrap();
    let p1 = page.plan_insert(100).unwrap();
    page.insert_heap(p1, vec![1u8; 100]).unwrap();
    let p2 = page.plan_insert(200).unwrap();
    page.insert_heap(p2, vec![2u8; 200]).unwrap();
    let p3 = page.plan_insert(300).unwrap();
    page.insert_heap(p3, vec![3u8; 300]).unwrap();
    let p4 = page.plan_insert(400).unwrap();
    page.insert_heap(p4, vec![4u8; 400]).unwrap();

    let plan = page.plan_insert(500).unwrap();

    assert!(matches!(plan.slot, InsertionSlot::New));
    assert!(matches!(plan.offset, InsertionOffset::Exact(1096)));
}

// endregion

#[test]
fn slot_array_view_edits_write_back() {
    let mut page = Page::new_empty(PageId::new(1, 0), PageType::Unsorted).unwrap();
    put16(&mut page, 0, 2); // slot_count
    put16(&mut page, 4, 4087); // free_end

    let mut view = page.slot_array_mut().unwrap();
    view.set_slot(0, 96, 10).unwrap();
    view.set_slot(1, 106, 20).unwrap();
    page.write_slot_array(view);

    let d = page.data();
    assert_eq!(&d[4092..4096], &[96, 0, 10, 0]);
    assert_eq!(&d[4088..4092], &[106, 0, 20, 0]);
}
