use trdb::buffer::BufferManager;
use trdb::catalog::FileCatalog;
use trdb::config::ConfigError;
use trdb::config::EngineConfig;
use trdb::config::StorageConfig;
use trdb::file_manager::FileManager;
use trdb::file_manager::InMemoryFileManager;
use trdb::page::Page;
use trdb::page_id::PageId;
use trdb::page_type::PageType;
use trdb::plan::InsertionOffset;
use trdb::plan::InsertionSlot;
use trdb::storage::StorageManager;
use trdb::HEADER_SIZE;
use trdb::PAGE_SIZE;
use trdb::SLOT_SIZE;

fn put16(page: &mut Page, off: usize, v: u16) {
    let d = page.data_mut();
    d[off] = (v & 0xff) as u8;
    d[off + 1] = (v >> 8) as u8;
}

fn get16(page: &Page, off: usize) -> u16 {
    let d = page.data();
    d[off] as u16 | ((d[off + 1] as u16) << 8)
}

fn set_slot(page: &mut Page, idx: usize, off: u16, len: u16) {
    let pos = PAGE_SIZE - SLOT_SIZE * (idx + 1);
    put16(page, pos, off);
    put16(page, pos + 2, len);
}

fn slot_of(page: &Page, idx: usize) -> (u16, u16) {
    let pos = PAGE_SIZE - SLOT_SIZE * (idx + 1);
    (get16(page, pos), get16(page, pos + 2))
}

/// Stages rows on a fresh heap page: each row holds its slot index plus one
/// as a repeated byte value, and the header is set up consistently.
fn stage_rows(slots: &[(usize, usize)]) -> Page {
    let mut page = Page::new_empty(PageId::new(1, 1), PageType::Unsorted).unwrap();
    let n = slots.len();
    put16(&mut page, 0, n as u16);
    put16(&mut page, 4, (PAGE_SIZE - 1 - SLOT_SIZE * n) as u16);
    for (i, &(off, len)) in slots.iter().enumerate() {
        set_slot(&mut page, i, off as u16, len as u16);
        if off != 0 && len != 0 {
            let value = (i + 1) as u8;
            for b in 0..len {
                page.data_mut()[off + b] = value;
            }
        }
    }
    let max = slots.iter().max_by_key(|s| s.0).unwrap();
    put16(&mut page, 2, (max.0 + max.1) as u16);
    let total: usize = slots.iter().map(|s| s.1).sum();
    put16(
        &mut page,
        6,
        (PAGE_SIZE - HEADER_SIZE - total - SLOT_SIZE * n) as u16,
    );
    page
}

/// Checks the free-space accounting: valid row lengths, the free space and
/// the slot array together cover everything outside the header.
fn assert_accounting(page: &Page) {
    let sc = get16(page, 0) as usize;
    let fsp = get16(page, 6) as usize;
    let mut sum = 0usize;
    for i in 0..sc {
        let (off, len) = slot_of(page, i);
        if !(off == 0 && len == 0) {
            sum += len as usize;
        }
    }
    assert_eq!(sum + fsp + SLOT_SIZE * sc, PAGE_SIZE - HEADER_SIZE);
}

#[test]
fn fresh_insert_scenario() {
    let mut page = Page::new_zeroed(PageId::new(1, 0));
    page.initialize(PageId::new(1, 0), PageType::Unsorted)
        .unwrap();

    let plan = page.plan_insert(100).unwrap();
    assert!(matches!(plan.slot, InsertionSlot::New));
    assert!(matches!(plan.offset, InsertionOffset::Exact(96)));

    page.insert_heap(plan, vec![7u8; 100]).unwrap();

    assert_eq!(page.row(0).unwrap(), vec![7u8; 100]);
    assert_eq!(get16(&page, 0), 1);
    assert_eq!(get16(&page, 2), 196);
    assert_eq!(get16(&page, 4), 4091);
    assert_eq!(get16(&page, 6), 3896);
    assert_accounting(&page);
}

#[test]
fn reuse_slot_fill_gap_scenario() {
    let mut page = Page::new_empty(PageId::new(1, 0), PageType::Unsorted).unwrap();
    let p1 = page.plan_insert(100).unwrap();
    page.insert_heap(p1, vec![1u8; 100]).unwrap();
    let p2 = page.plan_insert(50).unwrap();
    page.insert_heap(p2, vec![2u8; 50]).unwrap();

    page.delete_row(0, false).unwrap();

    let plan = page.plan_insert(100).unwrap();
    // The tail of the free region is preferred, because the contiguous
    // free area is large enough.
    assert!(matches!(plan.slot, InsertionSlot::Reuse(0)));
    assert!(matches!(plan.offset, InsertionOffset::Exact(246)));
    assert_accounting(&page);
}

#[test]
fn tail_row_delete_shifts_free_start_scenario() {
    let mut page = Page::new_empty(PageId::new(1, 0), PageType::Unsorted).unwrap();
    let p1 = page.plan_insert(100).unwrap();
    page.insert_heap(p1, vec![1u8; 100]).unwrap();
    let p2 = page.plan_insert(100).unwrap();
    page.insert_heap(p2, vec![2u8; 100]).unwrap();

    page.delete_row(1, false).unwrap();

    assert_eq!(get16(&page, 2), 196);
    assert_eq!(get16(&page, 8), 0);
    assert_accounting(&page);
}

#[test]
fn compaction_on_grow_scenario() {
    let mut page = stage_rows(&[(96, 1904), (2100, 1980)]);
    assert_eq!(get16(&page, 6), 108);

    page.update_row(0, vec![3u8; 2005]).unwrap();

    // Row 1 compacts down to offset 96, and the grown row lands after it.
    let (off0, len0) = slot_of(&page, 0);
    assert_eq!((off0, len0), (2076, 2005));
    assert_eq!(page.row(0).unwrap(), vec![3u8; 2005]);
    assert_eq!(page.row(1).unwrap(), vec![2u8; 1980]);
    let (off1, _) = slot_of(&page, 1);
    assert_eq!(off1, 96);
    assert_accounting(&page);
}

#[test]
fn grow_in_place_when_gap_suffices_scenario() {
    let mut page = stage_rows(&[(96, 104), (200, 100), (500, 1600), (2100, 1980)]);

    page.update_row(0, vec![5u8; 200]).unwrap();

    // The 200-byte gap starting at offset 300 takes the relocated row.
    let (off0, len0) = slot_of(&page, 0);
    assert_eq!((off0, len0), (300, 200));
    assert_eq!(page.row(0).unwrap(), vec![5u8; 200]);
    assert_accounting(&page);
}

#[test]
fn initialize_twice_equals_once() {
    let mut page = Page::new_from_bytes(vec![0xABu8; PAGE_SIZE], PageId::new(3, 9));
    let pid = PageId::new(3, 9);

    page.initialize(pid, PageType::IndexLeaf).unwrap();
    let once = page.data().clone();

    page.initialize(pid, PageType::IndexLeaf).unwrap();
    let twice = page.data().clone();

    assert_eq!(once, twice);
}

#[test]
fn compaction_preserves_row_reads() {
    let mut page = stage_rows(&[(96, 40), (200, 60), (0, 0), (400, 10)]);

    let before: Vec<Vec<u8>> = vec![
        page.row(0).unwrap(),
        page.row(1).unwrap(),
        page.row(3).unwrap(),
    ];

    page.compact().unwrap();

    let after: Vec<Vec<u8>> = vec![
        page.row(0).unwrap(),
        page.row(1).unwrap(),
        page.row(3).unwrap(),
    ];

    assert_eq!(before, after);
    assert_eq!(get16(&page, 8), 0);
    assert_accounting(&page);
}

#[test]
fn accounting_holds_after_mixed_operations() {
    let mut page = Page::new_empty(PageId::new(1, 0), PageType::Unsorted).unwrap();

    for size in [100usize, 50, 200, 10] {
        let plan = page.plan_insert(size).unwrap();
        page.insert_heap(plan, vec![9u8; size]).unwrap();
        assert_accounting(&page);
    }
    page.delete_row(1, false).unwrap();
    assert_accounting(&page);
    page.update_row(0, vec![8u8; 70]).unwrap();
    assert_accounting(&page);
    page.update_row(2, vec![6u8; 250]).unwrap();
    assert_accounting(&page);
    page.delete_row(3, true).unwrap();
    assert_accounting(&page);
}

#[test]
fn in_memory_file_manager_round_trips_pages() {
    let mut fm = InMemoryFileManager::new("data".to_string());
    let pid = PageId::new(1, 7);

    let mut content = vec![0u8; PAGE_SIZE];
    for (i, b) in content.iter_mut().enumerate() {
        *b = (i % 251) as u8;
    }
    fm.write_page(pid, &content);

    let mut readback = vec![0u8; PAGE_SIZE];
    assert!(fm.read_page(pid, &mut readback));
    assert_eq!(readback, content);

    let mut untouched = vec![0u8; PAGE_SIZE];
    assert!(!fm.read_page(PageId::new(2, 0), &mut untouched));
    assert_eq!(untouched, vec![0u8; PAGE_SIZE]);
}

#[test]
fn storage_facade_creates_writes_and_reads_pages() {
    let fm = InMemoryFileManager::new("data".to_string());
    let buffer = BufferManager::new(fm, 4);
    let mut storage = StorageManager::new(buffer);
    let pid = PageId::new(1, 0);

    let guard = storage.new_page(pid).unwrap();
    let page = storage.guard_page_mut(&guard);
    page.initialize(pid, PageType::Unsorted).unwrap();
    let plan = page.plan_insert(32).unwrap();
    page.insert_heap(plan, vec![4u8; 32]).unwrap();
    storage.write_page(pid, guard);

    let read_guard = storage.read_page(pid).unwrap();
    assert_eq!(read_guard.page_id(), pid);
    let resident = storage.guard_page(&read_guard);
    assert_eq!(resident.row(0).unwrap(), vec![4u8; 32]);
}

#[test]
fn catalog_resolves_latest_registration() {
    let mut catalog = FileCatalog::new();
    assert!(catalog.get_file_name(1).is_none());

    catalog.add_file(1, "first.tbl".to_string());
    catalog.add_file(2, "second.tbl".to_string());
    assert_eq!(catalog.get_file_name(1).unwrap(), "first.tbl");
    assert_eq!(catalog.get_file_name(2).unwrap(), "second.tbl");

    catalog.add_file(1, "renamed.tbl".to_string());
    assert_eq!(catalog.get_file_name(1).unwrap(), "renamed.tbl");
    assert!(catalog.get_file_name(3).is_none());
}

#[test]
fn config_validation_rejects_bad_values() {
    let good = EngineConfig {
        storage: StorageConfig {
            data_dir: "data".to_string(),
            logs_dir: "logs".to_string(),
            buffer_pages: 8,
        },
    };
    assert!(good.validate().is_ok());

    let empty_dir = EngineConfig {
        storage: StorageConfig {
            data_dir: "".to_string(),
            logs_dir: "logs".to_string(),
            buffer_pages: 8,
        },
    };
    assert!(matches!(
        empty_dir.validate(),
        Err(ConfigError::Invalid { .. })
    ));

    let zero_pages = EngineConfig {
        storage: StorageConfig {
            data_dir: "data".to_string(),
            logs_dir: "logs".to_string(),
            buffer_pages: 0,
        },
    };
    assert!(matches!(
        zero_pages.validate(),
        Err(ConfigError::Invalid { .. })
    ));
}
