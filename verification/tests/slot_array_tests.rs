use trdb::errors::SlotError;
use trdb::slot_array::SlotArrayMut;
use trdb::slot_array::SlotArrayRef;
use trdb::SLOT_SIZE;

#[test]
fn slot_array_ref_new_invalid_size() {
    let bytes = vec![0u8; 10];
    let result = SlotArrayRef::new(&bytes, 3);
    assert!(matches!(
        result,
        Err(SlotError::SlotRegionSizeMismatch {
            expected_size: 12,
            actual_size: 10
        })
    ));
}

#[test]
fn slot_array_ref_new_valid() {
    let bytes = vec![0u8; SLOT_SIZE * 2];
    let result = SlotArrayRef::new(&bytes, 2);
    assert!(result.is_ok());
}

#[test]
fn slot_array_ref_slot_ref_invalid_index() {
    let bytes = vec![0u8; SLOT_SIZE * 2];
    let slot_array = SlotArrayRef::new(&bytes, 2).unwrap();
    let result = slot_array.slot_ref(3);
    assert!(matches!(
        result,
        Err(SlotError::InvalidSlot { slot_index: 3 })
    ));
}

#[test]
fn slot_aray_ref_slot_ref_valid() {
    let mut bytes = vec![0u8; SLOT_SIZE * 2];
    // Logical slot 0 is the last chunk, slot 1 the one before it.
    bytes[4..8].copy_from_slice(&[1, 0, 2, 0]);
    bytes[0..4].copy_from_slice(&[3, 0, 4, 0]);

    let slot_array = SlotArrayRef::new(&bytes, 2).unwrap();

    let slot0 = slot_array.slot_ref(0).unwrap();
    assert_eq!(slot0.offset(), 1);
    assert_eq!(slot0.length(), 2);

    let slot1 = slot_array.slot_ref(1).unwrap();
    assert_eq!(slot1.offset(), 3);
    assert_eq!(slot1.length(), 4);
}

#[test]
fn slot_array_mut_new_invalid_size() {
    let bytes = vec![0u8; 10];
    let result = SlotArrayMut::new(bytes, 3);
    assert!(matches!(
        result,
        Err(SlotError::SlotRegionSizeMismatch {
            expected_size: 12,
            actual_size: 10
        })
    ));
}

#[test]
fn slot_array_mut_new_valid() {
    let bytes = vec![0u8; SLOT_SIZE * 2];
    let result = SlotArrayMut::new(bytes, 2);
    assert!(result.is_ok());
}

#[test]
fn slot_array_mut_slot_mut_invalid_index() {
    let bytes = vec![0u8; SLOT_SIZE * 2];
    let mut slot_array = SlotArrayMut::new(bytes, 2).unwrap();
    let result = slot_array.slot_mut(3);
    assert!(matches!(
        result,
        Err(SlotError::InvalidSlot { slot_index: 3 })
    ));
}

#[test]
fn slot_array_mut_slot_mut_valid() {
    let mut bytes = vec![0u8; SLOT_SIZE * 2];
    bytes[4..8].copy_from_slice(&[1, 0, 2, 0]);
    bytes[0..4].copy_from_slice(&[3, 0, 4, 0]);

    let mut slot_array = SlotArrayMut::new(bytes, 2).unwrap();

    let slot0 = slot_array.slot_mut(0).unwrap();
    assert_eq!(slot0.offset(), 1);
    assert_eq!(slot0.length(), 2);

    let slot1 = slot_array.slot_mut(1).unwrap();
    assert_eq!(slot1.offset(), 3);
    assert_eq!(slot1.length(), 4);
}

#[test]
fn slot_array_mut_slot_ref_invalid_index() {
    let bytes = vec![0u8; SLOT_SIZE * 2];
    let slot_array = SlotArrayMut::new(bytes, 2).unwrap();
    let result = slot_array.slot_ref(3);
    assert!(matches!(
        result,
        Err(SlotError::InvalidSlot { slot_index: 3 })
    ));
}

#[test]
fn slot_aray_mut_slot_ref_valid() {
    let mut bytes = vec![0u8; SLOT_SIZE * 2];
    bytes[4..8].copy_from_slice(&[1, 0, 2, 0]);
    bytes[0..4].copy_from_slice(&[3, 0, 4, 0]);

    let slot_array = SlotArrayMut::new(bytes, 2).unwrap();

    let slot0 = slot_array.slot_ref(0).unwrap();
    assert_eq!(slot0.offset(), 1);
    assert_eq!(slot0.length(), 2);

    let slot1 = slot_array.slot_ref(1).unwrap();
    assert_eq!(slot1.offset(), 3);
    assert_eq!(slot1.length(), 4);
}

#[test]
fn slot_array_mut_set_slot_writes_through() {
    let bytes = vec![0u8; SLOT_SIZE * 2];
    let mut slot_array = SlotArrayMut::new(bytes, 2).unwrap();
    slot_array.set_slot(0, 96, 10).unwrap();
    slot_array.set_slot(1, 106, 20).unwrap();
    let edited = slot_array.into_bytes();
    assert_eq!(&edited[4..8], &[96, 0, 10, 0]);
    assert_eq!(&edited[0..4], &[106, 0, 20, 0]);
}
