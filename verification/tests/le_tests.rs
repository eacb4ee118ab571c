use trdb::le::read_le;
use trdb::le::write_le;
use trdb::le::BinaryError;
use trdb::le::LittleEndianInteger;

#[test]
fn test_write_le_success_u32() {
    let mut buf = vec![0u8; 8];
    write_le::<u32>(&mut buf, 2, 23u32).unwrap();
    assert_eq!(&buf[2..6], &[23u8, 0, 0, 0]);
}

#[test]
fn test_write_le_success_u16_u64() {
    let mut buf = vec![0u8; 12];
    write_le::<u16>(&mut buf, 1, 0x1234u16).unwrap();
    assert_eq!(&buf[1..3], &[0x34u8, 0x12u8]);

    write_le::<u64>(&mut buf, 4, 0x1122334455667788u64).unwrap();
    assert_eq!(&buf[4..12], &0x1122334455667788u64.to_le_bytes());
}

#[test]
fn test_write_le_out_of_bounds() {
    let mut buf = vec![0u8; 3];
    let err = write_le::<u32>(&mut buf, 0, 1u32).unwrap_err();
    match err {
        BinaryError::BytesSliceSizeMismatch {
            expected,
            from_offset,
        } => {
            assert_eq!(expected, 4);
            assert_eq!(from_offset, 0);
        }
        _ => panic!("unexpected error variant: {:?}", err),
    }
}

#[test]
fn test_write_le_invalid_target_size_direct() {
    let val: u16 = 0x1234;
    let mut target = vec![0u8; 1];
    let err = write_le::<u16>(&mut target, 0, val).unwrap_err();
    match err {
        BinaryError::BytesSliceSizeMismatch {
            expected,
            from_offset,
        } => {
            assert_eq!(expected, 2);
            assert_eq!(from_offset, 0);
        }
        _ => panic!("unexpected error variant: {:?}", err),
    }
}

#[test]
fn test_read_le_u16() {
    let bytes = vec![0x17u8, 0x00];
    let result = read_le::<u16>(&bytes, 0).unwrap();
    assert_eq!(result, 23);
}

#[test]
fn test_read_le_u16_larger_array() {
    let bytes = vec![0x00u8, 0x00, 0x00, 0x00, 0x17, 0x00];
    let result = read_le::<u16>(&bytes, 4).unwrap();
    assert_eq!(result, 23);
}

#[test]
fn test_read_le_u32() {
    let bytes = vec![0x17u8, 0x00, 0x00, 0x00];
    let result = read_le::<u32>(&bytes, 0).unwrap();
    assert_eq!(result, 23);
}

#[test]
fn test_read_le_u64() {
    let bytes = vec![0x17u8, 0x00, 0x00, 0x00, 0x00, 0x00, 0x00, 0x00];
    let result = read_le::<u64>(&bytes, 0).unwrap();
    assert_eq!(result, 23);
}

#[test]
fn test_read_le_out_of_bounds() {
    let bytes = vec![0u8; 3];
    let err = read_le::<u32>(&bytes, 0).unwrap_err();
    match err {
        BinaryError::BytesSliceSizeMismatch {
            expected,
            from_offset,
        } => {
            assert_eq!(expected, 4);
            assert_eq!(from_offset, 0);
        }
        _ => panic!("unexpected error variant: {:?}", err),
    }
}

#[test]
fn test_read_le_start_offset_out_of_bounds() {
    let bytes = vec![0u8; 5];
    let err = read_le::<u32>(&bytes, 3).unwrap_err();
    match err {
        BinaryError::BytesSliceSizeMismatch {
            expected,
            from_offset,
        } => {
            assert_eq!(expected, 4);
            assert_eq!(from_offset, 3);
        }
        _ => panic!("unexpected error variant: {:?}", err),
    }
}

#[test]
fn test_read_le_invalid_size_direct() {
    let small = vec![0x01u8, 0x02u8];
    let err = read_le::<u32>(&small, 0).unwrap_err();
    match err {
        BinaryError::BytesSliceSizeMismatch {
            expected,
            from_offset,
        } => {
            assert_eq!(expected, 4);
            assert_eq!(from_offset, 0);
        }
        _ => panic!("unexpected error variant: {:?}", err),
    }
}

#[test]
fn test_from_le_success_u32() {
    let bytes = vec![23u8, 0, 0, 0];
    let v = <u32 as LittleEndianInteger>::from_le(&bytes).unwrap();
    assert_eq!(v, 23u32);
}

#[test]
fn test_from_le_invalid_size() {
    let small = vec![1u8, 2u8];
    let err = <u32 as LittleEndianInteger>::from_le(&small).unwrap_err();
    match err {
        BinaryError::BytesSliceSizeMismatch {
            expected,
            from_offset,
        } => {
            assert_eq!(expected, 4);
            assert_eq!(from_offset, 0);
        }
        _ => panic!("unexpected error variant: {:?}", err),
    }
}

#[test]
fn test_to_le_success_u32() {
    let val: u32 = 0x11223344;
    let mut target = vec![0u8; 4];
    <u32 as LittleEndianInteger>::to_le(val, &mut target).unwrap();
    assert_eq!(target, val.to_le_bytes().to_vec());
}

#[test]
fn test_to_le_invalid_target_size() {
    let val: u32 = 0x11223344;
    let mut target = vec![0u8; 3];
    let err = <u32 as LittleEndianInteger>::to_le(val, &mut target).unwrap_err();
    match err {
        BinaryError::WriteErrorSliceSizeMismatch { src, target } => {
            assert_eq!(src, 4);
            assert_eq!(target, 3);
        }
        _ => panic!("unexpected error variant: {:?}", err),
    }
}

#[test]
fn write_then_read_round_trips() {
    let mut buf = vec![0u8; 16];
    write_le::<u16>(&mut buf, 0, 0xBEEF).unwrap();
    write_le::<u32>(&mut buf, 2, 0xDEADBEEF).unwrap();
    write_le::<u64>(&mut buf, 6, 0x0123456789ABCDEF).unwrap();
    assert_eq!(read_le::<u16>(&buf, 0).unwrap(), 0xBEEF);
    assert_eq!(read_le::<u32>(&buf, 2).unwrap(), 0xDEADBEEF);
    assert_eq!(read_le::<u64>(&buf, 6).unwrap(), 0x0123456789ABCDEF);
}
