use bo_autosplitter::array::{CSharpArray, ReadError, MAX_ELEMENTS};

fn le_bytes(values: &[u64]) -> Vec<u8> {
    let mut out = Vec::new();
    for v in values {
        out.extend_from_slice(&v.to_le_bytes());
    }
    out
}

#[test]
fn count_passes_length_through() {
    let arr = CSharpArray::new(0x1000);
    assert_eq!(arr.count(Ok(7)), Ok(7));
    assert_eq!(arr.count(Err(ReadError::ReadFailure)), Err(ReadError::ReadFailure));
}

#[test]
fn addresses_of_fields() {
    let arr = CSharpArray::new(0x1000);
    assert_eq!(arr.count_address(), Some(0x1018));
    assert_eq!(arr.data_address(), Some(0x1020));
    assert_eq!(arr.element_address(3), Some(0x1038));
    let high = CSharpArray::new(u64::MAX - 0x10);
    assert_eq!(high.count_address(), None);
    assert_eq!(high.element_address(0), None);
}

#[test]
fn read_decodes_little_endian_elements() {
    let arr = CSharpArray::new(0x1000);
    let bytes = le_bytes(&[1, 256, 0x1122_3344_5566_7788]);
    let got = arr.read(3, Ok(bytes)).unwrap();
    assert_eq!(got, vec![1, 256, 0x1122_3344_5566_7788]);
}

#[test]
fn read_of_empty_array() {
    let arr = CSharpArray::new(0x1000);
    assert_eq!(arr.read(0, Ok(Vec::new())), Ok(Vec::new()));
}

#[test]
fn read_is_all_or_nothing() {
    let arr = CSharpArray::new(0x1000);
    let short = le_bytes(&[1, 2]);
    assert_eq!(arr.read(3, Ok(short)), Err(ReadError::StructuralMismatch));
    assert_eq!(arr.read(3, Err(ReadError::ReadFailure)), Err(ReadError::ReadFailure));
}

#[test]
fn corrupt_count_is_capped() {
    assert_eq!(CSharpArray::read_len(5_000_000), 2048);
    assert_eq!(CSharpArray::read_len(2048), 2048);
    assert_eq!(CSharpArray::read_len(12), 12);
    let arr = CSharpArray::new(0x1000);
    let values: Vec<u64> = (0..MAX_ELEMENTS as u64).collect();
    let got = arr.read(5_000_000, Ok(le_bytes(&values))).unwrap();
    assert_eq!(got.len(), 2048);
    assert_eq!(got[2047], 2047);
    let too_many: Vec<u64> = (0..5000u64).collect();
    assert_eq!(arr.read(5_000_000, Ok(le_bytes(&too_many))), Err(ReadError::StructuralMismatch));
}

#[test]
fn read_class_is_strict() {
    let arr = CSharpArray::new(0x1000);
    let all = vec![Ok(1u32), Ok(2), Ok(3)];
    assert_eq!(arr.read_class(&all), Ok(vec![1, 2, 3]));
    let one_bad = vec![Ok(1u32), Err(ReadError::ReadFailure), Err(ReadError::StructuralMismatch)];
    assert_eq!(arr.read_class(&one_bad), Err(ReadError::ReadFailure));
    let none: Vec<Result<u32, ReadError>> = Vec::new();
    assert_eq!(arr.read_class(&none), Ok(Vec::new()));
}

#[test]
fn iter_skips_failed_reads() {
    let arr = CSharpArray::new(0x1000);
    let reads = vec![Ok(5u64), Err(ReadError::ReadFailure), Ok(9)];
    assert_eq!(arr.iter(&reads), vec![5, 9]);
}
