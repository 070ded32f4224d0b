use arrow_ffi::array::{ArrayData, Buffer};
use arrow_ffi::bridge::{ArrowArray, ArrowArrayRef};
use arrow_ffi::datatypes::{DataType, Field, TimeUnit};

/// Exports `data`, hands the two records over as a consumer would receive them, and imports them.
fn export_import(data: ArrayData) -> ArrayData {
    let exported = ArrowArray::try_new(data).unwrap();
    let (array, schema) = ArrowArray::into_raw(exported);
    let imported = ArrowArray::try_from_raw(Some(array), Some(schema)).unwrap();
    imported.to_data().unwrap()
}

fn validity(values: &[bool]) -> Option<Buffer> {
    if values.iter().all(|v| *v) {
        return None;
    }
    let mut bytes = vec![0u8; (values.len() + 7) / 8];
    for (i, v) in values.iter().enumerate() {
        if *v {
            bytes[i / 8] |= 1 << (i % 8);
        }
    }
    Some(Buffer::from_vec(bytes))
}

fn is_valid(data: &ArrayData, i: usize) -> bool {
    match data.null_buffer() {
        None => true,
        Some(b) => (b.get((data.offset() + i) / 8) >> ((data.offset() + i) % 8)) & 1 == 1,
    }
}

fn offsets_buffer(offsets: &[usize], large: bool) -> Buffer {
    let mut bytes = Vec::new();
    for o in offsets {
        if large {
            bytes.extend_from_slice(&(*o as i64).to_le_bytes());
        } else {
            bytes.extend_from_slice(&(*o as i32).to_le_bytes());
        }
    }
    Buffer::from_vec(bytes)
}

fn offset_at(b: &Buffer, i: usize, large: bool) -> usize {
    let bytes = b.to_vec();
    if large {
        let mut a = [0u8; 8];
        a.copy_from_slice(&bytes[i * 8..i * 8 + 8]);
        i64::from_le_bytes(a) as usize
    } else {
        let mut a = [0u8; 4];
        a.copy_from_slice(&bytes[i * 4..i * 4 + 4]);
        i32::from_le_bytes(a) as usize
    }
}

fn variable_data(values: &[Option<&[u8]>], data_type: DataType, large: bool) -> ArrayData {
    let mut offsets = vec![0usize];
    let mut bytes = Vec::new();
    for v in values {
        if let Some(v) = v {
            bytes.extend_from_slice(v);
        }
        offsets.push(bytes.len());
    }
    let valid: Vec<bool> = values.iter().map(|v| v.is_some()).collect();
    let null_count = valid.iter().filter(|v| !**v).count();
    ArrayData::new(
        data_type,
        values.len(),
        null_count,
        validity(&valid),
        0,
        vec![offsets_buffer(&offsets, large), Buffer::from_vec(bytes)],
        vec![],
    )
}

fn read_variable(data: &ArrayData, large: bool) -> Vec<Option<Vec<u8>>> {
    let offsets = &data.buffers()[0];
    let bytes = data.buffers()[1].to_vec();
    (0..data.len())
        .map(|i| {
            if is_valid(data, i) {
                let start = offset_at(offsets, data.offset() + i, large);
                let end = offset_at(offsets, data.offset() + i + 1, large);
                Some(bytes[start..end].to_vec())
            } else {
                None
            }
        })
        .collect()
}

fn concat<T: Clone>(v: &[T]) -> Vec<T> {
    let mut out = v.to_vec();
    out.extend_from_slice(v);
    out
}

fn to_bytes(v: &[Option<&str>]) -> Vec<Option<Vec<u8>>> {
    v.iter().map(|s| s.map(|s| s.as_bytes().to_vec())).collect()
}

fn primitive_i32(values: &[Option<i32>], data_type: DataType) -> ArrayData {
    let mut bytes = Vec::new();
    for v in values {
        bytes.extend_from_slice(&v.unwrap_or(0).to_le_bytes());
    }
    let valid: Vec<bool> = values.iter().map(|v| v.is_some()).collect();
    let null_count = valid.iter().filter(|v| !**v).count();
    ArrayData::new(data_type, values.len(), null_count, validity(&valid), 0, vec![Buffer::from_vec(bytes)], vec![])
}

fn read_i32(data: &ArrayData) -> Vec<Option<i32>> {
    let bytes = data.buffers()[0].to_vec();
    (0..data.len())
        .map(|i| {
            if is_valid(data, i) {
                let k = (data.offset() + i) * 4;
                let mut a = [0u8; 4];
                a.copy_from_slice(&bytes[k..k + 4]);
                Some(i32::from_le_bytes(a))
            } else {
                None
            }
        })
        .collect()
}

fn test_generic_string(large: bool) {
    let values = [Some("a"), None, Some("aaa")];
    let data_type = if large { DataType::LargeUtf8 } else { DataType::Utf8 };
    let bytes: Vec<Option<&[u8]>> = values.iter().map(|s| s.map(|s| s.as_bytes())).collect();
    let data = export_import(variable_data(&bytes, data_type, large));
    let array = concat(&read_variable(&data, large));
    let expected = to_bytes(&[Some("a"), None, Some("aaa"), Some("a"), None, Some("aaa")]);
    assert_eq!(array, expected);
}

#[test]
fn test_string() {
    test_generic_string(false)
}

#[test]
fn test_large_string() {
    test_generic_string(true)
}

fn test_generic_list(large: bool) {
    let values: Vec<Option<i32>> = (0..8).map(Some).collect();
    let value_data = primitive_i32(&values, DataType::Int32);
    let value_offsets = offsets_buffer(&[0, 3, 6, 8], large);
    let item = Field { name: "item".to_string(), data_type: DataType::Int32, nullable: false };
    let list_data_type = if large {
        DataType::LargeList(Box::new(item))
    } else {
        DataType::List(Box::new(item))
    };
    let list_data = ArrayData::new(list_data_type, 3, 0, None, 0, vec![value_offsets], vec![value_data]);
    let data = export_import(list_data);
    let offsets = &data.buffers()[0];
    let child = read_i32(&data.child_data()[0]);
    let value = |i: usize| -> Vec<Option<i32>> {
        child[offset_at(offsets, i, large)..offset_at(offsets, i + 1, large)].to_vec()
    };
    assert_eq!(value(0), vec![Some(0), Some(1), Some(2)]);
    assert_eq!(value(1), vec![Some(3), Some(4), Some(5)]);
    assert_eq!(value(2), vec![Some(6), Some(7)]);
}

#[test]
fn test_list() {
    test_generic_list(false)
}

#[test]
fn test_large_list() {
    test_generic_list(true)
}

fn test_generic_binary(large: bool) {
    let values: Vec<Option<&[u8]>> = vec![Some(b"a"), None, Some(b"aaa")];
    let data_type = if large { DataType::LargeBinary } else { DataType::Binary };
    let data = export_import(variable_data(&values, data_type, large));
    let array = concat(&read_variable(&data, large));
    let expected: Vec<Option<&[u8]>> = vec![Some(b"a"), None, Some(b"aaa"), Some(b"a"), None, Some(b"aaa")];
    let expected: Vec<Option<Vec<u8>>> = expected.iter().map(|v| v.map(|v| v.to_vec())).collect();
    assert_eq!(array, expected);
}

#[test]
fn test_binary() {
    test_generic_binary(false)
}

#[test]
fn test_large_binary() {
    test_generic_binary(true)
}

#[test]
fn test_round_trip() {
    let data = export_import(primitive_i32(&[Some(1), Some(2), Some(3)], DataType::Int32));
    let array: Vec<Option<i32>> = read_i32(&data).iter().map(|v| v.map(|v| v + v)).collect();
    assert_eq!(array, vec![Some(2), Some(4), Some(6)]);
}

#[test]
fn test_bool() {
    let values = [None, Some(true), Some(false)];
    let valid: Vec<bool> = values.iter().map(|v| v.is_some()).collect();
    let bits: Vec<bool> = values.iter().map(|v| v.unwrap_or(false)).collect();
    let data = ArrayData::new(
        DataType::Boolean,
        3,
        1,
        validity(&valid),
        0,
        vec![validity(&bits).unwrap()],
        vec![],
    );
    let data = export_import(data);
    let bits = data.buffers()[0].to_vec();
    let array: Vec<Option<bool>> = (0..data.len())
        .map(|i| if is_valid(&data, i) { Some(!((bits[i / 8] >> (i % 8)) & 1 == 1)) } else { None })
        .collect();
    assert_eq!(array, vec![None, Some(false), Some(true)]);
}

#[test]
fn test_time32() {
    let data_type = DataType::Time32(TimeUnit::Millisecond);
    let data = export_import(primitive_i32(&[None, Some(1), Some(2)], data_type));
    assert!(matches!(data.data_type(), DataType::Time32(TimeUnit::Millisecond)));
    let array = concat(&read_i32(&data));
    assert_eq!(array, vec![None, Some(1), Some(2), None, Some(1), Some(2)]);
}
