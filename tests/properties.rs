use std::sync::Arc;

use arrow_ffi::array::{ArrayData, Buffer, FFI_ArrowArray};
use arrow_ffi::bridge::{ArrowArray, ArrowArrayRef};
use arrow_ffi::datatypes::{DataType, Field, TimeUnit};
use arrow_ffi::error::ArrowError;
use arrow_ffi::format::{bit_width, to_format};
use arrow_ffi::layout::buffer_len;
use arrow_ffi::schema::{to_field, FFI_ArrowSchema};

fn field(name: &str, data_type: DataType, nullable: bool) -> Field {
    Field { name: name.to_string(), data_type, nullable }
}

fn le32(values: &[i32]) -> Buffer {
    let mut bytes = Vec::new();
    for v in values {
        bytes.extend_from_slice(&v.to_le_bytes());
    }
    Buffer::from_vec(bytes)
}

fn le64(values: &[i64]) -> Buffer {
    let mut bytes = Vec::new();
    for v in values {
        bytes.extend_from_slice(&v.to_le_bytes());
    }
    Buffer::from_vec(bytes)
}

fn utf8_data() -> ArrayData {
    ArrayData::new(DataType::Utf8, 3, 0, None, 0, vec![le32(&[0, 1, 1, 4]), Buffer::from_vec(b"abcd".to_vec())], vec![])
}

#[test]
fn format_strings_of_supported_types() {
    let cases: Vec<(DataType, &str)> = vec![
        (DataType::Null, "n"),
        (DataType::Boolean, "b"),
        (DataType::Int8, "c"),
        (DataType::UInt8, "C"),
        (DataType::Int16, "s"),
        (DataType::UInt16, "S"),
        (DataType::Int32, "i"),
        (DataType::UInt32, "I"),
        (DataType::Int64, "l"),
        (DataType::UInt64, "L"),
        (DataType::Float16, "e"),
        (DataType::Float32, "f"),
        (DataType::Float64, "g"),
        (DataType::Binary, "z"),
        (DataType::LargeBinary, "Z"),
        (DataType::Utf8, "u"),
        (DataType::LargeUtf8, "U"),
        (DataType::Date32, "tdD"),
        (DataType::Date64, "tdm"),
        (DataType::Time32(TimeUnit::Second), "tts"),
        (DataType::Time32(TimeUnit::Millisecond), "ttm"),
        (DataType::Time64(TimeUnit::Microsecond), "ttu"),
        (DataType::Time64(TimeUnit::Nanosecond), "ttn"),
        (DataType::List(Box::new(field("item", DataType::Int32, true))), "+l"),
        (DataType::LargeList(Box::new(field("item", DataType::Int32, true))), "+L"),
        (DataType::Struct(vec![]), "+s"),
    ];
    for (t, f) in cases {
        assert_eq!(to_format(&t).unwrap(), f);
    }
}

#[test]
fn format_of_unsupported_types_is_an_error() {
    let cases = vec![
        DataType::Timestamp(TimeUnit::Second),
        DataType::Time32(TimeUnit::Microsecond),
        DataType::Time64(TimeUnit::Second),
        DataType::Interval,
        DataType::FixedSizeBinary(4),
        DataType::FixedSizeList(Box::new(field("item", DataType::Int8, false)), 2),
        DataType::Union(vec![]),
        DataType::Decimal(10, 2),
    ];
    for t in cases {
        assert_eq!(to_format(&t), Err(ArrowError::UnsupportedType));
    }
}

#[test]
fn bit_widths_follow_the_buffer_table() {
    assert_eq!(bit_width(&DataType::Int32, 0), Ok(1));
    assert_eq!(bit_width(&DataType::Int32, 1), Ok(32));
    assert_eq!(bit_width(&DataType::Int32, 2), Err(ArrowError::CDataInterfaceProtocol));
    assert_eq!(bit_width(&DataType::Boolean, 1), Ok(1));
    assert_eq!(bit_width(&DataType::Float16, 1), Ok(16));
    assert_eq!(bit_width(&DataType::UInt8, 1), Ok(8));
    assert_eq!(bit_width(&DataType::Date64, 1), Ok(64));
    assert_eq!(bit_width(&DataType::Time32(TimeUnit::Second), 1), Ok(32));
    assert_eq!(bit_width(&DataType::Utf8, 1), Ok(32));
    assert_eq!(bit_width(&DataType::Utf8, 2), Ok(8));
    assert_eq!(bit_width(&DataType::Utf8, 3), Err(ArrowError::CDataInterfaceProtocol));
    assert_eq!(bit_width(&DataType::LargeBinary, 1), Ok(64));
    assert_eq!(bit_width(&DataType::LargeList(Box::new(field("x", DataType::Int8, true))), 2), Ok(8));
    assert_eq!(bit_width(&DataType::Struct(vec![]), 0), Ok(1));
    assert_eq!(bit_width(&DataType::Struct(vec![]), 1), Err(ArrowError::UnsupportedType));
    assert_eq!(bit_width(&DataType::Null, 1), Err(ArrowError::UnsupportedType));
}

#[test]
fn schema_round_trip_keeps_name_type_and_nullability() {
    let fields = vec![
        field("a", DataType::Int8, true),
        field("", DataType::Utf8, false),
        field("lst", DataType::List(Box::new(field("item", DataType::Utf8, true))), false),
        field(
            "s",
            DataType::Struct(vec![
                field("x", DataType::Int64, false),
                field("y", DataType::LargeList(Box::new(field("z", DataType::Time64(TimeUnit::Nanosecond), true))), true),
            ]),
            true,
        ),
    ];
    for f in fields {
        let schema = FFI_ArrowSchema::try_new(&f).unwrap();
        assert_eq!(schema.format(), to_format(&f.data_type).unwrap());
        assert_eq!(schema.name(), f.name);
        assert_eq!(schema.nullable(), f.nullable);
        let back = to_field(&schema).unwrap();
        assert_eq!(format!("{:?}", back), format!("{:?}", f));
    }
}

#[test]
fn schema_children_follow_the_nesting() {
    let f = field("s", DataType::Struct(vec![field("x", DataType::Int64, false), field("y", DataType::Utf8, true)]), true);
    let schema = FFI_ArrowSchema::try_new(&f).unwrap();
    assert_eq!(schema.n_children(), 2);
    assert_eq!(schema.child(0).format(), "l");
    assert_eq!(schema.child(1).name(), "y");
    assert!(schema.child(1).nullable());
}

#[test]
fn schema_of_unsupported_nested_type_is_an_error() {
    let f = field("s", DataType::Struct(vec![field("x", DataType::Int64, false), field("d", DataType::Decimal(5, 1), true)]), true);
    assert_eq!(FFI_ArrowSchema::try_new(&f).err(), Some(ArrowError::UnsupportedType));
    let l = field("l", DataType::List(Box::new(field("t", DataType::Timestamp(TimeUnit::Second), true))), true);
    assert_eq!(FFI_ArrowSchema::try_new(&l).err(), Some(ArrowError::UnsupportedType));
}

#[test]
fn reading_foreign_schemas() {
    let unknown = FFI_ArrowSchema::from_parts("+w:4".to_string(), "x".to_string(), 0, vec![]);
    assert_eq!(to_field(&unknown).err(), Some(ArrowError::UnsupportedType));
    let childless = FFI_ArrowSchema::from_parts("+l".to_string(), "x".to_string(), 0, vec![]);
    assert_eq!(to_field(&childless).err(), Some(ArrowError::CDataInterfaceProtocol));
    let odd_flags = FFI_ArrowSchema::from_parts("i".to_string(), "x".to_string(), 3, vec![]);
    assert!(odd_flags.nullable());
    let sorted_only = FFI_ArrowSchema::from_parts("i".to_string(), "x".to_string(), 1, vec![]);
    assert!(!sorted_only.nullable());
    let child = FFI_ArrowSchema::from_parts("tdD".to_string(), "day".to_string(), 2, vec![]);
    let list = FFI_ArrowSchema::from_parts("+L".to_string(), "days".to_string(), 0, vec![child]);
    let f = to_field(&list).unwrap();
    assert_eq!(format!("{:?}", f), format!("{:?}", field("days", DataType::LargeList(Box::new(field("day", DataType::Date32, true))), false)));
}

#[test]
fn buffer_lengths_of_variable_width_arrays() {
    let array = FFI_ArrowArray::new(&utf8_data());
    assert_eq!(buffer_len(&DataType::Utf8, &array, 0), Ok(1));
    assert_eq!(buffer_len(&DataType::Utf8, &array, 1), Ok(16));
    assert_eq!(buffer_len(&DataType::Utf8, &array, 2), Ok(4));
    assert_eq!(buffer_len(&DataType::Utf8, &array, 3), Err(ArrowError::CDataInterfaceProtocol));
    let large = ArrayData::new(DataType::LargeBinary, 2, 0, None, 0, vec![le64(&[0, 2, 7]), Buffer::from_vec(vec![0; 7])], vec![]);
    let array = FFI_ArrowArray::new(&large);
    assert_eq!(buffer_len(&DataType::LargeBinary, &array, 1), Ok(24));
    assert_eq!(buffer_len(&DataType::LargeBinary, &array, 2), Ok(7));
}

#[test]
fn buffer_lengths_of_fixed_width_arrays() {
    let ints = ArrayData::new(DataType::Int32, 3, 0, None, 0, vec![le32(&[1, 2, 3])], vec![]);
    let array = FFI_ArrowArray::new(&ints);
    assert_eq!(buffer_len(&DataType::Int32, &array, 1), Ok(12));
    assert_eq!(buffer_len(&DataType::Int32, &array, 2), Err(ArrowError::CDataInterfaceProtocol));
    let bools = ArrayData::new(DataType::Boolean, 10, 0, None, 0, vec![Buffer::from_vec(vec![0, 0])], vec![]);
    let array = FFI_ArrowArray::new(&bools);
    assert_eq!(buffer_len(&DataType::Boolean, &array, 0), Ok(2));
    assert_eq!(buffer_len(&DataType::Boolean, &array, 1), Ok(2));
    let empty = ArrayData::new(DataType::Int64, 0, 0, None, 0, vec![Buffer::from_vec(vec![])], vec![]);
    let array = FFI_ArrowArray::new(&empty);
    assert_eq!(buffer_len(&DataType::Int64, &array, 1), Ok(0));
}

#[test]
fn negative_last_offset_is_a_protocol_error() {
    let data = ArrayData::new(DataType::Utf8, 1, 0, None, 0, vec![le32(&[0, -1]), Buffer::from_vec(vec![])], vec![]);
    let array = FFI_ArrowArray::new(&data);
    assert_eq!(buffer_len(&DataType::Utf8, &array, 2), Err(ArrowError::CDataInterfaceProtocol));
}

#[test]
fn short_buffer_is_a_protocol_error_on_import() {
    let data = ArrayData::new(DataType::Int32, 4, 0, None, 0, vec![le32(&[1, 2])], vec![]);
    let bridge = ArrowArray::try_new(data).unwrap();
    assert_eq!(bridge.to_data().err(), Some(ArrowError::CDataInterfaceProtocol));
}

#[test]
fn exported_array_record_mirrors_the_data() {
    let data = ArrayData::new(
        DataType::Int32,
        3,
        1,
        Some(Buffer::from_vec(vec![0b101])),
        2,
        vec![le32(&[7, 8, 9, 10, 11])],
        vec![],
    );
    let array = FFI_ArrowArray::new(&data);
    assert_eq!(array.len(), 3);
    assert!(!array.is_empty());
    assert_eq!(array.offset(), 2);
    assert_eq!(array.null_count(), 1);
    assert_eq!(array.n_buffers(), 2);
    assert_eq!(array.n_children(), 0);
}

#[test]
fn struct_round_trip() {
    let ints = ArrayData::new(DataType::Int32, 2, 0, None, 0, vec![le32(&[5, 6])], vec![]);
    let strings = ArrayData::new(DataType::Utf8, 2, 1, Some(Buffer::from_vec(vec![0b01])), 0, vec![le32(&[0, 2, 2]), Buffer::from_vec(b"hi".to_vec())], vec![]);
    let t = DataType::Struct(vec![field("n", DataType::Int32, false), field("s", DataType::Utf8, true)]);
    let data = ArrayData::new(t, 2, 0, None, 0, vec![], vec![ints, strings]);
    let bridge = ArrowArray::try_new(data).unwrap();
    let back = bridge.to_data().unwrap();
    assert_eq!(back.len(), 2);
    assert_eq!(back.child_data().len(), 2);
    assert_eq!(back.child_data()[0].buffers()[0].to_vec(), le32(&[5, 6]).to_vec());
    assert_eq!(back.child_data()[1].null_count(), 1);
    assert_eq!(back.child_data()[1].buffers()[1].to_vec(), b"hi".to_vec());
    let child = bridge.child(1);
    assert_eq!(child.schema().name(), "s");
    assert_eq!(child.buffer_len(2), Ok(2));
    assert_eq!(child.to_data().unwrap().buffers()[0].len(), 12);
}

#[test]
fn export_of_unsupported_type_is_an_error() {
    let data = ArrayData::new(DataType::Decimal(10, 2), 0, 0, None, 0, vec![], vec![]);
    assert_eq!(ArrowArray::try_new(data).err(), Some(ArrowError::UnsupportedType));
}

#[test]
fn import_from_null_pointer_is_an_error() {
    let (array, schema) = ArrowArray::into_raw(ArrowArray::try_new(utf8_data()).unwrap());
    assert_eq!(ArrowArray::try_from_raw(None, Some(schema)).err(), Some(ArrowError::NullPointer));
    assert_eq!(ArrowArray::try_from_raw(Some(array), None).err(), Some(ArrowError::NullPointer));
    assert_eq!(ArrowArray::try_from_raw(None, None).err(), Some(ArrowError::NullPointer));
}

#[test]
fn empty_bridge_holds_released_records() {
    let bridge = ArrowArray::empty();
    assert!(bridge.array().released());
    assert!(bridge.schema().released());
    assert_eq!(bridge.to_data().err(), Some(ArrowError::CDataInterfaceProtocol));
}

#[test]
fn release_runs_once() {
    let mut schema = FFI_ArrowSchema::try_new(&field("l", DataType::List(Box::new(field("i", DataType::Int8, true))), true)).unwrap();
    assert!(!schema.released());
    assert!(schema.release());
    assert!(schema.released());
    assert!(!schema.release());
    assert!(schema.released());
    let mut array = FFI_ArrowArray::new(&utf8_data());
    assert!(array.release());
    assert!(array.released());
    assert_eq!(array.slots(), 0);
    assert!(!array.release());
}

#[test]
fn imported_buffers_keep_the_root_record_alive() {
    let bridge = ArrowArray::try_new(utf8_data()).unwrap();
    let data = bridge.to_data().unwrap();
    drop(bridge);
    let values = &data.buffers()[1];
    assert!(values.has_owner());
    assert_eq!(values.to_vec(), b"abcd".to_vec());
    let offsets = &data.buffers()[0];
    assert_eq!(offsets.len(), 16);
    assert!(!Buffer::from_vec(vec![1]).has_owner());
}

#[test]
fn import_keeps_counts_as_stated() {
    let data = ArrayData::new(DataType::Int32, 3, 1, Some(Buffer::from_vec(vec![0b011])), 0, vec![le32(&[1, 2, 0])], vec![]);
    let back = ArrowArray::try_new(data).unwrap().to_data().unwrap();
    assert_eq!(back.len(), 3);
    assert_eq!(back.null_count(), 1);
    assert_eq!(back.offset(), 0);
    assert_eq!(back.null_buffer().as_ref().unwrap().to_vec(), vec![0b011]);
    assert!(matches!(back.data_type(), DataType::Int32));
}


fn import(array: FFI_ArrowArray, schema: FFI_ArrowSchema) -> Result<ArrayData, ArrowError> {
    ArrowArray::try_from_raw(Some(Arc::new(array)), Some(Arc::new(schema))).unwrap().to_data()
}

fn int_schema() -> FFI_ArrowSchema {
    FFI_ArrowSchema::from_parts("i".to_string(), "".to_string(), 0, vec![])
}

#[test]
fn foreign_record_with_missing_data_buffer_is_a_protocol_error() {
    let array = FFI_ArrowArray::from_parts(2, 0, 0, vec![None, None], vec![]);
    assert_eq!(import(array, int_schema()).err(), Some(ArrowError::CDataInterfaceProtocol));
}

#[test]
fn foreign_record_with_negative_length_is_a_protocol_error() {
    let array = FFI_ArrowArray::from_parts(-1, 0, 0, vec![None, Some(le32(&[]))], vec![]);
    assert_eq!(import(array, int_schema()).err(), Some(ArrowError::CDataInterfaceProtocol));
}

#[test]
fn foreign_record_with_extra_child_is_a_protocol_error() {
    let child = FFI_ArrowArray::from_parts(0, 0, 0, vec![None, Some(le32(&[]))], vec![]);
    let array = FFI_ArrowArray::from_parts(1, 0, 0, vec![None, Some(le32(&[4]))], vec![child]);
    assert_eq!(import(array, int_schema()).err(), Some(ArrowError::CDataInterfaceProtocol));
}

#[test]
fn foreign_record_with_unknown_format_is_unsupported() {
    let array = FFI_ArrowArray::from_parts(1, 0, 0, vec![None, Some(le32(&[4]))], vec![]);
    let schema = FFI_ArrowSchema::from_parts("tsn:UTC".to_string(), "".to_string(), 0, vec![]);
    assert_eq!(import(array, schema).err(), Some(ArrowError::UnsupportedType));
}

#[test]
fn foreign_record_reads_unknown_null_count_verbatim() {
    let array = FFI_ArrowArray::from_parts(2, -1, 1, vec![None, Some(le32(&[4, 5, 6]))], vec![]);
    let data = import(array, int_schema()).unwrap();
    assert_eq!(data.null_count(), usize::MAX);
    assert_eq!(data.offset(), 1);
    assert_eq!(data.buffers()[0].len(), 8);
}

#[test]
fn reimporting_handed_out_records_succeeds() {
    let (array, schema) = ArrowArray::into_raw(ArrowArray::try_new(utf8_data()).unwrap());
    let again = ArrowArray::try_from_raw(Some(array), Some(schema)).unwrap();
    assert_eq!(again.array().len(), 3);
    assert_eq!(again.schema().format(), "u");
}

#[test]
fn empty_records_hold_nothing() {
    let bridge = ArrowArray::empty();
    assert_eq!(bridge.array().length(), 0);
    assert_eq!(bridge.array().n_buffers(), 0);
    assert_eq!(bridge.array().n_children(), 0);
    assert_eq!(bridge.array().slots(), 0);
    assert_eq!(bridge.array().child_count(), 0);
    assert_eq!(bridge.schema().n_children(), 0);
    assert_eq!(bridge.schema().child_count(), 0);
}

#[test]
fn imported_child_buffers_keep_the_root_record_alive() {
    let ints = ArrayData::new(DataType::Int32, 2, 1, Some(Buffer::from_vec(vec![0b10])), 0, vec![le32(&[5, 6])], vec![]);
    let t = DataType::Struct(vec![field("n", DataType::Int32, true)]);
    let bridge = ArrowArray::try_new(ArrayData::new(t, 2, 0, None, 0, vec![], vec![ints])).unwrap();
    let data = bridge.to_data().unwrap();
    drop(bridge);
    let child = &data.child_data()[0];
    assert!(child.buffers()[0].has_owner());
    assert!(child.null_buffer().as_ref().unwrap().has_owner());
    assert_eq!(child.buffers()[0].to_vec(), le32(&[5, 6]).to_vec());
}
