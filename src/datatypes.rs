use vstd::prelude::*;

verus! {

/// Resolution of a time value.
#[derive(Clone, Copy, Debug, PartialEq, Eq, Structural)]
pub enum TimeUnit {
    Second,
    Millisecond,
    Microsecond,
    Nanosecond,
}

/// Logical type of a column.
#[derive(Debug)]
pub enum DataType {
    Null,
    Boolean,
    Int8,
    Int16,
    Int32,
    Int64,
    UInt8,
    UInt16,
    UInt32,
    UInt64,
    Float16,
    Float32,
    Float64,
    Timestamp(TimeUnit),
    Date32,
    Date64,
    Time32(TimeUnit),
    Time64(TimeUnit),
    Interval,
    Binary,
    FixedSizeBinary(i32),
    LargeBinary,
    Utf8,
    LargeUtf8,
    List(Box<Field>),
    FixedSizeList(Box<Field>, i32),
    LargeList(Box<Field>),
    Struct(Vec<Field>),
    Union(Vec<Field>),
    Decimal(usize, usize),
}

/// A named, typed column slot.
#[derive(Debug)]
pub struct Field {
    pub name: String,
    pub data_type: DataType,
    pub nullable: bool,
}

} // verus!

verus! {

/// Mathematical model of a `DataType`: names become character sequences.
pub enum TypeModel {
    /// A type that nests no field; it holds no string, so it stands for itself.
    Leaf(DataType),
    List(Box<FieldModel>),
    FixedSizeList(Box<FieldModel>, i32),
    LargeList(Box<FieldModel>),
    Struct(Seq<FieldModel>),
    Union(Seq<FieldModel>),
}

/// Mathematical model of a `Field`.
pub struct FieldModel {
    pub name: Seq<char>,
    pub data_type: TypeModel,
    pub nullable: bool,
}

impl DataType {
    pub open spec fn model(self) -> TypeModel
        decreases self,
    {
        match self {
            DataType::List(f) => TypeModel::List(Box::new(field_model(*f))),
            DataType::FixedSizeList(f, n) => TypeModel::FixedSizeList(Box::new(field_model(*f)), n),
            DataType::LargeList(f) => TypeModel::LargeList(Box::new(field_model(*f))),
            DataType::Struct(fs) => TypeModel::Struct(fields_model(fs@)),
            DataType::Union(fs) => TypeModel::Union(fields_model(fs@)),
            _ => TypeModel::Leaf(self),
        }
    }
}

pub open spec fn field_model(f: Field) -> FieldModel
    decreases f,
{
    FieldModel { name: f.name@, data_type: f.data_type.model(), nullable: f.nullable }
}

pub open spec fn fields_model(fs: Seq<Field>) -> Seq<FieldModel>
    decreases fs,
{
    if fs.len() == 0 {
        Seq::empty()
    } else {
        fields_model(fs.drop_last()).push(field_model(fs.last()))
    }
}

} // verus!
