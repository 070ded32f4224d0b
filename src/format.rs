use vstd::prelude::*;

use crate::datatypes::{DataType, TimeUnit};
use crate::error::{ArrowError, Result};

verus! {

/// The format string that the interface assigns to a type that nests nothing,
/// or to the outer level of a nested type; `None` for an unsupported type.
pub open spec fn format_of(t: DataType) -> Option<Seq<char>> {
    match t {
        DataType::Null => Some("n"@),
        DataType::Boolean => Some("b"@),
        DataType::Int8 => Some("c"@),
        DataType::UInt8 => Some("C"@),
        DataType::Int16 => Some("s"@),
        DataType::UInt16 => Some("S"@),
        DataType::Int32 => Some("i"@),
        DataType::UInt32 => Some("I"@),
        DataType::Int64 => Some("l"@),
        DataType::UInt64 => Some("L"@),
        DataType::Float16 => Some("e"@),
        DataType::Float32 => Some("f"@),
        DataType::Float64 => Some("g"@),
        DataType::Binary => Some("z"@),
        DataType::LargeBinary => Some("Z"@),
        DataType::Utf8 => Some("u"@),
        DataType::LargeUtf8 => Some("U"@),
        DataType::Date32 => Some("tdD"@),
        DataType::Date64 => Some("tdm"@),
        DataType::Time32(TimeUnit::Second) => Some("tts"@),
        DataType::Time32(TimeUnit::Millisecond) => Some("ttm"@),
        DataType::Time64(TimeUnit::Microsecond) => Some("ttu"@),
        DataType::Time64(TimeUnit::Nanosecond) => Some("ttn"@),
        DataType::List(_) => Some("+l"@),
        DataType::LargeList(_) => Some("+L"@),
        DataType::Struct(_) => Some("+s"@),
        _ => None,
    }
}

/// Returns the format string of `data_type`'s outer level.
pub fn to_format(data_type: &DataType) -> (r: Result<String>)
    ensures
        match format_of(*data_type) {
            Some(s) => r is Ok && r->Ok_0@ == s,
            None => r == Err::<String, ArrowError>(ArrowError::UnsupportedType),
        },
{
    let s: &str = match data_type {
        DataType::Null => "n",
        DataType::Boolean => "b",
        DataType::Int8 => "c",
        DataType::UInt8 => "C",
        DataType::Int16 => "s",
        DataType::UInt16 => "S",
        DataType::Int32 => "i",
        DataType::UInt32 => "I",
        DataType::Int64 => "l",
        DataType::UInt64 => "L",
        DataType::Float16 => "e",
        DataType::Float32 => "f",
        DataType::Float64 => "g",
        DataType::Binary => "z",
        DataType::LargeBinary => "Z",
        DataType::Utf8 => "u",
        DataType::LargeUtf8 => "U",
        DataType::Date32 => "tdD",
        DataType::Date64 => "tdm",
        DataType::Time32(TimeUnit::Second) => "tts",
        DataType::Time32(TimeUnit::Millisecond) => "ttm",
        DataType::Time64(TimeUnit::Microsecond) => "ttu",
        DataType::Time64(TimeUnit::Nanosecond) => "ttn",
        DataType::List(_) => "+l",
        DataType::LargeList(_) => "+L",
        DataType::Struct(_) => "+s",
        _ => {
            return Err(ArrowError::UnsupportedType);
        },
    };
    Ok(s.to_owned())
}

/// Element width, in bits, of the data buffer of a fixed-width type.
pub open spec fn native_width(t: DataType) -> Option<nat> {
    match t {
        DataType::Boolean => Some(1),
        DataType::Int8 | DataType::UInt8 => Some(8),
        DataType::Int16 | DataType::UInt16 | DataType::Float16 => Some(16),
        DataType::Int32 | DataType::UInt32 | DataType::Float32 | DataType::Date32
        | DataType::Time32(_) => Some(32),
        DataType::Int64 | DataType::UInt64 | DataType::Float64 | DataType::Date64
        | DataType::Time64(_) => Some(64),
        _ => None,
    }
}

/// Width, in bits, of one offset of a variable-width type.
pub open spec fn offset_width(t: DataType) -> Option<nat> {
    match t {
        DataType::Utf8 | DataType::Binary | DataType::List(_) => Some(32),
        DataType::LargeUtf8 | DataType::LargeBinary | DataType::LargeList(_) => Some(64),
        _ => None,
    }
}

/// Bits per element of buffer `i` of an array of type `t`, where buffer 0 is the validity
/// bitmap; the buffers of a fixed-width type are the bitmap and its values, those of a
/// variable-width type the bitmap, the offsets and the bytes.
pub open spec fn bit_width_of(t: DataType, i: nat) -> Result<nat> {
    if i == 0 {
        Ok(1)
    } else if native_width(t) is Some {
        if i == 1 {
            Ok(native_width(t)->0)
        } else {
            Err(ArrowError::CDataInterfaceProtocol)
        }
    } else if offset_width(t) is Some {
        if i == 1 {
            Ok(offset_width(t)->0)
        } else if i == 2 {
            Ok(8)
        } else {
            Err(ArrowError::CDataInterfaceProtocol)
        }
    } else {
        Err(ArrowError::UnsupportedType)
    }
}

/// Returns the number of bits per element of buffer `i` of an array of type `data_type`.
pub fn bit_width(data_type: &DataType, i: usize) -> (r: Result<usize>)
    ensures
        match bit_width_of(*data_type, i as nat) {
            Ok(w) => r == Ok::<usize, ArrowError>(w as usize),
            Err(e) => r == Err::<usize, ArrowError>(e),
        },
{
    if i == 0 {
        return Ok(1);
    }
    let native: Option<usize> = match data_type {
        DataType::Boolean => Some(1),
        DataType::Int8 | DataType::UInt8 => Some(8),
        DataType::Int16 | DataType::UInt16 | DataType::Float16 => Some(16),
        DataType::Int32 | DataType::UInt32 | DataType::Float32 | DataType::Date32
        | DataType::Time32(_) => Some(32),
        DataType::Int64 | DataType::UInt64 | DataType::Float64 | DataType::Date64
        | DataType::Time64(_) => Some(64),
        _ => None,
    };
    if let Some(w) = native {
        return if i == 1 {
            Ok(w)
        } else {
            Err(ArrowError::CDataInterfaceProtocol)
        };
    }
    let offsets: Option<usize> = match data_type {
        DataType::Utf8 | DataType::Binary | DataType::List(_) => Some(32),
        DataType::LargeUtf8 | DataType::LargeBinary | DataType::LargeList(_) => Some(64),
        _ => None,
    };
    match offsets {
        Some(w) => if i == 1 {
            Ok(w)
        } else if i == 2 {
            Ok(8)
        } else {
            Err(ArrowError::CDataInterfaceProtocol)
        },
        None => Err(ArrowError::UnsupportedType),
    }
}

} // verus!
