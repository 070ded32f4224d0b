//! The C data interface of Arrow: the two records (`FFI_ArrowSchema`, `FFI_ArrowArray`)
//! through which two runtimes in one process hand each other columnar arrays without
//! copying, the format strings that name types, the table of buffer lengths per type, and
//! the bridge (`ArrowArray`) that exports array data into records and imports it back.
use vstd::prelude::*;

pub mod array;
pub mod bridge;
pub mod datatypes;
pub mod error;
pub mod format;
pub mod layout;
pub mod roundtrip;
pub mod schema;

verus! {

} // verus!
