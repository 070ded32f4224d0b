use vstd::prelude::*;

verus! {

/// What can go wrong when moving data across the C data interface.
#[derive(Clone, Copy, Debug, PartialEq, Eq, Structural)]
pub enum ArrowError {
    /// A type, or a format string, outside the supported set.
    UnsupportedType,
    /// A descriptor that contradicts the interface: a buffer index past what its type has,
    /// a required buffer that is missing, a child that is not there, a negative count.
    CDataInterfaceProtocol,
    /// A descriptor handle that was absent where one was required.
    NullPointer,
    /// A format string that is not valid UTF-8. The records here hold their strings as
    /// `String`, which is always UTF-8, so no function of this crate returns it.
    NonUtf8FormatString,
}

pub type Result<T> = core::result::Result<T, ArrowError>;

} // verus!
