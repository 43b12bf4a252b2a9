use vstd::prelude::*;

verus! {

/// The error taxonomy shared by every fallible operation of this library.
///
/// `UnsupportedFormat` is returned when a pixel format or file extension has
/// no registered handler, `MalformedFile` when a byte buffer cannot be parsed
/// or is truncated, `IndexOutOfRange` when a mip/item/slice lookup is out of
/// bounds, `UnsupportedOperation` when a request is valid in principle but not
/// for the given combination (such as swizzling a format a platform cannot
/// tile), and `IoFailure` when an unverified caller reports a read or write
/// failure at the codec boundary.
#[derive(Clone, Copy, Debug, PartialEq, Eq, Structural)]
pub enum TexError {
    UnsupportedFormat,
    MalformedFile,
    IndexOutOfRange,
    UnsupportedOperation,
    IoFailure,
}

impl TexError {
    /// A short human-readable description of the error.
    pub fn message(&self) -> (r: &'static str)
    {
        match self {
            TexError::UnsupportedFormat => "unsupported format",
            TexError::MalformedFile => "malformed file",
            TexError::IndexOutOfRange => "index out of range",
            TexError::UnsupportedOperation => "unsupported operation",
            TexError::IoFailure => "io failure",
        }
    }
}

} // verus!
