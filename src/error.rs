//! The one kind of failure: a GPIO operation that did not succeed.
use vstd::prelude::*;

verus! {

/// A failed pin operation, by the cause that the GPIO layer gave.
#[derive(Debug, PartialEq, Eq)]
pub enum GpioError {
    /// The device files could not be read or written.
    Io(String),
    /// A device file held something unexpected.
    Unexpected(String),
    /// A path did not name a GPIO line.
    InvalidPath(String),
    /// The platform does not offer the operation.
    Unsupported(String),
}

} // verus!
