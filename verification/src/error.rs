//! The error taxonomy of the tool.

use vstd::prelude::*;

verus! {

/// Every way an invocation can fail.
///
/// `DeviceNotFound` and `IoError` arise only at the filesystem edge and are
/// produced by the binary; the parsing and validation functions of this
/// library produce the remaining variants.
#[derive(Clone, Copy, Debug, PartialEq, Eq, Structural)]
pub enum BacklightError {
    /// No backlight control interface is present on the host.
    DeviceNotFound,
    /// A control file could not be opened, read or written.
    IoError,
    /// A control file's contents are not a valid unsigned decimal integer.
    ParseError,
    /// The value argument does not match the accepted grammar, or its
    /// magnitude does not fit the arithmetic type it needs.
    InvalidArgument,
    /// A write was requested with a value above the device maximum.
    InvalidValue,
}

} // verus!
