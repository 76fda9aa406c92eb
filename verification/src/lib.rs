//! Manifest-free event tracing: providers declare typed event signatures,
//! and each emission is serialized into a self-describing binary record
//! (a metadata blob plus one little-endian value buffer per field) that is
//! handed to the tracing subsystem as a scatter-gather descriptor list.

use vstd::prelude::*;

pub mod descriptor;
pub mod guid;
pub mod logger;
pub mod metadata;
pub mod provider;
pub mod text;
pub mod types;
pub mod wire;

verus! {

/// Errors reported by the tracing core. Nothing in this crate panics on a
/// reported failure: every fallible operation surfaces one of these values.
#[derive(Clone, Debug, PartialEq, Eq, Structural)]
pub enum Error {
    /// A Windows (Win32) error code.
    WindowsError(u32),
    /// Malformed identifier text handed to a parse operation.
    FormatError,
    /// The tracing subsystem refused the provider registration.
    RegistrationError(u32),
    /// One emission failed; the producer may ignore it and continue.
    SubmitError(u32),
    /// A schema or array field would overflow a 16-bit length prefix.
    FieldTooLarge,
    /// A variable-length value exceeds the width of its length field.
    UnsupportedSize,
}

} // verus!
