//! Failures reported by the S7 backend.

use vstd::prelude::*;

verus! {

/// Everything that can go wrong between the controller and a decoded value.
#[derive(Debug, Clone, PartialEq, Eq)]
pub enum S7Error {
    /// The transport could not complete a request. `err` is the transport's
    /// own account of the failure; nothing here looks inside it.
    S7ClientError { err: String },
    /// An operation was attempted before a successful connect.
    DeviceNotConnectedError,
    /// The number of raw bytes is not what the register's data type needs.
    MismatchedRegisterLengthError,
    /// The requested register name is not part of the device's definition.
    RegisterDoesNotExistsError,
    /// The register's definition is inconsistent with its data type.
    InvalidRegisterValue,
}

} // verus!
