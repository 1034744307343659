//! Declarations of the outside error types that this library's own error
//! carries, so that signatures and fields may hold them. The library never
//! looks inside these values; it only attaches and returns them.

use vstd::prelude::*;

verus! {

/// Declares serde_yml's error type: the cause attached when the external
/// encoder or decoder fails.
#[verifier::external_type_specification]
#[verifier::external_body]
pub struct ExSerdeYmlError(serde_yml::Error);

/// Declares the standard I/O error type: the cause attached when a file or
/// sink operation fails.
#[verifier::external_type_specification]
#[verifier::external_body]
pub struct ExIoError(std::io::Error);

/// Declares the standard UTF-8 conversion error type: the cause attached
/// when observed bytes are not valid text.
#[verifier::external_type_specification]
#[verifier::external_body]
pub struct ExFromUtf8Error(std::string::FromUtf8Error);

} // verus!
