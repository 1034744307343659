//! Annotating YAML-style key/value text with comments.
//!
//! The library recognizes mapping keys in a line-oriented stream of
//! structured text, injects caller-supplied comments directly above each
//! recognized key (indented to match), and splits multi-document files on
//! `---` separator lines.

use vstd::prelude::*;

pub mod append;
mod chars;
pub mod comments;
mod exttypes;
pub mod lazy;
mod lines;
pub mod recognize;

verus! {

/// The errors surfaced by this library: a failed operation on the underlying
/// file or sink, a failure of the external encoder or decoder, and observed
/// bytes that are not valid text.
#[derive(Debug)]
pub enum SytError {
    IoError(std::io::Error),
    YamlError(serde_yml::Error),
    FromUtf8Error(std::string::FromUtf8Error),
}

impl From<std::io::Error> for SytError {
    fn from(err: std::io::Error) -> (r: SytError) {
        SytError::IoError(err)
    }
}

impl vstd::std_specs::convert::FromSpecImpl<std::io::Error> for SytError {
    open spec fn obeys_from_spec() -> bool {
        true
    }

    open spec fn from_spec(err: std::io::Error) -> SytError {
        SytError::IoError(err)
    }
}

impl From<serde_yml::Error> for SytError {
    fn from(err: serde_yml::Error) -> (r: SytError) {
        SytError::YamlError(err)
    }
}

impl vstd::std_specs::convert::FromSpecImpl<serde_yml::Error> for SytError {
    open spec fn obeys_from_spec() -> bool {
        true
    }

    open spec fn from_spec(err: serde_yml::Error) -> SytError {
        SytError::YamlError(err)
    }
}

impl From<std::string::FromUtf8Error> for SytError {
    fn from(err: std::string::FromUtf8Error) -> (r: SytError) {
        SytError::FromUtf8Error(err)
    }
}

impl vstd::std_specs::convert::FromSpecImpl<std::string::FromUtf8Error> for SytError {
    open spec fn obeys_from_spec() -> bool {
        true
    }

    open spec fn from_spec(err: std::string::FromUtf8Error) -> SytError {
        SytError::FromUtf8Error(err)
    }
}

} // verus!
