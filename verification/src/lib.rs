//! A library for wrapping a build-tool run in an affectionate commentary:
//! the outcome of the wrapped command is classified into a response
//! category, a message template is drawn at random from a catalog for that
//! category, and each placeholder token in the template is replaced by an
//! independently random choice from a configurable, slash-separated option
//! list.

pub mod catalog;
pub mod classify;
pub mod expand;
pub mod options;
pub mod respond;
pub mod rng;
pub mod text;

use vstd::prelude::*;

verus! {

/// Every way a run of the library can fail.
#[derive(Clone, Copy, Debug, PartialEq, Eq, Structural)]
pub enum MommyError {
    /// The embedded response catalog does not have the expected shape.
    MalformedCatalog,
    /// A response category holds no templates at all.
    EmptyCategory,
    /// A placeholder was to be expanded from an empty option list.
    EmptyOptionList,
    /// The wrapped command's captured error stream is not valid UTF-8.
    InvalidOutputEncoding,
}

impl MommyError {
    /// A short description of the error, for reporting at the top level.
    pub fn message(&self) -> &'static str {
        match self {
            MommyError::MalformedCatalog => "the response catalog is malformed",
            MommyError::EmptyCategory => "a response category has no templates",
            MommyError::EmptyOptionList => "an option list is empty",
            MommyError::InvalidOutputEncoding => "captured output is not valid UTF-8",
        }
    }
}

} // verus!
