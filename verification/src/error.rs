//! The engine's error type.

use vstd::prelude::*;

verus! {

/// `std::io::Error`, carried through unopened.
#[verifier::external_type_specification]
#[verifier::external_body]
pub struct ExIoError(std::io::Error);

/// Why a request to the engine failed.
#[derive(Debug)]
pub enum Error {
    /// A socket operation failed.
    Io(std::io::Error),
    /// Storage or projection refused the work; the text says why.
    Projection(String),
    /// An actor of the engine could not be reached.
    Actor(String),
}

} // verus!
