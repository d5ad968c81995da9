//! Errors shared across the stack.

use vstd::prelude::*;

verus! {

/// `std::io::Error`, carried opaquely inside error values.
#[verifier::external_type_specification]
#[verifier::external_body]
pub struct ExIoError(std::io::Error);

/// Common error kinds used across FastLink.
#[derive(Debug)]
pub enum CommonError {
    Io(std::io::Error),
    Serialization(String),
    Config(String),
    Network(String),
    Crypto(String),
    Timeout,
    NotFound(String),
    InvalidInput(String),
    Internal(String),
}

} // verus!
