use vstd::prelude::*;

verus! {

/// The two ways an operation of this crate can fail. Neither leaves usable bytes behind.
#[derive(Debug, Copy, Clone, PartialEq, Eq, Structural)]
pub enum CborError {
    /// The input is not a well-formed object: wrong arity, wrong major type,
    /// a bad length prefix or a truncated buffer.
    DecodeError,
    /// The destination cannot hold the output, or a field has a length
    /// that the format does not admit.
    EncodeError,
}

} // verus!
