//! The byte-string encoder of `minicbor`, as this crate uses it: on the tail of
//! a buffer of fixed size.

use crate::cbor::{bstr, bstr_len};
use vstd::prelude::*;

verus! {

/// The error of `minicbor`'s encoder. Nothing is read from it.
#[verifier::external_type_specification]
#[verifier::external_body]
#[verifier::reject_recursive_types(E)]
pub struct ExEncodeError<E>(minicbor::encode::Error<E>);

/// The error of `minicbor`'s writer into a slice that has run out.
#[verifier::external_type_specification]
#[verifier::external_body]
pub struct ExEndOfSlice(minicbor::encode::write::EndOfSlice);

/// Makes a `minicbor::Encoder` over `out` from index `at` on, calls
/// `Encoder::bytes` with `bytes` on it, and returns the length of what the
/// encoder's writer has left. Not verified; the contract claims of `minicbor`
/// that
/// - the call succeeds exactly where the head and the bytes fit behind `at`;
/// - it then writes `bstr(bytes)` at `at` and nothing else, and what the writer
///   has left is what lies behind that;
/// - on failure too, the buffer keeps its length and what lies before `at`.
#[verifier::external_body]
pub(crate) fn put_bytes(out: &mut [u8], at: usize, bytes: &[u8]) -> (left: Result<
    usize,
    minicbor::encode::Error<minicbor::encode::write::EndOfSlice>,
>)
    requires
        at <= old(out)@.len(),
    ensures
        final(out)@.len() == old(out)@.len(),
        final(out)@.subrange(0, at as int) == old(out)@.subrange(0, at as int),
        left is Ok <==> at + bstr_len(bytes@.len()) <= old(out)@.len(),
        left matches Ok(n) ==> {
            let end = at + bstr_len(bytes@.len());
            &&& n == old(out)@.len() - end
            &&& final(out)@.subrange(at as int, end) == bstr(bytes@)
            &&& final(out)@.subrange(end, old(out)@.len() as int) == old(out)@.subrange(
                end,
                old(out)@.len() as int,
            )
        },
{
    let mut encoder = minicbor::Encoder::new(&mut out[at..]);
    encoder.bytes(bytes)?;
    Ok(encoder.writer().len())
}

} // verus!
