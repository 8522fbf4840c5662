//! UTF-8 checks on key bytes, delegated to the standard library.
//!
//! The decoder rejects a GET whose key is not valid UTF-8 and tolerates an
//! invalid SET key by lossy replacement, so both std routines appear here
//! behind named results.
use vstd::prelude::*;

verus! {

/// Whether `s` is valid UTF-8, as `core::str::from_utf8` decides it.
pub uninterp spec fn is_utf8(s: Seq<u8>) -> bool;

/// The bytes of `String::from_utf8_lossy(s)`: `s` with every invalid sequence
/// replaced by the replacement character.
pub uninterp spec fn lossy_of(s: Seq<u8>) -> Seq<u8>;

/// Relies on `core::str::from_utf8`, which returns `Ok` exactly when the
/// bytes are valid UTF-8; the outcome depends on the bytes alone.
#[verifier::external_body]
pub(crate) fn utf8_valid(b: &[u8]) -> (r: bool)
    ensures
        r == is_utf8(b@),
{
    core::str::from_utf8(b).is_ok()
}

/// Relies on `String::from_utf8_lossy`: a function of the bytes alone, and
/// documented to hand back the input unchanged when it is valid UTF-8.
#[verifier::external_body]
pub(crate) fn utf8_lossy(b: &Vec<u8>) -> (r: Vec<u8>)
    ensures
        r@ == lossy_of(b@),
        is_utf8(b@) ==> r@ == b@,
{
    String::from_utf8_lossy(b.as_slice()).into_owned().into_bytes()
}

} // verus!
