//! The random draws, made by the `fastrand` crate's thread-local generator.
//!
//! Nothing here is proved: each function states what `fastrand` documents of
//! every value that it may hand back, and no more.

use vstd::prelude::*;

verus! {

/// Whether `b` is an ASCII letter or an ASCII digit.
pub open spec fn is_alphanumeric(b: u8) -> bool {
    ||| 48 <= b <= 57
    ||| 65 <= b <= 90
    ||| 97 <= b <= 122
}

/// Draws with `fastrand::i32` from the inclusive range `low..=high`.
///
/// Trusted: `fastrand::i32` returns a value inside the range that it is
/// given, and panics on an empty range, which `low <= high` rules out.
#[verifier::external_body]
pub(crate) fn random_i32(low: i32, high: i32) -> (drawn: i32)
    requires
        low <= high,
    ensures
        low <= drawn <= high,
{
    fastrand::i32(low..=high)
}

/// Draws one character with `fastrand::alphanumeric` and returns its byte.
///
/// Trusted: `fastrand::alphanumeric` picks from the letters `A` to `Z`, `a`
/// to `z` and the digits `0` to `9`, all of which are single ASCII bytes.
#[verifier::external_body]
pub(crate) fn random_alphanumeric() -> (drawn: u8)
    ensures
        is_alphanumeric(drawn),
{
    fastrand::alphanumeric() as u8
}

} // verus!
