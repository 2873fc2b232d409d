//! Base-58 text encoding of byte strings, by the bitcoin alphabet.
//!
//! The encoding itself lives in an outside crate; this module names its
//! result so that contracts can speak of it exactly. Base-58 encoding is a
//! positional base conversion that keeps leading zero bytes as leading `'1'`
//! digits, so distinct byte strings always encode to distinct text, and
//! every text over the alphabet is the encoding of exactly one byte string.

use vstd::prelude::*;

verus! {

/// The base-58 text of a byte string.
pub uninterp spec fn b58_of(b: Seq<u8>) -> Seq<char>;

/// Relies on `bs58::encode(..).into_string()`: the base-58 text of the
/// bytes, a function of the bytes alone.
#[verifier::external_body]
pub fn b58_encode(b: &[u8]) -> (r: String)
    ensures
        r@ == b58_of(b@),
{
    bs58::encode(b).into_string()
}

/// Relies on `bs58::decode(..).into_vec()`: inverts base-58 encoding. It
/// fails exactly on text containing a character outside the alphabet, and
/// such text is the encoding of no byte string; on any other text it returns
/// the one byte string that encodes to it.
#[verifier::external_body]
pub fn b58_decode(s: &str) -> (r: Option<Vec<u8>>)
    ensures
        r matches Some(b) ==> b58_of(b@) == s@,
        r matches Some(b) ==> forall|other: Seq<u8>| b58_of(other) == s@ ==> other == b@,
        r is None ==> forall|other: Seq<u8>| b58_of(other) != s@,
{
    bs58::decode(s).into_vec().ok()
}

} // verus!
