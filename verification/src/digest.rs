//! SHA-256 and hexadecimal digests.
//!
//! The hashing itself is done by the `sha2` crate and the encoding by `hex`;
//! this module states what the rest of the library relies on from them.

use vstd::prelude::*;
use sha2::Digest;

verus! {

/// A running SHA-256 computation: a `sha2::Sha256` hasher.  Nothing of its
/// inside is known here but what it has taken in, which `absorbed` names.
#[verifier::external_body]
pub struct Sha256State {
    inner: sha2::Sha256,
}

/// The bytes that a hasher has taken in since it was created, in order.
pub uninterp spec fn absorbed(state: Sha256State) -> Seq<u8>;

/// The SHA-256 digest of a message, as `sha2` computes it.
pub uninterp spec fn sha256(message: Seq<u8>) -> Seq<u8>;

/// `sha2::Sha256::new`: a hasher that has taken in nothing yet.
#[verifier::external_body]
pub(crate) fn sha256_new() -> (state: Sha256State)
    ensures
        absorbed(state) == Seq::<u8>::empty(),
{
    Sha256State { inner: sha2::Sha256::new() }
}

/// `sha2::Sha256::update`: the hasher takes in `data` after what it already
/// holds.
#[verifier::external_body]
pub(crate) fn sha256_update(state: &mut Sha256State, data: &[u8])
    ensures
        absorbed(*final(state)) == absorbed(*old(state)) + data@,
{
    state.inner.update(data)
}

/// `sha2::Sha256::finalize`: the 32-byte SHA-256 digest of everything the
/// hasher has taken in.
#[verifier::external_body]
pub(crate) fn sha256_finalize(state: Sha256State) -> (digest: Vec<u8>)
    ensures
        digest@ == sha256(absorbed(state)),
        digest@.len() == 32,
{
    state.inner.finalize().to_vec()
}

/// The lowercase hexadecimal digit of a value below sixteen.
pub open spec fn hex_digit(nibble: int) -> char {
    seq!['0', '1', '2', '3', '4', '5', '6', '7', '8', '9', 'a', 'b', 'c', 'd', 'e', 'f'][nibble]
}

/// The lowercase hexadecimal encoding of a byte string: two digits per byte,
/// the high half first.
pub open spec fn hex_lower(bytes: Seq<u8>) -> Seq<char> {
    Seq::new(
        2 * bytes.len(),
        |i: int|
            if i % 2 == 0 {
                hex_digit(bytes[i / 2] as int / 16)
            } else {
                hex_digit(bytes[i / 2] as int % 16)
            },
    )
}

/// `hex::encode`: two lowercase hexadecimal digits for each byte.
#[verifier::external_body]
pub(crate) fn hex_encode(bytes: &[u8]) -> (text: String)
    ensures
        text@ == hex_lower(bytes@),
{
    hex::encode(bytes)
}

} // verus!
