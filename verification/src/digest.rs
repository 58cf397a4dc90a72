//! The SHA-1 digest of a message.

use sha1::{Digest, Sha1};
use vstd::prelude::*;

verus! {

/// The longest message, in bytes, that SHA-1 is defined for: its length in
/// bits is written into the last block as a 64-bit number.
pub const MAX_MESSAGE_LEN: u64 = 0x1fff_ffff_ffff_ffff;

/// Whether `message` is short enough to have a SHA-1 digest.
pub open spec fn has_digest(message: Seq<u8>) -> bool {
    message.len() <= MAX_MESSAGE_LEN
}

/// The SHA-1 digest of `message`, as the `sha1` crate computes it.
///
/// The value is a function of the message alone. Nothing is stated of it
/// but that [`digest`] returns it.
pub uninterp spec fn sha1_of(message: Seq<u8>) -> Seq<u8>;

/// Calls `sha1::Sha1::digest` (the `Digest::digest` method of the `digest`
/// crate, which feeds the whole message to a fresh hasher and finalizes it).
///
/// Trusted: the twenty bytes returned are the SHA-1 digest of `message`; the
/// contract gives that value the name `sha1_of(message@)`. The outside
/// function multiplies the length of the message by eight in 64 bits, so a
/// message whose length in bits does not fit is left out.
#[verifier::external_body]
fn sha1_digest(message: &[u8]) -> (result: [u8; 20])
    requires
        has_digest(message@),
    ensures
        result@ == sha1_of(message@),
{
    Sha1::digest(message).into()
}

/// The SHA-1 digest of `message`.
///
/// Every message whose length in bits fits in 64 bits is accepted, the empty
/// one included. The result has exactly twenty bytes and depends on the bytes
/// of the message alone.
pub fn digest(message: &[u8]) -> (result: [u8; 20])
    requires
        has_digest(message@),
    ensures
        result@ == sha1_of(message@),
        result@.len() == 20,
        sha1_of(message@).len() == 20,
{
    sha1_digest(message)
}

/// Determinism: two messages with the same bytes have the same digest.
pub proof fn lemma_digest_deterministic(first: Seq<u8>, second: Seq<u8>)
    requires
        first =~= second,
    ensures
        sha1_of(first) == sha1_of(second),
{
}

} // verus!
