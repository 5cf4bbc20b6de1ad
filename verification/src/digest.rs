//! Content digests: the SHA-256 hash by which content is told apart, and its
//! display in hexadecimal.

use vstd::prelude::*;

verus! {

/// The number of bytes of a content digest.
pub const DIGEST_LEN: usize = 32;

/// The SHA-256 digest of `data`.
pub uninterp spec fn sha256_digest(data: Seq<u8>) -> Seq<u8>;

/// Calls `sha2::Sha256::digest`. The digest is a function of the bytes hashed
/// and of nothing else, and is 32 bytes long; which bytes it holds is not
/// stated here.
#[verifier::external_body]
pub(crate) fn sha256(data: &[u8]) -> (digest: Vec<u8>)
    ensures
        digest@ == sha256_digest(data@),
        digest@.len() == DIGEST_LEN,
{
    <sha2::Sha256 as sha2::Digest>::digest(data).to_vec()
}

/// The same bytes always have the same digest: hashing unchanged content
/// again cannot give another value.
pub proof fn lemma_digest_is_deterministic(first: Seq<u8>, second: Seq<u8>)
    requires
        first =~= second,
    ensures
        sha256_digest(first) == sha256_digest(second),
{
}

/// The sixteen hexadecimal digits, lower case.
pub open spec fn spec_hex_digits() -> Seq<char> {
    seq!['0', '1', '2', '3', '4', '5', '6', '7', '8', '9', 'a', 'b', 'c', 'd', 'e', 'f']
}

/// The text of `bytes` in lower-case hexadecimal: two digits for each byte,
/// the high half first.
pub open spec fn spec_hex(bytes: Seq<u8>) -> Seq<char> {
    Seq::new(
        2 * bytes.len(),
        |at: int|
            if at % 2 == 0 {
                spec_hex_digits()[bytes[at / 2] as int / 16]
            } else {
                spec_hex_digits()[bytes[at / 2] as int % 16]
            },
    )
}

/// Calls `hex::encode`, which writes each byte as two lower-case hexadecimal
/// digits, the high half first.
#[verifier::external_body]
pub(crate) fn hex_encode(bytes: &[u8]) -> (text: String)
    ensures
        text@ == spec_hex(bytes@),
{
    hex::encode(bytes)
}

/// The text of a digest in lower-case hexadecimal, as progress lines show it.
pub fn digest_text(digest: &[u8]) -> (text: String)
    ensures
        text@ == spec_hex(digest@),
        text@.len() == 2 * digest@.len(),
{
    hex_encode(digest)
}

} // verus!
