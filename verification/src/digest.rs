//! The hashing that the access control list keys its tables by.
use sha2::Digest;
use sha2::Sha256;
use vstd::prelude::*;
use vstd::utf8::decode_utf8;
use vstd::utf8::valid_utf8;

verus! {

/// The SHA-256 digest of a byte string.
pub uninterp spec fn sha256(data: Seq<u8>) -> Seq<u8>;

/// The text that `String::from_utf8_lossy` makes of a byte string.
pub uninterp spec fn utf8_lossy(bytes: Seq<u8>) -> Seq<char>;

/// Calls `sha2::Sha256::digest` (new hasher, one update, finalize) on the bytes.
/// Trusted: the digest is `sha256` of the bytes, and it is 32 bytes long, as the
/// output type `GenericArray<u8, U32>` fixes. Nothing else is claimed of it.
#[verifier::external_body]
pub(crate) fn sha256_digest(data: &[u8]) -> (d: Vec<u8>)
    ensures
        d@ == sha256(data@),
        d@.len() == 32,
{
    Sha256::digest(data).to_vec()
}

/// Calls `String::from_utf8_lossy` and takes the owned text. Trusted: the text is
/// `utf8_lossy` of the bytes, and where the bytes are valid UTF-8 it is what they
/// encode, as std documents. How invalid sequences are replaced is left unsaid.
#[verifier::external_body]
pub(crate) fn text_from_bytes_lossy(bytes: &[u8]) -> (t: String)
    ensures
        t@ == utf8_lossy(bytes@),
        valid_utf8(bytes@) ==> t@ == decode_utf8(bytes@),
{
    String::from_utf8_lossy(bytes).into_owned()
}

} // verus!
