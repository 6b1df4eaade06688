//! HMAC-SHA256, computed by the `hmac` and `sha2` crates.

use hmac::{Hmac, Mac};
use sha2::Sha256;
use vstd::prelude::*;

verus! {

/// The HMAC-SHA256 tag of `message` under `key`.
pub uninterp spec fn hmac_sha256_tag(key: Seq<u8>, message: Seq<u8>) -> Seq<u8>;

/// Computes HMAC-SHA256 with `hmac::Hmac<sha2::Sha256>`: `new_from_slice(key)`,
/// `update(message)`, `finalize()`. Trusted claims: the tag is
/// `hmac_sha256_tag(key, message)`, a function of the two byte sequences alone,
/// and it is 32 bytes long (the SHA-256 output size). `new_from_slice` of
/// `HmacCore` accepts keys of every length (longer keys are hashed first), so
/// the `expect` never fires.
#[verifier::external_body]
pub(crate) fn hmac_sha256(key: &[u8], message: &[u8]) -> (tag: Vec<u8>)
    ensures
        tag@ == hmac_sha256_tag(key@, message@),
        tag@.len() == 32,
{
    let mut mac = <Hmac<Sha256> as Mac>::new_from_slice(key).expect("HMAC accepts any key length");
    mac.update(message);
    mac.finalize().into_bytes().to_vec()
}

} // verus!
