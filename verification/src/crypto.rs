//! The digests and message authentication codes of the `ring` crate.

use vstd::prelude::*;

verus! {

/// The SHA-256 digest of `data`.
pub uninterp spec fn sha256(data: Seq<u8>) -> Seq<u8>;

/// The HMAC-SHA256 tag of `message` under `key`.
pub uninterp spec fn hmac_sha256(key: Seq<u8>, message: Seq<u8>) -> Seq<u8>;

/// `ring::digest::digest` with `ring::digest::SHA256`, whose digests have 32
/// bytes and depend on the data alone.
#[verifier::external_body]
pub(crate) fn digest_sha256(data: &[u8]) -> (digest: Vec<u8>)
    requires
        data@.len() <= u32::MAX,
    ensures
        digest@ == sha256(data@),
        digest@.len() == 32,
{
    ring::digest::digest(&ring::digest::SHA256, data).as_ref().to_vec()
}

/// `ring::hmac::sign` with a `ring::hmac::Key` made of `key` for
/// `ring::hmac::HMAC_SHA256`: its tags have 32 bytes and depend on the key and
/// the message alone.
#[verifier::external_body]
pub(crate) fn sign_sha256(key: &[u8], message: &[u8]) -> (tag: Vec<u8>)
    requires
        key@.len() <= u32::MAX,
        message@.len() <= u32::MAX,
    ensures
        tag@ == hmac_sha256(key@, message@),
        tag@.len() == 32,
{
    let key = ring::hmac::Key::new(ring::hmac::HMAC_SHA256, key);
    ring::hmac::sign(&key, message).as_ref().to_vec()
}

/// `ring::hmac::verify`, which accepts the tag that `ring::hmac::sign` gives
/// and no other.
#[verifier::external_body]
pub(crate) fn verify_sha256(key: &[u8], message: &[u8], tag: &[u8]) -> (accepted: bool)
    requires
        key@.len() <= u32::MAX,
        message@.len() <= u32::MAX,
    ensures
        accepted == (tag@ == hmac_sha256(key@, message@)),
{
    let key = ring::hmac::Key::new(ring::hmac::HMAC_SHA256, key);
    ring::hmac::verify(&key, message, tag).is_ok()
}

/// `ring::rand::SystemRandom`, which fills the bytes with random ones or
/// fails. Nothing is said of the bytes: they are chance.
#[verifier::external_body]
fn random_bytes<const N: usize>() -> (bytes: Option<[u8; N]>) {
    let mut bytes = [0u8; N];
    match ring::rand::SecureRandom::fill(&ring::rand::SystemRandom::new(), &mut bytes) {
        Ok(()) => Some(bytes),
        Err(_) => None,
    }
}

/// Whether a draw of random bytes can come to `bytes`.
pub closed spec fn drawn<const N: usize>(bytes: Option<[u8; N]>) -> bool {
    call_ensures(random_bytes::<N>, (), bytes)
}

/// Draws random bytes, or `None` where there is no randomness.
pub(crate) fn draw<const N: usize>() -> (bytes: Option<[u8; N]>)
    ensures
        drawn(bytes),
{
    random_bytes::<N>()
}

} // verus!
