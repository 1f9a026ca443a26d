//! The keyed-hash capability that the generator is parametric over, and its
//! bindings to HMAC over the SHA-2 family.

use hmac::Mac;
use vstd::prelude::*;

verus! {

/// A keyed hash with a fixed, non-zero tag length.
///
/// `tag` is the mathematical function that the algorithm computes; `mac`
/// computes it. The generator's contracts are stated over `tag` alone.
pub trait KeyedHash {
    /// Length in bytes of every tag.
    spec fn output_size() -> nat;

    /// The tag of `msg` under `key`.
    spec fn tag(key: Seq<u8>, msg: Seq<u8>) -> Seq<u8>;

    /// The tag length as a machine integer. An algorithm without output
    /// cannot be bound: the length is at least one.
    fn output_len() -> (n: usize)
        ensures
            n == Self::output_size(),
            n >= 1,
    ;

    /// Computes the tag of `msg` under `key` with a fresh MAC instance.
    fn mac(key: &[u8], msg: &[u8]) -> (tag: Vec<u8>)
        ensures
            tag@ == Self::tag(key@, msg@),
            tag@.len() == Self::output_size(),
    ;
}

/// HMAC-SHA-256 of `msg` under `key`, as `hmac::Hmac<sha2::Sha256>` computes it.
pub uninterp spec fn hmac_sha256(key: Seq<u8>, msg: Seq<u8>) -> Seq<u8>;

/// HMAC-SHA-384 of `msg` under `key`, as `hmac::Hmac<sha2::Sha384>` computes it.
pub uninterp spec fn hmac_sha384(key: Seq<u8>, msg: Seq<u8>) -> Seq<u8>;

/// HMAC-SHA-512 of `msg` under `key`, as `hmac::Hmac<sha2::Sha512>` computes it.
pub uninterp spec fn hmac_sha512(key: Seq<u8>, msg: Seq<u8>) -> Seq<u8>;

/// Runs `hmac::Hmac<sha2::Sha256>`: `new_varkey` with `key`, `input` with
/// `msg`, then `result`, whose code is copied out.
///
/// Trusted: the bytes returned are the HMAC-SHA-256 tag of `msg` under `key`,
/// a function of the two alone, and there are 32 of them (the digest's
/// `OutputSize`). `new_varkey` accepts a key of any length and never fails.
#[verifier::external_body]
fn hmac_sha256_tag(key: &[u8], msg: &[u8]) -> (tag: Vec<u8>)
    ensures
        tag@ == hmac_sha256(key@, msg@),
        tag@.len() == 32,
{
    let mut mac = hmac::Hmac::<sha2::Sha256>::new_varkey(key).unwrap();
    mac.input(msg);
    mac.result().code().as_slice().to_vec()
}

/// Runs `hmac::Hmac<sha2::Sha384>`: `new_varkey` with `key`, `input` with
/// `msg`, then `result`, whose code is copied out.
///
/// Trusted: the bytes returned are the HMAC-SHA-384 tag of `msg` under `key`,
/// a function of the two alone, and there are 48 of them (the digest's
/// `OutputSize`). `new_varkey` accepts a key of any length and never fails.
#[verifier::external_body]
fn hmac_sha384_tag(key: &[u8], msg: &[u8]) -> (tag: Vec<u8>)
    ensures
        tag@ == hmac_sha384(key@, msg@),
        tag@.len() == 48,
{
    let mut mac = hmac::Hmac::<sha2::Sha384>::new_varkey(key).unwrap();
    mac.input(msg);
    mac.result().code().as_slice().to_vec()
}

/// Runs `hmac::Hmac<sha2::Sha512>`: `new_varkey` with `key`, `input` with
/// `msg`, then `result`, whose code is copied out.
///
/// Trusted: the bytes returned are the HMAC-SHA-512 tag of `msg` under `key`,
/// a function of the two alone, and there are 64 of them (the digest's
/// `OutputSize`). `new_varkey` accepts a key of any length and never fails.
#[verifier::external_body]
fn hmac_sha512_tag(key: &[u8], msg: &[u8]) -> (tag: Vec<u8>)
    ensures
        tag@ == hmac_sha512(key@, msg@),
        tag@.len() == 64,
{
    let mut mac = hmac::Hmac::<sha2::Sha512>::new_varkey(key).unwrap();
    mac.input(msg);
    mac.result().code().as_slice().to_vec()
}

/// HMAC over SHA-256: 32-byte tags.
pub struct Sha256;

/// HMAC over SHA-384: 48-byte tags.
pub struct Sha384;

/// HMAC over SHA-512: 64-byte tags.
pub struct Sha512;

impl KeyedHash for Sha256 {
    open spec fn output_size() -> nat {
        32
    }

    open spec fn tag(key: Seq<u8>, msg: Seq<u8>) -> Seq<u8> {
        hmac_sha256(key, msg)
    }

    fn output_len() -> (n: usize) {
        32
    }

    fn mac(key: &[u8], msg: &[u8]) -> (tag: Vec<u8>) {
        hmac_sha256_tag(key, msg)
    }
}

impl KeyedHash for Sha384 {
    open spec fn output_size() -> nat {
        48
    }

    open spec fn tag(key: Seq<u8>, msg: Seq<u8>) -> Seq<u8> {
        hmac_sha384(key, msg)
    }

    fn output_len() -> (n: usize) {
        48
    }

    fn mac(key: &[u8], msg: &[u8]) -> (tag: Vec<u8>) {
        hmac_sha384_tag(key, msg)
    }
}

impl KeyedHash for Sha512 {
    open spec fn output_size() -> nat {
        64
    }

    open spec fn tag(key: Seq<u8>, msg: Seq<u8>) -> Seq<u8> {
        hmac_sha512(key, msg)
    }

    fn output_len() -> (n: usize) {
        64
    }

    fn mac(key: &[u8], msg: &[u8]) -> (tag: Vec<u8>) {
        hmac_sha512_tag(key, msg)
    }
}

} // verus!
