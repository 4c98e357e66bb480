//! The two message digests behind lulzcoin addresses and block hashes.

use vstd::prelude::*;
use crypto::digest::Digest;
use crypto::ripemd160::Ripemd160;
use crypto::sha2::Sha256;
use crate::encoding::hex_lower;

verus! {

/// The SHA-256 digest that `crypto::sha2::Sha256` computes over `data`.
pub uninterp spec fn sha256_digest(data: Seq<u8>) -> Seq<u8>;

/// The RIPEMD-160 digest that `crypto::ripemd160::Ripemd160` computes over `data`.
pub uninterp spec fn ripemd160_digest(data: Seq<u8>) -> Seq<u8>;

/// SHA-256 of `data`, as lower-case hex text.
///
/// Trusted: a fresh `crypto::sha2::Sha256`, fed `data` with `Digest::input`,
/// then read with `Digest::result_str`.  In rust-crypto 0.2 `result_str`
/// writes the `output_bits() / 8 == 32` digest bytes with rustc-serialize's
/// lower-case `to_hex`, so the text is 64 characters long.  The digest itself
/// is named `sha256_digest`; nothing is stated of its bytes.
#[verifier::external_body]
pub(crate) fn sha256_hex(data: &[u8]) -> (res: String)
    ensures
        res@ == hex_lower(sha256_digest(data@)),
        res@.len() == 64,
{
    let mut hasher = Sha256::new();
    hasher.input(data);
    hasher.result_str()
}

/// RIPEMD-160 of `data`, as lower-case hex text.
///
/// Trusted: a fresh `crypto::ripemd160::Ripemd160`, fed `data` with
/// `Digest::input`, then read with `Digest::result_str`, which writes the
/// 20 digest bytes (`output_bits() == 160`) as lower-case hex, 40 characters.
/// The digest is named `ripemd160_digest`; nothing is stated of its bytes.
#[verifier::external_body]
pub(crate) fn ripemd160_hex(data: &[u8]) -> (res: String)
    ensures
        res@ == hex_lower(ripemd160_digest(data@)),
        res@.len() == 40,
{
    let mut hasher = Ripemd160::new();
    hasher.input(data);
    hasher.result_str()
}

} // verus!
