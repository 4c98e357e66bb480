//! Lulzcoin addresses.  A public key (DER bytes) becomes a 50-character
//! "binary address" of hex pairs: an 8-digit checksum, the version pair
//! `00`, and the 40-digit RIPEMD-160 of the SHA-256 text of the key.  The
//! address proper is the Base58 text of the 25 bytes those pairs stand for.

use vstd::prelude::*;
use vstd::string::StringSliceAdditionalSpecFns;
use crate::wallet::Wallet;
use crate::digest::{sha256_digest, ripemd160_digest, sha256_hex, ripemd160_hex};
use crate::base58::{base58_decoding, base58_encode, base58_encoding, lemma_base58_round_trip};
use crate::encoding::{
    ascii_bytes, decode_pair, is_lower_hex_digit, hex_lower, is_pair_text,
    lemma_hex_is_ascii, lemma_hex_pairs_decode, pair_bytes, pair_value,
};

verus! {

broadcast use vstd::string::is_ascii_spec_bytes;

/// The version pair followed by the RIPEMD-160 hex text of the SHA-256 hex
/// text of `pubkey`.
pub open spec fn versioned_key_hash(pubkey: Seq<u8>) -> Seq<char> {
    seq!['0', '0'] + hex_lower(ripemd160_digest(ascii_bytes(hex_lower(sha256_digest(pubkey)))))
}

/// The first eight hex digits of SHA-256 applied twice (each time to the
/// previous hex text) to `payload`.
pub open spec fn address_checksum(payload: Seq<char>) -> Seq<char> {
    hex_lower(sha256_digest(ascii_bytes(hex_lower(sha256_digest(ascii_bytes(payload)))))).take(8)
}

/// The binary address of a public key: checksum, then versioned key hash.
pub open spec fn spec_binaddr(pubkey: Seq<u8>) -> Seq<char> {
    let payload = versioned_key_hash(pubkey);
    address_checksum(payload) + payload
}

/// Text that `generate_address` accepts: 25 pairs, each reading as a byte.
pub open spec fn valid_binaddr(binaddr: Seq<char>) -> bool {
    is_pair_text(binaddr, 25)
}

/// The address of a binary address: Base58 of the bytes its pairs stand for.
pub open spec fn spec_address(binaddr: Seq<char>) -> Seq<char> {
    base58_encoding(pair_bytes(binaddr))
}

/// The address that belongs to a public key.
pub open spec fn address_of(pubkey: Seq<u8>) -> Seq<char> {
    spec_address(spec_binaddr(pubkey))
}

/// The 25 bytes behind the binary address of a public key: the first four
/// checksum bytes, the version byte 0, then the 20-byte key hash.
pub open spec fn binaddr_bytes(pubkey: Seq<u8>) -> Seq<u8> {
    let payload = versioned_key_hash(pubkey);
    sha256_digest(ascii_bytes(hex_lower(sha256_digest(ascii_bytes(payload))))).take(4)
        + seq![0u8]
        + ripemd160_digest(ascii_bytes(hex_lower(sha256_digest(pubkey))))
}

proof fn lemma_take_hex(bytes: Seq<u8>, n: nat)
    requires
        n <= bytes.len(),
    ensures
        hex_lower(bytes).take(2 * n as int) == hex_lower(bytes.take(n as int)),
{
    assert(hex_lower(bytes).take(2 * n as int) =~= hex_lower(bytes.take(n as int)));
}

proof fn lemma_hex_concat(a: Seq<u8>, b: Seq<u8>)
    ensures
        hex_lower(a + b) == hex_lower(a) + hex_lower(b),
{
    assert forall|i: int| 0 <= i < hex_lower(a + b).len() implies #[trigger] hex_lower(a + b)[i] == (
    hex_lower(a) + hex_lower(b))[i] by {
        if i >= 2 * a.len() {
            assert((i - 2 * a.len()) / 2 == i / 2 - a.len());
            assert((i - 2 * a.len()) % 2 == i % 2);
        }
    }
    assert(hex_lower(a + b) =~= hex_lower(a) + hex_lower(b));
}

proof fn lemma_binaddr_shape(pubkey: Seq<u8>, sha1: Seq<u8>, rip: Seq<u8>)
    requires
        sha1 == sha256_digest(ascii_bytes(hex_lower(sha256_digest(ascii_bytes(
            versioned_key_hash(pubkey),
        ))))),
        rip == ripemd160_digest(ascii_bytes(hex_lower(sha256_digest(pubkey)))),
        hex_lower(sha1).len() == 64,
        hex_lower(rip).len() == 40,
    ensures
        valid_binaddr(spec_binaddr(pubkey)),
        pair_bytes(spec_binaddr(pubkey)) == binaddr_bytes(pubkey),
{
    let head = sha1.take(4);
    let whole = head + seq![0u8] + rip;
    lemma_take_hex(sha1, 4);
    lemma_hex_pairs_decode(whole);
    lemma_hex_concat(head, seq![0u8]);
    lemma_hex_concat(head + seq![0u8], rip);
    assert(hex_lower(seq![0u8]) =~= seq!['0', '0']);
    assert(spec_binaddr(pubkey) =~= hex_lower(whole));
}

impl Wallet {
    /// The binary address (50 hex characters) of a DER public key.
    pub fn generate_binaddr(pubkey: &Vec<u8>) -> (res: String)
        ensures
            res@ == spec_binaddr(pubkey@),
            valid_binaddr(res@),
            pair_bytes(res@) == binaddr_bytes(pubkey@),
            res@.subrange(0, 8) == address_checksum(versioned_key_hash(pubkey@)),
            address_checksum(versioned_key_hash(pubkey@)).len() == 8,
            res@.subrange(8, 10) == seq!['0', '0'],
            res@.subrange(10, 50) == hex_lower(
                ripemd160_digest(ascii_bytes(hex_lower(sha256_digest(pubkey@)))),
            ),
            binaddr_bytes(pubkey@).len() == 25,
            binaddr_bytes(pubkey@)[4] == 0,
            forall|i: int| 0 <= i < res@.len() ==> is_lower_hex_digit(#[trigger] res@[i]),
    {
        let sha256digest = sha256_hex(pubkey.as_slice());
        let text1 = sha256digest.as_str();
        proof {
            lemma_hex_is_ascii(sha256_digest(pubkey@));
            assert(vstd::string::is_ascii(text1));
            assert(text1.spec_bytes() =~= ascii_bytes(sha256digest@));
        }
        let ripemd = ripemd160_hex(text1.as_bytes());
        proof {
            reveal_strlit("00");
        }
        let ripemd160digest = "00".to_owned().concat(ripemd.as_str());
        let text2 = ripemd160digest.as_str();
        proof {
            lemma_hex_is_ascii(ripemd160_digest(ascii_bytes(sha256digest@)));
            assert(ripemd160digest@ =~= versioned_key_hash(pubkey@));
            assert(vstd::utf8::is_ascii_chars(ripemd160digest@));
            assert(vstd::string::is_ascii(text2));
            assert(text2.spec_bytes() =~= ascii_bytes(ripemd160digest@));
        }
        let sha256digest2 = sha256_hex(text2.as_bytes());
        let text3 = sha256digest2.as_str();
        proof {
            lemma_hex_is_ascii(sha256_digest(ascii_bytes(ripemd160digest@)));
            assert(vstd::string::is_ascii(text3));
            assert(text3.spec_bytes() =~= ascii_bytes(sha256digest2@));
        }
        let sha256digest3 = sha256_hex(text3.as_bytes());
        proof {
            lemma_hex_is_ascii(sha256_digest(ascii_bytes(sha256digest2@)));
        }
        let checksum = sha256digest3.as_str().substring_ascii(0, 8).to_owned();
        let res = checksum.concat(ripemd160digest.as_str());
        proof {
            assert(res@ =~= spec_binaddr(pubkey@));
            lemma_binaddr_shape(
                pubkey@,
                sha256_digest(ascii_bytes(sha256digest2@)),
                ripemd160_digest(ascii_bytes(sha256digest@)),
            );
            assert(res@.subrange(0, 8) =~= address_checksum(versioned_key_hash(pubkey@)));
            assert(res@.subrange(8, 10) =~= seq!['0', '0']);
            assert(res@.subrange(10, 50) =~= hex_lower(ripemd160_digest(ascii_bytes(sha256digest@))));
            assert(res@.subrange(8, 50) =~= ripemd160digest@);
            assert(res@.subrange(0, 8) =~= sha256digest3@.subrange(0, 8));
            assert forall|i: int| 0 <= i < res@.len() implies is_lower_hex_digit(#[trigger] res@[i]) by {
                if i < 8 {
                    assert(res@[i] == sha256digest3@[i]);
                } else if i >= 10 {
                    assert(res@[i] == ripemd@[i - 10]);
                }
            }
        }
        res
    }

    /// The Base58 address of a binary address.  The text must be 25 pairs that
    /// each read as a signed hex byte (any `generate_binaddr` result is).
    pub fn generate_address(binaddr: &String) -> (res: String)
        requires
            valid_binaddr(binaddr@),
        ensures
            res@ == spec_address(binaddr@),
            base58_decoding(res@) == pair_bytes(binaddr@),
            pair_bytes(binaddr@).len() == 25,
    {
        let text = binaddr.as_str();
        let mut binvec: Vec<u8> = Vec::new();
        let mut i: usize = 0;
        while i < 25
            invariant
                valid_binaddr(text@),
                i <= 25,
                binvec@.len() == i,
                forall|j: int| 0 <= j < i ==> binvec@[j] == pair_bytes(text@)[j],
            decreases 25 - i,
        {
            let hi = text.get_char(2 * i);
            let lo = text.get_char(2 * i + 1);
            assert(pair_value(text@[2 * i as int], text@[2 * i as int + 1]) is Some);
            let byte = decode_pair(hi, lo);
            match byte {
                Some(b) => binvec.push(b),
                None => {
                    assert(false);
                },
            }
            i = i + 1;
        }
        assert(binvec@ =~= pair_bytes(text@));
        proof {
            lemma_base58_round_trip(binvec@);
        }
        base58_encode(binvec.as_slice())
    }
}

} // verus!
