//! Wallet files at rest: a key derived from the passphrase seals the
//! serialized wallet with ChaCha20-Poly1305 (IETF, 12-byte nonce); the nonce
//! is kept beside the sealed bytes.

use vstd::prelude::*;
use sodiumoxide::crypto::aead::chacha20poly1305_ietf as aead;
use sodiumoxide::crypto::pwhash::scryptsalsa208sha256 as pwhash;

verus! {

/// The fixed salt of wallet key derivation (the text "jt)oVdr42&8*r~?&" twice).
pub const SALT: [u8; 32] = [
    0x6a, 0x74, 0x29, 0x6f, 0x56, 0x64, 0x72, 0x34,
    0x32, 0x26, 0x38, 0x2a, 0x72, 0x7e, 0x3f, 0x26,
    0x6a, 0x74, 0x29, 0x6f, 0x56, 0x64, 0x72, 0x34,
    0x32, 0x26, 0x38, 0x2a, 0x72, 0x7e, 0x3f, 0x26,
];

/// The scrypt operations limit of wallet key derivation.
pub const OPS_LIMIT: usize = 11;

/// The scrypt memory limit, in bytes, of wallet key derivation.
pub const MEM_LIMIT: usize = 16 * 1024;

/// Length in bytes of a sealing nonce.
pub const NONCE_BYTES: usize = 12;

/// Length in bytes of the authentication tag that sealing appends.
pub const TAG_BYTES: usize = 16;

/// The longest message the cipher seals (64 * (2^32 - 1) bytes).
pub const MAX_MESSAGE_BYTES: u64 = 274877906880;

/// The error when the passphrase and its confirmation differ.
pub const MISMATCH: &'static str = "Passphrases did not match!";

/// The error when a sealed wallet does not open.
pub const UNDECRYPTABLE: &'static str = "Could not decrypt wallet file.";

/// The key that scrypt-salsa208-sha256 derives from the UTF-8 bytes of
/// `password` with the given salt and limits.
pub uninterp spec fn scrypt_key(password: Seq<char>, salt: Seq<u8>, ops_limit: nat, mem_limit: nat) -> Seq<u8>;

/// The sealed bytes (ciphertext, then tag) of `message` under `nonce` and `key`.
pub uninterp spec fn aead_seal(message: Seq<u8>, nonce: Seq<u8>, key: Seq<u8>) -> Seq<u8>;

/// The message that `sealed` opens to under `nonce` and `key`, or `None`
/// where it does not authenticate.
pub uninterp spec fn aead_open(sealed: Seq<u8>, nonce: Seq<u8>, key: Seq<u8>) -> Option<Seq<u8>>;

/// Thirty-two zero bytes.
pub open spec fn zero_key() -> Seq<u8> {
    Seq::new(32, |i: int| 0u8)
}

/// The key that `pwhash::derive_key` writes.
///
/// Trusted: `sodiumoxide::crypto::pwhash::scryptsalsa208sha256::derive_key`
/// into a zeroed 32-byte buffer; the result of the call is not looked at.
/// Where the derivation completes the buffer holds `scrypt_key` of the
/// arguments; where it does not (the machine refuses the memory), libsodium
/// has zeroed the buffer and written nothing more.  Which of the two happens
/// is not stated.
#[verifier::external_body]
fn derive_key(password: &str, salt: &[u8; 32], ops_limit: usize, mem_limit: usize) -> (key: [u8; 32])
    ensures
        key@ == scrypt_key(password@, salt@, ops_limit as nat, mem_limit as nat) || key@ == zero_key(),
{
    let mut key = [0u8; 32];
    let _ = pwhash::derive_key(
        &mut key,
        password.as_bytes(),
        &pwhash::Salt(*salt),
        pwhash::OpsLimit(ops_limit),
        pwhash::MemLimit(mem_limit),
    );
    key
}

/// Twelve random bytes.
///
/// Trusted: `sodiumoxide::randombytes::randombytes_into`; the bytes are
/// random and nothing is stated of them.
#[verifier::external_body]
fn random_nonce() -> (nonce: [u8; 12]) {
    let mut nonce = [0u8; 12];
    sodiumoxide::randombytes::randombytes_into(&mut nonce);
    nonce
}

/// `message` sealed under `nonce` and `key`.
///
/// Trusted: `sodiumoxide::crypto::aead::chacha20poly1305_ietf::seal` with no
/// additional data.  Its result, a function of the arguments, is named
/// `aead_seal`; it is the message length plus the 16-byte tag long, and
/// `open` with the same nonce and key gives the message back (the
/// documented round trip of the construction).  libsodium aborts on messages
/// longer than `MAX_MESSAGE_BYTES`, so those are left out.
#[verifier::external_body]
fn aead_seal_bytes(message: &[u8], nonce: &[u8; 12], key: &[u8; 32]) -> (res: Vec<u8>)
    requires
        message@.len() <= MAX_MESSAGE_BYTES,
    ensures
        res@ == aead_seal(message@, nonce@, key@),
        res@.len() == message@.len() + TAG_BYTES,
        aead_open(res@, nonce@, key@) == Some(message@),
{
    aead::seal(message, None, &aead::Nonce(*nonce), &aead::Key(*key))
}

/// The message that `sealed` opens to under `nonce` and `key`.
///
/// Trusted: `sodiumoxide::crypto::aead::chacha20poly1305_ietf::open` with no
/// additional data; its result, a function of the arguments, is named
/// `aead_open`.  Input shorter than the tag never opens.
#[verifier::external_body]
fn aead_open_bytes(sealed: &[u8], nonce: &[u8; 12], key: &[u8; 32]) -> (res: Option<Vec<u8>>)
    ensures
        match res {
            Some(message) => aead_open(sealed@, nonce@, key@) == Some(message@),
            None => aead_open(sealed@, nonce@, key@) is None,
        },
        sealed@.len() < TAG_BYTES ==> res is None,
{
    aead::open(sealed, None, &aead::Nonce(*nonce), &aead::Key(*key)).ok()
}

/// The wallet key of a passphrase: scrypt with the fixed salt and limits,
/// or all zeros where the derivation could not complete.
pub fn wallet_key(password: &str) -> (key: [u8; 32])
    ensures
        key@ == scrypt_key(password@, SALT@, OPS_LIMIT as nat, MEM_LIMIT as nat) || key@ == zero_key(),
{
    derive_key(password, &SALT, OPS_LIMIT, MEM_LIMIT)
}

/// Accepts a passphrase only when it was typed the same way twice.
pub fn check_passphrases(password: &String, confirmation: &String) -> (res: Result<(), &'static str>)
    ensures
        res is Ok <==> password@ == confirmation@,
        res matches Err(msg) ==> msg@ == MISMATCH@,
{
    if *password == *confirmation {
        Ok(())
    } else {
        Err(MISMATCH)
    }
}

/// A sealed wallet: the nonce it was sealed under and the sealed bytes.
pub struct SealedWallet {
    pub nonce: [u8; 12],
    pub ciphertext: Vec<u8>,
}

/// Seals serialized wallet bytes under `key` with a fresh random nonce.
/// Opening the result with the same key gives the bytes back.
pub fn seal_wallet(serialized: &[u8], key: &[u8; 32]) -> (sealed: SealedWallet)
    requires
        serialized@.len() <= MAX_MESSAGE_BYTES,
    ensures
        sealed.ciphertext@ == aead_seal(serialized@, sealed.nonce@, key@),
        sealed.ciphertext@.len() == serialized@.len() + TAG_BYTES,
        spec_open_wallet(sealed.nonce@, sealed.ciphertext@, key@) == Some(serialized@),
        aead_open(sealed.ciphertext@, sealed.nonce@, key@) == Some(serialized@),
{
    let nonce = random_nonce();
    let ciphertext = aead_seal_bytes(serialized, &nonce, key);
    SealedWallet { nonce, ciphertext }
}

/// The serialized wallet inside `ciphertext`, or `None` where it does not open.
pub open spec fn spec_open_wallet(nonce: Seq<u8>, ciphertext: Seq<u8>, key: Seq<u8>) -> Option<Seq<u8>> {
    aead_open(ciphertext, nonce, key)
}

/// Opens a sealed wallet with `key`; fails with `UNDECRYPTABLE` where the
/// bytes do not authenticate under that nonce and key.
pub fn open_wallet(nonce: &[u8; 12], ciphertext: &[u8], key: &[u8; 32]) -> (res: Result<Vec<u8>, &'static str>)
    ensures
        match res {
            Ok(serialized) => spec_open_wallet(nonce@, ciphertext@, key@) == Some(serialized@),
            Err(msg) => spec_open_wallet(nonce@, ciphertext@, key@) is None && msg@ == UNDECRYPTABLE@,
        },
        ciphertext@.len() < TAG_BYTES ==> res is Err,
        res matches Ok(serialized) ==> aead_open(ciphertext@, nonce@, key@) == Some(serialized@),
        aead_open(ciphertext@, nonce@, key@) is None ==> (res matches Err(msg) && msg@ == UNDECRYPTABLE@),
        aead_open(ciphertext@, nonce@, key@) is Some ==> res is Ok,
{
    match aead_open_bytes(ciphertext, nonce, key) {
        Some(serialized) => Ok(serialized),
        None => Err(UNDECRYPTABLE),
    }
}

} // verus!
