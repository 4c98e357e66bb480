//! The lulzcoin wallet: addresses with their balances and the RSA key pairs
//! that own them.

use vstd::prelude::*;
use openssl::rsa::Rsa;
use crate::address::address_of;
use crate::encoding::{hex_encode, hex_lower};

verus! {

/// The size in bits of the RSA modulus in a DER public key.
pub uninterp spec fn rsa_modulus_bits(public_der: Seq<u8>) -> nat;

/// The DER public key (SubjectPublicKeyInfo) of the RSA key that a DER
/// private key (PKCS#1 RSAPrivateKey) encodes.
pub uninterp spec fn rsa_public_of_private(private_der: Seq<u8>) -> Seq<u8>;

/// A fresh RSA key pair of `bits` bits as DER bytes (public, private), or
/// `None` where OpenSSL reports an error.
///
/// Trusted: `openssl::rsa::Rsa::generate`, then `public_key_to_der` and
/// `private_key_to_der` on the key it made.  The key is random.  Only the
/// wallet's key size, `KEY_BITS`, is asked for.  Stated: the public key's
/// modulus has that many bits (the documented key size), and the public
/// bytes are those of the key that the private bytes encode.
#[verifier::external_body]
fn rsa_keypair_der(bits: u32) -> (res: Option<(Vec<u8>, Vec<u8>)>)
    requires
        bits == KEY_BITS,
    ensures
        res matches Some(pair) ==> rsa_modulus_bits(pair.0@) == bits && pair.0@ == rsa_public_of_private(pair.1@),
{
    let key = Rsa::generate(bits).ok()?;
    let public_der = key.public_key_to_der().ok()?;
    let private_der = key.private_key_to_der().ok()?;
    Some((public_der, private_der))
}

/// How many key pairs a new wallet is made with.
pub const NEW_WALLET_KEYS: usize = 10;

/// The RSA modulus size, in bits, of a wallet's keys.
pub const KEY_BITS: u32 = 4096;

/// A wallet.  The four lists run side by side: entry `i` of each belongs to
/// the same key pair.  Keys are kept as lower-case hex text of their DER
/// bytes; each balance is kept as the bit pattern of an IEEE-754 double
/// (0 is 0.0).
#[derive(Clone)]
pub struct Wallet {
    pub addresses: Vec<String>,
    pub balances: Vec<u64>,
    pub last_height: usize,
    pub pubkeys: Vec<String>,
    privkeys: Vec<String>,
}

/// What a wallet holds, as mathematical values.
pub struct WalletModel {
    pub addresses: Seq<Seq<char>>,
    pub balances: Seq<u64>,
    pub last_height: nat,
    pub pubkeys: Seq<Seq<char>>,
    pub privkeys: Seq<Seq<char>>,
}

/// `address` is the address of a public key whose hex text is `pubkey_hex`.
pub open spec fn address_matches_key(address: Seq<char>, pubkey_hex: Seq<char>) -> bool {
    exists|pubkey: Seq<u8>| pubkey_hex == hex_lower(pubkey) && address == address_of(pubkey)
}

/// `text` is the hex text of some bytes.
pub open spec fn is_hex_text(text: Seq<char>) -> bool {
    exists|bytes: Seq<u8>| text == hex_lower(bytes)
}

/// Entry `i` of the wallet holds the hex texts of `pubkey` and `privkey`,
/// where `pubkey` is the public key of `privkey` and has a `KEY_BITS`-bit
/// modulus.
pub open spec fn holds_generated_keypair(w: WalletModel, i: int, pubkey: Seq<u8>, privkey: Seq<u8>) -> bool {
    &&& w.pubkeys[i] == hex_lower(pubkey)
    &&& w.privkeys[i] == hex_lower(privkey)
    &&& pubkey == rsa_public_of_private(privkey)
    &&& rsa_modulus_bits(pubkey) == KEY_BITS
}

/// Entry `i` of the wallet holds a matching pair of RSA keys of `KEY_BITS` bits.
pub open spec fn holds_fresh_keypair(w: WalletModel, i: int) -> bool {
    exists|pubkey: Seq<u8>, privkey: Seq<u8>| #[trigger] holds_generated_keypair(w, i, pubkey, privkey)
}

impl WalletModel {
    /// The wallet after a key pair is added to it, with a zero balance.
    pub open spec fn with_keypair(self, pubkey: Seq<u8>, privkey: Seq<u8>) -> WalletModel {
        WalletModel {
            addresses: self.addresses.push(address_of(pubkey)),
            balances: self.balances.push(0u64),
            last_height: self.last_height,
            pubkeys: self.pubkeys.push(hex_lower(pubkey)),
            privkeys: self.privkeys.push(hex_lower(privkey)),
        }
    }

    /// The lists run side by side, each address belongs to the public key
    /// beside it, and every private key is hex text.
    pub open spec fn wf(self) -> bool {
        &&& self.balances.len() == self.addresses.len()
        &&& self.pubkeys.len() == self.addresses.len()
        &&& self.privkeys.len() == self.addresses.len()
        &&& forall|i: int|
            0 <= i < self.addresses.len() ==> address_matches_key(
                #[trigger] self.addresses[i],
                self.pubkeys[i],
            )
        &&& forall|i: int| 0 <= i < self.privkeys.len() ==> is_hex_text(#[trigger] self.privkeys[i])
    }
}

impl View for Wallet {
    type V = WalletModel;

    closed spec fn view(&self) -> WalletModel {
        WalletModel {
            addresses: self.addresses.deep_view(),
            balances: self.balances@,
            last_height: self.last_height as nat,
            pubkeys: self.pubkeys.deep_view(),
            privkeys: self.privkeys.deep_view(),
        }
    }
}

impl Wallet {
    /// A wallet with no key pairs and height 0.
    pub fn empty() -> (res: Wallet)
        ensures
            res@.addresses.len() == 0,
            res@.balances.len() == 0,
            res@.pubkeys.len() == 0,
            res@.privkeys.len() == 0,
            res@.last_height == 0,
            res@.wf(),
    {
        let res = Wallet {
            addresses: Vec::new(),
            balances: Vec::new(),
            last_height: 0,
            pubkeys: Vec::new(),
            privkeys: Vec::new(),
        };
        proof {
            assert(res@.addresses =~= Seq::empty());
            assert(res@.pubkeys =~= Seq::empty());
            assert(res@.privkeys =~= Seq::empty());
        }
        res
    }

    /// A wallet made of the given lists, as they are.
    pub fn from_parts(
        addresses: Vec<String>,
        balances: Vec<u64>,
        last_height: usize,
        pubkeys: Vec<String>,
        privkeys: Vec<String>,
    ) -> (res: Wallet)
        ensures
            res@.addresses == addresses.deep_view(),
            res@.balances == balances@,
            res@.last_height == last_height,
            res@.pubkeys == pubkeys.deep_view(),
            res@.privkeys == privkeys.deep_view(),
    {
        Wallet { addresses, balances, last_height, pubkeys, privkeys }
    }

    /// The hex texts of the private keys.
    pub fn privkeys(&self) -> (res: &Vec<String>)
        ensures
            res.deep_view() == self@.privkeys,
    {
        &self.privkeys
    }

    /// Adds a key pair (DER bytes) with a zero balance: its address, and the
    /// hex text of both keys.
    pub fn add_keypair(&mut self, pubkey: &Vec<u8>, privkey: &Vec<u8>)
        ensures
            final(self)@ == old(self)@.with_keypair(pubkey@, privkey@),
            old(self)@.wf() ==> final(self)@.wf(),
    {
        let binaddr = Wallet::generate_binaddr(pubkey);
        let address = Wallet::generate_address(&binaddr);
        let pubhex = hex_encode(pubkey.as_slice());
        let privhex = hex_encode(privkey.as_slice());
        let ghost before = self@;
        self.addresses.push(address);
        self.balances.push(0);
        self.pubkeys.push(pubhex);
        self.privkeys.push(privhex);
        proof {
            let after = before.with_keypair(pubkey@, privkey@);
            assert(self@.addresses =~= after.addresses);
            assert(self@.pubkeys =~= after.pubkeys);
            assert(self@.privkeys =~= after.privkeys);
            if before.wf() {
                let n = before.addresses.len() as int;
                assert(address_matches_key(after.addresses[n], after.pubkeys[n]));
                assert(is_hex_text(after.privkeys[n]));
                assert forall|i: int| 0 <= i < after.addresses.len() implies address_matches_key(
                    #[trigger] after.addresses[i],
                    after.pubkeys[i],
                ) by {
                    if i < n {
                        assert(after.addresses[i] == before.addresses[i]);
                        assert(after.pubkeys[i] == before.pubkeys[i]);
                    }
                }
                assert forall|i: int| 0 <= i < after.privkeys.len() implies is_hex_text(
                    #[trigger] after.privkeys[i],
                ) by {
                    if i < n {
                        assert(after.privkeys[i] == before.privkeys[i]);
                    }
                }
            }
        }
    }

    /// A new wallet of ten fresh 4096-bit RSA key pairs, each with its
    /// address and a zero balance.  Fails where OpenSSL cannot make or encode
    /// a key.
    pub fn new() -> (res: Result<Wallet, &'static str>)
        ensures
            match res {
                Ok(wallet) => {
                    &&& wallet@.wf()
                    &&& wallet@.addresses.len() == NEW_WALLET_KEYS
                    &&& wallet@.last_height == 0
                    &&& forall|i: int| 0 <= i < wallet@.balances.len() ==> #[trigger] wallet@.balances[i] == 0
                    &&& forall|i: int| 0 <= i < wallet@.addresses.len() ==> #[trigger] holds_fresh_keypair(wallet@, i)
                },
                Err(msg) => msg@ == "Unable to generate keypair."@,
            },
    {
        let mut wallet = Wallet::empty();
        let mut i: usize = 0;
        while i < NEW_WALLET_KEYS
            invariant
                i <= NEW_WALLET_KEYS,
                wallet@.wf(),
                wallet@.addresses.len() == i,
                wallet@.last_height == 0,
                forall|j: int| 0 <= j < wallet@.balances.len() ==> #[trigger] wallet@.balances[j] == 0,
                forall|j: int| 0 <= j < wallet@.addresses.len() ==> #[trigger] holds_fresh_keypair(wallet@, j),
            decreases NEW_WALLET_KEYS - i,
        {
            let (pubkey, privkey) = match rsa_keypair_der(KEY_BITS) {
                Some(pair) => pair,
                None => return Err("Unable to generate keypair."),
            };
            let ghost before = wallet@;
            wallet.add_keypair(&pubkey, &privkey);
            proof {
                let after = wallet@;
                assert(holds_generated_keypair(after, i as int, pubkey@, privkey@));
                assert forall|j: int| 0 <= j < after.addresses.len() implies #[trigger] holds_fresh_keypair(
                    after,
                    j,
                ) by {
                    if j < i {
                        assert(after.pubkeys[j] == before.pubkeys[j]);
                        assert(after.privkeys[j] == before.privkeys[j]);
                        assert(holds_fresh_keypair(before, j));
                        let (pk, sk) = choose|pk: Seq<u8>, sk: Seq<u8>| #[trigger] holds_generated_keypair(
                            before,
                            j,
                            pk,
                            sk,
                        );
                        assert(holds_generated_keypair(after, j, pk, sk));
                    } else {
                        assert(holds_generated_keypair(after, j, pubkey@, privkey@));
                    }
                }
            }
            i = i + 1;
        }
        Ok(wallet)
    }
}

} // verus!
