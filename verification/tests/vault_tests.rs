use lulzcoin::vault::{check_passphrases, open_wallet, seal_wallet, wallet_key, TAG_BYTES};

#[test]
fn wallet_key_is_the_same_for_the_same_passphrase() {
    let a = wallet_key("correct horse");
    let b = wallet_key("correct horse");
    assert_eq!(a, b);
    assert_ne!(a, [0u8; 32]);
    assert_ne!(wallet_key("correct horse"), wallet_key("battery staple"));
}

#[test]
fn sealed_wallet_opens_with_the_same_key() {
    let key = wallet_key("passphrase");
    let serialized = br#"{"addresses":[],"balances":[],"last_height":0}"#;
    let sealed = seal_wallet(serialized, &key);
    assert_eq!(sealed.ciphertext.len(), serialized.len() + TAG_BYTES);
    assert_ne!(&sealed.ciphertext[..serialized.len()], &serialized[..]);
    assert_eq!(open_wallet(&sealed.nonce, &sealed.ciphertext, &key), Ok(serialized.to_vec()));
}

#[test]
fn sealed_empty_wallet_opens() {
    let key = wallet_key("");
    let sealed = seal_wallet(&[], &key);
    assert_eq!(sealed.ciphertext.len(), TAG_BYTES);
    assert_eq!(open_wallet(&sealed.nonce, &sealed.ciphertext, &key), Ok(vec![]));
}

#[test]
fn sealed_wallet_does_not_open_with_another_key() {
    let sealed = seal_wallet(b"wallet", &wallet_key("right"));
    assert_eq!(
        open_wallet(&sealed.nonce, &sealed.ciphertext, &wallet_key("wrong")),
        Err("Could not decrypt wallet file.")
    );
}

#[test]
fn tampered_wallet_does_not_open() {
    let key = wallet_key("pw");
    let mut sealed = seal_wallet(b"wallet", &key);
    sealed.ciphertext[0] ^= 1;
    assert_eq!(
        open_wallet(&sealed.nonce, &sealed.ciphertext, &key),
        Err("Could not decrypt wallet file.")
    );
    let mut other_nonce = sealed.nonce;
    other_nonce[0] ^= 1;
    sealed.ciphertext[0] ^= 1;
    assert_eq!(
        open_wallet(&other_nonce, &sealed.ciphertext, &key),
        Err("Could not decrypt wallet file.")
    );
}

#[test]
fn short_input_does_not_open() {
    let key = wallet_key("pw");
    assert_eq!(open_wallet(&[0u8; 12], &[1, 2, 3], &key), Err("Could not decrypt wallet file."));
    assert_eq!(open_wallet(&[0u8; 12], &[], &key), Err("Could not decrypt wallet file."));
}

#[test]
fn check_passphrases_accepts_only_equal_ones() {
    assert_eq!(check_passphrases(&"abc".to_string(), &"abc".to_string()), Ok(()));
    assert_eq!(
        check_passphrases(&"abc".to_string(), &"abd".to_string()),
        Err("Passphrases did not match!")
    );
    assert_eq!(
        check_passphrases(&"abc".to_string(), &"abc ".to_string()),
        Err("Passphrases did not match!")
    );
}

#[test]
fn wallet_key_known_value() {
    let expected = [
        0x79, 0x1d, 0xe3, 0x6f, 0x66, 0x61, 0x24, 0xfe, 0xa9, 0xe4, 0xbe, 0xd1, 0xda, 0xd8, 0x53, 0x80,
        0x7a, 0xec, 0xb9, 0x39, 0x3c, 0xf1, 0xe5, 0x2d, 0xd1, 0xf5, 0xcb, 0x22, 0x78, 0xfd, 0x17, 0xed,
    ];
    assert_eq!(wallet_key("correct horse"), expected);
}

#[test]
fn open_wallet_known_value() {
    let mut key = [0u8; 32];
    for (i, b) in key.iter_mut().enumerate() {
        *b = i as u8;
    }
    let mut nonce = [0u8; 12];
    for (i, b) in nonce.iter_mut().enumerate() {
        *b = i as u8;
    }
    let sealed = [
        0xe5, 0x8e, 0x64, 0x7a, 0x62, 0x03, 0x8a, 0xdf, 0xf6, 0xa6, 0xde, 0xdc, 0x8d, 0x7d, 0x67, 0xea,
        0xf3, 0x84, 0x5c, 0x9c,
    ];
    assert_eq!(open_wallet(&nonce, &sealed, &key), Ok(b"lulz".to_vec()));
}
