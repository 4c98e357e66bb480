use lulzcoin::wallet::Wallet;

#[test]
fn empty_wallet_holds_nothing() {
    let wallet = Wallet::empty();
    assert!(wallet.addresses.is_empty());
    assert!(wallet.balances.is_empty());
    assert!(wallet.pubkeys.is_empty());
    assert!(wallet.privkeys().is_empty());
    assert_eq!(wallet.last_height, 0);
}

#[test]
fn add_keypair_appends_address_keys_and_zero_balance() {
    let mut wallet = Wallet::empty();
    wallet.add_keypair(&vec![1, 2, 3, 4], &vec![9, 8]);
    assert_eq!(wallet.addresses, vec!["2fzrLdiVM5vpNehqzLugat4USDeMDhg3WCo".to_string()]);
    assert_eq!(wallet.balances, vec![0]);
    assert_eq!(f64::from_bits(wallet.balances[0]), 0.0);
    assert_eq!(wallet.pubkeys, vec!["01020304".to_string()]);
    assert_eq!(wallet.privkeys(), &vec!["0908".to_string()]);
    assert_eq!(wallet.last_height, 0);

    wallet.add_keypair(&vec![], &vec![0xff]);
    assert_eq!(wallet.addresses.len(), 2);
    assert_eq!(wallet.addresses[1], "rBWFznCFUv9qUgM4B8ZWPxtCg8QQPhgJNZ");
    assert_eq!(wallet.pubkeys[1], "");
    assert_eq!(wallet.privkeys()[1], "ff");
    assert_eq!(wallet.balances, vec![0, 0]);
}

#[test]
fn from_parts_keeps_the_parts() {
    let wallet = Wallet::from_parts(
        vec!["a".to_string()],
        vec![1.5f64.to_bits()],
        7,
        vec!["00".to_string()],
        vec!["11".to_string()],
    );
    assert_eq!(wallet.addresses, vec!["a".to_string()]);
    assert_eq!(f64::from_bits(wallet.balances[0]), 1.5);
    assert_eq!(wallet.last_height, 7);
    assert_eq!(wallet.pubkeys, vec!["00".to_string()]);
    assert_eq!(wallet.privkeys(), &vec!["11".to_string()]);
}

