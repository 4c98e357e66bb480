use rust_base58::FromBase58;
use lulzcoin::wallet::Wallet;

#[test]
fn binaddr_of_a_key() {
    let binaddr = Wallet::generate_binaddr(&vec![1, 2, 3, 4]);
    assert_eq!(binaddr, "f10f504e00bf07d5ab10ee065a1486e4fbccbf7db9024e5880");
    assert_eq!(binaddr.len(), 50);
    assert_eq!(&binaddr[8..10], "00");
}

#[test]
fn binaddr_of_empty_key() {
    assert_eq!(
        Wallet::generate_binaddr(&vec![]),
        "7a39cf5100ba084d3f143f2896809d3f1d7dffed472b39d8de"
    );
}

#[test]
fn address_of_a_key() {
    let binaddr = Wallet::generate_binaddr(&vec![1, 2, 3, 4]);
    assert_eq!(Wallet::generate_address(&binaddr), "2fzrLdiVM5vpNehqzLugat4USDeMDhg3WCo");
}

#[test]
fn address_of_zero_binaddr() {
    let binaddr = "0".repeat(50);
    assert_eq!(Wallet::generate_address(&binaddr), "1111111111111111111111111");
}

#[test]
fn address_reads_upper_case_and_signed_pairs() {
    // "FF", then 24 times "+f" (15 each).
    let binaddr = String::from("FF") + &"+f".repeat(24);
    assert_eq!(Wallet::generate_address(&binaddr), "2mdZSFscbrn8bMfrdF4nAvGtqQxUmk2cBSN");
    // "-1" is -1, which is the byte 255.
    let binaddr = String::from("-1") + &"+f".repeat(24);
    assert_eq!(Wallet::generate_address(&binaddr), "2mdZSFscbrn8bMfrdF4nAvGtqQxUmk2cBSN");
}

#[test]
fn address_is_base58_of_the_pairs() {
    // 0x00 0x00 then 0x01 and 22 zero bytes: two leading '1's.
    let binaddr = String::from("000001") + &"00".repeat(22);
    assert_eq!(Wallet::generate_address(&binaddr), "112CUupRZfa1aCgvwLsbRzNpuQJuZyEKR");
}

#[test]
fn address_decodes_to_the_binaddr_bytes() {
    let binaddr = Wallet::generate_binaddr(&vec![1, 2, 3, 4]);
    let address = Wallet::generate_address(&binaddr);
    let bytes = address.from_base58().ok().unwrap();
    assert_eq!(bytes.len(), 25);
    assert_eq!(bytes[4], 0);
    let expected: Vec<u8> = (0..25)
        .map(|i| u8::from_str_radix(&binaddr[2 * i..2 * i + 2], 16).unwrap())
        .collect();
    assert_eq!(bytes, expected);
}
