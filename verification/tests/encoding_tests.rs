use lulzcoin::encoding::{decode_pair, hex_char_val};
use lulzcoin::wallet::Wallet;

fn hex_encode(bytes: &[u8]) -> String {
    let mut wallet = Wallet::empty();
    wallet.add_keypair(&bytes.to_vec(), &vec![]);
    wallet.pubkeys[0].clone()
}

#[test]
fn hex_encode_writes_lower_case_pairs() {
    assert_eq!(hex_encode(&[0x00, 0xab, 0xff, 0x10]), "00abff10");
    assert_eq!(hex_encode(&[]), "");
}

#[test]
fn hex_char_val_reads_both_cases() {
    assert_eq!(hex_char_val('0'), Some(0));
    assert_eq!(hex_char_val('9'), Some(9));
    assert_eq!(hex_char_val('a'), Some(10));
    assert_eq!(hex_char_val('F'), Some(15));
    assert_eq!(hex_char_val('g'), None);
    assert_eq!(hex_char_val(' '), None);
}

#[test]
fn decode_pair_reads_plain_pairs() {
    assert_eq!(decode_pair('a', 'b'), Some(0xab));
    assert_eq!(decode_pair('A', 'F'), Some(0xaf));
    assert_eq!(decode_pair('0', '0'), Some(0));
    assert_eq!(decode_pair('f', 'f'), Some(255));
}

#[test]
fn decode_pair_reads_signed_pairs() {
    assert_eq!(decode_pair('+', 'f'), Some(15));
    assert_eq!(decode_pair('-', 'f'), Some(241));
    assert_eq!(decode_pair('-', '1'), Some(255));
    assert_eq!(decode_pair('-', '0'), Some(0));
}

#[test]
fn decode_pair_refuses_other_text() {
    assert_eq!(decode_pair('g', '0'), None);
    assert_eq!(decode_pair('0', 'G'), None);
    assert_eq!(decode_pair('+', '+'), None);
    assert_eq!(decode_pair('1', '-'), None);
    assert_eq!(decode_pair('é', '1'), None);
}

#[test]
fn decode_pair_undoes_hex_encode() {
    for b in 0..=255u8 {
        let text: Vec<char> = hex_encode(&[b]).chars().collect();
        assert_eq!(decode_pair(text[0], text[1]), Some(b));
    }
}

