use lulzcoin::chain::{Block, BlockHdr, Blockchain, Transaction};
use std::collections::HashSet;

fn tx(sender: &str, recipient: &str, amount: u64) -> Transaction {
    Transaction { sender: sender.to_string(), recipient: recipient.to_string(), amount }
}

#[test]
fn new_chain_holds_the_genesis_block() {
    let chain = Blockchain::new();
    assert_eq!(chain.chain().len(), 1);
    let genesis = &chain.chain()[0];
    assert_eq!(genesis.header.index, 1);
    assert_eq!(genesis.header.pow, 100);
    assert_eq!(genesis.header.prevhash, "1");
    assert!(genesis.transactions.is_empty());
    assert!(chain.pending().is_empty());
    assert!(chain.known_nodes().is_empty());
}

#[test]
fn new_block_numbers_blocks_by_place() {
    let mut chain = Blockchain::new();
    let block = chain.new_block(7, Some("abcd".to_string()));
    assert_eq!(block.header.index, 2);
    assert_eq!(block.header.pow, 7);
    assert_eq!(block.header.prevhash, "abcd");
    let block = chain.new_block(8, None);
    assert_eq!(block.header.index, 3);
    assert_eq!(block.header.prevhash, "1");
    let indexes: Vec<u64> = chain.chain().iter().map(|b| b.header.index).collect();
    assert_eq!(indexes, vec![1, 2, 3]);
}

#[test]
fn new_block_moves_pending_transactions() {
    let genesis = Block {
        header: BlockHdr { index: 1, timestamp: 0, pow: 100, prevhash: "1".to_string() },
        transactions: vec![],
    };
    let mut nodes = HashSet::new();
    nodes.insert("peer".to_string());
    let mut chain = Blockchain::from_parts(
        vec![genesis],
        nodes,
        vec![tx("me", "you", 5), tx("you", "me", 3)],
    );
    let block = chain.new_block(42, None);
    assert_eq!(block.header.index, 2);
    assert_eq!(block.transactions.len(), 2);
    assert_eq!(block.transactions[0].sender, "me");
    assert_eq!(block.transactions[0].amount, 5);
    assert_eq!(block.transactions[1].recipient, "me");
    assert_eq!(block.transactions[1].amount, 3);
    assert!(chain.pending().is_empty());
    assert_eq!(chain.chain().len(), 2);
    assert_eq!(chain.chain()[0].header.index, 1);
    assert!(chain.known_nodes().contains("peer"));
}

#[test]
fn hash_is_sha256_hex_of_the_text() {
    assert_eq!(
        Blockchain::hash("abc"),
        "ba7816bf8f01cfea414140de5dae2223b00361a396177a9cb410ff61f20015ad"
    );
    assert_eq!(
        Blockchain::hash(""),
        "e3b0c44298fc1c149afbf4c8996fb92427ae41e4649b934ca495991b7852b855"
    );
}

#[test]
fn hash_of_a_block_text() {
    let text = r#"{"header":{"index":1,"timestamp":0,"pow":100,"prevhash":"1"},"transactions":[]}"#;
    assert_eq!(
        Blockchain::hash(text),
        "85f2c3769f33160ec1eb90b71858548f4e818732993a260565dbd8dd495f5a03"
    );
    // The text is hashed as UTF-8.
    assert_eq!(
        Blockchain::hash("é"),
        "4a99557e4033c3539de2eb65472017cad5f9557f7a0625a09f1c3f6e2ba69c4c"
    );
}

#[test]
fn new_at_stamps_the_genesis_block() {
    let chain = Blockchain::new_at(1234);
    assert_eq!(chain.chain().len(), 1);
    assert_eq!(chain.chain()[0].header.timestamp, 1234);
    assert_eq!(chain.chain()[0].header.index, 1);
    assert_eq!(chain.chain()[0].header.pow, 100);
    assert_eq!(chain.chain()[0].header.prevhash, "1");
}

#[test]
fn push_block_stamps_the_block() {
    let mut chain = Blockchain::new_at(1);
    let block = chain.push_block(9, Some("prev".to_string()), 77);
    assert_eq!(block.header.timestamp, 77);
    assert_eq!(block.header.index, 2);
    assert_eq!(block.header.pow, 9);
    assert_eq!(block.header.prevhash, "prev");
    assert!(block.transactions.is_empty());
    assert_eq!(chain.chain()[0].header.timestamp, 1);
}

#[test]
fn clone_copies_the_chain() {
    let mut nodes = HashSet::new();
    nodes.insert("peer".to_string());
    let chain = Blockchain::from_parts(vec![], nodes, vec![tx("a", "b", 1)]);
    let mut copy = chain.clone();
    assert!(copy.chain().is_empty());
    assert_eq!(copy.pending().len(), 1);
    assert_eq!(copy.pending()[0].sender, "a");
    assert!(copy.known_nodes().contains("peer"));
    copy.push_block(1, None, 5);
    assert_eq!(chain.pending().len(), 1);
    assert!(chain.chain().is_empty());
}
