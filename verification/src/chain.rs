//! The lulzd block chain: blocks of transactions, each numbered by its
//! place in the chain, and the pool of transactions waiting for a block.

use vstd::prelude::*;
use std::collections::HashSet;
use vstd::string::StringSliceAdditionalSpecFns;
use crate::digest::{sha256_digest, sha256_hex};
use crate::encoding::hex_lower;

verus! {

/// Nanoseconds on the monotonic clock.
///
/// Trusted: `time::precise_time_ns` (time 0.1).  The value depends on when
/// it is read; nothing is stated of it.
#[verifier::external_body]
fn precise_time_ns() -> u64 {
    time::precise_time_ns()
}

/// A peer of the network.
pub struct Node {
    pub identifier: String,
}

/// A transfer of `amount` from `sender` to `recipient`.
#[derive(Clone)]
pub struct Transaction {
    pub sender: String,
    pub recipient: String,
    pub amount: u64,
}

/// A block header: its number (1 for the first block), when it was made,
/// its proof of work and the hash of the block before it.
#[derive(Clone)]
pub struct BlockHdr {
    pub index: u64,
    pub timestamp: u64,
    pub pow: u64,
    pub prevhash: String,
}

/// A block: its header and the transactions it holds.
#[derive(Clone)]
pub struct Block {
    pub header: BlockHdr,
    pub transactions: Vec<Transaction>,
}

/// The proof of work of the first block.
pub const GENESIS_POW: u64 = 100;

/// The previous-block hash given to a block made without one.
pub const NO_PREVHASH: &'static str = "1";

/// The chain of blocks, the nodes known to this one, and the transactions
/// not yet in a block.
pub struct Blockchain {
    chain: Vec<Block>,
    known_nodes: HashSet<String>,
    pending: Vec<Transaction>,
}

/// A block as values: its header fields, the text of its previous-block
/// hash, and its transactions.
pub struct BlockModel {
    pub index: u64,
    pub timestamp: u64,
    pub pow: u64,
    pub prevhash: Seq<char>,
    pub transactions: Seq<Transaction>,
}

/// The values of a block.
pub open spec fn block_model(block: Block) -> BlockModel {
    BlockModel {
        index: block.header.index,
        timestamp: block.header.timestamp,
        pow: block.header.pow,
        prevhash: block.header.prevhash@,
        transactions: block.transactions@,
    }
}

/// A chain as values: its blocks, its known nodes and its pending transactions.
pub struct ChainModel {
    pub blocks: Seq<BlockModel>,
    pub nodes: Set<String>,
    pub pending: Seq<Transaction>,
}

/// A chain with no blocks, no known nodes and nothing pending.
pub open spec fn empty_chain() -> ChainModel {
    ChainModel { blocks: Seq::empty(), nodes: Set::empty(), pending: Seq::empty() }
}

/// The chain after a block made at `timestamp` closes it: the new last
/// block is numbered one past the length and takes the pending
/// transactions, which become empty.
pub open spec fn pushed(chain: ChainModel, pow: u64, prevhash: Seq<char>, timestamp: u64) -> ChainModel {
    ChainModel {
        blocks: chain.blocks.push(
            BlockModel {
                index: (chain.blocks.len() + 1) as u64,
                timestamp: timestamp,
                pow: pow,
                prevhash: prevhash,
                transactions: chain.pending,
            },
        ),
        nodes: chain.nodes,
        pending: Seq::empty(),
    }
}

/// A copy of a set of node identifiers.
///
/// Trusted: `Clone::clone` on `std::collections::HashSet<String>`, which
/// documents a copy holding the same identifiers.
#[verifier::external_body]
fn clone_nodes(nodes: &HashSet<String>) -> (res: HashSet<String>)
    ensures
        res@ == nodes@,
{
    nodes.clone()
}

impl Clone for Blockchain {
    /// A copy of the chain: as many blocks and pending transactions (each
    /// cloned), and the same known nodes.
    fn clone(&self) -> (res: Self)
        ensures
            res.blocks().len() == self.blocks().len(),
            res.pending_transactions().len() == self.pending_transactions().len(),
            res.nodes() == self.nodes(),
    {
        Blockchain {
            chain: self.chain.clone(),
            known_nodes: clone_nodes(&self.known_nodes),
            pending: self.pending.clone(),
        }
    }
}

/// All transactions held by `blocks`, first block first, in order.
pub open spec fn block_transactions(blocks: Seq<Block>) -> Seq<Transaction>
    decreases blocks.len(),
{
    if blocks.len() == 0 {
        Seq::empty()
    } else {
        block_transactions(blocks.drop_last()) + blocks.last().transactions@
    }
}

/// The previous-block hash that `new_block` writes for `prevhash`.
pub open spec fn spec_prevhash(prevhash: Option<String>) -> Seq<char> {
    match prevhash {
        Some(hash) => hash@,
        None => NO_PREVHASH@,
    }
}

impl Blockchain {
    /// The blocks, first block first.
    pub closed spec fn blocks(&self) -> Seq<Block> {
        self.chain@
    }

    /// The transactions waiting for a block, oldest first.
    pub closed spec fn pending_transactions(&self) -> Seq<Transaction> {
        self.pending@
    }

    /// The identifiers of the known nodes.
    pub closed spec fn nodes(&self) -> Set<String> {
        self.known_nodes@
    }

    /// The chain as values.
    pub open spec fn model(&self) -> ChainModel {
        ChainModel {
            blocks: self.blocks().map_values(|block: Block| block_model(block)),
            nodes: self.nodes(),
            pending: self.pending_transactions(),
        }
    }

    /// Every transaction the chain holds: those in blocks, in block order,
    /// then those waiting.
    pub open spec fn ledger(&self) -> Seq<Transaction> {
        block_transactions(self.blocks()) + self.pending_transactions()
    }

    /// Each block is numbered by its place: block `i` (from 0) has index `i + 1`.
    pub open spec fn wf(&self) -> bool {
        forall|i: int| 0 <= i < self.blocks().len() ==> #[trigger] self.blocks()[i].header.index == i + 1
    }

    /// A chain made of the given parts, as they are.
    pub fn from_parts(chain: Vec<Block>, known_nodes: HashSet<String>, pending: Vec<Transaction>) -> (res: Blockchain)
        ensures
            res.blocks() == chain@,
            res.nodes() == known_nodes@,
            res.pending_transactions() == pending@,
    {
        Blockchain { chain, known_nodes, pending }
    }

    /// The blocks, first block first.
    pub fn chain(&self) -> (res: &Vec<Block>)
        ensures
            res@ == self.blocks(),
    {
        &self.chain
    }

    /// The identifiers of the known nodes.
    pub fn known_nodes(&self) -> (res: &HashSet<String>)
        ensures
            res@ == self.nodes(),
    {
        &self.known_nodes
    }

    /// The transactions waiting for a block.
    pub fn pending(&self) -> (res: &Vec<Transaction>)
        ensures
            res@ == self.pending_transactions(),
    {
        &self.pending
    }

    /// A chain holding only the first block: index 1, proof of work 100,
    /// previous hash "1", no transactions, made at `timestamp`.  No node is
    /// known and nothing is pending.
    pub fn new_at(timestamp: u64) -> (res: Blockchain)
        ensures
            res.blocks().len() == 1,
            res.blocks()[0].header.index == 1,
            res.blocks()[0].header.timestamp == timestamp,
            res.model() == pushed(empty_chain(), GENESIS_POW, NO_PREVHASH@, timestamp),
            res.blocks()[0].header.pow == GENESIS_POW,
            res.blocks()[0].header.prevhash@ == NO_PREVHASH@,
            res.blocks()[0].header.prevhash@ == "1"@,
            res.blocks()[0].transactions@.len() == 0,
            res.pending_transactions().len() == 0,
            res.nodes() == Set::<String>::empty(),
            res.wf(),
    {
        let mut blockchain = Blockchain { chain: Vec::new(), known_nodes: HashSet::new(), pending: Vec::new() };
        proof {
            assert(blockchain.model().blocks =~= empty_chain().blocks);
            assert(blockchain.model().pending =~= empty_chain().pending);
        }
        blockchain.push_block(GENESIS_POW, None, timestamp);
        blockchain
    }

    /// A chain holding only the first block (see `new_at`), made now.
    pub fn new() -> (res: Blockchain)
        ensures
            res.blocks().len() == 1,
            res.blocks()[0].header.index == 1,
            res.blocks()[0].header.pow == GENESIS_POW,
            res.blocks()[0].header.prevhash@ == NO_PREVHASH@,
            res.blocks()[0].header.prevhash@ == "1"@,
            res.blocks()[0].transactions@.len() == 0,
            res.pending_transactions().len() == 0,
            res.nodes() == Set::<String>::empty(),
            res.wf(),
            exists|timestamp: u64| res.model() == #[trigger] pushed(empty_chain(), GENESIS_POW, NO_PREVHASH@, timestamp),
    {
        let timestamp = precise_time_ns();
        Blockchain::new_at(timestamp)
    }

    /// Closes a block made at `timestamp`: the pending transactions move, in
    /// order, into a new last block numbered one past the chain's length,
    /// with the given proof of work and the given previous hash (or "1").
    /// Returns the new block.
    pub fn push_block(&mut self, pow: u64, prevhash: Option<String>, timestamp: u64) -> (res: &Block)
        requires
            old(self).blocks().len() < u64::MAX,
        ensures
            final(self).blocks().len() == old(self).blocks().len() + 1,
            final(self).blocks().drop_last() == old(self).blocks(),
            final(self).blocks().last().header.index == old(self).blocks().len() + 1,
            final(self).blocks().last().header.timestamp == timestamp,
            final(self).model() == pushed(old(self).model(), pow, spec_prevhash(prevhash), timestamp),
            final(self).blocks().last().header.pow == pow,
            final(self).blocks().last().header.prevhash@ == spec_prevhash(prevhash),
            prevhash matches Some(hash) ==> final(self).blocks().last().header.prevhash@ == hash@,
            prevhash is None ==> final(self).blocks().last().header.prevhash@ == "1"@,
            final(self).blocks().last().transactions@ == old(self).pending_transactions(),
            final(self).pending_transactions().len() == 0,
            final(self).nodes() == old(self).nodes(),
            final(self).ledger() == old(self).ledger(),
            old(self).wf() ==> final(self).wf(),
            *res == final(self).blocks().last(),
    {
        let ghost old_prevhash = prevhash;
        proof {
            reveal_strlit("1");
        }
        let prevhash = match prevhash {
            Some(hash) => hash,
            None => NO_PREVHASH.to_owned(),
        };
        let mut transactions: Vec<Transaction> = Vec::new();
        std::mem::swap(&mut transactions, &mut self.pending);
        let block = Block {
            header: BlockHdr {
                index: self.chain.len() as u64 + 1,
                timestamp: timestamp,
                pow: pow,
                prevhash: prevhash,
            },
            transactions: transactions,
        };
        let ghost old_chain = self.chain@;
        self.chain.push(block);
        proof {
            assert(self.chain@.drop_last() =~= old_chain);
            assert(self.ledger() =~= old(self).ledger());
            assert(self.model().blocks =~= pushed(old(self).model(), pow, spec_prevhash(old_prevhash), timestamp).blocks);
            assert(self.model().pending =~= Seq::<Transaction>::empty());
        }
        let last = self.chain.len() - 1;
        &self.chain[last]
    }

    /// Closes a block now (see `push_block`, which it calls with the
    /// current time).
    pub fn new_block(&mut self, pow: u64, prevhash: Option<String>) -> (res: &Block)
        requires
            old(self).blocks().len() < u64::MAX,
        ensures
            final(self).blocks().len() == old(self).blocks().len() + 1,
            final(self).blocks().drop_last() == old(self).blocks(),
            final(self).blocks().last().header.index == old(self).blocks().len() + 1,
            final(self).blocks().last().header.pow == pow,
            final(self).blocks().last().header.prevhash@ == spec_prevhash(prevhash),
            prevhash matches Some(hash) ==> final(self).blocks().last().header.prevhash@ == hash@,
            prevhash is None ==> final(self).blocks().last().header.prevhash@ == "1"@,
            final(self).blocks().last().transactions@ == old(self).pending_transactions(),
            final(self).pending_transactions().len() == 0,
            final(self).nodes() == old(self).nodes(),
            final(self).ledger() == old(self).ledger(),
            old(self).wf() ==> final(self).wf(),
            *res == final(self).blocks().last(),
            exists|timestamp: u64| final(self).model() == #[trigger] pushed(
                old(self).model(),
                pow,
                spec_prevhash(prevhash),
                timestamp,
            ),
    {
        proof {
            reveal_strlit("1");
        }
        let timestamp = precise_time_ns();
        self.push_block(pow, prevhash, timestamp)
    }

    /// The hash of a block from its serialized text: the lower-case hex
    /// SHA-256 of the text's UTF-8 bytes.
    pub fn hash(serialized_block: &str) -> (res: String)
        ensures
            res@ == hex_lower(sha256_digest(serialized_block.spec_bytes())),
            res@.len() == 64,
    {
        sha256_hex(serialized_block.as_bytes())
    }
}

} // verus!
