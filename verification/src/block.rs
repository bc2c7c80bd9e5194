//! Blocks: header, ordered transactions, block selection and the
//! point-in-time read marker.

use vstd::prelude::*;

use crate::primitives::Address;
use crate::primitives::Bytes;
use crate::primitives::Gas;
use crate::primitives::Hash256;
use crate::transaction::mined_txs_view;
use crate::transaction::TransactionMined;
use crate::transaction::TransactionMinedV;

verus! {

/// A logical read timestamp: the current tip or the end of a past block.
#[derive(Clone, Copy, Debug, PartialEq, Eq, Structural)]
pub enum StoragePointInTime {
    Present,
    Past(u64),
}

/// How a caller designates a block to read.
#[derive(Clone, Copy, Debug)]
pub enum BlockSelection {
    Latest,
    Earliest,
    Number(u64),
    Hash(Hash256),
}

/// Header of a block.
#[derive(Debug)]
#[verifier::ext_equal]
pub struct BlockHeader {
    pub number: u64,
    pub hash: Hash256,
    pub parent_hash: Hash256,
    pub transactions_root: Hash256,
    pub receipts_root: Hash256,
    pub state_root: Hash256,
    pub logs_bloom: Bytes,
    pub gas_used: Gas,
    pub timestamp: u64,
    pub miner: Address,
}

/// Mathematical value of a [`BlockHeader`].
#[verifier::ext_equal]
pub ghost struct BlockHeaderV {
    pub number: u64,
    pub hash: Hash256,
    pub parent_hash: Hash256,
    pub transactions_root: Hash256,
    pub receipts_root: Hash256,
    pub state_root: Hash256,
    pub logs_bloom: Seq<u8>,
    pub gas_used: Gas,
    pub timestamp: u64,
    pub miner: Address,
}

impl View for BlockHeader {
    type V = BlockHeaderV;

    open spec fn view(&self) -> BlockHeaderV {
        BlockHeaderV {
            number: self.number,
            hash: self.hash,
            parent_hash: self.parent_hash,
            transactions_root: self.transactions_root,
            receipts_root: self.receipts_root,
            state_root: self.state_root,
            logs_bloom: self.logs_bloom@,
            gas_used: self.gas_used,
            timestamp: self.timestamp,
            miner: self.miner,
        }
    }
}

impl Clone for BlockHeader {
    fn clone(&self) -> (r: Self)
        ensures
            r@ == self@,
    {
        let r = BlockHeader {
            number: self.number,
            hash: self.hash,
            parent_hash: self.parent_hash,
            transactions_root: self.transactions_root,
            receipts_root: self.receipts_root,
            state_root: self.state_root,
            logs_bloom: self.logs_bloom.clone(),
            gas_used: self.gas_used,
            timestamp: self.timestamp,
            miner: self.miner,
        };
        proof {
            assert(r@ =~= self@);
        }
        r
    }
}

impl BlockHeaderV {
    /// A header carrying only its number: every digest is all zeroes, the
    /// bloom is empty, and gas, timestamp and miner are zeroed.
    pub open spec fn is_zeroed(self, number: u64) -> bool {
        &&& self.number == number
        &&& self.hash@ == Seq::new(32, |i: int| 0u8)
        &&& self.parent_hash@ == Seq::new(32, |i: int| 0u8)
        &&& self.transactions_root@ == Seq::new(32, |i: int| 0u8)
        &&& self.receipts_root@ == Seq::new(32, |i: int| 0u8)
        &&& self.state_root@ == Seq::new(32, |i: int| 0u8)
        &&& self.logs_bloom == Seq::<u8>::empty()
        &&& self.gas_used.value == 0
        &&& self.timestamp == 0
        &&& self.miner@ == Seq::new(20, |i: int| 0u8)
    }
}

impl BlockHeader {
    /// A header for block `number` with zeroed metadata.
    pub fn new(number: u64) -> (r: BlockHeader)
        ensures
            r@.is_zeroed(number),
    {
        let r = BlockHeader {
            number,
            hash: Hash256::zero(),
            parent_hash: Hash256::zero(),
            transactions_root: Hash256::zero(),
            receipts_root: Hash256::zero(),
            state_root: Hash256::zero(),
            logs_bloom: Bytes::empty(),
            gas_used: Gas::new(0),
            timestamp: 0,
            miner: Address::zero(),
        };
        proof {
            assert(r.miner@ =~= Seq::new(20, |i: int| 0u8));
        }
        r
    }
}

/// A block: header plus ordered transactions.
#[derive(Debug)]
#[verifier::ext_equal]
pub struct Block {
    pub header: BlockHeader,
    pub transactions: Vec<TransactionMined>,
}

/// Mathematical value of a [`Block`].
#[verifier::ext_equal]
pub ghost struct BlockV {
    pub header: BlockHeaderV,
    pub transactions: Seq<TransactionMinedV>,
}

impl View for Block {
    type V = BlockV;

    open spec fn view(&self) -> BlockV {
        BlockV { header: self.header@, transactions: mined_txs_view(self.transactions@) }
    }
}

impl Clone for Block {
    fn clone(&self) -> (r: Self)
        ensures
            r@ == self@,
    {
        let transactions = self.transactions.clone();
        proof {
            assert(mined_txs_view(transactions@) =~= mined_txs_view(self.transactions@)) by {
                assert forall|i: int| 0 <= i < self.transactions@.len() implies transactions@[i]@
                    == self.transactions@[i]@ by {
                    assert(cloned::<TransactionMined>(self.transactions@[i], transactions@[i]));
                }
            }
        }
        let r = Block { header: self.header.clone(), transactions };
        proof {
            assert(r@ =~= self@);
        }
        r
    }
}

impl Block {
    /// Creates a new block with the given number: a zeroed header and no
    /// transactions.
    pub fn new(number: u64) -> (r: Block)
        ensures
            r@.header.is_zeroed(number),
            r@.transactions.len() == 0,
    {
        Block { header: BlockHeader::new(number), transactions: Vec::new() }
    }

    /// Creates a new block with the given number and transactions capacity;
    /// observably the same value as [`Block::new`].
    pub fn new_with_capacity(number: u64, capacity: usize) -> (r: Block)
        ensures
            r@.header.is_zeroed(number),
            r@.transactions.len() == 0,
    {
        Block { header: BlockHeader::new(number), transactions: Vec::with_capacity(capacity) }
    }
}

} // verus!
