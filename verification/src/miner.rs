//! The miner: deterministic assembly of the next block from the storage tip
//! and either one executed transaction or nothing.
//!
//! There is no proof of work and the core computes no upstream digest, so
//! the header's identifying hash is the block number stamped big-endian
//! into the last eight bytes, and the transaction, receipt and state roots
//! and the logs bloom are left zeroed; the contracts state those values
//! exactly, and only the timestamp (taken from the wall clock) is left
//! open.

use vstd::prelude::*;

use crate::block::Block;
use crate::block::BlockHeader;
use crate::block::BlockSelection;
use crate::clock::now_unix_secs;
use crate::execution::Execution;
use crate::permanent::EthStorageError;
use crate::permanent::PermanentStorage;
use crate::primitives::Hash256;
use crate::stratus_storage::StratusStorage;
use crate::transaction::TransactionInput;
use crate::transaction::TransactionMined;

verus! {

/// The identifying hash this engine stamps on block `number`: the number in
/// big-endian order in the last eight bytes.
pub open spec fn block_hash_bytes(number: u64) -> Seq<u8> {
    Seq::new(
        32,
        |i: int|
            if i == 24 {
                (number >> 56) as u8
            } else if i == 25 {
                (number >> 48) as u8
            } else if i == 26 {
                (number >> 40) as u8
            } else if i == 27 {
                (number >> 32) as u8
            } else if i == 28 {
                (number >> 24) as u8
            } else if i == 29 {
                (number >> 16) as u8
            } else if i == 30 {
                (number >> 8) as u8
            } else if i == 31 {
                number as u8
            } else {
                0u8
            },
    )
}

/// Computes the deterministic hash for block `number`.
pub fn block_hash_for_number(number: u64) -> (r: Hash256)
    ensures
        r@ == block_hash_bytes(number),
{
    let mut bytes = [0u8; 32];
    bytes[24] = (number >> 56) as u8;
    bytes[25] = (number >> 48) as u8;
    bytes[26] = (number >> 40) as u8;
    bytes[27] = (number >> 32) as u8;
    bytes[28] = (number >> 24) as u8;
    bytes[29] = (number >> 16) as u8;
    bytes[30] = (number >> 8) as u8;
    bytes[31] = number as u8;
    let r = Hash256::new(bytes);
    proof {
        assert(r@ =~= block_hash_bytes(number));
    }
    r
}

/// Assembles the header for block `number` on top of the given parent.
fn assemble_header(
    number: u64,
    parent_hash: Hash256,
    gas_used: crate::primitives::Gas,
    miner: crate::primitives::Address,
) -> (r: BlockHeader)
    ensures
        r.number == number,
        r@.hash@ == block_hash_bytes(number),
        r.parent_hash == parent_hash,
        r.gas_used == gas_used,
        r.miner == miner,
        r@.transactions_root@ == Seq::new(32, |i: int| 0u8),
        r@.receipts_root@ == Seq::new(32, |i: int| 0u8),
        r@.state_root@ == Seq::new(32, |i: int| 0u8),
        r@.logs_bloom == Seq::<u8>::empty(),
{
    let mut header = BlockHeader::new(number);
    header.hash = block_hash_for_number(number);
    header.parent_hash = parent_hash;
    header.gas_used = gas_used;
    header.miner = miner;
    header.timestamp = now_unix_secs();
    header
}

/// The hash of the storage's latest block, or the zero hash before any
/// block exists.
fn parent_hash_of_tip<P: PermanentStorage>(storage: &StratusStorage<P>) -> (r: Hash256)
    ensures
        storage.perm.pview().blocks.len() > 0 ==> r == storage.perm.pview().blocks.last().header.hash,
{
    match storage.read_block(&BlockSelection::Latest) {
        Some(block) => block.header.hash,
        None => Hash256::zero(),
    }
}

/// Composes a block holding exactly the given transaction, numbered one
/// past the storage tip. Deterministic but for the header timestamp.
pub fn mine_with_one_transaction<P: PermanentStorage>(
    storage: &StratusStorage<P>,
    input: TransactionInput,
    execution: Execution,
) -> (r: Result<Block, EthStorageError>)
    ensures
        storage.perm.pview().block_number < u64::MAX <==> r is Ok,
        r matches Ok(b) ==> {
            &&& b@.header.number == storage.perm.pview().block_number + 1
            &&& b@.header.hash@ == block_hash_bytes(b@.header.number)
            &&& storage.perm.pview().blocks.len() > 0 ==> b@.header.parent_hash
                == storage.perm.pview().blocks.last().header.hash
            &&& b@.header.gas_used == execution.gas_used
            &&& b@.header.miner == input.signer
            &&& b@.header.transactions_root@ == Seq::new(32, |i: int| 0u8)
            &&& b@.header.receipts_root@ == Seq::new(32, |i: int| 0u8)
            &&& b@.header.state_root@ == Seq::new(32, |i: int| 0u8)
            &&& b@.header.logs_bloom == Seq::<u8>::empty()
            &&& b@.transactions.len() == 1
            &&& b@.transactions[0].input == input@
            &&& b@.transactions[0].execution == execution@
            &&& b@.transactions[0].index == 0
            &&& b@.transactions[0].block_number == b@.header.number
            &&& b@.transactions[0].logs_wf()
        },
{
    let tip = storage.read_current_block_number();
    if tip == u64::MAX {
        return Err(EthStorageError::Unexpected);
    }
    let number = tip + 1;
    let parent_hash = parent_hash_of_tip(storage);
    let gas_used = execution.gas_used;
    let block_hash = block_hash_for_number(number);
    let mined = TransactionMined::new(input, execution, 0, number, block_hash);
    let header = assemble_header(number, parent_hash, gas_used, mined.input.signer);
    let mut transactions: Vec<TransactionMined> = Vec::new();
    transactions.push(mined);
    Ok(Block { header, transactions })
}

/// Composes an empty block numbered one past the storage tip.
pub fn mine_with_no_transactions<P: PermanentStorage>(storage: &StratusStorage<P>) -> (r: Result<
    Block,
    EthStorageError,
>)
    ensures
        storage.perm.pview().block_number < u64::MAX <==> r is Ok,
        r matches Ok(b) ==> {
            &&& b@.header.number == storage.perm.pview().block_number + 1
            &&& b@.header.hash@ == block_hash_bytes(b@.header.number)
            &&& storage.perm.pview().blocks.len() > 0 ==> b@.header.parent_hash
                == storage.perm.pview().blocks.last().header.hash
            &&& b@.header.gas_used.value == 0
            &&& b@.header.miner.is_zero()
            &&& b@.header.transactions_root@ == Seq::new(32, |i: int| 0u8)
            &&& b@.header.receipts_root@ == Seq::new(32, |i: int| 0u8)
            &&& b@.header.state_root@ == Seq::new(32, |i: int| 0u8)
            &&& b@.header.logs_bloom == Seq::<u8>::empty()
            &&& b@.transactions.len() == 0
        },
{
    let tip = storage.read_current_block_number();
    if tip == u64::MAX {
        return Err(EthStorageError::Unexpected);
    }
    let number = tip + 1;
    let parent_hash = parent_hash_of_tip(storage);
    let gas_used = crate::primitives::Gas::new(0);
    let miner = crate::primitives::Address::zero();
    let header = assemble_header(number, parent_hash, gas_used, miner);
    Ok(Block { header, transactions: Vec::new() })
}

} // verus!
