//! The layered storage facade: read-through over the temporary overlay then
//! the permanent store, with commit, reset, conflict checking, and
//! point-in-time translation.

use vstd::prelude::*;

use crate::block::Block;
use crate::block::BlockSelection;
use crate::block::BlockV;
use crate::block::StoragePointInTime;
use crate::execution::Execution;
use crate::execution::ExecutionConflicts;
use crate::permanent::account_at;
use crate::permanent::block_selection_spec;
use crate::permanent::find_block_by_hash;
use crate::permanent::opt_block_view;
use crate::permanent::slot_at;
use crate::permanent::EthStorageError;
use crate::permanent::PermStateV;
use crate::permanent::PermanentStorage;
use crate::primitives::Account;
use crate::primitives::AccountV;
use crate::primitives::Address;
use crate::primitives::Hash256;
use crate::primitives::Slot;
use crate::primitives::SlotIndex;
use crate::temporary::any_conflict;
use crate::temporary::apply_changes;
use crate::temporary::find_acct;
use crate::temporary::find_slot;
use crate::temporary::InMemoryTemporaryStorage;
use crate::temporary::TmpStateV;
use crate::transaction::LogFilter;
use crate::transaction::LogMined;
use crate::transaction::TransactionMined;

verus! {

/// What the overlay answers for an account read.
pub open spec fn temp_account(tmp: TmpStateV, address: Address) -> Option<AccountV> {
    match find_acct(tmp.accounts, address) {
        None => None,
        Some(a) => Some(a.info),
    }
}

/// What the overlay answers for a slot read.
pub open spec fn temp_slot(tmp: TmpStateV, address: Address, index: SlotIndex) -> Option<Slot> {
    match find_acct(tmp.accounts, address) {
        None => None,
        Some(a) => find_slot(a.slots, index),
    }
}

/// The layered storage: a per-block temporary overlay in front of a
/// pluggable permanent store.
pub struct StratusStorage<P: PermanentStorage> {
    pub temp: InMemoryTemporaryStorage,
    pub perm: P,
}

impl<P: PermanentStorage> StratusStorage<P> {
    pub fn new(temp: InMemoryTemporaryStorage, perm: P) -> (r: StratusStorage<P>)
        ensures
            r.temp@ == temp@,
            r.perm == perm,
    {
        StratusStorage { temp, perm }
    }

    /// Retrieves the last mined block number.
    pub fn read_current_block_number(&self) -> (r: u64)
        ensures
            r == self.perm.pview().block_number,
    {
        self.perm.read_mined_block_number()
    }

    /// Sets the last mined block number to a specific value.
    pub fn set_mined_block_number(&mut self, number: u64)
        ensures
            final(self).temp@ == old(self).temp@,
            final(self).perm.pview() == (PermStateV {
                block_number: number,
                ..old(self).perm.pview()
            }),
    {
        self.perm.set_mined_block_number(number);
    }

    /// Atomically increments the block number, returning the new value.
    pub fn increment_block_number(&mut self) -> (r: Result<u64, EthStorageError>)
        ensures
            final(self).temp@ == old(self).temp@,
            old(self).perm.pview().block_number < u64::MAX ==> {
                &&& r == Ok::<u64, EthStorageError>(
                    (old(self).perm.pview().block_number + 1) as u64,
                )
                &&& final(self).perm.pview() == (PermStateV {
                    block_number: (old(self).perm.pview().block_number + 1) as u64,
                    ..old(self).perm.pview()
                })
            },
            old(self).perm.pview().block_number == u64::MAX ==> r is Err && final(self).perm.pview() == old(self).perm.pview(),
    {
        self.perm.increment_block_number()
    }

    /// Retrieves a block from the permanent storage.
    pub fn read_block(&self, block_selection: &BlockSelection) -> (r: Option<Block>)
        ensures
            opt_block_view(r) == block_selection_spec(self.perm.pview(), *block_selection),
    {
        self.perm.read_block(block_selection)
    }

    /// Retrieves a mined transaction from the permanent storage.
    pub fn read_mined_transaction(&self, hash: &Hash256) -> (r: Option<TransactionMined>)
        ensures
            match crate::permanent::find_mined_transaction(self.perm.pview().blocks, *hash) {
                None => r is None,
                Some(t) => r matches Some(tm) && tm@ == t,
            },
    {
        self.perm.read_mined_transaction(hash)
    }

    /// Retrieves an account: the overlay first, then the permanent store,
    /// then a fresh default account at the queried address.
    pub fn read_account(&self, address: &Address, point_in_time: &StoragePointInTime) -> (r:
        Account)
        ensures
            match temp_account(self.temp@, *address) {
                Some(t) => r@ == t,
                None => match account_at(
                    self.perm.pview(),
                    *address,
                    self.perm.pview().upto_of(*point_in_time),
                ) {
                    Some(p) => r@ == p,
                    None => r@ == AccountV::new_empty(*address),
                },
            },
    {
        match self.temp.read_account(address) {
            Some(account) => account,
            None => match self.perm.read_account(address, point_in_time) {
                Some(account) => account,
                None => Account::new_empty(*address),
            },
        }
    }

    /// Retrieves a slot: the overlay first, then the permanent store, then
    /// a zero-valued slot at the queried index.
    pub fn read_slot(&self, address: &Address, slot_index: &SlotIndex, point_in_time: &StoragePointInTime) -> (
        r: Slot)
        ensures
            match temp_slot(self.temp@, *address, *slot_index) {
                Some(s) => r == s,
                None => match slot_at(
                    self.perm.pview(),
                    *address,
                    *slot_index,
                    self.perm.pview().upto_of(*point_in_time),
                ) {
                    Some(v) => r == (Slot { index: *slot_index, value: v }),
                    None => r.index == *slot_index && r.value@ == Seq::new(32, |i: int| 0u8),
                },
            },
    {
        match self.temp.read_slot(address, slot_index) {
            Some(slot) => slot,
            None => match self.perm.read_slot(address, slot_index, point_in_time) {
                Some(slot) => slot,
                None => Slot::new_empty(*slot_index),
            },
        }
    }

    /// Commits the block to the permanent storage; whatever the outcome,
    /// the temporary overlay is flushed.
    pub fn commit(&mut self, block: Block) -> (r: Result<(), EthStorageError>)
        ensures
            final(self).temp@.is_empty(),
            block@.header.number == old(self).perm.pview().blocks.len() ==> {
                &&& r is Ok
                &&& final(self).perm.pview() == (PermStateV {
                    blocks: old(self).perm.pview().blocks.push(block@),
                    block_number: block@.header.number,
                    ..old(self).perm.pview()
                })
            },
            block@.header.number != old(self).perm.pview().blocks.len() ==> r is Err && final(self).perm.pview() == old(self).perm.pview(),
    {
        let result = self.perm.save_block(block);
        self.temp.reset();
        result
    }

    /// Checks the execution's recorded originals against the overlay.
    pub fn check_conflicts(&self, execution: &Execution) -> (r: Option<ExecutionConflicts>)
        ensures
            r is Some <==> any_conflict(self.temp@.accounts, execution@.changes),
            r matches Some(c) ==> c.wf() && forall|i: int|
                0 <= i < c.conflicts@.len() ==> crate::temporary::conflict_genuine(
                    self.temp@.accounts,
                    #[trigger] c.conflicts@[i],
                ),
    {
        self.temp.check_conflicts(execution)
    }

    /// Temporarily stores account changes during the production of the
    /// given block.
    pub fn save_account_changes(&mut self, block_number: u64, execution: &Execution)
        ensures
            final(self).perm == old(self).perm,
            final(self).temp@.accounts == apply_changes(old(self).temp@.accounts, execution@.changes),
            final(self).temp@.tx_executions == old(self).temp@.tx_executions,
            final(self).temp@.external_block == old(self).temp@.external_block,
            final(self).temp@.active_block_number == Some(block_number),
    {
        self.temp.set_active_block_number(block_number);
        self.temp.save_account_changes(execution);
    }

    /// Resets the temporary overlay.
    pub fn reset_temp(&mut self)
        ensures
            final(self).temp@.is_empty(),
            final(self).perm == old(self).perm,
    {
        self.temp.reset();
    }

    /// Resets the permanent storage down to the given block number.
    pub fn reset_perm(&mut self, block_number: u64)
        ensures
            final(self).temp@ == old(self).temp@,
            final(self).perm.pview() == (PermStateV {
                blocks: old(self).perm.pview().blocks.take(
                    if block_number + 1 <= old(self).perm.pview().blocks.len() {
                        block_number + 1
                    } else {
                        old(self).perm.pview().blocks.len() as int
                    },
                ),
                block_number: block_number,
                ..old(self).perm.pview()
            }),
    {
        let _ = self.perm.reset_at(block_number);
    }

    /// Persists initial accounts; only valid before any block.
    pub fn save_accounts(&mut self, accounts: Vec<Account>) -> (r: Result<(), EthStorageError>)
        ensures
            final(self).temp@ == old(self).temp@,
            old(self).perm.pview().blocks.len() == 0 ==> {
                &&& r is Ok
                &&& final(self).perm.pview() == (PermStateV {
                    initial_accounts: old(self).perm.pview().initial_accounts
                        + crate::permanent::accounts_view(accounts@),
                    ..old(self).perm.pview()
                })
            },
            old(self).perm.pview().blocks.len() != 0 ==> r is Err && final(self).perm.pview()
                == old(self).perm.pview(),
    {
        self.perm.save_accounts(accounts)
    }

    /// Retrieves several slots at once from the permanent storage, as of a
    /// point in time.
    pub fn read_slots(
        &self,
        address: &Address,
        indexes: &Vec<SlotIndex>,
        point_in_time: &StoragePointInTime,
    ) -> (r: Vec<Slot>)
        ensures
            r@ == crate::permanent::slots_lookup(
                self.perm.pview(),
                *address,
                indexes@,
                self.perm.pview().upto_of(*point_in_time),
            ),
    {
        self.perm.read_slots(address, indexes, point_in_time)
    }

    /// Retrieves the mined logs selected by the filter from the permanent
    /// storage.
    pub fn read_logs(&self, filter: &LogFilter) -> (r: Vec<LogMined>)
        ensures
            crate::transaction::mined_logs_view(r@) == crate::permanent::filtered_logs_of_blocks(
                self.perm.pview().blocks,
                *filter,
            ),
    {
        self.perm.read_logs(filter)
    }

    /// Enables the genesis block.
    pub fn enable_genesis(&mut self, genesis: Block) -> (r: Result<(), EthStorageError>)
        ensures
            final(self).temp@ == old(self).temp@,
            old(self).perm.pview().blocks.len() == 0 && genesis@.header.number == 0 ==> {
                &&& r is Ok
                &&& final(self).perm.pview() == (PermStateV {
                    blocks: old(self).perm.pview().blocks.push(genesis@),
                    block_number: 0,
                    ..old(self).perm.pview()
                })
            },
            !(old(self).perm.pview().blocks.len() == 0 && genesis@.header.number == 0) ==> r is Err
                && final(self).perm.pview() == old(self).perm.pview(),
    {
        self.perm.enable_genesis(genesis)
    }

    /// Translates a block selection to a specific storage point-in-time
    /// indicator.
    pub fn translate_to_point_in_time(&self, block_selection: &BlockSelection) -> (r: Result<
        StoragePointInTime,
        EthStorageError,
    >)
        ensures
            match *block_selection {
                BlockSelection::Latest => r == Ok::<StoragePointInTime, EthStorageError>(
                    StoragePointInTime::Present,
                ),
                BlockSelection::Number(number) => r == Ok::<StoragePointInTime, EthStorageError>(
                    StoragePointInTime::Past(
                        if number <= self.perm.pview().block_number {
                            number
                        } else {
                            self.perm.pview().block_number
                        },
                    ),
                ),
                BlockSelection::Earliest => if self.perm.pview().blocks.len() == 0 {
                    r is Err
                } else {
                    r == Ok::<StoragePointInTime, EthStorageError>(
                        StoragePointInTime::Past(self.perm.pview().blocks[0].header.number),
                    )
                },
                BlockSelection::Hash(hash) => match find_block_by_hash(
                    self.perm.pview().blocks,
                    hash,
                ) {
                    Some(b) => r == Ok::<StoragePointInTime, EthStorageError>(
                        StoragePointInTime::Past(b.header.number),
                    ),
                    None => r is Err,
                },
            },
    {
        match block_selection {
            BlockSelection::Latest => Ok(StoragePointInTime::Present),
            BlockSelection::Number(number) => {
                let current_block = self.perm.read_mined_block_number();
                if *number <= current_block {
                    Ok(StoragePointInTime::Past(*number))
                } else {
                    Ok(StoragePointInTime::Past(current_block))
                }
            },
            BlockSelection::Earliest | BlockSelection::Hash(_) => {
                match self.read_block(block_selection) {
                    Some(block) => Ok(StoragePointInTime::Past(block.header.number)),
                    None => Err(EthStorageError::Unexpected),
                }
            },
        }
    }
}

/// With the counter in step with the committed blocks, the current block
/// number equals the count of blocks committed after genesis.
pub proof fn lemma_current_block_number_counts_blocks(st: PermStateV)
    requires
        st.synced(),
        st.blocks.len() >= 1,
    ensures
        st.block_number == st.blocks.len() - 1,
{
}

/// Committing the next dense block keeps the blocks dense and the counter
/// in step.
pub proof fn lemma_commit_preserves_wf(st: PermStateV, b: BlockV)
    requires
        st.wf(),
        b.header.number == st.blocks.len(),
    ensures
        (PermStateV { blocks: st.blocks.push(b), block_number: b.header.number, ..st }).wf(),
        (PermStateV { blocks: st.blocks.push(b), block_number: b.header.number, ..st }).synced(),
{
    let st2 = PermStateV { blocks: st.blocks.push(b), block_number: b.header.number, ..st };
    assert forall|i: int| 0 <= i < st2.blocks.len() implies (#[trigger] st2.blocks[i]).header.number
        == i by {
        if i < st.blocks.len() {
            assert(st2.blocks[i] == st.blocks[i]);
        } else {
            assert(st2.blocks[i] == b);
        }
    }
}

} // verus!
