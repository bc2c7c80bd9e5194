//! Permanent storage: durable, point-in-time queryable committed state.
//!
//! The meaning of a read is defined by replay: the state as of the end of
//! block `k` is the initial accounts with every change of blocks `0..=k`
//! applied in order (block order, transaction order, change order). The
//! in-memory implementation answers reads by that very fold, so it is its
//! own model.

use vstd::prelude::*;

use crate::block::Block;
use crate::block::BlockSelection;
use crate::block::BlockV;
use crate::block::StoragePointInTime;
use crate::execution::changes_view;
use crate::execution::AccountChangesV;
use crate::execution::ExecutionAccountChanges;
use crate::execution::ExecutionConflicts;
use crate::execution::SlotChange;
use crate::primitives::Account;
use crate::primitives::AccountV;
use crate::primitives::Address;
use crate::primitives::Slot;
use crate::primitives::SlotIndex;
use crate::primitives::SlotValue;
use crate::transaction::filtered_logs_of_txs;
use crate::transaction::LogFilter;
use crate::transaction::LogMined;
use crate::transaction::LogMinedV;
use crate::transaction::TransactionMined;
use crate::transaction::TransactionMinedV;

verus! {

/// Failure of a storage operation.
#[derive(Debug)]
pub enum EthStorageError {
    /// Committing the block lost a race: its changes no longer apply.
    Conflict(ExecutionConflicts),
    /// The operation cannot apply to the current state (a non-dense block
    /// number, a counter at its maximum, or genesis accounts after the
    /// first block).
    Unexpected,
}

/// View of a list of accounts.
pub open spec fn accounts_view(s: Seq<Account>) -> Seq<AccountV> {
    Seq::new(s.len(), |i: int| s[i]@)
}

/// View of an optional account.
pub open spec fn opt_account_view(x: Option<Account>) -> Option<AccountV> {
    match x {
        None => None,
        Some(a) => Some(a@),
    }
}

/// Mathematical value of the permanent storage.
#[verifier::ext_equal]
pub ghost struct PermStateV {
    /// Genesis and test accounts, before any block.
    pub initial_accounts: Seq<AccountV>,
    /// Committed blocks, in order; block `i` has number `i`.
    pub blocks: Seq<BlockV>,
    /// The current mined block number.
    pub block_number: u64,
}

impl PermStateV {
    /// Block numbers are dense from zero.
    pub open spec fn wf(self) -> bool {
        forall|i: int| 0 <= i < self.blocks.len() ==> (#[trigger] self.blocks[i]).header.number == i
    }

    /// The mined-number counter agrees with the committed blocks.
    pub open spec fn synced(self) -> bool {
        if self.blocks.len() == 0 {
            self.block_number == 0
        } else {
            self.block_number == self.blocks.len() - 1
        }
    }

    /// How many committed blocks a point-in-time read covers.
    pub open spec fn upto_of(self, pit: StoragePointInTime) -> int {
        match pit {
            StoragePointInTime::Present => self.blocks.len() as int,
            StoragePointInTime::Past(k) => if k + 1 <= self.blocks.len() {
                k + 1
            } else {
                self.blocks.len() as int
            },
        }
    }
}

/// First initial account with the given address, if any.
pub open spec fn find_initial(accs: Seq<AccountV>, address: Address) -> Option<AccountV>
    decreases accs.len(),
{
    if accs.len() == 0 {
        None
    } else if accs[0].address == address {
        Some(accs[0])
    } else {
        find_initial(accs.skip(1), address)
    }
}

/// One change set applied to an account's committed state: present deltas
/// overwrite, and a change for another address does nothing.
pub open spec fn apply_acct_change(
    a: Option<AccountV>,
    ch: AccountChangesV,
    address: Address,
) -> Option<AccountV> {
    if ch.address != address {
        a
    } else {
        let base = match a {
            Some(x) => x,
            None => AccountV::new_empty(address),
        };
        Some(
            AccountV {
                address: base.address,
                nonce: match ch.nonce.modified {
                    Some(n) => n,
                    None => base.nonce,
                },
                balance: match ch.balance.modified {
                    Some(b) => b,
                    None => base.balance,
                },
                bytecode: match ch.bytecode_modified {
                    Some(Some(code)) => Some(code),
                    _ => base.bytecode,
                },
                code_hash: base.code_hash,
                static_slot_indexes: match ch.static_indexes_modified {
                    Some(indexes) => Some(indexes),
                    None => base.static_slot_indexes,
                },
                mapping_slot_indexes: match ch.mapping_indexes_modified {
                    Some(indexes) => Some(indexes),
                    None => base.mapping_slot_indexes,
                },
            },
        )
    }
}

/// A list of change sets applied in order.
pub open spec fn acct_after_changes(
    a: Option<AccountV>,
    changes: Seq<AccountChangesV>,
    address: Address,
) -> Option<AccountV>
    decreases changes.len(),
{
    if changes.len() == 0 {
        a
    } else {
        apply_acct_change(acct_after_changes(a, changes.drop_last(), address), changes.last(), address)
    }
}

/// A block's transactions applied in order.
pub open spec fn acct_after_txs(
    a: Option<AccountV>,
    txs: Seq<TransactionMinedV>,
    address: Address,
) -> Option<AccountV>
    decreases txs.len(),
{
    if txs.len() == 0 {
        a
    } else {
        acct_after_changes(
            acct_after_txs(a, txs.drop_last(), address),
            txs.last().execution.changes,
            address,
        )
    }
}

/// A list of blocks applied in order.
pub open spec fn acct_after_blocks(
    a: Option<AccountV>,
    blocks: Seq<BlockV>,
    address: Address,
) -> Option<AccountV>
    decreases blocks.len(),
{
    if blocks.len() == 0 {
        a
    } else {
        acct_after_txs(
            acct_after_blocks(a, blocks.drop_last(), address),
            blocks.last().transactions,
            address,
        )
    }
}

/// The account state visible after the first `upto` committed blocks.
pub open spec fn account_at(st: PermStateV, address: Address, upto: int) -> Option<AccountV> {
    acct_after_blocks(find_initial(st.initial_accounts, address), st.blocks.take(upto), address)
}

/// One slot change applied to a slot's committed value.
pub open spec fn apply_slot_write(
    v: Option<SlotValue>,
    sc: SlotChange,
    index: SlotIndex,
) -> Option<SlotValue> {
    if sc.index == index && sc.modified is Some {
        sc.modified
    } else {
        v
    }
}

/// A change set's slot writes applied in order.
pub open spec fn slot_after_writes(
    v: Option<SlotValue>,
    writes: Seq<SlotChange>,
    index: SlotIndex,
) -> Option<SlotValue>
    decreases writes.len(),
{
    if writes.len() == 0 {
        v
    } else {
        apply_slot_write(slot_after_writes(v, writes.drop_last(), index), writes.last(), index)
    }
}

/// A list of change sets applied in order to one slot of one address.
pub open spec fn slot_after_changes(
    v: Option<SlotValue>,
    changes: Seq<AccountChangesV>,
    address: Address,
    index: SlotIndex,
) -> Option<SlotValue>
    decreases changes.len(),
{
    if changes.len() == 0 {
        v
    } else {
        let prev = slot_after_changes(v, changes.drop_last(), address, index);
        if changes.last().address == address {
            slot_after_writes(prev, changes.last().slots, index)
        } else {
            prev
        }
    }
}

/// A block's transactions applied in order to one slot.
pub open spec fn slot_after_txs(
    v: Option<SlotValue>,
    txs: Seq<TransactionMinedV>,
    address: Address,
    index: SlotIndex,
) -> Option<SlotValue>
    decreases txs.len(),
{
    if txs.len() == 0 {
        v
    } else {
        slot_after_changes(
            slot_after_txs(v, txs.drop_last(), address, index),
            txs.last().execution.changes,
            address,
            index,
        )
    }
}

/// A list of blocks applied in order to one slot.
pub open spec fn slot_after_blocks(
    v: Option<SlotValue>,
    blocks: Seq<BlockV>,
    address: Address,
    index: SlotIndex,
) -> Option<SlotValue>
    decreases blocks.len(),
{
    if blocks.len() == 0 {
        v
    } else {
        slot_after_txs(
            slot_after_blocks(v, blocks.drop_last(), address, index),
            blocks.last().transactions,
            address,
            index,
        )
    }
}

/// The slot value visible after the first `upto` committed blocks.
pub open spec fn slot_at(st: PermStateV, address: Address, index: SlotIndex, upto: int) -> Option<
    SlotValue,
> {
    slot_after_blocks(None, st.blocks.take(upto), address, index)
}

/// What a multi-slot read returns: for each queried index in order, the
/// slot if it is visible at the point in time, and nothing otherwise.
pub open spec fn slots_lookup(
    st: PermStateV,
    address: Address,
    indexes: Seq<SlotIndex>,
    upto: int,
) -> Seq<Slot>
    decreases indexes.len(),
{
    if indexes.len() == 0 {
        Seq::empty()
    } else {
        slots_lookup(st, address, indexes.drop_last(), upto) + (match slot_at(
            st,
            address,
            indexes.last(),
            upto,
        ) {
            Some(v) => seq![Slot { index: indexes.last(), value: v }],
            None => Seq::empty(),
        })
    }
}

/// First block with the given number, if any.
pub open spec fn find_block_by_number(blocks: Seq<BlockV>, number: u64) -> Option<BlockV>
    decreases blocks.len(),
{
    if blocks.len() == 0 {
        None
    } else if blocks[0].header.number == number {
        Some(blocks[0])
    } else {
        find_block_by_number(blocks.skip(1), number)
    }
}

/// First block with the given hash, if any.
pub open spec fn find_block_by_hash(blocks: Seq<BlockV>, hash: crate::primitives::Hash256) -> Option<
    BlockV,
>
    decreases blocks.len(),
{
    if blocks.len() == 0 {
        None
    } else if blocks[0].header.hash == hash {
        Some(blocks[0])
    } else {
        find_block_by_hash(blocks.skip(1), hash)
    }
}

/// View of an optional block.
pub open spec fn opt_block_view(x: Option<Block>) -> Option<BlockV> {
    match x {
        None => None,
        Some(b) => Some(b@),
    }
}

/// What a block read must return for each selection.
pub open spec fn block_selection_spec(st: PermStateV, selection: BlockSelection) -> Option<BlockV> {
    match selection {
        BlockSelection::Latest => if st.blocks.len() == 0 {
            None
        } else {
            Some(st.blocks.last())
        },
        BlockSelection::Earliest => if st.blocks.len() == 0 {
            None
        } else {
            Some(st.blocks[0])
        },
        BlockSelection::Number(n) => find_block_by_number(st.blocks, n),
        BlockSelection::Hash(h) => find_block_by_hash(st.blocks, h),
    }
}

/// Permanent (committed) storage operations, specified against the replay
/// model [`PermStateV`].
pub trait PermanentStorage: Sized {
    /// The storage's mathematical value.
    spec fn pview(&self) -> PermStateV;

    /// Retrieves the last mined block number.
    fn read_mined_block_number(&self) -> (r: u64)
        ensures
            r == self.pview().block_number,
    ;

    /// Sets the last mined block number to a specific value.
    fn set_mined_block_number(&mut self, number: u64)
        ensures
            final(self).pview() == (PermStateV { block_number: number, ..old(self).pview() }),
    ;

    /// Atomically increments the block number, returning the new value.
    fn increment_block_number(&mut self) -> (r: Result<u64, EthStorageError>)
        ensures
            old(self).pview().block_number < u64::MAX ==> {
                &&& r == Ok::<u64, EthStorageError>((old(self).pview().block_number + 1) as u64)
                &&& final(self).pview() == (PermStateV {
                    block_number: (old(self).pview().block_number + 1) as u64,
                    ..old(self).pview()
                })
            },
            old(self).pview().block_number == u64::MAX ==> r is Err && final(self).pview() == old(self).pview(),
    ;

    /// Persists atomically all changes from a block. The block must carry
    /// the next dense number.
    fn save_block(&mut self, block: Block) -> (r: Result<(), EthStorageError>)
        ensures
            block@.header.number == old(self).pview().blocks.len() ==> {
                &&& r is Ok
                &&& final(self).pview() == (PermStateV {
                    blocks: old(self).pview().blocks.push(block@),
                    block_number: block@.header.number,
                    ..old(self).pview()
                })
            },
            block@.header.number != old(self).pview().blocks.len() ==> r is Err && final(self).pview() == old(self).pview(),
    ;

    /// Retrieves a block from the storage.
    fn read_block(&self, selection: &BlockSelection) -> (r: Option<Block>)
        ensures
            opt_block_view(r) == block_selection_spec(self.pview(), *selection),
    ;

    /// Retrieves an account as of a point in time; `None` when it never
    /// existed there.
    fn read_account(&self, address: &Address, point_in_time: &StoragePointInTime) -> (r: Option<
        Account,
    >)
        ensures
            opt_account_view(r) == account_at(
                self.pview(),
                *address,
                self.pview().upto_of(*point_in_time),
            ),
    ;

    /// Retrieves a slot as of a point in time; `None` when it was never
    /// written there.
    fn read_slot(&self, address: &Address, index: &SlotIndex, point_in_time: &StoragePointInTime) -> (
        r: Option<Slot>)
        ensures
            match slot_at(self.pview(), *address, *index, self.pview().upto_of(*point_in_time)) {
                None => r is None,
                Some(v) => r == Some(Slot { index: *index, value: v }),
            },
    ;

    /// Retrieves several slots at once, as of a point in time: one entry
    /// per queried index that is visible there, in query order.
    fn read_slots(
        &self,
        address: &Address,
        indexes: &Vec<SlotIndex>,
        point_in_time: &StoragePointInTime,
    ) -> (r: Vec<Slot>)
        ensures
            r@ == slots_lookup(
                self.pview(),
                *address,
                indexes@,
                self.pview().upto_of(*point_in_time),
            ),
    ;

    /// Retrieves a mined transaction by hash.
    fn read_mined_transaction(&self, hash: &crate::primitives::Hash256) -> (r: Option<
        TransactionMined,
    >)
        ensures
            match find_mined_transaction(self.pview().blocks, *hash) {
                None => r is None,
                Some(t) => r matches Some(tm) && tm@ == t,
            },
    ;

    /// Persists initial accounts (test or genesis accounts); only valid
    /// before any block is committed.
    fn save_accounts(&mut self, accounts: Vec<Account>) -> (r: Result<(), EthStorageError>)
        ensures
            old(self).pview().blocks.len() == 0 ==> {
                &&& r is Ok
                &&& final(self).pview() == (PermStateV {
                    initial_accounts: old(self).pview().initial_accounts + accounts_view(
                        accounts@,
                    ),
                    ..old(self).pview()
                })
            },
            old(self).pview().blocks.len() != 0 ==> r is Err && final(self).pview() == old(self).pview(),
    ;

    /// Resets all state to a specific block number: blocks above it are
    /// dropped.
    fn reset_at(&mut self, number: u64) -> (r: Result<(), EthStorageError>)
        ensures
            r is Ok,
            final(self).pview() == (PermStateV {
                blocks: old(self).pview().blocks.take(
                    if number + 1 <= old(self).pview().blocks.len() {
                        number + 1
                    } else {
                        old(self).pview().blocks.len() as int
                    },
                ),
                block_number: number,
                ..old(self).pview()
            }),
    ;

    /// Enables the genesis block: only valid on an empty storage, and only
    /// for block number zero.
    fn enable_genesis(&mut self, genesis: Block) -> (r: Result<(), EthStorageError>)
        ensures
            old(self).pview().blocks.len() == 0 && genesis@.header.number == 0 ==> {
                &&& r is Ok
                &&& final(self).pview() == (PermStateV {
                    blocks: old(self).pview().blocks.push(genesis@),
                    block_number: 0,
                    ..old(self).pview()
                })
            },
            !(old(self).pview().blocks.len() == 0 && genesis@.header.number == 0) ==> r is Err
                && final(self).pview() == old(self).pview(),
    ;

    /// Retrieves the mined logs selected by the filter, ordered by block,
    /// transaction, and emission position.
    fn read_logs(&self, filter: &LogFilter) -> (r: Vec<LogMined>)
        ensures
            crate::transaction::mined_logs_view(r@) == filtered_logs_of_blocks(
                self.pview().blocks,
                *filter,
            ),
    ;

    /// Allows the storage to allocate per-thread resources for EVM
    /// execution; a read-only handle, so the state cannot change.
    fn allocate_evm_thread_resources(&self);
}

/// First transaction with the given hash across all blocks, in block and
/// transaction order.
pub open spec fn find_mined_transaction(blocks: Seq<BlockV>, hash: crate::primitives::Hash256) -> Option<
    TransactionMinedV,
>
    decreases blocks.len(),
{
    if blocks.len() == 0 {
        None
    } else {
        match find_tx_in_block(blocks[0].transactions, hash) {
            Some(t) => Some(t),
            None => find_mined_transaction(blocks.skip(1), hash),
        }
    }
}

/// First transaction with the given hash within one block.
pub open spec fn find_tx_in_block(txs: Seq<TransactionMinedV>, hash: crate::primitives::Hash256) -> Option<
    TransactionMinedV,
>
    decreases txs.len(),
{
    if txs.len() == 0 {
        None
    } else if txs[0].input.hash == hash {
        Some(txs[0])
    } else {
        find_tx_in_block(txs.skip(1), hash)
    }
}

/// The selected logs of a list of blocks, in block order.
pub open spec fn filtered_logs_of_blocks(blocks: Seq<BlockV>, filter: LogFilter) -> Seq<LogMinedV>
    decreases blocks.len(),
{
    if blocks.len() == 0 {
        Seq::empty()
    } else {
        filtered_logs_of_blocks(blocks.drop_last(), filter) + filtered_logs_of_txs(
            blocks.last().transactions,
            filter,
        )
    }
}

/// Whether any change set in the list writes the given slot of the given
/// address.
pub open spec fn slot_write_in(chs: Seq<AccountChangesV>, address: Address, index: SlotIndex) -> bool {
    exists|k: int, l: int|
        #![trigger chs[k].slots[l]]
        0 <= k < chs.len() && 0 <= l < chs[k].slots.len() && chs[k].address == address
            && chs[k].slots[l].index == index && chs[k].slots[l].modified is Some
}

/// Whether any transaction of the block writes the given slot.
pub open spec fn block_writes_slot(b: BlockV, address: Address, index: SlotIndex) -> bool {
    exists|t: int|
        0 <= t < b.transactions.len() && slot_write_in(
            (#[trigger] b.transactions[t]).execution.changes,
            address,
            index,
        )
}

/// A write list without a write to the slot leaves its value alone.
proof fn lemma_no_write_slot_writes(v: Option<SlotValue>, writes: Seq<SlotChange>, index: SlotIndex)
    requires
        forall|l: int|
            0 <= l < writes.len() ==> !((#[trigger] writes[l]).index == index
                && writes[l].modified is Some),
    ensures
        slot_after_writes(v, writes, index) == v,
    decreases writes.len(),
{
    if writes.len() > 0 {
        assert forall|l: int| 0 <= l < writes.drop_last().len() implies !((#[trigger] writes.drop_last()[l]).index
            == index && writes.drop_last()[l].modified is Some) by {
            assert(writes.drop_last()[l] == writes[l]);
        }
        lemma_no_write_slot_writes(v, writes.drop_last(), index);
        assert(writes.last() == writes[writes.len() - 1]);
    }
}

/// A change-set list without a write to the slot leaves its value alone.
proof fn lemma_no_write_changes(
    v: Option<SlotValue>,
    chs: Seq<AccountChangesV>,
    address: Address,
    index: SlotIndex,
)
    requires
        !slot_write_in(chs, address, index),
    ensures
        slot_after_changes(v, chs, address, index) == v,
    decreases chs.len(),
{
    if chs.len() > 0 {
        assert(!slot_write_in(chs.drop_last(), address, index)) by {
            if slot_write_in(chs.drop_last(), address, index) {
                let (k, l) = choose|k: int, l: int|
                    #![trigger chs.drop_last()[k].slots[l]]
                    0 <= k < chs.drop_last().len() && 0 <= l < chs.drop_last()[k].slots.len()
                        && chs.drop_last()[k].address == address && chs.drop_last()[k].slots[l].index
                        == index && chs.drop_last()[k].slots[l].modified is Some;
                assert(chs.drop_last()[k] == chs[k]);
                assert(chs[k].slots[l].index == index && chs[k].slots[l].modified is Some);
            }
        }
        lemma_no_write_changes(v, chs.drop_last(), address, index);
        let c = chs.last();
        if c.address == address {
            assert forall|l: int| 0 <= l < c.slots.len() implies !((#[trigger] c.slots[l]).index
                == index && c.slots[l].modified is Some) by {
                if c.slots[l].index == index && c.slots[l].modified is Some {
                    assert(chs[chs.len() - 1] == c);
                    assert(chs[chs.len() - 1].slots[l].index == index);
                    assert(slot_write_in(chs, address, index));
                }
            }
            lemma_no_write_slot_writes(
                slot_after_changes(v, chs.drop_last(), address, index),
                c.slots,
                index,
            );
        }
    }
}

/// A transaction list without a write to the slot leaves its value alone.
proof fn lemma_no_write_txs(
    v: Option<SlotValue>,
    txs: Seq<TransactionMinedV>,
    address: Address,
    index: SlotIndex,
)
    requires
        forall|t: int|
            0 <= t < txs.len() ==> !slot_write_in(
                (#[trigger] txs[t]).execution.changes,
                address,
                index,
            ),
    ensures
        slot_after_txs(v, txs, address, index) == v,
    decreases txs.len(),
{
    if txs.len() > 0 {
        assert forall|t: int| 0 <= t < txs.drop_last().len() implies !slot_write_in(
            (#[trigger] txs.drop_last()[t]).execution.changes,
            address,
            index,
        ) by {
            assert(txs.drop_last()[t] == txs[t]);
        }
        lemma_no_write_txs(v, txs.drop_last(), address, index);
        assert(txs.last() == txs[txs.len() - 1]);
        lemma_no_write_changes(
            slot_after_txs(v, txs.drop_last(), address, index),
            txs.last().execution.changes,
            address,
            index,
        );
    }
}

/// Blocks `u1..u2` without a write to the slot do not change what a read
/// covering them returns.
proof fn lemma_no_write_blocks_range(
    blocks: Seq<BlockV>,
    address: Address,
    index: SlotIndex,
    u1: int,
    u2: int,
)
    requires
        0 <= u1 <= u2 <= blocks.len(),
        forall|j: int| u1 <= j < u2 ==> !block_writes_slot(#[trigger] blocks[j], address, index),
    ensures
        slot_after_blocks(None, blocks.take(u2), address, index) == slot_after_blocks(
            None,
            blocks.take(u1),
            address,
            index,
        ),
    decreases u2 - u1,
{
    if u2 > u1 {
        lemma_no_write_blocks_range(blocks, address, index, u1, u2 - 1);
        assert(blocks.take(u2).drop_last() =~= blocks.take(u2 - 1));
        assert(blocks.take(u2).last() == blocks[u2 - 1]);
        let b = blocks[u2 - 1];
        assert forall|t: int| 0 <= t < b.transactions.len() implies !slot_write_in(
            (#[trigger] b.transactions[t]).execution.changes,
            address,
            index,
        ) by {
            if slot_write_in(b.transactions[t].execution.changes, address, index) {
                assert(block_writes_slot(b, address, index));
            }
        }
        lemma_no_write_txs(
            slot_after_blocks(None, blocks.take(u2 - 1), address, index),
            b.transactions,
            address,
            index,
        );
    }
}

/// Point-in-time monotonicity: when no block in `(k1, k2]` writes the
/// slot, reading it as of `k1` and as of `k2` give the same value.
pub proof fn lemma_point_in_time_monotonic(
    st: PermStateV,
    address: Address,
    index: SlotIndex,
    k1: u64,
    k2: u64,
)
    requires
        k1 <= k2,
        forall|j: int|
            k1 < j <= k2 && j < st.blocks.len() ==> !block_writes_slot(
                #[trigger] st.blocks[j],
                address,
                index,
            ),
    ensures
        slot_at(st, address, index, st.upto_of(StoragePointInTime::Past(k1))) == slot_at(
            st,
            address,
            index,
            st.upto_of(StoragePointInTime::Past(k2)),
        ),
{
    let u1 = st.upto_of(StoragePointInTime::Past(k1));
    let u2 = st.upto_of(StoragePointInTime::Past(k2));
    assert(0 <= u1 <= u2 <= st.blocks.len());
    assert forall|j: int| u1 <= j < u2 implies !block_writes_slot(
        #[trigger] st.blocks[j],
        address,
        index,
    ) by {
        assert(k1 < j <= k2 && j < st.blocks.len());
    }
    lemma_no_write_blocks_range(st.blocks, address, index, u1, u2);
}

/// Committing a block whose net effect writes the slot from `orig` to
/// `newv` makes the new value visible as of the new block and keeps the
/// old value visible as of the block before it.
pub proof fn lemma_commit_slot_point_in_time(
    st: PermStateV,
    b: BlockV,
    address: Address,
    index: SlotIndex,
    orig: Option<SlotValue>,
    newv: SlotValue,
)
    requires
        b.header.number == st.blocks.len(),
        slot_at(st, address, index, st.blocks.len() as int) == orig,
        slot_after_txs(orig, b.transactions, address, index) == Some(newv),
    ensures
        ({
            let st2 = PermStateV { blocks: st.blocks.push(b), block_number: b.header.number, ..st };
            &&& slot_at(st2, address, index, st2.upto_of(StoragePointInTime::Past(b.header.number)))
                == Some(newv)
            &&& st.blocks.len() >= 1 ==> slot_at(
                st2,
                address,
                index,
                st2.upto_of(StoragePointInTime::Past((b.header.number - 1) as u64)),
            ) == orig
        }),
{
    let st2 = PermStateV { blocks: st.blocks.push(b), block_number: b.header.number, ..st };
    let len = st.blocks.len() as int;
    assert(st2.upto_of(StoragePointInTime::Past(b.header.number)) == len + 1);
    assert(st2.blocks.take(len + 1) =~= st.blocks.push(b));
    assert(st.blocks.push(b).drop_last() =~= st.blocks);
    assert(st.blocks.take(len) =~= st.blocks);
    assert(st.blocks.push(b).last() == b);
    if st.blocks.len() >= 1 {
        assert(st2.upto_of(StoragePointInTime::Past((b.header.number - 1) as u64)) == len);
        assert(st2.blocks.take(len) =~= st.blocks);
    }
}

/// The account-level counterpart: committing a block whose net effect
/// takes the account from `orig` to `newacct` makes the new state visible
/// as of the new block and keeps the old state visible as of the block
/// before it.
pub proof fn lemma_commit_account_point_in_time(
    st: PermStateV,
    b: BlockV,
    address: Address,
    orig: Option<AccountV>,
    newacct: AccountV,
)
    requires
        b.header.number == st.blocks.len(),
        account_at(st, address, st.blocks.len() as int) == orig,
        acct_after_txs(orig, b.transactions, address) == Some(newacct),
    ensures
        ({
            let st2 = PermStateV { blocks: st.blocks.push(b), block_number: b.header.number, ..st };
            &&& account_at(st2, address, st2.upto_of(StoragePointInTime::Past(b.header.number)))
                == Some(newacct)
            &&& st.blocks.len() >= 1 ==> account_at(
                st2,
                address,
                st2.upto_of(StoragePointInTime::Past((b.header.number - 1) as u64)),
            ) == orig
        }),
{
    let st2 = PermStateV { blocks: st.blocks.push(b), block_number: b.header.number, ..st };
    let len = st.blocks.len() as int;
    assert(st2.upto_of(StoragePointInTime::Past(b.header.number)) == len + 1);
    assert(st2.blocks.take(len + 1) =~= st.blocks.push(b));
    assert(st.blocks.push(b).drop_last() =~= st.blocks);
    assert(st.blocks.take(len) =~= st.blocks);
    assert(st.blocks.push(b).last() == b);
    if st.blocks.len() >= 1 {
        assert(st2.upto_of(StoragePointInTime::Past((b.header.number - 1) as u64)) == len);
        assert(st2.blocks.take(len) =~= st.blocks);
    }
}

} // verus!
