//! The in-memory permanent storage: it keeps the committed blocks and
//! answers every point-in-time read by replaying them, so the replay model
//! is satisfied definitionally.

use vstd::prelude::*;

use crate::block::Block;
use crate::block::BlockSelection;
use crate::block::BlockV;
use crate::block::StoragePointInTime;
use crate::execution::changes_view;
use crate::execution::ExecutionAccountChanges;
use crate::execution::SlotChange;
use crate::permanent::accounts_view;
use crate::permanent::acct_after_blocks;
use crate::permanent::acct_after_changes;
use crate::permanent::acct_after_txs;
use crate::permanent::account_at;
use crate::permanent::apply_acct_change;
use crate::permanent::apply_slot_write;
use crate::permanent::block_selection_spec;
use crate::permanent::find_block_by_hash;
use crate::permanent::find_block_by_number;
use crate::permanent::find_initial;
use crate::permanent::find_mined_transaction;
use crate::permanent::find_tx_in_block;
use crate::permanent::opt_account_view;
use crate::permanent::opt_block_view;
use crate::permanent::slot_after_blocks;
use crate::permanent::slot_after_changes;
use crate::permanent::slot_after_txs;
use crate::permanent::slot_after_writes;
use crate::permanent::slot_at;
use crate::permanent::slots_lookup;
use crate::permanent::EthStorageError;
use crate::permanent::PermStateV;
use crate::permanent::PermanentStorage;
use crate::primitives::Account;
use crate::primitives::Address;
use crate::primitives::Hash256;
use crate::primitives::Slot;
use crate::primitives::SlotIndex;
use crate::primitives::SlotValue;
use crate::permanent::filtered_logs_of_blocks;
use crate::transaction::filtered_logs_of_tx;
use crate::transaction::filtered_logs_of_txs;
use crate::transaction::mined_logs_view;
use crate::transaction::mined_txs_view;
use crate::transaction::LogFilter;
use crate::transaction::LogMined;
use crate::transaction::TransactionMined;

verus! {

/// View of a list of blocks.
pub open spec fn blocks_view(s: Seq<Block>) -> Seq<BlockV> {
    Seq::new(s.len(), |i: int| s[i]@)
}

/// Committed state held in memory.
#[derive(Debug)]
pub struct InMemoryPermanentStorage {
    pub initial_accounts: Vec<Account>,
    pub blocks: Vec<Block>,
    pub block_number: u64,
}

impl View for InMemoryPermanentStorage {
    type V = PermStateV;

    open spec fn view(&self) -> PermStateV {
        PermStateV {
            initial_accounts: accounts_view(self.initial_accounts@),
            blocks: blocks_view(self.blocks@),
            block_number: self.block_number,
        }
    }
}

impl InMemoryPermanentStorage {
    /// Creates an empty committed state.
    pub fn new() -> (r: InMemoryPermanentStorage)
        ensures
            r@.initial_accounts.len() == 0,
            r@.blocks.len() == 0,
            r@.block_number == 0,
    {
        InMemoryPermanentStorage {
            initial_accounts: Vec::new(),
            blocks: Vec::new(),
            block_number: 0,
        }
    }
}

/// One change set applied to an optional account.
fn apply_one_change(acc: Option<Account>, ch: &ExecutionAccountChanges, address: &Address) -> (r:
    Option<Account>)
    ensures
        opt_account_view(r) == apply_acct_change(opt_account_view(acc), ch@, *address),
{
    if !ch.address.eq_addr(address) {
        return acc;
    }
    let mut base = match acc {
        Some(a) => a,
        None => Account::new_empty(*address),
    };
    if let Some(n) = ch.nonce.modified {
        base.nonce = n;
    }
    if let Some(b) = ch.balance.modified {
        base.balance = b;
    }
    match &ch.bytecode.modified {
        Some(Some(code)) => {
            base.bytecode = Some(code.clone());
        },
        _ => {},
    }
    match &ch.static_slot_indexes.modified {
        Some(indexes) => {
            let c = indexes.clone();
            proof {
                assert(c@ =~= indexes@);
            }
            base.static_slot_indexes = Some(c);
        },
        None => {},
    }
    match &ch.mapping_slot_indexes.modified {
        Some(indexes) => {
            let c = indexes.clone();
            proof {
                assert(c@ =~= indexes@);
            }
            base.mapping_slot_indexes = Some(c);
        },
        None => {},
    }
    let r = Some(base);
    proof {
        let expected = apply_acct_change(opt_account_view(acc), ch@, *address);
        assert(expected is Some && opt_account_view(r) is Some);
        assert(opt_account_view(r)->Some_0 =~= expected->Some_0);
        assert(opt_account_view(r) == expected);
    }
    r
}

/// All change sets of one execution applied in order.
fn acct_changes_exec(
    acc: Option<Account>,
    changes: &Vec<ExecutionAccountChanges>,
    address: &Address,
) -> (r: Option<Account>)
    ensures
        opt_account_view(r) == acct_after_changes(
            opt_account_view(acc),
            changes_view(changes@),
            *address,
        ),
{
    let ghost init = opt_account_view(acc);
    let ghost chs = changes_view(changes@);
    let n = changes.len();
    let mut cur = acc;
    let mut k: usize = 0;
    proof {
        assert(chs.take(0) =~= Seq::<crate::execution::AccountChangesV>::empty());
    }
    while k < n
        invariant
            k <= n,
            n == changes@.len(),
            chs == changes_view(changes@),
            opt_account_view(cur) == acct_after_changes(init, chs.take(k as int), *address),
        decreases n - k,
    {
        proof {
            assert(chs.take(k + 1).drop_last() =~= chs.take(k as int));
            assert(chs.take(k + 1).last() == chs[k as int]);
        }
        cur = apply_one_change(cur, &changes[k], address);
        k = k + 1;
    }
    proof {
        assert(chs.take(n as int) =~= chs);
    }
    cur
}

/// A block's transactions applied in order.
fn acct_txs_exec(acc: Option<Account>, txs: &Vec<TransactionMined>, address: &Address) -> (r:
    Option<Account>)
    ensures
        opt_account_view(r) == acct_after_txs(opt_account_view(acc), mined_txs_view(txs@), *address),
{
    let ghost init = opt_account_view(acc);
    let ghost tv = mined_txs_view(txs@);
    let n = txs.len();
    let mut cur = acc;
    let mut k: usize = 0;
    proof {
        assert(tv.take(0) =~= Seq::<crate::transaction::TransactionMinedV>::empty());
    }
    while k < n
        invariant
            k <= n,
            n == txs@.len(),
            tv == mined_txs_view(txs@),
            opt_account_view(cur) == acct_after_txs(init, tv.take(k as int), *address),
        decreases n - k,
    {
        proof {
            assert(tv.take(k + 1).drop_last() =~= tv.take(k as int));
            assert(tv.take(k + 1).last() == tv[k as int]);
        }
        cur = acct_changes_exec(cur, &txs[k].execution.changes, address);
        k = k + 1;
    }
    proof {
        assert(tv.take(n as int) =~= tv);
    }
    cur
}

/// First initial account with the given address, cloned.
fn find_initial_exec(accounts: &Vec<Account>, address: &Address) -> (r: Option<Account>)
    ensures
        opt_account_view(r) == find_initial(accounts_view(accounts@), *address),
{
    let ghost all = accounts_view(accounts@);
    let n = accounts.len();
    let mut i: usize = 0;
    proof {
        assert(all.skip(0) =~= all);
    }
    while i < n
        invariant
            i <= n,
            n == accounts@.len(),
            all == accounts_view(accounts@),
            find_initial(all, *address) == find_initial(all.skip(i as int), *address),
        decreases n - i,
    {
        proof {
            assert(all.skip(i as int)[0] == all[i as int]);
            assert(all.skip(i as int).skip(1) =~= all.skip(i + 1));
        }
        if accounts[i].address.eq_addr(address) {
            return Some(accounts[i].clone());
        }
        i = i + 1;
    }
    None
}

/// One change set's slot writes applied in order.
fn slot_writes_exec(v: Option<SlotValue>, writes: &Vec<SlotChange>, index: &SlotIndex) -> (r:
    Option<SlotValue>)
    ensures
        r == slot_after_writes(v, writes@, *index),
{
    let ghost all = writes@;
    let n = writes.len();
    let mut cur = v;
    let mut k: usize = 0;
    proof {
        assert(all.take(0) =~= Seq::<SlotChange>::empty());
    }
    while k < n
        invariant
            k <= n,
            n == writes@.len(),
            all == writes@,
            cur == slot_after_writes(v, all.take(k as int), *index),
        decreases n - k,
    {
        proof {
            assert(all.take(k + 1).drop_last() =~= all.take(k as int));
            assert(all.take(k + 1).last() == all[k as int]);
        }
        let sc = writes[k];
        if sc.index.eq_index(index) && sc.modified.is_some() {
            cur = sc.modified;
        }
        k = k + 1;
    }
    proof {
        assert(all.take(n as int) =~= all);
    }
    cur
}

/// All change sets of one execution applied in order to one slot.
fn slot_changes_exec(
    v: Option<SlotValue>,
    changes: &Vec<ExecutionAccountChanges>,
    address: &Address,
    index: &SlotIndex,
) -> (r: Option<SlotValue>)
    ensures
        r == slot_after_changes(v, changes_view(changes@), *address, *index),
{
    let ghost chs = changes_view(changes@);
    let n = changes.len();
    let mut cur = v;
    let mut k: usize = 0;
    proof {
        assert(chs.take(0) =~= Seq::<crate::execution::AccountChangesV>::empty());
    }
    while k < n
        invariant
            k <= n,
            n == changes@.len(),
            chs == changes_view(changes@),
            cur == slot_after_changes(v, chs.take(k as int), *address, *index),
        decreases n - k,
    {
        proof {
            assert(chs.take(k + 1).drop_last() =~= chs.take(k as int));
            assert(chs.take(k + 1).last() == chs[k as int]);
        }
        if changes[k].address.eq_addr(address) {
            cur = slot_writes_exec(cur, &changes[k].slots, index);
        }
        k = k + 1;
    }
    proof {
        assert(chs.take(n as int) =~= chs);
    }
    cur
}

/// A block's transactions applied in order to one slot.
fn slot_txs_exec(
    v: Option<SlotValue>,
    txs: &Vec<TransactionMined>,
    address: &Address,
    index: &SlotIndex,
) -> (r: Option<SlotValue>)
    ensures
        r == slot_after_txs(v, mined_txs_view(txs@), *address, *index),
{
    let ghost tv = mined_txs_view(txs@);
    let n = txs.len();
    let mut cur = v;
    let mut k: usize = 0;
    proof {
        assert(tv.take(0) =~= Seq::<crate::transaction::TransactionMinedV>::empty());
    }
    while k < n
        invariant
            k <= n,
            n == txs@.len(),
            tv == mined_txs_view(txs@),
            cur == slot_after_txs(v, tv.take(k as int), *address, *index),
        decreases n - k,
    {
        proof {
            assert(tv.take(k + 1).drop_last() =~= tv.take(k as int));
            assert(tv.take(k + 1).last() == tv[k as int]);
        }
        cur = slot_changes_exec(cur, &txs[k].execution.changes, address, index);
        k = k + 1;
    }
    proof {
        assert(tv.take(n as int) =~= tv);
    }
    cur
}

impl InMemoryPermanentStorage {
    /// How many committed blocks a point-in-time read covers.
    fn upto_exec(&self, point_in_time: &StoragePointInTime) -> (r: usize)
        ensures
            r == self@.upto_of(*point_in_time),
    {
        let len = self.blocks.len();
        match point_in_time {
            StoragePointInTime::Present => len,
            StoragePointInTime::Past(k) => {
                if *k < len as u64 {
                    (*k + 1) as usize
                } else {
                    len
                }
            },
        }
    }
}

impl PermanentStorage for InMemoryPermanentStorage {
    open spec fn pview(&self) -> PermStateV {
        self@
    }

    fn read_mined_block_number(&self) -> (r: u64) {
        self.block_number
    }

    fn set_mined_block_number(&mut self, number: u64) {
        self.block_number = number;
        proof {
            assert(final(self)@ =~= (PermStateV { block_number: number, ..old(self)@ }));
        }
    }

    fn increment_block_number(&mut self) -> (r: Result<u64, EthStorageError>) {
        if self.block_number == u64::MAX {
            return Err(EthStorageError::Unexpected);
        }
        self.block_number = self.block_number + 1;
        proof {
            assert(final(self)@ =~= (PermStateV {
                block_number: final(self).block_number,
                ..old(self)@
            }));
        }
        Ok(self.block_number)
    }

    fn save_block(&mut self, block: Block) -> (r: Result<(), EthStorageError>) {
        if block.header.number != self.blocks.len() as u64 {
            return Err(EthStorageError::Unexpected);
        }
        self.block_number = block.header.number;
        let ghost bv = block@;
        self.blocks.push(block);
        proof {
            assert(blocks_view(self.blocks@) =~= blocks_view(old(self).blocks@).push(bv));
            assert(final(self)@ =~= (PermStateV {
                blocks: old(self)@.blocks.push(bv),
                block_number: final(self).block_number,
                ..old(self)@
            }));
        }
        Ok(())
    }

    fn read_block(&self, selection: &BlockSelection) -> (r: Option<Block>) {
        let ghost all = self@.blocks;
        match selection {
            BlockSelection::Latest => {
                if self.blocks.len() == 0 {
                    None
                } else {
                    Some(self.blocks[self.blocks.len() - 1].clone())
                }
            },
            BlockSelection::Earliest => {
                if self.blocks.len() == 0 {
                    None
                } else {
                    Some(self.blocks[0].clone())
                }
            },
            BlockSelection::Number(number) => {
                let n = self.blocks.len();
                let mut i: usize = 0;
                proof {
                    assert(all.skip(0) =~= all);
                }
                while i < n
                    invariant
                        i <= n,
                        n == self.blocks@.len(),
                        all == blocks_view(self.blocks@),
                        *selection == BlockSelection::Number(*number),
                        find_block_by_number(all, *number) == find_block_by_number(
                            all.skip(i as int),
                            *number,
                        ),
                    decreases n - i,
                {
                    proof {
                        assert(all.skip(i as int)[0] == all[i as int]);
                        assert(all.skip(i as int).skip(1) =~= all.skip(i + 1));
                    }
                    if self.blocks[i].header.number == *number {
                        proof {
                            assert(find_block_by_number(all.skip(i as int), *number) == Some(
                                all[i as int],
                            ));
                        }
                        return Some(self.blocks[i].clone());
                    }
                    i = i + 1;
                }
                None
            },
            BlockSelection::Hash(hash) => {
                let n = self.blocks.len();
                let mut i: usize = 0;
                proof {
                    assert(all.skip(0) =~= all);
                }
                while i < n
                    invariant
                        i <= n,
                        n == self.blocks@.len(),
                        all == blocks_view(self.blocks@),
                        *selection == BlockSelection::Hash(*hash),
                        find_block_by_hash(all, *hash) == find_block_by_hash(
                            all.skip(i as int),
                            *hash,
                        ),
                    decreases n - i,
                {
                    proof {
                        assert(all.skip(i as int)[0] == all[i as int]);
                        assert(all.skip(i as int).skip(1) =~= all.skip(i + 1));
                    }
                    if self.blocks[i].header.hash.eq_hash(hash) {
                        proof {
                            assert(find_block_by_hash(all.skip(i as int), *hash) == Some(
                                all[i as int],
                            ));
                        }
                        return Some(self.blocks[i].clone());
                    }
                    i = i + 1;
                }
                None
            },
        }
    }

    fn read_account(&self, address: &Address, point_in_time: &StoragePointInTime) -> (r: Option<
        Account,
    >) {
        let ghost st = self@;
        let upto = self.upto_exec(point_in_time);
        let ghost blocks_upto = st.blocks.take(upto as int);
        let mut cur = find_initial_exec(&self.initial_accounts, address);
        let ghost init = opt_account_view(cur);
        let mut b: usize = 0;
        proof {
            assert(upto <= self.blocks@.len());
            assert(blocks_upto.take(0) =~= Seq::<BlockV>::empty());
        }
        while b < upto
            invariant
                b <= upto,
                upto <= self.blocks@.len(),
                st == self@,
                blocks_upto == st.blocks.take(upto as int),
                opt_account_view(cur) == acct_after_blocks(
                    init,
                    blocks_upto.take(b as int),
                    *address,
                ),
            decreases upto - b,
        {
            proof {
                assert(blocks_upto.take(b + 1).drop_last() =~= blocks_upto.take(b as int));
                assert(blocks_upto.take(b + 1).last() == st.blocks[b as int]);
                assert(st.blocks[b as int].transactions == mined_txs_view(
                    self.blocks@[b as int].transactions@,
                ));
            }
            cur = acct_txs_exec(cur, &self.blocks[b].transactions, address);
            b = b + 1;
        }
        proof {
            assert(blocks_upto.take(upto as int) =~= blocks_upto);
        }
        cur
    }

    fn read_slot(&self, address: &Address, index: &SlotIndex, point_in_time: &StoragePointInTime) -> (
        r: Option<Slot>) {
        let ghost st = self@;
        let upto = self.upto_exec(point_in_time);
        let ghost blocks_upto = st.blocks.take(upto as int);
        let mut cur: Option<SlotValue> = None;
        let mut b: usize = 0;
        proof {
            assert(upto <= self.blocks@.len());
            assert(blocks_upto.take(0) =~= Seq::<BlockV>::empty());
        }
        while b < upto
            invariant
                b <= upto,
                upto <= self.blocks@.len(),
                st == self@,
                blocks_upto == st.blocks.take(upto as int),
                cur == slot_after_blocks(None, blocks_upto.take(b as int), *address, *index),
            decreases upto - b,
        {
            proof {
                assert(blocks_upto.take(b + 1).drop_last() =~= blocks_upto.take(b as int));
                assert(blocks_upto.take(b + 1).last() == st.blocks[b as int]);
                assert(st.blocks[b as int].transactions == mined_txs_view(
                    self.blocks@[b as int].transactions@,
                ));
            }
            cur = slot_txs_exec(cur, &self.blocks[b].transactions, address, index);
            b = b + 1;
        }
        proof {
            assert(blocks_upto.take(upto as int) =~= blocks_upto);
        }
        match cur {
            None => None,
            Some(value) => Some(Slot { index: *index, value }),
        }
    }

    fn read_slots(
        &self,
        address: &Address,
        indexes: &Vec<SlotIndex>,
        point_in_time: &StoragePointInTime,
    ) -> (r: Vec<Slot>) {
        let ghost st = self@;
        let ghost upto = st.upto_of(*point_in_time);
        let ghost all = indexes@;
        let mut out: Vec<Slot> = Vec::new();
        let n = indexes.len();
        let mut k: usize = 0;
        proof {
            assert(all.take(0) =~= Seq::<SlotIndex>::empty());
        }
        while k < n
            invariant
                k <= n,
                n == indexes@.len(),
                all == indexes@,
                st == self@,
                upto == st.upto_of(*point_in_time),
                out@ == slots_lookup(st, *address, all.take(k as int), upto),
            decreases n - k,
        {
            proof {
                assert(all.take(k + 1).drop_last() =~= all.take(k as int));
                assert(all.take(k + 1).last() == all[k as int]);
            }
            match self.read_slot(address, &indexes[k], point_in_time) {
                Some(slot) => {
                    out.push(slot);
                    proof {
                        assert(out@ =~= slots_lookup(st, *address, all.take(k + 1), upto));
                    }
                },
                None => {
                    proof {
                        assert(out@ =~= slots_lookup(st, *address, all.take(k + 1), upto));
                    }
                },
            }
            k = k + 1;
        }
        proof {
            assert(all.take(n as int) =~= all);
        }
        out
    }

    fn read_mined_transaction(&self, hash: &Hash256) -> (r: Option<TransactionMined>) {
        let ghost all = self@.blocks;
        let n = self.blocks.len();
        let mut b: usize = 0;
        proof {
            assert(all.skip(0) =~= all);
        }
        while b < n
            invariant
                b <= n,
                n == self.blocks@.len(),
                all == blocks_view(self.blocks@),
                find_mined_transaction(all, *hash) == find_mined_transaction(
                    all.skip(b as int),
                    *hash,
                ),
            decreases n - b,
        {
            proof {
                assert(all.skip(b as int)[0] == all[b as int]);
                assert(all.skip(b as int).skip(1) =~= all.skip(b + 1));
            }
            let txs = &self.blocks[b].transactions;
            let ghost txv = all[b as int].transactions;
            let m = txs.len();
            let mut t: usize = 0;
            proof {
                assert(txv.skip(0) =~= txv);
            }
            while t < m
                invariant
                    t <= m,
                    m == txs@.len(),
                    b < n,
                    n == self.blocks@.len(),
                    all == blocks_view(self.blocks@),
                    txv == all[b as int].transactions,
                    txv == mined_txs_view(txs@),
                    find_mined_transaction(all, *hash) == find_mined_transaction(
                        all.skip(b as int),
                        *hash,
                    ),
                    find_tx_in_block(txv, *hash) == find_tx_in_block(txv.skip(t as int), *hash),
                decreases m - t,
            {
                proof {
                    assert(txv.skip(t as int)[0] == txv[t as int]);
                    assert(txv.skip(t as int).skip(1) =~= txv.skip(t + 1));
                }
                if txs[t].input.hash.eq_hash(hash) {
                    proof {
                        assert(find_tx_in_block(txv, *hash) == Some(txv[t as int]));
                        assert(all.skip(b as int)[0] == all[b as int]);
                        assert(find_mined_transaction(all.skip(b as int), *hash) == Some(
                            txv[t as int],
                        ));
                    }
                    return Some(txs[t].clone());
                }
                t = t + 1;
            }
            b = b + 1;
        }
        None
    }

    fn save_accounts(&mut self, accounts: Vec<Account>) -> (r: Result<(), EthStorageError>) {
        if self.blocks.len() != 0 {
            return Err(EthStorageError::Unexpected);
        }
        let ghost added = accounts_view(accounts@);
        let ghost before = accounts_view(self.initial_accounts@);
        let mut incoming = accounts;
        self.initial_accounts.append(&mut incoming);
        proof {
            assert(accounts_view(self.initial_accounts@) =~= before + added);
            assert(final(self)@ =~= (PermStateV {
                initial_accounts: before + added,
                ..old(self)@
            }));
        }
        Ok(())
    }

    fn reset_at(&mut self, number: u64) -> (r: Result<(), EthStorageError>) {
        let len = self.blocks.len();
        let keep: usize = if number < len as u64 {
            (number + 1) as usize
        } else {
            len
        };
        self.blocks.truncate(keep);
        self.block_number = number;
        proof {
            assert(blocks_view(self.blocks@) =~= blocks_view(old(self).blocks@).take(
                if number + 1 <= old(self)@.blocks.len() {
                    number + 1
                } else {
                    old(self)@.blocks.len() as int
                },
            ));
            assert(final(self)@ =~= (PermStateV {
                blocks: old(self)@.blocks.take(
                    if number + 1 <= old(self)@.blocks.len() {
                        number + 1
                    } else {
                        old(self)@.blocks.len() as int
                    },
                ),
                block_number: number,
                ..old(self)@
            }));
        }
        Ok(())
    }

    fn enable_genesis(&mut self, genesis: Block) -> (r: Result<(), EthStorageError>) {
        if self.blocks.len() != 0 || genesis.header.number != 0 {
            return Err(EthStorageError::Unexpected);
        }
        self.block_number = 0;
        let ghost bv = genesis@;
        self.blocks.push(genesis);
        proof {
            assert(blocks_view(self.blocks@) =~= blocks_view(old(self).blocks@).push(bv));
            assert(final(self)@ =~= (PermStateV {
                blocks: old(self)@.blocks.push(bv),
                block_number: 0u64,
                ..old(self)@
            }));
        }
        Ok(())
    }

    fn read_logs(&self, filter: &LogFilter) -> (r: Vec<LogMined>) {
        let ghost all = self@.blocks;
        let mut out: Vec<LogMined> = Vec::new();
        let n = self.blocks.len();
        let mut b: usize = 0;
        proof {
            assert(all.take(0) =~= Seq::<BlockV>::empty());
            assert(mined_logs_view(out@) =~= filtered_logs_of_blocks(all.take(0), *filter));
        }
        while b < n
            invariant
                b <= n,
                n == self.blocks@.len(),
                all == blocks_view(self.blocks@),
                mined_logs_view(out@) == filtered_logs_of_blocks(all.take(b as int), *filter),
            decreases n - b,
        {
            let ghost before_block = mined_logs_view(out@);
            proof {
                assert(all.take(b + 1).drop_last() =~= all.take(b as int));
                assert(all.take(b + 1).last() == all[b as int]);
            }
            let txs = &self.blocks[b].transactions;
            let ghost txv = all[b as int].transactions;
            let m = txs.len();
            let mut t: usize = 0;
            proof {
                assert(txv.take(0) =~= Seq::<crate::transaction::TransactionMinedV>::empty());
                assert(mined_logs_view(out@) =~= before_block + filtered_logs_of_txs(
                    txv.take(0),
                    *filter,
                ));
            }
            while t < m
                invariant
                    t <= m,
                    m == txs@.len(),
                    txv == mined_txs_view(txs@),
                    mined_logs_view(out@) == before_block + filtered_logs_of_txs(
                        txv.take(t as int),
                        *filter,
                    ),
                decreases m - t,
            {
                let ghost before_tx = mined_logs_view(out@);
                proof {
                    assert(txv.take(t + 1).drop_last() =~= txv.take(t as int));
                    assert(txv.take(t + 1).last() == txv[t as int]);
                }
                let logs = &txs[t].logs;
                let ghost lv = txv[t as int].logs;
                let c = logs.len();
                let mut l: usize = 0;
                proof {
                    assert(lv.take(0) =~= Seq::<crate::transaction::LogMinedV>::empty());
                    assert(mined_logs_view(out@) =~= before_tx + filtered_logs_of_tx(
                        lv.take(0),
                        *filter,
                    ));
                }
                while l < c
                    invariant
                        l <= c,
                        c == logs@.len(),
                        lv == mined_logs_view(logs@),
                        mined_logs_view(out@) == before_tx + filtered_logs_of_tx(
                            lv.take(l as int),
                            *filter,
                        ),
                    decreases c - l,
                {
                    proof {
                        assert(lv.take(l + 1).drop_last() =~= lv.take(l as int));
                        assert(lv.take(l + 1).last() == lv[l as int]);
                    }
                    let log = &logs[l];
                    let in_range_from = filter.from_block <= log.block_number;
                    let in_range_to = match filter.to_block {
                        Some(to) => log.block_number <= to,
                        None => true,
                    };
                    let addr_matches = match &filter.address {
                        Some(a) => log.log.address.eq_addr(a),
                        None => true,
                    };
                    if in_range_from && in_range_to && addr_matches {
                        let ghost prev_view = mined_logs_view(out@);
                        out.push(log.clone());
                        proof {
                            assert(filter.selects(lv[l as int]));
                            assert(lv[l as int] == logs@[l as int]@);
                            assert(out@.last()@ == lv[l as int]);
                            assert forall|i: int| 0 <= i < prev_view.len() implies mined_logs_view(
                                out@,
                            )[i] == prev_view[i] by {
                                assert(out@[i] == out@.drop_last()[i]);
                            }
                            assert(filtered_logs_of_tx(lv.take(l + 1), *filter)
                                == filtered_logs_of_tx(lv.take(l as int), *filter) + seq![
                                lv[l as int],
                            ]);
                            assert(mined_logs_view(out@) =~= prev_view + seq![lv[l as int]]);
                            assert(prev_view + seq![lv[l as int]] =~= before_tx + (
                            filtered_logs_of_tx(lv.take(l as int), *filter) + seq![lv[l as int]]));
                            assert(before_tx + (filtered_logs_of_tx(lv.take(l as int), *filter)
                                + seq![lv[l as int]]) =~= before_tx + filtered_logs_of_tx(
                                lv.take(l + 1),
                                *filter,
                            ));
                        }
                    } else {
                        proof {
                            assert(!filter.selects(lv[l as int]));
                            assert(filtered_logs_of_tx(lv.take(l + 1), *filter)
                                =~= filtered_logs_of_tx(lv.take(l as int), *filter));
                        }
                    }
                    l = l + 1;
                }
                proof {
                    assert(lv.take(c as int) =~= lv);
                    assert(mined_logs_view(out@) =~= before_block + filtered_logs_of_txs(
                        txv.take(t + 1),
                        *filter,
                    ));
                }
                t = t + 1;
            }
            proof {
                assert(txv.take(m as int) =~= txv);
                assert(mined_logs_view(out@) =~= filtered_logs_of_blocks(all.take(b + 1), *filter));
            }
            b = b + 1;
        }
        proof {
            assert(all.take(n as int) =~= all);
        }
        out
    }

    fn allocate_evm_thread_resources(&self) {
    }
}

} // verus!
