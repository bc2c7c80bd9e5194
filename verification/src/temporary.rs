//! In-memory temporary storage: the per-block overlay that accumulates the
//! pending effects of the block being assembled, answers overlay-only reads,
//! and detects conflicts between an execution's recorded originals and the
//! overlay's current values.
//!
//! Accounts and slots are kept as front-inserted association lists: the
//! first entry for a key is its current value, and every operation is
//! specified against first-match lookup.

use vstd::prelude::*;

use crate::execution::changes_view;
use crate::execution::AccountChangesV;
use crate::execution::Execution;
use crate::execution::ExecutionConflict;
use crate::execution::ExecutionConflicts;
use crate::execution::SlotChange;
use crate::external::ExternalBlock;
use crate::external::ExternalBlockV;
use crate::primitives::Account;
use crate::primitives::AccountV;
use crate::primitives::Address;
use crate::primitives::Slot;
use crate::primitives::SlotIndex;
use crate::transaction::tx_executions_view;
use crate::transaction::TransactionExecution;
use crate::transaction::TransactionExecutionV;

verus! {

/// First slot in `slots` whose index is `index`, if any.
pub open spec fn find_slot(slots: Seq<Slot>, index: SlotIndex) -> Option<Slot>
    decreases slots.len(),
{
    if slots.len() == 0 {
        None
    } else if slots[0].index == index {
        Some(slots[0])
    } else {
        find_slot(slots.skip(1), index)
    }
}

/// An account as the overlay holds it: its basic state plus the slots
/// written inside the current block.
#[derive(Debug)]
pub struct InMemoryTemporaryAccount {
    pub info: Account,
    pub slots: Vec<Slot>,
}

/// Mathematical value of an [`InMemoryTemporaryAccount`].
#[verifier::ext_equal]
pub ghost struct TmpAccountV {
    pub info: AccountV,
    pub slots: Seq<Slot>,
}

impl TmpAccountV {
    /// A fresh overlay account with zeroed state and no slots.
    pub open spec fn new_empty(address: Address) -> TmpAccountV {
        TmpAccountV { info: AccountV::new_empty(address), slots: Seq::empty() }
    }
}

impl View for InMemoryTemporaryAccount {
    type V = TmpAccountV;

    open spec fn view(&self) -> TmpAccountV {
        TmpAccountV { info: self.info@, slots: self.slots@ }
    }
}

impl Clone for InMemoryTemporaryAccount {
    fn clone(&self) -> (r: Self)
        ensures
            r@ == self@,
    {
        let slots = self.slots.clone();
        proof {
            assert(slots@ =~= self.slots@);
        }
        let r = InMemoryTemporaryAccount { info: self.info.clone(), slots };
        proof {
            assert(r@ =~= self@);
        }
        r
    }
}

impl InMemoryTemporaryAccount {
    /// Creates a new temporary account.
    pub fn new(address: Address) -> (r: InMemoryTemporaryAccount)
        ensures
            r@ == TmpAccountV::new_empty(address),
    {
        let r = InMemoryTemporaryAccount { info: Account::new_empty(address), slots: Vec::new() };
        proof {
            assert(r@ =~= TmpAccountV::new_empty(address));
        }
        r
    }
}

/// View of the overlay's account list.
pub open spec fn tmp_accounts_view(s: Seq<InMemoryTemporaryAccount>) -> Seq<TmpAccountV> {
    Seq::new(s.len(), |i: int| s[i]@)
}

/// First overlay account for `address`, if any.
pub open spec fn find_acct(accs: Seq<TmpAccountV>, address: Address) -> Option<TmpAccountV>
    decreases accs.len(),
{
    if accs.len() == 0 {
        None
    } else if accs[0].info.address == address {
        Some(accs[0])
    } else {
        find_acct(accs.skip(1), address)
    }
}

/// The slots after applying the written (`modified`) entries of `changes`
/// in order; each write is a front insertion, so later writes shadow
/// earlier ones under first-match lookup.
pub open spec fn apply_slot_changes(slots: Seq<Slot>, changes: Seq<SlotChange>) -> Seq<Slot>
    decreases changes.len(),
{
    if changes.len() == 0 {
        slots
    } else {
        let prev = apply_slot_changes(slots, changes.drop_last());
        match changes.last().modified {
            Some(v) => seq![Slot { index: changes.last().index, value: v }] + prev,
            None => prev,
        }
    }
}

/// One account change set merged into an overlay account: last writer wins
/// per field, and only present (`Some`) deltas overwrite.
pub open spec fn merge_account(a: TmpAccountV, ch: AccountChangesV) -> TmpAccountV {
    TmpAccountV {
        info: AccountV {
            address: a.info.address,
            nonce: match ch.nonce.modified {
                Some(n) => n,
                None => a.info.nonce,
            },
            balance: match ch.balance.modified {
                Some(b) => b,
                None => a.info.balance,
            },
            bytecode: match ch.bytecode_modified {
                Some(Some(code)) => Some(code),
                _ => a.info.bytecode,
            },
            code_hash: a.info.code_hash,
            static_slot_indexes: match ch.static_indexes_modified {
                Some(indexes) => Some(indexes),
                None => a.info.static_slot_indexes,
            },
            mapping_slot_indexes: match ch.mapping_indexes_modified {
                Some(indexes) => Some(indexes),
                None => a.info.mapping_slot_indexes,
            },
        },
        slots: apply_slot_changes(a.slots, ch.slots),
    }
}

/// One change set applied to the account list: merge into the current entry
/// for the address (or a fresh account) and insert the result at the front.
pub open spec fn apply_change(accs: Seq<TmpAccountV>, ch: AccountChangesV) -> Seq<TmpAccountV> {
    let base = match find_acct(accs, ch.address) {
        Some(a) => a,
        None => TmpAccountV::new_empty(ch.address),
    };
    seq![merge_account(base, ch)] + accs
}

/// All change sets of one execution applied in order.
pub open spec fn apply_changes(accs: Seq<TmpAccountV>, changes: Seq<AccountChangesV>) -> Seq<
    TmpAccountV,
>
    decreases changes.len(),
{
    if changes.len() == 0 {
        accs
    } else {
        apply_change(apply_changes(accs, changes.drop_last()), changes.last())
    }
}

/// Whether one slot change's recorded original disagrees with the overlay
/// account's current value for that slot.
pub open spec fn slot_conflict(a: TmpAccountV, sc: SlotChange) -> bool {
    match sc.original {
        Some(v) => match find_slot(a.slots, sc.index) {
            Some(s) => s.value != v,
            None => false,
        },
        None => false,
    }
}

/// Whether a change set's recorded originals disagree with the overlay.
pub open spec fn has_conflict(accs: Seq<TmpAccountV>, ch: AccountChangesV) -> bool {
    match find_acct(accs, ch.address) {
        None => false,
        Some(a) => {
            ||| (ch.nonce.original matches Some(n) && a.info.nonce != n)
            ||| (ch.balance.original matches Some(b) && a.info.balance != b)
            ||| exists|j: int| 0 <= j < ch.slots.len() && slot_conflict(a, #[trigger] ch.slots[j])
        },
    }
}

/// Whether any change set of an execution conflicts with the overlay.
pub open spec fn any_conflict(accs: Seq<TmpAccountV>, changes: Seq<AccountChangesV>) -> bool {
    exists|i: int| 0 <= i < changes.len() && has_conflict(accs, #[trigger] changes[i])
}

/// A reported conflict entry is genuine: the overlay really holds the
/// reported actual value, and it differs from the reported expectation.
pub open spec fn conflict_genuine(accs: Seq<TmpAccountV>, c: ExecutionConflict) -> bool {
    match c {
        ExecutionConflict::Nonce { address, expected, actual } => match find_acct(accs, address) {
            Some(a) => a.info.nonce == actual && expected != actual,
            None => false,
        },
        ExecutionConflict::Balance { address, expected, actual } => match find_acct(
            accs,
            address,
        ) {
            Some(a) => a.info.balance == actual && expected != actual,
            None => false,
        },
        ExecutionConflict::Slot { address, index, expected, actual } => match find_acct(
            accs,
            address,
        ) {
            Some(a) => match find_slot(a.slots, index) {
                Some(s) => s.value == actual && expected != actual,
                None => false,
            },
            None => false,
        },
    }
}

/// The state of the overlay for the block being assembled.
#[derive(Debug)]
pub struct InMemoryTemporaryStorageState {
    /// External block being re-executed.
    pub external_block: Option<ExternalBlock>,
    /// Pending transaction executions during block execution.
    pub tx_executions: Vec<TransactionExecution>,
    /// Pending accounts modified during block execution.
    pub accounts: Vec<InMemoryTemporaryAccount>,
    /// Block number the overlay is currently assembling.
    pub active_block_number: Option<u64>,
}

/// Mathematical value of an [`InMemoryTemporaryStorageState`].
#[verifier::ext_equal]
pub ghost struct TmpStateV {
    pub external_block: Option<ExternalBlockV>,
    pub tx_executions: Seq<TransactionExecutionV>,
    pub accounts: Seq<TmpAccountV>,
    pub active_block_number: Option<u64>,
}

impl TmpStateV {
    /// The overlay holds nothing.
    pub open spec fn is_empty(self) -> bool {
        &&& self.external_block is None
        &&& self.tx_executions.len() == 0
        &&& self.accounts.len() == 0
        &&& self.active_block_number is None
    }
}

/// View of an optional external block.
pub open spec fn opt_external_block_view(x: Option<ExternalBlock>) -> Option<ExternalBlockV> {
    match x {
        None => None,
        Some(b) => Some(b@),
    }
}

impl View for InMemoryTemporaryStorageState {
    type V = TmpStateV;

    open spec fn view(&self) -> TmpStateV {
        TmpStateV {
            external_block: opt_external_block_view(self.external_block),
            tx_executions: tx_executions_view(self.tx_executions@),
            accounts: tmp_accounts_view(self.accounts@),
            active_block_number: self.active_block_number,
        }
    }
}

impl InMemoryTemporaryStorageState {
    /// An empty overlay.
    pub fn new() -> (r: InMemoryTemporaryStorageState)
        ensures
            r@.is_empty(),
    {
        InMemoryTemporaryStorageState {
            external_block: None,
            tx_executions: Vec::new(),
            accounts: Vec::new(),
            active_block_number: None,
        }
    }

    /// Clears the overlay.
    pub fn reset(&mut self)
        ensures
            final(self)@.is_empty(),
    {
        self.external_block = None;
        self.tx_executions = Vec::new();
        self.accounts = Vec::new();
        self.active_block_number = None;
    }
}

/// The temporary storage: an owned overlay state. Callers that share it
/// across threads wrap it in their own lock.
#[derive(Debug)]
pub struct InMemoryTemporaryStorage {
    pub state: InMemoryTemporaryStorageState,
}

impl View for InMemoryTemporaryStorage {
    type V = TmpStateV;

    open spec fn view(&self) -> TmpStateV {
        self.state@
    }
}

impl Default for InMemoryTemporaryStorage {
    /// An empty temporary storage.
    fn default() -> (r: InMemoryTemporaryStorage)
        ensures
            r@.is_empty(),
    {
        InMemoryTemporaryStorage { state: InMemoryTemporaryStorageState::new() }
    }
}

impl InMemoryTemporaryStorage {
    /// Creates an empty temporary storage.
    pub fn new() -> (r: InMemoryTemporaryStorage)
        ensures
            r@.is_empty(),
    {
        InMemoryTemporaryStorage { state: InMemoryTemporaryStorageState::new() }
    }

    /// Records which block the overlay is assembling.
    pub fn set_active_block_number(&mut self, number: u64)
        ensures
            final(self)@ == (TmpStateV { active_block_number: Some(number), ..old(self)@ }),
    {
        self.state.active_block_number = Some(number);
        proof {
            assert(final(self)@ =~= (TmpStateV {
                active_block_number: Some(number),
                ..old(self)@
            }));
        }
    }

    pub fn read_active_block_number(&self) -> (r: Option<u64>)
        ensures
            r == self@.active_block_number,
    {
        self.state.active_block_number
    }

    /// Stores the external block being re-executed.
    pub fn set_external_block(&mut self, block: ExternalBlock)
        ensures
            final(self)@ == (TmpStateV { external_block: Some(block@), ..old(self)@ }),
    {
        self.state.external_block = Some(block);
        proof {
            assert(final(self)@ =~= (TmpStateV { external_block: Some(block@), ..old(self)@ }));
        }
    }

    pub fn read_external_block(&self) -> (r: Option<ExternalBlock>)
        ensures
            opt_external_block_view(r) == self@.external_block,
    {
        match &self.state.external_block {
            None => None,
            Some(b) => Some(b.clone()),
        }
    }

    /// Clears the overlay.
    pub fn reset(&mut self)
        ensures
            final(self)@.is_empty(),
    {
        self.state.reset();
    }

    /// Position of the overlay account for `address`, under first-match
    /// lookup.
    fn find_account_index(&self, address: &Address) -> (r: Option<usize>)
        ensures
            match r {
                Some(i) => i < self.state.accounts@.len() && find_acct(self@.accounts, *address)
                    == Some(self.state.accounts@[i as int]@),
                None => find_acct(self@.accounts, *address) is None,
            },
    {
        let ghost all = self@.accounts;
        let n = self.state.accounts.len();
        let mut i: usize = 0;
        proof {
            assert(all.skip(0) =~= all);
        }
        while i < n
            invariant
                i <= n,
                n == self.state.accounts@.len(),
                all == tmp_accounts_view(self.state.accounts@),
                find_acct(all, *address) == find_acct(all.skip(i as int), *address),
            decreases n - i,
        {
            proof {
                assert(all.skip(i as int)[0] == all[i as int]);
                assert(all.skip(i as int).skip(1) =~= all.skip(i + 1));
            }
            if self.state.accounts[i].info.address.eq_addr(address) {
                return Some(i);
            }
            i = i + 1;
        }
        None
    }

    /// Returns the overlay view of an account, with no fallthrough to the
    /// permanent storage.
    pub fn read_account(&self, address: &Address) -> (r: Option<Account>)
        ensures
            match find_acct(self@.accounts, *address) {
                None => r is None,
                Some(a) => r matches Some(acc) && acc@ == a.info,
            },
    {
        match self.find_account_index(address) {
            None => None,
            Some(i) => Some(self.state.accounts[i].info.clone()),
        }
    }

    /// Returns the overlay view of a slot, with no fallthrough to the
    /// permanent storage.
    pub fn read_slot(&self, address: &Address, index: &SlotIndex) -> (r: Option<Slot>)
        ensures
            match find_acct(self@.accounts, *address) {
                None => r is None,
                Some(a) => r == find_slot(a.slots, *index),
            },
    {
        let i = match self.find_account_index(address) {
            None => {
                return None;
            },
            Some(i) => i,
        };
        let slots = &self.state.accounts[i].slots;
        let ghost all = slots@;
        let n = slots.len();
        let mut j: usize = 0;
        proof {
            assert(all.skip(0) =~= all);
        }
        while j < n
            invariant
                j <= n,
                n == slots@.len(),
                all == slots@,
                i < self.state.accounts@.len(),
                all == self.state.accounts@[i as int]@.slots,
                find_acct(self@.accounts, *address) == Some(self.state.accounts@[i as int]@),
                find_slot(all, *index) == find_slot(all.skip(j as int), *index),
            decreases n - j,
        {
            proof {
                assert(all.skip(j as int)[0] == all[j as int]);
                assert(all.skip(j as int).skip(1) =~= all.skip(j + 1));
            }
            if slots[j].index.eq_index(index) {
                proof {
                    assert(find_slot(all.skip(j as int), *index) == Some(all[j as int]));
                }
                return Some(slots[j]);
            }
            j = j + 1;
        }
        None
    }

    /// Merges one execution's account changes into the overlay.
    pub fn save_account_changes(&mut self, execution: &Execution)
        ensures
            final(self)@.accounts == apply_changes(old(self)@.accounts, execution@.changes),
            final(self)@.external_block == old(self)@.external_block,
            final(self)@.tx_executions == old(self)@.tx_executions,
            final(self)@.active_block_number == old(self)@.active_block_number,
    {
        let ghost orig = self@.accounts;
        let ghost chs = execution@.changes;
        let n = execution.changes.len();
        let mut k: usize = 0;
        proof {
            assert(chs.take(0) =~= Seq::<AccountChangesV>::empty());
        }
        while k < n
            invariant
                k <= n,
                n == execution.changes@.len(),
                chs == changes_view(execution.changes@),
                self@.accounts == apply_changes(orig, chs.take(k as int)),
                self@.external_block == old(self)@.external_block,
                self@.tx_executions == old(self)@.tx_executions,
                self@.active_block_number == old(self)@.active_block_number,
            decreases n - k,
        {
            let ghost accs_before = self@.accounts;
            let ch = &execution.changes[k];
            let mut base = match self.find_account_index(&ch.address) {
                Some(i) => self.state.accounts[i].clone(),
                None => InMemoryTemporaryAccount::new(ch.address),
            };
            proof {
                assert(base@ == match find_acct(accs_before, ch@.address) {
                    Some(a) => a,
                    None => TmpAccountV::new_empty(ch@.address),
                });
            }
            if let Some(nonce) = ch.nonce.modified {
                base.info.nonce = nonce;
            }
            if let Some(balance) = ch.balance.modified {
                base.info.balance = balance;
            }
            match &ch.bytecode.modified {
                Some(Some(code)) => {
                    base.info.bytecode = Some(code.clone());
                },
                _ => {},
            }
            match &ch.static_slot_indexes.modified {
                Some(indexes) => {
                    let c = indexes.clone();
                    proof {
                        assert(c@ =~= indexes@);
                    }
                    base.info.static_slot_indexes = Some(c);
                },
                None => {},
            }
            match &ch.mapping_slot_indexes.modified {
                Some(indexes) => {
                    let c = indexes.clone();
                    proof {
                        assert(c@ =~= indexes@);
                    }
                    base.info.mapping_slot_indexes = Some(c);
                },
                None => {},
            }
            let ghost slots0 = base@.slots;
            let m = ch.slots.len();
            let mut j: usize = 0;
            proof {
                assert(ch@.slots.take(0) =~= Seq::<SlotChange>::empty());
            }
            while j < m
                invariant
                    j <= m,
                    m == ch.slots@.len(),
                    base@.slots == apply_slot_changes(slots0, ch@.slots.take(j as int)),
                    base@.info == merge_account(
                        apply_change_base(accs_before, ch@),
                        ch@,
                    ).info,
                    ch@.slots == ch.slots@,
                decreases m - j,
            {
                let sc = ch.slots[j];
                proof {
                    assert(ch@.slots.take(j + 1).drop_last() =~= ch@.slots.take(j as int));
                    assert(ch@.slots.take(j + 1).last() == ch@.slots[j as int]);
                }
                if let Some(value) = sc.modified {
                    let slot = Slot { index: sc.index, value };
                    base.slots.insert(0, slot);
                    proof {
                        assert(base@.slots =~= seq![slot] + apply_slot_changes(
                            slots0,
                            ch@.slots.take(j as int),
                        ));
                    }
                }
                j = j + 1;
            }
            proof {
                assert(ch@.slots.take(m as int) =~= ch@.slots);
                assert(base@ =~= merge_account(apply_change_base(accs_before, ch@), ch@));
            }
            self.state.accounts.insert(0, base);
            proof {
                assert(self@.accounts =~= apply_change(accs_before, ch@));
                assert(chs.take(k + 1).drop_last() =~= chs.take(k as int));
                assert(chs.take(k + 1).last() == chs[k as int]);
                assert(self@.accounts == apply_changes(orig, chs.take(k + 1)));
            }
            k = k + 1;
        }
        proof {
            assert(chs.take(n as int) =~= chs);
        }
    }

    /// Merges an execution's changes and appends it to the pending list.
    pub fn save_execution(&mut self, tx: TransactionExecution)
        ensures
            final(self)@.accounts == apply_changes(old(self)@.accounts, tx@.execution.changes),
            final(self)@.tx_executions == old(self)@.tx_executions.push(tx@),
            final(self)@.external_block == old(self)@.external_block,
            final(self)@.active_block_number == old(self)@.active_block_number,
    {
        self.save_account_changes(&tx.execution);
        let ghost txs_before = self@.tx_executions;
        proof {
            assert(tx_executions_view(self.state.tx_executions@.push(tx)) =~= txs_before.push(
                tx@,
            ));
        }
        self.state.tx_executions.push(tx);
    }

    /// Returns the pending executions, in order.
    pub fn read_executions(&self) -> (r: Vec<TransactionExecution>)
        ensures
            tx_executions_view(r@) == self@.tx_executions,
    {
        let r = self.state.tx_executions.clone();
        proof {
            assert(tx_executions_view(r@) =~= tx_executions_view(self.state.tx_executions@)) by {
                assert forall|i: int| 0 <= i < self.state.tx_executions@.len() implies r@[i]@
                    == self.state.tx_executions@[i]@ by {
                    assert(cloned::<TransactionExecution>(self.state.tx_executions@[i], r@[i]));
                }
            }
        }
        r
    }

    /// Drops the pending executions before position `index`, keeping the
    /// rest in order.
    pub fn remove_executions_before(&mut self, index: usize)
        ensures
            final(self)@.tx_executions == old(self)@.tx_executions.skip(
                if index <= old(self)@.tx_executions.len() {
                    index as int
                } else {
                    old(self)@.tx_executions.len() as int
                },
            ),
            final(self)@.accounts == old(self)@.accounts,
            final(self)@.external_block == old(self)@.external_block,
            final(self)@.active_block_number == old(self)@.active_block_number,
    {
        if index == 0 {
            proof {
                assert(old(self)@.tx_executions.skip(0) =~= old(self)@.tx_executions);
            }
            return ;
        }
        let len = self.state.tx_executions.len();
        let at = if index <= len {
            index
        } else {
            len
        };
        let tail = self.state.tx_executions.split_off(at);
        self.state.tx_executions = tail;
        proof {
            assert(tx_executions_view(self.state.tx_executions@) =~= old(self)@.tx_executions.skip(at as int));
        }
    }

    /// Checks the execution's recorded originals against the overlay's
    /// current values; yields the conflicts found, if any.
    pub fn check_conflicts(&self, execution: &Execution) -> (r: Option<ExecutionConflicts>)
        ensures
            r is Some <==> any_conflict(self@.accounts, execution@.changes),
            r matches Some(c) ==> c.wf() && forall|i: int|
                0 <= i < c.conflicts@.len() ==> conflict_genuine(
                    self@.accounts,
                    #[trigger] c.conflicts@[i],
                ),
    {
        let ghost accs = self@.accounts;
        let ghost chs = execution@.changes;
        let mut found: Vec<ExecutionConflict> = Vec::new();
        let n = execution.changes.len();
        let mut k: usize = 0;
        while k < n
            invariant
                k <= n,
                n == execution.changes@.len(),
                accs == self@.accounts,
                chs == changes_view(execution.changes@),
                found@.len() > 0 <==> any_conflict(accs, chs.take(k as int)),
                forall|i: int|
                    0 <= i < found@.len() ==> conflict_genuine(accs, #[trigger] found@[i]),
            decreases n - k,
        {
            let ch = &execution.changes[k];
            proof {
                assert(chs.take(k + 1) =~= chs.take(k as int).push(chs[k as int]));
            }
            match self.find_account_index(&ch.address) {
                None => {
                    proof {
                        assert(!has_conflict(accs, chs[k as int]));
                        lemma_any_conflict_push(accs, chs.take(k as int), chs[k as int]);
                    }
                },
                Some(i) => {
                    let ghost av = self.state.accounts@[i as int]@;
                    if let Some(expected) = ch.nonce.original {
                        if self.state.accounts[i].info.nonce != expected {
                            found.push(
                                ExecutionConflict::Nonce {
                                    address: ch.address,
                                    expected,
                                    actual: self.state.accounts[i].info.nonce,
                                },
                            );
                        }
                    }
                    if let Some(expected) = ch.balance.original {
                        if self.state.accounts[i].info.balance != expected {
                            found.push(
                                ExecutionConflict::Balance {
                                    address: ch.address,
                                    expected,
                                    actual: self.state.accounts[i].info.balance,
                                },
                            );
                        }
                    }
                    let ghost found_before_slots = found@.len() > 0;
                    let m = ch.slots.len();
                    let mut j: usize = 0;
                    while j < m
                        invariant
                            j <= m,
                            m == ch.slots@.len(),
                            ch@.slots == ch.slots@,
                            i < self.state.accounts@.len(),
                            av == self.state.accounts@[i as int]@,
                            accs == self@.accounts,
                            find_acct(accs, ch@.address) == Some(av),
                            found@.len() > 0 <==> (found_before_slots || exists|l: int|
                                0 <= l < j && slot_conflict(av, #[trigger] ch@.slots[l])),
                            forall|i: int|
                                0 <= i < found@.len() ==> conflict_genuine(
                                    accs,
                                    #[trigger] found@[i],
                                ),
                        decreases m - j,
                    {
                        let sc = ch.slots[j];
                        proof {
                            assert(ch@.slots[j as int] == sc);
                        }
                        if let Some(expected) = sc.original {
                            match self.read_slot_of_account(i, &sc.index) {
                                Some(slot) => {
                                    if !slot.value.eq_value(&expected) {
                                        found.push(
                                            ExecutionConflict::Slot {
                                                address: ch.address,
                                                index: sc.index,
                                                expected,
                                                actual: slot.value,
                                            },
                                        );
                                        proof {
                                            assert(slot_conflict(av, ch@.slots[j as int]));
                                        }
                                    } else {
                                        proof {
                                            assert(!slot_conflict(av, ch@.slots[j as int]));
                                        }
                                    }
                                },
                                None => {
                                    proof {
                                        assert(!slot_conflict(av, ch@.slots[j as int]));
                                    }
                                },
                            }
                        } else {
                            proof {
                                assert(!slot_conflict(av, ch@.slots[j as int]));
                            }
                        }
                        j = j + 1;
                    }
                    proof {
                        assert(has_conflict(accs, chs[k as int]) <==> ((
                        chs[k as int].nonce.original matches Some(e) && av.info.nonce != e) || (
                        chs[k as int].balance.original matches Some(e) && av.info.balance != e)
                            || exists|l: int|
                            0 <= l < m && slot_conflict(av, #[trigger] chs[k as int].slots[l])));
                        lemma_any_conflict_push(accs, chs.take(k as int), chs[k as int]);
                    }
                },
            }
            k = k + 1;
        }
        proof {
            assert(chs.take(n as int) =~= chs);
        }
        ExecutionConflicts::from_list(found)
    }

    /// First-match lookup of a slot within the account at `i`.
    fn read_slot_of_account(&self, i: usize, index: &SlotIndex) -> (r: Option<Slot>)
        requires
            i < self.state.accounts@.len(),
        ensures
            r == find_slot(self.state.accounts@[i as int]@.slots, *index),
    {
        let slots = &self.state.accounts[i].slots;
        let ghost all = slots@;
        let n = slots.len();
        let mut j: usize = 0;
        proof {
            assert(all.skip(0) =~= all);
        }
        while j < n
            invariant
                j <= n,
                n == slots@.len(),
                all == slots@,
                i < self.state.accounts@.len(),
                all == self.state.accounts@[i as int]@.slots,
                find_slot(all, *index) == find_slot(all.skip(j as int), *index),
            decreases n - j,
        {
            proof {
                assert(all.skip(j as int)[0] == all[j as int]);
                assert(all.skip(j as int).skip(1) =~= all.skip(j + 1));
            }
            if slots[j].index.eq_index(index) {
                proof {
                    assert(find_slot(all.skip(j as int), *index) == Some(all[j as int]));
                }
                return Some(slots[j]);
            }
            j = j + 1;
        }
        None
    }
}

/// The overlay account a change set merges into: the current entry for its
/// address, or a fresh account.
pub open spec fn apply_change_base(accs: Seq<TmpAccountV>, ch: AccountChangesV) -> TmpAccountV {
    match find_acct(accs, ch.address) {
        Some(a) => a,
        None => TmpAccountV::new_empty(ch.address),
    }
}

/// Extending the checked prefix by one change set extends the conflict
/// predicate pointwise.
proof fn lemma_any_conflict_push(
    accs: Seq<TmpAccountV>,
    prefix: Seq<AccountChangesV>,
    ch: AccountChangesV,
)
    ensures
        any_conflict(accs, prefix.push(ch)) <==> (any_conflict(accs, prefix) || has_conflict(
            accs,
            ch,
        )),
{
    let extended = prefix.push(ch);
    if any_conflict(accs, prefix) {
        let i = choose|i: int| 0 <= i < prefix.len() && has_conflict(accs, #[trigger] prefix[i]);
        assert(extended[i] == prefix[i]);
        assert(has_conflict(accs, extended[i]));
    }
    if has_conflict(accs, ch) {
        assert(extended[prefix.len() as int] == ch);
        assert(has_conflict(accs, extended[prefix.len() as int]));
    }
    if any_conflict(accs, extended) {
        let i = choose|i: int|
            0 <= i < extended.len() && has_conflict(accs, #[trigger] extended[i]);
        if i < prefix.len() {
            assert(extended[i] == prefix[i]);
            assert(has_conflict(accs, prefix[i]));
        } else {
            assert(extended[i] == ch);
        }
    }
}

/// Flushing is idempotent: an empty overlay is one state, so clearing it
/// again changes nothing.
pub proof fn lemma_reset_is_idempotent(s1: TmpStateV, s2: TmpStateV)
    requires
        s1.is_empty(),
        s2.is_empty(),
    ensures
        s1 == s2,
{
    assert(s1.tx_executions =~= s2.tx_executions);
    assert(s1.accounts =~= s2.accounts);
    assert(s1 =~= s2);
}

} // verus!
