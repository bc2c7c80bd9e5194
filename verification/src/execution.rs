//! Results of one EVM invocation: status, return data, gas, emitted logs,
//! and the per-account state deltas to persist, plus the conflict report
//! produced when a delta's recorded original disagrees with storage.

use vstd::prelude::*;

use crate::primitives::opt_bytes_view;
use crate::primitives::Address;
use crate::primitives::Amount;
use crate::primitives::Bytes;
use crate::primitives::Gas;
use crate::primitives::Hash256;
use crate::primitives::Nonce;
use crate::primitives::SlotIndex;
use crate::primitives::SlotValue;

verus! {

/// Outcome kind of an EVM invocation. A revert or halt is still a completed
/// execution, not an engine error.
#[derive(Clone, Copy, Debug, PartialEq, Eq, Structural)]
pub enum ExecutionResult {
    Success,
    Reverted,
    Halted,
}

/// EVM log: emitting address, up to four topics, and opaque data.
#[derive(Debug)]
pub struct Log {
    pub address: Address,
    pub topics: Vec<Hash256>,
    pub data: Bytes,
}

/// Mathematical value of a [`Log`].
#[verifier::ext_equal]
pub ghost struct LogV {
    pub address: Address,
    pub topics: Seq<Hash256>,
    pub data: Seq<u8>,
}

impl View for Log {
    type V = LogV;

    open spec fn view(&self) -> LogV {
        LogV { address: self.address, topics: self.topics@, data: self.data@ }
    }
}

impl Clone for Log {
    fn clone(&self) -> (r: Self)
        ensures
            r@ == self@,
    {
        let topics = self.topics.clone();
        proof {
            assert(topics@ =~= self.topics@);
        }
        let r = Log { address: self.address, topics, data: self.data.clone() };
        proof {
            assert(r@ =~= self@);
        }
        r
    }
}

/// View of a sequence of logs as a sequence of log values.
pub open spec fn logs_view(s: Seq<Log>) -> Seq<LogV> {
    Seq::new(s.len(), |i: int| s[i]@)
}

/// A single value's transition: `original` is what the execution observed
/// when it started, `modified` is present only when the value was written.
#[derive(Clone, Copy, Debug)]
#[verifier::ext_equal]
pub struct ExecutionValueChange<T> {
    pub original: Option<T>,
    pub modified: Option<T>,
}

impl<T> ExecutionValueChange<T> {
    /// A change that touches nothing.
    pub fn untouched() -> (r: ExecutionValueChange<T>)
        ensures
            r.original is None,
            r.modified is None,
    {
        ExecutionValueChange { original: None, modified: None }
    }

    /// A change that observed `original` and wrote `modified`.
    pub fn new(original: T, modified: T) -> (r: ExecutionValueChange<T>)
        ensures
            r.original == Some(original),
            r.modified == Some(modified),
    {
        ExecutionValueChange { original: Some(original), modified: Some(modified) }
    }
}

/// View of an optional optional byte string (a bytecode cell).
pub open spec fn opt_opt_bytes_view(x: Option<Option<Bytes>>) -> Option<Option<Seq<u8>>> {
    match x {
        None => None,
        Some(inner) => Some(opt_bytes_view(inner)),
    }
}

/// Clones a bytecode cell, keeping its contents.
pub fn clone_opt_opt_bytes(x: &Option<Option<Bytes>>) -> (r: Option<Option<Bytes>>)
    ensures
        opt_opt_bytes_view(r) == opt_opt_bytes_view(*x),
{
    match x {
        None => None,
        Some(inner) => Some(crate::primitives::clone_opt_bytes(inner)),
    }
}

/// Transition of one storage slot, keyed by its index.
#[derive(Clone, Copy, Debug)]
#[verifier::ext_equal]
pub struct SlotChange {
    pub index: SlotIndex,
    pub original: Option<SlotValue>,
    pub modified: Option<SlotValue>,
}

/// All deltas an execution produced for one account.
#[derive(Debug)]
pub struct ExecutionAccountChanges {
    pub address: Address,
    pub nonce: ExecutionValueChange<Nonce>,
    pub balance: ExecutionValueChange<Amount>,
    pub bytecode: ExecutionValueChange<Option<Bytes>>,
    pub static_slot_indexes: ExecutionValueChange<Vec<SlotIndex>>,
    pub mapping_slot_indexes: ExecutionValueChange<Vec<SlotIndex>>,
    pub slots: Vec<SlotChange>,
}

/// Mathematical value of an [`ExecutionAccountChanges`].
#[verifier::ext_equal]
pub ghost struct AccountChangesV {
    pub address: Address,
    pub nonce: ExecutionValueChange<Nonce>,
    pub balance: ExecutionValueChange<Amount>,
    pub bytecode_original: Option<Option<Seq<u8>>>,
    pub bytecode_modified: Option<Option<Seq<u8>>>,
    pub static_indexes_modified: Option<Seq<SlotIndex>>,
    pub mapping_indexes_modified: Option<Seq<SlotIndex>>,
    pub slots: Seq<SlotChange>,
}

impl View for ExecutionAccountChanges {
    type V = AccountChangesV;

    open spec fn view(&self) -> AccountChangesV {
        AccountChangesV {
            address: self.address,
            nonce: self.nonce,
            balance: self.balance,
            bytecode_original: opt_opt_bytes_view(self.bytecode.original),
            bytecode_modified: opt_opt_bytes_view(self.bytecode.modified),
            static_indexes_modified: crate::primitives::opt_indexes_view(
                self.static_slot_indexes.modified,
            ),
            mapping_indexes_modified: crate::primitives::opt_indexes_view(
                self.mapping_slot_indexes.modified,
            ),
            slots: self.slots@,
        }
    }
}

impl Clone for ExecutionAccountChanges {
    fn clone(&self) -> (r: Self)
        ensures
            r@ == self@,
    {
        let slots = self.slots.clone();
        proof {
            assert(slots@ =~= self.slots@);
        }
        let r = ExecutionAccountChanges {
            address: self.address,
            nonce: self.nonce,
            balance: self.balance,
            bytecode: ExecutionValueChange {
                original: clone_opt_opt_bytes(&self.bytecode.original),
                modified: clone_opt_opt_bytes(&self.bytecode.modified),
            },
            static_slot_indexes: ExecutionValueChange {
                original: crate::primitives::clone_opt_indexes(&self.static_slot_indexes.original),
                modified: crate::primitives::clone_opt_indexes(&self.static_slot_indexes.modified),
            },
            mapping_slot_indexes: ExecutionValueChange {
                original: crate::primitives::clone_opt_indexes(
                    &self.mapping_slot_indexes.original,
                ),
                modified: crate::primitives::clone_opt_indexes(
                    &self.mapping_slot_indexes.modified,
                ),
            },
            slots,
        };
        proof {
            assert(r@ =~= self@);
        }
        r
    }
}

impl AccountChangesV {
    /// True when this change set creates contract code at its address.
    pub open spec fn creates_contract(self) -> bool {
        match self.bytecode_modified {
            Some(b) => b is Some,
            None => false,
        }
    }
}

impl ExecutionAccountChanges {
    /// A change set for `address` that touches nothing yet.
    pub fn new_empty(address: Address) -> (r: ExecutionAccountChanges)
        ensures
            r.address == address,
            r.nonce.modified is None,
            r.balance.modified is None,
            r.bytecode.modified is None,
            r.slots@.len() == 0,
    {
        ExecutionAccountChanges {
            address,
            nonce: ExecutionValueChange::untouched(),
            balance: ExecutionValueChange::untouched(),
            bytecode: ExecutionValueChange::untouched(),
            static_slot_indexes: ExecutionValueChange::untouched(),
            mapping_slot_indexes: ExecutionValueChange::untouched(),
            slots: Vec::new(),
        }
    }

    pub fn creates_contract(&self) -> (r: bool)
        ensures
            r == self@.creates_contract(),
    {
        match &self.bytecode.modified {
            Some(b) => b.is_some(),
            None => false,
        }
    }
}

/// View of a sequence of account change sets.
pub open spec fn changes_view(s: Seq<ExecutionAccountChanges>) -> Seq<AccountChangesV> {
    Seq::new(s.len(), |i: int| s[i]@)
}

/// Result of a single EVM invocation.
#[derive(Debug)]
pub struct Execution {
    pub result: ExecutionResult,
    pub output: Bytes,
    pub gas_used: Gas,
    pub logs: Vec<Log>,
    pub changes: Vec<ExecutionAccountChanges>,
}

/// Mathematical value of an [`Execution`].
#[verifier::ext_equal]
pub ghost struct ExecutionV {
    pub result: ExecutionResult,
    pub output: Seq<u8>,
    pub gas_used: Gas,
    pub logs: Seq<LogV>,
    pub changes: Seq<AccountChangesV>,
}

impl View for Execution {
    type V = ExecutionV;

    open spec fn view(&self) -> ExecutionV {
        ExecutionV {
            result: self.result,
            output: self.output@,
            gas_used: self.gas_used,
            logs: logs_view(self.logs@),
            changes: changes_view(self.changes@),
        }
    }
}

impl Clone for Execution {
    fn clone(&self) -> (r: Self)
        ensures
            r@ == self@,
    {
        let logs = self.logs.clone();
        let changes = self.changes.clone();
        proof {
            assert(logs_view(logs@) =~= logs_view(self.logs@)) by {
                assert forall|i: int| 0 <= i < self.logs@.len() implies logs@[i]@
                    == self.logs@[i]@ by {
                    assert(cloned::<Log>(self.logs@[i], logs@[i]));
                }
            }
            assert(changes_view(changes@) =~= changes_view(self.changes@)) by {
                assert forall|i: int| 0 <= i < self.changes@.len() implies changes@[i]@
                    == self.changes@[i]@ by {
                    assert(cloned::<ExecutionAccountChanges>(self.changes@[i], changes@[i]));
                }
            }
        }
        let r = Execution {
            result: self.result,
            output: self.output.clone(),
            gas_used: self.gas_used,
            logs,
            changes,
        };
        proof {
            assert(r@ =~= self@);
        }
        r
    }
}

impl ExecutionV {
    pub open spec fn is_success(self) -> bool {
        self.result == ExecutionResult::Success
    }

    /// Address of the first change set that deploys contract code, if any.
    pub open spec fn contract_address(self) -> Option<Address> {
        Self::first_creation(self.changes)
    }

    pub open spec fn first_creation(changes: Seq<AccountChangesV>) -> Option<Address>
        decreases changes.len(),
    {
        if changes.len() == 0 {
            None
        } else if changes[0].creates_contract() {
            Some(changes[0].address)
        } else {
            Self::first_creation(changes.skip(1))
        }
    }
}

impl Execution {
    pub open spec fn is_success(self) -> bool {
        self.result == ExecutionResult::Success
    }

    /// Whether the execution completed without reverting or halting.
    pub fn succeeded(&self) -> (r: bool)
        ensures
            r == self.is_success(),
    {
        match self.result {
            ExecutionResult::Success => true,
            _ => false,
        }
    }

    /// Address where this execution deployed contract code, if it did.
    pub fn contract_address(&self) -> (r: Option<Address>)
        ensures
            r == self@.contract_address(),
    {
        let ghost all: Seq<AccountChangesV> = self@.changes;
        let n = self.changes.len();
        let mut i: usize = 0;
        proof {
            assert(all.skip(0) =~= all);
        }
        while i < n
            invariant
                i <= n,
                n == self.changes@.len(),
                all == changes_view(self.changes@),
                ExecutionV::first_creation(all) == ExecutionV::first_creation(
                    all.skip(i as int),
                ),
            decreases n - i,
        {
            proof {
                assert(all.skip(i as int)[0] == all[i as int]);
                assert(all.skip(i as int).skip(1) =~= all.skip(i + 1));
            }
            if self.changes[i].creates_contract() {
                return Some(self.changes[i].address);
            }
            i = i + 1;
        }
        None
    }
}

/// One detected mismatch between an execution's recorded original value and
/// the value the overlay currently holds.
#[derive(Clone, Copy, Debug)]
#[verifier::ext_equal]
pub enum ExecutionConflict {
    Nonce { address: Address, expected: Nonce, actual: Nonce },
    Balance { address: Address, expected: Amount, actual: Amount },
    Slot { address: Address, index: SlotIndex, expected: SlotValue, actual: SlotValue },
}

/// A non-empty collection of conflicts.
#[derive(Debug)]
pub struct ExecutionConflicts {
    pub conflicts: Vec<ExecutionConflict>,
}

impl Clone for ExecutionConflicts {
    fn clone(&self) -> (r: Self)
        ensures
            r.conflicts@ == self.conflicts@,
    {
        let conflicts = self.conflicts.clone();
        proof {
            assert(conflicts@ =~= self.conflicts@);
        }
        ExecutionConflicts { conflicts }
    }
}

impl ExecutionConflicts {
    /// A conflict report is only well formed when it reports something.
    pub open spec fn wf(self) -> bool {
        self.conflicts@.len() > 0
    }

    /// Wraps a list of conflicts, or yields nothing when the list is empty.
    pub fn from_list(conflicts: Vec<ExecutionConflict>) -> (r: Option<ExecutionConflicts>)
        ensures
            r is Some <==> conflicts@.len() > 0,
            r matches Some(c) ==> c.conflicts@ == conflicts@ && c.wf(),
    {
        if conflicts.len() == 0 {
            None
        } else {
            Some(ExecutionConflicts { conflicts })
        }
    }
}

} // verus!
