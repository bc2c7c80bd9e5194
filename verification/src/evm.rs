//! The pluggable EVM interface and its normalized entry point.

use vstd::prelude::*;

use crate::block::StoragePointInTime;
use crate::execution::Execution;
use crate::external::ExternalTransaction;
use crate::primitives::Address;
use crate::primitives::Bytes;
use crate::transaction::CallInput;
use crate::transaction::TransactionInput;

verus! {

/// Normalized EVM entry point: who calls, what is called, with which data,
/// and as of which storage snapshot.
#[derive(Debug)]
pub struct EvmInput {
    pub caller: Address,
    pub contract: Option<Address>,
    pub data: Bytes,
    pub point_in_time: Option<StoragePointInTime>,
}

impl Clone for EvmInput {
    fn clone(&self) -> (r: Self)
        ensures
            r.caller == self.caller,
            r.contract == self.contract,
            r.data@ == self.data@,
            r.point_in_time == self.point_in_time,
    {
        EvmInput {
            caller: self.caller,
            contract: self.contract,
            data: self.data.clone(),
            point_in_time: self.point_in_time,
        }
    }
}

impl EvmInput {
    /// Entry point for a live transaction: the signer calls, at the present
    /// state.
    pub fn from_eth_transaction(tx: &TransactionInput) -> (r: EvmInput)
        ensures
            r.caller == tx.signer,
            r.contract == tx.to,
            r.data@ == tx.data@,
            r.point_in_time is None,
    {
        EvmInput {
            caller: tx.signer,
            contract: tx.to,
            data: tx.data.clone(),
            point_in_time: None,
        }
    }

    /// Entry point for a read-only call: the zero address calls, at the
    /// supplied snapshot.
    pub fn from_eth_call(input: &CallInput, point_in_time: StoragePointInTime) -> (r: EvmInput)
        ensures
            r.caller.is_zero(),
            r.contract == Some(input.to),
            r.data@ == input.data@,
            r.point_in_time == Some(point_in_time),
    {
        EvmInput {
            caller: Address::zero(),
            contract: Some(input.to),
            data: input.data.clone(),
            point_in_time: Some(point_in_time),
        }
    }

    /// Entry point for re-executing an imported external transaction.
    pub fn from_external_transaction(tx: &ExternalTransaction) -> (r: EvmInput)
        ensures
            r.caller == tx.from,
            r.contract == tx.to,
            r.data@ == tx.input@,
            r.point_in_time is None,
    {
        EvmInput {
            caller: tx.from,
            contract: tx.to,
            data: tx.input.clone(),
            point_in_time: None,
        }
    }
}

/// Why the EVM could not produce an execution at all. A revert or halt is
/// not an error: it is a completed execution with that result kind.
#[derive(Clone, Copy, Debug, PartialEq, Eq, Structural)]
pub enum EvmError {
    /// No worker could take or finish the task.
    Unavailable,
    /// The EVM failed internally before producing a result.
    Internal,
}

/// EVM operations. Implementations own their internal state exclusively;
/// nothing is promised about the executions they produce, and every caller
/// in this crate states what holds whatever comes back.
pub trait Evm {
    /// Execute a transaction that deploys a contract or calls a function of
    /// a deployed contract.
    fn transact(&mut self, input: EvmInput) -> Result<Execution, EvmError>;
}

} // verus!
