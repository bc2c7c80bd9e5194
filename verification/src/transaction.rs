//! Transaction inputs, read-only call inputs, and mined artifacts: a
//! transaction placed in a block and its logs enriched with block metadata.

use vstd::prelude::*;

use crate::execution::Execution;
use crate::execution::ExecutionV;
use crate::execution::Log;
use crate::execution::LogV;
use crate::primitives::Address;
use crate::primitives::Amount;
use crate::primitives::Bytes;
use crate::primitives::Gas;
use crate::primitives::Hash256;
use crate::primitives::Nonce;

verus! {

/// A signed transaction submitted for execution.
#[derive(Debug)]
pub struct TransactionInput {
    pub hash: Hash256,
    pub signer: Address,
    pub from: Option<Address>,
    pub to: Option<Address>,
    pub nonce: Nonce,
    pub value: Amount,
    pub data: Bytes,
    pub gas: Gas,
}

/// Mathematical value of a [`TransactionInput`].
#[verifier::ext_equal]
pub ghost struct TransactionInputV {
    pub hash: Hash256,
    pub signer: Address,
    pub from: Option<Address>,
    pub to: Option<Address>,
    pub nonce: Nonce,
    pub value: Amount,
    pub data: Seq<u8>,
    pub gas: Gas,
}

impl View for TransactionInput {
    type V = TransactionInputV;

    open spec fn view(&self) -> TransactionInputV {
        TransactionInputV {
            hash: self.hash,
            signer: self.signer,
            from: self.from,
            to: self.to,
            nonce: self.nonce,
            value: self.value,
            data: self.data@,
            gas: self.gas,
        }
    }
}

impl Clone for TransactionInput {
    fn clone(&self) -> (r: Self)
        ensures
            r@ == self@,
    {
        let r = TransactionInput {
            hash: self.hash,
            signer: self.signer,
            from: self.from,
            to: self.to,
            nonce: self.nonce,
            value: self.value,
            data: self.data.clone(),
            gas: self.gas,
        };
        proof {
            assert(r@ =~= self@);
        }
        r
    }
}

/// A read-only invocation (an eth_call), never mined.
#[derive(Debug)]
pub struct CallInput {
    pub from: Option<Address>,
    pub to: Address,
    pub data: Bytes,
}

impl Clone for CallInput {
    fn clone(&self) -> (r: Self)
        ensures
            r.from == self.from,
            r.to == self.to,
            r.data@ == self.data@,
    {
        CallInput { from: self.from, to: self.to, data: self.data.clone() }
    }
}

/// A transaction paired with the execution it produced, pending in the
/// temporary storage of the block being assembled.
#[derive(Debug)]
pub struct TransactionExecution {
    pub input: TransactionInput,
    pub execution: Execution,
}

/// Mathematical value of a [`TransactionExecution`].
#[verifier::ext_equal]
pub ghost struct TransactionExecutionV {
    pub input: TransactionInputV,
    pub execution: ExecutionV,
}

impl View for TransactionExecution {
    type V = TransactionExecutionV;

    open spec fn view(&self) -> TransactionExecutionV {
        TransactionExecutionV { input: self.input@, execution: self.execution@ }
    }
}

impl Clone for TransactionExecution {
    fn clone(&self) -> (r: Self)
        ensures
            r@ == self@,
    {
        let r = TransactionExecution { input: self.input.clone(), execution: self.execution.clone() };
        proof {
            assert(r@ =~= self@);
        }
        r
    }
}

impl TransactionExecution {
    pub fn hash(&self) -> (r: Hash256)
        ensures
            r == self.input.hash,
    {
        self.input.hash
    }
}

/// View of a sequence of pending transaction executions.
pub open spec fn tx_executions_view(s: Seq<TransactionExecution>) -> Seq<TransactionExecutionV> {
    Seq::new(s.len(), |i: int| s[i]@)
}

/// An EVM log enriched with the position of the mined transaction it belongs
/// to.
#[derive(Debug)]
pub struct LogMined {
    pub log: Log,
    pub transaction_hash: Hash256,
    pub transaction_index: u64,
    pub log_index: u64,
    pub block_number: u64,
    pub block_hash: Hash256,
}

/// Mathematical value of a [`LogMined`].
#[verifier::ext_equal]
pub ghost struct LogMinedV {
    pub log: LogV,
    pub transaction_hash: Hash256,
    pub transaction_index: u64,
    pub log_index: u64,
    pub block_number: u64,
    pub block_hash: Hash256,
}

impl View for LogMined {
    type V = LogMinedV;

    open spec fn view(&self) -> LogMinedV {
        LogMinedV {
            log: self.log@,
            transaction_hash: self.transaction_hash,
            transaction_index: self.transaction_index,
            log_index: self.log_index,
            block_number: self.block_number,
            block_hash: self.block_hash,
        }
    }
}

impl Clone for LogMined {
    fn clone(&self) -> (r: Self)
        ensures
            r@ == self@,
    {
        let r = LogMined {
            log: self.log.clone(),
            transaction_hash: self.transaction_hash,
            transaction_index: self.transaction_index,
            log_index: self.log_index,
            block_number: self.block_number,
            block_hash: self.block_hash,
        };
        proof {
            assert(r@ =~= self@);
        }
        r
    }
}

/// View of a sequence of mined logs.
pub open spec fn mined_logs_view(s: Seq<LogMined>) -> Seq<LogMinedV> {
    Seq::new(s.len(), |i: int| s[i]@)
}

/// A transaction placed in a committed or about-to-commit block.
#[derive(Debug)]
pub struct TransactionMined {
    pub input: TransactionInput,
    pub execution: Execution,
    pub logs: Vec<LogMined>,
    pub index: u64,
    pub block_number: u64,
    pub block_hash: Hash256,
}

/// Mathematical value of a [`TransactionMined`].
#[verifier::ext_equal]
pub ghost struct TransactionMinedV {
    pub input: TransactionInputV,
    pub execution: ExecutionV,
    pub logs: Seq<LogMinedV>,
    pub index: u64,
    pub block_number: u64,
    pub block_hash: Hash256,
}

impl View for TransactionMined {
    type V = TransactionMinedV;

    open spec fn view(&self) -> TransactionMinedV {
        TransactionMinedV {
            input: self.input@,
            execution: self.execution@,
            logs: mined_logs_view(self.logs@),
            index: self.index,
            block_number: self.block_number,
            block_hash: self.block_hash,
        }
    }
}

impl Clone for TransactionMined {
    fn clone(&self) -> (r: Self)
        ensures
            r@ == self@,
    {
        let logs = self.logs.clone();
        proof {
            assert(mined_logs_view(logs@) =~= mined_logs_view(self.logs@)) by {
                assert forall|i: int| 0 <= i < self.logs@.len() implies logs@[i]@
                    == self.logs@[i]@ by {
                    assert(cloned::<LogMined>(self.logs@[i], logs@[i]));
                }
            }
        }
        let r = TransactionMined {
            input: self.input.clone(),
            execution: self.execution.clone(),
            logs,
            index: self.index,
            block_number: self.block_number,
            block_hash: self.block_hash,
        };
        proof {
            assert(r@ =~= self@);
        }
        r
    }
}

/// View of a sequence of mined transactions.
pub open spec fn mined_txs_view(s: Seq<TransactionMined>) -> Seq<TransactionMinedV> {
    Seq::new(s.len(), |i: int| s[i]@)
}

impl TransactionMinedV {
    /// The mined logs carry the positions and block metadata of this
    /// transaction, in the order the execution emitted them.
    pub open spec fn logs_wf(self) -> bool {
        &&& self.logs.len() == self.execution.logs.len()
        &&& forall|i: int|
            0 <= i < self.logs.len() ==> {
                &&& (#[trigger] self.logs[i]).log == self.execution.logs[i]
                &&& self.logs[i].transaction_hash == self.input.hash
                &&& self.logs[i].transaction_index == self.index
                &&& self.logs[i].log_index == i
                &&& self.logs[i].block_number == self.block_number
                &&& self.logs[i].block_hash == self.block_hash
            }
    }
}

impl TransactionMined {
    /// Builds the mined transaction for position `index` of block
    /// (`block_number`, `block_hash`), minting one mined log per execution
    /// log.
    pub fn new(
        input: TransactionInput,
        execution: Execution,
        index: u64,
        block_number: u64,
        block_hash: Hash256,
    ) -> (r: TransactionMined)
        ensures
            r.input@ == input@,
            r.execution@ == execution@,
            r.index == index,
            r.block_number == block_number,
            r.block_hash == block_hash,
            r@.logs_wf(),
    {
        let n = execution.logs.len();
        proof {
            assert(n <= u64::MAX);
        }
        let mut logs: Vec<LogMined> = Vec::new();
        let mut i: usize = 0;
        while i < n
            invariant
                i <= n,
                n == execution.logs@.len(),
                n <= u64::MAX,
                logs@.len() == i,
                forall|j: int|
                    0 <= j < i ==> {
                        &&& (#[trigger] logs@[j])@.log == execution.logs@[j]@
                        &&& logs@[j].transaction_hash == input.hash
                        &&& logs@[j].transaction_index == index
                        &&& logs@[j].log_index == j
                        &&& logs@[j].block_number == block_number
                        &&& logs@[j].block_hash == block_hash
                    },
            decreases n - i,
        {
            let mined = LogMined {
                log: execution.logs[i].clone(),
                transaction_hash: input.hash,
                transaction_index: index,
                log_index: i as u64,
                block_number,
                block_hash,
            };
            logs.push(mined);
            i = i + 1;
        }
        let r = TransactionMined { input, execution, logs, index, block_number, block_hash };
        proof {
            assert(r@.logs_wf());
        }
        r
    }
}

/// Which mined logs a log query selects: a block range and, optionally,
/// one emitting address.
#[derive(Clone, Copy, Debug)]
pub struct LogFilter {
    pub from_block: u64,
    pub to_block: Option<u64>,
    pub address: Option<Address>,
}

impl LogFilter {
    /// Whether a mined log falls inside the filter.
    pub open spec fn selects(self, log: LogMinedV) -> bool {
        &&& self.from_block <= log.block_number
        &&& match self.to_block {
            Some(to) => log.block_number <= to,
            None => true,
        }
        &&& match self.address {
            Some(a) => log.log.address == a,
            None => true,
        }
    }
}

/// The selected logs of one transaction, in emission order.
pub open spec fn filtered_logs_of_tx(logs: Seq<LogMinedV>, filter: LogFilter) -> Seq<LogMinedV>
    decreases logs.len(),
{
    if logs.len() == 0 {
        Seq::empty()
    } else {
        filtered_logs_of_tx(logs.drop_last(), filter) + (if filter.selects(logs.last()) {
            seq![logs.last()]
        } else {
            Seq::empty()
        })
    }
}

/// The selected logs of one block, in transaction order.
pub open spec fn filtered_logs_of_txs(txs: Seq<TransactionMinedV>, filter: LogFilter) -> Seq<
    LogMinedV,
>
    decreases txs.len(),
{
    if txs.len() == 0 {
        Seq::empty()
    } else {
        filtered_logs_of_txs(txs.drop_last(), filter) + filtered_logs_of_tx(
            txs.last().logs,
            filter,
        )
    }
}

} // verus!
