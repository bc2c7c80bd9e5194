//! Mirrored upstream representations used by the import pipeline, and the
//! field-by-field comparison of a local re-execution against an external
//! receipt.

use vstd::prelude::*;

use crate::block::Block;
use crate::block::BlockHeader;
use crate::execution::logs_view;
use crate::execution::Execution;
use crate::execution::ExecutionV;
use crate::execution::Log;
use crate::execution::LogV;
use crate::primitives::Address;
use crate::primitives::Amount;
use crate::primitives::Bytes;
use crate::primitives::Gas;
use crate::primitives::Hash256;
use crate::primitives::Nonce;
use crate::transaction::TransactionInput;
use crate::transaction::TransactionInputV;
use crate::transaction::TransactionMined;

verus! {

/// A transaction as an upstream node reports it.
#[derive(Debug)]
pub struct ExternalTransaction {
    pub hash: Hash256,
    pub from: Address,
    pub to: Option<Address>,
    pub nonce: Nonce,
    pub value: Amount,
    pub gas: Gas,
    pub input: Bytes,
}

/// Mathematical value of an [`ExternalTransaction`].
#[verifier::ext_equal]
pub ghost struct ExternalTransactionV {
    pub hash: Hash256,
    pub from: Address,
    pub to: Option<Address>,
    pub nonce: Nonce,
    pub value: Amount,
    pub gas: Gas,
    pub input: Seq<u8>,
}

impl View for ExternalTransaction {
    type V = ExternalTransactionV;

    open spec fn view(&self) -> ExternalTransactionV {
        ExternalTransactionV {
            hash: self.hash,
            from: self.from,
            to: self.to,
            nonce: self.nonce,
            value: self.value,
            gas: self.gas,
            input: self.input@,
        }
    }
}

impl Clone for ExternalTransaction {
    fn clone(&self) -> (r: Self)
        ensures
            r@ == self@,
    {
        let r = ExternalTransaction {
            hash: self.hash,
            from: self.from,
            to: self.to,
            nonce: self.nonce,
            value: self.value,
            gas: self.gas,
            input: self.input.clone(),
        };
        proof {
            assert(r@ =~= self@);
        }
        r
    }
}

impl ExternalTransactionV {
    /// The internal transaction input this external transaction converts to.
    pub open spec fn as_input(self) -> TransactionInputV {
        TransactionInputV {
            hash: self.hash,
            signer: self.from,
            from: Some(self.from),
            to: self.to,
            nonce: self.nonce,
            value: self.value,
            data: self.input,
            gas: self.gas,
        }
    }
}

impl ExternalTransaction {
    /// Converts to the internal transaction representation: the reported
    /// sender is taken as the recovered signer.
    pub fn to_input(&self) -> (r: TransactionInput)
        ensures
            r@ == self@.as_input(),
    {
        let r = TransactionInput {
            hash: self.hash,
            signer: self.from,
            from: Some(self.from),
            to: self.to,
            nonce: self.nonce,
            value: self.value,
            data: self.input.clone(),
            gas: self.gas,
        };
        proof {
            assert(r@ =~= self@.as_input());
        }
        r
    }
}

/// View of a sequence of external transactions.
pub open spec fn external_txs_view(s: Seq<ExternalTransaction>) -> Seq<ExternalTransactionV> {
    Seq::new(s.len(), |i: int| s[i]@)
}

/// A receipt as an upstream node reports it.
#[derive(Debug)]
pub struct ExternalReceipt {
    pub hash: Hash256,
    pub status: u64,
    pub contract_address: Option<Address>,
    pub gas_used: Gas,
    pub logs: Vec<Log>,
}

/// Mathematical value of an [`ExternalReceipt`].
#[verifier::ext_equal]
pub ghost struct ExternalReceiptV {
    pub hash: Hash256,
    pub status: u64,
    pub contract_address: Option<Address>,
    pub gas_used: Gas,
    pub logs: Seq<LogV>,
}

impl View for ExternalReceipt {
    type V = ExternalReceiptV;

    open spec fn view(&self) -> ExternalReceiptV {
        ExternalReceiptV {
            hash: self.hash,
            status: self.status,
            contract_address: self.contract_address,
            gas_used: self.gas_used,
            logs: logs_view(self.logs@),
        }
    }
}

impl Clone for ExternalReceipt {
    fn clone(&self) -> (r: Self)
        ensures
            r@ == self@,
    {
        let logs = self.logs.clone();
        proof {
            assert(logs_view(logs@) =~= logs_view(self.logs@)) by {
                assert forall|i: int| 0 <= i < self.logs@.len() implies logs@[i]@
                    == self.logs@[i]@ by {
                    assert(cloned::<Log>(self.logs@[i], logs@[i]));
                }
            }
        }
        let r = ExternalReceipt {
            hash: self.hash,
            status: self.status,
            contract_address: self.contract_address,
            gas_used: self.gas_used,
            logs,
        };
        proof {
            assert(r@ =~= self@);
        }
        r
    }
}

/// A block as an upstream node reports it.
#[derive(Debug)]
pub struct ExternalBlock {
    pub number: u64,
    pub hash: Hash256,
    pub timestamp: u64,
    pub miner: Address,
    pub transactions: Vec<ExternalTransaction>,
}

/// Mathematical value of an [`ExternalBlock`].
#[verifier::ext_equal]
pub ghost struct ExternalBlockV {
    pub number: u64,
    pub hash: Hash256,
    pub timestamp: u64,
    pub miner: Address,
    pub transactions: Seq<ExternalTransactionV>,
}

impl View for ExternalBlock {
    type V = ExternalBlockV;

    open spec fn view(&self) -> ExternalBlockV {
        ExternalBlockV {
            number: self.number,
            hash: self.hash,
            timestamp: self.timestamp,
            miner: self.miner,
            transactions: external_txs_view(self.transactions@),
        }
    }
}

impl Clone for ExternalBlock {
    fn clone(&self) -> (r: Self)
        ensures
            r@ == self@,
    {
        let transactions = self.transactions.clone();
        proof {
            assert(external_txs_view(transactions@) =~= external_txs_view(
                self.transactions@,
            )) by {
                assert forall|i: int| 0 <= i < self.transactions@.len() implies transactions@[i]@
                    == self.transactions@[i]@ by {
                    assert(cloned::<ExternalTransaction>(self.transactions@[i], transactions@[i]));
                }
            }
        }
        let r = ExternalBlock {
            number: self.number,
            hash: self.hash,
            timestamp: self.timestamp,
            miner: self.miner,
            transactions,
        };
        proof {
            assert(r@ =~= self@);
        }
        r
    }
}

/// An external transaction with its receipt and the execution that the local
/// re-execution produced for it.
#[derive(Debug)]
pub struct ExternalTransactionExecution {
    pub tx: ExternalTransaction,
    pub receipt: ExternalReceipt,
    pub execution: Execution,
}

/// Which receipt field a re-execution failed to reproduce.
#[derive(Clone, Copy, Debug, PartialEq, Eq, Structural)]
pub enum ReceiptMismatch {
    Status,
    ContractAddress,
    GasUsed,
    Logs,
}

/// Equality of two logs at the value level.
pub fn log_eq(a: &Log, b: &Log) -> (r: bool)
    ensures
        r == (a@ == b@),
{
    if !a.address.eq_addr(&b.address) {
        return false;
    }
    if !a.data.eq_bytes(&b.data) {
        return false;
    }
    if a.topics.len() != b.topics.len() {
        return false;
    }
    let n = a.topics.len();
    let mut i: usize = 0;
    while i < n
        invariant
            i <= n,
            n == a.topics@.len(),
            n == b.topics@.len(),
            a.address == b.address,
            a.data@ == b.data@,
            forall|j: int| 0 <= j < i ==> a.topics@[j] == b.topics@[j],
        decreases n - i,
    {
        if !a.topics[i].eq_hash(&b.topics[i]) {
            return false;
        }
        i = i + 1;
    }
    proof {
        assert(a.topics@ =~= b.topics@);
        assert(a@ =~= b@);
    }
    true
}

impl ExecutionV {
    /// The local result kind agrees with the receipt's status code.
    pub open spec fn status_matches(self, receipt: ExternalReceiptV) -> bool {
        self.is_success() <==> receipt.status == 1
    }

    /// When the receipt reports a deployed contract, the local execution
    /// deployed code at the same address.
    pub open spec fn contract_matches(self, receipt: ExternalReceiptV) -> bool {
        match receipt.contract_address {
            None => true,
            Some(addr) => self.contract_address() == Some(addr),
        }
    }

    pub open spec fn gas_matches(self, receipt: ExternalReceiptV) -> bool {
        self.gas_used == receipt.gas_used
    }

    /// Ordered, field-for-field equality of the emitted logs.
    pub open spec fn logs_match(self, receipt: ExternalReceiptV) -> bool {
        self.logs == receipt.logs
    }

    /// Full agreement with the receipt.
    pub open spec fn matches_receipt(self, receipt: ExternalReceiptV) -> bool {
        &&& self.status_matches(receipt)
        &&& self.contract_matches(receipt)
        &&& self.gas_matches(receipt)
        &&& self.logs_match(receipt)
    }
}

impl Execution {
    /// Checks this re-execution against the external receipt: status,
    /// deployed contract address, gas used, and the ordered logs must all
    /// agree. The first disagreement, in that order, is reported.
    pub fn compare_with_receipt(&self, receipt: &ExternalReceipt) -> (r: Result<
        (),
        ReceiptMismatch,
    >)
        ensures
            r is Ok <==> self@.matches_receipt(receipt@),
            r == Err::<(), ReceiptMismatch>(ReceiptMismatch::Status) <==> !self@.status_matches(
                receipt@,
            ),
            r == Err::<(), ReceiptMismatch>(ReceiptMismatch::ContractAddress) <==> (
            self@.status_matches(receipt@) && !self@.contract_matches(receipt@)),
            r == Err::<(), ReceiptMismatch>(ReceiptMismatch::GasUsed) <==> (self@.status_matches(
                receipt@,
            ) && self@.contract_matches(receipt@) && !self@.gas_matches(receipt@)),
            r == Err::<(), ReceiptMismatch>(ReceiptMismatch::Logs) <==> (self@.status_matches(
                receipt@,
            ) && self@.contract_matches(receipt@) && self@.gas_matches(receipt@)
                && !self@.logs_match(receipt@)),
    {
        let success = self.succeeded();
        if !(success == (receipt.status == 1)) {
            return Err(ReceiptMismatch::Status);
        }
        match &receipt.contract_address {
            Some(expected) => {
                match self.contract_address() {
                    Some(actual) => {
                        if !actual.eq_addr(expected) {
                            return Err(ReceiptMismatch::ContractAddress);
                        }
                    },
                    None => {
                        return Err(ReceiptMismatch::ContractAddress);
                    },
                }
            },
            None => {},
        }
        if self.gas_used.value != receipt.gas_used.value {
            return Err(ReceiptMismatch::GasUsed);
        }
        if self.logs.len() != receipt.logs.len() {
            proof {
                assert(self@.logs.len() != receipt@.logs.len());
            }
            return Err(ReceiptMismatch::Logs);
        }
        let n = self.logs.len();
        let mut i: usize = 0;
        while i < n
            invariant
                i <= n,
                n == self.logs@.len(),
                n == receipt.logs@.len(),
                self@.status_matches(receipt@),
                self@.contract_matches(receipt@),
                self@.gas_matches(receipt@),
                forall|j: int| 0 <= j < i ==> logs_view(self.logs@)[j] == logs_view(
                    receipt.logs@,
                )[j],
            decreases n - i,
        {
            if !log_eq(&self.logs[i], &receipt.logs[i]) {
                proof {
                    assert(logs_view(self.logs@)[i as int] != logs_view(receipt.logs@)[i as int]);
                    assert(!self@.logs_match(receipt@));
                }
                return Err(ReceiptMismatch::Logs);
            }
            i = i + 1;
        }
        proof {
            assert(logs_view(self.logs@) =~= logs_view(receipt.logs@));
        }
        Ok(())
    }
}

impl Block {
    /// Assembles the internal block for an imported external block from the
    /// re-executed transactions, in order.
    pub fn from_external(block: &ExternalBlock, executions: Vec<ExternalTransactionExecution>) -> (
        r: Block)
        requires
            executions@.len() <= u64::MAX,
        ensures
            r@.header.number == block.number,
            r@.header.hash == block.hash,
            r@.header.timestamp == block.timestamp,
            r@.header.miner == block.miner,
            r@.transactions.len() == executions@.len(),
            forall|i: int|
                0 <= i < executions@.len() ==> {
                    &&& (#[trigger] r@.transactions[i]).input == executions@[i].tx@.as_input()
                    &&& r@.transactions[i].execution == executions@[i].execution@
                    &&& r@.transactions[i].index == i
                    &&& r@.transactions[i].block_number == block.number
                    &&& r@.transactions[i].block_hash == block.hash
                    &&& r@.transactions[i].logs_wf()
                },
    {
        let mut header = BlockHeader::new(block.number);
        header.hash = block.hash;
        header.timestamp = block.timestamp;
        header.miner = block.miner;
        let ghost orig = executions@;
        let n = executions.len();
        let mut transactions: Vec<TransactionMined> = Vec::new();
        let mut rest = executions;
        let mut i: usize = 0;
        while i < n
            invariant
                i <= n,
                n == orig.len(),
                n <= u64::MAX,
                rest@ == orig.skip(i as int),
                transactions@.len() == i,
                forall|j: int|
                    0 <= j < i ==> {
                        &&& (#[trigger] transactions@[j])@.input == orig[j].tx@.as_input()
                        &&& transactions@[j]@.execution == orig[j].execution@
                        &&& transactions@[j]@.index == j
                        &&& transactions@[j]@.block_number == block.number
                        &&& transactions@[j]@.block_hash == block.hash
                        &&& transactions@[j]@.logs_wf()
                    },
            decreases n - i,
        {
            proof {
                assert(rest@[0] == orig[i as int]);
                assert(rest@.remove(0) =~= orig.skip(i + 1));
            }
            let ex = rest.remove(0);
            let input = ex.tx.to_input();
            let mined = TransactionMined::new(
                input,
                ex.execution,
                i as u64,
                block.number,
                block.hash,
            );
            transactions.push(mined);
            i = i + 1;
        }
        Block { header, transactions }
    }
}

} // verus!
