//! The executor: the coordinator for executing transactions. It validates
//! the input, drives the optimistic execute, check-conflicts, mine, commit
//! loop, re-executes imported blocks against their receipts, and mines
//! empty blocks on demand.

use vstd::prelude::*;

use crate::block::Block;
use crate::evm::Evm;
use crate::evm::EvmError;
use crate::evm::EvmInput;
use crate::execution::Execution;
use crate::external::ExternalBlock;
use crate::external::ExternalReceipt;
use crate::external::ExternalReceiptV;
use crate::external::ExternalTransactionExecution;
use crate::external::ReceiptMismatch;
use crate::miner;
use crate::permanent::EthStorageError;
use crate::permanent::PermStateV;
use crate::permanent::PermanentStorage;
use crate::primitives::Hash256;
use crate::stratus_storage::StratusStorage;
use crate::transaction::CallInput;
use crate::transaction::TransactionInput;

verus! {

/// How many times the optimistic loop retries after a conflict before
/// giving up.
pub const MAX_MINE_ATTEMPTS: u64 = 16;

/// Why the executor could not serve a request.
#[derive(Debug)]
pub enum EthError {
    /// Transactions from the zero address are rejected before dispatch.
    ZeroSigner,
    /// The optimistic loop hit its retry budget without committing.
    RetryBudgetExhausted,
    /// The EVM could not produce an execution.
    Evm(EvmError),
    /// A storage operation failed.
    Storage(EthStorageError),
    /// No receipt was supplied for the transaction with this hash.
    MissingReceipt(Hash256),
    /// The local re-execution disagrees with the external receipt.
    ReceiptMismatch(ReceiptMismatch),
}

/// View of a list of external receipts.
pub open spec fn receipts_view(s: Seq<ExternalReceipt>) -> Seq<ExternalReceiptV> {
    Seq::new(s.len(), |i: int| s[i]@)
}

/// First receipt recorded for the given transaction hash, if any.
pub open spec fn find_receipt(rs: Seq<ExternalReceiptV>, hash: Hash256) -> Option<ExternalReceiptV>
    decreases rs.len(),
{
    if rs.len() == 0 {
        None
    } else if rs[0].hash == hash {
        Some(rs[0])
    } else {
        find_receipt(rs.skip(1), hash)
    }
}

/// First receipt for the hash, cloned.
fn find_receipt_exec(receipts: &Vec<ExternalReceipt>, hash: &Hash256) -> (r: Option<
    ExternalReceipt,
>)
    ensures
        match find_receipt(receipts_view(receipts@), *hash) {
            None => r is None,
            Some(v) => r matches Some(rc) && rc@ == v,
        },
{
    let ghost all = receipts_view(receipts@);
    let n = receipts.len();
    let mut i: usize = 0;
    proof {
        assert(all.skip(0) =~= all);
    }
    while i < n
        invariant
            i <= n,
            n == receipts@.len(),
            all == receipts_view(receipts@),
            find_receipt(all, *hash) == find_receipt(all.skip(i as int), *hash),
        decreases n - i,
    {
        proof {
            assert(all.skip(i as int)[0] == all[i as int]);
            assert(all.skip(i as int).skip(1) =~= all.skip(i + 1));
        }
        if receipts[i].hash.eq_hash(hash) {
            return Some(receipts[i].clone());
        }
        i = i + 1;
    }
    None
}

/// The executor. It owns one EVM and the layered storage; callers that run
/// several EVM workers own one executor handle per worker and share the
/// storage behind it.
pub struct EthExecutor<E: Evm, P: PermanentStorage> {
    pub evm: E,
    pub storage: StratusStorage<P>,
}

impl<E: Evm, P: PermanentStorage> EthExecutor<E, P> {
    /// Creates a new executor.
    pub fn new(evm: E, storage: StratusStorage<P>) -> (r: EthExecutor<E, P>)
        ensures
            r.storage == storage,
    {
        EthExecutor { evm, storage }
    }

    /// Executes a transaction and mines it into its own block.
    ///
    /// Either the call returns the execution and its changes are committed
    /// in exactly one new block, or it returns an error and no block was
    /// committed. A transaction from the zero signer is rejected before any
    /// EVM dispatch.
    pub fn transact(&mut self, transaction: TransactionInput) -> (r: Result<Execution, EthError>)
        ensures
            transaction.signer.is_zero() ==> (r matches Err(e) && e is ZeroSigner && *final(self)
                == *old(self)),
            r matches Err(e) && e is ZeroSigner ==> transaction.signer.is_zero(),
            r matches Ok(e) ==> {
                &&& final(self).storage.perm.pview() == (PermStateV {
                    blocks: old(self).storage.perm.pview().blocks.push(
                        final(self).storage.perm.pview().blocks.last(),
                    ),
                    block_number: final(self).storage.perm.pview().blocks.last().header.number,
                    ..old(self).storage.perm.pview()
                })
                &&& final(self).storage.perm.pview().blocks.last().transactions.len() == 1
                &&& final(self).storage.perm.pview().blocks.last().transactions[0].input
                    == transaction@
                &&& final(self).storage.perm.pview().blocks.last().transactions[0].execution == e@
                &&& final(self).storage.perm.pview().blocks.last().transactions[0].index == 0
                &&& final(self).storage.perm.pview().blocks.last().transactions[0].logs_wf()
                &&& final(self).storage.perm.pview().blocks.last().header.number == old(self).storage.perm.pview().blocks.len()
                &&& final(self).storage.temp@.is_empty()
            },
            r is Err ==> final(self).storage.perm.pview() == old(self).storage.perm.pview(),
    {
        if transaction.signer.check_zero() {
            return Err(EthError::ZeroSigner);
        }
        self.mine_and_execute_transaction(transaction)
    }

    /// The optimistic loop: execute, check conflicts before mining, mine,
    /// commit; a conflict at either stage retries with a fresh execution,
    /// up to the retry budget.
    fn mine_and_execute_transaction(&mut self, transaction: TransactionInput) -> (r: Result<
        Execution,
        EthError,
    >)
        ensures
            r matches Err(e) ==> !(e is ZeroSigner),
            r matches Ok(e) ==> {
                &&& final(self).storage.perm.pview() == (PermStateV {
                    blocks: old(self).storage.perm.pview().blocks.push(
                        final(self).storage.perm.pview().blocks.last(),
                    ),
                    block_number: final(self).storage.perm.pview().blocks.last().header.number,
                    ..old(self).storage.perm.pview()
                })
                &&& final(self).storage.perm.pview().blocks.last().transactions.len() == 1
                &&& final(self).storage.perm.pview().blocks.last().transactions[0].input
                    == transaction@
                &&& final(self).storage.perm.pview().blocks.last().transactions[0].execution == e@
                &&& final(self).storage.perm.pview().blocks.last().transactions[0].index == 0
                &&& final(self).storage.perm.pview().blocks.last().transactions[0].logs_wf()
                &&& final(self).storage.perm.pview().blocks.last().header.number == old(self).storage.perm.pview().blocks.len()
                &&& final(self).storage.temp@.is_empty()
            },
            r is Err ==> final(self).storage.perm.pview() == old(self).storage.perm.pview(),
    {
        let ghost pview0 = self.storage.perm.pview();
        let mut attempts: u64 = 0;
        while attempts < MAX_MINE_ATTEMPTS
            invariant
                attempts <= MAX_MINE_ATTEMPTS,
                self.storage.perm.pview() == pview0,
                pview0 == old(self).storage.perm.pview(),
            decreases MAX_MINE_ATTEMPTS - attempts,
        {
            // execute and check conflicts before mining the block
            let evm_input = EvmInput::from_eth_transaction(&transaction);
            let execution = match self.evm.transact(evm_input) {
                Ok(execution) => execution,
                Err(e) => {
                    return Err(EthError::Evm(e));
                },
            };
            if self.storage.check_conflicts(&execution).is_some() {
                attempts = attempts + 1;
                continue ;
            }
            // mine and commit the block
            let block = match miner::mine_with_one_transaction(
                &self.storage,
                transaction.clone(),
                execution.clone(),
            ) {
                Ok(block) => block,
                Err(e) => {
                    return Err(EthError::Storage(e));
                },
            };
            let ghost bv = block@;
            match self.storage.commit(block) {
                Ok(()) => {
                    proof {
                        assert(self.storage.perm.pview().blocks.last() == bv);
                    }
                    return Ok(execution);
                },
                Err(EthStorageError::Conflict(_)) => {
                    attempts = attempts + 1;
                },
                Err(e) => {
                    return Err(EthError::Storage(e));
                },
            }
        }
        Err(EthError::RetryBudgetExhausted)
    }

    /// Executes a read-only call at the given point in time. State is
    /// neither mutated nor notified.
    pub fn call(&mut self, input: CallInput, point_in_time: crate::block::StoragePointInTime) -> (
        r: Result<Execution, EthError>)
        ensures
            final(self).storage == old(self).storage,
            r is Err ==> (r matches Err(e) && e is Evm),
    {
        let evm_input = EvmInput::from_eth_call(&input, point_in_time);
        match self.evm.transact(evm_input) {
            Ok(execution) => Ok(execution),
            Err(e) => Err(EthError::Evm(e)),
        }
    }

    /// Imports an external block transaction by transaction: each one is
    /// re-executed, compared against its receipt, and committed in its own
    /// block; the first failure aborts the rest.
    pub fn import(&mut self, external_block: ExternalBlock, receipts: &Vec<ExternalReceipt>) -> (r:
        Result<(), EthError>)
        ensures
            external_block@.transactions.len() == 0 ==> r is Ok,
            r is Ok ==> final(self).storage.perm.pview().blocks.len() == old(self).storage.perm.pview().blocks.len() + external_block@.transactions.len(),
            final(self).storage.perm.pview().blocks.len() >= old(self).storage.perm.pview().blocks.len(),
            final(self).storage.perm.pview().blocks.len() <= old(self).storage.perm.pview().blocks.len() + external_block@.transactions.len(),
            forall|j: int|
                old(self).storage.perm.pview().blocks.len() <= j < final(self).storage.perm.pview().blocks.len() ==> {
                    &&& (#[trigger] final(self).storage.perm.pview().blocks[j]).transactions.len() == 1
                    &&& final(self).storage.perm.pview().blocks[j].transactions[0].input
                        == external_block@.transactions[j - old(self).storage.perm.pview().blocks.len()].as_input()
                    &&& final(self).storage.perm.pview().blocks[j].transactions[0].index == 0
                    &&& match find_receipt(
                        receipts_view(receipts@),
                        external_block@.transactions[j - old(self).storage.perm.pview().blocks.len()].hash,
                    ) {
                        Some(receipt) => final(self).storage.perm.pview().blocks[j].transactions[0].execution.matches_receipt(
                            receipt,
                        ),
                        None => false,
                    }
                },
            r matches Err(e) ==> (e matches EthError::MissingReceipt(h) ==> {
                &&& final(self).storage.perm.pview().blocks.len() - old(self).storage.perm.pview().blocks.len() < external_block@.transactions.len()
                &&& h == external_block@.transactions[final(self).storage.perm.pview().blocks.len() - old(self).storage.perm.pview().blocks.len()].hash
                &&& find_receipt(receipts_view(receipts@), h) is None
            }),
            r matches Err(e) ==> (e is ReceiptMismatch ==> {
                &&& final(self).storage.perm.pview().blocks.len() - old(self).storage.perm.pview().blocks.len() < external_block@.transactions.len()
                &&& find_receipt(
                    receipts_view(receipts@),
                    external_block@.transactions[final(self).storage.perm.pview().blocks.len() - old(self).storage.perm.pview().blocks.len()].hash,
                ) is Some
            }),
    {
        let ghost len0 = self.storage.perm.pview().blocks.len();
        let n = external_block.transactions.len();
        let mut k: usize = 0;
        while k < n
            invariant
                k <= n,
                n == external_block.transactions@.len(),
                self.storage.perm.pview().blocks.len() == len0 + k,
                len0 == old(self).storage.perm.pview().blocks.len(),
                forall|j: int|
                    len0 <= j < len0 + k ==> {
                        &&& (#[trigger] self.storage.perm.pview().blocks[j]).transactions.len()
                            == 1
                        &&& self.storage.perm.pview().blocks[j].transactions[0].input
                            == external_block@.transactions[j - len0].as_input()
                        &&& self.storage.perm.pview().blocks[j].transactions[0].index == 0
                        &&& match find_receipt(
                            receipts_view(receipts@),
                            external_block@.transactions[j - len0].hash,
                        ) {
                            Some(receipt) => self.storage.perm.pview().blocks[j].transactions[0].execution.matches_receipt(
                                receipt,
                            ),
                            None => false,
                        }
                    },
            decreases n - k,
        {
            let external_transaction = external_block.transactions[k].clone();
            proof {
                assert(external_transaction.hash == external_block@.transactions[k as int].hash);
            }
            // find the receipt for the current transaction
            let external_receipt = match find_receipt_exec(receipts, &external_transaction.hash) {
                Some(receipt) => receipt,
                None => {
                    return Err(EthError::MissingReceipt(external_transaction.hash));
                },
            };
            // re-execute the transaction
            let transaction_input = external_transaction.to_input();
            let evm_input = EvmInput::from_external_transaction(&external_transaction);
            let execution = match self.evm.transact(evm_input) {
                Ok(execution) => execution,
                Err(e) => {
                    return Err(EthError::Evm(e));
                },
            };
            // ensure the re-execution matches the receipt
            if let Err(mismatch) = execution.compare_with_receipt(&external_receipt) {
                return Err(EthError::ReceiptMismatch(mismatch));
            }
            // mine and commit the transaction in its own block
            let block = match miner::mine_with_one_transaction(
                &self.storage,
                transaction_input,
                execution,
            ) {
                Ok(block) => block,
                Err(e) => {
                    return Err(EthError::Storage(e));
                },
            };
            match self.storage.commit(block) {
                Ok(()) => {},
                Err(e) => {
                    return Err(EthError::Storage(e));
                },
            }
            k = k + 1;
        }
        Ok(())
    }

    /// Imports an external block using the offline flow: every transaction
    /// is re-executed and verified first, with its changes seeded into the
    /// overlay so later transactions observe earlier effects; only then is
    /// the whole block assembled and committed atomically. On any failure
    /// the permanent state is exactly as before the call and the overlay is
    /// left empty.
    pub fn import_offline(&mut self, block: ExternalBlock, receipts: &Vec<ExternalReceipt>) -> (r:
        Result<(), EthError>)
        ensures
            final(self).storage.temp@.is_empty(),
            block@.transactions.len() == 0 && old(self).storage.perm.pview().block_number
                < u64::MAX && block@.number == old(self).storage.perm.pview().blocks.len()
                ==> r is Ok,
            r is Ok ==> {
                &&& final(self).storage.perm.pview() == (PermStateV {
                    blocks: old(self).storage.perm.pview().blocks.push(
                        final(self).storage.perm.pview().blocks.last(),
                    ),
                    block_number: block@.number,
                    ..old(self).storage.perm.pview()
                })
                &&& block@.number == old(self).storage.perm.pview().blocks.len()
                &&& final(self).storage.perm.pview().blocks.last().header.number == block@.number
                &&& final(self).storage.perm.pview().blocks.last().transactions.len()
                    == block@.transactions.len()
                &&& forall|i: int|
                    0 <= i < block@.transactions.len() ==> {
                        &&& (#[trigger] final(self).storage.perm.pview().blocks.last().transactions[i]).input
                            == block@.transactions[i].as_input()
                        &&& final(self).storage.perm.pview().blocks.last().transactions[i].index
                            == i
                        &&& final(self).storage.perm.pview().blocks.last().transactions[i].logs_wf()
                    }
                &&& forall|i: int|
                    0 <= i < block@.transactions.len() ==> match find_receipt(
                        receipts_view(receipts@),
                        block@.transactions[i].hash,
                    ) {
                        Some(receipt) => (#[trigger] final(self).storage.perm.pview().blocks.last().transactions[i]).execution.matches_receipt(
                            receipt,
                        ),
                        None => false,
                    }
            },
            r is Err ==> final(self).storage.perm.pview() == old(self).storage.perm.pview(),
            r matches Err(e) ==> (e matches EthError::MissingReceipt(h) ==> {
                &&& find_receipt(receipts_view(receipts@), h) is None
                &&& exists|j: int|
                    0 <= j < block@.transactions.len() && (#[trigger] block@.transactions[j]).hash
                        == h
            }),
            r matches Err(e) ==> (e is ReceiptMismatch ==> exists|j: int|
                0 <= j < block@.transactions.len() && find_receipt(
                    receipts_view(receipts@),
                    (#[trigger] block@.transactions[j]).hash,
                ) is Some),
    {
        let ghost pview0 = self.storage.perm.pview();
        // re-execute transactions
        let n = block.transactions.len();
        let mut executions: Vec<ExternalTransactionExecution> = Vec::new();
        let mut k: usize = 0;
        while k < n
            invariant
                k <= n,
                n == block.transactions@.len(),
                self.storage.perm.pview() == pview0,
                pview0 == old(self).storage.perm.pview(),
                executions@.len() == k,
                forall|i: int|
                    0 <= i < k ==> (#[trigger] executions@[i]).tx@ == block.transactions@[i]@,
                forall|i: int|
                    0 <= i < k ==> match find_receipt(
                        receipts_view(receipts@),
                        block.transactions@[i]@.hash,
                    ) {
                        Some(receipt) => (#[trigger] executions@[i]).execution@.matches_receipt(
                            receipt,
                        ),
                        None => false,
                    },
            decreases n - k,
        {
            let tx = block.transactions[k].clone();
            proof {
                assert(tx.hash == block@.transactions[k as int].hash);
            }
            // find the receipt
            let receipt = match find_receipt_exec(receipts, &tx.hash) {
                Some(receipt) => receipt,
                None => {
                    let hash = tx.hash;
                    self.storage.reset_temp();
                    return Err(EthError::MissingReceipt(hash));
                },
            };
            // re-execute the transaction
            let evm_input = EvmInput::from_external_transaction(&tx);
            let execution = match self.evm.transact(evm_input) {
                Ok(execution) => execution,
                Err(e) => {
                    self.storage.reset_temp();
                    return Err(EthError::Evm(e));
                },
            };
            // ensure it matches the receipt before saving
            if let Err(mismatch) = execution.compare_with_receipt(&receipt) {
                self.storage.reset_temp();
                return Err(EthError::ReceiptMismatch(mismatch));
            }
            // temporarily save state so the next transactions from the same
            // block observe it
            self.storage.save_account_changes(block.number, &execution);
            executions.push(ExternalTransactionExecution { tx, receipt, execution });
            k = k + 1;
        }
        let assembled = Block::from_external(&block, executions);
        let previous_number = self.storage.read_current_block_number();
        match self.storage.increment_block_number() {
            Ok(_) => {},
            Err(e) => {
                self.storage.reset_temp();
                return Err(EthError::Storage(e));
            },
        }
        let ghost bv = assembled@;
        match self.storage.commit(assembled) {
            Ok(()) => {
                proof {
                    assert(self.storage.perm.pview().blocks.last() == bv);
                }
                Ok(())
            },
            Err(e) => {
                // a failed commit must not leave the incremented counter
                // behind: restore it so counter and blocks stay in step
                self.storage.set_mined_block_number(previous_number);
                proof {
                    assert(self.storage.perm.pview() =~= old(self).storage.perm.pview());
                }
                Err(EthError::Storage(e))
            },
        }
    }

    /// Mines and commits a block with no transactions. It succeeds exactly
    /// when the tip counter is below its maximum and one past the counter
    /// is the next dense block number.
    pub fn mine_empty_block(&mut self) -> (r: Result<(), EthError>)
        ensures
            r is Ok <==> (old(self).storage.perm.pview().block_number < u64::MAX && old(self).storage.perm.pview().block_number + 1 == old(self).storage.perm.pview().blocks.len()),
            r is Ok ==> {
                &&& final(self).storage.perm.pview() == (PermStateV {
                    blocks: old(self).storage.perm.pview().blocks.push(
                        final(self).storage.perm.pview().blocks.last(),
                    ),
                    block_number: (old(self).storage.perm.pview().block_number + 1) as u64,
                    ..old(self).storage.perm.pview()
                })
                &&& final(self).storage.perm.pview().blocks.last().transactions.len() == 0
                &&& final(self).storage.perm.pview().blocks.last().header.number == old(self).storage.perm.pview().block_number + 1
                &&& final(self).storage.temp@.is_empty()
            },
            r is Err ==> final(self).storage.perm.pview() == old(self).storage.perm.pview(),
    {
        let block = match miner::mine_with_no_transactions(&self.storage) {
            Ok(block) => block,
            Err(e) => {
                return Err(EthError::Storage(e));
            },
        };
        let ghost bv = block@;
        match self.storage.commit(block) {
            Ok(()) => {
                proof {
                    assert(self.storage.perm.pview().blocks.last() == bv);
                }
                Ok(())
            },
            Err(e) => Err(EthError::Storage(e)),
        }
    }
}

} // verus!
