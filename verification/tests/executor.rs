use stratus::block::Block;
use stratus::block::BlockSelection;
use stratus::block::StoragePointInTime;
use stratus::evm::Evm;
use stratus::evm::EvmError;
use stratus::evm::EvmInput;
use stratus::execution::Execution;
use stratus::execution::ExecutionAccountChanges;
use stratus::execution::ExecutionResult;
use stratus::execution::ExecutionValueChange;
use stratus::execution::Log;
use stratus::execution::SlotChange;
use stratus::executor::EthError;
use stratus::executor::EthExecutor;
use stratus::external::ExternalBlock;
use stratus::external::ExternalReceipt;
use stratus::external::ExternalTransaction;
use stratus::external::ReceiptMismatch;
use stratus::miner;
use stratus::permanent_inmemory::InMemoryPermanentStorage;
use stratus::primitives::Address;
use stratus::primitives::Amount;
use stratus::primitives::Bytes;
use stratus::primitives::Gas;
use stratus::primitives::Hash256;
use stratus::primitives::Nonce;
use stratus::primitives::SlotIndex;
use stratus::primitives::SlotValue;
use stratus::stratus_storage::StratusStorage;
use stratus::temporary::InMemoryTemporaryStorage;
use stratus::transaction::CallInput;
use stratus::transaction::TransactionInput;

fn addr(b: u8) -> Address {
    let mut bytes = [0u8; 20];
    bytes[19] = b;
    Address::new(bytes)
}

fn hash(b: u8) -> Hash256 {
    let mut bytes = [0u8; 32];
    bytes[31] = b;
    Hash256::new(bytes)
}

fn slot_index(b: u8) -> SlotIndex {
    let mut bytes = [0u8; 32];
    bytes[31] = b;
    SlotIndex::new(bytes)
}

fn slot_value(b: u8) -> SlotValue {
    let mut bytes = [0u8; 32];
    bytes[31] = b;
    SlotValue::new(bytes)
}

fn tx_input(h: u8, signer: Address) -> TransactionInput {
    TransactionInput {
        hash: hash(h),
        signer,
        from: Some(signer),
        to: None,
        nonce: Nonce::new(0),
        value: Amount::new(0),
        data: Bytes::empty(),
        gas: Gas::new(21000),
    }
}

fn success_execution(a: Address, logs: Vec<Log>) -> Execution {
    Execution {
        result: ExecutionResult::Success,
        output: Bytes::empty(),
        gas_used: Gas::new(21000),
        logs,
        changes: vec![ExecutionAccountChanges {
            address: a,
            nonce: ExecutionValueChange { original: Some(Nonce::new(0)), modified: Some(Nonce::new(1)) },
            balance: ExecutionValueChange { original: None, modified: Some(Amount::new(5)) },
            bytecode: ExecutionValueChange { original: None, modified: None },
            static_slot_indexes: ExecutionValueChange { original: None, modified: None },
            mapping_slot_indexes: ExecutionValueChange { original: None, modified: None },
            slots: vec![SlotChange {
                index: slot_index(1),
                original: None,
                modified: Some(slot_value(7)),
            }],
        }],
    }
}

/// A scripted EVM: hands back pre-arranged results in order, counts how
/// often it was invoked, and remembers the last entry point it was given.
struct ScriptedEvm {
    results: Vec<Result<Execution, EvmError>>,
    calls: usize,
    last_input: Option<EvmInput>,
}

impl ScriptedEvm {
    fn new(results: Vec<Result<Execution, EvmError>>) -> ScriptedEvm {
        ScriptedEvm { results, calls: 0, last_input: None }
    }
}

impl Evm for ScriptedEvm {
    fn transact(&mut self, input: EvmInput) -> Result<Execution, EvmError> {
        self.calls += 1;
        self.last_input = Some(input);
        if self.results.is_empty() {
            Err(EvmError::Unavailable)
        } else {
            self.results.remove(0)
        }
    }
}

fn genesis_storage() -> StratusStorage<InMemoryPermanentStorage> {
    let mut storage = StratusStorage::new(
        InMemoryTemporaryStorage::new(),
        InMemoryPermanentStorage::new(),
    );
    storage.enable_genesis(Block::new(0)).unwrap();
    storage
}

#[test]
fn transact_commits_one_block() {
    let signer = addr(1);
    let evm = ScriptedEvm::new(vec![Ok(success_execution(signer, vec![]))]);
    let mut executor = EthExecutor::new(evm, genesis_storage());

    let execution = executor.transact(tx_input(1, signer)).unwrap();
    assert!(matches!(execution.result, ExecutionResult::Success));

    // exactly one block was committed on top of genesis
    assert_eq!(executor.storage.read_current_block_number(), 1);
    let block = executor.storage.read_block(&BlockSelection::Latest).unwrap();
    assert_eq!(block.header.number, 1);
    assert_eq!(block.transactions.len(), 1);
    assert!(block.transactions[0].input.hash.eq_hash(&hash(1)));

    // the committed change is visible at the new height and absent before
    let slot = executor.storage.read_slot(&signer, &slot_index(1), &StoragePointInTime::Past(1));
    assert!(slot.value.eq_value(&slot_value(7)));
    let before = executor.storage.read_slot(&signer, &slot_index(1), &StoragePointInTime::Past(0));
    assert!(before.value.eq_value(&SlotValue::zero()));
}

#[test]
fn transact_rejects_zero_signer_before_dispatch() {
    let evm = ScriptedEvm::new(vec![]);
    let mut executor = EthExecutor::new(evm, genesis_storage());
    let result = executor.transact(tx_input(1, Address::zero()));
    assert!(matches!(result, Err(EthError::ZeroSigner)));
    // the EVM was never invoked and nothing was committed
    assert_eq!(executor.evm.calls, 0);
    assert_eq!(executor.storage.read_current_block_number(), 0);
}

#[test]
fn transact_propagates_evm_failure() {
    let evm = ScriptedEvm::new(vec![Err(EvmError::Unavailable)]);
    let mut executor = EthExecutor::new(evm, genesis_storage());
    let result = executor.transact(tx_input(1, addr(1)));
    assert!(matches!(result, Err(EthError::Evm(EvmError::Unavailable))));
    assert_eq!(executor.storage.read_current_block_number(), 0);
}

#[test]
fn transact_without_genesis_fails_and_commits_nothing() {
    let storage = StratusStorage::new(
        InMemoryTemporaryStorage::new(),
        InMemoryPermanentStorage::new(),
    );
    let evm = ScriptedEvm::new(vec![Ok(success_execution(addr(1), vec![]))]);
    let mut executor = EthExecutor::new(evm, storage);
    let result = executor.transact(tx_input(1, addr(1)));
    assert!(matches!(result, Err(EthError::Storage(_))));
    let latest = executor.storage.read_block(&BlockSelection::Latest);
    assert!(latest.is_none());
}

#[test]
fn transact_exhausts_retry_budget_on_repeated_conflicts() {
    let signer = addr(1);
    // every attempt reports a stale original for the overlay's slot
    let stale = || Execution {
        result: ExecutionResult::Success,
        output: Bytes::empty(),
        gas_used: Gas::new(1),
        logs: vec![],
        changes: vec![ExecutionAccountChanges {
            address: signer,
            nonce: ExecutionValueChange { original: Some(Nonce::new(9)), modified: None },
            balance: ExecutionValueChange { original: None, modified: None },
            bytecode: ExecutionValueChange { original: None, modified: None },
            static_slot_indexes: ExecutionValueChange { original: None, modified: None },
            mapping_slot_indexes: ExecutionValueChange { original: None, modified: None },
            slots: vec![],
        }],
    };
    let results: Vec<Result<Execution, EvmError>> = (0..16).map(|_| Ok(stale())).collect();
    let evm = ScriptedEvm::new(results);
    let mut storage = genesis_storage();
    // seed the overlay so the stale original conflicts
    storage.save_account_changes(1, &success_execution(signer, vec![]));
    let mut executor = EthExecutor::new(evm, storage);
    let result = executor.transact(tx_input(1, signer));
    assert!(matches!(result, Err(EthError::RetryBudgetExhausted)));
    assert_eq!(executor.evm.calls, 16);
    assert_eq!(executor.storage.read_current_block_number(), 0);
}

#[test]
fn call_leaves_storage_untouched() {
    let evm = ScriptedEvm::new(vec![Ok(success_execution(addr(1), vec![]))]);
    let mut executor = EthExecutor::new(evm, genesis_storage());
    let input = CallInput { from: None, to: addr(2), data: Bytes::empty() };
    let execution = executor.call(input, StoragePointInTime::Past(0)).unwrap();
    assert!(matches!(execution.result, ExecutionResult::Success));
    assert_eq!(executor.storage.read_current_block_number(), 0);

    // the EVM was entered as the zero caller, at the requested snapshot
    let seen = executor.evm.last_input.as_ref().unwrap();
    assert!(seen.caller.check_zero());
    assert!(seen.contract.as_ref().unwrap().eq_addr(&addr(2)));
    assert_eq!(seen.point_in_time, Some(StoragePointInTime::Past(0)));
}

#[test]
fn mine_empty_block_advances_the_tip() {
    let evm = ScriptedEvm::new(vec![]);
    let mut executor = EthExecutor::new(evm, genesis_storage());
    executor.mine_empty_block().unwrap();
    assert_eq!(executor.storage.read_current_block_number(), 1);
    let block = executor.storage.read_block(&BlockSelection::Latest).unwrap();
    assert_eq!(block.header.number, 1);
    assert!(block.transactions.is_empty());
}

#[test]
fn miner_stamps_the_next_dense_number() {
    let storage = genesis_storage();
    let block = miner::mine_with_one_transaction(
        &storage,
        tx_input(1, addr(1)),
        success_execution(addr(1), vec![]),
    )
    .unwrap();
    assert_eq!(block.header.number, 1);
    assert_eq!(block.transactions.len(), 1);
    assert_eq!(block.transactions[0].index, 0);
    assert_eq!(block.transactions[0].block_number, 1);

    // the stamped hash carries the number big-endian in its last bytes
    let h = miner::block_hash_for_number(0x0102030405060708);
    assert_eq!(&h.bytes[24..32], &[1, 2, 3, 4, 5, 6, 7, 8]);
    assert_eq!(&h.bytes[0..24], &[0u8; 24]);
}

#[test]
fn mined_logs_carry_block_positions() {
    let signer = addr(1);
    let log = Log { address: signer, topics: vec![hash(1), hash(2)], data: Bytes::new(vec![1, 2]) };
    let evm = ScriptedEvm::new(vec![Ok(success_execution(signer, vec![log.clone(), log]))]);
    let mut executor = EthExecutor::new(evm, genesis_storage());
    executor.transact(tx_input(1, signer)).unwrap();
    let block = executor.storage.read_block(&BlockSelection::Latest).unwrap();
    let mined = &block.transactions[0];
    assert_eq!(mined.logs.len(), 2);
    assert_eq!(mined.logs[0].log_index, 0);
    assert_eq!(mined.logs[1].log_index, 1);
    assert_eq!(mined.logs[0].transaction_index, 0);
    assert_eq!(mined.logs[0].block_number, 1);
    assert!(mined.logs[0].transaction_hash.eq_hash(&hash(1)));
}

fn external_fixture(status_logs: Vec<Log>) -> (ExternalBlock, Vec<ExternalReceipt>) {
    let sender = addr(3);
    let tx = ExternalTransaction {
        hash: hash(21),
        from: sender,
        to: None,
        nonce: Nonce::new(0),
        value: Amount::new(0),
        gas: Gas::new(21000),
        input: Bytes::empty(),
    };
    let receipt = ExternalReceipt {
        hash: hash(21),
        status: 1,
        contract_address: None,
        gas_used: Gas::new(21000),
        logs: status_logs,
    };
    let block = ExternalBlock {
        number: 1,
        hash: hash(31),
        timestamp: 1000,
        miner: addr(9),
        transactions: vec![tx],
    };
    (block, vec![receipt])
}

#[test]
fn import_offline_commits_one_block() {
    let sender = addr(3);
    let (block, receipts) = external_fixture(vec![]);
    let evm = ScriptedEvm::new(vec![Ok(success_execution(sender, vec![]))]);
    let mut executor = EthExecutor::new(evm, genesis_storage());
    executor.import_offline(block, &receipts).unwrap();
    assert_eq!(executor.storage.read_current_block_number(), 1);
    let committed = executor.storage.read_block(&BlockSelection::Latest).unwrap();
    assert_eq!(committed.header.number, 1);
    assert_eq!(committed.transactions.len(), 1);
    assert!(committed.transactions[0].input.hash.eq_hash(&hash(21)));
    assert!(committed.transactions[0].input.signer.eq_addr(&sender));
    // the overlay was flushed by the commit
    assert!(executor.storage.temp.read_account(&sender).is_none());
}

#[test]
fn import_offline_rejects_mismatching_receipt() {
    let sender = addr(3);
    // the receipt announces a log the re-execution does not produce
    let receipt_log = Log { address: sender, topics: vec![hash(1)], data: Bytes::empty() };
    let (block, receipts) = external_fixture(vec![receipt_log]);
    let evm = ScriptedEvm::new(vec![Ok(success_execution(sender, vec![]))]);
    let mut executor = EthExecutor::new(evm, genesis_storage());
    let result = executor.import_offline(block, &receipts);
    assert!(matches!(result, Err(EthError::ReceiptMismatch(ReceiptMismatch::Logs))));
    // the tip is unchanged and the temporary storage is empty
    assert_eq!(executor.storage.read_current_block_number(), 0);
    assert!(executor.storage.temp.read_account(&sender).is_none());
    assert!(executor.storage.temp.read_executions().is_empty());
}

#[test]
fn import_offline_reports_missing_receipt() {
    let sender = addr(3);
    let (block, _) = external_fixture(vec![]);
    let evm = ScriptedEvm::new(vec![Ok(success_execution(sender, vec![]))]);
    let mut executor = EthExecutor::new(evm, genesis_storage());
    let result = executor.import_offline(block, &vec![]);
    match result {
        Err(EthError::MissingReceipt(h)) => assert!(h.eq_hash(&hash(21))),
        other => panic!("expected a missing-receipt error, got {:?}", other.is_ok()),
    }
    assert_eq!(executor.storage.read_current_block_number(), 0);
}

#[test]
fn import_commits_one_block_per_transaction() {
    let sender = addr(3);
    let tx2 = ExternalTransaction {
        hash: hash(22),
        from: sender,
        to: None,
        nonce: Nonce::new(1),
        value: Amount::new(0),
        gas: Gas::new(21000),
        input: Bytes::empty(),
    };
    let receipt2 = ExternalReceipt {
        hash: hash(22),
        status: 1,
        contract_address: None,
        gas_used: Gas::new(21000),
        logs: vec![],
    };
    let (mut block, mut receipts) = external_fixture(vec![]);
    block.transactions.push(tx2);
    receipts.push(receipt2);
    let evm = ScriptedEvm::new(vec![
        Ok(success_execution(sender, vec![])),
        Ok(success_execution(sender, vec![])),
    ]);
    let mut executor = EthExecutor::new(evm, genesis_storage());
    executor.import(block, &receipts).unwrap();
    // one block per external transaction
    assert_eq!(executor.storage.read_current_block_number(), 2);
}

#[test]
fn compare_with_receipt_checks_each_field_in_order() {
    let sender = addr(3);
    let execution = success_execution(sender, vec![]);
    let matching = ExternalReceipt {
        hash: hash(21),
        status: 1,
        contract_address: None,
        gas_used: Gas::new(21000),
        logs: vec![],
    };
    assert!(execution.compare_with_receipt(&matching).is_ok());

    let wrong_status = ExternalReceipt { status: 0, ..matching.clone() };
    assert_eq!(execution.compare_with_receipt(&wrong_status), Err(ReceiptMismatch::Status));

    let wrong_contract = ExternalReceipt { contract_address: Some(addr(8)), ..matching.clone() };
    assert_eq!(
        execution.compare_with_receipt(&wrong_contract),
        Err(ReceiptMismatch::ContractAddress)
    );

    let wrong_gas = ExternalReceipt { gas_used: Gas::new(1), ..matching.clone() };
    assert_eq!(execution.compare_with_receipt(&wrong_gas), Err(ReceiptMismatch::GasUsed));

    let extra_log = Log { address: sender, topics: vec![], data: Bytes::empty() };
    let wrong_logs = ExternalReceipt { logs: vec![extra_log], ..matching };
    assert_eq!(execution.compare_with_receipt(&wrong_logs), Err(ReceiptMismatch::Logs));
}

#[test]
fn contract_address_reports_first_deployment() {
    let mut execution = success_execution(addr(4), vec![]);
    assert!(execution.contract_address().is_none());
    execution.changes[0].bytecode =
        ExecutionValueChange { original: None, modified: Some(Some(Bytes::new(vec![0x60]))) };
    let deployed = execution.contract_address().unwrap();
    assert!(deployed.eq_addr(&addr(4)));
}

#[test]
fn competing_writes_commit_in_order_and_last_wins() {
    // two transactions from distinct signers write the same slot
    let target = addr(7);
    let idx = slot_index(1);
    let write = |orig: Option<SlotValue>, value: u8| Execution {
        result: ExecutionResult::Success,
        output: Bytes::empty(),
        gas_used: Gas::new(1),
        logs: vec![],
        changes: vec![ExecutionAccountChanges {
            address: target,
            nonce: ExecutionValueChange { original: None, modified: None },
            balance: ExecutionValueChange { original: None, modified: None },
            bytecode: ExecutionValueChange { original: None, modified: None },
            static_slot_indexes: ExecutionValueChange { original: None, modified: None },
            mapping_slot_indexes: ExecutionValueChange { original: None, modified: None },
            slots: vec![SlotChange { index: idx, original: orig, modified: Some(slot_value(value)) }],
        }],
    };
    let evm = ScriptedEvm::new(vec![
        Ok(write(None, 10)),
        Ok(write(Some(slot_value(10)), 20)),
    ]);
    let mut executor = EthExecutor::new(evm, genesis_storage());
    executor.transact(tx_input(1, addr(1))).unwrap();
    executor.transact(tx_input(2, addr(2))).unwrap();

    // both committed, with strictly increasing numbers
    assert_eq!(executor.storage.read_current_block_number(), 2);
    let b1 = executor.storage.read_block(&BlockSelection::Number(1)).unwrap();
    let b2 = executor.storage.read_block(&BlockSelection::Number(2)).unwrap();
    assert!(b1.header.number < b2.header.number);

    // the slot's final value is the one from the higher block
    let slot = executor.storage.read_slot(&target, &slot_index(1), &StoragePointInTime::Present);
    assert!(slot.value.eq_value(&slot_value(20)));
}

#[test]
fn import_of_empty_block_succeeds_without_commits() {
    let evm = ScriptedEvm::new(vec![]);
    let mut executor = EthExecutor::new(evm, genesis_storage());
    let block = ExternalBlock {
        number: 1,
        hash: hash(31),
        timestamp: 1000,
        miner: addr(9),
        transactions: vec![],
    };
    executor.import(block, &vec![]).unwrap();
    assert_eq!(executor.storage.read_current_block_number(), 0);
    assert_eq!(executor.evm.calls, 0);
}

#[test]
fn import_offline_restores_tip_on_failed_commit() {
    let evm = ScriptedEvm::new(vec![]);
    let mut executor = EthExecutor::new(evm, genesis_storage());
    // block number 5 is not the next dense number, so the final commit fails
    let block = ExternalBlock {
        number: 5,
        hash: hash(31),
        timestamp: 1000,
        miner: addr(9),
        transactions: vec![],
    };
    let result = executor.import_offline(block, &vec![]);
    assert!(matches!(result, Err(EthError::Storage(_))));
    // the incremented counter was rolled back: counter and blocks in step
    assert_eq!(executor.storage.read_current_block_number(), 0);
    let latest = executor.storage.read_block(&BlockSelection::Latest).unwrap();
    assert_eq!(latest.header.number, 0);
    // and a well-formed import still succeeds afterwards
    let good = ExternalBlock {
        number: 1,
        hash: hash(32),
        timestamp: 1001,
        miner: addr(9),
        transactions: vec![],
    };
    executor.import_offline(good, &vec![]).unwrap();
    assert_eq!(executor.storage.read_current_block_number(), 1);
}

#[test]
fn mine_empty_block_fails_on_desynced_storage() {
    // without genesis the counter (0) is not one below the block count (0)
    let storage = StratusStorage::new(
        InMemoryTemporaryStorage::new(),
        InMemoryPermanentStorage::new(),
    );
    let evm = ScriptedEvm::new(vec![]);
    let mut executor = EthExecutor::new(evm, storage);
    let result = executor.mine_empty_block();
    assert!(matches!(result, Err(EthError::Storage(_))));
    assert!(executor.storage.read_block(&BlockSelection::Latest).is_none());
}
