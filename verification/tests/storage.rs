use stratus::block::Block;
use stratus::block::BlockSelection;
use stratus::block::StoragePointInTime;
use stratus::execution::Execution;
use stratus::execution::ExecutionAccountChanges;
use stratus::execution::ExecutionResult;
use stratus::execution::ExecutionValueChange;
use stratus::execution::SlotChange;
use stratus::permanent::EthStorageError;
use stratus::permanent::PermanentStorage;
use stratus::permanent_inmemory::InMemoryPermanentStorage;
use stratus::primitives::Account;
use stratus::primitives::Address;
use stratus::primitives::Amount;
use stratus::primitives::Bytes;
use stratus::primitives::Gas;
use stratus::primitives::Hash256;
use stratus::primitives::Nonce;
use stratus::primitives::SlotIndex;
use stratus::primitives::SlotValue;
use stratus::stratus_storage::StratusStorage;
use stratus::temporary::InMemoryTemporaryStorage;
use stratus::transaction::TransactionInput;

fn addr(b: u8) -> Address {
    let mut bytes = [0u8; 20];
    bytes[19] = b;
    Address::new(bytes)
}

fn hash(b: u8) -> Hash256 {
    let mut bytes = [0u8; 32];
    bytes[31] = b;
    Hash256::new(bytes)
}

fn slot_index(b: u8) -> SlotIndex {
    let mut bytes = [0u8; 32];
    bytes[31] = b;
    SlotIndex::new(bytes)
}

fn slot_value(b: u8) -> SlotValue {
    let mut bytes = [0u8; 32];
    bytes[31] = b;
    SlotValue::new(bytes)
}

fn tx_input(h: u8, signer: Address) -> TransactionInput {
    TransactionInput {
        hash: hash(h),
        signer,
        from: Some(signer),
        to: None,
        nonce: Nonce::new(0),
        value: Amount::new(0),
        data: Bytes::empty(),
        gas: Gas::new(21000),
    }
}

/// An execution that observed `orig` and wrote `newv` in one slot of `a`,
/// and bumped the account's nonce and balance.
fn write_execution(a: Address, idx: SlotIndex, orig: Option<SlotValue>, newv: SlotValue) -> Execution {
    Execution {
        result: ExecutionResult::Success,
        output: Bytes::empty(),
        gas_used: Gas::new(21000),
        logs: vec![],
        changes: vec![ExecutionAccountChanges {
            address: a,
            nonce: ExecutionValueChange { original: Some(Nonce::new(0)), modified: Some(Nonce::new(1)) },
            balance: ExecutionValueChange { original: None, modified: Some(Amount::new(100)) },
            bytecode: ExecutionValueChange { original: None, modified: None },
            static_slot_indexes: ExecutionValueChange { original: None, modified: None },
            mapping_slot_indexes: ExecutionValueChange { original: None, modified: None },
            slots: vec![SlotChange { index: idx, original: orig, modified: Some(newv) }],
        }],
    }
}

fn genesis_storage() -> StratusStorage<InMemoryPermanentStorage> {
    let mut storage = StratusStorage::new(
        InMemoryTemporaryStorage::new(),
        InMemoryPermanentStorage::new(),
    );
    storage.enable_genesis(Block::new(0)).unwrap();
    storage
}

#[test]
fn zero_address_is_detected() {
    assert!(Address::zero().check_zero());
    assert!(!addr(1).check_zero());
    assert!(addr(7).eq_addr(&addr(7)));
    assert!(!addr(7).eq_addr(&addr(8)));
}

#[test]
fn empty_account_has_zeroed_state() {
    let account = Account::new_empty(addr(5));
    assert!(account.address.eq_addr(&addr(5)));
    assert_eq!(account.nonce.value, 0);
    assert_eq!(account.balance.value, 0);
    assert!(account.bytecode.is_none());
}

#[test]
fn temporary_overlay_merges_changes() {
    let mut temp = InMemoryTemporaryStorage::new();
    let a = addr(1);
    let idx = slot_index(9);
    temp.save_account_changes(&write_execution(a, idx, None, slot_value(42)));

    let account = temp.read_account(&a).expect("account should be in the overlay");
    assert_eq!(account.nonce.value, 1);
    assert_eq!(account.balance.value, 100);

    let slot = temp.read_slot(&a, &idx).expect("slot should be in the overlay");
    assert!(slot.value.eq_value(&slot_value(42)));

    assert!(temp.read_account(&addr(2)).is_none());
    assert!(temp.read_slot(&a, &slot_index(8)).is_none());
}

#[test]
fn temporary_overlay_last_writer_wins() {
    let mut temp = InMemoryTemporaryStorage::new();
    let a = addr(1);
    let idx = slot_index(9);
    temp.save_account_changes(&write_execution(a, idx, None, slot_value(42)));
    temp.save_account_changes(&write_execution(a, idx, Some(slot_value(42)), slot_value(43)));
    let slot = temp.read_slot(&a, &idx).unwrap();
    assert!(slot.value.eq_value(&slot_value(43)));
}

#[test]
fn conflict_reported_on_stale_original() {
    let mut temp = InMemoryTemporaryStorage::new();
    let a = addr(1);
    let idx = slot_index(9);
    temp.save_account_changes(&write_execution(a, idx, None, slot_value(42)));

    // an execution whose recorded originals match the overlay: no conflict
    let honest = Execution {
        result: ExecutionResult::Success,
        output: Bytes::empty(),
        gas_used: Gas::new(1),
        logs: vec![],
        changes: vec![ExecutionAccountChanges {
            address: a,
            nonce: ExecutionValueChange { original: Some(Nonce::new(1)), modified: None },
            balance: ExecutionValueChange { original: Some(Amount::new(100)), modified: None },
            bytecode: ExecutionValueChange { original: None, modified: None },
            static_slot_indexes: ExecutionValueChange { original: None, modified: None },
            mapping_slot_indexes: ExecutionValueChange { original: None, modified: None },
            slots: vec![SlotChange { index: idx, original: Some(slot_value(42)), modified: None }],
        }],
    };
    assert!(temp.check_conflicts(&honest).is_none());

    // stale nonce original
    let stale = Execution {
        changes: vec![ExecutionAccountChanges {
            address: a,
            nonce: ExecutionValueChange { original: Some(Nonce::new(7)), modified: None },
            balance: ExecutionValueChange { original: None, modified: None },
            bytecode: ExecutionValueChange { original: None, modified: None },
            static_slot_indexes: ExecutionValueChange { original: None, modified: None },
            mapping_slot_indexes: ExecutionValueChange { original: None, modified: None },
            slots: vec![],
        }],
        ..honest
    };
    let conflicts = temp.check_conflicts(&stale).expect("stale original must conflict");
    assert!(conflicts.conflicts.len() >= 1);

    // stale slot original
    let stale_slot = Execution {
        result: ExecutionResult::Success,
        output: Bytes::empty(),
        gas_used: Gas::new(1),
        logs: vec![],
        changes: vec![ExecutionAccountChanges {
            address: a,
            nonce: ExecutionValueChange { original: None, modified: None },
            balance: ExecutionValueChange { original: None, modified: None },
            bytecode: ExecutionValueChange { original: None, modified: None },
            static_slot_indexes: ExecutionValueChange { original: None, modified: None },
            mapping_slot_indexes: ExecutionValueChange { original: None, modified: None },
            slots: vec![SlotChange { index: idx, original: Some(slot_value(41)), modified: None }],
        }],
    };
    assert!(temp.check_conflicts(&stale_slot).is_some());
}

#[test]
fn reset_empties_the_overlay_and_is_idempotent() {
    let mut temp = InMemoryTemporaryStorage::new();
    let a = addr(1);
    temp.set_active_block_number(3);
    temp.save_account_changes(&write_execution(a, slot_index(9), None, slot_value(42)));
    temp.reset();
    assert!(temp.read_account(&a).is_none());
    assert_eq!(temp.read_active_block_number(), None);
    temp.reset();
    assert!(temp.read_account(&a).is_none());
    assert_eq!(temp.read_active_block_number(), None);
}

#[test]
fn save_block_requires_dense_numbers() {
    let mut perm = InMemoryPermanentStorage::new();
    assert!(perm.save_block(Block::new(0)).is_ok());
    assert!(matches!(perm.save_block(Block::new(5)), Err(EthStorageError::Unexpected)));
    assert!(perm.save_block(Block::new(1)).is_ok());
    assert_eq!(perm.read_mined_block_number(), 1);
}

#[test]
fn block_number_counts_committed_blocks() {
    let mut storage = genesis_storage();
    assert_eq!(storage.read_current_block_number(), 0);
    storage.commit(Block::new(1)).unwrap();
    storage.commit(Block::new(2)).unwrap();
    // two blocks committed after genesis: the current number is two
    assert_eq!(storage.read_current_block_number(), 2);
}

#[test]
fn save_accounts_only_before_blocks() {
    let mut perm = InMemoryPermanentStorage::new();
    let rich = Account {
        address: addr(1),
        nonce: Nonce::new(0),
        balance: Amount::new(1000),
        bytecode: None,
        code_hash: None,
        static_slot_indexes: None,
        mapping_slot_indexes: None,
    };
    assert!(perm.save_accounts(vec![rich]).is_ok());
    perm.save_block(Block::new(0)).unwrap();
    let late = Account::new_empty(addr(2));
    assert!(matches!(perm.save_accounts(vec![late]), Err(EthStorageError::Unexpected)));

    let read = perm.read_account(&addr(1), &StoragePointInTime::Present).unwrap();
    assert_eq!(read.balance.value, 1000);
}

#[test]
fn point_in_time_reads_see_committed_changes() {
    let mut storage = genesis_storage();
    let a = addr(1);
    let idx = slot_index(9);

    // block 1 writes 42; block 2 writes 43
    let mut block1 = Block::new(1);
    block1.transactions.push(stratus::transaction::TransactionMined::new(
        tx_input(1, a),
        write_execution(a, idx, None, slot_value(42)),
        0,
        1,
        hash(1),
    ));
    storage.commit(block1).unwrap();

    let mut block2 = Block::new(2);
    block2.transactions.push(stratus::transaction::TransactionMined::new(
        tx_input(2, a),
        write_execution(a, idx, Some(slot_value(42)), slot_value(43)),
        0,
        2,
        hash(2),
    ));
    storage.commit(block2).unwrap();

    // the committed change (orig 42 -> new 43) of block 2: reading at its
    // own height yields the new value, one block earlier the original
    let now = storage.read_slot(&a, &idx, &StoragePointInTime::Present);
    assert!(now.value.eq_value(&slot_value(43)));
    let at2 = storage.read_slot(&a, &idx, &StoragePointInTime::Past(2));
    assert!(at2.value.eq_value(&slot_value(43)));
    let at1 = storage.read_slot(&a, &idx, &StoragePointInTime::Past(1));
    assert!(at1.value.eq_value(&slot_value(42)));
    let at0 = storage.read_slot(&a, &idx, &StoragePointInTime::Past(0));
    assert!(at0.value.eq_value(&SlotValue::zero()));

    // the account state follows the same snapshots
    let acct1 = storage.read_account(&a, &StoragePointInTime::Past(1));
    assert_eq!(acct1.nonce.value, 1);
    let acct0 = storage.read_account(&a, &StoragePointInTime::Past(0));
    assert_eq!(acct0.nonce.value, 0);
}

#[test]
fn point_in_time_is_monotonic_without_writes() {
    let mut storage = genesis_storage();
    let a = addr(1);
    let idx = slot_index(9);
    let mut block1 = Block::new(1);
    block1.transactions.push(stratus::transaction::TransactionMined::new(
        tx_input(1, a),
        write_execution(a, idx, None, slot_value(42)),
        0,
        1,
        hash(1),
    ));
    storage.commit(block1).unwrap();
    // blocks 2 and 3 write nothing
    storage.commit(Block::new(2)).unwrap();
    storage.commit(Block::new(3)).unwrap();
    let at1 = storage.read_slot(&a, &idx, &StoragePointInTime::Past(1));
    let at3 = storage.read_slot(&a, &idx, &StoragePointInTime::Past(3));
    assert!(at1.value.eq_value(&at3.value));
    assert!(at1.value.eq_value(&slot_value(42)));
}

#[test]
fn read_block_by_selection() {
    let mut storage = genesis_storage();
    let mut block1 = Block::new(1);
    block1.header.hash = hash(11);
    storage.commit(block1).unwrap();

    let latest = storage.read_block(&BlockSelection::Latest).unwrap();
    assert_eq!(latest.header.number, 1);
    let earliest = storage.read_block(&BlockSelection::Earliest).unwrap();
    assert_eq!(earliest.header.number, 0);
    let by_number = storage.read_block(&BlockSelection::Number(1)).unwrap();
    assert_eq!(by_number.header.number, 1);
    assert!(storage.read_block(&BlockSelection::Number(9)).is_none());
    let by_hash = storage.read_block(&BlockSelection::Hash(hash(11))).unwrap();
    assert_eq!(by_hash.header.number, 1);
    assert!(storage.read_block(&BlockSelection::Hash(hash(99))).is_none());
}

#[test]
fn read_mined_transaction_finds_committed_tx() {
    let mut storage = genesis_storage();
    let a = addr(1);
    let mut block1 = Block::new(1);
    block1.transactions.push(stratus::transaction::TransactionMined::new(
        tx_input(7, a),
        write_execution(a, slot_index(9), None, slot_value(1)),
        0,
        1,
        hash(1),
    ));
    storage.commit(block1).unwrap();
    let mined = storage.read_mined_transaction(&hash(7)).unwrap();
    assert!(mined.input.hash.eq_hash(&hash(7)));
    assert!(storage.read_mined_transaction(&hash(8)).is_none());
}

#[test]
fn translate_selection_to_point_in_time() {
    let mut storage = genesis_storage();
    let mut block1 = Block::new(1);
    block1.header.hash = hash(11);
    storage.commit(block1).unwrap();

    assert_eq!(
        storage.translate_to_point_in_time(&BlockSelection::Latest).unwrap(),
        StoragePointInTime::Present
    );
    assert_eq!(
        storage.translate_to_point_in_time(&BlockSelection::Number(1)).unwrap(),
        StoragePointInTime::Past(1)
    );
    // a number above the tip is clamped to the tip
    assert_eq!(
        storage.translate_to_point_in_time(&BlockSelection::Number(9)).unwrap(),
        StoragePointInTime::Past(1)
    );
    assert_eq!(
        storage.translate_to_point_in_time(&BlockSelection::Earliest).unwrap(),
        StoragePointInTime::Past(0)
    );
    assert_eq!(
        storage.translate_to_point_in_time(&BlockSelection::Hash(hash(11))).unwrap(),
        StoragePointInTime::Past(1)
    );
    assert!(storage.translate_to_point_in_time(&BlockSelection::Hash(hash(99))).is_err());
}

#[test]
fn reset_perm_truncates_blocks() {
    let mut storage = genesis_storage();
    storage.commit(Block::new(1)).unwrap();
    storage.commit(Block::new(2)).unwrap();
    storage.reset_perm(1);
    assert_eq!(storage.read_current_block_number(), 1);
    let latest = storage.read_block(&BlockSelection::Latest).unwrap();
    assert_eq!(latest.header.number, 1);
}

#[test]
fn overlay_shadows_permanent_reads() {
    let mut storage = genesis_storage();
    let a = addr(1);
    let idx = slot_index(9);
    let mut block1 = Block::new(1);
    block1.transactions.push(stratus::transaction::TransactionMined::new(
        tx_input(1, a),
        write_execution(a, idx, None, slot_value(42)),
        0,
        1,
        hash(1),
    ));
    storage.commit(block1).unwrap();

    // seed the overlay with a pending change: reads see it first
    storage.save_account_changes(5, &write_execution(a, idx, Some(slot_value(42)), slot_value(99)));
    let slot = storage.read_slot(&a, &idx, &StoragePointInTime::Present);
    assert!(slot.value.eq_value(&slot_value(99)));

    // after a flush the permanent value shows again
    storage.reset_temp();
    let slot = storage.read_slot(&a, &idx, &StoragePointInTime::Present);
    assert!(slot.value.eq_value(&slot_value(42)));
}

#[test]
fn missing_state_reads_default_values() {
    let storage = genesis_storage();
    let account = storage.read_account(&addr(9), &StoragePointInTime::Present);
    assert!(account.address.eq_addr(&addr(9)));
    assert_eq!(account.nonce.value, 0);
    let slot = storage.read_slot(&addr(9), &slot_index(1), &StoragePointInTime::Present);
    assert!(slot.index.eq_index(&slot_index(1)));
    assert!(slot.value.eq_value(&SlotValue::zero()));
}

#[test]
fn pending_executions_are_kept_in_order_and_trimmed() {
    let mut temp = InMemoryTemporaryStorage::new();
    let a = addr(1);
    for h in 1..=4u8 {
        temp.save_execution(stratus::transaction::TransactionExecution {
            input: tx_input(h, a),
            execution: write_execution(a, slot_index(1), None, slot_value(h)),
        });
    }
    let executions = temp.read_executions();
    assert_eq!(executions.len(), 4);
    assert!(executions[0].input.hash.eq_hash(&hash(1)));

    // trimming removes exactly the executions before the index
    temp.remove_executions_before(2);
    let executions = temp.read_executions();
    assert_eq!(executions.len(), 2);
    assert!(executions[0].input.hash.eq_hash(&hash(3)));
    assert!(executions[1].input.hash.eq_hash(&hash(4)));
}

#[test]
fn header_serialization_round_trips() {
    let mut header = stratus::block::BlockHeader::new(7);
    header.hash = hash(1);
    header.parent_hash = hash(2);
    header.transactions_root = hash(3);
    header.receipts_root = hash(4);
    header.state_root = hash(5);
    header.logs_bloom = Bytes::new(vec![0xaa, 0xbb, 0xcc]);
    header.gas_used = Gas::new(42);
    header.timestamp = 1234567890;
    header.miner = addr(9);

    let encoded = stratus::codec::serialize_header(&header);
    let decoded = stratus::codec::deserialize_header(&encoded).expect("round trip must decode");
    assert_eq!(decoded.number, 7);
    assert!(decoded.hash.eq_hash(&hash(1)));
    assert!(decoded.parent_hash.eq_hash(&hash(2)));
    assert!(decoded.transactions_root.eq_hash(&hash(3)));
    assert!(decoded.receipts_root.eq_hash(&hash(4)));
    assert!(decoded.state_root.eq_hash(&hash(5)));
    assert!(decoded.logs_bloom.eq_bytes(&Bytes::new(vec![0xaa, 0xbb, 0xcc])));
    assert_eq!(decoded.gas_used.value, 42);
    assert_eq!(decoded.timestamp, 1234567890);
    assert!(decoded.miner.eq_addr(&addr(9)));

    // a truncated buffer is rejected
    let mut truncated = encoded.clone();
    truncated.pop();
    assert!(stratus::codec::deserialize_header(&truncated).is_none());
}

#[test]
fn read_logs_filters_by_range_and_address() {
    let mut storage = genesis_storage();
    let a = addr(1);
    let b = addr(2);
    let log_of = |who: Address, tag: u8| stratus::execution::Log {
        address: who,
        topics: vec![hash(tag)],
        data: Bytes::empty(),
    };
    let exec_with_logs = |who: Address, tags: Vec<u8>| Execution {
        result: ExecutionResult::Success,
        output: Bytes::empty(),
        gas_used: Gas::new(1),
        logs: tags.into_iter().map(|t| log_of(who, t)).collect(),
        changes: vec![],
    };

    let mut block1 = Block::new(1);
    block1.transactions.push(stratus::transaction::TransactionMined::new(
        tx_input(1, a),
        exec_with_logs(a, vec![1, 2]),
        0,
        1,
        hash(1),
    ));
    storage.commit(block1).unwrap();

    let mut block2 = Block::new(2);
    block2.transactions.push(stratus::transaction::TransactionMined::new(
        tx_input(2, b),
        exec_with_logs(b, vec![3]),
        0,
        2,
        hash(2),
    ));
    storage.commit(block2).unwrap();

    let all = storage.read_logs(&stratus::transaction::LogFilter {
        from_block: 0,
        to_block: None,
        address: None,
    });
    assert_eq!(all.len(), 3);
    assert!(all[0].log.topics[0].eq_hash(&hash(1)));
    assert!(all[1].log.topics[0].eq_hash(&hash(2)));
    assert!(all[2].log.topics[0].eq_hash(&hash(3)));

    let only_block_1 = storage.read_logs(&stratus::transaction::LogFilter {
        from_block: 1,
        to_block: Some(1),
        address: None,
    });
    assert_eq!(only_block_1.len(), 2);

    let only_b = storage.read_logs(&stratus::transaction::LogFilter {
        from_block: 0,
        to_block: None,
        address: Some(b),
    });
    assert_eq!(only_b.len(), 1);
    assert!(only_b[0].log.address.eq_addr(&b));
}

#[test]
fn index_set_deltas_overwrite_on_merge() {
    let mut temp = InMemoryTemporaryStorage::new();
    let a = addr(1);
    let with_indexes = Execution {
        result: ExecutionResult::Success,
        output: Bytes::empty(),
        gas_used: Gas::new(1),
        logs: vec![],
        changes: vec![ExecutionAccountChanges {
            address: a,
            nonce: ExecutionValueChange { original: None, modified: None },
            balance: ExecutionValueChange { original: None, modified: None },
            bytecode: ExecutionValueChange { original: None, modified: None },
            static_slot_indexes: ExecutionValueChange {
                original: None,
                modified: Some(vec![slot_index(1), slot_index(2)]),
            },
            mapping_slot_indexes: ExecutionValueChange { original: None, modified: None },
            slots: vec![],
        }],
    };
    temp.save_account_changes(&with_indexes);
    let account = temp.read_account(&a).unwrap();
    let indexes = account.static_slot_indexes.unwrap();
    assert_eq!(indexes.len(), 2);
    assert!(indexes[0].eq_index(&slot_index(1)));
    assert!(indexes[1].eq_index(&slot_index(2)));
    // untouched fields keep their defaults
    assert!(account.mapping_slot_indexes.is_none());
    assert!(account.code_hash.is_none());
}

#[test]
fn read_slots_returns_found_entries_in_query_order() {
    let mut storage = genesis_storage();
    let a = addr(1);
    let mut block1 = Block::new(1);
    block1.transactions.push(stratus::transaction::TransactionMined::new(
        tx_input(1, a),
        write_execution(a, slot_index(9), None, slot_value(42)),
        0,
        1,
        hash(1),
    ));
    storage.commit(block1).unwrap();

    let queried = vec![slot_index(8), slot_index(9)];
    let found = storage.read_slots(&a, &queried, &StoragePointInTime::Present);
    // only the written slot is visible; index 8 was never written
    assert_eq!(found.len(), 1);
    assert!(found[0].index.eq_index(&slot_index(9)));
    assert!(found[0].value.eq_value(&slot_value(42)));

    let before = storage.read_slots(&a, &queried, &StoragePointInTime::Past(0));
    assert!(before.is_empty());
}
