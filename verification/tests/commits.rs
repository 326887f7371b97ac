//! Taking over what a transaction changed.

use node_db::account::{AccountInfo, Bytecode, InsertionType};
use node_db::commit::{
    Account, EvmStorageSlot, ACCOUNT_CREATED, ACCOUNT_SELF_DESTRUCTED, ACCOUNT_TOUCHED,
};
use node_db::db::NodeDB;
use node_db::primitives::{Address, B256, U256};
use node_db::steps::{Outcome, Pending, Query, Reply, Step, Task};

fn word(value: u128) -> U256 {
    U256 { hi: 0, lo: value }
}

fn at(value: u128) -> Address {
    Address { hi: 0, lo: value }
}

fn info(balance: u128, code: &[u8]) -> AccountInfo {
    let code = Bytecode { bytes: code.to_vec() };
    AccountInfo::new(word(balance), 1, B256::keccak_empty(), code)
}

fn change(balance: u128, slots: &[(u128, u128)], status: u8) -> Account {
    Account {
        info: info(balance, &[]),
        storage: slots
            .iter()
            .map(|(slot, value)| (word(*slot), EvmStorageSlot { present_value: word(*value) }))
            .collect(),
        status,
    }
}

/// The answer of the database itself, or `None` if it asks the chain.
fn held_slot(db: &mut NodeDB<()>, address: Address, slot: u128) -> Option<U256> {
    match db.start(Task::StorageRef(address, word(slot))) {
        Step::Done(Outcome::Value(value)) => Some(value),
        Step::Done(_) => panic!("a value was expected"),
        Step::Ask(_) => None,
    }
}

/// The data of a custom account.
fn held_info(db: &mut NodeDB<()>, address: Address) -> Option<AccountInfo> {
    match db.start(Task::BasicRef(address)) {
        Step::Done(Outcome::Info(info)) => info,
        Step::Done(_) => panic!("account data was expected"),
        Step::Ask(_) => None,
    }
}

/// Tells whether an account is held: reading a slot of it and keeping it needs no account then.
fn is_held(db: &mut NodeDB<()>, address: Address) -> bool {
    match db.start(Task::Storage(address, word(999))) {
        Step::Ask(pending) => match db.resume(pending, Reply::Storage(word(0))) {
            Step::Done(_) => true,
            Step::Ask(pending) => {
                assert_eq!(pending.query(), Query::BasicAccount(address));
                false
            }
        },
        Step::Done(_) => panic!("the slot is not custom"),
    }
}

#[test]
fn committed_slots_are_answered() {
    let mut db = NodeDB::new(());
    db.commit(vec![
        (at(1), change(5, &[(1, 10), (2, 20)], ACCOUNT_TOUCHED)),
        (at(2), change(6, &[(1, 30)], ACCOUNT_TOUCHED)),
    ]);
    assert_eq!(held_slot(&mut db, at(1), 1), Some(word(10)));
    assert_eq!(held_slot(&mut db, at(1), 2), Some(word(20)));
    assert_eq!(held_slot(&mut db, at(1), 3), None);
    assert_eq!(held_slot(&mut db, at(2), 1), Some(word(30)));
}

#[test]
fn untouched_accounts_are_not_taken_over() {
    let mut db = NodeDB::new(());
    for status in [0, ACCOUNT_CREATED, ACCOUNT_SELF_DESTRUCTED, 0b1_1000] {
        db.commit(vec![(at(1), change(5, &[(1, 10)], status))]);
        assert_eq!(held_slot(&mut db, at(1), 1), None);
        assert!(!is_held(&mut db, at(1)));
    }
}

#[test]
fn other_accounts_are_left_alone() {
    let mut db = NodeDB::new(());
    db.insert_account_info(at(3), info(9, &[]), InsertionType::Custom);
    db.commit(vec![(at(1), change(5, &[(1, 10)], ACCOUNT_TOUCHED))]);
    assert_eq!(held_info(&mut db, at(3)).unwrap().balance, word(9));
    assert_eq!(held_slot(&mut db, at(3), 1), None);
}

#[test]
fn later_commits_overwrite_slots_and_keep_the_rest() {
    let mut db = NodeDB::new(());
    db.commit(vec![(at(1), change(5, &[(1, 10), (2, 20)], ACCOUNT_TOUCHED))]);
    db.commit(vec![(at(1), change(5, &[(1, 11)], ACCOUNT_TOUCHED))]);
    assert_eq!(held_slot(&mut db, at(1), 1), Some(word(11)));
    assert_eq!(held_slot(&mut db, at(1), 2), Some(word(20)));
}

#[test]
fn destroyed_account_loses_data_and_storage() {
    let mut db = NodeDB::new(());
    db.insert_account_info(at(1), info(9, &[1]), InsertionType::Custom);
    db.commit(vec![(at(1), change(5, &[(1, 10)], ACCOUNT_TOUCHED))]);
    let status = ACCOUNT_TOUCHED | ACCOUNT_SELF_DESTRUCTED | ACCOUNT_CREATED;
    db.commit(vec![(at(1), change(7, &[(1, 12), (2, 20)], status))]);
    assert_eq!(held_slot(&mut db, at(1), 1), None);
    assert_eq!(held_slot(&mut db, at(1), 2), None);
    let left = held_info(&mut db, at(1)).unwrap();
    assert_eq!((left.balance, left.nonce), (word(0), 0));
    assert_eq!(left.code_hash, B256::keccak_empty());
    assert_eq!(left.code.unwrap().bytes, Vec::<u8>::new());
}

#[test]
fn destroyed_account_that_was_not_held_is_held() {
    let mut db = NodeDB::new(());
    db.commit(vec![(at(1), change(5, &[], ACCOUNT_TOUCHED | ACCOUNT_SELF_DESTRUCTED))]);
    assert!(is_held(&mut db, at(1)));
}

#[test]
fn created_account_starts_without_its_earlier_storage() {
    let mut db = NodeDB::new(());
    db.commit(vec![(at(1), change(5, &[(1, 10), (2, 20)], ACCOUNT_TOUCHED))]);
    db.commit(vec![(at(1), change(5, &[(2, 21)], ACCOUNT_TOUCHED | ACCOUNT_CREATED))]);
    assert_eq!(held_slot(&mut db, at(1), 1), None);
    assert_eq!(held_slot(&mut db, at(1), 2), Some(word(21)));
}

#[test]
fn custom_account_answers_with_committed_data() {
    let mut db = NodeDB::new(());
    db.insert_account_info(at(1), info(9, &[]), InsertionType::Custom);
    db.commit(vec![(at(1), change(5, &[], ACCOUNT_TOUCHED))]);
    assert_eq!(held_info(&mut db, at(1)).unwrap().balance, word(5));
}

#[test]
fn committed_on_chain_account_is_asked_for_again() {
    let mut db = NodeDB::new(());
    db.commit(vec![(at(1), change(5, &[], ACCOUNT_TOUCHED))]);
    assert!(is_held(&mut db, at(1)));
    assert!(held_info(&mut db, at(1)).is_none());
}

#[test]
fn missing_code_hash_is_filled_in() {
    let mut db = NodeDB::new(());
    db.insert_account_info(at(1), info(9, &[]), InsertionType::Custom);
    let mut account = change(5, &[], ACCOUNT_TOUCHED);
    account.info = info(5, &[0x60, 0x01]);
    db.commit(vec![(at(1), account)]);
    let left = held_info(&mut db, at(1)).unwrap();
    assert_eq!(left.code_hash, Bytecode { bytes: vec![0x60, 0x01] }.hash_slow());
    assert_ne!(left.code_hash, B256::keccak_empty());
}

#[test]
fn given_code_hash_is_kept() {
    let mut db = NodeDB::new(());
    db.insert_account_info(at(1), info(9, &[]), InsertionType::Custom);
    let mut account = change(5, &[], ACCOUNT_TOUCHED);
    account.info.code_hash = B256 { hi: 0, lo: 4 };
    account.info.code = Some(Bytecode { bytes: vec![0x60] });
    db.commit(vec![(at(1), account)]);
    assert_eq!(held_info(&mut db, at(1)).unwrap().code_hash, B256 { hi: 0, lo: 4 });
}

#[test]
fn empty_and_absent_code_keep_the_hash() {
    for code in [Some(Bytecode::default()), None] {
        let mut db = NodeDB::new(());
        db.insert_account_info(at(1), info(9, &[]), InsertionType::Custom);
        let absent = code.is_none();
        let mut account = change(5, &[], ACCOUNT_TOUCHED);
        account.info.code = code;
        db.commit(vec![(at(1), account)]);
        let left = held_info(&mut db, at(1)).unwrap();
        assert_eq!(left.code_hash, B256::keccak_empty());
        assert_eq!(left.code.is_none(), absent);
    }
}

#[test]
fn order_of_changes_does_not_matter() {
    for reversed in [false, true] {
        let mut db = NodeDB::new(());
        let mut changes = vec![
            (at(1), change(5, &[(1, 10)], ACCOUNT_TOUCHED)),
            (at(2), change(6, &[(1, 30)], ACCOUNT_TOUCHED | ACCOUNT_CREATED)),
        ];
        if reversed {
            changes.reverse();
        }
        db.commit(changes);
        assert_eq!(held_slot(&mut db, at(1), 1), Some(word(10)));
        assert_eq!(held_slot(&mut db, at(2), 1), Some(word(30)));
    }
}

#[test]
fn order_does_not_matter_to_accounts_with_clashing_hashes() {
    for reversed in [false, true] {
        let mut db = NodeDB::new(());
        let mut changes = vec![];
        for (address, byte) in [(at(1), 1u8), (at(2), 2u8)] {
            db.insert_account_info(address, info(0, &[]), InsertionType::Custom);
            let mut account = change(5, &[(1, 10)], ACCOUNT_TOUCHED);
            account.info.code_hash = B256 { hi: 0, lo: 4 };
            account.info.code = Some(Bytecode { bytes: vec![byte] });
            changes.push((address, account));
        }
        if reversed {
            changes.reverse();
        }
        db.commit(changes);
        for (address, byte) in [(at(1), 1u8), (at(2), 2u8)] {
            let left = held_info(&mut db, address).unwrap();
            assert_eq!(left.code.unwrap().bytes, vec![byte]);
            assert_eq!(held_slot(&mut db, address, 1), Some(word(10)));
        }
    }
}

#[test]
fn committing_twice_is_committing_once() {
    let mut db = NodeDB::new(());
    for _ in 0..2 {
        db.commit(vec![(at(1), change(5, &[(1, 10)], ACCOUNT_TOUCHED | ACCOUNT_CREATED))]);
        assert_eq!(held_slot(&mut db, at(1), 1), Some(word(10)));
        assert_eq!(held_slot(&mut db, at(1), 2), None);
    }
}

#[test]
fn committing_records_no_read() {
    let mut db = NodeDB::new(());
    db.enable_tracing().unwrap();
    db.commit(vec![(at(1), change(5, &[(1, 10)], ACCOUNT_TOUCHED))]);
    assert_eq!(db.get_accessed_slots(at(1)).unwrap(), vec![]);
}

#[test]
fn committed_slot_is_not_overwritten_by_a_late_answer_for_another() {
    let mut db = NodeDB::new(());
    let pending = match db.start(Task::Storage(at(1), word(2))) {
        Step::Ask(pending) => pending,
        Step::Done(_) => panic!("a question was expected"),
    };
    db.commit(vec![(at(1), change(5, &[(1, 10)], ACCOUNT_TOUCHED))]);
    assert!(matches!(pending, Pending::Value { .. }));
    assert!(matches!(
        db.resume(pending, Reply::Storage(word(22))),
        Step::Done(Outcome::Value(U256 { hi: 0, lo: 22 }))
    ));
    assert_eq!(held_slot(&mut db, at(1), 1), Some(word(10)));
}

/// The work that starting a task leaves pending.
fn asked(db: &mut NodeDB<()>, task: Task) -> Pending<AccountInfo> {
    match db.start(task) {
        Step::Ask(pending) => pending,
        Step::Done(_) => panic!("a question was expected"),
    }
}

#[test]
fn late_answer_does_not_overwrite_a_committed_slot() {
    for task in [Task::Storage(at(1), word(1)), Task::StorageRef(at(1), word(1))] {
        let mut db = NodeDB::new(());
        let pending = asked(&mut db, task);
        db.commit(vec![(at(1), change(5, &[(1, 10)], ACCOUNT_TOUCHED))]);
        assert!(matches!(
            db.resume(pending, Reply::Storage(word(22))),
            Step::Done(Outcome::Value(U256 { hi: 0, lo: 10 }))
        ));
        assert_eq!(held_slot(&mut db, at(1), 1), Some(word(10)));
    }
}

#[test]
fn late_account_does_not_overwrite_a_committed_slot() {
    let mut db = NodeDB::new(());
    let pending = asked(&mut db, Task::Storage(at(1), word(1)));
    let pending = match db.resume(pending, Reply::Storage(word(22))) {
        Step::Ask(pending) => pending,
        Step::Done(_) => panic!("a question was expected"),
    };
    db.commit(vec![(at(1), change(5, &[(1, 10)], ACCOUNT_TOUCHED))]);
    assert!(matches!(
        db.resume(pending, Reply::BasicAccount(None)),
        Step::Done(Outcome::Value(U256 { hi: 0, lo: 10 }))
    ));
    assert_eq!(held_slot(&mut db, at(1), 1), Some(word(10)));
}

#[test]
fn late_code_does_not_overwrite_a_custom_account() {
    // While the code of a read account is awaited.
    for task in [Task::Basic(at(1)), Task::BasicRef(at(1))] {
        let mut db = NodeDB::new(());
        let pending = asked(&mut db, task);
        let pending = match db.resume(pending, Reply::BasicAccount(Some(info(1, &[])))) {
            Step::Ask(pending) => pending,
            Step::Done(_) => panic!("a question was expected"),
        };
        db.insert_account_info(at(1), info(9, &[]), InsertionType::Custom);
        match db.resume(pending, Reply::AccountCode(None)) {
            Step::Done(Outcome::Info(Some(found))) => assert_eq!(found.balance, word(9)),
            _ => panic!("account data was expected"),
        }
        assert_eq!(held_info(&mut db, at(1)).unwrap().balance, word(9));
    }
    // While the account of a fetched slot is awaited: the slot is kept in the custom account.
    let mut db = NodeDB::new(());
    let pending = asked(&mut db, Task::Storage(at(1), word(1)));
    let mut step = db.resume(pending, Reply::Storage(word(22)));
    if let Step::Ask(pending) = step {
        step = db.resume(pending, Reply::BasicAccount(Some(info(1, &[]))));
    }
    db.insert_account_info(at(1), info(9, &[]), InsertionType::Custom);
    if let Step::Ask(pending) = step {
        step = db.resume(pending, Reply::AccountCode(None));
    }
    assert!(matches!(step, Step::Done(Outcome::Value(U256 { hi: 0, lo: 22 }))));
    assert_eq!(held_info(&mut db, at(1)).unwrap().balance, word(9));
}

#[test]
fn late_account_does_not_end_a_read_of_a_custom_one() {
    let mut db = NodeDB::new(());
    let pending = asked(&mut db, Task::Basic(at(1)));
    db.insert_account_info(at(1), info(9, &[]), InsertionType::Custom);
    match db.resume(pending, Reply::BasicAccount(None)) {
        Step::Done(Outcome::Info(Some(found))) => assert_eq!(found.balance, word(9)),
        _ => panic!("account data was expected"),
    }
}

#[test]
fn late_insertion_keeps_the_account_put_in_meanwhile() {
    let mut db = NodeDB::new(());
    let task = Task::InsertStorage {
        address: at(1),
        slot: word(1),
        value: word(11),
        insertion_type: InsertionType::OnChain,
    };
    let pending = asked(&mut db, task);
    db.insert_account_info(at(1), info(9, &[]), InsertionType::Custom);
    db.commit(vec![(at(1), change(8, &[(2, 20)], ACCOUNT_TOUCHED))]);
    let step = db.resume(pending, Reply::BasicAccount(Some(info(1, &[]))));
    assert!(matches!(step, Step::Done(Outcome::Inserted)));
    assert_eq!(held_info(&mut db, at(1)).unwrap().balance, word(8));
    assert_eq!(held_slot(&mut db, at(1), 1), Some(word(11)));
    assert_eq!(held_slot(&mut db, at(1), 2), Some(word(20)));
}
