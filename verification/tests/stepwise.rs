//! Tasks in steps, for a chain that answers later.

use node_db::account::{AccountInfo, Bytecode, InsertionType};
use node_db::bridge::{may_wait, RuntimeFlavor};
use node_db::db::NodeDB;
use node_db::primitives::{Address, B256, U256};
use node_db::provider::{account_info, block_hash, newer_block, storage_value, StoredAccount};
use node_db::search::SlotSearch;
use node_db::steps::{Outcome, Pending, Query, Reply, Step, Task};

fn word(value: u128) -> U256 {
    U256 { hi: 0, lo: value }
}

fn at(value: u128) -> Address {
    Address { hi: 0, lo: value }
}

fn code(bytes: &[u8]) -> Bytecode {
    Bytecode { bytes: bytes.to_vec() }
}

/// Account data as a chain gives it, apart from the code.
fn bare(balance: u128, nonce: u64) -> AccountInfo {
    AccountInfo { balance: word(balance), nonce, code_hash: B256 { hi: 0, lo: 77 }, code: None }
}

fn ask(step: Step<AccountInfo>) -> Pending<AccountInfo> {
    match step {
        Step::Ask(pending) => pending,
        Step::Done(_) => panic!("a question was expected"),
    }
}

fn done(step: Step<AccountInfo>) -> Outcome<AccountInfo> {
    match step {
        Step::Done(outcome) => outcome,
        Step::Ask(pending) => panic!("no question was expected: {:?}", pending.query()),
    }
}

fn info_of(step: Step<AccountInfo>) -> Option<AccountInfo> {
    match done(step) {
        Outcome::Info(info) => info,
        _ => panic!("account data was expected"),
    }
}

fn value_of(step: Step<AccountInfo>) -> U256 {
    match done(step) {
        Outcome::Value(value) => value,
        _ => panic!("a value was expected"),
    }
}

#[test]
fn account_is_read_with_two_questions() {
    let mut db = NodeDB::new(());
    for task in [Task::Basic(at(1)), Task::BasicRef(at(1))] {
        let pending = ask(db.start(task));
        assert_eq!(pending.query(), Query::BasicAccount(at(1)));
        let pending = ask(db.resume(pending, Reply::BasicAccount(Some(bare(10, 2)))));
        assert_eq!(pending.query(), Query::AccountCode(at(1)));
        let found = info_of(db.resume(pending, Reply::AccountCode(Some(code(&[1, 2]))))).unwrap();
        assert_eq!((found.balance, found.nonce), (word(10), 2));
        assert_eq!(found.code_hash, code(&[1, 2]).hash_slow());
        assert_eq!(found.code.unwrap().bytes, vec![1, 2]);
    }
}

#[test]
fn missing_account_ends_after_one_question() {
    let mut db = NodeDB::new(());
    let pending = ask(db.start(Task::Basic(at(1))));
    assert!(info_of(db.resume(pending, Reply::BasicAccount(None))).is_none());
}

#[test]
fn code_that_is_absent_is_empty() {
    let mut db = NodeDB::new(());
    let pending = ask(db.start(Task::Basic(at(1))));
    let pending = ask(db.resume(pending, Reply::BasicAccount(Some(bare(10, 2)))));
    let found = info_of(db.resume(pending, Reply::AccountCode(None))).unwrap();
    assert_eq!(found.code_hash, B256::keccak_empty());
    assert_eq!(found.code.unwrap().bytes, Vec::<u8>::new());
}

#[test]
fn custom_account_needs_no_question() {
    let mut db = NodeDB::new(());
    db.insert_account_info(at(1), bare(4, 3), InsertionType::Custom);
    for task in [Task::Basic(at(1)), Task::BasicRef(at(1))] {
        assert_eq!(info_of(db.start(task)).unwrap().balance, word(4));
    }
}

#[test]
fn slot_of_an_unheld_account_takes_three_questions() {
    let mut db = NodeDB::new(());
    db.enable_tracing().unwrap();
    let pending = ask(db.start(Task::Storage(at(1), word(7))));
    assert_eq!(pending.query(), Query::Storage(at(1), word(7)));
    let pending = ask(db.resume(pending, Reply::Storage(word(70))));
    assert_eq!(pending.query(), Query::BasicAccount(at(1)));
    let pending = ask(db.resume(pending, Reply::BasicAccount(Some(bare(10, 2)))));
    assert_eq!(pending.query(), Query::AccountCode(at(1)));
    assert_eq!(value_of(db.resume(pending, Reply::AccountCode(None))), word(70));
    assert_eq!(db.get_accessed_slots(at(1)).unwrap(), vec![word(7)]);
    // The account is held now, and the slot is still that of the chain.
    let pending = ask(db.start(Task::Storage(at(1), word(7))));
    assert_eq!(value_of(db.resume(pending, Reply::Storage(word(71)))), word(71));
}

#[test]
fn slot_without_an_account_is_told() {
    let mut db = NodeDB::new(());
    let pending = ask(db.start(Task::Storage(at(1), word(7))));
    let pending = ask(db.resume(pending, Reply::Storage(word(0))));
    let outcome = done(db.resume(pending, Reply::BasicAccount(None)));
    assert!(matches!(outcome, Outcome::NoAccount));
}

#[test]
fn unkept_slot_takes_one_question() {
    let mut db = NodeDB::new(());
    db.enable_tracing().unwrap();
    let pending = ask(db.start(Task::StorageRef(at(1), word(7))));
    assert_eq!(pending.query(), Query::Storage(at(1), word(7)));
    assert_eq!(value_of(db.resume(pending, Reply::Storage(word(70)))), word(70));
    assert_eq!(db.get_accessed_slots(at(1)).unwrap(), vec![word(7)]);
    // Nothing is held: putting a slot in still asks for the account.
    let task = Task::InsertStorage {
        address: at(1),
        slot: word(7),
        value: word(1),
        insertion_type: InsertionType::OnChain,
    };
    assert_eq!(ask(db.start(task)).query(), Query::BasicAccount(at(1)));
}

#[test]
fn inserted_slot_needs_no_question() {
    let mut db = NodeDB::new(());
    let task = Task::InsertStorage {
        address: at(1),
        slot: word(7),
        value: word(71),
        insertion_type: InsertionType::OnChain,
    };
    let pending = ask(db.start(task));
    assert_eq!(pending.query(), Query::BasicAccount(at(1)));
    let outcome = done(db.resume(pending, Reply::BasicAccount(Some(bare(1, 1)))));
    assert!(matches!(outcome, Outcome::Inserted));
    assert_eq!(value_of(db.start(Task::Storage(at(1), word(7)))), word(71));
    assert_eq!(value_of(db.start(Task::StorageRef(at(1), word(7)))), word(71));
    // The account is held, so another slot is put in at once.
    let task = Task::InsertStorage {
        address: at(1),
        slot: word(8),
        value: word(81),
        insertion_type: InsertionType::Custom,
    };
    assert!(matches!(done(db.start(task)), Outcome::Inserted));
    // An on-chain account stays one.
    assert_eq!(ask(db.start(Task::Basic(at(1)))).query(), Query::BasicAccount(at(1)));
}

#[test]
fn insertion_into_a_missing_account_is_told() {
    let mut db = NodeDB::new(());
    let task = Task::InsertStorage {
        address: at(1),
        slot: word(7),
        value: word(71),
        insertion_type: InsertionType::OnChain,
    };
    let pending = ask(db.start(task));
    let outcome = done(db.resume(pending, Reply::BasicAccount(None)));
    assert!(matches!(outcome, Outcome::NoAccount));
    assert_eq!(ask(db.start(task)).query(), Query::BasicAccount(at(1)));
}

#[test]
fn answer_to_another_question_is_not_taken() {
    let mut db = NodeDB::new(());
    let pending = ask(db.start(Task::Basic(at(1))));
    let pending = ask(db.resume(pending, Reply::Storage(word(1))));
    assert_eq!(pending.query(), Query::BasicAccount(at(1)));
    assert!(info_of(db.resume(pending, Reply::BasicAccount(None))).is_none());
}

#[test]
fn reads_keep_custom_data() {
    let mut db = NodeDB::new(());
    db.insert_account_info(at(1), bare(4, 3), InsertionType::Custom);
    let pending = ask(db.start(Task::Storage(at(1), word(7))));
    assert_eq!(value_of(db.resume(pending, Reply::Storage(word(70)))), word(70));
    assert_eq!(info_of(db.start(Task::Basic(at(1)))).unwrap().balance, word(4));
}

#[test]
fn tasks_leave_other_accounts_alone() {
    let mut db = NodeDB::new(());
    db.insert_account_info(at(3), bare(9, 0), InsertionType::Custom);
    let pending = ask(db.start(Task::Basic(at(1))));
    let pending = ask(db.resume(pending, Reply::BasicAccount(Some(bare(10, 2)))));
    assert!(info_of(db.resume(pending, Reply::AccountCode(None))).is_some());
    assert_eq!(info_of(db.start(Task::Basic(at(3)))).unwrap().balance, word(9));
    // Neither is an account that was never met put in.
    let pending = ask(db.start(Task::Storage(at(4), word(1))));
    assert!(matches!(db.resume(pending, Reply::Storage(word(0))), Step::Ask(_)));
}

#[test]
fn search_stops_at_the_first_slot_that_holds_the_value() {
    let mut search = SlotSearch::new(vec![word(1), word(2), word(3)], word(50));
    assert_eq!(search.current(), Some(word(1)));
    assert_eq!(search.check(word(49)), None);
    assert_eq!(search.current(), Some(word(2)));
    assert_eq!(search.check(word(50)), Some(word(2)));
    assert_eq!(search.current(), Some(word(2)));
}

#[test]
fn search_goes_through_the_slots_read() {
    let mut db = NodeDB::new(());
    db.enable_tracing().unwrap();
    for slot in [4, 5, 6] {
        let pending = ask(db.start(Task::StorageRef(at(1), word(slot))));
        assert_eq!(value_of(db.resume(pending, Reply::Storage(word(slot * 10)))), word(slot * 10));
    }
    let mut search = db.search_accessed(at(1), word(50));
    let mut found = None;
    while let Some(slot) = search.current() {
        // Reads of the search itself are not recorded.
        let pending = ask(db.start(Task::StorageRef(at(2), slot)));
        let value = value_of(db.resume(pending, Reply::Storage(word(slot.lo * 10))));
        found = search.check(value);
        if found.is_some() {
            break;
        }
    }
    assert_eq!(found, Some(word(5)));
    assert_eq!(db.get_accessed_slots(at(2)).unwrap(), vec![]);
    assert_eq!(db.search_accessed(at(9), word(0)).current(), None);
}

#[test]
fn search_without_a_match_ends() {
    let mut search = SlotSearch::new(vec![word(1)], word(50));
    assert_eq!(search.check(word(0)), None);
    assert_eq!(search.current(), None);
    assert_eq!(search.check(word(50)), None);
    assert_eq!(SlotSearch::new(vec![], word(50)).current(), None);
}

#[test]
fn view_is_renewed_only_for_newer_blocks() {
    assert_eq!(newer_block::<String>(Ok(11), 10), Ok(Some(11)));
    assert_eq!(newer_block::<String>(Ok(10), 10), Ok(None));
    assert_eq!(newer_block::<String>(Ok(9), 10), Ok(None));
    assert_eq!(newer_block::<String>(Ok(0), u64::MAX), Ok(None));
}

#[test]
fn unknown_last_block_is_an_error() {
    assert_eq!(newer_block(Err("no answer"), 10), Err("no answer"));
    assert_eq!(newer_block(Err("no answer"), 0), Err("no answer"));
}

#[test]
fn stored_account_is_put_together() {
    let stored = StoredAccount { balance: word(6), nonce: 7 };
    let found = account_info(Some(stored), Some(code(&[0xfe]))).unwrap();
    assert_eq!((found.balance, found.nonce), (word(6), 7));
    assert_eq!(found.code_hash, code(&[0xfe]).hash_slow());
    assert_eq!(found.code.unwrap().bytes, vec![0xfe]);
    let found = account_info(Some(stored), None).unwrap();
    assert_eq!(found.code_hash, B256::keccak_empty());
    assert_eq!(found.code.unwrap().bytes, Vec::<u8>::new());
    assert!(account_info(None, Some(code(&[0xfe]))).is_none());
}

#[test]
fn stored_account_is_unchanged_by_its_own_code() {
    let stored = StoredAccount { balance: word(6), nonce: 7 };
    let found = account_info(Some(stored), Some(code(&[1, 2, 3]))).unwrap();
    let hash = found.code_hash;
    let again = found.with_fetched_code(Some(code(&[1, 2, 3])));
    assert_eq!(again.code_hash, hash);
    assert_eq!((again.balance, again.nonce), (word(6), 7));
    assert_eq!(again.code.unwrap().bytes, vec![1, 2, 3]);
}

#[test]
fn absent_slot_is_zero() {
    assert_eq!(storage_value(None), word(0));
    assert_eq!(storage_value(Some(word(4))), word(4));
}

#[test]
fn missing_block_has_no_hash() {
    let known = B256 { hi: 1, lo: 2 };
    assert_eq!(block_hash(Some(known)).ok(), Some(known));
    assert_eq!(block_hash(Some(B256::keccak_empty())).ok(), Some(B256::keccak_empty()));
    let error = block_hash(None).unwrap_err();
    assert_eq!(error.0, "No block with this number exists");
    assert_eq!(error.to_string(), "NodeDBError: No block with this number exists");
}

#[test]
fn only_a_runtime_of_several_threads_can_be_waited_on() {
    assert!(may_wait(Some(RuntimeFlavor::MultiThread)));
    assert!(!may_wait(Some(RuntimeFlavor::CurrentThread)));
    assert!(!may_wait(None));
}
