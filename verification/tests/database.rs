//! The database over a backend that answers at once.

use std::collections::HashMap;
use std::sync::atomic::{AtomicUsize, Ordering};
use std::sync::{Mutex, MutexGuard};

use node_db::account::{AccountInfo, AccountState, Bytecode, InsertionType, NodeDBAccount, NodeDBSlot};
use node_db::backend::NodeDBBackendSync;
use node_db::db::NodeDB;
use node_db::error::NodeDBError;
use node_db::primitives::{Address, B256, U256};
use node_db::sync_db::NodeDBStorageSync;

/// Which calls of the chain fail.
#[derive(Debug, PartialEq)]
enum Fault {
    Account,
    Code,
    Storage,
    Block,
    Own(String),
}

impl From<NodeDBError> for Fault {
    fn from(error: NodeDBError) -> Self {
        Fault::Own(error.0)
    }
}

/// What the chain says at the moment.
#[derive(Default)]
struct State {
    accounts: HashMap<Address, (u128, u64)>,
    code: HashMap<Address, Vec<u8>>,
    slots: HashMap<(Address, U256), U256>,
    blocks: HashMap<u64, B256>,
    failing: Vec<Fault>,
}

/// A chain that can move on, and counts the questions put to it.
#[derive(Default)]
struct Chain {
    state: Mutex<State>,
    asked: AtomicUsize,
}

impl Chain {
    fn state(&self) -> MutexGuard<'_, State> {
        self.state.lock().unwrap()
    }

    fn ask(&self, fault: Fault) -> Result<MutexGuard<'_, State>, Fault> {
        self.asked.fetch_add(1, Ordering::SeqCst);
        let state = self.state();
        if state.failing.contains(&fault) {
            return Err(fault);
        }
        Ok(state)
    }

    fn asked(&self) -> usize {
        self.asked.load(Ordering::SeqCst)
    }
}

impl NodeDBBackendSync for Chain {
    type Error = Fault;

    fn basic_account(&self, address: Address) -> Result<Option<AccountInfo>, Fault> {
        let state = self.ask(Fault::Account)?;
        Ok(state.accounts.get(&address).map(|(balance, nonce)| AccountInfo {
            balance: word(*balance),
            nonce: *nonce,
            code_hash: hash(77),
            code: None,
        }))
    }

    fn account_code(&self, address: Address) -> Result<Option<Bytecode>, Fault> {
        let state = self.ask(Fault::Code)?;
        Ok(state.code.get(&address).map(|bytes| Bytecode { bytes: bytes.clone() }))
    }

    fn storage(&self, address: Address, slot: U256) -> Result<U256, Fault> {
        let state = self.ask(Fault::Storage)?;
        Ok(state.slots.get(&(address, slot)).copied().unwrap_or(word(0)))
    }

    fn block_hash(&self, number: u64) -> Result<B256, Fault> {
        let state = self.ask(Fault::Block)?;
        state.blocks.get(&number).copied().ok_or(Fault::Block)
    }
}

fn word(value: u128) -> U256 {
    U256 { hi: 0, lo: value }
}

fn hash(value: u128) -> B256 {
    B256 { hi: 0, lo: value }
}

fn at(value: u128) -> Address {
    Address { hi: 0, lo: value }
}

fn info(balance: u128, nonce: u64, code: &[u8]) -> AccountInfo {
    let code = Bytecode { bytes: code.to_vec() };
    AccountInfo::new(word(balance), nonce, code.hash_slow(), code)
}

/// A chain with one account that has code and one slot.
fn chain() -> Chain {
    let chain = Chain::default();
    {
        let mut state = chain.state();
        state.accounts.insert(at(1), (100, 5));
        state.code.insert(at(1), vec![0x60, 0x00]);
        state.slots.insert((at(1), word(7)), word(70));
        state.blocks.insert(9, hash(900));
    }
    chain
}

fn sorted(mut slots: Vec<U256>) -> Vec<(u128, u128)> {
    let mut listed: Vec<(u128, u128)> = slots.drain(..).map(|slot| (slot.hi, slot.lo)).collect();
    listed.sort();
    listed
}

#[test]
fn chain_account_is_completed_with_its_code() {
    let mut db = NodeDB::new(chain());
    let found = db.basic(at(1)).unwrap().unwrap();
    assert_eq!(found.balance, word(100));
    assert_eq!(found.nonce, 5);
    let code = Bytecode { bytes: vec![0x60, 0x00] };
    assert_eq!(found.code_hash, code.hash_slow());
    assert_ne!(found.code_hash, hash(77));
    assert_eq!(found.code.unwrap().bytes, code.bytes);
}

#[test]
fn account_without_code_gets_empty_code() {
    let db = NodeDB::new(chain());
    db.backend().state().accounts.insert(at(2), (1, 0));
    let found = db.basic_ref(at(2)).unwrap().unwrap();
    assert_eq!(found.code_hash, B256::keccak_empty());
    assert_eq!(found.code.unwrap().bytes, Vec::<u8>::new());
}

#[test]
fn unknown_account_is_none_and_its_code_is_not_asked_for() {
    let mut db = NodeDB::new(chain());
    assert!(db.basic(at(3)).unwrap().is_none());
    assert!(db.basic_ref(at(3)).unwrap().is_none());
    assert_eq!(db.backend().asked(), 2);
}

#[test]
fn account_errors_are_given() {
    let mut db = NodeDB::new(chain());
    db.backend().state().failing = vec![Fault::Account];
    assert_eq!(db.basic(at(1)).err(), Some(Fault::Account));
    assert_eq!(db.basic_ref(at(1)).err(), Some(Fault::Account));
    db.backend().state().failing = vec![Fault::Code];
    assert_eq!(db.basic(at(1)).err(), Some(Fault::Code));
    assert_eq!(db.basic_ref(at(1)).err(), Some(Fault::Code));
    // Nothing was kept: a slot of the account still needs the account.
    db.backend().state().failing = vec![Fault::Account];
    assert_eq!(db.try_storage(at(1), word(7)), Err(Fault::Account));
}

#[test]
fn custom_account_is_answered_without_the_chain() {
    let mut db = NodeDB::new(chain());
    db.insert_account_info(at(1), info(3, 4, &[1, 2, 3]), InsertionType::Custom);
    let found = db.basic(at(1)).unwrap().unwrap();
    assert_eq!((found.balance, found.nonce), (word(3), 4));
    assert_eq!(found.code.unwrap().bytes, vec![1, 2, 3]);
    let found = db.basic_ref(at(1)).unwrap().unwrap();
    assert_eq!((found.balance, found.nonce), (word(3), 4));
    assert_eq!(db.backend().asked(), 0);
}

#[test]
fn custom_account_data_is_given_as_it_was_put_in() {
    let mut db = NodeDB::new(chain());
    let odd = AccountInfo { balance: word(1), nonce: 2, code_hash: hash(5), code: None };
    db.insert_account_info(at(8), odd, InsertionType::Custom);
    let found = db.basic(at(8)).unwrap().unwrap();
    assert_eq!(found.code_hash, hash(5));
    assert!(found.code.is_none());
}

#[test]
fn on_chain_account_is_refreshed() {
    let mut db = NodeDB::new(chain());
    db.insert_account_info(at(1), info(3, 4, &[]), InsertionType::OnChain);
    assert_eq!(db.basic(at(1)).unwrap().unwrap().balance, word(100));
    db.backend().state().accounts.insert(at(1), (101, 6));
    let found = db.basic(at(1)).unwrap().unwrap();
    assert_eq!((found.balance, found.nonce), (word(101), 6));
}

#[test]
fn taking_over_account_data_keeps_inserted_slots() {
    let mut db = NodeDB::new(chain());
    db.insert_account_storage(at(1), word(7), word(71), InsertionType::OnChain).unwrap();
    assert_eq!(db.basic(at(1)).unwrap().unwrap().balance, word(100));
    assert_eq!(db.storage(at(1), word(7)), Ok(word(71)));
}

#[test]
fn inserting_an_account_drops_its_slots() {
    let mut db = NodeDB::new(chain());
    db.insert_account_storage(at(1), word(7), word(71), InsertionType::OnChain).unwrap();
    db.insert_account_info(at(1), info(1, 1, &[]), InsertionType::Custom);
    assert_eq!(db.storage(at(1), word(7)), Ok(word(70)));
}

#[test]
fn chain_slot_is_refreshed_on_each_read() {
    let mut db = NodeDB::new(chain());
    assert_eq!(db.storage(at(1), word(7)), Ok(word(70)));
    db.backend().state().slots.insert((at(1), word(7)), word(700));
    assert_eq!(db.storage(at(1), word(7)), Ok(word(700)));
    assert_eq!(db.storage_ref(at(1), word(7)), Ok(word(700)));
    // The account is held since the first read and not asked for again: three values, one account
    // and its code.
    assert_eq!(db.backend().asked(), 5);
}

#[test]
fn inserted_slot_is_answered_whatever_the_chain_says() {
    let mut db = NodeDB::new(chain());
    db.insert_account_storage(at(1), word(7), word(71), InsertionType::OnChain).unwrap();
    assert_eq!(db.storage(at(1), word(7)), Ok(word(71)));
    assert_eq!(db.storage_ref(at(1), word(7)), Ok(word(71)));
    // Only the account was asked for, without its code.
    assert_eq!(db.backend().asked(), 1);
    // Other slots of the account are those of the chain.
    assert_eq!(db.storage(at(1), word(8)), Ok(word(0)));
}

#[test]
fn inserted_slot_replaces_a_fetched_one() {
    let mut db = NodeDB::new(chain());
    assert_eq!(db.storage(at(1), word(7)), Ok(word(70)));
    db.insert_account_storage(at(1), word(7), word(71), InsertionType::Custom).unwrap();
    assert_eq!(db.storage(at(1), word(7)), Ok(word(71)));
    // The account was held, so its type is unchanged and its data that of the chain.
    db.backend().state().accounts.insert(at(1), (102, 5));
    assert_eq!(db.basic(at(1)).unwrap().unwrap().balance, word(102));
}

#[test]
fn slot_insertion_puts_the_account_in_with_its_type() {
    let mut db = NodeDB::new(chain());
    db.insert_account_storage(at(1), word(7), word(71), InsertionType::Custom).unwrap();
    db.backend().state().accounts.insert(at(1), (102, 5));
    let found = db.basic(at(1)).unwrap().unwrap();
    // As the chain gave it at the insertion, with the hash and the code that came with it.
    assert_eq!(found.balance, word(100));
    assert_eq!(found.code_hash, hash(77));
    assert!(found.code.is_none());
}

#[test]
fn slot_insertion_tells_missing_accounts_and_errors() {
    let mut db = NodeDB::new(chain());
    assert_eq!(
        db.try_insert_account_storage(at(3), word(1), word(2), InsertionType::OnChain),
        Ok(false)
    );
    db.backend().state().failing = vec![Fault::Account];
    assert_eq!(
        db.insert_account_storage(at(1), word(1), word(2), InsertionType::OnChain),
        Err(Fault::Account)
    );
    db.backend().state().failing = vec![];
    assert_eq!(
        db.try_insert_account_storage(at(1), word(1), word(2), InsertionType::OnChain),
        Ok(true)
    );
    db.backend().state().failing = vec![Fault::Account];
    assert_eq!(
        db.insert_account_storage(at(1), word(1), word(3), InsertionType::OnChain),
        Ok(())
    );
    assert_eq!(db.storage(at(1), word(1)), Ok(word(3)));
}

#[test]
fn slot_of_a_missing_account_is_none() {
    let mut db = NodeDB::new(chain());
    assert_eq!(db.try_storage(at(3), word(7)), Ok(None));
    assert_eq!(db.storage_ref(at(3), word(7)), Ok(word(0)));
    db.backend().state().accounts.insert(at(3), (0, 0));
    assert_eq!(db.try_storage(at(3), word(7)), Ok(Some(word(0))));
}

#[test]
fn slot_errors_are_given() {
    let mut db = NodeDB::new(chain());
    db.backend().state().failing = vec![Fault::Storage];
    assert_eq!(db.try_storage(at(1), word(7)), Err(Fault::Storage));
    assert_eq!(db.storage_ref(at(1), word(7)), Err(Fault::Storage));
    // The chain has no account there, but fails before it is asked for one.
    assert_eq!(db.storage(at(3), word(7)), Err(Fault::Storage));
    db.backend().state().failing = vec![Fault::Code];
    assert_eq!(db.try_storage(at(1), word(7)), Err(Fault::Code));
    db.backend().state().failing = vec![];
    assert_eq!(db.storage(at(1), word(7)), Ok(word(70)));
    // With the account held, neither its data nor its code is needed.
    db.backend().state().failing = vec![Fault::Account, Fault::Code];
    assert_eq!(db.storage(at(1), word(7)), Ok(word(70)));
}

#[test]
fn reading_a_slot_puts_the_account_in() {
    let mut db = NodeDB::new(chain());
    assert_eq!(db.storage(at(1), word(7)), Ok(word(70)));
    let before = db.backend().asked();
    assert_eq!(
        db.insert_account_storage(at(1), word(9), word(1), InsertionType::Custom),
        Ok(())
    );
    assert_eq!(db.backend().asked(), before);
}

#[test]
fn reading_without_keeping_puts_nothing_in() {
    let mut db = NodeDB::new(chain());
    assert_eq!(db.storage_ref(at(1), word(7)), Ok(word(70)));
    assert!(db.basic_ref(at(1)).unwrap().is_some());
    let before = db.backend().asked();
    assert_eq!(
        db.insert_account_storage(at(1), word(9), word(1), InsertionType::Custom),
        Ok(())
    );
    assert_eq!(db.backend().asked(), before + 1);
}

#[test]
fn tracing_lists_exactly_the_slots_read() {
    let mut db = NodeDB::new(chain());
    db.storage(at(1), word(1)).unwrap();
    assert_eq!(sorted(db.get_accessed_slots(at(1)).unwrap()), vec![]);
    db.enable_tracing().unwrap();
    db.storage(at(1), word(7)).unwrap();
    db.storage(at(1), word(7)).unwrap();
    db.storage_ref(at(1), U256 { hi: 3, lo: 7 }).unwrap();
    db.storage_ref(at(2), word(8)).unwrap();
    db.insert_account_storage(at(1), word(5), word(5), InsertionType::OnChain).unwrap();
    db.storage(at(1), word(5)).unwrap();
    assert_eq!(sorted(db.get_accessed_slots(at(1)).unwrap()), vec![(0, 5), (0, 7), (3, 7)]);
    assert_eq!(sorted(db.get_accessed_slots(at(2)).unwrap()), vec![(0, 8)]);
    assert_eq!(sorted(db.get_accessed_slots(at(4)).unwrap()), vec![]);
    db.disable_tracing();
    db.storage(at(1), word(6)).unwrap();
    assert_eq!(sorted(db.get_accessed_slots(at(1)).unwrap()), vec![(0, 5), (0, 7), (3, 7)]);
    db.enable_tracing().unwrap();
    assert_eq!(sorted(db.get_accessed_slots(at(1)).unwrap()), vec![]);
}

#[test]
fn failed_and_unanswered_reads_are_recorded() {
    let mut db = NodeDB::new(chain());
    db.enable_tracing().unwrap();
    assert_eq!(db.try_storage(at(3), word(1)), Ok(None));
    db.backend().state().failing = vec![Fault::Storage];
    assert_eq!(db.try_storage(at(3), word(2)), Err(Fault::Storage));
    assert_eq!(sorted(db.get_accessed_slots(at(3)).unwrap()), vec![(0, 1), (0, 2)]);
}

#[test]
fn block_hash_is_that_of_the_chain() {
    let mut db = NodeDB::new(chain());
    assert_eq!(db.block_hash(9), Ok(hash(900)));
    assert_eq!(db.block_hash_ref(9), Ok(hash(900)));
    assert_eq!(db.block_hash(10), Err(Fault::Block));
    db.backend().state().failing = vec![Fault::Block];
    assert_eq!(db.block_hash(9), Err(Fault::Block));
    assert_eq!(db.block_hash_ref(9), Err(Fault::Block));
}

#[test]
fn code_by_hash_is_refused() {
    let mut db = NodeDB::new(chain());
    let message = "This should not be called, as the code is already loaded".to_string();
    assert_eq!(db.code_by_hash(hash(1)).err(), Some(Fault::Own(message.clone())));
    assert_eq!(db.code_by_hash_ref(hash(1)).err(), Some(Fault::Own(message)));
    assert_eq!(db.backend().asked(), 0);
}

#[test]
fn error_is_shown_with_its_name() {
    assert_eq!(NodeDBError("no block".to_string()).to_string(), "NodeDBError: no block");
    assert_eq!(NodeDBError(String::new()).to_string(), "NodeDBError: ");
}

#[test]
fn accounts_with_equal_halves_are_kept_apart() {
    let mut db = NodeDB::new(chain());
    let near = Address { hi: 0, lo: 5 };
    let far = Address { hi: 9, lo: 5 };
    db.insert_account_info(near, info(1, 0, &[]), InsertionType::Custom);
    db.insert_account_info(far, info(2, 0, &[]), InsertionType::Custom);
    assert_eq!(db.basic(near).unwrap().unwrap().balance, word(1));
    assert_eq!(db.basic(far).unwrap().unwrap().balance, word(2));
}

#[test]
fn defaults_are_on_chain_and_empty() {
    assert_eq!(InsertionType::default(), InsertionType::OnChain);
    assert_eq!(AccountState::default(), AccountState::Untouched);
    assert_eq!(NodeDBSlot::default(), NodeDBSlot::on_chain(word(0)));
    assert_eq!(
        NodeDBSlot::custom(word(3)),
        NodeDBSlot { value: word(3), insertion_type: InsertionType::Custom }
    );
    let account = NodeDBAccount::new(InsertionType::Custom);
    assert_eq!(account.insertion_type, InsertionType::Custom);
    assert_eq!(account.state, AccountState::NotExisting);
    assert_eq!(account.info.code_hash, B256::keccak_empty());
    assert_eq!(NodeDBAccount::default().state, AccountState::Untouched);
}
