//! What the operations do to the data itself: to each field of the account at hand, and to nothing
//! else.

use vstd::prelude::*;

use crate::account::{
    AccountInfo, AccountState, AccountView, Bytecode, InfoView, InsertionType, NodeDBAccount,
    NodeDBSlot,
};
use crate::backend::NodeDBBackendSync;
use crate::bridge::RuntimeFlavor;
use crate::commit::{Account, ChangeView, EvmStorageSlot};
use crate::db::{DbView, NodeDB};
use crate::error::NodeDBError;
use crate::primitives::{Address, B256, U256};
use crate::provider::StoredAccount;
use crate::steps::{Outcome, Pending, Query, Reply, Step, Task};
use crate::sync_db::NodeDBStorageSync;

verus! {

// ---------------------------------------------------------------------------------------------
// What stays as it is
// ---------------------------------------------------------------------------------------------

/// The account at `address` is held by both or by neither, and by both alike.
pub open spec fn account_kept(before: DbView, after: DbView, address: Address) -> bool {
    &&& before.accounts.contains_key(address) <==> after.accounts.contains_key(address)
    &&& before.accounts.contains_key(address) ==> before.accounts[address]
        == after.accounts[address]
}

/// Every account but the one at `address` is kept.
pub open spec fn others_kept(before: DbView, after: DbView, address: Address) -> bool {
    forall|other: Address| other != address ==> #[trigger] account_kept(before, after, other)
}

/// Code and recorded reads are kept.
pub open spec fn rest_kept(before: DbView, after: DbView) -> bool {
    &&& after.contracts == before.contracts
    &&& after.accessed == before.accessed
    &&& after.tracing == before.tracing
}

/// The slot is in both or in neither, and in both alike.
pub open spec fn slot_kept(before: AccountView, after: AccountView, slot: U256) -> bool {
    &&& before.storage.contains_key(slot) <==> after.storage.contains_key(slot)
    &&& before.storage.contains_key(slot) ==> before.storage[slot] == after.storage[slot]
}

/// Every slot but the one at `index` is kept.
pub open spec fn other_slots_kept(before: AccountView, after: AccountView, index: U256) -> bool {
    forall|slot: U256| slot != index ==> #[trigger] slot_kept(before, after, slot)
}

/// The account has no storage slot.
pub open spec fn without_storage(account: AccountView) -> bool {
    forall|slot: U256| !#[trigger] account.storage.contains_key(slot)
}

/// The account has the storage slot at `index` and no other.
pub open spec fn only_slot(account: AccountView, index: U256, value: NodeDBSlot) -> bool {
    &&& account.storage.contains_key(index)
    &&& account.storage[index] == value
    &&& forall|slot: U256| #[trigger] account.storage.contains_key(slot) ==> slot == index
}

// ---------------------------------------------------------------------------------------------
// Contents are the data
// ---------------------------------------------------------------------------------------------

/// The content of account data is its four fields, the code by its bytes.
pub proof fn law_account_data_content(info: AccountInfo)
    ensures
        info@.balance == info.balance,
        info@.nonce == info.nonce,
        info@.code_hash == info.code_hash,
        match info.code {
            Some(code) => info@.code == Some(code.bytes@),
            None => info@.code is None,
        },
{
}

/// The content of a held account is its four fields.
pub proof fn law_account_content(account: NodeDBAccount)
    ensures
        account@.info == account.info@,
        account@.state == account.state,
        account@.storage == account.storage@,
        account@.insertion_type == account.insertion_type,
{
}

/// The content of a list of changes is each change with its address, in the same order, by its data,
/// its slots and its flags.
pub proof fn law_changes_content(changes: Seq<(Address, Account)>)
    ensures
        crate::commit::changes_view(changes).len() == changes.len(),
        forall|i: int|
            0 <= i < changes.len() ==> {
                let (address, change) = #[trigger] crate::commit::changes_view(changes)[i];
                &&& address == changes[i].0
                &&& change.info == changes[i].1.info@
                &&& change.storage == changes[i].1.storage@
                &&& change.status == changes[i].1.status
            },
{
}

/// The content of an answer of a backend is what it says.
pub proof fn law_answer_content<E>(
    account: Result<Option<AccountInfo>, E>,
    code: Option<Bytecode>,
)
    ensures
        match account {
            Ok(Some(info)) => crate::backend::info_view(account) == Ok::<Option<InfoView>, E>(
                Some(info@),
            ),
            Ok(None) => crate::backend::info_view(account) == Ok::<Option<InfoView>, E>(None),
            Err(e) => crate::backend::info_view(account) == Err::<Option<InfoView>, E>(e),
        },
        match code {
            Some(code) => crate::account::code_bytes(Some(code)) == Some(code.bytes@),
            None => crate::account::code_bytes(code) is None,
        },
{
}

/// The content of a reply is what it says.
pub proof fn law_reply_content(reply: Reply<AccountInfo, Bytecode>)
    ensures
        match reply {
            Reply::BasicAccount(Some(info)) => reply@ == Reply::<InfoView, Seq<u8>>::BasicAccount(
                Some(info@),
            ),
            Reply::BasicAccount(None) => reply@ == Reply::<InfoView, Seq<u8>>::BasicAccount(None),
            Reply::AccountCode(Some(code)) => reply@ == Reply::<InfoView, Seq<u8>>::AccountCode(
                Some(code.bytes@),
            ),
            Reply::AccountCode(None) => reply@ == Reply::<InfoView, Seq<u8>>::AccountCode(None),
            Reply::Storage(value) => reply@ == Reply::<InfoView, Seq<u8>>::Storage(value),
        },
{
}

/// The content of a step is what it says: the outcome with its data, or the work that waits.
pub proof fn law_step_content(step: Step<AccountInfo>)
    ensures
        match step {
            Step::Done(Outcome::Info(Some(info))) => step@ == Step::Done(
                Outcome::Info(Some(info@)),
            ),
            Step::Done(Outcome::Info(None)) => step@ == Step::<InfoView>::Done(
                Outcome::Info(None),
            ),
            Step::Done(Outcome::Value(value)) => step@ == Step::<InfoView>::Done(
                Outcome::Value(value),
            ),
            Step::Done(Outcome::Inserted) => step@ == Step::<InfoView>::Done(Outcome::Inserted),
            Step::Done(Outcome::NoAccount) => step@ == Step::<InfoView>::Done(Outcome::NoAccount),
            Step::Ask(pending) => {
                &&& step@ == Step::Ask(pending@)
                &&& pending@.query() == pending.query()
            },
        },
{
}

/// The content of pending work is its fields.
pub proof fn law_pending_content(pending: Pending<AccountInfo>)
    ensures
        match pending {
            Pending::Account { address, keep } => pending@ == Pending::<InfoView>::Account {
                address,
                keep,
            },
            Pending::Code { address, account, keep } => pending@ == (Pending::Code {
                address,
                account: account@,
                keep,
            }),
            Pending::Value { address, index, keep } => pending@ == Pending::<InfoView>::Value {
                address,
                index,
                keep,
            },
            Pending::SlotAccount { address, index, value } => pending@ == Pending::<
                InfoView,
            >::SlotAccount { address, index, value },
            Pending::SlotCode { address, index, value, account } => pending@ == (
            Pending::SlotCode { address, index, value, account: account@ }),
            Pending::InsertAccount { address, slot, value, insertion_type } => pending@
                == Pending::<InfoView>::InsertAccount { address, slot, value, insertion_type },
        },
{
}

/// A word, a hash and an address are the numbers that their halves make up.
pub proof fn law_halves_make_up_the_number(word: U256, hash: B256, address: Address)
    ensures
        word.value() == word.hi * 0x1_0000_0000_0000_0000_0000_0000_0000_0000 + word.lo,
        hash.value() == hash.hi * 0x1_0000_0000_0000_0000_0000_0000_0000_0000 + hash.lo,
        address.value() == address.hi * 0x1_0000_0000_0000_0000_0000_0000_0000_0000 + address.lo,
{
}

/// Code asked for by its hash is always refused, with the backend's form of one fixed error.
pub proof fn law_code_by_hash_is_refused<E: From<NodeDBError>>(res: Result<Bytecode, E>)
    requires
        crate::backend::code_refused(res),
    ensures
        res matches Err(e) && exists|error: NodeDBError|
            {
                &&& #[trigger] call_ensures(<E as From<NodeDBError>>::from, (error,), e)
                &&& error.0@ == "This should not be called, as the code is already loaded"@
            },
{
}

// ---------------------------------------------------------------------------------------------
// What is answered without the chain
// ---------------------------------------------------------------------------------------------

/// Account data is answered without the chain just where the account is held as a custom one, and
/// it is then the data held.
pub proof fn law_custom_accounts_alone_are_answered(db: DbView, address: Address)
    ensures
        db.local_info(address) is Some <==> db.accounts.contains_key(address)
            && db.accounts[address].insertion_type == InsertionType::Custom,
        db.local_info(address) matches Some(info) ==> {
            let held = db.accounts[address].info;
            &&& info.balance == held.balance
            &&& info.nonce == held.nonce
            &&& info.code_hash == held.code_hash
            &&& info.code == held.code
        },
        db.held(address) is Some <==> db.accounts.contains_key(address),
        db.held(address) matches Some(account) ==> account == db.accounts[address],
{
}

/// A storage value is answered without the chain just where the slot is held as a custom one, and
/// it is then the value held.
pub proof fn law_custom_slots_alone_are_answered(db: DbView, address: Address, index: U256)
    ensures
        db.local_slot(address, index) is Some <==> {
            &&& db.accounts.contains_key(address)
            &&& db.accounts[address].storage.contains_key(index)
            &&& db.accounts[address].storage[index].insertion_type == InsertionType::Custom
        },
        db.local_slot(address, index) matches Some(value) ==> value
            == db.accounts[address].storage[index].value,
{
}

/// A new database holds no account, no code and no recorded read, and does not record.
pub proof fn law_new_databases_are_empty(address: Address, hash: B256)
    ensures
        !DbView::init().accounts.contains_key(address),
        !DbView::init().contracts.contains_key(hash),
        !DbView::init().accessed.contains_key(address),
        !DbView::init().tracing,
{
}

/// Slots are made with the value given, and as what they are called.
pub proof fn law_slots_have_their_value(value: U256)
    ensures
        NodeDBSlot::custom(value).value == value,
        NodeDBSlot::custom(value).insertion_type == InsertionType::Custom,
        NodeDBSlot::on_chain(value).value == value,
        NodeDBSlot::on_chain(value).insertion_type == InsertionType::OnChain,
{
}

/// An empty account owns nothing, has sent nothing and has empty code. A new account has just the
/// data and the type given; a blank one is an empty on-chain account that execution has not met.
pub proof fn law_new_accounts(info: InfoView, insertion_type: InsertionType)
    ensures
        InfoView::empty().balance == (U256 { hi: 0, lo: 0 }),
        InfoView::empty().nonce == 0,
        InfoView::empty().code_hash == B256::keccak_empty(),
        InfoView::empty().code == Some(Seq::<u8>::empty()),
        AccountView::fresh(info, insertion_type).info == info,
        AccountView::fresh(info, insertion_type).insertion_type == insertion_type,
        AccountView::fresh(info, insertion_type).state == AccountState::NotExisting,
        without_storage(AccountView::fresh(info, insertion_type)),
        AccountView::blank().info == InfoView::empty(),
        AccountView::blank().insertion_type == InsertionType::OnChain,
        AccountView::blank().state == AccountState::Untouched,
        without_storage(AccountView::blank()),
{
}

// ---------------------------------------------------------------------------------------------
// Putting accounts and slots in
// ---------------------------------------------------------------------------------------------

/// An account that was put in is held with the data and the type given and without storage,
/// whatever was held before. A custom one is answered so; an on-chain one is asked of the chain.
/// Nothing else changes.
pub proof fn law_put_accounts_are_held(
    db: DbView,
    address: Address,
    info: InfoView,
    insertion_type: InsertionType,
)
    ensures
        ({
            let after = db.put_account(address, info, insertion_type);
            let held = after.accounts[address];
            &&& after.accounts.contains_key(address)
            &&& held.info.balance == info.balance
            &&& held.info.nonce == info.nonce
            &&& held.info.code_hash == info.code_hash
            &&& held.info.code == info.code
            &&& held.insertion_type == insertion_type
            &&& held.state == AccountState::NotExisting
            &&& without_storage(held)
            &&& others_kept(db, after, address)
            &&& rest_kept(db, after)
            &&& insertion_type == InsertionType::Custom ==> after.local_info(address) == Some(info)
            &&& insertion_type == InsertionType::OnChain ==> {
                &&& after.local_info(address) is None
                &&& after.start(Task::Basic(address)).0 matches Step::Ask(pending)
                    && pending.query() == Query::BasicAccount(address)
                &&& after.start(Task::BasicRef(address)).0 matches Step::Ask(pending)
                    && pending.query() == Query::BasicAccount(address)
            }
        }),
{
}

/// Data that arrived from the chain replaces the data of a held account, which keeps its type, its
/// state and its storage. An account that was not held is held with that data as an on-chain one
/// without storage. Nothing else changes.
pub proof fn law_recorded_data_is_held(db: DbView, address: Address, info: InfoView)
    ensures
        ({
            let after = db.record_info(address, info);
            let held = after.accounts[address];
            &&& after.accounts.contains_key(address)
            &&& held.info.balance == info.balance
            &&& held.info.nonce == info.nonce
            &&& held.info.code_hash == info.code_hash
            &&& held.info.code == info.code
            &&& others_kept(db, after, address)
            &&& rest_kept(db, after)
            &&& if db.accounts.contains_key(address) {
                &&& held.insertion_type == db.accounts[address].insertion_type
                &&& held.state == db.accounts[address].state
                &&& held.storage == db.accounts[address].storage
            } else {
                &&& held.insertion_type == InsertionType::OnChain
                &&& held.state == AccountState::NotExisting
                &&& without_storage(held)
            }
        }),
{
}

/// Setting a slot of a held account sets that slot. The account keeps its data, its type, its state
/// and its other slots. Nothing else changes.
pub proof fn law_set_slots_are_held(db: DbView, address: Address, index: U256, slot: NodeDBSlot)
    requires
        db.accounts.contains_key(address),
    ensures
        ({
            let after = db.put_slot(address, index, slot);
            let before = db.accounts[address];
            let held = after.accounts[address];
            &&& after.accounts.contains_key(address)
            &&& held.storage.contains_key(index)
            &&& held.storage[index].value == slot.value
            &&& held.storage[index].insertion_type == slot.insertion_type
            &&& other_slots_kept(before, held, index)
            &&& held.info == before.info
            &&& held.insertion_type == before.insertion_type
            &&& held.state == before.state
            &&& others_kept(db, after, address)
            &&& rest_kept(db, after)
        }),
{
}

/// A slot that was put in is held as a custom one with its value. A held account keeps everything
/// else. An account that was not held is held with exactly the data and the type given, and with
/// that slot alone. Nothing else changes.
pub proof fn law_put_slots_are_held(
    db: DbView,
    address: Address,
    slot: U256,
    value: U256,
    insertion_type: InsertionType,
    account: InfoView,
)
    ensures
        ({
            let after = db.insert_slot(address, slot, value, insertion_type, account);
            let held = after.accounts[address];
            &&& after.accounts.contains_key(address)
            &&& held.storage.contains_key(slot)
            &&& held.storage[slot].value == value
            &&& held.storage[slot].insertion_type == InsertionType::Custom
            &&& others_kept(db, after, address)
            &&& rest_kept(db, after)
            &&& if db.accounts.contains_key(address) {
                let before = db.accounts[address];
                &&& other_slots_kept(before, held, slot)
                &&& held.info == before.info
                &&& held.insertion_type == before.insertion_type
                &&& held.state == before.state
            } else {
                &&& held.info.balance == account.balance
                &&& held.info.nonce == account.nonce
                &&& held.info.code_hash == account.code_hash
                &&& held.info.code == account.code
                &&& held.insertion_type == insertion_type
                &&& held.state == AccountState::NotExisting
                &&& only_slot(
                    held,
                    slot,
                    NodeDBSlot { value, insertion_type: InsertionType::Custom },
                )
                &&& insertion_type == InsertionType::Custom ==> after.local_info(address) == Some(
                    account,
                )
            }
        }),
{
}

/// A slot that was put in in one call is held as a custom one, in a held account that keeps
/// everything else, or in one that holds exactly what the backend answered of it and the type asked
/// for.
pub proof fn law_insertion_calls_hold_the_answer<B: NodeDBBackendSync>(
    backend: B,
    before: DbView,
    address: Address,
    slot: U256,
    value: U256,
    insertion_type: InsertionType,
    res: Result<bool, B::Error>,
    after: DbView,
)
    requires
        crate::backend::storage_inserted(
            backend,
            before,
            address,
            slot,
            value,
            insertion_type,
            res,
            after,
        ),
    ensures
        others_kept(before, after, address),
        rest_kept(before, after),
        before.accounts.contains_key(address) ==> res == Ok::<bool, B::Error>(true),
        match res {
            Err(e) => {
                &&& account_kept(before, after, address)
                &&& !before.accounts.contains_key(address)
                &&& call_ensures(B::basic_account, (&backend, address), Err(e))
            },
            Ok(false) => {
                &&& account_kept(before, after, address)
                &&& !before.accounts.contains_key(address)
                &&& call_ensures(B::basic_account, (&backend, address), Ok(None))
            },
            Ok(true) => {
                let held = after.accounts[address];
                &&& after.accounts.contains_key(address)
                &&& held.storage.contains_key(slot)
                &&& held.storage[slot].value == value
                &&& held.storage[slot].insertion_type == InsertionType::Custom
                &&& if before.accounts.contains_key(address) {
                    &&& other_slots_kept(before.accounts[address], held, slot)
                    &&& held.info == before.accounts[address].info
                    &&& held.insertion_type == before.accounts[address].insertion_type
                    &&& held.state == before.accounts[address].state
                } else {
                    &&& held.insertion_type == insertion_type
                    &&& only_slot(
                        held,
                        slot,
                        NodeDBSlot { value, insertion_type: InsertionType::Custom },
                    )
                    &&& exists|answered: AccountInfo|
                        {
                            &&& #[trigger] call_ensures(
                                B::basic_account,
                                (&backend, address),
                                Ok::<Option<AccountInfo>, B::Error>(Some(answered)),
                            )
                            &&& held.info.balance == answered.balance
                            &&& held.info.nonce == answered.nonce
                            &&& held.info.code_hash == answered.code_hash
                            &&& held.info.code == answered@.code
                            &&& insertion_type == InsertionType::Custom ==> after.local_info(
                                address,
                            ) == Some(answered@)
                        }
                }
            },
        },
{
    if !before.accounts.contains_key(address) {
        let answer = choose|account: Result<Option<AccountInfo>, B::Error>|
            {
                &&& #[trigger] call_ensures(B::basic_account, (&backend, address), account)
                &&& match account {
                    Err(e) => res == Err::<bool, B::Error>(e) && after == before,
                    Ok(None) => res == Ok::<bool, B::Error>(false) && after == before,
                    Ok(Some(account)) => {
                        &&& res == Ok::<bool, B::Error>(true)
                        &&& after == before.insert_slot(
                            address,
                            slot,
                            value,
                            insertion_type,
                            account@,
                        )
                    },
                }
            };
        if let Ok(Some(answered)) = answer {
            law_put_slots_are_held(before, address, slot, value, insertion_type, answered@);
            assert(call_ensures(
                B::basic_account,
                (&backend, address),
                Ok::<Option<AccountInfo>, B::Error>(Some(answered)),
            ));
        }
    }
}

/// Putting a slot in through the trait is putting it in in one call: it succeeds just where the call
/// does, with the same content left behind and over the same backend.
pub proof fn law_trait_insertions_are_calls<B: NodeDBBackendSync>(
    before: NodeDB<B>,
    address: Address,
    slot: U256,
    value: U256,
    insertion_type: InsertionType,
    res: Result<(), B::Error>,
    after: NodeDB<B>,
)
    requires
        before.inserts_storage(address, slot, value, insertion_type, res, after),
    ensures
        after.chain() == before.chain(),
        res is Ok ==> crate::backend::storage_inserted(
            before.chain(),
            before@,
            address,
            slot,
            value,
            insertion_type,
            Ok(true),
            after@,
        ),
        res matches Err(e) ==> crate::backend::storage_inserted(
            before.chain(),
            before@,
            address,
            slot,
            value,
            insertion_type,
            Err(e),
            after@,
        ),
{
}

// ---------------------------------------------------------------------------------------------
// Reading accounts
// ---------------------------------------------------------------------------------------------

/// Account data that is completed with its code keeps balance and nonce, whether there is code or
/// not. Its code is the code given, or empty code, under its hash.
pub proof fn law_completed_data_keeps_balance_and_nonce(info: InfoView, code: Option<Seq<u8>>)
    ensures
        ({
            let completed = info.with_code(code);
            &&& completed.balance == info.balance
            &&& completed.nonce == info.nonce
            &&& code matches Some(bytes) ==> completed.code == Some(bytes)
            &&& code is None ==> completed.code == Some(Seq::<u8>::empty())
            &&& completed.code_hash == crate::hashing::code_hash_of(completed.code->0)
        }),
{
}

/// The hash of code is that of its bytes, and the hash of no code is that of the empty string.
pub proof fn law_code_hashes(code: Seq<u8>)
    ensures
        code.len() > 0 ==> crate::hashing::code_hash_of(code) == crate::hashing::keccak256_of(code),
        code.len() == 0 ==> crate::hashing::code_hash_of(code) == B256::keccak_empty(),
{
}

/// Data made up from a stored account has the stored balance and nonce, whether there is code or
/// not, and the stored code, or empty code, under its hash.
pub proof fn law_stored_data_keeps_balance_and_nonce(
    account: StoredAccount,
    code: Option<Seq<u8>>,
)
    ensures
        ({
            let info = crate::provider::stored_info(account, code);
            &&& info.balance == account.balance
            &&& info.nonce == account.nonce
            &&& code matches Some(bytes) ==> info.code == Some(bytes)
            &&& code is None ==> info.code == Some(Seq::<u8>::empty())
            &&& info.code_hash == crate::hashing::code_hash_of(info.code->0)
        }),
{
}

/// The data is made up of the two answers: balance and nonce of the first, and the code of the
/// second, or empty code, under its hash.
pub open spec fn made_of(info: InfoView, answered: AccountInfo, code: Option<Bytecode>) -> bool {
    &&& info.balance == answered.balance
    &&& info.nonce == answered.nonce
    &&& match code {
        Some(code) => info.code == Some(code.bytes@),
        None => info.code == Some(Seq::<u8>::empty()),
    }
    &&& info.code_hash == if info.code->0.len() == 0 {
        B256::keccak_empty()
    } else {
        crate::hashing::keccak256_of(info.code->0)
    }
}

/// The data is made up of two answers that the backend can give for the account.
pub open spec fn made_of_answers<B: NodeDBBackendSync>(
    backend: B,
    address: Address,
    info: InfoView,
) -> bool {
    exists|answered: AccountInfo, code: Option<Bytecode>|
        {
            &&& #[trigger] call_ensures(
                B::basic_account,
                (&backend, address),
                Ok::<Option<AccountInfo>, B::Error>(Some(answered)),
            )
            &&& #[trigger] call_ensures(
                B::account_code,
                (&backend, address),
                Ok::<Option<Bytecode>, B::Error>(code),
            )
            &&& made_of(info, answered, code)
        }
}

/// An account that a call fetched has exactly the balance and the nonce that the backend answered,
/// and the code that it answered. There is none just where the backend said so, and the call failed
/// just with an error of the backend.
pub proof fn law_fetched_accounts_are_the_answers<B: NodeDBBackendSync>(
    backend: B,
    address: Address,
    info: Result<Option<InfoView>, B::Error>,
)
    requires
        crate::backend::chain_info(backend, address, info),
    ensures
        match info {
            Ok(Some(info)) => made_of_answers(backend, address, info),
            Ok(None) => call_ensures(B::basic_account, (&backend, address), Ok(None)),
            Err(e) => {
                ||| call_ensures(B::basic_account, (&backend, address), Err(e))
                ||| call_ensures(B::account_code, (&backend, address), Err(e))
            },
        },
{
    let (account, code) = choose|
        account: Result<Option<AccountInfo>, B::Error>,
        code: Result<Option<Bytecode>, B::Error>,
    |
        {
            &&& #[trigger] call_ensures(B::basic_account, (&backend, address), account)
            &&& account matches Ok(Some(_)) ==> call_ensures(
                B::account_code,
                (&backend, address),
                code,
            )
            &&& info == #[trigger] crate::backend::fetched_info(account, code)
        };
    if let Ok(Some(info)) = info {
        let answered = account->Ok_0->0;
        let given = code->Ok_0;
        assert(call_ensures(
            B::basic_account,
            (&backend, address),
            Ok::<Option<AccountInfo>, B::Error>(Some(answered)),
        ));
        assert(call_ensures(
            B::account_code,
            (&backend, address),
            Ok::<Option<Bytecode>, B::Error>(given),
        ));
        assert(made_of(info, answered, given));
    }
}

/// Where the backend knows the account and gives its code, fetching the account gives it: the data
/// made up of the two answers is data that a call can give.
pub proof fn law_answers_are_fetched_accounts<B: NodeDBBackendSync>(
    backend: B,
    address: Address,
    answered: AccountInfo,
    code: Option<Bytecode>,
    info: InfoView,
)
    requires
        call_ensures(
            B::basic_account,
            (&backend, address),
            Ok::<Option<AccountInfo>, B::Error>(Some(answered)),
        ),
        call_ensures(
            B::account_code,
            (&backend, address),
            Ok::<Option<Bytecode>, B::Error>(code),
        ),
        made_of(info, answered, code),
    ensures
        crate::backend::chain_info(backend, address, Ok(Some(info))),
{
    let account: Result<Option<AccountInfo>, B::Error> = Ok(Some(answered));
    let given: Result<Option<Bytecode>, B::Error> = Ok(code);
    let fetched = crate::backend::fetched_info(account, given);
    assert(fetched->Ok_0->0 =~= info);
}

/// An account that is read in steps is, where it is not custom, exactly what the two replies say:
/// balance and nonce of the first, the code of the second. If it is kept, that is what is held then,
/// and a held account keeps its type, its state and its storage.
pub proof fn law_read_accounts_are_the_replies(
    db: DbView,
    address: Address,
    answered: InfoView,
    code: Option<Seq<u8>>,
)
    requires
        db.local_info(address) is None,
    ensures
        ({
            let replies = seq![Reply::BasicAccount(Some(answered)), Reply::AccountCode(code)];
            let (end, after) = db.run(Task::Basic(address), replies);
            let held = after.accounts[address];
            &&& end matches Step::Done(Outcome::Info(Some(info))) && {
                &&& info.balance == answered.balance
                &&& info.nonce == answered.nonce
                &&& info.code == Some(
                    match code {
                        Some(bytes) => bytes,
                        None => Seq::<u8>::empty(),
                    },
                )
                &&& info.code_hash == crate::hashing::code_hash_of(info.code->0)
                &&& held.info == info
            }
            &&& after.accounts.contains_key(address)
            &&& after.local_info(address) is None
            &&& others_kept(db, after, address)
            &&& rest_kept(db, after)
            &&& db.accounts.contains_key(address) ==> {
                &&& held.insertion_type == db.accounts[address].insertion_type
                &&& held.state == db.accounts[address].state
                &&& held.storage == db.accounts[address].storage
            }
            &&& db.run(Task::BasicRef(address), replies) == (end, db)
        }),
{
    crate::laws::law_steps_read_accounts(db, address, Some(answered), code);
}

// ---------------------------------------------------------------------------------------------
// Reading slots
// ---------------------------------------------------------------------------------------------

/// A read is recorded, if reads are recorded, by that one slot of that one account. Nothing else
/// changes.
pub proof fn law_one_read_records_one_slot(db: DbView, address: Address, index: U256)
    ensures
        ({
            let after = db.read_slot(address, index);
            &&& after.accounts == db.accounts
            &&& after.contracts == db.contracts
            &&& after.tracing == db.tracing
            &&& !db.tracing ==> after.accessed == db.accessed
            &&& forall|other: Address, slot: U256| #[trigger]
                after.slots_read(other).contains(slot) <==> db.slots_read(other).contains(slot) || (
                db.tracing && other == address && slot == index)
        }),
{
}

/// The slots read of an account are those recorded under it.
pub proof fn law_recorded_slots_are_listed(db: DbView, address: Address, slot: U256)
    ensures
        db.slots_read(address).contains(slot) <==> db.accessed.contains_key(address)
            && db.accessed[address].contains(slot),
{
}

/// Starting to record forgets what was recorded and records from then on. Stopping keeps what was
/// recorded and records no more. Neither changes an account or code.
pub proof fn law_recording_starts_and_stops(db: DbView, address: Address, slot: U256)
    ensures
        db.start_tracing().tracing,
        !db.start_tracing().slots_read(address).contains(slot),
        db.start_tracing().accounts == db.accounts,
        db.start_tracing().contracts == db.contracts,
        !db.stop_tracing().tracing,
        db.stop_tracing().accessed == db.accessed,
        db.stop_tracing().accounts == db.accounts,
        db.stop_tracing().contracts == db.contracts,
{
}

/// What reading and keeping a slot does, whatever the chain says: a custom slot is given as it is
/// held and no account changes. Otherwise the chain's value is given and held as an on-chain one, in
/// an account that keeps its data, its type, its state and its other slots, or that is held from
/// then on with the chain's data as an on-chain one. Where there is no account none is made up.
pub proof fn law_read_slots_are_held(
    db: DbView,
    address: Address,
    index: U256,
    value: U256,
    info: Option<InfoView>,
)
    ensures
        ({
            let (res, after) = db.storage_result(address, index, value, info);
            let read = db.read_slot(address, index);
            let held = after.accounts[address];
            &&& others_kept(db, after, address)
            &&& rest_kept(read, after)
            &&& if db.local_slot(address, index) is Some {
                &&& res == Some(db.accounts[address].storage[index].value)
                &&& account_kept(db, after, address)
            } else if db.accounts.contains_key(address) {
                &&& res == Some(value)
                &&& after.accounts.contains_key(address)
                &&& held.storage.contains_key(index)
                &&& held.storage[index].value == value
                &&& held.storage[index].insertion_type == InsertionType::OnChain
                &&& other_slots_kept(db.accounts[address], held, index)
                &&& held.info == db.accounts[address].info
                &&& held.insertion_type == db.accounts[address].insertion_type
                &&& held.state == db.accounts[address].state
            } else {
                match info {
                    Some(info) => {
                        &&& res == Some(value)
                        &&& after.accounts.contains_key(address)
                        &&& held.info == info
                        &&& held.insertion_type == InsertionType::OnChain
                        &&& held.state == AccountState::NotExisting
                        &&& only_slot(
                            held,
                            index,
                            NodeDBSlot { value, insertion_type: InsertionType::OnChain },
                        )
                    },
                    None => res is None && !after.accounts.contains_key(address),
                }
            }
        }),
{
}

/// What reading a slot in one call does: a custom slot is given as it is held. Otherwise the value
/// given is the backend's, and is held as an on-chain one, in an account that keeps everything else,
/// or that is held from then on as an on-chain one with what the backend answered of it. A failure
/// is the backend's, and then, as where there is no account, no account changes.
pub proof fn law_storage_calls_hold_the_answer<B: NodeDBBackendSync>(
    backend: B,
    before: DbView,
    address: Address,
    index: U256,
    res: Result<Option<U256>, B::Error>,
    after: DbView,
)
    requires
        crate::backend::storage_read(backend, before, address, index, res, after),
    ensures
        others_kept(before, after, address),
        rest_kept(before.read_slot(address, index), after),
        before.local_slot(address, index) is Some ==> {
            &&& res == Ok::<Option<U256>, B::Error>(
                Some(before.accounts[address].storage[index].value),
            )
            &&& account_kept(before, after, address)
        },
        before.local_slot(address, index) is None ==> match res {
            Ok(Some(value)) => {
                let held = after.accounts[address];
                &&& call_ensures(B::storage, (&backend, address, index), Ok(value))
                &&& after.accounts.contains_key(address)
                &&& held.storage.contains_key(index)
                &&& held.storage[index].value == value
                &&& held.storage[index].insertion_type == InsertionType::OnChain
                &&& if before.accounts.contains_key(address) {
                    &&& other_slots_kept(before.accounts[address], held, index)
                    &&& held.info == before.accounts[address].info
                    &&& held.insertion_type == before.accounts[address].insertion_type
                    &&& held.state == before.accounts[address].state
                } else {
                    &&& held.insertion_type == InsertionType::OnChain
                    &&& only_slot(
                        held,
                        index,
                        NodeDBSlot { value, insertion_type: InsertionType::OnChain },
                    )
                    &&& made_of_answers(backend, address, held.info)
                }
            },
            Ok(None) => {
                &&& account_kept(before, after, address)
                &&& !before.accounts.contains_key(address)
                &&& call_ensures(B::basic_account, (&backend, address), Ok(None))
                &&& exists|value: U256| #[trigger]
                    call_ensures(
                        B::storage,
                        (&backend, address, index),
                        Ok::<U256, B::Error>(value),
                    )
            },
            Err(e) => {
                &&& account_kept(before, after, address)
                &&& {
                    ||| call_ensures(B::storage, (&backend, address, index), Err(e))
                    ||| !before.accounts.contains_key(address) && call_ensures(
                        B::basic_account,
                        (&backend, address),
                        Err(e),
                    )
                    ||| !before.accounts.contains_key(address) && call_ensures(
                        B::account_code,
                        (&backend, address),
                        Err(e),
                    )
                }
            },
        },
{
    if before.local_slot(address, index) is None {
        let fetched = choose|fetched: Result<U256, B::Error>|
            {
                &&& #[trigger] call_ensures(B::storage, (&backend, address, index), fetched)
                &&& crate::backend::slot_fetched(
                    backend,
                    before,
                    address,
                    index,
                    fetched,
                    res,
                    after,
                )
            };
        if let Ok(value) = fetched {
            assert(call_ensures(
                B::storage,
                (&backend, address, index),
                Ok::<U256, B::Error>(value),
            ));
            if before.accounts.contains_key(address) {
                law_read_slots_are_held(before, address, index, value, None);
            } else {
                let info = choose|info: Result<Option<InfoView>, B::Error>|
                    {
                        &&& #[trigger] crate::backend::chain_info(backend, address, info)
                        &&& crate::backend::slot_of_fetched_account(
                            before,
                            address,
                            index,
                            value,
                            info,
                            res,
                            after,
                        )
                    };
                law_fetched_accounts_are_the_answers(backend, address, info);
                if let Ok(info) = info {
                    law_read_slots_are_held(before, address, index, value, info);
                }
            }
        }
    }
}

// ---------------------------------------------------------------------------------------------
// Tasks in steps
// ---------------------------------------------------------------------------------------------

/// Every account held before is held after, of the same type and in the same state, and an account
/// held only after is at `address` and of the type `new_type`.
pub open spec fn types_kept(
    before: DbView,
    after: DbView,
    address: Address,
    new_type: InsertionType,
) -> bool {
    &&& forall|other: Address| #[trigger]
        before.accounts.contains_key(other) ==> {
            &&& after.accounts.contains_key(other)
            &&& after.accounts[other].insertion_type == before.accounts[other].insertion_type
            &&& after.accounts[other].state == before.accounts[other].state
        }
    &&& forall|other: Address| #[trigger]
        after.accounts.contains_key(other) && !before.accounts.contains_key(other) ==> {
            &&& other == address
            &&& after.accounts[other].insertion_type == new_type
        }
}

/// The type that an account gets which work puts in: an insertion asks for one, and what a read puts
/// in is on-chain.
pub open spec fn new_type_of(pending: Pending<InfoView>) -> InsertionType {
    match pending {
        Pending::InsertAccount { insertion_type, .. } => insertion_type,
        _ => InsertionType::OnChain,
    }
}

/// Taking an answer never changes the type or the state of a held account, and what a read puts in
/// is on-chain.
pub proof fn law_answers_keep_account_types(
    db: DbView,
    pending: Pending<InfoView>,
    reply: Reply<InfoView, Seq<u8>>,
)
    ensures
        types_kept(db, db.resume(pending, reply).1, pending.address(), new_type_of(pending)),
{
}

/// Going on with work keeps the types of held accounts.
proof fn lemma_converse_keeps_types(
    at: (Step<InfoView>, DbView),
    replies: Seq<Reply<InfoView, Seq<u8>>>,
    address: Address,
    new_type: InsertionType,
)
    requires
        at.0 matches Step::Ask(pending) ==> pending.address() == address && new_type_of(pending)
            == new_type,
    ensures
        types_kept(at.1, crate::steps::converse(at, replies).1, address, new_type),
    decreases replies.len(),
{
    if let Step::Ask(pending) = at.0 {
        if replies.len() > 0 {
            let next = at.1.resume(pending, replies[0]);
            law_answers_keep_account_types(at.1, pending, replies[0]);
            lemma_converse_keeps_types(next, replies.drop_first(), address, new_type);
        }
    }
}

/// No task changes the type or the state of a held account, whatever the chain answers. An account
/// that a read puts in is on-chain, and one that an insertion puts in is of the type asked for. So a
/// read never makes an account be answered without the chain that was not so before.
pub proof fn law_tasks_keep_account_types(
    db: DbView,
    task: Task,
    replies: Seq<Reply<InfoView, Seq<u8>>>,
)
    ensures
        ({
            let after = db.run(task, replies).1;
            let new_type = match task {
                Task::InsertStorage { insertion_type, .. } => insertion_type,
                _ => InsertionType::OnChain,
            };
            &&& types_kept(db, after, task.address(), new_type)
            &&& !(task is InsertStorage) ==> forall|address: Address| #[trigger]
                db.local_info(address) is None ==> after.local_info(address) is None
        }),
{
    let new_type = match task {
        Task::InsertStorage { insertion_type, .. } => insertion_type,
        _ => InsertionType::OnChain,
    };
    let first = db.start(task);
    assert(types_kept(db, first.1, task.address(), new_type));
    lemma_converse_keeps_types(first, replies, task.address(), new_type);
    let after = db.run(task, replies).1;
    assert(types_kept(db, after, task.address(), new_type));
    if !(task is InsertStorage) {
        assert forall|address: Address| #[trigger]
            db.local_info(address) is None implies after.local_info(address) is None by {
            if db.accounts.contains_key(address) {
            } else if after.accounts.contains_key(address) {
            }
        }
    }
}

/// Reading a slot in one call never changes the type or the state of a held account, and puts an
/// account in only as an on-chain one. So no account becomes one that is answered without the chain.
pub proof fn law_storage_calls_keep_account_types<B: NodeDBBackendSync>(
    backend: B,
    before: DbView,
    address: Address,
    index: U256,
    res: Result<Option<U256>, B::Error>,
    after: DbView,
)
    requires
        crate::backend::storage_read(backend, before, address, index, res, after),
    ensures
        types_kept(before, after, address, InsertionType::OnChain),
        forall|other: Address| #[trigger]
            before.local_info(other) is None ==> after.local_info(other) is None,
{
    law_storage_calls_hold_the_answer(backend, before, address, index, res, after);
    assert forall|other: Address| #[trigger] before.accounts.contains_key(other) implies {
        &&& after.accounts.contains_key(other)
        &&& after.accounts[other].insertion_type == before.accounts[other].insertion_type
        &&& after.accounts[other].state == before.accounts[other].state
    } by {
        assert(other != address ==> account_kept(before, after, other));
    }
    assert forall|other: Address| #[trigger]
        after.accounts.contains_key(other) && !before.accounts.contains_key(other) implies {
        &&& other == address
        &&& after.accounts[other].insertion_type == InsertionType::OnChain
    } by {
        assert(other != address ==> account_kept(before, after, other));
    }
    assert forall|other: Address| #[trigger] before.local_info(other) is None implies
        after.local_info(other) is None by {
        if before.accounts.contains_key(other) {
        } else if after.accounts.contains_key(other) {
        }
    }
}

/// An answer to another question than the one asked changes nothing, and the question stands.
pub proof fn law_other_answers_are_not_taken(
    db: DbView,
    pending: Pending<InfoView>,
    reply: Reply<InfoView, Seq<u8>>,
)
    requires
        !crate::laws::answers(reply, pending.query()),
    ensures
        db.resume(pending, reply) == (Step::Ask(pending), db),
{
}

/// Each piece of pending work waits on the question that it is about.
pub proof fn law_work_asks_what_it_needs(pending: Pending<InfoView>)
    ensures
        match pending {
            Pending::Account { address, .. } => pending.query() == Query::BasicAccount(address),
            Pending::Code { address, .. } => pending.query() == Query::AccountCode(address),
            Pending::Value { address, index, .. } => pending.query() == Query::Storage(
                address,
                index,
            ),
            Pending::SlotAccount { address, .. } => pending.query() == Query::BasicAccount(address),
            Pending::SlotCode { address, .. } => pending.query() == Query::AccountCode(address),
            Pending::InsertAccount { address, .. } => pending.query() == Query::BasicAccount(
                address,
            ),
        },
{
}

/// Data and code that arrive for an account that is not custom by then are given with the balance
/// and the nonce that arrived, and held if they are to be kept, in an account that keeps its type,
/// its state and its storage.
pub proof fn law_late_accounts_are_the_answers(
    db: DbView,
    address: Address,
    account: InfoView,
    code: Option<Seq<u8>>,
    keep: bool,
)
    requires
        db.local_info(address) is None,
    ensures
        db.resume(Pending::Account { address, keep }, Reply::BasicAccount(Some(account))) == (
            Step::Ask(Pending::Code { address, account, keep }),
            db,
        ),
        db.resume(Pending::Account { address, keep }, Reply::BasicAccount(None)) == (
            Step::<InfoView>::Done(Outcome::Info(None)),
            db,
        ),
        ({
            let pending = Pending::Code { address, account, keep };
            let (end, after) = db.resume(pending, Reply::AccountCode(code));
            let held = after.accounts[address];
            &&& end matches Step::Done(Outcome::Info(Some(info))) && {
                &&& info.balance == account.balance
                &&& info.nonce == account.nonce
                &&& info.code == Some(
                    match code {
                        Some(bytes) => bytes,
                        None => Seq::<u8>::empty(),
                    },
                )
                &&& info.code_hash == crate::hashing::code_hash_of(info.code->0)
                &&& keep ==> after.accounts.contains_key(address) && held.info == info
            }
            &&& !keep ==> after == db
            &&& others_kept(db, after, address)
            &&& rest_kept(db, after)
            &&& db.accounts.contains_key(address) ==> {
                &&& held.insertion_type == db.accounts[address].insertion_type
                &&& held.state == db.accounts[address].state
                &&& held.storage == db.accounts[address].storage
            }
        }),
{
}

/// A value that is to be kept and whose account is held by the time of any answer is given and held
/// as an on-chain one, unless the slot is custom by then. The account keeps everything else.
pub proof fn law_late_values_are_held(
    db: DbView,
    pending: Pending<InfoView>,
    reply: Reply<InfoView, Seq<u8>>,
    address: Address,
    index: U256,
    value: U256,
)
    requires
        db.accounts.contains_key(address),
        db.local_slot(address, index) is None,
        crate::laws::answers(reply, pending.query()),
        match pending {
            Pending::Value { address: a, index: i, keep } => a == address && i == index && keep
                && reply == Reply::<InfoView, Seq<u8>>::Storage(value),
            Pending::SlotAccount { address: a, index: i, value: v } => a == address && i == index
                && v == value,
            Pending::SlotCode { address: a, index: i, value: v, .. } => a == address && i == index
                && v == value,
            _ => false,
        },
    ensures
        ({
            let (end, after) = db.resume(pending, reply);
            let before = db.accounts[address];
            let held = after.accounts[address];
            &&& end == Step::<InfoView>::Done(Outcome::Value(value))
            &&& after.accounts.contains_key(address)
            &&& held.storage.contains_key(index)
            &&& held.storage[index].value == value
            &&& held.storage[index].insertion_type == InsertionType::OnChain
            &&& other_slots_kept(before, held, index)
            &&& held.info == before.info
            &&& held.insertion_type == before.insertion_type
            &&& held.state == before.state
            &&& others_kept(db, after, address)
            &&& rest_kept(db, after)
        }),
{
}

/// A value whose account is not held leads to questions for the account and its code, and is given
/// and held once they are answered, in an on-chain account with the data answered and that slot
/// alone. Where there is no account nothing changes.
pub proof fn law_values_wait_for_their_account(
    db: DbView,
    address: Address,
    index: U256,
    value: U256,
    account: InfoView,
    code: Option<Seq<u8>>,
)
    requires
        !db.accounts.contains_key(address),
    ensures
        db.resume(Pending::Value { address, index, keep: true }, Reply::Storage(value)) == (
            Step::<InfoView>::Ask(Pending::SlotAccount { address, index, value }),
            db,
        ),
        db.resume(
            Pending::SlotAccount { address, index, value },
            Reply::BasicAccount(Some(account)),
        ) == (Step::Ask(Pending::SlotCode { address, index, value, account }), db),
        db.resume(Pending::SlotAccount { address, index, value }, Reply::BasicAccount(None)) == (
            Step::<InfoView>::Done(Outcome::NoAccount),
            db,
        ),
        ({
            let pending = Pending::SlotCode { address, index, value, account };
            let (end, after) = db.resume(pending, Reply::AccountCode(code));
            let held = after.accounts[address];
            &&& end == Step::<InfoView>::Done(Outcome::Value(value))
            &&& after.accounts.contains_key(address)
            &&& held.info.balance == account.balance
            &&& held.info.nonce == account.nonce
            &&& held.info.code == Some(
                match code {
                    Some(bytes) => bytes,
                    None => Seq::<u8>::empty(),
                },
            )
            &&& held.info.code_hash == crate::hashing::code_hash_of(held.info.code->0)
            &&& held.insertion_type == InsertionType::OnChain
            &&& only_slot(
                held,
                index,
                NodeDBSlot { value, insertion_type: InsertionType::OnChain },
            )
            &&& others_kept(db, after, address)
            &&& rest_kept(db, after)
        }),
{
}

/// A value that is not to be kept is given as it arrives, unless the slot is custom by then, and
/// nothing changes.
pub proof fn law_unkept_values_are_given(db: DbView, address: Address, index: U256, value: U256)
    requires
        db.local_slot(address, index) is None,
    ensures
        db.resume(Pending::Value { address, index, keep: false }, Reply::Storage(value)) == (
            Step::<InfoView>::Done(Outcome::Value(value)),
            db,
        ),
{
}

/// A slot is put in once its account is answered for: into an account that is held by then and keeps
/// everything else, or into one with exactly the data answered and the type asked for. Where there
/// is no account nothing changes.
pub proof fn law_insertions_hold_the_reply(
    db: DbView,
    address: Address,
    slot: U256,
    value: U256,
    insertion_type: InsertionType,
    found: Option<InfoView>,
)
    ensures
        ({
            let pending = Pending::InsertAccount { address, slot, value, insertion_type };
            let (end, after) = db.resume(pending, Reply::BasicAccount(found));
            let held = after.accounts[address];
            &&& others_kept(db, after, address)
            &&& rest_kept(db, after)
            &&& if db.accounts.contains_key(address) || found is Some {
                &&& end == Step::<InfoView>::Done(Outcome::Inserted)
                &&& after.accounts.contains_key(address)
                &&& held.storage.contains_key(slot)
                &&& held.storage[slot].value == value
                &&& held.storage[slot].insertion_type == InsertionType::Custom
            } else {
                &&& end == Step::<InfoView>::Done(Outcome::NoAccount)
                &&& account_kept(db, after, address)
            }
            &&& if db.accounts.contains_key(address) {
                let before = db.accounts[address];
                &&& other_slots_kept(before, held, slot)
                &&& held.info == before.info
                &&& held.insertion_type == before.insertion_type
                &&& held.state == before.state
            } else {
                found matches Some(account) ==> {
                    &&& held.info.balance == account.balance
                    &&& held.info.nonce == account.nonce
                    &&& held.info.code_hash == account.code_hash
                    &&& held.info.code == account.code
                    &&& held.insertion_type == insertion_type
                    &&& only_slot(
                        held,
                        slot,
                        NodeDBSlot { value, insertion_type: InsertionType::Custom },
                    )
                }
            }
        }),
{
}

/// What starting a task does: custom data ends a read at once with the data held, and anything else
/// is asked for. Reading a slot only records the read. A slot is put at once into a held account,
/// which keeps everything else.
pub proof fn law_tasks_start_as_asked(db: DbView, task: Task)
    ensures
        ({
            let (step, after) = db.start(task);
            match task {
                Task::Basic(address) => {
                    &&& after == db
                    &&& step == match db.local_info(address) {
                        Some(info) => Step::Done(Outcome::Info(Some(info))),
                        None => Step::Ask(Pending::Account { address, keep: true }),
                    }
                },
                Task::BasicRef(address) => {
                    &&& after == db
                    &&& step == match db.local_info(address) {
                        Some(info) => Step::Done(Outcome::Info(Some(info))),
                        None => Step::Ask(Pending::Account { address, keep: false }),
                    }
                },
                Task::Storage(address, index) => {
                    &&& after == db.read_slot(address, index)
                    &&& step == match db.local_slot(address, index) {
                        Some(value) => Step::<InfoView>::Done(Outcome::Value(value)),
                        None => Step::Ask(Pending::Value { address, index, keep: true }),
                    }
                },
                Task::StorageRef(address, index) => {
                    &&& after == db.read_slot(address, index)
                    &&& step == match db.local_slot(address, index) {
                        Some(value) => Step::<InfoView>::Done(Outcome::Value(value)),
                        None => Step::Ask(Pending::Value { address, index, keep: false }),
                    }
                },
                Task::InsertStorage { address, slot, value, insertion_type } => if
                    db.accounts.contains_key(address) {
                    let held = after.accounts[address];
                    &&& step == Step::<InfoView>::Done(Outcome::Inserted)
                    &&& after.accounts.contains_key(address)
                    &&& held.storage.contains_key(slot)
                    &&& held.storage[slot].value == value
                    &&& held.storage[slot].insertion_type == InsertionType::Custom
                    &&& other_slots_kept(db.accounts[address], held, slot)
                    &&& held.info == db.accounts[address].info
                    &&& held.insertion_type == db.accounts[address].insertion_type
                    &&& held.state == db.accounts[address].state
                    &&& others_kept(db, after, address)
                    &&& rest_kept(db, after)
                } else {
                    &&& after == db
                    &&& step == Step::<InfoView>::Ask(
                        Pending::InsertAccount { address, slot, value, insertion_type },
                    )
                },
            }
        }),
{
}

/// A task takes the replies in turn, each to the question that the replies before it led to, and
/// takes none once it has ended.
pub proof fn law_replies_are_taken_in_turn(
    db: DbView,
    task: Task,
    replies: Seq<Reply<InfoView, Seq<u8>>>,
    next: Reply<InfoView, Seq<u8>>,
)
    ensures
        db.run(task, Seq::empty()) == db.start(task),
        db.run(task, replies.push(next)) == match db.run(task, replies).0 {
            Step::Ask(pending) => db.run(task, replies).1.resume(pending, next),
            Step::Done(_) => db.run(task, replies),
        },
{
    lemma_converse_push(db.start(task), replies, next);
}

/// One more reply is taken after the others.
proof fn lemma_converse_push(
    at: (Step<InfoView>, DbView),
    replies: Seq<Reply<InfoView, Seq<u8>>>,
    next: Reply<InfoView, Seq<u8>>,
)
    ensures
        crate::steps::converse(at, replies.push(next)) == match crate::steps::converse(
            at,
            replies,
        ).0 {
            Step::Ask(pending) => crate::steps::converse(at, replies).1.resume(pending, next),
            Step::Done(_) => crate::steps::converse(at, replies),
        },
    decreases replies.len(),
{
    if let Step::Ask(pending) = at.0 {
        let all = replies.push(next);
        if replies.len() == 0 {
            assert(all.drop_first() =~= Seq::empty());
            reveal_with_fuel(crate::steps::converse, 2);
        } else {
            assert(all.drop_first() =~= replies.drop_first().push(next));
            lemma_converse_push(
                at.1.resume(pending, replies[0]),
                replies.drop_first(),
                next,
            );
        }
    }
}

// ---------------------------------------------------------------------------------------------
// Committing
// ---------------------------------------------------------------------------------------------

/// The flags of a change: touched, destroyed and created are the third, second and first bit.
pub proof fn law_flags_are_bits(change: ChangeView)
    ensures
        change.touched() <==> change.status & 0b100 == 0b100,
        change.destroyed() <==> change.status & 0b010 == 0b010,
        change.created() <==> change.status & 0b001 == 0b001,
{
}

/// The last entry for a slot in a list of loaded slots.
pub open spec fn last_entry(
    storage: Seq<(U256, EvmStorageSlot)>,
    j: int,
) -> bool {
    &&& 0 <= j < storage.len()
    &&& forall|k: int| j < k < storage.len() ==> (#[trigger] storage[k]).0 != storage[j].0
}

/// A list of loaded slots leaves behind each slot listed, with the value of its last entry, and no
/// other.
proof fn lemma_last_entries(storage: Seq<(U256, EvmStorageSlot)>)
    ensures
        forall|slot: U256| #[trigger]
            crate::commit::committed_slots(storage).contains_key(slot)
                <==> crate::commit_laws::lists_slot(storage, slot),
        forall|j: int| #[trigger]
            last_entry(storage, j) ==> crate::commit::committed_slots(storage)[storage[j].0] == (
            NodeDBSlot {
                value: storage[j].1.present_value,
                insertion_type: InsertionType::Custom,
            }),
    decreases storage.len(),
{
    if storage.len() > 0 {
        let earlier = storage.drop_last();
        let last = storage.len() - 1;
        lemma_last_entries(earlier);
        assert forall|slot: U256| #[trigger]
            crate::commit::committed_slots(storage).contains_key(slot)
                <==> crate::commit_laws::lists_slot(storage, slot) by {
            if crate::commit_laws::lists_slot(earlier, slot) {
                let i = choose|i: int| 0 <= i < earlier.len() && (#[trigger] earlier[i]).0 == slot;
                assert(storage[i].0 == slot);
            }
            if slot == storage.last().0 {
                assert(storage[last].0 == slot);
            }
            if crate::commit_laws::lists_slot(storage, slot) && slot != storage.last().0 {
                let i = choose|i: int| 0 <= i < storage.len() && (#[trigger] storage[i]).0 == slot;
                assert(earlier[i].0 == slot);
            }
        }
        assert forall|j: int| #[trigger] last_entry(storage, j) implies
            crate::commit::committed_slots(storage)[storage[j].0] == (NodeDBSlot {
            value: storage[j].1.present_value,
            insertion_type: InsertionType::Custom,
        }) by {
            if j < last {
                assert(storage[last].0 != storage[j].0);
                assert(last_entry(earlier, j)) by {
                    assert forall|k: int| j < k < earlier.len() implies (#[trigger] earlier[k]).0
                        != earlier[j].0 by {
                        assert(storage[k].0 != storage[j].0);
                    }
                }
            }
        }
    }
}

/// The hash under which a change leaves its data: the hash of its code where there is code and the
/// change says that there is none, else the hash that the change gives.
pub open spec fn hash_left(info: InfoView) -> B256 {
    match info.code {
        Some(code) => if code.len() > 0 && info.code_hash == B256::keccak_empty() {
            crate::hashing::keccak256_of(code)
        } else {
            info.code_hash
        },
        None => info.code_hash,
    }
}

/// `held` is what a touched account is held as after `change`, where `before` was held before it.
pub open spec fn changed(
    change: ChangeView,
    before: Option<AccountView>,
    held: AccountView,
) -> bool {
    &&& held.insertion_type == match before {
        Some(account) => account.insertion_type,
        None => InsertionType::OnChain,
    }
    &&& if change.status & 0b010 == 0b010 {
        &&& held.info.balance == (U256 { hi: 0, lo: 0 })
        &&& held.info.nonce == 0
        &&& held.info.code_hash == B256::keccak_empty()
        &&& held.info.code == Some(Seq::<u8>::empty())
        &&& held.state == AccountState::NotExisting
        &&& without_storage(held)
    } else {
        &&& held.info.balance == change.info.balance
        &&& held.info.nonce == change.info.nonce
        &&& held.info.code == change.info.code
        &&& held.info.code_hash == hash_left(change.info)
        &&& held.state == if change.status & 0b001 == 0b001 || (before matches Some(account)
            && account.state == AccountState::StorageCleared) {
            AccountState::StorageCleared
        } else {
            AccountState::Touched
        }
        // Each slot that the transaction loaded, with the value that it left.
        &&& forall|j: int| #[trigger]
            last_entry(change.storage, j) ==> {
                &&& held.storage.contains_key(change.storage[j].0)
                &&& held.storage[change.storage[j].0].value == change.storage[j].1.present_value
                &&& held.storage[change.storage[j].0].insertion_type == InsertionType::Custom
            }
        // Of the others those held before, unless the account was created.
        &&& forall|slot: U256|
            !crate::commit_laws::lists_slot(change.storage, slot) ==> if change.status & 0b001
                == 0b001 || before is None {
                !#[trigger] held.storage.contains_key(slot)
            } else {
                slot_kept(before->0, held, slot)
            }
    }
}

/// The change leaves code behind that is held under `hash`, if none is yet.
pub open spec fn leaves_code(change: ChangeView, hash: B256) -> bool {
    &&& change.status & 0b100 == 0b100
    &&& change.status & 0b010 != 0b010
    &&& change.info.code matches Some(code) && code.len() > 0
    &&& hash_left(change.info) == hash
}

/// What taking over one change does. An untouched account changes nothing. A touched one is held
/// with the balance, the nonce, the code and the slots of the change, or empty if it was destroyed,
/// and keeps its type. Its code is held under its hash, unless there is code under it. Nothing else
/// changes.
pub proof fn law_changes_are_held(
    db: DbView,
    address: Address,
    change: ChangeView,
    hash: B256,
)
    ensures
        ({
            let after = db.commit_one(address, change);
            let before = if db.accounts.contains_key(address) {
                Some(db.accounts[address])
            } else {
                None
            };
            &&& others_kept(db, after, address)
            &&& after.accessed == db.accessed
            &&& after.tracing == db.tracing
            &&& if change.status & 0b100 == 0b100 {
                &&& after.accounts.contains_key(address)
                &&& changed(change, before, after.accounts[address])
            } else {
                after == db
            }
            &&& after.contracts.contains_key(hash) <==> db.contracts.contains_key(hash)
                || leaves_code(change, hash)
            &&& db.contracts.contains_key(hash) ==> after.contracts[hash] == db.contracts[hash]
            &&& !db.contracts.contains_key(hash) && leaves_code(change, hash)
                ==> after.contracts[hash] == change.info.code->0
        }),
{
    lemma_last_entries(change.storage);
    let after = db.commit_one(address, change);
    if change.status & 0b100 == 0b100 && change.status & 0b010 != 0b010 {
        let held = after.accounts[address];
        assert forall|j: int| #[trigger] last_entry(change.storage, j) implies {
            &&& held.storage.contains_key(change.storage[j].0)
            &&& held.storage[change.storage[j].0].value == change.storage[j].1.present_value
            &&& held.storage[change.storage[j].0].insertion_type == InsertionType::Custom
        } by {
            let slot = change.storage[j].0;
            assert(crate::commit_laws::lists_slot(change.storage, slot));
            assert(crate::commit::committed_slots(change.storage).contains_key(slot));
        }
    }
}

/// Changes are taken over one after the other, and no change changes nothing.
pub proof fn law_changes_are_taken_in_turn(
    db: DbView,
    changes: Seq<(Address, ChangeView)>,
    others: Seq<(Address, ChangeView)>,
    address: Address,
    change: ChangeView,
)
    ensures
        db.commit_all(Seq::empty()) == db,
        db.commit_all(changes.push((address, change))) == db.commit_all(changes).commit_one(
            address,
            change,
        ),
        db.commit_all(changes + others) == db.commit_all(changes).commit_all(others),
    decreases others.len(),
{
    let all = changes.push((address, change));
    assert(all.drop_last() =~= changes);
    if others.len() == 0 {
        assert(changes + others =~= changes);
    } else {
        let rest = others.drop_last();
        law_changes_are_taken_in_turn(db, changes, rest, address, change);
        assert((changes + others).drop_last() =~= changes + rest);
        assert((changes + others).last() == others.last());
    }
}

/// After a commit each account that was touched is held with the balance, the nonce and the code of
/// its change, field by field, with the code's hash filled in where it was missing, and with the
/// slots of its change, or empty if it was destroyed. Every account that was not touched is kept.
pub proof fn law_committed_accounts_are_the_changes(
    db: DbView,
    changes: Seq<(Address, ChangeView)>,
    address: Address,
)
    requires
        crate::commit_laws::distinct_accounts(changes),
    ensures
        forall|i: int|
            0 <= i < changes.len() && (#[trigger] changes[i]).0 == address
                && changes[i].1.status & 0b100 == 0b100 ==> {
                let after = db.commit_all(changes);
                &&& after.accounts.contains_key(address)
                &&& changed(
                    changes[i].1,
                    if db.accounts.contains_key(address) {
                        Some(db.accounts[address])
                    } else {
                        None
                    },
                    after.accounts[address],
                )
            },
        (forall|i: int|
            0 <= i < changes.len() && (#[trigger] changes[i]).0 == address
                ==> changes[i].1.status & 0b100 != 0b100) ==> account_kept(
            db,
            db.commit_all(changes),
            address,
        ),
        db.commit_all(changes).accessed == db.accessed,
        db.commit_all(changes).tracing == db.tracing,
    decreases changes.len(),
{
    if changes.len() > 0 {
        let earlier = changes.drop_last();
        let last = changes.len() - 1;
        let before = db.commit_all(earlier);
        assert(changes[last] == changes.last());
        assert(crate::commit_laws::distinct_accounts(earlier)) by {
            assert forall|j: int, k: int| 0 <= j < k < earlier.len() implies (
            #[trigger] earlier[j]).0 != (#[trigger] earlier[k]).0 by {
                assert(changes[j].0 != changes[k].0);
            }
        }
        law_committed_accounts_are_the_changes(db, earlier, address);
        law_changes_are_held(before, changes[last].0, changes[last].1, B256::keccak_empty());
        let after = db.commit_all(changes);
        assert(after == before.commit_one(changes[last].0, changes[last].1));
        if changes[last].0 == address {
            assert forall|i: int| 0 <= i < earlier.len() implies (#[trigger] earlier[i]).0
                != address by {
                assert(changes[i].0 != changes[last].0);
            }
            assert(account_kept(db, before, address));
        } else {
            assert(account_kept(before, after, address));
            assert forall|i: int|
                0 <= i < changes.len() && (#[trigger] changes[i]).0 == address
                    && changes[i].1.status & 0b100 == 0b100 implies {
                &&& after.accounts.contains_key(address)
                &&& changed(
                    changes[i].1,
                    if db.accounts.contains_key(address) {
                        Some(db.accounts[address])
                    } else {
                        None
                    },
                    after.accounts[address],
                )
            } by {
                assert(earlier[i] == changes[i]);
            }
            if forall|i: int|
                0 <= i < changes.len() && (#[trigger] changes[i]).0 == address
                    ==> changes[i].1.status & 0b100 != 0b100 {
                assert forall|i: int|
                    0 <= i < earlier.len() && (#[trigger] earlier[i]).0 == address implies
                    earlier[i].1.status & 0b100 != 0b100 by {
                    assert(changes[i].0 == address);
                }
            }
        }
    }
}

/// After a commit code is held under a hash just where it was before or a change left some there. It
/// is the code held before, or else that of the first change that left some there.
pub proof fn law_committed_code_is_that_of_the_changes(
    db: DbView,
    changes: Seq<(Address, ChangeView)>,
    hash: B256,
)
    ensures
        ({
            let after = db.commit_all(changes).contracts;
            &&& after.contains_key(hash) <==> db.contracts.contains_key(hash) || exists|i: int|
                0 <= i < changes.len() && #[trigger] leaves_code(changes[i].1, hash)
            &&& db.contracts.contains_key(hash) ==> after[hash] == db.contracts[hash]
            &&& !db.contracts.contains_key(hash) ==> forall|i: int|
                0 <= i < changes.len() && #[trigger] leaves_code(changes[i].1, hash) && (forall|
                    k: int,
                |
                    0 <= k < i ==> !#[trigger] leaves_code(changes[k].1, hash)) ==> after[hash]
                    == changes[i].1.info.code->0
        }),
    decreases changes.len(),
{
    if changes.len() > 0 {
        let earlier = changes.drop_last();
        let last = changes.len() - 1;
        let before = db.commit_all(earlier);
        assert(changes[last] == changes.last());
        law_committed_code_is_that_of_the_changes(db, earlier, hash);
        law_changes_are_held(before, changes[last].0, changes[last].1, hash);
        assert forall|i: int| 0 <= i < earlier.len() implies #[trigger] leaves_code(
            changes[i].1,
            hash,
        ) == leaves_code(earlier[i].1, hash) by {
            assert(earlier[i] == changes[i]);
        }
        let after = db.commit_all(changes).contracts;
        assert(after.contains_key(hash) <==> db.contracts.contains_key(hash) || exists|i: int|
            0 <= i < changes.len() && #[trigger] leaves_code(changes[i].1, hash)) by {
            if before.contracts.contains_key(hash) && !db.contracts.contains_key(hash) {
                let i = choose|i: int|
                    0 <= i < earlier.len() && #[trigger] leaves_code(earlier[i].1, hash);
                assert(leaves_code(changes[i].1, hash));
            }
            if exists|i: int|
                0 <= i < changes.len() && #[trigger] leaves_code(changes[i].1, hash) {
                let i = choose|i: int|
                    0 <= i < changes.len() && #[trigger] leaves_code(changes[i].1, hash);
                if i < last {
                    assert(leaves_code(earlier[i].1, hash));
                }
            }
        }
        if !db.contracts.contains_key(hash) {
            assert forall|i: int|
                0 <= i < changes.len() && #[trigger] leaves_code(changes[i].1, hash) && (forall|
                    k: int,
                |
                    0 <= k < i ==> !#[trigger] leaves_code(changes[k].1, hash)) implies after[hash]
                == changes[i].1.info.code->0 by {
                if i < last {
                    assert(leaves_code(earlier[i].1, hash));
                    assert forall|k: int| 0 <= k < i implies !#[trigger] leaves_code(
                        earlier[k].1,
                        hash,
                    ) by {
                        assert(!leaves_code(changes[k].1, hash));
                    }
                } else {
                    assert(!before.contracts.contains_key(hash)) by {
                        if before.contracts.contains_key(hash) {
                            let k = choose|k: int|
                                0 <= k < earlier.len() && #[trigger] leaves_code(
                                    earlier[k].1,
                                    hash,
                                );
                            assert(leaves_code(changes[k].1, hash));
                        }
                    }
                }
            }
        }
    }
}

// ---------------------------------------------------------------------------------------------
// Results of calls
// ---------------------------------------------------------------------------------------------

/// What a node's backend gives: the stored value or zero, the stored hash or none, and an account
/// just where one is stored, with the stored balance, nonce and code.
pub proof fn law_stored_data_is_given(
    stored_value: Option<U256>,
    value: U256,
    stored_hash: Option<B256>,
    hash: Result<B256, NodeDBError>,
    stored: Option<StoredAccount>,
    code: Option<Bytecode>,
    info: Option<AccountInfo>,
)
    requires
        call_ensures(crate::provider::storage_value, (stored_value,), value),
        call_ensures(crate::provider::block_hash, (stored_hash,), hash),
        call_ensures(crate::provider::account_info, (stored, code), info),
    ensures
        stored_value matches Some(held) ==> value == held,
        stored_value is None ==> value == (U256 { hi: 0, lo: 0 }),
        stored_hash matches Some(held) ==> hash == Ok::<B256, NodeDBError>(held),
        stored_hash is None ==> hash is Err,
        stored is Some <==> info is Some,
        info matches Some(given) ==> {
            &&& given.balance == stored->0.balance
            &&& given.nonce == stored->0.nonce
            &&& given@.code == Some(
                match code {
                    Some(code) => code.bytes@,
                    None => Seq::<u8>::empty(),
                },
            )
            &&& given.code_hash == crate::hashing::code_hash_of(given@.code->0)
        },
{
}

/// Reading an account without keeping it gives a custom account as it is held, and else what the
/// backend answered: its balance, its nonce and its code, or that there is no account, or its error.
pub proof fn law_account_reads_give_held_or_answered<B: NodeDBBackendSync>(
    db: NodeDB<B>,
    address: Address,
    res: Result<Option<AccountInfo>, B::Error>,
)
    requires
        call_ensures(NodeDB::<B>::basic_ref, (&db, address), res),
    ensures
        if db@.accounts.contains_key(address) && db@.accounts[address].insertion_type
            == InsertionType::Custom {
            res matches Ok(Some(info)) && info@ == db@.accounts[address].info
        } else {
            match res {
                Ok(Some(info)) => made_of_answers(db.chain(), address, info@),
                Ok(None) => call_ensures(B::basic_account, (&db.chain(), address), Ok(None)),
                Err(e) => {
                    ||| call_ensures(B::basic_account, (&db.chain(), address), Err(e))
                    ||| call_ensures(B::account_code, (&db.chain(), address), Err(e))
                },
            }
        },
{
    if db@.local_info(address) is None {
        law_fetched_accounts_are_the_answers(
            db.chain(),
            address,
            crate::backend::info_view(res),
        );
    }
}

/// The slots listed of an account are those recorded under it, each once.
pub proof fn law_listed_slots_are_the_recorded<B>(
    db: NodeDB<B>,
    address: Address,
    res: Result<Vec<U256>, NodeDBError>,
    slot: U256,
)
    requires
        call_ensures(NodeDB::<B>::get_accessed_slots, (&db, address), res),
    ensures
        res matches Ok(slots) && slots@.no_duplicates() && (slots@.contains(slot)
            <==> db@.accessed.contains_key(address) && db@.accessed[address].contains(slot)),
{
    let slots = res->Ok_0@;
    assert(slots.to_set().contains(slot) <==> slots.contains(slot));
}

/// The hash of a block is the backend's answer.
pub proof fn law_block_hashes_are_the_answers<B: NodeDBBackendSync>(
    db: NodeDB<B>,
    number: u64,
    res: Result<B256, B::Error>,
)
    requires
        call_ensures(NodeDB::<B>::block_hash_ref, (&db, number), res),
    ensures
        call_ensures(B::block_hash, (&db.chain(), number), res),
{
}

/// A runtime can be waited on just where there is one and it has several threads.
pub proof fn law_waiting_needs_several_threads(running_in: Option<RuntimeFlavor>, res: bool)
    requires
        call_ensures(crate::bridge::may_wait, (running_in,), res),
    ensures
        res <==> running_in is Some && running_in->0 is MultiThread,
{
}

/// Whether the view is renewed depends on the last block alone: it is if that is newer, it is not if
/// not, and an unknown last block is an error.
pub proof fn law_renewal_follows_the_last_block<E>(
    current: Result<u64, E>,
    db_block: u64,
    res: Result<Option<u64>, E>,
)
    requires
        call_ensures(crate::provider::newer_block::<E>, (current, db_block), res),
    ensures
        match current {
            Ok(block) => if block > db_block {
                res == Ok::<Option<u64>, E>(Some(block))
            } else {
                res == Ok::<Option<u64>, E>(None)
            },
            Err(e) => res == Err::<Option<u64>, E>(e),
        },
{
}

} // verus!
