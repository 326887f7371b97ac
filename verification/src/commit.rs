//! Taking over what an executed transaction changed.

use vstd::prelude::*;

use crate::account::{
    AccountInfo, AccountState, AccountView, Bytecode, InfoView, NodeDBAccount, NodeDBSlot,
};
use crate::db::{DbView, NodeDB};
use crate::primitives::{Address, B256, U256};
use crate::wide_map::WideMap;

verus! {

/// The account was created by the transaction.
pub const ACCOUNT_CREATED: u8 = 0b001;

/// The account was destroyed by the transaction.
pub const ACCOUNT_SELF_DESTRUCTED: u8 = 0b010;

/// The account was touched by the transaction. Only touched accounts are taken over.
pub const ACCOUNT_TOUCHED: u8 = 0b100;

/// Every bit of `flag` is set in `status`.
pub open spec fn has_status(status: u8, flag: u8) -> bool {
    status & flag == flag
}

/// A storage slot that a transaction loaded.
#[derive(Clone, Copy, PartialEq, Eq, Structural, Debug)]
pub struct EvmStorageSlot {
    /// The value that the transaction leaves in the slot.
    pub present_value: U256,
}

impl EvmStorageSlot {
    /// The value that the transaction leaves in the slot.
    pub fn present_value(&self) -> (res: U256)
        ensures
            res == self.present_value,
    {
        self.present_value
    }
}

/// An account that a transaction loaded.
#[derive(Debug)]
pub struct Account {
    /// The account's data as the transaction leaves it.
    pub info: AccountInfo,
    /// The storage slots that the transaction loaded, in any order.
    pub storage: Vec<(U256, EvmStorageSlot)>,
    /// What the transaction did to the account, as a set of flags.
    pub status: u8,
}

/// The content of an [`Account`].
#[verifier::ext_equal]
pub struct ChangeView {
    pub info: InfoView,
    pub storage: Seq<(U256, EvmStorageSlot)>,
    pub status: u8,
}

impl View for Account {
    type V = ChangeView;

    open spec fn view(&self) -> ChangeView {
        ChangeView { info: self.info@, storage: self.storage@, status: self.status }
    }
}

impl Account {
    /// Tells whether the transaction touched the account.
    pub fn is_touched(&self) -> (res: bool)
        ensures
            res == has_status(self.status, ACCOUNT_TOUCHED),
    {
        self.status & ACCOUNT_TOUCHED == ACCOUNT_TOUCHED
    }

    /// Tells whether the transaction destroyed the account.
    pub fn is_selfdestructed(&self) -> (res: bool)
        ensures
            res == has_status(self.status, ACCOUNT_SELF_DESTRUCTED),
    {
        self.status & ACCOUNT_SELF_DESTRUCTED == ACCOUNT_SELF_DESTRUCTED
    }

    /// Tells whether the transaction created the account.
    pub fn is_created(&self) -> (res: bool)
        ensures
            res == has_status(self.status, ACCOUNT_CREATED),
    {
        self.status & ACCOUNT_CREATED == ACCOUNT_CREATED
    }
}

/// The slots that a list of loaded slots leaves behind, each marked custom. Where a slot is listed
/// twice the later value counts.
pub open spec fn committed_slots(storage: Seq<(U256, EvmStorageSlot)>) -> Map<U256, NodeDBSlot>
    decreases storage.len(),
{
    if storage.len() == 0 {
        Map::empty()
    } else {
        committed_slots(storage.drop_last()).insert(
            storage.last().0,
            NodeDBSlot::custom(storage.last().1.present_value),
        )
    }
}

impl ChangeView {
    /// The account was touched: the change counts.
    pub open spec fn touched(self) -> bool {
        has_status(self.status, ACCOUNT_TOUCHED)
    }

    /// The account was destroyed.
    pub open spec fn destroyed(self) -> bool {
        has_status(self.status, ACCOUNT_SELF_DESTRUCTED)
    }

    /// The account was created.
    pub open spec fn created(self) -> bool {
        has_status(self.status, ACCOUNT_CREATED)
    }

    /// The change leaves code behind.
    pub open spec fn deploys(self) -> bool {
        &&& self.touched()
        &&& !self.destroyed()
        &&& self.info.code matches Some(code) && code.len() > 0
    }

    /// The account's data with its code's hash filled in where there is code and the hash says that
    /// there is none.
    pub open spec fn hashed_info(self) -> InfoView {
        match self.info.code {
            Some(code) => if code.len() > 0 && self.info.code_hash == B256::keccak_empty() {
                InfoView { code_hash: crate::hashing::code_hash_of(code), ..self.info }
            } else {
                self.info
            },
            None => self.info,
        }
    }

    /// The account that a change turns a held one into, or a blank one where none is held. A
    /// destroyed account loses its data and storage. Any other takes over data and storage, and
    /// has lost its earlier storage if it was created; that its storage was once cleared is
    /// remembered.
    pub open spec fn applied(self, held: Option<AccountView>) -> AccountView {
        let before = match held {
            Some(account) => account,
            None => AccountView::blank(),
        };
        if self.destroyed() {
            AccountView {
                info: InfoView::empty(),
                state: AccountState::NotExisting,
                storage: Map::empty(),
                ..before
            }
        } else {
            AccountView {
                info: self.hashed_info(),
                state: if self.created() || before.state == AccountState::StorageCleared {
                    AccountState::StorageCleared
                } else {
                    AccountState::Touched
                },
                storage: (if self.created() {
                    Map::empty()
                } else {
                    before.storage
                }).union_prefer_right(committed_slots(self.storage)),
                ..before
            }
        }
    }
}

impl DbView {
    /// The account that is held at an address.
    pub open spec fn held(self, address: Address) -> Option<AccountView> {
        if self.accounts.contains_key(address) {
            Some(self.accounts[address])
        } else {
            None
        }
    }

    /// The content after the change of one account was taken over. Code is kept under its hash,
    /// unless there is code under that hash already.
    pub open spec fn commit_one(self, address: Address, change: ChangeView) -> Self {
        if !change.touched() {
            self
        } else {
            let hash = change.hashed_info().code_hash;
            DbView {
                accounts: self.accounts.insert(address, change.applied(self.held(address))),
                contracts: if change.deploys() && !self.contracts.contains_key(hash) {
                    self.contracts.insert(hash, change.info.code->0)
                } else {
                    self.contracts
                },
                ..self
            }
        }
    }

    /// The content after changes were taken over one after the other.
    pub open spec fn commit_all(self, changes: Seq<(Address, ChangeView)>) -> Self
        decreases changes.len(),
    {
        if changes.len() == 0 {
            self
        } else {
            self.commit_all(changes.drop_last()).commit_one(changes.last().0, changes.last().1)
        }
    }
}

/// The content of a list of changes.
pub open spec fn changes_view(changes: Seq<(Address, Account)>) -> Seq<(Address, ChangeView)> {
    Seq::new(changes.len(), |i: int| (changes[i].0, changes[i].1@))
}

/// Writes the slots that a transaction loaded over those that an account holds.
fn extend_storage(
    storage: &mut WideMap<U256, NodeDBSlot>,
    loaded: &Vec<(U256, EvmStorageSlot)>,
)
    ensures
        final(storage)@ == old(storage)@.union_prefer_right(committed_slots(loaded@)),
{
    assert(loaded@.take(0) =~= Seq::empty());
    assert(storage@ =~= storage@.union_prefer_right(committed_slots(loaded@.take(0))));
    for i in 0..loaded.len()
        invariant
            storage@ == old(storage)@.union_prefer_right(committed_slots(loaded@.take(i as int))),
    {
        let (key, slot) = loaded[i];
        storage.insert(key, NodeDBSlot::custom(slot.present_value()));
        assert(loaded@.take(i + 1).drop_last() =~= loaded@.take(i as int));
        assert(storage@ =~= old(storage)@.union_prefer_right(
            committed_slots(loaded@.take(i + 1)),
        ));
    }
    assert(loaded@.take(loaded@.len() as int) =~= loaded@);
}

impl<B> NodeDB<B> {
    /// Takes over the change of one account.
    fn commit_account(&mut self, address: Address, account: Account)
        ensures
            final(self)@ == old(self)@.commit_one(address, account@),
            final(self).chain() == old(self).chain(),
    {
        if !account.is_touched() {
            return;
        }
        let destroyed = account.is_selfdestructed();
        let created = account.is_created();
        let mut info = account.info;
        if !destroyed {
            if let Some(code) = &info.code {
                if !code.is_empty() {
                    if info.code_hash == B256::keccak_empty() {
                        info.code_hash = code.hash_slow();
                    }
                    if !self.contracts.contains_key(&info.code_hash) {
                        self.contracts.insert(info.code_hash, code.clone());
                    }
                }
            }
        }
        let mut db_account = match self.accounts.remove(&address) {
            Some(held) => held,
            None => NodeDBAccount::default(),
        };
        if destroyed {
            db_account.storage.clear();
            db_account.state = AccountState::NotExisting;
            db_account.info = AccountInfo::default();
        } else {
            db_account.info = info;
            db_account.state = if created {
                db_account.storage.clear();
                AccountState::StorageCleared
            } else if db_account.state.is_storage_cleared() {
                AccountState::StorageCleared
            } else {
                AccountState::Touched
            };
            extend_storage(&mut db_account.storage, &account.storage);
        }
        self.accounts.insert(address, db_account);
        assert(self@ =~= old(self)@.commit_one(address, account@));
    }

    /// Takes over what a transaction changed, one account after the other.
    pub fn commit(&mut self, changes: Vec<(Address, Account)>)
        ensures
            final(self)@ == old(self)@.commit_all(changes_view(changes@)),
            final(self).chain() == old(self).chain(),
    {
        let ghost all = changes_view(changes@);
        for change in it: changes
            invariant
                self.chain() == old(self).chain(),
                all == changes_view(changes@),
                it.seq() == changes@,
                self@ == old(self)@.commit_all(all.take(it.index())),
        {
            let (address, account) = change;
            self.commit_account(address, account);
            assert(all.take(it.index() + 1).drop_last() =~= all.take(it.index()));
        }
        assert(all.take(all.len() as int) =~= all);
    }
}

} // verus!
