//! The database: accounts and storage slots that were fetched from the chain or put in by the
//! caller, the code that execution deployed, and the record of which slots were read.

use std::sync::Arc;

use vstd::prelude::*;

use crate::account::{
    AccountInfo, AccountView, Bytecode, InfoView, InsertionType, NodeDBAccount, NodeDBSlot,
};
use crate::error::NodeDBError;
use crate::primitives::{Address, B256, U256};
use crate::wide_map::WideMap;

verus! {

/// The content of a [`NodeDB`].
#[verifier::ext_equal]
pub struct DbView {
    /// The accounts that are held locally.
    pub accounts: Map<Address, AccountView>,
    /// The code that execution deployed, by its hash.
    pub contracts: Map<B256, Seq<u8>>,
    /// The storage slots that were read, by account.
    pub accessed: Map<Address, Set<U256>>,
    /// Whether reads of storage slots are recorded.
    pub tracing: bool,
}

impl DbView {
    /// The content of a database that holds nothing.
    pub open spec fn init() -> Self {
        DbView {
            accounts: Map::empty(),
            contracts: Map::empty(),
            accessed: Map::empty(),
            tracing: false,
        }
    }

    /// The account data that is answered without asking the chain: that of a custom account.
    pub open spec fn local_info(self, address: Address) -> Option<InfoView> {
        if self.accounts.contains_key(address) && self.accounts[address].insertion_type
            == InsertionType::Custom {
            Some(self.accounts[address].info)
        } else {
            None
        }
    }

    /// The storage value that is answered without asking the chain: that of a custom slot.
    pub open spec fn local_slot(self, address: Address, index: U256) -> Option<U256> {
        if self.accounts.contains_key(address) && self.accounts[address].storage.contains_key(index)
            && self.accounts[address].storage[index].insertion_type == InsertionType::Custom {
            Some(self.accounts[address].storage[index].value)
        } else {
            None
        }
    }

    /// The content after an account was put in anew, in place of any earlier one.
    pub open spec fn put_account(
        self,
        address: Address,
        info: InfoView,
        insertion_type: InsertionType,
    ) -> Self {
        DbView {
            accounts: self.accounts.insert(address, AccountView::fresh(info, insertion_type)),
            ..self
        }
    }

    /// The content after account data arrived from the chain: a held account takes it over and
    /// keeps everything else, an unknown account is put in as an on-chain one.
    pub open spec fn record_info(self, address: Address, info: InfoView) -> Self {
        if self.accounts.contains_key(address) {
            DbView {
                accounts: self.accounts.insert(
                    address,
                    AccountView { info, ..self.accounts[address] },
                ),
                ..self
            }
        } else {
            self.put_account(address, info, InsertionType::OnChain)
        }
    }

    /// The content after a storage slot of a held account was set.
    pub open spec fn put_slot(self, address: Address, index: U256, slot: NodeDBSlot) -> Self {
        let account = self.accounts[address];
        DbView {
            accounts: self.accounts.insert(
                address,
                AccountView { storage: account.storage.insert(index, slot), ..account },
            ),
            ..self
        }
    }

    /// The content after a storage slot was put in by the caller, into an account that is put in
    /// first where it is not held: `account` is then its fetched data.
    pub open spec fn insert_slot(
        self,
        address: Address,
        slot: U256,
        value: U256,
        insertion_type: InsertionType,
        account: InfoView,
    ) -> Self {
        let held = if self.accounts.contains_key(address) {
            self
        } else {
            self.put_account(address, account, insertion_type)
        };
        held.put_slot(address, slot, NodeDBSlot::custom(value))
    }

    /// The value that reading a storage slot gives, and the content it leaves behind, where the
    /// chain says `value` of the slot and `info` of the account. A custom slot is answered as it is
    /// held. Any other value is that of the chain, and is kept as such; an account that is not held
    /// is put in first. Where there is no account nothing is kept and there is no value.
    pub open spec fn storage_result(
        self,
        address: Address,
        index: U256,
        value: U256,
        info: Option<InfoView>,
    ) -> (Option<U256>, Self) {
        let read = self.read_slot(address, index);
        if self.local_slot(address, index) is Some {
            (self.local_slot(address, index), read)
        } else if self.accounts.contains_key(address) {
            (Some(value), read.put_slot(address, index, NodeDBSlot::on_chain(value)))
        } else {
            match info {
                Some(info) => (
                    Some(value),
                    read.record_info(address, info).put_slot(
                        address,
                        index,
                        NodeDBSlot::on_chain(value),
                    ),
                ),
                None => (None, read),
            }
        }
    }

    /// The slots of an account that were read while reads were recorded.
    pub open spec fn slots_read(self, address: Address) -> Set<U256> {
        if self.accessed.contains_key(address) {
            self.accessed[address]
        } else {
            Set::empty()
        }
    }

    /// The content after a storage slot was read: the read is recorded if reads are recorded.
    pub open spec fn read_slot(self, address: Address, index: U256) -> Self {
        if self.tracing {
            DbView {
                accessed: self.accessed.insert(address, self.slots_read(address).insert(index)),
                ..self
            }
        } else {
            self
        }
    }

    /// The content after the recording of reads was started anew.
    pub open spec fn start_tracing(self) -> Self {
        DbView { accessed: Map::empty(), tracing: true, ..self }
    }

    /// The content after the recording of reads was stopped.
    pub open spec fn stop_tracing(self) -> Self {
        DbView { tracing: false, ..self }
    }
}

/// A database over a chain backend.
pub struct NodeDB<B> {
    pub(crate) backend: Arc<B>,
    pub(crate) accounts: WideMap<Address, NodeDBAccount>,
    pub(crate) contracts: WideMap<B256, Bytecode>,
    pub(crate) accessed_slots: WideMap<Address, WideMap<U256, ()>>,
    pub(crate) tracing_enabled: bool,
}

impl<B> View for NodeDB<B> {
    type V = DbView;

    open(crate) spec fn view(&self) -> DbView {
        DbView {
            accounts: self.accounts@.map_values(|account: NodeDBAccount| account@),
            contracts: self.contracts@.map_values(|code: Bytecode| code@),
            accessed: self.accessed_slots@.map_values(|slots: WideMap<U256, ()>| slots@.dom()),
            tracing: self.tracing_enabled,
        }
    }
}

impl<B> NodeDB<B> {
    /// The backend that answers for the chain.
    pub open(crate) spec fn chain(&self) -> B {
        *self.backend
    }

    /// Makes a database over `backend` that holds nothing.
    pub fn new(backend: B) -> (res: Self)
        ensures
            res@ == DbView::init(),
            res.chain() == backend,
    {
        let res = NodeDB {
            backend: Arc::new(backend),
            accounts: WideMap::new(),
            contracts: WideMap::new(),
            accessed_slots: WideMap::new(),
            tracing_enabled: false,
        };
        assert(res@ =~= DbView::init());
        res
    }

    /// The backend that answers for the chain.
    pub fn backend(&self) -> (res: &Arc<B>)
        ensures
            *res == self.chain(),
    {
        &self.backend
    }

    /// Starts to record which storage slots are read, and forgets the reads recorded so far.
    pub fn enable_tracing(&mut self) -> (res: Result<(), NodeDBError>)
        ensures
            res is Ok,
            final(self)@ == old(self)@.start_tracing(),
            final(self).chain() == old(self).chain(),
    {
        self.tracing_enabled = true;
        self.accessed_slots.clear();
        assert(self@ =~= old(self)@.start_tracing());
        Ok(())
    }

    /// Stops to record reads. What was recorded is kept.
    pub fn disable_tracing(&mut self)
        ensures
            final(self)@ == old(self)@.stop_tracing(),
            final(self).chain() == old(self).chain(),
    {
        self.tracing_enabled = false;
        assert(self@ =~= old(self)@.stop_tracing());
    }

    /// Lists each slot of an account that was read while reads were recorded, once, in no
    /// particular order.
    pub fn get_accessed_slots(&self, target_address: Address) -> (res: Result<
        Vec<U256>,
        NodeDBError,
    >)
        ensures
            res matches Ok(slots) && slots@.no_duplicates() && slots@.to_set()
                == self@.slots_read(target_address),
    {
        let slots: Vec<U256> = match self.accessed_slots.get(&target_address) {
            Some(slots) => slots.keys(),
            None => Vec::new(),
        };
        assert(slots@.to_set() =~= self@.slots_read(target_address));
        Ok(slots)
    }

    /// Puts an account in, in place of any earlier one and of its storage.
    pub fn insert_account_info(
        &mut self,
        account_address: Address,
        account_info: AccountInfo,
        insertion_type: InsertionType,
    )
        ensures
            final(self)@ == old(self)@.put_account(
                account_address,
                account_info@,
                insertion_type,
            ),
            final(self)@.accounts.contains_key(account_address),
            final(self)@.accounts[account_address].info == account_info@,
            final(self)@.accounts[account_address].insertion_type == insertion_type,
            final(self)@.accounts[account_address].storage == Map::<U256, NodeDBSlot>::empty(),
            final(self).chain() == old(self).chain(),
    {
        let mut new_account = NodeDBAccount::new(insertion_type);
        new_account.info = account_info;
        self.accounts.insert(account_address, new_account);
        assert(self@ =~= old(self)@.put_account(account_address, account_info@, insertion_type));
    }

    /// Looks for account data that is answered without asking the chain.
    pub(crate) fn custom_info(&self, address: Address) -> (res: Option<AccountInfo>)
        ensures
            match res {
                Some(info) => self@.local_info(address) == Some(info@),
                None => self@.local_info(address) is None,
            },
    {
        if let Some(account) = self.accounts.get(&address) {
            if account.insertion_type == InsertionType::Custom {
                return Some(account.info.clone());
            }
        }
        None
    }

    /// Looks for a storage value that is answered without asking the chain.
    pub(crate) fn custom_value(&self, address: Address, index: U256) -> (res: Option<U256>)
        ensures
            res == self@.local_slot(address, index),
    {
        if let Some(account) = self.accounts.get(&address) {
            if let Some(slot) = account.storage.get(&index) {
                if slot.insertion_type == InsertionType::Custom {
                    return Some(slot.value);
                }
            }
        }
        None
    }

    /// Takes over account data that arrived from the chain.
    pub(crate) fn record_info(&mut self, address: Address, info: AccountInfo)
        ensures
            final(self)@ == old(self)@.record_info(address, info@),
            final(self).chain() == old(self).chain(),
    {
        match self.accounts.remove(&address) {
            Some(found) => {
                let mut account = found;
                account.info = info;
                self.accounts.insert(address, account);
            },
            None => {
                self.insert_account_info(address, info, InsertionType::OnChain);
            },
        }
        assert(self@ =~= old(self)@.record_info(address, info@));
    }

    /// Sets a storage slot of an account if the account is held, and tells whether it is.
    pub(crate) fn put_slot(&mut self, address: Address, index: U256, slot: NodeDBSlot) -> (res:
        bool)
        ensures
            res == old(self)@.accounts.contains_key(address),
            final(self)@ == (if res {
                old(self)@.put_slot(address, index, slot)
            } else {
                old(self)@
            }),
            final(self).chain() == old(self).chain(),
    {
        match self.accounts.remove(&address) {
            Some(found) => {
                let mut account = found;
                account.storage.insert(index, slot);
                self.accounts.insert(address, account);
                assert(self@ =~= old(self)@.put_slot(address, index, slot));
                true
            },
            None => {
                assert(self@ =~= old(self)@);
                false
            },
        }
    }

    /// Records that a storage slot is read, if reads are recorded.
    pub(crate) fn record_read(&mut self, address: Address, index: U256)
        ensures
            final(self)@ == old(self)@.read_slot(address, index),
            final(self).chain() == old(self).chain(),
    {
        if self.tracing_enabled {
            let mut slots = match self.accessed_slots.remove(&address) {
                Some(slots) => slots,
                None => WideMap::new(),
            };
            slots.insert(index, ());
            self.accessed_slots.insert(address, slots);
        }
        assert(self@ =~= old(self)@.read_slot(address, index));
    }
}

} // verus!
