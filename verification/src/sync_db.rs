//! Reads and insertions over a backend that answers at once.

use vstd::prelude::*;

use crate::account::{AccountInfo, Bytecode, InsertionType, NodeDBSlot};
use crate::backend::NodeDBBackendSync;
use crate::db::NodeDB;
use crate::error::NodeDBError;
use crate::primitives::{Address, B256, U256};

verus! {

impl<B: NodeDBBackendSync> NodeDB<B> {
    /// Gives the data of an account: that of a custom account as it is held, else that of the
    /// chain. Nothing is kept.
    pub fn basic_ref(&self, address: Address) -> (res: Result<Option<AccountInfo>, B::Error>)
        ensures
            match self@.local_info(address) {
                Some(info) => crate::backend::info_view(res) == Ok::<_, B::Error>(Some(info)),
                None => crate::backend::chain_info(
                    self.chain(),
                    address,
                    crate::backend::info_view(res),
                ),
            },
    {
        if let Some(info) = self.custom_info(address) {
            return Ok(Some(info));
        }
        let account = self.backend.basic_account(address);
        assert(call_ensures(B::basic_account, (&self.chain(), address), account));
        let ghost unasked: Result<Option<Bytecode>, B::Error> = Ok(None);
        let ghost without_code = crate::backend::fetched_info(account, unasked);
        match account {
            Err(e) => Err(e),
            Ok(None) => Ok(None),
            Ok(Some(info)) => {
                let code = self.backend.account_code(address);
                assert(call_ensures(B::account_code, (&self.chain(), address), code));
                let ghost with_code = crate::backend::fetched_info(account, code);
                match code {
                    Err(e) => Err(e),
                    Ok(code) => Ok(Some(info.with_fetched_code(code))),
                }
            },
        }
    }

    /// Gives the data of an account: that of a custom account as it is held, else that of the
    /// chain, which is taken over.
    pub fn basic(&mut self, address: Address) -> (res: Result<Option<AccountInfo>, B::Error>)
        ensures
            final(self).chain() == old(self).chain(),
            match old(self)@.local_info(address) {
                Some(info) => {
                    &&& crate::backend::info_view(res) == Ok::<_, B::Error>(Some(info))
                    &&& final(self)@ == old(self)@
                },
                None => {
                    &&& crate::backend::chain_info(
                        old(self).chain(),
                        address,
                        crate::backend::info_view(res),
                    )
                    &&& final(self)@ == match res {
                        Ok(Some(info)) => old(self)@.record_info(address, info@),
                        _ => old(self)@,
                    }
                },
            },
    {
        if let Some(info) = self.custom_info(address) {
            return Ok(Some(info));
        }
        let fetched = self.basic_ref(address);
        if let Ok(Some(info)) = &fetched {
            self.record_info(address, info.clone());
        }
        fetched
    }

    /// Refuses: accounts carry their code.
    pub fn code_by_hash(&mut self, _hash: B256) -> (res: Result<Bytecode, B::Error>) where
        B::Error: From<NodeDBError>,

        ensures
            final(self)@ == old(self)@,
            final(self).chain() == old(self).chain(),
            crate::backend::code_refused(res),
    {
        self.code_by_hash_ref(_hash)
    }

    /// Refuses: accounts carry their code.
    pub fn code_by_hash_ref(&self, _hash: B256) -> (res: Result<Bytecode, B::Error>) where
        B::Error: From<NodeDBError>,

        ensures
            crate::backend::code_refused(res),
    {
        let error = NodeDBError::code_by_hash();
        let e = <B::Error as From<NodeDBError>>::from(error);
        let res: Result<Bytecode, B::Error> = Err(e);
        assert(call_ensures(<B::Error as From<NodeDBError>>::from, (error,), res->Err_0));
        res
    }

    /// Gives the value of a storage slot, and `None` where neither the database nor the chain has
    /// such an account. A custom slot is answered as it is held; any other is fetched, and kept as
    /// an on-chain one.
    pub fn try_storage(&mut self, address: Address, index: U256) -> (res: Result<
        Option<U256>,
        B::Error,
    >)
        ensures
            final(self).chain() == old(self).chain(),
            crate::backend::storage_read(
                old(self).chain(),
                old(self)@,
                address,
                index,
                res,
                final(self)@,
            ),
    {
        self.record_read(address, index);
        if let Some(value) = self.custom_value(address, index) {
            return Ok(Some(value));
        }
        let fetched = self.backend.storage(address, index);
        assert(call_ensures(B::storage, (&self.chain(), address, index), fetched));
        let value = match fetched {
            Err(e) => {
                return Err(e);
            },
            Ok(value) => value,
        };
        let slot = NodeDBSlot::on_chain(value);
        if self.put_slot(address, index, slot) {
            return Ok(Some(value));
        }
        let info = self.basic(address);
        assert(crate::backend::chain_info(
            old(self).chain(),
            address,
            crate::backend::info_view(info),
        ));
        match info {
            Err(e) => Err(e),
            Ok(None) => Ok(None),
            Ok(Some(_)) => {
                let _ = self.put_slot(address, index, slot);
                Ok(Some(value))
            },
        }
    }

    /// Gives the value of a storage slot of an account that the database holds or the chain has, or
    /// the error of a chain that fails for the slot.
    pub fn storage(&mut self, address: Address, index: U256) -> (res: Result<U256, B::Error>)
        requires
            old(self)@.accounts.contains_key(address) || crate::backend::account_known(
                old(self).chain(),
                address,
            ) || crate::backend::storage_fails(old(self).chain(), address, index),
        ensures
            final(self).chain() == old(self).chain(),
            crate::backend::storage_read(
                old(self).chain(),
                old(self)@,
                address,
                index,
                (match res {
                    Ok(value) => Ok(Some(value)),
                    Err(e) => Err(e),
                }),
                final(self)@,
            ),
    {
        match self.try_storage(address, index) {
            Ok(Some(value)) => Ok(value),
            Ok(None) => {
                assert(false);
                Ok(U256::zero())
            },
            Err(e) => Err(e),
        }
    }

    /// Gives the value of a storage slot: that of a custom slot as it is held, else that of the
    /// chain. Nothing is kept but the record of the read, for which the database is taken mutably.
    pub fn storage_ref(&mut self, address: Address, index: U256) -> (res: Result<U256, B::Error>)
        ensures
            final(self).chain() == old(self).chain(),
            final(self)@ == old(self)@.read_slot(address, index),
            match old(self)@.local_slot(address, index) {
                Some(value) => res == Ok::<U256, B::Error>(value),
                None => call_ensures(B::storage, (&old(self).chain(), address, index), res),
            },
    {
        self.record_read(address, index);
        if let Some(value) = self.custom_value(address, index) {
            return Ok(value);
        }
        self.backend.storage(address, index)
    }

    /// Gives the hash of a block, as the chain has it.
    pub fn block_hash(&mut self, number: u64) -> (res: Result<B256, B::Error>)
        ensures
            final(self)@ == old(self)@,
            final(self).chain() == old(self).chain(),
            call_ensures(B::block_hash, (&old(self).chain(), number), res),
    {
        self.block_hash_ref(number)
    }

    /// Gives the hash of a block, as the chain has it.
    pub fn block_hash_ref(&self, number: u64) -> (res: Result<B256, B::Error>)
        ensures
            call_ensures(B::block_hash, (&self.chain(), number), res),
    {
        self.backend.block_hash(number)
    }

    /// Puts a storage slot in as a custom one, and tells whether the database or the chain has
    /// such an account. An account that is not held is fetched and put in with `insertion_type`.
    pub fn try_insert_account_storage(
        &mut self,
        account_address: Address,
        slot: U256,
        value: U256,
        insertion_type: InsertionType,
    ) -> (res: Result<bool, B::Error>)
        ensures
            final(self).chain() == old(self).chain(),
            crate::backend::storage_inserted(
                old(self).chain(),
                old(self)@,
                account_address,
                slot,
                value,
                insertion_type,
                res,
                final(self)@,
            ),
    {
        let slot_value = NodeDBSlot::custom(value);
        if self.put_slot(account_address, slot, slot_value) {
            return Ok(true);
        }
        let account = self.backend.basic_account(account_address);
        assert(call_ensures(B::basic_account, (&self.chain(), account_address), account));
        match account {
            Err(e) => Err(e),
            Ok(None) => Ok(false),
            Ok(Some(info)) => {
                self.insert_account_info(account_address, info, insertion_type);
                let _ = self.put_slot(account_address, slot, slot_value);
                Ok(true)
            },
        }
    }
}

/// A database into which storage slots can be put.
pub trait NodeDBStorageSync: Sized {
    /// What a failed insertion gives.
    type Error;

    /// The account at `address` is held, or can be had.
    spec fn has_account(self, address: Address) -> bool;

    /// `self` turns into `after` when a storage slot is put in with the outcome `res`.
    spec fn inserts_storage(
        self,
        account_address: Address,
        slot: U256,
        value: U256,
        insertion_type: InsertionType,
        res: Result<(), Self::Error>,
        after: Self,
    ) -> bool;

    /// Puts a storage slot in.
    fn insert_account_storage(
        &mut self,
        account_address: Address,
        slot: U256,
        value: U256,
        insertion_type: InsertionType,
    ) -> (res: Result<(), Self::Error>)
        requires
            old(self).has_account(account_address),
        ensures
            old(self).inserts_storage(
                account_address,
                slot,
                value,
                insertion_type,
                res,
                *final(self),
            ),
    ;
}

impl<B: NodeDBBackendSync> NodeDBStorageSync for NodeDB<B> {
    type Error = B::Error;

    open spec fn has_account(self, address: Address) -> bool {
        self@.accounts.contains_key(address) || crate::backend::account_known(
            self.chain(),
            address,
        )
    }

    open spec fn inserts_storage(
        self,
        account_address: Address,
        slot: U256,
        value: U256,
        insertion_type: InsertionType,
        res: Result<(), B::Error>,
        after: Self,
    ) -> bool {
        &&& after.chain() == self.chain()
        &&& crate::backend::storage_inserted(
            self.chain(),
            self@,
            account_address,
            slot,
            value,
            insertion_type,
            match res {
                Ok(()) => Ok(true),
                Err(e) => Err(e),
            },
            after@,
        )
    }

    fn insert_account_storage(
        &mut self,
        account_address: Address,
        slot: U256,
        value: U256,
        insertion_type: InsertionType,
    ) -> (res: Result<(), B::Error>) {
        match self.try_insert_account_storage(account_address, slot, value, insertion_type) {
            Ok(true) => Ok(()),
            Ok(false) => {
                assert(false);
                Ok(())
            },
            Err(e) => Err(e),
        }
    }
}

} // verus!
