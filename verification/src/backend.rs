//! The chain, as the database asks it.

use vstd::prelude::*;

use crate::account::{AccountInfo, Bytecode, InfoView, InsertionType, NodeDBSlot};
use crate::db::DbView;
use crate::error::NodeDBError;
use crate::primitives::{Address, B256, U256};

verus! {

/// A source of on-chain data that answers at once.
///
/// Nothing is promised of the answers: the chain moves on between two calls, and a call can fail.
pub trait NodeDBBackendSync: Send + Sync {
    /// What a failed call gives.
    type Error;

    /// Fetches the data of an account, or `None` if there is no such account.
    fn basic_account(&self, address: Address) -> Result<Option<AccountInfo>, Self::Error>;

    /// Fetches the code of an account, or `None` if it has none.
    fn account_code(&self, address: Address) -> Result<Option<Bytecode>, Self::Error>;

    /// Fetches the value of a storage slot.
    fn storage(&self, address: Address, slot: U256) -> Result<U256, Self::Error>;

    /// Fetches the hash of a block. A block that does not exist has none, and the call fails.
    fn block_hash(&self, number: u64) -> Result<B256, Self::Error>;
}

/// The content of fetched account data.
pub open spec fn info_view<E>(info: Result<Option<AccountInfo>, E>) -> Result<
    Option<InfoView>,
    E,
> {
    match info {
        Ok(Some(info)) => Ok(Some(info@)),
        Ok(None) => Ok(None),
        Err(e) => Err(e),
    }
}

/// What fetching an account gives, from the two answers that it takes: the data of the account,
/// and its code, asked for only where there is an account.
pub open spec fn fetched_info<E>(
    account: Result<Option<AccountInfo>, E>,
    code: Result<Option<Bytecode>, E>,
) -> Result<Option<InfoView>, E> {
    match account {
        Err(e) => Err(e),
        Ok(None) => Ok(None),
        Ok(Some(account)) => match code {
            Err(e) => Err(e),
            Ok(code) => Ok(Some(account@.with_code(crate::account::code_bytes(code)))),
        },
    }
}

/// `info` is what fetching the account at `address` can give: the outcome of the two answers that
/// the backend gave for that address.
pub open spec fn chain_info<B: NodeDBBackendSync>(
    backend: B,
    address: Address,
    info: Result<Option<InfoView>, B::Error>,
) -> bool {
    exists|account: Result<Option<AccountInfo>, B::Error>, code: Result<Option<Bytecode>, B::Error>|
     {
        &&& #[trigger] call_ensures(B::basic_account, (&backend, address), account)
        &&& account matches Ok(Some(_)) ==> call_ensures(
            B::account_code,
            (&backend, address),
            code,
        )
        &&& info == #[trigger] fetched_info(account, code)
    }
}

/// The backend never answers that there is no account at `address`.
pub open spec fn account_known<B: NodeDBBackendSync>(backend: B, address: Address) -> bool {
    forall|account: Result<Option<AccountInfo>, B::Error>| #[trigger]
        call_ensures(B::basic_account, (&backend, address), account) ==> account != Ok::<
            Option<AccountInfo>,
            B::Error,
        >(None)
}

/// The backend never gives a value for the slot: each call fails.
pub open spec fn storage_fails<B: NodeDBBackendSync>(
    backend: B,
    address: Address,
    index: U256,
) -> bool {
    forall|value: Result<U256, B::Error>| #[trigger]
        call_ensures(B::storage, (&backend, address, index), value) ==> value is Err
}

/// `res` is the backend's form of the error that answers every request for code by its hash.
pub open spec fn code_refused<E: From<NodeDBError>>(res: Result<Bytecode, E>) -> bool {
    match res {
        Ok(_) => false,
        Err(e) => exists|error: NodeDBError|
            {
                &&& error.0@ == NodeDBError::code_by_hash_message()
                &&& #[trigger] call_ensures(<E as From<NodeDBError>>::from, (error,), e)
            },
    }
}

/// What reading a storage slot gives once the chain gave `info` of its account, which is not held,
/// and the content that is left behind. A failure leaves only the recorded read.
pub open spec fn slot_of_fetched_account<E>(
    before: DbView,
    address: Address,
    index: U256,
    value: U256,
    info: Result<Option<InfoView>, E>,
    res: Result<Option<U256>, E>,
    after: DbView,
) -> bool {
    match info {
        Err(e) => res == Err::<Option<U256>, E>(e) && after == before.read_slot(address, index),
        Ok(info) => {
            let result = before.storage_result(address, index, value, info);
            res == Ok::<Option<U256>, E>(result.0) && after == result.1
        },
    }
}

/// What reading a storage slot can give once the chain gave `fetched` for its value, and the content
/// that is left behind. The backend is asked for the account if it is not held. A failure leaves
/// only the recorded read.
pub open spec fn slot_fetched<B: NodeDBBackendSync>(
    backend: B,
    before: DbView,
    address: Address,
    index: U256,
    fetched: Result<U256, B::Error>,
    res: Result<Option<U256>, B::Error>,
    after: DbView,
) -> bool {
    match fetched {
        Err(e) => res == Err::<Option<U256>, B::Error>(e) && after == before.read_slot(
            address,
            index,
        ),
        Ok(value) => if before.accounts.contains_key(address) {
            let result = before.storage_result(address, index, value, None);
            res == Ok::<Option<U256>, B::Error>(result.0) && after == result.1
        } else {
            exists|info: Result<Option<InfoView>, B::Error>|
                {
                    &&& #[trigger] chain_info(backend, address, info)
                    &&& slot_of_fetched_account(before, address, index, value, info, res, after)
                }
        },
    }
}

/// What reading a storage slot can give, and the content it leaves behind. A custom slot is answered
/// as it is held. Otherwise the backend is asked for the value.
pub open spec fn storage_read<B: NodeDBBackendSync>(
    backend: B,
    before: DbView,
    address: Address,
    index: U256,
    res: Result<Option<U256>, B::Error>,
    after: DbView,
) -> bool {
    match before.local_slot(address, index) {
        Some(value) => res == Ok::<Option<U256>, B::Error>(Some(value)) && after
            == before.read_slot(address, index),
        None => exists|fetched: Result<U256, B::Error>|
            {
                &&& #[trigger] call_ensures(B::storage, (&backend, address, index), fetched)
                &&& slot_fetched(backend, before, address, index, fetched, res, after)
            },
    }
}

/// What putting a storage slot in can give, and the content it leaves behind. The backend is asked
/// for an account that is not held; `Ok(false)` says that there is no such account, and then, as
/// after a failure, nothing has changed.
pub open spec fn storage_inserted<B: NodeDBBackendSync>(
    backend: B,
    before: DbView,
    address: Address,
    slot: U256,
    value: U256,
    insertion_type: InsertionType,
    res: Result<bool, B::Error>,
    after: DbView,
) -> bool {
    if before.accounts.contains_key(address) {
        &&& res == Ok::<bool, B::Error>(true)
        &&& after == before.put_slot(address, slot, NodeDBSlot::custom(value))
    } else {
        exists|account: Result<Option<AccountInfo>, B::Error>|
            {
                &&& #[trigger] call_ensures(B::basic_account, (&backend, address), account)
                &&& match account {
                    Err(e) => res == Err::<bool, B::Error>(e) && after == before,
                    Ok(None) => res == Ok::<bool, B::Error>(false) && after == before,
                    Ok(Some(account)) => {
                        &&& res == Ok::<bool, B::Error>(true)
                        &&& after == before.insert_slot(
                            address,
                            slot,
                            value,
                            insertion_type,
                            account@,
                        )
                    },
                }
            }
    }
}

} // verus!
