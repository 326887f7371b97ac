//! What a backend over a node's own database decides and answers, from what that database says.

use vstd::prelude::*;

use crate::account::{AccountInfo, Bytecode, InfoView};
use crate::error::NodeDBError;
use crate::primitives::{B256, U256};

verus! {

/// An account as a node's database stores it, apart from its code.
#[derive(Clone, Copy, PartialEq, Eq, Structural, Debug)]
pub struct StoredAccount {
    pub balance: U256,
    pub nonce: u64,
}

/// The block to go up to, if the view of the chain is out of date.
pub open spec fn next_block(current: u64, db_block: u64) -> Option<u64> {
    if current > db_block {
        Some(current)
    } else {
        None
    }
}

/// Decides whether the view of the chain is out of date. `current` is the last block of the
/// database, or the error with which it could not be read, and `db_block` the block up to which the
/// view goes. Gives the block to go up to if the view is to be renewed. Where the last block is not
/// known the view cannot be trusted, and the error is given.
pub fn newer_block<E>(current: Result<u64, E>, db_block: u64) -> (res: Result<Option<u64>, E>)
    ensures
        match current {
            Ok(block) => res == Ok::<Option<u64>, E>(next_block(block, db_block)),
            Err(e) => res == Err::<Option<u64>, E>(e),
        },
{
    match current {
        Ok(block) => {
            if block > db_block {
                Ok(Some(block))
            } else {
                Ok(None)
            }
        },
        Err(e) => Err(e),
    }
}

/// The account data that a stored account and its stored code make up.
pub open spec fn stored_info(account: StoredAccount, code: Option<Seq<u8>>) -> InfoView {
    InfoView {
        balance: account.balance,
        nonce: account.nonce,
        code_hash: match code {
            Some(bytes) => crate::hashing::code_hash_of(bytes),
            None => B256::keccak_empty(),
        },
        code: Some(
            match code {
                Some(bytes) => bytes,
                None => Seq::empty(),
            },
        ),
    }
}

/// Puts account data together from what the database stores of an account and of its code.
pub fn account_info(account: Option<StoredAccount>, code: Option<Bytecode>) -> (res: Option<
    AccountInfo,
>)
    ensures
        match account {
            Some(account) => res matches Some(info) && info@ == stored_info(
                account,
                crate::account::code_bytes(code),
            ),
            None => res is None,
        },
        match (account, res) {
            (Some(account), Some(info)) => info.balance == account.balance && info.nonce
                == account.nonce,
            (None, None) => true,
            _ => false,
        },
{
    match account {
        Some(account) => {
            let hash = match &code {
                Some(code) => code.hash_slow(),
                None => B256::keccak_empty(),
            };
            let code = match code {
                Some(code) => code,
                None => Bytecode::default(),
            };
            Some(AccountInfo::new(account.balance, account.nonce, hash, code))
        },
        None => None,
    }
}

/// The value of a storage slot: zero where the database stores none.
pub fn storage_value(stored: Option<U256>) -> (res: U256)
    ensures
        res == (match stored {
            Some(value) => value,
            None => U256 { hi: 0, lo: 0 },
        }),
{
    match stored {
        Some(value) => value,
        None => U256::zero(),
    }
}

/// The hash of a block. Where the database knows no such block there is no hash, and the error says
/// so.
pub fn block_hash(stored: Option<B256>) -> (res: Result<B256, NodeDBError>)
    ensures
        match stored {
            Some(hash) => res == Ok::<B256, NodeDBError>(hash),
            None => res matches Err(e) && e.0@ == NodeDBError::no_block_message(),
        },
{
    match stored {
        Some(hash) => Ok(hash),
        None => Err(NodeDBError::no_block()),
    }
}

} // verus!
