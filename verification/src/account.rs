//! Accounts: what the chain or a caller says of them, and what an executed transaction changed.

use vstd::prelude::*;

use crate::primitives::{B256, U256};
use crate::wide_map::WideMap;

verus! {

/// Tells whether data was fetched from the chain, or put in by the caller and so has no
/// corresponding on-chain state.
#[derive(Clone, Copy, PartialEq, Eq, Structural, Debug)]
pub enum InsertionType {
    Custom,
    OnChain,
}

impl Default for InsertionType {
    fn default() -> (res: Self)
        ensures
            res == InsertionType::OnChain,
    {
        InsertionType::OnChain
    }
}

/// What execution has done to an account so far.
#[derive(Clone, Copy, PartialEq, Eq, Structural, Debug)]
pub enum AccountState {
    /// The account does not exist.
    NotExisting,
    /// Execution touched the account.
    Touched,
    /// Execution cleared the account's storage.
    StorageCleared,
    /// Execution has not interacted with the account.
    Untouched,
}

impl AccountState {
    /// Tells whether execution cleared the account's storage.
    pub fn is_storage_cleared(&self) -> (res: bool)
        ensures
            res == (*self == AccountState::StorageCleared),
    {
        *self == AccountState::StorageCleared
    }
}

impl Default for AccountState {
    fn default() -> (res: Self)
        ensures
            res == AccountState::Untouched,
    {
        AccountState::Untouched
    }
}

/// Contract code, by its original bytes.
#[derive(Debug)]
pub struct Bytecode {
    pub bytes: Vec<u8>,
}

impl View for Bytecode {
    type V = Seq<u8>;

    open spec fn view(&self) -> Seq<u8> {
        self.bytes@
    }
}

impl Clone for Bytecode {
    fn clone(&self) -> (res: Self)
        ensures
            res@ == self@,
    {
        Bytecode { bytes: self.bytes.clone() }
    }
}

impl Default for Bytecode {
    fn default() -> (res: Self)
        ensures
            res@ == Seq::<u8>::empty(),
    {
        Bytecode { bytes: Vec::new() }
    }
}

impl Bytecode {
    /// Tells whether there is no code.
    pub fn is_empty(&self) -> (res: bool)
        ensures
            res == (self@.len() == 0),
    {
        self.bytes.len() == 0
    }

    /// The hash of the code.
    pub fn hash_slow(&self) -> (res: B256)
        ensures
            res == crate::hashing::code_hash_of(self@),
    {
        crate::hashing::hash_slow(self.bytes.as_slice())
    }
}

/// The content of an [`AccountInfo`].
#[verifier::ext_equal]
pub struct InfoView {
    pub balance: U256,
    pub nonce: u64,
    pub code_hash: B256,
    pub code: Option<Seq<u8>>,
}

/// The bytes of code that may be absent.
pub open spec fn code_bytes(code: Option<Bytecode>) -> Option<Seq<u8>> {
    match code {
        Some(code) => Some(code@),
        None => None,
    }
}

impl InfoView {
    /// An account that owns nothing, has done nothing and has no code.
    pub open spec fn empty() -> Self {
        InfoView {
            balance: U256 { hi: 0, lo: 0 },
            nonce: 0,
            code_hash: B256::keccak_empty(),
            code: Some(Seq::empty()),
        }
    }

    /// The same balance and nonce with the given code, under the hash of that code. Absent code is
    /// empty code.
    pub open spec fn with_code(self, code: Option<Seq<u8>>) -> Self {
        let bytes = match code {
            Some(bytes) => bytes,
            None => Seq::empty(),
        };
        InfoView {
            code_hash: crate::hashing::code_hash_of(bytes),
            code: Some(bytes),
            ..self
        }
    }
}

/// Balance, nonce and code of an account.
#[derive(Debug)]
pub struct AccountInfo {
    pub balance: U256,
    pub nonce: u64,
    pub code_hash: B256,
    pub code: Option<Bytecode>,
}

impl View for AccountInfo {
    type V = InfoView;

    open spec fn view(&self) -> InfoView {
        InfoView {
            balance: self.balance,
            nonce: self.nonce,
            code_hash: self.code_hash,
            code: code_bytes(self.code),
        }
    }
}

impl Clone for AccountInfo {
    fn clone(&self) -> (res: Self)
        ensures
            res@ == self@,
            res.balance == self.balance,
            res.nonce == self.nonce,
            res.code_hash == self.code_hash,
    {
        let code = match &self.code {
            Some(code) => Some(code.clone()),
            None => None,
        };
        AccountInfo { balance: self.balance, nonce: self.nonce, code_hash: self.code_hash, code }
    }
}

impl Default for AccountInfo {
    fn default() -> (res: Self)
        ensures
            res@ == InfoView::empty(),
    {
        AccountInfo {
            balance: U256::zero(),
            nonce: 0,
            code_hash: B256::keccak_empty(),
            code: Some(Bytecode::default()),
        }
    }
}

impl AccountInfo {
    /// Puts an account's data together.
    pub fn new(balance: U256, nonce: u64, code_hash: B256, code: Bytecode) -> (res: Self)
        ensures
            res@ == (InfoView { balance, nonce, code_hash, code: Some(code@) }),
            res.balance == balance,
            res.nonce == nonce,
            res.code_hash == code_hash,
            res.code == Some(code),
    {
        AccountInfo { balance, nonce, code_hash, code: Some(code) }
    }

    /// Completes fetched account data with the code that was fetched for it: keeps balance and
    /// nonce, and takes the code and its hash from `code`.
    pub fn with_fetched_code(self, code: Option<Bytecode>) -> (res: Self)
        ensures
            res@ == self@.with_code(code_bytes(code)),
            res.balance == self.balance,
            res.nonce == self.nonce,
            res.code matches Some(held) && held@ == (match code {
                Some(code) => code@,
                None => Seq::empty(),
            }),
    {
        let code = match code {
            Some(code) => code,
            None => Bytecode::default(),
        };
        AccountInfo::new(self.balance, self.nonce, code.hash_slow(), code)
    }
}

/// A storage slot of an account in the database. A slot that is marked custom is never fetched
/// from the chain and overwritten.
#[derive(Clone, Copy, PartialEq, Eq, Structural, Debug)]
pub struct NodeDBSlot {
    pub value: U256,
    pub insertion_type: InsertionType,
}

impl NodeDBSlot {
    /// A value that the caller or execution put in.
    pub open spec fn spec_custom(value: U256) -> Self {
        NodeDBSlot { value, insertion_type: InsertionType::Custom }
    }

    /// A value that the caller or execution put in.
    #[verifier::when_used_as_spec(spec_custom)]
    pub fn custom(value: U256) -> (res: Self)
        ensures
            res == NodeDBSlot::custom(value),
    {
        NodeDBSlot { value, insertion_type: InsertionType::Custom }
    }

    /// A value that was fetched from the chain.
    pub open spec fn spec_on_chain(value: U256) -> Self {
        NodeDBSlot { value, insertion_type: InsertionType::OnChain }
    }

    /// A value that was fetched from the chain.
    #[verifier::when_used_as_spec(spec_on_chain)]
    pub fn on_chain(value: U256) -> (res: Self)
        ensures
            res == NodeDBSlot::on_chain(value),
    {
        NodeDBSlot { value, insertion_type: InsertionType::OnChain }
    }
}

impl Default for NodeDBSlot {
    fn default() -> (res: Self)
        ensures
            res.value == (U256 { hi: 0, lo: 0 }),
            res.insertion_type == InsertionType::OnChain,
    {
        NodeDBSlot { value: U256::zero(), insertion_type: InsertionType::OnChain }
    }
}

/// The content of a [`NodeDBAccount`].
#[verifier::ext_equal]
pub struct AccountView {
    pub info: InfoView,
    pub state: AccountState,
    pub storage: Map<U256, NodeDBSlot>,
    pub insertion_type: InsertionType,
}

impl AccountView {
    /// An account without storage that execution has not met.
    pub open spec fn fresh(info: InfoView, insertion_type: InsertionType) -> Self {
        AccountView {
            info,
            state: AccountState::NotExisting,
            storage: Map::empty(),
            insertion_type,
        }
    }

    /// The account that execution starts from where the database has none.
    pub open spec fn blank() -> Self {
        AccountView {
            info: InfoView::empty(),
            state: AccountState::Untouched,
            storage: Map::empty(),
            insertion_type: InsertionType::OnChain,
        }
    }
}

/// An account in the database.
pub struct NodeDBAccount {
    pub info: AccountInfo,
    pub state: AccountState,
    pub storage: WideMap<U256, NodeDBSlot>,
    pub insertion_type: InsertionType,
}

impl View for NodeDBAccount {
    type V = AccountView;

    open spec fn view(&self) -> AccountView {
        AccountView {
            info: self.info@,
            state: self.state,
            storage: self.storage@,
            insertion_type: self.insertion_type,
        }
    }
}

impl Default for NodeDBAccount {
    fn default() -> (res: Self)
        ensures
            res@ == AccountView::blank(),
    {
        NodeDBAccount {
            info: AccountInfo::default(),
            state: AccountState::Untouched,
            storage: WideMap::new(),
            insertion_type: InsertionType::OnChain,
        }
    }
}

impl NodeDBAccount {
    /// Makes an account without data that execution has not met.
    pub fn new(insertion_type: InsertionType) -> (res: Self)
        ensures
            res@ == AccountView::fresh(InfoView::empty(), insertion_type),
    {
        NodeDBAccount {
            info: AccountInfo::default(),
            state: AccountState::NotExisting,
            storage: WideMap::new(),
            insertion_type,
        }
    }
}

} // verus!
