//! Reads and insertions in steps, for a chain that answers later.
//!
//! A [`Task`] is started on the database. As long as a [`Step`] asks, the question of its
//! [`Pending`] work is put to the chain, and the work is resumed with the [`Reply`].
//!
//! The database can change between the question and the answer. What was put in or committed
//! meanwhile counts: an answer never overwrites custom data, and what is answered is the custom data.

use vstd::prelude::*;

use crate::account::{AccountInfo, Bytecode, InfoView, InsertionType, NodeDBSlot};
use crate::db::{DbView, NodeDB};
use crate::primitives::{Address, U256};

verus! {

/// What a caller wants of the database.
#[derive(Clone, Copy, PartialEq, Eq, Structural, Debug)]
pub enum Task {
    /// The data of an account, which is taken over.
    Basic(Address),
    /// The data of an account, which is not kept.
    BasicRef(Address),
    /// The value of a storage slot, which is kept.
    Storage(Address, U256),
    /// The value of a storage slot, which is not kept.
    StorageRef(Address, U256),
    /// To put a storage slot in.
    InsertStorage {
        address: Address,
        slot: U256,
        value: U256,
        insertion_type: InsertionType,
    },
}

/// A question to the chain.
#[derive(Clone, Copy, PartialEq, Eq, Structural, Debug)]
pub enum Query {
    BasicAccount(Address),
    AccountCode(Address),
    Storage(Address, U256),
}

/// The chain's answer to a question, with account data `I` and code `C`.
pub enum Reply<I, C> {
    BasicAccount(Option<I>),
    AccountCode(Option<C>),
    Storage(U256),
}

/// Work that waits for an answer, with account data `I`. `keep` tells whether what arrives is kept.
pub enum Pending<I> {
    /// Waits for the data of an account.
    Account { address: Address, keep: bool },
    /// Waits for the code of an account.
    Code { address: Address, account: I, keep: bool },
    /// Waits for the value of a storage slot.
    Value { address: Address, index: U256, keep: bool },
    /// Waits for the account to which a fetched slot belongs.
    SlotAccount { address: Address, index: U256, value: U256 },
    /// Waits for the code of the account to which a fetched slot belongs.
    SlotCode { address: Address, index: U256, value: U256, account: I },
    /// Waits for the account into which a slot is put.
    InsertAccount {
        address: Address,
        slot: U256,
        value: U256,
        insertion_type: InsertionType,
    },
}

/// How a task ended, with account data `I`.
pub enum Outcome<I> {
    /// The data of the account, or `None` if there is no such account.
    Info(Option<I>),
    /// The value of the storage slot.
    Value(U256),
    /// The storage slot was put in.
    Inserted,
    /// There is no account to which the storage slot could belong.
    NoAccount,
}

/// What is to be done next, with account data `I`.
pub enum Step<I> {
    Ask(Pending<I>),
    Done(Outcome<I>),
}

impl<I> Pending<I> {
    /// The question that the work waits on.
    pub open spec fn spec_query(&self) -> Query {
        match *self {
            Pending::Account { address, .. } => Query::BasicAccount(address),
            Pending::Code { address, .. } => Query::AccountCode(address),
            Pending::Value { address, index, .. } => Query::Storage(address, index),
            Pending::SlotAccount { address, .. } => Query::BasicAccount(address),
            Pending::SlotCode { address, .. } => Query::AccountCode(address),
            Pending::InsertAccount { address, .. } => Query::BasicAccount(address),
        }
    }

    /// The question that the work waits on.
    #[verifier::when_used_as_spec(spec_query)]
    pub fn query(&self) -> (res: Query)
        ensures
            res == self.query(),
    {
        match self {
            Pending::Account { address, .. } => Query::BasicAccount(*address),
            Pending::Code { address, .. } => Query::AccountCode(*address),
            Pending::Value { address, index, .. } => Query::Storage(*address, *index),
            Pending::SlotAccount { address, .. } => Query::BasicAccount(*address),
            Pending::SlotCode { address, .. } => Query::AccountCode(*address),
            Pending::InsertAccount { address, .. } => Query::BasicAccount(*address),
        }
    }
}

impl View for Pending<AccountInfo> {
    type V = Pending<InfoView>;

    open spec fn view(&self) -> Pending<InfoView> {
        match *self {
            Pending::Account { address, keep } => Pending::Account { address, keep },
            Pending::Code { address, account, keep } => Pending::Code {
                address,
                account: account@,
                keep,
            },
            Pending::Value { address, index, keep } => Pending::Value { address, index, keep },
            Pending::SlotAccount { address, index, value } => Pending::SlotAccount {
                address,
                index,
                value,
            },
            Pending::SlotCode { address, index, value, account } => Pending::SlotCode {
                address,
                index,
                value,
                account: account@,
            },
            Pending::InsertAccount { address, slot, value, insertion_type } =>
                Pending::InsertAccount { address, slot, value, insertion_type },
        }
    }
}

impl View for Reply<AccountInfo, Bytecode> {
    type V = Reply<InfoView, Seq<u8>>;

    open spec fn view(&self) -> Reply<InfoView, Seq<u8>> {
        match *self {
            Reply::BasicAccount(Some(account)) => Reply::BasicAccount(Some(account@)),
            Reply::BasicAccount(None) => Reply::BasicAccount(None),
            Reply::AccountCode(code) => Reply::AccountCode(crate::account::code_bytes(code)),
            Reply::Storage(value) => Reply::Storage(value),
        }
    }
}

impl View for Outcome<AccountInfo> {
    type V = Outcome<InfoView>;

    open spec fn view(&self) -> Outcome<InfoView> {
        match *self {
            Outcome::Info(Some(info)) => Outcome::Info(Some(info@)),
            Outcome::Info(None) => Outcome::Info(None),
            Outcome::Value(value) => Outcome::Value(value),
            Outcome::Inserted => Outcome::Inserted,
            Outcome::NoAccount => Outcome::NoAccount,
        }
    }
}

impl View for Step<AccountInfo> {
    type V = Step<InfoView>;

    open spec fn view(&self) -> Step<InfoView> {
        match *self {
            Step::Ask(pending) => Step::Ask(pending@),
            Step::Done(outcome) => Step::Done(outcome@),
        }
    }
}

impl DbView {
    /// The first step of a task, and the content it leaves behind. A custom account or slot, and a
    /// slot of a held account that is put in, need no question.
    pub open spec fn start(self, task: Task) -> (Step<InfoView>, Self) {
        match task {
            Task::Basic(address) => match self.local_info(address) {
                Some(info) => (Step::Done(Outcome::Info(Some(info))), self),
                None => (Step::Ask(Pending::Account { address, keep: true }), self),
            },
            Task::BasicRef(address) => match self.local_info(address) {
                Some(info) => (Step::Done(Outcome::Info(Some(info))), self),
                None => (Step::Ask(Pending::Account { address, keep: false }), self),
            },
            Task::Storage(address, index) => (
                match self.local_slot(address, index) {
                    Some(value) => Step::Done(Outcome::Value(value)),
                    None => Step::Ask(Pending::Value { address, index, keep: true }),
                },
                self.read_slot(address, index),
            ),
            Task::StorageRef(address, index) => (
                match self.local_slot(address, index) {
                    Some(value) => Step::Done(Outcome::Value(value)),
                    None => Step::Ask(Pending::Value { address, index, keep: false }),
                },
                self.read_slot(address, index),
            ),
            Task::InsertStorage { address, slot, value, insertion_type } => if
                self.accounts.contains_key(address) {
                (
                    Step::Done(Outcome::Inserted),
                    self.put_slot(address, slot, NodeDBSlot::custom(value)),
                )
            } else {
                (
                    Step::Ask(Pending::InsertAccount { address, slot, value, insertion_type }),
                    self,
                )
            },
        }
    }

    /// The value that a fetched storage slot is answered with, and the content that keeping it leaves
    /// behind, where the account is held. A custom slot is answered as it is held.
    pub open spec fn keep_slot(self, address: Address, index: U256, value: U256) -> Option<
        (U256, Self),
    > {
        if self.local_slot(address, index) is Some {
            Some((self.local_slot(address, index)->0, self))
        } else if self.accounts.contains_key(address) {
            Some((value, self.put_slot(address, index, NodeDBSlot::on_chain(value))))
        } else {
            None
        }
    }

    /// The step that follows an answer, and the content it leaves behind. A custom account or slot
    /// that was put in meanwhile is answered as it is held. An answer to another question changes
    /// nothing, and the question is asked again.
    pub open spec fn resume(
        self,
        pending: Pending<InfoView>,
        reply: Reply<InfoView, Seq<u8>>,
    ) -> (Step<InfoView>, Self) {
        match (pending, reply) {
            (Pending::Account { address, keep }, Reply::BasicAccount(found)) => match (
                self.local_info(address),
                found,
            ) {
                (Some(held), _) => (Step::Done(Outcome::Info(Some(held))), self),
                (None, Some(account)) => (
                    Step::Ask(Pending::Code { address, account, keep }),
                    self,
                ),
                (None, None) => (Step::Done(Outcome::Info(None)), self),
            },
            (Pending::Code { address, account, keep }, Reply::AccountCode(code)) => match
                self.local_info(address) {
                Some(held) => (Step::Done(Outcome::Info(Some(held))), self),
                None => {
                    let info = account.with_code(code);
                    (
                        Step::Done(Outcome::Info(Some(info))),
                        if keep {
                            self.record_info(address, info)
                        } else {
                            self
                        },
                    )
                },
            },
            (Pending::Value { address, index, keep }, Reply::Storage(value)) => if keep {
                match self.keep_slot(address, index, value) {
                    Some((answer, after)) => (Step::Done(Outcome::Value(answer)), after),
                    None => (Step::Ask(Pending::SlotAccount { address, index, value }), self),
                }
            } else {
                (
                    Step::Done(
                        Outcome::Value(
                            match self.local_slot(address, index) {
                                Some(held) => held,
                                None => value,
                            },
                        ),
                    ),
                    self,
                )
            },
            (Pending::SlotAccount { address, index, value }, Reply::BasicAccount(found)) =>
                match (self.keep_slot(address, index, value), found) {
                    (Some((answer, after)), _) => (Step::Done(Outcome::Value(answer)), after),
                    (None, Some(account)) => (
                        Step::Ask(Pending::SlotCode { address, index, value, account }),
                        self,
                    ),
                    (None, None) => (Step::Done(Outcome::NoAccount), self),
                },
            (
                Pending::SlotCode { address, index, value, account },
                Reply::AccountCode(code),
            ) => match self.keep_slot(address, index, value) {
                Some((answer, after)) => (Step::Done(Outcome::Value(answer)), after),
                None => (
                    Step::Done(Outcome::Value(value)),
                    self.record_info(address, account.with_code(code)).put_slot(
                        address,
                        index,
                        NodeDBSlot::on_chain(value),
                    ),
                ),
            },
            (
                Pending::InsertAccount { address, slot, value, insertion_type },
                Reply::BasicAccount(found),
            ) => if self.accounts.contains_key(address) {
                (
                    Step::Done(Outcome::Inserted),
                    self.put_slot(address, slot, NodeDBSlot::custom(value)),
                )
            } else {
                match found {
                    Some(account) => (
                        Step::Done(Outcome::Inserted),
                        self.insert_slot(address, slot, value, insertion_type, account),
                    ),
                    None => (Step::Done(Outcome::NoAccount), self),
                }
            },
            _ => (Step::Ask(pending), self),
        }
    }
}

/// Where a task stands after the chain gave `replies`, one after the other, to the questions that
/// follow `at`. Answers beyond the end of the task are not taken.
pub open spec fn converse(
    at: (Step<InfoView>, DbView),
    replies: Seq<Reply<InfoView, Seq<u8>>>,
) -> (Step<InfoView>, DbView)
    decreases replies.len(),
{
    match at.0 {
        Step::Done(_) => at,
        Step::Ask(pending) => if replies.len() == 0 {
            at
        } else {
            converse(at.1.resume(pending, replies[0]), replies.drop_first())
        },
    }
}

impl DbView {
    /// Where a task stands after the chain gave `replies`, one after the other.
    pub open spec fn run(
        self,
        task: Task,
        replies: Seq<Reply<InfoView, Seq<u8>>>,
    ) -> (Step<InfoView>, Self) {
        converse(self.start(task), replies)
    }
}

impl<B> NodeDB<B> {
    /// Starts a task.
    pub fn start(&mut self, task: Task) -> (res: Step<AccountInfo>)
        ensures
            final(self).chain() == old(self).chain(),
            (res@, final(self)@) == old(self)@.start(task),
    {
        match task {
            Task::Basic(address) => match self.custom_info(address) {
                Some(info) => Step::Done(Outcome::Info(Some(info))),
                None => Step::Ask(Pending::Account { address, keep: true }),
            },
            Task::BasicRef(address) => match self.custom_info(address) {
                Some(info) => Step::Done(Outcome::Info(Some(info))),
                None => Step::Ask(Pending::Account { address, keep: false }),
            },
            Task::Storage(address, index) => {
                self.record_read(address, index);
                match self.custom_value(address, index) {
                    Some(value) => Step::Done(Outcome::Value(value)),
                    None => Step::Ask(Pending::Value { address, index, keep: true }),
                }
            },
            Task::StorageRef(address, index) => {
                self.record_read(address, index);
                match self.custom_value(address, index) {
                    Some(value) => Step::Done(Outcome::Value(value)),
                    None => Step::Ask(Pending::Value { address, index, keep: false }),
                }
            },
            Task::InsertStorage { address, slot, value, insertion_type } => {
                if self.put_slot(address, slot, NodeDBSlot::custom(value)) {
                    Step::Done(Outcome::Inserted)
                } else {
                    Step::Ask(Pending::InsertAccount { address, slot, value, insertion_type })
                }
            },
        }
    }

    /// Keeps a fetched storage slot if its account is held, and gives the value that the slot is
    /// answered with then.
    fn keep_slot(&mut self, address: Address, index: U256, value: U256) -> (res: Option<U256>)
        ensures
            final(self).chain() == old(self).chain(),
            match old(self)@.keep_slot(address, index, value) {
                Some((answer, after)) => res == Some(answer) && final(self)@ == after,
                None => res is None && final(self)@ == old(self)@,
            },
    {
        if let Some(held) = self.custom_value(address, index) {
            return Some(held);
        }
        if self.put_slot(address, index, NodeDBSlot::on_chain(value)) {
            Some(value)
        } else {
            None
        }
    }

    /// Resumes pending work with an answer.
    pub fn resume(
        &mut self,
        pending: Pending<AccountInfo>,
        reply: Reply<AccountInfo, Bytecode>,
    ) -> (res: Step<AccountInfo>)
        ensures
            final(self).chain() == old(self).chain(),
            (res@, final(self)@) == old(self)@.resume(pending@, reply@),
    {
        match (pending, reply) {
            (Pending::Account { address, keep }, Reply::BasicAccount(found)) => {
                if let Some(held) = self.custom_info(address) {
                    return Step::Done(Outcome::Info(Some(held)));
                }
                match found {
                    Some(account) => Step::Ask(Pending::Code { address, account, keep }),
                    None => Step::Done(Outcome::Info(None)),
                }
            },
            (Pending::Code { address, account, keep }, Reply::AccountCode(code)) => {
                if let Some(held) = self.custom_info(address) {
                    return Step::Done(Outcome::Info(Some(held)));
                }
                let info = account.with_fetched_code(code);
                if keep {
                    self.record_info(address, info.clone());
                }
                Step::Done(Outcome::Info(Some(info)))
            },
            (Pending::Value { address, index, keep }, Reply::Storage(value)) => {
                if keep {
                    match self.keep_slot(address, index, value) {
                        Some(answer) => Step::Done(Outcome::Value(answer)),
                        None => Step::Ask(Pending::SlotAccount { address, index, value }),
                    }
                } else {
                    match self.custom_value(address, index) {
                        Some(held) => Step::Done(Outcome::Value(held)),
                        None => Step::Done(Outcome::Value(value)),
                    }
                }
            },
            (Pending::SlotAccount { address, index, value }, Reply::BasicAccount(found)) => {
                if let Some(answer) = self.keep_slot(address, index, value) {
                    return Step::Done(Outcome::Value(answer));
                }
                match found {
                    Some(account) => Step::Ask(
                        Pending::SlotCode { address, index, value, account },
                    ),
                    None => Step::Done(Outcome::NoAccount),
                }
            },
            (
                Pending::SlotCode { address, index, value, account },
                Reply::AccountCode(code),
            ) => {
                if let Some(answer) = self.keep_slot(address, index, value) {
                    return Step::Done(Outcome::Value(answer));
                }
                self.record_info(address, account.with_fetched_code(code));
                let _ = self.put_slot(address, index, NodeDBSlot::on_chain(value));
                Step::Done(Outcome::Value(value))
            },
            (
                Pending::InsertAccount { address, slot, value, insertion_type },
                Reply::BasicAccount(found),
            ) => {
                if self.put_slot(address, slot, NodeDBSlot::custom(value)) {
                    return Step::Done(Outcome::Inserted);
                }
                match found {
                    Some(account) => {
                        self.insert_account_info(address, account, insertion_type);
                        let _ = self.put_slot(address, slot, NodeDBSlot::custom(value));
                        Step::Done(Outcome::Inserted)
                    },
                    None => Step::Done(Outcome::NoAccount),
                }
            },
            (pending, _) => Step::Ask(pending),
        }
    }
}

} // verus!
