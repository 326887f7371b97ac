//! What holds of the database as a whole.

use vstd::prelude::*;

use crate::account::{AccountInfo, Bytecode, InfoView, InsertionType, NodeDBSlot};
use crate::backend::NodeDBBackendSync;
use crate::db::DbView;
use crate::primitives::{Address, U256};
use crate::provider::StoredAccount;
use crate::steps::{Outcome, Pending, Query, Reply, Step, Task};

verus! {

// ---------------------------------------------------------------------------------------------
// Custom data
// ---------------------------------------------------------------------------------------------

/// A custom account is answered as it was put in, with no question to the chain, and answering
/// changes nothing.
pub proof fn law_custom_account_is_answered(db: DbView, address: Address, info: InfoView)
    ensures
        ({
            let after = db.put_account(address, info, InsertionType::Custom);
            &&& after.local_info(address) == Some(info)
            &&& after.start(Task::Basic(address)) == (
                Step::<InfoView>::Done(Outcome::Info(Some(info))),
                after,
            )
            &&& after.start(Task::BasicRef(address)) == (
                Step::<InfoView>::Done(Outcome::Info(Some(info))),
                after,
            )
        }),
{
}

/// A storage slot that was put in is answered with its value, with no question to the chain,
/// whatever the type of its account is and whether the account was held before or not.
pub proof fn law_inserted_slot_is_answered(
    db: DbView,
    address: Address,
    slot: U256,
    value: U256,
    insertion_type: InsertionType,
    account: InfoView,
)
    ensures
        ({
            let after = db.insert_slot(address, slot, value, insertion_type, account);
            &&& after.local_slot(address, slot) == Some(value)
            &&& after.start(Task::Storage(address, slot)) == (
                Step::<InfoView>::Done(Outcome::Value(value)),
                after.read_slot(address, slot),
            )
            &&& after.start(Task::StorageRef(address, slot)) == (
                Step::<InfoView>::Done(Outcome::Value(value)),
                after.read_slot(address, slot),
            )
        }),
{
}

/// Every custom account and every custom slot of `before` is answered by `after` in the same way.
pub open spec fn keeps_custom(before: DbView, after: DbView) -> bool {
    &&& forall|address: Address| #[trigger]
        before.local_info(address) is Some ==> after.local_info(address) == before.local_info(
            address,
        )
    &&& forall|address: Address, slot: U256| #[trigger]
        before.local_slot(address, slot) is Some ==> after.local_slot(address, slot)
            == before.local_slot(address, slot)
}

/// Every custom account of `before` is answered by `after` in the same way, and so is every custom
/// slot but the one named.
pub open spec fn keeps_custom_but(
    before: DbView,
    after: DbView,
    address: Address,
    slot: U256,
) -> bool {
    &&& forall|other: Address| #[trigger]
        before.local_info(other) is Some ==> after.local_info(other) == before.local_info(other)
    &&& forall|other: Address, index: U256| #[trigger]
        before.local_slot(other, index) is Some && (other, index) != (address, slot)
            ==> after.local_slot(other, index) == before.local_slot(other, index)
}

/// An answer that arrives late never overwrites custom data: whatever the content is by then, and
/// whatever the chain answered, each custom account and slot is kept, but for the slot that the work
/// puts in.
pub proof fn law_late_answers_keep_custom_data(
    db: DbView,
    pending: Pending<InfoView>,
    reply: Reply<InfoView, Seq<u8>>,
)
    ensures
        match pending {
            Pending::InsertAccount { address, slot, .. } => keeps_custom_but(
                db,
                db.resume(pending, reply).1,
                address,
                slot,
            ),
            _ => keeps_custom(db, db.resume(pending, reply).1),
        },
{
}

/// An answer that arrives when the account or slot asked for has become custom ends the work with the
/// custom data, and changes nothing.
pub proof fn law_late_answers_give_custom_data(
    db: DbView,
    pending: Pending<InfoView>,
    reply: Reply<InfoView, Seq<u8>>,
)
    requires
        answers(reply, pending.query()),
    ensures
        pending is Account || pending is Code ==> {
            let address = pending.address();
            db.local_info(address) matches Some(held) ==> db.resume(pending, reply) == (
                Step::<InfoView>::Done(Outcome::Info(Some(held))),
                db,
            )
        },
        pending.index() matches Some(index) ==> {
            let address = pending.address();
            db.local_slot(address, index) matches Some(held) ==> db.resume(pending, reply) == (
                Step::<InfoView>::Done(Outcome::Value(held)),
                db,
            )
        },
{
}

impl Pending<InfoView> {
    /// The account that the work is about.
    pub open spec fn address(self) -> Address {
        match self {
            Pending::Account { address, .. } => address,
            Pending::Code { address, .. } => address,
            Pending::Value { address, .. } => address,
            Pending::SlotAccount { address, .. } => address,
            Pending::SlotCode { address, .. } => address,
            Pending::InsertAccount { address, .. } => address,
        }
    }

    /// The storage slot that the work reads, if it reads one.
    pub open spec fn index(self) -> Option<U256> {
        match self {
            Pending::Value { index, .. } => Some(index),
            Pending::SlotAccount { index, .. } => Some(index),
            Pending::SlotCode { index, .. } => Some(index),
            _ => None,
        }
    }
}

/// Going on with work that puts nothing in keeps custom data.
proof fn lemma_converse_keeps_custom(
    at: (Step<InfoView>, DbView),
    replies: Seq<Reply<InfoView, Seq<u8>>>,
)
    requires
        at.0 matches Step::Ask(pending) ==> !(pending is InsertAccount),
    ensures
        keeps_custom(at.1, crate::steps::converse(at, replies).1),
    decreases replies.len(),
{
    if let Step::Ask(pending) = at.0 {
        if replies.len() > 0 {
            let next = at.1.resume(pending, replies[0]);
            law_late_answers_keep_custom_data(at.1, pending, replies[0]);
            lemma_converse_keeps_custom(next, replies.drop_first());
        }
    }
}

/// Going on with an insertion keeps custom data but for the slot put in.
proof fn lemma_insertion_keeps_custom(
    at: (Step<InfoView>, DbView),
    address: Address,
    slot: U256,
    replies: Seq<Reply<InfoView, Seq<u8>>>,
)
    requires
        at.0 matches Step::Ask(pending) ==> pending matches Pending::InsertAccount {
            address: a,
            slot: s,
            ..
        } && a == address && s == slot,
    ensures
        keeps_custom_but(at.1, crate::steps::converse(at, replies).1, address, slot),
    decreases replies.len(),
{
    if let Step::Ask(pending) = at.0 {
        if replies.len() > 0 {
            let next = at.1.resume(pending, replies[0]);
            law_late_answers_keep_custom_data(at.1, pending, replies[0]);
            lemma_insertion_keeps_custom(next, address, slot, replies.drop_first());
        }
    }
}

/// What arrives from the chain never overwrites custom data: whatever the chain answers, reading
/// an account or a storage slot keeps every custom account and every custom slot.
pub proof fn law_reads_keep_custom_data(
    db: DbView,
    task: Task,
    replies: Seq<Reply<InfoView, Seq<u8>>>,
)
    requires
        !(task is InsertStorage),
    ensures
        keeps_custom(db, db.run(task, replies).1),
{
    let first = db.start(task);
    assert(keeps_custom(db, first.1));
    lemma_converse_keeps_custom(first, replies);
}

/// Putting a storage slot in keeps every custom account, and every custom slot but the one put in,
/// whatever the chain answers.
pub proof fn law_insertion_keeps_custom_data(
    db: DbView,
    address: Address,
    slot: U256,
    value: U256,
    insertion_type: InsertionType,
    replies: Seq<Reply<InfoView, Seq<u8>>>,
)
    ensures
        keeps_custom_but(
            db,
            db.run(Task::InsertStorage { address, slot, value, insertion_type }, replies).1,
            address,
            slot,
        ),
{
    let task = Task::InsertStorage { address, slot, value, insertion_type };
    lemma_insertion_keeps_custom(db.start(task), address, slot, replies);
}

impl Task {
    /// The account that a task is about.
    pub open spec fn address(self) -> Address {
        match self {
            Task::Basic(address) => address,
            Task::BasicRef(address) => address,
            Task::Storage(address, _) => address,
            Task::StorageRef(address, _) => address,
            Task::InsertStorage { address, .. } => address,
        }
    }
}

/// A task changes no account but the one that it is about, whatever the chain answers.
pub proof fn law_tasks_leave_other_accounts(
    db: DbView,
    task: Task,
    replies: Seq<Reply<InfoView, Seq<u8>>>,
    other: Address,
)
    requires
        other != task.address(),
    ensures
        db.run(task, replies).1.held(other) == db.held(other),
{
    lemma_converse_leaves_other_accounts(db.start(task), replies, other);
}

/// Going on with work that is about another account leaves an account as it is.
proof fn lemma_converse_leaves_other_accounts(
    at: (Step<InfoView>, DbView),
    replies: Seq<Reply<InfoView, Seq<u8>>>,
    other: Address,
)
    requires
        at.0 matches Step::Ask(pending) ==> match pending.query() {
            Query::BasicAccount(address) => address != other,
            Query::AccountCode(address) => address != other,
            Query::Storage(address, _) => address != other,
        },
    ensures
        crate::steps::converse(at, replies).1.held(other) == at.1.held(other),
    decreases replies.len(),
{
    if let Step::Ask(pending) = at.0 {
        if replies.len() > 0 {
            lemma_converse_leaves_other_accounts(
                at.1.resume(pending, replies[0]),
                replies.drop_first(),
                other,
            );
        }
    }
}

// ---------------------------------------------------------------------------------------------
// Chain data
// ---------------------------------------------------------------------------------------------

/// A slot that is not custom is always answered by the chain: after the chain's value of a slot
/// was read and kept, the next read gives the value that the chain has then.
pub proof fn law_chain_values_are_fresh(
    db: DbView,
    address: Address,
    index: U256,
    first: U256,
    second: U256,
    info: Option<InfoView>,
    later_info: Option<InfoView>,
)
    requires
        db.local_slot(address, index) is None,
        db.storage_result(address, index, first, info).0 is Some,
    ensures
        ({
            let (value, after) = db.storage_result(address, index, first, info);
            &&& value == Some(first)
            &&& after.accounts[address].storage[index] == NodeDBSlot::on_chain(first)
            &&& after.local_slot(address, index) is None
            &&& after.storage_result(address, index, second, later_info).0 == Some(second)
        }),
{
}

/// An account that is not custom is always answered by the chain, though its data was read and kept
/// before.
pub proof fn law_chain_accounts_are_fresh(db: DbView, address: Address, info: InfoView)
    requires
        db.local_info(address) is None,
    ensures
        ({
            let after = db.record_info(address, info);
            &&& after.accounts[address].info == info
            &&& after.start(Task::Basic(address)) == (
                Step::<InfoView>::Ask(Pending::Account { address, keep: true }),
                after,
            )
        }),
{
}

/// Reading without keeping changes no account, no code and no recording state; reading an account
/// so changes nothing at all.
pub proof fn law_ref_reads_keep_nothing(
    db: DbView,
    address: Address,
    index: U256,
    replies: Seq<Reply<InfoView, Seq<u8>>>,
)
    ensures
        db.run(Task::BasicRef(address), replies).1 == db,
        db.run(Task::StorageRef(address, index), replies).1 == db.read_slot(address, index),
{
    lemma_unkept_work_changes_nothing(db.start(Task::BasicRef(address)), replies);
    lemma_unkept_work_changes_nothing(db.start(Task::StorageRef(address, index)), replies);
}

/// Work whose answers are not kept changes nothing.
proof fn lemma_unkept_work_changes_nothing(
    at: (Step<InfoView>, DbView),
    replies: Seq<Reply<InfoView, Seq<u8>>>,
)
    requires
        match at.0 {
            Step::Ask(Pending::Account { keep, .. }) => !keep,
            Step::Ask(Pending::Code { keep, .. }) => !keep,
            Step::Ask(Pending::Value { keep, .. }) => !keep,
            Step::Ask(_) => false,
            Step::Done(_) => true,
        },
    ensures
        crate::steps::converse(at, replies).1 == at.1,
    decreases replies.len(),
{
    if let Step::Ask(pending) = at.0 {
        if replies.len() > 0 {
            lemma_unkept_work_changes_nothing(
                at.1.resume(pending, replies[0]),
                replies.drop_first(),
            );
        }
    }
}

// ---------------------------------------------------------------------------------------------
// Steps against single calls
// ---------------------------------------------------------------------------------------------

/// The account data that two answers make up.
pub open spec fn answered_info(account: Option<InfoView>, code: Option<Seq<u8>>) -> Option<
    InfoView,
> {
    match account {
        Some(account) => Some(account.with_code(code)),
        None => None,
    }
}

/// An account read in steps ends as an account read in one call does with the same answers: a
/// custom account is given as it is held, else the chain's data is given, and taken over if it is
/// to be kept.
pub proof fn law_steps_read_accounts(
    db: DbView,
    address: Address,
    account: Option<InfoView>,
    code: Option<Seq<u8>>,
)
    ensures
        ({
            let replies = seq![Reply::BasicAccount(account), Reply::AccountCode(code)];
            let info = answered_info(account, code);
            &&& db.run(Task::Basic(address), replies) == match db.local_info(address) {
                Some(held) => (Step::Done(Outcome::Info(Some(held))), db),
                None => (
                    Step::Done(Outcome::Info(info)),
                    match info {
                        Some(info) => db.record_info(address, info),
                        None => db,
                    },
                ),
            }
            &&& db.run(Task::BasicRef(address), replies) == match db.local_info(address) {
                Some(held) => (Step::Done(Outcome::Info(Some(held))), db),
                None => (Step::Done(Outcome::Info(info)), db),
            }
        }),
{
    let replies: Seq<Reply<InfoView, Seq<u8>>> = seq![
        Reply::BasicAccount(account),
        Reply::AccountCode(code),
    ];
    assert(replies.drop_first() =~= seq![Reply::AccountCode(code)]);
    reveal_with_fuel(crate::steps::converse, 3);
}

/// A storage slot read in steps ends as a storage slot read in one call does with the same answers.
pub proof fn law_steps_read_storage(
    db: DbView,
    address: Address,
    index: U256,
    value: U256,
    account: Option<InfoView>,
    code: Option<Seq<u8>>,
)
    ensures
        ({
            let replies = seq![
                Reply::Storage(value),
                Reply::BasicAccount(account),
                Reply::AccountCode(code),
            ];
            let result = db.storage_result(address, index, value, answered_info(account, code));
            &&& db.run(Task::Storage(address, index), replies) == (
                Step::<InfoView>::Done(
                    match result.0 {
                        Some(value) => Outcome::Value(value),
                        None => Outcome::NoAccount,
                    },
                ),
                result.1,
            )
            &&& db.run(Task::StorageRef(address, index), replies) == (
                Step::<InfoView>::Done(
                    Outcome::Value(
                        match db.local_slot(address, index) {
                            Some(held) => held,
                            None => value,
                        },
                    ),
                ),
                db.read_slot(address, index),
            )
        }),
{
    let replies: Seq<Reply<InfoView, Seq<u8>>> = seq![
        Reply::Storage(value),
        Reply::BasicAccount(account),
        Reply::AccountCode(code),
    ];
    assert(replies.drop_first() =~= seq![Reply::BasicAccount(account), Reply::AccountCode(code)]);
    assert(replies.drop_first().drop_first() =~= seq![Reply::AccountCode(code)]);
    reveal_with_fuel(crate::steps::converse, 4);
}

/// A storage slot put in in steps ends as one put in in one call does with the same answer.
pub proof fn law_steps_insert_storage(
    db: DbView,
    address: Address,
    slot: U256,
    value: U256,
    insertion_type: InsertionType,
    account: Option<InfoView>,
)
    ensures
        ({
            let task = Task::InsertStorage { address, slot, value, insertion_type };
            let replies: Seq<Reply<InfoView, Seq<u8>>> = seq![Reply::BasicAccount(account)];
            db.run(task, replies) == if db.accounts.contains_key(address) {
                (
                    Step::<InfoView>::Done(Outcome::Inserted),
                    db.put_slot(address, slot, NodeDBSlot::custom(value)),
                )
            } else {
                match account {
                    Some(account) => (
                        Step::Done(Outcome::Inserted),
                        db.insert_slot(address, slot, value, insertion_type, account),
                    ),
                    None => (Step::Done(Outcome::NoAccount), db),
                }
            }
        }),
{
    reveal_with_fuel(crate::steps::converse, 2);
}

/// The code that an answer gives.
pub open spec fn code_view<E>(code: Result<Option<Bytecode>, E>) -> Result<Option<Seq<u8>>, E> {
    match code {
        Ok(code) => Ok(crate::account::code_bytes(code)),
        Err(e) => Err(e),
    }
}

/// The backend can give `reply` when it is asked `query`.
pub open spec fn given_by<B: NodeDBBackendSync>(
    backend: B,
    query: Query,
    reply: Reply<InfoView, Seq<u8>>,
) -> bool {
    match (query, reply) {
        (Query::BasicAccount(address), Reply::BasicAccount(found)) => exists|
            answer: Result<Option<AccountInfo>, B::Error>,
        |
            {
                &&& #[trigger] call_ensures(B::basic_account, (&backend, address), answer)
                &&& crate::backend::info_view(answer) == Ok::<Option<InfoView>, B::Error>(found)
            },
        (Query::AccountCode(address), Reply::AccountCode(code)) => exists|
            answer: Result<Option<Bytecode>, B::Error>,
        |
            {
                &&& #[trigger] call_ensures(B::account_code, (&backend, address), answer)
                &&& code_view(answer) == Ok::<Option<Seq<u8>>, B::Error>(code)
            },
        (Query::Storage(address, index), Reply::Storage(value)) => call_ensures(
            B::storage,
            (&backend, address, index),
            Ok(value),
        ),
        _ => false,
    }
}

/// If the task still asks after `n` replies, the next reply is one that the backend can give to the
/// question asked.
pub open spec fn reply_given<B: NodeDBBackendSync>(
    backend: B,
    db: DbView,
    task: Task,
    replies: Seq<Reply<InfoView, Seq<u8>>>,
    n: int,
) -> bool {
    db.run(task, replies.take(n)).0 matches Step::Ask(pending) ==> given_by(
        backend,
        pending.query(),
        replies[n],
    )
}

/// Each reply that the task takes is one that the backend can give to the question asked.
pub open spec fn replies_given<B: NodeDBBackendSync>(
    backend: B,
    db: DbView,
    task: Task,
    replies: Seq<Reply<InfoView, Seq<u8>>>,
) -> bool {
    forall|n: int| 0 <= n < replies.len() ==> #[trigger] reply_given(backend, db, task, replies, n)
}

/// A storage slot that was read in one call could have been read in steps, with the answers that
/// the backend gave: the outcome and the content left behind are the same.
pub proof fn law_storage_calls_are_runs<B: NodeDBBackendSync>(
    backend: B,
    before: DbView,
    address: Address,
    index: U256,
    res: Option<U256>,
    after: DbView,
)
    requires
        crate::backend::storage_read(backend, before, address, index, Ok(res), after),
    ensures
        exists|replies: Seq<Reply<InfoView, Seq<u8>>>|
            {
                &&& replies_given(backend, before, Task::Storage(address, index), replies)
                &&& #[trigger] before.run(Task::Storage(address, index), replies) == (
                    Step::<InfoView>::Done(
                        match res {
                            Some(value) => Outcome::Value(value),
                            None => Outcome::NoAccount,
                        },
                    ),
                    after,
                )
            },
{
    match before.local_slot(address, index) {
        Some(held) => {
            law_steps_read_storage(before, address, index, held, None, None);
            lemma_storage_replies_given(backend, before, address, index, held, None, None);
        },
        None => {
            let ok: Result<Option<U256>, B::Error> = Ok(res);
            let fetched = choose|fetched: Result<U256, B::Error>|
                {
                    &&& #[trigger] call_ensures(B::storage, (&backend, address, index), fetched)
                    &&& crate::backend::slot_fetched(
                        backend,
                        before,
                        address,
                        index,
                        fetched,
                        ok,
                        after,
                    )
                };
            let value = fetched->Ok_0;
            if before.accounts.contains_key(address) {
                law_steps_read_storage(before, address, index, value, None, None);
                lemma_storage_replies_given(backend, before, address, index, value, None, None);
            } else {
                let info = choose|info: Result<Option<InfoView>, B::Error>|
                    {
                        &&& #[trigger] crate::backend::chain_info(backend, address, info)
                        &&& crate::backend::slot_of_fetched_account(
                            before,
                            address,
                            index,
                            value,
                            info,
                            ok,
                            after,
                        )
                    };
                let (account, code) = lemma_chain_info_answers(backend, address, info->Ok_0);
                law_steps_read_storage(before, address, index, value, account, code);
                lemma_storage_replies_given(backend, before, address, index, value, account, code);
            }
        },
    }
}

/// Replies to the questions for a storage slot are given if each that is needed can be given.
proof fn lemma_storage_replies_given<B: NodeDBBackendSync>(
    backend: B,
    db: DbView,
    address: Address,
    index: U256,
    value: U256,
    account: Option<InfoView>,
    code: Option<Seq<u8>>,
)
    requires
        db.local_slot(address, index) is None ==> given_by(
            backend,
            Query::Storage(address, index),
            Reply::Storage(value),
        ),
        !db.accounts.contains_key(address) ==> {
            &&& given_by(backend, Query::BasicAccount(address), Reply::BasicAccount(account))
            &&& account is Some ==> given_by(
                backend,
                Query::AccountCode(address),
                Reply::AccountCode(code),
            )
        },
    ensures
        replies_given(
            backend,
            db,
            Task::Storage(address, index),
            seq![Reply::Storage(value), Reply::BasicAccount(account), Reply::AccountCode(code)],
        ),
{
    let task = Task::Storage(address, index);
    let replies: Seq<Reply<InfoView, Seq<u8>>> = seq![
        Reply::Storage(value),
        Reply::BasicAccount(account),
        Reply::AccountCode(code),
    ];
    assert(replies.take(0) =~= Seq::empty());
    assert(replies.take(1) =~= seq![replies[0]]);
    assert(replies.take(2) =~= seq![replies[0], replies[1]]);
    assert(replies.take(1).drop_first() =~= Seq::empty());
    assert(replies.take(2).drop_first() =~= seq![replies[1]]);
    reveal_with_fuel(crate::steps::converse, 4);
    assert(reply_given(backend, db, task, replies, 0));
    assert(reply_given(backend, db, task, replies, 1));
    assert(reply_given(backend, db, task, replies, 2));
}

/// Account data that a backend gave is made up of two answers.
proof fn lemma_chain_info_answers<B: NodeDBBackendSync>(
    backend: B,
    address: Address,
    info: Option<InfoView>,
) -> (res: (Option<InfoView>, Option<Seq<u8>>))
    requires
        crate::backend::chain_info(backend, address, Ok(info)),
    ensures
        answered_info(res.0, res.1) == info,
        given_by(backend, Query::BasicAccount(address), Reply::BasicAccount(res.0)),
        res.0 is Some ==> given_by(
            backend,
            Query::AccountCode(address),
            Reply::AccountCode(res.1),
        ),
{
    let ok: Result<Option<InfoView>, B::Error> = Ok(info);
    let (account, code) = choose|
        account: Result<Option<AccountInfo>, B::Error>,
        code: Result<Option<Bytecode>, B::Error>,
    |
        {
            &&& #[trigger] call_ensures(B::basic_account, (&backend, address), account)
            &&& account matches Ok(Some(_)) ==> call_ensures(
                B::account_code,
                (&backend, address),
                code,
            )
            &&& ok == #[trigger] crate::backend::fetched_info(account, code)
        };
    match account {
        Ok(Some(account)) => (Some(account@), crate::account::code_bytes(code->Ok_0)),
        _ => (None, None),
    }
}

/// An account that was read in one call could have been read in steps, with the answers that the
/// backend gave: with them the outcome is the same, and so is the content left behind.
pub proof fn law_account_calls_are_runs<B: NodeDBBackendSync>(
    backend: B,
    db: DbView,
    address: Address,
    info: Option<InfoView>,
)
    requires
        db.local_info(address) is None,
        crate::backend::chain_info(backend, address, Ok(info)),
    ensures
        exists|replies: Seq<Reply<InfoView, Seq<u8>>>|
            {
                &&& replies_given(backend, db, Task::Basic(address), replies)
                &&& replies_given(backend, db, Task::BasicRef(address), replies)
                &&& #[trigger] db.run(Task::Basic(address), replies) == (
                    Step::<InfoView>::Done(Outcome::Info(info)),
                    match info {
                        Some(info) => db.record_info(address, info),
                        None => db,
                    },
                )
                &&& db.run(Task::BasicRef(address), replies) == (
                    Step::<InfoView>::Done(Outcome::Info(info)),
                    db,
                )
            },
{
    let (account, code) = lemma_chain_info_answers(backend, address, info);
    law_steps_read_accounts(db, address, account, code);
    let replies: Seq<Reply<InfoView, Seq<u8>>> = seq![
        Reply::BasicAccount(account),
        Reply::AccountCode(code),
    ];
    assert(replies.take(0) =~= Seq::empty());
    assert(replies.take(1) =~= seq![replies[0]]);
    assert(replies.take(1).drop_first() =~= Seq::empty());
    reveal_with_fuel(crate::steps::converse, 3);
    assert(reply_given(backend, db, Task::Basic(address), replies, 0));
    assert(reply_given(backend, db, Task::Basic(address), replies, 1));
    assert(reply_given(backend, db, Task::BasicRef(address), replies, 0));
    assert(reply_given(backend, db, Task::BasicRef(address), replies, 1));
}

/// A storage slot that was put in in one call could have been put in in steps, with the answer that
/// the backend gave: the outcome and the content left behind are the same.
pub proof fn law_insertion_calls_are_runs<B: NodeDBBackendSync>(
    backend: B,
    before: DbView,
    address: Address,
    slot: U256,
    value: U256,
    insertion_type: InsertionType,
    inserted: bool,
    after: DbView,
)
    requires
        crate::backend::storage_inserted(
            backend,
            before,
            address,
            slot,
            value,
            insertion_type,
            Ok(inserted),
            after,
        ),
    ensures
        ({
            let task = Task::InsertStorage { address, slot, value, insertion_type };
            exists|replies: Seq<Reply<InfoView, Seq<u8>>>|
                {
                    &&& replies_given(backend, before, task, replies)
                    &&& #[trigger] before.run(task, replies) == (
                        Step::<InfoView>::Done(
                            if inserted {
                                Outcome::Inserted
                            } else {
                                Outcome::NoAccount
                            },
                        ),
                        after,
                    )
                }
        }),
{
    let task = Task::InsertStorage { address, slot, value, insertion_type };
    let account: Option<InfoView> = if before.accounts.contains_key(address) {
        None
    } else {
        let answer = choose|answer: Result<Option<AccountInfo>, B::Error>|
            {
                &&& #[trigger] call_ensures(B::basic_account, (&backend, address), answer)
                &&& answer is Ok
                &&& inserted == answer->Ok_0 is Some
                &&& after == match answer->Ok_0 {
                    Some(account) => before.insert_slot(
                        address,
                        slot,
                        value,
                        insertion_type,
                        account@,
                    ),
                    None => before,
                }
            };
        crate::backend::info_view(answer)->Ok_0
    };
    let replies: Seq<Reply<InfoView, Seq<u8>>> = seq![Reply::BasicAccount(account)];
    law_steps_insert_storage(before, address, slot, value, insertion_type, account);
    assert(replies.take(0) =~= Seq::empty());
    assert(reply_given(backend, before, task, replies, 0));
}

/// The backend can fail with `e` when it is asked `query`.
pub open spec fn fails_with<B: NodeDBBackendSync>(backend: B, query: Query, e: B::Error) -> bool {
    match query {
        Query::BasicAccount(address) => call_ensures(
            B::basic_account,
            (&backend, address),
            Err(e),
        ),
        Query::AccountCode(address) => call_ensures(B::account_code, (&backend, address), Err(e)),
        Query::Storage(address, index) => call_ensures(
            B::storage,
            (&backend, address, index),
            Err(e),
        ),
    }
}

/// With replies that the backend can give, the task comes to a question with which the backend can
/// fail with `e`, and leaves the content `after` behind.
pub open spec fn run_fails<B: NodeDBBackendSync>(
    backend: B,
    before: DbView,
    task: Task,
    replies: Seq<Reply<InfoView, Seq<u8>>>,
    e: B::Error,
    after: DbView,
) -> bool {
    let end = before.run(task, replies);
    &&& replies_given(backend, before, task, replies)
    &&& end.0 matches Step::Ask(pending) && fails_with(backend, pending.query(), e)
    &&& end.1 == after
}

/// A storage slot whose reading failed in one call could have failed in steps, at the same question
/// with the same error: the content left behind is the same.
pub proof fn law_failed_storage_calls_are_runs<B: NodeDBBackendSync>(
    backend: B,
    before: DbView,
    address: Address,
    index: U256,
    e: B::Error,
    after: DbView,
)
    requires
        crate::backend::storage_read(backend, before, address, index, Err(e), after),
    ensures
        exists|replies: Seq<Reply<InfoView, Seq<u8>>>| #[trigger]
            run_fails(backend, before, Task::Storage(address, index), replies, e, after),
{
    let task = Task::Storage(address, index);
    let res: Result<Option<U256>, B::Error> = Err(e);
    let fetched = choose|fetched: Result<U256, B::Error>|
        {
            &&& #[trigger] call_ensures(B::storage, (&backend, address, index), fetched)
            &&& crate::backend::slot_fetched(backend, before, address, index, fetched, res, after)
        };
    reveal_with_fuel(crate::steps::converse, 4);
    match fetched {
        Err(_) => {
            let replies: Seq<Reply<InfoView, Seq<u8>>> = Seq::empty();
            assert(run_fails(backend, before, task, replies, e, after));
        },
        Ok(value) => {
            let info = choose|info: Result<Option<InfoView>, B::Error>|
                {
                    &&& #[trigger] crate::backend::chain_info(backend, address, info)
                    &&& crate::backend::slot_of_fetched_account(
                        before,
                        address,
                        index,
                        value,
                        info,
                        res,
                        after,
                    )
                };
            assert(info == Err::<Option<InfoView>, B::Error>(e));
            let failed = lemma_chain_info_fails(backend, address, e);
            match failed {
                None => {
                    let replies: Seq<Reply<InfoView, Seq<u8>>> = seq![Reply::Storage(value)];
                    assert(replies.drop_first() =~= Seq::empty());
                    assert(replies.take(0) =~= Seq::empty());
                    assert(reply_given(backend, before, task, replies, 0));
                    assert(run_fails(backend, before, task, replies, e, after));
                },
                Some(account) => {
                    let replies: Seq<Reply<InfoView, Seq<u8>>> = seq![
                        Reply::Storage(value),
                        Reply::BasicAccount(Some(account)),
                    ];
                    assert(replies.drop_first() =~= seq![replies[1]]);
                    assert(replies.drop_first().drop_first() =~= Seq::empty());
                    assert(replies.take(0) =~= Seq::empty());
                    assert(replies.take(1) =~= seq![replies[0]]);
                    assert(replies.take(1).drop_first() =~= Seq::empty());
                    assert(reply_given(backend, before, task, replies, 0));
                    assert(reply_given(backend, before, task, replies, 1));
                    assert(run_fails(backend, before, task, replies, e, after));
                },
            }
        },
    }
}

/// Fetching an account failed either for its data, or for its code once its data was given.
proof fn lemma_chain_info_fails<B: NodeDBBackendSync>(
    backend: B,
    address: Address,
    e: B::Error,
) -> (res: Option<InfoView>)
    requires
        crate::backend::chain_info(backend, address, Err(e)),
    ensures
        match res {
            None => fails_with(backend, Query::BasicAccount(address), e),
            Some(account) => {
                &&& given_by(
                    backend,
                    Query::BasicAccount(address),
                    Reply::BasicAccount(Some(account)),
                )
                &&& fails_with(backend, Query::AccountCode(address), e)
            },
        },
{
    let err: Result<Option<InfoView>, B::Error> = Err(e);
    let (account, code) = choose|
        account: Result<Option<AccountInfo>, B::Error>,
        code: Result<Option<Bytecode>, B::Error>,
    |
        {
            &&& #[trigger] call_ensures(B::basic_account, (&backend, address), account)
            &&& account matches Ok(Some(_)) ==> call_ensures(
                B::account_code,
                (&backend, address),
                code,
            )
            &&& err == #[trigger] crate::backend::fetched_info(account, code)
        };
    match account {
        Ok(Some(account)) => Some(account@),
        _ => None,
    }
}

/// An account whose reading failed in one call could have failed in steps, at the same question with
/// the same error: nothing has changed.
pub proof fn law_failed_account_calls_are_runs<B: NodeDBBackendSync>(
    backend: B,
    db: DbView,
    address: Address,
    e: B::Error,
)
    requires
        db.local_info(address) is None,
        crate::backend::chain_info(backend, address, Err(e)),
    ensures
        exists|replies: Seq<Reply<InfoView, Seq<u8>>>|
            {
                &&& #[trigger] run_fails(backend, db, Task::Basic(address), replies, e, db)
                &&& run_fails(backend, db, Task::BasicRef(address), replies, e, db)
            },
{
    reveal_with_fuel(crate::steps::converse, 3);
    match lemma_chain_info_fails(backend, address, e) {
        None => {
            let replies: Seq<Reply<InfoView, Seq<u8>>> = Seq::empty();
            assert(run_fails(backend, db, Task::Basic(address), replies, e, db));
        },
        Some(account) => {
            let replies: Seq<Reply<InfoView, Seq<u8>>> = seq![Reply::BasicAccount(Some(account))];
            assert(replies.drop_first() =~= Seq::empty());
            assert(replies.take(0) =~= Seq::empty());
            assert(reply_given(backend, db, Task::Basic(address), replies, 0));
            assert(reply_given(backend, db, Task::BasicRef(address), replies, 0));
            assert(run_fails(backend, db, Task::Basic(address), replies, e, db));
        },
    }
}

/// A storage slot that could not be put in in one call could have failed in steps, at the same
/// question with the same error: nothing has changed.
pub proof fn law_failed_insertion_calls_are_runs<B: NodeDBBackendSync>(
    backend: B,
    before: DbView,
    address: Address,
    slot: U256,
    value: U256,
    insertion_type: InsertionType,
    e: B::Error,
    after: DbView,
)
    requires
        crate::backend::storage_inserted(
            backend,
            before,
            address,
            slot,
            value,
            insertion_type,
            Err(e),
            after,
        ),
    ensures
        exists|replies: Seq<Reply<InfoView, Seq<u8>>>| #[trigger]
            run_fails(
                backend,
                before,
                Task::InsertStorage { address, slot, value, insertion_type },
                replies,
                e,
                after,
            ),
{
    let task = Task::InsertStorage { address, slot, value, insertion_type };
    let replies: Seq<Reply<InfoView, Seq<u8>>> = Seq::empty();
    assert(run_fails(backend, before, task, replies, e, after));
}

/// A storage slot that was read in one call without being kept could have been read in steps, with
/// the answer or the failure that the backend gave.
pub proof fn law_unkept_storage_calls_are_runs<B: NodeDBBackendSync>(
    backend: B,
    db: DbView,
    address: Address,
    index: U256,
    res: Result<U256, B::Error>,
)
    requires
        db.local_slot(address, index) is None,
        call_ensures(B::storage, (&backend, address, index), res),
    ensures
        ({
            let task = Task::StorageRef(address, index);
            let after = db.read_slot(address, index);
            match res {
                Ok(value) => exists|replies: Seq<Reply<InfoView, Seq<u8>>>|
                    {
                        &&& replies_given(backend, db, task, replies)
                        &&& #[trigger] db.run(task, replies) == (
                            Step::<InfoView>::Done(Outcome::Value(value)),
                            after,
                        )
                    },
                Err(e) => exists|replies: Seq<Reply<InfoView, Seq<u8>>>| #[trigger]
                    run_fails(backend, db, task, replies, e, after),
            }
        }),
{
    let task = Task::StorageRef(address, index);
    let after = db.read_slot(address, index);
    reveal_with_fuel(crate::steps::converse, 2);
    match res {
        Ok(value) => {
            let replies: Seq<Reply<InfoView, Seq<u8>>> = seq![Reply::Storage(value)];
            assert(replies.take(0) =~= Seq::empty());
            assert(reply_given(backend, db, task, replies, 0));
            assert(db.run(task, replies) == (
                Step::<InfoView>::Done(Outcome::Value(value)),
                after,
            ));
        },
        Err(e) => {
            let replies: Seq<Reply<InfoView, Seq<u8>>> = Seq::empty();
            assert(run_fails(backend, db, task, replies, e, after));
        },
    }
}

/// Reading a storage slot in one call keeps every custom account and every custom slot, whatever the
/// backend answers and whether it fails or not.
pub proof fn law_storage_calls_keep_custom_data<B: NodeDBBackendSync>(
    backend: B,
    before: DbView,
    address: Address,
    index: U256,
    res: Result<Option<U256>, B::Error>,
    after: DbView,
)
    requires
        crate::backend::storage_read(backend, before, address, index, res, after),
    ensures
        keeps_custom(before, after),
{
    match res {
        Ok(value) => {
            law_storage_calls_are_runs(backend, before, address, index, value, after);
            let task = Task::Storage(address, index);
            let replies = choose|replies: Seq<Reply<InfoView, Seq<u8>>>|
                {
                    &&& replies_given(backend, before, task, replies)
                    &&& #[trigger] before.run(task, replies) == (
                        Step::<InfoView>::Done(
                            match value {
                                Some(value) => Outcome::Value(value),
                                None => Outcome::NoAccount,
                            },
                        ),
                        after,
                    )
                };
            law_reads_keep_custom_data(before, task, replies);
        },
        Err(_) => {
            assert(after == before.read_slot(address, index));
        },
    }
}

/// A storage slot that was put in in one call is answered with its value from then on, and every
/// other custom account and slot as before, whatever the backend answered. Where there was no
/// account, or the backend failed, nothing has changed.
pub proof fn law_insertion_calls_are_answered<B: NodeDBBackendSync>(
    backend: B,
    before: DbView,
    address: Address,
    slot: U256,
    value: U256,
    insertion_type: InsertionType,
    res: Result<bool, B::Error>,
    after: DbView,
)
    requires
        crate::backend::storage_inserted(
            backend,
            before,
            address,
            slot,
            value,
            insertion_type,
            res,
            after,
        ),
    ensures
        match res {
            Ok(true) => {
                &&& after.local_slot(address, slot) == Some(value)
                &&& keeps_custom_but(before, after, address, slot)
            },
            _ => after == before,
        },
{
}

/// What a task can end with: account data where an account was asked for, a value where a slot was,
/// and the news of an insertion where a slot was put in. Only a slot that is kept or put in needs an
/// account.
pub open spec fn ends_as_asked(task: Task, outcome: Outcome<InfoView>) -> bool {
    match task {
        Task::Basic(_) => outcome is Info,
        Task::BasicRef(_) => outcome is Info,
        Task::Storage(_, _) => outcome is Value || outcome is NoAccount,
        Task::StorageRef(_, _) => outcome is Value,
        Task::InsertStorage { .. } => outcome is Inserted || outcome is NoAccount,
    }
}

/// Whatever the chain answers, and whether or not it answers the questions asked, a task that ends
/// ends with what was asked for.
pub proof fn law_tasks_end_as_asked(
    db: DbView,
    task: Task,
    replies: Seq<Reply<InfoView, Seq<u8>>>,
)
    ensures
        db.run(task, replies).0 matches Step::Done(outcome) ==> ends_as_asked(task, outcome),
{
    lemma_work_ends_as_asked(task, db.start(task), replies);
}

/// Pending work that a task can lead to.
spec fn work_of(task: Task, pending: Pending<InfoView>) -> bool {
    match task {
        Task::Basic(_) => pending is Account || pending is Code,
        Task::BasicRef(_) => pending is Account || pending is Code,
        Task::Storage(_, _) => pending is Value || pending is SlotAccount || pending is SlotCode,
        Task::StorageRef(_, _) => pending matches Pending::Value { keep, .. } && !keep,
        Task::InsertStorage { .. } => pending is InsertAccount,
    }
}

/// Going on with the work of a task leads to what was asked for.
proof fn lemma_work_ends_as_asked(
    task: Task,
    at: (Step<InfoView>, DbView),
    replies: Seq<Reply<InfoView, Seq<u8>>>,
)
    requires
        match at.0 {
            Step::Ask(pending) => work_of(task, pending),
            Step::Done(outcome) => ends_as_asked(task, outcome),
        },
    ensures
        crate::steps::converse(at, replies).0 matches Step::Done(outcome) ==> ends_as_asked(
            task,
            outcome,
        ),
    decreases replies.len(),
{
    if let Step::Ask(pending) = at.0 {
        if replies.len() > 0 {
            lemma_work_ends_as_asked(
                task,
                at.1.resume(pending, replies[0]),
                replies.drop_first(),
            );
        }
    }
}

/// An answer of the kind that was asked for never has the same question asked again: of each task
/// at most three questions are asked, and it ends with what was asked for.
pub proof fn law_tasks_end(db: DbView, task: Task, replies: Seq<Reply<InfoView, Seq<u8>>>)
    requires
        replies.len() >= 3,
        forall|n: int| 0 <= n < 3 ==> #[trigger] answers_question(db, task, replies, n),
    ensures
        db.run(task, replies).0 matches Step::Done(outcome) && ends_as_asked(task, outcome),
{
    law_tasks_end_as_asked(db, task, replies);
    assert(answers_question(db, task, replies, 0));
    assert(answers_question(db, task, replies, 1));
    assert(answers_question(db, task, replies, 2));
    assert(replies.take(0) =~= Seq::empty());
    assert(replies.take(1) =~= seq![replies[0]]);
    assert(replies.take(2) =~= seq![replies[0], replies[1]]);
    assert(replies.take(1).drop_first() =~= Seq::empty());
    assert(replies.take(2).drop_first() =~= seq![replies[1]]);
    reveal_with_fuel(crate::steps::converse, 4);
}

/// A reply is of the kind that a question asks for.
pub open spec fn answers(reply: Reply<InfoView, Seq<u8>>, query: Query) -> bool {
    match query {
        Query::BasicAccount(_) => reply is BasicAccount,
        Query::AccountCode(_) => reply is AccountCode,
        Query::Storage(_, _) => reply is Storage,
    }
}

/// If the task still asks after `n` answers, the next answer is of the kind asked for.
pub open spec fn answers_question(
    db: DbView,
    task: Task,
    replies: Seq<Reply<InfoView, Seq<u8>>>,
    n: int,
) -> bool {
    db.run(task, replies.take(n)).0 matches Step::Ask(pending) ==> answers(
        replies[n],
        pending.query(),
    )
}

// ---------------------------------------------------------------------------------------------
// Recorded reads
// ---------------------------------------------------------------------------------------------

/// The content after storage slots were read, one after the other.
pub open spec fn read_all(db: DbView, reads: Seq<(Address, U256)>) -> DbView
    decreases reads.len(),
{
    if reads.len() == 0 {
        db
    } else {
        read_all(db, reads.drop_last()).read_slot(reads.last().0, reads.last().1)
    }
}

/// What reads add to the record, where reads are recorded.
proof fn lemma_reads_recorded(db: DbView, reads: Seq<(Address, U256)>, address: Address)
    requires
        db.tracing,
    ensures
        read_all(db, reads).tracing,
        forall|slot: U256| #[trigger]
            read_all(db, reads).slots_read(address).contains(slot) <==> db.slots_read(
                address,
            ).contains(slot) || reads.contains((address, slot)),
    decreases reads.len(),
{
    if reads.len() > 0 {
        let earlier = reads.drop_last();
        lemma_reads_recorded(db, earlier, address);
        assert forall|slot: U256| #[trigger]
            read_all(db, reads).slots_read(address).contains(slot) <==> db.slots_read(
                address,
            ).contains(slot) || reads.contains((address, slot)) by {
            let read = (address, slot);
            let before = read_all(db, earlier);
            assert(before.slots_read(address).contains(slot) <==> db.slots_read(address).contains(
                slot,
            ) || earlier.contains(read));
            assert(read_all(db, reads).slots_read(address).contains(slot) <==> before.slots_read(
                address,
            ).contains(slot) || (reads.last().0 == address && reads.last().1 == slot));
            assert(reads.contains(read) <==> earlier.contains(read) || reads.last() == read) by {
                if reads.contains(read) {
                    let i = choose|i: int| 0 <= i < reads.len() && reads[i] == read;
                    if i < earlier.len() {
                        assert(earlier[i] == read);
                    }
                }
                if earlier.contains(read) {
                    let i = choose|i: int| 0 <= i < earlier.len() && earlier[i] == read;
                    assert(reads[i] == read);
                }
                assert(reads[reads.len() - 1] == reads.last());
            }
        }
    }
}

/// After recording was started anew, the slots recorded of an account are exactly those that were
/// read since, and stopping to record keeps them while later reads add nothing.
pub proof fn law_recorded_reads(
    db: DbView,
    reads: Seq<(Address, U256)>,
    later: Seq<(Address, U256)>,
    address: Address,
)
    ensures
        ({
            let recorded = read_all(db.start_tracing(), reads);
            let stopped = recorded.stop_tracing();
            &&& forall|slot: U256| #[trigger]
                recorded.slots_read(address).contains(slot) <==> reads.contains((address, slot))
            &&& stopped.slots_read(address) == recorded.slots_read(address)
            &&& read_all(stopped, later) == stopped
        }),
{
    lemma_reads_recorded(db.start_tracing(), reads, address);
    lemma_unrecorded_reads(read_all(db.start_tracing(), reads).stop_tracing(), later);
}

/// Reads that are not recorded change nothing.
proof fn lemma_unrecorded_reads(db: DbView, reads: Seq<(Address, U256)>)
    requires
        !db.tracing,
    ensures
        read_all(db, reads) == db,
    decreases reads.len(),
{
    if reads.len() > 0 {
        lemma_unrecorded_reads(db, reads.drop_last());
    }
}

/// Going on with a task records no read and deploys no code.
proof fn lemma_converse_records_nothing(
    at: (Step<InfoView>, DbView),
    replies: Seq<Reply<InfoView, Seq<u8>>>,
)
    ensures
        ({
            let after = crate::steps::converse(at, replies).1;
            &&& after.accessed == at.1.accessed
            &&& after.tracing == at.1.tracing
            &&& after.contracts == at.1.contracts
        }),
    decreases replies.len(),
{
    if let Step::Ask(pending) = at.0 {
        if replies.len() > 0 {
            lemma_converse_records_nothing(
                at.1.resume(pending, replies[0]),
                replies.drop_first(),
            );
        }
    }
}

/// Each reading of a storage slot is recorded as that one read, whatever the chain answers and
/// whether the value is kept or not. Nothing else is recorded.
pub proof fn law_storage_reads_are_recorded(
    db: DbView,
    task: Task,
    replies: Seq<Reply<InfoView, Seq<u8>>>,
)
    ensures
        ({
            let after = db.run(task, replies).1;
            let recorded = match task {
                Task::Storage(address, index) => db.read_slot(address, index),
                Task::StorageRef(address, index) => db.read_slot(address, index),
                _ => db,
            };
            &&& after.accessed == recorded.accessed
            &&& after.tracing == db.tracing
            &&& after.contracts == db.contracts
        }),
{
    lemma_converse_records_nothing(db.start(task), replies);
}

/// Recording reads never shows in what the database answers: accounts and code are the same with it
/// and without it.
pub proof fn law_recording_is_invisible(db: DbView, reads: Seq<(Address, U256)>)
    ensures
        read_all(db, reads).accounts == db.accounts,
        read_all(db, reads).contracts == db.contracts,
        db.start_tracing().accounts == db.accounts,
        db.start_tracing().contracts == db.contracts,
        db.stop_tracing().accounts == db.accounts,
        db.stop_tracing().contracts == db.contracts,
    decreases reads.len(),
{
    if reads.len() > 0 {
        law_recording_is_invisible(db, reads.drop_last());
    }
}

// ---------------------------------------------------------------------------------------------
// The node's database
// ---------------------------------------------------------------------------------------------

/// The view of the chain only ever moves forward, and as far as the last block of the node's
/// database: no renewal is left to do after one.
pub proof fn law_view_moves_forward(current: u64, db_block: u64)
    ensures
        ({
            let next = crate::provider::next_block(current, db_block);
            &&& next matches Some(block) ==> block > db_block && block == current
                && crate::provider::next_block(current, block) is None
            &&& next is None ==> current <= db_block
        }),
{
}

/// Account data that a node's database makes up is complete: completing it with the code of the
/// same account, as reading an account does, changes nothing.
pub proof fn law_stored_accounts_are_complete(account: StoredAccount, code: Option<Seq<u8>>)
    ensures
        crate::provider::stored_info(account, code).with_code(code)
            == crate::provider::stored_info(account, code),
{
}

// ---------------------------------------------------------------------------------------------
// Searching a slot
// ---------------------------------------------------------------------------------------------

/// Whatever the order in which the recorded slots are searched, a slot is found just when one of
/// them holds the value, and the slot found is one of them and holds it.
pub proof fn law_search_finds_recorded_slot(
    db: DbView,
    token: Address,
    slots: Seq<U256>,
    values: Map<U256, U256>,
    target: U256,
)
    requires
        slots.to_set() == db.slots_read(token),
    ensures
        match crate::search::first_holding(slots, values, target) {
            Some(found) => db.slots_read(token).contains(found) && values[found] == target,
            None => forall|slot: U256| #[trigger]
                db.slots_read(token).contains(slot) ==> values[slot] != target,
        },
{
    law_search_finds_first(slots, values, target);
    match crate::search::first_holding(slots, values, target) {
        Some(found) => {
            assert(slots.contains(found));
            assert(slots.to_set().contains(found));
        },
        None => {
            assert forall|slot: U256| #[trigger]
                db.slots_read(token).contains(slot) implies values[slot] != target by {
                assert(slots.to_set().contains(slot));
                assert(slots.contains(slot));
            }
        },
    }
}

/// A search gives the first slot that holds the value, and fails only where none does.
pub proof fn law_search_finds_first(slots: Seq<U256>, values: Map<U256, U256>, target: U256)
    ensures
        match crate::search::first_holding(slots, values, target) {
            Some(found) => exists|i: int|
                {
                    &&& 0 <= i < slots.len()
                    &&& #[trigger] slots[i] == found
                    &&& values[found] == target
                    &&& forall|j: int| 0 <= j < i ==> values[#[trigger] slots[j]] != target
                },
            None => forall|i: int| 0 <= i < slots.len() ==> values[#[trigger] slots[i]] != target,
        },
    decreases slots.len(),
{
    if slots.len() > 0 && values[slots[0]] != target {
        let rest = slots.drop_first();
        law_search_finds_first(rest, values, target);
        match crate::search::first_holding(rest, values, target) {
            Some(found) => {
                let k = choose|i: int|
                    {
                        &&& 0 <= i < rest.len()
                        &&& #[trigger] rest[i] == found
                        &&& values[found] == target
                        &&& forall|j: int| 0 <= j < i ==> values[#[trigger] rest[j]] != target
                    };
                assert(slots[k + 1] == found);
                assert forall|j: int| 0 <= j < k + 1 implies values[#[trigger] slots[j]]
                    != target by {
                    if j > 0 {
                        assert(rest[j - 1] == slots[j]);
                    }
                }
            },
            None => {
                assert forall|i: int| 0 <= i < slots.len() implies values[#[trigger] slots[i]]
                    != target by {
                    if i > 0 {
                        assert(rest[i - 1] == slots[i]);
                    }
                }
            },
        }
    }
}

// ---------------------------------------------------------------------------------------------
// Encoded words
// ---------------------------------------------------------------------------------------------

/// The number of values that `len` bytes can take.
spec fn byte_range(len: nat) -> nat
    decreases len,
{
    if len == 0 {
        1
    } else {
        256 * byte_range((len - 1) as nat)
    }
}

/// The bytes of a number that fits stand for that number.
proof fn lemma_be_value_of_be_bytes(value: nat, len: nat)
    requires
        value < byte_range(len),
    ensures
        crate::abi::be_bytes(value, len).len() == len,
        crate::abi::be_value(crate::abi::be_bytes(value, len)) == value,
    decreases len,
{
    if len > 0 {
        lemma_be_value_of_be_bytes(value / 256, (len - 1) as nat);
        let bytes = crate::abi::be_bytes(value, len);
        assert(bytes.drop_last() =~= crate::abi::be_bytes(value / 256, (len - 1) as nat));
    }
}

/// Decoding gives back the word that was encoded, whatever follows it, and no other word.
pub proof fn law_decoding_undoes_encoding(word: U256, rest: Seq<u8>, decoded: U256)
    ensures
        ({
            let output = crate::abi::be_bytes(word.value(), 32) + rest;
            &&& output.len() >= 32
            &&& decoded.value() == crate::abi::be_value(output.take(32)) <==> decoded == word
        }),
{
    reveal_with_fuel(byte_range, 33);
    assert(byte_range(32) == crate::primitives::half_weight() * crate::primitives::half_weight());
    lemma_be_value_of_be_bytes(word.value(), 32);
    let bytes = crate::abi::be_bytes(word.value(), 32);
    assert((bytes + rest).take(32) =~= bytes);
}

} // verus!
