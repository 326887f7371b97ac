//! What holds of taking over the changes of a transaction.

use vstd::prelude::*;

use crate::account::{AccountState, InfoView, InsertionType, NodeDBSlot};
use crate::commit::{ChangeView, EvmStorageSlot};
use crate::db::DbView;
use crate::primitives::{Address, B256, U256};

verus! {

/// No account is listed twice.
pub open spec fn distinct_accounts(changes: Seq<(Address, ChangeView)>) -> bool {
    forall|i: int, j: int|
        0 <= i < j < changes.len() ==> (#[trigger] changes[i]).0 != (#[trigger] changes[j]).0
}

/// No slot is listed twice.
pub open spec fn distinct_slots(storage: Seq<(U256, EvmStorageSlot)>) -> bool {
    forall|i: int, j: int|
        0 <= i < j < storage.len() ==> (#[trigger] storage[i]).0 != (#[trigger] storage[j]).0
}

/// The slot is listed.
pub open spec fn lists_slot(storage: Seq<(U256, EvmStorageSlot)>, slot: U256) -> bool {
    exists|i: int| 0 <= i < storage.len() && (#[trigger] storage[i]).0 == slot
}

/// The account at `address` is not listed, or listed without having been touched.
pub open spec fn unaffected(changes: Seq<(Address, ChangeView)>, address: Address) -> bool {
    forall|i: int|
        0 <= i < changes.len() ==> (#[trigger] changes[i]).0 != address || !changes[i].1.touched()
}

/// A list leaves only listed slots behind, and a list of distinct slots all of them, with their
/// values.
proof fn lemma_committed_slots(storage: Seq<(U256, EvmStorageSlot)>)
    ensures
        forall|slot: U256| #[trigger]
            crate::commit::committed_slots(storage).contains_key(slot) ==> lists_slot(
                storage,
                slot,
            ),
        distinct_slots(storage) ==> forall|i: int|
            0 <= i < storage.len() ==> {
                let slots = crate::commit::committed_slots(storage);
                &&& slots.contains_key((#[trigger] storage[i]).0)
                &&& slots[storage[i].0] == NodeDBSlot::custom(storage[i].1.present_value)
            },
    decreases storage.len(),
{
    if storage.len() > 0 {
        let earlier = storage.drop_last();
        lemma_committed_slots(earlier);
        assert forall|slot: U256| #[trigger]
            crate::commit::committed_slots(storage).contains_key(slot) implies lists_slot(
            storage,
            slot,
        ) by {
            if slot == storage.last().0 {
                assert(storage[storage.len() - 1].0 == slot);
            } else {
                let i = choose|i: int| 0 <= i < earlier.len() && (#[trigger] earlier[i]).0 == slot;
                assert(storage[i].0 == slot);
            }
        }
        if distinct_slots(storage) {
            assert forall|i: int, j: int| 0 <= i < j < earlier.len() implies (
            #[trigger] earlier[i]).0 != (#[trigger] earlier[j]).0 by {
                assert(storage[i].0 != storage[j].0);
            }
            assert forall|i: int| 0 <= i < storage.len() implies {
                let slots = crate::commit::committed_slots(storage);
                &&& slots.contains_key((#[trigger] storage[i]).0)
                &&& slots[storage[i].0] == NodeDBSlot::custom(storage[i].1.present_value)
            } by {
                if i < earlier.len() {
                    assert(earlier[i] == storage[i]);
                    assert(storage[i].0 != storage[storage.len() - 1].0);
                }
            }
        }
    }
}

/// An account that is not listed, or was not touched, stays as it is held. Recorded reads are not
/// affected at all.
pub proof fn law_commit_leaves_others(
    db: DbView,
    changes: Seq<(Address, ChangeView)>,
    address: Address,
)
    ensures
        unaffected(changes, address) ==> db.commit_all(changes).held(address) == db.held(address),
        db.commit_all(changes).accessed == db.accessed,
        db.commit_all(changes).tracing == db.tracing,
    decreases changes.len(),
{
    if changes.len() > 0 {
        let earlier = changes.drop_last();
        law_commit_leaves_others(db, earlier, address);
        if unaffected(changes, address) {
            assert(changes[changes.len() - 1] == changes.last());
            assert(unaffected(earlier, address)) by {
                assert forall|i: int| 0 <= i < earlier.len() implies (#[trigger] earlier[i]).0
                    != address || !earlier[i].1.touched() by {
                    assert(earlier[i] == changes[i]);
                }
            }
        }
    }
}

/// A touched account is held afterwards as its change turns the one held before into, wherever in
/// the list it stands.
pub proof fn law_commit_applies_changes(
    db: DbView,
    changes: Seq<(Address, ChangeView)>,
    i: int,
)
    requires
        distinct_accounts(changes),
        0 <= i < changes.len(),
        changes[i].1.touched(),
    ensures
        db.commit_all(changes).held(changes[i].0) == Some(
            changes[i].1.applied(db.held(changes[i].0)),
        ),
    decreases changes.len(),
{
    let earlier = changes.drop_last();
    let address = changes[i].0;
    assert(distinct_accounts(earlier)) by {
        assert forall|j: int, k: int| 0 <= j < k < earlier.len() implies (#[trigger] earlier[j]).0
            != (#[trigger] earlier[k]).0 by {
            assert(changes[j].0 != changes[k].0);
        }
    }
    if i < earlier.len() {
        assert(earlier[i] == changes[i]);
        law_commit_applies_changes(db, earlier, i);
        assert(changes[changes.len() - 1].0 != address);
    } else {
        assert(unaffected(earlier, address)) by {
            assert forall|j: int| 0 <= j < earlier.len() implies (#[trigger] earlier[j]).0
                != address || !earlier[j].1.touched() by {
                assert(changes[j].0 != changes[i].0);
            }
        }
        law_commit_leaves_others(db, earlier, address);
    }
}

/// What a transaction left in a storage slot is read back afterwards with no question to the chain,
/// unless the account was destroyed.
pub proof fn law_committed_slots_are_answered(
    db: DbView,
    changes: Seq<(Address, ChangeView)>,
    i: int,
    j: int,
)
    requires
        distinct_accounts(changes),
        0 <= i < changes.len(),
        changes[i].1.touched(),
        !changes[i].1.destroyed(),
        distinct_slots(changes[i].1.storage),
        0 <= j < changes[i].1.storage.len(),
    ensures
        db.commit_all(changes).local_slot(changes[i].0, changes[i].1.storage[j].0) == Some(
            changes[i].1.storage[j].1.present_value,
        ),
{
    law_commit_applies_changes(db, changes, i);
    lemma_committed_slots(changes[i].1.storage);
}

/// A slot that the transaction did not load is answered as before, unless the account was destroyed
/// or created anew.
pub proof fn law_commit_leaves_other_slots(
    db: DbView,
    changes: Seq<(Address, ChangeView)>,
    i: int,
    slot: U256,
)
    requires
        distinct_accounts(changes),
        0 <= i < changes.len(),
        changes[i].1.touched(),
        !changes[i].1.destroyed(),
        !changes[i].1.created(),
        !lists_slot(changes[i].1.storage, slot),
    ensures
        db.commit_all(changes).local_slot(changes[i].0, slot) == db.local_slot(changes[i].0, slot),
{
    law_commit_applies_changes(db, changes, i);
    lemma_committed_slots(changes[i].1.storage);
}

/// A destroyed account has no data and no storage afterwards: no slot of it is answered without
/// asking the chain.
pub proof fn law_destroyed_accounts_are_empty(
    db: DbView,
    changes: Seq<(Address, ChangeView)>,
    i: int,
    slot: U256,
)
    requires
        distinct_accounts(changes),
        0 <= i < changes.len(),
        changes[i].1.touched(),
        changes[i].1.destroyed(),
    ensures
        ({
            let after = db.commit_all(changes);
            let account = after.accounts[changes[i].0];
            &&& after.accounts.contains_key(changes[i].0)
            &&& account.info == InfoView::empty()
            &&& account.state == AccountState::NotExisting
            &&& account.storage == Map::<U256, NodeDBSlot>::empty()
            &&& after.local_slot(changes[i].0, slot) is None
        }),
{
    law_commit_applies_changes(db, changes, i);
}

/// A created account has exactly the slots afterwards that the transaction loaded.
pub proof fn law_created_accounts_start_anew(
    db: DbView,
    changes: Seq<(Address, ChangeView)>,
    i: int,
)
    requires
        distinct_accounts(changes),
        0 <= i < changes.len(),
        changes[i].1.touched(),
        !changes[i].1.destroyed(),
        changes[i].1.created(),
    ensures
        ({
            let account = db.commit_all(changes).accounts[changes[i].0];
            &&& account.storage == crate::commit::committed_slots(changes[i].1.storage)
            &&& account.state == AccountState::StorageCleared
        }),
{
    law_commit_applies_changes(db, changes, i);
    let slots = crate::commit::committed_slots(changes[i].1.storage);
    assert(Map::<U256, NodeDBSlot>::empty().union_prefer_right(slots) =~= slots);
}

/// A transaction never changes whether an account is custom. An account that was not held before is
/// an on-chain one afterwards.
pub proof fn law_commit_keeps_account_types(
    db: DbView,
    changes: Seq<(Address, ChangeView)>,
    i: int,
)
    requires
        distinct_accounts(changes),
        0 <= i < changes.len(),
        changes[i].1.touched(),
    ensures
        db.commit_all(changes).accounts[changes[i].0].insertion_type == match db.held(
            changes[i].0,
        ) {
            Some(account) => account.insertion_type,
            None => InsertionType::OnChain,
        },
{
    law_commit_applies_changes(db, changes, i);
}

/// A custom account answers afterwards with the data that the transaction left.
pub proof fn law_committed_custom_accounts_are_answered(
    db: DbView,
    changes: Seq<(Address, ChangeView)>,
    i: int,
)
    requires
        distinct_accounts(changes),
        0 <= i < changes.len(),
        changes[i].1.touched(),
        db.local_info(changes[i].0) is Some,
    ensures
        db.commit_all(changes).local_info(changes[i].0) == Some(
            if changes[i].1.destroyed() {
                InfoView::empty()
            } else {
                changes[i].1.hashed_info()
            },
        ),
{
    law_commit_applies_changes(db, changes, i);
}

/// Which code is held afterwards: the code that was held before, and under each other hash the code
/// of a change that deploys code with that hash.
proof fn lemma_contracts(db: DbView, changes: Seq<(Address, ChangeView)>, hash: B256)
    ensures
        ({
            let after = db.commit_all(changes).contracts;
            if db.contracts.contains_key(hash) {
                after.contains_key(hash) && after[hash] == db.contracts[hash]
            } else {
                &&& after.contains_key(hash) <==> exists|i: int|
                    0 <= i < changes.len() && #[trigger] deploys_under(changes[i].1, hash)
                &&& after.contains_key(hash) ==> exists|i: int|
                    0 <= i < changes.len() && #[trigger] deploys_under(changes[i].1, hash)
                        && after[hash] == changes[i].1.info.code->0
            }
        }),
    decreases changes.len(),
{
    if changes.len() > 0 {
        let earlier = changes.drop_last();
        lemma_contracts(db, earlier, hash);
        let before = db.commit_all(earlier).contracts;
        let after = db.commit_all(changes).contracts;
        let last = changes.len() - 1;
        assert(changes[last] == changes.last());
        if !db.contracts.contains_key(hash) {
            if before.contains_key(hash) {
                let i = choose|i: int|
                    0 <= i < earlier.len() && #[trigger] deploys_under(earlier[i].1, hash)
                        && before[hash] == earlier[i].1.info.code->0;
                assert(changes[i] == earlier[i]);
                assert(deploys_under(changes[i].1, hash) && after[hash]
                    == changes[i].1.info.code->0);
            } else if deploys_under(changes[last].1, hash) {
                assert(after[hash] == changes[last].1.info.code->0);
            } else {
                assert forall|i: int| 0 <= i < changes.len() implies !(#[trigger] deploys_under(
                    changes[i].1,
                    hash,
                )) by {
                    if i < earlier.len() {
                        assert(changes[i] == earlier[i]);
                        assert(!deploys_under(earlier[i].1, hash));
                    }
                }
            }
        }
    }
}

/// The change deploys code with the given hash.
pub open spec fn deploys_under(change: ChangeView, hash: B256) -> bool {
    change.deploys() && change.hashed_info().code_hash == hash
}

/// Changes that deploy code with the same hash deploy the same code.
pub open spec fn consistent_code(changes: Seq<(Address, ChangeView)>) -> bool {
    forall|i: int, j: int|
        0 <= i < changes.len() && 0 <= j < changes.len() && (#[trigger] changes[i]).1.deploys()
            && (#[trigger] changes[j]).1.deploys() && changes[i].1.hashed_info().code_hash
            == changes[j].1.hashed_info().code_hash ==> changes[i].1.info.code
            == changes[j].1.info.code
}

/// Code that is held is never replaced.
pub proof fn law_held_code_stays(db: DbView, changes: Seq<(Address, ChangeView)>, hash: B256)
    requires
        db.contracts.contains_key(hash),
    ensures
        db.commit_all(changes).contracts.contains_key(hash),
        db.commit_all(changes).contracts[hash] == db.contracts[hash],
{
    lemma_contracts(db, changes, hash);
}

/// Code that a transaction deployed is held afterwards, under the hash that the account's data has
/// then.
pub proof fn law_deployed_code_is_held(
    db: DbView,
    changes: Seq<(Address, ChangeView)>,
    i: int,
)
    requires
        0 <= i < changes.len(),
        changes[i].1.deploys(),
    ensures
        db.commit_all(changes).contracts.contains_key(changes[i].1.hashed_info().code_hash),
        consistent_code(changes) && !db.contracts.contains_key(
            changes[i].1.hashed_info().code_hash,
        ) ==> db.commit_all(changes).contracts[changes[i].1.hashed_info().code_hash]
            == changes[i].1.info.code->0,
{
    let hash = changes[i].1.hashed_info().code_hash;
    lemma_contracts(db, changes, hash);
    assert(deploys_under(changes[i].1, hash));
}

/// Each piece of code is held under its own hash.
pub open spec fn code_under_own_hash(db: DbView) -> bool {
    forall|hash: B256| #[trigger]
        db.contracts.contains_key(hash) ==> {
            &&& db.contracts[hash].len() > 0
            &&& hash == crate::hashing::code_hash_of(db.contracts[hash])
        }
}

/// If the account data of each change has the right hash for its code, or none, then code stays
/// held under its own hash.
pub proof fn law_code_stays_under_own_hash(db: DbView, changes: Seq<(Address, ChangeView)>)
    requires
        code_under_own_hash(db),
        forall|i: int|
            0 <= i < changes.len() ==> {
                let info = (#[trigger] changes[i]).1.info;
                info.code matches Some(code) ==> info.code_hash == B256::keccak_empty()
                    || info.code_hash == crate::hashing::code_hash_of(code)
            },
    ensures
        code_under_own_hash(db.commit_all(changes)),
{
    let after = db.commit_all(changes);
    assert forall|hash: B256| #[trigger] after.contracts.contains_key(hash) implies {
        &&& after.contracts[hash].len() > 0
        &&& hash == crate::hashing::code_hash_of(after.contracts[hash])
    } by {
        lemma_contracts(db, changes, hash);
    }
}

/// Two lists have the same entries.
pub open spec fn same_changes(
    changes: Seq<(Address, ChangeView)>,
    others: Seq<(Address, ChangeView)>,
) -> bool {
    forall|change: (Address, ChangeView)| #[trigger]
        changes.contains(change) <==> others.contains(change)
}

/// What a map has under a key.
spec fn entry<K, V>(map: Map<K, V>, key: K) -> Option<V> {
    if map.contains_key(key) {
        Some(map[key])
    } else {
        None
    }
}

/// Maps that have the same under each key are equal.
proof fn lemma_same_entries<K, V>(one: Map<K, V>, two: Map<K, V>)
    requires
        forall|key: K| #[trigger] entry(one, key) == entry(two, key),
    ensures
        one == two,
{
    assert forall|key: K| one.contains_key(key) <==> two.contains_key(key) by {
        assert(entry(one, key) == entry(two, key));
    }
    assert forall|key: K| #[trigger] one.contains_key(key) implies one[key] == two[key] by {
        assert(entry(one, key) == entry(two, key));
    }
    assert(one =~= two);
}

/// The order in which the changes of a transaction are taken over does not matter to the accounts
/// and to the recorded reads. It does not matter at all as long as code with the same hash is the
/// same code.
pub proof fn law_commit_order_is_irrelevant(
    db: DbView,
    changes: Seq<(Address, ChangeView)>,
    others: Seq<(Address, ChangeView)>,
)
    requires
        distinct_accounts(changes),
        distinct_accounts(others),
        same_changes(changes, others),
    ensures
        db.commit_all(changes).accounts == db.commit_all(others).accounts,
        db.commit_all(changes).accessed == db.commit_all(others).accessed,
        db.commit_all(changes).tracing == db.commit_all(others).tracing,
        consistent_code(changes) ==> db.commit_all(changes) == db.commit_all(others),
{
    let one = db.commit_all(changes);
    let two = db.commit_all(others);
    assert forall|address: Address| #[trigger]
        entry(one.accounts, address) == entry(two.accounts, address) by {
        lemma_same_account(db, changes, others, address);
    }
    lemma_same_entries(one.accounts, two.accounts);
    let address = Address { hi: 0, lo: 0 };
    law_commit_leaves_others(db, changes, address);
    law_commit_leaves_others(db, others, address);
    if consistent_code(changes) {
        assert forall|hash: B256| #[trigger]
            entry(one.contracts, hash) == entry(two.contracts, hash) by {
            lemma_same_code(db, changes, others, hash);
        }
        lemma_same_entries(one.contracts, two.contracts);
    }
}

/// Two lists with the same entries turn an account into the same.
proof fn lemma_same_account(
    db: DbView,
    changes: Seq<(Address, ChangeView)>,
    others: Seq<(Address, ChangeView)>,
    address: Address,
)
    requires
        distinct_accounts(changes),
        distinct_accounts(others),
        same_changes(changes, others),
    ensures
        db.commit_all(changes).held(address) == db.commit_all(others).held(address),
{
    if unaffected(changes, address) {
        assert(unaffected(others, address)) by {
            assert forall|j: int| 0 <= j < others.len() implies (#[trigger] others[j]).0 != address
                || !others[j].1.touched() by {
                assert(others.contains(others[j]));
                assert(changes.contains(others[j]));
            }
        }
        law_commit_leaves_others(db, changes, address);
        law_commit_leaves_others(db, others, address);
    } else {
        let i = choose|i: int|
            0 <= i < changes.len() && !((#[trigger] changes[i]).0 != address
                || !changes[i].1.touched());
        assert(changes.contains(changes[i]));
        assert(others.contains(changes[i]));
        let j = choose|j: int| 0 <= j < others.len() && others[j] == changes[i];
        law_commit_applies_changes(db, changes, i);
        law_commit_applies_changes(db, others, j);
    }
}

/// Two lists with the same entries leave the same code behind.
proof fn lemma_same_code(
    db: DbView,
    changes: Seq<(Address, ChangeView)>,
    others: Seq<(Address, ChangeView)>,
    hash: B256,
)
    requires
        same_changes(changes, others),
        consistent_code(changes),
    ensures
        entry(db.commit_all(changes).contracts, hash) == entry(
            db.commit_all(others).contracts,
            hash,
        ),
{
    let one = db.commit_all(changes).contracts;
    let two = db.commit_all(others).contracts;
    lemma_contracts(db, changes, hash);
    lemma_contracts(db, others, hash);
    if !db.contracts.contains_key(hash) {
        if one.contains_key(hash) {
            let i = choose|i: int|
                0 <= i < changes.len() && #[trigger] deploys_under(changes[i].1, hash)
                    && one[hash] == changes[i].1.info.code->0;
            assert(changes.contains(changes[i]));
            assert(others.contains(changes[i]));
            let k = choose|k: int| 0 <= k < others.len() && others[k] == changes[i];
            assert(deploys_under(others[k].1, hash));
            let j = choose|j: int|
                0 <= j < others.len() && #[trigger] deploys_under(others[j].1, hash)
                    && two[hash] == others[j].1.info.code->0;
            assert(others.contains(others[j]));
            assert(changes.contains(others[j]));
            let m = choose|m: int| 0 <= m < changes.len() && changes[m] == others[j];
            assert(changes[m].1.info.code == changes[i].1.info.code);
        }
        if two.contains_key(hash) {
            let j = choose|j: int|
                0 <= j < others.len() && #[trigger] deploys_under(others[j].1, hash);
            assert(others.contains(others[j]));
            assert(changes.contains(others[j]));
            let m = choose|m: int| 0 <= m < changes.len() && changes[m] == others[j];
            assert(deploys_under(changes[m].1, hash));
        }
    }
}

/// Taking the same changes over twice is the same as taking them over once.
pub proof fn law_commit_is_idempotent(db: DbView, changes: Seq<(Address, ChangeView)>)
    requires
        distinct_accounts(changes),
    ensures
        db.commit_all(changes).commit_all(changes) == db.commit_all(changes),
{
    let once = db.commit_all(changes);
    let twice = once.commit_all(changes);
    assert forall|address: Address| #[trigger]
        entry(once.accounts, address) == entry(twice.accounts, address) by {
        if unaffected(changes, address) {
            law_commit_leaves_others(once, changes, address);
        } else {
            let i = choose|i: int|
                0 <= i < changes.len() && !((#[trigger] changes[i]).0 != address
                    || !changes[i].1.touched());
            law_commit_applies_changes(db, changes, i);
            law_commit_applies_changes(once, changes, i);
            let first = changes[i].1.applied(db.held(address));
            let second = changes[i].1.applied(Some(first));
            assert(first.storage =~= second.storage);
        }
    }
    lemma_same_entries(once.accounts, twice.accounts);
    assert forall|hash: B256| #[trigger]
        entry(once.contracts, hash) == entry(twice.contracts, hash) by {
        lemma_contracts(db, changes, hash);
        lemma_contracts(once, changes, hash);
    }
    lemma_same_entries(once.contracts, twice.contracts);
    let address = Address { hi: 0, lo: 0 };
    law_commit_leaves_others(once, changes, address);
}

} // verus!
