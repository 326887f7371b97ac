//! Finding the storage slot that holds a known value among the slots that a call read.

use vstd::prelude::*;

use crate::db::NodeDB;
use crate::primitives::{Address, U256};

verus! {

/// A search through slots, one after the other, for the first that holds a value.
pub struct SlotSearch {
    slots: Vec<U256>,
    target: U256,
    next: usize,
}

/// The first of `slots` that holds `target`, where `values` says what each slot holds.
pub open spec fn first_holding(slots: Seq<U256>, values: Map<U256, U256>, target: U256) -> Option<
    U256,
>
    decreases slots.len(),
{
    if slots.len() == 0 {
        None
    } else if values[slots[0]] == target {
        Some(slots[0])
    } else {
        first_holding(slots.drop_first(), values, target)
    }
}

impl SlotSearch {
    /// The slots that are still to be looked at.
    pub closed spec fn remaining(self) -> Seq<U256> {
        if self.next <= self.slots@.len() {
            self.slots@.skip(self.next as int)
        } else {
            Seq::empty()
        }
    }

    /// The value that is searched for.
    pub closed spec fn target(self) -> U256 {
        self.target
    }

    /// Starts a search for `target` among `slots`.
    pub fn new(slots: Vec<U256>, target: U256) -> (res: Self)
        ensures
            res.remaining() == slots@,
            res.target() == target,
    {
        let res = SlotSearch { slots, target, next: 0 };
        assert(res.remaining() =~= slots@);
        res
    }

    /// The slot whose value is needed next, or `None` if no slot is left: the search has failed.
    pub fn current(&self) -> (res: Option<U256>)
        ensures
            res == (if self.remaining().len() > 0 {
                Some(self.remaining()[0])
            } else {
                None
            }),
    {
        if self.next < self.slots.len() {
            Some(self.slots[self.next])
        } else {
            None
        }
    }

    /// Takes the value of the current slot. Gives the slot if it holds the value searched for, else
    /// goes on to the next.
    pub fn check(&mut self, value: U256) -> (res: Option<U256>)
        ensures
            final(self).target() == old(self).target(),
            if old(self).remaining().len() == 0 {
                res is None && final(self).remaining() == old(self).remaining()
            } else if value == old(self).target() {
                res == Some(old(self).remaining()[0]) && final(self).remaining()
                    == old(self).remaining()
            } else {
                res is None && final(self).remaining() == old(self).remaining().drop_first()
            },
            forall|values: Map<U256, U256>|
                old(self).remaining().len() > 0 && values[old(self).remaining()[0]] == value
                    ==> #[trigger] first_holding(
                    old(self).remaining(),
                    values,
                    old(self).target(),
                ) == (match res {
                    Some(found) => Some(found),
                    None => first_holding(
                        final(self).remaining(),
                        values,
                        final(self).target(),
                    ),
                }),
    {
        if self.next < self.slots.len() {
            if value == self.target {
                return Some(self.slots[self.next]);
            }
            self.next = self.next + 1;
            assert(self.remaining() =~= old(self).remaining().drop_first());
        }
        None
    }
}

impl<B> NodeDB<B> {
    /// Stops to record reads and starts a search for `target` among the slots of `token` that were
    /// recorded, each once, in no particular order.
    pub fn search_accessed(&mut self, token: Address, target: U256) -> (res: SlotSearch)
        ensures
            res.target() == target,
            res.remaining().no_duplicates(),
            res.remaining().to_set() == old(self)@.slots_read(token),
            final(self)@ == old(self)@.stop_tracing(),
            final(self).chain() == old(self).chain(),
    {
        let slots: Vec<U256> = match self.get_accessed_slots(token) {
            Ok(slots) => slots,
            Err(_) => Vec::new(),
        };
        self.disable_tracing();
        SlotSearch::new(slots, target)
    }
}

} // verus!
