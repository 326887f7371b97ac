//! A hash map keyed by values of up to 256 bits.

use std::collections::HashMap;

use vstd::prelude::*;

use crate::primitives::U256;

verus! {

/// A key that is determined by two 128-bit parts.
pub trait WideKey: Sized {
    /// The upper and the lower part.
    spec fn parts(self) -> (u128, u128);

    /// Keys with equal parts are equal.
    proof fn lemma_parts_injective(self, other: Self)
        ensures
            self.parts() == other.parts() ==> self == other,
    ;

    /// Computes the upper and the lower part.
    fn split(&self) -> (res: (u128, u128))
        ensures
            res == self.parts(),
    ;
}

/// A map from wide keys to values, held as one hash map per upper part.
#[verifier::reject_recursive_types(K)]
pub struct WideMap<K, V> {
    rows: HashMap<u128, HashMap<u128, V>>,
    keys: std::marker::PhantomData<K>,
}

impl<K: WideKey, V> View for WideMap<K, V> {
    type V = Map<K, V>;

    closed spec fn view(&self) -> Map<K, V> {
        Map::new(
            |k: K|
                self.rows@.contains_key(k.parts().0) && self.rows@[k.parts().0]@.contains_key(
                    k.parts().1,
                ),
            |k: K| self.rows@[k.parts().0]@[k.parts().1],
        )
    }
}

impl<K: WideKey, V> WideMap<K, V> {
    /// Makes an empty map.
    pub fn new() -> (res: Self)
        ensures
            res@ == Map::<K, V>::empty(),
    {
        broadcast use vstd::std_specs::hash::group_hash_axioms;

        let res = WideMap { rows: HashMap::new(), keys: std::marker::PhantomData };
        assert(res@ =~= Map::<K, V>::empty());
        res
    }

    /// Looks a key up.
    pub fn get(&self, key: &K) -> (res: Option<&V>)
        ensures
            res == (if self@.contains_key(*key) {
                Some(&self@[*key])
            } else {
                None
            }),
    {
        broadcast use vstd::std_specs::hash::group_hash_axioms;

        let (hi, lo) = key.split();
        match self.rows.get(&hi) {
            Some(row) => row.get(&lo),
            None => None,
        }
    }

    /// Tells whether a key is present.
    pub fn contains_key(&self, key: &K) -> (res: bool)
        ensures
            res == self@.contains_key(*key),
    {
        self.get(key).is_some()
    }

    /// Binds a key to a value, replacing any earlier binding.
    pub fn insert(&mut self, key: K, value: V)
        ensures
            final(self)@ == old(self)@.insert(key, value),
    {
        broadcast use vstd::std_specs::hash::group_hash_axioms;

        let (hi, lo) = key.split();
        let mut row = match self.rows.remove(&hi) {
            Some(row) => row,
            None => HashMap::new(),
        };
        row.insert(lo, value);
        self.rows.insert(hi, row);
        proof {
            let before = old(self)@;
            let after = self@;
            assert forall|k: K| after.contains_key(k) <==> #[trigger] before.insert(
                key,
                value,
            ).contains_key(k) by {
                k.lemma_parts_injective(key);
            }
            assert forall|k: K| #[trigger]
                after.contains_key(k) implies after[k] == before.insert(key, value)[k] by {
                k.lemma_parts_injective(key);
            }
            assert(after =~= before.insert(key, value));
        }
    }

    /// Takes a binding out of the map.
    pub fn remove(&mut self, key: &K) -> (res: Option<V>)
        ensures
            final(self)@ == old(self)@.remove(*key),
            res == (if old(self)@.contains_key(*key) {
                Some(old(self)@[*key])
            } else {
                None
            }),
    {
        broadcast use vstd::std_specs::hash::group_hash_axioms;

        let (hi, lo) = key.split();
        let res = match self.rows.remove(&hi) {
            Some(taken) => {
                let mut row = taken;
                let res = row.remove(&lo);
                self.rows.insert(hi, row);
                res
            },
            None => None,
        };
        proof {
            let before = old(self)@;
            let after = self@;
            assert forall|k: K| after.contains_key(k) <==> #[trigger] before.remove(
                *key,
            ).contains_key(k) by {
                k.lemma_parts_injective(*key);
            }
            assert forall|k: K| #[trigger]
                after.contains_key(k) implies after[k] == before.remove(*key)[k] by {
                k.lemma_parts_injective(*key);
            }
            assert(after =~= before.remove(*key));
        }
        res
    }

    /// Removes every binding.
    pub fn clear(&mut self)
        ensures
            final(self)@ == Map::<K, V>::empty(),
    {
        broadcast use vstd::std_specs::hash::group_hash_axioms;

        self.rows.clear();
        assert(self@ =~= Map::<K, V>::empty());
    }
}

/// Lists every key of a hash map once, in no particular order.
fn list_keys<V>(map: &HashMap<u128, V>) -> (res: Vec<u128>)
    ensures
        res@.no_duplicates(),
        res@.to_set() == map@.dom(),
{
    broadcast use vstd::std_specs::hash::group_hash_axioms;

    let mut res: Vec<u128> = Vec::new();
    let ghost all: Seq<u128> = vstd::std_specs::iter::IteratorSpec::remaining(
        &vstd::std_specs::hash::spec_keys_iter(map),
    ).unref();
    for key in keys: map.keys()
        invariant
            keys.seq().no_duplicates(),
            keys.seq().unref() == all,
            res@.len() == keys.index(),
            res@ =~= all.take(res@.len() as int),
    {
        res.push(*key);
    }
    assert(res@ =~= all);
    res
}

impl<V> WideMap<U256, V> {
    /// Lists every key once, in no particular order.
    pub fn keys(&self) -> (res: Vec<U256>)
        ensures
            res@.no_duplicates(),
            res@.to_set() == self@.dom(),
    {
        broadcast use vstd::std_specs::hash::group_hash_axioms;

        let his: Vec<u128> = list_keys(&self.rows);
        let mut res: Vec<U256> = Vec::new();
        for i in 0..his.len()
            invariant
                his@.no_duplicates(),
                his@.to_set() == self.rows@.dom(),
                res@.no_duplicates(),
                forall|k: U256| #[trigger]
                    res@.contains(k) <==> self@.contains_key(k) && his@.take(i as int).contains(k.hi),
        {
            let hi: u128 = his[i];
            assert(his@.to_set().contains(hi));
            if let Some(row) = self.rows.get(&hi) {
                let los: Vec<u128> = list_keys(row);
                for j in 0..los.len()
                    invariant
                        i < his.len(),
                        hi == his@[i as int],
                        his@.no_duplicates(),
                        self.rows@.contains_key(hi),
                        *row == self.rows@[hi],
                        los@.no_duplicates(),
                        los@.to_set() == row@.dom(),
                        res@.no_duplicates(),
                        forall|k: U256| #[trigger]
                            res@.contains(k) <==> self@.contains_key(k) && (his@.take(
                                i as int,
                            ).contains(k.hi) || (k.hi == hi && los@.take(j as int).contains(k.lo))),
                {
                    let key = U256 { hi, lo: los[j] };
                    let ghost before = res@;
                    assert(los@.to_set().contains(los@[j as int]));
                    assert(!his@.take(i as int).contains(hi));
                    assert(!los@.take(j as int).contains(key.lo));
                    assert(!before.contains(key));
                    res.push(key);
                    assert forall|k: U256| #[trigger]
                        res@.contains(k) <==> self@.contains_key(k) && (his@.take(
                            i as int,
                        ).contains(k.hi) || (k.hi == hi && los@.take(j + 1).contains(k.lo))) by {
                        assert(res@.contains(k) <==> before.contains(k) || k == key) by {
                            assert(res@[before.len() as int] == key);
                            assert(forall|n: int| 0 <= n < before.len() ==> res@[n] == before[n]);
                        }
                        lemma_take_contains(los@, j as int, k.lo);
                    }
                }
                assert forall|k: U256| #[trigger]
                    res@.contains(k) <==> self@.contains_key(k) && his@.take(i + 1).contains(
                        k.hi,
                    ) by {
                    lemma_take_contains(his@, i as int, k.hi);
                    assert(los@.take(los@.len() as int) =~= los@);
                    assert(los@.to_set().contains(k.lo) <==> los@.contains(k.lo));
                }
            }
        }
        assert(his@.take(his@.len() as int) =~= his@);
        assert forall|k: U256| res@.to_set().contains(k) <==> self@.dom().contains(k) by {
            assert(res@.to_set().contains(k) <==> res@.contains(k));
            assert(his@.to_set().contains(k.hi) <==> his@.contains(k.hi));
        }
        assert(res@.to_set() =~= self@.dom());
        res
    }
}

/// One more element is contained in a prefix that is longer by one.
proof fn lemma_take_contains<T>(s: Seq<T>, n: int, x: T)
    requires
        0 <= n < s.len(),
    ensures
        s.take(n + 1).contains(x) <==> s.take(n).contains(x) || s[n] == x,
{
    let longer = s.take(n + 1);
    let shorter = s.take(n);
    if longer.contains(x) {
        let i = choose|i: int| 0 <= i < longer.len() && longer[i] == x;
        if i < n {
            assert(shorter[i] == x);
        }
    }
    if shorter.contains(x) {
        let i = choose|i: int| 0 <= i < shorter.len() && shorter[i] == x;
        assert(longer[i] == x);
    }
    if s[n] == x {
        assert(longer[n] == x);
    }
}

} // verus!
