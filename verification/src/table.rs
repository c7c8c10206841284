//! Values filed under numbers, which can be walked in the order of the numbers.

use std::collections::BTreeMap;
use vstd::prelude::*;

verus! {

broadcast use vstd::std_specs::btree::group_btree_axioms;

pub struct Table<V> {
    /// The numbers that have a value, in order.
    order: Vec<u64>,
    values: BTreeMap<u64, V>,
}

/// Whether each of `keys` is less than the next.
pub open spec fn ascending(keys: Seq<u64>) -> bool {
    forall|i: int, j: int| 0 <= i < j < keys.len() ==> #[trigger] keys[i] < #[trigger] keys[j]
}

/// Whether `order` lists what has a value, and in order.
spec fn lists<V>(order: Seq<u64>, values: Map<u64, V>) -> bool {
    &&& ascending(order)
    &&& forall|key: u64| #[trigger] values.contains_key(key) <==> order.contains(key)
}

impl<V> View for Table<V> {
    type V = Map<u64, V>;

    closed spec fn view(&self) -> Map<u64, V> {
        self.values@
    }
}

/// The place of `key` among ascending numbers, or the place where it belongs.
fn search(order: &Vec<u64>, key: u64) -> (result: Result<usize, usize>)
    requires
        ascending(order@),
    ensures
        match result {
            Ok(index) => index < order@.len() && order@[index as int] == key,
            Err(index) => {
                &&& index <= order@.len()
                &&& forall|i: int| 0 <= i < index ==> #[trigger] order@[i] < key
                &&& forall|i: int| index <= i < order@.len() ==> #[trigger] order@[i] > key
            },
        },
{
    let mut index: usize = 0;
    while index < order.len()
        invariant
            index <= order@.len(),
            ascending(order@),
            forall|i: int| 0 <= i < index ==> #[trigger] order@[i] < key,
        decreases order@.len() - index,
    {
        let found = order[index];
        if found == key {
            return Ok(index);
        }
        if found > key {
            return Err(index);
        }
        index += 1;
    }
    Err(index)
}

impl<V> Table<V> {
    #[verifier::type_invariant]
    spec fn well_formed(self) -> bool {
        lists(self.order@, self.values@)
    }

    /// The numbers that have a value, in order.
    pub closed spec fn keys(self) -> Seq<u64> {
        self.order@
    }

    pub fn new() -> (table: Self)
        ensures
            table@ == Map::<u64, V>::empty(),
            table.keys() == Seq::<u64>::empty(),
    {
        Table { order: Vec::new(), values: BTreeMap::new() }
    }

    /// How many numbers have a value.
    pub fn len(&self) -> (len: usize)
        ensures
            len == self.keys().len(),
            ascending(self.keys()),
            forall|key: u64| #[trigger] self@.contains_key(key) <==> self.keys().contains(key),
    {
        proof {
            use_type_invariant(self);
        }
        self.order.len()
    }

    /// The number at a place in the order.
    pub fn key_at(&self, index: usize) -> (key: u64)
        requires
            index < self.keys().len(),
        ensures
            key == self.keys()[index as int],
            self@.contains_key(key),
    {
        proof {
            use_type_invariant(self);
        }
        self.order[index]
    }

    /// The value at a place in the order.
    pub fn value_at(&self, index: usize) -> (value: &V)
        requires
            index < self.keys().len(),
        ensures
            self@.contains_key(self.keys()[index as int]),
            *value == self@[self.keys()[index as int]],
    {
        proof {
            use_type_invariant(self);
            assert(self.order@.contains(self.order@[index as int]));
        }
        self.values.get(&self.order[index]).unwrap()
    }

    pub fn get(&self, key: u64) -> (value: Option<&V>)
        ensures
            match value {
                Some(value) => self@.contains_key(key) && *value == self@[key],
                None => !self@.contains_key(key),
            },
    {
        self.values.get(&key)
    }

    pub fn contains(&self, key: u64) -> (found: bool)
        ensures
            found == self@.contains_key(key),
    {
        self.values.contains_key(&key)
    }

    /// Files `value` under `key`, in place of what was there.
    pub fn insert(&mut self, key: u64, value: V)
        ensures
            final(self)@ == old(self)@.insert(key, value),
    {
        let mut taken: Table<V> = Table::new();
        std::mem::swap(&mut taken, self);
        proof {
            use_type_invariant(&taken);
        }
        let Table { mut order, mut values } = taken;
        if let Err(index) = search(&order, key) {
            let ghost before = order@;
            order.insert(index, key);
            proof {
                lemma_insert(before, index as int, key);
            }
        } else {
            proof {
                assert(order@.contains(key));
            }
        }
        values.insert(key, value);
        *self = Table { order, values };
    }

    /// Takes out what is filed under `key`.
    pub fn remove(&mut self, key: u64) -> (value: Option<V>)
        ensures
            match value {
                Some(value) => old(self)@.contains_key(key) && value == old(self)@[key],
                None => !old(self)@.contains_key(key),
            },
            final(self)@ == old(self)@.remove(key),
    {
        let mut taken: Table<V> = Table::new();
        std::mem::swap(&mut taken, self);
        proof {
            use_type_invariant(&taken);
        }
        let Table { mut order, mut values } = taken;
        if let Ok(index) = search(&order, key) {
            let ghost before = order@;
            let _ = order.remove(index);
            proof {
                lemma_remove(before, index as int);
            }
        }
        let value = values.remove(&key);
        *self = Table { order, values };
        value
    }

    /// Keeps the values that are filed under one of `keys`.
    pub fn retain(&mut self, keys: &Vec<u64>)
        ensures
            final(self)@ == old(self)@.restrict(keys@.to_set()),
    {
        let mut taken: Table<V> = Table::new();
        std::mem::swap(&mut taken, self);
        proof {
            use_type_invariant(&taken);
        }
        let Table { mut order, mut values } = taken;
        let ghost before = values@;
        let mut kept: Table<V> = Table::new();
        while order.len() > 0
            invariant
                lists(order@, values@),
                forall|key: u64| #[trigger]
                    values@.contains_key(key) ==> before.contains_key(key) && values@[key]
                        == before[key],
                forall|key: u64| #[trigger]
                    kept@.contains_key(key) <==> before.contains_key(key) && !values@.contains_key(
                        key,
                    ) && keys@.contains(key),
                forall|key: u64| #[trigger]
                    kept@.contains_key(key) ==> kept@[key] == before[key],
            decreases order@.len(),
        {
            let ghost listed = order@;
            if let Some(key) = order.pop() {
                proof {
                    lemma_remove(listed, listed.len() - 1);
                    assert(listed.remove(listed.len() - 1) =~= order@);
                    assert(listed.contains(key));
                }
                if let Some(value) = values.remove(&key) {
                    if contains_key(keys, key) {
                        kept.insert(key, value);
                    }
                }
            }
        }
        proof {
            assert(kept@ =~= before.restrict(keys@.to_set()));
        }
        *self = kept;
    }
}

/// Whether `key` is one of `keys`.
pub fn contains_key(keys: &Vec<u64>, key: u64) -> (found: bool)
    ensures
        found == keys@.contains(key),
{
    let mut index: usize = 0;
    while index < keys.len()
        invariant
            index <= keys@.len(),
            forall|i: int| 0 <= i < index ==> keys@[i] != key,
        decreases keys@.len() - index,
    {
        if keys[index] == key {
            return true;
        }
        index += 1;
    }
    false
}

proof fn lemma_insert(order: Seq<u64>, index: int, key: u64)
    requires
        ascending(order),
        0 <= index <= order.len(),
        forall|i: int| 0 <= i < index ==> #[trigger] order[i] < key,
        forall|i: int| index <= i < order.len() ==> #[trigger] order[i] > key,
    ensures
        ascending(order.insert(index, key)),
        forall|other: u64| #[trigger]
            order.insert(index, key).contains(other) <==> order.contains(other) || other == key,
{
    let longer = order.insert(index, key);
    assert forall|other: u64| #[trigger] longer.contains(other) <==> order.contains(other) || other
        == key by {
        if longer.contains(other) && other != key {
            let i = longer.index_of(other);
            assert(order[if i < index {
                i
            } else {
                i - 1
            }] == other);
        }
        if order.contains(other) {
            let i = order.index_of(other);
            assert(longer[if i < index {
                i
            } else {
                i + 1
            }] == other);
        }
        if other == key {
            assert(longer[index] == key);
        }
    }
}

proof fn lemma_remove(order: Seq<u64>, index: int)
    requires
        ascending(order),
        0 <= index < order.len(),
    ensures
        ascending(order.remove(index)),
        forall|other: u64| #[trigger]
            order.remove(index).contains(other) <==> order.contains(other) && other != order[index],
{
    let shorter = order.remove(index);
    assert forall|other: u64| #[trigger] shorter.contains(other) <==> order.contains(other) && other
        != order[index] by {
        if shorter.contains(other) {
            let i = shorter.index_of(other);
            assert(order[if i < index {
                i
            } else {
                i + 1
            }] == other);
        }
        if order.contains(other) && other != order[index] {
            let i = order.index_of(other);
            assert(shorter[if i < index {
                i
            } else {
                i - 1
            }] == other);
        }
    }
}

} // verus!
