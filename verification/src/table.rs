//! A small map from key strings to values, kept as a list without repeated
//! keys. It is the backing of the store.

use vstd::prelude::*;

verus! {

/// One key with its value.
pub struct Slot<V> {
    pub key: String,
    pub value: V,
}

/// Whether no key occurs twice in `slots`.
pub open spec fn distinct_keys<V>(slots: Seq<Slot<V>>) -> bool {
    forall|i: int, j: int| 0 <= i < j < slots.len() ==> slots[i].key@ != slots[j].key@
}

/// Whether `key` is the key of one of `slots`.
pub open spec fn has_key<V>(slots: Seq<Slot<V>>, key: Seq<char>) -> bool {
    exists|i: int| 0 <= i < slots.len() && slots[i].key@ == key
}

/// The map that a list of slots stands for.
pub open spec fn map_of<V>(slots: Seq<Slot<V>>) -> Map<Seq<char>, V> {
    Map::new(
        |key: Seq<char>| has_key(slots, key),
        |key: Seq<char>| slots[choose|i: int| 0 <= i < slots.len() && slots[i].key@ == key].value,
    )
}

/// In a list without repeated keys each slot is what the map holds at its
/// key.
proof fn lemma_map_of_index<V>(slots: Seq<Slot<V>>, i: int)
    requires
        distinct_keys(slots),
        0 <= i < slots.len(),
    ensures
        map_of(slots).dom().contains(slots[i].key@),
        map_of(slots)[slots[i].key@] == slots[i].value,
{
    let key = slots[i].key@;
    let k = choose|k: int| 0 <= k < slots.len() && slots[k].key@ == key;
    assert(has_key(slots, key));
    if k < i {
        assert(slots[k].key@ != slots[i].key@);
    } else if i < k {
        assert(slots[i].key@ != slots[k].key@);
    }
}

/// Adding a slot under a new key adds it to the map.
proof fn lemma_map_of_push<V>(slots: Seq<Slot<V>>, slot: Slot<V>)
    requires
        distinct_keys(slots),
        !has_key(slots, slot.key@),
    ensures
        distinct_keys(slots.push(slot)),
        map_of(slots.push(slot)) == map_of(slots).insert(slot.key@, slot.value),
{
    let after = slots.push(slot);
    let want = map_of(slots).insert(slot.key@, slot.value);
    assert forall|i: int, j: int| 0 <= i < j < after.len() implies after[i].key@
        != after[j].key@ by {
        if j == slots.len() {
            assert(after[i] == slots[i]);
        }
    }
    assert forall|key: Seq<char>| #[trigger]
        map_of(after).dom().contains(key) implies want.dom().contains(key) by {
        let i = choose|i: int| 0 <= i < after.len() && after[i].key@ == key;
        if i < slots.len() {
            assert(slots[i].key@ == key);
        }
    }
    assert forall|key: Seq<char>| #[trigger] want.dom().contains(key) implies map_of(
        after,
    ).dom().contains(key) && map_of(after)[key] == want[key] by {
        if key == slot.key@ {
            assert(after[slots.len() as int] == slot);
            lemma_map_of_index(after, slots.len() as int);
        } else {
            let i = choose|i: int| 0 <= i < slots.len() && slots[i].key@ == key;
            lemma_map_of_index(slots, i);
            assert(after[i] == slots[i]);
            lemma_map_of_index(after, i);
        }
    }
    assert(map_of(after) =~= want);
}

/// Replacing the value of one slot replaces it in the map.
proof fn lemma_map_of_update<V>(slots: Seq<Slot<V>>, at: int, slot: Slot<V>)
    requires
        distinct_keys(slots),
        0 <= at < slots.len(),
        slots[at].key@ == slot.key@,
    ensures
        distinct_keys(slots.update(at, slot)),
        map_of(slots.update(at, slot)) == map_of(slots).insert(slot.key@, slot.value),
{
    let after = slots.update(at, slot);
    let want = map_of(slots).insert(slot.key@, slot.value);
    assert forall|i: int, j: int| 0 <= i < j < after.len() implies after[i].key@
        != after[j].key@ by {
        assert(slots[i].key@ != slots[j].key@);
    }
    assert forall|key: Seq<char>| #[trigger]
        map_of(after).dom().contains(key) implies want.dom().contains(key) by {
        let i = choose|i: int| 0 <= i < after.len() && after[i].key@ == key;
        assert(slots[i].key@ == key);
    }
    assert forall|key: Seq<char>| #[trigger] want.dom().contains(key) implies map_of(
        after,
    ).dom().contains(key) && map_of(after)[key] == want[key] by {
        if key == slot.key@ {
            assert(after[at] == slot);
            lemma_map_of_index(after, at);
        } else {
            let i = choose|i: int| 0 <= i < slots.len() && slots[i].key@ == key;
            lemma_map_of_index(slots, i);
            assert(after[i] == slots[i]);
            lemma_map_of_index(after, i);
        }
    }
    assert(map_of(after) =~= want);
}

/// Taking one slot out of the list takes its key out of the map.
proof fn lemma_map_of_remove<V>(slots: Seq<Slot<V>>, at: int)
    requires
        distinct_keys(slots),
        0 <= at < slots.len(),
    ensures
        distinct_keys(slots.remove(at)),
        map_of(slots.remove(at)) == map_of(slots).remove(slots[at].key@),
{
    let after = slots.remove(at);
    let want = map_of(slots).remove(slots[at].key@);
    assert forall|i: int, j: int| 0 <= i < j < after.len() implies after[i].key@
        != after[j].key@ by {
        let from_i = if i < at { i } else { i + 1 };
        let from_j = if j < at { j } else { j + 1 };
        assert(slots[from_i].key@ != slots[from_j].key@);
    }
    assert forall|key: Seq<char>| #[trigger]
        map_of(after).dom().contains(key) implies want.dom().contains(key) by {
        let i = choose|i: int| 0 <= i < after.len() && after[i].key@ == key;
        let from = if i < at { i } else { i + 1 };
        assert(slots[from].key@ == key);
        if from < at {
            assert(slots[from].key@ != slots[at].key@);
        } else {
            assert(slots[at].key@ != slots[from].key@);
        }
    }
    assert forall|key: Seq<char>| #[trigger] want.dom().contains(key) implies map_of(
        after,
    ).dom().contains(key) && map_of(after)[key] == want[key] by {
        let i = choose|i: int| 0 <= i < slots.len() && slots[i].key@ == key;
        lemma_map_of_index(slots, i);
        let to = if i < at { i } else { i - 1 };
        assert(after[to] == slots[i]);
        lemma_map_of_index(after, to);
    }
    assert(map_of(after) =~= want);
}

/// A map from key strings to values of type `V`.
pub struct Table<V> {
    slots: Vec<Slot<V>>,
}

impl<V> View for Table<V> {
    type V = Map<Seq<char>, V>;

    closed spec fn view(&self) -> Map<Seq<char>, V> {
        map_of(self.slots@)
    }
}

impl<V> Table<V> {
    #[verifier::type_invariant]
    spec fn keys_once(self) -> bool {
        distinct_keys(self.slots@)
    }

    /// A table that holds nothing.
    pub fn new() -> (out: Table<V>)
        ensures
            out@ == Map::<Seq<char>, V>::empty(),
    {
        let out = Table { slots: Vec::new() };
        assert(out@ =~= Map::<Seq<char>, V>::empty());
        out
    }

    /// The place of `key` in the list, if it is there.
    fn find(&self, key: &String) -> (out: Option<usize>)
        ensures
            match out {
                Some(at) => at < self.slots@.len() && self.slots@[at as int].key@ == key@,
                None => !has_key(self.slots@, key@),
            },
    {
        let mut at: usize = 0;
        while at < self.slots.len()
            invariant
                at <= self.slots@.len(),
                forall|i: int| 0 <= i < at ==> self.slots@[i].key@ != key@,
            decreases self.slots@.len() - at,
        {
            if self.slots[at].key == *key {
                return Some(at);
            }
            at += 1;
        }
        None
    }

    /// The value under `key`, or `None` where the table has none.
    pub fn get(&self, key: &String) -> (out: Option<&V>)
        ensures
            out is Some <==> self@.dom().contains(key@),
            out matches Some(value) ==> *value == self@[key@],
    {
        proof {
            use_type_invariant(self);
        }
        match self.find(key) {
            Some(at) => {
                proof {
                    lemma_map_of_index(self.slots@, at as int);
                }
                Some(&self.slots[at].value)
            },
            None => None,
        }
    }

    /// Puts `value` under `key`, in place of the value that was there.
    pub fn insert(&mut self, key: String, value: V)
        ensures
            final(self)@ == old(self)@.insert(key@, value),
    {
        proof {
            use_type_invariant(&*self);
        }
        let found = self.find(&key);
        let slot = Slot { key, value };
        let mut slots: Vec<Slot<V>> = Vec::new();
        std::mem::swap(&mut slots, &mut self.slots);
        match found {
            Some(at) => {
                proof {
                    lemma_map_of_update(slots@, at as int, slot);
                }
                slots[at] = slot;
            },
            None => {
                proof {
                    lemma_map_of_push(slots@, slot);
                }
                slots.push(slot);
            },
        }
        self.slots = slots;
    }

    /// Takes the value under `key` out of the table and returns it, or
    /// returns `None` where the table has none.
    pub fn remove(&mut self, key: &String) -> (out: Option<V>)
        ensures
            final(self)@ == old(self)@.remove(key@),
            out is Some <==> old(self)@.dom().contains(key@),
            out matches Some(value) ==> value == old(self)@[key@],
    {
        proof {
            use_type_invariant(&*self);
        }
        match self.find(key) {
            Some(at) => {
                let mut slots: Vec<Slot<V>> = Vec::new();
                std::mem::swap(&mut slots, &mut self.slots);
                proof {
                    lemma_map_of_index(slots@, at as int);
                    lemma_map_of_remove(slots@, at as int);
                }
                let slot = slots.remove(at);
                self.slots = slots;
                Some(slot.value)
            },
            None => {
                assert(self@.remove(key@) =~= self@);
                None
            },
        }
    }

    /// Empties the table.
    pub fn clear(&mut self)
        ensures
            final(self)@ == Map::<Seq<char>, V>::empty(),
    {
        self.slots = Vec::new();
        assert(self@ =~= Map::<Seq<char>, V>::empty());
    }
}

} // verus!
