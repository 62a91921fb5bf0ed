//! A bounded map from `u64` to `u64` that forgets its least recently
//! written key when a new key finds it full.

use vstd::prelude::*;

verus! {

/// One key with its value.
#[derive(Debug, Clone, Copy, PartialEq, Eq, Structural)]
pub struct Slot {
    /// The key.
    pub key: u64,
    /// The value stored under the key.
    pub value: u64,
}

/// Whether some slot of `slots` holds `key`.
pub open spec fn lru_contains(slots: Seq<Slot>, key: u64) -> bool {
    exists|i: int| 0 <= i < slots.len() && (#[trigger] slots[i]).key == key
}

/// The place of `key` in `slots`, where it is held.
pub open spec fn lru_index(slots: Seq<Slot>, key: u64) -> int {
    choose|i: int| 0 <= i < slots.len() && (#[trigger] slots[i]).key == key
}

/// The value stored under `key`, if any.
pub open spec fn lru_get(slots: Seq<Slot>, key: u64) -> Option<u64> {
    if lru_contains(slots, key) {
        Some(slots[lru_index(slots, key)].value)
    } else {
        None
    }
}

/// `slots` with `key` forgotten.
pub open spec fn lru_without(slots: Seq<Slot>, key: u64) -> Seq<Slot> {
    if lru_contains(slots, key) {
        slots.remove(lru_index(slots, key))
    } else {
        slots
    }
}

/// `slots` after `value` was written under `key` in a map of `capacity`
/// slots: the key becomes the most recently written one, and if it is new
/// and the map is full, the least recently written key makes room.
pub open spec fn lru_put(slots: Seq<Slot>, capacity: nat, key: u64, value: u64) -> Seq<Slot> {
    let rest = lru_without(slots, key);
    let room = if rest.len() >= capacity {
        rest.drop_first()
    } else {
        rest
    };
    room.push(Slot { key, value })
}

/// The slots of a map of `capacity` slots: least recently written first,
/// no key twice, never more than `capacity`.
pub open spec fn lru_well_formed(slots: Seq<Slot>, capacity: nat) -> bool {
    &&& capacity >= 1
    &&& slots.len() <= capacity
    &&& forall|i: int, j: int|
        0 <= i < j < slots.len() ==> (#[trigger] slots[i]).key != (#[trigger] slots[j]).key
}

/// In a well-formed map the slot at `i` is where its key is found.
pub proof fn lemma_index_of_slot(slots: Seq<Slot>, capacity: nat, i: int)
    requires
        lru_well_formed(slots, capacity),
        0 <= i < slots.len(),
    ensures
        lru_contains(slots, slots[i].key),
        lru_index(slots, slots[i].key) == i,
        lru_get(slots, slots[i].key) == Some(slots[i].value),
{
    let k = slots[i].key;
    let c = lru_index(slots, k);
    if c < i {
        assert(slots[c].key != slots[i].key);
    } else if i < c {
        assert(slots[i].key != slots[c].key);
    }
}

/// Forgetting a key keeps the map well formed, forgets that key and keeps
/// every other key with its value.
pub proof fn lemma_without(slots: Seq<Slot>, capacity: nat, key: u64)
    requires
        lru_well_formed(slots, capacity),
    ensures
        lru_well_formed(lru_without(slots, key), capacity),
        !lru_contains(lru_without(slots, key), key),
        forall|other: u64|
            other != key ==> lru_get(lru_without(slots, key), other) == lru_get(slots, other),
        lru_without(slots, key).len() == if lru_contains(slots, key) {
            slots.len() - 1
        } else {
            slots.len() as int
        },
{
    let after = lru_without(slots, key);
    if lru_contains(slots, key) {
        let at = lru_index(slots, key);
        assert forall|i: int| 0 <= i < after.len() implies (#[trigger] after[i]).key != key by {
            let from = if i < at { i } else { i + 1 };
            assert(after[i] == slots[from]);
            if from < at {
                assert(slots[from].key != slots[at].key);
            } else {
                assert(slots[at].key != slots[from].key);
            }
        }
        assert forall|i: int, j: int| 0 <= i < j < after.len() implies (#[trigger] after[i]).key
            != (#[trigger] after[j]).key by {
            let fi = if i < at { i } else { i + 1 };
            let fj = if j < at { j } else { j + 1 };
            assert(after[i] == slots[fi]);
            assert(after[j] == slots[fj]);
            assert(slots[fi].key != slots[fj].key);
        }
        assert forall|other: u64| other != key implies lru_get(after, other) == lru_get(
            slots,
            other,
        ) by {
            if lru_contains(slots, other) {
                let o = lru_index(slots, other);
                let to = if o < at { o } else { o - 1 };
                assert(after[to] == slots[o]);
                lemma_index_of_slot(after, capacity, to);
            } else {
                if lru_contains(after, other) {
                    let a = lru_index(after, other);
                    let from = if a < at { a } else { a + 1 };
                    assert(after[a] == slots[from]);
                    assert(slots[from].key == other);
                }
            }
        }
    }
}

/// Writing a key keeps the map well formed, makes the key found with the
/// written value, and keeps every other key with its value unless it was
/// the one that made room.
pub proof fn lemma_put(slots: Seq<Slot>, capacity: nat, key: u64, value: u64)
    requires
        lru_well_formed(slots, capacity),
    ensures
        lru_well_formed(lru_put(slots, capacity, key, value), capacity),
        lru_get(lru_put(slots, capacity, key, value), key) == Some(value),
        lru_contains(slots, key) || slots.len() < capacity ==> forall|other: u64|
            other != key ==> lru_get(lru_put(slots, capacity, key, value), other) == lru_get(
                slots,
                other,
            ),
        !lru_contains(slots, key) && slots.len() == capacity ==> forall|other: u64|
            other != key && other != slots[0].key ==> lru_get(
                lru_put(slots, capacity, key, value),
                other,
            ) == lru_get(slots, other),
        !lru_contains(slots, key) && slots.len() == capacity ==> !lru_contains(
            lru_put(slots, capacity, key, value),
            slots[0].key,
        ),
{
    lemma_without(slots, capacity, key);
    let rest = lru_without(slots, key);
    let evict = rest.len() >= capacity;
    let room = if evict { rest.drop_first() } else { rest };
    let after = lru_put(slots, capacity, key, value);
    let shift: int = if evict { 1 } else { 0 };
    assert(after == room.push(Slot { key, value }));
    assert(forall|i: int| 0 <= i < room.len() ==> room[i] == rest[i + shift]);
    assert forall|i: int| 0 <= i < room.len() implies (#[trigger] after[i]).key != key by {
        assert(after[i] == rest[i + shift]);
    }
    assert forall|i: int, j: int| 0 <= i < j < after.len() implies (#[trigger] after[i]).key != (
    #[trigger] after[j]).key by {
        if j < room.len() {
            assert(after[i] == rest[i + shift]);
            assert(after[j] == rest[j + shift]);
            assert(rest[i + shift].key != rest[j + shift].key);
        }
    }
    let top = after.len() - 1;
    assert(after[top] == Slot { key, value });
    lemma_index_of_slot(after, capacity, top);
    assert forall|other: u64|
        other != key && (evict ==> other != rest[0].key) implies lru_get(after, other) == lru_get(
        slots,
        other,
    ) by {
        if lru_contains(rest, other) {
            let o = lru_index(rest, other);
            assert(o >= shift);
            assert(after[o - shift] == rest[o]);
            lemma_index_of_slot(after, capacity, o - shift);
        } else {
            if lru_contains(after, other) {
                let a = lru_index(after, other);
                assert(a < room.len());
                assert(after[a] == rest[a + shift]);
                assert(rest[a + shift].key == other);
            }
        }
    }
    if evict {
        assert(!lru_contains(slots, key));
        assert(rest == slots);
        if lru_contains(after, slots[0].key) {
            let a = lru_index(after, slots[0].key);
            assert(a < room.len());
            assert(after[a] == slots[a + 1]);
            assert(slots[0].key != slots[a + 1].key);
        }
    }
}

/// A bounded map from `u64` to `u64` in order of last write.
pub struct LruMap {
    slots: Vec<Slot>,
    capacity: usize,
}

impl View for LruMap {
    type V = Seq<Slot>;

    closed spec fn view(&self) -> Seq<Slot> {
        self.slots@
    }
}

impl LruMap {
    /// The largest number of keys the map holds at once.
    pub closed spec fn capacity(&self) -> nat {
        self.capacity as nat
    }

    /// The invariant of the map.
    pub open spec fn wf(&self) -> bool {
        lru_well_formed(self@, self.capacity())
    }

    /// An empty map that holds up to `capacity` keys; none for a capacity
    /// of zero, which could hold nothing.
    pub fn new(capacity: usize) -> (made: Option<LruMap>)
        ensures
            capacity == 0 <==> made is None,
            made matches Some(map) ==> map.wf() && map@ == Seq::<Slot>::empty() && map.capacity()
                == capacity,
    {
        if capacity == 0 {
            None
        } else {
            Some(LruMap { slots: Vec::new(), capacity })
        }
    }

    /// The number of keys held.
    pub fn len(&self) -> (n: usize)
        ensures
            n == self@.len(),
    {
        self.slots.len()
    }

    /// The largest number of keys the map holds at once.
    pub fn max_entries(&self) -> (n: usize)
        ensures
            n == self.capacity(),
    {
        self.capacity
    }

    /// Where `key` is held, if it is.
    fn find(&self, key: u64) -> (at: Option<usize>)
        requires
            self.wf(),
        ensures
            match at {
                Some(i) => lru_contains(self@, key) && i == lru_index(self@, key) && i
                    < self@.len(),
                None => !lru_contains(self@, key),
            },
    {
        let mut i: usize = 0;
        while i < self.slots.len()
            invariant
                i <= self.slots.len(),
                self.wf(),
                forall|j: int| 0 <= j < i ==> (#[trigger] self@[j]).key != key,
            decreases self.slots.len() - i,
        {
            if self.slots[i].key == key {
                proof {
                    lemma_index_of_slot(self@, self.capacity(), i as int);
                }
                return Some(i);
            }
            i += 1;
        }
        None
    }

    /// The value stored under `key`, if any.
    pub fn get(&self, key: u64) -> (value: Option<u64>)
        requires
            self.wf(),
        ensures
            value == lru_get(self@, key),
    {
        match self.find(key) {
            Some(i) => Some(self.slots[i].value),
            None => None,
        }
    }

    /// Writes `value` under `key` and makes `key` the most recently written
    /// key; a new key that finds the map full takes the place of the least
    /// recently written one.
    pub fn insert(&mut self, key: u64, value: u64)
        requires
            old(self).wf(),
        ensures
            final(self).wf(),
            final(self).capacity() == old(self).capacity(),
            final(self)@ == lru_put(old(self)@, old(self).capacity(), key, value),
    {
        proof {
            lemma_put(self@, self.capacity(), key, value);
        }
        match self.find(key) {
            Some(i) => {
                self.slots.remove(i);
            },
            None => {},
        }
        if self.slots.len() >= self.capacity {
            self.slots.remove(0);
        }
        self.slots.push(Slot { key, value });
    }

    /// Forgets `key`; says whether it was held.
    pub fn remove(&mut self, key: u64) -> (held: bool)
        requires
            old(self).wf(),
        ensures
            final(self).wf(),
            final(self).capacity() == old(self).capacity(),
            final(self)@ == lru_without(old(self)@, key),
            held == lru_contains(old(self)@, key),
    {
        proof {
            lemma_without(self@, self.capacity(), key);
        }
        match self.find(key) {
            Some(i) => {
                self.slots.remove(i);
                true
            },
            None => false,
        }
    }

    /// Forgets every key.
    pub fn clear(&mut self)
        requires
            old(self).wf(),
        ensures
            final(self).wf(),
            final(self).capacity() == old(self).capacity(),
            final(self)@ == Seq::<Slot>::empty(),
    {
        self.slots.clear();
    }
}

} // verus!
