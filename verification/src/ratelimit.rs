//! Per-source packet counts of the current rate-limit window.

use crate::lru::{lru_get, lru_put, lru_well_formed, LruMap, Slot};
use vstd::prelude::*;

verus! {

/// How many counters the table holds unless told otherwise.
pub const DEFAULT_RATELIMIT_CAPACITY: usize = 1_000_000;

/// The key under which the packets of one source address are counted
/// against one rule: the address in the upper half, the rule's identifier
/// in the lower.
pub open spec fn ratelimit_key(source_ip: u32, rule_id: u32) -> u64 {
    (source_ip * 0x1_0000_0000 + rule_id) as u64
}

/// Computes [`ratelimit_key`].
pub fn key_for(source_ip: u32, rule_id: u32) -> (key: u64)
    ensures
        key == ratelimit_key(source_ip, rule_id),
{
    (source_ip as u64) * 0x1_0000_0000 + (rule_id as u64)
}

/// Different sources, and different rules, are counted apart.
pub proof fn lemma_ratelimit_key_injective(ip_a: u32, rule_a: u32, ip_b: u32, rule_b: u32)
    requires
        ratelimit_key(ip_a, rule_a) == ratelimit_key(ip_b, rule_b),
    ensures
        ip_a == ip_b,
        rule_a == rule_b,
{
}

/// The count after one more packet: one more than before, starting from
/// nothing, and never past the largest number a counter holds.
pub open spec fn next_count(current: Option<u64>) -> u64 {
    match current {
        Some(count) => if count < u64::MAX {
            (count + 1) as u64
        } else {
            count
        },
        None => 1u64,
    }
}

/// Whether a packet that brought its counter to `count` is within a
/// limit of `limit` packets per window; a limit of 0 admits all.
pub open spec fn within_limit(count: u64, limit: u32) -> bool {
    limit == 0 || count <= limit
}

/// Decides [`within_limit`].
pub fn check_limit(count: u64, limit: u32) -> (ok: bool)
    ensures
        ok == within_limit(count, limit),
{
    limit == 0 || count <= limit as u64
}

/// The packet counters of the current window. The table is bounded like
/// the flow table: a new counter that finds it full takes the place of
/// the counter that was written longest ago.
pub struct RatelimitTable {
    map: LruMap,
}

impl View for RatelimitTable {
    type V = Seq<Slot>;

    closed spec fn view(&self) -> Seq<Slot> {
        self.map@
    }
}

impl RatelimitTable {
    /// The largest number of counters the table holds at once.
    pub closed spec fn capacity(&self) -> nat {
        self.map.capacity()
    }

    /// The invariant of the table.
    pub open spec fn wf(&self) -> bool {
        lru_well_formed(self@, self.capacity())
    }

    /// An empty table for up to `capacity` counters; none for a capacity
    /// of zero, which could count nothing.
    pub fn new(capacity: usize) -> (made: Option<RatelimitTable>)
        ensures
            capacity == 0 <==> made is None,
            made matches Some(table) ==> table.wf() && table@ == Seq::<Slot>::empty()
                && table.capacity() == capacity,
    {
        match LruMap::new(capacity) {
            Some(map) => Some(RatelimitTable { map }),
            None => None,
        }
    }

    /// An empty table of the usual capacity.
    pub fn with_default_capacity() -> (table: RatelimitTable)
        ensures
            table.wf(),
            table@ == Seq::<Slot>::empty(),
            table.capacity() == DEFAULT_RATELIMIT_CAPACITY,
    {
        RatelimitTable { map: LruMap::new(DEFAULT_RATELIMIT_CAPACITY).unwrap() }
    }

    /// The number of counters held.
    pub fn len(&self) -> (n: usize)
        ensures
            n == self@.len(),
    {
        self.map.len()
    }

    /// The packets counted under `key` in the current window, if any.
    pub fn get(&self, key: u64) -> (count: Option<u64>)
        requires
            self.wf(),
        ensures
            count == lru_get(self@, key),
    {
        self.map.get(key)
    }

    /// Counts one more packet under `key` and returns the new count.
    pub fn increment(&mut self, key: u64) -> (count: u64)
        requires
            old(self).wf(),
        ensures
            final(self).wf(),
            final(self).capacity() == old(self).capacity(),
            count == next_count(lru_get(old(self)@, key)),
            final(self)@ == lru_put(old(self)@, old(self).capacity(), key, count),
    {
        let count: u64 = match self.map.get(key) {
            Some(seen) => seen.saturating_add(1),
            None => 1,
        };
        self.map.insert(key, count);
        count
    }

    /// Starts a new window: forgets every counter.
    pub fn clear_all(&mut self)
        requires
            old(self).wf(),
        ensures
            final(self).wf(),
            final(self).capacity() == old(self).capacity(),
            final(self)@ == Seq::<Slot>::empty(),
    {
        self.map.clear();
    }
}

} // verus!
