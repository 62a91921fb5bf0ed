//! A growing map from integer keys to values, kept in order of first entry.

use vstd::prelude::*;

verus! {

/// One key with its value.
#[derive(Debug, Clone, Copy)]
pub struct Row<V> {
    /// The key.
    pub key: i64,
    /// The value kept under the key.
    pub value: V,
}

/// Whether some row of `rows` holds `key`.
pub open spec fn ledger_contains<V>(rows: Seq<Row<V>>, key: i64) -> bool {
    exists|i: int| 0 <= i < rows.len() && (#[trigger] rows[i]).key == key
}

/// The place of `key` in `rows`, where it is held.
pub open spec fn ledger_index<V>(rows: Seq<Row<V>>, key: i64) -> int {
    choose|i: int| 0 <= i < rows.len() && (#[trigger] rows[i]).key == key
}

/// The value kept under `key`, if any.
pub open spec fn ledger_get<V>(rows: Seq<Row<V>>, key: i64) -> Option<V> {
    if ledger_contains(rows, key) {
        Some(rows[ledger_index(rows, key)].value)
    } else {
        None
    }
}

/// `rows` after `value` was written under `key`: in place where the key
/// was held, behind all rows where it is new.
pub open spec fn ledger_set<V>(rows: Seq<Row<V>>, key: i64, value: V) -> Seq<Row<V>> {
    if ledger_contains(rows, key) {
        rows.update(ledger_index(rows, key), Row { key, value })
    } else {
        rows.push(Row { key, value })
    }
}

/// The rows of a ledger hold no key twice.
pub open spec fn ledger_well_formed<V>(rows: Seq<Row<V>>) -> bool {
    forall|i: int, j: int|
        0 <= i < j < rows.len() ==> (#[trigger] rows[i]).key != (#[trigger] rows[j]).key
}

/// In a well-formed ledger the row at `i` is where its key is found.
pub proof fn lemma_ledger_row<V>(rows: Seq<Row<V>>, i: int)
    requires
        ledger_well_formed(rows),
        0 <= i < rows.len(),
    ensures
        ledger_contains(rows, rows[i].key),
        ledger_index(rows, rows[i].key) == i,
        ledger_get(rows, rows[i].key) == Some(rows[i].value),
{
    let c = ledger_index(rows, rows[i].key);
    if c < i {
        assert(rows[c].key != rows[i].key);
    } else if i < c {
        assert(rows[i].key != rows[c].key);
    }
}

/// Writing a key keeps the ledger well formed, makes the key found with
/// the written value and leaves every other key as it was.
pub proof fn lemma_ledger_set<V>(rows: Seq<Row<V>>, key: i64, value: V)
    requires
        ledger_well_formed(rows),
    ensures
        ledger_well_formed(ledger_set(rows, key, value)),
        ledger_get(ledger_set(rows, key, value), key) == Some(value),
        forall|other: i64|
            other != key ==> ledger_get(ledger_set(rows, key, value), other) == ledger_get(
                rows,
                other,
            ),
        forall|other: i64|
            ledger_contains(ledger_set(rows, key, value), other) <==> (other == key
                || ledger_contains(rows, other)),
{
    let after = ledger_set(rows, key, value);
    let at = if ledger_contains(rows, key) {
        ledger_index(rows, key)
    } else {
        rows.len() as int
    };
    assert(after[at] == Row { key, value });
    assert(forall|i: int| 0 <= i < rows.len() && i != at ==> after[i] == rows[i]);
    assert forall|i: int, j: int| 0 <= i < j < after.len() implies (#[trigger] after[i]).key != (
    #[trigger] after[j]).key by {
        if i < rows.len() && j < rows.len() {
            assert(rows[i].key != rows[j].key);
        }
    }
    lemma_ledger_row(after, at);
    assert forall|other: i64| other != key implies ledger_get(after, other) == ledger_get(
        rows,
        other,
    ) by {
        if ledger_contains(rows, other) {
            let o = ledger_index(rows, other);
            assert(after[o] == rows[o]);
            lemma_ledger_row(after, o);
        } else if ledger_contains(after, other) {
            let a = ledger_index(after, other);
            assert(after[a] == rows[a]);
        }
    }
    assert forall|other: i64| ledger_contains(after, other) <==> (other == key || ledger_contains(
        rows,
        other,
    )) by {
        if ledger_contains(rows, other) {
            let o = ledger_index(rows, other);
            assert(after[o].key == other);
        }
        if ledger_contains(after, other) && other != key {
            let a = ledger_index(after, other);
            assert(after[a] == rows[a]);
        }
    }
}

/// A growing map from integer keys to values.
pub struct Ledger<V> {
    rows: Vec<Row<V>>,
}

impl<V> View for Ledger<V> {
    type V = Seq<Row<V>>;

    closed spec fn view(&self) -> Seq<Row<V>> {
        self.rows@
    }
}

impl<V: Copy> Ledger<V> {
    /// The invariant of the ledger.
    pub open spec fn wf(&self) -> bool {
        ledger_well_formed(self@)
    }

    /// An empty ledger.
    pub fn new() -> (ledger: Ledger<V>)
        ensures
            ledger@ == Seq::<Row<V>>::empty(),
            ledger.wf(),
    {
        Ledger { rows: Vec::new() }
    }

    /// The number of keys held.
    pub fn len(&self) -> (n: usize)
        ensures
            n == self@.len(),
    {
        self.rows.len()
    }

    /// The row at place `i`, in order of first entry.
    pub fn row(&self, i: usize) -> (row: Row<V>)
        requires
            i < self@.len(),
        ensures
            row == self@[i as int],
    {
        self.rows[i]
    }

    /// Where `key` is held, if it is.
    fn find(&self, key: i64) -> (at: Option<usize>)
        requires
            self.wf(),
        ensures
            match at {
                Some(i) => ledger_contains(self@, key) && i == ledger_index(self@, key) && i
                    < self@.len(),
                None => !ledger_contains(self@, key),
            },
    {
        let mut i: usize = 0;
        while i < self.rows.len()
            invariant
                i <= self.rows.len(),
                self.wf(),
                forall|j: int| 0 <= j < i ==> (#[trigger] self@[j]).key != key,
            decreases self.rows.len() - i,
        {
            if self.rows[i].key == key {
                proof {
                    lemma_ledger_row(self@, i as int);
                }
                return Some(i);
            }
            i += 1;
        }
        None
    }

    /// The value kept under `key`, if any.
    pub fn get(&self, key: i64) -> (value: Option<V>)
        requires
            self.wf(),
        ensures
            value == ledger_get(self@, key),
    {
        match self.find(key) {
            Some(i) => Some(self.rows[i].value),
            None => None,
        }
    }

    /// Writes `value` under `key`.
    pub fn set(&mut self, key: i64, value: V)
        requires
            old(self).wf(),
        ensures
            final(self).wf(),
            final(self)@ == ledger_set(old(self)@, key, value),
    {
        proof {
            lemma_ledger_set(self@, key, value);
        }
        match self.find(key) {
            Some(i) => {
                self.rows[i] = Row { key, value };
            },
            None => {
                self.rows.push(Row { key, value });
            },
        }
    }
}

} // verus!
