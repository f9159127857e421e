//! Tables: hybrid aggregates with a dense array part and an associative part,
//! kept in an arena and referred to by handle.
//!
//! A table value holds the handle, so cloning a value shares the table and
//! two tables built separately never compare equal.
use vstd::prelude::*;
use crate::lemmas::lemma_equals_symmetric;
use crate::value::{equals, Value};

verus! {

/// A hybrid aggregate: `array` holds the dense, ordered part and `map` the
/// associative part as key/value pairs whose keys are pairwise unequal.
pub struct Table {
    pub array: Vec<Value>,
    pub map: Vec<(Value, Value)>,
}

impl Table {
    /// Whether no two keys of the associative part are equal.
    pub open spec fn wf(&self) -> bool {
        forall|i: int, j: int|
            0 <= i < j < self.map@.len() ==> !equals(#[trigger] self.map@[i].0, #[trigger] self.map@[j].0)
    }

    /// An empty table, with room reserved for `narray` array elements and
    /// `nmap` associative entries.
    pub fn new(narray: usize, nmap: usize) -> (t: Table)
        ensures
            t.wf(),
            t.array@.len() == 0,
            t.map@.len() == 0,
    {
        Table { array: Vec::with_capacity(narray), map: Vec::with_capacity(nmap) }
    }

    /// The position in the associative part of the entry whose key equals
    /// `key`, if there is one.
    pub fn find(&self, key: &Value) -> (r: Option<usize>)
        requires
            self.wf(),
        ensures
            match r {
                Some(i) => i < self.map@.len() && equals(self.map@[i as int].0, *key),
                None => forall|i: int| 0 <= i < self.map@.len() ==> !equals(#[trigger] self.map@[i].0, *key),
            },
    {
        let mut i: usize = 0;
        while i < self.map.len()
            invariant
                i <= self.map@.len(),
                forall|j: int| 0 <= j < i ==> !equals(#[trigger] self.map@[j].0, *key),
            decreases self.map@.len() - i,
        {
            if self.map[i].0.equals(key) {
                return Some(i);
            }
            i = i + 1;
        }
        None
    }

    /// The value stored under a key equal to `key` in the associative part.
    pub fn get(&self, key: &Value) -> (r: Option<&Value>)
        requires
            self.wf(),
        ensures
            match r {
                Some(v) => exists|i: int|
                    0 <= i < self.map@.len() && equals(#[trigger] self.map@[i].0, *key) && self.map@[i].1 == *v,
                None => forall|i: int| 0 <= i < self.map@.len() ==> !equals(#[trigger] self.map@[i].0, *key),
            },
    {
        match self.find(key) {
            Some(i) => Some(&self.map[i].1),
            None => None,
        }
    }

    /// Takes the entry whose key equals `key` out of the associative part and
    /// returns its value; `None`, with the table unchanged, where no key
    /// equals `key`.
    pub fn remove(&mut self, key: &Value) -> (r: Option<Value>)
        requires
            old(self).wf(),
        ensures
            final(self).wf(),
            final(self).array@ == old(self).array@,
            match r {
                Some(v) => exists|i: int|
                    0 <= i < old(self).map@.len() && equals(#[trigger] old(self).map@[i].0, *key)
                        && old(self).map@[i].1 == v && final(self).map@ == old(self).map@.remove(i),
                None => (forall|i: int|
                    0 <= i < old(self).map@.len() ==> !equals(#[trigger] old(self).map@[i].0, *key))
                    && final(self).map@ == old(self).map@,
            },
    {
        match self.find(key) {
            Some(i) => {
                let (_, v) = self.map.remove(i);
                assert forall|a: int, b: int| 0 <= a < b < self.map@.len() implies !equals(
                    #[trigger] self.map@[a].0,
                    #[trigger] self.map@[b].0,
                ) by {
                    let oa = if a < i { a } else { a + 1 };
                    let ob = if b < i { b } else { b + 1 };
                    assert(self.map@[a] == old(self).map@[oa]);
                    assert(self.map@[b] == old(self).map@[ob]);
                    assert(!equals(old(self).map@[oa].0, old(self).map@[ob].0));
                }
                Some(v)
            },
            None => None,
        }
    }

    /// Stores `value` under `key` in the associative part: it replaces the
    /// value of the entry whose key equals `key`, or is added as a new entry.
    pub fn set(&mut self, key: Value, value: Value)
        requires
            old(self).wf(),
        ensures
            final(self).wf(),
            final(self).array@ == old(self).array@,
            (exists|i: int|
                0 <= i < old(self).map@.len() && equals(#[trigger] old(self).map@[i].0, key)
                    && final(self).map@ == old(self).map@.update(i, (old(self).map@[i].0, value)))
                || ((forall|i: int|
                0 <= i < old(self).map@.len() ==> !equals(#[trigger] old(self).map@[i].0, key))
                && final(self).map@ == old(self).map@.push((key, value))),
    {
        match self.find(&key) {
            Some(i) => {
                let k = self.map[i].0.clone();
                self.map.set(i, (k, value));
                assert forall|a: int, b: int| 0 <= a < b < self.map@.len() implies !equals(
                    #[trigger] self.map@[a].0,
                    #[trigger] self.map@[b].0,
                ) by {
                    assert(self.map@[a].0 == old(self).map@[a].0);
                    assert(self.map@[b].0 == old(self).map@[b].0);
                }
            },
            None => {
                self.map.push((key, value));
                assert forall|a: int, b: int| 0 <= a < b < self.map@.len() implies !equals(
                    #[trigger] self.map@[a].0,
                    #[trigger] self.map@[b].0,
                ) by {
                    if b == self.map@.len() - 1 {
                        assert(!equals(old(self).map@[a].0, key));
                        lemma_equals_symmetric(old(self).map@[a].0, key);
                    } else {
                        assert(self.map@[a] == old(self).map@[a]);
                        assert(self.map@[b] == old(self).map@[b]);
                    }
                }
            },
        }
    }
}

/// The arena that owns every table; a table's handle is its index here.
pub struct Tables {
    pub tables: Vec<Table>,
}

impl Tables {
    /// Whether `v` is a table value whose handle names a table of the arena.
    pub open spec fn holds(&self, v: Value) -> bool {
        match v {
            Value::Table(h) => h < self.tables@.len(),
            _ => false,
        }
    }

    pub open spec fn wf(&self) -> bool {
        forall|i: int| 0 <= i < self.tables@.len() ==> (#[trigger] self.tables@[i]).wf()
    }

    /// An arena with no tables.
    pub fn new() -> (r: Tables)
        ensures
            r.wf(),
            r.tables@.len() == 0,
    {
        Tables { tables: Vec::new() }
    }

    /// Builds a new empty table and returns a value that refers to it. The
    /// value is unequal to every table value the arena held before.
    pub fn new_table(&mut self, narray: usize, nmap: usize) -> (v: Value)
        requires
            old(self).tables@.len() < usize::MAX,
        ensures
            v == Value::Table(old(self).tables@.len() as usize),
            final(self).tables@.len() == old(self).tables@.len() + 1,
            final(self).tables@.subrange(0, old(self).tables@.len() as int) == old(self).tables@,
            final(self).tables@.last().array@.len() == 0,
            final(self).tables@.last().map@.len() == 0,
            old(self).wf() ==> final(self).wf(),
            final(self).holds(v),
            forall|w: Value| old(self).holds(w) ==> !equals(v, w),
    {
        let h = self.tables.len();
        self.tables.push(Table::new(narray, nmap));
        assert(self.tables@.subrange(0, h as int) =~= old(self).tables@);
        Value::Table(h)
    }

    /// Stores `value` under `key` in the associative part of the table that
    /// `t` refers to, as [`Table::set`] does.
    pub fn set(&mut self, t: &Value, key: Value, value: Value)
        requires
            old(self).wf(),
            old(self).holds(*t),
        ensures
            final(self).wf(),
            final(self).tables@.len() == old(self).tables@.len(),
            forall|i: int|
                0 <= i < old(self).tables@.len() && i != t->Table_0 ==> #[trigger] final(self).tables@[i]
                    == old(self).tables@[i],
            ({
                let before = old(self).tables@[t->Table_0 as int];
                let after = final(self).tables@[t->Table_0 as int];
                after.array@ == before.array@ && ((exists|i: int|
                    0 <= i < before.map@.len() && equals(#[trigger] before.map@[i].0, key)
                        && after.map@ == before.map@.update(i, (before.map@[i].0, value))) || ((
                forall|i: int| 0 <= i < before.map@.len() ==> !equals(#[trigger] before.map@[i].0, key))
                    && after.map@ == before.map@.push((key, value))))
            }),
    {
        let h = match t {
            Value::Table(h) => *h,
            _ => 0,
        };
        self.tables[h].set(key, value);
    }

    /// The table that a table value refers to, if the value is one of this
    /// arena's tables.
    pub fn get(&self, v: &Value) -> (r: Option<&Table>)
        ensures
            self.holds(*v) ==> (r matches Some(t) && *t == self.tables@[v->Table_0 as int]),
            !self.holds(*v) ==> r is None,
    {
        match v {
            Value::Table(h) => if *h < self.tables.len() {
                Some(&self.tables[*h])
            } else {
                None
            },
            _ => None,
        }
    }
}

} // verus!
