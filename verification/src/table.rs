//! A table keyed by name in which a later write for a name replaces the
//! earlier one, and entries keep the order in which their names first came.

use vstd::prelude::*;

verus! {

/// Whether no two entries of `keys` are equal.
pub open spec fn distinct(keys: Seq<Seq<char>>) -> bool {
    forall|i: int, j: int| 0 <= i < j < keys.len() ==> keys[i] != keys[j]
}

/// The value stored under `name`, if there is one.
pub open spec fn lookup<V>(keys: Seq<Seq<char>>, vals: Seq<V>, name: Seq<char>) -> Option<V> {
    if keys.contains(name) {
        Some(vals[keys.index_of(name)])
    } else {
        None
    }
}

/// The keys after writing under `name`.
pub open spec fn upsert_keys(keys: Seq<Seq<char>>, name: Seq<char>) -> Seq<Seq<char>> {
    if keys.contains(name) {
        keys
    } else {
        keys.push(name)
    }
}

/// The values after writing `value` under `name`.
pub open spec fn upsert_vals<V>(keys: Seq<Seq<char>>, vals: Seq<V>, name: Seq<char>, value: V) -> Seq<V> {
    if keys.contains(name) {
        vals.update(keys.index_of(name), value)
    } else {
        vals.push(value)
    }
}

/// With distinct keys, the only index that holds `name` is `index_of(name)`.
pub proof fn lemma_index_of_distinct(keys: Seq<Seq<char>>, i: int)
    requires
        distinct(keys),
        0 <= i < keys.len(),
    ensures
        keys.contains(keys[i]),
        keys.index_of(keys[i]) == i,
{
    let j = keys.index_of(keys[i]);
    assert(keys.contains(keys[i]));
    assert(0 <= j < keys.len() && keys[j] == keys[i]);
    if j < i {
        assert(keys[j] != keys[i]);
    } else if i < j {
        assert(keys[i] != keys[j]);
    }
}

/// A write is seen by a later read of the same name and by no read of
/// another name: the last writer of a name wins, and names do not disturb
/// each other.
pub proof fn lemma_upsert_lookup<V>(
    keys: Seq<Seq<char>>,
    vals: Seq<V>,
    name: Seq<char>,
    value: V,
    other: Seq<char>,
)
    requires
        distinct(keys),
        keys.len() == vals.len(),
    ensures
        distinct(upsert_keys(keys, name)),
        upsert_keys(keys, name).len() == upsert_vals(keys, vals, name, value).len(),
        lookup(upsert_keys(keys, name), upsert_vals(keys, vals, name, value), other) == if other
            == name {
            Some(value)
        } else {
            lookup(keys, vals, other)
        },
{
    let k2 = upsert_keys(keys, name);
    let v2 = upsert_vals(keys, vals, name, value);
    if keys.contains(name) {
        let i = keys.index_of(name);
        assert(0 <= i < keys.len() && keys[i] == name);
        if other != name && keys.contains(other) {
            let j = keys.index_of(other);
            assert(0 <= j < keys.len() && keys[j] == other);
            assert(j != i);
        }
    } else {
        assert forall|i: int, j: int| 0 <= i < j < k2.len() implies k2[i] != k2[j] by {
            if j == keys.len() {
                assert(keys[i] != name);
            }
        }
        assert(k2[keys.len() as int] == name);
        assert(k2.contains(name));
        lemma_index_of_distinct(k2, keys.len() as int);
        if other != name {
            if keys.contains(other) {
                let j = keys.index_of(other);
                assert(0 <= j < keys.len() && keys[j] == other);
                assert(k2[j] == other);
                assert(k2.contains(other));
                lemma_index_of_distinct(k2, j);
            } else {
                if k2.contains(other) {
                    let j = k2.index_of(other);
                    assert(0 <= j < k2.len() && k2[j] == other);
                    assert(j < keys.len());
                    assert(keys[j] == other);
                    assert(false);
                }
            }
        }
    }
}

/// Values filed under names.
#[derive(Debug)]
pub struct NameTable<V> {
    names: Vec<String>,
    values: Vec<V>,
}

impl<V> NameTable<V> {
    /// The names in the table, in the order in which they first came.
    pub closed spec fn keys(&self) -> Seq<Seq<char>> {
        self.names@.map_values(|s: String| s@)
    }

    /// The values in the table, each at the index of its name.
    pub closed spec fn vals(&self) -> Seq<V> {
        self.values@
    }

    /// Every name has one value and stands once.
    pub open spec fn wf(&self) -> bool {
        &&& self.keys().len() == self.vals().len()
        &&& distinct(self.keys())
    }

    /// The value stored under `name`, if there is one.
    pub open spec fn find(&self, name: Seq<char>) -> Option<V> {
        lookup(self.keys(), self.vals(), name)
    }

    /// A table without entries.
    pub fn new() -> (r: Self)
        ensures
            r.wf(),
            r.keys() == Seq::<Seq<char>>::empty(),
            r.vals() == Seq::<V>::empty(),
    {
        let r = NameTable { names: Vec::new(), values: Vec::new() };
        assert(r.keys() =~= Seq::<Seq<char>>::empty());
        r
    }

    /// The number of names in the table.
    pub fn len(&self) -> (n: usize)
        requires
            self.wf(),
        ensures
            n == self.keys().len(),
    {
        self.names.len()
    }

    /// The index at which `name` stands, if it does.
    pub fn position(&self, name: &str) -> (r: Option<usize>)
        requires
            self.wf(),
        ensures
            match r {
                Some(i) => self.keys().contains(name@) && i == self.keys().index_of(name@),
                None => !self.keys().contains(name@),
            },
    {
        let owned = name.to_owned();
        let mut i: usize = 0;
        while i < self.names.len()
            invariant
                i <= self.names.len(),
                owned@ == name@,
                self.wf(),
                forall|k: int| 0 <= k < i ==> self.keys()[k] != name@,
            decreases self.names.len() - i,
        {
            if self.names[i] == owned {
                proof {
                    assert(self.keys()[i as int] == name@);
                    lemma_index_of_distinct(self.keys(), i as int);
                }
                return Some(i);
            }
            i += 1;
        }
        None
    }

    /// The value stored under `name`, if there is one.
    pub fn get(&self, name: &str) -> (r: Option<&V>)
        requires
            self.wf(),
        ensures
            match r {
                Some(v) => self.find(name@) == Some(*v),
                None => self.find(name@) is None,
            },
    {
        match self.position(name) {
            Some(i) => Some(&self.values[i]),
            None => None,
        }
    }

    /// The name at index `i`.
    pub fn name_at(&self, i: usize) -> (r: &String)
        requires
            self.wf(),
            i < self.keys().len(),
        ensures
            r@ == self.keys()[i as int],
    {
        &self.names[i]
    }

    /// The value at index `i`.
    pub fn value_at(&self, i: usize) -> (r: &V)
        requires
            self.wf(),
            i < self.keys().len(),
        ensures
            *r == self.vals()[i as int],
    {
        &self.values[i]
    }

    /// Writes `value` under `name`: in place of the value that `name` had, or
    /// as a new last entry.
    pub fn insert(&mut self, name: String, value: V)
        requires
            old(self).wf(),
        ensures
            final(self).wf(),
            final(self).keys() == upsert_keys(old(self).keys(), name@),
            final(self).vals() == upsert_vals(old(self).keys(), old(self).vals(), name@, value),
    {
        proof {
            lemma_upsert_lookup(self.keys(), self.vals(), name@, value, name@);
        }
        match self.position(name.as_str()) {
            Some(i) => {
                self.values.set(i, value);
            },
            None => {
                self.names.push(name);
                self.values.push(value);
                assert(self.keys() =~= old(self).keys().push(name@));
            },
        }
    }
}

} // verus!
