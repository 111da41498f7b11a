//! A table of values keyed by name that remembers the order in which names
//! were first added.
use vstd::prelude::*;
use crate::text::str_eq;

verus! {

/// Values keyed by name, at most one per name, in the order the names were
/// first added.
#[derive(Debug)]
pub struct NamedTable<V> {
    names: Vec<String>,
    vals: Vec<V>,
}

/// Whether no name occurs twice.
pub open spec fn unique_names<V>(keys: Seq<Seq<char>>) -> bool {
    forall|i: int, j: int| 0 <= i < keys.len() && 0 <= j < keys.len() && i != j ==> keys[i] != keys[j]
}

impl<V> NamedTable<V> {
    /// The names, in the order they were first added.
    pub closed spec fn keys(&self) -> Seq<Seq<char>> {
        self.names@.map_values(|s: String| s@)
    }

    /// The values, in the same order as the names: the value of the name at
    /// a position is the value at that position.
    pub closed spec fn values(&self) -> Seq<V> {
        Seq::new(self.names@.len(), |i: int| self.vals@[i])
    }

    /// Position of `name` among the names.
    pub open spec fn index_of(&self, name: Seq<char>) -> Option<int> {
        if exists|i: int| 0 <= i < self.keys().len() && self.keys()[i] == name {
            Some(choose|i: int| 0 <= i < self.keys().len() && self.keys()[i] == name)
        } else {
            None
        }
    }

    /// The value under `name`.
    pub open spec fn lookup(&self, name: Seq<char>) -> Option<V> {
        match self.index_of(name) {
            Some(i) => Some(self.values()[i]),
            None => None,
        }
    }

    #[verifier::type_invariant]
    closed spec fn well_formed(&self) -> bool {
        &&& unique_names::<V>(self.keys())
        &&& self.names@.len() == self.vals@.len()
    }

    /// An empty table.
    pub fn new() -> (r: NamedTable<V>)
        ensures
            r.keys().len() == 0,
            r.values().len() == 0,
    {
        NamedTable { names: Vec::new(), vals: Vec::new() }
    }

    /// There are as many values as names.
    pub proof fn lemma_lengths(&self)
        ensures
            self.keys().len() == self.values().len(),
    {
    }

    /// Number of names.
    pub fn len(&self) -> (r: usize)
        ensures
            r == self.keys().len(),
    {
        self.names.len()
    }

    fn find(&self, name: &str) -> (r: Option<usize>)
        ensures
            match r {
                Some(i) => i < self.keys().len() && self.keys()[i as int] == name@,
                None => forall|i: int| 0 <= i < self.keys().len() ==> self.keys()[i] != name@,
            },
    {
        let mut i: usize = 0;
        while i < self.names.len()
            invariant
                i <= self.names@.len(),
                forall|k: int| 0 <= k < i ==> self.keys()[k] != name@,
            decreases self.names@.len() - i,
        {
            if str_eq(self.names[i].as_str(), name) {
                return Some(i);
            }
            i = i + 1;
        }
        None
    }

    /// Whether `name` is in the table.
    pub fn contains(&self, name: &str) -> (r: bool)
        ensures
            r == (self.index_of(name@) is Some),
    {
        match self.find(name) {
            Some(i) => {
                assert(self.keys()[i as int] == name@);
                true
            },
            None => false,
        }
    }

    /// The value under `name`.
    pub fn get(&self, name: &str) -> (r: Option<&V>)
        ensures
            match r {
                Some(v) => self.lookup(name@) == Some(*v),
                None => self.lookup(name@) is None,
            },
    {
        proof {
            use_type_invariant(self);
        }
        match self.find(name) {
            Some(i) => {
                proof {
                    let j = self.index_of(name@)->0;
                    assert(self.keys()[i as int] == name@);
                    assert(j == i);
                }
                Some(&self.vals[i])
            },
            None => None,
        }
    }

    /// The value under `name`, to change in place; the names stay as they
    /// are.
    pub fn get_mut(&mut self, name: &str) -> (r: Option<&mut V>)
        ensures
            match r {
                Some(v) => old(self).index_of(name@) is Some && *v == old(self).values()[old(
                    self,
                ).index_of(name@)->0] && final(self).keys() == old(self).keys() && final(self).values()
                    == old(self).values().update(old(self).index_of(name@)->0, *final(v)),
                None => old(self).index_of(name@) is None && *final(self) == *old(self),
            },
            unique_names::<V>(old(self).keys()),
    {
        proof {
            use_type_invariant(&*self);
        }
        match self.find(name) {
            Some(i) => {
                proof {
                    let j = self.index_of(name@)->0;
                    assert(self.keys()[i as int] == name@);
                    assert(j == i);
                }
                Some(&mut self.vals[i])
            },
            None => None,
        }
    }

    /// The value under the name at position `i` is the value at `i`.
    pub proof fn lemma_lookup_at(&self, i: int)
        requires
            unique_names::<V>(self.keys()),
            self.keys().len() == self.values().len(),
            0 <= i < self.keys().len(),
        ensures
            self.lookup(self.keys()[i]) == Some(self.values()[i]),
    {
        let j = self.index_of(self.keys()[i])->0;
        assert(self.keys()[i] == self.keys()[i]);
        assert(j == i);
    }

    /// The name and value at position `i`.
    pub fn entry(&self, i: usize) -> (r: (&str, &V))
        requires
            i < self.keys().len(),
        ensures
            r.0@ == self.keys()[i as int],
            *r.1 == self.values()[i as int],
            self.lookup(r.0@) == Some(*r.1),
    {
        proof {
            use_type_invariant(self);
            self.lemma_lookup_at(i as int);
        }
        (self.names[i].as_str(), &self.vals[i])
    }

    /// Puts `value` under `name`. A name already present keeps its position
    /// and gets the new value; the value it had is returned. A new name is
    /// added last.
    pub fn insert(&mut self, name: &str, value: V) -> (r: Option<V>)
        ensures
            match old(self).index_of(name@) {
                Some(i) => final(self).keys() == old(self).keys() && final(self).values() == old(
                    self,
                ).values().update(i, value) && r == Some(old(self).values()[i]),
                None => final(self).keys() == old(self).keys().push(name@) && final(self).values() == old(
                    self,
                ).values().push(value) && r is None,
            },
            final(self).lookup(name@) == Some(value),
            forall|other: Seq<char>| other != name@ ==> #[trigger] final(self).lookup(other) == old(self).lookup(other),
    {
        proof {
            use_type_invariant(&*self);
        }
        let ghost before = *self;
        let ghost old_keys = self.keys();
        let ghost old_vals = self.values();
        let found = self.find(name);
        match found {
            Some(i) => {
                proof {
                    let j = old(self).index_of(name@)->0;
                    assert(old_keys[i as int] == name@);
                    assert(j == i);
                }
                let mut previous = value;
                std::mem::swap(&mut self.vals[i], &mut previous);
                proof {
                    assert(self.keys() =~= old_keys);
                    assert(self.values() =~= old_vals.update(i as int, value));
                    assert forall|other: Seq<char>| other != name@ implies #[trigger] self.lookup(other) == before.lookup(other) by {
                        law_lookup_after_insert(before, *self, name@, value, other);
                    }
                    assert(name@.push('x').len() != name@.len());
                    law_lookup_after_insert(before, *self, name@, value, name@.push('x'));
                }
                Some(previous)
            },
            None => {
                proof {
                    let ks = old_keys.push(name@);
                    assert forall|x: int, y: int| 0 <= x < ks.len() && 0 <= y < ks.len() && x != y implies ks[x] != ks[y] by {
                        if x < old_keys.len() && y < old_keys.len() {
                            assert(old_keys[x] != old_keys[y]);
                        }
                    }
                }
                let mut t = NamedTable::new();
                std::mem::swap(self, &mut t);
                let NamedTable { mut names, mut vals } = t;
                vals.push(value);
                names.push(name.to_owned());
                proof {
                    assert(names@.map_values(|s: String| s@) =~= old_keys.push(name@));
                }
                *self = NamedTable { names, vals };
                proof {
                    assert(self.keys() =~= old_keys.push(name@));
                    assert(self.values() =~= old_vals.push(value));
                    assert forall|other: Seq<char>| other != name@ implies #[trigger] self.lookup(other) == before.lookup(other) by {
                        law_lookup_after_insert(before, *self, name@, value, other);
                    }
                    assert(name@.push('x').len() != name@.len());
                    law_lookup_after_insert(before, *self, name@, value, name@.push('x'));
                }
                None
            },
        }
    }

    /// Removes `name` and returns its value; the other names keep their
    /// order.
    pub fn remove(&mut self, name: &str) -> (r: Option<V>)
        ensures
            match old(self).index_of(name@) {
                Some(i) => final(self).keys() == old(self).keys().remove(i) && final(self).values() == old(
                    self,
                ).values().remove(i) && r == Some(old(self).values()[i]),
                None => final(self).keys() == old(self).keys() && final(self).values() == old(self).values()
                    && r is None,
            },
            forall|k: Seq<char>| #[trigger] final(self).keys().contains(k) <==> (old(self).keys().contains(k) && k
                != name@),
            final(self).lookup(name@) is None,
            forall|other: Seq<char>| other != name@ ==> #[trigger] final(self).lookup(other) == old(self).lookup(other),
    {
        proof {
            use_type_invariant(&*self);
        }
        let ghost before = *self;
        let r = self.remove_entry(name);
        proof {
            use_type_invariant(&*self);
            assert forall|other: Seq<char>| other != name@ implies #[trigger] self.lookup(other) == before.lookup(other) by {
                lemma_lookup_after_remove(before, *self, name@, other);
            }
            if self.index_of(name@) is Some {
                let j = self.index_of(name@)->0;
                assert(self.keys()[j] == name@);
                assert(self.keys().contains(name@));
            }
        }
        r
    }

    fn remove_entry(&mut self, name: &str) -> (r: Option<V>)
        ensures
            match old(self).index_of(name@) {
                Some(i) => final(self).keys() == old(self).keys().remove(i) && final(self).values() == old(
                    self,
                ).values().remove(i) && r == Some(old(self).values()[i]),
                None => final(self).keys() == old(self).keys() && final(self).values() == old(self).values()
                    && r is None,
            },
            forall|k: Seq<char>| #[trigger] final(self).keys().contains(k) <==> (old(self).keys().contains(k) && k
                != name@),
    {
        proof {
            use_type_invariant(&*self);
        }
        let ghost old_keys = self.keys();
        let ghost old_vals = self.values();
        match self.find(name) {
            Some(i) => {
                proof {
                    let j = old(self).index_of(name@)->0;
                    assert(old_keys[i as int] == name@);
                    assert(j == i);
                }
                let ghost ks = old_keys.remove(i as int);
                proof {
                    assert forall|x: int, y: int| 0 <= x < ks.len() && 0 <= y < ks.len() && x != y implies ks[x] != ks[y] by {
                        let ox = if x < i { x } else { x + 1 };
                        let oy = if y < i { y } else { y + 1 };
                        assert(ks[x] == old_keys[ox]);
                        assert(ks[y] == old_keys[oy]);
                    }
                }
                let mut t = NamedTable::new();
                std::mem::swap(self, &mut t);
                let NamedTable { mut names, mut vals } = t;
                let _name = names.remove(i);
                let v = vals.remove(i);
                proof {
                    assert(names@.map_values(|s: String| s@) =~= ks);
                }
                *self = NamedTable { names, vals };
                proof {
                    assert(self.keys() =~= ks);
                    assert(self.values() =~= old_vals.remove(i as int));
                }
                proof {
                    let ks = old_keys.remove(i as int);
                    assert forall|k: Seq<char>| #[trigger] ks.contains(k) <==> (old_keys.contains(k) && k != name@) by {
                        if ks.contains(k) {
                            let j = choose|j: int| 0 <= j < ks.len() && ks[j] == k;
                            let o = if j < i { j } else { j + 1 };
                            assert(ks[j] == old_keys[o]);
                            assert(o != i);
                        }
                        if old_keys.contains(k) && k != name@ {
                            let o = choose|o: int| 0 <= o < old_keys.len() && old_keys[o] == k;
                            assert(o != i);
                            let j = if o < i { o } else { o - 1 };
                            assert(ks[j] == k);
                        }
                    }
                }
                Some(v)
            },
            None => {
                assert forall|k: Seq<char>| #[trigger] self.keys().contains(k) implies k != name@ by {
                    if k == name@ {
                        let j = choose|j: int| 0 <= j < self.keys().len() && self.keys()[j] == k;
                    }
                }
                None
            },
        }
    }
}

/// After a name is removed, every other name gives what it gave before.
pub proof fn lemma_lookup_after_remove<V>(before: NamedTable<V>, after: NamedTable<V>, name: Seq<char>, other: Seq<char>)
    requires
        match before.index_of(name) {
            Some(i) => after.keys() == before.keys().remove(i) && after.values() == before.values().remove(i),
            None => after.keys() == before.keys() && after.values() == before.values(),
        },
        other != name,
        unique_names::<V>(before.keys()),
        unique_names::<V>(after.keys()),
        before.keys().len() == before.values().len(),
    ensures
        after.lookup(other) == before.lookup(other),
{
    let kb = before.keys();
    let ka = after.keys();
    match before.index_of(name) {
        Some(i) => {
            assert(kb[i] == name);
            match before.index_of(other) {
                Some(x) => {
                    assert(kb[x] == other);
                    assert(x != i);
                    let y = if x < i { x } else { x - 1 };
                    assert(ka[y] == other);
                    let z = after.index_of(other)->0;
                    assert(ka[z] == other);
                    assert(z == y);
                },
                None => {
                    assert forall|y: int| 0 <= y < ka.len() implies ka[y] != other by {
                        let x = if y < i { y } else { y + 1 };
                        assert(ka[y] == kb[x]);
                    }
                },
            }
        },
        None => {},
    }
}

/// What a lookup gives after an insert: the inserted value under that name,
/// and what was there before under any other name.
pub proof fn law_lookup_after_insert<V>(before: NamedTable<V>, after: NamedTable<V>, name: Seq<char>, value: V, other: Seq<char>)
    requires
        match before.index_of(name) {
            Some(i) => after.keys() == before.keys() && after.values() == before.values().update(i, value),
            None => after.keys() == before.keys().push(name) && after.values() == before.values().push(value),
        },
        other != name,
        unique_names::<V>(before.keys()),
        before.keys().len() == before.values().len(),
    ensures
        after.lookup(name) == Some(value),
        after.lookup(other) == before.lookup(other),
{
    let ka = after.keys();
    let kb = before.keys();
    match before.index_of(name) {
        Some(i) => {
            let j = after.index_of(name)->0;
            assert(ka[i] == name);
            assert(j == i);
            match before.index_of(other) {
                Some(x) => {
                    assert(ka[x] == other);
                    let y = after.index_of(other)->0;
                    assert(y == x);
                },
                None => {
                    assert forall|x: int| 0 <= x < ka.len() implies ka[x] != other by {
                        assert(ka[x] == kb[x]);
                    }
                },
            }
        },
        None => {
            let n = kb.len() as int;
            assert(ka[n] == name);
            let j = after.index_of(name)->0;
            assert(j == n);
            match before.index_of(other) {
                Some(x) => {
                    assert(ka[x] == other);
                    let y = after.index_of(other)->0;
                    assert(y == x);
                },
                None => {
                    assert forall|x: int| 0 <= x < ka.len() implies ka[x] != other by {
                        if x < n {
                            assert(ka[x] == kb[x]);
                        }
                    }
                },
            }
        },
    }
}

} // verus!
