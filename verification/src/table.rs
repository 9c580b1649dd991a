//! A small table from names to values that keeps one entry per name, in the
//! order in which the names first came.

use vstd::prelude::*;

verus! {

/// Whether some entry of `s` carries `name`.
pub open spec fn has_name<V>(s: Seq<(Seq<char>, V)>, name: Seq<char>) -> bool {
    exists|i: int| 0 <= i < s.len() && (#[trigger] s[i]).0 == name
}

/// The place of an entry of `s` that carries `name`.
pub open spec fn index_of_name<V>(s: Seq<(Seq<char>, V)>, name: Seq<char>) -> int {
    choose|i: int| 0 <= i < s.len() && (#[trigger] s[i]).0 == name
}

/// No two entries of `s` carry the same name.
pub open spec fn names_distinct<V>(s: Seq<(Seq<char>, V)>) -> bool {
    forall|i: int, j: int| 0 <= i < j < s.len() ==> (#[trigger] s[i]).0 != (#[trigger] s[j]).0
}

/// The value recorded under `name`, if there is one.
pub open spec fn lookup<V>(s: Seq<(Seq<char>, V)>, name: Seq<char>) -> Option<V> {
    if has_name(s, name) {
        Some(s[index_of_name(s, name)].1)
    } else {
        None
    }
}

/// `s` after `value` was recorded under `name`: the entry of that name is
/// overwritten in place, or a new entry is appended.
pub open spec fn upsert<V>(s: Seq<(Seq<char>, V)>, name: Seq<char>, value: V) -> Seq<
    (Seq<char>, V),
> {
    if has_name(s, name) {
        s.update(index_of_name(s, name), (name, value))
    } else {
        s.push((name, value))
    }
}

/// Recording under a name keeps the names distinct, makes the value the one
/// found under that name, and leaves every other name as it was.
pub proof fn lemma_upsert<V>(s: Seq<(Seq<char>, V)>, name: Seq<char>, value: V)
    requires
        names_distinct(s),
    ensures
        names_distinct(upsert(s, name, value)),
        lookup(upsert(s, name, value), name) == Some(value),
        forall|other: Seq<char>| other != name ==> lookup(upsert(s, name, value), other) == lookup(s, other),
        upsert(s, name, value).len() == if has_name(s, name) {
            s.len()
        } else {
            s.len() + 1
        },
{
    let t = upsert(s, name, value);
    let k: int = if has_name(s, name) {
        index_of_name(s, name)
    } else {
        s.len() as int
    };
    assert(t[k] == (name, value));
    assert(forall|i: int| 0 <= i < s.len() && i != k ==> t[i] == s[i]);
    assert(names_distinct(t));
    assert(has_name(t, name));
    assert(index_of_name(t, name) == k);
    assert forall|other: Seq<char>| other != name implies lookup(t, other) == lookup(s, other) by {
        if has_name(s, other) {
            let i: int = index_of_name(s, other);
            assert(t[i] == s[i]);
            assert(has_name(t, other));
            let j: int = index_of_name(t, other);
            assert(j != k);
            assert(t[j] == s[j]);
            assert(i == j);
        } else if has_name(t, other) {
            let j: int = index_of_name(t, other);
            assert(j != k);
            assert(t[j] == s[j]);
            assert(false);
        }
    }
}

/// Of two values recorded under one name only the later one stays: the
/// table is as if the earlier one had never been recorded.
pub proof fn lemma_upsert_twice<V>(s: Seq<(Seq<char>, V)>, name: Seq<char>, first: V, second: V)
    requires
        names_distinct(s),
    ensures
        upsert(upsert(s, name, first), name, second) == upsert(s, name, second),
{
    let t = upsert(s, name, first);
    let k: int = if has_name(s, name) {
        index_of_name(s, name)
    } else {
        s.len() as int
    };
    assert(t[k] == (name, first));
    assert(forall|i: int| 0 <= i < s.len() && i != k ==> t[i] == s[i]);
    assert(has_name(t, name));
    assert(index_of_name(t, name) == k);
    assert(upsert(t, name, second) =~= upsert(s, name, second));
}

struct Entry<V> {
    name: String,
    value: V,
}

/// A table from names to values with one entry per name.
pub struct NameTable<V> {
    entries: Vec<Entry<V>>,
}

impl<V> View for NameTable<V> {
    type V = Seq<(Seq<char>, V)>;

    closed spec fn view(&self) -> Seq<(Seq<char>, V)> {
        Seq::new(self.entries@.len(), |i: int| (self.entries@[i].name@, self.entries@[i].value))
    }
}

impl<V> NameTable<V> {
    #[verifier::type_invariant]
    spec fn well_formed(&self) -> bool {
        names_distinct(self@)
    }
}

impl<V: Copy> NameTable<V> {
    /// The empty table.
    pub fn new() -> (r: NameTable<V>)
        ensures
            r@ == Seq::<(Seq<char>, V)>::empty(),
    {
        let r = NameTable { entries: Vec::new() };
        assert(r@ =~= Seq::<(Seq<char>, V)>::empty());
        r
    }

    /// The number of entries; the names of a table are always distinct.
    pub fn len(&self) -> (n: usize)
        ensures
            n == self@.len(),
            names_distinct(self@),
    {
        proof {
            use_type_invariant(self);
        }
        self.entries.len()
    }

    /// The value of entry `i`.
    pub fn value_at(&self, i: usize) -> (v: V)
        requires
            i < self@.len(),
        ensures
            v == self@[i as int].1,
    {
        self.entries[i].value
    }

    /// The value recorded under `name`, if there is one.
    pub fn get(&self, name: &str) -> (r: Option<V>)
        ensures
            r == lookup(self@, name@),
    {
        proof {
            use_type_invariant(self);
        }
        let key: String = name.to_owned();
        let mut i: usize = 0;
        while i < self.entries.len()
            invariant
                i <= self.entries@.len(),
                key@ == name@,
                names_distinct(self@),
                forall|j: int| 0 <= j < i ==> (#[trigger] self@[j]).0 != name@,
            decreases self.entries@.len() - i,
        {
            if self.entries[i].name == key {
                assert(self@[i as int].0 == name@);
                assert(index_of_name(self@, name@) == i as int);
                return Some(self.entries[i].value);
            }
            i = i + 1;
        }
        None
    }

    /// Records `value` under `name`: the last value recorded under a name is
    /// the one that stays.
    pub fn record(&mut self, name: &str, value: V)
        ensures
            final(self)@ == upsert(old(self)@, name@, value),
            names_distinct(final(self)@),
    {
        proof {
            use_type_invariant(&*self);
            lemma_upsert(self@, name@, value);
        }
        let key: String = name.to_owned();
        let mut i: usize = 0;
        while i < self.entries.len()
            invariant
                i <= self.entries@.len(),
                key@ == name@,
                *self == *old(self),
                names_distinct(self@),
                forall|j: int| 0 <= j < i ==> (#[trigger] self@[j]).0 != name@,
            decreases self.entries@.len() - i,
        {
            if self.entries[i].name == key {
                assert(self@[i as int].0 == name@);
                assert(index_of_name(self@, name@) == i as int);
                let mut entries: Vec<Entry<V>> = Vec::new();
                std::mem::swap(&mut self.entries, &mut entries);
                entries.set(i, Entry { name: key, value });
                let ghost changed = entries@;
                assert(Seq::new(changed.len(), |i: int| (changed[i].name@, changed[i].value))
                    =~= upsert(old(self)@, name@, value));
                std::mem::swap(&mut self.entries, &mut entries);
                assert(self@ =~= upsert(old(self)@, name@, value));
                return ;
            }
            i = i + 1;
        }
        let mut entries: Vec<Entry<V>> = Vec::new();
        std::mem::swap(&mut self.entries, &mut entries);
        entries.push(Entry { name: key, value });
        let ghost grown = entries@;
        assert(Seq::new(grown.len(), |i: int| (grown[i].name@, grown[i].value)) =~= upsert(
            old(self)@,
            name@,
            value,
        ));
        std::mem::swap(&mut self.entries, &mut entries);
        assert(self@ =~= upsert(old(self)@, name@, value));
    }
}

} // verus!
