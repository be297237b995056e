//! A map from strings, kept as a list of entries with distinct keys.
use vstd::prelude::*;

use crate::text::str_eq;

verus! {

/// A map keyed by strings. Entries keep the order in which their keys came first.
#[derive(Debug)]
pub struct StrMap<V> {
    keys: Vec<String>,
    vals: Vec<V>,
}

/// Keys and values side by side.
pub open spec fn zipped<V>(keys: Seq<String>, vals: Seq<V>) -> Seq<(String, V)> {
    Seq::new(keys.len(), |i: int| (keys[i], vals[i]))
}

/// What a list of entries maps its keys to.
pub open spec fn entries_map<V>(entries: Seq<(String, V)>) -> Map<Seq<char>, V> {
    Map::new(
        |k: Seq<char>| exists|i: int| 0 <= i < entries.len() && (#[trigger] entries[i]).0@ == k,
        |k: Seq<char>|
            {
                let i = choose|i: int| 0 <= i < entries.len() && (#[trigger] entries[i]).0@ == k;
                entries[i].1
            },
    )
}

/// Whether no key occurs twice.
pub open spec fn distinct_keys<V>(entries: Seq<(String, V)>) -> bool {
    forall|i: int, j: int|
        0 <= i < j < entries.len() ==> (#[trigger] entries[i]).0@ != (#[trigger] entries[j]).0@
}

impl<V> View for StrMap<V> {
    type V = Map<Seq<char>, V>;

    open spec fn view(&self) -> Map<Seq<char>, V> {
        entries_map(self.entries())
    }
}

impl<V> StrMap<V> {
    #[verifier::type_invariant]
    spec fn distinct(self) -> bool {
        self.keys@.len() == self.vals@.len() && distinct_keys(self.entries())
    }

    /// The entries, in the order in which their keys came first.
    pub closed spec fn entries(self) -> Seq<(String, V)> {
        zipped(self.keys@, self.vals@)
    }

    /// The values, in the order in which their keys came first.
    pub open spec fn values(self) -> Seq<V> {
        self.entries().map_values(|e: (String, V)| e.1)
    }

    /// A position at which a key stands.
    pub open spec fn position(self, key: Seq<char>) -> int {
        choose|i: int| 0 <= i < self.entries().len() && (#[trigger] self.entries()[i]).0@ == key
    }

    /// Every key of the map stands at its position.
    pub proof fn lemma_keys(&self)
        ensures
            forall|k: Seq<char>| #[trigger]
                self@.contains_key(k) ==> 0 <= self.position(k) < self.entries().len()
                    && self.entries()[self.position(k)].0@ == k && self.entries()[self.position(
                    k,
                )].1 == self@[k],
    {
    }

    /// A map without entries.
    pub fn new() -> (r: Self)
        ensures
            r@ == Map::<Seq<char>, V>::empty(),
            r.entries() == Seq::<(String, V)>::empty(),
    {
        let r = StrMap { keys: Vec::new(), vals: Vec::new() };
        proof {
            assert(r.entries() =~= Seq::<(String, V)>::empty());
            assert(r@ =~= Map::<Seq<char>, V>::empty());
        }
        r
    }

    /// The entry at a position.
    pub fn entry(&self, i: usize) -> (r: (&String, &V))
        requires
            i < self.entries().len(),
        ensures
            *r.0 == self.entries()[i as int].0,
            *r.1 == self.entries()[i as int].1,
            self@.contains_key(r.0@),
            self@[r.0@] == *r.1,
    {
        proof {
            use_type_invariant(self);
            lemma_at(self.entries(), i as int);
        }
        (&self.keys[i], &self.vals[i])
    }

    /// The number of entries, whose keys are distinct.
    pub fn len(&self) -> (r: usize)
        ensures
            r == self.entries().len(),
            r == 0 <==> self@ == Map::<Seq<char>, V>::empty(),
            distinct_keys(self.entries()),
    {
        proof {
            use_type_invariant(self);
            if self.keys@.len() == 0 {
                assert(self@ =~= Map::<Seq<char>, V>::empty());
            } else {
                assert(self.entries()[0].0@ == self.keys@[0]@);
                assert(self@.contains_key(self.keys@[0]@));
            }
        }
        self.keys.len()
    }

    fn find(&self, key: &str) -> (r: Option<usize>)
        ensures
            match r {
                Some(i) => i < self.entries().len() && self.entries()[i as int].0@ == key@
                    && self@.contains_key(key@) && self@[key@] == self.entries()[i as int].1,
                None => !self@.contains_key(key@) && forall|j: int|
                    0 <= j < self.entries().len() ==> (#[trigger] self.entries()[j]).0@ != key@,
            },
    {
        let mut i: usize = 0;
        while i < self.keys.len()
            invariant
                i <= self.keys@.len(),
                forall|j: int| 0 <= j < i ==> (#[trigger] self.entries()[j]).0@ != key@,
            decreases self.keys.len() - i,
        {
            if str_eq(self.keys[i].as_str(), key) {
                proof {
                    use_type_invariant(self);
                    lemma_at(self.entries(), i as int);
                }
                return Some(i);
            }
            i += 1;
        }
        None
    }

    /// Whether a key is present.
    pub fn contains_key(&self, key: &str) -> (r: bool)
        ensures
            r == self@.contains_key(key@),
    {
        self.find(key).is_some()
    }

    /// The value of a key.
    pub fn get(&self, key: &str) -> (r: Option<&V>)
        ensures
            match r {
                Some(v) => self@.contains_key(key@) && *v == self@[key@],
                None => !self@.contains_key(key@),
            },
    {
        proof {
            use_type_invariant(self);
        }
        match self.find(key) {
            Some(i) => Some(&self.vals[i]),
            None => None,
        }
    }

    /// The value of a key, to be changed in place.
    pub fn get_mut(&mut self, key: &str) -> (r: Option<&mut V>)
        ensures
            match r {
                Some(v) => old(self)@.contains_key(key@) && *v == old(self)@[key@] && final(self)@
                    == old(self)@.insert(key@, *final(v)),
                None => !old(self)@.contains_key(key@) && final(self)@ == old(self)@,
            },
    {
        proof {
            use_type_invariant(&*self);
        }
        match self.find(key) {
            Some(i) => {
                let ghost before = self.entries();
                let ghost k = self.keys@[i as int];
                proof {
                    assert forall|v: V|
                        entries_map(#[trigger] before.update(i as int, (k, v))) == entries_map(
                            before,
                        ).insert(k@, v) by {
                        lemma_update(before, i as int, k, v);
                    }
                    let keys = self.keys@;
                    let vals = self.vals@;
                    assert forall|v: V|
                        #[trigger] zipped(keys, vals.update(i as int, v)) == before.update(
                            i as int,
                            (k, v),
                        ) by {
                        assert(zipped(keys, vals.update(i as int, v)) =~= before.update(
                            i as int,
                            (k, v),
                        ));
                    }
                    assert forall|v: V|
                        distinct_keys(#[trigger] before.update(i as int, (k, v))) by {
                        lemma_update(before, i as int, k, v);
                    }
                }
                Some(&mut self.vals[i])
            },
            None => None,
        }
    }

    /// Sets the value of a key and hands out the value that it had.
    pub fn insert(&mut self, key: String, value: V) -> (r: Option<V>)
        ensures
            final(self)@ == old(self)@.insert(key@, value),
            match r {
                Some(v) => old(self)@.contains_key(key@) && v == old(self)@[key@],
                None => !old(self)@.contains_key(key@),
            },
            r is None ==> final(self).entries() == old(self).entries().push((key, value)),
            r is Some ==> final(self).entries().len() == old(self).entries().len(),
            r is Some ==> forall|i: int|
                0 <= i < old(self).entries().len() ==> {
                    let e = old(self).entries()[i];
                    #[trigger] final(self).entries()[i] == if e.0@ == key@ {
                        (e.0, value)
                    } else {
                        e
                    }
                },
    {
        proof {
            use_type_invariant(&*self);
        }
        let ghost before = self.entries();
        match self.find(key.as_str()) {
            Some(i) => {
                let ghost k = self.keys@[i as int];
                let mut whole: StrMap<V> = StrMap::new();
                core::mem::swap(&mut whole, self);
                let keys = whole.keys;
                let mut vals = whole.vals;
                let v = vals.remove(i);
                vals.insert(i, value);
                proof {
                    assert(zipped(keys@, vals@) =~= before.update(i as int, (k, value)));
                    lemma_update(before, i as int, k, value);
                }
                *self = StrMap { keys, vals };
                Some(v)
            },
            None => {
                let mut whole: StrMap<V> = StrMap::new();
                core::mem::swap(&mut whole, self);
                let mut keys = whole.keys;
                let mut vals = whole.vals;
                keys.push(key);
                vals.push(value);
                proof {
                    assert(zipped(keys@, vals@) =~= before.push((key, value)));
                    lemma_push(before, key, value);
                }
                *self = StrMap { keys, vals };
                None
            },
        }
    }

    /// Takes the entry of a key out.
    pub fn remove(&mut self, key: &str) -> (r: Option<V>)
        ensures
            final(self)@ == old(self)@.remove(key@),
            match r {
                Some(v) => old(self)@.contains_key(key@) && v == old(self)@[key@],
                None => !old(self)@.contains_key(key@),
            },
            r is None ==> final(self).entries() == old(self).entries(),
            r is Some ==> exists|i: int|
                0 <= i < old(self).entries().len() && (#[trigger] old(self).entries()[i]).0@ == key@
                    && final(self).entries() == old(self).entries().remove(i),
    {
        proof {
            use_type_invariant(&*self);
        }
        let ghost before = self.entries();
        match self.find(key) {
            Some(i) => {
                let mut whole: StrMap<V> = StrMap::new();
                core::mem::swap(&mut whole, self);
                let mut keys = whole.keys;
                let mut vals = whole.vals;
                let _k = keys.remove(i);
                let v = vals.remove(i);
                proof {
                    assert(zipped(keys@, vals@) =~= before.remove(i as int));
                    lemma_remove(before, i as int);
                }
                *self = StrMap { keys, vals };
                Some(v)
            },
            None => {
                proof {
                    assert(self@ =~= self@.remove(key@));
                }
                None
            },
        }
    }
}

proof fn lemma_at<V>(e: Seq<(String, V)>, i: int)
    requires
        distinct_keys(e),
        0 <= i < e.len(),
    ensures
        entries_map(e).contains_key(e[i].0@),
        entries_map(e)[e[i].0@] == e[i].1,
{
    let k = e[i].0@;
    assert(exists|j: int| 0 <= j < e.len() && (#[trigger] e[j]).0@ == k);
    let j = choose|j: int| 0 <= j < e.len() && (#[trigger] e[j]).0@ == k;
    assert(j == i);
}

proof fn lemma_update<V>(e: Seq<(String, V)>, i: int, k: String, v: V)
    requires
        distinct_keys(e),
        0 <= i < e.len(),
        k@ == e[i].0@,
    ensures
        distinct_keys(e.update(i, (k, v))),
        entries_map(e.update(i, (k, v))) == entries_map(e).insert(k@, v),
{
    let f = e.update(i, (k, v));
    assert forall|a: int, b: int| 0 <= a < b < f.len() implies (#[trigger] f[a]).0@ != (
    #[trigger] f[b]).0@ by {
        assert(e[a].0@ != e[b].0@);
    }
    assert forall|x: Seq<char>| entries_map(f).contains_key(x) <==> entries_map(e).insert(
        k@,
        v,
    ).contains_key(x) by {
        if entries_map(f).contains_key(x) {
            let j = choose|j: int| 0 <= j < f.len() && (#[trigger] f[j]).0@ == x;
            assert(e[j].0@ == x);
        }
        if entries_map(e).contains_key(x) {
            let j = choose|j: int| 0 <= j < e.len() && (#[trigger] e[j]).0@ == x;
            assert(f[j].0@ == x);
        }
        assert(f[i].0@ == k@);
    }
    assert forall|x: Seq<char>| entries_map(f).contains_key(x) implies entries_map(f)[x]
        == entries_map(e).insert(k@, v)[x] by {
        let j = choose|j: int| 0 <= j < f.len() && (#[trigger] f[j]).0@ == x;
        lemma_at(f, j);
        lemma_at(e, j);
        if x == k@ {
            assert(f[i].0@ == x);
            assert(j == i);
        }
    }
    assert(entries_map(f) =~= entries_map(e).insert(k@, v));
}

proof fn lemma_push<V>(e: Seq<(String, V)>, k: String, v: V)
    requires
        distinct_keys(e),
        forall|j: int| 0 <= j < e.len() ==> (#[trigger] e[j]).0@ != k@,
    ensures
        distinct_keys(e.push((k, v))),
        entries_map(e.push((k, v))) == entries_map(e).insert(k@, v),
{
    let f = e.push((k, v));
    assert forall|x: Seq<char>| entries_map(f).contains_key(x) <==> entries_map(e).insert(
        k@,
        v,
    ).contains_key(x) by {
        if entries_map(f).contains_key(x) {
            let j = choose|j: int| 0 <= j < f.len() && (#[trigger] f[j]).0@ == x;
            if j < e.len() {
                assert(e[j].0@ == x);
            }
        }
        if entries_map(e).contains_key(x) {
            let j = choose|j: int| 0 <= j < e.len() && (#[trigger] e[j]).0@ == x;
            assert(f[j].0@ == x);
        }
        assert(f[e.len() as int].0@ == k@);
    }
    assert forall|x: Seq<char>| entries_map(f).contains_key(x) implies entries_map(f)[x]
        == entries_map(e).insert(k@, v)[x] by {
        let j = choose|j: int| 0 <= j < f.len() && (#[trigger] f[j]).0@ == x;
        lemma_at(f, j);
        if j < e.len() {
            lemma_at(e, j);
        }
    }
    assert(entries_map(f) =~= entries_map(e).insert(k@, v));
}

proof fn lemma_remove<V>(e: Seq<(String, V)>, i: int)
    requires
        distinct_keys(e),
        0 <= i < e.len(),
    ensures
        distinct_keys(e.remove(i)),
        entries_map(e.remove(i)) == entries_map(e).remove(e[i].0@),
{
    let f = e.remove(i);
    let k = e[i].0@;
    assert forall|a: int, b: int| 0 <= a < b < f.len() implies (#[trigger] f[a]).0@ != (
    #[trigger] f[b]).0@ by {
        let a2 = if a < i {
            a
        } else {
            a + 1
        };
        let b2 = if b < i {
            b
        } else {
            b + 1
        };
        assert(e[a2].0@ != e[b2].0@);
    }
    assert forall|x: Seq<char>| entries_map(f).contains_key(x) <==> entries_map(e).remove(
        k,
    ).contains_key(x) by {
        if entries_map(f).contains_key(x) {
            let j = choose|j: int| 0 <= j < f.len() && (#[trigger] f[j]).0@ == x;
            let j2 = if j < i {
                j
            } else {
                j + 1
            };
            assert(e[j2].0@ == x);
            assert(e[i].0@ == k);
        }
        if entries_map(e).remove(k).contains_key(x) {
            let j = choose|j: int| 0 <= j < e.len() && (#[trigger] e[j]).0@ == x;
            let j2 = if j < i {
                j
            } else {
                j - 1
            };
            assert(f[j2].0@ == x);
        }
    }
    assert forall|x: Seq<char>| entries_map(f).contains_key(x) implies entries_map(f)[x]
        == entries_map(e).remove(k)[x] by {
        let j = choose|j: int| 0 <= j < f.len() && (#[trigger] f[j]).0@ == x;
        let j2 = if j < i {
            j
        } else {
            j + 1
        };
        lemma_at(f, j);
        lemma_at(e, j2);
    }
    assert(entries_map(f) =~= entries_map(e).remove(k));
}

} // verus!
