use vstd::prelude::*;
use crate::text::{chars_eq, chars_of};

verus! {

/// A map from string keys to values, kept as a list without repeated keys.
#[derive(Debug)]
pub struct KeyedList<V> {
    entries: Vec<(String, V)>,
}

pub open spec fn unique_keys<V>(v: Seq<(String, V)>) -> bool {
    forall|i: int, j: int| 0 <= i < v.len() && 0 <= j < v.len() && i != j ==> v[i].0@ != v[j].0@
}

pub open spec fn has_key<V>(v: Seq<(String, V)>, k: Seq<char>) -> bool {
    exists|i: int| 0 <= i < v.len() && v[i].0@ == k
}

pub open spec fn entries_map<V>(v: Seq<(String, V)>) -> Map<Seq<char>, V> {
    Map::new(
        |k: Seq<char>| has_key(v, k),
        |k: Seq<char>| v[choose|i: int| 0 <= i < v.len() && v[i].0@ == k].1,
    )
}

proof fn lemma_entries_lookup<V>(v: Seq<(String, V)>, i: int)
    requires
        unique_keys(v),
        0 <= i < v.len(),
    ensures
        entries_map(v).contains_key(v[i].0@),
        entries_map(v)[v[i].0@] == v[i].1,
{
    let k = v[i].0@;
    assert(has_key(v, k));
    let c = choose|c: int| 0 <= c < v.len() && v[c].0@ == k;
    assert(0 <= c < v.len() && v[c].0@ == k);
}

proof fn lemma_entries_update<V>(v: Seq<(String, V)>, i: int, e: (String, V))
    requires
        unique_keys(v),
        0 <= i < v.len(),
        e.0@ == v[i].0@,
    ensures
        unique_keys(v.update(i, e)),
        entries_map(v.update(i, e)) == entries_map(v).insert(e.0@, e.1),
{
    let after = v.update(i, e);
    assert forall|a: int, b: int| 0 <= a < after.len() && 0 <= b < after.len() && a != b implies after[a].0@ != after[b].0@ by {
        if a != i {
            assert(after[a] == v[a]);
        }
        if b != i {
            assert(after[b] == v[b]);
        }
    }
    let want = entries_map(v).insert(e.0@, e.1);
    assert forall|k: Seq<char>| #[trigger] entries_map(after).contains_key(k) == want.contains_key(k) by {
        if has_key(after, k) {
            let c = choose|c: int| 0 <= c < after.len() && after[c].0@ == k;
            assert(v[c].0@ == k);
        }
        if has_key(v, k) {
            let c = choose|c: int| 0 <= c < v.len() && v[c].0@ == k;
            assert(after[c].0@ == k);
        }
    }
    assert forall|k: Seq<char>| entries_map(after).contains_key(k) implies #[trigger] entries_map(after)[k] == want[k] by {
        let c = choose|c: int| 0 <= c < after.len() && after[c].0@ == k;
        lemma_entries_lookup(after, c);
        if c != i {
            lemma_entries_lookup(v, c);
        }
    }
    assert(entries_map(after) =~= want);
}

proof fn lemma_entries_push<V>(v: Seq<(String, V)>, e: (String, V))
    requires
        unique_keys(v),
        !has_key(v, e.0@),
    ensures
        unique_keys(v.push(e)),
        entries_map(v.push(e)) == entries_map(v).insert(e.0@, e.1),
{
    let after = v.push(e);
    assert forall|a: int, b: int| 0 <= a < after.len() && 0 <= b < after.len() && a != b implies after[a].0@ != after[b].0@ by {
        if a < v.len() {
            assert(after[a] == v[a]);
        }
        if b < v.len() {
            assert(after[b] == v[b]);
        }
    }
    let want = entries_map(v).insert(e.0@, e.1);
    assert forall|k: Seq<char>| #[trigger] entries_map(after).contains_key(k) == want.contains_key(k) by {
        if has_key(after, k) {
            let c = choose|c: int| 0 <= c < after.len() && after[c].0@ == k;
            if c < v.len() {
                assert(v[c].0@ == k);
            }
        }
        if has_key(v, k) {
            let c = choose|c: int| 0 <= c < v.len() && v[c].0@ == k;
            assert(after[c].0@ == k);
        }
        if k == e.0@ {
            assert(after[v.len() as int].0@ == k);
        }
    }
    assert forall|k: Seq<char>| entries_map(after).contains_key(k) implies #[trigger] entries_map(after)[k] == want[k] by {
        let c = choose|c: int| 0 <= c < after.len() && after[c].0@ == k;
        lemma_entries_lookup(after, c);
        if c < v.len() {
            lemma_entries_lookup(v, c);
            assert(after[c] == v[c]);
        }
    }
    assert(entries_map(after) =~= want);
}

proof fn lemma_entries_remove<V>(v: Seq<(String, V)>, i: int)
    requires
        unique_keys(v),
        0 <= i < v.len(),
    ensures
        unique_keys(v.remove(i)),
        entries_map(v.remove(i)) == entries_map(v).remove(v[i].0@),
{
    let key = v[i].0@;
    let after = v.remove(i);
    assert forall|a: int, b: int| 0 <= a < after.len() && 0 <= b < after.len() && a != b implies after[a].0@ != after[b].0@ by {
        let a2 = if a < i { a } else { a + 1 };
        let b2 = if b < i { b } else { b + 1 };
        assert(after[a] == v[a2]);
        assert(after[b] == v[b2]);
    }
    let want = entries_map(v).remove(key);
    assert forall|k: Seq<char>| #[trigger] entries_map(after).contains_key(k) == want.contains_key(k) by {
        if has_key(after, k) {
            let c = choose|c: int| 0 <= c < after.len() && after[c].0@ == k;
            let c2 = if c < i { c } else { c + 1 };
            assert(v[c2].0@ == k);
            assert(c2 != i);
        }
        if has_key(v, k) && k != key {
            let c = choose|c: int| 0 <= c < v.len() && v[c].0@ == k;
            assert(c != i);
            let c2 = if c < i { c } else { c - 1 };
            assert(after[c2].0@ == k);
        }
    }
    assert forall|k: Seq<char>| entries_map(after).contains_key(k) implies #[trigger] entries_map(after)[k] == want[k] by {
        let c = choose|c: int| 0 <= c < after.len() && after[c].0@ == k;
        lemma_entries_lookup(after, c);
        let c2 = if c < i { c } else { c + 1 };
        lemma_entries_lookup(v, c2);
    }
    assert(entries_map(after) =~= want);
}

impl<V> KeyedList<V> {
    #[verifier::type_invariant]
    spec fn inv(&self) -> bool {
        unique_keys(self.entries@)
    }

    /// The entries, by key.
    pub closed spec fn view(&self) -> Map<Seq<char>, V> {
        entries_map(self.entries@)
    }

    pub fn new() -> (l: Self)
        ensures
            l.view() == Map::<Seq<char>, V>::empty(),
    {
        let e: Vec<(String, V)> = Vec::new();
        assert(e@.len() == 0);
        let l = KeyedList { entries: e };
        assert(l.view() =~= Map::<Seq<char>, V>::empty());
        l
    }

    fn index_of(&self, key: &str) -> (r: Option<usize>)
        ensures
            r matches Some(i) ==> i < self.entries@.len() && self.entries@[i as int].0@ == key@,
            r is None ==> !has_key(self.entries@, key@),
    {
        let k = chars_of(key);
        let mut i: usize = 0;
        while i < self.entries.len()
            invariant
                i <= self.entries@.len(),
                k@ == key@,
                forall|j: int| 0 <= j < i ==> self.entries@[j].0@ != key@,
            decreases self.entries@.len() - i,
        {
            let other = chars_of(self.entries[i].0.as_str());
            if chars_eq(&other, &k) {
                return Some(i);
            }
            i = i + 1;
        }
        None
    }

    pub fn contains_key(&self, key: &str) -> (r: bool)
        ensures
            r == self.view().contains_key(key@),
    {
        self.index_of(key).is_some()
    }

    pub fn get(&self, key: &str) -> (r: Option<&V>)
        ensures
            r == (if self.view().contains_key(key@) {
                Some(&self.view()[key@])
            } else {
                None
            }),
    {
        proof {
            use_type_invariant(self);
        }
        match self.index_of(key) {
            Some(i) => {
                proof {
                    lemma_entries_lookup(self.entries@, i as int);
                }
                Some(&self.entries[i].1)
            },
            None => None,
        }
    }

    /// Binds `key` to `value`, replacing an earlier binding.
    pub fn insert(&mut self, key: &str, value: V)
        ensures
            final(self).view() == old(self).view().insert(key@, value),
    {
        proof {
            use_type_invariant(&*self);
        }
        let ghost before = self.entries@;
        match self.index_of(key) {
            Some(i) => {
                let mut v: Vec<(String, V)> = Vec::new();
                std::mem::swap(&mut v, &mut self.entries);
                let (k, _) = v.remove(i);
                v.insert(i, (k, value));
                proof {
                    assert(v@ =~= before.update(i as int, (k, value)));
                    lemma_entries_update(before, i as int, (k, value));
                }
                self.entries = v;
            },
            None => {
                let k = String::from_str(key);
                let mut v: Vec<(String, V)> = Vec::new();
                std::mem::swap(&mut v, &mut self.entries);
                v.push((k, value));
                proof {
                    lemma_entries_push(before, (k, value));
                }
                self.entries = v;
            },
        }
    }

    /// Removes the binding of `key` and answers its value.
    pub fn remove(&mut self, key: &str) -> (r: Option<V>)
        ensures
            final(self).view() == old(self).view().remove(key@),
            r == (if old(self).view().contains_key(key@) {
                Some(old(self).view()[key@])
            } else {
                None
            }),
    {
        proof {
            use_type_invariant(&*self);
        }
        let ghost before = self.entries@;
        match self.index_of(key) {
            Some(i) => {
                let mut v: Vec<(String, V)> = Vec::new();
                std::mem::swap(&mut v, &mut self.entries);
                let (_, value) = v.remove(i);
                proof {
                    lemma_entries_lookup(before, i as int);
                    lemma_entries_remove(before, i as int);
                }
                self.entries = v;
                Some(value)
            },
            None => {
                assert(entries_map(before).remove(key@) =~= entries_map(before));
                None
            },
        }
    }

    pub fn clear(&mut self)
        ensures
            final(self).view() == Map::<Seq<char>, V>::empty(),
    {
        let e: Vec<(String, V)> = Vec::new();
        assert(e@.len() == 0);
        self.entries = e;
        assert(self.view() =~= Map::<Seq<char>, V>::empty());
    }

    /// The keys, each once.
    pub fn keys(&self) -> (r: Vec<String>)
        ensures
            forall|i: int, j: int| 0 <= i < r@.len() && 0 <= j < r@.len() && i != j ==> r@[i]@ != r@[j]@,
            forall|k: Seq<char>| self.view().contains_key(k) <==> exists|i: int| 0 <= i < r@.len() && #[trigger] r@[i]@ == k,
    {
        proof {
            use_type_invariant(self);
        }
        let mut r: Vec<String> = Vec::new();
        let mut i: usize = 0;
        while i < self.entries.len()
            invariant
                i <= self.entries@.len(),
                unique_keys(self.entries@),
                r@.len() == i,
                forall|j: int| 0 <= j < i ==> #[trigger] r@[j]@ == self.entries@[j].0@,
            decreases self.entries@.len() - i,
        {
            r.push(self.entries[i].0.clone());
            i = i + 1;
        }
        proof {
            assert forall|k: Seq<char>| self.view().contains_key(k) implies exists|i: int| 0 <= i < r@.len() && #[trigger] r@[i]@ == k by {
                let c = choose|c: int| 0 <= c < self.entries@.len() && self.entries@[c].0@ == k;
                assert(r@[c]@ == k);
            }
            assert forall|k: Seq<char>| (exists|i: int| 0 <= i < r@.len() && #[trigger] r@[i]@ == k) implies self.view().contains_key(k) by {
                let c = choose|c: int| 0 <= c < r@.len() && r@[c]@ == k;
                assert(self.entries@[c].0@ == k);
            }
        }
        r
    }

    pub fn len(&self) -> (n: usize)
        ensures
            n == self.view().len(),
    {
        proof {
            use_type_invariant(self);
            lemma_entries_len(self.entries@);
        }
        self.entries.len()
    }
}

proof fn lemma_entries_len<V>(v: Seq<(String, V)>)
    requires
        unique_keys(v),
    ensures
        entries_map(v).dom().finite(),
        entries_map(v).len() == v.len(),
    decreases v.len(),
{
    if v.len() == 0 {
        assert(entries_map(v).dom() =~= Set::<Seq<char>>::empty());
    } else {
        let i = (v.len() - 1) as int;
        let prefix = v.remove(i);
        assert(prefix =~= v.drop_last());
        assert(unique_keys(prefix)) by {
            assert forall|a: int, b: int| 0 <= a < prefix.len() && 0 <= b < prefix.len() && a != b implies prefix[a].0@ != prefix[b].0@ by {
                assert(prefix[a] == v[a] && prefix[b] == v[b]);
            }
        }
        lemma_entries_len(prefix);
        lemma_entries_remove(v, i);
        lemma_entries_lookup(v, i);
        assert(entries_map(v).dom() =~= entries_map(prefix).dom().insert(v[i].0@));
        assert(!entries_map(prefix).dom().contains(v[i].0@));
    }
}

} // verus!
