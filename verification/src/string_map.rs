//! Maps and sets keyed by text.

use vstd::prelude::*;

verus! {

/// The map that a list of entries holds, a later entry replacing an earlier
/// one with the same key.
pub open spec fn entries_map<T: View>(s: Seq<(String, T)>) -> Map<Seq<char>, T::V>
    decreases s.len(),
{
    if s.len() == 0 {
        Map::empty()
    } else {
        entries_map(s.drop_last()).insert(s.last().0@, s.last().1@)
    }
}

/// No two entries have the same key.
pub open spec fn distinct_keys<T>(s: Seq<(String, T)>) -> bool {
    forall|i: int, j: int|
        0 <= i < j < s.len() ==> (#[trigger] s[i]).0@ != (#[trigger] s[j]).0@
}

/// A map from text to values of type `T`.
#[derive(Debug)]
pub struct StringMap<T> {
    entries: Vec<(String, T)>,
}

impl<T> StringMap<T> {
    #[verifier::type_invariant]
    spec fn inv(self) -> bool {
        distinct_keys(self.entries@)
    }

    /// The entries in the order in which their keys first came.
    pub closed spec fn items(self) -> Seq<(String, T)> {
        self.entries@
    }
}

impl<T: View> View for StringMap<T> {
    type V = Map<Seq<char>, T::V>;

    open spec fn view(&self) -> Map<Seq<char>, T::V> {
        entries_map(self.items())
    }
}

/// The keys of the map are the keys of the entries.
proof fn lemma_entries_dom<T: View>(s: Seq<(String, T)>, k: Seq<char>)
    ensures
        entries_map(s).contains_key(k) <==> exists|i: int|
            0 <= i < s.len() && (#[trigger] s[i]).0@ == k,
    decreases s.len(),
{
    if s.len() > 0 {
        lemma_entries_dom(s.drop_last(), k);
        if exists|i: int| 0 <= i < s.len() && (#[trigger] s[i]).0@ == k {
            let i = choose|i: int| 0 <= i < s.len() && (#[trigger] s[i]).0@ == k;
            if i < s.len() - 1 {
                assert(s.drop_last()[i] == s[i]);
            }
        }
        if entries_map(s).contains_key(k) && k != s.last().0@ {
            let i = choose|i: int|
                0 <= i < s.drop_last().len() && (#[trigger] s.drop_last()[i]).0@ == k;
            assert(s[i] == s.drop_last()[i]);
        }
    }
}

/// Each entry of a list without repeated keys is in the map.
proof fn lemma_entries_at<T: View>(s: Seq<(String, T)>, i: int)
    requires
        distinct_keys(s),
        0 <= i < s.len(),
    ensures
        entries_map(s).contains_key(s[i].0@),
        entries_map(s)[s[i].0@] == s[i].1@,
    decreases s.len(),
{
    if i < s.len() - 1 {
        let front = s.drop_last();
        assert(front[i] == s[i]);
        assert(distinct_keys(front)) by {
            assert forall|a: int, b: int| 0 <= a < b < front.len() implies (#[trigger] front[a]).0@
                != (#[trigger] front[b]).0@ by {
                assert(front[a] == s[a] && front[b] == s[b]);
            }
        }
        lemma_entries_at(front, i);
    }
}

/// Replacing the value of an entry replaces the value in the map.
proof fn lemma_entries_update<T: View>(s: Seq<(String, T)>, i: int, e: (String, T))
    requires
        distinct_keys(s),
        0 <= i < s.len(),
        e.0@ == s[i].0@,
    ensures
        distinct_keys(s.update(i, e)),
        entries_map(s.update(i, e)) == entries_map(s).insert(e.0@, e.1@),
{
    let t = s.update(i, e);
    assert(distinct_keys(t)) by {
        assert forall|a: int, b: int| 0 <= a < b < t.len() implies (#[trigger] t[a]).0@ != (
        #[trigger] t[b]).0@ by {
            assert(s[a].0@ != s[b].0@);
        }
    }
    let m = entries_map(s).insert(e.0@, e.1@);
    assert forall|k: Seq<char>| entries_map(t).contains_key(k) <==> m.contains_key(k) by {
        lemma_entries_dom(t, k);
        lemma_entries_dom(s, k);
        if exists|a: int| 0 <= a < t.len() && (#[trigger] t[a]).0@ == k {
            let a = choose|a: int| 0 <= a < t.len() && (#[trigger] t[a]).0@ == k;
            assert(s[a].0@ == k);
        }
        if exists|a: int| 0 <= a < s.len() && (#[trigger] s[a]).0@ == k {
            let a = choose|a: int| 0 <= a < s.len() && (#[trigger] s[a]).0@ == k;
            assert(t[a].0@ == k);
        }
        assert(t[i].0@ == e.0@);
    }
    assert forall|k: Seq<char>| entries_map(t).contains_key(k) implies entries_map(t)[k]
        == m[k] by {
        lemma_entries_dom(t, k);
        let a = choose|a: int| 0 <= a < t.len() && (#[trigger] t[a]).0@ == k;
        lemma_entries_at(t, a);
        lemma_entries_at(s, a);
        if a != i {
            assert(s[a].0@ != s[i].0@) by {
                if a < i {
                    assert(s[a].0@ != s[i].0@);
                } else {
                    assert(s[i].0@ != s[a].0@);
                }
            }
        }
    }
    assert(entries_map(t) =~= m);
}

impl<T> StringMap<T> {
    /// Where `key` stands among the entries.
    fn position(&self, key: &str) -> (r: Option<usize>)
        ensures
            match r {
                Some(i) => i < self.items().len() && self.items()[i as int].0@ == key@,
                None => forall|i: int|
                    0 <= i < self.items().len() ==> (#[trigger] self.items()[i]).0@ != key@,
            },
    {
        let wanted = key.to_owned();
        for i in 0..self.entries.len()
            invariant
                wanted@ == key@,
                forall|j: int| 0 <= j < i ==> (#[trigger] self.items()[j]).0@ != key@,
        {
            if self.entries[i].0 == wanted {
                return Some(i);
            }
        }
        None
    }
}

impl<T: View> StringMap<T> {
    /// The empty map.
    pub fn new() -> (r: Self)
        ensures
            r@ == Map::<Seq<char>, T::V>::empty(),
            r.items().len() == 0,
    {
        StringMap { entries: Vec::new() }
    }

    /// The value under `key`.
    pub fn get(&self, key: &str) -> (r: Option<&T>)
        ensures
            match r {
                Some(v) => self@.contains_key(key@) && v@ == self@[key@],
                None => !self@.contains_key(key@),
            },
    {
        proof {
            use_type_invariant(self);
            lemma_entries_dom(self.items(), key@);
        }
        match self.position(key) {
            Some(i) => {
                proof {
                    lemma_entries_at(self.items(), i as int);
                }
                Some(&self.entries[i].1)
            },
            None => None,
        }
    }

    /// Puts `value` under `key`, replacing what was there.
    pub fn insert(&mut self, key: String, value: T)
        ensures
            final(self)@ == old(self)@.insert(key@, value@),
    {
        proof {
            use_type_invariant(&*self);
        }
        let found = self.position(key.as_str());
        let mut entries: Vec<(String, T)> = Vec::new();
        std::mem::swap(&mut entries, &mut self.entries);
        let ghost before = entries@;
        match found {
            Some(i) => {
                proof {
                    lemma_entries_update(before, i as int, (key, value));
                }
                entries.set(i, (key, value));
            },
            None => {
                entries.push((key, value));
                assert(entries@.drop_last() == before);
                assert forall|a: int, b: int| 0 <= a < b < entries@.len() implies (#[trigger]
                entries@[a]).0@ != (#[trigger] entries@[b]).0@ by {
                    assert(entries@[a] == old(self).items()[a]);
                }
            },
        }
        self.entries = entries;
    }

    /// Tells whether the map holds nothing.
    pub fn is_empty(&self) -> (r: bool)
        ensures
            r == (self@ == Map::<Seq<char>, T::V>::empty()),
    {
        let r = self.entries.len() == 0;
        proof {
            if !r {
                let k = self.items().last().0@;
                assert(self@.contains_key(k));
            }
        }
        r
    }

    /// The entries, each key once.
    pub fn entries(&self) -> (r: &Vec<(String, T)>)
        ensures
            r@ == self.items(),
            distinct_keys(r@),
            self@ == entries_map(r@),
    {
        proof {
            use_type_invariant(self);
        }
        &self.entries
    }
}

impl Clone for StringMap<String> {
    fn clone(&self) -> (r: Self)
        ensures
            r@ == self@,
    {
        proof {
            use_type_invariant(self);
        }
        let mut entries: Vec<(String, String)> = Vec::new();
        for i in 0..self.entries.len()
            invariant
                entries@ == self.entries@.take(i as int),
        {
            entries.push((self.entries[i].0.clone(), self.entries[i].1.clone()));
            assert(entries@ == self.entries@.take(i + 1));
        }
        assert(entries@ == self.entries@);
        StringMap { entries }
    }
}

/// A set of texts.
#[derive(Debug)]
pub struct StringSet {
    items: Vec<String>,
}

impl View for StringSet {
    type V = Set<Seq<char>>;

    closed spec fn view(&self) -> Set<Seq<char>> {
        Set::new(|k: Seq<char>| exists|i: int| 0 <= i < self.items@.len() && (#[trigger] self.items@[i])@ == k)
    }
}

impl StringSet {
    /// The empty set.
    pub fn new() -> (r: Self)
        ensures
            r@ == Set::<Seq<char>>::empty(),
    {
        let r = StringSet { items: Vec::new() };
        assert(r@ =~= Set::<Seq<char>>::empty());
        r
    }

    /// Tells whether `key` is in the set.
    pub fn contains(&self, key: &str) -> (r: bool)
        ensures
            r == self@.contains(key@),
    {
        let wanted = key.to_owned();
        for i in 0..self.items.len()
            invariant
                wanted@ == key@,
                forall|j: int| 0 <= j < i ==> (#[trigger] self.items@[j])@ != key@,
        {
            if self.items[i] == wanted {
                return true;
            }
        }
        false
    }

    /// Adds `key` to the set.
    pub fn insert(&mut self, key: String)
        ensures
            final(self)@ == old(self)@.insert(key@),
    {
        if !self.contains(key.as_str()) {
            let ghost before = self.items@;
            self.items.push(key);
            assert forall|k: Seq<char>| self@.contains(k) <==> old(self)@.insert(key@).contains(k) by {
                if exists|i: int| 0 <= i < before.len() && (#[trigger] before[i])@ == k {
                    let i = choose|i: int| 0 <= i < before.len() && (#[trigger] before[i])@ == k;
                    assert(self.items@[i]@ == k);
                }
                assert(self.items@[before.len() as int]@ == key@);
            }
        }
        assert(self@ =~= old(self)@.insert(key@));
    }

    /// Keeps the members that are also in `other`.
    pub fn retain_in(&mut self, other: &StringSet)
        ensures
            final(self)@ == old(self)@.intersect(other@),
    {
        let mut kept = StringSet::new();
        for i in 0..self.items.len()
            invariant
                forall|k: Seq<char>| #[trigger]
                    kept@.contains(k) <==> other@.contains(k) && exists|j: int|
                        0 <= j < i && (#[trigger] self.items@[j])@ == k,
        {
            let ghost before = kept@;
            if other.contains(self.items[i].as_str()) {
                kept.insert(self.items[i].clone());
            }
            assert forall|k: Seq<char>| #[trigger]
                kept@.contains(k) <==> other@.contains(k) && exists|j: int|
                    0 <= j < i + 1 && (#[trigger] self.items@[j])@ == k by {
                assert(before.contains(k) ==> kept@.contains(k));
                assert(self.items@[i as int]@ == self.items@[i as int]@);
            }
        }
        assert(kept@ =~= self@.intersect(other@));
        *self = kept;
    }
}

} // verus!
