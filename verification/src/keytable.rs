//! A string-keyed table with distinct keys, the library's model of one
//! namespace of the composite-key store: it views as a `Map` from key
//! characters to the mathematical value of the stored record.

use vstd::prelude::*;

verus! {

/// One namespace of the store: a list of (key, record) pairs with
/// pairwise-distinct keys, viewed as a finite map.
pub struct KeyTable<V> {
    pairs: Vec<(String, V)>,
}

/// Pairwise-distinct keys over a raw pair sequence.
spec fn distinct_keys<V>(s: Seq<(String, V)>) -> bool {
    forall|i: int, j: int|
        0 <= i < j < s.len() ==> (#[trigger] s[i]).0@ != (#[trigger] s[j]).0@
}

/// Whether some pair of `s` carries the key `k`.
spec fn has_key<V>(s: Seq<(String, V)>, k: Seq<char>) -> bool {
    exists|i: int| 0 <= i < s.len() && (#[trigger] s[i]).0@ == k
}

/// The index of the pair carrying `k` (meaningful only when keys are
/// distinct and `has_key(s, k)` holds).
spec fn key_index<V>(s: Seq<(String, V)>, k: Seq<char>) -> int {
    choose|i: int| 0 <= i < s.len() && (#[trigger] s[i]).0@ == k
}

/// The finite map denoted by a raw pair sequence.
spec fn pairs_to_map<V: DeepView>(s: Seq<(String, V)>) -> Map<Seq<char>, V::V> {
    Map::new(|k: Seq<char>| has_key(s, k), |k: Seq<char>| s[key_index(s, k)].1.deep_view())
}

impl<V: DeepView> View for KeyTable<V> {
    type V = Map<Seq<char>, <V as DeepView>::V>;

    closed spec fn view(&self) -> Map<Seq<char>, <V as DeepView>::V> {
        pairs_to_map(self.pairs@)
    }
}

/// With distinct keys, the entry at index `i` is exactly what the map holds
/// under its key.
proof fn lemma_map_at<V: DeepView>(s: Seq<(String, V)>, i: int)
    requires
        distinct_keys(s),
        0 <= i < s.len(),
    ensures
        pairs_to_map(s).contains_key(s[i].0@),
        pairs_to_map(s)[s[i].0@] == s[i].1.deep_view(),
        key_index(s, s[i].0@) == i,
{
    assert(has_key(s, s[i].0@));
    let j = key_index(s, s[i].0@);
    if i != j {
        if i < j {
            assert(s[i].0@ != s[j].0@);
        } else {
            assert(s[j].0@ != s[i].0@);
        }
    }
}

/// A key carried by no pair is not in the map.
proof fn lemma_map_absent<V: DeepView>(s: Seq<(String, V)>, k: Seq<char>)
    requires
        forall|i: int| 0 <= i < s.len() ==> (#[trigger] s[i]).0@ != k,
    ensures
        !pairs_to_map(s).contains_key(k),
{
}

/// Appending a pair under a fresh key inserts it into the map.
proof fn lemma_map_push<V: DeepView>(s: Seq<(String, V)>, key: String, value: V)
    requires
        distinct_keys(s),
        forall|i: int| 0 <= i < s.len() ==> (#[trigger] s[i]).0@ != key@,
    ensures
        distinct_keys(s.push((key, value))),
        pairs_to_map(s.push((key, value))) == pairs_to_map(s).insert(key@, value.deep_view()),
{
    let t = s.push((key, value));
    assert forall|i: int, j: int| 0 <= i < j < t.len() implies (#[trigger] t[i]).0@
        != (#[trigger] t[j]).0@ by {
        if j < s.len() {
            assert(s[i] == t[i] && s[j] == t[j]);
        } else {
            assert(t[j] == (key, value));
            assert(t[i] == s[i]);
        }
    }
    let m1 = pairs_to_map(t);
    let m2 = pairs_to_map(s).insert(key@, value.deep_view());
    assert forall|k: Seq<char>| m1.contains_key(k) == m2.contains_key(k) by {
        if k == key@ {
            assert(t[s.len() as int].0@ == k);
            assert(has_key(t, k));
        } else {
            if has_key(t, k) {
                let i = choose|i: int| 0 <= i < t.len() && (#[trigger] t[i]).0@ == k;
                assert(i < s.len() && s[i] == t[i]);
                assert(has_key(s, k));
            }
            if has_key(s, k) {
                let i = choose|i: int| 0 <= i < s.len() && (#[trigger] s[i]).0@ == k;
                assert(t[i] == s[i]);
                assert(has_key(t, k));
            }
        }
    }
    assert forall|k: Seq<char>| m1.contains_key(k) implies m1[k] == m2[k] by {
        if k == key@ {
            lemma_map_at(t, s.len() as int);
        } else {
            let i = choose|i: int| 0 <= i < t.len() && (#[trigger] t[i]).0@ == k;
            assert(i < s.len() && s[i] == t[i]);
            lemma_map_at(t, i);
            lemma_map_at(s, i);
        }
    }
    assert(m1 =~= m2);
}

/// Removing the pair at index `i` removes its key from the map.
proof fn lemma_map_remove<V: DeepView>(s: Seq<(String, V)>, i: int)
    requires
        distinct_keys(s),
        0 <= i < s.len(),
    ensures
        distinct_keys(s.remove(i)),
        pairs_to_map(s.remove(i)) == pairs_to_map(s).remove(s[i].0@),
{
    let t = s.remove(i);
    let k0 = s[i].0@;
    // every pair of t is a pair of s at a shifted index
    assert forall|j: int| 0 <= j < t.len() implies #[trigger] t[j] == s[if j < i {
        j
    } else {
        j + 1
    }] by {}
    assert forall|p: int, q: int| 0 <= p < q < t.len() implies (#[trigger] t[p]).0@
        != (#[trigger] t[q]).0@ by {
        let p2: int = if p < i { p } else { p + 1 };
        let q2: int = if q < i { q } else { q + 1 };
        assert(t[p] == s[p2] && t[q] == s[q2]);
        assert(0 <= p2 < q2 < s.len());
    }
    let m1 = pairs_to_map(t);
    let m2 = pairs_to_map(s).remove(k0);
    assert forall|k: Seq<char>| m1.contains_key(k) == m2.contains_key(k) by {
        if has_key(t, k) {
            let j = choose|j: int| 0 <= j < t.len() && (#[trigger] t[j]).0@ == k;
            let j2: int = if j < i { j } else { j + 1 };
            assert(t[j] == s[j2]);
            assert(has_key(s, k));
            if k == k0 {
                lemma_map_at(s, i);
                lemma_map_at(s, j2);
            }
        }
        if k != k0 && has_key(s, k) {
            let j = choose|j: int| 0 <= j < s.len() && (#[trigger] s[j]).0@ == k;
            assert(j != i);
            let j2: int = if j < i { j } else { j - 1 };
            assert(t[j2] == s[j]);
            assert(has_key(t, k));
        }
    }
    assert forall|k: Seq<char>| m1.contains_key(k) implies m1[k] == m2[k] by {
        let j = choose|j: int| 0 <= j < t.len() && (#[trigger] t[j]).0@ == k;
        let j2: int = if j < i { j } else { j + 1 };
        assert(t[j] == s[j2]);
        lemma_map_at(t, j);
        lemma_map_at(s, j2);
    }
    assert(m1 =~= m2);
}

impl<V: DeepView> KeyTable<V> {
    /// Pairwise-distinct keys: the representation invariant.
    pub closed spec fn wf(&self) -> bool {
        distinct_keys(self.pairs@)
    }

    /// An empty namespace.
    pub fn new() -> (t: KeyTable<V>)
        ensures
            t.wf(),
            t@ == Map::<Seq<char>, <V as DeepView>::V>::empty(),
    {
        let t = KeyTable { pairs: Vec::new() };
        proof {
            assert(t@ =~= Map::<Seq<char>, <V as DeepView>::V>::empty());
        }
        t
    }

    /// Whether `key` is present.
    pub fn contains_key(&self, key: &String) -> (r: bool)
        requires
            self.wf(),
        ensures
            r == self@.contains_key(key@),
    {
        let n = self.pairs.len();
        let mut i: usize = 0;
        while i < n
            invariant
                0 <= i <= n,
                n == self.pairs@.len(),
                self.wf(),
                forall|j: int| 0 <= j < i ==> (#[trigger] self.pairs@[j]).0@ != key@,
            decreases n - i,
        {
            if self.pairs[i].0 == *key {
                proof {
                    lemma_map_at(self.pairs@, i as int);
                }
                return true;
            }
            i += 1;
        }
        proof {
            lemma_map_absent(self.pairs@, key@);
        }
        false
    }

    /// A borrow of the record under `key`, if present.
    pub fn get<'a>(&'a self, key: &String) -> (r: Option<&'a V>)
        requires
            self.wf(),
        ensures
            match r {
                Some(v) => self@.contains_key(key@) && v.deep_view() == self@[key@],
                None => !self@.contains_key(key@),
            },
    {
        let n = self.pairs.len();
        let mut i: usize = 0;
        while i < n
            invariant
                0 <= i <= n,
                n == self.pairs@.len(),
                self.wf(),
                forall|j: int| 0 <= j < i ==> (#[trigger] self.pairs@[j]).0@ != key@,
            decreases n - i,
        {
            if self.pairs[i].0 == *key {
                proof {
                    lemma_map_at(self.pairs@, i as int);
                }
                return Some(&self.pairs[i].1);
            }
            i += 1;
        }
        proof {
            lemma_map_absent(self.pairs@, key@);
        }
        None
    }

    /// Removes and returns the record under `key`, if present.
    pub fn take(&mut self, key: &String) -> (r: Option<V>)
        requires
            old(self).wf(),
        ensures
            final(self).wf(),
            final(self)@ == old(self)@.remove(key@),
            match r {
                Some(v) => old(self)@.contains_key(key@) && v.deep_view() == old(self)@[key@],
                None => !old(self)@.contains_key(key@) && *final(self) == *old(self),
            },
    {
        let n = self.pairs.len();
        let mut i: usize = 0;
        while i < n
            invariant
                0 <= i <= n,
                n == self.pairs@.len(),
                self.wf(),
                *self == *old(self),
                forall|j: int| 0 <= j < i ==> (#[trigger] self.pairs@[j]).0@ != key@,
            decreases n - i,
        {
            if self.pairs[i].0 == *key {
                proof {
                    lemma_map_at(self.pairs@, i as int);
                    lemma_map_remove(self.pairs@, i as int);
                }
                let pair = self.pairs.remove(i);
                return Some(pair.1);
            }
            i += 1;
        }
        proof {
            lemma_map_absent(self.pairs@, key@);
            assert(self@.remove(key@) =~= self@);
        }
        None
    }

    /// Stores `value` under `key`, replacing any record already there.
    pub fn put(&mut self, key: String, value: V)
        requires
            old(self).wf(),
        ensures
            final(self).wf(),
            final(self)@ == old(self)@.insert(key@, value.deep_view()),
    {
        let _displaced = self.take(&key);
        proof {
            if has_key(self.pairs@, key@) {
                let i = choose|i: int|
                    0 <= i < self.pairs@.len() && (#[trigger] self.pairs@[i]).0@ == key@;
                lemma_map_at(self.pairs@, i);
                assert(self@.contains_key(key@));
            }
            lemma_map_push(self.pairs@, key, value);
        }
        self.pairs.push((key, value));
        proof {
            assert(old(self)@.remove(key@).insert(key@, value.deep_view()) =~= old(self)@.insert(
                key@,
                value.deep_view(),
            ));
        }
    }

    /// A copy of every key, in unspecified order and without repetition.
    pub fn keys(&self) -> (r: Vec<String>)
        requires
            self.wf(),
        ensures
            forall|k: Seq<char>|
                self@.contains_key(k) <==> exists|i: int|
                    0 <= i < r@.len() && (#[trigger] r@[i])@ == k,
            forall|i: int, j: int| 0 <= i < j < r@.len() ==> (#[trigger] r@[i])@ != (#[trigger] r@[j])@,
    {
        let n = self.pairs.len();
        let mut r: Vec<String> = Vec::new();
        let mut i: usize = 0;
        while i < n
            invariant
                0 <= i <= n,
                n == self.pairs@.len(),
                self.wf(),
                r@.len() == i,
                forall|j: int| 0 <= j < i ==> (#[trigger] r@[j])@ == self.pairs@[j].0@,
            decreases n - i,
        {
            r.push(self.pairs[i].0.clone());
            i += 1;
        }
        proof {
            assert forall|k: Seq<char>| self@.contains_key(k) implies exists|i: int|
                0 <= i < r@.len() && (#[trigger] r@[i])@ == k by {
                let i = choose|i: int|
                    0 <= i < self.pairs@.len() && (#[trigger] self.pairs@[i]).0@ == k;
                assert(r@[i]@ == k);
            }
            assert forall|k: Seq<char>|
                (exists|i: int| 0 <= i < r@.len() && (#[trigger] r@[i])@ == k) implies self@.contains_key(
                k,
            ) by {
                let i = choose|i: int| 0 <= i < r@.len() && (#[trigger] r@[i])@ == k;
                assert(self.pairs@[i].0@ == k);
                lemma_map_at(self.pairs@, i);
            }
        }
        r
    }
}

} // verus!
