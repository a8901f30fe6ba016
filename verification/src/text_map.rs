//! Maps keyed by text, kept in the byte order of their keys (the order of
//! a `BTreeMap<String, _>`), and lookup in lists of keyed entries.

use vstd::prelude::*;
use crate::text::{bytes_eq, bytes_lt, lemma_lex_irreflexive, lemma_lex_total, lemma_lex_transitive, lex_lt};

verus! {

broadcast use vstd::utf8::encode_utf8_decode_utf8;

// ─── Lookup in keyed lists ───────────────────────────────────────────────────

/// The value of the first entry with key `k`.
pub open spec fn find_key<V>(s: Seq<(Seq<char>, V)>, k: Seq<char>) -> Option<V>
    decreases s.len(),
{
    if s.len() == 0 {
        None
    } else if s[0].0 == k {
        Some(s[0].1)
    } else {
        find_key(s.drop_first(), k)
    }
}

/// Appending a new key makes it map to its value and leaves the others.
pub proof fn lemma_find_key_push<V>(s: Seq<(Seq<char>, V)>, k: Seq<char>, v: V, x: Seq<char>)
    requires
        find_key(s, k) is None,
    ensures
        find_key(s.push((k, v)), x) == if x == k { Some(v) } else { find_key(s, x) },
    decreases s.len(),
{
    let t = s.push((k, v));
    if s.len() > 0 {
        assert(t[0] == s[0]);
        assert(s[0].0 != k);
        assert(t.drop_first() =~= s.drop_first().push((k, v)));
        lemma_find_key_push(s.drop_first(), k, v, x);
        if s[0].0 != x {
            assert(find_key(t, x) == find_key(t.drop_first(), x));
            assert(find_key(s, x) == find_key(s.drop_first(), x));
        }
    } else {
        assert(t.drop_first() =~= Seq::<(Seq<char>, V)>::empty());
        assert(find_key(t.drop_first(), x) is None);
    }
}

/// Replacing the first entry with key `k` makes `k` map to the new value
/// and leaves the others.
pub proof fn lemma_find_key_update<V>(s: Seq<(Seq<char>, V)>, i: int, k: Seq<char>, v: V, x: Seq<char>)
    requires
        0 <= i < s.len(),
        s[i].0 == k,
        forall|j: int| 0 <= j < i ==> (#[trigger] s[j]).0 != k,
    ensures
        find_key(s.update(i, (k, v)), x) == if x == k { Some(v) } else { find_key(s, x) },
    decreases i,
{
    if i == 0 {
        assert(s.update(0, (k, v)).drop_first() =~= s.drop_first());
    } else {
        assert(s.update(i, (k, v)).drop_first() =~= s.drop_first().update(i - 1, (k, v)));
        assert forall|j: int| 0 <= j < i - 1 implies (#[trigger] s.drop_first()[j]).0 != k by {
            assert(s.drop_first()[j] == s[j + 1]);
        }
        lemma_find_key_update(s.drop_first(), i - 1, k, v, x);
    }
}

/// The search for `k` may skip entries with other keys.
pub proof fn lemma_find_key_skip<V>(s: Seq<(Seq<char>, V)>, i: int, k: Seq<char>)
    requires
        0 <= i < s.len(),
        s[i].0 != k,
    ensures
        find_key(s.skip(i), k) == find_key(s.skip(i + 1), k),
{
    assert(s.skip(i).drop_first() =~= s.skip(i + 1));
}

/// The first entry found at position `i` is what the search returns.
pub proof fn lemma_find_key_at<V>(s: Seq<(Seq<char>, V)>, i: int, k: Seq<char>)
    requires
        0 <= i < s.len(),
        s[i].0 == k,
        find_key(s, k) == find_key(s.skip(i), k),
    ensures
        find_key(s, k) == Some(s[i].1),
{
}

/// No key occurs twice.
pub open spec fn unique_keys<V>(s: Seq<(Seq<char>, V)>) -> bool {
    forall|i: int, j: int| 0 <= i < j < s.len() ==> (#[trigger] s[i]).0 != (#[trigger] s[j]).0
}

/// With unique keys, the entry holding `x` is the one found.
pub proof fn lemma_find_unique<V>(s: Seq<(Seq<char>, V)>, x: Seq<char>, i: int)
    requires
        unique_keys(s),
        0 <= i < s.len(),
        s[i].0 == x,
    ensures
        find_key(s, x) == Some(s[i].1),
    decreases i,
{
    if i > 0 {
        assert(s[0].0 != x);
        let t = s.drop_first();
        assert forall|a: int, b: int| 0 <= a < b < t.len() implies (#[trigger] t[a]).0 != (#[trigger] t[b]).0 by {
            assert(t[a] == s[a + 1] && t[b] == s[b + 1]);
        }
        assert(t[i - 1] == s[i]);
        lemma_find_unique(t, x, i - 1);
    }
}

/// A key held by no entry is not found.
pub proof fn lemma_find_absent<V>(s: Seq<(Seq<char>, V)>, x: Seq<char>)
    requires
        forall|i: int| 0 <= i < s.len() ==> (#[trigger] s[i]).0 != x,
    ensures
        find_key(s, x) is None,
    decreases s.len(),
{
    if s.len() > 0 {
        assert(s[0].0 != x);
        let t = s.drop_first();
        assert forall|i: int| 0 <= i < t.len() implies (#[trigger] t[i]).0 != x by {
            assert(t[i] == s[i + 1]);
        }
        lemma_find_absent(t, x);
    }
}

/// What is found is held by some entry.
pub proof fn lemma_find_present<V>(s: Seq<(Seq<char>, V)>, x: Seq<char>)
    requires
        find_key(s, x) is Some,
    ensures
        exists|i: int| 0 <= i < s.len() && (#[trigger] s[i]).0 == x && find_key(s, x) == Some(s[i].1),
    decreases s.len(),
{
    if s[0].0 != x {
        let t = s.drop_first();
        lemma_find_present(t, x);
        let i = choose|i: int| 0 <= i < t.len() && (#[trigger] t[i]).0 == x && find_key(t, x) == Some(t[i].1);
        assert(s[i + 1] == t[i]);
    }
}

// ─── TextMap ─────────────────────────────────────────────────────────────────

/// The UTF-8 bytes of a key, by which keys are ordered.
pub open spec fn key_bytes(k: Seq<char>) -> Seq<u8> {
    vstd::utf8::encode_utf8(k)
}

/// The keys are in strictly increasing byte order.
pub open spec fn sorted_keys<V>(s: Seq<(Seq<char>, V)>) -> bool {
    forall|i: int, j: int| 0 <= i < j < s.len() ==> lex_lt(key_bytes((#[trigger] s[i]).0), key_bytes((#[trigger] s[j]).0))
}

/// Sorted keys are unique.
pub proof fn lemma_sorted_unique<V>(s: Seq<(Seq<char>, V)>)
    requires
        sorted_keys(s),
    ensures
        unique_keys(s),
{
    assert forall|i: int, j: int| 0 <= i < j < s.len() implies (#[trigger] s[i]).0 != (#[trigger] s[j]).0 by {
        lemma_lex_irreflexive(key_bytes(s[i].0));
    }
}

/// A map from texts to values, its entries kept in the byte order of their
/// keys.
#[derive(Debug)]
pub struct TextMap<V> {
    entries: Vec<(String, V)>,
}

impl<V> TextMap<V> {
    #[verifier::type_invariant]
    closed spec fn wf(&self) -> bool {
        sorted_keys(self.spec_entries())
    }

    /// The entries, with their keys as texts, in key order.
    pub closed spec fn spec_entries(&self) -> Seq<(Seq<char>, V)> {
        self.entries@.map_values(|e: (String, V)| (e.0@, e.1))
    }

    /// The value under `k`, if any.
    pub open spec fn lookup(&self, k: Seq<char>) -> Option<V> {
        find_key(self.spec_entries(), k)
    }

    pub fn new() -> (r: Self)
        ensures
            r.spec_entries().len() == 0,
            forall|x: Seq<char>| #[trigger] r.lookup(x) is None,
    {
        TextMap { entries: Vec::new() }
    }

    /// The number of keys.
    pub fn len(&self) -> (r: usize)
        ensures
            r == self.spec_entries().len(),
    {
        self.entries.len()
    }

    pub fn is_empty(&self) -> (r: bool)
        ensures
            r == (self.spec_entries().len() == 0),
    {
        self.entries.len() == 0
    }

    /// The entries in key order.
    pub fn entries(&self) -> (r: &Vec<(String, V)>)
        ensures
            r@.map_values(|e: (String, V)| (e.0@, e.1)) == self.spec_entries(),
            sorted_keys(self.spec_entries()),
    {
        proof {
            use_type_invariant(self);
        }
        &self.entries
    }

    /// The first position whose key is not before `key`, and whether it is `key`.
    fn locate(&self, key: &str) -> (r: (usize, bool))
        ensures
            r.0 <= self.spec_entries().len(),
            forall|j: int| 0 <= j < r.0 ==> lex_lt(key_bytes((#[trigger] self.spec_entries()[j]).0), key_bytes(key@)),
            r.0 < self.spec_entries().len() && !r.1 ==> lex_lt(key_bytes(key@), key_bytes(self.spec_entries()[r.0 as int].0)),
            r.1 == (r.0 < self.spec_entries().len() && self.spec_entries()[r.0 as int].0 == key@),
            r.1 ==> self.lookup(key@) == Some(self.spec_entries()[r.0 as int].1),
            !r.1 ==> self.lookup(key@) is None,
            !r.1 ==> forall|j: int| 0 <= j < self.spec_entries().len() ==> (#[trigger] self.spec_entries()[j]).0 != key@,
    {
        proof {
            use_type_invariant(self);
            lemma_sorted_unique(self.spec_entries());
        }
        let ghost s = self.spec_entries();
        let target = key.as_bytes();
        let mut k: usize = 0;
        while k < self.entries.len()
            invariant
                k <= self.entries@.len(),
                s == self.spec_entries(),
                s.len() == self.entries@.len(),
                sorted_keys(s),
                unique_keys(s),
                target@ == key_bytes(key@),
                forall|j: int| 0 <= j < k ==> lex_lt(key_bytes((#[trigger] s[j]).0), key_bytes(key@)),
            decreases self.entries@.len() - k,
        {
            let cur = self.entries[k].0.as_str().as_bytes();
            assert(s[k as int].0 == self.entries@[k as int].0@);
            if !bytes_lt(cur, target) {
                let same = bytes_eq(cur, target);
                proof {
                    if same {
                        assert(vstd::utf8::decode_utf8(key_bytes(s[k as int].0)) == s[k as int].0);
                        assert(vstd::utf8::decode_utf8(key_bytes(key@)) == key@);
                        lemma_find_unique(s, key@, k as int);
                    } else {
                        lemma_lex_total(key_bytes(s[k as int].0), key_bytes(key@));
                        assert forall|j: int| 0 <= j < s.len() implies (#[trigger] s[j]).0 != key@ by {
                            lemma_lex_irreflexive(key_bytes(key@));
                            if j > k {
                                lemma_lex_transitive(key_bytes(key@), key_bytes(s[k as int].0), key_bytes(s[j].0));
                            }
                        }
                        lemma_find_absent(s, key@);
                    }
                }
                return (k, same);
            }
            k = k + 1;
        }
        proof {
            assert forall|j: int| 0 <= j < s.len() implies (#[trigger] s[j]).0 != key@ by {
                lemma_lex_irreflexive(key_bytes(key@));
            }
            lemma_find_absent(s, key@);
        }
        (k, false)
    }

    /// The value under `key`.
    pub fn get(&self, key: &str) -> (r: Option<&V>)
        ensures
            match r {
                Some(v) => self.lookup(key@) == Some(*v),
                None => self.lookup(key@) is None,
            },
    {
        let (k, found) = self.locate(key);
        if found {
            Some(&self.entries[k].1)
        } else {
            None
        }
    }

    pub fn contains_key(&self, key: &str) -> (r: bool)
        ensures
            r == (self.lookup(key@) is Some),
    {
        let (_, found) = self.locate(key);
        found
    }

    /// Put `value` under `key`, returning what was there.
    pub fn insert(&mut self, key: String, value: V) -> (r: Option<V>)
        ensures
            r == old(self).lookup(key@),
            forall|x: Seq<char>| #[trigger] final(self).lookup(x) == if x == key@ {
                Some(value)
            } else {
                old(self).lookup(x)
            },
            final(self).spec_entries().len() == old(self).spec_entries().len() + if r is Some { 0int } else { 1int },
    {
        proof {
            use_type_invariant(&*self);
        }
        let (k, found) = self.locate(key.as_str());
        let ghost s = self.spec_entries();
        let ghost kb = key_bytes(key@);
        let ghost e = (key@, value);
        let mut v: Vec<(String, V)> = Vec::new();
        std::mem::swap(&mut v, &mut self.entries);
        assert(v@.map_values(|e: (String, V)| (e.0@, e.1)) == s);
        if found {
            let old_entry = v.remove(k);
            v.insert(k, (key, value));
            let ghost n = v@.map_values(|e: (String, V)| (e.0@, e.1));
            proof {
                assert(old_entry.1 == s[k as int].1);
                assert(n =~= s.update(k as int, e));
                assert forall|i: int, j: int| 0 <= i < j < n.len() implies lex_lt(key_bytes((#[trigger] n[i]).0), key_bytes((#[trigger] n[j]).0)) by {
                    assert(s[i].0 == n[i].0 && s[j].0 == n[j].0);
                }
                lemma_sorted_unique(n);
                lemma_sorted_unique(s);
                assert forall|x: Seq<char>| #[trigger] find_key(n, x) == if x == key@ { Some(value) } else { find_key(s, x) } by {
                    if x == key@ {
                        lemma_find_unique(n, x, k as int);
                    } else if find_key(s, x) is Some {
                        lemma_find_present(s, x);
                        let i = choose|i: int| 0 <= i < s.len() && (#[trigger] s[i]).0 == x && find_key(s, x) == Some(s[i].1);
                        lemma_find_unique(n, x, i);
                    } else {
                        assert forall|i: int| 0 <= i < n.len() implies (#[trigger] n[i]).0 != x by {
                            if i != k && n[i].0 == x {
                                lemma_find_unique(s, x, i);
                            }
                        }
                        lemma_find_absent(n, x);
                    }
                }
            }
            self.entries = v;
            Some(old_entry.1)
        } else {
            v.insert(k, (key, value));
            let ghost n = v@.map_values(|e: (String, V)| (e.0@, e.1));
            proof {
                assert(n =~= s.insert(k as int, e));
                assert forall|i: int, j: int| 0 <= i < j < n.len() implies lex_lt(key_bytes((#[trigger] n[i]).0), key_bytes((#[trigger] n[j]).0)) by {
                    if j < k {
                    } else if j == k {
                    } else if i < k {
                        lemma_lex_transitive(key_bytes(n[i].0), kb, key_bytes(s[k as int].0));
                        if j - 1 > k {
                            lemma_lex_transitive(key_bytes(n[i].0), key_bytes(s[k as int].0), key_bytes(n[j].0));
                        }
                    } else if i == k {
                        if j - 1 > k {
                            lemma_lex_transitive(kb, key_bytes(s[k as int].0), key_bytes(n[j].0));
                        }
                    } else {
                        assert(n[i] == s[i - 1] && n[j] == s[j - 1]);
                    }
                }
                lemma_sorted_unique(n);
                lemma_sorted_unique(s);
                assert forall|x: Seq<char>| #[trigger] find_key(n, x) == if x == key@ { Some(value) } else { find_key(s, x) } by {
                    if x == key@ {
                        lemma_find_unique(n, x, k as int);
                    } else if find_key(s, x) is Some {
                        lemma_find_present(s, x);
                        let i = choose|i: int| 0 <= i < s.len() && (#[trigger] s[i]).0 == x && find_key(s, x) == Some(s[i].1);
                        if i < k {
                            lemma_find_unique(n, x, i);
                        } else {
                            assert(n[i + 1] == s[i]);
                            lemma_find_unique(n, x, i + 1);
                        }
                    } else {
                        assert forall|i: int| 0 <= i < n.len() implies (#[trigger] n[i]).0 != x by {
                            if i < k && n[i].0 == x {
                                lemma_find_unique(s, x, i);
                            } else if i > k && n[i].0 == x {
                                assert(n[i] == s[i - 1]);
                                lemma_find_unique(s, x, i - 1);
                            }
                        }
                        lemma_find_absent(n, x);
                    }
                }
            }
            self.entries = v;
            None
        }
    }

    /// Take the value under `key` out of the map.
    pub fn remove(&mut self, key: &str) -> (r: Option<V>)
        ensures
            r == old(self).lookup(key@),
            forall|x: Seq<char>| #[trigger] final(self).lookup(x) == if x == key@ {
                None
            } else {
                old(self).lookup(x)
            },
            final(self).spec_entries().len() == old(self).spec_entries().len() - if r is Some { 1int } else { 0int },
    {
        proof {
            use_type_invariant(&*self);
        }
        let (k, found) = self.locate(key);
        if !found {
            return None;
        }
        let ghost s = self.spec_entries();
        let mut v: Vec<(String, V)> = Vec::new();
        std::mem::swap(&mut v, &mut self.entries);
        assert(v@.map_values(|e: (String, V)| (e.0@, e.1)) == s);
        let removed = v.remove(k);
        let ghost n = v@.map_values(|e: (String, V)| (e.0@, e.1));
        proof {
            assert(n =~= s.remove(k as int));
            assert forall|i: int, j: int| 0 <= i < j < n.len() implies lex_lt(key_bytes((#[trigger] n[i]).0), key_bytes((#[trigger] n[j]).0)) by {
                if j < k {
                } else if i < k {
                    assert(n[j] == s[j + 1]);
                } else {
                    assert(n[i] == s[i + 1] && n[j] == s[j + 1]);
                }
            }
            lemma_sorted_unique(n);
            lemma_sorted_unique(s);
            assert forall|x: Seq<char>| #[trigger] find_key(n, x) == if x == key@ { None } else { find_key(s, x) } by {
                if x == key@ {
                    assert forall|i: int| 0 <= i < n.len() implies (#[trigger] n[i]).0 != x by {
                        if i < k {
                            assert(n[i] == s[i]);
                        } else {
                            assert(n[i] == s[i + 1]);
                        }
                    }
                    lemma_find_absent(n, x);
                } else if find_key(s, x) is Some {
                    lemma_find_present(s, x);
                    let i = choose|i: int| 0 <= i < s.len() && (#[trigger] s[i]).0 == x && find_key(s, x) == Some(s[i].1);
                    if i < k {
                        lemma_find_unique(n, x, i);
                    } else {
                        assert(n[i - 1] == s[i]);
                        lemma_find_unique(n, x, i - 1);
                    }
                } else {
                    assert forall|i: int| 0 <= i < n.len() implies (#[trigger] n[i]).0 != x by {
                        if i < k && n[i].0 == x {
                            lemma_find_unique(s, x, i);
                        } else if i >= k && n[i].0 == x {
                            assert(n[i] == s[i + 1]);
                            lemma_find_unique(s, x, i + 1);
                        }
                    }
                    lemma_find_absent(n, x);
                }
            }
        }
        self.entries = v;
        Some(removed.1)
    }
}

impl<V: Clone> Clone for TextMap<V> {
    /// The same keys, in the same order, each with a clone of its value.
    fn clone(&self) -> (r: Self)
        ensures
            r.spec_entries().len() == self.spec_entries().len(),
            forall|i: int| 0 <= i < self.spec_entries().len() ==> (#[trigger] r.spec_entries()[i]).0 == self.spec_entries()[i].0,
            forall|i: int| 0 <= i < self.spec_entries().len() ==> cloned::<V>(self.spec_entries()[i].1, #[trigger] r.spec_entries()[i].1),
    {
        proof {
            use_type_invariant(self);
        }
        let ghost s = self.spec_entries();
        let mut out: Vec<(String, V)> = Vec::new();
        let mut k: usize = 0;
        while k < self.entries.len()
            invariant
                k <= self.entries@.len(),
                s == self.spec_entries(),
                s.len() == self.entries@.len(),
                sorted_keys(s),
                out@.len() == k,
                forall|i: int| 0 <= i < k ==> (#[trigger] out@[i]).0@ == s[i].0,
                forall|i: int| 0 <= i < k ==> cloned::<V>(s[i].1, #[trigger] out@[i].1),
            decreases self.entries@.len() - k,
        {
            assert(s[k as int].0 == self.entries@[k as int].0@);
            let key = self.entries[k].0.clone();
            let value = self.entries[k].1.clone();
            assert(s[k as int].1 == self.entries@[k as int].1);
            out.push((key, value));
            k = k + 1;
        }
        let r = TextMap { entries: out };
        proof {
            let n = r.spec_entries();
            assert forall|i: int, j: int| 0 <= i < j < n.len() implies lex_lt(key_bytes((#[trigger] n[i]).0), key_bytes((#[trigger] n[j]).0)) by {
                assert(n[i].0 == s[i].0 && n[j].0 == s[j].0);
            }
            assert forall|i: int| 0 <= i < s.len() implies cloned::<V>(s[i].1, #[trigger] n[i].1) by {
                assert(n[i].1 == out@[i].1);
            }
        }
        r
    }
}

} // verus!
