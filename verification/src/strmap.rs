//! A small string-to-string mapping with insertion order.
//!
//! Trigger conditions, step parameters, environment variables and named
//! scripts are all mappings from names to values.  `StringMap` keeps its
//! entries as a list of pairs; inserting a key drops any earlier entry for
//! that key and appends the new pair, so each key occurs at most once and
//! the last write wins.  The view of a map is that list of pairs, and the
//! spec functions [`kv_get`] and [`kv_has`] read it by first match.

use vstd::prelude::*;

use crate::strings::str_eq;

verus! {

/// One entry of the view: key characters and value characters.
pub type KvPairs = Seq<(Seq<char>, Seq<char>)>;

/// First value bound to `k` in `s`, if any.
pub open spec fn kv_get(s: KvPairs, k: Seq<char>) -> Option<Seq<char>>
    decreases s.len(),
{
    if s.len() == 0 {
        None
    } else if s[0].0 == k {
        Some(s[0].1)
    } else {
        kv_get(s.subrange(1, s.len() as int), k)
    }
}

/// True iff `s` binds the key `k`.
pub open spec fn kv_has(s: KvPairs, k: Seq<char>) -> bool {
    kv_get(s, k) is Some
}

/// `s` with every entry for the key `k` dropped.
pub open spec fn kv_remove(s: KvPairs, k: Seq<char>) -> KvPairs
    decreases s.len(),
{
    if s.len() == 0 {
        Seq::empty()
    } else if s[0].0 == k {
        kv_remove(s.subrange(1, s.len() as int), k)
    } else {
        seq![s[0]] + kv_remove(s.subrange(1, s.len() as int), k)
    }
}

/// If the first `i` entries of `s` do not bind `k`, the lookup only
/// depends on the rest.
pub proof fn lemma_kv_get_skip(s: KvPairs, k: Seq<char>, i: int)
    requires
        0 <= i <= s.len(),
        forall|j: int| 0 <= j < i ==> (#[trigger] s[j]).0 != k,
    ensures
        kv_get(s, k) == kv_get(s.subrange(i, s.len() as int), k),
    decreases i,
{
    if i == 0 {
        assert(s.subrange(0, s.len() as int) =~= s);
    } else {
        let rest = s.subrange(1, s.len() as int);
        lemma_kv_get_skip(rest, k, i - 1);
        assert(rest.subrange(i - 1, rest.len() as int) =~= s.subrange(i, s.len() as int));
    }
}

/// How removal treats one appended entry.
pub proof fn lemma_kv_remove_push(s: KvPairs, k: Seq<char>, e: (Seq<char>, Seq<char>))
    ensures
        e.0 == k ==> kv_remove(s.push(e), k) == kv_remove(s, k),
        e.0 != k ==> kv_remove(s.push(e), k) == kv_remove(s, k).push(e),
    decreases s.len(),
{
    if s.len() == 0 {
        assert(s.push(e).subrange(1, 1) =~= Seq::<(Seq<char>, Seq<char>)>::empty());
        assert(kv_remove(Seq::<(Seq<char>, Seq<char>)>::empty(), k) == Seq::<(
            Seq<char>,
            Seq<char>,
        )>::empty());
        assert(s.push(e)[0] == e);
        if e.0 != k {
            assert(kv_remove(s.push(e), k) =~= kv_remove(s, k).push(e));
        }
    } else {
        let rest = s.subrange(1, s.len() as int);
        lemma_kv_remove_push(rest, k, e);
        assert(s.push(e).subrange(1, s.push(e).len() as int) =~= rest.push(e));
        if s[0].0 == k {
        } else {
            if e.0 == k {
                assert(kv_remove(s.push(e), k) =~= kv_remove(s, k));
            } else {
                assert(kv_remove(s.push(e), k) =~= kv_remove(s, k).push(e));
            }
        }
    }
}

/// A mapping from string keys to string values, last write wins.
#[derive(Debug)]
pub struct StringMap {
    entries: Vec<(String, String)>,
}

impl View for StringMap {
    type V = KvPairs;

    closed spec fn view(&self) -> KvPairs {
        self.entries@.map_values(|p: (String, String)| (p.0@, p.1@))
    }
}

impl Clone for StringMap {
    fn clone(&self) -> (r: Self)
        ensures
            r@ == self@,
    {
        let mut out: Vec<(String, String)> = Vec::new();
        let mut i: usize = 0;
        while i < self.entries.len()
            invariant
                i <= self.entries@.len(),
                out@.len() == i,
                forall|j: int|
                    0 <= j < i ==> (#[trigger] out@[j]).0@ == self.entries@[j].0@
                        && out@[j].1@ == self.entries@[j].1@,
            decreases self.entries@.len() - i,
        {
            let k = self.entries[i].0.clone();
            let v = self.entries[i].1.clone();
            out.push((k, v));
            i = i + 1;
        }
        let r = StringMap { entries: out };
        assert(r@ =~= self@);
        r
    }
}

impl StringMap {
    /// The empty mapping.
    pub fn new() -> (r: Self)
        ensures
            r@ == Seq::<(Seq<char>, Seq<char>)>::empty(),
    {
        let r = StringMap { entries: Vec::new() };
        assert(r@ =~= Seq::<(Seq<char>, Seq<char>)>::empty());
        r
    }

    /// Number of entries.
    pub fn len(&self) -> (r: usize)
        ensures
            r == self@.len(),
    {
        self.entries.len()
    }

    /// True iff there are no entries.
    pub fn is_empty(&self) -> (r: bool)
        ensures
            r == (self@.len() == 0),
    {
        self.entries.len() == 0
    }

    /// The value bound to `key`, if any.
    pub fn get(&self, key: &String) -> (r: Option<&String>)
        ensures
            match r {
                Some(v) => kv_get(self@, key@) == Some(v@),
                None => !kv_has(self@, key@),
            },
    {
        let mut i: usize = 0;
        while i < self.entries.len()
            invariant
                i <= self.entries@.len(),
                forall|j: int| 0 <= j < i ==> (#[trigger] self@[j]).0 != key@,
            decreases self.entries@.len() - i,
        {
            if str_eq(&self.entries[i].0, key) {
                proof {
                    lemma_kv_get_skip(self@, key@, i as int);
                }
                return Some(&self.entries[i].1);
            }
            i = i + 1;
        }
        proof {
            lemma_kv_get_skip(self@, key@, self@.len() as int);
            assert(self@.subrange(self@.len() as int, self@.len() as int) =~= Seq::<(
                Seq<char>,
                Seq<char>,
            )>::empty());
        }
        None
    }

    /// True iff `key` is bound.
    pub fn contains_key(&self, key: &String) -> (r: bool)
        ensures
            r == kv_has(self@, key@),
    {
        match self.get(key) {
            Some(_) => true,
            None => false,
        }
    }

    /// Drop every entry for `key`.
    pub fn remove(&mut self, key: &String)
        ensures
            final(self)@ == kv_remove(old(self)@, key@),
    {
        let mut out: Vec<(String, String)> = Vec::new();
        let mut i: usize = 0;
        proof {
            assert(self@.subrange(0, 0) =~= Seq::<(Seq<char>, Seq<char>)>::empty());
        }
        while i < self.entries.len()
            invariant
                i <= self.entries@.len(),
                out@.map_values(|p: (String, String)| (p.0@, p.1@)) == kv_remove(
                    self@.subrange(0, i as int),
                    key@,
                ),
            decreases self.entries@.len() - i,
        {
            proof {
                lemma_kv_remove_push(self@.subrange(0, i as int), key@, self@[i as int]);
                assert(self@.subrange(0, i as int).push(self@[i as int]) =~= self@.subrange(
                    0,
                    i as int + 1,
                ));
            }
            if !str_eq(&self.entries[i].0, key) {
                let k = self.entries[i].0.clone();
                let v = self.entries[i].1.clone();
                out.push((k, v));
                assert(out@.map_values(|p: (String, String)| (p.0@, p.1@)) =~= kv_remove(
                    self@.subrange(0, i as int + 1),
                    key@,
                ));
            }
            i = i + 1;
        }
        proof {
            assert(self@.subrange(0, self@.len() as int) =~= self@);
        }
        self.entries = out;
    }

    /// The entry at position `i`, in insertion order.
    pub fn entry(&self, i: usize) -> (r: &(String, String))
        requires
            i < self@.len(),
        ensures
            (r.0@, r.1@) == self@[i as int],
    {
        &self.entries[i]
    }

    /// Append an entry exactly as stored; used when rebuilding a map
    /// from its listed entries.
    pub fn push_entry(&mut self, key: String, value: String)
        ensures
            final(self)@ == old(self)@.push((key@, value@)),
    {
        self.entries.push((key, value));
        assert(self@ =~= old(self)@.push((key@, value@)));
    }

    /// Bind `key` to `value`, dropping any earlier binding.
    pub fn insert(&mut self, key: String, value: String)
        ensures
            final(self)@ == kv_remove(old(self)@, key@).push((key@, value@)),
    {
        let ghost s0 = old(self)@;
        self.remove(&key);
        self.entries.push((key, value));
        assert(self@ =~= kv_remove(s0, key@).push((key@, value@)));
    }
}

} // verus!
