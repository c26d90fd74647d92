//! A small map from strings to strings, kept as a list of pairs in which a
//! later pair overrides an earlier one with the same key.

use crate::credentials::opt_view;
use vstd::prelude::*;

verus! {

/// The map that a list of pairs denotes: later pairs override earlier ones.
pub open spec fn pairs_map(s: Seq<(String, String)>) -> Map<Seq<char>, Seq<char>>
    decreases s.len(),
{
    if s.len() == 0 {
        Map::empty()
    } else {
        pairs_map(s.drop_last()).insert(s.last().0@, s.last().1@)
    }
}

/// The pairs of `s` whose key is not `k`, in order.
pub open spec fn without_key(s: Seq<(String, String)>, k: Seq<char>) -> Seq<(String, String)>
    decreases s.len(),
{
    if s.len() == 0 {
        s
    } else if s.last().0@ == k {
        without_key(s.drop_last(), k)
    } else {
        without_key(s.drop_last(), k).push(s.last())
    }
}

proof fn lemma_without_key(s: Seq<(String, String)>, k: Seq<char>)
    ensures
        pairs_map(without_key(s, k)) == pairs_map(s).remove(k),
    decreases s.len(),
{
    if s.len() > 0 {
        lemma_without_key(s.drop_last(), k);
        let w = without_key(s.drop_last(), k);
        if s.last().0@ != k {
            assert(w.push(s.last()).drop_last() =~= w);
        }
    }
    assert(pairs_map(without_key(s, k)) =~= pairs_map(s).remove(k));
}

proof fn lemma_skip_tail(s: Seq<(String, String)>, i: int, k: Seq<char>)
    requires
        0 <= i <= s.len(),
        forall|j: int| i <= j < s.len() ==> (#[trigger] s[j]).0@ != k,
    ensures
        pairs_map(s).contains_key(k) == pairs_map(s.subrange(0, i)).contains_key(k),
        pairs_map(s).contains_key(k) ==> pairs_map(s)[k] == pairs_map(s.subrange(0, i))[k],
    decreases s.len() - i,
{
    if i < s.len() {
        assert(s.drop_last().len() == s.len() - 1);
        lemma_skip_tail(s.drop_last(), i, k);
        assert(s.drop_last().subrange(0, i) =~= s.subrange(0, i));
    } else {
        assert(s.subrange(0, i) =~= s);
    }
}

/// A map from strings to strings.
pub struct TextMap {
    entries: Vec<(String, String)>,
}

impl View for TextMap {
    type V = Map<Seq<char>, Seq<char>>;

    closed spec fn view(&self) -> Map<Seq<char>, Seq<char>> {
        pairs_map(self.entries@)
    }
}

impl TextMap {
    pub fn new() -> (r: TextMap)
        ensures
            r@ == Map::<Seq<char>, Seq<char>>::empty(),
    {
        TextMap { entries: Vec::new() }
    }

    /// The value under `key`, if any.
    pub fn get(&self, key: &String) -> (r: Option<String>)
        ensures
            opt_view(r) == (if self@.contains_key(key@) {
                Some(self@[key@])
            } else {
                None
            }),
    {
        let mut i: usize = self.entries.len();
        while i > 0
            invariant
                i <= self.entries@.len(),
                forall|j: int| i <= j < self.entries@.len() ==> (#[trigger] self.entries@[j]).0@
                    != key@,
            decreases i,
        {
            if self.entries[i - 1].0 == *key {
                proof {
                    lemma_skip_tail(self.entries@, i as int, key@);
                    assert(self.entries@.subrange(0, i as int).drop_last() =~= self.entries@.subrange(0, i - 1));
                }
                return Some(self.entries[i - 1].1.clone());
            }
            i = i - 1;
        }
        proof {
            lemma_skip_tail(self.entries@, 0, key@);
        }
        None
    }

    pub fn contains_key(&self, key: &String) -> (r: bool)
        ensures
            r == self@.contains_key(key@),
    {
        self.get(key).is_some()
    }

    /// Removes the value under `key`, if any.
    pub fn remove(&mut self, key: &String)
        ensures
            final(self)@ == old(self)@.remove(key@),
    {
        let mut kept: Vec<(String, String)> = Vec::new();
        let mut i: usize = 0;
        while i < self.entries.len()
            invariant
                i <= self.entries@.len(),
                kept@ == without_key(self.entries@.subrange(0, i as int), key@),
            decreases self.entries.len() - i,
        {
            let ghost before = self.entries@.subrange(0, i as int);
            assert(self.entries@.subrange(0, i + 1).drop_last() =~= before);
            if self.entries[i].0 != *key {
                let pair = (self.entries[i].0.clone(), self.entries[i].1.clone());
                kept.push(pair);
                assert(pair == self.entries@[i as int]);
            }
            i = i + 1;
        }
        assert(self.entries@.subrange(0, self.entries@.len() as int) =~= self.entries@);
        proof {
            lemma_without_key(self.entries@, key@);
        }
        self.entries = kept;
    }

    /// Sets the value under `key` to `value`.
    pub fn insert(&mut self, key: String, value: String)
        ensures
            final(self)@ == old(self)@.insert(key@, value@),
    {
        self.remove(&key);
        let ghost mid = self.entries@;
        self.entries.push((key, value));
        assert(self.entries@.drop_last() =~= mid);
        assert(self@ =~= old(self)@.insert(key@, value@));
    }

    /// The pairs, in the order they were set.
    pub fn entries(&self) -> (r: &Vec<(String, String)>)
        ensures
            pairs_map(r@) == self@,
    {
        &self.entries
    }
}

} // verus!
