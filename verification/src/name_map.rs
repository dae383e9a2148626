//! A name-to-constant table with insertion-order overwrite semantics,
//! used both for the label map built while parsing and for the location
//! table loaded before parsing. Its mathematical view is a
//! `Map<Seq<char>, u16>` in which a later insertion of the same name wins.

use vstd::prelude::*;
use crate::text::str_eq;

verus! {

/// The map described by a sequence of (name, value) pairs, later pairs
/// overwriting earlier ones.
spec fn pairs_map(s: Seq<(String, u16)>) -> Map<Seq<char>, u16>
    decreases s.len(),
{
    if s.len() == 0 {
        Map::empty()
    } else {
        pairs_map(s.drop_last()).insert(s.last().0@, s.last().1)
    }
}

/// A table binding names to 16-bit constants.
#[derive(Debug)]
pub struct NameMap {
    pairs: Vec<(String, u16)>,
}

/// A key absent from every pair is absent from the map.
proof fn lemma_pairs_map_absent(s: Seq<(String, u16)>, k: Seq<char>)
    requires
        forall|j: int| 0 <= j < s.len() ==> (#[trigger] s[j]).0@ != k,
    ensures
        !pairs_map(s).contains_key(k),
    decreases s.len(),
{
    if s.len() > 0 {
        lemma_pairs_map_absent(s.drop_last(), k);
    }
}

/// The map's value at a key is the value of the last pair bearing it.
proof fn lemma_pairs_map_get(s: Seq<(String, u16)>, k: Seq<char>, i: int)
    requires
        0 <= i < s.len(),
        s[i].0@ == k,
        forall|j: int| i < j < s.len() ==> (#[trigger] s[j]).0@ != k,
    ensures
        pairs_map(s).contains_key(k),
        pairs_map(s)[k] == s[i].1,
    decreases s.len(),
{
    if i == s.len() - 1 {
    } else {
        lemma_pairs_map_get(s.drop_last(), k, i);
    }
}

impl View for NameMap {
    type V = Map<Seq<char>, u16>;

    closed spec fn view(&self) -> Map<Seq<char>, u16> {
        pairs_map(self.pairs@)
    }
}

impl NameMap {
    /// An empty table.
    pub fn new() -> (r: NameMap)
        ensures
            r@ == Map::<Seq<char>, u16>::empty(),
    {
        NameMap { pairs: Vec::new() }
    }

    /// Binds a name to a value, replacing any earlier binding.
    pub fn insert(&mut self, name: String, val: u16)
        ensures
            final(self)@ == old(self)@.insert(name@, val),
    {
        self.pairs.push((name, val));
        proof {
            assert(self.pairs@.drop_last() =~= old(self).pairs@);
        }
    }

    /// Looks a name up.
    pub fn get(&self, name: &str) -> (r: Option<u16>)
        ensures
            match r {
                Some(v) => self@.contains_key(name@) && self@[name@] == v,
                None => !self@.contains_key(name@),
            },
    {
        let n = self.pairs.len();
        let mut i = n;
        while i > 0
            invariant
                i <= n,
                n == self.pairs@.len(),
                forall|j: int| i <= j < n ==> (#[trigger] self.pairs@[j]).0@ != name@,
            decreases i,
        {
            i = i - 1;
            if str_eq(self.pairs[i].0.as_str(), name) {
                proof {
                    lemma_pairs_map_get(self.pairs@, name@, i as int);
                }
                return Some(self.pairs[i].1);
            }
        }
        proof {
            lemma_pairs_map_absent(self.pairs@, name@);
        }
        None
    }
}

} // verus!
