//! The key-value store that holds author records, the domain and the roster.
use vstd::prelude::*;
use vstd::string::*;

use crate::error::{Error, Failure};

verus! {

broadcast use vstd::string::group_string_axioms;

/// A string-keyed store of string values.
///
/// A store reports a key that it does not hold as `KeyNotFound`, and returns the
/// value of a key that it holds. Writing may fail, and then leaves the store as it was.
pub trait Config {
    /// What the store holds.
    spec fn entries(&self) -> Map<Seq<char>, Seq<char>>;

    fn get(&self, name: &str) -> (r: Result<String, Error>)
        ensures
            match r {
                Ok(v) => self.entries().contains_key(name@) && v@ == self.entries()[name@],
                Err(e) => !self.entries().contains_key(name@) && e@ == Failure::KeyNotFound(
                    name@,
                ),
            },
    ;

    fn set(&mut self, name: &str, value: &str) -> (r: Result<(), Error>)
        ensures
            match r {
                Ok(_) => final(self).entries() == old(self).entries().insert(name@, value@),
                Err(e) => final(self).entries() == old(self).entries() && e@ is Store,
            },
    ;
}

/// The map that a list of key-value pairs describes; a later pair overrides an earlier one.
pub open spec fn pairs_map(s: Seq<(Seq<char>, Seq<char>)>) -> Map<Seq<char>, Seq<char>>
    decreases s.len(),
{
    if s.len() == 0 {
        Map::empty()
    } else {
        pairs_map(s.drop_last()).insert(s.last().0, s.last().1)
    }
}

/// Pairs of strings as pairs of character sequences.
pub open spec fn pairs_view(s: Seq<(String, String)>) -> Seq<(Seq<char>, Seq<char>)> {
    s.map_values(|p: (String, String)| (p.0@, p.1@))
}

/// Pairs of string slices as pairs of character sequences.
pub open spec fn str_pairs_view(s: Seq<(&str, &str)>) -> Seq<(Seq<char>, Seq<char>)> {
    s.map_values(|p: (&str, &str)| (p.0@, p.1@))
}

/// Beyond position `i` no pair has key `k`, so the map decides `k` as the first `i` pairs do.
proof fn lemma_pairs_map_prefix(s: Seq<(Seq<char>, Seq<char>)>, i: int, k: Seq<char>)
    requires
        0 <= i <= s.len(),
        forall|j: int| i <= j < s.len() ==> s[j].0 != k,
    ensures
        pairs_map(s).contains_key(k) == pairs_map(s.take(i)).contains_key(k),
        pairs_map(s).contains_key(k) ==> pairs_map(s)[k] == pairs_map(s.take(i))[k],
    decreases s.len() - i,
{
    if i < s.len() {
        assert(s.drop_last().take(i) =~= s.take(i));
        lemma_pairs_map_prefix(s.drop_last(), i, k);
    } else {
        assert(s.take(i) =~= s);
    }
}

/// A store held in memory, as a list of key-value pairs.
pub struct MemoryConfig {
    pairs: Vec<(String, String)>,
}

impl MemoryConfig {
    /// A store holding the given pairs; a later pair overrides an earlier one.
    pub fn new(data: &[(&str, &str)]) -> (r: MemoryConfig)
        ensures
            r.entries() == pairs_map(str_pairs_view(data@)),
    {
        let mut pairs: Vec<(String, String)> = Vec::new();
        let mut i: usize = 0;
        while i < data.len()
            invariant
                i <= data@.len(),
                pairs_view(pairs@) == str_pairs_view(data@.take(i as int)),
            decreases data.len() - i,
        {
            let (k, v) = data[i];
            let ghost prev = pairs@;
            pairs.push((String::from_str(k), String::from_str(v)));
            assert(pairs@ == prev.push(pairs@.last()));
            assert(data@.take(i + 1) =~= data@.take(i as int).push(data@[i as int]));
            assert(pairs_view(pairs@) =~= pairs_view(prev).push((k@, v@)));
            i = i + 1;
            assert(pairs_view(pairs@) =~= str_pairs_view(data@.take(i as int)));
        }
        assert(data@.take(i as int) =~= data@);
        MemoryConfig { pairs }
    }
}

impl Config for MemoryConfig {
    closed spec fn entries(&self) -> Map<Seq<char>, Seq<char>> {
        pairs_map(pairs_view(self.pairs@))
    }

    fn get(&self, name: &str) -> (r: Result<String, Error>) {
        let key = String::from_str(name);
        let ghost s = pairs_view(self.pairs@);
        let mut i: usize = self.pairs.len();
        while i > 0
            invariant
                i <= self.pairs@.len(),
                key@ == name@,
                s == pairs_view(self.pairs@),
                forall|j: int| i <= j < s.len() ==> s[j].0 != name@,
            decreases i,
        {
            if self.pairs[i - 1].0 == key {
                proof {
                    lemma_pairs_map_prefix(s, i as int, name@);
                    assert(s.take(i as int).drop_last() =~= s.take(i - 1));
                }
                return Ok(self.pairs[i - 1].1.clone());
            }
            i = i - 1;
        }
        proof {
            lemma_pairs_map_prefix(s, 0, name@);
            assert(s.take(0) =~= Seq::<(Seq<char>, Seq<char>)>::empty());
        }
        Err(Error::KeyNotFound(key))
    }

    fn set(&mut self, name: &str, value: &str) -> (r: Result<(), Error>) {
        let ghost before = pairs_view(self.pairs@);
        self.pairs.push((String::from_str(name), String::from_str(value)));
        assert(pairs_view(self.pairs@).drop_last() =~= before);
        Ok(())
    }
}

} // verus!
