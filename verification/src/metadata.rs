//! Recipe metadata: a map from metadata key to its textual value.

use vstd::prelude::*;

use crate::assoc::{
    assoc_map, lemma_assoc_map_absent, lemma_assoc_map_index, lemma_assoc_map_push,
    lemma_assoc_map_update, unique_keys, views_of,
};

verus! {

/// The metadata block of a recipe, keyed by the entry names as written.
#[derive(Clone, Debug)]
pub struct CooklangMetadata {
    entries: Vec<(String, String)>,
}

impl View for CooklangMetadata {
    type V = Map<Seq<char>, Seq<char>>;

    closed spec fn view(&self) -> Map<Seq<char>, Seq<char>> {
        assoc_map(views_of(self.entries@))
    }
}

impl Default for CooklangMetadata {
    /// The empty metadata block.
    fn default() -> (r: CooklangMetadata)
        ensures
            r@ == Map::<Seq<char>, Seq<char>>::empty(),
            r.inv(),
    {
        CooklangMetadata::new()
    }
}

impl CooklangMetadata {
    /// Each key stands in one entry.
    pub closed spec fn inv(&self) -> bool {
        unique_keys(views_of(self.entries@))
    }

    /// An empty metadata block.
    pub fn new() -> (r: CooklangMetadata)
        ensures
            r@ == Map::<Seq<char>, Seq<char>>::empty(),
            r.inv(),
    {
        let r = CooklangMetadata { entries: Vec::new() };
        proof {
            assert(views_of(r.entries@) =~= Seq::<(Seq<char>, Seq<char>)>::empty());
        }
        r
    }

    /// The position of a key, if it is present.
    fn index_of(&self, key: &str) -> (r: Option<usize>)
        ensures
            match r {
                Some(i) => i < self.entries@.len() && self.entries@[i as int].0@ == key@,
                None => forall|i: int|
                    0 <= i < self.entries@.len() ==> self.entries@[i].0@ != key@,
            },
    {
        let owned: String = key.to_owned();
        let n = self.entries.len();
        for i in 0..n
            invariant
                owned@ == key@,
                n == self.entries@.len(),
                forall|j: int| 0 <= j < i ==> self.entries@[j].0@ != key@,
        {
            if self.entries[i].0 == owned {
                return Some(i);
            }
        }
        None
    }

    /// Bind a key to a value, replacing what the key held.
    pub fn insert(&mut self, key: String, value: String)
        requires
            old(self).inv(),
        ensures
            final(self)@ == old(self)@.insert(key@, value@),
            final(self).inv(),
    {
        let ghost s = views_of(self.entries@);
        match self.index_of(key.as_str()) {
            Some(i) => {
                self.entries.set(i, (key, value));
                proof {
                    assert(views_of(self.entries@) =~= s.update(i as int, (s[i as int].0, value@)));
                    lemma_assoc_map_update(s, i as int, value@);
                }
            },
            None => {
                self.entries.push((key, value));
                proof {
                    assert(views_of(self.entries@) =~= s.push((key@, value@)));
                    lemma_assoc_map_push(s, (key@, value@));
                    assert(unique_keys(s.push((key@, value@)))) by {
                        let t = s.push((key@, value@));
                        assert(forall|j: int| 0 <= j < s.len() ==> t[j] == s[j]);
                        assert(t[s.len() as int].0 == key@);
                    }
                }
            },
        }
    }

    /// Look a key up; absence is an expected result, not an error.
    pub fn get(&self, key: &str) -> (r: Option<String>)
        requires
            self.inv(),
        ensures
            match r {
                Some(v) => self@.contains_key(key@) && v@ == self@[key@],
                None => !self@.contains_key(key@),
            },
    {
        match self.index_of(key) {
            Some(i) => {
                proof {
                    lemma_assoc_map_index(views_of(self.entries@), i as int);
                }
                Some(self.entries[i].1.clone())
            },
            None => {
                proof {
                    lemma_assoc_map_absent(views_of(self.entries@), key@);
                }
                None
            },
        }
    }
}

} // verus!
