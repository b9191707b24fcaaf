//! Kernel sources by kernel number.

use crate::sorted_map;
use crate::sorted_map::SortedMap;
use std::collections::HashMap;
use vstd::prelude::*;

verus! {

broadcast use vstd::std_specs::hash::group_hash_axioms;

#[derive(Debug)]
pub struct KernelRegistry {
    kernels: HashMap<u64, String>,
}

/// Sources by number, as texts.
pub open spec fn source_texts(m: Map<u64, String>) -> Map<u64, Seq<char>> {
    m.map_values(|s: String| s@)
}

impl View for KernelRegistry {
    type V = Map<u64, Seq<char>>;

    closed spec fn view(&self) -> Map<u64, Seq<char>> {
        source_texts(self.kernels@)
    }
}

impl KernelRegistry {
    /// The hash map that holds the sources.
    pub closed spec fn held(self) -> HashMap<u64, String> {
        self.kernels
    }

    pub fn new() -> (r: Self)
        ensures
            r@ == Map::<u64, Seq<char>>::empty(),
    {
        let r = KernelRegistry { kernels: HashMap::new() };
        assert(r@ =~= Map::<u64, Seq<char>>::empty());
        r
    }

    /// Sets the source of a kernel.
    pub fn insert(&mut self, id: u64, msl_source: String)
        ensures
            final(self)@ == old(self)@.insert(id, msl_source@),
    {
        let ghost before = self.kernels@;
        self.kernels.insert(id, msl_source);
        proof {
            assert(source_texts(before.insert(id, msl_source)) =~= source_texts(before).insert(
                id,
                msl_source@,
            ));
        }
    }

    /// The source of a kernel.
    pub fn msl_for(&self, id: u64) -> (r: Option<&str>)
        ensures
            match r {
                Some(s) => self@.contains_key(id) && s@ == self@[id],
                None => !self@.contains_key(id),
            },
    {
        match self.kernels.get(&id) {
            Some(s) => Some(s.as_str()),
            None => None,
        }
    }

    /// Kernel numbers in ascending order, each with its source.
    pub fn iter(&self) -> (r: Vec<(u64, String)>)
        ensures
            forall|i: int, j: int|
                0 <= i < j < r@.len() ==> (#[trigger] r@[i]).0 < (#[trigger] r@[j]).0,
            forall|i: int|
                0 <= i < r@.len() ==> self@.contains_key((#[trigger] r@[i]).0) && self@[r@[i].0]
                    == r@[i].1@,
            forall|k: u64| #[trigger]
                self@.contains_key(k) ==> exists|i: int|
                    0 <= i < r@.len() && (#[trigger] r@[i]).0 == k,
    {
        let mut sorted: SortedMap<String> = SortedMap::new();
        for e in it: self.kernels.iter()
            invariant
                sorted.wf(),
                it.seq() == vstd::std_specs::iter::IteratorSpec::remaining(&self.kernels.iter()),
                forall|k: u64| #[trigger]
                    sorted@.contains_key(k) ==> self.kernels@.contains_key(k) && sorted@[k]@
                        == self.kernels@[k]@,
                forall|i: int|
                    0 <= i < it.index() ==> sorted@.contains_key(*(#[trigger] it.seq()[i]).0),
        {
            proof {
                let at = it.seq()[it.index()];
                assert(self.kernels@.contains_key(*at.0));
            }
            sorted.insert(*e.0, e.1.clone());
        }
        let ghost m = sorted@;
        let r = sorted.entries;
        proof {
            assert(m == sorted_map::entry_map(r@, r@.len()));
            let all = vstd::std_specs::iter::IteratorSpec::remaining(&self.kernels.iter());
            assert forall|i: int| 0 <= i < r@.len() implies self@.contains_key(
                (#[trigger] r@[i]).0,
            ) && self@[r@[i].0] == r@[i].1@ by {
                sorted_map::entry_map_at(r@, r@.len(), r@[i].0);
                assert(m.contains_key(r@[i].0));
            }
            assert forall|k: u64| #[trigger] self@.contains_key(k) implies exists|i: int|
                0 <= i < r@.len() && (#[trigger] r@[i]).0 == k by {
                assert(self.kernels@.contains_key(k));
                assert(all.contains((&k, &self.kernels@[k])));
                let w = choose|w: int|
                    0 <= w < all.len() && #[trigger] all[w] == (&k, &self.kernels@[k]);
                assert(m.contains_key(*all[w].0));
                sorted_map::entry_map_at(r@, r@.len(), k);
            }
        }
        r
    }

    /// The sources as a hash map.
    pub fn into_hashmap(self) -> (r: HashMap<u64, String>)
        ensures
            r == self.held(),
            source_texts(r@) == self@,
    {
        self.kernels
    }

    pub fn is_empty(&self) -> (r: bool)
        ensures
            r == (self@ == Map::<u64, Seq<char>>::empty()),
    {
        let r: bool = self.kernels.is_empty();
        proof {
            if r {
                assert(self@ =~= Map::<u64, Seq<char>>::empty());
            } else if self@ == Map::<u64, Seq<char>>::empty() {
                assert(self.kernels@.dom() =~= self@.dom());
                assert(self.kernels@ =~= Map::<u64, String>::empty());
            }
        }
        r
    }
}

impl Clone for KernelRegistry {
    fn clone(&self) -> (r: Self)
        ensures
            r@ == self@,
    {
        let r = KernelRegistry { kernels: self.kernels.clone() };
        proof {
            assert(r@ =~= self@);
        }
        r
    }
}

impl Default for KernelRegistry {
    fn default() -> (r: Self)
        ensures
            r@ == Map::<u64, Seq<char>>::empty(),
    {
        KernelRegistry::new()
    }
}

impl From<HashMap<u64, String>> for KernelRegistry {
    fn from(kernels: HashMap<u64, String>) -> (r: Self)
        ensures
            r.held() == kernels,
            r@ == source_texts(kernels@),
    {
        KernelRegistry { kernels }
    }
}

impl vstd::std_specs::convert::FromSpecImpl<HashMap<u64, String>> for KernelRegistry {
    open spec fn obeys_from_spec() -> bool {
        true
    }

    closed spec fn from_spec(kernels: HashMap<u64, String>) -> KernelRegistry {
        KernelRegistry { kernels }
    }
}

/// A hash map made into a registry is the one that the registry is made into.
pub proof fn registry_round_trip(m: HashMap<u64, String>)
    ensures
        <KernelRegistry as vstd::std_specs::convert::FromSpec<HashMap<u64, String>>>::from_spec(
            m,
        ).held() == m,
        <KernelRegistry as vstd::std_specs::convert::FromSpec<HashMap<u64, String>>>::from_spec(
            m,
        )@ == source_texts(m@),
{
}

} // verus!
