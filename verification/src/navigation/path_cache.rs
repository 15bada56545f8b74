//! Cache of computed paths between world locations.

use crate::navigation::world_graph::LocationId;
use std::collections::HashMap;
use vstd::prelude::*;

verus! {

broadcast use vstd::std_specs::hash::group_hash_axioms;

/// The packed key of the route from `from` to `to`.
pub open spec fn route_key(from: u32, to: u32) -> u64 {
    ((from as u64) << 32u64) | (to as u64)
}

/// Routes with different endpoints have different keys.
pub proof fn lemma_route_key_injective(a: u32, b: u32, c: u32, d: u32)
    ensures
        route_key(a, b) == route_key(c, d) ==> a == c && b == d,
{
    assert(((((a as u64) << 32u64) | (b as u64)) == (((c as u64) << 32u64) | (d as u64))) ==> a == c
        && b == d) by (bit_vector);
}

pub struct PathCache {
    cache: HashMap<u64, Vec<LocationId>>,
}

impl PathCache {
    /// The cached path of each route.
    pub closed spec fn paths(&self) -> Map<(u32, u32), Seq<LocationId>> {
        Map::new(
            |r: (u32, u32)| self.cache@.contains_key(route_key(r.0, r.1)),
            |r: (u32, u32)| self.cache@[route_key(r.0, r.1)]@,
        )
    }

    pub fn new() -> (cache: Self)
        ensures
            cache.paths() == Map::<(u32, u32), Seq<LocationId>>::empty(),
    {
        let cache = PathCache { cache: HashMap::new() };
        assert(cache.paths() =~= Map::<(u32, u32), Seq<LocationId>>::empty());
        cache
    }

    fn key(from: LocationId, to: LocationId) -> (k: u64)
        ensures
            k == route_key(from, to),
    {
        ((from as u64) << 32u64) | (to as u64)
    }

    pub fn get(&self, from: LocationId, to: LocationId) -> (path: Option<&[LocationId]>)
        ensures
            self.paths().contains_key((from, to)) ==> (path matches Some(p) && p@ == self.paths()[(
                from,
                to,
            )]),
            !self.paths().contains_key((from, to)) ==> path is None,
    {
        match self.cache.get(&Self::key(from, to)) {
            Some(v) => Some(v.as_slice()),
            None => None,
        }
    }

    pub fn store(&mut self, from: LocationId, to: LocationId, path: Vec<LocationId>)
        ensures
            final(self).paths() == old(self).paths().insert((from, to), path@),
    {
        let k = Self::key(from, to);
        self.cache.insert(k, path);
        proof {
            assert forall|r: (u32, u32)| #[trigger] self.paths().contains_key(r) == old(self).paths().insert((from, to), path@).contains_key(r) by {
                lemma_route_key_injective(r.0, r.1, from, to);
            }
            assert forall|r: (u32, u32)| #[trigger] self.paths().contains_key(r) implies self.paths()[r] == old(self).paths().insert((from, to), path@)[r] by {
                lemma_route_key_injective(r.0, r.1, from, to);
            }
            assert(self.paths() =~= old(self).paths().insert((from, to), path@));
        }
    }
}

} // verus!
