//! Storage of WGSL shader sources by name.

use vstd::prelude::*;

verus! {

/// Shader source storage
#[derive(Clone, Debug)]
pub struct ShaderSources {
    /// Name and WGSL source code of each shader; each name occurs once.
    shaders: Vec<(String, String)>,
}

impl ShaderSources {
    /// The source of each shader by name.
    pub closed spec fn view(&self) -> Map<Seq<char>, Seq<char>> {
        Map::new(
            |name: Seq<char>| exists|i: int| 0 <= i < self.shaders@.len() && #[trigger] self.shaders@[i].0@ == name,
            |name: Seq<char>| {
                let i = choose|i: int| 0 <= i < self.shaders@.len() && #[trigger] self.shaders@[i].0@ == name;
                self.shaders@[i].1@
            },
        )
    }

    pub closed spec fn wf(&self) -> bool {
        forall|i: int, j: int|
            0 <= i < j < self.shaders@.len() ==> #[trigger] self.shaders@[i].0@ != #[trigger] self.shaders@[j].0@
    }

    /// Finds the position of the shader named `key`.
    fn position(&self, key: &String) -> (pos: Option<usize>)
        requires
            self.wf(),
        ensures
            match pos {
                Some(i) => i < self.shaders@.len() && self.shaders@[i as int].0@ == key@,
                None => !self.view().contains_key(key@),
            },
    {
        let n = self.shaders.len();
        let mut i: usize = 0;
        while i < n
            invariant
                n == self.shaders@.len(),
                0 <= i <= n,
                forall|j: int| 0 <= j < i ==> self.shaders@[j].0@ != key@,
            decreases n - i,
        {
            if self.shaders[i].0 == *key {
                return Some(i);
            }
            i = i + 1;
        }
        None
    }

    proof fn lemma_view_at(&self, i: int)
        requires
            self.wf(),
            0 <= i < self.shaders@.len(),
        ensures
            self.view().contains_key(self.shaders@[i].0@),
            self.view()[self.shaders@[i].0@] == self.shaders@[i].1@,
    {
        let name = self.shaders@[i].0@;
        let k = choose|k: int| 0 <= k < self.shaders@.len() && #[trigger] self.shaders@[k].0@ == name;
        assert(k == i);
    }

    /// Get shader source by name, returns None if not found
    pub fn get(&self, name: &str) -> (source: Option<&String>)
        requires
            self.wf(),
        ensures
            self.view().contains_key(name@) ==> (source matches Some(s) && s@ == self.view()[name@]),
            !self.view().contains_key(name@) ==> source is None,
    {
        let key = name.to_string();
        match self.position(&key) {
            Some(i) => {
                proof {
                    self.lemma_view_at(i as int);
                }
                Some(&self.shaders[i].1)
            },
            None => None,
        }
    }

    /// Check if a shader exists
    pub fn has(&self, name: &str) -> (found: bool)
        requires
            self.wf(),
        ensures
            found == self.view().contains_key(name@),
    {
        let key = name.to_string();
        match self.position(&key) {
            Some(i) => {
                proof {
                    self.lemma_view_at(i as int);
                }
                true
            },
            None => false,
        }
    }

    /// Number of loaded shaders
    pub fn count(&self) -> (n: usize)
        requires
            self.wf(),
        ensures
            n == self.view().len(),
    {
        proof {
            self.lemma_len();
        }
        self.shaders.len()
    }

    proof fn lemma_len(&self)
        requires
            self.wf(),
        ensures
            self.view().dom().finite(),
            self.view().len() == self.shaders@.len(),
    {
        let names = self.shaders@.map_values(|p: (String, String)| p.0@);
        assert forall|a: int, b: int| 0 <= a < b < names.len() implies names[a] != names[b] by {
            assert(names[a] == self.shaders@[a].0@);
            assert(names[b] == self.shaders@[b].0@);
        }
        names.unique_seq_to_set();
        assert(self.view().dom() =~= names.to_set()) by {
            assert forall|n: Seq<char>| self.view().dom().contains(n) implies names.to_set().contains(n) by {
                let i = choose|i: int| 0 <= i < self.shaders@.len() && #[trigger] self.shaders@[i].0@ == n;
                assert(names[i] == n);
            }
            assert forall|n: Seq<char>| names.to_set().contains(n) implies self.view().dom().contains(n) by {
                let i = choose|i: int| 0 <= i < names.len() && names[i] == n;
                assert(self.shaders@[i].0@ == n);
            }
        }
    }

    /// Stores the source of shader `name`, replacing any earlier source.
    pub fn insert(&mut self, name: String, source: String)
        requires
            old(self).wf(),
        ensures
            final(self).wf(),
            final(self).view() == old(self).view().insert(name@, source@),
    {
        let ghost nv = name@;
        let ghost sv = source@;
        match self.position(&name) {
            Some(i) => {
                self.shaders.set(i, (name, source));
                proof {
                    assert forall|a: int, b: int| 0 <= a < b < self.shaders@.len() implies #[trigger] self.shaders@[a].0@
                        != #[trigger] self.shaders@[b].0@ by {
                        assert(old(self).shaders@[a].0@ != old(self).shaders@[b].0@);
                    }
                    assert forall|n: Seq<char>| #[trigger] self.view().contains_key(n) == old(self).view().insert(nv, sv).contains_key(n) by {
                        if old(self).view().contains_key(n) {
                            let k = choose|k: int| 0 <= k < old(self).shaders@.len() && #[trigger] old(self).shaders@[k].0@ == n;
                            assert(self.shaders@[k].0@ == n);
                        }
                        if self.view().contains_key(n) {
                            let k = choose|k: int| 0 <= k < self.shaders@.len() && #[trigger] self.shaders@[k].0@ == n;
                            if k != i {
                                assert(old(self).shaders@[k].0@ == n);
                            }
                        }
                    }
                    assert forall|n: Seq<char>| #[trigger] self.view().contains_key(n) implies self.view()[n] == old(self).view().insert(nv, sv)[n] by {
                        let k = choose|k: int| 0 <= k < self.shaders@.len() && #[trigger] self.shaders@[k].0@ == n;
                        self.lemma_view_at(k);
                        if k != i {
                            assert(old(self).shaders@[k] == self.shaders@[k]);
                            old(self).lemma_view_at(k);
                        }
                    }
                    assert(self.view() =~= old(self).view().insert(nv, sv));
                }
            },
            None => {
                self.shaders.push((name, source));
                proof {
                    let n0 = old(self).shaders@.len() as int;
                    assert forall|a: int, b: int| 0 <= a < b < self.shaders@.len() implies #[trigger] self.shaders@[a].0@
                        != #[trigger] self.shaders@[b].0@ by {
                        if b == n0 {
                            assert(old(self).shaders@[a] == self.shaders@[a]);
                            assert(old(self).view().contains_key(self.shaders@[a].0@));
                        } else {
                            assert(old(self).shaders@[a].0@ != old(self).shaders@[b].0@);
                        }
                    }
                    assert forall|n: Seq<char>| #[trigger] self.view().contains_key(n) == old(self).view().insert(nv, sv).contains_key(n) by {
                        if old(self).view().contains_key(n) {
                            let k = choose|k: int| 0 <= k < old(self).shaders@.len() && #[trigger] old(self).shaders@[k].0@ == n;
                            assert(self.shaders@[k].0@ == n);
                        }
                        if n == nv {
                            assert(self.shaders@[n0].0@ == n);
                        }
                        if self.view().contains_key(n) {
                            let k = choose|k: int| 0 <= k < self.shaders@.len() && #[trigger] self.shaders@[k].0@ == n;
                            if k != n0 {
                                assert(old(self).shaders@[k].0@ == n);
                            }
                        }
                    }
                    assert forall|n: Seq<char>| #[trigger] self.view().contains_key(n) implies self.view()[n] == old(self).view().insert(nv, sv)[n] by {
                        let k = choose|k: int| 0 <= k < self.shaders@.len() && #[trigger] self.shaders@[k].0@ == n;
                        self.lemma_view_at(k);
                        if k != n0 {
                            assert(old(self).shaders@[k] == self.shaders@[k]);
                            old(self).lemma_view_at(k);
                        }
                    }
                    assert(self.view() =~= old(self).view().insert(nv, sv));
                }
            },
        }
    }
}

impl Default for ShaderSources {
    fn default() -> (sources: Self)
        ensures
            sources.wf(),
            sources.view() == Map::<Seq<char>, Seq<char>>::empty(),
    {
        let sources = ShaderSources { shaders: Vec::new() };
        assert(sources.view() =~= Map::<Seq<char>, Seq<char>>::empty());
        sources
    }
}

} // verus!
