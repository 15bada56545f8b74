//! Asset loading states and the bookkeeping of asset requests: which path
//! was given which handle, and what state each requested asset is in.

use std::collections::HashMap;
use vstd::prelude::*;

verus! {

broadcast use vstd::std_specs::hash::group_hash_axioms;

pub type AssetHandle = u64;

pub enum AssetState<T> {
    Loading,
    Ready(T),
    Failed(String),
}

/// The state an asset reaches when its load finishes with `result`.
pub open spec fn finished_state<T>(result: Result<T, String>) -> AssetState<T> {
    match result {
        Ok(v) => AssetState::Ready(v),
        Err(e) => AssetState::Failed(e),
    }
}

/// Requested paths and the handles they were given; each path occurs once.
struct PathTable {
    entries: Vec<(String, AssetHandle)>,
}

impl PathTable {
    /// The handle of each requested path.
    closed spec fn view(&self) -> Map<Seq<char>, AssetHandle> {
        Map::new(
            |p: Seq<char>| exists|i: int| 0 <= i < self.entries@.len() && #[trigger] self.entries@[i].0@ == p,
            |p: Seq<char>| {
                let i = choose|i: int| 0 <= i < self.entries@.len() && #[trigger] self.entries@[i].0@ == p;
                self.entries@[i].1
            },
        )
    }

    closed spec fn wf(&self) -> bool {
        forall|i: int, j: int|
            0 <= i < j < self.entries@.len() ==> #[trigger] self.entries@[i].0@ != #[trigger] self.entries@[j].0@
    }

    fn new() -> (table: Self)
        ensures
            table.wf(),
            table.view() == Map::<Seq<char>, AssetHandle>::empty(),
    {
        let table = PathTable { entries: Vec::new() };
        assert(table.view() =~= Map::<Seq<char>, AssetHandle>::empty());
        table
    }

    proof fn lemma_view_at(&self, i: int)
        requires
            self.wf(),
            0 <= i < self.entries@.len(),
        ensures
            self.view().contains_key(self.entries@[i].0@),
            self.view()[self.entries@[i].0@] == self.entries@[i].1,
    {
        let p = self.entries@[i].0@;
        let k = choose|k: int| 0 <= k < self.entries@.len() && #[trigger] self.entries@[k].0@ == p;
        assert(k == i);
    }

    /// The handle given to `path`, if it was requested.
    fn lookup(&self, path: &String) -> (found: Option<AssetHandle>)
        requires
            self.wf(),
        ensures
            self.view().contains_key(path@) ==> found == Some(self.view()[path@]),
            !self.view().contains_key(path@) ==> found is None,
    {
        let n = self.entries.len();
        let mut i: usize = 0;
        while i < n
            invariant
                self.wf(),
                n == self.entries@.len(),
                0 <= i <= n,
                forall|j: int| 0 <= j < i ==> self.entries@[j].0@ != path@,
            decreases n - i,
        {
            if self.entries[i].0 == *path {
                proof {
                    self.lemma_view_at(i as int);
                }
                return Some(self.entries[i].1);
            }
            i = i + 1;
        }
        None
    }

    /// Records that `path` was given `handle`.
    fn add(&mut self, path: String, handle: AssetHandle)
        requires
            old(self).wf(),
            !old(self).view().contains_key(path@),
        ensures
            final(self).wf(),
            final(self).view() == old(self).view().insert(path@, handle),
    {
        let ghost p = path@;
        let ghost before = self.entries@;
        self.entries.push((path, handle));
        proof {
            assert forall|i: int| 0 <= i < before.len() implies before[i].0@ != p by {
                if before[i].0@ == p {
                    assert(old(self).view().contains_key(p));
                }
            }
            assert forall|i: int, j: int| 0 <= i < j < self.entries@.len() implies #[trigger] self.entries@[i].0@
                != #[trigger] self.entries@[j].0@ by {
                if j < before.len() {
                    assert(self.entries@[i] == before[i]);
                    assert(self.entries@[j] == before[j]);
                } else {
                    assert(self.entries@[i] == before[i]);
                }
            }
            assert forall|q: Seq<char>| #[trigger] self.view().contains_key(q) == old(self).view().insert(p, handle).contains_key(q) by {
                if old(self).view().contains_key(q) {
                    let i = choose|i: int| 0 <= i < before.len() && #[trigger] before[i].0@ == q;
                    assert(self.entries@[i] == before[i]);
                }
                if self.view().contains_key(q) && q != p {
                    let i = choose|i: int| 0 <= i < self.entries@.len() && #[trigger] self.entries@[i].0@ == q;
                    assert(i < before.len());
                    assert(self.entries@[i] == before[i]);
                }
                if q == p {
                    assert(self.entries@[before.len() as int].0@ == p);
                }
            }
            assert forall|q: Seq<char>| #[trigger] self.view().contains_key(q) implies self.view()[q] == old(self).view().insert(p, handle)[q] by {
                let i = choose|i: int| 0 <= i < self.entries@.len() && #[trigger] self.entries@[i].0@ == q;
                self.lemma_view_at(i);
                if i < before.len() {
                    assert(self.entries@[i] == before[i]);
                    old(self).lemma_view_at(i);
                }
            }
            assert(self.view() =~= old(self).view().insert(p, handle));
        }
    }
}

/// The bookkeeping of asset loads: each requested path gets a handle once,
/// and each handle's asset is loading, ready or failed.
pub struct AssetRegistry<M> {
    next_handle: AssetHandle,
    models: HashMap<AssetHandle, AssetState<M>>,
    textures: HashMap<AssetHandle, AssetState<Vec<u8>>>,
    model_paths: PathTable,
    texture_paths: PathTable,
}

impl<M> AssetRegistry<M> {
    /// The handle the next new request receives.
    pub closed spec fn spec_next_handle(&self) -> AssetHandle {
        self.next_handle
    }

    /// The state of each model by handle.
    pub closed spec fn model_states(&self) -> Map<AssetHandle, AssetState<M>> {
        self.models@
    }

    /// The state of each texture by handle.
    pub closed spec fn texture_states(&self) -> Map<AssetHandle, AssetState<Vec<u8>>> {
        self.textures@
    }

    /// The handle of each requested model path.
    pub closed spec fn model_handles(&self) -> Map<Seq<char>, AssetHandle> {
        self.model_paths.view()
    }

    /// The handle of each requested texture path.
    pub closed spec fn texture_handles(&self) -> Map<Seq<char>, AssetHandle> {
        self.texture_paths.view()
    }

    /// Every handle given out is below the next one, and no two requested
    /// paths, model or texture, share a handle.
    pub closed spec fn wf(&self) -> bool {
        let mh = self.model_paths.view();
        let th = self.texture_paths.view();
        &&& self.model_paths.wf()
        &&& self.texture_paths.wf()
        &&& forall|p: Seq<char>| #[trigger] mh.contains_key(p) ==> mh[p] < self.next_handle
        &&& forall|p: Seq<char>| #[trigger] th.contains_key(p) ==> th[p] < self.next_handle
        &&& forall|p: Seq<char>, q: Seq<char>|
            #![trigger mh.contains_key(p), mh.contains_key(q)]
            mh.contains_key(p) && mh.contains_key(q) && p != q ==> mh[p] != mh[q]
        &&& forall|p: Seq<char>, q: Seq<char>|
            #![trigger th.contains_key(p), th.contains_key(q)]
            th.contains_key(p) && th.contains_key(q) && p != q ==> th[p] != th[q]
        &&& forall|p: Seq<char>, q: Seq<char>|
            #![trigger mh.contains_key(p), th.contains_key(q)]
            mh.contains_key(p) && th.contains_key(q) ==> mh[p] != th[q]
    }

    /// An empty registry; the first handle is 1.
    pub fn new() -> (registry: Self)
        ensures
            registry.wf(),
            registry.spec_next_handle() == 1,
            registry.model_states() == Map::<AssetHandle, AssetState<M>>::empty(),
            registry.texture_states() == Map::<AssetHandle, AssetState<Vec<u8>>>::empty(),
            registry.model_handles() == Map::<Seq<char>, AssetHandle>::empty(),
            registry.texture_handles() == Map::<Seq<char>, AssetHandle>::empty(),
    {
        AssetRegistry {
            next_handle: 1,
            models: HashMap::new(),
            textures: HashMap::new(),
            model_paths: PathTable::new(),
            texture_paths: PathTable::new(),
        }
    }

    /// The handle the next new request receives.
    pub fn next_handle(&self) -> (handle: AssetHandle)
        ensures
            handle == self.spec_next_handle(),
    {
        self.next_handle
    }

    /// The handle given to the model at `path`, if it was requested.
    pub fn model_handle(&self, path: &String) -> (handle: Option<AssetHandle>)
        requires
            self.wf(),
        ensures
            self.model_handles().contains_key(path@) ==> handle == Some(self.model_handles()[path@]),
            !self.model_handles().contains_key(path@) ==> handle is None,
    {
        self.model_paths.lookup(path)
    }

    /// The handle given to the texture at `path`, if it was requested.
    pub fn texture_handle(&self, path: &String) -> (handle: Option<AssetHandle>)
        requires
            self.wf(),
        ensures
            self.texture_handles().contains_key(path@) ==> handle == Some(self.texture_handles()[path@]),
            !self.texture_handles().contains_key(path@) ==> handle is None,
    {
        self.texture_paths.lookup(path)
    }

    /// Requests the model at `path`: a path requested before keeps its
    /// handle; a new one gets the next handle and starts loading. Returns the
    /// handle and whether a load must be started.
    pub fn request_model(&mut self, path: String) -> (result: (AssetHandle, bool))
        requires
            old(self).wf(),
            old(self).model_handles().contains_key(path@) || old(self).spec_next_handle() < u64::MAX,
        ensures
            final(self).wf(),
            final(self).texture_states() == old(self).texture_states(),
            final(self).texture_handles() == old(self).texture_handles(),
            old(self).model_handles().contains_key(path@) ==> {
                &&& result == (old(self).model_handles()[path@], false)
                &&& *final(self) == *old(self)
            },
            !old(self).model_handles().contains_key(path@) ==> {
                &&& result == (old(self).spec_next_handle(), true)
                &&& final(self).spec_next_handle() == old(self).spec_next_handle() + 1
                &&& final(self).model_states() == old(self).model_states().insert(
                    result.0,
                    AssetState::Loading,
                )
                &&& final(self).model_handles() == old(self).model_handles().insert(path@, result.0)
            },
    {
        match self.model_paths.lookup(&path) {
            Some(existing) => (existing, false),
            None => {
                let handle = self.next_handle;
                self.next_handle = self.next_handle + 1;
                self.models.insert(handle, AssetState::Loading);
                self.model_paths.add(path, handle);
                (handle, true)
            },
        }
    }

    /// Requests the texture at `path`: a path requested before keeps its
    /// handle; a new one gets the next handle and starts loading. Returns the
    /// handle and whether a load must be started.
    pub fn request_texture(&mut self, path: String) -> (result: (AssetHandle, bool))
        requires
            old(self).wf(),
            old(self).texture_handles().contains_key(path@) || old(self).spec_next_handle() < u64::MAX,
        ensures
            final(self).wf(),
            final(self).model_states() == old(self).model_states(),
            final(self).model_handles() == old(self).model_handles(),
            old(self).texture_handles().contains_key(path@) ==> {
                &&& result == (old(self).texture_handles()[path@], false)
                &&& *final(self) == *old(self)
            },
            !old(self).texture_handles().contains_key(path@) ==> {
                &&& result == (old(self).spec_next_handle(), true)
                &&& final(self).spec_next_handle() == old(self).spec_next_handle() + 1
                &&& final(self).texture_states() == old(self).texture_states().insert(
                    result.0,
                    AssetState::Loading,
                )
                &&& final(self).texture_handles() == old(self).texture_handles().insert(path@, result.0)
            },
    {
        match self.texture_paths.lookup(&path) {
            Some(existing) => (existing, false),
            None => {
                let handle = self.next_handle;
                self.next_handle = self.next_handle + 1;
                self.textures.insert(handle, AssetState::Loading);
                self.texture_paths.add(path, handle);
                (handle, true)
            },
        }
    }

    /// Records the outcome of loading the model of `handle`.
    pub fn finish_model(&mut self, handle: AssetHandle, result: Result<M, String>)
        requires
            old(self).wf(),
        ensures
            final(self).wf(),
            final(self).model_states() == old(self).model_states().insert(handle, finished_state(result)),
            final(self).texture_states() == old(self).texture_states(),
            final(self).model_handles() == old(self).model_handles(),
            final(self).texture_handles() == old(self).texture_handles(),
            final(self).spec_next_handle() == old(self).spec_next_handle(),
    {
        let state = match result {
            Ok(model) => AssetState::Ready(model),
            Err(e) => AssetState::Failed(e),
        };
        self.models.insert(handle, state);
    }

    /// Records the outcome of loading the texture of `handle`.
    pub fn finish_texture(&mut self, handle: AssetHandle, result: Result<Vec<u8>, String>)
        requires
            old(self).wf(),
        ensures
            final(self).wf(),
            final(self).texture_states() == old(self).texture_states().insert(handle, finished_state(result)),
            final(self).model_states() == old(self).model_states(),
            final(self).model_handles() == old(self).model_handles(),
            final(self).texture_handles() == old(self).texture_handles(),
            final(self).spec_next_handle() == old(self).spec_next_handle(),
    {
        let state = match result {
            Ok(bytes) => AssetState::Ready(bytes),
            Err(e) => AssetState::Failed(e),
        };
        self.textures.insert(handle, state);
    }

    /// The state of the model of `handle`, if it was ever requested or
    /// finished.
    pub fn get_model(&self, handle: AssetHandle) -> (state: Option<&AssetState<M>>)
        ensures
            self.model_states().contains_key(handle) ==> state == Some(&self.model_states()[handle]),
            !self.model_states().contains_key(handle) ==> state is None,
    {
        self.models.get(&handle)
    }

    /// The state of the texture of `handle`, if it was ever requested or
    /// finished.
    pub fn get_texture(&self, handle: AssetHandle) -> (state: Option<&AssetState<Vec<u8>>>)
        ensures
            self.texture_states().contains_key(handle) ==> state == Some(&self.texture_states()[handle]),
            !self.texture_states().contains_key(handle) ==> state is None,
    {
        self.textures.get(&handle)
    }

    /// Handles identify assets: two different requested paths, whether of
    /// models or of textures, never share a handle, and every handle given
    /// out is below the next one.
    pub proof fn lemma_handles_distinct(&self, p: Seq<char>, q: Seq<char>)
        requires
            self.wf(),
        ensures
            self.model_handles().contains_key(p) && self.model_handles().contains_key(q) && p != q
                ==> self.model_handles()[p] != self.model_handles()[q],
            self.texture_handles().contains_key(p) && self.texture_handles().contains_key(q) && p != q
                ==> self.texture_handles()[p] != self.texture_handles()[q],
            self.model_handles().contains_key(p) && self.texture_handles().contains_key(q)
                ==> self.model_handles()[p] != self.texture_handles()[q],
            self.model_handles().contains_key(p) ==> self.model_handles()[p] < self.spec_next_handle(),
            self.texture_handles().contains_key(p) ==> self.texture_handles()[p] < self.spec_next_handle(),
    {
    }
}

} // verus!
