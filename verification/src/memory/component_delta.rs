//! Per-entity component dirty tracking and component delta encoding.
//!
//! Dirty flags mark which components of which entities changed; deltas carry
//! the changed components as little-endian bytes.

use std::collections::HashMap;
use vstd::prelude::*;
use vstd::std_specs::hash::obeys_key_model;

verus! {

broadcast use vstd::std_specs::hash::group_hash_axioms;

pub const COMP_TRANSFORM: u8 = 0;

pub const NUM_COMPONENT_TYPES: usize = 18;

/// Component bit indices.
pub const TRANSFORM: u8 = 0;

pub const KIND: u8 = 1;

pub const NAME: u8 = 2;

pub const PERSONAL_NEEDS: u8 = 3;

pub const SOCIAL_NEEDS: u8 = 4;

pub const ECOSYSTEM_NEEDS: u8 = 5;

pub const NPC_TRAITS: u8 = 6;

pub const MONSTER_TRAITS: u8 = 7;

pub const NPC_ECONOMY: u8 = 8;

pub const SIM_LEVEL: u8 = 9;

pub const AI_STATE: u8 = 10;

pub const INVENTORY: u8 = 11;

pub const MEMORY: u8 = 12;

pub const EMOTIONS: u8 = 13;

pub const PLAN: u8 = 14;

pub const LIFE_INFO: u8 = 15;

pub const FLAMMABLE: u8 = 16;

pub const CLOTH: u8 = 17;

/// Whether bit `bit` of `word` is set.
pub open spec fn bit_set(word: u32, bit: u8) -> bool {
    word & (1u32 << bit) != 0
}

/// The indices `i` below `flags.len()` for which `keep(flags[i])`, ascending.
pub open spec fn indices_where(flags: Seq<u32>, keep: spec_fn(u32) -> bool) -> Seq<usize>
    decreases flags.len(),
{
    if flags.len() == 0 {
        Seq::empty()
    } else {
        let rest = indices_where(flags.drop_last(), keep);
        if keep(flags.last()) {
            rest.push((flags.len() - 1) as usize)
        } else {
            rest
        }
    }
}

/// The indices kept from `flags` ascend strictly, lie below its length, and
/// are exactly the positions whose word `keep` accepts.
pub proof fn lemma_indices_where(flags: Seq<u32>, keep: spec_fn(u32) -> bool)
    requires
        flags.len() <= usize::MAX,
    ensures
        ({
            let r = indices_where(flags, keep);
            &&& forall|i: int, j: int| 0 <= i < j < r.len() ==> r[i] < r[j]
            &&& forall|i: int| 0 <= i < r.len() ==> #[trigger] r[i] < flags.len() && keep(flags[r[i] as int])
            &&& forall|idx: int| 0 <= idx < flags.len() ==> (r.contains(idx as usize) <==> keep(#[trigger] flags[idx]))
        }),
    decreases flags.len(),
{
    if flags.len() > 0 {
        let p = flags.drop_last();
        lemma_indices_where(p, keep);
        let rest = indices_where(p, keep);
        let r = indices_where(flags, keep);
        assert forall|idx: int| 0 <= idx < flags.len() implies (r.contains(idx as usize) <==> keep(#[trigger] flags[idx])) by {
            if idx < p.len() {
                assert(flags[idx] == p[idx]);
                if r.contains(idx as usize) {
                    let i = choose|i: int| 0 <= i < r.len() && r[i] == idx as usize;
                    if i < rest.len() {
                        assert(rest[i] == r[i]);
                        assert(rest.contains(idx as usize));
                    }
                }
                if rest.contains(idx as usize) {
                    let i = choose|i: int| 0 <= i < rest.len() && rest[i] == idx as usize;
                    assert(r[i] == rest[i]);
                }
            } else {
                if keep(flags.last()) {
                    assert(r[r.len() - 1] == idx as usize);
                } else if r.contains(idx as usize) {
                    let i = choose|i: int| 0 <= i < r.len() && r[i] == idx as usize;
                    assert(rest[i] < p.len());
                }
            }
        }
        assert forall|i: int| 0 <= i < r.len() implies #[trigger] r[i] < flags.len() && keep(flags[r[i] as int]) by {
            if i < rest.len() {
                assert(r[i] == rest[i]);
                assert(flags[rest[i] as int] == p[rest[i] as int]);
            }
        }
    }
}

/// `a` is `b` with some elements left out, the rest in order.
pub open spec fn is_subsequence(a: Seq<usize>, b: Seq<usize>) -> bool
    decreases b.len(),
{
    if a.len() == 0 {
        true
    } else if b.len() == 0 {
        false
    } else if a.last() == b.last() && is_subsequence(a.drop_last(), b.drop_last()) {
        true
    } else {
        is_subsequence(a, b.drop_last())
    }
}

/// The entities dirty in one component are a subsequence of the dirty
/// entities: a slot with any component bit set has a nonzero word.
pub proof fn lemma_component_dirty_subsequence(flags: Seq<u32>, bit: u8)
    ensures
        is_subsequence(
            indices_where(flags, |f: u32| bit_set(f, bit)),
            indices_where(flags, |f: u32| f != 0),
        ),
    decreases flags.len(),
{
    let r = indices_where(flags, |f: u32| bit_set(f, bit));
    let d = indices_where(flags, |f: u32| f != 0);
    if flags.len() > 0 {
        let p = flags.drop_last();
        let rr = indices_where(p, |f: u32| bit_set(f, bit));
        let dd = indices_where(p, |f: u32| f != 0);
        lemma_component_dirty_subsequence(p, bit);
        let w = flags.last();
        assert(w & (1u32 << bit) != 0 ==> w != 0) by (bit_vector);
        if bit_set(w, bit) {
            assert(r == rr.push((flags.len() - 1) as usize));
            assert(d == dd.push((flags.len() - 1) as usize));
            assert(r.drop_last() =~= rr);
            assert(d.drop_last() =~= dd);
        } else if w != 0 {
            assert(r == rr);
            assert(d.drop_last() =~= dd);
        } else {
            assert(r == rr);
            assert(d == dd);
        }
    }
}

pub struct DirtyFlags {
    flags: Vec<u32>,
}

impl DirtyFlags {
    /// The flag word of every entity slot.
    pub closed spec fn words(&self) -> Seq<u32> {
        self.flags@
    }

    /// Whether component `bit` of entity `entity_idx` is marked.
    pub open spec fn marked(&self, entity_idx: int, bit: u8) -> bool {
        0 <= entity_idx < self.words().len() && bit_set(self.words()[entity_idx], bit)
    }

    pub fn new(capacity: usize) -> (flags: Self)
        ensures
            flags.words() == Seq::new(capacity as nat, |i: int| 0u32),
    {
        let flags = vec![0u32; capacity];
        assert(flags@ =~= Seq::new(capacity as nat, |i: int| 0u32));
        DirtyFlags { flags }
    }

    pub fn default_capacity() -> (flags: Self)
        ensures
            flags.words() == Seq::new(16384, |i: int| 0u32),
    {
        Self::new(16384)
    }

    pub fn mark(&mut self, entity_idx: usize, component_bit: u8)
        requires
            entity_idx < old(self).words().len() ==> component_bit < 32,
        ensures
            entity_idx < old(self).words().len() ==> final(self).words() == old(self).words().update(
                entity_idx as int,
                old(self).words()[entity_idx as int] | (1u32 << component_bit),
            ),
            entity_idx >= old(self).words().len() ==> final(self).words() == old(self).words(),
    {
        if entity_idx < self.flags.len() {
            let word = self.flags[entity_idx] | (1u32 << component_bit);
            self.flags.set(entity_idx, word);
        }
    }

    pub fn is_dirty(&self, entity_idx: usize, component_bit: u8) -> (dirty: bool)
        requires
            entity_idx < self.words().len() ==> component_bit < 32,
        ensures
            dirty == self.marked(entity_idx as int, component_bit),
    {
        if entity_idx >= self.flags.len() {
            return false;
        }
        (self.flags[entity_idx] & (1u32 << component_bit)) != 0
    }

    pub fn any_dirty(&self, entity_idx: usize) -> (dirty: bool)
        ensures
            dirty == (entity_idx < self.words().len() && self.words()[entity_idx as int] != 0),
    {
        entity_idx < self.flags.len() && self.flags[entity_idx] != 0
    }

    pub fn clear_all(&mut self)
        ensures
            final(self).words() == Seq::new(old(self).words().len(), |i: int| 0u32),
    {
        let n = self.flags.len();
        let mut i: usize = 0;
        while i < n
            invariant
                n == self.flags@.len(),
                0 <= i <= n,
                n == old(self).flags@.len(),
                forall|j: int| 0 <= j < i ==> self.flags@[j] == 0,
            decreases n - i,
        {
            self.flags.set(i, 0);
            i = i + 1;
        }
        assert(self.flags@ =~= Seq::new(old(self).words().len(), |i: int| 0u32));
    }

    pub fn ensure_capacity(&mut self, cap: usize)
        ensures
            cap > old(self).words().len() ==> final(self).words() == old(self).words() + Seq::new(
                (cap - old(self).words().len()) as nat,
                |i: int| 0u32,
            ),
            cap <= old(self).words().len() ==> final(self).words() == old(self).words(),
    {
        if cap > self.flags.len() {
            self.flags.resize(cap, 0);
            assert(self.flags@ =~= old(self).flags@ + Seq::new(
                (cap - old(self).flags@.len()) as nat,
                |i: int| 0u32,
            ));
        }
    }

    /// A flag table has at most as many slots as a `usize` counts.
    pub proof fn lemma_words_fit(&self)
        ensures
            self.words().len() <= usize::MAX,
    {
        vstd::std_specs::vec::axiom_spec_len(&self.flags);
    }

    pub fn dirty_entities(&self) -> (indices: Vec<usize>)
        ensures
            indices@ == indices_where(self.words(), |f: u32| f != 0),
            forall|i: int, j: int| 0 <= i < j < indices@.len() ==> indices@[i] < indices@[j],
            forall|idx: int|
                0 <= idx < self.words().len() ==> (indices@.contains(idx as usize) <==> #[trigger] self.words()[idx]
                    != 0),
    {
        proof {
            self.lemma_words_fit();
            lemma_indices_where(self.flags@, |f: u32| f != 0);
        }
        let mut out: Vec<usize> = Vec::new();
        let n = self.flags.len();
        let mut i: usize = 0;
        while i < n
            invariant
                n == self.flags@.len(),
                0 <= i <= n,
                out@ == indices_where(self.flags@.take(i as int), |f: u32| f != 0),
            decreases n - i,
        {
            assert(self.flags@.take(i + 1).drop_last() =~= self.flags@.take(i as int));
            if self.flags[i] != 0 {
                out.push(i);
            }
            i = i + 1;
        }
        assert(self.flags@.take(n as int) =~= self.flags@);
        out
    }

    pub fn component_bits(&self, entity_idx: usize) -> (bits: u32)
        ensures
            bits == (if entity_idx < self.words().len() {
                self.words()[entity_idx as int]
            } else {
                0
            }),
    {
        if entity_idx < self.flags.len() {
            self.flags[entity_idx]
        } else {
            0
        }
    }

    pub fn dirty_entities_for(&self, component_bit: u8) -> (indices: Vec<usize>)
        requires
            self.words().len() > 0 ==> component_bit < 32,
        ensures
            indices@ == indices_where(self.words(), |f: u32| bit_set(f, component_bit)),
            forall|i: int, j: int| 0 <= i < j < indices@.len() ==> indices@[i] < indices@[j],
            forall|idx: int|
                0 <= idx < self.words().len() ==> (indices@.contains(idx as usize) <==> #[trigger] self.marked(
                    idx,
                    component_bit,
                )),
            forall|i: int| 0 <= i < indices@.len() ==> #[trigger] self.words()[indices@[i] as int] != 0,
            is_subsequence(indices@, indices_where(self.words(), |f: u32| f != 0)),
    {
        proof {
            lemma_component_dirty_subsequence(self.flags@, component_bit);
            self.lemma_words_fit();
            lemma_indices_where(self.flags@, |f: u32| bit_set(f, component_bit));
            assert forall|w: u32| #[trigger] bit_set(w, component_bit) implies w != 0 by {
                assert(w & (1u32 << component_bit) != 0 ==> w != 0) by (bit_vector);
            }
        }
        let mut out: Vec<usize> = Vec::new();
        let n = self.flags.len();
        let mut i: usize = 0;
        while i < n
            invariant
                n == self.flags@.len(),
                n > 0 ==> component_bit < 32,
                0 <= i <= n,
                out@ == indices_where(self.flags@.take(i as int), |f: u32| bit_set(f, component_bit)),
            decreases n - i,
        {
            assert(self.flags@.take(i + 1).drop_last() =~= self.flags@.take(i as int));
            if (self.flags[i] & (1u32 << component_bit)) != 0 {
                out.push(i);
            }
            i = i + 1;
        }
        assert(self.flags@.take(n as int) =~= self.flags@);
        out
    }

    pub fn clear(&mut self)
        ensures
            final(self).words() == Seq::new(old(self).words().len(), |i: int| 0u32),
    {
        self.clear_all();
    }
}

impl Default for DirtyFlags {
    fn default() -> (flags: Self)
        ensures
            flags.words() == Seq::new(16384, |i: int| 0u32),
    {
        Self::default_capacity()
    }
}

/// Setting bit `b` of a word sets that bit and leaves every other bit as it was.
pub proof fn lemma_mark_sets_only_that_bit(word: u32, b: u8, c: u8)
    requires
        b < 32,
        c < 32,
    ensures
        bit_set(word | (1u32 << b), c) == (c == b || bit_set(word, c)),
{
    assert(bit_set(word | (1u32 << b), c) == (c == b || bit_set(word, c))) by (bit_vector)
        requires
            b < 32,
            c < 32,
    ;
}

/// A cleared word has no bit set.
pub proof fn lemma_cleared_word_has_no_bit(c: u8)
    requires
        c < 32,
    ensures
        !bit_set(0u32, c),
{
    assert(!bit_set(0u32, c)) by (bit_vector)
        requires
            c < 32,
    ;
}

/// Entity identifiers.
pub type Entity = u64;

/// A transform as it is stored and encoded: the bit patterns of its `x` and
/// `y` positions, and its cell.
#[derive(Clone, Copy, Debug, PartialEq, Eq)]
pub struct Transform {
    pub x_bits: u32,
    pub y_bits: u32,
    pub cell_x: u32,
    pub cell_y: u32,
}

/// Personal needs as stored: the bit pattern of each need.
#[derive(Clone, Copy, Debug, PartialEq, Eq)]
pub struct PersonalNeeds {
    pub hunger_bits: u32,
    pub thirst_bits: u32,
    pub sleep_bits: u32,
    pub health_bits: u32,
    pub energy_bits: u32,
    pub fear_bits: u32,
}

/// Component storage keyed by entity.
pub struct SparseSet<T> {
    items: HashMap<Entity, T>,
}

impl<T> SparseSet<T> {
    /// The stored components by entity.
    pub closed spec fn contents(&self) -> Map<Entity, T> {
        self.items@
    }

    pub fn new() -> (set: Self)
        ensures
            set.contents() == Map::<Entity, T>::empty(),
    {
        SparseSet { items: HashMap::new() }
    }

    pub fn get(&self, entity: &Entity) -> (found: Option<&T>)
        ensures
            found == (if self.contents().contains_key(*entity) {
                Some(&self.contents()[*entity])
            } else {
                None
            }),
    {
        self.items.get(entity)
    }

    pub fn insert(&mut self, entity: Entity, value: T)
        ensures
            final(self).contents() == old(self).contents().insert(entity, value),
    {
        self.items.insert(entity, value);
    }
}

/// The component stores that deltas are collected from.
pub struct Ecs {
    pub transforms: SparseSet<Transform>,
    pub personal_needs: SparseSet<PersonalNeeds>,
}

#[derive(Clone, Debug)]
pub struct ComponentDelta {
    pub component_type_id: u16,
    pub entity_ids: Vec<Entity>,
    pub data: Vec<u8>,
}

/// The little-endian bytes of `w`.
pub open spec fn le_bytes(w: u32) -> Seq<u8> {
    seq![
        (w % 256) as u8,
        ((w / 256) % 256) as u8,
        ((w / 65536) % 256) as u8,
        (w / 16777216) as u8,
    ]
}

/// The word whose little-endian bytes start at `data[off]`.
pub open spec fn le_word_at(data: Seq<u8>, off: int) -> u32 {
    (data[off] + 256 * data[off + 1] + 65536 * data[off + 2] + 16777216 * data[off + 3]) as u32
}

/// The encoding of a transform: `x`, `y`, cell `x`, cell `y`.
pub open spec fn transform_bytes(t: Transform) -> Seq<u8> {
    le_bytes(t.x_bits) + le_bytes(t.y_bits) + le_bytes(t.cell_x) + le_bytes(t.cell_y)
}

/// The encoding of personal needs: hunger, thirst, health, energy, fear.
pub open spec fn needs_bytes(n: PersonalNeeds) -> Seq<u8> {
    le_bytes(n.hunger_bits) + le_bytes(n.thirst_bits) + le_bytes(n.health_bits) + le_bytes(
        n.energy_bits,
    ) + le_bytes(n.fear_bits)
}

/// The transform encoded at `data[off..off + 16]`.
pub open spec fn transform_at(data: Seq<u8>, off: int) -> Transform {
    Transform {
        x_bits: le_word_at(data, off),
        y_bits: le_word_at(data, off + 4),
        cell_x: le_word_at(data, off + 8),
        cell_y: le_word_at(data, off + 12),
    }
}

/// The entities at the positions of `entities` whose flag word in `dirty`
/// has `bit` set and that have a component in `present`, in order.
pub open spec fn dirty_present(dirty: Seq<u32>, entities: Seq<Entity>, bit: u8, present: Set<Entity>) -> Seq<
    Entity,
>
    decreases entities.len(),
{
    if entities.len() == 0 {
        Seq::empty()
    } else {
        let i = entities.len() - 1;
        let rest = dirty_present(dirty, entities.drop_last(), bit, present);
        if i < dirty.len() && bit_set(dirty[i], bit) && present.contains(entities[i]) {
            rest.push(entities[i])
        } else {
            rest
        }
    }
}

/// The entities named by `indices` that have a component in `present`.
pub open spec fn present_indices(indices: Seq<usize>, present: Set<Entity>) -> Seq<Entity>
    decreases indices.len(),
{
    if indices.len() == 0 {
        Seq::empty()
    } else {
        let rest = present_indices(indices.drop_last(), present);
        let e = indices.last() as Entity;
        if present.contains(e) {
            rest.push(e)
        } else {
            rest
        }
    }
}

/// The concatenated transform encodings of `ids` in `store`.
pub open spec fn transform_stream(ids: Seq<Entity>, store: Map<Entity, Transform>) -> Seq<u8>
    decreases ids.len(),
{
    if ids.len() == 0 {
        Seq::empty()
    } else {
        transform_stream(ids.drop_last(), store) + transform_bytes(store[ids.last()])
    }
}

/// The concatenated needs encodings of `ids` in `store`.
pub open spec fn needs_stream(ids: Seq<Entity>, store: Map<Entity, PersonalNeeds>) -> Seq<u8>
    decreases ids.len(),
{
    if ids.len() == 0 {
        Seq::empty()
    } else {
        needs_stream(ids.drop_last(), store) + needs_bytes(store[ids.last()])
    }
}

/// `store` after the first `n` records of a transform delta are written.
pub open spec fn applied_transforms(
    store: Map<Entity, Transform>,
    ids: Seq<Entity>,
    data: Seq<u8>,
    n: nat,
) -> Map<Entity, Transform>
    decreases n,
{
    if n == 0 {
        store
    } else {
        applied_transforms(store, ids, data, (n - 1) as nat).insert(
            ids[n - 1],
            transform_at(data, 16 * (n - 1)),
        )
    }
}

/// How many records of a transform delta are complete.
pub open spec fn complete_records(delta: ComponentDelta) -> nat {
    let by_bytes = delta.data@.len() / 16;
    if delta.entity_ids@.len() < by_bytes {
        delta.entity_ids@.len()
    } else {
        by_bytes
    }
}

/// Decoding the little-endian bytes of a word gives the word back.
pub proof fn lemma_le_roundtrip(w: u32)
    ensures
        le_word_at(le_bytes(w), 0) == w,
{
    let b = le_bytes(w);
    assert(b[0] + 256 * b[1] + 65536 * b[2] + 16777216 * b[3] == w) by (nonlinear_arith)
        requires
            b[0] == w % 256,
            b[1] == (w / 256) % 256,
            b[2] == (w / 65536) % 256,
            b[3] == w / 16777216,
            w < 0x1_0000_0000,
    ;
}

/// Each record of a transform stream is 16 bytes long.
pub proof fn lemma_transform_stream_len(ids: Seq<Entity>, store: Map<Entity, Transform>)
    ensures
        transform_stream(ids, store).len() == 16 * ids.len(),
    decreases ids.len(),
{
    if ids.len() > 0 {
        lemma_transform_stream_len(ids.drop_last(), store);
    }
}

/// The `k`-th record of a transform stream decodes to the transform of the
/// `k`-th entity.
pub proof fn lemma_transform_stream_decodes(ids: Seq<Entity>, store: Map<Entity, Transform>, k: int)
    requires
        0 <= k < ids.len(),
    ensures
        transform_at(transform_stream(ids, store), 16 * k) == store[ids[k]],
    decreases ids.len(),
{
    let n = ids.len();
    let prefix = transform_stream(ids.drop_last(), store);
    let stream = transform_stream(ids, store);
    lemma_transform_stream_len(ids.drop_last(), store);
    if k == n - 1 {
        let t = store[ids[k]];
        let tb = transform_bytes(t);
        assert forall|j: int| 16 * k <= j < 16 * k + 16 implies #[trigger] stream[j] == tb[j - 16 * k] by {}
        lemma_le_roundtrip(t.x_bits);
        lemma_le_roundtrip(t.y_bits);
        lemma_le_roundtrip(t.cell_x);
        lemma_le_roundtrip(t.cell_y);
        assert(le_word_at(stream, 16 * k) == le_word_at(le_bytes(t.x_bits), 0));
        assert(le_word_at(stream, 16 * k + 4) == le_word_at(le_bytes(t.y_bits), 0));
        assert(le_word_at(stream, 16 * k + 8) == le_word_at(le_bytes(t.cell_x), 0));
        assert(le_word_at(stream, 16 * k + 12) == le_word_at(le_bytes(t.cell_y), 0));
    } else {
        lemma_transform_stream_decodes(ids.drop_last(), store, k);
        assert forall|j: int| 16 * k <= j < 16 * k + 16 implies #[trigger] stream[j] == prefix[j] by {}
    }
}

/// Each record of a needs stream is 20 bytes long.
pub proof fn lemma_needs_stream_len(ids: Seq<Entity>, store: Map<Entity, PersonalNeeds>)
    ensures
        needs_stream(ids, store).len() == 20 * ids.len(),
    decreases ids.len(),
{
    if ids.len() > 0 {
        lemma_needs_stream_len(ids.drop_last(), store);
    }
}

/// Needs deltas carry each need whole: the `k`-th 20-byte record of a needs
/// stream decodes, word by word, to the full hunger, thirst, health, energy
/// and fear words of the `k`-th entity.
pub proof fn lemma_needs_stream_decodes(ids: Seq<Entity>, store: Map<Entity, PersonalNeeds>, k: int)
    requires
        0 <= k < ids.len(),
    ensures
        ({
            let s = needs_stream(ids, store);
            let n = store[ids[k]];
            &&& le_word_at(s, 20 * k) == n.hunger_bits
            &&& le_word_at(s, 20 * k + 4) == n.thirst_bits
            &&& le_word_at(s, 20 * k + 8) == n.health_bits
            &&& le_word_at(s, 20 * k + 12) == n.energy_bits
            &&& le_word_at(s, 20 * k + 16) == n.fear_bits
        }),
    decreases ids.len(),
{
    let len = ids.len();
    let prefix = needs_stream(ids.drop_last(), store);
    let stream = needs_stream(ids, store);
    lemma_needs_stream_len(ids.drop_last(), store);
    if k == len - 1 {
        let n = store[ids[k]];
        let nb = needs_bytes(n);
        assert forall|j: int| 20 * k <= j < 20 * k + 20 implies #[trigger] stream[j] == nb[j - 20 * k] by {}
        lemma_le_roundtrip(n.hunger_bits);
        lemma_le_roundtrip(n.thirst_bits);
        lemma_le_roundtrip(n.health_bits);
        lemma_le_roundtrip(n.energy_bits);
        lemma_le_roundtrip(n.fear_bits);
        assert(le_word_at(stream, 20 * k) == le_word_at(le_bytes(n.hunger_bits), 0));
        assert(le_word_at(stream, 20 * k + 4) == le_word_at(le_bytes(n.thirst_bits), 0));
        assert(le_word_at(stream, 20 * k + 8) == le_word_at(le_bytes(n.health_bits), 0));
        assert(le_word_at(stream, 20 * k + 12) == le_word_at(le_bytes(n.energy_bits), 0));
        assert(le_word_at(stream, 20 * k + 16) == le_word_at(le_bytes(n.fear_bits), 0));
    } else {
        lemma_needs_stream_decodes(ids.drop_last(), store, k);
        assert forall|j: int| 20 * k <= j < 20 * k + 20 implies #[trigger] stream[j] == prefix[j] by {}
    }
}

/// Every entity picked by `present_indices` has a component in `present`.
pub proof fn lemma_present_indices_in_store(indices: Seq<usize>, present: Set<Entity>)
    ensures
        forall|k: int|
            0 <= k < present_indices(indices, present).len() ==> present.contains(
                #[trigger] present_indices(indices, present)[k],
            ),
    decreases indices.len(),
{
    if indices.len() > 0 {
        lemma_present_indices_in_store(indices.drop_last(), present);
        let rest = present_indices(indices.drop_last(), present);
        let all = present_indices(indices, present);
        assert forall|k: int| 0 <= k < all.len() implies present.contains(#[trigger] all[k]) by {
            if k < rest.len() {
                assert(all[k] == rest[k]);
            }
        }
    }
}

/// Every entity picked by `dirty_present` has a component in `present`.
pub proof fn lemma_dirty_present_in_store(dirty: Seq<u32>, entities: Seq<Entity>, bit: u8, present: Set<Entity>)
    ensures
        forall|k: int|
            0 <= k < dirty_present(dirty, entities, bit, present).len() ==> present.contains(
                #[trigger] dirty_present(dirty, entities, bit, present)[k],
            ),
    decreases entities.len(),
{
    if entities.len() > 0 {
        lemma_dirty_present_in_store(dirty, entities.drop_last(), bit, present);
        let rest = dirty_present(dirty, entities.drop_last(), bit, present);
        let all = dirty_present(dirty, entities, bit, present);
        assert forall|k: int| 0 <= k < all.len() implies present.contains(#[trigger] all[k]) by {
            if k < rest.len() {
                assert(all[k] == rest[k]);
            }
        }
    }
}

/// Writing records that decode to the transforms of `store` for `ids`
/// overwrites exactly those entities with their transforms in `store`.
pub proof fn lemma_applied_records(
    target: Map<Entity, Transform>,
    store: Map<Entity, Transform>,
    ids: Seq<Entity>,
    data: Seq<u8>,
    n: nat,
)
    requires
        n <= ids.len(),
        forall|k: int| 0 <= k < n ==> transform_at(data, 16 * k) == store[ids[k]],
        forall|k: int| 0 <= k < n ==> store.contains_key(#[trigger] ids[k]),
    ensures
        applied_transforms(target, ids, data, n) == target.union_prefer_right(
            store.restrict(ids.take(n as int).to_set()),
        ),
    decreases n,
{
    if n == 0 {
        assert(ids.take(0).to_set() =~= Set::empty());
        assert(target.union_prefer_right(store.restrict(Set::empty())) =~= target);
    } else {
        lemma_applied_records(target, store, ids, data, (n - 1) as nat);
        let prev = ids.take(n - 1).to_set();
        assert(ids.take(n as int) =~= ids.take(n - 1) + seq![ids[n - 1]]);
        Seq::<Entity>::lemma_to_set_insert_commutes(ids.take(n - 1), ids[n - 1]);
        assert(target.union_prefer_right(store.restrict(prev)).insert(ids[n - 1], store[ids[n - 1]])
            =~= target.union_prefer_right(store.restrict(prev.insert(ids[n - 1]))));
    }
}

/// Deltas carry transforms faithfully: applying the delta that encodes the
/// transforms of `ids` in `store` to any `target` gives `target` with those
/// entities' transforms taken from `store`.
pub proof fn lemma_transform_delta_roundtrip(
    target: Map<Entity, Transform>,
    store: Map<Entity, Transform>,
    ids: Seq<Entity>,
)
    requires
        forall|k: int| 0 <= k < ids.len() ==> store.contains_key(#[trigger] ids[k]),
    ensures
        applied_transforms(target, ids, transform_stream(ids, store), ids.len())
            == target.union_prefer_right(store.restrict(ids.to_set())),
        transform_stream(ids, store).len() == 16 * ids.len(),
{
    lemma_transform_stream_len(ids, store);
    assert forall|k: int| 0 <= k < ids.len() implies transform_at(
        transform_stream(ids, store),
        16 * k,
    ) == store[ids[k]] by {
        lemma_transform_stream_decodes(ids, store, k);
    }
    lemma_applied_records(target, store, ids, transform_stream(ids, store), ids.len());
    assert(ids.take(ids.len() as int) =~= ids);
}

/// Appends the little-endian bytes of `w`.
fn push_le_u32(data: &mut Vec<u8>, w: u32)
    ensures
        final(data)@ == old(data)@ + le_bytes(w),
{
    data.push((w % 256) as u8);
    data.push(((w / 256) % 256) as u8);
    data.push(((w / 65536) % 256) as u8);
    data.push((w / 16777216) as u8);
    assert(data@ =~= old(data)@ + le_bytes(w));
}

/// Reads the word whose little-endian bytes start at `data[off]`.
fn read_le_u32(data: &Vec<u8>, off: usize) -> (w: u32)
    requires
        off + 4 <= data@.len(),
    ensures
        w == le_word_at(data@, off as int),
{
    let len = data.len();
    assert(off + 4 <= len);
    let b0 = data[off] as u32;
    let b1 = data[off + 1] as u32;
    let b2 = data[off + 2] as u32;
    let b3 = data[off + 3] as u32;
    b0 + 256 * b1 + 65536 * b2 + 16777216 * b3
}

fn push_transform(data: &mut Vec<u8>, t: &Transform)
    ensures
        final(data)@ == old(data)@ + transform_bytes(*t),
{
    push_le_u32(data, t.x_bits);
    push_le_u32(data, t.y_bits);
    push_le_u32(data, t.cell_x);
    push_le_u32(data, t.cell_y);
    assert(data@ =~= old(data)@ + transform_bytes(*t));
}

fn push_needs(data: &mut Vec<u8>, n: &PersonalNeeds)
    ensures
        final(data)@ == old(data)@ + needs_bytes(*n),
{
    push_le_u32(data, n.hunger_bits);
    push_le_u32(data, n.thirst_bits);
    push_le_u32(data, n.health_bits);
    push_le_u32(data, n.energy_bits);
    push_le_u32(data, n.fear_bits);
    assert(data@ =~= old(data)@ + needs_bytes(*n));
}

pub fn collect_dirty_transforms(dirty: &DirtyFlags, entities: &[Entity], ecs: &Ecs) -> (delta:
    Option<ComponentDelta>)
    ensures
        ({
            let ids = dirty_present(
                dirty.words(),
                entities@,
                TRANSFORM,
                ecs.transforms.contents().dom(),
            );
            if ids.len() == 0 {
                delta is None
            } else {
                delta matches Some(d) && d.component_type_id == TRANSFORM as u16 && d.entity_ids@
                    == ids && d.data@ == transform_stream(ids, ecs.transforms.contents())
            }
        }),        delta matches Some(d) ==> {
            &&& d.data@.len() == 16 * d.entity_ids@.len()
            &&& forall|k: int|
                0 <= k < d.entity_ids@.len() ==> {
                    &&& ecs.transforms.contents().contains_key(#[trigger] d.entity_ids@[k])
                    &&& transform_at(d.data@, 16 * k) == ecs.transforms.contents()[d.entity_ids@[k]]
                }
        },
{
    let mut ids: Vec<Entity> = Vec::new();
    let mut data: Vec<u8> = Vec::new();
    let n = entities.len();
    let mut idx: usize = 0;
    while idx < n
        invariant
            n == entities@.len(),
            0 <= idx <= n,
            ids@ == dirty_present(
                dirty.words(),
                entities@.take(idx as int),
                TRANSFORM,
                ecs.transforms.contents().dom(),
            ),
            data@ == transform_stream(ids@, ecs.transforms.contents()),
        decreases n - idx,
    {
        let entity = entities[idx];
        assert(entities@.take(idx + 1).drop_last() =~= entities@.take(idx as int));
        if dirty.is_dirty(idx, TRANSFORM) {
            if let Some(t) = ecs.transforms.get(&entity) {
                let ghost before = ids@;
                ids.push(entity);
                push_transform(&mut data, t);
                assert(ids@.drop_last() =~= before);
            }
        }
        idx = idx + 1;
    }
    assert(entities@.take(n as int) =~= entities@);
    proof {
        let store = ecs.transforms.contents();
        lemma_transform_stream_len(ids@, store);
        lemma_dirty_present_in_store(dirty.words(), entities@, TRANSFORM, store.dom());
        assert forall|k: int| 0 <= k < ids@.len() implies {
            &&& store.contains_key(#[trigger] ids@[k])
            &&& transform_at(data@, 16 * k) == store[ids@[k]]
        } by {
            lemma_transform_stream_decodes(ids@, store, k);
        }
    }
    if ids.len() == 0 {
        None
    } else {
        Some(ComponentDelta { component_type_id: TRANSFORM as u16, entity_ids: ids, data })
    }
}

pub fn collect_dirty_needs(dirty: &DirtyFlags, entities: &[Entity], ecs: &Ecs) -> (delta: Option<
    ComponentDelta,
>)
    ensures
        ({
            let ids = dirty_present(
                dirty.words(),
                entities@,
                PERSONAL_NEEDS,
                ecs.personal_needs.contents().dom(),
            );
            if ids.len() == 0 {
                delta is None
            } else {
                delta matches Some(d) && d.component_type_id == PERSONAL_NEEDS as u16
                    && d.entity_ids@ == ids && d.data@ == needs_stream(
                    ids,
                    ecs.personal_needs.contents(),
                )
            }
        }),
        delta matches Some(d) ==> {
            &&& d.data@.len() == 20 * d.entity_ids@.len()
            &&& forall|k: int|
                0 <= k < d.entity_ids@.len() ==> {
                    let n = ecs.personal_needs.contents()[#[trigger] d.entity_ids@[k]];
                    &&& ecs.personal_needs.contents().contains_key(d.entity_ids@[k])
                    &&& le_word_at(d.data@, 20 * k) == n.hunger_bits
                    &&& le_word_at(d.data@, 20 * k + 4) == n.thirst_bits
                    &&& le_word_at(d.data@, 20 * k + 8) == n.health_bits
                    &&& le_word_at(d.data@, 20 * k + 12) == n.energy_bits
                    &&& le_word_at(d.data@, 20 * k + 16) == n.fear_bits
                }
        },
{
    let mut ids: Vec<Entity> = Vec::new();
    let mut data: Vec<u8> = Vec::new();
    let n = entities.len();
    let mut idx: usize = 0;
    while idx < n
        invariant
            n == entities@.len(),
            0 <= idx <= n,
            ids@ == dirty_present(
                dirty.words(),
                entities@.take(idx as int),
                PERSONAL_NEEDS,
                ecs.personal_needs.contents().dom(),
            ),
            data@ == needs_stream(ids@, ecs.personal_needs.contents()),
        decreases n - idx,
    {
        let entity = entities[idx];
        assert(entities@.take(idx + 1).drop_last() =~= entities@.take(idx as int));
        if dirty.is_dirty(idx, PERSONAL_NEEDS) {
            if let Some(pn) = ecs.personal_needs.get(&entity) {
                let ghost before = ids@;
                ids.push(entity);
                push_needs(&mut data, pn);
                assert(ids@.drop_last() =~= before);
            }
        }
        idx = idx + 1;
    }
    assert(entities@.take(n as int) =~= entities@);
    proof {
        let store = ecs.personal_needs.contents();
        lemma_needs_stream_len(ids@, store);
        lemma_dirty_present_in_store(dirty.words(), entities@, PERSONAL_NEEDS, store.dom());
        assert forall|k: int| 0 <= k < ids@.len() implies ({
            let nd = store[#[trigger] ids@[k]];
            &&& store.contains_key(ids@[k])
            &&& le_word_at(data@, 20 * k) == nd.hunger_bits
            &&& le_word_at(data@, 20 * k + 4) == nd.thirst_bits
            &&& le_word_at(data@, 20 * k + 8) == nd.health_bits
            &&& le_word_at(data@, 20 * k + 12) == nd.energy_bits
            &&& le_word_at(data@, 20 * k + 16) == nd.fear_bits
        }) by {
            lemma_needs_stream_decodes(ids@, store, k);
        }
    }
    if ids.len() == 0 {
        None
    } else {
        Some(ComponentDelta { component_type_id: PERSONAL_NEEDS as u16, entity_ids: ids, data })
    }
}

pub fn collect_transform_deltas(dirty_indices: &[usize], transforms: &SparseSet<Transform>) -> (delta:
    ComponentDelta)
    ensures
        delta.component_type_id == COMP_TRANSFORM as u16,
        delta.entity_ids@ == present_indices(dirty_indices@, transforms.contents().dom()),
        delta.data@ == transform_stream(delta.entity_ids@, transforms.contents()),
        delta.data@.len() == 16 * delta.entity_ids@.len(),
        forall|k: int|
            0 <= k < delta.entity_ids@.len() ==> {
                &&& transforms.contents().contains_key(#[trigger] delta.entity_ids@[k])
                &&& transform_at(delta.data@, 16 * k) == transforms.contents()[delta.entity_ids@[k]]
            },
{
    let mut ids: Vec<Entity> = Vec::new();
    let mut data: Vec<u8> = Vec::new();
    let n = dirty_indices.len();
    let mut i: usize = 0;
    while i < n
        invariant
            n == dirty_indices@.len(),
            0 <= i <= n,
            ids@ == present_indices(dirty_indices@.take(i as int), transforms.contents().dom()),
            data@ == transform_stream(ids@, transforms.contents()),
        decreases n - i,
    {
        let entity = dirty_indices[i] as Entity;
        assert(dirty_indices@.take(i + 1).drop_last() =~= dirty_indices@.take(i as int));
        if let Some(t) = transforms.get(&entity) {
            let ghost before = ids@;
            ids.push(entity);
            push_transform(&mut data, t);
            assert(ids@.drop_last() =~= before);
        }
        i = i + 1;
    }
    assert(dirty_indices@.take(n as int) =~= dirty_indices@);
    proof {
        let store = transforms.contents();
        lemma_transform_stream_len(ids@, store);
        lemma_present_indices_in_store(dirty_indices@, store.dom());
        assert forall|k: int| 0 <= k < ids@.len() implies {
            &&& store.contains_key(#[trigger] ids@[k])
            &&& transform_at(data@, 16 * k) == store[ids@[k]]
        } by {
            lemma_transform_stream_decodes(ids@, store, k);
        }
    }
    ComponentDelta { component_type_id: COMP_TRANSFORM as u16, entity_ids: ids, data }
}

pub fn apply_transform_deltas(delta: &ComponentDelta, transforms: &mut SparseSet<Transform>)
    ensures
        final(transforms).contents() == applied_transforms(
            old(transforms).contents(),
            delta.entity_ids@,
            delta.data@,
            complete_records(*delta),
        ),
{
    let len = delta.data.len();
    let by_bytes = len / 16;
    let count = if delta.entity_ids.len() < by_bytes {
        delta.entity_ids.len()
    } else {
        by_bytes
    };
    assert(count * 16 <= len) by (nonlinear_arith)
        requires
            count <= by_bytes,
            by_bytes == len / 16,
    ;
    let mut i: usize = 0;
    while i < count
        invariant
            0 <= i <= count,
            count == complete_records(*delta),
            count <= delta.entity_ids@.len(),
            count * 16 <= delta.data@.len(),
            len == delta.data@.len(),
            transforms.contents() == applied_transforms(
                old(transforms).contents(),
                delta.entity_ids@,
                delta.data@,
                i as nat,
            ),
        decreases count - i,
    {
        let off = 16 * i;
        let entity = delta.entity_ids[i];
        let t = Transform {
            x_bits: read_le_u32(&delta.data, off),
            y_bits: read_le_u32(&delta.data, off + 4),
            cell_x: read_le_u32(&delta.data, off + 8),
            cell_y: read_le_u32(&delta.data, off + 12),
        };
        transforms.insert(entity, t);
        i = i + 1;
    }
}

} // verus!
