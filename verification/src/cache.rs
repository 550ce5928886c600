//! Bind group cache with dependency tracking.
//!
//! A bind group is cached under the key of the pipeline, group index and
//! resources it binds. Every cached key is registered under each buffer,
//! texture view and sampler it uses, so that destroying a resource drops
//! exactly the cached bind groups that use it. Eviction is first-in
//! first-out.

use vstd::prelude::*;
use crate::handles::{BufferKey, ComputePipelineKey, RenderPipelineKey, SamplerKey, TextureViewKey};
use std::collections::HashMap;

verus! {

broadcast use vstd::std_specs::hash::group_hash_axioms;

/// Identifies either a render or a compute pipeline.
#[derive(Clone, Copy, Debug, PartialEq, Eq, Hash, Structural)]
pub enum PipelineKey {
    Render(RenderPipelineKey),
    Compute(ComputePipelineKey),
}

/// A resource bound in a bind group.
#[allow(inconsistent_fields)]
#[derive(Clone, Copy, Debug, PartialEq, Eq, Hash, Structural)]
pub enum ResourceBinding {
    Buffer { binding: u32, key: BufferKey, offset: u64, size: u64 },
    TextureView { binding: u32, key: TextureViewKey },
    Sampler { binding: u32, key: SamplerKey },
    /// Uniform data from the plain data buffer.
    PlainData { binding: u32, offset: u32, size: u32 },
    /// Uniform data with a dynamic offset, keyed by buffer index and size only.
    PlainDataDynamic { binding: u32, buffer_index: usize, size: u32 },
}

/// Kinds of resource whose destruction invalidates bind groups.
#[derive(Clone, Copy, Debug, PartialEq, Eq, Structural)]
pub enum DepKind {
    Buffer,
    TextureView,
    Sampler,
}

/// The tracked resource a binding refers to, if any.
pub open spec fn resource_of(r: ResourceBinding) -> Option<(DepKind, u64)> {
    match r {
        ResourceBinding::Buffer { key, .. } => Some((DepKind::Buffer, key.0)),
        ResourceBinding::TextureView { key, .. } => Some((DepKind::TextureView, key.0)),
        ResourceBinding::Sampler { key, .. } => Some((DepKind::Sampler, key.0)),
        _ => None,
    }
}

/// Mathematical form of a cache key: pipeline, group index and bindings.
pub type KeyView = (PipelineKey, u32, Seq<ResourceBinding>);

/// The key binds the resource `id` of kind `kind`.
pub open spec fn uses(kv: KeyView, kind: DepKind, id: u64) -> bool {
    exists|i: int| 0 <= i < kv.2.len() && resource_of(#[trigger] kv.2[i]) == Some((kind, id))
}

/// Key for the bind group cache: a unique combination of resources.
#[derive(Debug)]
pub struct BindGroupCacheKey {
    /// Pipeline (render or compute) whose layout the group follows.
    pub pipeline_key: PipelineKey,
    /// Group index within the pipeline.
    pub group_index: u32,
    /// Resource bindings of the group.
    pub bindings: Vec<ResourceBinding>,
}

impl View for BindGroupCacheKey {
    type V = KeyView;

    open spec fn view(&self) -> KeyView {
        (self.pipeline_key, self.group_index, self.bindings@)
    }
}

fn copy_bindings(v: &Vec<ResourceBinding>) -> (r: Vec<ResourceBinding>)
    ensures
        r@ == v@,
{
    let mut r: Vec<ResourceBinding> = Vec::new();
    let mut i: usize = 0;
    while i < v.len()
        invariant
            0 <= i <= v@.len(),
            r@ == v@.subrange(0, i as int),
        decreases v@.len() - i,
    {
        r.push(v[i]);
        i = i + 1;
        proof {
            assert(r@ =~= v@.subrange(0, i as int));
        }
    }
    proof {
        assert(r@ =~= v@);
    }
    r
}

impl Clone for BindGroupCacheKey {
    fn clone(&self) -> (r: Self)
        ensures
            r@ == self@,
    {
        BindGroupCacheKey {
            pipeline_key: self.pipeline_key,
            group_index: self.group_index,
            bindings: copy_bindings(&self.bindings),
        }
    }
}

impl BindGroupCacheKey {
    /// Creates a cache key from a pipeline, group index and bindings.
    pub fn new(pipeline_key: PipelineKey, group_index: u32, bindings: Vec<ResourceBinding>) -> (k: Self)
        ensures
            k@ == (pipeline_key, group_index, bindings@),
    {
        BindGroupCacheKey { pipeline_key, group_index, bindings }
    }

    /// Whether two keys name the same pipeline, group and bindings.
    pub fn same_as(&self, other: &Self) -> (b: bool)
        ensures
            b == (self@ == other@),
    {
        if self.pipeline_key != other.pipeline_key || self.group_index != other.group_index {
            return false;
        }
        if self.bindings.len() != other.bindings.len() {
            return false;
        }
        let n = self.bindings.len();
        let mut i: usize = 0;
        while i < n
            invariant
                0 <= i <= n,
                n == self.bindings@.len(),
                n == other.bindings@.len(),
                forall|j: int| 0 <= j < i ==> self.bindings@[j] == other.bindings@[j],
            decreases n - i,
        {
            if self.bindings[i] != other.bindings[i] {
                return false;
            }
            i = i + 1;
        }
        proof {
            assert(self.bindings@ =~= other.bindings@);
        }
        true
    }
}

/// A copy of a list of keys, key for key.
fn copy_keys(keys: &Vec<BindGroupCacheKey>) -> (r: Vec<BindGroupCacheKey>)
    ensures
        r@.len() == keys@.len(),
        forall|t: int| 0 <= t < keys@.len() ==> (#[trigger] r@[t])@ == keys@[t]@,
{
    let mut copy: Vec<BindGroupCacheKey> = Vec::new();
    let mut j: usize = 0;
    while j < keys.len()
        invariant
            0 <= j <= keys@.len(),
            copy@.len() == j,
            forall|t: int| 0 <= t < j ==> (#[trigger] copy@[t])@ == keys@[t]@,
        decreases keys@.len() - j,
    {
        copy.push(keys[j].clone());
        j = j + 1;
    }
    copy
}

/// Position of the key with view `kv` in `keys`, if any.
fn position_of(keys: &Vec<BindGroupCacheKey>, key: &BindGroupCacheKey) -> (r: Option<usize>)
    ensures
        match r {
            Some(i) => i < keys@.len() && keys@[i as int]@ == key@,
            None => forall|j: int| 0 <= j < keys@.len() ==> keys@[j]@ != key@,
        },
{
    let mut i: usize = 0;
    while i < keys.len()
        invariant
            0 <= i <= keys@.len(),
            forall|j: int| 0 <= j < i ==> keys@[j]@ != key@,
        decreases keys@.len() - i,
    {
        if keys[i].same_as(key) {
            return Some(i);
        }
        i = i + 1;
    }
    None
}

/// For each resource id, the keys that use it.
pub struct DepIndex {
    pub map: HashMap<u64, Vec<BindGroupCacheKey>>,
}

impl DepIndex {
    /// `kv` is registered under resource `id`.
    pub open spec fn registered(&self, id: u64, kv: KeyView) -> bool {
        self.map@.contains_key(id) && exists|i: int|
            0 <= i < self.map@[id]@.len() && (#[trigger] self.map@[id]@[i])@ == kv
    }

    /// Views of the keys registered under `id`.
    pub open spec fn dependents(&self, id: u64) -> Seq<KeyView> {
        if self.map@.contains_key(id) {
            self.map@[id]@.map_values(|k: BindGroupCacheKey| k@)
        } else {
            Seq::empty()
        }
    }

    fn new() -> (d: Self)
        ensures
            d.map@ == Map::<u64, Vec<BindGroupCacheKey>>::empty(),
            forall|id: u64, kv: KeyView| !d.registered(id, kv),
    {
        DepIndex { map: HashMap::new() }
    }

    /// Registers `key` under `id`, unless it is already there.
    fn add(&mut self, id: u64, key: &BindGroupCacheKey)
        ensures
            forall|i: u64, kv: KeyView|
                final(self).registered(i, kv) <==> (old(self).registered(i, kv) || (i == id && kv == key@)),
    {
        let mut list: Vec<BindGroupCacheKey> = match self.map.get(&id) {
            Some(existing) => {
                copy_keys(existing)
            },
            None => Vec::new(),
        };
        let ghost before = list@;
        proof {
            assert forall|kv: KeyView| old(self).registered(id, kv) <==> exists|t: int|
                0 <= t < list@.len() && (#[trigger] list@[t])@ == kv by {
                if old(self).registered(id, kv) {
                    let t = choose|t: int| 0 <= t < old(self).map@[id]@.len() && (#[trigger] old(self).map@[id]@[t])@ == kv;
                    assert(list@[t]@ == kv);
                }
                if exists|t: int| 0 <= t < list@.len() && (#[trigger] list@[t])@ == kv {
                    let t = choose|t: int| 0 <= t < list@.len() && (#[trigger] list@[t])@ == kv;
                    assert(old(self).map@[id]@[t]@ == kv);
                }
            }
        }
        if position_of(&list, key).is_none() {
            list.push(key.clone());
            proof {
                assert(list@[list@.len() - 1]@ == key@);
                assert forall|t: int| 0 <= t < before.len() implies list@[t] == before[t] by {}
            }
        }
        self.map.insert(id, list);
        proof {
            assert(self.map@ == old(self).map@.insert(id, list));
            assert forall|i: u64, kv: KeyView|
                self.registered(i, kv) <==> (old(self).registered(i, kv) || (i == id && kv == key@)) by {
                if i != id {
                    assert(self.map@.contains_key(i) == old(self).map@.contains_key(i));
                    if self.map@.contains_key(i) {
                        assert(self.map@[i] == old(self).map@[i]);
                    }
                } else {
                    if kv == key@ {
                        let t = choose|t: int| 0 <= t < list@.len() && (#[trigger] list@[t])@ == key@;
                        assert(self.map@[id]@[t]@ == kv);
                    }
                    if self.registered(i, kv) && kv != key@ {
                        let t = choose|t: int| 0 <= t < self.map@[id]@.len() && (#[trigger] self.map@[id]@[t])@ == kv;
                        assert(list@[t]@ == kv);
                        assert(t < before.len());
                        assert(before[t]@ == kv);
                    }
                    if old(self).registered(i, kv) {
                        let t = choose|t: int| 0 <= t < before.len() && (#[trigger] before[t])@ == kv;
                        assert(self.map@[id]@[t]@ == kv);
                    }
                }
            }
        }
    }

    /// The keys registered under `id`, if any are.
    fn get(&self, id: u64) -> (r: Option<&Vec<BindGroupCacheKey>>)
        ensures
            match r {
                Some(v) => self.map@.contains_key(id) && *v == self.map@[id],
                None => !self.map@.contains_key(id),
            },
    {
        self.map.get(&id)
    }

    /// Drops every registration under `id`.
    fn remove(&mut self, id: u64)
        ensures
            final(self).map@ == old(self).map@.remove(id),
            forall|i: u64, kv: KeyView| final(self).registered(i, kv) <==> (old(self).registered(i, kv) && i != id),
    {
        self.map.remove(&id);
        proof {
            assert forall|i: u64, kv: KeyView| final(self).registered(i, kv) <==> (old(self).registered(i, kv) && i != id) by {
                if i != id {
                    assert(self.map@.contains_key(i) == old(self).map@.contains_key(i));
                    if self.map@.contains_key(i) {
                        assert(self.map@[i] == old(self).map@[i]);
                    }
                }
            }
        }
    }
}

/// Tracks which bind groups depend on which resources.
pub struct DependencyTracker {
    /// Buffer key to the cache keys that use it.
    pub buffer_deps: DepIndex,
    /// Texture view key to the cache keys that use it.
    pub texture_view_deps: DepIndex,
    /// Sampler key to the cache keys that use it.
    pub sampler_deps: DepIndex,
}

impl DependencyTracker {
    /// `kv` is registered under resource `id` of kind `kind`.
    pub open spec fn registered(&self, kind: DepKind, id: u64, kv: KeyView) -> bool {
        match kind {
            DepKind::Buffer => self.buffer_deps.registered(id, kv),
            DepKind::TextureView => self.texture_view_deps.registered(id, kv),
            DepKind::Sampler => self.sampler_deps.registered(id, kv),
        }
    }

    /// Only keys that use a resource are registered under it.
    pub open spec fn sound(&self) -> bool {
        forall|kind: DepKind, id: u64, kv: KeyView| #[trigger] self.registered(kind, id, kv) ==> uses(kv, kind, id)
    }

    /// An empty tracker.
    pub fn new() -> (t: Self)
        ensures
            forall|kind: DepKind, id: u64, kv: KeyView| !t.registered(kind, id, kv),
            t.sound(),
            t.buffer_deps.map@ == Map::<u64, Vec<BindGroupCacheKey>>::empty(),
            t.texture_view_deps.map@ == Map::<u64, Vec<BindGroupCacheKey>>::empty(),
            t.sampler_deps.map@ == Map::<u64, Vec<BindGroupCacheKey>>::empty(),
    {
        DependencyTracker {
            buffer_deps: DepIndex::new(),
            texture_view_deps: DepIndex::new(),
            sampler_deps: DepIndex::new(),
        }
    }

    /// Registers a bind group key under every buffer, texture view and
    /// sampler it binds; plain uniform data is not tracked.
    pub fn register(&mut self, cache_key: &BindGroupCacheKey)
        ensures
            forall|kind: DepKind, id: u64, kv: KeyView| #[trigger] final(self).registered(kind, id, kv) <==> (
                old(self).registered(kind, id, kv) || (kv == cache_key@ && uses(kv, kind, id))),
    {
        let n = cache_key.bindings.len();
        let mut i: usize = 0;
        while i < n
            invariant
                0 <= i <= n,
                n == cache_key.bindings@.len(),
                forall|kind: DepKind, id: u64, kv: KeyView| #[trigger] self.registered(kind, id, kv) <==> (
                    old(self).registered(kind, id, kv) || (kv == cache_key@ && exists|j: int|
                        0 <= j < i && resource_of(#[trigger] cache_key.bindings@[j]) == Some((kind, id)))),
            decreases n - i,
        {
            let ghost prev = *self;
            let b = cache_key.bindings[i];
            match b {
                ResourceBinding::Buffer { key, .. } => {
                    self.buffer_deps.add(key.0, cache_key);
                },
                ResourceBinding::TextureView { key, .. } => {
                    self.texture_view_deps.add(key.0, cache_key);
                },
                ResourceBinding::Sampler { key, .. } => {
                    self.sampler_deps.add(key.0, cache_key);
                },
                ResourceBinding::PlainData { .. } | ResourceBinding::PlainDataDynamic { .. } => {},
            }
            proof {
                assert forall|kind: DepKind, id: u64, kv: KeyView| #[trigger] self.registered(kind, id, kv) <==> (
                    prev.registered(kind, id, kv) || (kv == cache_key@ && resource_of(b) == Some((kind, id)))) by {
                    match kind {
                        DepKind::Buffer => {},
                        DepKind::TextureView => {},
                        DepKind::Sampler => {},
                    }
                }
                assert forall|kind: DepKind, id: u64, kv: KeyView| #[trigger] self.registered(kind, id, kv) <==> (
                    old(self).registered(kind, id, kv) || (kv == cache_key@ && exists|j: int|
                        0 <= j < i + 1 && resource_of(#[trigger] cache_key.bindings@[j]) == Some((kind, id)))) by {
                    if kv == cache_key@ && resource_of(cache_key.bindings@[i as int]) == Some((kind, id)) {
                        assert(self.registered(kind, id, kv));
                    }
                    if kv == cache_key@ && exists|j: int|
                        0 <= j < i && resource_of(#[trigger] cache_key.bindings@[j]) == Some((kind, id)) {
                        assert(prev.registered(kind, id, kv));
                    }
                    if self.registered(kind, id, kv) && !prev.registered(kind, id, kv) {
                        assert(resource_of(cache_key.bindings@[i as int]) == Some((kind, id)));
                    }
                }
            }
            i = i + 1;
        }
    }

    /// The keys registered under a buffer.
    pub fn get_buffer_dependents(&self, key: BufferKey) -> (r: Option<&Vec<BindGroupCacheKey>>)
        ensures
            match r {
                Some(v) => self.buffer_deps.map@.contains_key(key.0) && *v == self.buffer_deps.map@[key.0],
                None => !self.buffer_deps.map@.contains_key(key.0),
            },
    {
        self.buffer_deps.get(key.0)
    }

    /// Stops tracking a buffer.
    pub fn remove_buffer(&mut self, key: BufferKey)
        ensures
            forall|kind: DepKind, id: u64, kv: KeyView| #[trigger] final(self).registered(kind, id, kv) <==> (
                old(self).registered(kind, id, kv) && !(kind == DepKind::Buffer && id == key.0)),
            final(self).buffer_deps.map@ == old(self).buffer_deps.map@.remove(key.0),
            final(self).texture_view_deps == old(self).texture_view_deps,
            final(self).sampler_deps == old(self).sampler_deps,
    {
        self.buffer_deps.remove(key.0);
    }

    /// The keys registered under a texture view.
    pub fn get_texture_view_dependents(&self, key: TextureViewKey) -> (r: Option<&Vec<BindGroupCacheKey>>)
        ensures
            match r {
                Some(v) => self.texture_view_deps.map@.contains_key(key.0) && *v == self.texture_view_deps.map@[key.0],
                None => !self.texture_view_deps.map@.contains_key(key.0),
            },
    {
        self.texture_view_deps.get(key.0)
    }

    /// Stops tracking a texture view.
    pub fn remove_texture_view(&mut self, key: TextureViewKey)
        ensures
            forall|kind: DepKind, id: u64, kv: KeyView| #[trigger] final(self).registered(kind, id, kv) <==> (
                old(self).registered(kind, id, kv) && !(kind == DepKind::TextureView && id == key.0)),
            final(self).texture_view_deps.map@ == old(self).texture_view_deps.map@.remove(key.0),
            final(self).buffer_deps == old(self).buffer_deps,
            final(self).sampler_deps == old(self).sampler_deps,
    {
        self.texture_view_deps.remove(key.0);
    }

    /// The keys registered under a sampler.
    pub fn get_sampler_dependents(&self, key: SamplerKey) -> (r: Option<&Vec<BindGroupCacheKey>>)
        ensures
            match r {
                Some(v) => self.sampler_deps.map@.contains_key(key.0) && *v == self.sampler_deps.map@[key.0],
                None => !self.sampler_deps.map@.contains_key(key.0),
            },
    {
        self.sampler_deps.get(key.0)
    }

    /// Stops tracking a sampler.
    pub fn remove_sampler(&mut self, key: SamplerKey)
        ensures
            forall|kind: DepKind, id: u64, kv: KeyView| #[trigger] final(self).registered(kind, id, kv) <==> (
                old(self).registered(kind, id, kv) && !(kind == DepKind::Sampler && id == key.0)),
            final(self).sampler_deps.map@ == old(self).sampler_deps.map@.remove(key.0),
            final(self).buffer_deps == old(self).buffer_deps,
            final(self).texture_view_deps == old(self).texture_view_deps,
    {
        self.sampler_deps.remove(key.0);
    }
}

/// `after` holds only keys of `before`, and any two of its keys come in the
/// same order in both.
pub open spec fn keeps_order(before: Seq<KeyView>, after: Seq<KeyView>) -> bool {
    &&& forall|a: KeyView| #[trigger] after.contains(a) ==> before.contains(a)
    &&& forall|a: KeyView, b: KeyView|
        #![trigger after.index_of(a), after.index_of(b)]
        after.contains(a) && after.contains(b) ==> (after.index_of(a) < after.index_of(b) <==> before.index_of(a)
            < before.index_of(b))
}

/// The tracker `after` is `before` with the entry of resource `id` of `kind`
/// removed from its index, and the two other indexes untouched.
pub open spec fn index_dropped(before: DependencyTracker, after: DependencyTracker, kind: DepKind, id: u64) -> bool {
    match kind {
        DepKind::Buffer => {
            &&& after.buffer_deps.map@ == before.buffer_deps.map@.remove(id)
            &&& after.texture_view_deps == before.texture_view_deps
            &&& after.sampler_deps == before.sampler_deps
        },
        DepKind::TextureView => {
            &&& after.texture_view_deps.map@ == before.texture_view_deps.map@.remove(id)
            &&& after.buffer_deps == before.buffer_deps
            &&& after.sampler_deps == before.sampler_deps
        },
        DepKind::Sampler => {
            &&& after.sampler_deps.map@ == before.sampler_deps.map@.remove(id)
            &&& after.buffer_deps == before.buffer_deps
            &&& after.texture_view_deps == before.texture_view_deps
        },
    }
}

proof fn lemma_index_of_distinct(s: Seq<KeyView>, i: int)
    requires
        s.no_duplicates(),
        0 <= i < s.len(),
    ensures
        s.contains(s[i]),
        s.index_of(s[i]) == i,
{
    assert(s.contains(s[i]));
    let j = s.index_of(s[i]);
    assert(s[j] == s[i]);
}

proof fn lemma_keeps_order_refl(s: Seq<KeyView>)
    ensures
        keeps_order(s, s),
{
}

proof fn lemma_keeps_order_trans(a: Seq<KeyView>, b: Seq<KeyView>, c: Seq<KeyView>)
    requires
        keeps_order(a, b),
        keeps_order(b, c),
    ensures
        keeps_order(a, c),
{
    assert forall|x: KeyView, y: KeyView|
        #![trigger c.index_of(x), c.index_of(y)]
        c.contains(x) && c.contains(y) implies (c.index_of(x) < c.index_of(y) <==> a.index_of(x) < a.index_of(y)) by {
        assert(b.contains(x) && b.contains(y));
        assert(c.index_of(x) < c.index_of(y) <==> b.index_of(x) < b.index_of(y));
        assert(b.index_of(x) < b.index_of(y) <==> a.index_of(x) < a.index_of(y));
    }
}

proof fn lemma_remove_keeps_order(s: Seq<KeyView>, p: int)
    requires
        s.no_duplicates(),
        0 <= p < s.len(),
    ensures
        keeps_order(s, s.remove(p)),
{
    let t = s.remove(p);
    assert forall|a: KeyView| #[trigger] t.contains(a) implies s.contains(a) by {
        let q = choose|q: int| 0 <= q < t.len() && t[q] == a;
        let oq = if q < p { q } else { q + 1 };
        assert(s[oq] == a);
    }
    assert forall|a: KeyView, b: KeyView|
        #![trigger t.index_of(a), t.index_of(b)]
        t.contains(a) && t.contains(b) implies (t.index_of(a) < t.index_of(b) <==> s.index_of(a) < s.index_of(b)) by {
        let qa = t.index_of(a);
        let qb = t.index_of(b);
        assert(t[qa] == a && t[qb] == b);
        let oa = if qa < p { qa } else { qa + 1 };
        let ob = if qb < p { qb } else { qb + 1 };
        assert(s[oa] == a);
        assert(s[ob] == b);
        lemma_index_of_distinct(s, oa);
        lemma_index_of_distinct(s, ob);
    }
}

/// Bind group cache with dependency tracking, first-in first-out eviction,
/// and hit/miss statistics. `V` is the cached bind group.
pub struct BindGroupCache<V> {
    /// Cached groups in insertion order, each under its key.
    pub keys: Vec<BindGroupCacheKey>,
    pub groups: Vec<V>,
    /// Dependency tracking for invalidation.
    pub deps: DependencyTracker,
    /// Maximum cache size before eviction.
    pub max_size: usize,
    pub hits: u64,
    pub misses: u64,
}

impl<V> BindGroupCache<V> {
    /// Views of the cached keys, oldest first.
    pub open spec fn key_views(&self) -> Seq<KeyView> {
        self.keys@.map_values(|k: BindGroupCacheKey| k@)
    }

    /// The key view `kv` is cached.
    pub open spec fn caches(&self, kv: KeyView) -> bool {
        self.key_views().contains(kv)
    }

    /// The bind group cached under `kv`, when `caches(kv)`.
    pub open spec fn group_of(&self, kv: KeyView) -> V {
        self.groups@[self.key_views().index_of(kv)]
    }

    /// Internal consistency: one group per key, keys distinct, the size
    /// bound respected, and every cached key registered under each resource
    /// it uses, only keys that use a resource registered under it.
    pub open spec fn wf(&self) -> bool {
        &&& self.keys@.len() == self.groups@.len()
        &&& self.keys@.len() <= self.max_size
        &&& self.key_views().no_duplicates()
        &&& self.deps.sound()
        &&& forall|i: int, kind: DepKind, id: u64|
            0 <= i < self.keys@.len() && #[trigger] uses(self.keys@[i]@, kind, id)
                ==> self.deps.registered(kind, id, self.keys@[i]@)
    }

    /// Creates an empty cache holding at most `max_size` groups.
    pub fn new(max_size: usize) -> (c: Self)
        ensures
            c.wf(),
            c.key_views().len() == 0,
            c.max_size == max_size,
            c.hits == 0,
            c.misses == 0,
    {
        BindGroupCache {
            keys: Vec::new(),
            groups: Vec::new(),
            deps: DependencyTracker::new(),
            max_size,
            hits: 0,
            misses: 0,
        }
    }

    /// Removes the entry at `i`; the others keep their order and groups.
    fn remove_at(&mut self, i: usize)
        requires
            old(self).wf(),
            i < old(self).keys@.len(),
        ensures
            final(self).wf(),
            final(self).key_views() == old(self).key_views().remove(i as int),
            final(self).groups@ == old(self).groups@.remove(i as int),
            final(self).deps == old(self).deps,
            final(self).max_size == old(self).max_size,
            final(self).hits == old(self).hits,
            final(self).misses == old(self).misses,
    {
        let ghost old_keys = self.keys@;
        self.keys.remove(i);
        self.groups.remove(i);
        proof {
            assert(self.key_views() =~= old(self).key_views().remove(i as int));
            assert forall|a: int, b: int| 0 <= a < b < self.key_views().len()
                implies self.key_views()[a] != self.key_views()[b] by {
                let oa = if a < i { a } else { a + 1 };
                let ob = if b < i { b } else { b + 1 };
                assert(self.key_views()[a] == old(self).key_views()[oa]);
                assert(self.key_views()[b] == old(self).key_views()[ob]);
            }
            assert forall|j: int, kind: DepKind, id: u64|
                0 <= j < self.keys@.len() && #[trigger] uses(self.keys@[j]@, kind, id)
                    implies self.deps.registered(kind, id, self.keys@[j]@) by {
                let oj = if j < i { j } else { j + 1 };
                assert(self.keys@[j] == old_keys[oj]);
            }
        }
    }

    /// Removes the oldest entry, if any.
    fn evict_one(&mut self)
        requires
            old(self).wf(),
        ensures
            final(self).wf(),
            old(self).keys@.len() > 0 ==> final(self).key_views() == old(self).key_views().drop_first()
                && final(self).groups@ == old(self).groups@.drop_first(),
            old(self).keys@.len() == 0 ==> final(self).keys@.len() == 0,
            final(self).deps == old(self).deps,
            final(self).max_size == old(self).max_size,
            final(self).hits == old(self).hits,
            final(self).misses == old(self).misses,
    {
        if self.keys.len() > 0 {
            self.remove_at(0);
            proof {
                assert(old(self).key_views().remove(0) =~= old(self).key_views().drop_first());
                assert(old(self).groups@.remove(0) =~= old(self).groups@.drop_first());
            }
        }
    }

    /// Returns the bind group cached under `key`, creating it with
    /// `create_fn` on a miss. A hit leaves the cache unchanged and counts a
    /// hit. A miss counts a miss, registers the key's resources, evicts the
    /// oldest group when the cache is full, and caches the new group last.
    pub fn get_or_create<F: FnOnce() -> V>(&mut self, key: BindGroupCacheKey, create_fn: F) -> (r: &V)
        requires
            old(self).wf(),
            old(self).max_size >= 1,
            old(self).hits < u64::MAX,
            old(self).misses < u64::MAX,
            create_fn.requires(()),
        ensures
            final(self).wf(),
            final(self).max_size == old(self).max_size,
            final(self).caches(key@),
            *r == final(self).group_of(key@),
            old(self).caches(key@) ==> {
                &&& final(self).hits == old(self).hits + 1
                &&& final(self).misses == old(self).misses
                &&& final(self).key_views() == old(self).key_views()
                &&& final(self).groups@ == old(self).groups@
                &&& final(self).deps == old(self).deps
            },
            !old(self).caches(key@) ==> {
                let kept = if old(self).keys@.len() >= old(self).max_size { 1int } else { 0int };
                &&& final(self).hits == old(self).hits
                &&& final(self).misses == old(self).misses + 1
                &&& final(self).key_views() == old(self).key_views().skip(kept).push(key@)
                &&& final(self).groups@.drop_last() == old(self).groups@.skip(kept)
                &&& create_fn.ensures((), final(self).groups@.last())
                &&& *r == final(self).groups@.last()
                &&& forall|kind: DepKind, id: u64, kv: KeyView| #[trigger] final(self).deps.registered(kind, id, kv)
                    <==> (old(self).deps.registered(kind, id, kv) || (kv == key@ && uses(kv, kind, id)))
            },
    {
        match position_of(&self.keys, &key) {
            Some(i) => {
                self.hits = self.hits + 1;
                proof {
                    assert(self.key_views()[i as int] == key@);
                    assert(self.caches(key@));
                    assert(self.key_views().index_of(key@) == i) by {
                        let j = self.key_views().index_of(key@);
                        assert(self.key_views()[j] == key@);
                    }
                }
                &self.groups[i]
            },
            None => {
                proof {
                    assert(!self.caches(key@)) by {
                        if self.caches(key@) {
                            let j = self.key_views().index_of(key@);
                            assert(self.keys@[j]@ == key@);
                        }
                    }
                }
                self.misses = self.misses + 1;
                self.deps.register(&key);
                proof {
                    assert forall|i: int, kind: DepKind, id: u64|
                        0 <= i < self.keys@.len() && #[trigger] uses(self.keys@[i]@, kind, id)
                            implies self.deps.registered(kind, id, self.keys@[i]@) by {
                        assert(old(self).deps.registered(kind, id, self.keys@[i]@));
                    }
                }
                let ghost before_evict = *self;
                if self.keys.len() >= self.max_size {
                    self.evict_one();
                }
                let ghost after_evict = *self;
                proof {
                    if before_evict.keys@.len() >= before_evict.max_size {
                        assert(after_evict.key_views() =~= before_evict.key_views().skip(1));
                        assert(after_evict.groups@ =~= before_evict.groups@.skip(1));
                    } else {
                        assert(after_evict.key_views() =~= before_evict.key_views().skip(0));
                        assert(after_evict.groups@ =~= before_evict.groups@.skip(0));
                    }
                }
                let group = create_fn();
                self.keys.push(key);
                self.groups.push(group);
                let last = self.groups.len() - 1;
                proof {
                    assert(self.key_views() =~= after_evict.key_views().push(key@));
                    assert(self.groups@.drop_last() =~= after_evict.groups@);
                    assert(!after_evict.key_views().contains(key@)) by {
                        if after_evict.key_views().contains(key@) {
                            let j = after_evict.key_views().index_of(key@);
                            let k = if before_evict.keys@.len() >= before_evict.max_size { j + 1 } else { j };
                            assert(before_evict.key_views()[k] == key@);
                            assert(old(self).keys@[k]@ == key@);
                        }
                    }
                    assert(self.key_views()[last as int] == key@);
                    assert(self.caches(key@));
                    assert(self.key_views().index_of(key@) == last) by {
                        let j = self.key_views().index_of(key@);
                        if j != last {
                            assert(after_evict.key_views()[j] == key@);
                        }
                    }
                    assert forall|a: int, b: int| 0 <= a < b < self.key_views().len()
                        implies self.key_views()[a] != self.key_views()[b] by {
                        if b == last {
                            assert(after_evict.key_views()[a] == self.key_views()[a]);
                        }
                    }
                    assert forall|i: int, kind: DepKind, id: u64|
                        0 <= i < self.keys@.len() && #[trigger] uses(self.keys@[i]@, kind, id)
                            implies self.deps.registered(kind, id, self.keys@[i]@) by {
                        if i < last {
                            assert(self.keys@[i] == after_evict.keys@[i]);
                        }
                    }
                }
                &self.groups[last]
            },
        }
    }

    /// Drops every cached group that uses the resource `id` of `kind`, given
    /// the keys registered under it, then stops tracking it.
    fn drop_dependents(&mut self, kind: DepKind, id: u64)
        requires
            old(self).wf(),
        ensures
            final(self).wf(),
            final(self).max_size == old(self).max_size,
            final(self).hits == old(self).hits,
            final(self).misses == old(self).misses,
            forall|kv: KeyView| #[trigger] final(self).caches(kv) <==> (old(self).caches(kv) && !uses(kv, kind, id)),
            forall|kv: KeyView| #[trigger] final(self).caches(kv) ==> final(self).group_of(kv) == old(self).group_of(kv),
            forall|k: DepKind, i: u64, kv: KeyView| #[trigger] final(self).deps.registered(k, i, kv)
                <==> (old(self).deps.registered(k, i, kv) && !(k == kind && i == id)),
            index_dropped(old(self).deps, final(self).deps, kind, id),
            keeps_order(old(self).key_views(), final(self).key_views()),
    {
        let dependents: Vec<BindGroupCacheKey> = {
            let found = match kind {
                DepKind::Buffer => self.deps.get_buffer_dependents(BufferKey(id)),
                DepKind::TextureView => self.deps.get_texture_view_dependents(TextureViewKey(id)),
                DepKind::Sampler => self.deps.get_sampler_dependents(SamplerKey(id)),
            };
            match found {
                Some(list) => {
                    copy_keys(list)
                },
                None => Vec::new(),
            }
        };
        proof {
            assert forall|kv: KeyView| old(self).deps.registered(kind, id, kv) <==> exists|t: int|
                0 <= t < dependents@.len() && (#[trigger] dependents@[t])@ == kv by {
                let idx = match kind {
                    DepKind::Buffer => self.deps.buffer_deps,
                    DepKind::TextureView => self.deps.texture_view_deps,
                    DepKind::Sampler => self.deps.sampler_deps,
                };
                if old(self).deps.registered(kind, id, kv) {
                    let t = choose|t: int| 0 <= t < idx.map@[id]@.len() && (#[trigger] idx.map@[id]@[t])@ == kv;
                    assert(dependents@[t]@ == kv);
                }
                if exists|t: int| 0 <= t < dependents@.len() && (#[trigger] dependents@[t])@ == kv {
                    let t = choose|t: int| 0 <= t < dependents@.len() && (#[trigger] dependents@[t])@ == kv;
                    assert(idx.map@[id]@[t]@ == kv);
                }
            }
        }
        let n = dependents.len();
        let mut j: usize = 0;
        proof {
            lemma_keeps_order_refl(self.key_views());
        }
        while j < n
            invariant
                0 <= j <= n,
                n == dependents@.len(),
                self.wf(),
                self.deps == old(self).deps,
                self.max_size == old(self).max_size,
                self.hits == old(self).hits,
                self.misses == old(self).misses,
                forall|kv: KeyView| #[trigger] self.caches(kv) <==> (old(self).caches(kv) && !exists|t: int|
                    0 <= t < j && (#[trigger] dependents@[t])@ == kv),
                forall|kv: KeyView| #[trigger] self.caches(kv) ==> self.group_of(kv) == old(self).group_of(kv),
                keeps_order(old(self).key_views(), self.key_views()),
            decreases n - j,
        {
            let ghost prev = *self;
            match position_of(&self.keys, &dependents[j]) {
                Some(p) => {
                    self.remove_at(p);
                    proof {
                        lemma_remove_keeps_order(prev.key_views(), p as int);
                        lemma_keeps_order_trans(old(self).key_views(), prev.key_views(), self.key_views());
                        let gone = dependents@[j as int]@;
                        assert(prev.key_views()[p as int] == gone);
                        assert forall|kv: KeyView| #[trigger] self.caches(kv) <==> (prev.caches(kv) && kv != gone) by {
                            if self.caches(kv) {
                                let q = self.key_views().index_of(kv);
                                let oq = if q < p { q } else { q + 1 };
                                assert(prev.key_views()[oq] == kv);
                                assert(oq != p);
                                assert(prev.key_views()[oq] != prev.key_views()[p as int]);
                            }
                            if prev.caches(kv) && kv != gone {
                                let oq = prev.key_views().index_of(kv);
                                assert(oq != p);
                                let q = if oq < p { oq } else { oq - 1 };
                                assert(self.key_views()[q] == kv);
                            }
                        }
                        assert forall|kv: KeyView| #[trigger] self.caches(kv) implies self.group_of(kv) == prev.group_of(kv) by {
                            let q = self.key_views().index_of(kv);
                            let oq = if q < p { q } else { q + 1 };
                            assert(prev.key_views()[oq] == kv);
                            assert(prev.key_views().index_of(kv) == oq);
                        }
                    }
                },
                None => {
                    proof {
                        assert forall|kv: KeyView| #[trigger] self.caches(kv) implies kv != dependents@[j as int]@ by {
                            let q = self.key_views().index_of(kv);
                            assert(self.keys@[q]@ == kv);
                        }
                    }
                },
            }
            j = j + 1;
        }
        proof {
            assert forall|kv: KeyView| #[trigger] self.caches(kv) <==> (old(self).caches(kv) && !uses(kv, kind, id)) by {
                if old(self).caches(kv) {
                    let q = old(self).key_views().index_of(kv);
                    assert(old(self).keys@[q]@ == kv);
                    if uses(old(self).keys@[q]@, kind, id) {
                        assert(old(self).deps.registered(kind, id, old(self).keys@[q]@));
                    }
                }
                if old(self).deps.registered(kind, id, kv) {
                    assert(uses(kv, kind, id));
                }
            }
        }
        let ghost before_remove = *self;
        match kind {
            DepKind::Buffer => self.deps.remove_buffer(BufferKey(id)),
            DepKind::TextureView => self.deps.remove_texture_view(TextureViewKey(id)),
            DepKind::Sampler => self.deps.remove_sampler(SamplerKey(id)),
        }
        proof {
            assert forall|i: int, k: DepKind, r: u64|
                0 <= i < self.keys@.len() && #[trigger] uses(self.keys@[i]@, k, r)
                    implies self.deps.registered(k, r, self.keys@[i]@) by {
                assert(before_remove.deps.registered(k, r, self.keys@[i]@));
                assert(before_remove.key_views()[i] == self.keys@[i]@);
                if k == kind && r == id {
                    assert(before_remove.caches(self.keys@[i]@));
                }
            }
            assert(self.key_views() == before_remove.key_views());
            assert forall|kv: KeyView| #[trigger] self.caches(kv) <==> (old(self).caches(kv) && !uses(kv, kind, id)) by {
                assert(self.caches(kv) == before_remove.caches(kv));
            }
            assert forall|kv: KeyView| #[trigger] self.caches(kv) implies self.group_of(kv) == old(self).group_of(kv) by {
                assert(self.caches(kv) == before_remove.caches(kv));
                assert(self.group_of(kv) == before_remove.group_of(kv));
            }
        }
    }

    /// Drops every cached bind group that uses the destroyed buffer. Must be
    /// called before the buffer leaves the registry.
    pub fn invalidate_buffer(&mut self, key: BufferKey)
        requires
            old(self).wf(),
        ensures
            final(self).wf(),
            final(self).max_size == old(self).max_size,
            final(self).hits == old(self).hits,
            final(self).misses == old(self).misses,
            forall|kv: KeyView| #[trigger] final(self).caches(kv) <==> (old(self).caches(kv) && !uses(kv, DepKind::Buffer, key.0)),
            forall|kv: KeyView| #[trigger] final(self).caches(kv) ==> final(self).group_of(kv) == old(self).group_of(kv),
            keeps_order(old(self).key_views(), final(self).key_views()),
            final(self).deps.buffer_deps.map@ == old(self).deps.buffer_deps.map@.remove(key.0),
            final(self).deps.texture_view_deps == old(self).deps.texture_view_deps,
            final(self).deps.sampler_deps == old(self).deps.sampler_deps,
    {
        self.drop_dependents(DepKind::Buffer, key.0);
    }

    /// Drops every cached bind group that uses the destroyed texture view.
    pub fn invalidate_texture_view(&mut self, key: TextureViewKey)
        requires
            old(self).wf(),
        ensures
            final(self).wf(),
            final(self).max_size == old(self).max_size,
            final(self).hits == old(self).hits,
            final(self).misses == old(self).misses,
            forall|kv: KeyView| #[trigger] final(self).caches(kv) <==> (old(self).caches(kv) && !uses(kv, DepKind::TextureView, key.0)),
            forall|kv: KeyView| #[trigger] final(self).caches(kv) ==> final(self).group_of(kv) == old(self).group_of(kv),
            keeps_order(old(self).key_views(), final(self).key_views()),
            final(self).deps.texture_view_deps.map@ == old(self).deps.texture_view_deps.map@.remove(key.0),
            final(self).deps.buffer_deps == old(self).deps.buffer_deps,
            final(self).deps.sampler_deps == old(self).deps.sampler_deps,
    {
        self.drop_dependents(DepKind::TextureView, key.0);
    }

    /// Drops every cached bind group that uses the destroyed sampler.
    pub fn invalidate_sampler(&mut self, key: SamplerKey)
        requires
            old(self).wf(),
        ensures
            final(self).wf(),
            final(self).max_size == old(self).max_size,
            final(self).hits == old(self).hits,
            final(self).misses == old(self).misses,
            forall|kv: KeyView| #[trigger] final(self).caches(kv) <==> (old(self).caches(kv) && !uses(kv, DepKind::Sampler, key.0)),
            forall|kv: KeyView| #[trigger] final(self).caches(kv) ==> final(self).group_of(kv) == old(self).group_of(kv),
            keeps_order(old(self).key_views(), final(self).key_views()),
            final(self).deps.sampler_deps.map@ == old(self).deps.sampler_deps.map@.remove(key.0),
            final(self).deps.buffer_deps == old(self).deps.buffer_deps,
            final(self).deps.texture_view_deps == old(self).deps.texture_view_deps,
    {
        self.drop_dependents(DepKind::Sampler, key.0);
    }

    /// Cache statistics: (hits, misses, current size).
    pub fn stats(&self) -> (r: (u64, u64, usize))
        ensures
            r.0 == self.hits && r.1 == self.misses && r.2 == self.keys@.len(),
    {
        (self.hits, self.misses, self.keys.len())
    }
}

} // verus!
