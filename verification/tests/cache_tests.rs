use blade_graphics::cache::{BindGroupCache, BindGroupCacheKey, DependencyTracker, PipelineKey, ResourceBinding};
use blade_graphics::handles::{BufferKey, ComputePipelineKey, RenderPipelineKey, SamplerKey, TextureViewKey};

fn buffer_binding(binding: u32, key: u64) -> ResourceBinding {
    ResourceBinding::Buffer { binding, key: BufferKey(key), offset: 0, size: 64 }
}

fn key_with(pipeline: u64, bindings: Vec<ResourceBinding>) -> BindGroupCacheKey {
    BindGroupCacheKey::new(PipelineKey::Render(RenderPipelineKey(pipeline)), 0, bindings)
}

#[test]
fn cache_hit_returns_cached_group_without_calling_create() {
    let mut cache: BindGroupCache<u32> = BindGroupCache::new(4);
    let k = key_with(1, vec![buffer_binding(0, 7)]);
    assert_eq!(*cache.get_or_create(k.clone(), || 10), 10);
    assert_eq!(*cache.get_or_create(k.clone(), || 99), 10);
    assert_eq!(cache.stats(), (1, 1, 1));
}

#[test]
fn cache_distinguishes_group_index_and_pipeline_kind() {
    let mut cache: BindGroupCache<u32> = BindGroupCache::new(8);
    let bindings = vec![buffer_binding(0, 7)];
    let a = BindGroupCacheKey::new(PipelineKey::Render(RenderPipelineKey(1)), 0, bindings.clone());
    let b = BindGroupCacheKey::new(PipelineKey::Render(RenderPipelineKey(1)), 1, bindings.clone());
    let c = BindGroupCacheKey::new(PipelineKey::Compute(ComputePipelineKey(1)), 0, bindings.clone());
    assert_eq!(*cache.get_or_create(a, || 1), 1);
    assert_eq!(*cache.get_or_create(b, || 2), 2);
    assert_eq!(*cache.get_or_create(c, || 3), 3);
    assert_eq!(cache.stats(), (0, 3, 3));
}

#[test]
fn cache_evicts_oldest_when_full() {
    let mut cache: BindGroupCache<u32> = BindGroupCache::new(2);
    let k1 = key_with(1, vec![buffer_binding(0, 1)]);
    let k2 = key_with(2, vec![buffer_binding(0, 2)]);
    let k3 = key_with(3, vec![buffer_binding(0, 3)]);
    cache.get_or_create(k1.clone(), || 1);
    cache.get_or_create(k2.clone(), || 2);
    cache.get_or_create(k3.clone(), || 3);
    assert_eq!(cache.stats(), (0, 3, 2));
    // k2 and k3 stay cached
    assert_eq!(*cache.get_or_create(k2.clone(), || 20), 2);
    assert_eq!(*cache.get_or_create(k3.clone(), || 30), 3);
    // k1 was evicted and is created again
    assert_eq!(*cache.get_or_create(k1.clone(), || 11), 11);
    assert_eq!(cache.stats(), (2, 4, 2));
}

#[test]
fn invalidate_buffer_drops_exactly_its_dependents() {
    let mut cache: BindGroupCache<u32> = BindGroupCache::new(8);
    let uses_5 = key_with(1, vec![buffer_binding(0, 5), buffer_binding(1, 6)]);
    let uses_6 = key_with(2, vec![buffer_binding(0, 6)]);
    cache.get_or_create(uses_5.clone(), || 1);
    cache.get_or_create(uses_6.clone(), || 2);
    cache.invalidate_buffer(BufferKey(5));
    assert_eq!(cache.stats(), (0, 2, 1));
    assert_eq!(*cache.get_or_create(uses_6.clone(), || 20), 2);
    assert_eq!(*cache.get_or_create(uses_5.clone(), || 10), 10);
    cache.invalidate_buffer(BufferKey(6));
    assert_eq!(cache.stats().2, 0);
}

#[test]
fn invalidate_texture_view_and_sampler() {
    let mut cache: BindGroupCache<u32> = BindGroupCache::new(8);
    let tex = key_with(1, vec![ResourceBinding::TextureView { binding: 0, key: TextureViewKey(3) }]);
    let smp = key_with(1, vec![ResourceBinding::Sampler { binding: 1, key: SamplerKey(3) }]);
    let plain = key_with(1, vec![ResourceBinding::PlainData { binding: 2, offset: 0, size: 16 }]);
    cache.get_or_create(tex.clone(), || 1);
    cache.get_or_create(smp.clone(), || 2);
    cache.get_or_create(plain.clone(), || 3);
    // a texture view with the same number as the sampler only drops the view's group
    cache.invalidate_texture_view(TextureViewKey(3));
    assert_eq!(cache.stats().2, 2);
    assert_eq!(*cache.get_or_create(smp.clone(), || 20), 2);
    cache.invalidate_sampler(SamplerKey(3));
    assert_eq!(cache.stats().2, 1);
    // plain data depends on no resource and survives everything
    cache.invalidate_buffer(BufferKey(3));
    assert_eq!(*cache.get_or_create(plain.clone(), || 30), 3);
}

#[test]
fn invalidate_unknown_resource_is_noop() {
    let mut cache: BindGroupCache<u32> = BindGroupCache::new(4);
    cache.get_or_create(key_with(1, vec![buffer_binding(0, 1)]), || 1);
    cache.invalidate_buffer(BufferKey(42));
    cache.invalidate_sampler(SamplerKey(1));
    assert_eq!(cache.stats(), (0, 1, 1));
}

#[test]
fn dependency_tracker_registers_and_removes() {
    let mut deps = DependencyTracker::new();
    let k = key_with(1, vec![buffer_binding(0, 9), ResourceBinding::Sampler { binding: 1, key: SamplerKey(4) }]);
    deps.register(&k);
    assert_eq!(deps.get_buffer_dependents(BufferKey(9)).map(|v| v.len()), Some(1));
    assert_eq!(deps.get_sampler_dependents(SamplerKey(4)).map(|v| v.len()), Some(1));
    assert!(deps.get_texture_view_dependents(TextureViewKey(9)).is_none());
    deps.remove_buffer(BufferKey(9));
    assert!(deps.get_buffer_dependents(BufferKey(9)).is_none());
    assert!(deps.get_sampler_dependents(SamplerKey(4)).is_some());
    deps.remove_sampler(SamplerKey(4));
    assert!(deps.get_sampler_dependents(SamplerKey(4)).is_none());
}

#[test]
fn cache_key_same_as_compares_all_parts() {
    let a = key_with(1, vec![buffer_binding(0, 9)]);
    let b = key_with(1, vec![buffer_binding(0, 9)]);
    let c = key_with(1, vec![buffer_binding(1, 9)]);
    let d = key_with(1, vec![buffer_binding(0, 9), buffer_binding(1, 9)]);
    assert!(a.same_as(&b));
    assert!(!a.same_as(&c));
    assert!(!a.same_as(&d));
}

#[test]
fn new_tracker_has_no_dependents() {
    let deps = DependencyTracker::new();
    assert!(deps.get_buffer_dependents(BufferKey(0)).is_none());
    assert!(deps.get_texture_view_dependents(TextureViewKey(0)).is_none());
    assert!(deps.get_sampler_dependents(SamplerKey(0)).is_none());
}

#[test]
fn invalidation_keeps_order_and_drops_only_the_index_entry() {
    let mut cache: BindGroupCache<u32> = BindGroupCache::new(8);
    let a = key_with(1, vec![buffer_binding(0, 1)]);
    let b = key_with(2, vec![buffer_binding(0, 5), ResourceBinding::Sampler { binding: 1, key: SamplerKey(9) }]);
    let c = key_with(3, vec![buffer_binding(0, 2)]);
    let d = key_with(4, vec![buffer_binding(0, 5)]);
    for (k, v) in [(&a, 1), (&b, 2), (&c, 3), (&d, 4)] {
        cache.get_or_create(k.clone(), || v);
    }
    cache.invalidate_buffer(BufferKey(5));
    assert_eq!(cache.keys.len(), 2);
    assert!(cache.keys[0].same_as(&a));
    assert!(cache.keys[1].same_as(&c));
    assert_eq!(cache.groups, vec![1, 3]);
    assert!(cache.deps.get_buffer_dependents(BufferKey(5)).is_none());
    assert!(cache.deps.get_buffer_dependents(BufferKey(1)).is_some());
    // the sampler index is untouched, even for the dropped key
    assert_eq!(cache.deps.get_sampler_dependents(SamplerKey(9)).map(|v| v.len()), Some(1));
}
