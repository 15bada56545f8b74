use engene::memory::asset_manager::{AssetRegistry, AssetState};
use engene::memory::atomic_saved::{is_save_valid, recovery_action, RecoveryAction};
use engene::memory::component_delta::{
    apply_transform_deltas, collect_dirty_needs, collect_dirty_transforms, collect_transform_deltas,
    DirtyFlags, Ecs, PersonalNeeds, SparseSet, Transform, PERSONAL_NEEDS, TRANSFORM,
};
use engene::memory::entity_pool::{EntityPool, PooledEntity};
use engene::memory::memory_manager::{MemoryManager, Subsystem, SubsystemStats};
use engene::memory::streaming_cache::StreamingCache;

#[test]
fn test_allocate_deallocate() {
    let mut pool = EntityPool::new(10);

    let e1 = pool.allocate().expect("should allocate");
    assert_eq!(pool.allocated_count(), 1);

    let e2 = pool.allocate().expect("should allocate");
    assert_ne!(e1.index, e2.index);
    assert_eq!(pool.allocated_count(), 2);

    assert!(pool.deallocate(e1));
    assert_eq!(pool.allocated_count(), 1);

    // After deallocate, pool has capacity for one more
    let e3 = pool.allocate().expect("should allocate");
    assert_eq!(pool.allocated_count(), 2);

    // e3 should have incremented generation (either from e1's slot or another)
    assert!(pool.is_valid(e3));
}

#[test]
fn test_stale_handle_detection() {
    let mut pool = EntityPool::new(10);

    let e1 = pool.allocate().unwrap();
    assert!(pool.is_valid(e1));

    pool.deallocate(e1);

    // e1 is now stale (generation mismatch)
    assert!(!pool.is_valid(e1));

    // Allocate new entity - will have updated generation
    let e2 = pool.allocate().unwrap();

    // e2 is valid, e1 is still stale
    assert!(pool.is_valid(e2));
    assert!(!pool.is_valid(e1));
}

#[test]
fn test_pool_exhaustion() {
    let mut pool = EntityPool::new(3);

    let _e1 = pool.allocate();
    let _e2 = pool.allocate();
    let _e3 = pool.allocate();

    assert!(pool.allocate().is_none());
}

#[test]
fn pool_hands_out_highest_index_first_and_reuses_freed_last() {
    let mut pool = EntityPool::new(3);
    let a = pool.allocate().unwrap();
    assert_eq!(a, PooledEntity { index: 2, generation: 0 });
    assert_eq!(pool.available(), 2);
    assert_eq!(pool.capacity(), 3);
    assert!(pool.deallocate(a));
    assert!(!pool.deallocate(a));
    assert_eq!(pool.allocate().unwrap(), PooledEntity { index: 1, generation: 0 });
    assert_eq!(pool.allocate().unwrap(), PooledEntity { index: 0, generation: 0 });
    assert_eq!(pool.allocate().unwrap(), PooledEntity { index: 2, generation: 1 });
    assert_eq!(pool.allocated_count() + pool.available(), pool.capacity());
}

#[test]
fn pool_rejects_out_of_range_handle() {
    let mut pool = EntityPool::new(2);
    let bogus = PooledEntity { index: 5, generation: 0 };
    assert!(!pool.is_valid(bogus));
    assert!(!pool.deallocate(bogus));
    assert_eq!(pool.allocated_count(), 0);
}

#[test]
fn test_basic_operations() {
    let mut cache: StreamingCache<i32, String> = StreamingCache::new(10, 1);

    cache.insert(1, "one".to_string(), 100);
    cache.insert(2, "two".to_string(), 100);

    assert_eq!(cache.get(&1), Some(&"one".to_string()));
    assert_eq!(cache.get(&3), None);
    assert_eq!(cache.len(), 2);
}

#[test]
fn test_lru_eviction() {
    let mut cache: StreamingCache<i32, String> = StreamingCache::new(3, 1);

    cache.insert(1, "one".to_string(), 100);
    cache.insert(2, "two".to_string(), 100);
    cache.insert(3, "three".to_string(), 100);

    // Access 1 to make it more recent
    cache.get(&1);

    // Insert 4, should evict 2 (LRU)
    cache.insert(4, "four".to_string(), 100);

    assert!(cache.contains(&1));
    assert!(!cache.contains(&2)); // Evicted
    assert!(cache.contains(&3));
    assert!(cache.contains(&4));
}

#[test]
fn test_memory_eviction() {
    let mut cache: StreamingCache<i32, String> = StreamingCache::new(100, 1); // 1 MB limit

    // Insert 2 MB of data (should evict)
    cache.insert(1, "a".to_string(), 512 * 1024);
    cache.insert(2, "b".to_string(), 512 * 1024);

    // Memory is now at 1 MB
    assert_eq!(cache.memory_usage(), 1024 * 1024);

    // Insert more, should evict
    cache.insert(3, "c".to_string(), 512 * 1024);

    // Should have evicted to make room
    assert!(cache.memory_usage() <= 1024 * 1024);
}

#[test]
fn cache_lru_order_with_explicit_clock() {
    let mut cache: StreamingCache<u32, u32> = StreamingCache::new(2, 1);
    cache.insert_at(1, 10, 1, 100);
    cache.insert_at(2, 20, 1, 200);
    // Key 1 becomes the most recently used.
    assert_eq!(cache.get_at(&1, 300), Some(&10));
    cache.insert_at(3, 30, 1, 400);
    assert!(cache.contains(&1));
    assert!(!cache.contains(&2));
    assert!(cache.contains(&3));
    assert_eq!(cache.memory_usage(), 2);
    assert_eq!(cache.hit_count(), 1);
    assert_eq!(cache.miss_count(), 0);
}

#[test]
fn cache_ties_on_time_broken_by_access_count() {
    let mut cache: StreamingCache<u32, u32> = StreamingCache::new(2, 1);
    cache.insert_at(1, 10, 1, 100);
    cache.insert_at(2, 20, 1, 100);
    // Same reading, but key 2 used twice.
    cache.get_at(&2, 100);
    cache.insert_at(3, 30, 1, 100);
    assert!(!cache.contains(&1));
    assert!(cache.contains(&2));
}

#[test]
fn cache_evicts_stale_entries() {
    let mut cache: StreamingCache<u32, u32> = StreamingCache::new(10, 1);
    cache.insert_at(1, 10, 5, 0);
    cache.insert_at(2, 20, 7, 2_000_000_000);
    cache.insert_at(3, 30, 11, 3_500_000_000);
    // At 4 s, entries last used more than 1 s ago are 1 and 2.
    assert_eq!(cache.evict_older_than_at(1, 4_000_000_000), 2);
    assert!(!cache.contains(&1));
    assert!(!cache.contains(&2));
    assert!(cache.contains(&3));
    assert_eq!(cache.memory_usage(), 11);
    // A very large age evicts nothing.
    assert_eq!(cache.evict_older_than_at(u64::MAX, u64::MAX), 0);
    assert_eq!(cache.evict_older_than(1_000_000), 0);
}

#[test]
fn cache_remove_get_mut_and_clear() {
    let mut cache: StreamingCache<u32, u32> = StreamingCache::new(10, 1);
    cache.insert(1, 10, 64);
    cache.insert(2, 20, 32);
    if let Some(v) = cache.get_mut(&1) {
        *v = 11;
    }
    assert_eq!(cache.get(&1), Some(&11));
    assert!(cache.get_mut(&9).is_none());
    assert_eq!(cache.remove(&2), Some(20));
    assert_eq!(cache.remove(&2), None);
    assert_eq!(cache.memory_usage(), 64);
    assert!(!cache.is_empty());
    cache.clear();
    assert!(cache.is_empty());
    assert_eq!(cache.memory_usage(), 0);
    assert_eq!(cache.max_entries(), 10);
    assert_eq!(cache.max_memory_bytes(), 1024 * 1024);
}

#[test]
fn test_basic_tracking() {
    let mut mm = MemoryManager::new();

    mm.record_alloc(Subsystem::Physics, 1024);
    assert_eq!(mm.current_usage(Subsystem::Physics), 1024);

    mm.record_alloc(Subsystem::Physics, 2048);
    assert_eq!(mm.current_usage(Subsystem::Physics), 3072);

    mm.record_free(Subsystem::Physics, 1024);
    assert_eq!(mm.current_usage(Subsystem::Physics), 2048);
}

#[test]
fn test_budget_warning() {
    let mut mm = MemoryManager::new();
    mm.set_budget(Subsystem::AI, 100);

    mm.record_alloc(Subsystem::AI, 50);
    assert!(!mm.has_over_budget());

    mm.record_alloc(Subsystem::AI, 100);
    assert!(mm.has_over_budget());
}

#[test]
fn test_report() {
    let mut mm = MemoryManager::new();
    mm.record_alloc(Subsystem::Graphics, 1024 * 1024);
    mm.record_alloc(Subsystem::AI, 512 * 1024);

    let report = mm.report();
    assert_eq!(report.current_total, 1024 * 1024 + 512 * 1024);
    assert_eq!(report.subsystems.len(), 9);
}

#[test]
fn memory_manager_peaks_budgets_and_over_budget_list() {
    let mut mm = MemoryManager::default();
    assert_eq!(Subsystem::Graphics.default_budget(), 512 * 1024 * 1024);
    assert_eq!(Subsystem::ECS.name(), "ecs");
    mm.set_budget(Subsystem::World, 10);
    mm.set_budget(Subsystem::Other, 10);
    mm.record_alloc(Subsystem::World, 30);
    mm.record_free(Subsystem::World, 25);
    mm.record_alloc(Subsystem::Other, 11);
    assert_eq!(mm.over_budget_subsystems(), vec![Subsystem::Other]);
    let report = mm.report();
    let world = &report.subsystems[2];
    assert_eq!(world.subsystem, Subsystem::World);
    assert_eq!(world.current_bytes, 5);
    assert_eq!(world.peak_bytes, 30);
    assert_eq!(world.alloc_count, 1);
    assert_eq!(world.free_count, 1);
    assert_eq!(mm.total_usage(), 16);
    let stats = SubsystemStats::new(7);
    assert_eq!(stats.budget_bytes, 7);
    assert_eq!(stats.current_bytes, 0);
}

#[test]
fn dirty_flags_mark_and_query() {
    let mut flags = DirtyFlags::new(4);
    flags.mark(1, TRANSFORM);
    flags.mark(1, PERSONAL_NEEDS);
    flags.mark(3, PERSONAL_NEEDS);
    flags.mark(10, TRANSFORM);
    assert!(flags.is_dirty(1, TRANSFORM));
    assert!(!flags.is_dirty(0, TRANSFORM));
    assert!(!flags.is_dirty(10, TRANSFORM));
    assert!(flags.any_dirty(3));
    assert!(!flags.any_dirty(2));
    assert_eq!(flags.component_bits(1), 0b1001);
    assert_eq!(flags.component_bits(99), 0);
    assert_eq!(flags.dirty_entities(), vec![1, 3]);
    assert_eq!(flags.dirty_entities_for(PERSONAL_NEEDS), vec![1, 3]);
    assert_eq!(flags.dirty_entities_for(TRANSFORM), vec![1]);
    flags.ensure_capacity(6);
    flags.mark(5, TRANSFORM);
    assert_eq!(flags.dirty_entities(), vec![1, 3, 5]);
    flags.clear();
    assert!(flags.dirty_entities().is_empty());
    assert_eq!(DirtyFlags::default().component_bits(16383), 0);
}

fn transform(x: f32, y: f32, cx: u32, cy: u32) -> Transform {
    Transform { x_bits: x.to_bits(), y_bits: y.to_bits(), cell_x: cx, cell_y: cy }
}

#[test]
fn transform_delta_roundtrip() {
    let mut store = SparseSet::new();
    store.insert(2, transform(1.5, -2.0, 7, 8));
    store.insert(5, transform(0.25, 100.0, 70000, 3));
    let delta = collect_transform_deltas(&[5, 3, 2], &store);
    assert_eq!(delta.component_type_id, 0);
    assert_eq!(delta.entity_ids, vec![5, 2]);
    assert_eq!(delta.data.len(), 32);
    assert_eq!(&delta.data[0..4], &0.25f32.to_le_bytes());
    assert_eq!(&delta.data[8..12], &70000u32.to_le_bytes());

    let mut target = SparseSet::new();
    target.insert(2, transform(9.0, 9.0, 9, 9));
    apply_transform_deltas(&delta, &mut target);
    assert_eq!(target.get(&5), Some(&transform(0.25, 100.0, 70000, 3)));
    assert_eq!(target.get(&2), Some(&transform(1.5, -2.0, 7, 8)));
    assert_eq!(target.get(&3), None);
}

#[test]
fn apply_ignores_incomplete_records() {
    let mut delta = collect_transform_deltas(&[], &SparseSet::new());
    delta.entity_ids = vec![4, 6];
    delta.data = vec![1, 0, 0, 0, 2, 0, 0, 0, 3, 0, 0, 0, 4, 0, 0, 0, 9, 9];
    let mut target = SparseSet::new();
    apply_transform_deltas(&delta, &mut target);
    assert_eq!(target.get(&4), Some(&Transform { x_bits: 1, y_bits: 2, cell_x: 3, cell_y: 4 }));
    assert_eq!(target.get(&6), None);
}

#[test]
fn collect_dirty_components() {
    let mut ecs = Ecs { transforms: SparseSet::new(), personal_needs: SparseSet::new() };
    ecs.transforms.insert(100, transform(1.0, 2.0, 3, 4));
    ecs.transforms.insert(200, transform(5.0, 6.0, 7, 8));
    ecs.personal_needs.insert(
        200,
        PersonalNeeds {
            hunger_bits: 1,
            thirst_bits: 2,
            sleep_bits: 3,
            health_bits: 4,
            energy_bits: 5,
            fear_bits: 6,
        },
    );
    let mut dirty = DirtyFlags::new(3);
    let entities = [100u64, 200, 300];
    assert!(collect_dirty_transforms(&dirty, &entities, &ecs).is_none());
    dirty.mark(1, TRANSFORM);
    dirty.mark(2, TRANSFORM);
    dirty.mark(1, PERSONAL_NEEDS);
    let d = collect_dirty_transforms(&dirty, &entities, &ecs).unwrap();
    assert_eq!(d.entity_ids, vec![200]);
    assert_eq!(d.data.len(), 16);
    let n = collect_dirty_needs(&dirty, &entities, &ecs).unwrap();
    assert_eq!(n.component_type_id, 3);
    assert_eq!(n.entity_ids, vec![200]);
    assert_eq!(n.data, vec![1, 0, 0, 0, 2, 0, 0, 0, 4, 0, 0, 0, 5, 0, 0, 0, 6, 0, 0, 0]);
}

#[test]
fn asset_requests_share_handles_by_path() {
    let mut reg: AssetRegistry<u32> = AssetRegistry::new();
    assert_eq!(reg.next_handle(), 1);
    assert_eq!(reg.request_model("models/a.glb".to_string()), (1, true));
    assert_eq!(reg.request_model("models/b.glb".to_string()), (2, true));
    assert_eq!(reg.request_model("models/a.glb".to_string()), (1, false));
    // Textures draw from the same handle counter.
    assert_eq!(reg.request_texture("models/a.glb".to_string()), (3, true));
    assert_eq!(reg.request_texture("models/a.glb".to_string()), (3, false));
    assert_eq!(reg.next_handle(), 4);
    assert!(matches!(reg.get_model(1), Some(AssetState::Loading)));
    assert!(matches!(reg.get_texture(3), Some(AssetState::Loading)));
    assert!(reg.get_model(3).is_none());
    assert!(reg.get_texture(1).is_none());
}

#[test]
fn asset_results_set_ready_or_failed() {
    let mut reg: AssetRegistry<u32> = AssetRegistry::new();
    let (m, _) = reg.request_model("m".to_string());
    let (t, _) = reg.request_texture("t".to_string());
    reg.finish_model(m, Ok(42));
    reg.finish_texture(t, Err("missing".to_string()));
    assert!(matches!(reg.get_model(m), Some(AssetState::Ready(42))));
    match reg.get_texture(t) {
        Some(AssetState::Failed(e)) => assert_eq!(e, "missing"),
        _ => panic!("texture should have failed"),
    }
    reg.finish_texture(t, Ok(vec![1, 2, 3]));
    match reg.get_texture(t) {
        Some(AssetState::Ready(bytes)) => assert_eq!(bytes, &vec![1u8, 2, 3]),
        _ => panic!("texture should be ready"),
    }
}

#[test]
fn cache_counts_hits_and_misses() {
    let mut cache: StreamingCache<i32, String> = StreamingCache::new(10, 1);
    cache.insert(1, "one".to_string(), 100);
    cache.get(&1);
    cache.get(&1);
    cache.get(&2);
    assert_eq!(cache.hit_count(), 2);
    assert_eq!(cache.miss_count(), 1);
}

#[test]
fn save_validity_needs_a_non_empty_file() {
    assert!(!is_save_valid(None));
    assert!(!is_save_valid(Some(0)));
    assert!(is_save_valid(Some(1)));
}

#[test]
fn recovery_uses_backup_only_when_needed() {
    assert_eq!(recovery_action(None, true), RecoveryAction::RestoreBackup);
    assert_eq!(recovery_action(Some(99), true), RecoveryAction::ReplaceTruncated);
    assert_eq!(recovery_action(Some(100), true), RecoveryAction::Keep);
    assert_eq!(recovery_action(None, false), RecoveryAction::Keep);
    assert_eq!(recovery_action(Some(0), false), RecoveryAction::Keep);
}

#[test]
fn cache_reinsert_counts_only_the_new_size() {
    let mut cache: StreamingCache<u32, u32> = StreamingCache::new(10, 1);
    cache.insert_at(1, 10, 100, 1);
    cache.insert_at(1, 20, 60, 2);
    assert_eq!(cache.len(), 1);
    assert_eq!(cache.memory_usage(), 60);
    assert_eq!(cache.get_at(&1, 3), Some(&20));
    assert_eq!(cache.remove(&1), Some(20));
    assert_eq!(cache.memory_usage(), 0);
}

#[test]
fn cache_clock_never_goes_back_behind_used_entries() {
    let mut cache: StreamingCache<u32, u32> = StreamingCache::new(2, 1);
    // An entry used at a far-future reading stays the most recent until the
    // real clock is consulted; then the next insert is at least as recent.
    cache.insert_at(1, 10, 1, u64::MAX - 1);
    cache.insert(2, 20, 1);
    cache.insert(3, 30, 1);
    assert!(cache.contains(&3));
    assert_eq!(cache.len(), 2);
}

#[test]
fn dirty_entities_for_is_sorted_and_exact() {
    let mut flags = DirtyFlags::new(6);
    flags.mark(4, TRANSFORM);
    flags.mark(1, TRANSFORM);
    flags.mark(2, PERSONAL_NEEDS);
    assert_eq!(flags.dirty_entities_for(TRANSFORM), vec![1, 4]);
    assert_eq!(flags.dirty_entities(), vec![1, 2, 4]);
}

#[test]
fn pool_reuses_an_index_only_after_it_is_freed() {
    let mut pool = EntityPool::new(2);
    let a = pool.allocate().unwrap();
    let b = pool.allocate().unwrap();
    assert_ne!(a.index, b.index);
    assert!(pool.allocate().is_none());
    assert!(pool.deallocate(a));
    let c = pool.allocate().unwrap();
    assert_eq!(c.index, a.index);
    assert_ne!(c.generation, a.generation);
    assert_eq!(pool.allocated_count() + pool.available(), pool.capacity());
}
