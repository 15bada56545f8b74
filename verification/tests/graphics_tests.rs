use engene::graphics::decal_system::{count_class, eviction_index, DecalClass};
use engene::graphics::particles::MAX_PARTICLES;
use engene::graphics::render_validation::{
    generate_pass_checklists, CheckStatus, RenderCheckStatus, RenderValidationResult,
};
use engene::graphics::shader_loader::ShaderSources;
use engene::graphics::sky::determinism::WeatherDeterminism;
use engene::graphics::surface_state_render::SurfaceStateRenderSystem;

#[test]
fn test_max_particles_constant() {
    assert_eq!(MAX_PARTICLES, 16384);
}

#[test]
fn test_default_sources() {
    let sources = ShaderSources::default();
    assert_eq!(sources.count(), 0);
    assert!(!sources.has("test"));
}

#[test]
fn test_get_nonexistent() {
    let sources = ShaderSources::default();
    assert!(sources.get("nonexistent").is_none());
}

#[test]
fn shader_insert_replaces_by_name() {
    let mut sources = ShaderSources::default();
    sources.insert("sky".to_string(), "fn a() {}".to_string());
    sources.insert("pbr".to_string(), "fn b() {}".to_string());
    sources.insert("sky".to_string(), "fn c() {}".to_string());
    assert_eq!(sources.count(), 2);
    assert!(sources.has("pbr"));
    assert_eq!(sources.get("sky"), Some(&"fn c() {}".to_string()));
}

#[test]
fn pipeline_counts() {
    let result = RenderValidationResult::validate_pipeline();
    assert_eq!(result.checks.len(), 16);
    assert_eq!(result.pass_count(), 9);
    assert_eq!(result.partial_count(), 4);
    assert_eq!(result.missing_count(), 3);
    assert_eq!(result.checks[13].name, "Particles");
    assert_eq!(result.checks[13].status, RenderCheckStatus::Missing);
}

#[test]
fn pass_checklists_are_untested() {
    let lists = generate_pass_checklists();
    assert_eq!(lists.len(), 7);
    assert_eq!(lists[2].pass_name, "TAA");
    assert_eq!(lists[2].checks.len(), 5);
    assert_eq!(lists[2].checks[0].name, "motion_vectors");
    assert!(lists.iter().all(|l| l.checks.iter().all(|c| c.status == CheckStatus::NotTested)));
}

#[test]
fn decal_priorities() {
    assert_eq!(DecalClass::WetFootprint.priority(), 1);
    assert_eq!(DecalClass::BurnSpread.priority(), 10);
    assert_eq!(DecalClass::Impact.priority(), 7);
    assert!(DecalClass::Leak.rain_washable());
    assert!(!DecalClass::Crack.rain_washable());
}

#[test]
fn weather_rng_is_reproducible() {
    let mut a = WeatherDeterminism::new(1);
    assert_eq!(a.next_u64(), 1082269761);
    assert_eq!(a.next_u64(), 1152992998833853505);
    let mut b = a.fork(41);
    assert_eq!(b.master_seed, 42);
    assert_eq!(b.next_u64(), 45454805674);
}

#[test]
fn surface_upload_count() {
    let mut s = SurfaceStateRenderSystem::new();
    assert_eq!(s.dirty_upload_count, 0);
    s.update(&[(1, 2), (3, 4)]);
    assert_eq!(s.dirty_upload_count, 2);
}

#[test]
fn decal_eviction_picks_first_lowest_priority() {
    assert_eq!(eviction_index(&[]), None);
    let classes = [
        DecalClass::Crack,
        DecalClass::MudSplash,
        DecalClass::Impact,
        DecalClass::MudSplash,
    ];
    assert_eq!(eviction_index(&classes), Some(1));
    let with_footprint = [DecalClass::Impact, DecalClass::WetFootprint, DecalClass::WetFootprint];
    assert_eq!(eviction_index(&with_footprint), Some(1));
    assert_eq!(eviction_index(&[DecalClass::Crack, DecalClass::BurnSpread]), Some(0));
}

#[test]
fn decal_count_by_class() {
    let classes = [DecalClass::Leak, DecalClass::Impact, DecalClass::Leak];
    assert_eq!(count_class(&classes, DecalClass::Leak), 2);
    assert_eq!(count_class(&classes, DecalClass::Impact), 1);
    assert_eq!(count_class(&classes, DecalClass::Crack), 0);
}

#[test]
fn weather_rng_seed_getter_and_zero_seed() {
    let mut rng = WeatherDeterminism::new(0);
    assert_eq!(rng.master_seed(), 0);
    assert_eq!(rng.next_u64(), 0);
    assert_eq!(rng.next_u64(), 0);
    let child = WeatherDeterminism::new(5).fork(3);
    assert_eq!(child.master_seed(), 8);
    assert_eq!(child.master_seed, 8);
}
