use xtreme::editor::prefab::registry::PrefabRegistry;

#[test]
fn test_registry_new() {
    let registry: PrefabRegistry<String> = PrefabRegistry::new();
    assert_eq!(registry.len(), 0);
}

#[test]
fn test_path_resolution() {
    let mut registry: PrefabRegistry<String> = PrefabRegistry::with_base_path("/project".to_string());
    assert_eq!(
        registry.resolve_path("prefabs/test.prefab"),
        "/project/prefabs/test.prefab"
    );

    // Absolute paths should not be modified
    assert_eq!(
        registry.resolve_path("/absolute/path.prefab"),
        "/absolute/path.prefab"
    );

    registry.clear_base_path();
    assert_eq!(registry.resolve_path("prefabs/test.prefab"), "prefabs/test.prefab");
}

#[test]
fn lookup_loads_once_then_serves_cache() {
    let mut registry: PrefabRegistry<String> = PrefabRegistry::with_base_path("/p".to_string());
    let key = registry.resolve_path("a.prefab");
    assert!(registry.begin_get(&key, Some(10)));
    assert!(registry.cached(&key).is_none());
    registry.store(key.clone(), "A".to_string(), Some(10));
    assert!(registry.is_cached("a.prefab"));
    assert_eq!(registry.cached(&key), Some(&"A".to_string()));

    // Unchanged file: served from the cache.
    assert!(!registry.begin_get(&key, Some(10)));
    // Newer file: loaded again, and the new value replaces the old one.
    assert!(registry.begin_get(&key, Some(11)));
    registry.store(key.clone(), "A2".to_string(), Some(11));
    assert_eq!(registry.len(), 1);
    assert_eq!(registry.cached(&key), Some(&"A2".to_string()));

    // A file with a time now and none when loaded is stale too.
    registry.store(key.clone(), "A3".to_string(), None);
    assert!(registry.begin_get(&key, Some(1)));
    // A file without a time now is not.
    assert!(!registry.begin_get(&key, None));

    // Hot reload off: never stale.
    registry.set_hot_reload(false);
    assert!(!registry.begin_get(&key, Some(1000)));
}

#[test]
fn same_path_spellings_share_an_entry() {
    let mut registry: PrefabRegistry<u32> = PrefabRegistry::new();
    registry.store("dir/a.prefab".to_string(), 1, None);
    assert!(!registry.begin_get("dir//a.prefab", None));
    assert_eq!(registry.cached("dir/./a.prefab"), Some(&1));
    registry.store("dir//a.prefab".to_string(), 2, None);
    assert_eq!(registry.len(), 1);
    assert_eq!(registry.cached_paths(), vec!["dir/a.prefab".to_string()]);
}

#[test]
fn full_cache_drops_least_recently_used() {
    let mut registry: PrefabRegistry<u32> = PrefabRegistry::new();
    for i in 0..100u32 {
        let key = format!("p{}.prefab", i);
        assert!(registry.begin_get(&key, None));
        registry.store(key, i, None);
    }
    assert_eq!(registry.stats().cached_count, 100);
    assert_eq!(registry.stats().max_size, 100);

    // Use p0 again, so p1 is now the one used longest ago.
    assert!(!registry.begin_get("p0.prefab", None));
    assert!(registry.begin_get("new.prefab", None));
    assert_eq!(registry.len(), 99);
    assert!(registry.is_cached("p0.prefab"));
    assert!(!registry.is_cached("p1.prefab"));
    registry.store("new.prefab".to_string(), 500, None);
    assert_eq!(registry.len(), 100);
    assert_eq!(registry.cached("new.prefab"), Some(&500));
}

#[test]
fn invalidate_clear_and_base_path_changes() {
    let mut registry: PrefabRegistry<u32> = PrefabRegistry::with_base_path("/base".to_string());
    registry.store(registry.resolve_path("x.prefab"), 7, Some(3));
    registry.store(registry.resolve_path("y.prefab"), 8, Some(3));
    assert_eq!(registry.len(), 2);
    assert!(!registry.is_empty());

    registry.invalidate("x.prefab");
    assert!(!registry.is_cached("x.prefab"));
    assert!(registry.is_cached("/base/y.prefab"));

    let stale = registry.stale_paths(&vec![Some(4)]);
    assert_eq!(stale, vec!["/base/y.prefab".to_string()]);
    assert!(registry.stale_paths(&vec![Some(3)]).is_empty());

    registry.set_base_path("/other".to_string());
    assert!(registry.is_empty());
    registry.store("k".to_string(), 1, None);
    registry.clear();
    assert_eq!(registry.len(), 0);
    registry.remove_cached("k");
    assert_eq!(registry.len(), 0);
}
