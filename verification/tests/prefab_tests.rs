use std::collections::HashMap;

use xtreme::editor::panels::inspector::is_property_overridden;
use xtreme::editor::prefab::instance::{
    InstanceIdGenerator, PrefabInstance, PrefabInstanceGroup, PrefabRef,
};
use xtreme::editor::prefab::overrides::{PropertyOverrides, PropertyPath};
use xtreme::editor::prefab::propagation::{
    find_affected_instances, plan_propagation, PropagationManager, PropagationResult,
};
use xtreme::editor::prefab::links::{instance_parent_ids, selection_parent_positions};
use xtreme::editor::prefab::resolver::{instance_records, PrefabResolver};
use xtreme::editor::prefab::PrefabError;
use xtreme::text::decimal_string;

#[test]
fn test_prefab_ref() {
    let pref = PrefabRef::new("prefabs/player.prefab");
    assert_eq!(pref.name(), "player");

    let pref2 = PrefabRef::with_uuid("prefabs/enemy.prefab", "abc-123");
    assert_eq!(pref2.uuid, Some("abc-123".to_string()));
}

#[test]
fn test_prefab_instance() {
    let pref = PrefabRef::new("prefabs/player.prefab");
    let instance = PrefabInstance::root(pref, 1);

    assert!(instance.is_root);
    assert_eq!(instance.object_index, 0);
    assert!(!instance.has_overrides());
}

#[test]
fn test_instance_id_generator() {
    let mut gen = InstanceIdGenerator::new();
    assert_eq!(gen.next_id(), 1);
    assert_eq!(gen.next_id(), 2);

    gen.ensure_after(100);
    assert_eq!(gen.next_id(), 101);
}

#[test]
fn test_property_path() {
    let pos = PropertyPath::new("position");
    let pos_x = PropertyPath::new("position.x");

    assert!(pos.is_parent_of(&pos_x));
    assert!(!pos_x.is_parent_of(&pos));
    assert!(pos_x.is_child_of(&pos));

    assert_eq!(pos.root(), "position");
    assert_eq!(pos_x.root(), "position");
    assert_eq!(pos_x.tail(), Some(PropertyPath::new("x")));
    assert_eq!(pos.tail(), None);
}

#[test]
fn test_property_overrides() {
    let mut overrides = PropertyOverrides::new();

    overrides.set_override(PropertyPath::new("position"));

    assert!(overrides.is_overridden(&PropertyPath::new("position")));
    assert!(!overrides.is_overridden(&PropertyPath::new("rotation")));

    // Check effective override
    assert!(overrides.is_effectively_overridden(&PropertyPath::new("position.x")));
    assert!(!overrides.is_effectively_overridden(&PropertyPath::new("rotation.x")));

    overrides.remove_override(&PropertyPath::new("position"));
    assert!(!overrides.is_overridden(&PropertyPath::new("position")));
}

#[test]
fn test_is_property_overridden() {
    let mut instances = HashMap::new();
    let mut instance = PrefabInstance::root(PrefabRef::new("test.prefab"), 1);
    instance
        .overrides
        .set_override(PropertyPath::new("position"));

    instances.insert(42, instance);

    assert!(is_property_overridden(42, "position", &instances));
    assert!(is_property_overridden(42, "position.x", &instances));
    assert!(!is_property_overridden(42, "rotation", &instances));
    assert!(!is_property_overridden(99, "position", &instances));
}

#[test]
fn test_propagation_result() {
    let mut result = PropagationResult::new();
    assert!(result.is_success());

    result.updated_objects.push(1);
    assert!(result.is_success());

    result.failed_objects.push((2, "Error".to_string()));
    assert!(!result.is_success());
}

#[test]
fn test_propagation_manager() {
    let mut manager = PropagationManager::new();
    assert!(!manager.has_pending());

    manager.mark_pending("test.prefab".into());
    assert!(manager.has_pending());

    let pending = manager.take_pending();
    assert_eq!(pending.len(), 1);
    assert!(!manager.has_pending());
}

#[test]
fn mark_pending_twice_keeps_one_entry() {
    let mut manager = PropagationManager::new();
    manager.mark_pending("prefabs/a.prefab".to_string());
    manager.mark_pending("prefabs/b.prefab".to_string());
    // The same path, spelled with a doubled separator, is the same path.
    manager.mark_pending("prefabs//a.prefab".to_string());
    let pending = manager.take_pending();
    assert_eq!(pending, vec!["prefabs/a.prefab".to_string(), "prefabs/b.prefab".to_string()]);
    assert!(manager.take_pending().is_empty());
}

#[test]
fn affected_instances_match_by_path() {
    let mut instances = HashMap::new();
    instances.insert(1, PrefabInstance::root(PrefabRef::new("prefabs/tree.prefab"), 7));
    instances.insert(2, PrefabInstance::new(PrefabRef::new("prefabs/tree.prefab"), 1, 7));
    instances.insert(3, PrefabInstance::root(PrefabRef::new("prefabs/rock.prefab"), 8));
    instances.insert(4, PrefabInstance::root(PrefabRef::new("prefabs//tree.prefab"), 9));
    let mut found = find_affected_instances("prefabs/tree.prefab", &instances);
    found.sort();
    assert_eq!(found, vec![1, 2, 4]);
    assert!(find_affected_instances("prefabs/none.prefab", &instances).is_empty());
}

#[test]
fn prefab_names_come_from_file_stems() {
    assert_eq!(PrefabRef::new("a/b/house.v2.prefab").name(), "house.v2");
    assert_eq!(PrefabRef::new("").name(), "Unknown");
    let instance = PrefabInstance::new(PrefabRef::new("crate.prefab"), 2, 5);
    assert!(!instance.is_root);
    assert_eq!(instance.prefab_name(), "crate");
    assert_eq!(instance.prefab_path(), "crate.prefab");
    assert_eq!(instance.instance_id, 5);
}

#[test]
fn instance_group_root_is_first_object() {
    let mut group = PrefabInstanceGroup::new(3, PrefabRef::new("p.prefab"));
    assert_eq!(group.root_id(), None);
    group.add_object(10);
    group.add_object(11);
    assert_eq!(group.root_id(), Some(10));
    assert_eq!(group.object_ids, vec![10, 11]);
}

#[test]
fn id_generator_edges() {
    let mut gen = InstanceIdGenerator::with_start(50);
    gen.ensure_after(10);
    assert_eq!(gen.next_id(), 50);
    gen.ensure_after(51);
    assert_eq!(gen.next_id(), 52);
    assert_eq!(InstanceIdGenerator::default().next_id(), 1);
}

#[test]
fn property_path_components() {
    let p = PropertyPath::new("audio_source.volume.db");
    assert_eq!(p.root(), "audio_source");
    assert_eq!(p.tail(), Some(PropertyPath::new("volume.db")));
    assert_eq!(p.as_str(), "audio_source.volume.db");
    let q = PropertyPath::new(".x");
    assert_eq!(q.root(), "");
    assert_eq!(q.tail(), Some(PropertyPath::new("x")));
    let same = PropertyPath::new("position");
    assert!(!same.is_parent_of(&PropertyPath::new("position")));
    // A parent is a whole component above: a text prefix alone is not one.
    assert!(!PropertyPath::new("pos").is_parent_of(&PropertyPath::new("position")));
    assert!(!PropertyPath::new("position").is_parent_of(&PropertyPath::new("positionX")));
    assert!(PropertyPath::new("position").is_parent_of(&PropertyPath::new("position.x.y")));
    assert!(!PropertyPath::new("position.x").is_child_of(&PropertyPath::new("pos")));
    assert!(PropertyPath::new("camera.fov").is_child_of(&PropertyPath::new("camera")));
}

#[test]
fn setting_an_override_twice_counts_once() {
    let mut o = PropertyOverrides::new();
    o.set_override(PropertyPath::new("scale"));
    assert_eq!(o.count(), 1);
    o.set_override(PropertyPath::new("scale"));
    assert_eq!(o.count(), 1);
    o.set_override(PropertyPath::new("color"));
    assert_eq!(o.count(), 2);
}

#[test]
fn effective_overrides_need_a_dot_boundary() {
    let mut o = PropertyOverrides::new();
    o.set_override(PropertyPath::new("pos"));
    assert!(o.is_effectively_overridden(&PropertyPath::new("pos")));
    assert!(o.is_effectively_overridden(&PropertyPath::new("pos.y")));
    assert!(!o.is_effectively_overridden(&PropertyPath::new("position")));
    assert!(!o.is_effectively_overridden(&PropertyPath::new("po")));
    let mut child = PropertyOverrides::new();
    child.set_override(PropertyPath::new("camera.fov"));
    assert!(!child.is_effectively_overridden(&PropertyPath::new("camera")));
}

#[test]
fn overrides_count_merge_and_clear() {
    let mut a = PropertyOverrides::new();
    assert!(a.is_empty());
    a.set_override(PropertyPath::new("name"));
    a.set_override(PropertyPath::new("name"));
    a.set_override(PropertyPath::new("color"));
    assert_eq!(a.count(), 2);
    let mut b = PropertyOverrides::new();
    b.set_override(PropertyPath::new("color"));
    b.set_override(PropertyPath::new("scale"));
    a.merge(&b);
    assert_eq!(a.count(), 3);
    let mut paths: Vec<String> = a.paths().into_iter().map(|p| p.0).collect();
    paths.sort();
    assert_eq!(paths, vec!["color", "name", "scale"]);
    a.remove_override(&PropertyPath::new("missing"));
    assert_eq!(a.count(), 3);
    a.clear();
    assert!(a.is_empty());
    assert_eq!(a.count(), 0);
}

#[test]
fn prefab_error_messages() {
    assert_eq!(PrefabError::Empty.message(), "Cannot create prefab from empty selection");
    assert_eq!(PrefabError::Io("disk".to_string()).message(), "IO error: disk");
    assert_eq!(PrefabError::Serialize("x".to_string()).message(), "Serialize error: x");
    assert_eq!(PrefabError::Deserialize("y".to_string()).message(), "Deserialize error: y");
}

#[test]
fn decimal_numerals() {
    assert_eq!(decimal_string(0), "0");
    assert_eq!(decimal_string(7), "7");
    assert_eq!(decimal_string(10), "10");
    assert_eq!(decimal_string(1234567890), "1234567890");
    assert_eq!(decimal_string(usize::MAX), usize::MAX.to_string());
}

#[test]
fn propagation_plan_sorts_instances() {
    let mut instances: HashMap<u32, PrefabInstance> = HashMap::new();
    instances.insert(1, PrefabInstance::new(PrefabRef::new("p/a.prefab"), 0, 9));
    instances.insert(2, PrefabInstance::new(PrefabRef::new("p//a.prefab"), 5, 9));
    instances.insert(3, PrefabInstance::new(PrefabRef::new("p/a.prefab"), 1, 9));
    instances.insert(4, PrefabInstance::new(PrefabRef::new("p/b.prefab"), 0, 9));
    let plan = plan_propagation("p/a.prefab", 2, &[1, 2, 4], &instances);
    assert_eq!(plan.result.updated_objects, vec![1]);
    assert_eq!(plan.updates, vec![(1, 0)]);
    let mut failed = plan.result.failed_objects.clone();
    failed.sort();
    assert_eq!(
        failed,
        vec![
            (2, "Invalid prefab index: 5".to_string()),
            (3, "Object not found".to_string()),
        ]
    );
    assert!(!plan.result.is_success());

    let none = plan_propagation("p/c.prefab", 2, &[1, 2, 3, 4], &instances);
    assert!(none.result.updated_objects.is_empty());
    assert!(none.result.is_success());
}

#[test]
fn resolver_refuses_deep_and_circular_nesting() {
    let mut resolver = PrefabResolver::new();
    assert!(resolver.enter("a.prefab", 0).is_ok());
    match resolver.enter("a.prefab", 1) {
        Err(PrefabError::Deserialize(m)) => {
            assert_eq!(m, "Circular prefab reference detected: a.prefab")
        }
        other => panic!("unexpected {:?}", other),
    }
    match resolver.enter("b.prefab", 32) {
        Err(PrefabError::Deserialize(m)) => {
            assert_eq!(m, "Maximum prefab nesting depth (32) exceeded")
        }
        other => panic!("unexpected {:?}", other),
    }
    resolver.leave("a.prefab");
    assert!(resolver.enter("a.prefab", 0).is_ok());

    let mut shallow = PrefabResolver::new().with_max_depth(1);
    assert!(shallow.enter("x", 0).is_ok());
    match shallow.enter("y", 1) {
        Err(PrefabError::Deserialize(m)) => {
            assert_eq!(m, "Maximum prefab nesting depth (1) exceeded")
        }
        other => panic!("unexpected {:?}", other),
    }
}

#[test]
fn instance_records_number_objects_in_order() {
    let mut next_object_id: u32 = 10;
    let mut ids = InstanceIdGenerator::with_start(7);
    let prefab_ref = PrefabRef::new("prefabs/tree.prefab");
    let (group, instances) = instance_records(&prefab_ref, 3, &mut next_object_id, &mut ids);
    assert_eq!(next_object_id, 13);
    assert_eq!(ids.next_id(), 8);
    assert_eq!(group.instance_id, 7);
    assert_eq!(group.object_ids, vec![10, 11, 12]);
    assert_eq!(group.root_id(), Some(10));
    assert_eq!(instances.len(), 3);
    assert!(instances[0].is_root && !instances[1].is_root);
    assert_eq!(instances[2].object_index, 2);
    assert_eq!(instances[1].instance_id, 7);
    assert_eq!(instances[1].prefab_path(), "prefabs/tree.prefab");
}

#[test]
fn prefab_links_from_selection_to_instance() {
    assert!(matches!(selection_parent_positions(&[], &[]), Err(PrefabError::Empty)));

    // Selected: 10 (root), 11 (child of 10), 12 (child of 99, not selected),
    // 13 (child of 11).
    let ids = [10u32, 11, 12, 13];
    let parents = [None, Some(10u32), Some(99), Some(11)];
    let positions = match selection_parent_positions(&ids, &parents) {
        Ok(p) => p,
        Err(e) => panic!("unexpected {:?}", e),
    };
    assert_eq!(positions, vec![None, Some(0), None, Some(1)]);
    assert_eq!(instance_parent_ids(100, &positions), vec![None, Some(100), None, Some(101)]);

    // With a repeated id, the later object is the one found.
    let positions = selection_parent_positions(&[5, 5, 6], &[None, None, Some(5)]).unwrap();
    assert_eq!(positions, vec![None, None, Some(1)]);
}
