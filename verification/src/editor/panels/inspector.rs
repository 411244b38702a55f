//! The inspector panel's sections and the prefab override lookup.
use std::collections::HashMap;

use vstd::prelude::*;

use crate::editor::prefab::instance::PrefabInstance;
use crate::editor::prefab::overrides::{effectively_overridden, PropertyPath};

verus! {

broadcast use vstd::std_specs::hash::group_hash_axioms;

/// The inspector: which of its sections are expanded.
pub struct InspectorPanel {
    pub transform_expanded: bool,
    pub material_expanded: bool,
    pub camera_expanded: bool,
    pub audio_source_expanded: bool,
    pub audio_listener_expanded: bool,
    pub particle_emitter_expanded: bool,
    pub animator_expanded: bool,
}

impl Default for InspectorPanel {
    fn default() -> (r: Self)
        ensures
            r.transform_expanded && r.material_expanded && r.camera_expanded
                && r.audio_source_expanded && r.audio_listener_expanded
                && r.particle_emitter_expanded && r.animator_expanded,
    {
        Self::new()
    }
}

impl InspectorPanel {
    /// An inspector with every section expanded.
    pub fn new() -> (r: Self)
        ensures
            r.transform_expanded && r.material_expanded && r.camera_expanded
                && r.audio_source_expanded && r.audio_listener_expanded
                && r.particle_emitter_expanded && r.animator_expanded,
    {
        Self {
            transform_expanded: true,
            material_expanded: true,
            camera_expanded: true,
            audio_source_expanded: true,
            audio_listener_expanded: true,
            particle_emitter_expanded: true,
            animator_expanded: true,
        }
    }
}

/// Actions of the audio section.
#[derive(Clone, Debug, PartialEq, Eq)]
pub enum AudioAction {
    /// No action.
    NoAction,
    /// Play a preview of an audio clip.
    PlayPreview(String),
    /// Stop the current preview.
    StopPreview,
}

/// Actions of the prefab section.
#[derive(Clone, Debug, PartialEq, Eq)]
pub enum PrefabAction {
    /// No action.
    NoAction,
    /// Revert a property to the prefab's value.
    RevertProperty { object_id: u32, path: String },
    /// Revert all overrides.
    RevertAll { object_id: u32 },
    /// Apply the overrides back to the prefab.
    ApplyToPrefab { object_id: u32 },
    /// Select the prefab in the browser.
    SelectPrefab { path: String },
    /// Open the prefab for editing.
    OpenPrefab { path: String },
}

/// Whether a property of an object is overridden: the object is a prefab
/// instance and the property, or a path above it, is overridden.
pub fn is_property_overridden(
    obj_id: u32,
    property: &str,
    prefab_instances: &HashMap<u32, PrefabInstance>,
) -> (b: bool)
    ensures
        b == (prefab_instances@.contains_key(obj_id) && effectively_overridden(
            prefab_instances@[obj_id].overrides@,
            property@,
        )),
{
    match prefab_instances.get(&obj_id) {
        Some(instance) => {
            let path = PropertyPath::new(property);
            instance.overrides.is_effectively_overridden(&path)
        },
        None => false,
    }
}

} // verus!
