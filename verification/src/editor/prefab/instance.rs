//! Prefab instances in the scene, with their overrides.
use vstd::prelude::*;

use super::overrides::PropertyOverrides;
use crate::paths::{file_stem, file_stem_of};

verus! {

/// Reference to a prefab file.
#[derive(Clone, Debug, PartialEq, Eq, Hash)]
pub struct PrefabRef {
    /// Path to the prefab file (relative to the project).
    pub path: String,
    /// Optional UUID for a more robust reference.
    pub uuid: Option<String>,
}

/// The name shown for a prefab: the stem of its file, or `Unknown`.
pub open spec fn prefab_name_of(path: Seq<char>) -> Seq<char> {
    match file_stem_of(path) {
        Some(stem) => stem,
        None => "Unknown"@,
    }
}

impl PrefabRef {
    /// Create a reference from a path.
    pub fn new(path: &str) -> (r: Self)
        ensures
            r.path@ == path@,
            r.uuid is None,
    {
        Self { path: String::from_str(path), uuid: None }
    }

    /// Create a reference with a UUID.
    pub fn with_uuid(path: &str, uuid: &str) -> (r: Self)
        ensures
            r.path@ == path@,
            r.uuid.deep_view() == Some(uuid@),
    {
        Self { path: String::from_str(path), uuid: Some(String::from_str(uuid)) }
    }

    /// A copy of this reference.
    pub fn duplicate(&self) -> (r: Self)
        ensures
            r == *self,
    {
        let uuid = match &self.uuid {
            Some(u) => Some(u.clone()),
            None => None,
        };
        Self { path: self.path.clone(), uuid }
    }

    /// The prefab's name, from its path.
    pub fn name(&self) -> (r: String)
        ensures
            r@ == prefab_name_of(self.path@),
    {
        match file_stem(self.path.as_str()) {
            Some(stem) => stem,
            None => String::from_str("Unknown"),
        }
    }
}

/// A prefab instance in the scene: links a scene object to its source prefab
/// and tracks the object's property overrides.
pub struct PrefabInstance {
    /// Reference to the source prefab.
    pub prefab_ref: PrefabRef,
    /// Index of this object within the prefab.
    pub object_index: usize,
    /// Properties that differ from the prefab.
    pub overrides: PropertyOverrides,
    /// Whether this is the root instance (the prefab's first object).
    pub is_root: bool,
    /// Links the objects of one instantiation.
    pub instance_id: u32,
}

impl PrefabInstance {
    /// Create an instance of the prefab's object at `object_index`.
    pub fn new(prefab_ref: PrefabRef, object_index: usize, instance_id: u32) -> (r: Self)
        ensures
            r.prefab_ref == prefab_ref,
            r.object_index == object_index,
            r.overrides.wf(),
            r.overrides@ == Set::<Seq<char>>::empty(),
            r.is_root == (object_index == 0),
            r.instance_id == instance_id,
    {
        Self {
            prefab_ref,
            object_index,
            overrides: PropertyOverrides::new(),
            is_root: object_index == 0,
            instance_id,
        }
    }

    /// Create the root instance.
    pub fn root(prefab_ref: PrefabRef, instance_id: u32) -> (r: Self)
        ensures
            r.prefab_ref == prefab_ref,
            r.object_index == 0,
            r.overrides.wf(),
            r.overrides@ == Set::<Seq<char>>::empty(),
            r.is_root,
            r.instance_id == instance_id,
    {
        Self {
            prefab_ref,
            object_index: 0,
            overrides: PropertyOverrides::new(),
            is_root: true,
            instance_id,
        }
    }

    /// Whether this instance has any overrides.
    pub fn has_overrides(&self) -> (b: bool)
        ensures
            b == (self.overrides@ != Set::<Seq<char>>::empty()),
    {
        !self.overrides.is_empty()
    }

    /// The prefab's path.
    pub fn prefab_path(&self) -> (r: &String)
        ensures
            *r == self.prefab_ref.path,
    {
        &self.prefab_ref.path
    }

    /// The prefab's name.
    pub fn prefab_name(&self) -> (r: String)
        ensures
            r@ == prefab_name_of(self.prefab_ref.path@),
    {
        self.prefab_ref.name()
    }
}

/// The objects that came from one instantiation of a prefab.
pub struct PrefabInstanceGroup {
    /// Unique ID for this group.
    pub instance_id: u32,
    /// The prefab.
    pub prefab_ref: PrefabRef,
    /// IDs of the objects in this group, in creation order.
    pub object_ids: Vec<u32>,
}

impl PrefabInstanceGroup {
    /// Create an empty group.
    pub fn new(instance_id: u32, prefab_ref: PrefabRef) -> (r: Self)
        ensures
            r.instance_id == instance_id,
            r.prefab_ref == prefab_ref,
            r.object_ids@ == Seq::<u32>::empty(),
    {
        Self { instance_id, prefab_ref, object_ids: Vec::new() }
    }

    /// Add an object to the group.
    pub fn add_object(&mut self, id: u32)
        ensures
            final(self).object_ids@ == old(self).object_ids@.push(id),
            final(self).instance_id == old(self).instance_id,
            final(self).prefab_ref == old(self).prefab_ref,
    {
        self.object_ids.push(id);
    }

    /// The root object's ID: the first object added.
    pub fn root_id(&self) -> (r: Option<u32>)
        ensures
            r == (if self.object_ids@.len() > 0 {
                Some(self.object_ids@[0])
            } else {
                None
            }),
    {
        if self.object_ids.len() > 0 {
            Some(self.object_ids[0])
        } else {
            None
        }
    }
}

/// Hands out instance IDs.
pub struct InstanceIdGenerator {
    next_id: u32,
}

impl View for InstanceIdGenerator {
    /// The ID that the next call hands out.
    type V = u32;

    closed spec fn view(&self) -> u32 {
        self.next_id
    }
}

impl Default for InstanceIdGenerator {
    fn default() -> (r: Self)
        ensures
            r@ == 1,
    {
        Self::new()
    }
}

impl InstanceIdGenerator {
    /// Create a generator that starts at 1.
    pub fn new() -> (r: Self)
        ensures
            r@ == 1,
    {
        Self { next_id: 1 }
    }

    /// Create a generator that starts at `start`.
    pub fn with_start(start: u32) -> (r: Self)
        ensures
            r@ == start,
    {
        Self { next_id: start }
    }

    /// Hand out the next ID.
    pub fn next_id(&mut self) -> (id: u32)
        requires
            old(self)@ < u32::MAX,
        ensures
            id == old(self)@,
            final(self)@ == old(self)@ + 1,
    {
        let id = self.next_id;
        self.next_id = self.next_id + 1;
        id
    }

    /// Make sure that future IDs come after `id`.
    pub fn ensure_after(&mut self, id: u32)
        requires
            id < u32::MAX,
        ensures
            final(self)@ == (if id >= old(self)@ {
                (id + 1) as u32
            } else {
                old(self)@
            }),
    {
        if id >= self.next_id {
            self.next_id = id + 1;
        }
    }
}

/// Every ID handed out after `ensure_after(id)` is greater than `id`, and
/// successive IDs strictly increase, so none is handed out twice.
pub proof fn lemma_ids_increase(before: u32, after_ensure: u32, id: u32)
    requires
        id < u32::MAX,
        after_ensure == (if id >= before {
            (id + 1) as u32
        } else {
            before
        }),
    ensures
        after_ensure > id,
        after_ensure >= before,
{
}

} // verus!
