//! Which properties an instance takes from its prefab, and which overrides a
//! set of differences from the prefab amounts to.
use vstd::prelude::*;

use super::instance::{InstanceIdGenerator, PrefabInstance, PrefabInstanceGroup, PrefabRef};
use super::overrides::{covers, effectively_overridden, paths, PropertyOverrides};
use super::PrefabError;
use crate::assoc::lemma_push_contains;
use crate::text::{decimal, decimal_string, str_eq, string_views};

verus! {

/// One flag per standard property of a scene object.
#[derive(Clone, Copy, Debug, PartialEq, Eq, Structural)]
pub struct PropertyMask {
    pub name: bool,
    pub position: bool,
    pub rotation: bool,
    pub scale: bool,
    pub color: bool,
    pub visible: bool,
    pub camera: bool,
}

/// The standard properties that a mask selects, by path.
pub open spec fn mask_paths(m: PropertyMask) -> Set<Seq<char>> {
    Set::new(
        |p: Seq<char>|
            (m.name && p == "name"@) || (m.position && p == "position"@) || (m.rotation && p
                == "rotation"@) || (m.scale && p == "scale"@) || (m.color && p == "color"@) || (
            m.visible && p == "visible"@) || (m.camera && p == "camera"@),
    )
}

/// The properties that keep the prefab's value: those that no override covers.
pub open spec fn inherited_mask(o: Set<Seq<char>>) -> PropertyMask {
    PropertyMask {
        name: !effectively_overridden(o, "name"@),
        position: !effectively_overridden(o, "position"@),
        rotation: !effectively_overridden(o, "rotation"@),
        scale: !effectively_overridden(o, "scale"@),
        color: !effectively_overridden(o, "color"@),
        visible: !effectively_overridden(o, "visible"@),
        camera: !effectively_overridden(o, "camera"@),
    }
}

/// The properties that take the prefab's value when it is applied to an
/// instance: each standard property that the instance does not override.
pub fn inherited_properties(overrides: &PropertyOverrides) -> (m: PropertyMask)
    ensures
        m == inherited_mask(overrides@),
{
    PropertyMask {
        name: !overrides.is_effectively_overridden(&paths::name()),
        position: !overrides.is_effectively_overridden(&paths::position()),
        rotation: !overrides.is_effectively_overridden(&paths::rotation()),
        scale: !overrides.is_effectively_overridden(&paths::scale()),
        color: !overrides.is_effectively_overridden(&paths::color()),
        visible: !overrides.is_effectively_overridden(&paths::visible()),
        camera: !overrides.is_effectively_overridden(&paths::camera()),
    }
}

/// The overrides that a set of differences from the prefab amounts to: one
/// per differing property.
pub fn overrides_from_differences(differs: PropertyMask) -> (o: PropertyOverrides)
    ensures
        o.wf(),
        o@ == mask_paths(differs),
{
    let mut o = PropertyOverrides::new();
    if differs.name {
        o.set_override(paths::name());
    }
    if differs.position {
        o.set_override(paths::position());
    }
    if differs.rotation {
        o.set_override(paths::rotation());
    }
    if differs.scale {
        o.set_override(paths::scale());
    }
    if differs.color {
        o.set_override(paths::color());
    }
    if differs.visible {
        o.set_override(paths::visible());
    }
    if differs.camera {
        o.set_override(paths::camera());
    }
    assert(o@ =~= mask_paths(differs));
    o
}


/// A standard path is covered only by itself among the standard paths.
proof fn lemma_standard_cover(o: Seq<char>, p: Seq<char>)
    requires
        mask_paths(PropertyMask {
            name: true,
            position: true,
            rotation: true,
            scale: true,
            color: true,
            visible: true,
            camera: true,
        }).contains(o),
        mask_paths(PropertyMask {
            name: true,
            position: true,
            rotation: true,
            scale: true,
            color: true,
            visible: true,
            camera: true,
        }).contains(p),
        covers(o, p),
    ensures
        o == p,
{
    reveal_strlit("name");
    reveal_strlit("position");
    reveal_strlit("rotation");
    reveal_strlit("scale");
    reveal_strlit("color");
    reveal_strlit("visible");
    reveal_strlit("camera");
    if o != p {
        assert(o.len() <= p.len());
        assert(p.subrange(0, o.len() as int) == o);
        if o.len() == p.len() {
            assert(p.subrange(0, o.len() as int) =~= p);
        } else {
            assert(p[o.len() as int] == '.');
        }
    }
}

/// Detecting the differences of an object from its prefab and then applying
/// the prefab again leaves exactly the differing properties alone: the
/// properties that take the prefab's value are the ones that did not differ.
pub proof fn lemma_detected_overrides_keep_changes(d: PropertyMask)
    ensures
        inherited_mask(mask_paths(d)) == (PropertyMask {
            name: !d.name,
            position: !d.position,
            rotation: !d.rotation,
            scale: !d.scale,
            color: !d.color,
            visible: !d.visible,
            camera: !d.camera,
        }),
{
    let all = PropertyMask {
        name: true,
        position: true,
        rotation: true,
        scale: true,
        color: true,
        visible: true,
        camera: true,
    };
    reveal_strlit("name");
    reveal_strlit("position");
    reveal_strlit("rotation");
    reveal_strlit("scale");
    reveal_strlit("color");
    reveal_strlit("visible");
    reveal_strlit("camera");
    assert("position"@[0] != "rotation"@[0]);
    assert("scale"@[0] != "color"@[0]);
    assert(covers("name"@, "name"@));
    if effectively_overridden(mask_paths(d), "name"@) {
        let o = choose|o: Seq<char>| mask_paths(d).contains(o) && #[trigger] covers(o, "name"@);
        assert(mask_paths(all).contains(o));
        assert(mask_paths(all).contains("name"@));
        lemma_standard_cover(o, "name"@);
        assert(d.name);
    }
    if d.name {
        assert(mask_paths(d).contains("name"@));
    }
    assert(inherited_mask(mask_paths(d)).name == !d.name);
    assert(covers("position"@, "position"@));
    if effectively_overridden(mask_paths(d), "position"@) {
        let o = choose|o: Seq<char>| mask_paths(d).contains(o) && #[trigger] covers(o, "position"@);
        assert(mask_paths(all).contains(o));
        assert(mask_paths(all).contains("position"@));
        lemma_standard_cover(o, "position"@);
        assert(d.position);
    }
    if d.position {
        assert(mask_paths(d).contains("position"@));
    }
    assert(inherited_mask(mask_paths(d)).position == !d.position);
    assert(covers("rotation"@, "rotation"@));
    if effectively_overridden(mask_paths(d), "rotation"@) {
        let o = choose|o: Seq<char>| mask_paths(d).contains(o) && #[trigger] covers(o, "rotation"@);
        assert(mask_paths(all).contains(o));
        assert(mask_paths(all).contains("rotation"@));
        lemma_standard_cover(o, "rotation"@);
        assert(d.rotation);
    }
    if d.rotation {
        assert(mask_paths(d).contains("rotation"@));
    }
    assert(inherited_mask(mask_paths(d)).rotation == !d.rotation);
    assert(covers("scale"@, "scale"@));
    if effectively_overridden(mask_paths(d), "scale"@) {
        let o = choose|o: Seq<char>| mask_paths(d).contains(o) && #[trigger] covers(o, "scale"@);
        assert(mask_paths(all).contains(o));
        assert(mask_paths(all).contains("scale"@));
        lemma_standard_cover(o, "scale"@);
        assert(d.scale);
    }
    if d.scale {
        assert(mask_paths(d).contains("scale"@));
    }
    assert(inherited_mask(mask_paths(d)).scale == !d.scale);
    assert(covers("color"@, "color"@));
    if effectively_overridden(mask_paths(d), "color"@) {
        let o = choose|o: Seq<char>| mask_paths(d).contains(o) && #[trigger] covers(o, "color"@);
        assert(mask_paths(all).contains(o));
        assert(mask_paths(all).contains("color"@));
        lemma_standard_cover(o, "color"@);
        assert(d.color);
    }
    if d.color {
        assert(mask_paths(d).contains("color"@));
    }
    assert(inherited_mask(mask_paths(d)).color == !d.color);
    assert(covers("visible"@, "visible"@));
    if effectively_overridden(mask_paths(d), "visible"@) {
        let o = choose|o: Seq<char>| mask_paths(d).contains(o) && #[trigger] covers(o, "visible"@);
        assert(mask_paths(all).contains(o));
        assert(mask_paths(all).contains("visible"@));
        lemma_standard_cover(o, "visible"@);
        assert(d.visible);
    }
    if d.visible {
        assert(mask_paths(d).contains("visible"@));
    }
    assert(inherited_mask(mask_paths(d)).visible == !d.visible);
    assert(covers("camera"@, "camera"@));
    if effectively_overridden(mask_paths(d), "camera"@) {
        let o = choose|o: Seq<char>| mask_paths(d).contains(o) && #[trigger] covers(o, "camera"@);
        assert(mask_paths(all).contains(o));
        assert(mask_paths(all).contains("camera"@));
        lemma_standard_cover(o, "camera"@);
        assert(d.camera);
    }
    if d.camera {
        assert(mask_paths(d).contains("camera"@));
    }
    assert(inherited_mask(mask_paths(d)).camera == !d.camera);
}

/// The error for a resolution nested `max_depth` deep or deeper.
pub open spec fn depth_error_text(max_depth: usize) -> Seq<char> {
    "Maximum prefab nesting depth ("@ + decimal(max_depth as nat) + ") exceeded"@
}

/// The error for a prefab met again while it is being resolved.
pub open spec fn cycle_error_text(path: Seq<char>) -> Seq<char> {
    "Circular prefab reference detected: "@ + path
}

/// Guards the resolution of prefabs: it refuses to nest too deep, and to
/// resolve a prefab again while it is being resolved.
pub struct PrefabResolver {
    /// Paths of the prefabs being resolved, each once.
    resolution_stack: Vec<String>,
    /// Maximum nesting depth.
    max_depth: usize,
}

impl PrefabResolver {
    /// The paths being resolved.
    pub closed spec fn stack(&self) -> Set<Seq<char>> {
        Set::new(|p: Seq<char>| string_views(self.resolution_stack@).contains(p))
    }

    /// The maximum nesting depth.
    pub closed spec fn depth_limit(&self) -> usize {
        self.max_depth
    }

    /// A resolver with nothing in progress and a nesting limit of 32.
    pub fn new() -> (r: Self)
        ensures
            r.stack() == Set::<Seq<char>>::empty(),
            r.depth_limit() == 32,
    {
        let r = Self { resolution_stack: Vec::new(), max_depth: 32 };
        assert(r.stack() =~= Set::<Seq<char>>::empty());
        r
    }

    /// The same resolver with another nesting limit.
    pub fn with_max_depth(self, depth: usize) -> (r: Self)
        ensures
            r.stack() == self.stack(),
            r.depth_limit() == depth,
    {
        Self { resolution_stack: self.resolution_stack, max_depth: depth }
    }

    /// Start resolving the prefab at `path`, `depth` levels deep: refused
    /// when that is as deep as the limit or deeper, or when the prefab is
    /// already being resolved; else it is marked as being resolved.
    pub fn enter(&mut self, path: &str, depth: usize) -> (r: Result<(), PrefabError>)
        ensures
            depth >= old(self).depth_limit() ==> (r matches Err(PrefabError::Deserialize(m)) && m@
                == depth_error_text(old(self).depth_limit())) && final(self).stack() == old(
                self,
            ).stack(),
            depth < old(self).depth_limit() && old(self).stack().contains(path@) ==> (r matches Err(
                PrefabError::Deserialize(m),
            ) && m@ == cycle_error_text(path@)) && final(self).stack() == old(self).stack(),
            depth < old(self).depth_limit() && !old(self).stack().contains(path@) ==> r is Ok
                && final(self).stack() == old(self).stack().insert(path@),
            final(self).depth_limit() == old(self).depth_limit(),
    {
        if depth >= self.max_depth {
            let digits = decimal_string(self.max_depth);
            let m = String::from_str("Maximum prefab nesting depth (").concat(digits.as_str()).concat(
                ") exceeded",
            );
            return Err(PrefabError::Deserialize(m));
        }
        let ghost v = string_views(self.resolution_stack@);
        let mut i: usize = 0;
        while i < self.resolution_stack.len()
            invariant
                i <= self.resolution_stack@.len(),
                v == string_views(self.resolution_stack@),
                depth < self.max_depth,
                forall|j: int| 0 <= j < i ==> v[j] != path@,
            decreases self.resolution_stack@.len() - i,
        {
            if str_eq(self.resolution_stack[i].as_str(), path) {
                assert(v[i as int] == path@);
                assert(self.stack().contains(path@));
                let m = String::from_str("Circular prefab reference detected: ").concat(path);
                return Err(PrefabError::Deserialize(m));
            }
            i = i + 1;
        }
        assert(!self.stack().contains(path@)) by {
            if self.stack().contains(path@) {
                let k = choose|k: int| 0 <= k < v.len() && v[k] == path@;
                assert(v[k] != path@);
            }
        }
        let ghost before = self.stack();
        self.resolution_stack.push(String::from_str(path));
        assert(string_views(self.resolution_stack@) =~= v.push(path@));
        assert forall|y: Seq<char>| self.stack().contains(y) <==> before.insert(path@).contains(y) by {
            lemma_push_contains(v, path@, y);
        }
        assert(self.stack() =~= before.insert(path@));
        Ok(())
    }

    /// Finish resolving the prefab at `path`: it is no longer marked.
    pub fn leave(&mut self, path: &str)
        ensures
            final(self).stack() == old(self).stack().remove(path@),
            final(self).depth_limit() == old(self).depth_limit(),
    {
        let ghost all = string_views(self.resolution_stack@);
        let mut kept: Vec<String> = Vec::new();
        let mut i: usize = 0;
        while i < self.resolution_stack.len()
            invariant
                i <= self.resolution_stack@.len(),
                all == string_views(self.resolution_stack@),
                forall|y: Seq<char>|
                    #[trigger] string_views(kept@).contains(y) <==> (all.take(
                        i as int,
                    ).contains(y) && y != path@),
            decreases self.resolution_stack@.len() - i,
        {
            let ghost before = string_views(kept@);
            let ghost x = all[i as int];
            assert(all.take(i + 1) =~= all.take(i as int).push(x));
            if !str_eq(self.resolution_stack[i].as_str(), path) {
                kept.push(self.resolution_stack[i].clone());
                assert(string_views(kept@) =~= before.push(x));
                assert forall|y: Seq<char>|
                    #[trigger] string_views(kept@).contains(y) <==> (all.take(
                        i + 1,
                    ).contains(y) && y != path@) by {
                    lemma_push_contains(before, x, y);
                    lemma_push_contains(all.take(i as int), x, y);
                }
            } else {
                assert forall|y: Seq<char>|
                    #[trigger] string_views(kept@).contains(y) <==> (all.take(
                        i + 1,
                    ).contains(y) && y != path@) by {
                    lemma_push_contains(all.take(i as int), x, y);
                }
            }
            i = i + 1;
        }
        assert(all.take(i as int) =~= all);
        let ghost start = self.stack();
        let ghost kv = string_views(kept@);
        self.resolution_stack = kept;
        assert forall|y: Seq<char>| self.stack().contains(y) <==> start.remove(path@).contains(y) by {
            assert(kv.contains(y) <==> (all.contains(y) && y != path@));
        }
        assert(self.stack() =~= start.remove(path@));
    }
}

/// Entering a prefab that is not being resolved and then leaving it puts
/// the resolver back as it was; entering one that is being resolved again
/// is refused (see `enter`), so a prefab is never resolved inside itself.
pub proof fn lemma_enter_then_leave(stack: Set<Seq<char>>, path: Seq<char>)
    requires
        !stack.contains(path),
    ensures
        stack.insert(path).remove(path) == stack,
        stack.insert(path).contains(path),
{
    assert(stack.insert(path).remove(path) =~= stack);
}

/// The bookkeeping of one instantiation of a prefab with `object_count`
/// objects: a group under a fresh instance id, holding the object ids
/// handed out from `next_object_id` on, and one instance per object, in
/// order, each naming its object's index in the prefab.
pub fn instance_records(
    prefab_ref: &PrefabRef,
    object_count: usize,
    next_object_id: &mut u32,
    ids: &mut InstanceIdGenerator,
) -> (r: (PrefabInstanceGroup, Vec<PrefabInstance>))
    requires
        old(ids)@ < u32::MAX,
        *old(next_object_id) + object_count <= u32::MAX,
    ensures
        final(ids)@ == old(ids)@ + 1,
        *final(next_object_id) == *old(next_object_id) + object_count,
        r.0.instance_id == old(ids)@,
        r.0.prefab_ref == *prefab_ref,
        r.0.object_ids@ == Seq::new(object_count as nat, |k: int| (*old(next_object_id) + k) as u32),
        r.1@.len() == object_count,
        forall|k: int|
            0 <= k < object_count ==> (#[trigger] r.1@[k]).prefab_ref == *prefab_ref
                && r.1@[k].object_index == k && r.1@[k].instance_id == old(ids)@ && r.1@[k].is_root
                == (k == 0) && r.1@[k].overrides@ == Set::<Seq<char>>::empty(),
{
    let instance_id = ids.next_id();
    let mut group = PrefabInstanceGroup::new(instance_id, prefab_ref.duplicate());
    let mut instances: Vec<PrefabInstance> = Vec::new();
    let start = *next_object_id;
    let mut idx: usize = 0;
    while idx < object_count
        invariant
            idx <= object_count,
            start + object_count <= u32::MAX,
            *next_object_id == start + idx,
            group.instance_id == instance_id,
            group.prefab_ref == *prefab_ref,
            group.object_ids@ == Seq::new(idx as nat, |k: int| (start + k) as u32),
            instances@.len() == idx,
            forall|k: int|
                0 <= k < idx ==> (#[trigger] instances@[k]).prefab_ref == *prefab_ref
                    && instances@[k].object_index == k && instances@[k].instance_id == instance_id
                    && instances@[k].is_root == (k == 0) && instances@[k].overrides@ == Set::<
                    Seq<char>,
                >::empty(),
        decreases object_count - idx,
    {
        let id = *next_object_id;
        *next_object_id = *next_object_id + 1;
        instances.push(PrefabInstance::new(prefab_ref.duplicate(), idx, instance_id));
        group.add_object(id);
        assert(group.object_ids@ =~= Seq::new((idx + 1) as nat, |k: int| (start + k) as u32));
        idx = idx + 1;
    }
    (group, instances)
}

} // verus!
