//! Which instances a prefab change reaches, and the prefabs waiting for one.
use std::collections::HashMap;

use vstd::prelude::*;

use super::instance::PrefabInstance;
use crate::assoc::lemma_push_contains;
use crate::paths::{paths_equal, same_path};
use crate::text::{decimal, decimal_string};

verus! {

broadcast use vstd::std_specs::hash::group_hash_axioms;

/// Result of a propagation operation.
pub struct PropagationResult {
    /// Objects that were updated.
    pub updated_objects: Vec<u32>,
    /// Objects that failed to update, with the reason.
    pub failed_objects: Vec<(u32, String)>,
}

impl Default for PropagationResult {
    fn default() -> (r: Self)
        ensures
            r.updated_objects@.len() == 0,
            r.failed_objects@.len() == 0,
    {
        Self::new()
    }
}

impl PropagationResult {
    /// An empty result.
    pub fn new() -> (r: Self)
        ensures
            r.updated_objects@.len() == 0,
            r.failed_objects@.len() == 0,
    {
        Self { updated_objects: Vec::new(), failed_objects: Vec::new() }
    }

    /// Whether every object was updated.
    pub fn is_success(&self) -> (b: bool)
        ensures
            b == (self.failed_objects@.len() == 0),
    {
        self.failed_objects.len() == 0
    }
}

/// The objects whose instance comes from the prefab at `prefab_path`, each
/// once, in no particular order.
pub fn find_affected_instances(prefab_path: &str, instances: &HashMap<u32, PrefabInstance>) -> (r:
    Vec<u32>)
    ensures
        r@.no_duplicates(),
        forall|id: u32|
            r@.contains(id) <==> instances@.contains_key(id) && same_path(
                instances@[id].prefab_ref.path@,
                prefab_path@,
            ),
{
    let mut r: Vec<u32> = Vec::new();
    for entry in it: instances.iter()
        invariant
            it.seq().no_duplicates(),
            forall|i: int|
                0 <= i < it.seq().len() ==> instances@.contains_key(*it.seq()[i].0)
                    && instances@[*it.seq()[i].0] == *it.seq()[i].1,
            forall|k: u32| #[trigger]
                instances@.contains_key(k) ==> it.seq().contains((&k, &instances@[k])),
            r@.no_duplicates(),
            forall|id: u32|
                r@.contains(id) <==> exists|i: int|
                    0 <= i < it.index() && *it.seq()[i].0 == id && same_path(
                        it.seq()[i].1.prefab_ref.path@,
                        prefab_path@,
                    ),
    {
        let ghost idx = it.index();
        let ghost seq = it.seq();
        let ghost before = r@;
        assert(entry == seq[idx]);
        let (id, instance) = entry;
        let matches = paths_equal(instance.prefab_ref.path.as_str(), prefab_path);
        if matches {
            proof {
                if before.contains(*id) {
                    let i = choose|i: int|
                        0 <= i < idx && *seq[i].0 == *id && same_path(
                            seq[i].1.prefab_ref.path@,
                            prefab_path@,
                        );
                    assert(seq[i] == seq[idx]);
                }
            }
            r.push(*id);
        }
        proof {
            assert forall|id2: u32|
                r@.contains(id2) <==> exists|i: int|
                    0 <= i < idx + 1 && *seq[i].0 == id2 && same_path(
                        seq[i].1.prefab_ref.path@,
                        prefab_path@,
                    ) by {
                if r@.contains(id2) {
                    if before.contains(id2) {
                    } else {
                        assert(id2 == *id);
                        assert(*seq[idx].0 == id2);
                    }
                }
                if exists|i: int|
                    0 <= i < idx + 1 && *seq[i].0 == id2 && same_path(
                        seq[i].1.prefab_ref.path@,
                        prefab_path@,
                    ) {
                    let i = choose|i: int|
                        0 <= i < idx + 1 && *seq[i].0 == id2 && same_path(
                            seq[i].1.prefab_ref.path@,
                            prefab_path@,
                        );
                    if i < idx {
                        assert(before.contains(id2));
                        let k = choose|k: int| 0 <= k < before.len() && before[k] == id2;
                        assert(r@[k] == id2);
                    } else {
                        assert(r@.last() == id2);
                    }
                }
            }
        }
    }
    r
}

/// Whether the instance of object `id` comes from the prefab at `path`.
pub open spec fn instance_of(instances: Map<u32, PrefabInstance>, id: u32, path: Seq<char>) -> bool {
    instances.contains_key(id) && same_path(instances[id].prefab_ref.path@, path)
}

/// Whether an instance of the prefab can take the prefab's values: its
/// object is in the scene and its index names an object of the prefab.
pub open spec fn can_update(
    instances: Map<u32, PrefabInstance>,
    scene_ids: Seq<u32>,
    count: usize,
    id: u32,
) -> bool {
    scene_ids.contains(id) && instances[id].object_index < count
}

/// Why an instance of the prefab cannot take the prefab's values.
pub open spec fn failure_reason(
    instances: Map<u32, PrefabInstance>,
    scene_ids: Seq<u32>,
    id: u32,
) -> Seq<char> {
    if !scene_ids.contains(id) {
        "Object not found"@
    } else {
        "Invalid prefab index: "@ + decimal(instances[id].object_index as nat)
    }
}

/// An instance is updated only when its object is in the scene and its
/// index names one of the prefab's objects; every other instance fails, as
/// "Object not found" when its object is missing, else as an invalid index
/// that is at least the prefab's object count.
pub proof fn lemma_update_needs_valid_index(
    instances: Map<u32, PrefabInstance>,
    scene_ids: Seq<u32>,
    count: usize,
    id: u32,
)
    ensures
        can_update(instances, scene_ids, count, id) ==> scene_ids.contains(id)
            && instances[id].object_index < count,
        !scene_ids.contains(id) ==> !can_update(instances, scene_ids, count, id)
            && failure_reason(instances, scene_ids, id) == "Object not found"@,
        scene_ids.contains(id) && instances[id].object_index >= count ==> !can_update(
            instances,
            scene_ids,
            count,
            id,
        ) && failure_reason(instances, scene_ids, id) == "Invalid prefab index: "@ + decimal(
            instances[id].object_index as nat,
        ),
{
}

/// The object ids of failed updates.
pub open spec fn failed_ids(failed: Seq<(u32, String)>) -> Seq<u32> {
    failed.map_values(|f: (u32, String)| f.0)
}

/// What propagating a changed prefab to the scene does: the objects that
/// take the prefab's values, each with its object's index in the prefab,
/// and the result to report.
pub struct PropagationPlan {
    /// The result: objects updated, and objects that failed with the reason.
    pub result: PropagationResult,
    /// Object id and prefab object index of each object to update, in the
    /// order of `result.updated_objects`.
    pub updates: Vec<(u32, usize)>,
}

/// Adding an element not in a duplicate-free sequence keeps it free of
/// duplicates.
proof fn lemma_push_no_duplicates(s: Seq<u32>, x: u32)
    requires
        s.no_duplicates(),
        !s.contains(x),
    ensures
        s.push(x).no_duplicates(),
{
    let t = s.push(x);
    assert forall|i: int, j: int| 0 <= i < t.len() && 0 <= j < t.len() && i != j implies t[i]
        != t[j] by {
        if i < s.len() && j < s.len() {
            assert(t[i] == s[i] && t[j] == s[j]);
        } else if i < s.len() {
            assert(t[i] == s[i] && s.contains(s[i]));
        } else if j < s.len() {
            assert(t[j] == s[j] && s.contains(s[j]));
        }
    }
}

/// Splitting a duplicate-free sequence by a predicate and its negation:
/// each element lands in exactly one part, and neither part repeats one.
proof fn lemma_filter_split(s: Seq<u32>, p: spec_fn(u32) -> bool, q: spec_fn(u32) -> bool)
    requires
        s.no_duplicates(),
        forall|x: u32| #[trigger] q(x) == !p(x),
    ensures
        s.filter(p).no_duplicates(),
        s.filter(q).no_duplicates(),
        forall|x: u32|
            #![trigger s.contains(x)]
            #![trigger s.filter(p).contains(x)]
            #![trigger s.filter(q).contains(x)]
            s.contains(x) <==> (s.filter(p).contains(x) || s.filter(q).contains(x)),
        forall|x: u32|
            #![trigger s.filter(p).contains(x)]
            #![trigger s.filter(q).contains(x)]
            !(s.filter(p).contains(x) && s.filter(q).contains(x)),
    decreases s.len(),
{
    broadcast use vstd::seq_lib::group_seq_properties;
    if s.len() == 0 {
        assert(s.filter(p) =~= Seq::<u32>::empty()) by {
            reveal(Seq::filter);
        }
        assert(s.filter(q) =~= Seq::<u32>::empty()) by {
            reveal(Seq::filter);
        }
        assert forall|y: u32| !s.contains(y) && !s.filter(p).contains(y) && !s.filter(q).contains(y) by {}
    } else {
        let t = s.drop_last();
        let x = s.last();
        assert(t.push(x) =~= s);
        assert(t.no_duplicates()) by {
            assert forall|i: int, j: int| 0 <= i < t.len() && 0 <= j < t.len() && i != j implies t[i]
                != t[j] by {
                assert(t[i] == s[i] && t[j] == s[j]);
            }
        }
        assert(!t.contains(x)) by {
            if t.contains(x) {
                let k = choose|k: int| 0 <= k < t.len() && t[k] == x;
                assert(s[k] == s[s.len() - 1]);
            }
        }
        lemma_filter_split(t, p, q);
        t.lemma_filter_push(x, p);
        t.lemma_filter_push(x, q);
        if t.filter(p).contains(x) {
            t.lemma_filter_contains_rev(p, x);
        }
        if t.filter(q).contains(x) {
            t.lemma_filter_contains_rev(q, x);
        }
        if p(x) {
            assert(!t.filter(p).contains(x));
            lemma_push_no_duplicates(t.filter(p), x);
        } else {
            assert(q(x));
            assert(!t.filter(q).contains(x));
            lemma_push_no_duplicates(t.filter(q), x);
        }
        assert forall|y: u32|
            #![trigger s.contains(y)]
            #![trigger s.filter(p).contains(y)]
            #![trigger s.filter(q).contains(y)]
            s.contains(y) <==> (s.filter(p).contains(y) || s.filter(q).contains(y)) by {
            lemma_push_contains(t, x, y);
            lemma_push_contains(t.filter(p), x, y);
            lemma_push_contains(t.filter(q), x, y);
        }
        assert forall|y: u32|
            #![trigger s.filter(p).contains(y)]
            #![trigger s.filter(q).contains(y)]
            !(s.filter(p).contains(y) && s.filter(q).contains(y)) by {
            lemma_push_contains(t.filter(p), x, y);
            lemma_push_contains(t.filter(q), x, y);
        }
    }
}

fn contains_id(ids: &[u32], id: u32) -> (b: bool)
    ensures
        b == ids@.contains(id),
{
    let mut i: usize = 0;
    while i < ids.len()
        invariant
            i <= ids@.len(),
            forall|j: int| 0 <= j < i ==> ids@[j] != id,
        decreases ids@.len() - i,
    {
        if ids[i] == id {
            assert(ids@[i as int] == id);
            return true;
        }
        i = i + 1;
    }
    false
}

/// Plan the propagation of a change of the prefab at `prefab_path`, which
/// now has `prefab_object_count` objects, to the scene whose objects have
/// the ids `scene_object_ids`: each instance of that prefab is updated when
/// its object is in the scene and its index is valid, and fails with the
/// reason otherwise. Instances come in no particular order.
pub fn plan_propagation(
    prefab_path: &str,
    prefab_object_count: usize,
    scene_object_ids: &[u32],
    instances: &HashMap<u32, PrefabInstance>,
) -> (r: PropagationPlan)
    ensures
        exists|order: Seq<u32>|
            {
                &&& order.no_duplicates()
                &&& forall|id: u32| #[trigger]
                    order.contains(id) <==> instance_of(instances@, id, prefab_path@)
                &&& r.result.updated_objects@ == order.filter(
                    |id: u32| can_update(instances@, scene_object_ids@, prefab_object_count, id),
                )
                &&& r.result.failed_objects@.map_values(|f: (u32, String)| (f.0, f.1@))
                    == order.filter(
                    |id: u32| !can_update(instances@, scene_object_ids@, prefab_object_count, id),
                ).map_values(
                    |id: u32| (id, failure_reason(instances@, scene_object_ids@, id)),
                )
            },
        r.updates@ == r.result.updated_objects@.map_values(
            |id: u32| (id, instances@[id].object_index),
        ),
        forall|k: int|
            0 <= k < r.updates@.len() ==> (#[trigger] r.updates@[k]).1 < prefab_object_count
                && scene_object_ids@.contains(r.updates@[k].0) && instances@.contains_key(
                r.updates@[k].0,
            ) && r.updates@[k].1 == instances@[r.updates@[k].0].object_index,
        r.result.updated_objects@.no_duplicates(),
        failed_ids(r.result.failed_objects@).no_duplicates(),
        forall|id: u32|
            instance_of(instances@, id, prefab_path@) <==> (
            #[trigger] r.result.updated_objects@.contains(id) || #[trigger] failed_ids(
                r.result.failed_objects@,
            ).contains(id)),
        forall|id: u32|
            !(#[trigger] r.result.updated_objects@.contains(id) && #[trigger] failed_ids(
                r.result.failed_objects@,
            ).contains(id)),
{
    let affected = find_affected_instances(prefab_path, instances);
    let ghost a = affected@;
    let ghost ok = |id: u32| can_update(instances@, scene_object_ids@, prefab_object_count, id);
    let ghost not_ok = |id: u32| !can_update(instances@, scene_object_ids@, prefab_object_count, id);
    let ghost why = |id: u32| (id, failure_reason(instances@, scene_object_ids@, id));
    let ghost with_index = |id: u32| (id, instances@[id].object_index);
    let mut updated: Vec<u32> = Vec::new();
    let mut failed: Vec<(u32, String)> = Vec::new();
    let mut updates: Vec<(u32, usize)> = Vec::new();
    let mut i: usize = 0;
    assert forall|k: int| 0 <= k < a.len() implies #[trigger] instances@.contains_key(a[k]) by {
        assert(a.contains(a[k]));
    }
    while i < affected.len()
        invariant
            a == affected@,
            i <= a.len(),
            forall|k: int| 0 <= k < a.len() ==> #[trigger] instances@.contains_key(a[k]),
            ok == (|id: u32| can_update(instances@, scene_object_ids@, prefab_object_count, id)),
            not_ok == (|id: u32|
                !can_update(instances@, scene_object_ids@, prefab_object_count, id)),
            why == (|id: u32| (id, failure_reason(instances@, scene_object_ids@, id))),
            with_index == (|id: u32| (id, instances@[id].object_index)),
            updated@ == a.take(i as int).filter(ok),
            updates@ == updated@.map_values(with_index),
            failed@.map_values(|f: (u32, String)| (f.0, f.1@)) == a.take(i as int).filter(
                not_ok,
            ).map_values(why),
        decreases a.len() - i,
    {
        let id = affected[i];
        assert(instances@.contains_key(a[i as int]));
        let instance = instances.get(&id).unwrap();
        let index = instance.object_index;
        let found = contains_id(scene_object_ids, id);
        let ghost before_updated = updated@;
        let ghost before_failed = failed@.map_values(|f: (u32, String)| (f.0, f.1@));
        proof {
            assert(a.take(i + 1) =~= a.take(i as int).push(id));
            a.take(i as int).lemma_filter_push(id, ok);
            a.take(i as int).lemma_filter_push(id, not_ok);
        }
        if found && index < prefab_object_count {
            updated.push(id);
            updates.push((id, index));
            assert(updates@ =~= updated@.map_values(with_index));
            assert(failed@.map_values(|f: (u32, String)| (f.0, f.1@)) == a.take(i + 1).filter(
                not_ok,
            ).map_values(why));
        } else {
            let reason = if !found {
                String::from_str("Object not found")
            } else {
                let digits = decimal_string(index);
                String::from_str("Invalid prefab index: ").concat(digits.as_str())
            };
            assert(reason@ == failure_reason(instances@, scene_object_ids@, id));
            failed.push((id, reason));
            assert(failed@.map_values(|f: (u32, String)| (f.0, f.1@)) =~= before_failed.push(
                why(id),
            ));
            assert(a.take(i as int).filter(not_ok).push(id).map_values(why) =~= a.take(
                i as int,
            ).filter(not_ok).map_values(why).push(why(id)));
        }
        i = i + 1;
    }
    assert(a.take(i as int) =~= a);
    proof {
        lemma_filter_split(a, ok, not_ok);
        assert(failed_ids(failed@) =~= a.filter(not_ok)) by {
            let v = failed@.map_values(|f: (u32, String)| (f.0, f.1@));
            assert(v.len() == a.filter(not_ok).len());
            assert forall|k: int| 0 <= k < v.len() implies failed_ids(failed@)[k] == a.filter(
                not_ok,
            )[k] by {
                assert(v[k].0 == failed@[k].0);
                assert(v[k] == why(a.filter(not_ok)[k]));
            }
        }
        assert(updated@ == a.filter(ok));
        assert forall|k: int| 0 <= k < updates@.len() implies (#[trigger] updates@[k]).1
            < prefab_object_count && scene_object_ids@.contains(updates@[k].0)
            && instances@.contains_key(updates@[k].0) && updates@[k].1 == instances@[updates@[
            k].0].object_index by {
            a.lemma_filter_pred(ok, k);
            assert(updates@[k] == with_index(updated@[k]));
            assert(a.contains(updated@[k])) by {
                a.lemma_filter_contains_rev(ok, updated@[k]);
            }
        }
        assert forall|id: u32|
            instance_of(instances@, id, prefab_path@) <==> (#[trigger] updated@.contains(id)
                || #[trigger] failed_ids(failed@).contains(id)) by {
            assert(a.contains(id) <==> instance_of(instances@, id, prefab_path@));
            assert(a.contains(id) <==> (a.filter(ok).contains(id) || a.filter(not_ok).contains(id)));
        }
    }
    PropagationPlan {
        result: PropagationResult { updated_objects: updated, failed_objects: failed },
        updates,
    }
}

/// The pending list after marking `path`: unchanged when an equal path is
/// already pending, else with `path` appended.
pub open spec fn with_pending(pending: Seq<Seq<char>>, path: Seq<char>) -> Seq<Seq<char>> {
    if exists|i: int| 0 <= i < pending.len() && same_path(pending[i], path) {
        pending
    } else {
        pending.push(path)
    }
}

/// No two pending paths are the same path.
pub open spec fn pending_distinct(pending: Seq<Seq<char>>) -> bool {
    forall|i: int, j: int|
        0 <= i < pending.len() && 0 <= j < pending.len() && i != j ==> !same_path(
            #[trigger] pending[i],
            #[trigger] pending[j],
        )
}

/// Prefabs whose changes wait to reach their instances.
pub struct PropagationManager {
    /// Paths of the prefabs with pending updates, each once.
    pending_updates: Vec<String>,
}

impl View for PropagationManager {
    type V = Seq<Seq<char>>;

    closed spec fn view(&self) -> Seq<Seq<char>> {
        self.pending_updates@.map_values(|s: String| s@)
    }
}

impl Default for PropagationManager {
    fn default() -> (r: Self)
        ensures
            r@ == Seq::<Seq<char>>::empty(),
    {
        Self::new()
    }
}

impl PropagationManager {
    /// A manager with nothing pending.
    pub fn new() -> (r: Self)
        ensures
            r@ == Seq::<Seq<char>>::empty(),
            pending_distinct(r@),
    {
        let r = Self { pending_updates: Vec::new() };
        assert(r@ =~= Seq::<Seq<char>>::empty());
        r
    }

    /// Mark a prefab as having a pending update, unless the same path is
    /// already pending.
    pub fn mark_pending(&mut self, path: String)
        ensures
            final(self)@ == with_pending(old(self)@, path@),
            pending_distinct(old(self)@) ==> pending_distinct(final(self)@),
    {
        let mut i: usize = 0;
        while i < self.pending_updates.len()
            invariant
                i <= self@.len(),
                self@ == old(self)@,
                forall|j: int| 0 <= j < i ==> !same_path(self@[j], path@),
                forall|j: int| 0 <= j < i ==> !same_path(path@, self@[j]),
            decreases self@.len() - i,
        {
            if paths_equal(self.pending_updates[i].as_str(), path.as_str()) {
                assert(same_path(old(self)@[i as int], path@));
                return;
            }
            i = i + 1;
        }
        let ghost v = path@;
        self.pending_updates.push(path);
        assert(self@ =~= old(self)@.push(v));
        proof {
            let s = self@;
            if pending_distinct(old(self)@) {
                assert forall|a: int, b: int|
                    0 <= a < s.len() && 0 <= b < s.len() && a != b implies !same_path(
                        #[trigger] s[a],
                        #[trigger] s[b],
                    ) by {
                    if a < old(self)@.len() && b < old(self)@.len() {
                        assert(s[a] == old(self)@[a] && s[b] == old(self)@[b]);
                    } else if a < old(self)@.len() {
                        assert(s[a] == old(self)@[a]);
                    } else {
                        assert(s[b] == old(self)@[b]);
                    }
                }
            }
        }
    }

    /// Whether any update is pending.
    pub fn has_pending(&self) -> (b: bool)
        ensures
            b == (self@.len() > 0),
    {
        self.pending_updates.len() > 0
    }

    /// Hand out the pending paths and clear them.
    pub fn take_pending(&mut self) -> (r: Vec<String>)
        ensures
            r@.map_values(|s: String| s@) == old(self)@,
            final(self)@ == Seq::<Seq<char>>::empty(),
    {
        let mut taken: Vec<String> = Vec::new();
        std::mem::swap(&mut taken, &mut self.pending_updates);
        assert(self@ =~= Seq::<Seq<char>>::empty());
        taken
    }
}

/// Marking a path makes an update pending, and marking the same path again
/// changes nothing (given that the path equals itself, as `Path`'s `==` does).
pub proof fn lemma_mark_pending_idempotent(pending: Seq<Seq<char>>, path: Seq<char>)
    requires
        same_path(path, path),
    ensures
        with_pending(pending, path).len() > 0,
        with_pending(with_pending(pending, path), path) == with_pending(pending, path),
{
    if !exists|i: int| 0 <= i < pending.len() && same_path(pending[i], path) {
        assert(same_path(with_pending(pending, path)[pending.len() as int], path));
    }
}

} // verus!
