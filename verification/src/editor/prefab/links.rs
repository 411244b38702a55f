//! The parent links of a prefab's objects: from a selection of scene
//! objects to positions inside the prefab, and from those positions to the
//! ids of the objects an instantiation creates.
use vstd::prelude::*;

use super::PrefabError;

verus! {

/// The position of the last object with id `id` in the selection, if any
/// (a map from ids to positions built in selection order keeps the last).
pub open spec fn last_position(ids: Seq<u32>, id: u32) -> Option<int>
    decreases ids.len(),
{
    if ids.len() == 0 {
        None
    } else if ids.last() == id {
        Some(ids.len() - 1)
    } else {
        last_position(ids.drop_last(), id)
    }
}

/// The parent of a selected object inside the prefab: the position of its
/// parent in the selection, when its parent is selected. Objects without
/// one are the prefab's roots.
pub open spec fn parent_position(ids: Seq<u32>, parent: Option<u32>) -> Option<int> {
    match parent {
        Some(p) => last_position(ids, p),
        None => None,
    }
}

/// A position found for an id holds that id, and no later position does.
proof fn lemma_last_position(ids: Seq<u32>, id: u32)
    ensures
        match last_position(ids, id) {
            Some(i) => 0 <= i < ids.len() && ids[i] == id && forall|j: int|
                i < j < ids.len() ==> ids[j] != id,
            None => forall|j: int| 0 <= j < ids.len() ==> ids[j] != id,
        },
    decreases ids.len(),
{
    if ids.len() > 0 && ids.last() != id {
        let t = ids.drop_last();
        lemma_last_position(t, id);
        assert forall|j: int| 0 <= j < t.len() implies ids[j] == t[j] by {}
        match last_position(t, id) {
            Some(i) => {
                assert forall|j: int| i < j < ids.len() implies ids[j] != id by {
                    if j < t.len() {
                        assert(ids[j] == t[j]);
                    }
                }
            },
            None => {
                assert forall|j: int| 0 <= j < ids.len() implies ids[j] != id by {
                    if j < t.len() {
                        assert(ids[j] == t[j]);
                    }
                }
            },
        }
    }
}

fn find_last(ids: &[u32], id: u32) -> (r: Option<usize>)
    ensures
        match r {
            Some(i) => last_position(ids@, id) == Some(i as int),
            None => last_position(ids@, id) is None,
        },
{
    let mut i: usize = ids.len();
    assert(ids@.take(i as int) =~= ids@);
    while i > 0
        invariant
            i <= ids@.len(),
            last_position(ids@, id) == last_position(ids@.take(i as int), id),
        decreases i,
    {
        assert(ids@.take(i as int).drop_last() =~= ids@.take(i - 1));
        if ids[i - 1] == id {
            return Some(i - 1);
        }
        i = i - 1;
    }
    assert(ids@.take(0) =~= Seq::<u32>::empty());
    None
}

/// The parent positions inside a prefab made from the selected objects with
/// ids `ids` and parents `parents`: for each object, the position of its
/// parent among them, if its parent is selected. An empty selection makes
/// no prefab.
pub fn selection_parent_positions(ids: &[u32], parents: &[Option<u32>]) -> (r: Result<
    Vec<Option<usize>>,
    PrefabError,
>)
    requires
        ids@.len() == parents@.len(),
    ensures
        ids@.len() == 0 <==> r matches Err(PrefabError::Empty),
        r is Err ==> r matches Err(PrefabError::Empty),
        r matches Ok(v) ==> v@.len() == ids@.len() && forall|i: int|
            0 <= i < v@.len() ==> match #[trigger] v@[i] {
                Some(p) => parent_position(ids@, parents@[i]) == Some(p as int),
                None => parent_position(ids@, parents@[i]) is None,
            },
{
    if ids.len() == 0 {
        return Err(PrefabError::Empty);
    }
    let mut r: Vec<Option<usize>> = Vec::new();
    let mut i: usize = 0;
    while i < ids.len()
        invariant
            ids@.len() == parents@.len(),
            i <= ids@.len(),
            r@.len() == i,
            forall|k: int|
                0 <= k < i ==> match #[trigger] r@[k] {
                    Some(p) => parent_position(ids@, parents@[k]) == Some(p as int),
                    None => parent_position(ids@, parents@[k]) is None,
                },
        decreases ids@.len() - i,
    {
        let p = match parents[i] {
            Some(parent) => find_last(ids, parent),
            None => None,
        };
        r.push(p);
        i = i + 1;
    }
    Ok(r)
}

/// The parent ids of the objects an instantiation creates, with ids from
/// `start` on in prefab order: an object whose prefab parent is at position
/// `p` gets the parent id `start + p`, and a root gets none.
pub fn instance_parent_ids(start: u32, parent_positions: &[Option<usize>]) -> (r: Vec<Option<u32>>)
    requires
        start + parent_positions@.len() <= u32::MAX,
        forall|i: int|
            0 <= i < parent_positions@.len() ==> (#[trigger] parent_positions@[i] matches Some(p)
                ==> start + p <= u32::MAX),
    ensures
        r@.len() == parent_positions@.len(),
        forall|i: int|
            0 <= i < r@.len() ==> #[trigger] r@[i] == match parent_positions@[i] {
                Some(p) => Some((start + p) as u32),
                None => None,
            },
{
    let mut r: Vec<Option<u32>> = Vec::new();
    let mut i: usize = 0;
    while i < parent_positions.len()
        invariant
            i <= parent_positions@.len(),
            r@.len() == i,
            forall|k: int|
                0 <= k < parent_positions@.len() ==> (#[trigger] parent_positions@[k] matches Some(
                    p,
                ) ==> start + p <= u32::MAX),
            forall|k: int|
                0 <= k < i ==> #[trigger] r@[k] == match parent_positions@[k] {
                    Some(p) => Some((start + p) as u32),
                    None => None,
                },
        decreases parent_positions@.len() - i,
    {
        let parent = match parent_positions[i] {
            Some(p) => {
                assert(parent_positions@[i as int] matches Some(q) ==> start + q <= u32::MAX);
                Some(start + p as u32)
            },
            None => None,
        };
        r.push(parent);
        i = i + 1;
    }
    r
}

/// Inside a prefab made from a selection, an object's parent position names
/// its parent among the selected objects, and an object gets none exactly
/// when it has no parent or its parent is not selected. (An instantiation
/// then gives it, as parent, the new object made from that parent.)
pub proof fn lemma_parent_position_names_parent(ids: Seq<u32>, parent: Option<u32>)
    ensures
        match parent_position(ids, parent) {
            Some(p) => 0 <= p < ids.len() && parent == Some(ids[p]),
            None => parent is None || !ids.contains(parent->0),
        },
{
    if let Some(q) = parent {
        lemma_last_position(ids, q);
        if last_position(ids, q) is None {
            if ids.contains(q) {
                let j = choose|j: int| 0 <= j < ids.len() && ids[j] == q;
                assert(ids[j] != q);
            }
        }
    }
}

} // verus!
