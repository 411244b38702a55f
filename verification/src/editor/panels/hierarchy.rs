//! The hierarchy panel's expanded nodes.
use std::collections::HashSet;

use vstd::prelude::*;

use crate::editor::selection::ObjectId;
use crate::text::{contains_seq, contains_str, lowercase, to_lowercase};

verus! {

broadcast use vstd::std_specs::hash::group_hash_axioms;

/// The hierarchy panel: a filter, and which tree nodes are expanded.
pub struct HierarchyPanel {
    /// Search filter.
    filter: String,
    /// Whether to show hidden objects.
    show_hidden: bool,
    /// Expanded nodes (nodes are collapsed by default).
    expanded: HashSet<ObjectId>,
}

/// The abstract panel state.
pub struct HierarchyView {
    pub filter: Seq<char>,
    pub show_hidden: bool,
    pub expanded: Set<ObjectId>,
}

impl View for HierarchyPanel {
    type V = HierarchyView;

    closed spec fn view(&self) -> HierarchyView {
        HierarchyView {
            filter: self.filter@,
            show_hidden: self.show_hidden,
            expanded: self.expanded@,
        }
    }
}

impl Default for HierarchyPanel {
    fn default() -> (r: Self)
        ensures
            r@ == (HierarchyView {
                filter: Seq::empty(),
                show_hidden: false,
                expanded: Set::empty(),
            }),
    {
        Self::new()
    }
}

impl HierarchyPanel {
    /// A panel with every node collapsed.
    pub fn new() -> (r: Self)
        ensures
            r@ == (HierarchyView {
                filter: Seq::empty(),
                show_hidden: false,
                expanded: Set::empty(),
            }),
    {
        Self { filter: String::new(), show_hidden: false, expanded: HashSet::new() }
    }

    /// Expand a collapsed node, or collapse an expanded one.
    pub fn toggle_expanded(&mut self, id: ObjectId)
        ensures
            final(self)@ == (HierarchyView {
                expanded: if old(self)@.expanded.contains(id) {
                    old(self)@.expanded.remove(id)
                } else {
                    old(self)@.expanded.insert(id)
                },
                ..old(self)@
            }),
    {
        if self.expanded.contains(&id) {
            self.expanded.remove(&id);
        } else {
            self.expanded.insert(id);
        }
    }

    /// Replace the search text.
    pub fn set_filter(&mut self, filter: String)
        ensures
            final(self)@ == (HierarchyView { filter: filter@, ..old(self)@ }),
    {
        self.filter = filter;
    }

    /// The search text.
    pub fn filter(&self) -> (r: &str)
        ensures
            r@ == self@.filter,
    {
        self.filter.as_str()
    }

    /// Show or hide hidden objects.
    pub fn set_show_hidden(&mut self, show: bool)
        ensures
            final(self)@ == (HierarchyView { show_hidden: show, ..old(self)@ }),
    {
        self.show_hidden = show;
    }

    /// Whether hidden objects are shown.
    pub fn show_hidden(&self) -> (b: bool)
        ensures
            b == self@.show_hidden,
    {
        self.show_hidden
    }

    /// How many objects the panel lists.
    pub fn listed_count(&self, objects: &[ObjectRow]) -> (r: usize)
        ensures
            r == Seq::new(objects@.len(), |i: int| i).filter(
                |i: int| listed(self@, object_views(objects@)[i]),
            ).len(),
    {
        let ghost objs = object_views(objects@);
        let ghost idx = Seq::new(objects@.len(), |i: int| i);
        let ghost pred = |i: int| listed(self@, objs[i]);
        let mut count: usize = 0;
        let mut i: usize = 0;
        while i < objects.len()
            invariant
                objs == object_views(objects@),
                idx == Seq::new(objects@.len(), |i: int| i),
                pred == (|i: int| listed(self@, objs[i])),
                i <= objects@.len(),
                count == idx.take(i as int).filter(pred).len(),
            decreases objects@.len() - i,
        {
            proof {
                assert(idx.take(i + 1) =~= idx.take(i as int).push(i as int));
                idx.take(i as int).lemma_filter_push(i as int, pred);
                idx.take(i as int).lemma_filter_len(pred);
                assert(objs[i as int] == objects@[i as int]@);
            }
            if objects[i].visible || self.show_hidden {
                count = count + 1;
            }
            i = i + 1;
        }
        assert(idx.take(i as int) =~= idx);
        count
    }

    fn collect_tree(
        &self,
        objects: &[ObjectRow],
        parent: Option<ObjectId>,
        depth: usize,
        levels: usize,
        out: &mut Vec<(usize, usize)>,
    )
        requires
            depth + levels <= objects@.len(),
        ensures
            row_views(final(out)@) == row_views(old(out)@) + tree_rows_from(
                object_views(objects@),
                self@,
                parent,
                depth as nat,
                levels as nat,
                0,
            ),
        decreases levels,
    {
        let ghost objs = object_views(objects@);
        let ghost target = row_views(old(out)@) + tree_rows_from(
            objs,
            self@,
            parent,
            depth as nat,
            levels as nat,
            0,
        );
        let mut k: usize = 0;
        while k < objects.len()
            invariant
                objs == object_views(objects@),
                depth + levels <= objects@.len(),
                k <= objects@.len(),
                target == row_views(out@) + tree_rows_from(
                    objs,
                    self@,
                    parent,
                    depth as nat,
                    levels as nat,
                    k as nat,
                ),
            decreases objects@.len() - k,
        {
            let o = &objects[k];
            let ghost rest = tree_rows_from(
                objs,
                self@,
                parent,
                depth as nat,
                levels as nat,
                (k + 1) as nat,
            );
            assert(objs[k as int] == o@);
            if o.parent == parent && (o.visible || self.show_hidden) {
                let ghost before = row_views(out@);
                out.push((k, depth));
                assert(row_views(out@) =~= before.push((k as int, depth as nat)));
                if self.expanded.contains(&o.id) && levels > 0 {
                    let ghost mid = row_views(out@);
                    self.collect_tree(objects, Some(o.id), depth + 1, levels - 1, out);
                    let ghost below = tree_rows_from(
                        objs,
                        self@,
                        Some(o.id),
                        (depth + 1) as nat,
                        (levels - 1) as nat,
                        0,
                    );
                    assert(seq![(k as int, depth as nat)] + below + rest =~= seq![
                        (k as int, depth as nat),
                    ] + (below + rest));
                    assert(before + (seq![(k as int, depth as nat)] + below + rest) =~= before.push(
                        (k as int, depth as nat),
                    ) + below + rest);
                } else {
                    assert(seq![(k as int, depth as nat)] + Seq::<(int, nat)>::empty() + rest
                        =~= seq![(k as int, depth as nat)] + rest);
                    assert(before + (seq![(k as int, depth as nat)] + rest) =~= before.push(
                        (k as int, depth as nat),
                    ) + rest);
                }
            }
            k = k + 1;
        }
        assert(row_views(out@) + Seq::<(int, nat)>::empty() =~= row_views(out@));
    }

    /// The rows the panel shows, as (object position, depth): with a search
    /// text, the listed objects that match it, at depth 0; else the tree of
    /// listed objects from the roots, children under their expanded parent.
    /// The tree is cut below as many levels as there are objects, which cuts
    /// nothing when no two objects share an id.
    pub fn rows(&self, objects: &[ObjectRow]) -> (r: Vec<(usize, usize)>)
        ensures
            row_views(r@) == panel_rows(object_views(objects@), self@),
    {
        let ghost objs = object_views(objects@);
        let mut out: Vec<(usize, usize)> = Vec::new();
        if self.filter.as_str().unicode_len() > 0 {
            let lower_filter = to_lowercase(self.filter.as_str());
            let ghost idx = Seq::new(objs.len(), |i: int| i);
            let ghost pred = |i: int| listed(self@, objs[i]) && matches_search(self@, objs[i]);
            let ghost at_top = |i: int| (i, 0nat);
            let mut i: usize = 0;
            while i < objects.len()
                invariant
                    objs == object_views(objects@),
                    idx == Seq::new(objs.len(), |i: int| i),
                    pred == (|i: int| listed(self@, objs[i]) && matches_search(self@, objs[i])),
                    at_top == (|i: int| (i, 0nat)),
                    lower_filter@ == lowercase(self@.filter),
                    i <= objects@.len(),
                    row_views(out@) == idx.take(i as int).filter(pred).map_values(at_top),
                decreases objects@.len() - i,
            {
                let o = &objects[i];
                assert(objs[i as int] == o@);
                let shown = (o.visible || self.show_hidden) && {
                    let lower = to_lowercase(o.name.as_str());
                    contains_str(lower.as_str(), lower_filter.as_str())
                };
                proof {
                    assert(pred(i as int) == shown);
                    assert(idx.take(i + 1) =~= idx.take(i as int).push(i as int));
                    idx.take(i as int).lemma_filter_push(i as int, pred);
                }
                let ghost before = row_views(out@);
                if shown {
                    out.push((i, 0));
                    assert(row_views(out@) =~= before.push((i as int, 0nat)));
                    assert(idx.take(i as int).filter(pred).push(i as int).map_values(at_top)
                        =~= idx.take(i as int).filter(pred).map_values(at_top).push(at_top(i as int)));
                }
                i = i + 1;
            }
            assert(idx.take(i as int) =~= idx);
        } else {
            self.collect_tree(objects, None, 0, objects.len(), &mut out);
            assert(row_views(Seq::<(usize, usize)>::empty()) =~= Seq::<(int, nat)>::empty());
            assert(Seq::<(int, nat)>::empty() + tree_rows_from(objs, self@, None, 0, objs.len(), 0)
                =~= tree_rows_from(objs, self@, None, 0, objs.len(), 0));
        }
        out
    }

    /// Whether a node is expanded.
    pub fn is_expanded(&self, id: ObjectId) -> (b: bool)
        ensures
            b == self@.expanded.contains(id),
    {
        self.expanded.contains(&id)
    }
}

/// What the hierarchy panel reads of a scene object.
#[derive(Clone, Debug)]
pub struct ObjectRow {
    /// The object's id.
    pub id: ObjectId,
    /// Its parent's id, for a child.
    pub parent: Option<ObjectId>,
    /// Whether it is visible.
    pub visible: bool,
    /// Its name.
    pub name: String,
}

/// The abstract object row.
pub struct ObjectRowView {
    pub id: ObjectId,
    pub parent: Option<ObjectId>,
    pub visible: bool,
    pub name: Seq<char>,
}

impl View for ObjectRow {
    type V = ObjectRowView;

    open spec fn view(&self) -> ObjectRowView {
        ObjectRowView { id: self.id, parent: self.parent, visible: self.visible, name: self.name@ }
    }
}

/// The objects as plain values.
pub open spec fn object_views(objects: Seq<ObjectRow>) -> Seq<ObjectRowView> {
    objects.map_values(|o: ObjectRow| o@)
}

/// Whether the panel lists an object: it is visible, or hidden ones are shown.
pub open spec fn listed(v: HierarchyView, o: ObjectRowView) -> bool {
    o.visible || v.show_hidden
}

/// Whether an object matches the search: its name holds the search text,
/// letter case ignored.
pub open spec fn matches_search(v: HierarchyView, o: ObjectRowView) -> bool {
    contains_seq(lowercase(o.name), lowercase(v.filter))
}

/// The tree rows (object position, depth) of the children of `parent`
/// among the objects from position `k` on, at `depth`: each listed child in
/// order, followed, when it is expanded, by its own children one level
/// deeper, up to `levels` more levels.
pub open spec fn tree_rows_from(
    objs: Seq<ObjectRowView>,
    v: HierarchyView,
    parent: Option<ObjectId>,
    depth: nat,
    levels: nat,
    k: nat,
) -> Seq<(int, nat)>
    decreases levels, objs.len() - k,
{
    if k >= objs.len() {
        Seq::empty()
    } else {
        let rest = tree_rows_from(objs, v, parent, depth, levels, k + 1);
        let o = objs[k as int];
        if o.parent == parent && listed(v, o) {
            let below = if v.expanded.contains(o.id) && levels > 0 {
                tree_rows_from(objs, v, Some(o.id), depth + 1, (levels - 1) as nat, 0)
            } else {
                Seq::empty()
            };
            seq![(k as int, depth)] + below + rest
        } else {
            rest
        }
    }
}

/// The rows as plain values.
pub open spec fn row_views(rows: Seq<(usize, usize)>) -> Seq<(int, nat)> {
    rows.map_values(|r: (usize, usize)| (r.0 as int, r.1 as nat))
}

/// The rows the panel shows: with a search text, each listed object that
/// matches it, in order, at depth 0; else the tree from the root objects,
/// cut below as many levels as there are objects.
pub open spec fn panel_rows(objs: Seq<ObjectRowView>, v: HierarchyView) -> Seq<(int, nat)> {
    if v.filter.len() > 0 {
        Seq::new(objs.len(), |i: int| i).filter(
            |i: int| listed(v, objs[i]) && matches_search(v, objs[i]),
        ).map_values(|i: int| (i, 0nat))
    } else {
        tree_rows_from(objs, v, None, 0, objs.len(), 0)
    }
}

/// Every row of the tree is a listed object, at the starting depth or
/// deeper, and positions are within the objects.
pub proof fn lemma_tree_rows_listed(
    objs: Seq<ObjectRowView>,
    v: HierarchyView,
    parent: Option<ObjectId>,
    depth: nat,
    levels: nat,
    k: nat,
)
    ensures
        forall|r: int|
            0 <= r < tree_rows_from(objs, v, parent, depth, levels, k).len() ==> {
                let row = #[trigger] tree_rows_from(objs, v, parent, depth, levels, k)[r];
                &&& 0 <= row.0 < objs.len()
                &&& listed(v, objs[row.0])
                &&& depth <= row.1 <= depth + levels
            },
    decreases levels, objs.len() - k,
{
    if k < objs.len() {
        lemma_tree_rows_listed(objs, v, parent, depth, levels, k + 1);
        let o = objs[k as int];
        let rest = tree_rows_from(objs, v, parent, depth, levels, k + 1);
        if o.parent == parent && listed(v, o) {
            let below = if v.expanded.contains(o.id) && levels > 0 {
                tree_rows_from(objs, v, Some(o.id), depth + 1, (levels - 1) as nat, 0)
            } else {
                Seq::empty()
            };
            if v.expanded.contains(o.id) && levels > 0 {
                lemma_tree_rows_listed(objs, v, Some(o.id), depth + 1, (levels - 1) as nat, 0);
            }
            let all = seq![(k as int, depth)] + below + rest;
            assert(tree_rows_from(objs, v, parent, depth, levels, k) == all);
            assert forall|r: int| 0 <= r < all.len() implies {
                let row = #[trigger] all[r];
                &&& 0 <= row.0 < objs.len()
                &&& listed(v, objs[row.0])
                &&& depth <= row.1 <= depth + levels
            } by {
                if r == 0 {
                } else if r < 1 + below.len() {
                    assert(all[r] == below[r - 1]);
                } else {
                    assert(all[r] == rest[r - 1 - below.len()]);
                }
            }
        }
    }
}

/// A branch of the tree: positions of objects, the first a root and each
/// next one a child of the one before, none twice.
pub open spec fn is_branch(objs: Seq<ObjectRowView>, c: Seq<int>) -> bool {
    &&& forall|i: int| 0 <= i < c.len() ==> 0 <= #[trigger] c[i] < objs.len()
    &&& c.no_duplicates()
    &&& c.len() > 0 ==> objs[c[0]].parent is None
    &&& forall|i: int| 1 <= i < c.len() ==> objs[#[trigger] c[i]].parent == Some(objs[c[i - 1]].id)
}

/// The parent whose children come below the branch.
pub open spec fn branch_end(objs: Seq<ObjectRowView>, c: Seq<int>) -> Option<ObjectId> {
    if c.len() == 0 {
        None
    } else {
        Some(objs[c.last()].id)
    }
}

/// No two objects share an id.
pub open spec fn ids_unique(objs: Seq<ObjectRowView>) -> bool {
    forall|i: int, j: int|
        0 <= i < objs.len() && 0 <= j < objs.len() && i != j ==> #[trigger] objs[i].id
            != #[trigger] objs[j].id
}

/// A branch has no more positions than there are objects.
proof fn lemma_branch_len(objs: Seq<ObjectRowView>, c: Seq<int>)
    requires
        is_branch(objs, c),
    ensures
        c.len() <= objs.len(),
{
    c.unique_seq_to_set();
    vstd::set_lib::lemma_int_range(0, objs.len() as int);
    assert(c.to_set().subset_of(vstd::set_lib::set_int_range(0, objs.len() as int))) by {
        assert forall|x: int| c.to_set().contains(x) implies vstd::set_lib::set_int_range(
            0,
            objs.len() as int,
        ).contains(x) by {
            let i = choose|i: int| 0 <= i < c.len() && c[i] == x;
            assert(0 <= c[i] < objs.len());
        }
    }
    vstd::set_lib::lemma_len_subset(c.to_set(), vstd::set_lib::set_int_range(0, objs.len() as int));
}

/// With unique ids, a child of a branch's end extends the branch.
proof fn lemma_branch_extend(objs: Seq<ObjectRowView>, c: Seq<int>, k: int)
    requires
        ids_unique(objs),
        is_branch(objs, c),
        0 <= k < objs.len(),
        objs[k].parent == branch_end(objs, c),
    ensures
        is_branch(objs, c.push(k)),
{
    let d = c.len();
    let e = c.push(k);
    assert forall|i: int| 0 <= i < d implies c[i] != k by {
        if c[i] == k {
            if i == 0 {
                assert(objs[c[0]].parent is None);
            } else {
                assert(objs[c[i]].parent == Some(objs[c[i - 1]].id));
                assert(objs[c[i - 1]].id == objs[c[d - 1]].id);
                assert(c[i - 1] == c[d - 1]);
            }
        }
    }
    assert(e.no_duplicates()) by {
        assert forall|i: int, j: int| 0 <= i < e.len() && 0 <= j < e.len() && i != j implies e[i]
            != e[j] by {
            if i < d && j < d {
                assert(e[i] == c[i] && e[j] == c[j]);
            } else if i < d {
                assert(e[i] == c[i]);
            } else if j < d {
                assert(e[j] == c[j]);
            }
        }
    }
    assert forall|i: int| 1 <= i < e.len() implies objs[#[trigger] e[i]].parent == Some(
        objs[e[i - 1]].id,
    ) by {
        if i < d {
            assert(e[i] == c[i] && e[i - 1] == c[i - 1]);
        } else {
            assert(e[i - 1] == c[d - 1]);
        }
    }
    assert forall|i: int| 0 <= i < e.len() implies 0 <= #[trigger] e[i] < objs.len() by {
        if i < d {
            assert(e[i] == c[i]);
        }
    }
}

/// Below a branch, the rows do not change when more levels are allowed,
/// as long as the branch's length and the levels left reach the number of
/// objects: with unique ids no branch gets longer than that.
proof fn lemma_levels_enough(
    objs: Seq<ObjectRowView>,
    v: HierarchyView,
    c: Seq<int>,
    levels: nat,
    extra: nat,
    k: nat,
)
    requires
        ids_unique(objs),
        is_branch(objs, c),
        levels + c.len() >= objs.len(),
    ensures
        tree_rows_from(objs, v, branch_end(objs, c), c.len(), levels, k) == tree_rows_from(
            objs,
            v,
            branch_end(objs, c),
            c.len(),
            levels + extra,
            k,
        ),
    decreases levels, objs.len() - k,
{
    if k < objs.len() {
        lemma_levels_enough(objs, v, c, levels, extra, k + 1);
        let o = objs[k as int];
        if o.parent == branch_end(objs, c) && listed(v, o) && v.expanded.contains(o.id) {
            lemma_branch_extend(objs, c, k as int);
            lemma_branch_len(objs, c.push(k as int));
            assert(levels > 0);
            lemma_levels_enough(objs, v, c.push(k as int), (levels - 1) as nat, extra, 0);
            assert(branch_end(objs, c.push(k as int)) == Some(o.id));
            assert(((levels - 1) as nat + extra) as nat == (levels + extra - 1) as nat);
        }
    }
}

/// When no two objects share an id, cutting the tree below as many levels
/// as there are objects cuts nothing: allowing more levels gives the same
/// rows.
pub proof fn lemma_tree_depth_limit_enough(objs: Seq<ObjectRowView>, v: HierarchyView, extra: nat)
    requires
        ids_unique(objs),
    ensures
        tree_rows_from(objs, v, None, 0, objs.len(), 0) == tree_rows_from(
            objs,
            v,
            None,
            0,
            objs.len() + extra,
            0,
        ),
{
    let c = Seq::<int>::empty();
    assert(is_branch(objs, c));
    lemma_levels_enough(objs, v, c, objs.len(), extra, 0);
}

/// Toggling a node twice leaves the expanded nodes as they were.
pub proof fn lemma_toggle_expanded_twice(s: Set<ObjectId>, id: ObjectId)
    ensures
        ({
            let once = if s.contains(id) {
                s.remove(id)
            } else {
                s.insert(id)
            };
            (if once.contains(id) {
                once.remove(id)
            } else {
                once.insert(id)
            }) == s
        }),
{
    let once = if s.contains(id) {
        s.remove(id)
    } else {
        s.insert(id)
    };
    let twice = if once.contains(id) {
        once.remove(id)
    } else {
        once.insert(id)
    };
    assert(twice =~= s);
}

/// Actions from the hierarchy panel.
#[derive(Debug, Clone, Copy, PartialEq, Eq, Structural)]
pub enum HierarchyAction {
    /// No action.
    NoAction,
    /// Create a new cube.
    CreateCube,
    /// Create an empty object.
    CreateEmpty,
    /// Delete an object.
    Delete(ObjectId),
    /// Duplicate an object.
    Duplicate(ObjectId),
    /// Focus the camera on an object.
    Focus(ObjectId),
    /// Rename an object.
    Rename(ObjectId),
    /// Toggle visibility.
    ToggleVisibility(ObjectId),
    /// Reparent an object (child, new parent).
    Reparent(ObjectId, Option<ObjectId>),
}

} // verus!
