//! Property-level overrides for prefab instances.
pub mod paths;

use vstd::prelude::*;

use crate::text::{find_char, first_index, lemma_first_index_props, starts_with};

verus! {

broadcast use vstd::seq_lib::seq_to_set_is_finite;

/// A path to a property within an object, such as `position`,
/// `position.x`, `camera.fov` or `audio_source.volume`.
#[derive(Clone, Debug, PartialEq, Eq, Hash)]
pub struct PropertyPath(pub String);

impl View for PropertyPath {
    type V = Seq<char>;

    open spec fn view(&self) -> Seq<char> {
        self.0@
    }
}

/// The first component of a path: everything before its first `.`.
pub open spec fn path_root(p: Seq<char>) -> Seq<char> {
    p.subrange(0, first_index(p, '.'))
}

/// The path without its first component: everything after the first `.`,
/// or nothing when the path has a single component.
pub open spec fn path_tail(p: Seq<char>) -> Option<Seq<char>> {
    if first_index(p, '.') < p.len() {
        Some(p.subrange(first_index(p, '.') + 1, p.len() as int))
    } else {
        None
    }
}

/// `parent` is a path above `child`: `child` is `parent` followed by `.`
/// and more components, as `position` is above `position.x`.
pub open spec fn is_parent_path(parent: Seq<char>, child: Seq<char>) -> bool {
    (parent + seq!['.']).is_prefix_of(child)
}

/// An override on `o` covers `p`: `p` is `o` itself or lies under it
/// (`o` followed by `.` and more).
pub open spec fn covers(o: Seq<char>, p: Seq<char>) -> bool {
    o.is_prefix_of(p) && (p.len() == o.len() || p[o.len() as int] == '.')
}

/// Some overridden path covers `p`.
pub open spec fn effectively_overridden(set: Set<Seq<char>>, p: Seq<char>) -> bool {
    exists|o: Seq<char>| set.contains(o) && #[trigger] covers(o, p)
}

impl PropertyPath {
    /// Create a new property path.
    pub fn new(path: &str) -> (r: Self)
        ensures
            r@ == path@,
    {
        PropertyPath(String::from_str(path))
    }

    /// A copy of this path.
    pub fn duplicate(&self) -> (r: Self)
        ensures
            r@ == self@,
    {
        PropertyPath(self.0.clone())
    }

    /// The path text.
    pub fn as_str(&self) -> (r: &str)
        ensures
            r@ == self@,
    {
        self.0.as_str()
    }

    /// Whether this path is a parent of another, e.g. `position` of `position.x`.
    pub fn is_parent_of(&self, other: &PropertyPath) -> (b: bool)
        ensures
            b == is_parent_path(self@, other@),
    {
        let me = self.0.as_str();
        let them = other.0.as_str();
        let m = me.unicode_len();
        if them.unicode_len() > m && starts_with(them, me) && them.get_char(m) == '.' {
            assert((self@ + seq!['.']) =~= them@.subrange(0, m + 1));
            true
        } else {
            proof {
                if (self@ + seq!['.']).is_prefix_of(other@) {
                    assert(other@[m as int] == (self@ + seq!['.'])[m as int]);
                    assert forall|j: int| 0 <= j < m implies other@[j] == self@[j] by {
                        assert(other@[j] == (self@ + seq!['.'])[j]);
                    }
                    assert(self@.is_prefix_of(other@));
                }
            }
            false
        }
    }

    /// Whether this path is a child of another.
    pub fn is_child_of(&self, other: &PropertyPath) -> (b: bool)
        ensures
            b == is_parent_path(other@, self@),
    {
        other.is_parent_of(self)
    }

    /// The first component of the path.
    pub fn root(&self) -> (r: &str)
        ensures
            r@ == path_root(self@),
    {
        let s = self.0.as_str();
        let k = find_char(s, '.');
        s.substring_char(0, k)
    }

    /// The path without its first component, if it has more than one.
    pub fn tail(&self) -> (r: Option<PropertyPath>)
        ensures
            match r {
                Some(t) => path_tail(self@) == Some(t@),
                None => path_tail(self@) is None,
            },
    {
        let s = self.0.as_str();
        let n = s.unicode_len();
        let k = find_char(s, '.');
        if k < n {
            Some(PropertyPath(String::from_str(s.substring_char(k + 1, n))))
        } else {
            None
        }
    }
}

/// The first component and the tail put back together give the path.
pub proof fn lemma_root_tail(p: Seq<char>)
    ensures
        match path_tail(p) {
            Some(t) => p == path_root(p) + seq!['.'] + t,
            None => p == path_root(p) && !p.contains('.'),
        },
{
    let k = first_index(p, '.');
    lemma_first_index_props(p, '.');
    if p.contains('.') {
        assert(p =~= p.subrange(0, k) + seq!['.'] + p.subrange(k + 1, p.len() as int));
    } else {
        assert(p.subrange(0, k) =~= p);
    }
}

/// `a` is a child of `b` exactly when `b` is a parent of `a`; no path is its
/// own parent, and a parent of a path also covers it.
pub proof fn lemma_parent_child(a: Seq<char>, b: Seq<char>)
    ensures
        is_parent_path(b, a) ==> !is_parent_path(a, b),
        is_parent_path(b, a) ==> covers(b, a),
        !is_parent_path(a, a),
{
    if is_parent_path(b, a) {
        assert(a.len() > b.len());
        assert(a[b.len() as int] == (b + seq!['.'])[b.len() as int]);
        assert forall|j: int| 0 <= j < b.len() implies a[j] == b[j] by {
            assert(a[j] == (b + seq!['.'])[j]);
        }
        assert(b.is_prefix_of(a));
    }
}

/// Tracks which properties of an instance differ from its prefab.
pub struct PropertyOverrides {
    /// Overridden property paths, each stored once.
    overridden: Vec<PropertyPath>,
}

impl PropertyOverrides {
    /// The stored paths' texts, in stored order.
    pub closed spec fn path_views(&self) -> Seq<Seq<char>> {
        self.overridden@.map_values(|p: PropertyPath| p@)
    }

    /// Well-formedness: no path is stored twice.
    pub closed spec fn wf(&self) -> bool {
        self.path_views().no_duplicates()
    }
}

impl View for PropertyOverrides {
    type V = Set<Seq<char>>;

    closed spec fn view(&self) -> Set<Seq<char>> {
        self.path_views().to_set()
    }
}

impl Default for PropertyOverrides {
    fn default() -> (r: Self)
        ensures
            r.wf(),
            r@.finite(),
            r@ == Set::<Seq<char>>::empty(),
    {
        Self::new()
    }
}

impl PropertyOverrides {
    /// Create empty overrides.
    pub fn new() -> (r: Self)
        ensures
            r.wf(),
            r@.finite(),
            r@ == Set::<Seq<char>>::empty(),
    {
        let r = Self { overridden: Vec::new() };
        assert(r.path_views().to_set() =~= Set::empty());
        r
    }

    fn find(&self, path: &PropertyPath) -> (r: Option<usize>)
        ensures
            match r {
                Some(i) => i < self.overridden@.len() && self.path_views()[i as int] == path@,
                None => !self.path_views().contains(path@),
            },
    {
        let mut i: usize = 0;
        while i < self.overridden.len()
            invariant
                i <= self.overridden@.len(),
                forall|j: int| 0 <= j < i ==> self.path_views()[j] != path@,
            decreases self.overridden@.len() - i,
        {
            if self.overridden[i].0 == path.0 {
                return Some(i);
            }
            i = i + 1;
        }
        None
    }

    /// Whether a property is overridden.
    pub fn is_overridden(&self, path: &PropertyPath) -> (b: bool)
        ensures
            b == self@.contains(path@),
    {
        self.find(path).is_some()
    }

    /// Whether a property, or a path above it, is overridden: an override of
    /// `position` also covers `position.x`.
    pub fn is_effectively_overridden(&self, path: &PropertyPath) -> (b: bool)
        ensures
            b == effectively_overridden(self@, path@),
    {
        if self.is_overridden(path) {
            assert(covers(path@, path@));
            return true;
        }
        let p = path.0.as_str();
        let n = p.unicode_len();
        let mut i: usize = 0;
        while i < self.overridden.len()
            invariant
                i <= self.overridden@.len(),
                n == path@.len(),
                p@ == path@,
                forall|j: int| 0 <= j < i ==> !covers(self.path_views()[j], path@),
            decreases self.overridden@.len() - i,
        {
            let o = self.overridden[i].0.as_str();
            if starts_with(p, o) {
                let m = o.unicode_len();
                if m == n || p.get_char(m) == '.' {
                    assert(covers(self.path_views()[i as int], path@));
                    assert(self@.contains(self.path_views()[i as int]));
                    return true;
                }
            }
            i = i + 1;
        }
        assert forall|o: Seq<char>| self@.contains(o) implies !#[trigger] covers(o, path@) by {
            let j = choose|j: int| 0 <= j < self.path_views().len() && self.path_views()[j] == o;
        }
        false
    }

    /// Mark a property as overridden.
    pub fn set_override(&mut self, path: PropertyPath)
        requires
            old(self).wf(),
        ensures
            final(self).wf(),
            final(self)@.finite(),
            final(self)@ == old(self)@.insert(path@),
    {
        match self.find(&path) {
            Some(i) => {
                assert(old(self)@.insert(path@) =~= old(self)@);
            },
            None => {
                let ghost v = path@;
                self.overridden.push(path);
                proof {
                    assert(self.path_views() =~= old(self).path_views().push(v));
                    old(self).path_views().lemma_push_to_set_commute(v);
                }
            },
        }
    }

    /// Remove an override, reverting the property to the prefab's value.
    pub fn remove_override(&mut self, path: &PropertyPath)
        requires
            old(self).wf(),
        ensures
            final(self).wf(),
            final(self)@.finite(),
            final(self)@ == old(self)@.remove(path@),
    {
        match self.find(path) {
            Some(i) => {
                let ghost old_views = self.path_views();
                self.overridden.remove(i);
                proof {
                    assert(self.path_views() =~= old_views.remove(i as int));
                    assert forall|q: Seq<char>| self@.contains(q) <==> old(self)@.remove(
                        path@,
                    ).contains(q) by {
                        if self@.contains(q) {
                            let j = choose|j: int|
                                0 <= j < self.path_views().len() && self.path_views()[j] == q;
                            if j < i {
                                assert(old_views[j] == q);
                            } else {
                                assert(old_views[j + 1] == q);
                            }
                        }
                        if old(self)@.remove(path@).contains(q) {
                            let j = choose|j: int| 0 <= j < old_views.len() && old_views[j] == q;
                            if j < i {
                                assert(self.path_views()[j] == q);
                            } else {
                                assert(self.path_views()[j - 1] == q);
                            }
                        }
                    }
                    assert(self@ =~= old(self)@.remove(path@));
                }
            },
            None => {
                assert(old(self)@.remove(path@) =~= old(self)@);
            },
        }
    }

    /// Clear all overrides.
    pub fn clear(&mut self)
        ensures
            final(self).wf(),
            final(self)@.finite(),
            final(self)@ == Set::<Seq<char>>::empty(),
    {
        self.overridden.clear();
        assert(self@ =~= Set::<Seq<char>>::empty());
    }

    /// Number of overridden paths.
    pub fn count(&self) -> (r: usize)
        requires
            self.wf(),
        ensures
            self@.finite(),
            r == self@.len(),
    {
        proof {
            self.path_views().unique_seq_to_set();
        }
        self.overridden.len()
    }

    /// Whether there are no overrides.
    pub fn is_empty(&self) -> (b: bool)
        ensures
            b == (self@ == Set::<Seq<char>>::empty()),
    {
        if self.overridden.len() == 0 {
            assert(self@ =~= Set::<Seq<char>>::empty());
            true
        } else {
            assert(self@.contains(self.path_views()[0]));
            false
        }
    }

    /// All overridden paths, each once.
    pub fn paths(&self) -> (r: Vec<PropertyPath>)
        requires
            self.wf(),
        ensures
            r@.map_values(|p: PropertyPath| p@).no_duplicates(),
            r@.map_values(|p: PropertyPath| p@).to_set() == self@,
    {
        let mut r: Vec<PropertyPath> = Vec::new();
        let mut i: usize = 0;
        while i < self.overridden.len()
            invariant
                i <= self.overridden@.len(),
                r@.map_values(|p: PropertyPath| p@) == self.path_views().subrange(0, i as int),
            decreases self.overridden@.len() - i,
        {
            let ghost before = r@;
            let d = self.overridden[i].duplicate();
            r.push(d);
            proof {
                assert(r@ == before.push(d));
                assert(r@.map_values(|p: PropertyPath| p@) =~= before.map_values(
                    |p: PropertyPath| p@,
                ).push(d@));
                assert(self.path_views()[i as int] == d@);
            }
            i = i + 1;
            assert(r@.map_values(|p: PropertyPath| p@) =~= self.path_views().subrange(0, i as int));
        }
        assert(self.path_views().subrange(0, i as int) =~= self.path_views());
        r
    }

    /// Add every override of `other` to this one.
    pub fn merge(&mut self, other: &PropertyOverrides)
        requires
            old(self).wf(),
        ensures
            final(self).wf(),
            final(self)@.finite(),
            final(self)@ == old(self)@.union(other@),
    {
        let mut i: usize = 0;
        while i < other.overridden.len()
            invariant
                i <= other.overridden@.len(),
                self.wf(),
                self@ == old(self)@.union(other.path_views().subrange(0, i as int).to_set()),
            decreases other.overridden@.len() - i,
        {
            let ghost before = self@;
            self.set_override(other.overridden[i].duplicate());
            i = i + 1;
            proof {
                assert(other.path_views().subrange(0, i as int) =~= other.path_views().subrange(
                    0,
                    i - 1,
                ).push(other.path_views()[i - 1]));
                other.path_views().subrange(0, i - 1).lemma_push_to_set_commute(
                    other.path_views()[i - 1],
                );
                assert(self@ =~= old(self)@.union(other.path_views().subrange(0, i as int).to_set()));
            }
        }
        assert(other.path_views().subrange(0, i as int) =~= other.path_views());
    }
}

/// Setting the same override twice is setting it once, and setting one
/// adds to the count exactly when the path was not overridden yet.
pub proof fn lemma_set_override_count(set: Set<Seq<char>>, p: Seq<char>)
    requires
        set.finite(),
    ensures
        set.insert(p).insert(p) == set.insert(p),
        set.insert(p).len() == set.len() + (if set.contains(p) {
            0int
        } else {
            1int
        }),
{
    assert(set.insert(p).insert(p) =~= set.insert(p));
    if set.contains(p) {
        assert(set.insert(p) =~= set);
    }
}

/// An overridden path counts as effectively overridden.
pub proof fn lemma_overridden_is_effective(set: Set<Seq<char>>, p: Seq<char>)
    requires
        set.contains(p),
    ensures
        effectively_overridden(set, p),
{
    assert(covers(p, p));
}

/// Overriding a path covers every path under it: with `position`
/// overridden, `position.x` counts as overridden.
pub proof fn lemma_parent_override_covers_child(
    set: Set<Seq<char>>,
    parent: Seq<char>,
    rest: Seq<char>,
)
    requires
        set.contains(parent),
    ensures
        effectively_overridden(set, parent + seq!['.'] + rest),
{
    let child = parent + seq!['.'] + rest;
    assert(child.subrange(0, parent.len() as int) =~= parent);
    assert(child[parent.len() as int] == '.');
    assert(covers(parent, child));
}

/// A path that nothing above it or equal to it overrides is not effectively
/// overridden; in particular, an override of a child does not cover its parent.
pub proof fn lemma_child_override_not_parent(parent: Seq<char>, rest: Seq<char>)
    ensures
        !effectively_overridden(set![parent + seq!['.'] + rest], parent),
{
    let child = parent + seq!['.'] + rest;
    if effectively_overridden(set![child], parent) {
        let o = choose|o: Seq<char>| set![child].contains(o) && #[trigger] covers(o, parent);
        assert(o == child);
        assert(child.len() > parent.len());
    }
}

} // verus!
