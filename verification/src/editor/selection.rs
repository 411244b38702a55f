//! Object selection in the editor viewport.
use vstd::prelude::*;

verus! {

/// Unique identifier of a scene object.
pub type ObjectId = u32;

/// The selected objects, in the order they were selected, and the object
/// under the mouse.
#[derive(Clone, Debug, Default)]
pub struct Selection {
    /// Selected object IDs, each once.
    selected: Vec<ObjectId>,
    /// Hovered object.
    hovered: Option<ObjectId>,
}

/// The abstract selection: selected IDs in order, and the hovered ID.
pub struct SelectionView {
    pub selected: Seq<ObjectId>,
    pub hovered: Option<ObjectId>,
}

impl View for Selection {
    type V = SelectionView;

    closed spec fn view(&self) -> SelectionView {
        SelectionView { selected: self.selected@, hovered: self.hovered }
    }
}

fn position_of(ids: &Vec<ObjectId>, id: ObjectId) -> (r: Option<usize>)
    ensures
        match r {
            Some(i) => i < ids@.len() && ids@[i as int] == id,
            None => !ids@.contains(id),
        },
{
    let mut i: usize = 0;
    while i < ids.len()
        invariant
            i <= ids@.len(),
            forall|j: int| 0 <= j < i ==> ids@[j] != id,
        decreases ids@.len() - i,
    {
        if ids[i] == id {
            return Some(i);
        }
        i = i + 1;
    }
    None
}

impl Selection {
    /// An empty selection.
    pub fn new() -> (r: Self)
        ensures
            r@.selected == Seq::<ObjectId>::empty(),
            r@.hovered is None,
    {
        let r = Self { selected: Vec::new(), hovered: None };
        assert(r@.selected =~= Seq::<ObjectId>::empty());
        r
    }

    /// Select a single object, replacing the previous selection.
    pub fn select(&mut self, id: ObjectId)
        ensures
            final(self)@.selected == seq![id],
            final(self)@.hovered == old(self)@.hovered,
    {
        self.selected.clear();
        self.selected.push(id);
        assert(self@.selected =~= seq![id]);
    }

    /// Add an object to the selection, unless it is selected already.
    pub fn add(&mut self, id: ObjectId)
        ensures
            final(self)@.selected == (if old(self)@.selected.contains(id) {
                old(self)@.selected
            } else {
                old(self)@.selected.push(id)
            }),
            final(self)@.hovered == old(self)@.hovered,
    {
        if position_of(&self.selected, id).is_none() {
            self.selected.push(id);
        }
    }

    /// Remove an object from the selection.
    pub fn remove(&mut self, id: ObjectId)
        ensures
            final(self)@.selected == old(self)@.selected.filter(|x: ObjectId| x != id),
            final(self)@.hovered == old(self)@.hovered,
    {
        let ghost pred = |x: ObjectId| x != id;
        let mut kept: Vec<ObjectId> = Vec::new();
        let mut i: usize = 0;
        while i < self.selected.len()
            invariant
                i <= self.selected@.len(),
                self@ == old(self)@,
                kept@ == self.selected@.subrange(0, i as int).filter(pred),
                pred == (|x: ObjectId| x != id),
            decreases self.selected@.len() - i,
        {
            let x = self.selected[i];
            proof {
                let s = self.selected@.subrange(0, i as int);
                assert(self.selected@.subrange(0, i + 1) =~= s.push(x));
                s.lemma_filter_push(x, pred);
            }
            if x != id {
                kept.push(x);
            }
            i = i + 1;
        }
        assert(self.selected@.subrange(0, i as int) =~= self.selected@);
        self.selected = kept;
    }

    /// Toggle whether an object is selected.
    pub fn toggle(&mut self, id: ObjectId)
        ensures
            final(self)@.selected == (if old(self)@.selected.contains(id) {
                old(self)@.selected.filter(|x: ObjectId| x != id)
            } else {
                old(self)@.selected.push(id)
            }),
            final(self)@.hovered == old(self)@.hovered,
    {
        if position_of(&self.selected, id).is_some() {
            self.remove(id);
        } else {
            self.add(id);
        }
    }

    /// Clear the selection.
    pub fn clear(&mut self)
        ensures
            final(self)@.selected == Seq::<ObjectId>::empty(),
            final(self)@.hovered == old(self)@.hovered,
    {
        self.selected.clear();
        assert(self@.selected =~= Seq::<ObjectId>::empty());
    }

    /// Whether an object is selected.
    pub fn is_selected(&self, id: ObjectId) -> (b: bool)
        ensures
            b == self@.selected.contains(id),
    {
        position_of(&self.selected, id).is_some()
    }

    /// The first selected object.
    pub fn first(&self) -> (r: Option<ObjectId>)
        ensures
            r == (if self@.selected.len() > 0 {
                Some(self@.selected[0])
            } else {
                None
            }),
    {
        if self.selected.len() > 0 {
            Some(self.selected[0])
        } else {
            None
        }
    }

    /// All selected objects, in selection order.
    pub fn all(&self) -> (r: &[ObjectId])
        ensures
            r@ == self@.selected,
    {
        self.selected.as_slice()
    }

    /// Number of selected objects.
    pub fn count(&self) -> (r: usize)
        ensures
            r == self@.selected.len(),
    {
        self.selected.len()
    }

    /// Whether nothing is selected.
    pub fn is_empty(&self) -> (b: bool)
        ensures
            b == (self@.selected.len() == 0),
    {
        self.selected.len() == 0
    }

    /// Set the hovered object.
    pub fn set_hovered(&mut self, id: Option<ObjectId>)
        ensures
            final(self)@.hovered == id,
            final(self)@.selected == old(self)@.selected,
    {
        self.hovered = id;
    }

    /// The hovered object.
    pub fn hovered(&self) -> (r: Option<ObjectId>)
        ensures
            r == self@.hovered,
    {
        self.hovered
    }
}

proof fn lemma_filter_no_duplicates(s: Seq<ObjectId>, pred: spec_fn(ObjectId) -> bool)
    requires
        s.no_duplicates(),
    ensures
        s.filter(pred).no_duplicates(),
    decreases s.len(),
{
    if s.len() > 0 {
        let t = s.drop_last();
        let x = s.last();
        assert(s =~= t.push(x));
        assert(t.no_duplicates());
        lemma_filter_no_duplicates(t, pred);
        t.lemma_filter_push(x, pred);
        if t.filter(pred).contains(x) {
            t.lemma_filter_contains_rev(pred, x);
            let k = choose|k: int| 0 <= k < t.len() && t[k] == x;
            assert(s[k] == s[s.len() - 1]);
        }
    }
}

/// Every operation keeps each object selected at most once.
pub proof fn lemma_selection_no_duplicates(s: Seq<ObjectId>, id: ObjectId)
    requires
        s.no_duplicates(),
    ensures
        seq![id].no_duplicates(),
        (if s.contains(id) {
            s
        } else {
            s.push(id)
        }).no_duplicates(),
        s.filter(|x: ObjectId| x != id).no_duplicates(),
        !s.filter(|x: ObjectId| x != id).contains(id),
{
    let f = s.filter(|x: ObjectId| x != id);
    lemma_filter_no_duplicates(s, |x: ObjectId| x != id);
    if f.contains(id) {
        let k = choose|k: int| 0 <= k < f.len() && f[k] == id;
        s.lemma_filter_contains_rev(|x: ObjectId| x != id, id);
    }
}

/// Toggling an object twice leaves the set of selected objects as it was.
pub proof fn lemma_toggle_twice(s: Seq<ObjectId>, id: ObjectId, other: ObjectId)
    requires
        s.no_duplicates(),
    ensures
        ({
            let once = if s.contains(id) {
                s.filter(|x: ObjectId| x != id)
            } else {
                s.push(id)
            };
            let twice = if once.contains(id) {
                once.filter(|x: ObjectId| x != id)
            } else {
                once.push(id)
            };
            twice.contains(other) == s.contains(other)
        }),
{
    let pred = |x: ObjectId| x != id;
    let f = s.filter(pred);
    let pf = s.push(id).filter(pred);
    s.lemma_filter_push(id, pred);
    if s.contains(id) {
        if f.contains(id) {
            s.lemma_filter_contains_rev(pred, id);
        }
        assert(f.push(id)[f.len() as int] == id);
        if other != id {
            if s.contains(other) {
                let i = choose|i: int| 0 <= i < s.len() && s[i] == other;
                s.lemma_filter_contains(pred, i);
                let k = choose|k: int| 0 <= k < f.len() && f[k] == other;
                assert(f.push(id)[k] == other);
            }
            if f.push(id).contains(other) {
                let k = choose|k: int| 0 <= k < f.push(id).len() && f.push(id)[k] == other;
                assert(f[k] == other);
                s.lemma_filter_contains_rev(pred, other);
            }
        }
    } else {
        assert(s.push(id)[s.len() as int] == id);
        if other != id {
            if s.contains(other) {
                let i = choose|i: int| 0 <= i < s.len() && s[i] == other;
                s.lemma_filter_contains(pred, i);
            }
            if f.contains(other) {
                s.lemma_filter_contains_rev(pred, other);
            }
        } else {
            if f.contains(id) {
                s.lemma_filter_contains_rev(pred, id);
            }
        }
    }
}

} // verus!
