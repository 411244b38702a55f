//! The prefab registry: a cache of loaded prefabs, keyed by resolved path,
//! that reloads a prefab whose file changed and makes room by dropping the
//! prefab used longest ago.
//!
//! Reading files is left to the caller. A lookup goes in three steps:
//! `resolve_path` gives the key, `begin_get` says (from the file's current
//! modification time) whether the prefab must be loaded, making room or
//! marking the cached one as used, and after a load `store` keeps it.
use vstd::prelude::*;

use crate::paths::{is_absolute, is_absolute_path, join, joined_path, paths_equal, same_path};

verus! {

/// Prefab cache statistics.
#[derive(Clone, Debug)]
pub struct CacheStats {
    /// Number of cached prefabs.
    pub cached_count: usize,
    /// Maximum cache size.
    pub max_size: usize,
}

/// A cached prefab: the loaded value, its file's modification time when it
/// was loaded (nanoseconds from the Unix epoch), and when it was last used.
pub struct CachedPrefab<P> {
    pub value: P,
    pub modified: Option<i128>,
    pub last_access: u64,
}

struct CacheEntry<P> {
    path: String,
    value: P,
    modified: Option<i128>,
    last_access: u64,
}

/// The registry's abstract state.
pub struct RegistryView<P> {
    /// Cached prefabs with their keys, in the order they were first cached.
    pub entries: Seq<(Seq<char>, CachedPrefab<P>)>,
    /// Base path for relative paths.
    pub base_path: Option<Seq<char>>,
    /// Maximum number of cached prefabs before one is dropped.
    pub max_cache_size: usize,
    /// Whether changed files are loaded again.
    pub hot_reload: bool,
    /// The use counter: every use of a prefab is stamped with it.
    pub clock: u64,
}

/// The position of the first entry whose key is the same path as `key`, or
/// the number of entries when there is none.
pub open spec fn key_position<P>(s: Seq<(Seq<char>, CachedPrefab<P>)>, key: Seq<char>) -> int
    decreases s.len(),
{
    if s.len() == 0 {
        0
    } else if same_path(s[0].0, key) {
        0
    } else {
        1 + key_position(s.drop_first(), key)
    }
}

/// The position of the first entry used longest ago (0 when there is none).
pub open spec fn oldest_position<P>(s: Seq<(Seq<char>, CachedPrefab<P>)>) -> int
    decreases s.len(),
{
    if s.len() <= 1 {
        0
    } else {
        let j = oldest_position(s.drop_last());
        if s.last().1.last_access < s[j].1.last_access {
            s.len() - 1
        } else {
            j
        }
    }
}

/// A path resolved against the base path: absolute paths and paths without
/// a base are kept, others are joined to the base.
pub open spec fn resolved_path(base: Option<Seq<char>>, path: Seq<char>) -> Seq<char> {
    if is_absolute_path(path) {
        path
    } else {
        match base {
            Some(b) => joined_path(b, path),
            None => path,
        }
    }
}

/// Whether a cached prefab must be loaded again: hot reload is on and its
/// file is newer than when it was loaded, or has a time now and had none.
pub open spec fn is_stale(hot_reload: bool, current: Option<i128>, cached: Option<i128>) -> bool {
    hot_reload && match (current, cached) {
        (Some(c), Some(d)) => c > d,
        (Some(_), None) => true,
        _ => false,
    }
}

/// Staleness follows the file's time: with hot reload off nothing is stale;
/// a file without a time now is never stale; a file that has a time now is
/// stale exactly when it had none when loaded or is now newer.
pub proof fn lemma_staleness(hot_reload: bool, current: Option<i128>, cached: Option<i128>)
    ensures
        !hot_reload ==> !is_stale(hot_reload, current, cached),
        current is None ==> !is_stale(hot_reload, current, cached),
        hot_reload && current is Some && cached is None ==> is_stale(hot_reload, current, cached),
        hot_reload && current is Some && cached is Some ==> (is_stale(hot_reload, current, cached)
            <==> current->0 > cached->0),
        current == cached ==> !is_stale(hot_reload, current, cached),
{
}

/// The use counter after one use: it goes up until it can go no higher.
pub open spec fn next_tick(clock: u64) -> u64 {
    if clock < u64::MAX {
        (clock + 1) as u64
    } else {
        clock
    }
}

/// Whether a lookup of `key`, whose file now has modification time `now`,
/// must load the prefab: it is not cached, or its cached copy is stale.
pub open spec fn needs_load<P>(v: RegistryView<P>, key: Seq<char>, now: Option<i128>) -> bool {
    let i = key_position(v.entries, key);
    i >= v.entries.len() || is_stale(v.hot_reload, now, v.entries[i].1.modified)
}

/// The registry with the prefab used longest ago dropped, if there is one.
pub open spec fn without_oldest<P>(v: RegistryView<P>) -> RegistryView<P> {
    if v.entries.len() == 0 {
        v
    } else {
        RegistryView { entries: v.entries.remove(oldest_position(v.entries)), ..v }
    }
}

/// The registry after the lookup of `key`: when the prefab must be loaded
/// and the cache is full, the prefab used longest ago is dropped; when the
/// cached copy serves, it is stamped as used now.
pub open spec fn after_lookup<P>(v: RegistryView<P>, key: Seq<char>, now: Option<i128>) -> RegistryView<P> {
    let i = key_position(v.entries, key);
    if needs_load(v, key, now) {
        if v.entries.len() >= v.max_cache_size {
            without_oldest(v)
        } else {
            v
        }
    } else {
        RegistryView {
            entries: v.entries.update(
                i,
                (v.entries[i].0, CachedPrefab { last_access: v.clock, ..v.entries[i].1 }),
            ),
            clock: next_tick(v.clock),
            ..v
        }
    }
}

/// The registry after a loaded prefab is kept under `key`: it replaces the
/// value of an entry whose key is the same path, which keeps its key, or
/// is added last; either way it is stamped as used now.
pub open spec fn after_store<P>(
    v: RegistryView<P>,
    key: Seq<char>,
    value: P,
    modified: Option<i128>,
) -> RegistryView<P> {
    let i = key_position(v.entries, key);
    let c = CachedPrefab { value, modified, last_access: v.clock };
    RegistryView {
        entries: if i < v.entries.len() {
            v.entries.update(i, (v.entries[i].0, c))
        } else {
            v.entries.push((key, c))
        },
        clock: next_tick(v.clock),
        ..v
    }
}

/// The registry without the entry whose key is the same path as `key`.
pub open spec fn after_remove<P>(v: RegistryView<P>, key: Seq<char>) -> RegistryView<P> {
    let i = key_position(v.entries, key);
    if i < v.entries.len() {
        RegistryView { entries: v.entries.remove(i), ..v }
    } else {
        v
    }
}

/// The position found for a key is within the entries, and its entry's key
/// is the same path, or it is the number of entries and no key is.
proof fn lemma_key_position<P>(s: Seq<(Seq<char>, CachedPrefab<P>)>, key: Seq<char>)
    ensures
        0 <= key_position(s, key) <= s.len(),
        key_position(s, key) < s.len() ==> same_path(s[key_position(s, key)].0, key),
        forall|j: int| 0 <= j < key_position(s, key) ==> !same_path(#[trigger] s[j].0, key),
    decreases s.len(),
{
    if s.len() > 0 && !same_path(s[0].0, key) {
        lemma_key_position(s.drop_first(), key);
        assert forall|j: int| 0 <= j < key_position(s, key) implies !same_path(
            #[trigger] s[j].0,
            key,
        ) by {
            if j > 0 {
                assert(s[j] == s.drop_first()[j - 1]);
            }
        }
    }
}

/// The position found for the oldest entry is within the entries, and no
/// entry was used longer ago.
proof fn lemma_oldest_position<P>(s: Seq<(Seq<char>, CachedPrefab<P>)>)
    requires
        s.len() > 0,
    ensures
        0 <= oldest_position(s) < s.len(),
        forall|j: int| 0 <= j < s.len() ==> s[oldest_position(s)].1.last_access <= #[trigger] s[j].1.last_access,
        forall|j: int| 0 <= j < oldest_position(s) ==> s[oldest_position(s)].1.last_access < #[trigger] s[j].1.last_access,
    decreases s.len(),
{
    if s.len() > 1 {
        let t = s.drop_last();
        lemma_oldest_position(t);
        let j = oldest_position(t);
        assert(t[j] == s[j]);
        assert forall|k: int| 0 <= k < s.len() implies s[oldest_position(s)].1.last_access
            <= #[trigger] s[k].1.last_access by {
            if k < s.len() - 1 {
                assert(t[k] == s[k]);
            }
        }
        assert forall|k: int| 0 <= k < oldest_position(s) implies s[oldest_position(s)].1.last_access
            < #[trigger] s[k].1.last_access by {
            assert(t[k] == s[k]);
        }
    }
}

/// A prefab that was just kept is the one a lookup of its key finds, with
/// the value and modification time it was kept with (for a key that is the
/// same path as itself, as every path is).
pub proof fn lemma_store_then_cached<P>(
    v: RegistryView<P>,
    key: Seq<char>,
    value: P,
    modified: Option<i128>,
)
    requires
        same_path(key, key),
    ensures
        ({
            let w = after_store(v, key, value, modified);
            let i = key_position(w.entries, key);
            &&& i < w.entries.len()
            &&& w.entries[i].1.value == value
            &&& w.entries[i].1.modified == modified
        }),
{
    let w = after_store(v, key, value, modified);
    lemma_key_position(v.entries, key);
    lemma_key_position(w.entries, key);
    let i = key_position(v.entries, key);
    if i >= v.entries.len() {
        let j = key_position(w.entries, key);
        if j < v.entries.len() {
            assert(w.entries[j] == v.entries[j]);
        }
        assert(w.entries[v.entries.len() as int].0 == key);
    } else {
        let j = key_position(w.entries, key);
        if j < i {
            assert(w.entries[j] == v.entries[j]);
        }
        assert(w.entries[i].0 == v.entries[i].0);
    }
}

/// Right after a prefab is kept, a lookup of its key is served from the
/// cache unless the file changed since it was loaded.
pub proof fn lemma_fresh_store_is_served<P>(
    v: RegistryView<P>,
    key: Seq<char>,
    value: P,
    modified: Option<i128>,
    now: Option<i128>,
)
    requires
        same_path(key, key),
        !is_stale(v.hot_reload, now, modified),
    ensures
        !needs_load(after_store(v, key, value, modified), key, now),
{
    lemma_store_then_cached(v, key, value, modified);
}

/// The cache never grows past its size: a lookup that loads drops the
/// prefab used longest ago when the cache is full, so after the lookup and
/// the keeping of the loaded prefab there are no more prefabs than allowed.
pub proof fn lemma_lookup_and_store_keep_bound<P>(
    v: RegistryView<P>,
    key: Seq<char>,
    now: Option<i128>,
    value: P,
    modified: Option<i128>,
)
    requires
        v.entries.len() <= v.max_cache_size,
    ensures
        after_lookup(v, key, now).entries.len() <= v.max_cache_size,
        after_store(after_lookup(v, key, now), key, value, modified).entries.len()
            <= v.max_cache_size || (v.max_cache_size == 0 && after_store(
            after_lookup(v, key, now),
            key,
            value,
            modified,
        ).entries.len() == 1),
{
    let u = after_lookup(v, key, now);
    lemma_key_position(v.entries, key);
    lemma_key_position(u.entries, key);
    if v.entries.len() > 0 {
        lemma_oldest_position(v.entries);
    }
    if !needs_load(v, key, now) {
        let i = key_position(v.entries, key);
        assert(u.entries[i].0 == v.entries[i].0);
        assert(key_position(u.entries, key) < u.entries.len());
    }
}

/// Making room drops a prefab used no more recently than any other.
pub proof fn lemma_evicts_least_recently_used<P>(v: RegistryView<P>)
    requires
        v.entries.len() > 0,
    ensures
        exists|i: int|
            0 <= i < v.entries.len() && without_oldest(v).entries == v.entries.remove(i) && (
            forall|j: int|
                0 <= j < v.entries.len() ==> v.entries[i].1.last_access
                    <= #[trigger] v.entries[j].1.last_access),
{
    lemma_oldest_position(v.entries);
    let i = oldest_position(v.entries);
    assert(without_oldest(v).entries == v.entries.remove(i));
}

/// A lookup served from the cache makes its prefab the most recently used:
/// while every stamp is below the use counter, and another prefab is
/// cached, it is not the next to be dropped.
pub proof fn lemma_served_prefab_is_kept_longest<P>(
    v: RegistryView<P>,
    key: Seq<char>,
    now: Option<i128>,
)
    requires
        forall|j: int| 0 <= j < v.entries.len() ==> #[trigger] v.entries[j].1.last_access < v.clock,
        !needs_load(v, key, now),
        v.entries.len() >= 2,
    ensures
        oldest_position(after_lookup(v, key, now).entries) != key_position(v.entries, key),
{
    let w = after_lookup(v, key, now);
    let i = key_position(v.entries, key);
    lemma_key_position(v.entries, key);
    lemma_oldest_position(w.entries);
    let o = oldest_position(w.entries);
    if o == i {
        let j = if i == 0 { 1int } else { 0int };
        assert(w.entries[j] == v.entries[j]);
        assert(w.entries[o].1.last_access <= w.entries[j].1.last_access);
        assert(v.entries[j].1.last_access < v.clock);
    }
}

/// The cache of loaded prefabs.
pub struct PrefabRegistry<P> {
    /// Cached prefabs, in the order they were first cached.
    entries: Vec<CacheEntry<P>>,
    /// Base path for resolving relative paths.
    base_path: Option<String>,
    /// Maximum cache size (number of prefabs).
    max_cache_size: usize,
    /// Whether to check for file modifications.
    hot_reload: bool,
    /// The use counter.
    clock: u64,
}

/// The abstract entry.
spec fn entry_view<P>(e: CacheEntry<P>) -> (Seq<char>, CachedPrefab<P>) {
    (e.path@, CachedPrefab { value: e.value, modified: e.modified, last_access: e.last_access })
}

impl<P> View for PrefabRegistry<P> {
    type V = RegistryView<P>;

    closed spec fn view(&self) -> RegistryView<P> {
        RegistryView {
            entries: self.entries@.map_values(|e: CacheEntry<P>| entry_view(e)),
            base_path: match self.base_path {
                Some(b) => Some(b@),
                None => None,
            },
            max_cache_size: self.max_cache_size,
            hot_reload: self.hot_reload,
            clock: self.clock,
        }
    }
}

impl<P> PrefabRegistry<P> {
    /// An empty registry without a base path, holding up to 100 prefabs,
    /// with hot reload on.
    pub fn new() -> (r: Self)
        ensures
            r@.entries.len() == 0,
            r@.base_path is None,
            r@.max_cache_size == 100,
            r@.hot_reload,
    {
        let r = Self {
            entries: Vec::new(),
            base_path: None,
            max_cache_size: 100,
            hot_reload: true,
            clock: 0,
        };
        assert(r@.entries =~= Seq::<(Seq<char>, CachedPrefab<P>)>::empty());
        r
    }

    /// An empty registry that resolves relative paths against `base_path`.
    pub fn with_base_path(base_path: String) -> (r: Self)
        ensures
            r@.entries.len() == 0,
            r@.base_path == Some(base_path@),
            r@.max_cache_size == 100,
            r@.hot_reload,
    {
        let r = Self {
            entries: Vec::new(),
            base_path: Some(base_path),
            max_cache_size: 100,
            hot_reload: true,
            clock: 0,
        };
        assert(r@.entries =~= Seq::<(Seq<char>, CachedPrefab<P>)>::empty());
        r
    }

    /// Set the base path; the cache is emptied, as cached keys were resolved
    /// against the old one.
    pub fn set_base_path(&mut self, path: String)
        ensures
            final(self)@ == (RegistryView {
                entries: Seq::empty(),
                base_path: Some(path@),
                ..old(self)@
            }),
    {
        self.base_path = Some(path);
        self.entries.clear();
        assert(self@.entries =~= Seq::<(Seq<char>, CachedPrefab<P>)>::empty());
    }

    /// Drop the base path; cached prefabs stay.
    pub fn clear_base_path(&mut self)
        ensures
            final(self)@ == (RegistryView { base_path: None, ..old(self)@ }),
    {
        self.base_path = None;
    }

    /// Turn hot reload on or off.
    pub fn set_hot_reload(&mut self, enabled: bool)
        ensures
            final(self)@ == (RegistryView { hot_reload: enabled, ..old(self)@ }),
    {
        self.hot_reload = enabled;
    }

    /// A path resolved against the base path: absolute paths, and all paths
    /// when there is no base, are kept as they are.
    pub fn resolve_path(&self, path: &str) -> (r: String)
        ensures
            r@ == resolved_path(self@.base_path, path@),
    {
        if is_absolute(path) {
            path.to_string()
        } else {
            match &self.base_path {
                Some(base) => join(base.as_str(), path),
                None => path.to_string(),
            }
        }
    }

    fn position(&self, key: &str) -> (r: usize)
        ensures
            r == key_position(self@.entries, key@),
    {
        let ghost s = self@.entries;
        let mut i: usize = 0;
        assert(s.skip(0) =~= s);
        while i < self.entries.len()
            invariant
                s == self@.entries,
                i <= s.len(),
                key_position(s, key@) == i + key_position(s.skip(i as int), key@),
            decreases s.len() - i,
        {
            let ghost rest = s.skip(i as int);
            assert(rest[0] == s[i as int]);
            if paths_equal(self.entries[i].path.as_str(), key) {
                return i;
            }
            assert(rest.drop_first() =~= s.skip(i + 1));
            i = i + 1;
        }
        assert(s.skip(i as int).len() == 0);
        i
    }

    fn oldest(&self) -> (r: usize)
        requires
            self@.entries.len() > 0,
        ensures
            r == oldest_position(self@.entries),
    {
        let ghost s = self@.entries;
        let mut best: usize = 0;
        let mut i: usize = 1;
        assert(s.take(1).len() <= 1);
        while i < self.entries.len()
            invariant
                s == self@.entries,
                1 <= i <= s.len(),
                best == oldest_position(s.take(i as int)),
            decreases s.len() - i,
        {
            proof {
                lemma_oldest_position(s.take(i as int));
                assert(s.take(i + 1).drop_last() =~= s.take(i as int));
                assert(s.take(i as int)[best as int] == s[best as int]);
            }
            if self.entries[i].last_access < self.entries[best].last_access {
                best = i;
            }
            i = i + 1;
        }
        assert(s.take(i as int) =~= s);
        best
    }

    /// Whether the prefab at `path` is cached.
    pub fn is_cached(&self, path: &str) -> (b: bool)
        ensures
            b == (key_position(self@.entries, resolved_path(self@.base_path, path@))
                < self@.entries.len()),
    {
        let resolved = self.resolve_path(path);
        self.position(resolved.as_str()) < self.entries.len()
    }

    /// The cached prefab under the key `resolved` (a path already resolved).
    pub fn cached(&self, resolved: &str) -> (r: Option<&P>)
        ensures
            match r {
                Some(p) => key_position(self@.entries, resolved@) < self@.entries.len() && *p
                    == self@.entries[key_position(self@.entries, resolved@)].1.value,
                None => key_position(self@.entries, resolved@) >= self@.entries.len(),
            },
    {
        let i = self.position(resolved);
        if i < self.entries.len() {
            Some(&self.entries[i].value)
        } else {
            None
        }
    }

    /// The first step of a lookup of the key `resolved`, whose file now has
    /// modification time `now`: whether the prefab must be loaded (it is not
    /// cached, or its copy is stale). When it must, and the cache is full,
    /// the prefab used longest ago is dropped first; when it need not, the
    /// cached copy is stamped as used.
    pub fn begin_get(&mut self, resolved: &str, now: Option<i128>) -> (load: bool)
        ensures
            load == needs_load(old(self)@, resolved@, now),
            final(self)@ == after_lookup(old(self)@, resolved@, now),
    {
        let ghost v = self@;
        proof {
            lemma_key_position(v.entries, resolved@);
        }
        let i = self.position(resolved);
        let load = if i < self.entries.len() {
            let current = now;
            let cached = self.entries[i].modified;
            self.hot_reload && match (current, cached) {
                (Some(c), Some(d)) => c > d,
                (Some(_), None) => true,
                _ => false,
            }
        } else {
            true
        };
        if load {
            if self.entries.len() >= self.max_cache_size && self.entries.len() > 0 {
                let j = self.oldest();
                proof {
                    lemma_oldest_position(v.entries);
                }
                let ghost before = self.entries@;
                let _ = self.entries.remove(j);
                assert(self@.entries =~= v.entries.remove(j as int));
            }
        } else {
            let stamp = self.clock;
            self.entries[i].last_access = stamp;
            if self.clock < u64::MAX {
                self.clock = self.clock + 1;
            }
            assert(self@.entries =~= v.entries.update(
                i as int,
                (v.entries[i as int].0, CachedPrefab { last_access: v.clock, ..v.entries[i as int].1 }),
            ));
        }
        load
    }

    /// Keep a loaded prefab under the key `resolved`, stamped as used now:
    /// it replaces the cached copy of the same path, or is added.
    pub fn store(&mut self, resolved: String, value: P, modified: Option<i128>)
        ensures
            final(self)@ == after_store(old(self)@, resolved@, value, modified),
    {
        let ghost v = self@;
        let i = self.position(resolved.as_str());
        let stamp = self.clock;
        if i < self.entries.len() {
            self.entries[i].value = value;
            self.entries[i].modified = modified;
            self.entries[i].last_access = stamp;
            assert(self@.entries =~= v.entries.update(
                i as int,
                (v.entries[i as int].0, CachedPrefab { value, modified, last_access: v.clock }),
            ));
        } else {
            self.entries.push(CacheEntry { path: resolved, value, modified, last_access: stamp });
            assert(self@.entries =~= v.entries.push(
                (resolved@, CachedPrefab { value, modified, last_access: v.clock }),
            ));
        }
        if self.clock < u64::MAX {
            self.clock = self.clock + 1;
        }
    }

    /// Drop the cached prefab of the key `resolved`, if any.
    pub fn remove_cached(&mut self, resolved: &str)
        ensures
            final(self)@ == after_remove(old(self)@, resolved@),
    {
        let ghost v = self@;
        let i = self.position(resolved);
        if i < self.entries.len() {
            let _ = self.entries.remove(i);
            assert(self@.entries =~= v.entries.remove(i as int));
        }
    }

    /// Drop the cached prefab at `path`, so the next lookup loads it.
    pub fn invalidate(&mut self, path: &str)
        ensures
            final(self)@ == after_remove(old(self)@, resolved_path(old(self)@.base_path, path@)),
    {
        let resolved = self.resolve_path(path);
        self.remove_cached(resolved.as_str());
    }

    /// Empty the cache.
    pub fn clear(&mut self)
        ensures
            final(self)@ == (RegistryView { entries: Seq::empty(), ..old(self)@ }),
    {
        self.entries.clear();
        assert(self@.entries =~= Seq::<(Seq<char>, CachedPrefab<P>)>::empty());
    }

    /// The number of cached prefabs and the cache's size.
    pub fn stats(&self) -> (r: CacheStats)
        ensures
            r.cached_count == self@.entries.len(),
            r.max_size == self@.max_cache_size,
    {
        CacheStats { cached_count: self.entries.len(), max_size: self.max_cache_size }
    }

    /// The number of cached prefabs.
    pub fn len(&self) -> (r: usize)
        ensures
            r == self@.entries.len(),
    {
        self.entries.len()
    }

    /// Whether no prefab is cached.
    pub fn is_empty(&self) -> (b: bool)
        ensures
            b == (self@.entries.len() == 0),
    {
        self.entries.len() == 0
    }

    /// The keys of the cached prefabs, in cache order.
    pub fn cached_paths(&self) -> (r: Vec<String>)
        ensures
            r@.map_values(|p: String| p@) == self@.entries.map_values(
                |e: (Seq<char>, CachedPrefab<P>)| e.0,
            ),
    {
        let ghost s = self@.entries;
        let mut r: Vec<String> = Vec::new();
        let mut i: usize = 0;
        while i < self.entries.len()
            invariant
                s == self@.entries,
                i <= s.len(),
                r@.map_values(|p: String| p@) == s.take(i as int).map_values(
                    |e: (Seq<char>, CachedPrefab<P>)| e.0,
                ),
            decreases s.len() - i,
        {
            let ghost before = r@;
            r.push(self.entries[i].path.clone());
            assert(r@.map_values(|p: String| p@) =~= before.map_values(|p: String| p@).push(
                s[i as int].0,
            ));
            assert(s.take(i + 1) =~= s.take(i as int).push(s[i as int]));
            assert(r@.map_values(|p: String| p@) =~= s.take(i + 1).map_values(
                |e: (Seq<char>, CachedPrefab<P>)| e.0,
            ));
            i = i + 1;
        }
        assert(s.take(i as int) =~= s);
        r
    }

    /// The keys of the cached prefabs whose files changed, given the current
    /// modification time of each cached prefab's file in cache order.
    pub fn stale_paths(&self, current: &Vec<Option<i128>>) -> (r: Vec<String>)
        requires
            current@.len() == self@.entries.len(),
        ensures
            r@.map_values(|p: String| p@) == Seq::new(self@.entries.len(), |i: int| i).filter(
                |i: int| is_stale(self@.hot_reload, current@[i], self@.entries[i].1.modified),
            ).map_values(|i: int| self@.entries[i].0),
    {
        let ghost v = self@;
        let ghost idx = Seq::new(v.entries.len(), |i: int| i);
        let ghost pred = |i: int| is_stale(v.hot_reload, current@[i], v.entries[i].1.modified);
        let ghost key = |i: int| v.entries[i].0;
        let mut r: Vec<String> = Vec::new();
        let mut i: usize = 0;
        while i < self.entries.len()
            invariant
                v == self@,
                current@.len() == v.entries.len(),
                idx == Seq::new(v.entries.len(), |i: int| i),
                pred == (|i: int| is_stale(v.hot_reload, current@[i], v.entries[i].1.modified)),
                key == (|i: int| v.entries[i].0),
                i <= v.entries.len(),
                r@.map_values(|p: String| p@) == idx.take(i as int).filter(pred).map_values(key),
            decreases v.entries.len() - i,
        {
            let cached = self.entries[i].modified;
            let stale = self.hot_reload && match (current[i], cached) {
                (Some(c), Some(d)) => c > d,
                (Some(_), None) => true,
                _ => false,
            };
            proof {
                assert(pred(i as int) == stale);
                assert(idx.take(i + 1) =~= idx.take(i as int).push(i as int));
                idx.take(i as int).lemma_filter_push(i as int, pred);
            }
            let ghost before = r@;
            if stale {
                r.push(self.entries[i].path.clone());
                assert(r@.map_values(|p: String| p@) =~= before.map_values(|p: String| p@).push(
                    key(i as int),
                ));
                assert(idx.take(i as int).filter(pred).push(i as int).map_values(key)
                    =~= idx.take(i as int).filter(pred).map_values(key).push(key(i as int)));
            }
            i = i + 1;
        }
        assert(idx.take(i as int) =~= idx);
        r
    }
}

impl<P> Default for PrefabRegistry<P> {
    fn default() -> (r: Self)
        ensures
            r@.entries.len() == 0,
            r@.base_path is None,
            r@.max_cache_size == 100,
            r@.hot_reload,
    {
        Self::new()
    }
}

} // verus!
