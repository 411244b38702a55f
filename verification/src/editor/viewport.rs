//! The viewport's shader cache: compiled pipelines and compile errors by
//! shader path, and which shaders sample a texture.
use vstd::prelude::*;

use crate::assoc::{
    assoc_map, keys_unique, lemma_assoc_absent, lemma_assoc_index, lemma_assoc_push,
    lemma_assoc_remove, lemma_assoc_update, lemma_keys_unique_push,
};
use crate::text::{contains_seq, contains_str, str_eq};

verus! {

/// Whether a shader's source marks it as sampling a texture: it names a
/// `texture_2d`, the `t_diffuse` binding, or bind group 1.
pub open spec fn samples_texture(source: Seq<char>) -> bool {
    contains_seq(source, "texture_2d"@) || contains_seq(source, "t_diffuse"@) || contains_seq(
        source,
        "@group(1)"@,
    )
}

/// Naming a 2D texture, the `t_diffuse` binding or bind group 1 anywhere in
/// a shader's source each make it a texture shader, whatever else it holds:
/// more source text never turns a texture shader into a plain one.
pub proof fn lemma_texture_markers(source: Seq<char>, more: Seq<char>)
    ensures
        contains_seq(source, "texture_2d"@) ==> samples_texture(source),
        contains_seq(source, "t_diffuse"@) ==> samples_texture(source),
        contains_seq(source, "@group(1)"@) ==> samples_texture(source),
        samples_texture(source) ==> samples_texture(source + more),
        samples_texture(source) ==> samples_texture(more + source),
{
    if samples_texture(source) {
        let m = if contains_seq(source, "texture_2d"@) {
            "texture_2d"@
        } else if contains_seq(source, "t_diffuse"@) {
            "t_diffuse"@
        } else {
            "@group(1)"@
        };
        let i = choose|i: int| crate::text::occurs_at(source, m, i);
        assert((source + more).subrange(i, i + m.len()) =~= source.subrange(i, i + m.len()));
        assert(crate::text::occurs_at(source + more, m, i));
        let j = i + more.len();
        assert((more + source).subrange(j, j + m.len()) =~= source.subrange(i, i + m.len()));
        assert(crate::text::occurs_at(more + source, m, j));
    }
}

/// Whether a shader needs the texture bind group, judged from its source.
pub fn shader_uses_texture(source: &str) -> (b: bool)
    ensures
        b == samples_texture(source@),
{
    contains_str(source, "texture_2d") || contains_str(source, "t_diffuse") || contains_str(
        source,
        "@group(1)",
    )
}

/// Values by path text, each path once.
struct TextMap<V> {
    entries: Vec<(String, V)>,
}

impl<V> TextMap<V> {
    spec fn pairs(&self) -> Seq<(Seq<char>, V)> {
        self.entries@.map_values(|p: (String, V)| (p.0@, p.1))
    }

    spec fn wf(&self) -> bool {
        keys_unique(self.pairs())
    }

    spec fn map(&self) -> Map<Seq<char>, V> {
        assoc_map(self.pairs())
    }

    fn new() -> (r: Self)
        ensures
            r.wf(),
            r.map() == Map::<Seq<char>, V>::empty(),
    {
        let r = Self { entries: Vec::new() };
        assert(r.pairs() =~= Seq::<(Seq<char>, V)>::empty());
        r
    }

    fn find(&self, key: &str) -> (r: Option<usize>)
        ensures
            match r {
                Some(i) => i < self.pairs().len() && self.pairs()[i as int].0 == key@,
                None => forall|i: int| 0 <= i < self.pairs().len() ==> self.pairs()[i].0 != key@,
            },
    {
        let mut i: usize = 0;
        while i < self.entries.len()
            invariant
                i <= self.entries@.len(),
                forall|j: int| 0 <= j < i ==> self.pairs()[j].0 != key@,
            decreases self.entries@.len() - i,
        {
            if str_eq(self.entries[i].0.as_str(), key) {
                return Some(i);
            }
            i = i + 1;
        }
        None
    }

    fn get(&self, key: &str) -> (r: Option<&V>)
        requires
            self.wf(),
        ensures
            match r {
                Some(v) => self.map().contains_key(key@) && *v == self.map()[key@],
                None => !self.map().contains_key(key@),
            },
    {
        match self.find(key) {
            Some(i) => {
                proof {
                    lemma_assoc_index(self.pairs(), i as int);
                }
                Some(&self.entries[i].1)
            },
            None => {
                proof {
                    lemma_assoc_absent(self.pairs(), key@);
                }
                None
            },
        }
    }

    fn insert(&mut self, key: String, value: V)
        requires
            old(self).wf(),
        ensures
            final(self).wf(),
            final(self).map() == old(self).map().insert(key@, value),
    {
        let ghost s = self.pairs();
        match self.find(key.as_str()) {
            Some(i) => {
                proof {
                    lemma_assoc_update(s, i as int, value);
                }
                let ghost k = key@;
                self.entries.set(i, (key, value));
                assert(self.pairs() =~= s.update(i as int, (s[i as int].0, value)));
            },
            None => {
                proof {
                    lemma_keys_unique_push(s, key@, value);
                    lemma_assoc_push(s, key@, value);
                }
                let ghost k = key@;
                self.entries.push((key, value));
                assert(self.pairs() =~= s.push((k, value)));
            },
        }
    }

    fn remove(&mut self, key: &str)
        requires
            old(self).wf(),
        ensures
            final(self).wf(),
            final(self).map() == old(self).map().remove(key@),
    {
        let ghost s = self.pairs();
        match self.find(key) {
            Some(i) => {
                proof {
                    lemma_assoc_remove(s, i as int);
                }
                let _ = self.entries.remove(i);
                assert(self.pairs() =~= s.remove(i as int));
            },
            None => {
                proof {
                    lemma_assoc_absent(s, key@);
                }
                assert(self.map().remove(key@) =~= self.map());
            },
        }
    }
}

/// Compiled shader pipelines and compile errors, by shader path. A shader
/// whose compilation failed is not compiled again until it is reloaded.
pub struct ShaderCache<S> {
    pipelines: TextMap<S>,
    errors: TextMap<String>,
}

impl<S> ShaderCache<S> {
    /// The compiled pipelines, by path.
    pub closed spec fn pipelines(&self) -> Map<Seq<char>, S> {
        self.pipelines.map()
    }

    /// The compile errors, by path.
    pub closed spec fn errors(&self) -> Map<Seq<char>, Seq<char>> {
        self.errors.map().map_values(|m: String| m@)
    }

    /// Well-formedness: each path is stored once in each table.
    pub closed spec fn wf(&self) -> bool {
        self.pipelines.wf() && self.errors.wf()
    }

    /// An empty cache.
    pub fn new() -> (r: Self)
        ensures
            r.wf(),
            r.pipelines() == Map::<Seq<char>, S>::empty(),
            r.errors() == Map::<Seq<char>, Seq<char>>::empty(),
    {
        let r = Self { pipelines: TextMap::new(), errors: TextMap::new() };
        assert(r.errors() =~= Map::<Seq<char>, Seq<char>>::empty());
        r
    }

    /// The compiled pipeline of the shader at `path`, if there is one.
    pub fn get(&self, path: &str) -> (r: Option<&S>)
        requires
            self.wf(),
        ensures
            match r {
                Some(p) => self.pipelines().contains_key(path@) && *p == self.pipelines()[path@],
                None => !self.pipelines().contains_key(path@),
            },
    {
        self.pipelines.get(path)
    }

    /// The compile error of the shader at `path`, if it failed.
    pub fn get_error(&self, path: &str) -> (r: Option<&str>)
        requires
            self.wf(),
        ensures
            match r {
                Some(m) => self.errors().contains_key(path@) && m@ == self.errors()[path@],
                None => !self.errors().contains_key(path@),
            },
    {
        match self.errors.get(path) {
            Some(m) => Some(m.as_str()),
            None => None,
        }
    }

    /// Whether the shader at `path` must be compiled: it has neither a
    /// pipeline nor a recorded error.
    pub fn needs_compile(&self, path: &str) -> (b: bool)
        requires
            self.wf(),
        ensures
            b == (!self.pipelines().contains_key(path@) && !self.errors().contains_key(path@)),
    {
        self.pipelines.get(path).is_none() && self.errors.get(path).is_none()
    }

    /// Keep the compiled pipeline of the shader at `path`.
    pub fn store_compiled(&mut self, path: String, pipeline: S)
        requires
            old(self).wf(),
        ensures
            final(self).wf(),
            final(self).pipelines() == old(self).pipelines().insert(path@, pipeline),
            final(self).errors() == old(self).errors(),
    {
        self.pipelines.insert(path, pipeline);
    }

    /// Record that the shader at `path` failed to compile.
    pub fn store_error(&mut self, path: String, message: String)
        requires
            old(self).wf(),
        ensures
            final(self).wf(),
            final(self).pipelines() == old(self).pipelines(),
            final(self).errors() == old(self).errors().insert(path@, message@),
    {
        let ghost before = self.errors.map();
        let ghost k = path@;
        let ghost m = message@;
        self.errors.insert(path, message);
        assert(self.errors() =~= before.map_values(|s: String| s@).insert(k, m));
    }

    /// Forget every pipeline and error, so each shader compiles again.
    pub fn clear(&mut self)
        requires
            old(self).wf(),
        ensures
            final(self).wf(),
            final(self).pipelines() == Map::<Seq<char>, S>::empty(),
            final(self).errors() == Map::<Seq<char>, Seq<char>>::empty(),
    {
        self.pipelines = TextMap::new();
        self.errors = TextMap::new();
        assert(self.errors() =~= Map::<Seq<char>, Seq<char>>::empty());
    }

    /// Forget the pipeline and the error of the shader at `path`, so it
    /// compiles again.
    pub fn reload(&mut self, path: &str)
        requires
            old(self).wf(),
        ensures
            final(self).wf(),
            final(self).pipelines() == old(self).pipelines().remove(path@),
            final(self).errors() == old(self).errors().remove(path@),
    {
        let ghost before = self.errors.map();
        self.pipelines.remove(path);
        self.errors.remove(path);
        assert(self.errors() =~= before.map_values(|s: String| s@).remove(path@));
    }
}

/// A shader is compiled at most once until it is reloaded: after its
/// pipeline or its error is stored, it no longer needs compiling.
pub proof fn lemma_compiled_once<S>(
    pipelines: Map<Seq<char>, S>,
    errors: Map<Seq<char>, Seq<char>>,
    path: Seq<char>,
    pipeline: S,
    message: Seq<char>,
)
    ensures
        pipelines.insert(path, pipeline).contains_key(path),
        errors.insert(path, message).contains_key(path),
        !pipelines.remove(path).contains_key(path) && !errors.remove(path).contains_key(path),
{
}

} // verus!
