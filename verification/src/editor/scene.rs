//! The current scene's bookkeeping: its path, name and unsaved changes.
use vstd::prelude::*;

use crate::paths::{file_stem, file_stem_of};

verus! {

/// Scene errors.
#[derive(Debug)]
pub enum SceneError {
    /// IO error.
    Io(String),
    /// Serialization error.
    Serialize(String),
    /// Deserialization error.
    Deserialize(String),
}

/// The message shown for a scene error.
pub open spec fn scene_error_text(e: SceneError) -> Seq<char> {
    match e {
        SceneError::Io(m) => "IO error: "@ + m@,
        SceneError::Serialize(m) => "Serialize error: "@ + m@,
        SceneError::Deserialize(m) => "Deserialize error: "@ + m@,
    }
}

impl SceneError {
    /// The error's message.
    pub fn message(&self) -> (r: String)
        ensures
            r@ == scene_error_text(*self),
    {
        match self {
            SceneError::Io(m) => String::from_str("IO error: ").concat(m.as_str()),
            SceneError::Serialize(m) => String::from_str("Serialize error: ").concat(m.as_str()),
            SceneError::Deserialize(m) => String::from_str("Deserialize error: ").concat(
                m.as_str(),
            ),
        }
    }
}

/// The name a scene takes from its file: the file's stem, or `Untitled`.
pub open spec fn scene_name_of(path: Seq<char>) -> Seq<char> {
    match file_stem_of(path) {
        Some(stem) => stem,
        None => "Untitled"@,
    }
}

/// The editor's window title: `*` when there are unsaved changes, the scene
/// name, and the editor's name.
pub open spec fn window_title_of(dirty: bool, name: Seq<char>) -> Seq<char> {
    (if dirty {
        "*"@
    } else {
        Seq::empty()
    }) + name + " - Xtreme Editor"@
}

/// The window title shows the scene's name followed by the editor's name,
/// and is marked with a leading `*` exactly when the scene has unsaved
/// changes.
pub proof fn lemma_window_title_marks_changes(dirty: bool, name: Seq<char>)
    ensures
        (window_title_of(dirty, name).len() > 0 && window_title_of(dirty, name)[0] == '*')
            <== dirty,
        !dirty && (name.len() == 0 || name[0] != '*') ==> (window_title_of(dirty, name).len() == 0
            || window_title_of(dirty, name)[0] != '*'),
        " - Xtreme Editor"@.is_suffix_of(window_title_of(dirty, name)),
        window_title_of(dirty, name).len() == name.len() + " - Xtreme Editor"@.len() + (if dirty {
            1int
        } else {
            0int
        }),
{
    reveal_strlit("*");
    reveal_strlit(" - Xtreme Editor");
    let t = window_title_of(dirty, name);
    let tail = " - Xtreme Editor"@;
    let head = if dirty { "*"@ } else { Seq::<char>::empty() };
    assert(t == head + name + tail);
    assert(t.subrange(t.len() - tail.len(), t.len() as int) =~= tail);
    if !dirty {
        assert(t =~= name + tail);
        if name.len() > 0 {
            assert(t[0] == name[0]);
        }
    }
}

/// Tracks the current scene: where it is saved and whether it has changed.
pub struct SceneManager {
    /// Current scene path (none while unsaved).
    current_path: Option<String>,
    /// Whether the scene has unsaved changes.
    dirty: bool,
    /// Current scene name.
    scene_name: String,
}

/// The abstract scene state.
pub struct SceneState {
    pub path: Option<Seq<char>>,
    pub dirty: bool,
    pub name: Seq<char>,
}

impl View for SceneManager {
    type V = SceneState;

    closed spec fn view(&self) -> SceneState {
        SceneState {
            path: self.current_path.deep_view(),
            dirty: self.dirty,
            name: self.scene_name@,
        }
    }
}

impl Default for SceneManager {
    fn default() -> (r: Self)
        ensures
            r@ == (SceneState { path: None, dirty: false, name: "Untitled"@ }),
    {
        Self::new()
    }
}

impl SceneManager {
    /// A manager for a new, unsaved scene.
    pub fn new() -> (r: Self)
        ensures
            r@ == (SceneState { path: None, dirty: false, name: "Untitled"@ }),
    {
        Self { current_path: None, dirty: false, scene_name: String::from_str("Untitled") }
    }

    /// The current path.
    pub fn current_path(&self) -> (r: Option<&str>)
        ensures
            match r {
                Some(p) => self@.path == Some(p@),
                None => self@.path is None,
            },
    {
        match &self.current_path {
            Some(p) => Some(p.as_str()),
            None => None,
        }
    }

    /// The scene name.
    pub fn scene_name(&self) -> (r: &str)
        ensures
            r@ == self@.name,
    {
        self.scene_name.as_str()
    }

    /// Whether the scene has unsaved changes.
    pub fn is_dirty(&self) -> (b: bool)
        ensures
            b == self@.dirty,
    {
        self.dirty
    }

    /// Mark the scene as changed.
    pub fn mark_dirty(&mut self)
        ensures
            final(self)@ == (SceneState { dirty: true, ..old(self)@ }),
    {
        self.dirty = true;
    }

    /// Mark the scene as saved.
    pub fn mark_clean(&mut self)
        ensures
            final(self)@ == (SceneState { dirty: false, ..old(self)@ }),
    {
        self.dirty = false;
    }

    /// Record the path the scene was saved to: the scene takes its name from
    /// the file and counts as saved.
    pub fn set_path(&mut self, path: String)
        ensures
            final(self)@ == (SceneState {
                path: Some(path@),
                dirty: false,
                name: scene_name_of(path@),
            }),
    {
        self.scene_name = match file_stem(path.as_str()) {
            Some(stem) => stem,
            None => String::from_str("Untitled"),
        };
        self.current_path = Some(path);
        self.dirty = false;
    }

    /// Forget the path for a new scene.
    pub fn new_scene(&mut self)
        ensures
            final(self)@ == (SceneState { path: None, dirty: false, name: "Untitled"@ }),
    {
        self.current_path = None;
        self.scene_name = String::from_str("Untitled");
        self.dirty = false;
    }

    /// The window title.
    pub fn window_title(&self) -> (r: String)
        ensures
            r@ == window_title_of(self@.dirty, self@.name),
    {
        let mut title = if self.dirty {
            String::from_str("*")
        } else {
            String::new()
        };
        title.append(self.scene_name.as_str());
        title.append(" - Xtreme Editor");
        assert(title@ =~= window_title_of(self@.dirty, self@.name));
        title
    }
}

} // verus!
