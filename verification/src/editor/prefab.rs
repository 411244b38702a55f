//! Prefabs: reusable object templates, their instances in a scene and the
//! per-property overrides of each instance.
pub mod instance;
pub mod links;
pub mod overrides;
pub mod propagation;
pub mod registry;
pub mod resolver;

use vstd::prelude::*;

verus! {

/// Error type for prefab operations.
#[derive(Debug)]
pub enum PrefabError {
    /// An I/O error, with its message.
    Io(String),
    Serialize(String),
    Deserialize(String),
    /// A prefab cannot be made from an empty selection.
    Empty,
}

/// The message shown for a prefab error.
pub open spec fn prefab_error_text(e: PrefabError) -> Seq<char> {
    match e {
        PrefabError::Io(m) => "IO error: "@ + m@,
        PrefabError::Serialize(m) => "Serialize error: "@ + m@,
        PrefabError::Deserialize(m) => "Deserialize error: "@ + m@,
        PrefabError::Empty => "Cannot create prefab from empty selection"@,
    }
}

impl PrefabError {
    /// The error's message.
    pub fn message(&self) -> (r: String)
        ensures
            r@ == prefab_error_text(*self),
    {
        match self {
            PrefabError::Io(m) => String::from_str("IO error: ").concat(m.as_str()),
            PrefabError::Serialize(m) => String::from_str("Serialize error: ").concat(m.as_str()),
            PrefabError::Deserialize(m) => String::from_str("Deserialize error: ").concat(
                m.as_str(),
            ),
            PrefabError::Empty => String::from_str("Cannot create prefab from empty selection"),
        }
    }
}


} // verus!
