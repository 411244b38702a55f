//! Actions of the scripts section.
use vstd::prelude::*;

verus! {

/// Actions from the scripts section of the inspector.
#[derive(Clone, Debug, PartialEq, Eq, Structural)]
pub enum ScriptsAction {
    /// No action.
    NoAction,
    /// Show the new-script dialog.
    ShowNewScriptDialog,
    /// Show the attach-script dialog.
    ShowAttachScriptDialog,
    /// Remove a script from an object.
    RemoveScript { object_id: u32, script_id: u32 },
}

} // verus!
