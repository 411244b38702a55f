//! Editor actions that can be bound to shortcuts.
use vstd::prelude::*;

verus! {

/// Editor actions that can be bound to shortcuts.
#[derive(Clone, Copy, Debug, PartialEq, Eq, Hash, Structural)]
pub enum EditorAction {
    NewScene,
    OpenScene,
    SaveScene,
    SaveSceneAs,
    Undo,
    Redo,
    Cut,
    Copy,
    Paste,
    Delete,
    Duplicate,
    SelectAll,
    SelectTool,
    MoveTool,
    RotateTool,
    ScaleTool,
    FocusSelected,
    FrameAll,
    ResetCamera,
    TopView,
    FrontView,
    SideView,
    CreateCube,
    CreateEmpty,
    ToggleVisibility,
    TogglePlay,
}

/// The name under which an action is shown to the user.
pub open spec fn action_label(action: EditorAction) -> Seq<char> {
    match action {
        EditorAction::NewScene => "New Scene"@,
        EditorAction::OpenScene => "Open Scene"@,
        EditorAction::SaveScene => "Save Scene"@,
        EditorAction::SaveSceneAs => "Save Scene As"@,
        EditorAction::Undo => "Undo"@,
        EditorAction::Redo => "Redo"@,
        EditorAction::Cut => "Cut"@,
        EditorAction::Copy => "Copy"@,
        EditorAction::Paste => "Paste"@,
        EditorAction::Delete => "Delete"@,
        EditorAction::Duplicate => "Duplicate"@,
        EditorAction::SelectAll => "Select All"@,
        EditorAction::SelectTool => "Select Tool"@,
        EditorAction::MoveTool => "Move Tool"@,
        EditorAction::RotateTool => "Rotate Tool"@,
        EditorAction::ScaleTool => "Scale Tool"@,
        EditorAction::FocusSelected => "Focus Selected"@,
        EditorAction::FrameAll => "Frame All"@,
        EditorAction::ResetCamera => "Reset Camera"@,
        EditorAction::TopView => "Top View"@,
        EditorAction::FrontView => "Front View"@,
        EditorAction::SideView => "Side View"@,
        EditorAction::CreateCube => "Create Cube"@,
        EditorAction::CreateEmpty => "Create Empty"@,
        EditorAction::ToggleVisibility => "Toggle Visibility"@,
        EditorAction::TogglePlay => "Toggle Play Mode"@,
    }
}

impl EditorAction {
    /// Display name of the action.
    pub fn name(&self) -> (r: &'static str)
        ensures
            r@ == action_label(*self),
    {
        match self {
            EditorAction::NewScene => "New Scene",
            EditorAction::OpenScene => "Open Scene",
            EditorAction::SaveScene => "Save Scene",
            EditorAction::SaveSceneAs => "Save Scene As",
            EditorAction::Undo => "Undo",
            EditorAction::Redo => "Redo",
            EditorAction::Cut => "Cut",
            EditorAction::Copy => "Copy",
            EditorAction::Paste => "Paste",
            EditorAction::Delete => "Delete",
            EditorAction::Duplicate => "Duplicate",
            EditorAction::SelectAll => "Select All",
            EditorAction::SelectTool => "Select Tool",
            EditorAction::MoveTool => "Move Tool",
            EditorAction::RotateTool => "Rotate Tool",
            EditorAction::ScaleTool => "Scale Tool",
            EditorAction::FocusSelected => "Focus Selected",
            EditorAction::FrameAll => "Frame All",
            EditorAction::ResetCamera => "Reset Camera",
            EditorAction::TopView => "Top View",
            EditorAction::FrontView => "Front View",
            EditorAction::SideView => "Side View",
            EditorAction::CreateCube => "Create Cube",
            EditorAction::CreateEmpty => "Create Empty",
            EditorAction::ToggleVisibility => "Toggle Visibility",
            EditorAction::TogglePlay => "Toggle Play Mode",
        }
    }
}

} // verus!
