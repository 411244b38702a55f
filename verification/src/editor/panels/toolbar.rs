//! Editor tools and the toolbar's actions.
use vstd::prelude::*;

use crate::editor::shortcuts::{key_label, KeyCode};

verus! {

/// The current editor tool.
#[derive(Debug, Clone, Copy, PartialEq, Eq, Structural)]
pub enum Tool {
    /// Selection tool (the default).
    Select,
    /// Move/translate tool.
    Move,
    /// Rotate tool.
    Rotate,
    /// Scale tool.
    Scale,
}

impl Default for Tool {
    fn default() -> (r: Self)
        ensures
            r == Tool::Select,
    {
        Tool::Select
    }
}

/// A tool's icon.
pub open spec fn tool_icon(t: Tool) -> Seq<char> {
    match t {
        Tool::Select => "\u{2b1a}"@,
        Tool::Move => "\u{2725}"@,
        Tool::Rotate => "\u{21bb}"@,
        Tool::Scale => "\u{2922}"@,
    }
}

/// A tool's name.
pub open spec fn tool_label(t: Tool) -> Seq<char> {
    match t {
        Tool::Select => "Select"@,
        Tool::Move => "Move"@,
        Tool::Rotate => "Rotate"@,
        Tool::Scale => "Scale"@,
    }
}

/// A tool's keyboard shortcut.
pub open spec fn tool_key(t: Tool) -> Seq<char> {
    match t {
        Tool::Select => "Q"@,
        Tool::Move => "W"@,
        Tool::Rotate => "E"@,
        Tool::Scale => "R"@,
    }
}

impl Tool {
    /// The tool's icon.
    pub fn icon(&self) -> (r: &'static str)
        ensures
            r@ == tool_icon(*self),
    {
        match self {
            Tool::Select => "\u{2b1a}",
            Tool::Move => "\u{2725}",
            Tool::Rotate => "\u{21bb}",
            Tool::Scale => "\u{2922}",
        }
    }

    /// The tool's name.
    pub fn name(&self) -> (r: &'static str)
        ensures
            r@ == tool_label(*self),
    {
        match self {
            Tool::Select => "Select",
            Tool::Move => "Move",
            Tool::Rotate => "Rotate",
            Tool::Scale => "Scale",
        }
    }

    /// The tool's keyboard shortcut.
    pub fn shortcut(&self) -> (r: &'static str)
        ensures
            r@ == tool_key(*self),
    {
        match self {
            Tool::Select => "Q",
            Tool::Move => "W",
            Tool::Rotate => "E",
            Tool::Scale => "R",
        }
    }
}

/// Transform space.
#[derive(Debug, Clone, Copy, PartialEq, Eq, Structural)]
pub enum TransformSpace {
    /// Local/object space (the default).
    Local,
    /// World/global space.
    World,
}

impl Default for TransformSpace {
    fn default() -> (r: Self)
        ensures
            r == TransformSpace::Local,
    {
        TransformSpace::Local
    }
}

/// Actions from the toolbar.
#[derive(Debug, Clone, Copy, PartialEq, Eq, Structural)]
pub enum ToolbarAction {
    /// No action.
    NoAction,
    /// Center the view on the selection.
    CenterView,
    /// Frame all objects in view.
    FrameAll,
}

/// The tool that a key selects, if any: Q, W, E and R select the select,
/// move, rotate and scale tools.
pub open spec fn tool_of_key(key: KeyCode) -> Option<Tool> {
    match key {
        KeyCode::Q => Some(Tool::Select),
        KeyCode::W => Some(Tool::Move),
        KeyCode::E => Some(Tool::Rotate),
        KeyCode::R => Some(Tool::Scale),
        _ => None,
    }
}

/// The key that selects a tool.
pub open spec fn key_of_tool(t: Tool) -> KeyCode {
    match t {
        Tool::Select => KeyCode::Q,
        Tool::Move => KeyCode::W,
        Tool::Rotate => KeyCode::E,
        Tool::Scale => KeyCode::R,
    }
}

/// The tool that a pressed key switches to, or `None` when the key selects
/// no tool and is left to other handlers.
pub fn tool_for_key(key: KeyCode) -> (r: Option<Tool>)
    ensures
        r == tool_of_key(key),
{
    match key {
        KeyCode::Q => Some(Tool::Select),
        KeyCode::W => Some(Tool::Move),
        KeyCode::E => Some(Tool::Rotate),
        KeyCode::R => Some(Tool::Scale),
        _ => None,
    }
}

/// The shortcut that the toolbar shows for each tool is the label of the
/// key that selects it, and that key selects no other tool.
pub proof fn lemma_shown_shortcut_selects_tool(t: Tool, key: KeyCode)
    ensures
        key_label(key_of_tool(t)) == tool_key(t),
        tool_of_key(key_of_tool(t)) == Some(t),
        tool_of_key(key) == Some(t) ==> key == key_of_tool(t),
{
}

impl TransformSpace {
    /// The other transform space: what the toolbar's space button switches to.
    pub fn toggled(self) -> (r: Self)
        ensures
            r != self,
    {
        match self {
            TransformSpace::Local => TransformSpace::World,
            TransformSpace::World => TransformSpace::Local,
        }
    }
}

} // verus!
