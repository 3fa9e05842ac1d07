//! The editor's tools and modes.
use vstd::prelude::*;

verus! {

/// What is being grabbed.
#[derive(Clone, Copy, Debug, PartialEq, Eq, Hash, Structural)]
pub enum GrabToolType {
    Add,
    Node,
    Slot,
}

/// The tool in use.
#[derive(Clone, Copy, Debug, PartialEq, Eq, Hash, Structural)]
pub enum ToolState {
    /// No tool: the workspace reacts to clicks and drags.
    Idle,
    Add,
    BoxSelect,
    Delete,
    EditNode,
    Export,
    ExportOutputs(bool),
    Grab(GrabToolType),
    Process,
    Undo,
    Redo,
}

/// Whether the camera follows the mouse.
#[derive(Clone, Copy, Debug, PartialEq, Eq, Hash, Structural)]
pub enum FirstPersonState {
    Off,
    On,
}

impl ToolState {
    /// The tool in use when the editor starts.
    pub fn default_state() -> (t: ToolState)
        ensures
            t == ToolState::Idle,
    {
        ToolState::Idle
    }

    /// The tool after exporting the outputs was asked for: with a directory chosen
    /// before, the outputs are exported there and no tool is in use; with none chosen
    /// yet, the user is asked for one first.
    pub fn after_export_outputs(has_directory: bool) -> (t: ToolState)
        ensures
            t == (if has_directory {
                ToolState::Idle
            } else {
                ToolState::ExportOutputs(true)
            }),
    {
        if has_directory {
            ToolState::Idle
        } else {
            ToolState::ExportOutputs(true)
        }
    }

    /// The tool after a grab was asked for: with nothing selected to grab, no tool is
    /// in use; otherwise the grab goes on.
    pub fn after_grab_setup(self, anything_selected: bool) -> (t: ToolState)
        ensures
            t == (if anything_selected {
                self
            } else {
                ToolState::Idle
            }),
    {
        if anything_selected {
            self
        } else {
            ToolState::Idle
        }
    }
}

impl FirstPersonState {
    /// The state when the editor starts.
    pub fn default_state() -> (f: FirstPersonState)
        ensures
            f == FirstPersonState::Off,
    {
        FirstPersonState::Off
    }

    /// The other state.
    pub fn toggled(&self) -> (f: FirstPersonState)
        ensures
            f == (if *self == FirstPersonState::Off {
                FirstPersonState::On
            } else {
                FirstPersonState::Off
            }),
    {
        if *self == FirstPersonState::Off {
            FirstPersonState::On
        } else {
            FirstPersonState::Off
        }
    }
}

} // verus!
