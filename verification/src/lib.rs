//! The editing logic of Kanter, a node based texture editor: the undo command manager
//! and the editor's history, keyboard state and hotkeys, selection and active nodes,
//! edges, the tools for adding, moving and editing nodes, and the instructions shown.
use vstd::prelude::*;

pub mod add_tool;
pub mod commands;
pub mod edges;
pub mod export;
pub mod graph;
pub mod history;
pub mod hotkeys;
pub mod instructions;
pub mod mouse;
pub mod node;
pub mod node_edit;
pub mod scan_code;
pub mod scan_code_input;
pub mod selection;
pub mod text;
pub mod tool;
pub mod undo;
pub mod workspace;

verus! {

} // verus!
