//! The commands of the editor whose creation the library decides, and how the undo
//! command manager treats each.
use crate::graph::{Edge, GuiEdge, NodeId};
use crate::node::{MixType, ResizeFilter, ResizePolicy};
use crate::undo::{QueuedCommand, UndoCommandType};
use vstd::prelude::*;

verus! {

/// A command of the editor.
#[derive(Debug, PartialEq, Eq)]
pub enum EditorCommand {
    /// Replaces the selection with the given nodes.
    ReplaceSelection(Vec<NodeId>),
    /// Selects a node, if it is not selected yet.
    SelectNode(NodeId),
    /// Deselects a node, and makes it not active, if it is selected.
    DeselectNode(NodeId),
    /// Deselects all nodes.
    DeselectAll,
    /// Marks a node as selected.
    SelectNodeOnly(NodeId),
    /// Marks a node as not selected.
    DeselectNodeOnly(NodeId),
    /// Makes a node the active one, selecting it.
    MakeNodeActive(NodeId),
    /// Makes a node not active, if it is the active one.
    MakeNodeNotActive(NodeId),
    /// Makes no node active.
    MakeNothingActive,
    /// Marks a node as active.
    MakeNodeActiveOnly(NodeId),
    /// Marks a node as not active.
    MakeNodeNotActiveOnly(NodeId),
    /// Removes the selected nodes.
    DeleteSelected,
    /// Removes a node with the edges connected to it.
    RemoveNode(NodeId),
    /// Removes a node, and none of its edges.
    RemoveNodeOnly(NodeId),
    /// Adds a node.
    AddNode(NodeId),
    /// Moves a node from where its drag started to where it was dropped.
    MoveNode(NodeId),
    /// Sets the value of a value node to the value typed for it.
    SetValue(NodeId),
    /// Removes a drawn edge and the connection it stands for.
    RemoveGuiEdge(GuiEdge),
    /// Connects an edge, first removing the edges into its input slot.
    AddEdge(Edge),
    /// Connects an edge, removing nothing.
    AddEdgeOnly(Edge),
    /// Selects the nodes added in this frame.
    SelectNew,
    /// Moves the selected nodes to the cursor.
    SelectedToCursorSneaky,
    /// Deselects every node, without keeping the change for undo.
    DeselectSneaky,
    /// Switches to grabbing nodes.
    DragToolUndo,
    /// Spreads nodes that were added together so that they do not overlap.
    MultiImportOffset,
    /// Changes the resize policy of a node.
    SetResizePolicy { node_id: NodeId, from: ResizePolicy, to: ResizePolicy },
    /// Changes the resize filter of a node.
    SetResizeFilter { node_id: NodeId, from: ResizeFilter, to: ResizeFilter },
    /// Changes how a mix node mixes its inputs.
    SetMixType { node_id: NodeId, from: MixType, to: MixType },
    /// Renames an output node.
    SetName { node_id: NodeId, from: Vec<char>, to: Vec<char> },
}

/// The abstract value of an [`EditorCommand`].
pub enum CommandView {
    ReplaceSelection(Seq<NodeId>),
    SelectNode(NodeId),
    DeselectNode(NodeId),
    DeselectAll,
    SelectNodeOnly(NodeId),
    DeselectNodeOnly(NodeId),
    MakeNodeActive(NodeId),
    MakeNodeNotActive(NodeId),
    MakeNothingActive,
    MakeNodeActiveOnly(NodeId),
    MakeNodeNotActiveOnly(NodeId),
    DeleteSelected,
    RemoveNode(NodeId),
    RemoveNodeOnly(NodeId),
    AddNode(NodeId),
    MoveNode(NodeId),
    SetValue(NodeId),
    RemoveGuiEdge(GuiEdge),
    AddEdge(Edge),
    AddEdgeOnly(Edge),
    SelectNew,
    SelectedToCursorSneaky,
    DeselectSneaky,
    DragToolUndo,
    MultiImportOffset,
    SetResizePolicy { node_id: NodeId, from: ResizePolicy, to: ResizePolicy },
    SetResizeFilter { node_id: NodeId, from: ResizeFilter, to: ResizeFilter },
    SetMixType { node_id: NodeId, from: MixType, to: MixType },
    SetName { node_id: NodeId, from: Seq<char>, to: Seq<char> },
}

impl View for EditorCommand {
    type V = CommandView;

    open spec fn view(&self) -> CommandView {
        match self {
            EditorCommand::ReplaceSelection(ids) => CommandView::ReplaceSelection(ids@),
            EditorCommand::SelectNode(n) => CommandView::SelectNode(*n),
            EditorCommand::DeselectNode(n) => CommandView::DeselectNode(*n),
            EditorCommand::DeselectAll => CommandView::DeselectAll,
            EditorCommand::SelectNodeOnly(n) => CommandView::SelectNodeOnly(*n),
            EditorCommand::DeselectNodeOnly(n) => CommandView::DeselectNodeOnly(*n),
            EditorCommand::MakeNodeActive(n) => CommandView::MakeNodeActive(*n),
            EditorCommand::MakeNodeNotActive(n) => CommandView::MakeNodeNotActive(*n),
            EditorCommand::MakeNothingActive => CommandView::MakeNothingActive,
            EditorCommand::MakeNodeActiveOnly(n) => CommandView::MakeNodeActiveOnly(*n),
            EditorCommand::MakeNodeNotActiveOnly(n) => CommandView::MakeNodeNotActiveOnly(*n),
            EditorCommand::DeleteSelected => CommandView::DeleteSelected,
            EditorCommand::RemoveNode(n) => CommandView::RemoveNode(*n),
            EditorCommand::RemoveNodeOnly(n) => CommandView::RemoveNodeOnly(*n),
            EditorCommand::AddNode(n) => CommandView::AddNode(*n),
            EditorCommand::MoveNode(n) => CommandView::MoveNode(*n),
            EditorCommand::SetValue(n) => CommandView::SetValue(*n),
            EditorCommand::RemoveGuiEdge(e) => CommandView::RemoveGuiEdge(*e),
            EditorCommand::AddEdge(e) => CommandView::AddEdge(*e),
            EditorCommand::AddEdgeOnly(e) => CommandView::AddEdgeOnly(*e),
            EditorCommand::SelectNew => CommandView::SelectNew,
            EditorCommand::SelectedToCursorSneaky => CommandView::SelectedToCursorSneaky,
            EditorCommand::DeselectSneaky => CommandView::DeselectSneaky,
            EditorCommand::DragToolUndo => CommandView::DragToolUndo,
            EditorCommand::MultiImportOffset => CommandView::MultiImportOffset,
            EditorCommand::SetResizePolicy { node_id, from, to } => CommandView::SetResizePolicy {
                node_id: *node_id,
                from: *from,
                to: *to,
            },
            EditorCommand::SetResizeFilter { node_id, from, to } => CommandView::SetResizeFilter {
                node_id: *node_id,
                from: *from,
                to: *to,
            },
            EditorCommand::SetMixType { node_id, from, to } => CommandView::SetMixType {
                node_id: *node_id,
                from: *from,
                to: *to,
            },
            EditorCommand::SetName { node_id, from, to } => CommandView::SetName {
                node_id: *node_id,
                from: from@,
                to: to@,
            },
        }
    }
}

/// How the undo command manager treats each command.
pub open spec fn spec_command_type(c: CommandView) -> UndoCommandType {
    match c {
        CommandView::SelectNodeOnly(_) | CommandView::DeselectNodeOnly(_)
        | CommandView::MakeNodeActiveOnly(_) | CommandView::MakeNodeNotActiveOnly(_)
        | CommandView::RemoveNodeOnly(_) | CommandView::AddNode(_) | CommandView::MoveNode(_)
        | CommandView::SetValue(_)
        | CommandView::RemoveGuiEdge(_) | CommandView::AddEdgeOnly(_)
        | CommandView::SetResizePolicy { .. } | CommandView::SetResizeFilter { .. }
        | CommandView::SetMixType { .. } | CommandView::SetName { .. } => UndoCommandType::Command,
        _ => UndoCommandType::Custom,
    }
}

/// The command as it waits in the manager's queue.
pub open spec fn spec_queued(c: CommandView) -> QueuedCommand<CommandView> {
    if spec_command_type(c) == UndoCommandType::Command {
        QueuedCommand::Command(c)
    } else {
        QueuedCommand::Custom(c)
    }
}

/// The abstract value of a queued command.
pub open spec fn queued_view(q: QueuedCommand<EditorCommand>) -> QueuedCommand<CommandView> {
    match q {
        QueuedCommand::Command(c) => QueuedCommand::Command(c@),
        QueuedCommand::Custom(c) => QueuedCommand::Custom(c@),
        QueuedCommand::Checkpoint => QueuedCommand::Checkpoint,
        QueuedCommand::Undo => QueuedCommand::Undo,
        QueuedCommand::Redo => QueuedCommand::Redo,
        QueuedCommand::Cancel => QueuedCommand::Cancel,
    }
}

/// The abstract value of a list of queued commands.
pub open spec fn queued_views(v: Seq<QueuedCommand<EditorCommand>>) -> Seq<QueuedCommand<CommandView>> {
    v.map_values(|q: QueuedCommand<EditorCommand>| queued_view(q))
}

impl EditorCommand {
    /// How the undo command manager treats this command.
    pub fn command_type(&self) -> (t: UndoCommandType)
        ensures
            t == spec_command_type(self@),
    {
        match self {
            EditorCommand::SelectNodeOnly(_) | EditorCommand::DeselectNodeOnly(_)
            | EditorCommand::MakeNodeActiveOnly(_) | EditorCommand::MakeNodeNotActiveOnly(_)
            | EditorCommand::RemoveNodeOnly(_) | EditorCommand::AddNode(_)
            | EditorCommand::MoveNode(_) | EditorCommand::SetValue(_)
            | EditorCommand::RemoveGuiEdge(_)
            | EditorCommand::AddEdgeOnly(_) | EditorCommand::SetResizePolicy { .. }
            | EditorCommand::SetResizeFilter { .. } | EditorCommand::SetMixType { .. }
            | EditorCommand::SetName { .. } => UndoCommandType::Command,
            _ => UndoCommandType::Custom,
        }
    }
}

/// Wraps a command for the manager's queue, by its type.
pub fn queued(c: EditorCommand) -> (q: QueuedCommand<EditorCommand>)
    ensures
        queued_view(q) == spec_queued(c@),
{
    match c.command_type() {
        UndoCommandType::Command => QueuedCommand::Command(c),
        _ => QueuedCommand::Custom(c),
    }
}

/// A copy of `v`.
pub fn copy_vec<T: Copy>(v: &Vec<T>) -> (c: Vec<T>)
    ensures
        c@ == v@,
{
    let mut c: Vec<T> = Vec::new();
    let mut i: usize = 0;
    while i < v.len()
        invariant
            i <= v@.len(),
            c@ == v@.take(i as int),
        decreases v@.len() - i,
    {
        c.push(v[i]);
        i = i + 1;
        assert(c@ =~= v@.take(i as int));
    }
    assert(v@.take(v@.len() as int) =~= v@);
    c
}

impl EditorCommand {
    /// A copy of this command.
    pub fn duplicate(&self) -> (c: EditorCommand)
        ensures
            c@ == self@,
    {
        match self {
            EditorCommand::ReplaceSelection(ids) => EditorCommand::ReplaceSelection(copy_vec(ids)),
            EditorCommand::SelectNode(n) => EditorCommand::SelectNode(*n),
            EditorCommand::DeselectNode(n) => EditorCommand::DeselectNode(*n),
            EditorCommand::DeselectAll => EditorCommand::DeselectAll,
            EditorCommand::SelectNodeOnly(n) => EditorCommand::SelectNodeOnly(*n),
            EditorCommand::DeselectNodeOnly(n) => EditorCommand::DeselectNodeOnly(*n),
            EditorCommand::MakeNodeActive(n) => EditorCommand::MakeNodeActive(*n),
            EditorCommand::MakeNodeNotActive(n) => EditorCommand::MakeNodeNotActive(*n),
            EditorCommand::MakeNothingActive => EditorCommand::MakeNothingActive,
            EditorCommand::MakeNodeActiveOnly(n) => EditorCommand::MakeNodeActiveOnly(*n),
            EditorCommand::MakeNodeNotActiveOnly(n) => EditorCommand::MakeNodeNotActiveOnly(*n),
            EditorCommand::DeleteSelected => EditorCommand::DeleteSelected,
            EditorCommand::RemoveNode(n) => EditorCommand::RemoveNode(*n),
            EditorCommand::RemoveNodeOnly(n) => EditorCommand::RemoveNodeOnly(*n),
            EditorCommand::AddNode(n) => EditorCommand::AddNode(*n),
            EditorCommand::MoveNode(n) => EditorCommand::MoveNode(*n),
            EditorCommand::SetValue(n) => EditorCommand::SetValue(*n),
            EditorCommand::RemoveGuiEdge(e) => EditorCommand::RemoveGuiEdge(*e),
            EditorCommand::AddEdge(e) => EditorCommand::AddEdge(*e),
            EditorCommand::AddEdgeOnly(e) => EditorCommand::AddEdgeOnly(*e),
            EditorCommand::SelectNew => EditorCommand::SelectNew,
            EditorCommand::SelectedToCursorSneaky => EditorCommand::SelectedToCursorSneaky,
            EditorCommand::DeselectSneaky => EditorCommand::DeselectSneaky,
            EditorCommand::DragToolUndo => EditorCommand::DragToolUndo,
            EditorCommand::MultiImportOffset => EditorCommand::MultiImportOffset,
            EditorCommand::SetResizePolicy { node_id, from, to } => EditorCommand::SetResizePolicy {
                node_id: *node_id,
                from: *from,
                to: *to,
            },
            EditorCommand::SetResizeFilter { node_id, from, to } => EditorCommand::SetResizeFilter {
                node_id: *node_id,
                from: *from,
                to: *to,
            },
            EditorCommand::SetMixType { node_id, from, to } => EditorCommand::SetMixType {
                node_id: *node_id,
                from: *from,
                to: *to,
            },
            EditorCommand::SetName { node_id, from, to } => EditorCommand::SetName {
                node_id: *node_id,
                from: copy_vec(from),
                to: copy_vec(to),
            },
        }
    }
}

/// The commands that change the world in ways the undo stack need not keep (the
/// sneaky ones, and those that queue other commands) are of type custom, so the
/// manager applies them and forgets them.
pub proof fn lemma_sneaky_commands_are_custom(ids: Seq<NodeId>, n: NodeId, e: Edge)
    ensures
        spec_queued(CommandView::SelectedToCursorSneaky) == QueuedCommand::Custom(
            CommandView::SelectedToCursorSneaky,
        ),
        spec_queued(CommandView::DeselectSneaky) == QueuedCommand::Custom(
            CommandView::DeselectSneaky,
        ),
        spec_queued(CommandView::RemoveNode(n))
            == QueuedCommand::Custom(CommandView::RemoveNode(n)),
        spec_queued(CommandView::AddEdge(e)) == QueuedCommand::Custom(CommandView::AddEdge(e)),
        spec_queued(CommandView::ReplaceSelection(ids)) == QueuedCommand::Custom(
            CommandView::ReplaceSelection(ids),
        ),
{
}

} // verus!
