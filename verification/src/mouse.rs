//! Clicks and drags in the workspace: what a click, the start of a drag, a box
//! selection or a drop of nodes queues, and which tool follows.
use crate::commands::{queued_views, spec_queued, CommandView, EditorCommand};
use crate::graph::NodeId;
use crate::tool::{GrabToolType, ToolState};
use crate::undo::QueuedCommand;
use crate::workspace::Drag;
use vstd::prelude::*;

verus! {

/// What the mouse and the workspace show in a frame when no tool is in use.
#[derive(Clone, Copy, Debug, PartialEq, Eq, Structural)]
pub struct MouseInput {
    /// The left button was released in this frame.
    pub left_just_released: bool,
    /// The drag state of the workspace.
    pub drag: Drag,
    /// Some entity was dropped in this frame.
    pub some_dropped: bool,
    /// The cursor is over a slot.
    pub hovered_slot: bool,
    /// The node under the cursor, if any.
    pub hovered_node: Option<NodeId>,
    /// The node under the cursor is selected.
    pub hovered_node_selected: bool,
}

/// What happens to the slot under the cursor.
#[derive(Clone, Copy, Debug, PartialEq, Eq, Structural)]
pub enum SlotAction {
    /// Nothing.
    Untouched,
    /// It is selected and made active.
    SelectAndActivate,
    /// The other selected slots are deselected and it is selected, to be grabbed.
    Grab,
}

/// What a frame of mouse interaction leads to.
pub struct MouseOutcome {
    pub slot_action: SlotAction,
    /// Commands to push to the back of the queue, in order.
    pub pushes: Vec<QueuedCommand<EditorCommand>>,
    /// The tool to switch to, if any.
    pub tool: Option<ToolState>,
}

/// A left click that is not the end of a drag or a drop.
pub open spec fn is_single_click(m: MouseInput) -> bool {
    m.left_just_released && m.drag != Drag::Dropping && !m.some_dropped
}

/// The slot action of a frame.
pub open spec fn spec_slot_action(m: MouseInput) -> SlotAction {
    if is_single_click(m) && m.hovered_slot {
        SlotAction::SelectAndActivate
    } else if !is_single_click(m) && m.drag == Drag::Starting && m.hovered_slot {
        SlotAction::Grab
    } else {
        SlotAction::Untouched
    }
}

/// The commands a frame pushes.
pub open spec fn spec_mouse_pushes(m: MouseInput) -> Seq<QueuedCommand<CommandView>> {
    if is_single_click(m) {
        if m.hovered_slot {
            seq![QueuedCommand::Checkpoint]
        } else if let Some(id) = m.hovered_node {
            seq![
                spec_queued(CommandView::ReplaceSelection(seq![id])),
                spec_queued(CommandView::MakeNodeActive(id)),
                QueuedCommand::Checkpoint,
            ]
        } else {
            seq![
                spec_queued(CommandView::DeselectAll),
                spec_queued(CommandView::MakeNothingActive),
                QueuedCommand::Checkpoint,
            ]
        }
    } else if m.drag == Drag::Starting && !m.hovered_slot && m.hovered_node is Some
        && !m.hovered_node_selected {
        seq![
            spec_queued(CommandView::DeselectAll),
            spec_queued(CommandView::SelectNode(m.hovered_node.unwrap())),
        ]
    } else {
        Seq::empty()
    }
}

/// The tool a frame switches to.
pub open spec fn spec_mouse_tool(m: MouseInput) -> Option<ToolState> {
    if !is_single_click(m) && m.drag == Drag::Starting {
        if m.hovered_slot {
            Some(ToolState::Grab(GrabToolType::Slot))
        } else if m.hovered_node is Some {
            Some(ToolState::Grab(GrabToolType::Node))
        } else {
            Some(ToolState::BoxSelect)
        }
    } else {
        None
    }
}

/// Handles the mouse in the workspace when no tool is in use. A click selects what is
/// under the cursor (a slot, or a node, which is then made active) or, on empty
/// space, deselects everything, and saves a checkpoint. The start of a drag grabs the
/// slot or node under the cursor (selecting the node alone if it was not selected),
/// or starts a box selection.
pub fn mouse_interaction(m: MouseInput) -> (o: MouseOutcome)
    ensures
        o.slot_action == spec_slot_action(m),
        queued_views(o.pushes@) == spec_mouse_pushes(m),
        o.tool == spec_mouse_tool(m),
{
    let single_click = m.left_just_released && m.drag != Drag::Dropping && !m.some_dropped;
    let mut pushes: Vec<QueuedCommand<EditorCommand>> = Vec::new();
    let mut slot_action = SlotAction::Untouched;
    let mut tool: Option<ToolState> = None;
    if single_click {
        if m.hovered_slot {
            slot_action = SlotAction::SelectAndActivate;
        } else if let Some(id) = m.hovered_node {
            let mut ids: Vec<NodeId> = Vec::new();
            ids.push(id);
            assert(ids@ =~= seq![id]);
            pushes.push(QueuedCommand::Custom(EditorCommand::ReplaceSelection(ids)));
            pushes.push(QueuedCommand::Custom(EditorCommand::MakeNodeActive(id)));
        } else {
            pushes.push(QueuedCommand::Custom(EditorCommand::DeselectAll));
            pushes.push(QueuedCommand::Custom(EditorCommand::MakeNothingActive));
        }
        pushes.push(QueuedCommand::Checkpoint);
    } else if m.drag == Drag::Starting {
        if m.hovered_slot {
            slot_action = SlotAction::Grab;
            tool = Some(ToolState::Grab(GrabToolType::Slot));
        } else if let Some(id) = m.hovered_node {
            if !m.hovered_node_selected {
                pushes.push(QueuedCommand::Custom(EditorCommand::DeselectAll));
                pushes.push(QueuedCommand::Custom(EditorCommand::SelectNode(id)));
            }
            tool = Some(ToolState::Grab(GrabToolType::Node));
        } else {
            tool = Some(ToolState::BoxSelect);
        }
    }
    assert(queued_views(pushes@) =~= spec_mouse_pushes(m));
    MouseOutcome { slot_action, pushes, tool }
}

/// The commands that ending a box selection pushes: everything is deselected, each
/// node inside the box is selected, and a checkpoint is saved.
pub open spec fn box_select_pushes(inside: Seq<NodeId>) -> Seq<QueuedCommand<CommandView>> {
    seq![spec_queued(CommandView::DeselectAll)] + inside.map_values(
        |id: NodeId| spec_queued(CommandView::SelectNode(id)),
    ) + seq![QueuedCommand::Checkpoint]
}

/// Ends a box selection when the drag drops: returns the commands to push to the back
/// of the queue, in order, and the tool to switch to; nothing while the drag goes on.
pub fn box_select_drop(drag: Drag, inside: &Vec<NodeId>) -> (r: Option<
    (Vec<QueuedCommand<EditorCommand>>, ToolState),
>)
    ensures
        drag != Drag::Dropping ==> r is None,
        drag == Drag::Dropping ==> (r matches Some((pushes, tool)) && queued_views(pushes@)
            == box_select_pushes(inside@) && tool == ToolState::Idle),
{
    if drag != Drag::Dropping {
        return None;
    }
    let mut pushes: Vec<QueuedCommand<EditorCommand>> = Vec::new();
    pushes.push(QueuedCommand::Custom(EditorCommand::DeselectAll));
    let mut i: usize = 0;
    while i < inside.len()
        invariant
            i <= inside@.len(),
            queued_views(pushes@) == seq![spec_queued(CommandView::DeselectAll)] + inside@.take(
                i as int,
            ).map_values(|id: NodeId| spec_queued(CommandView::SelectNode(id))),
        decreases inside@.len() - i,
    {
        let ghost before = pushes@;
        pushes.push(QueuedCommand::Custom(EditorCommand::SelectNode(inside[i])));
        proof {
            assert(inside@.take(i as int + 1) =~= inside@.take(i as int).push(inside@[i as int]));
            assert(queued_views(pushes@) =~= queued_views(before).push(
                spec_queued(CommandView::SelectNode(inside@[i as int])),
            ));
            assert(queued_views(pushes@) =~= seq![spec_queued(CommandView::DeselectAll)]
                + inside@.take(i as int + 1).map_values(
                |id: NodeId| spec_queued(CommandView::SelectNode(id)),
            ));
        }
        i = i + 1;
    }
    let ghost before = pushes@;
    pushes.push(QueuedCommand::Checkpoint);
    proof {
        assert(inside@.take(inside@.len() as int) =~= inside@);
        assert(queued_views(pushes@) =~= queued_views(before).push(QueuedCommand::Checkpoint));
        assert(queued_views(pushes@) =~= box_select_pushes(inside@));
    }
    Some((pushes, ToolState::Idle))
}

/// The commands that moving nodes pushes: one move per node, then a checkpoint.
pub open spec fn move_nodes_pushes(moved: Seq<NodeId>) -> Seq<QueuedCommand<CommandView>> {
    moved.map_values(|id: NodeId| spec_queued(CommandView::MoveNode(id))) + seq![
        QueuedCommand::Checkpoint,
    ]
}

fn push_moves(pushes: &mut Vec<QueuedCommand<EditorCommand>>, moved: &Vec<NodeId>)
    ensures
        queued_views(final(pushes)@) == queued_views(old(pushes)@) + moved@.map_values(
            |id: NodeId| spec_queued(CommandView::MoveNode(id)),
        ),
{
    let mut i: usize = 0;
    while i < moved.len()
        invariant
            i <= moved@.len(),
            queued_views(pushes@) == queued_views(old(pushes)@) + moved@.take(i as int).map_values(
                |id: NodeId| spec_queued(CommandView::MoveNode(id)),
            ),
        decreases moved@.len() - i,
    {
        let ghost before = pushes@;
        pushes.push(QueuedCommand::Command(EditorCommand::MoveNode(moved[i])));
        proof {
            assert(moved@.take(i as int + 1) =~= moved@.take(i as int).push(moved@[i as int]));
            assert(queued_views(pushes@) =~= queued_views(before).push(
                spec_queued(CommandView::MoveNode(moved@[i as int])),
            ));
            assert(queued_views(pushes@) =~= queued_views(old(pushes)@) + moved@.take(
                i as int + 1,
            ).map_values(|id: NodeId| spec_queued(CommandView::MoveNode(id))));
        }
        i = i + 1;
    }
    assert(moved@.take(moved@.len() as int) =~= moved@);
}

/// Ends a grab of nodes when the left button is released: each grabbed node is moved
/// to where it was dropped, a checkpoint is saved, and no tool is in use. Returns the
/// commands to push to the back of the queue, in order, and the tool to switch to;
/// nothing while the button is held.
pub fn grab_node_update(left_just_released: bool, dragged: &Vec<NodeId>) -> (r: Option<
    (Vec<QueuedCommand<EditorCommand>>, ToolState),
>)
    ensures
        !left_just_released ==> r is None,
        left_just_released ==> (r matches Some((pushes, tool)) && queued_views(pushes@)
            == move_nodes_pushes(dragged@) && tool == ToolState::Idle),
{
    if !left_just_released {
        return None;
    }
    let mut pushes: Vec<QueuedCommand<EditorCommand>> = Vec::new();
    push_moves(&mut pushes, dragged);
    let ghost before = pushes@;
    pushes.push(QueuedCommand::Checkpoint);
    assert(queued_views(pushes@) =~= queued_views(before).push(QueuedCommand::Checkpoint));
    assert(queued_views(pushes@) =~= move_nodes_pushes(dragged@));
    Some((pushes, ToolState::Idle))
}

/// An entity that was dropped in this frame.
#[derive(Clone, Copy, Debug, PartialEq, Eq, Structural)]
pub struct DroppedEntity {
    /// It is a slot.
    pub is_slot: bool,
    /// The node it is, if it is one.
    pub node_id: Option<NodeId>,
}

/// The nodes, among dropped entities, that moved: those that are nodes and not slots.
pub open spec fn dropped_nodes(dropped: Seq<DroppedEntity>) -> Seq<NodeId>
    decreases dropped.len(),
{
    if dropped.len() == 0 {
        Seq::empty()
    } else {
        let last = dropped.last();
        let rest = dropped_nodes(dropped.drop_last());
        if !last.is_slot && last.node_id is Some {
            rest.push(last.node_id.unwrap())
        } else {
            rest
        }
    }
}

/// Records the moves of dropped nodes: one move per dropped node, followed by a
/// checkpoint if any node moved. Returns the commands to push to the back of the
/// queue, in order.
pub fn dropped_update(dropped: &Vec<DroppedEntity>) -> (pushes: Vec<QueuedCommand<EditorCommand>>)
    ensures
        queued_views(pushes@) == if dropped_nodes(dropped@).len() > 0 {
            move_nodes_pushes(dropped_nodes(dropped@))
        } else {
            Seq::empty()
        },
{
    let mut moved: Vec<NodeId> = Vec::new();
    let mut i: usize = 0;
    while i < dropped.len()
        invariant
            i <= dropped@.len(),
            moved@ == dropped_nodes(dropped@.take(i as int)),
        decreases dropped@.len() - i,
    {
        let d = dropped[i];
        if !d.is_slot {
            if let Some(id) = d.node_id {
                moved.push(id);
            }
        }
        assert(dropped@.take(i as int + 1).drop_last() =~= dropped@.take(i as int));
        i = i + 1;
    }
    assert(dropped@.take(dropped@.len() as int) =~= dropped@);
    let mut pushes: Vec<QueuedCommand<EditorCommand>> = Vec::new();
    if moved.len() > 0 {
        push_moves(&mut pushes, &moved);
        let ghost before = pushes@;
        pushes.push(QueuedCommand::Checkpoint);
        assert(queued_views(pushes@) =~= queued_views(before).push(QueuedCommand::Checkpoint));
        assert(queued_views(pushes@) =~= move_nodes_pushes(moved@));
    } else {
        assert(queued_views(pushes@) =~= Seq::<QueuedCommand<CommandView>>::empty());
    }
    pushes
}

/// Whether a grab ends in this frame: a grab of nodes being added ends when the left
/// button goes down, any other grab when it is released.
pub fn grab_ends(grab: GrabToolType, left_just_pressed: bool, left_just_released: bool) -> (b: bool)
    ensures
        b == (if grab == GrabToolType::Add {
            left_just_pressed
        } else {
            left_just_released
        }),
{
    if grab == GrabToolType::Add {
        left_just_pressed
    } else {
        left_just_released
    }
}

/// Starting to drag a node (not a slot) grabs the nodes with the node tool. When the
/// node is already selected, the selection is kept as it is, so that every selected
/// node moves along; otherwise everything else is deselected and that node alone is
/// selected. Nothing of this saves a checkpoint.
pub proof fn lemma_drag_start_on_node(m: MouseInput, id: NodeId)
    requires
        !is_single_click(m),
        m.drag == Drag::Starting,
        !m.hovered_slot,
        m.hovered_node == Some(id),
    ensures
        spec_mouse_tool(m) == Some(ToolState::Grab(GrabToolType::Node)),
        spec_slot_action(m) == SlotAction::Untouched,
        m.hovered_node_selected ==> spec_mouse_pushes(m).len() == 0,
        !m.hovered_node_selected ==> spec_mouse_pushes(m) == seq![
            QueuedCommand::Custom(CommandView::DeselectAll),
            QueuedCommand::Custom(CommandView::SelectNode(id)),
        ],
{
}

/// A single click saves exactly one checkpoint, at the end, and changes no tool; a
/// click on a node replaces the selection with that node and makes it active.
pub proof fn lemma_click(m: MouseInput, id: NodeId)
    requires
        is_single_click(m),
    ensures
        spec_mouse_tool(m) is None,
        spec_mouse_pushes(m).len() > 0,
        spec_mouse_pushes(m).last() == QueuedCommand::<CommandView>::Checkpoint,
        !m.hovered_slot && m.hovered_node == Some(id) ==> spec_mouse_pushes(m) == seq![
            QueuedCommand::Custom(CommandView::ReplaceSelection(seq![id])),
            QueuedCommand::Custom(CommandView::MakeNodeActive(id)),
            QueuedCommand::Checkpoint,
        ],
{
}

} // verus!
