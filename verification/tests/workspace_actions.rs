use kanter::add_tool::{
    add_choice, add_tool_instructions, added_nodes, choice_kind, create_and_grab_node,
    grab_new_nodes, imported_nodes, new_node_params, next_add_choice, untitled, AddChoice,
};
use kanter::commands::{queued, EditorCommand};
use kanter::edges::{
    add_edge, delete_selected, dropped_edges, edges_showing, grabs, remove_node, ConnectCheck,
    DroppedEdge, Grab,
};
use kanter::graph::{Edge, GuiEdge, NodeId, Side, Slot, SlotId};
use kanter::history::EditorHistory;
use kanter::mouse::{
    box_select_drop, dropped_update, grab_ends, grab_node_update, mouse_interaction,
    DroppedEntity, MouseInput, SlotAction,
};
use kanter::node::{NodeKind, ResizeFilter, ResizePolicy};
use kanter::selection::{
    contains_node, deselect_all, deselect_node, make_node_active, make_node_not_active,
    make_nothing_active, replace_selection, select_node, NodeSelection,
};
use kanter::tool::{GrabToolType, ToolState};
use kanter::undo::{QueuedCommand, Step};
use kanter::workspace::{cursor_follows, default_drag, next_drag, Drag};

fn slot(node: u32, side: Side, id: u32) -> Slot {
    Slot { node_id: NodeId(node), side, slot_id: SlotId(id) }
}

fn gui_edge(from: u32, from_slot: u32, to: u32, to_slot: u32) -> GuiEdge {
    GuiEdge {
        output_slot: slot(from, Side::Output, from_slot),
        input_slot: slot(to, Side::Input, to_slot),
    }
}

fn edge(from: u32, from_slot: u32, to: u32, to_slot: u32) -> Edge {
    Edge {
        output_id: NodeId(from),
        output_slot: SlotId(from_slot),
        input_id: NodeId(to),
        input_slot: SlotId(to_slot),
    }
}

#[test]
fn adding_an_edge_replaces_the_input() {
    let edges = vec![gui_edge(1, 0, 3, 0), gui_edge(2, 0, 3, 1), gui_edge(4, 0, 3, 0)];
    let new = edge(5, 0, 3, 0);
    let r = add_edge(new, ConnectCheck::SlotOccupied, &edges).unwrap();
    assert_eq!(
        r,
        vec![
            QueuedCommand::Command(EditorCommand::RemoveGuiEdge(edges[0])),
            QueuedCommand::Command(EditorCommand::RemoveGuiEdge(edges[2])),
            QueuedCommand::Command(EditorCommand::AddEdgeOnly(new)),
        ]
    );
    assert_eq!(
        add_edge(new, ConnectCheck::Free, &Vec::new()),
        Some(vec![QueuedCommand::Command(EditorCommand::AddEdgeOnly(new))])
    );
    assert_eq!(add_edge(new, ConnectCheck::Refused, &edges), None);
}

#[test]
fn removing_a_node_removes_its_edges() {
    let edges = vec![gui_edge(1, 0, 2, 0), gui_edge(3, 0, 4, 0), gui_edge(2, 0, 5, 1)];
    let v = remove_node(NodeId(2), &edges);
    assert_eq!(
        v,
        vec![
            QueuedCommand::Command(EditorCommand::RemoveGuiEdge(edges[0])),
            QueuedCommand::Command(EditorCommand::RemoveGuiEdge(edges[2])),
            QueuedCommand::Custom(EditorCommand::DeselectNode(NodeId(2))),
            QueuedCommand::Custom(EditorCommand::MakeNothingActive),
            QueuedCommand::Command(EditorCommand::RemoveNodeOnly(NodeId(2))),
        ]
    );
}

#[test]
fn deleting_the_selection() {
    let v = delete_selected(&vec![NodeId(1), NodeId(2)], &vec![NodeId(2), NodeId(3), NodeId(1)]);
    assert_eq!(
        v,
        vec![
            QueuedCommand::Custom(EditorCommand::RemoveNode(NodeId(1))),
            QueuedCommand::Custom(EditorCommand::RemoveNode(NodeId(2))),
        ]
    );
    let mut h = EditorHistory::new();
    h.push_front_each(v);
    let first = h.apply_next().unwrap();
    assert_eq!(first, vec![Step::Forward(EditorCommand::RemoveNode(NodeId(2)))]);
}

#[test]
fn edges_standing_for_an_edge() {
    let edges = vec![gui_edge(1, 0, 2, 0), gui_edge(1, 0, 2, 1), gui_edge(1, 0, 2, 0)];
    assert_eq!(edges_showing(&edges, edge(1, 0, 2, 0)), vec![0, 2]);
    assert_eq!(edges_showing(&edges, edge(9, 0, 2, 0)), Vec::<usize>::new());
    assert_eq!(edges[1].to_edge(), edge(1, 0, 2, 1));
    assert!(edges[1].shows(edge(1, 0, 2, 1)));
    assert!(edges[1].touches(NodeId(2)));
    assert!(!edges[1].touches(NodeId(3)));
    assert_eq!(edge(1, 0, 2, 1).input_slot_of(), slot(2, Side::Input, 1));
    assert_eq!(edge(1, 0, 2, 1).output_slot_of(), slot(1, Side::Output, 0));
}

#[test]
fn dropping_grabbed_edges() {
    let existing = gui_edge(1, 0, 2, 0);
    let edges = vec![existing];
    let new = edge(1, 0, 3, 0);
    let drops = vec![
        DroppedEdge {
            slot: slot(1, Side::Output, 0),
            source: Some(slot(2, Side::Input, 0)),
            hit: Some(slot(3, Side::Input, 0)),
            connection: Some(new),
        },
        DroppedEdge {
            slot: slot(4, Side::Output, 0),
            source: None,
            hit: None,
            connection: None,
        },
    ];
    let v = dropped_edges(&drops, &edges);
    assert_eq!(
        v,
        vec![
            QueuedCommand::Command(EditorCommand::RemoveGuiEdge(existing)),
            QueuedCommand::Custom(EditorCommand::AddEdge(new)),
            QueuedCommand::Checkpoint,
        ]
    );
}

#[test]
fn dropping_an_edge_back_where_it_came_from() {
    let existing = gui_edge(1, 0, 2, 0);
    let drops = vec![DroppedEdge {
        slot: slot(1, Side::Output, 0),
        source: Some(slot(2, Side::Input, 0)),
        hit: Some(slot(2, Side::Input, 0)),
        connection: Some(edge(1, 0, 2, 0)),
    }];
    assert_eq!(dropped_edges(&drops, &vec![existing]), vec![QueuedCommand::Checkpoint]);
    let nowhere = vec![DroppedEdge {
        slot: slot(1, Side::Output, 0),
        source: Some(slot(2, Side::Input, 0)),
        hit: None,
        connection: None,
    }];
    assert_eq!(
        dropped_edges(&nowhere, &vec![existing]),
        vec![
            QueuedCommand::Command(EditorCommand::RemoveGuiEdge(existing)),
            QueuedCommand::Checkpoint,
        ]
    );
}

#[test]
fn grabbing_slots() {
    let a = gui_edge(1, 0, 2, 0);
    let b = gui_edge(1, 0, 3, 0);
    let edges = vec![a, b];
    let out = slot(1, Side::Output, 0);
    assert_eq!(grabs(out, false, &edges), vec![Grab { slot: out, source: None, hidden: None }]);
    assert_eq!(
        grabs(out, true, &edges),
        vec![
            Grab { slot: a.input_slot, source: Some(out), hidden: Some(a) },
            Grab { slot: b.input_slot, source: Some(out), hidden: Some(b) },
        ]
    );
    let inp = slot(3, Side::Input, 0);
    assert_eq!(
        grabs(inp, true, &edges),
        vec![Grab { slot: b.output_slot, source: Some(inp), hidden: Some(b) }]
    );
    assert!(grabs(slot(9, Side::Input, 0), true, &edges).is_empty());
}

#[test]
fn replacing_the_selection() {
    let nodes = vec![
        NodeSelection { node_id: NodeId(1), selected: true },
        NodeSelection { node_id: NodeId(2), selected: false },
        NodeSelection { node_id: NodeId(3), selected: true },
    ];
    let v = replace_selection(&vec![NodeId(2), NodeId(3)], &nodes);
    assert_eq!(
        v,
        vec![
            QueuedCommand::Command(EditorCommand::DeselectNodeOnly(NodeId(1))),
            QueuedCommand::Command(EditorCommand::SelectNodeOnly(NodeId(2))),
        ]
    );
    assert!(contains_node(&vec![NodeId(4)], NodeId(4)));
    assert!(!contains_node(&vec![], NodeId(4)));
}

#[test]
fn selecting_and_deselecting() {
    assert_eq!(
        select_node(NodeId(1), &vec![NodeId(1)]),
        vec![QueuedCommand::Command(EditorCommand::SelectNodeOnly(NodeId(1)))]
    );
    assert!(select_node(NodeId(1), &vec![]).is_empty());
    assert_eq!(
        deselect_node(NodeId(1), &vec![NodeId(1)]),
        vec![
            QueuedCommand::Command(EditorCommand::DeselectNodeOnly(NodeId(1))),
            QueuedCommand::Custom(EditorCommand::MakeNodeNotActive(NodeId(1))),
        ]
    );
    assert!(deselect_node(NodeId(1), &vec![NodeId(2)]).is_empty());
    assert_eq!(
        deselect_all(&vec![NodeId(1), NodeId(2)]),
        vec![
            QueuedCommand::Command(EditorCommand::DeselectNodeOnly(NodeId(1))),
            QueuedCommand::Command(EditorCommand::DeselectNodeOnly(NodeId(2))),
        ]
    );
}

#[test]
fn making_nodes_active() {
    assert_eq!(
        make_node_active(NodeId(2), &vec![NodeId(1)]),
        vec![
            QueuedCommand::Command(EditorCommand::MakeNodeNotActiveOnly(NodeId(1))),
            QueuedCommand::Custom(EditorCommand::SelectNode(NodeId(2))),
            QueuedCommand::Command(EditorCommand::MakeNodeActiveOnly(NodeId(2))),
        ]
    );
    assert!(make_node_active(NodeId(2), &vec![NodeId(2)]).is_empty());
    assert_eq!(
        make_node_active(NodeId(2), &vec![]),
        vec![
            QueuedCommand::Custom(EditorCommand::SelectNode(NodeId(2))),
            QueuedCommand::Command(EditorCommand::MakeNodeActiveOnly(NodeId(2))),
        ]
    );
    assert_eq!(
        make_node_not_active(NodeId(2), &vec![NodeId(2)]),
        vec![QueuedCommand::Command(EditorCommand::MakeNodeNotActiveOnly(NodeId(2)))]
    );
    assert!(make_node_not_active(NodeId(2), &vec![NodeId(3)]).is_empty());
    assert_eq!(
        make_nothing_active(&vec![NodeId(3)]),
        vec![QueuedCommand::Custom(EditorCommand::MakeNodeNotActive(NodeId(3)))]
    );
    assert!(make_nothing_active(&vec![]).is_empty());
}

fn mouse(left_just_released: bool, drag: Drag) -> MouseInput {
    MouseInput {
        left_just_released,
        drag,
        some_dropped: false,
        hovered_slot: false,
        hovered_node: None,
        hovered_node_selected: false,
    }
}

#[test]
fn clicking_a_node_selects_it() {
    let m = MouseInput { hovered_node: Some(NodeId(7)), ..mouse(true, Drag::False) };
    let o = mouse_interaction(m);
    assert_eq!(o.slot_action, SlotAction::Untouched);
    assert_eq!(o.tool, None);
    assert_eq!(
        o.pushes,
        vec![
            QueuedCommand::Custom(EditorCommand::ReplaceSelection(vec![NodeId(7)])),
            QueuedCommand::Custom(EditorCommand::MakeNodeActive(NodeId(7))),
            QueuedCommand::Checkpoint,
        ]
    );
}

#[test]
fn clicking_empty_space_deselects() {
    let o = mouse_interaction(mouse(true, Drag::False));
    assert_eq!(
        o.pushes,
        vec![
            QueuedCommand::Custom(EditorCommand::DeselectAll),
            QueuedCommand::Custom(EditorCommand::MakeNothingActive),
            QueuedCommand::Checkpoint,
        ]
    );
}

#[test]
fn dragging_starts_tools() {
    let slot_drag = MouseInput { hovered_slot: true, ..mouse(false, Drag::Starting) };
    let o = mouse_interaction(slot_drag);
    assert_eq!(o.slot_action, SlotAction::Grab);
    assert_eq!(o.tool, Some(ToolState::Grab(GrabToolType::Slot)));
    let node_drag = MouseInput { hovered_node: Some(NodeId(3)), ..mouse(false, Drag::Starting) };
    let p = mouse_interaction(node_drag);
    assert_eq!(p.tool, Some(ToolState::Grab(GrabToolType::Node)));
    assert_eq!(
        p.pushes,
        vec![
            QueuedCommand::Custom(EditorCommand::DeselectAll),
            QueuedCommand::Custom(EditorCommand::SelectNode(NodeId(3))),
        ]
    );
    let q = mouse_interaction(mouse(false, Drag::Starting));
    assert_eq!(q.tool, Some(ToolState::BoxSelect));
    assert!(q.pushes.is_empty());
}

#[test]
fn box_selection_drop() {
    assert!(box_select_drop(Drag::True, &vec![NodeId(1)]).is_none());
    let (pushes, tool) = box_select_drop(Drag::Dropping, &vec![NodeId(1), NodeId(2)]).unwrap();
    assert_eq!(tool, ToolState::Idle);
    assert_eq!(
        pushes,
        vec![
            QueuedCommand::Custom(EditorCommand::DeselectAll),
            QueuedCommand::Custom(EditorCommand::SelectNode(NodeId(1))),
            QueuedCommand::Custom(EditorCommand::SelectNode(NodeId(2))),
            QueuedCommand::Checkpoint,
        ]
    );
}

#[test]
fn moving_nodes() {
    assert!(grab_node_update(false, &vec![NodeId(1)]).is_none());
    let (pushes, tool) = grab_node_update(true, &vec![NodeId(1)]).unwrap();
    assert_eq!(tool, ToolState::Idle);
    assert_eq!(
        pushes,
        vec![QueuedCommand::Command(EditorCommand::MoveNode(NodeId(1))), QueuedCommand::Checkpoint]
    );
    let dropped = vec![
        DroppedEntity { is_slot: true, node_id: Some(NodeId(1)) },
        DroppedEntity { is_slot: false, node_id: Some(NodeId(2)) },
        DroppedEntity { is_slot: false, node_id: None },
    ];
    assert_eq!(
        dropped_update(&dropped),
        vec![QueuedCommand::Command(EditorCommand::MoveNode(NodeId(2))), QueuedCommand::Checkpoint]
    );
    assert!(dropped_update(&vec![]).is_empty());
    assert!(grab_ends(GrabToolType::Add, true, false));
    assert!(!grab_ends(GrabToolType::Add, false, true));
    assert!(grab_ends(GrabToolType::Node, false, true));
}

#[test]
fn drag_state_machine() {
    assert_eq!(default_drag(), Drag::False);
    assert_eq!(next_drag(Drag::False, true, false, false), Drag::False);
    assert_eq!(next_drag(Drag::False, true, false, true), Drag::Starting);
    assert_eq!(next_drag(Drag::Starting, true, false, true), Drag::True);
    assert_eq!(next_drag(Drag::True, false, true, true), Drag::Dropping);
    assert_eq!(next_drag(Drag::Dropping, false, false, false), Drag::False);
    assert!(cursor_follows(Drag::False, false));
    assert!(!cursor_follows(Drag::Starting, true));
    assert!(cursor_follows(Drag::True, true));
}

#[test]
fn add_tool_keys() {
    assert_eq!(add_choice('c'), Some(AddChoice::Combine));
    assert_eq!(add_choice('I'), Some(AddChoice::Images));
    assert_eq!(add_choice('O'), Some(AddChoice::Output));
    assert_eq!(add_choice('s'), Some(AddChoice::Separate));
    assert_eq!(add_choice('V'), Some(AddChoice::Value));
    assert_eq!(add_choice('m'), None);
    assert_eq!(next_add_choice(&vec!['q', 'z', 'S', 'c'], 0), Some((2, AddChoice::Separate)));
    assert_eq!(next_add_choice(&vec!['q', 'z', 'S', 'c'], 3), Some((3, AddChoice::Combine)));
    assert_eq!(next_add_choice(&vec!['q'], 0), None);
    assert_eq!(next_add_choice(&vec!['c'], 5), None);
    assert_eq!(choice_kind(AddChoice::Output), Some(NodeKind::OutputRgba));
    assert_eq!(choice_kind(AddChoice::Images), None);
    assert_eq!(untitled(), "untitled");
    assert_eq!(add_tool_instructions(), "I: Image\nS: Separate\nC: Combine\nO: Output\nV: Value\n");
    let p = new_node_params();
    assert_eq!(p.resize_policy, ResizePolicy::MostPixels);
    assert_eq!(p.resize_filter, ResizeFilter::Triangle);
}

fn forward_commands(h: &mut EditorHistory) -> Vec<EditorCommand> {
    let mut all = Vec::new();
    while let Some(steps) = h.apply_next() {
        for s in steps {
            if let Step::Forward(c) = s {
                all.push(c);
            }
        }
    }
    all
}

#[test]
fn adding_nodes_queues_grab() {
    let mut h = EditorHistory::new();
    added_nodes(&mut h, &vec![NodeId(1), NodeId(2)]);
    assert_eq!(
        forward_commands(&mut h),
        vec![
            EditorCommand::AddNode(NodeId(1)),
            EditorCommand::AddNode(NodeId(2)),
            EditorCommand::SelectNew,
            EditorCommand::SelectedToCursorSneaky,
            EditorCommand::DragToolUndo,
            EditorCommand::MultiImportOffset,
        ]
    );
    let mut one = EditorHistory::new();
    added_nodes(&mut one, &vec![NodeId(1)]);
    assert_eq!(forward_commands(&mut one).len(), 4);
    let mut none = EditorHistory::new();
    grab_new_nodes(&mut none);
    assert_eq!(forward_commands(&mut none).len(), 3);
}

#[test]
fn importing_dropped_files() {
    let mut h = EditorHistory::new();
    imported_nodes(&mut h, &vec![NodeId(4), NodeId(5)]);
    let cmds = forward_commands(&mut h);
    assert_eq!(cmds.len(), 9);
    assert_eq!(cmds[0], EditorCommand::AddNode(NodeId(4)));
    assert_eq!(cmds[4], EditorCommand::AddNode(NodeId(5)));
    assert_eq!(cmds[8], EditorCommand::MultiImportOffset);
    let mut single = EditorHistory::new();
    create_and_grab_node(&mut single, NodeId(6));
    assert_eq!(forward_commands(&mut single).len(), 4);
}

#[test]
fn commands_are_queued_by_type() {
    assert_eq!(
        queued(EditorCommand::AddNode(NodeId(1))),
        QueuedCommand::Command(EditorCommand::AddNode(NodeId(1)))
    );
    assert_eq!(
        queued(EditorCommand::DeleteSelected),
        QueuedCommand::Custom(EditorCommand::DeleteSelected)
    );
}
