use kanter::commands::EditorCommand;
use kanter::graph::NodeId;
use kanter::history::EditorHistory;
use kanter::undo::{QueuedCommand, Step, UndoCommandManager, UndoCommandType};

fn apply_all(m: &mut UndoCommandManager<u32>) -> Vec<Step<u32>> {
    let mut all = Vec::new();
    while let Some(steps) = m.apply_next() {
        all.extend(steps);
    }
    all
}

#[test]
fn empty_manager_applies_nothing() {
    let mut m: UndoCommandManager<u32> = UndoCommandManager::new();
    assert!(m.apply_next().is_none());
    assert!(m.undo_stack().is_empty());
    assert!(m.redo_stack().is_empty());
}

#[test]
fn command_runs_forward_and_is_batched() {
    let mut m: UndoCommandManager<u32> = UndoCommandManager::new();
    m.push(QueuedCommand::Command(1));
    m.push(QueuedCommand::Command(2));
    m.push(QueuedCommand::Checkpoint);
    let steps = apply_all(&mut m);
    assert_eq!(steps, vec![Step::Forward(1), Step::Forward(2)]);
    assert_eq!(m.undo_stack(), &vec![vec![1, 2]]);
    assert!(m.redo_stack().is_empty());
}

#[test]
fn custom_command_is_not_recorded() {
    let mut m: UndoCommandManager<u32> = UndoCommandManager::new();
    m.push(QueuedCommand::Custom(7));
    m.push(QueuedCommand::Checkpoint);
    let steps = apply_all(&mut m);
    assert_eq!(steps, vec![Step::Forward(7)]);
    assert_eq!(m.undo_stack(), &vec![Vec::<u32>::new()]);
}

#[test]
fn undo_then_redo_restores_stacks() {
    let mut m: UndoCommandManager<u32> = UndoCommandManager::new();
    m.push(QueuedCommand::Command(1));
    m.push(QueuedCommand::Command(2));
    m.push(QueuedCommand::Checkpoint);
    apply_all(&mut m);
    let undo_before = m.undo_stack().clone();
    m.push(QueuedCommand::Undo);
    let undo_steps = apply_all(&mut m);
    assert_eq!(undo_steps, vec![Step::Backward(2), Step::Backward(1)]);
    assert!(m.undo_stack().is_empty());
    assert_eq!(m.redo_stack(), &vec![vec![1, 2]]);
    m.push(QueuedCommand::Redo);
    let redo_steps = apply_all(&mut m);
    assert_eq!(redo_steps, vec![Step::Forward(1), Step::Forward(2)]);
    assert_eq!(m.undo_stack(), &undo_before);
    assert!(m.redo_stack().is_empty());
}

#[test]
fn undo_with_empty_stack_only_reverts_batch() {
    let mut m: UndoCommandManager<u32> = UndoCommandManager::new();
    m.push(QueuedCommand::Command(5));
    m.push(QueuedCommand::Undo);
    let steps = apply_all(&mut m);
    assert_eq!(steps, vec![Step::Forward(5), Step::Backward(5)]);
    assert!(m.undo_stack().is_empty());
    assert!(m.redo_stack().is_empty());
}

#[test]
fn undo_reverts_open_batch_first() {
    let mut m: UndoCommandManager<u32> = UndoCommandManager::new();
    m.push(QueuedCommand::Command(1));
    m.push(QueuedCommand::Checkpoint);
    m.push(QueuedCommand::Command(2));
    m.push(QueuedCommand::Undo);
    let steps = apply_all(&mut m);
    assert_eq!(
        steps,
        vec![Step::Forward(1), Step::Forward(2), Step::Backward(2), Step::Backward(1)]
    );
    assert_eq!(m.redo_stack(), &vec![vec![1]]);
}

#[test]
fn new_command_clears_redo_stack() {
    let mut m: UndoCommandManager<u32> = UndoCommandManager::new();
    m.push(QueuedCommand::Command(1));
    m.push(QueuedCommand::Checkpoint);
    m.push(QueuedCommand::Undo);
    apply_all(&mut m);
    assert_eq!(m.redo_stack().len(), 1);
    m.push(QueuedCommand::Command(3));
    apply_all(&mut m);
    assert!(m.redo_stack().is_empty());
}

#[test]
fn redo_with_empty_stack_does_nothing_else() {
    let mut m: UndoCommandManager<u32> = UndoCommandManager::new();
    m.push(QueuedCommand::Redo);
    let steps = apply_all(&mut m);
    assert!(steps.is_empty());
    assert!(m.undo_stack().is_empty());
}

#[test]
fn cancel_reverts_batch() {
    let mut m: UndoCommandManager<u32> = UndoCommandManager::new();
    m.push(QueuedCommand::Command(1));
    m.push(QueuedCommand::Command(2));
    m.push(QueuedCommand::Cancel);
    m.push(QueuedCommand::Checkpoint);
    let steps = apply_all(&mut m);
    assert_eq!(
        steps,
        vec![Step::Forward(1), Step::Forward(2), Step::Backward(2), Step::Backward(1)]
    );
    assert_eq!(m.undo_stack(), &vec![Vec::<u32>::new()]);
}

#[test]
fn push_front_runs_first() {
    let mut m: UndoCommandManager<u32> = UndoCommandManager::new();
    m.push(QueuedCommand::Custom(1));
    m.push_front(QueuedCommand::Custom(2));
    let steps = apply_all(&mut m);
    assert_eq!(steps, vec![Step::Forward(2), Step::Forward(1)]);
}

#[test]
fn push_front_vec_keeps_order() {
    let mut m: UndoCommandManager<u32> = UndoCommandManager::new();
    m.push(QueuedCommand::Custom(9));
    m.push_front_vec(vec![QueuedCommand::Custom(1), QueuedCommand::Custom(2)]);
    let steps = apply_all(&mut m);
    assert_eq!(steps, vec![Step::Forward(1), Step::Forward(2), Step::Forward(9)]);
}

#[test]
fn push_front_each_reverses_order() {
    let mut m: UndoCommandManager<u32> = UndoCommandManager::new();
    m.push(QueuedCommand::Custom(9));
    m.push_front_each(vec![QueuedCommand::Custom(1), QueuedCommand::Custom(2)]);
    let steps = apply_all(&mut m);
    assert_eq!(steps, vec![Step::Forward(2), Step::Forward(1), Step::Forward(9)]);
}

#[test]
fn command_types() {
    assert_eq!(QueuedCommand::Command(1u32).command_type(), UndoCommandType::Command);
    assert_eq!(QueuedCommand::Custom(1u32).command_type(), UndoCommandType::Custom);
    assert_eq!(QueuedCommand::<u32>::Checkpoint.command_type(), UndoCommandType::Checkpoint);
    assert_eq!(QueuedCommand::<u32>::Undo.command_type(), UndoCommandType::Custom);
}

fn history_steps(h: &mut EditorHistory) -> Vec<Step<EditorCommand>> {
    let mut all = Vec::new();
    while let Some(steps) = h.apply_next() {
        all.extend(steps);
    }
    all
}

#[test]
fn history_undo_then_redo() {
    let mut h = EditorHistory::new();
    h.push(QueuedCommand::Command(EditorCommand::AddNode(NodeId(1))));
    h.push(QueuedCommand::Command(EditorCommand::SetName {
        node_id: NodeId(1),
        from: vec!['a'],
        to: vec!['b', 'c'],
    }));
    h.push(QueuedCommand::Checkpoint);
    let steps = history_steps(&mut h);
    assert_eq!(steps.len(), 2);
    assert_eq!(steps[0], Step::Forward(EditorCommand::AddNode(NodeId(1))));
    h.push(QueuedCommand::Undo);
    let undo = history_steps(&mut h);
    assert_eq!(
        undo,
        vec![
            Step::Backward(EditorCommand::SetName {
                node_id: NodeId(1),
                from: vec!['a'],
                to: vec!['b', 'c'],
            }),
            Step::Backward(EditorCommand::AddNode(NodeId(1))),
        ]
    );
    h.push(QueuedCommand::Redo);
    let redo = history_steps(&mut h);
    assert_eq!(redo.len(), 2);
    assert_eq!(redo[0], Step::Forward(EditorCommand::AddNode(NodeId(1))));
}

#[test]
fn history_push_all_and_front() {
    let mut h = EditorHistory::new();
    h.push_all(vec![
        QueuedCommand::Custom(EditorCommand::SelectNew),
        QueuedCommand::Custom(EditorCommand::DragToolUndo),
    ]);
    h.push_front_vec(vec![
        QueuedCommand::Custom(EditorCommand::DeselectAll),
        QueuedCommand::Custom(EditorCommand::MakeNothingActive),
    ]);
    h.push_front_each(vec![
        QueuedCommand::Custom(EditorCommand::RemoveNode(NodeId(1))),
        QueuedCommand::Custom(EditorCommand::RemoveNode(NodeId(2))),
    ]);
    let steps = history_steps(&mut h);
    assert_eq!(
        steps,
        vec![
            Step::Forward(EditorCommand::RemoveNode(NodeId(2))),
            Step::Forward(EditorCommand::RemoveNode(NodeId(1))),
            Step::Forward(EditorCommand::DeselectAll),
            Step::Forward(EditorCommand::MakeNothingActive),
            Step::Forward(EditorCommand::SelectNew),
            Step::Forward(EditorCommand::DragToolUndo),
        ]
    );
}

#[test]
fn duplicate_is_equal() {
    let c = EditorCommand::ReplaceSelection(vec![NodeId(3), NodeId(4)]);
    assert_eq!(c.duplicate(), c);
}

#[test]
fn redo_then_undo_restores_stacks() {
    let mut m: UndoCommandManager<u32> = UndoCommandManager::new();
    m.push(QueuedCommand::Command(4));
    m.push(QueuedCommand::Checkpoint);
    m.push(QueuedCommand::Undo);
    apply_all(&mut m);
    let redo_before = m.redo_stack().clone();
    m.push(QueuedCommand::Redo);
    m.push(QueuedCommand::Undo);
    let steps = apply_all(&mut m);
    assert_eq!(steps, vec![Step::Forward(4), Step::Backward(4)]);
    assert_eq!(m.redo_stack(), &redo_before);
    assert!(m.undo_stack().is_empty());
}

#[test]
fn sneaky_commands_are_not_recorded() {
    let mut h = EditorHistory::new();
    h.push(kanter::commands::queued(EditorCommand::SelectedToCursorSneaky));
    h.push(kanter::commands::queued(EditorCommand::DeselectSneaky));
    h.push(QueuedCommand::Checkpoint);
    h.push(QueuedCommand::Undo);
    let steps = history_steps(&mut h);
    assert_eq!(
        steps,
        vec![
            Step::Forward(EditorCommand::SelectedToCursorSneaky),
            Step::Forward(EditorCommand::DeselectSneaky),
        ]
    );
}
