//! Selecting nodes and making a node active: what each selection command queues
//! when it runs, given what is selected and active in the workspace.
use crate::commands::{queued_views, spec_queued, CommandView, EditorCommand};
use crate::graph::NodeId;
use crate::undo::QueuedCommand;
use vstd::prelude::*;

verus! {

/// A node of the workspace and whether it is selected.
#[derive(Clone, Copy, Debug, PartialEq, Eq, Structural)]
pub struct NodeSelection {
    pub node_id: NodeId,
    pub selected: bool,
}

/// Whether `ids` holds `id`.
pub fn contains_node(ids: &Vec<NodeId>, id: NodeId) -> (b: bool)
    ensures
        b == ids@.contains(id),
{
    let mut i: usize = 0;
    while i < ids.len()
        invariant
            i <= ids@.len(),
            forall|j: int| 0 <= j < i ==> ids@[j] != id,
        decreases ids@.len() - i,
    {
        if ids[i] == id {
            return true;
        }
        i = i + 1;
    }
    false
}

/// The command that brings one node in line with the new selection, if any.
pub open spec fn selection_change(n: NodeSelection, new_selection: Seq<NodeId>) -> Seq<
    QueuedCommand<CommandView>,
> {
    if !n.selected && new_selection.contains(n.node_id) {
        seq![spec_queued(CommandView::SelectNodeOnly(n.node_id))]
    } else if n.selected && !new_selection.contains(n.node_id) {
        seq![spec_queued(CommandView::DeselectNodeOnly(n.node_id))]
    } else {
        Seq::empty()
    }
}

/// The commands that replacing the selection pushes to the front of the queue, one
/// after the other, going through the nodes in order.
pub open spec fn replace_selection_pushes(
    nodes: Seq<NodeSelection>,
    new_selection: Seq<NodeId>,
) -> Seq<QueuedCommand<CommandView>>
    decreases nodes.len(),
{
    if nodes.len() == 0 {
        Seq::empty()
    } else {
        replace_selection_pushes(nodes.drop_last(), new_selection) + selection_change(
            nodes.last(),
            new_selection,
        )
    }
}

/// Replacing the selection with `new_selection`: selects each node in it that is not
/// selected, and deselects each selected node not in it. Returns the commands to
/// push to the front of the queue one after the other.
pub fn replace_selection(new_selection: &Vec<NodeId>, nodes: &Vec<NodeSelection>) -> (pushes: Vec<
    QueuedCommand<EditorCommand>,
>)
    ensures
        queued_views(pushes@) == replace_selection_pushes(nodes@, new_selection@),
{
    let mut pushes: Vec<QueuedCommand<EditorCommand>> = Vec::new();
    let mut i: usize = 0;
    while i < nodes.len()
        invariant
            i <= nodes@.len(),
            queued_views(pushes@) == replace_selection_pushes(nodes@.take(i as int),
                new_selection@),
        decreases nodes@.len() - i,
    {
        let n = nodes[i];
        let in_new_selection = contains_node(new_selection, n.node_id);
        let ghost before = pushes@;
        if !n.selected && in_new_selection {
            pushes.push(QueuedCommand::Command(EditorCommand::SelectNodeOnly(n.node_id)));
        } else if n.selected && !in_new_selection {
            pushes.push(QueuedCommand::Command(EditorCommand::DeselectNodeOnly(n.node_id)));
        }
        proof {
            assert(nodes@.take(i as int + 1).drop_last() =~= nodes@.take(i as int));
            assert(queued_views(pushes@) =~= queued_views(before) + selection_change(
                n,
                new_selection@,
            ));
        }
        i = i + 1;
    }
    assert(nodes@.take(nodes@.len() as int) =~= nodes@);
    pushes
}

/// The commands that selecting `node_id` pushes, given whether it is among the nodes
/// not selected.
pub open spec fn select_node_pushes(node_id: NodeId, unselected: bool) -> Seq<
    QueuedCommand<CommandView>,
> {
    if unselected {
        seq![spec_queued(CommandView::SelectNodeOnly(node_id))]
    } else {
        Seq::empty()
    }
}

/// Selecting `node_id`: marks it selected if it is among the nodes not selected.
/// Returns the commands to push to the front of the queue one after the other.
pub fn select_node(node_id: NodeId, unselected: &Vec<NodeId>) -> (pushes: Vec<
    QueuedCommand<EditorCommand>,
>)
    ensures
        queued_views(pushes@) == select_node_pushes(node_id, unselected@.contains(node_id)),
{
    let mut pushes: Vec<QueuedCommand<EditorCommand>> = Vec::new();
    if contains_node(unselected, node_id) {
        pushes.push(QueuedCommand::Command(EditorCommand::SelectNodeOnly(node_id)));
    }
    assert(queued_views(pushes@) =~= select_node_pushes(node_id, unselected@.contains(node_id)));
    pushes
}

/// Deselecting `node_id`: if it is among the selected nodes, it is made not active
/// and then marked not selected. Returns the commands to push to the front of the
/// queue one after the other.
pub fn deselect_node(node_id: NodeId, selected: &Vec<NodeId>) -> (pushes: Vec<
    QueuedCommand<EditorCommand>,
>)
    ensures
        queued_views(pushes@) == if selected@.contains(node_id) {
            seq![
                spec_queued(CommandView::DeselectNodeOnly(node_id)),
                spec_queued(CommandView::MakeNodeNotActive(node_id)),
            ]
        } else {
            Seq::empty()
        },
{
    let mut pushes: Vec<QueuedCommand<EditorCommand>> = Vec::new();
    if contains_node(selected, node_id) {
        pushes.push(QueuedCommand::Command(EditorCommand::DeselectNodeOnly(node_id)));
        pushes.push(QueuedCommand::Custom(EditorCommand::MakeNodeNotActive(node_id)));
    }
    assert(queued_views(pushes@) =~= if selected@.contains(node_id) {
        seq![
            spec_queued(CommandView::DeselectNodeOnly(node_id)),
            spec_queued(CommandView::MakeNodeNotActive(node_id)),
        ]
    } else {
        Seq::empty()
    });
    pushes
}

/// Deselecting every node: each selected node, in order, is marked not selected.
/// Returns the commands to push to the front of the queue one after the other.
pub fn deselect_all(selected: &Vec<NodeId>) -> (pushes: Vec<QueuedCommand<EditorCommand>>)
    ensures
        queued_views(pushes@) == selected@.map_values(
            |id: NodeId| spec_queued(CommandView::DeselectNodeOnly(id)),
        ),
{
    let mut pushes: Vec<QueuedCommand<EditorCommand>> = Vec::new();
    let mut i: usize = 0;
    while i < selected.len()
        invariant
            i <= selected@.len(),
            queued_views(pushes@) == selected@.take(i as int).map_values(
                |id: NodeId| spec_queued(CommandView::DeselectNodeOnly(id)),
            ),
        decreases selected@.len() - i,
    {
        let ghost before = pushes@;
        pushes.push(QueuedCommand::Command(EditorCommand::DeselectNodeOnly(selected[i])));
        assert(selected@.take(i as int + 1) =~= selected@.take(i as int).push(selected@[i as int]));
        assert(queued_views(pushes@) =~= queued_views(before).push(
            spec_queued(CommandView::DeselectNodeOnly(selected@[i as int])),
        ));
        assert(queued_views(pushes@) =~= selected@.take(i as int + 1).map_values(
            |id: NodeId| spec_queued(CommandView::DeselectNodeOnly(id)),
        ));
        i = i + 1;
    }
    assert(selected@.take(selected@.len() as int) =~= selected@);
    pushes
}

/// The commands that making `node_id` active pushes to the front of the queue, one
/// after the other, given the active nodes (at most one).
pub open spec fn make_node_active_pushes(node_id: NodeId, active: Seq<NodeId>) -> Seq<
    QueuedCommand<CommandView>,
> {
    if active.len() > 0 {
        if active[0] != node_id {
            seq![
                spec_queued(CommandView::MakeNodeNotActiveOnly(active[0])),
                spec_queued(CommandView::SelectNode(node_id)),
                spec_queued(CommandView::MakeNodeActiveOnly(node_id)),
            ]
        } else {
            Seq::empty()
        }
    } else {
        seq![
            spec_queued(CommandView::SelectNode(node_id)),
            spec_queued(CommandView::MakeNodeActiveOnly(node_id)),
        ]
    }
}

/// Making `node_id` the active node: the node that is active, if another, stops
/// being so; `node_id` is selected and marked active. Returns the commands to push
/// to the front of the queue one after the other.
pub fn make_node_active(node_id: NodeId, active: &Vec<NodeId>) -> (pushes: Vec<
    QueuedCommand<EditorCommand>,
>)
    requires
        active@.len() < 2,
    ensures
        queued_views(pushes@) == make_node_active_pushes(node_id, active@),
{
    let mut pushes: Vec<QueuedCommand<EditorCommand>> = Vec::new();
    if active.len() > 0 {
        let active_node_id = active[0];
        if active_node_id != node_id {
            pushes.push(QueuedCommand::Command(EditorCommand::MakeNodeNotActiveOnly(active_node_id)));
            pushes.push(QueuedCommand::Custom(EditorCommand::SelectNode(node_id)));
            pushes.push(QueuedCommand::Command(EditorCommand::MakeNodeActiveOnly(node_id)));
        }
    } else {
        pushes.push(QueuedCommand::Custom(EditorCommand::SelectNode(node_id)));
        pushes.push(QueuedCommand::Command(EditorCommand::MakeNodeActiveOnly(node_id)));
    }
    assert(queued_views(pushes@) =~= make_node_active_pushes(node_id, active@));
    pushes
}

/// Making `node_id` not active: marks it not active if it is the active node.
/// Returns the commands to push to the front of the queue one after the other.
pub fn make_node_not_active(node_id: NodeId, active: &Vec<NodeId>) -> (pushes: Vec<
    QueuedCommand<EditorCommand>,
>)
    requires
        active@.len() < 2,
    ensures
        queued_views(pushes@) == if active@.len() > 0 && active@[0] == node_id {
            seq![spec_queued(CommandView::MakeNodeNotActiveOnly(node_id))]
        } else {
            Seq::empty()
        },
{
    let mut pushes: Vec<QueuedCommand<EditorCommand>> = Vec::new();
    if active.len() > 0 && active[0] == node_id {
        pushes.push(QueuedCommand::Command(EditorCommand::MakeNodeNotActiveOnly(node_id)));
    }
    assert(queued_views(pushes@) =~= if active@.len() > 0 && active@[0] == node_id {
        seq![spec_queued(CommandView::MakeNodeNotActiveOnly(node_id))]
    } else {
        Seq::empty()
    });
    pushes
}

/// Making no node active: the active node, if any, is made not active. Returns the
/// commands to push to the front of the queue one after the other.
pub fn make_nothing_active(active: &Vec<NodeId>) -> (pushes: Vec<QueuedCommand<EditorCommand>>)
    requires
        active@.len() < 2,
    ensures
        queued_views(pushes@) == if active@.len() > 0 {
            seq![spec_queued(CommandView::MakeNodeNotActive(active@[0]))]
        } else {
            Seq::empty()
        },
{
    let mut pushes: Vec<QueuedCommand<EditorCommand>> = Vec::new();
    if active.len() > 0 {
        pushes.push(QueuedCommand::Custom(EditorCommand::MakeNodeNotActive(active[0])));
    }
    assert(queued_views(pushes@) =~= if active@.len() > 0 {
        seq![spec_queued(CommandView::MakeNodeNotActive(active@[0]))]
    } else {
        Seq::empty()
    });
    pushes
}

/// The selected nodes after running `cmds`, in order, from the selection `s`.
pub open spec fn run_selection(s: Set<NodeId>, cmds: Seq<QueuedCommand<CommandView>>) -> Set<NodeId>
    decreases cmds.len(),
{
    if cmds.len() == 0 {
        s
    } else {
        let next = match cmds[0] {
            QueuedCommand::Command(CommandView::SelectNodeOnly(id)) => s.insert(id),
            QueuedCommand::Command(CommandView::DeselectNodeOnly(id)) => s.remove(id),
            _ => s,
        };
        run_selection(next, cmds.drop_first())
    }
}

/// The nodes among `nodes` that are selected.
pub open spec fn selected_ids(nodes: Seq<NodeSelection>) -> Set<NodeId> {
    Set::new(|id: NodeId| exists|i: int| 0 <= i < nodes.len() && nodes[i].node_id == id
        && nodes[i].selected)
}

/// The nodes among `nodes` that `new_selection` names.
pub open spec fn chosen_ids(nodes: Seq<NodeSelection>, new_selection: Seq<NodeId>) -> Set<NodeId> {
    Set::new(|id: NodeId| exists|i: int| 0 <= i < nodes.len() && nodes[i].node_id == id
        && new_selection.contains(id))
}

spec fn added_ids(nodes: Seq<NodeSelection>, new_selection: Seq<NodeId>) -> Set<NodeId> {
    Set::new(|id: NodeId| exists|i: int| 0 <= i < nodes.len() && nodes[i].node_id == id
        && !nodes[i].selected && new_selection.contains(id))
}

spec fn removed_ids(nodes: Seq<NodeSelection>, new_selection: Seq<NodeId>) -> Set<NodeId> {
    Set::new(|id: NodeId| exists|i: int| 0 <= i < nodes.len() && nodes[i].node_id == id
        && nodes[i].selected && !new_selection.contains(id))
}

spec fn distinct_ids(nodes: Seq<NodeSelection>) -> bool {
    forall|i: int, j: int| 0 <= i < nodes.len() && 0 <= j < nodes.len() && i != j
        ==> nodes[i].node_id != nodes[j].node_id
}

proof fn lemma_run_replace_pushes(nodes: Seq<NodeSelection>, new_selection: Seq<NodeId>,
    s: Set<NodeId>)
    requires
        distinct_ids(nodes),
    ensures
        run_selection(s, replace_selection_pushes(nodes, new_selection).reverse())
            == s.union(added_ids(nodes, new_selection)).difference(removed_ids(nodes,
                new_selection)),
    decreases nodes.len(),
{
    if nodes.len() == 0 {
        assert(replace_selection_pushes(nodes,
            new_selection).reverse() =~= Seq::<QueuedCommand<CommandView>>::empty());
        assert(added_ids(nodes, new_selection) =~= Set::empty());
        assert(removed_ids(nodes, new_selection) =~= Set::empty());
        assert(s.union(Set::empty()).difference(Set::empty()) =~= s);
    } else {
        let init = nodes.drop_last();
        let last = nodes.last();
        let ch = selection_change(last, new_selection);
        let r = replace_selection_pushes(init, new_selection).reverse();
        assert(distinct_ids(init)) by {
            assert forall|i: int, j: int| 0 <= i < init.len() && 0 <= j < init.len()
                && i != j implies init[i].node_id != init[j].node_id by {
                assert(init[i] == nodes[i]);
                assert(init[j] == nodes[j]);
            }
        }
        assert(replace_selection_pushes(nodes, new_selection).reverse() =~= ch + r);
        let s2 = if !last.selected && new_selection.contains(last.node_id) {
            s.insert(last.node_id)
        } else if last.selected && !new_selection.contains(last.node_id) {
            s.remove(last.node_id)
        } else {
            s
        };
        assert(run_selection(s, ch + r) == run_selection(s2, r)) by {
            if ch.len() == 1 {
                assert((ch + r)[0] == ch[0]);
                assert((ch + r).drop_first() =~= r);
            } else {
                assert(ch + r =~= r);
            }
        }
        lemma_run_replace_pushes(init, new_selection, s2);
        let n = nodes.len() - 1;
        assert forall|i: int| 0 <= i < init.len() implies init[i].node_id != last.node_id by {
            assert(init[i] == nodes[i]);
        }
        assert forall|id: NodeId| added_ids(nodes, new_selection).contains(id)
            <==> (added_ids(init, new_selection).contains(id) || (id == last.node_id
            && !last.selected && new_selection.contains(id))) by {
            if added_ids(nodes, new_selection).contains(id) {
                let i = choose|i: int| 0 <= i < nodes.len() && nodes[i].node_id == id
                    && !nodes[i].selected && new_selection.contains(id);
                if i < n {
                    assert(init[i] == nodes[i]);
                }
            }
            if added_ids(init, new_selection).contains(id) {
                let i = choose|i: int| 0 <= i < init.len() && init[i].node_id == id
                    && !init[i].selected && new_selection.contains(id);
                assert(nodes[i] == init[i]);
            }
            if id == last.node_id && !last.selected && new_selection.contains(id) {
                assert(nodes[n] == last);
            }
        }
        assert forall|id: NodeId| removed_ids(nodes, new_selection).contains(id)
            <==> (removed_ids(init, new_selection).contains(id) || (id == last.node_id
            && last.selected && !new_selection.contains(id))) by {
            if removed_ids(nodes, new_selection).contains(id) {
                let i = choose|i: int| 0 <= i < nodes.len() && nodes[i].node_id == id
                    && nodes[i].selected && !new_selection.contains(id);
                if i < n {
                    assert(init[i] == nodes[i]);
                }
            }
            if removed_ids(init, new_selection).contains(id) {
                let i = choose|i: int| 0 <= i < init.len() && init[i].node_id == id
                    && init[i].selected && !new_selection.contains(id);
                assert(nodes[i] == init[i]);
            }
            if id == last.node_id && last.selected && !new_selection.contains(id) {
                assert(nodes[n] == last);
            }
        }
        assert(!added_ids(init, new_selection).contains(last.node_id));
        assert(!removed_ids(init, new_selection).contains(last.node_id));
        assert(run_selection(s, replace_selection_pushes(nodes, new_selection).reverse())
            =~= s.union(added_ids(nodes, new_selection)).difference(removed_ids(nodes,
                new_selection)));
    }
}

/// Replacing the selection selects exactly the nodes named by the new selection:
/// running, in the order they come off the queue, the commands that
/// [`replace_selection`] pushes leaves selected just the workspace nodes that
/// `new_selection` names (each node appearing once in `nodes`).
pub proof fn lemma_replace_selection_selects_exactly(nodes: Seq<NodeSelection>,
    new_selection: Seq<NodeId>)
    requires
        forall|i: int, j: int| 0 <= i < nodes.len() && 0 <= j < nodes.len() && i != j
            ==> nodes[i].node_id != nodes[j].node_id,
    ensures
        run_selection(selected_ids(nodes), replace_selection_pushes(nodes, new_selection).reverse())
            == chosen_ids(nodes, new_selection),
{
    lemma_run_replace_pushes(nodes, new_selection, selected_ids(nodes));
    let lhs = selected_ids(nodes).union(added_ids(nodes,
        new_selection)).difference(removed_ids(nodes, new_selection));
    assert forall|id: NodeId| lhs.contains(id) <==> chosen_ids(nodes,
        new_selection).contains(id) by {
        if chosen_ids(nodes, new_selection).contains(id) {
            let i = choose|i: int| 0 <= i < nodes.len() && nodes[i].node_id == id
                && new_selection.contains(id);
            if nodes[i].selected {
                assert(selected_ids(nodes).contains(id));
            } else {
                assert(added_ids(nodes, new_selection).contains(id));
            }
            if removed_ids(nodes, new_selection).contains(id) {
                let j = choose|j: int| 0 <= j < nodes.len() && nodes[j].node_id == id
                    && nodes[j].selected && !new_selection.contains(id);
            }
        }
        if lhs.contains(id) {
            if selected_ids(nodes).contains(id) {
                let i = choose|i: int| 0 <= i < nodes.len() && nodes[i].node_id == id
                    && nodes[i].selected;
                if !new_selection.contains(id) {
                    assert(removed_ids(nodes, new_selection).contains(id));
                }
            } else {
                let i = choose|i: int| 0 <= i < nodes.len() && nodes[i].node_id == id
                    && !nodes[i].selected && new_selection.contains(id);
            }
        }
    }
    assert(lhs =~= chosen_ids(nodes, new_selection));
}

/// The active nodes after running `cmds`, in order, from the active nodes `s`.
pub open spec fn run_active(s: Set<NodeId>, cmds: Seq<QueuedCommand<CommandView>>) -> Set<NodeId>
    decreases cmds.len(),
{
    if cmds.len() == 0 {
        s
    } else {
        let next = match cmds[0] {
            QueuedCommand::Command(CommandView::MakeNodeActiveOnly(id)) => s.insert(id),
            QueuedCommand::Command(CommandView::MakeNodeNotActiveOnly(id)) => s.remove(id),
            _ => s,
        };
        run_active(next, cmds.drop_first())
    }
}

/// Making a node active leaves it the one active node: running, in the order they
/// come off the queue, the commands that [`make_node_active`] pushes turns the
/// active nodes (at most one) into just `node_id`.
pub proof fn lemma_make_node_active_single(node_id: NodeId, active: Seq<NodeId>)
    requires
        active.len() < 2,
    ensures
        run_active(active.to_set(), make_node_active_pushes(node_id, active).reverse())
            == set![node_id],
{
    reveal_with_fuel(run_active, 4);
    let pushes = make_node_active_pushes(node_id, active).reverse();
    if active.len() > 0 {
        assert(active =~= seq![active[0]]);
        assert(active.to_set() =~= set![active[0]]) by {
            assert(active.to_set().contains(active[0]));
        }
        if active[0] != node_id {
            let a = active[0];
            assert(pushes[0] == QueuedCommand::Command(CommandView::MakeNodeActiveOnly(node_id)));
            assert(pushes.drop_first()[0]
                == QueuedCommand::Custom(CommandView::SelectNode(node_id)));
            assert(pushes.drop_first().drop_first()[0]
                == QueuedCommand::Command(CommandView::MakeNodeNotActiveOnly(a)));
            assert(pushes.drop_first().drop_first().drop_first().len() == 0);
            assert(set![a].insert(node_id).remove(a) =~= set![node_id]);
        } else {
            assert(pushes.len() == 0);
        }
    } else {
        assert(active.to_set() =~= Set::<NodeId>::empty());
        assert(pushes[0] == QueuedCommand::Command(CommandView::MakeNodeActiveOnly(node_id)));
        assert(pushes.drop_first()[0] == QueuedCommand::Custom(CommandView::SelectNode(node_id)));
        assert(pushes.drop_first().drop_first().len() == 0);
        assert(Set::<NodeId>::empty().insert(node_id) =~= set![node_id]);
    }
}

/// Which nodes of the workspace are active and which are selected.
pub struct NodeMarks {
    pub active: Set<NodeId>,
    pub selected: Set<NodeId>,
}

/// The marks after a command that marks or unmarks one node ran.
pub open spec fn mark_only(m: NodeMarks, q: QueuedCommand<CommandView>) -> NodeMarks {
    match q {
        QueuedCommand::Command(CommandView::MakeNodeActiveOnly(id)) => NodeMarks {
            active: m.active.insert(id),
            ..m
        },
        QueuedCommand::Command(CommandView::MakeNodeNotActiveOnly(id)) => NodeMarks {
            active: m.active.remove(id),
            ..m
        },
        QueuedCommand::Command(CommandView::SelectNodeOnly(id)) => NodeMarks {
            selected: m.selected.insert(id),
            ..m
        },
        QueuedCommand::Command(CommandView::DeselectNodeOnly(id)) => NodeMarks {
            selected: m.selected.remove(id),
            ..m
        },
        _ => m,
    }
}

/// The marks after the command `q` ran, with the commands that selecting a node
/// pushes (see [`select_node`]) run in its place.
pub open spec fn mark_step(m: NodeMarks, q: QueuedCommand<CommandView>) -> NodeMarks {
    match q {
        QueuedCommand::Custom(CommandView::SelectNode(id)) => {
            let pushed = select_node_pushes(id, !m.selected.contains(id));
            if pushed.len() > 0 {
                mark_only(m, pushed[0])
            } else {
                m
            }
        },
        _ => mark_only(m, q),
    }
}

/// The marks after running `cmds`, in order.
pub open spec fn run_marks(m: NodeMarks, cmds: Seq<QueuedCommand<CommandView>>) -> NodeMarks
    decreases cmds.len(),
{
    if cmds.len() == 0 {
        m
    } else {
        run_marks(mark_step(m, cmds[0]), cmds.drop_first())
    }
}

/// Making a node active, with at most one node active before: when it is the active
/// node already, nothing is pushed; otherwise, once the pushed commands have run, in
/// the order they come off the queue, it is the only active node (the one active
/// before is no longer), it is selected, and no other node changes its selection.
pub proof fn lemma_make_node_active_marks(node_id: NodeId, active: Seq<NodeId>, selected: Set<NodeId>)
    requires
        active.len() < 2,
    ensures
        ({
            let pushes = make_node_active_pushes(node_id, active);
            let after = run_marks(NodeMarks { active: active.to_set(), selected }, pushes.reverse());
            &&& (active.len() == 1 && active[0] == node_id) ==> pushes.len() == 0
            &&& !(active.len() == 1 && active[0] == node_id) ==> {
                &&& after.active == set![node_id]
                &&& after.selected == selected.insert(node_id)
            }
        }),
{
    reveal_with_fuel(run_marks, 4);
    let pushes = make_node_active_pushes(node_id, active).reverse();
    let m0 = NodeMarks { active: active.to_set(), selected };
    assert(selected.contains(node_id) ==> selected.insert(node_id) =~= selected);
    if active.len() > 0 {
        assert(active =~= seq![active[0]]);
        assert(active.to_set() =~= set![active[0]]) by {
            assert(active.to_set().contains(active[0]));
        }
        if active[0] != node_id {
            let a = active[0];
            assert(pushes[0] == QueuedCommand::Command(CommandView::MakeNodeActiveOnly(node_id)));
            assert(pushes.drop_first()[0]
                == QueuedCommand::Custom(CommandView::SelectNode(node_id)));
            assert(pushes.drop_first().drop_first()[0]
                == QueuedCommand::Command(CommandView::MakeNodeNotActiveOnly(a)));
            assert(pushes.drop_first().drop_first().drop_first().len() == 0);
            assert(set![a].insert(node_id).remove(a) =~= set![node_id]);
        } else {
            assert(pushes.len() == 0);
        }
    } else {
        assert(active.to_set() =~= Set::<NodeId>::empty());
        assert(pushes[0] == QueuedCommand::Command(CommandView::MakeNodeActiveOnly(node_id)));
        assert(pushes.drop_first()[0] == QueuedCommand::Custom(CommandView::SelectNode(node_id)));
        assert(pushes.drop_first().drop_first().len() == 0);
        assert(Set::<NodeId>::empty().insert(node_id) =~= set![node_id]);
    }
}

} // verus!
