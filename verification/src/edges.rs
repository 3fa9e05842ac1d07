//! Edges in the workspace: what connecting, disconnecting and removing nodes queue
//! for the undo command manager, and what dropping grabbed edges decides.
use crate::commands::{queued_views, spec_queued, CommandView, EditorCommand};
use crate::graph::{Edge, GuiEdge, NodeId, Side, Slot};
use crate::undo::QueuedCommand;
use vstd::prelude::*;

verus! {

/// The input slot that an edge ends in.
pub open spec fn spec_input_slot(edge: Edge) -> Slot {
    Slot { node_id: edge.input_id, side: Side::Input, slot_id: edge.input_slot }
}

/// The output slot that an edge starts from.
pub open spec fn spec_output_slot(edge: Edge) -> Slot {
    Slot { node_id: edge.output_id, side: Side::Output, slot_id: edge.output_slot }
}

impl Edge {
    /// The input slot that this edge ends in.
    pub fn input_slot_of(&self) -> (s: Slot)
        ensures
            s == spec_input_slot(*self),
    {
        Slot { node_id: self.input_id, side: Side::Input, slot_id: self.input_slot }
    }

    /// The output slot that this edge starts from.
    pub fn output_slot_of(&self) -> (s: Slot)
        ensures
            s == spec_output_slot(*self),
    {
        Slot { node_id: self.output_id, side: Side::Output, slot_id: self.output_slot }
    }
}

/// The drawn edges that end in `slot`, in order.
pub open spec fn edges_into(edges: Seq<GuiEdge>, slot: Slot) -> Seq<GuiEdge>
    decreases edges.len(),
{
    if edges.len() == 0 {
        Seq::empty()
    } else if edges.last().input_slot == slot {
        edges_into(edges.drop_last(), slot).push(edges.last())
    } else {
        edges_into(edges.drop_last(), slot)
    }
}

/// The drawn edges that touch the node `node_id` on either end, in order.
pub open spec fn edges_touching(edges: Seq<GuiEdge>, node_id: NodeId) -> Seq<GuiEdge>
    decreases edges.len(),
{
    if edges.len() == 0 {
        Seq::empty()
    } else if edges.last().input_slot.node_id == node_id || edges.last().output_slot.node_id
        == node_id {
        edges_touching(edges.drop_last(), node_id).push(edges.last())
    } else {
        edges_touching(edges.drop_last(), node_id)
    }
}

/// A command removing each of `edges`, in order.
pub open spec fn removals(edges: Seq<GuiEdge>) -> Seq<QueuedCommand<CommandView>> {
    edges.map_values(|e: GuiEdge| spec_queued(CommandView::RemoveGuiEdge(e)))
}

proof fn lemma_removals_push(edges: Seq<GuiEdge>, e: GuiEdge)
    ensures
        removals(edges.push(e)) == removals(edges).push(
            spec_queued(CommandView::RemoveGuiEdge(e)),
        ),
{
    assert(removals(edges.push(e)) =~= removals(edges).push(
        spec_queued(CommandView::RemoveGuiEdge(e)),
    ));
}

/// Commands removing each drawn edge that ends in `slot`, in order.
fn remove_edges_into(edges: &Vec<GuiEdge>, slot: Slot) -> (v: Vec<QueuedCommand<EditorCommand>>)
    ensures
        queued_views(v@) == removals(edges_into(edges@, slot)),
{
    let mut v: Vec<QueuedCommand<EditorCommand>> = Vec::new();
    let mut i: usize = 0;
    assert(edges@.take(0) =~= Seq::<GuiEdge>::empty());
    assert(queued_views(v@) =~= removals(Seq::empty()));
    while i < edges.len()
        invariant
            i <= edges@.len(),
            queued_views(v@) == removals(edges_into(edges@.take(i as int), slot)),
        decreases edges@.len() - i,
    {
        let e = edges[i];
        let ghost before = v@;
        assert(edges@.take(i as int + 1).drop_last() =~= edges@.take(i as int));
        if e.input_slot == slot {
            v.push(QueuedCommand::Command(EditorCommand::RemoveGuiEdge(e)));
            proof {
                lemma_removals_push(edges_into(edges@.take(i as int), slot), e);
                assert(queued_views(v@) =~= queued_views(before).push(
                    spec_queued(CommandView::RemoveGuiEdge(e)),
                ));
            }
        }
        i = i + 1;
    }
    assert(edges@.take(edges@.len() as int) =~= edges@);
    v
}

/// Commands removing each drawn edge that touches the node `node_id`, in order.
fn remove_edges_touching(edges: &Vec<GuiEdge>, node_id: NodeId) -> (v: Vec<
    QueuedCommand<EditorCommand>,
>)
    ensures
        queued_views(v@) == removals(edges_touching(edges@, node_id)),
{
    let mut v: Vec<QueuedCommand<EditorCommand>> = Vec::new();
    let mut i: usize = 0;
    assert(edges@.take(0) =~= Seq::<GuiEdge>::empty());
    assert(queued_views(v@) =~= removals(Seq::empty()));
    while i < edges.len()
        invariant
            i <= edges@.len(),
            queued_views(v@) == removals(edges_touching(edges@.take(i as int), node_id)),
        decreases edges@.len() - i,
    {
        let e = edges[i];
        let ghost before = v@;
        assert(edges@.take(i as int + 1).drop_last() =~= edges@.take(i as int));
        if e.touches(node_id) {
            v.push(QueuedCommand::Command(EditorCommand::RemoveGuiEdge(e)));
            proof {
                lemma_removals_push(edges_touching(edges@.take(i as int), node_id), e);
                assert(queued_views(v@) =~= queued_views(before).push(
                    spec_queued(CommandView::RemoveGuiEdge(e)),
                ));
            }
        }
        i = i + 1;
    }
    assert(edges@.take(edges@.len() as int) =~= edges@);
    v
}

/// What the graph answers when asked whether an edge can be connected.
#[derive(Clone, Copy, Debug, PartialEq, Eq, Structural)]
pub enum ConnectCheck {
    /// The edge can be connected.
    Free,
    /// The edge could be connected, but its input slot already has an edge.
    SlotOccupied,
    /// The edge cannot be connected.
    Refused,
}

/// What adding `edge` queues, given what the graph answered: `None` when the edge is
/// refused; otherwise the removal of each drawn edge into its input slot, in order,
/// then the connection itself.
pub open spec fn spec_add_edge(edge: Edge, check: ConnectCheck, edges: Seq<GuiEdge>) -> Option<
    Seq<QueuedCommand<CommandView>>,
> {
    match check {
        ConnectCheck::Refused => None,
        _ => Some(
            removals(edges_into(edges, spec_input_slot(edge))).push(
                spec_queued(CommandView::AddEdgeOnly(edge)),
            ),
        ),
    }
}

/// Adding an edge: when the graph accepts it, or only its input slot is taken, each
/// drawn edge into that slot is removed and the edge is connected; the commands are
/// meant to run next, in order (see `UndoCommandManager::push_front_vec`). `None` when
/// the graph refuses the edge.
pub fn add_edge(edge: Edge, check: ConnectCheck, edges: &Vec<GuiEdge>) -> (r: Option<
    Vec<QueuedCommand<EditorCommand>>,
>)
    ensures
        match r {
            Some(v) => spec_add_edge(edge, check, edges@) == Some(queued_views(v@)),
            None => spec_add_edge(edge, check, edges@) is None,
        },
{
    match check {
        ConnectCheck::Refused => None,
        _ => {
            let mut v = remove_edges_into(edges, edge.input_slot_of());
            let ghost before = v@;
            v.push(QueuedCommand::Command(EditorCommand::AddEdgeOnly(edge)));
            assert(queued_views(v@) =~= queued_views(before).push(
                spec_queued(CommandView::AddEdgeOnly(edge)),
            ));
            Some(v)
        },
    }
}

/// What removing the node `node_id` queues: the removal of each drawn edge that
/// touches it, in order, then deselecting it, making nothing active, and removing the
/// node itself.
pub open spec fn spec_remove_node(node_id: NodeId, edges: Seq<GuiEdge>) -> Seq<
    QueuedCommand<CommandView>,
> {
    removals(edges_touching(edges, node_id)) + seq![
        spec_queued(CommandView::DeselectNode(node_id)),
        spec_queued(CommandView::MakeNothingActive),
        spec_queued(CommandView::RemoveNodeOnly(node_id)),
    ]
}

/// Removing a node with its edges (see [`spec_remove_node`]); the commands are meant to
/// run next, in order.
pub fn remove_node(node_id: NodeId, edges: &Vec<GuiEdge>) -> (v: Vec<QueuedCommand<EditorCommand>>)
    ensures
        queued_views(v@) == spec_remove_node(node_id, edges@),
{
    let mut v = remove_edges_touching(edges, node_id);
    let ghost before = v@;
    v.push(QueuedCommand::Custom(EditorCommand::DeselectNode(node_id)));
    v.push(QueuedCommand::Custom(EditorCommand::MakeNothingActive));
    v.push(QueuedCommand::Command(EditorCommand::RemoveNodeOnly(node_id)));
    assert(queued_views(v@) =~= queued_views(before) + seq![
        spec_queued(CommandView::DeselectNode(node_id)),
        spec_queued(CommandView::MakeNothingActive),
        spec_queued(CommandView::RemoveNodeOnly(node_id)),
    ]);
    v
}

/// A command removing each of the nodes `selected`, in order.
pub open spec fn node_removals(selected: Seq<NodeId>) -> Seq<QueuedCommand<CommandView>> {
    selected.map_values(|n: NodeId| spec_queued(CommandView::RemoveNode(n)))
}

/// Deleting the selected nodes, each of which the graph holds (`graph_nodes` lists the
/// nodes of the graph): a command removing each of them, in the order given; each is
/// meant to be put in front of the queue in turn (see
/// `UndoCommandManager::push_front_each`).
pub fn delete_selected(selected: &Vec<NodeId>, graph_nodes: &Vec<NodeId>) -> (v: Vec<
    QueuedCommand<EditorCommand>,
>)
    requires
        forall|i: int| 0 <= i < selected@.len() ==> graph_nodes@.contains(#[trigger] selected@[i]),
    ensures
        queued_views(v@) == node_removals(selected@),
{
    let mut v: Vec<QueuedCommand<EditorCommand>> = Vec::new();
    let mut i: usize = 0;
    while i < selected.len()
        invariant
            i <= selected@.len(),
            queued_views(v@) == node_removals(selected@.take(i as int)),
        decreases selected@.len() - i,
    {
        let n = selected[i];
        let ghost before = v@;
        v.push(QueuedCommand::Custom(EditorCommand::RemoveNode(n)));
        assert(queued_views(v@) =~= queued_views(before).push(
            spec_queued(CommandView::RemoveNode(n)),
        ));
        assert(node_removals(selected@.take(i as int + 1)) =~= node_removals(
            selected@.take(i as int),
        ).push(spec_queued(CommandView::RemoveNode(n))));
        i = i + 1;
    }
    assert(selected@.take(selected@.len() as int) =~= selected@);
    v
}

/// The indices of the drawn edges that stand for `edge`, in order.
pub open spec fn showing(edges: Seq<GuiEdge>, edge: Edge) -> Seq<usize>
    decreases edges.len(),
{
    if edges.len() == 0 {
        Seq::empty()
    } else {
        let e = edges.last();
        let rest = showing(edges.drop_last(), edge);
        if e.input_slot.node_id == edge.input_id && e.input_slot.slot_id == edge.input_slot
            && e.output_slot.node_id == edge.output_id && e.output_slot.slot_id
            == edge.output_slot {
            rest.push((edges.len() - 1) as usize)
        } else {
            rest
        }
    }
}

/// The drawn edges to take away once `edge` is disconnected: those that stand for it,
/// by index, in order. The input node of each then has its thumbnail missing.
pub fn edges_showing(edges: &Vec<GuiEdge>, edge: Edge) -> (v: Vec<usize>)
    ensures
        v@ == showing(edges@, edge),
{
    let mut v: Vec<usize> = Vec::new();
    let mut i: usize = 0;
    assert(edges@.take(0) =~= Seq::<GuiEdge>::empty());
    while i < edges.len()
        invariant
            i <= edges@.len(),
            v@ == showing(edges@.take(i as int), edge),
        decreases edges@.len() - i,
    {
        assert(edges@.take(i as int + 1).drop_last() =~= edges@.take(i as int));
        if edges[i].shows(edge) {
            v.push(i);
        }
        i = i + 1;
    }
    assert(edges@.take(edges@.len() as int) =~= edges@);
    v
}

/// A grabbed edge at the moment it is dropped.
#[derive(Clone, Copy, Debug, PartialEq, Eq, Structural)]
pub struct DroppedEdge {
    /// The slot that the grabbed edge hangs from.
    pub slot: Slot,
    /// The slot the edge was pulled away from, when an existing edge was grabbed.
    pub source: Option<Slot>,
    /// The slot under the cursor, if any.
    pub hit: Option<Slot>,
    /// The edge that joins the slot under the cursor with `slot`, if the two can be
    /// joined.
    pub connection: Option<Edge>,
}

/// Whether the drawn edge `e` joins the slots `a` and `b`.
pub open spec fn joins(e: GuiEdge, a: Slot, b: Slot) -> bool {
    (e.input_slot == a && e.output_slot == b) || (e.output_slot == a && e.input_slot == b)
}

/// The drawn edges that join `a` and `b`, in order.
pub open spec fn edges_joining(edges: Seq<GuiEdge>, a: Slot, b: Slot) -> Seq<GuiEdge>
    decreases edges.len(),
{
    if edges.len() == 0 {
        Seq::empty()
    } else if joins(edges.last(), a, b) {
        edges_joining(edges.drop_last(), a, b).push(edges.last())
    } else {
        edges_joining(edges.drop_last(), a, b)
    }
}

/// What dropping one grabbed edge removes: when it was pulled away from a slot, the
/// drawn edges between that slot and the one it hangs from, unless it was dropped back
/// on the slot it came from.
pub open spec fn drop_removals(d: DroppedEdge, edges: Seq<GuiEdge>) -> Seq<GuiEdge> {
    match d.source {
        Some(source) => if d.hit == Some(source) {
            Seq::empty()
        } else {
            edges_joining(edges, source, d.slot)
        },
        None => Seq::empty(),
    }
}

/// The edge that dropping one grabbed edge connects: the connection with the slot under
/// the cursor, unless it was dropped back on the slot it came from.
pub open spec fn drop_connection(d: DroppedEdge) -> Option<Edge> {
    match d.hit {
        Some(hit) => if d.source == Some(hit) {
            None
        } else {
            d.connection
        },
        None => None,
    }
}

/// What dropping the grabbed edges `drops` removes and connects, in order.
pub open spec fn dropped(drops: Seq<DroppedEdge>, edges: Seq<GuiEdge>) -> (Seq<GuiEdge>, Seq<Edge>)
    decreases drops.len(),
{
    if drops.len() == 0 {
        (Seq::empty(), Seq::empty())
    } else {
        let (removed, connected) = dropped(drops.drop_last(), edges);
        let d = drops.last();
        (
            removed + drop_removals(d, edges),
            match drop_connection(d) {
                Some(e) => connected.push(e),
                None => connected,
            },
        )
    }
}

/// Commands connecting each of `new_edges`, in order.
pub open spec fn additions(new_edges: Seq<Edge>) -> Seq<QueuedCommand<CommandView>> {
    new_edges.map_values(|e: Edge| spec_queued(CommandView::AddEdge(e)))
}

/// What dropping the grabbed edges queues: the removals of all of them first, then
/// the connections, then a checkpoint.
pub open spec fn spec_dropped_edges(drops: Seq<DroppedEdge>, edges: Seq<GuiEdge>) -> Seq<
    QueuedCommand<CommandView>,
> {
    removals(dropped(drops, edges).0) + additions(dropped(drops, edges).1) + seq![
        QueuedCommand::Checkpoint,
    ]
}

fn push_removals_joining(
    v: &mut Vec<QueuedCommand<EditorCommand>>,
    edges: &Vec<GuiEdge>,
    a: Slot,
    b: Slot,
)
    ensures
        queued_views(final(v)@) == queued_views(old(v)@) + removals(edges_joining(edges@, a, b)),
{
    let ghost start = queued_views(v@);
    let mut i: usize = 0;
    assert(edges@.take(0) =~= Seq::<GuiEdge>::empty());
    assert(queued_views(v@) =~= start + removals(Seq::empty()));
    while i < edges.len()
        invariant
            i <= edges@.len(),
            queued_views(v@) == start + removals(edges_joining(edges@.take(i as int), a, b)),
        decreases edges@.len() - i,
    {
        let e = edges[i];
        let ghost before = v@;
        assert(edges@.take(i as int + 1).drop_last() =~= edges@.take(i as int));
        if (e.input_slot == a && e.output_slot == b) || (e.output_slot == a && e.input_slot == b) {
            v.push(QueuedCommand::Command(EditorCommand::RemoveGuiEdge(e)));
            proof {
                lemma_removals_push(edges_joining(edges@.take(i as int), a, b), e);
                assert(queued_views(v@) =~= queued_views(before).push(
                    spec_queued(CommandView::RemoveGuiEdge(e)),
                ));
            }
        }
        i = i + 1;
    }
    assert(edges@.take(edges@.len() as int) =~= edges@);
}

/// Dropping grabbed edges: each one pulled away from a slot takes away the drawn edges
/// it was pulled from, and each one dropped on a slot it can be joined with connects
/// (see [`spec_dropped_edges`]). The removals come first, then the connections, then
/// a checkpoint.
pub fn dropped_edges(drops: &Vec<DroppedEdge>, edges: &Vec<GuiEdge>) -> (v: Vec<
    QueuedCommand<EditorCommand>,
>)
    ensures
        queued_views(v@) == spec_dropped_edges(drops@, edges@),
{
    let mut v: Vec<QueuedCommand<EditorCommand>> = Vec::new();
    let mut new_edges: Vec<Edge> = Vec::new();
    let mut i: usize = 0;
    assert(drops@.take(0) =~= Seq::<DroppedEdge>::empty());
    assert(queued_views(v@) =~= removals(Seq::empty()));
    while i < drops.len()
        invariant
            i <= drops@.len(),
            queued_views(v@) == removals(dropped(drops@.take(i as int), edges@).0),
            new_edges@ == dropped(drops@.take(i as int), edges@).1,
        decreases drops@.len() - i,
    {
        let d = drops[i];
        assert(drops@.take(i as int + 1).drop_last() =~= drops@.take(i as int));
        let ghost prev = dropped(drops@.take(i as int), edges@).0;
        match d.source {
            Some(source) => {
                let back = match d.hit {
                    Some(hit) => hit == source,
                    None => false,
                };
                if !back {
                    push_removals_joining(&mut v, edges, source, d.slot);
                    assert(removals(prev + edges_joining(edges@, source, d.slot)) =~= removals(prev)
                        + removals(edges_joining(edges@, source, d.slot)));
                } else {
                    assert(prev + drop_removals(d, edges@) =~= prev);
                }
            },
            None => {
                assert(prev + drop_removals(d, edges@) =~= prev);
            },
        }
        match d.hit {
            Some(hit) => {
                let back = match d.source {
                    Some(source) => source == hit,
                    None => false,
                };
                if !back {
                    match d.connection {
                        Some(e) => new_edges.push(e),
                        None => {},
                    }
                }
            },
            None => {},
        }
        i = i + 1;
    }
    assert(drops@.take(drops@.len() as int) =~= drops@);
    let ghost removed_part = queued_views(v@);
    let mut j: usize = 0;
    while j < new_edges.len()
        invariant
            j <= new_edges@.len(),
            queued_views(v@) == removed_part + additions(new_edges@.take(j as int)),
        decreases new_edges@.len() - j,
    {
        let e = new_edges[j];
        let ghost before = v@;
        v.push(QueuedCommand::Custom(EditorCommand::AddEdge(e)));
        assert(queued_views(v@) =~= queued_views(before).push(
            spec_queued(CommandView::AddEdge(e)),
        ));
        assert(additions(new_edges@.take(j as int + 1)) =~= additions(
            new_edges@.take(j as int),
        ).push(spec_queued(CommandView::AddEdge(e))));
        j = j + 1;
    }
    assert(new_edges@.take(new_edges@.len() as int) =~= new_edges@);
    let ghost before = queued_views(v@);
    v.push(QueuedCommand::Checkpoint);
    assert(queued_views(v@) =~= before + seq![QueuedCommand::Checkpoint]);
    v
}

/// Whether dropping `d` joins the slot under the cursor with its slot by `e`: it was
/// dropped on a slot other than the one it was pulled from, and the two slots can be
/// joined by `e`.
pub open spec fn connects(d: DroppedEdge, e: Edge) -> bool {
    d.hit is Some && d.source != d.hit && d.connection == Some(e)
}

/// Whether dropping `d` takes away the drawn edge `g`: it was pulled away from a slot,
/// not dropped back on it, and `g` joins that slot with the one it hangs from.
pub open spec fn takes_away(d: DroppedEdge, g: GuiEdge) -> bool {
    d.source matches Some(source) && d.hit != Some(source) && joins(g, source, d.slot)
}

proof fn lemma_connected_from_drops(drops: Seq<DroppedEdge>, edges: Seq<GuiEdge>, e: Edge)
    ensures
        dropped(drops, edges).1.contains(e) <==> exists|k: int|
            0 <= k < drops.len() && #[trigger] connects(drops[k], e),
    decreases drops.len(),
{
    if drops.len() > 0 {
        let rest = drops.drop_last();
        lemma_connected_from_drops(rest, edges, e);
        let d = drops.last();
        let prev = dropped(rest, edges).1;
        let now = dropped(drops, edges).1;
        assert(drop_connection(d) == Some(e) <==> connects(d, e));
        assert(d == drops[drops.len() - 1]);
        if now.contains(e) {
            if prev.contains(e) {
                let k = choose|k: int| 0 <= k < rest.len() && #[trigger] connects(rest[k], e);
                assert(drops[k] == rest[k]);
                assert(connects(drops[k], e));
            } else {
                let i = choose|i: int| 0 <= i < now.len() && now[i] == e;
                if drop_connection(d) is Some {
                    assert(now == prev.push(drop_connection(d).unwrap()));
                    if i < prev.len() {
                        assert(now[i] == prev[i]);
                    }
                    assert(connects(drops[drops.len() - 1], e));
                }
            }
        }
        if exists|k: int| 0 <= k < drops.len() && #[trigger] connects(drops[k], e) {
            let k = choose|k: int| 0 <= k < drops.len() && #[trigger] connects(drops[k], e);
            if k < drops.len() - 1 {
                assert(rest[k] == drops[k]);
                assert(connects(rest[k], e));
                let i = choose|i: int| 0 <= i < prev.len() && prev[i] == e;
                if drop_connection(d) is Some {
                    assert(now == prev.push(drop_connection(d).unwrap()));
                    assert(now[i] == e);
                } else {
                    assert(now == prev);
                }
            } else {
                assert(now == prev.push(e));
                assert(now[prev.len() as int] == e);
            }
        }
    }
}

proof fn lemma_edges_joining_has(edges: Seq<GuiEdge>, a: Slot, b: Slot, g: GuiEdge)
    requires
        edges.contains(g),
        joins(g, a, b),
    ensures
        edges_joining(edges, a, b).contains(g),
    decreases edges.len(),
{
    let rest = edges.drop_last();
    if edges.last() == g {
        let r = edges_joining(rest, a, b);
        assert(r.push(g)[r.len() as int] == g);
    } else {
        let i = choose|i: int| 0 <= i < edges.len() && edges[i] == g;
        assert(rest[i] == g);
        lemma_edges_joining_has(rest, a, b, g);
        let r = edges_joining(rest, a, b);
        if joins(edges.last(), a, b) {
            let j = choose|j: int| 0 <= j < r.len() && r[j] == g;
            assert(r.push(edges.last())[j] == g);
        }
    }
}

proof fn lemma_removed_by_drops(drops: Seq<DroppedEdge>, edges: Seq<GuiEdge>, k: int, g: GuiEdge)
    requires
        0 <= k < drops.len(),
        edges.contains(g),
        takes_away(drops[k], g),
    ensures
        dropped(drops, edges).0.contains(g),
    decreases drops.len(),
{
    let rest = drops.drop_last();
    let prev = dropped(rest, edges).0;
    let d = drops.last();
    if k == drops.len() - 1 {
        let source = d.source.unwrap();
        lemma_edges_joining_has(edges, source, d.slot, g);
        let r = edges_joining(edges, source, d.slot);
        let j = choose|j: int| 0 <= j < r.len() && r[j] == g;
        assert((prev + r)[prev.len() + j] == g);
    } else {
        assert(rest[k] == drops[k]);
        lemma_removed_by_drops(rest, edges, k, g);
        let j = choose|j: int| 0 <= j < prev.len() && prev[j] == g;
        assert((prev + drop_removals(d, edges))[j] == g);
    }
}

/// Dropping grabbed edges queues a checkpoint last. Every grabbed edge dropped on a
/// slot other than the one it was pulled from, where the two slots can be joined,
/// has its connection queued before that checkpoint; and every connection queued
/// comes from such a grabbed edge. A freshly drawn edge, pulled from no slot, thus
/// connects the slots it is dropped between.
pub proof fn lemma_dropped_connections(drops: Seq<DroppedEdge>, edges: Seq<GuiEdge>, e: Edge)
    ensures
        spec_dropped_edges(drops, edges).len() > 0,
        spec_dropped_edges(drops, edges).last() == QueuedCommand::<CommandView>::Checkpoint,
        (exists|j: int|
            0 <= j < spec_dropped_edges(drops, edges).len() - 1 && spec_dropped_edges(
                drops,
                edges,
            )[j] == QueuedCommand::Custom(CommandView::AddEdge(e))) <==> (exists|k: int|
            0 <= k < drops.len() && #[trigger] connects(drops[k], e)),
        (exists|j: int|
            0 <= j < spec_dropped_edges(drops, edges).len() && spec_dropped_edges(
                drops,
                edges,
            )[j] == QueuedCommand::Custom(CommandView::AddEdge(e))) <==> (exists|k: int|
            0 <= k < drops.len() && #[trigger] connects(drops[k], e)),
{
    let (removed, connected) = dropped(drops, edges);
    let r = spec_dropped_edges(drops, edges);
    let rm = removals(removed);
    let ad = additions(connected);
    assert(r == rm + ad + seq![QueuedCommand::<CommandView>::Checkpoint]);
    lemma_connected_from_drops(drops, edges, e);
    let target = QueuedCommand::Custom(CommandView::AddEdge(e));
    assert(spec_queued(CommandView::AddEdge(e)) == target);
    if exists|k: int| 0 <= k < drops.len() && #[trigger] connects(drops[k], e) {
        let i = choose|i: int| 0 <= i < connected.len() && connected[i] == e;
        assert(r[rm.len() + i] == ad[i]);
        assert(r[rm.len() + i] == target);
    }
    if exists|j: int| 0 <= j < r.len() && r[j] == target {
        let j = choose|j: int| 0 <= j < r.len() && r[j] == target;
        if j < rm.len() {
            assert(r[j] == rm[j]);
            assert(rm[j] == spec_queued(CommandView::RemoveGuiEdge(removed[j])));
        } else if j < rm.len() + ad.len() {
            assert(r[j] == ad[j - rm.len()]);
            assert(connected[j - rm.len()] == e);
        } else {
            assert(r[j] == QueuedCommand::<CommandView>::Checkpoint);
        }
    }
}

/// A grabbed edge pulled away from a slot and dropped anywhere but back on it takes
/// away every drawn edge between that slot and the one it hangs from.
pub proof fn lemma_dropped_removals(
    drops: Seq<DroppedEdge>,
    edges: Seq<GuiEdge>,
    k: int,
    g: GuiEdge,
)
    requires
        0 <= k < drops.len(),
        edges.contains(g),
        takes_away(drops[k], g),
    ensures
        spec_dropped_edges(drops, edges).contains(QueuedCommand::Command(CommandView::RemoveGuiEdge(g))),
{
    lemma_removed_by_drops(drops, edges, k, g);
    let (removed, connected) = dropped(drops, edges);
    let r = spec_dropped_edges(drops, edges);
    let i = choose|i: int| 0 <= i < removed.len() && removed[i] == g;
    assert(r[i] == removals(removed)[i]);
    assert(spec_queued(CommandView::RemoveGuiEdge(g)) == QueuedCommand::Command(CommandView::RemoveGuiEdge(g)));
}

/// An edge to grab when a slot is grabbed.
#[derive(Clone, Copy, Debug, PartialEq, Eq, Structural)]
pub struct Grab {
    /// The slot that the grabbed edge hangs from.
    pub slot: Slot,
    /// The slot it is pulled away from, when an existing edge is grabbed.
    pub source: Option<Slot>,
    /// The drawn edge hidden while it is grabbed, if any.
    pub hidden: Option<GuiEdge>,
}

/// The drawn edges that start from `slot`, in order.
pub open spec fn edges_from(edges: Seq<GuiEdge>, slot: Slot) -> Seq<GuiEdge>
    decreases edges.len(),
{
    if edges.len() == 0 {
        Seq::empty()
    } else if edges.last().output_slot == slot {
        edges_from(edges.drop_last(), slot).push(edges.last())
    } else {
        edges_from(edges.drop_last(), slot)
    }
}

/// The grabs that pull each of `edges` away from their output slot, in order.
pub open spec fn pulled_from_output(edges: Seq<GuiEdge>, slot: Slot) -> Seq<Grab> {
    edges.map_values(|e: GuiEdge| Grab { slot: e.input_slot, source: Some(slot), hidden: Some(e) })
}

/// The first drawn edge that ends in `slot`, if any.
pub open spec fn first_into(edges: Seq<GuiEdge>, slot: Slot) -> Option<GuiEdge> {
    let into = edges_into(edges, slot);
    if into.len() == 0 {
        None
    } else {
        Some(into[0])
    }
}

/// What grabbing `slot` grabs: without control, a new edge hanging from the slot; with
/// control on an output slot, each edge from it, pulled away from it; with control on
/// an input slot, the first edge into it, pulled away from it.
pub open spec fn spec_grabs(slot: Slot, control: bool, edges: Seq<GuiEdge>) -> Seq<Grab> {
    if !control {
        seq![Grab { slot, source: None, hidden: None }]
    } else {
        match slot.side {
            Side::Output => pulled_from_output(edges_from(edges, slot), slot),
            Side::Input => match first_into(edges, slot) {
                Some(e) => seq![Grab { slot: e.output_slot, source: Some(slot), hidden: Some(e) }],
                None => Seq::empty(),
            },
        }
    }
}

proof fn lemma_edges_into_prefix(edges: Seq<GuiEdge>, slot: Slot, i: int)
    requires
        0 <= i <= edges.len(),
        edges_into(edges.take(i), slot).len() > 0,
    ensures
        edges_into(edges, slot).len() > 0,
        edges_into(edges, slot)[0] == edges_into(edges.take(i), slot)[0],
    decreases edges.len() - i,
{
    if i < edges.len() {
        assert(edges.take(i + 1).drop_last() =~= edges.take(i));
        lemma_edges_into_prefix(edges, slot, i + 1);
    } else {
        assert(edges.take(i) =~= edges);
    }
}

proof fn lemma_edges_into_none(edges: Seq<GuiEdge>, slot: Slot, i: int)
    requires
        0 <= i <= edges.len(),
        forall|j: int| 0 <= j < i ==> edges[j].input_slot != slot,
    ensures
        edges_into(edges.take(i), slot).len() == 0,
    decreases i,
{
    if i > 0 {
        assert(edges.take(i).drop_last() =~= edges.take(i - 1));
        lemma_edges_into_none(edges, slot, i - 1);
    }
}

/// Grabbing a slot (see [`spec_grabs`]).
pub fn grabs(slot: Slot, control: bool, edges: &Vec<GuiEdge>) -> (v: Vec<Grab>)
    ensures
        v@ == spec_grabs(slot, control, edges@),
{
    let mut v: Vec<Grab> = Vec::new();
    if !control {
        v.push(Grab { slot, source: None, hidden: None });
        assert(v@ =~= spec_grabs(slot, control, edges@));
        return v;
    }
    match slot.side {
        Side::Output => {
            let mut i: usize = 0;
            assert(edges@.take(0) =~= Seq::<GuiEdge>::empty());
            assert(v@ =~= pulled_from_output(edges_from(edges@.take(0), slot), slot));
            while i < edges.len()
                invariant
                    i <= edges@.len(),
                    slot.side == Side::Output,
                    v@ == pulled_from_output(edges_from(edges@.take(i as int), slot), slot),
                decreases edges@.len() - i,
            {
                let e = edges[i];
                assert(edges@.take(i as int + 1).drop_last() =~= edges@.take(i as int));
                if e.output_slot == slot {
                    v.push(Grab { slot: e.input_slot, source: Some(slot), hidden: Some(e) });
                }
                i = i + 1;
                assert(v@ =~= pulled_from_output(edges_from(edges@.take(i as int), slot), slot));
            }
            assert(edges@.take(edges@.len() as int) =~= edges@);
            v
        },
        Side::Input => {
            let mut i: usize = 0;
            while i < edges.len()
                invariant
                    i <= edges@.len(),
                    v@.len() == 0,
                    control,
                    slot.side == Side::Input,
                    forall|j: int| 0 <= j < i ==> edges@[j].input_slot != slot,
                decreases edges@.len() - i,
            {
                let e = edges[i];
                if e.input_slot == slot {
                    proof {
                        lemma_edges_into_none(edges@, slot, i as int);
                        assert(edges@.take(i as int + 1).drop_last() =~= edges@.take(i as int));
                        assert(edges_into(edges@.take(i as int + 1), slot) =~= seq![e]);
                        lemma_edges_into_prefix(edges@, slot, i as int + 1);
                    }
                    v.push(Grab { slot: e.output_slot, source: Some(slot), hidden: Some(e) });
                    assert(first_into(edges@, slot) == Some(e));
                    assert(v@ =~= seq![Grab { slot: e.output_slot, source: Some(slot),
                        hidden: Some(e) }]);
                    return v;
                }
                i = i + 1;
            }
            proof {
                lemma_edges_into_none(edges@, slot, edges@.len() as int);
                assert(edges@.take(edges@.len() as int) =~= edges@);
                assert(edges_into(edges@, slot).len() == 0);
                assert(first_into(edges@, slot) is None);
            }
            assert(v@ =~= Seq::<Grab>::empty());
            v
        },
    }
}

/// The edges that adding an edge takes away are exactly the drawn edges into its
/// input slot: each of them ends there, and each drawn edge that ends there is one of
/// them.
pub proof fn lemma_edges_into_exact(edges: Seq<GuiEdge>, slot: Slot)
    ensures
        forall|i: int|
            0 <= i < edges_into(edges, slot).len()
                ==> (#[trigger] edges_into(edges, slot)[i]).input_slot == slot,
        forall|e: GuiEdge|
            edges.contains(e) && e.input_slot == slot ==> edges_into(edges, slot).contains(e),
        forall|e: GuiEdge| #[trigger] edges_into(edges, slot).contains(e) ==> edges.contains(e),
    decreases edges.len(),
{
    if edges.len() > 0 {
        let rest = edges.drop_last();
        lemma_edges_into_exact(rest, slot);
        let r = edges_into(rest, slot);
        let last = edges.last();
        assert forall|e: GuiEdge| edges.contains(e) && e.input_slot == slot implies edges_into(
            edges,
            slot,
        ).contains(e) by {
            let k = choose|k: int| 0 <= k < edges.len() && edges[k] == e;
            if k < edges.len() - 1 {
                assert(rest[k] == e);
                assert(rest.contains(e));
                let j = choose|j: int| 0 <= j < r.len() && r[j] == e;
                if last.input_slot == slot {
                    assert(r.push(last)[j] == e);
                }
            } else {
                assert(r.push(last)[r.len() as int] == e);
            }
        }
        assert forall|e: GuiEdge| #[trigger] edges_into(edges,
            slot).contains(e) implies edges.contains(
            e,
        ) by {
            let k = choose|k: int| 0 <= k < edges_into(edges, slot).len() && edges_into(edges,
                slot)[k] == e;
            if k < r.len() {
                assert(r[k] == e);
                assert(r.contains(e));
                let j = choose|j: int| 0 <= j < rest.len() && rest[j] == e;
                assert(edges[j] == e);
            } else {
                assert(edges[edges.len() - 1] == e);
            }
        }
    }
}

/// Removing a node takes away exactly the drawn edges connected to it: each edge it
/// removes touches the node, and each drawn edge that touches the node is removed.
pub proof fn lemma_edges_touching_exact(edges: Seq<GuiEdge>, node_id: NodeId)
    ensures
        forall|i: int|
            0 <= i < edges_touching(edges, node_id).len() ==> ({
                let e = #[trigger] edges_touching(edges, node_id)[i];
                e.input_slot.node_id == node_id || e.output_slot.node_id == node_id
            }),
        forall|e: GuiEdge|
            edges.contains(e) && (e.input_slot.node_id == node_id || e.output_slot.node_id
                == node_id) ==> edges_touching(edges, node_id).contains(e),
        forall|e: GuiEdge| #[trigger] edges_touching(edges, node_id).contains(e)
            ==> edges.contains(e),
    decreases edges.len(),
{
    if edges.len() > 0 {
        let rest = edges.drop_last();
        lemma_edges_touching_exact(rest, node_id);
        let r = edges_touching(rest, node_id);
        let last = edges.last();
        let touches_last = last.input_slot.node_id == node_id || last.output_slot.node_id
            == node_id;
        assert forall|e: GuiEdge|
            edges.contains(e) && (e.input_slot.node_id == node_id || e.output_slot.node_id
                == node_id) implies edges_touching(edges, node_id).contains(e) by {
            let k = choose|k: int| 0 <= k < edges.len() && edges[k] == e;
            if k < edges.len() - 1 {
                assert(rest[k] == e);
                assert(rest.contains(e));
                let j = choose|j: int| 0 <= j < r.len() && r[j] == e;
                if touches_last {
                    assert(r.push(last)[j] == e);
                }
            } else {
                assert(r.push(last)[r.len() as int] == e);
            }
        }
        assert forall|e: GuiEdge| #[trigger] edges_touching(edges, node_id).contains(
            e,
        ) implies edges.contains(e) by {
            let k = choose|k: int|
                0 <= k < edges_touching(edges, node_id).len() && edges_touching(edges, node_id)[k]
                    == e;
            if k < r.len() {
                assert(r[k] == e);
                assert(r.contains(e));
                let j = choose|j: int| 0 <= j < rest.len() && rest[j] == e;
                assert(edges[j] == e);
            } else {
                assert(edges[edges.len() - 1] == e);
            }
        }
    }
}

/// The drawn edge that stands for `edge`.
pub open spec fn drawn_edge(edge: Edge) -> GuiEdge {
    GuiEdge { output_slot: spec_output_slot(edge), input_slot: spec_input_slot(edge) }
}

/// The drawn edges after the command `q` ran: removing a drawn edge takes it away,
/// connecting an edge draws it; other commands leave the edges alone.
pub open spec fn apply_edge_command(edges: Set<GuiEdge>, q: QueuedCommand<CommandView>) -> Set<
    GuiEdge,
> {
    match q {
        QueuedCommand::Command(CommandView::RemoveGuiEdge(e)) => edges.remove(e),
        QueuedCommand::Command(CommandView::AddEdgeOnly(edge)) => edges.insert(drawn_edge(edge)),
        _ => edges,
    }
}

/// The drawn edges after the commands `cmds` ran, in order.
pub open spec fn apply_edge_commands(edges: Set<GuiEdge>,
    cmds: Seq<QueuedCommand<CommandView>>) -> Set<
    GuiEdge,
>
    decreases cmds.len(),
{
    if cmds.len() == 0 {
        edges
    } else {
        apply_edge_commands(apply_edge_command(edges, cmds[0]), cmds.drop_first())
    }
}

proof fn lemma_apply_concat(
    edges: Set<GuiEdge>,
    a: Seq<QueuedCommand<CommandView>>,
    b: Seq<QueuedCommand<CommandView>>,
)
    ensures
        apply_edge_commands(edges, a + b) == apply_edge_commands(apply_edge_commands(edges, a), b),
    decreases a.len(),
{
    if a.len() > 0 {
        assert((a + b).drop_first() =~= a.drop_first() + b);
        assert((a + b)[0] == a[0]);
        lemma_apply_concat(apply_edge_command(edges, a[0]), a.drop_first(), b);
    } else {
        assert(a + b =~= b);
    }
}

proof fn lemma_apply_removals(edges: Set<GuiEdge>, es: Seq<GuiEdge>)
    ensures
        apply_edge_commands(edges, removals(es)) == edges.difference(es.to_set()),
    decreases es.len(),
{
    if es.len() == 0 {
        assert(es.to_set() =~= Set::<GuiEdge>::empty());
        assert(edges.difference(es.to_set()) =~= edges);
    } else {
        assert(removals(es)[0] == QueuedCommand::Command(CommandView::RemoveGuiEdge(es[0])));
        assert(removals(es).drop_first() =~= removals(es.drop_first()));
        lemma_apply_removals(edges.remove(es[0]), es.drop_first());
        assert forall|x: GuiEdge| es.to_set().contains(x) == (x == es[0]
            || es.drop_first().to_set().contains(x)) by {
            if es.contains(x) {
                let k = choose|k: int| 0 <= k < es.len() && es[k] == x;
                if k > 0 {
                    assert(es.drop_first()[k - 1] == x);
                }
            }
            if es.drop_first().contains(x) {
                let k = choose|k: int| 0 <= k < es.drop_first().len() && es.drop_first()[k] == x;
                assert(es[k + 1] == x);
            }
            if x == es[0] {
                assert(es.contains(x));
            }
        }
        assert(edges.remove(es[0]).difference(es.drop_first().to_set()) =~= edges.difference(
            es.to_set(),
        ));
    }
}

/// Adding an edge that the graph accepts, or whose input slot is taken, leaves that
/// edge as the only one into its input slot, and every other edge as it was.
pub proof fn lemma_add_edge_replaces_input(edge: Edge, check: ConnectCheck, edges: Seq<GuiEdge>)
    requires
        check != ConnectCheck::Refused,
    ensures
        ({
            let after = apply_edge_commands(edges.to_set(), spec_add_edge(edge, check,
                edges).unwrap());
            &&& after.contains(drawn_edge(edge))
            &&& forall|e: GuiEdge|
                after.contains(e) && e.input_slot == spec_input_slot(edge) ==> e == drawn_edge(edge)
            &&& forall|e: GuiEdge|
                edges.contains(e) && e.input_slot != spec_input_slot(edge) ==> after.contains(e)
            &&& forall|e: GuiEdge| after.contains(e) ==> e == drawn_edge(edge) || edges.contains(e)
        }),
{
    let slot = spec_input_slot(edge);
    let into = edges_into(edges, slot);
    let add = seq![spec_queued(CommandView::AddEdgeOnly(edge))];
    assert(spec_add_edge(edge, check, edges).unwrap() =~= removals(into) + add);
    lemma_apply_concat(edges.to_set(), removals(into), add);
    lemma_apply_removals(edges.to_set(), into);
    lemma_edges_into_exact(edges, slot);
    let removed = edges.to_set().difference(into.to_set());
    assert(add.drop_first() =~= Seq::<QueuedCommand<CommandView>>::empty());
    assert(add[0] == QueuedCommand::Command(CommandView::AddEdgeOnly(edge)));
    assert(apply_edge_commands(removed, add) == removed.insert(drawn_edge(edge))) by {
        reveal_with_fuel(apply_edge_commands, 2);
    }
    assert forall|e: GuiEdge| removed.contains(e) implies e.input_slot != slot by {
        if e.input_slot == slot {
            assert(edges.contains(e));
            assert(into.contains(e));
        }
    }
    assert forall|e: GuiEdge| edges.contains(e) && e.input_slot != slot implies removed.contains(
        e,
    ) by {
        if into.contains(e) {
            let k = choose|k: int| 0 <= k < into.len() && into[k] == e;
            assert(into[k].input_slot == slot);
        }
    }
}

/// Removing a node leaves no drawn edge touching it, and every other edge as it was.
pub proof fn lemma_remove_node_removes_its_edges(node_id: NodeId, edges: Seq<GuiEdge>)
    ensures
        ({
            let after = apply_edge_commands(edges.to_set(), spec_remove_node(node_id, edges));
            &&& forall|e: GuiEdge|
                after.contains(e) ==> e.input_slot.node_id != node_id && e.output_slot.node_id
                    != node_id
            &&& forall|e: GuiEdge|
                edges.contains(e) && e.input_slot.node_id != node_id && e.output_slot.node_id
                    != node_id ==> after.contains(e)
            &&& forall|e: GuiEdge| after.contains(e) ==> edges.contains(e)
        }),
{
    let touching = edges_touching(edges, node_id);
    let rest = seq![
        spec_queued(CommandView::DeselectNode(node_id)),
        spec_queued(CommandView::MakeNothingActive),
        spec_queued(CommandView::RemoveNodeOnly(node_id)),
    ];
    lemma_apply_concat(edges.to_set(), removals(touching), rest);
    lemma_apply_removals(edges.to_set(), touching);
    lemma_edges_touching_exact(edges, node_id);
    let removed = edges.to_set().difference(touching.to_set());
    assert(rest.drop_first().drop_first().drop_first() =~= Seq::<QueuedCommand<CommandView>>::empty());
    assert(rest[0] == QueuedCommand::Custom(CommandView::DeselectNode(node_id)));
    assert(rest.drop_first()[0] == QueuedCommand::Custom(CommandView::MakeNothingActive));
    assert(rest.drop_first().drop_first()[0] == QueuedCommand::Command(
        CommandView::RemoveNodeOnly(node_id),
    ));
    assert(apply_edge_commands(removed, rest) == removed) by {
        reveal_with_fuel(apply_edge_commands, 4);
    }
    assert forall|e: GuiEdge| removed.contains(e) implies e.input_slot.node_id != node_id
        && e.output_slot.node_id != node_id by {
        if e.input_slot.node_id == node_id || e.output_slot.node_id == node_id {
            assert(edges.contains(e));
            assert(touching.contains(e));
        }
    }
    assert forall|e: GuiEdge|
        edges.contains(e) && e.input_slot.node_id != node_id && e.output_slot.node_id
            != node_id implies removed.contains(e) by {
        if touching.contains(e) {
            let k = choose|k: int| 0 <= k < touching.len() && touching[k] == e;
            assert(touching[k].input_slot.node_id == node_id || touching[k].output_slot.node_id
                == node_id);
        }
    }
}

} // verus!
