//! The add tool: which key adds which kind of node, and what adding nodes queues.
use crate::commands::{spec_queued, CommandView, EditorCommand};
use crate::history::EditorHistory;
use crate::graph::NodeId;
use crate::node::{NodeKind, ResizeFilter, ResizePolicy};
use crate::node_edit::NodeParams;
use crate::undo::{ManagerState, QueuedCommand};
use vstd::prelude::*;

verus! {

/// What a key of the add tool adds.
#[derive(Clone, Copy, Debug, PartialEq, Eq, Structural)]
pub enum AddChoice {
    /// A node that combines channels into an RGBA image.
    Combine,
    /// Image nodes, one for each file the user picks.
    Images,
    /// An RGBA output node, named "untitled".
    Output,
    /// A node that separates an RGBA image into channels.
    Separate,
    /// A value node.
    Value,
}

/// The character `c` with ASCII capitals made small.
pub open spec fn ascii_lowercase(c: char) -> char {
    if 'A' <= c <= 'Z' {
        ((c as u32) + 32) as char
    } else {
        c
    }
}

/// What the character `c` adds, if anything; case does not matter.
pub open spec fn spec_add_choice(c: char) -> Option<AddChoice> {
    let l = ascii_lowercase(c);
    if l == 'c' {
        Some(AddChoice::Combine)
    } else if l == 'i' {
        Some(AddChoice::Images)
    } else if l == 'o' {
        Some(AddChoice::Output)
    } else if l == 's' {
        Some(AddChoice::Separate)
    } else if l == 'v' {
        Some(AddChoice::Value)
    } else {
        None
    }
}

/// What the character `c` adds, if anything (see [`spec_add_choice`]).
pub fn add_choice(c: char) -> (r: Option<AddChoice>)
    ensures
        r == spec_add_choice(c),
{
    if c == 'c' || c == 'C' {
        Some(AddChoice::Combine)
    } else if c == 'i' || c == 'I' {
        Some(AddChoice::Images)
    } else if c == 'o' || c == 'O' {
        Some(AddChoice::Output)
    } else if c == 's' || c == 'S' {
        Some(AddChoice::Separate)
    } else if c == 'v' || c == 'V' {
        Some(AddChoice::Value)
    } else {
        None
    }
}

/// The first character of `chars` from index `from` on that adds something: its index
/// and what it adds.
pub open spec fn spec_next_add_choice(chars: Seq<char>, from: int) -> Option<(usize, AddChoice)>
    decreases chars.len() - from,
{
    if from < 0 || from >= chars.len() {
        None
    } else {
        match spec_add_choice(chars[from]) {
            Some(a) => Some((from as usize, a)),
            None => spec_next_add_choice(chars, from + 1),
        }
    }
}

/// The first typed character from index `from` on that adds something (see
/// [`spec_next_add_choice`]).
pub fn next_add_choice(chars: &Vec<char>, from: usize) -> (r: Option<(usize, AddChoice)>)
    ensures
        r == spec_next_add_choice(chars@, from as int),
{
    let mut i = from;
    while i < chars.len()
        invariant
            from <= i,
            spec_next_add_choice(chars@, from as int) == spec_next_add_choice(chars@, i as int),
        decreases chars@.len() - i,
    {
        match add_choice(chars[i]) {
            Some(a) => {
                return Some((i, a));
            },
            None => {},
        }
        i = i + 1;
    }
    None
}

/// The kind of node that a choice other than images adds.
pub open spec fn spec_choice_kind(a: AddChoice) -> Option<NodeKind> {
    match a {
        AddChoice::Combine => Some(NodeKind::CombineRgba),
        AddChoice::Images => None,
        AddChoice::Output => Some(NodeKind::OutputRgba),
        AddChoice::Separate => Some(NodeKind::SeparateRgba),
        AddChoice::Value => Some(NodeKind::Value),
    }
}

/// The kind of node that a choice adds; `None` for images, whose number depends on
/// the files picked.
pub fn choice_kind(a: AddChoice) -> (k: Option<NodeKind>)
    ensures
        k == spec_choice_kind(a),
{
    match a {
        AddChoice::Combine => Some(NodeKind::CombineRgba),
        AddChoice::Images => None,
        AddChoice::Output => Some(NodeKind::OutputRgba),
        AddChoice::Separate => Some(NodeKind::SeparateRgba),
        AddChoice::Value => Some(NodeKind::Value),
    }
}

/// How a new node resizes its inputs: to the input with the most pixels, with a
/// triangle filter.
pub fn new_node_params() -> (p: NodeParams)
    ensures
        p == (NodeParams {
            resize_policy: ResizePolicy::MostPixels,
            resize_filter: ResizeFilter::Triangle,
            mix_type: None,
        }),
{
    NodeParams {
        resize_policy: ResizePolicy::MostPixels,
        resize_filter: ResizeFilter::Triangle,
        mix_type: None,
    }
}

/// What picking up newly added nodes queues: selecting them, moving them to the
/// cursor, and switching to grabbing them.
pub open spec fn spec_grab_new_nodes() -> Seq<QueuedCommand<CommandView>> {
    seq![
        spec_queued(CommandView::SelectNew),
        spec_queued(CommandView::SelectedToCursorSneaky),
        spec_queued(CommandView::DragToolUndo),
    ]
}

/// The history with `pushes` queued behind what it had queued.
pub open spec fn queued_behind(s: ManagerState<CommandView>,
    pushes: Seq<QueuedCommand<CommandView>>) -> ManagerState<
    CommandView,
> {
    ManagerState { commands: s.commands + pushes, ..s }
}

/// Queues adding the new node `node_id` to the workspace.
pub fn create_node(history: &mut EditorHistory, node_id: NodeId)
    requires
        old(history).wf(),
    ensures
        final(history).wf(),
        final(history)@ == queued_behind(
            old(history)@,
            seq![spec_queued(CommandView::AddNode(node_id))],
        ),
{
    history.push(QueuedCommand::Command(EditorCommand::AddNode(node_id)));
    assert(final(history)@ =~= queued_behind(
        old(history)@,
        seq![spec_queued(CommandView::AddNode(node_id))],
    ));
}

/// Queues picking up newly added nodes (see [`spec_grab_new_nodes`]).
pub fn grab_new_nodes(history: &mut EditorHistory)
    requires
        old(history).wf(),
    ensures
        final(history).wf(),
        final(history)@ == queued_behind(old(history)@, spec_grab_new_nodes()),
{
    history.push(QueuedCommand::Custom(EditorCommand::SelectNew));
    history.push(QueuedCommand::Custom(EditorCommand::SelectedToCursorSneaky));
    history.push(QueuedCommand::Custom(EditorCommand::DragToolUndo));
    assert(final(history)@ =~= queued_behind(old(history)@, spec_grab_new_nodes()));
}

/// Queues adding the new node `node_id` and picking it up.
pub fn create_and_grab_node(history: &mut EditorHistory, node_id: NodeId)
    requires
        old(history).wf(),
    ensures
        final(history).wf(),
        final(history)@ == queued_behind(
            old(history)@,
            seq![spec_queued(CommandView::AddNode(node_id))] + spec_grab_new_nodes(),
        ),
{
    create_node(history, node_id);
    grab_new_nodes(history);
    assert(final(history)@ =~= queued_behind(
        old(history)@,
        seq![spec_queued(CommandView::AddNode(node_id))] + spec_grab_new_nodes(),
    ));
}

/// The command spreading nodes added together, when there are more than one.
pub open spec fn spread_if_many(count: nat) -> Seq<QueuedCommand<CommandView>> {
    if count > 1 {
        seq![spec_queued(CommandView::MultiImportOffset)]
    } else {
        Seq::empty()
    }
}

/// What adding the nodes `created` with the add tool queues, in order: adding each of
/// them, picking them all up, and, when there is more than one, spreading them so
/// that they do not overlap.
pub open spec fn spec_added_nodes(created: Seq<NodeId>) -> Seq<QueuedCommand<CommandView>> {
    created.map_values(|n: NodeId| spec_queued(CommandView::AddNode(n))) + spec_grab_new_nodes()
        + spread_if_many(created.len())
}

/// Queues adding the nodes `created` with the add tool (see [`spec_added_nodes`]).
pub fn added_nodes(history: &mut EditorHistory, created: &Vec<NodeId>)
    requires
        old(history).wf(),
    ensures
        final(history).wf(),
        final(history)@ == queued_behind(old(history)@, spec_added_nodes(created@)),
{
    let mut i: usize = 0;
    while i < created.len()
        invariant
            i <= created@.len(),
            history.wf(),
            history@ == queued_behind(
                old(history)@,
                created@.take(i as int).map_values(
                    |n: NodeId| spec_queued(CommandView::AddNode(n)),
                ),
            ),
        decreases created@.len() - i,
    {
        create_node(history, created[i]);
        assert(created@.take(i as int + 1).map_values(
            |n: NodeId| spec_queued(CommandView::AddNode(n)),
        ) =~= created@.take(i as int).map_values(
            |n: NodeId| spec_queued(CommandView::AddNode(n)),
        ).push(spec_queued(CommandView::AddNode(created@[i as int]))));
        i = i + 1;
    }
    assert(created@.take(created@.len() as int) =~= created@);
    grab_new_nodes(history);
    if created.len() > 1 {
        history.push(QueuedCommand::Custom(EditorCommand::MultiImportOffset));
    }
    assert(final(history)@ =~= queued_behind(old(history)@, spec_added_nodes(created@)));
}

/// What importing the dropped files that became the nodes `created` queues, in order:
/// adding and picking up each of them, and, when there is more than one, spreading
/// them.
pub open spec fn spec_imported_nodes(created: Seq<NodeId>) -> Seq<QueuedCommand<CommandView>>
    decreases created.len(),
{
    if created.len() == 0 {
        Seq::empty()
    } else {
        spec_imported_nodes(created.drop_last()) + seq![
            spec_queued(CommandView::AddNode(created.last())),
        ] + spec_grab_new_nodes()
    }
}

/// Queues importing dropped files that became the nodes `created`.
pub fn imported_nodes(history: &mut EditorHistory, created: &Vec<NodeId>)
    requires
        old(history).wf(),
    ensures
        final(history).wf(),
        final(history)@ == queued_behind(
            old(history)@,
            spec_imported_nodes(created@) + spread_if_many(created@.len()),
        ),
{
    let mut i: usize = 0;
    assert(created@.take(0) =~= Seq::<NodeId>::empty());
    assert(history@ =~= queued_behind(old(history)@, spec_imported_nodes(created@.take(0))));
    while i < created.len()
        invariant
            i <= created@.len(),
            history.wf(),
            history@ == queued_behind(old(history)@, spec_imported_nodes(created@.take(i as int))),
        decreases created@.len() - i,
    {
        create_and_grab_node(history, created[i]);
        assert(created@.take(i as int + 1).drop_last() =~= created@.take(i as int));
        assert(history@ =~= queued_behind(
            old(history)@,
            spec_imported_nodes(created@.take(i as int + 1)),
        ));
        i = i + 1;
    }
    assert(created@.take(created@.len() as int) =~= created@);
    if created.len() > 1 {
        history.push(QueuedCommand::Custom(EditorCommand::MultiImportOffset));
    }
    assert(final(history)@ =~= queued_behind(
        old(history)@,
        spec_imported_nodes(created@) + spread_if_many(created@.len()),
    ));
}

/// The keys of the add tool with the name shown beside each, in the order shown.
pub open spec fn add_tool_entries() -> Seq<(char, Seq<char>)> {
    seq![('I', "Image"@), ('S', "Separate"@), ('C', "Combine"@), ('O', "Output"@), ('V', "Value"@)]
}

/// Lines of the form `K: Name`, one for each key and name of `entries`, in order.
pub open spec fn key_lines(entries: Seq<(char, Seq<char>)>) -> Seq<char>
    decreases entries.len(),
{
    if entries.len() == 0 {
        Seq::empty()
    } else {
        key_lines(entries.drop_last()) + seq![entries.last().0, ':', ' '] + entries.last().1
            + seq!['\n']
    }
}

/// The instructions of the add tool: one line for each of its keys, with the name of
/// what the key adds.
pub fn add_tool_instructions() -> (s: &'static str)
    ensures
        s@ == key_lines(add_tool_entries()),
        s@ == seq![
            'I', ':', ' ', 'I', 'm', 'a', 'g', 'e', '\n', 'S', ':', ' ', 'S', 'e', 'p', 'a',
            'r', 'a', 't', 'e', '\n', 'C', ':', ' ', 'C', 'o', 'm', 'b', 'i', 'n', 'e', '\n',
            'O', ':', ' ', 'O', 'u', 't', 'p', 'u', 't', '\n', 'V', ':', ' ', 'V', 'a', 'l',
            'u', 'e', '\n',
        ],
{
    proof {
        reveal_strlit("I: Image\nS: Separate\nC: Combine\nO: Output\nV: Value\n");
        reveal_strlit("Image");
        reveal_strlit("Separate");
        reveal_strlit("Combine");
        reveal_strlit("Output");
        reveal_strlit("Value");
        reveal_with_fuel(key_lines, 6);
        assert(key_lines(add_tool_entries()) =~= "I: Image\nS: Separate\nC: Combine\nO: Output\nV: Value\n"@);
    }
    "I: Image\nS: Separate\nC: Combine\nO: Output\nV: Value\n"
}

/// The name that a new output node gets.
pub fn untitled() -> (s: &'static str)
    ensures
        s@ == seq!['u', 'n', 't', 'i', 't', 'l', 'e', 'd'],
{
    proof {
        reveal_strlit("untitled");
    }
    "untitled"
}

/// Each key that the add tool's instructions show, as written or in lower case, adds
/// the node named beside it: a node of the kind with that title, or image nodes for
/// the image entry.
pub proof fn lemma_add_keys_match_instructions(i: int, lower: bool)
    requires
        0 <= i < add_tool_entries().len(),
    ensures
        ({
            let (key, name) = add_tool_entries()[i];
            let c = if lower { ascii_lowercase(key) } else { key };
            spec_add_choice(c) matches Some(a) && match spec_choice_kind(a) {
                Some(k) => k.spec_title() == name,
                None => a == AddChoice::Images && NodeKind::Image.spec_title() == name,
            }
        }),
{
}

} // verus!
