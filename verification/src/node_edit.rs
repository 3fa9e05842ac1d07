//! The node editing tool: choosing what to edit with a key, picking a new value from a
//! numbered list, and typing sizes, slot numbers, values and names.
use crate::commands::{copy_vec, queued_views, spec_queued, CommandView, EditorCommand};
use crate::graph::{NodeId, SlotId};
use crate::node::{
    filter_name, mix_name, mix_type_entries, mix_type_list, policy_name, resize_filter_entries,
    resize_filter_list, resize_policy_entries, resize_policy_list, spec_choose_resize_policy,
    MixType, NodeKind, ResizeFilter, ResizePolicy, Size,
};
use crate::scan_code::{key_of_char, spec_digit, ScanCode};
use crate::scan_code_input::ScanCodeInput;
use crate::text::{
    append_decimal, decimal, digit_char, is_digit, lemma_decimal_digits, lemma_parse_decimal, lines_view,
    parse_u32, spec_parse_u32, type_line, typed, LineKind,
};
use crate::tool::ToolState;
use crate::undo::QueuedCommand;
use vstd::prelude::*;

verus! {

/// Where the node editing tool stands.
#[derive(Clone, Copy, Debug, PartialEq, Eq, Hash, Structural)]
pub enum EditState {
    /// The tool is not in use.
    Off,
    /// Choosing what to edit.
    Outer,
    /// Picking a value from a numbered list.
    Inner,
    /// Typing a size.
    Size,
    /// Typing a slot number.
    Slot,
    /// Typing a value.
    Value,
    /// Typing a name.
    Name,
}

/// What a numbered list picks.
#[derive(Clone, Copy, Debug, PartialEq, Eq, Hash, Structural)]
pub enum EditTarget {
    ResizePolicy,
    ResizeFilter,
    MixType,
}

impl EditTarget {
    pub open spec fn spec_list(self) -> Seq<char> {
        match self {
            EditTarget::ResizePolicy => resize_policy_list(),
            EditTarget::ResizeFilter => resize_filter_list(),
            EditTarget::MixType => mix_type_list(),
        }
    }

    /// The numbered list to pick from.
    pub fn list(&self) -> (s: String)
        ensures
            s@ == self.spec_list(),
    {
        match self {
            EditTarget::ResizePolicy => ResizePolicy::list(),
            EditTarget::ResizeFilter => ResizeFilter::list(),
            EditTarget::MixType => MixType::list(),
        }
    }
}

/// Whether `keys` lists the keys of `set`, each once.
pub open spec fn enumerates(keys: Seq<ScanCode>, set: Set<ScanCode>) -> bool {
    keys.to_set() == set && keys.no_duplicates()
}

/// What a key chooses while choosing what to edit.
#[derive(Clone, Copy, Debug, PartialEq, Eq, Structural)]
pub enum OuterChoice {
    /// Rename the output node.
    Rename,
    /// Leave the tool.
    Leave,
    /// Pick from a list.
    Pick(EditTarget),
    /// Type a new value for the value node.
    TypeValue,
}

/// What key `k` chooses for a node of kind `kind`, if anything.
pub open spec fn spec_outer_choice(k: ScanCode, kind: NodeKind) -> Option<OuterChoice> {
    match k {
        ScanCode::KeyN => if kind == NodeKind::OutputRgba {
            Some(OuterChoice::Rename)
        } else {
            None
        },
        ScanCode::Tab => Some(OuterChoice::Leave),
        ScanCode::KeyR => Some(OuterChoice::Pick(EditTarget::ResizePolicy)),
        ScanCode::KeyF => Some(OuterChoice::Pick(EditTarget::ResizeFilter)),
        ScanCode::KeyT => if kind == NodeKind::Mix {
            Some(OuterChoice::Pick(EditTarget::MixType))
        } else {
            None
        },
        ScanCode::KeyV => if kind == NodeKind::Value {
            Some(OuterChoice::TypeValue)
        } else {
            None
        },
        _ => None,
    }
}

/// What key `k` chooses for a node of kind `kind`, if anything.
pub fn outer_choice(k: ScanCode, kind: NodeKind) -> (c: Option<OuterChoice>)
    ensures
        c == spec_outer_choice(k, kind),
{
    match k {
        ScanCode::KeyN => if kind == NodeKind::OutputRgba {
            Some(OuterChoice::Rename)
        } else {
            None
        },
        ScanCode::Tab => Some(OuterChoice::Leave),
        ScanCode::KeyR => Some(OuterChoice::Pick(EditTarget::ResizePolicy)),
        ScanCode::KeyF => Some(OuterChoice::Pick(EditTarget::ResizeFilter)),
        ScanCode::KeyT => if kind == NodeKind::Mix {
            Some(OuterChoice::Pick(EditTarget::MixType))
        } else {
            None
        },
        ScanCode::KeyV => if kind == NodeKind::Value {
            Some(OuterChoice::TypeValue)
        } else {
            None
        },
        _ => None,
    }
}

/// The first key of `keys` that chooses something, with its choice.
pub open spec fn first_outer_choice(keys: Seq<ScanCode>, kind: NodeKind) -> Option<
    (ScanCode, OuterChoice),
>
    decreases keys.len(),
{
    if keys.len() == 0 {
        None
    } else {
        match spec_outer_choice(keys[0], kind) {
            Some(c) => Some((keys[0], c)),
            None => first_outer_choice(keys.drop_first(), kind),
        }
    }
}

/// What choosing what to edit leads to.
#[derive(Clone, Copy, Debug, PartialEq, Eq, Structural)]
pub struct EditOutcome {
    /// The tool to switch to, if any.
    pub tool: Option<ToolState>,
    /// The editing state to switch to, if any.
    pub edit_state: Option<EditState>,
    /// The list to pick from, if any.
    pub target: Option<EditTarget>,
}

/// What a choice leads to.
pub open spec fn spec_choice_outcome(c: OuterChoice) -> EditOutcome {
    match c {
        OuterChoice::Rename => EditOutcome {
            tool: None,
            edit_state: Some(EditState::Name),
            target: None,
        },
        OuterChoice::Leave => EditOutcome {
            tool: Some(ToolState::Idle),
            edit_state: None,
            target: None,
        },
        OuterChoice::Pick(t) => EditOutcome {
            tool: None,
            edit_state: Some(EditState::Inner),
            target: Some(t),
        },
        OuterChoice::TypeValue => EditOutcome {
            tool: None,
            edit_state: Some(EditState::Value),
            target: None,
        },
    }
}

/// Choosing what to edit in the active node, whose kind is `active_kind` (`None` when
/// no node is active, or the graph lacks it: then the tool is left). The keys just
/// pressed are taken in order, and the first one that chooses something is no longer
/// counted as just pressed.
pub fn edit_node_outer(active_kind: Option<NodeKind>, input: &mut ScanCodeInput) -> (o:
    EditOutcome)
    requires
        old(input).wf(),
    ensures
        final(input).wf(),
        final(input)@.pressed == old(input)@.pressed,
        final(input)@.just_released == old(input)@.just_released,
        active_kind is None ==> o == (EditOutcome {
            tool: Some(ToolState::Idle),
            edit_state: None,
            target: None,
        }) && final(input)@ == old(input)@,
        active_kind matches Some(kind) ==> exists|keys: Seq<ScanCode>|
            #![trigger keys.to_set()]
            enumerates(keys, old(input)@.just_pressed) && match first_outer_choice(keys, kind) {
                Some((k, c)) => o == spec_choice_outcome(c) && final(input)@.just_pressed == old(
                    input,
                )@.just_pressed.remove(k),
                None => o == (EditOutcome { tool: None, edit_state: None, target: None })
                    && final(input)@.just_pressed == old(input)@.just_pressed,
            },
{
    let kind = match active_kind {
        None => {
            return EditOutcome { tool: Some(ToolState::Idle), edit_state: None, target: None };
        },
        Some(kind) => kind,
    };
    let keys = input.get_just_pressed();
    let mut found: Option<(ScanCode, OuterChoice)> = None;
    let mut i: usize = 0;
    proof {
        assert(keys@.skip(0) =~= keys@);
    }
    while i < keys.len() && found.is_none()
        invariant
            i <= keys@.len(),
            found is None ==> first_outer_choice(keys@, kind) == first_outer_choice(
                keys@.skip(i as int),
                kind,
            ),
            found is Some ==> first_outer_choice(keys@, kind) == found,
        decreases keys@.len() - i,
    {
        let k = keys[i];
        proof {
            assert(keys@.skip(i as int)[0] == k);
            assert(keys@.skip(i as int).drop_first() =~= keys@.skip(i as int + 1));
        }
        if let Some(c) = outer_choice(k, kind) {
            found = Some((k, c));
        }
        i = i + 1;
    }
    proof {
        if found is None {
            assert(keys@.skip(keys@.len() as int) =~= Seq::<ScanCode>::empty());
        }
    }
    match found {
        None => EditOutcome { tool: None, edit_state: None, target: None },
        Some((k, c)) => {
            input.clear_just_pressed(k);
            match c {
                OuterChoice::Rename => EditOutcome {
                    tool: None,
                    edit_state: Some(EditState::Name),
                    target: None,
                },
                OuterChoice::Leave => EditOutcome {
                    tool: Some(ToolState::Idle),
                    edit_state: None,
                    target: None,
                },
                OuterChoice::Pick(t) => EditOutcome {
                    tool: None,
                    edit_state: Some(EditState::Inner),
                    target: Some(t),
                },
                OuterChoice::TypeValue => EditOutcome {
                    tool: None,
                    edit_state: Some(EditState::Value),
                    target: None,
                },
            }
        },
    }
}

/// The current settings of the active node, as the graph has them.
#[derive(Clone, Copy, Debug, PartialEq, Eq, Structural)]
pub struct NodeParams {
    pub resize_policy: ResizePolicy,
    pub resize_filter: ResizeFilter,
    /// How the node mixes its inputs, when it is a mix node.
    pub mix_type: Option<MixType>,
}

/// What a key does while picking from a list.
pub enum InnerKey {
    /// Nothing.
    Skip,
    /// Switches to typing a size or a slot.
    GoTo(EditState),
    /// Sets the parameter with these commands.
    Apply(Seq<QueuedCommand<CommandView>>),
    /// Leaves the list.
    Done,
}

/// What key `k` does while picking from the list of `target` for node `node_id`,
/// whose current settings are `params` (`None` when the graph lacks the node).
pub open spec fn spec_inner_key(
    k: ScanCode,
    target: EditTarget,
    node_id: NodeId,
    params: Option<NodeParams>,
) -> InnerKey {
    match spec_digit(k) {
        Some(i) => match target {
            EditTarget::ResizePolicy => match spec_choose_resize_policy(i) {
                Some(ResizePolicy::SpecificSize(_)) => InnerKey::GoTo(EditState::Size),
                Some(ResizePolicy::SpecificSlot(_)) => InnerKey::GoTo(EditState::Slot),
                Some(to) => match params {
                    Some(p) => InnerKey::Apply(
                        seq![
                            spec_queued(
                                CommandView::SetResizePolicy {
                                    node_id,
                                    from: p.resize_policy,
                                    to,
                                },
                            ),
                            QueuedCommand::Checkpoint,
                        ],
                    ),
                    None => InnerKey::Skip,
                },
                None => InnerKey::Skip,
            },
            EditTarget::ResizeFilter => match params {
                Some(p) => if i <= 2 {
                    InnerKey::Apply(
                        seq![
                            spec_queued(
                                CommandView::SetResizeFilter {
                                    node_id,
                                    from: p.resize_filter,
                                    to: if i == 1 {
                                        ResizeFilter::Nearest
                                    } else {
                                        ResizeFilter::Triangle
                                    },
                                },
                            ),
                            QueuedCommand::Checkpoint,
                        ],
                    )
                } else {
                    InnerKey::Skip
                },
                None => InnerKey::Skip,
            },
            EditTarget::MixType => if i <= 4 && params is Some && params.unwrap().mix_type is Some {
                InnerKey::Apply(
                    seq![
                        spec_queued(
                            CommandView::SetMixType {
                                node_id,
                                from: params.unwrap().mix_type.unwrap(),
                                to: if i == 1 {
                                    MixType::Add
                                } else if i == 2 {
                                    MixType::Subtract
                                } else if i == 3 {
                                    MixType::Multiply
                                } else {
                                    MixType::Divide
                                },
                            },
                        ),
                        QueuedCommand::Checkpoint,
                    ],
                )
            } else {
                InnerKey::Skip
            },
        },
        None => if k == ScanCode::Tab {
            InnerKey::Done
        } else {
            InnerKey::Skip
        },
    }
}

/// The first key of `keys` that does something while picking from a list, with what
/// it does.
pub open spec fn first_inner_key(
    keys: Seq<ScanCode>,
    target: EditTarget,
    node_id: NodeId,
    params: Option<NodeParams>,
) -> Option<(ScanCode, InnerKey)>
    decreases keys.len(),
{
    if keys.len() == 0 {
        None
    } else {
        match spec_inner_key(keys[0], target, node_id, params) {
            InnerKey::Skip => first_inner_key(keys.drop_first(), target, node_id, params),
            r => Some((keys[0], r)),
        }
    }
}

/// What picking from a list leads to.
pub struct InnerOutcome {
    /// Commands to push to the back of the queue, in order.
    pub pushes: Vec<QueuedCommand<EditorCommand>>,
    /// The editing state to switch to, if any.
    pub edit_state: Option<EditState>,
    /// Whether the list is done with.
    pub target_cleared: bool,
}

fn inner_key(k: ScanCode, target: EditTarget, node_id: NodeId, params: Option<NodeParams>) -> (r: (
    u8,
    Option<EditState>,
    Vec<QueuedCommand<EditorCommand>>,
))
    ensures
        match spec_inner_key(k, target, node_id, params) {
            InnerKey::Skip => r.0 == 0,
            InnerKey::GoTo(s) => r.0 == 1 && r.1 == Some(s),
            InnerKey::Apply(cmds) => r.0 == 2 && queued_views(r.2@) == cmds,
            InnerKey::Done => r.0 == 3,
        },
{
    let mut pushes: Vec<QueuedCommand<EditorCommand>> = Vec::new();
    match k.to_usize() {
        Some(i) => match target {
            EditTarget::ResizePolicy => match ResizePolicy::choose_entry(i) {
                Some(ResizePolicy::SpecificSize(_)) => (1, Some(EditState::Size), pushes),
                Some(ResizePolicy::SpecificSlot(_)) => (1, Some(EditState::Slot), pushes),
                Some(to) => match params {
                    Some(p) => {
                        pushes.push(
                            QueuedCommand::Command(
                                EditorCommand::SetResizePolicy {
                                    node_id,
                                    from: p.resize_policy,
                                    to,
                                },
                            ),
                        );
                        pushes.push(QueuedCommand::Checkpoint);
                        assert(queued_views(pushes@) =~= seq![
                            spec_queued(
                                CommandView::SetResizePolicy {
                                    node_id,
                                    from: p.resize_policy,
                                    to,
                                },
                            ),
                            QueuedCommand::Checkpoint,
                        ]);
                        (2, None, pushes)
                    },
                    None => (0, None, pushes),
                },
                None => (0, None, pushes),
            },
            EditTarget::ResizeFilter => match (params, ResizeFilter::choose_entry(i)) {
                (Some(p), Some(to)) => {
                    pushes.push(
                        QueuedCommand::Command(
                            EditorCommand::SetResizeFilter {
                                node_id,
                                from: p.resize_filter,
                                to,
                            },
                        ),
                    );
                    pushes.push(QueuedCommand::Checkpoint);
                    assert(queued_views(pushes@) =~= seq![
                        spec_queued(
                            CommandView::SetResizeFilter { node_id, from: p.resize_filter, to },
                        ),
                        QueuedCommand::Checkpoint,
                    ]);
                    (2, None, pushes)
                },
                _ => (0, None, pushes),
            },
            EditTarget::MixType => match (MixType::choose_entry(i), params) {
                (Some(to), Some(p)) => match p.mix_type {
                    Some(from) => {
                        pushes.push(
                            QueuedCommand::Command(EditorCommand::SetMixType { node_id, from, to }),
                        );
                        pushes.push(QueuedCommand::Checkpoint);
                        assert(queued_views(pushes@) =~= seq![
                            spec_queued(CommandView::SetMixType { node_id, from, to }),
                            QueuedCommand::Checkpoint,
                        ]);
                        (2, None, pushes)
                    },
                    None => (0, None, pushes),
                },
                _ => (0, None, pushes),
            },
        },
        None => if k == ScanCode::Tab {
            (3, None, pushes)
        } else {
            (0, None, pushes)
        },
    }
}

/// Picking a new value from the list of `target` for the active node `active`
/// (`None` when no node is active: nothing happens), whose current settings are
/// `params`. The keys just pressed are taken in order; the first one that does
/// something decides: a number that picks a specific size or slot switches to typing
/// it; a number that picks another value sets it, with a checkpoint; tab leaves the
/// list. A key that sets a value or leaves is no longer counted as just pressed. The
/// list of mix types is only offered for mix nodes, so a node without a mix type
/// takes no mix type from it.
pub fn edit_node_inner(
    target: Option<EditTarget>,
    active: Option<NodeId>,
    params: Option<NodeParams>,
    input: &mut ScanCodeInput,
) -> (o: InnerOutcome)
    requires
        old(input).wf(),
    ensures
        final(input).wf(),
        final(input)@.pressed == old(input)@.pressed,
        final(input)@.just_released == old(input)@.just_released,
        (target is None || active is None) ==> o.pushes@.len() == 0 && o.edit_state is None
            && !o.target_cleared && final(input)@ == old(input)@,
        target matches Some(t) ==> active matches Some(node_id) ==> exists|keys: Seq<ScanCode>|
            #![trigger keys.to_set()]
            enumerates(keys, old(input)@.just_pressed) && match first_inner_key(
                keys,
                t,
                node_id,
                params,
            ) {
                Some((k, InnerKey::GoTo(s))) => o.edit_state == Some(s) && o.pushes@.len() == 0
                    && !o.target_cleared && final(input)@ == old(input)@,
                Some((k, InnerKey::Apply(cmds))) => queued_views(o.pushes@) == cmds && o.edit_state
                    == Some(EditState::Outer) && o.target_cleared && final(input)@.just_pressed
                    == old(input)@.just_pressed.remove(k),
                Some((k, InnerKey::Done)) => o.pushes@.len() == 0 && o.edit_state == Some(
                    EditState::Outer,
                ) && o.target_cleared && final(input)@.just_pressed == old(
                    input,
                )@.just_pressed.remove(k),
                _ => o.pushes@.len() == 0 && o.edit_state is None && !o.target_cleared
                    && final(input)@ == old(input)@,
            },
{
    let empty: Vec<QueuedCommand<EditorCommand>> = Vec::new();
    let (t, node_id) = match (target, active) {
        (Some(t), Some(node_id)) => (t, node_id),
        _ => {
            return InnerOutcome { pushes: empty, edit_state: None, target_cleared: false };
        },
    };
    let keys = input.get_just_pressed();
    let mut i: usize = 0;
    proof {
        assert(keys@.skip(0) =~= keys@);
    }
    while i < keys.len()
        invariant
            i <= keys@.len(),
            first_inner_key(keys@, t, node_id, params) == first_inner_key(
                keys@.skip(i as int),
                t,
                node_id,
                params,
            ),
            input@ == old(input)@,
            input.wf(),
            enumerates(keys@, old(input)@.just_pressed),
            target == Some(t),
            active == Some(node_id),
            empty@.len() == 0,
        decreases keys@.len() - i,
    {
        let k = keys[i];
        proof {
            assert(keys@.skip(i as int)[0] == k);
            assert(keys@.skip(i as int).drop_first() =~= keys@.skip(i as int + 1));
        }
        let (what, state, pushes) = inner_key(k, t, node_id, params);
        if what == 1 {
            return InnerOutcome { pushes: empty, edit_state: state, target_cleared: false };
        } else if what == 2 {
            input.clear_just_pressed(k);
            return InnerOutcome {
                pushes,
                edit_state: Some(EditState::Outer),
                target_cleared: true,
            };
        } else if what == 3 {
            input.clear_just_pressed(k);
            return InnerOutcome {
                pushes: empty,
                edit_state: Some(EditState::Outer),
                target_cleared: true,
            };
        }
        i = i + 1;
    }
    proof {
        assert(keys@.skip(keys@.len() as int) =~= Seq::<ScanCode>::empty());
    }
    InnerOutcome { pushes: empty, edit_state: None, target_cleared: false }
}


/// Whether `s` holds the character `x` exactly once, at index `i`.
pub open spec fn only_x_at(s: Seq<char>, i: int) -> bool {
    &&& 0 <= i < s.len()
    &&& s[i] == 'x'
    &&& !s.subrange(0, i).contains('x')
    &&& !s.subrange(i + 1, s.len() as int).contains('x')
}

/// A size written as the width, `x` and the height, such as `256x256`: `x` must
/// occur exactly once, and each side must read as a `u32`.
pub open spec fn spec_string_to_size(s: Seq<char>) -> Option<Size> {
    if exists|i: int| only_x_at(s, i) {
        let i = choose|i: int| only_x_at(s, i);
        match (spec_parse_u32(s.subrange(0, i)), spec_parse_u32(s.subrange(i + 1,
            s.len() as int))) {
            (Some(width), Some(height)) => Some(Size { width, height }),
            _ => None,
        }
    } else {
        None
    }
}

proof fn lemma_only_x_at_unique(s: Seq<char>, i: int, j: int)
    requires
        only_x_at(s, i),
        only_x_at(s, j),
    ensures
        i == j,
{
    if i < j {
        assert(s.subrange(0, j)[i] == 'x');
    } else if j < i {
        assert(s.subrange(0, i)[j] == 'x');
    }
}

/// Reads a size such as `256x256` (see [`spec_string_to_size`]).
pub fn string_to_size(input: &Vec<char>) -> (r: Option<Size>)
    ensures
        r == spec_string_to_size(input@),
{
    let n = input.len();
    let mut i: usize = 0;
    while i < n && input[i] != 'x'
        invariant
            i <= n == input@.len(),
            !input@.subrange(0, i as int).contains('x'),
        decreases n - i,
    {
        assert(input@.subrange(0, i as int + 1) =~= input@.subrange(0,
            i as int).push(input@[i as int]));
        i = i + 1;
    }
    if i == n {
        assert(input@.subrange(0, n as int) =~= input@);
        assert forall|j: int| !only_x_at(input@, j) by {
            if 0 <= j < input@.len() && input@[j] == 'x' {
                assert(input@.subrange(0, n as int)[j] == 'x');
            }
        }
        return None;
    }
    let x = i;
    let mut k: usize = x + 1;
    while k < n
        invariant
            x < k <= n == input@.len(),
            input@[x as int] == 'x',
            !input@.subrange(0, x as int).contains('x'),
            !input@.subrange(x as int + 1, k as int).contains('x'),
        decreases n - k,
    {
        if input[k] == 'x' {
            proof {
                assert(input@.subrange(x as int + 1, n as int)[k - x - 1] == 'x');
                assert forall|j: int| !only_x_at(input@, j) by {
                    if only_x_at(input@, j) {
                        if j < x {
                            assert(input@.subrange(0, x as int)[j] == 'x');
                        } else if j > x {
                            assert(input@.subrange(0, j)[x as int] == 'x');
                        }
                    }
                }
            }
            return None;
        }
        assert(input@.subrange(x as int + 1, k as int + 1) =~= input@.subrange(x as int + 1,
            k as int).push(input@[k as int]));
        k = k + 1;
    }
    assert(only_x_at(input@, x as int));
    proof {
        let c = choose|j: int| only_x_at(input@, j);
        lemma_only_x_at_unique(input@, c, x as int);
    }
    match (parse_u32(input, 0, x), parse_u32(input, x + 1, n)) {
        (Some(width), Some(height)) => Some(Size { width, height }),
        _ => None,
    }
}

/// The prompt for typing a size, given the size the node is set to, if any.
pub open spec fn spec_size_prompt(current: Option<Size>) -> Seq<char> {
    match current {
        Some(size) => seq!['C', 'u', 'r', 'r', 'e', 'n', 't', ':', ' '] + decimal(
            size.width as nat,
        ) + seq!['x'] + decimal(size.height as nat) + seq!['\n', 'N', 'e', 'w', ':', ' '],
        None => seq![
            'E', 'x', 'a', 'm', 'p', 'l', 'e', ' ', 'f', 'o', 'r', 'm', 'a', 't', ':', ' ',
            '2', '5', '6', 'x', '2', '5', '6', '\n', 'N', 'e', 'w', ':', ' ',
        ],
    }
}

/// The prompt for typing a size: the current size when the node is set to a specific
/// size, else an example.
pub fn size_prompt(current: Option<Size>) -> (s: String)
    ensures
        s@ == spec_size_prompt(current),
{
    match current {
        Some(size) => {
            let mut s = String::from_str("Current: ");
            append_decimal(&mut s, size.width as usize);
            s.append("x");
            append_decimal(&mut s, size.height as usize);
            s.append("\nNew: ");
            proof {
                reveal_strlit("Current: ");
                reveal_strlit("x");
                reveal_strlit("\nNew: ");
                assert(s@ =~= spec_size_prompt(current));
            }
            s
        },
        None => {
            let s = String::from_str("Example format: 256x256\nNew: ");
            proof {
                reveal_strlit("Example format: 256x256\nNew: ");
                assert(s@ =~= spec_size_prompt(current));
            }
            s
        },
    }
}

/// A policy change to `to` for `node_id`, from `from`, followed by a checkpoint.
pub open spec fn policy_change(node_id: NodeId, from: ResizePolicy, to: ResizePolicy) -> Seq<
    QueuedCommand<CommandView>,
> {
    seq![
        spec_queued(CommandView::SetResizePolicy { node_id, from, to }),
        QueuedCommand::Checkpoint,
    ]
}

fn push_policy_change(node_id: NodeId, from: ResizePolicy, to: ResizePolicy) -> (v: Vec<
    QueuedCommand<EditorCommand>,
>)
    ensures
        queued_views(v@) == policy_change(node_id, from, to),
{
    let mut v: Vec<QueuedCommand<EditorCommand>> = Vec::new();
    v.push(QueuedCommand::Command(EditorCommand::SetResizePolicy { node_id, from, to }));
    v.push(QueuedCommand::Checkpoint);
    assert(queued_views(v@) =~= policy_change(node_id, from, to));
    v
}

/// What entering the typed `line` as a size pushes, for the node `node_id` whose
/// policy is `from` (`None` when the node cannot be read).
pub open spec fn spec_size_entered(node_id: NodeId, from: Option<ResizePolicy>,
    line: Seq<char>) -> Seq<
    QueuedCommand<CommandView>,
> {
    match (from, spec_string_to_size(line)) {
        (Some(f), Some(size)) => policy_change(node_id, f, ResizePolicy::SpecificSize(size)),
        _ => Seq::empty(),
    }
}

/// Entering a typed size: the node is set to resize to that size, with a checkpoint;
/// nothing happens when the line is no size or the node cannot be read.
pub fn size_entered(node_id: NodeId, from: Option<ResizePolicy>, line: &Vec<char>) -> (v: Vec<
    QueuedCommand<EditorCommand>,
>)
    ensures
        queued_views(v@) == spec_size_entered(node_id, from, line@),
{
    match (from, string_to_size(line)) {
        (Some(f), Some(size)) => push_policy_change(node_id, f, ResizePolicy::SpecificSize(size)),
        _ => {
            let v: Vec<QueuedCommand<EditorCommand>> = Vec::new();
            assert(queued_views(v@) =~= Seq::empty());
            v
        },
    }
}

/// The prompt for typing a slot number, given the slot the node resizes to, if any,
/// and how many input slots it has; `None` when it has none, and there is nothing to
/// pick.
pub open spec fn spec_slot_prompt(current: Option<SlotId>, n_slots: usize) -> Option<Seq<char>> {
    if n_slots == 0 {
        None
    } else {
        match current {
            Some(slot) => Some(
                seq!['C', 'u', 'r', 'r', 'e', 'n', 't', ':', ' '] + decimal(slot.0 as nat) + seq![
                    '\n',
                    'N',
                    'e',
                    'w',
                    ':',
                    ' ',
                ],
            ),
            None => Some(
                seq![
                    'A', 'v', 'a', 'i', 'l', 'a', 'b', 'l', 'e', ' ', 's', 'l', 'o', 't', 's',
                    ' ', 'a', 'r', 'e', ' ', '0', ' ', 't', 'h', 'r', 'o', 'u', 'g', 'h', ' ',
                ] + decimal(n_slots as nat) + seq![
                    '\n',
                    'C',
                    'h',
                    'o',
                    'i',
                    'c',
                    'e',
                    ':',
                    ' ',
                ],
            ),
        }
    }
}

/// The prompt for typing a slot number (see [`spec_slot_prompt`]).
pub fn slot_prompt(current: Option<SlotId>, n_slots: usize) -> (s: Option<String>)
    ensures
        s matches Some(t) ==> spec_slot_prompt(current, n_slots) == Some(t@),
        s is None <==> spec_slot_prompt(current, n_slots) is None,
{
    if n_slots == 0 {
        return None;
    }
    match current {
        Some(slot) => {
            let mut s = String::from_str("Current: ");
            append_decimal(&mut s, slot.0 as usize);
            s.append("\nNew: ");
            proof {
                reveal_strlit("Current: ");
                reveal_strlit("\nNew: ");
                assert(s@ =~= spec_slot_prompt(current, n_slots).unwrap());
            }
            Some(s)
        },
        None => {
            let mut s = String::from_str("Available slots are 0 through ");
            append_decimal(&mut s, n_slots);
            s.append("\nChoice: ");
            proof {
                reveal_strlit("Available slots are 0 through ");
                reveal_strlit("\nChoice: ");
                assert(s@ =~= spec_slot_prompt(current, n_slots).unwrap());
            }
            Some(s)
        },
    }
}

/// What entering the typed `line` as a slot number pushes, for the node `node_id`
/// whose policy is `from` (`None` when it cannot be read) and whose input slots are
/// `slots`, in order.
pub open spec fn spec_slot_entered(
    node_id: NodeId,
    from: Option<ResizePolicy>,
    slots: Seq<SlotId>,
    line: Seq<char>,
) -> Seq<QueuedCommand<CommandView>> {
    match (from, spec_parse_u32(line)) {
        (Some(f), Some(index)) => if index < slots.len() {
            policy_change(node_id, f, ResizePolicy::SpecificSlot(slots[index as int]))
        } else {
            Seq::empty()
        },
        _ => Seq::empty(),
    }
}

/// Entering a typed slot number: the node is set to resize to the input slot at that
/// place, with a checkpoint; nothing happens when the line is no number, there is no
/// such slot, or the node cannot be read.
pub fn slot_entered(
    node_id: NodeId,
    from: Option<ResizePolicy>,
    slots: &Vec<SlotId>,
    line: &Vec<char>,
) -> (v: Vec<QueuedCommand<EditorCommand>>)
    ensures
        queued_views(v@) == spec_slot_entered(node_id, from, slots@, line@),
{
    let empty: Vec<QueuedCommand<EditorCommand>> = Vec::new();
    assert(queued_views(empty@) =~= Seq::empty());
    assert(line@.subrange(0, line@.len() as int) =~= line@);
    match (from, parse_u32(line, 0, line.len())) {
        (Some(f), Some(index)) => {
            if (index as usize) < slots.len() {
                push_policy_change(node_id, f, ResizePolicy::SpecificSlot(slots[index as usize]))
            } else {
                empty
            }
        },
        _ => empty,
    }
}

/// What entering the typed `line` as a name pushes, for the node `node_id` whose
/// name is `from` (`None` when it cannot be read).
pub open spec fn spec_name_entered(node_id: NodeId, from: Option<Seq<char>>,
    line: Seq<char>) -> Seq<
    QueuedCommand<CommandView>,
> {
    match from {
        Some(f) => seq![
            spec_queued(CommandView::SetName { node_id, from: f, to: line }),
            QueuedCommand::Checkpoint,
        ],
        None => Seq::empty(),
    }
}

/// Entering a typed name: the node is renamed, with a checkpoint; nothing happens
/// when the node cannot be read.
pub fn name_entered(node_id: NodeId, from: Option<Vec<char>>, line: Vec<char>) -> (v: Vec<
    QueuedCommand<EditorCommand>,
>)
    ensures
        queued_views(v@) == spec_name_entered(
            node_id,
            match from {
                Some(f) => Some(f@),
                None => None,
            },
            line@,
        ),
{
    let mut v: Vec<QueuedCommand<EditorCommand>> = Vec::new();
    match from {
        Some(f) => {
            let ghost fv = f@;
            v.push(QueuedCommand::Command(EditorCommand::SetName { node_id, from: f, to: line }));
            v.push(QueuedCommand::Checkpoint);
            assert(queued_views(v@) =~= spec_name_entered(node_id, Some(fv), line@));
        },
        None => {
            assert(queued_views(v@) =~= Seq::empty());
        },
    }
    v
}


/// What entering a typed line means for the active node.
pub enum LineEntry {
    /// A size for `node_id`, whose policy is `from` (`None` when it cannot be read).
    Size { node_id: NodeId, from: Option<ResizePolicy> },
    /// A slot number for `node_id`, whose policy is `from` (`None` when it cannot be
    /// read) and whose input slots are `slots`, in order.
    Slot { node_id: NodeId, from: Option<ResizePolicy>, slots: Vec<SlotId> },
    /// A name for `node_id`, whose name is `from` (`None` when it cannot be read).
    Name { node_id: NodeId, from: Option<Vec<char>> },
    /// A value, which the caller reads from the entered line itself.
    Value,
}

/// Which characters the line of `entry` takes.
pub open spec fn entry_kind(entry: LineEntry) -> LineKind {
    match entry {
        LineEntry::Size { .. } => LineKind::Size,
        LineEntry::Slot { .. } => LineKind::Slot,
        LineEntry::Name { .. } => LineKind::Name,
        LineEntry::Value => LineKind::Value,
    }
}

/// What entering the one line `line` pushes for `entry`.
pub open spec fn line_pushes(entry: LineEntry, line: Seq<char>) -> Seq<QueuedCommand<CommandView>> {
    match entry {
        LineEntry::Size { node_id, from } => spec_size_entered(node_id, from, line),
        LineEntry::Slot { node_id, from, slots } => spec_slot_entered(node_id, from, slots@, line),
        LineEntry::Name { node_id, from } => spec_name_entered(
            node_id,
            match from {
                Some(f) => Some(f@),
                None => None,
            },
            line,
        ),
        LineEntry::Value => Seq::empty(),
    }
}

/// What entering the lines `lines`, in order, pushes for `entry`.
pub open spec fn entered_pushes(entry: LineEntry, lines: Seq<Seq<char>>) -> Seq<
    QueuedCommand<CommandView>,
>
    decreases lines.len(),
{
    if lines.len() == 0 {
        Seq::empty()
    } else {
        entered_pushes(entry, lines.drop_last()) + line_pushes(entry, lines.last())
    }
}

/// What a frame of typing leads to.
pub struct LineFrame {
    /// Commands to push to the back of the queue, in order.
    pub pushes: Vec<QueuedCommand<EditorCommand>>,
    /// The line as it stood at each enter, in order.
    pub entered: Vec<Vec<char>>,
    /// Whether the next frame's characters are taken.
    pub started: bool,
    /// The editing state to switch to, if any.
    pub edit_state: Option<EditState>,
}

fn entry_line_pushes(entry: &LineEntry, line: &Vec<char>) -> (v: Vec<QueuedCommand<EditorCommand>>)
    ensures
        queued_views(v@) == line_pushes(*entry, line@),
{
    match entry {
        LineEntry::Size { node_id, from } => size_entered(*node_id, *from, line),
        LineEntry::Slot { node_id, from, slots } => slot_entered(*node_id, *from, slots, line),
        LineEntry::Name { node_id, from } => {
            let f = match from {
                Some(f) => Some(copy_vec(f)),
                None => None,
            };
            name_entered(*node_id, f, copy_vec(line))
        },
        LineEntry::Value => {
            let v: Vec<QueuedCommand<EditorCommand>> = Vec::new();
            assert(queued_views(v@) =~= Seq::empty());
            v
        },
    }
}

/// One frame of typing a line for the active node (`entry`, `None` when no node is
/// active), with the characters `chars` received in it. In the frame that starts the
/// typing (`started` false) the characters belong to the key that started it: they
/// are dropped, and the next frame takes its characters. Otherwise, with a node
/// active, the characters are typed into `line` (see [`typed`]); each enter hands
/// the line as it stands over to `entry`, whose commands are pushed, and returns to
/// choosing what to edit, after which the next frame again drops its characters.
pub fn line_frame(
    entry: Option<LineEntry>,
    started: bool,
    line: &mut Vec<char>,
    chars: &Vec<char>,
) -> (f: LineFrame)
    ensures
        !started || entry is None ==> final(line)@ == old(line)@ && f.pushes@.len() == 0
            && f.entered@.len() == 0 && f.started && f.edit_state is None,
        started && entry is Some ==> {
            let e = entry.unwrap();
            let (l, lines) = typed(entry_kind(e), old(line)@, chars@);
            &&& final(line)@ == l
            &&& lines_view(f.entered@) == lines
            &&& queued_views(f.pushes@) == entered_pushes(e, lines)
            &&& lines.len() > 0 ==> f.edit_state == Some(EditState::Outer) && !f.started
            &&& lines.len() == 0 ==> f.edit_state is None && f.started
        },
{
    let no_lines: Vec<Vec<char>> = Vec::new();
    let no_pushes: Vec<QueuedCommand<EditorCommand>> = Vec::new();
    if !started {
        return LineFrame { pushes: no_pushes, entered: no_lines, started: true, edit_state: None };
    }
    let e = match entry {
        Some(e) => e,
        None => {
            return LineFrame {
                pushes: no_pushes,
                entered: no_lines,
                started: true,
                edit_state: None,
            };
        },
    };
    let kind = match &e {
        LineEntry::Size { .. } => LineKind::Size,
        LineEntry::Slot { .. } => LineKind::Slot,
        LineEntry::Name { .. } => LineKind::Name,
        LineEntry::Value => LineKind::Value,
    };
    let entered = type_line(kind, line, chars);
    let mut pushes: Vec<QueuedCommand<EditorCommand>> = Vec::new();
    let mut i: usize = 0;
    proof {
        assert(lines_view(entered@).take(0) =~= Seq::<Seq<char>>::empty());
        assert(queued_views(pushes@) =~= Seq::empty());
    }
    while i < entered.len()
        invariant
            i <= entered@.len(),
            queued_views(pushes@) == entered_pushes(e, lines_view(entered@).take(i as int)),
        decreases entered@.len() - i,
    {
        let mut more = entry_line_pushes(&e, &entered[i]);
        let ghost before = pushes@;
        let ghost added = more@;
        pushes.append(&mut more);
        proof {
            let ls = lines_view(entered@);
            assert(ls.take(i as int + 1).drop_last() =~= ls.take(i as int));
            assert(ls.take(i as int + 1).last() == entered@[i as int]@);
            assert(queued_views(before + added) =~= queued_views(before) + queued_views(added));
        }
        i = i + 1;
    }
    proof {
        assert(lines_view(entered@).take(entered@.len() as int) =~= lines_view(entered@));
    }
    if entered.len() > 0 {
        LineFrame { pushes, entered, started: false, edit_state: Some(EditState::Outer) }
    } else {
        LineFrame { pushes, entered, started: true, edit_state: None }
    }
}

/// A size written as the size prompt shows it, width, `x` and height, reads back as
/// that size.
pub proof fn lemma_size_text_round_trip(size: Size)
    ensures
        spec_string_to_size(
            decimal(size.width as nat) + seq!['x'] + decimal(size.height as nat),
        ) == Some(size),
{
    let w = decimal(size.width as nat);
    let h = decimal(size.height as nat);
    let s = w + seq!['x'] + h;
    lemma_decimal_digits(size.width as nat);
    lemma_decimal_digits(size.height as nat);
    let i = w.len() as int;
    assert(s.subrange(0, i) =~= w);
    assert(s.subrange(i + 1, s.len() as int) =~= h);
    assert(!w.contains('x')) by {
        if w.contains('x') {
            let k = choose|k: int| 0 <= k < w.len() && w[k] == 'x';
            assert(is_digit(w[k]));
        }
    }
    assert(!h.contains('x')) by {
        if h.contains('x') {
            let k = choose|k: int| 0 <= k < h.len() && h[k] == 'x';
            assert(is_digit(h[k]));
        }
    }
    assert(only_x_at(s, i));
    let c = choose|j: int| only_x_at(s, j);
    lemma_only_x_at_unique(s, c, i);
    lemma_parse_decimal(size.width);
    lemma_parse_decimal(size.height);
}

/// Typing the place of an input slot in decimal and entering it makes the node
/// resize to that slot.
pub proof fn lemma_slot_number_picks_slot(
    node_id: NodeId,
    from: ResizePolicy,
    slots: Seq<SlotId>,
    index: u32,
)
    requires
        index < slots.len(),
    ensures
        spec_slot_entered(node_id, Some(from), slots, decimal(index as nat)) == policy_change(
            node_id,
            from,
            ResizePolicy::SpecificSlot(slots[index as int]),
        ),
{
    lemma_parse_decimal(index);
}

/// Whether `c` sets the resize policy of `node_id` from `from` to the policy named
/// `name`.
pub open spec fn sets_policy(c: QueuedCommand<CommandView>, node_id: NodeId, from: ResizePolicy,
    name: Seq<char>) -> bool {
    c matches QueuedCommand::Command(CommandView::SetResizePolicy { node_id: n, from: f, to })
        && n == node_id && f == from && policy_name(to) == name
}

/// Whether `c` sets the resize filter of `node_id` from `from` to the filter named
/// `name`.
pub open spec fn sets_filter(c: QueuedCommand<CommandView>, node_id: NodeId, from: ResizeFilter,
    name: Seq<char>) -> bool {
    c matches QueuedCommand::Command(CommandView::SetResizeFilter { node_id: n, from: f, to })
        && n == node_id && f == from && filter_name(to) == name
}

/// Whether `c` sets the mix type of `node_id` from `from` to the mix type named
/// `name`.
pub open spec fn sets_mix(c: QueuedCommand<CommandView>, node_id: NodeId, from: MixType,
    name: Seq<char>) -> bool {
    c matches QueuedCommand::Command(CommandView::SetMixType { node_id: n, from: f, to })
        && n == node_id && f == from && mix_name(to) == name
}

/// Whether `r` applies one command that `ok` accepts, followed by a checkpoint.
pub open spec fn applies_one(r: InnerKey, ok: spec_fn(QueuedCommand<CommandView>) -> bool) -> bool {
    r matches InnerKey::Apply(cmds) && cmds.len() == 2 && ok(cmds[0]) && cmds[1]
        == QueuedCommand::<CommandView>::Checkpoint
}

/// Pressing the digit key of entry `k` of a shown list, for the first four entries of
/// the resize policies or any entry of the filters or mix types, sets the node's
/// parameter from its current value to the one that entry names, with a checkpoint.
/// Mix types are set only on mix nodes.
pub proof fn lemma_digit_picks_list_entry(
    k: nat,
    target: EditTarget,
    node_id: NodeId,
    p: NodeParams,
)
    requires
        1 <= k <= 4,
    ensures
        ({
            let key = key_of_char(digit_char(k)).unwrap();
            let r = spec_inner_key(key, target, node_id, Some(p));
            match target {
                EditTarget::ResizePolicy => applies_one(
                    r,
                    |c: QueuedCommand<CommandView>|
                        sets_policy(c, node_id, p.resize_policy, resize_policy_entries()[k - 1]),
                ),
                EditTarget::ResizeFilter => k <= resize_filter_entries().len() ==> applies_one(
                    r,
                    |c: QueuedCommand<CommandView>|
                        sets_filter(c, node_id, p.resize_filter, resize_filter_entries()[k - 1]),
                ),
                EditTarget::MixType => match p.mix_type {
                    Some(m) => applies_one(
                        r,
                        |c: QueuedCommand<CommandView>|
                            sets_mix(c, node_id, m, mix_type_entries()[k - 1]),
                    ),
                    None => r is Skip,
                },
            }
        }),
{
    let key = key_of_char(digit_char(k)).unwrap();
    if k == 1 {
        assert(key == ScanCode::Digit1);
    } else if k == 2 {
        assert(key == ScanCode::Digit2);
    } else if k == 3 {
        assert(key == ScanCode::Digit3);
    } else {
        assert(key == ScanCode::Digit4);
    }
}

/// While choosing what to edit, R picks from the resize policies and F from the
/// resize filters of any node; T picks from the mix types of a mix node, N renames
/// an output node and V types a value for a value node, and otherwise these do
/// nothing; Tab leaves.
pub proof fn lemma_outer_keys(kind: NodeKind)
    ensures
        spec_outer_choice(key_of_char('r').unwrap(), kind) == Some(
            OuterChoice::Pick(EditTarget::ResizePolicy),
        ),
        spec_outer_choice(key_of_char('f').unwrap(), kind) == Some(
            OuterChoice::Pick(EditTarget::ResizeFilter),
        ),
        spec_outer_choice(key_of_char('t').unwrap(), kind) == (if kind == NodeKind::Mix {
            Some(OuterChoice::Pick(EditTarget::MixType))
        } else {
            None
        }),
        spec_outer_choice(key_of_char('n').unwrap(), kind) == (if kind == NodeKind::OutputRgba {
            Some(OuterChoice::Rename)
        } else {
            None
        }),
        spec_outer_choice(key_of_char('v').unwrap(), kind) == (if kind == NodeKind::Value {
            Some(OuterChoice::TypeValue)
        } else {
            None
        }),
        spec_outer_choice(ScanCode::Tab, kind) == Some(OuterChoice::Leave),
{
}

} // verus!
