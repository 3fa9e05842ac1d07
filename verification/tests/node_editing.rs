use kanter::commands::EditorCommand;
use kanter::graph::{NodeId, SlotId};
use kanter::node::{MixType, NodeKind, ResizeFilter, ResizePolicy, Size};
use kanter::node_edit::{
    edit_node_inner, edit_node_outer, line_frame, name_entered, outer_choice, size_entered,
    size_prompt, slot_entered, slot_prompt, string_to_size, EditState, EditTarget, LineEntry,
    NodeParams, OuterChoice,
};
use kanter::scan_code::ScanCode;
use kanter::scan_code_input::ScanCodeInput;
use kanter::text::{edit_line, parse_u32, type_line, LineKind};
use kanter::tool::ToolState;
use kanter::undo::QueuedCommand;

fn chars(s: &str) -> Vec<char> {
    s.chars().collect()
}

#[test]
fn size_reads_width_x_height() {
    assert_eq!(string_to_size(&chars("256x128")), Some(Size { width: 256, height: 128 }));
    assert_eq!(string_to_size(&chars("1x1")), Some(Size { width: 1, height: 1 }));
    assert_eq!(string_to_size(&chars("+2x3")), Some(Size { width: 2, height: 3 }));
}

#[test]
fn size_rejects_other_text() {
    assert_eq!(string_to_size(&chars("")), None);
    assert_eq!(string_to_size(&chars("256")), None);
    assert_eq!(string_to_size(&chars("256x")), None);
    assert_eq!(string_to_size(&chars("x256")), None);
    assert_eq!(string_to_size(&chars("2x2x2")), None);
    assert_eq!(string_to_size(&chars("axb")), None);
    assert_eq!(string_to_size(&chars("4294967296x1")), None);
    assert_eq!(
        string_to_size(&chars("4294967295x1")),
        Some(Size { width: 4294967295, height: 1 })
    );
}

#[test]
fn size_prompt_round_trip() {
    let size = Size { width: 640, height: 48 };
    let prompt = size_prompt(Some(size));
    assert_eq!(prompt, "Current: 640x48\nNew: ");
    let shown = &prompt["Current: ".len()..prompt.len() - "\nNew: ".len()];
    assert_eq!(string_to_size(&chars(shown)), Some(size));
    assert_eq!(size_prompt(None), "Example format: 256x256\nNew: ");
}

#[test]
fn parse_numbers() {
    let v = chars("a12345b");
    assert_eq!(parse_u32(&v, 1, 6), Some(12345));
    assert_eq!(parse_u32(&v, 0, 6), None);
    assert_eq!(parse_u32(&v, 1, 1), None);
    assert_eq!(parse_u32(&chars("+"), 0, 1), None);
    assert_eq!(parse_u32(&chars("0042"), 0, 4), Some(42));
    assert_eq!(parse_u32(&chars("4294967295"), 0, 10), Some(u32::MAX));
    assert_eq!(parse_u32(&chars("4294967296"), 0, 10), None);
}

#[test]
fn typing_a_size_line() {
    let mut line = Vec::new();
    let entered = type_line(LineKind::Size, &mut line, &chars("12a\u{8}3x4\r5"));
    assert_eq!(entered, vec![chars("13x4")]);
    assert_eq!(line, chars("13x45"));
}

#[test]
fn typing_takes_only_what_the_line_takes() {
    let mut slot = Vec::new();
    type_line(LineKind::Slot, &mut slot, &chars("1x.2"));
    assert_eq!(slot, chars("12"));
    let mut value = Vec::new();
    type_line(LineKind::Value, &mut value, &chars("0.5x"));
    assert_eq!(value, chars("0.5"));
    let mut name = Vec::new();
    type_line(LineKind::Name, &mut name, &chars("Out put"));
    assert_eq!(name, chars("Out put"));
}

#[test]
fn backspace_takes_back_a_character() {
    let mut line = chars("ab");
    edit_line(LineKind::Name, &mut line, 'c');
    edit_line(LineKind::Name, &mut line, '\u{8}');
    assert_eq!(line, chars("ab"));
    let mut empty = Vec::new();
    edit_line(LineKind::Name, &mut empty, '\u{8}');
    assert!(empty.is_empty());
}

#[test]
fn entering_a_size() {
    let v = size_entered(NodeId(4), Some(ResizePolicy::MostPixels), &chars("64x32"));
    assert_eq!(
        v,
        vec![
            QueuedCommand::Command(EditorCommand::SetResizePolicy {
                node_id: NodeId(4),
                from: ResizePolicy::MostPixels,
                to: ResizePolicy::SpecificSize(Size { width: 64, height: 32 }),
            }),
            QueuedCommand::Checkpoint,
        ]
    );
    assert!(size_entered(NodeId(4), Some(ResizePolicy::MostPixels), &chars("64")).is_empty());
    assert!(size_entered(NodeId(4), None, &chars("64x32")).is_empty());
}

#[test]
fn entering_a_slot() {
    let slots = vec![SlotId(7), SlotId(9)];
    let v = slot_entered(NodeId(1), Some(ResizePolicy::LeastPixels), &slots, &chars("1"));
    assert_eq!(
        v,
        vec![
            QueuedCommand::Command(EditorCommand::SetResizePolicy {
                node_id: NodeId(1),
                from: ResizePolicy::LeastPixels,
                to: ResizePolicy::SpecificSlot(SlotId(9)),
            }),
            QueuedCommand::Checkpoint,
        ]
    );
    assert!(slot_entered(NodeId(1), Some(ResizePolicy::LeastPixels), &slots, &chars("2")).is_empty());
    assert!(slot_entered(NodeId(1), Some(ResizePolicy::LeastPixels), &slots, &chars("")).is_empty());
    assert!(slot_entered(NodeId(1), None, &slots, &chars("0")).is_empty());
}

#[test]
fn slot_prompts() {
    assert_eq!(slot_prompt(None, 0), None);
    assert_eq!(slot_prompt(Some(SlotId(3)), 0), None);
    assert_eq!(slot_prompt(Some(SlotId(3)), 4), Some("Current: 3\nNew: ".to_string()));
    assert_eq!(slot_prompt(None, 2), Some("Available slots are 0 through 2\nChoice: ".to_string()));
}

#[test]
fn entering_a_name() {
    let v = name_entered(NodeId(2), Some(chars("old")), chars("new"));
    assert_eq!(
        v,
        vec![
            QueuedCommand::Command(EditorCommand::SetName {
                node_id: NodeId(2),
                from: chars("old"),
                to: chars("new"),
            }),
            QueuedCommand::Checkpoint,
        ]
    );
    assert!(name_entered(NodeId(2), None, chars("new")).is_empty());
}

#[test]
fn outer_choices() {
    assert_eq!(outer_choice(ScanCode::KeyN, NodeKind::OutputRgba), Some(OuterChoice::Rename));
    assert_eq!(outer_choice(ScanCode::KeyN, NodeKind::Value), None);
    assert_eq!(outer_choice(ScanCode::Tab, NodeKind::Image), Some(OuterChoice::Leave));
    assert_eq!(
        outer_choice(ScanCode::KeyR, NodeKind::Image),
        Some(OuterChoice::Pick(EditTarget::ResizePolicy))
    );
    assert_eq!(
        outer_choice(ScanCode::KeyT, NodeKind::Mix),
        Some(OuterChoice::Pick(EditTarget::MixType))
    );
    assert_eq!(outer_choice(ScanCode::KeyT, NodeKind::Value), None);
    assert_eq!(outer_choice(ScanCode::KeyV, NodeKind::Value), Some(OuterChoice::TypeValue));
}

#[test]
fn outer_edit_picks_a_list() {
    let mut input = ScanCodeInput::new();
    input.press(ScanCode::KeyF);
    let o = edit_node_outer(Some(NodeKind::Image), &mut input);
    assert_eq!(o.edit_state, Some(EditState::Inner));
    assert_eq!(o.target, Some(EditTarget::ResizeFilter));
    assert_eq!(o.tool, None);
    assert!(!input.just_pressed(ScanCode::KeyF));
}

#[test]
fn outer_edit_without_active_node_leaves() {
    let mut input = ScanCodeInput::new();
    let o = edit_node_outer(None, &mut input);
    assert_eq!(o.tool, Some(ToolState::Idle));
}

#[test]
fn outer_edit_tab_leaves() {
    let mut input = ScanCodeInput::new();
    input.press(ScanCode::Tab);
    let o = edit_node_outer(Some(NodeKind::Value), &mut input);
    assert_eq!(o.tool, Some(ToolState::Idle));
}

#[test]
fn inner_edit_sets_filter() {
    let mut input = ScanCodeInput::new();
    input.press(ScanCode::Digit2);
    let params = NodeParams {
        resize_policy: ResizePolicy::MostPixels,
        resize_filter: ResizeFilter::Nearest,
        mix_type: None,
    };
    let o = edit_node_inner(
        Some(EditTarget::ResizeFilter),
        Some(NodeId(5)),
        Some(params),
        &mut input,
    );
    assert_eq!(
        o.pushes,
        vec![
            QueuedCommand::Command(EditorCommand::SetResizeFilter {
                node_id: NodeId(5),
                from: ResizeFilter::Nearest,
                to: ResizeFilter::Triangle,
            }),
            QueuedCommand::Checkpoint,
        ]
    );
    assert_eq!(o.edit_state, Some(EditState::Outer));
    assert!(o.target_cleared);
    assert!(!input.just_pressed(ScanCode::Digit2));
}

#[test]
fn inner_edit_specific_size_goes_to_typing() {
    let mut input = ScanCodeInput::new();
    input.press(ScanCode::Digit6);
    let o = edit_node_inner(Some(EditTarget::ResizePolicy), Some(NodeId(5)), None, &mut input);
    assert_eq!(o.edit_state, Some(EditState::Size));
    assert!(o.pushes.is_empty());
    assert!(!o.target_cleared);
    let mut slot_input = ScanCodeInput::new();
    slot_input.press(ScanCode::Numpad5);
    let p = edit_node_inner(Some(EditTarget::ResizePolicy), Some(NodeId(5)), None, &mut slot_input);
    assert_eq!(p.edit_state, Some(EditState::Slot));
}

#[test]
fn inner_edit_mix_type() {
    let mut input = ScanCodeInput::new();
    input.press(ScanCode::Digit3);
    let params = NodeParams {
        resize_policy: ResizePolicy::MostPixels,
        resize_filter: ResizeFilter::Nearest,
        mix_type: Some(MixType::Add),
    };
    let o = edit_node_inner(Some(EditTarget::MixType), Some(NodeId(8)), Some(params), &mut input);
    assert_eq!(
        o.pushes,
        vec![
            QueuedCommand::Command(EditorCommand::SetMixType {
                node_id: NodeId(8),
                from: MixType::Add,
                to: MixType::Multiply,
            }),
            QueuedCommand::Checkpoint,
        ]
    );
}

#[test]
fn inner_edit_tab_is_done() {
    let mut input = ScanCodeInput::new();
    input.press(ScanCode::Tab);
    let o = edit_node_inner(Some(EditTarget::MixType), Some(NodeId(8)), None, &mut input);
    assert!(o.pushes.is_empty());
    assert_eq!(o.edit_state, Some(EditState::Outer));
    assert!(o.target_cleared);
}

#[test]
fn lists_and_choices() {
    assert_eq!(
        ResizePolicy::list(),
        "## Resize policy\n1: MostPixels\n2: LeastPixels\n3: LargestAxes\n4: SmallestAxes\n5: SpecificSlot\n6: SpecificSize\n"
    );
    assert_eq!(ResizeFilter::list(), "## Resize filter\n1: Nearest\n2: Triangle\n");
    assert_eq!(MixType::list(), "## Mix Type\n1: Add\n2: Subtract\n3: Multiply\n4: Divide\n");
    assert_eq!(EditTarget::MixType.list(), MixType::list());
    assert_eq!(
        ResizePolicy::choose_entry(0),
        Some(ResizePolicy::SpecificSize(Size { width: 128, height: 128 }))
    );
    assert_eq!(ResizePolicy::choose_entry(1), Some(ResizePolicy::MostPixels));
    assert_eq!(ResizePolicy::choose_entry(4), Some(ResizePolicy::SmallestAxes));
    assert_eq!(
        ResizePolicy::choose_entry(6),
        Some(ResizePolicy::SpecificSize(Size { width: 128, height: 128 }))
    );
    assert_eq!(ResizePolicy::choose_entry(7), None);
    assert_eq!(ResizeFilter::choose_entry(1), Some(ResizeFilter::Nearest));
    assert_eq!(ResizeFilter::choose_entry(2), Some(ResizeFilter::Triangle));
    assert_eq!(ResizeFilter::choose_entry(3), None);
    assert_eq!(MixType::choose_entry(4), Some(MixType::Divide));
    assert_eq!(MixType::choose_entry(5), None);
}

#[test]
fn inner_edit_choice_zero_types_a_size() {
    let mut input = ScanCodeInput::new();
    input.press(ScanCode::Digit0);
    let o = edit_node_inner(Some(EditTarget::ResizePolicy), Some(NodeId(5)), None, &mut input);
    assert_eq!(o.edit_state, Some(EditState::Size));
    assert!(o.pushes.is_empty());
}

#[test]
fn line_first_frame_is_dropped() {
    let mut line = chars("12");
    let entry = LineEntry::Size { node_id: NodeId(3), from: Some(ResizePolicy::MostPixels) };
    let f = line_frame(Some(entry), false, &mut line, &chars("9x9\r"));
    assert_eq!(line, chars("12"));
    assert!(f.pushes.is_empty());
    assert!(f.entered.is_empty());
    assert!(f.started);
    assert_eq!(f.edit_state, None);
}

#[test]
fn line_size_enter_returns_to_outer() {
    let mut line = Vec::new();
    let entry = LineEntry::Size { node_id: NodeId(3), from: Some(ResizePolicy::MostPixels) };
    let f = line_frame(Some(entry), true, &mut line, &chars("64xa32\r"));
    assert_eq!(line, chars("64x32"));
    assert_eq!(f.entered, vec![chars("64x32")]);
    assert_eq!(
        f.pushes,
        vec![
            QueuedCommand::Command(EditorCommand::SetResizePolicy {
                node_id: NodeId(3),
                from: ResizePolicy::MostPixels,
                to: ResizePolicy::SpecificSize(Size { width: 64, height: 32 }),
            }),
            QueuedCommand::Checkpoint,
        ]
    );
    assert!(!f.started);
    assert_eq!(f.edit_state, Some(EditState::Outer));
}

#[test]
fn line_without_enter_keeps_typing() {
    let mut line = chars("6");
    let entry = LineEntry::Size { node_id: NodeId(3), from: Some(ResizePolicy::MostPixels) };
    let f = line_frame(Some(entry), true, &mut line, &chars("4x\u{8}"));
    assert_eq!(line, chars("64"));
    assert!(f.pushes.is_empty());
    assert!(f.started);
    assert_eq!(f.edit_state, None);
}

#[test]
fn line_slot_out_of_range_still_returns() {
    let mut line = Vec::new();
    let entry = LineEntry::Slot {
        node_id: NodeId(4),
        from: Some(ResizePolicy::MostPixels),
        slots: vec![SlotId(0), SlotId(1)],
    };
    let f = line_frame(Some(entry), true, &mut line, &chars("7\r"));
    assert!(f.pushes.is_empty());
    assert_eq!(f.entered, vec![chars("7")]);
    assert!(!f.started);
    assert_eq!(f.edit_state, Some(EditState::Outer));
    let mut line = Vec::new();
    let entry = LineEntry::Slot {
        node_id: NodeId(4),
        from: Some(ResizePolicy::MostPixels),
        slots: vec![SlotId(0), SlotId(5)],
    };
    let f = line_frame(Some(entry), true, &mut line, &chars("1\r"));
    assert_eq!(
        f.pushes,
        vec![
            QueuedCommand::Command(EditorCommand::SetResizePolicy {
                node_id: NodeId(4),
                from: ResizePolicy::MostPixels,
                to: ResizePolicy::SpecificSlot(SlotId(5)),
            }),
            QueuedCommand::Checkpoint,
        ]
    );
}

#[test]
fn line_without_active_node_does_nothing() {
    let mut line = chars("3");
    let f = line_frame(None, true, &mut line, &chars("4\r"));
    assert_eq!(line, chars("3"));
    assert!(f.pushes.is_empty());
    assert!(f.started);
    assert_eq!(f.edit_state, None);
}

#[test]
fn line_name_and_value_entries() {
    let mut line = chars("out");
    let entry = LineEntry::Name { node_id: NodeId(2), from: Some(chars("out")) };
    let f = line_frame(Some(entry), true, &mut line, &chars("put\r"));
    assert_eq!(
        f.pushes,
        vec![
            QueuedCommand::Command(EditorCommand::SetName {
                node_id: NodeId(2),
                from: chars("out"),
                to: chars("output"),
            }),
            QueuedCommand::Checkpoint,
        ]
    );
    let mut line = Vec::new();
    let f = line_frame(Some(LineEntry::Value), true, &mut line, &chars("0.5\r"));
    assert!(f.pushes.is_empty());
    assert_eq!(f.entered, vec![chars("0.5")]);
    assert_eq!(f.edit_state, Some(EditState::Outer));
}
