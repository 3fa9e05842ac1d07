use kanter::commands::EditorCommand;
use kanter::hotkeys::{
    alt_pressed, cancel_just_pressed, control_pressed, focus_change, hotkey, hotkeys,
    quit_requested, shift_pressed, undo_redo_tool, HotkeyEffect,
};
use kanter::scan_code::ScanCode;
use kanter::scan_code_input::{KeySet, KeyboardEvent, ScanCodeInput};
use kanter::tool::{FirstPersonState, GrabToolType, ToolState};
use kanter::undo::QueuedCommand;

#[test]
fn scan_code_numbers() {
    assert_eq!(ScanCode::Escape.code(), 1);
    assert_eq!(ScanCode::KeyA.code(), 30);
    assert_eq!(ScanCode::F12.code(), 88);
    assert_eq!(ScanCode::Pause.code(), 57433);
    assert_eq!(ScanCode::from_u32(30), Some(ScanCode::KeyA));
    assert_eq!(ScanCode::from_u32(88), Some(ScanCode::F12));
    assert_eq!(ScanCode::from_u32(57427), Some(ScanCode::Delete));
    assert_eq!(ScanCode::from_u32(57373), Some(ScanCode::ControlRight));
    assert_eq!(ScanCode::from_u32(u32::MAX), None);
    assert_eq!(ScanCode::from_u32(84), None);
}

#[test]
fn scan_code_round_trip() {
    let keys = [
        ScanCode::Error,
        ScanCode::Digit0,
        ScanCode::Tab,
        ScanCode::KeyZ,
        ScanCode::Numpad5,
        ScanCode::Delete,
        ScanCode::ArrowDown,
        ScanCode::NumpadEnter,
    ];
    for k in keys {
        assert_eq!(ScanCode::from_u32(k.code()), Some(k));
    }
}

#[test]
fn scan_code_digits() {
    assert!(ScanCode::Digit7.is_number());
    assert!(ScanCode::Numpad0.is_number());
    assert!(!ScanCode::KeyA.is_number());
    assert_eq!(ScanCode::Digit0.to_usize(), Some(0));
    assert_eq!(ScanCode::Digit9.to_usize(), Some(9));
    assert_eq!(ScanCode::Numpad3.to_usize(), Some(3));
    assert_eq!(ScanCode::Tab.to_usize(), None);
}

#[test]
fn key_set_has_no_duplicates() {
    let mut s = KeySet::new();
    assert!(s.insert(ScanCode::KeyA));
    assert!(!s.insert(ScanCode::KeyA));
    assert!(s.insert(ScanCode::KeyB));
    assert_eq!(s.to_vec(), vec![ScanCode::KeyA, ScanCode::KeyB]);
    assert!(s.remove(ScanCode::KeyA));
    assert!(!s.remove(ScanCode::KeyA));
    assert!(!s.contains(ScanCode::KeyA));
    s.clear();
    assert!(s.to_vec().is_empty());
}

#[test]
fn press_and_release() {
    let mut i = ScanCodeInput::new();
    i.press(ScanCode::KeyG);
    assert!(i.pressed(ScanCode::KeyG));
    assert!(i.just_pressed(ScanCode::KeyG));
    i.press(ScanCode::KeyG);
    assert_eq!(i.get_just_pressed(), vec![ScanCode::KeyG]);
    i.release(ScanCode::KeyG);
    assert!(!i.pressed(ScanCode::KeyG));
    assert!(i.just_released(ScanCode::KeyG));
    assert!(i.get_pressed().is_empty());
}

#[test]
fn clear_and_reset() {
    let mut i = ScanCodeInput::new();
    i.press(ScanCode::KeyA);
    i.press(ScanCode::KeyB);
    assert!(i.clear_just_pressed(ScanCode::KeyA));
    assert!(!i.clear_just_pressed(ScanCode::KeyA));
    assert!(i.pressed(ScanCode::KeyA));
    i.release(ScanCode::KeyB);
    assert!(i.clear_just_released(ScanCode::KeyB));
    i.press(ScanCode::KeyC);
    i.reset(ScanCode::KeyC);
    assert!(!i.pressed(ScanCode::KeyC));
    assert!(!i.just_pressed(ScanCode::KeyC));
    i.press(ScanCode::KeyD);
    i.reset_vec(vec![ScanCode::KeyA, ScanCode::KeyD]);
    assert!(i.get_pressed().is_empty());
    i.press(ScanCode::KeyE);
    i.clear();
    assert!(i.pressed(ScanCode::KeyE));
    assert!(i.get_just_pressed().is_empty());
    assert!(i.get_just_released().is_empty());
}

#[test]
fn grab_input_reports_unknown_codes() {
    let mut i = ScanCodeInput::new();
    i.press(ScanCode::KeyQ);
    let events = vec![
        KeyboardEvent { scan_code: 30, pressed: true },
        KeyboardEvent { scan_code: 9999, pressed: true },
        KeyboardEvent { scan_code: 16, pressed: false },
    ];
    let unknown = i.grab_input(&events);
    assert_eq!(unknown, vec![9999]);
    assert!(i.pressed(ScanCode::KeyA));
    assert!(i.just_pressed(ScanCode::KeyA));
    assert!(!i.pressed(ScanCode::KeyQ));
    assert!(i.just_released(ScanCode::KeyQ));
}

#[test]
fn modifiers() {
    let mut i = ScanCodeInput::new();
    assert!(!control_pressed(&i));
    i.press(ScanCode::ControlRight);
    i.press(ScanCode::ShiftLeft);
    i.press(ScanCode::AltRight);
    assert!(control_pressed(&i));
    assert!(shift_pressed(&i));
    assert!(alt_pressed(&i));
    assert!(!quit_requested(&i));
    i.press(ScanCode::KeyQ);
    assert!(quit_requested(&i));
    assert!(!cancel_just_pressed(&i, false));
    assert!(cancel_just_pressed(&i, true));
    i.press(ScanCode::Escape);
    assert!(cancel_just_pressed(&i, false));
}

#[test]
fn focus_loss_forgets_fresh_keys() {
    let mut i = ScanCodeInput::new();
    i.press(ScanCode::KeyA);
    focus_change(&mut i, false);
    assert!(i.just_pressed(ScanCode::KeyA));
    focus_change(&mut i, true);
    assert!(!i.just_pressed(ScanCode::KeyA));
    assert!(i.pressed(ScanCode::KeyA));
}

#[test]
fn hotkey_table() {
    assert_eq!(hotkey(ScanCode::KeyX, false, false, false), HotkeyEffect::Delete);
    assert_eq!(hotkey(ScanCode::Delete, false, false, false), HotkeyEffect::Delete);
    assert_eq!(hotkey(ScanCode::KeyA, false, true, false), HotkeyEffect::Tool(ToolState::Add));
    assert_eq!(hotkey(ScanCode::KeyA, false, false, false), HotkeyEffect::Ignored);
    assert_eq!(
        hotkey(ScanCode::KeyE, true, true, false),
        HotkeyEffect::Tool(ToolState::ExportOutputs(true))
    );
    assert_eq!(
        hotkey(ScanCode::KeyE, true, false, false),
        HotkeyEffect::Tool(ToolState::ExportOutputs(false))
    );
    assert_eq!(hotkey(ScanCode::KeyE, false, true, true), HotkeyEffect::Tool(ToolState::Export));
    assert_eq!(hotkey(ScanCode::KeyS, false, true, true), HotkeyEffect::Tool(ToolState::Export));
    assert_eq!(hotkey(ScanCode::KeyS, false, true, false), HotkeyEffect::Ignored);
    assert_eq!(hotkey(ScanCode::KeyS, false, false, false), HotkeyEffect::Ignored);
    assert_eq!(
        hotkey(ScanCode::KeyG, false, false, false),
        HotkeyEffect::Tool(ToolState::Grab(GrabToolType::Node))
    );
    assert_eq!(hotkey(ScanCode::KeyZ, true, false, false), HotkeyEffect::Tool(ToolState::Undo));
    assert_eq!(hotkey(ScanCode::KeyZ, true, true, false), HotkeyEffect::Tool(ToolState::Redo));
    assert_eq!(hotkey(ScanCode::KeyZ, false, false, false), HotkeyEffect::Ignored);
    assert_eq!(hotkey(ScanCode::F12, false, false, false), HotkeyEffect::Tool(ToolState::Process));
    assert_eq!(hotkey(ScanCode::Tab, false, false, false), HotkeyEffect::Tool(ToolState::EditNode));
}

#[test]
fn hotkeys_pick_tool_and_consume_key() {
    let mut i = ScanCodeInput::new();
    i.press(ScanCode::KeyG);
    let o = hotkeys(FirstPersonState::Off, ToolState::Idle, false, &mut i);
    assert_eq!(o.tool, Some(ToolState::Grab(GrabToolType::Node)));
    assert_eq!(o.first_person, None);
    assert!(o.pushes.is_empty());
    assert!(!i.just_pressed(ScanCode::KeyG));
    assert!(i.pressed(ScanCode::KeyG));
}

#[test]
fn hotkeys_delete_selection() {
    let mut i = ScanCodeInput::new();
    i.press(ScanCode::KeyX);
    let o = hotkeys(FirstPersonState::Off, ToolState::Idle, false, &mut i);
    assert_eq!(o.tool, None);
    assert_eq!(
        o.pushes,
        vec![QueuedCommand::Custom(EditorCommand::DeleteSelected), QueuedCommand::Checkpoint]
    );
}

#[test]
fn hotkeys_toggle_first_person() {
    let mut i = ScanCodeInput::new();
    i.press(ScanCode::Backquote);
    let o = hotkeys(FirstPersonState::Off, ToolState::Idle, false, &mut i);
    assert_eq!(o.first_person, Some(FirstPersonState::On));
}

#[test]
fn hotkeys_cancel_a_tool() {
    let mut i = ScanCodeInput::new();
    i.press(ScanCode::Escape);
    let o = hotkeys(FirstPersonState::Off, ToolState::BoxSelect, false, &mut i);
    assert_eq!(o.tool, Some(ToolState::Idle));
    assert_eq!(o.pushes, vec![QueuedCommand::Cancel]);
    let mut j = ScanCodeInput::new();
    let p = hotkeys(FirstPersonState::On, ToolState::Add, false, &mut j);
    assert_eq!(p.tool, None);
    assert!(p.pushes.is_empty());
}

#[test]
fn undo_and_redo_tools() {
    assert_eq!(undo_redo_tool(ToolState::Undo), Some((QueuedCommand::Undo, ToolState::Idle)));
    assert_eq!(undo_redo_tool(ToolState::Redo), Some((QueuedCommand::Redo, ToolState::Idle)));
    assert_eq!(undo_redo_tool(ToolState::Add), None);
}

#[test]
fn first_person_toggles() {
    assert_eq!(FirstPersonState::default_state(), FirstPersonState::Off);
    assert_eq!(FirstPersonState::Off.toggled(), FirstPersonState::On);
    assert_eq!(FirstPersonState::On.toggled(), FirstPersonState::Off);
    assert_eq!(ToolState::default_state(), ToolState::Idle);
}

#[test]
fn tool_transitions() {
    assert_eq!(ToolState::after_export_outputs(true), ToolState::Idle);
    assert_eq!(ToolState::after_export_outputs(false), ToolState::ExportOutputs(true));
    let grab = ToolState::Grab(GrabToolType::Slot);
    assert_eq!(grab.after_grab_setup(true), grab);
    assert_eq!(grab.after_grab_setup(false), ToolState::Idle);
}

#[test]
fn shift_alt_s_exports_selected_outputs() {
    let mut i = ScanCodeInput::new();
    i.press(ScanCode::ShiftLeft);
    i.press(ScanCode::AltLeft);
    i.clear();
    i.press(ScanCode::KeyS);
    let o = hotkeys(FirstPersonState::Off, ToolState::Idle, false, &mut i);
    assert_eq!(o.tool, Some(ToolState::Export));
    assert!(!i.just_pressed(ScanCode::KeyS));
}
