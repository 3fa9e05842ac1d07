//! Keyboard shortcuts: which tool a key switches to, deleting, cancelling, quitting
//! and toggling the first person camera.
use crate::commands::{queued_views, spec_queued, CommandView, EditorCommand};
use crate::scan_code::{key_of_char, ScanCode};
use crate::scan_code_input::ScanCodeInput;
use crate::tool::{FirstPersonState, GrabToolType, ToolState};
use crate::undo::QueuedCommand;
use vstd::prelude::*;

verus! {

/// Whether a control key is held.
pub fn control_pressed(scan_code_input: &ScanCodeInput) -> (b: bool)
    ensures
        b == (scan_code_input@.pressed.contains(ScanCode::ControlLeft)
            || scan_code_input@.pressed.contains(ScanCode::ControlRight)),
{
    scan_code_input.pressed(ScanCode::ControlLeft) || scan_code_input.pressed(
        ScanCode::ControlRight,
    )
}

/// Whether a shift key is held.
pub fn shift_pressed(scan_code_input: &ScanCodeInput) -> (b: bool)
    ensures
        b == (scan_code_input@.pressed.contains(ScanCode::ShiftLeft)
            || scan_code_input@.pressed.contains(ScanCode::ShiftRight)),
{
    scan_code_input.pressed(ScanCode::ShiftLeft) || scan_code_input.pressed(ScanCode::ShiftRight)
}

/// Whether an alt key is held.
pub fn alt_pressed(scan_code_input: &ScanCodeInput) -> (b: bool)
    ensures
        b == (scan_code_input@.pressed.contains(ScanCode::AltLeft)
            || scan_code_input@.pressed.contains(ScanCode::AltRight)),
{
    scan_code_input.pressed(ScanCode::AltLeft) || scan_code_input.pressed(ScanCode::AltRight)
}

/// Whether the user asked to cancel: escape, or the right mouse button.
pub fn cancel_just_pressed(scan_code_input: &ScanCodeInput, right_mouse_just_pressed: bool) -> (b:
    bool)
    ensures
        b == (scan_code_input@.just_pressed.contains(ScanCode::Escape) || right_mouse_just_pressed),
{
    scan_code_input.just_pressed(ScanCode::Escape) || right_mouse_just_pressed
}

/// Whether the user asked to quit: control and Q.
pub fn quit_requested(input: &ScanCodeInput) -> (b: bool)
    ensures
        b == ((input@.pressed.contains(ScanCode::ControlLeft) || input@.pressed.contains(
            ScanCode::ControlRight,
        )) && input@.just_pressed.contains(ScanCode::KeyQ)),
{
    control_pressed(input) && input.just_pressed(ScanCode::KeyQ)
}

/// Forgets the keys just pressed and released when the window loses focus.
pub fn focus_change(scan_code_input: &mut ScanCodeInput, focus_lost: bool)
    requires
        old(scan_code_input).wf(),
    ensures
        final(scan_code_input).wf(),
        final(scan_code_input)@.pressed == old(scan_code_input)@.pressed,
        focus_lost ==> final(scan_code_input)@.just_pressed == Set::<ScanCode>::empty()
            && final(scan_code_input)@.just_released == Set::<ScanCode>::empty(),
        !focus_lost ==> final(scan_code_input)@ == old(scan_code_input)@,
{
    if focus_lost {
        scan_code_input.clear();
    }
}

/// What a key does when no tool is in use.
#[derive(Clone, Copy, Debug, PartialEq, Eq, Structural)]
pub enum HotkeyEffect {
    /// Switches to a tool.
    Tool(ToolState),
    /// Deletes the selected nodes.
    Delete,
    /// Nothing.
    Ignored,
}

/// What key `k` does when no tool is in use, given the held modifier keys. Shift, alt
/// and S (or E) export the selected output nodes.
pub open spec fn spec_hotkey(k: ScanCode, control: bool, shift: bool, alt: bool) -> HotkeyEffect {
    match k {
        ScanCode::Delete | ScanCode::KeyX => HotkeyEffect::Delete,
        ScanCode::F12 => HotkeyEffect::Tool(ToolState::Process),
        ScanCode::KeyA => if shift {
            HotkeyEffect::Tool(ToolState::Add)
        } else {
            HotkeyEffect::Ignored
        },
        ScanCode::KeyE => if control {
            HotkeyEffect::Tool(ToolState::ExportOutputs(shift))
        } else if alt && shift {
            HotkeyEffect::Tool(ToolState::Export)
        } else {
            HotkeyEffect::Ignored
        },
        ScanCode::KeyS => if alt && shift {
            HotkeyEffect::Tool(ToolState::Export)
        } else {
            HotkeyEffect::Ignored
        },
        ScanCode::KeyG => HotkeyEffect::Tool(ToolState::Grab(GrabToolType::Node)),
        ScanCode::Tab => HotkeyEffect::Tool(ToolState::EditNode),
        ScanCode::KeyZ => if control {
            if shift {
                HotkeyEffect::Tool(ToolState::Redo)
            } else {
                HotkeyEffect::Tool(ToolState::Undo)
            }
        } else {
            HotkeyEffect::Ignored
        },
        _ => HotkeyEffect::Ignored,
    }
}

/// What key `k` does when no tool is in use, given the held modifier keys.
pub fn hotkey(k: ScanCode, control: bool, shift: bool, alt: bool) -> (e: HotkeyEffect)
    ensures
        e == spec_hotkey(k, control, shift, alt),
{
    match k {
        ScanCode::Delete | ScanCode::KeyX => HotkeyEffect::Delete,
        ScanCode::F12 => HotkeyEffect::Tool(ToolState::Process),
        ScanCode::KeyA => if shift {
            HotkeyEffect::Tool(ToolState::Add)
        } else {
            HotkeyEffect::Ignored
        },
        ScanCode::KeyE => if control {
            HotkeyEffect::Tool(ToolState::ExportOutputs(shift))
        } else if alt && shift {
            HotkeyEffect::Tool(ToolState::Export)
        } else {
            HotkeyEffect::Ignored
        },
        ScanCode::KeyS => if alt && shift {
            HotkeyEffect::Tool(ToolState::Export)
        } else {
            HotkeyEffect::Ignored
        },
        ScanCode::KeyG => HotkeyEffect::Tool(ToolState::Grab(GrabToolType::Node)),
        ScanCode::Tab => HotkeyEffect::Tool(ToolState::EditNode),
        ScanCode::KeyZ => if control {
            if shift {
                HotkeyEffect::Tool(ToolState::Redo)
            } else {
                HotkeyEffect::Tool(ToolState::Undo)
            }
        } else {
            HotkeyEffect::Ignored
        },
        _ => HotkeyEffect::Ignored,
    }
}

/// Going through the keys just pressed, in order: the first key that switches to a
/// tool, with that tool, and the commands pushed for the delete keys before it.
pub open spec fn scan_hotkeys(keys: Seq<ScanCode>, control: bool, shift: bool, alt: bool) -> (
    Option<(ScanCode, ToolState)>,
    Seq<QueuedCommand<CommandView>>,
)
    decreases keys.len(),
{
    if keys.len() == 0 {
        (None, Seq::empty())
    } else {
        let rest = scan_hotkeys(keys.drop_first(), control, shift, alt);
        match spec_hotkey(keys[0], control, shift, alt) {
            HotkeyEffect::Tool(t) => (Some((keys[0], t)), Seq::empty()),
            HotkeyEffect::Delete => (
                rest.0,
                seq![spec_queued(CommandView::DeleteSelected), QueuedCommand::Checkpoint] + rest.1,
            ),
            HotkeyEffect::Ignored => rest,
        }
    }
}

/// What the hotkeys of a frame lead to.
pub struct HotkeyOutcome {
    /// The first person state to switch to, if any.
    pub first_person: Option<FirstPersonState>,
    /// The tool to switch to, if any.
    pub tool: Option<ToolState>,
    /// Commands to push to the back of the queue, in order.
    pub pushes: Vec<QueuedCommand<EditorCommand>>,
}

/// Handles the hotkeys of a frame. Backquote toggles the first person camera. When no
/// tool is in use, the keys just pressed are taken in order: the delete keys delete
/// the selection, and the first key that picks a tool switches to it and is no longer
/// counted as just pressed. While a tool is in use, escape or the right mouse button
/// cancels what the tool did and leaves it.
pub fn hotkeys(
    first_person: FirstPersonState,
    tool: ToolState,
    right_mouse_just_pressed: bool,
    sc_input: &mut ScanCodeInput,
) -> (o: HotkeyOutcome)
    requires
        old(sc_input).wf(),
    ensures
        final(sc_input).wf(),
        o.first_person == if old(sc_input)@.just_pressed.contains(ScanCode::Backquote) {
            Some(
                if first_person == FirstPersonState::Off {
                    FirstPersonState::On
                } else {
                    FirstPersonState::Off
                },
            )
        } else {
            None
        },
        tool == ToolState::Idle ==> exists|keys: Seq<ScanCode>|
            #![trigger keys.to_set()]
            {
                &&& keys.to_set() == old(sc_input)@.just_pressed
                &&& keys.no_duplicates()
                &&& ({
                    let control = old(sc_input)@.pressed.contains(ScanCode::ControlLeft)
                        || old(sc_input)@.pressed.contains(ScanCode::ControlRight);
                    let shift = old(sc_input)@.pressed.contains(ScanCode::ShiftLeft)
                        || old(sc_input)@.pressed.contains(ScanCode::ShiftRight);
                    let alt = old(sc_input)@.pressed.contains(ScanCode::AltLeft)
                        || old(sc_input)@.pressed.contains(ScanCode::AltRight);
                    let (picked, pushes) = scan_hotkeys(keys, control, shift, alt);
                    &&& queued_views(o.pushes@) == pushes
                    &&& match picked {
                        Some((k, t)) => {
                            &&& o.tool == Some(t)
                            &&& final(sc_input)@.just_pressed
                                == old(sc_input)@.just_pressed.remove(k)
                        },
                        None => {
                            &&& o.tool is None
                            &&& final(sc_input)@.just_pressed == old(sc_input)@.just_pressed
                        },
                    }
                })
            },
        tool == ToolState::Idle ==> final(sc_input)@.pressed == old(sc_input)@.pressed
            && final(sc_input)@.just_released == old(sc_input)@.just_released,
        tool != ToolState::Idle ==> final(sc_input)@ == old(sc_input)@,
        tool != ToolState::Idle && (old(sc_input)@.just_pressed.contains(ScanCode::Escape)
            || right_mouse_just_pressed) ==> o.tool == Some(ToolState::Idle) && queued_views(
            o.pushes@,
        ) == seq![QueuedCommand::<CommandView>::Cancel],
        tool != ToolState::Idle && !(old(sc_input)@.just_pressed.contains(ScanCode::Escape)
            || right_mouse_just_pressed) ==> o.tool is None && o.pushes@.len() == 0,
{
    let first_person_new = if sc_input.just_pressed(ScanCode::Backquote) {
        Some(first_person.toggled())
    } else {
        None
    };
    let mut pushes: Vec<QueuedCommand<EditorCommand>> = Vec::new();
    let mut new_tool: Option<ToolState> = None;
    if tool == ToolState::Idle {
        let control = control_pressed(sc_input);
        let shift = shift_pressed(sc_input);
        let alt = alt_pressed(sc_input);
        let keys = sc_input.get_just_pressed();
        let mut picked: Option<(ScanCode, ToolState)> = None;
        let mut i: usize = 0;
        proof {
            assert(keys@.skip(0) =~= keys@);
            assert(queued_views(pushes@) + scan_hotkeys(keys@, control, shift, alt).1
                =~= scan_hotkeys(keys@, control, shift, alt).1);
        }
        while i < keys.len() && picked.is_none()
            invariant
                i <= keys@.len(),
                picked is None ==> scan_hotkeys(keys@, control, shift, alt) == ({
                    let rest = scan_hotkeys(keys@.skip(i as int), control, shift, alt);
                    (rest.0, queued_views(pushes@) + rest.1)
                }),
                picked matches Some(p) ==> scan_hotkeys(keys@, control, shift, alt) == (
                    Some(p),
                    queued_views(pushes@),
                ),
            decreases keys@.len() - i,
        {
            let k = keys[i];
            proof {
                assert(keys@.skip(i as int)[0] == k);
                assert(keys@.skip(i as int).drop_first() =~= keys@.skip(i as int + 1));
            }
            match hotkey(k, control, shift, alt) {
                HotkeyEffect::Tool(t) => {
                    picked = Some((k, t));
                    assert(queued_views(pushes@) + Seq::<QueuedCommand<CommandView>>::empty()
                        =~= queued_views(pushes@));
                },
                HotkeyEffect::Delete => {
                    let ghost before = pushes@;
                    pushes.push(QueuedCommand::Custom(EditorCommand::DeleteSelected));
                    pushes.push(QueuedCommand::Checkpoint);
                    assert(queued_views(pushes@) =~= queued_views(before) + seq![
                        spec_queued(CommandView::DeleteSelected),
                        QueuedCommand::Checkpoint,
                    ]);
                    assert(queued_views(pushes@) + scan_hotkeys(keys@.skip(i as int + 1),
                        control, shift, alt).1
                        =~= queued_views(before) + (seq![
                        spec_queued(CommandView::DeleteSelected),
                        QueuedCommand::Checkpoint,
                    ] + scan_hotkeys(keys@.skip(i as int + 1), control, shift, alt).1));
                },
                HotkeyEffect::Ignored => {},
            }
            i = i + 1;
        }
        if let Some((k, t)) = picked {
            sc_input.clear_just_pressed(k);
            new_tool = Some(t);
        }
        proof {
            if picked is None {
                assert(keys@.skip(keys@.len() as int) =~= Seq::<ScanCode>::empty());
                assert(queued_views(pushes@) + Seq::<QueuedCommand<CommandView>>::empty()
                    =~= queued_views(pushes@));
            }
            assert(keys@.to_set() == old(sc_input)@.just_pressed);
        }
    } else if cancel_just_pressed(sc_input, right_mouse_just_pressed) {
        pushes.push(QueuedCommand::Cancel);
        new_tool = Some(ToolState::Idle);
        assert(queued_views(pushes@) =~= seq![QueuedCommand::<CommandView>::Cancel]);
    }
    HotkeyOutcome { first_person: first_person_new, tool: new_tool, pushes }
}

/// The undo and redo tools queue their command and hand back to no tool.
pub fn undo_redo_tool(tool: ToolState) -> (r: Option<(QueuedCommand<EditorCommand>, ToolState)>)
    ensures
        tool == ToolState::Undo ==> (r matches Some((QueuedCommand::Undo, ToolState::Idle))),
        tool == ToolState::Redo ==> (r matches Some((QueuedCommand::Redo, ToolState::Idle))),
        tool != ToolState::Undo && tool != ToolState::Redo ==> r is None,
{
    match tool {
        ToolState::Undo => Some((QueuedCommand::Undo, ToolState::Idle)),
        ToolState::Redo => Some((QueuedCommand::Redo, ToolState::Idle)),
        _ => None,
    }
}

/// With control held, the key marked Z undoes, and redoes when shift is held too; the
/// key marked X and the delete key delete the selection whatever modifiers are held.
pub proof fn lemma_undo_redo_delete_keys(control: bool, shift: bool, alt: bool)
    ensures
        key_of_char('z') matches Some(z) && spec_hotkey(z, true, false, alt) == HotkeyEffect::Tool(
            ToolState::Undo,
        ) && spec_hotkey(z, true, true, alt) == HotkeyEffect::Tool(ToolState::Redo),
        key_of_char('x') matches Some(x) && spec_hotkey(x, control, shift, alt)
            == HotkeyEffect::Delete,
        spec_hotkey(ScanCode::Delete, control, shift, alt) == HotkeyEffect::Delete,
{
}

} // verus!
