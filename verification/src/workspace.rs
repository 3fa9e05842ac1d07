//! The drag state of the workspace: a press of the left mouse button that moves far
//! enough starts a drag, which lasts until the button is released.
use vstd::prelude::*;

verus! {

/// Where a drag with the left mouse button stands.
#[derive(Clone, Copy, Debug, PartialEq, Eq, Structural)]
pub enum Drag {
    /// No drag.
    False,
    /// A drag begins in this frame.
    Starting,
    /// A drag is going on.
    True,
    /// A drag ends in this frame.
    Dropping,
}

/// The drag state at the start of the program.
pub fn default_drag() -> (d: Drag)
    ensures
        d == Drag::False,
{
    Drag::False
}

/// Whether the workspace cursor follows the mouse in this frame: it stays where the
/// button went down until a drag has started.
pub fn cursor_follows(drag: Drag, left_pressed: bool) -> (b: bool)
    ensures
        b == (!left_pressed || drag == Drag::True),
{
    !left_pressed || drag == Drag::True
}

/// The drag state of the next frame.
pub open spec fn spec_next_drag(
    drag: Drag,
    left_pressed: bool,
    left_just_released: bool,
    beyond_threshold: bool,
) -> Drag {
    let d1 = if drag == Drag::Dropping {
        Drag::False
    } else if drag == Drag::Starting {
        Drag::True
    } else {
        drag
    };
    let d2 = if left_just_released && d1 == Drag::True {
        Drag::Dropping
    } else {
        d1
    };
    if left_pressed && beyond_threshold && d2 == Drag::False {
        Drag::Starting
    } else {
        d2
    }
}

/// The drag state of the next frame: a drop or a start lasts one frame; a drag ends
/// when the button is released; a drag starts when the button is held and the
/// mouse has moved beyond the threshold (`beyond_threshold`).
pub fn next_drag(drag: Drag, left_pressed: bool, left_just_released: bool,
    beyond_threshold: bool) -> (d:
    Drag)
    ensures
        d == spec_next_drag(drag, left_pressed, left_just_released, beyond_threshold),
{
    let mut d = drag;
    if d == Drag::Dropping {
        d = Drag::False;
    } else if d == Drag::Starting {
        d = Drag::True;
    }
    if left_just_released && d == Drag::True {
        d = Drag::Dropping;
    }
    if left_pressed && beyond_threshold && d == Drag::False {
        d = Drag::Starting;
    }
    d
}

/// A drag starts and drops in one frame each: the frame after a start is a drag or a
/// drop, and the frame after a drop is no drag, or the start of a new one.
pub proof fn lemma_drag_edges_last_one_frame(pressed: bool, released: bool, beyond: bool)
    ensures
        spec_next_drag(Drag::Starting, pressed, released, beyond) == Drag::True || spec_next_drag(
            Drag::Starting,
            pressed,
            released,
            beyond,
        ) == Drag::Dropping,
        spec_next_drag(Drag::Dropping, pressed, released, beyond) == Drag::False || spec_next_drag(
            Drag::Dropping,
            pressed,
            released,
            beyond,
        ) == Drag::Starting,
{
}

/// Drags go in order: no drag, start, drag, drop; a drag only ends when the button is
/// released, and only starts while it is held.
pub proof fn lemma_drag_order(drag: Drag, pressed: bool, released: bool, beyond: bool)
    ensures
        ({
            let d = spec_next_drag(drag, pressed, released, beyond);
            &&& d == Drag::Dropping ==> released && (drag == Drag::True || drag == Drag::Starting)
            &&& d == Drag::Starting ==> pressed && (drag == Drag::False || drag == Drag::Dropping)
            &&& drag == Drag::True && !released ==> d == Drag::True
        }),
{
}

} // verus!
