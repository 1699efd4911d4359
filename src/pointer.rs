//! What the viewer makes of the left mouse button and the cursor: a drag
//! turns the camera, a double click picks a new focus point.
//!
//! Positions are not held here: the caller keeps the last cursor position and
//! this state only records whether one is known since the button last changed.
use vstd::prelude::*;

verus! {

/// Two presses closer together than this, in microseconds, are a double click.
pub const DOUBLE_CLICK_MICROS: u64 = 300_000;

#[derive(Clone, Copy, Debug, PartialEq, Eq, Structural)]
pub struct PointerState {
    /// The left button is down.
    pub dragging: bool,
    /// A cursor position has been seen since the button last changed.
    pub has_cursor: bool,
    /// Time of the last press, in microseconds on the caller's clock.
    pub last_press: Option<u64>,
}

#[derive(Clone, Copy, Debug, PartialEq, Eq, Structural)]
pub enum PointerEvent {
    /// The left button went down at `now`, in microseconds on the caller's clock.
    Press { now: u64 },
    /// The left button went up.
    Release,
    /// The cursor moved; the caller records the new position after this step.
    CursorMoved,
}

#[derive(Clone, Copy, Debug, PartialEq, Eq, Structural)]
pub enum PointerAction {
    Nothing,
    /// Pick a focus point under the last known cursor position.
    Pick,
    /// Turn the camera by the move from the last known cursor position.
    Drag,
}

/// A press at `now` follows the previous one closely enough to be a double
/// click. A clock that went backwards counts as no time elapsed.
pub open spec fn is_double_click(last_press: Option<u64>, now: u64) -> bool {
    match last_press {
        Some(t) => (if now >= t { now - t } else { 0 }) < DOUBLE_CLICK_MICROS,
        None => false,
    }
}

/// The state after an event, and what the viewer should do.
pub open spec fn transition(s: PointerState, e: PointerEvent) -> (PointerState, PointerAction) {
    match e {
        PointerEvent::Press { now } => (
            PointerState { dragging: true, has_cursor: false, last_press: Some(now) },
            if is_double_click(s.last_press, now) && s.has_cursor {
                PointerAction::Pick
            } else {
                PointerAction::Nothing
            },
        ),
        PointerEvent::Release => (
            PointerState { dragging: false, has_cursor: false, last_press: s.last_press },
            PointerAction::Nothing,
        ),
        PointerEvent::CursorMoved => (
            PointerState { has_cursor: true, ..s },
            if s.dragging && s.has_cursor {
                PointerAction::Drag
            } else {
                PointerAction::Nothing
            },
        ),
    }
}

impl PointerState {
    /// Button up, no cursor position known, no press seen yet.
    pub fn new() -> (r: PointerState)
        ensures
            r == (PointerState { dragging: false, has_cursor: false, last_press: None }),
    {
        PointerState { dragging: false, has_cursor: false, last_press: None }
    }

    /// Takes one event and says what the viewer should do about it.
    pub fn handle(&mut self, e: PointerEvent) -> (a: PointerAction)
        ensures
            (*final(self), a) == transition(*old(self), e),
    {
        match e {
            PointerEvent::Press { now } => {
                let double = match self.last_press {
                    Some(t) => now.saturating_sub(t) < DOUBLE_CLICK_MICROS,
                    None => false,
                };
                let action = if double && self.has_cursor {
                    PointerAction::Pick
                } else {
                    PointerAction::Nothing
                };
                self.dragging = true;
                self.has_cursor = false;
                self.last_press = Some(now);
                action
            },
            PointerEvent::Release => {
                self.dragging = false;
                self.has_cursor = false;
                PointerAction::Nothing
            },
            PointerEvent::CursorMoved => {
                let action = if self.dragging && self.has_cursor {
                    PointerAction::Drag
                } else {
                    PointerAction::Nothing
                };
                self.has_cursor = true;
                action
            },
        }
    }
}

} // verus!
