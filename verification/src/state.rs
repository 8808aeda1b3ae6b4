//! Per-window interaction state and the event dispatcher: the decision
//! logic of the host program's input handling, from plain event values to
//! camera mutations and an action for the host to carry out.

use vstd::prelude::*;
use crate::camera::{Camera, CameraMovement, mouse_moved, scrolled, keyboard_moved,
    DELTA_LIMIT, MOVE_LIMIT};
use crate::vec3::in_bounds;

verus! {

/// Largest accepted cursor coordinate, in thousandths of a screen unit.
pub const MOUSE_LIMIT: i64 = 10_000_000_000;

/// Largest accepted clock reading, in milliseconds.
pub const TIME_LIMIT: i64 = 1_000_000_000_000;

/// Mathematical (ghost) counterpart of `State`.
pub struct StateV {
    pub wireframe: bool,
    pub delta_time: int,
    pub last_frame: int,
    pub first_mouse: bool,
    pub last_mouse_x: int,
    pub last_mouse_y: int,
}

/// Interaction state kept between events: the wireframe flag, frame
/// timing, and the last cursor position. Times are in milliseconds,
/// cursor coordinates in thousandths of a screen unit.
#[derive(Clone, Copy, PartialEq, Eq, Structural, Debug)]
pub struct State {
    pub wireframe: bool,
    pub delta_time: i64,
    pub last_frame: i64,
    pub first_mouse: bool,
    pub last_mouse_x: i64,
    pub last_mouse_y: i64,
}

impl View for State {
    type V = StateV;

    open spec fn view(&self) -> StateV {
        StateV {
            wireframe: self.wireframe,
            delta_time: self.delta_time as int,
            last_frame: self.last_frame as int,
            first_mouse: self.first_mouse,
            last_mouse_x: self.last_mouse_x as int,
            last_mouse_y: self.last_mouse_y as int,
        }
    }
}

impl StateV {
    /// Well-formed: timing and cursor coordinates within machine bounds.
    pub open spec fn wf(self) -> bool {
        &&& 0 <= self.delta_time <= DELTA_LIMIT
        &&& 0 <= self.last_frame <= TIME_LIMIT
        &&& -MOUSE_LIMIT <= self.last_mouse_x <= MOUSE_LIMIT
        &&& -MOUSE_LIMIT <= self.last_mouse_y <= MOUSE_LIMIT
    }
}

/// The keys the host program reacts to.
#[derive(Clone, Copy, PartialEq, Eq, Structural, Debug)]
pub enum Key {
    W,
    A,
    S,
    D,
    F,
    Escape,
    Other,
}

/// What happened to a key.
#[derive(Clone, Copy, PartialEq, Eq, Structural, Debug)]
pub enum KeyAction {
    Press,
    Release,
    Repeat,
}

/// A window event, as plain values: a cursor position in thousandths of
/// a screen unit, a scroll offset in microdegrees, or a key event.
#[derive(Clone, Copy, PartialEq, Eq, Structural, Debug)]
pub enum WindowEvent {
    CursorPos(i64, i64),
    Scroll(i64, i64),
    Key(Key, KeyAction),
}

/// What the host must do after an event is handled.
#[derive(Clone, Copy, PartialEq, Eq, Structural, Debug)]
pub enum HostAction {
    Nothing,
    Close,
    ApplyWireframe(bool),
}

/// The state after a cursor event: the cursor remembered, the first-event
/// flag cleared.
pub open spec fn cursor_updated(s: StateV, x: int, y: int) -> StateV {
    StateV { first_mouse: false, last_mouse_x: x, last_mouse_y: y, ..s }
}

/// The look offsets a cursor event produces: the difference from the last
/// position, with the vertical axis flipped; zero on the very first
/// event, whose position only seeds the memory.
pub open spec fn cursor_offsets(s: StateV, x: int, y: int) -> (int, int) {
    if s.first_mouse {
        (0, 0)
    } else {
        (x - s.last_mouse_x, s.last_mouse_y - y)
    }
}

/// The state with the wireframe flag flipped.
pub open spec fn wireframe_toggled(s: StateV) -> StateV {
    StateV { wireframe: !s.wireframe, ..s }
}

impl State {
    /// A fresh interaction state: wireframe off, no frame seen, cursor
    /// memory seeded with the given position but marked unseeded.
    pub fn new(last_mouse_x: i64, last_mouse_y: i64) -> (s: State)
        requires
            -MOUSE_LIMIT as int <= last_mouse_x <= MOUSE_LIMIT as int,
            -MOUSE_LIMIT as int <= last_mouse_y <= MOUSE_LIMIT as int,
        ensures
            s@ == (StateV {
                wireframe: false,
                delta_time: 0,
                last_frame: 0,
                first_mouse: true,
                last_mouse_x: last_mouse_x as int,
                last_mouse_y: last_mouse_y as int,
            }),
            s@.wf(),
    {
        State {
            wireframe: false,
            delta_time: 0,
            last_frame: 0,
            first_mouse: true,
            last_mouse_x: last_mouse_x,
            last_mouse_y: last_mouse_y,
        }
    }

    /// Advances the frame clock: the elapsed time becomes the frame time,
    /// and the reading is remembered.
    pub fn update_frame_time(&mut self, current_frame: i64)
        requires
            old(self)@.wf(),
            old(self)@.last_frame <= current_frame as int <= old(self)@.last_frame
                + DELTA_LIMIT as int,
            current_frame as int <= TIME_LIMIT as int,
        ensures
            final(self)@ == (StateV {
                delta_time: current_frame as int - old(self)@.last_frame,
                last_frame: current_frame as int,
                ..old(self)@
            }),
            final(self)@.wf(),
    {
        self.delta_time = current_frame - self.last_frame;
        self.last_frame = current_frame;
    }
}

/// Flips the wireframe flag and reports the new value, for the host to
/// apply to its drawing mode.
pub fn handle_wireframe(state: &mut State) -> (now: bool)
    ensures
        final(state)@ == wireframe_toggled(old(state)@),
        now == !old(state)@.wireframe,
{
    if state.wireframe {
        state.wireframe = false;
    } else {
        state.wireframe = true;
    }
    state.wireframe
}

/// Dispatches one window event: cursor events turn the camera with the
/// pitch constrained, scroll events zoom it, and key presses move it,
/// toggle the wireframe or ask the host to close the window.
pub fn glfw_handle_event(state: &mut State, camera: &mut Camera, event: WindowEvent) -> (action:
    HostAction)
    requires
        old(state)@.wf(),
        old(camera)@.wf(),
        in_bounds(old(camera)@.position, MOVE_LIMIT as int),
        match event {
            WindowEvent::CursorPos(x, y) => -MOUSE_LIMIT as int <= x <= MOUSE_LIMIT as int
                && -MOUSE_LIMIT as int <= y <= MOUSE_LIMIT as int,
            _ => true,
        },
    ensures
        final(state)@.wf(),
        final(camera)@.wf(),
        match event {
            WindowEvent::CursorPos(x, y) => {
                &&& final(state)@ == cursor_updated(old(state)@, x as int, y as int)
                &&& final(camera)@ == mouse_moved(
                    old(camera)@,
                    cursor_offsets(old(state)@, x as int, y as int).0,
                    cursor_offsets(old(state)@, x as int, y as int).1,
                    true,
                )
                &&& action == HostAction::Nothing
            },
            WindowEvent::Scroll(_x, y) => {
                &&& final(state)@ == old(state)@
                &&& final(camera)@ == scrolled(old(camera)@, y as int)
                &&& action == HostAction::Nothing
            },
            WindowEvent::Key(key, key_action) => match (key, key_action) {
                (Key::Escape, KeyAction::Press) => {
                    &&& final(state)@ == old(state)@
                    &&& final(camera)@ == old(camera)@
                    &&& action == HostAction::Close
                },
                (Key::F, KeyAction::Press) => {
                    &&& final(state)@ == wireframe_toggled(old(state)@)
                    &&& final(camera)@ == old(camera)@
                    &&& action == HostAction::ApplyWireframe(!old(state)@.wireframe)
                },
                (Key::W, KeyAction::Press) => {
                    &&& final(state)@ == old(state)@
                    &&& final(camera)@ == keyboard_moved(
                        old(camera)@,
                        CameraMovement::FORWARD,
                        old(state)@.delta_time,
                    )
                    &&& action == HostAction::Nothing
                },
                (Key::S, KeyAction::Press) => {
                    &&& final(state)@ == old(state)@
                    &&& final(camera)@ == keyboard_moved(
                        old(camera)@,
                        CameraMovement::BACKWARD,
                        old(state)@.delta_time,
                    )
                    &&& action == HostAction::Nothing
                },
                (Key::A, KeyAction::Press) => {
                    &&& final(state)@ == old(state)@
                    &&& final(camera)@ == keyboard_moved(
                        old(camera)@,
                        CameraMovement::LEFT,
                        old(state)@.delta_time,
                    )
                    &&& action == HostAction::Nothing
                },
                (Key::D, KeyAction::Press) => {
                    &&& final(state)@ == old(state)@
                    &&& final(camera)@ == keyboard_moved(
                        old(camera)@,
                        CameraMovement::RIGHT,
                        old(state)@.delta_time,
                    )
                    &&& action == HostAction::Nothing
                },
                _ => {
                    &&& final(state)@ == old(state)@
                    &&& final(camera)@ == old(camera)@
                    &&& action == HostAction::Nothing
                },
            },
        },
{
    match event {
        WindowEvent::CursorPos(x_position, y_position) => {
            if state.first_mouse {
                state.last_mouse_x = x_position;
                state.last_mouse_y = y_position;
                state.first_mouse = false;
                camera.process_mouse_movement(0, 0, true);
            } else {
                let x_offset: i64 = x_position - state.last_mouse_x;
                let y_offset: i64 = state.last_mouse_y - y_position;
                state.last_mouse_x = x_position;
                state.last_mouse_y = y_position;
                camera.process_mouse_movement(x_offset, y_offset, true);
            }
            HostAction::Nothing
        },
        WindowEvent::Scroll(_x_offset, y_offset) => {
            camera.process_mouse_scroll(y_offset);
            HostAction::Nothing
        },
        WindowEvent::Key(key, key_action) => match (key, key_action) {
            (Key::Escape, KeyAction::Press) => HostAction::Close,
            (Key::F, KeyAction::Press) => {
                let now: bool = handle_wireframe(state);
                HostAction::ApplyWireframe(now)
            },
            (Key::W, KeyAction::Press) => {
                camera.process_keyboard(CameraMovement::FORWARD, state.delta_time);
                HostAction::Nothing
            },
            (Key::S, KeyAction::Press) => {
                camera.process_keyboard(CameraMovement::BACKWARD, state.delta_time);
                HostAction::Nothing
            },
            (Key::A, KeyAction::Press) => {
                camera.process_keyboard(CameraMovement::LEFT, state.delta_time);
                HostAction::Nothing
            },
            (Key::D, KeyAction::Press) => {
                camera.process_keyboard(CameraMovement::RIGHT, state.delta_time);
                HostAction::Nothing
            },
            _ => HostAction::Nothing,
        },
    }
}

} // verus!
