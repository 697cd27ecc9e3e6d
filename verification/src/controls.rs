//! The keyboard bindings.
//!
//! Keys of the numeric pad steer the view while they are held: 4, 6, 8 and 2
//! scroll left, right, up and down; 9 zooms in and 7 zooms out. Releasing 5
//! returns the view to its home region. Escape asks for the window to close.

use vstd::prelude::*;
use crate::renderer::Renderer;
use crate::simulation::{Inputs, Simulation};
use crate::view::Region;

verus! {

/// The keys that are bound, and one value for all the others.
#[derive(Clone, Copy, Debug, PartialEq, Eq)]
pub enum Key {
    Escape,
    Kp2,
    Kp4,
    Kp5,
    Kp6,
    Kp7,
    Kp8,
    Kp9,
    Other,
}

/// What happened to a key.
#[derive(Clone, Copy, Debug, PartialEq, Eq)]
pub enum Action {
    Release,
    Press,
    Repeat,
}

/// What the window is asked to do after an event.
#[derive(Clone, Copy, Debug, PartialEq, Eq)]
pub enum Request {
    Continue,
    Close,
}

/// The inputs after a key event: a press sets one speed to one step in the
/// key's direction, a release sets it back to zero, and everything else
/// leaves the inputs as they are.
pub open spec fn after_key(inputs: Inputs, key: Key, action: Action) -> Inputs {
    match (key, action) {
        (Key::Kp9, Action::Press) => Inputs { view_region_zoom_speed: 1i32, ..inputs },
        (Key::Kp7, Action::Press) => Inputs { view_region_zoom_speed: -1i32, ..inputs },
        (Key::Kp9, Action::Release) | (Key::Kp7, Action::Release) => Inputs {
            view_region_zoom_speed: 0i32,
            ..inputs
        },
        (Key::Kp4, Action::Press) => Inputs {
            view_region_scroll_speed: (-1i32, inputs.view_region_scroll_speed.1),
            ..inputs
        },
        (Key::Kp6, Action::Press) => Inputs {
            view_region_scroll_speed: (1i32, inputs.view_region_scroll_speed.1),
            ..inputs
        },
        (Key::Kp8, Action::Press) => Inputs {
            view_region_scroll_speed: (inputs.view_region_scroll_speed.0, 1i32),
            ..inputs
        },
        (Key::Kp2, Action::Press) => Inputs {
            view_region_scroll_speed: (inputs.view_region_scroll_speed.0, -1i32),
            ..inputs
        },
        (Key::Kp4, Action::Release) | (Key::Kp6, Action::Release) => Inputs {
            view_region_scroll_speed: (0i32, inputs.view_region_scroll_speed.1),
            ..inputs
        },
        (Key::Kp8, Action::Release) | (Key::Kp2, Action::Release) => Inputs {
            view_region_scroll_speed: (inputs.view_region_scroll_speed.0, 0i32),
            ..inputs
        },
        _ => inputs,
    }
}

/// Whether a key event returns the view to its home region.
pub open spec fn resets_view(key: Key, action: Action) -> bool {
    key == Key::Kp5 && action == Action::Release
}

/// Applies a key event to the inputs.
pub fn apply_key(inputs: &mut Inputs, key: Key, action: Action)
    ensures
        *final(inputs) == after_key(*old(inputs), key, action),
{
    match (key, action) {
        (Key::Kp9, Action::Press) => {
            inputs.view_region_zoom_speed = 1;
        },
        (Key::Kp7, Action::Press) => {
            inputs.view_region_zoom_speed = -1;
        },
        (Key::Kp9, Action::Release) | (Key::Kp7, Action::Release) => {
            inputs.view_region_zoom_speed = 0;
        },
        (Key::Kp4, Action::Press) => {
            inputs.view_region_scroll_speed.0 = -1;
        },
        (Key::Kp6, Action::Press) => {
            inputs.view_region_scroll_speed.0 = 1;
        },
        (Key::Kp8, Action::Press) => {
            inputs.view_region_scroll_speed.1 = 1;
        },
        (Key::Kp2, Action::Press) => {
            inputs.view_region_scroll_speed.1 = -1;
        },
        (Key::Kp4, Action::Release) | (Key::Kp6, Action::Release) => {
            inputs.view_region_scroll_speed.0 = 0;
        },
        (Key::Kp8, Action::Release) | (Key::Kp2, Action::Release) => {
            inputs.view_region_scroll_speed.1 = 0;
        },
        _ => {},
    }
}

/// Handles one key event: changes the inputs as the bindings say, returns
/// the view to `home` when 5 is released, and asks for the window to close
/// when Escape is pressed. A home region without width or height is not
/// installed.
pub fn handle_window_event<R: Renderer>(
    key: Key,
    action: Action,
    home: Region,
    simulation: &mut Simulation<R>,
) -> (request: Request)
    ensures
        request == (if key == Key::Escape && action == Action::Press {
            Request::Close
        } else {
            Request::Continue
        }),
        final(simulation).inputs == after_key(old(simulation).inputs, key, action),
        final(simulation).scene == old(simulation).scene,
        final(simulation).physics == old(simulation).physics,
        final(simulation).renderer.state() == (if resets_view(key, action) {
            old(simulation).renderer.state().with_region(home.0, home.1)
        } else {
            old(simulation).renderer.state()
        }),
{
    apply_key(&mut simulation.inputs, key, action);
    match (key, action) {
        (Key::Escape, Action::Press) => Request::Close,
        (Key::Kp5, Action::Release) => {
            let _ = simulation.renderer.set_physics_region(home.0, home.1);
            Request::Continue
        },
        _ => Request::Continue,
    }
}

} // verus!
