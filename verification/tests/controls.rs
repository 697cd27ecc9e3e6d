use physics_sim::controls::{apply_key, handle_window_event, Action, Key, Request};
use physics_sim::model::primitive::{Circle, Color};
use physics_sim::model::Primitive;
use physics_sim::renderer::{FrameRecorder, Renderer, SurfaceProperties};
use physics_sim::simulation::{Inputs, Simulation};

const HOME: ((i64, i64), (i64, i64)) = ((0, 0), (100, 100));

fn simulation() -> Simulation<FrameRecorder> {
    let properties =
        SurfaceProperties { dimensions: (1024, 1024), num_samples: 0, stencil_bits: 8 };
    Simulation::new(FrameRecorder::new(&properties).unwrap())
}

fn after(start: Inputs, key: Key, action: Action) -> Inputs {
    let mut inputs = start;
    apply_key(&mut inputs, key, action);
    inputs
}

fn moving() -> Inputs {
    Inputs {
        view_region_scroll_speed: (1, -1),
        view_region_scroll_speed_multiplier: 50,
        view_region_zoom_speed: 1,
        view_region_zoom_speed_multiplier: 2,
    }
}

const ALL_KEYS: [Key; 9] = [
    Key::Escape,
    Key::Kp2,
    Key::Kp4,
    Key::Kp5,
    Key::Kp6,
    Key::Kp7,
    Key::Kp8,
    Key::Kp9,
    Key::Other,
];

#[test]
fn pressing_nine_zooms_in_and_seven_zooms_out() {
    let rest = Inputs::default();
    assert_eq!(after(rest, Key::Kp9, Action::Press).view_region_zoom_speed, 1);
    assert_eq!(after(rest, Key::Kp7, Action::Press).view_region_zoom_speed, -1);
}

#[test]
fn releasing_a_zoom_key_stops_zooming() {
    assert_eq!(after(moving(), Key::Kp9, Action::Release).view_region_zoom_speed, 0);
    assert_eq!(after(moving(), Key::Kp7, Action::Release).view_region_zoom_speed, 0);
}

#[test]
fn pressing_a_direction_scrolls_along_its_axis() {
    let rest = Inputs::default();
    assert_eq!(after(rest, Key::Kp4, Action::Press).view_region_scroll_speed, (-1, 0));
    assert_eq!(after(rest, Key::Kp6, Action::Press).view_region_scroll_speed, (1, 0));
    assert_eq!(after(rest, Key::Kp8, Action::Press).view_region_scroll_speed, (0, 1));
    assert_eq!(after(rest, Key::Kp2, Action::Press).view_region_scroll_speed, (0, -1));
}

#[test]
fn pressing_a_direction_keeps_the_other_axis() {
    assert_eq!(after(moving(), Key::Kp4, Action::Press).view_region_scroll_speed, (-1, -1));
    assert_eq!(after(moving(), Key::Kp8, Action::Press).view_region_scroll_speed, (1, 1));
}

#[test]
fn releasing_a_direction_stops_its_axis() {
    assert_eq!(after(moving(), Key::Kp4, Action::Release).view_region_scroll_speed, (0, -1));
    assert_eq!(after(moving(), Key::Kp6, Action::Release).view_region_scroll_speed, (0, -1));
    assert_eq!(after(moving(), Key::Kp8, Action::Release).view_region_scroll_speed, (1, 0));
    assert_eq!(after(moving(), Key::Kp2, Action::Release).view_region_scroll_speed, (1, 0));
}

#[test]
fn keys_change_only_their_own_speed() {
    let zoomed = after(moving(), Key::Kp7, Action::Press);
    assert_eq!(zoomed, Inputs { view_region_zoom_speed: -1, ..moving() });
    let scrolled = after(moving(), Key::Kp6, Action::Release);
    assert_eq!(scrolled, Inputs { view_region_scroll_speed: (0, -1), ..moving() });
}

#[test]
fn repeats_and_unbound_keys_change_nothing() {
    for key in ALL_KEYS {
        assert_eq!(after(moving(), key, Action::Repeat), moving());
    }
    for action in [Action::Press, Action::Release, Action::Repeat] {
        assert_eq!(after(moving(), Key::Other, action), moving());
        assert_eq!(after(moving(), Key::Escape, action), moving());
        assert_eq!(after(moving(), Key::Kp5, action), moving());
    }
}

#[test]
fn only_pressing_escape_asks_to_close() {
    for key in ALL_KEYS {
        for action in [Action::Press, Action::Release, Action::Repeat] {
            let mut simulation = simulation();
            let request = handle_window_event(key, action, HOME, &mut simulation);
            let expected = if key == Key::Escape && action == Action::Press {
                Request::Close
            } else {
                Request::Continue
            };
            assert_eq!(request, expected);
        }
    }
}

#[test]
fn releasing_five_returns_the_view_home() {
    let mut simulation = simulation();
    simulation.renderer.set_physics_region((7, 7), (9, 9)).unwrap();
    assert_eq!(
        handle_window_event(Key::Kp5, Action::Release, HOME, &mut simulation),
        Request::Continue
    );
    assert_eq!(simulation.renderer.get_physics_view_region(), HOME);
}

#[test]
fn nothing_else_moves_the_view() {
    for key in ALL_KEYS {
        for action in [Action::Press, Action::Release, Action::Repeat] {
            if key == Key::Kp5 && action == Action::Release {
                continue;
            }
            let mut simulation = simulation();
            simulation.renderer.set_physics_region((7, 7), (9, 9)).unwrap();
            handle_window_event(key, action, HOME, &mut simulation);
            assert_eq!(simulation.renderer.get_physics_view_region(), ((7, 7), (9, 9)));
        }
    }
}

#[test]
fn home_without_extent_is_not_installed() {
    let mut simulation = simulation();
    simulation.renderer.set_physics_region((7, 7), (9, 9)).unwrap();
    handle_window_event(Key::Kp5, Action::Release, ((0, 0), (0, 100)), &mut simulation);
    assert_eq!(simulation.renderer.get_physics_view_region(), ((7, 7), (9, 9)));
}

#[test]
fn events_reach_the_inputs_of_the_simulation() {
    let mut simulation = simulation();
    handle_window_event(Key::Kp6, Action::Press, HOME, &mut simulation);
    handle_window_event(Key::Kp9, Action::Press, HOME, &mut simulation);
    assert_eq!(simulation.inputs.view_region_scroll_speed, (1, 0));
    assert_eq!(simulation.inputs.view_region_zoom_speed, 1);
    handle_window_event(Key::Kp6, Action::Release, HOME, &mut simulation);
    handle_window_event(Key::Kp9, Action::Release, HOME, &mut simulation);
    assert_eq!(simulation.inputs, Inputs::default());
}

#[test]
fn events_leave_scene_and_bodies_alone() {
    let mut simulation = simulation();
    let shape = Primitive::Circle(Circle { origin: (0, 0), radius: 2, color: Color::white() });
    let object = simulation.add_object_with_model_at_pos(shape, (25, 25)).unwrap();
    for key in ALL_KEYS {
        handle_window_event(key, Action::Press, HOME, &mut simulation);
        handle_window_event(key, Action::Release, HOME, &mut simulation);
    }
    assert_eq!(simulation.scene.objects(), &vec![object]);
    assert_eq!(simulation.physics.len(), 1);
}
