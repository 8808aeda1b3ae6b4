use glcamera::camera::Camera;
use glcamera::state::{glfw_handle_event, handle_wireframe, HostAction, Key, KeyAction, State,
    WindowEvent};
use glcamera::vec3::Vec3;

fn setup() -> (State, Camera) {
    let state = State::new(400_000, 300_000);
    let camera = Camera::new(
        Vec3 { x: 0, y: 0, z: 3000 },
        Vec3 { x: 0, y: 1000, z: 0 },
        -90_000_000,
        0,
    );
    (state, camera)
}

#[test]
fn new_state_starts_clean() {
    let s = State::new(400_000, 300_000);
    assert!(!s.wireframe);
    assert!(s.first_mouse);
    assert_eq!(s.delta_time, 0);
    assert_eq!(s.last_frame, 0);
    assert_eq!(s.last_mouse_x, 400_000);
    assert_eq!(s.last_mouse_y, 300_000);
}

#[test]
fn frame_time_measures_the_gap() {
    let mut s = State::new(0, 0);
    s.update_frame_time(16);
    assert_eq!(s.delta_time, 16);
    assert_eq!(s.last_frame, 16);
    s.update_frame_time(49);
    assert_eq!(s.delta_time, 33);
    assert_eq!(s.last_frame, 49);
}

#[test]
fn wireframe_toggles_back_and_forth() {
    let mut s = State::new(0, 0);
    assert!(handle_wireframe(&mut s));
    assert!(s.wireframe);
    assert!(!handle_wireframe(&mut s));
    assert!(!s.wireframe);
}

#[test]
fn first_cursor_event_only_seeds_the_memory() {
    let (mut state, mut camera) = setup();
    let action = glfw_handle_event(
        &mut state,
        &mut camera,
        WindowEvent::CursorPos(500_000, 200_000),
    );
    assert_eq!(action, HostAction::Nothing);
    assert!(!state.first_mouse);
    assert_eq!(state.last_mouse_x, 500_000);
    assert_eq!(state.last_mouse_y, 200_000);
    assert_eq!(camera.yaw, 270_000_000);
    assert_eq!(camera.pitch, 0);
}

#[test]
fn second_cursor_event_turns_the_camera() {
    let (mut state, mut camera) = setup();
    glfw_handle_event(&mut state, &mut camera, WindowEvent::CursorPos(400_000, 300_000));
    // 100 screen units right and 50 up, at 0.1 degrees per unit
    glfw_handle_event(&mut state, &mut camera, WindowEvent::CursorPos(500_000, 250_000));
    assert_eq!(camera.yaw, 280_000_000);
    assert_eq!(camera.pitch, 5_000_000);
    assert_eq!(state.last_mouse_x, 500_000);
    assert_eq!(state.last_mouse_y, 250_000);
}

#[test]
fn scroll_event_zooms() {
    let (mut state, mut camera) = setup();
    let action = glfw_handle_event(&mut state, &mut camera, WindowEvent::Scroll(0, 5_000_000));
    assert_eq!(action, HostAction::Nothing);
    assert_eq!(camera.zoom, 40_000_000);
}

#[test]
fn escape_asks_to_close() {
    let (mut state, mut camera) = setup();
    let action = glfw_handle_event(
        &mut state,
        &mut camera,
        WindowEvent::Key(Key::Escape, KeyAction::Press),
    );
    assert_eq!(action, HostAction::Close);
}

#[test]
fn f_press_toggles_wireframe() {
    let (mut state, mut camera) = setup();
    let action = glfw_handle_event(
        &mut state,
        &mut camera,
        WindowEvent::Key(Key::F, KeyAction::Press),
    );
    assert_eq!(action, HostAction::ApplyWireframe(true));
    assert!(state.wireframe);
    let action = glfw_handle_event(
        &mut state,
        &mut camera,
        WindowEvent::Key(Key::F, KeyAction::Press),
    );
    assert_eq!(action, HostAction::ApplyWireframe(false));
    assert!(!state.wireframe);
}

#[test]
fn w_press_moves_forward_by_the_frame_time() {
    let (mut state, mut camera) = setup();
    state.update_frame_time(1000);
    let action = glfw_handle_event(
        &mut state,
        &mut camera,
        WindowEvent::Key(Key::W, KeyAction::Press),
    );
    assert_eq!(action, HostAction::Nothing);
    assert_eq!(camera.position, Vec3 { x: 0, y: 0, z: 500 });
}

#[test]
fn released_and_unknown_keys_do_nothing() {
    let (mut state, mut camera) = setup();
    state.update_frame_time(1000);
    let before = camera;
    let a1 = glfw_handle_event(
        &mut state,
        &mut camera,
        WindowEvent::Key(Key::W, KeyAction::Release),
    );
    let a2 = glfw_handle_event(
        &mut state,
        &mut camera,
        WindowEvent::Key(Key::Other, KeyAction::Press),
    );
    assert_eq!(a1, HostAction::Nothing);
    assert_eq!(a2, HostAction::Nothing);
    assert_eq!(camera, before);
}
