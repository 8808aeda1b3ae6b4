use glcamera::camera::{Camera, CameraMovement, SPEED, SENSITIVITY, ZOOM};
use glcamera::vec3::Vec3;

fn default_camera() -> Camera {
    Camera::new(
        Vec3 { x: 0, y: 0, z: 3000 },
        Vec3 { x: 0, y: 1000, z: 0 },
        -90_000_000,
        0,
    )
}

fn norm2(v: Vec3) -> i64 {
    v.x * v.x + v.y * v.y + v.z * v.z
}

fn dot(a: Vec3, b: Vec3) -> i64 {
    a.x * b.x + a.y * b.y + a.z * b.z
}

#[test]
fn new_sets_defaults() {
    let cam = default_camera();
    assert_eq!(cam.movement_speed, SPEED);
    assert_eq!(cam.mouse_sensitivity, SENSITIVITY);
    assert_eq!(cam.zoom, ZOOM);
    assert_eq!(cam.position, Vec3 { x: 0, y: 0, z: 3000 });
    assert_eq!(cam.world_up, Vec3 { x: 0, y: 1000, z: 0 });
    // yaw is stored reduced to [0, 360) degrees
    assert_eq!(cam.yaw, 270_000_000);
    assert_eq!(cam.pitch, 0);
}

#[test]
fn new_reduces_winding_angles() {
    let cam = Camera::new(
        Vec3 { x: 0, y: 0, z: 0 },
        Vec3 { x: 0, y: 1000, z: 0 },
        730_000_000,
        -450_000_000,
    );
    assert_eq!(cam.yaw, 10_000_000);
    assert_eq!(cam.pitch, -90_000_000);
}

#[test]
fn initial_orientation_faces_negative_z() {
    let cam = default_camera();
    assert_eq!(cam.front, Vec3 { x: 0, y: 0, z: -1000 });
    assert_eq!(cam.right, Vec3 { x: 1000, y: 0, z: 0 });
    assert_eq!(cam.up, Vec3 { x: 0, y: 1000, z: 0 });
}

#[test]
fn front_stays_unit_length() {
    let angles = [
        (0i64, 0i64),
        (270_000_000, 0),
        (123_456_789, 45_000_000),
        (300_000_000, -88_000_000),
        (45_000_000, 30_000_000),
        (359_999_999, -179_999_999),
    ];
    for (yaw, pitch) in angles {
        let cam = Camera::new(
            Vec3 { x: 0, y: 0, z: 0 },
            Vec3 { x: 0, y: 1000, z: 0 },
            yaw,
            pitch,
        );
        let n2 = norm2(cam.front);
        assert!(
            (994000..=1004025).contains(&n2),
            "norm2 of front at yaw {yaw} pitch {pitch} is {n2}"
        );
    }
}

#[test]
fn right_and_up_stay_unit_length_while_pitch_is_clamped() {
    let angles = [
        (0i64, 0i64),
        (270_000_000, 88_000_000),
        (123_456_789, -88_999_999),
        (45_000_000, 30_000_000),
    ];
    for (yaw, pitch) in angles {
        let cam = Camera::new(
            Vec3 { x: 0, y: 0, z: 0 },
            Vec3 { x: 0, y: 1000, z: 0 },
            yaw,
            pitch,
        );
        for v in [cam.right, cam.up] {
            let n2 = norm2(v);
            assert!(
                (994000..=1004025).contains(&n2),
                "norm2 at yaw {yaw} pitch {pitch} is {n2}"
            );
        }
    }
}

#[test]
fn basis_stays_orthogonal() {
    let angles = [
        (0i64, 0i64),
        (270_000_000, 0),
        (123_456_789, 45_000_000),
        (300_000_000, -88_000_000),
        (45_000_000, 30_000_000),
    ];
    for (yaw, pitch) in angles {
        let mut cam = Camera::new(
            Vec3 { x: 0, y: 0, z: 0 },
            Vec3 { x: 0, y: 1000, z: 0 },
            yaw,
            pitch,
        );
        cam.process_mouse_movement(333_000, -777_000, true);
        assert!(dot(cam.front, cam.right).abs() < 3000);
        assert!(dot(cam.front, cam.up).abs() < 3000);
        assert!(dot(cam.right, cam.up).abs() < 3000);
    }
}

#[test]
fn scroll_saturates_at_one_degree() {
    let mut cam = default_camera();
    assert_eq!(cam.zoom, 45_000_000);
    cam.process_mouse_scroll(100_000_000);
    assert_eq!(cam.zoom, 1_000_000);
}

#[test]
fn scroll_saturates_at_forty_five_degrees() {
    let mut cam = default_camera();
    cam.process_mouse_scroll(100_000_000);
    assert_eq!(cam.zoom, 1_000_000);
    cam.process_mouse_scroll(-100_000_000);
    assert_eq!(cam.zoom, 45_000_000);
}

#[test]
fn scroll_subtracts_inside_the_range() {
    let mut cam = default_camera();
    cam.process_mouse_scroll(5_000_000);
    assert_eq!(cam.zoom, 40_000_000);
    cam.process_mouse_scroll(-2_500_000);
    assert_eq!(cam.zoom, 42_500_000);
}

#[test]
fn repeated_scroll_never_leaves_range() {
    let mut cam = default_camera();
    for _ in 0..10 {
        cam.process_mouse_scroll(30_000_000);
        assert!((1_000_000..=45_000_000).contains(&cam.zoom));
    }
    for _ in 0..10 {
        cam.process_mouse_scroll(-30_000_000);
        assert!((1_000_000..=45_000_000).contains(&cam.zoom));
    }
}

#[test]
fn constrained_pitch_saturates_at_89_degrees() {
    let mut cam = default_camera();
    // 1000 screen units at 0.1 degrees per unit: +100 degrees per event
    for _ in 0..5 {
        cam.process_mouse_movement(0, 1_000_000, true);
        assert_eq!(cam.pitch, 89_000_000);
    }
    cam.process_mouse_movement(0, -1_000_000, true);
    assert_eq!(cam.pitch, -11_000_000);
    for _ in 0..5 {
        cam.process_mouse_movement(0, -1_000_000, true);
        assert_eq!(cam.pitch, -89_000_000);
    }
}

#[test]
fn unconstrained_pitch_is_not_clamped() {
    let mut cam = default_camera();
    cam.process_mouse_movement(0, 1_000_000, false);
    assert_eq!(cam.pitch, 100_000_000);
}

#[test]
fn mouse_movement_scales_by_sensitivity_and_wraps_yaw() {
    let mut cam = default_camera();
    cam.process_mouse_movement(1_000_000, 0, true);
    // 1000 screen units at 0.1 degrees per unit: +100 degrees of yaw
    assert_eq!(cam.yaw, 10_000_000);
    assert_eq!(cam.pitch, 0);
}

#[test]
fn keyboard_moves_along_front() {
    let mut cam = default_camera();
    // velocity: 2.5 units per second for one second, facing -z
    cam.process_keyboard(CameraMovement::FORWARD, 1000);
    assert_eq!(cam.position, Vec3 { x: 0, y: 0, z: 500 });
    cam.process_keyboard(CameraMovement::RIGHT, 2000);
    assert_eq!(cam.position, Vec3 { x: 5000, y: 0, z: 500 });
}

#[test]
fn forward_then_backward_restores_position() {
    let mut cam = default_camera();
    let start = cam.position;
    cam.process_keyboard(CameraMovement::FORWARD, 137);
    cam.process_keyboard(CameraMovement::BACKWARD, 137);
    assert_eq!(cam.position, start);
    cam.process_keyboard(CameraMovement::RIGHT, 59);
    cam.process_keyboard(CameraMovement::LEFT, 59);
    assert_eq!(cam.position, start);
}

#[test]
fn zero_frame_time_does_not_move() {
    let mut cam = default_camera();
    let start = cam.position;
    cam.process_keyboard(CameraMovement::FORWARD, 0);
    cam.process_keyboard(CameraMovement::LEFT, 0);
    assert_eq!(cam.position, start);
}

#[test]
fn scroll_to_the_exact_boundaries() {
    let mut cam = default_camera();
    cam.process_mouse_scroll(44_000_000);
    assert_eq!(cam.zoom, 1_000_000);
    cam.process_mouse_scroll(-44_000_000);
    assert_eq!(cam.zoom, 45_000_000);
    cam.process_mouse_scroll(0);
    assert_eq!(cam.zoom, 45_000_000);
}

#[test]
fn view_matrix_is_pure() {
    let mut cam = default_camera();
    let before = cam;
    let m1 = cam.get_view_matrix();
    let m2 = cam.get_view_matrix();
    assert_eq!(m1, m2);
    assert_eq!(cam, before);
}

#[test]
fn view_matrix_of_default_orientation() {
    let mut cam = default_camera();
    let m = cam.get_view_matrix();
    // rows are right, up and negated front
    assert_eq!((m.m00, m.m01, m.m02), (1000, 0, 0));
    assert_eq!((m.m10, m.m11, m.m12), (0, 1000, 0));
    assert_eq!((m.m20, m.m21, m.m22), (0, 0, 1000));
    // position (0, 0, 3) projects only onto front
    assert_eq!(m.m03, 0);
    assert_eq!(m.m13, 0);
    assert_eq!(m.m23, -3000);
    assert_eq!((m.m30, m.m31, m.m32, m.m33), (0, 0, 0, 1000));
}
