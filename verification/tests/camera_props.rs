use voxel_core::camera::{Camera, Move, FOV_MAX, FOV_MIN, PITCH_LIMIT, SENS, SPEED};
use voxel_core::fixed::SCALE;

#[test]
fn new_camera_initial_pose() {
    let c = Camera::new();
    assert_eq!((c.position.x, c.position.y, c.position.z), (0, 0, 0));
    assert_eq!(c.yaw, -90 * SCALE);
    assert_eq!(c.pitch, 0);
    assert_eq!(c.fov, FOV_MAX);
    assert_eq!(c.movement_speed, SPEED);
    assert_eq!(c.sens, SENS);
    assert!(c.first_mouse_movement);
    assert_eq!(c.last_x, 400 * SCALE);
    assert_eq!(c.last_y, 300 * SCALE);
    // looking down the negative z axis
    assert!(c.camera_front.z < -900_000);
    assert!(c.camera_front.x.abs() < 10_000);
}

#[test]
fn first_look_around_changes_no_angles() {
    let mut c = Camera::new();
    let yaw0 = c.yaw;
    let pitch0 = c.pitch;
    let front0 = c.camera_front;
    c.look_around(123 * SCALE, 456 * SCALE);
    assert_eq!(c.yaw, yaw0);
    assert_eq!(c.pitch, pitch0);
    assert_eq!(c.camera_front, front0);
    assert!(!c.first_mouse_movement);
    assert_eq!(c.last_x, 123 * SCALE);
    assert_eq!(c.last_y, 456 * SCALE);
}

#[test]
fn look_around_accumulates_scaled_offsets() {
    let mut c = Camera::new();
    c.look_around(0, 0);
    // Moving the cursor right by 100 units turns yaw by -10 degrees
    // (x offset is last minus cursor), up by 100 units adds 10 degrees of
    // pitch (y offset is cursor minus last).
    c.look_around(100 * SCALE, 100 * SCALE);
    assert_eq!(c.yaw, -90 * SCALE - 10 * SCALE);
    assert_eq!(c.pitch, 10 * SCALE);
}

#[test]
fn pitch_saturates_at_both_limits() {
    let mut c = Camera::new();
    c.look_around(0, 0);
    c.look_around(0, 2_000 * SCALE);
    assert_eq!(c.pitch, PITCH_LIMIT);
    c.look_around(0, -2_000 * SCALE);
    assert_eq!(c.pitch, -PITCH_LIMIT);
    // swinging the cursor back up by 2000 units overshoots again
    c.look_around(0, 0);
    assert_eq!(c.pitch, PITCH_LIMIT);
    for step in 0..20 {
        let y = (step % 5) * 3_000 * SCALE;
        c.look_around(step * SCALE, y);
        assert!(-PITCH_LIMIT <= c.pitch && c.pitch <= PITCH_LIMIT);
    }
}

#[test]
fn fov_saturates_at_both_limits() {
    let mut c = Camera::new();
    c.zoom(100 * SCALE);
    assert_eq!(c.fov, FOV_MIN);
    c.zoom(-100 * SCALE);
    assert_eq!(c.fov, FOV_MAX);
    c.zoom(5 * SCALE);
    assert_eq!(c.fov, 40 * SCALE);
    for step in 0..30 {
        c.zoom((step - 15) * 7 * SCALE);
        assert!(FOV_MIN <= c.fov && c.fov <= FOV_MAX);
    }
}

#[test]
fn translate_moves_forward_and_back() {
    let mut c = Camera::new();
    let start = c.position;
    c.translate(Move::Forward, SCALE);
    // one second at ten units per second, looking down negative z
    assert!(c.position.z < start.z);
    c.translate(Move::Backward, SCALE);
    assert_eq!(c.position, start);
}

#[test]
fn translate_strafe_round_trip() {
    let mut c = Camera::new();
    let start = c.position;
    c.translate(Move::Left, 500_000);
    assert_ne!(c.position, start);
    c.translate(Move::Right, 500_000);
    assert_eq!(c.position, start);
}

#[test]
fn translate_keeps_speed_and_orientation() {
    let mut c = Camera::new();
    let front = c.camera_front;
    c.translate(Move::Forward, SCALE);
    assert_eq!(c.movement_speed, SPEED);
    assert_eq!(c.camera_front, front);
    assert_eq!(c.yaw, -90 * SCALE);
}

#[test]
fn view_matrix_of_initial_pose() {
    let c = Camera::new();
    let m = c.GetViewMatrix();
    // the view direction axis points from the target back to the eye,
    // opposite the front vector, so along positive z
    assert!(m.mat[10] > 900_000);
    assert_eq!(m.mat[15], SCALE);
    assert_eq!(m.mat[3], 0);
    assert_eq!(m.mat[7], 0);
    assert_eq!(m.mat[11], 0);
}
