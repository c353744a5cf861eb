use westiny_core::math::{Vector2, div_toward_zero, isqrt};
use westiny_core::movement::{
    InputState, MoveDirection, Transform, Velocity, angle_eighths, rotate_toward_mouse,
    update_velocity,
};

fn transform_at(x: i64, y: i64) -> Transform {
    Transform::at_position(x, y)
}

fn facing_after(player: (i64, i64), cursor: (i64, i64)) -> Option<u8> {
    let mut t = transform_at(player.0, player.1);
    rotate_toward_mouse(&mut t, cursor);
    angle_eighths(&t.rotation)
}

#[test]
fn cursor_up() {
    // Aiming straight up faces angle pi: 4 eighths of a turn.
    assert_eq!(facing_after((3, 3), (3, 2)), Some(4));
}

#[test]
fn cursor_left() {
    // Aiming straight left faces angle -pi/2, that is 3*pi/2: 6 eighths.
    assert_eq!(facing_after((3, 3), (2, 3)), Some(6));
}

#[test]
fn cursor_down() {
    // Aiming straight down faces angle 0.
    assert_eq!(facing_after((3, 3), (3, 4)), Some(0));
}

#[test]
fn cursor_right() {
    // Aiming straight right faces angle pi/2: 2 eighths.
    assert_eq!(facing_after((3, 3), (4, 3)), Some(2));
}

#[test]
fn cursor_upright_45deg() {
    // Aiming up-right faces angle 3*pi/4: 3 eighths.
    assert_eq!(facing_after((3, 3), (4, 2)), Some(3));
}

#[test]
fn facing_off_axis_has_no_exact_eighth() {
    assert_eq!(facing_after((0, 0), (2, 1)), None);
}

#[test]
fn aim_at_own_position_keeps_facing() {
    let mut t = transform_at(5, 5);
    let before = t.rotation;
    rotate_toward_mouse(&mut t, (5, 5));
    assert_eq!(t.rotation, before);
}

#[test]
fn from_action_known_keys() {
    assert!(matches!(
        MoveDirection::from_action("forward"),
        Some(MoveDirection::Forward)
    ));
    assert!(matches!(
        MoveDirection::from_action("backward"),
        Some(MoveDirection::Backward)
    ));
    assert!(matches!(
        MoveDirection::from_action("strafe_left"),
        Some(MoveDirection::StrafeLeft)
    ));
    assert!(matches!(
        MoveDirection::from_action("strafe_right"),
        Some(MoveDirection::StrafeRight)
    ));
}

#[test]
fn from_action_unknown_key() {
    assert!(MoveDirection::from_action("jump").is_none());
    assert!(MoveDirection::from_action("").is_none());
    assert!(MoveDirection::from_action("Forward").is_none());
}

fn neutral_with(forward: bool, backward: bool, left: bool, right: bool) -> InputState {
    let mut i = InputState::neutral();
    i.forward = forward;
    i.backward = backward;
    i.strafe_left = left;
    i.strafe_right = right;
    i
}

#[test]
fn no_direction_velocity_is_zero() {
    let t = transform_at(0, 0);
    let mut v = Velocity::default();
    update_velocity(&t, &neutral_with(false, false, false, false), &mut v);
    assert_eq!(v.0, Vector2 { x: 0, y: 0 });
}

#[test]
fn forward_speed_is_max_walk_speed() {
    // Facing straight down (the fresh transform), forward runs at the
    // full walk speed of 768 fixed units per tick.
    let t = transform_at(0, 0);
    let mut v = Velocity::default();
    update_velocity(&t, &neutral_with(true, false, false, false), &mut v);
    assert_eq!(v.0.x * v.0.x + v.0.y * v.0.y, 768 * 768);
}

#[test]
fn backward_speed_is_half_walk_speed() {
    let t = transform_at(0, 0);
    let mut v = Velocity::default();
    update_velocity(&t, &neutral_with(false, true, false, false), &mut v);
    assert_eq!(v.0.x * v.0.x + v.0.y * v.0.y, 384 * 384);
}

#[test]
fn strafe_speed_is_half_walk_speed() {
    let t = transform_at(0, 0);
    let mut v = Velocity::default();
    update_velocity(&t, &neutral_with(false, false, true, false), &mut v);
    assert_eq!(v.0.x * v.0.x + v.0.y * v.0.y, 384 * 384);
}

#[test]
fn opposed_directions_average() {
    // Forward and backward together average to a quarter of the walk
    // speed, (768 - 384) / 2 = 192 — not the average of the two
    // magnitudes, which would be 576.
    let t = transform_at(0, 0);
    let mut v = Velocity::default();
    update_velocity(&t, &neutral_with(true, true, false, false), &mut v);
    assert_eq!(v.0.x * v.0.x + v.0.y * v.0.y, 192 * 192);
}

#[test]
fn forward_faces_up_moves_up() {
    let mut t = transform_at(3, 3);
    rotate_toward_mouse(&mut t, (3, 2));
    let mut v = Velocity::default();
    update_velocity(&t, &neutral_with(true, false, false, false), &mut v);
    assert_eq!(v.0, Vector2 { x: 0, y: 768 });
}

#[test]
fn isqrt_exact_and_floor() {
    assert_eq!(isqrt(0), 0);
    assert_eq!(isqrt(1), 1);
    assert_eq!(isqrt(2), 1);
    assert_eq!(isqrt(4), 2);
    assert_eq!(isqrt(15), 3);
    assert_eq!(isqrt(16), 4);
    assert_eq!(isqrt(u64::MAX), 4294967295);
}

#[test]
fn div_toward_zero_matches_rust() {
    assert_eq!(div_toward_zero(7, 2), 3);
    assert_eq!(div_toward_zero(-7, 2), -3);
    assert_eq!(div_toward_zero(0, 5), 0);
    assert_eq!(div_toward_zero(-384, 4), -96);
}
