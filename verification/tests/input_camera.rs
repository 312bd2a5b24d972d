use landmesh::camera::Mode;
use landmesh::input::{InputKind, InputManager};

#[test]
fn camera_mode_defaults_to_orbit() {
    assert_eq!(Mode::default(), Mode::Orbit);
    let m: Mode = landmesh::default();
    assert_eq!(m, Mode::Orbit);
}

#[test]
fn camera_mode_toggles() {
    assert_eq!(Mode::Orbit.toggled(), Mode::Fly);
    assert_eq!(Mode::Fly.toggled(), Mode::Orbit);
}

#[test]
fn default_forwards_to_default_impl() {
    let x: i64 = landmesh::default();
    assert_eq!(x, 0);
    let v: Vec<u8> = landmesh::default();
    assert!(v.is_empty());
}

#[test]
fn input_press_and_release() {
    let mut m = InputManager::new();
    assert!(!m.pressed(InputKind::DirForward));

    m.key_event(InputKind::DirForward, true);
    assert!(m.pressed(InputKind::DirForward));
    assert!(m.just_pressed(InputKind::DirForward));
    assert!(!m.just_released(InputKind::DirForward));

    // Pressing the same key again leaves a single entry.
    m.key_event(InputKind::DirForward, true);
    assert_eq!(m.pressed.len(), 1);

    m.key_event(InputKind::DirForward, false);
    assert!(!m.pressed(InputKind::DirForward));
    assert!(m.just_released(InputKind::DirForward));
    // Just-pressed keeps the frame's history until the frame resets.
    assert!(m.just_pressed(InputKind::DirForward));
}

#[test]
fn input_reset_frame_keeps_held_keys() {
    let mut m = InputManager::new();
    m.key_event(InputKind::ArrowUp, true);
    m.key_event(InputKind::CamSwitch, true);
    m.zoom_event(250_000);
    assert_eq!(m.zoom, -250_000);

    m.reset_frame();
    assert_eq!(m.zoom, 0);
    assert!(m.pressed(InputKind::ArrowUp));
    assert!(m.pressed(InputKind::CamSwitch));
    assert!(!m.just_pressed(InputKind::ArrowUp));
    assert!(!m.just_released(InputKind::ArrowUp));
}

#[test]
fn input_zoom_accumulates_and_saturates() {
    let mut m = InputManager::new();
    m.zoom_event(200_000);
    m.zoom_event(-500_000);
    assert_eq!(m.zoom, 300_000);

    m.zoom = i64::MIN + 1;
    m.zoom_event(2);
    assert_eq!(m.zoom, i64::MIN);

    m.zoom = i64::MAX - 1;
    m.zoom_event(-2);
    assert_eq!(m.zoom, i64::MAX);
}
