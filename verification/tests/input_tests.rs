use xtreme::input::keyboard::{KeyCode, KeyState, Keyboard};
use xtreme::input::mouse::{button_index, MouseButton, MouseState};
use xtreme::math::isometric::{calculate_depth, IsometricCoord};
use xtreme::physics::spatial::GridCell;
use xtreme::particles::component::next_seed;
use xtreme::particles::gpu_resources::DrawIndirectArgs;

#[test]
fn test_depth_ordering() {
    let front = IsometricCoord::new(0, 0, 0);
    let back = IsometricCoord::new(1, 1, 0);
    let high = IsometricCoord::new(0, 0, 1);

    assert!(calculate_depth(front) < calculate_depth(back));
    assert!(calculate_depth(front) < calculate_depth(high));
}

#[test]
fn depth_values() {
    assert_eq!(calculate_depth(IsometricCoord::new(3, 4, 2)), 702);
    assert_eq!(calculate_depth(IsometricCoord::flat(-1, -2)), -300);
    assert_eq!(IsometricCoord::flat(2, 5), IsometricCoord::new(2, 5, 0));
}

#[test]
fn keyboard_frame_cycle() {
    let mut kb = Keyboard::new();
    assert_eq!(kb.state(KeyCode::A), KeyState::Released);
    kb.key_down(KeyCode::A);
    assert!(kb.is_pressed(KeyCode::A));
    assert!(kb.just_pressed(KeyCode::A));
    assert_eq!(kb.state(KeyCode::A), KeyState::Pressed);
    kb.update();
    assert_eq!(kb.state(KeyCode::A), KeyState::Held);
    kb.key_down(KeyCode::A);
    assert!(!kb.just_pressed(KeyCode::A));
    kb.key_up(KeyCode::A);
    assert!(kb.just_released(KeyCode::A));
    assert_eq!(kb.state(KeyCode::A), KeyState::JustReleased);
    kb.update();
    assert_eq!(kb.state(KeyCode::A), KeyState::Released);
}

#[test]
fn mouse_buttons() {
    assert_eq!(button_index(MouseButton::Left), 0);
    assert_eq!(button_index(MouseButton::Middle), 2);
    assert_eq!(button_index(MouseButton::Other(0)), 3);
    assert_eq!(button_index(MouseButton::Other(200)), 4);
    let mut m = MouseState::default();
    m.button_down(MouseButton::Right);
    assert!(m.is_pressed(MouseButton::Right));
    assert!(m.just_pressed(MouseButton::Right));
    m.clear_transient();
    m.button_down(MouseButton::Right);
    assert!(!m.just_pressed(MouseButton::Right));
    m.button_up(MouseButton::Right);
    assert!(!m.is_pressed(MouseButton::Right));
    assert!(m.just_released(MouseButton::Right));
}

#[test]
fn plain_records() {
    assert_eq!(GridCell::new(1, -2, 3), GridCell { x: 1, y: -2, z: 3 });
    assert_eq!(DrawIndirectArgs::default().vertex_count, 6);
}

#[test]
fn emitter_seeds_follow_the_generator() {
    assert_eq!(next_seed(0), 12345);
    assert_eq!(next_seed(1), 1103527590);
    assert_eq!(next_seed(12345), 3554416254);
    assert_eq!(next_seed(u32::MAX), 3191464396);
}
