use bevy_window::window::ClosingState;
use bevy_window::window::CursorGrabMode;
use bevy_window::window::CursorOptions;
use bevy_window::window::Window;
use bevy_window::window::WindowMode;
use bevy_window::window::WindowPosition;
use bevy_window::window::WindowResizeConstraints;

#[test]
fn constraints_ordered_pair_kept() {
    let c = WindowResizeConstraints::new(100, 50, 800, 600);
    assert_eq!(c.min_width, 100);
    assert_eq!(c.min_height, 50);
    assert_eq!(c.max_width, 800);
    assert_eq!(c.max_height, 600);
}

#[test]
fn constraints_inverted_pairs_normalized() {
    let c = WindowResizeConstraints::new(800, 600, 100, 50);
    assert!(c.min_width <= c.max_width);
    assert!(c.min_height <= c.max_height);
    assert_eq!(c.min_width, 100);
    assert_eq!(c.max_width, 800);
    assert_eq!(c.min_height, 50);
    assert_eq!(c.max_height, 600);
}

#[test]
fn constraints_one_axis_inverted() {
    let c = WindowResizeConstraints::new(10, 900, 500, 300);
    assert_eq!(c.min_width, 10);
    assert_eq!(c.max_width, 500);
    assert_eq!(c.min_height, 300);
    assert_eq!(c.max_height, 900);
}

#[test]
fn constraints_default_unconstrained() {
    let c = WindowResizeConstraints::default();
    assert_eq!(c.min_width, 0);
    assert_eq!(c.min_height, 0);
    assert_eq!(c.max_width, u32::MAX);
    assert_eq!(c.max_height, u32::MAX);
}

#[test]
fn constraints_set_min_width_raises_max() {
    let mut c = WindowResizeConstraints::new(100, 100, 200, 200);
    c.set_min_width(500);
    assert_eq!(c.min_width, 500);
    assert_eq!(c.max_width, 500);
    assert_eq!(c.min_height, 100);
    assert_eq!(c.max_height, 200);
}

#[test]
fn constraints_set_max_width_lowers_min() {
    let mut c = WindowResizeConstraints::new(100, 100, 200, 200);
    c.set_max_width(40);
    assert_eq!(c.min_width, 40);
    assert_eq!(c.max_width, 40);
}

#[test]
fn constraints_set_min_height_raises_max() {
    let mut c = WindowResizeConstraints::new(100, 100, 200, 200);
    c.set_min_height(900);
    assert_eq!(c.min_height, 900);
    assert_eq!(c.max_height, 900);
    assert!(c.min_height <= c.max_height);
}

#[test]
fn constraints_set_max_height_lowers_min() {
    let mut c = WindowResizeConstraints::new(100, 100, 200, 200);
    c.set_max_height(30);
    assert_eq!(c.min_height, 30);
    assert_eq!(c.max_height, 30);
}

#[test]
fn window_default_is_centered_decorated_windowed() {
    let w = Window::default();
    assert_eq!(w.title, "window");
    assert!(matches!(w.position, WindowPosition::Centered));
    assert!(matches!(w.mode, WindowMode::Windowed));
    assert!(w.decorations);
    assert!(w.resizable);
    assert!(w.visible);
    assert!(!w.transparent);
    assert!(!w.focused);
    assert_eq!(w.resize_constraints.min_width, 0);
    assert_eq!(w.resize_constraints.max_width, u32::MAX);
    assert!(matches!(w.closing, ClosingState::Present));
}

#[test]
fn cursor_options_default_visible_unlocked() {
    let c = CursorOptions::default();
    assert!(c.visible);
    assert!(matches!(c.grab_mode, CursorGrabMode::Free));
    assert!(c.hit_test);
}

#[test]
fn closing_state_advances_forward() {
    let s = ClosingState::Present;
    let s = s.advance(ClosingState::CloseRequested);
    assert!(matches!(s, ClosingState::CloseRequested));
    let s = s.advance(ClosingState::Closing);
    assert!(matches!(s, ClosingState::Closing));
    let s = s.advance(ClosingState::Closed);
    assert!(matches!(s, ClosingState::Closed));
}

#[test]
fn closing_state_never_moves_backward() {
    let s = ClosingState::Closing;
    assert!(matches!(s.advance(ClosingState::Present), ClosingState::Closing));
    assert!(matches!(s.advance(ClosingState::CloseRequested), ClosingState::Closing));
    let closed = ClosingState::Closed;
    assert!(matches!(closed.advance(ClosingState::Present), ClosingState::Closed));
    assert!(matches!(closed.advance(ClosingState::Closed), ClosingState::Closed));
}
