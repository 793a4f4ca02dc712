use bevy_window::event::AppLifecycle;
use bevy_window::event::CursorMoved;
use bevy_window::event::WindowCloseRequested;
use bevy_window::event::WindowClosed;
use bevy_window::event::WindowClosing;
use bevy_window::event::WindowCreated;
use bevy_window::event::WindowDestroyed;
use bevy_window::event::WindowEvent;
use bevy_window::event::WindowResized;
use bevy_window::event::lifecycle_log_valid;

fn created(w: u64) -> WindowEvent {
    WindowEvent::WindowCreated(WindowCreated { window: w })
}

fn requested(w: u64) -> WindowEvent {
    WindowEvent::WindowCloseRequested(WindowCloseRequested { window: w })
}

fn closing(w: u64) -> WindowEvent {
    WindowEvent::WindowClosing(WindowClosing { window: w })
}

fn closed(w: u64) -> WindowEvent {
    WindowEvent::WindowClosed(WindowClosed { window: w })
}

#[test]
fn event_window_identity() {
    assert_eq!(created(3).window(), Some(3));
    assert_eq!(
        WindowEvent::CursorMoved(CursorMoved { window: 9, x: 4, y: 5 }).window(),
        Some(9)
    );
    assert_eq!(WindowEvent::AppLifecycle(AppLifecycle::Running).window(), None);
}

#[test]
fn full_lifecycle_sequence_is_valid() {
    let log = vec![created(1), requested(1), closing(1), closed(1)];
    assert!(lifecycle_log_valid(&log, 1));
}

#[test]
fn empty_log_is_valid() {
    let log: Vec<WindowEvent> = vec![];
    assert!(lifecycle_log_valid(&log, 1));
}

#[test]
fn event_before_created_is_invalid() {
    let log = vec![
        WindowEvent::WindowResized(WindowResized { window: 1, width: 10, height: 10 }),
        created(1),
    ];
    assert!(!lifecycle_log_valid(&log, 1));
}

#[test]
fn second_created_is_invalid() {
    let log = vec![created(1), created(1)];
    assert!(!lifecycle_log_valid(&log, 1));
}

#[test]
fn event_after_terminal_is_invalid() {
    let log = vec![
        created(1),
        requested(1),
        closing(1),
        closed(1),
        WindowEvent::WindowResized(WindowResized { window: 1, width: 10, height: 10 }),
    ];
    assert!(!lifecycle_log_valid(&log, 1));
}

#[test]
fn destroyed_is_terminal() {
    let log = vec![
        created(1),
        WindowEvent::WindowDestroyed(WindowDestroyed { window: 1 }),
        requested(1),
    ];
    assert!(!lifecycle_log_valid(&log, 1));
}

#[test]
fn closing_without_request_is_invalid() {
    let log = vec![created(1), closing(1)];
    assert!(!lifecycle_log_valid(&log, 1));
}

#[test]
fn closed_without_closing_is_invalid() {
    let log = vec![created(1), requested(1), closed(1)];
    assert!(!lifecycle_log_valid(&log, 1));
}

#[test]
fn other_windows_do_not_disturb_a_sequence() {
    let log = vec![
        created(1),
        created(2),
        requested(2),
        requested(1),
        closing(1),
        closed(1),
        closing(2),
        closed(2),
    ];
    assert!(lifecycle_log_valid(&log, 1));
    assert!(lifecycle_log_valid(&log, 2));
    // A window that never appears has the trivially valid empty sequence.
    assert!(lifecycle_log_valid(&log, 3));
}
