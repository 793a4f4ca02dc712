use bevy_window::event::WindowCloseRequested;
use bevy_window::event::WindowClosed;
use bevy_window::event::WindowClosing;
use bevy_window::event::WindowCreated;
use bevy_window::event::WindowEvent;
use bevy_window::event::lifecycle_log_valid;
use bevy_window::system::WindowWorld;
use bevy_window::window::ClosingState;
use bevy_window::window::CursorOptions;
use bevy_window::window::Window;
use bevy_window::ExitCondition;
use bevy_window::WindowPlugin;

fn plain_window() -> Window {
    Window::default()
}

#[test]
fn plugin_default_configuration() {
    let p = WindowPlugin::default();
    assert!(p.primary_window.is_some());
    assert!(p.primary_cursor_options.is_some());
    assert!(matches!(p.exit_condition, ExitCondition::OnAllClosed));
    assert!(p.close_when_requested);
}

#[test]
fn build_plan_passes_configuration_through() {
    let p = WindowPlugin {
        primary_window: Some(plain_window()),
        primary_cursor_options: Some(CursorOptions::default()),
        exit_condition: ExitCondition::OnPrimaryClosed,
        close_when_requested: false,
    };
    let plan = p.build_plan();
    assert!(plan.spawn_primary.is_some());
    assert!(plan.spawn_primary_cursor.is_some());
    assert!(matches!(plan.exit_condition, ExitCondition::OnPrimaryClosed));
    assert!(!plan.run_close_when_requested);
}

#[test]
fn build_plan_drops_cursor_without_primary() {
    let p = WindowPlugin {
        primary_window: None,
        primary_cursor_options: Some(CursorOptions::default()),
        exit_condition: ExitCondition::DontExit,
        close_when_requested: true,
    };
    let plan = p.build_plan();
    assert!(plan.spawn_primary.is_none());
    assert!(plan.spawn_primary_cursor.is_none());
}

#[test]
fn from_plugin_spawns_one_primary() {
    let world = WindowWorld::from_plugin(WindowPlugin::default());
    assert_eq!(world.windows.len(), 1);
    assert_eq!(world.windows[0].id, 0);
    assert!(world.windows[0].primary);
    assert!(world.windows[0].cursor.is_some());
    assert_eq!(
        world.log,
        vec![WindowEvent::WindowCreated(WindowCreated { window: 0 })]
    );
}

#[test]
fn from_plugin_without_primary_spawns_nothing() {
    let p = WindowPlugin {
        primary_window: None,
        primary_cursor_options: None,
        exit_condition: ExitCondition::OnAllClosed,
        close_when_requested: true,
    };
    let world = WindowWorld::from_plugin(p);
    assert!(world.windows.is_empty());
    assert!(world.log.is_empty());
}

#[test]
fn spawn_rejects_reused_identity() {
    let mut world = WindowWorld::new(ExitCondition::OnAllClosed, true);
    assert!(world.spawn_window(7, plain_window(), None, false));
    assert!(!world.spawn_window(7, plain_window(), None, false));
    assert_eq!(world.windows.len(), 1);
}

#[test]
fn spawn_rejects_second_primary() {
    let mut world = WindowWorld::new(ExitCondition::OnAllClosed, true);
    assert!(world.spawn_window(0, plain_window(), None, true));
    assert!(!world.spawn_window(1, plain_window(), None, true));
    assert!(world.spawn_window(1, plain_window(), None, false));
    let primaries = world.windows.iter().filter(|w| w.primary).count();
    assert_eq!(primaries, 1);
}

#[test]
fn close_request_pipeline_single_tick() {
    // Primary window only, exit on all closed, close requests honored: a
    // request reaches Closing, Closed, and the exit signal in one tick.
    let mut world = WindowWorld::from_plugin(WindowPlugin::default());
    let out = world.tick(&vec![0]);
    assert!(out.exit);
    assert_eq!(out.closed, vec![0]);
    assert!(out.invalid.is_empty());
    assert!(world.windows.is_empty());
    assert!(world.exit_signaled);
    assert_eq!(
        world.log,
        vec![
            WindowEvent::WindowCreated(WindowCreated { window: 0 }),
            WindowEvent::WindowCloseRequested(WindowCloseRequested { window: 0 }),
            WindowEvent::WindowClosing(WindowClosing { window: 0 }),
            WindowEvent::WindowClosed(WindowClosed { window: 0 }),
        ]
    );
    assert!(lifecycle_log_valid(&world.log, 0));
}

#[test]
fn exit_signaled_only_once() {
    let mut world = WindowWorld::from_plugin(WindowPlugin::default());
    let out = world.tick(&vec![0]);
    assert!(out.exit);
    let out2 = world.tick(&vec![]);
    assert!(!out2.exit);
    let out3 = world.tick(&vec![0]);
    assert!(!out3.exit);
    assert_eq!(out3.invalid, vec![0]);
}

#[test]
fn all_closed_fires_only_when_last_window_closes() {
    let mut world = WindowWorld::new(ExitCondition::OnAllClosed, true);
    assert!(world.spawn_window(1, plain_window(), None, false));
    assert!(world.spawn_window(2, plain_window(), None, false));
    assert!(world.spawn_window(3, plain_window(), None, false));
    let out = world.tick(&vec![1]);
    assert!(!out.exit);
    assert_eq!(out.closed, vec![1]);
    let out = world.tick(&vec![2]);
    assert!(!out.exit);
    let out = world.tick(&vec![3]);
    assert!(out.exit);
    assert!(world.windows.is_empty());
}

#[test]
fn primary_closed_ignores_other_windows() {
    let mut world = WindowWorld::new(ExitCondition::OnPrimaryClosed, true);
    assert!(world.spawn_window(0, plain_window(), None, true));
    assert!(world.spawn_window(1, plain_window(), None, false));
    assert!(world.spawn_window(2, plain_window(), None, false));
    let out = world.tick(&vec![1, 2]);
    assert!(!out.exit);
    assert_eq!(out.closed, vec![1, 2]);
    let out = world.tick(&vec![0]);
    assert!(out.exit);
    assert_eq!(out.closed, vec![0]);
}

#[test]
fn primary_closed_without_primary_never_fires() {
    let mut world = WindowWorld::new(ExitCondition::OnPrimaryClosed, true);
    assert!(world.spawn_window(1, plain_window(), None, false));
    let out = world.tick(&vec![1]);
    assert!(!out.exit);
    assert!(world.windows.is_empty());
    let out = world.tick(&vec![]);
    assert!(!out.exit);
}

#[test]
fn dont_exit_still_closes_but_never_signals() {
    // Same close sequence as the single-tick pipeline, but DontExit: the
    // window still reaches Closed, and no exit signal is ever produced.
    let p = WindowPlugin {
        primary_window: Some(plain_window()),
        primary_cursor_options: Some(CursorOptions::default()),
        exit_condition: ExitCondition::DontExit,
        close_when_requested: true,
    };
    let mut world = WindowWorld::from_plugin(p);
    let out = world.tick(&vec![0]);
    assert!(!out.exit);
    assert_eq!(out.closed, vec![0]);
    assert!(world.windows.is_empty());
    assert!(!world.exit_signaled);
    assert_eq!(
        world.log[3],
        WindowEvent::WindowClosed(WindowClosed { window: 0 })
    );
    let out = world.tick(&vec![]);
    assert!(!out.exit);
    assert!(!world.exit_signaled);
}

#[test]
fn close_requests_only_recorded_when_policy_disabled() {
    let p = WindowPlugin {
        primary_window: Some(plain_window()),
        primary_cursor_options: None,
        exit_condition: ExitCondition::OnAllClosed,
        close_when_requested: false,
    };
    let mut world = WindowWorld::from_plugin(p);
    let out = world.tick(&vec![0]);
    assert!(!out.exit);
    assert!(out.closed.is_empty());
    assert_eq!(world.windows.len(), 1);
    assert!(matches!(
        world.windows[0].window.closing,
        ClosingState::CloseRequested
    ));
    assert_eq!(
        world.log,
        vec![
            WindowEvent::WindowCreated(WindowCreated { window: 0 }),
            WindowEvent::WindowCloseRequested(WindowCloseRequested { window: 0 }),
        ]
    );
    // A repeated request on the same window is accepted and ignored.
    let out = world.tick(&vec![0]);
    assert!(out.closed.is_empty());
    assert_eq!(world.log.len(), 2);
    assert!(out.invalid.is_empty());
}

#[test]
fn one_tick_closes_several_windows() {
    let mut world = WindowWorld::new(ExitCondition::OnAllClosed, true);
    assert!(world.spawn_window(1, plain_window(), None, false));
    assert!(world.spawn_window(2, plain_window(), None, false));
    let out = world.tick(&vec![1, 2]);
    assert!(out.exit);
    assert_eq!(out.closed, vec![1, 2]);
    assert_eq!(
        world.log,
        vec![
            WindowEvent::WindowCreated(WindowCreated { window: 1 }),
            WindowEvent::WindowCreated(WindowCreated { window: 2 }),
            WindowEvent::WindowCloseRequested(WindowCloseRequested { window: 1 }),
            WindowEvent::WindowClosing(WindowClosing { window: 1 }),
            WindowEvent::WindowClosed(WindowClosed { window: 1 }),
            WindowEvent::WindowCloseRequested(WindowCloseRequested { window: 2 }),
            WindowEvent::WindowClosing(WindowClosing { window: 2 }),
            WindowEvent::WindowClosed(WindowClosed { window: 2 }),
        ]
    );
    assert!(lifecycle_log_valid(&world.log, 1));
    assert!(lifecycle_log_valid(&world.log, 2));
}

#[test]
fn request_order_does_not_matter() {
    // Each window's transition is evaluated independently: the same set of
    // requests, in any order, closes the same windows.
    let mut ordered = WindowWorld::new(ExitCondition::OnAllClosed, true);
    let mut reversed = WindowWorld::new(ExitCondition::OnAllClosed, true);
    for world in [&mut ordered, &mut reversed] {
        assert!(world.spawn_window(1, plain_window(), None, false));
        assert!(world.spawn_window(2, plain_window(), None, false));
        assert!(world.spawn_window(3, plain_window(), None, false));
    }
    let a = ordered.tick(&vec![1, 3]);
    let b = reversed.tick(&vec![3, 1]);
    assert_eq!(a.closed, b.closed);
    assert_eq!(a.exit, b.exit);
    assert_eq!(ordered.log, reversed.log);
    assert_eq!(ordered.windows.len(), 1);
    assert_eq!(reversed.windows[0].id, 2);
}

#[test]
fn unknown_request_reported_not_processed() {
    let mut world = WindowWorld::from_plugin(WindowPlugin::default());
    let out = world.tick(&vec![42]);
    assert!(!out.exit);
    assert!(out.closed.is_empty());
    assert_eq!(out.invalid, vec![42]);
    assert_eq!(world.windows.len(), 1);
    assert_eq!(world.log.len(), 1);
}
