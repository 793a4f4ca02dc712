//! Platform-agnostic windowing abstraction: the data describing a window's
//! desired and observed state, the events a backend reports about windows,
//! and the policies that decide when the application should exit because
//! windows closed.

pub mod event;
pub mod raw_handle;
pub mod system;
pub mod window;

pub use window::ClosingState;
pub use window::CursorGrabMode;
pub use window::CursorOptions;
pub use window::MonitorSelection;
pub use window::PrimaryWindow;
pub use window::VideoModeSelection;
pub use window::Window;
pub use window::WindowMode;
pub use window::WindowPosition;
pub use window::WindowResizeConstraints;

use vstd::prelude::*;

verus! {

/// The condition under which the application should terminate because
/// windows closed, selected once at startup and immutable afterwards.
#[derive(Clone, Copy, PartialEq, Eq, Structural, Debug)]
pub enum ExitCondition {
    /// Signal exit when the primary window's closure is observed.
    OnPrimaryClosed,
    /// Signal exit when the last live window's closure is observed.
    OnAllClosed,
    /// Never signal exit automatically. The host application must send its
    /// own exit signal, or it will keep running without any window.
    DontExit,
}

/// The configuration surface of windowing support, consumed once during
/// application assembly and not mutated thereafter.
#[derive(Clone, Debug)]
pub struct WindowPlugin {
    /// Settings for the primary window. `Some` spawns one entity carrying
    /// that descriptor and the primary marker; `None` spawns no primary
    /// window, a valid configuration, not an error.
    pub primary_window: Option<Window>,
    /// Settings for the cursor on the primary window. Has no effect when no
    /// primary window is configured.
    pub primary_cursor_options: Option<CursorOptions>,
    /// When the application should exit because windows closed.
    pub exit_condition: ExitCondition,
    /// Whether a close request is honored automatically each tick. When
    /// false, requests are only recorded and delivered, and closing is
    /// entirely the host application's business.
    pub close_when_requested: bool,
}

impl Default for WindowPlugin {
    /// A primary window with the default descriptor and default cursor
    /// options, exiting once all windows closed, honoring close requests.
    fn default() -> (r: Self)
        ensures
            (r.primary_window matches Some(w) && window::is_default_window(w)),
            (r.primary_cursor_options matches Some(c) && c == (CursorOptions {
                visible: true,
                grab_mode: CursorGrabMode::Free,
                hit_test: true,
            })),
            r.exit_condition == ExitCondition::OnAllClosed,
            r.close_when_requested,
    {
        WindowPlugin {
            primary_window: Some(Window::default()),
            primary_cursor_options: Some(CursorOptions::default()),
            exit_condition: ExitCondition::OnAllClosed,
            close_when_requested: true,
        }
    }
}

/// What one application assembly does with a [`WindowPlugin`]: the spawn
/// and the policy registrations its configuration asks for. The host also
/// registers every event kind as its own channel; that part is
/// unconditional and carries no decision.
pub struct WindowPluginPlan {
    /// The descriptor to spawn as the primary window entity, if any.
    pub spawn_primary: Option<Window>,
    /// The cursor options to attach alongside the primary window; never
    /// present without a primary window.
    pub spawn_primary_cursor: Option<CursorOptions>,
    /// Whether the close-request policy runs each tick.
    pub run_close_when_requested: bool,
    /// Which exit policy runs each tick.
    pub exit_condition: ExitCondition,
}

impl WindowPlugin {
    /// The decision step of plugin composition: which entity to spawn and
    /// which policies to run. Cursor options are attached only when a
    /// primary window is configured, so a plan never asks for a cursor
    /// without its window.
    pub fn build_plan(self) -> (p: WindowPluginPlan)
        ensures
            p.spawn_primary == self.primary_window,
            self.primary_window is Some ==> p.spawn_primary_cursor
                == self.primary_cursor_options,
            self.primary_window is None ==> p.spawn_primary_cursor is None,
            p.run_close_when_requested == self.close_when_requested,
            p.exit_condition == self.exit_condition,
    {
        let spawn_primary_cursor = if self.primary_window.is_some() {
            self.primary_cursor_options
        } else {
            None
        };
        WindowPluginPlan {
            spawn_primary: self.primary_window,
            spawn_primary_cursor,
            run_close_when_requested: self.close_when_requested,
            exit_condition: self.exit_condition,
        }
    }
}

} // verus!
