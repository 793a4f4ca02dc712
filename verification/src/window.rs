//! The declarative and observed state of one window: geometry, presentation
//! flags, title, cursor options, and the monotonic closing substate.

use vstd::prelude::*;

verus! {

/// Where a window should be placed when it is created.
#[derive(Clone, Copy, PartialEq, Eq, Structural, Debug)]
pub enum WindowPosition {
    /// Let the platform pick a position.
    Automatic,
    /// Center the window on the selected monitor.
    Centered,
    /// Place the window's top-left corner at the given physical coordinates.
    At(i32, i32),
}

/// Which monitor a fullscreen or centered window should use. The monitor
/// subsystem itself is an external collaborator; a monitor is only selected
/// here, never enumerated.
#[derive(Clone, Copy, PartialEq, Eq, Structural, Debug)]
pub enum MonitorSelection {
    /// The monitor the window currently is on.
    Current,
    /// The platform's primary monitor.
    Primary,
    /// The monitor at the given index in the platform's enumeration order.
    Index(usize),
}

/// Which video mode an exclusive-fullscreen window should use. A concrete
/// mode is an opaque descriptor supplied by the monitor subsystem, carried
/// here as an identifier.
#[derive(Clone, Copy, PartialEq, Eq, Structural, Debug)]
pub enum VideoModeSelection {
    /// Keep the monitor's current video mode.
    Current,
    /// Use the video mode with the given opaque identifier.
    Mode(u64),
}

/// Windowed or fullscreen presentation.
#[derive(Clone, Copy, PartialEq, Eq, Structural, Debug)]
pub enum WindowMode {
    /// An ordinary movable window.
    Windowed,
    /// A borderless window covering the selected monitor.
    BorderlessFullscreen(MonitorSelection),
    /// Exclusive fullscreen on the selected monitor with the selected mode.
    Fullscreen(MonitorSelection, VideoModeSelection),
}

/// The monotonic closing substate of a window.
///
/// Transitions only ever move forward along
/// `Present -> CloseRequested -> Closing -> Closed`; a backward step is
/// ignored, never applied.
#[derive(Clone, Copy, PartialEq, Eq, Structural, Debug)]
pub enum ClosingState {
    /// The window is open and no close has been asked for.
    Present,
    /// The close button or the OS asked to close; nothing is committed yet.
    CloseRequested,
    /// The close policy has committed to closing this window.
    Closing,
    /// The window is gone; no further transition is possible.
    Closed,
}

/// The position of a closing state on the one-way lifecycle track.
pub open spec fn closing_rank(s: ClosingState) -> int {
    match s {
        ClosingState::Present => 0,
        ClosingState::CloseRequested => 1,
        ClosingState::Closing => 2,
        ClosingState::Closed => 3,
    }
}

impl ClosingState {
    /// The total transition function of the closing substate: moves to `to`
    /// when that is a forward step, and ignores backward steps, so the
    /// substate can never regress.
    pub fn advance(self, to: ClosingState) -> (r: ClosingState)
        ensures
            closing_rank(to) >= closing_rank(self) ==> r == to,
            closing_rank(to) < closing_rank(self) ==> r == self,
            closing_rank(r) >= closing_rank(self),
    {
        let from_rank: u8 = match self {
            ClosingState::Present => 0,
            ClosingState::CloseRequested => 1,
            ClosingState::Closing => 2,
            ClosingState::Closed => 3,
        };
        let to_rank: u8 = match to {
            ClosingState::Present => 0,
            ClosingState::CloseRequested => 1,
            ClosingState::Closing => 2,
            ClosingState::Closed => 3,
        };
        if to_rank >= from_rank {
            to
        } else {
            self
        }
    }
}

/// Resize constraints for a window: minimum and maximum extents on each axis.
///
/// Every constructor and mutator of this type establishes `min <= max` on
/// both axes; inverted input pairs are normalized (swapped at construction,
/// clamped on mutation) rather than rejected, so building a window is
/// infallible.
#[derive(Clone, Copy, PartialEq, Eq, Structural, Debug)]
pub struct WindowResizeConstraints {
    /// Smallest allowed width, in physical pixels.
    pub min_width: u32,
    /// Smallest allowed height, in physical pixels.
    pub min_height: u32,
    /// Largest allowed width, in physical pixels.
    pub max_width: u32,
    /// Largest allowed height, in physical pixels.
    pub max_height: u32,
}

impl WindowResizeConstraints {
    /// `min <= max` on both axes: what every constructor establishes and
    /// every mutator preserves.
    pub open spec fn wf(self) -> bool {
        self.min_width <= self.max_width && self.min_height <= self.max_height
    }

    /// Builds constraints from arbitrary bounds. An inverted pair on either
    /// axis is normalized by swapping it, so the result is well formed for
    /// every input, inverted pairs included.
    pub fn new(min_width: u32, min_height: u32, max_width: u32, max_height: u32) -> (r: Self)
        ensures
            r.wf(),
            r.min_width == if min_width <= max_width { min_width } else { max_width },
            r.max_width == if min_width <= max_width { max_width } else { min_width },
            r.min_height == if min_height <= max_height { min_height } else { max_height },
            r.max_height == if min_height <= max_height { max_height } else { min_height },
    {
        let (lo_w, hi_w): (u32, u32) = if min_width <= max_width {
            (min_width, max_width)
        } else {
            (max_width, min_width)
        };
        let (lo_h, hi_h): (u32, u32) = if min_height <= max_height {
            (min_height, max_height)
        } else {
            (max_height, min_height)
        };
        WindowResizeConstraints {
            min_width: lo_w,
            min_height: lo_h,
            max_width: hi_w,
            max_height: hi_h,
        }
    }

    /// Sets the minimum width, raising the maximum to it when the new
    /// minimum would exceed it, so the result stays well formed.
    pub fn set_min_width(&mut self, w: u32)
        requires
            old(self).wf(),
        ensures
            final(self).wf(),
            final(self).min_width == w,
            final(self).max_width == if w <= old(self).max_width { old(self).max_width } else { w },
            final(self).min_height == old(self).min_height,
            final(self).max_height == old(self).max_height,
    {
        self.min_width = w;
        if self.max_width < w {
            self.max_width = w;
        }
    }

    /// Sets the minimum height, raising the maximum to it when the new
    /// minimum would exceed it, so the result stays well formed.
    pub fn set_min_height(&mut self, h: u32)
        requires
            old(self).wf(),
        ensures
            final(self).wf(),
            final(self).min_height == h,
            final(self).max_height == if h <= old(self).max_height { old(self).max_height } else { h },
            final(self).min_width == old(self).min_width,
            final(self).max_width == old(self).max_width,
    {
        self.min_height = h;
        if self.max_height < h {
            self.max_height = h;
        }
    }

    /// Sets the maximum width, lowering the minimum to it when the new
    /// maximum would fall below it, so the result stays well formed.
    pub fn set_max_width(&mut self, w: u32)
        requires
            old(self).wf(),
        ensures
            final(self).wf(),
            final(self).max_width == w,
            final(self).min_width == if old(self).min_width <= w { old(self).min_width } else { w },
            final(self).min_height == old(self).min_height,
            final(self).max_height == old(self).max_height,
    {
        self.max_width = w;
        if self.min_width > w {
            self.min_width = w;
        }
    }

    /// Sets the maximum height, lowering the minimum to it when the new
    /// maximum would fall below it, so the result stays well formed.
    pub fn set_max_height(&mut self, h: u32)
        requires
            old(self).wf(),
        ensures
            final(self).wf(),
            final(self).max_height == h,
            final(self).min_height == if old(self).min_height <= h { old(self).min_height } else { h },
            final(self).min_width == old(self).min_width,
            final(self).max_width == old(self).max_width,
    {
        self.max_height = h;
        if self.min_height > h {
            self.min_height = h;
        }
    }
}

impl Default for WindowResizeConstraints {
    /// Unconstrained bounds: anything from zero up to the largest
    /// representable extent is allowed on both axes.
    fn default() -> (r: Self)
        ensures
            r.wf(),
            r.min_width == 0u32,
            r.min_height == 0u32,
            r.max_width == u32::MAX,
            r.max_height == u32::MAX,
    {
        WindowResizeConstraints {
            min_width: 0,
            min_height: 0,
            max_width: u32::MAX,
            max_height: u32::MAX,
        }
    }
}

/// How the cursor is confined to a window, if at all.
#[derive(Clone, Copy, PartialEq, Eq, Structural, Debug)]
pub enum CursorGrabMode {
    /// The cursor may leave the window freely.
    Free,
    /// The cursor is confined to the window's area but moves within it.
    Confined,
    /// The cursor is locked in place inside the window.
    Locked,
}

/// Options for the cursor of one window. Created alongside the window by
/// convention; when absent, the backend's defaults apply.
#[derive(Clone, Copy, PartialEq, Eq, Structural, Debug)]
pub struct CursorOptions {
    /// Whether the cursor is drawn at all while over the window.
    pub visible: bool,
    /// How the cursor is confined to the window.
    pub grab_mode: CursorGrabMode,
    /// Whether the window lets clicks pass through to whatever is below it.
    pub hit_test: bool,
}

impl Default for CursorOptions {
    /// A visible, unconfined cursor that receives clicks.
    fn default() -> (r: Self)
        ensures
            r.visible,
            r.grab_mode == CursorGrabMode::Free,
            r.hit_test,
    {
        CursorOptions { visible: true, grab_mode: CursorGrabMode::Free, hit_test: true }
    }
}

/// The descriptor of one window: its configured presentation state and the
/// substates the backend reports back. A pure data holder; the only
/// validation is the resize-constraint normalization, and the only behavior
/// beyond that is default-value provision.
#[derive(Clone, Debug)]
pub struct Window {
    /// The text shown in the title bar.
    pub title: String,
    /// Requested position, absolute or platform-chosen.
    pub position: WindowPosition,
    /// Width of the drawable area, in physical pixels.
    pub width: u32,
    /// Height of the drawable area, in physical pixels.
    pub height: u32,
    /// The bounds a user resize must stay within.
    pub resize_constraints: WindowResizeConstraints,
    /// Windowed or fullscreen presentation.
    pub mode: WindowMode,
    /// Whether the platform draws borders and a title bar.
    pub decorations: bool,
    /// Whether the user may resize the window.
    pub resizable: bool,
    /// Whether the window is shown at all.
    pub visible: bool,
    /// Whether the framebuffer supports an alpha channel.
    pub transparent: bool,
    /// Observed focus state; reported by the backend, not requested.
    pub focused: bool,
    /// Where the window stands on the one-way closing track.
    pub closing: ClosingState,
}

/// What the default window descriptor promises: a centered, decorated,
/// resizable, visible, windowed window with unconstrained resize bounds,
/// fully present and not yet focused.
pub open spec fn is_default_window(w: Window) -> bool {
    &&& w.title@ == "window"@
    &&& w.position == WindowPosition::Centered
    &&& w.width == 1280u32
    &&& w.height == 720u32
    &&& w.resize_constraints.wf()
    &&& w.resize_constraints.min_width == 0u32
    &&& w.resize_constraints.min_height == 0u32
    &&& w.resize_constraints.max_width == u32::MAX
    &&& w.resize_constraints.max_height == u32::MAX
    &&& w.mode == WindowMode::Windowed
    &&& w.decorations
    &&& w.resizable
    &&& w.visible
    &&& !w.transparent
    &&& !w.focused
    &&& w.closing == ClosingState::Present
}

impl Default for Window {
    /// A centered, decorated, windowed window with unconstrained resize
    /// bounds.
    fn default() -> (r: Self)
        ensures
            is_default_window(r),
    {
        Window {
            title: new_default_title(),
            position: WindowPosition::Centered,
            width: 1280,
            height: 720,
            resize_constraints: WindowResizeConstraints::default(),
            mode: WindowMode::Windowed,
            decorations: true,
            resizable: true,
            visible: true,
            transparent: false,
            focused: false,
            closing: ClosingState::Present,
        }
    }
}

/// The title every default window starts with.
fn new_default_title() -> (t: String)
    ensures
        t@ == "window"@,
{
    let s: &str = "window";
    s.to_owned()
}

/// The marker carried by the distinguished primary window entity. At most
/// one entity may carry it at any time; the policy engine enforces this at
/// every spawn.
#[derive(Clone, Copy, PartialEq, Eq, Structural, Debug, Default)]
pub struct PrimaryWindow;

} // verus!
