//! The closed set of events a backend emits to report window lifecycle,
//! input, and environment changes, and the per-window ordering discipline
//! those events must honor.
//!
//! For one window, `Created` comes first and exactly once, a terminal
//! `Closed` or `Destroyed` event comes last and at most once, and a `Closed`
//! is always preceded by a `Closing`, which is preceded by a
//! `CloseRequested`. Across different windows no order is promised.
//! Environment-level events (`RequestRedraw`, `AppLifecycle`) carry no
//! window identity and stand outside the per-window discipline.

use vstd::prelude::*;

verus! {

/// A window's drawable area changed to the given physical size.
#[derive(Clone, Copy, PartialEq, Eq, Structural, Debug)]
pub struct WindowResized {
    /// The window the event is about.
    pub window: u64,
    /// New width in physical pixels.
    pub width: u32,
    /// New height in physical pixels.
    pub height: u32,
}

/// The backend finished creating a window's native counterpart. For a given
/// window this is always the first event, and the authoritative signal that
/// the raw handle is now available.
#[derive(Clone, Copy, PartialEq, Eq, Structural, Debug)]
pub struct WindowCreated {
    /// The window the event is about.
    pub window: u64,
}

/// The user or the OS asked to close a window; nothing is committed yet.
#[derive(Clone, Copy, PartialEq, Eq, Structural, Debug)]
pub struct WindowCloseRequested {
    /// The window the event is about.
    pub window: u64,
}

/// The close policy committed to closing a window.
#[derive(Clone, Copy, PartialEq, Eq, Structural, Debug)]
pub struct WindowClosing {
    /// The window the event is about.
    pub window: u64,
}

/// A window was closed and its entity despawned. Final for that window.
#[derive(Clone, Copy, PartialEq, Eq, Structural, Debug)]
pub struct WindowClosed {
    /// The window the event is about.
    pub window: u64,
}

/// A window's native counterpart was destroyed by the platform. Final for
/// that window.
#[derive(Clone, Copy, PartialEq, Eq, Structural, Debug)]
pub struct WindowDestroyed {
    /// The window the event is about.
    pub window: u64,
}

/// The platform reported a new scale factor for a window. The factor is
/// carried in thousandths, so a value of 2000 stands for a doubling.
#[derive(Clone, Copy, PartialEq, Eq, Structural, Debug)]
pub struct WindowBackendScaleFactorChanged {
    /// The window the event is about.
    pub window: u64,
    /// New scale factor, in thousandths.
    pub scale_factor_thousandths: u32,
}

/// The scale factor applied to a window changed, together with the physical
/// size the drawable area takes under it.
#[derive(Clone, Copy, PartialEq, Eq, Structural, Debug)]
pub struct WindowScaleFactorChanged {
    /// The window the event is about.
    pub window: u64,
    /// New scale factor, in thousandths.
    pub scale_factor_thousandths: u32,
    /// New width in physical pixels.
    pub width: u32,
    /// New height in physical pixels.
    pub height: u32,
}

/// A redraw of every window was asked for.
#[derive(Clone, Copy, PartialEq, Eq, Structural, Debug)]
pub struct RequestRedraw;

/// The cursor moved over a window, to the given physical position relative
/// to its top-left corner.
#[derive(Clone, Copy, PartialEq, Eq, Structural, Debug)]
pub struct CursorMoved {
    /// The window the event is about.
    pub window: u64,
    /// Horizontal position in physical pixels.
    pub x: i32,
    /// Vertical position in physical pixels.
    pub y: i32,
}

/// The cursor entered a window's area.
#[derive(Clone, Copy, PartialEq, Eq, Structural, Debug)]
pub struct CursorEntered {
    /// The window the event is about.
    pub window: u64,
}

/// The cursor left a window's area.
#[derive(Clone, Copy, PartialEq, Eq, Structural, Debug)]
pub struct CursorLeft {
    /// The window the event is about.
    pub window: u64,
}

/// A window gained or lost keyboard focus.
#[derive(Clone, Copy, PartialEq, Eq, Structural, Debug)]
pub struct WindowFocused {
    /// The window the event is about.
    pub window: u64,
    /// Whether the window now has focus.
    pub focused: bool,
}

/// A window became occluded or visible again.
#[derive(Clone, Copy, PartialEq, Eq, Structural, Debug)]
pub struct WindowOccluded {
    /// The window the event is about.
    pub window: u64,
    /// Whether the window is now occluded.
    pub occluded: bool,
}

/// A file is being dragged over a window, was dropped on it, or the drag
/// left it again.
#[derive(Clone, PartialEq, Eq, Debug)]
pub enum FileDragAndDrop {
    /// A file was dropped on the window.
    DroppedFile {
        /// The window the event is about.
        window: u64,
        /// Path of the dropped file, as the platform reports it.
        path: String,
    },
    /// A file hovers over the window.
    HoveredFile {
        /// The window the event is about.
        window: u64,
        /// Path of the hovered file, as the platform reports it.
        path: String,
    },
    /// A previously hovering file left the window without being dropped.
    HoveredFileCanceled {
        /// The window the event is about.
        window: u64,
    },
}

/// A window moved to the given physical position.
#[derive(Clone, Copy, PartialEq, Eq, Structural, Debug)]
pub struct WindowMoved {
    /// The window the event is about.
    pub window: u64,
    /// New horizontal position of the top-left corner, in physical pixels.
    pub x: i32,
    /// New vertical position of the top-left corner, in physical pixels.
    pub y: i32,
}

/// The platform's light or dark theme preference.
#[derive(Clone, Copy, PartialEq, Eq, Structural, Debug)]
pub enum WindowTheme {
    /// The light theme.
    Light,
    /// The dark theme.
    Dark,
}

/// The theme the platform applies to a window changed.
#[derive(Clone, Copy, PartialEq, Eq, Structural, Debug)]
pub struct WindowThemeChanged {
    /// The window the event is about.
    pub window: u64,
    /// The theme now applied.
    pub theme: WindowTheme,
}

/// An input-method event for a window.
#[derive(Clone, PartialEq, Eq, Debug)]
pub enum Ime {
    /// The composition text changed; nothing is committed yet.
    Preedit {
        /// The window the event is about.
        window: u64,
        /// The text composed so far.
        value: String,
    },
    /// Composed text was committed into the window.
    Commit {
        /// The window the event is about.
        window: u64,
        /// The committed text.
        value: String,
    },
    /// An input method became active for the window.
    Enabled {
        /// The window the event is about.
        window: u64,
    },
    /// The input method was deactivated for the window.
    Disabled {
        /// The window the event is about.
        window: u64,
    },
}

/// The application-level lifecycle state the platform reports. Not tied to
/// any one window.
#[derive(Clone, Copy, PartialEq, Eq, Structural, Debug)]
pub enum AppLifecycle {
    /// The application is loaded but has no window yet.
    Idle,
    /// The application runs in the foreground.
    Running,
    /// The platform announced that the application will be suspended.
    WillSuspend,
    /// The application is suspended.
    Suspended,
    /// The platform announced that the application will resume.
    WillResume,
}

/// The tagged union over every event shape a backend can report. A dispatch
/// convenience around the concrete kinds above, which a host registers as
/// independent channels.
#[derive(Clone, PartialEq, Eq, Debug)]
pub enum WindowEvent {
    /// See [`WindowResized`].
    WindowResized(WindowResized),
    /// See [`WindowCreated`].
    WindowCreated(WindowCreated),
    /// See [`WindowCloseRequested`].
    WindowCloseRequested(WindowCloseRequested),
    /// See [`WindowClosing`].
    WindowClosing(WindowClosing),
    /// See [`WindowClosed`].
    WindowClosed(WindowClosed),
    /// See [`WindowDestroyed`].
    WindowDestroyed(WindowDestroyed),
    /// See [`WindowBackendScaleFactorChanged`].
    WindowBackendScaleFactorChanged(WindowBackendScaleFactorChanged),
    /// See [`WindowScaleFactorChanged`].
    WindowScaleFactorChanged(WindowScaleFactorChanged),
    /// See [`RequestRedraw`].
    RequestRedraw(RequestRedraw),
    /// See [`CursorMoved`].
    CursorMoved(CursorMoved),
    /// See [`CursorEntered`].
    CursorEntered(CursorEntered),
    /// See [`CursorLeft`].
    CursorLeft(CursorLeft),
    /// See [`WindowFocused`].
    WindowFocused(WindowFocused),
    /// See [`WindowOccluded`].
    WindowOccluded(WindowOccluded),
    /// See [`FileDragAndDrop`].
    FileDragAndDrop(FileDragAndDrop),
    /// See [`WindowMoved`].
    WindowMoved(WindowMoved),
    /// See [`WindowThemeChanged`].
    WindowThemeChanged(WindowThemeChanged),
    /// See [`Ime`].
    Ime(Ime),
    /// See [`AppLifecycle`].
    AppLifecycle(AppLifecycle),
}

impl WindowEvent {
    /// The window an event is about, or `None` for the environment-level
    /// events that carry no window identity.
    pub open spec fn window_id(self) -> Option<u64> {
        match self {
            WindowEvent::WindowResized(e) => Some(e.window),
            WindowEvent::WindowCreated(e) => Some(e.window),
            WindowEvent::WindowCloseRequested(e) => Some(e.window),
            WindowEvent::WindowClosing(e) => Some(e.window),
            WindowEvent::WindowClosed(e) => Some(e.window),
            WindowEvent::WindowDestroyed(e) => Some(e.window),
            WindowEvent::WindowBackendScaleFactorChanged(e) => Some(e.window),
            WindowEvent::WindowScaleFactorChanged(e) => Some(e.window),
            WindowEvent::RequestRedraw(_) => None,
            WindowEvent::CursorMoved(e) => Some(e.window),
            WindowEvent::CursorEntered(e) => Some(e.window),
            WindowEvent::CursorLeft(e) => Some(e.window),
            WindowEvent::WindowFocused(e) => Some(e.window),
            WindowEvent::WindowOccluded(e) => Some(e.window),
            WindowEvent::FileDragAndDrop(e) => match e {
                FileDragAndDrop::DroppedFile { window, .. } => Some(window),
                FileDragAndDrop::HoveredFile { window, .. } => Some(window),
                FileDragAndDrop::HoveredFileCanceled { window } => Some(window),
            },
            WindowEvent::WindowMoved(e) => Some(e.window),
            WindowEvent::WindowThemeChanged(e) => Some(e.window),
            WindowEvent::Ime(e) => match e {
                Ime::Preedit { window, .. } => Some(window),
                Ime::Commit { window, .. } => Some(window),
                Ime::Enabled { window } => Some(window),
                Ime::Disabled { window } => Some(window),
            },
            WindowEvent::AppLifecycle(_) => None,
        }
    }

    /// Whether this is the creation event.
    pub open spec fn is_created(self) -> bool {
        self is WindowCreated
    }

    /// Whether this is a close request.
    pub open spec fn is_close_requested(self) -> bool {
        self is WindowCloseRequested
    }

    /// Whether this is a commitment to close.
    pub open spec fn is_closing(self) -> bool {
        self is WindowClosing
    }

    /// Whether this is a closure.
    pub open spec fn is_closed(self) -> bool {
        self is WindowClosed
    }

    /// Whether this event ends a window's life: after it, no further event
    /// for that window is valid.
    pub open spec fn is_terminal(self) -> bool {
        self is WindowClosed || self is WindowDestroyed
    }
}

impl WindowEvent {
    /// The window this event is about, or `None` for the environment-level
    /// events that carry no window identity.
    pub fn window(&self) -> (r: Option<u64>)
        ensures
            r == self.window_id(),
    {
        match self {
            WindowEvent::WindowResized(e) => Some(e.window),
            WindowEvent::WindowCreated(e) => Some(e.window),
            WindowEvent::WindowCloseRequested(e) => Some(e.window),
            WindowEvent::WindowClosing(e) => Some(e.window),
            WindowEvent::WindowClosed(e) => Some(e.window),
            WindowEvent::WindowDestroyed(e) => Some(e.window),
            WindowEvent::WindowBackendScaleFactorChanged(e) => Some(e.window),
            WindowEvent::WindowScaleFactorChanged(e) => Some(e.window),
            WindowEvent::RequestRedraw(_) => None,
            WindowEvent::CursorMoved(e) => Some(e.window),
            WindowEvent::CursorEntered(e) => Some(e.window),
            WindowEvent::CursorLeft(e) => Some(e.window),
            WindowEvent::WindowFocused(e) => Some(e.window),
            WindowEvent::WindowOccluded(e) => Some(e.window),
            WindowEvent::FileDragAndDrop(e) => match e {
                FileDragAndDrop::DroppedFile { window, .. } => Some(*window),
                FileDragAndDrop::HoveredFile { window, .. } => Some(*window),
                FileDragAndDrop::HoveredFileCanceled { window } => Some(*window),
            },
            WindowEvent::WindowMoved(e) => Some(e.window),
            WindowEvent::WindowThemeChanged(e) => Some(e.window),
            WindowEvent::Ime(e) => match e {
                Ime::Preedit { window, .. } => Some(*window),
                Ime::Commit { window, .. } => Some(*window),
                Ime::Enabled { window } => Some(*window),
                Ime::Disabled { window } => Some(*window),
            },
            WindowEvent::AppLifecycle(_) => None,
        }
    }
}

/// Checks one window's slice of an observed event log against the
/// lifecycle ordering discipline — the check a frontend can run to surface
/// a backend that broke the contract.
pub fn lifecycle_log_valid(log: &Vec<WindowEvent>, window: u64) -> (b: bool)
    ensures
        b == lifecycle_ordered(events_for(log@, window)),
{
    let mut ok = true;
    let mut seen_any = false;
    let mut seen_terminal = false;
    let mut seen_req = false;
    let mut seen_closing = false;
    let mut k: usize = 0;
    proof {
        assert(log@.subrange(0, 0) =~= Seq::<WindowEvent>::empty());
        assert(events_for(log@.subrange(0, 0), window) =~= Seq::<WindowEvent>::empty());
    }
    while k < log.len()
        invariant
            k <= log.len(),
            ok == lifecycle_ordered(events_for(log@.subrange(0, k as int), window)),
            seen_any == (events_for(log@.subrange(0, k as int), window).len() > 0),
            seen_terminal == has_event(
                events_for(log@.subrange(0, k as int), window),
                |x: WindowEvent| x.is_terminal(),
            ),
            seen_req == has_event(
                events_for(log@.subrange(0, k as int), window),
                |x: WindowEvent| x.is_close_requested(),
            ),
            seen_closing == has_event(
                events_for(log@.subrange(0, k as int), window),
                |x: WindowEvent| x.is_closing(),
            ),
        decreases log.len() - k,
    {
        let ghost proj = events_for(log@.subrange(0, k as int), window);
        proof {
            assert(log@.subrange(0, k as int + 1).drop_last() =~= log@.subrange(0, k as int));
            assert(log@.subrange(0, k as int + 1).last() == log@[k as int]);
        }
        let e = &log[k];
        let about = match e.window() {
            Some(x) => x == window,
            None => false,
        };
        if about {
            proof {
                assert(events_for(log@.subrange(0, k as int + 1), window) == proj.push(*e));
                lemma_lifecycle_ordered_push(proj, *e);
                lemma_has_event_push(proj, *e, |x: WindowEvent| x.is_terminal());
                lemma_has_event_push(proj, *e, |x: WindowEvent| x.is_close_requested());
                lemma_has_event_push(proj, *e, |x: WindowEvent| x.is_closing());
            }
            let e_created = matches!(e, WindowEvent::WindowCreated(_));
            let e_req = matches!(e, WindowEvent::WindowCloseRequested(_));
            let e_closing = matches!(e, WindowEvent::WindowClosing(_));
            let e_closed = matches!(e, WindowEvent::WindowClosed(_));
            let e_terminal = e_closed || matches!(e, WindowEvent::WindowDestroyed(_));
            let fits = !seen_terminal && (if seen_any {
                !e_created
            } else {
                e_created
            }) && (!e_closing || seen_req) && (!e_closed || seen_closing);
            ok = ok && fits;
            seen_any = true;
            seen_terminal = seen_terminal || e_terminal;
            seen_req = seen_req || e_req;
            seen_closing = seen_closing || e_closing;
        } else {
            proof {
                assert(events_for(log@.subrange(0, k as int + 1), window) == proj);
            }
        }
        k += 1;
    }
    proof {
        assert(log@.subrange(0, log.len() as int) =~= log@);
    }
    ok
}

/// The subsequence of `log` made of the events about window `id`, in
/// emission order.
pub open spec fn events_for(log: Seq<WindowEvent>, id: u64) -> Seq<WindowEvent>
    decreases log.len(),
{
    if log.len() == 0 {
        Seq::empty()
    } else {
        let init = events_for(log.drop_last(), id);
        if log.last().window_id() == Some(id) {
            init.push(log.last())
        } else {
            init
        }
    }
}

/// Whether a sequence of events, all about one window, honors the lifecycle
/// ordering discipline: `Created` exactly once and first, a terminal event
/// at most once and last, every `Closing` preceded by a `CloseRequested`,
/// and every `Closed` preceded by a `Closing`.
pub open spec fn lifecycle_ordered(s: Seq<WindowEvent>) -> bool {
    &&& s.len() > 0 ==> s[0].is_created()
    &&& forall|i: int| 0 < i < s.len() ==> !(#[trigger] s[i]).is_created()
    &&& forall|i: int| 0 <= i < s.len() && (#[trigger] s[i]).is_terminal() ==> i == s.len() - 1
    &&& forall|i: int|
        0 <= i < s.len() && (#[trigger] s[i]).is_closing() ==> exists|j: int|
            0 <= j < i && (#[trigger] s[j]).is_close_requested()
    &&& forall|i: int|
        0 <= i < s.len() && (#[trigger] s[i]).is_closed() ==> exists|j: int|
            0 <= j < i && (#[trigger] s[j]).is_closing()
}

/// Whether some event in `s` satisfies `f`.
pub open spec fn has_event(s: Seq<WindowEvent>, f: spec_fn(WindowEvent) -> bool) -> bool {
    exists|j: int| 0 <= j < s.len() && f(#[trigger] s[j])
}

/// Appending an event finds `f` in the grown sequence exactly when it was
/// already there or the new event satisfies it.
pub proof fn lemma_has_event_push(s: Seq<WindowEvent>, e: WindowEvent, f: spec_fn(WindowEvent) -> bool)
    ensures
        has_event(s.push(e), f) <==> (has_event(s, f) || f(e)),
{
    let t = s.push(e);
    if has_event(t, f) {
        let j = choose|j: int| 0 <= j < t.len() && f(#[trigger] t[j]);
        if j < s.len() {
            assert(f(s[j]));
        }
    }
    if has_event(s, f) {
        let j = choose|j: int| 0 <= j < s.len() && f(#[trigger] s[j]);
        assert(f(t[j]));
    }
    if f(e) {
        assert(f(t[s.len() as int]));
    }
}

/// Appending an event changes only the projection of the window it is
/// about, by appending it there.
pub proof fn lemma_events_for_push(log: Seq<WindowEvent>, e: WindowEvent, id: u64)
    ensures
        events_for(log.push(e), id) == if e.window_id() == Some(id) {
            events_for(log, id).push(e)
        } else {
            events_for(log, id)
        },
{
    assert(log.push(e).drop_last() =~= log);
    assert(log.push(e).last() == e);
}

/// What appending one event does to the ordering discipline: the grown
/// sequence is ordered exactly when the old one was, no terminal event has
/// come yet, and the new event fits the track position reached so far.
pub proof fn lemma_lifecycle_ordered_push(s: Seq<WindowEvent>, e: WindowEvent)
    ensures
        lifecycle_ordered(s.push(e)) <==> {
            &&& lifecycle_ordered(s)
            &&& !has_event(s, |x: WindowEvent| x.is_terminal())
            &&& s.len() == 0 ==> e.is_created()
            &&& s.len() > 0 ==> !e.is_created()
            &&& e.is_closing() ==> has_event(s, |x: WindowEvent| x.is_close_requested())
            &&& e.is_closed() ==> has_event(s, |x: WindowEvent| x.is_closing())
        },
{
    let t = s.push(e);
    assert(t.len() == s.len() + 1);
    assert(forall|i: int| 0 <= i < s.len() ==> t[i] == s[i]);
    assert(t[s.len() as int] == e);
    if lifecycle_ordered(t) {
        assert(lifecycle_ordered(s)) by {
            assert(forall|i: int|
                0 <= i < s.len() && (#[trigger] s[i]).is_terminal() ==> i == t.len() - 1 && i
                    < s.len());
            assert(forall|i: int|
                0 <= i < s.len() && (#[trigger] s[i]).is_closing() ==> exists|j: int|
                    0 <= j < i && (#[trigger] s[j]).is_close_requested()) by {
                assert forall|i: int|
                    0 <= i < s.len() && (#[trigger] s[i]).is_closing() implies exists|j: int|
                    0 <= j < i && (#[trigger] s[j]).is_close_requested() by {
                    assert(t[i].is_closing());
                    let j = choose|j: int| 0 <= j < i && (#[trigger] t[j]).is_close_requested();
                    assert(s[j].is_close_requested());
                }
            }
            assert(forall|i: int|
                0 <= i < s.len() && (#[trigger] s[i]).is_closed() ==> exists|j: int|
                    0 <= j < i && (#[trigger] s[j]).is_closing()) by {
                assert forall|i: int|
                    0 <= i < s.len() && (#[trigger] s[i]).is_closed() implies exists|j: int|
                    0 <= j < i && (#[trigger] s[j]).is_closing() by {
                    assert(t[i].is_closed());
                    let j = choose|j: int| 0 <= j < i && (#[trigger] t[j]).is_closing();
                    assert(s[j].is_closing());
                }
            }
        }
        assert(!has_event(s, |x: WindowEvent| x.is_terminal())) by {
            if has_event(s, |x: WindowEvent| x.is_terminal()) {
                let j = choose|j: int|
                    0 <= j < s.len() && (|x: WindowEvent| x.is_terminal())(#[trigger] s[j]);
                assert(t[j].is_terminal());
                assert(j == t.len() - 1);
                assert(false);
            }
        }
        if e.is_closing() {
            let j = choose|j: int| 0 <= j < s.len() && (#[trigger] t[j]).is_close_requested();
            assert((|x: WindowEvent| x.is_close_requested())(s[j]));
        }
        if e.is_closed() {
            let j = choose|j: int| 0 <= j < s.len() && (#[trigger] t[j]).is_closing();
            assert((|x: WindowEvent| x.is_closing())(s[j]));
        }
    }
    if ({
        &&& lifecycle_ordered(s)
        &&& !has_event(s, |x: WindowEvent| x.is_terminal())
        &&& s.len() == 0 ==> e.is_created()
        &&& s.len() > 0 ==> !e.is_created()
        &&& e.is_closing() ==> has_event(s, |x: WindowEvent| x.is_close_requested())
        &&& e.is_closed() ==> has_event(s, |x: WindowEvent| x.is_closing())
    }) {
        assert(t.len() > 0 ==> t[0].is_created());
        assert(forall|i: int| 0 < i < t.len() ==> !(#[trigger] t[i]).is_created());
        assert(forall|i: int|
            0 <= i < t.len() && (#[trigger] t[i]).is_terminal() ==> i == t.len() - 1) by {
            assert forall|i: int|
                0 <= i < t.len() && (#[trigger] t[i]).is_terminal() implies i == t.len() - 1 by {
                if i < s.len() {
                    assert(s[i].is_terminal());
                    assert((|x: WindowEvent| x.is_terminal())(s[i]));
                    assert(has_event(s, |x: WindowEvent| x.is_terminal()));
                }
            }
        }
        assert(forall|i: int|
            0 <= i < t.len() && (#[trigger] t[i]).is_closing() ==> exists|j: int|
                0 <= j < i && (#[trigger] t[j]).is_close_requested()) by {
            assert forall|i: int|
                0 <= i < t.len() && (#[trigger] t[i]).is_closing() implies exists|j: int|
                0 <= j < i && (#[trigger] t[j]).is_close_requested() by {
                if i < s.len() {
                    assert(s[i].is_closing());
                    let j = choose|j: int| 0 <= j < i && (#[trigger] s[j]).is_close_requested();
                    assert(t[j].is_close_requested());
                } else {
                    let j = choose|j: int|
                        0 <= j < s.len() && (|x: WindowEvent| x.is_close_requested())(
                            #[trigger] s[j],
                        );
                    assert(t[j].is_close_requested());
                }
            }
        }
        assert(forall|i: int|
            0 <= i < t.len() && (#[trigger] t[i]).is_closed() ==> exists|j: int|
                0 <= j < i && (#[trigger] t[j]).is_closing()) by {
            assert forall|i: int|
                0 <= i < t.len() && (#[trigger] t[i]).is_closed() implies exists|j: int|
                0 <= j < i && (#[trigger] t[j]).is_closing() by {
                if i < s.len() {
                    assert(s[i].is_closed());
                    let j = choose|j: int| 0 <= j < i && (#[trigger] s[j]).is_closing();
                    assert(t[j].is_closing());
                } else {
                    let j = choose|j: int|
                        0 <= j < s.len() && (|x: WindowEvent| x.is_closing())(#[trigger] s[j]);
                    assert(t[j].is_closing());
                }
            }
        }
        assert(lifecycle_ordered(t));
    }
}

} // verus!
