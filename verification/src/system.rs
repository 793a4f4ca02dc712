//! The exit/close policy engine: a deterministic reducer over the live
//! window entities, this tick's close requests, and the startup
//! configuration, deciding which windows close and whether the application
//! should terminate.
//!
//! One [`WindowWorld`] models what the host's entity store holds for this
//! core: the live window entities, the observed event log, and the exit
//! configuration. Each scheduler tick the host feeds the close requests the
//! backend reported; the engine first records them on the descriptors, then
//! (when configured) commits the requested windows to closing, despawns the
//! committed ones, and finally applies the exit condition to what remains —
//! close handling strictly before the exit check, so a request can reach
//! `Closed` and be seen by the exit check in the same tick.

use vstd::prelude::*;

use crate::event::WindowCloseRequested;
use crate::event::WindowClosed;
use crate::event::WindowClosing;
use crate::event::WindowCreated;
use crate::event::WindowEvent;
use crate::event::events_for;
use crate::event::has_event;
use crate::event::lemma_events_for_push;
use crate::event::lemma_has_event_push;
use crate::event::lemma_lifecycle_ordered_push;
use crate::event::lifecycle_ordered;
use crate::window::ClosingState;
use crate::window::CursorOptions;
use crate::window::Window;
use crate::ExitCondition;

verus! {

/// One live window entity as the policies see it: its identity, its
/// descriptor, its cursor options if any, and whether it carries the
/// primary-window marker.
#[derive(Clone, Debug)]
pub struct WindowEntity {
    /// The entity identity the host store assigned; never reused.
    pub id: u64,
    /// The window's descriptor.
    pub window: Window,
    /// The cursor options attached alongside the window; absence means the
    /// backend's defaults apply.
    pub cursor: Option<CursorOptions>,
    /// Whether this entity carries the primary-window marker.
    pub primary: bool,
}

/// The descriptor `w` with its closing substate replaced by `c`.
pub open spec fn window_with_closing(w: Window, c: ClosingState) -> Window {
    Window {
        title: w.title,
        position: w.position,
        width: w.width,
        height: w.height,
        resize_constraints: w.resize_constraints,
        mode: w.mode,
        decorations: w.decorations,
        resizable: w.resizable,
        visible: w.visible,
        transparent: w.transparent,
        focused: w.focused,
        closing: c,
    }
}

/// Where one tick moves a window's closing substate: a request recorded on
/// a fully present window marks it `CloseRequested`, and when the close
/// policy is enabled (`honor`) a requested window is committed to
/// `Closing`. Requests on windows already past `Present` are accepted and
/// ignored, so the substate never moves backward.
pub open spec fn step_closing(l: ClosingState, requested: bool, honor: bool) -> ClosingState {
    let after = if requested && l is Present {
        ClosingState::CloseRequested
    } else {
        l
    };
    if honor && after is CloseRequested {
        ClosingState::Closing
    } else {
        after
    }
}

/// The entity `w` after one tick's substate step; identity and marker are
/// untouched.
pub open spec fn ticked_entity(w: WindowEntity, reqs: Seq<u64>, honor: bool) -> WindowEntity {
    WindowEntity {
        id: w.id,
        window: window_with_closing(
            w.window,
            step_closing(w.window.closing, reqs.contains(w.id), honor),
        ),
        cursor: w.cursor,
        primary: w.primary,
    }
}

/// Whether this tick closes `w`: its substate reaches `Closing`, so the
/// despawn phase removes it and a `Closed` event is emitted.
pub open spec fn tick_closes(w: WindowEntity, reqs: Seq<u64>, honor: bool) -> bool {
    step_closing(w.window.closing, reqs.contains(w.id), honor) is Closing
}

/// The window entities that survive one tick, in their original order, each
/// with its stepped substate.
pub open spec fn tick_survivors(ws: Seq<WindowEntity>, reqs: Seq<u64>, honor: bool) -> Seq<
    WindowEntity,
>
    decreases ws.len(),
{
    if ws.len() == 0 {
        Seq::empty()
    } else {
        let rest = tick_survivors(ws.drop_last(), reqs, honor);
        if tick_closes(ws.last(), reqs, honor) {
            rest
        } else {
            rest.push(ticked_entity(ws.last(), reqs, honor))
        }
    }
}

/// The identities of the windows one tick closes, in their original order.
pub open spec fn tick_closed_ids(ws: Seq<WindowEntity>, reqs: Seq<u64>, honor: bool) -> Seq<u64>
    decreases ws.len(),
{
    if ws.len() == 0 {
        Seq::empty()
    } else {
        let rest = tick_closed_ids(ws.drop_last(), reqs, honor);
        if tick_closes(ws.last(), reqs, honor) {
            rest.push(ws.last().id)
        } else {
            rest
        }
    }
}

/// Whether one tick closes a window that carries the primary marker.
pub open spec fn tick_closes_primary(ws: Seq<WindowEntity>, reqs: Seq<u64>, honor: bool) -> bool
    decreases ws.len(),
{
    if ws.len() == 0 {
        false
    } else {
        tick_closes_primary(ws.drop_last(), reqs, honor) || (tick_closes(ws.last(), reqs, honor)
            && ws.last().primary)
    }
}

/// The events one tick emits for the single entity `w`, in emission order:
/// the recorded request, then the closing commitment, then the closure.
pub open spec fn entity_events(w: WindowEntity, reqs: Seq<u64>, honor: bool) -> Seq<WindowEvent> {
    let newly_requested = reqs.contains(w.id) && w.window.closing is Present;
    let req_evs: Seq<WindowEvent> = if newly_requested {
        seq![WindowEvent::WindowCloseRequested(WindowCloseRequested { window: w.id })]
    } else {
        Seq::empty()
    };
    let close_evs: Seq<WindowEvent> = if tick_closes(w, reqs, honor) {
        seq![
            WindowEvent::WindowClosing(WindowClosing { window: w.id }),
            WindowEvent::WindowClosed(WindowClosed { window: w.id }),
        ]
    } else {
        Seq::empty()
    };
    req_evs + close_evs
}

/// Every event one tick emits, window by window in store order; across
/// distinct windows no order is promised beyond this one.
pub open spec fn tick_events(ws: Seq<WindowEntity>, reqs: Seq<u64>, honor: bool) -> Seq<WindowEvent>
    decreases ws.len(),
{
    if ws.len() == 0 {
        Seq::empty()
    } else {
        tick_events(ws.drop_last(), reqs, honor) + entity_events(ws.last(), reqs, honor)
    }
}

/// Whether some live entity in `ws` has identity `id`.
pub open spec fn has_live(ws: Seq<WindowEntity>, id: u64) -> bool {
    exists|i: int| 0 <= i < ws.len() && (#[trigger] ws[i]).id == id
}

/// Whether some entity in `ws` carries the primary marker.
pub open spec fn has_primary(ws: Seq<WindowEntity>) -> bool {
    exists|i: int| 0 <= i < ws.len() && (#[trigger] ws[i]).primary
}

/// Whether at most one entity in `ws` carries the primary marker.
pub open spec fn at_most_one_primary(ws: Seq<WindowEntity>) -> bool {
    forall|i: int, j: int|
        0 <= i < ws.len() && 0 <= j < ws.len() && (#[trigger] ws[i]).primary && (
        #[trigger] ws[j]).primary ==> i == j
}

/// The requests that violate the backend contract by referencing no live
/// window, in request order: the loud diagnostic the engine reports instead
/// of silently processing them.
pub open spec fn invalid_requests(reqs: Seq<u64>, ws: Seq<WindowEntity>) -> Seq<u64>
    decreases reqs.len(),
{
    if reqs.len() == 0 {
        Seq::empty()
    } else {
        let rest = invalid_requests(reqs.drop_last(), ws);
        if has_live(ws, reqs.last()) {
            rest
        } else {
            rest.push(reqs.last())
        }
    }
}

/// The exit decision, total over every configuration and tick summary:
/// under `OnAllClosed`, exit exactly when this tick closed something and no
/// window remains; under `OnPrimaryClosed`, exactly when this tick closed a
/// primary window; under `DontExit`, never.
pub open spec fn exit_decision(
    cond: ExitCondition,
    any_closed: bool,
    none_left: bool,
    primary_closed: bool,
) -> bool {
    match cond {
        ExitCondition::OnPrimaryClosed => primary_closed,
        ExitCondition::OnAllClosed => any_closed && none_left,
        ExitCondition::DontExit => false,
    }
}

/// The per-window link between a live entity and the observed event log:
/// the window was created and never closed, its substate is one of the two
/// that can persist across ticks, and a recorded request is backed by a
/// `CloseRequested` event.
pub open spec fn live_link(w: WindowEntity, log: Seq<WindowEvent>) -> bool {
    let p = events_for(log, w.id);
    &&& p.len() > 0
    &&& !has_event(p, |x: WindowEvent| x.is_terminal())
    &&& w.window.closing is Present || w.window.closing is CloseRequested
    &&& w.window.closing is CloseRequested ==> has_event(
        p,
        |x: WindowEvent| x.is_close_requested(),
    )
}

/// Whether `list` contains `id`.
fn id_in(list: &Vec<u64>, id: u64) -> (b: bool)
    ensures
        b == list@.contains(id),
{
    let mut k: usize = 0;
    while k < list.len()
        invariant
            k <= list.len(),
            forall|m: int| 0 <= m < k ==> list@[m] != id,
        decreases list.len() - k,
    {
        if list[k] == id {
            return true;
        }
        k += 1;
    }
    false
}

/// What one tick reports back to the host.
pub struct TickOutcome {
    /// Whether the exit condition fired this tick: the application-level
    /// instruction to terminate the main loop.
    pub exit: bool,
    /// The identities of the windows closed this tick, in store order.
    pub closed: Vec<u64>,
    /// The requests that referenced no live window: backend-contract
    /// violations surfaced loudly rather than processed.
    pub invalid: Vec<u64>,
}

/// The window state one application holds: the live window entities, the
/// append-only observed event log, every identity ever spawned, and the
/// exit configuration fixed at startup.
pub struct WindowWorld {
    /// The live window entities, in spawn order.
    pub windows: Vec<WindowEntity>,
    /// Every identity ever spawned; identities are never reused.
    pub used_ids: Vec<u64>,
    /// The observed event log, append-only across the world's lifetime.
    pub log: Vec<WindowEvent>,
    /// The exit condition selected at startup, immutable afterwards.
    pub exit_condition: ExitCondition,
    /// Whether close requests are honored automatically; when false they
    /// are only recorded and delivered, and closing is the host's business.
    pub close_when_requested: bool,
    /// Whether some earlier tick already signaled exit.
    pub exit_signaled: bool,
}

impl WindowWorld {
    /// The world invariant: distinct identities, at most one primary
    /// marker, every live identity registered as used, a lifecycle-ordered
    /// event log for every window, and every live entity linked to its log
    /// projection.
    pub open spec fn wf(self) -> bool {
        &&& forall|i: int, j: int|
            0 <= i < self.windows@.len() && 0 <= j < self.windows@.len() && i != j ==> (
            #[trigger] self.windows@[i]).id != (#[trigger] self.windows@[j]).id
        &&& forall|i: int, j: int|
            0 <= i < self.windows@.len() && 0 <= j < self.windows@.len() && (
            #[trigger] self.windows@[i]).primary && (#[trigger] self.windows@[j]).primary ==> i
                == j
        &&& forall|i: int|
            0 <= i < self.windows@.len() ==> self.used_ids@.contains(
                (#[trigger] self.windows@[i]).id,
            )
        &&& forall|id: u64| lifecycle_ordered(#[trigger] events_for(self.log@, id))
        &&& forall|i: int|
            0 <= i < self.windows@.len() ==> live_link(#[trigger] self.windows@[i], self.log@)
        &&& forall|id: u64|
            (#[trigger] events_for(self.log@, id)).len() > 0 ==> self.used_ids@.contains(id)
    }

    /// A world with no window yet, configured once and for all.
    pub fn new(exit_condition: ExitCondition, close_when_requested: bool) -> (w: Self)
        ensures
            w.wf(),
            w.windows@.len() == 0,
            w.used_ids@.len() == 0,
            w.log@.len() == 0,
            w.exit_condition == exit_condition,
            w.close_when_requested == close_when_requested,
            !w.exit_signaled,
    {
        let w = WindowWorld {
            windows: Vec::new(),
            used_ids: Vec::new(),
            log: Vec::new(),
            exit_condition,
            close_when_requested,
            exit_signaled: false,
        };
        proof {
            assert forall|id: u64| lifecycle_ordered(#[trigger] events_for(w.log@, id)) by {
                assert(events_for(w.log@, id) =~= Seq::<WindowEvent>::empty());
            }
        }
        w
    }

    /// Whether an identity was ever spawned.
    fn id_used(&self, id: u64) -> (b: bool)
        ensures
            b == self.used_ids@.contains(id),
    {
        let mut k: usize = 0;
        while k < self.used_ids.len()
            invariant
                0 <= k <= self.used_ids.len(),
                forall|m: int| 0 <= m < k ==> self.used_ids@[m] != id,
            decreases self.used_ids.len() - k,
        {
            if self.used_ids[k] == id {
                return true;
            }
            k += 1;
        }
        false
    }

    /// Whether some live entity carries the primary marker.
    fn any_primary(&self) -> (b: bool)
        ensures
            b == has_primary(self.windows@),
    {
        let mut k: usize = 0;
        while k < self.windows.len()
            invariant
                0 <= k <= self.windows.len(),
                forall|m: int| 0 <= m < k ==> !(#[trigger] self.windows@[m]).primary,
            decreases self.windows.len() - k,
        {
            if self.windows[k].primary {
                return true;
            }
            k += 1;
        }
        false
    }

    /// Whether some live entity has identity `id`.
    fn is_live(&self, id: u64) -> (b: bool)
        ensures
            b == has_live(self.windows@, id),
    {
        let mut k: usize = 0;
        while k < self.windows.len()
            invariant
                0 <= k <= self.windows.len(),
                forall|m: int| 0 <= m < k ==> (#[trigger] self.windows@[m]).id != id,
            decreases self.windows.len() - k,
        {
            if self.windows[k].id == id {
                return true;
            }
            k += 1;
        }
        false
    }

    /// Spawns one window entity and records its `Created` event, the first
    /// event of that window's log.
    ///
    /// Spawning succeeds exactly when the identity is fresh and the primary
    /// marker, if asked for, is still free — so at most one entity ever
    /// carries it. A refused spawn changes nothing: the caller picked an
    /// identity the store already handed out, or a second primary.
    pub fn spawn_window(
        &mut self,
        id: u64,
        window: Window,
        cursor: Option<CursorOptions>,
        primary: bool,
    ) -> (ok: bool)
        requires
            old(self).wf(),
            window.closing is Present,
        ensures
            final(self).wf(),
            ok <==> (!old(self).used_ids@.contains(id) && (primary ==> !has_primary(
                old(self).windows@,
            ))),
            ok ==> final(self).windows@ == old(self).windows@.push(
                WindowEntity { id, window, cursor, primary },
            ),
            ok ==> final(self).log@ == old(self).log@.push(
                WindowEvent::WindowCreated(WindowCreated { window: id }),
            ),
            ok ==> final(self).used_ids@ == old(self).used_ids@.push(id),
            !ok ==> *final(self) == *old(self),
            final(self).exit_condition == old(self).exit_condition,
            final(self).close_when_requested == old(self).close_when_requested,
            final(self).exit_signaled == old(self).exit_signaled,
    {
        if self.id_used(id) {
            return false;
        }
        if primary && self.any_primary() {
            return false;
        }
        let ghost log0 = self.log@;
        let ev = WindowEvent::WindowCreated(WindowCreated { window: id });
        proof {
            if events_for(log0, id).len() > 0 {
                assert(self.used_ids@.contains(id));
            }
            lemma_events_for_push(log0, ev, id);
            lemma_lifecycle_ordered_push(events_for(log0, id), ev);
            assert forall|other: u64| other != id implies events_for(log0.push(ev), other)
                == events_for(log0, other) by {
                lemma_events_for_push(log0, ev, other);
            }
        }
        self.log.push(ev);
        self.used_ids.push(id);
        self.windows.push(WindowEntity { id, window, cursor, primary });
        proof {
            let ws = self.windows@;
            let n = ws.len() as int;
            assert forall|i: int| 0 <= i < n implies self.used_ids@.contains(
                (#[trigger] ws[i]).id,
            ) by {
                if i < n - 1 {
                    assert(old(self).used_ids@.contains(ws[i].id));
                    let m = choose|m: int|
                        0 <= m < old(self).used_ids@.len() && old(self).used_ids@[m] == ws[i].id;
                    assert(self.used_ids@[m] == ws[i].id);
                } else {
                    assert(self.used_ids@[self.used_ids@.len() - 1] == id);
                }
            }
            assert forall|i: int| 0 <= i < n implies live_link(#[trigger] ws[i], self.log@) by {
                if i < n - 1 {
                    assert(ws[i] == old(self).windows@[i]);
                    assert(ws[i].id != id) by {
                        assert(old(self).used_ids@.contains(old(self).windows@[i].id));
                    }
                    assert(events_for(self.log@, ws[i].id) == events_for(log0, ws[i].id));
                    assert(live_link(old(self).windows@[i], log0));
                } else {
                    assert(events_for(self.log@, id) =~= events_for(log0, id).push(ev));
                    assert(events_for(log0, id) =~= Seq::<WindowEvent>::empty());
                    assert(events_for(self.log@, id)[0] == ev);
                    assert(!has_event(events_for(self.log@, id), |x: WindowEvent| x.is_terminal()))
                        by {
                        let p = events_for(self.log@, id);
                        if has_event(p, |x: WindowEvent| x.is_terminal()) {
                            let j = choose|j: int|
                                0 <= j < p.len() && (|x: WindowEvent| x.is_terminal())(
                                    #[trigger] p[j],
                                );
                            assert(p[j] == ev);
                        }
                    }
                }
            }
            assert forall|other: u64| true implies lifecycle_ordered(
                #[trigger] events_for(self.log@, other),
            ) by {
                if other == id {
                    assert(events_for(log0, id) =~= Seq::<WindowEvent>::empty());
                    assert(lifecycle_ordered(events_for(log0, id)));
                    assert(events_for(self.log@, id) == events_for(log0, id).push(ev));
                } else {
                    assert(events_for(self.log@, other) == events_for(log0, other));
                }
            }
            assert forall|other: u64|
                (#[trigger] events_for(self.log@, other)).len() > 0 implies self.used_ids@.contains(
                other,
            ) by {
                if other == id {
                    assert(self.used_ids@[self.used_ids@.len() - 1] == id);
                } else {
                    assert(events_for(self.log@, other) == events_for(log0, other));
                    if events_for(log0, other).len() > 0 {
                        assert(old(self).used_ids@.contains(other));
                        let m = choose|m: int|
                            0 <= m < old(self).used_ids@.len() && old(self).used_ids@[m] == other;
                        assert(self.used_ids@[m] == other);
                    }
                }
            }
            assert forall|i: int, j: int|
                0 <= i < n && 0 <= j < n && i != j implies (#[trigger] ws[i]).id != (
            #[trigger] ws[j]).id by {
                if j == n - 1 && i < n - 1 {
                    assert(old(self).used_ids@.contains(old(self).windows@[i].id));
                } else if i == n - 1 && j < n - 1 {
                    assert(old(self).used_ids@.contains(old(self).windows@[j].id));
                }
            }
        }
        true
    }

    /// Builds the startup world a [`crate::WindowPlugin`] asks for: the
    /// configuration is registered, and the one spawn composition itself
    /// performs is the primary window entity, when one is configured, with
    /// its cursor options. No other entity carries the primary marker, in
    /// any valid configuration.
    pub fn from_plugin(plugin: crate::WindowPlugin) -> (w: WindowWorld)
        requires
            plugin.primary_window matches Some(win) ==> win.closing is Present,
        ensures
            w.wf(),
            w.exit_condition == plugin.exit_condition,
            w.close_when_requested == plugin.close_when_requested,
            !w.exit_signaled,
            w.used_ids@ == w.windows@.map_values(|e: WindowEntity| e.id),
            plugin.primary_window matches Some(win) ==> w.windows@ == seq![
                WindowEntity {
                    id: 0u64,
                    window: win,
                    cursor: plugin.primary_cursor_options,
                    primary: true,
                },
            ],
            plugin.primary_window is None ==> w.windows@.len() == 0,
    {
        let plan = plugin.build_plan();
        let mut w = WindowWorld::new(plan.exit_condition, plan.run_close_when_requested);
        match plan.spawn_primary {
            Some(win) => {
                let ok = w.spawn_window(0, win, plan.spawn_primary_cursor, true);
                proof {
                    assert(ok);
                    assert(w.used_ids@ =~= w.windows@.map_values(|e: WindowEntity| e.id));
                }
            },
            None => {
                proof {
                    assert(w.used_ids@ =~= w.windows@.map_values(|e: WindowEntity| e.id));
                }
            },
        }
        w
    }

    /// Runs one scheduler tick: records this tick's close requests on the
    /// descriptors, commits requested windows to closing when the close
    /// policy is enabled, despawns the committed ones (their `Closing` and
    /// `Closed` events enter the log), and only then applies the exit
    /// condition — so a request honored this tick is seen by the exit check
    /// this tick.
    ///
    /// The reducer is deterministic and handles each window independently
    /// of every other; requests that reference no live window are reported
    /// back as backend-contract violations and change nothing. Exit is
    /// decided by [`exit_decision`]: under `OnAllClosed` exactly on the
    /// tick whose closures leave no window behind, under `OnPrimaryClosed`
    /// exactly on the tick that closes the primary window, and never under
    /// `DontExit`.
    #[verifier::rlimit(100)]
    pub fn tick(&mut self, requests: &Vec<u64>) -> (out: TickOutcome)
        requires
            old(self).wf(),
        ensures
            final(self).wf(),
            final(self).windows@ == tick_survivors(
                old(self).windows@,
                requests@,
                old(self).close_when_requested,
            ),
            final(self).log@ == old(self).log@ + tick_events(
                old(self).windows@,
                requests@,
                old(self).close_when_requested,
            ),
            final(self).used_ids@ == old(self).used_ids@,
            final(self).exit_condition == old(self).exit_condition,
            final(self).close_when_requested == old(self).close_when_requested,
            out.closed@ == tick_closed_ids(
                old(self).windows@,
                requests@,
                old(self).close_when_requested,
            ),
            out.invalid@ == invalid_requests(requests@, old(self).windows@),
            out.exit == exit_decision(
                old(self).exit_condition,
                tick_closed_ids(old(self).windows@, requests@, old(self).close_when_requested).len()
                    > 0,
                tick_survivors(
                    old(self).windows@,
                    requests@,
                    old(self).close_when_requested,
                ).len() == 0,
                tick_closes_primary(old(self).windows@, requests@, old(self).close_when_requested),
            ),
            final(self).exit_signaled == (old(self).exit_signaled || out.exit),
    {
        let ghost ws0 = self.windows@;
        let ghost log0 = self.log@;
        let ghost reqs = requests@;
        let honor = self.close_when_requested;

        // Diagnostic pass: surface requests that violate the backend
        // contract by referencing no live window.
        let mut invalid: Vec<u64> = Vec::new();
        let mut k: usize = 0;
        while k < requests.len()
            invariant
                k <= requests.len(),
                self.windows@ == ws0,
                reqs == requests@,
                invalid@ == invalid_requests(reqs.subrange(0, k as int), ws0),
            decreases requests.len() - k,
        {
            proof {
                assert(reqs.subrange(0, k as int + 1).drop_last() =~= reqs.subrange(0, k as int));
                assert(reqs.subrange(0, k as int + 1).last() == reqs[k as int]);
            }
            let id = requests[k];
            if !self.is_live(id) {
                invalid.push(id);
            }
            k += 1;
        }
        proof {
            assert(reqs.subrange(0, requests.len() as int) =~= reqs);
        }
        // Close pipeline, one pass in store order: record the request,
        // commit to closing, despawn, emitting the matching events.
        let n = self.windows.len();
        let mut taken: Vec<WindowEntity> = Vec::new();
        core::mem::swap(&mut self.windows, &mut taken);
        let mut survivors: Vec<WindowEntity> = Vec::new();
        let mut closed: Vec<u64> = Vec::new();
        let mut closed_primary = false;
        let mut j: usize = 0;
        while j < n
            invariant
                j <= n,
                n == ws0.len(),
                honor == old(self).close_when_requested,
                reqs == requests@,
                ws0 == old(self).windows@,
                log0 == old(self).log@,
                old(self).wf(),
                taken@ == ws0.subrange(j as int, n as int),
                survivors@ == tick_survivors(ws0.subrange(0, j as int), reqs, honor),
                closed@ == tick_closed_ids(ws0.subrange(0, j as int), reqs, honor),
                closed_primary == tick_closes_primary(ws0.subrange(0, j as int), reqs, honor),
                self.log@ == log0 + tick_events(ws0.subrange(0, j as int), reqs, honor),
                self.used_ids@ == old(self).used_ids@,
                self.exit_condition == old(self).exit_condition,
                self.close_when_requested == old(self).close_when_requested,
                self.exit_signaled == old(self).exit_signaled,
                forall|id: u64| lifecycle_ordered(#[trigger] events_for(self.log@, id)),
                forall|id: u64|
                    (#[trigger] events_for(self.log@, id)).len() > 0 ==> self.used_ids@.contains(
                        id,
                    ),
                forall|m: int|
                    j <= m < n ==> events_for(self.log@, (#[trigger] ws0[m]).id) == events_for(
                        log0,
                        ws0[m].id,
                    ),
                forall|i: int|
                    0 <= i < survivors@.len() ==> live_link(
                        #[trigger] survivors@[i],
                        self.log@,
                    ),
                forall|i: int|
                    0 <= i < survivors@.len() ==> self.used_ids@.contains(
                        (#[trigger] survivors@[i]).id,
                    ),
                forall|i: int, m: int|
                    0 <= i < survivors@.len() && j <= m < n ==> (#[trigger] survivors@[i]).id != (
                    #[trigger] ws0[m]).id,
                forall|i1: int, i2: int|
                    0 <= i1 < survivors@.len() && 0 <= i2 < survivors@.len() && i1 != i2 ==> (
                    #[trigger] survivors@[i1]).id != (#[trigger] survivors@[i2]).id,
                forall|i1: int, i2: int|
                    0 <= i1 < survivors@.len() && 0 <= i2 < survivors@.len() && (
                    #[trigger] survivors@[i1]).primary && (#[trigger] survivors@[i2]).primary
                        ==> i1 == i2,
                forall|m: int, i: int|
                    j <= m < n && (#[trigger] ws0[m]).primary && 0 <= i < survivors@.len() ==> !(
                    #[trigger] survivors@[i]).primary,
            decreases n - j,
        {
            let ghost pre = ws0.subrange(0, j as int);
            let ghost post = ws0.subrange(0, j as int + 1);
            let ghost orig = ws0[j as int];
            proof {
                assert(post.drop_last() =~= pre);
                assert(post.last() == orig);
                assert(taken@[0] == ws0.subrange(j as int, n as int)[0]);
                assert(live_link(orig, log0));
            }
            let mut w = taken.remove(0);
            proof {
                assert(w == orig);
                assert(taken@ =~= ws0.subrange(j as int + 1, n as int));
            }
            let requested = id_in(requests, w.id);
            let newly_requested = requested && w.window.closing == ClosingState::Present;
            let ghost log_a = self.log@;
            let ghost p0 = events_for(log_a, orig.id);
            proof {
                assert(p0 == events_for(log0, orig.id));
                assert(p0.len() > 0);
                assert(!has_event(p0, |x: WindowEvent| x.is_terminal()));
            }
            if newly_requested {
                let ev = WindowEvent::WindowCloseRequested(WindowCloseRequested { window: w.id });
                proof {
                    lemma_events_for_push(log_a, ev, orig.id);
                    lemma_lifecycle_ordered_push(p0, ev);
                    lemma_has_event_push(p0, ev, |x: WindowEvent| x.is_terminal());
                    lemma_has_event_push(p0, ev, |x: WindowEvent| x.is_close_requested());
                    assert((|x: WindowEvent| x.is_close_requested())(ev));
                    assert(!((|x: WindowEvent| x.is_terminal())(ev)));
                    assert forall|o: u64| o != orig.id implies #[trigger] events_for(
                        log_a.push(ev),
                        o,
                    ) == events_for(log_a, o) by {
                        lemma_events_for_push(log_a, ev, o);
                    }
                }
                self.log.push(ev);
                w.window.closing = ClosingState::CloseRequested;
            }
            let ghost log_b = self.log@;
            let ghost p1 = events_for(log_b, orig.id);
            proof {
                assert(lifecycle_ordered(p1));
                assert(!has_event(p1, |x: WindowEvent| x.is_terminal()));
                assert(p1.len() > 0);
                if w.window.closing is CloseRequested {
                    assert(has_event(p1, |x: WindowEvent| x.is_close_requested())) by {
                        if newly_requested {
                            lemma_has_event_push(p0, WindowEvent::WindowCloseRequested(
                                WindowCloseRequested { window: orig.id },
                            ), |x: WindowEvent| x.is_close_requested());
                        } else {
                            assert(orig.window.closing is CloseRequested);
                            assert(live_link(orig, log0));
                        }
                    }
                }
                assert forall|id: u64| true implies lifecycle_ordered(
                    #[trigger] events_for(log_b, id),
                ) by {
                    if newly_requested && id != orig.id {
                        assert(events_for(log_b, id) == events_for(log_a, id));
                    }
                }
            }
            let to_closing = honor && w.window.closing == ClosingState::CloseRequested;
            if to_closing {
                let ev_closing = WindowEvent::WindowClosing(WindowClosing { window: w.id });
                let ev_closed = WindowEvent::WindowClosed(WindowClosed { window: w.id });
                proof {
                    lemma_events_for_push(log_b, ev_closing, orig.id);
                    lemma_lifecycle_ordered_push(p1, ev_closing);
                    lemma_has_event_push(p1, ev_closing, |x: WindowEvent| x.is_terminal());
                    lemma_has_event_push(p1, ev_closing, |x: WindowEvent| x.is_closing());
                    assert((|x: WindowEvent| x.is_closing())(ev_closing));
                    assert(!((|x: WindowEvent| x.is_terminal())(ev_closing)));
                    assert forall|o: u64| o != orig.id implies #[trigger] events_for(
                        log_b.push(ev_closing),
                        o,
                    ) == events_for(log_b, o) by {
                        lemma_events_for_push(log_b, ev_closing, o);
                    }
                }
                self.log.push(ev_closing);
                let ghost log_c = self.log@;
                let ghost p2 = events_for(log_c, orig.id);
                proof {
                    assert(p2 == p1.push(ev_closing));
                    lemma_events_for_push(log_c, ev_closed, orig.id);
                    lemma_lifecycle_ordered_push(p2, ev_closed);
                    lemma_has_event_push(p2, ev_closed, |x: WindowEvent| x.is_closing());
                    assert(has_event(p2, |x: WindowEvent| x.is_closing())) by {
                        lemma_has_event_push(p1, ev_closing, |x: WindowEvent| x.is_closing());
                    }
                    assert(!has_event(p2, |x: WindowEvent| x.is_terminal())) by {
                        lemma_has_event_push(p1, ev_closing, |x: WindowEvent| x.is_terminal());
                    }
                    assert forall|o: u64| o != orig.id implies #[trigger] events_for(
                        log_c.push(ev_closed),
                        o,
                    ) == events_for(log_c, o) by {
                        lemma_events_for_push(log_c, ev_closed, o);
                    }
                    assert forall|id: u64| true implies lifecycle_ordered(
                        #[trigger] events_for(log_c, id),
                    ) by {
                        if id != orig.id {
                            assert(events_for(log_c, id) == events_for(log_b, id));
                        }
                    }
                }
                self.log.push(ev_closed);
                closed.push(w.id);
                if w.primary {
                    closed_primary = true;
                }
            } else {
                proof {
                    assert(w == ticked_entity(orig, reqs, honor));
                }
                survivors.push(w);
            }
            let ghost log_d = self.log@;
            proof {
                // The log grew by exactly this entity's events.
                assert(log_d =~= log_a + entity_events(orig, reqs, honor));
                assert(tick_events(post, reqs, honor) == tick_events(pre, reqs, honor)
                    + entity_events(orig, reqs, honor));
                assert(log_d =~= log0 + tick_events(post, reqs, honor));
                // Projections of every other window are untouched.
                assert forall|o: u64| o != orig.id implies #[trigger] events_for(log_d, o)
                    == events_for(log_a, o) by {}
                assert forall|id: u64| true implies lifecycle_ordered(
                    #[trigger] events_for(log_d, id),
                ) by {
                    if id != orig.id {
                        assert(events_for(log_d, id) == events_for(log_a, id));
                    }
                }
                assert forall|id: u64|
                    (#[trigger] events_for(log_d, id)).len() > 0 implies self.used_ids@.contains(
                    id,
                ) by {
                    if id != orig.id {
                        assert(events_for(log_d, id) == events_for(log_a, id));
                    } else {
                        assert(events_for(log_a, orig.id).len() > 0);
                    }
                }
                // The spec step functions agree with what the branch did.
                assert(tick_closes(orig, reqs, honor) == to_closing);
                assert(tick_survivors(post, reqs, honor) == if to_closing {
                    tick_survivors(pre, reqs, honor)
                } else {
                    tick_survivors(pre, reqs, honor).push(ticked_entity(orig, reqs, honor))
                });
                assert(tick_closed_ids(post, reqs, honor) == if to_closing {
                    tick_closed_ids(pre, reqs, honor).push(orig.id)
                } else {
                    tick_closed_ids(pre, reqs, honor)
                });
                assert(tick_closes_primary(post, reqs, honor) == (tick_closes_primary(
                    pre,
                    reqs,
                    honor,
                ) || (to_closing && orig.primary)));
                assert forall|i: int| 0 <= i < survivors@.len() implies live_link(
                    #[trigger] survivors@[i],
                    log_d,
                ) by {
                    if i < survivors@.len() - 1 || to_closing {
                        assert(survivors@[i].id != orig.id);
                        assert(events_for(log_d, survivors@[i].id) == events_for(
                            log_a,
                            survivors@[i].id,
                        ));
                    } else {
                        assert(survivors@[i] == ticked_entity(orig, reqs, honor));
                        assert(events_for(log_d, orig.id) =~= p1);
                    }
                }
            }
            j += 1;
        }
        proof {
            assert(ws0.subrange(0, n as int) =~= ws0);
        }
        self.windows = survivors;
        // Exit phase: total over the tick summary; runs strictly after the
        // close pipeline so this tick's closures are in view.
        let any_closed = closed.len() > 0;
        let none_left = self.windows.len() == 0;
        let exit = match self.exit_condition {
            ExitCondition::OnPrimaryClosed => closed_primary,
            ExitCondition::OnAllClosed => any_closed && none_left,
            ExitCondition::DontExit => false,
        };
        if exit {
            self.exit_signaled = true;
        }
        TickOutcome { exit, closed, invalid }
    }
}

/// Law: in a well-formed world, every window's observed event sequence
/// honors the lifecycle discipline — `Created` exactly once and first, a
/// terminal `Closed`/`Destroyed` at most once and last, and
/// `CloseRequested` before `Closing` before `Closed`.
pub proof fn lemma_world_lifecycle_ordered(w: &WindowWorld, id: u64)
    requires
        w.wf(),
    ensures
        lifecycle_ordered(events_for(w.log@, id)),
{
}

/// Law: in a well-formed world, at most one entity carries the
/// primary-window marker; spawning and ticking keep worlds well formed, so
/// this holds at all times, in every valid configuration.
pub proof fn lemma_at_most_one_primary(w: &WindowWorld)
    requires
        w.wf(),
    ensures
        at_most_one_primary(w.windows@),
{
}

/// The live windows after the request batches of `ticks` have each run one
/// engine tick over `ws`, in order.
pub open spec fn run_world(ws: Seq<WindowEntity>, ticks: Seq<Seq<u64>>, honor: bool) -> Seq<
    WindowEntity,
>
    decreases ticks.len(),
{
    if ticks.len() == 0 {
        ws
    } else {
        tick_survivors(run_world(ws, ticks.drop_last(), honor), ticks.last(), honor)
    }
}

/// Whether the exit condition fires on tick `k` of the run — exactly the
/// decision [`WindowWorld::tick`] promises to return for that tick.
pub open spec fn run_exits_at(
    ws: Seq<WindowEntity>,
    ticks: Seq<Seq<u64>>,
    honor: bool,
    cond: ExitCondition,
    k: int,
) -> bool {
    let before = run_world(ws, ticks.subrange(0, k), honor);
    exit_decision(
        cond,
        tick_closed_ids(before, ticks[k], honor).len() > 0,
        tick_survivors(before, ticks[k], honor).len() == 0,
        tick_closes_primary(before, ticks[k], honor),
    )
}

/// One more tick extends a run by one survivor step.
proof fn lemma_run_world_step(ws: Seq<WindowEntity>, ticks: Seq<Seq<u64>>, honor: bool, k: int)
    requires
        0 <= k < ticks.len(),
    ensures
        run_world(ws, ticks.subrange(0, k + 1), honor) == tick_survivors(
            run_world(ws, ticks.subrange(0, k), honor),
            ticks[k],
            honor,
        ),
{
    assert(ticks.subrange(0, k + 1).drop_last() =~= ticks.subrange(0, k));
    assert(ticks.subrange(0, k + 1).last() == ticks[k]);
}

/// Once a run has no window left, every later point of the run has none
/// either: nothing respawns windows mid-run.
proof fn lemma_empty_world_stays(
    ws: Seq<WindowEntity>,
    ticks: Seq<Seq<u64>>,
    honor: bool,
    i: int,
    k: int,
)
    requires
        0 <= i <= k <= ticks.len(),
        run_world(ws, ticks.subrange(0, i), honor).len() == 0,
    ensures
        run_world(ws, ticks.subrange(0, k), honor).len() == 0,
    decreases k - i,
{
    if k > i {
        lemma_empty_world_stays(ws, ticks, honor, i, k - 1);
        lemma_run_world_step(ws, ticks, honor, k - 1);
    }
}

/// Law: under `OnAllClosed`, a tick of a run signals exit exactly when it
/// closed at least one window and no window survives it — never while some
/// window remains.
pub proof fn lemma_all_closed_fires_when_emptied(
    ws: Seq<WindowEntity>,
    ticks: Seq<Seq<u64>>,
    honor: bool,
    k: int,
)
    requires
        0 <= k < ticks.len(),
    ensures
        run_exits_at(ws, ticks, honor, ExitCondition::OnAllClosed, k) <==> {
            let before = run_world(ws, ticks.subrange(0, k), honor);
            tick_closed_ids(before, ticks[k], honor).len() > 0 && tick_survivors(
                before,
                ticks[k],
                honor,
            ).len() == 0
        },
{
}

/// Law: under `OnPrimaryClosed`, a tick of a run signals exit exactly when
/// it closes a window carrying the primary marker; ticks that close only
/// non-primary windows never signal exit.
pub proof fn lemma_primary_fires_when_primary_closes(
    ws: Seq<WindowEntity>,
    ticks: Seq<Seq<u64>>,
    honor: bool,
    k: int,
)
    requires
        0 <= k < ticks.len(),
    ensures
        run_exits_at(ws, ticks, honor, ExitCondition::OnPrimaryClosed, k)
            == tick_closes_primary(run_world(ws, ticks.subrange(0, k), honor), ticks[k], honor),
{
}

/// Law: under `OnAllClosed`, a run signals exit at most once. The tick
/// contract already pins when: exactly on a tick that closes something and
/// leaves no window behind — never before the count reaches zero. This law
/// adds that such a tick is unique: afterwards no window exists, no closure
/// can happen, and the condition never fires again.
pub proof fn lemma_all_closed_exits_once(
    ws: Seq<WindowEntity>,
    ticks: Seq<Seq<u64>>,
    honor: bool,
    i: int,
    k: int,
)
    requires
        0 <= i <= k < ticks.len(),
        run_exits_at(ws, ticks, honor, ExitCondition::OnAllClosed, i),
        run_exits_at(ws, ticks, honor, ExitCondition::OnAllClosed, k),
    ensures
        i == k,
{
    if i < k {
        lemma_run_world_step(ws, ticks, honor, i);
        lemma_empty_world_stays(ws, ticks, honor, i + 1, k);
        assert(run_world(ws, ticks.subrange(0, k), honor) =~= Seq::<WindowEntity>::empty());
        assert(tick_closed_ids(run_world(ws, ticks.subrange(0, k), honor), ticks[k], honor).len()
            == 0);
        assert(false);
    }
}

/// A tick over windows none of which carries the primary marker closes no
/// primary window and leaves no primary window behind.
proof fn lemma_no_primary_preserved(ws: Seq<WindowEntity>, reqs: Seq<u64>, honor: bool)
    requires
        !has_primary(ws),
    ensures
        !has_primary(tick_survivors(ws, reqs, honor)),
        !tick_closes_primary(ws, reqs, honor),
    decreases ws.len(),
{
    if ws.len() > 0 {
        let init = ws.drop_last();
        assert(!has_primary(init)) by {
            if has_primary(init) {
                let i = choose|i: int| 0 <= i < init.len() && (#[trigger] init[i]).primary;
                assert(ws[i].primary);
            }
        }
        lemma_no_primary_preserved(init, reqs, honor);
        assert(!ws.last().primary) by {
            if ws.last().primary {
                assert(ws[ws.len() - 1].primary);
            }
        }
        let sv = tick_survivors(ws, reqs, honor);
        let sv_init = tick_survivors(init, reqs, honor);
        assert(!has_primary(sv)) by {
            if has_primary(sv) {
                let i = choose|i: int| 0 <= i < sv.len() && (#[trigger] sv[i]).primary;
                if tick_closes(ws.last(), reqs, honor) {
                    assert(sv_init[i].primary);
                } else {
                    if i < sv.len() - 1 {
                        assert(sv_init[i].primary);
                    } else {
                        assert(sv[i] == ticked_entity(ws.last(), reqs, honor));
                    }
                }
            }
        }
    }
}

/// Closing a primary window takes one: a tick that closes a primary window
/// ran over a sequence that held one.
proof fn lemma_closes_primary_has_primary(ws: Seq<WindowEntity>, reqs: Seq<u64>, honor: bool)
    ensures
        tick_closes_primary(ws, reqs, honor) ==> has_primary(ws),
    decreases ws.len(),
{
    if ws.len() > 0 {
        let init = ws.drop_last();
        lemma_closes_primary_has_primary(init, reqs, honor);
        if tick_closes_primary(ws, reqs, honor) {
            if tick_closes_primary(init, reqs, honor) {
                let i = choose|i: int| 0 <= i < init.len() && (#[trigger] init[i]).primary;
                assert(ws[i].primary);
            } else {
                assert(ws[ws.len() - 1].primary);
            }
        }
    }
}

/// A tick that closes the primary window leaves no primary window behind,
/// provided the marker was unique going in.
proof fn lemma_primary_closed_gone(ws: Seq<WindowEntity>, reqs: Seq<u64>, honor: bool)
    requires
        at_most_one_primary(ws),
    ensures
        tick_closes_primary(ws, reqs, honor) ==> !has_primary(
            tick_survivors(ws, reqs, honor),
        ),
    decreases ws.len(),
{
    if ws.len() > 0 && tick_closes_primary(ws, reqs, honor) {
        let init = ws.drop_last();
        assert(at_most_one_primary(init)) by {
            assert(forall|i: int| 0 <= i < init.len() ==> init[i] == ws[i]);
        }
        let sv = tick_survivors(ws, reqs, honor);
        let sv_init = tick_survivors(init, reqs, honor);
        if tick_closes_primary(init, reqs, honor) {
            lemma_primary_closed_gone(init, reqs, honor);
            lemma_closes_primary_has_primary(init, reqs, honor);
            let p = choose|p: int| 0 <= p < init.len() && (#[trigger] init[p]).primary;
            assert(ws[p].primary);
            assert(!ws.last().primary) by {
                if ws.last().primary {
                    assert(ws[ws.len() - 1].primary);
                    assert(p == ws.len() - 1);
                }
            }
            assert(!has_primary(sv)) by {
                if has_primary(sv) {
                    let i = choose|i: int| 0 <= i < sv.len() && (#[trigger] sv[i]).primary;
                    if tick_closes(ws.last(), reqs, honor) {
                        assert(sv_init[i].primary);
                    } else {
                        if i < sv.len() - 1 {
                            assert(sv_init[i].primary);
                        } else {
                            assert(sv[i] == ticked_entity(ws.last(), reqs, honor));
                        }
                    }
                }
            }
        } else {
            assert(tick_closes(ws.last(), reqs, honor) && ws.last().primary);
            assert(ws[ws.len() - 1].primary);
            assert(!has_primary(init)) by {
                if has_primary(init) {
                    let i = choose|i: int| 0 <= i < init.len() && (#[trigger] init[i]).primary;
                    assert(ws[i].primary);
                    assert(i == ws.len() - 1);
                }
            }
            lemma_no_primary_preserved(init, reqs, honor);
            assert(sv == sv_init);
        }
    }
}

/// A tick keeps the primary marker unique when it was unique going in.
proof fn lemma_primary_unique_preserved(ws: Seq<WindowEntity>, reqs: Seq<u64>, honor: bool)
    requires
        at_most_one_primary(ws),
    ensures
        at_most_one_primary(tick_survivors(ws, reqs, honor)),
    decreases ws.len(),
{
    if ws.len() > 0 {
        let init = ws.drop_last();
        assert(at_most_one_primary(init)) by {
            assert(forall|i: int| 0 <= i < init.len() ==> init[i] == ws[i]);
        }
        lemma_primary_unique_preserved(init, reqs, honor);
        let sv = tick_survivors(ws, reqs, honor);
        let sv_init = tick_survivors(init, reqs, honor);
        if !tick_closes(ws.last(), reqs, honor) {
            let t = ticked_entity(ws.last(), reqs, honor);
            assert(at_most_one_primary(sv)) by {
                assert forall|i: int, j: int|
                    0 <= i < sv.len() && 0 <= j < sv.len() && (#[trigger] sv[i]).primary && (
                    #[trigger] sv[j]).primary implies i == j by {
                    if i < sv.len() - 1 && j == sv.len() - 1 {
                        assert(sv_init[i].primary);
                        assert(t.primary && ws.last().primary);
                        assert(!has_primary(init)) by {
                            if has_primary(init) {
                                let p = choose|p: int|
                                    0 <= p < init.len() && (#[trigger] init[p]).primary;
                                assert(ws[p].primary);
                                assert(ws[ws.len() - 1].primary);
                                assert(p == ws.len() - 1);
                            }
                        }
                        lemma_no_primary_preserved(init, reqs, honor);
                    } else if j < sv.len() - 1 && i == sv.len() - 1 {
                        assert(sv_init[j].primary);
                        assert(t.primary && ws.last().primary);
                        assert(!has_primary(init)) by {
                            if has_primary(init) {
                                let p = choose|p: int|
                                    0 <= p < init.len() && (#[trigger] init[p]).primary;
                                assert(ws[p].primary);
                                assert(ws[ws.len() - 1].primary);
                                assert(p == ws.len() - 1);
                            }
                        }
                        lemma_no_primary_preserved(init, reqs, honor);
                    } else if i < sv.len() - 1 && j < sv.len() - 1 {
                        assert(sv_init[i].primary && sv_init[j].primary);
                    }
                }
            }
        }
    }
}

/// The primary marker stays unique along a whole run.
proof fn lemma_primary_unique_run(ws: Seq<WindowEntity>, ticks: Seq<Seq<u64>>, honor: bool, k: int)
    requires
        at_most_one_primary(ws),
        0 <= k <= ticks.len(),
    ensures
        at_most_one_primary(run_world(ws, ticks.subrange(0, k), honor)),
    decreases k,
{
    if k == 0 {
        assert(ticks.subrange(0, 0) =~= Seq::<Seq<u64>>::empty());
    } else {
        lemma_primary_unique_run(ws, ticks, honor, k - 1);
        lemma_run_world_step(ws, ticks, honor, k - 1);
        lemma_primary_unique_preserved(
            run_world(ws, ticks.subrange(0, k - 1), honor),
            ticks[k - 1],
            honor,
        );
    }
}

/// Once no primary window exists at some point of a run, none exists at any
/// later point.
proof fn lemma_no_primary_run(ws: Seq<WindowEntity>, ticks: Seq<Seq<u64>>, honor: bool, i: int, k: int)
    requires
        0 <= i <= k <= ticks.len(),
        !has_primary(run_world(ws, ticks.subrange(0, i), honor)),
    ensures
        !has_primary(run_world(ws, ticks.subrange(0, k), honor)),
    decreases k - i,
{
    if k > i {
        lemma_no_primary_run(ws, ticks, honor, i, k - 1);
        lemma_run_world_step(ws, ticks, honor, k - 1);
        lemma_no_primary_preserved(
            run_world(ws, ticks.subrange(0, k - 1), honor),
            ticks[k - 1],
            honor,
        );
    }
}

/// Law: under `OnPrimaryClosed`, a run over a world whose primary marker is
/// unique signals exit at most once. The tick contract already pins when:
/// exactly on a tick that closes the primary window — closing any number of
/// non-primary windows never fires it. This law adds that such a tick is
/// unique: it removes the primary window, none remains, and the condition
/// never fires again.
pub proof fn lemma_primary_closed_exits_once(
    ws: Seq<WindowEntity>,
    ticks: Seq<Seq<u64>>,
    honor: bool,
    i: int,
    k: int,
)
    requires
        at_most_one_primary(ws),
        0 <= i <= k < ticks.len(),
        run_exits_at(ws, ticks, honor, ExitCondition::OnPrimaryClosed, i),
        run_exits_at(ws, ticks, honor, ExitCondition::OnPrimaryClosed, k),
    ensures
        i == k,
{
    if i < k {
        lemma_primary_unique_run(ws, ticks, honor, i);
        lemma_primary_closed_gone(run_world(ws, ticks.subrange(0, i), honor), ticks[i], honor);
        lemma_run_world_step(ws, ticks, honor, i);
        lemma_no_primary_run(ws, ticks, honor, i + 1, k);
        lemma_closes_primary_has_primary(run_world(ws, ticks.subrange(0, k), honor), ticks[k], honor);
        assert(false);
    }
}

/// Law: with no primary window configured, `OnPrimaryClosed` never fires;
/// the application is then responsible for its own exit signal.
pub proof fn lemma_no_primary_never_exits(
    ws: Seq<WindowEntity>,
    ticks: Seq<Seq<u64>>,
    honor: bool,
    k: int,
)
    requires
        !has_primary(ws),
        0 <= k < ticks.len(),
    ensures
        !run_exits_at(ws, ticks, honor, ExitCondition::OnPrimaryClosed, k),
{
    assert(ticks.subrange(0, 0) =~= Seq::<Seq<u64>>::empty());
    lemma_no_primary_run(ws, ticks, honor, 0, k);
    lemma_closes_primary_has_primary(run_world(ws, ticks.subrange(0, k), honor), ticks[k], honor);
}

/// Law: under `DontExit` no tick of any run ever signals exit.
pub proof fn lemma_dont_exit_never_exits(
    ws: Seq<WindowEntity>,
    ticks: Seq<Seq<u64>>,
    honor: bool,
    k: int,
)
    requires
        0 <= k < ticks.len(),
    ensures
        !run_exits_at(ws, ticks, honor, ExitCondition::DontExit, k),
{
}

} // verus!

