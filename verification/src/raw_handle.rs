//! Cross-context raw-handle storage: a guarded optional slot that decouples
//! window-entity creation from native-handle availability, and a set-once
//! slot for the platform's process-wide application-lifecycle handle.
//!
//! Both slots keep their value behind `bevy_platform`'s synchronization
//! primitives (with the `std` feature these re-export `std::sync`), so a
//! reader never observes a torn value even when another execution context
//! holds a reference concurrently. Writing goes through an exclusive borrow:
//! that is the one-writer-at-a-time discipline the guarded slot asks of its
//! users, enforced here by the borrow rules themselves.

use vstd::prelude::*;

verus! {

/// An opaque reference to a created native window, carried as the plain
/// value the platform hands out. Unavailable until backend creation
/// completes.
#[derive(Clone, Copy, PartialEq, Eq, Structural, Debug)]
pub struct RawHandle(pub u64);

/// Outside type: `bevy_platform::sync::Mutex`, the guarded cell both slots
/// of this module store their value in.
#[verifier::external_type_specification]
#[verifier::external_body]
#[verifier::reject_recursive_types(T)]
pub struct ExMutex<T: ?Sized>(bevy_platform::sync::Mutex<T>);

/// What a mutex cell around an optional handle value currently stores.
pub uninterp spec fn mutex_contents(m: bevy_platform::sync::Mutex<Option<u64>>) -> Option<u64>;

/// Relies on `bevy_platform::sync::Mutex::new` (std's `Mutex::new`): the
/// fresh cell stores exactly the given value.
#[verifier::external_body]
fn new_cell(v: Option<u64>) -> (m: bevy_platform::sync::Mutex<Option<u64>>)
    ensures
        mutex_contents(m) == v,
{
    bevy_platform::sync::Mutex::new(v)
}

/// Relies on `bevy_platform::sync::Mutex::lock` (std's `Mutex::lock`):
/// locking gives exclusive access to the stored value, which is replaced
/// here. A poisoned lock is entered anyway; the slot holds a plain value,
/// so it is intact in every case.
#[verifier::external_body]
fn write_cell(m: &mut bevy_platform::sync::Mutex<Option<u64>>, v: Option<u64>)
    ensures
        mutex_contents(*final(m)) == v,
{
    let mut guard = match m.lock() {
        Ok(g) => g,
        Err(poisoned) => poisoned.into_inner(),
    };
    *guard = v;
}

/// Relies on `bevy_platform::sync::Mutex::lock` (std's `Mutex::lock`):
/// locking gives access to the currently stored value, returned here as a
/// copy. A poisoned lock is entered anyway, as in [`write_cell`].
#[verifier::external_body]
fn read_cell(m: &bevy_platform::sync::Mutex<Option<u64>>) -> (r: Option<u64>)
    ensures
        r == mutex_contents(*m),
{
    match m.lock() {
        Ok(g) => *g,
        Err(poisoned) => *poisoned.into_inner(),
    }
}

/// The guarded optional slot for one window's raw handle.
///
/// The slot starts empty: a window entity may exist before its native
/// window does, and a reader must treat the empty slot as "not yet
/// available", never as an error. The backend stores the handle once
/// creation completes, before or alongside emitting the window's `Created`
/// event, which is the authoritative availability signal; no notification
/// comes from the slot itself.
#[derive(Debug)]
pub struct RawHandleWrapperHolder {
    cell: bevy_platform::sync::Mutex<Option<u64>>,
}

impl View for RawHandleWrapperHolder {
    type V = Option<RawHandle>;

    /// The handle currently stored, if any.
    closed spec fn view(&self) -> Option<RawHandle> {
        match mutex_contents(self.cell) {
            Some(v) => Some(RawHandle(v)),
            None => None,
        }
    }
}

impl RawHandleWrapperHolder {
    /// A slot with no handle yet: reading before any write reports "not yet
    /// available".
    pub fn new() -> (h: Self)
        ensures
            h@ == Option::<RawHandle>::None,
    {
        RawHandleWrapperHolder { cell: new_cell(None) }
    }

    /// Stores a handle, replacing whatever the slot held before.
    pub fn set(&mut self, handle: RawHandle)
        ensures
            final(self)@ == Some(handle),
    {
        write_cell(&mut self.cell, Some(handle.0));
    }

    /// Reads the current value without blocking beyond the bounded guarded
    /// section: the stored handle, or `None` while the native window does
    /// not exist yet.
    pub fn get(&self) -> (r: Option<RawHandle>)
        ensures
            r == self@,
    {
        match read_cell(&self.cell) {
            Some(v) => Some(RawHandle(v)),
            None => None,
        }
    }
}

/// What a set-once cell around a handle value currently stores.
pub uninterp spec fn once_contents(c: bevy_platform::sync::OnceLock<u64>) -> Option<u64>;

/// Outside type: `bevy_platform::sync::OnceLock`, the set-once cell behind
/// [`PlatformLifecycleSlot`].
#[verifier::external_type_specification]
#[verifier::external_body]
#[verifier::reject_recursive_types(T)]
pub struct ExOnceLock<T>(bevy_platform::sync::OnceLock<T>);

/// Relies on `bevy_platform::sync::OnceLock::new` (std's `OnceLock::new`):
/// the fresh cell is empty.
#[verifier::external_body]
fn new_once_cell() -> (c: bevy_platform::sync::OnceLock<u64>)
    ensures
        once_contents(c) == Option::<u64>::None,
{
    bevy_platform::sync::OnceLock::new()
}

/// Relies on `bevy_platform::sync::OnceLock::set` (std's `OnceLock::set`):
/// stores the value and returns true when the cell was empty, and leaves a
/// full cell unchanged, returning false.
#[verifier::external_body]
fn set_once_cell(c: &mut bevy_platform::sync::OnceLock<u64>, v: u64) -> (ok: bool)
    ensures
        ok <==> once_contents(*old(c)) is None,
        ok ==> once_contents(*final(c)) == Some(v),
        !ok ==> once_contents(*final(c)) == once_contents(*old(c)),
{
    c.set(v).is_ok()
}

/// Relies on `bevy_platform::sync::OnceLock::get` (std's `OnceLock::get`):
/// returns the stored value, or `None` while the cell is empty.
#[verifier::external_body]
fn get_once_cell(c: &bevy_platform::sync::OnceLock<u64>) -> (r: Option<u64>)
    ensures
        r == once_contents(*c),
{
    c.get().copied()
}

/// The process-wide slot for the platform's application-lifecycle handle.
///
/// Some platforms hand the process one lifecycle object at startup; this
/// slot models that state explicitly: initialized at most once, readable
/// thereafter, and absent on platforms without such a concept. A second
/// initialization is refused and leaves the stored value untouched.
#[derive(Debug)]
pub struct PlatformLifecycleSlot {
    cell: bevy_platform::sync::OnceLock<u64>,
}

impl View for PlatformLifecycleSlot {
    type V = Option<u64>;

    /// The lifecycle handle stored, if initialization happened.
    closed spec fn view(&self) -> Option<u64> {
        once_contents(self.cell)
    }
}

impl PlatformLifecycleSlot {
    /// An uninitialized slot.
    pub fn new() -> (s: Self)
        ensures
            s@ == Option::<u64>::None,
    {
        PlatformLifecycleSlot { cell: new_once_cell() }
    }

    /// Initializes the slot. Succeeds exactly once: a later call reports
    /// failure and leaves the first value in place.
    pub fn init(&mut self, handle: u64) -> (ok: bool)
        ensures
            ok <==> old(self)@ is None,
            ok ==> final(self)@ == Some(handle),
            !ok ==> final(self)@ == old(self)@,
    {
        set_once_cell(&mut self.cell, handle)
    }

    /// Reads the slot: the handle once initialized, `None` before. A caller
    /// on a platform that requires the handle should treat `None` as the
    /// loud sign that initialization was skipped.
    pub fn get(&self) -> (r: Option<u64>)
        ensures
            r == self@,
    {
        get_once_cell(&self.cell)
    }
}

} // verus!
