use bevy_window::raw_handle::PlatformLifecycleSlot;
use bevy_window::raw_handle::RawHandle;
use bevy_window::raw_handle::RawHandleWrapperHolder;

#[test]
fn read_before_any_set_reports_not_yet_available() {
    let holder = RawHandleWrapperHolder::new();
    assert_eq!(holder.get(), None);
}

#[test]
fn set_then_get_round_trips() {
    let mut holder = RawHandleWrapperHolder::new();
    holder.set(RawHandle(0xA11CE));
    assert_eq!(holder.get(), Some(RawHandle(0xA11CE)));
}

#[test]
fn set_replaces_previous_handle() {
    let mut holder = RawHandleWrapperHolder::new();
    holder.set(RawHandle(1));
    holder.set(RawHandle(2));
    assert_eq!(holder.get(), Some(RawHandle(2)));
}

#[test]
fn lifecycle_slot_initializes_exactly_once() {
    let mut slot = PlatformLifecycleSlot::new();
    assert_eq!(slot.get(), None);
    assert!(slot.init(77));
    assert_eq!(slot.get(), Some(77));
    assert!(!slot.init(88));
    assert_eq!(slot.get(), Some(77));
}
