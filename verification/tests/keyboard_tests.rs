use wlroots::errors::UpgradeHandleErr;
use wlroots::flags::{WLR_MODIFIER_ALT, WLR_MODIFIER_SHIFT};
use wlroots::input_device::{InputDevice, InputDeviceKind};
use wlroots::keyboard::{KeyState, Keyboard, WLR_KEYBOARD_KEYS_CAP};
use wlroots::lock::{LockState, ReleaseOutcome};

fn keyboard() -> Keyboard {
    Keyboard::new_from_input_device(InputDevice::from_ptr(0x1000), InputDeviceKind::Keyboard(0x2000))
        .expect("a keyboard device makes a keyboard")
}

#[test]
fn keys_cap_is_32() {
    assert_eq!(WLR_KEYBOARD_KEYS_CAP, 32);
}

#[test]
fn only_keyboard_devices_make_keyboards() {
    let device = InputDevice::from_ptr(0x1000);
    let k = keyboard();
    assert_eq!(k.as_ptr(), 0x2000);
    assert_eq!(k.input_device().as_ptr(), 0x1000);
    for kind in [
        InputDeviceKind::Pointer,
        InputDeviceKind::Touch,
        InputDeviceKind::TabletTool,
        InputDeviceKind::TabletPad,
    ] {
        assert!(Keyboard::new_from_input_device(device, kind).is_none());
    }
}

#[test]
fn handle_refers_to_the_same_keyboard() {
    let k = keyboard();
    let handle = k.weak_reference();
    assert_eq!(handle.as_ptr(), 0x2000);
    assert_eq!(handle.input_device().as_ptr(), 0x1000);
    let upgraded = handle.upgrade().expect("the keyboard exists and is free");
    assert_eq!(upgraded.as_ptr(), 0x2000);
    assert_eq!(upgraded.input_device().as_ptr(), 0x1000);
}

#[test]
fn second_upgrade_is_refused_until_release() {
    let k = keyboard();
    let handle = k.weak_reference();
    let first = handle.upgrade();
    assert!(first.is_ok());
    assert!(matches!(handle.upgrade(), Err(UpgradeHandleErr::AlreadyBorrowed)));
    let other = k.weak_reference();
    assert!(matches!(other.upgrade(), Err(UpgradeHandleErr::AlreadyBorrowed)));
    assert_eq!(handle.release(), ReleaseOutcome::Released);
    assert!(other.upgrade().is_ok());
}

#[test]
fn release_without_borrow_is_reported() {
    let k = keyboard();
    let handle = k.weak_reference();
    assert_eq!(handle.release(), ReleaseOutcome::NotBorrowed);
    assert!(handle.upgrade().is_ok());
}

#[test]
fn handle_of_a_dropped_keyboard_fails() {
    let k = keyboard();
    let handle = k.weak_reference();
    drop(k);
    assert!(matches!(handle.upgrade(), Err(UpgradeHandleErr::DoubleUpgrade)));
    assert_eq!(handle.release(), ReleaseOutcome::KeyboardGone);
}

#[test]
fn set_lock_marks_the_keyboard_borrowed() {
    let k = keyboard();
    let handle = k.weak_reference();
    k.set_lock(true);
    assert!(matches!(handle.upgrade(), Err(UpgradeHandleErr::AlreadyBorrowed)));
    k.set_lock(false);
    assert!(handle.upgrade().is_ok());
}

#[test]
fn upgrade_from_follows_the_decision() {
    let k = keyboard();
    let handle = k.weak_reference();
    let (r, next) = handle.upgrade_from(LockState { alive: true, borrowed: false });
    assert_eq!(r.expect("free keyboard").as_ptr(), 0x2000);
    assert_eq!(next, LockState { alive: true, borrowed: true });
    let (r, next) = handle.upgrade_from(LockState { alive: true, borrowed: true });
    assert!(matches!(r, Err(UpgradeHandleErr::AlreadyBorrowed)));
    assert_eq!(next, LockState { alive: true, borrowed: true });
    let (r, _) = handle.upgrade_from(LockState { alive: false, borrowed: false });
    assert!(matches!(r, Err(UpgradeHandleErr::DoubleUpgrade)));
}

#[test]
fn keymap_and_state_follow_the_raw_addresses() {
    let mut k = keyboard();
    assert!(k.get_keymap(0).is_none());
    assert_eq!(k.get_keymap(0xabc).map(|m| m.as_ptr()), Some(0xabc));
    assert!(k.get_xkb_state(0).is_none());
    assert_eq!(k.get_xkb_state(0xdef).map(|s| s.as_ptr()), Some(0xdef));
}

#[test]
fn modifiers_come_from_the_raw_mask() {
    let k = keyboard();
    let m = k.get_modifiers(WLR_MODIFIER_SHIFT | WLR_MODIFIER_ALT | 0x300);
    assert_eq!(m.bits(), WLR_MODIFIER_SHIFT | WLR_MODIFIER_ALT);
    assert_eq!(m.to_string(), "[\"Shift\", \"Alt\"]");
}

#[test]
fn debug_strings_name_device_and_keyboard() {
    let k = keyboard();
    assert_eq!(InputDevice::from_ptr(0x1000).debug_string(), "InputDevice { device: 0x1000 }");
    assert_eq!(InputDevice::from_ptr(0).debug_string(), "InputDevice { device: 0x0 }");
    assert_eq!(
        k.debug_string(),
        "Keyboard { device: InputDevice { device: 0x1000 }, keyboard: 0x2000 }"
    );
    assert_eq!(k.weak_reference().debug_string(), k.debug_string());
    let other = Keyboard::new_from_input_device(
        InputDevice::from_ptr(0x7f3a_bc01),
        InputDeviceKind::Keyboard(0xdead_beef),
    )
    .unwrap();
    assert_eq!(
        other.debug_string(),
        "Keyboard { device: InputDevice { device: 0x7f3abc01 }, keyboard: 0xdeadbeef }"
    );
}

#[test]
fn upgrade_on_what_was_read() {
    let k = keyboard();
    let handle = k.weak_reference();
    let (r, store) = handle.upgrade_found(None);
    assert!(matches!(r, Err(UpgradeHandleErr::DoubleUpgrade)));
    assert_eq!(store, None);
    let (r, store) = handle.upgrade_found(Some(true));
    assert!(matches!(r, Err(UpgradeHandleErr::AlreadyBorrowed)));
    assert_eq!(store, None);
    let (r, store) = handle.upgrade_found(Some(false));
    assert_eq!(r.expect("free keyboard").as_ptr(), 0x2000);
    assert_eq!(store, Some(true));
}

#[test]
fn key_states_are_distinct() {
    assert_ne!(KeyState::WLR_KEY_PRESSED, KeyState::WLR_KEY_RELEASED);
}
