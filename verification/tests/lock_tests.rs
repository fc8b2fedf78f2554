use wlroots::errors::UpgradeHandleErr;
use wlroots::lock::{release_found, LockState, ReleaseOutcome};

fn state(alive: bool, borrowed: bool) -> LockState {
    LockState { alive, borrowed }
}

#[test]
fn upgrade_of_a_free_keyboard_takes_the_borrow() {
    assert_eq!(state(true, false).upgrade(), (Ok(()), state(true, true)));
}

#[test]
fn upgrade_of_a_borrowed_keyboard_fails() {
    assert_eq!(
        state(true, true).upgrade(),
        (Err(UpgradeHandleErr::AlreadyBorrowed), state(true, true))
    );
}

#[test]
fn upgrade_of_a_gone_keyboard_fails() {
    assert_eq!(
        state(false, false).upgrade(),
        (Err(UpgradeHandleErr::DoubleUpgrade), state(false, false))
    );
    assert_eq!(
        state(false, true).upgrade(),
        (Err(UpgradeHandleErr::DoubleUpgrade), state(false, true))
    );
}

#[test]
fn second_upgrade_without_release_fails() {
    let (first, s1) = state(true, false).upgrade();
    assert_eq!(first, Ok(()));
    let (second, s2) = s1.upgrade();
    assert_eq!(second, Err(UpgradeHandleErr::AlreadyBorrowed));
    assert_eq!(s2, s1);
}

#[test]
fn release_undoes_upgrade() {
    let s0 = state(true, false);
    let (_, s1) = s0.upgrade();
    let (outcome, s2) = s1.release();
    assert_eq!(outcome, ReleaseOutcome::Released);
    assert_eq!(s2, s0);
    assert_eq!(s2.upgrade().0, Ok(()));
}

#[test]
fn release_of_an_unborrowed_keyboard_is_reported() {
    assert_eq!(state(true, false).release(), (ReleaseOutcome::NotBorrowed, state(true, false)));
}

#[test]
fn release_of_a_gone_keyboard_does_nothing() {
    assert_eq!(state(false, true).release(), (ReleaseOutcome::KeyboardGone, state(false, true)));
    assert_eq!(state(false, false).release(), (ReleaseOutcome::KeyboardGone, state(false, false)));
}

#[test]
fn release_on_what_was_read() {
    assert_eq!(release_found(None), (ReleaseOutcome::KeyboardGone, None));
    assert_eq!(release_found(Some(false)), (ReleaseOutcome::NotBorrowed, None));
    assert_eq!(release_found(Some(true)), (ReleaseOutcome::Released, Some(false)));
    assert_eq!(LockState::observe(None), state(false, false));
    assert_eq!(LockState::observe(Some(true)), state(true, true));
}
