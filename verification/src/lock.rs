use vstd::prelude::*;
use crate::errors::{UpgradeHandleErr, UpgradeHandleResult};

verus! {

/// What a keyboard handle finds when it looks at the keyboard it refers to:
/// whether the keyboard still exists, and whether it is mutably borrowed
/// through an upgraded handle.
#[derive(Debug, Clone, Copy, PartialEq, Eq, Structural)]
pub struct LockState {
    pub alive: bool,
    pub borrowed: bool,
}

/// What releasing the borrow after a callback found.
#[derive(Debug, Clone, Copy, PartialEq, Eq, Structural)]
pub enum ReleaseOutcome {
    /// The keyboard was borrowed and is free again.
    Released,
    /// The keyboard no longer exists; there is nothing to release.
    KeyboardGone,
    /// The keyboard exists but was not borrowed: its lock was tampered with.
    NotBorrowed,
}

impl LockState {
    /// Upgrading a handle: it fails when the keyboard is gone, fails when the
    /// keyboard is already borrowed, and otherwise takes the borrow.
    ///
    /// A double borrow is reported as `AlreadyBorrowed`, not by a panic: the
    /// decision is taken on a state read at run time, and the caller that runs
    /// a callback turns that error into a panic.
    pub open spec fn spec_upgrade(self) -> (UpgradeHandleResult<()>, LockState) {
        if !self.alive {
            (Err(UpgradeHandleErr::DoubleUpgrade), self)
        } else if self.borrowed {
            (Err(UpgradeHandleErr::AlreadyBorrowed), self)
        } else {
            (Ok(()), LockState { alive: true, borrowed: true })
        }
    }

    /// Releasing the borrow once a callback has run on the upgraded keyboard.
    pub open spec fn spec_release(self) -> (ReleaseOutcome, LockState) {
        if !self.alive {
            (ReleaseOutcome::KeyboardGone, self)
        } else if !self.borrowed {
            (ReleaseOutcome::NotBorrowed, self)
        } else {
            (ReleaseOutcome::Released, LockState { alive: true, borrowed: false })
        }
    }

    /// The outcome of an upgrade attempt in this state, and the state after it.
    pub fn upgrade(self) -> (r: (UpgradeHandleResult<()>, LockState))
        ensures
            r == self.spec_upgrade(),
    {
        if !self.alive {
            (Err(UpgradeHandleErr::DoubleUpgrade), self)
        } else if self.borrowed {
            (Err(UpgradeHandleErr::AlreadyBorrowed), self)
        } else {
            (Ok(()), LockState { alive: true, borrowed: true })
        }
    }

    /// The outcome of releasing the borrow in this state, and the state after it.
    pub fn release(self) -> (r: (ReleaseOutcome, LockState))
        ensures
            r == self.spec_release(),
    {
        if !self.alive {
            (ReleaseOutcome::KeyboardGone, self)
        } else if !self.borrowed {
            (ReleaseOutcome::NotBorrowed, self)
        } else {
            (ReleaseOutcome::Released, LockState { alive: true, borrowed: false })
        }
    }
}

/// The state in which a handle finds its keyboard, from what it read: `None`
/// when the keyboard is gone, `Some(flag)` with the lock flag read from the
/// keyboard's lock cell otherwise.
pub open spec fn observed(found: Option<bool>) -> LockState {
    match found {
        None => LockState { alive: false, borrowed: false },
        Some(flag) => LockState { alive: true, borrowed: flag },
    }
}

impl LockState {
    /// The state in which a handle finds its keyboard, from what it read.
    pub fn observe(found: Option<bool>) -> (r: LockState)
        ensures
            r == observed(found),
    {
        match found {
            None => LockState { alive: false, borrowed: false },
            Some(flag) => LockState { alive: true, borrowed: flag },
        }
    }
}

/// What releasing the borrow does on what the handle read (`None`: the
/// keyboard is gone; `Some(flag)`: the lock flag read): the outcome, and the
/// value to store into the lock cell, if any.
/// Gone gives `(KeyboardGone, None)`, an unset flag gives `(NotBorrowed, None)`,
/// and a set flag gives `(Released, Some(false))`.
pub fn release_found(found: Option<bool>) -> (r: (ReleaseOutcome, Option<bool>))
    ensures
        r.0 == observed(found).spec_release().0,
        r.1 == (if r.0 == ReleaseOutcome::Released {
            Some(observed(found).spec_release().1.borrowed)
        } else {
            None::<bool>
        }),
        found is None ==> r == (ReleaseOutcome::KeyboardGone, None::<bool>),
        found == Some(false) ==> r == (ReleaseOutcome::NotBorrowed, None::<bool>),
        found == Some(true) ==> r == (ReleaseOutcome::Released, Some(false)),
{
    let (outcome, next) = LockState::observe(found).release();
    match outcome {
        ReleaseOutcome::Released => (outcome, Some(next.borrowed)),
        _ => (outcome, None),
    }
}

/// An upgrade succeeds exactly when the keyboard exists and is not borrowed;
/// a failed upgrade changes nothing, and names why it failed.
pub proof fn lemma_upgrade_succeeds_iff_free(s: LockState)
    ensures
        (s.spec_upgrade().0 is Ok) <==> (s.alive && !s.borrowed),
        !s.alive ==> s.spec_upgrade().0 == Err::<(), UpgradeHandleErr>(
            UpgradeHandleErr::DoubleUpgrade,
        ),
        s.alive && s.borrowed ==> s.spec_upgrade().0 == Err::<(), UpgradeHandleErr>(
            UpgradeHandleErr::AlreadyBorrowed,
        ),
        s.spec_upgrade().0 is Err ==> s.spec_upgrade().1 == s,
{
}

/// A keyboard is never mutably borrowed twice at once: after a successful
/// upgrade, any further upgrade fails with `AlreadyBorrowed` until the borrow
/// is released (so nested `run` calls on one keyboard fail).
pub proof fn lemma_borrow_is_exclusive(s: LockState)
    requires
        s.spec_upgrade().0 is Ok,
    ensures
        s.spec_upgrade().1.spec_upgrade().0 == Err::<(), UpgradeHandleErr>(
            UpgradeHandleErr::AlreadyBorrowed,
        ),
        s.spec_upgrade().1.spec_upgrade().1 == s.spec_upgrade().1,
{
}

/// Releasing after a successful upgrade undoes it: the keyboard is free again,
/// so the next upgrade succeeds.
pub proof fn lemma_release_undoes_upgrade(s: LockState)
    requires
        s.spec_upgrade().0 is Ok,
    ensures
        s.spec_upgrade().1.spec_release().0 == ReleaseOutcome::Released,
        s.spec_upgrade().1.spec_release().1 == s,
        s.spec_upgrade().1.spec_release().1.spec_upgrade().0 is Ok,
{
}

/// Once the keyboard is gone, no upgrade or release brings it back: every
/// upgrade fails with `DoubleUpgrade` and release finds nothing to release.
pub proof fn lemma_gone_keyboard_stays_unreachable(s: LockState)
    requires
        !s.alive,
    ensures
        s.spec_upgrade() == (Err::<(), UpgradeHandleErr>(UpgradeHandleErr::DoubleUpgrade), s),
        s.spec_release() == (ReleaseOutcome::KeyboardGone, s),
{
}

/// No step brings a keyboard back to life.
pub proof fn lemma_steps_keep_gone(s: LockState)
    ensures
        !s.alive ==> !s.spec_upgrade().1.alive,
        !s.alive ==> !s.spec_release().1.alive,
        s.spec_upgrade().1.alive == s.alive,
        s.spec_release().1.alive == s.alive,
{
}

} // verus!
