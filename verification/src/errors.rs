use vstd::prelude::*;

verus! {

/// Why a handle could not be upgraded to the keyboard it refers to.
#[derive(Debug, Clone, Copy, PartialEq, Eq, Structural)]
pub enum UpgradeHandleErr {
    /// The keyboard is already mutably borrowed through another upgrade.
    AlreadyBorrowed,
    /// The keyboard behind the handle no longer exists.
    DoubleUpgrade,
}

/// The result of upgrading a handle.
pub type UpgradeHandleResult<T> = Result<T, UpgradeHandleErr>;

} // verus!
