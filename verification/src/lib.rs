//! Keyboard devices of a wlroots compositor: modifier and LED flag sets,
//! the handle protocol that guards mutable access to a keyboard, and the
//! decisions taken on the values that the compositor reads from wlroots.
pub mod errors;
pub mod flags;
pub mod lock;
pub mod input_device;
pub mod keyboard;
pub mod text;
pub mod listing;
