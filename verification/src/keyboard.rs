use vstd::prelude::*;
use std::rc::{Rc, Weak};
use std::sync::atomic::{AtomicBool, Ordering};
use crate::errors::{UpgradeHandleErr, UpgradeHandleResult};
use crate::flags::{KeyboardModifier, WLR_MODIFIER_ALL};
use crate::input_device::{InputDevice, InputDeviceKind};
use crate::lock::{LockState, ReleaseOutcome, observed, release_found};
use crate::text::{address_text, append_address, hex_digits, hex_value, is_hex_numeral, lemma_address_text_denotes};

verus! {

/// The maximum number of keycodes stored in a `Keyboard`.
pub const WLR_KEYBOARD_KEYS_CAP: usize = 32;

/// Whether a key is pressed or released, as wlroots reports it.
#[allow(non_camel_case_types)]
#[derive(Debug, Clone, Copy, PartialEq, Eq, Structural, Hash)]
pub enum KeyState {
    WLR_KEY_RELEASED,
    WLR_KEY_PRESSED,
}

/// The keymap that wlroots holds for a keyboard, known by the (non-null)
/// address of its `xkb_keymap`.
#[derive(Debug, Clone, Copy, PartialEq, Eq, Structural, Hash)]
pub struct Keymap {
    ptr: usize,
}

/// The XKB state that wlroots holds for a keyboard, known by the (non-null)
/// address of its `xkb_state`.
#[derive(Debug, Clone, Copy, PartialEq, Eq, Structural, Hash)]
pub struct XkbState {
    ptr: usize,
}

impl Keymap {
    pub closed spec fn addr(self) -> usize {
        self.ptr
    }

    /// The address is never null.
    #[verifier::type_invariant]
    spec fn non_null(self) -> bool {
        self.ptr != 0
    }

    /// The address of the `xkb_keymap`, which is not null.
    pub fn as_ptr(&self) -> (r: usize)
        ensures
            r == self.addr(),
            r != 0,
    {
        proof {
            use_type_invariant(self);
        }
        self.ptr
    }
}

impl XkbState {
    pub closed spec fn addr(self) -> usize {
        self.ptr
    }

    /// The address is never null.
    #[verifier::type_invariant]
    spec fn non_null(self) -> bool {
        self.ptr != 0
    }

    /// The address of the `xkb_state`, which is not null.
    pub fn as_ptr(&self) -> (r: usize)
        ensures
            r == self.addr(),
            r != 0,
    {
        proof {
            use_type_invariant(self);
        }
        self.ptr
    }
}

/// A weak reference to the lock cell that a keyboard owns. It stops reaching
/// the cell once the keyboard, the cell's only strong owner, is gone.
#[derive(Debug)]
#[verifier::external_body]
pub struct LivelinessRef {
    inner: Weak<AtomicBool>,
}

/// `std::rc::Rc::downgrade`: a weak reference to `cell`. Nothing is stated of
/// the result: what it reaches later depends on the cell's other owners.
#[verifier::external_body]
fn downgrade_liveliness(cell: &Rc<AtomicBool>) -> LivelinessRef {
    LivelinessRef { inner: Rc::downgrade(cell) }
}

/// `std::rc::Weak::upgrade`: the lock cell while its keyboard still owns it,
/// `None` once the keyboard is gone. Which of the two comes back depends on
/// what happened to the keyboard elsewhere, so nothing is stated of it.
#[verifier::external_body]
fn upgrade_liveliness(handle: &LivelinessRef) -> Option<Rc<AtomicBool>> {
    handle.inner.upgrade()
}

/// A keyboard input device.
///
/// A keyboard made from an input device owns the lock cell that its handles
/// share; a keyboard made by upgrading a handle owns none.
#[derive(Debug)]
pub struct Keyboard {
    /// The lock cell, marking whether the keyboard is mutably borrowed through
    /// an upgraded handle. `None` on a keyboard obtained by upgrading a handle.
    liveliness: Option<Rc<AtomicBool>>,
    /// The device that refers to this keyboard.
    device: InputDevice,
    /// The address of the underlying `wlr_keyboard`.
    keyboard: usize,
    /// The keymap last read from wlroots, kept so that it is borrowed no
    /// longer than the keyboard.
    keymap: Option<Keymap>,
    /// The XKB state last read from wlroots, kept so that it is borrowed no
    /// longer than the keyboard.
    xkb_state: Option<XkbState>,
}

/// A weak handle to a `Keyboard`, which can be upgraded to the keyboard while
/// it exists and is not borrowed.
#[derive(Debug)]
pub struct KeyboardHandle {
    /// Reaches the keyboard's lock cell while the keyboard exists.
    handle: LivelinessRef,
    /// The device that refers to this keyboard.
    device: InputDevice,
    /// The address of the underlying `wlr_keyboard`.
    keyboard: usize,
    keymap: Option<Keymap>,
    xkb_state: Option<XkbState>,
}

/// The text that `{:?}` gives for a keyboard (and for a handle to it):
/// `Keyboard { device: …, keyboard: 0x… }`.
pub open spec fn keyboard_debug_text(device: InputDevice, keyboard: usize) -> Seq<char> {
    "Keyboard { device: "@ + device.spec_debug_string() + ", keyboard: "@ + address_text(keyboard)
        + " }"@
}

/// The text of a keyboard shows both whole addresses: after `device: 0x` the
/// lower-case hexadecimal digits of the device's address, after `keyboard: 0x`
/// those of the keyboard's, each without leading zeros.
pub proof fn lemma_keyboard_text_shows_addresses(device: InputDevice, keyboard: usize)
    ensures
        exists|dd: Seq<char>, kd: Seq<char>|
            {
                &&& is_hex_numeral(dd)
                &&& is_hex_numeral(kd)
                &&& #[trigger] hex_value(dd) == device.addr()
                &&& #[trigger] hex_value(kd) == keyboard
                &&& keyboard_debug_text(device, keyboard) == "Keyboard { device: "@
                    + "InputDevice { device: "@ + "0x"@ + dd + " }"@ + ", keyboard: "@ + "0x"@ + kd
                    + " }"@
            },
{
    lemma_address_text_denotes(device.addr());
    lemma_address_text_denotes(keyboard);
    let dd = hex_digits(device.addr() as nat);
    let kd = hex_digits(keyboard as nat);
    assert(keyboard_debug_text(device, keyboard) =~= "Keyboard { device: "@
        + "InputDevice { device: "@ + "0x"@ + dd + " }"@ + ", keyboard: "@ + "0x"@ + kd + " }"@);
    assert(hex_value(dd) == device.addr());
    assert(hex_value(kd) == keyboard);
}

fn keyboard_debug_string(device: &InputDevice, keyboard: usize) -> (r: String)
    ensures
        r@ == keyboard_debug_text(*device, keyboard),
{
    let mut r = String::new();
    r.append("Keyboard { device: ");
    device.append_debug_string(&mut r);
    r.append(", keyboard: ");
    append_address(&mut r, keyboard);
    r.append(" }");
    assert(r@ =~= keyboard_debug_text(*device, keyboard));
    r
}

impl Keyboard {
    /// Whether this keyboard was obtained by upgrading a handle (and so owns no
    /// lock cell).
    pub closed spec fn is_upgraded(self) -> bool {
        self.liveliness is None
    }

    pub closed spec fn spec_device(self) -> InputDevice {
        self.device
    }

    /// The address of the underlying `wlr_keyboard`.
    pub closed spec fn spec_keyboard(self) -> usize {
        self.keyboard
    }

    pub closed spec fn spec_keymap(self) -> Option<Keymap> {
        self.keymap
    }

    pub closed spec fn spec_xkb_state(self) -> Option<XkbState> {
        self.xkb_state
    }

    /// The keyboard of an input device, given the kind that wlroots reports for
    /// it; `None` if the device is not a keyboard. The new keyboard owns a fresh,
    /// unlocked lock cell and holds no keymap or XKB state yet.
    pub fn new_from_input_device(device: InputDevice, kind: InputDeviceKind) -> (r: Option<Self>)
        ensures
            r is Some <==> kind is Keyboard,
            r matches Some(k) ==> {
                &&& kind matches InputDeviceKind::Keyboard(ptr) && k.spec_keyboard() == ptr
                &&& k.spec_device() == device
                &&& !k.is_upgraded()
                &&& k.spec_keymap() is None
                &&& k.spec_xkb_state() is None
            },
    {
        match kind {
            InputDeviceKind::Keyboard(keyboard) => Some(
                Keyboard {
                    liveliness: Some(Rc::new(AtomicBool::new(false))),
                    device,
                    keyboard,
                    keymap: None,
                    xkb_state: None,
                },
            ),
            _ => None,
        }
    }

    /// The keyboard that a handle refers to, owning no lock cell.
    fn from_handle(handle: &KeyboardHandle) -> (r: Self)
        ensures
            r.is_upgraded(),
            r.spec_device() == handle.spec_device(),
            r.spec_keyboard() == handle.spec_keyboard(),
            r.spec_keymap() is None,
            r.spec_xkb_state() is None,
    {
        Keyboard {
            liveliness: None,
            device: *handle.input_device(),
            keyboard: handle.as_ptr(),
            keymap: None,
            xkb_state: None,
        }
    }

    /// The address of the underlying `wlr_keyboard`.
    pub fn as_ptr(&self) -> (r: usize)
        ensures
            r == self.spec_keyboard(),
    {
        self.keyboard
    }

    /// This keyboard as text: `Keyboard { device: InputDevice { device: 0x… }, keyboard: 0x… }`.
    pub fn debug_string(&self) -> (r: String)
        ensures
            r@ == keyboard_debug_text(self.spec_device(), self.spec_keyboard()),
    {
        keyboard_debug_string(&self.device, self.keyboard)
    }

    /// The input device of this keyboard.
    pub fn input_device(&self) -> (r: &InputDevice)
        ensures
            *r == self.spec_device(),
    {
        &self.device
    }

    /// The keymap of this keyboard, given the address of the `xkb_keymap` that
    /// wlroots holds for it: `None` when that address is null; otherwise the
    /// keyboard keeps the keymap and lends it out.
    pub fn get_keymap(&mut self, raw_keymap: usize) -> (r: Option<&Keymap>)
        ensures
            raw_keymap == 0 ==> r is None && *final(self) == *old(self),
            raw_keymap != 0 ==> {
                &&& r matches Some(k) && k.addr() == raw_keymap
                &&& final(self).spec_keymap() == Some(*r.unwrap())
                &&& final(self).is_upgraded() == old(self).is_upgraded()
                &&& final(self).spec_device() == old(self).spec_device()
                &&& final(self).spec_keyboard() == old(self).spec_keyboard()
                &&& final(self).spec_xkb_state() == old(self).spec_xkb_state()
            },
    {
        if raw_keymap == 0 {
            None
        } else {
            self.keymap = Some(Keymap { ptr: raw_keymap });
            self.keymap.as_ref()
        }
    }

    /// The XKB state of this keyboard, given the address of the `xkb_state` that
    /// wlroots holds for it: `None` when that address is null; otherwise the
    /// keyboard keeps the state and lends it out.
    pub fn get_xkb_state(&mut self, raw_xkb_state: usize) -> (r: Option<&XkbState>)
        ensures
            raw_xkb_state == 0 ==> r is None && *final(self) == *old(self),
            raw_xkb_state != 0 ==> {
                &&& r matches Some(s) && s.addr() == raw_xkb_state
                &&& final(self).spec_xkb_state() == Some(*r.unwrap())
                &&& final(self).is_upgraded() == old(self).is_upgraded()
                &&& final(self).spec_device() == old(self).spec_device()
                &&& final(self).spec_keyboard() == old(self).spec_keyboard()
                &&& final(self).spec_keymap() == old(self).spec_keymap()
            },
    {
        if raw_xkb_state == 0 {
            None
        } else {
            self.xkb_state = Some(XkbState { ptr: raw_xkb_state });
            self.xkb_state.as_ref()
        }
    }

    /// The modifiers pressed on this keyboard, given the modifier mask that
    /// wlroots reports for it; unknown bits are dropped.
    pub fn get_modifiers(&self, raw_modifiers: u32) -> (r: KeyboardModifier)
        ensures
            r.spec_bits() == raw_modifiers & WLR_MODIFIER_ALL,
    {
        KeyboardModifier::from_bits_truncate(raw_modifiers)
    }

    /// A weak handle to this keyboard. The keyboard must own its lock cell: one
    /// obtained by upgrading a handle cannot hand out further handles.
    pub fn weak_reference(&self) -> (r: KeyboardHandle)
        requires
            !self.is_upgraded(),
        ensures
            r.spec_device() == self.spec_device(),
            r.spec_keyboard() == self.spec_keyboard(),
    {
        let cell = self.liveliness.as_ref().unwrap();
        KeyboardHandle {
            handle: downgrade_liveliness(cell),
            device: self.device,
            keyboard: self.keyboard,
            keymap: None,
            xkb_state: None,
        }
    }

    /// Sets the lock that marks this keyboard as mutably borrowed. The keyboard
    /// must own its lock cell.
    pub fn set_lock(&self, val: bool)
        requires
            !self.is_upgraded(),
    {
        let cell = self.liveliness.as_ref().unwrap();
        cell.store(val, Ordering::Release);
    }
}

/// What a handle reads of its keyboard: `None` when it no longer reaches the
/// lock cell, otherwise the lock flag loaded from the cell.
fn read_found(check: &Option<Rc<AtomicBool>>) -> (r: Option<bool>)
    ensures
        r is Some <==> check is Some,
{
    match check {
        Some(cell) => Some(cell.load(Ordering::Acquire)),
        None => None,
    }
}

/// Stores `store` into the lock cell, when there is a cell and a value to store.
fn store_found(check: &Option<Rc<AtomicBool>>, store: Option<bool>) {
    if let Some(cell) = check {
        if let Some(flag) = store {
            cell.store(flag, Ordering::Release);
        }
    }
}

impl KeyboardHandle {
    pub closed spec fn spec_device(self) -> InputDevice {
        self.device
    }

    /// The address of the underlying `wlr_keyboard`.
    pub closed spec fn spec_keyboard(self) -> usize {
        self.keyboard
    }

    /// The outcome of upgrading this handle when the keyboard is found in
    /// `state`, and the state that the lock must be left in: `LockState::upgrade`
    /// decides, and on success the keyboard that the handle refers to comes back.
    pub fn upgrade_from(&self, state: LockState) -> (r: (UpgradeHandleResult<Keyboard>, LockState))
        ensures
            r.1 == state.spec_upgrade().1,
            (r.0 is Ok) <==> (state.spec_upgrade().0 is Ok),
            r.0 matches Err(e) ==> state.spec_upgrade().0 == Err::<(), UpgradeHandleErr>(e),
            r.0 matches Ok(k) ==> {
                &&& k.is_upgraded()
                &&& k.spec_device() == self.spec_device()
                &&& k.spec_keyboard() == self.spec_keyboard()
                &&& k.spec_keymap() is None
                &&& k.spec_xkb_state() is None
            },
    {
        let (decision, next) = state.upgrade();
        match decision {
            Err(err) => (Err(err), next),
            Ok(()) => (Ok(Keyboard::from_handle(self)), next),
        }
    }

    /// What upgrading this handle does on what it read (`None`: the keyboard is
    /// gone; `Some(flag)`: the lock flag read from the keyboard's lock cell): the
    /// result, and the value to store into the lock cell, if any.
    /// Gone gives `Err(DoubleUpgrade)`, a set flag gives `Err(AlreadyBorrowed)`,
    /// both storing nothing; an unset flag gives the keyboard and stores `true`.
    pub fn upgrade_found(&self, found: Option<bool>) -> (r: (UpgradeHandleResult<Keyboard>, Option<bool>))
        ensures
            found is None ==> r.0 == Err::<Keyboard, UpgradeHandleErr>(UpgradeHandleErr::DoubleUpgrade)
                && r.1 == None::<bool>,
            found == Some(true) ==> r.0 == Err::<Keyboard, UpgradeHandleErr>(
                UpgradeHandleErr::AlreadyBorrowed,
            ) && r.1 == None::<bool>,
            found == Some(false) ==> r.0 is Ok && r.1 == Some(true),
            (r.0 is Ok) <==> (observed(found).spec_upgrade().0 is Ok),
            r.0 matches Ok(k) ==> {
                &&& k.is_upgraded()
                &&& k.spec_device() == self.spec_device()
                &&& k.spec_keyboard() == self.spec_keyboard()
                &&& k.spec_keymap() is None
                &&& k.spec_xkb_state() is None
            },
    {
        let (result, next) = self.upgrade_from(LockState::observe(found));
        if result.is_ok() {
            (result, Some(next.borrowed))
        } else {
            (result, None)
        }
    }

    /// Upgrades this handle to the keyboard it refers to, taking the borrow.
    ///
    /// The handle reads its keyboard's lock cell, if the keyboard still exists,
    /// and `upgrade_found` decides on what was read: `Err(DoubleUpgrade)` when
    /// the keyboard is gone, `Err(AlreadyBorrowed)` when it is borrowed, and
    /// otherwise the lock is set and the keyboard comes back.
    ///
    /// A double borrow does not panic here: whether the keyboard is borrowed is
    /// only known once the shared lock has been read, so it is reported as
    /// `Err(AlreadyBorrowed)`, and a caller that runs a callback on the
    /// keyboard panics on that error.
    pub fn upgrade(&self) -> (r: UpgradeHandleResult<Keyboard>)
        ensures
            r matches Ok(k) ==> {
                &&& k.is_upgraded()
                &&& k.spec_device() == self.spec_device()
                &&& k.spec_keyboard() == self.spec_keyboard()
                &&& k.spec_keymap() is None
                &&& k.spec_xkb_state() is None
            },
    {
        let check = upgrade_liveliness(&self.handle);
        let found = read_found(&check);
        let (result, store) = self.upgrade_found(found);
        store_found(&check, store);
        result
    }

    /// Releases the borrow taken by `upgrade`, once a callback has run on the
    /// keyboard. The handle reads its keyboard's lock cell, if the keyboard
    /// still exists, and `release_found` decides on what was read: when the
    /// keyboard is gone nothing is done; when it is not borrowed the lock was
    /// tampered with and nothing is done; otherwise the lock is cleared.
    pub fn release(&self) -> (r: ReleaseOutcome) {
        let check = upgrade_liveliness(&self.handle);
        let found = read_found(&check);
        let (outcome, store) = release_found(found);
        store_found(&check, store);
        outcome
    }

    /// The handle as text, the same as its keyboard's:
    /// `Keyboard { device: InputDevice { device: 0x… }, keyboard: 0x… }`.
    pub fn debug_string(&self) -> (r: String)
        ensures
            r@ == keyboard_debug_text(self.spec_device(), self.spec_keyboard()),
    {
        keyboard_debug_string(&self.device, self.keyboard)
    }

    /// The input device of the keyboard.
    pub fn input_device(&self) -> (r: &InputDevice)
        ensures
            *r == self.spec_device(),
    {
        &self.device
    }

    /// The address of the underlying `wlr_keyboard`.
    pub fn as_ptr(&self) -> (r: usize)
        ensures
            r == self.spec_keyboard(),
    {
        self.keyboard
    }
}

} // verus!
