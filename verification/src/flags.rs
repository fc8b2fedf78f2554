use vstd::prelude::*;
use crate::listing::{listed, lemma_listed};

verus! {

/// Bit of the num-lock LED.
pub const WLR_LED_NUM_LOCK: u32 = 1;

/// Bit of the caps-lock LED.
pub const WLR_LED_CAPS_LOCK: u32 = 2;

/// Bit of the scroll-lock LED.
pub const WLR_LED_SCROLL_LOCK: u32 = 4;

/// Every LED bit.
pub const WLR_LED_ALL: u32 = 7;

/// Bit of the shift modifier.
pub const WLR_MODIFIER_SHIFT: u32 = 1;

/// Bit of the caps-lock modifier.
pub const WLR_MODIFIER_CAPS: u32 = 2;

/// Bit of the control modifier.
pub const WLR_MODIFIER_CTRL: u32 = 4;

/// Bit of the alt modifier.
pub const WLR_MODIFIER_ALT: u32 = 8;

/// Bit of the mod2 modifier.
pub const WLR_MODIFIER_MOD2: u32 = 16;

/// Bit of the mod3 modifier.
pub const WLR_MODIFIER_MOD3: u32 = 32;

/// Bit of the logo modifier.
pub const WLR_MODIFIER_LOGO: u32 = 64;

/// Bit of the mod5 modifier.
pub const WLR_MODIFIER_MOD5: u32 = 128;

/// Every modifier bit.
pub const WLR_MODIFIER_ALL: u32 = 255;

/// The LEDs of a keyboard: a set of the `WLR_LED_*` bits.
#[derive(Debug, Clone, Copy, PartialEq, Eq, Structural, Hash)]
pub struct KeyboardLed {
    bits: u32,
}

/// The modifiers of a keyboard: a set of the `WLR_MODIFIER_*` bits.
#[derive(Debug, Clone, Copy, PartialEq, Eq, Structural, Hash)]
pub struct KeyboardModifier {
    bits: u32,
}

/// The modifier bit at position `i` of the order in which modifiers are named:
/// shift, caps lock, ctrl, alt, mod2, mod3, logo, mod5.
pub open spec fn modifier_bit(i: int) -> u32 {
    if i == 0 {
        WLR_MODIFIER_SHIFT
    } else if i == 1 {
        WLR_MODIFIER_CAPS
    } else if i == 2 {
        WLR_MODIFIER_CTRL
    } else if i == 3 {
        WLR_MODIFIER_ALT
    } else if i == 4 {
        WLR_MODIFIER_MOD2
    } else if i == 5 {
        WLR_MODIFIER_MOD3
    } else if i == 6 {
        WLR_MODIFIER_LOGO
    } else {
        WLR_MODIFIER_MOD5
    }
}

/// The human-readable name of the modifier at position `i`.
pub open spec fn modifier_name(i: int) -> Seq<char> {
    if i == 0 {
        "Shift"@
    } else if i == 1 {
        "Caps lock"@
    } else if i == 2 {
        "Ctrl"@
    } else if i == 3 {
        "Alt"@
    } else if i == 4 {
        "Mod2"@
    } else if i == 5 {
        "Mod3"@
    } else if i == 6 {
        "Logo"@
    } else {
        "Mod5"@
    }
}

/// The number of named modifiers.
pub const MODIFIER_COUNT: usize = 8;

/// The names of the modifiers among the first `n` positions whose bit is in `bits`,
/// in position order.
pub open spec fn names_among(bits: u32, n: nat) -> Seq<Seq<char>>
    decreases n,
{
    if n == 0 {
        Seq::empty()
    } else {
        let before = names_among(bits, (n - 1) as nat);
        if bits & modifier_bit(n - 1) == modifier_bit(n - 1) {
            before.push(modifier_name(n - 1))
        } else {
            before
        }
    }
}

/// A string between double quotes, as `{:?}` writes a plain name.
pub open spec fn quoted(s: Seq<char>) -> Seq<char> {
    "\""@ + s + "\""@
}

/// The items of a list of names as `{:?}` writes them: quoted and separated by `", "`.
pub open spec fn debug_items(names: Seq<Seq<char>>) -> Seq<char>
    decreases names.len(),
{
    if names.len() == 0 {
        Seq::empty()
    } else if names.len() == 1 {
        quoted(names[0])
    } else {
        debug_items(names.drop_last()) + ", "@ + quoted(names.last())
    }
}

/// A list of names as `{:?}` writes it: its items between square brackets.
pub open spec fn debug_list(names: Seq<Seq<char>>) -> Seq<char> {
    "["@ + debug_items(names) + "]"@
}

/// The name and the bit of the modifier at position `i`.
fn modifier_entry(i: usize) -> (r: (&'static str, u32))
    requires
        i < MODIFIER_COUNT,
    ensures
        r.0@ == modifier_name(i as int),
        r.1 == modifier_bit(i as int),
{
    if i == 0 {
        ("Shift", WLR_MODIFIER_SHIFT)
    } else if i == 1 {
        ("Caps lock", WLR_MODIFIER_CAPS)
    } else if i == 2 {
        ("Ctrl", WLR_MODIFIER_CTRL)
    } else if i == 3 {
        ("Alt", WLR_MODIFIER_ALT)
    } else if i == 4 {
        ("Mod2", WLR_MODIFIER_MOD2)
    } else if i == 5 {
        ("Mod3", WLR_MODIFIER_MOD3)
    } else if i == 6 {
        ("Logo", WLR_MODIFIER_LOGO)
    } else {
        ("Mod5", WLR_MODIFIER_MOD5)
    }
}

/// The name of the modifier flag at position `i`, as the flag is called.
pub open spec fn modifier_flag_name(i: int) -> Seq<char> {
    if i == 0 {
        "WLR_MODIFIER_SHIFT"@
    } else if i == 1 {
        "WLR_MODIFIER_CAPS"@
    } else if i == 2 {
        "WLR_MODIFIER_CTRL"@
    } else if i == 3 {
        "WLR_MODIFIER_ALT"@
    } else if i == 4 {
        "WLR_MODIFIER_MOD2"@
    } else if i == 5 {
        "WLR_MODIFIER_MOD3"@
    } else if i == 6 {
        "WLR_MODIFIER_LOGO"@
    } else {
        "WLR_MODIFIER_MOD5"@
    }
}

/// The flag names of the modifiers among the first `n` positions whose bit is
/// in `bits`, in position order.
pub open spec fn modifier_flags_among(bits: u32, n: nat) -> Seq<Seq<char>>
    decreases n,
{
    if n == 0 {
        Seq::empty()
    } else {
        let before = modifier_flags_among(bits, (n - 1) as nat);
        if bits & modifier_bit(n - 1) == modifier_bit(n - 1) {
            before.push(modifier_flag_name(n - 1))
        } else {
            before
        }
    }
}

/// The number of LEDs.
pub const LED_COUNT: usize = 3;

/// The LED bit at position `i`: num lock, caps lock, scroll lock.
pub open spec fn led_bit(i: int) -> u32 {
    if i == 0 {
        WLR_LED_NUM_LOCK
    } else if i == 1 {
        WLR_LED_CAPS_LOCK
    } else {
        WLR_LED_SCROLL_LOCK
    }
}

/// The name of the LED flag at position `i`, as the flag is called.
pub open spec fn led_flag_name(i: int) -> Seq<char> {
    if i == 0 {
        "WLR_LED_NUM_LOCK"@
    } else if i == 1 {
        "WLR_LED_CAPS_LOCK"@
    } else {
        "WLR_LED_SCROLL_LOCK"@
    }
}

/// The flag names of the LEDs among the first `n` positions whose bit is in
/// `bits`, in position order.
pub open spec fn led_flags_among(bits: u32, n: nat) -> Seq<Seq<char>>
    decreases n,
{
    if n == 0 {
        Seq::empty()
    } else {
        let before = led_flags_among(bits, (n - 1) as nat);
        if bits & led_bit(n - 1) == led_bit(n - 1) {
            before.push(led_flag_name(n - 1))
        } else {
            before
        }
    }
}

/// Flag names joined by `" | "`.
pub open spec fn flag_items(names: Seq<Seq<char>>) -> Seq<char>
    decreases names.len(),
{
    if names.len() == 0 {
        Seq::empty()
    } else if names.len() == 1 {
        names[0]
    } else {
        flag_items(names.drop_last()) + " | "@ + names.last()
    }
}

/// A flag set as `{:?}` writes it: the names of its flags joined by `" | "`,
/// or `(empty)` when it has none.
pub open spec fn flag_set_text(names: Seq<Seq<char>>) -> Seq<char> {
    if names.len() == 0 {
        "(empty)"@
    } else {
        flag_items(names)
    }
}

fn flag_set_string(names: &Vec<&'static str>) -> (r: String)
    ensures
        r@ == flag_set_text(names@.map_values(|s: &'static str| s@)),
{
    let ghost views = names@.map_values(|s: &'static str| s@);
    let mut r = String::new();
    if names.len() == 0 {
        r.append("(empty)");
        return r;
    }
    let mut i: usize = 0;
    while i < names.len()
        invariant
            i <= names.len(),
            names.len() > 0,
            views == names@.map_values(|s: &'static str| s@),
            r@ == flag_items(views.take(i as int)),
        decreases names.len() - i,
    {
        if i > 0 {
            r.append(" | ");
        }
        r.append(names[i]);
        assert(views.take(i + 1).drop_last() =~= views.take(i as int));
        assert(i == 0 ==> r@ =~= flag_items(views.take(i + 1)));
        i = i + 1;
    }
    assert(views.take(names.len() as int) =~= views);
    r
}

/// The flag name and the bit of the modifier at position `i`.
fn modifier_flag_entry(i: usize) -> (r: (&'static str, u32))
    requires
        i < MODIFIER_COUNT,
    ensures
        r.0@ == modifier_flag_name(i as int),
        r.1 == modifier_bit(i as int),
{
    if i == 0 {
        ("WLR_MODIFIER_SHIFT", WLR_MODIFIER_SHIFT)
    } else if i == 1 {
        ("WLR_MODIFIER_CAPS", WLR_MODIFIER_CAPS)
    } else if i == 2 {
        ("WLR_MODIFIER_CTRL", WLR_MODIFIER_CTRL)
    } else if i == 3 {
        ("WLR_MODIFIER_ALT", WLR_MODIFIER_ALT)
    } else if i == 4 {
        ("WLR_MODIFIER_MOD2", WLR_MODIFIER_MOD2)
    } else if i == 5 {
        ("WLR_MODIFIER_MOD3", WLR_MODIFIER_MOD3)
    } else if i == 6 {
        ("WLR_MODIFIER_LOGO", WLR_MODIFIER_LOGO)
    } else {
        ("WLR_MODIFIER_MOD5", WLR_MODIFIER_MOD5)
    }
}

/// The flag name and the bit of the LED at position `i`.
fn led_flag_entry(i: usize) -> (r: (&'static str, u32))
    requires
        i < LED_COUNT,
    ensures
        r.0@ == led_flag_name(i as int),
        r.1 == led_bit(i as int),
{
    if i == 0 {
        ("WLR_LED_NUM_LOCK", WLR_LED_NUM_LOCK)
    } else if i == 1 {
        ("WLR_LED_CAPS_LOCK", WLR_LED_CAPS_LOCK)
    } else {
        ("WLR_LED_SCROLL_LOCK", WLR_LED_SCROLL_LOCK)
    }
}

/// The sets of bits inside a mask are closed under union, intersection,
/// difference and symmetric difference; the complement within the mask stays
/// inside it.
proof fn lemma_mask_closed(a: u32, b: u32, m: u32)
    by (bit_vector)
    requires
        a & m == a,
        b & m == b,
    ensures
        (a | b) & m == a | b,
        (a & b) & m == a & b,
        (a & !b) & m == a & !b,
        (a ^ b) & m == a ^ b,
        (!a & m) & m == !a & m,
{
}

impl KeyboardLed {
    /// The raw bits of this set; they never leave `WLR_LED_ALL`.
    pub closed spec fn spec_bits(self) -> u32 {
        self.bits
    }

    /// A set holds no bit outside `WLR_LED_ALL`.
    #[verifier::type_invariant]
    spec fn wf(self) -> bool {
        self.bits & WLR_LED_ALL == self.bits
    }

    /// The raw bits of this set; none lies outside `WLR_LED_ALL`.
    pub fn bits(&self) -> (r: u32)
        ensures
            r == self.spec_bits(),
            r & WLR_LED_ALL == r,
    {
        proof {
            use_type_invariant(self);
        }
        self.bits
    }

    /// The set of the known LED bits of `bits`; unknown bits are dropped.
    pub fn from_bits_truncate(bits: u32) -> (r: Self)
        ensures
            r.spec_bits() == bits & WLR_LED_ALL,
            r.spec_bits() & WLR_LED_ALL == r.spec_bits(),
    {
        assert(bits & 7u32 & 7u32 == bits & 7u32) by (bit_vector);
        KeyboardLed { bits: bits & WLR_LED_ALL }
    }

    /// The empty set.
    pub fn empty() -> (r: Self)
        ensures
            r.spec_bits() == 0,
    {
        assert(0u32 & 7u32 == 0u32) by (bit_vector);
        KeyboardLed { bits: 0 }
    }

    /// The set of every known bit, `WLR_LED_ALL`.
    pub fn all() -> (r: Self)
        ensures
            r.spec_bits() == WLR_LED_ALL,
    {
        assert(7u32 & 7u32 == 7u32) by (bit_vector);
        KeyboardLed { bits: WLR_LED_ALL }
    }

    /// The bits that are in either set.
    pub fn union(&self, other: KeyboardLed) -> (r: Self)
        ensures
            r.spec_bits() == self.spec_bits() | other.spec_bits(),
    {
        let a = self.bits();
        let b = other.bits();
        assert(a & 7u32 == a && b & 7u32 == b ==> (a | b) & 7u32 == (a | b)) by (bit_vector);
        KeyboardLed { bits: a | b }
    }

    /// Whether every bit of `other` is in this set.
    pub fn contains(&self, other: KeyboardLed) -> (r: bool)
        ensures
            r == (self.spec_bits() & other.spec_bits() == other.spec_bits()),
    {
        self.bits & other.bits == other.bits
    }

    /// The set of `bits`, or `None` when `bits` holds a bit outside `WLR_LED_ALL`.
    pub fn from_bits(bits: u32) -> (r: Option<Self>)
        ensures
            r is Some <==> bits & WLR_LED_ALL == bits,
            r matches Some(f) ==> f.spec_bits() == bits,
    {
        if bits & WLR_LED_ALL == bits {
            Some(KeyboardLed { bits })
        } else {
            None
        }
    }

    /// Whether no bit is set.
    pub fn is_empty(&self) -> (r: bool)
        ensures
            r == (self.spec_bits() == 0),
    {
        self.bits == 0
    }

    /// Whether every known bit is set.
    pub fn is_all(&self) -> (r: bool)
        ensures
            r == (self.spec_bits() == WLR_LED_ALL),
    {
        self.bits == WLR_LED_ALL
    }

    /// Whether the two sets share a bit.
    pub fn intersects(&self, other: KeyboardLed) -> (r: bool)
        ensures
            r == (self.spec_bits() & other.spec_bits() != 0),
    {
        self.bits & other.bits != 0
    }

    /// The bits that are in both sets.
    pub fn intersection(&self, other: KeyboardLed) -> (r: Self)
        ensures
            r.spec_bits() == self.spec_bits() & other.spec_bits(),
    {
        let a = self.bits();
        let b = other.bits();
        proof {
            lemma_mask_closed(a, b, WLR_LED_ALL);
        }
        KeyboardLed { bits: a & b }
    }

    /// The bits of this set that are not in `other`.
    pub fn difference(&self, other: KeyboardLed) -> (r: Self)
        ensures
            r.spec_bits() == self.spec_bits() & !other.spec_bits(),
    {
        let a = self.bits();
        let b = other.bits();
        proof {
            lemma_mask_closed(a, b, WLR_LED_ALL);
        }
        KeyboardLed { bits: a & !b }
    }

    /// The bits that are in exactly one of the two sets.
    pub fn symmetric_difference(&self, other: KeyboardLed) -> (r: Self)
        ensures
            r.spec_bits() == self.spec_bits() ^ other.spec_bits(),
    {
        let a = self.bits();
        let b = other.bits();
        proof {
            lemma_mask_closed(a, b, WLR_LED_ALL);
        }
        KeyboardLed { bits: a ^ b }
    }

    /// The known bits that are not in this set.
    pub fn complement(&self) -> (r: Self)
        ensures
            r.spec_bits() == !self.spec_bits() & WLR_LED_ALL,
    {
        let a = self.bits();
        proof {
            lemma_mask_closed(a, a, WLR_LED_ALL);
        }
        KeyboardLed { bits: !a & WLR_LED_ALL }
    }

    /// Adds the bits of `other` to this set.
    pub fn insert(&mut self, other: KeyboardLed)
        ensures
            final(self).spec_bits() == old(self).spec_bits() | other.spec_bits(),
    {
        *self = self.union(other);
    }

    /// Removes the bits of `other` from this set.
    pub fn remove(&mut self, other: KeyboardLed)
        ensures
            final(self).spec_bits() == old(self).spec_bits() & !other.spec_bits(),
    {
        *self = self.difference(other);
    }

    /// Flips the bits of `other` in this set.
    pub fn toggle(&mut self, other: KeyboardLed)
        ensures
            final(self).spec_bits() == old(self).spec_bits() ^ other.spec_bits(),
    {
        *self = self.symmetric_difference(other);
    }

    /// The names of the flags in this set, as the flags are called, in flag order.
    pub open spec fn spec_flag_names(self) -> Seq<Seq<char>> {
        led_flags_among(self.spec_bits(), LED_COUNT as nat)
    }

    /// The names of the flags in this set, as the flags are called, in flag order.
    pub fn flag_names(&self) -> (r: Vec<&'static str>)
        ensures
            r@.map_values(|s: &'static str| s@) == self.spec_flag_names(),
    {
        let mut r: Vec<&'static str> = Vec::new();
        let mut i: usize = 0;
        while i < LED_COUNT
            invariant
                i <= LED_COUNT,
                r@.map_values(|s: &'static str| s@) == led_flags_among(self.spec_bits(), i as nat),
            decreases LED_COUNT - i,
        {
            let (name, bit) = led_flag_entry(i);
            if self.bits & bit == bit {
                r.push(name);
            }
            i = i + 1;
        }
        r
    }

    /// This set as `{:?}` writes a flag set: the names of its flags joined by
    /// `" | "`, or `(empty)`.
    pub fn debug_string(&self) -> (r: String)
        ensures
            r@ == flag_set_text(self.spec_flag_names()),
    {
        let names = self.flag_names();
        flag_set_string(&names)
    }

    /// Adds the bits of `other` when `value` holds, removes them otherwise.
    pub fn set(&mut self, other: KeyboardLed, value: bool)
        ensures
            value ==> final(self).spec_bits() == old(self).spec_bits() | other.spec_bits(),
            !value ==> final(self).spec_bits() == old(self).spec_bits() & !other.spec_bits(),
    {
        if value {
            self.insert(other);
        } else {
            self.remove(other);
        }
    }
}

impl KeyboardModifier {
    /// The raw bits of this set; they never leave `WLR_MODIFIER_ALL`.
    pub closed spec fn spec_bits(self) -> u32 {
        self.bits
    }

    /// A set holds no bit outside `WLR_MODIFIER_ALL`.
    #[verifier::type_invariant]
    spec fn wf(self) -> bool {
        self.bits & WLR_MODIFIER_ALL == self.bits
    }

    /// The raw bits of this set; none lies outside `WLR_MODIFIER_ALL`.
    pub fn bits(&self) -> (r: u32)
        ensures
            r == self.spec_bits(),
            r & WLR_MODIFIER_ALL == r,
    {
        proof {
            use_type_invariant(self);
        }
        self.bits
    }

    /// The set of the known modifier bits of `bits`; unknown bits are dropped.
    pub fn from_bits_truncate(bits: u32) -> (r: Self)
        ensures
            r.spec_bits() == bits & WLR_MODIFIER_ALL,
            r.spec_bits() & WLR_MODIFIER_ALL == r.spec_bits(),
    {
        assert(bits & 255u32 & 255u32 == bits & 255u32) by (bit_vector);
        KeyboardModifier { bits: bits & WLR_MODIFIER_ALL }
    }

    /// The empty set.
    pub fn empty() -> (r: Self)
        ensures
            r.spec_bits() == 0,
    {
        assert(0u32 & 255u32 == 0u32) by (bit_vector);
        KeyboardModifier { bits: 0 }
    }

    /// The set of every known bit, `WLR_MODIFIER_ALL`.
    pub fn all() -> (r: Self)
        ensures
            r.spec_bits() == WLR_MODIFIER_ALL,
    {
        assert(255u32 & 255u32 == 255u32) by (bit_vector);
        KeyboardModifier { bits: WLR_MODIFIER_ALL }
    }

    /// The bits that are in either set.
    pub fn union(&self, other: KeyboardModifier) -> (r: Self)
        ensures
            r.spec_bits() == self.spec_bits() | other.spec_bits(),
    {
        let a = self.bits();
        let b = other.bits();
        assert(a & 255u32 == a && b & 255u32 == b ==> (a | b) & 255u32 == (a | b)) by (bit_vector);
        KeyboardModifier { bits: a | b }
    }

    /// Whether every bit of `other` is in this set.
    pub fn contains(&self, other: KeyboardModifier) -> (r: bool)
        ensures
            r == (self.spec_bits() & other.spec_bits() == other.spec_bits()),
    {
        self.bits & other.bits == other.bits
    }

    /// The set of `bits`, or `None` when `bits` holds a bit outside `WLR_MODIFIER_ALL`.
    pub fn from_bits(bits: u32) -> (r: Option<Self>)
        ensures
            r is Some <==> bits & WLR_MODIFIER_ALL == bits,
            r matches Some(f) ==> f.spec_bits() == bits,
    {
        if bits & WLR_MODIFIER_ALL == bits {
            Some(KeyboardModifier { bits })
        } else {
            None
        }
    }

    /// Whether no bit is set.
    pub fn is_empty(&self) -> (r: bool)
        ensures
            r == (self.spec_bits() == 0),
    {
        self.bits == 0
    }

    /// Whether every known bit is set.
    pub fn is_all(&self) -> (r: bool)
        ensures
            r == (self.spec_bits() == WLR_MODIFIER_ALL),
    {
        self.bits == WLR_MODIFIER_ALL
    }

    /// Whether the two sets share a bit.
    pub fn intersects(&self, other: KeyboardModifier) -> (r: bool)
        ensures
            r == (self.spec_bits() & other.spec_bits() != 0),
    {
        self.bits & other.bits != 0
    }

    /// The bits that are in both sets.
    pub fn intersection(&self, other: KeyboardModifier) -> (r: Self)
        ensures
            r.spec_bits() == self.spec_bits() & other.spec_bits(),
    {
        let a = self.bits();
        let b = other.bits();
        proof {
            lemma_mask_closed(a, b, WLR_MODIFIER_ALL);
        }
        KeyboardModifier { bits: a & b }
    }

    /// The bits of this set that are not in `other`.
    pub fn difference(&self, other: KeyboardModifier) -> (r: Self)
        ensures
            r.spec_bits() == self.spec_bits() & !other.spec_bits(),
    {
        let a = self.bits();
        let b = other.bits();
        proof {
            lemma_mask_closed(a, b, WLR_MODIFIER_ALL);
        }
        KeyboardModifier { bits: a & !b }
    }

    /// The bits that are in exactly one of the two sets.
    pub fn symmetric_difference(&self, other: KeyboardModifier) -> (r: Self)
        ensures
            r.spec_bits() == self.spec_bits() ^ other.spec_bits(),
    {
        let a = self.bits();
        let b = other.bits();
        proof {
            lemma_mask_closed(a, b, WLR_MODIFIER_ALL);
        }
        KeyboardModifier { bits: a ^ b }
    }

    /// The known bits that are not in this set.
    pub fn complement(&self) -> (r: Self)
        ensures
            r.spec_bits() == !self.spec_bits() & WLR_MODIFIER_ALL,
    {
        let a = self.bits();
        proof {
            lemma_mask_closed(a, a, WLR_MODIFIER_ALL);
        }
        KeyboardModifier { bits: !a & WLR_MODIFIER_ALL }
    }

    /// Adds the bits of `other` to this set.
    pub fn insert(&mut self, other: KeyboardModifier)
        ensures
            final(self).spec_bits() == old(self).spec_bits() | other.spec_bits(),
    {
        *self = self.union(other);
    }

    /// Removes the bits of `other` from this set.
    pub fn remove(&mut self, other: KeyboardModifier)
        ensures
            final(self).spec_bits() == old(self).spec_bits() & !other.spec_bits(),
    {
        *self = self.difference(other);
    }

    /// Flips the bits of `other` in this set.
    pub fn toggle(&mut self, other: KeyboardModifier)
        ensures
            final(self).spec_bits() == old(self).spec_bits() ^ other.spec_bits(),
    {
        *self = self.symmetric_difference(other);
    }

    /// The names of the flags in this set, as the flags are called, in flag order.
    pub open spec fn spec_flag_names(self) -> Seq<Seq<char>> {
        modifier_flags_among(self.spec_bits(), MODIFIER_COUNT as nat)
    }

    /// The names of the flags in this set, as the flags are called, in flag order.
    pub fn flag_names(&self) -> (r: Vec<&'static str>)
        ensures
            r@.map_values(|s: &'static str| s@) == self.spec_flag_names(),
    {
        let mut r: Vec<&'static str> = Vec::new();
        let mut i: usize = 0;
        while i < MODIFIER_COUNT
            invariant
                i <= MODIFIER_COUNT,
                r@.map_values(|s: &'static str| s@) == modifier_flags_among(self.spec_bits(), i as nat),
            decreases MODIFIER_COUNT - i,
        {
            let (name, bit) = modifier_flag_entry(i);
            if self.bits & bit == bit {
                r.push(name);
            }
            i = i + 1;
        }
        r
    }

    /// This set as `{:?}` writes a flag set: the names of its flags joined by
    /// `" | "`, or `(empty)`.
    pub fn debug_string(&self) -> (r: String)
        ensures
            r@ == flag_set_text(self.spec_flag_names()),
    {
        let names = self.flag_names();
        flag_set_string(&names)
    }

    /// Adds the bits of `other` when `value` holds, removes them otherwise.
    pub fn set(&mut self, other: KeyboardModifier, value: bool)
        ensures
            value ==> final(self).spec_bits() == old(self).spec_bits() | other.spec_bits(),
            !value ==> final(self).spec_bits() == old(self).spec_bits() & !other.spec_bits(),
    {
        if value {
            self.insert(other);
        } else {
            self.remove(other);
        }
    }

    /// The names of the modifiers in this set, in the order shift, caps lock, ctrl,
    /// alt, mod2, mod3, logo, mod5.
    pub open spec fn spec_names(self) -> Seq<Seq<char>> {
        names_among(self.spec_bits(), MODIFIER_COUNT as nat)
    }

    /// The names of the modifiers in this set, in the order shift, caps lock, ctrl,
    /// alt, mod2, mod3, logo, mod5.
    pub fn names(&self) -> (r: Vec<&'static str>)
        ensures
            r@.map_values(|s: &'static str| s@) == self.spec_names(),
    {
        let mut r: Vec<&'static str> = Vec::new();
        let mut i: usize = 0;
        while i < MODIFIER_COUNT
            invariant
                i <= MODIFIER_COUNT,
                r@.map_values(|s: &'static str| s@) == names_among(self.spec_bits(), i as nat),
            decreases MODIFIER_COUNT - i,
        {
            let (name, bit) = modifier_entry(i);
            if self.bits & bit == bit {
                r.push(name);
            }
            i = i + 1;
        }
        r
    }

    /// The names of the modifiers in this set as `{:?}` writes a list of them,
    /// such as `["Shift", "Ctrl"]`.
    pub fn to_string(&self) -> (r: String)
        ensures
            r@ == debug_list(self.spec_names()),
    {
        let names = self.names();
        let ghost views = names@.map_values(|s: &'static str| s@);
        let mut r = String::new();
        r.append("[");
        let mut i: usize = 0;
        while i < names.len()
            invariant
                i <= names.len(),
                views == names@.map_values(|s: &'static str| s@),
                r@ == "["@ + debug_items(views.take(i as int)),
            decreases names.len() - i,
        {
            if i > 0 {
                r.append(", ");
            }
            r.append("\"");
            r.append(names[i]);
            r.append("\"");
            assert(views.take(i + 1).drop_last() =~= views.take(i as int));
            i = i + 1;
        }
        assert(views.take(names.len() as int) =~= views);
        r.append("]");
        r
    }
}

/// Distinct positions have distinct modifier names.
proof fn lemma_modifier_names_distinct(i: int, j: int)
    requires
        0 <= i < MODIFIER_COUNT,
        0 <= j < MODIFIER_COUNT,
        i != j,
    ensures
        modifier_name(i) != modifier_name(j),
{
    reveal_strlit("Shift");
    reveal_strlit("Caps lock");
    reveal_strlit("Ctrl");
    reveal_strlit("Alt");
    reveal_strlit("Mod2");
    reveal_strlit("Mod3");
    reveal_strlit("Logo");
    reveal_strlit("Mod5");
    if modifier_name(i) == modifier_name(j) {
        assert(modifier_name(i).len() == modifier_name(j).len());
        assert(modifier_name(i)[3] == modifier_name(j)[3]);
    }
}

/// Among the first `n` positions, the name of position `i` is listed exactly
/// when `i < n` and the bit of position `i` is set.
proof fn lemma_names_among_contains(bits: u32, n: nat, i: int)
    requires
        n <= MODIFIER_COUNT,
        0 <= i < MODIFIER_COUNT,
    ensures
        names_among(bits, n).contains(modifier_name(i)) <==> (i < n && bits & modifier_bit(i)
            == modifier_bit(i)),
    decreases n,
{
    if n > 0 {
        let before = names_among(bits, (n - 1) as nat);
        lemma_names_among_contains(bits, (n - 1) as nat, i);
        if bits & modifier_bit(n - 1) == modifier_bit(n - 1) {
            let after = before.push(modifier_name(n - 1));
            if i != n - 1 {
                lemma_modifier_names_distinct(i, n - 1);
                if after.contains(modifier_name(i)) {
                    let k = choose|k: int| 0 <= k < after.len() && after[k] == modifier_name(i);
                    assert(k < before.len());
                    assert(before[k] == modifier_name(i));
                }
                if before.contains(modifier_name(i)) {
                    let k = choose|k: int| 0 <= k < before.len() && before[k] == modifier_name(i);
                    assert(after[k] == modifier_name(i));
                }
            } else {
                assert(after[after.len() - 1] == modifier_name(i));
            }
        }
    }
}

/// The names of a modifier set are exactly those of the modifiers that the set
/// contains: the name of each modifier is listed if and only if its bit is set.
pub proof fn lemma_names_are_contained_modifiers(m: KeyboardModifier, i: int)
    requires
        0 <= i < MODIFIER_COUNT,
    ensures
        m.spec_names().contains(modifier_name(i)) <==> (m.spec_bits() & modifier_bit(i)
            == modifier_bit(i)),
{
    lemma_names_among_contains(m.spec_bits(), MODIFIER_COUNT as nat, i);
}

/// Reading a mask and reading it again after truncation give the same set: the
/// known bits survive and the unknown ones are gone.
pub proof fn lemma_truncate_keeps_known_bits(bits: u32)
    ensures
        (bits & WLR_MODIFIER_ALL) & WLR_MODIFIER_ALL == bits & WLR_MODIFIER_ALL,
        forall|i: int| 0 <= i < MODIFIER_COUNT ==> ((bits & WLR_MODIFIER_ALL) & #[trigger] modifier_bit(i)
            == modifier_bit(i) <==> bits & modifier_bit(i) == modifier_bit(i)),
{
    assert(bits & 255u32 & 255u32 == bits & 255u32) by (bit_vector);
    assert forall|i: int| 0 <= i < MODIFIER_COUNT implies ((bits & WLR_MODIFIER_ALL) & #[trigger] modifier_bit(i)
        == modifier_bit(i) <==> bits & modifier_bit(i) == modifier_bit(i)) by {
        let b = modifier_bit(i);
        assert(b == 1u32 || b == 2u32 || b == 4u32 || b == 8u32 || b == 16u32 || b == 32u32 || b == 64u32 || b == 128u32);
        assert((b == 1u32 || b == 2u32 || b == 4u32 || b == 8u32 || b == 16u32 || b == 32u32 || b == 64u32 || b == 128u32)
            ==> ((bits & 255u32) & b == b <==> bits & b == b)) by (bit_vector);
    }
}

/// The bit that a name in the human-readable names of a modifier set (`names`, `to_string`) stands for: the constant of that name,
/// or 0 for a name that is none of them.
pub open spec fn modifier_named(name: Seq<char>) -> u32 {
    if name == "Shift"@ {
        WLR_MODIFIER_SHIFT
    } else if name == "Caps lock"@ {
        WLR_MODIFIER_CAPS
    } else if name == "Ctrl"@ {
        WLR_MODIFIER_CTRL
    } else if name == "Alt"@ {
        WLR_MODIFIER_ALT
    } else if name == "Mod2"@ {
        WLR_MODIFIER_MOD2
    } else if name == "Mod3"@ {
        WLR_MODIFIER_MOD3
    } else if name == "Logo"@ {
        WLR_MODIFIER_LOGO
    } else if name == "Mod5"@ {
        WLR_MODIFIER_MOD5
    } else {
        0
    }
}

proof fn lemma_modifier_names_stand_for_bits(i: int)
    requires
        0 <= i < MODIFIER_COUNT,
    ensures
        modifier_named(modifier_name(i)) == modifier_bit(i),
{
    reveal_strlit("Shift");
    reveal_strlit("Caps lock");
    reveal_strlit("Ctrl");
    reveal_strlit("Alt");
    reveal_strlit("Mod2");
    reveal_strlit("Mod3");
    reveal_strlit("Logo");
    reveal_strlit("Mod5");
    assert("Shift"@.len() == 5);
    assert("Caps lock"@.len() == 9);
    assert("Ctrl"@.len() == 4);
    assert("Alt"@.len() == 3);
    assert("Mod2"@.len() == 4);
    assert("Mod3"@.len() == 4);
    assert("Logo"@.len() == 4);
    assert("Mod5"@.len() == 4);
    assert("Ctrl"@[0] != "Mod2"@[0]);
    assert("Ctrl"@[0] != "Mod3"@[0]);
    assert("Ctrl"@[0] != "Logo"@[0]);
    assert("Ctrl"@[0] != "Mod5"@[0]);
    assert("Mod2"@[3] != "Mod3"@[3]);
    assert("Mod2"@[0] != "Logo"@[0]);
    assert("Mod2"@[3] != "Mod5"@[3]);
    assert("Mod3"@[0] != "Logo"@[0]);
    assert("Mod3"@[3] != "Mod5"@[3]);
    assert("Logo"@[0] != "Mod5"@[0]);
}

proof fn lemma_modifier_names_listed(bits: u32, n: nat, bit: spec_fn(int) -> u32, name: spec_fn(int) -> Seq<char>)
    requires
        forall|i: int| #[trigger] bit(i) == modifier_bit(i),
        forall|i: int| #[trigger] name(i) == modifier_name(i),
    ensures
        names_among(bits, n) == listed(bits, n, bit, name),
    decreases n,
{
    if n > 0 {
        lemma_modifier_names_listed(bits, (n - 1) as nat, bit, name);
        assert(bit(n - 1) == modifier_bit(n - 1));
        assert(name(n - 1) == modifier_name(n - 1));
    }
}

proof fn lemma_modifier_names_bits_increase(i: int, j: int)
    requires
        0 <= i < j < MODIFIER_COUNT,
    ensures
        modifier_bit(i) < modifier_bit(j),
{
}

proof fn lemma_modifier_names_bits_nonzero(i: int)
    requires
        0 <= i < MODIFIER_COUNT,
    ensures
        modifier_bit(i) != 0,
{
}

/// The human-readable names of a modifier set (`names`, `to_string`) name exactly its set bits, each by the name of its own constant,
/// and nothing else, in increasing bit order: the name of each constant is
/// listed if and only if the constant's bit is set, every listed name stands
/// for a set bit, and the bits of the listed names increase along the list.
pub proof fn lemma_modifier_names_meaning(m: KeyboardModifier)
    ensures
        m.spec_names().contains("Shift"@) <==> m.spec_bits() & WLR_MODIFIER_SHIFT == WLR_MODIFIER_SHIFT,
        m.spec_names().contains("Caps lock"@) <==> m.spec_bits() & WLR_MODIFIER_CAPS == WLR_MODIFIER_CAPS,
        m.spec_names().contains("Ctrl"@) <==> m.spec_bits() & WLR_MODIFIER_CTRL == WLR_MODIFIER_CTRL,
        m.spec_names().contains("Alt"@) <==> m.spec_bits() & WLR_MODIFIER_ALT == WLR_MODIFIER_ALT,
        m.spec_names().contains("Mod2"@) <==> m.spec_bits() & WLR_MODIFIER_MOD2 == WLR_MODIFIER_MOD2,
        m.spec_names().contains("Mod3"@) <==> m.spec_bits() & WLR_MODIFIER_MOD3 == WLR_MODIFIER_MOD3,
        m.spec_names().contains("Logo"@) <==> m.spec_bits() & WLR_MODIFIER_LOGO == WLR_MODIFIER_LOGO,
        m.spec_names().contains("Mod5"@) <==> m.spec_bits() & WLR_MODIFIER_MOD5 == WLR_MODIFIER_MOD5,
        forall|k: int|
            #![trigger m.spec_names()[k]]
            0 <= k < m.spec_names().len() ==> modifier_named(m.spec_names()[k]) != 0 && m.spec_bits()
                & modifier_named(m.spec_names()[k]) == modifier_named(m.spec_names()[k]),
        forall|k1: int, k2: int|
            0 <= k1 < k2 < m.spec_names().len() ==> #[trigger] modifier_named(m.spec_names()[k1])
                < #[trigger] modifier_named(m.spec_names()[k2]),
{
    let bit = |i: int| modifier_bit(i);
    let name = |i: int| modifier_name(i);
    let value = |s: Seq<char>| modifier_named(s);
    assert forall|i: int| 0 <= i < MODIFIER_COUNT implies #[trigger] value(name(i)) == bit(i) by {
        lemma_modifier_names_stand_for_bits(i);
    }
    assert forall|i: int, j: int| 0 <= i < j < MODIFIER_COUNT implies #[trigger] bit(i) < #[trigger] bit(j) by {
        lemma_modifier_names_bits_increase(i, j);
    }
    lemma_modifier_names_listed(m.spec_bits(), MODIFIER_COUNT as nat, bit, name);
    lemma_listed(m.spec_bits(), MODIFIER_COUNT as nat, MODIFIER_COUNT as nat, bit, name, value);
    let l = m.spec_names();
    assert forall|k: int| #![trigger l[k]] 0 <= k < l.len() implies modifier_named(l[k]) != 0 && m.spec_bits()
        & modifier_named(l[k]) == modifier_named(l[k]) by {
        let i = choose|i: int| 0 <= i < MODIFIER_COUNT && #[trigger] name(i) == l[k] && m.spec_bits() & bit(i) == bit(i);
        lemma_modifier_names_stand_for_bits(i);
        lemma_modifier_names_bits_nonzero(i);
    }
    assert(name(0) == "Shift"@ && bit(0) == WLR_MODIFIER_SHIFT);
    assert(name(1) == "Caps lock"@ && bit(1) == WLR_MODIFIER_CAPS);
    assert(name(2) == "Ctrl"@ && bit(2) == WLR_MODIFIER_CTRL);
    assert(name(3) == "Alt"@ && bit(3) == WLR_MODIFIER_ALT);
    assert(name(4) == "Mod2"@ && bit(4) == WLR_MODIFIER_MOD2);
    assert(name(5) == "Mod3"@ && bit(5) == WLR_MODIFIER_MOD3);
    assert(name(6) == "Logo"@ && bit(6) == WLR_MODIFIER_LOGO);
    assert(name(7) == "Mod5"@ && bit(7) == WLR_MODIFIER_MOD5);
    assert forall|k1: int, k2: int| 0 <= k1 < k2 < l.len() implies #[trigger] modifier_named(l[k1]) < #[trigger] modifier_named(l[k2]) by {
        assert(value(l[k1]) < value(l[k2]));
    }
}

/// The bit that a name in the flag names of a modifier set (`flag_names`, `debug_string`) stands for: the constant of that name,
/// or 0 for a name that is none of them.
pub open spec fn modifier_flag_named(name: Seq<char>) -> u32 {
    if name == "WLR_MODIFIER_SHIFT"@ {
        WLR_MODIFIER_SHIFT
    } else if name == "WLR_MODIFIER_CAPS"@ {
        WLR_MODIFIER_CAPS
    } else if name == "WLR_MODIFIER_CTRL"@ {
        WLR_MODIFIER_CTRL
    } else if name == "WLR_MODIFIER_ALT"@ {
        WLR_MODIFIER_ALT
    } else if name == "WLR_MODIFIER_MOD2"@ {
        WLR_MODIFIER_MOD2
    } else if name == "WLR_MODIFIER_MOD3"@ {
        WLR_MODIFIER_MOD3
    } else if name == "WLR_MODIFIER_LOGO"@ {
        WLR_MODIFIER_LOGO
    } else if name == "WLR_MODIFIER_MOD5"@ {
        WLR_MODIFIER_MOD5
    } else {
        0
    }
}

proof fn lemma_modifier_flags_stand_for_bits(i: int)
    requires
        0 <= i < MODIFIER_COUNT,
    ensures
        modifier_flag_named(modifier_flag_name(i)) == modifier_bit(i),
{
    reveal_strlit("WLR_MODIFIER_SHIFT");
    reveal_strlit("WLR_MODIFIER_CAPS");
    reveal_strlit("WLR_MODIFIER_CTRL");
    reveal_strlit("WLR_MODIFIER_ALT");
    reveal_strlit("WLR_MODIFIER_MOD2");
    reveal_strlit("WLR_MODIFIER_MOD3");
    reveal_strlit("WLR_MODIFIER_LOGO");
    reveal_strlit("WLR_MODIFIER_MOD5");
    assert("WLR_MODIFIER_SHIFT"@.len() == 18);
    assert("WLR_MODIFIER_CAPS"@.len() == 17);
    assert("WLR_MODIFIER_CTRL"@.len() == 17);
    assert("WLR_MODIFIER_ALT"@.len() == 16);
    assert("WLR_MODIFIER_MOD2"@.len() == 17);
    assert("WLR_MODIFIER_MOD3"@.len() == 17);
    assert("WLR_MODIFIER_LOGO"@.len() == 17);
    assert("WLR_MODIFIER_MOD5"@.len() == 17);
    assert("WLR_MODIFIER_CAPS"@[14] != "WLR_MODIFIER_CTRL"@[14]);
    assert("WLR_MODIFIER_CAPS"@[13] != "WLR_MODIFIER_MOD2"@[13]);
    assert("WLR_MODIFIER_CAPS"@[13] != "WLR_MODIFIER_MOD3"@[13]);
    assert("WLR_MODIFIER_CAPS"@[13] != "WLR_MODIFIER_LOGO"@[13]);
    assert("WLR_MODIFIER_CAPS"@[13] != "WLR_MODIFIER_MOD5"@[13]);
    assert("WLR_MODIFIER_CTRL"@[13] != "WLR_MODIFIER_MOD2"@[13]);
    assert("WLR_MODIFIER_CTRL"@[13] != "WLR_MODIFIER_MOD3"@[13]);
    assert("WLR_MODIFIER_CTRL"@[13] != "WLR_MODIFIER_LOGO"@[13]);
    assert("WLR_MODIFIER_CTRL"@[13] != "WLR_MODIFIER_MOD5"@[13]);
    assert("WLR_MODIFIER_MOD2"@[16] != "WLR_MODIFIER_MOD3"@[16]);
    assert("WLR_MODIFIER_MOD2"@[13] != "WLR_MODIFIER_LOGO"@[13]);
    assert("WLR_MODIFIER_MOD2"@[16] != "WLR_MODIFIER_MOD5"@[16]);
    assert("WLR_MODIFIER_MOD3"@[13] != "WLR_MODIFIER_LOGO"@[13]);
    assert("WLR_MODIFIER_MOD3"@[16] != "WLR_MODIFIER_MOD5"@[16]);
    assert("WLR_MODIFIER_LOGO"@[13] != "WLR_MODIFIER_MOD5"@[13]);
}

proof fn lemma_modifier_flags_listed(bits: u32, n: nat, bit: spec_fn(int) -> u32, name: spec_fn(int) -> Seq<char>)
    requires
        forall|i: int| #[trigger] bit(i) == modifier_bit(i),
        forall|i: int| #[trigger] name(i) == modifier_flag_name(i),
    ensures
        modifier_flags_among(bits, n) == listed(bits, n, bit, name),
    decreases n,
{
    if n > 0 {
        lemma_modifier_flags_listed(bits, (n - 1) as nat, bit, name);
        assert(bit(n - 1) == modifier_bit(n - 1));
        assert(name(n - 1) == modifier_flag_name(n - 1));
    }
}

proof fn lemma_modifier_flags_bits_increase(i: int, j: int)
    requires
        0 <= i < j < MODIFIER_COUNT,
    ensures
        modifier_bit(i) < modifier_bit(j),
{
}

proof fn lemma_modifier_flags_bits_nonzero(i: int)
    requires
        0 <= i < MODIFIER_COUNT,
    ensures
        modifier_bit(i) != 0,
{
}

/// The flag names of a modifier set (`flag_names`, `debug_string`) name exactly its set bits, each by the name of its own constant,
/// and nothing else, in increasing bit order: the name of each constant is
/// listed if and only if the constant's bit is set, every listed name stands
/// for a set bit, and the bits of the listed names increase along the list.
pub proof fn lemma_modifier_flags_meaning(m: KeyboardModifier)
    ensures
        m.spec_flag_names().contains("WLR_MODIFIER_SHIFT"@) <==> m.spec_bits() & WLR_MODIFIER_SHIFT == WLR_MODIFIER_SHIFT,
        m.spec_flag_names().contains("WLR_MODIFIER_CAPS"@) <==> m.spec_bits() & WLR_MODIFIER_CAPS == WLR_MODIFIER_CAPS,
        m.spec_flag_names().contains("WLR_MODIFIER_CTRL"@) <==> m.spec_bits() & WLR_MODIFIER_CTRL == WLR_MODIFIER_CTRL,
        m.spec_flag_names().contains("WLR_MODIFIER_ALT"@) <==> m.spec_bits() & WLR_MODIFIER_ALT == WLR_MODIFIER_ALT,
        m.spec_flag_names().contains("WLR_MODIFIER_MOD2"@) <==> m.spec_bits() & WLR_MODIFIER_MOD2 == WLR_MODIFIER_MOD2,
        m.spec_flag_names().contains("WLR_MODIFIER_MOD3"@) <==> m.spec_bits() & WLR_MODIFIER_MOD3 == WLR_MODIFIER_MOD3,
        m.spec_flag_names().contains("WLR_MODIFIER_LOGO"@) <==> m.spec_bits() & WLR_MODIFIER_LOGO == WLR_MODIFIER_LOGO,
        m.spec_flag_names().contains("WLR_MODIFIER_MOD5"@) <==> m.spec_bits() & WLR_MODIFIER_MOD5 == WLR_MODIFIER_MOD5,
        forall|k: int|
            #![trigger m.spec_flag_names()[k]]
            0 <= k < m.spec_flag_names().len() ==> modifier_flag_named(m.spec_flag_names()[k]) != 0 && m.spec_bits()
                & modifier_flag_named(m.spec_flag_names()[k]) == modifier_flag_named(m.spec_flag_names()[k]),
        forall|k1: int, k2: int|
            0 <= k1 < k2 < m.spec_flag_names().len() ==> #[trigger] modifier_flag_named(m.spec_flag_names()[k1])
                < #[trigger] modifier_flag_named(m.spec_flag_names()[k2]),
{
    let bit = |i: int| modifier_bit(i);
    let name = |i: int| modifier_flag_name(i);
    let value = |s: Seq<char>| modifier_flag_named(s);
    assert forall|i: int| 0 <= i < MODIFIER_COUNT implies #[trigger] value(name(i)) == bit(i) by {
        lemma_modifier_flags_stand_for_bits(i);
    }
    assert forall|i: int, j: int| 0 <= i < j < MODIFIER_COUNT implies #[trigger] bit(i) < #[trigger] bit(j) by {
        lemma_modifier_flags_bits_increase(i, j);
    }
    lemma_modifier_flags_listed(m.spec_bits(), MODIFIER_COUNT as nat, bit, name);
    lemma_listed(m.spec_bits(), MODIFIER_COUNT as nat, MODIFIER_COUNT as nat, bit, name, value);
    let l = m.spec_flag_names();
    assert forall|k: int| #![trigger l[k]] 0 <= k < l.len() implies modifier_flag_named(l[k]) != 0 && m.spec_bits()
        & modifier_flag_named(l[k]) == modifier_flag_named(l[k]) by {
        let i = choose|i: int| 0 <= i < MODIFIER_COUNT && #[trigger] name(i) == l[k] && m.spec_bits() & bit(i) == bit(i);
        lemma_modifier_flags_stand_for_bits(i);
        lemma_modifier_flags_bits_nonzero(i);
    }
    assert(name(0) == "WLR_MODIFIER_SHIFT"@ && bit(0) == WLR_MODIFIER_SHIFT);
    assert(name(1) == "WLR_MODIFIER_CAPS"@ && bit(1) == WLR_MODIFIER_CAPS);
    assert(name(2) == "WLR_MODIFIER_CTRL"@ && bit(2) == WLR_MODIFIER_CTRL);
    assert(name(3) == "WLR_MODIFIER_ALT"@ && bit(3) == WLR_MODIFIER_ALT);
    assert(name(4) == "WLR_MODIFIER_MOD2"@ && bit(4) == WLR_MODIFIER_MOD2);
    assert(name(5) == "WLR_MODIFIER_MOD3"@ && bit(5) == WLR_MODIFIER_MOD3);
    assert(name(6) == "WLR_MODIFIER_LOGO"@ && bit(6) == WLR_MODIFIER_LOGO);
    assert(name(7) == "WLR_MODIFIER_MOD5"@ && bit(7) == WLR_MODIFIER_MOD5);
    assert forall|k1: int, k2: int| 0 <= k1 < k2 < l.len() implies #[trigger] modifier_flag_named(l[k1]) < #[trigger] modifier_flag_named(l[k2]) by {
        assert(value(l[k1]) < value(l[k2]));
    }
}

/// The bit that a name in the flag names of an LED set (`flag_names`, `debug_string`) stands for: the constant of that name,
/// or 0 for a name that is none of them.
pub open spec fn led_flag_named(name: Seq<char>) -> u32 {
    if name == "WLR_LED_NUM_LOCK"@ {
        WLR_LED_NUM_LOCK
    } else if name == "WLR_LED_CAPS_LOCK"@ {
        WLR_LED_CAPS_LOCK
    } else if name == "WLR_LED_SCROLL_LOCK"@ {
        WLR_LED_SCROLL_LOCK
    } else {
        0
    }
}

proof fn lemma_led_flags_stand_for_bits(i: int)
    requires
        0 <= i < LED_COUNT,
    ensures
        led_flag_named(led_flag_name(i)) == led_bit(i),
{
    reveal_strlit("WLR_LED_NUM_LOCK");
    reveal_strlit("WLR_LED_CAPS_LOCK");
    reveal_strlit("WLR_LED_SCROLL_LOCK");
    assert("WLR_LED_NUM_LOCK"@.len() == 16);
    assert("WLR_LED_CAPS_LOCK"@.len() == 17);
    assert("WLR_LED_SCROLL_LOCK"@.len() == 19);
}

proof fn lemma_led_flags_listed(bits: u32, n: nat, bit: spec_fn(int) -> u32, name: spec_fn(int) -> Seq<char>)
    requires
        forall|i: int| #[trigger] bit(i) == led_bit(i),
        forall|i: int| #[trigger] name(i) == led_flag_name(i),
    ensures
        led_flags_among(bits, n) == listed(bits, n, bit, name),
    decreases n,
{
    if n > 0 {
        lemma_led_flags_listed(bits, (n - 1) as nat, bit, name);
        assert(bit(n - 1) == led_bit(n - 1));
        assert(name(n - 1) == led_flag_name(n - 1));
    }
}

proof fn lemma_led_flags_bits_increase(i: int, j: int)
    requires
        0 <= i < j < LED_COUNT,
    ensures
        led_bit(i) < led_bit(j),
{
}

proof fn lemma_led_flags_bits_nonzero(i: int)
    requires
        0 <= i < LED_COUNT,
    ensures
        led_bit(i) != 0,
{
}

/// The flag names of an LED set (`flag_names`, `debug_string`) name exactly its set bits, each by the name of its own constant,
/// and nothing else, in increasing bit order: the name of each constant is
/// listed if and only if the constant's bit is set, every listed name stands
/// for a set bit, and the bits of the listed names increase along the list.
pub proof fn lemma_led_flags_meaning(m: KeyboardLed)
    ensures
        m.spec_flag_names().contains("WLR_LED_NUM_LOCK"@) <==> m.spec_bits() & WLR_LED_NUM_LOCK == WLR_LED_NUM_LOCK,
        m.spec_flag_names().contains("WLR_LED_CAPS_LOCK"@) <==> m.spec_bits() & WLR_LED_CAPS_LOCK == WLR_LED_CAPS_LOCK,
        m.spec_flag_names().contains("WLR_LED_SCROLL_LOCK"@) <==> m.spec_bits() & WLR_LED_SCROLL_LOCK == WLR_LED_SCROLL_LOCK,
        forall|k: int|
            #![trigger m.spec_flag_names()[k]]
            0 <= k < m.spec_flag_names().len() ==> led_flag_named(m.spec_flag_names()[k]) != 0 && m.spec_bits()
                & led_flag_named(m.spec_flag_names()[k]) == led_flag_named(m.spec_flag_names()[k]),
        forall|k1: int, k2: int|
            0 <= k1 < k2 < m.spec_flag_names().len() ==> #[trigger] led_flag_named(m.spec_flag_names()[k1])
                < #[trigger] led_flag_named(m.spec_flag_names()[k2]),
{
    let bit = |i: int| led_bit(i);
    let name = |i: int| led_flag_name(i);
    let value = |s: Seq<char>| led_flag_named(s);
    assert forall|i: int| 0 <= i < LED_COUNT implies #[trigger] value(name(i)) == bit(i) by {
        lemma_led_flags_stand_for_bits(i);
    }
    assert forall|i: int, j: int| 0 <= i < j < LED_COUNT implies #[trigger] bit(i) < #[trigger] bit(j) by {
        lemma_led_flags_bits_increase(i, j);
    }
    lemma_led_flags_listed(m.spec_bits(), LED_COUNT as nat, bit, name);
    lemma_listed(m.spec_bits(), LED_COUNT as nat, LED_COUNT as nat, bit, name, value);
    let l = m.spec_flag_names();
    assert forall|k: int| #![trigger l[k]] 0 <= k < l.len() implies led_flag_named(l[k]) != 0 && m.spec_bits()
        & led_flag_named(l[k]) == led_flag_named(l[k]) by {
        let i = choose|i: int| 0 <= i < LED_COUNT && #[trigger] name(i) == l[k] && m.spec_bits() & bit(i) == bit(i);
        lemma_led_flags_stand_for_bits(i);
        lemma_led_flags_bits_nonzero(i);
    }
    assert(name(0) == "WLR_LED_NUM_LOCK"@ && bit(0) == WLR_LED_NUM_LOCK);
    assert(name(1) == "WLR_LED_CAPS_LOCK"@ && bit(1) == WLR_LED_CAPS_LOCK);
    assert(name(2) == "WLR_LED_SCROLL_LOCK"@ && bit(2) == WLR_LED_SCROLL_LOCK);
    assert forall|k1: int, k2: int| 0 <= k1 < k2 < l.len() implies #[trigger] led_flag_named(l[k1]) < #[trigger] led_flag_named(l[k2]) by {
        assert(value(l[k1]) < value(l[k2]));
    }
}

/// How `{:?}` writes a list of names: an empty list is `[]`; adding a name at
/// the end puts `"name"` before the closing bracket, after `, ` when the list
/// already had a name.
pub proof fn lemma_debug_list_text(names: Seq<Seq<char>>)
    ensures
        names.len() == 0 ==> debug_list(names) == "[]"@,
        names.len() == 1 ==> debug_list(names) == "[\""@ + names[0] + "\"]"@,
        names.len() > 1 ==> debug_list(names) == debug_list(names.drop_last()).drop_last() + ", \""@
            + names.last() + "\"]"@,
{
    reveal_strlit("[]");
    reveal_strlit("[");
    reveal_strlit("]");
    reveal_strlit("\"");
    reveal_strlit("[\"");
    reveal_strlit("\"]");
    reveal_strlit(", ");
    reveal_strlit(", \"");
    if names.len() == 0 {
        assert(debug_list(names) =~= "[]"@);
    } else if names.len() == 1 {
        assert(debug_list(names) =~= "[\""@ + names[0] + "\"]"@);
    } else {
        let before = debug_list(names.drop_last());
        assert(before.drop_last() =~= "["@ + debug_items(names.drop_last()));
        assert(debug_list(names) =~= before.drop_last() + ", \""@ + names.last() + "\"]"@);
    }
}

/// How a flag set is written: with no flag it is `(empty)`; with one flag it is
/// that flag's name; adding a flag name at the end appends ` | ` and the name.
pub proof fn lemma_flag_set_text(names: Seq<Seq<char>>)
    ensures
        names.len() == 0 ==> flag_set_text(names) == "(empty)"@,
        names.len() == 1 ==> flag_set_text(names) == names[0],
        names.len() > 1 ==> flag_set_text(names) == flag_set_text(names.drop_last()) + " | "@
            + names.last(),
{
}

} // verus!
