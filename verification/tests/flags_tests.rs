use wlroots::flags::{
    KeyboardLed, KeyboardModifier, WLR_LED_CAPS_LOCK, WLR_LED_NUM_LOCK, WLR_LED_SCROLL_LOCK,
    WLR_MODIFIER_ALT, WLR_MODIFIER_CAPS, WLR_MODIFIER_CTRL, WLR_MODIFIER_LOGO, WLR_MODIFIER_MOD2,
    WLR_MODIFIER_MOD3, WLR_MODIFIER_MOD5, WLR_MODIFIER_SHIFT,
};

#[test]
fn modifier_bits_are_the_wlroots_values() {
    let bits = [
        WLR_MODIFIER_SHIFT,
        WLR_MODIFIER_CAPS,
        WLR_MODIFIER_CTRL,
        WLR_MODIFIER_ALT,
        WLR_MODIFIER_MOD2,
        WLR_MODIFIER_MOD3,
        WLR_MODIFIER_LOGO,
        WLR_MODIFIER_MOD5,
    ];
    assert_eq!(bits, [1, 2, 4, 8, 16, 32, 64, 128]);
    assert_eq!([WLR_LED_NUM_LOCK, WLR_LED_CAPS_LOCK, WLR_LED_SCROLL_LOCK], [1, 2, 4]);
}

#[test]
fn modifier_truncation_drops_unknown_bits() {
    assert_eq!(KeyboardModifier::from_bits_truncate(0x1ff).bits(), 0xff);
    assert_eq!(KeyboardModifier::from_bits_truncate(0xffff_ff05).bits(), 0x05);
    assert_eq!(KeyboardModifier::from_bits_truncate(0).bits(), 0);
    let m = KeyboardModifier::from_bits_truncate(0x42);
    assert_eq!(KeyboardModifier::from_bits_truncate(m.bits()), m);
}

#[test]
fn led_truncation_drops_unknown_bits() {
    assert_eq!(KeyboardLed::from_bits_truncate(0xff).bits(), 7);
    assert_eq!(KeyboardLed::from_bits_truncate(WLR_LED_CAPS_LOCK).bits(), 2);
    assert_eq!(KeyboardLed::from_bits_truncate(8).bits(), 0);
}

#[test]
fn contains_checks_every_bit() {
    let m = KeyboardModifier::from_bits_truncate(WLR_MODIFIER_SHIFT | WLR_MODIFIER_CTRL);
    assert!(m.contains(KeyboardModifier::from_bits_truncate(WLR_MODIFIER_SHIFT)));
    assert!(m.contains(KeyboardModifier::from_bits_truncate(WLR_MODIFIER_CTRL)));
    assert!(!m.contains(KeyboardModifier::from_bits_truncate(WLR_MODIFIER_ALT)));
    assert!(!m.contains(KeyboardModifier::from_bits_truncate(WLR_MODIFIER_SHIFT | WLR_MODIFIER_ALT)));
    assert!(m.contains(KeyboardModifier::from_bits_truncate(0)));
    let leds = KeyboardLed::from_bits_truncate(WLR_LED_NUM_LOCK | WLR_LED_SCROLL_LOCK);
    assert!(leds.contains(KeyboardLed::from_bits_truncate(WLR_LED_SCROLL_LOCK)));
    assert!(!leds.contains(KeyboardLed::from_bits_truncate(WLR_LED_CAPS_LOCK)));
}

#[test]
fn names_follow_the_fixed_order() {
    let m = KeyboardModifier::from_bits_truncate(WLR_MODIFIER_LOGO | WLR_MODIFIER_SHIFT | WLR_MODIFIER_ALT);
    assert_eq!(m.names(), vec!["Shift", "Alt", "Logo"]);
    assert_eq!(KeyboardModifier::from_bits_truncate(0).names(), Vec::<&str>::new());
    assert_eq!(
        KeyboardModifier::from_bits_truncate(0xff).names(),
        vec!["Shift", "Caps lock", "Ctrl", "Alt", "Mod2", "Mod3", "Logo", "Mod5"]
    );
}

#[test]
fn names_list_exactly_the_contained_modifiers() {
    let all = ["Shift", "Caps lock", "Ctrl", "Alt", "Mod2", "Mod3", "Logo", "Mod5"];
    for bits in 0u32..256 {
        let m = KeyboardModifier::from_bits_truncate(bits);
        let names = m.names();
        for (i, name) in all.iter().enumerate() {
            let set = bits & (1 << i) != 0;
            assert_eq!(names.contains(name), set);
        }
    }
}

#[test]
fn to_string_writes_the_debug_list_of_names() {
    let m = KeyboardModifier::from_bits_truncate(WLR_MODIFIER_SHIFT | WLR_MODIFIER_CTRL);
    assert_eq!(m.to_string(), "[\"Shift\", \"Ctrl\"]");
    assert_eq!(KeyboardModifier::from_bits_truncate(0).to_string(), "[]");
    assert_eq!(KeyboardModifier::from_bits_truncate(WLR_MODIFIER_CAPS).to_string(), "[\"Caps lock\"]");
    for bits in 0u32..256 {
        let m = KeyboardModifier::from_bits_truncate(bits);
        assert_eq!(m.to_string(), format!("{:?}", m.names()));
    }
}

#[test]
fn sets_hold_only_known_bits() {
    for bits in [0u32, 1, 7, 8, 0xff, 0x1234, u32::MAX] {
        let leds = KeyboardLed::from_bits_truncate(bits);
        assert_eq!(leds.bits() & 7, leds.bits());
        for (bit, on) in [
            (WLR_LED_NUM_LOCK, bits & 1 != 0),
            (WLR_LED_CAPS_LOCK, bits & 2 != 0),
            (WLR_LED_SCROLL_LOCK, bits & 4 != 0),
        ] {
            assert_eq!(leds.contains(KeyboardLed::from_bits_truncate(bit)), on);
            assert_eq!(leds.bits() & bit != 0, on);
        }
        let mods = KeyboardModifier::from_bits_truncate(bits);
        assert_eq!(mods.bits() & 0xff, mods.bits());
    }
}

#[test]
fn empty_all_and_union() {
    assert_eq!(KeyboardModifier::empty().bits(), 0);
    assert_eq!(KeyboardModifier::all().bits(), 0xff);
    assert_eq!(KeyboardLed::empty().bits(), 0);
    assert_eq!(KeyboardLed::all().bits(), 7);
    let shift = KeyboardModifier::from_bits_truncate(WLR_MODIFIER_SHIFT);
    let alt = KeyboardModifier::from_bits_truncate(WLR_MODIFIER_ALT);
    let both = shift.union(alt);
    assert_eq!(both.bits(), WLR_MODIFIER_SHIFT | WLR_MODIFIER_ALT);
    assert!(both.contains(shift) && both.contains(alt));
    assert_eq!(KeyboardModifier::all().to_string(), "[\"Shift\", \"Caps lock\", \"Ctrl\", \"Alt\", \"Mod2\", \"Mod3\", \"Logo\", \"Mod5\"]");
    let num = KeyboardLed::from_bits_truncate(WLR_LED_NUM_LOCK);
    let scroll = KeyboardLed::from_bits_truncate(WLR_LED_SCROLL_LOCK);
    assert_eq!(num.union(scroll).bits(), 5);
    assert!(KeyboardLed::all().contains(num.union(scroll)));
}

#[test]
fn flag_set_operations() {
    let shift = KeyboardModifier::from_bits_truncate(WLR_MODIFIER_SHIFT);
    let ctrl = KeyboardModifier::from_bits_truncate(WLR_MODIFIER_CTRL);
    let both = shift.union(ctrl);
    assert_eq!(KeyboardModifier::from_bits(5).map(|m| m.bits()), Some(5));
    assert!(KeyboardModifier::from_bits(0x100).is_none());
    assert!(KeyboardLed::from_bits(8).is_none());
    assert_eq!(KeyboardLed::from_bits(3).map(|l| l.bits()), Some(3));
    assert!(KeyboardModifier::empty().is_empty());
    assert!(KeyboardModifier::all().is_all());
    assert!(!both.is_empty() && !both.is_all());
    assert!(both.intersects(shift));
    assert!(!shift.intersects(ctrl));
    assert_eq!(both.intersection(shift).bits(), 1);
    assert_eq!(both.difference(shift).bits(), 4);
    assert_eq!(both.symmetric_difference(KeyboardModifier::from_bits_truncate(6)).bits(), 3);
    assert_eq!(both.complement().bits(), 0xfa);
    assert_eq!(KeyboardLed::from_bits_truncate(1).complement().bits(), 6);
    let mut m = shift;
    m.insert(ctrl);
    assert_eq!(m, both);
    m.remove(shift);
    assert_eq!(m, ctrl);
    m.toggle(both);
    assert_eq!(m, shift);
    m.set(ctrl, true);
    assert_eq!(m, both);
    m.set(shift, false);
    assert_eq!(m, ctrl);
}

#[test]
fn flag_debug_strings() {
    assert_eq!(KeyboardModifier::empty().debug_string(), "(empty)");
    assert_eq!(
        KeyboardModifier::from_bits_truncate(WLR_MODIFIER_SHIFT | WLR_MODIFIER_CTRL).debug_string(),
        "WLR_MODIFIER_SHIFT | WLR_MODIFIER_CTRL"
    );
    assert_eq!(KeyboardModifier::from_bits_truncate(WLR_MODIFIER_MOD5).debug_string(), "WLR_MODIFIER_MOD5");
    assert_eq!(KeyboardLed::empty().debug_string(), "(empty)");
    assert_eq!(
        KeyboardLed::all().debug_string(),
        "WLR_LED_NUM_LOCK | WLR_LED_CAPS_LOCK | WLR_LED_SCROLL_LOCK"
    );
    assert_eq!(KeyboardLed::all().flag_names().len(), 3);
}
