use vstd::prelude::*;
use crate::text::{address_text, append_address, hex_digits, hex_value, is_hex_numeral, lemma_address_text_denotes};

verus! {

/// An input device of the compositor, known by the address of its
/// `wlr_input_device`.
#[derive(Debug, Clone, Copy, PartialEq, Eq, Structural, Hash)]
pub struct InputDevice {
    device: usize,
}

/// The kind of an input device, with the address of the keyboard data that a
/// keyboard device carries.
#[derive(Debug, Clone, Copy, PartialEq, Eq, Structural, Hash)]
pub enum InputDeviceKind {
    /// A keyboard; the address of its `wlr_keyboard`.
    Keyboard(usize),
    Pointer,
    Touch,
    TabletTool,
    TabletPad,
}

impl InputDevice {
    /// The address of the `wlr_input_device`.
    pub closed spec fn addr(self) -> usize {
        self.device
    }

    /// The device at the given address.
    pub fn from_ptr(device: usize) -> (r: Self)
        ensures
            r.addr() == device,
    {
        InputDevice { device }
    }

    /// The text of this device as `{:?}` writes it: `InputDevice { device: 0x… }`.
    pub open spec fn spec_debug_string(self) -> Seq<char> {
        "InputDevice { device: "@ + address_text(self.addr()) + " }"@
    }

    /// Appends the text of this device as `{:?}` writes it.
    pub fn append_debug_string(&self, out: &mut String)
        ensures
            final(out)@ == old(out)@ + self.spec_debug_string(),
    {
        out.append("InputDevice { device: ");
        append_address(out, self.device);
        out.append(" }");
        assert(final(out)@ =~= old(out)@ + self.spec_debug_string());
    }

    /// The text of this device as `{:?}` writes it: `InputDevice { device: 0x… }`.
    pub fn debug_string(&self) -> (r: String)
        ensures
            r@ == self.spec_debug_string(),
    {
        let mut r = String::new();
        self.append_debug_string(&mut r);
        assert(r@ =~= self.spec_debug_string());
        r
    }

    /// The address of the `wlr_input_device`.
    pub fn as_ptr(&self) -> (r: usize)
        ensures
            r == self.addr(),
    {
        self.device
    }
}

/// The text of a device shows its whole address: after `device: 0x` stand the
/// lower-case hexadecimal digits of the address, without leading zeros.
pub proof fn lemma_device_text_shows_address(d: InputDevice)
    ensures
        exists|digits: Seq<char>|
            {
                &&& is_hex_numeral(digits)
                &&& #[trigger] hex_value(digits) == d.addr()
                &&& d.spec_debug_string() == "InputDevice { device: "@ + "0x"@ + digits + " }"@
            },
{
    lemma_address_text_denotes(d.addr());
    let digits = hex_digits(d.addr() as nat);
    assert(d.spec_debug_string() =~= "InputDevice { device: "@ + "0x"@ + digits + " }"@);
    assert(hex_value(digits) == d.addr());
}

} // verus!
