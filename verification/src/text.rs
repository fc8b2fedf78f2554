use vstd::prelude::*;

verus! {

/// The lower-case hexadecimal digit of `d`, for `d < 16`.
pub open spec fn hex_digit(d: nat) -> Seq<char> {
    if d == 0 {
        "0"@
    } else if d == 1 {
        "1"@
    } else if d == 2 {
        "2"@
    } else if d == 3 {
        "3"@
    } else if d == 4 {
        "4"@
    } else if d == 5 {
        "5"@
    } else if d == 6 {
        "6"@
    } else if d == 7 {
        "7"@
    } else if d == 8 {
        "8"@
    } else if d == 9 {
        "9"@
    } else if d == 10 {
        "a"@
    } else if d == 11 {
        "b"@
    } else if d == 12 {
        "c"@
    } else if d == 13 {
        "d"@
    } else if d == 14 {
        "e"@
    } else {
        "f"@
    }
}

/// The lower-case hexadecimal digits of `n`, without leading zeros (`0` for zero).
pub open spec fn hex_digits(n: nat) -> Seq<char>
    decreases n,
{
    if n < 16 {
        hex_digit(n)
    } else {
        hex_digits(n / 16) + hex_digit(n % 16)
    }
}

/// An address as `{:?}` writes a pointer: `0x` and its lower-case hexadecimal digits.
pub open spec fn address_text(n: usize) -> Seq<char> {
    "0x"@ + hex_digits(n as nat)
}

fn hex_digit_str(d: usize) -> (r: &'static str)
    requires
        d < 16,
    ensures
        r@ == hex_digit(d as nat),
{
    if d == 0 {
        "0"
    } else if d == 1 {
        "1"
    } else if d == 2 {
        "2"
    } else if d == 3 {
        "3"
    } else if d == 4 {
        "4"
    } else if d == 5 {
        "5"
    } else if d == 6 {
        "6"
    } else if d == 7 {
        "7"
    } else if d == 8 {
        "8"
    } else if d == 9 {
        "9"
    } else if d == 10 {
        "a"
    } else if d == 11 {
        "b"
    } else if d == 12 {
        "c"
    } else if d == 13 {
        "d"
    } else if d == 14 {
        "e"
    } else {
        "f"
    }
}

fn append_hex_digits(out: &mut String, n: usize)
    ensures
        final(out)@ == old(out)@ + hex_digits(n as nat),
    decreases n,
{
    if n >= 16 {
        append_hex_digits(out, n / 16);
    }
    out.append(hex_digit_str(n % 16));
    assert(old(out)@ + hex_digits(n as nat) =~= if n >= 16 {
        old(out)@ + hex_digits((n / 16) as nat) + hex_digit((n % 16) as nat)
    } else {
        old(out)@ + hex_digit((n % 16) as nat)
    });
}

/// Appends `address_text(n)` to `out`.
pub fn append_address(out: &mut String, n: usize)
    ensures
        final(out)@ == old(out)@ + address_text(n),
{
    out.append("0x");
    append_hex_digits(out, n);
    assert(old(out)@ + "0x"@ + hex_digits(n as nat) =~= old(out)@ + address_text(n));
}

/// The value of a lower-case hexadecimal digit character, or -1 for any other
/// character.
pub open spec fn hex_char_value(c: char) -> int {
    if '0' <= c && c <= '9' {
        c as int - '0' as int
    } else if 'a' <= c && c <= 'f' {
        c as int - 'a' as int + 10
    } else {
        -1
    }
}

/// The number that a string of hexadecimal digits stands for, most significant
/// digit first.
pub open spec fn hex_value(s: Seq<char>) -> int
    decreases s.len(),
{
    if s.len() == 0 {
        0
    } else {
        hex_value(s.drop_last()) * 16 + hex_char_value(s.last())
    }
}

/// A hexadecimal numeral: at least one digit, every character a lower-case
/// hexadecimal digit, and no leading zero unless the numeral is `0` itself.
pub open spec fn is_hex_numeral(s: Seq<char>) -> bool {
    &&& s.len() > 0
    &&& forall|i: int| 0 <= i < s.len() ==> 0 <= #[trigger] hex_char_value(s[i]) < 16
    &&& s.len() > 1 ==> s[0] != '0'
}

/// Each digit text is the one character whose value is the digit.
proof fn lemma_hex_digit_value(d: nat)
    requires
        d < 16,
    ensures
        hex_digit(d).len() == 1,
        hex_char_value(hex_digit(d)[0]) == d,
{
    reveal_strlit("0");
    reveal_strlit("1");
    reveal_strlit("2");
    reveal_strlit("3");
    reveal_strlit("4");
    reveal_strlit("5");
    reveal_strlit("6");
    reveal_strlit("7");
    reveal_strlit("8");
    reveal_strlit("9");
    reveal_strlit("a");
    reveal_strlit("b");
    reveal_strlit("c");
    reveal_strlit("d");
    reveal_strlit("e");
    reveal_strlit("f");
}

/// The digits of `n` are the lower-case base-16 numeral of `n`: read back as a
/// hexadecimal number they give `n`, and they have no leading zero.
pub proof fn lemma_hex_digits_denote(n: nat)
    ensures
        is_hex_numeral(hex_digits(n)),
        hex_value(hex_digits(n)) == n,
    decreases n,
{
    if n < 16 {
        lemma_hex_digit_value(n);
        let s = hex_digits(n);
        assert(s.drop_last() =~= Seq::<char>::empty());
        assert(hex_value(s.drop_last()) == 0);
        assert(hex_value(s) == hex_char_value(s[0]));
        reveal_strlit("0");
        assert(n == 0 ==> s =~= seq!['0']);
    } else {
        let q = n / 16;
        let r = n % 16;
        lemma_hex_digits_denote(q);
        lemma_hex_digit_value(r);
        let a = hex_digits(q);
        let s = hex_digits(n);
        assert(s =~= a + hex_digit(r));
        assert(s.drop_last() =~= a);
        assert(s.last() == hex_digit(r)[0]);
        assert(q * 16 + r == n);
        assert(hex_value(s) == hex_value(a) * 16 + hex_char_value(hex_digit(r)[0]));
        assert forall|i: int| 0 <= i < s.len() implies 0 <= #[trigger] hex_char_value(s[i]) < 16 by {
            if i < a.len() {
                assert(s[i] == a[i]);
            }
        }
        assert(s[0] == a[0]);
        if a.len() == 1 {
            assert(q < 16) by {
                if q >= 16 {
                    lemma_hex_digits_long(q);
                }
            }
            lemma_hex_digit_value(q);
            assert(a[0] != '0') by {
                reveal_strlit("0");
                if a[0] == '0' {
                    assert(hex_char_value(a[0]) == 0);
                }
            }
        }
    }
}

/// The digits of a number of at least 16 are more than one.
proof fn lemma_hex_digits_long(n: nat)
    requires
        n >= 16,
    ensures
        hex_digits(n).len() > 1,
    decreases n,
{
    lemma_hex_digits_nonempty(n / 16);
    lemma_hex_digit_value(n % 16);
}

proof fn lemma_hex_digits_nonempty(n: nat)
    ensures
        hex_digits(n).len() >= 1,
    decreases n,
{
    if n < 16 {
        lemma_hex_digit_value(n);
    } else {
        lemma_hex_digits_nonempty(n / 16);
        lemma_hex_digit_value(n % 16);
    }
}

/// An address is written as `0x` and the numeral of the address: the digits
/// after `0x`, read back as a hexadecimal number, give the address.
pub proof fn lemma_address_text_denotes(n: usize)
    ensures
        address_text(n) == "0x"@ + hex_digits(n as nat),
        is_hex_numeral(hex_digits(n as nat)),
        hex_value(hex_digits(n as nat)) == n,
{
    lemma_hex_digits_denote(n as nat);
}

} // verus!
