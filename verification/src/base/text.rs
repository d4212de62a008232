use vstd::prelude::*;
use crate::base::mutf8::string_push;

verus! {

/// The digit for `d` (below sixteen), in lower or upper case.
pub open spec fn digit_char(d: nat, upper: bool) -> char {
    if d < 10 {
        ((48 + d) as u8) as char
    } else if upper {
        ((55 + d) as u8) as char
    } else {
        ((87 + d) as u8) as char
    }
}

/// `v` in decimal, without leading zeros.
pub open spec fn decimal(v: nat) -> Seq<char>
    decreases v,
{
    if v < 10 {
        seq![digit_char(v, false)]
    } else {
        decimal(v / 10) + seq![digit_char(v % 10, false)]
    }
}

/// `v` in hexadecimal, padded with zeros to at least `width` digits.
pub open spec fn hexadecimal(v: nat, width: nat, upper: bool) -> Seq<char>
    decreases v + width,
{
    if v < 16 && width <= 1 {
        seq![digit_char(v, upper)]
    } else {
        hexadecimal(v / 16, if width > 0 { (width - 1) as nat } else { 0 }, upper) + seq![
            digit_char(v % 16, upper),
        ]
    }
}

fn digit(d: u64, upper: bool) -> (res: char)
    requires
        d < 16,
    ensures
        res == digit_char(d as nat, upper),
{
    if d < 10 {
        ((48 + d) as u8) as char
    } else if upper {
        ((55 + d) as u8) as char
    } else {
        ((87 + d) as u8) as char
    }
}

/// Appends `v` in decimal.
pub fn push_decimal(s: &mut String, v: u64)
    ensures
        final(s)@ == old(s)@ + decimal(v as nat),
    decreases v,
{
    if v >= 10 {
        push_decimal(s, v / 10);
    }
    string_push(s, digit(v % 10, false));
    assert(final(s)@ =~= old(s)@ + decimal(v as nat));
}

/// Appends `v` in hexadecimal, padded with zeros to at least `width` digits.
pub fn push_hex(s: &mut String, v: u64, width: u64, upper: bool)
    ensures
        final(s)@ == old(s)@ + hexadecimal(v as nat, width as nat, upper),
    decreases v + width,
{
    if !(v < 16 && width <= 1) {
        push_hex(s, v / 16, if width > 0 { width - 1 } else { 0 }, upper);
    }
    string_push(s, digit(v % 16, upper));
    assert(final(s)@ =~= old(s)@ + hexadecimal(v as nat, width as nat, upper));
}

/// A new string holding `text`.
pub fn text(t: &str) -> (res: String)
    ensures
        res@ == t@,
{
    t.to_owned()
}

} // verus!
