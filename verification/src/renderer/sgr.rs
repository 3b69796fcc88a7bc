//! Select-graphic-rendition (color) escape sequences, written digit by digit
//! without allocating; every color renderer uses them.
use vstd::prelude::*;

use crate::text::{decimal, digit_char};

verus! {

/// The SGR sequence that selects 256-palette color `color` for `mode`
/// (38 = foreground, 48 = background).
pub open spec fn sgr256(mode: u8, color: u8) -> Seq<char> {
    "\x1b["@ + decimal(mode as nat) + ";5;"@ + decimal(color as nat) + "m"@
}

/// Appends the decimal digits of `value` without allocating.
pub fn push_number(output: &mut String, value: u8)
    ensures
        final(output)@ == old(output)@ + decimal(value as nat),
{
    proof {
        reveal_with_fuel(decimal, 3);
    }
    if value >= 100 {
        output.push((48u8 + value / 100) as char);
        output.push((48u8 + (value / 10) % 10) as char);
        output.push((48u8 + value % 10) as char);
        assert(decimal(value as nat) == seq![
            digit_char((value / 100) as nat),
            digit_char(((value / 10) % 10) as nat),
            digit_char((value % 10) as nat),
        ]);
    } else if value >= 10 {
        output.push((48u8 + value / 10) as char);
        output.push((48u8 + value % 10) as char);
        assert(decimal(value as nat) == seq![
            digit_char((value / 10) as nat),
            digit_char((value % 10) as nat),
        ]);
    } else {
        output.push((48u8 + value) as char);
    }
    assert(output@ =~= old(output)@ + decimal(value as nat));
}

/// Appends the SGR sequence selecting palette color `color` for `mode`.
pub fn push_color(output: &mut String, mode: u8, color: u8)
    ensures
        final(output)@ == old(output)@ + sgr256(mode, color),
{
    output.push_str("\x1b[");
    push_number(output, mode);
    output.push_str(";5;");
    push_number(output, color);
    output.push('m');
    proof {
        reveal_strlit("m");
    }
    assert(output@ =~= old(output)@ + sgr256(mode, color));
}

} // verus!
