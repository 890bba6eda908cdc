use vstd::prelude::*;

use crate::naming::Format;

verus! {

/// A flat RGB color, parsed from a six-hex-digit string; it only feeds the
/// render call and is never persisted.
#[derive(Clone, Copy, Debug, PartialEq, Eq, Structural)]
pub struct FlatColor {
    pub r: u8,
    pub g: u8,
    pub b: u8,
}

/// ASCII hex digit, either case.
pub open spec fn is_hex_digit(b: u8) -> bool {
    (48 <= b <= 57) || (97 <= b <= 102) || (65 <= b <= 70)
}

/// The value of an ASCII hex digit (0 outside the hex range).
pub open spec fn hex_digit_value(b: u8) -> u8 {
    if 48 <= b <= 57 {
        (b - 48) as u8
    } else if 97 <= b <= 102 {
        (b - 97 + 10) as u8
    } else if 65 <= b <= 70 {
        (b - 65 + 10) as u8
    } else {
        0
    }
}

/// The color a six-hex-digit string denotes, two digits per channel;
/// `None` for any other string.
pub open spec fn spec_parse_hex_color(s: Seq<u8>) -> Option<FlatColor> {
    if s.len() == 6 && (forall|i: int| 0 <= i < 6 ==> is_hex_digit(s[i])) {
        Some(
            FlatColor {
                r: (hex_digit_value(s[0]) * 16 + hex_digit_value(s[1])) as u8,
                g: (hex_digit_value(s[2]) * 16 + hex_digit_value(s[3])) as u8,
                b: (hex_digit_value(s[4]) * 16 + hex_digit_value(s[5])) as u8,
            },
        )
    } else {
        None
    }
}

/// The value of one hex digit, or `None` when the byte is no hex digit.
fn hex_val(b: u8) -> (r: Option<u8>)
    ensures
        r is Some <==> is_hex_digit(b),
        r matches Some(v) ==> v == hex_digit_value(b) && v < 16,
{
    if 48 <= b && b <= 57 {
        Some(b - 48)
    } else if 97 <= b && b <= 102 {
        Some(b - 97 + 10)
    } else if 65 <= b && b <= 70 {
        Some(b - 65 + 10)
    } else {
        None
    }
}

/// Parse a background color from exactly six hex digits.
pub fn parse_hex_color(s: &[u8]) -> (r: Option<FlatColor>)
    ensures
        r == spec_parse_hex_color(s@),
{
    if s.len() != 6 {
        return None;
    }
    let d0 = hex_val(s[0]);
    let d1 = hex_val(s[1]);
    let d2 = hex_val(s[2]);
    let d3 = hex_val(s[3]);
    let d4 = hex_val(s[4]);
    let d5 = hex_val(s[5]);
    match (d0, d1, d2, d3, d4, d5) {
        (Some(h0), Some(h1), Some(h2), Some(h3), Some(h4), Some(h5)) => Some(
            FlatColor { r: h0 * 16 + h1, g: h2 * 16 + h3, b: h4 * 16 + h5 },
        ),
        _ => None,
    }
}

/// The alpha of the cleared background, in thousandths: partly opaque for
/// the lossy output format, fully transparent otherwise.
pub open spec fn spec_alpha_permille(f: Format) -> u16 {
    match f {
        Format::Jpg => 800u16,
        Format::Png => 0u16,
    }
}

/// Background alpha for an output format, in thousandths.
pub fn alpha_permille(f: Format) -> (r: u16)
    ensures
        r == spec_alpha_permille(f),
{
    match f {
        Format::Jpg => 800,
        Format::Png => 0,
    }
}

} // verus!
