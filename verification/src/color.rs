//! RGBA colors and the textual color format of the configuration surface:
//! `#rrggbb` or `#rrggbbaa` with hexadecimal digits.
use vstd::prelude::*;

verus! {

/// An RGBA color with 8-bit channels.
#[derive(Clone, Copy, PartialEq, Eq, Structural, Debug)]
pub struct Rgba {
    pub red: u8,
    pub green: u8,
    pub blue: u8,
    pub alpha: u8,
}

/// Whether `c` is a hexadecimal digit.
pub open spec fn is_hex(c: char) -> bool {
    ('0' <= c && c <= '9') || ('a' <= c && c <= 'f') || ('A' <= c && c <= 'F')
}

/// The numeric value of a hexadecimal digit character.
pub open spec fn hex_val(c: char) -> nat {
    if '0' <= c && c <= '9' {
        ((c as int) - ('0' as int)) as nat
    } else if 'a' <= c && c <= 'f' {
        ((c as int) - ('a' as int) + 10) as nat
    } else if 'A' <= c && c <= 'F' {
        ((c as int) - ('A' as int) + 10) as nat
    } else {
        0
    }
}

/// Whether `s` is a well-formed color: '#' followed by 6 or 8 hex digits.
pub open spec fn valid_color(s: Seq<char>) -> bool {
    &&& (s.len() == 7 || s.len() == 9)
    &&& s[0] == '#'
    &&& forall|k: int| 1 <= k < s.len() ==> is_hex(#[trigger] s[k])
}

/// The channel value of the hex digit pair at position `i`.
pub open spec fn hex_pair_val(s: Seq<char>, i: int) -> nat {
    hex_val(s[i]) * 16 + hex_val(s[i + 1])
}

/// The color denoted by a well-formed color string; `None` otherwise.
/// When the alpha pair is absent the color is opaque.
pub open spec fn spec_parse_color(s: Seq<char>) -> Option<Rgba> {
    if valid_color(s) {
        Some(
            Rgba {
                red: hex_pair_val(s, 1) as u8,
                green: hex_pair_val(s, 3) as u8,
                blue: hex_pair_val(s, 5) as u8,
                alpha: if s.len() == 9 {
                    hex_pair_val(s, 7) as u8
                } else {
                    255
                },
            },
        )
    } else {
        None
    }
}

fn hex_digit(c: char) -> (r: Option<u8>)
    ensures
        r is Some <==> is_hex(c),
        r is Some ==> r->0 as nat == hex_val(c),
{
    if '0' <= c && c <= '9' {
        Some((c as u32 as u8) - 48)
    } else if 'a' <= c && c <= 'f' {
        Some((c as u32) as u8 - 97 + 10)
    } else if 'A' <= c && c <= 'F' {
        Some((c as u32) as u8 - 65 + 10)
    } else {
        None
    }
}

fn hex_pair(s: &str, i: usize) -> (r: Option<u8>)
    requires
        i + 1 < s@.len(),
        i + 1 < usize::MAX,
    ensures
        r is Some <==> is_hex(s@[i as int]) && is_hex(s@[i + 1]),
        r is Some ==> r->0 as nat == hex_pair_val(s@, i as int),
{
    let hi = hex_digit(s.get_char(i));
    let lo = hex_digit(s.get_char(i + 1));
    match (hi, lo) {
        (Some(h), Some(l)) => Some(h * 16 + l),
        _ => None,
    }
}

/// Parse a textual color. Returns a color exactly for well-formed inputs.
pub fn parse_color(s: &str) -> (r: Option<Rgba>)
    ensures
        r == spec_parse_color(s@),
{
    let n = s.unicode_len();
    if n != 7 && n != 9 {
        return None;
    }
    if s.get_char(0) != '#' {
        return None;
    }
    let red = hex_pair(s, 1);
    let green = hex_pair(s, 3);
    let blue = hex_pair(s, 5);
    match (red, green, blue) {
        (Some(red), Some(green), Some(blue)) => {
            if n == 9 {
                match hex_pair(s, 7) {
                    Some(alpha) => Some(Rgba { red, green, blue, alpha }),
                    None => None,
                }
            } else {
                Some(Rgba { red, green, blue, alpha: 255 })
            }
        },
        _ => None,
    }
}

} // verus!
