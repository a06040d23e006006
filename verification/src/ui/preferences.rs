use vstd::prelude::*;

use crate::text::string_from_chars;

verus! {

/// Lower-case hexadecimal digit of `d < 16`.
pub open spec fn hex_digit(d: nat) -> char {
    if d < 10 {
        ((d + 48) as u8) as char
    } else {
        ((d + 87) as u8) as char
    }
}

/// The colour `#rrggbb` in lower-case hexadecimal, two digits per channel.
pub open spec fn hex_color_spec(r: u8, g: u8, b: u8) -> Seq<char> {
    seq![
        '#',
        hex_digit((r / 16) as nat),
        hex_digit((r % 16) as nat),
        hex_digit((g / 16) as nat),
        hex_digit((g % 16) as nat),
        hex_digit((b / 16) as nat),
        hex_digit((b % 16) as nat),
    ]
}

fn hex_char(d: u8) -> (c: char)
    requires
        d < 16,
    ensures
        c == hex_digit(d as nat),
{
    if d < 10 {
        (d + 48) as char
    } else {
        (d + 87) as char
    }
}

/// The settings string of a colour given by its red, green and blue channels.
pub fn hex_color(r: u8, g: u8, b: u8) -> (s: String)
    ensures
        s@ == hex_color_spec(r, g, b),
{
    let mut v: Vec<char> = Vec::new();
    v.push('#');
    v.push(hex_char(r / 16));
    v.push(hex_char(r % 16));
    v.push(hex_char(g / 16));
    v.push(hex_char(g % 16));
    v.push(hex_char(b / 16));
    v.push(hex_char(b % 16));
    assert(v@ =~= hex_color_spec(r, g, b));
    string_from_chars(&v)
}

} // verus!
