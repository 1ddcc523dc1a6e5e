//! Particle color tags and their CSS hex notation.
//!
//! Parsing mirrors integer parsing with radix 16 on each two-character
//! group: a group is its hex value, a group of a leading `+` and one hex
//! digit is that digit's value, and any other group counts as zero.

use vstd::prelude::*;

verus! {

/// A color tag: four 8-bit channels.
#[derive(Clone, Copy, Debug, PartialEq, Eq, Structural)]
pub struct RGBA {
    pub red: u8,
    pub green: u8,
    pub blue: u8,
    pub alpha: u8,
}

/// `c` is an ASCII hex digit.
pub open spec fn is_hex_digit(c: char) -> bool {
    ('0' as int <= c as int <= '9' as int) || ('a' as int <= c as int <= 'f' as int) || (
    'A' as int <= c as int <= 'F' as int)
}

/// The value of an ASCII hex digit.
pub open spec fn hex_digit_val(c: char) -> int
    recommends
        is_hex_digit(c),
{
    if '0' as int <= c as int <= '9' as int {
        c as int - '0' as int
    } else if 'a' as int <= c as int <= 'f' as int {
        c as int - 'a' as int + 10
    } else {
        c as int - 'A' as int + 10
    }
}

/// The value of a two-character group: its hex value, the single digit's
/// value after a leading plus sign, and zero for anything unparsable.
pub open spec fn hex_pair_or_zero(c1: char, c2: char) -> u8 {
    if is_hex_digit(c1) && is_hex_digit(c2) {
        (16 * hex_digit_val(c1) + hex_digit_val(c2)) as u8
    } else if c1 == '+' && is_hex_digit(c2) {
        hex_digit_val(c2) as u8
    } else {
        0
    }
}

/// What parsing a CSS hex color yields: after an optional leading `#`, six
/// or eight characters in two-character groups for red, green, blue and
/// (optionally) alpha; alpha defaults to 255.  Any other length fails.
pub open spec fn parse_css_hex(s: Seq<char>) -> Option<RGBA> {
    let body = if s.len() > 0 && s[0] == '#' {
        s.skip(1)
    } else {
        s
    };
    if body.len() != 6 && body.len() != 8 {
        Option::None
    } else {
        Option::Some(
            RGBA {
                red: hex_pair_or_zero(body[0], body[1]),
                green: hex_pair_or_zero(body[2], body[3]),
                blue: hex_pair_or_zero(body[4], body[5]),
                alpha: if body.len() == 8 {
                    hex_pair_or_zero(body[6], body[7])
                } else {
                    255
                },
            },
        )
    }
}

/// The uppercase hex digit for a value below 16.
pub open spec fn hex_char_upper(d: int) -> char
    recommends
        0 <= d < 16,
{
    if d == 0 {
        '0'
    } else if d == 1 {
        '1'
    } else if d == 2 {
        '2'
    } else if d == 3 {
        '3'
    } else if d == 4 {
        '4'
    } else if d == 5 {
        '5'
    } else if d == 6 {
        '6'
    } else if d == 7 {
        '7'
    } else if d == 8 {
        '8'
    } else if d == 9 {
        '9'
    } else if d == 10 {
        'A'
    } else if d == 11 {
        'B'
    } else if d == 12 {
        'C'
    } else if d == 13 {
        'D'
    } else if d == 14 {
        'E'
    } else {
        'F'
    }
}

/// The CSS hex notation of a color: `#`, then red, green, blue and alpha as
/// two uppercase hex digits each.
pub open spec fn css_hex_of(c: RGBA) -> Seq<char> {
    seq![
        '#',
        hex_char_upper(c.red as int / 16),
        hex_char_upper(c.red as int % 16),
        hex_char_upper(c.green as int / 16),
        hex_char_upper(c.green as int % 16),
        hex_char_upper(c.blue as int / 16),
        hex_char_upper(c.blue as int % 16),
        hex_char_upper(c.alpha as int / 16),
        hex_char_upper(c.alpha as int % 16),
    ]
}

/// The value of a two-character group, computed.
fn hex_pair(c1: char, c2: char) -> (r: u8)
    ensures
        r == hex_pair_or_zero(c1, c2),
{
    let v1 = hex_digit(c1);
    let v2 = hex_digit(c2);
    match (v1, v2) {
        (Some(a), Some(b)) => 16 * a + b,
        (None, Some(b)) => if c1 == '+' {
            b
        } else {
            0
        },
        _ => 0,
    }
}

/// The value of one hex digit, if `c` is one.
fn hex_digit(c: char) -> (r: Option<u8>)
    ensures
        match r {
            Option::Some(v) => is_hex_digit(c) && v == hex_digit_val(c) && v < 16,
            Option::None => !is_hex_digit(c),
        },
{
    let u = c as u32;
    if u >= 48 && u <= 57 {
        Some((u - 48) as u8)
    } else if u >= 97 && u <= 102 {
        Some((u - 97 + 10) as u8)
    } else if u >= 65 && u <= 70 {
        Some((u - 65 + 10) as u8)
    } else {
        None
    }
}

/// The uppercase hex digit for a value below 16, as a one-character string.
fn hex_char_str(d: u8) -> (r: &'static str)
    requires
        d < 16,
    ensures
        r@ =~= seq![hex_char_upper(d as int)],
{
    proof {
        reveal_strlit("0");
        reveal_strlit("1");
        reveal_strlit("2");
        reveal_strlit("3");
        reveal_strlit("4");
        reveal_strlit("5");
        reveal_strlit("6");
        reveal_strlit("7");
        reveal_strlit("8");
        reveal_strlit("9");
        reveal_strlit("A");
        reveal_strlit("B");
        reveal_strlit("C");
        reveal_strlit("D");
        reveal_strlit("E");
        reveal_strlit("F");
    }
    match d {
        0 => "0",
        1 => "1",
        2 => "2",
        3 => "3",
        4 => "4",
        5 => "5",
        6 => "6",
        7 => "7",
        8 => "8",
        9 => "9",
        10 => "A",
        11 => "B",
        12 => "C",
        13 => "D",
        14 => "E",
        _ => "F",
    }
}

impl RGBA {
    /// Parse a CSS hex color.
    pub fn from_css_hex(hex: &str) -> (r: Option<RGBA>)
        ensures
            r == parse_css_hex(hex@),
    {
        let n = hex.unicode_len();
        let has_hash = n > 0 && hex.get_char(0) == '#';
        let off: usize = if has_hash {
            1
        } else {
            0
        };
        let m = n - off;
        if m != 6 && m != 8 {
            return None;
        }
        proof {
            let body = if hex@.len() > 0 && hex@[0] == '#' {
                hex@.skip(1)
            } else {
                hex@
            };
            assert(body =~= hex@.skip(off as int));
            assert(body.len() == m);
            assert forall|k: int| 0 <= k < m implies body[k] == hex@[off + k] by {}
        }
        let red = hex_pair(hex.get_char(off), hex.get_char(off + 1));
        let green = hex_pair(hex.get_char(off + 2), hex.get_char(off + 3));
        let blue = hex_pair(hex.get_char(off + 4), hex.get_char(off + 5));
        let alpha = if m == 8 {
            hex_pair(hex.get_char(off + 6), hex.get_char(off + 7))
        } else {
            255
        };
        Some(RGBA { red, green, blue, alpha })
    }

    /// This color in CSS hex notation, uppercase, alpha included.
    pub fn as_css_hex(&self) -> (r: String)
        ensures
            r@ =~= css_hex_of(*self),
    {
        proof {
            reveal_strlit("#");
        }
        let mut s = String::from_str("#");
        s.append(hex_char_str(self.red / 16));
        s.append(hex_char_str(self.red % 16));
        s.append(hex_char_str(self.green / 16));
        s.append(hex_char_str(self.green % 16));
        s.append(hex_char_str(self.blue / 16));
        s.append(hex_char_str(self.blue % 16));
        s.append(hex_char_str(self.alpha / 16));
        s.append(hex_char_str(self.alpha % 16));
        s
    }
}

/// Law: formatting a color and parsing the result gives the color back.
pub proof fn lemma_css_hex_round_trip(c: RGBA)
    ensures
        parse_css_hex(css_hex_of(c)) == Option::Some(c),
{
    let s = css_hex_of(c);
    assert(s[0] == '#');
    let body = s.skip(1);
    assert(body.len() == 8);
    assert forall|d: int| 0 <= d < 16 implies is_hex_digit(hex_char_upper(d)) && hex_digit_val(
        hex_char_upper(d),
    ) == d by {}
    assert(body[0] == hex_char_upper(c.red as int / 16));
    assert(hex_pair_or_zero(body[0], body[1]) == c.red);
    assert(hex_pair_or_zero(body[2], body[3]) == c.green);
    assert(hex_pair_or_zero(body[4], body[5]) == c.blue);
    assert(hex_pair_or_zero(body[6], body[7]) == c.alpha);
}

} // verus!
