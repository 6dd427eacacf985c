//! Colors with 8 bits per channel, straight alpha.

use vstd::prelude::*;

verus! {

#[derive(Copy, Clone, Debug, PartialEq, Eq, Structural)]
pub struct Color {
    pub r: u8,
    pub g: u8,
    pub b: u8,
    pub a: u8,
}

/// The value of a hexadecimal digit, or -1 for any other character.
pub open spec fn hex_value(c: char) -> int {
    if '0' <= c && c <= '9' {
        c as int - '0' as int
    } else if 'a' <= c && c <= 'f' {
        c as int - 'a' as int + 10
    } else if 'A' <= c && c <= 'F' {
        c as int - 'A' as int + 10
    } else {
        -1
    }
}

/// The digits of a color code: the text after a leading `#`, if any.
pub open spec fn hex_digits(s: Seq<char>) -> Seq<char> {
    if s.len() > 0 && s[0] == '#' {
        s.drop_first()
    } else {
        s
    }
}

/// Six or eight hexadecimal digits, after an optional `#`.
pub open spec fn is_hex_color(s: Seq<char>) -> bool {
    let d = hex_digits(s);
    &&& d.len() == 6 || d.len() == 8
    &&& forall|i: int| 0 <= i < d.len() ==> hex_value(#[trigger] d[i]) >= 0
}

/// The byte that digits `2 * i` and `2 * i + 1` spell.
pub open spec fn hex_byte(d: Seq<char>, i: int) -> int {
    hex_value(d[2 * i]) * 16 + hex_value(d[2 * i + 1])
}

/// The color that a code spells: red, green, blue, then alpha, which is
/// opaque when the code leaves it out.
pub open spec fn hex_color(s: Seq<char>) -> Color {
    let d = hex_digits(s);
    Color {
        r: hex_byte(d, 0) as u8,
        g: hex_byte(d, 1) as u8,
        b: hex_byte(d, 2) as u8,
        a: if d.len() == 8 {
            hex_byte(d, 3) as u8
        } else {
            255
        },
    }
}

fn digit_value(c: char) -> (r: u8)
    requires
        hex_value(c) >= 0,
    ensures
        r == hex_value(c),
{
    if '0' <= c && c <= '9' {
        (c as u32 - '0' as u32) as u8
    } else if 'a' <= c && c <= 'f' {
        (c as u32 - 'a' as u32 + 10) as u8
    } else {
        (c as u32 - 'A' as u32 + 10) as u8
    }
}

fn byte_at(d: &Vec<char>, i: usize) -> (r: u8)
    requires
        i < 4,
        2 * i + 1 < d@.len(),
        hex_value(d@[2 * i as int]) >= 0,
        hex_value(d@[2 * i + 1]) >= 0,
    ensures
        r == hex_byte(d@, i as int),
{
    let hi = digit_value(d[2 * i]);
    let lo = digit_value(d[2 * i + 1]);
    hi * 16 + lo
}

impl Color {
    pub fn black() -> (c: Color)
        ensures
            c == (Color { r: 0, g: 0, b: 0, a: 255 }),
    {
        Color { r: 0, g: 0, b: 0, a: 255 }
    }

    pub fn white() -> (c: Color)
        ensures
            c == (Color { r: 255, g: 255, b: 255, a: 255 }),
    {
        Color { r: 255, g: 255, b: 255, a: 255 }
    }

    pub fn red() -> (c: Color)
        ensures
            c == (Color { r: 255, g: 0, b: 0, a: 255 }),
    {
        Color { r: 255, g: 0, b: 0, a: 255 }
    }

    pub fn green() -> (c: Color)
        ensures
            c == (Color { r: 0, g: 255, b: 0, a: 255 }),
    {
        Color { r: 0, g: 255, b: 0, a: 255 }
    }

    pub fn blue() -> (c: Color)
        ensures
            c == (Color { r: 0, g: 0, b: 255, a: 255 }),
    {
        Color { r: 0, g: 0, b: 255, a: 255 }
    }

    pub fn transparent() -> (c: Color)
        ensures
            c == (Color { r: 0, g: 0, b: 0, a: 0 }),
    {
        Color { r: 0, g: 0, b: 0, a: 0 }
    }

    pub fn rgba(r: u8, g: u8, b: u8, a: u8) -> (c: Color)
        ensures
            c == (Color { r, g, b, a }),
    {
        Color { r, g, b, a }
    }

    /// An opaque color.
    pub fn rgb(r: u8, g: u8, b: u8) -> (c: Color)
        ensures
            c == (Color { r, g, b, a: 255 }),
    {
        Color { r, g, b, a: 255 }
    }

    /// A color with every channel set to `a`: white at that opacity, with
    /// premultiplied alpha.
    pub fn alpha(a: u8) -> (c: Color)
        ensures
            c == (Color { r: a, g: a, b: a, a }),
    {
        Color { r: a, g: a, b: a, a }
    }

    /// Reads a code such as `#ff8000` or `ff800080`.
    pub fn hex(code: &str) -> (c: Color)
        requires
            is_hex_color(code@),
        ensures
            c == hex_color(code@),
    {
        let mut chars: Vec<char> = Vec::new();
        for ch in it: code.chars()
            invariant
                it.seq() == code@,
                chars@ == code@.take(it.index() as int),
        {
            chars.push(ch);
            assert(chars@ =~= code@.take(it.index() + 1));
        }
        assert(chars@ =~= code@);
        let mut digits: Vec<char> = Vec::new();
        let start: usize = if chars.len() > 0 && chars[0] == '#' {
            1
        } else {
            0
        };
        let mut i = start;
        while i < chars.len()
            invariant
                start <= i <= chars@.len(),
                start == 0 || start == 1,
                chars@ == code@,
                hex_digits(code@) == chars@.skip(start as int),
                digits@ == chars@.subrange(start as int, i as int),
            decreases chars@.len() - i,
        {
            digits.push(chars[i]);
            i = i + 1;
            assert(digits@ =~= chars@.subrange(start as int, i as int));
        }
        assert(digits@ =~= hex_digits(code@));
        let r = byte_at(&digits, 0);
        let g = byte_at(&digits, 1);
        let b = byte_at(&digits, 2);
        let a = if digits.len() == 8 {
            byte_at(&digits, 3)
        } else {
            255
        };
        Color { r, g, b, a }
    }
}

} // verus!
