//! Colours: one row of shades per object, from fresh to faded.

use vstd::prelude::*;

verus! {

/// The number of shades in a row: one for the current position and one for
/// each step of a trail.
pub const SHADES: usize = 5;

/// A colour by its red, green and blue parts.
#[derive(Clone, Copy, Debug, PartialEq, Eq, Structural)]
pub struct Rgb {
    pub red: u8,
    pub green: u8,
    pub blue: u8,
}

/// The lower-case hexadecimal digit of `n`, for `n` below 16.
pub open spec fn hex_char(n: int) -> char {
    if n == 0 {
        '0'
    } else if n == 1 {
        '1'
    } else if n == 2 {
        '2'
    } else if n == 3 {
        '3'
    } else if n == 4 {
        '4'
    } else if n == 5 {
        '5'
    } else if n == 6 {
        '6'
    } else if n == 7 {
        '7'
    } else if n == 8 {
        '8'
    } else if n == 9 {
        '9'
    } else if n == 10 {
        'a'
    } else if n == 11 {
        'b'
    } else if n == 12 {
        'c'
    } else if n == 13 {
        'd'
    } else if n == 14 {
        'e'
    } else {
        'f'
    }
}

/// The two hexadecimal digits of a byte, high one first.
pub open spec fn hex_pair(byte: u8) -> Seq<char> {
    seq![hex_char(byte as int / 16), hex_char(byte as int % 16)]
}

impl Rgb {
    /// The colour as a number sign and six hexadecimal digits.
    pub open spec fn hex_text(self) -> Seq<char> {
        seq!['#'] + hex_pair(self.red) + hex_pair(self.green) + hex_pair(self.blue)
    }

    /// The colour as drawing backends name it: `#rrggbb`.
    pub fn hex(&self) -> (r: String)
        ensures
            r@ == self.hex_text(),
    {
        proof {
            reveal_strlit("#");
        }
        let mut text = String::from_str("#");
        push_hex_pair(&mut text, self.red);
        push_hex_pair(&mut text, self.green);
        push_hex_pair(&mut text, self.blue);
        text
    }
}

fn hex_digit(n: u8) -> (r: &'static str)
    requires
        n < 16,
    ensures
        r@ == seq![hex_char(n as int)],
{
    proof {
        reveal_strlit("0");
        reveal_strlit("1");
        reveal_strlit("2");
        reveal_strlit("3");
        reveal_strlit("4");
        reveal_strlit("5");
        reveal_strlit("6");
        reveal_strlit("7");
        reveal_strlit("8");
        reveal_strlit("9");
        reveal_strlit("a");
        reveal_strlit("b");
        reveal_strlit("c");
        reveal_strlit("d");
        reveal_strlit("e");
        reveal_strlit("f");
    }
    let r = match n {
        0 => "0",
        1 => "1",
        2 => "2",
        3 => "3",
        4 => "4",
        5 => "5",
        6 => "6",
        7 => "7",
        8 => "8",
        9 => "9",
        10 => "a",
        11 => "b",
        12 => "c",
        13 => "d",
        14 => "e",
        _ => "f",
    };
    assert(r@ =~= seq![hex_char(n as int)]);
    r
}

fn push_hex_pair(text: &mut String, byte: u8)
    ensures
        final(text)@ == old(text)@ + hex_pair(byte),
{
    text.append(hex_digit(byte / 16));
    text.append(hex_digit(byte % 16));
    assert(text@ =~= old(text)@ + hex_pair(byte));
}

/// A table from object and recency to colour. Row `k` belongs to the object at
/// place `k`; in a row, shade 0 marks the current position and shades 1 to 4 a
/// trail step that old.
#[derive(Clone, Debug, PartialEq, Eq)]
pub struct Palette {
    pub rows: Vec<[Rgb; 5]>,
}

/// How light the parts of a standard colour that do not carry it are, by
/// recency.
pub open spec fn standard_tint(recency: int) -> u8 {
    if recency == 0 {
        0x00
    } else if recency == 1 {
        0x33
    } else if recency == 2 {
        0x88
    } else if recency == 3 {
        0xaa
    } else {
        0xee
    }
}

/// The standard colour of `object` at `recency`: green, red, blue and yellow,
/// each fading towards white.
pub open spec fn standard_shade(object: int, recency: int) -> Rgb {
    let t = standard_tint(recency);
    if object == 0 {
        Rgb { red: t, green: 0xff, blue: t }
    } else if object == 1 {
        Rgb { red: 0xff, green: t, blue: t }
    } else if object == 2 {
        Rgb { red: t, green: t, blue: 0xff }
    } else {
        Rgb { red: 0xff, green: 0xff, blue: t }
    }
}

impl Palette {
    /// The number of objects that the table has a row for.
    pub open spec fn capacity(&self) -> nat {
        self.rows@.len()
    }

    /// The colour of `object` at `recency`.
    pub open spec fn shade(&self, object: int, recency: int) -> Rgb {
        self.rows@[object]@[recency]
    }

    /// The standard table: four objects.
    pub fn standard() -> (r: Palette)
        ensures
            r.capacity() == 4,
            forall|object: int, recency: int|
                0 <= object < 4 && 0 <= recency < 5 ==> r.shade(object, recency) == standard_shade(
                    object,
                    recency,
                ),
    {
        let mut rows: Vec<[Rgb; 5]> = Vec::new();
        rows.push(
            [
                Rgb { red: 0x00, green: 0xff, blue: 0x00 },
                Rgb { red: 0x33, green: 0xff, blue: 0x33 },
                Rgb { red: 0x88, green: 0xff, blue: 0x88 },
                Rgb { red: 0xaa, green: 0xff, blue: 0xaa },
                Rgb { red: 0xee, green: 0xff, blue: 0xee },
            ],
        );
        rows.push(
            [
                Rgb { red: 0xff, green: 0x00, blue: 0x00 },
                Rgb { red: 0xff, green: 0x33, blue: 0x33 },
                Rgb { red: 0xff, green: 0x88, blue: 0x88 },
                Rgb { red: 0xff, green: 0xaa, blue: 0xaa },
                Rgb { red: 0xff, green: 0xee, blue: 0xee },
            ],
        );
        rows.push(
            [
                Rgb { red: 0x00, green: 0x00, blue: 0xff },
                Rgb { red: 0x33, green: 0x33, blue: 0xff },
                Rgb { red: 0x88, green: 0x88, blue: 0xff },
                Rgb { red: 0xaa, green: 0xaa, blue: 0xff },
                Rgb { red: 0xee, green: 0xee, blue: 0xff },
            ],
        );
        rows.push(
            [
                Rgb { red: 0xff, green: 0xff, blue: 0x00 },
                Rgb { red: 0xff, green: 0xff, blue: 0x33 },
                Rgb { red: 0xff, green: 0xff, blue: 0x88 },
                Rgb { red: 0xff, green: 0xff, blue: 0xaa },
                Rgb { red: 0xff, green: 0xff, blue: 0xee },
            ],
        );
        Palette { rows }
    }

    /// The number of objects that the table has a row for.
    pub fn len(&self) -> (r: usize)
        ensures
            r == self.capacity(),
    {
        self.rows.len()
    }

    /// The colour of `object` at `recency`, where the table has one.
    pub fn pick(&self, object: usize, recency: usize) -> (r: Option<Rgb>)
        ensures
            r == if object < self.capacity() && recency < SHADES {
                Some(self.shade(object as int, recency as int))
            } else {
                None
            },
    {
        if object < self.rows.len() && recency < SHADES {
            Some(self.rows[object][recency])
        } else {
            None
        }
    }
}

} // verus!
