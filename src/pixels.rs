use vstd::prelude::*;

verus! {

/// The sixteen colours a cell of the board can hold.
#[derive(Clone, Copy, Debug, PartialEq, Eq, Structural)]
pub enum Pixel {
    White,
    LightGray,
    DarkGray,
    Black,
    Pink,
    Red,
    Orange,
    Brown,
    Yellow,
    Lime,
    Green,
    Cyan,
    Teal,
    Blue,
    Magenta,
    Purple,
}

/// The first byte of the code range: `'0'`.
pub const FIRST_CODE: u8 = 48;

/// One past the last byte of the code range: `'?'` is the last code.
pub const END_CODE: u8 = 64;

/// The position of a colour in the palette, from 0 to 15.
pub open spec fn index_of(p: Pixel) -> nat {
    match p {
        Pixel::White => 0,
        Pixel::LightGray => 1,
        Pixel::DarkGray => 2,
        Pixel::Black => 3,
        Pixel::Pink => 4,
        Pixel::Red => 5,
        Pixel::Orange => 6,
        Pixel::Brown => 7,
        Pixel::Yellow => 8,
        Pixel::Lime => 9,
        Pixel::Green => 10,
        Pixel::Cyan => 11,
        Pixel::Teal => 12,
        Pixel::Blue => 13,
        Pixel::Magenta => 14,
        Pixel::Purple => 15,
    }
}

/// The colour at a position of the palette.
pub open spec fn pixel_at(i: nat) -> Pixel
    recommends
        i < 16,
{
    if i == 0 {
        Pixel::White
    } else if i == 1 {
        Pixel::LightGray
    } else if i == 2 {
        Pixel::DarkGray
    } else if i == 3 {
        Pixel::Black
    } else if i == 4 {
        Pixel::Pink
    } else if i == 5 {
        Pixel::Red
    } else if i == 6 {
        Pixel::Orange
    } else if i == 7 {
        Pixel::Brown
    } else if i == 8 {
        Pixel::Yellow
    } else if i == 9 {
        Pixel::Lime
    } else if i == 10 {
        Pixel::Green
    } else if i == 11 {
        Pixel::Cyan
    } else if i == 12 {
        Pixel::Teal
    } else if i == 13 {
        Pixel::Blue
    } else if i == 14 {
        Pixel::Magenta
    } else {
        Pixel::Purple
    }
}

/// The byte that stands for a colour on disk: the palette is laid out on
/// the contiguous range of bytes that starts at `'0'`.
pub open spec fn code_of(p: Pixel) -> u8 {
    (FIRST_CODE + index_of(p)) as u8
}

/// Whether a byte is one of the sixteen colour codes.
pub open spec fn is_code(b: u8) -> bool {
    FIRST_CODE <= b < END_CODE
}

/// The colour a code byte stands for.
pub open spec fn pixel_of_code(b: u8) -> Pixel
    recommends
        is_code(b),
{
    pixel_at((b - FIRST_CODE) as nat)
}

impl Pixel {
    /// The on-disk byte of this colour.
    pub fn to_byte(&self) -> (r: u8)
        ensures
            r == code_of(*self),
    {
        self.to_char() as u8
    }

    /// The character of this colour's code.
    pub fn to_char(&self) -> (r: char)
        ensures
            r as u32 == code_of(*self) as u32,
    {
        match self {
            Pixel::White => '0',
            Pixel::LightGray => '1',
            Pixel::DarkGray => '2',
            Pixel::Black => '3',
            Pixel::Pink => '4',
            Pixel::Red => '5',
            Pixel::Orange => '6',
            Pixel::Brown => '7',
            Pixel::Yellow => '8',
            Pixel::Lime => '9',
            Pixel::Green => ':',
            Pixel::Cyan => ';',
            Pixel::Teal => '<',
            Pixel::Blue => '=',
            Pixel::Magenta => '>',
            Pixel::Purple => '?',
        }
    }

    /// The colour a byte stands for, or `None` where the byte is no code.
    pub fn from_byte(b: u8) -> (r: Option<Pixel>)
        ensures
            r == (if is_code(b) { Some(pixel_of_code(b)) } else { None::<Pixel> }),
    {
        match b {
            48 => Some(Pixel::White),
            49 => Some(Pixel::LightGray),
            50 => Some(Pixel::DarkGray),
            51 => Some(Pixel::Black),
            52 => Some(Pixel::Pink),
            53 => Some(Pixel::Red),
            54 => Some(Pixel::Orange),
            55 => Some(Pixel::Brown),
            56 => Some(Pixel::Yellow),
            57 => Some(Pixel::Lime),
            58 => Some(Pixel::Green),
            59 => Some(Pixel::Cyan),
            60 => Some(Pixel::Teal),
            61 => Some(Pixel::Blue),
            62 => Some(Pixel::Magenta),
            63 => Some(Pixel::Purple),
            _ => None,
        }
    }
}

/// Every colour's code is a code byte, and decoding it gives the colour back.
pub proof fn lemma_decode_encode(p: Pixel)
    ensures
        is_code(code_of(p)),
        pixel_of_code(code_of(p)) == p,
{
}

/// Every code byte is the code of the colour it decodes to.
pub proof fn lemma_encode_decode(b: u8)
    requires
        is_code(b),
    ensures
        code_of(pixel_of_code(b)) == b,
{
}

/// Distinct colours have distinct codes.
pub proof fn lemma_code_injective(p: Pixel, q: Pixel)
    ensures
        code_of(p) == code_of(q) ==> p == q,
{
    lemma_decode_encode(p);
    lemma_decode_encode(q);
}

} // verus!
