use vstd::prelude::*;

verus! {

/// The sixteen colours of the text-mode palette, in palette order.
#[derive(Debug, Clone, Copy, PartialEq, Eq, Structural)]
pub enum Color {
    Black,
    Blue,
    Green,
    Cyan,
    Red,
    Magenta,
    Brown,
    LightGray,
    DarkGray,
    LightBlue,
    LightGreen,
    LightCyan,
    LightRed,
    Pink,
    Yellow,
    White,
}

impl Color {
    /// The colour's palette index, 0 to 15.
    pub open spec fn spec_index(self) -> u8 {
        match self {
            Color::Black => 0,
            Color::Blue => 1,
            Color::Green => 2,
            Color::Cyan => 3,
            Color::Red => 4,
            Color::Magenta => 5,
            Color::Brown => 6,
            Color::LightGray => 7,
            Color::DarkGray => 8,
            Color::LightBlue => 9,
            Color::LightGreen => 10,
            Color::LightCyan => 11,
            Color::LightRed => 12,
            Color::Pink => 13,
            Color::Yellow => 14,
            Color::White => 15,
        }
    }

    #[verifier::when_used_as_spec(spec_index)]
    pub fn index(self) -> (r: u8)
        ensures
            r == self.spec_index(),
            r < 16,
    {
        match self {
            Color::Black => 0,
            Color::Blue => 1,
            Color::Green => 2,
            Color::Cyan => 3,
            Color::Red => 4,
            Color::Magenta => 5,
            Color::Brown => 6,
            Color::LightGray => 7,
            Color::DarkGray => 8,
            Color::LightBlue => 9,
            Color::LightGreen => 10,
            Color::LightCyan => 11,
            Color::LightRed => 12,
            Color::Pink => 13,
            Color::Yellow => 14,
            Color::White => 15,
        }
    }
}

/// An attribute byte: background colour in the high nibble, foreground in the
/// low nibble. Every byte is a valid pair of palette indices.
#[derive(Debug, Clone, Copy, PartialEq, Eq, Structural)]
pub struct ColorCode(pub u8);

impl ColorCode {
    pub fn new(foreground: Color, background: Color) -> (r: ColorCode)
        ensures
            r.0 == 16 * background.index() + foreground.index(),
            r.0 % 16 == foreground.index(),
            r.0 / 16 == background.index(),
    {
        let f = foreground.index();
        let b = background.index();
        let v: u8 = (b << 4) | f;
        assert(v == 16 * b + f && (16 * b + f) % 16 == f && (16 * b + f) / 16 == b) by (bit_vector)
            requires
                v == (b << 4) | f,
                f < 16,
                b < 16,
        ;
        ColorCode(v)
    }
}

/// One character cell: a character byte and its attribute byte.
#[derive(Debug, Clone, Copy, PartialEq, Eq, Structural)]
pub struct ScreenChar {
    pub ascii_character: u8,
    pub color_code: ColorCode,
}

/// The 16-bit word that the hardware reads for a cell: on a little-endian
/// machine its low byte (the character) sits at the lower address and its
/// high byte (the attribute) right after it.
pub open spec fn word_of(c: ScreenChar) -> u16 {
    (c.ascii_character as int + 256 * (c.color_code.0 as int)) as u16
}

/// The cell that a 16-bit word encodes.
pub open spec fn cell_of(w: u16) -> ScreenChar {
    ScreenChar { ascii_character: (w % 256) as u8, color_code: ColorCode((w / 256) as u8) }
}

/// Decoding an encoded cell gives the cell back.
pub proof fn lemma_cell_of_word_of(c: ScreenChar)
    ensures
        cell_of(word_of(c)) == c,
{
    let a = c.ascii_character as int;
    let k = c.color_code.0 as int;
    assert((a + 256 * k) % 256 == a && (a + 256 * k) / 256 == k) by (nonlinear_arith)
        requires
            0 <= a < 256,
            0 <= k < 256,
    ;
}

impl ScreenChar {
    pub fn to_word(self) -> (r: u16)
        ensures
            r == word_of(self),
    {
        let a = self.ascii_character as u16;
        let k = self.color_code.0 as u16;
        let r: u16 = (k << 8) | a;
        assert(r == a + 256 * k) by (bit_vector)
            requires
                r == (k << 8) | a,
                a < 256,
                k < 256,
        ;
        r
    }

    pub fn from_word(w: u16) -> (r: ScreenChar)
        ensures
            r == cell_of(w),
    {
        let a = (w & 0xff) as u8;
        let k = (w >> 8) as u8;
        assert(w & 0xff == w % 256 && w >> 8 == w / 256) by (bit_vector);
        ScreenChar { ascii_character: a, color_code: ColorCode(k) }
    }
}

} // verus!
