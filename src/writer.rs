use vstd::prelude::*;
use vstd::string::StringSliceAdditionalSpecFns;
use crate::buffer::{is_frame, Buffer, BUFFER_HEIGHT, BUFFER_WIDTH};
use crate::cell::{ColorCode, ScreenChar};

verus! {

/// The line feed byte, which moves output to a fresh line.
pub const NEWLINE: u8 = 0x0a;

/// The glyph shown in place of a byte that has none of its own.
pub const PLACEHOLDER: u8 = 0xfe;

/// What a writer is, abstractly: the cells on screen, the cursor column on
/// the bottom row, and the colour that new cells get.
pub ghost struct ScreenState {
    pub cells: Seq<Seq<ScreenChar>>,
    pub column: nat,
    pub color: ColorCode,
}

/// An empty cell in the given colour.
pub open spec fn blank(color: ColorCode) -> ScreenChar {
    ScreenChar { ascii_character: 0x20, color_code: color }
}

/// A row of empty cells in the given colour.
pub open spec fn blank_row(color: ColorCode) -> Seq<ScreenChar> {
    Seq::new(BUFFER_WIDTH as nat, |c: int| blank(color))
}

/// Every row moves up by one, the top row is lost, the bottom row is blank
/// and the cursor goes back to column 0.
pub open spec fn scrolled(s: ScreenState) -> ScreenState {
    ScreenState {
        cells: s.cells.subrange(1, BUFFER_HEIGHT as int).push(blank_row(s.color)),
        column: 0,
        color: s.color,
    }
}

/// `b` is written at the cursor on the bottom row and the cursor advances.
pub open spec fn placed(s: ScreenState, b: u8) -> ScreenState {
    let last = BUFFER_HEIGHT - 1;
    ScreenState {
        cells: s.cells.update(
            last,
            s.cells[last].update(s.column as int, ScreenChar { ascii_character: b, color_code: s.color }),
        ),
        column: s.column + 1,
        color: s.color,
    }
}

/// The effect of one byte: a line feed scrolls; any other byte is placed,
/// after a scroll when the bottom row is full.
pub open spec fn after_byte(s: ScreenState, b: u8) -> ScreenState {
    if b == NEWLINE {
        scrolled(s)
    } else if s.column >= BUFFER_WIDTH {
        placed(scrolled(s), b)
    } else {
        placed(s, b)
    }
}

/// Printable ASCII and the line feed reach the screen unchanged.
pub open spec fn is_shown_as_is(b: u8) -> bool {
    (0x20 <= b && b <= 0x7e) || b == NEWLINE
}

/// The byte that goes to the screen for an input byte.
pub open spec fn shown(b: u8) -> u8 {
    if is_shown_as_is(b) {
        b
    } else {
        PLACEHOLDER
    }
}

/// The effect of a run of input bytes, each replaced by what is shown for it.
pub open spec fn after_bytes(s: ScreenState, bs: Seq<u8>) -> ScreenState
    decreases bs.len(),
{
    if bs.len() == 0 {
        s
    } else {
        after_byte(after_bytes(s, bs.drop_last()), shown(bs.last()))
    }
}

/// The frame after rows `1..row - 1` have been copied one row up, and the
/// first `col` cells of row `row` as well.
spec fn partly_shifted(f: Seq<Seq<ScreenChar>>, row: int, col: int) -> Seq<Seq<ScreenChar>> {
    Seq::new(
        BUFFER_HEIGHT as nat,
        |r: int|
            if r < row - 1 {
                f[r + 1]
            } else if r == row - 1 {
                Seq::new(BUFFER_WIDTH as nat, |c: int| if c < col { f[row][c] } else { f[r][c] })
            } else {
                f[r]
            },
    )
}

/// Text output onto the frame buffer, always on the bottom row; earlier lines
/// scroll up.
pub struct Writer {
    column_position: usize,
    color_code: ColorCode,
    buffer: Buffer,
}

impl View for Writer {
    type V = ScreenState;

    closed spec fn view(&self) -> ScreenState {
        ScreenState {
            cells: self.buffer@,
            column: self.column_position as nat,
            color: self.color_code,
        }
    }
}

impl Writer {
    /// Every writer shows a full grid of cells.
    pub proof fn lemma_is_frame(&self)
        ensures
            is_frame(self@.cells),
    {
        self.buffer.lemma_is_frame();
    }

    /// A writer with the cursor at column 0 of the bottom row.
    pub fn new(color_code: ColorCode, buffer: Buffer) -> (r: Writer)
        ensures
            r@ == (ScreenState { cells: buffer@, column: 0, color: color_code }),
    {
        Writer { column_position: 0, color_code, buffer }
    }

    pub fn column_position(&self) -> (r: usize)
        ensures
            r == self@.column,
    {
        self.column_position
    }

    pub fn color_code(&self) -> (r: ColorCode)
        ensures
            r == self@.color,
    {
        self.color_code
    }

    pub fn buffer(&self) -> (r: &Buffer)
        ensures
            r@ == self@.cells,
    {
        &self.buffer
    }

    /// Fills a row with blanks in the current colour.
    pub fn clear_row(&mut self, row: usize)
        requires
            row < BUFFER_HEIGHT,
        ensures
            final(self)@ == (ScreenState {
                cells: old(self)@.cells.update(row as int, blank_row(old(self)@.color)),
                ..old(self)@
            }),
    {
        proof {
            self.buffer.lemma_is_frame();
        }
        let blank = ScreenChar { ascii_character: 0x20, color_code: self.color_code };
        let ghost f = self.buffer@;
        let mut col: usize = 0;
        assert(f =~~= f.update(
            row as int,
            Seq::new(BUFFER_WIDTH as nat, |c: int| if c < 0 { blank } else { f[row as int][c] }),
        ));
        while col < BUFFER_WIDTH
            invariant
                col <= BUFFER_WIDTH,
                row < BUFFER_HEIGHT,
                is_frame(f),
                self.column_position == old(self).column_position,
                self.color_code == old(self).color_code,
                blank == (ScreenChar { ascii_character: 0x20, color_code: self.color_code }),
                self.buffer@ == f.update(
                    row as int,
                    Seq::new(BUFFER_WIDTH as nat, |c: int| if c < col { blank } else { f[row as int][c] }),
                ),
            decreases BUFFER_WIDTH - col,
        {
            self.buffer.write(row, col, blank);
            col += 1;
            assert(self.buffer@ =~~= f.update(
                row as int,
                Seq::new(BUFFER_WIDTH as nat, |c: int| if c < col { blank } else { f[row as int][c] }),
            ));
        }
        assert(self.buffer@ =~~= f.update(row as int, blank_row(self.color_code)));
    }

    /// Moves every row up by one, blanks the bottom row and returns the
    /// cursor to column 0.
    pub fn new_line(&mut self)
        ensures
            final(self)@ == scrolled(old(self)@),
    {
        proof {
            self.buffer.lemma_is_frame();
        }
        let ghost f = self.buffer@;
        assert(partly_shifted(f, 1, 0) =~~= f);
        let mut row: usize = 1;
        while row < BUFFER_HEIGHT
            invariant
                1 <= row <= BUFFER_HEIGHT,
                is_frame(f),
                self.column_position == old(self).column_position,
                self.color_code == old(self).color_code,
                self.buffer@ == partly_shifted(f, row as int, 0),
            decreases BUFFER_HEIGHT - row,
        {
            let mut col: usize = 0;
            while col < BUFFER_WIDTH
                invariant
                    1 <= row < BUFFER_HEIGHT,
                    col <= BUFFER_WIDTH,
                    is_frame(f),
                    self.column_position == old(self).column_position,
                    self.color_code == old(self).color_code,
                    self.buffer@ == partly_shifted(f, row as int, col as int),
                decreases BUFFER_WIDTH - col,
            {
                let character = self.buffer.read(row, col);
                self.buffer.write(row - 1, col, character);
                col += 1;
                assert(self.buffer@ =~~= partly_shifted(f, row as int, col as int));
            }
            assert(partly_shifted(f, row as int, BUFFER_WIDTH as int) =~~= partly_shifted(f, row + 1, 0));
            row += 1;
        }
        self.clear_row(BUFFER_HEIGHT - 1);
        self.column_position = 0;
        assert(self.buffer@ =~~= f.subrange(1, BUFFER_HEIGHT as int).push(blank_row(self.color_code)));
    }

    /// Writes one byte at the cursor. A line feed moves to a fresh line; any
    /// other byte is stored as it is, after a fresh line when the bottom row
    /// is full.
    pub fn write_byte(&mut self, byte: u8)
        ensures
            final(self)@ == after_byte(old(self)@, byte),
    {
        if byte == NEWLINE {
            self.new_line();
        } else {
            if self.column_position >= BUFFER_WIDTH {
                self.new_line();
            }
            let row = BUFFER_HEIGHT - 1;
            let col = self.column_position;
            let color_code = self.color_code;
            self.buffer.write(row, col, ScreenChar { ascii_character: byte, color_code });
            self.column_position += 1;
        }
    }

    /// Writes the bytes of `s` in order; a byte that is neither printable
    /// ASCII nor a line feed is written as the placeholder glyph.
    pub fn write_string(&mut self, s: &str)
        ensures
            final(self)@ == after_bytes(old(self)@, s.spec_bytes()),
    {
        let bytes = s.as_bytes();
        let mut i: usize = 0;
        while i < bytes.len()
            invariant
                bytes@ == s.spec_bytes(),
                i <= bytes@.len(),
                self@ == after_bytes(old(self)@, bytes@.take(i as int)),
            decreases bytes@.len() - i,
        {
            let byte = bytes[i];
            if (0x20 <= byte && byte <= 0x7e) || byte == NEWLINE {
                self.write_byte(byte);
            } else {
                self.write_byte(PLACEHOLDER);
            }
            assert(bytes@.take(i + 1).drop_last() =~= bytes@.take(i as int));
            i += 1;
        }
        assert(bytes@.take(bytes@.len() as int) =~= bytes@);
    }
}

} // verus!
