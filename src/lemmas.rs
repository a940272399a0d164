use vstd::prelude::*;
use crate::buffer::{is_frame, BUFFER_HEIGHT, BUFFER_WIDTH};
use crate::cell::{ColorCode, ScreenChar};
use crate::writer::{
    after_byte, after_bytes, blank_row, is_shown_as_is, placed, scrolled, shown, ScreenState, NEWLINE,
    PLACEHOLDER,
};

verus! {

/// Every byte is printable ASCII, so none of them is a line feed.
pub open spec fn is_plain_text(bs: Seq<u8>) -> bool {
    forall|i: int| 0 <= i < bs.len() ==> 0x20 <= #[trigger] bs[i] <= 0x7e
}

/// The cells that show `bs` in one colour, left to right.
pub open spec fn row_of(bs: Seq<u8>, color: ColorCode) -> Seq<ScreenChar> {
    Seq::new(bs.len(), |c: int| ScreenChar { ascii_character: bs[c], color_code: color })
}

/// `row` with the cells from column `from` on showing `bs` in one colour.
pub open spec fn overwritten(row: Seq<ScreenChar>, from: nat, bs: Seq<u8>, color: ColorCode) -> Seq<ScreenChar> {
    Seq::new(
        row.len(),
        |c: int|
            if from <= c < from + bs.len() {
                ScreenChar { ascii_character: bs[c - from], color_code: color }
            } else {
                row[c]
            },
    )
}

/// Writing two runs one after the other has the same effect as writing them
/// as one run: a message handed over in pieces under one exclusive borrow
/// reaches the screen as one contiguous run.
pub proof fn lemma_after_bytes_concat(s: ScreenState, a: Seq<u8>, b: Seq<u8>)
    ensures
        after_bytes(s, a + b) == after_bytes(after_bytes(s, a), b),
    decreases b.len(),
{
    if b.len() == 0 {
        assert(a + b =~= a);
    } else {
        lemma_after_bytes_concat(s, a, b.drop_last());
        assert((a + b).drop_last() =~= a + b.drop_last());
    }
}

/// A printable ASCII byte or a line feed, written as a one-byte string, has
/// the effect of writing that byte.
pub proof fn lemma_shown_byte_passes_through(s: ScreenState, b: u8)
    requires
        is_shown_as_is(b),
    ensures
        after_bytes(s, seq![b]) == after_byte(s, b),
{
    assert(seq![b].drop_last() =~= Seq::<u8>::empty());
    assert(after_bytes(s, Seq::<u8>::empty()) == s);
    assert(seq![b].last() == b);
}

/// Any other byte, written as a one-byte string, puts the placeholder glyph
/// in the cell it fills.
pub proof fn lemma_other_byte_becomes_placeholder(s: ScreenState, b: u8)
    requires
        is_frame(s.cells),
        !is_shown_as_is(b),
    ensures
        after_bytes(s, seq![b]) == after_byte(s, PLACEHOLDER),
        after_bytes(s, seq![b]).cells[BUFFER_HEIGHT - 1][after_bytes(s, seq![b]).column - 1]
            == (ScreenChar { ascii_character: PLACEHOLDER, color_code: s.color }),
{
    assert(seq![b].drop_last() =~= Seq::<u8>::empty());
    assert(after_bytes(s, Seq::<u8>::empty()) == s);
    assert(seq![b].last() == b);
}

/// After a line feed the cursor is at column 0, and the former bottom row is,
/// cell for cell, the row just above the bottom.
pub proof fn lemma_new_line_keeps_bottom_row(s: ScreenState)
    requires
        is_frame(s.cells),
    ensures
        scrolled(s).column == 0,
        scrolled(s).cells[BUFFER_HEIGHT - 2] == s.cells[BUFFER_HEIGHT - 1],
{
}

/// Printable bytes that fit on the rest of the bottom row are stored there
/// from the cursor on, and nothing scrolls.
pub proof fn lemma_plain_text_in_row(s: ScreenState, bs: Seq<u8>)
    requires
        is_frame(s.cells),
        is_plain_text(bs),
        s.column + bs.len() <= BUFFER_WIDTH,
    ensures
        after_bytes(s, bs) == (ScreenState {
            cells: s.cells.update(BUFFER_HEIGHT - 1, overwritten(s.cells[BUFFER_HEIGHT - 1], s.column, bs, s.color)),
            column: s.column + bs.len(),
            color: s.color,
        }),
    decreases bs.len(),
{
    let last = BUFFER_HEIGHT - 1;
    let row = s.cells[last];
    if bs.len() == 0 {
        assert(after_bytes(s, bs) == s);
        assert(s.cells.update(last, overwritten(row, s.column, bs, s.color)) =~~= s.cells);
    } else {
        let init = bs.drop_last();
        assert forall|i: int| 0 <= i < init.len() implies 0x20 <= #[trigger] init[i] <= 0x7e by {
            assert(init[i] == bs[i]);
        }
        lemma_plain_text_in_row(s, init);
        let t = after_bytes(s, init);
        let b = bs.last();
        assert(0x20 <= bs[bs.len() - 1] <= 0x7e);
        assert(shown(b) == b && b != NEWLINE);
        let r = after_bytes(s, bs);
        assert(r == placed(t, b));
        assert(r.cells =~~= s.cells.update(last, overwritten(row, s.column, bs, s.color)));
    }
}

/// A row's worth of printable bytes written from column 0 fills the bottom
/// row left to right without scrolling. One more printable byte scrolls once:
/// the top row is gone, every other row moves up by one, and the bottom row
/// is blank but for the new byte at column 0.
pub proof fn lemma_full_row_then_wrap(s: ScreenState, bs: Seq<u8>, b: u8)
    requires
        is_frame(s.cells),
        s.column == 0,
        bs.len() == BUFFER_WIDTH,
        is_plain_text(bs),
        0x20 <= b <= 0x7e,
    ensures
        after_bytes(s, bs) == (ScreenState {
            cells: s.cells.update(BUFFER_HEIGHT - 1, row_of(bs, s.color)),
            column: BUFFER_WIDTH as nat,
            color: s.color,
        }),
        after_bytes(s, bs.push(b)) == (ScreenState {
            cells: s.cells.subrange(1, BUFFER_HEIGHT - 1).push(row_of(bs, s.color)).push(
                blank_row(s.color).update(0, ScreenChar { ascii_character: b, color_code: s.color }),
            ),
            column: 1,
            color: s.color,
        }),
{
    let last = BUFFER_HEIGHT - 1;
    lemma_plain_text_in_row(s, bs);
    let t = after_bytes(s, bs);
    assert(t.cells =~~= s.cells.update(last, row_of(bs, s.color)));
    assert(bs.push(b).drop_last() =~= bs);
    let r = after_bytes(s, bs.push(b));
    assert(r.cells =~~= s.cells.subrange(1, BUFFER_HEIGHT - 1).push(row_of(bs, s.color)).push(
        blank_row(s.color).update(0, ScreenChar { ascii_character: b, color_code: s.color }),
    ));
}

} // verus!
