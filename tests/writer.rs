use vga_text::{Buffer, Color, ColorCode, ScreenChar, Writer, BUFFER_HEIGHT, BUFFER_WIDTH};
use volatile::Volatile;

fn frame(fill: u16) -> &'static mut [[Volatile<u16>; BUFFER_WIDTH]; BUFFER_HEIGHT] {
    Box::leak(Box::new(core::array::from_fn(|_| core::array::from_fn(|_| Volatile::new(fill)))))
}

fn yellow_on_black() -> ColorCode {
    ColorCode::new(Color::Yellow, Color::Black)
}

fn cleared_writer() -> Writer {
    let mut w = Writer::new(yellow_on_black(), Buffer::new(frame(0)));
    for row in 0..BUFFER_HEIGHT {
        w.clear_row(row);
    }
    w
}

fn cell(w: &Writer, row: usize, col: usize) -> ScreenChar {
    w.buffer().read(row, col)
}

fn snapshot(w: &Writer) -> Vec<Vec<ScreenChar>> {
    (0..BUFFER_HEIGHT).map(|r| (0..BUFFER_WIDTH).map(|c| cell(w, r, c)).collect()).collect()
}

fn blank() -> ScreenChar {
    ScreenChar { ascii_character: b' ', color_code: yellow_on_black() }
}

fn shown(b: u8) -> ScreenChar {
    ScreenChar { ascii_character: b, color_code: yellow_on_black() }
}

#[test]
fn hello_world_on_cleared_screen() {
    let mut w = cleared_writer();
    w.write_string("Hello World!");
    let text = b"Hello World!";
    for (c, &b) in text.iter().enumerate() {
        assert_eq!(cell(&w, 24, c), shown(b));
    }
    for c in 12..BUFFER_WIDTH {
        assert_eq!(cell(&w, 24, c), blank());
    }
    for r in 0..24 {
        for c in 0..BUFFER_WIDTH {
            assert_eq!(cell(&w, r, c), blank());
        }
    }
    assert_eq!(w.column_position(), 12);
}

#[test]
fn eighty_one_bytes_wrap_once() {
    let mut w = cleared_writer();
    let line: String = (0..80).map(|i| (b'A' + (i % 26) as u8) as char).collect();
    w.write_string(&line);
    w.write_string("z");
    assert_eq!(cell(&w, 24, 0), shown(b'z'));
    for c in 1..BUFFER_WIDTH {
        assert_eq!(cell(&w, 24, c), blank());
    }
    for (c, b) in line.bytes().enumerate() {
        assert_eq!(cell(&w, 23, c), shown(b));
    }
    for r in 0..23 {
        for c in 0..BUFFER_WIDTH {
            assert_eq!(cell(&w, r, c), blank());
        }
    }
    assert_eq!(w.column_position(), 1);
}

#[test]
fn full_row_fills_bottom_row_without_scrolling() {
    let mut w = cleared_writer();
    w.write_string("top line\n");
    let before = snapshot(&w);
    let line: String = (0..80).map(|i| (b'0' + (i % 10) as u8) as char).collect();
    w.write_string(&line);
    assert_eq!(w.column_position(), BUFFER_WIDTH);
    let after = snapshot(&w);
    assert_eq!(after[..24], before[..24]);
    for (c, b) in line.bytes().enumerate() {
        assert_eq!(after[24][c], shown(b));
    }
    w.write_byte(b'!');
    let wrapped = snapshot(&w);
    assert_eq!(wrapped[..23], after[1..24]);
    assert_eq!(wrapped[23], after[24]);
    assert_eq!(wrapped[24][0], shown(b'!'));
    assert!(wrapped[24][1..].iter().all(|&c| c == blank()));
}

#[test]
fn printable_byte_as_string_equals_write_byte() {
    for b in (0x20u8..=0x7e).chain(core::iter::once(b'\n')) {
        let mut a = cleared_writer();
        let mut c = cleared_writer();
        a.write_string("xy");
        c.write_string("xy");
        let s = String::from(b as char);
        a.write_string(&s);
        c.write_byte(b);
        assert_eq!(snapshot(&a), snapshot(&c));
        assert_eq!(a.column_position(), c.column_position());
    }
}

#[test]
fn other_bytes_become_placeholder() {
    for s in ["\u{1}", "\t", "\u{7f}", "\r"] {
        let mut w = cleared_writer();
        w.write_string(s);
        assert_eq!(cell(&w, 24, 0), shown(0xfe));
        assert_eq!(w.column_position(), 1);
    }
    let mut w = cleared_writer();
    w.write_string("é!");
    assert_eq!(cell(&w, 24, 0), shown(0xfe));
    assert_eq!(cell(&w, 24, 1), shown(0xfe));
    assert_eq!(cell(&w, 24, 2), shown(b'!'));
    assert_eq!(w.column_position(), 3);
}

#[test]
fn new_line_moves_bottom_row_up() {
    let mut w = cleared_writer();
    w.write_string("first\nsecond");
    let before = snapshot(&w);
    w.new_line();
    let after = snapshot(&w);
    assert_eq!(w.column_position(), 0);
    assert_eq!(after[23], before[24]);
    assert_eq!(after[22], before[23]);
    assert_eq!(after[..23], before[1..24]);
    assert!(after[24].iter().all(|&c| c == blank()));
}

#[test]
fn newline_byte_scrolls() {
    let mut w = cleared_writer();
    w.write_byte(b'a');
    w.write_byte(b'\n');
    assert_eq!(cell(&w, 23, 0), shown(b'a'));
    assert_eq!(cell(&w, 24, 0), blank());
    assert_eq!(w.column_position(), 0);
}

#[test]
fn clear_row_uses_current_color() {
    let code = ColorCode::new(Color::White, Color::Blue);
    let mut w = Writer::new(code, Buffer::new(frame(0x0741)));
    assert_eq!(w.color_code(), code);
    w.clear_row(3);
    for c in 0..BUFFER_WIDTH {
        assert_eq!(cell(&w, 3, c), ScreenChar { ascii_character: b' ', color_code: code });
        assert_eq!(cell(&w, 4, c), ScreenChar { ascii_character: b'A', color_code: ColorCode(0x07) });
    }
}

#[test]
fn print_pieces_form_one_run() {
    let mut a = cleared_writer();
    let mut b = cleared_writer();
    vga_text::_print(&mut a, &["value: ", "42", "\n", "next"]);
    b.write_string("value: 42\nnext");
    assert_eq!(snapshot(&a), snapshot(&b));
    assert_eq!(a.column_position(), 4);
    assert_eq!(cell(&a, 23, 7), shown(b'4'));
}
