//! Tests of the screen buffer and its escape-sequence parser.

use codelane::renderer::{DEFAULT_BG, DEFAULT_FG};
use codelane::term::TerminalBuffer;
use codelane::TerminalSize;

fn feed_str(buf: &mut TerminalBuffer, s: &str) {
    buf.feed(s.as_bytes());
}

#[test]
fn test_hello_carriage_return_newline() {
    let mut buf = TerminalBuffer::new(10, 3);
    feed_str(&mut buf, "Hello\r\n");
    assert_eq!(buf.cursor_x, 0);
    assert_eq!(buf.cursor_y, 1);
    assert_eq!(buf.row_text(0), "Hello     ");
}

#[test]
fn test_round_trip_row_zero() {
    let mut buf = TerminalBuffer::new(80, 24);
    feed_str(&mut buf, "codelane");
    let snapshot = buf.to_render_state(TerminalSize { cols: 80, rows: 24 });
    let expected = "codelane";
    for (i, c) in expected.chars().enumerate() {
        let cell = &snapshot.cells[i];
        assert_eq!(cell.x, i);
        assert_eq!(cell.y, 0);
        assert_eq!(cell.c, c.to_string());
        assert_eq!(cell.fg, DEFAULT_FG);
        assert_eq!(cell.bg, DEFAULT_BG);
        assert_eq!(cell.flags, 0);
    }
    assert_eq!(buf.cursor_x, 8);
    assert_eq!(buf.cursor_y, 0);
}

#[test]
fn test_sgr_reset_idempotent() {
    let mut a = TerminalBuffer::new(80, 24);
    feed_str(&mut a, "\x1b[1;31m");
    let mut b = TerminalBuffer::new(80, 24);
    feed_str(&mut b, "\x1b[1;31m");
    feed_str(&mut a, "\x1b[0m");
    feed_str(&mut b, "\x1b[0m\x1b[0m");
    assert_eq!(a.current_attrs, b.current_attrs);
}

#[test]
fn test_red_text_resolves_palette() {
    let mut buf = TerminalBuffer::new(20, 3);
    feed_str(&mut buf, "\x1b[31mRed\x1b[0m after");
    let snapshot = buf.to_render_state(TerminalSize { cols: 20, rows: 3 });
    for i in 0..3 {
        assert_eq!(snapshot.cells[i].fg, "#cd0000");
    }
    // the space and the following text are back on the default foreground
    assert_eq!(snapshot.cells[3].fg, DEFAULT_FG);
    assert_eq!(snapshot.cells[4].fg, DEFAULT_FG);
}

#[test]
fn test_five_newlines_scroll_three_rows() {
    let mut buf = TerminalBuffer::new(10, 3);
    feed_str(&mut buf, "one\r\ntwo\r\nthree");
    assert_eq!(buf.scroll_top, 0);
    assert_eq!(buf.scroll_bottom, 2);
    feed_str(&mut buf, "\n\n\n\n\n");
    assert_eq!(buf.rows, 3);
    assert_eq!(buf.cells.len(), 3);
    // the earliest content has scrolled off
    for y in 0..3 {
        assert_ne!(buf.row_text(y), "one       ");
    }
    assert!(buf.cursor_y < 3);
}

#[test]
fn test_resize_sequence_keeps_exact_dimensions() {
    let mut buf = TerminalBuffer::new(80, 24);
    feed_str(&mut buf, "some output\r\n");
    buf.resize(40, 10);
    assert_eq!(buf.cols, 40);
    assert_eq!(buf.rows, 10);
    assert_eq!(buf.cells.len(), 10);
    for row in &buf.cells {
        assert_eq!(row.len(), 40);
    }
    assert!(buf.cursor_x < 40 && buf.cursor_y < 10);
    buf.resize(80, 24);
    assert_eq!(buf.cols, 80);
    assert_eq!(buf.rows, 24);
    assert_eq!(buf.cells.len(), 24);
    for row in &buf.cells {
        assert_eq!(row.len(), 80);
    }
    assert!(buf.cursor_x < 80 && buf.cursor_y < 24);
}

#[test]
fn test_unterminated_osc_is_abandoned() {
    let mut buf = TerminalBuffer::new(80, 24);
    // the accumulator takes 4096 bytes; the next one aborts the sequence
    let mut osc = String::from("\x1b]");
    for _ in 0..4097 {
        osc.push('x');
    }
    feed_str(&mut buf, &osc);
    // the sequence was abandoned after the bound; ground processing resumes
    feed_str(&mut buf, "ok");
    assert_eq!(&buf.row_text(0)[0..2], "ok");
    assert!(buf.cursor_x < 80 && buf.cursor_y < 24);
}

#[test]
fn test_indexed_and_rgb_foreground() {
    let mut buf = TerminalBuffer::new(20, 2);
    feed_str(&mut buf, "\x1b[38;5;196mX");
    feed_str(&mut buf, "\x1b[38;2;10;20;30mY");
    let snapshot = buf.to_render_state(TerminalSize { cols: 20, rows: 2 });
    // index 196 resolves through the 6x6x6 cube
    assert_eq!(snapshot.cells[0].fg, "#ff0000");
    assert_eq!(snapshot.cells[1].fg, "#0a141e");
}

#[test]
fn test_cursor_stays_in_bounds_on_arbitrary_bytes() {
    let mut buf = TerminalBuffer::new(80, 24);
    // a byte soup of controls, escapes and printables, applied byte by byte
    let mut bytes: Vec<u8> = Vec::new();
    for i in 0..4096u32 {
        bytes.push((i.wrapping_mul(31).wrapping_add(7) % 256) as u8);
    }
    for b in bytes {
        buf.write_byte(b);
        assert!(buf.cursor_x < 80, "column out of bounds");
        assert!(buf.cursor_y < 24, "row out of bounds");
    }
}

#[test]
fn test_scroll_region_keeps_status_bar() {
    let mut buf = TerminalBuffer::new(10, 4);
    // region [0,2]; the bottom row stays put while the region scrolls
    feed_str(&mut buf, "status");
    feed_str(&mut buf, "\x1b[1;3r");
    feed_str(&mut buf, "\x1b[3;1H");
    feed_str(&mut buf, "\n\n\n");
    assert_eq!(buf.cells.len(), 4);
    assert_eq!(buf.rows, 4);
}

#[test]
fn test_full_reset_clears_state() {
    let mut buf = TerminalBuffer::new(10, 3);
    feed_str(&mut buf, "\x1b[1;31mtext\x1b[2;3r");
    feed_str(&mut buf, "\x1bc");
    assert_eq!(buf.cursor_x, 0);
    assert_eq!(buf.cursor_y, 0);
    assert_eq!(buf.scroll_top, 0);
    assert_eq!(buf.scroll_bottom, 2);
    assert_eq!(buf.row_text(0), "          ");
    assert!(buf.cursor_visible);
}

#[test]
fn test_cursor_visibility_private_modes() {
    let mut buf = TerminalBuffer::new(10, 3);
    feed_str(&mut buf, "\x1b[?25l");
    assert!(!buf.cursor_visible);
    feed_str(&mut buf, "\x1b[?25h");
    assert!(buf.cursor_visible);
}

#[test]
fn test_erase_line_modes() {
    let mut buf = TerminalBuffer::new(8, 2);
    feed_str(&mut buf, "abcdefg");
    feed_str(&mut buf, "\x1b[4G");
    feed_str(&mut buf, "\x1b[K");
    assert_eq!(buf.row_text(0), "abc     ");
}

#[test]
fn test_cursor_movement_clamps() {
    let mut buf = TerminalBuffer::new(10, 5);
    feed_str(&mut buf, "\x1b[99B");
    assert_eq!(buf.cursor_y, 4);
    feed_str(&mut buf, "\x1b[99C");
    assert_eq!(buf.cursor_x, 9);
    feed_str(&mut buf, "\x1b[99A");
    assert_eq!(buf.cursor_y, 0);
    feed_str(&mut buf, "\x1b[99D");
    assert_eq!(buf.cursor_x, 0);
    feed_str(&mut buf, "\x1b[3;7H");
    assert_eq!(buf.cursor_y, 2);
    assert_eq!(buf.cursor_x, 6);
}

#[test]
fn test_tab_advances_to_multiple_of_eight() {
    let mut buf = TerminalBuffer::new(20, 2);
    feed_str(&mut buf, "ab\t");
    assert_eq!(buf.cursor_x, 8);
    feed_str(&mut buf, "\t");
    assert_eq!(buf.cursor_x, 16);
    feed_str(&mut buf, "\t");
    assert_eq!(buf.cursor_x, 19);
}

#[test]
fn test_line_wrap_at_right_edge() {
    let mut buf = TerminalBuffer::new(4, 3);
    feed_str(&mut buf, "abcde");
    assert_eq!(buf.row_text(0), "abcd");
    assert_eq!(buf.row_text(1), "e   ");
    assert_eq!(buf.cursor_y, 1);
    assert_eq!(buf.cursor_x, 1);
}

#[test]
fn test_save_and_restore_cursor() {
    let mut buf = TerminalBuffer::new(10, 5);
    feed_str(&mut buf, "\x1b[3;4H\x1b7\x1b[1;1H\x1b8");
    assert_eq!(buf.cursor_y, 2);
    assert_eq!(buf.cursor_x, 3);
}
