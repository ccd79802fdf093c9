//! The screen buffer and its ANSI/VT100 escape-sequence parser.
//!
//! A `TerminalBuffer` is a fully populated cols x rows grid of styled cells
//! together with a cursor, a scroll region, pending attributes, and the
//! parser state machine. Bytes are applied one at a time; every byte
//! sequence leaves the buffer well formed (the parser fails open: malformed
//! sequences are discarded, never an error).
//!
//! The whole byte-at-a-time transition is captured by the specification
//! function [`m_step`], a pure `(state, byte) -> state` function; every
//! mutating operation is proved against it.

use vstd::prelude::*;

use crate::renderer::{
    spec_bg_css, spec_default_attrs, spec_fg_css, spec_with_flag, CellAttributes, CursorState,
    RenderCell, TerminalColor, TerminalRenderState,
};
use crate::flags;
use crate::text::char_to_string;
use crate::TerminalSize;

verus! {

/// One grid position: a character and its style.
#[derive(Debug, Clone, Copy, PartialEq, Eq, Structural)]
pub struct Cell {
    pub c: char,
    pub attrs: CellAttributes,
}

/// The blank cell: a space with default attributes.
pub open spec fn default_cell() -> Cell {
    Cell { c: ' ', attrs: spec_default_attrs() }
}

impl Default for Cell {
    fn default() -> (r: Self)
        ensures
            r == default_cell(),
    {
        Cell { c: ' ', attrs: CellAttributes::default() }
    }
}

/// Parser state for ANSI escape sequences.
#[derive(Debug, Clone, Copy, PartialEq, Eq, Structural)]
pub enum ParserState {
    /// Normal character processing.
    Ground,
    /// Received ESC, waiting for the next character.
    Escape,
    /// Received ESC [, parsing a CSI sequence.
    Csi,
    /// Received ESC ], parsing an OSC sequence.
    Osc,
    /// Received ESC [ ?, parsing a private CSI sequence.
    CsiPrivate,
}

/// The mathematical state of a terminal buffer: the grid as a sequence of
/// rows, cursor and scroll positions as integers, and the accumulators of
/// the escape-sequence parser.
#[verifier::ext_equal]
pub struct TermState {
    pub grid: Seq<Seq<Cell>>,
    pub cx: int,
    pub cy: int,
    pub cols: int,
    pub rows: int,
    pub attrs: CellAttributes,
    pub parser: ParserState,
    pub params: Seq<u8>,
    pub osc_len: int,
    pub top: int,
    pub bottom: int,
    pub saved: Option<(int, int)>,
    pub visible: bool,
}

/// Largest size accepted on either axis; PTY sizes are 16-bit.
pub const MAX_DIM: usize = 0xFFFF;

/// Longest OSC accumulation: one byte beyond the 4096 bound aborts.
pub const OSC_LIMIT: usize = 4096;

impl TermState {
    /// Well-formedness: the grid is exactly cols x rows, the cursor is in
    /// bounds, and the bottom scroll margin is a valid row. The top margin
    /// is not re-clamped on resize, so it is only bounded by the size
    /// limit, matching the resize semantics.
    pub open spec fn wf(self) -> bool {
        frame_ok(self) && 0 <= self.cx < self.cols
    }
}

/// A blank row of the given width.
pub open spec fn blank_row(cols: int) -> Seq<Cell> {
    Seq::new(cols as nat, |i: int| default_cell())
}

/// The fresh buffer state: all blank, cursor at the origin, scroll region
/// covering the whole screen, parser in ground state.
pub open spec fn m_new(cols: int, rows: int) -> TermState {
    TermState {
        grid: Seq::new(rows as nat, |y: int| blank_row(cols)),
        cx: 0,
        cy: 0,
        cols: cols,
        rows: rows,
        attrs: spec_default_attrs(),
        parser: ParserState::Ground,
        params: Seq::empty(),
        osc_len: 0,
        top: 0,
        bottom: rows - 1,
        saved: None,
        visible: true,
    }
}

/// Scroll the region `[top, bottom]` up one row: the top row of the region
/// leaves, a blank row enters at the bottom. Rows outside the region are
/// untouched. A degenerate region scrolls nothing.
pub open spec fn m_scroll_up(s: TermState) -> TermState {
    if s.top < s.bottom {
        TermState { grid: s.grid.remove(s.top).insert(s.bottom, blank_row(s.cols)), ..s }
    } else {
        s
    }
}

/// Scroll the region `[top, bottom]` down one row.
pub open spec fn m_scroll_down(s: TermState) -> TermState {
    if s.top < s.bottom {
        TermState { grid: s.grid.remove(s.bottom).insert(s.top, blank_row(s.cols)), ..s }
    } else {
        s
    }
}

/// Line feed: move down one row, scrolling when at or below the bottom
/// margin.
pub open spec fn m_newline(s: TermState) -> TermState {
    if s.cy >= s.bottom {
        m_scroll_up(s)
    } else {
        TermState { cy: s.cy + 1, ..s }
    }
}

/// Reverse index: move up one row, scrolling down when at or above the top
/// margin.
pub open spec fn m_reverse_index(s: TermState) -> TermState {
    if s.cy <= s.top {
        m_scroll_down(s)
    } else {
        TermState { cy: s.cy - 1, ..s }
    }
}

/// Place a printable character at the cursor with the pending attributes,
/// advance, and wrap to a new line at the right edge.
pub open spec fn m_put_char(s: TermState, c: char) -> TermState {
    if s.cy < s.rows && s.cx < s.cols {
        let written = TermState {
            grid: s.grid.update(s.cy, s.grid[s.cy].update(s.cx, Cell { c: c, attrs: s.attrs })),
            cx: s.cx + 1,
            ..s
        };
        if written.cx >= s.cols {
            m_newline(TermState { cx: 0, ..written })
        } else {
            written
        }
    } else {
        s
    }
}

/// One row with the half-open column range `[lo, hi)` blanked.
pub open spec fn row_blanked(row: Seq<Cell>, lo: int, hi: int) -> Seq<Cell> {
    Seq::new(row.len(), |i: int| if lo <= i < hi { default_cell() } else { row[i] })
}

/// Erase within the cursor's line: mode 0 from the cursor to the end,
/// mode 1 from the start through the cursor, mode 2 the whole line.
pub open spec fn m_erase_line(s: TermState, mode: int) -> TermState {
    if s.cy >= s.rows {
        s
    } else if mode == 0 {
        TermState { grid: s.grid.update(s.cy, row_blanked(s.grid[s.cy], s.cx, s.cols)), ..s }
    } else if mode == 1 {
        let hi = if s.cx < s.cols - 1 { s.cx + 1 } else { s.cols };
        TermState { grid: s.grid.update(s.cy, row_blanked(s.grid[s.cy], 0, hi)), ..s }
    } else if mode == 2 {
        TermState { grid: s.grid.update(s.cy, row_blanked(s.grid[s.cy], 0, s.cols)), ..s }
    } else {
        s
    }
}

/// Erase within the display: mode 0 from the cursor to the end of the
/// screen, mode 1 from the start of the screen through the cursor, modes 2
/// and 3 the whole screen (which also homes the cursor).
pub open spec fn m_erase_display(s: TermState, mode: int) -> TermState {
    if mode == 0 {
        let s1 = m_erase_line(s, 0);
        TermState {
            grid: Seq::new(
                s1.grid.len(),
                |y: int| if y > s.cy { blank_row(s.cols) } else { s1.grid[y] },
            ),
            ..s1
        }
    } else if mode == 1 {
        let s1 = m_erase_line(s, 1);
        TermState {
            grid: Seq::new(
                s1.grid.len(),
                |y: int| if y < s.cy { blank_row(s.cols) } else { s1.grid[y] },
            ),
            ..s1
        }
    } else if mode == 2 || mode == 3 {
        m_clear_screen(s)
    } else {
        s
    }
}

/// Blank the whole grid and home the cursor.
pub open spec fn m_clear_screen(s: TermState) -> TermState {
    TermState {
        grid: Seq::new(s.grid.len(), |y: int| blank_row(s.cols)),
        cx: 0,
        cy: 0,
        ..s
    }
}

/// Full reset: clear the screen, default attributes, full-screen scroll
/// region, no saved cursor, cursor visible.
pub open spec fn m_reset(s: TermState) -> TermState {
    TermState {
        attrs: spec_default_attrs(),
        top: 0,
        bottom: s.rows - 1,
        saved: None,
        visible: true,
        ..m_clear_screen(s)
    }
}

/// One step of inserting a blank line at the cursor row, pushing the
/// bottom row of the scroll region out.
pub open spec fn m_insert_line_once(s: TermState) -> TermState {
    if s.cy <= s.bottom {
        TermState { grid: s.grid.remove(s.bottom).insert(s.cy, blank_row(s.cols)), ..s }
    } else {
        s
    }
}

/// One step of deleting the cursor row, pulling a blank row in at the
/// bottom of the scroll region.
pub open spec fn m_delete_line_once(s: TermState) -> TermState {
    if s.cy <= s.bottom {
        TermState { grid: s.grid.remove(s.cy).insert(s.bottom, blank_row(s.cols)), ..s }
    } else {
        s
    }
}

/// `f` applied `n` times.
pub open spec fn m_iterate(s: TermState, n: nat, f: spec_fn(TermState) -> TermState) -> TermState
    decreases n,
{
    if n == 0 {
        s
    } else {
        m_iterate(f(s), (n - 1) as nat, f)
    }
}

/// Effective repeat count of a row operation: beyond `rows` repetitions
/// every row operation here is saturated, so the count is capped to keep
/// any parameter from stalling the session.
pub open spec fn clamp_count(n: int, limit: int) -> nat {
    if n > limit {
        limit as nat
    } else if n >= 0 {
        n as nat
    } else {
        0
    }
}

/// Delete one character at the cursor, shifting the rest of the row left
/// and padding with a blank.
pub open spec fn m_delete_char_once(s: TermState) -> TermState {
    if s.cx < s.grid[s.cy].len() {
        TermState { grid: s.grid.update(s.cy, s.grid[s.cy].remove(s.cx).push(default_cell())), ..s }
    } else {
        s
    }
}

/// Insert one blank character at the cursor, shifting the rest of the row
/// right and truncating at the right edge.
pub open spec fn m_insert_char_once(s: TermState) -> TermState {
    if s.cx < s.cols {
        TermState {
            grid: s.grid.update(
                s.cy,
                s.grid[s.cy].insert(s.cx, default_cell()).take(s.cols),
            ),
            ..s
        }
    } else {
        s
    }
}

/// Erase `n` characters in place starting at the cursor, without shifting.
pub open spec fn m_erase_chars(s: TermState, n: int) -> TermState {
    if s.cy < s.rows {
        TermState { grid: s.grid.update(s.cy, row_blanked(s.grid[s.cy], s.cx, s.cx + n)), ..s }
    } else {
        s
    }
}

/// The numeric value of a run of decimal digit bytes, most significant
/// first.
pub open spec fn digits_val(s: Seq<u8>) -> nat
    decreases s.len(),
{
    if s.len() == 0 {
        0
    } else {
        digits_val(s.drop_last()) * 10 + (s.last() - 48) as nat
    }
}

/// Whether every byte is a decimal digit.
pub open spec fn all_digits(s: Seq<u8>) -> bool {
    forall|i: int| 0 <= i < s.len() ==> 48 <= #[trigger] s[i] <= 57
}

/// The value of one semicolon-separated parameter: a nonempty run of
/// digits whose value fits in `usize`; anything else reads as 0.
pub open spec fn param_val(s: Seq<u8>) -> usize {
    if s.len() > 0 && all_digits(s) && digits_val(s) <= usize::MAX {
        digits_val(s) as usize
    } else {
        0
    }
}

/// Position of the first semicolon at or after `start`, or the length.
pub open spec fn next_semi(s: Seq<u8>, start: int) -> int
    decreases s.len() - start,
{
    if start >= s.len() {
        s.len() as int
    } else if s[start] == 59 {
        start
    } else {
        next_semi(s, start + 1)
    }
}

proof fn lemma_next_semi_bounds(s: Seq<u8>, start: int)
    requires
        0 <= start <= s.len(),
    ensures
        start <= next_semi(s, start) <= s.len(),
    decreases s.len() - start,
{
    if start < s.len() && s[start] != 59 {
        lemma_next_semi_bounds(s, start + 1);
    }
}

#[via_fn]
proof fn split_pieces_decreases(s: Seq<u8>, start: int) {
    lemma_next_semi_bounds(s, start);
}

/// The semicolon-separated pieces of the parameter buffer from `start` on.
pub open spec fn split_pieces(s: Seq<u8>, start: int) -> Seq<Seq<u8>>
    decreases s.len() - start,
    when 0 <= start <= s.len()
    via split_pieces_decreases
{
    let j = next_semi(s, start);
    if j >= s.len() {
        seq![s.subrange(start, s.len() as int)]
    } else {
        seq![s.subrange(start, j)] + split_pieces(s, j + 1)
    }
}

/// The parsed CSI parameters: empty for an empty buffer, otherwise the
/// value of each semicolon-separated piece.
pub open spec fn m_params(s: Seq<u8>) -> Seq<usize> {
    if s.len() == 0 {
        Seq::empty()
    } else {
        split_pieces(s, 0).map_values(|p: Seq<u8>| param_val(p))
    }
}

/// First parameter, or `dflt` when absent.
pub open spec fn p_or(ps: Seq<usize>, i: int, dflt: int) -> int {
    if 0 <= i < ps.len() {
        ps[i] as int
    } else {
        dflt
    }
}

/// First parameter as a count: missing or zero reads as 1.
pub open spec fn count_or_1(ps: Seq<usize>, i: int) -> int {
    let n = p_or(ps, i, 1);
    if n < 1 {
        1
    } else {
        n
    }
}

/// `max(lo, min(v, hi))`.
pub open spec fn clamp(v: int, lo: int, hi: int) -> int {
    if v < lo {
        lo
    } else if v > hi {
        hi
    } else {
        v
    }
}

/// Extended-color sub-sequence of SGR 38/48: sub-selector 5 consumes one
/// parameter as an 8-bit palette index, sub-selector 2 consumes three as
/// R, G, B; a truncated or unknown form yields no color and consumes
/// nothing beyond the selector.
pub open spec fn m_ext_color(ps: Seq<usize>, i: int) -> (Option<TerminalColor>, int) {
    if i + 1 >= ps.len() {
        (None, i)
    } else if ps[i + 1] == 5 {
        if i + 2 < ps.len() {
            (Some(TerminalColor::Indexed((ps[i + 2] % 256) as u8)), i + 2)
        } else {
            (None, i)
        }
    } else if ps[i + 1] == 2 {
        if i + 4 < ps.len() {
            (
                Some(
                    TerminalColor::Rgb(
                        (ps[i + 2] % 256) as u8,
                        (ps[i + 3] % 256) as u8,
                        (ps[i + 4] % 256) as u8,
                    ),
                ),
                i + 4,
            )
        } else {
            (None, i)
        }
    } else {
        (None, i)
    }
}

/// One SGR code applied to the pending attributes, returning the next
/// parameter index as well.
pub open spec fn m_sgr_code(a: CellAttributes, ps: Seq<usize>, i: int) -> (CellAttributes, int)
{
    let code = ps[i] as int;
    if code == 0 {
        (spec_default_attrs(), i)
    } else if code == 1 {
        (spec_with_flag(a, flags::BOLD, true), i)
    } else if code == 2 {
        (spec_with_flag(a, flags::DIM, true), i)
    } else if code == 3 {
        (spec_with_flag(a, flags::ITALIC, true), i)
    } else if code == 4 {
        (spec_with_flag(a, flags::UNDERLINE, true), i)
    } else if code == 5 {
        (spec_with_flag(a, flags::BLINK, true), i)
    } else if code == 7 {
        (spec_with_flag(a, flags::INVERSE, true), i)
    } else if code == 8 {
        (spec_with_flag(a, flags::HIDDEN, true), i)
    } else if code == 9 {
        (spec_with_flag(a, flags::STRIKETHROUGH, true), i)
    } else if code == 21 {
        (spec_with_flag(a, flags::BOLD, false), i)
    } else if code == 22 {
        (spec_with_flag(spec_with_flag(a, flags::BOLD, false), flags::DIM, false), i)
    } else if code == 23 {
        (spec_with_flag(a, flags::ITALIC, false), i)
    } else if code == 24 {
        (spec_with_flag(a, flags::UNDERLINE, false), i)
    } else if code == 25 {
        (spec_with_flag(a, flags::BLINK, false), i)
    } else if code == 27 {
        (spec_with_flag(a, flags::INVERSE, false), i)
    } else if code == 28 {
        (spec_with_flag(a, flags::HIDDEN, false), i)
    } else if code == 29 {
        (spec_with_flag(a, flags::STRIKETHROUGH, false), i)
    } else if 30 <= code <= 37 {
        (CellAttributes { fg: TerminalColor::Indexed((code - 30) as u8), ..a }, i)
    } else if code == 38 {
        let (c, j) = m_ext_color(ps, i);
        match c {
            Some(color) => (CellAttributes { fg: color, ..a }, j),
            None => (a, j),
        }
    } else if code == 39 {
        (CellAttributes { fg: TerminalColor::Default, ..a }, i)
    } else if 40 <= code <= 47 {
        (CellAttributes { bg: TerminalColor::Indexed((code - 40) as u8), ..a }, i)
    } else if code == 48 {
        let (c, j) = m_ext_color(ps, i);
        match c {
            Some(color) => (CellAttributes { bg: color, ..a }, j),
            None => (a, j),
        }
    } else if code == 49 {
        (CellAttributes { bg: TerminalColor::Default, ..a }, i)
    } else if 90 <= code <= 97 {
        (CellAttributes { fg: TerminalColor::Indexed((code - 90 + 8) as u8), ..a }, i)
    } else if 100 <= code <= 107 {
        (CellAttributes { bg: TerminalColor::Indexed((code - 100 + 8) as u8), ..a }, i)
    } else {
        (a, i)
    }
}

/// SGR applied from parameter index `i` to the end.
pub open spec fn m_sgr_from(a: CellAttributes, ps: Seq<usize>, i: int) -> CellAttributes
    decreases ps.len() - i,
{
    if i < 0 || i >= ps.len() {
        a
    } else {
        let (a2, j) = m_sgr_code(a, ps, i);
        if j < i {
            a2
        } else {
            m_sgr_from(a2, ps, j + 1)
        }
    }
}

/// Select Graphic Rendition: an empty parameter list resets everything,
/// otherwise the codes apply in order.
pub open spec fn m_sgr(a: CellAttributes, ps: Seq<usize>) -> CellAttributes {
    if ps.len() == 0 {
        spec_default_attrs()
    } else {
        m_sgr_from(a, ps, 0)
    }
}

/// A CSI sequence executed on its final byte. Parameters default to 1 for
/// movement and to 0 for erase operations; every result is clamped into
/// the buffer bounds. Unknown final bytes are ignored, never an error.
pub open spec fn m_execute_csi(s: TermState, fin: u8) -> TermState {
    let ps = m_params(s.params);
    if fin == 65 {
        let n = count_or_1(ps, 0);
        TermState { cy: if s.cy - n >= 0 { s.cy - n } else { 0 }, ..s }
    } else if fin == 66 {
        let n = count_or_1(ps, 0);
        TermState { cy: if s.cy + n < s.rows - 1 { s.cy + n } else { s.rows - 1 }, ..s }
    } else if fin == 67 {
        let n = count_or_1(ps, 0);
        TermState { cx: if s.cx + n < s.cols - 1 { s.cx + n } else { s.cols - 1 }, ..s }
    } else if fin == 68 {
        let n = count_or_1(ps, 0);
        TermState { cx: if s.cx - n >= 0 { s.cx - n } else { 0 }, ..s }
    } else if fin == 69 {
        let n = count_or_1(ps, 0);
        TermState {
            cx: 0,
            cy: if s.cy + n < s.rows - 1 { s.cy + n } else { s.rows - 1 },
            ..s
        }
    } else if fin == 70 {
        let n = count_or_1(ps, 0);
        TermState { cx: 0, cy: if s.cy - n >= 0 { s.cy - n } else { 0 }, ..s }
    } else if fin == 71 {
        let n = count_or_1(ps, 0);
        TermState { cx: clamp(n - 1, 0, s.cols - 1), ..s }
    } else if fin == 72 || fin == 102 {
        let row = count_or_1(ps, 0);
        let col = count_or_1(ps, 1);
        TermState { cy: clamp(row - 1, 0, s.rows - 1), cx: clamp(col - 1, 0, s.cols - 1), ..s }
    } else if fin == 74 {
        m_erase_display(s, p_or(ps, 0, 0))
    } else if fin == 75 {
        m_erase_line(s, p_or(ps, 0, 0))
    } else if fin == 76 {
        let n = count_or_1(ps, 0);
        m_iterate(s, clamp_count(n, s.rows), |t: TermState| m_insert_line_once(t))
    } else if fin == 77 {
        let n = count_or_1(ps, 0);
        m_iterate(s, clamp_count(n, s.rows), |t: TermState| m_delete_line_once(t))
    } else if fin == 80 {
        let n = count_or_1(ps, 0);
        m_iterate(s, clamp_count(n, s.cols), |t: TermState| m_delete_char_once(t))
    } else if fin == 64 {
        let n = count_or_1(ps, 0);
        m_iterate(s, clamp_count(n, s.cols), |t: TermState| m_insert_char_once(t))
    } else if fin == 109 {
        TermState { attrs: m_sgr(s.attrs, ps), ..s }
    } else if fin == 114 {
        let top = count_or_1(ps, 0);
        let bottom = p_or(ps, 1, s.rows);
        TermState {
            top: clamp(top - 1, 0, s.rows - 1),
            bottom: clamp(bottom - 1, 0, s.rows - 1),
            cx: 0,
            cy: 0,
            ..s
        }
    } else if fin == 100 {
        let n = count_or_1(ps, 0);
        TermState { cy: clamp(n - 1, 0, s.rows - 1), ..s }
    } else if fin == 88 {
        let n = count_or_1(ps, 0);
        m_erase_chars(s, n)
    } else if fin == 83 {
        let n = count_or_1(ps, 0);
        m_iterate(s, clamp_count(n, s.rows), |t: TermState| m_scroll_up(t))
    } else if fin == 84 {
        let n = count_or_1(ps, 0);
        m_iterate(s, clamp_count(n, s.rows), |t: TermState| m_scroll_down(t))
    } else {
        s
    }
}

/// A private-mode set/reset executed on `h` or `l`: mode 25 controls
/// cursor visibility; mode 1049 on `h` clears the screen (there is no true
/// alternate buffer; `l` is a no-op); unknown modes are ignored.
pub open spec fn m_private_modes(s: TermState, ps: Seq<usize>, i: int, set: bool) -> TermState
    decreases ps.len() - i,
{
    if i < 0 || i >= ps.len() {
        s
    } else {
        let s2 = if ps[i] == 25 {
            TermState { visible: set, ..s }
        } else if ps[i] == 1049 {
            if set {
                m_clear_screen(s)
            } else {
                s
            }
        } else {
            s
        };
        m_private_modes(s2, ps, i + 1, set)
    }
}

/// A byte in ground state: ESC opens an escape sequence; newline, carriage
/// return, backspace, tab and bell have their usual effects; bytes at or
/// above 0x20 print; other control bytes are ignored.
pub open spec fn m_ground(s: TermState, byte: u8) -> TermState {
    if byte == 0x1b {
        TermState { parser: ParserState::Escape, ..s }
    } else if byte == 10 {
        m_newline(s)
    } else if byte == 13 {
        TermState { cx: 0, ..s }
    } else if byte == 0x08 {
        TermState { cx: if s.cx > 0 { s.cx - 1 } else { 0 }, ..s }
    } else if byte == 9 {
        let nx = (s.cx / 8 + 1) * 8;
        TermState { cx: if nx >= s.cols { s.cols - 1 } else { nx }, ..s }
    } else if byte == 0x07 {
        s
    } else if byte >= 0x20 {
        m_put_char(s, byte as char)
    } else {
        s
    }
}

/// A byte after ESC: `[` opens CSI, `]` opens OSC, `c` resets, `7`/`8`
/// save/restore the cursor, `D`/`E`/`M` are index, next-line and reverse
/// index; anything else is discarded.
pub open spec fn m_escape(s: TermState, byte: u8) -> TermState {
    if byte == 91 {
        TermState { parser: ParserState::Csi, params: Seq::empty(), ..s }
    } else if byte == 93 {
        TermState { parser: ParserState::Osc, osc_len: 0, ..s }
    } else if byte == 99 {
        TermState { parser: ParserState::Ground, ..m_reset(s) }
    } else if byte == 55 {
        TermState { parser: ParserState::Ground, saved: Some((s.cx, s.cy)), ..s }
    } else if byte == 56 {
        match s.saved {
            Some((x, y)) => TermState {
                parser: ParserState::Ground,
                cx: if x < s.cols - 1 { x } else { s.cols - 1 },
                cy: if y < s.rows - 1 { y } else { s.rows - 1 },
                ..s
            },
            None => TermState { parser: ParserState::Ground, ..s },
        }
    } else if byte == 68 {
        TermState { parser: ParserState::Ground, ..m_newline(s) }
    } else if byte == 69 {
        TermState { parser: ParserState::Ground, ..m_newline(TermState { cx: 0, ..s }) }
    } else if byte == 77 {
        TermState { parser: ParserState::Ground, ..m_reverse_index(s) }
    } else {
        TermState { parser: ParserState::Ground, ..s }
    }
}

/// A byte in CSI state: digits, `;` and `:` accumulate; `?` switches to
/// the private form; a final byte in `0x40..=0x7E` executes; anything else
/// abandons the sequence.
pub open spec fn m_csi(s: TermState, byte: u8) -> TermState {
    if byte == 63 {
        TermState { parser: ParserState::CsiPrivate, ..s }
    } else if (48 <= byte && byte <= 57) || byte == 59 || byte == 58 {
        TermState { params: s.params.push(byte), ..s }
    } else if 64 <= byte && byte <= 126 {
        TermState { parser: ParserState::Ground, ..m_execute_csi(s, byte) }
    } else {
        TermState { parser: ParserState::Ground, ..s }
    }
}

/// A byte in private CSI state: digits and `;` accumulate; `h`/`l` apply
/// the listed modes; anything else abandons the sequence.
pub open spec fn m_csi_private(s: TermState, byte: u8) -> TermState {
    if (48 <= byte && byte <= 57) || byte == 59 {
        TermState { params: s.params.push(byte), ..s }
    } else if byte == 104 || byte == 108 {
        TermState {
            parser: ParserState::Ground,
            ..m_private_modes(s, m_params(s.params), 0, byte == 104)
        }
    } else {
        TermState { parser: ParserState::Ground, ..s }
    }
}

/// A byte in OSC state: BEL or ESC terminates (the accumulated content is
/// discarded); other bytes accumulate, bounded at 4096 — one byte past the
/// bound abandons the sequence and returns to ground.
pub open spec fn m_osc(s: TermState, byte: u8) -> TermState {
    if byte == 0x07 || byte == 0x1b {
        TermState { parser: ParserState::Ground, ..s }
    } else {
        let grown = TermState { osc_len: s.osc_len + 1, ..s };
        if grown.osc_len > OSC_LIMIT {
            TermState { parser: ParserState::Ground, ..grown }
        } else {
            grown
        }
    }
}

/// The complete byte-at-a-time transition of the terminal state machine.
pub open spec fn m_step(s: TermState, byte: u8) -> TermState {
    match s.parser {
        ParserState::Ground => m_ground(s, byte),
        ParserState::Escape => m_escape(s, byte),
        ParserState::Csi => m_csi(s, byte),
        ParserState::CsiPrivate => m_csi_private(s, byte),
        ParserState::Osc => m_osc(s, byte),
    }
}

/// A whole byte sequence applied in order.
pub open spec fn m_feed(s: TermState, bytes: Seq<u8>) -> TermState
    decreases bytes.len(),
{
    if bytes.len() == 0 {
        s
    } else {
        m_feed(m_step(s, bytes[0]), bytes.drop_first())
    }
}

/// Everything the invariant asks of a state except the cursor column:
/// bounded dimensions, a fully populated grid, the cursor row and bottom
/// margin in range, and bounded accumulators.
pub open spec fn frame_ok(s: TermState) -> bool {
    &&& 1 <= s.cols <= MAX_DIM
    &&& 1 <= s.rows <= MAX_DIM
    &&& s.grid.len() == s.rows
    &&& (forall|y: int| 0 <= y < s.rows ==> (#[trigger] s.grid[y]).len() == s.cols)
    &&& 0 <= s.cy < s.rows
    &&& 0 <= s.bottom < s.rows
    &&& 0 <= s.top <= MAX_DIM
    &&& 0 <= s.osc_len <= OSC_LIMIT + 1
    &&& (s.parser is Osc ==> s.osc_len <= OSC_LIMIT)
    &&& (match s.saved {
        Some((x, y)) => 0 <= x <= MAX_DIM && 0 <= y <= MAX_DIM,
        None => true,
    })
}

/// The state after a resize: cells beyond the new bounds are dropped, new
/// cells are blank, the cursor and the bottom margin are clamped. The top
/// margin is left as it is.
pub open spec fn m_resize(s: TermState, cols: int, rows: int) -> TermState {
    TermState {
        grid: Seq::new(
            rows as nat,
            |y: int| Seq::new(
                cols as nat,
                |x: int| if y < s.grid.len() && x < s.grid[y].len() { s.grid[y][x] } else { default_cell() },
            ),
        ),
        cols: cols,
        rows: rows,
        bottom: rows - 1,
        cx: if s.cx < cols - 1 { s.cx } else { cols - 1 },
        cy: if s.cy < rows - 1 { s.cy } else { rows - 1 },
        ..s
    }
}

/// The grid seen as a sequence of row sequences.
pub open spec fn rows_view(cells: Seq<Vec<Cell>>) -> Seq<Seq<Cell>> {
    cells.map_values(|r: Vec<Cell>| r@)
}

proof fn lemma_rows_view_remove(cells: Seq<Vec<Cell>>, i: int)
    requires
        0 <= i < cells.len(),
    ensures
        rows_view(cells.remove(i)) =~= rows_view(cells).remove(i),
{
}

proof fn lemma_rows_view_insert(cells: Seq<Vec<Cell>>, i: int, row: Vec<Cell>)
    requires
        0 <= i <= cells.len(),
    ensures
        rows_view(cells.insert(i, row)) =~= rows_view(cells).insert(i, row@),
{
}

proof fn lemma_rows_view_update(cells: Seq<Vec<Cell>>, i: int, row: Vec<Cell>)
    requires
        0 <= i < cells.len(),
    ensures
        rows_view(cells.update(i, row)) =~= rows_view(cells).update(i, row@),
{
}

proof fn lemma_iterate_snoc(s: TermState, n: nat, f: spec_fn(TermState) -> TermState)
    ensures
        m_iterate(s, n + 1, f) == f(m_iterate(s, n, f)),
    decreases n,
{
    if n == 0 {
        assert(m_iterate(s, 1, f) == m_iterate(f(s), 0, f));
        assert(m_iterate(f(s), 0, f) == f(s));
        assert(m_iterate(s, 0, f) == s);
    } else {
        lemma_iterate_snoc(f(s), (n - 1) as nat, f);
        assert(m_iterate(s, n + 1, f) == m_iterate(f(s), n as nat, f));
        assert(m_iterate(s, n as nat, f) == m_iterate(f(s), (n - 1) as nat, f));
    }
}

/// Feeding one more byte is one more step of the transition function.
pub proof fn lemma_feed_snoc(s: TermState, bytes: Seq<u8>, b: u8)
    ensures
        m_feed(s, bytes.push(b)) == m_step(m_feed(s, bytes), b),
    decreases bytes.len(),
{
    if bytes.len() == 0 {
        assert(bytes.push(b)[0] == b);
        assert(bytes.push(b).drop_first() =~= Seq::<u8>::empty());
        assert(m_feed(s, bytes.push(b)) == m_feed(m_step(s, b), Seq::<u8>::empty()));
        assert(m_feed(m_step(s, b), Seq::<u8>::empty()) == m_step(s, b));
        assert(m_feed(s, bytes) == s);
    } else {
        assert(bytes.push(b)[0] == bytes[0]);
        assert(bytes.push(b).drop_first() =~= bytes.drop_first().push(b));
        lemma_feed_snoc(m_step(s, bytes[0]), bytes.drop_first(), b);
        assert(m_feed(s, bytes.push(b)) == m_feed(m_step(s, bytes[0]), bytes.drop_first().push(b)));
        assert(m_feed(s, bytes) == m_feed(m_step(s, bytes[0]), bytes.drop_first()));
    }
}

/// The mutable grid of styled cells, cursor, scroll region and parser
/// state: the sole mutation target of the escape-sequence parser.
pub struct TerminalBuffer {
    /// Grid of cells, one inner vector per row.
    pub cells: Vec<Vec<Cell>>,
    /// Current cursor column.
    pub cursor_x: usize,
    /// Current cursor row.
    pub cursor_y: usize,
    /// Number of columns.
    pub cols: usize,
    /// Number of rows.
    pub rows: usize,
    /// Attributes pending for the next printed characters.
    pub current_attrs: CellAttributes,
    /// Parser state.
    pub parser_state: ParserState,
    /// CSI parameter accumulator.
    pub csi_params: Vec<u8>,
    /// OSC byte accumulator, bounded.
    pub osc_buffer: Vec<u8>,
    /// Scroll region top (inclusive).
    pub scroll_top: usize,
    /// Scroll region bottom (inclusive).
    pub scroll_bottom: usize,
    /// One-slot saved-cursor register.
    pub saved_cursor: Option<(usize, usize)>,
    /// Whether the cursor is visible.
    pub cursor_visible: bool,
}


impl View for TerminalBuffer {
    type V = TermState;

    open spec fn view(&self) -> TermState {
        TermState {
            grid: rows_view(self.cells@),
            cx: self.cursor_x as int,
            cy: self.cursor_y as int,
            cols: self.cols as int,
            rows: self.rows as int,
            attrs: self.current_attrs,
            parser: self.parser_state,
            params: self.csi_params@,
            osc_len: self.osc_buffer@.len() as int,
            top: self.scroll_top as int,
            bottom: self.scroll_bottom as int,
            saved: match self.saved_cursor {
                Some((x, y)) => Some((x as int, y as int)),
                None => None,
            },
            visible: self.cursor_visible,
        }
    }
}

/// The same state with another grid.
pub open spec fn with_grid(s: TermState, g: Seq<Seq<Cell>>) -> TermState {
    TermState { grid: g, ..s }
}

/// A freshly allocated blank row.
fn make_blank_row(cols: usize) -> (r: Vec<Cell>)
    ensures
        r@ == blank_row(cols as int),
{
    let mut r: Vec<Cell> = Vec::new();
    let mut i: usize = 0;
    while i < cols
        invariant
            i <= cols,
            r@.len() == i,
            forall|j: int| 0 <= j < i ==> r@[j] == default_cell(),
        decreases cols - i,
    {
        r.push(Cell::default());
        i += 1;
    }
    proof {
        assert(r@ =~= blank_row(cols as int));
    }
    r
}

impl TerminalBuffer {
    /// A fresh, fully blank buffer of the given size.
    pub fn new(cols: usize, rows: usize) -> (r: Self)
        requires
            1 <= cols <= MAX_DIM,
            1 <= rows <= MAX_DIM,
        ensures
            r@ == m_new(cols as int, rows as int),
            r@.wf(),
    {
        let mut cells: Vec<Vec<Cell>> = Vec::new();
        let mut y: usize = 0;
        while y < rows
            invariant
                y <= rows,
                cells@.len() == y,
                forall|j: int| 0 <= j < y ==> (#[trigger] cells@[j])@ == blank_row(cols as int),
            decreases rows - y,
        {
            cells.push(make_blank_row(cols));
            y += 1;
        }
        let r = TerminalBuffer {
            cells,
            cursor_x: 0,
            cursor_y: 0,
            cols,
            rows,
            current_attrs: CellAttributes::default(),
            parser_state: ParserState::Ground,
            csi_params: Vec::new(),
            osc_buffer: Vec::new(),
            scroll_top: 0,
            scroll_bottom: rows - 1,
            saved_cursor: None,
            cursor_visible: true,
        };
        proof {
            assert(r@.grid =~~= m_new(cols as int, rows as int).grid);
            assert(r@ =~~= m_new(cols as int, rows as int));
        }
        r
    }

    /// Writes one cell of the grid.
    fn set_cell(&mut self, x: usize, y: usize, cell: Cell)
        requires
            y < old(self).cells@.len(),
            x < old(self)@.grid[y as int].len(),
        ensures
            final(self)@ == with_grid(
                old(self)@,
                old(self)@.grid.update(y as int, old(self)@.grid[y as int].update(x as int, cell)),
            ),
    {
        let ghost o = self@;
        let row = &mut self.cells[y];
        row[x] = cell;
        proof {
            lemma_rows_view_update(old(self).cells@, y as int, *final(row));
            assert(final(row)@ == o.grid[y as int].update(x as int, cell));
            assert(final(self)@.grid =~~= o.grid.update(
                y as int,
                o.grid[y as int].update(x as int, cell),
            ));
            assert(final(self)@ =~~= with_grid(
                o,
                o.grid.update(y as int, o.grid[y as int].update(x as int, cell)),
            ));
        }
    }

    /// Replaces a whole row of the grid.
    fn set_row(&mut self, y: usize, row: Vec<Cell>)
        requires
            y < old(self).cells@.len(),
        ensures
            final(self)@ == with_grid(old(self)@, old(self)@.grid.update(y as int, row@)),
    {
        let ghost o = self@;
        self.cells[y] = row;
        proof {
            lemma_rows_view_update(old(self).cells@, y as int, row);
            assert(final(self)@.grid =~~= o.grid.update(y as int, row@));
            assert(final(self)@ =~~= with_grid(o, o.grid.update(y as int, row@)));
        }
    }

    /// Scrolls the region `[scroll_top, scroll_bottom]` up one row,
    /// leaving rows outside the margins untouched.
    pub fn scroll_up(&mut self)
        requires
            frame_ok(old(self)@),
        ensures
            final(self)@ == m_scroll_up(old(self)@),
            frame_ok(final(self)@),
            final(self)@.cx == old(self)@.cx,
    {
        let ghost o = self@;
        if self.scroll_top < self.scroll_bottom {
            let blank = make_blank_row(self.cols);
            proof {
                lemma_rows_view_remove(self.cells@, self.scroll_top as int);
            }
            let _ = self.cells.remove(self.scroll_top);
            proof {
                assert(self@.grid =~~= o.grid.remove(o.top));
                lemma_rows_view_insert(self.cells@, self.scroll_bottom as int, blank);
            }
            self.cells.insert(self.scroll_bottom, blank);
            proof {
                assert(self@.grid =~~= o.grid.remove(o.top).insert(o.bottom, blank_row(o.cols)));
                assert(self@ =~~= m_scroll_up(o));
            }
        }
    }

    /// Scrolls the region `[scroll_top, scroll_bottom]` down one row.
    pub fn scroll_down(&mut self)
        requires
            frame_ok(old(self)@),
        ensures
            final(self)@ == m_scroll_down(old(self)@),
            frame_ok(final(self)@),
            final(self)@.cx == old(self)@.cx,
    {
        let ghost o = self@;
        if self.scroll_top < self.scroll_bottom {
            let blank = make_blank_row(self.cols);
            proof {
                lemma_rows_view_remove(self.cells@, self.scroll_bottom as int);
            }
            let _ = self.cells.remove(self.scroll_bottom);
            proof {
                assert(self@.grid =~~= o.grid.remove(o.bottom));
                lemma_rows_view_insert(self.cells@, self.scroll_top as int, blank);
            }
            self.cells.insert(self.scroll_top, blank);
            proof {
                assert(self@.grid =~~= o.grid.remove(o.bottom).insert(o.top, blank_row(o.cols)));
                assert(self@ =~~= m_scroll_down(o));
            }
        }
    }

    /// Line feed: advance the cursor row, scrolling at the bottom margin.
    pub fn newline(&mut self)
        requires
            frame_ok(old(self)@),
        ensures
            final(self)@ == m_newline(old(self)@),
            frame_ok(final(self)@),
            final(self)@.cx == old(self)@.cx,
    {
        if self.cursor_y >= self.scroll_bottom {
            self.scroll_up();
        } else {
            self.cursor_y += 1;
        }
    }

    /// Reverse index: move the cursor up, scrolling at the top margin.
    pub fn reverse_index(&mut self)
        requires
            frame_ok(old(self)@),
        ensures
            final(self)@ == m_reverse_index(old(self)@),
            frame_ok(final(self)@),
            final(self)@.cx == old(self)@.cx,
    {
        if self.cursor_y <= self.scroll_top {
            self.scroll_down();
        } else {
            self.cursor_y -= 1;
        }
    }

    /// Places a printable character at the cursor with the pending
    /// attributes, advancing and wrapping at the right edge.
    pub fn put_char(&mut self, c: char)
        requires
            old(self)@.wf(),
        ensures
            final(self)@ == m_put_char(old(self)@, c),
            final(self)@.wf(),
    {
        if self.cursor_y < self.rows && self.cursor_x < self.cols {
            let cell = Cell { c, attrs: self.current_attrs };
            self.set_cell(self.cursor_x, self.cursor_y, cell);
            self.cursor_x += 1;
            if self.cursor_x >= self.cols {
                self.cursor_x = 0;
                self.newline();
            }
        }
    }

    /// Erase within the cursor's line: mode 0 from the cursor to the end,
    /// mode 1 from the start through the cursor, mode 2 the whole line.
    pub fn erase_line(&mut self, mode: usize)
        requires
            old(self)@.wf(),
        ensures
            final(self)@ == m_erase_line(old(self)@, mode as int),
            final(self)@.wf(),
    {
        if self.cursor_y >= self.rows {
            return ;
        }
        let ghost orig = old(self)@;
        let ghost row0 = orig.grid[orig.cy];
        if mode > 2 {
            return ;
        }
        let lo = if mode == 0 {
            self.cursor_x
        } else {
            0
        };
        let hi = if mode == 0 {
            self.cols
        } else if mode == 1 {
            if self.cursor_x < self.cols - 1 {
                self.cursor_x + 1
            } else {
                self.cols
            }
        } else {
            self.cols
        };
        proof {
            assert(row_blanked(row0, lo as int, lo as int) =~= row0);
            assert(orig.grid.update(orig.cy, row0) =~= orig.grid);
            assert(self@ =~~= with_grid(
                orig,
                orig.grid.update(orig.cy, row_blanked(row0, lo as int, lo as int)),
            ));
        }
        let mut x = lo;
        while x < hi
            invariant
                orig.wf(),
                lo <= x <= hi <= orig.cols,
                0 <= lo <= orig.cols,
                self.cursor_y == orig.cy,
                self.cols == orig.cols,
                row0 == orig.grid[orig.cy],
                self@ == with_grid(orig, orig.grid.update(orig.cy, row_blanked(row0, lo as int, x as int))),
            decreases hi - x,
        {
            proof {
                assert(self.cells@.len() == rows_view(self.cells@).len());
                assert(self@.grid.len() == orig.grid.len());
                assert(self@.grid[orig.cy].len() == orig.cols);
            }
            self.set_cell(x, self.cursor_y, Cell::default());
            proof {
                assert(row_blanked(row0, lo as int, x as int).update(x as int, default_cell())
                    =~= row_blanked(row0, lo as int, x + 1 as int));
                assert(self@.grid =~~= orig.grid.update(
                    orig.cy,
                    row_blanked(row0, lo as int, x + 1 as int),
                ));
                assert(self@ =~~= with_grid(
                    orig,
                    orig.grid.update(orig.cy, row_blanked(row0, lo as int, x + 1 as int)),
                ));
            }
            x += 1;
        }
        proof {
            assert(orig.grid.update(orig.cy, row_blanked(row0, lo as int, lo as int)) =~~= orig.grid) by {
                assert(row_blanked(row0, lo as int, lo as int) =~= row0);
            }
            assert(self@.grid[orig.cy] =~= m_erase_line(orig, mode as int).grid[orig.cy]);
            assert(self@ =~~= m_erase_line(orig, mode as int));
        }
    }

    /// Blanks the whole grid and homes the cursor.
    pub fn clear_screen(&mut self)
        requires
            old(self)@.wf(),
        ensures
            final(self)@ == m_clear_screen(old(self)@),
            final(self)@.wf(),
    {
        let ghost orig = old(self)@;
        let mut y: usize = 0;
        while y < self.rows
            invariant
                orig.wf(),
                y <= orig.rows,
                self.rows == orig.rows,
                self.cols == orig.cols,
                self@ == with_grid(
                    orig,
                    Seq::new(
                        orig.grid.len(),
                        |yy: int| (if yy < y { blank_row(orig.cols) } else { orig.grid[yy] }),
                    ),
                ),
            decreases self.rows - y,
        {
            let blank = make_blank_row(self.cols);
            proof {
                assert(self.cells@.len() == rows_view(self.cells@).len());
                assert(self@.grid.len() == orig.grid.len());
            }
            self.set_row(y, blank);
            proof {
                assert(self@.grid =~~= Seq::new(
                    orig.grid.len(),
                    |yy: int| (if yy < y + 1 { blank_row(orig.cols) } else { orig.grid[yy] }),
                ));
                assert(self@ =~~= with_grid(
                    orig,
                    Seq::new(
                        orig.grid.len(),
                        |yy: int| (if yy < y + 1 { blank_row(orig.cols) } else { orig.grid[yy] }),
                    ),
                ));
            }
            y += 1;
        }
        self.cursor_x = 0;
        self.cursor_y = 0;
        proof {
            assert(self@.grid =~~= m_clear_screen(orig).grid);
            assert(self@ =~~= m_clear_screen(orig));
        }
    }

    /// Full reset to the initial state, at the current size.
    pub fn reset(&mut self)
        requires
            old(self)@.wf(),
        ensures
            final(self)@ == m_reset(old(self)@),
            final(self)@.wf(),
    {
        self.clear_screen();
        self.current_attrs = CellAttributes::default();
        self.scroll_top = 0;
        self.scroll_bottom = self.rows - 1;
        self.saved_cursor = None;
        self.cursor_visible = true;
        proof {
            assert(self@ =~~= m_reset(old(self)@));
        }
    }
}


/// The same state with other pending attributes.
pub open spec fn with_attrs(s: TermState, a: CellAttributes) -> TermState {
    TermState { attrs: a, ..s }
}

proof fn lemma_next_semi_exact(s: Seq<u8>, start: int, j: int)
    requires
        0 <= start <= j <= s.len(),
        forall|k: int| start <= k < j ==> s[k] != 59,
        j == s.len() || s[j] == 59,
    ensures
        next_semi(s, start) == j,
    decreases j - start,
{
    if start < j {
        lemma_next_semi_exact(s, start + 1, j);
    }
}

fn parse_piece(buf: &Vec<u8>, start: usize, end: usize) -> (r: usize)
    requires
        start <= end <= buf@.len(),
    ensures
        r == param_val(buf@.subrange(start as int, end as int)),
{
    let ghost piece = buf@.subrange(start as int, end as int);
    if start == end {
        return 0;
    }
    let mut acc: u128 = 0;
    let mut i = start;
    while i < end
        invariant
            start <= i <= end <= buf@.len(),
            piece == buf@.subrange(start as int, end as int),
            all_digits(piece.take(i - start)),
            digits_val(piece.take(i - start)) <= usize::MAX ==> acc == digits_val(
                piece.take(i - start),
            ),
            digits_val(piece.take(i - start)) > usize::MAX ==> acc > usize::MAX as u128,
            acc <= 0xFFFF_FFFF_FFFF_FFFF_Fu128,
        decreases end - i,
    {
        let b = buf[i];
        if b < 48 || b > 57 {
            proof {
                assert(piece[i - start] == b);
                assert(!all_digits(piece));
            }
            return 0;
        }
        let d = (b - 48) as u128;
        let ghost pre = piece.take(i - start);
        let ghost nxt = piece.take(i + 1 - start);
        proof {
            assert(nxt.drop_last() =~= pre);
            assert(nxt.last() == piece[i - start]);
            assert(digits_val(nxt) == digits_val(pre) * 10 + (b - 48) as nat);
        }
        if acc > usize::MAX as u128 {
            proof {
                assert(digits_val(nxt) > usize::MAX);
            }
        } else {
            acc = acc * 10 + d;
        }
        i += 1;
    }
    proof {
        assert(piece.take(end - start) =~= piece);
    }
    if acc <= usize::MAX as u128 {
        acc as usize
    } else {
        0
    }
}

impl TerminalBuffer {
    /// Parses the accumulated CSI parameter bytes: semicolon-separated
    /// decimal values, with anything unreadable as a value read as 0.
    pub fn parse_params(&self) -> (r: Vec<usize>)
        ensures
            r@ == m_params(self@.params),
    {
        let buf = &self.csi_params;
        let n = buf.len();
        if n == 0 {
            return Vec::new();
        }
        let ghost s = self.csi_params@;
        let mut res: Vec<usize> = Vec::new();
        let mut start: usize = 0;
        loop
            invariant_except_break
                0 <= start <= n <= s.len(),
                n == s.len(),
                s == self.csi_params@,
                buf@ == s,
                split_pieces(s, 0).map_values(|p: Seq<u8>| param_val(p)) == res@ + split_pieces(
                    s,
                    start as int,
                ).map_values(|p: Seq<u8>| param_val(p)),
            ensures
                res@ == split_pieces(s, 0).map_values(|p: Seq<u8>| param_val(p)),
            decreases n - start,
        {
            let mut j = start;
            while j < n && buf[j] != 59
                invariant
                    start <= j <= n,
                    n == s.len(),
                    buf@ == s,
                    forall|k: int| start <= k < j ==> s[k] != 59,
                decreases n - j,
            {
                j += 1;
            }
            proof {
                lemma_next_semi_exact(s, start as int, j as int);
            }
            let v = parse_piece(buf, start, j);
            res.push(v);
            if j == n {
                proof {
                    assert(split_pieces(s, start as int) =~= seq![
                        s.subrange(start as int, s.len() as int),
                    ]);
                    assert(split_pieces(s, start as int).map_values(|p: Seq<u8>| param_val(p))
                        =~= seq![param_val(s.subrange(start as int, s.len() as int))]);
                    assert(res@ =~= split_pieces(s, 0).map_values(|p: Seq<u8>| param_val(p)));
                    assert(res@ == split_pieces(s, 0).map_values(|p: Seq<u8>| param_val(p)));
                }
                break;
            }
            proof {
                assert(split_pieces(s, start as int) == seq![
                    s.subrange(start as int, j as int),
                ] + split_pieces(s, j + 1));
                assert(split_pieces(s, start as int).map_values(|p: Seq<u8>| param_val(p)) =~= seq![
                    param_val(s.subrange(start as int, j as int)),
                ] + split_pieces(s, j + 1).map_values(|p: Seq<u8>| param_val(p)));
            }
            start = j + 1;
        }
        res
    }

    /// One step of inserting a blank line at the cursor row.
    fn insert_line_once(&mut self)
        requires
            frame_ok(old(self)@),
        ensures
            final(self)@ == m_insert_line_once(old(self)@),
            frame_ok(final(self)@),
            final(self)@.cx == old(self)@.cx,
    {
        let ghost o = self@;
        if self.cursor_y <= self.scroll_bottom {
            let blank = make_blank_row(self.cols);
            proof {
                lemma_rows_view_remove(self.cells@, self.scroll_bottom as int);
            }
            let _ = self.cells.remove(self.scroll_bottom);
            proof {
                assert(self@.grid =~~= o.grid.remove(o.bottom));
                lemma_rows_view_insert(self.cells@, self.cursor_y as int, blank);
            }
            self.cells.insert(self.cursor_y, blank);
            proof {
                assert(self@.grid =~~= o.grid.remove(o.bottom).insert(o.cy, blank_row(o.cols)));
                assert(self@ =~~= m_insert_line_once(o));
            }
        }
    }

    /// One step of deleting the cursor row.
    fn delete_line_once(&mut self)
        requires
            frame_ok(old(self)@),
        ensures
            final(self)@ == m_delete_line_once(old(self)@),
            frame_ok(final(self)@),
            final(self)@.cx == old(self)@.cx,
    {
        let ghost o = self@;
        if self.cursor_y <= self.scroll_bottom {
            let blank = make_blank_row(self.cols);
            proof {
                lemma_rows_view_remove(self.cells@, self.cursor_y as int);
            }
            let _ = self.cells.remove(self.cursor_y);
            proof {
                assert(self@.grid =~~= o.grid.remove(o.cy));
                lemma_rows_view_insert(self.cells@, self.scroll_bottom as int, blank);
            }
            self.cells.insert(self.scroll_bottom, blank);
            proof {
                assert(self@.grid =~~= o.grid.remove(o.cy).insert(o.bottom, blank_row(o.cols)));
                assert(self@ =~~= m_delete_line_once(o));
            }
        }
    }

    /// One step of deleting a character at the cursor, shifting left.
    fn delete_char_once(&mut self)
        requires
            old(self)@.wf(),
        ensures
            final(self)@ == m_delete_char_once(old(self)@),
            final(self)@.wf(),
    {
        let ghost o = self@;
        proof {
            assert(self.cells@.len() == rows_view(self.cells@).len());
            assert(o.grid[o.cy].len() == o.cols);
        }
        let rl = self.cells[self.cursor_y].len();
        if self.cursor_x < rl {
            let row = &mut self.cells[self.cursor_y];
            let _ = row.remove(self.cursor_x);
            row.push(Cell::default());
            proof {
                lemma_rows_view_update(old(self).cells@, o.cy, *final(row));
                assert(final(row)@ == o.grid[o.cy].remove(o.cx).push(default_cell()));
                assert(self@.grid =~~= o.grid.update(
                    o.cy,
                    o.grid[o.cy].remove(o.cx).push(default_cell()),
                ));
                assert(self@ =~~= m_delete_char_once(o));
            }
        }
    }

    /// One step of inserting a blank character at the cursor, shifting
    /// right and truncating at the edge.
    fn insert_char_once(&mut self)
        requires
            old(self)@.wf(),
        ensures
            final(self)@ == m_insert_char_once(old(self)@),
            final(self)@.wf(),
    {
        let ghost o = self@;
        proof {
            assert(self.cells@.len() == rows_view(self.cells@).len());
            assert(o.grid[o.cy].len() == o.cols);
        }
        if self.cursor_x < self.cols {
            let cols = self.cols;
            let row = &mut self.cells[self.cursor_y];
            row.insert(self.cursor_x, Cell::default());
            row.truncate(cols);
            proof {
                lemma_rows_view_update(old(self).cells@, o.cy, *final(row));
                assert(final(row)@ =~= o.grid[o.cy].insert(o.cx, default_cell()).take(o.cols));
                assert(self@.grid =~~= o.grid.update(
                    o.cy,
                    o.grid[o.cy].insert(o.cx, default_cell()).take(o.cols),
                ));
                assert(self@ =~~= m_insert_char_once(o));
            }
        }
    }

    /// Erases `n` characters in place from the cursor, without shifting.
    fn erase_chars(&mut self, n: usize)
        requires
            old(self)@.wf(),
        ensures
            final(self)@ == m_erase_chars(old(self)@, n as int),
            final(self)@.wf(),
    {
        let ghost orig = old(self)@;
        let ghost row0 = orig.grid[orig.cy];
        let limit = if n < self.cols - self.cursor_x {
            n
        } else {
            self.cols - self.cursor_x
        };
        let mut i: usize = 0;
        proof {
            assert(row_blanked(row0, orig.cx, orig.cx) =~= row0);
            assert(orig.grid.update(orig.cy, row0) =~= orig.grid);
            assert(self@ =~~= with_grid(
                orig,
                orig.grid.update(orig.cy, row_blanked(row0, orig.cx, orig.cx)),
            ));
        }
        while i < limit
            invariant
                orig.wf(),
                i <= limit,
                orig.cx + limit <= orig.cols,
                limit <= n,
                self.cursor_x == orig.cx,
                self.cursor_y == orig.cy,
                self.cols == orig.cols,
                row0 == orig.grid[orig.cy],
                self@ == with_grid(
                    orig,
                    orig.grid.update(orig.cy, row_blanked(row0, orig.cx, orig.cx + i)),
                ),
            decreases limit - i,
        {
            proof {
                assert(self.cells@.len() == rows_view(self.cells@).len());
                assert(self@.grid.len() == orig.grid.len());
                assert(self@.grid[orig.cy].len() == orig.cols);
            }
            self.set_cell(self.cursor_x + i, self.cursor_y, Cell::default());
            proof {
                assert(row_blanked(row0, orig.cx, orig.cx + i).update(
                    orig.cx + i,
                    default_cell(),
                ) =~= row_blanked(row0, orig.cx, orig.cx + i + 1));
                assert(self@.grid =~~= orig.grid.update(
                    orig.cy,
                    row_blanked(row0, orig.cx, orig.cx + i + 1),
                ));
                assert(self@ =~~= with_grid(
                    orig,
                    orig.grid.update(orig.cy, row_blanked(row0, orig.cx, orig.cx + i + 1)),
                ));
            }
            i += 1;
        }
        proof {
            assert(row_blanked(row0, orig.cx, orig.cx + limit) =~= row_blanked(
                row0,
                orig.cx,
                orig.cx + n,
            ));
            assert(self@ =~~= m_erase_chars(orig, n as int));
        }
    }

    /// Erase within the display: mode 0 from the cursor to the end, mode 1
    /// from the start through the cursor, modes 2 and 3 the whole screen.
    pub fn erase_display(&mut self, mode: usize)
        requires
            old(self)@.wf(),
        ensures
            final(self)@ == m_erase_display(old(self)@, mode as int),
            final(self)@.wf(),
    {
        let ghost orig = old(self)@;
        if mode == 0 {
            self.erase_line(0);
            let ghost s1 = m_erase_line(orig, 0);
            let mut y = self.cursor_y + 1;
            proof {
                assert(self@ =~~= with_grid(
                    s1,
                    Seq::new(
                        s1.grid.len(),
                        |yy: int| (if orig.cy < yy < orig.cy + 1 {
                            blank_row(orig.cols)
                        } else {
                            s1.grid[yy]
                        }),
                    ),
                ));
            }
            while y < self.rows
                invariant
                    orig.wf(),
                    s1 == m_erase_line(orig, 0),
                    orig.cy < y <= orig.rows,
                    self.rows == orig.rows,
                    self.cols == orig.cols,
                    self@ == with_grid(
                        s1,
                        Seq::new(
                            s1.grid.len(),
                            |yy: int| (if orig.cy < yy < y { blank_row(orig.cols) } else { s1.grid[yy] }),
                        ),
                    ),
                decreases self.rows - y,
            {
                let blank = make_blank_row(self.cols);
                proof {
                    assert(self.cells@.len() == rows_view(self.cells@).len());
                    assert(self@.grid.len() == orig.grid.len());
                }
                self.set_row(y, blank);
                proof {
                    assert(self@.grid =~~= Seq::new(
                        s1.grid.len(),
                        |yy: int| (if orig.cy < yy < y + 1 { blank_row(orig.cols) } else { s1.grid[yy] }),
                    ));
                    assert(self@ =~~= with_grid(
                        s1,
                        Seq::new(
                            s1.grid.len(),
                            |yy: int| (if orig.cy < yy < y + 1 {
                                blank_row(orig.cols)
                            } else {
                                s1.grid[yy]
                            }),
                        ),
                    ));
                }
                y += 1;
            }
            proof {
                assert(self@.grid =~~= m_erase_display(orig, 0).grid);
                assert(self@ =~~= m_erase_display(orig, 0));
            }
        } else if mode == 1 {
            let mut y: usize = 0;
            while y < self.cursor_y
                invariant
                    orig.wf(),
                    y <= orig.cy,
                    self.rows == orig.rows,
                    self.cols == orig.cols,
                    self.cursor_y == orig.cy,
                    self.cursor_x == orig.cx,
                    self@ == with_grid(
                        orig,
                        Seq::new(
                            orig.grid.len(),
                            |yy: int| (if yy < y { blank_row(orig.cols) } else { orig.grid[yy] }),
                        ),
                    ),
                decreases self.cursor_y - y,
            {
                let blank = make_blank_row(self.cols);
                proof {
                    assert(self.cells@.len() == rows_view(self.cells@).len());
                    assert(self@.grid.len() == orig.grid.len());
                }
                self.set_row(y, blank);
                proof {
                    assert(self@.grid =~~= Seq::new(
                        orig.grid.len(),
                        |yy: int| (if yy < y + 1 { blank_row(orig.cols) } else { orig.grid[yy] }),
                    ));
                    assert(self@ =~~= with_grid(
                        orig,
                        Seq::new(
                            orig.grid.len(),
                            |yy: int| (if yy < y + 1 { blank_row(orig.cols) } else { orig.grid[yy] }),
                        ),
                    ));
                }
                y += 1;
            }
            let ghost mid = self@;
            self.erase_line(1);
            proof {
                assert(mid.grid[orig.cy] == orig.grid[orig.cy]);
                assert(self@.grid =~~= m_erase_display(orig, 1).grid);
                assert(self@ =~~= m_erase_display(orig, 1));
            }
        } else if mode == 2 || mode == 3 {
            self.clear_screen();
        }
    }
}


fn count_at(ps: &Vec<usize>, i: usize) -> (r: usize)
    ensures
        r as int == count_or_1(ps@, i as int),
{
    let v = if i < ps.len() {
        ps[i]
    } else {
        1
    };
    if v < 1 {
        1
    } else {
        v
    }
}

fn param_at(ps: &Vec<usize>, i: usize, dflt: usize) -> (r: usize)
    ensures
        r as int == p_or(ps@, i as int, dflt as int),
{
    if i < ps.len() {
        ps[i]
    } else {
        dflt
    }
}

fn parse_extended_color(params: &Vec<usize>, i: usize) -> (r: (Option<TerminalColor>, usize))
    requires
        i < params@.len(),
    ensures
        ({
            let (c, j) = m_ext_color(params@, i as int);
            r.0 == c && r.1 as int == j
        }),
{
    let len = params.len();
    if len - i <= 1 {
        return (None, i);
    }
    let sel = params[i + 1];
    if sel == 5 {
        if len - i > 2 {
            (Some(TerminalColor::Indexed((params[i + 2] % 256) as u8)), i + 2)
        } else {
            (None, i)
        }
    } else if sel == 2 {
        if len - i > 4 {
            (
                Some(
                    TerminalColor::Rgb(
                        (params[i + 2] % 256) as u8,
                        (params[i + 3] % 256) as u8,
                        (params[i + 4] % 256) as u8,
                    ),
                ),
                i + 4,
            )
        } else {
            (None, i)
        }
    } else {
        (None, i)
    }
}

impl TerminalBuffer {
    /// Applies a list of SGR codes to the pending attributes.
    pub fn process_sgr(&mut self, params: &Vec<usize>)
        requires
            old(self)@.wf(),
        ensures
            final(self)@ == with_attrs(old(self)@, m_sgr(old(self)@.attrs, params@)),
            final(self)@.wf(),
    {
        let ghost orig = self@;
        let ghost ps = params@;
        let ghost a0 = orig.attrs;
        if params.len() == 0 {
            self.current_attrs.reset();
            proof {
                assert(self@ =~~= with_attrs(orig, m_sgr(a0, ps)));
            }
            return ;
        }
        let mut i: usize = 0;
        while i < params.len()
            invariant
                orig.wf(),
                ps == params@,
                i <= ps.len(),
                self@ == with_attrs(orig, self.current_attrs),
                m_sgr_from(a0, ps, 0) == m_sgr_from(self.current_attrs, ps, i as int),
            decreases ps.len() - i,
        {
            let code = params[i];
            let ghost pre = self.current_attrs;
            let mut ni = i;
            if code == 0 {
                self.current_attrs.reset();
            } else if code == 1 {
                self.current_attrs.set_bold(true);
            } else if code == 2 {
                self.current_attrs.set_dim(true);
            } else if code == 3 {
                self.current_attrs.set_italic(true);
            } else if code == 4 {
                self.current_attrs.set_underline(true);
            } else if code == 5 {
                self.current_attrs.set_blink(true);
            } else if code == 7 {
                self.current_attrs.set_inverse(true);
            } else if code == 8 {
                self.current_attrs.set_hidden(true);
            } else if code == 9 {
                self.current_attrs.set_strikethrough(true);
            } else if code == 21 {
                self.current_attrs.set_bold(false);
            } else if code == 22 {
                self.current_attrs.set_bold(false);
                self.current_attrs.set_dim(false);
            } else if code == 23 {
                self.current_attrs.set_italic(false);
            } else if code == 24 {
                self.current_attrs.set_underline(false);
            } else if code == 25 {
                self.current_attrs.set_blink(false);
            } else if code == 27 {
                self.current_attrs.set_inverse(false);
            } else if code == 28 {
                self.current_attrs.set_hidden(false);
            } else if code == 29 {
                self.current_attrs.set_strikethrough(false);
            } else if 30 <= code && code <= 37 {
                self.current_attrs = CellAttributes {
                    fg: TerminalColor::Indexed((code - 30) as u8),
                    ..self.current_attrs
                };
            } else if code == 38 {
                let (c, j) = parse_extended_color(params, i);
                ni = j;
                match c {
                    Some(color) => {
                        self.current_attrs = CellAttributes { fg: color, ..self.current_attrs };
                    },
                    None => {},
                }
            } else if code == 39 {
                self.current_attrs = CellAttributes {
                    fg: TerminalColor::Default,
                    ..self.current_attrs
                };
            } else if 40 <= code && code <= 47 {
                self.current_attrs = CellAttributes {
                    bg: TerminalColor::Indexed((code - 40) as u8),
                    ..self.current_attrs
                };
            } else if code == 48 {
                let (c, j) = parse_extended_color(params, i);
                ni = j;
                match c {
                    Some(color) => {
                        self.current_attrs = CellAttributes { bg: color, ..self.current_attrs };
                    },
                    None => {},
                }
            } else if code == 49 {
                self.current_attrs = CellAttributes {
                    bg: TerminalColor::Default,
                    ..self.current_attrs
                };
            } else if 90 <= code && code <= 97 {
                self.current_attrs = CellAttributes {
                    fg: TerminalColor::Indexed((code - 90 + 8) as u8),
                    ..self.current_attrs
                };
            } else if 100 <= code && code <= 107 {
                self.current_attrs = CellAttributes {
                    bg: TerminalColor::Indexed((code - 100 + 8) as u8),
                    ..self.current_attrs
                };
            }
            proof {
                let (a2, j) = m_sgr_code(pre, ps, i as int);
                assert(self.current_attrs == a2 && ni as int == j);
                assert(m_sgr_from(pre, ps, i as int) == m_sgr_from(a2, ps, j + 1));
            }
            ni = ni + 1;
            i = ni;
        }
        proof {
            assert(m_sgr_from(self.current_attrs, ps, i as int) == self.current_attrs);
            assert(self@ =~~= with_attrs(orig, m_sgr(a0, ps)));
        }
    }

    fn scroll_up_n(&mut self, n: usize)
        requires
            old(self)@.wf(),
        ensures
            final(self)@ == m_iterate(
                old(self)@,
                clamp_count(n as int, old(self)@.rows),
                (|t: TermState| m_scroll_up(t)),
            ),
            final(self)@.wf(),
    {
        let ghost orig = self@;
        let k = if n > self.rows {
            self.rows
        } else {
            n
        };
        let mut i: usize = 0;
        while i < k
            invariant
                i <= k,
                frame_ok(self@),
                self@.cx == orig.cx,
                self@.cols == orig.cols,
                orig.wf(),
                self@ == m_iterate(orig, i as nat, (|t: TermState| m_scroll_up(t))),
            decreases k - i,
        {
            proof {
                lemma_iterate_snoc(orig, i as nat, (|t: TermState| m_scroll_up(t)));
                assert((|t: TermState| m_scroll_up(t))(m_iterate(orig, i as nat, (|t: TermState| m_scroll_up(t)))) == m_scroll_up(m_iterate(orig, i as nat, (|t: TermState| m_scroll_up(t)))));
            }
            self.scroll_up();
            i += 1;
        }
        proof {
            assert(clamp_count(n as int, orig.rows) == k as nat);
        }
    }

    fn scroll_down_n(&mut self, n: usize)
        requires
            old(self)@.wf(),
        ensures
            final(self)@ == m_iterate(
                old(self)@,
                clamp_count(n as int, old(self)@.rows),
                (|t: TermState| m_scroll_down(t)),
            ),
            final(self)@.wf(),
    {
        let ghost orig = self@;
        let k = if n > self.rows {
            self.rows
        } else {
            n
        };
        let mut i: usize = 0;
        while i < k
            invariant
                i <= k,
                frame_ok(self@),
                self@.cx == orig.cx,
                self@.cols == orig.cols,
                orig.wf(),
                self@ == m_iterate(orig, i as nat, (|t: TermState| m_scroll_down(t))),
            decreases k - i,
        {
            proof {
                lemma_iterate_snoc(orig, i as nat, (|t: TermState| m_scroll_down(t)));
                assert((|t: TermState| m_scroll_down(t))(m_iterate(orig, i as nat, (|t: TermState| m_scroll_down(t)))) == m_scroll_down(m_iterate(orig, i as nat, (|t: TermState| m_scroll_down(t)))));
            }
            self.scroll_down();
            i += 1;
        }
        proof {
            assert(clamp_count(n as int, orig.rows) == k as nat);
        }
    }

    /// Inserts `n` blank lines at the cursor row within the scroll region.
    pub fn insert_lines(&mut self, n: usize)
        requires
            old(self)@.wf(),
        ensures
            final(self)@ == m_iterate(
                old(self)@,
                clamp_count(n as int, old(self)@.rows),
                (|t: TermState| m_insert_line_once(t)),
            ),
            final(self)@.wf(),
    {
        let ghost orig = self@;
        let k = if n > self.rows {
            self.rows
        } else {
            n
        };
        let mut i: usize = 0;
        while i < k
            invariant
                i <= k,
                frame_ok(self@),
                self@.cx == orig.cx,
                self@.cols == orig.cols,
                orig.wf(),
                self@ == m_iterate(orig, i as nat, (|t: TermState| m_insert_line_once(t))),
            decreases k - i,
        {
            proof {
                lemma_iterate_snoc(orig, i as nat, (|t: TermState| m_insert_line_once(t)));
                assert((|t: TermState| m_insert_line_once(t))(m_iterate(orig, i as nat, (|t: TermState| m_insert_line_once(t)))) == m_insert_line_once(m_iterate(orig, i as nat, (|t: TermState| m_insert_line_once(t)))));
            }
            self.insert_line_once();
            i += 1;
        }
        proof {
            assert(clamp_count(n as int, orig.rows) == k as nat);
        }
    }

    /// Deletes `n` lines at the cursor row within the scroll region.
    pub fn delete_lines(&mut self, n: usize)
        requires
            old(self)@.wf(),
        ensures
            final(self)@ == m_iterate(
                old(self)@,
                clamp_count(n as int, old(self)@.rows),
                (|t: TermState| m_delete_line_once(t)),
            ),
            final(self)@.wf(),
    {
        let ghost orig = self@;
        let k = if n > self.rows {
            self.rows
        } else {
            n
        };
        let mut i: usize = 0;
        while i < k
            invariant
                i <= k,
                frame_ok(self@),
                self@.cx == orig.cx,
                self@.cols == orig.cols,
                orig.wf(),
                self@ == m_iterate(orig, i as nat, (|t: TermState| m_delete_line_once(t))),
            decreases k - i,
        {
            proof {
                lemma_iterate_snoc(orig, i as nat, (|t: TermState| m_delete_line_once(t)));
                assert((|t: TermState| m_delete_line_once(t))(m_iterate(orig, i as nat, (|t: TermState| m_delete_line_once(t)))) == m_delete_line_once(m_iterate(orig, i as nat, (|t: TermState| m_delete_line_once(t)))));
            }
            self.delete_line_once();
            i += 1;
        }
        proof {
            assert(clamp_count(n as int, orig.rows) == k as nat);
        }
    }

    /// Deletes `n` characters at the cursor, shifting the row left and
    /// padding with blanks.
    pub fn delete_chars(&mut self, n: usize)
        requires
            old(self)@.wf(),
        ensures
            final(self)@ == m_iterate(
                old(self)@,
                clamp_count(n as int, old(self)@.cols),
                (|t: TermState| m_delete_char_once(t)),
            ),
            final(self)@.wf(),
    {
        let ghost orig = self@;
        let k = if n > self.cols {
            self.cols
        } else {
            n
        };
        let mut i: usize = 0;
        while i < k
            invariant
                i <= k,
                self@.wf(),
                orig.wf(),
                self@ == m_iterate(orig, i as nat, (|t: TermState| m_delete_char_once(t))),
            decreases k - i,
        {
            proof {
                lemma_iterate_snoc(orig, i as nat, (|t: TermState| m_delete_char_once(t)));
                assert((|t: TermState| m_delete_char_once(t))(m_iterate(orig, i as nat, (|t: TermState| m_delete_char_once(t)))) == m_delete_char_once(m_iterate(orig, i as nat, (|t: TermState| m_delete_char_once(t)))));
            }
            self.delete_char_once();
            i += 1;
        }
        proof {
            assert(clamp_count(n as int, orig.cols) == k as nat);
        }
    }

    /// Inserts `n` blank characters at the cursor, shifting the row right.
    pub fn insert_chars(&mut self, n: usize)
        requires
            old(self)@.wf(),
        ensures
            final(self)@ == m_iterate(
                old(self)@,
                clamp_count(n as int, old(self)@.cols),
                (|t: TermState| m_insert_char_once(t)),
            ),
            final(self)@.wf(),
    {
        let ghost orig = self@;
        let k = if n > self.cols {
            self.cols
        } else {
            n
        };
        let mut i: usize = 0;
        while i < k
            invariant
                i <= k,
                self@.wf(),
                orig.wf(),
                self@ == m_iterate(orig, i as nat, (|t: TermState| m_insert_char_once(t))),
            decreases k - i,
        {
            proof {
                lemma_iterate_snoc(orig, i as nat, (|t: TermState| m_insert_char_once(t)));
                assert((|t: TermState| m_insert_char_once(t))(m_iterate(orig, i as nat, (|t: TermState| m_insert_char_once(t)))) == m_insert_char_once(m_iterate(orig, i as nat, (|t: TermState| m_insert_char_once(t)))));
            }
            self.insert_char_once();
            i += 1;
        }
        proof {
            assert(clamp_count(n as int, orig.cols) == k as nat);
        }
    }

    /// Executes a complete CSI sequence given its final byte.
    #[verifier::rlimit(60)]
    pub fn execute_csi(&mut self, final_byte: u8)
        requires
            old(self)@.wf(),
        ensures
            final(self)@ == m_execute_csi(old(self)@, final_byte),
            final(self)@.wf(),
    {
        let params = self.parse_params();
        if final_byte == 65 {
            // CUU - cursor up
            let n = count_at(&params, 0);
            self.cursor_y = if n > self.cursor_y {
                0
            } else {
                self.cursor_y - n
            };
        } else if final_byte == 66 {
            // CUD - cursor down
            let n = count_at(&params, 0);
            let nc = if n > self.rows {
                self.rows
            } else {
                n
            };
            let t = self.cursor_y + nc;
            self.cursor_y = if t > self.rows - 1 {
                self.rows - 1
            } else {
                t
            };
        } else if final_byte == 67 {
            // CUF - cursor forward
            let n = count_at(&params, 0);
            let nc = if n > self.cols {
                self.cols
            } else {
                n
            };
            let t = self.cursor_x + nc;
            self.cursor_x = if t > self.cols - 1 {
                self.cols - 1
            } else {
                t
            };
        } else if final_byte == 68 {
            // CUB - cursor back
            let n = count_at(&params, 0);
            self.cursor_x = if n > self.cursor_x {
                0
            } else {
                self.cursor_x - n
            };
        } else if final_byte == 69 {
            // CNL - cursor next line
            let n = count_at(&params, 0);
            let nc = if n > self.rows {
                self.rows
            } else {
                n
            };
            let t = self.cursor_y + nc;
            self.cursor_x = 0;
            self.cursor_y = if t > self.rows - 1 {
                self.rows - 1
            } else {
                t
            };
        } else if final_byte == 70 {
            // CPL - cursor previous line
            let n = count_at(&params, 0);
            self.cursor_x = 0;
            self.cursor_y = if n > self.cursor_y {
                0
            } else {
                self.cursor_y - n
            };
        } else if final_byte == 71 {
            // CHA - column absolute
            let n = count_at(&params, 0);
            let t = n - 1;
            self.cursor_x = if t > self.cols - 1 {
                self.cols - 1
            } else {
                t
            };
        } else if final_byte == 72 || final_byte == 102 {
            // CUP / HVP - cursor position
            let row = count_at(&params, 0);
            let col = count_at(&params, 1);
            let ty = row - 1;
            let tx = col - 1;
            self.cursor_y = if ty > self.rows - 1 {
                self.rows - 1
            } else {
                ty
            };
            self.cursor_x = if tx > self.cols - 1 {
                self.cols - 1
            } else {
                tx
            };
        } else if final_byte == 74 {
            // ED - erase in display
            let mode = param_at(&params, 0, 0);
            self.erase_display(mode);
        } else if final_byte == 75 {
            // EL - erase in line
            let mode = param_at(&params, 0, 0);
            self.erase_line(mode);
        } else if final_byte == 76 {
            // IL - insert lines
            let n = count_at(&params, 0);
            self.insert_lines(n);
        } else if final_byte == 77 {
            // DL - delete lines
            let n = count_at(&params, 0);
            self.delete_lines(n);
        } else if final_byte == 80 {
            // DCH - delete characters
            let n = count_at(&params, 0);
            self.delete_chars(n);
        } else if final_byte == 64 {
            // ICH - insert characters
            let n = count_at(&params, 0);
            self.insert_chars(n);
        } else if final_byte == 109 {
            // SGR
            self.process_sgr(&params);
        } else if final_byte == 114 {
            // DECSTBM - set scroll region and home the cursor
            let top = count_at(&params, 0);
            let bottom = param_at(&params, 1, self.rows);
            let tt = top - 1;
            self.scroll_top = if tt > self.rows - 1 {
                self.rows - 1
            } else {
                tt
            };
            self.scroll_bottom = if bottom == 0 {
                0
            } else {
                let tb = bottom - 1;
                if tb > self.rows - 1 {
                    self.rows - 1
                } else {
                    tb
                }
            };
            self.cursor_x = 0;
            self.cursor_y = 0;
        } else if final_byte == 100 {
            // VPA - vertical position absolute
            let n = count_at(&params, 0);
            let t = n - 1;
            self.cursor_y = if t > self.rows - 1 {
                self.rows - 1
            } else {
                t
            };
        } else if final_byte == 88 {
            // ECH - erase characters in place
            let n = count_at(&params, 0);
            self.erase_chars(n);
        } else if final_byte == 83 {
            // SU - scroll up
            let n = count_at(&params, 0);
            self.scroll_up_n(n);
        } else if final_byte == 84 {
            // SD - scroll down
            let n = count_at(&params, 0);
            self.scroll_down_n(n);
        }
    }
}


/// Position of the cell at column `x` of row `y` in the flattened cell
/// list of a render state.
pub open spec fn cell_index(cols: int, x: int, y: int) -> int {
    y * cols + x
}

/// What one rendered cell must hold: its position, the character, the
/// resolved CSS colors and the style flags of the grid cell there.
pub open spec fn render_cell_ok(rc: RenderCell, s: TermState, x: int, y: int) -> bool {
    &&& rc.x == x
    &&& rc.y == y
    &&& rc.c@ == seq![s.grid[y][x].c]
    &&& rc.fg@ == spec_fg_css(s.grid[y][x].attrs.fg)
    &&& rc.bg@ == spec_bg_css(s.grid[y][x].attrs.bg)
    &&& rc.flags == s.grid[y][x].attrs.flags
}

proof fn lemma_cell_index_mono(cols: int, x: int, y: int, x2: int, y2: int)
    by (nonlinear_arith)
    requires
        0 <= x < cols,
        0 <= x2 < cols,
        0 <= y2,
        y2 < y || (y2 == y && x2 < x),
    ensures
        0 <= cell_index(cols, x2, y2) < cell_index(cols, x, y),
{
}

impl TerminalBuffer {
    /// One byte after ESC.
    fn process_escape(&mut self, byte: u8)
        requires
            old(self)@.wf(),
        ensures
            final(self)@ == m_escape(old(self)@, byte),
            final(self)@.wf(),
    {
        if byte == 91 {
            // '[' - CSI
            self.parser_state = ParserState::Csi;
            self.csi_params.clear();
        } else if byte == 93 {
            // ']' - OSC
            self.parser_state = ParserState::Osc;
            self.osc_buffer.clear();
        } else if byte == 99 {
            // 'c' - full reset
            self.reset();
            self.parser_state = ParserState::Ground;
        } else if byte == 55 {
            // '7' - save cursor
            self.saved_cursor = Some((self.cursor_x, self.cursor_y));
            self.parser_state = ParserState::Ground;
        } else if byte == 56 {
            // '8' - restore cursor, clamped
            match self.saved_cursor {
                Some((x, y)) => {
                    self.cursor_x = if x > self.cols - 1 {
                        self.cols - 1
                    } else {
                        x
                    };
                    self.cursor_y = if y > self.rows - 1 {
                        self.rows - 1
                    } else {
                        y
                    };
                },
                None => {},
            }
            self.parser_state = ParserState::Ground;
        } else if byte == 68 {
            // 'D' - index
            self.newline();
            self.parser_state = ParserState::Ground;
        } else if byte == 69 {
            // 'E' - next line
            self.cursor_x = 0;
            self.newline();
            self.parser_state = ParserState::Ground;
        } else if byte == 77 {
            // 'M' - reverse index
            self.reverse_index();
            self.parser_state = ParserState::Ground;
        } else {
            self.parser_state = ParserState::Ground;
        }
    }

    /// One byte in ground state.
    fn process_ground(&mut self, byte: u8)
        requires
            old(self)@.wf(),
        ensures
            final(self)@ == m_ground(old(self)@, byte),
            final(self)@.wf(),
    {
        if byte == 0x1b {
            self.parser_state = ParserState::Escape;
        } else if byte == 10 {
            self.newline();
        } else if byte == 13 {
            self.cursor_x = 0;
        } else if byte == 0x08 {
            if self.cursor_x > 0 {
                self.cursor_x = self.cursor_x - 1;
            }
        } else if byte == 9 {
            let nx = ((self.cursor_x / 8) + 1) * 8;
            self.cursor_x = if nx >= self.cols {
                self.cols - 1
            } else {
                nx
            };
        } else if byte == 0x07 {
            // bell: ignored in ground state
        } else if byte >= 0x20 {
            self.put_char(byte as char);
        }
    }

    /// One byte in CSI state.
    fn process_csi(&mut self, byte: u8)
        requires
            old(self)@.wf(),
        ensures
            final(self)@ == m_csi(old(self)@, byte),
            final(self)@.wf(),
    {
        if byte == 63 {
            // '?' - private mode
            self.parser_state = ParserState::CsiPrivate;
        } else if (48 <= byte && byte <= 57) || byte == 59 || byte == 58 {
            self.csi_params.push(byte);
        } else if 64 <= byte && byte <= 126 {
            self.execute_csi(byte);
            self.parser_state = ParserState::Ground;
        } else {
            self.parser_state = ParserState::Ground;
        }
    }

    /// One byte in private CSI state.
    fn process_csi_private(&mut self, byte: u8)
        requires
            old(self)@.wf(),
        ensures
            final(self)@ == m_csi_private(old(self)@, byte),
            final(self)@.wf(),
    {
        let ghost orig = self@;
        if 48 <= byte && byte <= 57 || byte == 59 {
            self.csi_params.push(byte);
        } else if byte == 104 || byte == 108 {
            let set = byte == 104;
            let params = self.parse_params();
            let ghost ps = params@;
            let mut i: usize = 0;
            while i < params.len()
                invariant
                    orig.wf(),
                    self@.wf(),
                    ps == params@,
                    i <= ps.len(),
                    m_private_modes(orig, ps, 0, set) == m_private_modes(self@, ps, i as int, set),
                decreases ps.len() - i,
            {
                let ghost pre = self@;
                let p = params[i];
                if p == 25 {
                    self.cursor_visible = set;
                } else if p == 1049 {
                    if set {
                        self.clear_screen();
                    }
                }
                proof {
                    assert(m_private_modes(pre, ps, i as int, set) == m_private_modes(
                        self@,
                        ps,
                        i + 1,
                        set,
                    ));
                }
                i += 1;
            }
            self.parser_state = ParserState::Ground;
        } else {
            self.parser_state = ParserState::Ground;
        }
    }

    /// One byte in OSC state.
    fn process_osc(&mut self, byte: u8)
        requires
            old(self)@.wf(),
            old(self)@.parser is Osc,
        ensures
            final(self)@ == m_osc(old(self)@, byte),
            final(self)@.wf(),
    {
        if byte == 0x07 || byte == 0x1b {
            // BEL or ESC terminates; the accumulated content is discarded
            self.parser_state = ParserState::Ground;
        } else {
            self.osc_buffer.push(byte);
            if self.osc_buffer.len() > OSC_LIMIT {
                self.parser_state = ParserState::Ground;
            }
        }
    }

    /// Processes a single byte of input through the state machine.
    pub fn write_byte(&mut self, byte: u8)
        requires
            old(self)@.wf(),
        ensures
            final(self)@ == m_step(old(self)@, byte),
            final(self)@.wf(),
    {
        match self.parser_state {
            ParserState::Ground => self.process_ground(byte),
            ParserState::Escape => self.process_escape(byte),
            ParserState::Csi => self.process_csi(byte),
            ParserState::CsiPrivate => self.process_csi_private(byte),
            ParserState::Osc => self.process_osc(byte),
        }
    }

    /// Feeds a whole chunk of bytes, in order.
    pub fn feed(&mut self, bytes: &[u8])
        requires
            old(self)@.wf(),
        ensures
            final(self)@ == m_feed(old(self)@, bytes@),
            final(self)@.wf(),
    {
        let ghost orig = self@;
        let n = bytes.len();
        let mut i: usize = 0;
        while i < n
            invariant
                orig.wf(),
                i <= n,
                n == bytes@.len(),
                self@.wf(),
                self@ == m_feed(orig, bytes@.take(i as int)),
            decreases n - i,
        {
            let b = bytes[i];
            proof {
                lemma_feed_snoc(orig, bytes@.take(i as int), b);
                assert(bytes@.take(i as int).push(b) =~= bytes@.take(i + 1));
            }
            self.write_byte(b);
            i += 1;
        }
        proof {
            assert(bytes@.take(n as int) =~= bytes@);
        }
    }

    /// Resizes the grid to the exact new dimensions: cells beyond the new
    /// bounds are dropped, new cells are blank; the cursor and the bottom
    /// margin are clamped (the top margin is left as it is).
    pub fn resize(&mut self, new_cols: usize, new_rows: usize)
        requires
            old(self)@.wf(),
            1 <= new_cols <= MAX_DIM,
            1 <= new_rows <= MAX_DIM,
        ensures
            final(self)@ == m_resize(old(self)@, new_cols as int, new_rows as int),
            final(self)@.wf(),
    {
        let ghost orig = self@;
        let ghost target = m_resize(orig, new_cols as int, new_rows as int);
        let mut grid: Vec<Vec<Cell>> = Vec::new();
        let mut y: usize = 0;
        while y < new_rows
            invariant
                orig.wf(),
                self@ == orig,
                y <= new_rows,
                1 <= new_cols <= MAX_DIM,
                1 <= new_rows <= MAX_DIM,
                target == m_resize(orig, new_cols as int, new_rows as int),
                grid@.len() == y,
                forall|j: int| 0 <= j < y ==> (#[trigger] grid@[j])@ == target.grid[j],
            decreases new_rows - y,
        {
            let mut row: Vec<Cell> = Vec::new();
            let mut x: usize = 0;
            while x < new_cols
                invariant
                    orig.wf(),
                    self@ == orig,
                    y < new_rows,
                    x <= new_cols,
                    row@.len() == x,
                    forall|i: int| 0 <= i < x ==> row@[i] == (
                        if y < orig.rows && i < orig.cols {
                            orig.grid[y as int][i]
                        } else {
                            default_cell()
                        }
                    ),
                decreases new_cols - x,
            {
                let cell = if y < self.rows && x < self.cols {
                    proof {
                        assert(self.cells@.len() == rows_view(self.cells@).len());
                        assert(self.cells@[y as int]@ == self@.grid[y as int]);
                    }
                    self.cells[y][x]
                } else {
                    Cell::default()
                };
                row.push(cell);
                x += 1;
            }
            proof {
                assert(row@ =~= target.grid[y as int]);
            }
            grid.push(row);
            y += 1;
        }
        self.cells = grid;
        self.cols = new_cols;
        self.rows = new_rows;
        self.scroll_bottom = new_rows - 1;
        if self.cursor_x > new_cols - 1 {
            self.cursor_x = new_cols - 1;
        }
        if self.cursor_y > new_rows - 1 {
            self.cursor_y = new_rows - 1;
        }
        proof {
            assert(self@.grid =~~= target.grid);
            assert(self@ =~~= target);
        }
    }

    /// The characters of one row, in order.
    pub fn row_text(&self, y: usize) -> (r: String)
        requires
            self@.wf(),
            y < self@.rows,
        ensures
            r@ == self@.grid[y as int].map_values(|c: Cell| c.c),
    {
        let mut r = String::new();
        let mut x: usize = 0;
        proof {
            assert(self.cells@.len() == rows_view(self.cells@).len());
            assert(self.cells@[y as int]@ == self@.grid[y as int]);
        }
        while x < self.cols
            invariant
                self@.wf(),
                y < self@.rows,
                x <= self@.cols,
                self.cells@[y as int]@ == self@.grid[y as int],
                r@ == self@.grid[y as int].map_values(|c: Cell| c.c).take(x as int),
            decreases self.cols - x,
        {
            let c = self.cells[y][x].c;
            crate::text::push_char(&mut r, c);
            proof {
                assert(self@.grid[y as int].map_values(|c: Cell| c.c).take(x + 1)
                    =~= self@.grid[y as int].map_values(|c: Cell| c.c).take(x as int).push(c));
            }
            x += 1;
        }
        proof {
            assert(self@.grid[y as int].map_values(|c: Cell| c.c).take(self@.cols)
                =~= self@.grid[y as int].map_values(|c: Cell| c.c));
        }
        r
    }

    /// A fully detached snapshot of the visible state: every cell with its
    /// resolved CSS colors, the cursor, and the reported size. Holds no
    /// reference back into the buffer.
    pub fn to_render_state(&self, size: TerminalSize) -> (r: TerminalRenderState)
        requires
            self@.wf(),
        ensures
            r.cells@.len() == self@.rows * self@.cols,
            forall|x: int, y: int|
                0 <= x < self@.cols && 0 <= y < self@.rows ==> {
                    &&& 0 <= #[trigger] cell_index(self@.cols, x, y) < r.cells@.len()
                    &&& render_cell_ok(r.cells@[cell_index(self@.cols, x, y)], self@, x, y)
                },
            r.cursor.x == self@.cx,
            r.cursor.y == self@.cy,
            r.cursor.shape@ == "block"@,
            r.cursor.visible == self@.visible,
            r.size == size,
            r.selections@.len() == 0,
    {
        let ghost s = self@;
        let mut cells: Vec<RenderCell> = Vec::new();
        let mut y: usize = 0;
        while y < self.rows
            invariant
                s == self@,
                s.wf(),
                y <= s.rows,
                cells@.len() == y * s.cols,
                forall|x2: int, y2: int|
                    0 <= x2 < s.cols && 0 <= y2 < y ==> {
                        &&& 0 <= #[trigger] cell_index(s.cols, x2, y2) < cells@.len()
                        &&& render_cell_ok(cells@[cell_index(s.cols, x2, y2)], s, x2, y2)
                    },
            decreases self.rows - y,
        {
            let mut x: usize = 0;
            while x < self.cols
                invariant
                    s == self@,
                    s.wf(),
                    y < s.rows,
                    x <= s.cols,
                    cells@.len() == y * s.cols + x,
                    forall|x2: int, y2: int|
                        0 <= x2 < s.cols && (0 <= y2 < y || (y2 == y && 0 <= x2 < x)) ==> {
                            &&& 0 <= #[trigger] cell_index(s.cols, x2, y2) < cells@.len()
                            &&& render_cell_ok(cells@[cell_index(s.cols, x2, y2)], s, x2, y2)
                        },
                decreases self.cols - x,
            {
                proof {
                    assert(self.cells@.len() == rows_view(self.cells@).len());
                    assert(self.cells@[y as int]@ == s.grid[y as int]);
                }
                let cell = self.cells[y][x];
                let rc = RenderCell {
                    x,
                    y,
                    c: char_to_string(cell.c),
                    fg: cell.attrs.fg.to_fg_css(),
                    bg: cell.attrs.bg.to_bg_css(),
                    flags: cell.attrs.flags,
                };
                let ghost old_cells = cells@;
                cells.push(rc);
                proof {
                    assert(cell_index(s.cols, x as int, y as int) == old_cells.len());
                    assert(render_cell_ok(cells@[cell_index(s.cols, x as int, y as int)], s, x as int, y as int));
                    assert forall|x2: int, y2: int|
                        0 <= x2 < s.cols && (0 <= y2 < y || (y2 == y && 0 <= x2 < x + 1)) implies {
                        &&& 0 <= #[trigger] cell_index(s.cols, x2, y2) < cells@.len()
                        &&& render_cell_ok(cells@[cell_index(s.cols, x2, y2)], s, x2, y2)
                    } by {
                        if y2 < y || (y2 == y && x2 < x) {
                            lemma_cell_index_mono(s.cols, x as int, y as int, x2, y2);
                        }
                    }
                }
                x += 1;
            }
            proof {
                assert(y * s.cols + s.cols == (y + 1) * s.cols) by (nonlinear_arith);
            }
            y += 1;
        }
        TerminalRenderState {
            cells,
            cursor: CursorState {
                x: self.cursor_x,
                y: self.cursor_y,
                shape: "block".to_owned(),
                visible: self.cursor_visible,
            },
            size,
            selections: Vec::new(),
        }
    }
}

} // verus!
