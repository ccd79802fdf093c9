//! Laws of the terminal state machine, proved over the specification-level
//! transition function.

use vstd::prelude::*;

use crate::renderer::{spec_default_attrs, spec_fg_css, DEFAULT_FG};
use crate::term::{
    all_digits, digits_val, m_csi, m_escape, m_execute_csi, m_feed, m_ground, m_new, m_osc,
    m_params, m_sgr, m_sgr_code, m_sgr_from, m_step, next_semi, param_val, split_pieces, Cell,
    ParserState, TermState, MAX_DIM, OSC_LIMIT,
};

verus! {

proof fn lemma_params_single_zero()
    ensures
        m_params(seq![48u8]) =~= seq![0usize],
{
    let s = seq![48u8];
    assert(next_semi(s, 1) == 1);
    assert(s[0] != 59);
    assert(next_semi(s, 0) == 1);
    assert(split_pieces(s, 0) =~= seq![s.subrange(0, 1)]);
    assert(s.subrange(0, 1) =~= s);
    assert(digits_val(s) == 0) by {
        assert(s.drop_last() =~= Seq::<u8>::empty());
        assert(digits_val(Seq::<u8>::empty()) == 0);
        assert(s.last() == 48);
    }
    assert(all_digits(s));
    assert(param_val(s) == 0);
    assert(m_params(s) =~= split_pieces(s, 0).map_values(|p: Seq<u8>| param_val(p)));
}

proof fn lemma_sgr_zero_resets(a: crate::renderer::CellAttributes)
    ensures
        m_sgr(a, seq![0usize]) == spec_default_attrs(),
{
    let ps = seq![0usize];
    assert(m_sgr_code(a, ps, 0) == (spec_default_attrs(), 0int));
    assert(m_sgr_from(spec_default_attrs(), ps, 1) == spec_default_attrs());
    assert(m_sgr_from(a, ps, 0) == spec_default_attrs());
}

/// The state after feeding the four bytes of the SGR reset sequence
/// `ESC [ 0 m` from ground state: the pending attributes are the defaults,
/// the parser is back in ground state, and nothing else changed.
pub proof fn lemma_sgr_reset(s: TermState)
    requires
        s.parser is Ground,
    ensures
        m_feed(s, seq![0x1bu8, 91u8, 48u8, 109u8]) == (TermState {
            attrs: spec_default_attrs(),
            params: seq![48u8],
            ..s
        }),
{
    let bytes = seq![0x1bu8, 91u8, 48u8, 109u8];
    let s1 = m_step(s, 0x1b);
    assert(s1 == m_ground(s, 0x1b));
    assert(s1 == TermState { parser: ParserState::Escape, ..s });
    let s2 = m_step(s1, 91);
    assert(s2 == m_escape(s1, 91));
    assert(s2 == TermState { parser: ParserState::Csi, params: Seq::empty(), ..s });
    let s3 = m_step(s2, 48);
    assert(s3 == m_csi(s2, 48));
    assert(s3 == TermState { parser: ParserState::Csi, params: Seq::empty().push(48u8), ..s });
    let s4 = m_step(s3, 109);
    assert(s4 == m_csi(s3, 109));
    assert(s4 == TermState { parser: ParserState::Ground, ..m_execute_csi(s3, 109) });
    assert(s3.params =~= seq![48u8]);
    lemma_params_single_zero();
    lemma_sgr_zero_resets(s.attrs);
    assert(m_execute_csi(s3, 109) == TermState { attrs: spec_default_attrs(), ..s3 });
    assert(s4 == TermState { attrs: spec_default_attrs(), params: seq![48u8], ..s });

    let b1 = bytes.drop_first();
    let b2 = b1.drop_first();
    let b3 = b2.drop_first();
    let b4 = b3.drop_first();
    assert(b1 =~= seq![91u8, 48u8, 109u8]);
    assert(b2 =~= seq![48u8, 109u8]);
    assert(b3 =~= seq![109u8]);
    assert(b4 =~= Seq::<u8>::empty());
    assert(m_feed(s, bytes) == m_feed(s1, b1));
    assert(m_feed(s1, b1) == m_feed(s2, b2));
    assert(m_feed(s2, b2) == m_feed(s3, b3));
    assert(m_feed(s3, b3) == m_feed(s4, b4));
    assert(m_feed(s4, b4) == s4);
}

/// Idempotence of the SGR reset sequence: sending `ESC [ 0 m` twice
/// yields exactly the same attribute state as sending it once.
pub proof fn lemma_sgr_reset_idempotent(s: TermState)
    requires
        s.parser is Ground,
    ensures
        ({
            let reset = seq![0x1bu8, 91u8, 48u8, 109u8];
            let once = m_feed(s, reset);
            let twice = m_feed(once, reset);
            twice.attrs == once.attrs
        }),
{
    let reset = seq![0x1bu8, 91u8, 48u8, 109u8];
    lemma_sgr_reset(s);
    let once = m_feed(s, reset);
    lemma_sgr_reset(once);
}

/// Round trip of plain printing: feeding fewer printable ASCII characters
/// than the width to a fresh buffer leaves the cursor after the written
/// prefix of row 0, every written cell holding exactly the corresponding
/// character with default attributes — so each resolves to the default
/// foreground color — and the pending attributes untouched.
pub proof fn lemma_print_round_trip(cols: int, rows: int, bytes: Seq<u8>)
    requires
        1 <= cols <= MAX_DIM,
        1 <= rows <= MAX_DIM,
        bytes.len() < cols,
        forall|i: int| 0 <= i < bytes.len() ==> 0x20 <= #[trigger] bytes[i] <= 0x7e,
    ensures
        ({
            let t = m_feed(m_new(cols, rows), bytes);
            &&& t.cx == bytes.len()
            &&& t.cy == 0
            &&& t.cols == cols && t.rows == rows
            &&& t.parser is Ground
            &&& t.attrs == spec_default_attrs()
            &&& t.grid.len() == rows && t.grid[0].len() == cols
            &&& forall|i: int|
                0 <= i < bytes.len() ==> #[trigger] t.grid[0][i] == Cell {
                    c: bytes[i] as char,
                    attrs: spec_default_attrs(),
                }
            &&& forall|i: int|
                0 <= i < bytes.len() ==> spec_fg_css(#[trigger] t.grid[0][i].attrs.fg)
                    == DEFAULT_FG@
        }),
    decreases bytes.len(),
{
    let fresh = m_new(cols, rows);
    if bytes.len() == 0 {
        assert(m_feed(fresh, bytes) == fresh);
        assert(fresh.grid[0].len() == cols);
    } else {
        let pre = bytes.drop_last();
        let b = bytes.last();
        lemma_print_round_trip(cols, rows, pre);
        let t1 = m_feed(fresh, pre);
        crate::term::lemma_feed_snoc(fresh, pre, b);
        assert(pre.push(b) =~= bytes);
        let t = m_step(t1, b);
        assert(m_feed(fresh, bytes) == t);
        assert(t == m_ground(t1, b));
        assert(b >= 0x20 && b != 0x1b && b != 10 && b != 13 && b != 8 && b != 9 && b != 7);
        let written = TermState {
            grid: t1.grid.update(
                t1.cy,
                t1.grid[t1.cy].update(t1.cx, Cell { c: b as char, attrs: t1.attrs }),
            ),
            cx: t1.cx + 1,
            ..t1
        };
        assert(written.cx < cols);
        assert(t == written);
        assert forall|i: int| 0 <= i < bytes.len() implies #[trigger] t.grid[0][i] == Cell {
            c: bytes[i] as char,
            attrs: spec_default_attrs(),
        } by {
            if i < pre.len() {
                assert(t.grid[0][i] == t1.grid[0][i]);
            } else {
                assert(i == pre.len());
            }
        }
    }
}

/// An OSC sequence is harmless and bounded: a byte taken in OSC state
/// never touches the grid, cursor, attributes or dimensions; BEL and ESC
/// terminate the sequence; the accumulator never grows past one byte
/// beyond the bound, and the byte that crosses the bound abandons the
/// sequence to ground state, so every later byte is processed normally.
pub proof fn lemma_osc_bounded(s: TermState, byte: u8)
    requires
        s.wf(),
        s.parser is Osc,
    ensures
        ({
            let t = m_step(s, byte);
            &&& t == m_osc(s, byte)
            &&& t.grid == s.grid
            &&& t.cx == s.cx && t.cy == s.cy
            &&& t.attrs == s.attrs
            &&& t.cols == s.cols && t.rows == s.rows
            &&& t.osc_len <= OSC_LIMIT + 1
            &&& ((byte == 0x07 || byte == 0x1b) ==> t.parser is Ground)
            &&& (t.parser is Osc ==> t.osc_len <= OSC_LIMIT)
            &&& (t.osc_len > OSC_LIMIT ==> t.parser is Ground)
            &&& t.wf()
        }),
{
}

} // verus!
