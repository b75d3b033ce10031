use vstd::prelude::*;
use crate::cell::{clear_cell_spec, draw_cell_spec, scroll_spec};
use crate::geometry::{
    black_byte, byte_cell_col, byte_cell_row, cell_byte, channel, glyph_x, glyph_y, in_cell,
    lemma_byte_decompose, lemma_cell_byte, CELL_ROW_BYTES, COLUMNS, FRAME_LEN, ROWS,
};
use crate::glyphs::{glyph_for, glyph_supported};
use crate::terminal::{
    is_printable, lemma_putstring_tv_snoc, putchar_tv, putstring_tv, with_cursor_glyph, TermView,
};

verus! {

/// Writing printable characters that fit in the cursor's row moves the
/// cursor right by their number and nothing else: no wrap and no scroll.
pub proof fn lemma_put_string_within_row(s: TermView, cs: Seq<char>, cr: u8, cg: u8, cb: u8)
    requires
        s.wf(),
        forall|i: int| 0 <= i < cs.len() ==> is_printable(#[trigger] cs[i]),
        s.column + cs.len() < COLUMNS,
    ensures
        putstring_tv(s, cs, cr, cg, cb).wf(),
        putstring_tv(s, cs, cr, cg, cb).row == s.row,
        putstring_tv(s, cs, cr, cg, cb).column == s.column + cs.len(),
    decreases cs.len(),
{
    if cs.len() > 0 {
        let s1 = putchar_tv(s, cs[0], cr, cg, cb);
        assert(s1.row == s.row && s1.column == s.column + 1 && s1.wf());
        lemma_put_string_within_row(s1, cs.subrange(1, cs.len() as int), cr, cg, cb);
    }
}

/// Writing exactly one row's worth of printable characters from the start of
/// a row above the last one wraps the cursor to the start of the next row.
pub proof fn lemma_put_string_wraps(s: TermView, cs: Seq<char>, cr: u8, cg: u8, cb: u8)
    requires
        s.wf(),
        s.column == 0,
        s.row < ROWS - 1,
        cs.len() == COLUMNS,
        forall|i: int| 0 <= i < cs.len() ==> is_printable(#[trigger] cs[i]),
    ensures
        putstring_tv(s, cs, cr, cg, cb).row == s.row + 1,
        putstring_tv(s, cs, cr, cg, cb).column == 0,
{
    let front = cs.subrange(0, COLUMNS - 1);
    let last = cs[COLUMNS - 1];
    assert(front.push(last) =~= cs);
    lemma_putstring_tv_snoc(s, front, last, cr, cg, cb);
    lemma_put_string_within_row(s, front, cr, cg, cb);
    let s1 = putstring_tv(s, front, cr, cg, cb);
    assert(putstring_tv(s, cs, cr, cg, cb) == putchar_tv(s1, last, cr, cg, cb));
}

/// A backspace with the cursor at the origin changes nothing at all.
pub proof fn lemma_backspace_at_origin(s: TermView, cr: u8, cg: u8, cb: u8)
    requires
        s.row == 0,
        s.column == 0,
    ensures
        putchar_tv(s, '\u{8}', cr, cg, cb) == s,
{
}

/// A backspace with the cursor at the start of a lower row moves it to the
/// last column of the row above.
pub proof fn lemma_backspace_at_row_start(s: TermView, cr: u8, cg: u8, cb: u8)
    requires
        s.wf(),
        s.column == 0,
        s.row > 0,
    ensures
        putchar_tv(s, '\u{8}', cr, cg, cb).row == s.row - 1,
        putchar_tv(s, '\u{8}', cr, cg, cb).column == COLUMNS - 1,
{
}

/// A backspace with the cursor inside a row moves it one column left.
pub proof fn lemma_backspace_within_row(s: TermView, cr: u8, cg: u8, cb: u8)
    requires
        s.wf(),
        s.column > 0,
    ensures
        putchar_tv(s, '\u{8}', cr, cg, cb).row == s.row,
        putchar_tv(s, '\u{8}', cr, cg, cb).column == s.column - 1,
{
}

/// Scrolling after drawing into a cell is drawing one row higher after
/// scrolling: the surface keeps every drawn cell, one cell row up, and the
/// old top cell row is discarded.
pub proof fn lemma_scroll_draw_commute(
    f: Seq<u8>,
    row: int,
    column: int,
    g: Seq<u8>,
    cr: u8,
    cg: u8,
    cb: u8,
)
    requires
        f.len() == FRAME_LEN,
        1 <= row < ROWS,
        0 <= column < COLUMNS,
    ensures
        scroll_spec(draw_cell_spec(f, row, column, g, cr, cg, cb)) == draw_cell_spec(
            scroll_spec(f),
            row - 1,
            column,
            g,
            cr,
            cg,
            cb,
        ),
{
    let lhs = scroll_spec(draw_cell_spec(f, row, column, g, cr, cg, cb));
    let rhs = draw_cell_spec(scroll_spec(f), row - 1, column, g, cr, cg, cb);
    assert forall|i: int| 0 <= i < FRAME_LEN implies lhs[i] == rhs[i] by {
        lemma_byte_decompose(i);
        if i + CELL_ROW_BYTES < FRAME_LEN {
            lemma_cell_byte(
                byte_cell_row(i) + 1,
                byte_cell_col(i),
                glyph_y(i),
                glyph_x(i),
                channel(i),
            );
            assert(cell_byte(
                byte_cell_row(i) + 1,
                byte_cell_col(i),
                glyph_y(i),
                glyph_x(i),
                channel(i),
            ) == i + CELL_ROW_BYTES);
        }
    }
    assert(lhs =~= rhs);
}

/// Writing a printable character at the bottom-right cell gives the same
/// state as first discarding the top cell row and writing the character from
/// the last column of the row above: the surface after the forced scroll
/// matches writing one row earlier.
pub proof fn lemma_put_char_scroll_shift(s: TermView, c: char, cr: u8, cg: u8, cb: u8)
    requires
        s.wf(),
        s.row == ROWS - 1,
        s.column == COLUMNS - 1,
        is_printable(c),
    ensures
        putchar_tv(s, c, cr, cg, cb) == putchar_tv(
            TermView { row: ROWS - 2, column: (COLUMNS - 1) as int, frame: scroll_spec(s.frame) },
            c,
            cr,
            cg,
            cb,
        ),
{
    lemma_scroll_draw_commute(s.frame, ROWS - 1, (COLUMNS - 1) as int, glyph_for(c), cr, cg, cb);
}

/// Writing a printable-first string at the bottom-right cell gives the same
/// state as writing it from the last column of the row above after the top
/// cell row is discarded.
pub proof fn lemma_put_string_scroll_shift(s: TermView, cs: Seq<char>, cr: u8, cg: u8, cb: u8)
    requires
        s.wf(),
        s.row == ROWS - 1,
        s.column == COLUMNS - 1,
        cs.len() > 0,
        is_printable(cs[0]),
    ensures
        putstring_tv(s, cs, cr, cg, cb) == putstring_tv(
            TermView { row: ROWS - 2, column: (COLUMNS - 1) as int, frame: scroll_spec(s.frame) },
            cs,
            cr,
            cg,
            cb,
        ),
{
    let shifted = TermView {
        row: ROWS - 2,
        column: (COLUMNS - 1) as int,
        frame: scroll_spec(s.frame),
    };
    lemma_put_char_scroll_shift(s, cs[0], cr, cg, cb);
    let s1 = putchar_tv(s, cs[0], cr, cg, cb);
    assert(putstring_tv(s, cs, cr, cg, cb) == putstring_tv(
        s1,
        cs.subrange(1, cs.len() as int),
        cr,
        cg,
        cb,
    ));
    assert(putstring_tv(shifted, cs, cr, cg, cb) == putstring_tv(
        s1,
        cs.subrange(1, cs.len() as int),
        cr,
        cg,
        cb,
    ));
}

/// Drawing the cursor indicator over an all-black cell and then clearing
/// that cell restores the surface exactly.
pub proof fn lemma_cursor_round_trip(s: TermView)
    requires
        s.wf(),
        forall|i: int|
            0 <= i < FRAME_LEN && in_cell(i, s.row, s.column) ==> s.frame[i] == black_byte(i),
    ensures
        clear_cell_spec(with_cursor_glyph(s).frame, s.row, s.column) == s.frame,
{
    let cleared = clear_cell_spec(with_cursor_glyph(s).frame, s.row, s.column);
    assert forall|i: int| 0 <= i < FRAME_LEN implies cleared[i] == s.frame[i] by {
        lemma_byte_decompose(i);
    }
    assert(cleared =~= s.frame);
}

/// A character the glyph source does not know renders exactly as `?` does,
/// in the same color.
pub proof fn lemma_unsupported_draws_question_mark(s: TermView, c: char, cr: u8, cg: u8, cb: u8)
    requires
        !glyph_supported(c),
        is_printable(c),
    ensures
        putchar_tv(s, c, cr, cg, cb) == putchar_tv(s, '?', cr, cg, cb),
{
    assert(glyph_for(c) == glyph_for('?'));
}

/// Writing two chunks one after the other gives the same state as writing
/// their concatenation in one piece: delivery order within one producer is
/// all that matters.
pub proof fn lemma_put_string_append(s: TermView, a: Seq<char>, b: Seq<char>, cr: u8, cg: u8, cb: u8)
    ensures
        putstring_tv(s, a + b, cr, cg, cb) == putstring_tv(
            putstring_tv(s, a, cr, cg, cb),
            b,
            cr,
            cg,
            cb,
        ),
    decreases a.len(),
{
    if a.len() == 0 {
        assert(a + b =~= b);
    } else {
        let s1 = if a[0] == '\r' {
            s
        } else {
            putchar_tv(s, a[0], cr, cg, cb)
        };
        assert((a + b)[0] == a[0]);
        assert((a + b).subrange(1, (a + b).len() as int) =~= a.subrange(1, a.len() as int) + b);
        assert(putstring_tv(s, a + b, cr, cg, cb) == putstring_tv(
            s1,
            a.subrange(1, a.len() as int) + b,
            cr,
            cg,
            cb,
        ));
        lemma_put_string_append(s1, a.subrange(1, a.len() as int), b, cr, cg, cb);
        assert(putstring_tv(s, a, cr, cg, cb) == putstring_tv(
            s1,
            a.subrange(1, a.len() as int),
            cr,
            cg,
            cb,
        ));
    }
}

} // verus!
