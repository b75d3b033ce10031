use vstd::prelude::*;
use vstd::arithmetic::div_mod::lemma_fundamental_div_mod;
use vstd::arithmetic::div_mod::lemma_fundamental_div_mod_converse;

verus! {

/// Number of character cells in one grid row.
pub const COLUMNS: usize = 80;

/// Number of character cell rows in the grid.
pub const ROWS: usize = 30;

/// Width in pixels of one glyph raster (regular weight, raster height 16).
pub const CHAR_WIDTH: usize = 9;

/// Height in pixels of one glyph raster.
pub const CHAR_HEIGHT: usize = 16;

/// Bytes per pixel: red, green, blue, alpha.
pub const PX_WIDTH: usize = 4;

/// Width of the pixel surface in pixels.
pub const WIDTH: usize = CHAR_WIDTH * COLUMNS;

/// Height of the pixel surface in pixels.
pub const HEIGHT: usize = CHAR_HEIGHT * ROWS;

/// Bytes taken by one cell-width of pixels.
pub const CHAR_WIDTH_PX: usize = CHAR_WIDTH * PX_WIDTH;

/// Bytes taken by one full pixel row of the surface.
pub const WIDTH_PX: usize = WIDTH * PX_WIDTH;

/// Bytes taken by one full cell row (`CHAR_HEIGHT` pixel rows).
pub const CELL_ROW_BYTES: usize = WIDTH_PX * CHAR_HEIGHT;

/// Total length in bytes of the pixel surface: `WIDTH_PX * HEIGHT`.
pub const FRAME_LEN: usize = 1382400;

/// The value of byte `i` of an opaque black surface: alpha bytes are 255,
/// color bytes are 0.
pub open spec fn black_byte(i: int) -> u8 {
    if i % (PX_WIDTH as int) == (PX_WIDTH - 1) as int {
        255u8
    } else {
        0u8
    }
}

/// The cell row that surface byte `i` falls in.
pub open spec fn byte_cell_row(i: int) -> int {
    i / (WIDTH_PX as int) / (CHAR_HEIGHT as int)
}

/// The cell column that surface byte `i` falls in.
pub open spec fn byte_cell_col(i: int) -> int {
    (i % (WIDTH_PX as int)) / (PX_WIDTH as int) / (CHAR_WIDTH as int)
}

/// Whether surface byte `i` lies inside the cell at `(row, column)`.
pub open spec fn in_cell(i: int, row: int, column: int) -> bool {
    byte_cell_row(i) == row && byte_cell_col(i) == column
}

/// The pixel row of byte `i` within its cell, counted from the cell's top.
pub open spec fn glyph_y(i: int) -> int {
    (i / (WIDTH_PX as int)) % (CHAR_HEIGHT as int)
}

/// The pixel column of byte `i` within its cell, counted from the cell's left.
pub open spec fn glyph_x(i: int) -> int {
    ((i % (WIDTH_PX as int)) / (PX_WIDTH as int)) % (CHAR_WIDTH as int)
}

/// The color channel of byte `i`: 0 red, 1 green, 2 blue, 3 alpha.
pub open spec fn channel(i: int) -> int {
    i % (PX_WIDTH as int)
}

/// The surface byte index of channel `ch` of the pixel `(gy, gx)` of the cell
/// at `(row, column)`.
pub open spec fn cell_byte(row: int, column: int, gy: int, gx: int, ch: int) -> int {
    row * (CELL_ROW_BYTES as int) + gy * (WIDTH_PX as int) + column * (CHAR_WIDTH_PX as int) + gx
        * (PX_WIDTH as int) + ch
}

/// Composing a byte index from cell and in-cell coordinates lands in the
/// frame and decomposes back to the same coordinates.
pub proof fn lemma_cell_byte(row: int, column: int, gy: int, gx: int, ch: int)
    requires
        0 <= row < ROWS,
        0 <= column < COLUMNS,
        0 <= gy < CHAR_HEIGHT,
        0 <= gx < CHAR_WIDTH,
        0 <= ch < PX_WIDTH,
    ensures
        0 <= cell_byte(row, column, gy, gx, ch) < FRAME_LEN,
        byte_cell_row(cell_byte(row, column, gy, gx, ch)) == row,
        byte_cell_col(cell_byte(row, column, gy, gx, ch)) == column,
        glyph_y(cell_byte(row, column, gy, gx, ch)) == gy,
        glyph_x(cell_byte(row, column, gy, gx, ch)) == gx,
        channel(cell_byte(row, column, gy, gx, ch)) == ch,
{
    let i = cell_byte(row, column, gy, gx, ch);
    let q = row * 16 + gy;
    let m = column * 36 + gx * 4 + ch;
    assert(q * 2880 == row * 46080 + gy * 2880) by (nonlinear_arith)
        requires
            q == row * 16 + gy,
    ;
    assert(column * 36 <= 79 * 36) by (nonlinear_arith)
        requires
            column <= 79,
    ;
    assert(i == q * 2880 + m);
    assert(0 <= m < 2880);
    lemma_fundamental_div_mod_converse(i, 2880, q, m);
    lemma_fundamental_div_mod_converse(q, 16, row, gy);
    let p = column * 9 + gx;
    assert(p * 4 == column * 36 + gx * 4) by (nonlinear_arith)
        requires
            p == column * 9 + gx,
    ;
    assert(m == p * 4 + ch);
    lemma_fundamental_div_mod_converse(m, 4, p, ch);
    lemma_fundamental_div_mod_converse(p, 9, column, gx);
    assert(i < 1382400) by (nonlinear_arith)
        requires
            i == q * 2880 + m,
            q <= 479,
            m < 2880,
    ;
}

/// Every frame byte index is the composition of its cell and in-cell
/// coordinates, and those coordinates are in range.
pub proof fn lemma_byte_decompose(i: int)
    requires
        0 <= i < FRAME_LEN,
    ensures
        i == cell_byte(byte_cell_row(i), byte_cell_col(i), glyph_y(i), glyph_x(i), channel(i)),
        0 <= byte_cell_row(i) < ROWS,
        0 <= byte_cell_col(i) < COLUMNS,
        0 <= glyph_y(i) < CHAR_HEIGHT,
        0 <= glyph_x(i) < CHAR_WIDTH,
        0 <= channel(i) < PX_WIDTH,
{
    lemma_fundamental_div_mod(i, WIDTH_PX as int);
    let q = i / (WIDTH_PX as int);
    let m = i % (WIDTH_PX as int);
    lemma_fundamental_div_mod(q, CHAR_HEIGHT as int);
    lemma_fundamental_div_mod(m, PX_WIDTH as int);
    let p = m / (PX_WIDTH as int);
    lemma_fundamental_div_mod(p, CHAR_WIDTH as int);
    lemma_fundamental_div_mod_converse(
        i,
        PX_WIDTH as int,
        720 * q + p,
        m % (PX_WIDTH as int),
    );
}

} // verus!
