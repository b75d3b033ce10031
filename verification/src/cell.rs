use vstd::prelude::*;
use crate::geometry::{
    black_byte, cell_byte, channel, glyph_x, glyph_y, in_cell,
    lemma_byte_decompose, lemma_cell_byte, CELL_ROW_BYTES, CHAR_HEIGHT, CHAR_WIDTH, CHAR_WIDTH_PX,
    COLUMNS, FRAME_LEN, PX_WIDTH, ROWS, WIDTH_PX,
};
use crate::glyphs::glyph_for;
use crate::glyphs::glyph_lookup;

verus! {

/// The rectangular sub-region of the pixel surface belonging to one cell:
/// cell coordinates together with the byte offset of the cell's top-left
/// pixel.
pub struct Window {
    pub row: usize,
    pub column: usize,
    pub base: usize,
}

impl Window {
    /// The cell coordinates are in bounds and `base` addresses the first
    /// byte of the cell.
    pub open spec fn wf(self) -> bool {
        &&& self.row < ROWS
        &&& self.column < COLUMNS
        &&& self.base == cell_byte(self.row as int, self.column as int, 0, 0, 0)
    }
}

/// The blend of a color channel against black, weighted by a coverage value:
/// the rounded value of `channel * coverage / 255`.
pub open spec fn blend(channel: u8, coverage: u8) -> u8 {
    ((2 * (channel as int) * (coverage as int) + 255) / 510) as u8
}

/// The value a channel of one pixel takes when the pixel is painted with the
/// channel values `r`, `g`, `b`: alpha is fully opaque.
pub open spec fn painted_byte(r: u8, g: u8, b: u8, ch: int) -> u8 {
    if ch == 0 {
        r
    } else if ch == 1 {
        g
    } else if ch == 2 {
        b
    } else {
        255u8
    }
}

/// The value surface byte `i` takes when the raster `g` is drawn with color
/// `(cr, cg, cb)` into the cell that `i` belongs to.
pub open spec fn drawn_byte(g: Seq<u8>, cr: u8, cg: u8, cb: u8, i: int) -> u8 {
    let coverage = g[glyph_y(i) * (CHAR_WIDTH as int) + glyph_x(i)];
    painted_byte(blend(cr, coverage), blend(cg, coverage), blend(cb, coverage), channel(i))
}

/// The frame after the cell at `(row, column)` is cleared to opaque black;
/// all bytes outside the cell keep their value.
pub open spec fn clear_cell_spec(f: Seq<u8>, row: int, column: int) -> Seq<u8> {
    Seq::new(
        f.len(),
        |i: int|
            if in_cell(i, row, column) {
                black_byte(i)
            } else {
                f[i]
            },
    )
}

/// The frame after the raster `g` is drawn with color `(cr, cg, cb)` into
/// the cell at `(row, column)`; all bytes outside the cell keep their value.
pub open spec fn draw_cell_spec(
    f: Seq<u8>,
    row: int,
    column: int,
    g: Seq<u8>,
    cr: u8,
    cg: u8,
    cb: u8,
) -> Seq<u8> {
    Seq::new(
        f.len(),
        |i: int|
            if in_cell(i, row, column) {
                drawn_byte(g, cr, cg, cb, i)
            } else {
                f[i]
            },
    )
}

/// The frame after scrolling up by one cell row: the top cell row is
/// discarded and the freed bottom cell row is opaque black.
pub open spec fn scroll_spec(f: Seq<u8>) -> Seq<u8> {
    Seq::new(
        f.len(),
        |i: int|
            if i + CELL_ROW_BYTES < f.len() {
                f[i + CELL_ROW_BYTES]
            } else {
                black_byte(i)
            },
    )
}

/// Maps cell coordinates to the cell's rectangular sub-region of the pixel
/// surface.
pub fn create_window(column: usize, row: usize) -> (w: Window)
    requires
        column < COLUMNS,
        row < ROWS,
    ensures
        w.wf(),
        w.row == row,
        w.column == column,
{
    proof {
        lemma_cell_byte(row as int, column as int, 0, 0, 0);
        assert(row as int * (CELL_ROW_BYTES as int) >= 0) by (nonlinear_arith)
            requires
                row >= 0,
        ;
        assert(column as int * (CHAR_WIDTH_PX as int) >= 0) by (nonlinear_arith)
            requires
                column >= 0,
        ;
    }
    Window { row, column, base: row * CELL_ROW_BYTES + column * CHAR_WIDTH_PX }
}

/// Blends one color channel against black with the given coverage weight.
fn blend_channel(channel: u8, coverage: u8) -> (r: u8)
    ensures
        r == blend(channel, coverage),
{
    proof {
        assert(0 <= 2 * (channel as int) * (coverage as int) <= 2 * 255 * 255) by (nonlinear_arith)
            requires
                0 <= channel <= 255,
                0 <= coverage <= 255,
        ;
    }
    let wide = 2 * (channel as u32) * (coverage as u32) + 255;
    (wide / 510) as u8
}

/// Paints channel values `(r, g, b, 255)` into the pixel `(gy, gx)` of the
/// window's cell; every other surface byte keeps its value.
fn paint_pixel(frame: &mut Vec<u8>, w: &Window, gy: usize, gx: usize, r: u8, g: u8, b: u8)
    requires
        old(frame)@.len() == FRAME_LEN,
        w.wf(),
        gy < CHAR_HEIGHT,
        gx < CHAR_WIDTH,
    ensures
        final(frame)@.len() == FRAME_LEN,
        forall|i: int|
            0 <= i < FRAME_LEN ==> #[trigger] final(frame)@[i] == (if in_cell(
                i,
                w.row as int,
                w.column as int,
            ) && glyph_y(i) == gy && glyph_x(i) == gx {
                painted_byte(r, g, b, channel(i))
            } else {
                old(frame)@[i]
            }),
{
    proof {
        lemma_cell_byte(w.row as int, w.column as int, gy as int, gx as int, 0);
        lemma_cell_byte(w.row as int, w.column as int, gy as int, gx as int, 1);
        lemma_cell_byte(w.row as int, w.column as int, gy as int, gx as int, 2);
        lemma_cell_byte(w.row as int, w.column as int, gy as int, gx as int, 3);
    }
    let base = w.base + gy * WIDTH_PX + gx * PX_WIDTH;
    assert(base == cell_byte(w.row as int, w.column as int, gy as int, gx as int, 0));
    frame[base] = r;
    frame[base + 1] = g;
    frame[base + 2] = b;
    frame[base + 3] = 255;
    assert forall|i: int|
        0 <= i < FRAME_LEN && in_cell(i, w.row as int, w.column as int) && glyph_y(i) == gy
            && glyph_x(i) == gx implies frame@[i] == painted_byte(r, g, b, channel(i)) by {
        lemma_byte_decompose(i);
    }
    assert forall|i: int|
        0 <= i < FRAME_LEN && !(in_cell(i, w.row as int, w.column as int) && glyph_y(i) == gy
            && glyph_x(i) == gx) implies frame@[i] == old(frame)@[i] by {
        lemma_byte_decompose(i);
    }
}

/// Sets every pixel of the window's cell to opaque black.
pub fn clear_window(frame: &mut Vec<u8>, window: &Window)
    requires
        old(frame)@.len() == FRAME_LEN,
        window.wf(),
    ensures
        final(frame)@ == clear_cell_spec(old(frame)@, window.row as int, window.column as int),
{
    let mut gy: usize = 0;
    while gy < CHAR_HEIGHT
        invariant
            gy <= CHAR_HEIGHT,
            frame@.len() == FRAME_LEN,
            window.wf(),
            forall|i: int|
                0 <= i < FRAME_LEN ==> #[trigger] frame@[i] == (if in_cell(
                    i,
                    window.row as int,
                    window.column as int,
                ) && glyph_y(i) < gy {
                    black_byte(i)
                } else {
                    old(frame)@[i]
                }),
        decreases CHAR_HEIGHT - gy,
    {
        let mut gx: usize = 0;
        while gx < CHAR_WIDTH
            invariant
                gy < CHAR_HEIGHT,
                gx <= CHAR_WIDTH,
                frame@.len() == FRAME_LEN,
                window.wf(),
                forall|i: int|
                    0 <= i < FRAME_LEN ==> #[trigger] frame@[i] == (if in_cell(
                        i,
                        window.row as int,
                        window.column as int,
                    ) && (glyph_y(i) < gy || (glyph_y(i) == gy && glyph_x(i) < gx)) {
                        black_byte(i)
                    } else {
                        old(frame)@[i]
                    }),
            decreases CHAR_WIDTH - gx,
        {
            paint_pixel(frame, window, gy, gx, 0, 0, 0);
            proof {
                assert forall|i: int| 0 <= i < FRAME_LEN implies 0 <= #[trigger] channel(i)
                    < PX_WIDTH && 0 <= glyph_x(i) < CHAR_WIDTH && 0 <= glyph_y(i)
                    < CHAR_HEIGHT by {
                    lemma_byte_decompose(i);
                }
            }
            gx = gx + 1;
        }
        proof {
            assert forall|i: int| 0 <= i < FRAME_LEN implies 0 <= #[trigger] channel(i) < PX_WIDTH
                && 0 <= glyph_x(i) < CHAR_WIDTH && 0 <= glyph_y(i) < CHAR_HEIGHT by {
                lemma_byte_decompose(i);
            }
        }
        gy = gy + 1;
    }
    assert(frame@ =~= clear_cell_spec(old(frame)@, window.row as int, window.column as int));
}

/// Draws the raster of `char` (or of `?` if the glyph source has none) into
/// the window's cell, blending the color against black with the raster's
/// coverage values.
pub fn draw_char(frame: &mut Vec<u8>, window: &Window, char: char, color: [u8; 3])
    requires
        old(frame)@.len() == FRAME_LEN,
        window.wf(),
    ensures
        final(frame)@ == draw_cell_spec(
            old(frame)@,
            window.row as int,
            window.column as int,
            glyph_for(char),
            color[0],
            color[1],
            color[2],
        ),
{
    let bitmap = match glyph_lookup(char) {
        Some(b) => b,
        None => match glyph_lookup('?') {
            Some(b) => b,
            None => vstd::pervasive::unreached(),
        },
    };
    assert(bitmap@ == glyph_for(char));
    let ghost g = glyph_for(char);
    let mut gy: usize = 0;
    while gy < CHAR_HEIGHT
        invariant
            gy <= CHAR_HEIGHT,
            frame@.len() == FRAME_LEN,
            window.wf(),
            bitmap@ == g,
            bitmap@.len() == CHAR_HEIGHT * CHAR_WIDTH,
            forall|i: int|
                0 <= i < FRAME_LEN ==> #[trigger] frame@[i] == (if in_cell(
                    i,
                    window.row as int,
                    window.column as int,
                ) && glyph_y(i) < gy {
                    drawn_byte(g, color[0], color[1], color[2], i)
                } else {
                    old(frame)@[i]
                }),
        decreases CHAR_HEIGHT - gy,
    {
        let mut gx: usize = 0;
        while gx < CHAR_WIDTH
            invariant
                gy < CHAR_HEIGHT,
                gx <= CHAR_WIDTH,
                frame@.len() == FRAME_LEN,
                window.wf(),
                bitmap@ == g,
                bitmap@.len() == CHAR_HEIGHT * CHAR_WIDTH,
                forall|i: int|
                    0 <= i < FRAME_LEN ==> #[trigger] frame@[i] == (if in_cell(
                        i,
                        window.row as int,
                        window.column as int,
                    ) && (glyph_y(i) < gy || (glyph_y(i) == gy && glyph_x(i) < gx)) {
                        drawn_byte(g, color[0], color[1], color[2], i)
                    } else {
                        old(frame)@[i]
                    }),
            decreases CHAR_WIDTH - gx,
        {
            proof {
                assert(gy * CHAR_WIDTH + gx < CHAR_HEIGHT * CHAR_WIDTH) by (nonlinear_arith)
                    requires
                        gy < CHAR_HEIGHT,
                        gx < CHAR_WIDTH,
                ;
            }
            let coverage = bitmap[gy * CHAR_WIDTH + gx];
            let r = blend_channel(color[0], coverage);
            let g_ch = blend_channel(color[1], coverage);
            let b = blend_channel(color[2], coverage);
            paint_pixel(frame, window, gy, gx, r, g_ch, b);
            proof {
                assert forall|i: int| 0 <= i < FRAME_LEN implies 0 <= #[trigger] channel(i)
                    < PX_WIDTH && 0 <= glyph_x(i) < CHAR_WIDTH && 0 <= glyph_y(i)
                    < CHAR_HEIGHT by {
                    lemma_byte_decompose(i);
                }
            }
            gx = gx + 1;
        }
        proof {
            assert forall|i: int| 0 <= i < FRAME_LEN implies 0 <= #[trigger] channel(i) < PX_WIDTH
                && 0 <= glyph_x(i) < CHAR_WIDTH && 0 <= glyph_y(i) < CHAR_HEIGHT by {
                lemma_byte_decompose(i);
            }
        }
        gy = gy + 1;
    }
    assert(frame@ =~= draw_cell_spec(
        old(frame)@,
        window.row as int,
        window.column as int,
        g,
        color[0],
        color[1],
        color[2],
    ));
}

/// Shifts the surface up by one cell row and fills the freed bottom cell row
/// with opaque black.
pub fn scroll_up(frame: &mut Vec<u8>)
    requires
        old(frame)@.len() == FRAME_LEN,
    ensures
        final(frame)@ == scroll_spec(old(frame)@),
{
    let mut i: usize = 0;
    while i < FRAME_LEN - CELL_ROW_BYTES
        invariant
            i <= FRAME_LEN - CELL_ROW_BYTES,
            frame@.len() == FRAME_LEN,
            forall|j: int| 0 <= j < i ==> frame@[j] == old(frame)@[j + CELL_ROW_BYTES],
            forall|j: int| i <= j < FRAME_LEN ==> frame@[j] == old(frame)@[j],
        decreases FRAME_LEN - i,
    {
        let moved = frame[i + CELL_ROW_BYTES];
        frame[i] = moved;
        i = i + 1;
    }
    while i < FRAME_LEN
        invariant
            FRAME_LEN - CELL_ROW_BYTES <= i <= FRAME_LEN,
            frame@.len() == FRAME_LEN,
            forall|j: int|
                0 <= j < FRAME_LEN - CELL_ROW_BYTES ==> frame@[j] == old(frame)@[j
                    + CELL_ROW_BYTES],
            forall|j: int| FRAME_LEN - CELL_ROW_BYTES <= j < i ==> frame@[j] == black_byte(j),
            forall|j: int| i <= j < FRAME_LEN ==> frame@[j] == old(frame)@[j],
        decreases FRAME_LEN - i,
    {
        let value: u8 = if i % PX_WIDTH == PX_WIDTH - 1 {
            255
        } else {
            0
        };
        frame[i] = value;
        i = i + 1;
    }
    assert(frame@ =~= scroll_spec(old(frame)@));
}

} // verus!
