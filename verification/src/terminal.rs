use vstd::prelude::*;
use vstd::string::StrSliceExecFns;
use crate::cell::{
    clear_cell_spec, create_window, clear_window, draw_cell_spec, draw_char, scroll_spec,
    scroll_up,
};
use crate::geometry::{black_byte, COLUMNS, FRAME_LEN, PX_WIDTH, ROWS};
use crate::glyphs::glyph_for;

verus! {

/// The abstract state of the display engine: the cursor cell and the bytes
/// of the pixel surface.
pub ghost struct TermView {
    pub row: int,
    pub column: int,
    pub frame: Seq<u8>,
}

impl TermView {
    /// The cursor is inside the grid and the surface has its full size.
    pub open spec fn wf(self) -> bool {
        &&& 0 <= self.row < ROWS
        &&& 0 <= self.column < COLUMNS
        &&& self.frame.len() == FRAME_LEN
    }
}

/// Characters that the engine draws as a glyph; the rest are control
/// characters with their own cursor behavior.
pub open spec fn is_printable(c: char) -> bool {
    c != '\0' && c != '\t' && c != '\u{8}' && c != '\r' && c != '\n'
}

/// The cursor indicator: the underscore raster at the cursor cell, drawn in
/// full-brightness white on top of the state `s`.
pub open spec fn with_cursor_glyph(s: TermView) -> TermView {
    TermView {
        frame: draw_cell_spec(s.frame, s.row, s.column, glyph_for('_'), 255, 255, 255),
        ..s
    }
}

/// Wrap the cursor past the last column, scroll past the last row, then
/// redraw the cursor indicator: steps shared by every `put_char` branch that
/// does not return early.
pub open spec fn normalize_tv(s: TermView) -> TermView {
    let wrapped = if s.column >= COLUMNS {
        TermView { row: s.row + 1, column: 0, ..s }
    } else {
        s
    };
    let scrolled = if wrapped.row >= ROWS {
        TermView { row: (ROWS - 1) as int, column: wrapped.column, frame: scroll_spec(wrapped.frame) }
    } else {
        wrapped
    };
    with_cursor_glyph(scrolled)
}

/// The engine's transition for one character: erase/draw dispatch on the
/// character, then wrap, scroll and cursor redraw.
pub open spec fn putchar_tv(s: TermView, c: char, cr: u8, cg: u8, cb: u8) -> TermView {
    if c == '\0' || c == '\t' {
        normalize_tv(s)
    } else if c == '\u{8}' {
        if s.row == 0 && s.column == 0 {
            s
        } else {
            let erased = clear_cell_spec(s.frame, s.row, s.column);
            let row1 = if s.column == 0 {
                s.row - 1
            } else {
                s.row
            };
            let col1 = if s.column == 0 {
                (COLUMNS - 1) as int
            } else {
                s.column - 1
            };
            normalize_tv(
                TermView { row: row1, column: col1, frame: clear_cell_spec(erased, row1, col1) },
            )
        }
    } else if c == '\r' || c == '\n' {
        normalize_tv(
            TermView {
                row: s.row + 1,
                column: 0,
                frame: clear_cell_spec(s.frame, s.row, s.column),
            },
        )
    } else {
        normalize_tv(
            TermView {
                row: s.row,
                column: s.column + 1,
                frame: draw_cell_spec(s.frame, s.row, s.column, glyph_for(c), cr, cg, cb),
            },
        )
    }
}

/// The engine's transition for a string: `putchar_tv` for each character in
/// order, except carriage-return, which is skipped.
pub open spec fn putstring_tv(s: TermView, cs: Seq<char>, cr: u8, cg: u8, cb: u8) -> TermView
    decreases cs.len(),
{
    if cs.len() == 0 {
        s
    } else {
        let s1 = if cs[0] == '\r' {
            s
        } else {
            putchar_tv(s, cs[0], cr, cg, cb)
        };
        putstring_tv(s1, cs.subrange(1, cs.len() as int), cr, cg, cb)
    }
}

/// A message from a worker to the thread that owns the display engine.
#[derive(Debug)]
pub enum Event {
    /// Draw or erase the cursor indicator.
    CursorVisibility(bool),
    /// Write this text in this color.
    Output(String, [u8; 3]),
}

/// The display engine: cursor position and the RGBA8 pixel surface, row
/// major, four bytes per pixel.
pub struct Terminal {
    row: usize,
    column: usize,
    frame: Vec<u8>,
}

impl View for Terminal {
    type V = TermView;

    closed spec fn view(&self) -> TermView {
        TermView { row: self.row as int, column: self.column as int, frame: self.frame@ }
    }
}

impl Terminal {
    /// The cursor is inside the grid and the surface has its full size.
    pub open spec fn wf(self) -> bool {
        self@.wf()
    }

    /// A terminal with the cursor at the origin over an opaque black
    /// surface.
    pub fn new() -> (t: Terminal)
        ensures
            t.wf(),
            t@.row == 0,
            t@.column == 0,
            forall|i: int| 0 <= i < FRAME_LEN ==> t@.frame[i] == black_byte(i),
    {
        let mut frame: Vec<u8> = Vec::new();
        let mut i: usize = 0;
        while i < FRAME_LEN
            invariant
                i <= FRAME_LEN,
                frame@.len() == i,
                forall|j: int| 0 <= j < i ==> frame@[j] == black_byte(j),
            decreases FRAME_LEN - i,
        {
            let value: u8 = if i % PX_WIDTH == PX_WIDTH - 1 {
                255
            } else {
                0
            };
            frame.push(value);
            i = i + 1;
        }
        Terminal { row: 0, column: 0, frame }
    }

    /// The cursor's row.
    pub fn row(&self) -> (r: usize)
        ensures
            r == self@.row,
    {
        self.row
    }

    /// The cursor's column.
    pub fn column(&self) -> (c: usize)
        ensures
            c == self@.column,
    {
        self.column
    }

    /// The bytes of the pixel surface.
    pub fn frame(&self) -> (f: &Vec<u8>)
        ensures
            f@ == self@.frame,
    {
        &self.frame
    }

    /// Draws the cursor indicator at the cursor cell without moving it.
    pub fn cursor_on(&mut self)
        requires
            old(self).wf(),
        ensures
            final(self).wf(),
            final(self)@ == with_cursor_glyph(old(self)@),
    {
        let window = create_window(self.column, self.row);
        draw_char(&mut self.frame, &window, '_', [255, 255, 255]);
    }

    /// Erases the cursor cell, and with it the cursor indicator, without
    /// moving the cursor.
    pub fn cursor_off(&mut self)
        requires
            old(self).wf(),
        ensures
            final(self).wf(),
            final(self)@.row == old(self)@.row,
            final(self)@.column == old(self)@.column,
            final(self)@.frame == clear_cell_spec(old(self)@.frame, old(self)@.row, old(self)@.column),
    {
        let window = create_window(self.column, self.row);
        clear_window(&mut self.frame, &window);
    }

    /// Writes one character at the cursor: control characters move or erase,
    /// any other character is drawn in the given color and advances the
    /// cursor, wrapping past the last column and scrolling past the last
    /// row; the cursor indicator is redrawn after every non-ignored change.
    pub fn put_char(&mut self, char: char, color: [u8; 3])
        requires
            old(self).wf(),
        ensures
            final(self).wf(),
            final(self)@ == putchar_tv(old(self)@, char, color[0], color[1], color[2]),
    {
        match char {
            '\0' | '\t' => {},
            '\u{8}' => {
                if self.column == 0 && self.row == 0 {
                    return ;
                }
                let window = create_window(self.column, self.row);
                clear_window(&mut self.frame, &window);
                if self.column == 0 {
                    self.row = self.row - 1;
                    self.column = COLUMNS - 1;
                } else {
                    self.column = self.column - 1;
                }
                let window = create_window(self.column, self.row);
                clear_window(&mut self.frame, &window);
            },
            '\r' | '\n' => {
                let window = create_window(self.column, self.row);
                clear_window(&mut self.frame, &window);
                self.row = self.row + 1;
                self.column = 0;
            },
            _ => {
                let window = create_window(self.column, self.row);
                draw_char(&mut self.frame, &window, char, color);
                self.column = self.column + 1;
            },
        }
        if self.column >= COLUMNS {
            self.column = 0;
            self.row = self.row + 1;
        }
        if self.row >= ROWS {
            scroll_up(&mut self.frame);
            self.row = ROWS - 1;
        }
        let window = create_window(self.column, self.row);
        draw_char(&mut self.frame, &window, '_', [255, 255, 255]);
    }

    /// Writes every character of the string in order, skipping
    /// carriage-returns.
    pub fn put_string(&mut self, string: &str, color: [u8; 3])
        requires
            old(self).wf(),
        ensures
            final(self).wf(),
            final(self)@ == putstring_tv(old(self)@, string@, color[0], color[1], color[2]),
    {
        let n = string.unicode_len();
        let mut i: usize = 0;
        while i < n
            invariant
                i <= n,
                n == string@.len(),
                self.wf(),
                self@ == putstring_tv(old(self)@, string@.take(i as int), color[0], color[1], color[2]),
            decreases n - i,
        {
            let char = string.get_char(i);
            if char != '\r' {
                self.put_char(char, color);
            }
            proof {
                lemma_putstring_tv_snoc(old(self)@, string@.take(i as int), string@[i as int], color[0], color[1], color[2]);
                assert(string@.take(i as int + 1) =~= string@.take(i as int).push(string@[i as int]));
            }
            i = i + 1;
        }
        proof {
            assert(string@.take(n as int) =~= string@);
        }
    }

    /// Applies one bridge event: toggles the cursor indicator or writes the
    /// event's text in the event's color.
    pub fn handle_event(&mut self, event: Event)
        requires
            old(self).wf(),
        ensures
            final(self).wf(),
            final(self)@ == (match event {
                Event::CursorVisibility(true) => with_cursor_glyph(old(self)@),
                Event::CursorVisibility(false) => TermView {
                    frame: clear_cell_spec(old(self)@.frame, old(self)@.row, old(self)@.column),
                    ..old(self)@
                },
                Event::Output(text, color) => putstring_tv(
                    old(self)@,
                    text@,
                    color[0],
                    color[1],
                    color[2],
                ),
            }),
    {
        match event {
            Event::CursorVisibility(true) => self.cursor_on(),
            Event::CursorVisibility(false) => self.cursor_off(),
            Event::Output(text, color) => self.put_string(text.as_str(), color),
        }
    }
}

/// Writing one more character at the end of a string is the same as writing
/// the string and then the character.
pub proof fn lemma_putstring_tv_snoc(s: TermView, cs: Seq<char>, c: char, cr: u8, cg: u8, cb: u8)
    ensures
        putstring_tv(s, cs.push(c), cr, cg, cb) == (if c == '\r' {
            putstring_tv(s, cs, cr, cg, cb)
        } else {
            putchar_tv(putstring_tv(s, cs, cr, cg, cb), c, cr, cg, cb)
        }),
    decreases cs.len(),
{
    let t = cs.push(c);
    if cs.len() == 0 {
        let s1 = if c == '\r' {
            s
        } else {
            putchar_tv(s, c, cr, cg, cb)
        };
        assert(t[0] == c);
        assert(t.subrange(1, t.len() as int) =~= Seq::<char>::empty());
        assert(putstring_tv(s1, t.subrange(1, t.len() as int), cr, cg, cb) == s1);
        assert(putstring_tv(s, t, cr, cg, cb) == s1);
        assert(putstring_tv(s, cs, cr, cg, cb) == s);
    } else {
        let s1 = if cs[0] == '\r' {
            s
        } else {
            putchar_tv(s, cs[0], cr, cg, cb)
        };
        assert(t[0] == cs[0]);
        assert(t.subrange(1, t.len() as int) =~= cs.subrange(1, cs.len() as int).push(c));
        assert(putstring_tv(s, t, cr, cg, cb) == putstring_tv(
            s1,
            cs.subrange(1, cs.len() as int).push(c),
            cr,
            cg,
            cb,
        ));
        lemma_putstring_tv_snoc(s1, cs.subrange(1, cs.len() as int), c, cr, cg, cb);
        assert(putstring_tv(s, cs, cr, cg, cb) == putstring_tv(
            s1,
            cs.subrange(1, cs.len() as int),
            cr,
            cg,
            cb,
        ));
    }
}

} // verus!
