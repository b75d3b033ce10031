use pixterm::cell::{clear_window, create_window};
use pixterm::geometry::{
    CELL_ROW_BYTES, CHAR_HEIGHT, CHAR_WIDTH, CHAR_WIDTH_PX, COLUMNS, FRAME_LEN, PX_WIDTH, ROWS,
    WIDTH_PX,
};
use pixterm::terminal::Terminal;

const WHITE: [u8; 3] = [255, 255, 255];

/// The RGBA bytes of the pixel (gy, gx) of the cell (row, column).
fn cell_pixel(frame: &[u8], row: usize, column: usize, gy: usize, gx: usize) -> [u8; 4] {
    let base = row * CELL_ROW_BYTES + gy * WIDTH_PX + column * CHAR_WIDTH_PX + gx * PX_WIDTH;
    [frame[base], frame[base + 1], frame[base + 2], frame[base + 3]]
}

fn cell_is_black(frame: &[u8], row: usize, column: usize) -> bool {
    for gy in 0..CHAR_HEIGHT {
        for gx in 0..CHAR_WIDTH {
            if cell_pixel(frame, row, column, gy, gx) != [0, 0, 0, 255] {
                return false;
            }
        }
    }
    true
}

#[test]
fn new_terminal_is_black_at_origin() {
    let t = Terminal::new();
    assert_eq!(t.row(), 0);
    assert_eq!(t.column(), 0);
    assert_eq!(t.frame().len(), FRAME_LEN);
    assert!(t.frame().iter().enumerate().all(|(i, b)| {
        if i % PX_WIDTH == PX_WIDTH - 1 {
            *b == 255
        } else {
            *b == 0
        }
    }));
}

#[test]
fn put_string_short_stays_in_row() {
    let mut t = Terminal::new();
    t.put_string("hello", WHITE);
    assert_eq!(t.row(), 0);
    assert_eq!(t.column(), 5);
}

#[test]
fn put_string_full_row_wraps() {
    let mut t = Terminal::new();
    let row: String = std::iter::repeat('a').take(COLUMNS).collect();
    t.put_string(&row, WHITE);
    assert_eq!(t.row(), 1);
    assert_eq!(t.column(), 0);
}

#[test]
fn backspace_at_origin_is_a_no_op() {
    let mut t = Terminal::new();
    let before = t.frame().clone();
    t.put_char('\u{8}', WHITE);
    assert_eq!(t.row(), 0);
    assert_eq!(t.column(), 0);
    assert_eq!(t.frame(), &before);
}

#[test]
fn backspace_at_row_start_moves_to_previous_row_end() {
    let mut t = Terminal::new();
    t.put_char('\n', WHITE);
    assert_eq!((t.row(), t.column()), (1, 0));
    t.put_char('\u{8}', WHITE);
    assert_eq!(t.row(), 0);
    assert_eq!(t.column(), COLUMNS - 1);
}

#[test]
fn backspace_within_row_moves_left_and_erases() {
    let mut t = Terminal::new();
    t.put_char('a', WHITE);
    assert_eq!((t.row(), t.column()), (0, 1));
    t.put_char('\u{8}', WHITE);
    assert_eq!((t.row(), t.column()), (0, 0));
}

#[test]
fn nul_and_tab_keep_the_cursor() {
    let mut t = Terminal::new();
    t.put_char('\0', WHITE);
    assert_eq!((t.row(), t.column()), (0, 0));
    t.put_char('\t', WHITE);
    assert_eq!((t.row(), t.column()), (0, 0));
}

#[test]
fn carriage_return_is_skipped_in_strings() {
    let mut t = Terminal::new();
    t.put_string("a\rb", WHITE);
    assert_eq!((t.row(), t.column()), (0, 2));
}

#[test]
fn scrolling_matches_writing_one_row_earlier() {
    // Exactly ROWS * COLUMNS characters fill the grid and force one scroll
    // at the last cell; the surface must then equal the one produced by
    // writing everything but the first row's worth of characters.
    let alphabet: Vec<char> = ('a'..='z').collect();
    let all: String = (0..ROWS * COLUMNS).map(|i| alphabet[i % alphabet.len()]).collect();
    let tail: String = all.chars().skip(COLUMNS).collect();

    let mut scrolled = Terminal::new();
    scrolled.put_string(&all, WHITE);
    let mut shifted = Terminal::new();
    shifted.put_string(&tail, WHITE);

    assert_eq!((scrolled.row(), scrolled.column()), (ROWS - 1, 0));
    assert_eq!((shifted.row(), shifted.column()), (ROWS - 1, 0));
    assert_eq!(scrolled.frame(), shifted.frame());

    let checksum = |frame: &Vec<u8>| -> u64 { frame.iter().map(|b| *b as u64).sum() };
    assert_eq!(checksum(scrolled.frame()), checksum(shifted.frame()));
}

#[test]
fn cursor_toggle_restores_the_black_cell() {
    let mut t = Terminal::new();
    let before = t.frame().clone();
    t.cursor_on();
    assert!(!cell_is_black(t.frame(), 0, 0));
    t.cursor_off();
    assert_eq!(t.frame(), &before);
    assert_eq!((t.row(), t.column()), (0, 0));
}

#[test]
fn unsupported_char_renders_as_question_mark() {
    let color = [10, 200, 30];
    let mut private_use = Terminal::new();
    private_use.put_char('\u{e000}', color);
    let mut question = Terminal::new();
    question.put_char('?', color);
    assert_eq!(private_use.frame(), question.frame());
    assert_eq!(
        (private_use.row(), private_use.column()),
        (question.row(), question.column())
    );
}

#[test]
fn chunked_output_matches_single_chunk() {
    let color = [255, 200, 100];
    let mut chunked = Terminal::new();
    chunked.put_string("ab", color);
    chunked.put_string("c\n", color);
    let mut whole = Terminal::new();
    whole.put_string("abc\n", color);
    assert_eq!(chunked.frame(), whole.frame());
    assert_eq!((chunked.row(), chunked.column()), (whole.row(), whole.column()));
}

#[test]
fn glyph_ink_is_drawn_in_the_given_color() {
    // The question mark's raster has pixels of full coverage, so the exact
    // foreground color must appear in the cell, and pixels of zero coverage,
    // which must stay black.
    let color = [200, 100, 50];
    let mut t = Terminal::new();
    t.put_char('?', color);
    let frame = t.frame();
    let mut found_exact = false;
    let mut found_black = false;
    for gy in 0..CHAR_HEIGHT {
        for gx in 0..CHAR_WIDTH {
            let px = cell_pixel(frame, 0, 0, gy, gx);
            if px == [200, 100, 50, 255] {
                found_exact = true;
            }
            if px == [0, 0, 0, 255] {
                found_black = true;
            }
            assert_eq!(px[3], 255);
        }
    }
    assert!(found_exact);
    assert!(found_black);
}

#[test]
fn space_leaves_its_cell_black() {
    let mut t = Terminal::new();
    t.put_char(' ', WHITE);
    assert_eq!((t.row(), t.column()), (0, 1));
    assert!(cell_is_black(t.frame(), 0, 0));
}

#[test]
fn create_window_addresses_the_cell() {
    let w = create_window(2, 3);
    assert_eq!(w.row, 3);
    assert_eq!(w.column, 2);
    assert_eq!(w.base, 3 * CELL_ROW_BYTES + 2 * CHAR_WIDTH_PX);
}

#[test]
fn clear_window_blacks_out_one_cell_only() {
    let mut frame = vec![9u8; FRAME_LEN];
    let w = create_window(1, 0);
    clear_window(&mut frame, &w);
    assert!(cell_is_black(&frame, 0, 1));
    assert_eq!(cell_pixel(&frame, 0, 0, 0, 0), [9, 9, 9, 9]);
    assert_eq!(cell_pixel(&frame, 0, 2, 5, 5), [9, 9, 9, 9]);
    assert_eq!(cell_pixel(&frame, 1, 1, 5, 5), [9, 9, 9, 9]);
}

#[test]
fn carriage_return_echoes_as_a_newline() {
    let mut t = Terminal::new();
    t.put_char('\r', WHITE);
    assert_eq!((t.row(), t.column()), (1, 0));
}

#[test]
fn backspace_erases_the_drawn_character() {
    let mut typed = Terminal::new();
    typed.put_char('a', WHITE);
    typed.put_char('\u{8}', WHITE);
    let mut fresh = Terminal::new();
    fresh.cursor_on();
    assert_eq!(typed.frame(), fresh.frame());
    assert_eq!((typed.row(), typed.column()), (0, 0));
}

#[test]
fn cursor_indicator_is_white_whatever_the_write_color() {
    // The underscore raster's densest row has coverage 246; blended with
    // full-brightness white that is exactly (246, 246, 246, 255), whatever
    // color the surrounding text is written in.
    let mut t = Terminal::new();
    t.put_char('a', [10, 10, 10]);
    let px = cell_pixel(t.frame(), 0, 1, 14, 0);
    assert_eq!(px, [246, 246, 246, 255]);
}
