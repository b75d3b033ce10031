use pixterm::bridge::{decode_chunk, normalize_keystroke, LineAssembler};
use pixterm::terminal::{Event, Terminal};

const ERROR_COLOR: [u8; 3] = [240, 80, 40];

#[test]
fn line_assembler_forwards_a_full_line_at_once() {
    let mut assembler = LineAssembler::new();
    for c in "echo hi".chars() {
        assert!(assembler.push_key(c).is_none());
    }
    let line = assembler.push_key('\n').expect("line-feed must flush the line");
    let text: String = line.into_iter().collect();
    assert_eq!(text, "echo hi\n");
}

#[test]
fn line_assembler_consumes_backspaces() {
    let mut assembler = LineAssembler::new();
    for c in "ab\u{8}\u{8}c".chars() {
        assert!(assembler.push_key(c).is_none());
    }
    let line = assembler.push_key('\n').unwrap();
    let text: String = line.into_iter().collect();
    assert_eq!(text, "c\n");
}

#[test]
fn line_assembler_ignores_backspace_on_empty_buffer() {
    let mut assembler = LineAssembler::new();
    assert!(assembler.push_key('\u{8}').is_none());
    assert!(assembler.push_key('x').is_none());
    let line = assembler.push_key('\n').unwrap();
    let text: String = line.into_iter().collect();
    assert_eq!(text, "x\n");
}

#[test]
fn line_assembler_starts_fresh_after_a_line() {
    let mut assembler = LineAssembler::new();
    assembler.push_key('a');
    assembler.push_key('\n');
    assembler.push_key('b');
    let line = assembler.push_key('\n').unwrap();
    let text: String = line.into_iter().collect();
    assert_eq!(text, "b\n");
}

#[test]
fn decode_chunk_passes_valid_utf8_through() {
    let color = [255, 255, 255];
    match decode_chunk("hi\n".as_bytes(), color) {
        Event::Output(text, event_color) => {
            assert_eq!(text, "hi\n");
            assert_eq!(event_color, color);
        }
        Event::CursorVisibility(_) => panic!("a chunk must decode to an output event"),
    }
}

#[test]
fn decode_chunk_reports_invalid_utf8_in_the_error_color() {
    let bytes = [0xffu8, 0xfe, 0x41];
    match decode_chunk(&bytes, [255, 255, 255]) {
        Event::Output(text, event_color) => {
            assert!(text.starts_with("KERNEL ERROR: encountered a non-utf8 string: "));
            assert_eq!(event_color, ERROR_COLOR);
        }
        Event::CursorVisibility(_) => panic!("a chunk must decode to an output event"),
    }
}

#[test]
fn handle_event_writes_output_like_put_string() {
    let color = [255, 150, 150];
    let mut by_event = Terminal::new();
    by_event.handle_event(Event::Output(String::from("warning\n"), color));
    let mut direct = Terminal::new();
    direct.put_string("warning\n", color);
    assert_eq!(by_event.frame(), direct.frame());
    assert_eq!((by_event.row(), by_event.column()), (direct.row(), direct.column()));
}

#[test]
fn handle_event_toggles_the_cursor_indicator() {
    let mut t = Terminal::new();
    let before = t.frame().clone();
    t.handle_event(Event::CursorVisibility(true));
    assert_ne!(t.frame(), &before);
    t.handle_event(Event::CursorVisibility(false));
    assert_eq!(t.frame(), &before);
}

#[test]
fn keystrokes_normalize_carriage_return_to_line_feed() {
    assert_eq!(normalize_keystroke('\r'), '\n');
    assert_eq!(normalize_keystroke('\n'), '\n');
    assert_eq!(normalize_keystroke('x'), 'x');
    assert_eq!(normalize_keystroke('\u{8}'), '\u{8}');
}
