use vstd::prelude::*;
use vstd::string::StringExecFns;
use crate::terminal::Event;

verus! {

/// Whether a byte sequence is valid UTF-8.
pub uninterp spec fn is_valid_utf8(bytes: Seq<u8>) -> bool;

/// The characters a valid UTF-8 byte sequence decodes to.
pub uninterp spec fn utf8_chars_of(bytes: Seq<u8>) -> Seq<char>;

/// Relies on String::from_utf8: it returns the decoded text exactly when the
/// bytes are valid UTF-8, and an error otherwise; the error case is returned
/// here as the error's display text.
#[verifier::external_body]
fn utf8_decode(bytes: &[u8]) -> (r: Result<String, String>)
    ensures
        r is Ok <==> is_valid_utf8(bytes@),
        r is Ok ==> r.unwrap()@ == utf8_chars_of(bytes@),
{
    match String::from_utf8(bytes.to_vec()) {
        Ok(text) => Ok(text),
        Err(utf8_error) => Err(format!("{utf8_error}")),
    }
}

/// The buffer the stdin assembler holds after it takes one keystroke: a
/// backspace pops the last buffered character, anything else is appended.
pub open spec fn assembled_buffer(buffer: Seq<char>, c: char) -> Seq<char> {
    if c == '\u{8}' {
        if buffer.len() == 0 {
            buffer
        } else {
            buffer.subrange(0, buffer.len() - 1)
        }
    } else {
        buffer.push(c)
    }
}

/// Assembles keystrokes into full lines for the child process's stdin:
/// nothing is forwarded until a line-feed arrives, and a backspace consumes
/// the previously buffered character instead of being forwarded.
pub struct LineAssembler {
    buffer: Vec<char>,
}

impl View for LineAssembler {
    type V = Seq<char>;

    closed spec fn view(&self) -> Seq<char> {
        self.buffer@
    }
}

impl LineAssembler {
    /// An assembler with an empty line buffer.
    pub fn new() -> (a: LineAssembler)
        ensures
            a@ == Seq::<char>::empty(),
    {
        LineAssembler { buffer: Vec::new() }
    }

    /// Takes one keystroke. A backspace pops the last buffered character (a
    /// no-op on an empty buffer) and anything else is buffered; on a
    /// line-feed the whole accumulated line, trailing line-feed included, is
    /// handed back in one piece and the buffer is cleared.
    pub fn push_key(&mut self, c: char) -> (line: Option<Vec<char>>)
        ensures
            c == '\n' ==> (line matches Some(l) && l@ == old(self)@.push('\n') && final(self)@
                == Seq::<char>::empty()),
            c != '\n' ==> line is None && final(self)@ == assembled_buffer(old(self)@, c),
    {
        if c == '\u{8}' {
            self.buffer.pop();
            return None;
        }
        self.buffer.push(c);
        if c == '\n' {
            let mut line: Vec<char> = Vec::new();
            core::mem::swap(&mut line, &mut self.buffer);
            Some(line)
        } else {
            None
        }
    }
}

/// The character a locally observed keystroke forwards to the stdin
/// assembler: carriage-return is normalized to line-feed, everything else
/// passes through unchanged.
pub fn normalize_keystroke(c: char) -> (r: char)
    ensures
        r == (if c == '\r' {
            '\n'
        } else {
            c
        }),
{
    if c == '\r' {
        '\n'
    } else {
        c
    }
}

/// Turns one chunk read from the child's stdout or stderr into the event the
/// display engine consumes: the decoded text in the stream's color, or, for
/// bytes that are not valid UTF-8, a diagnostic line in the error color
/// `(240, 80, 40)`.
pub fn decode_chunk(bytes: &[u8], color: [u8; 3]) -> (event: Event)
    ensures
        event matches Event::Output(_, _),
        is_valid_utf8(bytes@) ==> (event matches Event::Output(text, event_color) && text@
            == utf8_chars_of(bytes@) && event_color == color),
        !is_valid_utf8(bytes@) ==> (event matches Event::Output(text, event_color) && text@.len()
            >= "KERNEL ERROR: encountered a non-utf8 string: "@.len() && text@.subrange(
            0,
            "KERNEL ERROR: encountered a non-utf8 string: "@.len() as int,
        ) == "KERNEL ERROR: encountered a non-utf8 string: "@ && event_color@ == seq![
            240u8,
            80u8,
            40u8,
        ]),
{
    match utf8_decode(bytes) {
        Ok(text) => Event::Output(text, color),
        Err(detail) => {
            let message = String::from_str("KERNEL ERROR: encountered a non-utf8 string: ").concat(
                detail.as_str(),
            );
            proof {
                let prefix = "KERNEL ERROR: encountered a non-utf8 string: "@;
                assert(message@.subrange(0, prefix.len() as int) =~= prefix);
            }
            Event::Output(message, [240, 80, 40])
        },
    }
}

} // verus!
