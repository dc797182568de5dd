use rush::common::Event;
use rush::terminal::{Decoder, Step};

/// Feeds the bytes from a fresh decoder, expecting exactly one event at
/// the last byte.
fn decode(bytes: &[u8]) -> Event {
    let mut d = Decoder::new();
    for (i, b) in bytes.iter().enumerate() {
        match d.feed(*b) {
            Step::Pending(next) => {
                assert!(i + 1 < bytes.len(), "decoder still pending after all bytes");
                d = next;
            },
            Step::Done(ev) => {
                assert_eq!(i + 1, bytes.len(), "decoder finished early");
                return ev;
            },
        }
    }
    unreachable!()
}

#[test]
fn plain_bytes() {
    assert_eq!(decode(b"a"), Event::Char('a'));
    assert_eq!(decode(b"Z"), Event::Char('Z'));
    assert_eq!(decode(b" "), Event::Char(' '));
    assert_eq!(decode(b"\n"), Event::Return);
    assert_eq!(decode(b"\r"), Event::Return);
    assert_eq!(decode(b"\t"), Event::Tab);
    assert_eq!(decode(&[0x7f]), Event::Backspace);
    assert_eq!(decode(&[0x00]), Event::Null);
}

#[test]
fn control_bytes() {
    assert_eq!(decode(&[0x01]), Event::Ctrl('A'));
    assert_eq!(decode(&[0x03]), Event::Ctrl('C'));
    assert_eq!(decode(&[0x04]), Event::Ctrl('D'));
    assert_eq!(decode(&[0x0c]), Event::Ctrl('L'));
    assert_eq!(decode(&[0x1a]), Event::Ctrl('Z'));
}

#[test]
fn arrow_and_cursor_keys() {
    assert_eq!(decode(b"\x1b[A"), Event::Up);
    assert_eq!(decode(b"\x1b[B"), Event::Down);
    assert_eq!(decode(b"\x1b[C"), Event::Right);
    assert_eq!(decode(b"\x1b[D"), Event::Left);
    assert_eq!(decode(b"\x1b[F"), Event::End);
    assert_eq!(decode(b"\x1b[H"), Event::Home);
}

#[test]
fn function_keys() {
    assert_eq!(decode(b"\x1bOP"), Event::Function(1));
    assert_eq!(decode(b"\x1bOS"), Event::Function(4));
    assert_eq!(decode(b"\x1b[[A"), Event::Function(1));
    assert_eq!(decode(b"\x1b[[E"), Event::Function(5));
    assert_eq!(decode(b"\x1b[11~"), Event::Function(1));
    assert_eq!(decode(b"\x1b[15~"), Event::Function(5));
    assert_eq!(decode(b"\x1b[17~"), Event::Function(6));
    assert_eq!(decode(b"\x1b[21~"), Event::Function(10));
    assert_eq!(decode(b"\x1b[23~"), Event::Function(11));
    assert_eq!(decode(b"\x1b[24~"), Event::Function(12));
    // The numeric code table skips 16 and 22.
    assert_eq!(decode(b"\x1b[16~"), Event::Unrecognized);
    assert_eq!(decode(b"\x1b[22~"), Event::Unrecognized);
}

#[test]
fn numeric_escape_sequences() {
    assert_eq!(decode(b"\x1b[1~"), Event::Home);
    assert_eq!(decode(b"\x1b[7~"), Event::Home);
    assert_eq!(decode(b"\x1b[2~"), Event::Insert);
    assert_eq!(decode(b"\x1b[3~"), Event::Delete);
    assert_eq!(decode(b"\x1b[4~"), Event::End);
    assert_eq!(decode(b"\x1b[8~"), Event::End);
    assert_eq!(decode(b"\x1b[5~"), Event::PageUp);
    assert_eq!(decode(b"\x1b[6~"), Event::PageDown);
}

#[test]
fn malformed_escapes_are_harmless() {
    assert_eq!(decode(b"\x1b[9"), Event::Unrecognized);
    assert_eq!(decode(b"\x1bOx"), Event::Unrecognized);
    assert_eq!(decode(b"\x1b[[z"), Event::Unrecognized);
    assert_eq!(decode(b"\x1b[13x"), Event::Unrecognized);
}

#[test]
fn alt_keys() {
    assert_eq!(decode(b"\x1ba"), Event::Alt('a'));
    assert_eq!(decode(&[0x1b, 0xc3, 0xa9]), Event::Alt('\u{e9}'));
}

#[test]
fn utf8_characters() {
    assert_eq!(decode(&[0xc3, 0xa9]), Event::Char('\u{e9}'));
    assert_eq!(decode(&[0xe2, 0x82, 0xac]), Event::Char('\u{20ac}'));
    assert_eq!(decode(&[0xf0, 0x9f, 0x98, 0x80]), Event::Char('\u{1f600}'));
}

#[test]
fn invalid_utf8_gives_up_after_four_bytes() {
    // A lone continuation byte can never start a scalar; after four bytes
    // the decoder reports one unrecognized event.
    assert_eq!(decode(&[0x80, 0x41, 0x41, 0x41]), Event::Unrecognized);
    // An overlong two-byte encoding of an ASCII value is rejected too.
    assert_eq!(decode(&[0xc0, 0x80, 0x41, 0x41]), Event::Unrecognized);
}

#[test]
fn decoding_is_bounded() {
    // From any fresh state, at most five bytes decide an event.
    let mut d = Decoder::new();
    let bytes = [0x1b, b'[', b'1', b'5', b'~'];
    let mut result = None;
    for b in bytes {
        match d.feed(b) {
            Step::Pending(next) => d = next,
            Step::Done(ev) => {
                result = Some(ev);
                break;
            },
        }
    }
    assert_eq!(result, Some(Event::Function(5)));
}
