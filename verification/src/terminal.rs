//! Decoding the terminal's raw byte stream into [`Event`]s.
//!
//! The decoder is a state machine fed one byte at a time: control bytes
//! become events directly; an escape byte opens escape-sequence decoding
//! (`ESC O`, `ESC [`, and the numeric forms ending in `~`); any other
//! byte starts UTF-8 reassembly, which emits a character as soon as the
//! collected bytes are exactly one whole scalar, and gives up after four
//! bytes. Decoding is total and bounded: every state reaches an event
//! within a fixed number of bytes ([`Decoder::budget`] shrinks at every
//! pending step), so the decoder never hangs on malformed input, and an
//! unrecognized sequence is the harmless [`Event::Unrecognized`].

use vstd::prelude::*;

use crate::common::Event;

verus! {

/// The terminal's line-discipline setting: as found at startup, or the
/// raw byte-by-byte mode the decoder needs.
#[derive(Clone, Copy, PartialEq, Eq, Structural, Debug)]
pub enum TerminalState {
    Initial,
    Custom,
}

/// The decoder's state between bytes. The UTF-8 states carry the bytes
/// collected so far and their count (1 to 3).
#[derive(Clone, Copy, PartialEq, Eq, Structural, Debug)]
pub enum Decoder {
    /// No partial sequence.
    Start,
    /// An escape byte was read.
    Esc,
    /// `ESC O`: a function-key sequence.
    EscO,
    /// `ESC [`: a control-sequence introducer.
    Csi,
    /// `ESC [ [`: the linux-console function-key form.
    CsiBracket,
    /// `ESC [` then one digit; a `~` ends it, a second digit extends it.
    CsiDigit(u8),
    /// `ESC [` then two digits; only a `~` can end it.
    CsiDigits(u8, u8),
    /// Reassembling one UTF-8 scalar.
    Utf8(u8, u8, u8, u8),
    /// Reassembling one UTF-8 scalar that will be wrapped in `Alt`.
    AltUtf8(u8, u8, u8, u8),
}

/// What feeding one byte yields: another byte is needed, or an event.
#[derive(Clone, Copy, PartialEq, Eq, Structural, Debug)]
pub enum Step {
    Pending(Decoder),
    Done(Event),
}

/// The bytes a UTF-8 state has collected.
pub open spec fn collected(b0: u8, b1: u8, b2: u8, cnt: u8) -> Seq<u8> {
    if cnt <= 1 {
        seq![b0]
    } else if cnt == 2 {
        seq![b0, b1]
    } else {
        seq![b0, b1, b2]
    }
}

/// The collected bytes extended by `b` encode exactly one whole scalar.
pub open spec fn utf8_complete(bytes: Seq<u8>) -> bool {
    vstd::utf8::valid_first_scalar(bytes) && vstd::utf8::length_of_first_scalar(bytes)
        == bytes.len()
}

/// The event a completed UTF-8 sequence decodes to.
pub open spec fn utf8_char(bytes: Seq<u8>) -> char
    recommends
        utf8_complete(bytes),
{
    vstd::utf8::decode_first_scalar(bytes) as char
}

/// One UTF-8 reassembly step: emit on a whole scalar, give up after four
/// bytes, otherwise keep collecting.
pub open spec fn utf8_step_spec(b0: u8, b1: u8, b2: u8, cnt: u8, b: u8, alt: bool) -> Step
    recommends
        1 <= cnt <= 3,
{
    let bytes = collected(b0, b1, b2, cnt).push(b);
    if utf8_complete(bytes) {
        if alt {
            Step::Done(Event::Alt(utf8_char(bytes)))
        } else {
            Step::Done(Event::Char(utf8_char(bytes)))
        }
    } else if cnt >= 3 {
        Step::Done(Event::Unrecognized)
    } else if alt {
        Step::Pending(
            Decoder::AltUtf8(
                b0,
                if cnt == 1 {
                    b
                } else {
                    b1
                },
                if cnt == 2 {
                    b
                } else {
                    b2
                },
                (cnt + 1) as u8,
            ),
        )
    } else {
        Step::Pending(
            Decoder::Utf8(
                b0,
                if cnt == 1 {
                    b
                } else {
                    b1
                },
                if cnt == 2 {
                    b
                } else {
                    b2
                },
                (cnt + 1) as u8,
            ),
        )
    }
}

/// The event of a one-digit `ESC [ d ~` sequence.
pub open spec fn csi_digit_event(d: u8) -> Event {
    if d == 49 || d == 55 {  // '1', '7'
        Event::Home
    } else if d == 50 {  // '2'
        Event::Insert
    } else if d == 51 {  // '3'
        Event::Delete
    } else if d == 52 || d == 56 {  // '4', '8'
        Event::End
    } else if d == 53 {  // '5'
        Event::PageUp
    } else if d == 54 {  // '6'
        Event::PageDown
    } else {
        Event::Unrecognized
    }
}

/// The event of a two-digit `ESC [ d d ~` sequence: the function keys,
/// whose numeric codes skip 16 and 22.
pub open spec fn csi_digits_event(d1: u8, d2: u8) -> Event {
    if d1 == 49 {  // '1'
        if 49 <= d2 <= 53 {  // "11".."15" -> F1..F5
            Event::Function((d2 - 48) as u8)
        } else if 55 <= d2 <= 57 {  // "17".."19" -> F6..F8
            Event::Function((d2 - 49) as u8)
        } else {
            Event::Unrecognized
        }
    } else if d1 == 50 {  // '2'
        if d2 == 48 {  // "20" -> F9
            Event::Function(9)
        } else if d2 == 49 {  // "21" -> F10
            Event::Function(10)
        } else if d2 == 51 {  // "23" -> F11
            Event::Function(11)
        } else if d2 == 52 {  // "24" -> F12
            Event::Function(12)
        } else {
            Event::Unrecognized
        }
    } else {
        Event::Unrecognized
    }
}

/// The whole decode table: what each state does with one byte.
pub open spec fn feed_spec(d: Decoder, b: u8) -> Step {
    match d {
        Decoder::Start => {
            if b == 10 || b == 13 {  // '\n', '\r'
                Step::Done(Event::Return)
            } else if b == 9 {  // '\t'
                Step::Done(Event::Tab)
            } else if b == 0x7f {
                Step::Done(Event::Backspace)
            } else if b == 0x1b {
                Step::Pending(Decoder::Esc)
            } else if b == 0 {
                Step::Done(Event::Null)
            } else if 1 <= b <= 0x1f {
                Step::Done(Event::Ctrl(((b - 1) + 65) as char))
            } else if b <= 0x7e {
                Step::Done(Event::Char(b as char))
            } else {
                Step::Pending(Decoder::Utf8(b, 0, 0, 1))
            }
        },
        Decoder::Esc => {
            if b == 79 {  // 'O'
                Step::Pending(Decoder::EscO)
            } else if b == 91 {  // '['
                Step::Pending(Decoder::Csi)
            } else if b <= 0x7f {
                Step::Done(Event::Alt(b as char))
            } else {
                Step::Pending(Decoder::AltUtf8(b, 0, 0, 1))
            }
        },
        Decoder::EscO => {
            if 80 <= b <= 83 {  // 'P'..'S' -> F1..F4
                Step::Done(Event::Function((b - 79) as u8))
            } else {
                Step::Done(Event::Unrecognized)
            }
        },
        Decoder::Csi => {
            if b == 91 {  // '['
                Step::Pending(Decoder::CsiBracket)
            } else if b == 65 {  // 'A'
                Step::Done(Event::Up)
            } else if b == 66 {  // 'B'
                Step::Done(Event::Down)
            } else if b == 67 {  // 'C'
                Step::Done(Event::Right)
            } else if b == 68 {  // 'D'
                Step::Done(Event::Left)
            } else if b == 70 {  // 'F'
                Step::Done(Event::End)
            } else if b == 72 {  // 'H'
                Step::Done(Event::Home)
            } else if 49 <= b <= 56 {  // '1'..'8'
                Step::Pending(Decoder::CsiDigit(b))
            } else {
                Step::Done(Event::Unrecognized)
            }
        },
        Decoder::CsiBracket => {
            if 65 <= b <= 69 {  // 'A'..'E' -> F1..F5
                Step::Done(Event::Function((b - 64) as u8))
            } else {
                Step::Done(Event::Unrecognized)
            }
        },
        Decoder::CsiDigit(d1) => {
            if b == 126 {  // '~'
                Step::Done(csi_digit_event(d1))
            } else {
                Step::Pending(Decoder::CsiDigits(d1, b))
            }
        },
        Decoder::CsiDigits(d1, d2) => {
            if b == 126 {  // '~'
                Step::Done(csi_digits_event(d1, d2))
            } else {
                Step::Done(Event::Unrecognized)
            }
        },
        Decoder::Utf8(b0, b1, b2, cnt) => utf8_step_spec(b0, b1, b2, cnt, b, false),
        Decoder::AltUtf8(b0, b1, b2, cnt) => utf8_step_spec(b0, b1, b2, cnt, b, true),
    }
}

/// Every function-key event the decoder yields carries a number from 1 to
/// 12, whatever state it was in and whatever byte arrived.
pub proof fn lemma_function_key_range(d: Decoder, b: u8)
    ensures
        feed_spec(d, b) matches Step::Done(Event::Function(n)) ==> 1 <= n <= 12,
{
}

impl Decoder {
    /// How many further bytes a state can consume before it must yield an
    /// event; every pending step strictly shrinks it.
    pub open spec fn budget(self) -> nat {
        match self {
            Decoder::Start => 5,
            Decoder::Esc => 4,
            Decoder::EscO => 1,
            Decoder::Csi => 3,
            Decoder::CsiBracket => 1,
            Decoder::CsiDigit(_) => 2,
            Decoder::CsiDigits(_, _) => 1,
            Decoder::Utf8(_, _, _, cnt) => if cnt < 4 {
                (4 - cnt) as nat
            } else {
                0
            },
            Decoder::AltUtf8(_, _, _, cnt) => if cnt < 4 {
                (4 - cnt) as nat
            } else {
                0
            },
        }
    }

    /// A fresh decoder, before any byte.
    pub fn new() -> (res: Decoder)
        ensures
            res == Decoder::Start,
    {
        Decoder::Start
    }

    /// Feeds one byte. The result is exactly the decode table's entry,
    /// and a pending result always has a smaller byte budget, so decoding
    /// one event always ends within a bounded number of bytes.
    pub fn feed(self, b: u8) -> (r: Step)
        ensures
            r == feed_spec(self, b),
            r matches Step::Pending(d2) ==> d2.budget() < self.budget(),
    {
        match self {
            Decoder::Start => {
                if b == 10 || b == 13 {
                    Step::Done(Event::Return)
                } else if b == 9 {
                    Step::Done(Event::Tab)
                } else if b == 0x7f {
                    Step::Done(Event::Backspace)
                } else if b == 0x1b {
                    Step::Pending(Decoder::Esc)
                } else if b == 0 {
                    Step::Done(Event::Null)
                } else if b <= 0x1f {
                    Step::Done(Event::Ctrl(((b - 1) + 65) as char))
                } else if b <= 0x7e {
                    Step::Done(Event::Char(b as char))
                } else {
                    Step::Pending(Decoder::Utf8(b, 0, 0, 1))
                }
            },
            Decoder::Esc => {
                if b == 79 {
                    Step::Pending(Decoder::EscO)
                } else if b == 91 {
                    Step::Pending(Decoder::Csi)
                } else if b <= 0x7f {
                    Step::Done(Event::Alt(b as char))
                } else {
                    Step::Pending(Decoder::AltUtf8(b, 0, 0, 1))
                }
            },
            Decoder::EscO => {
                if 80 <= b && b <= 83 {
                    Step::Done(Event::Function(b - 79))
                } else {
                    Step::Done(Event::Unrecognized)
                }
            },
            Decoder::Csi => {
                if b == 91 {
                    Step::Pending(Decoder::CsiBracket)
                } else if b == 65 {
                    Step::Done(Event::Up)
                } else if b == 66 {
                    Step::Done(Event::Down)
                } else if b == 67 {
                    Step::Done(Event::Right)
                } else if b == 68 {
                    Step::Done(Event::Left)
                } else if b == 70 {
                    Step::Done(Event::End)
                } else if b == 72 {
                    Step::Done(Event::Home)
                } else if 49 <= b && b <= 56 {
                    Step::Pending(Decoder::CsiDigit(b))
                } else {
                    Step::Done(Event::Unrecognized)
                }
            },
            Decoder::CsiBracket => {
                if 65 <= b && b <= 69 {
                    Step::Done(Event::Function(b - 64))
                } else {
                    Step::Done(Event::Unrecognized)
                }
            },
            Decoder::CsiDigit(d1) => {
                if b == 126 {
                    Step::Done(csi_digit_exec(d1))
                } else {
                    Step::Pending(Decoder::CsiDigits(d1, b))
                }
            },
            Decoder::CsiDigits(d1, d2) => {
                if b == 126 {
                    Step::Done(csi_digits_exec(d1, d2))
                } else {
                    Step::Done(Event::Unrecognized)
                }
            },
            Decoder::Utf8(b0, b1, b2, cnt) => utf8_step(b0, b1, b2, cnt, b, false),
            Decoder::AltUtf8(b0, b1, b2, cnt) => utf8_step(b0, b1, b2, cnt, b, true),
        }
    }
}

fn csi_digit_exec(d: u8) -> (r: Event)
    ensures
        r == csi_digit_event(d),
{
    if d == 49 || d == 55 {
        Event::Home
    } else if d == 50 {
        Event::Insert
    } else if d == 51 {
        Event::Delete
    } else if d == 52 || d == 56 {
        Event::End
    } else if d == 53 {
        Event::PageUp
    } else if d == 54 {
        Event::PageDown
    } else {
        Event::Unrecognized
    }
}

fn csi_digits_exec(d1: u8, d2: u8) -> (r: Event)
    ensures
        r == csi_digits_event(d1, d2),
{
    if d1 == 49 {
        if 49 <= d2 && d2 <= 53 {
            Event::Function(d2 - 48)
        } else if 55 <= d2 && d2 <= 57 {
            Event::Function(d2 - 49)
        } else {
            Event::Unrecognized
        }
    } else if d1 == 50 {
        if d2 == 48 {
            Event::Function(9)
        } else if d2 == 49 {
            Event::Function(10)
        } else if d2 == 51 {
            Event::Function(11)
        } else if d2 == 52 {
            Event::Function(12)
        } else {
            Event::Unrecognized
        }
    } else {
        Event::Unrecognized
    }
}

/// Relies on std's `char::from_u32`: yields the character for exactly the
/// Unicode scalar values (not a surrogate, at most 0x10FFFF), and nothing
/// otherwise.
#[verifier::external_body]
fn char_from_u32(v: u32) -> (r: Option<char>)
    ensures
        r is Some <==> vstd::utf8::is_scalar(v),
        r matches Some(c) ==> c as u32 == v,
{
    char::from_u32(v)
}

/// One UTF-8 reassembly step on the collected bytes plus the new byte.
fn utf8_step(b0: u8, b1: u8, b2: u8, cnt: u8, b: u8, alt: bool) -> (r: Step)
    ensures
        r == utf8_step_spec(b0, b1, b2, cnt, b, alt),
        r matches Step::Pending(d2) ==> d2.budget() < Decoder::Utf8(b0, b1, b2, cnt).budget()
            && d2.budget() < Decoder::AltUtf8(b0, b1, b2, cnt).budget(),
{
    let ghost bytes = collected(b0, b1, b2, cnt).push(b);
    // The collected bytes, oldest first, with the new byte last, and how
    // many of them there are (2 to 4).
    let (n, c0, c1, c2, c3): (u8, u8, u8, u8, u8) = if cnt <= 1 {
        (2, b0, b, 0, 0)
    } else if cnt == 2 {
        (3, b0, b1, b, 0)
    } else {
        (4, b0, b1, b2, b)
    };
    proof {
        assert(bytes.len() == n);
        assert(bytes[0] == c0);
        assert(bytes[1] == c1);
        if n >= 3 {
            assert(bytes[2] == c2);
        }
        if n >= 4 {
            assert(bytes[3] == c3);
        }
    }
    let scalar: Option<u32> = if n == 2 {
        if 0xc0 <= c0 && c0 <= 0xdf && is_cont(c1) {
            let v = ((c0 & 0x1f) as u32) << 6 | ((c1 & 0x3f) as u32);
            if 0x80 <= v {
                Some(v)
            } else {
                None
            }
        } else {
            None
        }
    } else if n == 3 {
        if 0xe0 <= c0 && c0 <= 0xef && is_cont(c1) && is_cont(c2) {
            let v = ((c0 & 0x0f) as u32) << 12 | ((c1 & 0x3f) as u32) << 6 | ((c2 & 0x3f) as u32);
            if 0x800 <= v && !(0xd800 <= v && v <= 0xdfff) {
                Some(v)
            } else {
                None
            }
        } else {
            None
        }
    } else {
        if 0xf0 <= c0 && c0 <= 0xf7 && is_cont(c1) && is_cont(c2) && is_cont(c3) {
            let v = ((c0 & 0x07) as u32) << 18 | ((c1 & 0x3f) as u32) << 12 | ((c2 & 0x3f) as u32)
                << 6 | ((c3 & 0x3f) as u32);
            if 0x10000 <= v && v <= 0x10ffff {
                Some(v)
            } else {
                None
            }
        } else {
            None
        }
    };
    proof {
        assert((((c0 & 0x1f) as u32) << 6 | ((c1 & 0x3f) as u32)) <= 0x7ff) by (bit_vector);
        assert((((c0 & 0x0f) as u32) << 12 | ((c1 & 0x3f) as u32) << 6 | ((c2 & 0x3f) as u32))
            <= 0xffff) by (bit_vector);
        assert(scalar is Some <==> utf8_complete(bytes));
    }
    match scalar {
        Some(v) => {
            proof {
                assert(v == vstd::utf8::decode_first_scalar(bytes));
                assert(vstd::utf8::is_scalar(v)) by {
                    lemma_complete_shape(bytes);
                }
            }
            match char_from_u32(v) {
                Some(c) => {
                    proof {
                        vstd::utf8::char_u32_cast(c, v);
                    }
                    if alt {
                        Step::Done(Event::Alt(c))
                    } else {
                        Step::Done(Event::Char(c))
                    }
                },
                None => {
                    proof {
                        assert(false);
                    }
                    Step::Done(Event::Unrecognized)
                },
            }
        },
        None => {
            if cnt >= 3 {
                Step::Done(Event::Unrecognized)
            } else if alt {
                Step::Pending(
                    Decoder::AltUtf8(
                        b0,
                        if cnt == 1 {
                            b
                        } else {
                            b1
                        },
                        if cnt == 2 {
                            b
                        } else {
                            b2
                        },
                        cnt + 1,
                    ),
                )
            } else {
                Step::Pending(
                    Decoder::Utf8(
                        b0,
                        if cnt == 1 {
                            b
                        } else {
                            b1
                        },
                        if cnt == 2 {
                            b
                        } else {
                            b2
                        },
                        cnt + 1,
                    ),
                )
            }
        },
    }
}

fn is_cont(b: u8) -> (r: bool)
    ensures
        r == vstd::utf8::is_continuation_byte(b),
{
    0x80 <= b && b <= 0xbf
}

/// A byte sequence of length 1 to 4 is exactly one whole scalar iff its
/// lead byte announces that length, its continuation bytes fit, and the
/// decoded codepoint is neither overlong nor a surrogate; the scalar is
/// then in range for a character.
proof fn lemma_complete_shape(bytes: Seq<u8>)
    requires
        1 <= bytes.len() <= 4,
    ensures
        utf8_complete(bytes) ==> vstd::utf8::is_scalar(vstd::utf8::decode_first_scalar(bytes)),
{
    if utf8_complete(bytes) {
        let v = vstd::utf8::decode_first_scalar(bytes);
        let len = vstd::utf8::length_of_first_scalar(bytes);
        assert(vstd::utf8::not_surrogate(v));
        if len == 1 {
            let b0 = bytes[0];
            assert(v < 0xd800) by (bit_vector)
                requires
                    v == (b0 & 0x7f) as u32,
            ;
        } else if len == 2 {
            let b0 = bytes[0];
            let b1 = bytes[1];
            assert(v < 0xd800) by (bit_vector)
                requires
                    v == ((b0 & 0x1f) as u32) << 6 | ((b1 & 0x3f) as u32),
            ;
        } else if len == 3 {
            let b0 = bytes[0];
            let b1 = bytes[1];
            let b2 = bytes[2];
            assert(v <= 0xffff) by (bit_vector)
                requires
                    v == ((b0 & 0x0f) as u32) << 12 | ((b1 & 0x3f) as u32) << 6 | ((b2
                        & 0x3f) as u32),
            ;
        } else {
            assert(v <= 0x10ffff);
        }
    }
}

} // verus!
