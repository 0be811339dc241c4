//! Logical key events and the decoder that turns terminal input into them.
//!
//! The decoder is a state machine that takes one input event at a time
//! ([`DecoderState::feed`]); [`editor_read_key`] runs it over a recorded
//! stretch of input.

use vstd::prelude::*;

verus! {

/// A key as the editor understands it.
#[derive(PartialEq, Eq, Clone, Copy, Debug, Structural)]
pub enum EditorKey {
    Char(char),
    ArrowLeft,
    ArrowRight,
    ArrowUp,
    ArrowDown,
    PageUp,
    PageDown,
    Home,
    End,
    Delete,
    Backspace,
}

/// The escape byte that opens a multi-byte key sequence.
pub const ESCAPE: u8 = 0x1b;

/// The byte that terminals send for the backspace key.
pub const BACKSPACE_BYTE: u8 = 127;

pub const CTRL_F: char = '\u{06}';

pub const CTRL_H: char = '\u{08}';

pub const CTRL_L: char = '\u{0c}';

pub const CTRL_Q: char = '\u{11}';

pub const CTRL_S: char = '\u{13}';

pub const CTRL_T: char = '\u{14}';

/// The character a terminal sends when `k` is pressed together with Ctrl:
/// `k` with all but its five lowest bits cleared.
pub open spec fn ctrl_of(k: char) -> char {
    ((k as u32) & 0x1f) as char
}

/// The character a terminal sends when `k` is pressed together with Ctrl.
pub fn ctrl_key(k: char) -> (r: char)
    ensures
        r == ctrl_of(k),
        (r as u32) < 0x20,
{
    let code: u32 = k as u32;
    let low: u32 = code & 0x1f;
    assert(low < 0x20) by (bit_vector)
        requires
            low == code & 0x1f,
    ;
    let v: u8 = low as u8;
    v as char
}

/// The named control characters are the Ctrl forms of their letters.
pub proof fn lemma_ctrl_letters()
    ensures
        ctrl_of('f') == CTRL_F,
        ctrl_of('h') == CTRL_H,
        ctrl_of('l') == CTRL_L,
        ctrl_of('q') == CTRL_Q,
        ctrl_of('s') == CTRL_S,
        ctrl_of('t') == CTRL_T,
{
    assert(0x66u32 & 0x1f == 0x06) by (bit_vector);
    assert(0x68u32 & 0x1f == 0x08) by (bit_vector);
    assert(0x6cu32 & 0x1f == 0x0c) by (bit_vector);
    assert(0x71u32 & 0x1f == 0x11) by (bit_vector);
    assert(0x73u32 & 0x1f == 0x13) by (bit_vector);
    assert(0x74u32 & 0x1f == 0x14) by (bit_vector);
}

/// One event from the input source.
#[derive(PartialEq, Eq, Clone, Copy, Debug, Structural)]
pub enum Input {
    /// A byte arrived.
    Byte(u8),
    /// Nothing arrived within the read timeout.
    NoData,
    /// The source is closed for good.
    Closed,
}

/// Where the decoder stands inside a key sequence.
#[derive(PartialEq, Eq, Clone, Copy, Debug, Structural)]
pub enum DecoderState {
    /// Between keys.
    Idle,
    /// The escape byte was read.
    AwaitingBracketOrO,
    /// Escape and `[` were read.
    AwaitingCsiByte,
    /// Escape, `[` and the given digit were read.
    AwaitingTilde(u8),
    /// Escape and `O` were read.
    AwaitingSs3Byte,
}

/// What one input event gave.
#[derive(PartialEq, Eq, Clone, Copy, Debug, Structural)]
pub enum Decoded {
    /// No key yet: read on.
    Pending,
    /// A key is complete.
    Key(EditorKey),
    /// The input source is closed; no key can follow.
    Fatal,
}

/// What a stretch of input gave.
#[derive(PartialEq, Eq, Clone, Copy, Debug, Structural)]
pub enum KeyRead {
    /// The first key, and how many input events it took.
    Key { key: EditorKey, consumed: usize },
    /// The input ran out before a key was complete.
    Incomplete,
    /// The source was found closed between keys, at the given event.
    Closed { consumed: usize },
}

/// The key for the bare escape byte, to which every unrecognised sequence
/// degrades.
pub open spec fn escape_key() -> EditorKey {
    EditorKey::Char('\u{1b}')
}

/// The key for a byte outside any escape sequence.
pub open spec fn plain_key(b: u8) -> EditorKey {
    if b == BACKSPACE_BYTE {
        EditorKey::Backspace
    } else {
        EditorKey::Char(b as char)
    }
}

/// The byte is one of the digits `1` to `9`.
pub open spec fn is_csi_digit(b: u8) -> bool {
    0x31 <= b <= 0x39
}

/// The key for `ESC [` followed by the letter `b`.
pub open spec fn csi_letter_key(b: u8) -> EditorKey {
    if b == 0x41 {
        EditorKey::ArrowUp
    } else if b == 0x42 {
        EditorKey::ArrowDown
    } else if b == 0x43 {
        EditorKey::ArrowRight
    } else if b == 0x44 {
        EditorKey::ArrowLeft
    } else if b == 0x48 {
        EditorKey::Home
    } else if b == 0x46 {
        EditorKey::End
    } else {
        escape_key()
    }
}

/// The key for `ESC [`, the digit `d` and `~`.
pub open spec fn csi_digit_key(d: u8) -> EditorKey {
    if d == 0x31 || d == 0x37 {
        EditorKey::Home
    } else if d == 0x33 {
        EditorKey::Delete
    } else if d == 0x34 || d == 0x38 {
        EditorKey::End
    } else if d == 0x35 {
        EditorKey::PageUp
    } else if d == 0x36 {
        EditorKey::PageDown
    } else {
        escape_key()
    }
}

/// The key for `ESC O` followed by the letter `b`.
pub open spec fn ss3_letter_key(b: u8) -> EditorKey {
    if b == 0x48 {
        EditorKey::Home
    } else if b == 0x46 {
        EditorKey::End
    } else {
        escape_key()
    }
}

/// The transition table of the decoder: the state after `input`, and what
/// the input gave.
pub open spec fn step(state: DecoderState, input: Input) -> (DecoderState, Decoded) {
    match state {
        DecoderState::Idle => match input {
            Input::NoData => (DecoderState::Idle, Decoded::Pending),
            Input::Closed => (DecoderState::Idle, Decoded::Fatal),
            Input::Byte(b) => if b == ESCAPE {
                (DecoderState::AwaitingBracketOrO, Decoded::Pending)
            } else {
                (DecoderState::Idle, Decoded::Key(plain_key(b)))
            },
        },
        DecoderState::AwaitingBracketOrO => match input {
            Input::Byte(b) => if b == 0x5b {
                (DecoderState::AwaitingCsiByte, Decoded::Pending)
            } else if b == 0x4f {
                (DecoderState::AwaitingSs3Byte, Decoded::Pending)
            } else {
                (DecoderState::Idle, Decoded::Key(escape_key()))
            },
            _ => (DecoderState::Idle, Decoded::Key(escape_key())),
        },
        DecoderState::AwaitingCsiByte => match input {
            Input::Byte(b) => if is_csi_digit(b) {
                (DecoderState::AwaitingTilde(b), Decoded::Pending)
            } else {
                (DecoderState::Idle, Decoded::Key(csi_letter_key(b)))
            },
            _ => (DecoderState::Idle, Decoded::Key(escape_key())),
        },
        DecoderState::AwaitingTilde(d) => match input {
            Input::Byte(b) => if b == 0x7e {
                (DecoderState::Idle, Decoded::Key(csi_digit_key(d)))
            } else {
                (DecoderState::Idle, Decoded::Key(escape_key()))
            },
            _ => (DecoderState::Idle, Decoded::Key(escape_key())),
        },
        DecoderState::AwaitingSs3Byte => match input {
            Input::Byte(b) => (DecoderState::Idle, Decoded::Key(ss3_letter_key(b))),
            _ => (DecoderState::Idle, Decoded::Key(escape_key())),
        },
    }
}

/// What the decoder, in `state` before event `at`, makes of the events from
/// `at` on: the first key it completes and the number of events used up to
/// there, counted from the start of `inputs`.
pub open spec fn read_from(state: DecoderState, inputs: Seq<Input>, at: int) -> KeyRead
    decreases inputs.len() - at,
{
    if at < 0 || at >= inputs.len() {
        KeyRead::Incomplete
    } else {
        let (next, out) = step(state, inputs[at]);
        match out {
            Decoded::Pending => read_from(next, inputs, at + 1),
            Decoded::Key(key) => (KeyRead::Key { key, consumed: (at + 1) as usize }),
            Decoded::Fatal => (KeyRead::Closed { consumed: (at + 1) as usize }),
        }
    }
}

/// What a decoder that starts between keys makes of `inputs`.
pub open spec fn read_key(inputs: Seq<Input>) -> KeyRead {
    read_from(DecoderState::Idle, inputs, 0)
}

fn plain(b: u8) -> (key: EditorKey)
    ensures
        key == plain_key(b),
{
    if b == BACKSPACE_BYTE {
        EditorKey::Backspace
    } else {
        EditorKey::Char(b as char)
    }
}

fn csi_letter(b: u8) -> (key: EditorKey)
    ensures
        key == csi_letter_key(b),
{
    if b == 0x41 {
        EditorKey::ArrowUp
    } else if b == 0x42 {
        EditorKey::ArrowDown
    } else if b == 0x43 {
        EditorKey::ArrowRight
    } else if b == 0x44 {
        EditorKey::ArrowLeft
    } else if b == 0x48 {
        EditorKey::Home
    } else if b == 0x46 {
        EditorKey::End
    } else {
        EditorKey::Char('\u{1b}')
    }
}

fn csi_digit(d: u8) -> (key: EditorKey)
    ensures
        key == csi_digit_key(d),
{
    if d == 0x31 || d == 0x37 {
        EditorKey::Home
    } else if d == 0x33 {
        EditorKey::Delete
    } else if d == 0x34 || d == 0x38 {
        EditorKey::End
    } else if d == 0x35 {
        EditorKey::PageUp
    } else if d == 0x36 {
        EditorKey::PageDown
    } else {
        EditorKey::Char('\u{1b}')
    }
}

fn ss3_letter(b: u8) -> (key: EditorKey)
    ensures
        key == ss3_letter_key(b),
{
    if b == 0x48 {
        EditorKey::Home
    } else if b == 0x46 {
        EditorKey::End
    } else {
        EditorKey::Char('\u{1b}')
    }
}

impl DecoderState {
    /// Takes one input event: gives the state after it and what it
    /// completed.
    pub fn feed(self, input: Input) -> (r: (DecoderState, Decoded))
        ensures
            r == step(self, input),
    {
        let escape = EditorKey::Char('\u{1b}');
        match self {
            DecoderState::Idle => match input {
                Input::NoData => (DecoderState::Idle, Decoded::Pending),
                Input::Closed => (DecoderState::Idle, Decoded::Fatal),
                Input::Byte(b) => if b == ESCAPE {
                    (DecoderState::AwaitingBracketOrO, Decoded::Pending)
                } else {
                    (DecoderState::Idle, Decoded::Key(plain(b)))
                },
            },
            DecoderState::AwaitingBracketOrO => match input {
                Input::Byte(b) => if b == 0x5b {
                    (DecoderState::AwaitingCsiByte, Decoded::Pending)
                } else if b == 0x4f {
                    (DecoderState::AwaitingSs3Byte, Decoded::Pending)
                } else {
                    (DecoderState::Idle, Decoded::Key(escape))
                },
                _ => (DecoderState::Idle, Decoded::Key(escape)),
            },
            DecoderState::AwaitingCsiByte => match input {
                Input::Byte(b) => if 0x31 <= b && b <= 0x39 {
                    (DecoderState::AwaitingTilde(b), Decoded::Pending)
                } else {
                    (DecoderState::Idle, Decoded::Key(csi_letter(b)))
                },
                _ => (DecoderState::Idle, Decoded::Key(escape)),
            },
            DecoderState::AwaitingTilde(d) => match input {
                Input::Byte(b) => if b == 0x7e {
                    (DecoderState::Idle, Decoded::Key(csi_digit(d)))
                } else {
                    (DecoderState::Idle, Decoded::Key(escape))
                },
                _ => (DecoderState::Idle, Decoded::Key(escape)),
            },
            DecoderState::AwaitingSs3Byte => match input {
                Input::Byte(b) => (DecoderState::Idle, Decoded::Key(ss3_letter(b))),
                _ => (DecoderState::Idle, Decoded::Key(escape)),
            },
        }
    }
}

/// Decodes the first key of `inputs`, starting between keys.
pub fn editor_read_key(inputs: &Vec<Input>) -> (r: KeyRead)
    ensures
        r == read_key(inputs@),
{
    let mut state = DecoderState::Idle;
    let mut at: usize = 0;
    while at < inputs.len()
        invariant
            at <= inputs.len(),
            read_key(inputs@) == read_from(state, inputs@, at as int),
        decreases inputs.len() - at,
    {
        let (next, out) = state.feed(inputs[at]);
        at += 1;
        match out {
            Decoded::Pending => {
                state = next;
            },
            Decoded::Key(key) => {
                return KeyRead::Key { key, consumed: at };
            },
            Decoded::Fatal => {
                return KeyRead::Closed { consumed: at };
            },
        }
    }
    KeyRead::Incomplete
}

/// Events without data between keys are passed over.
pub proof fn lemma_no_data_is_skipped(inputs: Seq<Input>)
    requires
        inputs.len() > 0,
        inputs[0] == Input::NoData,
    ensures
        read_key(inputs) == read_from(DecoderState::Idle, inputs, 1),
{
}

/// A byte other than escape is a key by itself.
pub proof fn lemma_plain_byte(inputs: Seq<Input>, b: u8)
    requires
        inputs.len() >= 1,
        inputs[0] == Input::Byte(b),
        b != ESCAPE,
    ensures
        read_key(inputs) == (KeyRead::Key { key: plain_key(b), consumed: 1 }),
{
}

/// `ESC [ d ~` with a digit `d` is the key of that digit; with anything
/// else in place of `~` it is the bare escape key.
pub proof fn lemma_csi_digit_sequence(inputs: Seq<Input>, d: u8)
    requires
        inputs.len() >= 4,
        inputs[0] == Input::Byte(ESCAPE),
        inputs[1] == Input::Byte(0x5b),
        inputs[2] == Input::Byte(d),
        is_csi_digit(d),
    ensures
        read_key(inputs) == (KeyRead::Key {
            key: if inputs[3] == Input::Byte(0x7e) {
                csi_digit_key(d)
            } else {
                escape_key()
            },
            consumed: 4,
        }),
{
    reveal_with_fuel(read_from, 5);
}

/// `ESC [ b` with a byte `b` that is no digit from 1 to 9 is the key of the
/// letter `b`; `ESC O b` likewise.
pub proof fn lemma_letter_sequence(inputs: Seq<Input>, b: u8)
    requires
        inputs.len() >= 3,
        inputs[0] == Input::Byte(ESCAPE),
        inputs[1] == Input::Byte(0x5b) || inputs[1] == Input::Byte(0x4f),
        inputs[2] == Input::Byte(b),
        inputs[1] == Input::Byte(0x5b) ==> !is_csi_digit(b),
    ensures
        read_key(inputs) == (KeyRead::Key {
            key: if inputs[1] == Input::Byte(0x5b) {
                csi_letter_key(b)
            } else {
                ss3_letter_key(b)
            },
            consumed: 3,
        }),
{
    reveal_with_fuel(read_from, 4);
}

/// An escape byte followed by anything but `[` or `O`, or by no data, is the
/// bare escape key.
pub proof fn lemma_bare_escape(inputs: Seq<Input>)
    requires
        inputs.len() >= 2,
        inputs[0] == Input::Byte(ESCAPE),
        inputs[1] != Input::Byte(0x5b),
        inputs[1] != Input::Byte(0x4f),
    ensures
        read_key(inputs) == (KeyRead::Key { key: escape_key(), consumed: 2 }),
{
    reveal_with_fuel(read_from, 3);
}

/// A sequence that breaks off after `ESC [` or `ESC O`, because the next
/// read gives no byte, is the bare escape key.
pub proof fn lemma_broken_sequence(inputs: Seq<Input>)
    requires
        inputs.len() >= 3,
        inputs[0] == Input::Byte(ESCAPE),
        inputs[1] == Input::Byte(0x5b) || inputs[1] == Input::Byte(0x4f),
        inputs[2] == Input::NoData || inputs[2] == Input::Closed,
    ensures
        read_key(inputs) == (KeyRead::Key { key: escape_key(), consumed: 3 }),
{
    reveal_with_fuel(read_from, 4);
}

} // verus!
