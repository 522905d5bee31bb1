//! Keys: how they are read from the bytes of a terminal, and what they do.
use vstd::prelude::*;
use vstd::slice::slice_subrange;
use vstd::string::*;
use vstd::utf8::{decode_utf8, encode_scalar, encode_utf8, valid_utf8};

verus! {

#[derive(Clone, Copy, Debug, PartialEq, Eq, Structural)]
pub enum InputCode {
    Esc,
    Enter,
    Backspace,
    Char(char),
    Up,
    Down,
    PageUp,
    PageDown,
    Home,
    End,
    Left,
    Right,
    Tab,
}

#[derive(Clone, Copy, Debug, PartialEq, Eq, Structural)]
pub struct InputKey {
    pub code: InputCode,
    pub ctrl: bool,
}

pub open spec fn plain_key(code: InputCode) -> InputKey {
    InputKey { code, ctrl: false }
}

pub open spec fn ctrl_key(ch: char) -> InputKey {
    InputKey { code: InputCode::Char(ch), ctrl: true }
}

impl InputKey {
    pub fn new(code: InputCode) -> (r: Self)
        ensures
            r == plain_key(code),
    {
        InputKey { code, ctrl: false }
    }

    pub fn ctrl(ch: char) -> (r: Self)
        ensures
            r == ctrl_key(ch),
    {
        InputKey { code: InputCode::Char(ch), ctrl: true }
    }
}

// ---------------------------------------------------------------------------
// From bytes to keys
// ---------------------------------------------------------------------------

/// The number of bytes of the character that a byte begins; 0 if it begins
/// none.
pub open spec fn char_width(byte: u8) -> nat {
    if byte <= 0x7F {
        1
    } else if 0xC2 <= byte <= 0xDF {
        2
    } else if 0xE0 <= byte <= 0xEF {
        3
    } else if 0xF0 <= byte <= 0xF4 {
        4
    } else {
        0
    }
}

/// The key of an escape sequence, and its number of bytes.
pub open spec fn escape_sequence(bytes: Seq<u8>) -> Option<(InputCode, nat)> {
    if bytes.len() >= 3 && bytes[1] == 91 {
        let tilde = bytes.len() >= 4 && bytes[3] == 126;
        match bytes[2] {
            65u8 => Some((InputCode::Up, 3)),
            66u8 => Some((InputCode::Down, 3)),
            67u8 => Some((InputCode::Right, 3)),
            68u8 => Some((InputCode::Left, 3)),
            72u8 => Some((InputCode::Home, 3)),
            70u8 => Some((InputCode::End, 3)),
            _ => if !tilde {
                None
            } else if bytes[2] == 49 || bytes[2] == 55 {
                Some((InputCode::Home, 4))
            } else if bytes[2] == 52 || bytes[2] == 56 {
                Some((InputCode::End, 4))
            } else if bytes[2] == 53 {
                Some((InputCode::PageUp, 4))
            } else if bytes[2] == 54 {
                Some((InputCode::PageDown, 4))
            } else {
                None
            },
        }
    } else {
        None
    }
}

/// The key at the start of some bytes that begin with an escape character,
/// and its number of bytes. A sequence that is not known is an escape key.
pub open spec fn escape_key(bytes: Seq<u8>) -> (InputKey, nat) {
    match escape_sequence(bytes) {
        Some((code, used)) => (plain_key(code), used),
        None => (plain_key(InputCode::Esc), 1),
    }
}

/// The character at the start of some bytes, and the number of bytes that are
/// used up. A byte that belongs to no character is used up for nothing; a
/// character that is not complete is waited for.
pub open spec fn text_key(bytes: Seq<u8>) -> (Option<InputKey>, nat) {
    let width = char_width(bytes[0]);
    if width == 0 {
        (None, 1)
    } else if bytes.len() < width {
        (None, 0)
    } else if !valid_utf8(bytes.take(width as int)) {
        (None, 1)
    } else {
        (Some(plain_key(InputCode::Char(decode_utf8(bytes.take(width as int))[0]))), width)
    }
}

/// The key at the start of some bytes, and the number of bytes that are used
/// up.
pub open spec fn next_key(bytes: Seq<u8>) -> (Option<InputKey>, nat) {
    if bytes.len() == 0 {
        (None, 0)
    } else {
        let first = bytes[0];
        if first == 0x1B {
            (Some(escape_key(bytes).0), escape_key(bytes).1)
        } else if first == 13 {
            (Some(plain_key(InputCode::Enter)), 1)
        } else if first == 9 {
            (Some(plain_key(InputCode::Tab)), 1)
        } else if first == 0x7F {
            (Some(plain_key(InputCode::Backspace)), 1)
        } else if 1 <= first <= 0x1A {
            (Some(ctrl_key((first - 1 + 'a' as u32) as char)), 1)
        } else {
            text_key(bytes)
        }
    }
}

/// Calls `std::str::from_utf8`, which gives the text that bytes encode if they
/// are valid UTF-8, and an error if they are not.
#[verifier::external_body]
fn utf8_text(bytes: &[u8]) -> (r: Option<&str>)
    ensures
        match r {
            Some(text) => valid_utf8(bytes@) && text@ == decode_utf8(bytes@),
            None => !valid_utf8(bytes@),
        },
{
    std::str::from_utf8(bytes).ok()
}

/// Drops the first `n` bytes.
fn use_up(buffer: &mut Vec<u8>, n: usize)
    requires
        n <= old(buffer)@.len(),
    ensures
        final(buffer)@ == old(buffer)@.skip(n as int),
{
    let rest = buffer.split_off(n);
    assert(rest@ =~= old(buffer)@.skip(n as int));
    *buffer = rest;
}

fn utf8_char_width(byte: u8) -> (r: usize)
    ensures
        r == char_width(byte),
{
    if byte <= 0x7F {
        1
    } else if 0xC2 <= byte && byte <= 0xDF {
        2
    } else if 0xE0 <= byte && byte <= 0xEF {
        3
    } else if 0xF0 <= byte && byte <= 0xF4 {
        4
    } else {
        0
    }
}

fn parse_escape_input_key(buffer: &mut Vec<u8>) -> (r: InputKey)
    requires
        old(buffer)@.len() > 0,
    ensures
        r == escape_key(old(buffer)@).0,
        final(buffer)@ == old(buffer)@.skip(escape_key(old(buffer)@).1 as int),
{
    if buffer.len() >= 3 && buffer[1] == 91 {
        let tilde = buffer.len() >= 4 && buffer[3] == 126;
        let byte = buffer[2];
        let found = if byte == 65 {
            Some((InputCode::Up, 3usize))
        } else if byte == 66 {
            Some((InputCode::Down, 3usize))
        } else if byte == 67 {
            Some((InputCode::Right, 3usize))
        } else if byte == 68 {
            Some((InputCode::Left, 3usize))
        } else if byte == 72 {
            Some((InputCode::Home, 3usize))
        } else if byte == 70 {
            Some((InputCode::End, 3usize))
        } else if !tilde {
            None
        } else if byte == 49 || byte == 55 {
            Some((InputCode::Home, 4usize))
        } else if byte == 52 || byte == 56 {
            Some((InputCode::End, 4usize))
        } else if byte == 53 {
            Some((InputCode::PageUp, 4usize))
        } else if byte == 54 {
            Some((InputCode::PageDown, 4usize))
        } else {
            None
        };
        if let Some((code, used)) = found {
            use_up(buffer, used);
            return InputKey::new(code);
        }
    }
    use_up(buffer, 1);
    InputKey::new(InputCode::Esc)
}

fn parse_text_input_key(buffer: &mut Vec<u8>) -> (r: Option<InputKey>)
    requires
        old(buffer)@.len() > 0,
    ensures
        r == text_key(old(buffer)@).0,
        final(buffer)@ == old(buffer)@.skip(text_key(old(buffer)@).1 as int),
{
    let width = utf8_char_width(buffer[0]);
    if width == 0 {
        use_up(buffer, 1);
        return None;
    }
    if buffer.len() < width {
        assert(buffer@.skip(0) =~= buffer@);
        return None;
    }
    let head = slice_subrange(buffer.as_slice(), 0, width);
    assert(head@ =~= buffer@.take(width as int));
    let found = match utf8_text(head) {
        Some(text) => Some(text.get_char(0)),
        None => None,
    };
    match found {
        Some(ch) => {
            use_up(buffer, width);
            Some(InputKey::new(InputCode::Char(ch)))
        },
        None => {
            use_up(buffer, 1);
            None
        },
    }
}

/// Takes the next key from the bytes that have come from the terminal.
pub fn parse_next_input_key(buffer: &mut Vec<u8>) -> (r: Option<InputKey>)
    ensures
        r == next_key(old(buffer)@).0,
        final(buffer)@ == old(buffer)@.skip(next_key(old(buffer)@).1 as int),
{
    if buffer.len() == 0 {
        assert(buffer@.skip(0) =~= buffer@);
        return None;
    }
    let first = buffer[0];
    if first == 0x1B {
        Some(parse_escape_input_key(buffer))
    } else if first == 13 {
        use_up(buffer, 1);
        Some(InputKey::new(InputCode::Enter))
    } else if first == 9 {
        use_up(buffer, 1);
        Some(InputKey::new(InputCode::Tab))
    } else if first == 0x7F {
        use_up(buffer, 1);
        Some(InputKey::new(InputCode::Backspace))
    } else if 1 <= first && first <= 0x1A {
        use_up(buffer, 1);
        let letter: u8 = first - 1 + 97;
        Some(InputKey::ctrl(letter as char))
    } else {
        parse_text_input_key(buffer)
    }
}

/// A key uses up at least one byte and no more than there are. Bytes are left
/// as they are only where there are none, or where the last character is not
/// complete.
pub proof fn law_input_makes_progress(bytes: Seq<u8>)
    ensures
        next_key(bytes).1 <= bytes.len(),
        next_key(bytes).0 is Some ==> next_key(bytes).1 > 0,
        next_key(bytes).1 == 0 ==> bytes.len() < 4 && (bytes.len() > 0 ==> bytes.len() < char_width(
            bytes[0],
        )),
{
}

proof fn lemma_lead_byte(c: char)
    ensures
        encode_scalar(c as u32).len() > 0,
        char_width(encode_scalar(c as u32)[0]) == encode_scalar(c as u32).len(),
        encode_scalar(c as u32).len() == 1 ==> encode_scalar(c as u32)[0] == c as u32,
        encode_scalar(c as u32).len() > 1 ==> encode_scalar(c as u32)[0] >= 0xC2,
{
    let s = c as u32;
    if s <= 0x7F {
        assert((s & 0x7F) as u8 == s) by (bit_vector)
            requires
                s <= 0x7F,
        ;
    } else if s <= 0x7FF {
        assert(0xC2 <= (0xC0 | ((s >> 6) & 0x1F) as u8) <= 0xDF) by (bit_vector)
            requires
                0x80 <= s <= 0x7FF,
        ;
    } else if s <= 0xFFFF {
        assert(0xE0 <= (0xE0 | ((s >> 12) & 0x0F) as u8) <= 0xEF) by (bit_vector)
            requires
                0x800 <= s <= 0xFFFF,
        ;
    } else {
        assert(0xF0 <= (0xF0 | ((s >> 18) & 0x7) as u8) <= 0xF4) by (bit_vector)
            requires
                0x10000 <= s <= 0x10FFFF,
        ;
    }
}

/// A character that is typed comes out as that character, whatever follows
/// it, unless it is a control character that stands for another key.
pub proof fn law_typed_text_comes_out(c: char, rest: Seq<u8>)
    requires
        c as u32 == 0 || c as u32 > 0x1B,
        c as u32 != 0x7F,
    ensures
        next_key(encode_utf8(seq![c]) + rest) == (
            Some(plain_key(InputCode::Char(c))),
            encode_utf8(seq![c]).len(),
        ),
{
    let code = encode_scalar(c as u32);
    let typed = encode_utf8(seq![c]);
    let bytes = typed + rest;
    lemma_lead_byte(c);
    reveal_with_fuel(encode_utf8, 2);
    assert(seq![c].drop_first() =~= Seq::<char>::empty());
    assert(encode_utf8(Seq::<char>::empty()) =~= Seq::<u8>::empty());
    assert(typed =~= code);
    assert(bytes[0] == code[0]);
    assert(bytes.take(typed.len() as int) =~= typed);
    vstd::utf8::encode_utf8_valid_utf8(seq![c]);
    vstd::utf8::encode_utf8_decode_utf8(seq![c]);
}

/// The bytes that terminals send for single keys: Enter, Tab and Backspace, and
/// a letter with the control key held, by its place in the alphabet.
pub proof fn law_control_bytes(byte: u8, rest: Seq<u8>)
    ensures
        next_key(seq![13u8] + rest) == (Some(plain_key(InputCode::Enter)), 1nat),
        next_key(seq![9u8] + rest) == (Some(plain_key(InputCode::Tab)), 1nat),
        next_key(seq![127u8] + rest) == (Some(plain_key(InputCode::Backspace)), 1nat),
        1 <= byte <= 26 && byte != 9 && byte != 13 ==> next_key(seq![byte] + rest) == (
            Some(ctrl_key((96 + byte) as char)),
            1nat,
        ),
{
    assert((seq![13u8] + rest)[0] == 13);
    assert((seq![9u8] + rest)[0] == 9);
    assert((seq![127u8] + rest)[0] == 127);
    assert((seq![byte] + rest)[0] == byte);
}

/// The sequences that terminals send for the keys that move: an escape
/// character, a bracket, and a letter, or a digit and a tilde. An escape
/// character that stands alone is the escape key.
pub proof fn law_escape_sequences(rest: Seq<u8>)
    ensures
        next_key(seq![27u8, 91, 65] + rest) == (Some(plain_key(InputCode::Up)), 3nat),
        next_key(seq![27u8, 91, 66] + rest) == (Some(plain_key(InputCode::Down)), 3nat),
        next_key(seq![27u8, 91, 67] + rest) == (Some(plain_key(InputCode::Right)), 3nat),
        next_key(seq![27u8, 91, 68] + rest) == (Some(plain_key(InputCode::Left)), 3nat),
        next_key(seq![27u8, 91, 72] + rest) == (Some(plain_key(InputCode::Home)), 3nat),
        next_key(seq![27u8, 91, 70] + rest) == (Some(plain_key(InputCode::End)), 3nat),
        next_key(seq![27u8, 91, 49, 126] + rest) == (Some(plain_key(InputCode::Home)), 4nat),
        next_key(seq![27u8, 91, 55, 126] + rest) == (Some(plain_key(InputCode::Home)), 4nat),
        next_key(seq![27u8, 91, 52, 126] + rest) == (Some(plain_key(InputCode::End)), 4nat),
        next_key(seq![27u8, 91, 56, 126] + rest) == (Some(plain_key(InputCode::End)), 4nat),
        next_key(seq![27u8, 91, 53, 126] + rest) == (Some(plain_key(InputCode::PageUp)), 4nat),
        next_key(seq![27u8, 91, 54, 126] + rest) == (Some(plain_key(InputCode::PageDown)), 4nat),
        next_key(seq![27u8]) == (Some(plain_key(InputCode::Esc)), 1nat),
        rest.len() > 0 && rest[0] != 91 ==> next_key(seq![27u8] + rest) == (
            Some(plain_key(InputCode::Esc)),
            1nat,
        ),
{
    lemma_sequence(65, rest);
    lemma_sequence(66, rest);
    lemma_sequence(67, rest);
    lemma_sequence(68, rest);
    lemma_sequence(72, rest);
    lemma_sequence(70, rest);
    lemma_long_sequence(49, rest);
    lemma_long_sequence(55, rest);
    lemma_long_sequence(52, rest);
    lemma_long_sequence(56, rest);
    lemma_long_sequence(53, rest);
    lemma_long_sequence(54, rest);
    assert(seq![27u8][0] == 27);
    assert((seq![27u8] + rest)[0] == 27);
    if rest.len() > 0 {
        assert((seq![27u8] + rest)[1] == rest[0]);
    }
}

proof fn lemma_sequence(byte: u8, rest: Seq<u8>)
    ensures
        (seq![27u8, 91, byte] + rest)[0] == 27,
        (seq![27u8, 91, byte] + rest)[1] == 91,
        (seq![27u8, 91, byte] + rest)[2] == byte,
{
}

proof fn lemma_long_sequence(byte: u8, rest: Seq<u8>)
    ensures
        (seq![27u8, 91, byte, 126] + rest)[0] == 27,
        (seq![27u8, 91, byte, 126] + rest)[1] == 91,
        (seq![27u8, 91, byte, 126] + rest)[2] == byte,
        (seq![27u8, 91, byte, 126] + rest)[3] == 126,
{
}

} // verus!
