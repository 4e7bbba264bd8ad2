//! The JSON string of a name.
//!
//! A name is written between quotes. A quote, a backslash and the control
//! characters cannot stand in a JSON string as they are: each is written as an
//! escape that begins with a backslash. Every other character is written as
//! its UTF-8 bytes.

use vstd::prelude::*;
use vstd::utf8::{encode_scalar, encode_utf8};

verus! {

/// `"`, which encloses a string.
pub const JSON_QUOTE: u8 = 0x22;

/// `\`, which begins an escape.
pub const JSON_ESCAPE: u8 = 0x5c;

/// The hexadecimal digit, in lower case, of a value below sixteen.
pub open spec fn hex_digit(value: u8) -> u8 {
    if value < 10 {
        (0x30 + value) as u8
    } else {
        (0x57 + value) as u8
    }
}

/// The escape of a control character that has no shorter one: `\u00` and the
/// two hexadecimal digits of its code.
pub open spec fn control_escape(code: u8) -> Seq<u8> {
    seq![JSON_ESCAPE, 0x75u8, 0x30u8, 0x30u8, hex_digit(code / 16), hex_digit(code % 16)]
}

/// One character as it stands in a JSON string: `"` as `\"`, `\` as `\\`, the
/// backspace, tab, line feed, form feed and carriage return as `\b`, `\t`,
/// `\n`, `\f` and `\r`, any other character below U+0020 as `\u00` and two
/// hexadecimal digits, and every other character as its UTF-8 bytes.
pub open spec fn json_char(c: char) -> Seq<u8> {
    let code = c as u32;
    if code == 0x22 {
        seq![JSON_ESCAPE, 0x22u8]
    } else if code == 0x5c {
        seq![JSON_ESCAPE, 0x5cu8]
    } else if code == 0x08 {
        seq![JSON_ESCAPE, 0x62u8]
    } else if code == 0x09 {
        seq![JSON_ESCAPE, 0x74u8]
    } else if code == 0x0a {
        seq![JSON_ESCAPE, 0x6eu8]
    } else if code == 0x0c {
        seq![JSON_ESCAPE, 0x66u8]
    } else if code == 0x0d {
        seq![JSON_ESCAPE, 0x72u8]
    } else if code < 0x20 {
        control_escape(code as u8)
    } else {
        encode_scalar(code)
    }
}

/// The characters of a name as they stand in a JSON string, one after another.
pub open spec fn json_escaped(name: Seq<char>) -> Seq<u8>
    decreases name.len(),
{
    if name.len() == 0 {
        Seq::empty()
    } else {
        json_char(name.first()) + json_escaped(name.drop_first())
    }
}

/// The JSON string of a name: a quote, the name's characters as they stand in
/// a JSON string, and a quote.
pub open spec fn json_string(name: Seq<char>) -> Seq<u8> {
    seq![JSON_QUOTE] + json_escaped(name) + seq![JSON_QUOTE]
}

/// One byte of a name's UTF-8 encoding as it stands in a JSON string. The
/// bytes of a character above U+007F are all above `0x7f`, so a byte can be
/// told from a character that needs an escape without decoding.
pub open spec fn escaped_byte(byte: u8) -> Seq<u8> {
    if byte == 0x22 {
        seq![JSON_ESCAPE, 0x22u8]
    } else if byte == 0x5c {
        seq![JSON_ESCAPE, 0x5cu8]
    } else if byte == 0x08 {
        seq![JSON_ESCAPE, 0x62u8]
    } else if byte == 0x09 {
        seq![JSON_ESCAPE, 0x74u8]
    } else if byte == 0x0a {
        seq![JSON_ESCAPE, 0x6eu8]
    } else if byte == 0x0c {
        seq![JSON_ESCAPE, 0x66u8]
    } else if byte == 0x0d {
        seq![JSON_ESCAPE, 0x72u8]
    } else if byte < 0x20 {
        control_escape(byte)
    } else {
        seq![byte]
    }
}

/// The bytes of a name's UTF-8 encoding as they stand in a JSON string.
pub open spec fn escaped_bytes(bytes: Seq<u8>) -> Seq<u8>
    decreases bytes.len(),
{
    if bytes.len() == 0 {
        Seq::empty()
    } else {
        escaped_bytes(bytes.drop_last()) + escaped_byte(bytes.last())
    }
}

proof fn lemma_escaped_bytes_concat(front: Seq<u8>, back: Seq<u8>)
    ensures
        escaped_bytes(front + back) == escaped_bytes(front) + escaped_bytes(back),
    decreases back.len(),
{
    if back.len() > 0 {
        assert((front + back).drop_last() =~= front + back.drop_last());
        lemma_escaped_bytes_concat(front, back.drop_last());
    }
}

proof fn lemma_escaped_bytes_above_ascii(bytes: Seq<u8>)
    requires
        forall|i: int| 0 <= i < bytes.len() ==> #[trigger] bytes[i] >= 0x80,
    ensures
        escaped_bytes(bytes) == bytes,
    decreases bytes.len(),
{
    if bytes.len() > 0 {
        lemma_escaped_bytes_above_ascii(bytes.drop_last());
    }
}

proof fn lemma_escaped_char(c: char)
    ensures
        escaped_bytes(encode_scalar(c as u32)) == json_char(c),
{
    let code = c as u32;
    let bytes = encode_scalar(code);
    if code <= 0x7f {
        assert((code & 0x7F) as u8 == code) by (bit_vector)
            requires
                code <= 0x7f,
        ;
        assert(escaped_bytes(bytes.drop_last()) =~= Seq::<u8>::empty());
    } else {
        let two = (code >> 6) & 0x1F;
        let three = (code >> 12) & 0x0F;
        let four = (code >> 18) & 0x7;
        let last = code & 0x3F;
        let second_last = (code >> 6) & 0x3F;
        let third_last = (code >> 12) & 0x3F;
        assert(0xC0u8 | two as u8 >= 0x80) by (bit_vector);
        assert(0xE0u8 | three as u8 >= 0x80) by (bit_vector);
        assert(0xF0u8 | four as u8 >= 0x80) by (bit_vector);
        assert(0x80u8 | last as u8 >= 0x80) by (bit_vector);
        assert(0x80u8 | second_last as u8 >= 0x80) by (bit_vector);
        assert(0x80u8 | third_last as u8 >= 0x80) by (bit_vector);
        lemma_escaped_bytes_above_ascii(bytes);
    }
}

/// Escaping byte by byte is escaping character by character: the bytes of a
/// name's UTF-8 encoding, each as it stands in a JSON string, are the name's
/// characters as they stand in one.
pub proof fn escaped_bytes_of_name(name: Seq<char>)
    ensures
        escaped_bytes(encode_utf8(name)) == json_escaped(name),
    decreases name.len(),
{
    if name.len() > 0 {
        lemma_escaped_char(name.first());
        escaped_bytes_of_name(name.drop_first());
        lemma_escaped_bytes_concat(
            encode_scalar(name.first() as u32),
            encode_utf8(name.drop_first()),
        );
    }
}

/// The hexadecimal digit, in lower case, of a value below sixteen.
fn hex_digit_of(value: u8) -> (digit: u8)
    requires
        value < 16,
    ensures
        digit == hex_digit(value),
{
    if value < 10 {
        0x30 + value
    } else {
        0x57 + value
    }
}

/// The JSON string of a name, as bytes.
pub fn json_string_bytes(name: &str) -> (bytes: Vec<u8>)
    ensures
        bytes@ == json_string(name@),
{
    let source = name.as_bytes();
    let mut bytes: Vec<u8> = Vec::new();
    bytes.push(JSON_QUOTE);
    let mut at: usize = 0;
    while at < source.len()
        invariant
            at <= source@.len(),
            bytes@ == seq![JSON_QUOTE] + escaped_bytes(source@.take(at as int)),
        decreases source.len() - at,
    {
        let byte = source[at];
        let ghost before = bytes@;
        proof {
            assert(source@.take(at + 1).drop_last() =~= source@.take(at as int));
        }
        if byte == 0x22 || byte == 0x5c {
            bytes.push(JSON_ESCAPE);
            bytes.push(byte);
        } else if byte == 0x08 {
            bytes.push(JSON_ESCAPE);
            bytes.push(0x62);
        } else if byte == 0x09 {
            bytes.push(JSON_ESCAPE);
            bytes.push(0x74);
        } else if byte == 0x0a {
            bytes.push(JSON_ESCAPE);
            bytes.push(0x6e);
        } else if byte == 0x0c {
            bytes.push(JSON_ESCAPE);
            bytes.push(0x66);
        } else if byte == 0x0d {
            bytes.push(JSON_ESCAPE);
            bytes.push(0x72);
        } else if byte < 0x20 {
            bytes.push(JSON_ESCAPE);
            bytes.push(0x75);
            bytes.push(0x30);
            bytes.push(0x30);
            bytes.push(hex_digit_of(byte / 16));
            bytes.push(hex_digit_of(byte % 16));
        } else {
            bytes.push(byte);
        }
        assert(bytes@ =~= before + escaped_byte(byte));
        at += 1;
    }
    bytes.push(JSON_QUOTE);
    proof {
        assert(source@.take(at as int) =~= source@);
        escaped_bytes_of_name(name@);
    }
    bytes
}

} // verus!
