//! The mathematical model of the `secret-token` URI scheme (RFC 8959).
//!
//! A token URI is the byte sequence `secret-token:` followed by a non-empty
//! body in which every byte is either drawn from a fixed allow-list or is a
//! percent-escape `%XX` with two hexadecimal digits.  Decoding expands the
//! escapes and reads the resulting bytes as UTF-8.

use vstd::prelude::*;
use vstd::utf8::{decode_utf8, encode_utf8, valid_utf8};

verus! {

/// A byte that may stand unescaped in a token body: the ASCII alphanumerics
/// and the punctuation `- . _ ~ ! $ & ' ( ) * + , ; = : @`.
pub open spec fn is_allowed_byte(b: u8) -> bool {
    ||| 0x41u8 <= b <= 0x5au8
    ||| 0x61u8 <= b <= 0x7au8
    ||| 0x30u8 <= b <= 0x39u8
    ||| b == 0x2du8
    ||| b == 0x2eu8
    ||| b == 0x5fu8
    ||| b == 0x7eu8
    ||| b == 0x21u8
    ||| b == 0x24u8
    ||| b == 0x26u8
    ||| b == 0x27u8
    ||| b == 0x28u8
    ||| b == 0x29u8
    ||| b == 0x2au8
    ||| b == 0x2bu8
    ||| b == 0x2cu8
    ||| b == 0x3bu8
    ||| b == 0x3du8
    ||| b == 0x3au8
    ||| b == 0x40u8
}

/// An ASCII hexadecimal digit, either case.
pub open spec fn is_hex_digit(b: u8) -> bool {
    ||| 0x30u8 <= b <= 0x39u8
    ||| 0x61u8 <= b <= 0x66u8
    ||| 0x41u8 <= b <= 0x46u8
}

/// The numeric value of a hexadecimal digit.
pub open spec fn hex_digit_value(b: u8) -> u8
    recommends
        is_hex_digit(b),
{
    if 0x30u8 <= b <= 0x39u8 {
        (b - 0x30u8) as u8
    } else if 0x61u8 <= b <= 0x66u8 {
        (b - 0x61u8 + 10) as u8
    } else {
        (b - 0x41u8 + 10) as u8
    }
}

/// The uppercase hexadecimal digit for a value below sixteen.
pub open spec fn upper_hex_digit(v: u8) -> u8
    recommends
        v < 16,
{
    if v < 10 {
        (v + 0x30u8) as u8
    } else {
        (v - 10 + 0x41u8) as u8
    }
}

/// The three-byte escape `%XX` of a byte, with uppercase hex digits.
pub open spec fn escape_triple(b: u8) -> Seq<u8> {
    seq![0x25u8, upper_hex_digit(b / 16), upper_hex_digit(b % 16)]
}

/// How one raw byte appears in an encoded body: verbatim when allowed,
/// otherwise as its percent-escape.
pub open spec fn encode_byte(b: u8) -> Seq<u8> {
    if is_allowed_byte(b) {
        seq![b]
    } else {
        escape_triple(b)
    }
}

/// The encoded body for a sequence of raw bytes.
pub open spec fn encoded_body(bytes: Seq<u8>) -> Seq<u8>
    decreases bytes.len(),
{
    if bytes.len() == 0 {
        Seq::empty()
    } else {
        encode_byte(bytes[0]) + encoded_body(bytes.drop_first())
    }
}

/// The body grammar: a sequence of allowed bytes and well-formed
/// percent-escapes, anchored at both ends.
pub open spec fn body_ok(body: Seq<u8>) -> bool
    decreases body.len(),
{
    if body.len() == 0 {
        true
    } else if is_allowed_byte(body[0]) {
        body_ok(body.drop_first())
    } else if body[0] == 0x25u8 {
        if body.len() >= 3 {
            is_hex_digit(body[1]) && is_hex_digit(body[2]) && body_ok(body.skip(3))
        } else {
            false
        }
    } else {
        false
    }
}

/// Percent-decoding of a body: each `%XX` escape becomes the byte `XX`,
/// every other byte stays as it is.
pub open spec fn percent_decoded(body: Seq<u8>) -> Seq<u8>
    decreases body.len(),
{
    if body.len() == 0 {
        Seq::empty()
    } else if body[0] == 0x25u8 && body.len() >= 3 && is_hex_digit(body[1]) && is_hex_digit(
        body[2],
    ) {
        seq![(hex_digit_value(body[1]) * 16 + hex_digit_value(body[2])) as u8]
            + percent_decoded(body.skip(3))
    } else {
        seq![body[0]] + percent_decoded(body.drop_first())
    }
}

/// The bytes of the literal prefix `secret-token:`.
pub open spec fn prefix_bytes() -> Seq<u8> {
    seq![0x73u8, 0x65u8, 0x63u8, 0x72u8, 0x65u8, 0x74u8, 0x2du8, 0x74u8, 0x6fu8, 0x6bu8, 0x65u8, 0x6eu8, 0x3au8]
}

/// Whether a URI starts with the exact prefix, byte for byte.
pub open spec fn has_prefix(uri: Seq<u8>) -> bool {
    uri.len() >= 13 && uri.subrange(0, 13) == prefix_bytes()
}

/// The body of a URI: everything after the prefix.
pub open spec fn body_of(uri: Seq<u8>) -> Seq<u8>
    recommends
        has_prefix(uri),
{
    uri.skip(13)
}

/// Whether a URI has the prefix, a non-empty body, and a body that
/// matches the grammar.
pub open spec fn uri_grammar_ok(uri: Seq<u8>) -> bool {
    &&& has_prefix(uri)
    &&& body_of(uri).len() > 0
    &&& body_ok(body_of(uri))
}

/// What decoding a URI yields: the UTF-8 reading of the percent-decoded
/// body when the URI is well formed and that reading exists, nothing
/// otherwise.
pub open spec fn spec_decode(uri: Seq<u8>) -> Option<Seq<char>> {
    if uri_grammar_ok(uri) && valid_utf8(percent_decoded(body_of(uri))) {
        Some(decode_utf8(percent_decoded(body_of(uri))))
    } else {
        None
    }
}

/// The bytes of the URI that encodes a secret: the prefix followed by the
/// encoded body of the secret's UTF-8 bytes.
pub open spec fn uri_bytes_for(secret: Seq<char>) -> Seq<u8> {
    prefix_bytes() + encoded_body(encode_utf8(secret))
}

/// The characters of the URI that encodes a secret.  The URI is ASCII, so
/// its characters are its bytes read one for one.
pub open spec fn spec_encode(secret: Seq<char>) -> Seq<char> {
    decode_utf8(uri_bytes_for(secret))
}

} // verus!
