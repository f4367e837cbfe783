//! Proved laws of the codec: every encoded URI decodes back to the secret
//! it was built from, a URI without the exact prefix never decodes, and the
//! allow-list draws the line between bytes that survive verbatim in a body
//! and bytes that make a body invalid.

use vstd::prelude::*;
use vstd::utf8::{
    char_is_scalar, decode_utf8, encode_utf8, encode_utf8_decode_utf8, encode_utf8_valid_utf8,
    is_ascii_chars, is_ascii_chars_encode_utf8, is_leading_byte_width_1, length_of_first_scalar,
    pop_first_scalar, valid_first_scalar, valid_utf8,
};

use crate::model::{
    body_of, body_ok, encode_byte, encoded_body, escape_triple, has_prefix, hex_digit_value,
    is_allowed_byte, is_hex_digit, percent_decoded, prefix_bytes, spec_decode, spec_encode,
    upper_hex_digit, uri_bytes_for, uri_grammar_ok,
};

verus! {

/// The uppercase hexadecimal digit of a value below sixteen is a
/// hexadecimal digit, and reading it back yields the value.
pub proof fn lemma_hex_digit_round_trip(v: u8)
    requires
        v < 16,
    ensures
        is_hex_digit(upper_hex_digit(v)),
        hex_digit_value(upper_hex_digit(v)) == v,
{
}

/// Encoding one more raw byte extends the encoded body on the right.
pub proof fn lemma_encoded_body_snoc(bytes: Seq<u8>, b: u8)
    ensures
        encoded_body(bytes.push(b)) == encoded_body(bytes) + encode_byte(b),
    decreases bytes.len(),
{
    if bytes.len() == 0 {
        assert(bytes.push(b)[0] == b);
        assert(bytes.push(b).len() == 1);
        assert(bytes.push(b).drop_first() =~= Seq::<u8>::empty());
        assert(encoded_body(Seq::<u8>::empty()) =~= Seq::<u8>::empty());
        assert(encoded_body(bytes) =~= Seq::<u8>::empty());
        assert(encoded_body(bytes.push(b)) == encode_byte(b) + encoded_body(
            bytes.push(b).drop_first(),
        ));
        assert(encoded_body(bytes.push(b)) =~= encoded_body(bytes) + encode_byte(b));
    } else {
        assert(bytes.push(b)[0] == bytes[0]);
        assert(bytes.push(b).drop_first() =~= bytes.drop_first().push(b));
        lemma_encoded_body_snoc(bytes.drop_first(), b);
        assert(encoded_body(bytes.push(b)) =~= encoded_body(bytes) + encode_byte(b));
    }
}

/// Every byte of an encoded body is ASCII: an allowed byte, a percent
/// sign, or an uppercase hexadecimal digit.
pub proof fn lemma_encoded_body_ascii(bytes: Seq<u8>)
    ensures
        forall|j: int| 0 <= j < encoded_body(bytes).len() ==> encoded_body(bytes)[j] < 0x80,
    decreases bytes.len(),
{
    if bytes.len() > 0 {
        lemma_encoded_body_ascii(bytes.drop_first());
        let eb = encode_byte(bytes[0]);
        let rest = encoded_body(bytes.drop_first());
        assert(bytes[0] / 16 < 16 && bytes[0] % 16 < 16);
        assert(forall|j: int| 0 <= j < eb.len() ==> eb[j] < 0x80);
        assert forall|j: int| 0 <= j < encoded_body(bytes).len() implies encoded_body(
            bytes,
        )[j] < 0x80 by {
            if j < eb.len() {
                assert(encoded_body(bytes)[j] == eb[j]);
            } else {
                assert(encoded_body(bytes)[j] == rest[j - eb.len()]);
            }
        }
    }
}

/// A sequence of ASCII bytes is valid UTF-8.
pub proof fn lemma_ascii_valid_utf8(bytes: Seq<u8>)
    requires
        forall|j: int| 0 <= j < bytes.len() ==> bytes[j] < 0x80,
    ensures
        valid_utf8(bytes),
    decreases bytes.len(),
{
    if bytes.len() != 0 {
        let b = bytes[0];
        assert(is_leading_byte_width_1(b));
        assert(b & 0x7f == b) by (bit_vector)
            requires
                b < 0x80,
        ;
        assert(valid_first_scalar(bytes));
        assert(length_of_first_scalar(bytes) == 1);
        assert(pop_first_scalar(bytes) =~= bytes.drop_first());
        lemma_ascii_valid_utf8(bytes.drop_first());
    }
}

/// An encoded body matches the body grammar.
pub proof fn lemma_encoded_body_grammar(bytes: Seq<u8>)
    ensures
        body_ok(encoded_body(bytes)),
    decreases bytes.len(),
{
    if bytes.len() > 0 {
        let b = bytes[0];
        let body = encoded_body(bytes);
        let rest = encoded_body(bytes.drop_first());
        lemma_encoded_body_grammar(bytes.drop_first());
        if is_allowed_byte(b) {
            assert(body.drop_first() =~= rest);
        } else {
            lemma_hex_digit_round_trip(b / 16);
            lemma_hex_digit_round_trip(b % 16);
            assert(body.skip(3) =~= rest);
        }
    }
}

/// Percent-decoding an encoded body gives back the raw bytes.
pub proof fn lemma_percent_decoded_encoded_body(bytes: Seq<u8>)
    ensures
        percent_decoded(encoded_body(bytes)) == bytes,
    decreases bytes.len(),
{
    if bytes.len() == 0 {
        assert(percent_decoded(encoded_body(bytes)) =~= bytes);
    } else {
        let b = bytes[0];
        let body = encoded_body(bytes);
        let rest = encoded_body(bytes.drop_first());
        lemma_percent_decoded_encoded_body(bytes.drop_first());
        if is_allowed_byte(b) {
            assert(body.drop_first() =~= rest);
            assert(percent_decoded(body) =~= bytes);
        } else {
            lemma_hex_digit_round_trip(b / 16);
            lemma_hex_digit_round_trip(b % 16);
            assert(body.skip(3) =~= rest);
            assert(hex_digit_value(body[1]) * 16 + hex_digit_value(body[2]) == b);
            assert(percent_decoded(body) =~= bytes);
        }
    }
}

/// A non-empty secret has a non-empty UTF-8 encoding, and a non-empty raw
/// sequence has a non-empty encoded body.
pub proof fn lemma_encoded_body_nonempty(secret: Seq<char>)
    requires
        secret.len() > 0,
    ensures
        encode_utf8(secret).len() > 0,
        encoded_body(encode_utf8(secret)).len() > 0,
{
    char_is_scalar(secret[0]);
    assert(encode_utf8(secret).len() > 0);
}

/// The URI built for a secret carries the prefix, and its body is exactly
/// the encoded body of the secret's UTF-8 bytes.
pub proof fn lemma_uri_bytes_shape(secret: Seq<char>)
    ensures
        has_prefix(uri_bytes_for(secret)),
        body_of(uri_bytes_for(secret)) == encoded_body(encode_utf8(secret)),
{
    let uri = uri_bytes_for(secret);
    assert(uri.subrange(0, 13) =~= prefix_bytes());
    assert(body_of(uri) =~= encoded_body(encode_utf8(secret)));
}

/// Round trip: decoding the URI built for a non-empty secret yields that
/// secret again.  The empty secret is the one exception: its URI is the
/// bare prefix, whose empty body decoding rejects.
pub proof fn lemma_round_trip(secret: Seq<char>)
    requires
        secret.len() > 0,
    ensures
        spec_decode(uri_bytes_for(secret)) == Some(secret),
        spec_decode(encode_utf8(spec_encode(secret))) == Some(secret),
{
    lemma_encode_exact(secret);
    let raw = encode_utf8(secret);
    let uri = uri_bytes_for(secret);
    lemma_uri_bytes_shape(secret);
    lemma_encoded_body_nonempty(secret);
    lemma_encoded_body_grammar(raw);
    lemma_percent_decoded_encoded_body(raw);
    encode_utf8_valid_utf8(secret);
    encode_utf8_decode_utf8(secret);
    assert(uri_grammar_ok(uri));
    assert(percent_decoded(body_of(uri)) == raw);
}

/// Encoding is exact: the characters of the encoded URI are the ASCII
/// reading of the URI bytes built for the secret.
pub proof fn lemma_encode_exact(secret: Seq<char>)
    ensures
        valid_utf8(uri_bytes_for(secret)),
        encode_utf8(spec_encode(secret)) == uri_bytes_for(secret),
{
    lemma_encoded_body_ascii(encode_utf8(secret));
    let uri = uri_bytes_for(secret);
    assert forall|j: int| 0 <= j < uri.len() implies uri[j] < 0x80 by {
        if j >= 13 {
            assert(uri[j] == encoded_body(encode_utf8(secret))[j - 13]);
        }
    }
    lemma_ascii_valid_utf8(uri);
    vstd::utf8::decode_utf8_encode_utf8(uri);
}

/// The characters of the prefix constant encode, one byte per character,
/// to exactly the prefix bytes of the model.
pub proof fn lemma_prefix_chars()
    ensures
        encode_utf8("secret-token:"@) == prefix_bytes(),
{
    reveal_strlit("secret-token:");
    assert(is_ascii_chars("secret-token:"@));
    is_ascii_chars_encode_utf8("secret-token:"@);
    assert(encode_utf8("secret-token:"@) =~= prefix_bytes());
}

/// A sequence without the exact prefix `secret-token:` never decodes.
pub proof fn lemma_prefix_rejection(uri: Seq<u8>)
    requires
        !has_prefix(uri),
    ensures
        spec_decode(uri) is None,
{
}

/// The bare prefix, with its empty body, never decodes.
pub proof fn lemma_empty_body_rejection()
    ensures
        spec_decode(prefix_bytes()) is None,
{
    assert(body_of(prefix_bytes()) =~= Seq::<u8>::empty());
}

/// The allow-list boundary, for every ASCII byte: an allowed byte encodes
/// to itself and a URI carrying it verbatim decodes to exactly that
/// character; a disallowed byte encodes to a percent-escape and a URI
/// carrying it verbatim never decodes.
pub proof fn lemma_allow_list_boundary(b: u8)
    requires
        1 <= b <= 126,
    ensures
        is_allowed_byte(b) ==> encode_byte(b) == seq![b] && spec_decode(prefix_bytes() + seq![b])
            == Some(seq![b as char]),
        !is_allowed_byte(b) ==> encode_byte(b) == escape_triple(b) && spec_decode(
            prefix_bytes() + seq![b],
        ) is None,
{
    let uri = prefix_bytes() + seq![b];
    assert(uri.subrange(0, 13) =~= prefix_bytes());
    assert(body_of(uri) =~= seq![b]);
    if is_allowed_byte(b) {
        let body = seq![b];
        assert(body[0] == b && body.len() == 1);
        assert(body.drop_first() =~= Seq::<u8>::empty());
        assert(body_ok(Seq::<u8>::empty()));
        assert(body_ok(body));
        assert(percent_decoded(Seq::<u8>::empty()) =~= Seq::<u8>::empty());
        assert(percent_decoded(body) =~= seq![b]);
        lemma_single_ascii_decodes(b);
        assert(uri_grammar_ok(uri));
    } else {
        assert(seq![b][0] == b && seq![b].len() == 1);
        assert(!body_ok(seq![b]));
    }
}

/// A single ASCII byte is valid UTF-8 and decodes to the one character
/// with that code.
pub proof fn lemma_single_ascii_decodes(b: u8)
    requires
        b < 0x80,
    ensures
        valid_utf8(seq![b]),
        decode_utf8(seq![b]) == seq![b as char],
{
    let s = seq![b];
    assert(s[0] == b && s.len() == 1);
    lemma_ascii_valid_utf8(s);
    assert(b & 0x7f == b) by (bit_vector)
        requires
            b < 0x80,
    ;
    assert(vstd::utf8::decode_first_scalar(s) == b as u32);
    assert(length_of_first_scalar(s) == 1);
    assert(pop_first_scalar(s) =~= Seq::<u8>::empty());
    assert(decode_utf8(Seq::<u8>::empty()) =~= Seq::<char>::empty());
    assert((b as u32) as char == b as char);
    assert(decode_utf8(s) =~= seq![b as char]);
}

} // verus!
