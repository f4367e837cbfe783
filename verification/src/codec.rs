//! The executable codec: building a token URI from a secret and reading a
//! secret back out of a token URI.

use vstd::prelude::*;
use vstd::utf8::{decode_utf8, valid_utf8};

use crate::model::{
    body_of, body_ok, encoded_body, has_prefix, hex_digit_value, is_allowed_byte, is_hex_digit,
    percent_decoded, prefix_bytes, spec_decode, spec_encode, upper_hex_digit, uri_bytes_for,
    uri_grammar_ok,
};

verus! {

/// Relies on `String::from_utf8`: it returns `Ok` exactly when the bytes are
/// a valid UTF-8 encoding, and the returned string's characters are the
/// UTF-8 decoding of those bytes.
#[verifier::external_body]
fn bytes_to_string(v: Vec<u8>) -> (r: Option<String>)
    ensures
        match r {
            Some(s) => valid_utf8(v@) && s@ == decode_utf8(v@),
            None => !valid_utf8(v@),
        },
{
    match String::from_utf8(v) {
        Ok(s) => Some(s),
        Err(_) => None,
    }
}

/// Whether a byte may stand unescaped in a token body.
fn is_allowed(b: u8) -> (r: bool)
    ensures
        r == is_allowed_byte(b),
{
    (0x41u8 <= b && b <= 0x5au8) || (0x61u8 <= b && b <= 0x7au8) || (0x30u8 <= b && b <= 0x39u8) || b == 0x2du8
        || b == 0x2eu8 || b == 0x5fu8 || b == 0x7eu8 || b == 0x21u8 || b == 0x24u8 || b == 0x26u8 || b == 0x27u8
        || b == 0x28u8 || b == 0x29u8 || b == 0x2au8 || b == 0x2bu8 || b == 0x2cu8 || b == 0x3bu8 || b == 0x3du8
        || b == 0x3au8 || b == 0x40u8
}

/// Whether a byte is an ASCII hexadecimal digit.
fn is_hex(b: u8) -> (r: bool)
    ensures
        r == is_hex_digit(b),
{
    (0x30u8 <= b && b <= 0x39u8) || (0x61u8 <= b && b <= 0x66u8) || (0x41u8 <= b && b <= 0x46u8)
}

/// The numeric value of a hexadecimal digit.
fn hex_value(b: u8) -> (r: u8)
    requires
        is_hex_digit(b),
    ensures
        r == hex_digit_value(b),
        r < 16,
{
    if 0x30u8 <= b && b <= 0x39u8 {
        b - 0x30u8
    } else if 0x61u8 <= b && b <= 0x66u8 {
        b - 0x61u8 + 10
    } else {
        b - 0x41u8 + 10
    }
}

/// The uppercase hexadecimal digit of a value below sixteen.
fn hex_digit(v: u8) -> (r: u8)
    requires
        v < 16,
    ensures
        r == upper_hex_digit(v),
{
    if v < 10 {
        v + 0x30u8
    } else {
        v - 10 + 0x41u8
    }
}

/// Encodes a secret into a secret-token URI.
///
/// Every byte of the secret's UTF-8 form that is not on the allow-list is
/// percent-encoded with uppercase hexadecimal digits, and the prefix
/// `secret-token:` is prepended.  Encoding is total and exact: the
/// resulting characters are pinned by [`spec_encode`], and the result's
/// UTF-8 bytes are exactly [`uri_bytes_for`] of the secret.
pub fn encode(secret: &str) -> (r: String)
    ensures
        r@ == spec_encode(secret@),
        vstd::utf8::encode_utf8(r@) == uri_bytes_for(secret@),
{
    let bytes: &[u8] = secret.as_bytes();
    let mut out = prefix_vec();
    let mut i: usize = 0;
    while i < bytes.len()
        invariant
            i <= bytes@.len(),
            bytes@ == vstd::utf8::encode_utf8(secret@),
            out@ == prefix_bytes() + encoded_body(bytes@.subrange(0, i as int)),
        decreases bytes@.len() - i,
    {
        let b = bytes[i];
        if is_allowed(b) {
            out.push(b);
        } else {
            out.push(0x25u8);
            out.push(hex_digit(b / 16));
            out.push(hex_digit(b % 16));
        }
        proof {
            crate::laws::lemma_encoded_body_snoc(bytes@.subrange(0, i as int), b);
            assert(bytes@.subrange(0, i as int).push(b) =~= bytes@.subrange(0, i as int + 1));
            assert(out@ =~= prefix_bytes() + encoded_body(bytes@.subrange(0, i as int + 1)));
        }
        i += 1;
    }
    proof {
        assert(bytes@.subrange(0, bytes@.len() as int) =~= bytes@);
        assert(out@ == uri_bytes_for(secret@));
        crate::laws::lemma_encode_exact(secret@);
    }
    match bytes_to_string(out) {
        Some(s) => s,
        None => vstd::pervasive::unreached(),
    }
}

/// Decodes a secret-token URI into the secret it carries.
///
/// Returns nothing exactly when the input lacks the byte-for-byte prefix
/// `secret-token:`, has an empty body, has a body outside the grammar of
/// allowed bytes and `%XX` escapes, or percent-decodes to bytes that are
/// not valid UTF-8; [`spec_decode`] states the outcome for every input.
pub fn decode(uri: &[u8]) -> (r: Option<String>)
    ensures
        match r {
            Some(s) => spec_decode(uri@) == Some(s@),
            None => spec_decode(uri@) is None,
        },
{
    if uri.len() < 14 {
        proof {
            if uri@.len() >= 13 {
                assert(body_of(uri@).len() == 0);
            }
        }
        return None;
    }
    let pre = prefix_vec();
    let mut i: usize = 0;
    while i < 13
        invariant
            i <= 13,
            uri@.len() >= 14,
            pre@ == prefix_bytes(),
            forall|j: int| 0 <= j < i ==> uri@[j] == prefix_bytes()[j],
        decreases 13 - i,
    {
        if uri[i] != pre[i] {
            proof {
                if has_prefix(uri@) {
                    assert(uri@.subrange(0, 13)[i as int] == prefix_bytes()[i as int]);
                }
            }
            return None;
        }
        i += 1;
    }
    proof {
        assert(uri@.subrange(0, 13) =~= prefix_bytes());
    }
    let mut out: Vec<u8> = Vec::new();
    let mut i: usize = 13;
    proof {
        assert(uri@.skip(13) == body_of(uri@));
        assert(out@ + percent_decoded(uri@.skip(13)) =~= percent_decoded(body_of(uri@)));
    }
    while i < uri.len()
        invariant
            13 <= i <= uri@.len(),
            uri@.len() >= 14,
            has_prefix(uri@),
            body_ok(body_of(uri@)) <==> body_ok(uri@.skip(i as int)),
            percent_decoded(body_of(uri@)) == out@ + percent_decoded(uri@.skip(i as int)),
        decreases uri@.len() - i,
    {
        let ghost rest = uri@.skip(i as int);
        let b = uri[i];
        proof {
            assert(rest[0] == b);
        }
        if is_allowed(b) {
            out.push(b);
            proof {
                assert(rest.drop_first() =~= uri@.skip(i as int + 1));
                assert(percent_decoded(rest) == seq![b] + percent_decoded(rest.drop_first()));
                assert(out@ + percent_decoded(uri@.skip(i as int + 1)) =~= percent_decoded(
                    body_of(uri@),
                ));
            }
            i += 1;
        } else if b == 0x25u8 && uri.len() - i >= 3 {
            let h1 = uri[i + 1];
            let h2 = uri[i + 2];
            proof {
                assert(rest.len() >= 3 && rest[1] == h1 && rest[2] == h2);
            }
            if is_hex(h1) && is_hex(h2) {
                out.push(hex_value(h1) * 16 + hex_value(h2));
                proof {
                    assert(rest.skip(3) =~= uri@.skip(i as int + 3));
                    assert(out@ + percent_decoded(uri@.skip(i as int + 3)) =~= percent_decoded(
                        body_of(uri@),
                    ));
                }
                i += 3;
            } else {
                proof {
                    assert(!body_ok(rest));
                }
                return None;
            }
        } else {
            proof {
                assert(!body_ok(rest));
            }
            return None;
        }
    }
    proof {
        assert(uri@.skip(i as int) =~= Seq::<u8>::empty());
        assert(percent_decoded(body_of(uri@)) =~= out@);
        assert(uri_grammar_ok(uri@));
    }
    bytes_to_string(out)
}

/// Whether a byte sequence is a well-formed secret-token URI, exactly when
/// [`decode`] would return a secret.
pub fn is_valid(uri: &[u8]) -> (r: bool)
    ensures
        r == (spec_decode(uri@) is Some),
{
    decode(uri).is_some()
}

/// The prefix `secret-token:` as a vector of bytes.
fn prefix_vec() -> (r: Vec<u8>)
    ensures
        r@ == prefix_bytes(),
{
    let mut v: Vec<u8> = Vec::new();
    v.push(0x73u8);
    v.push(0x65u8);
    v.push(0x63u8);
    v.push(0x72u8);
    v.push(0x65u8);
    v.push(0x74u8);
    v.push(0x2du8);
    v.push(0x74u8);
    v.push(0x6fu8);
    v.push(0x6bu8);
    v.push(0x65u8);
    v.push(0x6eu8);
    v.push(0x3au8);
    proof {
        assert(v@ =~= prefix_bytes());
    }
    v
}

} // verus!
