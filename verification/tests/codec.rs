use secret_token::{decode, encode, is_valid, SCHEME};

fn valid_pairs() -> Vec<(&'static str, &'static str)> {
    vec![
        ("secret-token:s", "s"),
        ("secret-token:hello", "hello"),
        (
            "secret-token:E92FB7EB-D882-47A4-A265-A0B6135DC842%20foo",
            "E92FB7EB-D882-47A4-A265-A0B6135DC842 foo",
        ),
        ("secret-token:%C5%81%C3%B3d%C5%BA", "Łódź"),
    ]
}

fn invalid_uris() -> Vec<&'static str> {
    vec![
        "",
        "s",
        "hello",
        "Łódź",
        "%C5%81%C3%B3d%C5%BA",
        "secret-token",
        "SECRET-TOKEN:",
        "SECRET-TOKEN:hello",
        ":secret-token",
        ":secret-token:",
        ":secret-token:hello",
        "secret-token:%a1",
    ]
}

#[test]
fn test_decode_works_with_valid_uris() {
    for (input, output) in valid_pairs() {
        println!("Testing {}", input);
        assert_eq!(decode(input.as_bytes()).unwrap(), output);
        assert_eq!(decode(input.as_bytes()).unwrap(), output);
    }
}

#[test]
fn test_decode_with_invalid_uris() {
    for input in invalid_uris() {
        println!("Testing {}", input);
        assert!(decode(input.as_bytes()).is_none());
        assert!(decode(input.as_bytes()).is_none());
    }
}

#[test]
fn test_encode() {
    for (input, output) in valid_pairs() {
        println!("Testing {}", input);
        assert_eq!(encode(output), input);
    }
}

#[test]
fn test_characters_disallowed_in_encoding_are_also_rejected_when_decoding() {
    for i in 1u8..127u8 {
        let bytes = [i];
        let s = std::str::from_utf8(&bytes).unwrap();
        let encoded = encode(s);
        let decoded = decode(format!("{}:{}", SCHEME, s).as_bytes());
        println!(
            "Character number {} ({:?}, decoded {:?})",
            i, encoded, decoded
        );
        if encoded.contains("%") {
            // Disallowed characters, got percent-encoded here so
            // it can't exist verbatim in the URIs.
            println!("Character number {} ({}, encoded {})", i, s, encoded);
            assert!(decoded.is_none());
        } else {
            assert_eq!(decoded.unwrap(), std::str::from_utf8(&bytes).unwrap());
        }
    }
}

#[test]
fn test_round_trip_of_concrete_secrets() {
    let secrets = [
        "s",
        "hello",
        "E92FB7EB-D882-47A4-A265-A0B6135DC842 foo",
        "Łódź",
        "with space & sign=100%",
        "newline\nand\ttab",
        "héllo wörld 秘密 🔑",
    ];
    for secret in secrets {
        let uri = encode(secret);
        assert_eq!(decode(uri.as_bytes()).unwrap(), secret);
    }
}

#[test]
fn test_empty_secret_does_not_round_trip() {
    // The empty secret encodes to the bare prefix, whose empty body is
    // rejected when decoding.
    assert_eq!(encode(""), "secret-token:");
    assert!(decode(encode("").as_bytes()).is_none());
}

#[test]
fn test_empty_body_is_rejected() {
    assert!(decode("secret-token:".as_bytes()).is_none());
}

#[test]
fn test_escape_decoding_to_invalid_utf8_is_rejected() {
    // %a1 is a well-formed escape, but a lone continuation byte is not
    // valid UTF-8 on its own.
    assert!(decode("secret-token:%a1".as_bytes()).is_none());
    assert!(decode("secret-token:%C5".as_bytes()).is_none());
    assert!(decode("secret-token:%FF%FE".as_bytes()).is_none());
}

#[test]
fn test_malformed_escapes_are_rejected() {
    assert!(decode("secret-token:%".as_bytes()).is_none());
    assert!(decode("secret-token:%4".as_bytes()).is_none());
    assert!(decode("secret-token:%4G".as_bytes()).is_none());
    assert!(decode("secret-token:a%".as_bytes()).is_none());
    assert!(decode("secret-token:a%2".as_bytes()).is_none());
    assert!(decode("secret-token:ok%20fine%".as_bytes()).is_none());
}

#[test]
fn test_disallowed_verbatim_bytes_are_rejected() {
    assert!(decode("secret-token:a b".as_bytes()).is_none());
    assert!(decode("secret-token:a\"b".as_bytes()).is_none());
    assert!(decode("secret-token:a/b".as_bytes()).is_none());
    assert!(decode("secret-token:Łódź".as_bytes()).is_none());
    assert!(decode(&[0x73, 0x65, 0x63, 0x72, 0x65, 0x74, 0x2d, 0x74, 0x6f, 0x6b, 0x65, 0x6e, 0x3a, 0x00]).is_none());
    assert!(decode(&[0x73, 0x65, 0x63, 0x72, 0x65, 0x74, 0x2d, 0x74, 0x6f, 0x6b, 0x65, 0x6e, 0x3a, 0xc5, 0x81]).is_none());
}

#[test]
fn test_concrete_vectors() {
    assert_eq!(encode("hello"), "secret-token:hello");
    assert_eq!(decode("secret-token:hello".as_bytes()).unwrap(), "hello");
    assert_eq!(encode("Łódź"), "secret-token:%C5%81%C3%B3d%C5%BA");
    assert_eq!(
        decode("secret-token:%C5%81%C3%B3d%C5%BA".as_bytes()).unwrap(),
        "Łódź"
    );
    assert_eq!(
        decode("secret-token:E92FB7EB-D882-47A4-A265-A0B6135DC842%20foo".as_bytes()).unwrap(),
        "E92FB7EB-D882-47A4-A265-A0B6135DC842 foo"
    );
    assert_eq!(encode("a b"), "secret-token:a%20b");
}

#[test]
fn test_lowercase_hex_escapes_are_accepted() {
    assert_eq!(
        decode("secret-token:%c5%81%c3%b3d%c5%ba".as_bytes()).unwrap(),
        "Łódź"
    );
    assert_eq!(decode("secret-token:%2f".as_bytes()).unwrap(), "/");
    assert_eq!(decode("secret-token:%2F".as_bytes()).unwrap(), "/");
}

#[test]
fn test_is_valid_agrees_with_decode() {
    for (input, _) in valid_pairs() {
        assert!(is_valid(input.as_bytes()));
        assert_eq!(is_valid(input.as_bytes()), decode(input.as_bytes()).is_some());
    }
    for input in invalid_uris() {
        assert!(!is_valid(input.as_bytes()));
        assert_eq!(is_valid(input.as_bytes()), decode(input.as_bytes()).is_some());
    }
    assert!(!is_valid("secret-token:".as_bytes()));
}

#[test]
fn test_prefix_constants() {
    assert_eq!(SCHEME, "secret-token");
    assert_eq!(secret_token::PREFIX, "secret-token:");
    assert!(decode("secret-token:x".as_bytes()).is_some());
}
