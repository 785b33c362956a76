use base64::Engine;
use recorder_server::codec::{chunk_bytes, chunk_digest};
use recorder_server::identity::{hyphenated_text, new_session_identity, session_identity};
use recorder_server::routes::{method, pattern, Endpoint, Method};
use recorder_server::text::{
    chars_of, contains, joined, joined3, lower_hex_text, parse_usize, push_lower_hex, starts_with,
    text_of, zero_padded_text,
};

#[test]
fn zero_filled_numbers() {
    assert_eq!(zero_padded_text(0, 8), "00000000");
    assert_eq!(zero_padded_text(5, 1), "5");
    assert_eq!(zero_padded_text(123, 8), "00000123");
    assert_eq!(zero_padded_text(123456789, 8), "123456789");
    assert_eq!(zero_padded_text(4294967295, 12), "004294967295");
}

#[test]
fn numbers_are_read_as_std_reads_them() {
    let texts = [
        "", "+", "-", "0", "+0", "-0", "007", "10", "+10", "18446744073709551615",
        "18446744073709551616", "000000000000000000000000000001", "1a", "1 ", "1_0", "\u{663}",
    ];
    for text in texts {
        assert_eq!(parse_usize(text), text.parse::<usize>().ok(), "{text}");
    }
}

#[test]
fn hexadecimal_text() {
    assert_eq!(lower_hex_text(&[0x00, 0x0f, 0xa0, 0xff]), "000fa0ff");
    assert_eq!(lower_hex_text(&[]), "");
    let mut text = "x".to_string();
    push_lower_hex(&mut text, &[1, 2, 3, 4], 1, 3);
    assert_eq!(text, "x0203");
}

#[test]
fn pieces_of_text() {
    let chars = chars_of("h\u{e9}llo");
    assert_eq!(chars, vec!['h', '\u{e9}', 'l', 'l', 'o']);
    assert_eq!(text_of(&chars, 1, 4), "\u{e9}ll");
    assert_eq!(joined("ab", "cd"), "abcd");
    assert_eq!(joined3("/r/", "t", "/"), "/r/t/");
}

#[test]
fn occurrences() {
    assert!(contains("duplicate column name: secret_token", "duplicate"));
    assert!(contains("abc", ""));
    assert!(contains("aab", "ab"));
    assert!(!contains("ab", "abc"));
    assert!(!contains("duplicat", "duplicate"));
}

#[test]
fn beginnings() {
    assert!(starts_with("s1.webm", "s1."));
    assert!(starts_with("s1.", "s1."));
    assert!(starts_with("abc", ""));
    assert!(!starts_with("s11.webm", "s1."));
    assert!(!starts_with("s1", "s1."));
}

#[test]
fn base64_is_decoded() {
    assert_eq!(chunk_bytes("").unwrap(), Vec::<u8>::new());
    assert_eq!(chunk_bytes("YQ==").unwrap(), b"a");
    assert_eq!(chunk_bytes("YWI=").unwrap(), b"ab");
    assert_eq!(chunk_bytes("YWJj").unwrap(), b"abc");
    assert_eq!(chunk_bytes("aGVsbG8=").unwrap(), b"hello");
    assert_eq!(chunk_bytes("+/+/").unwrap(), vec![0xfb, 0xff, 0xbf]);
    assert_eq!(chunk_bytes("AP8Q").unwrap(), vec![0x00, 0xff, 0x10]);
}

#[test]
fn other_texts_are_not_decoded() {
    assert_eq!(chunk_bytes("YWJ*").unwrap_err(), "Invalid symbol 42, offset 3.");
    assert_eq!(chunk_bytes("YWI").unwrap_err(), "Invalid padding");
    assert_eq!(chunk_bytes("YWJjY").unwrap_err(), "Invalid input length: 5");
    assert_eq!(chunk_bytes("YWJ=").unwrap_err(), "Invalid last symbol 74, offset 2.");
    assert!(chunk_bytes("YQ=").is_err());
    assert!(chunk_bytes("YWI==").is_err());
    assert!(chunk_bytes("Y W I =").is_err());
    assert!(chunk_bytes("_-_-").is_err());
}

#[test]
fn digests_are_sha256() {
    assert_eq!(
        chunk_digest(&Vec::new()),
        "e3b0c44298fc1c149afbf4c8996fb92427ae41e4649b934ca495991b7852b855"
    );
    assert_eq!(
        chunk_digest(&b"abc".to_vec()),
        "ba7816bf8f01cfea414140de5dae2223b00361a396177a9cb410ff61f20015ad"
    );
}

#[test]
fn identity_from_given_bytes() {
    let id: [u8; 16] = [
        0x12, 0x3e, 0x45, 0x67, 0xe8, 0x9b, 0x42, 0xd3, 0xa4, 0x56, 0x42, 0x66, 0x14, 0x17, 0x40,
        0x00,
    ];
    assert_eq!(hyphenated_text(&id), "123e4567-e89b-42d3-a456-426614174000");
    let identity = session_identity(&id, &[0xab; 16], &[0x01; 16]);
    assert_eq!(identity.session_id, "123e4567-e89b-42d3-a456-426614174000");
    assert_eq!(
        identity.secret_token,
        "abababababababababababababababab01010101010101010101010101010101"
    );
}

#[test]
fn new_identities_are_well_formed_and_differ() {
    let a = new_session_identity();
    let b = new_session_identity();
    assert_ne!(a.session_id, b.session_id);
    assert_ne!(a.secret_token, b.secret_token);
    for identity in [a, b] {
        let id: Vec<char> = identity.session_id.chars().collect();
        assert_eq!(id.len(), 36);
        for i in 0..36 {
            if [8, 13, 18, 23].contains(&i) {
                assert_eq!(id[i], '-');
            } else {
                assert!(id[i].is_ascii_digit() || ('a'..='f').contains(&id[i]));
            }
        }
        assert_eq!(id[14], '4');
        assert!(['8', '9', 'a', 'b'].contains(&id[19]));
        let token: Vec<char> = identity.secret_token.chars().collect();
        assert_eq!(token.len(), 64);
        assert!(token.iter().all(|c| c.is_ascii_digit() || ('a'..='f').contains(c)));
        assert_eq!(token[12], '4');
        assert_eq!(token[44], '4');
    }
}

#[test]
fn routes_of_the_endpoints() {
    let routes = [
        (Endpoint::Health, Method::Get, "/api/health"),
        (Endpoint::CreateSession, Method::Post, "/api/sessions"),
        (Endpoint::GetSession, Method::Get, "/api/sessions/{id}"),
        (Endpoint::DeleteSession, Method::Delete, "/api/sessions/{id}"),
        (Endpoint::UploadChunk, Method::Post, "/api/sessions/{id}/chunks"),
        (Endpoint::FinalizeSession, Method::Post, "/api/sessions/{id}/finalize"),
        (Endpoint::DownloadFile, Method::Get, "/api/sessions/{id}/file"),
        (Endpoint::UploadChunkByToken, Method::Post, "/api/r/{token}/chunks"),
        (Endpoint::FinalizeByToken, Method::Post, "/api/r/{token}/finalize"),
        (Endpoint::DeleteByToken, Method::Delete, "/api/r/{token}"),
        (Endpoint::DownloadFileByToken, Method::Get, "/r/{token}/file"),
        (Endpoint::RecorderPage, Method::Get, "/r/{token}"),
        (Endpoint::RecorderPageWithSlash, Method::Get, "/r/{token}/"),
    ];
    for (endpoint, expected_method, expected_pattern) in routes {
        assert_eq!(method(endpoint), expected_method);
        assert_eq!(pattern(endpoint), expected_pattern);
    }
}

#[test]
fn encoded_bytes_come_back() {
    let mut bytes: Vec<u8> = Vec::new();
    for i in 0..=255u8 {
        let text = base64::engine::general_purpose::STANDARD.encode(&bytes);
        assert_eq!(chunk_bytes(&text).unwrap(), bytes);
        bytes.push(i.wrapping_mul(37));
    }
}

#[test]
fn different_bytes_have_different_texts() {
    let mut seen: Vec<String> = Vec::new();
    for a in 0..=255u8 {
        let text = lower_hex_text(&[a]);
        assert!(!seen.contains(&text));
        seen.push(text);
    }
    let id = [7; 16];
    let token = |first: u8, second: u8| {
        session_identity(&id, &[first; 16], &[second; 16]).secret_token
    };
    assert_ne!(token(1, 2), token(2, 1));
    assert_ne!(token(1, 2), token(1, 3));
    assert_eq!(token(1, 2), token(1, 2));
}

#[test]
fn links_lead_to_their_endpoints() {
    let at = |endpoint, token: &str| pattern(endpoint).replace("{token}", token);
    assert_eq!(at(Endpoint::RecorderPageWithSlash, "t1"), "/r/t1/");
    assert_eq!(at(Endpoint::DownloadFileByToken, "t1"), "/r/t1/file");
    assert_eq!(at(Endpoint::DeleteByToken, "t1"), "/api/r/t1");
    assert_eq!(at(Endpoint::UploadChunkByToken, "t1"), "/api/r/t1/chunks");
    assert_eq!(at(Endpoint::FinalizeByToken, "t1"), "/api/r/t1/finalize");
}
