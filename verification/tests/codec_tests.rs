use hoppscotch_relay::codec::{decode_content, encode_content, sanitize_filename, Payload};
use hoppscotch_relay::encoding::{form_urlencode, percent_encode};
use hoppscotch_relay::interop::ContentType;

fn bytes_payload(p: &Payload) -> &Vec<u8> {
    match p {
        Payload::Bytes { data } => data,
        Payload::Multipart { .. } => panic!("expected a bytes payload"),
    }
}

#[test]
fn text_encode_sets_body_and_header() {
    let c = ContentType::Text { content: "hello".to_string() };
    let enc = encode_content(&c).unwrap();
    assert_eq!(bytes_payload(&enc.payload), b"hello");
    assert_eq!(enc.headers.len(), 1);
    assert_eq!(enc.headers[0].0, "Content-Type");
    assert_eq!(enc.headers[0].1, vec!["text/plain".to_string()]);
}

#[test]
fn text_round_trip() {
    let c = ContentType::Text { content: "grüße, world".to_string() };
    let enc = encode_content(&c).unwrap();
    let body = bytes_payload(&enc.payload).clone();
    match decode_content(&enc.headers, &body) {
        ContentType::Text { content } => assert_eq!(content, "grüße, world"),
        _ => panic!("expected text content"),
    }
}

#[test]
fn json_round_trip() {
    let v: serde_json::Value = serde_json::from_str("{\"a\":1,\"b\":[true,null]}").unwrap();
    let c = ContentType::Json { content: v.clone() };
    let enc = encode_content(&c).unwrap();
    assert_eq!(enc.headers[0].1, vec!["application/json".to_string()]);
    let body = bytes_payload(&enc.payload).clone();
    match decode_content(&enc.headers, &body) {
        ContentType::Json { content } => assert_eq!(content, v),
        _ => panic!("expected json content"),
    }
}

#[test]
fn json_response_parses_object() {
    let headers = vec![("Content-Type".to_string(), vec!["application/json".to_string()])];
    let body = b"{\"a\":1}".to_vec();
    match decode_content(&headers, &body) {
        ContentType::Json { content } => {
            let expected: serde_json::Value = serde_json::from_str("{\"a\":1}").unwrap();
            assert_eq!(content, expected);
        },
        _ => panic!("expected json content"),
    }
}

#[test]
fn json_response_falls_back_to_text() {
    let headers = vec![("Content-Type".to_string(), vec!["application/json".to_string()])];
    let body = b"not-json".to_vec();
    match decode_content(&headers, &body) {
        ContentType::Text { content } => assert_eq!(content, "not-json"),
        _ => panic!("expected text fallback"),
    }
}

#[test]
fn deeply_nested_json_serializes_but_decodes_as_text() {
    let mut v = serde_json::Value::Null;
    let mut i = 0;
    while i < 200 {
        v = serde_json::Value::Array(vec![v]);
        i += 1;
    }
    let c = ContentType::Json { content: v };
    let enc = encode_content(&c).unwrap();
    let body = bytes_payload(&enc.payload).clone();
    match decode_content(&enc.headers, &body) {
        ContentType::Text { content } => assert!(content.starts_with("[[[")),
        _ => panic!("a body past the parser's recursion limit must fall back to text"),
    }
}

#[test]
fn decode_without_content_type_is_text() {
    let headers: Vec<(String, Vec<String>)> = Vec::new();
    let body = b"anything".to_vec();
    match decode_content(&headers, &body) {
        ContentType::Text { content } => assert_eq!(content, "anything"),
        _ => panic!("expected text content"),
    }
}

#[test]
fn decode_invalid_utf8_degrades_lossily() {
    let headers: Vec<(String, Vec<String>)> = Vec::new();
    let body = vec![0xff, 0xfe];
    match decode_content(&headers, &body) {
        ContentType::Text { content } => assert_eq!(content, "\u{FFFD}\u{FFFD}"),
        _ => panic!("expected text content"),
    }
}

#[test]
fn percent_encode_exact() {
    assert_eq!(percent_encode(b"a b/~"), "a%20b%2F~");
    assert_eq!(percent_encode(b""), "");
    assert_eq!(percent_encode(b"AZaz09-._~"), "AZaz09-._~");
    assert_eq!(percent_encode(b"k=v&x"), "k%3Dv%26x");
}

#[test]
fn form_urlencode_exact() {
    let pairs = vec![
        ("a b".to_string(), "c&d".to_string()),
        ("k".to_string(), "v".to_string()),
    ];
    assert_eq!(form_urlencode(&pairs), "a%20b=c%26d&k=v");
    let empty: Vec<(String, String)> = Vec::new();
    assert_eq!(form_urlencode(&empty), "");
}

#[test]
fn urlencoded_round_trip() {
    let pairs = vec![("a b".to_string(), "c&d".to_string())];
    let c = ContentType::UrlEncoded { content: pairs };
    let enc = encode_content(&c).unwrap();
    assert_eq!(
        enc.headers[0].1,
        vec!["application/x-www-form-urlencoded".to_string()]
    );
    let body = bytes_payload(&enc.payload).clone();
    assert_eq!(body, b"a%20b=c%26d".to_vec());
    match decode_content(&enc.headers, &body) {
        ContentType::Text { content } => assert_eq!(content, "a%20b=c%26d"),
        _ => panic!("expected text content"),
    }
}

#[test]
fn binary_default_media_type() {
    let c = ContentType::Binary { content: vec![1, 2, 3], media_type: None, filename: None };
    let enc = encode_content(&c).unwrap();
    assert_eq!(bytes_payload(&enc.payload), &vec![1, 2, 3]);
    assert_eq!(enc.headers.len(), 1);
    assert_eq!(enc.headers[0].1, vec!["application/octet-stream".to_string()]);
}

#[test]
fn binary_filename_is_sanitized() {
    let c = ContentType::Binary {
        content: vec![0u8],
        media_type: Some("application/x-sh".to_string()),
        filename: Some("../../evil.sh".to_string()),
    };
    let enc = encode_content(&c).unwrap();
    assert_eq!(enc.headers.len(), 2);
    assert_eq!(enc.headers[0].1, vec!["application/x-sh".to_string()]);
    assert_eq!(enc.headers[1].0, "Content-Disposition");
    assert_eq!(
        enc.headers[1].1,
        vec!["form-data; name=\"file\"; filename=\"evil.sh\"".to_string()]
    );
}

#[test]
fn sanitize_filename_cases() {
    assert_eq!(sanitize_filename("../../evil.sh"), "evil.sh");
    assert_eq!(sanitize_filename("plain.txt"), "plain.txt");
    assert_eq!(sanitize_filename("a/b/c"), "c");
    assert_eq!(sanitize_filename(""), "");
}

#[test]
fn form_field_with_signature_becomes_file_part() {
    let png: Vec<u8> = vec![0x89, 0x50, 0x4E, 0x47, 0x0D, 0x0A, 0x1A, 0x0A, 0, 0, 0, 0];
    let c = ContentType::Form { content: vec![("field".to_string(), png.clone())] };
    let enc = encode_content(&c).unwrap();
    assert!(enc.headers.is_empty());
    match &enc.payload {
        Payload::Multipart { parts } => {
            assert_eq!(parts.len(), 1);
            assert_eq!(parts[0].name, "field");
            assert_eq!(parts[0].filename.as_deref(), Some("file.png"));
            assert_eq!(parts[0].content_type.as_deref(), Some("image/png"));
            assert_eq!(parts[0].data, png);
        },
        _ => panic!("expected multipart payload"),
    }
}

#[test]
fn form_field_without_signature_is_plain() {
    let c = ContentType::Form { content: vec![("field".to_string(), b"hello".to_vec())] };
    let enc = encode_content(&c).unwrap();
    match &enc.payload {
        Payload::Multipart { parts } => {
            assert_eq!(parts.len(), 1);
            assert!(parts[0].filename.is_none());
            assert!(parts[0].content_type.is_none());
            assert_eq!(parts[0].data, b"hello".to_vec());
        },
        _ => panic!("expected multipart payload"),
    }
}
