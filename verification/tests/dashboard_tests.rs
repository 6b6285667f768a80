use simple_profiler::dashboard::{hex_text, request_is_allowed, security_headers, session_token};

#[test]
fn session_tokens_are_random_hex_values() {
    let first = session_token().expect("first token");
    let second = session_token().expect("second token");
    assert_eq!(first.len(), 32);
    assert!(first.chars().all(|character| character.is_ascii_hexdigit()));
    assert_ne!(first, second);
}

#[test]
fn bytes_become_two_lowercase_hex_digits_each() {
    assert_eq!(hex_text(&vec![0x00, 0x0f, 0xa5, 0xff, 0x10]), "000fa5ff10");
    assert_eq!(hex_text(&Vec::new()), "");
    let all: Vec<u8> = (0..=255).collect();
    let expected: String = all.iter().map(|byte| format!("{byte:02x}")).collect();
    assert_eq!(hex_text(&all), expected);
}

#[test]
fn only_the_loopback_origin_is_served() {
    assert!(request_is_allowed(Some("127.0.0.1:8080"), "127.0.0.1:8080"));
    assert!(!request_is_allowed(Some("localhost:8080"), "127.0.0.1:8080"));
    assert!(!request_is_allowed(Some("127.0.0.1:80"), "127.0.0.1:8080"));
    assert!(!request_is_allowed(None, "127.0.0.1:8080"));
}

#[test]
fn responses_carry_the_security_headers() {
    let headers = security_headers();
    let names: Vec<&str> = headers.iter().map(|(name, _)| name.as_str()).collect();
    assert_eq!(
        names,
        vec![
            "cache-control",
            "content-security-policy",
            "x-content-type-options",
            "referrer-policy",
            "x-frame-options"
        ]
    );
    assert_eq!(headers[0].1, "no-store");
    assert!(headers[1].1.starts_with("default-src 'none'; script-src 'self';"));
    assert!(headers[1].1.ends_with("form-action 'none'"));
    assert_eq!(headers[2].1, "nosniff");
    assert_eq!(headers[3].1, "no-referrer");
    assert_eq!(headers[4].1, "DENY");
}
