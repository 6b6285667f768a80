//! The local dashboard's access rules: the secret session token in its URL,
//! the one origin it answers, and the headers every response carries.
use vstd::prelude::*;

use crate::text::{push_char, str_equal};

verus! {

broadcast use vstd::string::group_string_axioms;

/// Number of random bytes in a session token.
pub const SESSION_TOKEN_BYTES: usize = 16;

/// The lowercase hexadecimal digit of a value below sixteen.
pub open spec fn hex_digit(d: nat) -> char {
    if d < 10 {
        ('0' as nat + d) as char
    } else {
        ('a' as nat + d - 10) as char
    }
}

/// Each byte as two lowercase hexadecimal digits, high digit first, in order
/// (`{:02x}` per byte).
pub open spec fn hex_of(bytes: Seq<u8>) -> Seq<char>
    decreases bytes.len(),
{
    if bytes.len() == 0 {
        Seq::empty()
    } else {
        hex_of(bytes.drop_last()) + seq![
            hex_digit((bytes.last() / 16) as nat),
            hex_digit((bytes.last() % 16) as nat),
        ]
    }
}

/// Whether a character is a lowercase hexadecimal digit.
pub open spec fn is_lower_hex(c: char) -> bool {
    ('0' <= c && c <= '9') || ('a' <= c && c <= 'f')
}

/// Hexadecimal text has two digits per byte, all of them lowercase
/// hexadecimal digits.
pub proof fn lemma_hex_text_shape(bytes: Seq<u8>)
    ensures
        hex_of(bytes).len() == 2 * bytes.len(),
        forall|i: int| 0 <= i < hex_of(bytes).len() ==> is_lower_hex(#[trigger] hex_of(bytes)[i]),
    decreases bytes.len(),
{
    if bytes.len() > 0 {
        lemma_hex_text_shape(bytes.drop_last());
        let front = hex_of(bytes.drop_last());
        let pair = seq![
            hex_digit((bytes.last() / 16) as nat),
            hex_digit((bytes.last() % 16) as nat),
        ];
        assert forall|i: int| 0 <= i < hex_of(bytes).len() implies is_lower_hex(
            #[trigger] hex_of(bytes)[i],
        ) by {
            if i < front.len() {
                assert(hex_of(bytes)[i] == front[i]);
            } else {
                assert(hex_of(bytes)[i] == pair[i - front.len()]);
            }
        }
    }
}

fn hex_char(d: u8) -> (c: char)
    requires
        d < 16,
    ensures
        c == hex_digit(d as nat),
{
    match d {
        0 => '0',
        1 => '1',
        2 => '2',
        3 => '3',
        4 => '4',
        5 => '5',
        6 => '6',
        7 => '7',
        8 => '8',
        9 => '9',
        10 => 'a',
        11 => 'b',
        12 => 'c',
        13 => 'd',
        14 => 'e',
        _ => 'f',
    }
}

/// The bytes as lowercase hexadecimal text (see `hex_of`).
pub fn hex_text(bytes: &Vec<u8>) -> (text: String)
    ensures
        text@ == hex_of(bytes@),
{
    let mut text = String::new();
    let mut i: usize = 0;
    assert(bytes@.take(0) =~= Seq::<u8>::empty());
    while i < bytes.len()
        invariant
            i <= bytes.len(),
            text@ == hex_of(bytes@.take(i as int)),
        decreases bytes.len() - i,
    {
        let b = bytes[i];
        push_char(&mut text, hex_char(b / 16));
        push_char(&mut text, hex_char(b % 16));
        assert(bytes@.take(i + 1).drop_last() =~= bytes@.take(i as int));
        assert(bytes@.take(i + 1).last() == b);
        i = i + 1;
    }
    assert(bytes@.take(i as int) =~= bytes@);
    text
}

/// Random bytes from the operating system (`getrandom::fill` on a buffer of
/// `count` bytes); the error is the text of `getrandom::Error`.  The bytes are
/// chance, so only their number is stated.
#[verifier::external_body]
fn random_bytes(count: usize) -> (r: Result<Vec<u8>, String>)
    ensures
        r matches Ok(bytes) ==> bytes@.len() == count,
{
    let mut bytes = vec![0_u8; count];
    match getrandom::fill(&mut bytes) {
        Ok(()) => Ok(bytes),
        Err(error) => Err(error.to_string()),
    }
}

/// The text of a failure to draw a session token.
pub open spec fn token_failure_text(reason: Seq<char>) -> Seq<char> {
    "failed to create a dashboard session token: "@ + reason
}

/// A fresh session token: sixteen random bytes as lowercase hexadecimal text.
/// Two calls give different tokens but by chance, which no clause can state.
pub fn session_token() -> (r: Result<String, String>)
    ensures
        r matches Ok(token) ==> exists|bytes: Seq<u8>|
            bytes.len() == SESSION_TOKEN_BYTES && token@ == #[trigger] hex_of(bytes),
        r matches Err(message) ==> exists|reason: Seq<char>|
            message@ == #[trigger] token_failure_text(reason),
{
    match random_bytes(SESSION_TOKEN_BYTES) {
        Ok(bytes) => {
            let token = hex_text(&bytes);
            assert(token@ == hex_of(bytes@));
            Ok(token)
        },
        Err(reason) => {
            let mut message = String::from_str("failed to create a dashboard session token: ");
            message.append(reason.as_str());
            assert(message@ == token_failure_text(reason@));
            Err(message)
        },
    }
}

/// Whether a request may be served: it names, in its `Host` header, exactly
/// the loopback origin the dashboard listens on.  A missing header, or one
/// that is not visible ASCII text (`None` here), is refused.
pub fn request_is_allowed(host: Option<&str>, expected_host: &str) -> (allowed: bool)
    ensures
        allowed == (host matches Some(h) && h@ == expected_host@),
{
    match host {
        Some(h) => str_equal(h, expected_host),
        None => false,
    }
}

/// The headers every dashboard response carries, by name and value.
pub open spec fn security_header_pairs() -> Seq<(Seq<char>, Seq<char>)> {
    seq![
        ("cache-control"@, "no-store"@),
        (
            "content-security-policy"@,
            "default-src 'none'; script-src 'self'; style-src 'self'; connect-src 'self'; img-src 'self' data:; font-src 'none'; frame-ancestors 'none'; base-uri 'none'; form-action 'none'"@,
        ),
        ("x-content-type-options"@, "nosniff"@),
        ("referrer-policy"@, "no-referrer"@),
        ("x-frame-options"@, "DENY"@),
    ]
}

fn header(name: &str, value: &str) -> (pair: (String, String))
    ensures
        pair.0@ == name@,
        pair.1@ == value@,
{
    (name.to_string(), value.to_string())
}

/// The headers every dashboard response carries (see `security_header_pairs`).
pub fn security_headers() -> (headers: Vec<(String, String)>)
    ensures
        headers@.map_values(|h: (String, String)| (h.0@, h.1@)) == security_header_pairs(),
{
    let mut headers: Vec<(String, String)> = Vec::new();
    headers.push(header("cache-control", "no-store"));
    headers.push(
        header(
            "content-security-policy",
            "default-src 'none'; script-src 'self'; style-src 'self'; connect-src 'self'; img-src 'self' data:; font-src 'none'; frame-ancestors 'none'; base-uri 'none'; form-action 'none'",
        ),
    );
    headers.push(header("x-content-type-options", "nosniff"));
    headers.push(header("referrer-policy", "no-referrer"));
    headers.push(header("x-frame-options", "DENY"));
    assert(headers@.map_values(|h: (String, String)| (h.0@, h.1@)) =~= security_header_pairs());
    headers
}

} // verus!
