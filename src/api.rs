//! Messages exchanged with the local API server and its client.

use crate::error::prefixed;
use crate::text::{decimal, push_decimal};
use vstd::prelude::*;
use vstd::string::*;

verus! {

/// Health check response
#[derive(Debug, Clone)]
pub struct HealthResponse {
    pub status: String,
    pub version: String,
}

/// Refresh response
#[derive(Debug, Clone)]
pub struct RefreshResponse {
    pub success: bool,
    pub message: String,
}

/// Error response
#[derive(Debug, Clone)]
pub struct ErrorResponse {
    pub error: String,
}

/// Result of a connection test, with a hint for the user on failure.
#[derive(Debug, Clone)]
pub struct TestConnectionResult {
    pub success: bool,
    pub error_code: Option<String>,
    pub error_message: Option<String>,
    pub hint: Option<String>,
}

/// Failures of the client's calls to the API server.
#[derive(Debug, Clone)]
pub enum ApiError {
    /// Could not connect to the API server
    ConnectionFailed(String),
    /// Server returned an error response
    ServerError(u16, String),
    /// Failed to parse response
    ParseError(String),
    /// Authentication failed
    Unauthorized,
}

impl ApiError {
    pub open spec fn message(&self) -> Seq<char> {
        match self {
            ApiError::ConnectionFailed(m) => "Could not connect to AI Pulse\n\n"@ + m@
                + "\n\nTo fix this:\n1. Make sure AI Pulse is running\n2. Go to Settings > Developer and enable \"Local API Server\"\n3. Check that the port matches your CLI config"@,
            ApiError::ServerError(code, m) => "Server error ("@ + decimal(*code as nat) + "): "@
                + m@,
            ApiError::ParseError(m) => "Failed to parse response: "@ + m@,
            ApiError::Unauthorized => "Authentication failed\n\nYour CLI token doesn't match the one configured in AI Pulse.\nCheck Settings > Developer in the app to get the correct token."@,
        }
    }

    pub fn to_string(&self) -> (r: String)
        ensures
            r@ == self.message(),
    {
        match self {
            ApiError::ConnectionFailed(m) => {
                let mut r = prefixed("Could not connect to AI Pulse\n\n", m);
                r.append(
                    "\n\nTo fix this:\n1. Make sure AI Pulse is running\n2. Go to Settings > Developer and enable \"Local API Server\"\n3. Check that the port matches your CLI config",
                );
                r
            },
            ApiError::ServerError(code, m) => {
                let mut r = String::from_str("Server error (");
                push_decimal(&mut r, *code as u64);
                r.append("): ");
                r.append(m.as_str());
                r
            },
            ApiError::ParseError(m) => prefixed("Failed to parse response: ", m),
            ApiError::Unauthorized => String::from_str(
                "Authentication failed\n\nYour CLI token doesn't match the one configured in AI Pulse.\nCheck Settings > Developer in the app to get the correct token.",
            ),
        }
    }
}

/// Characters a URL query carries as they are.
pub open spec fn unreserved(c: char) -> bool {
    ('A' <= c && c <= 'Z') || ('a' <= c && c <= 'z') || ('0' <= c && c <= '9') || c == '-' || c
        == '_' || c == '.' || c == '~'
}

/// The upper-case hexadecimal digit of `d` (below 16).
pub open spec fn hex_digit(d: nat) -> char {
    if d < 10 {
        ((d + '0' as nat) as u32) as char
    } else {
        ((d - 10 + 'A' as nat) as u32) as char
    }
}

/// How one character is written in a query: unreserved characters as they
/// are, others as `%` and two hexadecimal digits of the character's low
/// byte.
pub open spec fn encoded_char(c: char) -> Seq<char> {
    if unreserved(c) {
        seq![c]
    } else {
        let b = (c as u32 % 256) as nat;
        seq!['%', hex_digit(b / 16), hex_digit(b % 16)]
    }
}

pub open spec fn url_encoded(s: Seq<char>) -> Seq<char>
    decreases s.len(),
{
    if s.len() == 0 {
        seq![]
    } else {
        url_encoded(s.drop_last()) + encoded_char(s.last())
    }
}

fn hex_text(d: u32) -> (r: &'static str)
    requires
        d < 16,
    ensures
        r@ == seq![hex_digit(d as nat)],
{
    proof {
        reveal_strlit("0");
        reveal_strlit("1");
        reveal_strlit("2");
        reveal_strlit("3");
        reveal_strlit("4");
        reveal_strlit("5");
        reveal_strlit("6");
        reveal_strlit("7");
        reveal_strlit("8");
        reveal_strlit("9");
        reveal_strlit("A");
        reveal_strlit("B");
        reveal_strlit("C");
        reveal_strlit("D");
        reveal_strlit("E");
        reveal_strlit("F");
    }
    let r = if d == 0 { "0" }
    else if d == 1 { "1" }
    else if d == 2 { "2" }
    else if d == 3 { "3" }
    else if d == 4 { "4" }
    else if d == 5 { "5" }
    else if d == 6 { "6" }
    else if d == 7 { "7" }
    else if d == 8 { "8" }
    else if d == 9 { "9" }
    else if d == 10 { "A" }
    else if d == 11 { "B" }
    else if d == 12 { "C" }
    else if d == 13 { "D" }
    else if d == 14 { "E" }
    else { "F" };
    assert(r@ =~= seq![hex_digit(d as nat)]);
    r
}

/// Percent-encodes `s` for a URL query.
pub fn urlencoding_encode(s: &str) -> (r: String)
    ensures
        r@ == url_encoded(s@),
{
    let n = s.unicode_len();
    let mut out = String::new();
    let mut i: usize = 0;
    while i < n
        invariant
            n == s@.len(),
            i <= n,
            out@ == url_encoded(s@.take(i as int)),
        decreases n - i,
    {
        let c = s.get_char(i);
        proof {
            assert(s@.take(i + 1).drop_last() =~= s@.take(i as int));
            assert(s@.take(i + 1).last() == c);
        }
        let ghost before = out@;
        if ('A' <= c && c <= 'Z') || ('a' <= c && c <= 'z') || ('0' <= c && c <= '9') || c == '-'
            || c == '_' || c == '.' || c == '~' {
            let one = s.substring_char(i, i + 1);
            proof {
                assert(one@ =~= seq![c]);
            }
            out.append(one);
        } else {
            let b: u32 = (c as u32) % 256;
            out.append("%");
            out.append(hex_text(b / 16));
            out.append(hex_text(b % 16));
        }
        proof {
            reveal_strlit("%");
            assert(out@ =~= before + encoded_char(c));
        }
        i = i + 1;
    }
    proof {
        assert(s@.take(n as int) =~= s@);
    }
    out
}

} // verus!
