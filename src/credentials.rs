//! Credential records and the check of their shape.

use crate::models::{Account, Credentials};
use std::collections::HashMap;
use vstd::prelude::*;

verus! {

/// Whether `c` has the Unicode White_Space property (the characters for
/// which std's `char::is_whitespace` holds): tab through carriage return,
/// space, next line, no-break space, ogham space mark, the spaces from en
/// quad to hair space, line and paragraph separators, narrow no-break
/// space, medium mathematical space and ideographic space.
pub open spec fn is_white_space(c: char) -> bool {
    let u = c as u32;
    (0x09 <= u && u <= 0x0D) || u == 0x20 || u == 0x85 || u == 0xA0 || u == 0x1680 || (0x2000 <= u
        && u <= 0x200A) || u == 0x2028 || u == 0x2029 || u == 0x202F || u == 0x205F || u == 0x3000
}

fn char_is_whitespace(c: char) -> (r: bool)
    ensures
        r == is_white_space(c),
{
    let u = c as u32;
    (0x09 <= u && u <= 0x0D) || u == 0x20 || u == 0x85 || u == 0xA0 || u == 0x1680 || (0x2000 <= u
        && u <= 0x200A) || u == 0x2028 || u == 0x2029 || u == 0x202F || u == 0x205F || u == 0x3000
}

/// Text that holds something besides white space.
pub open spec fn has_content(s: Seq<char>) -> bool {
    exists|i: int| 0 <= i < s.len() && !is_white_space(#[trigger] s[i])
}

/// A field that is present and not blank.
pub open spec fn field_set(o: Option<String>) -> bool {
    match o {
        Some(s) => has_content(s@),
        None => false,
    }
}

/// The stored form of the credential store.
#[derive(Debug, Clone)]
pub struct CredentialStore {
    pub version: u32,
    pub accounts: HashMap<String, Account>,
}

/// Checks on credentials.
pub struct CredentialService;

fn not_blank(s: &str) -> (r: bool)
    ensures
        r == has_content(s@),
{
    let n = s.unicode_len();
    let mut i: usize = 0;
    while i < n
        invariant
            n == s@.len(),
            i <= n,
            forall|j: int| 0 <= j < i ==> is_white_space(#[trigger] s@[j]),
        decreases n - i,
    {
        if !char_is_whitespace(s.get_char(i)) {
            return true;
        }
        i = i + 1;
    }
    false
}

fn field_present(o: &Option<String>) -> (r: bool)
    ensures
        r == field_set(*o),
{
    match o {
        Some(s) => not_blank(s.as_str()),
        None => false,
    }
}

impl CredentialService {
    /// The credentials carry an organization id and a session key, neither
    /// blank.
    pub fn validate_claude(credentials: &Credentials) -> (r: bool)
        ensures
            r == (field_set(credentials.org_id) && field_set(credentials.session_key)),
    {
        let has_org_id = field_present(&credentials.org_id);
        let has_session_key = field_present(&credentials.session_key);
        has_org_id && has_session_key
    }
}

} // verus!
