//! Configuration of the command-line client.

use crate::error::prefixed;
use vstd::prelude::*;
use vstd::string::*;

verus! {

/// Port of the local API server when none is configured.
pub const DEFAULT_PORT: u16 = 31415;

/// Lowest port the client accepts.
pub const MIN_PORT: u16 = 1024;

pub open spec fn is_digit(c: char) -> bool {
    '0' <= c && c <= '9'
}

pub open spec fn all_digits(s: Seq<char>) -> bool {
    forall|i: int| 0 <= i < s.len() ==> is_digit(#[trigger] s[i])
}

/// The number written by the decimal digits `s`.
pub open spec fn digits_value(s: Seq<char>) -> int
    decreases s.len(),
{
    if s.len() == 0 {
        0
    } else {
        digits_value(s.drop_last()) * 10 + (s.last() as int - '0' as int)
    }
}

/// The `u16` that `s` writes: an optional `+`, then one or more decimal
/// digits, of value at most 65535.
pub open spec fn parsed_u16(s: Seq<char>) -> Option<u16> {
    let d = if s.len() > 0 && s[0] == '+' {
        s.skip(1)
    } else {
        s
    };
    if d.len() > 0 && all_digits(d) && digits_value(d) <= 65535 {
        Some(digits_value(d) as u16)
    } else {
        None
    }
}

proof fn lemma_digits_value_grows(s: Seq<char>, k: int)
    requires
        0 <= k <= s.len(),
        all_digits(s),
    ensures
        digits_value(s) >= digits_value(s.take(k)),
        digits_value(s.take(k)) >= 0,
    decreases s.len(),
{
    if k == s.len() {
        assert(s.take(k) =~= s);
        lemma_digits_value_nonneg(s);
    } else {
        let t = s.drop_last();
        assert(t.take(k) =~= s.take(k));
        lemma_digits_value_grows(t, k);
        lemma_digits_value_nonneg(t);
    }
}

proof fn lemma_digits_value_nonneg(s: Seq<char>)
    requires
        all_digits(s),
    ensures
        digits_value(s) >= 0,
    decreases s.len(),
{
    if s.len() > 0 {
        lemma_digits_value_nonneg(s.drop_last());
    }
}

/// Reads a `u16` written in decimal, as `str::parse::<u16>` does.
pub fn parse_u16(s: &str) -> (r: Option<u16>)
    ensures
        r == parsed_u16(s@),
{
    let n = s.unicode_len();
    let mut start: usize = 0;
    if n > 0 && s.get_char(0) == '+' {
        start = 1;
    }
    let ghost d = if s@.len() > 0 && s@[0] == '+' {
        s@.skip(1)
    } else {
        s@
    };
    assert(d =~= s@.subrange(start as int, n as int));
    assert(parsed_u16(s@) == (if d.len() > 0 && all_digits(d) && digits_value(d) <= 65535 {
        Some(digits_value(d) as u16)
    } else {
        None
    }));
    if start == n {
        return None;
    }
    let mut acc: u32 = 0;
    let mut i: usize = start;
    while i < n
        invariant
            n == s@.len(),
            start <= i <= n,
            start < n,
            d == s@.subrange(start as int, n as int),
            parsed_u16(s@) == (if d.len() > 0 && all_digits(d) && digits_value(d) <= 65535 {
                Some(digits_value(d) as u16)
            } else {
                None
            }),
            all_digits(d.take(i - start)),
            acc as int == digits_value(d.take(i - start)),
            acc <= 65535,
        decreases n - i,
    {
        let c = s.get_char(i);
        proof {
            assert(d.take(i - start + 1).drop_last() =~= d.take(i - start));
            assert(d[i - start] == c);
            assert(d.take(i - start + 1).last() == c);
        }
        if c < '0' || c > '9' {
            proof {
                assert(!is_digit(d[i - start]));
                assert(!all_digits(d));
            }
            return None;
        }
        let v = (c as u32) - ('0' as u32);
        acc = acc * 10 + v;
        proof {
            assert(all_digits(d.take(i - start + 1)));
            assert(acc as int == digits_value(d.take(i - start + 1)));
        }
        if acc > 65535 {
            proof {
                if all_digits(d) {
                    lemma_digits_value_grows(d, i - start + 1);
                    assert(digits_value(d) > 65535);
                }
            }
            return None;
        }
        i = i + 1;
    }
    proof {
        assert(d.take(n - start) =~= d);
    }
    Some(acc as u16)
}

/// Configuration of the command-line client.
#[derive(Debug, Clone)]
pub struct Config {
    /// API server port
    pub port: u16,
    /// Authentication token
    pub token: Option<String>,
}

pub fn default_port() -> (r: u16)
    ensures
        r == DEFAULT_PORT,
{
    DEFAULT_PORT
}

impl Default for Config {
    fn default() -> (r: Self)
        ensures
            r.port == DEFAULT_PORT,
            r.token is None,
    {
        Config { port: default_port(), token: None }
    }
}

impl Config {
    /// Sets the value of `key` from text: `port` takes a number from 1024
    /// to 65535, `token` takes any text (empty text removes the token).
    pub fn set(&mut self, key: &str, value: &str) -> (r: Result<(), String>)
        ensures
            key@ == "port"@ ==> match parsed_u16(value@) {
                None => (r matches Err(m) && m@ == "Port must be a number between 1024 and 65535"@),
                Some(p) => if p < MIN_PORT {
                    (r matches Err(m) && m@ == "Port must be at least 1024"@)
                } else {
                    r is Ok && final(self).port == p
                },
            },
            key@ == "port"@ && r is Err ==> *final(self) == *old(self),
            key@ == "port"@ ==> final(self).token == old(self).token,
            key@ == "token"@ ==> {
                &&& r is Ok
                &&& final(self).port == old(self).port
                &&& (value@.len() == 0 ==> final(self).token is None)
                &&& (value@.len() > 0 ==> (final(self).token matches Some(t) && t@ == value@))
            },
            key@ != "port"@ && key@ != "token"@ ==> {
                &&& *final(self) == *old(self)
                &&& (r matches Err(m) && m@ == "Unknown config key: "@ + key@
                    + ". Valid keys are: port, token"@)
            },
    {
        proof {
            reveal_strlit("port");
            reveal_strlit("token");
            assert("port"@.len() == 4);
            assert("token"@.len() == 5);
        }
        let k = String::from_str(key);
        if k == String::from_str("port") {
            match parse_u16(value) {
                None => Err(String::from_str("Port must be a number between 1024 and 65535")),
                Some(port) => {
                    if port < MIN_PORT {
                        return Err(String::from_str("Port must be at least 1024"));
                    }
                    self.port = port;
                    Ok(())
                },
            }
        } else if k == String::from_str("token") {
            if value.unicode_len() == 0 {
                self.token = None;
            } else {
                self.token = Some(String::from_str(value));
            }
            Ok(())
        } else {
            let mut m = prefixed("Unknown config key: ", &k);
            m.append(". Valid keys are: port, token");
            Err(m)
        }
    }
}

} // verus!
