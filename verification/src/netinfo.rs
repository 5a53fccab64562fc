//! Where the companion service listens, and what a health probe of it
//! means.
//!
//! Environment reads and the HTTP probe are I/O and stay with the
//! caller; this module turns their results into the bind address, the
//! port, the base URL, and the action a probe outcome calls for.

use vstd::prelude::*;

use crate::strutil::{contains_substr, dec_str, has_substring, str_eq, u64_to_string};

verus! {

/// The port used when none is configured.
pub const DEFAULT_FORKSD_PORT: u16 = 38765;

/// A decimal digit.
pub open spec fn is_digit_char(c: char) -> bool {
    48 <= (c as u32) <= 57
}

/// The numeric value of a digit string, most significant first.
pub open spec fn dec_value(s: Seq<char>) -> int
    decreases s.len(),
{
    if s.len() == 0 {
        0
    } else {
        dec_value(s.drop_last()) * 10 + ((s.last() as u32) - 48)
    }
}

/// Every character is a digit.
pub open spec fn all_digits(s: Seq<char>) -> bool {
    forall|i: int| 0 <= i < s.len() ==> is_digit_char(#[trigger] s[i])
}

/// The digits of a port setting: a single leading '+' is allowed.
pub open spec fn u16_body(s: Seq<char>) -> Seq<char> {
    if s.len() > 0 && s[0] == '+' {
        s.drop_first()
    } else {
        s
    }
}

/// What `str::parse::<u16>` accepts: an optional '+', then one or
/// more digits, valuing at most 65535.
pub open spec fn parse_u16_spec(s: Seq<char>) -> Option<u16> {
    if u16_body(s).len() > 0 && all_digits(u16_body(s)) && dec_value(u16_body(s)) <= 65535 {
        Some(dec_value(u16_body(s)) as u16)
    } else {
        None
    }
}

proof fn lemma_dec_value_prefix_grows(s: Seq<char>, i: int)
    requires
        0 <= i <= s.len(),
        0 <= dec_value(s.subrange(0, i)),
        forall|j: int| i <= j < s.len() ==> is_digit_char(#[trigger] s[j]),
    ensures
        dec_value(s.subrange(0, i)) <= dec_value(s),
    decreases s.len() - i,
{
    if i < s.len() {
        assert(s.subrange(0, i + 1).drop_last() =~= s.subrange(0, i));
        assert(s.subrange(0, i + 1).last() == s[i]);
        assert(is_digit_char(s[i]));
        assert(dec_value(s.subrange(0, i + 1)) == dec_value(s.subrange(0, i)) * 10 + ((s[i]
            as u32) - 48));
        assert(dec_value(s.subrange(0, i)) <= dec_value(s.subrange(0, i + 1)));
        lemma_dec_value_prefix_grows(s, i + 1);
    } else {
        assert(s.subrange(0, i) =~= s);
    }
}

/// Parses a decimal port number exactly as `str::parse::<u16>` does.
pub fn parse_u16(s: &str) -> (r: Option<u16>)
    ensures
        r == parse_u16_spec(s@),
{
    let len = s.unicode_len();
    let start: usize = if len > 0 && s.get_char(0) == '+' {
        1
    } else {
        0
    };
    let ghost body = u16_body(s@);
    proof {
        assert(body =~= s@.subrange(start as int, len as int));
    }
    if start == len {
        return None;
    }
    let mut value: u32 = 0;
    let mut i: usize = start;
    while i < len
        invariant
            len == s@.len(),
            body == u16_body(s@),
            body == s@.subrange(start as int, len as int),
            start <= i <= len,
            start < len,
            forall|j: int| 0 <= j < i - start ==> is_digit_char(#[trigger] body[j]),
            value == dec_value(body.subrange(0, i - start)),
            value <= 65535,
        decreases len - i,
    {
        let c = s.get_char(i);
        let code = c as u32;
        if code < 48 || code > 57 {
            proof {
                assert(0 <= i - start < body.len());
                assert(!is_digit_char(body[i - start]));
                assert(!all_digits(body));
                assert(parse_u16_spec(s@) is None);
            }
            return None;
        }
        proof {
            assert(body.subrange(0, i - start + 1).drop_last() =~= body.subrange(0, i - start));
            assert(body.subrange(0, i - start + 1).last() == body[i - start]);
            assert(body[i - start] == s@[i as int]);
        }
        let next: u32 = value * 10 + (code - 48);
        if next > 65535 {
            proof {
                assert(dec_value(body.subrange(0, i - start + 1)) == value * 10 + (code - 48));
                if all_digits(body) {
                    lemma_dec_value_prefix_grows(body, i - start + 1);
                    assert(dec_value(body) > 65535);
                }
                assert(parse_u16_spec(s@) is None);
            }
            return None;
        }
        value = next;
        i += 1;
    }
    proof {
        assert(body.subrange(0, (len - start) as int) =~= body);
    }
    Some(value as u16)
}

/// The configured port: the parsed value of the setting, or the
/// default when it is absent or malformed.
pub fn forksd_port(setting: Option<&str>) -> (r: u16)
    ensures
        r == match setting {
            Some(v) => match parse_u16_spec(v@) {
                Some(p) => p,
                None => DEFAULT_FORKSD_PORT,
            },
            None => DEFAULT_FORKSD_PORT,
        },
{
    match setting {
        Some(v) => match parse_u16(v) {
            Some(p) => p,
            None => DEFAULT_FORKSD_PORT,
        },
        None => DEFAULT_FORKSD_PORT,
    }
}

/// The configured bind address, or the loopback default.
pub fn forksd_bind(setting: Option<String>) -> (r: String)
    ensures
        r@ =~= match setting {
            Some(v) => v@,
            None => "127.0.0.1"@,
        },
{
    match setting {
        Some(v) => v,
        None => String::from_str("127.0.0.1"),
    }
}

/// The base URL for a bind address and port: the address is bracketed
/// when it holds a ':' (an IPv6 literal).
pub open spec fn base_url_spec(bind: Seq<char>, port: u16) -> Seq<char> {
    if has_substring(bind, ":"@) {
        "http://["@ + bind + "]:"@ + dec_str(port as nat)
    } else {
        "http://"@ + bind + ":"@ + dec_str(port as nat)
    }
}

/// The base URL of the companion service.
pub fn forksd_base_url(bind: &str, port: u16) -> (r: String)
    ensures
        r@ =~= base_url_spec(bind@, port),
{
    let port_str = u64_to_string(port as u64);
    if contains_substr(bind, ":") {
        String::from_str("http://[").concat(bind).concat("]:").concat(port_str.as_str())
    } else {
        String::from_str("http://").concat(bind).concat(":").concat(port_str.as_str())
    }
}

/// What a health probe of the companion service calls for.
#[derive(PartialEq, Eq, Structural, Debug)]
pub enum HealthAction {
    /// The service answered healthy: keep the token.
    UseToken,
    /// Nothing answered: spawn the service.
    SpawnService,
    /// The service rejected the token: report the mismatch.
    AuthMismatch,
    /// The service answered with this failing status.
    Failed(u16),
}

/// The rule for a probe outcome: healthy keeps the token; no answer
/// at all spawns the service; a 401 or an "auth_invalid" code is an
/// auth mismatch; anything else fails with its status.
pub open spec fn health_action_spec(ok: bool, code_status: u16, code: Option<Seq<char>>) -> HealthAction {
    if ok {
        HealthAction::UseToken
    } else if code_status == 0 {
        HealthAction::SpawnService
    } else if code_status == 401 || code == Some("auth_invalid"@) {
        HealthAction::AuthMismatch
    } else {
        HealthAction::Failed(code_status)
    }
}

/// Decides what a health probe outcome calls for.
pub fn ensure_forksd_decision(ok: bool, status: u16, code: &Option<String>) -> (r: HealthAction)
    ensures
        r == health_action_spec(
            ok,
            status,
            match code {
                Some(c) => Some(c@),
                None => None,
            },
        ),
{
    if ok {
        return HealthAction::UseToken;
    }
    if status == 0 {
        return HealthAction::SpawnService;
    }
    let auth_invalid = match code {
        Some(c) => str_eq(c.as_str(), "auth_invalid"),
        None => false,
    };
    if status == 401 || auth_invalid {
        return HealthAction::AuthMismatch;
    }
    HealthAction::Failed(status)
}

} // verus!
