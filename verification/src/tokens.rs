//! Bearer-token handling for the companion service: generating a
//! fresh token and deciding whether a stored one can be reused.
//!
//! Reading and writing the token file is I/O and stays with the
//! caller; this module works on the file's content.

use vstd::prelude::*;

use base64::Engine;
use rand::RngCore;

verus! {

/// The characters trimmed around stored tokens and request lines:
/// the Unicode White_Space set, the one `str::trim` removes.
pub open spec fn is_blank_char(c: char) -> bool {
    ||| (9 <= (c as u32) && (c as u32) <= 13)
    ||| c == ' '
    ||| c == '\u{85}'
    ||| c == '\u{a0}'
    ||| c == '\u{1680}'
    ||| (0x2000 <= (c as u32) && (c as u32) <= 0x200a)
    ||| c == '\u{2028}'
    ||| c == '\u{2029}'
    ||| c == '\u{202f}'
    ||| c == '\u{205f}'
    ||| c == '\u{3000}'
}

/// `s` without trailing blanks.
pub open spec fn trim_back(s: Seq<char>) -> Seq<char>
    decreases s.len(),
{
    if s.len() == 0 {
        s
    } else if is_blank_char(s.last()) {
        trim_back(s.drop_last())
    } else {
        s
    }
}

/// `s` without leading blanks.
pub open spec fn trim_front(s: Seq<char>) -> Seq<char>
    decreases s.len(),
{
    if s.len() == 0 {
        s
    } else if is_blank_char(s.first()) {
        trim_front(s.drop_first())
    } else {
        s
    }
}

/// `s` without leading and trailing blanks.
pub open spec fn trim_blank(s: Seq<char>) -> Seq<char> {
    trim_front(trim_back(s))
}

proof fn lemma_trim_back_is_subrange(s: Seq<char>, end: int)
    requires
        0 <= end <= s.len(),
        forall|j: int| end <= j < s.len() ==> is_blank_char(#[trigger] s[j]),
        end == 0 || !is_blank_char(s[end - 1]),
    ensures
        trim_back(s) =~= s.subrange(0, end),
    decreases s.len(),
{
    if s.len() > end {
        lemma_trim_back_is_subrange(s.drop_last(), end);
        assert(s.drop_last().subrange(0, end) =~= s.subrange(0, end));
    } else if s.len() > 0 {
        assert(s.subrange(0, end) =~= s);
    }
}

proof fn lemma_trim_front_is_subrange(s: Seq<char>, begin: int)
    requires
        0 <= begin <= s.len(),
        forall|j: int| 0 <= j < begin ==> is_blank_char(#[trigger] s[j]),
        begin == s.len() || !is_blank_char(s[begin]),
    ensures
        trim_front(s) =~= s.subrange(begin, s.len() as int),
    decreases begin,
{
    if begin > 0 {
        assert(is_blank_char(s.first()));
        let d = s.drop_first();
        assert(forall|j: int| 0 <= j < begin - 1 ==> is_blank_char(#[trigger] d[j]));
        lemma_trim_front_is_subrange(d, begin - 1);
        assert(d.subrange(begin - 1, d.len() as int) =~= s.subrange(begin, s.len() as int));
    } else if s.len() > 0 {
        assert(s.subrange(0, s.len() as int) =~= s);
    } else {
        assert(s.subrange(0, 0) =~= s);
    }
}

fn is_blank_char_exec(c: char) -> (r: bool)
    ensures
        r == is_blank_char(c),
{
    let code = c as u32;
    (9 <= code && code <= 13) || c == ' ' || c == '\u{85}' || c == '\u{a0}' || c == '\u{1680}'
        || (0x2000 <= code && code <= 0x200a) || c == '\u{2028}' || c == '\u{2029}' || c
        == '\u{202f}' || c == '\u{205f}' || c == '\u{3000}'
}

/// `s` with leading and trailing blanks removed.
pub fn trim_blank_exec(s: &str) -> (r: String)
    ensures
        r@ =~= trim_blank(s@),
{
    let len = s.unicode_len();
    let mut end: usize = len;
    while end > 0 && is_blank_char_exec(s.get_char(end - 1))
        invariant
            len == s@.len(),
            0 <= end <= len,
            forall|j: int| end <= j < len ==> is_blank_char(#[trigger] s@[j]),
        decreases end,
    {
        end -= 1;
    }
    proof {
        lemma_trim_back_is_subrange(s@, end as int);
    }
    let mut begin: usize = 0;
    while begin < end && is_blank_char_exec(s.get_char(begin))
        invariant
            len == s@.len(),
            0 <= begin <= end <= len,
            forall|j: int| 0 <= j < begin ==> is_blank_char(#[trigger] s@[j]),
        decreases end - begin,
    {
        begin += 1;
    }
    let backed = s.substring_char(0, end);
    proof {
        assert(forall|j: int| 0 <= j < end ==> backed@[j] == s@[j]);
        lemma_trim_front_is_subrange(backed@, begin as int);
    }
    backed.substring_char(begin, end).to_owned()
}

/// What base64's url-safe unpadded engine encodes a byte string to.
pub uninterp spec fn b64url_of(bytes: Seq<u8>) -> Seq<char>;

/// Relies on base64's URL_SAFE_NO_PAD engine: the url-safe encoding
/// without padding. It depends on the bytes alone; four characters
/// stand for every three bytes and two or three for a trailing
/// partial group, so the length is ceil(4n/3).
#[verifier::external_body]
fn b64url_encode(bytes: &Vec<u8>) -> (r: String)
    ensures
        r@ == b64url_of(bytes@),
        r@.len() == (bytes@.len() * 4 + 2) / 3,
{
    base64::engine::general_purpose::URL_SAFE_NO_PAD.encode(bytes.as_slice())
}

/// Relies on rand's OsRng (RngCore::fill_bytes): overwrites the buffer
/// with bytes from the operating system's randomness source.
#[verifier::external_body]
fn fill_random_bytes(buf: &mut Vec<u8>)
    ensures
        final(buf)@.len() == old(buf)@.len(),
{
    rand::rngs::OsRng.fill_bytes(buf.as_mut_slice());
}

/// A fresh token: 32 random bytes, url-safe base64 without padding —
/// always 43 characters.
pub fn generate_token() -> (r: String)
    ensures
        r@.len() == 43,
{
    let mut bytes: Vec<u8> = Vec::new();
    let mut i: usize = 0;
    while i < 32
        invariant
            bytes@.len() == i,
            0 <= i <= 32,
        decreases 32 - i,
    {
        bytes.push(0u8);
        i += 1;
    }
    fill_random_bytes(&mut bytes);
    b64url_encode(&bytes)
}

/// The token held in a stored file's content: the content trimmed,
/// unless nothing but blanks remains.
pub fn token_from_stored(content: Option<&str>) -> (r: Option<String>)
    ensures
        match r {
            Some(token) => {
                &&& content matches Some(c)
                &&& token@ =~= trim_blank(c@)
                &&& trim_blank(c@).len() > 0
            },
            None => content matches Some(c) ==> trim_blank(c@).len() == 0,
        },
{
    match content {
        Some(c) => {
            let trimmed = trim_blank_exec(c);
            if trimmed.as_str().unicode_len() == 0 {
                None
            } else {
                Some(trimmed)
            }
        },
        None => None,
    }
}

/// The token to use: a stored, nonblank one is kept; otherwise a
/// fresh one is minted and the caller must persist it. The second
/// component says whether the token is new.
pub fn get_or_create_token(content: Option<&str>) -> (r: (String, bool))
    ensures
        r.1 == !(content matches Some(c) && trim_blank(c@).len() > 0),
        !r.1 ==> (content matches Some(c) && r.0@ =~= trim_blank(c@)),
        r.1 ==> r.0@.len() == 43,
{
    match token_from_stored(content) {
        Some(token) => (token, false),
        None => (generate_token(), true),
    }
}

/// A fresh token, minted unconditionally; the caller must persist it.
pub fn rotate_token() -> (r: String)
    ensures
        r@.len() == 43,
{
    generate_token()
}

} // verus!
