use vstd::prelude::*;
use vstd::string::*;
use rand::distr::{Alphanumeric, SampleString};

verus! {

/// Number of random characters after the prefix.
pub const TOKEN_SUFFIX_LEN: usize = 8;

/// The fixed start of every token.
pub open spec fn token_prefix() -> Seq<char> {
    seq!['V', 'E', 'R', 'I', 'F', 'Y', '-']
}

/// 'a' to 'z'.
pub open spec fn is_ascii_lower(c: char) -> bool {
    'a' as u32 <= c as u32 <= 'z' as u32
}

/// 'A' to 'Z'.
pub open spec fn is_ascii_upper(c: char) -> bool {
    'A' as u32 <= c as u32 <= 'Z' as u32
}

/// '0' to '9'.
pub open spec fn is_ascii_digit(c: char) -> bool {
    '0' as u32 <= c as u32 <= '9' as u32
}

pub open spec fn is_ascii_alphanumeric(c: char) -> bool {
    is_ascii_lower(c) || is_ascii_upper(c) || is_ascii_digit(c)
}

/// A character that may follow the prefix: an upper-case letter or a digit.
pub open spec fn is_token_char(c: char) -> bool {
    is_ascii_upper(c) || is_ascii_digit(c)
}

/// `u` is `s` with its ASCII lower-case letters made upper-case.
pub open spec fn is_ascii_upper_of(u: Seq<char>, s: Seq<char>) -> bool {
    &&& u.len() == s.len()
    &&& forall|i: int|
        0 <= i < s.len() ==> if is_ascii_lower(#[trigger] s[i]) {
            u[i] as u32 == s[i] as u32 - 32
        } else {
            u[i] == s[i]
        }
}

/// The shape of a token: the prefix followed by the random suffix in canonical case.
pub open spec fn is_token(t: Seq<char>) -> bool {
    &&& t.len() == token_prefix().len() + TOKEN_SUFFIX_LEN
    &&& t.subrange(0, token_prefix().len() as int) == token_prefix()
    &&& forall|i: int| token_prefix().len() <= i < t.len() ==> is_token_char(#[trigger] t[i])
}

/// Relies on rand's `Alphanumeric` through `SampleString::sample_string`: `len`
/// characters, each an ASCII letter or digit, drawn from the thread-local generator.
#[verifier::external_body]
fn sample_alphanumeric(len: usize) -> (s: String)
    ensures
        s@.len() == len,
        forall|i: int| 0 <= i < len ==> is_ascii_alphanumeric(#[trigger] s@[i]),
{
    Alphanumeric.sample_string(&mut rand::rng(), len)
}

/// Relies on `str::to_ascii_uppercase`: 'a' to 'z' become 'A' to 'Z', every other
/// character is kept.
#[verifier::external_body]
fn ascii_uppercase(s: &str) -> (u: String)
    ensures
        is_ascii_upper_of(u@, s@),
{
    s.to_ascii_uppercase()
}

/// Builds a token from a drawn suffix of ASCII letters and digits.
pub fn token_from_suffix(suffix: &str) -> (t: String)
    requires
        suffix@.len() == TOKEN_SUFFIX_LEN,
        forall|i: int| 0 <= i < suffix@.len() ==> is_ascii_alphanumeric(#[trigger] suffix@[i]),
    ensures
        is_token(t@),
        is_ascii_upper_of(t@.subrange(token_prefix().len() as int, t@.len() as int), suffix@),
{
    let upper = ascii_uppercase(suffix);
    proof {
        reveal_strlit("VERIFY-");
    }
    let mut t = String::from_str("VERIFY-");
    t.append(upper.as_str());
    proof {
        assert(t@.subrange(0, 7) =~= token_prefix());
        assert(t@.subrange(7, t@.len() as int) =~= upper@);
        assert forall|i: int| token_prefix().len() <= i < t@.len() implies is_token_char(#[trigger] t@[i]) by {
            let c = suffix@[i - 7];
            assert(upper@[i - 7] == t@[i]);
            assert('a' as u32 == 97 && 'z' as u32 == 122 && 'A' as u32 == 65 && 'Z' as u32 == 90);
        }
    }
    t
}

/// Draws a fresh token: the prefix and eight random upper-case letters or digits.
pub fn generate_code() -> (t: String)
    ensures
        is_token(t@),
{
    let suffix = sample_alphanumeric(TOKEN_SUFFIX_LEN);
    token_from_suffix(suffix.as_str())
}

} // verus!
