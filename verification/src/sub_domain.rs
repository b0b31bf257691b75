//! Subdomains: which names are legal, and how the server makes one up.

use crate::random::{is_alphanumeric_byte, random_alphanumeric};
use crate::text::push_char;
use vstd::prelude::*;
use vstd::string::*;

verus! {

/// Number of random characters in a subdomain that the server makes up.
pub const TOKEN_LEN: usize = 8;

/// A lower-case ASCII letter or a digit.
pub open spec fn is_name_char(c: char) -> bool {
    ('a' <= c <= 'z') || ('0' <= c <= '9')
}

/// A legal subdomain: one or more lower-case ASCII letters and digits.
pub open spec fn is_sub_domain(s: Seq<char>) -> bool {
    s.len() > 0 && forall|i: int| 0 <= i < s.len() ==> is_name_char(#[trigger] s[i])
}

/// The random part of a made-up subdomain: `TOKEN_LEN` characters of a
/// legal subdomain.
pub open spec fn is_token(s: Seq<char>) -> bool {
    s.len() == TOKEN_LEN && is_sub_domain(s)
}

/// A made-up subdomain that starts with a prefix of the client's choosing.
pub open spec fn prefixed(prefix: Seq<char>, token: Seq<char>) -> Seq<char> {
    prefix + seq!['-'] + token
}

/// There is a random part: eight times the letter `a`, for one.
pub proof fn lemma_token_exists()
    ensures
        exists|token: Seq<char>| is_token(token),
{
    let token = Seq::new(TOKEN_LEN as nat, |i: int| 'a');
    assert(is_token(token));
}

/// Whether `s` is a legal subdomain.
pub fn is_valid_sub_domain(s: &str) -> (out: bool)
    ensures
        out == is_sub_domain(s@),
{
    broadcast use is_ascii_spec_bytes;

    if !s.is_ascii() {
        assert(!is_sub_domain(s@)) by {
            if is_sub_domain(s@) {
                assert forall|i: int| 0 <= i < s@.len() implies '\0' <= #[trigger] s@[i]
                    <= '\u{7f}' by {
                    assert(is_name_char(s@[i]));
                }
            }
        }
        return false;
    }
    let bytes = s.as_bytes();
    if bytes.len() == 0 {
        return false;
    }
    let mut i: usize = 0;
    while i < bytes.len()
        invariant
            i <= bytes.len(),
            bytes@.len() == s@.len(),
            is_ascii(s),
            forall|j: int| 0 <= j < bytes@.len() ==> bytes@[j] == (#[trigger] s@[j]) as u8,
            forall|j: int| 0 <= j < i ==> is_name_char(#[trigger] s@[j]),
        decreases bytes.len() - i,
    {
        let b: u8 = bytes[i];
        let ok = (0x61 <= b && b <= 0x7a) || (0x30 <= b && b <= 0x39);
        proof {
            let c = s@[i as int];
            assert('\0' <= c <= '\u{7f}');
            assert(ok == is_name_char(c));
        }
        if !ok {
            return false;
        }
        i += 1;
    }
    true
}

/// The lower-case form of an ASCII letter or digit.
fn lower_alphanumeric(b: u8) -> (c: char)
    requires
        is_alphanumeric_byte(b),
    ensures
        is_name_char(c),
{
    if 0x41 <= b && b <= 0x5a {
        (b + 32) as char
    } else {
        b as char
    }
}

/// A fresh subdomain for a client that asked for none: `TOKEN_LEN` random
/// lower-case letters and digits.
pub fn random_domain() -> (out: String)
    ensures
        is_token(out@),
{
    let mut out = String::new();
    let mut i: usize = 0;
    while i < TOKEN_LEN
        invariant
            i <= TOKEN_LEN,
            out@.len() == i,
            forall|j: int| 0 <= j < out@.len() ==> is_name_char(#[trigger] out@[j]),
        decreases TOKEN_LEN - i,
    {
        let c = lower_alphanumeric(random_alphanumeric());
        push_char(&mut out, c);
        i += 1;
    }
    out
}

/// A made-up subdomain from a prefix and a random part.
pub fn join_prefix(prefix: &str, token: &str) -> (out: String)
    ensures
        out@ == prefixed(prefix@, token@),
{
    let mut out = String::from_str(prefix);
    push_char(&mut out, '-');
    out.append(token);
    assert(out@ =~= prefixed(prefix@, token@));
    out
}

/// A fresh subdomain that starts with `prefix`.
pub fn prefixed_random_domain(prefix: &str) -> (out: String)
    ensures
        exists|token: Seq<char>| is_token(token) && out@ == prefixed(prefix@, token),
{
    let token = random_domain();
    join_prefix(prefix, token.as_str())
}

} // verus!
