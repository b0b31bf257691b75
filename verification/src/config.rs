//! What the server is configured with. The program that embeds the library
//! reads the environment and hands the values, or their absence, over.

use crate::random::{is_alphanumeric_byte, random_alphanumeric};
use crate::text::push_char;
use vstd::prelude::*;
use vstd::string::*;

verus! {

/// Number of characters in a secret key that the server makes up.
pub const SECRET_KEY_LEN: usize = 22;

/// The character that separates the allowed hosts.
pub const HOST_SEPARATOR: char = ',';

/// The secret that clients sign their hello with.
#[derive(Debug, Clone, PartialEq, Eq)]
pub struct SecretKey(pub String);

impl View for SecretKey {
    type V = Seq<char>;

    open spec fn view(&self) -> Seq<char> {
        self.0@
    }
}

/// An ASCII letter or digit.
pub open spec fn is_alphanumeric_char(c: char) -> bool {
    ('0' <= c <= '9') || ('A' <= c <= 'Z') || ('a' <= c <= 'z')
}

/// A key that the server made up: `SECRET_KEY_LEN` letters and digits.
pub open spec fn is_generated_key(key: Seq<char>) -> bool {
    key.len() == SECRET_KEY_LEN && forall|i: int|
        0 <= i < key.len() ==> is_alphanumeric_char(#[trigger] key[i])
}

fn alphanumeric_char(b: u8) -> (c: char)
    requires
        is_alphanumeric_byte(b),
    ensures
        is_alphanumeric_char(c),
{
    b as char
}

impl SecretKey {
    /// A fresh random key.
    pub fn generate() -> (out: SecretKey)
        ensures
            is_generated_key(out@),
    {
        let mut key = String::new();
        let mut i: usize = 0;
        while i < SECRET_KEY_LEN
            invariant
                i <= SECRET_KEY_LEN,
                key@.len() == i,
                forall|j: int| 0 <= j < key@.len() ==> is_alphanumeric_char(#[trigger] key@[j]),
            decreases SECRET_KEY_LEN - i,
        {
            let c = alphanumeric_char(random_alphanumeric());
            push_char(&mut key, c);
            i += 1;
        }
        SecretKey(key)
    }
}

/// The secret key of the server: the configured one, or a fresh random one
/// where none is configured.
pub fn load_secret_key(configured: Option<String>) -> (out: SecretKey)
    ensures
        match configured {
            Some(key) => out@ == key@,
            None => is_generated_key(out@),
        },
{
    match configured {
        Some(key) => SecretKey(key),
        None => SecretKey::generate(),
    }
}

/// Pieces laid end to end with a separator between neighbours.
pub open spec fn joined_with(pieces: Seq<Seq<char>>, sep: char) -> Seq<char>
    decreases pieces.len(),
{
    if pieces.len() == 0 {
        Seq::empty()
    } else if pieces.len() == 1 {
        pieces[0]
    } else {
        joined_with(pieces.drop_last(), sep) + seq![sep] + pieces.last()
    }
}

/// `pieces` are what lies between the separators of `s`: at least one
/// piece, none with a separator in it, and together they give `s` back.
pub open spec fn is_split_of(pieces: Seq<Seq<char>>, s: Seq<char>, sep: char) -> bool {
    &&& pieces.len() >= 1
    &&& joined_with(pieces, sep) == s
    &&& forall|i: int, j: int|
        0 <= i < pieces.len() && 0 <= j < pieces[i].len() ==> #[trigger] pieces[i][j] != sep
}

/// The character sequences of a list of strings.
pub open spec fn views_of(list: Seq<String>) -> Seq<Seq<char>> {
    list.map_values(|s: String| s@)
}

/// The host suffixes on which tunnels are allowed: the pieces of the
/// configured list between its commas, and none where no list is
/// configured. `baz.com` stands for every host under `baz.com`.
pub fn allowed_host_suffixes(configured: Option<&str>) -> (out: Vec<String>)
    ensures
        match configured {
            Some(list) => is_split_of(views_of(out@), list@, HOST_SEPARATOR),
            None => out@.len() == 0,
        },
{
    let list = match configured {
        Some(list) => list,
        None => {
            return Vec::new();
        },
    };
    let mut done: Vec<String> = Vec::new();
    let mut piece = String::new();
    let n = list.unicode_len();
    let mut i: usize = 0;
    while i < n
        invariant
            i <= n,
            n == list@.len(),
            joined_with(views_of(done@).push(piece@), HOST_SEPARATOR) == list@.subrange(0, i as int),
            forall|a: int, b: int|
                0 <= a < done@.len() && 0 <= b < done@[a]@.len() ==> #[trigger] done@[a]@[b]
                    != HOST_SEPARATOR,
            forall|b: int| 0 <= b < piece@.len() ==> #[trigger] piece@[b] != HOST_SEPARATOR,
        decreases n - i,
    {
        let c = list.get_char(i);
        let ghost before = views_of(done@);
        let ghost tail = piece@;
        if c == HOST_SEPARATOR {
            done.push(piece);
            piece = String::new();
            proof {
                assert(views_of(done@) =~= before.push(tail));
                let all = views_of(done@).push(piece@);
                assert(all.drop_last() =~= before.push(tail));
                assert(joined_with(all, HOST_SEPARATOR) =~= list@.subrange(0, i as int + 1));
            }
        } else {
            push_char(&mut piece, c);
            proof {
                let was = before.push(tail);
                let all = before.push(piece@);
                assert(list@.subrange(0, i as int + 1) =~= list@.subrange(0, i as int).push(c));
                if before.len() > 0 {
                    assert(was.drop_last() =~= before);
                    assert(all.drop_last() =~= before);
                    assert(joined_with(all, HOST_SEPARATOR) =~= joined_with(
                        was,
                        HOST_SEPARATOR,
                    ).push(c));
                } else {
                    assert(was[0] == tail);
                    assert(all[0] == tail.push(c));
                }
            }
        }
        i += 1;
    }
    let ghost before = views_of(done@);
    let ghost tail = piece@;
    done.push(piece);
    proof {
        assert(views_of(done@) =~= before.push(tail));
        assert(list@.subrange(0, n as int) =~= list@);
    }
    done
}

/// Whether clients that the server does not know may connect: they may as
/// soon as the setting is there, whatever it holds.
pub fn allow_unknown_clients(configured: Option<&str>) -> (out: bool)
    ensures
        out == configured.is_some(),
{
    configured.is_some()
}

} // verus!
