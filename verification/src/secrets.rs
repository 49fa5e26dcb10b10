//! Passwords and tokens made at random.

use vstd::prelude::*;
use vstd::string::*;
use crate::chance::{random_below, random_char, random_item};

verus! {

/// How many characters an access token has.
pub const TOKEN_LEN: usize = 64;

/// Whether `c` is a digit or an unaccented letter.
pub open spec fn is_token_char(c: char) -> bool {
    ('0' <= c && c <= '9') || ('A' <= c && c <= 'Z') || ('a' <= c && c <= 'z')
}

/// A password of `len` characters, each drawn from `alphabet`.
pub fn generate_password(alphabet: &[char], len: u8) -> (r: String)
    requires
        len > 0 ==> alphabet@.len() > 0,
    ensures
        r@.len() == len,
        forall|i: int| 0 <= i < r@.len() ==> alphabet@.contains(#[trigger] r@[i]),
{
    let mut out = String::new();
    let mut n: u8 = 0;
    while n < len
        invariant
            n <= len,
            len > 0 ==> alphabet@.len() > 0,
            out@.len() == n,
            forall|i: int| 0 <= i < out@.len() ==> alphabet@.contains(#[trigger] out@[i]),
        decreases len - n,
    {
        let idx = random_below(alphabet.len());
        let c = alphabet[idx];
        assert(alphabet@.contains(c)) by {
            assert(alphabet@[idx as int] == c);
        }
        out.push(c);
        n = n + 1;
    }
    out
}

/// One of the items of `slice`, drawn at random.
pub fn select_rand_val<T>(slice: &[T]) -> (r: &T)
    requires
        slice@.len() > 0,
    ensures
        slice@.contains(*r),
{
    match random_item(slice) {
        Some(item) => item,
        None => &slice[0],
    }
}

/// A fresh access token: 64 characters, each a digit or an unaccented
/// letter. First one of the three runs of characters is drawn, then a
/// character of that run.
pub fn new_access_token() -> (r: String)
    ensures
        r@.len() == 64,
        forall|i: int| 0 <= i < r@.len() ==> is_token_char(#[trigger] r@[i]),
{
    let ranges: Vec<(char, char)> = vec![('0', '9'), ('A', 'Z'), ('a', 'z')];
    let mut res = String::new();
    let mut n: usize = 0;
    while n < TOKEN_LEN
        invariant
            n <= 64,
            ranges@ == seq![('0', '9'), ('A', 'Z'), ('a', 'z')],
            res@.len() == n,
            forall|i: int| 0 <= i < res@.len() ==> is_token_char(#[trigger] res@[i]),
        decreases 64 - n,
    {
        let range = select_rand_val(ranges.as_slice());
        let ghost at = choose|i: int| 0 <= i < ranges@.len() && ranges@[i] == *range;
        assert(0 <= at < 3 && ranges@[at] == *range);
        let ch = random_char(range.0, range.1);
        assert(is_token_char(ch));
        res.push(ch);
        n = n + 1;
    }
    res
}

} // verus!
