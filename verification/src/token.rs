//! The access token for requests from the local network: how it is written and read back.
use vstd::prelude::*;

use crate::text::{
    chars_of, hex_digit_char, hex_fixed, hex_fixed_chars, is_trim_range, is_white_space,
    lemma_trim_range_unique, push_all, string_from_chars, trim, trimmed,
};

verus! {

broadcast use vstd::string::group_string_axioms;

/// The token made of two 64-bit values: each as 16 lower-case hexadecimal digits
/// (Rust's `{:016x}{:016x}`).
pub open spec fn token_text(first: u64, second: u64) -> Seq<char> {
    hex_fixed(first as nat, 16) + hex_fixed(second as nat, 16)
}

/// The token made of two 64-bit values, 32 hexadecimal digits.
pub fn format_token(first: u64, second: u64) -> (r: String)
    ensures
        r@ == token_text(first, second),
{
    let mut v = hex_fixed_chars(first, 16);
    push_all(&mut v, &hex_fixed_chars(second, 16));
    string_from_chars(&v)
}

/// The token kept in the token file: its content without surrounding white space,
/// unless nothing is left, in which case a new token must be made.
pub open spec fn stored(raw: Seq<char>) -> Option<Seq<char>> {
    if trimmed(raw).len() > 0 {
        Some(trimmed(raw))
    } else {
        None
    }
}

/// The token kept in a token file with content `raw`, or `None` if it holds none.
pub fn stored_token(raw: &str) -> (r: Option<String>)
    ensures
        match r {
            Some(t) => stored(raw@) == Some(t@),
            None => stored(raw@) is None,
        },
{
    let t = trim(&chars_of(raw));
    if t.len() > 0 {
        Some(string_from_chars(&t))
    } else {
        None
    }
}

/// A lower-case hexadecimal digit.
pub open spec fn is_hex_digit(c: char) -> bool {
    ('0' <= c && c <= '9') || ('a' <= c && c <= 'f')
}

proof fn lemma_hex_fixed_digits(n: nat, width: nat)
    ensures
        hex_fixed(n, width).len() == width,
        forall|j: int| 0 <= j < width ==> is_hex_digit(#[trigger] hex_fixed(n, width)[j]),
    decreases width,
{
    if width > 0 {
        lemma_hex_fixed_digits(n / 16, (width - 1) as nat);
        let d = n % 16;
        assert(is_hex_digit(hex_digit_char(d)));
    }
}

/// A token is 32 lower-case hexadecimal digits.
pub proof fn law_token_shape(first: u64, second: u64)
    ensures
        token_text(first, second).len() == 32,
        forall|j: int| 0 <= j < 32 ==> is_hex_digit(#[trigger] token_text(first, second)[j]),
{
    lemma_hex_fixed_digits(first as nat, 16);
    lemma_hex_fixed_digits(second as nat, 16);
    let t = token_text(first, second);
    assert forall|j: int| 0 <= j < 32 implies is_hex_digit(#[trigger] t[j]) by {
        if j < 16 {
            assert(t[j] == hex_fixed(first as nat, 16)[j]);
        } else {
            assert(t[j] == hex_fixed(second as nat, 16)[j - 16]);
        }
    }
}

/// A token written to the token file is read back unchanged at the next start.
pub proof fn law_token_read_back(first: u64, second: u64)
    ensures
        stored(token_text(first, second)) == Some(token_text(first, second)),
{
    law_token_shape(first, second);
    let t = token_text(first, second);
    assert(!is_white_space(t[0]));
    assert(!is_white_space(t[31]));
    assert(is_trim_range(t, 0, 32));
    lemma_trim_range_unique(t, 0, 32);
    assert(t.subrange(0, 32) =~= t);
}

} // verus!
