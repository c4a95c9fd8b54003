//! Token records and the address texts they are keyed by.
use vstd::prelude::*;
use vstd::string::*;
use crate::text::{decode_hex_digits, hex_bytes};

verus! {

broadcast use vstd::string::to_string_from_display_ensures_for_str;

/// The price of a token in US dollars at a time.
#[derive(Clone, Debug, PartialEq, Default)]
pub struct TokenPrice {
    pub token: String,
    pub price_usd: String,
    pub timestamp: u64,
}

/// The reserves of a two-token pool, as decimal texts.
#[derive(Clone, Debug, PartialEq, Default)]
pub struct ReservesData {
    pub reserve0: String,
    pub reserve1: String,
    pub block_timestamp_last: String,
}

/// Whether a text starts with `0x`.
pub open spec fn has_hex_prefix(s: Seq<char>) -> bool {
    s.len() >= 2 && s[0] == '0' && s[1] == 'x'
}

/// A text with `0x` in front, where it has none yet.
pub open spec fn prefixed(s: Seq<char>) -> Seq<char> {
    if has_hex_prefix(s) {
        s
    } else {
        seq!['0', 'x'] + s
    }
}

/// A text without its `0x` prefix, where it has one.
pub open spec fn unprefixed(s: Seq<char>) -> Seq<char> {
    if has_hex_prefix(s) {
        s.subrange(2, s.len() as int)
    } else {
        s
    }
}

fn starts_with_hex_prefix(s: &str) -> (r: bool)
    ensures
        r == has_hex_prefix(s@),
{
    let n = s.unicode_len();
    n >= 2 && s.get_char(0) == '0' && s.get_char(1) == 'x'
}

/// An address text with a `0x` prefix.
pub fn fmt_address(address: &str) -> (r: String)
    ensures
        r@ == prefixed(address@),
{
    if starts_with_hex_prefix(address) {
        return address.to_string();
    }
    let mut s = "0x".to_string();
    s.append(address);
    proof {
        reveal_strlit("0x");
        assert("0x"@ =~= seq!['0', 'x']);
    }
    s
}

/// The bytes of a hex address text, with or without `0x`.
pub fn fmt_address_to_bytes_vec(address: &str) -> (r: Vec<u8>)
    requires
        hex_bytes(unprefixed(address@)) is Some,
    ensures
        hex_bytes(unprefixed(address@)) == Some(r@),
{
    let digits = if starts_with_hex_prefix(address) {
        address.substring_char(2, address.unicode_len())
    } else {
        address
    };
    match decode_hex_digits(digits) {
        Some(v) => v,
        None => Vec::new(),
    }
}

} // verus!
