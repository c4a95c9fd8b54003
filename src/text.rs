//! Text forms used throughout the indexer: lower-case hex for byte strings and
//! decimal text for arbitrary-precision integers.
use vstd::prelude::*;
use vstd::string::*;
use std::str::FromStr;

verus! {

broadcast use vstd::string::to_string_from_display_ensures_for_str;

/// The lower-case hex digit for a value below 16.
pub open spec fn hex_digit(n: int) -> char {
    seq!['0', '1', '2', '3', '4', '5', '6', '7', '8', '9', 'a', 'b', 'c', 'd', 'e', 'f'][n]
}

/// Lower-case hex text of a byte string, two digits per byte.
pub open spec fn hex_text(b: Seq<u8>) -> Seq<char>
    decreases b.len(),
{
    if b.len() == 0 {
        Seq::empty()
    } else {
        hex_text(b.drop_last()) + seq![hex_digit(b.last() as int / 16), hex_digit(b.last() as int % 16)]
    }
}

/// The value of one hex digit, either case.
pub open spec fn hex_value(c: char) -> Option<u8> {
    if '0' <= c && c <= '9' {
        Some((c as u32 - '0' as u32) as u8)
    } else if 'a' <= c && c <= 'f' {
        Some((c as u32 - 'a' as u32 + 10) as u8)
    } else if 'A' <= c && c <= 'F' {
        Some((c as u32 - 'A' as u32 + 10) as u8)
    } else {
        None
    }
}

/// The bytes that an even-length text of hex digits spells, if it is one.
pub open spec fn hex_bytes(s: Seq<char>) -> Option<Seq<u8>>
    decreases s.len(),
{
    if s.len() == 0 {
        Some(Seq::empty())
    } else if s.len() == 1 {
        None
    } else {
        match (hex_bytes(s.subrange(0, s.len() - 2)), hex_value(s[s.len() - 2]), hex_value(s.last())) {
            (Some(front), Some(hi), Some(lo)) => Some(front.push((hi * 16 + lo) as u8)),
            _ => None,
        }
    }
}

/// The decimal digit character for a value below 10.
pub open spec fn digit_char(n: int) -> char {
    hex_digit(n)
}

/// Canonical decimal text of a natural number: no leading zeros.
pub open spec fn nat_text(n: nat) -> Seq<char>
    decreases n,
{
    if n < 10 {
        seq![digit_char(n as int)]
    } else {
        nat_text(n / 10) + seq![digit_char(n as int % 10)]
    }
}

/// Canonical decimal text of an integer, with a leading `-` when negative.
pub open spec fn int_text(i: int) -> Seq<char> {
    if i < 0 {
        seq!['-'] + nat_text((-i) as nat)
    } else {
        nat_text(i as nat)
    }
}

/// The value of the decimal digits of `s`, where `_` separators are skipped.
pub open spec fn digits_value(s: Seq<char>) -> Option<int>
    decreases s.len(),
{
    if s.len() == 0 {
        Some(0)
    } else {
        match digits_value(s.drop_last()) {
            None => None,
            Some(v) => if s.last() == '_' {
                Some(v)
            } else if '0' <= s.last() && s.last() <= '9' {
                Some(v * 10 + (s.last() as u32 - '0' as u32))
            } else {
                None
            },
        }
    }
}

/// Unsigned part of an integer text: an optional `+`, then at least one
/// character, the first of them a digit, the rest digits or `_`.
pub open spec fn unsigned_text_value(s: Seq<char>) -> Option<int> {
    let t = if s.len() > 0 && s[0] == '+' { s.drop_first() } else { s };
    if t.len() == 0 || t[0] == '_' {
        None
    } else {
        digits_value(t)
    }
}

/// The integer that a text denotes in base ten, if it denotes one: an
/// optional `-` not followed by `+`, then the unsigned part.
pub open spec fn int_value(s: Seq<char>) -> Option<int> {
    if s.len() > 0 && s[0] == '-' {
        if s.len() > 1 && s[1] == '+' {
            None
        } else {
            match unsigned_text_value(s.drop_first()) {
                Some(v) => Some(-v),
                None => None,
            }
        }
    } else {
        unsigned_text_value(s)
    }
}

/// Whether a text is the canonical decimal text of some integer.
pub open spec fn is_int_text(s: Seq<char>) -> bool {
    exists|i: int| int_text(i) == s
}

/// The integer of a canonical decimal text.
pub open spec fn text_int(s: Seq<char>) -> int
    recommends
        is_int_text(s),
{
    choose|i: int| int_text(i) == s
}

proof fn lemma_digit_char_injective(a: int, b: int)
    requires
        0 <= a < 10,
        0 <= b < 10,
        digit_char(a) == digit_char(b),
    ensures
        a == b,
{
    let d = seq!['0', '1', '2', '3', '4', '5', '6', '7', '8', '9', 'a', 'b', 'c', 'd', 'e', 'f'];
    assert(d[0] != d[1] && d[0] != d[2] && d[0] != d[3] && d[0] != d[4] && d[0] != d[5]);
    assert(d[0] != d[6] && d[0] != d[7] && d[0] != d[8] && d[0] != d[9]);
    assert(d[1] != d[2] && d[1] != d[3] && d[1] != d[4] && d[1] != d[5] && d[1] != d[6]);
    assert(d[1] != d[7] && d[1] != d[8] && d[1] != d[9]);
    assert(d[2] != d[3] && d[2] != d[4] && d[2] != d[5] && d[2] != d[6] && d[2] != d[7]);
    assert(d[2] != d[8] && d[2] != d[9]);
    assert(d[3] != d[4] && d[3] != d[5] && d[3] != d[6] && d[3] != d[7] && d[3] != d[8]);
    assert(d[3] != d[9]);
    assert(d[4] != d[5] && d[4] != d[6] && d[4] != d[7] && d[4] != d[8] && d[4] != d[9]);
    assert(d[5] != d[6] && d[5] != d[7] && d[5] != d[8] && d[5] != d[9]);
    assert(d[6] != d[7] && d[6] != d[8] && d[6] != d[9]);
    assert(d[7] != d[8] && d[7] != d[9]);
    assert(d[8] != d[9]);
}

proof fn lemma_nat_text_shape(n: nat)
    ensures
        nat_text(n).len() >= 1,
        nat_text(n).len() == 1 <==> n < 10,
        nat_text(n)[0] != '-',
    decreases n,
{
    if n >= 10 {
        lemma_nat_text_shape(n / 10);
    }
}

proof fn lemma_nat_text_injective(a: nat, b: nat)
    requires
        nat_text(a) == nat_text(b),
    ensures
        a == b,
    decreases a,
{
    lemma_nat_text_shape(a);
    lemma_nat_text_shape(b);
    if a < 10 {
        lemma_digit_char_injective(a as int, b as int);
    } else {
        let ta = nat_text(a);
        let tb = nat_text(b);
        assert(ta.drop_last() == nat_text(a / 10));
        assert(tb.drop_last() == nat_text(b / 10));
        assert(ta.last() == digit_char(a as int % 10));
        assert(tb.last() == digit_char(b as int % 10));
        lemma_nat_text_injective(a / 10, b / 10);
        lemma_digit_char_injective(a as int % 10, b as int % 10);
    }
}

/// Distinct integers have distinct canonical texts.
pub proof fn lemma_int_text_injective(a: int, b: int)
    requires
        int_text(a) == int_text(b),
    ensures
        a == b,
{
    if a < 0 {
        lemma_nat_text_shape((-a) as nat);
    }
    if b < 0 {
        lemma_nat_text_shape((-b) as nat);
    }
    if a >= 0 && b >= 0 {
        lemma_nat_text_shape(a as nat);
        lemma_nat_text_shape(b as nat);
        lemma_nat_text_injective(a as nat, b as nat);
    } else if a < 0 && b < 0 {
        assert(int_text(a).drop_first() == nat_text((-a) as nat));
        assert(int_text(b).drop_first() == nat_text((-b) as nat));
        lemma_nat_text_injective((-a) as nat, (-b) as nat);
    } else if a < 0 {
        lemma_nat_text_shape(b as nat);
        assert(int_text(a)[0] == '-');
    } else {
        lemma_nat_text_shape(a as nat);
        assert(int_text(b)[0] == '-');
    }
}

/// Reading back the canonical text of an integer gives that integer.
pub proof fn lemma_text_int(v: int)
    ensures
        is_int_text(int_text(v)),
        text_int(int_text(v)) == v,
{
    assert(int_text(v) == int_text(v));
    let w = text_int(int_text(v));
    lemma_int_text_injective(w, v);
}

/// Relies on `substreams::Hex`, whose text is the lower-case hex of the bytes.
#[verifier::external_body]
pub fn hex_of(b: &[u8]) -> (r: String)
    ensures
        r@ == hex_text(b@),
{
    substreams::Hex(b).to_string()
}

/// Relies on `hex::decode`: digits of either case, two per byte; any other
/// character or an odd length is an error.
#[verifier::external_body]
pub(crate) fn decode_hex_digits(s: &str) -> (r: Option<Vec<u8>>)
    ensures
        r matches Some(v) ==> hex_bytes(s@) == Some(v@),
        r is None ==> hex_bytes(s@) is None,
{
    hex::decode(s).ok()
}

/// Relies on `BigInt::from_str` and its `Display` (from num-bigint through
/// substreams): a base-ten text with an optional sign and `_` separators is
/// read, and the value is written back in canonical form.
#[verifier::external_body]
pub(crate) fn bigint_canonical(s: &str) -> (r: Option<String>)
    ensures
        r matches Some(t) ==> (int_value(s@) matches Some(v) && t@ == int_text(v)),
        r is None ==> int_value(s@) is None,
{
    substreams::scalar::BigInt::from_str(s).ok().map(|b| b.to_string())
}

/// Relies on `BigInt` addition (num-bigint through substreams), on operands
/// read from their canonical text.
#[verifier::external_body]
pub(crate) fn bigint_sum(a: &String, b: &String) -> (r: String)
    requires
        is_int_text(a@),
        is_int_text(b@),
    ensures
        r@ == int_text(text_int(a@) + text_int(b@)),
{
    let x = substreams::scalar::BigInt::from_str(a).unwrap();
    let y = substreams::scalar::BigInt::from_str(b).unwrap();
    (x + y).to_string()
}

/// Relies on `BigInt` subtraction (num-bigint through substreams), on
/// operands read from their canonical text.
#[verifier::external_body]
pub(crate) fn bigint_difference(a: &String, b: &String) -> (r: String)
    requires
        is_int_text(a@),
        is_int_text(b@),
    ensures
        r@ == int_text(text_int(a@) - text_int(b@)),
{
    let x = substreams::scalar::BigInt::from_str(a).unwrap();
    let y = substreams::scalar::BigInt::from_str(b).unwrap();
    (x - y).to_string()
}

/// The unsigned integer whose big-endian bytes are `b`.
pub open spec fn be_value(b: Seq<u8>) -> nat
    decreases b.len(),
{
    if b.len() == 0 {
        0
    } else {
        be_value(b.drop_last()) * 256 + b.last() as nat
    }
}

/// Relies on `BigInt::from_unsigned_bytes_be` (num-bigint through
/// substreams): the bytes are read as an unsigned big-endian integer.
#[verifier::external_body]
pub(crate) fn bigint_from_be_bytes(b: &[u8]) -> (r: String)
    ensures
        r@ == int_text(be_value(b@) as int),
{
    substreams::scalar::BigInt::from_unsigned_bytes_be(b).to_string()
}

fn digit_str(d: u64) -> (r: &'static str)
    requires
        d < 10,
    ensures
        r@ == seq![digit_char(d as int)],
{
    proof {
        reveal_strlit("0");
        reveal_strlit("1");
        reveal_strlit("2");
        reveal_strlit("3");
        reveal_strlit("4");
        reveal_strlit("5");
        reveal_strlit("6");
        reveal_strlit("7");
        reveal_strlit("8");
        reveal_strlit("9");
    }
    if d == 0 {
        "0"
    } else if d == 1 {
        "1"
    } else if d == 2 {
        "2"
    } else if d == 3 {
        "3"
    } else if d == 4 {
        "4"
    } else if d == 5 {
        "5"
    } else if d == 6 {
        "6"
    } else if d == 7 {
        "7"
    } else if d == 8 {
        "8"
    } else {
        "9"
    }
}

/// The canonical decimal text of an unsigned integer.
pub fn u64_text(n: u64) -> (r: String)
    ensures
        r@ == int_text(n as int),
    decreases n,
{
    if n < 10 {
        digit_str(n).to_string()
    } else {
        let mut s = u64_text(n / 10);
        s.append(digit_str(n % 10));
        proof {
            assert(nat_text(n as nat) == nat_text((n / 10) as nat) + seq![digit_char(n as int % 10)]);
        }
        s
    }
}

} // verus!
