//! Character-level text helpers.
//!
//! All string manipulation in this crate is done on `Vec<char>` buffers, whose
//! contents are fully visible to the verifier; an actual `String` is produced
//! or taken apart only through the two trusted conversions at the top of this
//! file, each of which preserves the character sequence exactly.

use vstd::prelude::*;

verus! {

/// Relies on `str::chars` (through `Iterator::collect`): the iterator yields
/// exactly the characters of the string, in order.
#[verifier::external_body]
pub fn chars_of(s: &str) -> (r: Vec<char>)
    ensures
        r@ == s@,
{
    s.chars().collect()
}

/// Relies on `String::from_iter` for `char`: the resulting string consists of
/// exactly the characters handed in, in order.
#[verifier::external_body]
pub fn string_from_chars(v: &Vec<char>) -> (r: String)
    ensures
        r@ == v@,
{
    v.iter().collect()
}

/// Appends the characters of `s` to `buf`.
pub fn append_str(buf: &mut Vec<char>, s: &str)
    ensures
        final(buf)@ == old(buf)@ + s@,
{
    let mut cs = chars_of(s);
    buf.append(&mut cs);
}

/// The concatenation of two strings.
pub fn str_concat(a: &str, b: &str) -> (r: String)
    ensures
        r@ == a@ + b@,
{
    let mut buf = chars_of(a);
    let mut tail = chars_of(b);
    buf.append(&mut tail);
    string_from_chars(&buf)
}

/// The character for the decimal digit `d`.
pub open spec fn digit_char(d: int) -> char {
    ((48 + d) as u8) as char
}

/// Decimal rendering of a non-negative integer, most significant digit first.
pub open spec fn dec_chars_nat(n: int) -> Seq<char>
    decreases n,
{
    if n < 10 {
        seq![digit_char(if n < 0 { 0 } else { n })]
    } else {
        dec_chars_nat(n / 10).push(digit_char(n % 10))
    }
}

/// Decimal rendering of an integer: a minus sign for negative values, then
/// the digits of the magnitude.
pub open spec fn dec_chars(n: int) -> Seq<char> {
    if n < 0 {
        seq!['-'] + dec_chars_nat(-n)
    } else {
        dec_chars_nat(n)
    }
}

/// Appends the decimal digits of `n` to `buf`.
pub fn push_dec_u64(buf: &mut Vec<char>, n: u64)
    ensures
        final(buf)@ == old(buf)@ + dec_chars_nat(n as int),
    decreases n,
{
    if n < 10 {
        buf.push((48 + n as u8) as char);
    } else {
        push_dec_u64(buf, n / 10);
        buf.push((48 + (n % 10) as u8) as char);
    }
}

/// Appends the decimal rendering of `n` to `buf`.
pub fn push_dec_i64(buf: &mut Vec<char>, n: i64)
    ensures
        final(buf)@ == old(buf)@ + dec_chars(n as int),
{
    if n < 0 {
        buf.push('-');
        let m: u64 = if n == i64::MIN {
            9223372036854775808u64
        } else {
            (-n) as u64
        };
        push_dec_u64(buf, m);
    } else {
        push_dec_u64(buf, n as u64);
    }
}

/// The number of bytes of the UTF-8 encoding of `c`.
pub open spec fn char_utf8_len(c: char) -> nat {
    if (c as u32) < 0x80 {
        1
    } else if (c as u32) < 0x800 {
        2
    } else if (c as u32) < 0x10000 {
        3
    } else {
        4
    }
}

/// The number of bytes of the UTF-8 encoding of `s[i..]`.
pub open spec fn byte_len_from(s: Seq<char>, i: int) -> nat
    decreases s.len() - i,
{
    if 0 <= i < s.len() {
        char_utf8_len(s[i]) + byte_len_from(s, i + 1)
    } else {
        0
    }
}

/// The number of bytes of the UTF-8 encoding of `s`.
pub open spec fn byte_len(s: Seq<char>) -> nat {
    byte_len_from(s, 0)
}

/// `n`, clamped from above into `i64`.
pub open spec fn sat_i64(n: int) -> i64 {
    if n > i64::MAX {
        i64::MAX
    } else {
        n as i64
    }
}

/// The UTF-8 length of one character.
pub fn char_len(c: char) -> (r: u32)
    ensures
        r == char_utf8_len(c),
{
    let u = c as u32;
    if u < 0x80 {
        1
    } else if u < 0x800 {
        2
    } else if u < 0x10000 {
        3
    } else {
        4
    }
}

/// The byte length of the characters of `v`, clamped into `i64`.
pub fn byte_len_i64(v: &Vec<char>) -> (r: i64)
    ensures
        r == sat_i64(byte_len(v@) as int),
{
    let ghost s = v@;
    let mut acc: i64 = 0;
    let mut i: usize = v.len();
    while i > 0
        invariant
            i <= s.len(),
            v@ == s,
            0 <= acc,
            acc == sat_i64(byte_len_from(s, i as int) as int),
        decreases i,
    {
        i = i - 1;
        let cl = char_len(v[i]) as i64;
        if acc > i64::MAX - cl {
            acc = i64::MAX;
        } else {
            acc = acc + cl;
        }
    }
    acc
}

/// The decimal rendering of `n`, as a string.
pub fn dec_string_i64(n: i64) -> (r: String)
    ensures
        r@ == dec_chars(n as int),
{
    let mut buf: Vec<char> = Vec::new();
    push_dec_i64(&mut buf, n);
    string_from_chars(&buf)
}

} // verus!
