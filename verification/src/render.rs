//! Numbers written out as text, and messages put together from parts.

use crate::text::{chars_of, extend, string_of};
use vstd::prelude::*;

verus! {

/// The character for one digit below sixteen: `0` to `9`, then `a` to `f`.
pub open spec fn digit_char(d: int) -> char {
    if d < 10 {
        (48 + d) as char
    } else {
        (87 + d) as char
    }
}

/// `n` in decimal, without leading zeros.
pub open spec fn decimal(n: nat) -> Seq<char>
    decreases n,
{
    if n < 10 {
        seq![digit_char(n as int)]
    } else {
        decimal(n / 10).push(digit_char((n % 10) as int))
    }
}

/// `i` in decimal, with a minus sign in front where it is negative.
pub open spec fn signed_decimal(i: int) -> Seq<char> {
    if i < 0 {
        seq!['-'] + decimal((-i) as nat)
    } else {
        decimal(i as nat)
    }
}

/// `n` in hexadecimal with small letters, without leading zeros.
pub open spec fn hex(n: nat) -> Seq<char>
    decreases n,
{
    if n < 16 {
        seq![digit_char(n as int)]
    } else {
        hex(n / 16).push(digit_char((n % 16) as int))
    }
}

/// The four octal digits of `n % 4096`, the low twelve bits of `n`.
pub open spec fn octal4(n: nat) -> Seq<char> {
    let m = n % 4096;
    seq![
        digit_char((m / 512) as int),
        digit_char(((m / 64) % 8) as int),
        digit_char(((m / 8) % 8) as int),
        digit_char((m % 8) as int),
    ]
}

/// The character for one digit below sixteen.
pub fn digit(d: u8) -> (c: char)
    requires
        d < 16,
    ensures
        c == digit_char(d as int),
{
    if d < 10 {
        (48u8 + d) as char
    } else {
        (87u8 + d) as char
    }
}

/// Appends `n` in decimal to `buf`.
pub fn push_decimal(buf: &mut Vec<char>, n: u128)
    ensures
        final(buf)@ == old(buf)@ + decimal(n as nat),
    decreases n,
{
    if n >= 10 {
        push_decimal(buf, n / 10);
    }
    buf.push(digit((n % 10) as u8));
    assert(old(buf)@ + decimal((n / 10) as nat).push(digit_char((n % 10) as int)) == (old(buf)@
        + decimal((n / 10) as nat)).push(digit_char((n % 10) as int)));
}

/// Appends `n` in hexadecimal to `buf`.
pub fn push_hex(buf: &mut Vec<char>, n: u128)
    ensures
        final(buf)@ == old(buf)@ + hex(n as nat),
    decreases n,
{
    if n >= 16 {
        push_hex(buf, n / 16);
    }
    buf.push(digit((n % 16) as u8));
    assert(old(buf)@ + hex((n / 16) as nat).push(digit_char((n % 16) as int)) == (old(buf)@ + hex(
        (n / 16) as nat,
    )).push(digit_char((n % 16) as int)));
}

/// `n` in decimal.
pub fn decimal_string(n: u128) -> (s: String)
    ensures
        s@ == decimal(n as nat),
{
    let mut buf: Vec<char> = Vec::new();
    push_decimal(&mut buf, n);
    assert(Seq::<char>::empty() + decimal(n as nat) == decimal(n as nat));
    string_of(&buf)
}

/// `n` in hexadecimal with small letters.
pub fn hex_string(n: u128) -> (s: String)
    ensures
        s@ == hex(n as nat),
{
    let mut buf: Vec<char> = Vec::new();
    push_hex(&mut buf, n);
    assert(Seq::<char>::empty() + hex(n as nat) == hex(n as nat));
    string_of(&buf)
}

/// Appends `i` in decimal, with its sign where it is negative, to `buf`.
pub fn push_signed_decimal(buf: &mut Vec<char>, i: i32)
    ensures
        final(buf)@ == old(buf)@ + signed_decimal(i as int),
{
    if i < 0 {
        buf.push('-');
        let m: i64 = -(i as i64);
        push_decimal(buf, m as u128);
        assert(old(buf)@.push('-') + decimal((-i) as nat) == old(buf)@ + (seq!['-'] + decimal(
            (-i) as nat,
        )));
    } else {
        push_decimal(buf, i as u128);
    }
}

/// The low twelve bits of `n` as four octal digits.
pub fn octal4_string(n: u32) -> (s: String)
    ensures
        s@ == octal4(n as nat),
        s@.len() == 4,
{
    let m: u32 = n & 0o7777u32;
    assert(m == n % 4096) by (bit_vector)
        requires
            m == n & 0o7777u32,
    ;
    let mut buf: Vec<char> = Vec::new();
    buf.push(digit((m / 512) as u8));
    buf.push(digit(((m / 64) % 8) as u8));
    buf.push(digit(((m / 8) % 8) as u8));
    buf.push(digit((m % 8) as u8));
    assert(buf@ == octal4(n as nat));
    string_of(&buf)
}

/// `prefix` followed by `rest`.
pub fn joined(prefix: &str, rest: &str) -> (s: String)
    ensures
        s@ == prefix@ + rest@,
{
    let mut buf = chars_of(prefix);
    let tail = chars_of(rest);
    extend(&mut buf, &tail);
    string_of(&buf)
}

} // verus!
