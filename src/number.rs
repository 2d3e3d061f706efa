//! Numeric literals: decimal, `0x` hexadecimal and `0b` binary.

use vstd::prelude::*;

use crate::text::{chars_of, string_of};
use vstd::slice::slice_subrange;

verus! {

/// The error type of `hex::decode`, opaque here: only `Ok` and `Err` are told apart.
#[verifier::external_type_specification]
#[verifier::external_body]
pub struct ExFromHexError(hex::FromHexError);

/// Whether `c` is a digit of `radix` (at most ten).
pub open spec fn is_digit_of(c: char, radix: int) -> bool {
    '0' as u32 <= c as u32 && (c as u32) < ('0' as u32) + radix
}

/// The digits of `s`, read most significant first.
pub open spec fn digits_value(s: Seq<char>, radix: int) -> int
    decreases s.len(),
{
    if s.len() == 0 {
        0
    } else {
        digits_value(s.drop_last(), radix) * radix + ((s.last() as u32) - ('0' as u32))
    }
}

/// The value of an optional `+` or `-` followed by digits of `radix`, when it fits `i32`.
pub open spec fn radix_value(s: Seq<char>, radix: int) -> Option<int> {
    let neg = s.len() > 0 && s[0] == '-';
    let body = if s.len() > 0 && (s[0] == '-' || s[0] == '+') {
        s.drop_first()
    } else {
        s
    };
    let v = if neg {
        -digits_value(body, radix)
    } else {
        digits_value(body, radix)
    };
    if body.len() == 0 || !(forall|i: int| 0 <= i < body.len() ==> is_digit_of(body[i], radix)) {
        None
    } else if i32::MIN <= v <= i32::MAX {
        Some(v)
    } else {
        None
    }
}

/// Whether `c` is a hexadecimal digit, in either case.
pub open spec fn is_hex_digit(c: char) -> bool {
    ('0' <= c && c <= '9') || ('a' <= c && c <= 'f') || ('A' <= c && c <= 'F')
}

/// The value of the hexadecimal digit `c`.
pub open spec fn hex_val(c: char) -> int {
    if '0' <= c && c <= '9' {
        (c as u32) - ('0' as u32)
    } else if 'a' <= c && c <= 'f' {
        (c as u32) - ('a' as u32) + 10
    } else {
        (c as u32) - ('A' as u32) + 10
    }
}

/// Whether `s` is an even number of hexadecimal digits.
pub open spec fn hex_decodable(s: Seq<char>) -> bool {
    s.len() % 2 == 0 && forall|i: int| 0 <= i < s.len() ==> is_hex_digit(#[trigger] s[i])
}

/// The bytes that the digit pairs of `s` stand for.
pub open spec fn hex_bytes(s: Seq<char>) -> Seq<u8> {
    Seq::new(s.len() / 2, |i: int| (16 * hex_val(s[2 * i]) + hex_val(s[2 * i + 1])) as u8)
}

/// The bytes of `b` read as one big-endian unsigned number.
pub open spec fn be_value(b: Seq<u8>) -> int
    decreases b.len(),
{
    if b.len() == 0 {
        0
    } else {
        be_value(b.drop_last()) * 256 + b.last()
    }
}

/// `v`, below 2^32, read as a two's complement 32-bit number.
pub open spec fn signed32(v: int) -> int {
    if v >= 0x8000_0000 {
        v - 0x1_0000_0000
    } else {
        v
    }
}

/// The value of a numeric literal: `0x` then hex digit pairs, of which the first four bytes
/// count, big-endian; `0b` then a binary number; else a decimal number.
pub open spec fn num_value(s: Seq<char>) -> Option<int> {
    if s.len() >= 2 && s[0] == '0' && s[1] == 'x' {
        let d = s.skip(2);
        if d.len() > 0 && hex_decodable(d) {
            let b = hex_bytes(d);
            Some(signed32(be_value(b.take(if b.len() < 4 { b.len() as int } else { 4 }))))
        } else {
            None
        }
    } else if s.len() >= 2 && s[0] == '0' && s[1] == 'b' {
        radix_value(s.skip(2), 2)
    } else {
        radix_value(s, 10)
    }
}

/// Relies on `hex::decode`: `Ok` exactly for an even number of hex digits (either case),
/// each pair giving one byte, high digit first.
#[verifier::external_body]
fn decode_hex(s: &str) -> (r: Result<Vec<u8>, hex::FromHexError>)
    ensures
        r is Ok <==> hex_decodable(s@),
        r matches Ok(v) ==> v@ == hex_bytes(s@),
{
    hex::decode(s)
}

/// Relies on `i32::from_str_radix`: an optional sign, then one or more digits of `radix`,
/// whose value must fit `i32`.
#[verifier::external_body]
fn i32_from_radix(s: &str, radix: u32) -> (r: Option<i32>)
    requires
        2 <= radix <= 10,
    ensures
        r is Some <==> radix_value(s@, radix as int) is Some,
        r matches Some(n) ==> radix_value(s@, radix as int) == Some(n as int),
{
    i32::from_str_radix(s, radix).ok()
}

/// Reads the first four bytes of `v` (or all of them, if fewer) as a big-endian `i32`.
fn be_word(v: &[u8]) -> (r: i32)
    ensures
        r == signed32(be_value(v@.take(if v@.len() < 4 { v@.len() as int } else { 4 }))),
{
    let n: usize = if v.len() < 4 { v.len() } else { 4 };
    let mut acc: u32 = 0;
    let mut i: usize = 0;
    while i < n
        invariant
            n <= v@.len(),
            n <= 4,
            n == (if v@.len() < 4 { v@.len() as int } else { 4 }),
            i <= n,
            acc as int == be_value(v@.take(i as int)),
            i == 0 ==> acc < 1,
            i == 1 ==> acc < 0x100,
            i == 2 ==> acc < 0x1_0000,
            i == 3 ==> acc < 0x100_0000,
        decreases n - i,
    {
        proof {
            assert(v@.take(i + 1).drop_last() =~= v@.take(i as int));
        }
        acc = acc * 256 + v[i] as u32;
        i = i + 1;
    }
    if acc >= 0x8000_0000 {
        i32::MIN + ((acc - 0x8000_0000) as i32)
    } else {
        acc as i32
    }
}

/// Parses a numeric literal; on failure, returns the text it could not read.
pub fn parse_num(arg: &str) -> (r: Result<i32, String>)
    ensures
        r matches Ok(n) ==> num_value(arg@) == Some(n as int),
        r matches Err(t) ==> num_value(arg@) is None && t@ == arg@,
{
    let c = chars_of(arg);
    let n = c.len();
    if n >= 2 && c[0] == '0' && (c[1] == 'x' || c[1] == 'b') {
        let digits = string_of(slice_subrange(c.as_slice(), 2, n));
        proof {
            assert(digits@ =~= arg@.skip(2));
        }
        if c[1] == 'x' {
            if n > 2 {
                if let Ok(v) = decode_hex(digits.as_str()) {
                    return Ok(be_word(v.as_slice()));
                }
            }
            return Err(string_of(c.as_slice()));
        }
        match i32_from_radix(digits.as_str(), 2) {
            Some(v) => Ok(v),
            None => Err(string_of(c.as_slice())),
        }
    } else {
        match i32_from_radix(arg, 10) {
            Some(v) => Ok(v),
            None => Err(string_of(c.as_slice())),
        }
    }
}

} // verus!
