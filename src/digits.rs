use std::num::ParseIntError;
use vstd::prelude::*;

verus! {

/// The value of one digit in `radix`: `0-9`, then `a-z` or `A-Z` for ten and
/// up; `None` for any other character or a value not below `radix`.
pub open spec fn digit_of(c: char, radix: nat) -> Option<nat> {
    let d: int = if '0' <= c && c <= '9' {
        c as u32 - '0' as u32
    } else if 'a' <= c && c <= 'z' {
        c as u32 - 'a' as u32 + 10
    } else if 'A' <= c && c <= 'Z' {
        c as u32 - 'A' as u32 + 10
    } else {
        radix as int
    };
    if 0 <= d < radix {
        Some(d as nat)
    } else {
        None
    }
}

/// The value of a run of digits, most significant first (`Some(0)` when empty).
pub open spec fn digits_value(s: Seq<char>, radix: nat) -> Option<nat>
    decreases s.len(),
{
    if s.len() == 0 {
        Some(0)
    } else {
        match (digits_value(s.drop_last(), radix), digit_of(s.last(), radix)) {
            (Some(high), Some(low)) => Some(high * radix + low),
            _ => None,
        }
    }
}

/// An unsigned integer written in `radix`: an optional `+`, then at least one
/// digit, with a value that fits in 64 bits.
pub open spec fn unsigned_value(s: Seq<char>, radix: nat) -> Option<u64> {
    let body = if s.len() > 0 && s[0] == '+' {
        s.drop_first()
    } else {
        s
    };
    if body.len() == 0 {
        None
    } else {
        match digits_value(body, radix) {
            Some(v) => if v <= u64::MAX {
                Some(v as u64)
            } else {
                None
            },
            None => None,
        }
    }
}

/// The decimal character of a value below ten.
pub open spec fn decimal_char(d: nat) -> char {
    seq!['0', '1', '2', '3', '4', '5', '6', '7', '8', '9'][d as int]
}

/// `n` written in decimal, without leading zeros.
pub open spec fn decimal(n: nat) -> Seq<char>
    decreases n,
{
    if n < 10 {
        seq![decimal_char(n)]
    } else {
        decimal(n / 10).push(decimal_char(n % 10))
    }
}

/// Relies on `u64::from_str_radix`: it accepts an optional `+` followed by
/// one or more digits of `radix` (`0-9`, `a-z`, `A-Z`) whose value fits in a
/// `u64`, and returns an error for anything else.
#[verifier::external_body]
pub(crate) fn read_unsigned(s: &str, radix: u32) -> (r: Result<u64, ParseIntError>)
    requires
        2 <= radix <= 36,
    ensures
        match r {
            Ok(v) => unsigned_value(s@, radix as nat) == Some(v),
            Err(_) => unsigned_value(s@, radix as nat) is None,
        },
{
    u64::from_str_radix(s, radix)
}

/// Relies on `u64`'s `Display` (through `to_string`): the decimal digits of
/// `n`, with no sign and no leading zeros.
#[verifier::external_body]
pub(crate) fn decimal_text(n: u64) -> (r: String)
    ensures
        r@ == decimal(n as nat),
{
    n.to_string()
}

} // verus!
