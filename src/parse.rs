use crate::digits::{read_unsigned, unsigned_value};
use crate::error::ConvError;
use vstd::prelude::*;
use vstd::utf8::is_ascii_chars;

verus! {

pub const B: u64 = 1;
pub const KIB: u64 = 1024 * B;
pub const MIB: u64 = 1024 * KIB;
pub const GIB: u64 = 1024 * MIB;
pub const TIB: u64 = 1024 * GIB;
pub const PIB: u64 = 1024 * TIB;

pub const KB: u64 = 1000 * B;
pub const MB: u64 = 1000 * KB;
pub const GB: u64 = 1000 * MB;
pub const TB: u64 = 1000 * GB;
pub const PB: u64 = 1000 * TB;

/// The unit suffixes, in lower case, with their multipliers, in the order
/// in which they are tried.
pub open spec fn unit_suffixes() -> Seq<(Seq<char>, u64)> {
    seq![
        ("kib"@, KIB),
        ("mib"@, MIB),
        ("gib"@, GIB),
        ("tib"@, TIB),
        ("pib"@, PIB),
        ("kb"@, KB),
        ("mb"@, MB),
        ("gb"@, GB),
        ("tb"@, TB),
        ("pb"@, PB),
    ]
}

/// The radix prefixes with their radixes, in the order in which they are tried.
pub open spec fn radix_prefixes() -> Seq<(Seq<char>, u32)> {
    seq![("0x"@, 16u32), ("0b"@, 2u32), ("0"@, 8u32)]
}

/// `s` ends with `p`.
pub open spec fn has_suffix(s: Seq<char>, p: Seq<char>) -> bool {
    p.len() <= s.len() && s.subrange(s.len() - p.len(), s.len() as int) == p
}

/// `s` starts with `p`.
pub open spec fn has_prefix(s: Seq<char>, p: Seq<char>) -> bool {
    p.len() <= s.len() && s.subrange(0, p.len() as int) == p
}

/// The first unit suffix, from index `i` on, that `t` ends with.
pub open spec fn first_unit_from(t: Seq<char>, i: nat) -> Option<nat>
    decreases unit_suffixes().len() - i,
{
    if i >= unit_suffixes().len() {
        None
    } else if has_suffix(t, unit_suffixes()[i as int].0) {
        Some(i)
    } else {
        first_unit_from(t, i + 1)
    }
}

/// The first radix prefix, from index `i` on, that `t` starts with.
pub open spec fn first_radix_from(t: Seq<char>, i: nat) -> Option<nat>
    decreases radix_prefixes().len() - i,
{
    if i >= radix_prefixes().len() {
        None
    } else if has_prefix(t, radix_prefixes()[i as int].0) {
        Some(i)
    } else {
        first_radix_from(t, i + 1)
    }
}

/// `t` without its first matching unit suffix, and that suffix's multiplier
/// (1 where none matches).
pub open spec fn split_unit(t: Seq<char>) -> (Seq<char>, u64) {
    match first_unit_from(t, 0) {
        Some(i) => (
            t.subrange(0, t.len() - unit_suffixes()[i as int].0.len()),
            unit_suffixes()[i as int].1,
        ),
        None => (t, 1),
    }
}

/// The value of digits `d` in `radix`: one or more digits and nothing else,
/// no sign, with a value that fits in 64 bits.
pub open spec fn unsigned_digits(d: Seq<char>, radix: nat) -> Option<u64> {
    if d.len() > 0 && d[0] == '+' {
        None
    } else {
        unsigned_value(d, radix)
    }
}

/// The number that `t` writes: after its first matching radix prefix in that
/// radix, else in decimal. A lone `0` is decimal zero, not a prefix.
pub open spec fn number_value(t: Seq<char>) -> Option<u64> {
    match first_radix_from(t, 0) {
        Some(j) => if t == seq!['0'] {
            unsigned_digits(t, 10)
        } else {
            unsigned_digits(
                t.subrange(radix_prefixes()[j as int].0.len() as int, t.len() as int),
                radix_prefixes()[j as int].1 as nat,
            )
        },
        None => unsigned_digits(t, 10),
    }
}

/// The number and the unit multiplier that lower-case text `t` writes.
pub open spec fn quantity(t: Seq<char>) -> Option<(u64, u64)> {
    let (rest, multiplier) = split_unit(t);
    match number_value(rest) {
        Some(v) => Some((v, multiplier)),
        None => None,
    }
}

/// `r` is what reading `t` as a quantity gives: the pair on success, a parse
/// error where `t` writes no quantity.
pub open spec fn quantity_outcome(r: Result<(u64, u64), ConvError>, t: Seq<char>) -> bool {
    match r {
        Ok(p) => quantity(t) == Some(p),
        Err(e) => quantity(t) is None && e is ParseError,
    }
}

/// `c` with `A-Z` turned to `a-z`.
pub open spec fn ascii_lower_char(c: char) -> char {
    if 'A' <= c && c <= 'Z' {
        ((c as u32 + 32) as u32) as char
    } else {
        c
    }
}

/// ASCII text with `A-Z` turned to `a-z`.
pub open spec fn ascii_lower(s: Seq<char>) -> Seq<char> {
    s.map_values(|c: char| ascii_lower_char(c))
}

/// What `str::to_lowercase` makes of a text.
pub uninterp spec fn lower_of(s: Seq<char>) -> Seq<char>;

/// Relies on `str::to_lowercase`: the result depends on the characters alone,
/// and on ASCII text it turns `A-Z` into `a-z` and keeps every other character.
#[verifier::external_body]
fn lowercase(s: &str) -> (r: String)
    ensures
        r@ == lower_of(s@),
        is_ascii_chars(s@) ==> r@ == ascii_lower(s@),
{
    s.to_lowercase()
}

fn ends_with(s: &str, p: &str) -> (r: bool)
    ensures
        r == has_suffix(s@, p@),
{
    let n = s.unicode_len();
    let m = p.unicode_len();
    if m > n {
        return false;
    }
    let off = n - m;
    let mut i: usize = 0;
    while i < m
        invariant
            n == s@.len(),
            m == p@.len(),
            off == n - m,
            i <= m,
            forall|k: int| 0 <= k < i ==> s@[off + k] == p@[k],
        decreases m - i,
    {
        if s.get_char(off + i) != p.get_char(i) {
            assert(s@.subrange(off as int, n as int)[i as int] != p@[i as int]);
            return false;
        }
        i += 1;
    }
    assert(s@.subrange(off as int, n as int) =~= p@);
    true
}

fn starts_with(s: &str, p: &str) -> (r: bool)
    ensures
        r == has_prefix(s@, p@),
{
    let n = s.unicode_len();
    let m = p.unicode_len();
    if m > n {
        return false;
    }
    let mut i: usize = 0;
    while i < m
        invariant
            n == s@.len(),
            m == p@.len(),
            m <= n,
            i <= m,
            forall|k: int| 0 <= k < i ==> s@[k] == p@[k],
        decreases m - i,
    {
        if s.get_char(i) != p.get_char(i) {
            assert(s@.subrange(0, m as int)[i as int] != p@[i as int]);
            return false;
        }
        i += 1;
    }
    assert(s@.subrange(0, m as int) =~= p@);
    true
}

proof fn lemma_first_unit_found(t: Seq<char>, k: nat)
    ensures
        match first_unit_from(t, k) {
            Some(i) => k <= i < unit_suffixes().len() && has_suffix(t, unit_suffixes()[i as int].0),
            None => true,
        },
    decreases unit_suffixes().len() - k,
{
    if k < unit_suffixes().len() && !has_suffix(t, unit_suffixes()[k as int].0) {
        lemma_first_unit_found(t, k + 1);
    }
}

proof fn lemma_first_radix_found(t: Seq<char>, k: nat)
    ensures
        match first_radix_from(t, k) {
            Some(j) => k <= j < radix_prefixes().len() && has_prefix(t, radix_prefixes()[j as int].0),
            None => true,
        },
    decreases radix_prefixes().len() - k,
{
    if k < radix_prefixes().len() && !has_prefix(t, radix_prefixes()[k as int].0) {
        lemma_first_radix_found(t, k + 1);
    }
}

fn unit_suffix(i: usize) -> (r: (&'static str, u64))
    requires
        i < unit_suffixes().len(),
    ensures
        r.0@ == unit_suffixes()[i as int].0,
        r.1 == unit_suffixes()[i as int].1,
{
    match i {
        0 => ("kib", KIB),
        1 => ("mib", MIB),
        2 => ("gib", GIB),
        3 => ("tib", TIB),
        4 => ("pib", PIB),
        5 => ("kb", KB),
        6 => ("mb", MB),
        7 => ("gb", GB),
        8 => ("tb", TB),
        _ => ("pb", PB),
    }
}

fn radix_prefix(j: usize) -> (r: (&'static str, u32))
    requires
        j < radix_prefixes().len(),
    ensures
        r.0@ == radix_prefixes()[j as int].0,
        r.1 == radix_prefixes()[j as int].1,
{
    match j {
        0 => ("0x", 16u32),
        1 => ("0b", 2u32),
        _ => ("0", 8u32),
    }
}

fn find_unit(t: &str) -> (r: Option<usize>)
    ensures
        match r {
            Some(i) => first_unit_from(t@, 0) == Some(i as nat) && i < unit_suffixes().len()
                && has_suffix(t@, unit_suffixes()[i as int].0),
            None => first_unit_from(t@, 0) is None,
        },
{
    proof {
        lemma_first_unit_found(t@, 0);
    }
    let mut i: usize = 0;
    while i < 10
        invariant
            i <= 10,
            unit_suffixes().len() == 10,
            first_unit_from(t@, 0) == first_unit_from(t@, i as nat),
        decreases 10 - i,
    {
        let (suffix, _) = unit_suffix(i);
        if ends_with(t, suffix) {
            return Some(i);
        }
        i += 1;
    }
    None
}

fn find_radix(t: &str) -> (r: Option<usize>)
    ensures
        match r {
            Some(j) => first_radix_from(t@, 0) == Some(j as nat) && j < radix_prefixes().len()
                && has_prefix(t@, radix_prefixes()[j as int].0),
            None => first_radix_from(t@, 0) is None,
        },
{
    proof {
        lemma_first_radix_found(t@, 0);
    }
    let mut j: usize = 0;
    while j < 3
        invariant
            j <= 3,
            radix_prefixes().len() == 3,
            first_radix_from(t@, 0) == first_radix_from(t@, j as nat),
        decreases 3 - j,
    {
        let (prefix, _) = radix_prefix(j);
        if starts_with(t, prefix) {
            return Some(j);
        }
        j += 1;
    }
    None
}

fn read_number(t: &str) -> (r: Result<u64, ConvError>)
    ensures
        match r {
            Ok(v) => number_value(t@) == Some(v),
            Err(e) => number_value(t@) is None && e is ParseError,
        },
{
    let n = t.unicode_len();
    let lone_zero = n == 1 && t.get_char(0) == '0';
    assert(lone_zero <==> t@ == seq!['0']) by {
        if n == 1 {
            assert(t@ == seq!['0'] <==> t@ =~= seq![t@[0]] && t@[0] == '0');
        }
    }
    let found = if lone_zero {
        None
    } else {
        find_radix(t)
    };
    let (digits, radix) = match found {
        Some(j) => {
            let (prefix, radix) = radix_prefix(j);
            (t.substring_char(prefix.unicode_len(), n), radix)
        },
        None => (t, 10u32),
    };
    if digits.unicode_len() > 0 && digits.get_char(0) == '+' {
        // std would take the sign; a lone sign is refused by std as well,
        // which gives the parse error to return.
        proof {
            reveal_strlit("+");
        }
        return match read_unsigned("+", 10) {
            Ok(_) => {
                assert(false);
                Ok(0)
            },
            Err(e) => Err(ConvError::from(e)),
        };
    }
    match read_unsigned(digits, radix) {
        Ok(v) => Ok(v),
        Err(e) => Err(ConvError::from(e)),
    }
}

/// Reads text that is already in lower case as a number and a unit
/// multiplier: at most one unit suffix is taken off the end, then at most one
/// radix prefix off the front, and what is left must be an unsigned 64-bit
/// integer in that radix.
pub fn split_lowered(t: &str) -> (r: Result<(u64, u64), ConvError>)
    ensures
        quantity_outcome(r, t@),
{
    let (rest, multiplier) = match find_unit(t) {
        Some(i) => {
            let (suffix, m) = unit_suffix(i);
            (t.substring_char(0, t.unicode_len() - suffix.unicode_len()), m)
        },
        None => (t, 1u64),
    };
    match read_number(rest) {
        Ok(v) => Ok((v, multiplier)),
        Err(e) => Err(e),
    }
}

/// Reads a quantity such as `0x10MiB`, in any case, as a number and a unit
/// multiplier; see [`split_lowered`] for what is accepted after lower-casing.
pub fn split_multiplier(value: &String) -> (r: Result<(u64, u64), ConvError>)
    ensures
        quantity_outcome(r, lower_of(value@)),
        is_ascii_chars(value@) ==> quantity_outcome(r, ascii_lower(value@)),
{
    let lowered = lowercase(value.as_str());
    split_lowered(lowered.as_str())
}

/// `r` is the product of the number and the multiplier that `t` writes,
/// wrapped to 64 bits, or a parse error where `t` writes no quantity.
pub open spec fn product_outcome(r: Result<u64, ConvError>, t: Seq<char>) -> bool {
    match quantity(t) {
        Some((n, m)) => r is Ok && r->Ok_0 == (n as nat * m as nat) % 0x1_0000_0000_0000_0000,
        None => r is Err && r->Err_0 is ParseError,
    }
}

/// The number of bytes that a quantity writes: its number times its unit
/// multiplier, wrapped to 64 bits where the product does not fit.
pub fn byte_count(value: &String) -> (r: Result<u64, ConvError>)
    ensures
        product_outcome(r, lower_of(value@)),
        is_ascii_chars(value@) ==> product_outcome(r, ascii_lower(value@)),
{
    match split_multiplier(value) {
        Ok((n, m)) => Ok(n.wrapping_mul(m)),
        Err(e) => Err(e),
    }
}

} // verus!
