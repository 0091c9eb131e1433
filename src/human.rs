use crate::digits::{decimal, decimal_text};
use crate::parse::{B, GIB, KIB, MIB, PIB, TIB};
use vstd::prelude::*;

verus! {

/// The units of a human-readable size, largest first: each unit's size in
/// bytes and its label.
pub open spec fn display_units() -> Seq<(u64, Seq<char>)> {
    seq![(PIB, "PiB"@), (TIB, "TiB"@), (GIB, "GiB"@), (MIB, "MiB"@), (KIB, "KiB"@), (B, "B"@)]
}

/// The terms `<count><label>` of `v` bytes over the units from index `i` on:
/// each unit that still fits takes as many of itself as it can, and a unit
/// that does not fit gives no term.
pub open spec fn terms_from(v: nat, i: nat) -> Seq<Seq<char>>
    decreases display_units().len() - i,
{
    if i >= display_units().len() {
        seq![]
    } else {
        let size = display_units()[i as int].0 as nat;
        if v >= size {
            seq![decimal(v / size) + display_units()[i as int].1] + terms_from(v % size, i + 1)
        } else {
            terms_from(v, i + 1)
        }
    }
}

/// The parts, in order, with a single space between two neighbours.
pub open spec fn join_spaced(parts: Seq<Seq<char>>) -> Seq<char>
    decreases parts.len(),
{
    if parts.len() == 0 {
        seq![]
    } else if parts.len() == 1 {
        parts[0]
    } else {
        join_spaced(parts.drop_last()) + seq![' '] + parts.last()
    }
}

/// The human-readable form of a byte count: `0B` for zero, else its terms
/// from the largest unit down, separated by spaces.
pub open spec fn human_text(value: u64) -> Seq<char> {
    if value == 0 {
        "0B"@
    } else {
        join_spaced(terms_from(value as nat, 0))
    }
}

fn display_unit(i: usize) -> (r: (u64, &'static str))
    requires
        i < display_units().len(),
    ensures
        r.0 == display_units()[i as int].0,
        r.1@ == display_units()[i as int].1,
{
    match i {
        0 => (PIB, "PiB"),
        1 => (TIB, "TiB"),
        2 => (GIB, "GiB"),
        3 => (MIB, "MiB"),
        4 => (KIB, "KiB"),
        _ => (B, "B"),
    }
}

/// Writes a byte count as a sum of binary units, largest first, with the
/// units that do not fit left out: `5MiB 3KiB 7B`, or `0B` for zero.
pub fn human_readable(value: u64) -> (r: String)
    ensures
        r@ == human_text(value),
{
    if value == 0 {
        return String::from_str("0B");
    }
    let mut v: u64 = value;
    let mut result = String::new();
    let mut first: bool = true;
    let ghost mut emitted: Seq<Seq<char>> = seq![];
    let mut i: usize = 0;
    while i < 6
        invariant
            i <= 6,
            display_units().len() == 6,
            result@ == join_spaced(emitted),
            first <==> emitted.len() == 0,
            emitted + terms_from(v as nat, i as nat) == terms_from(value as nat, 0),
        decreases 6 - i,
    {
        let (size, label) = display_unit(i);
        if v >= size {
            let count = v / size;
            let ghost rest = (v % size) as nat;
            let ghost term = decimal(count as nat) + label@;
            assert(emitted + terms_from(v as nat, i as nat) =~= emitted.push(term) + terms_from(
                rest,
                (i + 1) as nat,
            ));
            v = v % size;
            if !first {
                result.append(" ");
            }
            let count_text = decimal_text(count);
            result.append(count_text.as_str());
            result.append(label);
            proof {
                reveal_strlit(" ");
                assert(emitted.push(term).drop_last() =~= emitted);
                emitted = emitted.push(term);
            }
            assert(result@ =~= join_spaced(emitted));
            first = false;
        }
        i += 1;
    }
    assert(emitted =~= emitted + terms_from(v as nat, 6));
    result
}

} // verus!
