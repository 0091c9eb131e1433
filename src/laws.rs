use crate::digits::{decimal, decimal_char, digit_of, digits_value, unsigned_value};
use crate::human::{display_units, human_text, join_spaced, terms_from};
use crate::parse::{
    ascii_lower, first_radix_from, first_unit_from, has_prefix, has_suffix, number_value,
    quantity, radix_prefixes, split_unit, unit_suffixes,
};
use vstd::prelude::*;
use vstd::utf8::is_ascii_chars;

verus! {

proof fn lemma_decimal_char(d: nat)
    requires
        d < 10,
    ensures
        '0' <= decimal_char(d) <= '9',
        digit_of(decimal_char(d), 10) == Some(d),
        decimal_char(d) == '0' <==> d == 0,
{
    assert(decimal_char(d) as u32 == '0' as u32 + d);
}

proof fn lemma_decimal_shape(n: nat)
    ensures
        decimal(n).len() >= 1,
        forall|k: int| 0 <= k < decimal(n).len() ==> '0' <= #[trigger] decimal(n)[k] <= '9',
        decimal(n)[0] == '0' ==> n == 0,
        digits_value(decimal(n), 10) == Some(n),
    decreases n,
{
    if n < 10 {
        lemma_decimal_char(n);
        assert(decimal(n).drop_last() =~= seq![]);
        assert(digits_value(seq![], 10) == Some(0nat));
    } else {
        lemma_decimal_shape(n / 10);
        lemma_decimal_char(n % 10);
        assert(decimal(n).drop_last() =~= decimal(n / 10));
        assert((n / 10) * 10 + n % 10 == n) by (nonlinear_arith);
    }
}

proof fn lemma_unit_suffix_texts()
    ensures
        unit_suffixes()[0].0 == seq!['k', 'i', 'b'],
        unit_suffixes()[1].0 == seq!['m', 'i', 'b'],
        unit_suffixes()[2].0 == seq!['g', 'i', 'b'],
        unit_suffixes()[3].0 == seq!['t', 'i', 'b'],
        unit_suffixes()[4].0 == seq!['p', 'i', 'b'],
        unit_suffixes()[5].0 == seq!['k', 'b'],
        unit_suffixes()[6].0 == seq!['m', 'b'],
        unit_suffixes()[7].0 == seq!['g', 'b'],
        unit_suffixes()[8].0 == seq!['t', 'b'],
        unit_suffixes()[9].0 == seq!['p', 'b'],
{
    reveal_strlit("kib");
    reveal_strlit("mib");
    reveal_strlit("gib");
    reveal_strlit("tib");
    reveal_strlit("pib");
    reveal_strlit("kb");
    reveal_strlit("mb");
    reveal_strlit("gb");
    reveal_strlit("tb");
    reveal_strlit("pb");
    assert(unit_suffixes()[0].0 =~= seq!['k', 'i', 'b']);
    assert(unit_suffixes()[1].0 =~= seq!['m', 'i', 'b']);
    assert(unit_suffixes()[2].0 =~= seq!['g', 'i', 'b']);
    assert(unit_suffixes()[3].0 =~= seq!['t', 'i', 'b']);
    assert(unit_suffixes()[4].0 =~= seq!['p', 'i', 'b']);
    assert(unit_suffixes()[5].0 =~= seq!['k', 'b']);
    assert(unit_suffixes()[6].0 =~= seq!['m', 'b']);
    assert(unit_suffixes()[7].0 =~= seq!['g', 'b']);
    assert(unit_suffixes()[8].0 =~= seq!['t', 'b']);
    assert(unit_suffixes()[9].0 =~= seq!['p', 'b']);
}

proof fn lemma_suffixes_end_in_b()
    ensures
        forall|i: int|
            0 <= i < unit_suffixes().len() ==> #[trigger] unit_suffixes()[i].0.len() >= 2
                && unit_suffixes()[i].0.last() == 'b',
{
    lemma_unit_suffix_texts();
}

proof fn lemma_prefixes_start_with_zero()
    ensures
        forall|j: int|
            0 <= j < radix_prefixes().len() ==> #[trigger] radix_prefixes()[j].0.len() >= 1
                && radix_prefixes()[j].0[0] == '0',
{
    reveal_strlit("0x");
    reveal_strlit("0b");
    reveal_strlit("0");
}

proof fn lemma_no_unit_from(t: Seq<char>, i: nat)
    requires
        t.len() >= 1,
        t.last() != 'b',
    ensures
        first_unit_from(t, i) is None,
    decreases unit_suffixes().len() - i,
{
    if i < unit_suffixes().len() {
        lemma_suffixes_end_in_b();
        let s = unit_suffixes()[i as int].0;
        if has_suffix(t, s) {
            assert(t.subrange(t.len() - s.len(), t.len() as int)[s.len() - 1] == t.last());
        }
        lemma_no_unit_from(t, i + 1);
    }
}

proof fn lemma_no_radix_from(t: Seq<char>, j: nat)
    requires
        t.len() >= 1,
        t[0] != '0',
    ensures
        first_radix_from(t, j) is None,
    decreases radix_prefixes().len() - j,
{
    if j < radix_prefixes().len() {
        lemma_prefixes_start_with_zero();
        let p = radix_prefixes()[j as int].0;
        if has_prefix(t, p) {
            assert(t.subrange(0, p.len() as int)[0] == t[0]);
        }
        lemma_no_radix_from(t, j + 1);
    }
}

proof fn lemma_first_unit_is(t: Seq<char>, k: nat, i: nat)
    requires
        k <= i < unit_suffixes().len(),
        has_suffix(t, unit_suffixes()[i as int].0),
        forall|j: int| k <= j < i ==> !has_suffix(t, #[trigger] unit_suffixes()[j].0),
    ensures
        first_unit_from(t, k) == Some(i),
    decreases i - k,
{
    if k < i {
        lemma_first_unit_is(t, k + 1, i);
    }
}

/// Any unsigned 64-bit number written in decimal reads back as itself, with
/// multiplier 1.
pub proof fn lemma_decimal_round_trip(n: u64)
    ensures
        is_ascii_chars(decimal(n as nat)),
        quantity(ascii_lower(decimal(n as nat))) == Some((n, 1u64)),
{
    let d = decimal(n as nat);
    lemma_decimal_shape(n as nat);
    assert(ascii_lower(d) =~= d);
    lemma_no_unit_from(d, 0);
    assert(split_unit(d) == (d, 1u64));
    if n == 0 {
        assert(d =~= seq!['0']);
    } else {
        lemma_no_radix_from(d, 0);
    }
    assert(unsigned_value(d, 10) == Some(n));
}


/// `1` followed by any unit suffix, in any mix of upper and lower case, reads
/// as the number 1 with that suffix's multiplier.
pub proof fn lemma_one_of_each_unit(u: Seq<char>, i: int)
    requires
        0 <= i < unit_suffixes().len(),
        is_ascii_chars(u),
        ascii_lower(u) == seq!['1'] + unit_suffixes()[i].0,
    ensures
        quantity(ascii_lower(u)) == Some((1u64, unit_suffixes()[i].1)),
{
    let s = unit_suffixes()[i].0;
    let t = seq!['1'] + s;
    lemma_suffixes_end_in_b();
    lemma_unit_suffix_texts();
    assert(t.subrange(1, t.len() as int) =~= s);
    assert forall|j: int| 0 <= j < i implies !has_suffix(t, #[trigger] unit_suffixes()[j].0) by {
        let sj = unit_suffixes()[j].0;
        if has_suffix(t, sj) {
            assert(t.subrange(t.len() - sj.len(), t.len() as int)[0] == sj[0]);
        }
    }
    lemma_first_unit_is(t, 0, i as nat);
    let one = seq!['1'];
    assert(split_unit(t).0 =~= one);
    lemma_no_radix_from(one, 0);
    assert(one.drop_last() =~= seq![]);
    assert(digits_value(seq![], 10) == Some(0nat));
    assert(digit_of('1', 10) == Some(1nat));
    assert(unsigned_value(one, 10) == Some(1u64));
}

/// `terms` are `<count><label>` texts, with `counts[k]` at least 1 and
/// `units[k]` indexing the unit table in strictly increasing order, that is
/// larger units first and each unit at most once.
pub open spec fn terms_shaped(terms: Seq<Seq<char>>, units: Seq<int>, counts: Seq<nat>) -> bool {
    &&& units.len() == terms.len()
    &&& counts.len() == terms.len()
    &&& forall|k: int|
        0 <= k < terms.len() ==> 0 <= #[trigger] units[k] < display_units().len() && counts[k] >= 1
            && terms[k] == decimal(counts[k]) + display_units()[units[k]].1
    &&& forall|k1: int, k2: int| 0 <= k1 < k2 < terms.len() ==> units[k1] < units[k2]
}

proof fn lemma_terms_witness(v: nat, i: nat) -> (w: (Seq<int>, Seq<nat>))
    requires
        i <= display_units().len(),
    ensures
        terms_shaped(terms_from(v, i), w.0, w.1),
        forall|k: int| 0 <= k < w.0.len() ==> i <= #[trigger] w.0[k],
        v > 0 && i < display_units().len() ==> terms_from(v, i).len() >= 1,
    decreases display_units().len() - i,
{
    if i >= display_units().len() {
        (seq![], seq![])
    } else {
        let size = display_units()[i as int].0 as nat;
        assert(size >= 1);
        assert(i == 5 ==> size == 1);
        if v >= size {
            let rest = lemma_terms_witness(v % size, i + 1);
            assert(v / size >= 1) by (nonlinear_arith)
                requires
                    v >= size,
                    size >= 1,
            ;
            let units = seq![i as int] + rest.0;
            let counts = seq![v / size] + rest.1;
            let terms = terms_from(v, i);
            assert(terms == seq![decimal(v / size) + display_units()[i as int].1] + terms_from(
                v % size,
                i + 1,
            ));
            assert forall|k: int| 0 <= k < terms.len() implies 0 <= #[trigger] units[k]
                < display_units().len() && counts[k] >= 1 && terms[k] == decimal(counts[k])
                + display_units()[units[k]].1 by {
                if k > 0 {
                    assert(units[k] == rest.0[k - 1]);
                }
            }
            assert forall|k1: int, k2: int|
                0 <= k1 < k2 < terms.len() implies units[k1] < units[k2] by {
                if k1 > 0 {
                    assert(units[k1] == rest.0[k1 - 1]);
                }
                assert(units[k2] == rest.0[k2 - 1]);
            }
            assert forall|k: int| 0 <= k < units.len() implies i <= #[trigger] units[k] by {
                if k > 0 {
                    assert(units[k] == rest.0[k - 1]);
                }
            }
            (units, counts)
        } else {
            lemma_terms_witness(v, i + 1)
        }
    }
}

proof fn lemma_join_first(parts: Seq<Seq<char>>)
    requires
        parts.len() >= 1,
        forall|k: int| 0 <= k < parts.len() ==> (#[trigger] parts[k]).len() >= 1,
    ensures
        join_spaced(parts).len() >= 1,
        join_spaced(parts)[0] == parts[0][0],
        join_spaced(parts).last() == parts.last().last(),
    decreases parts.len(),
{
    if parts.len() > 1 {
        let init = parts.drop_last();
        assert(init[0] == parts[0]);
        lemma_join_first(init);
    }
}

/// A positive byte count renders as one or more `<count><label>` terms joined
/// by single spaces, each count at least 1, the units largest first and none
/// twice; the text neither starts nor ends with a space.
pub proof fn lemma_human_text_shape(value: u64)
    requires
        value > 0,
    ensures
        human_text(value) == join_spaced(terms_from(value as nat, 0)),
        terms_from(value as nat, 0).len() >= 1,
        exists|units: Seq<int>, counts: Seq<nat>|
            terms_shaped(terms_from(value as nat, 0), units, counts),
        human_text(value)[0] != ' ',
        human_text(value).last() != ' ',
{
    let terms = terms_from(value as nat, 0);
    let w = lemma_terms_witness(value as nat, 0);
    reveal_strlit("PiB");
    reveal_strlit("TiB");
    reveal_strlit("GiB");
    reveal_strlit("MiB");
    reveal_strlit("KiB");
    reveal_strlit("B");
    assert forall|k: int| 0 <= k < terms.len() implies (#[trigger] terms[k]).len() >= 1
        && terms[k].last() == 'B' && terms[k][0] != ' ' by {
        let u = w.0[k];
        let c = w.1[k];
        lemma_decimal_shape(c);
        assert(display_units()[u].1.last() == 'B');
        assert(terms[k][0] == decimal(c)[0]);
    }
    lemma_join_first(terms);
}

} // verus!
