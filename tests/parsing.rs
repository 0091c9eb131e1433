use unitconv::{split_lowered, split_multiplier, ConvError, GB, KB, MB, MIB, PB, PIB, TB};

fn split(s: &str) -> Result<(u64, u64), ConvError> {
    split_multiplier(&s.to_string())
}

#[test]
fn decimal_numbers_read_back() {
    for n in [0u64, 1, 9, 10, 42, 1000, 123456789, u64::MAX - 1, u64::MAX] {
        assert_eq!(split(&n.to_string()), Ok((n, 1)));
    }
}

#[test]
fn decimal_suffixes() {
    assert_eq!(split("1kb"), Ok((1, KB)));
    assert_eq!(split("1MB"), Ok((1, MB)));
    assert_eq!(split("1Gb"), Ok((1, GB)));
    assert_eq!(split("1tB"), Ok((1, TB)));
    assert_eq!(split("1pb"), Ok((1, PB)));
    assert_eq!(PB, 1_000_000_000_000_000);
}

#[test]
fn suffix_case_does_not_matter() {
    for s in ["1KIB", "1kib", "1Kib", "1kIb", "1KiB"] {
        assert_eq!(split(s), Ok((1, 1024)));
    }
    for s in ["1PIB", "1pIb", "1Pib"] {
        assert_eq!(split(s), Ok((1, PIB)));
    }
}

#[test]
fn radix_prefixes_alone() {
    assert_eq!(split("0x10"), Ok((16, 1)));
    assert_eq!(split("010"), Ok((8, 1)));
    assert_eq!(split("0b10"), Ok((2, 1)));
    assert_eq!(split("0XfF"), Ok((255, 1)));
    assert_eq!(split("0B101"), Ok((5, 1)));
}

#[test]
fn radix_prefix_with_suffix() {
    assert_eq!(split("0x10mib"), Ok((16, 1024 * 1024)));
    assert_eq!(split("0x10MiB"), Ok((16, MIB)));
}

#[test]
fn zero_alone_and_doubled() {
    assert_eq!(split("0"), Ok((0, 1)));
    assert_eq!(split("00"), Ok((0, 1)));
    assert_eq!(split("0kb"), Ok((0, KB)));
}

#[test]
fn malformed_inputs_fail_with_parse_error() {
    for s in ["", "15a", "0x15z", "0x15kbkb", "kb", "0x", "0b", "08", "0b2", "-5", "1.5", " 1", "1 "] {
        assert!(
            matches!(split(s), Err(ConvError::ParseError(_))),
            "{:?} was accepted",
            s
        );
    }
}

#[test]
fn only_one_suffix_is_taken_off() {
    assert!(split("1kbkb").is_err());
    assert!(split("1kibmib").is_err());
}

#[test]
fn overflow_fails() {
    assert!(split("18446744073709551616").is_err());
    assert!(split("0x10000000000000000").is_err());
    assert_eq!(split("0xffffffffffffffff"), Ok((u64::MAX, 1)));
}

#[test]
fn no_sign_is_accepted() {
    for s in ["+5", "0x+a", "0b+1", "+0", "+", "-0", "-5", "+1kib"] {
        assert!(
            matches!(split(s), Err(ConvError::ParseError(_))),
            "{:?} was accepted",
            s
        );
    }
    assert!(split_lowered("+5").is_err());
}

#[test]
fn lowering_follows_unicode() {
    // The Kelvin sign lowers to an ASCII `k`.
    assert_eq!(split("1\u{212A}iB"), Ok((1, 1024)));
    assert!(split("1\u{00E9}").is_err());
}

#[test]
fn split_lowered_reads_lower_case_text() {
    assert_eq!(split_lowered("0x10mib"), Ok((16, MIB)));
    assert_eq!(split_lowered("12kb"), Ok((12, KB)));
    assert!(split_lowered("1KIB").is_err());
}
