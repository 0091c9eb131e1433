use unitconv::{byte_count, human_readable, ConvError, GIB, KIB, MIB, PIB, TIB};

#[test]
fn zero_renders_as_zero_bytes() {
    assert_eq!(human_readable(0), "0B");
}

#[test]
fn single_units() {
    assert_eq!(human_readable(1), "1B");
    assert_eq!(human_readable(1024), "1KiB");
    assert_eq!(human_readable(1024u64.pow(5)), "1PiB");
}

#[test]
fn largest_unit_first_and_zero_units_left_out() {
    assert_eq!(human_readable(3 * 1024 + 5 * 1024 * 1024 + 7), "5MiB 3KiB 7B");
    assert_eq!(human_readable(PIB + 1), "1PiB 1B");
    assert_eq!(human_readable(2 * TIB + 3 * GIB), "2TiB 3GiB");
    assert_eq!(human_readable(1023), "1023B");
    assert_eq!(human_readable(1025 * KIB), "1MiB 1KiB");
}

#[test]
fn counts_above_the_largest_unit() {
    assert_eq!(human_readable(2048 * PIB), "2048PiB");
    assert_eq!(
        human_readable(u64::MAX),
        "16383PiB 1023TiB 1023GiB 1023MiB 1023KiB 1023B"
    );
}

#[test]
fn one_mebibyte_end_to_end() {
    let n = byte_count(&"1mib".to_string()).unwrap();
    assert_eq!(n, 1048576);
    assert_eq!(format!("{:#x}", n), "0x100000");
    assert_eq!(human_readable(n), "1MiB");
}

#[test]
fn byte_count_multiplies_and_wraps() {
    assert_eq!(byte_count(&"3KiB".to_string()), Ok(3 * KIB));
    assert_eq!(byte_count(&"0x10MiB".to_string()), Ok(16 * MIB));
    assert_eq!(byte_count(&"16384pib".to_string()), Ok(0));
    assert_eq!(byte_count(&"16385pib".to_string()), Ok(PIB));
    assert!(matches!(byte_count(&"1x".to_string()), Err(ConvError::ParseError(_))));
    assert!(matches!(byte_count(&"+2kb".to_string()), Err(ConvError::ParseError(_))));
}

#[test]
fn errors_compare_by_kind() {
    let a = ConvError::ParseError("x".parse::<u64>().unwrap_err());
    let b = ConvError::ParseError("".parse::<u64>().unwrap_err());
    assert_eq!(a, b);
    assert_eq!(
        ConvError::StringStripError("one".to_string()),
        ConvError::StringStripError("two".to_string())
    );
    assert_ne!(a, ConvError::StringStripError("one".to_string()));
}

#[test]
fn error_messages() {
    let strip = ConvError::StringStripError("tail".to_string());
    assert_eq!(strip.message(), "Failed to strip string prefix/suffix: tail");
    let parse = ConvError::ParseError("x".parse::<u64>().unwrap_err());
    assert_eq!(parse.message(), "Failed to parse input: invalid digit found in string");
}
