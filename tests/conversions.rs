use unitconv::{human_readable, split_multiplier, GIB, KIB, MIB, PIB, TIB};

#[test]
fn split_test() {
    // Parse Trivial
    assert_eq!(split_multiplier(&"123".to_string()), Ok((123, 1)));
    assert_eq!(split_multiplier(&"0".to_string()), Ok((0, 1)));
    assert_eq!(split_multiplier(&"0x0".to_string()), Ok((0, 1)));
    assert_eq!(split_multiplier(&"00".to_string()), Ok((0, 1)));
    assert_eq!(split_multiplier(&"0b0".to_string()), Ok((0, 1)));

    // Parse Suffixes Trivial
    assert_eq!(split_multiplier(&"1KIB".to_string()), Ok((1, 1024)));
    assert_eq!(split_multiplier(&"1gib".to_string()), Ok((1, GIB)));
    assert_eq!(split_multiplier(&"1mib".to_string()), Ok((1, MIB)));
    assert_eq!(split_multiplier(&"1tib".to_string()), Ok((1, TIB)));
    assert_eq!(split_multiplier(&"1pib".to_string()), Ok((1, PIB)));

    // Parse Suffixes nontrivial
    assert_eq!(split_multiplier(&"11KIB".to_string()), Ok((11, 1024)));
    assert_eq!(split_multiplier(&"12gib".to_string()), Ok((12, GIB)));
    assert_eq!(split_multiplier(&"13miB".to_string()), Ok((13, MIB)));
    assert_eq!(split_multiplier(&"14TiB".to_string()), Ok((14, TIB)));
    assert_eq!(split_multiplier(&"15pib".to_string()), Ok((15, PIB)));

    // Base conversion.
    assert_eq!(split_multiplier(&"0x10".to_string()), Ok((16, 1)));
    assert_eq!(split_multiplier(&"010".to_string()), Ok((8, 1)));
    assert_eq!(split_multiplier(&"0b10".to_string()), Ok((2, 1)));

    // Base conversion with suffixes.
    assert_eq!(split_multiplier(&"0x10mib".to_string()), Ok((16, MIB)));
    assert_eq!(split_multiplier(&"010kib".to_string()), Ok((8, KIB)));
    assert_eq!(split_multiplier(&"0b10gib".to_string()), Ok((2, GIB)));

    // Bad parses and parse failure.
    assert!(split_multiplier(&"15a".to_string()).is_err());
    assert!(split_multiplier(&"".to_string()).is_err());
    assert!(split_multiplier(&"0x15z".to_string()).is_err());
    assert!(split_multiplier(&"0x15kbkb".to_string()).is_err());
}

#[test]
fn human_readable_test() {
    assert_eq!(human_readable(KIB), "1KiB");
    assert_eq!(human_readable(MIB), "1MiB");
    assert_eq!(human_readable(GIB), "1GiB");
    assert_eq!(human_readable(TIB), "1TiB");
    assert_eq!(human_readable(PIB), "1PiB");

    assert_eq!(human_readable(3 * KIB + 5 * MIB + 7), "5MiB 3KiB 7B");
    assert_eq!(human_readable(7), "7B");
    assert_eq!(human_readable(0), "0B");
}
