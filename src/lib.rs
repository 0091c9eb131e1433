//! Reading byte quantities such as `0x10MiB` or `12kb`, and writing byte
//! counts back as a sum of binary units (`5MiB 3KiB 7B`).

mod digits;
mod error;
mod human;
mod laws;
mod parse;

pub use digits::{decimal, digit_of, digits_value, unsigned_value};
pub use error::{parse_failure_lead, same_kind, strip_failure_lead, ConvError};
pub use human::{display_units, human_readable, human_text, join_spaced, terms_from};
pub use laws::{
    lemma_decimal_round_trip, lemma_human_text_shape, lemma_one_of_each_unit, terms_shaped,
};
pub use parse::{
    ascii_lower, ascii_lower_char, byte_count, first_radix_from, first_unit_from, has_prefix,
    has_suffix, lower_of, number_value, product_outcome, quantity, quantity_outcome, radix_prefixes,
    split_lowered, split_multiplier, split_unit, unit_suffixes, unsigned_digits, B, GB, GIB, KB, KIB, MB, MIB, PB,
    PIB, TB, TIB,
};
