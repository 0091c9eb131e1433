use std::num::ParseIntError;
use vstd::prelude::*;

verus! {

/// std's `ParseIntError`, carried unopened inside [`ConvError::ParseError`].
#[verifier::external_type_specification]
#[verifier::external_body]
pub struct ExParseIntError(ParseIntError);

/// Why a text could not be read as a quantity.
#[derive(Debug)]
pub enum ConvError {
    /// A prefix or suffix that matched could not be removed from the text.
    StringStripError(String),
    /// What is left after the prefix and suffix is not an unsigned 64-bit
    /// integer in the chosen radix.
    ParseError(ParseIntError),
}

/// Two errors are equal when they are of the same kind, whatever they carry.
pub open spec fn same_kind(a: ConvError, b: ConvError) -> bool {
    (a is StringStripError && b is StringStripError) || (a is ParseError && b is ParseError)
}

/// Relies on `ParseIntError`'s `Display` (through `to_string`) for a
/// description of the parse error; nothing is assumed of its text.
#[verifier::external_body]
fn int_error_text(e: &ParseIntError) -> String {
    e.to_string()
}

pub open spec fn strip_failure_lead() -> Seq<char> {
    "Failed to strip string prefix/suffix: "@
}

pub open spec fn parse_failure_lead() -> Seq<char> {
    "Failed to parse input: "@
}

impl ConvError {
    /// A sentence for a person: what failed, then what the error carries.
    pub fn message(&self) -> (r: String)
        ensures
            match self {
                ConvError::StringStripError(s) => r@ == strip_failure_lead() + s@,
                ConvError::ParseError(_) => exists|d: Seq<char>| r@ == parse_failure_lead() + d,
            },
    {
        match self {
            ConvError::StringStripError(s) => {
                let mut r = String::from_str("Failed to strip string prefix/suffix: ");
                r.append(s.as_str());
                r
            },
            ConvError::ParseError(e) => {
                let mut r = String::from_str("Failed to parse input: ");
                let d = int_error_text(e);
                r.append(d.as_str());
                assert(r@ == parse_failure_lead() + d@);
                r
            },
        }
    }
}

impl From<ParseIntError> for ConvError {
    fn from(err: ParseIntError) -> ConvError {
        ConvError::ParseError(err)
    }
}

impl vstd::std_specs::convert::FromSpecImpl<ParseIntError> for ConvError {
    open spec fn obeys_from_spec() -> bool {
        true
    }

    open spec fn from_spec(v: ParseIntError) -> ConvError {
        ConvError::ParseError(v)
    }
}

impl PartialEq for ConvError {
    fn eq(&self, other: &ConvError) -> (r: bool) {
        match self {
            ConvError::StringStripError(_) => matches!(other, ConvError::StringStripError(_)),
            ConvError::ParseError(_) => matches!(other, ConvError::ParseError(_)),
        }
    }
}

impl vstd::std_specs::cmp::PartialEqSpecImpl for ConvError {
    open spec fn obeys_eq_spec() -> bool {
        true
    }

    open spec fn eq_spec(&self, other: &ConvError) -> bool {
        same_kind(*self, *other)
    }
}

} // verus!
