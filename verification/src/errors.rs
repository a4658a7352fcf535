//! Error types for password generation.
//!
//! Every error is structurally distinct and carries no payload beyond its
//! kind; callers decide how to present failures.

use vstd::prelude::*;

verus! {

/// Returned when the number of digits and symbols is greater than the total
/// requested length.
#[derive(Debug, PartialEq, Eq, Structural)]
pub struct ExceedsTotalLengthError();

/// Returned when the number of letters exceeds the number of available
/// letters and repeats are not allowed.
#[derive(Debug, PartialEq, Eq, Structural)]
pub struct LettersExceedsAvailableError();

/// Returned when the number of digits exceeds the number of available digits
/// and repeats are not allowed.
#[derive(Debug, PartialEq, Eq, Structural)]
pub struct DigitsExceedsAvailableError();

/// Returned when the number of symbols exceeds the number of available
/// symbols and repeats are not allowed.
#[derive(Debug, PartialEq, Eq, Structural)]
pub struct SymbolsExceedsAvailableError();

/// The reasons a generation request can fail.
///
/// The validation variants carry the corresponding error value. The random
/// source and range-conversion variants are part of the error taxonomy for
/// callers that match exhaustively; the generator itself reports validation
/// failures only.
#[derive(Debug, PartialEq, Eq, Structural)]
pub enum GeneratorError {
    ParseRnd(),
    ParseExceedsTotalLengthError(ExceedsTotalLengthError),
    ParseLettersExceedsAvailableError(LettersExceedsAvailableError),
    ParseDigitsExceedsAvailableError(DigitsExceedsAvailableError),
    ParseSymbolsExceedsAvailableError(SymbolsExceedsAvailableError),
    ParseTryFromIntError(),
}

/// The messages that describe each validation failure.
pub struct GeneratorErrorConst;

impl GeneratorErrorConst {
    /// Message for [`ExceedsTotalLengthError`].
    pub const ERR_EXCEEDS_TOTAL_LENGTH: &'static str =
        "number of digits and symbols must be less than total length";

    /// Message for [`LettersExceedsAvailableError`].
    pub const ERR_LETTERS_EXCEEDS_AVAILABLE: &'static str =
        "number of letters exceeds available letters and repeats are not allowed";

    /// Message for [`DigitsExceedsAvailableError`].
    pub const ERR_DIGITS_EXCEEDS_AVAILABLE: &'static str =
        "number of digits exceeds available digits and repeats are not allowed";

    /// Message for [`SymbolsExceedsAvailableError`].
    pub const ERR_SYMBOLS_EXCEEDS_AVAILABLE: &'static str =
        "number of symbols exceeds available symbols and repeats are not allowed";
}

impl ExceedsTotalLengthError {
    /// The human-readable description of this error.
    pub fn message(&self) -> (m: &'static str)
        ensures
            m@ == GeneratorErrorConst::ERR_EXCEEDS_TOTAL_LENGTH@,
    {
        GeneratorErrorConst::ERR_EXCEEDS_TOTAL_LENGTH
    }
}

impl LettersExceedsAvailableError {
    /// The human-readable description of this error.
    pub fn message(&self) -> (m: &'static str)
        ensures
            m@ == GeneratorErrorConst::ERR_LETTERS_EXCEEDS_AVAILABLE@,
    {
        GeneratorErrorConst::ERR_LETTERS_EXCEEDS_AVAILABLE
    }
}

impl DigitsExceedsAvailableError {
    /// The human-readable description of this error.
    pub fn message(&self) -> (m: &'static str)
        ensures
            m@ == GeneratorErrorConst::ERR_DIGITS_EXCEEDS_AVAILABLE@,
    {
        GeneratorErrorConst::ERR_DIGITS_EXCEEDS_AVAILABLE
    }
}

impl SymbolsExceedsAvailableError {
    /// The human-readable description of this error.
    pub fn message(&self) -> (m: &'static str)
        ensures
            m@ == GeneratorErrorConst::ERR_SYMBOLS_EXCEEDS_AVAILABLE@,
    {
        GeneratorErrorConst::ERR_SYMBOLS_EXCEEDS_AVAILABLE
    }
}

impl GeneratorError {
    /// The human-readable description of this error.
    pub fn message(&self) -> (m: &'static str)
        ensures
            match self {
                GeneratorError::ParseExceedsTotalLengthError(_) =>
                    m@ == GeneratorErrorConst::ERR_EXCEEDS_TOTAL_LENGTH@,
                GeneratorError::ParseLettersExceedsAvailableError(_) =>
                    m@ == GeneratorErrorConst::ERR_LETTERS_EXCEEDS_AVAILABLE@,
                GeneratorError::ParseDigitsExceedsAvailableError(_) =>
                    m@ == GeneratorErrorConst::ERR_DIGITS_EXCEEDS_AVAILABLE@,
                GeneratorError::ParseSymbolsExceedsAvailableError(_) =>
                    m@ == GeneratorErrorConst::ERR_SYMBOLS_EXCEEDS_AVAILABLE@,
                _ => true,
            },
    {
        match self {
            GeneratorError::ParseRnd() => "random source error",
            GeneratorError::ParseExceedsTotalLengthError(e) => e.message(),
            GeneratorError::ParseLettersExceedsAvailableError(e) => e.message(),
            GeneratorError::ParseDigitsExceedsAvailableError(e) => e.message(),
            GeneratorError::ParseSymbolsExceedsAvailableError(e) => e.message(),
            GeneratorError::ParseTryFromIntError() => "numeric range conversion error",
        }
    }
}

} // verus!
