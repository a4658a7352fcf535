//! A library that generates randomized passwords satisfying length,
//! character-class, repetition, and inclusion constraints, drawing from a
//! cryptographically strong random source.
//!
//! Callers request a password with given parameters and receive either a
//! generated string or a validation error. Characters are picked uniformly at
//! random from configurable pools and inserted at uniformly random positions,
//! so no character class clusters at a predictable place in the result.

use vstd::prelude::*;

mod errors;
mod generator;
mod model;

pub use crate::errors::DigitsExceedsAvailableError;
pub use crate::errors::ExceedsTotalLengthError;
pub use crate::errors::GeneratorError;
pub use crate::errors::GeneratorErrorConst;
pub use crate::errors::LettersExceedsAvailableError;
pub use crate::errors::SymbolsExceedsAvailableError;
pub use crate::generator::default_digits;
pub use crate::generator::default_letters;
pub use crate::generator::default_lower;
pub use crate::generator::default_symbols;
pub use crate::generator::default_upper;
pub use crate::generator::lemma_default_pools_sound;
pub use crate::generator::pool_or;
pub use crate::generator::random_element;
pub use crate::generator::random_insert;
pub use crate::generator::requested_digits;
pub use crate::generator::requested_lower;
pub use crate::generator::requested_symbols;
pub use crate::generator::requested_upper;
pub use crate::generator::Generator;
pub use crate::generator::GeneratorConst;
pub use crate::generator::GeneratorInput;
pub use crate::generator::PasswordGenerator;
pub use crate::model::chars_from;
pub use crate::model::composed_of;
pub use crate::model::class_split;
pub use crate::model::disjoint_pools;
pub use crate::model::distinct_chars;
pub use crate::model::drawn_from;
pub use crate::model::fails_digits;
pub use crate::model::fails_letters;
pub use crate::model::fails_symbols;
pub use crate::model::fails_total;
pub use crate::model::generated_password;
pub use crate::model::lemma_excluded_uppercase_absent;
pub use crate::model::lemma_no_foreign_char;
pub use crate::model::sound_pools;
pub use crate::model::valid_request;

verus! {

/// Generates a password from the four default pools with the given
/// requirements: the package-level shortcut for [`Generator::generate`].
pub fn generate(
    length: usize,
    num_digits: usize,
    num_symbols: usize,
    no_upper: bool,
    allow_repeat: bool,
) -> (r: Result<String, GeneratorError>)
    ensures
        r is Ok <==> valid_request(
            length as int,
            num_digits as int,
            num_symbols as int,
            allow_repeat,
            default_letters(no_upper),
            default_digits(),
            default_symbols(),
        ),
        r matches Ok(pw) ==> generated_password(
            pw@,
            length as int,
            num_digits as int,
            num_symbols as int,
            allow_repeat,
            default_letters(no_upper),
            default_digits(),
            default_symbols(),
        ),
        (r matches Err(GeneratorError::ParseExceedsTotalLengthError(_))) <==> fails_total(
            length as int,
            num_digits as int,
            num_symbols as int,
        ),
        (r matches Err(GeneratorError::ParseLettersExceedsAvailableError(_))) <==> fails_letters(
            length as int,
            num_digits as int,
            num_symbols as int,
            allow_repeat,
            default_letters(no_upper),
        ),
        (r matches Err(GeneratorError::ParseDigitsExceedsAvailableError(_))) <==> fails_digits(
            length as int,
            num_digits as int,
            num_symbols as int,
            allow_repeat,
            default_letters(no_upper),
            default_digits(),
        ),
        (r matches Err(GeneratorError::ParseSymbolsExceedsAvailableError(_))) <==> fails_symbols(
            length as int,
            num_digits as int,
            num_symbols as int,
            allow_repeat,
            default_letters(no_upper),
            default_digits(),
            default_symbols(),
        ),
{
    let gen = match Generator::new(None) {
        Ok(g) => g,
        Err(e) => {
            return Err(e);
        },
    };
    proof {
        lemma_default_pools_sound(no_upper);
        assert(gen.letters(no_upper) == default_letters(no_upper));
    }
    gen.generate(length, num_digits, num_symbols, no_upper, allow_repeat)
}

} // verus!
